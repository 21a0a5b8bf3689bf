use vstd::prelude::*;

verus! {

/// Number of 16-bit entries in one Bloom-filter index.
pub const BFI_WORD_COUNT: usize = 4;

/// Wire size of one Bloom-filter index: four big-endian 16-bit entries.
pub const BFI_BYTE_SIZE: usize = 8;

/// Number of Bloom-filter indices in an HBFI: res, req, app, m0d, fun, arg.
pub const BFI_COUNT: usize = 6;

/// Wire size of a 64-bit integer.
pub const U64_SIZE: usize = 8;

/// Size of the nonce carried by every packet.
pub const NONCE_SIZE: usize = 12;

/// Size of an AEAD authentication tag.
pub const TAG_SIZE: usize = 16;

/// Size of a signature over a manifest.
pub const SIGNATURE_SIZE: usize = 64;

/// Size of one half of an identity's public key material
/// (the signing key and the exchange key are each this long).
pub const KEY_SIZE: usize = 32;

/// Wire size of an identity's public key material:
/// a signing key followed by an exchange key.
pub const ID_SIZE: usize = 64;

/// Size of an identity's chain code.
pub const CC_SIZE: usize = 32;

/// Size of a private identity's seed.
pub const SEED_SIZE: usize = 32;

/// Fixed wire size of a response's data block: a two-byte big-endian
/// length followed by the payload, zero-padded to this total.
pub const DATA_SIZE: usize = 1024;

/// Largest payload that fits in a data block.
pub const MAX_PAYLOAD_SIZE: usize = 1022;

/// Wire size of a clear-text response's data: the data block alone.
pub const CLEARTEXT_RESPONSE_DATA_SIZE: usize = 1024;

/// Wire size of a cypher-text response's data: tag, then data block.
pub const CYPHERTEXT_RESPONSE_DATA_SIZE: usize = 1040;

/// Wire size of an HBFI without a request identity.
pub const CLEARTEXT_HBFI_SIZE: usize = 152;

/// Wire size of an HBFI with a request identity.
pub const CYPHERTEXT_HBFI_SIZE: usize = 248;

/// Offset of the 64-bit offset field inside a serialized HBFI.
pub const HBFI_OFFSET_START: usize = 48;

/// End of the 64-bit offset field inside a serialized HBFI.
pub const HBFI_OFFSET_END: usize = 56;

/// The four narrow-waist packet sizes; the deserializer dispatches on them.
pub const CLEARTEXT_NARROW_WAIST_PACKET_REQUEST_SIZE: usize = 164;

pub const CYPHERTEXT_NARROW_WAIST_PACKET_REQUEST_SIZE: usize = 260;

pub const CLEARTEXT_NARROW_WAIST_PACKET_RESPONSE_SIZE: usize = 1268;

pub const CYPHERTEXT_NARROW_WAIST_PACKET_RESPONSE_SIZE: usize = 1380;

/// Reply-to wire lengths; the deserializer dispatches on them.
pub const TO_REPLY_TO_MPSC: usize = 0;

pub const TO_REPLY_TO_UDPIP4: usize = 6;

pub const TO_REPLY_TO_UDPIP6: usize = 18;

pub const TO_REPLY_TO_RF: usize = 8;

/// Number of bits in a link's Bloom filter.
pub const BLOOM_FILTER_LENGTH: usize = 2048;

/// Reed-Solomon framing: data bytes and parity bytes per 255-byte block.
pub const RS_BLOCK_SIZE: usize = 255;

pub const RS_PARITY_SIZE: usize = 6;

pub const RS_DATA_SIZE: usize = 249;

} // verus!
