use vstd::prelude::*;

verus! {

/// The failures the library reports at its boundary.
#[derive(Clone, Copy, Debug, PartialEq, Eq, Structural)]
pub enum CopernicaError {
    /// An HBFI identity field disagrees with the key presented.
    IdentityMismatch,
    /// A packet-algebra transition that the lifecycle forbids.
    IllegalTransition,
    /// The manifest signature did not check out.
    SignatureInvalid,
    /// AEAD authentication or key agreement failed.
    DecryptionFailed,
    /// A truncated buffer, an unknown reply-to length, an unknown
    /// narrow-waist size, or an uncorrectable outer-frame block.
    CodecError,
    /// A queue with no live peer.
    ChannelClosed,
}

} // verus!
