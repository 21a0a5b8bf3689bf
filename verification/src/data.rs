use vstd::prelude::*;
use crate::constants::DATA_SIZE;
use crate::constants::MAX_PAYLOAD_SIZE;
use crate::constants::NONCE_SIZE;
use crate::constants::TAG_SIZE;
use crate::crypto::aead_open;
use crate::crypto::aead_seal;
use crate::crypto::chacha_open;
use crate::crypto::chacha_seal;
use crate::crypto::x_dh;
use crate::crypto::x_pub_of;
use crate::errors::CopernicaError;
use crate::identity::spec_id_bytes_of;
use crate::identity::spec_session_key;
use crate::identity::PrivateIdentity;
use crate::identity::PublicIdentity;
use crate::wire_ints::be16;
use crate::wire_ints::u16_to_u8;
use crate::wire_ints::u8_to_u16;

verus! {

/// The fixed data block that a payload occupies on the wire: two big-endian
/// length bytes, the payload, and zero padding up to the block size.
pub open spec fn spec_block_of(payload: Seq<u8>) -> Seq<u8>
    recommends
        payload.len() <= MAX_PAYLOAD_SIZE,
{
    seq![
        ((payload.len() as int / 256) as u8),
        ((payload.len() as int % 256) as u8),
    ] + payload + Seq::new((MAX_PAYLOAD_SIZE - payload.len()) as nat, |i: int| 0u8)
}

/// The payload a data block carries, when its length bytes are sound.
pub open spec fn spec_payload_of(block: Seq<u8>) -> Option<Seq<u8>>
    recommends
        block.len() == DATA_SIZE,
{
    let l = be16(block[0], block[1]);
    if l <= MAX_PAYLOAD_SIZE {
        Some(block.subrange(2, 2 + l))
    } else {
        None
    }
}

/// Law: a data block gives its payload back.
pub proof fn lemma_block_round_trip(payload: Seq<u8>)
    requires
        payload.len() <= MAX_PAYLOAD_SIZE,
    ensures
        spec_block_of(payload).len() == DATA_SIZE,
        spec_payload_of(spec_block_of(payload)) == Some(payload),
{
    let block = spec_block_of(payload);
    let l = payload.len() as int;
    assert(block[0] == (l / 256) as u8);
    assert(block[1] == (l % 256) as u8);
    assert(be16(block[0], block[1]) == l);
    assert(block.subrange(2, 2 + l) =~= payload);
}

/// A data block: always exactly the wire size. Its view is its bytes.
#[derive(Clone, Copy, Debug)]
pub struct Data {
    block: [u8; DATA_SIZE],
}

impl View for Data {
    type V = Seq<u8>;

    closed spec fn view(&self) -> Seq<u8> {
        self.block@
    }
}

/// Law: every data block has the wire size.
pub broadcast proof fn lemma_data_len(d: Data)
    ensures
        #[trigger] d@.len() == DATA_SIZE,
{
}

impl Data {
    /// Frames a payload into a data block; payloads over the block's
    /// capacity are rejected.
    pub fn new(data: Vec<u8>) -> (r: Result<Data, CopernicaError>)
        ensures
            data@.len() <= MAX_PAYLOAD_SIZE ==> (r matches Ok(d) && d@ == spec_block_of(data@)),
            data@.len() > MAX_PAYLOAD_SIZE ==> (r matches Err(e) && e == CopernicaError::CodecError),
    {
        if data.len() > MAX_PAYLOAD_SIZE {
            return Err(CopernicaError::CodecError);
        }
        let len_bytes = u16_to_u8(data.len() as u16);
        proof {
            crate::wire_ints::lemma_u16_round_trip(
                len_bytes[0],
                len_bytes[1],
                data@.len() as u16,
            );
        }
        let mut block = [0u8; DATA_SIZE];
        block[0] = len_bytes[0];
        block[1] = len_bytes[1];
        let mut i: usize = 0;
        while i < data.len()
            invariant
                i <= data@.len(),
                data@.len() <= MAX_PAYLOAD_SIZE,
                block@.len() == DATA_SIZE,
                block@[0] == (data@.len() as int / 256) as u8,
                block@[1] == (data@.len() as int % 256) as u8,
                forall|k: int| 0 <= k < i ==> block@[2 + k] == data@[k],
                forall|k: int| 2 + data@.len() <= k < DATA_SIZE ==> block@[k] == 0u8,
            decreases data@.len() - i,
        {
            block[2 + i] = data[i];
            i += 1;
        }
        proof {
            assert(block@ =~= spec_block_of(data@));
        }
        Ok(Data { block })
    }

    /// Adopts a full block as it came off the wire; anything but the block
    /// size is rejected.
    pub fn from_block(block: Vec<u8>) -> (r: Result<Data, CopernicaError>)
        ensures
            block@.len() == DATA_SIZE ==> (r matches Ok(d) && d@ == block@),
            block@.len() != DATA_SIZE ==> (r matches Err(e) && e == CopernicaError::CodecError),
    {
        if block.len() != DATA_SIZE {
            return Err(CopernicaError::CodecError);
        }
        let arr = crate::bytes::read_array::<DATA_SIZE>(&block, 0);
        proof {
            assert(arr@ =~= block@);
        }
        Ok(Data { block: arr })
    }

    /// The block's bytes, as they stand on the wire.
    pub fn raw_data(&self) -> (r: Vec<u8>)
        ensures
            r@ == self@,
    {
        let mut v: Vec<u8> = Vec::new();
        crate::bytes::extend_bytes(&mut v, &self.block);
        proof {
            assert(v@ =~= self@);
        }
        v
    }

    /// The payload framed in the block; fails when the length bytes claim
    /// more than the block can carry.
    pub fn payload(&self) -> (r: Result<Vec<u8>, CopernicaError>)
        ensures
            match r {
                Ok(p) => spec_payload_of(self@) == Some(p@),
                Err(e) => spec_payload_of(self@) is None && e == CopernicaError::CodecError,
            },
    {
        let l = u8_to_u16([self.block[0], self.block[1]]);
        if l as usize > MAX_PAYLOAD_SIZE {
            return Err(CopernicaError::CodecError);
        }
        let mut v: Vec<u8> = Vec::new();
        let mut i: usize = 0;
        while i < l as usize
            invariant
                i <= l,
                l <= MAX_PAYLOAD_SIZE,
                self@.len() == DATA_SIZE,
                v@ == self@.subrange(2, 2 + i),
            decreases l - i,
        {
            v.push(self.block[2 + i]);
            proof {
                assert(v@ =~= self@.subrange(2, 2 + i + 1));
            }
            i += 1;
        }
        Ok(v)
    }
}

/// What a response carries: a clear data block, or an encrypted one with
/// its authentication tag.
#[derive(Clone, Copy, Debug)]
pub enum ResponseData {
    ClearText { data: Data },
    CypherText { data: Data, tag: [u8; TAG_SIZE] },
}

/// The session key the responder derives towards a requester for one nonce.
pub open spec fn responder_key(
    response_sid: (Seq<u8>, Seq<u8>),
    request_pid: PublicIdentity,
    nonce: Seq<u8>,
) -> Seq<u8> {
    spec_session_key(
        x_dh(response_sid.0, request_pid.exch_key@),
        spec_id_bytes_of(response_sid),
        request_pid.spec_bytes(),
        nonce,
    )
}

/// The session key the requester derives towards a responder for one nonce.
pub open spec fn requester_key(
    request_sid: (Seq<u8>, Seq<u8>),
    response_pid: PublicIdentity,
    nonce: Seq<u8>,
) -> Seq<u8> {
    spec_session_key(
        x_dh(request_sid.0, response_pid.exch_key@),
        response_pid.spec_bytes(),
        spec_id_bytes_of(request_sid),
        nonce,
    )
}

/// What opening an encrypted response with a key yields: the framed
/// payload when the tag authenticates, nothing otherwise.
pub open spec fn spec_opened(key: Seq<u8>, nonce: Seq<u8>, rd: ResponseData) -> Option<Seq<u8>> {
    match rd {
        ResponseData::CypherText { data, tag } => match aead_open(key, nonce, data@, tag@) {
            Some(block) => spec_payload_of(block),
            None => None,
        },
        ResponseData::ClearText { .. } => None,
    }
}

impl ResponseData {
    /// The bytes that the manifest signs: the data block as it stands on
    /// the wire, clear or encrypted.
    pub open spec fn spec_manifest_data(&self) -> Seq<u8> {
        match self {
            ResponseData::ClearText { data } => data@,
            ResponseData::CypherText { data, .. } => data@,
        }
    }

    /// Frames a payload as a clear-text response.
    pub fn clear_text(data: Vec<u8>) -> (r: Result<ResponseData, CopernicaError>)
        ensures
            data@.len() <= MAX_PAYLOAD_SIZE ==> (r matches Ok(rd) && rd matches
                ResponseData::ClearText { data: d } && d@ == spec_block_of(data@)),
            data@.len() > MAX_PAYLOAD_SIZE ==> (r matches Err(e) && e
                == CopernicaError::CodecError),
    {
        let d = Data::new(data)?;
        Ok(ResponseData::ClearText { data: d })
    }

    /// Frames a payload and encrypts it for the requester, under the
    /// session key the responder shares with it for this nonce.
    pub fn cypher_text(
        response_sid: &PrivateIdentity,
        request_pid: &PublicIdentity,
        data: Vec<u8>,
        nonce: [u8; NONCE_SIZE],
    ) -> (r: Result<ResponseData, CopernicaError>)
        ensures
            data@.len() > MAX_PAYLOAD_SIZE ==> (r matches Err(e) && e
                == CopernicaError::CodecError),
            data@.len() <= MAX_PAYLOAD_SIZE ==> (r matches Ok(rd) && rd matches
                ResponseData::CypherText { data: d, tag } && ({
                let key = responder_key(response_sid@, *request_pid, nonce@);
                let block = spec_block_of(data@);
                &&& d@ == aead_seal(key, nonce@, block).0
                &&& tag@ == aead_seal(key, nonce@, block).1
                &&& aead_open(key, nonce@, d@, tag@) == Some(block)
            })),
    {
        let d = Data::new(data)?;
        let own_pid = response_sid.public_id();
        proof {
            assert(own_pid.spec_bytes() =~= spec_id_bytes_of(response_sid@));
        }
        let key = response_sid.session_key(&request_pid.exch_key, &own_pid, request_pid, &nonce);
        let block_vec = d.raw_data();
        let (ct, tag) = chacha_seal(&key, &nonce, &block_vec);
        let ct_data = match Data::from_block(ct) {
            Ok(cd) => cd,
            Err(_) => {
                return Err(CopernicaError::CodecError);
            },
        };
        Ok(ResponseData::CypherText { data: ct_data, tag })
    }

    /// Adopts a clear data block as it came off the wire.
    pub fn reconstitute_clear_text(data: Data) -> (r: ResponseData)
        ensures
            r matches ResponseData::ClearText { data: d } && d@ == data@,
    {
        ResponseData::ClearText { data }
    }

    /// Adopts an encrypted data block and its tag as they came off the wire.
    pub fn reconstitute_cypher_text(tag: [u8; TAG_SIZE], data: Data) -> (r: ResponseData)
        ensures
            r matches ResponseData::CypherText { data: d, tag: t } && d@ == data@ && t@ == tag@,
    {
        ResponseData::CypherText { data, tag }
    }

    /// The bytes that the manifest signs.
    pub fn manifest_data(&self) -> (r: Vec<u8>)
        ensures
            r@ == self.spec_manifest_data(),
    {
        match self {
            ResponseData::ClearText { data } => data.raw_data(),
            ResponseData::CypherText { data, .. } => data.raw_data(),
        }
    }

    /// Decrypts an encrypted response with the requester's session key and
    /// unframes the payload. Clear-text responses have nothing to decrypt.
    pub fn decrypt_data(
        &self,
        request_sid: &PrivateIdentity,
        response_pid: &PublicIdentity,
        nonce: &[u8; NONCE_SIZE],
    ) -> (r: Result<Vec<u8>, CopernicaError>)
        ensures
            ({
                let key = requester_key(request_sid@, *response_pid, nonce@);
                &&& (r matches Ok(pt) ==> spec_opened(key, nonce@, *self) == Some(pt@))
                &&& (r matches Err(e) ==> spec_opened(key, nonce@, *self) is None && (match self {
                    ResponseData::ClearText { .. } => e == CopernicaError::IllegalTransition,
                    ResponseData::CypherText { .. } => e == CopernicaError::DecryptionFailed,
                }))
                &&& (self matches ResponseData::CypherText { .. } ==> forall|other: Seq<u8>|
                    response_pid.exch_key@ == #[trigger] x_pub_of(other) ==> key
                        == spec_session_key(
                        x_dh(other, x_pub_of(request_sid@.0)),
                        response_pid.spec_bytes(),
                        spec_id_bytes_of(request_sid@),
                        nonce@,
                    ))
            }),
    {
        match self {
            ResponseData::ClearText { .. } => Err(CopernicaError::IllegalTransition),
            ResponseData::CypherText { data, tag } => {
                let own_pid = request_sid.public_id();
                proof {
                    assert(own_pid.spec_bytes() =~= spec_id_bytes_of(request_sid@));
                }
                let key = request_sid.session_key(
                    &response_pid.exch_key,
                    response_pid,
                    &own_pid,
                    nonce,
                );
                let block_vec = data.raw_data();
                match chacha_open(&key, nonce, &block_vec, tag) {
                    Some(block) => {
                        let d = match Data::from_block(block) {
                            Ok(d) => d,
                            Err(_) => {
                                return Err(CopernicaError::DecryptionFailed);
                            },
                        };
                        match d.payload() {
                            Ok(p) => Ok(p),
                            Err(_) => Err(CopernicaError::DecryptionFailed),
                        }
                    },
                    None => Err(CopernicaError::DecryptionFailed),
                }
            },
        }
    }
}

} // verus!
