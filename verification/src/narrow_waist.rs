use vstd::prelude::*;
use crate::codec::manifest;
use crate::codec::spec_manifest;
use crate::constants::MAX_PAYLOAD_SIZE;
use crate::constants::NONCE_SIZE;
use crate::constants::SIGNATURE_SIZE;
use crate::crypto::aead_open;
use crate::crypto::ed_verify;
use crate::crypto::generate_nonce;
use crate::crypto::x_pub_of;
use crate::data::lemma_block_round_trip;
use crate::data::requester_key;
use crate::data::responder_key;
use crate::data::spec_block_of;
use crate::data::spec_opened;
use crate::data::ResponseData;
use crate::errors::CopernicaError;
use crate::hbfi::HBFI;
use crate::identity::lemma_public_id_bytes;
use crate::identity::spec_is_public_id_of;
use crate::identity::PrivateIdentity;

verus! {

/// The one packet format every participant understands: a Request naming
/// what is wanted, or a signed Response carrying it.
#[derive(Clone, Copy, Debug)]
pub enum NarrowWaistPacket {
    Request { hbfi: HBFI, nonce: [u8; NONCE_SIZE] },
    Response {
        hbfi: HBFI,
        nonce: [u8; NONCE_SIZE],
        signature: [u8; SIGNATURE_SIZE],
        data: ResponseData,
        offset: u64,
        total: u64,
    },
}

impl NarrowWaistPacket {
    /// The name either packet kind carries.
    pub open spec fn spec_hbfi(&self) -> HBFI {
        match *self {
            NarrowWaistPacket::Request { hbfi, .. } => hbfi,
            NarrowWaistPacket::Response { hbfi, .. } => hbfi,
        }
    }

    /// What a response carries; meaningless for requests.
    pub open spec fn spec_rdata(&self) -> ResponseData {
        match *self {
            NarrowWaistPacket::Response { data, .. } => data,
            NarrowWaistPacket::Request { .. } => arbitrary(),
        }
    }

    /// A response's offset field; meaningless for requests.
    pub open spec fn spec_offset(&self) -> u64 {
        match *self {
            NarrowWaistPacket::Response { offset, .. } => offset,
            NarrowWaistPacket::Request { .. } => arbitrary(),
        }
    }

    /// A response's total field; meaningless for requests.
    pub open spec fn spec_total(&self) -> u64 {
        match *self {
            NarrowWaistPacket::Response { total, .. } => total,
            NarrowWaistPacket::Request { .. } => arbitrary(),
        }
    }

    /// Whether a response's signature covers its manifest under the
    /// signing key its name declares. False of every request.
    pub open spec fn spec_verified(&self) -> bool {
        match *self {
            NarrowWaistPacket::Response { hbfi, nonce, signature, data, offset, total } =>
                ed_verify(
                hbfi.response_pid.sign_key@,
                spec_manifest(data.spec_manifest_data(), hbfi, offset, total, nonce@),
                signature@,
            ),
            NarrowWaistPacket::Request { .. } => false,
        }
    }

    /// Whether this packet is a response whose encrypted block opens, under
    /// the key the given responder shares with the name's requester for the
    /// packet's nonce, to the framing of the given payload.
    pub open spec fn spec_cypher_payload(
        &self,
        response_sid: (Seq<u8>, Seq<u8>),
        payload: Seq<u8>,
    ) -> bool {
        &&& *self matches NarrowWaistPacket::Response { hbfi, nonce, data, .. }
            && hbfi.request_pid matches Some(q) && data matches ResponseData::CypherText {
            data: d,
            tag,
        } && aead_open(responder_key(response_sid, q, nonce@), nonce@, d@, tag@) == Some(
            spec_block_of(payload),
        )
    }

    /// The failure decrypting a packet with a requester's identity meets,
    /// if any: requests and unbound names cannot be decrypted, the name
    /// must bind this requester, the signature must check out, and the
    /// encrypted block must authenticate.
    pub open spec fn spec_decrypt_err(&self, request_sid: (Seq<u8>, Seq<u8>)) -> Option<
        CopernicaError,
    > {
        match *self {
            NarrowWaistPacket::Request { .. } => Some(CopernicaError::IllegalTransition),
            NarrowWaistPacket::Response { hbfi, nonce, data, .. } => match hbfi.request_pid {
                None => Some(CopernicaError::IllegalTransition),
                Some(q) => if !spec_is_public_id_of(q, request_sid) {
                    Some(CopernicaError::IdentityMismatch)
                } else if !self.spec_verified() {
                    Some(CopernicaError::SignatureInvalid)
                } else {
                    match data {
                        ResponseData::ClearText { .. } => Some(CopernicaError::IllegalTransition),
                        ResponseData::CypherText { .. } => if spec_opened(
                            requester_key(request_sid, hbfi.response_pid, nonce@),
                            nonce@,
                            data,
                        ) is None {
                            Some(CopernicaError::DecryptionFailed)
                        } else {
                            None
                        },
                    }
                },
            },
        }
    }

    /// Builds and signs a clear-text response: the payload framed in a
    /// data block, the manifest signed by the responder.
    fn sign_clear(
        response_sid: &PrivateIdentity,
        hbfi: HBFI,
        payload: Vec<u8>,
        offset: u64,
        total: u64,
    ) -> (r: Result<NarrowWaistPacket, CopernicaError>)
        requires
            spec_is_public_id_of(hbfi.response_pid, response_sid@),
        ensures
            payload@.len() > MAX_PAYLOAD_SIZE ==> (r matches Err(e) && e
                == CopernicaError::CodecError),
            payload@.len() <= MAX_PAYLOAD_SIZE ==> (r matches Ok(p) && p is Response
                && p.spec_hbfi() == hbfi && p.spec_offset() == offset && p.spec_total() == total
                && (p.spec_rdata() matches ResponseData::ClearText { data: d } && d@
                == spec_block_of(payload@)) && p.spec_verified()),
    {
        let nonce = generate_nonce();
        let rd = ResponseData::clear_text(payload)?;
        let m = manifest(rd.manifest_data(), &hbfi, offset, total, &nonce);
        let signature = response_sid.sign(&m);
        Ok(NarrowWaistPacket::Response { hbfi, nonce, offset, total, data: rd, signature })
    }

    /// Builds and signs an encrypted response: the payload framed, sealed
    /// for the requester the name binds, and the manifest signed.
    fn seal_cypher(
        response_sid: &PrivateIdentity,
        hbfi: HBFI,
        payload: Vec<u8>,
        offset: u64,
        total: u64,
    ) -> (r: Result<NarrowWaistPacket, CopernicaError>)
        requires
            spec_is_public_id_of(hbfi.response_pid, response_sid@),
            hbfi.request_pid is Some,
        ensures
            payload@.len() > MAX_PAYLOAD_SIZE ==> (r matches Err(e) && e
                == CopernicaError::CodecError),
            payload@.len() <= MAX_PAYLOAD_SIZE ==> (r matches Ok(p) && p is Response
                && p.spec_hbfi() == hbfi && p.spec_offset() == offset && p.spec_total() == total
                && p.spec_verified() && p.spec_cypher_payload(response_sid@, payload@)),
    {
        let request_pid = match &hbfi.request_pid {
            Some(q) => *q,
            None => {
                proof {
                    assert(false);
                }
                return Err(CopernicaError::IllegalTransition);
            },
        };
        let nonce = generate_nonce();
        let rd = ResponseData::cypher_text(response_sid, &request_pid, payload, nonce)?;
        let m = manifest(rd.manifest_data(), &hbfi, offset, total, &nonce);
        let signature = response_sid.sign(&m);
        Ok(NarrowWaistPacket::Response { hbfi, nonce, offset, total, data: rd, signature })
    }

    /// A consumer's request for a name, with a fresh nonce.
    pub fn request(hbfi: HBFI) -> (r: Result<NarrowWaistPacket, CopernicaError>)
        ensures
            r matches Ok(p) && p matches NarrowWaistPacket::Request { hbfi: h, .. } && h == hbfi,
    {
        let nonce = generate_nonce();
        Ok(NarrowWaistPacket::Request { hbfi, nonce })
    }

    /// A producer's clear-text response to a name that binds no requester.
    /// The responder's identity must match the name; names that bind a
    /// requester must be answered by transmuting their request, so that the
    /// payload is encrypted.
    pub fn response(
        response_sid: &PrivateIdentity,
        hbfi: HBFI,
        data: Vec<u8>,
        offset: u64,
        total: u64,
    ) -> (r: Result<NarrowWaistPacket, CopernicaError>)
        ensures
            !spec_is_public_id_of(hbfi.response_pid, response_sid@) ==> (r matches Err(e) && e
                == CopernicaError::IdentityMismatch),
            spec_is_public_id_of(hbfi.response_pid, response_sid@) && hbfi.request_pid is Some
                ==> (r matches Err(e) && e == CopernicaError::IllegalTransition),
            spec_is_public_id_of(hbfi.response_pid, response_sid@) && hbfi.request_pid is None
                && data@.len() > MAX_PAYLOAD_SIZE ==> (r matches Err(e) && e
                == CopernicaError::CodecError),
            spec_is_public_id_of(hbfi.response_pid, response_sid@) && hbfi.request_pid is None
                && data@.len() <= MAX_PAYLOAD_SIZE ==> (r matches Ok(p) && p is Response
                && p.spec_hbfi() == hbfi && p.spec_offset() == offset && p.spec_total() == total
                && (p.spec_rdata() matches ResponseData::ClearText { data: d } && d@
                == spec_block_of(data@)) && p.spec_verified()),
    {
        let own = response_sid.public_id();
        if !hbfi.response_pid.eq_id(&own) {
            return Err(CopernicaError::IdentityMismatch);
        }
        if hbfi.request_pid.is_some() {
            return Err(CopernicaError::IllegalTransition);
        }
        Self::sign_clear(response_sid, hbfi, data, offset, total)
    }

    /// Turns a request into the signed response that answers it: encrypted
    /// for the requester the name binds, clear otherwise. Only requests can
    /// be transmuted, and only by the responder the name declares.
    pub fn transmute(
        &self,
        response_sid: &PrivateIdentity,
        data: Vec<u8>,
        offset: u64,
        total: u64,
    ) -> (r: Result<NarrowWaistPacket, CopernicaError>)
        ensures
            self is Response ==> (r matches Err(e) && e == CopernicaError::IllegalTransition),
            self is Request && !spec_is_public_id_of(self.spec_hbfi().response_pid, response_sid@)
                ==> (r matches Err(e) && e == CopernicaError::IdentityMismatch),
            self is Request && spec_is_public_id_of(self.spec_hbfi().response_pid, response_sid@)
                && data@.len() > MAX_PAYLOAD_SIZE ==> (r matches Err(e) && e
                == CopernicaError::CodecError),
            self is Request && spec_is_public_id_of(self.spec_hbfi().response_pid, response_sid@)
                && data@.len() <= MAX_PAYLOAD_SIZE ==> (r matches Ok(p) && p is Response
                && p.spec_hbfi() == self.spec_hbfi() && p.spec_offset() == offset && p.spec_total()
                == total && p.spec_verified() && (match self.spec_hbfi().request_pid {
                Some(_) => p.spec_cypher_payload(response_sid@, data@),
                None => (p.spec_rdata() matches ResponseData::ClearText { data: d } && d@
                == spec_block_of(data@)),
            })),
    {
        match self {
            NarrowWaistPacket::Response { .. } => Err(CopernicaError::IllegalTransition),
            NarrowWaistPacket::Request { hbfi, .. } => {
                let own = response_sid.public_id();
                if !hbfi.response_pid.eq_id(&own) {
                    return Err(CopernicaError::IdentityMismatch);
                }
                if hbfi.request_pid.is_some() {
                    Self::seal_cypher(response_sid, *hbfi, data, offset, total)
                } else {
                    Self::sign_clear(response_sid, *hbfi, data, offset, total)
                }
            },
        }
    }

    /// Checks a response's manifest signature; requests carry none.
    pub fn verify(&self) -> (r: Result<bool, CopernicaError>)
        ensures
            self is Request ==> (r matches Err(e) && e == CopernicaError::IllegalTransition),
            self is Response ==> (r matches Ok(b) && b == self.spec_verified()),
    {
        match self {
            NarrowWaistPacket::Request { .. } => Err(CopernicaError::IllegalTransition),
            NarrowWaistPacket::Response { hbfi, nonce, signature, data, offset, total } => {
                let m = manifest(data.manifest_data(), hbfi, *offset, *total, nonce);
                Ok(hbfi.response_pid.verify(&m, signature))
            },
        }
    }

    /// Decrypts a response with the requester's identity the name binds.
    /// The signature is checked first; the returned bytes are the payload
    /// the responder framed. The last clause is the round trip: a response
    /// sealed by the matching responder for this requester decrypts to the
    /// payload it was made from.
    pub fn decrypt(&self, request_sid: &PrivateIdentity) -> (r: Result<Vec<u8>, CopernicaError>)
        ensures
            r matches Ok(pt) ==> (self.spec_decrypt_err(request_sid@) is None && (*self matches
            NarrowWaistPacket::Response { hbfi, nonce, data, .. } && spec_opened(
                requester_key(request_sid@, hbfi.response_pid, nonce@),
                nonce@,
                data,
            ) == Some(pt@))),
            r matches Err(e) ==> self.spec_decrypt_err(request_sid@) == Some(e),
            forall|payload: Seq<u8>, rsid: (Seq<u8>, Seq<u8>)|
                (#[trigger] self.spec_cypher_payload(rsid, payload) && payload.len()
                    <= MAX_PAYLOAD_SIZE && spec_is_public_id_of(
                    self.spec_hbfi().response_pid,
                    rsid,
                ) && (self.spec_hbfi().request_pid matches Some(q) && spec_is_public_id_of(
                    q,
                    request_sid@,
                )) && self.spec_verified()) ==> (r matches Ok(pt) && pt@ == payload),
    {
        match self {
            NarrowWaistPacket::Request { .. } => Err(CopernicaError::IllegalTransition),
            NarrowWaistPacket::Response { hbfi, nonce, data, offset, total, signature } => {
                match &hbfi.request_pid {
                    None => Err(CopernicaError::IllegalTransition),
                    Some(q) => {
                        let own = request_sid.public_id();
                        if !q.eq_id(&own) {
                            return Err(CopernicaError::IdentityMismatch);
                        }
                        let m = manifest(data.manifest_data(), hbfi, *offset, *total, nonce);
                        if !hbfi.response_pid.verify(&m, signature) {
                            return Err(CopernicaError::SignatureInvalid);
                        }
                        match data.decrypt_data(request_sid, &hbfi.response_pid, nonce) {
                            Ok(pt) => {
                                proof {
                                    self.lemma_decrypt_complete(request_sid@, Some(pt@));
                                }
                                Ok(pt)
                            },
                            Err(e) => {
                                proof {
                                    self.lemma_decrypt_complete(request_sid@, None);
                                }
                                Err(e)
                            },
                        }
                    },
                }
            },
        }
    }

    /// Helper for decrypt's round-trip clause: when the requester's key
    /// opens the block to some payload's framing — or fails — what a
    /// matching responder sealed is pinned down.
    proof fn lemma_decrypt_complete(
        &self,
        request_sid: (Seq<u8>, Seq<u8>),
        opened: Option<Seq<u8>>,
    )
        requires
            *self matches NarrowWaistPacket::Response { hbfi, nonce, data, .. } && ({
                let key = requester_key(request_sid, hbfi.response_pid, nonce@);
                &&& (opened matches Some(pt) ==> spec_opened(key, nonce@, data) == Some(pt))
                &&& (opened is None ==> spec_opened(key, nonce@, data) is None)
                &&& (data matches ResponseData::CypherText { .. } ==> forall|other: Seq<u8>|
                    hbfi.response_pid.exch_key@ == #[trigger] x_pub_of(other) ==> key
                        == crate::identity::spec_session_key(
                        crate::crypto::x_dh(other, x_pub_of(request_sid.0)),
                        hbfi.response_pid.spec_bytes(),
                        crate::identity::spec_id_bytes_of(request_sid),
                        nonce@,
                    ))
            }),
        ensures
            forall|payload: Seq<u8>, rsid: (Seq<u8>, Seq<u8>)|
                (#[trigger] self.spec_cypher_payload(rsid, payload) && payload.len()
                    <= MAX_PAYLOAD_SIZE && spec_is_public_id_of(
                    self.spec_hbfi().response_pid,
                    rsid,
                ) && (self.spec_hbfi().request_pid matches Some(q) && spec_is_public_id_of(
                    q,
                    request_sid,
                ))) ==> (opened matches Some(pt) && pt == payload),
    {
        let hbfi = self.spec_hbfi();
        assert forall|payload: Seq<u8>, rsid: (Seq<u8>, Seq<u8>)|
            (#[trigger] self.spec_cypher_payload(rsid, payload) && payload.len()
                <= MAX_PAYLOAD_SIZE && spec_is_public_id_of(hbfi.response_pid, rsid) && (
            hbfi.request_pid matches Some(q) && spec_is_public_id_of(
                q,
                request_sid,
            ))) implies (opened matches Some(pt) && pt == payload) by {
            let q = hbfi.request_pid->Some_0;
            let nonce = match *self {
                NarrowWaistPacket::Response { nonce, .. } => nonce,
                NarrowWaistPacket::Request { nonce, .. } => nonce,
            };
            let data = match *self {
                NarrowWaistPacket::Response { data, .. } => data,
                NarrowWaistPacket::Request { .. } => ResponseData::ClearText {
                    data: arbitrary(),
                },
            };
            let key = requester_key(request_sid, hbfi.response_pid, nonce@);
            lemma_public_id_bytes(hbfi.response_pid, rsid);
            lemma_public_id_bytes(q, request_sid);
            assert(hbfi.response_pid.exch_key@ == x_pub_of(rsid.0));
            assert(key == responder_key(rsid, q, nonce@));
            lemma_block_round_trip(payload);
            assert(spec_opened(key, nonce@, data) == Some(payload));
        }
    }

    /// What encrypting a response must yield: the lifecycle errors, or a
    /// verified response that seals the clear payload for the requester the
    /// new name binds.
    pub open spec fn spec_encrypt_post(
        &self,
        response_sid: (Seq<u8>, Seq<u8>),
        hbfi: HBFI,
        r: Result<NarrowWaistPacket, CopernicaError>,
    ) -> bool {
        if self is Request || hbfi.request_pid is None || self.spec_rdata() is CypherText {
            r matches Err(e) && e == CopernicaError::IllegalTransition
        } else if !spec_is_public_id_of(hbfi.response_pid, response_sid) {
            r matches Err(e) && e == CopernicaError::IdentityMismatch
        } else if !self.spec_verified() {
            r matches Err(e) && e == CopernicaError::SignatureInvalid
        } else {
            match crate::data::spec_payload_of(self.spec_rdata().spec_manifest_data()) {
                Some(payload) => r matches Ok(p) && p is Response && p.spec_hbfi() == hbfi
                    && p.spec_offset() == self.spec_offset() && p.spec_total() == self.spec_total()
                    && p.spec_verified() && p.spec_cypher_payload(response_sid, payload),
                None => r matches Err(e) && e == CopernicaError::CodecError,
            }
        }
    }

    /// Rebinds a verified clear-text response to the requester named by the
    /// given HBFI, encrypting the payload under a fresh nonce and signing
    /// the new manifest. Encrypting again, encrypting for a name that binds
    /// no requester, and encrypting a request are all refused.
    #[verifier::rlimit(100)]
    pub fn encrypt(&self, response_sid: &PrivateIdentity, hbfi: HBFI) -> (r: Result<
        NarrowWaistPacket,
        CopernicaError,
    >)
        ensures
            self.spec_encrypt_post(response_sid@, hbfi, r),
    {
        match self {
            NarrowWaistPacket::Request { .. } => Err(CopernicaError::IllegalTransition),
            NarrowWaistPacket::Response { data, offset, total, .. } => {
                match &hbfi.request_pid {
                    None => Err(CopernicaError::IllegalTransition),
                    Some(_) => {
                        match data {
                            ResponseData::CypherText { .. } => Err(
                                CopernicaError::IllegalTransition,
                            ),
                            ResponseData::ClearText { data: d } => {
                                let own = response_sid.public_id();
                                if !hbfi.response_pid.eq_id(&own) {
                                    return Err(CopernicaError::IdentityMismatch);
                                }
                                let verified = self.verify()?;
                                if !verified {
                                    return Err(CopernicaError::SignatureInvalid);
                                }
                                let payload = match d.payload() {
                                    Ok(p) => p,
                                    Err(_) => {
                                        return Err(CopernicaError::CodecError);
                                    },
                                };
                                proof {
                                    crate::data::lemma_data_len(*d);
                                    assert(payload@.len() <= MAX_PAYLOAD_SIZE);
                                }
                                Self::seal_cypher(response_sid, hbfi, payload, *offset, *total)
                            },
                        }
                    },
                }
            },
        }
    }

    /// The signed bytes a response carries: the framed payload of a clear
    /// response, the raw encrypted block of an encrypted one. The manifest
    /// signature is checked first.
    pub fn data(&self) -> (r: Result<Vec<u8>, CopernicaError>)
        ensures
            self is Request ==> (r matches Err(e) && e == CopernicaError::IllegalTransition),
            self is Response && !self.spec_verified() ==> (r matches Err(e) && e
                == CopernicaError::SignatureInvalid),
            self is Response && self.spec_verified() ==> (match self.spec_rdata() {
                ResponseData::ClearText { data: d } => match crate::data::spec_payload_of(d@) {
                    Some(p) => r matches Ok(v) && v@ == p,
                    None => r matches Err(e) && e == CopernicaError::CodecError,
                },
                ResponseData::CypherText { data: d, .. } => r matches Ok(v) && v@ == d@,
            }),
    {
        match self {
            NarrowWaistPacket::Request { .. } => Err(CopernicaError::IllegalTransition),
            NarrowWaistPacket::Response { hbfi, nonce, signature, data, offset, total } => {
                let m = manifest(data.manifest_data(), hbfi, *offset, *total, nonce);
                if !hbfi.response_pid.verify(&m, signature) {
                    return Err(CopernicaError::SignatureInvalid);
                }
                match data {
                    ResponseData::ClearText { data: d } => d.payload(),
                    ResponseData::CypherText { data: d, .. } => Ok(d.raw_data()),
                }
            },
        }
    }
}

/// Law: a response the algebra produced — one whose signature covers its
/// manifest — always passes verification.
pub proof fn lemma_produced_response_verifies(
    p: NarrowWaistPacket,
    r: Result<bool, CopernicaError>,
)
    requires
        p is Response,
        p.spec_verified(),
        p is Response ==> (r matches Ok(b) && b == p.spec_verified()),
    ensures
        r == Ok::<bool, CopernicaError>(true),
{
}

} // verus!
