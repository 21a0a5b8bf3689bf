use vstd::prelude::*;
use crate::constants::CC_SIZE;
use crate::constants::KEY_SIZE;
use crate::constants::NONCE_SIZE;
use crate::constants::SEED_SIZE;
use crate::crypto::ed_keypair;
use crate::crypto::ed_keys_of;
use crate::crypto::ed_sign;
use crate::crypto::ed_signature;
use crate::crypto::ed_verify;
use crate::crypto::ed_verify_signature;
use crate::crypto::sha256;
use crate::crypto::sha256_of;
use crate::crypto::x25519_base;
use crate::crypto::x25519_dh;
use crate::crypto::x_dh;
use crate::crypto::x_pub_of;
use crate::bytes::bytes_eq;
use crate::bytes::extend_bytes;

verus! {

/// The public face of an identity: an Ed25519 verification key, an X25519
/// exchange key, and a chain code mixed into every session key.
#[derive(Clone, Copy, Debug)]
pub struct PublicIdentity {
    pub sign_key: [u8; KEY_SIZE],
    pub exch_key: [u8; KEY_SIZE],
    pub chain_code: [u8; CC_SIZE],
}

impl PublicIdentity {
    /// The identity's wire bytes: signing key, exchange key, chain code.
    pub open spec fn spec_bytes(&self) -> Seq<u8> {
        self.sign_key@ + self.exch_key@ + self.chain_code@
    }

    /// Whether two public identities hold the same key material.
    pub open spec fn same_as(&self, other: &PublicIdentity) -> bool {
        self.sign_key@ == other.sign_key@ && self.exch_key@ == other.exch_key@
            && self.chain_code@ == other.chain_code@
    }

    /// Rebuilds a public identity from its wire fields.
    pub fn reconstitute(
        sign_key: [u8; KEY_SIZE],
        exch_key: [u8; KEY_SIZE],
        chain_code: [u8; CC_SIZE],
    ) -> (r: PublicIdentity)
        ensures
            r.sign_key@ == sign_key@,
            r.exch_key@ == exch_key@,
            r.chain_code@ == chain_code@,
    {
        PublicIdentity { sign_key, exch_key, chain_code }
    }

    /// Compares two public identities byte for byte.
    pub fn eq_id(&self, other: &PublicIdentity) -> (r: bool)
        ensures
            r == self.same_as(other),
    {
        bytes_eq(&self.sign_key, &other.sign_key) && bytes_eq(&self.exch_key, &other.exch_key)
            && bytes_eq(&self.chain_code, &other.chain_code)
    }

    /// Checks a signature over a message with this identity's verify key.
    pub fn verify(&self, msg: &Vec<u8>, sig: &[u8; 64]) -> (r: bool)
        ensures
            r == ed_verify(self.sign_key@, msg@, sig@),
    {
        ed_verify_signature(msg, &self.sign_key, sig)
    }
}

/// The wire bytes of the public identity a seed and chain code give rise to.
pub open spec fn spec_id_bytes_of(sid: (Seq<u8>, Seq<u8>)) -> Seq<u8> {
    ed_keys_of(sid.0).1 + x_pub_of(sid.0) + sid.1
}

/// That a private identity's derived public parts have their usual sizes.
pub open spec fn spec_id_wf(sid: (Seq<u8>, Seq<u8>)) -> bool {
    &&& ed_keys_of(sid.0).1.len() == KEY_SIZE
    &&& x_pub_of(sid.0).len() == KEY_SIZE
    &&& sid.1.len() == CC_SIZE
}

/// Whether a public identity is the one a private identity gives rise to.
pub open spec fn spec_is_public_id_of(pid: PublicIdentity, sid: (Seq<u8>, Seq<u8>)) -> bool {
    &&& pid.sign_key@ == ed_keys_of(sid.0).1
    &&& pid.exch_key@ == x_pub_of(sid.0)
    &&& pid.chain_code@ == sid.1
}

/// Law: an identity's public bytes are the bytes its seed gives rise to.
pub proof fn lemma_public_id_bytes(pid: PublicIdentity, sid: (Seq<u8>, Seq<u8>))
    requires
        spec_is_public_id_of(pid, sid),
    ensures
        pid.spec_bytes() == spec_id_bytes_of(sid),
{
    assert(pid.spec_bytes() =~= spec_id_bytes_of(sid));
}

/// The session key two identities share for one nonce: a digest of the
/// Diffie-Hellman secret, the responder's and requester's identity bytes,
/// and the nonce.
pub open spec fn spec_session_key(
    shared: Seq<u8>,
    responder: Seq<u8>,
    requester: Seq<u8>,
    nonce: Seq<u8>,
) -> Seq<u8> {
    sha256_of(shared + responder + requester + nonce)
}

/// The private half of an identity: a seed and a chain code. The view is
/// the pair of their byte strings.
pub struct PrivateIdentity {
    seed: [u8; SEED_SIZE],
    chain_code: [u8; CC_SIZE],
}

impl View for PrivateIdentity {
    type V = (Seq<u8>, Seq<u8>);

    closed spec fn view(&self) -> (Seq<u8>, Seq<u8>) {
        (self.seed@, self.chain_code@)
    }
}

impl PrivateIdentity {
    /// Builds a private identity from a seed and a chain code.
    pub fn from_seed(seed: [u8; SEED_SIZE], chain_code: [u8; CC_SIZE]) -> (r: PrivateIdentity)
        ensures
            r@ == (seed@, chain_code@),
    {
        PrivateIdentity { seed, chain_code }
    }

    /// The public identity of this private identity.
    pub fn public_id(&self) -> (r: PublicIdentity)
        ensures
            r.sign_key@ == ed_keys_of(self@.0).1,
            r.exch_key@ == x_pub_of(self@.0),
            r.chain_code@ == self@.1,
            spec_id_wf(self@),
    {
        let (_kp, sign_key) = ed_keypair(&self.seed);
        let exch_key = x25519_base(&self.seed);
        PublicIdentity { sign_key, exch_key, chain_code: self.chain_code }
    }

    /// Signs a message; the signature verifies under this identity's
    /// public signing key.
    pub fn sign(&self, msg: &Vec<u8>) -> (r: [u8; 64])
        ensures
            r@ == ed_sign(ed_keys_of(self@.0).0, msg@),
            ed_verify(ed_keys_of(self@.0).1, msg@, r@),
    {
        let (kp, _sign_key) = ed_keypair(&self.seed);
        ed_signature(msg, &kp)
    }

    /// The session key this identity shares with the peer owning the given
    /// exchange point, bound to the responder and requester identities and
    /// to one nonce. Both sides of an exchange compute the same key.
    pub fn session_key(
        &self,
        peer_exch: &[u8; KEY_SIZE],
        responder: &PublicIdentity,
        requester: &PublicIdentity,
        nonce: &[u8; NONCE_SIZE],
    ) -> (r: [u8; 32])
        ensures
            r@ == spec_session_key(
                x_dh(self@.0, peer_exch@),
                responder.spec_bytes(),
                requester.spec_bytes(),
                nonce@,
            ),
            forall|other: Seq<u8>|
                peer_exch@ == #[trigger] x_pub_of(other) ==> r@ == spec_session_key(
                    x_dh(other, x_pub_of(self@.0)),
                    responder.spec_bytes(),
                    requester.spec_bytes(),
                    nonce@,
                ),
    {
        let shared = x25519_dh(&self.seed, peer_exch);
        let mut input: Vec<u8> = Vec::new();
        extend_bytes(&mut input, &shared);
        extend_bytes(&mut input, &responder.sign_key);
        extend_bytes(&mut input, &responder.exch_key);
        extend_bytes(&mut input, &responder.chain_code);
        extend_bytes(&mut input, &requester.sign_key);
        extend_bytes(&mut input, &requester.exch_key);
        extend_bytes(&mut input, &requester.chain_code);
        extend_bytes(&mut input, nonce);
        proof {
            assert(input@ =~= shared@ + responder.spec_bytes() + requester.spec_bytes() + nonce@);
        }
        sha256(&input)
    }
}

} // verus!
