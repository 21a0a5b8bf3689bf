use vstd::prelude::*;

verus! {

// ---------------------------------------------------------------------------
// Names for what the cryptographic primitives return. Each is a function of
// its arguments alone; nothing here states how the bytes are computed.
// ---------------------------------------------------------------------------
/// The signing keypair and public key that Ed25519 derives from a seed.
pub uninterp spec fn ed_keys_of(seed: Seq<u8>) -> (Seq<u8>, Seq<u8>);

/// The Ed25519 signature of a message under a keypair.
pub uninterp spec fn ed_sign(keypair: Seq<u8>, msg: Seq<u8>) -> Seq<u8>;

/// Whether an Ed25519 signature checks out under a public key.
pub uninterp spec fn ed_verify(public: Seq<u8>, msg: Seq<u8>, sig: Seq<u8>) -> bool;

/// The curve25519 public point of a secret.
pub uninterp spec fn x_pub_of(secret: Seq<u8>) -> Seq<u8>;

/// The curve25519 shared secret of a secret and a public point.
pub uninterp spec fn x_dh(secret: Seq<u8>, point: Seq<u8>) -> Seq<u8>;

/// The SHA-256 digest of a byte string.
pub uninterp spec fn sha256_of(input: Seq<u8>) -> Seq<u8>;

/// The ChaCha20-Poly1305 cypher text and tag for a key, nonce and plain text.
pub uninterp spec fn aead_seal(key: Seq<u8>, nonce: Seq<u8>, pt: Seq<u8>) -> (Seq<u8>, Seq<u8>);

/// What ChaCha20-Poly1305 decryption yields for a key, nonce, cypher text
/// and tag: the plain text when the tag authenticates, nothing otherwise.
pub uninterp spec fn aead_open(key: Seq<u8>, nonce: Seq<u8>, ct: Seq<u8>, tag: Seq<u8>) -> Option<
    Seq<u8>,
>;

// ---------------------------------------------------------------------------
// Trusted wrappers around the outside primitives.
// ---------------------------------------------------------------------------
/// Relies on cryptoxide::ed25519::keypair: the keypair and public key are
/// derived deterministically from the 32-byte seed, and a signature made
/// with that keypair verifies under that public key (RFC 8032).
#[verifier::external_body]
pub(crate) fn ed_keypair(seed: &[u8; 32]) -> (r: ([u8; 64], [u8; 32]))
    ensures
        r.0@ == ed_keys_of(seed@).0,
        r.1@ == ed_keys_of(seed@).1,
        forall|msg: Seq<u8>| ed_verify(r.1@, msg, #[trigger] ed_sign(r.0@, msg)),
{
    cryptoxide::ed25519::keypair(seed)
}

/// Relies on cryptoxide::ed25519::signature: Ed25519 signing is a
/// deterministic function of the keypair and the message.
#[verifier::external_body]
pub(crate) fn ed_signature(msg: &Vec<u8>, keypair: &[u8; 64]) -> (r: [u8; 64])
    ensures
        r@ == ed_sign(keypair@, msg@),
{
    cryptoxide::ed25519::signature(msg.as_slice(), keypair)
}

/// Relies on cryptoxide::ed25519::verify: whether a signature checks out is
/// a deterministic function of public key, message and signature.
#[verifier::external_body]
pub(crate) fn ed_verify_signature(msg: &Vec<u8>, public: &[u8; 32], sig: &[u8; 64]) -> (r: bool)
    ensures
        r == ed_verify(public@, msg@, sig@),
{
    cryptoxide::ed25519::verify(msg.as_slice(), public, sig)
}

/// Relies on cryptoxide::x25519::base: the public point of a secret.
#[verifier::external_body]
pub(crate) fn x25519_base(secret: &[u8; 32]) -> (r: [u8; 32])
    ensures
        r@ == x_pub_of(secret@),
{
    let sk = cryptoxide::x25519::SecretKey::from(*secret);
    cryptoxide::x25519::base(&sk).into()
}

/// Relies on cryptoxide::x25519::dh: curve25519 Diffie-Hellman. The shared
/// secret each side computes from its own secret and the other side's
/// public point is the same on both sides.
#[verifier::external_body]
pub(crate) fn x25519_dh(secret: &[u8; 32], point: &[u8; 32]) -> (r: [u8; 32])
    ensures
        r@ == x_dh(secret@, point@),
        forall|other: Seq<u8>|
            point@ == #[trigger] x_pub_of(other) ==> r@ == x_dh(other, x_pub_of(secret@)),
{
    let sk = cryptoxide::x25519::SecretKey::from(*secret);
    let pk = cryptoxide::x25519::PublicKey::from(*point);
    cryptoxide::x25519::dh(&sk, &pk).into()
}

/// Relies on cryptoxide::hashing::sha2::Sha256: the digest is a
/// deterministic function of the input bytes.
#[verifier::external_body]
pub(crate) fn sha256(input: &Vec<u8>) -> (r: [u8; 32])
    ensures
        r@ == sha256_of(input@),
{
    cryptoxide::hashing::sha2::Sha256::new().update(input.as_slice()).finalize()
}

/// Relies on cryptoxide::chacha20poly1305::ChaCha20Poly1305::encrypt: the
/// cypher text is as long as the plain text, both outputs are deterministic
/// in key, nonce and plain text, and decrypting them with the same key and
/// nonce gives the plain text back.
#[verifier::external_body]
pub(crate) fn chacha_seal(key: &[u8; 32], nonce: &[u8; 12], pt: &Vec<u8>) -> (r: (Vec<u8>, [u8; 16]))
    ensures
        r.0@ == aead_seal(key@, nonce@, pt@).0,
        r.1@ == aead_seal(key@, nonce@, pt@).1,
        r.0@.len() == pt@.len(),
        aead_open(key@, nonce@, r.0@, r.1@) == Some(pt@),
{
    let mut ctx = cryptoxide::chacha20poly1305::ChaCha20Poly1305::new(&key[..], nonce, &[]);
    let mut ct = vec![0u8; pt.len()];
    let mut tag = [0u8; 16];
    ctx.encrypt(pt.as_slice(), &mut ct[..], &mut tag);
    (ct, tag)
}

/// Relies on cryptoxide::chacha20poly1305::ChaCha20Poly1305::decrypt: the
/// outcome is a deterministic function of key, nonce, cypher text and tag;
/// when the tag does not authenticate, nothing is returned.
#[verifier::external_body]
pub(crate) fn chacha_open(key: &[u8; 32], nonce: &[u8; 12], ct: &Vec<u8>, tag: &[u8; 16]) -> (r:
    Option<Vec<u8>>)
    ensures
        match r {
            Some(pt) => aead_open(key@, nonce@, ct@, tag@) == Some(pt@) && pt@.len() == ct@.len(),
            None => aead_open(key@, nonce@, ct@, tag@) is None,
        },
{
    let mut ctx = cryptoxide::chacha20poly1305::ChaCha20Poly1305::new(&key[..], nonce, &[]);
    let mut pt = vec![0u8; ct.len()];
    if ctx.decrypt(ct.as_slice(), &mut pt[..], &tag[..]) {
        Some(pt)
    } else {
        None
    }
}

/// Relies on rand::random: a fresh random nonce. Nothing is promised of
/// the result; every caller must work with any value.
#[verifier::external_body]
pub(crate) fn generate_nonce() -> [u8; 12] {
    rand::random::<[u8; 12]>()
}

/// Relies on rand::Rng::gen_range: a uniformly drawn index below the bound.
#[verifier::external_body]
pub(crate) fn random_below(bound: usize) -> (r: usize)
    requires
        bound > 0,
    ensures
        r < bound,
{
    rand::Rng::gen_range(&mut rand::thread_rng(), 0..bound)
}

} // verus!
