//! Trusted boundary to the cryptographic primitives of the hybrid
//! handshake: the Kyber1024 key-encapsulation mechanism and the Dilithium5
//! signature scheme (both PQClean builds), X25519 key agreement, Ed25519
//! signatures and HKDF-SHA-384 key derivation.
//!
//! Every function that calls an outside crate is `external_body`; its
//! contract states only what the crate's source and documentation show.
//! Results that are deterministic functions of the arguments are given
//! uninterpreted names so that verified callers can relate the two sides
//! of the protocol.

use vstd::prelude::*;
use pqcrypto_traits::kem::{Ciphertext as _, PublicKey as _, SecretKey as _, SharedSecret as _};
use pqcrypto_traits::sign::{
    DetachedSignature as _, PublicKey as _, SecretKey as _,
};
use ed25519_dalek::Signer;
use rand::RngCore;
use sha2::Sha384;

verus! {

/// Kyber1024 public-key length in bytes.
pub const KEM_PK_LEN: usize = 1568;
/// Kyber1024 secret-key length in bytes.
pub const KEM_SK_LEN: usize = 3168;
/// Kyber1024 ciphertext length in bytes.
pub const KEM_CT_LEN: usize = 1568;
/// Kyber1024 shared-secret length in bytes.
pub const KEM_SS_LEN: usize = 32;
/// Dilithium5 public-key length in bytes.
pub const PQ_PK_LEN: usize = 2592;
/// Dilithium5 secret-key length in bytes.
pub const PQ_SK_LEN: usize = 4896;
/// Dilithium5 detached-signature length in bytes.
pub const PQ_SIG_LEN: usize = 4627;
/// Ed25519 key and X25519 key length in bytes.
pub const CLASSICAL_KEY_LEN: usize = 32;
/// Ed25519 signature length in bytes.
pub const ED_SIG_LEN: usize = 64;
/// Length of the derived session secret in bytes.
pub const SECRET_LEN: usize = 64;

/// The Kyber1024 public key determined by a secret key.
pub uninterp spec fn kem_pk_of(sk: Seq<u8>) -> Seq<u8>;

/// The shared secret that decapsulating `ct` under the secret key of `pk`
/// recovers.
pub uninterp spec fn kem_shared(pk: Seq<u8>, ct: Seq<u8>) -> Seq<u8>;

/// The X25519 public key determined by a secret key.
pub uninterp spec fn x_pk_of(sk: Seq<u8>) -> Seq<u8>;

/// The X25519 shared secret of two key-agreement public keys.
pub uninterp spec fn x_shared(pk_a: Seq<u8>, pk_b: Seq<u8>) -> Seq<u8>;

/// The Ed25519 public key determined by a secret key.
pub uninterp spec fn ed_pk_of(sk: Seq<u8>) -> Seq<u8>;

/// Whether Ed25519 strict verification accepts `sig` on `msg` under `pk`.
pub uninterp spec fn ed_sig_ok(pk: Seq<u8>, msg: Seq<u8>, sig: Seq<u8>) -> bool;

/// The Dilithium5 public key determined by a secret key.
pub uninterp spec fn pq_pk_of(sk: Seq<u8>) -> Seq<u8>;

/// Whether Dilithium5 verification accepts `sig` on `msg` under `pk`.
pub uninterp spec fn pq_sig_ok(pk: Seq<u8>, msg: Seq<u8>, sig: Seq<u8>) -> bool;

/// The 64-byte HKDF-SHA-384 output for input keying material `ikm` with an
/// empty salt and the fixed context string of the hybrid session.
pub uninterp spec fn kdf_of(ikm: Seq<u8>) -> Seq<u8>;

/// Relies on `rand::rngs::OsRng::fill_bytes`: fills the buffer from the
/// operating system's entropy source.  Nothing is promised of the bytes
/// beyond their number.
#[verifier::external_body]
pub fn random_bytes(n: usize) -> (r: Vec<u8>)
    ensures
        r@.len() == n,
{
    let mut buf = vec![0u8; n];
    rand::rngs::OsRng.fill_bytes(&mut buf);
    buf
}

/// Relies on `pqcrypto_kyber::kyber1024::keypair`: returns a fresh keypair
/// whose public key is the one determined by (and embedded in) the secret
/// key, with the fixed Kyber1024 lengths.
#[verifier::external_body]
pub fn kem_keypair() -> (r: (Vec<u8>, Vec<u8>))
    ensures
        r.0@ == kem_pk_of(r.1@),
        r.0@.len() == KEM_PK_LEN,
        r.1@.len() == KEM_SK_LEN,
{
    let (pk, sk) = pqcrypto_kyber::kyber1024::keypair();
    (pk.as_bytes().to_vec(), sk.as_bytes().to_vec())
}

/// Relies on `pqcrypto_kyber::kyber1024::encapsulate` and the KEM
/// correctness shown by the crate's own round-trip test: decapsulating the
/// returned ciphertext under the matching secret key recovers the returned
/// shared secret.  `from_bytes` accepts exactly the byte strings of the
/// public-key length.
#[verifier::external_body]
pub fn kem_encaps(pk: &Vec<u8>) -> (r: Option<(Vec<u8>, Vec<u8>)>)
    ensures
        r is Some <==> pk@.len() == KEM_PK_LEN,
        r matches Some(p) ==> {
            &&& p.1@ == kem_shared(pk@, p.0@)
            &&& p.0@.len() == KEM_CT_LEN
            &&& p.1@.len() == KEM_SS_LEN
        },
{
    match pqcrypto_kyber::kyber1024::PublicKey::from_bytes(pk) {
        Ok(k) => {
            let (ss, ct) = pqcrypto_kyber::kyber1024::encapsulate(&k);
            Some((ct.as_bytes().to_vec(), ss.as_bytes().to_vec()))
        }
        Err(_) => None,
    }
}

/// Relies on `pqcrypto_kyber::kyber1024::decapsulate`: the recovered secret
/// is a function of the secret key and the ciphertext alone, named here as
/// the secret encapsulated to the matching public key.  `from_bytes`
/// accepts exactly the byte strings of the documented lengths.
#[verifier::external_body]
pub fn kem_decaps(sk: &Vec<u8>, ct: &Vec<u8>) -> (r: Option<Vec<u8>>)
    ensures
        r is Some <==> (sk@.len() == KEM_SK_LEN && ct@.len() == KEM_CT_LEN),
        r matches Some(ss) ==> ss@ == kem_shared(kem_pk_of(sk@), ct@) && ss@.len() == KEM_SS_LEN,
{
    let sk = match pqcrypto_kyber::kyber1024::SecretKey::from_bytes(sk) {
        Ok(k) => k,
        Err(_) => return None,
    };
    let ct = match pqcrypto_kyber::kyber1024::Ciphertext::from_bytes(ct) {
        Ok(c) => c,
        Err(_) => return None,
    };
    Some(pqcrypto_kyber::kyber1024::decapsulate(&ct, &sk).as_bytes().to_vec())
}

/// Relies on `x25519_dalek::PublicKey::from(&StaticSecret)`: the public key
/// is a deterministic function of the 32 secret bytes.
#[verifier::external_body]
pub fn dh_public(sk: &Vec<u8>) -> (r: Vec<u8>)
    requires
        sk@.len() == CLASSICAL_KEY_LEN,
    ensures
        r@ == x_pk_of(sk@),
        r@.len() == CLASSICAL_KEY_LEN,
{
    let sk_arr: [u8; 32] = sk.as_slice().try_into().unwrap();
    let secret = x25519_dalek::StaticSecret::from(sk_arr);
    x25519_dalek::PublicKey::from(&secret).to_bytes().to_vec()
}

/// Relies on `x25519_dalek::StaticSecret::diffie_hellman` and the
/// commutativity of X25519 (RFC 7748): both parties of an exchange compute
/// the same 32 bytes, so the result is named by the unordered pair of
/// public keys.
#[verifier::external_body]
pub fn dh_shared(sk: &Vec<u8>, peer_pk: &Vec<u8>) -> (r: Vec<u8>)
    requires
        sk@.len() == CLASSICAL_KEY_LEN,
        peer_pk@.len() == CLASSICAL_KEY_LEN,
    ensures
        r@ == x_shared(x_pk_of(sk@), peer_pk@),
        r@ == x_shared(peer_pk@, x_pk_of(sk@)),
        r@.len() == CLASSICAL_KEY_LEN,
{
    let sk_arr: [u8; 32] = sk.as_slice().try_into().unwrap();
    let pk_arr: [u8; 32] = peer_pk.as_slice().try_into().unwrap();
    let secret = x25519_dalek::StaticSecret::from(sk_arr);
    let peer = x25519_dalek::PublicKey::from(pk_arr);
    secret.diffie_hellman(&peer).to_bytes().to_vec()
}

/// Relies on `ed25519_dalek::SigningKey::verifying_key`: the public key is
/// a deterministic function of the 32 secret bytes.
#[verifier::external_body]
pub fn ed_public(sk: &Vec<u8>) -> (r: Vec<u8>)
    requires
        sk@.len() == CLASSICAL_KEY_LEN,
    ensures
        r@ == ed_pk_of(sk@),
        r@.len() == CLASSICAL_KEY_LEN,
{
    let sk_arr: [u8; 32] = sk.as_slice().try_into().unwrap();
    let key = ed25519_dalek::SigningKey::from_bytes(&sk_arr);
    key.verifying_key().to_bytes().to_vec()
}

/// Relies on `ed25519_dalek::SigningKey::sign` and RFC 8032 correctness:
/// an honestly produced signature is accepted by strict verification under
/// the matching public key, and is 64 bytes long.
#[verifier::external_body]
pub fn ed_sign(sk: &Vec<u8>, msg: &Vec<u8>) -> (r: Vec<u8>)
    requires
        sk@.len() == CLASSICAL_KEY_LEN,
    ensures
        r@.len() == ED_SIG_LEN,
        ed_sig_ok(ed_pk_of(sk@), msg@, r@),
{
    let sk_arr: [u8; 32] = sk.as_slice().try_into().unwrap();
    let key = ed25519_dalek::SigningKey::from_bytes(&sk_arr);
    key.sign(msg.as_slice()).to_bytes().to_vec()
}

/// Relies on `ed25519_dalek::VerifyingKey::verify_strict`, a deterministic
/// function of key, message and signature.  Byte strings that do not parse
/// as a key or signature are never accepted.
#[verifier::external_body]
pub fn ed_verify(pk: &Vec<u8>, msg: &Vec<u8>, sig: &Vec<u8>) -> (r: bool)
    ensures
        r == ed_sig_ok(pk@, msg@, sig@),
{
    let pk_arr: [u8; 32] = match pk.as_slice().try_into() {
        Ok(a) => a,
        Err(_) => return false,
    };
    let key = match ed25519_dalek::VerifyingKey::from_bytes(&pk_arr) {
        Ok(k) => k,
        Err(_) => return false,
    };
    let sig = match ed25519_dalek::Signature::from_slice(sig.as_slice()) {
        Ok(s) => s,
        Err(_) => return false,
    };
    key.verify_strict(msg.as_slice(), &sig).is_ok()
}

/// Relies on `pqcrypto_dilithium::dilithium5::keypair`: returns a fresh
/// keypair whose public key is the one determined by the secret key, with
/// the fixed Dilithium5 lengths.
#[verifier::external_body]
pub fn pq_keypair() -> (r: (Vec<u8>, Vec<u8>))
    ensures
        r.0@ == pq_pk_of(r.1@),
        r.0@.len() == PQ_PK_LEN,
        r.1@.len() == PQ_SK_LEN,
{
    let (pk, sk) = pqcrypto_dilithium::dilithium5::keypair();
    (pk.as_bytes().to_vec(), sk.as_bytes().to_vec())
}

/// Relies on `pqcrypto_dilithium::dilithium5::detached_sign` and the
/// scheme's correctness shown by the crate's own round-trip test: the
/// signature verifies under the matching public key and has the fixed
/// Dilithium5 length.  `from_bytes` accepts exactly the byte strings of
/// the secret-key length.
#[verifier::external_body]
pub fn pq_sign(sk: &Vec<u8>, msg: &Vec<u8>) -> (r: Option<Vec<u8>>)
    ensures
        r is Some <==> sk@.len() == PQ_SK_LEN,
        r matches Some(sig) ==> {
            &&& sig@.len() == PQ_SIG_LEN
            &&& pq_sig_ok(pq_pk_of(sk@), msg@, sig@)
        },
{
    let sk = match pqcrypto_dilithium::dilithium5::SecretKey::from_bytes(sk) {
        Ok(k) => k,
        Err(_) => return None,
    };
    let sig = pqcrypto_dilithium::dilithium5::detached_sign(msg.as_slice(), &sk);
    Some(sig.as_bytes().to_vec())
}

/// Relies on `pqcrypto_dilithium::dilithium5::verify_detached_signature`,
/// a deterministic function of key, message and signature.  Byte strings
/// that do not parse as a key or signature are never accepted.
#[verifier::external_body]
pub fn pq_verify(pk: &Vec<u8>, msg: &Vec<u8>, sig: &Vec<u8>) -> (r: bool)
    ensures
        r == pq_sig_ok(pk@, msg@, sig@),
{
    let pk = match pqcrypto_dilithium::dilithium5::PublicKey::from_bytes(pk) {
        Ok(k) => k,
        Err(_) => return false,
    };
    let sig = match pqcrypto_dilithium::dilithium5::DetachedSignature::from_bytes(sig) {
        Ok(s) => s,
        Err(_) => return false,
    };
    pqcrypto_dilithium::dilithium5::verify_detached_signature(&sig, msg.as_slice(), &pk).is_ok()
}

/// Relies on `hkdf::Hkdf::<Sha384>::expand`: a single extract-then-expand
/// pass with empty salt and the context string of the hybrid session,
/// filling exactly the 64 requested bytes.  64 bytes is a valid output
/// length for SHA-384, so `expand` cannot fail here.
#[verifier::external_body]
pub fn kdf64(ikm: &Vec<u8>) -> (r: Vec<u8>)
    ensures
        r@ == kdf_of(ikm@),
        r@.len() == SECRET_LEN,
{
    let hk = hkdf::Hkdf::<Sha384>::new(None, ikm.as_slice());
    let mut okm = [0u8; 64];
    hk.expand(b"hybrid-session", &mut okm).unwrap();
    okm.to_vec()
}

/// Overwrite secret material in place before its storage is reclaimed.
/// Every byte of the buffer is set to zero.
pub fn wipe(buf: &mut Vec<u8>)
    ensures
        final(buf)@.len() == old(buf)@.len(),
        forall|i: int| 0 <= i < final(buf)@.len() ==> final(buf)@[i] == 0u8,
{
    let n = buf.len();
    let mut i: usize = 0;
    while i < n
        invariant
            n == buf@.len(),
            i <= n,
            forall|j: int| 0 <= j < i ==> buf@[j] == 0u8,
        decreases n - i,
    {
        buf.set(i, 0u8);
        i = i + 1;
    }
}

} // verus!
