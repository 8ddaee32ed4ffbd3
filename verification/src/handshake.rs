//! The hybrid classical/post-quantum handshake engine.
//!
//! A handshake combines the Kyber1024 key-encapsulation mechanism with
//! X25519 key agreement and authenticates both directions with a hybrid
//! signature: an Ed25519 signature and a Dilithium5 signature, concatenated,
//! both of which must verify.  Each side derives the 64-byte session secret
//! `KDF(shared_secret_a ‖ shared_secret_b)` where `shared_secret_a` comes
//! from the encapsulation and `shared_secret_b` from the key agreement.
//! Hybrid is mandatory: there is no fallback to a single primitive.

use vstd::prelude::*;
use crate::crypto::{
    kem_pk_of, kem_shared, x_pk_of, x_shared, ed_pk_of, ed_sig_ok, pq_pk_of, pq_sig_ok, kdf_of,
    kem_keypair, kem_encaps, kem_decaps, dh_public, dh_shared, ed_public, ed_sign, ed_verify,
    pq_keypair, pq_sign, pq_verify, kdf64, random_bytes, wipe,
    KEM_PK_LEN, KEM_SK_LEN, KEM_CT_LEN, CLASSICAL_KEY_LEN, ED_SIG_LEN, PQ_SK_LEN, PQ_SIG_LEN,
    SECRET_LEN,
};
use vstd::pervasive::unreached;

verus! {

/// Length of a hybrid signature: Ed25519 signature followed by the
/// Dilithium5 detached signature.
pub const HYBRID_SIG_LEN: usize = 4691;

/// First handshake message, initiator to responder: the fresh encapsulation
/// and key-agreement public keys, a hybrid signature over both under the
/// initiator's long-lived identity key, and the certificate chain for the
/// externally supplied trust policy.
#[derive(Debug)]
pub struct HandshakeInit {
    /// Fresh Kyber1024 encapsulation public key.
    pub kyber_pk: Vec<u8>,
    /// Fresh X25519 key-agreement public key.
    pub ecdh_pk: Vec<u8>,
    /// Hybrid signature over `kyber_pk ‖ ecdh_pk`.
    pub dilithium_sig: Vec<u8>,
    /// Certificate chain presented to the responder's trust policy.
    pub cert_chain: Vec<Vec<u8>>,
}

/// Second handshake message, responder to initiator: the encapsulated
/// ciphertext, the responder's key-agreement public key and a hybrid
/// signature over the transcript of both messages.
#[derive(Debug)]
pub struct HandshakeResponse {
    /// Kyber1024 ciphertext encapsulated against the initiator's key.
    pub kyber_ciphertext: Vec<u8>,
    /// The responder's fresh X25519 public key.
    pub ecdh_pk: Vec<u8>,
    /// Hybrid signature over the handshake transcript.
    pub ephemeral_sig: Vec<u8>,
}

/// Terminal handshake failures.  A handshake is never retried and never
/// falls back to a non-hybrid exchange.
#[derive(Clone, Copy, PartialEq, Eq, Structural, Debug)]
pub enum HandshakeError {
    /// Signature, verification or derivation failure.
    CryptoError,
    /// Malformed or out-of-order message.
    ProtocolViolation,
    /// Transport failure, surfaced by the caller that owns the socket.
    IoError,
    /// The handshake exceeded its deadline.
    Timeout,
}

/// Long-lived identity material of one party: an Ed25519 keypair and a
/// Dilithium5 keypair, used only to sign.
#[derive(Debug)]
pub struct IdentityKeys {
    /// Ed25519 secret key bytes.
    pub ed_sk: Vec<u8>,
    /// Ed25519 public key bytes.
    pub ed_pk: Vec<u8>,
    /// Dilithium5 secret key bytes.
    pub pq_sk: Vec<u8>,
    /// Dilithium5 public key bytes.
    pub pq_pk: Vec<u8>,
}

/// The peer's identity public keys, as supplied by the external trust
/// provider together with its verdict on the certificate chain.
#[derive(Debug)]
pub struct PeerIdentity {
    /// Ed25519 public key bytes.
    pub ed_pk: Vec<u8>,
    /// Dilithium5 public key bytes.
    pub pq_pk: Vec<u8>,
}

/// Ephemeral secrets the initiator holds between sending `HandshakeInit`
/// and processing the `HandshakeResponse`.  Wiped on completion.
#[derive(Debug)]
pub struct InitiatorState {
    /// Fresh Kyber1024 secret key.
    pub kyber_sk: Vec<u8>,
    /// Fresh X25519 secret key.
    pub ecdh_sk: Vec<u8>,
    /// The Kyber1024 public key sent in the init message.
    pub kyber_pk: Vec<u8>,
    /// The X25519 public key sent in the init message.
    pub ecdh_pk: Vec<u8>,
}

impl IdentityKeys {
    /// The secret keys have the lengths their schemes demand.
    pub open spec fn sk_lens_ok(&self) -> bool {
        &&& self.ed_sk@.len() == CLASSICAL_KEY_LEN
        &&& self.pq_sk@.len() == PQ_SK_LEN
    }

    /// Well-formed identity: correct lengths and each public key is the
    /// one determined by its secret key.
    pub open spec fn wf(&self) -> bool {
        &&& self.sk_lens_ok()
        &&& self.ed_pk@ == ed_pk_of(self.ed_sk@)
        &&& self.pq_pk@ == pq_pk_of(self.pq_sk@)
        &&& self.ed_pk@.len() == CLASSICAL_KEY_LEN
        &&& self.pq_pk@.len() == crate::crypto::PQ_PK_LEN
    }
}

impl InitiatorState {
    /// The ephemeral secret keys have the lengths their schemes demand.
    pub open spec fn sk_lens_ok(&self) -> bool {
        &&& self.kyber_sk@.len() == KEM_SK_LEN
        &&& self.ecdh_sk@.len() == CLASSICAL_KEY_LEN
    }
}

/// The byte string signed in the init message: both fresh public keys.
pub open spec fn init_payload(kyber_pk: Seq<u8>, ecdh_pk: Seq<u8>) -> Seq<u8> {
    kyber_pk + ecdh_pk
}

/// The handshake transcript signed in the response: every public field of
/// both messages, in wire order.
pub open spec fn transcript_of(
    kyber_pk: Seq<u8>,
    ecdh_pk_i: Seq<u8>,
    ciphertext: Seq<u8>,
    ecdh_pk_r: Seq<u8>,
) -> Seq<u8> {
    kyber_pk + ecdh_pk_i + ciphertext + ecdh_pk_r
}

/// The session secret both parties derive: the KDF applied to the
/// encapsulated secret followed by the key-agreement secret.
pub open spec fn session_secret_of(
    kyber_pk: Seq<u8>,
    ecdh_pk_i: Seq<u8>,
    ciphertext: Seq<u8>,
    ecdh_pk_r: Seq<u8>,
) -> Seq<u8> {
    kdf_of(kem_shared(kyber_pk, ciphertext) + x_shared(ecdh_pk_i, ecdh_pk_r))
}

/// A hybrid signature is valid when it splits into an Ed25519 signature
/// and a Dilithium5 signature and both components verify.  A single
/// failing component invalidates the whole signature: no partial trust.
pub open spec fn hybrid_sig_ok(ed_pk: Seq<u8>, pq_pk: Seq<u8>, msg: Seq<u8>, sig: Seq<u8>) -> bool {
    &&& sig.len() == ED_SIG_LEN + PQ_SIG_LEN
    &&& ed_sig_ok(ed_pk, msg, sig.subrange(0, ED_SIG_LEN as int))
    &&& pq_sig_ok(pq_pk, msg, sig.subrange(ED_SIG_LEN as int, (ED_SIG_LEN + PQ_SIG_LEN) as int))
}

/// Structural well-formedness of an init message: every field has the
/// length its primitive demands.
pub open spec fn init_wf(init: &HandshakeInit) -> bool {
    &&& init.kyber_pk@.len() == KEM_PK_LEN
    &&& init.ecdh_pk@.len() == CLASSICAL_KEY_LEN
    &&& init.dilithium_sig@.len() == ED_SIG_LEN + PQ_SIG_LEN
}

/// Structural well-formedness of a response message.
pub open spec fn resp_wf(resp: &HandshakeResponse) -> bool {
    &&& resp.kyber_ciphertext@.len() == KEM_CT_LEN
    &&& resp.ecdh_pk@.len() == CLASSICAL_KEY_LEN
    &&& resp.ephemeral_sig@.len() == ED_SIG_LEN + PQ_SIG_LEN
}

/// Concatenation of two byte vectors.
pub fn concat_bytes(a: &Vec<u8>, b: &Vec<u8>) -> (r: Vec<u8>)
    ensures
        r@ == a@ + b@,
{
    let mut r: Vec<u8> = Vec::new();
    let mut i: usize = 0;
    while i < a.len()
        invariant
            i <= a@.len(),
            r@ == a@.subrange(0, i as int),
        decreases a@.len() - i,
    {
        r.push(a[i]);
        proof {
            assert(a@.subrange(0, i + 1 as int) =~= a@.subrange(0, i as int) + seq![a@[i as int]]);
        }
        i = i + 1;
    }
    proof {
        assert(a@.subrange(0, a@.len() as int) =~= a@);
    }
    let mut j: usize = 0;
    while j < b.len()
        invariant
            j <= b@.len(),
            r@ == a@ + b@.subrange(0, j as int),
        decreases b@.len() - j,
    {
        r.push(b[j]);
        proof {
            assert(b@.subrange(0, j + 1 as int) =~= b@.subrange(0, j as int) + seq![b@[j as int]]);
            assert(a@ + b@.subrange(0, j + 1 as int) =~= (a@ + b@.subrange(0, j as int)) + seq![b@[j as int]]);
        }
        j = j + 1;
    }
    proof {
        assert(b@.subrange(0, b@.len() as int) =~= b@);
    }
    r
}

/// Generate fresh long-lived identity material for one party.
pub fn generate_identity() -> (r: IdentityKeys)
    ensures
        r.wf(),
{
    let ed_sk = random_bytes(CLASSICAL_KEY_LEN);
    let ed_pk = ed_public(&ed_sk);
    let (pq_pk, pq_sk) = pq_keypair();
    IdentityKeys { ed_sk, ed_pk, pq_sk, pq_pk }
}

/// Sign `msg` with both identity keys and concatenate the signatures,
/// Ed25519 first.
pub fn sign_hybrid(id: &IdentityKeys, msg: &Vec<u8>) -> (r: Vec<u8>)
    requires
        id.sk_lens_ok(),
    ensures
        r@.len() == ED_SIG_LEN + PQ_SIG_LEN,
        hybrid_sig_ok(ed_pk_of(id.ed_sk@), pq_pk_of(id.pq_sk@), msg@, r@),
{
    let ed_sig = ed_sign(&id.ed_sk, msg);
    let pq_sig = match pq_sign(&id.pq_sk, msg) {
        Some(s) => s,
        None => unreached(),
    };
    let r = concat_bytes(&ed_sig, &pq_sig);
    proof {
        assert(r@.subrange(0, ED_SIG_LEN as int) =~= ed_sig@);
        assert(r@.subrange(ED_SIG_LEN as int, (ED_SIG_LEN + PQ_SIG_LEN) as int) =~= pq_sig@);
    }
    r
}

/// Check a hybrid signature: true exactly when the signature has the
/// hybrid length and both components verify.
pub fn verify_hybrid(ed_pk: &Vec<u8>, pq_pk: &Vec<u8>, msg: &Vec<u8>, sig: &Vec<u8>) -> (r: bool)
    ensures
        r == hybrid_sig_ok(ed_pk@, pq_pk@, msg@, sig@),
{
    if sig.len() != HYBRID_SIG_LEN {
        return false;
    }
    let ed_part = vstd::slice::slice_to_vec(vstd::slice::slice_subrange(
        sig.as_slice(), 0, ED_SIG_LEN,
    ));
    let pq_part = vstd::slice::slice_to_vec(vstd::slice::slice_subrange(
        sig.as_slice(), ED_SIG_LEN, HYBRID_SIG_LEN,
    ));
    let ed_ok = ed_verify(ed_pk, msg, &ed_part);
    let pq_ok = pq_verify(pq_pk, msg, &pq_part);
    ed_ok && pq_ok
}

/// Begin a handshake as initiator: generate the ephemeral encapsulation
/// and key-agreement keypairs and build the signed init message.
pub fn initiate(id: &IdentityKeys, cert_chain: Vec<Vec<u8>>) -> (r: (InitiatorState, HandshakeInit))
    requires
        id.sk_lens_ok(),
    ensures
        r.0.sk_lens_ok(),
        init_wf(&r.1),
        r.1.kyber_pk@ == kem_pk_of(r.0.kyber_sk@),
        r.1.ecdh_pk@ == x_pk_of(r.0.ecdh_sk@),
        r.0.kyber_pk@ == r.1.kyber_pk@,
        r.0.ecdh_pk@ == r.1.ecdh_pk@,
        hybrid_sig_ok(
            ed_pk_of(id.ed_sk@),
            pq_pk_of(id.pq_sk@),
            init_payload(r.1.kyber_pk@, r.1.ecdh_pk@),
            r.1.dilithium_sig@,
        ),
        r.1.cert_chain@ == cert_chain@,
{
    let (kyber_pk, kyber_sk) = kem_keypair();
    let ecdh_sk = random_bytes(CLASSICAL_KEY_LEN);
    let ecdh_pk = dh_public(&ecdh_sk);
    let payload = concat_bytes(&kyber_pk, &ecdh_pk);
    let sig = sign_hybrid(id, &payload);
    let kyber_pk2 = clone_bytes(&kyber_pk);
    let ecdh_pk2 = clone_bytes(&ecdh_pk);
    let st = InitiatorState { kyber_sk, ecdh_sk, kyber_pk: kyber_pk2, ecdh_pk: ecdh_pk2 };
    let init = HandshakeInit { kyber_pk, ecdh_pk, dilithium_sig: sig, cert_chain };
    (st, init)
}

/// Copy of a byte vector.
pub fn clone_bytes(a: &Vec<u8>) -> (r: Vec<u8>)
    ensures
        r@ == a@,
{
    let mut r: Vec<u8> = Vec::new();
    let mut i: usize = 0;
    while i < a.len()
        invariant
            i <= a@.len(),
            r@ == a@.subrange(0, i as int),
        decreases a@.len() - i,
    {
        r.push(a[i]);
        proof {
            assert(a@.subrange(0, i + 1 as int) =~= a@.subrange(0, i as int) + seq![a@[i as int]]);
        }
        i = i + 1;
    }
    proof {
        assert(a@.subrange(0, a@.len() as int) =~= a@);
    }
    r
}

/// Process an init message as responder.
///
/// `chain_ok` is the verdict of the externally supplied trust policy on
/// `init.cert_chain`, and `peer` the initiator identity that policy vouches
/// for.  The responder rejects a malformed message as `ProtocolViolation`
/// and an untrusted chain or invalid signature component as `CryptoError`
/// — verification failure is never silently swallowed.  On success it
/// returns the derived 64-byte session secret and the signed response.
pub fn respond(
    id: &IdentityKeys,
    peer: &PeerIdentity,
    chain_ok: bool,
    init: &HandshakeInit,
) -> (r: Result<(Vec<u8>, HandshakeResponse), HandshakeError>)
    requires
        id.sk_lens_ok(),
    ensures
        r is Ok <==> (init_wf(init) && chain_ok && hybrid_sig_ok(
            peer.ed_pk@,
            peer.pq_pk@,
            init_payload(init.kyber_pk@, init.ecdh_pk@),
            init.dilithium_sig@,
        )),
        r == Err::<(Vec<u8>, HandshakeResponse), HandshakeError>(HandshakeError::ProtocolViolation)
            <==> !init_wf(init),
        r == Err::<(Vec<u8>, HandshakeResponse), HandshakeError>(HandshakeError::CryptoError)
            <==> (init_wf(init) && !(chain_ok && hybrid_sig_ok(
                peer.ed_pk@,
                peer.pq_pk@,
                init_payload(init.kyber_pk@, init.ecdh_pk@),
                init.dilithium_sig@,
            ))),
        r matches Ok(p) ==> {
            &&& p.0@ == session_secret_of(
                init.kyber_pk@, init.ecdh_pk@, p.1.kyber_ciphertext@, p.1.ecdh_pk@)
            &&& p.0@.len() == SECRET_LEN
            &&& resp_wf(&p.1)
            &&& hybrid_sig_ok(
                ed_pk_of(id.ed_sk@),
                pq_pk_of(id.pq_sk@),
                transcript_of(init.kyber_pk@, init.ecdh_pk@, p.1.kyber_ciphertext@, p.1.ecdh_pk@),
                p.1.ephemeral_sig@,
            )
        },
{
    if init.kyber_pk.len() != KEM_PK_LEN
        || init.ecdh_pk.len() != CLASSICAL_KEY_LEN
        || init.dilithium_sig.len() != HYBRID_SIG_LEN
    {
        return Err(HandshakeError::ProtocolViolation);
    }
    let payload = concat_bytes(&init.kyber_pk, &init.ecdh_pk);
    let sig_ok = verify_hybrid(&peer.ed_pk, &peer.pq_pk, &payload, &init.dilithium_sig);
    if !chain_ok || !sig_ok {
        return Err(HandshakeError::CryptoError);
    }
    let (ciphertext, mut ss_a) = match kem_encaps(&init.kyber_pk) {
        Some(p) => p,
        None => unreached(),
    };
    let mut ecdh_sk = random_bytes(CLASSICAL_KEY_LEN);
    let ecdh_pk = dh_public(&ecdh_sk);
    let mut ss_b = dh_shared(&ecdh_sk, &init.ecdh_pk);
    let mut ikm = concat_bytes(&ss_a, &ss_b);
    let secret = kdf64(&ikm);
    wipe(&mut ikm);
    wipe(&mut ss_a);
    wipe(&mut ss_b);
    wipe(&mut ecdh_sk);
    let t1 = concat_bytes(&init.kyber_pk, &init.ecdh_pk);
    let t2 = concat_bytes(&t1, &ciphertext);
    let transcript = concat_bytes(&t2, &ecdh_pk);
    proof {
        assert(transcript@ =~= transcript_of(
            init.kyber_pk@, init.ecdh_pk@, ciphertext@, ecdh_pk@));
    }
    let sig = sign_hybrid(id, &transcript);
    let resp = HandshakeResponse { kyber_ciphertext: ciphertext, ecdh_pk, ephemeral_sig: sig };
    Ok((secret, resp))
}

/// Process the response as initiator and derive the session secret.
///
/// A malformed response is a `ProtocolViolation`; an invalid transcript
/// signature component is a `CryptoError`, never silently accepted.  The
/// ephemeral secrets in `st` are consumed and wiped on every path.
pub fn finish(
    st: InitiatorState,
    peer: &PeerIdentity,
    resp: &HandshakeResponse,
) -> (r: Result<Vec<u8>, HandshakeError>)
    requires
        st.sk_lens_ok(),
    ensures
        r is Ok <==> (resp_wf(resp) && hybrid_sig_ok(
            peer.ed_pk@,
            peer.pq_pk@,
            transcript_of(st.kyber_pk@, st.ecdh_pk@, resp.kyber_ciphertext@, resp.ecdh_pk@),
            resp.ephemeral_sig@,
        )),
        r == Err::<Vec<u8>, HandshakeError>(HandshakeError::ProtocolViolation) <==> !resp_wf(resp),
        r == Err::<Vec<u8>, HandshakeError>(HandshakeError::CryptoError) <==> (resp_wf(resp)
            && !hybrid_sig_ok(
                peer.ed_pk@,
                peer.pq_pk@,
                transcript_of(st.kyber_pk@, st.ecdh_pk@, resp.kyber_ciphertext@, resp.ecdh_pk@),
                resp.ephemeral_sig@,
            )),
        r matches Ok(s) ==> {
            &&& s@ == kdf_of(kem_shared(kem_pk_of(st.kyber_sk@), resp.kyber_ciphertext@)
                + x_shared(x_pk_of(st.ecdh_sk@), resp.ecdh_pk@))
            &&& s@.len() == SECRET_LEN
        },
{
    let InitiatorState { mut kyber_sk, mut ecdh_sk, kyber_pk, ecdh_pk } = st;
    if resp.kyber_ciphertext.len() != KEM_CT_LEN
        || resp.ecdh_pk.len() != CLASSICAL_KEY_LEN
        || resp.ephemeral_sig.len() != HYBRID_SIG_LEN
    {
        wipe(&mut kyber_sk);
        wipe(&mut ecdh_sk);
        return Err(HandshakeError::ProtocolViolation);
    }
    let t1 = concat_bytes(&kyber_pk, &ecdh_pk);
    let t2 = concat_bytes(&t1, &resp.kyber_ciphertext);
    let transcript = concat_bytes(&t2, &resp.ecdh_pk);
    proof {
        assert(transcript@ =~= transcript_of(
            kyber_pk@, ecdh_pk@, resp.kyber_ciphertext@, resp.ecdh_pk@));
    }
    let sig_ok = verify_hybrid(&peer.ed_pk, &peer.pq_pk, &transcript, &resp.ephemeral_sig);
    if !sig_ok {
        wipe(&mut kyber_sk);
        wipe(&mut ecdh_sk);
        return Err(HandshakeError::CryptoError);
    }
    let mut ss_a = match kem_decaps(&kyber_sk, &resp.kyber_ciphertext) {
        Some(s) => s,
        None => unreached(),
    };
    let mut ss_b = dh_shared(&ecdh_sk, &resp.ecdh_pk);
    let mut ikm = concat_bytes(&ss_a, &ss_b);
    let secret = kdf64(&ikm);
    wipe(&mut ikm);
    wipe(&mut ss_a);
    wipe(&mut ss_b);
    wipe(&mut kyber_sk);
    wipe(&mut ecdh_sk);
    Ok(secret)
}

/// Law: two honest parties that complete the handshake derive the same
/// session secret.  The responder derives it from the fields of the two
/// wire messages; the initiator from its ephemeral secret keys and the
/// response.  When the init message carries the public keys of those
/// secret keys — which `initiate` guarantees — the two derivations name
/// the same byte string.
pub proof fn lemma_session_agreement(
    kyber_sk: Seq<u8>,
    ecdh_sk: Seq<u8>,
    kyber_pk: Seq<u8>,
    ecdh_pk_i: Seq<u8>,
    ciphertext: Seq<u8>,
    ecdh_pk_r: Seq<u8>,
)
    requires
        kyber_pk == kem_pk_of(kyber_sk),
        ecdh_pk_i == x_pk_of(ecdh_sk),
    ensures
        kdf_of(kem_shared(kem_pk_of(kyber_sk), ciphertext) + x_shared(x_pk_of(ecdh_sk), ecdh_pk_r))
            == session_secret_of(kyber_pk, ecdh_pk_i, ciphertext, ecdh_pk_r),
{
}

/// Run a complete handshake between two freshly generated parties in
/// memory.  Always succeeds, and both derived secrets are the same
/// 64 bytes — the executable form of the agreement law.
pub fn handshake_pair() -> (r: (Vec<u8>, Vec<u8>))
    ensures
        r.0@ == r.1@,
        r.0@.len() == SECRET_LEN,
{
    let client_id = generate_identity();
    let server_id = generate_identity();
    let client_peer = PeerIdentity {
        ed_pk: clone_bytes(&server_id.ed_pk),
        pq_pk: clone_bytes(&server_id.pq_pk),
    };
    let server_peer = PeerIdentity {
        ed_pk: clone_bytes(&client_id.ed_pk),
        pq_pk: clone_bytes(&client_id.pq_pk),
    };
    let (st, init) = initiate(&client_id, Vec::new());
    let (server_secret, resp) = match respond(&server_id, &server_peer, true, &init) {
        Ok(p) => p,
        Err(_) => unreached(),
    };
    let client_secret = match finish(st, &client_peer, &resp) {
        Ok(s) => s,
        Err(_) => unreached(),
    };
    (client_secret, server_secret)
}

} // verus!
