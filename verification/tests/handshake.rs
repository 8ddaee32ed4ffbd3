use nuzon::handshake::{
    finish, generate_identity, handshake_pair, initiate, respond, HandshakeError, PeerIdentity,
};

fn peer_of(id: &nuzon::handshake::IdentityKeys) -> PeerIdentity {
    PeerIdentity {
        ed_pk: id.ed_pk.clone(),
        pq_pk: id.pq_pk.clone(),
    }
}

#[test]
fn both_parties_derive_the_same_secret() {
    let (a, b) = handshake_pair();
    assert_eq!(a, b);
    assert_eq!(a.len(), 64);
}

#[test]
fn manual_handshake_flow() {
    let client = generate_identity();
    let server = generate_identity();

    let (state, init) = initiate(&client, vec![b"leaf-cert".to_vec()]);
    assert_eq!(init.kyber_pk.len(), 1568);
    assert_eq!(init.ecdh_pk.len(), 32);
    assert_eq!(init.dilithium_sig.len(), 64 + 4627);
    assert_eq!(init.cert_chain.len(), 1);

    let (server_secret, resp) = respond(&server, &peer_of(&client), true, &init).unwrap();
    assert_eq!(resp.kyber_ciphertext.len(), 1568);
    assert_eq!(resp.ecdh_pk.len(), 32);

    let client_secret = finish(state, &peer_of(&server), &resp).unwrap();
    assert_eq!(client_secret, server_secret);
    assert_eq!(client_secret.len(), 64);
}

#[test]
fn tampered_init_signature_fails_with_crypto_error() {
    let client = generate_identity();
    let server = generate_identity();
    let (_state, init) = initiate(&client, vec![]);

    // Flip one byte at a spread of positions across both signature
    // components: the Ed25519 half, the boundary, and the Dilithium half.
    let len = init.dilithium_sig.len();
    for &pos in &[0usize, 1, 32, 63, 64, 65, len / 2, len - 2, len - 1] {
        let mut tampered = nuzon::handshake::HandshakeInit {
            kyber_pk: init.kyber_pk.clone(),
            ecdh_pk: init.ecdh_pk.clone(),
            dilithium_sig: init.dilithium_sig.clone(),
            cert_chain: init.cert_chain.clone(),
        };
        tampered.dilithium_sig[pos] ^= 0x01;
        let err = respond(&server, &peer_of(&client), true, &tampered).unwrap_err();
        assert_eq!(err, HandshakeError::CryptoError, "position {pos}");
    }
}

#[test]
fn tampered_response_signature_fails_with_crypto_error() {
    let client = generate_identity();
    let server = generate_identity();
    let len = 64 + 4627;
    for &pos in &[0usize, 63, 64, len / 2, len - 1] {
        let (state, init) = initiate(&client, vec![]);
        let (_s, mut resp) = respond(&server, &peer_of(&client), true, &init).unwrap();
        resp.ephemeral_sig[pos] ^= 0x80;
        let err = finish(state, &peer_of(&server), &resp).unwrap_err();
        assert_eq!(err, HandshakeError::CryptoError, "position {pos}");
    }
}

#[test]
fn untrusted_chain_fails_with_crypto_error() {
    let client = generate_identity();
    let server = generate_identity();
    let (_state, init) = initiate(&client, vec![]);
    let err = respond(&server, &peer_of(&client), false, &init).unwrap_err();
    assert_eq!(err, HandshakeError::CryptoError);
}

#[test]
fn wrong_peer_identity_fails_with_crypto_error() {
    let client = generate_identity();
    let server = generate_identity();
    let impostor = generate_identity();
    let (_state, init) = initiate(&client, vec![]);
    let err = respond(&server, &peer_of(&impostor), true, &init).unwrap_err();
    assert_eq!(err, HandshakeError::CryptoError);
}

#[test]
fn malformed_init_fails_with_protocol_violation() {
    let client = generate_identity();
    let server = generate_identity();
    let (_state, init) = initiate(&client, vec![]);
    let mut truncated = init;
    truncated.kyber_pk.pop();
    let err = respond(&server, &peer_of(&client), true, &truncated).unwrap_err();
    assert_eq!(err, HandshakeError::ProtocolViolation);
}

#[test]
fn secret_buffers_are_wiped_to_zero() {
    let mut buf = vec![0x17u8, 0x2a, 0xff, 0x01];
    nuzon::crypto::wipe(&mut buf);
    assert_eq!(buf, vec![0u8, 0, 0, 0]);
}

#[test]
fn malformed_response_fails_with_protocol_violation() {
    let client = generate_identity();
    let server = generate_identity();
    let (state, init) = initiate(&client, vec![]);
    let (_s, mut resp) = respond(&server, &peer_of(&client), true, &init).unwrap();
    resp.kyber_ciphertext.pop();
    let err = finish(state, &peer_of(&server), &resp).unwrap_err();
    assert_eq!(err, HandshakeError::ProtocolViolation);
}
