use crypto_box::aead::Aead;
use git_credential_keepassxc::channel::{RequestEnvelope, ResponseEnvelope, SecureChannel};
use git_credential_keepassxc::error::Error;
use git_credential_keepassxc::keys::{EphemeralKeyPair, PublicKey};
use git_credential_keepassxc::nonce::Nonce;

fn remote_box(local: &EphemeralKeyPair, remote: &EphemeralKeyPair) -> crypto_box::SalsaBox {
    let public = crypto_box::PublicKey::from_slice(local.public_key().as_bytes()).unwrap();
    let secret = crypto_box::SecretKey::from_slice(remote.secret_key().as_bytes()).unwrap();
    crypto_box::SalsaBox::new(&public, &secret)
}

fn b64(bytes: &[u8]) -> String {
    base64::Engine::encode(&base64::engine::general_purpose::STANDARD, bytes)
}

fn remote_public(remote: &EphemeralKeyPair) -> PublicKey {
    remote.public_key().duplicate()
}

#[test]
fn decrypt_inverts_encrypt() {
    let local = EphemeralKeyPair::generate();
    let remote = EphemeralKeyPair::generate();
    let remote_key = remote_public(&remote);
    let channel = SecureChannel::establish(&local, &remote_key);
    let payload = b"{\"action\":\"test-associate\"}".to_vec();
    let (ciphertext, nonce) = channel.encrypt(&payload);
    assert_eq!(channel.decrypt(&ciphertext, &nonce), Ok(payload));
}

#[test]
fn decrypt_inverts_encrypt_for_the_empty_payload() {
    let local = EphemeralKeyPair::generate();
    let remote = EphemeralKeyPair::generate();
    let remote_key = remote_public(&remote);
    let channel = SecureChannel::establish(&local, &remote_key);
    let (ciphertext, nonce) = channel.encrypt(&Vec::new());
    assert_eq!(channel.decrypt(&ciphertext, &nonce), Ok(Vec::new()));
}

#[test]
fn the_other_side_reads_what_was_sealed() {
    let local = EphemeralKeyPair::generate();
    let remote = EphemeralKeyPair::generate();
    let remote_key = remote_public(&remote);
    let local_key = remote_public(&local);
    let ours = SecureChannel::establish(&local, &remote_key);
    let theirs = SecureChannel::establish(&remote, &local_key);
    let payload = vec![1u8, 2, 3, 4, 5];
    let (ciphertext, nonce) = ours.encrypt(&payload);
    assert_eq!(theirs.decrypt(&ciphertext, &nonce), Ok(payload));
}

#[test]
fn ciphertext_is_not_the_payload() {
    let local = EphemeralKeyPair::generate();
    let remote = EphemeralKeyPair::generate();
    let remote_key = remote_public(&remote);
    let channel = SecureChannel::establish(&local, &remote_key);
    let payload = b"secret payload".to_vec();
    let (ciphertext, nonce) = channel.encrypt(&payload);
    assert_ne!(ciphertext, b64(&payload));
    assert_eq!(Nonce::from_base64(&nonce).unwrap().as_bytes().len(), 24);
    let sealed = base64::Engine::decode(&base64::engine::general_purpose::STANDARD, &ciphertext)
        .unwrap();
    assert_eq!(sealed.len(), payload.len() + 16);
}

#[test]
fn two_encryptions_use_different_nonces() {
    let local = EphemeralKeyPair::generate();
    let remote = EphemeralKeyPair::generate();
    let remote_key = remote_public(&remote);
    let channel = SecureChannel::establish(&local, &remote_key);
    let payload = b"same payload".to_vec();
    let (first_text, first_nonce) = channel.encrypt(&payload);
    let (second_text, second_nonce) = channel.encrypt(&payload);
    assert_ne!(first_nonce, second_nonce);
    assert_ne!(first_text, second_text);
}

#[test]
fn tampered_ciphertext_is_refused() {
    let local = EphemeralKeyPair::generate();
    let remote = EphemeralKeyPair::generate();
    let remote_key = remote_public(&remote);
    let channel = SecureChannel::establish(&local, &remote_key);
    let (ciphertext, nonce) = channel.encrypt(&b"payload".to_vec());
    let mut sealed = base64::Engine::decode(&base64::engine::general_purpose::STANDARD, &ciphertext)
        .unwrap();
    let last = sealed.len() - 1;
    sealed[last] ^= 1;
    assert_eq!(channel.decrypt(&b64(&sealed), &nonce), Err(Error::DecryptionFailed));
}

#[test]
fn wrong_key_is_refused() {
    let local = EphemeralKeyPair::generate();
    let remote = EphemeralKeyPair::generate();
    let stranger = EphemeralKeyPair::generate();
    let remote_key = remote_public(&remote);
    let stranger_key = remote_public(&stranger);
    let channel = SecureChannel::establish(&local, &remote_key);
    let other = SecureChannel::establish(&local, &stranger_key);
    let (ciphertext, nonce) = channel.encrypt(&b"payload".to_vec());
    assert_eq!(other.decrypt(&ciphertext, &nonce), Err(Error::DecryptionFailed));
}

#[test]
fn malformed_texts_are_refused() {
    let local = EphemeralKeyPair::generate();
    let remote = EphemeralKeyPair::generate();
    let remote_key = remote_public(&remote);
    let channel = SecureChannel::establish(&local, &remote_key);
    let (ciphertext, nonce) = channel.encrypt(&b"payload".to_vec());
    assert_eq!(channel.decrypt("%%%", &nonce), Err(Error::DecryptionFailed));
    assert_eq!(channel.decrypt(&ciphertext, "%%%"), Err(Error::DecryptionFailed));
    assert_eq!(channel.decrypt(&ciphertext, "AAAA"), Err(Error::DecryptionFailed));
    assert_eq!(channel.decrypt("", &nonce), Err(Error::DecryptionFailed));
}

#[test]
fn reply_under_the_successor_is_opened() {
    let local = EphemeralKeyPair::generate();
    let remote = EphemeralKeyPair::generate();
    let remote_key = remote_public(&remote);
    let channel = SecureChannel::establish(&local, &remote_key);
    let sent = Nonce::generate();
    let bound = sent.successor();
    let reply = remote_box(&local, &remote)
        .encrypt(bound.as_bytes().as_slice().into(), &b"{\"success\":\"true\"}"[..])
        .unwrap();
    assert_eq!(
        channel.decrypt_reply(&sent, &b64(&reply), &bound.to_base64()),
        Ok(b"{\"success\":\"true\"}".to_vec())
    );
}

#[test]
fn reply_under_another_nonce_is_refused() {
    let local = EphemeralKeyPair::generate();
    let remote = EphemeralKeyPair::generate();
    let remote_key = remote_public(&remote);
    let channel = SecureChannel::establish(&local, &remote_key);
    let sent = Nonce::generate();
    // A well sealed reply, but under the nonce of the request itself.
    let reply = remote_box(&local, &remote)
        .encrypt(sent.as_bytes().as_slice().into(), &b"payload"[..])
        .unwrap();
    assert_eq!(channel.decrypt(&b64(&reply), &sent.to_base64()), Ok(b"payload".to_vec()));
    assert_eq!(
        channel.decrypt_reply(&sent, &b64(&reply), &sent.to_base64()),
        Err(Error::DecryptionFailed)
    );
    // And under the nonce two steps on.
    let far = sent.successor().successor();
    let reply = remote_box(&local, &remote)
        .encrypt(far.as_bytes().as_slice().into(), &b"payload"[..])
        .unwrap();
    assert_eq!(
        channel.decrypt_reply(&sent, &b64(&reply), &far.to_base64()),
        Err(Error::DecryptionFailed)
    );
}

#[test]
fn reply_that_claims_the_successor_but_was_sealed_otherwise_is_refused() {
    let local = EphemeralKeyPair::generate();
    let remote = EphemeralKeyPair::generate();
    let remote_key = remote_public(&remote);
    let channel = SecureChannel::establish(&local, &remote_key);
    let sent = Nonce::generate();
    let reply = remote_box(&local, &remote)
        .encrypt(sent.as_bytes().as_slice().into(), &b"payload"[..])
        .unwrap();
    assert_eq!(
        channel.decrypt_reply(&sent, &b64(&reply), &sent.successor().to_base64()),
        Err(Error::DecryptionFailed)
    );
}

#[test]
fn sealed_request_keeps_action_and_client_in_the_clear() {
    let local = EphemeralKeyPair::generate();
    let remote = EphemeralKeyPair::generate();
    let remote_key = remote_public(&remote);
    let channel = SecureChannel::establish(&local, &remote_key);
    let envelope = channel.seal_request("get-logins", "client-1", "{\"url\":\"https://example.com\"}");
    assert_eq!(envelope.action, "get-logins");
    assert_eq!(envelope.client_id, "client-1");
    assert_eq!(
        channel.decrypt(&envelope.message, &envelope.nonce),
        Ok(b"{\"url\":\"https://example.com\"}".to_vec())
    );
}

#[test]
fn response_is_opened_as_the_reply_to_its_request() {
    let local = EphemeralKeyPair::generate();
    let remote = EphemeralKeyPair::generate();
    let remote_key = remote_public(&remote);
    let channel = SecureChannel::establish(&local, &remote_key);
    let request = channel.seal_request("associate", "client-1", "{}");
    let bound = Nonce::from_base64(&request.nonce).unwrap().successor();
    let reply = remote_box(&local, &remote)
        .encrypt(bound.as_bytes().as_slice().into(), &b"{\"id\":\"x\"}"[..])
        .unwrap();
    let response = ResponseEnvelope {
        message: Some(b64(&reply)),
        nonce: Some(bound.to_base64()),
        error: None,
        error_code: None,
    };
    assert_eq!(channel.open_response(&request, &response), Ok(b"{\"id\":\"x\"}".to_vec()));
    let replayed = ResponseEnvelope {
        message: Some(request.message.clone()),
        nonce: Some(request.nonce.clone()),
        error: None,
        error_code: None,
    };
    assert_eq!(channel.open_response(&request, &replayed), Err(Error::DecryptionFailed));
}

#[test]
fn response_without_payload_is_a_failed_request() {
    let local = EphemeralKeyPair::generate();
    let remote = EphemeralKeyPair::generate();
    let remote_key = remote_public(&remote);
    let channel = SecureChannel::establish(&local, &remote_key);
    let request = channel.seal_request("associate", "client-1", "{}");
    let refused = ResponseEnvelope {
        message: None,
        nonce: None,
        error: Some("Database not opened".to_string()),
        error_code: Some("1".to_string()),
    };
    assert_eq!(channel.open_response(&request, &refused), Err(Error::RemoteRequestFailed));
    let half = ResponseEnvelope {
        message: Some("AAAA".to_string()),
        nonce: None,
        error: None,
        error_code: None,
    };
    assert_eq!(channel.open_response(&request, &half), Err(Error::RemoteRequestFailed));
}

#[test]
fn response_to_a_request_without_nonce_is_refused() {
    let local = EphemeralKeyPair::generate();
    let remote = EphemeralKeyPair::generate();
    let remote_key = remote_public(&remote);
    let channel = SecureChannel::establish(&local, &remote_key);
    let request = RequestEnvelope {
        action: "associate".to_string(),
        message: "AAAA".to_string(),
        nonce: "AAAA".to_string(),
        client_id: "client-1".to_string(),
    };
    let response = ResponseEnvelope {
        message: Some("AAAA".to_string()),
        nonce: Some("AAAA".to_string()),
        error: None,
        error_code: None,
    };
    assert_eq!(channel.open_response(&request, &response), Err(Error::DecryptionFailed));
}

#[test]
fn can_encrypt_refuses_only_huge_payloads() {
    assert!(SecureChannel::can_encrypt(0));
    assert!(SecureChannel::can_encrypt(4096));
    assert!(!SecureChannel::can_encrypt(usize::MAX));
    assert!(!SecureChannel::can_encrypt(usize::MAX - 16));
}

#[test]
fn encrypt_with_seals_under_the_given_nonce() {
    let local = EphemeralKeyPair::generate();
    let remote = EphemeralKeyPair::generate();
    let remote_key = remote_public(&remote);
    let channel = SecureChannel::establish(&local, &remote_key);
    let mut bytes = vec![0u8; 24];
    bytes[0] = 7;
    let nonce = Nonce::from_bytes(bytes).unwrap();
    let payload = b"fixed nonce".to_vec();
    let (ciphertext, text) = channel.encrypt_with(&nonce, &payload);
    assert_eq!(text, "BwAAAAAAAAAAAAAAAAAAAAAAAAAAAAAA");
    assert_eq!(text, nonce.to_base64());
    // The same bytes that the cipher gives for these keys and this nonce.
    let public = crypto_box::PublicKey::from_slice(remote.public_key().as_bytes()).unwrap();
    let secret = crypto_box::SecretKey::from_slice(local.secret_key().as_bytes()).unwrap();
    let expected = crypto_box::SalsaBox::new(&public, &secret)
        .encrypt(nonce.as_bytes().as_slice().into(), &payload[..])
        .unwrap();
    assert_eq!(ciphertext, b64(&expected));
    assert_eq!(channel.decrypt(&ciphertext, &text), Ok(payload.clone()));
    // Sealing is a function of keys, nonce and payload.
    assert_eq!(channel.encrypt_with(&nonce, &payload), (ciphertext, text));
}

#[test]
fn try_encrypt_seals_what_can_be_sent() {
    let local = EphemeralKeyPair::generate();
    let remote = EphemeralKeyPair::generate();
    let remote_key = remote_public(&remote);
    let channel = SecureChannel::establish(&local, &remote_key);
    let (ciphertext, nonce) = channel.try_encrypt(&Vec::new()).unwrap();
    assert_eq!(channel.decrypt(&ciphertext, &nonce), Ok(Vec::new()));
    let payload = vec![9u8; 1000];
    let (ciphertext, nonce) = channel.try_encrypt(&payload).unwrap();
    assert_eq!(channel.decrypt(&ciphertext, &nonce), Ok(payload));
    let envelope = channel.try_seal_request("associate", "client", "{}").ok().unwrap();
    assert_eq!(envelope.action, "associate");
    assert_eq!(envelope.client_id, "client");
    assert_eq!(channel.decrypt(&envelope.message, &envelope.nonce), Ok(b"{}".to_vec()));
}
