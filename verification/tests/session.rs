use git_credential_keepassxc::error::Error;
use git_credential_keepassxc::keys::EphemeralKeyPair;
use git_credential_keepassxc::messages::ChangePublicKeysResponse;
use git_credential_keepassxc::nonce::Nonce;
use git_credential_keepassxc::session::{exchange_keys, start_session};

fn response_with(key: Option<String>, success: Option<bool>) -> ChangePublicKeysResponse {
    ChangePublicKeysResponse { public_key: key, success }
}

#[test]
fn new_session_has_no_remote_key() {
    let session = start_session();
    assert!(session.channel().is_none());
    assert!(Nonce::from_base64(session.client_id()).is_some());
    let derived = session.local_keys().secret_key().public_key();
    assert!(derived.same_as(session.local_keys().public_key()));
}

#[test]
fn sessions_do_not_share_identity() {
    let a = start_session();
    let b = start_session();
    assert_ne!(a.client_id(), b.client_id());
    assert!(!a.local_keys().public_key().same_as(b.local_keys().public_key()));
}

#[test]
fn handshake_request_offers_the_local_key() {
    let session = start_session();
    let request = session.handshake_request();
    assert_eq!(&request.client_id, session.client_id());
    assert_eq!(request.public_key, session.local_keys().public_key().to_base64());
    assert!(Nonce::from_base64(&request.nonce).is_some());
    assert_eq!(request.action(), "change-public-keys");
}

#[test]
fn exchange_keys_names_client_and_key() {
    let pair = EphemeralKeyPair::generate();
    let request = exchange_keys("client-7", pair.public_key());
    assert_eq!(request.client_id, "client-7");
    assert_eq!(request.public_key, pair.public_key().to_base64());
}

#[test]
fn handshake_sets_the_remote_key() {
    let mut session = start_session();
    let remote = EphemeralKeyPair::generate();
    let response = response_with(Some(remote.public_key().to_base64()), Some(true));
    assert_eq!(session.complete_handshake(&response), Ok(()));
    let channel = session.channel().unwrap();
    let (ciphertext, nonce) = channel.encrypt(&b"hello".to_vec());
    assert_eq!(channel.decrypt(&ciphertext, &nonce), Ok(b"hello".to_vec()));
}

#[test]
fn handshake_without_key_fails() {
    let mut session = start_session();
    assert_eq!(
        session.complete_handshake(&response_with(None, Some(true))),
        Err(Error::HandshakeFailed)
    );
    assert!(session.channel().is_none());
}

#[test]
fn handshake_without_success_fails() {
    let remote = EphemeralKeyPair::generate();
    let key = remote.public_key().to_base64();
    let mut session = start_session();
    assert_eq!(
        session.complete_handshake(&response_with(Some(key.clone()), None)),
        Err(Error::HandshakeFailed)
    );
    assert_eq!(
        session.complete_handshake(&response_with(Some(key), Some(false))),
        Err(Error::HandshakeFailed)
    );
    assert!(session.channel().is_none());
}

#[test]
fn handshake_with_a_malformed_key_fails() {
    let mut session = start_session();
    assert_eq!(
        session.complete_handshake(&response_with(Some("AAAA".to_string()), Some(true))),
        Err(Error::HandshakeFailed)
    );
    assert_eq!(
        session.complete_handshake(&response_with(Some("?".to_string()), Some(true))),
        Err(Error::HandshakeFailed)
    );
    assert!(session.channel().is_none());
}

#[test]
fn remote_key_is_set_only_once() {
    let mut session = start_session();
    let first = EphemeralKeyPair::generate();
    let second = EphemeralKeyPair::generate();
    assert_eq!(
        session.complete_handshake(&response_with(Some(first.public_key().to_base64()), Some(true))),
        Ok(())
    );
    let (ciphertext, nonce) = session.channel().unwrap().encrypt(&b"x".to_vec());
    assert_eq!(
        session
            .complete_handshake(&response_with(Some(second.public_key().to_base64()), Some(true))),
        Err(Error::HandshakeFailed)
    );
    // Still the channel to the first key.
    assert_eq!(session.channel().unwrap().decrypt(&ciphertext, &nonce), Ok(b"x".to_vec()));
}

#[test]
fn get_public_key_reads_the_response() {
    let remote = EphemeralKeyPair::generate();
    let good = response_with(Some(remote.public_key().to_base64()), Some(true));
    assert!(good.get_public_key().unwrap().same_as(remote.public_key()));
    assert!(response_with(None, Some(true)).get_public_key().is_none());
    assert!(response_with(Some(remote.public_key().to_base64()), None).get_public_key().is_none());
}

#[test]
fn ended_session_has_no_secret_left() {
    let mut session = start_session();
    let remote = EphemeralKeyPair::generate();
    let response = response_with(Some(remote.public_key().to_base64()), Some(true));
    assert_eq!(session.complete_handshake(&response), Ok(()));
    let (ciphertext, nonce) = session.channel().unwrap().encrypt(&b"hello".to_vec());
    let id = session.client_id().clone();
    session.end();
    assert_eq!(session.local_keys().secret_key().as_bytes(), &vec![0u8; 32]);
    assert_eq!(session.client_id(), &id);
    assert_eq!(
        session.channel().unwrap().decrypt(&ciphertext, &nonce),
        Err(Error::DecryptionFailed)
    );
}
