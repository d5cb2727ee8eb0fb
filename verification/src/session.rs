//! The session: the identity of one run towards the remote application.

use crate::channel::SecureChannel;
use crate::encoding::{base64_bytes, base64_text};
use crate::error::Error;
use crate::keys::{x25519_public_key, zeros, EphemeralKeyPair, PublicKey, KEY_LENGTH};
use crate::messages::{host_key, ChangePublicKeysRequest, ChangePublicKeysResponse};
use crate::nonce::{Nonce, NONCE_LENGTH};
use crate::text::text_of;
use vstd::prelude::*;

verus! {

/// One run's standing with the remote application: a random client
/// identifier, the key pair made for this run, and the remote public key
/// once the handshake has brought it. A session is never resumed.
pub struct Session {
    client_id: String,
    local_keys: EphemeralKeyPair,
    remote_public_key: Option<PublicKey>,
}

impl Session {
    /// The client identifier.
    pub closed spec fn id(self) -> Seq<char> {
        self.client_id@
    }

    /// The bytes of the local secret key.
    pub closed spec fn secret(self) -> Seq<u8> {
        self.local_keys.secret_bytes()
    }

    /// The bytes of the local public key.
    pub closed spec fn public(self) -> Seq<u8> {
        self.local_keys.public_bytes()
    }

    /// The bytes of the remote public key, once the handshake is done.
    pub closed spec fn remote(self) -> Option<Seq<u8>> {
        match self.remote_public_key {
            Some(key) => Some(key@),
            None => None,
        }
    }

    /// The client identifier.
    pub fn client_id(&self) -> (id: &String)
        ensures
            id@ == self.id(),
    {
        &self.client_id
    }

    /// The key pair of the session.
    pub fn local_keys(&self) -> (keys: &EphemeralKeyPair)
        ensures
            keys.secret_bytes() == self.secret(),
            keys.public_bytes() == self.public(),
    {
        &self.local_keys
    }

    /// The request that opens the handshake: it offers the local public key
    /// under the client identifier.
    pub fn handshake_request(&self) -> (request: ChangePublicKeysRequest)
        ensures
            request.client_id@ == self.id(),
            request.public_key@ == base64_text(self.public()),
            base64_bytes(request.nonce@) is Some,
            base64_bytes(request.nonce@)->0.len() == NONCE_LENGTH,
    {
        exchange_keys(self.client_id.as_str(), self.local_keys.public_key())
    }

    /// Takes in the response to the handshake. The remote public key is set
    /// by the first response that hands one over with a successful status,
    /// and stays as it is from then on: any other response, and any response
    /// after that one, is a failed handshake and changes nothing.
    pub fn complete_handshake(&mut self, response: &ChangePublicKeysResponse) -> (outcome: Result<
        (),
        Error,
    >)
        ensures
            final(self).id() == old(self).id(),
            final(self).secret() == old(self).secret(),
            final(self).public() == old(self).public(),
            match (old(self).remote(), host_key(text_of(response.public_key), response.success)) {
                (None, Some(key)) => outcome is Ok && final(self).remote() == Some(key),
                _ => outcome == Err::<(), Error>(Error::HandshakeFailed) && final(self).remote()
                    == old(self).remote(),
            },
    {
        if self.remote_public_key.is_some() {
            return Err(Error::HandshakeFailed);
        }
        match response.get_public_key() {
            Some(key) => {
                self.remote_public_key = Some(key);
                Ok(())
            },
            None => Err(Error::HandshakeFailed),
        }
    }

    /// Ends the session: the secret key of this run is overwritten with
    /// zeros. What was sealed for this session can no longer be opened.
    pub fn end(&mut self)
        ensures
            final(self).secret() == zeros(KEY_LENGTH as nat),
            final(self).id() == old(self).id(),
            final(self).remote() == old(self).remote(),
    {
        self.local_keys.erase();
    }

    /// The secure channel of the session, once the handshake is done.
    pub fn channel(&self) -> (channel: Option<SecureChannel<'_>>)
        ensures
            channel is Some == self.remote() is Some,
            channel is Some ==> channel->0.secret() == self.secret() && channel->0.remote()
                == self.remote()->0,
    {
        match &self.remote_public_key {
            Some(remote) => Some(SecureChannel::establish(&self.local_keys, remote)),
            None => None,
        }
    }
}

/// Opens a session: makes the key pair of this run and a random client
/// identifier. Nothing has been exchanged yet.
pub fn start_session() -> (session: Session)
    ensures
        session.remote() is None,
        session.public() == x25519_public_key(session.secret()),
        session.secret().len() == KEY_LENGTH,
        base64_bytes(session.id()) is Some,
        base64_bytes(session.id())->0.len() == NONCE_LENGTH,
{
    let local_keys = EphemeralKeyPair::generate();
    let client_id = Nonce::generate().to_base64();
    Session { client_id, local_keys, remote_public_key: None }
}

/// The request that opens the handshake for a client identifier and the
/// public key of its session.
pub fn exchange_keys(client_id: &str, session_pubkey: &PublicKey) -> (request:
    ChangePublicKeysRequest)
    ensures
        request.client_id@ == client_id@,
        request.public_key@ == base64_text(session_pubkey@),
        base64_bytes(request.nonce@) is Some,
        base64_bytes(request.nonce@)->0.len() == NONCE_LENGTH,
{
    ChangePublicKeysRequest::new(client_id, session_pubkey)
}

} // verus!
