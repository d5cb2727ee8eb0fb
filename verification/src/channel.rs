//! The secure channel: authenticated encryption of payloads between the
//! local key pair of this run and the public key of the remote application.

use crate::encoding::{
    base64_bytes, base64_decode, base64_encodable, base64_encode, base64_text, can_encode,
};
use crate::error::Error;
use crate::keys::{EphemeralKeyPair, PublicKey, KEY_LENGTH};
use crate::nonce::{lemma_successor_differs, successor, Nonce, NONCE_LENGTH};
use crate::text::text_of;
use crypto_box::aead::Aead;
use vstd::prelude::*;
use vstd::string::*;
use vstd::utf8::encode_utf8;

verus! {

/// Width in bytes of the authentication tag that the session cipher puts in
/// front of a ciphertext.
pub const BOX_TAG_LENGTH: usize = 16;

/// The ciphertext, tag included, of a message for the owner of a public key
/// from the owner of a secret key, under a nonce.
pub uninterp spec fn salsa_box_seal(
    public: Seq<u8>,
    secret: Seq<u8>,
    nonce: Seq<u8>,
    message: Seq<u8>,
) -> Seq<u8>;

/// The message that a ciphertext holds for the owner of a secret key from
/// the owner of a public key, under a nonce, if the ciphertext is authentic.
pub uninterp spec fn salsa_box_open(
    public: Seq<u8>,
    secret: Seq<u8>,
    nonce: Seq<u8>,
    sealed: Seq<u8>,
) -> Option<Seq<u8>>;

/// `Aead::encrypt` of crypto_box's `SalsaBox` for the two keys, without
/// associated data. Without associated data and into a growable buffer the
/// cipher has no way to fail. What it returns is the message's length and a
/// tag long, and the same box opens it under the same nonce to the message.
#[verifier::external_body]
fn box_seal(public: &Vec<u8>, secret: &Vec<u8>, nonce: &Vec<u8>, message: &Vec<u8>) -> (sealed:
    Vec<u8>)
    requires
        public@.len() == KEY_LENGTH,
        secret@.len() == KEY_LENGTH,
        nonce@.len() == NONCE_LENGTH,
        message@.len() + BOX_TAG_LENGTH <= usize::MAX,
    ensures
        sealed@ == salsa_box_seal(public@, secret@, nonce@, message@),
        sealed@.len() == message@.len() + BOX_TAG_LENGTH,
        salsa_box_open(public@, secret@, nonce@, sealed@) == Some(message@),
{
    let public = crypto_box::PublicKey::from_slice(public).unwrap();
    let secret = crypto_box::SecretKey::from_slice(secret).unwrap();
    let cipher = crypto_box::SalsaBox::new(&public, &secret);
    let nonce: &crypto_box::Nonce = nonce.as_slice().into();
    cipher.encrypt(nonce, message.as_slice()).unwrap()
}

/// `Aead::decrypt` of crypto_box's `SalsaBox` for the two keys, without
/// associated data: the message named `salsa_box_open`, or nothing where the
/// cipher reports an error.
#[verifier::external_body]
fn box_open(public: &Vec<u8>, secret: &Vec<u8>, nonce: &Vec<u8>, sealed: &Vec<u8>) -> (message:
    Option<Vec<u8>>)
    requires
        public@.len() == KEY_LENGTH,
        secret@.len() == KEY_LENGTH,
        nonce@.len() == NONCE_LENGTH,
    ensures
        message is Some == salsa_box_open(public@, secret@, nonce@, sealed@) is Some,
        message is Some ==> message->0@ == salsa_box_open(public@, secret@, nonce@, sealed@)->0,
{
    let public = crypto_box::PublicKey::from_slice(public).unwrap();
    let secret = crypto_box::SecretKey::from_slice(secret).unwrap();
    let cipher = crypto_box::SalsaBox::new(&public, &secret);
    let nonce: &crypto_box::Nonce = nonce.as_slice().into();
    cipher.decrypt(nonce, sealed.as_slice()).ok()
}

/// The payload that a ciphertext and a nonce, both as base64 text, hold for
/// the owner of `secret` from the owner of `public`. Both texts have to
/// decode, the nonce has to have its width, and the ciphertext has to be
/// authentic; anything else is a failed decryption.
pub open spec fn opened_payload(
    public: Seq<u8>,
    secret: Seq<u8>,
    ciphertext: Seq<char>,
    nonce: Seq<char>,
) -> Result<Seq<u8>, Error> {
    match (base64_bytes(nonce), base64_bytes(ciphertext)) {
        (Some(n), Some(sealed)) => if n.len() == NONCE_LENGTH {
            match salsa_box_open(public, secret, n, sealed) {
                Some(message) => Ok(message),
                None => Err(Error::DecryptionFailed),
            }
        } else {
            Err(Error::DecryptionFailed)
        },
        _ => Err(Error::DecryptionFailed),
    }
}

/// The payload of a reply to a message that was sent under `sent`. The
/// reply has to come under the nonce that follows `sent`; a reply under any
/// other nonce is refused, whatever it holds.
pub open spec fn opened_reply(
    public: Seq<u8>,
    secret: Seq<u8>,
    sent: Seq<u8>,
    ciphertext: Seq<char>,
    nonce: Seq<char>,
) -> Result<Seq<u8>, Error> {
    if base64_bytes(nonce) == Some(successor(sent)) {
        opened_payload(public, secret, ciphertext, nonce)
    } else {
        Err(Error::DecryptionFailed)
    }
}

/// A reply that comes under any nonce but the successor of the one sent is
/// refused, whatever it holds and however well it is sealed.
pub proof fn lemma_wrong_nonce_is_refused(
    public: Seq<u8>,
    secret: Seq<u8>,
    sent: Seq<u8>,
    ciphertext: Seq<char>,
    nonce: Seq<char>,
)
    requires
        base64_bytes(nonce) != Some(successor(sent)),
    ensures
        opened_reply(public, secret, sent, ciphertext, nonce) == Err::<Seq<u8>, Error>(
            Error::DecryptionFailed,
        ),
{
}

/// What comes back under the very nonce that was sent is refused: a request
/// is never taken for its own reply.
pub proof fn lemma_echo_is_refused(
    public: Seq<u8>,
    secret: Seq<u8>,
    sent: Seq<u8>,
    ciphertext: Seq<char>,
    nonce: Seq<char>,
)
    requires
        sent.len() == NONCE_LENGTH,
        base64_bytes(nonce) == Some(sent),
    ensures
        opened_reply(public, secret, sent, ciphertext, nonce) == Err::<Seq<u8>, Error>(
            Error::DecryptionFailed,
        ),
{
    lemma_successor_differs(sent);
}

/// Whether a payload of this length can be sent: its ciphertext has to be
/// writable as base64.
pub open spec fn sendable(len: nat) -> bool {
    len + BOX_TAG_LENGTH <= usize::MAX && base64_encodable(len + BOX_TAG_LENGTH as nat)
}

/// A request as it travels: the action in the clear, and the payload
/// sealed, with the nonce it was sealed under.
pub struct RequestEnvelope {
    pub action: String,
    pub message: String,
    pub nonce: String,
    pub client_id: String,
}

/// A response as it arrives. A response that reports an error carries no
/// sealed payload.
pub struct ResponseEnvelope {
    pub message: Option<String>,
    pub nonce: Option<String>,
    pub error: Option<String>,
    pub error_code: Option<String>,
}

/// The secure channel of one session. It knows the keys of the session
/// only, nothing of the stored identities.
pub struct SecureChannel<'a> {
    local_keys: &'a EphemeralKeyPair,
    remote_public_key: &'a PublicKey,
}

impl<'a> SecureChannel<'a> {
    /// The bytes of the local secret key.
    pub closed spec fn secret(self) -> Seq<u8> {
        self.local_keys.secret_bytes()
    }

    /// The bytes of the remote public key.
    pub closed spec fn remote(self) -> Seq<u8> {
        self.remote_public_key@
    }

    /// The payload that a ciphertext and a nonce hold on this channel.
    pub open spec fn opened(self, ciphertext: Seq<char>, nonce: Seq<char>) -> Result<
        Seq<u8>,
        Error,
    > {
        opened_payload(self.remote(), self.secret(), ciphertext, nonce)
    }

    /// The channel between a local key pair and a remote public key.
    pub fn establish(local_keys: &'a EphemeralKeyPair, remote_public_key: &'a PublicKey) -> (channel:
        SecureChannel<'a>)
        ensures
            channel.secret() == local_keys.secret_bytes(),
            channel.remote() == remote_public_key@,
    {
        SecureChannel { local_keys, remote_public_key }
    }

    /// Tells whether a payload of this length can be sent.
    pub fn can_encrypt(len: usize) -> (r: bool)
        ensures
            r == sendable(len as nat),
    {
        len <= usize::MAX - BOX_TAG_LENGTH && can_encode(len + BOX_TAG_LENGTH)
    }

    /// Seals a payload under a given nonce. Returns the ciphertext and the
    /// nonce, both as base64 text. What is returned opens on this channel
    /// to the payload.
    pub fn encrypt_with(&self, nonce: &Nonce, payload: &Vec<u8>) -> (sealed: (String, String))
        requires
            sendable(payload@.len()),
        ensures
            base64_bytes(sealed.1@) == Some(nonce@),
            sealed.1@ == base64_text(nonce@),
            sealed.0@ == base64_text(
                salsa_box_seal(self.remote(), self.secret(), nonce@, payload@),
            ),
            self.opened(sealed.0@, sealed.1@) == Ok::<Seq<u8>, Error>(payload@),
    {
        let bytes = box_seal(
            self.remote_public_key.as_bytes(),
            self.local_keys.secret_key().as_bytes(),
            nonce.as_bytes(),
            payload,
        );
        (base64_encode(&bytes), nonce.to_base64())
    }

    /// Seals a payload under a fresh random nonce. Returns the ciphertext
    /// and the nonce, both as base64 text. What is returned opens on this
    /// channel to the payload.
    pub fn encrypt(&self, payload: &Vec<u8>) -> (sealed: (String, String))
        requires
            sendable(payload@.len()),
        ensures
            base64_bytes(sealed.1@) is Some,
            base64_bytes(sealed.1@)->0.len() == NONCE_LENGTH,
            sealed.0@ == base64_text(
                salsa_box_seal(self.remote(), self.secret(), base64_bytes(sealed.1@)->0, payload@),
            ),
            self.opened(sealed.0@, sealed.1@) == Ok::<Seq<u8>, Error>(payload@),
    {
        let nonce = Nonce::generate();
        let _ = nonce.as_bytes();
        self.encrypt_with(&nonce, payload)
    }

    /// Seals a payload of any length under a fresh random nonce, where it
    /// can be sent at all: a payload too long for the machine is refused.
    /// What is returned opens on this channel to the payload.
    pub fn try_encrypt(&self, payload: &Vec<u8>) -> (sealed: Result<(String, String), Error>)
        ensures
            sealed is Ok == sendable(payload@.len()),
            sealed is Err ==> sealed->Err_0 == Error::EncryptionFailed,
            sealed is Ok ==> self.opened(sealed->Ok_0.0@, sealed->Ok_0.1@) == Ok::<Seq<u8>, Error>(
                payload@,
            ),
    {
        if SecureChannel::can_encrypt(payload.len()) {
            Ok(self.encrypt(payload))
        } else {
            Err(Error::EncryptionFailed)
        }
    }

    /// Opens a ciphertext under a nonce, both given as base64 text. A
    /// ciphertext that is not authentic is an error, never an empty result.
    pub fn decrypt(&self, ciphertext: &str, nonce: &str) -> (payload: Result<Vec<u8>, Error>)
        ensures
            payload is Ok == self.opened(ciphertext@, nonce@) is Ok,
            payload is Ok ==> payload->Ok_0@ == self.opened(ciphertext@, nonce@)->Ok_0,
            payload is Err ==> payload->Err_0 == Error::DecryptionFailed,
    {
        let nonce = match Nonce::from_base64(nonce) {
            Some(nonce) => nonce,
            None => {
                return Err(Error::DecryptionFailed);
            },
        };
        let sealed = match base64_decode(ciphertext) {
            Some(sealed) => sealed,
            None => {
                return Err(Error::DecryptionFailed);
            },
        };
        match box_open(
            self.remote_public_key.as_bytes(),
            self.local_keys.secret_key().as_bytes(),
            nonce.as_bytes(),
            &sealed,
        ) {
            Some(payload) => Ok(payload),
            None => Err(Error::DecryptionFailed),
        }
    }

    /// Opens the reply to a message that was sent under the nonce `sent`.
    /// The reply is opened only if it comes under the successor of `sent`.
    pub fn decrypt_reply(&self, sent: &Nonce, ciphertext: &str, nonce: &str) -> (payload: Result<
        Vec<u8>,
        Error,
    >)
        ensures
            payload is Ok == opened_reply(self.remote(), self.secret(), sent@, ciphertext@, nonce@)
                is Ok,
            payload is Ok ==> payload->Ok_0@ == opened_reply(
                self.remote(),
                self.secret(),
                sent@,
                ciphertext@,
                nonce@,
            )->Ok_0,
            payload is Err ==> payload->Err_0 == Error::DecryptionFailed,
            base64_bytes(nonce@) != Some(successor(sent@)) ==> payload is Err,
    {
        let expected = sent.successor();
        let bound = match Nonce::from_base64(nonce) {
            Some(bound) => bound,
            None => {
                return Err(Error::DecryptionFailed);
            },
        };
        if !bound.same_as(&expected) {
            return Err(Error::DecryptionFailed);
        }
        self.decrypt(ciphertext, nonce)
    }

    /// Puts a request into its envelope: the payload is sealed under a
    /// fresh nonce, the action and the client identifier stay in the clear.
    pub fn seal_request(&self, action: &str, client_id: &str, payload: &str) -> (envelope:
        RequestEnvelope)
        requires
            sendable(encode_utf8(payload@).len()),
        ensures
            envelope.action@ == action@,
            envelope.client_id@ == client_id@,
            base64_bytes(envelope.nonce@) is Some,
            base64_bytes(envelope.nonce@)->0.len() == NONCE_LENGTH,
            self.opened(envelope.message@, envelope.nonce@) == Ok::<Seq<u8>, Error>(
                encode_utf8(payload@),
            ),
    {
        let bytes = payload.as_bytes_vec();
        self.seal_bytes(action, client_id, &bytes)
    }

    /// Puts a request into its envelope, given the bytes of its payload.
    fn seal_bytes(&self, action: &str, client_id: &str, payload: &Vec<u8>) -> (envelope:
        RequestEnvelope)
        requires
            sendable(payload@.len()),
        ensures
            envelope.action@ == action@,
            envelope.client_id@ == client_id@,
            base64_bytes(envelope.nonce@) is Some,
            base64_bytes(envelope.nonce@)->0.len() == NONCE_LENGTH,
            self.opened(envelope.message@, envelope.nonce@) == Ok::<Seq<u8>, Error>(payload@),
    {
        let (message, nonce) = self.encrypt(payload);
        RequestEnvelope {
            action: String::from_str(action),
            message,
            nonce,
            client_id: String::from_str(client_id),
        }
    }

    /// Puts a request of any length into its envelope, where it can be
    /// sent at all: a payload too long for the machine is refused.
    pub fn try_seal_request(&self, action: &str, client_id: &str, payload: &str) -> (envelope:
        Result<RequestEnvelope, Error>)
        ensures
            envelope is Ok == sendable(encode_utf8(payload@).len()),
            envelope is Err ==> envelope->Err_0 == Error::EncryptionFailed,
            envelope is Ok ==> {
                &&& envelope->Ok_0.action@ == action@
                &&& envelope->Ok_0.client_id@ == client_id@
                &&& base64_bytes(envelope->Ok_0.nonce@) is Some
                &&& base64_bytes(envelope->Ok_0.nonce@)->0.len() == NONCE_LENGTH
                &&& self.opened(envelope->Ok_0.message@, envelope->Ok_0.nonce@) == Ok::<
                    Seq<u8>,
                    Error,
                >(encode_utf8(payload@))
            },
    {
        let bytes = payload.as_bytes_vec();
        if SecureChannel::can_encrypt(bytes.len()) {
            Ok(self.seal_bytes(action, client_id, &bytes))
        } else {
            Err(Error::EncryptionFailed)
        }
    }

    /// What [`SecureChannel::open_response`] returns: a response without a
    /// sealed payload is a failed request; a sealed payload is opened only
    /// as the reply to the request, under the successor of its nonce.
    pub open spec fn opened_response(
        self,
        request_nonce: Seq<char>,
        message: Option<Seq<char>>,
        nonce: Option<Seq<char>>,
    ) -> Result<Seq<u8>, Error> {
        if message is None || nonce is None {
            Err(Error::RemoteRequestFailed)
        } else {
            match base64_bytes(request_nonce) {
                Some(sent) => if sent.len() == NONCE_LENGTH {
                    opened_reply(self.remote(), self.secret(), sent, message->0, nonce->0)
                } else {
                    Err(Error::DecryptionFailed)
                },
                None => Err(Error::DecryptionFailed),
            }
        }
    }

    /// Takes the payload out of the response to a request.
    pub fn open_response(&self, request: &RequestEnvelope, response: &ResponseEnvelope) -> (payload:
        Result<Vec<u8>, Error>)
        ensures
            match self.opened_response(
                request.nonce@,
                text_of(response.message),
                text_of(response.nonce),
            ) {
                Ok(bytes) => payload is Ok && payload->Ok_0@ == bytes,
                Err(e) => payload == Err::<Vec<u8>, Error>(e),
            },
    {
        let message = match &response.message {
            Some(message) => message,
            None => {
                return Err(Error::RemoteRequestFailed);
            },
        };
        let nonce = match &response.nonce {
            Some(nonce) => nonce,
            None => {
                return Err(Error::RemoteRequestFailed);
            },
        };
        let sent = match Nonce::from_base64(request.nonce.as_str()) {
            Some(sent) => sent,
            None => {
                return Err(Error::DecryptionFailed);
            },
        };
        self.decrypt_reply(&sent, message.as_str(), nonce.as_str())
    }
}

} // verus!
