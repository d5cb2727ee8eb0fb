//! Protection of stored records at rest: the symmetric cipher, its keys and
//! nonces, and the profiles that say where the key comes from.

use crate::encoding::{
    base64_bytes, base64_decode, base64_encodable, base64_encode, base64_text, can_encode,
    text_from_utf8,
};
use crate::error::Error;
use crate::keys::{zero_bytes, zeros};
use crate::text::{
    is_digit, lemma_split_nonempty, parse_u8, parsed_u8, split, split_text, text_is, views,
};
use aes_gcm::aead::Aead;
use aes_gcm::KeyInit;
use rand::distr::SampleString;
use vstd::prelude::*;
use vstd::string::*;
use vstd::utf8::{
    decode_utf8, encode_utf8, encode_utf8_decode_utf8, encode_utf8_valid_utf8, valid_utf8,
};

verus! {

/// Width in bytes of a key of the cipher that protects records at rest.
pub const AES_KEY_LENGTH: usize = 32;

/// Width in bytes of a nonce of the cipher that protects records at rest.
pub const AES_NONCE_LENGTH: usize = 12;

/// Width in bytes of the authentication tag that the cipher appends.
pub const AES_TAG_LENGTH: usize = 16;

/// The longest plaintext in bytes that the cipher seals.
pub const AES_MAX_PLAINTEXT: u64 = 68719476704;

/// The ciphertext, tag included, of a message under a key and a nonce, if
/// the cipher seals the message.
pub uninterp spec fn aes256_gcm_seal(key: Seq<u8>, nonce: Seq<u8>, message: Seq<u8>) -> Option<
    Seq<u8>,
>;

/// The message that a ciphertext holds under a key and a nonce, if the
/// ciphertext is authentic.
pub uninterp spec fn aes256_gcm_open(key: Seq<u8>, nonce: Seq<u8>, sealed: Seq<u8>) -> Option<
    Seq<u8>,
>;

/// `Aead::encrypt` of `Aes256Gcm`, without associated data. The cipher
/// refuses a message only for its length. What it returns is the message's
/// length and a tag long, and opens under the same key and nonce to the
/// message.
#[verifier::external_body]
fn aes_seal(key: &Vec<u8>, nonce: &Vec<u8>, message: &[u8]) -> (sealed: Option<Vec<u8>>)
    requires
        key@.len() == AES_KEY_LENGTH,
        nonce@.len() == AES_NONCE_LENGTH,
    ensures
        sealed is Some == (message@.len() <= AES_MAX_PLAINTEXT),
        sealed is Some == aes256_gcm_seal(key@, nonce@, message@) is Some,
        sealed is Some ==> {
            &&& sealed->0@ == aes256_gcm_seal(key@, nonce@, message@)->0
            &&& sealed->0@.len() == message@.len() + AES_TAG_LENGTH
            &&& aes256_gcm_open(key@, nonce@, sealed->0@) == Some(message@)
        },
{
    let cipher = aes_gcm::Aes256Gcm::new_from_slice(key).unwrap();
    let nonce = <&aes_gcm::aead::Nonce<aes_gcm::Aes256Gcm>>::try_from(nonce.as_slice()).unwrap();
    cipher.encrypt(nonce, message).ok()
}

/// `Aead::decrypt` of `Aes256Gcm`, without associated data: the message
/// named `aes256_gcm_open`, or nothing where the cipher reports an error.
#[verifier::external_body]
fn aes_open(key: &Vec<u8>, nonce: &Vec<u8>, sealed: &Vec<u8>) -> (message: Option<Vec<u8>>)
    requires
        key@.len() == AES_KEY_LENGTH,
        nonce@.len() == AES_NONCE_LENGTH,
    ensures
        message is Some == aes256_gcm_open(key@, nonce@, sealed@) is Some,
        message is Some ==> message->0@ == aes256_gcm_open(key@, nonce@, sealed@)->0,
{
    let cipher = aes_gcm::Aes256Gcm::new_from_slice(key).unwrap();
    let nonce = <&aes_gcm::aead::Nonce<aes_gcm::Aes256Gcm>>::try_from(nonce.as_slice()).unwrap();
    cipher.decrypt(nonce, sealed.as_slice()).ok()
}

/// `rand::fill` on a buffer of `len` bytes: some byte string of that
/// length.
#[verifier::external_body]
fn random_bytes(len: usize) -> (bytes: Vec<u8>)
    ensures
        bytes@.len() == len,
{
    let mut bytes = vec![0u8; len];
    rand::fill(&mut bytes[..]);
    bytes
}

/// A key of the cipher that protects records at rest.
pub struct AesKey {
    bytes: Vec<u8>,
}

impl View for AesKey {
    type V = Seq<u8>;

    closed spec fn view(&self) -> Seq<u8> {
        self.bytes@
    }
}

/// A nonce of the cipher that protects records at rest.
pub struct AesNonce {
    bytes: Vec<u8>,
}

impl View for AesNonce {
    type V = Seq<u8>;

    closed spec fn view(&self) -> Seq<u8> {
        self.bytes@
    }
}

impl AesNonce {
    #[verifier::type_invariant]
    spec fn well_formed(self) -> bool {
        self.bytes@.len() == AES_NONCE_LENGTH
    }

    /// Draws a fresh nonce at random.
    pub fn generate() -> (nonce: AesNonce)
        ensures
            nonce@.len() == AES_NONCE_LENGTH,
    {
        AesNonce { bytes: random_bytes(AES_NONCE_LENGTH) }
    }

    /// The nonce with the given bytes, if they have the width of a nonce.
    pub fn from_bytes(bytes: Vec<u8>) -> (nonce: Option<AesNonce>)
        ensures
            nonce is Some == (bytes@.len() == AES_NONCE_LENGTH),
            nonce is Some ==> nonce->0@ == bytes@,
    {
        if bytes.len() == AES_NONCE_LENGTH {
            Some(AesNonce { bytes })
        } else {
            None
        }
    }

    /// The nonce that a base64 text stands for, if it stands for one.
    pub fn from_base64(text: &str) -> (nonce: Option<AesNonce>)
        ensures
            nonce is Some == (base64_bytes(text@) is Some && base64_bytes(text@)->0.len()
                == AES_NONCE_LENGTH),
            nonce is Some ==> nonce->0@ == base64_bytes(text@)->0,
    {
        match base64_decode(text) {
            Some(bytes) => AesNonce::from_bytes(bytes),
            None => None,
        }
    }

    /// The bytes of the nonce.
    pub fn as_bytes(&self) -> (bytes: &Vec<u8>)
        ensures
            bytes@ == self@,
            bytes@.len() == AES_NONCE_LENGTH,
    {
        proof {
            use_type_invariant(self);
        }
        &self.bytes
    }

    /// The base64 text of the nonce, as it is stored.
    pub fn to_base64(&self) -> (text: String)
        ensures
            text@ == base64_text(self@),
            base64_bytes(text@) == Some(self@),
    {
        proof {
            use_type_invariant(self);
        }
        base64_encode(&self.bytes)
    }

    /// A second copy of the nonce.
    pub fn duplicate(&self) -> (nonce: AesNonce)
        ensures
            nonce@ == self@,
    {
        proof {
            use_type_invariant(self);
        }
        AesNonce { bytes: self.bytes.clone() }
    }
}

/// The text that a stored ciphertext holds under a key and a nonce: the
/// base64 text has to decode, the ciphertext has to be authentic, and what
/// it holds has to be UTF-8. Anything else is a failed decryption.
pub open spec fn opened_text(key: Seq<u8>, data: Seq<char>, nonce: Seq<u8>) -> Result<
    Seq<char>,
    Error,
> {
    match base64_bytes(data) {
        None => Err(Error::DecryptionFailed),
        Some(sealed) => match aes256_gcm_open(key, nonce, sealed) {
            None => Err(Error::DecryptionFailed),
            Some(message) => if valid_utf8(message) {
                Ok(decode_utf8(message))
            } else {
                Err(Error::DecryptionFailed)
            },
        },
    }
}

/// Whether a text can be sealed and stored: the cipher takes its length, and
/// the ciphertext can be written as base64.
pub open spec fn sealable(text: Seq<char>) -> bool {
    let len: nat = encode_utf8(text).len();
    len <= AES_MAX_PLAINTEXT && base64_encodable(len + AES_TAG_LENGTH as nat)
}

impl AesKey {
    #[verifier::type_invariant]
    spec fn well_formed(self) -> bool {
        self.bytes@.len() == AES_KEY_LENGTH
    }

    /// The key with the given bytes, if they have the width of a key.
    pub fn from_bytes(bytes: Vec<u8>) -> (key: Option<AesKey>)
        ensures
            key is Some == (bytes@.len() == AES_KEY_LENGTH),
            key is Some ==> key->0@ == bytes@,
    {
        if bytes.len() == AES_KEY_LENGTH {
            Some(AesKey { bytes })
        } else {
            None
        }
    }

    /// The bytes of the key.
    pub fn as_bytes(&self) -> (bytes: &Vec<u8>)
        ensures
            bytes@ == self@,
            bytes@.len() == AES_KEY_LENGTH,
    {
        proof {
            use_type_invariant(self);
        }
        &self.bytes
    }

    /// A second copy of the key.
    pub fn duplicate(&self) -> (key: AesKey)
        ensures
            key@ == self@,
    {
        proof {
            use_type_invariant(self);
        }
        AesKey { bytes: self.bytes.clone() }
    }

    /// The key that a base64 text stands for, if it stands for one.
    pub fn from_base64(text: &str) -> (key: Option<AesKey>)
        ensures
            key is Some == (base64_bytes(text@) is Some && base64_bytes(text@)->0.len()
                == AES_KEY_LENGTH),
            key is Some ==> key->0@ == base64_bytes(text@)->0,
    {
        match base64_decode(text) {
            Some(bytes) => AesKey::from_bytes(bytes),
            None => None,
        }
    }

    /// The base64 text of the key, as it is stored where it is configured.
    pub fn to_base64(&self) -> (text: String)
        ensures
            text@ == base64_text(self@),
            base64_bytes(text@) == Some(self@),
    {
        proof {
            use_type_invariant(self);
        }
        base64_encode(&self.bytes)
    }

    /// Seals a text under this key and a given nonce, and returns the
    /// ciphertext as base64 text together with that nonce. What is returned
    /// opens under this key to the text.
    pub fn base64_encrypt_with(&self, nonce: AesNonce, data: &str) -> (sealed: Result<
        (String, AesNonce),
        Error,
    >)
        ensures
            sealed is Ok == sealable(data@),
            sealed is Err ==> sealed->Err_0 == Error::EncryptionFailed,
            sealed is Ok ==> {
                let (text, used) = sealed->Ok_0;
                &&& used@ == nonce@
                &&& used@.len() == AES_NONCE_LENGTH
                &&& Some(text@) == match aes256_gcm_seal(self@, nonce@, encode_utf8(data@)) {
                    Some(bytes) => Some(base64_text(bytes)),
                    None => None,
                }
                &&& opened_text(self@, text@, used@) == Ok::<Seq<char>, Error>(data@)
            },
    {
        proof {
            use_type_invariant(self);
            encode_utf8_valid_utf8(data@);
            encode_utf8_decode_utf8(data@);
        }
        let message = data.as_bytes();
        match aes_seal(&self.bytes, nonce.as_bytes(), message) {
            Some(bytes) => {
                if can_encode(bytes.len()) {
                    let text = base64_encode(&bytes);
                    Ok((text, nonce))
                } else {
                    Err(Error::EncryptionFailed)
                }
            },
            None => Err(Error::EncryptionFailed),
        }
    }

    /// Seals a text under this key and a fresh random nonce, and returns the
    /// ciphertext as base64 text together with the nonce. What is returned
    /// opens under this key to the text.
    pub fn base64_encrypt(&self, data: &str) -> (sealed: Result<(String, AesNonce), Error>)
        ensures
            sealed is Ok == sealable(data@),
            sealed is Err ==> sealed->Err_0 == Error::EncryptionFailed,
            sealed is Ok ==> {
                let (text, nonce) = sealed->Ok_0;
                &&& nonce@.len() == AES_NONCE_LENGTH
                &&& Some(text@) == match aes256_gcm_seal(self@, nonce@, encode_utf8(data@)) {
                    Some(bytes) => Some(base64_text(bytes)),
                    None => None,
                }
                &&& opened_text(self@, text@, nonce@) == Ok::<Seq<char>, Error>(data@)
            },
    {
        self.base64_encrypt_with(AesNonce::generate(), data)
    }

    /// Opens a stored ciphertext, given as base64 text, under this key and
    /// the nonce stored with it.
    pub fn base64_decrypt(&self, data: &str, nonce: &AesNonce) -> (opened: Result<String, Error>)
        ensures
            opened is Ok == opened_text(self@, data@, nonce@) is Ok,
            opened is Ok ==> opened->Ok_0@ == opened_text(self@, data@, nonce@)->Ok_0,
            opened is Err ==> opened->Err_0 == Error::DecryptionFailed,
    {
        proof {
            use_type_invariant(self);
        }
        let sealed = match base64_decode(data) {
            Some(sealed) => sealed,
            None => {
                return Err(Error::DecryptionFailed);
            },
        };
        let message = match aes_open(&self.bytes, nonce.as_bytes(), &sealed) {
            Some(message) => message,
            None => {
                return Err(Error::DecryptionFailed);
            },
        };
        match text_from_utf8(message) {
            Some(text) => Ok(text),
            None => Err(Error::DecryptionFailed),
        }
    }
}

/// Number of characters of a challenge that is made up at random.
pub const YUBIKEY_CHALLENGE_LENGTH: usize = 64;

/// Width in bytes of the digest with which a token answers a challenge.
pub const YUBIKEY_RESPONSE_LENGTH: usize = 20;

/// Whether a character is an ASCII letter or digit.
pub open spec fn is_alphanumeric(c: char) -> bool {
    is_digit(c) || ('a' <= c <= 'z') || ('A' <= c <= 'Z')
}

/// `SampleString::sample_string` of rand's `Alphanumeric` distribution, on
/// the thread's random generator: some text of `len` ASCII letters and
/// digits.
#[verifier::external_body]
fn random_alphanumeric(len: usize) -> (text: String)
    ensures
        text@.len() == len,
        forall|i: int| 0 <= i < text@.len() ==> is_alphanumeric(#[trigger] text@[i]),
{
    rand::distr::Alphanumeric.sample_string(&mut rand::rng(), len)
}

/// The key that a token's digest gives: the digest, filled up with zeros to
/// the width of a key.
pub open spec fn derived_key(response: Seq<u8>) -> Seq<u8> {
    response + zeros((AES_KEY_LENGTH - YUBIKEY_RESPONSE_LENGTH) as nat)
}

/// The slot of a token that answers challenges.
#[derive(Debug, Clone, Copy, PartialEq, Eq, Structural)]
pub enum Slot {
    Slot1,
    Slot2,
}

/// The slot that a stored slot number stands for: the first for 1, the
/// second for anything else.
pub open spec fn slot_of(number: u8) -> Slot {
    if number == 1 {
        Slot::Slot1
    } else {
        Slot::Slot2
    }
}

/// Where the key that protects records at rest comes from.
pub enum Encryption {
    /// The key itself is configured.
    DirectKey { key: AesKey },
    /// The key is what a hardware token answers to a fixed challenge. The
    /// answer is kept for the rest of the run once it is known, and is never
    /// stored.
    ChallengeResponse {
        serial: Option<u32>,
        slot: u8,
        challenge: String,
        response: Option<AesKey>,
    },
}

/// What an [`Encryption`] profile holds.
pub ghost enum EncryptionView {
    DirectKey { key: Seq<u8> },
    ChallengeResponse {
        serial: Option<u32>,
        slot: u8,
        challenge: Seq<char>,
        response: Option<Seq<u8>>,
    },
}

impl View for Encryption {
    type V = EncryptionView;

    open spec fn view(&self) -> EncryptionView {
        match self {
            Encryption::DirectKey { key } => EncryptionView::DirectKey { key: key@ },
            Encryption::ChallengeResponse {
                serial,
                slot,
                challenge,
                response,
            } => EncryptionView::ChallengeResponse {
                serial: *serial,
                slot: *slot,
                challenge: challenge@,
                response: match response {
                    Some(key) => Some(key@),
                    None => None,
                },
            },
        }
    }
}

impl EncryptionView {
    /// The key that the profile has at hand, if it has one.
    pub open spec fn key(self) -> Option<Seq<u8>> {
        match self {
            EncryptionView::DirectKey { key } => Some(key),
            EncryptionView::ChallengeResponse { response, .. } => response,
        }
    }

    /// The profile once the token's digest has come in. A profile that has
    /// its key keeps it; one that waits for the digest takes the key derived
    /// from it, if the digest has the right width.
    pub open spec fn with_response(self, digest: Seq<u8>) -> EncryptionView {
        match self {
            EncryptionView::ChallengeResponse { serial, slot, challenge, response: None } => {
                if digest.len() == YUBIKEY_RESPONSE_LENGTH {
                    EncryptionView::ChallengeResponse {
                        serial,
                        slot,
                        challenge,
                        response: Some(derived_key(digest)),
                    }
                } else {
                    self
                }
            },
            _ => self,
        }
    }
}

/// What has to be asked of a hardware token to get the key of a profile.
pub struct TokenQuery {
    pub serial: Option<u32>,
    pub slot: Slot,
    pub challenge: String,
}

/// The answer to the question for the key of a profile: either the key, or
/// what to ask the token first.
pub enum KeySource {
    Ready(AesKey),
    Token(TokenQuery),
}

/// Why a text does not describe an encryption profile.
#[derive(Debug, Clone, Copy, PartialEq, Eq, Structural)]
pub enum ProfileError {
    /// The text names no known kind of profile.
    UnknownProfile,
    /// The slot is not written as a number below 256.
    SlotNotANumber,
    /// The slot is a number other than 1 and 2.
    SlotOutOfRange,
}

/// What a profile text asks for: the slot, and the challenge if the text
/// gives one. The text is `challenge-response`, then optionally a colon and
/// the slot, then optionally a colon and the challenge; the slot is 2 where
/// the text gives none. What follows a third colon is not looked at.
pub open spec fn parsed_profile(profile: Seq<char>) -> Result<(u8, Option<Seq<char>>), ProfileError> {
    let parts = split(profile, ':');
    if parts[0] != "challenge-response"@ {
        Err(ProfileError::UnknownProfile)
    } else {
        let slot = if parts.len() > 1 {
            parsed_u8(parts[1])
        } else {
            Some(2u8)
        };
        match slot {
            None => Err(ProfileError::SlotNotANumber),
            Some(number) => if number != 1 && number != 2 {
                Err(ProfileError::SlotOutOfRange)
            } else {
                Ok(
                    (
                        number,
                        if parts.len() > 2 {
                            Some(parts[2])
                        } else {
                            None
                        },
                    ),
                )
            },
        }
    }
}

/// Whether a profile is the new one for a token with the given serial
/// number, slot and challenge: it does not have its key yet, and where no
/// challenge is given it has one of the full length, made of ASCII letters
/// and digits.
pub open spec fn is_new_profile(
    profile: EncryptionView,
    serial: Option<u32>,
    number: u8,
    given: Option<Seq<char>>,
) -> bool {
    &&& profile matches EncryptionView::ChallengeResponse { serial: s, slot, challenge, response }
    &&& s == serial
    &&& slot == number
    &&& response is None
    &&& match given {
        Some(text) => challenge == text,
        None => challenge.len() == YUBIKEY_CHALLENGE_LENGTH && forall|i: int|
            0 <= i < challenge.len() ==> is_alphanumeric(#[trigger] challenge[i]),
    }
}

/// Whether a query asks the token what a profile needs: the profile's
/// challenge, on the slot that its slot number stands for.
pub open spec fn asks_for(query: TokenQuery, profile: EncryptionView) -> bool {
    &&& profile matches EncryptionView::ChallengeResponse { serial, slot, challenge, .. }
    &&& query.serial == serial
    &&& query.slot == slot_of(slot)
    &&& query.challenge@ == challenge
}

impl Encryption {
    /// Whether a profile text asks for a hardware token, so that one has to
    /// be looked for before the profile can be made.
    pub fn names_token(profile: &str) -> (r: bool)
        ensures
            r == (split(profile@, ':')[0] == "challenge-response"@),
    {
        let parts = split_text(profile, ':');
        proof {
            lemma_split_nonempty(profile@, ':');
            assert(views(parts@)[0] == parts@[0]@);
        }
        text_is(&parts[0], "challenge-response")
    }

    /// Makes the profile that a text describes, for the token with the given
    /// serial number. Where the text gives no challenge, one is made up at
    /// random. The new profile does not have its key yet.
    pub fn from_str(profile: &str, serial: Option<u32>) -> (made: Result<Encryption, ProfileError>)
        ensures
            match parsed_profile(profile@) {
                Err(e) => made == Err::<Encryption, ProfileError>(e),
                Ok((number, given)) => made is Ok && is_new_profile(
                    made->Ok_0@,
                    serial,
                    number,
                    given,
                ),
            },
    {
        let parts = split_text(profile, ':');
        proof {
            lemma_split_nonempty(profile@, ':');
            assert(views(parts@)[0] == parts@[0]@);
        }
        if !text_is(&parts[0], "challenge-response") {
            return Err(ProfileError::UnknownProfile);
        }
        let slot: u8 = if parts.len() > 1 {
            assert(views(parts@)[1] == parts@[1]@);
            match parse_u8(parts[1].as_str()) {
                Some(number) => number,
                None => {
                    return Err(ProfileError::SlotNotANumber);
                },
            }
        } else {
            2
        };
        if !(slot == 1 || slot == 2) {
            return Err(ProfileError::SlotOutOfRange);
        }
        let challenge = if parts.len() > 2 {
            assert(views(parts@)[2] == parts@[2]@);
            parts[2].clone()
        } else {
            random_alphanumeric(YUBIKEY_CHALLENGE_LENGTH)
        };
        Ok(Encryption::ChallengeResponse { serial, slot, challenge, response: None })
    }

    /// Says where the key of this profile is to be had: the profile has it
    /// at hand, or a token has to be asked with the profile's challenge.
    pub fn key_source(&self) -> (source: KeySource)
        ensures
            match self@.key() {
                Some(key) => source matches KeySource::Ready(k) && k@ == key,
                None => source matches KeySource::Token(query) && asks_for(query, self@),
            },
    {
        match self {
            Encryption::DirectKey { key } => KeySource::Ready(key.duplicate()),
            Encryption::ChallengeResponse { serial, slot, challenge, response } => match response {
                Some(key) => KeySource::Ready(key.duplicate()),
                None => KeySource::Token(
                    TokenQuery {
                        serial: *serial,
                        slot: if *slot == 1 {
                            Slot::Slot1
                        } else {
                            Slot::Slot2
                        },
                        challenge: challenge.clone(),
                    },
                ),
            },
        }
    }

    /// Takes in the digest with which the token answered the challenge. A
    /// profile that waits for it derives its key and keeps it; a digest of
    /// the wrong width is refused. A profile that has its key already keeps
    /// that key: it is not derived a second time.
    pub fn cache_response(&mut self, digest: &Vec<u8>) -> (outcome: Result<(), Error>)
        ensures
            final(self)@ == old(self)@.with_response(digest@),
            outcome is Err <==> old(self)@.key() is None && digest@.len()
                != YUBIKEY_RESPONSE_LENGTH,
            outcome is Err ==> outcome->Err_0 == Error::EncryptionKeyUnavailable,
    {
        match self {
            Encryption::DirectKey { .. } => Ok(()),
            Encryption::ChallengeResponse { response, .. } => {
                if response.is_some() {
                    Ok(())
                } else if digest.len() != YUBIKEY_RESPONSE_LENGTH {
                    Err(Error::EncryptionKeyUnavailable)
                } else {
                    let mut bytes = digest.clone();
                    let mut padding = zero_bytes(AES_KEY_LENGTH - YUBIKEY_RESPONSE_LENGTH);
                    bytes.append(&mut padding);
                    *response = AesKey::from_bytes(bytes);
                    Ok(())
                }
            },
        }
    }
}

} // verus!
