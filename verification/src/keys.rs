//! Secret material: the keys of the session cipher. Pure data; what is
//! secret can be erased in place once it is no longer needed.

use crate::encoding::{
    base64_bytes, base64_decode, base64_encode, base64_text, same_bytes,
};
use vstd::prelude::*;

verus! {

/// Width in bytes of a public or a secret key of the session cipher.
pub const KEY_LENGTH: usize = 32;

/// The public key that belongs to a secret key.
pub uninterp spec fn x25519_public_key(secret: Seq<u8>) -> Seq<u8>;

/// A byte string of `len` zeros.
pub open spec fn zeros(len: nat) -> Seq<u8> {
    Seq::new(len, |i: int| 0u8)
}

/// A byte string of `len` zeros.
pub fn zero_bytes(len: usize) -> (bytes: Vec<u8>)
    ensures
        bytes@ == zeros(len as nat),
{
    let mut bytes: Vec<u8> = Vec::new();
    let mut i: usize = 0;
    while i < len
        invariant
            i <= len,
            bytes@ == zeros(i as nat),
        decreases len - i,
    {
        bytes.push(0u8);
        i = i + 1;
        assert(bytes@ =~= zeros(i as nat));
    }
    bytes
}

/// `SecretKey::generate` of crypto_box, on the operating system's random
/// source: some byte string of the width of a key.
#[verifier::external_body]
fn random_secret_key_bytes() -> (bytes: Vec<u8>)
    ensures
        bytes@.len() == KEY_LENGTH,
{
    crypto_box::SecretKey::generate(&mut crypto_box::aead::OsRng).to_bytes().to_vec()
}

/// `SecretKey::public_key` of crypto_box, on the secret key with the given
/// bytes: the bytes of its public key, a function of the secret bytes alone
/// and as wide as they are.
#[verifier::external_body]
fn public_key_bytes(secret: &Vec<u8>) -> (public: Vec<u8>)
    requires
        secret@.len() == KEY_LENGTH,
    ensures
        public@ == x25519_public_key(secret@),
        public@.len() == KEY_LENGTH,
{
    crypto_box::SecretKey::from_slice(secret).unwrap().public_key().to_bytes().to_vec()
}

/// A secret key of the session cipher.
pub struct SecretKey {
    bytes: Vec<u8>,
}

impl View for SecretKey {
    type V = Seq<u8>;

    closed spec fn view(&self) -> Seq<u8> {
        self.bytes@
    }
}

impl SecretKey {
    #[verifier::type_invariant]
    spec fn well_formed(self) -> bool {
        self.bytes@.len() == KEY_LENGTH
    }

    /// Draws a fresh secret key at random.
    pub fn generate() -> (key: SecretKey)
        ensures
            key@.len() == KEY_LENGTH,
    {
        SecretKey { bytes: random_secret_key_bytes() }
    }

    /// The secret key with the given bytes, if they have the width of a key.
    pub fn from_bytes(bytes: Vec<u8>) -> (key: Option<SecretKey>)
        ensures
            key is Some == (bytes@.len() == KEY_LENGTH),
            key is Some ==> key->0@ == bytes@,
    {
        if bytes.len() == KEY_LENGTH {
            Some(SecretKey { bytes })
        } else {
            None
        }
    }

    /// The secret key that a base64 text stands for, if it stands for one.
    pub fn from_base64(text: &str) -> (key: Option<SecretKey>)
        ensures
            key is Some == (base64_bytes(text@) is Some && base64_bytes(text@)->0.len()
                == KEY_LENGTH),
            key is Some ==> key->0@ == base64_bytes(text@)->0,
    {
        match base64_decode(text) {
            Some(bytes) => SecretKey::from_bytes(bytes),
            None => None,
        }
    }

    /// The bytes of the key.
    pub fn as_bytes(&self) -> (bytes: &Vec<u8>)
        ensures
            bytes@ == self@,
            bytes@.len() == KEY_LENGTH,
    {
        proof {
            use_type_invariant(self);
        }
        &self.bytes
    }

    /// The base64 text of the key, as it is stored.
    pub fn to_base64(&self) -> (text: String)
        ensures
            text@ == base64_text(self@),
            base64_bytes(text@) == Some(self@),
    {
        proof {
            use_type_invariant(self);
        }
        base64_encode(&self.bytes)
    }

    /// The public key that belongs to this secret key.
    pub fn public_key(&self) -> (public: PublicKey)
        ensures
            public@ == x25519_public_key(self@),
            public@.len() == KEY_LENGTH,
    {
        proof {
            use_type_invariant(self);
        }
        PublicKey { bytes: public_key_bytes(&self.bytes) }
    }

    /// A second copy of the key.
    pub fn duplicate(&self) -> (key: SecretKey)
        ensures
            key@ == self@,
    {
        proof {
            use_type_invariant(self);
        }
        SecretKey { bytes: self.bytes.clone() }
    }

    /// Overwrites the key with zeros. The bytes that held the key are
    /// overwritten where they lie before they are let go.
    pub fn erase(&mut self)
        ensures
            final(self)@ == zeros(KEY_LENGTH as nat),
    {
        let mut bytes = zero_bytes(KEY_LENGTH);
        std::mem::swap(&mut self.bytes, &mut bytes);
        let mut i: usize = 0;
        while i < bytes.len()
            invariant
                i <= bytes.len(),
                forall|j: int| 0 <= j < i ==> bytes@[j] == 0u8,
            decreases bytes.len() - i,
        {
            bytes.set(i, 0u8);
            i = i + 1;
        }
    }
}

/// A public key of the session cipher.
pub struct PublicKey {
    bytes: Vec<u8>,
}

impl View for PublicKey {
    type V = Seq<u8>;

    closed spec fn view(&self) -> Seq<u8> {
        self.bytes@
    }
}

impl PublicKey {
    #[verifier::type_invariant]
    spec fn well_formed(self) -> bool {
        self.bytes@.len() == KEY_LENGTH
    }

    /// The public key with the given bytes, if they have the width of a key.
    pub fn from_bytes(bytes: Vec<u8>) -> (key: Option<PublicKey>)
        ensures
            key is Some == (bytes@.len() == KEY_LENGTH),
            key is Some ==> key->0@ == bytes@,
    {
        if bytes.len() == KEY_LENGTH {
            Some(PublicKey { bytes })
        } else {
            None
        }
    }

    /// The public key that a base64 text stands for, if it stands for one.
    pub fn from_base64(text: &str) -> (key: Option<PublicKey>)
        ensures
            key is Some == (base64_bytes(text@) is Some && base64_bytes(text@)->0.len()
                == KEY_LENGTH),
            key is Some ==> key->0@ == base64_bytes(text@)->0,
    {
        match base64_decode(text) {
            Some(bytes) => PublicKey::from_bytes(bytes),
            None => None,
        }
    }

    /// The bytes of the key.
    pub fn as_bytes(&self) -> (bytes: &Vec<u8>)
        ensures
            bytes@ == self@,
            bytes@.len() == KEY_LENGTH,
    {
        proof {
            use_type_invariant(self);
        }
        &self.bytes
    }

    /// The base64 text of the key, as it travels and is stored.
    pub fn to_base64(&self) -> (text: String)
        ensures
            text@ == base64_text(self@),
            base64_bytes(text@) == Some(self@),
    {
        proof {
            use_type_invariant(self);
        }
        base64_encode(&self.bytes)
    }

    /// A second copy of the key.
    pub fn duplicate(&self) -> (key: PublicKey)
        ensures
            key@ == self@,
    {
        proof {
            use_type_invariant(self);
        }
        PublicKey { bytes: self.bytes.clone() }
    }

    /// Whether two public keys are the same.
    pub fn same_as(&self, other: &PublicKey) -> (r: bool)
        ensures
            r == (self@ == other@),
    {
        same_bytes(&self.bytes, &other.bytes)
    }
}

/// The key pair of one run: made afresh at its start, never stored.
pub struct EphemeralKeyPair {
    secret: SecretKey,
    public: PublicKey,
}

impl EphemeralKeyPair {
    #[verifier::type_invariant]
    spec fn well_formed(self) -> bool {
        self.public@ == x25519_public_key(self.secret@)
    }

    /// The bytes of the secret half.
    pub closed spec fn secret_bytes(self) -> Seq<u8> {
        self.secret@
    }

    /// The bytes of the public half.
    pub closed spec fn public_bytes(self) -> Seq<u8> {
        self.public@
    }

    /// Draws a fresh key pair at random.
    pub fn generate() -> (pair: EphemeralKeyPair)
        ensures
            pair.public_bytes() == x25519_public_key(pair.secret_bytes()),
            pair.secret_bytes().len() == KEY_LENGTH,
            pair.public_bytes().len() == KEY_LENGTH,
    {
        EphemeralKeyPair::from_secret(SecretKey::generate())
    }

    /// The key pair of a given secret key.
    pub fn from_secret(secret: SecretKey) -> (pair: EphemeralKeyPair)
        ensures
            pair.secret_bytes() == secret@,
            pair.public_bytes() == x25519_public_key(secret@),
            pair.secret_bytes().len() == KEY_LENGTH,
            pair.public_bytes().len() == KEY_LENGTH,
    {
        let public = secret.public_key();
        let _ = secret.as_bytes();
        EphemeralKeyPair { secret, public }
    }

    /// The secret half.
    pub fn secret_key(&self) -> (key: &SecretKey)
        ensures
            key@ == self.secret_bytes(),
            key@.len() == KEY_LENGTH,
    {
        let _ = self.secret.as_bytes();
        &self.secret
    }

    /// The public half.
    pub fn public_key(&self) -> (key: &PublicKey)
        ensures
            key@ == self.public_bytes(),
            key@ == x25519_public_key(self.secret_bytes()),
            key@.len() == KEY_LENGTH,
    {
        proof {
            use_type_invariant(self);
        }
        let _ = self.public.as_bytes();
        &self.public
    }

    /// Overwrites the secret half with zeros and sets the public half to
    /// match, so that nothing of the old keys is left.
    pub fn erase(&mut self)
        ensures
            final(self).secret_bytes() == zeros(KEY_LENGTH as nat),
            final(self).public_bytes() == x25519_public_key(zeros(KEY_LENGTH as nat)),
    {
        let blank = SecretKey { bytes: zero_bytes(KEY_LENGTH) };
        let public = blank.public_key();
        let mut old = EphemeralKeyPair { secret: blank, public };
        std::mem::swap(self, &mut old);
        let EphemeralKeyPair { secret: mut spent, public: _ } = old;
        spent.erase();
    }
}

} // verus!
