//! Nonces of the session cipher: drawn at random for every message sent, and
//! bound to the reply by their successor.

use crate::encoding::{base64_bytes, base64_decode, base64_encode, base64_text, same_bytes};
use crypto_box::aead::AeadCore;
use vstd::prelude::*;

verus! {

/// Width in bytes of a nonce of the session cipher.
pub const NONCE_LENGTH: usize = 24;

/// The number that a byte string stands for, least significant byte first.
pub open spec fn le_value(bytes: Seq<u8>) -> nat
    decreases bytes.len(),
{
    if bytes.len() == 0 {
        0
    } else {
        bytes[0] as nat + 256 * le_value(bytes.drop_first())
    }
}

/// The number of byte strings of a given length: 256 to the power of `len`.
pub open spec fn le_modulus(len: nat) -> nat
    decreases len,
{
    if len == 0 {
        1
    } else {
        256 * le_modulus((len - 1) as nat)
    }
}

/// The byte string of the same length that stands for the next number, with
/// the largest number followed by zero.
pub open spec fn successor(bytes: Seq<u8>) -> Seq<u8>
    decreases bytes.len(),
{
    if bytes.len() == 0 {
        bytes
    } else if bytes[0] < 255 {
        bytes.update(0, (bytes[0] + 1) as u8)
    } else {
        seq![0u8] + successor(bytes.drop_first())
    }
}

/// A byte string stands for a number below the modulus of its length.
pub proof fn lemma_le_value_bound(bytes: Seq<u8>)
    ensures
        le_value(bytes) < le_modulus(bytes.len()),
    decreases bytes.len(),
{
    if bytes.len() > 0 {
        lemma_le_value_bound(bytes.drop_first());
    }
}

/// The successor keeps the length.
pub proof fn lemma_successor_len(bytes: Seq<u8>)
    ensures
        successor(bytes).len() == bytes.len(),
    decreases bytes.len(),
{
    if bytes.len() > 0 && bytes[0] == 255 {
        lemma_successor_len(bytes.drop_first());
    }
}

/// The successor of a byte string stands for the number one above, taken
/// modulo the number of byte strings of that length.
pub proof fn lemma_successor_value(bytes: Seq<u8>)
    ensures
        le_value(successor(bytes)) == (le_value(bytes) + 1) % le_modulus(bytes.len()),
    decreases bytes.len(),
{
    lemma_le_value_bound(bytes);
    let total = le_modulus(bytes.len()) as int;
    let value = le_value(bytes) as int;
    if bytes.len() == 0 {
        assert(1int % 1int == 0);
    } else if bytes[0] < 255 {
        let next = bytes.update(0, (bytes[0] + 1) as u8);
        assert(next.drop_first() =~= bytes.drop_first());
        assert(le_value(next) == value + 1);
        lemma_le_value_bound(next);
        assert((value + 1) % total == value + 1) by (nonlinear_arith)
            requires
                0 <= value + 1 < total,
        ;
    } else {
        let rest = bytes.drop_first();
        let next = seq![0u8] + successor(rest);
        lemma_successor_value(rest);
        lemma_successor_len(rest);
        lemma_le_value_bound(rest);
        assert(next.drop_first() =~= successor(rest));
        let m = le_modulus(rest.len()) as int;
        let v = le_value(rest) as int;
        assert(le_value(next) == 256 * ((v + 1) % m));
        assert(value == 255 + 256 * v);
        assert(total == 256 * m);
        if v + 1 < m {
            assert((v + 1) % m == v + 1) by (nonlinear_arith)
                requires
                    0 <= v + 1 < m,
            ;
            assert((256 * (v + 1)) % (256 * m) == 256 * (v + 1)) by (nonlinear_arith)
                requires
                    0 <= v + 1 < m,
            ;
        } else {
            assert(v + 1 == m);
            assert(m % m == 0) by (nonlinear_arith)
                requires
                    m > 0,
            ;
            assert((256 * m) % (256 * m) == 0) by (nonlinear_arith)
                requires
                    m > 0,
            ;
        }
        assert(value + 1 == 256 * (v + 1));
    }
}

/// The successor of a byte string that is not empty differs from it, in its
/// first byte already: what is sent back under the nonce of the request is
/// never taken for the reply.
pub proof fn lemma_successor_differs(bytes: Seq<u8>)
    requires
        bytes.len() > 0,
    ensures
        successor(bytes) != bytes,
        successor(bytes)[0] != bytes[0],
{
    if bytes[0] == 255 {
        assert((seq![0u8] + successor(bytes.drop_first()))[0] == 0u8);
    }
}

/// Two byte strings of one length that stand for the same number are equal.
pub proof fn lemma_le_value_injective(a: Seq<u8>, b: Seq<u8>)
    requires
        a.len() == b.len(),
        le_value(a) == le_value(b),
    ensures
        a == b,
    decreases a.len(),
{
    if a.len() > 0 {
        let x = le_value(a.drop_first()) as int;
        let y = le_value(b.drop_first()) as int;
        assert(a[0] as int + 256 * x == b[0] as int + 256 * y);
        assert(x == y && a[0] == b[0]) by (nonlinear_arith)
            requires
                a[0] as int + 256 * x == b[0] as int + 256 * y,
                0 <= a[0] < 256,
                0 <= b[0] < 256,
        ;
        lemma_le_value_injective(a.drop_first(), b.drop_first());
        assert(a =~= seq![a[0]] + a.drop_first());
        assert(b =~= seq![b[0]] + b.drop_first());
    }
    assert(a =~= b);
}

/// `AeadCore::generate_nonce` for the session cipher, on the operating
/// system's random source: some byte string of the width of a nonce.
#[verifier::external_body]
fn random_nonce_bytes() -> (bytes: Vec<u8>)
    ensures
        bytes@.len() == NONCE_LENGTH,
{
    crypto_box::SalsaBox::generate_nonce(&mut crypto_box::aead::OsRng).to_vec()
}

/// A nonce of the session cipher.
pub struct Nonce {
    bytes: Vec<u8>,
}

impl View for Nonce {
    type V = Seq<u8>;

    closed spec fn view(&self) -> Seq<u8> {
        self.bytes@
    }
}

impl Nonce {
    #[verifier::type_invariant]
    spec fn well_formed(self) -> bool {
        self.bytes@.len() == NONCE_LENGTH
    }

    /// Draws a fresh nonce at random.
    pub fn generate() -> (nonce: Nonce)
        ensures
            nonce@.len() == NONCE_LENGTH,
    {
        Nonce { bytes: random_nonce_bytes() }
    }

    /// The nonce with the given bytes, if they have the width of a nonce.
    pub fn from_bytes(bytes: Vec<u8>) -> (nonce: Option<Nonce>)
        ensures
            nonce is Some == (bytes@.len() == NONCE_LENGTH),
            nonce is Some ==> nonce->0@ == bytes@,
    {
        if bytes.len() == NONCE_LENGTH {
            Some(Nonce { bytes })
        } else {
            None
        }
    }

    /// The nonce that a base64 text stands for, if it stands for one.
    pub fn from_base64(text: &str) -> (nonce: Option<Nonce>)
        ensures
            nonce is Some == (base64_bytes(text@) is Some && base64_bytes(text@)->0.len()
                == NONCE_LENGTH),
            nonce is Some ==> nonce->0@ == base64_bytes(text@)->0,
    {
        match base64_decode(text) {
            Some(bytes) => Nonce::from_bytes(bytes),
            None => None,
        }
    }

    /// The bytes of the nonce.
    pub fn as_bytes(&self) -> (bytes: &Vec<u8>)
        ensures
            bytes@ == self@,
            bytes@.len() == NONCE_LENGTH,
    {
        proof {
            use_type_invariant(self);
        }
        &self.bytes
    }

    /// The base64 text of the nonce, as it travels in an envelope.
    pub fn to_base64(&self) -> (text: String)
        ensures
            text@ == base64_text(self@),
            base64_bytes(text@) == Some(self@),
    {
        proof {
            use_type_invariant(self);
        }
        base64_encode(&self.bytes)
    }

    /// The nonce that the reply to a message sent under this nonce has to
    /// carry: the next one, counting with the least significant byte first.
    pub fn successor(&self) -> (next: Nonce)
        ensures
            next@ == successor(self@),
            next@.len() == NONCE_LENGTH,
    {
        proof {
            use_type_invariant(self);
            lemma_successor_len(self.bytes@);
        }
        let mut out: Vec<u8> = self.bytes.clone();
        let mut i: usize = 0;
        proof {
            assert(self.bytes@.skip(0) =~= self.bytes@);
            assert(out@.take(0) + successor(self.bytes@) =~= successor(self.bytes@));
        }
        while i < NONCE_LENGTH
            invariant
                i <= NONCE_LENGTH,
                self.bytes@.len() == NONCE_LENGTH,
                out@.len() == NONCE_LENGTH,
                forall|j: int| 0 <= j < i ==> out@[j] == 0u8,
                forall|j: int| i <= j < NONCE_LENGTH ==> out@[j] == self.bytes@[j],
                successor(self.bytes@) == out@.take(i as int) + successor(self.bytes@.skip(i as int)),
            decreases NONCE_LENGTH - i,
        {
            let ghost rest = self.bytes@.skip(i as int);
            let ghost before = out@;
            let byte: u8 = out[i];
            assert(rest[0] == byte);
            if byte < 255 {
                out.set(i, byte + 1);
                proof {
                    assert(successor(rest) == rest.update(0, (byte + 1) as u8));
                    assert(out@ =~= before.take(i as int) + rest.update(0, (byte + 1) as u8));
                }
                return Nonce { bytes: out };
            }
            out.set(i, 0);
            proof {
                assert(rest.drop_first() =~= self.bytes@.skip(i + 1));
                assert(out@.take(i + 1) =~= before.take(i as int) + seq![0u8]);
                assert(before.take(i as int) + (seq![0u8] + successor(rest.drop_first()))
                    =~= out@.take(i + 1) + successor(self.bytes@.skip(i + 1)));
            }
            i = i + 1;
        }
        proof {
            assert(self.bytes@.skip(NONCE_LENGTH as int) =~= Seq::<u8>::empty());
            assert(out@.take(NONCE_LENGTH as int) =~= out@);
            assert(out@ + Seq::<u8>::empty() =~= out@);
        }
        Nonce { bytes: out }
    }

    /// Whether two nonces are the same.
    pub fn same_as(&self, other: &Nonce) -> (r: bool)
        ensures
            r == (self@ == other@),
    {
        same_bytes(&self.bytes, &other.bytes)
    }
}

} // verus!
