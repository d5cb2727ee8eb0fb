//! Text encodings of byte strings: base64 for what travels or is stored as
//! text, UTF-8 for what is read back as text.

use base64::Engine;
use vstd::prelude::*;
use vstd::utf8::*;

verus! {

/// The standard, padded base64 text of a byte string.
pub uninterp spec fn base64_text(bytes: Seq<u8>) -> Seq<char>;

/// The byte string that a standard, padded base64 text stands for, if it is
/// one.
pub uninterp spec fn base64_bytes(text: Seq<char>) -> Option<Seq<u8>>;

/// Whether a byte string of this length can be encoded: the length of its
/// text has to fit the machine word.
pub open spec fn base64_encodable(len: nat) -> bool {
    len / 3 < usize::MAX / 4
}

/// Tells whether a byte string of this length can be encoded.
pub fn can_encode(len: usize) -> (r: bool)
    ensures
        r == base64_encodable(len as nat),
{
    len / 3 < usize::MAX / 4
}

/// Tells whether two byte strings are the same.
pub fn same_bytes(a: &Vec<u8>, b: &Vec<u8>) -> (r: bool)
    ensures
        r == (a@ == b@),
{
    let r = a == b;
    proof {
        if r {
            assert(a@ =~= b@);
        }
    }
    r
}

/// `Engine::encode` of base64's `STANDARD` engine. The text it returns is
/// named `base64_text`, and decoding that text gives the bytes back. The
/// call panics where the length of the text overflows, so such inputs are
/// left out.
#[verifier::external_body]
pub(crate) fn base64_encode(bytes: &Vec<u8>) -> (text: String)
    requires
        base64_encodable(bytes@.len()),
    ensures
        text@ == base64_text(bytes@),
        base64_bytes(text@) == Some(bytes@),
{
    base64::engine::general_purpose::STANDARD.encode(bytes)
}

/// `Engine::decode` of base64's `STANDARD` engine: the bytes named
/// `base64_bytes`, or nothing where the engine reports an error.
#[verifier::external_body]
pub(crate) fn base64_decode(text: &str) -> (bytes: Option<Vec<u8>>)
    ensures
        bytes is Some == base64_bytes(text@) is Some,
        bytes is Some ==> bytes->0@ == base64_bytes(text@)->0,
{
    base64::engine::general_purpose::STANDARD.decode(text).ok()
}

/// `String::from_utf8`: the text that the bytes encode, if they are valid
/// UTF-8, and nothing otherwise.
#[verifier::external_body]
pub(crate) fn text_from_utf8(bytes: Vec<u8>) -> (text: Option<String>)
    ensures
        text is Some == valid_utf8(bytes@),
        text is Some ==> text->0@ == decode_utf8(bytes@),
{
    String::from_utf8(bytes).ok()
}

} // verus!
