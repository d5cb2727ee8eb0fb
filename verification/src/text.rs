//! Helpers for the texts that the records and messages are made of.

use vstd::prelude::*;
use vstd::string::*;

verus! {

/// The characters of an optional text.
pub open spec fn text_of(text: Option<String>) -> Option<Seq<char>> {
    match text {
        Some(t) => Some(t@),
        None => None,
    }
}

/// The views of the items of a sequence, in order.
pub open spec fn views<T: View>(items: Seq<T>) -> Seq<T::V> {
    items.map_values(|item: T| item@)
}

/// A copy of an optional text.
pub fn copy_text(text: &Option<String>) -> (copy: Option<String>)
    ensures
        copy == *text,
        text_of(copy) == text_of(*text),
{
    match text {
        Some(t) => Some(t.clone()),
        None => None,
    }
}

/// Whether a text has exactly the given characters.
pub fn text_is(text: &String, chars: &str) -> (r: bool)
    ensures
        r == (text@ == chars@),
{
    let other = String::from_str(chars);
    *text == other
}

/// Where `mark` first stands in `text`, or the length of `text` if it
/// stands nowhere in it.
pub open spec fn first_index(text: Seq<char>, mark: char) -> int
    decreases text.len(),
{
    if text.len() == 0 || text[0] == mark {
        0
    } else {
        1 + first_index(text.drop_first(), mark)
    }
}

/// The pieces of `text` between the occurrences of `mark`, in order. There
/// is one piece more than there are marks; a piece may be empty.
pub open spec fn split(text: Seq<char>, mark: char) -> Seq<Seq<char>>
    decreases text.len(),
{
    let at = first_index(text, mark);
    if 0 <= at < text.len() {
        seq![text.take(at)] + split(text.skip(at + 1), mark)
    } else {
        seq![text]
    }
}

/// A text splits into at least one piece.
pub proof fn lemma_split_nonempty(text: Seq<char>, mark: char)
    ensures
        split(text, mark).len() >= 1,
    decreases text.len(),
{
}

/// `first_index` is the one position up to which no mark stands and at
/// which one does, or the text ends.
pub proof fn lemma_first_index(text: Seq<char>, mark: char, at: int)
    requires
        0 <= at <= text.len(),
        forall|j: int| 0 <= j < at ==> text[j] != mark,
        at == text.len() || text[at] == mark,
    ensures
        first_index(text, mark) == at,
    decreases text.len(),
{
    if at > 0 {
        let rest = text.drop_first();
        assert forall|j: int| 0 <= j < at - 1 implies rest[j] != mark by {
            assert(rest[j] == text[j + 1]);
        }
        lemma_first_index(rest, mark, at - 1);
    }
}

/// Finds where `mark` first stands in `text` at or after `from`; the result
/// is `len`, the length of `text`, if it stands nowhere there.
pub fn find_char(text: &str, mark: char, from: usize, len: usize) -> (at: usize)
    requires
        len == text@.len(),
        from <= len,
    ensures
        from <= at <= len,
        at - from == first_index(text@.skip(from as int), mark),
{
    let mut at: usize = from;
    while at < len && text.get_char(at) != mark
        invariant
            from <= at <= len,
            len == text@.len(),
            forall|j: int| from <= j < at ==> text@[j] != mark,
        decreases len - at,
    {
        at = at + 1;
    }
    proof {
        lemma_first_index(text@.skip(from as int), mark, at - from);
    }
    at
}

/// Splits `text` at every occurrence of `mark`.
pub fn split_text(text: &str, mark: char) -> (pieces: Vec<String>)
    ensures
        views(pieces@) == split(text@, mark),
{
    let len: usize = text.unicode_len();
    let mut pieces: Vec<String> = Vec::new();
    let mut start: usize = 0;
    proof {
        assert(text@.skip(0) =~= text@);
        assert(views(pieces@) =~= Seq::<Seq<char>>::empty());
    }
    loop
        invariant
            len == text@.len(),
            start <= len,
            split(text@, mark) == views(pieces@) + split(text@.skip(start as int), mark),
        decreases len - start,
    {
        let ghost rest = text@.skip(start as int);
        let ghost before = views(pieces@);
        let at: usize = find_char(text, mark, start, len);
        pieces.push(String::from_str(text.substring_char(start, at)));
        proof {
            assert(text@.subrange(start as int, at as int) =~= rest.take(at - start));
            assert(views(pieces@) =~= before.push(rest.take(at - start)));
        }
        if at >= len {
            proof {
                assert(rest.take(at - start) =~= rest);
                assert(before + seq![rest] =~= before.push(rest));
            }
            return pieces;
        }
        proof {
            assert(rest.skip(at - start + 1) =~= text@.skip(at + 1));
            assert(before + (seq![rest.take(at - start)] + split(text@.skip(at + 1), mark))
                =~= before.push(rest.take(at - start)) + split(text@.skip(at + 1), mark));
        }
        start = at + 1;
    }
}

/// Whether a character is one of the ten decimal digits.
pub open spec fn is_digit(c: char) -> bool {
    '0' <= c <= '9'
}

/// The number that a decimal digit stands for.
pub open spec fn digit_value(c: char) -> nat {
    (c as u32 - '0' as u32) as nat
}

/// The number that a string of decimal digits stands for.
pub open spec fn decimal_value(digits: Seq<char>) -> nat
    decreases digits.len(),
{
    if digits.len() == 0 {
        0
    } else {
        10 * decimal_value(digits.drop_last()) + digit_value(digits.last())
    }
}

/// The digits of a number text: the text without its plus sign, if it
/// starts with one.
pub open spec fn unsigned_part(text: Seq<char>) -> Seq<char> {
    if text.len() > 0 && text[0] == '+' {
        text.drop_first()
    } else {
        text
    }
}

/// The number below 256 that a text stands for: an optional plus sign and
/// then one or more decimal digits, nothing else. Leading zeros are allowed.
pub open spec fn parsed_u8(text: Seq<char>) -> Option<u8> {
    let digits = unsigned_part(text);
    if digits.len() > 0 && (forall|i: int| 0 <= i < digits.len() ==> is_digit(digits[i]))
        && decimal_value(digits) <= 255 {
        Some(decimal_value(digits) as u8)
    } else {
        None
    }
}

/// A string of digits stands for no less than any of its prefixes does.
pub proof fn lemma_decimal_value_grows(digits: Seq<char>, n: int)
    requires
        0 <= n <= digits.len(),
    ensures
        decimal_value(digits.take(n)) <= decimal_value(digits),
    decreases digits.len() - n,
{
    if n == digits.len() {
        assert(digits.take(n) =~= digits);
    } else {
        lemma_decimal_value_grows(digits, n + 1);
        assert(digits.take(n + 1).drop_last() =~= digits.take(n));
    }
}

/// Reads a number below 256 from its decimal text.
pub fn parse_u8(text: &str) -> (value: Option<u8>)
    ensures
        value == parsed_u8(text@),
{
    let len: usize = text.unicode_len();
    let start: usize = if len > 0 && text.get_char(0) == '+' {
        1
    } else {
        0
    };
    let ghost digits = unsigned_part(text@);
    if start == len {
        return None;
    }
    let mut total: u32 = 0;
    let mut i: usize = start;
    proof {
        assert(digits.take(0) =~= Seq::<char>::empty());
    }
    while i < len
        invariant
            start <= i <= len,
            len == text@.len(),
            digits == text@.skip(start as int),
            digits == unsigned_part(text@),
            forall|j: int| 0 <= j < i - start ==> is_digit(digits[j]),
            total == decimal_value(digits.take(i - start)),
            total <= 255,
        decreases len - i,
    {
        let c: char = text.get_char(i);
        assert(digits[i - start] == c);
        if !(c >= '0' && c <= '9') {
            return None;
        }
        let digit: u32 = c as u32 - '0' as u32;
        proof {
            assert(digits.take(i - start + 1).drop_last() =~= digits.take(i - start));
            assert(digits.take(i - start + 1).last() == c);
        }
        total = total * 10 + digit;
        if total > 255 {
            proof {
                lemma_decimal_value_grows(digits, i - start + 1);
            }
            return None;
        }
        i = i + 1;
    }
    proof {
        assert(digits.take(len - start) =~= digits);
    }
    Some(total as u8)
}

} // verus!
