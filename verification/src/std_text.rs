//! Contracts for the string functions of the standard library that the crate
//! calls and that `vstd` leaves unspecified.

use vstd::prelude::*;

use crate::text;

verus! {

/// Whether a character has the Unicode `White_Space` property.
pub open spec fn is_whitespace(c: char) -> bool {
    let v = c as u32;
    ||| 0x09 <= v <= 0x0d
    ||| v == 0x20
    ||| v == 0x85
    ||| v == 0xa0
    ||| v == 0x1680
    ||| 0x2000 <= v <= 0x200a
    ||| v == 0x2028
    ||| v == 0x2029
    ||| v == 0x202f
    ||| v == 0x205f
    ||| v == 0x3000
}

/// A text without the whitespace at its end.
pub open spec fn trimmed_end(s: Seq<char>) -> Seq<char>
    decreases s.len(),
{
    if s.len() > 0 && is_whitespace(s.last()) {
        trimmed_end(s.drop_last())
    } else {
        s
    }
}

/// A text without the whitespace at its start.
pub open spec fn trimmed_start(s: Seq<char>) -> Seq<char>
    decreases s.len(),
{
    if s.len() > 0 && is_whitespace(s[0]) {
        trimmed_start(s.drop_first())
    } else {
        s
    }
}

/// A text without the whitespace at either end.
pub open spec fn trimmed(s: Seq<char>) -> Seq<char> {
    trimmed_end(trimmed_start(s))
}

/// `str::trim`: the text without leading and trailing whitespace.
pub assume_specification[ str::trim ](s: &str) -> (r: &str)
    ensures
        r@ == trimmed(s@),
;

/// `str::trim_end`: the text without trailing whitespace.
pub assume_specification[ str::trim_end ](s: &str) -> (r: &str)
    ensures
        r@ == trimmed_end(s@),
;

/// What `str::to_uppercase` returns for a text. It follows the Unicode tables
/// of the standard library, and the text alone decides it.
pub uninterp spec fn uppercase(s: Seq<char>) -> Seq<char>;

/// `str::to_uppercase`: the uppercase form of the text.
pub assume_specification[ str::to_uppercase ](s: &str) -> (r: String)
    ensures
        r@ == uppercase(s@),
;

/// `String::push`: appends one character.
pub assume_specification[ String::push ](s: &mut String, ch: char)
    ensures
        final(s)@ == old(s)@.push(ch),
;

/// `String::insert`: puts a character in at a byte offset, which must be a
/// character boundary.
pub assume_specification[ String::insert ](s: &mut String, idx: usize, ch: char)
    requires
        text::on_boundary(old(s)@, idx as int),
    ensures
        final(s)@ == old(s)@.insert(text::chars_before(old(s)@, idx as int) as int, ch),
;

/// `String::remove`: takes out and returns the character that starts at a byte
/// offset, which must be a character boundary before the end.
pub assume_specification[ String::remove ](s: &mut String, idx: usize) -> (ch: char)
    requires
        text::on_boundary(old(s)@, idx as int),
        idx < text::byte_len(old(s)@),
    ensures
        ch == old(s)@[text::chars_before(old(s)@, idx as int) as int],
        final(s)@ == old(s)@.remove(text::chars_before(old(s)@, idx as int) as int),
;

} // verus!
