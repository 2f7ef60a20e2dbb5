//! Laws of texts: what splitting into lines, slicing and writing numbers mean,
//! told from the characters alone.

use vstd::prelude::*;

use crate::std_text;
use crate::text;

verus! {

/// A line feed, and a carriage return in front of it, end a line and belong to
/// none; what stands behind is split in the same way.
pub proof fn law_lines_step(line: Seq<char>, rest: Seq<char>)
    requires
        !line.contains('\n'),
    ensures
        line.len() == 0 || line.last() != '\r' ==> text::lines_of(line + seq!['\n'] + rest) == seq![
            line,
        ] + text::lines_of(rest),
        text::lines_of(line + seq!['\r', '\n'] + rest) == seq![line] + text::lines_of(rest),
{
    let fed = line + seq!['\n'] + rest;
    let k = line.len() as int;
    assert(fed[k] == '\n');
    assert forall|j: int| 0 <= j < k implies !text::equals_char('\n')(#[trigger] fed[j]) by {
        assert(line.contains(line[j]));
        assert(fed[j] == line[j]);
    }
    text::lemma_find_from_is(fed, 0, text::equals_char('\n'), k);
    assert(fed.skip(k + 1) =~= rest);
    assert(fed.take(k) =~= line);
    let returned = line + seq!['\r', '\n'] + rest;
    assert(returned[k] == '\r');
    assert(returned[k + 1] == '\n');
    assert forall|j: int| 0 <= j < k + 1 implies !text::equals_char('\n')(
        #[trigger] returned[j],
    ) by {
        if j < k {
            assert(line.contains(line[j]));
            assert(returned[j] == line[j]);
        }
    }
    text::lemma_find_from_is(returned, 0, text::equals_char('\n'), k + 1);
    assert(returned.skip(k + 2) =~= rest);
    assert(returned.take(k) =~= line);
}

/// The last line needs no end, and an empty text has no lines.
pub proof fn law_last_line(line: Seq<char>)
    requires
        !line.contains('\n'),
        line.len() > 0,
    ensures
        text::lines_of(line) == seq![line],
        text::lines_of(Seq::<char>::empty()) == Seq::<Seq<char>>::empty(),
{
    assert forall|j: int| 0 <= j < line.len() implies !text::equals_char('\n')(
        #[trigger] line[j],
    ) by {
        assert(line.contains(line[j]));
    }
    text::lemma_find_from_is(line, 0, text::equals_char('\n'), line.len() as int);
    assert(line.take(line.len() as int) =~= line);
    assert(text::lines_of(Seq::<char>::empty()) =~= Seq::<Seq<char>>::empty());
    assert(text::lines_of(line) =~= seq![line]);
}

/// The number that a row of decimal digits stands for.
pub open spec fn number_of(digits: Seq<char>) -> int
    decreases digits.len(),
{
    if digits.len() == 0 {
        0
    } else {
        10 * number_of(digits.drop_last()) + (digits.last() as int - '0' as int)
    }
}

/// A number is written in decimal digits that read back as the number, and
/// without a zero in front.
pub proof fn law_decimal(n: nat)
    ensures
        text::decimal(n).len() > 0,
        number_of(text::decimal(n)) == n,
        forall|i: int|
            0 <= i < text::decimal(n).len() ==> '0' <= #[trigger] text::decimal(n)[i] <= '9',
        n > 0 ==> text::decimal(n)[0] != '0',
    decreases n,
{
    let digits = text::decimal(n);
    if n < 10 {
        assert(digits.drop_last() =~= Seq::empty());
        assert(number_of(digits.drop_last()) == 0);
    } else {
        law_decimal(n / 10);
        assert(digits.drop_last() =~= text::decimal(n / 10));
    }
}

/// A slice by byte offsets is the text between what takes these bytes: cut out
/// of three texts put together, it is the one in the middle.
pub proof fn law_byte_slice(before: Seq<char>, part: Seq<char>, behind: Seq<char>)
    ensures
        text::byte_slice(
            before + part + behind,
            text::byte_len(before) as int,
            (text::byte_len(before) + text::byte_len(part)) as int,
        ) == Some(part),
{
    let whole = before + part + behind;
    let i = before.len() as int;
    let j = i + part.len();
    assert(whole.take(i) =~= before);
    assert(whole.take(j) =~= before + part);
    text::lemma_encode_concat(before, part);
    text::lemma_chars_before_prefix(whole, i);
    text::lemma_chars_before_prefix(whole, j);
    assert(whole.subrange(i, j) =~= part);
}

/// Offsets that do not lie in order on character boundaries cut out nothing.
pub proof fn law_no_byte_slice(s: Seq<char>, from: int, to: int)
    ensures
        text::byte_slice(s, from, to) matches Some(part) ==> exists|i: int|
            0 <= i <= s.len() - part.len() && #[trigger] text::byte_len(s.take(i)) == from
                && text::byte_len(s.take(i)) + text::byte_len(part) == to && s.subrange(
                i,
                i + part.len(),
            ) == part,
{
    if let Some(part) = text::byte_slice(s, from, to) {
        let i = text::chars_before(s, from) as int;
        let j = text::chars_before(s, to) as int;
        text::lemma_chars_before_bound(s, from);
        text::lemma_chars_before_bound(s, to);
        text::lemma_chars_before_monotone(s, from, to);
        assert(s.take(j) =~= s.take(i) + part);
        text::lemma_encode_concat(s.take(i), part);
        assert(text::byte_len(s.take(i)) == from);
    }
}

/// Trimming takes away whitespace at the ends, all of it and nothing else.
pub proof fn law_trimmed(before: Seq<char>, part: Seq<char>, behind: Seq<char>)
    requires
        forall|i: int|
            0 <= i < before.len() ==> std_text::is_whitespace(#[trigger] before[i]),
        forall|i: int|
            0 <= i < behind.len() ==> std_text::is_whitespace(#[trigger] behind[i]),
        part.len() > 0,
        !std_text::is_whitespace(part[0]),
        !std_text::is_whitespace(part.last()),
    ensures
        std_text::trimmed_end(part + behind) == part,
        std_text::trimmed(before + part + behind) == part,
    decreases before.len() + behind.len(),
{
    if behind.len() > 0 {
        law_trimmed(before, part, behind.drop_last());
        assert((part + behind).drop_last() =~= part + behind.drop_last());
    } else {
        assert(part + behind =~= part);
    }
    lemma_trimmed_start(before, part + behind);
    assert(before + part + behind =~= before + (part + behind));
}

proof fn lemma_trimmed_start(before: Seq<char>, rest: Seq<char>)
    requires
        forall|i: int|
            0 <= i < before.len() ==> std_text::is_whitespace(#[trigger] before[i]),
        rest.len() > 0,
        !std_text::is_whitespace(rest[0]),
    ensures
        std_text::trimmed_start(before + rest) == rest,
    decreases before.len(),
{
    if before.len() > 0 {
        assert((before + rest).drop_first() =~= before.drop_first() + rest);
        lemma_trimmed_start(before.drop_first(), rest);
    } else {
        assert(before + rest =~= rest);
    }
}

} // verus!
