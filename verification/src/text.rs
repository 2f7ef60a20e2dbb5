//! Text as sequences of characters, and byte offsets into its UTF-8 encoding.
//!
//! Contracts speak of a text as a `Seq<char>`. Cursors and match spans are
//! byte offsets, so this module relates the two.

use vstd::prelude::*;
use vstd::string::*;
use vstd::utf8::*;

verus! {

/// Number of bytes in the UTF-8 encoding of one character.
pub open spec fn char_width(c: char) -> nat {
    encode_scalar(c as u32).len()
}

/// Number of bytes in the UTF-8 encoding of a text.
pub open spec fn byte_len(s: Seq<char>) -> nat {
    encode_utf8(s).len()
}

/// Number of characters that lie wholly within the first `pos` bytes.
pub open spec fn chars_before(s: Seq<char>, pos: int) -> nat
    decreases s.len(),
{
    if s.len() == 0 || pos < char_width(s[0]) {
        0
    } else {
        1 + chars_before(s.drop_first(), pos - char_width(s[0]))
    }
}

/// Whether byte offset `pos` falls between two characters of `s`, or at one of
/// its ends.
pub open spec fn on_boundary(s: Seq<char>, pos: int) -> bool {
    pos >= 0 && byte_len(s.take(chars_before(s, pos) as int)) == pos
}

/// The characters between byte offsets `from` and `to`, if both lie in order
/// on character boundaries.
pub open spec fn byte_slice(s: Seq<char>, from: int, to: int) -> Option<Seq<char>> {
    if from <= to && on_boundary(s, from) && on_boundary(s, to) {
        Some(s.subrange(chars_before(s, from) as int, chars_before(s, to) as int))
    } else {
        None
    }
}

pub proof fn lemma_char_width(c: char)
    ensures
        1 <= char_width(c) <= 4,
        char_width(c) == (if (c as u32) < 0x80 {
            1nat
        } else if (c as u32) < 0x800 {
            2nat
        } else if (c as u32) < 0x10000 {
            3nat
        } else {
            4nat
        }),
{
    char_is_scalar(c);
}

pub proof fn lemma_encode_concat(a: Seq<char>, b: Seq<char>)
    ensures
        encode_utf8(a + b) == encode_utf8(a) + encode_utf8(b),
        byte_len(a + b) == byte_len(a) + byte_len(b),
    decreases a.len(),
{
    if a.len() == 0 {
        assert(a + b =~= b);
        assert(encode_utf8(a) =~= Seq::<u8>::empty());
        assert(encode_utf8(a) + encode_utf8(b) =~= encode_utf8(b));
    } else {
        lemma_encode_concat(a.drop_first(), b);
        assert((a + b).drop_first() =~= a.drop_first() + b);
        assert(encode_utf8(a + b) =~= encode_utf8(a) + encode_utf8(b));
    }
}

pub proof fn lemma_byte_len_one(c: char)
    ensures
        byte_len(seq![c]) == char_width(c),
        encode_utf8(seq![c]) == encode_scalar(c as u32),
{
    assert(seq![c].drop_first() =~= Seq::<char>::empty());
    assert(encode_utf8(Seq::<char>::empty()) =~= Seq::<u8>::empty());
    reveal_with_fuel(encode_utf8, 2);
    assert(encode_utf8(seq![c]) =~= encode_scalar(c as u32));
}

/// A longer prefix takes more bytes, one character at a time.
pub proof fn lemma_byte_len_take_step(s: Seq<char>, k: int)
    requires
        0 <= k < s.len(),
    ensures
        byte_len(s.take(k + 1)) == byte_len(s.take(k)) + char_width(s[k]),
{
    assert(s.take(k + 1) =~= s.take(k) + seq![s[k]]);
    lemma_encode_concat(s.take(k), seq![s[k]]);
    lemma_byte_len_one(s[k]);
}

pub proof fn lemma_byte_len_split(s: Seq<char>, k: int)
    requires
        0 <= k <= s.len(),
    ensures
        byte_len(s) == byte_len(s.take(k)) + byte_len(s.skip(k)),
        encode_utf8(s) == encode_utf8(s.take(k)) + encode_utf8(s.skip(k)),
{
    assert(s =~= s.take(k) + s.skip(k));
    lemma_encode_concat(s.take(k), s.skip(k));
}

pub proof fn lemma_byte_len_monotone(s: Seq<char>, i: int, j: int)
    requires
        0 <= i <= j <= s.len(),
    ensures
        byte_len(s.take(i)) + (j - i) <= byte_len(s.take(j)),
        byte_len(s.take(j)) <= byte_len(s),
    decreases j - i,
{
    lemma_byte_len_split(s, j);
    if i < j {
        lemma_byte_len_take_step(s, i);
        lemma_char_width(s[i]);
        lemma_byte_len_monotone(s, i + 1, j);
    }
}

/// The byte offset behind the first `k` characters has `k` characters before it.
pub proof fn lemma_chars_before_prefix(s: Seq<char>, k: int)
    requires
        0 <= k <= s.len(),
    ensures
        chars_before(s, byte_len(s.take(k)) as int) == k,
        on_boundary(s, byte_len(s.take(k)) as int),
    decreases s.len(),
{
    if k == 0 {
        assert(s.take(0) =~= Seq::<char>::empty());
        if s.len() > 0 {
            lemma_char_width(s[0]);
        }
    } else {
        let t = s.drop_first();
        assert(s.take(k) =~= seq![s[0]] + t.take(k - 1));
        lemma_encode_concat(seq![s[0]], t.take(k - 1));
        lemma_byte_len_one(s[0]);
        lemma_chars_before_prefix(t, k - 1);
    }
}

pub proof fn lemma_chars_before_bound(s: Seq<char>, pos: int)
    ensures
        chars_before(s, pos) <= s.len(),
        pos >= 0 ==> byte_len(s.take(chars_before(s, pos) as int)) <= pos,
    decreases s.len(),
{
    if s.len() == 0 || pos < char_width(s[0]) {
        assert(s.take(0) =~= Seq::<char>::empty());
        assert(encode_utf8(Seq::<char>::empty()) =~= Seq::<u8>::empty());
    } else {
        let t = s.drop_first();
        let k = chars_before(t, pos - char_width(s[0])) as int;
        lemma_chars_before_bound(t, pos - char_width(s[0]));
        assert(s.take(k + 1) =~= seq![s[0]] + t.take(k));
        lemma_encode_concat(seq![s[0]], t.take(k));
        lemma_byte_len_one(s[0]);
    }
}

/// More bytes hold at least as many characters.
pub proof fn lemma_chars_before_monotone(s: Seq<char>, p: int, q: int)
    requires
        p <= q,
    ensures
        chars_before(s, p) <= chars_before(s, q),
    decreases s.len(),
{
    if s.len() == 0 || p < char_width(s[0]) {
    } else {
        lemma_chars_before_monotone(s.drop_first(), p - char_width(s[0]), q - char_width(s[0]));
    }
}

/// Offsets within one character have the same characters before them.
pub proof fn lemma_chars_before_within(s: Seq<char>, k: int, pos: int)
    requires
        0 <= k <= s.len(),
        byte_len(s.take(k)) <= pos,
        k < s.len() ==> pos < byte_len(s.take(k + 1)),
    ensures
        chars_before(s, pos) == k,
{
    lemma_chars_before_bound(s, pos);
    lemma_chars_before_prefix(s, k);
    lemma_chars_before_monotone(s, byte_len(s.take(k)) as int, pos);
    let j = chars_before(s, pos) as int;
    if j > k {
        lemma_byte_len_monotone(s, k + 1, j);
    }
}

/// The last character boundary at or before a byte offset.
pub open spec fn boundary_at_or_before(s: Seq<char>, pos: int) -> int {
    byte_len(s.take(chars_before(s, pos) as int)) as int
}

/// The first character boundary behind a byte offset within the text.
pub open spec fn boundary_after(s: Seq<char>, pos: int) -> int {
    byte_len(s.take(chars_before(s, pos) as int + 1)) as int
}

/// Between the last boundary at or before an offset and the first one behind
/// it there is none.
pub proof fn lemma_neighbour_boundaries(s: Seq<char>, pos: int)
    requires
        0 <= pos,
    ensures
        on_boundary(s, boundary_at_or_before(s, pos)),
        0 <= boundary_at_or_before(s, pos) <= pos,
        forall|q: int|
            boundary_at_or_before(s, pos) < q <= pos ==> !#[trigger] on_boundary(s, q),
        pos < byte_len(s) ==> {
            &&& on_boundary(s, boundary_after(s, pos))
            &&& pos < boundary_after(s, pos) <= byte_len(s)
            &&& forall|q: int|
                pos < q < boundary_after(s, pos) ==> !#[trigger] on_boundary(s, q)
        },
{
    let k = chars_before(s, pos) as int;
    lemma_chars_before_bound(s, pos);
    lemma_chars_before_prefix(s, k);
    lemma_boundary_ends(s);
    assert forall|q: int| boundary_at_or_before(s, pos) < q <= pos implies !#[trigger] on_boundary(
        s,
        q,
    ) by {
        lemma_chars_before_monotone(s, boundary_at_or_before(s, pos), q);
        lemma_chars_before_monotone(s, q, pos);
    }
    if pos < byte_len(s) {
        if k == s.len() {
            assert(s.take(k) =~= s);
        }
        lemma_chars_before_prefix(s, k + 1);
        lemma_byte_len_monotone(s, k + 1, s.len() as int);
        if boundary_after(s, pos) <= pos {
            lemma_chars_before_monotone(s, boundary_after(s, pos), pos);
        }
        assert forall|q: int| pos < q < boundary_after(s, pos) implies !#[trigger] on_boundary(
            s,
            q,
        ) by {
            lemma_chars_before_within(s, k, q);
        }
    }
}

/// Both ends of a text are boundaries, and nothing beyond its end is one.
pub proof fn lemma_boundary_ends(s: Seq<char>)
    ensures
        on_boundary(s, 0),
        chars_before(s, 0) == 0,
        on_boundary(s, byte_len(s) as int),
        chars_before(s, byte_len(s) as int) == s.len(),
        forall|pos: int| #[trigger] on_boundary(s, pos) ==> 0 <= pos <= byte_len(s),
{
    assert(s.take(0) =~= Seq::<char>::empty());
    assert(s.take(s.len() as int) =~= s);
    lemma_chars_before_prefix(s, 0);
    lemma_chars_before_prefix(s, s.len() as int);
    assert forall|pos: int| #[trigger] on_boundary(s, pos) implies 0 <= pos <= byte_len(s) by {
        lemma_chars_before_bound(s, pos);
        lemma_byte_len_monotone(s, chars_before(s, pos) as int, s.len() as int);
    }
}

/// The boundaries of the character model are those of the encoded bytes.
pub proof fn lemma_boundary_is_byte_boundary(s: Seq<char>, pos: int)
    ensures
        is_char_boundary(encode_utf8(s), pos) == on_boundary(s, pos),
    decreases s.len(),
{
    encode_utf8_valid_utf8(s);
    lemma_boundary_ends(s);
    if pos == 0 {
    } else if pos < 0 || byte_len(s) < pos {
    } else {
        let t = s.drop_first();
        let w = char_width(s[0]);
        lemma_char_width(s[0]);
        encode_utf8_first_scalar(s);
        assert(pop_first_scalar(encode_utf8(s)) =~= encode_utf8(t));
        lemma_boundary_is_byte_boundary(t, pos - w);
        if pos < w {
            assert(!is_char_boundary(encode_utf8(t), pos - w));
            assert(s.take(0) =~= Seq::<char>::empty());
        } else {
            let k = chars_before(t, pos - w) as int;
            lemma_chars_before_bound(t, pos - w);
            assert(s.take(k + 1) =~= seq![s[0]] + t.take(k));
            lemma_encode_concat(seq![s[0]], t.take(k));
            lemma_byte_len_one(s[0]);
        }
    }
}

/// Equal encodings come from equal texts.
pub proof fn lemma_encode_injective(a: Seq<char>, b: Seq<char>)
    requires
        encode_utf8(a) == encode_utf8(b),
    ensures
        a == b,
{
    encode_utf8_decode_utf8(a);
    encode_utf8_decode_utf8(b);
}

/// Splits a text in two at a character boundary.
pub fn split_at_byte<'a>(s: &'a str, pos: usize) -> (r: (&'a str, &'a str))
    requires
        on_boundary(s@, pos as int),
    ensures
        r.0@ == s@.take(chars_before(s@, pos as int) as int),
        r.1@ == s@.skip(chars_before(s@, pos as int) as int),
{
    proof {
        lemma_boundary_is_byte_boundary(s@, pos as int);
    }
    let r = s.split_at(pos);
    proof {
        let k = chars_before(s@, pos as int) as int;
        lemma_chars_before_bound(s@, pos as int);
        lemma_byte_len_split(s@, k);
        assert(encode_utf8(s@).subrange(0, pos as int) =~= encode_utf8(s@.take(k)));
        assert(encode_utf8(s@).subrange(pos as int, byte_len(s@) as int) =~= encode_utf8(
            s@.skip(k),
        ));
        lemma_encode_injective(r.0@, s@.take(k));
        lemma_encode_injective(r.1@, s@.skip(k));
    }
    r
}

/// The number of bytes that a text takes.
pub fn byte_count(s: &str) -> (n: usize)
    ensures
        n == byte_len(s@),
{
    s.as_bytes().len()
}

/// The part of a text between two byte offsets, if both lie in order on
/// character boundaries.
pub fn slice_bytes<'a>(s: &'a str, from: usize, to: usize) -> (r: Option<&'a str>)
    ensures
        r is Some == byte_slice(s@, from as int, to as int) is Some,
        r matches Some(t) ==> t@ == byte_slice(s@, from as int, to as int)->0,
{
    proof {
        lemma_boundary_is_byte_boundary(s@, from as int);
        lemma_boundary_is_byte_boundary(s@, to as int);
    }
    if from <= to && s.is_char_boundary(from) && s.is_char_boundary(to) {
        let head = split_at_byte(s, to).0;
        proof {
            let j = chars_before(s@, to as int) as int;
            let i = chars_before(s@, from as int) as int;
            lemma_chars_before_bound(s@, to as int);
            lemma_chars_before_bound(s@, from as int);
            lemma_chars_before_monotone(s@, from as int, to as int);
            assert(s@.take(j).take(i) =~= s@.take(i));
            lemma_chars_before_prefix(head@, i);
            assert(head@.skip(i) =~= s@.subrange(i, j));
        }
        Some(split_at_byte(head, from).1)
    } else {
        None
    }
}

/// Index of the first item from `from` on that satisfies `p`, or the length
/// where none does.
pub open spec fn find_from<A>(s: Seq<A>, from: int, p: spec_fn(A) -> bool) -> int
    decreases s.len() - from,
{
    if from >= s.len() {
        s.len() as int
    } else if p(s[from]) {
        from
    } else {
        find_from(s, from + 1, p)
    }
}

pub proof fn lemma_find_from<A>(s: Seq<A>, from: int, p: spec_fn(A) -> bool)
    requires
        0 <= from <= s.len(),
    ensures
        from <= find_from(s, from, p) <= s.len(),
        find_from(s, from, p) < s.len() ==> p(s[find_from(s, from, p)]),
        forall|j: int| from <= j < find_from(s, from, p) ==> !p(#[trigger] s[j]),
    decreases s.len() - from,
{
    if from < s.len() && !p(s[from]) {
        lemma_find_from(s, from + 1, p);
    }
}

/// An index before which nothing satisfies `p`, and which is the end or
/// satisfies `p`, is the first.
pub proof fn lemma_find_from_is<A>(s: Seq<A>, from: int, p: spec_fn(A) -> bool, k: int)
    requires
        0 <= from <= k <= s.len(),
        k < s.len() ==> p(s[k]),
        forall|j: int| from <= j < k ==> !p(#[trigger] s[j]),
    ensures
        find_from(s, from, p) == k,
    decreases k - from,
{
    if from < k {
        lemma_find_from_is(s, from + 1, p, k);
    }
}

/// Index of the first `c` in a text, or its length where there is none.
pub open spec fn index_of_char(s: Seq<char>, c: char) -> int {
    find_from(s, 0, equals_char(c))
}

/// The test for being `c`.
pub open spec fn equals_char(c: char) -> spec_fn(char) -> bool {
    |x: char| x == c
}

/// A text holds a character exactly where its first index is not the end.
pub proof fn lemma_contains_char(s: Seq<char>, c: char)
    ensures
        s.contains(c) == (index_of_char(s, c) < s.len()),
        0 <= index_of_char(s, c) <= s.len(),
{
    lemma_find_from(s, 0, equals_char(c));
    if s.contains(c) {
        let i = choose|i: int| 0 <= i < s.len() && s[i] == c;
        assert(equals_char(c)(s[i]));
    }
}

/// Byte offset of the first `c` in a text.
pub fn find_char(s: &str, c: char) -> (r: Option<usize>)
    ensures
        r is Some == (index_of_char(s@, c) < s@.len()),
        r matches Some(pos) ==> pos == byte_len(s@.take(index_of_char(s@, c))),
{
    let total: usize = byte_count(s);
    let mut pos: usize = 0;
    assert(s@.take(0) =~= Seq::<char>::empty());
    for x in it: s.chars()
        invariant
            it.seq() == s@,
            total == byte_len(s@),
            pos == byte_len(s@.take(it.index())),
            forall|j: int| 0 <= j < it.index() ==> s@[j] != c,
    {
        proof {
            let i = it.index();
            lemma_byte_len_take_step(s@, i);
            lemma_byte_len_monotone(s@, i + 1, s@.len() as int);
            if x == c {
                lemma_find_from_is(s@, 0, equals_char(c), i);
            }
        }
        if x == c {
            return Some(pos);
        }
        pos = pos + utf8_width(x);
    }
    proof {
        lemma_find_from_is(s@, 0, equals_char(c), s@.len() as int);
    }
    None
}

/// Number of bytes in the UTF-8 encoding of one character.
pub fn utf8_width(c: char) -> (w: usize)
    ensures
        w == char_width(c),
        1 <= w <= 4,
{
    proof {
        lemma_char_width(c);
    }
    let v: u32 = c as u32;
    if v < 0x80 {
        1
    } else if v < 0x800 {
        2
    } else if v < 0x10000 {
        3
    } else {
        4
    }
}

/// The first line of a text: everything before its first line feed, and
/// before the carriage return in front of that line feed.
pub open spec fn first_line(s: Seq<char>) -> Seq<char> {
    let k = index_of_char(s, '\n');
    if 0 < k < s.len() && s[k - 1] == '\r' {
        s.take(k - 1)
    } else {
        s.take(k)
    }
}

/// What stands behind the first line feed of a text.
pub open spec fn after_first_line(s: Seq<char>) -> Seq<char> {
    let k = index_of_char(s, '\n');
    if k < s.len() {
        s.skip(k + 1)
    } else {
        Seq::empty()
    }
}

/// The lines of a text. A line feed, or a carriage return and a line feed, ends
/// a line; the last line needs no such end.
pub open spec fn lines_of(s: Seq<char>) -> Seq<Seq<char>>
    decreases s.len(),
    via lines_of_decreases
{
    if s.len() == 0 {
        Seq::empty()
    } else {
        seq![first_line(s)] + lines_of(after_first_line(s))
    }
}

#[via_fn]
proof fn lines_of_decreases(s: Seq<char>) {
    lemma_find_from(s, 0, equals_char('\n'));
}

/// The texts that a list of string slices holds.
pub open spec fn views(lines: Seq<&str>) -> Seq<Seq<char>> {
    Seq::new(lines.len(), |i: int| lines[i]@)
}

proof fn lemma_last_byte(s: Seq<char>)
    requires
        s.len() > 0,
    ensures
        byte_len(s) > 0,
        encode_utf8(s)[byte_len(s) - 1] == 13 <==> s.last() == '\r',
        s.last() == '\r' ==> byte_len(s.drop_last()) == byte_len(s) - 1,
{
    let v = s.last() as u32;
    assert(s =~= s.drop_last() + seq![s.last()]);
    lemma_encode_concat(s.drop_last(), seq![s.last()]);
    lemma_byte_len_one(s.last());
    lemma_char_width(s.last());
    char_is_scalar(s.last());
    let e = encode_scalar(v);
    assert(encode_utf8(s)[byte_len(s) - 1] == e[e.len() - 1]);
    if v <= 0x7f {
        assert(((v & 0x7f) as u8) as u32 == v) by (bit_vector)
            requires
                v <= 0x7f,
        ;
        assert(e[e.len() - 1] == leading_byte_width_1(v));
        char_u32_cast(s.last(), v);
    } else {
        assert((0x80u8 | ((v & 0x3f) as u8)) >= 0x80u8) by (bit_vector);
        assert(e[e.len() - 1] == last_continuation_byte(v));
    }
}

/// Splits a text into its lines.
pub fn lines<'a>(s: &'a str) -> (r: Vec<&'a str>)
    ensures
        views(r@) == lines_of(s@),
{
    let mut out: Vec<&'a str> = Vec::new();
    let mut rest: &'a str = s;
    assert(views(out@) + lines_of(rest@) =~= lines_of(s@));
    while !rest.is_empty()
        invariant
            views(out@) + lines_of(rest@) == lines_of(s@),
        decreases rest@.len(),
    {
        let ghost before = out@;
        let ghost t = rest@;
        let ghost k = index_of_char(t, '\n');
        proof {
            lemma_find_from(t, 0, equals_char('\n'));
        }
        match find_char(rest, '\n') {
            None => {
                assert(t.take(k) =~= t);
                out.push(rest);
                rest = "";
                assert(lines_of(rest@) =~= Seq::empty()) by {
                    reveal_strlit("");
                }
                assert(rest@ =~= after_first_line(t)) by {
                    reveal_strlit("");
                }
            },
            Some(pos) => {
                proof {
                    lemma_chars_before_prefix(t, k);
                }
                let (head, tail) = split_at_byte(rest, pos);
                assert(tail@[0] == '\n');
                proof {
                    lemma_char_width('\n');
                    assert(tail@.take(1) =~= seq!['\n']);
                    lemma_byte_len_one('\n');
                    lemma_chars_before_prefix(tail@, 1);
                    if k > 0 {
                        lemma_last_byte(head@);
                    } else {
                        assert(head@ =~= Seq::<char>::empty());
                    }
                }
                let line: &'a str = if pos > 0 && head.as_bytes()[pos - 1] == 13 {
                    proof {
                        assert(k > 0) by {
                            assert(t.take(0) =~= Seq::<char>::empty());
                        }
                        assert(head@.take(k - 1) =~= head@.drop_last());
                        lemma_chars_before_prefix(head@, k - 1);
                        assert(head@.take(k - 1) =~= t.take(k - 1));
                    }
                    split_at_byte(head, pos - 1).0
                } else {
                    head
                };
                assert(line@ =~= first_line(t));
                out.push(line);
                rest = split_at_byte(tail, 1).1;
                assert(rest@ =~= after_first_line(t));
            },
        }
        assert(views(out@) =~= views(before).push(first_line(t)));
        assert(views(out@) + lines_of(rest@) =~= views(before) + lines_of(t));
    }
    assert(views(out@) + lines_of(rest@) =~= views(out@));
    out
}

/// The decimal digit for a number below ten.
pub open spec fn digit(d: nat) -> char {
    (0x30 + d) as u8 as char
}

/// A number in decimal notation.
pub open spec fn decimal(n: nat) -> Seq<char>
    decreases n,
{
    if n < 10 {
        seq![digit(n)]
    } else {
        decimal(n / 10).push(digit(n % 10))
    }
}

/// Appends a number in decimal notation.
pub fn push_decimal(out: &mut String, n: usize)
    ensures
        final(out)@ == old(out)@ + decimal(n as nat),
    decreases n,
{
    if n >= 10 {
        push_decimal(out, n / 10);
    }
    let d: u8 = (n % 10) as u8;
    out.push((0x30 + d) as char);
    assert(out@ =~= old(out)@ + decimal(n as nat));
}

} // verus!
