//! Cutting a line into pieces of one style each.

use vstd::prelude::*;

use crate::text;
use crate::types::MatchSpan;

verus! {

/// How a piece of a line is shown.
#[derive(Debug, Clone, Copy, PartialEq, Eq, Structural)]
pub enum SpanStyle {
    /// Ordinary text.
    Plain,
    /// Part of a section title.
    Title,
    /// Part of a search match.
    Match,
}

/// A piece of a line as a mathematical value.
#[verifier::ext_equal]
pub struct StyledSpanView {
    pub text: Seq<char>,
    pub style: SpanStyle,
}

/// A piece of a line and its style.
#[derive(Debug, Clone, Copy)]
pub struct StyledSpan<'a> {
    pub text: &'a str,
    pub style: SpanStyle,
}

impl<'a> View for StyledSpan<'a> {
    type V = StyledSpanView;

    open spec fn view(&self) -> StyledSpanView {
        StyledSpanView { text: self.text@, style: self.style }
    }
}

/// The pieces of a list as mathematical values.
pub open spec fn span_views(spans: Seq<StyledSpan>) -> Seq<StyledSpanView> {
    Seq::new(spans.len(), |i: int| spans[i]@)
}

/// The style of text outside of matches.
pub open spec fn base_style(is_title: bool) -> SpanStyle {
    if is_title {
        SpanStyle::Title
    } else {
        SpanStyle::Plain
    }
}

/// A byte offset, but not beyond the end of the line.
pub open spec fn clamped(line: Seq<char>, pos: usize) -> int {
    if pos < text::byte_len(line) {
        pos as int
    } else {
        text::byte_len(line) as int
    }
}

/// The piece between two byte offsets. Offsets out of order or within a
/// character give none.
pub open spec fn piece(line: Seq<char>, from: int, to: int, style: SpanStyle) -> Seq<
    StyledSpanView,
> {
    match text::byte_slice(line, from, to) {
        Some(part) => seq![StyledSpanView { text: part, style }],
        None => Seq::empty(),
    }
}

/// Byte offset behind the first `count` matches.
pub open spec fn end_of_matches(line: Seq<char>, matches: Seq<MatchSpan>, count: int) -> int {
    if count <= 0 {
        0
    } else {
        clamped(line, matches[count - 1].end)
    }
}

/// The pieces up to the end of the first `count` matches: each match, and
/// before it the text that no match has taken.
pub open spec fn pieces_of_matches(
    line: Seq<char>,
    matches: Seq<MatchSpan>,
    is_title: bool,
    count: int,
) -> Seq<StyledSpanView>
    decreases count,
{
    if count <= 0 {
        Seq::empty()
    } else {
        let last_end = end_of_matches(line, matches, count - 1);
        let start = clamped(line, matches[count - 1].start);
        let end = clamped(line, matches[count - 1].end);
        let gap = if start > last_end {
            piece(line, last_end, start, base_style(is_title))
        } else {
            Seq::empty()
        };
        pieces_of_matches(line, matches, is_title, count - 1) + gap + piece(
            line,
            start,
            end,
            SpanStyle::Match,
        )
    }
}

/// The pieces of a line: those of its matches, and the text behind the last.
pub open spec fn highlighted(
    line: Seq<char>,
    matches: Seq<MatchSpan>,
    is_title: bool,
) -> Seq<StyledSpanView> {
    let count = matches.len() as int;
    let last_end = end_of_matches(line, matches, count);
    let len = text::byte_len(line) as int;
    let rest = if last_end < len {
        piece(line, last_end, len, base_style(is_title))
    } else {
        Seq::empty()
    };
    pieces_of_matches(line, matches, is_title, count) + rest
}

/// Builds a line with both search and title highlighting.
pub fn build_line_with_search_and_title_highlights<'a>(
    line_str: &'a str,
    matches: &[MatchSpan],
    is_title: bool,
) -> (r: Vec<StyledSpan<'a>>)
    ensures
        span_views(r@) == highlighted(line_str@, matches@, is_title),
{
    let style = if is_title {
        SpanStyle::Title
    } else {
        SpanStyle::Plain
    };
    let len: usize = text::byte_count(line_str);
    let total: usize = matches.len();
    let mut spans: Vec<StyledSpan<'a>> = Vec::new();
    let mut last_end: usize = 0;
    let mut i: usize = 0;
    assert(span_views(spans@) =~= pieces_of_matches(line_str@, matches@, is_title, 0));
    while i < total
        invariant
            total == matches@.len(),
            len == text::byte_len(line_str@),
            style == base_style(is_title),
            i <= total,
            last_end == end_of_matches(line_str@, matches@, i as int),
            span_views(spans@) == pieces_of_matches(line_str@, matches@, is_title, i as int),
        decreases total - i,
    {
        let start: usize = if matches[i].start < len {
            matches[i].start
        } else {
            len
        };
        let end: usize = if matches[i].end < len {
            matches[i].end
        } else {
            len
        };
        let ghost before = span_views(spans@);
        if start > last_end {
            push_piece(&mut spans, line_str, last_end, start, style);
        }
        push_piece(&mut spans, line_str, start, end, SpanStyle::Match);
        assert(span_views(spans@) =~= pieces_of_matches(line_str@, matches@, is_title, i + 1));
        last_end = end;
        i = i + 1;
    }
    if last_end < len {
        push_piece(&mut spans, line_str, last_end, len, style);
    }
    assert(span_views(spans@) =~= highlighted(line_str@, matches@, is_title));
    spans
}

fn push_piece<'a>(
    spans: &mut Vec<StyledSpan<'a>>,
    line_str: &'a str,
    from: usize,
    to: usize,
    style: SpanStyle,
)
    ensures
        span_views(final(spans)@) == span_views(old(spans)@) + piece(
            line_str@,
            from as int,
            to as int,
            style,
        ),
{
    if let Some(part) = text::slice_bytes(line_str, from, to) {
        spans.push(StyledSpan { text: part, style });
    }
    assert(span_views(spans@) =~= span_views(old(spans)@) + piece(
        line_str@,
        from as int,
        to as int,
        style,
    ));
}

/// The text of all pieces together.
pub open spec fn joined_text(pieces: Seq<StyledSpanView>) -> Seq<char>
    decreases pieces.len(),
{
    if pieces.len() == 0 {
        Seq::empty()
    } else {
        joined_text(pieces.drop_last()) + pieces.last().text
    }
}

/// The style of each character of all pieces together.
pub open spec fn joined_styles(pieces: Seq<StyledSpanView>) -> Seq<SpanStyle>
    decreases pieces.len(),
{
    if pieces.len() == 0 {
        Seq::empty()
    } else {
        joined_styles(pieces.drop_last()) + Seq::new(
            pieces.last().text.len(),
            |i: int| pieces.last().style,
        )
    }
}

/// Whether character `k` of a line lies within one of the first `count` matches.
pub open spec fn in_match(line: Seq<char>, matches: Seq<MatchSpan>, count: int, k: int) -> bool {
    exists|i: int|
        0 <= i < count && text::chars_before(line, (#[trigger] matches[i]).start as int) <= k
            < text::chars_before(line, matches[i].end as int)
}

proof fn lemma_joined_add(a: Seq<StyledSpanView>, text: Seq<char>, style: SpanStyle)
    ensures
        joined_text(a + seq![StyledSpanView { text, style }]) == joined_text(a) + text,
        joined_styles(a + seq![StyledSpanView { text, style }]) == joined_styles(a) + Seq::new(
            text.len(),
            |i: int| style,
        ),
        joined_text(a).len() == joined_styles(a).len(),
    decreases a.len(),
{
    let b = a + seq![StyledSpanView { text, style }];
    assert(b.drop_last() =~= a);
    assert(joined_styles(b) =~= joined_styles(a) + Seq::new(text.len(), |i: int| style));
    if a.len() > 0 {
        let c = a.drop_last();
        lemma_joined_add(c, a.last().text, a.last().style);
        assert(a =~= c + seq![StyledSpanView { text: a.last().text, style: a.last().style }]);
    }
}

/// Adding the piece from where the pieces end extends text and styles.
proof fn lemma_extend(
    line: Seq<char>,
    pieces: Seq<StyledSpanView>,
    from: int,
    to: int,
    style: SpanStyle,
)
    requires
        from <= to,
        text::on_boundary(line, from),
        text::on_boundary(line, to),
        joined_text(pieces) == line.take(text::chars_before(line, from) as int),
    ensures
        joined_text(pieces + piece(line, from, to, style)) == line.take(
            text::chars_before(line, to) as int,
        ),
        joined_styles(pieces + piece(line, from, to, style)) == joined_styles(pieces) + Seq::new(
            (text::chars_before(line, to) - text::chars_before(line, from)) as nat,
            |i: int| style,
        ),
        joined_styles(pieces).len() == text::chars_before(line, from),
        text::chars_before(line, from) <= text::chars_before(line, to) <= line.len(),
{
    let a = text::chars_before(line, from) as int;
    let b = text::chars_before(line, to) as int;
    text::lemma_chars_before_bound(line, from);
    text::lemma_chars_before_bound(line, to);
    text::lemma_chars_before_monotone(line, from, to);
    lemma_joined_add(pieces, line.subrange(a, b), style);
    assert(line.take(b) =~= line.take(a) + line.subrange(a, b));
}

/// Whether matches can be shown one after the other: each starts no later than
/// it ends, ends no later than any later one starts, and both its bounds are
/// character boundaries of the line or lie at or beyond its end.
pub open spec fn follow_each_other(line: Seq<char>, matches: Seq<MatchSpan>) -> bool {
    &&& forall|i: int|
        0 <= i < matches.len() ==> {
            &&& (#[trigger] matches[i]).start <= matches[i].end
            &&& is_bound(line, matches[i].start)
            &&& is_bound(line, matches[i].end)
        }
    &&& forall|i: int, j: int|
        0 <= i < j < matches.len() ==> (#[trigger] matches[i]).end <= (#[trigger] matches[j]).start
}

/// Whether a byte offset is a character boundary of a line or lies at or beyond
/// its end.
pub open spec fn is_bound(line: Seq<char>, pos: usize) -> bool {
    text::on_boundary(line, pos as int) || pos >= text::byte_len(line)
}

/// A bound beyond the end of a line stands for the end.
proof fn lemma_clamped(line: Seq<char>, pos: usize)
    requires
        is_bound(line, pos),
    ensures
        text::on_boundary(line, clamped(line, pos)),
        text::chars_before(line, clamped(line, pos)) == text::chars_before(line, pos as int),
{
    text::lemma_boundary_ends(line);
    if pos >= text::byte_len(line) {
        text::lemma_chars_before_bound(line, pos as int);
        text::lemma_chars_before_monotone(line, text::byte_len(line) as int, pos as int);
    }
}

proof fn lemma_matches_highlighted(
    line: Seq<char>,
    matches: Seq<MatchSpan>,
    is_title: bool,
    count: int,
)
    requires
        follow_each_other(line, matches),
        0 <= count <= matches.len(),
    ensures
        text::on_boundary(line, end_of_matches(line, matches, count)),
        ({
            let done = text::chars_before(line, end_of_matches(line, matches, count)) as int;
            let pieces = pieces_of_matches(line, matches, is_title, count);
            &&& joined_text(pieces) == line.take(done)
            &&& joined_styles(pieces).len() == done
            &&& forall|k: int|
                0 <= k < done ==> #[trigger] joined_styles(pieces)[k] == (if in_match(
                    line,
                    matches,
                    count,
                    k,
                ) {
                    SpanStyle::Match
                } else {
                    base_style(is_title)
                })
        }),
    decreases count,
{
    text::lemma_boundary_ends(line);
    if count == 0 {
        assert(line.take(0) =~= Seq::<char>::empty());
    } else {
        let m = matches[count - 1];
        let last_end = end_of_matches(line, matches, count - 1);
        let start = clamped(line, m.start);
        let end = clamped(line, m.end);
        lemma_clamped(line, m.start);
        lemma_clamped(line, m.end);
        let p0 = pieces_of_matches(line, matches, is_title, count - 1);
        lemma_matches_highlighted(line, matches, is_title, count - 1);
        if count >= 2 {
            assert(matches[count - 2].end <= m.start);
        }
        assert(last_end <= start);
        let base = base_style(is_title);
        let gap = if start > last_end {
            piece(line, last_end, start, base)
        } else {
            Seq::empty()
        };
        let p1 = p0 + gap;
        if start > last_end {
            lemma_extend(line, p0, last_end, start, base);
        } else {
            assert(p1 =~= p0);
        }
        lemma_extend(line, p1, start, end, SpanStyle::Match);
        let p2 = p1 + piece(line, start, end, SpanStyle::Match);
        assert(p2 == pieces_of_matches(line, matches, is_title, count));
        let c0 = text::chars_before(line, last_end) as int;
        let c1 = text::chars_before(line, start) as int;
        let c2 = text::chars_before(line, end) as int;
        text::lemma_chars_before_monotone(line, last_end, start);
        assert forall|k: int| 0 <= k < c2 implies #[trigger] joined_styles(p2)[k] == (if in_match(
            line,
            matches,
            count,
            k,
        ) {
            SpanStyle::Match
        } else {
            base
        }) by {
            if k < c1 {
                assert(in_match(line, matches, count, k) == in_match(line, matches, count - 1, k));
                if k >= c0 {
                    if in_match(line, matches, count - 1, k) {
                        let i = choose|i: int|
                            0 <= i < count - 1 && text::chars_before(
                                line,
                                (#[trigger] matches[i]).start as int,
                            ) <= k < text::chars_before(line, matches[i].end as int);
                        lemma_clamped(line, matches[i].end);
                        if i < count - 2 {
                            assert(matches[i].end <= matches[count - 2].start);
                        }
                        text::lemma_chars_before_monotone(
                            line,
                            clamped(line, matches[i].end),
                            last_end,
                        );
                    }
                }
            } else {
                assert(text::chars_before(line, matches[count - 1].start as int) <= k);
                assert(in_match(line, matches, count, k));
            }
        }
    }
}

/// Highlighting loses no text and marks the right characters: for matches that
/// follow each other, also beyond the end of the line, the pieces together are
/// the line, and a character is shown as a match exactly if it lies within one.
pub proof fn law_highlighting(line: Seq<char>, matches: Seq<MatchSpan>, is_title: bool)
    requires
        follow_each_other(line, matches),
    ensures
        joined_text(highlighted(line, matches, is_title)) == line,
        joined_styles(highlighted(line, matches, is_title)).len() == line.len(),
        forall|k: int|
            0 <= k < line.len() ==> #[trigger] joined_styles(
                highlighted(line, matches, is_title),
            )[k] == (if in_match(line, matches, matches.len() as int, k) {
                SpanStyle::Match
            } else if is_title {
                SpanStyle::Title
            } else {
                SpanStyle::Plain
            }),
{
    let count = matches.len() as int;
    let last_end = end_of_matches(line, matches, count);
    let len = text::byte_len(line) as int;
    let base = base_style(is_title);
    let p = pieces_of_matches(line, matches, is_title, count);
    lemma_matches_highlighted(line, matches, is_title, count);
    text::lemma_boundary_ends(line);
    assert(line.take(line.len() as int) =~= line);
    if last_end < len {
        lemma_extend(line, p, last_end, len, base);
        let c = text::chars_before(line, last_end) as int;
        assert forall|k: int| c <= k < line.len() implies !in_match(line, matches, count, k) by {
            if in_match(line, matches, count, k) {
                let i = choose|i: int|
                    0 <= i < count && text::chars_before(
                        line,
                        (#[trigger] matches[i]).start as int,
                    ) <= k < text::chars_before(line, matches[i].end as int);
                lemma_clamped(line, matches[i].end);
                if i < count - 1 {
                    assert(matches[i].end <= matches[count - 1].start);
                }
                text::lemma_chars_before_monotone(line, clamped(line, matches[i].end), last_end);
            }
        }
    } else {
        assert(highlighted(line, matches, is_title) =~= p);
    }
}

} // verus!
