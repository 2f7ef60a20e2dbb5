//! The text of the document as it is shown, with titles and matches highlighted.

use vstd::prelude::*;

use crate::text;
use crate::types::LineNumber;
use crate::types::MatchSpan;
use crate::ui::app::App;
use crate::ui::app::AppMode;
use crate::ui::app::AppView;
use crate::ui::highlight;
use crate::ui::highlight::SpanStyle;
use crate::ui::highlight::StyledSpan;
use crate::ui::highlight::StyledSpanView;
use crate::ui::toc_panel;

verus! {

broadcast use vstd::std_specs::hash::group_hash_axioms;

impl AppView {
    /// Whether matches are highlighted: they are hidden while a query is typed.
    pub open spec fn shows_matches(self) -> bool {
        !(self.mode is Search) && self.has_search_results()
    }

    /// Whether line `n` is the title of a section.
    pub open spec fn is_title(self, n: int) -> bool {
        toc_panel::has_entry_at(self.toc.entries, n)
    }

    /// The pieces of line `n` on the screen.
    pub open spec fn shown_line(self, n: int) -> Seq<StyledSpanView> {
        if self.shows_matches() && self.matches.contains_key(n as LineNumber) {
            highlight::highlighted(
                self.lines()[n],
                self.matches[n as LineNumber],
                self.is_title(n),
            )
        } else {
            seq![
                StyledSpanView {
                    text: self.lines()[n],
                    style: highlight::base_style(self.is_title(n)),
                },
            ]
        }
    }
}

/// Builds one line of the document, given its matches, if these are to be
/// highlighted, and whether it is a title.
pub fn build_line<'a>(
    line_str: &'a str,
    matches: Option<&Vec<MatchSpan>>,
    is_title: bool,
) -> (r: Vec<StyledSpan<'a>>)
    ensures
        highlight::span_views(r@) == (match matches {
            Some(spans) => highlight::highlighted(line_str@, spans@, is_title),
            None => seq![
                StyledSpanView { text: line_str@, style: highlight::base_style(is_title) },
            ],
        }),
{
    match matches {
        Some(spans) => highlight::build_line_with_search_and_title_highlights(
            line_str,
            spans.as_slice(),
            is_title,
        ),
        None => {
            let style = if is_title {
                SpanStyle::Title
            } else {
                SpanStyle::Plain
            };
            let mut pieces: Vec<StyledSpan<'a>> = Vec::new();
            pieces.push(StyledSpan { text: line_str, style });
            assert(highlight::span_views(pieces@) =~= seq![
                StyledSpanView { text: line_str@, style },
            ]);
            pieces
        },
    }
}

impl App {
    /// Builds the text of the document with highlighting for search matches and
    /// titles.
    pub fn build_text(&self) -> (r: Vec<Vec<StyledSpan<'_>>>)
        ensures
            r@.len() == self@.lines().len(),
            forall|n: int|
                0 <= n < r@.len() ==> highlight::span_views(#[trigger] r@[n]@) == self@.shown_line(
                    n,
                ),
    {
        let should_show_search_highlights = self.mode != AppMode::Search
            && self.has_search_results();
        let lines = text::lines(self.rfc_content.as_str());
        let total: usize = lines.len();
        let mut out: Vec<Vec<StyledSpan<'_>>> = Vec::new();
        let mut n: usize = 0;
        assert(text::views(lines@).len() == total);
        while n < total
            invariant
                text::views(lines@) == self@.lines(),
                total == lines@.len(),
                should_show_search_highlights == self@.shows_matches(),
                n <= total,
                out@.len() == n,
                forall|i: int|
                    0 <= i < n ==> highlight::span_views(#[trigger] out@[i]@) == self@.shown_line(
                        i,
                    ),
            decreases total - n,
        {
            let is_title = self.rfc_toc_panel.is_title_line(n);
            let matches: Option<&Vec<MatchSpan>> = if should_show_search_highlights {
                self.query_matches.get(&n)
            } else {
                None
            };
            let line_str = lines[n];
            assert(line_str@ == self@.lines()[n as int]);
            let pieces = build_line(line_str, matches, is_title);
            assert(highlight::span_views(pieces@) == self@.shown_line(n as int));
            out.push(pieces);
            n = n + 1;
        }
        out
    }
}

/// The screen loses no text: the pieces of every line together are the line.
/// While no query is typed and there are results of one, the characters within
/// the matches of a line are shown as matches, and no others ever are. The rest
/// are shown as titles exactly in the lines that an entry stands for. Nothing
/// else of the state plays a part.
pub proof fn law_shown_text(v: AppView, n: int)
    requires
        v.wf(),
        0 <= n < v.lines().len(),
        v.lines().len() <= usize::MAX,
    ensures
        highlight::joined_text(v.shown_line(n)) == v.lines()[n],
        highlight::joined_styles(v.shown_line(n)).len() == v.lines()[n].len(),
        forall|k: int|
            0 <= k < v.lines()[n].len() ==> (#[trigger] highlight::joined_styles(
                v.shown_line(n),
            )[k]) == (if !(v.mode is Search) && v.query.len() > 0 && v.match_lines.len() > 0
                && v.match_lines.contains(n as LineNumber) && highlight::in_match(
                v.lines()[n],
                v.matches[n as LineNumber],
                v.matches[n as LineNumber].len() as int,
                k,
            ) {
                SpanStyle::Match
            } else if exists|i: int|
                0 <= i < v.toc.entries.len() && (#[trigger] v.toc.entries[i]).line_number == n {
                SpanStyle::Title
            } else {
                SpanStyle::Plain
            }),
{
    let line = v.lines()[n];
    let pieces = v.shown_line(n);
    assert(v.matches.contains_key(n as LineNumber) <==> v.match_lines.contains(n as LineNumber));
    if !(v.mode is Search) && v.query.len() > 0 && v.match_lines.contains(n as LineNumber) {
        assert(v.match_lines.len() > 0);
        highlight::law_highlighting(line, v.matches[n as LineNumber], v.is_title(n));
    } else {
        assert(pieces.drop_last() =~= Seq::empty());
        assert(highlight::joined_text(pieces.drop_last()) =~= Seq::empty());
        assert(highlight::joined_styles(pieces.drop_last()) =~= Seq::empty());
        assert(highlight::joined_text(pieces) =~= line);
        assert(highlight::joined_styles(pieces) =~= Seq::new(
            line.len(),
            |i: int| pieces.last().style,
        ));
    }
}

/// What is shown of a line depends on neither the flags, the scroll position, the
/// selected entry nor the current result: showing or hiding the panel, scrolling
/// and walking through the results leave the text as it is.
pub proof fn law_shown_text_stays(v: AppView, w: AppView, n: int)
    requires
        w.content == v.content,
        w.toc.entries == v.toc.entries,
        w.mode == v.mode,
        w.query == v.query,
        w.match_lines == v.match_lines,
        w.matches == v.matches,
    ensures
        w.shown_line(n) == v.shown_line(n),
{
}

} // verus!
