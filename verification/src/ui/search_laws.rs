//! Laws of the search: which lines a search lists, with which spans, and where
//! it leads, told from the query, the two switches and the lines.

use vstd::prelude::*;

use crate::pattern;
use crate::search;
use crate::search::LineMatchesView;
use crate::text;
use crate::types::LineNumber;
use crate::types::MatchSpan;
use crate::ui::app::AppView;
use crate::ui::app_search;
use crate::ui::flags::AppFlag;

verus! {

/// The pattern of a search, put together from two parts that do not depend on
/// each other: a prefix exactly if the search is not case sensitive, and the
/// query, as it is exactly if it is a regular expression.
pub proof fn law_pattern(v: AppView)
    ensures
        v.pattern() == (if v.flags.contains(AppFlag::IsCaseSensitive) {
            Seq::<char>::empty()
        } else {
            "(?i)"@
        }) + (if v.flags.contains(AppFlag::IsUsingRegex) {
            v.query
        } else {
            pattern::escaped(v.query)
        }),
{
    assert(Seq::<char>::empty() + v.query =~= v.query);
    assert(Seq::<char>::empty() + pattern::escaped(v.query) =~= pattern::escaped(v.query));
}

/// Whether matches are the spans of each line that has any, under the number of
/// the line, from top to bottom.
pub open spec fn lists_matches(
    p: Seq<char>,
    lines: Seq<Seq<char>>,
    line_offset: int,
    found: Seq<LineMatchesView>,
) -> bool {
    &&& forall|i: int|
        0 <= i < found.len() ==> {
            &&& 0 <= (#[trigger] found[i]).line - line_offset < lines.len()
            &&& found[i].spans == pattern::regex_spans(p, lines[found[i].line - line_offset])
            &&& found[i].spans.len() > 0
        }
    &&& forall|i: int, j: int|
        0 <= i < j < found.len() ==> (#[trigger] found[i]).line < (#[trigger] found[j]).line
    &&& forall|n: int|
        0 <= n < lines.len() && pattern::regex_spans(p, #[trigger] lines[n]).len() > 0
            ==> search::has_line(found, line_offset + n)
}

/// The matches of a list of lines are the spans of each line that has any, under
/// the number of the line, from top to bottom.
pub proof fn law_matches(p: Seq<char>, lines: Seq<Seq<char>>, line_offset: int)
    requires
        0 <= line_offset,
        line_offset + lines.len() <= usize::MAX,
    ensures
        lists_matches(p, lines, line_offset, search::matches_in(p, lines, line_offset)),
    decreases lines.len(),
{
    if lines.len() > 0 {
        let shorter = lines.drop_last();
        law_matches(p, shorter, line_offset);
        let before = search::matches_in(p, shorter, line_offset);
        let found = search::matches_in(p, lines, line_offset);
        assert forall|i: int| 0 <= i < found.len() implies {
            &&& 0 <= (#[trigger] found[i]).line - line_offset < lines.len()
            &&& found[i].spans == pattern::regex_spans(p, lines[found[i].line - line_offset])
            &&& found[i].spans.len() > 0
        } by {
            if i < before.len() {
                assert(found[i] == before[i]);
            }
        }
        assert forall|i: int, j: int| 0 <= i < j < found.len() implies (#[trigger] found[i]).line < (
        #[trigger] found[j]).line by {
            assert(found[i] == before[i]);
            if j < before.len() {
                assert(found[j] == before[j]);
            }
        }
        assert forall|n: int|
            0 <= n < lines.len() && pattern::regex_spans(
                p,
                #[trigger] lines[n],
            ).len() > 0 implies search::has_line(found, line_offset + n) by {
            if n < shorter.len() {
                assert(shorter[n] == lines[n]);
                let i = choose|i: int|
                    0 <= i < before.len() && (#[trigger] before[i]).line == line_offset + n;
                assert(found[i].line == line_offset + n);
            } else {
                assert(found[before.len() as int].line == line_offset + n);
            }
        }
    }
}

/// Whether the lists of a reader hold given matches: their lines in order, and
/// for each of these lines its spans.
pub open spec fn holds_matches(
    found: Seq<LineMatchesView>,
    match_lines: Seq<LineNumber>,
    matches: Map<LineNumber, Seq<MatchSpan>>,
) -> bool {
    &&& match_lines.len() == found.len()
    &&& forall|i: int| 0 <= i < found.len() ==> #[trigger] match_lines[i] == found[i].line
    &&& forall|i: int|
        0 <= i < found.len() ==> matches.contains_key((#[trigger] found[i]).line as LineNumber)
            && matches[found[i].line as LineNumber] == found[i].spans
    &&& forall|line: LineNumber| #[trigger]
        matches.contains_key(line) ==> search::has_line(found, line as int)
}

proof fn lemma_holds_matches(found: Seq<LineMatchesView>)
    requires
        forall|i: int|
            0 <= i < found.len() ==> 0 <= (#[trigger] found[i]).line <= usize::MAX,
        forall|i: int, j: int|
            0 <= i < j < found.len() ==> (#[trigger] found[i]).line < (#[trigger] found[j]).line,
    ensures
        holds_matches(
            found,
            app_search::line_numbers(found),
            app_search::spans_by_line(found),
        ),
{
    let matches = app_search::spans_by_line(found);
    assert forall|i: int| 0 <= i < found.len() implies matches.contains_key(
        (#[trigger] found[i]).line as LineNumber,
    ) && matches[found[i].line as LineNumber] == found[i].spans by {
        let line = found[i].line as LineNumber;
        assert(search::has_line(found, line as int));
        let k = app_search::lemma_spans_of_line(found, line);
        if k < i {
            assert(found[k].line < found[i].line);
        } else if i < k {
            assert(found[i].line < found[k].line);
        }
    }
}

/// Showing given matches lists their lines in order with their spans, and goes
/// to the first of them from the scroll position on. It stays where it is if all
/// of them stand above. Without matches it leaves the message; with some it
/// takes the message away.
pub proof fn law_results_shown(v: AppView, found: Seq<LineMatchesView>)
    requires
        forall|i: int|
            0 <= i < found.len() ==> 0 <= (#[trigger] found[i]).line <= usize::MAX,
        forall|i: int, j: int|
            0 <= i < j < found.len() ==> (#[trigger] found[i]).line < (#[trigger] found[j]).line,
    ensures
        ({
            let w = v.results_shown(found);
            let n = found.len() as int;
            &&& w == (AppView {
                match_lines: w.match_lines,
                matches: w.matches,
                match_index: w.match_index,
                scroll: w.scroll,
                flags: w.flags,
                ..v
            })
            &&& holds_matches(found, w.match_lines, w.matches)
            &&& forall|flag: AppFlag| #[trigger]
                w.flags.contains(flag) == (if flag == AppFlag::HasNoResults {
                    n == 0
                } else {
                    v.flags.contains(flag)
                })
            &&& n == 0 ==> w.scroll == v.scroll && w.match_index == v.match_index
            &&& n > 0 && found[n - 1].line < v.scroll ==> w.scroll == v.scroll && w.match_index
                == n
            &&& forall|i: int|
                0 <= i < n && (#[trigger] found[i]).line >= v.scroll && (i > 0 ==> found[i - 1].line
                    < v.scroll) ==> w.scroll == found[i].line && w.match_index == i
        }),
{
    let w = v.results_shown(found);
    let n = found.len() as int;
    let numbers = app_search::line_numbers(found);
    let at = app_search::at_or_after(v.scroll);
    assert(w.match_lines == numbers);
    assert(w.matches == app_search::spans_by_line(found));
    lemma_holds_matches(found);
    if n > 0 && found[n - 1].line < v.scroll {
        assert forall|j: int| 0 <= j < n implies !at(#[trigger] numbers[j]) by {
            if j < n - 1 {
                assert(found[j].line < found[n - 1].line);
            }
        }
        text::lemma_find_from_is(numbers, 0, at, n);
    }
    assert forall|i: int|
        0 <= i < n && (#[trigger] found[i]).line >= v.scroll && (i > 0 ==> found[i - 1].line
            < v.scroll) implies w.scroll == found[i].line && w.match_index == i by {
        assert forall|j: int| 0 <= j < i implies !at(#[trigger] numbers[j]) by {
            if j < i - 1 {
                assert(found[j].line < found[i - 1].line);
            }
        }
        assert(at(numbers[i]));
        text::lemma_find_from_is(numbers, 0, at, i);
    }
}

/// Whether results are those of a pattern in a list of lines: the lines in which
/// it has a match, in ascending order, each with all its matches.
pub open spec fn are_results(
    p: Seq<char>,
    lines: Seq<Seq<char>>,
    match_lines: Seq<LineNumber>,
    matches: Map<LineNumber, Seq<MatchSpan>>,
) -> bool {
    &&& forall|i: int, j: int|
        0 <= i < j < match_lines.len() ==> #[trigger] match_lines[i] < #[trigger] match_lines[j]
    &&& forall|line: LineNumber| #[trigger]
        match_lines.contains(line) <==> line < lines.len() && pattern::regex_spans(
            p,
            lines[line as int],
        ).len() > 0
    &&& forall|line: LineNumber| #[trigger]
        matches.contains_key(line) <==> match_lines.contains(line)
    &&& forall|line: LineNumber| #[trigger]
        matches.contains_key(line) ==> matches[line] == pattern::regex_spans(
            p,
            lines[line as int],
        )
}

/// What a search finds: all matches of the pattern that the query and the two
/// switches make. The prefix that ignores case stands in front of a regular
/// expression as well as of a literal query. A query that is empty or no pattern
/// finds nothing.
pub proof fn law_search(v: AppView)
    requires
        v.lines().len() <= usize::MAX,
    ensures
        ({
            let w = v.searched();
            let p = (if v.flags.contains(AppFlag::IsCaseSensitive) {
                Seq::<char>::empty()
            } else {
                "(?i)"@
            }) + (if v.flags.contains(AppFlag::IsUsingRegex) {
                v.query
            } else {
                pattern::escaped(v.query)
            });
            let compiles = pattern::regex_compiles_with(p, usize::BITS as nat);
            &&& v.query.len() > 0 && compiles ==> are_results(
                p,
                v.lines(),
                w.match_lines,
                w.matches,
            )
            &&& v.query.len() == 0 || !compiles ==> w.match_lines.len() == 0 && w.matches
                == Map::<LineNumber, Seq<MatchSpan>>::empty()
            &&& w.match_lines.len() == 0 ==> w.scroll == v.scroll && w.match_index == v.match_index
            &&& v.query.len() == 0 ==> w.flags == v.flags
            &&& v.query.len() > 0 ==> forall|flag: AppFlag| #[trigger]
                w.flags.contains(flag) == (if flag == AppFlag::HasNoResults {
                    w.match_lines.len() == 0
                } else {
                    v.flags.contains(flag)
                })
            &&& w == (AppView {
                match_lines: w.match_lines,
                matches: w.matches,
                match_index: w.match_index,
                scroll: w.scroll,
                flags: w.flags,
                ..v
            })
        }),
{
    law_pattern(v);
    let p = v.pattern();
    if v.query.len() > 0 && pattern::regex_compiles(p) {
        lemma_compiled_search(v);
    }
}

proof fn lemma_compiled_search(v: AppView)
    requires
        v.lines().len() <= usize::MAX,
        v.query.len() > 0,
        pattern::regex_compiles(v.pattern()),
    ensures
        ({
            let w = v.searched();
            &&& are_results(v.pattern(), v.lines(), w.match_lines, w.matches)
            &&& w.match_lines.len() == 0 ==> w.scroll == v.scroll && w.match_index == v.match_index
            &&& forall|flag: AppFlag| #[trigger]
                w.flags.contains(flag) == (if flag == AppFlag::HasNoResults {
                    w.match_lines.len() == 0
                } else {
                    v.flags.contains(flag)
                })
            &&& w == (AppView {
                match_lines: w.match_lines,
                matches: w.matches,
                match_index: w.match_index,
                scroll: w.scroll,
                flags: w.flags,
                ..v
            })
        }),
{
    let p = v.pattern();
    let w = v.searched();
    let found = search::matches_in(p, v.lines(), 0);
    law_matches(p, v.lines(), 0);
    assert forall|i: int| 0 <= i < found.len() implies 0 <= (#[trigger] found[i]).line
        <= usize::MAX by {
        assert(found[i].line - 0 < v.lines().len());
    }
    law_results_shown(v.results_cleared(), found);
    lemma_are_results(p, v.lines(), found, w.match_lines, w.matches);
}

proof fn lemma_are_results(
    p: Seq<char>,
    lines: Seq<Seq<char>>,
    found: Seq<LineMatchesView>,
    match_lines: Seq<LineNumber>,
    matches: Map<LineNumber, Seq<MatchSpan>>,
)
    requires
        lines.len() <= usize::MAX,
        lists_matches(p, lines, 0, found),
        holds_matches(found, match_lines, matches),
    ensures
        are_results(p, lines, match_lines, matches),
{
    assert forall|line: LineNumber| #[trigger]
        match_lines.contains(line) <==> line < lines.len() && pattern::regex_spans(
            p,
            lines[line as int],
        ).len() > 0 by {
        if match_lines.contains(line) {
            let i = choose|i: int| 0 <= i < match_lines.len() && match_lines[i] == line;
            assert(found[i].line == line);
        }
        if line < lines.len() && pattern::regex_spans(p, lines[line as int]).len() > 0 {
            assert(search::has_line(found, 0 + line as int));
            let i = choose|i: int| 0 <= i < found.len() && (#[trigger] found[i]).line == line as int;
            assert(match_lines[i] == line);
        }
    }
    assert forall|line: LineNumber| #[trigger]
        matches.contains_key(line) <==> match_lines.contains(line) by {
        if matches.contains_key(line) {
            let i = choose|i: int| 0 <= i < found.len() && (#[trigger] found[i]).line == line as int;
            assert(match_lines[i] == line);
        }
        if match_lines.contains(line) {
            let i = choose|i: int| 0 <= i < match_lines.len() && match_lines[i] == line;
            assert(matches.contains_key(found[i].line as LineNumber));
        }
    }
    assert forall|line: LineNumber| #[trigger]
        matches.contains_key(line) implies matches[line] == pattern::regex_spans(
        p,
        lines[line as int],
    ) by {
        let i = choose|i: int| 0 <= i < found.len() && (#[trigger] found[i]).line == line as int;
        assert(matches[found[i].line as LineNumber] == found[i].spans);
    }
    assert forall|i: int, j: int| 0 <= i < j < match_lines.len() implies #[trigger] match_lines[i]
        < #[trigger] match_lines[j] by {
        assert(found[i].line < found[j].line);
    }
}

/// What a search does before it looks at the document: it takes the previous
/// results away, and where the query is no pattern it leaves the message. Nothing
/// else changes.
pub proof fn law_search_start(v: AppView, flag: AppFlag)
    ensures
        v.results_cleared() == (AppView {
            match_lines: Seq::<LineNumber>::empty(),
            matches: Map::<LineNumber, Seq<MatchSpan>>::empty(),
            ..v
        }),
        v.nothing_found() == (AppView { flags: v.nothing_found().flags, ..v }),
        v.nothing_found().flags.contains(flag) == (v.flags.contains(flag) || flag
            == AppFlag::HasNoResults),
{
}

/// Where a search leads: to its first result from the scroll position on. It
/// stays where all results stand above.
pub proof fn law_search_leads(v: AppView, i: int)
    requires
        v.lines().len() <= usize::MAX,
        0 <= i < v.searched().match_lines.len(),
    ensures
        ({
            let w = v.searched();
            let n = w.match_lines.len() as int;
            &&& w.match_lines[i] >= v.scroll && (i > 0 ==> w.match_lines[i - 1] < v.scroll)
                ==> w.scroll == w.match_lines[i] && w.match_index == i
            &&& w.match_lines[n - 1] < v.scroll ==> w.scroll == v.scroll && w.match_index == n
        }),
{
    let p = v.pattern();
    let found = search::matches_in(p, v.lines(), 0);
    let w = v.searched();
    assert(v.query.len() > 0 && pattern::regex_compiles(p));
    law_matches(p, v.lines(), 0);
    law_results_shown(v.results_cleared(), found);
    let n = w.match_lines.len() as int;
    assert(w.match_lines[i] == found[i].line);
    assert(w.match_lines[n - 1] == found[n - 1].line);
    if i > 0 {
        assert(w.match_lines[i - 1] == found[i - 1].line);
    }
}

/// The chunks of a document follow one another from its first line to its last,
/// none of them empty and none larger than any before it.
pub proof fn law_chunks(total_lines: nat, size: nat, chunks: Seq<(LineNumber, LineNumber)>, i: int)
    requires
        search::is_chunking(total_lines, size, chunks),
        0 <= i < chunks.len(),
    ensures
        chunks[0].0 == 0,
        chunks[chunks.len() - 1].1 == total_lines,
        chunks[i].0 < chunks[i].1 <= total_lines,
        chunks[i].1 - chunks[i].0 <= size,
        i + 1 < chunks.len() ==> chunks[i].1 == chunks[i + 1].0 && chunks[i].1 - chunks[i].0
            == size,
{
    assert(chunks[0].0 == 0) by (nonlinear_arith)
        requires
            chunks[0].0 == 0 * size,
    ;
    assert((i + 1) * size == i * size + size) by (nonlinear_arith);
    if i + 1 < chunks.len() {
        assert(chunks[i + 1].0 == (i + 1) * size);
        assert(chunks[i + 1].0 < chunks[i + 1].1);
    }
}

/// The size of the chunks is the least with which the workers come through the
/// document.
pub proof fn law_chunk_size(total_lines: nat, worker_count: nat)
    requires
        total_lines > 0,
        worker_count > 0,
    ensures
        search::chunk_size(total_lines, worker_count) * worker_count >= total_lines,
        (search::chunk_size(total_lines, worker_count) - 1) * worker_count < total_lines,
{
    let size = search::chunk_size(total_lines, worker_count) as int;
    let w = worker_count as int;
    let sum = total_lines + worker_count - 1;
    vstd::arithmetic::div_mod::lemma_fundamental_div_mod(sum, w);
    let rest = sum % w;
    assert(size * w >= total_lines) by (nonlinear_arith)
        requires
            sum == w * size + rest,
            rest <= w - 1,
            sum == total_lines + w - 1,
    ;
    assert((size - 1) * w < total_lines) by (nonlinear_arith)
        requires
            sum == w * size + rest,
            rest >= 0,
            sum == total_lines + w - 1,
    ;
}

/// The number of workers is the lesser of what there is and what the document is
/// worth: one for every two hundred and fifty lines, but at least one.
pub proof fn law_workers(total_lines: nat, available_workers: nat)
    ensures
        ({
            let workers = search::useful_workers(total_lines, available_workers);
            let worth = if total_lines / 250 > 1 {
                total_lines / 250
            } else {
                1
            };
            workers == (if available_workers < worth {
                available_workers
            } else {
                worth
            })
        }),
{
}

} // verus!
