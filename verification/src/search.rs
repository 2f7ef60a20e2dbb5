//! Searching a document: compiling the query, and collecting the matches line
//! by line, in one pass or in chunks.

use vstd::prelude::*;

use crate::pattern;
use crate::pattern::Pattern;
use crate::text;
use crate::types::LineNumber;
use crate::types::MatchSpan;

verus! {

/// Minimum number of lines before search work is spread over workers.
pub const MIN_LINES_FOR_PARALLEL_SEARCH: usize = 1500;

/// Minimum number of lines each worker should handle.
pub const PARALLEL_SEARCH_MIN_LINES_PER_WORKER: usize = 250;

/// The matches of one line, and the number of that line.
pub type LineMatches = (LineNumber, Vec<MatchSpan>);

/// The pattern that a query is searched with: the query itself or its escaped
/// form, with a prefix that switches case sensitivity off.
pub open spec fn query_pattern(
    query: Seq<char>,
    is_case_sensitive: bool,
    is_regex: bool,
) -> Seq<char> {
    if !is_regex {
        pattern::literal_pattern(query, !is_case_sensitive)
    } else if is_case_sensitive {
        query
    } else {
        pattern::CASE_PREFIX@ + query
    }
}

/// Writes the pattern that a query is searched with.
pub fn query_pattern_text(query: &str, is_case_sensitive: bool, is_regex: bool) -> (r: String)
    ensures
        r@ == query_pattern(query@, is_case_sensitive, is_regex),
{
    let body: String = if is_regex {
        query.to_owned()
    } else {
        regex::escape(query)
    };
    if is_case_sensitive {
        body
    } else {
        let mut out = pattern::CASE_PREFIX.to_owned();
        out.append(body.as_str());
        out
    }
}

/// Compiles a query, and gives `None` where it is no valid pattern.
pub fn get_compiled_regex(query: &str, is_case_sensitive: bool, is_regex: bool) -> (r: Option<
    Pattern,
>)
    ensures
        r is Some == pattern::regex_compiles(
            query_pattern(query@, is_case_sensitive, is_regex),
        ),
        r matches Some(p) ==> p@ == query_pattern(query@, is_case_sensitive, is_regex),
        !is_regex && query@.len() <= pattern::MAX_SURE_LITERAL ==> r is Some,
{
    let pattern_text = query_pattern_text(query, is_case_sensitive, is_regex);
    let r = Pattern::compile(pattern_text.as_str());
    assert(!is_regex && query@.len() <= pattern::MAX_SURE_LITERAL ==> r is Some) by {
        if !is_regex {
            assert(pattern::literal_pattern(query@, !is_case_sensitive) == pattern_text@);
        }
    }
    r
}

/// How the matches of a query are collected.
#[derive(Debug, Clone, Copy, PartialEq, Eq, Structural)]
pub enum SearchStrategy {
    /// Process the lines on a single thread.
    Serial,
    /// Process the lines in chunks, each on a worker of its own.
    Parallel {
        /// Number of workers to spawn.
        worker_count: usize,
    },
}

/// Number of workers for a document: as many as there are, but none with fewer
/// lines than it is worth.
pub open spec fn useful_workers(total_lines: nat, available_workers: nat) -> nat {
    let by_lines = total_lines / (PARALLEL_SEARCH_MIN_LINES_PER_WORKER as nat);
    let limited = if by_lines < 1 {
        1
    } else {
        by_lines
    };
    if available_workers < limited {
        available_workers
    } else {
        limited
    }
}

/// Decides whether a search runs serially or in parallel. `available_workers`
/// is what the machine offers, if that is known.
pub fn determine_search_strategy(total_lines: usize, available_workers: Option<usize>) -> (r:
    SearchStrategy)
    ensures
        r == (match available_workers {
            Some(n) if total_lines >= MIN_LINES_FOR_PARALLEL_SEARCH && useful_workers(
                total_lines as nat,
                n as nat,
            ) > 1 => SearchStrategy::Parallel {
                worker_count: useful_workers(total_lines as nat, n as nat) as usize,
            },
            _ => SearchStrategy::Serial,
        }),
{
    if total_lines < MIN_LINES_FOR_PARALLEL_SEARCH {
        return SearchStrategy::Serial;
    }
    let available: usize = match available_workers {
        Some(n) => n,
        None => {
            return SearchStrategy::Serial;
        },
    };
    let by_lines: usize = total_lines / PARALLEL_SEARCH_MIN_LINES_PER_WORKER;
    let limited: usize = if by_lines < 1 {
        1
    } else {
        by_lines
    };
    let worker_count: usize = if available < limited {
        available
    } else {
        limited
    };
    if worker_count <= 1 {
        SearchStrategy::Serial
    } else {
        SearchStrategy::Parallel { worker_count }
    }
}

/// The sum of two line numbers, but not more than a line number holds.
pub open spec fn shifted(line_offset: int, index: int) -> int {
    if line_offset + index <= usize::MAX {
        line_offset + index
    } else {
        usize::MAX as int
    }
}

/// The matches of one line as a mathematical value.
#[verifier::ext_equal]
pub struct LineMatchesView {
    pub line: int,
    pub spans: Seq<MatchSpan>,
}

/// The matches of a list of lines as mathematical values.
pub open spec fn match_views(matches: Seq<LineMatches>) -> Seq<LineMatchesView> {
    Seq::new(
        matches.len(),
        |i: int| LineMatchesView { line: matches[i].0 as int, spans: matches[i].1@ },
    )
}

/// The matches of a pattern in a list of lines, the first of which has number
/// `line_offset`. Lines without a match are left out.
pub open spec fn matches_in(
    p: Seq<char>,
    lines: Seq<Seq<char>>,
    line_offset: int,
) -> Seq<LineMatchesView>
    decreases lines.len(),
{
    if lines.len() == 0 {
        Seq::empty()
    } else {
        let before = matches_in(p, lines.drop_last(), line_offset);
        let spans = pattern::regex_spans(p, lines.last());
        if spans.len() == 0 {
            before
        } else {
            before.push(
                LineMatchesView { line: shifted(line_offset, lines.len() - 1), spans },
            )
        }
    }
}

/// Matches in ascending order of their lines, each with at least one span and
/// with spans that fit its line. The first of `lines` has number `line_offset`.
pub open spec fn fits_document(
    lines: Seq<Seq<char>>,
    line_offset: int,
    matches: Seq<LineMatchesView>,
) -> bool {
    &&& forall|i: int|
        0 <= i < matches.len() ==> {
            &&& line_offset <= (#[trigger] matches[i]).line < line_offset + lines.len()
            &&& matches[i].spans.len() > 0
            &&& pattern::spans_in_order(lines[matches[i].line - line_offset], matches[i].spans)
        }
    &&& forall|i: int, j: int|
        0 <= i < j < matches.len() ==> (#[trigger] matches[i]).line < (#[trigger] matches[j]).line
}

/// Whether a line is among the matches.
pub open spec fn has_line(matches: Seq<LineMatchesView>, line: int) -> bool {
    exists|i: int| 0 <= i < matches.len() && (#[trigger] matches[i]).line == line
}

/// Matches of a literal text: a line is listed if and only if it holds the text,
/// each span covers the text, and every place of a listed line where the text
/// stands meets a span. Where case is ignored this is said of ASCII lines.
pub open spec fn finds_literal(
    lines: Seq<Seq<char>>,
    line_offset: int,
    matches: Seq<LineMatchesView>,
    literal: Seq<char>,
    ignores_case: bool,
) -> bool {
    &&& forall|n: int|
        0 <= n < lines.len() && pattern::is_comparable(#[trigger] lines[n], ignores_case) ==> (
        has_line(matches, line_offset + n) <==> pattern::holds_literal(
            lines[n],
            literal,
            ignores_case,
        ))
    &&& forall|i: int, k: int|
        0 <= i < matches.len() && 0 <= k < matches[i].spans.len() && pattern::is_comparable(
            lines[matches[i].line - line_offset],
            ignores_case,
        ) ==> pattern::covers_literal(
            lines[matches[i].line - line_offset],
            #[trigger] matches[i].spans[k],
            literal,
            ignores_case,
        )
    &&& forall|i: int|
        0 <= i < matches.len() && pattern::is_comparable(
            lines[(#[trigger] matches[i]).line - line_offset],
            ignores_case,
        ) ==> pattern::meets_all_places(
            lines[matches[i].line - line_offset],
            matches[i].spans,
            literal,
            ignores_case,
        )
}

/// Whether a pattern is that of a literal text, which is an ASCII text where
/// case is ignored.
pub open spec fn is_pattern_of(p: Seq<char>, literal: Seq<char>, ignores_case: bool) -> bool {
    &&& pattern::literal_pattern(literal, ignores_case) == p
    &&& literal.len() > 0
    &&& pattern::is_comparable(literal, ignores_case)
}

/// Spans in the order of their starts.
pub open spec fn sorted_by_start(spans: Seq<MatchSpan>) -> bool {
    forall|i: int, j: int|
        0 <= i < j < spans.len() ==> (#[trigger] spans[i]).start <= (#[trigger] spans[j]).start
}

/// Sorts spans by their start with `sort_unstable_by_key`: the same spans, in
/// the order of their starts. In which order spans with equal starts come out
/// is open.
#[verifier::external_body]
fn sort_by_start(spans: &mut Vec<MatchSpan>)
    ensures
        sorted_by_start(final(spans)@),
        final(spans)@.to_multiset() == old(spans)@.to_multiset(),
{
    spans.sort_unstable_by_key(|span| span.start)
}

/// Adds the spans that were found in one line, in the order of their starts. A
/// line without a match adds nothing.
pub fn push_line_matches(
    results: &mut Vec<LineMatches>,
    line_number: LineNumber,
    found: Vec<MatchSpan>,
)
    ensures
        found@.len() == 0 ==> final(results)@ == old(results)@,
        found@.len() > 0 ==> {
            &&& final(results)@.len() == old(results)@.len() + 1
            &&& final(results)@.drop_last() == old(results)@
            &&& final(results)@.last().0 == line_number
            &&& sorted_by_start(final(results)@.last().1@)
            &&& final(results)@.last().1@.to_multiset() == found@.to_multiset()
        },
{
    let mut spans = found;
    if spans.is_empty() {
        return;
    }
    sort_by_start(&mut spans);
    results.push((line_number, spans));
    assert(results@.drop_last() =~= old(results)@);
}

/// Spans with different starts have only one order by start.
proof fn lemma_sorted_spans_unique(a: Seq<MatchSpan>, b: Seq<MatchSpan>)
    requires
        forall|i: int, j: int|
            0 <= i < j < a.len() ==> (#[trigger] a[i]).start < (#[trigger] a[j]).start,
        sorted_by_start(b),
        a.to_multiset() == b.to_multiset(),
    ensures
        a == b,
    decreases a.len(),
{
    a.to_multiset_ensures();
    b.to_multiset_ensures();
    if a.len() == 0 {
        assert(a =~= b);
    } else {
        let n = a.len() as int;
        let x = a[n - 1];
        let y = b[n - 1];
        assert(b.contains(x)) by {
            assert(a.contains(x));
            assert(a.to_multiset().contains(x));
        }
        assert(a.contains(y)) by {
            assert(b.contains(y));
            assert(b.to_multiset().contains(y));
        }
        let k = choose|k: int| 0 <= k < b.len() && b[k] == x;
        let m = choose|m: int| 0 <= m < a.len() && a[m] == y;
        assert(b[k].start <= y.start);
        assert(m == n - 1);
        assert(a =~= a.drop_last().push(x));
        assert(b =~= b.drop_last().push(x));
        assert(a.drop_last() =~= a.remove(n - 1));
        assert(b.drop_last() =~= b.remove(n - 1));
        lemma_sorted_spans_unique(a.drop_last(), b.drop_last());
    }
}

proof fn lemma_finds_literal_step(
    lines: Seq<Seq<char>>,
    line_offset: int,
    matches: Seq<LineMatchesView>,
    literal: Seq<char>,
    ignores_case: bool,
    line: Seq<char>,
    spans: Seq<MatchSpan>,
)
    requires
        finds_literal(lines, line_offset, matches, literal, ignores_case),
        fits_document(lines, line_offset, matches),
        pattern::is_comparable(line, ignores_case) ==> {
            &&& spans.len() > 0 <==> pattern::holds_literal(line, literal, ignores_case)
            &&& forall|k: int|
                0 <= k < spans.len() ==> pattern::covers_literal(
                    line,
                    #[trigger] spans[k],
                    literal,
                    ignores_case,
                )
            &&& pattern::meets_all_places(line, spans, literal, ignores_case)
        },
    ensures
        spans.len() == 0 ==> finds_literal(
            lines.push(line),
            line_offset,
            matches,
            literal,
            ignores_case,
        ),
        spans.len() > 0 ==> finds_literal(
            lines.push(line),
            line_offset,
            matches.push(LineMatchesView { line: line_offset + lines.len(), spans }),
            literal,
            ignores_case,
        ),
{
    let more = lines.push(line);
    let added = LineMatchesView { line: line_offset + lines.len(), spans };
    let after = if spans.len() == 0 {
        matches
    } else {
        matches.push(added)
    };
    assert forall|n: int|
        0 <= n < more.len() && pattern::is_comparable(
            #[trigger] more[n],
            ignores_case,
        ) implies (has_line(after, line_offset + n) <==> pattern::holds_literal(
        more[n],
        literal,
        ignores_case,
    )) by {
        if n < lines.len() {
            assert(more[n] == lines[n]);
            if has_line(matches, line_offset + n) {
                let i = choose|i: int|
                    0 <= i < matches.len() && (#[trigger] matches[i]).line == line_offset + n;
                assert(after[i].line == line_offset + n);
            }
            if has_line(after, line_offset + n) {
                let i = choose|i: int|
                    0 <= i < after.len() && (#[trigger] after[i]).line == line_offset + n;
                assert(matches[i].line == line_offset + n);
            }
        } else {
            if spans.len() > 0 {
                assert(after[matches.len() as int].line == line_offset + n);
            } else if has_line(after, line_offset + n) {
                let i = choose|i: int|
                    0 <= i < after.len() && (#[trigger] after[i]).line == line_offset + n;
                assert(matches[i].line < line_offset + lines.len());
            }
        }
    }
    assert forall|i: int, k: int|
        0 <= i < after.len() && 0 <= k < after[i].spans.len() && pattern::is_comparable(
            more[after[i].line - line_offset],
            ignores_case,
        ) implies pattern::covers_literal(
        more[after[i].line - line_offset],
        #[trigger] after[i].spans[k],
        literal,
        ignores_case,
    ) by {
        if i < matches.len() {
            assert(after[i] == matches[i]);
            assert(matches[i].line < line_offset + lines.len());
            assert(matches[i].spans[k] == after[i].spans[k]);
        }
    }
    assert forall|i: int|
        0 <= i < after.len() && pattern::is_comparable(
            more[(#[trigger] after[i]).line - line_offset],
            ignores_case,
        ) implies pattern::meets_all_places(
        more[after[i].line - line_offset],
        after[i].spans,
        literal,
        ignores_case,
    ) by {
        if i < matches.len() {
            assert(after[i] == matches[i]);
            assert(matches[i].line < line_offset + lines.len());
        }
    }
}

/// Collects the matches of a pattern in a list of lines in a single pass. The
/// first line has number `line_offset`.
pub fn collect_search_matches_serial(
    regex: &Pattern,
    lines: &[&str],
    line_offset: LineNumber,
) -> (r: Vec<LineMatches>)
    ensures
        match_views(r@) == matches_in(regex@, text::views(lines@), line_offset as int),
        line_offset + lines@.len() <= usize::MAX ==> fits_document(
            text::views(lines@),
            line_offset as int,
            match_views(r@),
        ),
        line_offset + lines@.len() <= usize::MAX ==> forall|literal: Seq<char>, ignores_case: bool|
            is_pattern_of(regex@, literal, ignores_case) ==> #[trigger] finds_literal(
                text::views(lines@),
                line_offset as int,
                match_views(r@),
                literal,
                ignores_case,
            ),
{
    let ghost all = text::views(lines@);
    let mut results: Vec<LineMatches> = Vec::new();
    let total: usize = lines.len();
    let mut i: usize = 0;
    assert(match_views(results@) =~= matches_in(regex@, all.take(0), line_offset as int));
    while i < total
        invariant
            total == lines@.len(),
            all == text::views(lines@),
            i <= total,
            match_views(results@) == matches_in(regex@, all.take(i as int), line_offset as int),
            line_offset + total <= usize::MAX ==> fits_document(
                all.take(i as int),
                line_offset as int,
                match_views(results@),
            ),
            line_offset + total <= usize::MAX ==> forall|literal: Seq<char>, ignores_case: bool|
                is_pattern_of(regex@, literal, ignores_case) ==> #[trigger] finds_literal(
                    all.take(i as int),
                    line_offset as int,
                    match_views(results@),
                    literal,
                    ignores_case,
                ),
        decreases total - i,
    {
        let ghost before = results@;
        let found = regex.spans(lines[i]);
        let ghost spans = found@;
        let line_number: usize = line_offset.saturating_add(i);
        push_line_matches(&mut results, line_number, found);
        proof {
            let next = all.take(i + 1);
            assert(all[i as int] == lines@[i as int]@);
            assert(next.drop_last() =~= all.take(i as int));
            assert(next.last() == all[i as int]);
            if spans.len() > 0 {
                lemma_sorted_spans_unique(spans, results@.last().1@);
                assert(results@ =~= before.push(results@.last()));
                assert(match_views(results@) =~= match_views(before).push(
                    LineMatchesView { line: shifted(line_offset as int, i as int), spans },
                ));
            }
            if line_offset + total <= usize::MAX {
                assert forall|literal: Seq<char>, ignores_case: bool|
                    is_pattern_of(regex@, literal, ignores_case) implies #[trigger] finds_literal(
                    next,
                    line_offset as int,
                    match_views(results@),
                    literal,
                    ignores_case,
                ) by {
                    assert(finds_literal(
                        all.take(i as int),
                        line_offset as int,
                        match_views(before),
                        literal,
                        ignores_case,
                    ));
                    assert(pattern::literal_pattern(literal, ignores_case) == regex@);
                    lemma_finds_literal_step(
                        all.take(i as int),
                        line_offset as int,
                        match_views(before),
                        literal,
                        ignores_case,
                        all[i as int],
                        spans,
                    );
                    assert(next =~= all.take(i as int).push(all[i as int]));
                }
            }
        }
        i = i + 1;
    }
    assert(all.take(total as int) =~= all);
    results
}

/// Collects all matches of a pattern in a document.
pub fn collect_search_matches(regex: &Pattern, content: &str) -> (r: Vec<LineMatches>)
    ensures
        match_views(r@) == matches_in(regex@, text::lines_of(content@), 0),
        fits_document(text::lines_of(content@), 0, match_views(r@)),
        text::lines_of(content@).len() <= usize::MAX,
        forall|literal: Seq<char>, ignores_case: bool|
            is_pattern_of(regex@, literal, ignores_case) ==> #[trigger] finds_literal(
                text::lines_of(content@),
                0,
                match_views(r@),
                literal,
                ignores_case,
            ),
{
    let lines = text::lines(content);
    let total: usize = lines.len();
    assert(text::views(lines@).len() == total);
    collect_search_matches_serial(regex, lines.as_slice(), 0)
}

/// Number of lines in each chunk but the last, so that the chunks need no more
/// than `worker_count` workers.
pub open spec fn chunk_size(total_lines: nat, worker_count: nat) -> nat {
    (total_lines + worker_count - 1) as nat / worker_count
}

/// First line of a chunk.
pub open spec fn chunk_start(size: nat, index: int) -> int {
    index * size
}

/// Line behind the last line of a chunk.
pub open spec fn chunk_end(total_lines: nat, size: nat, index: int) -> int {
    if (index + 1) * size < total_lines {
        (index + 1) * size
    } else {
        total_lines as int
    }
}

/// Whether a list of line ranges cuts a document into chunks of a size.
pub open spec fn is_chunking(
    total_lines: nat,
    size: nat,
    chunks: Seq<(LineNumber, LineNumber)>,
) -> bool {
    &&& forall|i: int|
        0 <= i < chunks.len() ==> {
            &&& (#[trigger] chunks[i]).0 == chunk_start(size, i)
            &&& chunks[i].1 == chunk_end(total_lines, size, i)
            &&& chunks[i].0 < chunks[i].1
        }
    &&& chunks.len() > 0
    &&& chunks.last().1 == total_lines
}

/// Cuts a document into chunks of lines, at most one for each worker.
pub fn search_chunks(total_lines: usize, worker_count: usize) -> (r: Vec<(LineNumber, LineNumber)>)
    requires
        total_lines > 0,
        worker_count > 0,
    ensures
        is_chunking(
            total_lines as nat,
            chunk_size(total_lines as nat, worker_count as nat),
            r@,
        ),
        r@.len() <= worker_count,
{
    proof {
        lemma_div_ceil(total_lines as nat, worker_count as nat);
    }
    let quotient: usize = total_lines / worker_count;
    let size: usize = if total_lines % worker_count > 0 {
        quotient + 1
    } else {
        quotient
    };
    assert(chunk_start(size as nat, 0) == 0) by (nonlinear_arith);
    let mut chunks: Vec<(LineNumber, LineNumber)> = Vec::new();
    let mut start: usize = 0;
    while start < total_lines
        invariant
            0 < size <= total_lines,
            size == chunk_size(total_lines as nat, worker_count as nat),
            start <= total_lines,
            start < total_lines ==> start == chunk_start(size as nat, chunks@.len() as int),
            forall|i: int|
                0 <= i < chunks@.len() ==> {
                    &&& (#[trigger] chunks@[i]).0 == chunk_start(size as nat, i)
                    &&& chunks@[i].1 == chunk_end(total_lines as nat, size as nat, i)
                    &&& chunks@[i].0 < chunks@[i].1
                },
            chunks@.len() > 0 ==> chunks@.last().1 == start,
            chunks@.len() == 0 ==> start == 0,
        decreases total_lines - start,
    {
        let end: usize = if size < total_lines - start {
            start + size
        } else {
            total_lines
        };
        proof {
            let n = chunks@.len() as int;
            assert((n + 1) * size == n * size + size) by (nonlinear_arith);
        }
        chunks.push((start, end));
        start = end;
    }
    proof {
        let last = chunks@.len() - 1;
        assert(chunks@[last].0 == last * size);
        if chunks@.len() > worker_count {
            assert(last * size >= total_lines) by (nonlinear_arith)
                requires
                    last >= worker_count,
                    size * worker_count >= total_lines,
            ;
        }
    }
    chunks
}

proof fn lemma_div_ceil(total: nat, workers: nat)
    requires
        total > 0,
        workers > 0,
    ensures
        chunk_size(total, workers) == total / workers + (if total % workers > 0 {
            1nat
        } else {
            0nat
        }),
        0 < chunk_size(total, workers) <= total,
        chunk_size(total, workers) * workers >= total,
{
    let q = total / workers;
    let m = total % workers;
    vstd::arithmetic::div_mod::lemma_fundamental_div_mod(total as int, workers as int);
    let size = q + (if m > 0 {
        1nat
    } else {
        0nat
    });
    let rem = if m > 0 {
        m - 1
    } else {
        workers - 1
    };
    assert(total + workers - 1 == workers * size + rem) by (nonlinear_arith)
        requires
            total == workers * q + m,
            size == q + (if m > 0 {
                1nat
            } else {
                0nat
            }),
            rem == (if m > 0 {
                m - 1
            } else {
                workers - 1
            }),
    ;
    vstd::arithmetic::div_mod::lemma_fundamental_div_mod_converse(
        total + workers - 1,
        workers as int,
        size as int,
        rem,
    );
    assert(size * workers >= total) by (nonlinear_arith)
        requires
            total + workers - 1 == workers * size + rem,
            rem <= workers - 1,
    ;
    assert(0 < size) by (nonlinear_arith)
        requires
            size * workers >= total,
            total > 0,
    ;
    assert(size <= total) by (nonlinear_arith)
        requires
            total == workers * q + m,
            size == q + (if m > 0 {
                1nat
            } else {
                0nat
            }),
            workers >= 1,
            total > 0,
    ;
}

/// No more workers are used than there are, and each of them but the last gets
/// at least the number of lines that a worker should handle.
pub proof fn law_worker_load(total_lines: nat, available_workers: nat)
    requires
        total_lines >= MIN_LINES_FOR_PARALLEL_SEARCH,
        useful_workers(total_lines, available_workers) > 1,
    ensures
        useful_workers(total_lines, available_workers) <= available_workers,
        chunk_size(total_lines, useful_workers(total_lines, available_workers))
            >= PARALLEL_SEARCH_MIN_LINES_PER_WORKER,
{
    let workers = useful_workers(total_lines, available_workers);
    let size = chunk_size(total_lines, workers);
    let least = PARALLEL_SEARCH_MIN_LINES_PER_WORKER as nat;
    lemma_div_ceil(total_lines, workers);
    assert(workers * least <= total_lines);
    assert(size >= least) by (nonlinear_arith)
        requires
            size * workers >= total_lines,
            workers * least <= total_lines,
            workers > 0,
    ;
}

/// The matches of the first `count` chunks, one chunk after the other.
pub open spec fn joined(parts: Seq<Seq<LineMatchesView>>, count: int) -> Seq<LineMatchesView>
    decreases count,
{
    if count <= 0 {
        Seq::empty()
    } else {
        joined(parts, count - 1) + parts[count - 1]
    }
}

/// The matches that each worker has delivered.
pub open spec fn part_views(parts: Seq<Option<Vec<LineMatches>>>) -> Seq<Seq<LineMatchesView>> {
    Seq::new(parts.len(), |i: int| match_views(parts[i]->0@))
}

/// Joins what the workers have delivered, in the order of their chunks. Where
/// one of them failed the result is `None`.
pub fn merge_chunk_matches(parts: Vec<Option<Vec<LineMatches>>>) -> (r: Option<Vec<LineMatches>>)
    ensures
        r is Some == (forall|i: int| 0 <= i < parts@.len() ==> #[trigger] parts@[i] is Some),
        r matches Some(all) ==> match_views(all@) == joined(
            part_views(parts@),
            parts@.len() as int,
        ),
{
    let ghost views = part_views(parts@);
    let ghost given = parts@;
    let mut all: Vec<LineMatches> = Vec::new();
    assert(match_views(all@) =~= joined(views, 0));
    for part in it: parts
        invariant
            it.seq() == given,
            views == part_views(given),
            match_views(all@) == joined(views, it.index()),
            forall|i: int| 0 <= i < it.index() ==> #[trigger] given[i] is Some,
    {
        let ghost before = all@;
        let ghost i = it.index();
        match part {
            Some(matches) => {
                let mut rest = matches;
                let ghost taken = rest@;
                all.append(&mut rest);
                assert(match_views(all@) =~= match_views(before) + match_views(taken));
                assert(views[i] == match_views(taken));
            },
            None => {
                assert(given[i] is None);
                return None;
            },
        }
    }
    Some(all)
}

proof fn lemma_matches_concat(
    p: Seq<char>,
    a: Seq<Seq<char>>,
    b: Seq<Seq<char>>,
    line_offset: int,
)
    ensures
        matches_in(p, a + b, line_offset) == matches_in(p, a, line_offset) + matches_in(
            p,
            b,
            line_offset + a.len(),
        ),
    decreases b.len(),
{
    if b.len() == 0 {
        assert(a + b =~= a);
        assert(matches_in(p, a, line_offset) + matches_in(p, b, line_offset + a.len())
            =~= matches_in(p, a, line_offset));
    } else {
        assert((a + b).drop_last() =~= a + b.drop_last());
        assert((a + b).last() == b.last());
        lemma_matches_concat(p, a, b.drop_last(), line_offset);
        assert(matches_in(p, a + b, line_offset) =~= matches_in(p, a, line_offset) + matches_in(
            p,
            b,
            line_offset + a.len(),
        ));
    }
}

/// Searching a document in chunks and joining the results in order gives what
/// one pass over the whole document gives.
pub proof fn law_chunked_search_is_serial(
    p: Seq<char>,
    lines: Seq<Seq<char>>,
    size: nat,
    chunks: Seq<(LineNumber, LineNumber)>,
    parts: Seq<Seq<LineMatchesView>>,
)
    requires
        is_chunking(lines.len(), size, chunks),
        parts.len() == chunks.len(),
        forall|i: int|
            0 <= i < chunks.len() ==> #[trigger] parts[i] == matches_in(
                p,
                lines.subrange(chunks[i].0 as int, chunks[i].1 as int),
                chunks[i].0 as int,
            ),
    ensures
        joined(parts, parts.len() as int) == matches_in(p, lines, 0),
{
    lemma_joined_prefix(p, lines, size, chunks, parts, chunks.len() as int);
    assert(lines.take(lines.len() as int) =~= lines);
}

proof fn lemma_joined_prefix(
    p: Seq<char>,
    lines: Seq<Seq<char>>,
    size: nat,
    chunks: Seq<(LineNumber, LineNumber)>,
    parts: Seq<Seq<LineMatchesView>>,
    count: int,
)
    requires
        0 < count <= chunks.len(),
        is_chunking(lines.len(), size, chunks),
        parts.len() == chunks.len(),
        forall|i: int|
            0 <= i < chunks.len() ==> #[trigger] parts[i] == matches_in(
                p,
                lines.subrange(chunks[i].0 as int, chunks[i].1 as int),
                chunks[i].0 as int,
            ),
    ensures
        chunks[count - 1].1 <= lines.len(),
        joined(parts, count) == matches_in(p, lines.take(chunks[count - 1].1 as int), 0),
    decreases count,
{
    let c = chunks[count - 1];
    let part = lines.subrange(c.0 as int, c.1 as int);
    assert(parts[count - 1] == matches_in(p, part, c.0 as int));
    if count == 1 {
        assert(c.0 == 0) by (nonlinear_arith)
            requires
                c.0 == 0 * size,
        ;
        assert(part =~= lines.take(c.1 as int));
        assert(joined(parts, 0) + parts[0] =~= parts[0]);
    } else {
        lemma_joined_prefix(p, lines, size, chunks, parts, count - 1);
        let d = chunks[count - 2];
        assert(c.0 == (count - 1) * size);
        assert(d.1 == c.0);
        assert(lines.take(c.1 as int) =~= lines.take(d.1 as int) + part);
        lemma_matches_concat(p, lines.take(d.1 as int), part, 0);
    }
}

} // verus!
