//! The search of the application: running a query and moving between results.

use vstd::prelude::*;

use crate::pattern;
use crate::pattern::Pattern;
use crate::search;
use crate::search::LineMatches;
use crate::search::LineMatchesView;
use crate::text;
use crate::types::LineNumber;
use crate::types::MatchSpan;
use crate::ui::app;
use crate::ui::app::App;
use crate::ui::app::AppView;
use crate::ui::flags::AppFlag;
use crate::ui::search_laws;

verus! {

broadcast use vstd::std_specs::hash::group_hash_axioms;

/// The test for a line at or below a position.
pub open spec fn at_or_after(pos: int) -> spec_fn(LineNumber) -> bool {
    |line: LineNumber| line >= pos
}

/// The test for a line below a position.
pub open spec fn after(pos: int) -> spec_fn(LineNumber) -> bool {
    |line: LineNumber| line > pos
}

/// Index of the last of the first `count` lines that stands above a position.
pub open spec fn last_before(lines: Seq<LineNumber>, pos: int, count: int) -> Option<int>
    decreases count,
{
    if count <= 0 {
        None
    } else if lines[count - 1] < pos {
        Some(count - 1)
    } else {
        last_before(lines, pos, count - 1)
    }
}

/// The line numbers of a list of matches.
pub open spec fn line_numbers(found: Seq<LineMatchesView>) -> Seq<LineNumber> {
    Seq::new(found.len(), |i: int| found[i].line as LineNumber)
}

/// The test for being the matches of a line.
pub open spec fn is_of_line(line: LineNumber) -> spec_fn(LineMatchesView) -> bool {
    |m: LineMatchesView| m.line == line
}

/// The spans of a list of matches, by line.
pub open spec fn spans_by_line(found: Seq<LineMatchesView>) -> Map<LineNumber, Seq<MatchSpan>> {
    Map::new(
        |line: LineNumber| search::has_line(found, line as int),
        |line: LineNumber| found[text::find_from(found, 0, is_of_line(line))].spans,
    )
}

impl AppView {
    /// Without any search results.
    pub open spec fn results_cleared(self) -> AppView {
        AppView { match_lines: Seq::empty(), matches: Map::empty(), ..self }
    }

    /// The pattern that the query is searched with.
    pub open spec fn pattern(self) -> Seq<char> {
        search::query_pattern(
            self.query,
            self.flags.contains(AppFlag::IsCaseSensitive),
            self.flags.contains(AppFlag::IsUsingRegex),
        )
    }

    /// Whether the case of letters is ignored.
    pub open spec fn ignores_case(self) -> bool {
        !self.flags.contains(AppFlag::IsCaseSensitive)
    }

    /// Whether the query is searched for as a literal text, and what that means
    /// is fixed: where case is ignored, for an ASCII query. A query of ordinary
    /// length is sure to be searched for; a longer one if its pattern compiles.
    pub open spec fn is_literal_search(self) -> bool {
        &&& self.query.len() > 0
        &&& !self.flags.contains(AppFlag::IsUsingRegex)
        &&& pattern::is_comparable(self.query, self.ignores_case())
        &&& self.query.len() <= pattern::MAX_SURE_LITERAL || pattern::regex_compiles(
            self.pattern(),
        )
    }

    /// With the message that the search has found nothing.
    pub open spec fn nothing_found(self) -> AppView {
        AppView { flags: self.flags.insert(AppFlag::HasNoResults), ..self }
    }

    /// With a list of matches as the results, at the first of them from the
    /// scroll position on. Where all results stand above, the position stays.
    pub open spec fn results_shown(self, found: Seq<LineMatchesView>) -> AppView {
        let filled = AppView {
            match_lines: line_numbers(found),
            matches: spans_by_line(found),
            ..self
        };
        if found.len() == 0 {
            filled.nothing_found()
        } else {
            AppView {
                flags: self.flags.remove(AppFlag::HasNoResults),
                match_index: text::find_from(line_numbers(found), 0, at_or_after(self.scroll)),
                ..filled
            }.jumped_to_result()
        }
    }

    /// Scrolled to the current search result, if there is one.
    pub open spec fn jumped_to_result(self) -> AppView {
        if 0 <= self.match_index < self.match_lines.len() {
            AppView { scroll: self.match_lines[self.match_index] as int, ..self }
        } else {
            self
        }
    }

    /// With the results of searching for the query.
    pub open spec fn searched(self) -> AppView {
        let cleared = self.results_cleared();
        if self.query.len() == 0 {
            cleared
        } else if !pattern::regex_compiles(self.pattern()) {
            cleared.nothing_found()
        } else {
            cleared.results_shown(search::matches_in(self.pattern(), self.lines(), 0))
        }
    }

    /// At the first result below the scroll position, if there is one.
    pub open spec fn at_next_result(self) -> AppView {
        let k = text::find_from(self.match_lines, 0, after(self.scroll));
        if self.has_search_results() && k < self.match_lines.len() {
            AppView { match_index: k, ..self }.jumped_to_result()
        } else {
            self
        }
    }

    /// At the last result above the scroll position, if there is one.
    pub open spec fn at_previous_result(self) -> AppView {
        match last_before(self.match_lines, self.scroll, self.match_lines.len() as int) {
            Some(k) if self.has_search_results() => AppView {
                match_index: k,
                ..self
            }.jumped_to_result(),
            _ => self,
        }
    }

    /// Without query, results and message.
    pub open spec fn search_reset(self) -> AppView {
        AppView {
            query: Seq::empty(),
            cursor: 0,
            match_lines: Seq::empty(),
            matches: Map::empty(),
            match_index: 0,
            flags: self.flags.remove(AppFlag::HasNoResults),
            ..self
        }
    }
}

/// What a search leaves behind: the message that nothing was found exactly if
/// there is no result, and otherwise the first result from the scroll position
/// on, or the position as it was where all results stand above it.
pub open spec fn is_outcome(before: AppView, searched: AppView) -> bool {
    let lines = searched.match_lines;
    &&& searched.flags.contains(AppFlag::HasNoResults) == (lines.len() == 0)
    &&& (forall|i: int| 0 <= i < lines.len() ==> #[trigger] lines[i] < before.scroll)
        ==> searched.scroll == before.scroll
    &&& (exists|i: int| 0 <= i < lines.len() && #[trigger] lines[i] >= before.scroll) ==> {
        &&& lines.contains(searched.scroll as LineNumber)
        &&& searched.scroll >= before.scroll
        &&& forall|i: int|
            0 <= i < lines.len() && #[trigger] lines[i] >= before.scroll ==> lines[i]
                >= searched.scroll
    }
}

/// The results are those of the query: a line is listed if and only if it holds
/// the query, each span covers the query, and every place of a listed line
/// where the query stands meets a span. Where case is ignored this is said of
/// ASCII lines.
pub open spec fn finds_query(before: AppView, searched: AppView) -> bool {
    let ignores_case = before.ignores_case();
    &&& forall|n: int|
        0 <= n < before.lines().len() && pattern::is_comparable(
            #[trigger] before.lines()[n],
            ignores_case,
        ) ==> (searched.match_lines.contains(n as LineNumber) <==> pattern::holds_literal(
            before.lines()[n],
            before.query,
            ignores_case,
        ))
    &&& forall|line: LineNumber, k: int|
        searched.matches.contains_key(line) && 0 <= k < searched.matches[line].len()
            && pattern::is_comparable(before.lines()[line as int], ignores_case)
            ==> pattern::covers_literal(
            before.lines()[line as int],
            #[trigger] searched.matches[line][k],
            before.query,
            ignores_case,
        )
    &&& forall|line: LineNumber| #[trigger]
        searched.matches.contains_key(line) && pattern::is_comparable(
            before.lines()[line as int],
            ignores_case,
        ) ==> pattern::meets_all_places(
            before.lines()[line as int],
            searched.matches[line],
            before.query,
            ignores_case,
        )
}

impl App {
    /// Clears the results and compiles the query. `None` stands for a search
    /// that ends here: with an empty query, or with one that is no pattern.
    pub fn start_search(&mut self) -> (r: Option<Pattern>)
        ensures
            ({
                let query = old(self)@.query;
                let compiles = pattern::regex_compiles(old(self)@.pattern());
                &&& r is Some == (query.len() > 0 && compiles)
                &&& r matches Some(p) ==> p@ == old(self)@.pattern()
                &&& old(self)@.is_literal_search() ==> r is Some
                &&& final(self)@ == (if query.len() > 0 && !compiles {
                    old(self)@.results_cleared().nothing_found()
                } else {
                    old(self)@.results_cleared()
                })
            }),
    {
        self.query_match_line_nums.clear();
        self.query_matches.clear();
        assert(self@.matches =~= Map::empty());
        if self.query_text.as_str().is_empty() {
            return None;
        }
        let is_case_sensitive = self.app_state.contains(AppFlag::IsCaseSensitive);
        let is_regex = self.app_state.contains(AppFlag::IsUsingRegex);
        let regex = search::get_compiled_regex(
            self.query_text.as_str(),
            is_case_sensitive,
            is_regex,
        );
        if regex.is_none() {
            self.app_state.insert(AppFlag::HasNoResults);
        }
        regex
    }

    /// Takes over the matches of a search, listed from the top of the document
    /// to its bottom, and jumps to the first of them from the scroll position
    /// on.
    pub fn finish_search(&mut self, search_results: Vec<LineMatches>)
        requires
            old(self)@.match_lines.len() == 0,
            old(self)@.matches == Map::<LineNumber, Seq<MatchSpan>>::empty(),
            forall|i: int, j: int|
                0 <= i < j < search_results@.len() ==> (#[trigger] search_results@[i]).0 < (
                #[trigger] search_results@[j]).0,
        ensures
            final(self)@ == old(self)@.results_shown(search::match_views(search_results@)),
            old(self)@.wf() && search::fits_document(
                old(self)@.lines(),
                0,
                search::match_views(search_results@),
            ) ==> final(self)@.wf(),
    {
        proof {
            if self@.wf() && search::fits_document(
                self@.lines(),
                0,
                search::match_views(search_results@),
            ) {
                lemma_results_shown_wf(self@, search::match_views(search_results@));
            }
        }
        let ghost given = search_results@;
        let ghost found = search::match_views(given);
        let ghost start = self@;
        assert(self.query_match_line_nums@ =~= line_numbers(found.take(0)));
        assert(app::span_map(self.query_matches@) =~= spans_by_line(found.take(0)));
        for item in it: search_results
            invariant
                it.seq() == given,
                found == search::match_views(given),
                forall|i: int, j: int|
                    0 <= i < j < given.len() ==> (#[trigger] given[i]).0 < (#[trigger] given[j]).0,
                self@ == (AppView {
                    match_lines: line_numbers(found.take(it.index())),
                    matches: spans_by_line(found.take(it.index())),
                    ..start
                }),
        {
            let ghost i = it.index();
            let ghost before = self@;
            let (line_num, matches_in_line) = item;
            let ghost spans = matches_in_line@;
            self.query_match_line_nums.push(line_num);
            let _replaced = self.query_matches.insert(line_num, matches_in_line);
            proof {
                assert(given[i].0 == line_num);
                assert(found[i].line == line_num && found[i].spans == spans);
                assert(app::span_map(self.query_matches@) =~= before.matches.insert(
                    line_num,
                    spans,
                ));
                lemma_spans_by_line_step(found, i);
                assert(line_numbers(found.take(i + 1)) =~= line_numbers(found.take(i)).push(
                    line_num,
                ));
            }
        }
        assert(found.take(found.len() as int) =~= found);
        if self.query_match_line_nums.is_empty() {
            self.app_state.insert(AppFlag::HasNoResults);
        } else {
            self.app_state.remove(AppFlag::HasNoResults);
            let total: usize = self.query_match_line_nums.len();
            let mut index: usize = 0;
            while index < total && self.query_match_line_nums[index] < self.current_scroll_pos
                invariant
                    index <= total,
                    total == self.query_match_line_nums@.len(),
                    forall|j: int|
                        0 <= j < index ==> !at_or_after(self.current_scroll_pos as int)(
                            #[trigger] self.query_match_line_nums@[j],
                        ),
                decreases total - index,
            {
                index = index + 1;
            }
            proof {
                text::lemma_find_from_is(
                    self.query_match_line_nums@,
                    0,
                    at_or_after(self.current_scroll_pos as int),
                    index as int,
                );
            }
            self.current_query_match_index = index;
            self.jump_to_search_result();
        }
    }

    /// Performs a search using the current search text.
    ///
    /// Finds all occurrences of the search text in the document and stores the
    /// results. If results are found, jumps to the first result starting from
    /// the current scroll position.
    pub fn perform_search(&mut self)
        ensures
            final(self)@ == old(self)@.searched(),
            old(self)@.wf() ==> final(self)@.wf(),
            old(self)@.query.len() > 0 ==> is_outcome(old(self)@, final(self)@),
            ({
                let flags = old(self)@.flags;
                let query = old(self)@.query;
                let p = (if flags.contains(AppFlag::IsCaseSensitive) {
                    Seq::<char>::empty()
                } else {
                    "(?i)"@
                }) + (if flags.contains(AppFlag::IsUsingRegex) {
                    query
                } else {
                    pattern::escaped(query)
                });
                query.len() > 0 && pattern::regex_compiles_with(p, usize::BITS as nat)
                    ==> search_laws::are_results(
                    p,
                    text::lines_of(old(self)@.content),
                    final(self)@.match_lines,
                    final(self)@.matches,
                )
            }),
            old(self)@.is_literal_search() ==> finds_query(old(self)@, final(self)@),
    {
        let ghost before = self@;
        proof {
            search_laws::law_pattern(before);
        }
        if let Some(regex) = self.start_search() {
            let search_results = search::collect_search_matches(
                &regex,
                self.rfc_content.as_str(),
            );
            proof {
                let found = search::match_views(search_results@);
                assert forall|i: int, j: int|
                    0 <= i < j < search_results@.len() implies (#[trigger] search_results@[i]).0 < (
                #[trigger] search_results@[j]).0 by {
                    assert(found[i].line < found[j].line);
                }
                lemma_outcome(before, found);
                search_laws::law_search(before);
                if before.is_literal_search() {
                    assert(search::is_pattern_of(
                        regex@,
                        before.query,
                        before.ignores_case(),
                    ));
                    assert(search::finds_literal(
                        before.lines(),
                        0,
                        found,
                        before.query,
                        before.ignores_case(),
                    ));
                    lemma_literal_results(before, found);
                }
            }
            self.finish_search(search_results);
        }
    }

    /// Moves to the next search result after the current scroll position.
    ///
    /// If there are no search results, does nothing.
    pub fn next_search_result(&mut self)
        ensures
            final(self)@ == old(self)@.at_next_result(),
    {
        if !self.has_search_results() {
            return;
        }
        let total: usize = self.query_match_line_nums.len();
        let mut index: usize = 0;
        while index < total && self.query_match_line_nums[index] <= self.current_scroll_pos
            invariant
                index <= total,
                total == self.query_match_line_nums@.len(),
                forall|j: int|
                    0 <= j < index ==> !after(self.current_scroll_pos as int)(
                        #[trigger] self.query_match_line_nums@[j],
                    ),
            decreases total - index,
        {
            index = index + 1;
        }
        proof {
            text::lemma_find_from_is(
                self.query_match_line_nums@,
                0,
                after(self.current_scroll_pos as int),
                index as int,
            );
        }
        if index < total {
            self.current_query_match_index = index;
            self.jump_to_search_result();
        }
    }

    /// Moves to the previous search result before the current scroll position.
    ///
    /// If there are no search results, does nothing.
    pub fn prev_search_result(&mut self)
        ensures
            final(self)@ == old(self)@.at_previous_result(),
    {
        if !self.has_search_results() {
            return;
        }
        let total: usize = self.query_match_line_nums.len();
        let mut count: usize = total;
        while count > 0 && self.query_match_line_nums[count - 1] >= self.current_scroll_pos
            invariant
                count <= total,
                total == self.query_match_line_nums@.len(),
                last_before(
                    self.query_match_line_nums@,
                    self.current_scroll_pos as int,
                    total as int,
                ) == last_before(
                    self.query_match_line_nums@,
                    self.current_scroll_pos as int,
                    count as int,
                ),
            decreases count,
        {
            count = count - 1;
        }
        if count > 0 {
            self.current_query_match_index = count - 1;
            self.jump_to_search_result();
        }
    }

    /// Jumps to the current search result by scrolling to its line.
    fn jump_to_search_result(&mut self)
        ensures
            final(self)@ == old(self)@.jumped_to_result(),
    {
        if self.current_query_match_index < self.query_match_line_nums.len() {
            self.current_scroll_pos = self.query_match_line_nums[self.current_query_match_index];
        }
    }

    /// Resets the search highlights, together with the query and its cursor.
    pub fn reset_search_highlights(&mut self)
        ensures
            final(self)@ == old(self)@.search_reset(),
    {
        self.query_text = String::new();
        self.query_cursor_pos = 0;
        self.query_match_line_nums.clear();
        self.query_matches.clear();
        self.current_query_match_index = 0;
        self.app_state.remove(AppFlag::HasNoResults);
        assert(self@.matches =~= Map::empty());
    }
}

/// Where the spans of a line stand in a list of matches.
pub proof fn lemma_spans_of_line(found: Seq<LineMatchesView>, line: LineNumber) -> (k: int)
    requires
        search::has_line(found, line as int),
    ensures
        0 <= k < found.len(),
        found[k].line == line,
        spans_by_line(found)[line] == found[k].spans,
{
    let m = choose|m: int| 0 <= m < found.len() && (#[trigger] found[m]).line == line as int;
    assert(is_of_line(line)(found[m]));
    text::lemma_find_from(found, 0, is_of_line(line));
    text::find_from(found, 0, is_of_line(line))
}

/// A line is among the line numbers of matches that fit a document exactly if
/// it is among the matches.
proof fn lemma_line_numbers(
    lines: Seq<Seq<char>>,
    found: Seq<LineMatchesView>,
    line: LineNumber,
)
    requires
        search::fits_document(lines, 0, found),
        lines.len() <= usize::MAX,
    ensures
        line_numbers(found).contains(line) <==> search::has_line(found, line as int),
{
    let numbers = line_numbers(found);
    if numbers.contains(line) {
        let i = choose|i: int| 0 <= i < numbers.len() && numbers[i] == line;
        assert(found[i].line == line as int);
    }
    if search::has_line(found, line as int) {
        let i = choose|i: int| 0 <= i < found.len() && (#[trigger] found[i]).line == line as int;
        assert(numbers[i] == line);
    }
}

proof fn lemma_results_shown_wf(v: AppView, found: Seq<LineMatchesView>)
    requires
        v.wf(),
        search::fits_document(v.lines(), 0, found),
        v.line_count <= usize::MAX,
    ensures
        v.results_shown(found).wf(),
{
    let w = v.results_shown(found);
    let numbers = line_numbers(found);
    assert forall|line: LineNumber| #[trigger]
        w.matches.contains_key(line) <==> w.match_lines.contains(line) by {
        lemma_line_numbers(v.lines(), found, line);
    }
    assert forall|line: LineNumber| #[trigger]
        w.matches.contains_key(line) implies pattern::spans_in_order(
        w.lines()[line as int],
        w.matches[line],
    ) by {
        let k = lemma_spans_of_line(found, line);
    }
    assert(w.search_wf()) by {
        assert forall|i: int| 0 <= i < w.match_lines.len() implies #[trigger] w.match_lines[i]
            < w.line_count by {
            assert(found[i].line < v.lines().len());
        }
        assert forall|i: int, j: int| 0 <= i < j < w.match_lines.len() implies #[trigger]
        w.match_lines[i] < #[trigger] w.match_lines[j] by {
            assert(found[i].line < found[j].line);
        }
    }
    text::lemma_find_from(numbers, 0, at_or_after(v.scroll));
}

proof fn lemma_outcome(v: AppView, found: Seq<LineMatchesView>)
    requires
        v.scroll <= usize::MAX,
        v.lines().len() <= usize::MAX,
        search::fits_document(v.lines(), 0, found),
    ensures
        is_outcome(v, v.results_cleared().results_shown(found)),
{
    let w = v.results_cleared().results_shown(found);
    let numbers = line_numbers(found);
    let n = numbers.len() as int;
    let k = text::find_from(numbers, 0, at_or_after(v.scroll));
    text::lemma_find_from(numbers, 0, at_or_after(v.scroll));
    assert(w.match_lines == numbers);
    if exists|i: int| 0 <= i < n && #[trigger] numbers[i] >= v.scroll {
        let i = choose|i: int| 0 <= i < n && #[trigger] numbers[i] >= v.scroll;
        assert(at_or_after(v.scroll)(numbers[i]));
        assert(w.scroll == numbers[k]);
        assert forall|j: int| 0 <= j < n && #[trigger] numbers[j] >= v.scroll implies numbers[j]
            >= w.scroll by {
            assert(at_or_after(v.scroll)(numbers[j]));
            if j > k {
                assert(found[k].line < found[j].line);
                assert(found[j].line < v.lines().len());
            }
        }
    } else if k < n {
        assert(numbers[k] >= v.scroll);
    }
}

proof fn lemma_literal_results(v: AppView, found: Seq<LineMatchesView>)
    requires
        v.lines().len() <= usize::MAX,
        search::fits_document(v.lines(), 0, found),
        search::finds_literal(v.lines(), 0, found, v.query, v.ignores_case()),
    ensures
        finds_query(v, v.results_cleared().results_shown(found)),
{
    let w = v.results_cleared().results_shown(found);
    let ignores_case = v.ignores_case();
    assert(w.match_lines == line_numbers(found));
    assert(w.matches == spans_by_line(found));
    assert forall|n: int|
        0 <= n < v.lines().len() && pattern::is_comparable(
            #[trigger] v.lines()[n],
            ignores_case,
        ) implies (w.match_lines.contains(n as LineNumber) <==> pattern::holds_literal(
        v.lines()[n],
        v.query,
        ignores_case,
    )) by {
        lemma_line_numbers(v.lines(), found, n as LineNumber);
    }
    assert forall|line: LineNumber, k: int|
        w.matches.contains_key(line) && 0 <= k < w.matches[line].len() && pattern::is_comparable(
            v.lines()[line as int],
            ignores_case,
        ) implies pattern::covers_literal(
        v.lines()[line as int],
        #[trigger] w.matches[line][k],
        v.query,
        ignores_case,
    ) by {
        let i = lemma_spans_of_line(found, line);
        assert(found[i].spans[k] == w.matches[line][k]);
    }
    assert forall|line: LineNumber| #[trigger]
        w.matches.contains_key(line) && pattern::is_comparable(
            v.lines()[line as int],
            ignores_case,
        ) implies pattern::meets_all_places(
        v.lines()[line as int],
        w.matches[line],
        v.query,
        ignores_case,
    ) by {
        let i = lemma_spans_of_line(found, line);
        assert(found[i].line == line);
    }
}

/// The spans of one more line join those of the lines above it.
proof fn lemma_spans_by_line_step(found: Seq<LineMatchesView>, i: int)
    requires
        0 <= i < found.len(),
        0 <= found[i].line <= usize::MAX,
        forall|a: int, b: int|
            0 <= a < b <= i ==> (#[trigger] found[a]).line < (#[trigger] found[b]).line,
    ensures
        spans_by_line(found.take(i + 1)) == spans_by_line(found.take(i)).insert(
            found[i].line as LineNumber,
            found[i].spans,
        ),
{
    let shorter = found.take(i);
    let longer = found.take(i + 1);
    let added = found[i].line as LineNumber;
    assert forall|line: LineNumber| search::has_line(longer, line as int) == (search::has_line(
        shorter,
        line as int,
    ) || line == added) by {
        if search::has_line(shorter, line as int) {
            let k = choose|k: int|
                0 <= k < shorter.len() && (#[trigger] shorter[k]).line == line as int;
            assert(longer[k].line == line as int);
        }
        if line == added {
            assert(longer[i].line == line as int);
        }
        if search::has_line(longer, line as int) && line != added {
            let k = choose|k: int|
                0 <= k < longer.len() && (#[trigger] longer[k]).line == line as int;
            assert(shorter[k].line == line as int);
        }
    }
    assert forall|line: LineNumber| search::has_line(longer, line as int) implies spans_by_line(
        longer,
    )[line] == #[trigger] spans_by_line(shorter).insert(added, found[i].spans)[line] by {
        if line == added {
            text::lemma_find_from_is(longer, 0, is_of_line(line), i);
        } else {
            let k = text::find_from(shorter, 0, is_of_line(line));
            text::lemma_find_from(shorter, 0, is_of_line(line));
            assert(k < shorter.len()) by {
                let m = choose|m: int|
                    0 <= m < shorter.len() && (#[trigger] shorter[m]).line == line as int;
                assert(is_of_line(line)(shorter[m]));
            }
            assert forall|j: int| 0 <= j < k implies !is_of_line(line)(#[trigger] longer[j]) by {
                assert(longer[j] == shorter[j]);
            }
            assert(longer[k] == shorter[k]);
            text::lemma_find_from_is(longer, 0, is_of_line(line), k);
        }
    }
    assert(spans_by_line(longer) =~= spans_by_line(shorter).insert(added, found[i].spans));
}

} // verus!
