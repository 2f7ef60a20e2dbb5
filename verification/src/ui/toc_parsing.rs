//! Finding the table of contents of a document.
//!
//! A document that holds a table of contents of its own is read through that
//! table. Where there is none, headings are picked out of the text.

use vstd::prelude::*;

use crate::pattern;
use crate::pattern::Pattern;
use crate::std_text;
use crate::text;
use crate::types::LineNumber;
use crate::ui::toc_panel;
use crate::ui::toc_panel::TocEntry;
use crate::ui::toc_panel::TocEntryView;

verus! {

/// Empty lines in a row that end a table of contents.
pub const MAX_EMPTY_LINES: u8 = 5;

/// Lines after the heading within which the first row must stand.
pub const MAX_LINES_WITHOUT_ENTRIES: u8 = 30;

/// The compiled patterns that parsing a table of contents needs.
pub struct TocPatterns {
    pub header: Pattern,
    pub numbered_row: Pattern,
    pub appendix_row: Pattern,
    pub section_heading: Pattern,
    pub page_number: Pattern,
}

impl TocPatterns {
    /// Each pattern is compiled from the text it is named after.
    pub open spec fn wf(&self) -> bool {
        &&& self.header@ == pattern::TOC_HEADER@
        &&& self.numbered_row@ == pattern::TOC_NUMBERED_ROW@
        &&& self.appendix_row@ == pattern::TOC_APPENDIX_ROW@
        &&& self.section_heading@ == pattern::SECTION_HEADING@
        &&& self.page_number@ == pattern::TOC_PAGE_NUMBER@
    }

    /// Compiles the patterns.
    pub fn compile() -> (r: TocPatterns)
        ensures
            r.wf(),
    {
        TocPatterns {
            header: Pattern::compile(pattern::TOC_HEADER).unwrap(),
            numbered_row: Pattern::compile(pattern::TOC_NUMBERED_ROW).unwrap(),
            appendix_row: Pattern::compile(pattern::TOC_APPENDIX_ROW).unwrap(),
            section_heading: Pattern::compile(pattern::SECTION_HEADING).unwrap(),
            page_number: Pattern::compile(pattern::TOC_PAGE_NUMBER).unwrap(),
        }
    }
}

/// The test for being the heading of a table of contents.
pub open spec fn is_toc_header() -> spec_fn(Seq<char>) -> bool {
    |line: Seq<char>| pattern::regex_matches(pattern::TOC_HEADER@, std_text::trimmed(line))
}

/// Index of the line behind the heading of the table of contents.
pub open spec fn toc_start(lines: Seq<Seq<char>>) -> Option<int> {
    let k = text::find_from(lines, 0, is_toc_header());
    if k < lines.len() {
        Some(k + 1)
    } else {
        None
    }
}

/// Finds the line behind the heading of the table of contents.
pub fn find_toc_start(patterns: &TocPatterns, lines: &Vec<&str>) -> (r: Option<LineNumber>)
    requires
        patterns.wf(),
    ensures
        r is Some == toc_start(text::views(lines@)) is Some,
        r matches Some(start) ==> start == toc_start(text::views(lines@))->0 && 0 < start
            <= lines@.len(),
{
    let ghost all = text::views(lines@);
    let mut i: usize = 0;
    while i < lines.len()
        invariant
            patterns.wf(),
            i <= lines@.len(),
            all == text::views(lines@),
            forall|j: int| 0 <= j < i ==> !is_toc_header()(#[trigger] all[j]),
        decreases lines@.len() - i,
    {
        if patterns.header.is_match(lines[i].trim()) {
            proof {
                assert(all[i as int] == lines@[i as int]@);
                text::lemma_find_from_is(all, 0, is_toc_header(), i as int);
            }
            return Some(i + 1);
        }
        assert(all[i as int] == lines@[i as int]@);
        i = i + 1;
    }
    proof {
        text::lemma_find_from_is(all, 0, is_toc_header(), all.len() as int);
    }
    None
}

/// Whether a line ends in dots and a page number, as a row of a table of contents
/// does and a heading does not.
pub open spec fn has_page_number(line: Seq<char>) -> bool {
    pattern::regex_matches(pattern::TOC_PAGE_NUMBER@, line)
}

/// Tells whether a line ends in dots and a page number.
pub fn ends_in_page_number(patterns: &TocPatterns, line: &str) -> (r: bool)
    requires
        patterns.wf(),
    ensures
        r == has_page_number(line@),
        pattern::is_ascii_text(line@) ==> r == pattern::ends_in_dots_and_number(line@),
{
    patterns.page_number.is_match(line)
}

/// Whether a line reads like a section heading of the body.
pub open spec fn is_section_heading(line: Seq<char>) -> bool {
    pattern::regex_matches(pattern::SECTION_HEADING@, line)
}

/// The sum, but not more than a counter holds.
pub open spec fn saturating_next(n: u8) -> u8 {
    if n < u8::MAX {
        (n + 1) as u8
    } else {
        n
    }
}

/// What one line does to the parsing of a table of contents: whether it ends
/// it, and the two counters behind it, the empty lines in a row and the lines
/// seen while no entry was found.
///
/// A body heading ends the table once it has entries, and so does the last of
/// too many empty lines. A line that ends in a page number is a row and not a
/// heading. Without entries the table ends after too many lines.
pub open spec fn stop_step(
    looks_like_section: bool,
    has_page_number: bool,
    is_empty: bool,
    has_found_entries: bool,
    empty_lines: u8,
    lines_without_entries: u8,
) -> (bool, u8, u8) {
    let empty = if is_empty {
        saturating_next(empty_lines)
    } else {
        0
    };
    let without = if has_found_entries {
        0
    } else {
        saturating_next(lines_without_entries)
    };
    if looks_like_section && !has_page_number && has_found_entries {
        (true, empty_lines, lines_without_entries)
    } else if has_found_entries && empty >= MAX_EMPTY_LINES {
        (true, empty, lines_without_entries)
    } else {
        (without > MAX_LINES_WITHOUT_ENTRIES, empty, without)
    }
}

/// Decides from what is known of a line whether the table of contents has
/// ended, and keeps the two counters.
pub fn stop_decision(
    looks_like_section: bool,
    has_page_number: bool,
    is_empty: bool,
    has_found_entries: bool,
    consecutive_empty_lines: &mut u8,
    lines_without_entries: &mut u8,
) -> (stop: bool)
    ensures
        (stop, *final(consecutive_empty_lines), *final(lines_without_entries)) == stop_step(
            looks_like_section,
            has_page_number,
            is_empty,
            has_found_entries,
            *old(consecutive_empty_lines),
            *old(lines_without_entries),
        ),
{
    if looks_like_section && !has_page_number && has_found_entries {
        return true;
    }
    if is_empty {
        *consecutive_empty_lines = (*consecutive_empty_lines).saturating_add(1);
        if *consecutive_empty_lines >= MAX_EMPTY_LINES && has_found_entries {
            return true;
        }
    } else {
        *consecutive_empty_lines = 0;
    }
    if has_found_entries {
        *lines_without_entries = 0;
    } else {
        *lines_without_entries = (*lines_without_entries).saturating_add(1);
        if *lines_without_entries > MAX_LINES_WITHOUT_ENTRIES {
            return true;
        }
    }
    false
}

/// Checks whether a line ends the table of contents, and keeps the two
/// counters.
pub fn should_stop_parsing(
    patterns: &TocPatterns,
    trimmed_line: &str,
    has_found_entries: bool,
    consecutive_empty_lines: &mut u8,
    lines_without_entries: &mut u8,
) -> (stop: bool)
    requires
        patterns.wf(),
    ensures
        (stop, *final(consecutive_empty_lines), *final(lines_without_entries)) == stop_step(
            is_section_heading(trimmed_line@),
            has_page_number(trimmed_line@),
            trimmed_line@.len() == 0,
            has_found_entries,
            *old(consecutive_empty_lines),
            *old(lines_without_entries),
        ),
        has_found_entries && is_section_heading(trimmed_line@) && pattern::is_ascii_text(
            trimmed_line@,
        ) && !pattern::ends_in_dots_and_number(trimmed_line@) ==> stop,
{
    stop_decision(
        patterns.section_heading.is_match(trimmed_line),
        ends_in_page_number(patterns, trimmed_line),
        trimmed_line.is_empty(),
        has_found_entries,
        consecutive_empty_lines,
        lines_without_entries,
    )
}

/// A row of a table of contents: the label and the title of a section.
#[verifier::ext_equal]
pub struct TocRowView {
    pub label: Seq<char>,
    pub title: Seq<char>,
}

/// A row of a table of contents: the label and the title of a section.
#[derive(Debug)]
pub struct TocRow {
    pub label: String,
    pub title: String,
}

impl View for TocRow {
    type V = TocRowView;

    open spec fn view(&self) -> TocRowView {
        TocRowView { label: self.label@, title: self.title@ }
    }
}

/// The row that the groups of a matched row pattern describe.
pub open spec fn row_of_groups(groups: Seq<Option<Seq<char>>>) -> Option<TocRowView> {
    if groups.len() >= 3 {
        Some(
            TocRowView {
                label: std_text::trimmed(groups[1]->0),
                title: std_text::trimmed(groups[2]->0),
            },
        )
    } else {
        None
    }
}

/// Reads a row out of the groups of a matched row pattern.
pub fn row_from_groups(groups: &Vec<Option<String>>) -> (r: Option<TocRow>)
    requires
        groups@.len() >= 3 ==> groups@[1] is Some && groups@[2] is Some,
    ensures
        r is Some == row_of_groups(pattern::group_views(groups@)) is Some,
        r matches Some(row) ==> row@ == row_of_groups(pattern::group_views(groups@))->0,
{
    if groups.len() < 3 {
        return None;
    }
    match (&groups[1], &groups[2]) {
        (Some(label), Some(title)) => Some(
            TocRow {
                label: label.as_str().trim().to_owned(),
                title: title.as_str().trim().to_owned(),
            },
        ),
        _ => None,
    }
}

/// The row that a line of a table of contents holds. Where both row patterns
/// match, the one for numbered rows decides.
pub open spec fn row_of_line(line: Seq<char>) -> Option<TocRowView> {
    match pattern::regex_groups(pattern::TOC_NUMBERED_ROW@, line) {
        Some(groups) => row_of_groups(groups),
        None => match pattern::regex_groups(pattern::TOC_APPENDIX_ROW@, line) {
            Some(groups) => row_of_groups(groups),
            None => None,
        },
    }
}

/// Reads the row that a line of a table of contents holds.
pub fn read_row(patterns: &TocPatterns, trimmed_line: &str) -> (r: Option<TocRow>)
    requires
        patterns.wf(),
    ensures
        r is Some == row_of_line(trimmed_line@) is Some,
        r matches Some(row) ==> row@ == row_of_line(trimmed_line@)->0,
{
    match patterns.numbered_row.groups(trimmed_line) {
        Some(groups) => row_from_groups(&groups),
        None => match patterns.appendix_row.groups(trimmed_line) {
            Some(groups) => row_from_groups(&groups),
            None => None,
        },
    }
}

/// The pattern that finds the section of a row in the document: label and
/// title with whitespace between them, at the start of a line.
pub open spec fn section_pattern(row: TocRowView) -> Seq<char> {
    "^\\s*"@ + pattern::escaped(row.label) + "\\s+"@ + pattern::escaped(row.title)
}

/// Writes the pattern that finds the section of a row.
pub fn section_pattern_text(label: &str, title: &str) -> (r: String)
    ensures
        r@ == section_pattern(TocRowView { label: label@, title: title@ }),
{
    let mut out = String::new();
    out.append("^\\s*");
    out.append(regex::escape(label).as_str());
    out.append("\\s+");
    out.append(regex::escape(title).as_str());
    assert(out@ =~= section_pattern(TocRowView { label: label@, title: title@ }));
    out
}

/// The title of an entry: the label and the title of its row.
pub open spec fn entry_title(row: TocRowView) -> Seq<char> {
    row.label + " "@ + row.title
}

/// Writes the title of an entry.
pub fn entry_title_text(label: &str, title: &str) -> (r: String)
    ensures
        r@ == entry_title(TocRowView { label: label@, title: title@ }),
{
    let mut out = label.to_owned();
    out.append(" ");
    out.append(title);
    out
}

/// The test for being matched by a pattern.
pub open spec fn matched_by(p: Seq<char>) -> spec_fn(Seq<char>) -> bool {
    |line: Seq<char>| pattern::regex_matches(p, line)
}

/// The entry that a row stands for which is read at line `index`: the first
/// later line that starts with the label and the title of the row.
pub open spec fn entry_of_row(
    lines: Seq<Seq<char>>,
    trimmed_line: Seq<char>,
    index: int,
) -> Option<TocEntryView> {
    match row_of_line(trimmed_line) {
        None => None,
        Some(row) => {
            let p = section_pattern(row);
            let k = text::find_from(lines, index + 1, matched_by(p));
            if pattern::regex_compiles(p) && k < lines.len() {
                Some(TocEntryView { title: entry_title(row), line_number: k })
            } else {
                None
            }
        },
    }
}

/// The entry that line `index` of a table of contents stands for.
pub open spec fn entry_at(lines: Seq<Seq<char>>, index: int) -> Option<TocEntryView> {
    entry_of_row(lines, std_text::trimmed_end(lines[index]), index)
}

/// Reads the entry that a row of a table of contents stands for, and looks up
/// its section behind line `index`.
pub fn try_extract_entry(
    patterns: &TocPatterns,
    trimmed_line: &str,
    lines: &Vec<&str>,
    index: LineNumber,
) -> (r: Option<TocEntry>)
    requires
        patterns.wf(),
    ensures
        r is Some == entry_of_row(text::views(lines@), trimmed_line@, index as int) is Some,
        r matches Some(entry) ==> entry@ == entry_of_row(
            text::views(lines@),
            trimmed_line@,
            index as int,
        )->0,
{
    let ghost all = text::views(lines@);
    let total: usize = lines.len();
    if index >= total {
        return None;
    }
    let row = match read_row(patterns, trimmed_line) {
        Some(row) => row,
        None => {
            return None;
        },
    };
    let section = section_pattern_text(row.label.as_str(), row.title.as_str());
    let section_regex = match Pattern::compile(section.as_str()) {
        Some(section_regex) => section_regex,
        None => {
            return None;
        },
    };
    let mut i: usize = index + 1;
    while i < total
        invariant
            index < i <= lines@.len(),
            total == lines@.len(),
            all == text::views(lines@),
            section_regex@ == section@,
            row_of_line(trimmed_line@) == Some(row@),
            section@ == section_pattern(row@),
            pattern::regex_compiles(section@),
            forall|j: int| index < j < i ==> !matched_by(section@)(#[trigger] all[j]),
        decreases lines@.len() - i,
    {
        assert(all[i as int] == lines@[i as int]@);
        if section_regex.is_match(lines[i]) {
            proof {
                text::lemma_find_from_is(all, index + 1, matched_by(section@), i as int);
            }
            return Some(
                TocEntry {
                    title: entry_title_text(row.label.as_str(), row.title.as_str()),
                    line_number: i,
                },
            );
        }
        i = i + 1;
    }
    proof {
        text::lemma_find_from_is(all, index + 1, matched_by(section@), all.len() as int);
    }
    None
}

/// The entries of lines `from` to `to`, in their order.
pub open spec fn entries_between(lines: Seq<Seq<char>>, from: int, to: int) -> Seq<TocEntryView>
    decreases to - from,
{
    if to <= from {
        Seq::empty()
    } else {
        match entry_at(lines, to - 1) {
            Some(entry) => entries_between(lines, from, to - 1).push(entry),
            None => entries_between(lines, from, to - 1),
        }
    }
}

/// Whether a line holds nothing but whitespace.
pub open spec fn is_blank(line: Seq<char>) -> bool {
    std_text::trimmed_end(line).len() == 0
}

/// Number of blank lines in a row that stand right before line `index`, not
/// counting lines before `from`.
pub open spec fn blank_run(lines: Seq<Seq<char>>, from: int, index: int) -> nat
    decreases index - from,
{
    if index <= from || !is_blank(lines[index - 1]) {
        0
    } else {
        1 + blank_run(lines, from, index - 1)
    }
}

/// Whether a table of contents that starts at line `start` has ended by line
/// `index`: with a body heading or a gap of blank lines once it has entries,
/// or because no entry turned up in time. A line that ends in a page number is
/// a row and not a heading.
pub open spec fn ends_toc(lines: Seq<Seq<char>>, start: int, index: int) -> bool {
    let line = std_text::trimmed_end(lines[index]);
    if entries_between(lines, start, index).len() > 0 {
        ||| is_section_heading(line) && !has_page_number(line)
        ||| blank_run(lines, start, index + 1) >= MAX_EMPTY_LINES
    } else {
        index - start >= MAX_LINES_WITHOUT_ENTRIES
    }
}

/// Index of the line that ends the table of contents, looked for from line
/// `index` on, or the number of lines where none does.
pub open spec fn toc_end(lines: Seq<Seq<char>>, start: int, index: int) -> int
    decreases lines.len() - index,
{
    if index >= lines.len() {
        lines.len() as int
    } else if ends_toc(lines, start, index) {
        index
    } else {
        toc_end(lines, start, index + 1)
    }
}

/// The entries of the table of contents that starts at line `start`.
pub open spec fn existing_entries(lines: Seq<Seq<char>>, start: int) -> Seq<TocEntryView> {
    entries_between(lines, start, toc_end(lines, start, start))
}

/// A run length as the counter of `should_stop_parsing` holds it.
pub open spec fn counted(run: int) -> u8 {
    if run < u8::MAX {
        run as u8
    } else {
        u8::MAX
    }
}

/// Reads the entries of the table of contents that starts at a line.
pub fn extract_toc_entries(
    patterns: &TocPatterns,
    lines: &Vec<&str>,
    start_index: LineNumber,
) -> (r: Vec<TocEntry>)
    requires
        patterns.wf(),
    ensures
        toc_panel::entry_views(r@) == existing_entries(text::views(lines@), start_index as int),
{
    let ghost all = text::views(lines@);
    let ghost start = start_index as int;
    let mut entries: Vec<TocEntry> = Vec::new();
    let mut consecutive_empty_lines: u8 = 0;
    let mut has_found_entries = false;
    let mut lines_without_entries: u8 = 0;
    let total: usize = lines.len();
    let mut i: usize = start_index;
    assert(toc_panel::entry_views(entries@) =~= entries_between(all, start, start));
    while i < total
        invariant
            patterns.wf(),
            total == lines@.len(),
            all == text::views(lines@),
            start == start_index,
            start <= i,
            i <= total || i == start,
            toc_panel::entry_views(entries@) == entries_between(all, start, i as int),
            has_found_entries == (entries@.len() > 0),
            consecutive_empty_lines == counted(blank_run(all, start, i as int) as int),
            !has_found_entries ==> lines_without_entries == counted(i - start),
            !has_found_entries ==> i - start <= MAX_LINES_WITHOUT_ENTRIES,
            toc_end(all, start, start) == toc_end(all, start, i as int),
        decreases total - i,
    {
        let trimmed_line = lines[i].trim_end();
        assert(all[i as int] == lines@[i as int]@);
        if should_stop_parsing(
            patterns,
            trimmed_line,
            has_found_entries,
            &mut consecutive_empty_lines,
            &mut lines_without_entries,
        ) {
            assert(ends_toc(all, start, i as int));
            return entries;
        }
        assert(!ends_toc(all, start, i as int));
        let ghost before = entries@;
        match try_extract_entry(patterns, trimmed_line, lines, i) {
            Some(entry) => {
                has_found_entries = true;
                entries.push(entry);
                assert(toc_panel::entry_views(entries@) =~= toc_panel::entry_views(before).push(
                    entry@,
                ));
            },
            None => {},
        }
        i = i + 1;
    }
    entries
}

/// Reads the table of contents that a document holds. `None` stands for a
/// document without one, or with one that has no entries.
pub fn parse_toc_existing(content: &str) -> (r: Option<Vec<TocEntry>>)
    ensures
        ({
            let all = text::lines_of(content@);
            match toc_start(all) {
                None => r is None,
                Some(start) => {
                    &&& r is Some == (existing_entries(all, start).len() > 0)
                    &&& r matches Some(entries) ==> toc_panel::entry_views(entries@)
                        == existing_entries(all, start)
                },
            }
        }),
{
    let lines = text::lines(content);
    let patterns = TocPatterns::compile();
    match find_toc_start(&patterns, &lines) {
        None => None,
        Some(start_index) => {
            let entries = extract_toc_entries(&patterns, &lines, start_index);
            assert(toc_panel::entry_views(entries@).len() == entries@.len());
            if entries.is_empty() {
                None
            } else {
                Some(entries)
            }
        },
    }
}

/// What a line without trailing whitespace is to the heuristic.
#[derive(Debug, Clone, Copy, PartialEq, Eq, Structural)]
pub enum HeadingKind {
    /// A numbered section heading, such as `1. Introduction`.
    Section,
    /// A heading in capital letters.
    Capitals,
    /// Anything else.
    Other,
}

/// Whether a line starts with a digit and holds a dot.
pub open spec fn is_numbered(line: Seq<char>) -> bool {
    line.len() > 0 && '0' <= line[0] <= '9' && line.contains('.')
}

/// What a line is to the heuristic, given its uppercase form. A section heading
/// is numbered and has no space before its first dot. A heading in capitals is
/// not numbered, takes more than three bytes and equals its uppercase form.
pub open spec fn heading_kind(line: Seq<char>, uppercase: Seq<char>) -> HeadingKind {
    if is_numbered(line) {
        if line.take(text::index_of_char(line, '.')).contains(' ') {
            HeadingKind::Other
        } else {
            HeadingKind::Section
        }
    } else if text::byte_len(line) > 3 && line == uppercase {
        HeadingKind::Capitals
    } else {
        HeadingKind::Other
    }
}

/// Tells what a line is to the heuristic, given its uppercase form.
pub fn classify_heading(line: &str, uppercase: &String) -> (r: HeadingKind)
    ensures
        r == heading_kind(line@, uppercase@),
{
    let dot: Option<usize> = text::find_char(line, '.');
    let starts_with_digit = if line.is_empty() {
        false
    } else {
        let first: char = line.get_char(0);
        '0' <= first && first <= '9'
    };
    proof {
        text::lemma_contains_char(line@, '.');
    }
    match dot {
        Some(pos) => {
            if starts_with_digit {
                proof {
                    text::lemma_find_from(line@, 0, text::equals_char('.'));
                    text::lemma_chars_before_prefix(line@, text::index_of_char(line@, '.'));
                }
                let label = text::split_at_byte(line, pos).0;
                proof {
                    text::lemma_contains_char(label@, ' ');
                }
                return match text::find_char(label, ' ') {
                    Some(_) => HeadingKind::Other,
                    None => HeadingKind::Section,
                };
            }
        },
        None => {},
    }
    if text::byte_count(line) > 3 && line.to_owned() == *uppercase {
        HeadingKind::Capitals
    } else {
        HeadingKind::Other
    }
}

/// What line `index` of a document is to the heuristic.
pub open spec fn kind_at(lines: Seq<Seq<char>>, index: int) -> HeadingKind {
    let line = std_text::trimmed_end(lines[index]);
    heading_kind(line, std_text::uppercase(line))
}

/// Whether a section heading stands before line `index`.
pub open spec fn section_before(lines: Seq<Seq<char>>, index: int) -> bool {
    exists|j: int| 0 <= j < index && #[trigger] kind_at(lines, j) is Section
}

/// Whether the heuristic makes line `index` an entry: a section heading always,
/// a heading in capitals while no section heading has come up.
pub open spec fn is_picked(lines: Seq<Seq<char>>, index: int) -> bool {
    ||| kind_at(lines, index) is Section
    ||| kind_at(lines, index) is Capitals && !section_before(lines, index)
}

/// The entries that the heuristic makes of the first `count` lines.
pub open spec fn heuristic_entries(lines: Seq<Seq<char>>, count: int) -> Seq<TocEntryView>
    decreases count,
{
    if count <= 0 {
        Seq::empty()
    } else if is_picked(lines, count - 1) {
        heuristic_entries(lines, count - 1).push(
            TocEntryView {
                title: std_text::trimmed_end(lines[count - 1]),
                line_number: count - 1,
            },
        )
    } else {
        heuristic_entries(lines, count - 1)
    }
}

/// Picks headings out of a document as its table of contents.
pub fn parse_toc_heuristic(content: &str) -> (r: Vec<TocEntry>)
    ensures
        toc_panel::entry_views(r@) == heuristic_entries(
            text::lines_of(content@),
            text::lines_of(content@).len() as int,
        ),
{
    let lines = text::lines(content);
    let ghost all = text::lines_of(content@);
    let mut entries: Vec<TocEntry> = Vec::new();
    let mut section_pattern = false;
    let total: usize = lines.len();
    let mut i: usize = 0;
    assert(text::views(lines@).len() == total);
    assert(toc_panel::entry_views(entries@) =~= heuristic_entries(all, 0));
    while i < total
        invariant
            total == lines@.len(),
            all == text::views(lines@),
            i <= total,
            toc_panel::entry_views(entries@) == heuristic_entries(all, i as int),
            section_pattern == section_before(all, i as int),
        decreases total - i,
    {
        let line = lines[i].trim_end();
        assert(all[i as int] == lines@[i as int]@);
        let kind = classify_heading(line, &line.to_uppercase());
        assert(kind == kind_at(all, i as int));
        let ghost before = entries@;
        if kind == HeadingKind::Section || (kind == HeadingKind::Capitals && !section_pattern) {
            let entry = TocEntry { title: line.to_owned(), line_number: i };
            entries.push(entry);
            assert(toc_panel::entry_views(entries@) =~= toc_panel::entry_views(before).push(
                entry@,
            ));
        }
        if kind == HeadingKind::Section {
            section_pattern = true;
        }
        proof {
            if section_before(all, i + 1) && !section_before(all, i as int) {
                let j = choose|j: int| 0 <= j < i + 1 && #[trigger] kind_at(all, j) is Section;
                assert(j == i);
            }
        }
        i = i + 1;
    }
    entries
}

/// The table of contents of a document, given its lines: the one it holds, if
/// that has entries, and otherwise what the heuristic makes of it.
pub open spec fn toc_of(lines: Seq<Seq<char>>) -> Seq<TocEntryView> {
    match toc_start(lines) {
        Some(start) if existing_entries(lines, start).len() > 0 => existing_entries(lines, start),
        _ => heuristic_entries(lines, lines.len() as int),
    }
}

/// Makes the table of contents of a document.
pub fn parse_toc(content: &str) -> (r: Vec<TocEntry>)
    ensures
        toc_panel::entry_views(r@) == toc_of(text::lines_of(content@)),
{
    match parse_toc_existing(content) {
        Some(entries) => entries,
        None => parse_toc_heuristic(content),
    }
}

/// Lines at which the entries of `entries_between` appear: their rows.
pub open spec fn rows_between(lines: Seq<Seq<char>>, from: int, to: int) -> Seq<int>
    decreases to - from,
{
    if to <= from {
        Seq::empty()
    } else if entry_at(lines, to - 1) is Some {
        rows_between(lines, from, to - 1).push(to - 1)
    } else {
        rows_between(lines, from, to - 1)
    }
}

/// Whether numbers stand in strictly ascending order.
pub open spec fn ascending(numbers: Seq<int>) -> bool {
    forall|i: int, j: int|
        0 <= i < j < numbers.len() ==> #[trigger] numbers[i] < #[trigger] numbers[j]
}

/// The entries of a range of lines come in the order of their rows, one for each
/// row that has a section, and each points at a later line of the document.
proof fn lemma_entries_between(lines: Seq<Seq<char>>, from: int, to: int)
    requires
        0 <= from,
        to <= lines.len(),
    ensures
        ascending(rows_between(lines, from, to)),
        rows_between(lines, from, to).len() == entries_between(lines, from, to).len(),
        forall|i: int|
            0 <= i < rows_between(lines, from, to).len() ==> {
                let row = #[trigger] rows_between(lines, from, to)[i];
                let entry = entries_between(lines, from, to)[i];
                &&& from <= row < to
                &&& entry_at(lines, row) == Some(entry)
                &&& row < entry.line_number < lines.len()
            },
    decreases to - from,
{
    if from < to {
        lemma_entries_between(lines, from, to - 1);
        if let Some(row) = row_of_line(std_text::trimmed_end(lines[to - 1])) {
            text::lemma_find_from(lines, to, matched_by(section_pattern(row)));
        }
    }
}

/// The rows of the table of contents that starts at line `start`.
pub open spec fn existing_rows(lines: Seq<Seq<char>>, start: int) -> Seq<int> {
    rows_between(lines, start, toc_end(lines, start, start))
}

/// The entries of a table of contents come in the order of its rows, one for
/// each row that has a section, and each points at a later line of the document
/// than its row.
pub proof fn law_existing_entries(lines: Seq<Seq<char>>, start: int)
    requires
        0 <= start,
    ensures
        ascending(existing_rows(lines, start)),
        existing_rows(lines, start).len() == existing_entries(lines, start).len(),
        forall|i: int|
            0 <= i < existing_rows(lines, start).len() ==> {
                let row = #[trigger] existing_rows(lines, start)[i];
                let entry = existing_entries(lines, start)[i];
                &&& start <= row < toc_end(lines, start, start)
                &&& entry_at(lines, row) == Some(entry)
                &&& row < entry.line_number < lines.len()
            },
{
    if start <= lines.len() {
        law_toc_end(lines, start, start);
    }
    lemma_entries_between(lines, start, toc_end(lines, start, start));
}

/// The heuristic lists lines of the document from top to bottom, each under
/// its own text and at most once.
pub proof fn law_heuristic_entries(lines: Seq<Seq<char>>, count: int)
    requires
        0 <= count <= lines.len(),
    ensures
        forall|i: int|
            0 <= i < heuristic_entries(lines, count).len() ==> {
                let entry = #[trigger] heuristic_entries(lines, count)[i];
                &&& 0 <= entry.line_number < count
                &&& is_picked(lines, entry.line_number)
                &&& entry.title == std_text::trimmed_end(lines[entry.line_number])
            },
        forall|i: int, j: int|
            0 <= i < j < heuristic_entries(lines, count).len() ==> (#[trigger] heuristic_entries(
                lines,
                count,
            )[i]).line_number < (#[trigger] heuristic_entries(lines, count)[j]).line_number,
    decreases count,
{
    if count > 0 {
        law_heuristic_entries(lines, count - 1);
        let before = heuristic_entries(lines, count - 1);
        let after = heuristic_entries(lines, count);
        assert(forall|i: int| 0 <= i < before.len() ==> #[trigger] after[i] == before[i]);
    }
}

/// Where a table of contents that starts at line `start` ends: within the
/// document, at the first line that ends it.
pub proof fn law_toc_end(lines: Seq<Seq<char>>, start: int, index: int)
    requires
        0 <= start <= index <= lines.len(),
    ensures
        index <= toc_end(lines, start, index) <= lines.len(),
        toc_end(lines, start, index) < lines.len() ==> ends_toc(
            lines,
            start,
            toc_end(lines, start, index),
        ),
        forall|k: int|
            index <= k < toc_end(lines, start, index) ==> !#[trigger] ends_toc(lines, start, k),
    decreases lines.len() - index,
{
    if index < lines.len() && !ends_toc(lines, start, index) {
        law_toc_end(lines, start, index + 1);
    }
}

/// Every entry of the table of contents points at a line of the document.
pub proof fn law_toc_lines_in_document(lines: Seq<Seq<char>>)
    ensures
        forall|i: int|
            0 <= i < toc_of(lines).len() ==> 0 <= (#[trigger] toc_of(lines)[i]).line_number
                < lines.len(),
{
    text::lemma_find_from(lines, 0, is_toc_header());
    law_heuristic_entries(lines, lines.len() as int);
    if let Some(start) = toc_start(lines) {
        law_existing_entries(lines, start);
        assert forall|i: int| 0 <= i < existing_entries(lines, start).len() implies 0 <= (
        #[trigger] existing_entries(lines, start)[i]).line_number < lines.len() by {
            let row = existing_rows(lines, start)[i];
            assert(row < existing_entries(lines, start)[i].line_number);
        }
    }
}

pub proof fn lemma_no_entries(lines: Seq<Seq<char>>, from: int, to: int)
    requires
        forall|j: int| from <= j < to ==> #[trigger] entry_at(lines, j) is None,
    ensures
        entries_between(lines, from, to).len() == 0,
    decreases to - from,
{
    if from < to {
        assert(entry_at(lines, to - 1) is None);
        lemma_no_entries(lines, from, to - 1);
    }
}

/// Entries of a longer range begin with those of a shorter one.
pub proof fn lemma_more_entries(lines: Seq<Seq<char>>, from: int, to: int, further: int)
    requires
        to <= further,
    ensures
        entries_between(lines, from, to).len() <= entries_between(lines, from, further).len(),
    decreases further - to,
{
    if to < further {
        lemma_more_entries(lines, from, to, further - 1);
        if further <= from {
            assert(entries_between(lines, from, to).len() == 0);
        }
    }
}

/// A table of contents that has not ended by line `index` has entries if that
/// line or one of those before it is the row of one.
proof fn lemma_entries_in_time(lines: Seq<Seq<char>>, start: int, index: int)
    requires
        0 <= start <= index < lines.len(),
        index < start + MAX_LINES_WITHOUT_ENTRIES,
        entry_at(lines, index) is Some,
        forall|j: int| start <= j < index ==> #[trigger] entry_at(lines, j) is None,
    ensures
        existing_entries(lines, start).len() > 0,
{
    law_toc_end(lines, start, start);
    let end = toc_end(lines, start, start);
    if end <= index {
        lemma_no_entries(lines, start, end);
        assert(ends_toc(lines, start, end));
    } else {
        assert(entries_between(lines, start, index + 1).len() > 0);
        lemma_more_entries(lines, start, index + 1, end);
    }
}

/// The first line from `index` on that is the row of an entry.
pub proof fn lemma_first_entry(lines: Seq<Seq<char>>, start: int, index: int, bound: int) -> (first:
    int)
    requires
        start <= index < bound,
        forall|j: int| start <= j < index ==> #[trigger] entry_at(lines, j) is None,
        exists|j: int| index <= j < bound && #[trigger] entry_at(lines, j) is Some,
    ensures
        index <= first < bound,
        entry_at(lines, first) is Some,
        forall|j: int| start <= j < first ==> #[trigger] entry_at(lines, j) is None,
    decreases bound - index,
{
    if entry_at(lines, index) is Some {
        index
    } else {
        let j = choose|j: int| index <= j < bound && #[trigger] entry_at(lines, j) is Some;
        assert(j != index);
        lemma_first_entry(lines, start, index + 1, bound)
    }
}

/// A table of contents has no entries exactly if none of its first lines is the
/// row of one. A later row comes too late.
pub proof fn law_toc_timeout(lines: Seq<Seq<char>>, start: int)
    requires
        0 <= start,
    ensures
        existing_entries(lines, start).len() == 0 <==> (forall|j: int|
            start <= j < start + MAX_LINES_WITHOUT_ENTRIES && j < lines.len()
                ==> #[trigger] entry_at(lines, j) is None),
{
    let end = toc_end(lines, start, start);
    let limit = start + MAX_LINES_WITHOUT_ENTRIES;
    if start <= lines.len() {
        law_toc_end(lines, start, start);
        if forall|j: int| start <= j < limit && j < lines.len() ==> #[trigger] entry_at(lines, j)
            is None {
            if end > limit {
                lemma_no_entries(lines, start, limit);
                assert(ends_toc(lines, start, limit));
            }
            lemma_no_entries(lines, start, end);
        } else {
            let bound = if limit < lines.len() {
                limit
            } else {
                lines.len() as int
            };
            let first = lemma_first_entry(lines, start, start, bound);
            lemma_entries_in_time(lines, start, first);
        }
    }
}

/// A heading without an entry in the lines right behind it is no table of
/// contents: the document is then read by the heuristic.
pub proof fn law_late_toc(lines: Seq<Seq<char>>, start: int)
    requires
        toc_start(lines) == Some(start),
        forall|j: int|
            start <= j < start + MAX_LINES_WITHOUT_ENTRIES && j < lines.len()
                ==> #[trigger] entry_at(lines, j) is None,
    ensures
        toc_of(lines) == heuristic_entries(lines, lines.len() as int),
{
    text::lemma_find_from(lines, 0, is_toc_header());
    law_toc_timeout(lines, start);
}

/// A body heading ends a table of contents that has entries.
pub proof fn law_heading_ends_toc(lines: Seq<Seq<char>>, start: int, index: int)
    requires
        0 <= start <= index < lines.len(),
        entries_between(lines, start, index).len() > 0,
        is_section_heading(std_text::trimmed_end(lines[index])),
        !has_page_number(std_text::trimmed_end(lines[index])),
    ensures
        toc_end(lines, start, start) <= index,
        forall|i: int|
            0 <= i < existing_rows(lines, start).len() ==> #[trigger] existing_rows(lines, start)[i]
                < index,
{
    law_toc_end(lines, start, start);
    law_existing_entries(lines, start);
    if toc_end(lines, start, start) > index {
        assert(ends_toc(lines, start, index));
    }
}

} // verus!
