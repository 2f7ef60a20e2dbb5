//! Laws of the table of contents: which lines of a document become entries, told
//! from headings, rows, blank lines and the characters of the lines.

use vstd::prelude::*;

use crate::pattern;
use crate::std_text;
use crate::text;
use crate::ui::toc_panel;
use crate::ui::toc_panel::TocEntryView;
use crate::ui::toc_parsing;
use crate::ui::toc_parsing::TocRowView;

verus! {

/// A table of contents starts behind the first line that reads as its heading,
/// and there is none without such a line.
pub proof fn law_start(lines: Seq<Seq<char>>)
    ensures
        ({
            let header =
                "^((?:Table of Contents|Contents)|(?:TABLE OF CONTENTS)|(?:\\d+\\.?\\s+Table of Contents))$"@;
            match toc_parsing::toc_start(lines) {
                Some(start) => {
                    &&& 0 < start <= lines.len()
                    &&& pattern::regex_matches(header, std_text::trimmed(lines[start - 1]))
                    &&& forall|i: int|
                        0 <= i < start - 1 ==> !pattern::regex_matches(
                            header,
                            std_text::trimmed(#[trigger] lines[i]),
                        )
                },
                None => forall|i: int|
                    0 <= i < lines.len() ==> !pattern::regex_matches(
                        header,
                        std_text::trimmed(#[trigger] lines[i]),
                    ),
            }
        }),
{
    let k = text::find_from(lines, 0, toc_parsing::is_toc_header());
    text::lemma_find_from(lines, 0, toc_parsing::is_toc_header());
    assert forall|i: int| 0 <= i < k implies !pattern::regex_matches(
        pattern::TOC_HEADER@,
        std_text::trimmed(#[trigger] lines[i]),
    ) by {
        assert(!toc_parsing::is_toc_header()(lines[i]));
    }
}

/// A row is the second and the third group of the pattern for numbered rows,
/// without whitespace around them, or of the pattern for appendix rows where
/// that for numbered rows does not match.
pub proof fn law_row(line: Seq<char>)
    ensures
        ({
            let numbered = pattern::regex_groups(
                "^\\s*(\\d+(?:\\.\\d+)*\\.?)\\s+(.*?)(?:\\.{2,}\\s*\\d+)?$"@,
                line,
            );
            let appendix = pattern::regex_groups(
                "^\\s*(Appendix\\s+[A-Z]\\.?)\\s+(.*?)(?:\\.{2,}\\s*\\d+)?$"@,
                line,
            );
            let groups = if numbered is Some {
                numbered
            } else {
                appendix
            };
            &&& groups is None ==> toc_parsing::row_of_line(line) is None
            &&& groups is Some && groups->0.len() < 3 ==> toc_parsing::row_of_line(line) is None
            &&& groups is Some && groups->0.len() >= 3 ==> toc_parsing::row_of_line(line) == Some(
                TocRowView {
                    label: std_text::trimmed(groups->0[1]->0),
                    title: std_text::trimmed(groups->0[2]->0),
                },
            )
        }),
{
}

/// The entry of a row stands at the first line behind it that starts with its
/// label and its title, under the two with a space between them. There is one
/// exactly if there is such a line.
pub proof fn law_row_entry(lines: Seq<Seq<char>>, trimmed_line: Seq<char>, index: int)
    requires
        0 <= index,
    ensures
        match toc_parsing::row_of_line(trimmed_line) {
            None => toc_parsing::entry_of_row(lines, trimmed_line, index) is None,
            Some(row) => {
                let section = "^\\s*"@ + pattern::escaped(row.label) + "\\s+"@ + pattern::escaped(
                    row.title,
                );
                match toc_parsing::entry_of_row(lines, trimmed_line, index) {
                    Some(entry) => {
                        &&& entry.title == row.label + " "@ + row.title
                        &&& index < entry.line_number < lines.len()
                        &&& pattern::regex_matches(section, lines[entry.line_number])
                        &&& forall|j: int|
                            index < j < entry.line_number ==> !pattern::regex_matches(
                                section,
                                #[trigger] lines[j],
                            )
                    },
                    None => {
                        ||| !pattern::regex_compiles_with(section, usize::BITS as nat)
                        ||| forall|j: int|
                            index < j < lines.len() ==> !pattern::regex_matches(
                                section,
                                #[trigger] lines[j],
                            )
                    },
                }
            },
        },
{
    if let Some(row) = toc_parsing::row_of_line(trimmed_line) {
        let section = toc_parsing::section_pattern(row);
        if index + 1 <= lines.len() {
            let k = text::find_from(lines, index + 1, toc_parsing::matched_by(section));
            text::lemma_find_from(lines, index + 1, toc_parsing::matched_by(section));
            assert forall|j: int| index < j < k implies !pattern::regex_matches(
                section,
                #[trigger] lines[j],
            ) by {
                assert(!toc_parsing::matched_by(section)(lines[j]));
            }
        }
    }
}

/// A line stands for the entry of its text without the whitespace at its end.
pub proof fn law_line_entry(lines: Seq<Seq<char>>, index: int)
    ensures
        toc_parsing::entry_at(lines, index) == toc_parsing::entry_of_row(
            lines,
            std_text::trimmed_end(lines[index]),
            index,
        ),
{
}

/// Whether a line is a body heading: a numbered heading in the first column
/// that does not end in dots and a page number.
pub open spec fn is_body_heading(line: Seq<char>) -> bool {
    let trimmed_line = std_text::trimmed_end(line);
    &&& pattern::regex_matches("^(\\d+(?:\\.\\d+)*\\.)\\s+\\S"@, trimmed_line)
    &&& !pattern::regex_matches("\\.{2,}\\s*\\d+$"@, trimmed_line)
}

/// Whether line `k` and the four lines before it, none of them before `start`,
/// hold nothing but whitespace.
pub open spec fn ends_gap(lines: Seq<Seq<char>>, start: int, k: int) -> bool {
    &&& start <= k - 4
    &&& forall|j: int| k - 4 <= j <= k ==> std_text::trimmed_end(#[trigger] lines[j]).len() == 0
}

/// What one line does to the two counters, and when it ends the table. Once there
/// are entries a heading without a page number ends it and changes no counter,
/// and so does the fifth empty line in a row; before that the thirty-first line
/// does.
pub proof fn law_stop(
    looks_like_section: bool,
    has_page_number: bool,
    is_empty: bool,
    has_found_entries: bool,
    empty_lines: u8,
    lines_without_entries: u8,
)
    ensures
        ({
            let (stop, empty, without) = toc_parsing::stop_step(
                looks_like_section,
                has_page_number,
                is_empty,
                has_found_entries,
                empty_lines,
                lines_without_entries,
            );
            if has_found_entries && looks_like_section && !has_page_number {
                stop && empty == empty_lines && without == lines_without_entries
            } else {
                &&& !is_empty ==> empty == 0
                &&& is_empty && empty_lines < 255 ==> empty == empty_lines + 1
                &&& is_empty && empty_lines == 255 ==> empty == 255
                &&& has_found_entries ==> stop == (empty >= 5)
                &&& has_found_entries && !stop ==> without == 0
                &&& has_found_entries && stop ==> without == lines_without_entries
                &&& !has_found_entries && lines_without_entries < 255 ==> without
                    == lines_without_entries + 1
                &&& !has_found_entries && lines_without_entries == 255 ==> without == 255
                &&& !has_found_entries ==> stop == (without > 30)
            }
        }),
{
}

/// A title gets the columns of the panel but for four.
pub proof fn law_title_width(area_width: u16)
    ensures
        area_width < 4 ==> toc_panel::title_width(area_width) == 0,
        area_width >= 4 ==> toc_panel::title_width(area_width) + 4 == area_width,
{
}

proof fn lemma_blank_run(lines: Seq<Seq<char>>, from: int, index: int, count: int)
    requires
        0 <= count,
        from <= index,
    ensures
        toc_parsing::blank_run(lines, from, index) >= count <==> from <= index - count && forall|
            j: int,
        |
            index - count <= j < index ==> std_text::trimmed_end(#[trigger] lines[j]).len() == 0,
    decreases index - from,
{
    if count > 0 && from < index {
        lemma_blank_run(lines, from, index - 1, count - 1);
        if toc_parsing::is_blank(lines[index - 1]) {
            assert forall|j: int|
                from <= index - count && (forall|i: int|
                    index - count <= i < index - 1 ==> std_text::trimmed_end(
                        #[trigger] lines[i],
                    ).len() == 0) && index - count <= j < index implies std_text::trimmed_end(
                #[trigger] lines[j],
            ).len() == 0 by {
                if j == index - 1 {
                    assert(toc_parsing::is_blank(lines[j]));
                }
            }
        } else {
            assert(std_text::trimmed_end(lines[index - 1]).len() != 0);
        }
    }
}

proof fn lemma_rows_contain(lines: Seq<Seq<char>>, from: int, to: int, row: int)
    ensures
        toc_parsing::rows_between(lines, from, to).contains(row) <==> from <= row < to
            && toc_parsing::entry_at(lines, row) is Some,
    decreases to - from,
{
    let rows = toc_parsing::rows_between(lines, from, to);
    if from < to {
        lemma_rows_contain(lines, from, to - 1, row);
        let shorter = toc_parsing::rows_between(lines, from, to - 1);
        if toc_parsing::entry_at(lines, to - 1) is Some {
            assert(rows == shorter.push(to - 1));
            if shorter.contains(row) {
                let i = choose|i: int| 0 <= i < shorter.len() && shorter[i] == row;
                assert(rows[i] == row);
            }
            assert(rows[shorter.len() as int] == to - 1);
            if rows.contains(row) && row != to - 1 {
                let i = choose|i: int| 0 <= i < rows.len() && rows[i] == row;
                assert(shorter[i] == row);
            }
        }
    }
}

/// Which lines are the rows of a table of contents that starts at line `start`,
/// given the first line that is the row of an entry: that line, if it stands
/// within the first thirty, and each later row as long as neither a body heading
/// nor a gap of five blank lines has come in between. All of these are rows,
/// however many they are, and no others.
pub proof fn law_rows(lines: Seq<Seq<char>>, start: int, first: int, row: int)
    requires
        0 <= start <= first < lines.len(),
        first < start + 30,
        toc_parsing::entry_at(lines, first) is Some,
        forall|j: int| start <= j < first ==> #[trigger] toc_parsing::entry_at(lines, j) is None,
    ensures
        toc_parsing::existing_rows(lines, start).contains(row) <==> {
            &&& first <= row < lines.len()
            &&& toc_parsing::entry_at(lines, row) is Some
            &&& forall|k: int|
                first < k <= row ==> !is_body_heading(#[trigger] lines[k]) && !ends_gap(
                    lines,
                    start,
                    k,
                )
        },
{
    let end = toc_parsing::toc_end(lines, start, start);
    toc_parsing::law_toc_end(lines, start, start);
    lemma_rows_contain(lines, start, end, row);
    assert forall|k: int| start <= k <= first implies !#[trigger] toc_parsing::ends_toc(
        lines,
        start,
        k,
    ) by {
        toc_parsing::lemma_no_entries(lines, start, k);
    }
    assert forall|k: int| first < k < lines.len() implies (#[trigger] toc_parsing::ends_toc(
        lines,
        start,
        k,
    ) <==> is_body_heading(lines[k]) || ends_gap(lines, start, k)) by {
        assert(toc_parsing::entries_between(lines, start, first + 1).len() > 0);
        toc_parsing::lemma_more_entries(lines, start, first + 1, k);
        lemma_blank_run(lines, start, k + 1, 5);
    }
    assert(end > first);
    if first <= row < lines.len() {
        if row < end {
            assert forall|k: int| first < k <= row implies !is_body_heading(
                #[trigger] lines[k],
            ) && !ends_gap(lines, start, k) by {
                assert(!toc_parsing::ends_toc(lines, start, k));
            }
        } else {
            assert(toc_parsing::ends_toc(lines, start, end));
            assert(is_body_heading(lines[end]) || ends_gap(lines, start, end));
        }
    }
    if start <= row < first {
        assert(toc_parsing::entry_at(lines, row) is None);
    }
}

/// No row of a table of contents is lost: where the first row stands within the
/// first thirty lines, and no body heading and no five blank lines in a row stand
/// before a later row, the entry of that row is among the entries, however many
/// come before it.
pub proof fn law_no_row_lost(lines: Seq<Seq<char>>, start: int, first: int, row: int)
    requires
        0 <= start <= first <= row < lines.len(),
        first < start + 30,
        toc_parsing::entry_at(lines, first) is Some,
        toc_parsing::entry_at(lines, row) is Some,
        forall|k: int| start <= k <= row ==> !is_body_heading(#[trigger] lines[k]),
        forall|k: int| start <= k <= row ==> !#[trigger] ends_gap(lines, start, k),
    ensures
        toc_parsing::existing_entries(lines, start).contains(
            toc_parsing::entry_at(lines, row)->0,
        ),
{
    let earliest = toc_parsing::lemma_first_entry(lines, start, start, first + 1);
    law_rows(lines, start, earliest, row);
    let rows = toc_parsing::existing_rows(lines, start);
    assert(rows.contains(row));
    let i = choose|i: int| 0 <= i < rows.len() && rows[i] == row;
    toc_parsing::law_existing_entries(lines, start);
    assert(toc_parsing::existing_entries(lines, start)[i] == toc_parsing::entry_at(lines, row)->0);
}

/// What comes out of the rows: one entry for each, in their order.
pub proof fn law_entries_of_rows(lines: Seq<Seq<char>>, start: int, i: int)
    requires
        0 <= start,
        0 <= i < toc_parsing::existing_rows(lines, start).len(),
    ensures
        toc_parsing::existing_rows(lines, start).len() == toc_parsing::existing_entries(
            lines,
            start,
        ).len(),
        Some(toc_parsing::existing_entries(lines, start)[i]) == toc_parsing::entry_at(
            lines,
            toc_parsing::existing_rows(lines, start)[i],
        ),
        forall|j: int|
            0 <= j < i ==> #[trigger] toc_parsing::existing_rows(lines, start)[j]
                < toc_parsing::existing_rows(lines, start)[i],
{
    toc_parsing::law_existing_entries(lines, start);
}

/// Where none of the first thirty lines is the row of an entry there are none at
/// all.
pub proof fn law_no_rows(lines: Seq<Seq<char>>, start: int)
    requires
        0 <= start,
        forall|j: int|
            start <= j < start + 30 && j < lines.len() ==> #[trigger] toc_parsing::entry_at(
                lines,
                j,
            ) is None,
    ensures
        toc_parsing::existing_entries(lines, start).len() == 0,
        toc_parsing::existing_rows(lines, start).len() == 0,
{
    toc_parsing::law_toc_timeout(lines, start);
    toc_parsing::law_existing_entries(lines, start);
}

/// Whether a line reads as a numbered section: its first character is a digit,
/// and up to its first dot it has no space.
pub open spec fn reads_as_section(line: Seq<char>) -> bool {
    exists|dot: int|
        0 < dot < line.len() && '0' <= line[0] <= '9' && #[trigger] line[dot] == '.' && forall|
            i: int,
        |
            0 <= i < dot ==> #[trigger] line[i] != '.' && line[i] != ' '
}

/// Whether a line is written in capitals: it takes more than three bytes and
/// does not change where it is made uppercase. A line with a digit in front and
/// a dot is none.
pub open spec fn reads_as_capitals(line: Seq<char>) -> bool {
    &&& text::byte_len(line) > 3
    &&& std_text::uppercase(line) == line
    &&& !(line.len() > 0 && '0' <= line[0] <= '9' && exists|i: int|
        0 <= i < line.len() && line[i] == '.')
}

/// What a line is to the heuristic: a section exactly if it reads as one, and a
/// heading in capitals exactly if it takes more than three bytes, equals its
/// uppercase form and is not a line with a digit in front and a dot.
pub proof fn law_heading_kind(line: Seq<char>, uppercase: Seq<char>)
    ensures
        toc_parsing::heading_kind(line, uppercase) is Section <==> reads_as_section(line),
        toc_parsing::heading_kind(line, uppercase) is Capitals <==> {
            &&& text::byte_len(line) > 3
            &&& line == uppercase
            &&& !(line.len() > 0 && '0' <= line[0] <= '9' && exists|i: int|
                0 <= i < line.len() && line[i] == '.')
        },
{
    let k = text::index_of_char(line, '.');
    text::lemma_contains_char(line, '.');
    text::lemma_find_from(line, 0, text::equals_char('.'));
    let label = line.take(k);
    if toc_parsing::is_numbered(line) {
        assert(line[k] == '.');
        assert(forall|i: int| 0 <= i < k ==> !text::equals_char('.')(#[trigger] line[i]));
        if !label.contains(' ') {
            assert forall|i: int| 0 <= i < k implies #[trigger] line[i] != '.' && line[i]
                != ' ' by {
                assert(!text::equals_char('.')(line[i]));
                assert(label[i] == line[i]);
                assert(label.contains(label[i]));
            }
            assert(k > 0);
            assert(reads_as_section(line));
        }
        if reads_as_section(line) {
            let dot = choose|dot: int|
                0 < dot < line.len() && '0' <= line[0] <= '9' && #[trigger] line[dot] == '.'
                    && forall|i: int|
                    0 <= i < dot ==> #[trigger] line[i] != '.' && line[i] != ' ';
            assert(k <= dot) by {
                if k > dot {
                    assert(!text::equals_char('.')(line[dot]));
                }
            }
            if label.contains(' ') {
                let i = choose|i: int| 0 <= i < label.len() && label[i] == ' ';
                assert(line[i] == ' ');
            }
        }
    } else {
        if reads_as_section(line) {
            let dot = choose|dot: int|
                0 < dot < line.len() && '0' <= line[0] <= '9' && #[trigger] line[dot] == '.'
                    && forall|i: int|
                    0 <= i < dot ==> #[trigger] line[i] != '.' && line[i] != ' ';
            assert(line.contains(line[dot]));
        }
    }
}

/// Which lines the heuristic lists: every numbered section, and the lines in
/// capitals above the first of them. Each stands under its own text without the
/// whitespace at its end.
pub proof fn law_headings(lines: Seq<Seq<char>>, n: int)
    requires
        0 <= n < lines.len(),
    ensures
        toc_parsing::heuristic_entries(lines, lines.len() as int).contains(
            TocEntryView { title: std_text::trimmed_end(lines[n]), line_number: n },
        ) <==> {
            ||| reads_as_section(std_text::trimmed_end(lines[n]))
            ||| reads_as_capitals(std_text::trimmed_end(lines[n])) && forall|j: int|
                0 <= j < n ==> !reads_as_section(std_text::trimmed_end(#[trigger] lines[j]))
        },
{
    law_heading_kind(
        std_text::trimmed_end(lines[n]),
        std_text::uppercase(std_text::trimmed_end(lines[n])),
    );
    assert forall|j: int| 0 <= j < n implies (#[trigger] toc_parsing::kind_at(lines, j) is Section
        <==> reads_as_section(std_text::trimmed_end(lines[j]))) by {
        law_heading_kind(
            std_text::trimmed_end(lines[j]),
            std_text::uppercase(std_text::trimmed_end(lines[j])),
        );
    }
    if toc_parsing::section_before(lines, n) {
        let j = choose|j: int| 0 <= j < n && #[trigger] toc_parsing::kind_at(lines, j) is Section;
        assert(reads_as_section(std_text::trimmed_end(lines[j])));
    } else {
        assert forall|j: int| 0 <= j < n implies !reads_as_section(
            std_text::trimmed_end(#[trigger] lines[j]),
        ) by {
            assert(!(toc_parsing::kind_at(lines, j) is Section));
        }
    }
    lemma_heading_listed(lines, n, lines.len() as int);
}

proof fn lemma_heading_listed(lines: Seq<Seq<char>>, n: int, count: int)
    requires
        0 <= n < lines.len(),
        0 <= count <= lines.len(),
    ensures
        toc_parsing::heuristic_entries(lines, count).contains(
            TocEntryView { title: std_text::trimmed_end(lines[n]), line_number: n },
        ) <==> n < count && toc_parsing::is_picked(lines, n),
    decreases count,
{
    let entry = TocEntryView { title: std_text::trimmed_end(lines[n]), line_number: n };
    let all = toc_parsing::heuristic_entries(lines, count);
    if count > 0 {
        lemma_heading_listed(lines, n, count - 1);
        let shorter = toc_parsing::heuristic_entries(lines, count - 1);
        if toc_parsing::is_picked(lines, count - 1) {
            assert(all[shorter.len() as int].line_number == count - 1);
            if shorter.contains(entry) {
                let i = choose|i: int| 0 <= i < shorter.len() && shorter[i] == entry;
                assert(all[i] == entry);
            }
            if n == count - 1 {
                assert(all[shorter.len() as int] == entry);
            }
            if all.contains(entry) && n != count - 1 {
                let i = choose|i: int| 0 <= i < all.len() && all[i] == entry;
                assert(shorter[i] == entry);
            }
        }
    }
}

/// A label that starts with a digit and has neither dot nor space, a dot, and
/// whatever follows make a section heading, which the heuristic lists.
pub proof fn law_numbered_heading(
    lines: Seq<Seq<char>>,
    n: int,
    label: Seq<char>,
    rest: Seq<char>,
)
    requires
        0 <= n < lines.len(),
        std_text::trimmed_end(lines[n]) == label + seq!['.'] + rest,
        label.len() > 0,
        '0' <= label[0] <= '9',
        forall|i: int| 0 <= i < label.len() ==> #[trigger] label[i] != '.' && label[i] != ' ',
    ensures
        toc_parsing::heuristic_entries(lines, lines.len() as int).contains(
            TocEntryView { title: label + seq!['.'] + rest, line_number: n },
        ),
{
    let line = std_text::trimmed_end(lines[n]);
    let dot = label.len() as int;
    assert(line[dot] == '.');
    assert forall|i: int| 0 <= i < dot implies #[trigger] line[i] != '.' && line[i] != ' ' by {
        assert(line[i] == label[i]);
    }
    assert(line[0] == label[0]);
    assert(reads_as_section(line));
    law_headings(lines, n);
}

/// The heuristic lists nothing but lines of the document, each at most once and
/// from top to bottom.
pub proof fn law_headings_order(lines: Seq<Seq<char>>, i: int, j: int)
    requires
        0 <= i <= j < toc_parsing::heuristic_entries(lines, lines.len() as int).len(),
    ensures
        ({
            let entries = toc_parsing::heuristic_entries(lines, lines.len() as int);
            &&& 0 <= entries[i].line_number < lines.len()
            &&& entries[i].title == std_text::trimmed_end(lines[entries[i].line_number])
            &&& i < j ==> entries[i].line_number < entries[j].line_number
        }),
{
    toc_parsing::law_heuristic_entries(lines, lines.len() as int);
}

/// The table of contents of a document is the one that it holds, if that has
/// entries, and otherwise its headings.
pub proof fn law_toc(lines: Seq<Seq<char>>)
    ensures
        match toc_parsing::toc_start(lines) {
            Some(start) => if toc_parsing::existing_entries(lines, start).len() > 0 {
                toc_parsing::toc_of(lines) == toc_parsing::existing_entries(lines, start)
            } else {
                toc_parsing::toc_of(lines) == toc_parsing::heuristic_entries(
                    lines,
                    lines.len() as int,
                )
            },
            None => toc_parsing::toc_of(lines) == toc_parsing::heuristic_entries(
                lines,
                lines.len() as int,
            ),
        },
{
}

/// The test for an entry of a line.
pub open spec fn of_line(line: int) -> spec_fn(TocEntryView) -> bool {
    |entry: TocEntryView| entry.line_number == line
}

/// Sorting keeps the entries of one line in their order.
pub proof fn law_stable(entries: Seq<TocEntryView>, line: int)
    ensures
        toc_panel::by_line(entries).filter(of_line(line)) == entries.filter(of_line(line)),
    decreases entries.len(),
{
    if entries.len() == 0 {
        assert(toc_panel::by_line(entries) =~= entries);
    } else {
        let first = entries.drop_last();
        let entry = entries.last();
        let sorted = toc_panel::by_line(first);
        law_stable(first, line);
        toc_panel::law_by_line(first);
        let k = text::find_from(sorted, 0, toc_panel::below(entry.line_number));
        text::lemma_find_from(sorted, 0, toc_panel::below(entry.line_number));
        let head = sorted.take(k);
        let tail = sorted.skip(k);
        assert(sorted =~= head + tail);
        assert(toc_panel::by_line(entries) =~= head + (seq![entry] + tail));
        assert(entries =~= first + seq![entry]);
        Seq::filter_distributes_over_add(head, tail, of_line(line));
        Seq::filter_distributes_over_add(head, seq![entry] + tail, of_line(line));
        Seq::filter_distributes_over_add(seq![entry], tail, of_line(line));
        Seq::filter_distributes_over_add(first, seq![entry], of_line(line));
        if line == entry.line_number {
            assert forall|i: int| 0 <= i < tail.len() implies !of_line(line)(#[trigger] tail[i]) by {
                assert(tail[i] == sorted[k + i]);
                assert(toc_panel::below(entry.line_number)(sorted[k]));
            }
            lemma_filter_none(tail, of_line(line));
        } else {
            assert(!of_line(line)(seq![entry][0]));
            lemma_filter_none(seq![entry], of_line(line));
        }
        assert(toc_panel::by_line(entries).filter(of_line(line)) =~= entries.filter(
            of_line(line),
        ));
    }
}

proof fn lemma_filter_none(entries: Seq<TocEntryView>, p: spec_fn(TocEntryView) -> bool)
    requires
        forall|i: int| 0 <= i < entries.len() ==> !p(#[trigger] entries[i]),
    ensures
        entries.filter(p) == Seq::<TocEntryView>::empty(),
    decreases entries.len(),
{
    reveal(Seq::filter);
    if entries.len() > 0 {
        assert forall|i: int| 0 <= i < entries.drop_last().len() implies !p(
            #[trigger] entries.drop_last()[i],
        ) by {
            assert(entries.drop_last()[i] == entries[i]);
        }
        lemma_filter_none(entries.drop_last(), p);
        assert(!p(entries[entries.len() - 1]));
    }
}

} // verus!
