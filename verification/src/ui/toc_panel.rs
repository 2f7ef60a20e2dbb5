//! The table of contents panel: its entries and the selected one.

use vstd::prelude::*;

use crate::text;
use crate::types::LineNumber;
use crate::ui::toc_parsing;

verus! {

/// A table of contents entry as a mathematical value.
#[verifier::ext_equal]
pub struct TocEntryView {
    pub title: Seq<char>,
    pub line_number: int,
}

/// An entry of the table of contents.
#[derive(Debug)]
pub struct TocEntry {
    /// The title text of the section.
    pub title: String,
    /// The line number where this section appears in the document.
    pub line_number: LineNumber,
}

impl View for TocEntry {
    type V = TocEntryView;

    open spec fn view(&self) -> TocEntryView {
        TocEntryView { title: self.title@, line_number: self.line_number as int }
    }
}

impl Clone for TocEntry {
    fn clone(&self) -> (r: Self)
        ensures
            r@ == self@,
    {
        TocEntry { title: self.title.clone(), line_number: self.line_number }
    }
}

impl Default for TocEntry {
    fn default() -> (r: Self)
        ensures
            r.title@.len() == 0,
            r.line_number == 0,
    {
        TocEntry { title: String::new(), line_number: 0 }
    }
}

/// The entries of a list as mathematical values.
pub open spec fn entry_views(entries: Seq<TocEntry>) -> Seq<TocEntryView> {
    Seq::new(entries.len(), |i: int| entries[i]@)
}

/// Symbol in front of the selected entry.
pub const TOC_HIGHLIGHT_SYMBOL: &'static str = "> ";

/// Columns of the panel that no title can use: the two of the highlight symbol
/// and two for the border.
pub const TOC_RESERVED_COLUMNS: usize = 4;

/// Which entry of a list is selected, and which one is shown first.
#[derive(Debug, Clone, Copy, PartialEq, Eq, Structural)]
pub struct ListState {
    pub selected: Option<usize>,
    pub offset: usize,
}

impl Default for ListState {
    fn default() -> (r: Self)
        ensures
            r.selected is None,
            r.offset == 0,
    {
        ListState { selected: None, offset: 0 }
    }
}

/// A table of contents panel as a mathematical value.
#[verifier::ext_equal]
pub struct TocPanelView {
    pub entries: Seq<TocEntryView>,
    pub state: ListState,
}

/// Panel that displays and manages a table of contents.
pub struct TocPanel {
    /// Collection of table of contents entries.
    entries: Vec<TocEntry>,
    /// Current selection state.
    state: ListState,
}

impl View for TocPanel {
    type V = TocPanelView;

    closed spec fn view(&self) -> TocPanelView {
        TocPanelView { entries: entry_views(self.entries@), state: self.state }
    }
}

impl Default for TocPanel {
    fn default() -> (r: Self)
        ensures
            r@.entries.len() == 0,
            r@.state.selected is None,
            r@.state.offset == 0,
    {
        TocPanel { entries: Vec::new(), state: ListState::default() }
    }
}

/// The line of the selected entry, if the selection points at one.
pub open spec fn selected_line_of(panel: TocPanelView) -> Option<int> {
    match panel.state.selected {
        Some(i) if i < panel.entries.len() => Some(panel.entries[i as int].line_number),
        _ => None,
    }
}

/// A panel with the next entry selected. Drawing brings a selection behind the
/// last entry back to it.
pub open spec fn next_selected(panel: TocPanelView) -> TocPanelView {
    match panel.state.selected {
        Some(i) if i < usize::MAX => TocPanelView {
            state: ListState { selected: Some((i + 1) as usize), ..panel.state },
            ..panel
        },
        _ => panel,
    }
}

/// A panel with the previous entry selected.
pub open spec fn previous_selected(panel: TocPanelView) -> TocPanelView {
    match panel.state.selected {
        Some(i) if i > 0 => TocPanelView {
            state: ListState { selected: Some((i - 1) as usize), ..panel.state },
            ..panel
        },
        _ => panel,
    }
}

/// Whether an entry stands for a line.
pub open spec fn has_entry_at(entries: Seq<TocEntryView>, line: int) -> bool {
    exists|i: int| 0 <= i < entries.len() && (#[trigger] entries[i]).line_number == line
}

/// Entries in the order of their lines.
pub open spec fn sorted_by_line(entries: Seq<TocEntryView>) -> bool {
    forall|i: int, j: int|
        0 <= i < j < entries.len() ==> (#[trigger] entries[i]).line_number <= (
        #[trigger] entries[j]).line_number
}

/// The test for an entry that stands below a line.
pub open spec fn below(line: int) -> spec_fn(TocEntryView) -> bool {
    |entry: TocEntryView| entry.line_number > line
}

/// Entries with one more put in before the first of them that stands below it.
pub open spec fn with_entry(entries: Seq<TocEntryView>, entry: TocEntryView) -> Seq<TocEntryView> {
    entries.insert(text::find_from(entries, 0, below(entry.line_number)), entry)
}

/// Entries in the order of their lines. Those of one line keep their order.
pub open spec fn by_line(entries: Seq<TocEntryView>) -> Seq<TocEntryView>
    decreases entries.len(),
{
    if entries.len() == 0 {
        Seq::empty()
    } else {
        with_entry(by_line(entries.drop_last()), entries.last())
    }
}

/// Sorting puts the entries in the order of their lines, neither loses nor adds
/// one, and leaves entries that are in order as they are.
pub proof fn law_by_line(entries: Seq<TocEntryView>)
    ensures
        sorted_by_line(by_line(entries)),
        by_line(entries).to_multiset() == entries.to_multiset(),
        forall|entry: TocEntryView| #[trigger]
            by_line(entries).contains(entry) <==> entries.contains(entry),
        sorted_by_line(entries) ==> by_line(entries) == entries,
    decreases entries.len(),
{
    if entries.len() == 0 {
        assert(entries =~= Seq::empty());
    } else {
        let first = entries.drop_last();
        let entry = entries.last();
        let sorted = by_line(first);
        law_by_line(first);
        let k = text::find_from(sorted, 0, below(entry.line_number));
        text::lemma_find_from(sorted, 0, below(entry.line_number));
        assert(sorted_by_line(by_line(entries))) by {
            let all = by_line(entries);
            assert forall|i: int, j: int| 0 <= i < j < all.len() implies (
            #[trigger] all[i]).line_number <= (#[trigger] all[j]).line_number by {
                if i < k {
                    assert(all[i] == sorted[i]);
                    assert(!below(entry.line_number)(sorted[i]));
                } else if i > k {
                    assert(all[i] == sorted[i - 1]);
                }
                if j < k {
                    assert(all[j] == sorted[j]);
                } else if j > k {
                    assert(all[j] == sorted[j - 1]);
                    assert(below(entry.line_number)(sorted[k]));
                }
            }
        }
        sorted.to_multiset_ensures();
        first.to_multiset_ensures();
        vstd::seq_lib::to_multiset_insert(sorted, k, entry);
        assert(entries =~= first.push(entry));
        if sorted_by_line(entries) {
            assert forall|i: int, j: int| 0 <= i < j < first.len() implies (
            #[trigger] first[i]).line_number <= (#[trigger] first[j]).line_number by {
                assert(entries[i].line_number <= entries[j].line_number);
            }
            if k < sorted.len() {
                assert(entries[k] == first[k]);
                assert(entries[k].line_number <= entries[entries.len() - 1].line_number);
            }
            assert(by_line(entries) =~= entries);
        }
    }
    entries.to_multiset_ensures();
    by_line(entries).to_multiset_ensures();
    assert forall|entry: TocEntryView| #[trigger]
        by_line(entries).contains(entry) <==> entries.contains(entry) by {
        assert(by_line(entries).to_multiset().count(entry) == entries.to_multiset().count(entry));
    }
}

/// Sorts entries by line, keeping the order of those of one line.
pub fn sort_by_line(entries: Vec<TocEntry>) -> (r: Vec<TocEntry>)
    ensures
        entry_views(r@) == by_line(entry_views(entries@)),
{
    let ghost given = entries@;
    let ghost all = entry_views(given);
    let mut sorted: Vec<TocEntry> = Vec::new();
    assert(entry_views(sorted@) =~= by_line(all.take(0)));
    for entry in it: entries
        invariant
            it.seq() == given,
            all == entry_views(given),
            entry_views(sorted@) == by_line(all.take(it.index())),
    {
        let ghost i = it.index();
        let ghost before = sorted@;
        let ghost view = entry@;
        let total: usize = sorted.len();
        let mut at: usize = 0;
        while at < total && sorted[at].line_number <= entry.line_number
            invariant
                total == sorted@.len(),
                at <= total,
                forall|j: int|
                    0 <= j < at ==> !below(entry@.line_number)(
                        #[trigger] entry_views(sorted@)[j],
                    ),
            decreases total - at,
        {
            at = at + 1;
        }
        proof {
            text::lemma_find_from_is(entry_views(sorted@), 0, below(view.line_number), at as int);
        }
        sorted.insert(at, entry);
        proof {
            assert(view == all[i]);
            assert(all.take(i + 1).drop_last() =~= all.take(i));
            assert(entry_views(sorted@) =~= entry_views(before).insert(at as int, view));
        }
    }
    assert(all.take(all.len() as int) =~= all);
    sorted
}

impl TocPanel {
    /// The entries are sorted by line.
    #[verifier::type_invariant]
    closed spec fn is_sorted(self) -> bool {
        sorted_by_line(entry_views(self.entries@))
    }

    /// Creates the panel for a document, with its entries in the order in which
    /// their sections appear. The first entry is selected, if there is one.
    pub fn new(content: &str) -> (r: Self)
        ensures
            r@.entries == by_line(toc_parsing::toc_of(text::lines_of(content@))),
            sorted_by_line(r@.entries),
            r@.state.selected == (if r@.entries.len() > 0 {
                Some(0usize)
            } else {
                None
            }),
            r@.state.offset == 0,
    {
        let entries = sort_by_line(toc_parsing::parse_toc(content));
        proof {
            law_by_line(toc_parsing::toc_of(text::lines_of(content@)));
        }
        let mut state = ListState::default();
        assert(entry_views(entries@).len() == entries@.len());
        if !entries.is_empty() {
            state.selected = Some(0);
        }
        TocPanel { entries, state }
    }

    /// Returns the entries, sorted by their first appearance.
    pub fn entries(&self) -> (r: &[TocEntry])
        ensures
            entry_views(r@) == self@.entries,
            sorted_by_line(self@.entries),
    {
        proof {
            use_type_invariant(self);
        }
        self.entries.as_slice()
    }

    /// Returns the selection.
    pub fn state(&self) -> (r: ListState)
        ensures
            r == self@.state,
    {
        self.state
    }

    /// Takes over the selection that drawing the panel has settled on.
    pub fn set_state(&mut self, state: ListState)
        ensures
            final(self)@ == (TocPanelView { state, ..old(self)@ }),
    {
        proof {
            use_type_invariant(&*self);
        }
        self.state = state;
    }

    /// Moves the selection to the next entry.
    pub fn next(&mut self)
        ensures
            final(self)@ == next_selected(old(self)@),
    {
        proof {
            use_type_invariant(&*self);
        }
        if let Some(i) = self.state.selected {
            self.state.selected = Some(i.saturating_add(1));
        }
    }

    /// Moves the selection to the previous entry.
    pub fn previous(&mut self)
        ensures
            final(self)@ == previous_selected(old(self)@),
    {
        proof {
            use_type_invariant(&*self);
        }
        if let Some(i) = self.state.selected {
            self.state.selected = Some(i.saturating_sub(1));
        }
    }

    /// Returns the line number of the selected entry, or `None` if no entry is
    /// selected.
    pub fn selected_line(&self) -> (r: Option<LineNumber>)
        ensures
            r is Some == selected_line_of(self@) is Some,
            r matches Some(line) ==> line == selected_line_of(self@)->0,
    {
        match self.state.selected {
            Some(i) => {
                if i < self.entries.len() {
                    Some(self.entries[i].line_number)
                } else {
                    None
                }
            },
            None => None,
        }
    }

    /// Tells whether a line of the document is the title of an entry, by a
    /// binary search in the entries.
    pub fn is_title_line(&self, line: LineNumber) -> (r: bool)
        ensures
            r == has_entry_at(self@.entries, line as int),
    {
        proof {
            use_type_invariant(self);
        }
        let ghost all = self@.entries;
        let mut low: usize = 0;
        let mut high: usize = self.entries.len();
        while low < high
            invariant
                all == entry_views(self.entries@),
                sorted_by_line(all),
                low <= high <= self.entries@.len(),
                forall|i: int| 0 <= i < low ==> (#[trigger] all[i]).line_number < line,
                forall|i: int| high <= i < all.len() ==> (#[trigger] all[i]).line_number > line,
            decreases high - low,
        {
            let middle: usize = low + (high - low) / 2;
            let found: LineNumber = self.entries[middle].line_number;
            assert(all[middle as int].line_number == found);
            if found == line {
                return true;
            }
            if found < line {
                low = middle + 1;
            } else {
                high = middle;
            }
        }
        false
    }

    /// Returns the title of each entry, wrapped to the width of the panel.
    pub fn wrapped_titles(&self, area_width: u16) -> (r: Vec<Vec<String>>)
        ensures
            r@.len() == self@.entries.len(),
            forall|i: int|
                0 <= i < r@.len() ==> string_views(#[trigger] r@[i]@) == wrapped_lines(
                    self@.entries[i].title,
                    title_width(area_width),
                ),
    {
        assert(TOC_HIGHLIGHT_SYMBOL@.len() + 2 == TOC_RESERVED_COLUMNS) by {
            reveal_strlit("> ");
        }
        let width: usize = (area_width as usize).saturating_sub(TOC_RESERVED_COLUMNS);
        let total: usize = self.entries.len();
        let mut titles: Vec<Vec<String>> = Vec::new();
        let mut i: usize = 0;
        while i < total
            invariant
                total == self.entries@.len(),
                i <= total,
                width == title_width(area_width),
                titles@.len() == i,
                forall|j: int|
                    0 <= j < i ==> string_views(#[trigger] titles@[j]@) == wrapped_lines(
                        self.entries@[j].title@,
                        width,
                    ),
            decreases total - i,
        {
            titles.push(wrap_title(self.entries[i].title.as_str(), width));
            i = i + 1;
        }
        titles
    }
}

/// Columns that a title may use in a panel of the given width.
pub open spec fn title_width(area_width: u16) -> usize {
    if area_width < TOC_RESERVED_COLUMNS {
        0
    } else {
        (area_width - TOC_RESERVED_COLUMNS) as usize
    }
}

/// The texts that a list of strings holds.
pub open spec fn string_views(lines: Seq<String>) -> Seq<Seq<char>> {
    Seq::new(lines.len(), |i: int| lines[i]@)
}

/// The lines into which `textwrap::wrap` breaks a text at a width, with its
/// default options.
pub uninterp spec fn wrapped_lines(text: Seq<char>, width: usize) -> Seq<Seq<char>>;

/// Breaks a text into lines with `textwrap::wrap`.
#[verifier::external_body]
fn wrap_title(text: &str, width: usize) -> (r: Vec<String>)
    ensures
        string_views(r@) == wrapped_lines(text@, width),
{
    textwrap::wrap(text, width).into_iter().map(|line| line.into_owned()).collect()
}

} // verus!
