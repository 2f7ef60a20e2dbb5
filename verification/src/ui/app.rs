//! Core application logic and app state management.
//!
//! `App` is the state of the reader: the document, the scroll position, the
//! mode and the search. `AppView` is the same state as a mathematical value;
//! each operation is a function on it.

use std::collections::HashMap;

use vstd::prelude::*;

use crate::pattern;
use crate::text;
use crate::types::LineNumber;
use crate::types::MatchSpan;
use crate::types::RfcNum;
use crate::ui::flags;
use crate::ui::flags::AppFlag;
use crate::ui::flags::AppStateFlags;
use crate::ui::toc_panel;
use crate::ui::toc_panel::ListState;
use crate::ui::toc_panel::TocEntryView;
use crate::ui::toc_panel::TocPanel;
use crate::ui::toc_panel::TocPanelView;
use crate::ui::toc_parsing;

verus! {

broadcast use vstd::std_specs::hash::group_hash_axioms;

/// Initial capacity of the lists of search results.
pub const QUERY_RESULTS_INITIAL_CAPACITY: usize = 50;

/// Application mode for the current UI state.
///
/// Controls what is displayed and how the user input is interpreted.
#[derive(Debug, Clone, Copy, PartialEq, Eq, Structural)]
pub enum AppMode {
    /// Normal reading mode, default state.
    Normal,
    /// Help overlay being displayed.
    Help,
    /// Search mode, accepting search input.
    Search,
}

/// Manages the core state and UI logic.
pub struct App {
    /// Content of the currently loaded RFC.
    pub rfc_content: String,
    /// Number of the currently loaded RFC.
    pub rfc_number: RfcNum,
    /// Table of contents panel for the current document.
    pub rfc_toc_panel: TocPanel,
    /// Total line number of the content.
    pub rfc_line_number: LineNumber,
    /// Current scroll position in the document.
    pub current_scroll_pos: LineNumber,
    /// Current application mode.
    pub mode: AppMode,
    /// Flags for managing the application state.
    pub app_state: AppStateFlags,
    /// Text of the query to search.
    pub query_text: String,
    /// Cursor position in the search text (byte index).
    pub query_cursor_pos: usize,
    /// Line numbers where query matches were found.
    pub query_match_line_nums: Vec<LineNumber>,
    /// Index of the currently selected query match.
    pub current_query_match_index: LineNumber,
    /// Line numbers and their positions of query matches.
    pub query_matches: HashMap<LineNumber, Vec<MatchSpan>>,
}

/// The state of the reader as a mathematical value.
#[verifier::ext_equal]
pub struct AppView {
    pub content: Seq<char>,
    pub rfc_number: RfcNum,
    pub toc: TocPanelView,
    pub line_count: int,
    pub scroll: int,
    pub mode: AppMode,
    pub flags: Set<AppFlag>,
    pub query: Seq<char>,
    pub cursor: int,
    pub match_lines: Seq<LineNumber>,
    pub match_index: int,
    pub matches: Map<LineNumber, Seq<MatchSpan>>,
}

/// A table of spans with the contents of each list in place of the list.
pub open spec fn span_map(m: Map<LineNumber, Vec<MatchSpan>>) -> Map<LineNumber, Seq<MatchSpan>> {
    Map::new(|line: LineNumber| m.contains_key(line), |line: LineNumber| m[line]@)
}

impl View for App {
    type V = AppView;

    open spec fn view(&self) -> AppView {
        AppView {
            content: self.rfc_content@,
            rfc_number: self.rfc_number,
            toc: self.rfc_toc_panel@,
            line_count: self.rfc_line_number as int,
            scroll: self.current_scroll_pos as int,
            mode: self.mode,
            flags: self.app_state@,
            query: self.query_text@,
            cursor: self.query_cursor_pos as int,
            match_lines: self.query_match_line_nums@,
            match_index: self.current_query_match_index as int,
            matches: span_map(self.query_matches@),
        }
    }
}

impl Default for App {
    /// The reader without a document.
    fn default() -> (r: Self)
        ensures
            r@.content == Seq::<char>::empty(),
            r@.rfc_number.value() == 1,
            r@.toc.entries == Seq::<TocEntryView>::empty(),
            r@.toc.state == (ListState { selected: None, offset: 0 }),
            r@.line_count == 0,
            r@.scroll == 0,
            r@.mode == AppMode::Normal,
            r@.flags == set![AppFlag::ShouldRun],
            r@.query == Seq::<char>::empty(),
            r@.cursor == 0,
            r@.match_lines == Seq::<LineNumber>::empty(),
            r@.match_index == 0,
            r@.matches == Map::<LineNumber, Seq<MatchSpan>>::empty(),
            r@.wf(),
    {
        let r = App {
            rfc_content: String::new(),
            rfc_number: RfcNum::new(1).unwrap(),
            rfc_toc_panel: TocPanel::default(),
            rfc_line_number: 0,
            current_scroll_pos: 0,
            mode: AppMode::Normal,
            app_state: AppStateFlags::default(),
            query_text: String::new(),
            query_cursor_pos: 0,
            query_match_line_nums: Vec::with_capacity(QUERY_RESULTS_INITIAL_CAPACITY),
            current_query_match_index: 0,
            query_matches: HashMap::with_capacity(QUERY_RESULTS_INITIAL_CAPACITY),
        };
        assert(r@.matches =~= Map::empty());
        proof {
            text::lemma_boundary_ends(r@.query);
        }
        r
    }
}

/// The last line that a document of so many lines can be scrolled to.
pub open spec fn last_line(line_count: int) -> int {
    if line_count > 0 {
        line_count - 1
    } else {
        0
    }
}

impl AppView {
    /// The lines of the document.
    pub open spec fn lines(self) -> Seq<Seq<char>> {
        text::lines_of(self.content)
    }

    /// Whether the search has results to show.
    pub open spec fn has_search_results(self) -> bool {
        self.query.len() > 0 && self.match_lines.len() > 0
    }

    /// The matches are those of lines of the document, listed from top to
    /// bottom, and their spans fit these lines.
    pub open spec fn search_wf(self) -> bool {
        &&& forall|i: int|
            0 <= i < self.match_lines.len() ==> #[trigger] self.match_lines[i] < self.line_count
        &&& forall|i: int, j: int|
            0 <= i < j < self.match_lines.len() ==> #[trigger] self.match_lines[i]
                < #[trigger] self.match_lines[j]
        &&& forall|line: LineNumber| #[trigger]
            self.matches.contains_key(line) <==> self.match_lines.contains(line)
        &&& forall|line: LineNumber| #[trigger]
            self.matches.contains_key(line) ==> pattern::spans_in_order(
                self.lines()[line as int],
                self.matches[line],
            )
    }

    /// What holds of the reader at all times: the line count is that of the
    /// document, every position is a line of it, and the cursor of the query
    /// stands between two of its characters or at one of its ends.
    pub open spec fn wf(self) -> bool {
        &&& self.line_count == self.lines().len()
        &&& forall|i: int|
            0 <= i < self.toc.entries.len() ==> 0 <= (
            #[trigger] self.toc.entries[i]).line_number < self.line_count
        &&& 0 <= self.scroll <= last_line(self.line_count)
        &&& self.search_wf()
        &&& text::on_boundary(self.query, self.cursor)
    }

    /// Scrolled up by a number of lines, but not beyond the first.
    pub open spec fn scrolled_up(self, amount: int) -> AppView {
        AppView {
            scroll: if self.scroll < amount {
                0
            } else {
                self.scroll - amount
            },
            ..self
        }
    }

    /// Scrolled down by a number of lines, but not beyond the last.
    pub open spec fn scrolled_down(self, amount: int) -> AppView {
        AppView {
            scroll: if self.scroll + amount < last_line(self.line_count) {
                self.scroll + amount
            } else {
                last_line(self.line_count)
            },
            ..self
        }
    }

    /// Scrolled to the selected table of contents entry, if there is one.
    pub open spec fn jumped_to_toc_entry(self) -> AppView {
        match toc_panel::selected_line_of(self.toc) {
            Some(line) => AppView { scroll: line, ..self },
            None => self,
        }
    }

    /// With the help overlay opened or closed.
    pub open spec fn help_toggled(self) -> AppView {
        AppView {
            mode: if self.mode is Help {
                AppMode::Normal
            } else {
                AppMode::Help
            },
            ..self
        }
    }

    /// With one flag switched over.
    pub open spec fn flag_toggled(self, flag: AppFlag) -> AppView {
        AppView { flags: flags::toggled(self.flags, flag), ..self }
    }

    /// In search mode with an empty query, and without anything of the previous
    /// search.
    pub open spec fn search_entered(self) -> AppView {
        AppView {
            mode: AppMode::Search,
            query: Seq::empty(),
            cursor: 0,
            match_lines: Seq::empty(),
            matches: Map::empty(),
            match_index: 0,
            flags: self.flags.remove(AppFlag::HasNoResults),
            ..self
        }
    }

    /// Back in normal mode.
    pub open spec fn search_left(self) -> AppView {
        AppView { mode: AppMode::Normal, ..self }
    }

    /// With a character put in at the cursor, which moves behind it.
    pub open spec fn char_added(self, ch: char) -> AppView {
        AppView {
            query: self.query.insert(text::chars_before(self.query, self.cursor) as int, ch),
            cursor: self.cursor + text::char_width(ch),
            ..self
        }
    }

    /// With the character behind the cursor taken out.
    pub open spec fn char_deleted(self) -> AppView {
        if self.cursor < text::byte_len(self.query) {
            AppView {
                query: self.query.remove(text::chars_before(self.query, self.cursor) as int),
                ..self
            }
        } else {
            self
        }
    }

    /// With the cursor at the nearest character boundary to its left.
    pub open spec fn cursor_left(self) -> AppView {
        if self.cursor > 0 {
            AppView {
                cursor: text::boundary_at_or_before(self.query, self.cursor - 1),
                ..self
            }
        } else {
            self
        }
    }

    /// With the cursor at the nearest character boundary to its right.
    pub open spec fn cursor_right(self) -> AppView {
        if self.cursor < text::byte_len(self.query) {
            AppView { cursor: text::boundary_after(self.query, self.cursor), ..self }
        } else {
            self
        }
    }

    /// With the character before the cursor taken out.
    pub open spec fn char_removed(self) -> AppView {
        if self.cursor > 0 {
            self.cursor_left().char_deleted()
        } else {
            self
        }
    }

    /// With the cursor at the start of the query.
    pub open spec fn cursor_home(self) -> AppView {
        AppView { cursor: 0, ..self }
    }

    /// With the cursor at the end of the query.
    pub open spec fn cursor_end(self) -> AppView {
        AppView { cursor: text::byte_len(self.query) as int, ..self }
    }
}

impl App {
    /// Creates a new App instance with the specified RFC.
    pub fn new(rfc_number: RfcNum, rfc_content: String) -> (r: Self)
        ensures
            r@ == (AppView {
                content: rfc_content@,
                rfc_number,
                toc: r@.toc,
                line_count: text::lines_of(rfc_content@).len() as int,
                scroll: 0,
                mode: AppMode::Normal,
                flags: set![AppFlag::ShouldRun],
                query: Seq::empty(),
                cursor: 0,
                match_lines: Seq::empty(),
                match_index: 0,
                matches: Map::empty(),
            }),
            r@.toc.entries == toc_panel::by_line(
                toc_parsing::toc_of(text::lines_of(rfc_content@)),
            ),
            r@.toc.state.selected == (if r@.toc.entries.len() > 0 {
                Some(0usize)
            } else {
                None
            }),
            r@.toc.state.offset == 0,
            r@.wf(),
    {
        let rfc_toc_panel = TocPanel::new(rfc_content.as_str());
        let lines = text::lines(rfc_content.as_str());
        let rfc_line_number: usize = lines.len();
        assert(text::views(lines@).len() == lines@.len());
        let r = App {
            rfc_content,
            rfc_number,
            rfc_toc_panel,
            rfc_line_number,
            ..App::default()
        };
        proof {
            let listed = toc_parsing::toc_of(r@.lines());
            toc_parsing::law_toc_lines_in_document(r@.lines());
            toc_panel::law_by_line(listed);
            assert forall|i: int| 0 <= i < r@.toc.entries.len() implies 0 <= (
            #[trigger] r@.toc.entries[i]).line_number < r@.line_count by {
                assert(toc_panel::by_line(listed).contains(r@.toc.entries[i]));
                let j = choose|j: int| 0 <= j < listed.len() && listed[j] == r@.toc.entries[i];
            }
        }
        r
    }

    /// Scrolls the document up by the specified amount.
    pub fn scroll_up(&mut self, amount: LineNumber)
        ensures
            final(self)@ == old(self)@.scrolled_up(amount as int),
    {
        self.current_scroll_pos = self.current_scroll_pos.saturating_sub(amount);
    }

    /// Scrolls the document down by the specified amount.
    pub fn scroll_down(&mut self, amount: LineNumber)
        ensures
            final(self)@ == old(self)@.scrolled_down(amount as int),
    {
        let last_line_pos: usize = self.rfc_line_number.saturating_sub(1);
        let target: usize = self.current_scroll_pos.saturating_add(amount);
        self.current_scroll_pos = if target < last_line_pos {
            target
        } else {
            last_line_pos
        };
    }

    /// Jumps to the current table of contents entry by scrolling to its line.
    ///
    /// If no entry is selected, does nothing.
    pub fn jump_to_toc_entry(&mut self)
        ensures
            final(self)@ == old(self)@.jumped_to_toc_entry(),
    {
        if let Some(line_num) = self.rfc_toc_panel.selected_line() {
            self.current_scroll_pos = line_num;
        }
    }

    /// Toggles the help overlay.
    pub fn toggle_help(&mut self)
        ensures
            final(self)@ == old(self)@.help_toggled(),
    {
        self.mode = if self.mode == AppMode::Help {
            AppMode::Normal
        } else {
            AppMode::Help
        };
    }

    /// Toggles the table of contents panel.
    pub fn toggle_toc(&mut self)
        ensures
            final(self)@ == old(self)@.flag_toggled(AppFlag::ShouldShowToc),
    {
        self.app_state.toggle(AppFlag::ShouldShowToc);
    }

    /// Toggles case sensitivity for searches.
    pub fn toggle_case_sensitivity(&mut self)
        ensures
            final(self)@ == old(self)@.flag_toggled(AppFlag::IsCaseSensitive),
    {
        self.app_state.toggle(AppFlag::IsCaseSensitive);
    }

    /// Toggles regex mode for searches.
    pub fn toggle_regex_mode(&mut self)
        ensures
            final(self)@ == old(self)@.flag_toggled(AppFlag::IsUsingRegex),
    {
        self.app_state.toggle(AppFlag::IsUsingRegex);
    }

    /// Enters search mode, clearing any previous search.
    pub fn enter_search_mode(&mut self)
        ensures
            final(self)@ == old(self)@.search_entered(),
    {
        self.mode = AppMode::Search;
        self.query_text = String::new();
        self.query_cursor_pos = 0;
        self.query_match_line_nums.clear();
        self.query_matches.clear();
        self.current_query_match_index = 0;
        self.app_state.remove(AppFlag::HasNoResults);
        assert(self@.matches =~= Map::empty());
    }

    /// Exits search mode and returns to normal mode.
    pub fn exit_search_mode(&mut self)
        ensures
            final(self)@ == old(self)@.search_left(),
    {
        self.mode = AppMode::Normal;
    }

    /// Checks if there are any search results.
    pub fn has_search_results(&self) -> (r: bool)
        ensures
            r == self@.has_search_results(),
    {
        !self.query_text.as_str().is_empty() && !self.query_match_line_nums.is_empty()
    }

    /// Adds a character to the search text at cursor position.
    pub fn add_search_char(&mut self, ch: char)
        requires
            text::on_boundary(old(self)@.query, old(self)@.cursor),
        ensures
            final(self)@ == old(self)@.char_added(ch),
    {
        let ghost k = text::chars_before(self.query_text@, self.query_cursor_pos as int) as int;
        let ghost before = self.query_text@;
        self.query_text.insert(self.query_cursor_pos, ch);
        let len: usize = text::byte_count(self.query_text.as_str());
        proof {
            text::lemma_chars_before_bound(before, self.query_cursor_pos as int);
            let after = self.query_text@;
            assert(after.take(k) =~= before.take(k));
            text::lemma_byte_len_take_step(after, k);
            text::lemma_byte_len_monotone(after, k + 1, after.len() as int);
            assert(self.query_cursor_pos + text::char_width(ch) <= len);
        }
        self.query_cursor_pos = self.query_cursor_pos.saturating_add(text::utf8_width(ch));
    }

    /// Removes the character before the cursor in the search text.
    pub fn remove_search_char(&mut self)
        ensures
            final(self)@ == old(self)@.char_removed(),
    {
        if self.query_cursor_pos > 0 {
            self.move_search_cursor_left();
            proof {
                text::lemma_neighbour_boundaries(old(self)@.query, old(self)@.cursor - 1);
            }
            self.delete_search_char();
        }
    }

    /// Deletes the character in front of the cursor in the search text.
    pub fn delete_search_char(&mut self)
        requires
            old(self)@.cursor < text::byte_len(old(self)@.query) ==> text::on_boundary(
                old(self)@.query,
                old(self)@.cursor,
            ),
        ensures
            final(self)@ == old(self)@.char_deleted(),
    {
        if self.query_cursor_pos < text::byte_count(self.query_text.as_str()) {
            let _removed = self.query_text.remove(self.query_cursor_pos);
        }
    }

    /// Moves the search cursor left by one character.
    pub fn move_search_cursor_left(&mut self)
        ensures
            final(self)@ == old(self)@.cursor_left(),
    {
        if self.query_cursor_pos > 0 {
            let mut pos: usize = self.query_cursor_pos - 1;
            let ghost s = self.query_text@;
            let ghost target = text::boundary_at_or_before(s, self.query_cursor_pos - 1);
            proof {
                text::lemma_neighbour_boundaries(s, self.query_cursor_pos - 1);
                text::lemma_boundary_is_byte_boundary(s, pos as int);
            }
            while pos > 0 && !self.query_text.as_str().is_char_boundary(pos)
                invariant
                    s == self.query_text@,
                    target <= pos < self.query_cursor_pos,
                    target == text::boundary_at_or_before(s, self.query_cursor_pos - 1),
                    text::on_boundary(s, target),
                    forall|q: int|
                        target < q < self.query_cursor_pos ==> !#[trigger] text::on_boundary(s, q),
                    vstd::utf8::is_char_boundary(vstd::utf8::encode_utf8(s), pos as int)
                        == text::on_boundary(s, pos as int),
                    target >= 0,
                decreases pos,
            {
                pos = pos - 1;
                proof {
                    text::lemma_boundary_is_byte_boundary(s, pos as int);
                }
            }
            self.query_cursor_pos = pos;
            proof {
                if pos > 0 {
                    assert(text::on_boundary(s, pos as int));
                }
                assert(pos == target);
            }
        }
    }

    /// Moves the search cursor right by one character.
    pub fn move_search_cursor_right(&mut self)
        ensures
            final(self)@ == old(self)@.cursor_right(),
    {
        let len: usize = text::byte_count(self.query_text.as_str());
        if self.query_cursor_pos < len {
            let mut pos: usize = self.query_cursor_pos + 1;
            let ghost s = self.query_text@;
            let ghost target = text::boundary_after(s, self.query_cursor_pos as int);
            proof {
                text::lemma_neighbour_boundaries(s, self.query_cursor_pos as int);
                text::lemma_boundary_is_byte_boundary(s, pos as int);
            }
            while pos < len && !self.query_text.as_str().is_char_boundary(pos)
                invariant
                    s == self.query_text@,
                    len == text::byte_len(s),
                    self.query_cursor_pos < pos <= target <= len,
                    target == text::boundary_after(s, self.query_cursor_pos as int),
                    text::on_boundary(s, target),
                    forall|q: int|
                        self.query_cursor_pos < q < target ==> !#[trigger] text::on_boundary(s, q),
                    vstd::utf8::is_char_boundary(vstd::utf8::encode_utf8(s), pos as int)
                        == text::on_boundary(s, pos as int),
                decreases len - pos,
            {
                pos = pos + 1;
                proof {
                    text::lemma_boundary_is_byte_boundary(s, pos as int);
                }
            }
            self.query_cursor_pos = pos;
        }
    }

    /// Moves the search cursor to the start of the text.
    pub fn move_search_cursor_home(&mut self)
        ensures
            final(self)@ == old(self)@.cursor_home(),
    {
        self.query_cursor_pos = 0;
    }

    /// Moves the search cursor to the end of the text.
    pub fn move_search_cursor_end(&mut self)
        ensures
            final(self)@ == old(self)@.cursor_end(),
    {
        self.query_cursor_pos = text::byte_count(self.query_text.as_str());
    }
}

} // verus!
