//! The texts of the status bar and of the window title.

use vstd::prelude::*;

use crate::text;
use crate::types::LineNumber;
use crate::types::RfcNum;
use crate::ui::app;
use crate::ui::app::App;
use crate::ui::app::AppMode;
use crate::ui::app::AppView;
use crate::ui::flags::AppFlag;

verus! {

/// Mark of an option that is off.
pub const EMPTY_BOX_CHAR: char = '☐';

/// Mark of an option that is on.
pub const CHECKED_BOX_CHAR: char = '☑';

/// The mark of an option.
pub open spec fn box_of(is_on: bool) -> char {
    if is_on {
        CHECKED_BOX_CHAR
    } else {
        EMPTY_BOX_CHAR
    }
}

/// How many of a hundred parts of a document lie above a line. A document of
/// one line is always read through, an empty one never.
pub open spec fn percentage(scroll: int, line_count: int) -> int {
    if line_count > 1 {
        scroll * 100 / (line_count - 1)
    } else if line_count == 1 {
        100
    } else {
        0
    }
}

/// The number of columns that a text is given in the status bar, which counts
/// columns in sixteen bits.
pub open spec fn column_count(s: Seq<char>) -> int {
    s.len() as int % 0x10000
}

impl AppView {
    /// The search mode in the status bar, with a mark for each of its options.
    pub open spec fn search_mode_text(self) -> Seq<char> {
        "SEARCH | C:"@ + seq![box_of(self.flags.contains(AppFlag::IsCaseSensitive))] + " R:"@
            + seq![box_of(self.flags.contains(AppFlag::IsUsingRegex))]
    }

    /// The mode in the status bar.
    pub open spec fn mode_text(self) -> Seq<char> {
        match self.mode {
            AppMode::Normal => if self.flags.contains(AppFlag::ShouldShowToc) {
                "NORMAL (ToC)"@
            } else {
                "NORMAL"@
            },
            AppMode::Help => "HELP"@,
            AppMode::Search => self.search_mode_text(),
        }
    }

    /// Number of the current match, counted from one, but not beyond the last.
    pub open spec fn match_number(self) -> int {
        if self.match_index < self.match_lines.len() {
            self.match_index + 1
        } else {
            self.match_lines.len() as int
        }
    }

    /// Where among the matches the reader is. While a query is typed nothing is
    /// said of the previous search.
    pub open spec fn search_info(self) -> Option<Seq<char>> {
        if self.shows_matches() {
            Some(
                " | M "@ + text::decimal(self.match_number() as nat) + "/"@ + text::decimal(
                    self.match_lines.len(),
                ),
            )
        } else {
            None
        }
    }

    /// The current line, the number of lines, how far that is, and where among
    /// the matches.
    pub open spec fn progress_text(self) -> Seq<char> {
        "L "@ + text::decimal((self.scroll + 1) as nat) + "/"@ + text::decimal(
            self.line_count as nat,
        ) + " ("@ + text::decimal(percentage(self.scroll, self.line_count) as nat) + "%)"@ + (
        match self.search_info() {
            Some(info) => info,
            None => Seq::empty(),
        })
    }

    /// The commands that the status bar reminds of.
    pub open spec fn help_text(self) -> Seq<char> {
        match self.mode {
            AppMode::Normal => if self.flags.contains(AppFlag::ShouldShowToc) {
                "t:toggle ToC  w/s:nav  Enter:jump  q:quit"@
            } else if self.has_search_results() {
                "n/N:next/prev  Esc:clear"@
            } else {
                "up/down:scroll  /:search  ?:help  q:quit"@
            },
            AppMode::Help => "?/Esc:close"@,
            AppMode::Search => "Enter:search  Esc:cancel"@,
        }
    }

    /// The left part of the status bar.
    pub open spec fn left_text(self) -> Seq<char> {
        "RFC "@ + text::decimal(self.rfc_number.value()) + " | "@ + self.progress_text()
    }
}

/// The three parts of the status bar, and the columns that the outer two get.
#[derive(Debug)]
pub struct StatusBar {
    pub left: String,
    pub middle: String,
    pub right: String,
    pub left_width: u16,
    pub right_width: u16,
}

/// Counts the columns of a text for the status bar.
fn count_columns(s: &str) -> (r: u16)
    ensures
        r == column_count(s@),
{
    let count: usize = s.unicode_len();
    (count % 0x10000) as u16
}

/// The title of the window for an RFC.
pub open spec fn window_title_of(rfc_number: RfcNum) -> Seq<char> {
    "RFC "@ + text::decimal(rfc_number.value()) + " - Press ? for help"@
}

/// Writes the title of the window for an RFC.
pub fn window_title(rfc_number: RfcNum) -> (r: String)
    ensures
        r@ == window_title_of(rfc_number),
{
    let mut out = "RFC ".to_owned();
    text::push_decimal(&mut out, rfc_number.get() as usize);
    out.append(" - Press ? for help");
    out
}

impl App {
    /// Builds the mode text for the status bar.
    pub fn get_mode_text(&self) -> (r: String)
        ensures
            r@ == self@.mode_text(),
    {
        match self.mode {
            AppMode::Normal => {
                if self.app_state.contains(AppFlag::ShouldShowToc) {
                    "NORMAL (ToC)".to_owned()
                } else {
                    "NORMAL".to_owned()
                }
            },
            AppMode::Help => "HELP".to_owned(),
            AppMode::Search => self.get_search_mode_text(),
        }
    }

    /// Builds the search mode text for the status bar, with the marks for case
    /// sensitivity and regex mode.
    pub fn get_search_mode_text(&self) -> (r: String)
        ensures
            r@ == self@.search_mode_text(),
    {
        let case_char: char = if self.app_state.contains(AppFlag::IsCaseSensitive) {
            CHECKED_BOX_CHAR
        } else {
            EMPTY_BOX_CHAR
        };
        let regex_char: char = if self.app_state.contains(AppFlag::IsUsingRegex) {
            CHECKED_BOX_CHAR
        } else {
            EMPTY_BOX_CHAR
        };
        let mut out = "SEARCH | C:".to_owned();
        out.push(case_char);
        out.append(" R:");
        out.push(regex_char);
        assert(out@ =~= self@.search_mode_text());
        out
    }

    /// Builds the progress text for the status bar.
    pub fn build_progress_text(&self) -> (r: String)
        requires
            self@.scroll * 100 <= usize::MAX,
        ensures
            r@ == self@.progress_text(),
    {
        let last_line_pos: usize = self.rfc_line_number.saturating_sub(1);
        let progress_percentage: usize = if last_line_pos > 0 {
            self.current_scroll_pos * 100 / last_line_pos
        } else if self.rfc_line_number > 0 {
            100
        } else {
            0
        };
        let mut out = "L ".to_owned();
        text::push_decimal(&mut out, self.current_scroll_pos + 1);
        out.append("/");
        text::push_decimal(&mut out, self.rfc_line_number);
        out.append(" (");
        text::push_decimal(&mut out, progress_percentage);
        out.append("%)");
        if let Some(search_info) = self.build_search_info() {
            out.append(search_info.as_str());
        }
        assert(out@ =~= self@.progress_text());
        out
    }

    /// Builds the search info for the status bar, if there are matches to speak
    /// of.
    pub fn build_search_info(&self) -> (r: Option<String>)
        ensures
            r is Some == self@.search_info() is Some,
            r matches Some(info) ==> info@ == self@.search_info()->0,
    {
        if self.mode == AppMode::Search || !self.has_search_results() {
            return None;
        }
        let total_matches_n: LineNumber = self.query_match_line_nums.len();
        let index: LineNumber = if self.current_query_match_index < total_matches_n - 1 {
            self.current_query_match_index
        } else {
            total_matches_n - 1
        };
        let mut out = " | M ".to_owned();
        text::push_decimal(&mut out, index + 1);
        out.append("/");
        text::push_decimal(&mut out, total_matches_n);
        Some(out)
    }

    /// Builds the help text for the status bar.
    pub fn get_help_text(&self) -> (r: &'static str)
        ensures
            r@ == self@.help_text(),
    {
        match self.mode {
            AppMode::Normal => {
                if self.app_state.contains(AppFlag::ShouldShowToc) {
                    "t:toggle ToC  w/s:nav  Enter:jump  q:quit"
                } else if self.has_search_results() {
                    "n/N:next/prev  Esc:clear"
                } else {
                    "up/down:scroll  /:search  ?:help  q:quit"
                }
            },
            AppMode::Help => "?/Esc:close",
            AppMode::Search => "Enter:search  Esc:cancel",
        }
    }

    /// Builds the status bar.
    pub fn build_statusbar(&self) -> (r: StatusBar)
        requires
            self@.scroll * 100 <= usize::MAX,
        ensures
            r.left@ == self@.left_text(),
            r.middle@ == self@.mode_text(),
            r.right@ == self@.help_text(),
            r.left_width == column_count(self@.left_text()),
            r.right_width == column_count(self@.help_text()),
    {
        let mut left = "RFC ".to_owned();
        text::push_decimal(&mut left, self.rfc_number.get() as usize);
        left.append(" | ");
        left.append(self.build_progress_text().as_str());
        let help_text = self.get_help_text();
        let left_width: u16 = count_columns(left.as_str());
        let right_width: u16 = count_columns(help_text);
        StatusBar {
            left,
            middle: self.get_mode_text(),
            right: help_text.to_owned(),
            left_width,
            right_width,
        }
    }
}

/// The percentage is one: it runs from nothing at the first line to a hundred
/// at the last, and does not fall on the way down.
pub proof fn law_percentage(scroll: int, further: int, line_count: int)
    requires
        0 <= scroll <= further <= app::last_line(line_count),
    ensures
        0 <= percentage(scroll, line_count) <= percentage(further, line_count) <= 100,
        line_count > 1 ==> percentage(0, line_count) == 0,
        line_count > 0 ==> percentage(app::last_line(line_count), line_count) == 100,
{
    if line_count > 1 {
        let d = line_count - 1;
        vstd::arithmetic::div_mod::lemma_div_is_ordered(0, scroll * 100, d);
        vstd::arithmetic::div_mod::lemma_div_is_ordered(scroll * 100, further * 100, d);
        vstd::arithmetic::div_mod::lemma_div_is_ordered(further * 100, d * 100, d);
        vstd::arithmetic::div_mod::lemma_div_multiples_vanish(100, d);
        vstd::arithmetic::div_mod::lemma_div_basics(d);
        assert(d * 100 == 100 * d);
    }
}

/// The number of the current match is one of the numbers of matches.
pub proof fn law_match_number(v: AppView)
    requires
        v.has_search_results(),
        v.match_index >= 0,
    ensures
        1 <= v.match_number() <= v.match_lines.len(),
{
}

} // verus!
