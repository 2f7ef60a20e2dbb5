//! Laws of the status bar and of the screen, told from the fields of the state.

use vstd::prelude::*;

use crate::startup;
use crate::text;
use crate::types::RfcNum;
use crate::ui::app::AppMode;
use crate::ui::app::AppView;
use crate::ui::flags::AppFlag;
use crate::ui::screen;
use crate::ui::screen::MessageColor;
use crate::ui::screen::MessageSpanView;
use crate::ui::screen::Screen;
use crate::ui::status;

verus! {

/// The status bar counts the matches in every mode but search mode, as long as
/// there are results of a query: the number of the current one, or of the last
/// where the current one is none, and how many there are.
pub proof fn law_search_info(v: AppView)
    requires
        0 <= v.match_index,
    ensures
        v.search_info() == (if v.mode is Search || v.query.len() == 0 || v.match_lines.len() == 0 {
            None
        } else {
            Some(
                " | M "@ + text::decimal(
                    (if v.match_index + 1 < v.match_lines.len() {
                        v.match_index + 1
                    } else {
                        v.match_lines.len() as int
                    }) as nat,
                ) + "/"@ + text::decimal(v.match_lines.len()),
            )
        }),
{
}

/// The percentage is the share of the lines above the position in all lines
/// above the last, rounded down.
pub proof fn law_progress(v: AppView)
    requires
        0 <= v.scroll,
        1 < v.line_count,
    ensures
        ({
            let percent = status::percentage(v.scroll, v.line_count);
            let above_last = v.line_count - 1;
            &&& percent * above_last <= v.scroll * 100 < (percent + 1) * above_last
            &&& 0 <= percent
        }),
{
    let d = v.line_count - 1;
    let x = v.scroll * 100;
    vstd::arithmetic::div_mod::lemma_fundamental_div_mod(x, d);
    vstd::arithmetic::div_mod::lemma_mod_bound(x, d);
    vstd::arithmetic::div_mod::lemma_div_pos_is_pos(x, d);
    let q = x / d;
    assert(q * d <= x < (q + 1) * d) by (nonlinear_arith)
        requires
            x == d * q + x % d,
            0 <= x % d < d,
    ;
}

/// The progress names the line, counted from one, all lines, and the percentage,
/// and the matches behind them. Of a single line all is read, and of none
/// nothing.
pub proof fn law_progress_text(v: AppView)
    requires
        0 <= v.scroll,
        0 <= v.line_count,
    ensures
        ({
            let percent = if v.line_count > 1 {
                status::percentage(v.scroll, v.line_count)
            } else if v.line_count == 1 {
                100
            } else {
                0
            };
            let info = match v.search_info() {
                Some(info) => info,
                None => Seq::<char>::empty(),
            };
            &&& v.progress_text() == "L "@ + text::decimal((v.scroll + 1) as nat) + "/"@
                + text::decimal(v.line_count as nat) + " ("@ + text::decimal(percent as nat) + "%)"@
                + info
            &&& v.left_text() == "RFC "@ + text::decimal(v.rfc_number.value()) + " | "@
                + v.progress_text()
        }),
{
}

/// The mode is named in the status bar. The panel counts in normal mode alone,
/// and the two switches of the search in search mode alone.
pub proof fn law_mode_text(v: AppView)
    ensures
        ({
            let shows_toc = v.flags.contains(AppFlag::ShouldShowToc);
            let case_box = if v.flags.contains(AppFlag::IsCaseSensitive) {
                '☑'
            } else {
                '☐'
            };
            let regex_box = if v.flags.contains(AppFlag::IsUsingRegex) {
                '☑'
            } else {
                '☐'
            };
            &&& v.mode is Normal && shows_toc ==> v.mode_text() == "NORMAL (ToC)"@
            &&& v.mode is Normal && !shows_toc ==> v.mode_text() == "NORMAL"@
            &&& v.mode is Help ==> v.mode_text() == "HELP"@
            &&& v.mode is Search ==> v.mode_text() == "SEARCH | C:"@ + seq![case_box] + " R:"@
                + seq![regex_box]
        }),
{
}

/// The status bar reminds of the keys that work in a state: those of the panel
/// while it is shown, those of the results while there are any, and else those
/// of the document; in the other modes the ones that leave them.
pub proof fn law_help_text(v: AppView)
    ensures
        ({
            let shows_toc = v.flags.contains(AppFlag::ShouldShowToc);
            let has_results = v.query.len() > 0 && v.match_lines.len() > 0;
            &&& v.mode is Normal && shows_toc ==> v.help_text()
                == "t:toggle ToC  w/s:nav  Enter:jump  q:quit"@
            &&& v.mode is Normal && !shows_toc && has_results ==> v.help_text()
                == "n/N:next/prev  Esc:clear"@
            &&& v.mode is Normal && !shows_toc && !has_results ==> v.help_text()
                == "up/down:scroll  /:search  ?:help  q:quit"@
            &&& v.mode is Help ==> v.help_text() == "?/Esc:close"@
            &&& v.mode is Search ==> v.help_text() == "Enter:search  Esc:cancel"@
        }),
{
}

/// A text gets as many columns as it has characters, counted in sixteen bits.
pub proof fn law_columns(s: Seq<char>)
    ensures
        0 <= status::column_count(s) < 65536,
        s.len() < 65536 ==> status::column_count(s) == s.len(),
        (s.len() - status::column_count(s)) % 65536 == 0,
{
}

/// The window and the error of offline mode name the RFC.
pub proof fn law_number_texts(rfc_number: RfcNum)
    ensures
        status::window_title_of(rfc_number) == "RFC "@ + text::decimal(rfc_number.value())
            + " - Press ? for help"@,
        startup::unavailable_text_of(rfc_number) == "Unable to access RFC "@ + text::decimal(
            rfc_number.value(),
        ) + " - network access disabled in offline mode and RFC not cached locally"@,
{
}

/// A terminal of at least ninety-four columns and fifteen rows shows the
/// document from the scroll position on, with the panel and the overlays that
/// mode and flags call for. A smaller one shows that it is too small.
pub proof fn law_drawn(v: AppView, width: u16, height: u16)
    requires
        0 <= v.scroll,
    ensures
        match v.screen(width, height) {
            Screen::TooSmall => width < 94 || height < 15,
            Screen::Reader { shows_toc, first_row, shows_help, shows_search, shows_no_results } => {
                &&& width >= 94
                &&& height >= 15
                &&& shows_toc == v.flags.contains(AppFlag::ShouldShowToc)
                &&& first_row == (if v.scroll < 65535 {
                    v.scroll
                } else {
                    65535
                })
                &&& shows_help == (v.mode == AppMode::Help)
                &&& shows_search == (v.mode == AppMode::Search)
                &&& shows_no_results == v.flags.contains(AppFlag::HasNoResults)
            },
        },
{
}

/// A row or column beyond the last that has a number is the last.
pub proof fn law_clamped_row(row: int)
    ensures
        row <= 65535 ==> screen::clamped_row(row) == row,
        row > 65535 ==> screen::clamped_row(row) == 65535,
{
}

/// The cursor of the search box stands behind the characters of the query that
/// stand before it.
pub proof fn law_search_cursor(v: AppView, before: Seq<char>, behind: Seq<char>)
    requires
        v.query == before + behind,
        v.cursor == text::byte_len(before),
        before.len() <= 65535,
    ensures
        v.columns_before_cursor() == before.len(),
{
    assert(v.query.take(before.len() as int) =~= before);
    text::lemma_chars_before_prefix(v.query, before.len() as int);
}

/// The message of a terminal that is too small names its size, each of the two
/// numbers in green if it is enough and in red if not, and the size it needs.
pub proof fn law_too_small(width: u16, height: u16)
    ensures
        ({
            let lines = screen::too_small_message_of(width, height);
            let plain = |s: Seq<char>| MessageSpanView { text: s, color: MessageColor::Plain };
            &&& lines.len() == 5
            &&& lines[0] == seq![plain("Terminal size is too small:"@)]
            &&& lines[1] == seq![
                plain("Width: "@),
                MessageSpanView {
                    text: text::decimal(width as nat),
                    color: if width >= 94 {
                        MessageColor::Green
                    } else {
                        MessageColor::Red
                    },
                },
                plain(", "@),
                plain("Height: "@),
                MessageSpanView {
                    text: text::decimal(height as nat),
                    color: if height >= 15 {
                        MessageColor::Green
                    } else {
                        MessageColor::Red
                    },
                },
            ]
            &&& lines[2] == seq![plain(""@)]
            &&& lines[3] == seq![plain("Minimum required:"@)]
            &&& lines[4] == seq![
                plain("Width: "@),
                MessageSpanView { text: text::decimal(94), color: MessageColor::White },
                plain(", "@),
                plain("Height: "@),
                MessageSpanView { text: text::decimal(15), color: MessageColor::White },
            ]
        }),
{
    let lines = screen::too_small_message_of(width, height);
    let plain = |s: Seq<char>| MessageSpanView { text: s, color: MessageColor::Plain };
    assert(lines[0] =~= seq![plain("Terminal size is too small:"@)]);
    assert(lines[2] =~= seq![plain(""@)]);
    assert(lines[3] =~= seq![plain("Minimum required:"@)]);
    assert(lines[1].len() == 5 && lines[4].len() == 5);
}

/// The help overlay tells each key and what it does.
pub proof fn law_help_lines()
    ensures
        ({
            let lines = screen::help_lines_of();
            &&& lines.len() == 19
            &&& lines[0] == "Keybindings:"@
            &&& lines[2] == "j/k or ↓/↑: Scroll down/up"@
            &&& lines[3] == "h/l: RFC page Scroll down/up"@
            &&& lines[4] == "f/b or PgDn/PgUp: Scroll page down/up"@
            &&& lines[5] == "g/G: Go to start/end of document"@
            &&& lines[7] == "t: Toggle table of contents"@
            &&& lines[8] == "w/s: Navigate ToC up/down"@
            &&& lines[9] == "Enter: Jump to ToC entry"@
            &&& lines[11] == "/: Search"@
            &&& lines[12] == "n/N: Next/previous search result"@
            &&& lines[13] == "Ctrl+C: Toggle case sensitivity"@
            &&& lines[14] == "Ctrl+R: Toggle regex search"@
            &&& lines[15] == "Esc: Reset search highlights"@
            &&& lines[17] == "q: Quit"@
            &&& lines[18] == "?: Toggle help"@
            &&& lines[1] == ""@ && lines[6] == ""@ && lines[10] == ""@ && lines[16] == ""@
        }),
{
}

} // verus!
