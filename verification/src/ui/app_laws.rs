//! Laws of the reader: what every command keeps, and what one command undoes
//! of another.

use vstd::prelude::*;

use crate::pattern;
use crate::search;
use crate::text;
use crate::types::LineNumber;
use crate::types::MatchSpan;
use crate::ui::app;
use crate::ui::app::AppMode;
use crate::ui::app::AppView;
use crate::ui::app_search;
use crate::ui::flags;
use crate::ui::flags::AppFlag;
use crate::ui::keys;
use crate::ui::keys::Command;
use crate::ui::keys::KeyCode;
use crate::ui::keys::KeyPress;
use crate::ui::toc_panel;
use crate::ui::toc_panel::TocPanelView;

verus! {

/// A change that leaves the document, its entries and the results alone keeps
/// the invariant, if the new scroll position and cursor do.
proof fn lemma_frame(v: AppView, w: AppView)
    requires
        v.wf(),
        w.content == v.content,
        w.toc.entries == v.toc.entries,
        w.line_count == v.line_count,
        w.match_lines == v.match_lines,
        w.matches == v.matches,
        0 <= w.scroll <= app::last_line(w.line_count),
        text::on_boundary(w.query, w.cursor),
    ensures
        w.wf(),
{
}

/// Typing keeps the cursor between two characters.
proof fn lemma_char_added_boundary(v: AppView, ch: char)
    requires
        text::on_boundary(v.query, v.cursor),
    ensures
        text::on_boundary(v.char_added(ch).query, v.char_added(ch).cursor),
        text::chars_before(v.char_added(ch).query, v.char_added(ch).cursor)
            == text::chars_before(v.query, v.cursor) + 1,
{
    let k = text::chars_before(v.query, v.cursor) as int;
    let longer = v.char_added(ch).query;
    text::lemma_chars_before_bound(v.query, v.cursor);
    assert(longer.take(k) =~= v.query.take(k));
    text::lemma_byte_len_take_step(longer, k);
    text::lemma_chars_before_prefix(longer, k + 1);
}

/// Taking out the character behind the cursor keeps the cursor between two
/// characters.
proof fn lemma_char_deleted_boundary(v: AppView)
    requires
        text::on_boundary(v.query, v.cursor),
    ensures
        text::on_boundary(v.char_deleted().query, v.char_deleted().cursor),
{
    if v.cursor < text::byte_len(v.query) {
        let k = text::chars_before(v.query, v.cursor) as int;
        let shorter = v.char_deleted().query;
        text::lemma_chars_before_bound(v.query, v.cursor);
        assert(k < v.query.len()) by {
            if k == v.query.len() {
                assert(v.query.take(k) =~= v.query);
            }
        }
        assert(shorter.take(k) =~= v.query.take(k));
        text::lemma_chars_before_prefix(shorter, k);
    }
}

/// Moving the cursor keeps it between two characters.
proof fn lemma_cursor_moves_boundary(v: AppView)
    requires
        text::on_boundary(v.query, v.cursor),
    ensures
        text::on_boundary(v.query, v.cursor_left().cursor),
        text::on_boundary(v.query, v.cursor_right().cursor),
        text::on_boundary(v.query, 0),
        text::on_boundary(v.query, v.cursor_end().cursor),
{
    text::lemma_boundary_ends(v.query);
    if v.cursor > 0 {
        text::lemma_neighbour_boundaries(v.query, v.cursor - 1);
    }
    text::lemma_neighbour_boundaries(v.query, v.cursor);
}

/// The invariant of the reader survives every command but a search, whose
/// results `App::perform_search` shows to fit the document.
pub proof fn law_command_keeps_wf(v: AppView, command: Command, viewport_height: int)
    requires
        v.wf(),
        viewport_height >= 0,
        !(command is Search),
    ensures
        v.after_command(command, viewport_height).wf(),
{
    let w = v.after_command(command, viewport_height);
    match command {
        Command::ResetSearch | Command::EnterSearch => {
            text::lemma_boundary_ends(Seq::<char>::empty());
            assert(w.search_wf());
        },
        Command::NextResult => {
            text::lemma_find_from(v.match_lines, 0, app_search::after(v.scroll));
            lemma_frame(v, w);
        },
        Command::PreviousResult => {
            lemma_last_before(v.match_lines, v.scroll, v.match_lines.len() as int);
            lemma_frame(v, w);
        },
        Command::AddChar(ch) => {
            lemma_char_added_boundary(v, ch);
            lemma_frame(v, w);
        },
        Command::DeleteChar => {
            lemma_char_deleted_boundary(v);
            lemma_frame(v, w);
        },
        Command::RemoveChar => {
            lemma_cursor_moves_boundary(v);
            lemma_char_deleted_boundary(v.cursor_left());
            lemma_frame(v, w);
        },
        Command::CursorLeft | Command::CursorRight | Command::CursorHome | Command::CursorEnd => {
            lemma_cursor_moves_boundary(v);
            lemma_frame(v, w);
        },
        _ => {
            lemma_frame(v, w);
        },
    }
}

/// The last line above a position is one of the lines, stands above it, and
/// none between the two does.
pub proof fn lemma_last_before(lines: Seq<LineNumber>, pos: int, count: int)
    requires
        0 <= count <= lines.len(),
    ensures
        match app_search::last_before(lines, pos, count) {
            Some(k) => {
                &&& 0 <= k < count
                &&& lines[k] < pos
                &&& forall|j: int| k < j < count ==> #[trigger] lines[j] >= pos
            },
            None => forall|j: int| 0 <= j < count ==> #[trigger] lines[j] >= pos,
        },
    decreases count,
{
    if count > 0 && lines[count - 1] >= pos {
        lemma_last_before(lines, pos, count - 1);
    }
}

/// Opening the help overlay and closing it, or the other way round, changes
/// nothing.
pub proof fn law_help_twice(v: AppView)
    requires
        !(v.mode is Search),
    ensures
        v.help_toggled().help_toggled() == v,
{
}

/// Switching the panel, the case sensitivity or the regex mode over twice
/// changes nothing.
pub proof fn law_flag_twice(v: AppView, flag: AppFlag)
    ensures
        v.flag_toggled(flag).flag_toggled(flag) == v,
        v.flag_toggled(flag).flags.contains(flag) == !v.flags.contains(flag),
{
    flags::law_toggle(v.flags, flag, flag);
}

/// Scrolling stays within the document and goes only in its own direction, and
/// the whole line count leads to either end of it.
pub proof fn law_scrolling(v: AppView, amount: int)
    requires
        v.wf(),
        amount >= 0,
    ensures
        0 <= v.scrolled_up(amount).scroll <= v.scroll,
        v.scroll <= v.scrolled_down(amount).scroll <= app::last_line(v.line_count),
        v.after_command(Command::ToStart, 0).scroll == 0,
        v.after_command(Command::ToEnd, 0).scroll == app::last_line(v.line_count),
{
}

/// Scrolling down and up by as many lines leads back, unless the end of the
/// document came between, and so does scrolling up and down, unless its start
/// did.
pub proof fn law_scroll_back(v: AppView, amount: int)
    requires
        v.wf(),
        amount >= 0,
    ensures
        v.scroll + amount <= app::last_line(v.line_count) ==> v.scrolled_down(amount).scrolled_up(
            amount,
        ) == v,
        amount <= v.scroll ==> v.scrolled_up(amount).scrolled_down(amount) == v,
{
}

/// Removing the character that was just typed restores the query and the
/// cursor.
pub proof fn law_type_then_remove(v: AppView, ch: char)
    requires
        text::on_boundary(v.query, v.cursor),
    ensures
        v.char_added(ch).char_removed() == v,
{
    let w = v.char_added(ch);
    let k = text::chars_before(v.query, v.cursor) as int;
    text::lemma_char_width(ch);
    lemma_char_added_boundary(v, ch);
    text::lemma_chars_before_bound(v.query, v.cursor);
    assert(w.query.take(k) =~= v.query.take(k));
    text::lemma_byte_len_take_step(w.query, k);
    text::lemma_chars_before_within(w.query, k, w.cursor - 1);
    text::lemma_byte_len_monotone(w.query, k + 1, w.query.len() as int);
    assert(w.cursor_left().cursor == v.cursor);
    text::lemma_chars_before_prefix(w.query, k);
    assert(w.query.remove(k) =~= v.query);
}

/// Moving the cursor by one character and back leads to where it was.
pub proof fn law_cursor_back(v: AppView)
    requires
        text::on_boundary(v.query, v.cursor),
    ensures
        v.cursor > 0 ==> v.cursor_left().cursor_right() == v,
        v.cursor < text::byte_len(v.query) ==> v.cursor_right().cursor_left() == v,
        v.cursor_right().cursor_home().cursor == 0,
{
    let s = v.query;
    text::lemma_boundary_ends(s);
    if v.cursor > 0 {
        let w = v.cursor_left();
        text::lemma_neighbour_boundaries(s, v.cursor - 1);
        text::lemma_neighbour_boundaries(s, w.cursor);
        let u = w.cursor_right();
        assert(w.cursor < v.cursor <= text::byte_len(s));
        if u.cursor < v.cursor {
            assert(text::on_boundary(s, u.cursor));
        }
        if u.cursor > v.cursor {
            assert(!text::on_boundary(s, v.cursor));
        }
    }
    if v.cursor < text::byte_len(s) {
        let w = v.cursor_right();
        text::lemma_neighbour_boundaries(s, v.cursor);
        text::lemma_neighbour_boundaries(s, w.cursor - 1);
        let u = w.cursor_left();
        if u.cursor < v.cursor {
            assert(!text::on_boundary(s, v.cursor));
        }
        if u.cursor > v.cursor {
            assert(text::on_boundary(s, u.cursor));
        }
    }
}

/// Every plain character that is typed in search mode goes into the query.
pub proof fn law_typing(v: AppView, ch: char, viewport_height: int)
    requires
        v.mode is Search,
    ensures
        v.after_command(
            v.command(KeyPress { code: KeyCode::Char(ch), is_control: false }),
            viewport_height,
        ) == v.char_added(ch),
{
}

/// Escape leads from search mode and from the help overlay back to normal
/// mode, and changes nothing else there.
pub proof fn law_escape(v: AppView, is_control: bool, viewport_height: int)
    requires
        v.mode is Search || v.mode is Help,
    ensures
        v.after_command(
            v.command(KeyPress { code: KeyCode::Esc, is_control }),
            viewport_height,
        ) == (AppView { mode: AppMode::Normal, ..v }),
{
}

/// A running reader stops on `q` in normal mode and on no other key.
pub proof fn law_only_quit_stops(v: AppView, key: KeyPress, viewport_height: int)
    requires
        v.flags.contains(AppFlag::ShouldRun),
    ensures
        v.after_command(v.command(key), viewport_height).flags.contains(AppFlag::ShouldRun) == !(
        v.mode is Normal && key.code == KeyCode::Char('q')),
{
    let command = v.command(key);
    if command is Search {
        let found = search::matches_in(v.pattern(), v.lines(), 0);
        assert(v.results_cleared().results_shown(found).flags.contains(AppFlag::ShouldRun));
    }
}

/// While the panel is hidden its keys do nothing.
pub proof fn law_hidden_panel(v: AppView, key: KeyPress, viewport_height: int)
    requires
        v.mode is Normal,
        !v.flags.contains(AppFlag::ShouldShowToc),
        key.code == KeyCode::Char('w') || key.code == KeyCode::Char('s') || key.code
            == KeyCode::Enter,
    ensures
        v.after_command(v.command(key), viewport_height) == v,
{
}

/// Selecting the next entry and then the previous one leads back, and the
/// selection leaves the entries alone.
pub proof fn law_selection_back(panel: TocPanelView)
    ensures
        panel.state.selected != Some(usize::MAX) ==> toc_panel::previous_selected(
            toc_panel::next_selected(panel),
        ) == panel,
        panel.state.selected != Some(0usize) ==> toc_panel::next_selected(
            toc_panel::previous_selected(panel),
        ) == panel,
        toc_panel::next_selected(panel).entries == panel.entries,
        toc_panel::previous_selected(panel).entries == panel.entries,
{
}

/// The next result is the nearest one below the scroll position, and the
/// previous result the nearest one above it. Where there is none the reader
/// stays.
pub proof fn law_nearest_result(v: AppView)
    requires
        v.wf(),
        v.has_search_results(),
    ensures
        ({
            let w = v.at_next_result();
            ||| w == v && forall|i: int|
                0 <= i < v.match_lines.len() ==> #[trigger] v.match_lines[i] <= v.scroll
            ||| {
                &&& v.scroll < w.scroll
                &&& v.match_lines.contains(w.scroll as LineNumber)
                &&& forall|i: int|
                    0 <= i < v.match_lines.len() ==> #[trigger] v.match_lines[i] <= v.scroll
                        || w.scroll <= v.match_lines[i]
            }
        }),
        ({
            let w = v.at_previous_result();
            ||| w == v && forall|i: int|
                0 <= i < v.match_lines.len() ==> #[trigger] v.match_lines[i] >= v.scroll
            ||| {
                &&& w.scroll < v.scroll
                &&& v.match_lines.contains(w.scroll as LineNumber)
                &&& forall|i: int|
                    0 <= i < v.match_lines.len() ==> #[trigger] v.match_lines[i] >= v.scroll
                        || w.scroll >= v.match_lines[i]
            }
        }),
{
    let n = v.match_lines.len() as int;
    let k = text::find_from(v.match_lines, 0, app_search::after(v.scroll));
    text::lemma_find_from(v.match_lines, 0, app_search::after(v.scroll));
    if k < n {
        let w = v.at_next_result();
        assert(w.scroll == v.match_lines[k]);
        assert forall|i: int| 0 <= i < n implies #[trigger] v.match_lines[i] <= v.scroll || w.scroll
            <= v.match_lines[i] by {
            if i < k {
                assert(!app_search::after(v.scroll)(v.match_lines[i]));
            }
        }
    } else {
        assert forall|i: int| 0 <= i < n implies #[trigger] v.match_lines[i] <= v.scroll by {
            assert(!app_search::after(v.scroll)(v.match_lines[i]));
        }
    }
    lemma_last_before(v.match_lines, v.scroll, n);
    if let Some(m) = app_search::last_before(v.match_lines, v.scroll, n) {
        let w = v.at_previous_result();
        assert(w.scroll == v.match_lines[m]);
        assert forall|i: int| 0 <= i < n implies #[trigger] v.match_lines[i] >= v.scroll || w.scroll
            >= v.match_lines[i] by {
            if i < m {
                assert(v.match_lines[i] < v.match_lines[m]);
            }
        }
    }
}

/// From one result the next result is the one that follows it in the list, and
/// the previous result leads back.
pub proof fn law_result_back(v: AppView, i: int)
    requires
        v.wf(),
        v.has_search_results(),
        0 <= i,
        i + 1 < v.match_lines.len(),
        v.scroll == v.match_lines[i],
    ensures
        v.at_next_result() == (AppView {
            match_index: i + 1,
            scroll: v.match_lines[i + 1] as int,
            ..v
        }),
        v.at_next_result().at_previous_result() == (AppView { match_index: i, ..v }),
{
    let n = v.match_lines.len() as int;
    assert forall|j: int| 0 <= j < i + 1 implies !app_search::after(v.scroll)(
        #[trigger] v.match_lines[j],
    ) by {
        if j < i {
            assert(v.match_lines[j] < v.match_lines[i]);
        }
    }
    assert(v.match_lines[i] < v.match_lines[i + 1]);
    text::lemma_find_from_is(v.match_lines, 0, app_search::after(v.scroll), i + 1);
    let w = v.at_next_result();
    lemma_last_before(w.match_lines, w.scroll, n);
    if let Some(m) = app_search::last_before(w.match_lines, w.scroll, n) {
        if m > i + 1 {
            assert(w.match_lines[i + 1] < w.match_lines[m]);
        }
    }
}

/// Searching again for the same query changes nothing.
pub proof fn law_search_again(v: AppView)
    ensures
        v.searched().searched() == v.searched(),
{
    let w = v.searched();
    let u = w.searched();
    assert(w.pattern() == v.pattern());
    if v.query.len() > 0 && pattern::regex_compiles(v.pattern()) {
        let found = search::matches_in(v.pattern(), v.lines(), 0);
        let numbers = app_search::line_numbers(found);
        let k = text::find_from(numbers, 0, app_search::at_or_after(v.scroll));
        text::lemma_find_from(numbers, 0, app_search::at_or_after(v.scroll));
        assert forall|j: int| 0 <= j < k implies !app_search::at_or_after(w.scroll)(
            #[trigger] numbers[j],
        ) by {
            assert(!app_search::at_or_after(v.scroll)(numbers[j]));
        }
        text::lemma_find_from_is(numbers, 0, app_search::at_or_after(w.scroll), k);
    }
    assert(u.flags =~= w.flags);
}

/// Entering search mode and resetting the search both leave nothing of the
/// previous search: no query, no results and no message. What is typed then and
/// given up does not bring its results back.
pub proof fn law_search_cleared(v: AppView, ch: char)
    ensures
        v.search_reset() == (AppView { mode: v.mode, ..v.search_entered() }),
        v.search_reset().search_reset() == v.search_reset(),
        ({
            let w = v.search_entered();
            &&& w.query.len() == 0
            &&& w.cursor == 0
            &&& w.match_lines.len() == 0
            &&& w.matches == Map::<LineNumber, Seq<MatchSpan>>::empty()
            &&& !w.flags.contains(AppFlag::HasNoResults)
            &&& w.scroll == v.scroll
            &&& !w.char_added(ch).search_left().has_search_results()
        }),
{
    assert(v.search_reset().search_reset().flags =~= v.search_reset().flags);
}

} // verus!
