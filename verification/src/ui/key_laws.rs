//! Laws of the keys: what each key does to the scroll position, the mode, the
//! query, the panel and the flags, told from the state before it.

use vstd::prelude::*;

use crate::text;
use crate::types::LineNumber;
use crate::types::MatchSpan;
use crate::ui::app::AppMode;
use crate::ui::app::AppView;
use crate::ui::app_laws;
use crate::ui::app_search;
use crate::ui::flags::AppFlag;
use crate::ui::keys::KeyCode;
use crate::ui::keys::KeyPress;
use crate::ui::toc_panel::ListState;
use crate::ui::toc_panel::TocPanelView;

verus! {

/// The keys that scroll down move the position by their amount, but not beyond
/// the last line, and change nothing else: `j` and Down by one line, `h` by a
/// page of an RFC, `f` and PageDown by the height of the terminal, and `G` to
/// the last line.
pub proof fn law_keys_scroll_down(v: AppView, key: KeyPress, viewport_height: int)
    requires
        v.mode is Normal,
        0 <= v.scroll,
        0 <= v.line_count,
        0 <= viewport_height,
    ensures
        ({
            let w = v.after_command(v.command(key), viewport_height);
            let last = if v.line_count > 0 {
                v.line_count - 1
            } else {
                0
            };
            let code = key.code;
            &&& code == KeyCode::Char('j') || code == KeyCode::Down ==> w == (AppView {
                scroll: if v.scroll + 1 < last {
                    v.scroll + 1
                } else {
                    last
                },
                ..v
            })
            &&& code == KeyCode::Char('h') ==> w == (AppView {
                scroll: if v.scroll + 56 < last {
                    v.scroll + 56
                } else {
                    last
                },
                ..v
            })
            &&& code == KeyCode::Char('f') || code == KeyCode::PageDown ==> w == (AppView {
                scroll: if v.scroll + viewport_height < last {
                    v.scroll + viewport_height
                } else {
                    last
                },
                ..v
            })
            &&& code == KeyCode::Char('G') ==> w == (AppView { scroll: last, ..v })
        }),
{
}

/// The keys that scroll up move the position by their amount, but not beyond
/// the first line, and change nothing else: `k` and Up by one line, `l` by a
/// page of an RFC, `b` and PageUp by the height of the terminal, and `g` to the
/// first line.
pub proof fn law_keys_scroll_up(v: AppView, key: KeyPress, viewport_height: int)
    requires
        v.mode is Normal,
        0 <= v.scroll <= v.line_count,
        0 <= viewport_height,
    ensures
        ({
            let w = v.after_command(v.command(key), viewport_height);
            let code = key.code;
            &&& code == KeyCode::Char('k') || code == KeyCode::Up ==> w == (AppView {
                scroll: if v.scroll - 1 > 0 {
                    v.scroll - 1
                } else {
                    0
                },
                ..v
            })
            &&& code == KeyCode::Char('l') ==> w == (AppView {
                scroll: if v.scroll - 56 > 0 {
                    v.scroll - 56
                } else {
                    0
                },
                ..v
            })
            &&& code == KeyCode::Char('b') || code == KeyCode::PageUp ==> w == (AppView {
                scroll: if v.scroll - viewport_height > 0 {
                    v.scroll - viewport_height
                } else {
                    0
                },
                ..v
            })
            &&& code == KeyCode::Char('g') ==> w == (AppView { scroll: 0, ..v })
        }),
{
}

/// The keys that open and close: `q` stops the reader, `?` opens the help
/// overlay, `t` switches the panel over, `/` starts an empty search without
/// anything of the previous one, and Esc takes the search away. None of them
/// touches anything else.
pub proof fn law_keys_switch(v: AppView, key: KeyPress, viewport_height: int)
    requires
        v.mode is Normal,
    ensures
        ({
            let w = v.after_command(v.command(key), viewport_height);
            let code = key.code;
            let cleared = AppView {
                query: Seq::<char>::empty(),
                cursor: 0,
                match_lines: Seq::<LineNumber>::empty(),
                matches: Map::<LineNumber, Seq<MatchSpan>>::empty(),
                match_index: 0,
                flags: w.flags,
                ..v
            };
            &&& code == KeyCode::Char('q') ==> w == (AppView { flags: w.flags, ..v })
            &&& code == KeyCode::Char('q') ==> forall|flag: AppFlag| #[trigger]
                w.flags.contains(flag) == (v.flags.contains(flag) && flag != AppFlag::ShouldRun)
            &&& code == KeyCode::Char('?') ==> w == (AppView { mode: AppMode::Help, ..v })
            &&& code == KeyCode::Char('t') ==> w == (AppView { flags: w.flags, ..v })
            &&& code == KeyCode::Char('t') ==> forall|flag: AppFlag| #[trigger]
                w.flags.contains(flag) == (v.flags.contains(flag) != (flag
                    == AppFlag::ShouldShowToc))
            &&& code == KeyCode::Char('/') ==> w == (AppView { mode: AppMode::Search, ..cleared })
            &&& code == KeyCode::Esc ==> w == cleared
            &&& code == KeyCode::Char('/') || code == KeyCode::Esc ==> forall|flag: AppFlag|
             #[trigger]
                w.flags.contains(flag) == (v.flags.contains(flag) && flag != AppFlag::HasNoResults)
        }),
{
}

/// The keys of the panel, while it is shown: `w` and `s` select the entry before
/// and behind the selected one, and Enter scrolls to the line of the selected
/// entry, if there is one. While it is hidden they do nothing.
pub proof fn law_keys_panel(v: AppView, key: KeyPress, viewport_height: int)
    requires
        v.mode is Normal,
    ensures
        ({
            let w = v.after_command(v.command(key), viewport_height);
            let code = key.code;
            let shown = v.flags.contains(AppFlag::ShouldShowToc);
            let selected = v.toc.state.selected;
            &&& shown && code == KeyCode::Char('s') ==> (match selected {
                Some(i) if i < usize::MAX => w == (AppView {
                    toc: TocPanelView {
                        state: ListState { selected: Some((i + 1) as usize), ..v.toc.state },
                        ..v.toc
                    },
                    ..v
                }),
                _ => w == v,
            })
            &&& shown && code == KeyCode::Char('w') ==> (match selected {
                Some(i) if i > 0 => w == (AppView {
                    toc: TocPanelView {
                        state: ListState { selected: Some((i - 1) as usize), ..v.toc.state },
                        ..v.toc
                    },
                    ..v
                }),
                _ => w == v,
            })
            &&& shown && code == KeyCode::Enter ==> (match selected {
                Some(i) if i < v.toc.entries.len() => w == (AppView {
                    scroll: v.toc.entries[i as int].line_number,
                    ..v
                }),
                _ => w == v,
            })
            &&& !shown && (code == KeyCode::Char('s') || code == KeyCode::Char('w') || code
                == KeyCode::Enter) ==> w == v
        }),
{
}

/// `n` goes to the first result below the scroll position and `N` to the last
/// one above it. The result is the current one then. Without such a result, or
/// without any, nothing changes.
pub proof fn law_keys_results(v: AppView, key: KeyPress, viewport_height: int, i: int)
    requires
        v.mode is Normal,
        0 <= i < v.match_lines.len(),
        v.query.len() > 0,
        forall|a: int, b: int|
            0 <= a < b < v.match_lines.len() ==> #[trigger] v.match_lines[a]
                < #[trigger] v.match_lines[b],
    ensures
        ({
            let w = v.after_command(v.command(key), viewport_height);
            let at = AppView { scroll: v.match_lines[i] as int, match_index: i, ..v };
            let n = v.match_lines.len() as int;
            &&& key.code == KeyCode::Char('n') && v.match_lines[i] > v.scroll && (i > 0
                ==> v.match_lines[i - 1] <= v.scroll) ==> w == at
            &&& key.code == KeyCode::Char('n') && v.match_lines[n - 1] <= v.scroll ==> w == v
            &&& key.code == KeyCode::Char('N') && v.match_lines[i] < v.scroll && (i + 1 < n
                ==> v.match_lines[i + 1] >= v.scroll) ==> w == at
            &&& key.code == KeyCode::Char('N') && v.match_lines[0] >= v.scroll ==> w == v
        }),
{
    let n = v.match_lines.len() as int;
    let below = app_search::after(v.scroll);
    if v.match_lines[i] > v.scroll && (i > 0 ==> v.match_lines[i - 1] <= v.scroll) {
        assert forall|j: int| 0 <= j < i implies !below(#[trigger] v.match_lines[j]) by {
            if j < i - 1 {
                assert(v.match_lines[j] < v.match_lines[i - 1]);
            }
        }
        text::lemma_find_from_is(v.match_lines, 0, below, i);
    }
    if v.match_lines[n - 1] <= v.scroll {
        assert forall|j: int| 0 <= j < n implies !below(#[trigger] v.match_lines[j]) by {
            if j < n - 1 {
                assert(v.match_lines[j] < v.match_lines[n - 1]);
            }
        }
        text::lemma_find_from_is(v.match_lines, 0, below, n);
    }
    app_laws::lemma_last_before(v.match_lines, v.scroll, n);
    if let Some(k) = app_search::last_before(v.match_lines, v.scroll, n) {
        if v.match_lines[i] < v.scroll && (i + 1 < n ==> v.match_lines[i + 1] >= v.scroll) {
            if k > i + 1 {
                assert(v.match_lines[i + 1] < v.match_lines[k]);
            }
        }
        if k > 0 {
            assert(v.match_lines[0] < v.match_lines[k]);
        }
    }
}

/// Without results `n` and `N` do nothing.
pub proof fn law_keys_without_results(v: AppView, key: KeyPress, viewport_height: int)
    requires
        v.mode is Normal,
        v.query.len() == 0 || v.match_lines.len() == 0,
        key.code == KeyCode::Char('n') || key.code == KeyCode::Char('N'),
    ensures
        v.after_command(v.command(key), viewport_height) == v,
{
}

/// The keys that edit a query work on the two texts before and behind the
/// cursor, and touch nothing else. A character goes between the two; Backspace
/// takes the last character of the first and Delete the first one of the
/// second; Left, Right, Home and End move the cut.
pub proof fn law_keys_edit(
    v: AppView,
    key: KeyPress,
    viewport_height: int,
    before: Seq<char>,
    behind: Seq<char>,
)
    requires
        v.mode is Search,
        v.query == before + behind,
        v.cursor == text::byte_len(before),
    ensures
        ({
            let w = v.after_command(v.command(key), viewport_height);
            match key.code {
                KeyCode::Char(ch) => key.is_control && (ch == 'c' || ch == 'r') || w == (AppView {
                    query: before + seq![ch] + behind,
                    cursor: text::byte_len(before + seq![ch]) as int,
                    ..v
                }),
                KeyCode::Backspace => if before.len() > 0 {
                    w == (AppView {
                        query: before.drop_last() + behind,
                        cursor: text::byte_len(before.drop_last()) as int,
                        ..v
                    })
                } else {
                    w == v
                },
                KeyCode::Delete => if behind.len() > 0 {
                    w == (AppView { query: before + behind.drop_first(), ..v })
                } else {
                    w == v
                },
                KeyCode::Left => if before.len() > 0 {
                    w == (AppView { cursor: text::byte_len(before.drop_last()) as int, ..v })
                } else {
                    w == v
                },
                KeyCode::Right => if behind.len() > 0 {
                    w == (AppView {
                        cursor: text::byte_len(before + seq![behind[0]]) as int,
                        ..v
                    })
                } else {
                    w == v
                },
                KeyCode::Home => w == (AppView { cursor: 0, ..v }),
                KeyCode::End => w == (AppView {
                    cursor: text::byte_len(before + behind) as int,
                    ..v
                }),
                _ => true,
            }
        }),
{
    let s = v.query;
    let k = before.len() as int;
    let len = s.len() as int;
    assert(s.take(k) =~= before);
    text::lemma_chars_before_prefix(s, k);
    text::lemma_encode_concat(before, behind);
    assert(s.take(len) =~= s);
    if k > 0 {
        assert(s.take(k - 1) =~= before.drop_last());
        text::lemma_byte_len_take_step(s, k - 1);
        text::lemma_char_width(s[k - 1]);
        text::lemma_chars_before_within(s, k - 1, v.cursor - 1);
        text::lemma_chars_before_prefix(s, k - 1);
        text::lemma_byte_len_monotone(s, k, len);
        assert(v.cursor_left().cursor == text::byte_len(before.drop_last()));
        assert(s.remove(k - 1) =~= before.drop_last() + behind);
    } else {
        assert(before =~= Seq::empty());
        assert(text::byte_len(before) == 0);
    }
    if behind.len() > 0 {
        assert(s.take(k + 1) =~= before + seq![behind[0]]);
        text::lemma_byte_len_monotone(s, k, len);
        assert(s.remove(k) =~= before + behind.drop_first());
    } else {
        assert(before + behind =~= before);
    }
    if let KeyCode::Char(ch) = key.code {
        assert(s.insert(k, ch) =~= before + seq![ch] + behind);
        text::lemma_encode_concat(before, seq![ch]);
        text::lemma_byte_len_one(ch);
    }
}

/// The other keys of search mode: control with `c` and with `r` switch one flag
/// over each, Esc leaves search mode, Enter leaves it with the results of the
/// search, and the rest do nothing.
pub proof fn law_keys_search(v: AppView, key: KeyPress, viewport_height: int)
    requires
        v.mode is Search,
    ensures
        ({
            let w = v.after_command(v.command(key), viewport_height);
            let code = key.code;
            let switches = key.is_control && (code == KeyCode::Char('c') || code == KeyCode::Char(
                'r',
            ));
            let switched = if code == KeyCode::Char('c') {
                AppFlag::IsCaseSensitive
            } else {
                AppFlag::IsUsingRegex
            };
            &&& switches ==> w == (AppView { flags: w.flags, ..v })
            &&& switches ==> forall|flag: AppFlag| #[trigger]
                w.flags.contains(flag) == (v.flags.contains(flag) != (flag == switched))
            &&& code == KeyCode::Esc ==> w == (AppView { mode: AppMode::Normal, ..v })
            &&& code == KeyCode::Enter ==> w == (AppView { mode: AppMode::Normal, ..v.searched() })
            &&& code == KeyCode::Up || code == KeyCode::Down || code == KeyCode::PageUp || code
                == KeyCode::PageDown || code == KeyCode::Other ==> w == v
        }),
{
}

/// In the help overlay `?` and Esc lead back, and no other key does anything.
pub proof fn law_keys_help(v: AppView, key: KeyPress, viewport_height: int)
    requires
        v.mode is Help,
    ensures
        v.after_command(v.command(key), viewport_height) == (if key.code == KeyCode::Char('?')
            || key.code == KeyCode::Esc {
            AppView { mode: AppMode::Normal, ..v }
        } else {
            v
        }),
{
}

/// In normal mode every key without a binding does nothing.
pub proof fn law_keys_unbound(v: AppView, key: KeyPress, viewport_height: int)
    requires
        v.mode is Normal,
        match key.code {
            KeyCode::Char(ch) => {
                &&& ch != 'q' && ch != '?' && ch != 't' && ch != 'j' && ch != 'k' && ch != 'h'
                &&& ch != 'l' && ch != 'f' && ch != 'b' && ch != 'g' && ch != 'G' && ch != '/'
                &&& ch != 'n' && ch != 'N' && ch != 'w' && ch != 's'
            },
            KeyCode::Backspace | KeyCode::Delete | KeyCode::Left | KeyCode::Right => true,
            KeyCode::Home | KeyCode::End | KeyCode::Other => true,
            _ => false,
        },
    ensures
        v.after_command(v.command(key), viewport_height) == v,
{
}

} // verus!
