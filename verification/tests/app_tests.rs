use rfc_reader::types::RfcNum;
use rfc_reader::ui::app::App;
use rfc_reader::ui::app::AppMode;
use rfc_reader::ui::flags::AppFlag;
use rfc_reader::ui::flags::AppStateFlags;
use rfc_reader::ui::highlight;
use rfc_reader::ui::highlight::SpanStyle;
use rfc_reader::ui::highlight::StyledSpan;

fn reader(content: &str) -> App {
    App::new(RfcNum::new(2119).unwrap(), String::from(content))
}

fn numbered(count: usize) -> App {
    let mut content = String::new();
    for n in 0..count {
        content.push_str(&format!("line {n}\n"));
    }
    reader(&content)
}

fn searching(content: &str, query: &str) -> App {
    let mut app = reader(content);
    app.enter_search_mode();
    for ch in query.chars() {
        app.add_search_char(ch);
    }
    app.perform_search();
    app.exit_search_mode();
    app
}

fn shown(pieces: &[StyledSpan<'_>]) -> Vec<(String, SpanStyle)> {
    pieces.iter().map(|piece| (String::from(piece.text), piece.style)).collect()
}

fn styled(pieces: &[(&str, SpanStyle)]) -> Vec<(String, SpanStyle)> {
    pieces.iter().map(|piece| (String::from(piece.0), piece.1)).collect()
}

#[test]
fn flags_are_set_and_cleared() {
    let mut flags = AppStateFlags::default();
    assert!(flags.contains(AppFlag::ShouldRun));
    assert!(!flags.contains(AppFlag::ShouldShowToc));
    flags.insert(AppFlag::HasNoResults);
    flags.insert(AppFlag::HasNoResults);
    assert!(flags.contains(AppFlag::HasNoResults));
    flags.remove(AppFlag::HasNoResults);
    assert!(!flags.contains(AppFlag::HasNoResults));
    flags.remove(AppFlag::ShouldRun);
    assert!(!flags.contains(AppFlag::ShouldRun));
    assert!(!flags.contains(AppFlag::IsCaseSensitive));
}

#[test]
fn toggling_twice_changes_nothing() {
    let mut app = reader("text\n");
    let before = app.app_state;
    app.toggle_toc();
    assert!(app.app_state.contains(AppFlag::ShouldShowToc));
    app.toggle_toc();
    app.toggle_case_sensitivity();
    assert!(app.app_state.contains(AppFlag::IsCaseSensitive));
    app.toggle_case_sensitivity();
    app.toggle_regex_mode();
    assert!(app.app_state.contains(AppFlag::IsUsingRegex));
    app.toggle_regex_mode();
    assert_eq!(app.app_state, before);
    app.toggle_help();
    assert_eq!(app.mode, AppMode::Help);
    app.toggle_help();
    assert_eq!(app.mode, AppMode::Normal);
}

#[test]
fn new_reader_starts_at_the_top() {
    let app = reader("1. One\n\ntext\n2. Two\n");
    assert_eq!(app.rfc_line_number, 4);
    assert_eq!(app.current_scroll_pos, 0);
    assert_eq!(app.mode, AppMode::Normal);
    assert_eq!(app.rfc_number.get(), 2119);
    assert_eq!(app.rfc_toc_panel.selected_line(), Some(0));
    assert!(app.query_text.is_empty() && app.query_matches.is_empty());
    assert!(app.should_run());
}

#[test]
fn default_reader_is_empty() {
    let app = App::default();
    assert_eq!(app.rfc_number.get(), 1);
    assert_eq!((app.rfc_line_number, app.current_scroll_pos, app.query_cursor_pos), (0, 0, 0));
    assert_eq!(app.rfc_content, "");
    assert!(app.should_run() && !app.has_search_results());
}

#[test]
fn scrolling_stays_in_the_document() {
    let mut app = numbered(10);
    app.scroll_down(3);
    assert_eq!(app.current_scroll_pos, 3);
    app.scroll_up(1);
    assert_eq!(app.current_scroll_pos, 2);
    app.scroll_down(usize::MAX);
    assert_eq!(app.current_scroll_pos, 9);
    app.scroll_up(100);
    assert_eq!(app.current_scroll_pos, 0);
    let mut empty = reader("");
    empty.scroll_down(5);
    assert_eq!(empty.current_scroll_pos, 0);
}

#[test]
fn toc_entry_is_jumped_to() {
    let mut app = reader("text\n1. One\nmore\n2. Two\n");
    app.jump_to_toc_entry();
    assert_eq!(app.current_scroll_pos, 1);
    app.rfc_toc_panel.next();
    app.jump_to_toc_entry();
    assert_eq!(app.current_scroll_pos, 3);
    app.rfc_toc_panel.next();
    app.jump_to_toc_entry();
    assert_eq!(app.current_scroll_pos, 3);
}

#[test]
fn typing_edits_the_query() {
    let mut app = reader("text\n");
    app.enter_search_mode();
    for ch in "aé☑".chars() {
        app.add_search_char(ch);
    }
    assert_eq!((app.query_text.as_str(), app.query_cursor_pos), ("aé☑", 6));
    app.move_search_cursor_left();
    assert_eq!(app.query_cursor_pos, 3);
    app.move_search_cursor_left();
    assert_eq!(app.query_cursor_pos, 1);
    app.add_search_char('𝄞');
    assert_eq!((app.query_text.as_str(), app.query_cursor_pos), ("a𝄞é☑", 5));
    app.remove_search_char();
    assert_eq!((app.query_text.as_str(), app.query_cursor_pos), ("aé☑", 1));
    app.delete_search_char();
    assert_eq!((app.query_text.as_str(), app.query_cursor_pos), ("a☑", 1));
    app.move_search_cursor_right();
    assert_eq!(app.query_cursor_pos, 4);
    app.move_search_cursor_right();
    app.delete_search_char();
    assert_eq!((app.query_text.as_str(), app.query_cursor_pos), ("a☑", 4));
    app.move_search_cursor_home();
    app.move_search_cursor_left();
    app.remove_search_char();
    assert_eq!((app.query_text.as_str(), app.query_cursor_pos), ("a☑", 0));
    app.move_search_cursor_end();
    assert_eq!(app.query_cursor_pos, 4);
}

#[test]
fn cursor_moves_undo_each_other() {
    let mut app = reader("text\n");
    app.query_text = String::from("xé☑𝄞");
    app.query_cursor_pos = 3;
    app.move_search_cursor_left();
    app.move_search_cursor_right();
    assert_eq!(app.query_cursor_pos, 3);
    app.move_search_cursor_right();
    app.move_search_cursor_left();
    assert_eq!(app.query_cursor_pos, 3);
}

#[test]
fn search_jumps_to_the_first_result_below() {
    let mut app = searching("hit\nno\nhit\nno\nhit\n", "hit");
    assert_eq!(app.query_match_line_nums, vec![0, 2, 4]);
    assert_eq!((app.current_query_match_index, app.current_scroll_pos), (0, 0));
    app.current_scroll_pos = 1;
    app.perform_search();
    assert_eq!((app.current_query_match_index, app.current_scroll_pos), (1, 2));
    assert!(!app.app_state.contains(AppFlag::HasNoResults));
}

#[test]
fn search_stays_where_all_results_are_above() {
    let mut app = searching("hit\nno\nno\n", "hit");
    app.current_scroll_pos = 2;
    app.perform_search();
    assert_eq!((app.current_query_match_index, app.current_scroll_pos), (1, 2));
    assert!(app.has_search_results());
    app.prev_search_result();
    assert_eq!((app.current_query_match_index, app.current_scroll_pos), (0, 0));
}

#[test]
fn search_without_results_says_so() {
    let mut app = searching("text\n", "missing");
    assert!(app.app_state.contains(AppFlag::HasNoResults));
    assert!(!app.has_search_results());
    app.reset_search_highlights();
    assert!(!app.app_state.contains(AppFlag::HasNoResults));
    assert_eq!(app.query_text, "");
}

#[test]
fn invalid_regex_finds_nothing() {
    let mut app = reader("a(b\n");
    app.toggle_regex_mode();
    app.query_text = String::from("a(");
    app.perform_search();
    assert!(app.app_state.contains(AppFlag::HasNoResults));
    app.toggle_regex_mode();
    app.perform_search();
    assert!(!app.app_state.contains(AppFlag::HasNoResults));
    assert_eq!(app.query_match_line_nums, vec![0]);
}

#[test]
fn empty_query_clears_the_results() {
    let mut app = searching("hit\n", "hit");
    app.query_text = String::new();
    app.perform_search();
    assert!(app.query_match_line_nums.is_empty() && app.query_matches.is_empty());
    assert!(!app.app_state.contains(AppFlag::HasNoResults));
}

#[test]
fn search_respects_its_switches() {
    let content = "Hit\nhit\nh.t\n";
    let mut app = searching(content, "hit");
    assert_eq!(app.query_match_line_nums, vec![0, 1]);
    app.toggle_case_sensitivity();
    app.perform_search();
    assert_eq!(app.query_match_line_nums, vec![1]);
    app.query_text = String::from("h.t");
    app.perform_search();
    assert_eq!(app.query_match_line_nums, vec![2]);
    app.toggle_regex_mode();
    app.perform_search();
    assert_eq!(app.query_match_line_nums, vec![1, 2]);
}

#[test]
fn results_are_walked_in_both_directions() {
    let mut app = searching("a\nx\na\nx\na\n", "a");
    app.next_search_result();
    assert_eq!((app.current_query_match_index, app.current_scroll_pos), (1, 2));
    app.next_search_result();
    app.next_search_result();
    assert_eq!((app.current_query_match_index, app.current_scroll_pos), (2, 4));
    app.prev_search_result();
    assert_eq!((app.current_query_match_index, app.current_scroll_pos), (1, 2));
    app.scroll_down(1);
    app.prev_search_result();
    assert_eq!((app.current_query_match_index, app.current_scroll_pos), (1, 2));
    app.prev_search_result();
    app.prev_search_result();
    assert_eq!((app.current_query_match_index, app.current_scroll_pos), (0, 0));
}

#[test]
fn without_results_there_is_nowhere_to_go() {
    let mut app = numbered(5);
    app.scroll_down(2);
    app.next_search_result();
    app.prev_search_result();
    assert_eq!(app.current_scroll_pos, 2);
}

#[test]
fn entering_search_mode_clears_the_previous_search() {
    let mut app = searching("hit\nno\nhit\n", "hit");
    app.next_search_result();
    app.enter_search_mode();
    assert_eq!((app.mode, app.query_text.as_str(), app.query_cursor_pos), (AppMode::Search, "", 0));
    assert!(app.query_match_line_nums.is_empty() && app.query_matches.is_empty());
    assert_eq!((app.current_query_match_index, app.current_scroll_pos), (0, 2));
    app.add_search_char('n');
    app.exit_search_mode();
    assert_eq!(app.mode, AppMode::Normal);
    assert!(!app.has_search_results());
    assert_eq!(shown(&app.build_text()[0]), styled(&[("hit", SpanStyle::Plain)]));
}

#[test]
fn entering_search_mode_dismisses_the_message() {
    let mut app = searching("text\n", "missing");
    assert!(app.app_state.contains(AppFlag::HasNoResults));
    app.enter_search_mode();
    assert!(!app.app_state.contains(AppFlag::HasNoResults));
}

#[test]
fn reset_puts_the_cursor_back() {
    let mut app = searching("hit\n", "hit");
    assert_eq!(app.query_cursor_pos, 3);
    app.reset_search_highlights();
    assert_eq!((app.query_text.as_str(), app.query_cursor_pos), ("", 0));
    app.add_search_char('x');
    assert_eq!((app.query_text.as_str(), app.query_cursor_pos), ("x", 1));
}

#[test]
fn searching_again_changes_nothing() {
    for scroll in 0..4 {
        let mut app = searching("no\nhit\nno\nno\n", "hit");
        app.current_scroll_pos = scroll;
        app.perform_search();
        let first = (app.current_scroll_pos, app.current_query_match_index, app.app_state);
        let lines = app.query_match_line_nums.clone();
        let matches = app.query_matches.clone();
        app.perform_search();
        assert_eq!((app.current_scroll_pos, app.current_query_match_index, app.app_state), first);
        assert_eq!((app.query_match_line_nums, app.query_matches), (lines, matches));
    }
}

#[test]
fn empty_matches_may_share_a_start() {
    let pieces = highlight::build_line_with_search_and_title_highlights("ab", &[1..1, 1..1, 1..2, 7..9], true);
    let joined: String = pieces.iter().map(|piece| piece.text).collect();
    assert_eq!(joined, "ab");
    assert_eq!(shown(&pieces)[0], (String::from("a"), SpanStyle::Title));
    assert_eq!(shown(&pieces)[3], (String::from("b"), SpanStyle::Match));
}

#[test]
fn search_ignores_the_case_of_letters() {
    let content = "The TABLE\nthe t_able\nTaBlE\n";
    let app = searching(content, "tAbLe");
    assert_eq!(app.query_match_line_nums, vec![0, 2]);
    assert_eq!(app.query_matches.get(&0), Some(&vec![4..9]));
}

#[test]
fn search_can_be_finished_with_given_matches() {
    let mut app = reader("a\nb\na\n");
    app.query_text = String::from("a");
    let regex = app.start_search();
    assert!(regex.is_some());
    app.finish_search(vec![(0, vec![0..1]), (2, vec![0..1])]);
    assert_eq!(app.query_match_line_nums, vec![0, 2]);
    assert_eq!(app.query_matches.get(&2), Some(&vec![0..1]));
    app.query_text = String::new();
    assert!(app.start_search().is_none());
    assert!(app.query_match_line_nums.is_empty());
}

#[test]
fn matches_are_cut_out_of_a_line() {
    let pieces = highlight::build_line_with_search_and_title_highlights("abcdef", &[1..3, 4..5], false);
    assert_eq!(
        shown(&pieces),
        styled(&[
            ("a", SpanStyle::Plain),
            ("bc", SpanStyle::Match),
            ("d", SpanStyle::Plain),
            ("e", SpanStyle::Match),
            ("f", SpanStyle::Plain),
        ])
    );
    let title = highlight::build_line_with_search_and_title_highlights("ab", &[0..1], true);
    assert_eq!(shown(&title), styled(&[("a", SpanStyle::Match), ("b", SpanStyle::Title)]));
}

#[test]
fn spans_outside_of_the_line_are_clamped() {
    let pieces = highlight::build_line_with_search_and_title_highlights("ab", &[1..9, 20..30], false);
    assert_eq!(
        shown(&pieces),
        styled(&[("a", SpanStyle::Plain), ("b", SpanStyle::Match), ("", SpanStyle::Match)])
    );
    let inside = highlight::build_line_with_search_and_title_highlights("é", &[1..2], false);
    assert_eq!(shown(&inside), styled(&[]));
    let empty = highlight::build_line_with_search_and_title_highlights("", &[], true);
    assert!(empty.is_empty());
}

#[test]
fn shown_text_loses_nothing() {
    let content = "1. Hit title\n\nno\nhit and hit\n";
    let app = searching(content, "hit");
    let text = app.build_text();
    assert_eq!(
        shown(&text[0]),
        styled(&[
            ("1. ", SpanStyle::Title),
            ("Hit", SpanStyle::Match),
            (" title", SpanStyle::Title),
        ])
    );
    assert_eq!(shown(&text[1]), styled(&[("", SpanStyle::Plain)]));
    assert_eq!(shown(&text[2]), styled(&[("no", SpanStyle::Plain)]));
    assert_eq!(
        shown(&text[3]),
        styled(&[
            ("hit", SpanStyle::Match),
            (" and ", SpanStyle::Plain),
            ("hit", SpanStyle::Match),
        ])
    );
    for (line, pieces) in content.lines().zip(text.iter()) {
        let joined: String = pieces.iter().map(|piece| piece.text).collect();
        assert_eq!(joined, line);
    }
}

#[test]
fn matches_are_hidden_while_a_query_is_typed() {
    let mut app = searching("1. Hit\nhit\n", "hit");
    app.mode = AppMode::Search;
    let text = app.build_text();
    assert_eq!(shown(&text[0]), styled(&[("1. Hit", SpanStyle::Title)]));
    assert_eq!(shown(&text[1]), styled(&[("hit", SpanStyle::Plain)]));
}
