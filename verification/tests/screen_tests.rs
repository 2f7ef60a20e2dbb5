use rfc_reader::startup;
use rfc_reader::startup::Arguments;
use rfc_reader::startup::ContentSource;
use rfc_reader::startup::StartupAction;
use rfc_reader::types::RfcNum;
use rfc_reader::ui::app::App;
use rfc_reader::ui::app::AppMode;
use rfc_reader::ui::flags::AppFlag;
use rfc_reader::ui::layout;
use rfc_reader::ui::layout::Area;
use rfc_reader::ui::layout::Sizing;
use rfc_reader::ui::screen;
use rfc_reader::ui::screen::MessageColor;
use rfc_reader::ui::screen::Screen;
use rfc_reader::ui::status;

fn open(content: &str) -> App {
    App::new(RfcNum::new(2119).unwrap(), String::from(content))
}

fn lines_app(count: usize) -> App {
    open(&"x\n".repeat(count))
}

fn search_for(app: &mut App, query: &str) {
    app.query_text = String::from(query);
    app.perform_search();
}

#[test]
fn modes_are_named() {
    let mut app = lines_app(3);
    assert_eq!(app.get_mode_text(), "NORMAL");
    app.toggle_toc();
    assert_eq!(app.get_mode_text(), "NORMAL (ToC)");
    app.toggle_help();
    assert_eq!(app.get_mode_text(), "HELP");
    app.enter_search_mode();
    assert_eq!(app.get_mode_text(), "SEARCH | C:☐ R:☐");
    app.toggle_case_sensitivity();
    assert_eq!(app.get_search_mode_text(), "SEARCH | C:☑ R:☐");
    app.toggle_regex_mode();
    app.toggle_case_sensitivity();
    assert_eq!(app.get_search_mode_text(), "SEARCH | C:☐ R:☑");
}

#[test]
fn progress_is_told_in_percent() {
    let mut app = lines_app(201);
    assert_eq!(app.build_progress_text(), "L 1/201 (0%)");
    app.scroll_down(99);
    assert_eq!(app.build_progress_text(), "L 100/201 (49%)");
    app.scroll_down(500);
    assert_eq!(app.build_progress_text(), "L 201/201 (100%)");
    assert_eq!(lines_app(1).build_progress_text(), "L 1/1 (100%)");
    assert_eq!(open("").build_progress_text(), "L 1/0 (0%)");
}

#[test]
fn search_info_counts_from_one() {
    let mut app = open("a\nb\na\n");
    assert_eq!(app.build_search_info(), None);
    search_for(&mut app, "a");
    assert_eq!(app.build_search_info().as_deref(), Some(" | M 1/2"));
    app.next_search_result();
    assert_eq!(app.build_progress_text(), "L 3/3 (100%) | M 2/2");
    app.current_query_match_index = 9;
    assert_eq!(app.build_search_info().as_deref(), Some(" | M 2/2"));
    app.mode = AppMode::Search;
    assert_eq!(app.build_search_info(), None);
}

#[test]
fn help_text_fits_the_mode() {
    let mut app = open("a\n");
    assert_eq!(app.get_help_text(), "up/down:scroll  /:search  ?:help  q:quit");
    search_for(&mut app, "a");
    assert_eq!(app.get_help_text(), "n/N:next/prev  Esc:clear");
    app.toggle_toc();
    assert_eq!(app.get_help_text(), "t:toggle ToC  w/s:nav  Enter:jump  q:quit");
    app.toggle_help();
    assert_eq!(app.get_help_text(), "?/Esc:close");
    app.enter_search_mode();
    assert_eq!(app.get_help_text(), "Enter:search  Esc:cancel");
}

#[test]
fn statusbar_is_measured() {
    let bar = lines_app(3).build_statusbar();
    assert_eq!(bar.left, "RFC 2119 | L 1/3 (0%)");
    assert_eq!(bar.middle, "NORMAL");
    assert_eq!(bar.right, "up/down:scroll  /:search  ?:help  q:quit");
    assert_eq!((bar.left_width, bar.right_width), (21, 40));
    assert_eq!(status::window_title(RfcNum::new(8).unwrap()), "RFC 8 - Press ? for help");
}

#[test]
fn small_terminals_are_refused() {
    assert!(screen::is_terminal_too_small(93, 15));
    assert!(screen::is_terminal_too_small(94, 14));
    assert!(!screen::is_terminal_too_small(94, 15));
    assert_eq!(lines_app(3).screen(93, 40), Screen::TooSmall);
}

#[test]
fn screens_show_what_the_state_says() {
    let mut app = lines_app(70000);
    app.scroll_down(5);
    let plain = |first_row: u16| Screen::Reader {
        shows_toc: false,
        first_row,
        shows_help: false,
        shows_search: false,
        shows_no_results: false,
    };
    assert_eq!(app.screen(94, 15), plain(5));
    app.scroll_down(65530);
    assert_eq!(app.screen(94, 15), plain(65535));
    app.scroll_down(1);
    assert_eq!(app.screen(94, 15), plain(65535));
    app.toggle_toc();
    app.toggle_help();
    app.app_state.insert(AppFlag::HasNoResults);
    assert_eq!(
        app.screen(120, 40),
        Screen::Reader {
            shows_toc: true,
            first_row: 65535,
            shows_help: true,
            shows_search: false,
            shows_no_results: true,
        }
    );
    app.enter_search_mode();
    assert!(matches!(app.screen(120, 40), Screen::Reader { shows_search: true, shows_help: false, .. }));
}

#[test]
fn search_box_stands_above_the_bottom() {
    assert_eq!(screen::search_box(100, 40), Area { x: 25, y: 36, width: 50, height: 3 });
    assert_eq!(screen::search_box(95, 3), Area { x: 23, y: 0, width: 47, height: 3 });
}

#[test]
fn search_cursor_follows_the_query() {
    let mut app = lines_app(3);
    let area = screen::search_box(100, 40);
    app.enter_search_mode();
    assert_eq!(app.search_prompt(), "/");
    assert_eq!(app.search_cursor(area), (27, 37));
    for ch in "é☑x".chars() {
        app.add_search_char(ch);
    }
    assert_eq!(app.search_prompt(), "/é☑x");
    assert_eq!(app.search_cursor(area), (30, 37));
    app.move_search_cursor_left();
    assert_eq!(app.search_cursor(area), (29, 37));
    app.query_cursor_pos = 1;
    assert_eq!(app.search_cursor(area), (27, 37));
    app.query_cursor_pos = 100;
    assert_eq!(app.search_cursor(area), (27, 37));
    let edge = Area { x: 65534, y: 65535, width: 0, height: 0 };
    assert_eq!(app.search_cursor(edge), (65535, 65535));
}

#[test]
fn too_small_message_names_the_sizes() {
    let lines = screen::too_small_message(100, 7);
    let flat: Vec<Vec<(String, MessageColor)>> = lines
        .into_iter()
        .map(|line| line.into_iter().map(|span| (span.text, span.color)).collect())
        .collect();
    let span = |text: &str, color: MessageColor| (String::from(text), color);
    assert_eq!(
        flat,
        vec![
            vec![span("Terminal size is too small:", MessageColor::Plain)],
            vec![
                span("Width: ", MessageColor::Plain),
                span("100", MessageColor::Green),
                span(", ", MessageColor::Plain),
                span("Height: ", MessageColor::Plain),
                span("7", MessageColor::Red),
            ],
            vec![span("", MessageColor::Plain)],
            vec![span("Minimum required:", MessageColor::Plain)],
            vec![
                span("Width: ", MessageColor::Plain),
                span("94", MessageColor::White),
                span(", ", MessageColor::Plain),
                span("Height: ", MessageColor::Plain),
                span("15", MessageColor::White),
            ],
        ]
    );
}

#[test]
fn help_lists_the_keys() {
    let lines = screen::help_lines();
    assert_eq!(lines.len(), 19);
    assert_eq!(lines[0], "Keybindings:");
    assert_eq!(lines[2], "j/k or ↓/↑: Scroll down/up");
    assert_eq!(lines[18], "?: Toggle help");
}

fn check_centered(start: u16, extent: u16, percent: u16, part_start: u16, part_extent: u16) {
    let before = i64::from(part_start) - i64::from(start);
    let behind = i64::from(start) + i64::from(extent) - i64::from(part_start) - i64::from(part_extent);
    assert!(before >= 0 && behind >= 0);
    assert!((before - behind).abs() <= 1);
    assert!((100 * i64::from(part_extent) - i64::from(percent) * i64::from(extent)).abs() <= 101);
}

#[test]
fn overlays_are_centered() {
    assert_eq!(
        layout::centered_rect(
            Area { x: 0, y: 0, width: 100, height: 40 },
            Sizing::Percentage(60),
            Sizing::Percentage(65),
        ),
        Area { x: 20, y: 7, width: 60, height: 26 }
    );
    for width in 0..140 {
        let height = width / 2 + 7;
        let area = Area { x: width % 5, y: width % 3, width, height };
        let help = screen::help_area(area);
        check_centered(area.x, width, 60, help.x, help.width);
        check_centered(area.y, height, 65, help.y, help.height);
        let none = screen::no_results_area(area);
        check_centered(area.x, width, 40, none.x, none.width);
        check_centered(area.y, height, 25, none.y, none.height);
        let small = screen::too_small_area(area);
        assert_eq!((small.x, small.width), (area.x, width));
        check_centered(area.y, height, 50, small.y, small.height);
    }
}

#[test]
fn any_share_can_be_centered() {
    for percent in 0..=100 {
        for width in [1u16, 37, 94, 101, 250, 999, 30001, 65535] {
            let area = Area { x: 0, y: 0, width, height: 1 };
            let part = layout::centered_rect(area, Sizing::Percentage(percent), Sizing::Min(0));
            check_centered(0, width, percent, part.x, part.width);
            assert_eq!((part.y, part.height), (0, 1));
        }
    }
}

#[test]
fn statusbar_takes_the_last_row() {
    for height in 1..100 {
        let area = Area { x: 3, y: height % 4, width: 94, height };
        let (main, bar) = layout::screen_areas(area);
        assert_eq!(main, Area { x: 3, y: area.y, width: 94, height: height - 1 });
        assert_eq!(bar, Area { x: 3, y: area.y + height - 1, width: 94, height: 1 });
    }
}

#[test]
fn toc_takes_a_quarter() {
    for width in 0..250 {
        let area = Area { x: width % 7, y: 1, width, height: 30 };
        let (toc, content) = layout::toc_areas(area);
        let quarter = (25 * width + 50) / 100;
        assert_eq!(toc, Area { x: area.x, y: 1, width: quarter, height: 30 });
        assert_eq!(
            content,
            Area { x: area.x + quarter, y: 1, width: width - quarter, height: 30 }
        );
    }
}

#[test]
fn statusbar_sections_share_the_row() {
    for (width, left, right) in [(94, 21, 40), (94, 0, 0), (94, 94, 0), (94, 50, 44), (200, 33, 24)] {
        let area = Area { x: 2, y: 9, width, height: 1 };
        let (first, middle, last) = layout::statusbar_areas(area, left, right);
        assert_eq!(first, Area { x: 2, y: 9, width: left, height: 1 });
        assert_eq!(middle, Area { x: 2 + left, y: 9, width: width - left - right, height: 1 });
        assert_eq!(last, Area { x: 2 + width - right, y: 9, width: right, height: 1 });
    }
    let cramped = layout::statusbar_areas(Area { x: 0, y: 0, width: 10, height: 1 }, 9, 9);
    for part in [cramped.0, cramped.1, cramped.2] {
        assert!(part.x + part.width <= 10);
        assert_eq!((part.y, part.height), (0, 1));
    }
}

#[test]
fn maintenance_comes_first() {
    let number = RfcNum::new(5);
    let arguments = |clear_cache: bool, clear_logs: bool, list: bool| Arguments {
        clear_cache,
        clear_logs,
        list,
        offline: false,
        rfc_number: number,
    };
    assert!(matches!(startup::startup_action(&arguments(true, true, true)), StartupAction::ClearCache));
    assert!(matches!(startup::startup_action(&arguments(false, true, true)), StartupAction::ClearLogs));
    assert!(matches!(startup::startup_action(&arguments(false, false, true)), StartupAction::ListCached));
    assert!(matches!(
        startup::startup_action(&arguments(false, false, false)),
        StartupAction::Open(n) if n.get() == 5
    ));
    let missing = Arguments { rfc_number: None, ..arguments(false, false, false) };
    assert!(matches!(startup::startup_action(&missing), StartupAction::MissingNumber));
}

#[test]
fn content_comes_from_the_cache_first() {
    assert_eq!(startup::content_source(true, true), ContentSource::Cache);
    assert_eq!(startup::content_source(true, false), ContentSource::Cache);
    assert_eq!(startup::content_source(false, true), ContentSource::Unavailable);
    assert_eq!(startup::content_source(false, false), ContentSource::Network);
    assert_eq!(
        startup::unavailable_text(RfcNum::new(99).unwrap()),
        "Unable to access RFC 99 - network access disabled in offline mode and RFC not cached locally"
    );
}
