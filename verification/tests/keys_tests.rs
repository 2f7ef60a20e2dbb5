use rfc_reader::types::RfcNum;
use rfc_reader::ui::app::App;
use rfc_reader::ui::app::AppMode;
use rfc_reader::ui::flags::AppFlag;
use rfc_reader::ui::keys;
use rfc_reader::ui::keys::Command;
use rfc_reader::ui::keys::CursorChange;
use rfc_reader::ui::keys::Event;
use rfc_reader::ui::keys::EventPlan;
use rfc_reader::ui::keys::KeyCode;
use rfc_reader::ui::keys::KeyPress;

fn press(code: KeyCode) -> KeyPress {
    KeyPress { code, is_control: false }
}

fn document(count: usize) -> App {
    let mut content = String::new();
    for n in 0..count {
        content.push_str(&format!("{n}. section {n}\n"));
    }
    App::new(RfcNum::new(7).unwrap(), content)
}

fn type_keys(app: &mut App, keys: &str) {
    for ch in keys.chars() {
        let code = if ch == '\n' { KeyCode::Enter } else { KeyCode::Char(ch) };
        app.handle_key(press(code), 20);
    }
}

#[test]
fn normal_mode_has_its_bindings() {
    let bindings = [
        (KeyCode::Char('q'), Command::Quit),
        (KeyCode::Char('?'), Command::ToggleHelp),
        (KeyCode::Char('t'), Command::ToggleToc),
        (KeyCode::Char('j'), Command::ScrollDown(1)),
        (KeyCode::Down, Command::ScrollDown(1)),
        (KeyCode::Char('k'), Command::ScrollUp(1)),
        (KeyCode::Up, Command::ScrollUp(1)),
        (KeyCode::Char('h'), Command::ScrollDown(56)),
        (KeyCode::Char('l'), Command::ScrollUp(56)),
        (KeyCode::Char('f'), Command::ViewportDown),
        (KeyCode::PageDown, Command::ViewportDown),
        (KeyCode::Char('b'), Command::ViewportUp),
        (KeyCode::PageUp, Command::ViewportUp),
        (KeyCode::Char('g'), Command::ToStart),
        (KeyCode::Char('G'), Command::ToEnd),
        (KeyCode::Char('/'), Command::EnterSearch),
        (KeyCode::Char('n'), Command::NextResult),
        (KeyCode::Char('N'), Command::PreviousResult),
        (KeyCode::Esc, Command::ResetSearch),
        (KeyCode::Char('x'), Command::Ignore),
        (KeyCode::Home, Command::Ignore),
        (KeyCode::Other, Command::Ignore),
    ];
    for (code, command) in bindings {
        for shows_toc in [false, true] {
            assert_eq!(keys::command_for(AppMode::Normal, shows_toc, press(code)), command);
        }
    }
}

#[test]
fn panel_keys_need_the_panel() {
    let bindings = [
        (KeyCode::Char('w'), Command::TocPrevious),
        (KeyCode::Char('s'), Command::TocNext),
        (KeyCode::Enter, Command::TocJump),
    ];
    for (code, command) in bindings {
        assert_eq!(keys::command_for(AppMode::Normal, true, press(code)), command);
        assert_eq!(keys::command_for(AppMode::Normal, false, press(code)), Command::Ignore);
    }
}

#[test]
fn help_mode_only_closes() {
    assert_eq!(keys::command_for(AppMode::Help, true, press(KeyCode::Char('?'))), Command::ToggleHelp);
    assert_eq!(keys::command_for(AppMode::Help, true, press(KeyCode::Esc)), Command::ToggleHelp);
    for code in [KeyCode::Char('q'), KeyCode::Char('j'), KeyCode::Enter, KeyCode::Down] {
        assert_eq!(keys::command_for(AppMode::Help, true, press(code)), Command::Ignore);
    }
}

#[test]
fn search_mode_has_its_bindings() {
    let bindings = [
        (KeyCode::Enter, Command::Search),
        (KeyCode::Esc, Command::CancelSearch),
        (KeyCode::Backspace, Command::RemoveChar),
        (KeyCode::Delete, Command::DeleteChar),
        (KeyCode::Left, Command::CursorLeft),
        (KeyCode::Right, Command::CursorRight),
        (KeyCode::Home, Command::CursorHome),
        (KeyCode::End, Command::CursorEnd),
        (KeyCode::Char('q'), Command::AddChar('q')),
        (KeyCode::Char('c'), Command::AddChar('c')),
        (KeyCode::Char('r'), Command::AddChar('r')),
        (KeyCode::Up, Command::Ignore),
        (KeyCode::PageDown, Command::Ignore),
    ];
    for (code, command) in bindings {
        assert_eq!(keys::command_for(AppMode::Search, true, press(code)), command);
    }
    let control = |ch: char| KeyPress { code: KeyCode::Char(ch), is_control: true };
    assert_eq!(
        keys::command_for(AppMode::Search, false, control('c')),
        Command::ToggleCaseSensitivity
    );
    assert_eq!(keys::command_for(AppMode::Search, false, control('r')), Command::ToggleRegex);
    assert_eq!(keys::command_for(AppMode::Search, false, control('x')), Command::AddChar('x'));
}

#[test]
fn events_are_planned() {
    let key = press(KeyCode::Char('j'));
    assert_eq!(
        keys::plan_event(Event::Press(key)),
        EventPlan { key: Some(key), should_clear: false, should_redraw: true }
    );
    assert_eq!(
        keys::plan_event(Event::OtherKey),
        EventPlan { key: None, should_clear: false, should_redraw: false }
    );
    assert_eq!(
        keys::plan_event(Event::Tick),
        EventPlan { key: None, should_clear: false, should_redraw: true }
    );
    assert_eq!(
        keys::plan_event(Event::Resize),
        EventPlan { key: None, should_clear: true, should_redraw: true }
    );
}

#[test]
fn cursor_is_shown_while_typing() {
    assert_eq!(Command::EnterSearch.cursor_change(), CursorChange::Show);
    assert_eq!(Command::Search.cursor_change(), CursorChange::Hide);
    assert_eq!(Command::CancelSearch.cursor_change(), CursorChange::Hide);
    assert_eq!(Command::AddChar('x').cursor_change(), CursorChange::Keep);
    assert!(Command::ViewportDown.needs_viewport() && Command::ViewportUp.needs_viewport());
    assert!(!Command::ScrollDown(3).needs_viewport());
}

#[test]
fn keys_scroll_the_document() {
    let mut app = document(200);
    type_keys(&mut app, "jjjk");
    assert_eq!(app.current_scroll_pos, 2);
    type_keys(&mut app, "h");
    assert_eq!(app.current_scroll_pos, 58);
    type_keys(&mut app, "f");
    assert_eq!(app.current_scroll_pos, 78);
    type_keys(&mut app, "bl");
    assert_eq!(app.current_scroll_pos, 2);
    type_keys(&mut app, "G");
    assert_eq!(app.current_scroll_pos, 199);
    type_keys(&mut app, "g");
    assert_eq!(app.current_scroll_pos, 0);
}

#[test]
fn keys_run_a_search() {
    let mut app = document(30);
    type_keys(&mut app, "/section 2\n");
    assert_eq!(app.mode, AppMode::Normal);
    assert_eq!(app.query_match_line_nums, vec![2, 20, 21, 22, 23, 24, 25, 26, 27, 28, 29]);
    assert_eq!(app.current_scroll_pos, 2);
    type_keys(&mut app, "nn");
    assert_eq!(app.current_scroll_pos, 21);
    type_keys(&mut app, "N");
    assert_eq!(app.current_scroll_pos, 20);
    app.handle_key(press(KeyCode::Esc), 20);
    assert!(!app.has_search_results() && app.query_text.is_empty());
}

#[test]
fn keys_edit_the_query() {
    let mut app = document(3);
    type_keys(&mut app, "/abc");
    app.handle_key(press(KeyCode::Left), 20);
    app.handle_key(press(KeyCode::Backspace), 20);
    assert_eq!((app.query_text.as_str(), app.query_cursor_pos), ("ac", 1));
    app.handle_key(press(KeyCode::Delete), 20);
    assert_eq!(app.query_text, "a");
    app.handle_key(press(KeyCode::Home), 20);
    type_keys(&mut app, "q");
    app.handle_key(press(KeyCode::End), 20);
    app.handle_key(press(KeyCode::Right), 20);
    assert_eq!((app.query_text.as_str(), app.query_cursor_pos), ("qa", 2));
    app.handle_key(KeyPress { code: KeyCode::Char('c'), is_control: true }, 20);
    app.handle_key(KeyPress { code: KeyCode::Char('r'), is_control: true }, 20);
    assert!(app.app_state.contains(AppFlag::IsCaseSensitive));
    assert!(app.app_state.contains(AppFlag::IsUsingRegex));
    app.handle_key(press(KeyCode::Esc), 20);
    assert_eq!((app.mode, app.query_text.as_str()), (AppMode::Normal, "qa"));
}

#[test]
fn keys_use_the_panel() {
    let mut app = document(5);
    type_keys(&mut app, "s\n");
    assert_eq!((app.rfc_toc_panel.state().selected, app.current_scroll_pos), (Some(0), 0));
    type_keys(&mut app, "tsss\n");
    assert_eq!((app.rfc_toc_panel.state().selected, app.current_scroll_pos), (Some(3), 3));
    type_keys(&mut app, "w\nt");
    assert_eq!(app.current_scroll_pos, 2);
    assert!(!app.app_state.contains(AppFlag::ShouldShowToc));
}

#[test]
fn only_q_in_normal_mode_quits() {
    let mut app = document(5);
    type_keys(&mut app, "?q");
    assert!(app.should_run());
    assert_eq!(app.mode, AppMode::Help);
    type_keys(&mut app, "?/q");
    assert!(app.should_run());
    app.handle_key(press(KeyCode::Esc), 20);
    type_keys(&mut app, "q");
    assert!(!app.should_run());
}
