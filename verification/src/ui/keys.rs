//! What keys and other events do to the reader.

use vstd::prelude::*;

use crate::text;
use crate::types::LineNumber;
use crate::ui::app::App;
use crate::ui::app::AppMode;
use crate::ui::app::AppView;
use crate::ui::app_laws;
use crate::ui::flags::AppFlag;
use crate::ui::toc_panel;

verus! {

/// Lines on a page of an RFC.
pub const RFC_PAGE_LINES: LineNumber = 56;

/// A key, as far as the reader tells keys apart.
#[derive(Debug, Clone, Copy, PartialEq, Eq, Structural)]
pub enum KeyCode {
    Char(char),
    Enter,
    Esc,
    Backspace,
    Delete,
    Left,
    Right,
    Up,
    Down,
    Home,
    End,
    PageUp,
    PageDown,
    Other,
}

/// A key that was pressed.
#[derive(Debug, Clone, Copy, PartialEq, Eq, Structural)]
pub struct KeyPress {
    pub code: KeyCode,
    /// Whether control, and no other modifier, was held.
    pub is_control: bool,
}

/// Something that happened at the terminal.
#[derive(Debug, Clone, Copy, PartialEq, Eq, Structural)]
pub enum Event {
    /// A key was pressed.
    Press(KeyPress),
    /// A key was released or repeats.
    OtherKey,
    /// Time has passed.
    Tick,
    /// The terminal has changed its size.
    Resize,
}

/// What an event asks for.
#[derive(Debug, Clone, Copy, PartialEq, Eq, Structural)]
pub struct EventPlan {
    /// The key to handle, if there is one.
    pub key: Option<KeyPress>,
    /// Whether the terminal is to be cleared.
    pub should_clear: bool,
    /// Whether the screen is to be drawn anew.
    pub should_redraw: bool,
}

/// Tells what an event asks for. Only presses are handled as keys: some
/// terminals report the release of a key too.
pub fn plan_event(event: Event) -> (r: EventPlan)
    ensures
        r.key == (match event {
            Event::Press(key) => Some(key),
            _ => None,
        }),
        r.should_clear == (event is Resize),
        r.should_redraw == !(event is OtherKey),
{
    match event {
        Event::Press(key) => EventPlan {
            key: Some(key),
            should_clear: false,
            should_redraw: true,
        },
        Event::OtherKey => EventPlan { key: None, should_clear: false, should_redraw: false },
        Event::Tick => EventPlan { key: None, should_clear: false, should_redraw: true },
        Event::Resize => EventPlan { key: None, should_clear: true, should_redraw: true },
    }
}

/// What a key makes the reader do.
#[derive(Debug, Clone, Copy, PartialEq, Eq, Structural)]
pub enum Command {
    Quit,
    ToggleHelp,
    ToggleToc,
    ScrollDown(LineNumber),
    ScrollUp(LineNumber),
    /// Scroll by the height of the terminal.
    ViewportDown,
    ViewportUp,
    ToStart,
    ToEnd,
    EnterSearch,
    /// Run the search and leave search mode.
    Search,
    CancelSearch,
    RemoveChar,
    DeleteChar,
    CursorLeft,
    CursorRight,
    CursorHome,
    CursorEnd,
    ToggleCaseSensitivity,
    ToggleRegex,
    AddChar(char),
    NextResult,
    PreviousResult,
    ResetSearch,
    TocPrevious,
    TocNext,
    TocJump,
    Ignore,
}

/// The key bindings of normal mode. Those of the table of contents hold only
/// while it is shown.
pub open spec fn normal_command(code: KeyCode, shows_toc: bool) -> Command {
    match code {
        KeyCode::Char('q') => Command::Quit,
        KeyCode::Char('?') => Command::ToggleHelp,
        KeyCode::Char('t') => Command::ToggleToc,
        KeyCode::Char('j') | KeyCode::Down => Command::ScrollDown(1),
        KeyCode::Char('k') | KeyCode::Up => Command::ScrollUp(1),
        KeyCode::Char('h') => Command::ScrollDown(RFC_PAGE_LINES),
        KeyCode::Char('l') => Command::ScrollUp(RFC_PAGE_LINES),
        KeyCode::Char('f') | KeyCode::PageDown => Command::ViewportDown,
        KeyCode::Char('b') | KeyCode::PageUp => Command::ViewportUp,
        KeyCode::Char('g') => Command::ToStart,
        KeyCode::Char('G') => Command::ToEnd,
        KeyCode::Char('/') => Command::EnterSearch,
        KeyCode::Char('n') => Command::NextResult,
        KeyCode::Char('N') => Command::PreviousResult,
        KeyCode::Esc => Command::ResetSearch,
        KeyCode::Char('w') if shows_toc => Command::TocPrevious,
        KeyCode::Char('s') if shows_toc => Command::TocNext,
        KeyCode::Enter if shows_toc => Command::TocJump,
        _ => Command::Ignore,
    }
}

/// The key bindings of the help overlay.
pub open spec fn help_command(code: KeyCode) -> Command {
    match code {
        KeyCode::Char('?') | KeyCode::Esc => Command::ToggleHelp,
        _ => Command::Ignore,
    }
}

/// The key bindings of search mode. A character goes into the query unless it
/// is one of the two that control makes a switch.
pub open spec fn search_command(key: KeyPress) -> Command {
    match key.code {
        KeyCode::Enter => Command::Search,
        KeyCode::Esc => Command::CancelSearch,
        KeyCode::Backspace => Command::RemoveChar,
        KeyCode::Delete => Command::DeleteChar,
        KeyCode::Left => Command::CursorLeft,
        KeyCode::Right => Command::CursorRight,
        KeyCode::Home => Command::CursorHome,
        KeyCode::End => Command::CursorEnd,
        KeyCode::Char('c') if key.is_control => Command::ToggleCaseSensitivity,
        KeyCode::Char('r') if key.is_control => Command::ToggleRegex,
        KeyCode::Char(ch) => Command::AddChar(ch),
        _ => Command::Ignore,
    }
}

/// What a key does in a mode.
pub open spec fn command_of(mode: AppMode, shows_toc: bool, key: KeyPress) -> Command {
    match mode {
        AppMode::Normal => normal_command(key.code, shows_toc),
        AppMode::Help => help_command(key.code),
        AppMode::Search => search_command(key),
    }
}

/// Tells what a key does in a mode.
pub fn command_for(mode: AppMode, shows_toc: bool, key: KeyPress) -> (r: Command)
    ensures
        r == command_of(mode, shows_toc, key),
{
    match (mode, key.code) {
        (AppMode::Normal, KeyCode::Char('q')) => Command::Quit,
        (AppMode::Normal, KeyCode::Char('?')) => Command::ToggleHelp,
        (AppMode::Help, KeyCode::Char('?')) => Command::ToggleHelp,
        (AppMode::Help, KeyCode::Esc) => Command::ToggleHelp,
        (AppMode::Normal, KeyCode::Char('t')) => Command::ToggleToc,
        (AppMode::Normal, KeyCode::Char('j') | KeyCode::Down) => Command::ScrollDown(1),
        (AppMode::Normal, KeyCode::Char('k') | KeyCode::Up) => Command::ScrollUp(1),
        (AppMode::Normal, KeyCode::Char('h')) => Command::ScrollDown(RFC_PAGE_LINES),
        (AppMode::Normal, KeyCode::Char('l')) => Command::ScrollUp(RFC_PAGE_LINES),
        (AppMode::Normal, KeyCode::Char('f') | KeyCode::PageDown) => Command::ViewportDown,
        (AppMode::Normal, KeyCode::Char('b') | KeyCode::PageUp) => Command::ViewportUp,
        (AppMode::Normal, KeyCode::Char('g')) => Command::ToStart,
        (AppMode::Normal, KeyCode::Char('G')) => Command::ToEnd,
        (AppMode::Normal, KeyCode::Char('/')) => Command::EnterSearch,
        (AppMode::Search, KeyCode::Enter) => Command::Search,
        (AppMode::Search, KeyCode::Esc) => Command::CancelSearch,
        (AppMode::Search, KeyCode::Backspace) => Command::RemoveChar,
        (AppMode::Search, KeyCode::Delete) => Command::DeleteChar,
        (AppMode::Search, KeyCode::Left) => Command::CursorLeft,
        (AppMode::Search, KeyCode::Right) => Command::CursorRight,
        (AppMode::Search, KeyCode::Home) => Command::CursorHome,
        (AppMode::Search, KeyCode::End) => Command::CursorEnd,
        (AppMode::Search, KeyCode::Char('c')) if key.is_control => Command::ToggleCaseSensitivity,
        (AppMode::Search, KeyCode::Char('r')) if key.is_control => Command::ToggleRegex,
        (AppMode::Search, KeyCode::Char(ch)) => Command::AddChar(ch),
        (AppMode::Normal, KeyCode::Char('n')) => Command::NextResult,
        (AppMode::Normal, KeyCode::Char('N')) => Command::PreviousResult,
        (AppMode::Normal, KeyCode::Esc) => Command::ResetSearch,
        (AppMode::Normal, KeyCode::Char('w')) if shows_toc => Command::TocPrevious,
        (AppMode::Normal, KeyCode::Char('s')) if shows_toc => Command::TocNext,
        (AppMode::Normal, KeyCode::Enter) if shows_toc => Command::TocJump,
        _ => Command::Ignore,
    }
}

/// What becomes of the terminal cursor.
#[derive(Debug, Clone, Copy, PartialEq, Eq, Structural)]
pub enum CursorChange {
    Keep,
    Show,
    Hide,
}

impl Command {
    /// Whether the command scrolls by the height of the terminal.
    pub fn needs_viewport(self) -> (r: bool)
        ensures
            r == (self is ViewportDown || self is ViewportUp),
    {
        match self {
            Command::ViewportDown | Command::ViewportUp => true,
            _ => false,
        }
    }

    /// What the command does to the terminal cursor: it is shown while a query
    /// is typed.
    pub fn cursor_change(self) -> (r: CursorChange)
        ensures
            r == (if self is EnterSearch {
                CursorChange::Show
            } else if self is Search || self is CancelSearch {
                CursorChange::Hide
            } else {
                CursorChange::Keep
            }),
    {
        match self {
            Command::EnterSearch => CursorChange::Show,
            Command::Search | Command::CancelSearch => CursorChange::Hide,
            _ => CursorChange::Keep,
        }
    }
}

impl AppView {
    /// Whether a command can be run: characters go in and out at a character
    /// boundary.
    pub open spec fn accepts(self, command: Command) -> bool {
        match command {
            Command::AddChar(_) => text::on_boundary(self.query, self.cursor),
            Command::DeleteChar => self.cursor < text::byte_len(self.query) ==> text::on_boundary(
                self.query,
                self.cursor,
            ),
            _ => true,
        }
    }

    /// After a command, with a terminal of the given height.
    pub open spec fn after_command(self, command: Command, viewport_height: int) -> AppView {
        match command {
            Command::Quit => AppView { flags: self.flags.remove(AppFlag::ShouldRun), ..self },
            Command::ToggleHelp => self.help_toggled(),
            Command::ToggleToc => self.flag_toggled(AppFlag::ShouldShowToc),
            Command::ScrollDown(amount) => self.scrolled_down(amount as int),
            Command::ScrollUp(amount) => self.scrolled_up(amount as int),
            Command::ViewportDown => self.scrolled_down(viewport_height),
            Command::ViewportUp => self.scrolled_up(viewport_height),
            Command::ToStart => self.scrolled_up(self.line_count),
            Command::ToEnd => self.scrolled_down(self.line_count),
            Command::EnterSearch => self.search_entered(),
            Command::Search => self.searched().search_left(),
            Command::CancelSearch => self.search_left(),
            Command::RemoveChar => self.char_removed(),
            Command::DeleteChar => self.char_deleted(),
            Command::CursorLeft => self.cursor_left(),
            Command::CursorRight => self.cursor_right(),
            Command::CursorHome => self.cursor_home(),
            Command::CursorEnd => self.cursor_end(),
            Command::ToggleCaseSensitivity => self.flag_toggled(AppFlag::IsCaseSensitive),
            Command::ToggleRegex => self.flag_toggled(AppFlag::IsUsingRegex),
            Command::AddChar(ch) => self.char_added(ch),
            Command::NextResult => self.at_next_result(),
            Command::PreviousResult => self.at_previous_result(),
            Command::ResetSearch => self.search_reset(),
            Command::TocPrevious => AppView {
                toc: toc_panel::previous_selected(self.toc),
                ..self
            },
            Command::TocNext => AppView { toc: toc_panel::next_selected(self.toc), ..self },
            Command::TocJump => self.jumped_to_toc_entry(),
            Command::Ignore => self,
        }
    }

    /// What a key does in this state.
    pub open spec fn command(self, key: KeyPress) -> Command {
        command_of(self.mode, self.flags.contains(AppFlag::ShouldShowToc), key)
    }
}

impl App {
    /// Tells what a key does in the current state.
    pub fn command(&self, key: KeyPress) -> (r: Command)
        ensures
            r == self@.command(key),
            self@.wf() ==> self@.accepts(r),
    {
        command_for(self.mode, self.app_state.contains(AppFlag::ShouldShowToc), key)
    }

    /// Runs a command. `viewport_height` is the height of the terminal, which
    /// only the commands that scroll by it read.
    pub fn run_command(&mut self, command: Command, viewport_height: LineNumber)
        requires
            old(self)@.accepts(command),
        ensures
            final(self)@ == old(self)@.after_command(command, viewport_height as int),
            old(self)@.wf() ==> final(self)@.wf(),
    {
        proof {
            if self@.wf() && !(command is Search) {
                app_laws::law_command_keeps_wf(self@, command, viewport_height as int);
            }
        }
        match command {
            Command::Quit => self.app_state.remove(AppFlag::ShouldRun),
            Command::ToggleHelp => self.toggle_help(),
            Command::ToggleToc => self.toggle_toc(),
            Command::ScrollDown(amount) => self.scroll_down(amount),
            Command::ScrollUp(amount) => self.scroll_up(amount),
            Command::ViewportDown => self.scroll_down(viewport_height),
            Command::ViewportUp => self.scroll_up(viewport_height),
            Command::ToStart => self.scroll_up(self.rfc_line_number),
            Command::ToEnd => self.scroll_down(self.rfc_line_number),
            Command::EnterSearch => self.enter_search_mode(),
            Command::Search => {
                self.perform_search();
                self.exit_search_mode();
            },
            Command::CancelSearch => self.exit_search_mode(),
            Command::RemoveChar => self.remove_search_char(),
            Command::DeleteChar => self.delete_search_char(),
            Command::CursorLeft => self.move_search_cursor_left(),
            Command::CursorRight => self.move_search_cursor_right(),
            Command::CursorHome => self.move_search_cursor_home(),
            Command::CursorEnd => self.move_search_cursor_end(),
            Command::ToggleCaseSensitivity => self.toggle_case_sensitivity(),
            Command::ToggleRegex => self.toggle_regex_mode(),
            Command::AddChar(ch) => self.add_search_char(ch),
            Command::NextResult => self.next_search_result(),
            Command::PreviousResult => self.prev_search_result(),
            Command::ResetSearch => self.reset_search_highlights(),
            Command::TocPrevious => self.rfc_toc_panel.previous(),
            Command::TocNext => self.rfc_toc_panel.next(),
            Command::TocJump => self.jump_to_toc_entry(),
            Command::Ignore => {},
        }
    }

    /// Handles a key.
    pub fn handle_key(&mut self, key: KeyPress, viewport_height: LineNumber)
        requires
            old(self)@.wf(),
        ensures
            final(self)@ == old(self)@.after_command(
                old(self)@.command(key),
                viewport_height as int,
            ),
            final(self)@.wf(),
            old(self)@.mode is Normal && (key.code == KeyCode::Char('f') || key.code
                == KeyCode::PageDown) ==> final(self)@.scroll == (if old(self)@.scroll
                + viewport_height < old(self)@.line_count - 1 {
                old(self)@.scroll + viewport_height
            } else if old(self)@.line_count > 0 {
                old(self)@.line_count - 1
            } else {
                0
            }),
            old(self)@.mode is Normal && (key.code == KeyCode::Char('b') || key.code
                == KeyCode::PageUp) ==> final(self)@.scroll == (if old(self)@.scroll
                > viewport_height {
                old(self)@.scroll - viewport_height
            } else {
                0
            }),
    {
        let command = self.command(key);
        self.run_command(command, viewport_height);
    }

    /// Whether the reader goes on.
    pub fn should_run(&self) -> (r: bool)
        ensures
            r == self@.flags.contains(AppFlag::ShouldRun),
    {
        self.app_state.contains(AppFlag::ShouldRun)
    }
}

} // verus!
