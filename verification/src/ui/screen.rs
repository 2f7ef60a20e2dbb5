//! What is drawn: which overlays, where the search box stands, and the texts of
//! the messages.

use vstd::prelude::*;

use crate::text;
use crate::ui::app::App;
use crate::ui::app::AppMode;
use crate::ui::app::AppView;
use crate::ui::flags::AppFlag;
use crate::ui::layout;
use crate::ui::layout::Area;
use crate::ui::layout::Axis;
use crate::ui::layout::Sizing;

verus! {

/// Minimum terminal width in columns for proper UI rendering.
pub const MIN_TERMINAL_WIDTH: u16 = 94;

/// Minimum terminal height in rows for proper UI rendering.
pub const MIN_TERMINAL_HEIGHT: u16 = 15;

/// Help overlay box width as percentage of the terminal width.
pub const HELP_OVERLAY_WIDTH: u16 = 60;

/// Help overlay box height as percentage of the terminal height.
pub const HELP_OVERLAY_HEIGHT: u16 = 65;

/// Help overlay title text.
pub const HELP_TITLE: &'static str = "RFC Reader Help";

/// No-search-results overlay width as percentage of the terminal width.
pub const NO_SEARCH_OVERLAY_WIDTH: u16 = 40;

/// No-search-results overlay height as percentage of the terminal height.
pub const NO_SEARCH_OVERLAY_HEIGHT: u16 = 25;

/// No-search-results overlay title text.
pub const NO_SEARCH_TITLE: &'static str = "No matches - Press Esc to dismiss";

/// No-search-results overlay message text.
pub const NO_SEARCH_MESSAGE: &'static str = "Search yielded nothing";

/// "Terminal too small" overlay height as percentage of the terminal height.
pub const TOO_SMALL_OVERLAY_HEIGHT: u16 = 50;

/// "Terminal too small" overlay title text.
pub const TOO_SMALL_ERROR_TEXT: &'static str = "Terminal size is too small:";

/// Columns that the first line of the "Terminal too small" overlay takes.
pub const TOO_SMALL_OVERLAY_WIDTH: u16 = 27;

/// Title of the search box.
pub const SEARCH_TITLE: &'static str = "Search";

/// Search prompt prefix.
pub const SEARCH_PROMPT: &'static str = "/";

/// Columns that the search prompt prefix takes.
pub const SEARCH_PREFIX_LENGTH: u16 = 1;

/// Search box height in rows.
pub const SEARCH_BOX_HEIGHT_ROWS: u16 = 3;

/// The search box starts at the width divided by this.
pub const SEARCH_BOX_X_DIVISOR: u16 = 4;

/// The search box is as wide as the width divided by this.
pub const SEARCH_BOX_WIDTH_DIVISOR: u16 = 2;

/// Rows between the top of the search box and the bottom of the screen.
pub const SEARCH_BOX_BOTTOM_OFFSET_ROWS: u16 = 4;

/// Cells that the border of the search box takes on each side.
pub const SEARCH_BOX_BORDER_WIDTH: u16 = 1;

/// A number of rows, but not more than sixteen bits hold.
pub open spec fn clamped_row(row: int) -> int {
    if row <= u16::MAX {
        row
    } else {
        u16::MAX as int
    }
}

/// Checks if the terminal is too small, given its size.
pub fn is_terminal_too_small(current_width: u16, current_height: u16) -> (r: bool)
    ensures
        r == (current_width < MIN_TERMINAL_WIDTH || current_height < MIN_TERMINAL_HEIGHT),
{
    current_width < MIN_TERMINAL_WIDTH || current_height < MIN_TERMINAL_HEIGHT
}

/// What is to be drawn.
#[derive(Debug, Clone, Copy, PartialEq, Eq, Structural)]
pub enum Screen {
    /// The message that the terminal is too small, and nothing else.
    TooSmall,
    /// The document.
    Reader {
        /// Whether the table of contents stands beside it.
        shows_toc: bool,
        /// The first row of the document that is drawn.
        first_row: u16,
        /// Whether the help overlay is drawn on it.
        shows_help: bool,
        /// Whether the search box is drawn on it.
        shows_search: bool,
        /// Whether the message that nothing was found is drawn on it.
        shows_no_results: bool,
    },
}

impl AppView {
    /// What is to be drawn on a terminal of the given size.
    pub open spec fn screen(self, width: u16, height: u16) -> Screen {
        if width < MIN_TERMINAL_WIDTH || height < MIN_TERMINAL_HEIGHT {
            Screen::TooSmall
        } else {
            Screen::Reader {
                shows_toc: self.flags.contains(AppFlag::ShouldShowToc),
                first_row: clamped_row(self.scroll) as u16,
                shows_help: self.mode is Help,
                shows_search: self.mode is Search,
                shows_no_results: self.flags.contains(AppFlag::HasNoResults),
            }
        }
    }

    /// Number of characters of the query that stand before the cursor. It is
    /// nothing where the cursor is within a character or the number takes more
    /// than sixteen bits.
    pub open spec fn columns_before_cursor(self) -> int {
        let count = text::chars_before(self.query, self.cursor) as int;
        if text::on_boundary(self.query, self.cursor) && count <= u16::MAX {
            count
        } else {
            0
        }
    }
}

/// The search box on a screen of the given size: centered, some rows above the
/// bottom.
pub fn search_box(width: u16, height: u16) -> (r: Area)
    ensures
        r.x == width / SEARCH_BOX_X_DIVISOR,
        r.y == (if height < SEARCH_BOX_BOTTOM_OFFSET_ROWS {
            0
        } else {
            height - SEARCH_BOX_BOTTOM_OFFSET_ROWS
        }),
        r.width == width / SEARCH_BOX_WIDTH_DIVISOR,
        r.height == SEARCH_BOX_HEIGHT_ROWS,
        r.x + r.width <= width,
        height >= SEARCH_BOX_BOTTOM_OFFSET_ROWS ==> r.y + r.height < height,
        r.is_addressable(),
{
    Area::new(
        width / SEARCH_BOX_X_DIVISOR,
        height.saturating_sub(SEARCH_BOX_BOTTOM_OFFSET_ROWS),
        width / SEARCH_BOX_WIDTH_DIVISOR,
        SEARCH_BOX_HEIGHT_ROWS,
    )
}

/// The help overlay on a screen.
pub fn help_area(area: Area) -> (r: Area)
    requires
        area.is_addressable(),
    ensures
        area.contains(r),
        area.is_centered_share(Axis::Horizontal, HELP_OVERLAY_WIDTH as int, r),
        area.is_centered_share(Axis::Vertical, HELP_OVERLAY_HEIGHT as int, r),
{
    layout::centered_rect(
        area,
        Sizing::Percentage(HELP_OVERLAY_WIDTH),
        Sizing::Percentage(HELP_OVERLAY_HEIGHT),
    )
}

/// The overlay on a screen that says that nothing was found.
pub fn no_results_area(area: Area) -> (r: Area)
    requires
        area.is_addressable(),
    ensures
        area.contains(r),
        area.is_centered_share(Axis::Horizontal, NO_SEARCH_OVERLAY_WIDTH as int, r),
        area.is_centered_share(Axis::Vertical, NO_SEARCH_OVERLAY_HEIGHT as int, r),
{
    layout::centered_rect(
        area,
        Sizing::Percentage(NO_SEARCH_OVERLAY_WIDTH),
        Sizing::Percentage(NO_SEARCH_OVERLAY_HEIGHT),
    )
}

/// The overlay on a screen that says that it is too small. It is at least as
/// wide as its first line where there is room, and takes the whole width.
pub fn too_small_area(area: Area) -> (r: Area)
    requires
        area.is_addressable(),
    ensures
        area.contains(r),
        r.x == area.x,
        r.width == area.width,
        area.is_centered_share(Axis::Vertical, TOO_SMALL_OVERLAY_HEIGHT as int, r),
{
    assert(TOO_SMALL_ERROR_TEXT@.len() == TOO_SMALL_OVERLAY_WIDTH) by {
        reveal_strlit("Terminal size is too small:");
    }
    layout::centered_rect(
        area,
        Sizing::Min(TOO_SMALL_OVERLAY_WIDTH),
        Sizing::Percentage(TOO_SMALL_OVERLAY_HEIGHT),
    )
}

/// How a piece of a message is colored. All colors but that of plain text come
/// with bold type.
#[derive(Debug, Clone, Copy, PartialEq, Eq, Structural)]
pub enum MessageColor {
    Plain,
    White,
    Green,
    Red,
}

/// A piece of a message as a mathematical value.
#[verifier::ext_equal]
pub struct MessageSpanView {
    pub text: Seq<char>,
    pub color: MessageColor,
}

/// A piece of a message and its color.
#[derive(Debug)]
pub struct MessageSpan {
    pub text: String,
    pub color: MessageColor,
}

impl View for MessageSpan {
    type V = MessageSpanView;

    open spec fn view(&self) -> MessageSpanView {
        MessageSpanView { text: self.text@, color: self.color }
    }
}

/// The pieces of one line of a message as mathematical values.
pub open spec fn message_views(spans: Seq<MessageSpan>) -> Seq<MessageSpanView> {
    Seq::new(spans.len(), |i: int| spans[i]@)
}

/// The lines of a message as mathematical values.
pub open spec fn message_line_views(lines: Seq<Vec<MessageSpan>>) -> Seq<Seq<MessageSpanView>> {
    Seq::new(lines.len(), |i: int| message_views(lines[i]@))
}

/// The color of a size: whether it is enough.
pub open spec fn size_color(current: u16, minimum: u16) -> MessageColor {
    if current >= minimum {
        MessageColor::Green
    } else {
        MessageColor::Red
    }
}

/// A line of plain text.
pub open spec fn plain_line(s: Seq<char>) -> Seq<MessageSpanView> {
    seq![MessageSpanView { text: s, color: MessageColor::Plain }]
}

/// A line that names a width and a height, each in a color.
pub open spec fn size_line(
    width: u16,
    width_color: MessageColor,
    height: u16,
    height_color: MessageColor,
) -> Seq<MessageSpanView> {
    seq![
        MessageSpanView { text: "Width: "@, color: MessageColor::Plain },
        MessageSpanView { text: text::decimal(width as nat), color: width_color },
        MessageSpanView { text: ", "@, color: MessageColor::Plain },
        MessageSpanView { text: "Height: "@, color: MessageColor::Plain },
        MessageSpanView { text: text::decimal(height as nat), color: height_color },
    ]
}

/// The message for a terminal of the given size that is too small.
pub open spec fn too_small_message_of(width: u16, height: u16) -> Seq<Seq<MessageSpanView>> {
    seq![
        plain_line(TOO_SMALL_ERROR_TEXT@),
        size_line(
            width,
            size_color(width, MIN_TERMINAL_WIDTH),
            height,
            size_color(height, MIN_TERMINAL_HEIGHT),
        ),
        plain_line(""@),
        plain_line("Minimum required:"@),
        size_line(
            MIN_TERMINAL_WIDTH,
            MessageColor::White,
            MIN_TERMINAL_HEIGHT,
            MessageColor::White,
        ),
    ]
}

fn color_of_size(current: u16, minimum: u16) -> (r: MessageColor)
    ensures
        r == size_color(current, minimum),
{
    if current >= minimum {
        MessageColor::Green
    } else {
        MessageColor::Red
    }
}

fn build_plain_line(s: &str) -> (r: Vec<MessageSpan>)
    ensures
        message_views(r@) == plain_line(s@),
{
    let mut line: Vec<MessageSpan> = Vec::new();
    line.push(MessageSpan { text: s.to_owned(), color: MessageColor::Plain });
    assert(message_views(line@) =~= plain_line(s@));
    line
}

fn number_text(n: u16) -> (r: String)
    ensures
        r@ == text::decimal(n as nat),
{
    let mut out = String::new();
    text::push_decimal(&mut out, n as usize);
    assert(out@ =~= text::decimal(n as nat));
    out
}

fn build_size_line(
    width: u16,
    width_color: MessageColor,
    height: u16,
    height_color: MessageColor,
) -> (r: Vec<MessageSpan>)
    ensures
        message_views(r@) == size_line(width, width_color, height, height_color),
{
    let mut line: Vec<MessageSpan> = Vec::new();
    line.push(MessageSpan { text: "Width: ".to_owned(), color: MessageColor::Plain });
    line.push(MessageSpan { text: number_text(width), color: width_color });
    line.push(MessageSpan { text: ", ".to_owned(), color: MessageColor::Plain });
    line.push(MessageSpan { text: "Height: ".to_owned(), color: MessageColor::Plain });
    line.push(MessageSpan { text: number_text(height), color: height_color });
    assert(message_views(line@) =~= size_line(width, width_color, height, height_color));
    line
}

/// Builds the message for a terminal of the given size that is too small.
pub fn too_small_message(current_width: u16, current_height: u16) -> (r: Vec<Vec<MessageSpan>>)
    ensures
        message_line_views(r@) == too_small_message_of(current_width, current_height),
{
    let mut lines: Vec<Vec<MessageSpan>> = Vec::new();
    lines.push(build_plain_line(TOO_SMALL_ERROR_TEXT));
    lines.push(
        build_size_line(
            current_width,
            color_of_size(current_width, MIN_TERMINAL_WIDTH),
            current_height,
            color_of_size(current_height, MIN_TERMINAL_HEIGHT),
        ),
    );
    lines.push(build_plain_line(""));
    lines.push(build_plain_line("Minimum required:"));
    lines.push(
        build_size_line(
            MIN_TERMINAL_WIDTH,
            MessageColor::White,
            MIN_TERMINAL_HEIGHT,
            MessageColor::White,
        ),
    );
    assert(message_line_views(lines@) =~= too_small_message_of(current_width, current_height));
    lines
}

/// The lines of the help overlay.
pub open spec fn help_lines_of() -> Seq<Seq<char>> {
    seq![
        "Keybindings:"@,
        ""@,
        "j/k or ↓/↑: Scroll down/up"@,
        "h/l: RFC page Scroll down/up"@,
        "f/b or PgDn/PgUp: Scroll page down/up"@,
        "g/G: Go to start/end of document"@,
        ""@,
        "t: Toggle table of contents"@,
        "w/s: Navigate ToC up/down"@,
        "Enter: Jump to ToC entry"@,
        ""@,
        "/: Search"@,
        "n/N: Next/previous search result"@,
        "Ctrl+C: Toggle case sensitivity"@,
        "Ctrl+R: Toggle regex search"@,
        "Esc: Reset search highlights"@,
        ""@,
        "q: Quit"@,
        "?: Toggle help"@,
    ]
}

/// Returns the lines of the help overlay.
pub fn help_lines() -> (r: Vec<&'static str>)
    ensures
        text::views(r@) == help_lines_of(),
{
    let lines: Vec<&'static str> = vec![
        "Keybindings:",
        "",
        "j/k or ↓/↑: Scroll down/up",
        "h/l: RFC page Scroll down/up",
        "f/b or PgDn/PgUp: Scroll page down/up",
        "g/G: Go to start/end of document",
        "",
        "t: Toggle table of contents",
        "w/s: Navigate ToC up/down",
        "Enter: Jump to ToC entry",
        "",
        "/: Search",
        "n/N: Next/previous search result",
        "Ctrl+C: Toggle case sensitivity",
        "Ctrl+R: Toggle regex search",
        "Esc: Reset search highlights",
        "",
        "q: Quit",
        "?: Toggle help",
    ];
    assert(text::views(lines@) =~= help_lines_of());
    lines
}

impl App {
    /// Decides what is drawn on a terminal of the given size.
    pub fn screen(&self, width: u16, height: u16) -> (r: Screen)
        ensures
            r == self@.screen(width, height),
    {
        if is_terminal_too_small(width, height) {
            return Screen::TooSmall;
        }
        let first_row: u16 = if self.current_scroll_pos <= 0xffff {
            self.current_scroll_pos as u16
        } else {
            u16::MAX
        };
        Screen::Reader {
            shows_toc: self.app_state.contains(AppFlag::ShouldShowToc),
            first_row,
            shows_help: self.mode == AppMode::Help,
            shows_search: self.mode == AppMode::Search,
            shows_no_results: self.app_state.contains(AppFlag::HasNoResults),
        }
    }

    /// Builds the text in the search box.
    pub fn search_prompt(&self) -> (r: String)
        ensures
            r@ == SEARCH_PROMPT@ + self@.query,
    {
        let mut out = SEARCH_PROMPT.to_owned();
        out.append(self.query_text.as_str());
        out
    }

    /// Returns the column and the row of the cursor in a search box: behind the
    /// prompt and the part of the query before the cursor.
    pub fn search_cursor(&self, area: Area) -> (r: (u16, u16))
        ensures
            r.0 == clamped_row(
                area.x + SEARCH_BOX_BORDER_WIDTH + SEARCH_PREFIX_LENGTH
                    + self@.columns_before_cursor(),
            ),
            r.1 == clamped_row(area.y + SEARCH_BOX_BORDER_WIDTH),
    {
        let before: u16 = match text::slice_bytes(
            self.query_text.as_str(),
            0,
            self.query_cursor_pos,
        ) {
            Some(before_cursor) => {
                proof {
                    text::lemma_boundary_ends(self@.query);
                    text::lemma_chars_before_bound(self@.query, self@.cursor);
                }
                let count: usize = before_cursor.unicode_len();
                if count <= 0xffff {
                    count as u16
                } else {
                    0
                }
            },
            None => {
                proof {
                    text::lemma_boundary_ends(self@.query);
                }
                0
            },
        };
        let x: u16 = area.x.saturating_add(SEARCH_BOX_BORDER_WIDTH).saturating_add(
            SEARCH_PREFIX_LENGTH,
        ).saturating_add(before);
        let y: u16 = area.y.saturating_add(SEARCH_BOX_BORDER_WIDTH);
        (x, y)
    }
}

/// At most one of the help overlay and the search box is drawn, and a terminal
/// of the minimum size is enough for the document.
pub proof fn law_screen(v: AppView, width: u16, height: u16)
    ensures
        v.screen(width, height) is TooSmall <==> width < MIN_TERMINAL_WIDTH || height
            < MIN_TERMINAL_HEIGHT,
        v.screen(width, height) matches Screen::Reader { shows_help, shows_search, .. } ==> !(
        shows_help && shows_search),
{
}

} // verus!
