//! Dividing the screen into areas.
//!
//! The sizes are worked out by the constraint solver behind ratatui's `Layout`.

use ratatui::layout::Constraint;
use ratatui::layout::Flex;
use ratatui::layout::Layout;
use ratatui::layout::Rect;
use vstd::prelude::*;

verus! {

/// Height of the status bar in rows.
pub const STATUSBAR_HEIGHT: u16 = 1;

/// Share of the table of contents in the width of the screen.
pub const TOC_PERCENTAGE: u16 = 25;

/// A rectangle of cells.
#[derive(Debug, Clone, Copy, PartialEq, Eq, Structural)]
pub struct Area {
    pub x: u16,
    pub y: u16,
    pub width: u16,
    pub height: u16,
}

/// The direction in which an area is divided.
#[derive(Debug, Clone, Copy, PartialEq, Eq, Structural)]
pub enum Axis {
    Horizontal,
    Vertical,
}

/// How large a part of an area is to be.
#[derive(Debug, Clone, Copy, PartialEq, Eq, Structural)]
pub enum Sizing {
    /// At least so many cells, and more where there is room.
    Min(u16),
    /// So many cells.
    Length(u16),
    /// So many hundredths of the area.
    Percentage(u16),
    /// The room that is left, shared out by weight.
    Fill(u16),
}

/// Where the room between the parts goes.
#[derive(Debug, Clone, Copy, PartialEq, Eq, Structural)]
pub enum Spread {
    /// Behind the last part.
    Start,
    /// In equal shares before the first part and behind the last.
    Center,
    /// Between the parts.
    SpaceBetween,
}

impl Area {
    /// The rectangle of the given size with its upper left cell at `x`, `y`.
    pub fn new(x: u16, y: u16, width: u16, height: u16) -> (r: Area)
        ensures
            r == (Area { x, y, width, height }),
    {
        Area { x, y, width, height }
    }

    /// First cell along an axis.
    pub open spec fn start(self, axis: Axis) -> int {
        match axis {
            Axis::Horizontal => self.x as int,
            Axis::Vertical => self.y as int,
        }
    }

    /// Number of cells along an axis.
    pub open spec fn extent(self, axis: Axis) -> int {
        match axis {
            Axis::Horizontal => self.width as int,
            Axis::Vertical => self.height as int,
        }
    }

    /// The cell behind the last one along an axis.
    pub open spec fn end(self, axis: Axis) -> int {
        self.start(axis) + self.extent(axis)
    }

    /// Whether every cell has a column and a row number.
    pub open spec fn is_addressable(self) -> bool {
        self.end(Axis::Horizontal) <= u16::MAX && self.end(Axis::Vertical) <= u16::MAX
    }

    /// Whether a part takes in an area across an axis and lies in it along the
    /// axis.
    pub open spec fn is_part_along(self, axis: Axis, part: Area) -> bool {
        let across = match axis {
            Axis::Horizontal => Axis::Vertical,
            Axis::Vertical => Axis::Horizontal,
        };
        &&& part.start(across) == self.start(across)
        &&& part.extent(across) == self.extent(across)
        &&& self.start(axis) <= part.start(axis)
        &&& part.end(axis) <= self.end(axis)
    }

    /// Whether a part lies in an area.
    pub open spec fn contains(self, part: Area) -> bool {
        &&& self.x <= part.x
        &&& self.y <= part.y
        &&& part.end(Axis::Horizontal) <= self.end(Axis::Horizontal)
        &&& part.end(Axis::Vertical) <= self.end(Axis::Vertical)
    }

    /// Whether a part stands in the middle of an area along an axis and takes
    /// so many hundredths of it, both up to the rounding to whole cells: the
    /// rooms on its two sides differ by one cell at most, and each of its two
    /// ends is off by half a cell at most, and by the half of a hundredth that
    /// an earlier rounding adds.
    pub open spec fn is_centered_share(self, axis: Axis, percent: int, part: Area) -> bool {
        let before = part.start(axis) - self.start(axis);
        let behind = self.end(axis) - part.end(axis);
        &&& -1 <= before - behind <= 1
        &&& -101 <= 100 * part.extent(axis) - percent * self.extent(axis) <= 101
    }
}

/// What the parts are that a single size gives in the middle of an area.
pub open spec fn centers(area: Area, axis: Axis, size: Sizing, part: Area) -> bool {
    match size {
        Sizing::Percentage(percent) => percent <= 100 ==> area.is_centered_share(
            axis,
            percent as int,
            part,
        ),
        Sizing::Min(_) => part.start(axis) == area.start(axis) && part.end(axis) == area.end(axis),
        _ => true,
    }
}

/// What the parts are where one takes a fixed length and the other the rest.
pub open spec fn cuts_off(area: Area, axis: Axis, length: int, first: Area, second: Area) -> bool {
    &&& first.start(axis) == area.start(axis)
    &&& first.end(axis) == second.start(axis)
    &&& second.end(axis) == area.end(axis)
    &&& second.extent(axis) == length
}

/// What the parts are where one takes so many hundredths, to the nearest cell,
/// and the other the rest.
pub open spec fn shares(area: Area, axis: Axis, percent: int, first: Area, second: Area) -> bool {
    &&& first.start(axis) == area.start(axis)
    &&& first.extent(axis) == (percent * area.extent(axis) + 50) / 100
    &&& first.end(axis) == second.start(axis)
    &&& second.end(axis) == area.end(axis)
}

/// What the parts are where the outer two take fixed lengths and the middle one
/// the rest.
pub open spec fn flanks(
    area: Area,
    axis: Axis,
    left: int,
    right: int,
    parts: Seq<Area>,
) -> bool {
    &&& parts[0].start(axis) == area.start(axis)
    &&& parts[0].extent(axis) == left
    &&& parts[1].start(axis) == parts[0].end(axis)
    &&& parts[1].end(axis) == parts[2].start(axis)
    &&& parts[2].extent(axis) == right
    &&& parts[2].end(axis) == area.end(axis)
}

/// What the parts are that a list of sizes gives.
///
/// Every size gives one part. The part takes in the area across the axis and
/// lies within it along the axis. In four cases the parts are fixed, up to the
/// rounding to whole cells: a single size in the middle; a length behind a part
/// that fills the rest; two percentages that make a hundred; and two lengths
/// around a part that fills the rest. Of other sizes nothing more is said.
pub open spec fn is_split(
    area: Area,
    axis: Axis,
    sizes: Seq<Sizing>,
    spread: Spread,
    parts: Seq<Area>,
) -> bool {
    &&& parts.len() == sizes.len()
    &&& forall|i: int| 0 <= i < parts.len() ==> area.is_part_along(axis, #[trigger] parts[i])
    &&& match spread {
        Spread::Center => sizes.len() == 1 ==> centers(area, axis, sizes[0], parts[0]),
        Spread::Start => sizes.len() == 2 ==> match (sizes[0], sizes[1]) {
            (Sizing::Min(0), Sizing::Length(length)) => length <= area.extent(axis) ==> cuts_off(
                area,
                axis,
                length as int,
                parts[0],
                parts[1],
            ),
            (Sizing::Percentage(percent), Sizing::Percentage(rest)) => percent + rest == 100
                ==> shares(area, axis, percent as int, parts[0], parts[1]),
            _ => true,
        },
        Spread::SpaceBetween => sizes.len() == 3 ==> match (sizes[0], sizes[1], sizes[2]) {
            (Sizing::Length(left), Sizing::Fill(1), Sizing::Length(right)) => left + right
                <= area.extent(axis) ==> flanks(area, axis, left as int, right as int, parts),
            _ => true,
        },
    }
}

/// Divides an area into columns with `Layout::horizontal` and `Layout::split`,
/// without margin and spacing.
///
/// That each part is as high as the area is how the rectangles are put
/// together, and that it lies within the area is a required constraint of the
/// solver. In the cases that `is_split` goes on to fix, the constraints do not
/// contradict each other, so the solver meets them all. Elsewhere it is up to
/// the solver which constraint gives way, and the contract leaves it open.
#[verifier::external_body]
fn split_columns(area: Area, sizes: Vec<Sizing>, spread: Spread) -> (parts: Vec<Area>)
    requires
        area.is_addressable(),
    ensures
        is_split(area, Axis::Horizontal, sizes@, spread, parts@),
{
    let rules = sizes.into_iter().map(|size| match size {
        Sizing::Min(n) => Constraint::Min(n),
        Sizing::Length(n) => Constraint::Length(n),
        Sizing::Percentage(n) => Constraint::Percentage(n),
        Sizing::Fill(n) => Constraint::Fill(n),
    });
    let flex = match spread {
        Spread::Start => Flex::Start,
        Spread::Center => Flex::Center,
        Spread::SpaceBetween => Flex::SpaceBetween,
    };
    let rect = Rect::new(area.x, area.y, area.width, area.height);
    let rects = Layout::horizontal(rules).flex(flex).split(rect);
    rects.iter().map(|r| Area::new(r.x, r.y, r.width, r.height)).collect()
}

/// Divides an area into rows with `Layout::vertical` and `Layout::split`,
/// without margin and spacing. The contract is that of `split_columns`, along
/// the other axis and on the same grounds.
#[verifier::external_body]
fn split_rows(area: Area, sizes: Vec<Sizing>, spread: Spread) -> (parts: Vec<Area>)
    requires
        area.is_addressable(),
    ensures
        is_split(area, Axis::Vertical, sizes@, spread, parts@),
{
    let rules = sizes.into_iter().map(|size| match size {
        Sizing::Min(n) => Constraint::Min(n),
        Sizing::Length(n) => Constraint::Length(n),
        Sizing::Percentage(n) => Constraint::Percentage(n),
        Sizing::Fill(n) => Constraint::Fill(n),
    });
    let flex = match spread {
        Spread::Start => Flex::Start,
        Spread::Center => Flex::Center,
        Spread::SpaceBetween => Flex::SpaceBetween,
    };
    let rect = Rect::new(area.x, area.y, area.width, area.height);
    let rects = Layout::vertical(rules).flex(flex).split(rect);
    rects.iter().map(|r| Area::new(r.x, r.y, r.width, r.height)).collect()
}

/// Creates a centered rectangle inside the given area.
pub fn centered_rect(area: Area, horizontal: Sizing, vertical: Sizing) -> (r: Area)
    requires
        area.is_addressable(),
    ensures
        area.contains(r),
        centers(area, Axis::Horizontal, horizontal, r),
        centers(area, Axis::Vertical, vertical, r),
{
    let columns = split_columns(area, vec![horizontal], Spread::Center);
    let column = columns[0];
    assert(area.is_part_along(Axis::Horizontal, column));
    let rows = split_rows(column, vec![vertical], Spread::Center);
    assert(column.is_part_along(Axis::Vertical, rows@[0]));
    rows[0]
}

/// Divides the screen into the main area and the status bar below it.
pub fn screen_areas(area: Area) -> (r: (Area, Area))
    requires
        area.is_addressable(),
    ensures
        area.is_part_along(Axis::Vertical, r.0),
        area.is_part_along(Axis::Vertical, r.1),
        area.height >= STATUSBAR_HEIGHT ==> cuts_off(
            area,
            Axis::Vertical,
            STATUSBAR_HEIGHT as int,
            r.0,
            r.1,
        ),
{
    let parts = split_rows(
        area,
        vec![Sizing::Min(0), Sizing::Length(STATUSBAR_HEIGHT)],
        Spread::Start,
    );
    assert(area.is_part_along(Axis::Vertical, parts@[0]));
    assert(area.is_part_along(Axis::Vertical, parts@[1]));
    (parts[0], parts[1])
}

/// Divides the main area into the table of contents on the left and the
/// document on the right.
pub fn toc_areas(area: Area) -> (r: (Area, Area))
    requires
        area.is_addressable(),
    ensures
        area.is_part_along(Axis::Horizontal, r.0),
        area.is_part_along(Axis::Horizontal, r.1),
        shares(area, Axis::Horizontal, TOC_PERCENTAGE as int, r.0, r.1),
{
    let rest: u16 = 100 - TOC_PERCENTAGE;
    let parts = split_columns(
        area,
        vec![Sizing::Percentage(TOC_PERCENTAGE), Sizing::Percentage(rest)],
        Spread::Start,
    );
    assert(area.is_part_along(Axis::Horizontal, parts@[0]));
    assert(area.is_part_along(Axis::Horizontal, parts@[1]));
    (parts[0], parts[1])
}

/// Divides the status bar into its left, middle and right part.
pub fn statusbar_areas(area: Area, left_width: u16, right_width: u16) -> (r: (Area, Area, Area))
    requires
        area.is_addressable(),
    ensures
        area.is_part_along(Axis::Horizontal, r.0),
        area.is_part_along(Axis::Horizontal, r.1),
        area.is_part_along(Axis::Horizontal, r.2),
        left_width + right_width <= area.width ==> flanks(
            area,
            Axis::Horizontal,
            left_width as int,
            right_width as int,
            seq![r.0, r.1, r.2],
        ),
{
    let parts = split_columns(
        area,
        vec![Sizing::Length(left_width), Sizing::Fill(1), Sizing::Length(right_width)],
        Spread::SpaceBetween,
    );
    assert(area.is_part_along(Axis::Horizontal, parts@[0]));
    assert(area.is_part_along(Axis::Horizontal, parts@[1]));
    assert(area.is_part_along(Axis::Horizontal, parts@[2]));
    (parts[0], parts[1], parts[2])
}

} // verus!
