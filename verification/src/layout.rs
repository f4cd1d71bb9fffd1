//! Where on the terminal everything goes.

use ratatui::layout::{Constraint, Direction, Layout, Rect};
use ratatui::widgets::{Block, Borders};
use vstd::prelude::*;

use crate::paint;
use crate::paint::help_lines;

verus! {

/// A rectangle of terminal cells.
#[derive(Clone, Copy, Debug, PartialEq, Eq, Structural)]
pub struct Area {
    pub x: u16,
    pub y: u16,
    pub width: u16,
    pub height: u16,
}

impl Area {
    /// The far edges have coordinates too.
    pub open spec fn wf(self) -> bool {
        &&& self.x + self.width <= u16::MAX
        &&& self.y + self.height <= u16::MAX
    }
}

/// The direction in which an area is divided.
#[derive(Clone, Copy, Debug, PartialEq, Eq, Structural)]
pub enum Axis {
    Horizontal,
    Vertical,
}

/// How much of a divided area one part asks for.
#[derive(Clone, Copy, Debug, PartialEq, Eq, Structural)]
pub enum Extent {
    /// Just so much.
    Length(u16),
    /// At least so much, and all that the other part leaves.
    Min(u16),
}

/// What a part that asks for at least `min` gets of `total` beside one that asks for
/// `length`: the rest, where both can have what they ask for; its minimum, as far as
/// that is there, where they cannot.
pub open spec fn min_share(min: int, length: int, total: int) -> int {
    if total >= length + min {
        total - length
    } else if total >= min {
        min
    } else {
        total
    }
}

/// What the first of two parts gets of `total`.
pub open spec fn first_share(first: Extent, second: Extent, total: int) -> int {
    match (first, second) {
        (Extent::Length(length), Extent::Min(min)) => total - min_share(
            min as int,
            length as int,
            total,
        ),
        (Extent::Min(min), Extent::Length(length)) => min_share(min as int, length as int, total),
        _ => 0,
    }
}

/// One of the two parts asks for a length and the other for a minimum, which is not
/// beyond what the constraint solver counts minima in.
pub open spec fn pair(first: Extent, second: Extent) -> bool {
    match (first, second) {
        (Extent::Length(_), Extent::Min(min)) => min <= i16::MAX,
        (Extent::Min(min), Extent::Length(_)) => min <= i16::MAX,
        _ => false,
    }
}

/// The two parts of an area: they share it without a gap.
pub open spec fn divided(axis: Axis, first: Extent, second: Extent, area: Area) -> (Area, Area) {
    match axis {
        Axis::Horizontal => {
            let w = first_share(first, second, area.width as int);
            (
                Area { width: w as u16, ..area },
                Area { x: (area.x + w) as u16, width: (area.width - w) as u16, ..area },
            )
        },
        Axis::Vertical => {
            let h = first_share(first, second, area.height as int);
            (
                Area { height: h as u16, ..area },
                Area { y: (area.y + h) as u16, height: (area.height - h) as u16, ..area },
            )
        },
    }
}

/// `Layout::split` with two constraints, no margin, no spacing and the default flex.
/// A minimum goes before a length and takes what a length leaves; the parts follow
/// one another without a gap, and keep the area's extent in the other direction.
#[verifier::external_body]
fn divide(axis: Axis, first: Extent, second: Extent, area: Area) -> (r: (Area, Area))
    requires
        area.wf(),
        pair(first, second),
    ensures
        r == divided(axis, first, second, area),
{
    let direction = match axis {
        Axis::Horizontal => Direction::Horizontal,
        Axis::Vertical => Direction::Vertical,
    };
    let constraints = [first, second].map(|e| match e {
        Extent::Length(n) => Constraint::Length(n),
        Extent::Min(n) => Constraint::Min(n),
    });
    let rect = Rect { x: area.x, y: area.y, width: area.width, height: area.height };
    let cells = Layout::default().direction(direction).constraints(constraints).split(rect);
    let [a, b] = [cells[0], cells[1]].map(|c| Area { x: c.x, y: c.y, width: c.width, height: c.height });
    (a, b)
}

/// The cells inside a border on all four sides.
pub open spec fn inside(area: Area) -> Area {
    Area {
        x: if area.width > 0 { (area.x + 1) as u16 } else { area.x },
        y: if area.height > 0 { (area.y + 1) as u16 } else { area.y },
        width: if area.width > 2 { (area.width - 2) as u16 } else { 0 },
        height: if area.height > 2 { (area.height - 2) as u16 } else { 0 },
    }
}

/// `Block::inner` of a block with all borders, no title and no padding: one cell less
/// on each side, as far as there are cells.
#[verifier::external_body]
fn block_inner(area: Area) -> (r: Area)
    requires
        area.wf(),
    ensures
        r == inside(area),
{
    let rect = Rect { x: area.x, y: area.y, width: area.width, height: area.height };
    let c = Block::default().borders(Borders::ALL).inner(rect);
    Area { x: c.x, y: c.y, width: c.width, height: c.height }
}

/// The whole terminal, of the given width and height; nothing where that is unknown.
pub fn terminal_area(size: Option<(u16, u16)>) -> (r: Area)
    ensures
        r == match size {
            Some(s) => Area { x: 0, y: 0, width: s.0, height: s.1 },
            None => Area { x: 0, y: 0, width: 0, height: 0 },
        },
        r.wf(),
{
    match size {
        Some(s) => Area { x: 0, y: 0, width: s.0, height: s.1 },
        None => Area { x: 0, y: 0, width: 0, height: 0 },
    }
}

/// The left column, for the list, and the right one, for the session.
pub fn columns(area: Area) -> (r: (Area, Area))
    requires
        area.wf(),
    ensures
        r == divided(Axis::Horizontal, Extent::Length(32), Extent::Min(10), area),
        r.0.wf(),
        r.1.wf(),
{
    divide(Axis::Horizontal, Extent::Length(32), Extent::Min(10), area)
}

/// The height of the help box: a line for each shortcut, and the border.
pub open spec fn help_height() -> nat {
    paint::help_texts().len() + 2
}

/// The parts of the left column: the list, and below it the help box.
pub fn left_rows(left: Area) -> (r: (Area, Area))
    requires
        left.wf(),
    ensures
        r == divided(Axis::Vertical, Extent::Min(3), Extent::Length(help_height() as u16), left),
        r.0.wf(),
        r.1.wf(),
{
    let lines = help_lines();
    assert(paint::line_view(lines@).len() == 6);
    divide(Axis::Vertical, Extent::Min(3), Extent::Length(lines.len() as u16 + 2), left)
}

/// The part of the right column inside its border, where the session is shown.
pub fn session_area(right: Area) -> (r: Area)
    requires
        right.wf(),
    ensures
        r == inside(right),
        r.wf(),
{
    block_inner(right)
}

/// Where the parts of the panel go.
#[derive(Clone, Copy, Debug, PartialEq, Eq, Structural)]
pub struct Places {
    /// The list of panes.
    pub list: Area,
    /// The help box.
    pub help: Area,
    /// The right panel, with its border.
    pub right: Area,
    /// The session inside the right panel.
    pub inner: Area,
}

/// Where the parts of the panel go on a terminal that takes up `area`.
pub open spec fn places_in(area: Area) -> Places {
    let (left, right) = divided(Axis::Horizontal, Extent::Length(32), Extent::Min(10), area);
    let (list, help) = divided(
        Axis::Vertical,
        Extent::Min(3),
        Extent::Length(help_height() as u16),
        left,
    );
    Places { list, help, right, inner: inside(right) }
}

/// Where the parts of the panel go on a terminal that takes up `area`.
pub fn places(area: Area) -> (r: Places)
    requires
        area.wf(),
    ensures
        r == places_in(area),
        r.list.wf(),
        r.help.wf(),
        r.right.wf(),
        r.inner.wf(),
{
    let (left, right) = columns(area);
    let (list, help) = left_rows(left);
    Places { list, help, right, inner: session_area(right) }
}

/// The cells of one row, from `from` up to `to`.
#[derive(Clone, Copy, Debug, PartialEq, Eq, Structural)]
pub struct RowSpan {
    pub y: u16,
    pub from: u16,
    pub to: u16,
}

/// The row of an area that tmux's own status line takes, and which is blanked: the
/// first or the last.
pub open spec fn status_row_of(inner: Area, status_top: bool) -> Option<RowSpan> {
    if inner.height > 0 && inner.width > 0 {
        Some(
            RowSpan {
                y: if status_top { inner.y } else { (inner.y + inner.height - 1) as u16 },
                from: inner.x,
                to: (inner.x + inner.width) as u16,
            },
        )
    } else {
        None
    }
}

/// The row of an area that tmux's own status line takes.
pub fn status_row(inner: Area, status_top: bool) -> (r: Option<RowSpan>)
    requires
        inner.wf(),
    ensures
        r == status_row_of(inner, status_top),
{
    if inner.height > 0 && inner.width > 0 {
        let y = if status_top {
            inner.y
        } else {
            inner.y + (inner.height - 1)
        };
        Some(RowSpan { y, from: inner.x, to: inner.x + inner.width })
    } else {
        None
    }
}

/// The two parts of an area share it: they lie side by side along the axis, keep its
/// extent across, and together are as long as it is.
pub proof fn law_parts_share_area(axis: Axis, first: Extent, second: Extent, area: Area)
    requires
        area.wf(),
        pair(first, second),
    ensures
        ({
            let (a, b) = divided(axis, first, second, area);
            match axis {
                Axis::Horizontal => {
                    &&& a.x == area.x
                    &&& b.x == a.x + a.width
                    &&& a.width + b.width == area.width
                    &&& a.y == b.y == area.y
                    &&& a.height == b.height == area.height
                },
                Axis::Vertical => {
                    &&& a.y == area.y
                    &&& b.y == a.y + a.height
                    &&& a.height + b.height == area.height
                    &&& a.x == b.x == area.x
                    &&& a.width == b.width == area.width
                },
            }
        }),
{
}

/// What lies inside the border lies inside the area.
pub proof fn law_session_lies_inside(area: Area)
    requires
        area.wf(),
    ensures
        area.x <= inside(area).x,
        inside(area).x + inside(area).width <= area.x + area.width,
        area.y <= inside(area).y,
        inside(area).y + inside(area).height <= area.y + area.height,
{
}

/// The panel takes up the whole terminal: at the left a column of 32 cells, the help box of
/// eight rows at its foot and the list above it, and at the right all the rest. Where the
/// terminal is too small, the right column keeps ten cells, and the list three rows, as far
/// as they are there.
pub proof fn law_places_fill_the_terminal(area: Area, r: Places)
    requires
        area.wf(),
        call_ensures(places, (area,), r),
    ensures
        r.list.x == area.x,
        r.help.x == area.x,
        r.list.width == r.help.width,
        r.right.x == area.x + r.list.width,
        r.list.width + r.right.width == area.width,
        r.right.y == area.y,
        r.right.height == area.height,
        r.list.y == area.y,
        r.help.y == area.y + r.list.height,
        r.list.height + r.help.height == area.height,
        area.width >= 42 ==> r.list.width == 32,
        10 <= area.width < 42 ==> r.right.width == 10,
        area.width < 10 ==> r.right.width == area.width,
        area.height >= 11 ==> r.help.height == 8,
        3 <= area.height < 11 ==> r.list.height == 3,
        area.height < 3 ==> r.list.height == area.height,
{
    assert(help_height() == 8);
}

/// The session is shown inside the border of the right panel: one cell less on each side.
pub proof fn law_session_leaves_room_for_the_border(area: Area, r: Places, inner: Area)
    requires
        area.wf(),
        call_ensures(places, (area,), r),
        call_ensures(session_area, (r.right,), inner),
    ensures
        r.inner == inner,
        r.right.width >= 2 ==> r.inner.x == r.right.x + 1 && r.inner.width == r.right.width - 2,
        r.right.height >= 2 ==> r.inner.y == r.right.y + 1 && r.inner.height == r.right.height - 2,
        r.right.width < 2 ==> r.inner.width == 0,
        r.right.height < 2 ==> r.inner.height == 0,
{
}

/// The columns and the rows of the left one are those at which everything goes.
pub proof fn law_places_are_columns_and_rows(
    area: Area,
    r: Places,
    cols: (Area, Area),
    rows: (Area, Area),
)
    requires
        area.wf(),
        call_ensures(places, (area,), r),
        call_ensures(columns, (area,), cols),
        call_ensures(left_rows, (cols.0,), rows),
    ensures
        r.list == rows.0,
        r.help == rows.1,
        r.right == cols.1,
{
}

/// The terminal starts at the origin and is as large as it says; unknown, it is nothing.
pub proof fn law_terminal_is_as_large_as_it_says(size: (u16, u16), r: Area, none: Area)
    requires
        call_ensures(terminal_area, (Some(size),), r),
        call_ensures(terminal_area, (None,), none),
    ensures
        r.x == 0 && r.y == 0 && none.x == 0 && none.y == 0,
        r.width == size.0,
        r.height == size.1,
        none.width == 0 && none.height == 0,
{
}

/// What is blanked is one whole row of the session: its first where the status line is at
/// the top, else its last. Where the session has no cells, nothing is.
pub proof fn law_status_line_is_one_whole_row(
    inner: Area,
    top: Option<RowSpan>,
    bottom: Option<RowSpan>,
)
    requires
        inner.wf(),
        call_ensures(status_row, (inner, true), top),
        call_ensures(status_row, (inner, false), bottom),
    ensures
        top is Some <==> inner.width > 0 && inner.height > 0,
        bottom is Some <==> inner.width > 0 && inner.height > 0,
        top matches Some(t) ==> t.y == inner.y && t.from == inner.x && t.to - t.from == inner.width,
        bottom matches Some(b) ==> b.y + 1 == inner.y + inner.height && b.from == inner.x && b.to
            - b.from == inner.width,
{
}

} // verus!
