//! Rectangles of terminal cells and the two axes along which they are cut.

use ratatui::layout::Rect;
use ratatui::widgets::Block;
use vstd::prelude::*;

verus! {

/// The direction along which a rectangle is cut into slots.
#[derive(Clone, Copy, Debug, PartialEq, Eq, Structural)]
pub enum Axis {
    /// Slots lie side by side; the cut runs along `x` and `width`.
    Horizontal,
    /// Slots lie one below the other; the cut runs along `y` and `height`.
    Vertical,
}

impl Axis {
    /// The other axis.
    pub open spec fn across(self) -> Axis {
        match self {
            Axis::Horizontal => Axis::Vertical,
            Axis::Vertical => Axis::Horizontal,
        }
    }
}

/// A rectangle of terminal cells. A width or height of zero is allowed: such a
/// rectangle is degenerate and nothing is drawn in it.
#[derive(Clone, Copy, Debug, PartialEq, Eq, Structural)]
pub struct Rectangle {
    /// Column of the left edge.
    pub x: u16,
    /// Row of the top edge.
    pub y: u16,
    /// Number of columns.
    pub width: u16,
    /// Number of rows.
    pub height: u16,
}

/// `v`, or the largest coordinate if `v` lies beyond it.
pub open spec fn saturated(v: int) -> int {
    if v > u16::MAX {
        u16::MAX as int
    } else {
        v
    }
}

/// The smaller of two coordinates.
pub open spec fn lesser(a: int, b: int) -> int {
    if a <= b {
        a
    } else {
        b
    }
}

/// What is left of `area` inside a border one cell thick on all four sides.
/// An area too thin to hold both borders keeps no cells.
pub open spec fn interior_of(area: Rectangle) -> Rectangle {
    Rectangle {
        x: lesser(saturated(area.x + 1), saturated(area.x + area.width)) as u16,
        y: lesser(saturated(area.y + 1), saturated(area.y + area.height)) as u16,
        width: (if area.width >= 2 {
            area.width - 2
        } else {
            0
        }) as u16,
        height: (if area.height >= 2 {
            area.height - 2
        } else {
            0
        }) as u16,
    }
}

impl Rectangle {
    /// The right and bottom edges are coordinates too: the rectangle lies
    /// within the range of cells that a terminal can address.
    pub open spec fn wf(self) -> bool {
        &&& self.x + self.width <= u16::MAX
        &&& self.y + self.height <= u16::MAX
    }

    /// First coordinate of the rectangle along `axis`.
    pub open spec fn start(self, axis: Axis) -> int {
        match axis {
            Axis::Horizontal => self.x as int,
            Axis::Vertical => self.y as int,
        }
    }

    /// Number of cells of the rectangle along `axis`.
    pub open spec fn extent(self, axis: Axis) -> int {
        match axis {
            Axis::Horizontal => self.width as int,
            Axis::Vertical => self.height as int,
        }
    }

    /// First coordinate behind the rectangle along `axis`.
    pub open spec fn end(self, axis: Axis) -> int {
        self.start(axis) + self.extent(axis)
    }

    /// Every cell of `other` is a cell of `self`, and `other` does not start
    /// outside `self` even where it is degenerate.
    pub open spec fn encloses(self, other: Rectangle) -> bool {
        &&& self.x <= other.x
        &&& other.x + other.width <= self.x + self.width
        &&& self.y <= other.y
        &&& other.y + other.height <= self.y + self.height
    }

    /// A rectangle at `(x, y)`. Where the asked width or height would carry the
    /// right or bottom edge beyond the last coordinate, it is cut back to end
    /// there.
    pub fn new(x: u16, y: u16, width: u16, height: u16) -> (r: Rectangle)
        ensures
            r.wf(),
            r.x == x,
            r.y == y,
            r.width == lesser(width as int, u16::MAX - x),
            r.height == lesser(height as int, u16::MAX - y),
    {
        let widest: u16 = u16::MAX - x;
        let tallest: u16 = u16::MAX - y;
        Rectangle {
            x,
            y,
            width: if width > widest {
                widest
            } else {
                width
            },
            height: if height > tallest {
                tallest
            } else {
                height
            },
        }
    }

    /// Whether the right and bottom edges are coordinates, as the layout
    /// functions ask of the areas that they are given.
    pub fn is_well_formed(self) -> (ok: bool)
        ensures
            ok == self.wf(),
    {
        self.width <= u16::MAX - self.x && self.height <= u16::MAX - self.y
    }

    /// Whether the rectangle holds no cell.
    pub fn is_empty(self) -> (empty: bool)
        ensures
            empty == (self.width == 0 || self.height == 0),
    {
        self.width == 0 || self.height == 0
    }

    /// The area inside the border of a panel drawn on `self`.
    pub fn interior(self) -> (inner: Rectangle)
        ensures
            inner == interior_of(self),
            self.wf() ==> inner.wf() && self.encloses(inner),
    {
        bordered_inner(self)
    }
}

/// Calls `ratatui::widgets::Block::inner` on a block with all four borders and
/// no padding. Believed of it: the left and top edges move in by one cell, but
/// not past the far edge, each computed with saturating additions, and width and
/// height shrink by two, stopping at zero.
#[verifier::external_body]
fn bordered_inner(area: Rectangle) -> (inner: Rectangle)
    ensures
        inner == interior_of(area),
{
    let outer = Rect { x: area.x, y: area.y, width: area.width, height: area.height };
    let rect = Block::bordered().inner(outer);
    Rectangle { x: rect.x, y: rect.y, width: rect.width, height: rect.height }
}

} // verus!
