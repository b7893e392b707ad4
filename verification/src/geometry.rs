//! Terminal-cell rectangles and the small pieces of plane geometry that the
//! dock layouts are built from.
use vstd::prelude::*;

verus! {

/// The largest terminal coordinate.
pub const CELL_MAX: u16 = 65535;

/// The smaller of two integers.
pub open spec fn min_int(a: int, b: int) -> int {
    if a <= b {
        a
    } else {
        b
    }
}

/// `a + b`, saturating at the largest terminal coordinate.
pub open spec fn saturating_cell_add(a: u16, b: u16) -> u16 {
    if a + b > CELL_MAX {
        CELL_MAX
    } else {
        (a + b) as u16
    }
}

/// An axis-aligned rectangle of terminal cells. `x`/`y` is the top-left
/// cell; `right()` and `bottom()` are the first coordinates outside it.
#[derive(Clone, Copy, Debug, PartialEq, Eq, Structural)]
pub struct Rect {
    pub x: u16,
    pub y: u16,
    pub width: u16,
    pub height: u16,
}

impl Rect {
    /// The empty rectangle at the origin.
    pub open spec fn spec_zero() -> Rect {
        Rect { x: 0, y: 0, width: 0, height: 0 }
    }

    #[verifier::when_used_as_spec(spec_zero)]
    pub fn zero() -> (r: Rect)
        ensures
            r == Rect::spec_zero(),
    {
        Rect { x: 0, y: 0, width: 0, height: 0 }
    }

    /// The rectangle `new` builds: width and height are cut so that the right
    /// and bottom edges stay within the coordinate range.
    pub open spec fn spec_new(x: u16, y: u16, width: u16, height: u16) -> Rect {
        Rect {
            x,
            y,
            width: min_int(width as int, CELL_MAX - x) as u16,
            height: min_int(height as int, CELL_MAX - y) as u16,
        }
    }

    pub open spec fn spec_right(self) -> u16 {
        saturating_cell_add(self.x, self.width)
    }

    pub open spec fn spec_bottom(self) -> u16 {
        saturating_cell_add(self.y, self.height)
    }

    pub open spec fn spec_is_empty(self) -> bool {
        self.width == 0 || self.height == 0
    }

    pub open spec fn spec_contains(self, point: (u16, u16)) -> bool {
        &&& self.x <= point.0 < self.spec_right()
        &&& self.y <= point.1 < self.spec_bottom()
    }

    /// Number of cells covered.
    pub open spec fn cells(self) -> int {
        self.width * self.height
    }

    /// The edges do not pass the end of the coordinate range.
    pub open spec fn fits(self) -> bool {
        &&& self.x + self.width <= CELL_MAX
        &&& self.y + self.height <= CELL_MAX
    }

    /// `inner` lies inside `self`.
    pub open spec fn encloses(self, inner: Rect) -> bool {
        &&& self.x <= inner.x
        &&& self.y <= inner.y
        &&& inner.x + inner.width <= self.x + self.width
        &&& inner.y + inner.height <= self.y + self.height
    }

    /// Two rectangles share no cell.
    pub open spec fn disjoint(self, other: Rect) -> bool {
        ||| self.spec_is_empty()
        ||| other.spec_is_empty()
        ||| self.x + self.width <= other.x
        ||| other.x + other.width <= self.x
        ||| self.y + self.height <= other.y
        ||| other.y + other.height <= self.y
    }

    /// Creates a rectangle, with width and height limited to keep both edges
    /// within the coordinate range.
    pub fn new(x: u16, y: u16, width: u16, height: u16) -> (r: Rect)
        ensures
            r == Rect::spec_new(x, y, width, height),
            r.fits(),
    {
        let room_x: u16 = CELL_MAX - x;
        let room_y: u16 = CELL_MAX - y;
        Rect {
            x,
            y,
            width: if width <= room_x {
                width
            } else {
                room_x
            },
            height: if height <= room_y {
                height
            } else {
                room_y
            },
        }
    }

    /// The first column to the right of the rectangle (saturating).
    #[verifier::when_used_as_spec(spec_right)]
    pub fn right(self) -> (r: u16)
        ensures
            r == self.spec_right(),
    {
        if self.width <= CELL_MAX - self.x {
            self.x + self.width
        } else {
            CELL_MAX
        }
    }

    /// The first row below the rectangle (saturating).
    #[verifier::when_used_as_spec(spec_bottom)]
    pub fn bottom(self) -> (r: u16)
        ensures
            r == self.spec_bottom(),
    {
        if self.height <= CELL_MAX - self.y {
            self.y + self.height
        } else {
            CELL_MAX
        }
    }

    /// True when the rectangle covers no cell.
    #[verifier::when_used_as_spec(spec_is_empty)]
    pub fn is_empty(self) -> (r: bool)
        ensures
            r == self.spec_is_empty(),
    {
        self.width == 0 || self.height == 0
    }

    /// True when the cell `point` (column, row) lies inside the rectangle.
    #[verifier::when_used_as_spec(spec_contains)]
    pub fn contains(self, point: (u16, u16)) -> (r: bool)
        ensures
            r == self.spec_contains(point),
    {
        self.x <= point.0 && point.0 < self.right() && self.y <= point.1 && point.1 < self.bottom()
    }
}

impl Default for Rect {
    fn default() -> (r: Rect)
        ensures
            r == Rect::spec_zero(),
    {
        Rect::zero()
    }
}

} // verus!
