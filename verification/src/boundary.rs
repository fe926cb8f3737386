//! Axis-aligned rectangles (`Boundary`) and tagged points (`TreePoint`).
//!
//! A boundary is the half-open box `[x_min, x_max) x [y_min, y_max)`: lower
//! edges inclusive, upper edges exclusive, so every point on a dividing line
//! belongs to exactly one quadrant. Storing the two corners, rather than a
//! center with a width, keeps subdivision exact in integer arithmetic.

use vstd::prelude::*;

verus! {

/// Largest coordinate magnitude a boundary corner may have. Keeps midpoint
/// arithmetic far from `i64` overflow.
pub const COORD_LIMIT: i64 = 1_000_000_000_000;

/// A point stored in the spatial index: fixed-point coordinates tagged with a
/// caller-meaningful identifier (the index of the particle it came from).
#[derive(Debug, Copy, Clone, PartialEq, Eq, Structural)]
pub struct TreePoint {
    pub x: i64,
    pub y: i64,
    pub id: u32,
}

impl TreePoint {
    pub fn new(x: i64, y: i64, id: u32) -> (p: TreePoint)
        ensures
            p == (TreePoint { x, y, id }),
    {
        TreePoint { x, y, id }
    }

    pub fn x(&self) -> (r: i64)
        ensures
            r == self.x,
    {
        self.x
    }

    pub fn y(&self) -> (r: i64)
        ensures
            r == self.y,
    {
        self.y
    }
}

/// An axis-aligned rectangle: the half-open box `[x_min, x_max) x [y_min, y_max)`.
#[derive(Debug, Copy, Clone, PartialEq, Eq, Structural)]
pub struct Boundary {
    pub x_min: i64,
    pub y_min: i64,
    pub x_max: i64,
    pub y_max: i64,
}

impl Boundary {
    /// Corners are ordered and within the coordinate limit. An empty box
    /// (`x_min == x_max`) is allowed; it contains nothing.
    pub open spec fn valid(self) -> bool {
        &&& -COORD_LIMIT <= self.x_min <= self.x_max <= COORD_LIMIT
        &&& -COORD_LIMIT <= self.y_min <= self.y_max <= COORD_LIMIT
    }

    pub open spec fn width(self) -> int {
        self.x_max - self.x_min
    }

    pub open spec fn height(self) -> int {
        self.y_max - self.y_min
    }

    /// Membership in the half-open box.
    pub open spec fn contains_pt(self, x: int, y: int) -> bool {
        &&& self.x_min <= x < self.x_max
        &&& self.y_min <= y < self.y_max
    }

    /// Half-open box test: lower edges inclusive, upper edges exclusive.
    pub fn contains(&self, x: i64, y: i64) -> (r: bool)
        ensures
            r == self.contains_pt(x as int, y as int),
    {
        x >= self.x_min && y >= self.y_min && x < self.x_max && y < self.y_max
    }

    pub fn bottom_left(&self) -> (r: (i64, i64))
        ensures
            r == (self.x_min, self.y_min),
    {
        (self.x_min, self.y_min)
    }

    pub fn top_right(&self) -> (r: (i64, i64))
        ensures
            r == (self.x_max, self.y_max),
    {
        (self.x_max, self.y_max)
    }

    pub fn top_left(&self) -> (r: (i64, i64))
        ensures
            r == (self.x_min, self.y_max),
    {
        (self.x_min, self.y_max)
    }

    pub fn bottom_right(&self) -> (r: (i64, i64))
        ensures
            r == (self.x_max, self.y_min),
    {
        (self.x_max, self.y_min)
    }

    /// The corner-containment overlap approximation: true when one of
    /// `other`'s four corners lies inside `self`, or `self`'s top-left corner
    /// lies inside `other`. Two boxes meeting only through their interiors
    /// (a thin cross) are deliberately reported as non-overlapping.
    pub open spec fn overlaps_spec(self, other: Boundary) -> bool {
        ||| self.contains_pt(other.x_min as int, other.y_max as int)
        ||| self.contains_pt(other.x_max as int, other.y_max as int)
        ||| self.contains_pt(other.x_max as int, other.y_min as int)
        ||| self.contains_pt(other.x_min as int, other.y_min as int)
        ||| other.contains_pt(self.x_min as int, self.y_max as int)
    }

    /// Approximate rectangle overlap (see `overlaps_spec`). Not a separating
    /// axis test, by design: query pruning is specified against exactly this.
    pub fn overlaps(&self, other: &Boundary) -> (r: bool)
        ensures
            r == self.overlaps_spec(*other),
    {
        self.contains(other.x_min, other.y_max)
            || self.contains(other.x_max, other.y_max)
            || self.contains(other.x_max, other.y_min)
            || self.contains(other.x_min, other.y_min)
            || other.contains(self.x_min, self.y_max)
    }

    pub open spec fn mid_x(self) -> int {
        self.x_min + (self.x_max - self.x_min) / 2
    }

    pub open spec fn mid_y(self) -> int {
        self.y_min + (self.y_max - self.y_min) / 2
    }

    /// North-east quadrant: high x, high y.
    pub open spec fn quad_ne(self) -> Boundary {
        Boundary {
            x_min: self.mid_x() as i64,
            y_min: self.mid_y() as i64,
            x_max: self.x_max,
            y_max: self.y_max,
        }
    }

    /// North-west quadrant: low x, high y.
    pub open spec fn quad_nw(self) -> Boundary {
        Boundary {
            x_min: self.x_min,
            y_min: self.mid_y() as i64,
            x_max: self.mid_x() as i64,
            y_max: self.y_max,
        }
    }

    /// South-east quadrant: high x, low y.
    pub open spec fn quad_se(self) -> Boundary {
        Boundary {
            x_min: self.mid_x() as i64,
            y_min: self.y_min,
            x_max: self.x_max,
            y_max: self.mid_y() as i64,
        }
    }

    /// South-west quadrant: low x, low y.
    pub open spec fn quad_sw(self) -> Boundary {
        Boundary {
            x_min: self.x_min,
            y_min: self.y_min,
            x_max: self.mid_x() as i64,
            y_max: self.mid_y() as i64,
        }
    }
}

/// Subdividing a valid boundary partitions it: the four quadrants are valid,
/// they cover the parent exactly, and no point lies in two of them. When the
/// width and height are even, each quadrant measures exactly half the parent
/// in each axis; in any case opposite quadrants sum to the parent's extent.
pub proof fn lemma_subdivision_tiles(b: Boundary)
    requires
        b.valid(),
    ensures
        b.quad_ne().valid() && b.quad_nw().valid() && b.quad_se().valid() && b.quad_sw().valid(),
        forall|x: int, y: int|
            #![trigger b.contains_pt(x, y)]
            #![trigger b.quad_ne().contains_pt(x, y)]
            #![trigger b.quad_nw().contains_pt(x, y)]
            #![trigger b.quad_se().contains_pt(x, y)]
            #![trigger b.quad_sw().contains_pt(x, y)]
            b.contains_pt(x, y) <==> {
                ||| b.quad_ne().contains_pt(x, y)
                ||| b.quad_nw().contains_pt(x, y)
                ||| b.quad_se().contains_pt(x, y)
                ||| b.quad_sw().contains_pt(x, y)
            },
        forall|x: int, y: int| #![trigger b.quad_ne().contains_pt(x, y)]
            b.quad_ne().contains_pt(x, y) ==> !b.quad_nw().contains_pt(x, y)
                && !b.quad_se().contains_pt(x, y) && !b.quad_sw().contains_pt(x, y),
        forall|x: int, y: int| #![trigger b.quad_nw().contains_pt(x, y)]
            b.quad_nw().contains_pt(x, y) ==> !b.quad_se().contains_pt(x, y)
                && !b.quad_sw().contains_pt(x, y),
        forall|x: int, y: int| #![trigger b.quad_se().contains_pt(x, y)]
            b.quad_se().contains_pt(x, y) ==> !b.quad_sw().contains_pt(x, y),
        b.quad_nw().width() + b.quad_ne().width() == b.width(),
        b.quad_sw().height() + b.quad_nw().height() == b.height(),
        b.width() % 2 == 0 ==> b.quad_ne().width() == b.width() / 2
            && b.quad_nw().width() == b.width() / 2 && b.quad_se().width() == b.width() / 2
            && b.quad_sw().width() == b.width() / 2,
        b.height() % 2 == 0 ==> b.quad_ne().height() == b.height() / 2
            && b.quad_nw().height() == b.height() / 2 && b.quad_se().height() == b.height() / 2
            && b.quad_sw().height() == b.height() / 2,
{
    assert(b.x_min <= b.mid_x() <= b.x_max);
    assert(b.y_min <= b.mid_y() <= b.y_max);
}

} // verus!
