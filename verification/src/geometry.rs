//! Integer tile coordinates and axis-aligned rectangles.

use vstd::prelude::*;

verus! {

/// A tile coordinate.
#[derive(Clone, Copy, Debug, PartialEq, Eq, Structural)]
pub struct Point {
    pub x: i32,
    pub y: i32,
}

impl Point {
    pub fn new(x: i32, y: i32) -> (p: Point)
        ensures
            p == (Point { x, y }),
    {
        Point { x, y }
    }
}

/// Square of the straight-line distance between two tiles.
pub open spec fn distance_squared(a: Point, b: Point) -> int {
    (a.x - b.x) * (a.x - b.x) + (a.y - b.y) * (a.y - b.y)
}

/// Whether two tiles are closer than one and a half tiles in a straight line,
/// stated without a square root: twice the distance is below three exactly
/// when four times its square is below nine.
pub open spec fn within_reach(a: Point, b: Point) -> bool {
    4 * distance_squared(a, b) < 9
}

/// Whether two tiles are the same or neighbours, diagonals included.
pub open spec fn touching(a: Point, b: Point) -> bool {
    -1 <= a.x - b.x <= 1 && -1 <= a.y - b.y <= 1
}

/// On a grid, the tiles closer than one and a half tiles are the tile itself
/// and its eight neighbours.
pub proof fn lemma_reach_is_touching(a: Point, b: Point)
    ensures
        within_reach(a, b) == touching(a, b),
{
    let ex: int = a.x - b.x;
    let ey: int = a.y - b.y;
    assert(ex * ex >= 0 && ey * ey >= 0) by (nonlinear_arith);
    assert((ex <= -2 || ex >= 2) ==> ex * ex >= 4) by (nonlinear_arith);
    assert((ey <= -2 || ey >= 2) ==> ey * ey >= 4) by (nonlinear_arith);
    assert((-1 <= ex <= 1) ==> ex * ex <= 1) by (nonlinear_arith);
    assert((-1 <= ey <= 1) ==> ey * ey <= 1) by (nonlinear_arith);
}

/// Tests `within_reach` without leaving integer arithmetic.
pub fn in_melee_reach(a: Point, b: Point) -> (r: bool)
    ensures
        r == within_reach(a, b),
        r == touching(a, b),
{
    let dx: i64 = a.x as i64 - b.x as i64;
    let dy: i64 = a.y as i64 - b.y as i64;
    proof {
        lemma_reach_is_touching(a, b);
    }
    -1 <= dx && dx <= 1 && -1 <= dy && dy <= 1
}

/// Half of `s`, rounded toward zero.
pub open spec fn halved(s: int) -> int {
    if s >= 0 {
        s / 2
    } else {
        -((-s) / 2)
    }
}

/// A rectangle of tiles: columns `x1` up to but not including `x2`, rows `y1`
/// up to but not including `y2`.
#[derive(Clone, Copy, Debug, PartialEq, Eq, Structural)]
pub struct Rect {
    pub x1: i32,
    pub x2: i32,
    pub y1: i32,
    pub y2: i32,
}

impl Rect {
    /// Whether the two rectangles overlap or touch.
    pub open spec fn overlaps(self, other: Rect) -> bool {
        self.x1 <= other.x2 && self.x2 >= other.x1 && self.y1 <= other.y2 && self.y2 >= other.y1
    }

    /// Whether the tile `(x, y)` lies inside the rectangle.
    pub open spec fn covers(self, x: int, y: int) -> bool {
        self.x1 <= x < self.x2 && self.y1 <= y < self.y2
    }

    pub open spec fn center_x(self) -> int {
        halved(self.x1 + self.x2)
    }

    pub open spec fn center_y(self) -> int {
        halved(self.y1 + self.y2)
    }

    /// The rectangle with corner `(x, y)`, `w` columns wide and `h` rows high.
    pub fn new(x: i32, y: i32, w: i32, h: i32) -> (r: Rect)
        requires
            i32::MIN <= x + w <= i32::MAX,
            i32::MIN <= y + h <= i32::MAX,
        ensures
            r == (Rect { x1: x, x2: (x + w) as i32, y1: y, y2: (y + h) as i32 }),
    {
        Rect { x1: x, x2: x + w, y1: y, y2: y + h }
    }

    pub fn intersect(&self, other: &Rect) -> (r: bool)
        ensures
            r == self.overlaps(*other),
    {
        self.x1 <= other.x2 && self.x2 >= other.x1 && self.y1 <= other.y2 && self.y2 >= other.y1
    }

    /// The middle tile, each coordinate rounded toward zero.
    pub fn center(&self) -> (c: (i32, i32))
        ensures
            c.0 == self.center_x(),
            c.1 == self.center_y(),
    {
        (half_sum(self.x1, self.x2), half_sum(self.y1, self.y2))
    }
}

fn half_sum(a: i32, b: i32) -> (r: i32)
    ensures
        r == halved(a + b),
{
    let s: i64 = a as i64 + b as i64;
    if s >= 0 {
        (s / 2) as i32
    } else {
        (-((-s) / 2)) as i32
    }
}

} // verus!
