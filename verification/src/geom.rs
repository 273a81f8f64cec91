//! Positions, sizes and rectangles on an exact grid.
//!
//! Every length is a whole number of ten-thousandths of a point. Adding and
//! subtracting on the grid loses nothing, which is what lets a layout promise
//! that its slots fill exactly the room there was.

use vstd::prelude::*;

verus! {

/// One point, in grid units.
pub const POINT: i64 = 10_000;

/// How far from the origin a coordinate handed to the library may lie: a
/// hundred thousand million points. Sums of a handful of such coordinates stay
/// far inside an `i64`.
pub const REACH: i64 = 1_000_000_000_000_000;

/// Whether a length is one the arithmetic here has room for.
pub open spec fn within_reach(v: int) -> bool {
    -REACH <= v <= REACH
}

pub open spec fn min_of(a: int, b: int) -> int {
    if a <= b {
        a
    } else {
        b
    }
}

pub open spec fn max_of(a: int, b: int) -> int {
    if a >= b {
        a
    } else {
        b
    }
}

/// `v` held between `low` and `high`.
pub open spec fn clamp_of(v: int, low: int, high: int) -> int {
    if v < low {
        low
    } else if v > high {
        high
    } else {
        v
    }
}

/// A length to the nearest whole point, halves going away from zero.
pub open spec fn round_of(v: int) -> int {
    if v >= 0 {
        (v + POINT / 2) / POINT as int * POINT
    } else {
        -((-v + POINT / 2) / POINT as int * POINT)
    }
}

/// Half of a length, towards zero.
pub open spec fn half_of(v: int) -> int {
    if v >= 0 {
        v / 2
    } else {
        -((-v) / 2)
    }
}

pub open spec fn abs_of(v: int) -> int {
    if v >= 0 {
        v
    } else {
        -v
    }
}

pub fn least(a: i64, b: i64) -> (r: i64)
    ensures
        r == min_of(a as int, b as int),
{
    if a <= b {
        a
    } else {
        b
    }
}

pub fn greatest(a: i64, b: i64) -> (r: i64)
    ensures
        r == max_of(a as int, b as int),
{
    if a >= b {
        a
    } else {
        b
    }
}

pub fn clamp(v: i64, low: i64, high: i64) -> (r: i64)
    requires
        low <= high,
    ensures
        r == clamp_of(v as int, low as int, high as int),
{
    if v < low {
        low
    } else if v > high {
        high
    } else {
        v
    }
}

pub fn round(v: i64) -> (r: i64)
    requires
        -16 * REACH <= v <= 16 * REACH,
    ensures
        r == round_of(v as int),
{
    if v >= 0 {
        (v + 5_000) / 10_000 * 10_000
    } else {
        -((-v + 5_000) / 10_000 * 10_000)
    }
}

pub fn half(v: i64) -> (r: i64)
    requires
        -16 * REACH <= v <= 16 * REACH,
    ensures
        r == half_of(v as int),
{
    if v >= 0 {
        v / 2
    } else {
        -((-v) / 2)
    }
}

/// A position in window points.
#[derive(Clone, Copy, Debug, PartialEq, Eq, Structural)]
pub struct Pos2 {
    pub x: i64,
    pub y: i64,
}

/// An offset or a size.
#[derive(Clone, Copy, Debug, PartialEq, Eq, Structural)]
pub struct Vec2 {
    pub x: i64,
    pub y: i64,
}

/// An axis-aligned rectangle. `max` left of or above `min` is representable
/// and has a negative size.
#[derive(Clone, Copy, Debug, PartialEq, Eq, Structural)]
pub struct Rect {
    pub min: Pos2,
    pub max: Pos2,
}

impl Pos2 {
    pub open spec fn in_reach(self) -> bool {
        within_reach(self.x as int) && within_reach(self.y as int)
    }
}

impl Rect {
    pub open spec fn in_reach(self) -> bool {
        self.min.in_reach() && self.max.in_reach()
    }

    /// Room for the coordinates a layout may come to hold: a handful of
    /// reaches, however the rectangle was arrived at.
    pub open spec fn bounded(self) -> bool {
        &&& -8 * REACH <= self.min.x <= 8 * REACH
        &&& -8 * REACH <= self.min.y <= 8 * REACH
        &&& -16 * REACH <= self.max.x <= 16 * REACH
        &&& -16 * REACH <= self.max.y <= 16 * REACH
        &&& -4 * REACH <= self.wide() <= 4 * REACH
        &&& -4 * REACH <= self.tall() <= 4 * REACH
    }

    pub open spec fn wide(self) -> int {
        self.max.x - self.min.x
    }

    pub open spec fn tall(self) -> int {
        self.max.y - self.min.y
    }

    /// Neither side is negative.
    pub open spec fn upright(self) -> bool {
        self.wide() >= 0 && self.tall() >= 0
    }

    /// Every edge belongs to the rectangle.
    pub open spec fn holds(self, p: Pos2) -> bool {
        self.min.x <= p.x <= self.max.x && self.min.y <= p.y <= self.max.y
    }

    /// The smallest rectangle around both.
    pub open spec fn joined(self, other: Rect) -> Rect {
        Rect {
            min: Pos2 {
                x: min_of(self.min.x as int, other.min.x as int) as i64,
                y: min_of(self.min.y as int, other.min.y as int) as i64,
            },
            max: Pos2 {
                x: max_of(self.max.x as int, other.max.x as int) as i64,
                y: max_of(self.max.y as int, other.max.y as int) as i64,
            },
        }
    }

    pub open spec fn sized(min: Pos2, size: Vec2) -> Rect {
        Rect { min, max: Pos2 { x: (min.x + size.x) as i64, y: (min.y + size.y) as i64 } }
    }

    pub fn from_min_size(min: Pos2, size: Vec2) -> (r: Rect)
        requires
            i64::MIN <= min.x + size.x <= i64::MAX,
            i64::MIN <= min.y + size.y <= i64::MAX,
        ensures
            r == Rect::sized(min, size),
            r.min == min,
            r.max.x == min.x + size.x,
            r.max.y == min.y + size.y,
    {
        Rect { min, max: Pos2 { x: min.x + size.x, y: min.y + size.y } }
    }

    pub fn width(&self) -> (r: i64)
        requires
            i64::MIN <= self.wide() <= i64::MAX,
        ensures
            r == self.wide(),
    {
        self.max.x - self.min.x
    }

    pub fn height(&self) -> (r: i64)
        requires
            i64::MIN <= self.tall() <= i64::MAX,
        ensures
            r == self.tall(),
    {
        self.max.y - self.min.y
    }

    pub fn contains(&self, p: Pos2) -> (r: bool)
        ensures
            r == self.holds(p),
    {
        self.min.x <= p.x && p.x <= self.max.x && self.min.y <= p.y && p.y <= self.max.y
    }

    pub fn union(&self, other: Rect) -> (r: Rect)
        ensures
            r == self.joined(other),
    {
        Rect {
            min: Pos2 { x: least(self.min.x, other.min.x), y: least(self.min.y, other.min.y) },
            max: Pos2 {
                x: greatest(self.max.x, other.max.x),
                y: greatest(self.max.y, other.max.y),
            },
        }
    }
}

/// The smaller and the larger of two are each one of them, and between the two.
pub proof fn of_two_one_is_smaller(a: int, b: int)
    ensures
        min_of(a, b) <= a && min_of(a, b) <= b && (min_of(a, b) == a || min_of(a, b) == b),
        max_of(a, b) >= a && max_of(a, b) >= b && (max_of(a, b) == a || max_of(a, b) == b),
{
}

/// What is between two limits is kept, and what is not goes to the nearer.
pub proof fn a_value_is_held_between_its_limits(v: int, low: int, high: int)
    requires
        low <= high,
    ensures
        low <= v <= high ==> clamp_of(v, low, high) == v,
        v < low ==> clamp_of(v, low, high) == low,
        v > high ==> clamp_of(v, low, high) == high,
{
}

/// A length rounds to whole points, to the nearest, and halves go away from nothing: so
/// that it and its opposite round to opposites.
pub proof fn a_length_rounds_to_whole_points(v: int)
    ensures
        round_of(v) % 10_000 == 0,
        -5_000 <= round_of(v) - v <= 5_000,
        round_of(-v) == -round_of(v),
        v >= 0 && round_of(v) - v == -5_000 ==> false,
{
}

/// Half of a length is half of it, and what is left over goes towards nothing; its size
/// is how far it is from nothing.
pub proof fn a_length_is_halved_towards_nothing(v: int)
    ensures
        v >= 0 ==> 0 <= v - 2 * half_of(v) <= 1,
        half_of(-v) == -half_of(v),
        abs_of(v) >= 0,
        abs_of(v) == v || abs_of(v) == -v,
{
}

/// A rectangle holds its corners and what lies between them, and nothing else.
pub proof fn a_rectangle_holds_what_is_between_its_corners(r: Rect, p: Pos2)
    ensures
        r.holds(p) <==> r.min.x <= p.x && p.x <= r.max.x && r.min.y <= p.y && p.y <= r.max.y,
        r.wide() == r.max.x - r.min.x,
        r.tall() == r.max.y - r.min.y,
{
}

/// Two rectangles joined are the least that holds both.
pub proof fn joined_rectangles_hold_both(a: Rect, b: Rect, p: Pos2)
    requires
        a.upright(),
        b.upright(),
    ensures
        a.holds(p) || b.holds(p) ==> a.joined(b).holds(p),
        a.joined(b).min.x == a.min.x || a.joined(b).min.x == b.min.x,
        a.joined(b).min.y == a.min.y || a.joined(b).min.y == b.min.y,
        a.joined(b).max.x == a.max.x || a.joined(b).max.x == b.max.x,
        a.joined(b).max.y == a.max.y || a.joined(b).max.y == b.max.y,
{
}

} // verus!
