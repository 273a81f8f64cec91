//! The shape in the middle of a wheel, as both the hit test and the painting
//! read it.

use crate::colorpicker::mode::WheelShape;
use crate::geom::{abs_of, clamp_of, max_of, within_reach, Pos2, Vec2, REACH};
use crate::ratio::{nearest_div, nearest_of, share, share_of, WHOLE};
use vstd::prelude::*;

verus! {

/// A direction, each part a share of a unit: what the cosine and the sine of an
/// angle come to.
pub open spec fn direction(d: Vec2) -> bool {
    -WHOLE <= d.x <= WHOLE && -WHOLE <= d.y <= WHOLE
}

/// The directions of a triangle's corners: the one it is turned to, and those a
/// third and two thirds of a turn on.
#[derive(Clone, Copy, Debug, PartialEq, Eq, Structural)]
pub struct Heading {
    pub base: Vec2,
    pub third: Vec2,
    pub two_thirds: Vec2,
}

impl Heading {
    pub open spec fn sound(self) -> bool {
        direction(self.base) && direction(self.third) && direction(self.two_thirds)
    }
}

#[derive(Clone, Copy, Debug, PartialEq, Eq, Structural)]
pub enum Hub {
    /// The saturation/value triangle, by its corners: full hue, white, black.
    Triangle(Pos2, Pos2, Pos2),
    /// The saturation/value field, by its centre, its semi-axes before the turn,
    /// and the direction of rising saturation.
    Field(Pos2, Vec2, Vec2),
}

impl Vec2 {
    pub open spec fn in_reach(self) -> bool {
        within_reach(self.x as int) && within_reach(self.y as int)
    }
}

// --- the triangle -------------------------------------------------------------

/// Twice the area of a triangle, signed by the way round its corners go.
pub open spec fn area_of(a: Pos2, b: Pos2, c: Pos2) -> int {
    (b.x - a.x) * (c.y - a.y) - (c.x - a.x) * (b.y - a.y)
}

/// Corners this close to a line are no triangle.
pub const FLAT: i64 = 100;

/// How much of each corner a point is, as parts of their sum, which is the size
/// of the triangle. Corners on a line have no weights.
pub open spec fn weights_of(p: Pos2, a: Pos2, b: Pos2, c: Pos2) -> Option<(int, int, int)> {
    let area = area_of(a, b, c);
    let second = area_of(a, p, c);
    let third = area_of(a, b, p);
    if abs_of(area) < FLAT {
        None
    } else if area > 0 {
        Some((area - second - third, second, third))
    } else {
        Some((second + third - area, -second, -third))
    }
}

proof fn lemma_product(x: int, y: int)
    requires
        -2 * REACH <= x <= 2 * REACH,
        -2 * REACH <= y <= 2 * REACH,
    ensures
        -4_000_000_000_000_000_000_000_000_000_000 <= x * y
            <= 4_000_000_000_000_000_000_000_000_000_000,
{
    let m: int = 2_000_000_000_000_000;
    assert(-(m * m) <= x * y <= m * m) by (nonlinear_arith)
        requires
            -m <= x <= m,
            -m <= y <= m,
    ;
}

fn area(a: Pos2, b: Pos2, c: Pos2) -> (r: i128)
    requires
        a.in_reach(),
        b.in_reach(),
        c.in_reach(),
    ensures
        r == area_of(a, b, c),
        -8_000_000_000_000_000_000_000_000_000_000 <= r
            <= 8_000_000_000_000_000_000_000_000_000_000,
{
    let bx: i128 = (b.x - a.x) as i128;
    let by: i128 = (b.y - a.y) as i128;
    let cx: i128 = (c.x - a.x) as i128;
    let cy: i128 = (c.y - a.y) as i128;
    proof {
        lemma_product(bx as int, cy as int);
        lemma_product(cx as int, by as int);
    }
    bx * cy - cx * by
}

/// The weights of a point, `None` where the corners are no triangle.
pub fn barycentric(p: Pos2, a: Pos2, b: Pos2, c: Pos2) -> (r: Option<(i128, i128, i128)>)
    requires
        p.in_reach(),
        a.in_reach(),
        b.in_reach(),
        c.in_reach(),
    ensures
        match (r, weights_of(p, a, b, c)) {
            (Some(w), Some(v)) => w.0 == v.0 && w.1 == v.1 && w.2 == v.2 && w.0 + w.1 + w.2 >= FLAT
                && weighable(w.0 as int, w.1 as int, w.2 as int),
            (None, None) => true,
            _ => false,
        },
{
    let all: i128 = area(a, b, c);
    let second: i128 = area(a, p, c);
    let third: i128 = area(a, b, p);
    if -100 < all && all < 100 {
        None
    } else if all > 0 {
        Some((all - second - third, second, third))
    } else {
        Some((second + third - all, -second, -third))
    }
}

/// Weights small enough to add up and divide.
pub open spec fn weighable(a: int, b: int, c: int) -> bool {
    &&& -24_000_000_000_000_000_000_000_000_000_000 <= a
        <= 24_000_000_000_000_000_000_000_000_000_000
    &&& -8_000_000_000_000_000_000_000_000_000_000 <= b
        <= 8_000_000_000_000_000_000_000_000_000_000
    &&& -8_000_000_000_000_000_000_000_000_000_000 <= c
        <= 8_000_000_000_000_000_000_000_000_000_000
}

/// Weights pushed inside the triangle, so that dragging past an edge slides
/// along it. Where nothing is left it is the first corner.
pub open spec fn pushed_in(a: int, b: int, c: int) -> (int, int, int) {
    let (x, y, z) = (max_of(a, 0), max_of(b, 0), max_of(c, 0));
    if x + y + z <= 0 {
        (1, 0, 0)
    } else {
        (x, y, z)
    }
}

/// Push weights inside rather than rejecting them.
pub fn clamp_barycentric(a: i128, b: i128, c: i128) -> (r: (i128, i128, i128))
    requires
        weighable(a as int, b as int, c as int),
    ensures
        r.0 == pushed_in(a as int, b as int, c as int).0,
        r.1 == pushed_in(a as int, b as int, c as int).1,
        r.2 == pushed_in(a as int, b as int, c as int).2,
        r.0 >= 0,
        r.1 >= 0,
        r.2 >= 0,
        0 < r.0 + r.1 + r.2 <= 40_000_000_000_000_000_000_000_000_000_000,
{
    let x: i128 = if a >= 0 {
        a
    } else {
        0
    };
    let y: i128 = if b >= 0 {
        b
    } else {
        0
    };
    let z: i128 = if c >= 0 {
        c
    } else {
        0
    };
    if x + y + z <= 0 {
        (1, 0, 0)
    } else {
        (x, y, z)
    }
}

/// What saturation and value weights stand for: the value is what is not black,
/// and the saturation is how much of that is hue. Next to black there is none.
pub open spec fn shade_of(w: (int, int, int)) -> (int, int) {
    let (a, b, c) = pushed_in(w.0, w.1, w.2);
    (
        if (a + b) * 10_000 > a + b + c {
            share_of(a, a + b)
        } else {
            0
        },
        share_of(a + b, a + b + c),
    )
}

/// What saturation and value a point of the triangle stands for.
pub open spec fn triangle_reading(hue: Pos2, white: Pos2, black: Pos2, pos: Pos2) -> Option<
    (int, int),
> {
    match weights_of(pos, hue, white, black) {
        Some(w) => Some(shade_of(w)),
        None => None,
    }
}

pub open spec fn same_shade(r: Option<(i64, i64)>, s: Option<(int, int)>) -> bool {
    match (r, s) {
        (Some(x), Some(y)) => x.0 == y.0 && x.1 == y.1 && 0 <= x.0 <= WHOLE && 0 <= x.1 <= WHOLE,
        (None, None) => true,
        _ => false,
    }
}

/// What saturation and value a point stands for, `None` where the three corners
/// are no triangle.
pub fn triangle_at(hue: Pos2, white: Pos2, black: Pos2, pos: Pos2) -> (r: Option<(i64, i64)>)
    requires
        hue.in_reach(),
        white.in_reach(),
        black.in_reach(),
        pos.in_reach(),
    ensures
        same_shade(r, triangle_reading(hue, white, black, pos)),
{
    let (a, b, c): (i128, i128, i128) = match barycentric(pos, hue, white, black) {
        Some(w) => w,
        None => return None,
    };
    let (x, y, z): (i128, i128, i128) = clamp_barycentric(a, b, c);
    let v: i64 = share(x + y, x + y + z);
    let s: i64 = if (x + y) * 10_000 > x + y + z {
        share(x, x + y)
    } else {
        0
    };
    Some((s, v))
}

proof fn lemma_nearest_within(n: int, d: int, k: int)
    requires
        d > 0,
        -(k * d) <= n <= k * d,
    ensures
        -k <= nearest_of(n, d) <= k,
{
    assert(-k <= (2 * n + d) / (2 * d) <= k) by (nonlinear_arith)
        requires
            d > 0,
            -(k * d) <= n <= k * d,
    ;
}

/// The weighted mean of three coordinates, for the weights a saturation and a
/// value stand for.
pub open spec fn mixed(hue: int, white: int, black: int, s: int, v: int) -> int {
    nearest_of(
        hue * (s * v) + white * (v * WHOLE - s * v) + black * (WHOLE * WHOLE - v * WHOLE),
        WHOLE * WHOLE,
    )
}

fn mix(hue: i64, white: i64, black: i64, s: i64, v: i64) -> (r: i64)
    requires
        within_reach(hue as int),
        within_reach(white as int),
        within_reach(black as int),
        0 <= s <= WHOLE,
        0 <= v <= WHOLE,
    ensures
        r == mixed(hue as int, white as int, black as int, s as int, v as int),
        within_reach(r as int),
{
    let w: i128 = 1_000_000;
    assert(0 <= s * v <= v * 1_000_000 <= 1_000_000_000_000) by (nonlinear_arith)
        requires
            0 <= s <= 1_000_000,
            0 <= v <= 1_000_000,
    ;
    let a: i128 = (s * v) as i128;
    let b: i128 = (v as i128) * w - a;
    let c: i128 = w * w - (v as i128) * w;
    proof {
        let (h, x, k) = (hue as int, white as int, black as int);
        let q: int = 1_000_000_000_000_000;
        let (p, m, n) = (a as int, b as int, c as int);
        assert(p + m + n == 1_000_000_000_000);
        assert(-(q * p) <= h * p <= q * p) by (nonlinear_arith)
            requires
                -q <= h <= q,
                0 <= p,
        ;
        assert(-(q * m) <= x * m <= q * m) by (nonlinear_arith)
            requires
                -q <= x <= q,
                0 <= m,
        ;
        assert(-(q * n) <= k * n <= q * n) by (nonlinear_arith)
            requires
                -q <= k <= q,
                0 <= n,
        ;
        assert(q * p + q * m + q * n == q * (p + m + n)) by (nonlinear_arith);
        lemma_nearest_within(h * p + x * m + k * n, 1_000_000_000_000, q);
    }
    let n: i128 = (hue as i128) * a + (white as i128) * b + (black as i128) * c;
    nearest_div(n, w * w) as i64
}

/// Where a saturation and value land in the triangle.
pub fn triangle_point(hue: Pos2, white: Pos2, black: Pos2, s: i64, v: i64) -> (r: Pos2)
    requires
        hue.in_reach(),
        white.in_reach(),
        black.in_reach(),
        0 <= s <= WHOLE,
        0 <= v <= WHOLE,
    ensures
        r.x == mixed(hue.x as int, white.x as int, black.x as int, s as int, v as int),
        r.y == mixed(hue.y as int, white.y as int, black.y as int, s as int, v as int),
        r.in_reach(),
{
    Pos2 { x: mix(hue.x, white.x, black.x, s, v), y: mix(hue.y, white.y, black.y, s, v) }
}

/// Whether a point is no further than this from a centre along either axis.
pub open spec fn near(centre: Pos2, radius: int, p: Pos2) -> bool {
    &&& centre.x - radius <= p.x <= centre.x + radius
    &&& centre.y - radius <= p.y <= centre.y + radius
}

/// A corner at a distance from the centre.
pub open spec fn out_along(centre: Pos2, radius: int, towards: Vec2) -> Pos2 {
    Pos2 {
        x: (centre.x + nearest_of(towards.x * radius, WHOLE as int)) as i64,
        y: (centre.y + nearest_of(towards.y * radius, WHOLE as int)) as i64,
    }
}

fn step_out(from: i64, radius: i64, towards: i64) -> (r: i64)
    requires
        -WHOLE <= towards <= WHOLE,
        0 <= radius <= REACH,
        within_reach(from as int),
    ensures
        r == from + nearest_of(towards * radius, WHOLE as int),
        from - radius <= r <= from + radius,
{
    proof {
        let (t, q) = (towards as int, radius as int);
        assert(-(q * 1_000_000) <= t * q <= q * 1_000_000) by (nonlinear_arith)
            requires
                -1_000_000 <= t <= 1_000_000,
                0 <= q,
        ;
        lemma_nearest_within(t * q, WHOLE as int, q);
    }
    from + nearest_div((towards as i128) * (radius as i128), 1_000_000) as i64
}

fn place_out(centre: Pos2, radius: i64, towards: Vec2) -> (r: Pos2)
    requires
        centre.in_reach(),
        0 <= radius <= REACH,
        direction(towards),
    ensures
        r == out_along(centre, radius as int, towards),
        r.x == centre.x + nearest_of(towards.x * radius, WHOLE as int),
        r.y == centre.y + nearest_of(towards.y * radius, WHOLE as int),
        near(centre, radius as int, r),
{
    Pos2 {
        x: step_out(centre.x, radius, towards.x),
        y: step_out(centre.y, radius, towards.y),
    }
}

/// The triangle's corners: full hue, white, black. Mirrored, they run the other
/// way round from the hue.
pub open spec fn corners_of(centre: Pos2, radius: int, heading: Heading, mirrored: bool) -> (
    Pos2,
    Pos2,
    Pos2,
) {
    let third = out_along(centre, radius, heading.third);
    let two_thirds = out_along(centre, radius, heading.two_thirds);
    (
        out_along(centre, radius, heading.base),
        if mirrored {
            two_thirds
        } else {
            third
        },
        if mirrored {
            third
        } else {
            two_thirds
        },
    )
}

pub fn triangle_corners(centre: Pos2, radius: i64, heading: Heading, mirrored: bool) -> (r: (
    Pos2,
    Pos2,
    Pos2,
))
    requires
        centre.in_reach(),
        0 <= radius <= REACH,
        heading.sound(),
    ensures
        r == corners_of(centre, radius as int, heading, mirrored),
        near(centre, radius as int, r.0),
        near(centre, radius as int, r.1),
        near(centre, radius as int, r.2),
{
    let apex = place_out(centre, radius, heading.base);
    let third = place_out(centre, radius, heading.third);
    let two_thirds = place_out(centre, radius, heading.two_thirds);
    if mirrored {
        (apex, two_thirds, third)
    } else {
        (apex, third, two_thirds)
    }
}

// --- the field ----------------------------------------------------------------

/// The field's own axes: across, rising saturation, and down, falling value.
pub open spec fn downwards(across: Vec2) -> Vec2 {
    Vec2 { x: (-across.y) as i64, y: across.x }
}

pub fn field_axes(across: Vec2) -> (r: (Vec2, Vec2))
    requires
        direction(across),
    ensures
        r == (across, downwards(across)),
        direction(r.1),
{
    (across, Vec2 { x: -across.y, y: across.x })
}

/// How far along an axis a point lies from the centre, in millionths.
pub open spec fn along(centre: Pos2, axis: Vec2, pos: Pos2) -> int {
    (pos.x - centre.x) * axis.x + (pos.y - centre.y) * axis.y
}

fn measure(centre: Pos2, axis: Vec2, pos: Pos2) -> (r: i128)
    requires
        centre.in_reach(),
        pos.in_reach(),
        direction(axis),
    ensures
        r == along(centre, axis, pos),
        -4_000_000_000_000_000_000_000 <= r <= 4_000_000_000_000_000_000_000,
{
    let dx: i128 = (pos.x - centre.x) as i128;
    let dy: i128 = (pos.y - centre.y) as i128;
    proof {
        lemma_turned(dx as int, axis.x as int);
        lemma_turned(dy as int, axis.y as int);
    }
    dx * (axis.x as i128) + dy * (axis.y as i128)
}

proof fn lemma_turned(d: int, a: int)
    requires
        -2 * REACH <= d <= 2 * REACH,
        -WHOLE <= a <= WHOLE,
    ensures
        -2_000_000_000_000_000_000_000 <= d * a <= 2_000_000_000_000_000_000_000,
{
    let m: int = 2_000_000_000_000_000;
    let w: int = 1_000_000;
    assert(-(m * w) <= d * a <= m * w) by (nonlinear_arith)
        requires
            -m <= d <= m,
            -w <= a <= w,
    ;
}

/// The least a semi-axis is taken to be when a point is read against it.
pub const SLIVER: i64 = 10;

/// How far across a semi-axis a point lies, none of the way at its low end and
/// all of it at its high end. Past an end is that end.
pub open spec fn across_share(along: int, half: int) -> int {
    let h = max_of(half, SLIVER as int) * WHOLE;
    share_of(clamp_of(along, -h, h) + h, 2 * h)
}

fn read_across(along: i128, half: i64) -> (r: i64)
    requires
        half <= REACH,
        -4_000_000_000_000_000_000_000 <= along <= 4_000_000_000_000_000_000_000,
    ensures
        r == across_share(along as int, half as int),
        0 <= r <= WHOLE,
{
    let h: i128 = (if half >= SLIVER {
        half
    } else {
        SLIVER
    }) as i128 * 1_000_000;
    let held: i128 = if along < -h {
        -h
    } else if along > h {
        h
    } else {
        along
    };
    share(held + h, 2 * h)
}

/// What saturation and value a point of the field stands for: across is rising
/// saturation, down is falling value.
pub open spec fn field_reading(centre: Pos2, half: Vec2, across: Vec2, pos: Pos2) -> (int, int) {
    (
        across_share(along(centre, across, pos), half.x as int),
        across_share(-along(centre, downwards(across), pos), half.y as int),
    )
}

/// What saturation and value a point stands for. Outside the field it is that of
/// the nearest edge on each axis.
pub fn field_at(centre: Pos2, half: Vec2, across: Vec2, pos: Pos2) -> (r: (i64, i64))
    requires
        centre.in_reach(),
        half.in_reach(),
        pos.in_reach(),
        direction(across),
    ensures
        r.0 == field_reading(centre, half, across, pos).0,
        r.1 == field_reading(centre, half, across, pos).1,
        0 <= r.0 <= WHOLE,
        0 <= r.1 <= WHOLE,
{
    let (across, down) = field_axes(across);
    let u: i128 = measure(centre, across, pos);
    let w: i128 = measure(centre, down, pos);
    (read_across(u, half.x), read_across(-w, half.y))
}

/// Where a saturation and value land in the field.
pub open spec fn field_place(centre: Pos2, half: Vec2, across: Vec2, s: int, v: int) -> Pos2 {
    let u = half.x * (2 * s - WHOLE);
    let w = half.y * (WHOLE - 2 * v);
    let down = downwards(across);
    Pos2 {
        x: (centre.x + nearest_of(across.x * u + down.x * w, WHOLE * WHOLE)) as i64,
        y: (centre.y + nearest_of(across.y * u + down.y * w, WHOLE * WHOLE)) as i64,
    }
}

fn place_within(from: i64, a: i64, u: i128, d: i64, w: i128) -> (r: i64)
    requires
        within_reach(from as int),
        -WHOLE <= a <= WHOLE,
        -WHOLE <= d <= WHOLE,
        -1_000_000_000_000_000_000_000 <= u <= 1_000_000_000_000_000_000_000,
        -1_000_000_000_000_000_000_000 <= w <= 1_000_000_000_000_000_000_000,
    ensures
        r == from + nearest_of(a * u + d * w, WHOLE * WHOLE),
{
    proof {
        let (k, m) = (1_000_000int, 1_000_000_000_000_000_000_000int);
        let (p, q, x, y) = (a as int, u as int, d as int, w as int);
        assert(-(k * m) <= p * q <= k * m) by (nonlinear_arith)
            requires
                -k <= p <= k,
                -m <= q <= m,
        ;
        assert(-(k * m) <= x * y <= k * m) by (nonlinear_arith)
            requires
                -k <= x <= k,
                -m <= y <= m,
        ;
        lemma_nearest_within(p * q + x * y, 1_000_000_000_000, 2_000_000_000_000_000);
    }
    from + nearest_div((a as i128) * u + (d as i128) * w, 1_000_000_000_000) as i64
}

pub fn field_point(centre: Pos2, half: Vec2, across: Vec2, s: i64, v: i64) -> (r: Pos2)
    requires
        centre.in_reach(),
        half.in_reach(),
        direction(across),
        0 <= s <= WHOLE,
        0 <= v <= WHOLE,
    ensures
        r == field_place(centre, half, across, s as int, v as int),
{
    let (across, down) = field_axes(across);
    proof {
        let (m, k) = (1_000_000_000_000_000int, 1_000_000int);
        let (hx, hy) = (half.x as int, half.y as int);
        let (p, q) = (2 * s - 1_000_000, 1_000_000 - 2 * v);
        assert(-(m * k) <= hx * p <= m * k) by (nonlinear_arith)
            requires
                -m <= hx <= m,
                -k <= p <= k,
        ;
        assert(-(m * k) <= hy * q <= m * k) by (nonlinear_arith)
            requires
                -m <= hy <= m,
                -k <= q <= k,
        ;
    }
    let u: i128 = (half.x as i128) * ((2 * s - 1_000_000) as i128);
    let w: i128 = (half.y as i128) * ((1_000_000 - 2 * v) as i128);
    Pos2 {
        x: place_within(centre.x, across.x, u, down.x, w),
        y: place_within(centre.y, across.y, u, down.y, w),
    }
}

// --- either -------------------------------------------------------------------

/// The largest square inscribed in the ring, less two points.
pub open spec fn square_half(inner: int) -> int {
    max_of(nearest_of(inner * 707_107, WHOLE as int) - 20_000, 10_000)
}

pub open spec fn hub_for(
    shape: WheelShape,
    centre: Pos2,
    inner: int,
    heading: Heading,
    mirrored: bool,
) -> Hub {
    match shape {
        WheelShape::Square => {
            let half = square_half(inner) as i64;
            Hub::Field(centre, Vec2 { x: half, y: half }, heading.base)
        },
        WheelShape::Triangle => {
            let (hue, white, black) = corners_of(
                centre,
                max_of(inner - 30_000, 10_000),
                heading,
                mirrored,
            );
            Hub::Triangle(hue, white, black)
        },
    }
}

/// Whether everything within a distance of a centre is in reach.
pub open spec fn has_room(centre: Pos2, room: int) -> bool {
    &&& room <= REACH
    &&& within_reach(centre.x - room)
    &&& within_reach(centre.x + room)
    &&& within_reach(centre.y - room)
    &&& within_reach(centre.y + room)
}

/// The centre's geometry, from the shape and the ring it is inscribed in. The
/// hit test and the painting both have it from here.
pub fn hub_of(shape: WheelShape, centre: Pos2, inner: i64, heading: Heading, mirrored: bool) -> (r:
    Hub)
    requires
        centre.in_reach(),
        0 <= inner <= REACH,
        heading.sound(),
    ensures
        r == hub_for(shape, centre, inner as int, heading, mirrored),
        has_room(centre, inner + 20_000) ==> r.in_reach(),
{
    match shape {
        WheelShape::Square => {
            proof {
                lemma_nearest_within(inner * 707_107, WHOLE as int, inner as int);
            }
            let inset: i64 = nearest_div((inner as i128) * 707_107, 1_000_000) as i64 - 20_000;
            let half: i64 = if inset >= 10_000 {
                inset
            } else {
                10_000
            };
            Hub::Field(centre, Vec2 { x: half, y: half }, heading.base)
        },
        WheelShape::Triangle => {
            let radius: i64 = if inner - 30_000 >= 10_000 {
                inner - 30_000
            } else {
                10_000
            };
            let (hue, white, black) = triangle_corners(centre, radius, heading, mirrored);
            Hub::Triangle(hue, white, black)
        },
    }
}

impl Hub {
    pub open spec fn in_reach(self) -> bool {
        match self {
            Hub::Triangle(a, b, c) => a.in_reach() && b.in_reach() && c.in_reach(),
            Hub::Field(centre, half, across) => centre.in_reach() && half.in_reach() && direction(
                across,
            ),
        }
    }

    /// The points of the shape that is drawn, its edges included.
    pub open spec fn covers(self, pos: Pos2) -> bool {
        match self {
            Hub::Triangle(a, b, c) => match weights_of(pos, a, b, c) {
                Some(w) => w.0 >= 0 && w.1 >= 0 && w.2 >= 0,
                None => false,
            },
            Hub::Field(centre, half, across) => {
                &&& abs_of(along(centre, across, pos)) <= half.x * WHOLE
                &&& abs_of(along(centre, downwards(across), pos)) <= half.y * WHOLE
            },
        }
    }

    /// Whether a press landed on the shape that was drawn. Asked of the press
    /// alone: a drag that began inside goes on being the centre's however far
    /// out it wanders.
    pub fn contains(self, pos: Pos2) -> (r: bool)
        requires
            self.in_reach(),
            pos.in_reach(),
        ensures
            r == self.covers(pos),
    {
        match self {
            Hub::Triangle(a, b, c) => match barycentric(pos, a, b, c) {
                Some((x, y, z)) => x >= 0 && y >= 0 && z >= 0,
                None => false,
            },
            Hub::Field(centre, half, across) => {
                let (across, down) = field_axes(across);
                let u: i128 = measure(centre, across, pos);
                let w: i128 = measure(centre, down, pos);
                let x: i128 = (half.x as i128) * 1_000_000;
                let y: i128 = (half.y as i128) * 1_000_000;
                -x <= u && u <= x && -y <= w && w <= y
            },
        }
    }

    /// The saturation and value a point of the shape stands for.
    pub open spec fn reading(self, pos: Pos2) -> Option<(int, int)> {
        match self {
            Hub::Triangle(a, b, c) => triangle_reading(a, b, c, pos),
            Hub::Field(centre, half, across) => Some(field_reading(centre, half, across, pos)),
        }
    }

    pub fn read(self, pos: Pos2) -> (r: Option<(i64, i64)>)
        requires
            self.in_reach(),
            pos.in_reach(),
        ensures
            same_shade(r, self.reading(pos)),
    {
        match self {
            Hub::Triangle(a, b, c) => triangle_at(a, b, c, pos),
            Hub::Field(centre, half, across) => Some(field_at(centre, half, across, pos)),
        }
    }
}

/// Swapping the ends exchanges the white and the black corner and moves nothing
/// else.
pub proof fn swapping_exchanges_white_and_black(centre: Pos2, radius: int, heading: Heading)
    ensures
        ({
            let plain = corners_of(centre, radius, heading, false);
            let swapped = corners_of(centre, radius, heading, true);
            swapped.0 == plain.0 && swapped.1 == plain.2 && swapped.2 == plain.1
        }),
{
}

/// A triangle with its ends swapped takes exactly the presses it took before.
pub proof fn a_swapped_triangle_takes_the_same_presses(a: Pos2, b: Pos2, c: Pos2, pos: Pos2)
    ensures
        Hub::Triangle(a, b, c).covers(pos) == Hub::Triangle(a, c, b).covers(pos),
{
    lemma_area_turns(a, b, c);
    lemma_area_turns(a, pos, c);
    lemma_area_turns(a, b, pos);
}

/// A direction a unit long, as nearly as a cosine and a sine to the millionth are.
pub open spec fn unit(d: Vec2) -> bool {
    -2 * WHOLE <= d.x * d.x + d.y * d.y - WHOLE * WHOLE <= 2 * WHOLE
}

/// A place laid down on the grid along two axes, measured along the first again.
proof fn lemma_measured_again(ax: int, ay: int, u: int, w: int)
    requires
        -WHOLE <= ax <= WHOLE,
        -WHOLE <= ay <= WHOLE,
    ensures
        ({
            let m = WHOLE * WHOLE;
            let x = nearest_of(ax * u - ay * w, m);
            let y = nearest_of(ay * u + ax * w, m);
            let off = 2 * m * (x * ax + y * ay) - 2 * (ax * ax + ay * ay) * u;
            -2 * WHOLE * m <= off <= 2 * WHOLE * m
        }),
{
    let k: int = 1_000_000;
    let m: int = 1_000_000_000_000;
    assert(WHOLE * WHOLE == m);
    let (p, q) = (ax * u - ay * w, ay * u + ax * w);
    let (x, y) = (nearest_of(p, m), nearest_of(q, m));
    let (e, f) = (2 * m * x - 2 * p, 2 * m * y - 2 * q);
    assert(-m <= e <= m && -m <= f <= m) by (nonlinear_arith)
        requires
            x == (2 * p + m) / (2 * m),
            y == (2 * q + m) / (2 * m),
            e == 2 * m * x - 2 * p,
            f == 2 * m * y - 2 * q,
            m == 1_000_000_000_000,
    ;
    assert(ax * p + ay * q == (ax * ax + ay * ay) * u) by (nonlinear_arith)
        requires
            p == ax * u - ay * w,
            q == ay * u + ax * w,
    ;
    assert(2 * m * (x * ax + y * ay) == ax * (2 * m * x) + ay * (2 * m * y)) by (nonlinear_arith);
    assert(ax * (2 * m * x) == 2 * (ax * p) + ax * e) by (nonlinear_arith)
        requires
            2 * m * x == 2 * p + e,
    ;
    assert(ay * (2 * m * y) == 2 * (ay * q) + ay * f) by (nonlinear_arith)
        requires
            2 * m * y == 2 * q + f,
    ;
    assert(-(k * m) <= ax * e <= k * m) by (nonlinear_arith)
        requires
            -k <= ax <= k,
            -m <= e <= m,
    ;
    assert(-(k * m) <= ay * f <= k * m) by (nonlinear_arith)
        requires
            -k <= ay <= k,
            -m <= f <= m,
    ;
    assert(2 * ((ax * ax + ay * ay) * u) == 2 * (ax * ax + ay * ay) * u) by (nonlinear_arith);
}

/// What is laid down along two axes is no further out than the two together.
proof fn lemma_in_the_field(h: int, g: int, ax: int, ay: int, t: int, r: int)
    requires
        0 <= h <= REACH,
        0 <= g <= REACH,
        -WHOLE <= ax <= WHOLE,
        -WHOLE <= ay <= WHOLE,
        -WHOLE <= t <= WHOLE,
        -WHOLE <= r <= WHOLE,
    ensures
        -2 * REACH <= nearest_of(ax * (h * t) + ay * (g * r), WHOLE * WHOLE) <= 2 * REACH,
{
    let (k, q) = (1_000_000int, 1_000_000_000_000_000int);
    let (u, w) = (h * t, g * r);
    assert(-(q * k) <= u <= q * k) by (nonlinear_arith)
        requires
            u == h * t,
            0 <= h <= q,
            -k <= t <= k,
    ;
    assert(-(q * k) <= w <= q * k) by (nonlinear_arith)
        requires
            w == g * r,
            0 <= g <= q,
            -k <= r <= k,
    ;
    assert(-(q * k * k) <= ax * u <= q * k * k) by (nonlinear_arith)
        requires
            -k <= ax <= k,
            -(q * k) <= u <= q * k,
            k == 1_000_000,
            q == 1_000_000_000_000_000,
    ;
    assert(-(q * k * k) <= ay * w <= q * k * k) by (nonlinear_arith)
        requires
            -k <= ay <= k,
            -(q * k) <= w <= q * k,
            k == 1_000_000,
            q == 1_000_000_000_000_000,
    ;
    lemma_nearest_within(ax * u + ay * w, WHOLE * WHOLE, 2 * REACH);
}

/// A measurement that is nearly `u`, which stands for a share `t` of a semi-axis,
/// reads nearly that share.
proof fn lemma_nearly_read(h: int, t: int, n: int, a: int)
    requires
        SLIVER <= h,
        0 <= t <= WHOLE,
        -2 * WHOLE <= n - WHOLE * WHOLE <= 2 * WHOLE,
        ({
            let m = WHOLE * WHOLE;
            let off = 2 * m * a - 2 * n * (h * (2 * t - WHOLE));
            -2 * WHOLE * m <= off <= 2 * WHOLE * m
        }),
    ensures
        2 * h * abs_of(across_share(a, h) - t) <= 3 * h + WHOLE,
{
    let k: int = 1_000_000;
    let m: int = 1_000_000_000_000;
    let u = h * (2 * t - k);
    let top = h * k;
    assert(-top <= u <= top) by (nonlinear_arith)
        requires
            u == h * (2 * t - k),
            top == h * k,
            0 <= t <= k,
            0 <= h,
    ;
    let g = n - m;
    assert(-(2 * k * top) <= g * u <= 2 * k * top) by (nonlinear_arith)
        requires
            -2 * k <= g <= 2 * k,
            -top <= u <= top,
    ;
    assert(2 * n * u == 2 * m * u + 2 * (g * u)) by (nonlinear_arith)
        requires
            g == n - m,
    ;
    assert(2 * k * top == 2 * h * m) by (nonlinear_arith)
        requires
            top == h * k,
            k == 1_000_000,
            m == 1_000_000_000_000,
    ;
    let room = 2 * h + k;
    assert(-room <= a - u <= room) by (nonlinear_arith)
        requires
            -2 * k * m <= 2 * m * a - 2 * n * u <= 2 * k * m,
            2 * n * u == 2 * m * u + 2 * (g * u),
            -(2 * h * m) <= g * u <= 2 * h * m,
            room == 2 * h + k,
            m == 1_000_000_000_000,
    ;
    let c = clamp_of(a, -top, top);
    assert(-room <= c - u <= room);
    let d = 2 * top;
    let r = across_share(a, h);
    assert(max_of(h, SLIVER as int) * WHOLE == top);
    assert(r == nearest_of((c + top) * k, d));
    let z = (c + top) * k;
    assert(-d <= 2 * d * r - 2 * z <= d) by (nonlinear_arith)
        requires
            r == (2 * z + d) / (2 * d),
            d > 0,
    ;
    assert(z == d * t + (c - u) * k) by (nonlinear_arith)
        requires
            z == (c + top) * k,
            u == h * (2 * t - k),
            top == h * k,
            d == 2 * top,
    ;
    let gap = r - t;
    assert(2 * d * r - 2 * z == 2 * d * gap - 2 * ((c - u) * k)) by (nonlinear_arith)
        requires
            z == d * t + (c - u) * k,
            gap == r - t,
    ;
    assert(2 * d * gap == k * (4 * (h * gap))) by (nonlinear_arith)
        requires
            d == 2 * top,
            top == h * k,
    ;
    assert(d == k * (2 * h)) by (nonlinear_arith)
        requires
            d == 2 * top,
            top == h * k,
    ;
    let y = h * gap;
    assert(-(6 * h + 2 * k) <= 4 * y <= 6 * h + 2 * k) by (nonlinear_arith)
        requires
            -(k * (2 * h)) <= k * (4 * y) - 2 * ((c - u) * k) <= k * (2 * h),
            -room <= c - u <= room,
            room == 2 * h + k,
            k == 1_000_000,
    ;
    assert(2 * h * abs_of(gap) <= 3 * h + k) by (nonlinear_arith)
        requires
            y == h * gap,
            -(6 * h + 2 * k) <= 4 * y <= 6 * h + 2 * k,
            abs_of(gap) == gap || abs_of(gap) == -gap,
    ;
}

/// A field reads back the saturation and value it placed, however it is turned:
/// to within two millionths and what half a step of the grid is on each axis.
pub proof fn a_field_reads_back_what_it_placed(
    centre: Pos2,
    half: Vec2,
    across: Vec2,
    s: int,
    v: int,
)
    requires
        centre.in_reach(),
        SLIVER <= half.x <= REACH,
        SLIVER <= half.y <= REACH,
        direction(across),
        unit(across),
        0 <= s <= WHOLE,
        0 <= v <= WHOLE,
    ensures
        ({
            let at = field_place(centre, half, across, s, v);
            let back = field_reading(centre, half, across, at);
            &&& 2 * half.x * abs_of(back.0 - s) <= 3 * half.x + WHOLE
            &&& 2 * half.y * abs_of(back.1 - v) <= 3 * half.y + WHOLE
        }),
{
    let m: int = WHOLE * WHOLE;
    assert(m == 1_000_000_000_000);
    let (ax, ay) = (across.x as int, across.y as int);
    let u = half.x * (2 * s - WHOLE);
    let w = half.y * (WHOLE - 2 * v);
    let down = downwards(across);
    assert(down.x * w == -(ay * w)) by (nonlinear_arith)
        requires
            down.x == -ay,
    ;
    let x = nearest_of(ax * u - ay * w, m);
    let y = nearest_of(ay * u + ax * w, m);
    let at = field_place(centre, half, across, s, v);
    assert(ay * w * -1 == (-ay) * w) by (nonlinear_arith);
    lemma_in_the_field(half.x as int, half.y as int, ax, -ay, 2 * s - WHOLE, WHOLE - 2 * v);
    lemma_in_the_field(half.x as int, half.y as int, ay, ax, 2 * s - WHOLE, WHOLE - 2 * v);
    assert(at.x == centre.x + x && at.y == centre.y + y);
    lemma_measured_again(ax, ay, u, w);
    let n = ax * ax + ay * ay;
    let a = along(centre, across, at);
    assert(a == x * ax + y * ay);
    lemma_nearly_read(half.x as int, s, n, a);
    // The other axis is the first of the same field turned a quarter back.
    lemma_measured_again(ax, -ay, w, u);
    let b = along(centre, down, at);
    assert(b == y * ax + x * (-ay)) by (nonlinear_arith)
        requires
            b == (at.x - centre.x) * down.x + (at.y - centre.y) * down.y,
            at.x == centre.x + x,
            at.y == centre.y + y,
            down.x == -ay,
            down.y == ax,
    ;
    assert(ax * w - (-ay) * u == ay * u + ax * w) by (nonlinear_arith);
    assert((-ay) * w + ax * u == ax * u - ay * w) by (nonlinear_arith);
    assert((-ay) * (-ay) == ay * ay) by (nonlinear_arith);
    assert(nearest_of(ax * w - (-ay) * u, m) == y);
    assert(nearest_of((-ay) * w + ax * u, m) == x);
    assert(-2 * WHOLE * m <= 2 * m * b - 2 * n * w <= 2 * WHOLE * m);
    let other = half.y * (2 * v - WHOLE);
    assert(other == -w) by (nonlinear_arith)
        requires
            other == half.y * (2 * v - WHOLE),
            w == half.y * (WHOLE - 2 * v),
    ;
    assert(2 * n * other == -(2 * n * w)) by (nonlinear_arith)
        requires
            other == -w,
    ;
    assert(2 * m * (-b) == -(2 * m * b)) by (nonlinear_arith);
    lemma_nearly_read(half.y as int, v, n, -b);
}

/// Whether the other two corners of a triangle are no further than this from the
/// first along either axis.
pub open spec fn within_box(hue: Pos2, white: Pos2, black: Pos2, e: int) -> bool {
    &&& -e <= white.x - hue.x <= e
    &&& -e <= white.y - hue.y <= e
    &&& -e <= black.x - hue.x <= e
    &&& -e <= black.y - hue.y <= e
}

/// A mean of three coordinates lies from the first as far as the other two pull
/// it, to half a step.
proof fn lemma_mixed_from(h: int, w: int, b: int, s: int, v: int)
    ensures
        ({
            let m = WHOLE * WHOLE;
            let pull = (w - h) * (v * WHOLE - s * v) + (b - h) * (m - v * WHOLE);
            -m <= 2 * m * (mixed(h, w, b, s, v) - h) - 2 * pull <= m
        }),
{
    let m: int = WHOLE * WHOLE;
    assert(m == 1_000_000_000_000);
    let (x, y, z) = (s * v, v * WHOLE - s * v, m - v * WHOLE);
    let n = h * x + w * y + b * z;
    let r = mixed(h, w, b, s, v);
    assert(r == nearest_of(n, m));
    assert(-m <= 2 * m * r - 2 * n <= m) by (nonlinear_arith)
        requires
            r == (2 * n + m) / (2 * m),
            m == 1_000_000_000_000,
    ;
    assert(n == h * m + (w - h) * y + (b - h) * z) by (nonlinear_arith)
        requires
            n == h * x + w * y + b * z,
            x + y + z == m,
    ;
    assert(2 * m * (r - h) == 2 * m * r - 2 * (h * m)) by (nonlinear_arith);
}

/// How an area turns out where each step along its sides is nearly what it should
/// be: `f` of one triangle, in units of `m`.
proof fn lemma_area_near(
    m: int,
    e: int,
    kx: int,
    ky: int,
    jx: int,
    jy: int,
    ox: int,
    oy: int,
    f: int,
    g: int,
)
    requires
        m > 0,
        -e <= kx <= e,
        -e <= ky <= e,
        -m <= 2 * m * ox - 2 * (jx * f + kx * g) <= m,
        -m <= 2 * m * oy - 2 * (jy * f + ky * g) <= m,
    ensures
        -(m * e) <= m * (ox * ky - kx * oy) - f * (jx * ky - kx * jy) <= m * e,
{
    let (p, q) = (2 * m * ox - 2 * (jx * f + kx * g), 2 * m * oy - 2 * (jy * f + ky * g));
    assert(2 * m * ox == 2 * (m * ox) && 2 * m * oy == 2 * (m * oy)) by (nonlinear_arith);
    assert(-(m * e) <= p * ky <= m * e) by (nonlinear_arith)
        requires
            -m <= p <= m,
            -e <= ky <= e,
    ;
    assert(-(m * e) <= kx * q <= m * e) by (nonlinear_arith)
        requires
            -m <= q <= m,
            -e <= kx <= e,
    ;
    let (a, b) = (jx * f + kx * g, jy * f + ky * g);
    let (c, d) = (m * ox, m * oy);
    assert(2 * (c * ky) == 2 * (a * ky) + p * ky) by (nonlinear_arith)
        requires
            2 * c == 2 * a + p,
    ;
    assert(2 * (kx * d) == 2 * (kx * b) + kx * q) by (nonlinear_arith)
        requires
            2 * d == 2 * b + q,
    ;
    assert(a * ky - kx * b == f * (jx * ky - kx * jy)) by (nonlinear_arith)
        requires
            a == jx * f + kx * g,
            b == jy * f + ky * g,
    ;
    assert(m * (ox * ky - kx * oy) == c * ky - kx * d) by (nonlinear_arith)
        requires
            c == m * ox,
            d == m * oy,
    ;
}

/// What weights that are nearly those of a saturation and value read as.
proof fn lemma_shade_near(e: int, k: int, w: (int, int, int), s: int, v: int)
    requires
        0 <= e,
        0 < k,
        0 <= s <= WHOLE,
        0 <= v <= WHOLE,
        w.0 + w.1 + w.2 == k,
        ({
            let m = WHOLE * WHOLE;
            &&& -(m * e) <= m * w.1 - (v * WHOLE - s * v) * k <= m * e
            &&& -(m * e) <= m * w.2 - (m - v * WHOLE) * k <= m * e
        }),
    ensures
        ({
            let (back_s, back_v) = shade_of(w);
            &&& (2 * abs_of(back_v - v) - 1) * k <= 10 * WHOLE * e
            &&& (v - 100) * k > 3_100_000 * e ==> (2 * abs_of(back_s - s) - 1) * (v * k - 3 * WHOLE
                * e) <= 4 * WHOLE * WHOLE * e
        }),
{
    let u: int = 1_000_000;
    let m: int = 1_000_000_000_000;
    assert(WHOLE * WHOLE == m);
    let (a, b, c) = w;
    let (x, y, z) = (max_of(a, 0), max_of(b, 0), max_of(c, 0));
    let t = x + y + z;
    let (sv, vu) = (s * v, v * u);
    assert(0 <= sv <= vu <= m) by (nonlinear_arith)
        requires
            0 <= s <= u,
            0 <= v <= u,
            sv == s * v,
            vu == v * u,
            u == 1_000_000,
            m == 1_000_000_000_000,
    ;
    assert(v * WHOLE == vu && s * v == sv);
    let (fa, fb, fc) = (sv * k, (vu - sv) * k, (m - vu) * k);
    assert(fa + fb + fc == m * k) by (nonlinear_arith)
        requires
            fa == sv * k,
            fb == (vu - sv) * k,
            fc == (m - vu) * k,
    ;
    assert(0 <= fa && 0 <= fb && 0 <= fc) by (nonlinear_arith)
        requires
            0 < k,
            0 <= sv <= vu <= m,
            fa == sv * k,
            fb == (vu - sv) * k,
            fc == (m - vu) * k,
    ;
    assert(m * a + m * b + m * c == m * k) by (nonlinear_arith)
        requires
            a + b + c == k,
    ;
    let me = m * e;
    assert(0 <= me) by (nonlinear_arith)
        requires
            me == m * e,
            0 <= e,
            m > 0,
    ;
    lemma_held_near(m, a, fa, 2 * me);
    lemma_held_near(m, b, fb, me);
    lemma_held_near(m, c, fc, me);
    assert(k <= t);
    assert(m * t == m * x + m * y + m * z) by (nonlinear_arith)
        requires
            t == x + y + z,
    ;
    assert(t <= k + 4 * e) by (nonlinear_arith)
        requires
            m * t <= m * k + 4 * me,
            me == m * e,
            m > 0,
    ;
    assert(t > 0);
    let back_v = shade_of(w).1;
    assert(back_v == share_of(x + y, t));
    // The value.
    let r = back_v;
    let n = (x + y) * u;
    assert(-t <= 2 * t * r - 2 * n <= t) by (nonlinear_arith)
        requires
            r == (2 * n + t) / (2 * t),
            t > 0,
    ;
    let dark = (u - v) * k;
    assert(fc == u * dark) by (nonlinear_arith)
        requires
            fc == (m - vu) * k,
            vu == v * u,
            m == u * u,
            dark == (u - v) * k,
    ;
    assert(-(u * e) <= u * z - dark <= u * e);
    let lift = (u - v) * (t - k);
    assert(0 <= lift <= 4 * (u * e)) by (nonlinear_arith)
        requires
            lift == (u - v) * (t - k),
            0 <= u - v <= u,
            0 <= t - k <= 4 * e,
    ;
    let gap = r - v;
    assert(2 * t * r - 2 * n == 2 * (t * gap) - 2 * lift - 2 * dark + 2 * (u * z))
        by (nonlinear_arith)
        requires
            n == (x + y) * u,
            t == x + y + z,
            gap == r - v,
            lift == (u - v) * (t - k),
            dark == (u - v) * k,
    ;
    assert(-(10 * (u * e) + t) <= 2 * (t * gap) <= 10 * (u * e) + t);
    lemma_gap(t, k, gap, 10 * (u * e));
    // The saturation.
    if (v - 100) * k > 3_100_000 * e {
        let (sum, vk) = (x + y, v * k);
        assert(fa + fb == u * vk) by (nonlinear_arith)
            requires
                fa == sv * k,
                fb == (vu - sv) * k,
                vu == v * u,
                vk == v * k,
        ;
        assert(u * sum >= vk - 3 * (u * e));
        assert((v - 100) * k == vk - 100 * k) by (nonlinear_arith)
            requires
                vk == v * k,
        ;
        assert(sum * 10_000 > t);
        let q = shade_of(w).0;
        assert(q == share_of(x, sum));
        let part = x * u;
        assert(-sum <= 2 * sum * q - 2 * part <= sum) by (nonlinear_arith)
            requires
                q == (2 * part + sum) / (2 * sum),
                sum > 0,
        ;
        let (g, h) = (m * x - fa, m * y - fb);
        let off = (u - s) * x - s * y;
        assert(fa == s * vk) by (nonlinear_arith)
            requires
                fa == sv * k,
                sv == s * v,
                vk == v * k,
        ;
        assert(fb == (u - s) * vk) by (nonlinear_arith)
            requires
                fb == (vu - sv) * k,
                sv == s * v,
                vu == v * u,
                vk == v * k,
        ;
        assert((u - s) * fa == s * fb) by (nonlinear_arith)
            requires
                fa == s * vk,
                fb == (u - s) * vk,
        ;
        let (mx, my) = (m * x, m * y);
        assert(m * off == (u - s) * mx - s * my) by (nonlinear_arith)
            requires
                off == (u - s) * x - s * y,
                mx == m * x,
                my == m * y,
        ;
        assert((u - s) * mx == (u - s) * fa + (u - s) * g) by (nonlinear_arith)
            requires
                mx == fa + g,
        ;
        assert(s * my == s * fb + s * h) by (nonlinear_arith)
            requires
                my == fb + h,
        ;
        assert(-((u - s) * (2 * me)) <= (u - s) * g <= (u - s) * (2 * me)) by (nonlinear_arith)
            requires
                0 <= u - s,
                -(2 * me) <= g <= 2 * me,
        ;
        assert(-(s * me) <= s * h <= s * me) by (nonlinear_arith)
            requires
                0 <= s,
                -me <= h <= me,
        ;
        assert((u - s) * (2 * me) + s * me <= 2 * u * me) by (nonlinear_arith)
            requires
                0 <= s,
                0 <= me,
        ;
        assert(-(2 * (u * e)) <= off <= 2 * (u * e)) by (nonlinear_arith)
            requires
                -(2 * u * me) <= m * off <= 2 * u * me,
                me == m * e,
                m == 1_000_000_000_000,
        ;
        let miss = q - s;
        assert(2 * sum * q - 2 * part == 2 * (sum * miss) - 2 * off) by (nonlinear_arith)
            requires
                part == x * u,
                sum == x + y,
                miss == q - s,
                off == (u - s) * x - s * y,
        ;
        assert(-(4 * (u * e) + sum) <= 2 * (sum * miss) <= 4 * (u * e) + sum);
        let low = vk - 3 * (u * e);
        assert(low > 0);
        let wide = u * sum;
        assert(-(4 * (m * e) + wide) <= 2 * (wide * miss) <= 4 * (m * e) + wide)
            by (nonlinear_arith)
            requires
                -(4 * (u * e) + sum) <= 2 * (sum * miss) <= 4 * (u * e) + sum,
                wide == u * sum,
                m == u * u,
                u == 1_000_000,
        ;
        lemma_gap(wide, low, miss, 4 * (m * e));
        assert(3 * WHOLE * e == 3 * (u * e)) by (nonlinear_arith)
            requires
                u == WHOLE,
        ;
        assert(4 * WHOLE * WHOLE * e == 4 * (m * e)) by (nonlinear_arith)
            requires
                WHOLE * WHOLE == m,
        ;
    }
}

/// Holding a weight to nothing brings it no further from what it should be.
proof fn lemma_held_near(m: int, a: int, f: int, room: int)
    requires
        m > 0,
        0 <= f,
        -room <= m * a - f <= room,
    ensures
        -room <= m * max_of(a, 0) - f <= room,
{
    if a < 0 {
        assert(m * a <= 0) by (nonlinear_arith)
            requires
                m > 0,
                a < 0,
        ;
        assert(m * 0 == 0) by (nonlinear_arith);
    }
}

/// A gap that is small in units of something is small in units of anything less.
proof fn lemma_gap(t: int, k: int, gap: int, room: int)
    requires
        0 < k <= t,
        0 <= room,
        -(room + t) <= 2 * (t * gap) <= room + t,
    ensures
        (2 * abs_of(gap) - 1) * k <= room,
{
    let g = abs_of(gap);
    assert(t * g == t * gap || t * g == -(t * gap)) by (nonlinear_arith)
        requires
            g == gap || g == -gap,
    ;
    assert((2 * g - 1) * t <= room) by (nonlinear_arith)
        requires
            2 * (t * g) <= room + t,
    ;
    assert((2 * g - 1) * k <= room) by (nonlinear_arith)
        requires
            (2 * g - 1) * t <= room,
            0 < k <= t,
            0 <= room,
    ;
}

/// A triangle reads back the saturation and value it placed, to within what a
/// step of the grid is beside it. `e` is how far its corners reach. Next to black
/// there is no saturation to read.
pub proof fn a_triangle_reads_back_what_it_placed(
    hue: Pos2,
    white: Pos2,
    black: Pos2,
    s: int,
    v: int,
    at: Pos2,
    e: int,
)
    requires
        abs_of(area_of(hue, white, black)) >= FLAT,
        within_box(hue, white, black, e),
        0 <= s <= WHOLE,
        0 <= v <= WHOLE,
        at.x == mixed(hue.x as int, white.x as int, black.x as int, s, v),
        at.y == mixed(hue.y as int, white.y as int, black.y as int, s, v),
    ensures
        ({
            let size = abs_of(area_of(hue, white, black));
            &&& triangle_reading(hue, white, black, at) matches Some((back_s, back_v))
            &&& (2 * abs_of(back_v - v) - 1) * size <= 10 * WHOLE * e
            &&& (v - 100) * size > 3_100_000 * e ==> (2 * abs_of(back_s - s) - 1) * (v * size - 3
                * WHOLE * e) <= 4 * WHOLE * WHOLE * e
        }),
{
    let m: int = WHOLE * WHOLE;
    assert(m == 1_000_000_000_000);
    let (f, g) = (v * WHOLE - s * v, m - v * WHOLE);
    let (jx, jy) = (white.x - hue.x, white.y - hue.y);
    let (kx, ky) = (black.x - hue.x, black.y - hue.y);
    let (ox, oy) = (at.x - hue.x, at.y - hue.y);
    lemma_mixed_from(hue.x as int, white.x as int, black.x as int, s, v);
    lemma_mixed_from(hue.y as int, white.y as int, black.y as int, s, v);
    let area = area_of(hue, white, black);
    assert(area == jx * ky - kx * jy);
    let second = area_of(hue, at, black);
    let third = area_of(hue, white, at);
    assert(second == ox * ky - kx * oy);
    assert(third == jx * oy - ox * jy);
    lemma_area_near(m, e, kx, ky, jx, jy, ox, oy, f, g);
    assert(-(m * e) <= m * second - f * area <= m * e);
    // The third is the second of the triangle with its ends exchanged.
    assert(jx * f + kx * g == kx * g + jx * f);
    lemma_area_near(m, e, jx, jy, kx, ky, ox, oy, g, f);
    assert(ox * jy - jx * oy == -third);
    assert(kx * jy - jx * ky == -area) by (nonlinear_arith)
        requires
            area == jx * ky - kx * jy,
    ;
    assert(m * (-third) == -(m * third)) by (nonlinear_arith);
    assert(g * (-area) == -(g * area)) by (nonlinear_arith);
    assert(-(m * e) <= m * third - g * area <= m * e);
    let w = weights_of(at, hue, white, black)->0;
    let size = abs_of(area);
    if area < 0 {
        assert(m * (-second) == -(m * second)) by (nonlinear_arith);
        assert(f * (-area) == -(f * area)) by (nonlinear_arith);
    }
    lemma_shade_near(e, size, w, s, v);
}

proof fn lemma_area_turns(a: Pos2, b: Pos2, c: Pos2)
    ensures
        area_of(a, c, b) == -area_of(a, b, c),
{
}

/// The corners of a triangle are what they are called: the first is the pure hue,
/// the second white, and the third black.
pub proof fn a_triangles_corners_are_hue_white_and_black(hue: Pos2, white: Pos2, black: Pos2)
    requires
        abs_of(area_of(hue, white, black)) >= FLAT,
    ensures
        triangle_reading(hue, white, black, hue) == Some((1_000_000int, 1_000_000int)),
        triangle_reading(hue, white, black, white) == Some((0int, 1_000_000int)),
        triangle_reading(hue, white, black, black) == Some((0int, 0int)),
{
    let area = area_of(hue, white, black);
    let size = abs_of(area);
    lemma_area_flat(hue, white, black);
    assert(weights_of(hue, hue, white, black) == Some((size, 0int, 0int)));
    assert(weights_of(white, hue, white, black) == Some((0int, size, 0int)));
    assert(weights_of(black, hue, white, black) == Some((0int, 0int, size)));
    lemma_whole_share(size);
    lemma_no_share(size);
}

proof fn lemma_area_flat(a: Pos2, b: Pos2, c: Pos2)
    ensures
        area_of(a, a, c) == 0,
        area_of(a, b, a) == 0,
        area_of(a, c, c) == 0,
        area_of(a, b, b) == 0,
{
    assert(area_of(a, a, c) == 0) by (nonlinear_arith)
        requires
            area_of(a, a, c) == (a.x - a.x) * (c.y - a.y) - (c.x - a.x) * (a.y - a.y),
    ;
    assert(area_of(a, b, a) == 0) by (nonlinear_arith)
        requires
            area_of(a, b, a) == (b.x - a.x) * (a.y - a.y) - (a.x - a.x) * (b.y - a.y),
    ;
    assert(area_of(a, c, c) == 0) by (nonlinear_arith)
        requires
            area_of(a, c, c) == (c.x - a.x) * (c.y - a.y) - (c.x - a.x) * (c.y - a.y),
    ;
    assert(area_of(a, b, b) == 0) by (nonlinear_arith)
        requires
            area_of(a, b, b) == (b.x - a.x) * (b.y - a.y) - (b.x - a.x) * (b.y - a.y),
    ;
}

proof fn lemma_whole_share(size: int)
    requires
        0 < size,
    ensures
        share_of(size, size) == WHOLE,
{
    assert((2 * (size * 1_000_000) + size) / (2 * size) == 1_000_000) by (nonlinear_arith)
        requires
            0 < size,
    ;
}

proof fn lemma_no_share(size: int)
    requires
        0 < size,
    ensures
        share_of(0, size) == 0,
{
    assert((2 * (0 * 1_000_000) + size) / (2 * size) == 0) by (nonlinear_arith)
        requires
            0 < size,
    ;
}

/// Pure hue, white and black are put at the corners that are theirs.
pub proof fn corners_are_where_their_colours_are_put(hue: int, white: int, black: int, s: int)
    requires
        0 <= s <= WHOLE,
    ensures
        mixed(hue, white, black, 1_000_000, 1_000_000) == hue,
        mixed(hue, white, black, 0, 1_000_000) == white,
        mixed(hue, white, black, s, 0) == black,
{
    let m = 1_000_000_000_000int;
    assert(WHOLE * WHOLE == m);
    assert((2 * (hue * m) + m) / (2 * m) == hue);
    assert((2 * (white * m) + m) / (2 * m) == white);
    assert((2 * (black * m) + m) / (2 * m) == black);
    assert(hue * (1_000_000int * 1_000_000) + white * (1_000_000int * WHOLE - 1_000_000int
        * 1_000_000) + black * (WHOLE * WHOLE - 1_000_000int * WHOLE) == hue * m)
        by (nonlinear_arith)
        requires
            m == 1_000_000_000_000,
            WHOLE == 1_000_000,
    ;
    assert(hue * (0int * 1_000_000) + white * (1_000_000int * WHOLE - 0int * 1_000_000) + black * (
    WHOLE * WHOLE - 1_000_000int * WHOLE) == white * m) by (nonlinear_arith)
        requires
            m == 1_000_000_000_000,
            WHOLE == 1_000_000,
    ;
    assert(hue * (s * 0int) + white * (0int * WHOLE - s * 0int) + black * (WHOLE * WHOLE - 0int
        * WHOLE) == black * m) by (nonlinear_arith)
        requires
            m == 1_000_000_000_000,
            WHOLE == 1_000_000,
    ;
}

/// A triangle takes a press on the inner side of all three of its edges, the edges
/// included, and nowhere else.
pub proof fn a_triangle_takes_what_lies_within_its_edges(a: Pos2, b: Pos2, c: Pos2, pos: Pos2)
    requires
        area_of(a, b, c) >= FLAT,
    ensures
        Hub::Triangle(a, b, c).covers(pos) <==> area_of(pos, b, c) >= 0 && area_of(a, pos, c) >= 0
            && area_of(a, b, pos) >= 0,
        Hub::Triangle(a, b, c).covers(a),
        Hub::Triangle(a, b, c).covers(b),
        Hub::Triangle(a, b, c).covers(c),
{
    lemma_area_flat(a, b, c);
    let (ux, uy) = (b.x - a.x, b.y - a.y);
    let (vx, vy) = (c.x - a.x, c.y - a.y);
    let (px, py) = (pos.x - a.x, pos.y - a.y);
    assert(area_of(pos, b, c) == (ux - px) * (vy - py) - (vx - px) * (uy - py));
    assert((ux - px) * (vy - py) - (vx - px) * (uy - py) == (ux * vy - vx * uy) - (px * vy - vx * py)
        - (ux * py - px * uy)) by (nonlinear_arith);
}

/// A field takes a press as far from its middle as its semi-axes reach, measured
/// along the axes it is turned to.
pub proof fn a_field_takes_what_lies_within_its_axes(
    centre: Pos2,
    half: Vec2,
    across: Vec2,
    pos: Pos2,
)
    requires
        direction(across),
    ensures
        ({
            let (dx, dy) = (pos.x - centre.x, pos.y - centre.y);
            let u = dx * across.x + dy * across.y;
            let w = dy * across.x - dx * across.y;
            Hub::Field(centre, half, across).covers(pos) <==> -(half.x * 1_000_000) <= u <= half.x
                * 1_000_000 && -(half.y * 1_000_000) <= w <= half.y * 1_000_000
        }),
{
    let dx = pos.x - centre.x;
    assert(dx * (-across.y) == -(dx * across.y)) by (nonlinear_arith);
}

/// Saturation rises along the field and value falls down it, from nothing at one
/// edge to all of it at the other, and outside the field the nearest edge is read.
/// The middle is half of both.
pub proof fn a_field_rises_to_the_right_and_falls_downwards(
    centre: Pos2,
    half: Vec2,
    pos: Pos2,
    other: Pos2,
)
    requires
        half.x >= SLIVER,
        half.y >= SLIVER,
    ensures
        ({
            let level = Vec2 { x: 1_000_000, y: 0 };
            let (s, v) = field_reading(centre, half, level, pos);
            let (t, w) = field_reading(centre, half, level, other);
            &&& pos.x <= other.x ==> s <= t
            &&& pos.y <= other.y ==> v >= w
            &&& pos.x <= centre.x - half.x ==> s == 0
            &&& pos.x >= centre.x + half.x ==> s == 1_000_000
            &&& pos.y <= centre.y - half.y ==> v == 1_000_000
            &&& pos.y >= centre.y + half.y ==> v == 0
            &&& pos.x == centre.x ==> s == 500_000
            &&& pos.y == centre.y ==> v == 500_000
        }),
{
    let level = Vec2 { x: 1_000_000, y: 0 };
    lemma_across(pos.x - centre.x, half.x as int);
    lemma_across(-(pos.y - centre.y), half.y as int);
    lemma_across_grows(pos.x - centre.x, other.x - centre.x, half.x as int);
    lemma_across_grows(-(other.y - centre.y), -(pos.y - centre.y), half.y as int);
    assert(downwards(level) == (Vec2 { x: 0, y: 1_000_000 }));
    assert(along(centre, level, pos) == (pos.x - centre.x) * 1_000_000);
    assert(along(centre, level, other) == (other.x - centre.x) * 1_000_000);
    let (d, e) = (pos.y - centre.y, other.y - centre.y);
    assert(along(centre, downwards(level), pos) == (pos.x - centre.x) * 0 + d * 1_000_000);
    assert(along(centre, downwards(level), other) == (other.x - centre.x) * 0 + e * 1_000_000);
    assert((-d) * 1_000_000 == -(d * 1_000_000));
    assert((-e) * 1_000_000 == -(e * 1_000_000));
}

proof fn lemma_across(d: int, half: int)
    requires
        half >= SLIVER,
    ensures
        d <= -half ==> across_share(d * 1_000_000, half) == 0,
        d >= half ==> across_share(d * 1_000_000, half) == 1_000_000,
        d == 0 ==> across_share(d * 1_000_000, half) == 500_000,
{
    let h = half * 1_000_000;
    assert(max_of(half, SLIVER as int) * WHOLE == h);
    let w = 2 * h;
    assert((2 * (w * 1_000_000) + w) / (2 * w) == 1_000_000) by (nonlinear_arith)
        requires
            w > 0,
    ;
    assert((2 * (0 * 1_000_000) + w) / (2 * w) == 0) by (nonlinear_arith)
        requires
            w > 0,
    ;
    assert((2 * (h * 1_000_000) + w) / (2 * w) == 500_000) by (nonlinear_arith)
        requires
            w > 0,
            w == 2 * h,
    ;
}

proof fn lemma_across_grows(a: int, b: int, half: int)
    requires
        half >= SLIVER,
    ensures
        a <= b ==> across_share(a * 1_000_000, half) <= across_share(b * 1_000_000, half),
{
    let h = half * 1_000_000;
    assert(max_of(half, SLIVER as int) * WHOLE == h);
    let x = (clamp_of(a * 1_000_000, -h, h) + h) * 1_000_000;
    let y = (clamp_of(b * 1_000_000, -h, h) + h) * 1_000_000;
    if a <= b {
        assert((2 * x + 2 * h) / (2 * (2 * h)) <= (2 * y + 2 * h) / (2 * (2 * h)))
            by (nonlinear_arith)
            requires
                x <= y,
                h > 0,
        ;
    }
}

/// The square is inscribed in the ring, each side two points further in, and is
/// turned to its heading; the triangle's corners lie three points inside the ring,
/// along the three directions of its heading, the first of them the hue.
pub proof fn a_shape_is_inscribed_in_its_ring(
    centre: Pos2,
    inner: int,
    heading: Heading,
    mirrored: bool,
)
    requires
        100_000 <= inner <= REACH,
    ensures
        hub_for(WheelShape::Square, centre, inner, heading, mirrored) matches Hub::Field(
            middle,
            half,
            across,
        ) && middle == centre && across == heading.base && half.x == half.y && 0 <= 1_000_000
            * (half.x + 20_000) - 707_107 * inner + 500_000 <= 1_000_000,
        hub_for(WheelShape::Triangle, centre, inner, heading, mirrored) matches Hub::Triangle(
            hue,
            white,
            black,
        ) && hue == out_along(centre, inner - 30_000, heading.base) && white == out_along(
            centre,
            inner - 30_000,
            if mirrored {
                heading.two_thirds
            } else {
                heading.third
            },
        ) && black == out_along(
            centre,
            inner - 30_000,
            if mirrored {
                heading.third
            } else {
                heading.two_thirds
            },
        ),
{
    let near = nearest_of(inner * 707_107, WHOLE as int);
    assert(0 <= 1_000_000 * near - 707_107 * inner + 500_000 <= 1_000_000);
}

/// In a ring too small to inscribe anything in, the triangle's corners are still a point
/// from the middle, and so are the square's sides.
pub proof fn a_shape_in_a_tiny_ring_is_a_point(
    centre: Pos2,
    inner: int,
    heading: Heading,
    mirrored: bool,
)
    requires
        0 <= inner <= 40_000,
    ensures
        hub_for(WheelShape::Square, centre, inner, heading, mirrored) matches Hub::Field(
            middle,
            half,
            across,
        ) && middle == centre && across == heading.base && half.x == 10_000 && half.y == 10_000,
        hub_for(WheelShape::Triangle, centre, inner, heading, mirrored) matches Hub::Triangle(
            hue,
            white,
            black,
        ) && hue == out_along(centre, 10_000, heading.base),
{
    let near = nearest_of(inner * 707_107, WHOLE as int);
    assert(0 <= 1_000_000 * near - 707_107 * inner + 500_000 <= 1_000_000);
}

} // verus!
