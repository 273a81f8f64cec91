//! Small symbols the settings page needs, each authored against a square box.

use crate::geom::{Pos2, Rect, REACH};
use vstd::prelude::*;

verus! {

#[derive(Clone, Copy, Debug, PartialEq, Eq, Structural)]
pub enum Glyph {
    Plus,
    Close,
    /// A circular arrow: restore the default.
    Revert,
    /// A triangle with a bang: this chord is bound twice.
    Warning,
    /// A magnifier.
    Search,
}

/// The box a glyph is drawn in: its middle, its side and the width of its line.
#[derive(Clone, Copy, Debug, PartialEq, Eq, Structural)]
pub struct GlyphBox {
    pub centre: Pos2,
    pub size: i64,
    pub line: i64,
}

/// The shorter side of a rectangle.
pub open spec fn side_of(rect: Rect) -> int {
    if rect.wide() <= rect.tall() {
        rect.wide()
    } else {
        rect.tall()
    }
}

pub open spec fn centre_of(rect: Rect) -> Pos2 {
    Pos2 {
        x: ((rect.min.x + rect.max.x) / 2) as i64,
        y: ((rect.min.y + rect.max.y) / 2) as i64,
    }
}

/// The box for a rectangle, with a line a part of its side wide and never less
/// than a point. A point or less has room for nothing.
pub open spec fn box_of(rect: Rect, parts: int) -> Option<GlyphBox> {
    let size = side_of(rect);
    if size <= 10_000 {
        None
    } else {
        Some(
            GlyphBox {
                centre: centre_of(rect),
                size: size as i64,
                line: if size / parts >= 10_000 {
                    (size / parts) as i64
                } else {
                    10_000
                },
            },
        )
    }
}

pub fn glyph_box(rect: Rect, parts: i64) -> (r: Option<GlyphBox>)
    requires
        rect.in_reach(),
        0 < parts <= 100,
    ensures
        r == box_of(rect, parts as int),
        r matches Some(b) ==> b.centre.in_reach() && 10_000 < b.size <= 2 * REACH && 10_000
            <= b.line <= 2 * REACH,
{
    let wide: i64 = rect.max.x - rect.min.x;
    let tall: i64 = rect.max.y - rect.min.y;
    let size: i64 = if wide <= tall {
        wide
    } else {
        tall
    };
    if size <= 10_000 {
        return None;
    }
    let line: i64 = if size / parts >= 10_000 {
        size / parts
    } else {
        10_000
    };
    proof {
        assert(size as int / parts as int <= size) by (nonlinear_arith)
            requires
                size > 0,
                parts > 0,
        ;
    }
    Some(
        GlyphBox {
            centre: Pos2 { x: rect.min.x + wide / 2, y: rect.min.y + tall / 2 },
            size,
            line,
        },
    )
}

/// So many hundredths of a length.
pub open spec fn hundredths(size: int, n: int) -> int {
    size * n / 100
}

fn part(size: i64, n: i64) -> (r: i64)
    requires
        0 <= size <= 2 * REACH,
        0 <= n <= 100,
    ensures
        r == hundredths(size as int, n as int),
        0 <= r <= size,
{
    proof {
        assert(0 <= size * n <= size * 100) by (nonlinear_arith)
            requires
                0 <= size,
                0 <= n <= 100,
        ;
    }
    size * n / 100
}

/// A ring with a tail.
#[derive(Clone, Copy, Debug, PartialEq, Eq, Structural)]
pub struct SearchGlyph {
    pub ring: Pos2,
    pub radius: i64,
    pub tail_from: Pos2,
    pub tail_to: Pos2,
}

pub open spec fn search_shape(b: GlyphBox) -> SearchGlyph {
    let (size, c) = (b.size as int, b.centre);
    let back = hundredths(size, 6);
    let radius = hundredths(size, 27);
    let out = hundredths(radius, 72);
    let tail = hundredths(size, 36);
    SearchGlyph {
        ring: Pos2 { x: (c.x - back) as i64, y: (c.y - back) as i64 },
        radius: radius as i64,
        tail_from: Pos2 { x: (c.x - back + out) as i64, y: (c.y - back + out) as i64 },
        tail_to: Pos2 { x: (c.x + tail) as i64, y: (c.y + tail) as i64 },
    }
}

pub fn search(b: GlyphBox) -> (r: SearchGlyph)
    requires
        b.centre.in_reach(),
        0 < b.size <= 2 * REACH,
    ensures
        r == search_shape(b),
{
    let back: i64 = part(b.size, 6);
    let radius: i64 = part(b.size, 27);
    let out: i64 = part(radius, 72);
    let tail: i64 = part(b.size, 36);
    let ring = Pos2 { x: b.centre.x - back, y: b.centre.y - back };
    SearchGlyph {
        ring,
        radius,
        tail_from: Pos2 { x: ring.x + out, y: ring.y + out },
        tail_to: Pos2 { x: b.centre.x + tail, y: b.centre.y + tail },
    }
}

/// A triangle with a bar and a dot inside it.
#[derive(Clone, Copy, Debug, PartialEq, Eq, Structural)]
pub struct WarningGlyph {
    pub apex: Pos2,
    pub right: Pos2,
    pub left: Pos2,
    pub bar_from: Pos2,
    pub bar_to: Pos2,
    pub dot: Pos2,
    pub dot_radius: i64,
}

pub open spec fn warning_shape(b: GlyphBox) -> WarningGlyph {
    let (size, c) = (b.size as int, b.centre);
    let h = hundredths(size, 38);
    let w = hundredths(size, 44);
    let foot = (c.y + hundredths(h, 75)) as i64;
    WarningGlyph {
        apex: Pos2 { x: c.x, y: (c.y - h) as i64 },
        right: Pos2 { x: (c.x + w) as i64, y: foot },
        left: Pos2 { x: (c.x - w) as i64, y: foot },
        bar_from: Pos2 { x: c.x, y: (c.y - hundredths(h, 25)) as i64 },
        bar_to: Pos2 { x: c.x, y: (c.y + hundredths(h, 20)) as i64 },
        dot: Pos2 { x: c.x, y: (c.y + hundredths(h, 48)) as i64 },
        dot_radius: hundredths(b.line as int, 60) as i64,
    }
}

pub fn warning(b: GlyphBox) -> (r: WarningGlyph)
    requires
        b.centre.in_reach(),
        0 < b.size <= 2 * REACH,
        0 < b.line <= 2 * REACH,
    ensures
        r == warning_shape(b),
{
    let c = b.centre;
    let h: i64 = part(b.size, 38);
    let w: i64 = part(b.size, 44);
    let foot: i64 = c.y + part(h, 75);
    WarningGlyph {
        apex: Pos2 { x: c.x, y: c.y - h },
        right: Pos2 { x: c.x + w, y: foot },
        left: Pos2 { x: c.x - w, y: foot },
        bar_from: Pos2 { x: c.x, y: c.y - part(h, 25) },
        bar_to: Pos2 { x: c.x, y: c.y + part(h, 20) },
        dot: Pos2 { x: c.x, y: c.y + part(h, 48) },
        dot_radius: part(b.line, 60),
    }
}

/// The arc of the circular arrow and its head: the radius, and how long the
/// head's two strokes are.
pub open spec fn revert_shape(b: GlyphBox) -> (int, int) {
    (hundredths(b.size as int, 34), hundredths(b.size as int, 18))
}

pub fn revert(b: GlyphBox) -> (r: (i64, i64))
    requires
        0 < b.size <= 2 * REACH,
    ensures
        r.0 == revert_shape(b).0,
        r.1 == revert_shape(b).1,
{
    (part(b.size, 34), part(b.size, 18))
}

/// A glyph is drawn in the largest square in the middle of the room it is given,
/// with a line never thinner than a point, and there is one wherever there is more
/// than a point of room.
pub proof fn a_glyph_sits_in_the_middle_of_its_room(rect: Rect, parts: int)
    requires
        rect.in_reach(),
        0 < parts <= 100,
    ensures
        ({
            let drawn = box_of(rect, parts);
            &&& drawn is Some <==> rect.wide() > 10_000 && rect.tall() > 10_000
            &&& drawn matches Some(b) ==> {
                &&& 0 <= rect.min.x + rect.max.x - 2 * b.centre.x <= 1
                &&& 0 <= rect.min.y + rect.max.y - 2 * b.centre.y <= 1
                &&& b.size <= rect.wide() && b.size <= rect.tall()
                &&& b.size == rect.wide() || b.size == rect.tall()
                &&& b.line >= 10_000
                &&& b.line > 10_000 ==> b.line * parts <= b.size < b.line * parts + parts
                &&& b.line == 10_000 ==> b.size < 10_001 * parts
            }
        }),
{
    if let Some(b) = box_of(rect, parts) {
        let (size, q) = (b.size as int, b.size as int / parts);
        assert(q * parts <= size < q * parts + parts && q <= size) by (nonlinear_arith)
            requires
                q == size / parts,
                parts > 0,
                size >= 0,
        ;
        if q < 10_001 {
            assert(q * parts + parts <= 10_001 * parts) by (nonlinear_arith)
                requires
                    q < 10_001,
                    parts > 0,
            ;
        }
    }
}

/// The magnifier is a ring up and to the left of the middle, with a tail that runs
/// from its rim down and to the right, all of it inside the box.
pub proof fn the_magnifier_leans_right(b: GlyphBox)
    requires
        b.centre.in_reach(),
        10_000 < b.size <= 2 * REACH,
    ensures
        ({
            let (shape, c, size) = (search_shape(b), b.centre, b.size as int);
            &&& 100 * (c.x - shape.ring.x) <= 6 * size < 100 * (c.x - shape.ring.x) + 100
            &&& c.y - shape.ring.y == c.x - shape.ring.x
            &&& 100 * shape.radius <= 27 * size < 100 * shape.radius + 100
            &&& shape.tail_from.x - shape.ring.x == shape.tail_from.y - shape.ring.y
            &&& 100 * (shape.tail_from.x - shape.ring.x) <= 72 * shape.radius < 100 * (
            shape.tail_from.x - shape.ring.x) + 100
            &&& shape.tail_to.x - c.x == shape.tail_to.y - c.y
            &&& 100 * (shape.tail_to.x - c.x) <= 36 * size < 100 * (shape.tail_to.x - c.x) + 100
            &&& 2 * (c.x - (shape.ring.x - shape.radius)) <= size
            &&& 2 * (shape.tail_to.x - c.x) <= size
        }),
{
    lemma_hundredths(b.size as int);
    lemma_hundredths(search_shape(b).radius as int);
}

proof fn lemma_hundredths(size: int)
    requires
        0 <= size <= 2 * REACH,
    ensures
        forall|n: int|
            0 <= n <= 100 ==> 100 * #[trigger] hundredths(size, n) <= size * n < 100 * hundredths(
                size,
                n,
            ) + 100 && 0 <= hundredths(size, n) <= size,
{
    assert forall|n: int| 0 <= n <= 100 implies 100 * #[trigger] hundredths(size, n) <= size * n
        < 100 * hundredths(size, n) + 100 && 0 <= hundredths(size, n) <= size by {
        assert(0 <= size * n <= size * 100) by (nonlinear_arith)
            requires
                0 <= n <= 100,
                0 <= size,
        ;
    }
}

/// The warning is a triangle that stands on its foot, even about the middle, with
/// a bar inside it and a dot under the bar.
pub proof fn the_warning_stands_upright(b: GlyphBox)
    requires
        b.centre.in_reach(),
        10_000 < b.size <= 2 * REACH,
        10_000 <= b.line <= 2 * REACH,
    ensures
        ({
            let (shape, c, size) = (warning_shape(b), b.centre, b.size as int);
            let (high, low) = (c.y - shape.apex.y, shape.left.y - c.y);
            &&& shape.apex.x == c.x
            &&& shape.bar_from.x == c.x && shape.bar_to.x == c.x && shape.dot.x == c.x
            &&& shape.right.x - c.x == c.x - shape.left.x
            &&& shape.right.y == shape.left.y
            &&& 100 * high <= 38 * size < 100 * high + 100
            &&& 100 * (shape.right.x - c.x) <= 44 * size < 100 * (shape.right.x - c.x) + 100
            &&& 100 * low <= 75 * high < 100 * low + 100
            &&& 100 * (c.y - shape.bar_from.y) <= 25 * high < 100 * (c.y - shape.bar_from.y) + 100
            &&& 100 * (shape.bar_to.y - c.y) <= 20 * high < 100 * (shape.bar_to.y - c.y) + 100
            &&& 100 * (shape.dot.y - c.y) <= 48 * high < 100 * (shape.dot.y - c.y) + 100
            &&& 100 * shape.dot_radius <= 60 * b.line < 100 * shape.dot_radius + 100
            &&& shape.apex.y < shape.bar_from.y < shape.bar_to.y < shape.dot.y < shape.left.y
        }),
{
    lemma_hundredths(b.size as int);
    lemma_hundredths(b.line as int);
    lemma_hundredths(hundredths(b.size as int, 38));
}

/// The circular arrow's radius is a third of the box and its head half as long,
/// each to the hundredth.
pub proof fn the_arrow_fits_its_box(b: GlyphBox)
    requires
        0 < b.size <= 2 * REACH,
    ensures
        100 * revert_shape(b).0 <= 34 * b.size < 100 * revert_shape(b).0 + 100,
        100 * revert_shape(b).1 <= 18 * b.size < 100 * revert_shape(b).1 + 100,
{
    lemma_hundredths(b.size as int);
}

} // verus!
