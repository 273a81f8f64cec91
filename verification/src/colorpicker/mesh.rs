//! How the picker's meshes are put together. None of the shapes is one flat
//! colour, so each is a mesh of its own with a skirt outside it that fades to
//! nothing.

use crate::geom::{Pos2, REACH};
use crate::ratio::{nearest_div, nearest_of, WHOLE};
use crate::root::{root, root_of, roots};
use vstd::prelude::*;

verus! {

/// Two triangles between the edge from `l` to its successor and the edge from
/// `r` to its successor.
pub open spec fn quad(l: int, r: int) -> Seq<u32> {
    seq![l as u32, (l + 1) as u32, r as u32, (l + 1) as u32, (r + 1) as u32, r as u32]
}

fn push_quad(out: &mut Vec<u32>, l: u32, r: u32)
    requires
        l < u32::MAX,
        r < u32::MAX,
    ensures
        final(out)@ == old(out)@ + quad(l as int, r as int),
{
    out.push(l);
    out.push(l + 1);
    out.push(r);
    out.push(l + 1);
    out.push(r + 1);
    out.push(r);
    assert(out@ =~= old(out)@ + quad(l as int, r as int));
}

/// Whether a mesh's corners are all among its vertices.
pub open spec fn among(indices: Seq<u32>, vertices: int) -> bool {
    forall|k: int| 0 <= k < indices.len() ==> (#[trigger] indices[k]) < vertices
}

// --- the hue ring ---------------------------------------------------------------

/// Segments enough that the facets are shorter than the faded edge is wide: nine
/// tenths of the radius in points, between 96 and 320.
pub open spec fn segments_for(outer: int) -> int {
    let wanted = outer * 9 / 100_000;
    if wanted < 96 {
        96
    } else if wanted > 320 {
        320
    } else {
        wanted
    }
}

pub fn ring_segments(outer: i64) -> (r: usize)
    requires
        0 <= outer <= REACH,
    ensures
        r == segments_for(outer as int),
        96 <= r <= 320,
{
    let wanted: i64 = outer * 9 / 100_000;
    if wanted < 96 {
        96
    } else if wanted > 320 {
        320
    } else {
        wanted as usize
    }
}

/// A segment has four vertices at each end: the inner skirt, the inner edge, the
/// outer edge and the outer skirt. Three bands lie between them.
pub open spec fn ring_of(segments: int) -> Seq<u32>
    decreases segments,
{
    if segments <= 0 {
        Seq::empty()
    } else {
        let base = 8 * (segments - 1);
        ring_of(segments - 1) + quad(base, base + 4) + quad(base + 1, base + 5) + quad(
            base + 2,
            base + 6,
        )
    }
}

pub fn ring_indices(segments: usize) -> (r: Vec<u32>)
    requires
        segments <= 320,
    ensures
        r@ == ring_of(segments as int),
        among(r@, 8 * segments),
{
    let mut out: Vec<u32> = Vec::new();
    let mut done: usize = 0;
    while done < segments
        invariant
            done <= segments <= 320,
            out@ == ring_of(done as int),
        decreases segments - done,
    {
        let base: u32 = 8 * (done as u32);
        push_quad(&mut out, base, base + 4);
        push_quad(&mut out, base + 1, base + 5);
        push_quad(&mut out, base + 2, base + 6);
        done += 1;
    }
    proof {
        lemma_ring_among(segments as int);
    }
    out
}

proof fn lemma_ring_among(segments: int)
    requires
        0 <= segments <= 320,
    ensures
        among(ring_of(segments), 8 * segments),
    decreases segments,
{
    if segments > 0 {
        lemma_ring_among(segments - 1);
        assert forall|k: int| 0 <= k < ring_of(segments).len() implies (#[trigger] ring_of(
            segments,
        )[k]) < 8 * segments by {
            let before = ring_of(segments - 1);
            if k < before.len() {
                assert(ring_of(segments)[k] == before[k]);
            }
        }
    }
}

// --- the hue bar ----------------------------------------------------------------

/// A strip of `steps` pieces with two vertices at every boundary.
pub open spec fn strip_of(steps: int) -> Seq<u32>
    decreases steps,
{
    if steps <= 0 {
        Seq::empty()
    } else {
        strip_of(steps - 1) + quad(2 * (steps - 1), 2 * (steps - 1) + 2)
    }
}

pub fn strip_indices(steps: usize) -> (r: Vec<u32>)
    requires
        steps <= 1_000_000,
    ensures
        r@ == strip_of(steps as int),
        among(r@, 2 * (steps + 1)),
{
    let mut out: Vec<u32> = Vec::new();
    let mut done: usize = 0;
    while done < steps
        invariant
            done <= steps <= 1_000_000,
            out@ == strip_of(done as int),
        decreases steps - done,
    {
        let base: u32 = 2 * (done as u32);
        push_quad(&mut out, base, base + 2);
        done += 1;
    }
    proof {
        lemma_strip_among(steps as int);
    }
    out
}

proof fn lemma_strip_among(steps: int)
    requires
        0 <= steps <= 1_000_000,
    ensures
        among(strip_of(steps), 2 * (steps + 1)),
    decreases steps,
{
    if steps > 0 {
        lemma_strip_among(steps - 1);
        assert forall|k: int| 0 <= k < strip_of(steps).len() implies (#[trigger] strip_of(
            steps,
        )[k]) < 2 * (steps + 1) by {
            let before = strip_of(steps - 1);
            if k < before.len() {
                assert(strip_of(steps)[k] == before[k]);
            }
        }
    }
}

// --- the triangle -----------------------------------------------------------------

/// How far apart two points are, in thousandths of a step, squared.
pub open spec fn apart(a: Pos2, b: Pos2) -> int {
    let (x, y) = (1_000 * (a.x - b.x), 1_000 * (a.y - b.y));
    x * x + y * y
}

/// A corner of the skirt: the triangle's corner pushed out along its bisector,
/// which for an equilateral triangle is the line from the centroid, until the
/// edges have moved out by `f`: they meet there at sixty degrees, so that is
/// twice as far. A triangle squashed to nothing has no outward
/// direction and its corners stay where they are.
pub open spec fn skirted(corner: Pos2, centroid: Pos2, f: int) -> (int, int) {
    let long = root_of(apart(corner, centroid));
    if apart(corner, centroid) > 100_000_000 {
        (
            corner.x + nearest_of((corner.x - centroid.x) * (2_000 * f), long),
            corner.y + nearest_of((corner.y - centroid.y) * (2_000 * f), long),
        )
    } else {
        (corner.x as int, corner.y as int)
    }
}

/// One side of a right triangle is no longer than the longest.
proof fn lemma_side(x: int, other: int, long: int, f: int)
    requires
        roots((1_000 * x) * (1_000 * x) + other, long),
        0 <= other,
        0 <= f,
        0 < long,
    ensures
        -2 * f <= nearest_of(x * (2_000 * f), long) <= 2 * f,
{
    let t = 1_000 * x;
    let n = t * t + other;
    assert(-long <= t <= long) by (nonlinear_arith)
        requires
            0 < long,
            t * t + other < (long + 1) * (long + 1),
            0 <= other,
    ;
    let m = x * (2_000 * f);
    assert(-(2 * f * long) <= m <= 2 * f * long) by (nonlinear_arith)
        requires
            m == x * (2_000 * f),
            t == 1_000 * x,
            -long <= t <= long,
            0 <= f,
    ;
    assert(-2 * f <= (2 * m + long) / (2 * long) <= 2 * f) by (nonlinear_arith)
        requires
            -(2 * f * long) <= m <= 2 * f * long,
            0 < long,
            0 <= f,
    ;
}

pub fn skirt_corner(corner: Pos2, centroid: Pos2, f: i64) -> (r: Pos2)
    requires
        corner.in_reach(),
        centroid.in_reach(),
        0 <= f <= REACH,
    ensures
        r.x == skirted(corner, centroid, f as int).0,
        r.y == skirted(corner, centroid, f as int).1,
{
    let dx: i128 = (corner.x - centroid.x) as i128;
    let dy: i128 = (corner.y - centroid.y) as i128;
    proof {
        let (x, y, q) = (1_000 * dx as int, 1_000 * dy as int, 2_000_000_000_000_000_000int);
        assert(0 <= x * x <= q * q) by (nonlinear_arith)
            requires
                -q <= x <= q,
        ;
        assert(0 <= y * y <= q * q) by (nonlinear_arith)
            requires
                -q <= y <= q,
        ;
    }
    let squared: i128 = (1_000 * dx) * (1_000 * dx) + (1_000 * dy) * (1_000 * dy);
    assert(squared == apart(corner, centroid));
    if squared <= 100_000_000 {
        return corner;
    }
    let long: i128 = root(squared);
    proof {
        assert(long > 0) by (nonlinear_arith)
            requires
                squared > 100_000_000,
                squared < (long + 1) * (long + 1),
                long >= 0,
        ;
        let (x, y) = (dx as int, dy as int);
        let g = f as int;
        assert(0 <= (1_000 * y) * (1_000 * y)) by (nonlinear_arith);
        assert(0 <= (1_000 * x) * (1_000 * x)) by (nonlinear_arith);
        lemma_side(x, (1_000 * y) * (1_000 * y), long as int, g);
        lemma_side(y, (1_000 * x) * (1_000 * x), long as int, g);
        let q = 2_000_000_000_000_000int;
        assert(-(q * q * 1_000) <= x * (2_000 * g) <= q * q * 1_000) by (nonlinear_arith)
            requires
                -q <= x <= q,
                0 <= 2 * g <= q,
                q == 2_000_000_000_000_000,
        ;
        assert(-(q * q * 1_000) <= y * (2_000 * g) <= q * q * 1_000) by (nonlinear_arith)
            requires
                -q <= y <= q,
                0 <= 2 * g <= q,
                q == 2_000_000_000_000_000,
        ;
    }
    let by: i128 = 2_000 * (f as i128);
    Pos2 {
        x: corner.x + nearest_div(dx * by, long) as i64,
        y: corner.y + nearest_div(dy * by, long) as i64,
    }
}

/// The triangle, and a quadrilateral outside each of its edges. The first three
/// vertices are the corners and the next three their places in the skirt.
pub open spec fn skirted_triangle() -> Seq<u32> {
    seq![
        0u32, 1, 2, 0, 1, 4, 0, 4, 3, 1, 2, 5, 1, 5, 4, 2, 0, 3, 2, 3, 5,
    ]
}

pub fn triangle_indices() -> (r: Vec<u32>)
    ensures
        r@ == skirted_triangle(),
        among(r@, 6),
{
    let mut out: Vec<u32> = vec![0, 1, 2];
    let mut i: u32 = 0;
    while i < 3
        invariant
            i <= 3,
            out@ == skirted_triangle().take(3 + 6 * i),
        decreases 3 - i,
    {
        let j: u32 = (i + 1) % 3;
        out.push(i);
        out.push(j);
        out.push(j + 3);
        out.push(i);
        out.push(j + 3);
        out.push(i + 3);
        assert(out@ =~= skirted_triangle().take(3 + 6 * (i + 1)));
        i += 1;
    }
    assert(out@ =~= skirted_triangle());
    out
}

// --- the field ----------------------------------------------------------------------

/// One axis of the field's grid of `n` cells: the place along it, from one end
/// at minus a whole to the other at a whole, and how far out of the field this
/// row or column sits. The first and the last are the skirt.
pub open spec fn edge_of(i: int, n: int) -> (int, int) {
    if i == 0 {
        (-WHOLE, -1)
    } else if i == n + 2 {
        (WHOLE as int, 1)
    } else {
        (nearest_of((2 * (i - 1) - n) * WHOLE, n), 0)
    }
}

pub fn field_edge(i: usize, n: usize) -> (r: (i64, i64))
    requires
        0 < n <= 1_000_000,
        i <= n + 2,
    ensures
        r.0 == edge_of(i as int, n as int).0,
        r.1 == edge_of(i as int, n as int).1,
        -WHOLE <= r.0 <= WHOLE,
{
    if i == 0 {
        (-1_000_000, -1)
    } else if i == n + 2 {
        (1_000_000, 1)
    } else {
        let along: i128 = 2 * ((i - 1) as i128) - (n as i128);
        proof {
            let (m, d, w) = (along as int, n as int, 1_000_000int);
            assert(-w <= (2 * (m * w) + d) / (2 * d) <= w) by (nonlinear_arith)
                requires
                    d > 0,
                    -d <= m <= d,
                    w == 1_000_000,
            ;
        }
        (nearest_div(along * 1_000_000, n as i128) as i64, 0)
    }
}

/// One row of cells of a grid with `stride` vertices to a row.
pub open spec fn row_of(top: int, cells: int, stride: int) -> Seq<u32>
    decreases cells,
{
    if cells <= 0 {
        Seq::empty()
    } else {
        let i = top * stride + cells - 1;
        row_of(top, cells - 1, stride) + quad(i, i + stride)
    }
}

pub open spec fn rows_of(rows: int, cells: int, stride: int) -> Seq<u32>
    decreases rows,
{
    if rows <= 0 {
        Seq::empty()
    } else {
        rows_of(rows - 1, cells, stride) + row_of(rows - 1, cells, stride)
    }
}

/// A grid of `n` cells a side with a row or column of skirt on every side.
pub open spec fn field_mesh(n: int) -> Seq<u32> {
    rows_of(n + 2, n + 2, n + 3)
}

pub fn field_indices(n: usize) -> (r: Vec<u32>)
    requires
        n <= 1_000,
    ensures
        r@ == field_mesh(n as int),
        among(r@, (n + 3) * (n + 3)),
{
    let steps: u32 = n as u32 + 2;
    let stride: u32 = steps + 1;
    let mut out: Vec<u32> = Vec::new();
    let mut y: u32 = 0;
    while y < steps
        invariant
            y <= steps <= 1_002,
            stride == steps + 1,
            out@ == rows_of(y as int, steps as int, stride as int),
        decreases steps - y,
    {
        let mut x: u32 = 0;
        let ghost before = out@;
        assert(out@ =~= before + row_of(y as int, 0, stride as int));
        while x < steps
            invariant
                x <= steps <= 1_002,
                y < steps,
                stride == steps + 1,
                out@ == before + row_of(y as int, x as int, stride as int),
            decreases steps - x,
        {
            assert(0 <= y * stride <= 1_002 * 1_003) by (nonlinear_arith)
                requires
                    0 <= y <= 1_002,
                    0 <= stride <= 1_003,
            ;
            let i: u32 = y * stride + x;
            push_quad(&mut out, i, i + stride);
            x += 1;
            assert(out@ =~= before + row_of(y as int, x as int, stride as int));
        }
        y += 1;
    }
    proof {
        lemma_rows_among(steps as int, steps as int, stride as int);
    }
    out
}

proof fn lemma_row_among(top: int, cells: int, stride: int)
    requires
        0 <= cells < stride <= 1_003,
        0 <= top <= 1_002,
    ensures
        among(row_of(top, cells, stride), (top + 2) * stride),
    decreases cells,
{
    if cells > 0 {
        lemma_row_among(top, cells - 1, stride);
        let i = top * stride + cells - 1;
        assert((top + 2) * stride == top * stride + 2 * stride) by (nonlinear_arith);
        assert(0 <= top * stride <= 1_002 * 1_003) by (nonlinear_arith)
            requires
                0 <= top <= 1_002,
                0 <= stride <= 1_003,
        ;
        assert forall|k: int| 0 <= k < row_of(top, cells, stride).len() implies (#[trigger] row_of(
            top,
            cells,
            stride,
        )[k]) < (top + 2) * stride by {
            let before = row_of(top, cells - 1, stride);
            if k < before.len() {
                assert(row_of(top, cells, stride)[k] == before[k]);
            }
        }
    }
}

proof fn lemma_rows_among(rows: int, cells: int, stride: int)
    requires
        0 <= cells < stride <= 1_003,
        0 <= rows <= 1_002,
    ensures
        among(rows_of(rows, cells, stride), (rows + 1) * stride),
    decreases rows,
{
    if rows > 0 {
        lemma_rows_among(rows - 1, cells, stride);
        lemma_row_among(rows - 1, cells, stride);
        assert(rows * stride <= (rows + 1) * stride) by (nonlinear_arith)
            requires
                stride >= 0,
        ;
        assert forall|k: int| 0 <= k < rows_of(rows, cells, stride).len() implies (
        #[trigger] rows_of(rows, cells, stride)[k]) < (rows + 1) * stride by {
            let before = rows_of(rows - 1, cells, stride);
            let last = row_of(rows - 1, cells, stride);
            if k < before.len() {
                assert(rows_of(rows, cells, stride)[k] == before[k]);
            } else {
                assert(rows_of(rows, cells, stride)[k] == last[k - before.len()]);
            }
        }
    }
}

/// A ring has three bands of two triangles between the two ends of each segment,
/// and a segment's corners are its own eight: corner by corner, those of band `b`
/// of segment `s`.
pub proof fn a_ring_is_three_bands_a_segment(segments: int, s: int, b: int)
    requires
        0 <= s < segments <= 320,
        0 <= b < 3,
    ensures
        ({
            let (all, at, from) = (ring_of(segments), 18 * s + 6 * b, 8 * s + b);
            &&& all.len() == 18 * segments
            &&& all[at] == from && all[at + 1] == from + 1 && all[at + 2] == from + 4
            &&& all[at + 3] == from + 1 && all[at + 4] == from + 5 && all[at + 5] == from + 4
        }),
    decreases segments,
{
    lemma_ring_len(segments - 1);
    let before = ring_of(segments - 1);
    let all = ring_of(segments);
    let base = 8 * (segments - 1);
    if s < segments - 1 {
        a_ring_is_three_bands_a_segment(segments - 1, s, b);
        assert forall|k: int| 0 <= k < before.len() implies all[k] == before[k] by {}
    } else {
        let n = before.len() as int;
        assert forall|k: int| 0 <= k < 6 implies #[trigger] all[n + k] == quad(
            base,
            base + 4,
        )[k] && all[n + 6 + k] == quad(base + 1, base + 5)[k] && all[n + 12 + k] == quad(
            base + 2,
            base + 6,
        )[k] by {}
        assert(all[n + 0] == quad(base, base + 4)[0]);
        assert(all[n + 1] == quad(base, base + 4)[1]);
        assert(all[n + 2] == quad(base, base + 4)[2]);
        assert(all[n + 3] == quad(base, base + 4)[3]);
        assert(all[n + 4] == quad(base, base + 4)[4]);
        assert(all[n + 5] == quad(base, base + 4)[5]);
    }
}

proof fn lemma_ring_len(segments: int)
    requires
        0 <= segments,
    ensures
        ring_of(segments).len() == 18 * segments,
    decreases segments,
{
    if segments > 0 {
        lemma_ring_len(segments - 1);
    }
}

/// A strip has two triangles a piece, between the two vertices at its start and
/// the two at its end.
pub proof fn a_strip_is_a_quadrilateral_a_piece(steps: int, s: int)
    requires
        0 <= s < steps <= 1_000_000,
    ensures
        ({
            let (all, at, from) = (strip_of(steps), 6 * s, 2 * s);
            &&& all.len() == 6 * steps
            &&& all[at] == from && all[at + 1] == from + 1 && all[at + 2] == from + 2
            &&& all[at + 3] == from + 1 && all[at + 4] == from + 3 && all[at + 5] == from + 2
        }),
    decreases steps,
{
    lemma_strip_len(steps - 1);
    let before = strip_of(steps - 1);
    let all = strip_of(steps);
    if s < steps - 1 {
        a_strip_is_a_quadrilateral_a_piece(steps - 1, s);
        assert forall|k: int| 0 <= k < before.len() implies all[k] == before[k] by {}
    } else {
        let n = before.len() as int;
        let q = quad(2 * (steps - 1), 2 * (steps - 1) + 2);
        assert(all[n] == q[0] && all[n + 1] == q[1] && all[n + 2] == q[2]);
        assert(all[n + 3] == q[3] && all[n + 4] == q[4] && all[n + 5] == q[5]);
    }
}

proof fn lemma_strip_len(steps: int)
    requires
        0 <= steps,
    ensures
        strip_of(steps).len() == 6 * steps,
    decreases steps,
{
    if steps > 0 {
        lemma_strip_len(steps - 1);
    }
}

/// A grid has two triangles a cell, between its two vertices in one row and the
/// two below them in the next.
pub proof fn a_grid_is_a_quadrilateral_a_cell(n: int, y: int, x: int)
    requires
        0 < n <= 1_000,
        0 <= y < n + 2,
        0 <= x < n + 2,
    ensures
        ({
            let (all, at, from) = (field_mesh(n), 6 * (y * (n + 2) + x), y * (n + 3) + x);
            &&& all.len() == 6 * ((n + 2) * (n + 2))
            &&& 0 <= at && at + 5 < all.len()
            &&& all[at] == from && all[at + 1] == from + 1 && all[at + 2] == from + n + 3
            &&& all[at + 3] == from + 1 && all[at + 4] == from + n + 4 && all[at + 5] == from + n
                + 3
        }),
{
    lemma_grid(n + 2, n + 2, n + 3, y, x);
}

proof fn lemma_row(top: int, cells: int, stride: int, x: int)
    requires
        0 <= cells < stride <= 1_003,
        0 <= top <= 1_002,
        0 <= x < cells,
    ensures
        ({
            let (all, from) = (row_of(top, cells, stride), top * stride + x);
            &&& all.len() == 6 * cells
            &&& all[6 * x] == from && all[6 * x + 1] == from + 1 && all[6 * x + 2] == from + stride
            &&& all[6 * x + 3] == from + 1 && all[6 * x + 4] == from + stride + 1 && all[6 * x + 5]
                == from + stride
        }),
    decreases cells,
{
    lemma_row_len(top, cells - 1, stride);
    let before = row_of(top, cells - 1, stride);
    let all = row_of(top, cells, stride);
    assert(0 <= top * stride <= 1_002 * 1_003) by (nonlinear_arith)
        requires
            0 <= top <= 1_002,
            0 <= stride <= 1_003,
    ;
    if x < cells - 1 {
        lemma_row(top, cells - 1, stride, x);
        assert forall|k: int| 0 <= k < before.len() implies all[k] == before[k] by {}
    } else {
        let i = top * stride + cells - 1;
        let n = before.len() as int;
        let q = quad(i, i + stride);
        assert(all[n] == q[0] && all[n + 1] == q[1] && all[n + 2] == q[2]);
        assert(all[n + 3] == q[3] && all[n + 4] == q[4] && all[n + 5] == q[5]);
    }
}

proof fn lemma_row_len(top: int, cells: int, stride: int)
    requires
        0 <= cells,
    ensures
        row_of(top, cells, stride).len() == 6 * cells,
    decreases cells,
{
    if cells > 0 {
        lemma_row_len(top, cells - 1, stride);
    }
}

proof fn lemma_grid(rows: int, cells: int, stride: int, y: int, x: int)
    requires
        0 <= y < rows <= 1_002,
        0 <= x < cells < stride <= 1_003,
    ensures
        ({
            let (all, at, from) = (rows_of(rows, cells, stride), 6 * (y * cells + x), y * stride + x);
            &&& all.len() == 6 * (rows * cells)
            &&& 0 <= at && at + 5 < all.len()
            &&& all[at] == from && all[at + 1] == from + 1 && all[at + 2] == from + stride
            &&& all[at + 3] == from + 1 && all[at + 4] == from + stride + 1 && all[at + 5] == from
                + stride
        }),
    decreases rows,
{
    lemma_grid_len(rows - 1, cells, stride);
    lemma_grid_len(rows, cells, stride);
    let before = rows_of(rows - 1, cells, stride);
    let last = row_of(rows - 1, cells, stride);
    let all = rows_of(rows, cells, stride);
    assert(0 <= y * cells) by (nonlinear_arith)
        requires
            0 <= y,
            0 <= cells,
    ;
    if y < rows - 1 {
        lemma_grid(rows - 1, cells, stride, y, x);
        assert forall|k: int| 0 <= k < before.len() implies all[k] == before[k] by {}
        assert((rows - 1) * cells <= rows * cells) by (nonlinear_arith)
            requires
                cells >= 0,
        ;
    } else {
        lemma_row(rows - 1, cells, stride, x);
        let n = before.len() as int;
        assert forall|k: int| 0 <= k < last.len() implies all[n + k] == #[trigger] last[k] by {}
        assert(y * cells + cells == rows * cells) by (nonlinear_arith)
            requires
                y == rows - 1,
        ;
        assert(last[6 * x] == all[n + 6 * x] && last[6 * x + 1] == all[n + 6 * x + 1]);
        assert(last[6 * x + 2] == all[n + 6 * x + 2] && last[6 * x + 3] == all[n + 6 * x + 3]);
        assert(last[6 * x + 4] == all[n + 6 * x + 4] && last[6 * x + 5] == all[n + 6 * x + 5]);
    }
}

proof fn lemma_grid_len(rows: int, cells: int, stride: int)
    requires
        0 <= rows,
        0 <= cells,
    ensures
        rows_of(rows, cells, stride).len() == 6 * (rows * cells),
    decreases rows,
{
    if rows > 0 {
        lemma_grid_len(rows - 1, cells, stride);
        lemma_row_len(rows - 1, cells, stride);
        assert((rows - 1) * cells + cells == rows * cells) by (nonlinear_arith);
    } else {
        assert(0 * cells == 0) by (nonlinear_arith);
    }
}

/// The rows and columns of a field run from one edge to the other, evenly, and only
/// the first and the last lie outside it, at the edges they fade from.
pub proof fn a_fields_rows_run_edge_to_edge(i: int, n: int)
    requires
        0 < n,
        0 <= i <= n + 2,
    ensures
        i == 0 ==> edge_of(i, n) == (-1_000_000int, -1int),
        i == n + 2 ==> edge_of(i, n) == (1_000_000int, 1int),
        0 < i < n + 2 ==> edge_of(i, n).1 == 0 && -n <= 2 * (edge_of(i, n).0 * n - (2 * (i - 1) - n)
            * 1_000_000) <= n,
        edge_of(1, n).0 == -1_000_000,
        edge_of(n + 1, n).0 == 1_000_000,
{
    let m = (2 * (i - 1) - n) * 1_000_000;
    let q = nearest_of(m, n);
    assert(-n <= 2 * (q * n - m) <= n) by (nonlinear_arith)
        requires
            q == (2 * m + n) / (2 * n),
            n > 0,
    ;
    assert((2 * (-n * 1_000_000) + n) / (2 * n) == -1_000_000) by (nonlinear_arith)
        requires
            n > 0,
    ;
    assert((2 * (n * 1_000_000) + n) / (2 * n) == 1_000_000) by (nonlinear_arith)
        requires
            n > 0,
    ;
}

/// A ring is drawn in nine segments for every ten points of its radius, between 96
/// and 320 of them.
pub proof fn a_larger_ring_has_more_segments(outer: int)
    requires
        0 <= outer,
    ensures
        96 <= segments_for(outer) <= 320,
        96 < segments_for(outer) < 320 ==> 100_000 * segments_for(outer) <= 9 * outer < 100_000
            * segments_for(outer) + 100_000,
        9 * outer < 97 * 100_000 <==> segments_for(outer) == 96,
        9 * outer >= 320 * 100_000 <==> segments_for(outer) == 320,
{
}

/// A corner of the skirt lies out from the middle, beyond the corner it fades
/// from, by twice how far the edges move; and a triangle squashed to nothing keeps
/// its corners.
pub proof fn a_skirt_lies_outside(corner: Pos2, centroid: Pos2, f: int)
    requires
        0 <= f,
    ensures
        ({
            let (x, y) = skirted(corner, centroid, f);
            let (dx, dy) = (corner.x - centroid.x, corner.y - centroid.y);
            let long = root_of(apart(corner, centroid));
            &&& apart(corner, centroid) <= 100_000_000 ==> x == corner.x && y == corner.y
            &&& apart(corner, centroid) > 100_000_000 && long > 0 ==> {
                &&& dx >= 0 ==> x >= corner.x
                &&& dx <= 0 ==> x <= corner.x
                &&& dy >= 0 ==> y >= corner.y
                &&& dy <= 0 ==> y <= corner.y
                &&& -long <= 2 * ((x - corner.x) * long - dx * (2_000 * f)) <= long
                &&& -long <= 2 * ((y - corner.y) * long - dy * (2_000 * f)) <= long
            }
        }),
{
    let (dx, dy) = (corner.x - centroid.x, corner.y - centroid.y);
    let long = root_of(apart(corner, centroid));
    if apart(corner, centroid) > 100_000_000 && long > 0 {
        lemma_out(dx, f, long);
        lemma_out(dy, f, long);
    }
}

proof fn lemma_out(d: int, f: int, long: int)
    requires
        0 <= f,
        0 < long,
    ensures
        ({
            let q = nearest_of(d * (2_000 * f), long);
            &&& d >= 0 ==> q >= 0
            &&& d <= 0 ==> q <= 0
            &&& -long <= 2 * (q * long - d * (2_000 * f)) <= long
        }),
{
    let m = d * (2_000 * f);
    assert(d >= 0 ==> m >= 0) by (nonlinear_arith)
        requires
            m == d * (2_000 * f),
            f >= 0,
    ;
    assert(d <= 0 ==> m <= 0) by (nonlinear_arith)
        requires
            m == d * (2_000 * f),
            f >= 0,
    ;
    let q = nearest_of(m, long);
    assert(-long <= 2 * (q * long - m) <= long) by (nonlinear_arith)
        requires
            q == (2 * m + long) / (2 * long),
            long > 0,
    ;
    assert(m >= 0 ==> q >= 0) by (nonlinear_arith)
        requires
            -long <= 2 * (q * long - m) <= long,
            long > 0,
            q == (2 * m + long) / (2 * long),
    ;
    assert(m <= 0 ==> q <= 0) by (nonlinear_arith)
        requires
            -long <= 2 * (q * long - m) <= long,
            long > 0,
            q == (2 * m + long) / (2 * long),
    ;
}

/// The skirt of a triangle is a quadrilateral outside each edge: from one corner
/// to the next, and from the place of the one in the skirt to that of the other.
pub proof fn a_triangles_skirt_goes_round_it(edge: int)
    requires
        0 <= edge < 3,
    ensures
        ({
            let (all, at, next) = (skirted_triangle(), 3 + 6 * edge, (edge + 1) % 3);
            &&& all.len() == 21
            &&& all[0] == 0 && all[1] == 1 && all[2] == 2
            &&& all[at] == edge && all[at + 1] == next && all[at + 2] == next + 3
            &&& all[at + 3] == edge && all[at + 4] == next + 3 && all[at + 5] == edge + 3
        }),
{
}

/// How far apart two points are, squared: the same either way, and by Pythagoras in
/// thousandths of a step.
pub proof fn a_distance_is_the_same_either_way(a: Pos2, b: Pos2)
    ensures
        apart(a, b) == apart(b, a),
        apart(a, b) == 1_000_000 * ((a.x - b.x) * (a.x - b.x) + (a.y - b.y) * (a.y - b.y)),
{
    let (x, y) = (a.x - b.x, a.y - b.y);
    assert((1_000 * x) * (1_000 * x) == 1_000_000 * (x * x)) by (nonlinear_arith);
    assert((1_000 * y) * (1_000 * y) == 1_000_000 * (y * y)) by (nonlinear_arith);
    assert((1_000 * (b.x - a.x)) * (1_000 * (b.x - a.x)) == 1_000_000 * (x * x)) by (nonlinear_arith)
        requires
            x == a.x - b.x,
    ;
    assert((1_000 * (b.y - a.y)) * (1_000 * (b.y - a.y)) == 1_000_000 * (y * y)) by (nonlinear_arith)
        requires
            y == a.y - b.y,
    ;
}

} // verus!
