//! How the panels of one column share its height.
//!
//! Heights are shared out on a step far finer than the grid: [`FINE`] of them to
//! a grid step. What rounding loses of a column is then out of sight however many
//! panels stand in it.

use crate::dock::limits::{PANEL_MIN_HEIGHT, WEIGHT_LIMIT};
use crate::geom::{max_of, POINT, REACH};
use vstd::prelude::*;

verus! {

/// How many of the steps that heights are shared out in make one grid step.
pub const FINE: i128 = 1_000_000_000_000_000_000;

/// The most that the weights of one column may add up to.
pub const WEIGHT_ROOM: i128 = 100_000_000_000_000_000_000;

/// A length on the grid, in fine steps.
pub open spec fn fine(v: int) -> int {
    v * 1_000_000_000_000_000_000
}

/// The length on the grid nearest to one in fine steps; half a step goes up.
pub open spec fn settled(v: int) -> int {
    (v + 500_000_000_000_000_000) / 1_000_000_000_000_000_000
}

/// Bring a length in fine steps to the grid.
pub fn settle(v: i128) -> (r: i64)
    requires
        0 <= v <= fine(16 * REACH),
    ensures
        r == settled(v as int),
{
    ((v + FINE / 2) / FINE) as i64
}

/// The first `n` weights together, a negative one counting for nothing.
pub open spec fn weight_sum(weights: Seq<i64>, n: int) -> int
    decreases n,
{
    if n <= 0 {
        0
    } else {
        weight_sum(weights, n - 1) + max_of(weights[n - 1] as int, 0)
    }
}

/// Whether the panels share equally: there is too little room for the minimums,
/// or next to no weight anywhere.
pub open spec fn equal_shares(weights: Seq<i64>, available: int) -> bool {
    available <= PANEL_MIN_HEIGHT * weights.len() || weight_sum(weights, weights.len() as int) <= 1
}

/// What there is to share beyond the minimums.
pub open spec fn beyond_minimums(weights: Seq<i64>, available: int) -> int {
    available - PANEL_MIN_HEIGHT * weights.len()
}

/// How tall panel `i` is, in fine steps.
///
/// A weight is a share of what is left once every panel has its minimum. Each
/// height comes from the panel's own weight and is rounded down, so that panels
/// of one weight are of one height and the stack never outgrows its room.
pub open spec fn stack_height(weights: Seq<i64>, available: int, i: int) -> int {
    let n = weights.len() as int;
    if equal_shares(weights, available) {
        fine(max_of(available, 0)) / n
    } else {
        fine(PANEL_MIN_HEIGHT as int) + fine(
            beyond_minimums(weights, available) * max_of(weights[i] as int, 0),
        ) / weight_sum(weights, n)
    }
}

/// How far below the top of the column panel `i` starts: under the panels before
/// it.
pub open spec fn stack_top(weights: Seq<i64>, available: int, i: int) -> int
    decreases i,
{
    if i <= 0 {
        0
    } else {
        stack_top(weights, available, i - 1) + stack_height(weights, available, i - 1)
    }
}

/// The first `n` heights together.
pub open spec fn height_sum(heights: Seq<i128>, n: int) -> int
    decreases n,
{
    if n <= 0 {
        0
    } else {
        height_sum(heights, n - 1) + heights[n - 1]
    }
}

pub proof fn lemma_weight_sum_grows(weights: Seq<i64>, a: int, b: int)
    requires
        a <= b,
    ensures
        0 <= weight_sum(weights, a) <= weight_sum(weights, b),
    decreases b,
{
    if b > 0 {
        if a == b {
            lemma_weight_sum_grows(weights, a - 1, b - 1);
        } else {
            lemma_weight_sum_grows(weights, a, b - 1);
        }
    }
}

/// A quotient on a finer step, from the whole quotient and the remainder.
proof fn lemma_fine_quotient(x: int, d: int)
    requires
        0 <= x,
        0 < d,
    ensures
        fine(x) / d == fine(x / d) + fine(x % d) / d,
        0 <= x % d < d,
        0 <= fine(x % d) / d < 1_000_000_000_000_000_000,
{
    let q = x / d;
    let r = x % d;
    assert(x == q * d + r && 0 <= r < d) by (nonlinear_arith)
        requires
            0 < d,
            q == x / d,
            r == x % d,
    ;
    let f = fine(q);
    assert(f * d == (q * d) * 1_000_000_000_000_000_000) by (nonlinear_arith)
        requires
            f == q * 1_000_000_000_000_000_000,
    ;
    let g = fine(r);
    let k = 1_000_000_000_000_000_000int;
    assert(fine(x) == f * d + g);
    assert((f * d + g) / d == f + g / d) by (nonlinear_arith)
        requires
            0 < d,
    ;
    assert(0 <= g / d < k) by (nonlinear_arith)
        requires
            0 <= r < d,
            g == r * k,
            k > 0,
    ;
}

/// `x / d` in fine steps.
fn fine_quotient(x: i128, d: i128) -> (r: i128)
    requires
        0 <= x,
        0 < d <= WEIGHT_ROOM,
        x as int / d as int <= 16 * REACH,
    ensures
        r == fine(x as int) / d as int,
{
    proof {
        lemma_fine_quotient(x as int, d as int);
    }
    let whole: i128 = x / d;
    let rest: i128 = x % d;
    whole * FINE + rest * FINE / d
}

/// Divide `available` between `weights`, giving every panel at least
/// [`PANEL_MIN_HEIGHT`] where there is room for it. The heights are in fine
/// steps.
pub fn stack_heights(weights: &[i64], available: i64) -> (r: Vec<i128>)
    requires
        weight_sum(weights@, weights@.len() as int) <= WEIGHT_ROOM,
        available <= 16 * REACH,
    ensures
        r@.len() == weights@.len(),
        forall|i: int|
            0 <= i < r@.len() ==> #[trigger] r@[i] == stack_height(
                weights@,
                available as int,
                i,
            ),
{
    let n: usize = weights.len();
    let mut out: Vec<i128> = Vec::new();
    if n == 0 {
        return out;
    }
    let room: i128 = if available > 0 {
        available as i128
    } else {
        0
    };
    let mut total: i128 = 0;
    let mut i: usize = 0;
    while i < n
        invariant
            n == weights@.len(),
            0 <= i <= n,
            total == weight_sum(weights@, i as int),
            weight_sum(weights@, n as int) <= WEIGHT_ROOM,
        decreases n - i,
    {
        proof {
            lemma_weight_sum_grows(weights@, i + 1, n as int);
            lemma_weight_sum_grows(weights@, i as int, i + 1);
        }
        if weights[i] > 0 {
            total += weights[i] as i128;
        }
        i += 1;
    }
    let minimums: i128 = PANEL_MIN_HEIGHT as i128 * n as i128;
    let equal = available as i128 <= minimums || total <= 1;
    proof {
        let m = n as int;
        assert(0 <= room as int / m <= room) by (nonlinear_arith)
            requires
                m >= 1,
                0 <= room,
        ;
    }
    let share: i128 = fine_quotient(room, n as i128);
    let mut k: usize = 0;
    while k < n
        invariant
            n == weights@.len(),
            0 < n,
            0 <= k <= n,
            out@.len() == k,
            room == max_of(available as int, 0),
            0 <= room <= 16 * REACH,
            total == weight_sum(weights@, n as int),
            total <= WEIGHT_ROOM,
            minimums == PANEL_MIN_HEIGHT * n,
            equal == equal_shares(weights@, available as int),
            equal == (available <= minimums || total <= 1),
            share == fine(room as int) / n as int,
            forall|j: int|
                0 <= j < k ==> #[trigger] out@[j] == stack_height(weights@, available as int, j),
        decreases n - k,
    {
        if equal {
            out.push(share);
        } else {
            proof {
                lemma_weight_in_sum(weights@, k as int, n as int);
            }
            let weight: i128 = if weights[k] > 0 {
                weights[k] as i128
            } else {
                0
            };
            let extra: i128 = room - minimums;
            assert(0 <= extra * weight <= 16 * REACH * WEIGHT_ROOM) by (nonlinear_arith)
                requires
                    0 <= extra <= 16 * REACH,
                    0 <= weight <= WEIGHT_ROOM,
            ;
            let scaled: i128 = extra * weight;
            assert(0 <= scaled as int / total as int <= extra) by (nonlinear_arith)
                requires
                    scaled == extra * weight,
                    0 <= weight <= total,
                    0 < total,
                    0 <= extra,
            ;
            proof {
                lemma_fine_quotient(scaled as int, total as int);
            }
            out.push(PANEL_MIN_HEIGHT as i128 * FINE + fine_quotient(scaled, total));
        }
        assert(out@[k as int] == stack_height(weights@, available as int, k as int));
        k += 1;
    }
    out
}

/// One weight is no more than all of them together.
pub proof fn lemma_weight_in_sum(weights: Seq<i64>, i: int, n: int)
    requires
        0 <= i < n <= weights.len(),
    ensures
        0 <= max_of(weights[i] as int, 0) <= weight_sum(weights, n),
{
    lemma_weight_sum_grows(weights, 0, i);
    lemma_weight_sum_grows(weights, i + 1, n);
}

/// A weighted stack of the first `i` panels: each has its minimum, and together
/// they have their weights' share of the rest, less the rounding of each.
proof fn lemma_weighted_top(weights: Seq<i64>, available: int, i: int)
    requires
        0 <= i <= weights.len(),
        !equal_shares(weights, available),
    ensures
        ({
            let total = weight_sum(weights, weights.len() as int);
            let share = fine(beyond_minimums(weights, available)) * weight_sum(weights, i);
            let given = (stack_top(weights, available, i) - fine(PANEL_MIN_HEIGHT * i)) * total;
            share - i * (total - 1) <= given <= share
        }),
    decreases i,
{
    let total = weight_sum(weights, weights.len() as int);
    let extra = beyond_minimums(weights, available);
    let wide = fine(extra);
    if i > 0 {
        lemma_weighted_top(weights, available, i - 1);
        let w = max_of(weights[i - 1] as int, 0);
        let before = stack_top(weights, available, i - 1) - fine(PANEL_MIN_HEIGHT * (i - 1));
        let x = fine(extra * w);
        let q = x / total;
        assert(x == wide * w) by (nonlinear_arith)
            requires
                x == (extra * w) * 1_000_000_000_000_000_000,
                wide == extra * 1_000_000_000_000_000_000,
        ;
        assert(stack_top(weights, available, i) - fine(PANEL_MIN_HEIGHT * i) == before + q);
        assert((before + q) * total == before * total + q * total) by (nonlinear_arith);
        assert(x - (total - 1) <= q * total <= x) by (nonlinear_arith)
            requires
                total > 0,
                q == x / total,
        ;
        let a = weight_sum(weights, i - 1);
        assert(wide * (a + w) == wide * a + x) by (nonlinear_arith)
            requires
                x == wide * w,
        ;
        assert((i - 1) * (total - 1) + (total - 1) == i * (total - 1)) by (nonlinear_arith);
    } else {
        assert(wide * 0 == 0 && 0 * (total - 1) == 0 && 0 * total == 0) by (nonlinear_arith);
    }
}

/// A stack of equal heights.
proof fn lemma_equal_top(weights: Seq<i64>, available: int, i: int)
    requires
        0 <= i <= weights.len(),
        equal_shares(weights, available),
    ensures
        stack_top(weights, available, i) == i * (fine(max_of(available, 0))
            / weights.len() as int),
    decreases i,
{
    let share = fine(max_of(available, 0)) / weights.len() as int;
    if i > 0 {
        lemma_equal_top(weights, available, i - 1);
        assert((i - 1) * share + share == i * share) by (nonlinear_arith);
    } else {
        assert(0 * share == 0) by (nonlinear_arith);
    }
}

/// The first panel starts at the top and the last one ends at the bottom, short
/// of it by less than one fine step for each panel.
pub proof fn lemma_stack_ends(weights: Seq<i64>, available: int)
    requires
        weights.len() > 0,
    ensures
        stack_top(weights, available, 0) == 0,
        fine(max_of(available, 0)) - weights.len() < stack_top(
            weights,
            available,
            weights.len() as int,
        ) <= fine(max_of(available, 0)),
{
    let n = weights.len() as int;
    let room = fine(max_of(available, 0));
    let total = weight_sum(weights, n);
    let top = stack_top(weights, available, n);
    if equal_shares(weights, available) {
        lemma_equal_top(weights, available, n);
        assert(room - n < n * (room / n) <= room) by (nonlinear_arith)
            requires
                n > 0,
                room >= 0,
        ;
    } else {
        lemma_weighted_top(weights, available, n);
        let extra = fine(beyond_minimums(weights, available));
        let given = top - fine(PANEL_MIN_HEIGHT * n);
        assert(extra - n < given <= extra) by (nonlinear_arith)
            requires
                total > 0,
                n > 0,
                extra * total - n * (total - 1) <= given * total <= extra * total,
        ;
    }
}

/// Every boundary lies inside the column.
pub proof fn lemma_top_in_room(weights: Seq<i64>, available: int, i: int)
    requires
        0 <= i <= weights.len(),
        weights.len() > 0,
    ensures
        0 <= stack_top(weights, available, i) <= fine(max_of(available, 0)),
{
    lemma_tops_grow(weights, available, 0, i);
    lemma_tops_grow(weights, available, i, weights.len() as int);
    lemma_stack_ends(weights, available);
}

proof fn lemma_tops_grow(weights: Seq<i64>, available: int, a: int, b: int)
    requires
        0 <= a <= b <= weights.len(),
    ensures
        stack_top(weights, available, a) <= stack_top(weights, available, b),
    decreases b - a,
{
    if a < b {
        lemma_tops_grow(weights, available, a, b - 1);
        heights_honour_the_minimum(weights, available, b - 1);
    }
}

/// Heights, and the weights they come from.
pub open spec fn shared_out(heights: Seq<i128>, weights: Seq<i64>, available: int) -> bool {
    &&& heights.len() == weights.len()
    &&& forall|i: int|
        0 <= i < heights.len() ==> #[trigger] heights[i] == stack_height(weights, available, i)
}

proof fn lemma_height_sum(heights: Seq<i128>, weights: Seq<i64>, available: int, i: int)
    requires
        shared_out(heights, weights, available),
        0 <= i <= heights.len(),
    ensures
        height_sum(heights, i) == stack_top(weights, available, i),
    decreases i,
{
    if i > 0 {
        lemma_height_sum(heights, weights, available, i - 1);
        assert(heights[i - 1] == stack_height(weights, available, i - 1));
    }
}

/// The heights of a column fill the room there was: nothing sticks out, and
/// what is left over is less than one fine step for each panel. That is under a
/// hundredth of a point for as many panels as a machine can count.
pub proof fn heights_fill_the_room(heights: Seq<i128>, weights: Seq<i64>, available: int)
    requires
        shared_out(heights, weights, available),
        heights.len() > 0,
    ensures
        fine(max_of(available, 0)) - heights.len() < height_sum(heights, heights.len() as int)
            <= fine(max_of(available, 0)),
        heights.len() <= usize::MAX ==> 100 * (fine(max_of(available, 0)) - height_sum(
            heights,
            heights.len() as int,
        )) < fine(POINT as int),
{
    lemma_height_sum(heights, weights, available, heights.len() as int);
    lemma_stack_ends(weights, available);
}

/// A panel is never squeezed below the minimum while there is room for every
/// minimum, and never turned inside out when there is not.
pub proof fn heights_honour_the_minimum(weights: Seq<i64>, available: int, i: int)
    requires
        0 <= i < weights.len(),
    ensures
        available >= PANEL_MIN_HEIGHT * weights.len() ==> stack_height(weights, available, i)
            >= fine(PANEL_MIN_HEIGHT as int),
        stack_height(weights, available, i) >= 0,
{
    let n = weights.len() as int;
    let room = fine(max_of(available, 0));
    let total = weight_sum(weights, n);
    let least = fine(PANEL_MIN_HEIGHT as int);
    if equal_shares(weights, available) {
        assert(room / n >= 0) by (nonlinear_arith)
            requires
                n > 0,
                room >= 0,
        ;
        if available >= PANEL_MIN_HEIGHT * n {
            assert(least * n == fine(PANEL_MIN_HEIGHT * n)) by (nonlinear_arith)
                requires
                    least == PANEL_MIN_HEIGHT * 1_000_000_000_000_000_000,
                    fine(PANEL_MIN_HEIGHT * n) == (PANEL_MIN_HEIGHT * n)
                        * 1_000_000_000_000_000_000,
            ;
            assert(room / n >= least) by (nonlinear_arith)
                requires
                    n > 0,
                    room >= least * n,
            ;
        }
    } else {
        let extra = beyond_minimums(weights, available);
        let w = max_of(weights[i] as int, 0);
        assert(extra * w >= 0) by (nonlinear_arith)
            requires
                extra >= 0,
                w >= 0,
        ;
        let x = fine(extra * w);
        assert(x / total >= 0) by (nonlinear_arith)
            requires
                x >= 0,
                total > 0,
        ;
    }
}

/// When there is not even room for the minimums every panel gets the same.
pub proof fn heights_share_equally_when_starved(weights: Seq<i64>, available: int, i: int)
    requires
        0 <= i < weights.len(),
        available <= PANEL_MIN_HEIGHT * weights.len(),
    ensures
        stack_height(weights, available, i) == fine(max_of(available, 0)) / weights.len() as int,
{
}

/// Past the minimums, a panel gets its weight's share of the rest, to within
/// one fine step.
pub proof fn heights_follow_the_weights(weights: Seq<i64>, available: int, i: int)
    requires
        0 <= i < weights.len(),
        !equal_shares(weights, available),
    ensures
        ({
            let total = weight_sum(weights, weights.len() as int);
            let share = fine(
                beyond_minimums(weights, available) * max_of(weights[i] as int, 0),
            );
            let given = (stack_height(weights, available, i) - fine(PANEL_MIN_HEIGHT as int))
                * total;
            share - total < given <= share
        }),
{
    let total = weight_sum(weights, weights.len() as int);
    let x = fine(beyond_minimums(weights, available) * max_of(weights[i] as int, 0));
    let q = x / total;
    assert(x - total < q * total <= x) by (nonlinear_arith)
        requires
            total > 0,
            q == x / total,
    ;
}

/// A heavier panel is never the shorter one, and panels of one weight are of one
/// height.
pub proof fn heights_keep_the_order_of_the_weights(
    weights: Seq<i64>,
    available: int,
    i: int,
    j: int,
)
    requires
        0 <= i < weights.len(),
        0 <= j < weights.len(),
    ensures
        weights[i] <= weights[j] ==> stack_height(weights, available, i) <= stack_height(
            weights,
            available,
            j,
        ),
        weights[i] == weights[j] ==> stack_height(weights, available, i) == stack_height(
            weights,
            available,
            j,
        ),
{
    let total = weight_sum(weights, weights.len() as int);
    if !equal_shares(weights, available) && weights[i] <= weights[j] {
        let extra = beyond_minimums(weights, available);
        let a = max_of(weights[i] as int, 0);
        let b = max_of(weights[j] as int, 0);
        assert(extra * a <= extra * b) by (nonlinear_arith)
            requires
                extra >= 0,
                a <= b,
        ;
        let x = fine(extra * a);
        let y = fine(extra * b);
        assert(x / total <= y / total) by (nonlinear_arith)
            requires
                x <= y,
                total > 0,
        ;
    }
}

// --- heights written back ---------------------------------------------------

/// The weight that stands for a height: what it has beyond the minimum, in
/// millionths of a point.
pub open spec fn weight_of_height(h: int) -> int {
    max_of(h - fine(PANEL_MIN_HEIGHT as int), 0) / 10_000_000_000_000_000
}

/// The weight that stands for a height.
pub fn height_weight(h: i128) -> (r: i64)
    requires
        fine(-16 * REACH) <= h <= fine(16 * REACH),
    ensures
        r == weight_of_height(h as int),
        0 <= r <= WEIGHT_LIMIT,
{
    let over: i128 = h - PANEL_MIN_HEIGHT as i128 * FINE;
    if over > 0 {
        (over / 10_000_000_000_000_000) as i64
    } else {
        0
    }
}

/// Heights written back as weights come back as the same heights.
///
/// This is what keeps a dragged splitter still: what a panel has beyond the
/// minimum is its weight. Where the heights fill a room, sharing the same room
/// out again by those weights costs no panel a millionth of a point and gives
/// none more than that much for each panel there is.
pub proof fn heights_written_back_are_kept(
    heights: Seq<i128>,
    weights: Seq<i64>,
    available: int,
    i: int,
)
    requires
        heights.len() == weights.len(),
        0 <= i < heights.len(),
        forall|j: int|
            0 <= j < heights.len() ==> #[trigger] heights[j] >= fine(PANEL_MIN_HEIGHT as int),
        forall|j: int|
            0 <= j < heights.len() ==> #[trigger] weights[j] == weight_of_height(heights[j] as int),
        fine(available) - heights.len() < height_sum(heights, heights.len() as int) <= fine(
            available,
        ),
        !equal_shares(weights, available),
    ensures
        heights[i] - 10_000_000_000_000_000 < stack_height(weights, available, i) < heights[i]
            + 10_000_000_000_000_001 * heights.len(),
{
    let n = heights.len() as int;
    lemma_written_back(heights, weights, n);
    let total = weight_sum(weights, n);
    let extra = beyond_minimums(weights, available);
    let wide = fine(extra);
    let unit = 10_000_000_000_000_000int;
    assert(unit * total <= wide < unit * total + (unit + 1) * n);
    assert(weights[i] == weight_of_height(heights[i] as int));
    lemma_weight_in_sum(weights, i, n);
    let w = weights[i] as int;
    let x = fine(extra * w);
    let q = x / total;
    assert(x == wide * w) by (nonlinear_arith)
        requires
            x == (extra * w) * 1_000_000_000_000_000_000,
            wide == extra * 1_000_000_000_000_000_000,
    ;
    lemma_share_kept(wide, total, w, unit, n);
}

/// A share `w` of `total`, taken of something close to `total` units, is close to
/// `w` units.
proof fn lemma_share_kept(wide: int, total: int, w: int, unit: int, n: int)
    requires
        0 < total,
        0 <= w <= total,
        0 < n,
        0 < unit,
        unit * total <= wide < unit * total + (unit + 1) * n,
    ensures
        unit * w <= wide * w / total < unit * w + (unit + 1) * n,
{
    let left = wide - unit * total;
    assert(wide * w == (unit * w) * total + left * w) by (nonlinear_arith)
        requires
            wide == unit * total + left,
    ;
    assert(0 <= left * w <= left * total) by (nonlinear_arith)
        requires
            0 <= w <= total,
            0 <= left,
    ;
    let u = unit * w;
    let y = left * w;
    assert(u <= (u * total + y) / total <= u + left) by (nonlinear_arith)
        requires
            total > 0,
            0 <= y <= left * total,
    ;
}

/// Weights that stand for heights add up to what the heights have beyond the
/// minimums, less the rounding of each.
pub proof fn lemma_written_back(heights: Seq<i128>, weights: Seq<i64>, i: int)
    requires
        heights.len() == weights.len(),
        0 <= i <= heights.len(),
        forall|j: int|
            0 <= j < heights.len() ==> #[trigger] heights[j] >= fine(PANEL_MIN_HEIGHT as int),
        forall|j: int|
            0 <= j < heights.len() ==> #[trigger] weights[j] == weight_of_height(heights[j] as int),
    ensures
        ({
            let over = height_sum(heights, i) - fine(PANEL_MIN_HEIGHT * i);
            let stands = 10_000_000_000_000_000 * weight_sum(weights, i);
            stands <= over <= stands + 10_000_000_000_000_000 * i
        }),
    decreases i,
{
    if i > 0 {
        lemma_written_back(heights, weights, i - 1);
        assert(weights[i - 1] == weight_of_height(heights[i - 1] as int));
    }
}

} // verus!
