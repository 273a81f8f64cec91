//! Whole square roots.

use vstd::prelude::*;

verus! {

/// Whether `r` is the whole part of the square root of `n`.
pub open spec fn roots(n: int, r: int) -> bool {
    0 <= r && r * r <= n && n < (r + 1) * (r + 1)
}

/// The whole part of a square root.
pub open spec fn root_of(n: int) -> int {
    choose|r: int| roots(n, r)
}

/// A number has one whole root.
proof fn lemma_one_root(n: int, r: int, s: int)
    requires
        roots(n, r),
        roots(n, s),
    ensures
        r == s,
{
    assert(r < s + 1) by (nonlinear_arith)
        requires
            0 <= r,
            0 <= s,
            r * r <= n,
            n < (s + 1) * (s + 1),
    ;
    assert(s < r + 1) by (nonlinear_arith)
        requires
            0 <= r,
            0 <= s,
            s * s <= n,
            n < (r + 1) * (r + 1),
    ;
}

/// The largest number this takes the root of, and one more than its root.
pub const ROOM: i128 = 10_000_000_000_000_000_000_000_000_000_000_000_000;

const ABOVE: i128 = 4_000_000_000_000_000_000;

pub fn root(n: i128) -> (r: i128)
    requires
        0 <= n <= ROOM,
    ensures
        r == root_of(n as int),
        roots(n as int, r as int),
        r <= 4_000_000_000_000_000_000,
{
    let mut low: i128 = 0;
    let mut high: i128 = ABOVE;
    while low + 1 < high
        invariant
            0 <= n <= ROOM,
            0 <= low < high <= ABOVE,
            low * low <= n < high * high,
        decreases high - low,
    {
        let middle: i128 = low + (high - low) / 2;
        assert(middle * middle <= 16_000_000_000_000_000_000_000_000_000_000_000_000)
            by (nonlinear_arith)
            requires
                0 <= middle <= 4_000_000_000_000_000_000,
        ;
        assert(0 <= middle * middle) by (nonlinear_arith);
        if middle * middle <= n {
            low = middle;
        } else {
            high = middle;
        }
    }
    proof {
        assert(roots(n as int, low as int));
        lemma_one_root(n as int, low as int, root_of(n as int));
    }
    low
}

/// The whole root of a square is its side, and of anything up to the next square too.
pub proof fn a_square_has_its_side_for_a_root(r: int, more: int)
    requires
        r >= 0,
        0 <= more <= 2 * r,
    ensures
        root_of(r * r + more) == r,
{
    let n = r * r + more;
    assert((r + 1) * (r + 1) == r * r + 2 * r + 1) by (nonlinear_arith);
    assert(roots(n, r));
    lemma_one_root(n, r, root_of(n));
}

} // verus!
