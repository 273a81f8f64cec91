//! Dividing whole numbers, and shares of a whole.

use vstd::prelude::*;

verus! {

/// All of something. A share of it is a whole number of millionths.
pub const WHOLE: i64 = 1_000_000;

/// The whole number nearest to `n` over `d`, halves going up.
pub open spec fn nearest_of(n: int, d: int) -> int {
    (2 * n + d) / (2 * d)
}

/// What share `n` is of `d`.
pub open spec fn share_of(n: int, d: int) -> int {
    nearest_of(n * WHOLE, d)
}

pub(crate) fn floor_div(n: i128, d: i128) -> (r: i128)
    requires
        d > 0,
        -0x4000_0000_0000_0000_0000_0000_0000_0000 <= n,
        d <= 0x3fff_ffff_ffff_ffff_ffff_ffff_ffff_ffff,
    ensures
        r == n as int / d as int,
{
    if n >= 0 {
        n / d
    } else {
        let up: i128 = (-n + (d - 1)) / d;
        proof {
            lemma_floor(n as int, d as int, up as int);
        }
        -up
    }
}

proof fn lemma_floor(n: int, d: int, up: int)
    requires
        n < 0,
        d > 0,
        up == (-n + (d - 1)) / d,
    ensures
        n / d == -up,
        0 <= up <= -n,
{
    assert(-n + (d - 1) - d < d * up <= -n + (d - 1)) by (nonlinear_arith)
        requires
            d > 0,
            up == (-n + (d - 1)) / d,
    ;
    assert((-up) * d == -(d * up)) by (nonlinear_arith);
    vstd::arithmetic::div_mod::lemma_fundamental_div_mod_converse(n, d, -up, n + d * up);
    assert(0 <= up <= -n) by (nonlinear_arith)
        requires
            d > 0,
            n < 0,
            -n + (d - 1) - d < d * up <= -n + (d - 1),
    ;
}

/// The nearest whole number to a quotient.
pub(crate) fn nearest_div(n: i128, d: i128) -> (r: i128)
    requires
        0 < d <= 0x0fff_ffff_ffff_ffff_ffff_ffff_ffff_ffff,
        -0x1f00_0000_0000_0000_0000_0000_0000_0000 <= n
            <= 0x1f00_0000_0000_0000_0000_0000_0000_0000,
    ensures
        r == nearest_of(n as int, d as int),
{
    floor_div(2 * n + d, 2 * d)
}

/// A part of something is a share between none of it and all of it.
pub proof fn lemma_share(n: int, d: int)
    requires
        0 <= n <= d,
        0 < d,
    ensures
        0 <= share_of(n, d) <= WHOLE,
{
    let m = n * WHOLE;
    assert(0 <= m <= d * WHOLE) by (nonlinear_arith)
        requires
            0 <= n <= d,
            m == n * WHOLE,
            WHOLE == 1_000_000,
    ;
    vstd::arithmetic::div_mod::lemma_div_pos_is_pos(2 * m + d, 2 * d);
    assert((2 * m + d) / (2 * d) <= WHOLE) by (nonlinear_arith)
        requires
            0 < d,
            m <= d * WHOLE,
    ;
}

pub(crate) fn share(n: i128, d: i128) -> (r: i64)
    requires
        0 <= n <= d,
        0 < d <= 40_000_000_000_000_000_000_000_000_000_000,
    ensures
        r == share_of(n as int, d as int),
        0 <= r <= WHOLE,
{
    proof {
        lemma_share(n as int, d as int);
    }
    nearest_div(n * 1_000_000, d) as i64
}

/// A quotient is the nearest whole number: it is never more than half off.
pub proof fn a_quotient_is_the_nearest(n: int, d: int)
    requires
        d > 0,
    ensures
        -d <= 2 * (nearest_of(n, d) * d - n) <= d,
{
    let q = nearest_of(n, d);
    vstd::arithmetic::div_mod::lemma_fundamental_div_mod(2 * n + d, 2 * d);
    vstd::arithmetic::div_mod::lemma_mod_bound(2 * n + d, 2 * d);
    assert(2 * d * q == 2 * (q * d)) by (nonlinear_arith);
}

/// A share is the part over the whole in millionths, to the nearest: none of it is
/// nothing, all of it a million, and half of it half a million.
pub proof fn a_share_is_the_part_over_the_whole(n: int, d: int)
    requires
        d > 0,
    ensures
        -d <= 2 * (share_of(n, d) * d - n * 1_000_000) <= d,
        share_of(0, d) == 0,
        share_of(d, d) == 1_000_000,
{
    a_quotient_is_the_nearest(n * 1_000_000, d);
    a_quotient_is_the_nearest(0, d);
    a_quotient_is_the_nearest(d * 1_000_000, d);
    let q = share_of(d, d);
    assert(q == 1_000_000) by (nonlinear_arith)
        requires
            d > 0,
            -d <= 2 * (q * d - d * 1_000_000) <= d,
    ;
    let z = share_of(0, d);
    assert(0 * 1_000_000 == 0);
    assert(z == 0) by (nonlinear_arith)
        requires
            d > 0,
            -d <= 2 * (z * d) <= d,
    ;
}

} // verus!
