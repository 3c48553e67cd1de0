//! Fixed-point pixel arithmetic.
//!
//! Every real-valued measurement of the pipeline (sizes, advances, offsets,
//! baselines) is an integer count of sub-pixel steps, 65536 to the pixel.
//! Ratios such as a font's scale use the same grid, 65536 standing for 1.
//! The functions here turn such counts into whole pixels.

use vstd::prelude::*;

verus! {

/// Sub-pixel steps in one pixel.
pub const UNIT: i32 = 65536;

/// Largest magnitude that the executable roundings accept.
pub const ROUNDING_LIMIT: i128 = 0x1_0000_0000_0000_0000_0000_0000;

/// `px` whole pixels as a count of sub-pixel steps.
pub open spec fn whole(px: int) -> int {
    px * 65536
}

/// Greatest whole number of pixels not above `v` sub-pixel steps.
pub open spec fn px_floor(v: int) -> int {
    v / 65536
}

/// Least whole number of pixels not below `v` sub-pixel steps.
pub open spec fn px_ceil(v: int) -> int {
    -((-v) / 65536)
}

/// `v` sub-pixel steps with the fraction of a pixel dropped (toward zero).
pub open spec fn px_trunc(v: int) -> int {
    if v >= 0 {
        v / 65536
    } else {
        -((-v) / 65536)
    }
}

/// Whole number of pixels nearest to `v` sub-pixel steps; a value halfway
/// between two goes to the one farther from zero.
pub open spec fn px_round(v: int) -> int {
    if v >= 0 {
        (v + 32768) / 65536
    } else {
        -((-v + 32768) / 65536)
    }
}

/// Whole number of pixels nearest to `v >= 0` sub-pixel steps; a value halfway
/// between two goes to the even one.
pub open spec fn px_round_even(v: int) -> int {
    let q = v / 65536;
    let r = v % 65536;
    if r < 32768 || (r == 32768 && q % 2 == 0) {
        q
    } else {
        q + 1
    }
}

/// Integer nearest to the fraction `n / d`, halves away from zero.
pub open spec fn round_ratio(n: int, d: int) -> int
    recommends
        d != 0,
{
    let m = if n < 0 { -n } else { n };
    let e = if d < 0 { -d } else { d };
    let q = (2 * m + e) / (2 * e);
    if (n < 0) != (d < 0) {
        -q
    } else {
        q
    }
}

/// `px_floor` is the floor: `whole(q) <= v < whole(q + 1)`.
pub proof fn lemma_px_floor(v: int)
    ensures
        whole(px_floor(v)) <= v < whole(px_floor(v) + 1),
{
}

/// `px_ceil` is the ceiling: `whole(q - 1) < v <= whole(q)`.
pub proof fn lemma_px_ceil(v: int)
    ensures
        whole(px_ceil(v) - 1) < v <= whole(px_ceil(v)),
{
}

/// `px_round` is within half a pixel of its argument and takes exact halves
/// away from zero.
pub proof fn lemma_px_round(v: int)
    ensures
        -32768 <= v - whole(px_round(v)) <= 32768,
        v - whole(px_round(v)) == 32768 ==> v < 0,
        v - whole(px_round(v)) == -32768 ==> v > 0,
{
}

/// Rounding commutes with adding whole pixels, unless the value lies exactly
/// between two pixels and the addition carries it across zero.
pub proof fn lemma_px_round_shift(v: int, k: int)
    requires
        v % 65536 != 32768 || (v >= 0) == (v + whole(k) >= 0),
    ensures
        px_round(v + whole(k)) == px_round(v) + k,
{
}

/// `round_ratio` is within half a unit of the fraction: twice the distance
/// of `q * d` from `n` is at most `d`.
pub proof fn lemma_round_ratio_nearest(n: int, d: int)
    requires
        d > 0,
    ensures
        -d <= 2 * (n - round_ratio(n, d) * d) <= d,
{
    let m = if n < 0 { -n } else { n };
    let q = (2 * m + d) / (2 * d);
    assert(q * (2 * d) <= 2 * m + d < (q + 1) * (2 * d)) by (nonlinear_arith)
        requires
            d > 0,
            m >= 0,
            q == (2 * m + d) / (2 * d),
    ;
    assert(q * (2 * d) == 2 * (q * d) && (q + 1) * (2 * d) == 2 * (q * d) + 2 * d && (-q) * d == -(q
        * d)) by (nonlinear_arith);
}

/// Floor of a sub-pixel count.
pub fn floor_px(v: i128) -> (q: i128)
    requires
        -ROUNDING_LIMIT <= v <= ROUNDING_LIMIT,
    ensures
        q == px_floor(v as int),
{
    if v >= 0 {
        v / 65536
    } else {
        -((-v + 65535) / 65536)
    }
}

/// Ceiling of a sub-pixel count.
pub fn ceil_px(v: i128) -> (q: i128)
    requires
        -ROUNDING_LIMIT <= v <= ROUNDING_LIMIT,
    ensures
        q == px_ceil(v as int),
{
    if v >= 0 {
        (v + 65535) / 65536
    } else {
        -((-v) / 65536)
    }
}

/// A sub-pixel count without its fraction.
pub fn trunc_px(v: i128) -> (q: i128)
    requires
        -ROUNDING_LIMIT <= v <= ROUNDING_LIMIT,
    ensures
        q == px_trunc(v as int),
{
    if v >= 0 {
        v / 65536
    } else {
        -((-v) / 65536)
    }
}

/// A sub-pixel count rounded to the nearest pixel, halves away from zero.
pub fn round_px(v: i128) -> (q: i128)
    requires
        -ROUNDING_LIMIT <= v <= ROUNDING_LIMIT,
    ensures
        q == px_round(v as int),
{
    if v >= 0 {
        (v + 32768) / 65536
    } else {
        -((-v + 32768) / 65536)
    }
}

/// A non-negative sub-pixel count rounded to the nearest pixel, halves to even.
pub fn round_even_px(v: u64) -> (q: u64)
    ensures
        q == px_round_even(v as int),
{
    let q: u64 = v / 65536;
    let r: u64 = v % 65536;
    if r < 32768 || (r == 32768 && q % 2 == 0) {
        q
    } else {
        q + 1
    }
}

/// The fraction `n / d` rounded to the nearest integer, halves away from zero.
pub fn round_div(n: i128, d: i128) -> (q: i128)
    requires
        d != 0,
        -ROUNDING_LIMIT <= n <= ROUNDING_LIMIT,
        -ROUNDING_LIMIT <= d <= ROUNDING_LIMIT,
    ensures
        q == round_ratio(n as int, d as int),
{
    let m: i128 = if n < 0 { -n } else { n };
    let e: i128 = if d < 0 { -d } else { d };
    let q: i128 = (2 * m + e) / (2 * e);
    if (n < 0) != (d < 0) {
        -q
    } else {
        q
    }
}

} // verus!
