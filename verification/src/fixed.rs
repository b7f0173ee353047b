//! Fixed-point numbers.
//!
//! Every quantity that is not a whole number (a length on the page, an angle,
//! a ground speed, an elapsed time) is held as a signed count of
//! ten-millionths. Sums and differences are exact; a quotient is rounded to
//! the nearest count, halves away from zero.

use vstd::prelude::*;

verus! {

/// A number, counted in ten-millionths of its unit.
pub type Fixed = i128;

/// A point on a page: distance from the left edge, distance from the top edge.
pub type Coord = (Fixed, Fixed);

/// The count that stands for the number one.
pub const ONE: i128 = 10_000_000;

/// The count of one ten-thousandth, the finest step that is ever written into
/// a document.
pub const STEP: i128 = 1_000;

/// Largest magnitude that the page arithmetic accepts for a length.
pub const LIMIT: i128 = 1_000_000_000_000_000_000_000_000_000_000;

/// Largest magnitude that can still be rounded to four decimal places.
pub const WIDE: i128 = 10_000_000_000_000_000_000_000_000_000_000_000_000;

/// Absolute value.
pub open spec fn magnitude(n: int) -> nat {
    if n >= 0 {
        n as nat
    } else {
        (-n) as nat
    }
}

/// `m / d` rounded to the nearest whole number, halves upwards.
pub open spec fn round_div_nat(m: nat, d: nat) -> nat {
    m / d + if 2 * (m % d) >= d {
        1nat
    } else {
        0nat
    }
}

/// `n / d` rounded to the nearest whole number, halves away from zero.
pub open spec fn round_div(n: int, d: int) -> int {
    if n >= 0 {
        round_div_nat(n as nat, d as nat) as int
    } else {
        -(round_div_nat((-n) as nat, d as nat) as int)
    }
}

/// The nearest whole number to the value that the count `x` stands for.
pub open spec fn rounded(x: int) -> int {
    round_div(x, ONE as int)
}

/// The count `x` rounded to four decimal places.
pub open spec fn trimmed(x: int) -> int {
    round_div(x, STEP as int) * STEP
}

/// Whether a length is small enough for the page arithmetic.
pub open spec fn in_range(x: int) -> bool {
    -LIMIT <= x <= LIMIT
}

/// Whether a number can be rounded to four decimal places.
pub open spec fn roundable(x: int) -> bool {
    -WIDE <= x <= WIDE
}

/// Absolute value of a signed number, which always fits the unsigned type.
pub fn abs_u128(n: i128) -> (m: u128)
    ensures
        m == magnitude(n as int),
{
    if n >= 0 {
        n as u128
    } else {
        (-(n + 1)) as u128 + 1
    }
}

/// Division rounded to the nearest whole number, halves away from zero.
pub fn div_round(n: i128, d: i128) -> (q: i128)
    requires
        1 <= d,
    ensures
        q == round_div(n as int, d as int),
{
    if d == 1 {
        return n;
    }
    let m: u128 = abs_u128(n);
    let du: u128 = d as u128;
    let t: u128 = m / du;
    let r: u128 = m % du;
    assert(t <= m / 2) by (nonlinear_arith)
        requires
            t == m / du,
            du >= 2,
    ;
    let up: u128 = if r >= du - r {
        1
    } else {
        0
    };
    let qm: u128 = t + up;
    if n >= 0 {
        qm as i128
    } else {
        -(qm as i128)
    }
}

/// The count that stands for a whole number.
pub fn from_int(v: i64) -> (x: Fixed)
    ensures
        x == v * ONE,
{
    let wide: i128 = v as i128;
    wide * ONE
}

/// Rounds to the nearest whole number, halves away from zero.
pub fn round(x: Fixed) -> (r: i128)
    ensures
        r == rounded(x as int),
{
    div_round(x, ONE)
}

/// Rounds a count to four decimal places, halves away from zero.
pub fn trim_fraction(x: Fixed) -> (r: Fixed)
    requires
        roundable(x as int),
    ensures
        r == trimmed(x as int),
        x - STEP < r < x + STEP,
{
    let q: i128 = div_round(x, STEP);
    proof {
        round_div_is_near(x as int, STEP as int);
    }
    q * STEP
}

/// Rounds both parts of a point to four decimal places.
pub fn trim_coord(p: Coord) -> (r: Coord)
    requires
        roundable(p.0 as int),
        roundable(p.1 as int),
    ensures
        r.0 == trimmed(p.0 as int),
        r.1 == trimmed(p.1 as int),
{
    (trim_fraction(p.0), trim_fraction(p.1))
}

/// A rounded quotient, multiplied back, lies within half a divisor of the
/// dividend.
pub proof fn round_div_is_near(n: int, d: int)
    requires
        0 < d,
    ensures
        2 * n - d <= 2 * (round_div(n, d) * d) <= 2 * n + d,
{
    let m = magnitude(n);
    let dn = d as nat;
    assert(m == (m / dn) * dn + m % dn && 0 <= m % dn < dn) by (nonlinear_arith)
        requires
            0 < dn,
    ;
    assert((m / dn + 1) * dn == (m / dn) * dn + dn) by (nonlinear_arith);
    assert((-((m / dn) as int)) * d == -((m / dn) * dn)) by (nonlinear_arith)
        requires
            d == dn,
    ;
    assert((-((m / dn + 1) as int)) * d == -((m / dn) * dn) - dn) by (nonlinear_arith)
        requires
            d == dn,
    ;
}

} // verus!
