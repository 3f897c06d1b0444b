//! Exact integer division: truncation toward zero (as machine division does)
//! and rounding to the nearest integer with ties away from zero.

use vstd::arithmetic::div_mod::lemma_div_is_ordered;
use vstd::arithmetic::div_mod::lemma_div_multiples_vanish_fancy;
use vstd::arithmetic::div_mod::lemma_div_nonincreasing;
use vstd::arithmetic::div_mod::lemma_div_pos_is_pos;
use vstd::prelude::*;

verus! {

/// Division rounding toward zero; the divisor positive.
pub open spec fn trunc_div(n: int, d: int) -> int
    recommends
        d >= 1,
{
    if n >= 0 {
        n / d
    } else {
        -((-n) / d)
    }
}

/// Division rounding to the nearest integer, ties away from zero; the
/// divisor positive.
pub open spec fn round_div(n: int, d: int) -> int
    recommends
        d >= 1,
{
    if n >= 0 {
        (2 * n + d) / (2 * d)
    } else {
        -((2 * (-n) + d) / (2 * d))
    }
}

/// An exact multiple survives a rounded division unchanged.
pub proof fn lemma_round_div_multiple(x: int, d: int)
    requires
        d >= 1,
    ensures
        round_div(x * d, d) == x,
{
    if x >= 0 {
        assert(x * d >= 0) by (nonlinear_arith)
            requires
                x >= 0 && d >= 1,
        ;
        assert(2 * (x * d) + d == (2 * d) * x + d) by (nonlinear_arith);
        lemma_div_multiples_vanish_fancy(x, d, 2 * d);
    } else {
        assert(x * d < 0) by (nonlinear_arith)
            requires
                x < 0 && d >= 1,
        ;
        assert(2 * (-(x * d)) + d == (2 * d) * (-x) + d) by (nonlinear_arith);
        lemma_div_multiples_vanish_fancy(-x, d, 2 * d);
    }
}

/// Rounded division is monotone in the dividend.
pub proof fn lemma_round_div_ordered(n1: int, n2: int, d: int)
    requires
        d >= 1,
        n1 <= n2,
    ensures
        round_div(n1, d) <= round_div(n2, d),
{
    if n1 >= 0 {
        lemma_div_is_ordered(2 * n1 + d, 2 * n2 + d, 2 * d);
    } else if n2 < 0 {
        lemma_div_is_ordered(2 * (-n2) + d, 2 * (-n1) + d, 2 * d);
    } else {
        lemma_div_pos_is_pos(2 * (-n1) + d, 2 * d);
        lemma_div_pos_is_pos(2 * n2 + d, 2 * d);
    }
}

/// Truncating division is monotone in the dividend.
pub proof fn lemma_trunc_div_ordered(n1: int, n2: int, d: int)
    requires
        d >= 1,
        n1 <= n2,
    ensures
        trunc_div(n1, d) <= trunc_div(n2, d),
{
    if n1 >= 0 {
        lemma_div_is_ordered(n1, n2, d);
    } else if n2 < 0 {
        lemma_div_is_ordered(-n2, -n1, d);
    } else {
        lemma_div_pos_is_pos(-n1, d);
        lemma_div_pos_is_pos(n2, d);
    }
}

/// Truncating division on machine integers.
pub fn div_trunc(n: i64, d: i64) -> (r: i64)
    requires
        1 <= d,
        -0x4000_0000_0000_0000 <= n <= 0x4000_0000_0000_0000,
    ensures
        r as int == trunc_div(n as int, d as int),
{
    if n >= 0 {
        let q: u64 = (n as u64) / (d as u64);
        proof {
            lemma_div_nonincreasing(n as int, d as int);
            lemma_div_pos_is_pos(n as int, d as int);
        }
        q as i64
    } else {
        let m: u64 = (-n) as u64;
        let q: u64 = m / (d as u64);
        proof {
            lemma_div_nonincreasing(m as int, d as int);
            lemma_div_pos_is_pos(m as int, d as int);
        }
        -(q as i64)
    }
}

/// Rounding division on machine integers, ties away from zero.
pub fn div_round(n: i64, d: i64) -> (r: i64)
    requires
        1 <= d <= 0x1_0000_0000,
        -0x1000_0000_0000_0000 <= n <= 0x1000_0000_0000_0000,
    ensures
        r as int == round_div(n as int, d as int),
{
    if n >= 0 {
        let q: u64 = (2 * (n as u64) + (d as u64)) / (2 * (d as u64));
        proof {
            lemma_div_nonincreasing(2 * (n as int) + d, 2 * (d as int));
            lemma_div_pos_is_pos(2 * (n as int) + d, 2 * (d as int));
        }
        q as i64
    } else {
        let m: u64 = (-n) as u64;
        let q: u64 = (2 * m + (d as u64)) / (2 * (d as u64));
        proof {
            lemma_div_nonincreasing(2 * (m as int) + d, 2 * (d as int));
            lemma_div_pos_is_pos(2 * (m as int) + d, 2 * (d as int));
        }
        -(q as i64)
    }
}

} // verus!
