//! Fixed-point arithmetic helpers.
//!
//! All rate math is `value * rate / scale` with flooring division. Where
//! a result must fit back into a `u64` amount, it saturates at
//! `u64::MAX`, and the contracts say so exactly.

use vstd::prelude::*;
use vstd::arithmetic::div_mod::{lemma_div_is_ordered, lemma_div_pos_is_pos, lemma_fundamental_div_mod};
use vstd::arithmetic::mul::{lemma_mul_inequality, lemma_mul_upper_bound};

verus! {

/// The smaller of two mathematical integers.
pub open spec fn int_min(a: int, b: int) -> int {
    if a <= b {
        a
    } else {
        b
    }
}

/// The larger of two mathematical integers.
pub open spec fn int_max(a: int, b: int) -> int {
    if a >= b {
        a
    } else {
        b
    }
}

/// Clamp a mathematical integer into the `u64` range from above.
pub open spec fn sat_u64(x: int) -> int {
    if x > u64::MAX as int {
        u64::MAX as int
    } else {
        x
    }
}

/// `a * b / d`, saturated at `u64::MAX`.
pub fn mul_div_u64(a: u64, b: u64, d: u64) -> (r: u64)
    requires
        d > 0,
    ensures
        r == sat_u64(a as int * b as int / d as int),
{
    proof {
        lemma_mul_inequality(a as int, u64::MAX as int, b as int);
        lemma_mul_inequality(b as int, u64::MAX as int, u64::MAX as int);
    }
    let p: u128 = (a as u128) * (b as u128);
    let q: u128 = p / (d as u128);
    if q > u64::MAX as u128 {
        u64::MAX
    } else {
        q as u64
    }
}

/// `a * b / d` exactly, as a signed wide integer. The denominator floor
/// keeps the result well inside the `i128` range.
pub fn mul_div_wide(a: u64, b: u64, d: u64) -> (r: i128)
    requires
        d >= 1000,
    ensures
        r == a as int * b as int / d as int,
        r >= 0,
        r * d as int <= u64::MAX as int * u64::MAX as int,
{
    proof {
        lemma_fundamental_div_mod(a as int * b as int, d as int);
        vstd::arithmetic::div_mod::lemma_mod_bound(a as int * b as int, d as int);
        assert((a as int * b as int / d as int) * d as int <= a as int * b as int)
            by (nonlinear_arith)
            requires
                a as int * b as int == d as int * (a as int * b as int / d as int) + (a as int
                    * b as int) % d as int,
                0 <= (a as int * b as int) % d as int,
        ;
        lemma_mul_upper_bound(a as int, u64::MAX as int, b as int, u64::MAX as int);
    }
    proof {
        lemma_mul_inequality(a as int, u64::MAX as int, b as int);
        lemma_mul_inequality(b as int, u64::MAX as int, u64::MAX as int);
        lemma_div_is_ordered(
            a as int * b as int,
            u64::MAX as int * u64::MAX as int,
            d as int,
        );
        assert(u64::MAX as int * u64::MAX as int / 1000int <= i128::MAX as int) by (nonlinear_arith);
        lemma_div_is_ordered_by_denominator_local(u64::MAX as int * u64::MAX as int, 1000, d as int);
    }
    let p: u128 = (a as u128) * (b as u128);
    let q: u128 = p / (d as u128);
    q as i128
}

proof fn lemma_div_is_ordered_by_denominator_local(x: int, y: int, z: int)
    requires
        x >= 0,
        1 <= y <= z,
    ensures
        x / y >= x / z,
{
    vstd::arithmetic::div_mod::lemma_div_is_ordered_by_denominator(x, y, z);
}

/// Flooring division keeps order: growing the numerator never shrinks
/// the quotient.
pub proof fn lemma_mul_div_mono(a1: int, a2: int, b: int, d: int)
    requires
        0 <= a1 <= a2,
        b >= 0,
        d > 0,
    ensures
        a1 * b / d <= a2 * b / d,
{
    lemma_mul_inequality(a1, a2, b);
    lemma_div_is_ordered(a1 * b, a2 * b, d);
}

/// `net * scale / entry`, saturated at `i64::MAX`: the fixed-point form
/// of a profit-to-cost ratio.
pub fn scaled_ratio_i64(net: i128, entry: i128, scale: u64) -> (r: i64)
    requires
        net >= 0,
        entry >= 1,
        scale >= 1,
        entry * scale <= u128::MAX as int,
    ensures
        r as int == int_min(net * scale as int / entry as int, i64::MAX as int),
{
    let nu: u128 = net as u128;
    let eu: u128 = entry as u128;
    let q: u128 = nu / eu;
    let rem: u128 = nu % eu;
    proof {
        lemma_fundamental_div_mod(nu as int, eu as int);
        assert(net * scale as int == eu as int * (q as int * scale as int) + rem as int
            * scale as int) by (nonlinear_arith)
            requires
                nu as int == eu as int * q as int + rem as int,
                net == nu as int,
                q >= 0,
                scale >= 1,
        ;
        lemma_div_multiples_vanish_fancy_wrap(
            q as int * scale as int,
            rem as int * scale as int,
            eu as int,
            net * scale as int,
        );
        assert(rem as int * scale as int <= (eu as int - 1) * scale as int) by (nonlinear_arith)
            requires
                rem as int <= eu as int - 1,
                scale >= 1,
        ;
        assert((eu as int - 1) * scale as int <= u128::MAX as int - scale as int)
            by (nonlinear_arith)
            requires
                eu as int * scale as int <= u128::MAX as int,
                scale >= 1,
                eu >= 1,
        ;
    }
    if q > 9223372036854775807u128 / (scale as u128) {
        proof {
            lemma_fundamental_div_mod(i64::MAX as int, scale as int);
            assert(q as int * scale as int > i64::MAX as int) by (nonlinear_arith)
                requires
                    q as int >= i64::MAX as int / scale as int + 1,
                    i64::MAX as int == scale as int * (i64::MAX as int / scale as int) + i64::MAX
                        as int % scale as int,
                    0 <= (i64::MAX as int % scale as int) < scale as int,
            ;
            assert(net * scale as int / entry as int >= q as int * scale as int) by {
                lemma_div_pos_is_pos(rem as int * scale as int, eu as int);
            }
        }
        i64::MAX
    } else {
        proof {
            lemma_fundamental_div_mod(i64::MAX as int, scale as int);
            assert(q as int * scale as int <= i64::MAX as int) by (nonlinear_arith)
                requires
                    q as int <= i64::MAX as int / scale as int,
                    i64::MAX as int == scale as int * (i64::MAX as int / scale as int) + i64::MAX
                        as int % scale as int,
                    0 <= (i64::MAX as int % scale as int) < scale as int,
            ;
            assert((rem as int * scale as int / eu as int) < scale as int) by {
                lemma_mul_strict_inequality_wrap(rem as int, eu as int, scale as int);
                vstd::arithmetic::div_mod::lemma_multiply_divide_lt(
                    rem as int * scale as int,
                    eu as int,
                    scale as int,
                );
            }
        }
        let head: u128 = q * (scale as u128);
        let tail: u128 = (rem * (scale as u128)) / eu;
        let total: u128 = head + tail;
        if total > i64::MAX as u128 {
            i64::MAX
        } else {
            total as i64
        }
    }
}

proof fn lemma_div_multiples_vanish_fancy_wrap(x: int, b: int, d: int, n: int)
    requires
        0 < d,
        0 <= b,
        n == d * x + b,
        x >= 0,
    ensures
        n / d == x + b / d,
{
    lemma_fundamental_div_mod(b, d);
    let q = b / d;
    let r = b % d;
    assert(n == d * (x + q) + r) by (nonlinear_arith)
        requires
            n == d * x + b,
            b == d * q + r,
    ;
    vstd::arithmetic::div_mod::lemma_div_multiples_vanish_fancy(x + q, r, d);
}

proof fn lemma_mul_strict_inequality_wrap(r: int, e: int, s: int)
    requires
        0 <= r < e,
        s >= 1,
    ensures
        r * s < e * s,
{
    vstd::arithmetic::mul::lemma_mul_strict_inequality(r, e, s);
}

/// A fee at `rate` parts per million of a wide fixed-point value.
pub fn rate_of_wide(v: i128, rate: u64) -> (r: i128)
    requires
        0 <= v <= 340282366920938463426481119284350,
        rate <= 10000,
    ensures
        r == v as int * rate as int / 1000000,
        r >= 0,
{
    proof {
        assert(v as int * rate as int <= 340282366920938463426481119284350int * 10000int)
            by (nonlinear_arith)
            requires
                0 <= v as int <= 340282366920938463426481119284350,
                0 <= rate as int <= 10000,
        ;
        vstd::arithmetic::mul::lemma_mul_nonnegative(v as int, rate as int);
        lemma_div_pos_is_pos(v as int * rate as int, 1000000);
        lemma_div_is_ordered(
            v as int * rate as int,
            3402823669209384634264811192843500000int,
            1000000,
        );
    }
    (v * rate as i128) / 1000000
}

/// From `r * d <= cap` and a positive `d`, bound `r` by `cap / d`.
pub proof fn lemma_bound_from_scaled(r: int, d: int, cap: int)
    requires
        d > 0,
        r >= 0,
        cap >= 0,
        r * d <= cap,
    ensures
        r <= cap / d,
{
    vstd::arithmetic::div_mod::lemma_div_multiples_vanish(r, d);
    assert(d * r == r * d) by (nonlinear_arith);
    lemma_div_is_ordered(r * d, cap, d);
}

/// The smaller of two `u64` values.
pub fn min_u64(a: u64, b: u64) -> (r: u64)
    ensures
        r == if a <= b { a as int } else { b as int },
{
    if a <= b {
        a
    } else {
        b
    }
}

/// The larger of two `u64` values.
pub fn max_u64(a: u64, b: u64) -> (r: u64)
    ensures
        r == if a >= b { a as int } else { b as int },
{
    if a >= b {
        a
    } else {
        b
    }
}

} // verus!
