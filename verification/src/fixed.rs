//! Fixed-point integer approximations of `e^x` and `10^x`.
//!
//! A quantity representing the real value `v` is carried as the integer
//! `round(v * 1024)`: binary fixed point at precision `2^10`. The exponential
//! of a fractional argument comes from a truncated Taylor series, the
//! exponential of a whole argument from repeated multiplication by a scaled
//! constant for Euler's number, and `10^x` from the identity
//! `10^x = e^(x * ln 10)`.

use vstd::arithmetic::div_mod::lemma_div_is_ordered;
use vstd::arithmetic::div_mod::lemma_div_multiples_vanish;
use vstd::arithmetic::div_mod::lemma_div_nonincreasing;
use vstd::arithmetic::div_mod::lemma_div_pos_is_pos;
use vstd::arithmetic::div_mod::lemma_fundamental_div_mod;
use vstd::arithmetic::div_mod::lemma_fundamental_div_mod_converse;
use vstd::arithmetic::div_mod::lemma_mod_division_less_than_divisor;
use vstd::arithmetic::mul::lemma_mul_inequality;
use vstd::arithmetic::mul::lemma_mul_left_inequality;
use vstd::arithmetic::mul::lemma_mul_nonnegative;
use vstd::arithmetic::mul::lemma_mul_upper_bound;
use vstd::prelude::*;

verus! {

/// The fixed-point scale: values are integers scaled by `2^10`.
pub const SCALE: u64 = 1024;

/// `ln(10)` at the fixed-point scale: `round(ln(10) * 1024)`.
pub const LN10: u64 = 2358;

/// Euler's number at the fixed-point scale: `round(e * 1024)`.
pub const EULER: u64 = 2784;

/// The remaining terms of the truncated Taylor series for `e^(x/1024)`,
/// starting at term index `i` with the previous term `term` and the partial
/// sum `acc`. Term `i` is `term * x / 1024 / i`, a fixed-point multiplication
/// by `x` followed by the division by `i` from the factorial; the series
/// stops after term 10, or as soon as a term rounds to zero, since every
/// later term is below the fixed-point resolution.
pub open spec fn exp_frac_from(x: int, i: int, term: int, acc: int) -> int
    decreases 11 - i,
{
    if i < 1 || i > 10 {
        acc
    } else {
        let t = term * x / 1024 / i;
        if t == 0 {
            acc
        } else {
            exp_frac_from(x, i + 1, t, acc + t)
        }
    }
}

/// `e^(x/1024)` at the fixed-point scale for a fractional argument, by the
/// truncated Taylor series `1 + x + x^2/2! + ... + x^10/10!` evaluated in
/// fixed point.
pub open spec fn exp_frac(x: int) -> int {
    exp_frac_from(x, 1, 1024, 1024)
}

/// `e^x` at the fixed-point scale for a whole exponent `x`, by `x` repeated
/// fixed-point multiplications with the scaled constant for Euler's number.
pub open spec fn exp_whole(x: int) -> int
    decreases x,
{
    if x <= 0 {
        1024
    } else {
        exp_whole(x - 1) * 2784 / 1024
    }
}

/// `e^(n/1024)` at the fixed-point scale for a non-negative exponent `n`,
/// splitting `n` into its whole part `n / 1024` and its fractional part
/// `n % 1024` so that each factor stays in the range its approximation is
/// built for.
pub open spec fn exp_split(n: int) -> int {
    exp_whole(n / 1024) * exp_frac(n % 1024) / 1024
}

/// `10^(x/1024)` at the fixed-point scale, by `10^x = e^(x * ln 10)`.
pub open spec fn pow10_fp(x: int) -> int {
    exp_split(x * 2358 / 1024)
}

/// Approximates `e^(x/1024)` for a fractional argument `0 <= x < 1024` by
/// the truncated Taylor series.
pub(crate) fn fp_exp(x: u64) -> (r: u64)
    requires
        x < 1024,
    ensures
        r == exp_frac(x as int),
{
    let mut result: u64 = SCALE;
    let mut term: u64 = SCALE;
    let mut i: u64 = 1;
    while i <= 10 && term > 0
        invariant
            x < 1024,
            1 <= i <= 11,
            term <= 1024,
            result <= 1024 + (i - 1) * 1024,
            exp_frac(x as int) == exp_frac_from(x as int, i as int, term as int, result as int),
        decreases 11 - i,
    {
        proof {
            lemma_mul_upper_bound(term as int, 1024, x as int, 1023);
            lemma_div_is_ordered((term * x) as int, 1024int * 1023, 1024);
            lemma_mul_nonnegative(term as int, x as int);
            lemma_div_pos_is_pos((term * x) as int, 1024);
            lemma_div_nonincreasing((term * x / 1024) as int, i as int);
            lemma_div_pos_is_pos((term * x / 1024) as int, i as int);
        }
        let t = term * x / 1024 / i;
        result = result + t;
        term = t;
        i = i + 1;
    }
    result
}

/// Approximates `e^x` for a whole exponent by repeated fixed-point
/// multiplication with the scaled constant for Euler's number. Each step
/// multiplies the accumulator by about 2.72, so the exponent must be small
/// enough for every intermediate to fit in a `u64`.
pub(crate) fn fp_exp_int(x: u64) -> (r: u64)
    requires
        x <= 28,
    ensures
        r == exp_whole(x as int),
{
    let mut s: u64 = SCALE;
    let mut k: u64 = 0;
    while k < x
        invariant
            x <= 28,
            k <= x,
            s == exp_whole(k as int),
        decreases x - k,
    {
        proof {
            lemma_exp_whole_monotone(k as int, 27);
            lemma_exp_whole_values();
        }
        s = s * EULER / SCALE;
        k = k + 1;
    }
    s
}

/// Approximates `10^(x/1024)` through `10^x = e^(x * ln 10)`, splitting the
/// scaled exponent into a whole and a fractional part so that each
/// exponential stays in its valid input range.
pub(crate) fn fp_pow10(x: u64) -> (r: u64)
    requires
        x <= 12800,
    ensures
        r == pow10_fp(x as int),
        r < 0x10000000000000,
{
    let exponent = x * LN10 / SCALE;
    proof {
        lemma_div_is_ordered((x * 2358) as int, 12800int * 2358, 1024);
        lemma_div_is_ordered(exponent as int, 29475, 1024);
        lemma_div_pos_is_pos(exponent as int, 1024);
        lemma_fundamental_div_mod(exponent as int, 1024);
        lemma_mod_division_less_than_divisor(exponent as int, 1024);
    }
    let e1 = exponent / SCALE;
    let e2 = exponent - e1 * SCALE;
    let whole = fp_exp_int(e1);
    let frac = fp_exp(e2);
    proof {
        lemma_exp_whole_monotone(e1 as int, 28);
        lemma_exp_whole_values();
        lemma_exp_frac_bounds(e2 as int);
        lemma_mul_upper_bound(whole as int, 1488095323625765, frac as int, 2779);
        lemma_div_is_ordered((whole * frac) as int, 1488095323625765int * 2779, 1024);
    }
    whole * frac / SCALE
}

/// The partial Taylor sum never falls below the accumulator it starts from.
proof fn lemma_exp_frac_from_ge_acc(x: int, i: int, term: int, acc: int)
    requires
        0 <= x,
        0 <= term,
    ensures
        exp_frac_from(x, i, term, acc) >= acc,
    decreases 11 - i,
{
    if 1 <= i && i <= 10 {
        let t = term * x / 1024 / i;
        lemma_mul_nonnegative(term, x);
        lemma_div_pos_is_pos(term * x, 1024);
        lemma_div_pos_is_pos(term * x / 1024, i);
        if t != 0 {
            lemma_exp_frac_from_ge_acc(x, i + 1, t, acc + t);
        }
    }
}

/// The partial Taylor sum is monotone in the argument, the previous term,
/// and the accumulator.
proof fn lemma_exp_frac_from_monotone(
    x1: int,
    x2: int,
    i: int,
    term1: int,
    term2: int,
    acc1: int,
    acc2: int,
)
    requires
        0 <= x1 <= x2,
        0 <= term1 <= term2,
        acc1 <= acc2,
    ensures
        exp_frac_from(x1, i, term1, acc1) <= exp_frac_from(x2, i, term2, acc2),
    decreases 11 - i,
{
    if 1 <= i && i <= 10 {
        let t1 = term1 * x1 / 1024 / i;
        let t2 = term2 * x2 / 1024 / i;
        lemma_mul_nonnegative(term1, x1);
        lemma_mul_nonnegative(term2, x2);
        lemma_mul_upper_bound(term1, term2, x1, x2);
        lemma_div_is_ordered(term1 * x1, term2 * x2, 1024);
        lemma_div_is_ordered(term1 * x1 / 1024, term2 * x2 / 1024, i);
        lemma_div_pos_is_pos(term1 * x1, 1024);
        lemma_div_pos_is_pos(term1 * x1 / 1024, i);
        lemma_div_pos_is_pos(term2 * x2, 1024);
        lemma_div_pos_is_pos(term2 * x2 / 1024, i);
        if t1 == 0 {
            if t2 != 0 {
                lemma_exp_frac_from_ge_acc(x2, i + 1, t2, acc2 + t2);
            }
        } else {
            lemma_exp_frac_from_monotone(x1, x2, i + 1, t1, t2, acc1 + t1, acc2 + t2);
        }
    }
}

/// `e^(x/1024)` grows with its argument.
pub proof fn lemma_exp_frac_monotone(x1: int, x2: int)
    requires
        0 <= x1 <= x2,
    ensures
        exp_frac(x1) <= exp_frac(x2),
{
    lemma_exp_frac_from_monotone(x1, x2, 1, 1024, 1024, 1024, 1024);
}

/// The truncated series at the two ends of the fractional range, by
/// unfolding the recursion on concrete arguments.
proof fn lemma_exp_frac_values()
    ensures
        exp_frac(0) == 1024,
        exp_frac(1023) == 2779,
{
    assert(exp_frac_from(0, 1, 1024, 1024) == 1024);
    assert(exp_frac_from(1023, 7, 1, 2779) == 2779);
    assert(exp_frac_from(1023, 6, 8, 2778) == 2779);
    assert(exp_frac_from(1023, 5, 42, 2770) == 2779);
    assert(exp_frac_from(1023, 4, 170, 2728) == 2779);
    assert(exp_frac_from(1023, 3, 511, 2558) == 2779);
    assert(exp_frac_from(1023, 2, 1023, 2047) == 2779);
    assert(exp_frac_from(1023, 1, 1024, 1024) == 2779);
}

/// The whole-exponent approximation at the top of its supported range, by
/// unfolding the recursion on concrete arguments.
proof fn lemma_exp_whole_values()
    ensures
        exp_whole(27) == 547345406391086,
        exp_whole(28) == 1488095323625765,
{
    assert(exp_whole(0) == 1024);
    assert(exp_whole(1) == 2784);
    assert(exp_whole(2) == 7569);
    assert(exp_whole(3) == 20578);
    assert(exp_whole(4) == 55946);
    assert(exp_whole(5) == 152103);
    assert(exp_whole(6) == 413530);
    assert(exp_whole(7) == 1124284);
    assert(exp_whole(8) == 3056647);
    assert(exp_whole(9) == 8310259);
    assert(exp_whole(10) == 22593516);
    assert(exp_whole(11) == 61426121);
    assert(exp_whole(12) == 167002266);
    assert(exp_whole(13) == 454037410);
    assert(exp_whole(14) == 1234414208);
    assert(exp_whole(15) == 3356063628);
    assert(exp_whole(16) == 9124297988);
    assert(exp_whole(17) == 24806685154);
    assert(exp_whole(18) == 67443175262);
    assert(exp_whole(19) == 183361132743);
    assert(exp_whole(20) == 498513079645);
    assert(exp_whole(21) == 1355332435284);
    assert(exp_whole(22) == 3684810058428);
    assert(exp_whole(23) == 10018077346351);
    assert(exp_whole(24) == 27236647785391);
    assert(exp_whole(25) == 74049636166531);
    assert(exp_whole(26) == 201322448327756);
    assert(exp_whole(27) == 547345406391086);
    assert(exp_whole(28) == 1488095323625765);
}

/// Over the fractional range the truncated series stays between 1.0 at scale
/// and the value it reaches at the top of the range.
pub proof fn lemma_exp_frac_bounds(x: int)
    requires
        0 <= x <= 1023,
    ensures
        1024 <= exp_frac(x) <= 2779,
{
    lemma_exp_frac_from_ge_acc(x, 1, 1024, 1024);
    lemma_exp_frac_monotone(x, 1023);
    lemma_exp_frac_values();
}

/// `e^x` for a whole exponent never falls below 1.0 at scale.
pub proof fn lemma_exp_whole_ge(x: int)
    ensures
        exp_whole(x) >= 1024,
    decreases x,
{
    if x > 0 {
        lemma_exp_whole_ge(x - 1);
        lemma_div_is_ordered(1024int * 2784, exp_whole(x - 1) * 2784, 1024);
    }
}

/// `e^x` for a whole exponent grows with the exponent.
pub proof fn lemma_exp_whole_monotone(x1: int, x2: int)
    requires
        0 <= x1 <= x2,
    ensures
        exp_whole(x1) <= exp_whole(x2),
    decreases x2 - x1,
{
    if x1 < x2 {
        lemma_exp_whole_monotone(x1, x2 - 1);
        lemma_exp_whole_ge(x2 - 1);
        let e = exp_whole(x2 - 1);
        lemma_div_is_ordered(e * 1024, e * 2784, 1024);
        lemma_div_multiples_vanish(e, 1024);
    }
}

/// Raising the split exponent by one never lowers the split exponential.
proof fn lemma_exp_split_step(n: int)
    requires
        0 <= n,
    ensures
        exp_split(n) <= exp_split(n + 1),
{
    let q = n / 1024;
    let f = n % 1024;
    lemma_fundamental_div_mod(n, 1024);
    lemma_mod_division_less_than_divisor(n, 1024);
    lemma_div_pos_is_pos(n, 1024);
    lemma_exp_whole_ge(q);
    if f < 1023 {
        lemma_fundamental_div_mod_converse(n + 1, 1024, q, f + 1);
        lemma_exp_frac_monotone(f, f + 1);
        lemma_mul_left_inequality(exp_whole(q), exp_frac(f), exp_frac(f + 1));
        lemma_div_is_ordered(exp_whole(q) * exp_frac(f), exp_whole(q) * exp_frac(f + 1), 1024);
    } else {
        lemma_fundamental_div_mod_converse(n + 1, 1024, q + 1, 0);
        lemma_exp_frac_values();
        let e = exp_whole(q);
        lemma_div_is_ordered(e * 2779, e * 2784, 1024);
        lemma_div_multiples_vanish(exp_whole(q + 1), 1024);
    }
}

/// The split exponential grows with the exponent.
proof fn lemma_exp_split_monotone(n1: int, n2: int)
    requires
        0 <= n1 <= n2,
    ensures
        exp_split(n1) <= exp_split(n2),
    decreases n2 - n1,
{
    if n1 < n2 {
        lemma_exp_split_monotone(n1, n2 - 1);
        lemma_exp_split_step(n2 - 1);
    }
}

/// `10^(x/1024)` grows with its argument.
pub proof fn lemma_pow10_fp_monotone(x1: int, x2: int)
    requires
        0 <= x1 <= x2,
    ensures
        pow10_fp(x1) <= pow10_fp(x2),
{
    lemma_mul_inequality(x1, x2, 2358);
    lemma_div_is_ordered(x1 * 2358, x2 * 2358, 1024);
    lemma_div_pos_is_pos(x1 * 2358, 1024);
    lemma_mul_nonnegative(x1, 2358);
    lemma_exp_split_monotone(x1 * 2358 / 1024, x2 * 2358 / 1024);
}

/// `10^(x/1024)` never falls below 1.0 at scale.
pub proof fn lemma_pow10_fp_ge(x: int)
    requires
        0 <= x,
    ensures
        1024 <= pow10_fp(x),
{
    let n = x * 2358 / 1024;
    lemma_mul_nonnegative(x, 2358);
    lemma_div_pos_is_pos(x * 2358, 1024);
    lemma_div_pos_is_pos(n, 1024);
    lemma_mod_division_less_than_divisor(n, 1024);
    lemma_exp_whole_ge(n / 1024);
    lemma_exp_frac_bounds(n % 1024);
    lemma_mul_inequality(1024, exp_whole(n / 1024), exp_frac(n % 1024));
    lemma_div_is_ordered(1024int * 1024, exp_whole(n / 1024) * exp_frac(n % 1024), 1024);
}

} // verus!
