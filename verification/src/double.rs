//! The double that stands for a fraction of counts, computed on integers.

use vstd::arithmetic::div_mod::{lemma_fundamental_div_mod, lemma_fundamental_div_mod_converse};
use vstd::arithmetic::power2::{
    lemma2_to64, lemma2_to64_rest, lemma_pow2_adds, lemma_pow2_unfold, pow2,
};
use vstd::prelude::*;

verus! {

/// The least significand of an IEEE 754 double that is not subnormal.
pub const LEAST_SIGNIFICAND: u64 = 0x0010_0000_0000_0000;

/// Twice the least significand: what a significand is below.
pub const SIGNIFICAND_BOUND: u64 = 0x0020_0000_0000_0000;

/// What is added to the exponent of an integral significand, so that the sum times the least
/// significand, and the significand, add up to the bit pattern of a double.
pub const EXPONENT_BIAS: i32 = 1074;

/// The bit pattern of positive infinity as an IEEE 754 double. The patterns from 1 to this one
/// are those of the positive doubles.
pub const POSITIVE_INFINITY_BITS: u64 = 0x7ff0_0000_0000_0000;

/// The bit pattern of negative zero as an IEEE 754 double. Taken from a pattern that is not
/// below it, it leaves the pattern of the magnitude.
pub const NEGATIVE_ZERO_BITS: u64 = 0x8000_0000_0000_0000;

/// A number: its significand times a power of two.
pub struct Scaled {
    pub significand: nat,
    pub exponent: int,
}

/// The integer nearest to a fraction, and of two that are equally near the even one.
pub open spec fn nearest_integer(n: nat, d: nat) -> nat {
    let quotient = n / d;
    let rest = n % d;
    if 2 * rest > d || (2 * rest == d && quotient % 2 == 1) {
        quotient + 1
    } else {
        quotient
    }
}

/// The fraction `n / d` times a power of two, rounded once `n` has been doubled as often as it takes
/// for the quotient to have as many digits as a significand.
pub open spec fn scaled_up(n: nat, d: nat, exponent: int) -> Scaled
    decreases
            (if LEAST_SIGNIFICAND * d > n {
                LEAST_SIGNIFICAND * d - n
            } else {
                0
            }),
{
    if n == 0 || n >= LEAST_SIGNIFICAND * d {
        Scaled { significand: nearest_integer(n, d), exponent }
    } else {
        scaled_up(2 * n, d, exponent - 1)
    }
}

/// The fraction `n / d` times a power of two, rounded once `d` has been doubled as often as it takes
/// for the quotient to have no more digits than a significand.
pub open spec fn scaled_down(n: nat, d: nat, exponent: int) -> Scaled
    decreases
            (if n >= SIGNIFICAND_BOUND * d {
                n + 1 - SIGNIFICAND_BOUND * d
            } else {
                0
            }),
{
    if d == 0 || n < SIGNIFICAND_BOUND * d {
        Scaled { significand: nearest_integer(n, d), exponent }
    } else {
        scaled_down(n, 2 * d, exponent + 1)
    }
}

/// The double nearest to a positive fraction `n / d` times a power of two, and of two that are
/// equally near the one with the even significand.
pub open spec fn nearest_double(n: nat, d: nat, exponent: int) -> Scaled {
    if n < LEAST_SIGNIFICAND * d {
        scaled_up(n, d, exponent)
    } else {
        scaled_down(n, d, exponent)
    }
}

/// The double that one count divided by another gives: both are rounded to doubles, and so is
/// their quotient.
pub open spec fn quotient_double(n: nat, d: nat) -> Scaled {
    let above = nearest_double(n, 1, 0);
    let below = nearest_double(d, 1, 0);
    nearest_double(above.significand, below.significand, above.exponent - below.exponent)
}

/// The bit pattern of one count divided by another as doubles, and that of zero where the divisor
/// is zero.
pub open spec fn quotient_bits(n: nat, d: nat) -> u64 {
    if n == 0 || d == 0 {
        0
    } else {
        let quotient = quotient_double(n, d);
        ((quotient.exponent + EXPONENT_BIAS) * LEAST_SIGNIFICAND + quotient.significand) as u64
    }
}

/// The bit pattern of a double's magnitude.
pub open spec fn magnitude(bits: u64) -> u64 {
    if bits >= NEGATIVE_ZERO_BITS {
        (bits - NEGATIVE_ZERO_BITS) as u64
    } else {
        bits
    }
}

/// Two doubles are equal as numbers, by their bit patterns. One that is no number equals none, and
/// both zeros are equal.
pub open spec fn double_equal(left: u64, right: u64) -> bool {
    ||| left == right && magnitude(left) <= POSITIVE_INFINITY_BITS
    ||| magnitude(left) == 0 && magnitude(right) == 0
}

proof fn bound_is_twice_the_least(d: nat)
    ensures
        SIGNIFICAND_BOUND * d == 2 * (LEAST_SIGNIFICAND * d),
        LEAST_SIGNIFICAND * (2 * d) == SIGNIFICAND_BOUND * d,
        d <= SIGNIFICAND_BOUND ==> SIGNIFICAND_BOUND * d <= u128::MAX,
        LEAST_SIGNIFICAND * d <= u64::MAX ==> d <= 4096,
{
    assert(SIGNIFICAND_BOUND * d == 2 * (LEAST_SIGNIFICAND * d)) by (nonlinear_arith);
    assert(LEAST_SIGNIFICAND * (2 * d) == SIGNIFICAND_BOUND * d) by (nonlinear_arith);
    assert(d <= SIGNIFICAND_BOUND ==> SIGNIFICAND_BOUND * d <= u128::MAX) by (nonlinear_arith);
    assert(LEAST_SIGNIFICAND * d <= u64::MAX ==> d <= 4096) by (nonlinear_arith);
}

/// A quotient that has as many digits as a significand is rounded to one, or to the bound.
proof fn rounding_bounds(n: nat, d: nat)
    requires
        d > 0,
        LEAST_SIGNIFICAND * d <= n < SIGNIFICAND_BOUND * d,
    ensures
        LEAST_SIGNIFICAND <= nearest_integer(n, d) <= SIGNIFICAND_BOUND,
{
    let q = n / d;
    let r = n % d;
    lemma_fundamental_div_mod(n as int, d as int);
    assert(LEAST_SIGNIFICAND <= q < SIGNIFICAND_BOUND) by (nonlinear_arith)
        requires
            n == d * q + r,
            r < d,
            LEAST_SIGNIFICAND * d <= n < SIGNIFICAND_BOUND * d,
    ;
}

/// The nearest integer is no further from a fraction than a half.
proof fn rounding_error(n: nat, d: nat)
    requires
        d > 0,
    ensures
        -d <= 2 * (n - nearest_integer(n, d) * d) <= d,
{
    let q = n / d;
    let r = n % d;
    lemma_fundamental_div_mod(n as int, d as int);
    assert(n - q * d == r) by (nonlinear_arith)
        requires
            n == d * q + r,
    ;
    assert((q + 1) * d == q * d + d) by (nonlinear_arith);
}

/// Doubling `n` gives a significand, after at most as many steps as are known to be enough. The
/// result is within half a unit of the fraction.
proof fn scaled_up_bounds(n: nat, d: nat, exponent: int, steps: nat)
    requires
        0 < n < SIGNIFICAND_BOUND * d,
        n * pow2(steps) >= LEAST_SIGNIFICAND * d,
    ensures
        ({
            let r = scaled_up(n, d, exponent);
            let doubled = n * pow2((exponent - r.exponent) as nat);
            &&& LEAST_SIGNIFICAND <= r.significand <= SIGNIFICAND_BOUND
            &&& exponent - steps <= r.exponent <= exponent
            &&& -d <= 2 * (doubled - r.significand * d) <= d
        }),
    decreases steps,
{
    lemma2_to64();
    if n >= LEAST_SIGNIFICAND * d {
        rounding_bounds(n, d);
        rounding_error(n, d);
        assert(n * pow2(0) == n) by (nonlinear_arith)
            requires
                pow2(0) == 1,
        ;
    } else {
        if steps == 0 {
            assert(n * pow2(0) == n) by (nonlinear_arith)
                requires
                    pow2(0) == 1,
            ;
        }
        lemma_pow2_unfold(steps);
        assert((2 * n) * pow2((steps - 1) as nat) == n * pow2(steps)) by (nonlinear_arith)
            requires
                pow2(steps) == 2 * pow2((steps - 1) as nat),
        ;
        scaled_up_bounds(2 * n, d, exponent - 1, (steps - 1) as nat);
        let r = scaled_up(n, d, exponent);
        let k = (exponent - r.exponent) as nat;
        lemma_pow2_unfold(k);
        assert((2 * n) * pow2((k - 1) as nat) == n * pow2(k)) by (nonlinear_arith)
            requires
                pow2(k) == 2 * pow2((k - 1) as nat),
        ;
    }
}

/// Doubling `d` gives a significand, after at most as many steps as are known to be enough. The
/// result is within half a unit of the fraction.
proof fn scaled_down_bounds(n: nat, d: nat, exponent: int, steps: nat)
    requires
        0 < d,
        n >= LEAST_SIGNIFICAND * d,
        n < SIGNIFICAND_BOUND * d * pow2(steps),
    ensures
        ({
            let r = scaled_down(n, d, exponent);
            let doubled = d * pow2((r.exponent - exponent) as nat);
            &&& LEAST_SIGNIFICAND <= r.significand <= SIGNIFICAND_BOUND
            &&& exponent <= r.exponent <= exponent + steps
            &&& -doubled <= 2 * (n - r.significand * doubled) <= doubled
        }),
    decreases steps,
{
    lemma2_to64();
    if n < SIGNIFICAND_BOUND * d {
        rounding_bounds(n, d);
        rounding_error(n, d);
        assert(d * pow2(0) == d) by (nonlinear_arith)
            requires
                pow2(0) == 1,
        ;
    } else {
        if steps == 0 {
            assert(SIGNIFICAND_BOUND * d * pow2(0) == SIGNIFICAND_BOUND * d) by (nonlinear_arith)
                requires
                    pow2(0) == 1,
            ;
        }
        lemma_pow2_unfold(steps);
        assert(SIGNIFICAND_BOUND * (2 * d) * pow2((steps - 1) as nat) == SIGNIFICAND_BOUND * d
            * pow2(steps)) by (nonlinear_arith)
            requires
                pow2(steps) == 2 * pow2((steps - 1) as nat),
        ;
        scaled_down_bounds(n, 2 * d, exponent + 1, (steps - 1) as nat);
        let r = scaled_down(n, d, exponent);
        let k = (r.exponent - exponent) as nat;
        lemma_pow2_unfold(k);
        assert((2 * d) * pow2((k - 1) as nat) == d * pow2(k)) by (nonlinear_arith)
            requires
                pow2(k) == 2 * pow2((k - 1) as nat),
        ;
    }
}

/// How often a numerator is doubled at most.
const UP_STEPS: i32 = 106;

/// How often a denominator is doubled at most.
const DOWN_STEPS: i32 = 11;

proof fn enough_steps()
    ensures
        pow2(UP_STEPS as nat) == SIGNIFICAND_BOUND * SIGNIFICAND_BOUND,
        pow2(DOWN_STEPS as nat) == 2048,
{
    lemma2_to64();
    lemma2_to64_rest();
    lemma_pow2_adds(53, 53);
}

/// Where a double nearest to a fraction of significands, or of counts, lies.
proof fn nearest_double_bounds(n: nat, d: nat, exponent: int)
    requires
        0 < n <= u64::MAX,
        0 < d <= SIGNIFICAND_BOUND,
    ensures
        ({
            let r = nearest_double(n, d, exponent);
            let up = n * pow2((exponent - r.exponent) as nat);
            let down = d * pow2((r.exponent - exponent) as nat);
            &&& LEAST_SIGNIFICAND <= r.significand <= SIGNIFICAND_BOUND
            &&& exponent - UP_STEPS <= r.exponent <= exponent + DOWN_STEPS
            &&& r.exponent <= exponent ==> -d <= 2 * (up - r.significand * d) <= d
            &&& r.exponent >= exponent ==> -down <= 2 * (n - r.significand * down) <= down
        }),
{
    enough_steps();
    lemma2_to64();
    assert(n * pow2(0) == n && d * pow2(0) == d) by (nonlinear_arith)
        requires
            pow2(0) == 1,
    ;
    if n < LEAST_SIGNIFICAND * d {
        let p = pow2(UP_STEPS as nat);
        assert(n * p >= LEAST_SIGNIFICAND * d) by (nonlinear_arith)
            requires
                n >= 1,
                d <= SIGNIFICAND_BOUND,
                p == SIGNIFICAND_BOUND * SIGNIFICAND_BOUND,
                LEAST_SIGNIFICAND <= SIGNIFICAND_BOUND,
        ;
        scaled_up_bounds(n, d, exponent, UP_STEPS as nat);
    } else {
        let p = pow2(DOWN_STEPS as nat);
        assert(n < SIGNIFICAND_BOUND * d * p) by (nonlinear_arith)
            requires
                n <= u64::MAX,
                d >= 1,
                p == 2048,
        ;
        scaled_down_bounds(n, d, exponent, DOWN_STEPS as nat);
    }
}

/// A fraction of counts is a positive double below infinity, or zero.
pub proof fn quotient_is_finite(n: nat, d: nat)
    requires
        n <= u64::MAX,
        d <= u64::MAX,
    ensures
        quotient_bits(n, d) < POSITIVE_INFINITY_BITS,
        quotient_bits(n, d) > 0 <==> n > 0 && d > 0,
        n > 0 && d > 0 ==> quotient_bits(n, d) == (quotient_double(n, d).exponent + EXPONENT_BIAS)
            * LEAST_SIGNIFICAND + quotient_double(n, d).significand,
{
    if n > 0 && d > 0 {
        let above = nearest_double(n, 1, 0);
        let below = nearest_double(d, 1, 0);
        nearest_double_bounds(n, 1, 0);
        nearest_double_bounds(d, 1, 0);
        nearest_double_bounds(
            above.significand,
            below.significand,
            above.exponent - below.exponent,
        );
    }
}

/// The double nearest to a fraction is within half a unit of it: of the numbers with its exponent
/// it is one of the nearest.
pub proof fn nearest_double_is_near(n: nat, d: nat, exponent: int)
    requires
        0 < n <= u64::MAX,
        0 < d <= SIGNIFICAND_BOUND,
    ensures
        ({
            let r = nearest_double(n, d, exponent);
            let up = n * pow2((exponent - r.exponent) as nat);
            let down = d * pow2((r.exponent - exponent) as nat);
            &&& LEAST_SIGNIFICAND <= r.significand <= SIGNIFICAND_BOUND
            &&& r.exponent <= exponent ==> -d <= 2 * (up - r.significand * d) <= d
            &&& r.exponent >= exponent ==> -down <= 2 * (n - r.significand * down) <= down
        }),
{
    nearest_double_bounds(n, d, exponent);
}

/// A fraction may be expanded before it is rounded.
proof fn expanding_keeps_rounding(n: nat, d: nat, c: nat)
    requires
        c > 0,
        d > 0,
    ensures
        nearest_integer(c * n, c * d) == nearest_integer(n, d),
{
    let q = n / d;
    let r = n % d;
    lemma_fundamental_div_mod(n as int, d as int);
    assert(c * n == q * (c * d) + c * r && 0 <= c * r < c * d && c * d > 0) by (nonlinear_arith)
        requires
            n == d * q + r,
            0 <= r < d,
            c > 0,
    ;
    lemma_fundamental_div_mod_converse((c * n) as int, (c * d) as int, q as int, (c * r) as int);
    assert((2 * (c * r) > c * d) == (2 * r > d)) by (nonlinear_arith)
        requires
            c > 0,
    ;
    assert((2 * (c * r) == c * d) == (2 * r == d)) by (nonlinear_arith)
        requires
            c > 0,
    ;
}

proof fn expanding_keeps_scaled_up(n: nat, d: nat, exponent: int, c: nat)
    requires
        c > 0,
        d > 0,
    ensures
        scaled_up(c * n, c * d, exponent) == scaled_up(n, d, exponent),
    decreases
            (if LEAST_SIGNIFICAND * d > n {
                LEAST_SIGNIFICAND * d - n
            } else {
                0
            }),
{
    expanding_keeps_rounding(n, d, c);
    assert((c * n >= LEAST_SIGNIFICAND * (c * d)) == (n >= LEAST_SIGNIFICAND * d)) by (
    nonlinear_arith)
        requires
            c > 0,
    ;
    assert((c * n == 0) == (n == 0)) by (nonlinear_arith)
        requires
            c > 0,
    ;
    if n > 0 && n < LEAST_SIGNIFICAND * d {
        assert(2 * (c * n) == c * (2 * n)) by (nonlinear_arith);
        expanding_keeps_scaled_up(2 * n, d, exponent - 1, c);
    }
}

proof fn expanding_keeps_scaled_down(n: nat, d: nat, exponent: int, c: nat)
    requires
        c > 0,
        d > 0,
    ensures
        scaled_down(c * n, c * d, exponent) == scaled_down(n, d, exponent),
    decreases
            (if n >= SIGNIFICAND_BOUND * d {
                n + 1 - SIGNIFICAND_BOUND * d
            } else {
                0
            }),
{
    expanding_keeps_rounding(n, d, c);
    assert((c * n < SIGNIFICAND_BOUND * (c * d)) == (n < SIGNIFICAND_BOUND * d)) by (
    nonlinear_arith)
        requires
            c > 0,
    ;
    assert(c * d > 0) by (nonlinear_arith)
        requires
            c > 0,
            d > 0,
    ;
    if n >= SIGNIFICAND_BOUND * d {
        assert(2 * (c * d) == c * (2 * d)) by (nonlinear_arith);
        expanding_keeps_scaled_down(n, 2 * d, exponent + 1, c);
    }
}

/// Expanding a fraction leaves the double nearest to it.
pub proof fn expanding_keeps_the_double(n: nat, d: nat, exponent: int, c: nat)
    requires
        c > 0,
        d > 0,
    ensures
        nearest_double(c * n, c * d, exponent) == nearest_double(n, d, exponent),
{
    expanding_keeps_scaled_up(n, d, exponent, c);
    expanding_keeps_scaled_down(n, d, exponent, c);
    assert((c * n < LEAST_SIGNIFICAND * (c * d)) == (n < LEAST_SIGNIFICAND * d)) by (
    nonlinear_arith)
        requires
            c > 0,
    ;
}

/// A power of two may move between the fraction and the exponent.
proof fn powers_move(n: nat, d: nat, exponent: int)
    requires
        n > 0,
        d > 0,
    ensures
        nearest_double(2 * n, d, exponent - 1) == nearest_double(n, d, exponent),
        nearest_double(n, 2 * d, exponent + 1) == nearest_double(n, d, exponent),
{
    numerator_doubles(n, d, exponent);
    numerator_doubles(n, 2 * d, exponent + 1);
    expanding_keeps_the_double(n, d, exponent, 2);
}

proof fn numerator_doubles(n: nat, d: nat, exponent: int)
    requires
        n > 0,
        d > 0,
    ensures
        nearest_double(2 * n, d, exponent - 1) == nearest_double(n, d, exponent),
{
    bound_is_twice_the_least(d);
    if n >= LEAST_SIGNIFICAND * d {
        expanding_keeps_scaled_down(n, d, exponent, 2);
        assert(scaled_down(2 * n, d, exponent - 1) == scaled_down(2 * n, 2 * d, exponent));
    } else {
        assert(scaled_up(n, d, exponent) == scaled_up(2 * n, d, exponent - 1));
        if 2 * n >= LEAST_SIGNIFICAND * d {
            assert(scaled_down(2 * n, d, exponent - 1) == scaled_up(2 * n, d, exponent - 1));
        }
    }
}

/// A significand that was scaled up stands for the same number.
proof fn scaling_is_exact(n: nat, scale: int, other: nat, exponent: int)
    requires
        0 < n < SIGNIFICAND_BOUND,
        other > 0,
    ensures
        ({
            let r = scaled_up(n, 1, scale);
            &&& nearest_double(r.significand, other, exponent + r.exponent) == nearest_double(
                n,
                other,
                exponent + scale,
            )
            &&& nearest_double(other, r.significand, exponent - r.exponent) == nearest_double(
                other,
                n,
                exponent - scale,
            )
        }),
    decreases SIGNIFICAND_BOUND - n,
{
    if n < LEAST_SIGNIFICAND {
        scaling_is_exact(2 * n, scale - 1, other, exponent);
        powers_move(n, other, exponent + scale);
        powers_move(other, n, exponent - scale);
    } else {
        assert(nearest_integer(n, 1) == n);
    }
}

/// A count that a double can hold is not changed by becoming one.
proof fn small_counts_are_exact(n: nat, other: nat, exponent: int)
    requires
        0 < n <= SIGNIFICAND_BOUND,
        other > 0,
    ensures
        ({
            let r = nearest_double(n, 1, 0);
            &&& nearest_double(r.significand, other, exponent + r.exponent) == nearest_double(
                n,
                other,
                exponent,
            )
            &&& nearest_double(other, r.significand, exponent - r.exponent) == nearest_double(
                other,
                n,
                exponent,
            )
        }),
{
    if n < LEAST_SIGNIFICAND {
        scaling_is_exact(n, 0, other, exponent);
    } else if n < SIGNIFICAND_BOUND {
        assert(nearest_integer(n, 1) == n);
    } else {
        assert(nearest_double(n, 1, 0) == scaled_down(n, 2, 1));
        assert(nearest_integer(n, 2) == LEAST_SIGNIFICAND);
        powers_move(LEAST_SIGNIFICAND as nat, other, exponent + 1);
        powers_move(other, LEAST_SIGNIFICAND as nat, exponent - 1);
    }
}

/// The quotient of counts that a double can hold is the double nearest to their fraction.
pub proof fn quotients_are_nearest(n: nat, d: nat)
    requires
        0 < n <= SIGNIFICAND_BOUND,
        0 < d <= SIGNIFICAND_BOUND,
    ensures
        quotient_double(n, d) == nearest_double(n, d, 0),
{
    let above = nearest_double(n, 1, 0);
    let below = nearest_double(d, 1, 0);
    nearest_double_bounds(n, 1, 0);
    small_counts_are_exact(d, above.significand, above.exponent);
    small_counts_are_exact(n, d, 0);
}

/// Equal fractions of counts that a double can hold are one double.
pub proof fn equal_fractions_are_one_double(n: nat, d: nat, other_n: nat, other_d: nat)
    requires
        0 < n <= SIGNIFICAND_BOUND,
        0 < d <= SIGNIFICAND_BOUND,
        0 < other_n <= SIGNIFICAND_BOUND,
        0 < other_d <= SIGNIFICAND_BOUND,
        n * other_d == other_n * d,
    ensures
        quotient_bits(n, d) == quotient_bits(other_n, other_d),
{
    quotients_are_nearest(n, d);
    quotients_are_nearest(other_n, other_d);
    expanding_keeps_the_double(n, d, 0, other_d);
    expanding_keeps_the_double(other_n, other_d, 0, d);
    assert(other_d * n == d * other_n && other_d * d == d * other_d) by (nonlinear_arith)
        requires
            n * other_d == other_n * d,
    ;
}

fn round(n: u128, d: u128) -> (r: u64)
    requires
        d > 0,
        LEAST_SIGNIFICAND * d <= n < SIGNIFICAND_BOUND * d,
        2 * d <= u128::MAX,
    ensures
        r == nearest_integer(n as nat, d as nat),
{
    proof {
        rounding_bounds(n as nat, d as nat);
    }
    let quotient: u128 = n / d;
    let rest: u128 = n % d;
    if 2 * rest > d || (2 * rest == d && quotient % 2 == 1) {
        (quotient + 1) as u64
    } else {
        quotient as u64
    }
}

fn round_to_double(n: u64, d: u64, exponent: i32) -> (r: (u64, i32))
    requires
        0 < n,
        0 < d <= SIGNIFICAND_BOUND,
        -1000 <= exponent <= 1000,
    ensures
        ({
            let nearest = nearest_double(n as nat, d as nat, exponent as int);
            &&& r.0 == nearest.significand
            &&& r.1 == nearest.exponent
        }),
{
    let mut above: u128 = n as u128;
    let mut below: u128 = d as u128;
    let mut scale: i32 = exponent;
    let ghost goal = nearest_double(n as nat, d as nat, exponent as int);
    proof {
        nearest_double_bounds(n as nat, d as nat, exponent as int);
        bound_is_twice_the_least(d as nat);
    }
    if above < LEAST_SIGNIFICAND as u128 * below {
        while above < LEAST_SIGNIFICAND as u128 * below
            invariant
                0 < above < SIGNIFICAND_BOUND * below <= u128::MAX,
                SIGNIFICAND_BOUND * below == 2 * (LEAST_SIGNIFICAND * below),
                0 < below <= SIGNIFICAND_BOUND,
                scale <= 1000,
                goal.exponent >= -1106,
                goal == scaled_up(above as nat, below as nat, scale as int),
            decreases SIGNIFICAND_BOUND * below - above,
        {
            proof {
                scaled_up_only_lowers((2 * above) as nat, below as nat, scale - 1);
            }
            above = 2 * above;
            scale = scale - 1;
        }
    } else {
        while above >= SIGNIFICAND_BOUND as u128 * below
            invariant
                LEAST_SIGNIFICAND * below <= above <= u64::MAX,
                0 < below <= 4096,
                SIGNIFICAND_BOUND * below <= u128::MAX,
                scale >= -1000,
                goal.exponent <= 1011,
                goal == scaled_down(above as nat, below as nat, scale as int),
            decreases above - below,
        {
            proof {
                scaled_down_only_raises(above as nat, (2 * below) as nat, scale + 1);
                bound_is_twice_the_least(below as nat);
                bound_is_twice_the_least((2 * below) as nat);
            }
            below = 2 * below;
            scale = scale + 1;
        }
    }
    (round(above, below), scale)
}

proof fn scaled_up_only_lowers(n: nat, d: nat, exponent: int)
    ensures
        scaled_up(n, d, exponent).exponent <= exponent,
    decreases
            (if LEAST_SIGNIFICAND * d > n {
                LEAST_SIGNIFICAND * d - n
            } else {
                0
            }),
{
    if n > 0 && n < LEAST_SIGNIFICAND * d {
        scaled_up_only_lowers(2 * n, d, exponent - 1);
    }
}

proof fn scaled_down_only_raises(n: nat, d: nat, exponent: int)
    ensures
        scaled_down(n, d, exponent).exponent >= exponent,
    decreases
            (if n >= SIGNIFICAND_BOUND * d {
                n + 1 - SIGNIFICAND_BOUND * d
            } else {
                0
            }),
{
    if d > 0 && n >= SIGNIFICAND_BOUND * d {
        scaled_down_only_raises(n, 2 * d, exponent + 1);
    }
}

/// The bit pattern of one count divided by another as doubles, and that of zero where the divisor
/// is zero.
pub fn divide(n: usize, d: usize) -> (r: u64)
    ensures
        r == quotient_bits(n as nat, d as nat),
{
    if n == 0 || d == 0 {
        return 0;
    }
    proof {
        nearest_double_bounds(n as nat, 1, 0);
        nearest_double_bounds(d as nat, 1, 0);
        quotient_is_finite(n as nat, d as nat);
    }
    let above = round_to_double(n as u64, 1, 0);
    let below = round_to_double(d as u64, 1, 0);
    let quotient = round_to_double(above.0, below.0, above.1 - below.1);
    proof {
        nearest_double_bounds(above.0 as nat, below.0 as nat, above.1 - below.1);
    }
    (quotient.1 + EXPONENT_BIAS) as u64 * LEAST_SIGNIFICAND + quotient.0
}

fn magnitude_bits(bits: u64) -> (r: u64)
    ensures
        r == magnitude(bits),
{
    if bits >= NEGATIVE_ZERO_BITS {
        bits - NEGATIVE_ZERO_BITS
    } else {
        bits
    }
}

/// Tells whether two doubles are equal as numbers, by their bit patterns.
pub fn same_double(left: u64, right: u64) -> (r: bool)
    ensures
        r == double_equal(left, right),
{
    let size = magnitude_bits(left);
    (left == right && size <= POSITIVE_INFINITY_BITS) || (size == 0 && magnitude_bits(right) == 0)
}

/// A count divided by itself is the double one.
pub proof fn equal_counts_are_one(n: nat)
    requires
        0 < n <= u64::MAX,
    ensures
        quotient_bits(n, n) == 0x3ff0_0000_0000_0000,
{
    let s = nearest_double(n, 1, 0).significand;
    nearest_double_bounds(n, 1, 0);
    expanding_keeps_the_double(1, 1, 0, s);
    assert(s * 1 == s);
    reveal_with_fuel(scaled_up, 54);
    assert(nearest_double(1, 1, 0) == (Scaled {
        significand: LEAST_SIGNIFICAND as nat,
        exponent: -52,
    }));
}

/// No count, and a division by no count, is zero.
pub proof fn no_count_is_zero(n: nat, d: nat)
    ensures
        quotient_bits(0, d) == 0,
        quotient_bits(n, 0) == 0,
{
}

/// A fraction is rounded to one of the integers next to it, never further than half away, and to an
/// even one where it lies in the middle.
pub proof fn middles_are_rounded_to_even(n: nat, d: nat)
    requires
        d > 0,
    ensures
        -d <= 2 * (n - nearest_integer(n, d) * d) <= d,
        2 * (n % d) == d ==> nearest_integer(n, d) % 2 == 0,
{
    let quotient = n / d;
    lemma_fundamental_div_mod(n as int, d as int);
    assert(quotient * d == d * quotient && (quotient + 1) * d == d * quotient + d) by (
    nonlinear_arith);
}

/// Doubles are equal as numbers where their patterns are, but that what is no number equals nothing
/// and that the two zeros are equal.
pub proof fn doubles_are_compared_as_numbers(bits: u64, other: u64)
    ensures
        double_equal(0, 0x8000_0000_0000_0000),
        double_equal(0x8000_0000_0000_0000, 0),
        double_equal(bits, bits) <==> bits <= 0x7ff0_0000_0000_0000 || 0x8000_0000_0000_0000 <= bits
            <= 0xfff0_0000_0000_0000,
        double_equal(bits, other) && bits != other ==> (bits == 0 && other == 0x8000_0000_0000_0000)
            || (bits == 0x8000_0000_0000_0000 && other == 0),
{
}

} // verus!
