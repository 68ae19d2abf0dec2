//! Fixed-point arithmetic.
//!
//! Every scalar quantity of the crate (a reading, an axis bound, a smoothing
//! factor) is an `i64` that counts millionths: `ONE` stands for `1.0`. Each
//! operation has one exact mathematical meaning, stated here over `int`:
//! midpoints and products are rounded towards negative infinity, a blend
//! towards its target, padding upwards, and what leaves the range of `i64`
//! is taken as the nearest end of that range.

use vstd::arithmetic::div_mod::{lemma_div_is_ordered, lemma_fundamental_div_mod_converse};
use vstd::prelude::*;

verus! {

/// The fixed-point representation of `1.0`.
pub const ONE: i64 = 1_000_000;

/// The fixed-point representation of `0.5`.
pub const HALF: i64 = 500_000;

/// `v` limited to the closed interval from `0` to `ONE`.
pub open spec fn clamp_unit(v: int) -> int {
    if v < 0 {
        0
    } else if v > ONE as int {
        ONE as int
    } else {
        v
    }
}

/// `v` limited to the range of `i64`.
pub open spec fn saturated(v: int) -> int {
    if v < i64::MIN as int {
        i64::MIN as int
    } else if v > i64::MAX as int {
        i64::MAX as int
    } else {
        v
    }
}

/// The larger of two integers.
pub open spec fn max_of(a: int, b: int) -> int {
    if a >= b {
        a
    } else {
        b
    }
}

/// The absolute value of an integer.
pub open spec fn magnitude(v: int) -> int {
    if v < 0 {
        -v
    } else {
        v
    }
}

/// The point halfway between `lo` and `hi`, rounded down.
pub open spec fn midpoint(lo: int, hi: int) -> int {
    (lo + hi) / 2
}

/// The fixed-point product `v * frac`, rounded down.
pub open spec fn scaled(v: int, frac: int) -> int {
    (v * frac) / (ONE as int)
}

/// The part `alpha` of a distance `d >= 0`, rounded up: a positive part of
/// a positive distance is at least one step.
pub open spec fn part_of(d: int, alpha: int) -> int {
    (d * alpha + (ONE as int - 1)) / (ONE as int)
}

/// `ONE` times the weighted mean `current * (1 - alpha) + target * alpha`,
/// with `alpha` limited to the closed interval from `0.0` to `1.0`.
pub open spec fn weighted_sum(current: int, target: int, alpha: int) -> int {
    let a = clamp_unit(alpha);
    current * (ONE as int - a) + target * a
}

/// The weighted mean `current * (1 - alpha) + target * alpha`, with `alpha`
/// limited to the closed interval from `0.0` to `1.0`, rounded towards
/// `target`.
pub open spec fn blend(current: int, target: int, alpha: int) -> int {
    if target >= current {
        (weighted_sum(current, target, alpha) + (ONE as int - 1)) / (ONE as int)
    } else {
        weighted_sum(current, target, alpha) / (ONE as int)
    }
}

/// The part `alpha` of a distance is between nothing and all of it, nothing
/// at `alpha = 0.0`, all of it at `alpha = 1.0`, and at least one step where
/// both are positive.
pub proof fn lemma_part_of(d: int, alpha: int)
    requires
        d >= 0,
        0 <= alpha <= ONE as int,
    ensures
        0 <= part_of(d, alpha) <= d,
        alpha == 0 ==> part_of(d, alpha) == 0,
        alpha == ONE as int ==> part_of(d, alpha) == d,
        alpha > 0 && d > 0 ==> part_of(d, alpha) >= 1,
{
    let one = ONE as int;
    let n = d * alpha + (one - 1);
    assert(0 <= d * alpha <= d * one) by (nonlinear_arith)
        requires
            d >= 0,
            0 <= alpha <= one,
    ;
    let q = n / one;
    let r = n % one;
    assert(n == q * one + r && 0 <= r < one) by (nonlinear_arith)
        requires
            one > 0,
            q == n / one,
            r == n % one,
    ;
    assert(0 <= q <= d) by (nonlinear_arith)
        requires
            0 <= n <= d * one + (one - 1),
            n == q * one + r,
            0 <= r < one,
            one > 0,
    ;
    if alpha == 0 {
        assert(d * alpha == 0) by (nonlinear_arith)
            requires
                alpha == 0,
        ;
        lemma_fundamental_div_mod_converse(n, one, 0, one - 1);
    }
    if alpha == one {
        lemma_fundamental_div_mod_converse(n, one, d, one - 1);
    }
    if alpha > 0 && d > 0 {
        assert(d * alpha >= 1) by (nonlinear_arith)
            requires
                d >= 1,
                alpha >= 1,
        ;
        assert(q >= 1) by (nonlinear_arith)
            requires
                n >= one,
                n == q * one + r,
                0 <= r < one,
                one > 0,
        ;
    }
}

/// A blend is `current` moved towards `target` by the part `alpha` of the
/// distance between them.
pub proof fn lemma_blend_step(current: int, target: int, alpha: int)
    ensures
        target >= current ==> blend(current, target, alpha) == current + part_of(
            target - current,
            clamp_unit(alpha),
        ),
        target < current ==> blend(current, target, alpha) == current - part_of(
            current - target,
            clamp_unit(alpha),
        ),
{
    let a = clamp_unit(alpha);
    let one = ONE as int;
    let n = weighted_sum(current, target, alpha);
    if target >= current {
        let d = target - current;
        let x = d * a + (one - 1);
        let q = x / one;
        let r = x % one;
        assert(x == q * one + r && 0 <= r < one) by (nonlinear_arith)
            requires
                one > 0,
                q == x / one,
                r == x % one,
        ;
        assert(n + (one - 1) == (current + q) * one + r) by (nonlinear_arith)
            requires
                n == current * (one - a) + target * a,
                d == target - current,
                d * a + (one - 1) == q * one + r,
        ;
        lemma_fundamental_div_mod_converse(n + (one - 1), one, current + q, r);
    } else {
        let e = current - target;
        let x = e * a + (one - 1);
        let q = x / one;
        let r = x % one;
        assert(x == q * one + r && 0 <= r < one) by (nonlinear_arith)
            requires
                one > 0,
                q == x / one,
                r == x % one,
        ;
        assert(n == (current - q) * one + (one - 1 - r)) by (nonlinear_arith)
            requires
                n == current * (one - a) + target * a,
                e == current - target,
                e * a + (one - 1) == q * one + r,
        ;
        lemma_fundamental_div_mod_converse(n, one, current - q, one - 1 - r);
    }
}

/// A blend never leaves the interval spanned by its two end points, stays
/// at `current` at `alpha = 0.0`, reaches `target` at `alpha = 1.0`, and
/// moves whenever `alpha` is positive and the end points differ.
pub proof fn lemma_blend(current: int, target: int, alpha: int)
    ensures
        current <= target ==> current <= blend(current, target, alpha) <= target,
        target <= current ==> target <= blend(current, target, alpha) <= current,
        alpha <= 0 ==> blend(current, target, alpha) == current,
        alpha >= ONE as int ==> blend(current, target, alpha) == target,
        alpha > 0 && current < target ==> blend(current, target, alpha) > current,
        alpha > 0 && current > target ==> blend(current, target, alpha) < current,
{
    let a = clamp_unit(alpha);
    lemma_blend_step(current, target, alpha);
    if target >= current {
        lemma_part_of(target - current, a);
    } else {
        lemma_part_of(current - target, a);
    }
}

/// Blending keeps the order of two values: the lower one blended towards
/// the lower target stays below the higher one blended towards the higher
/// target.
pub proof fn lemma_blend_monotone(c0: int, t0: int, c1: int, t1: int, alpha: int)
    requires
        c0 <= c1,
        t0 <= t1,
    ensures
        blend(c0, t0, alpha) <= blend(c1, t1, alpha),
{
    let a = clamp_unit(alpha);
    let one = ONE as int;
    let n0 = weighted_sum(c0, t0, alpha);
    let n1 = weighted_sum(c1, t1, alpha);
    assert(n0 <= n1) by (nonlinear_arith)
        requires
            n0 == c0 * (one - a) + t0 * a,
            n1 == c1 * (one - a) + t1 * a,
            c0 <= c1,
            t0 <= t1,
            0 <= a <= one,
    ;
    if t0 >= c0 && t1 < c1 {
        lemma_blend(c0, t0, alpha);
        lemma_blend(c1, t1, alpha);
    } else if t0 >= c0 {
        lemma_div_is_ordered(n0 + (one - 1), n1 + (one - 1), one);
    } else if t1 < c1 {
        lemma_div_is_ordered(n0, n1, one);
    } else {
        lemma_div_is_ordered(n0, n1, one);
        lemma_div_is_ordered(n1, n1 + (one - 1), one);
    }
}

/// Limits a fraction to the closed interval from `0.0` to `1.0`.
pub fn clamp_fraction(v: i64) -> (r: i64)
    ensures
        r == clamp_unit(v as int),
{
    if v < 0 {
        0
    } else if v > ONE {
        ONE
    } else {
        v
    }
}

/// Limits a wide intermediate result to the range of `i64`.
pub fn saturate(v: i128) -> (r: i64)
    ensures
        r == saturated(v as int),
{
    if v < i64::MIN as i128 {
        i64::MIN
    } else if v > i64::MAX as i128 {
        i64::MAX
    } else {
        v as i64
    }
}

/// Division rounded towards negative infinity.
pub(crate) fn floor_div(n: i128, d: i128) -> (q: i128)
    requires
        d > 0,
        n > i128::MIN,
    ensures
        q == (n as int) / (d as int),
{
    if n >= 0 {
        n / d
    } else {
        let m: i128 = -n;
        let quot: i128 = m / d;
        let rem: i128 = m % d;
        assert(m == quot * d + rem && 0 <= rem < d) by (nonlinear_arith)
            requires
                d > 0,
                m >= 0,
                quot == m / d,
                rem == m % d,
        ;
        if rem == 0 {
            proof {
                assert(n == (-quot) * d + 0) by (nonlinear_arith)
                    requires
                        -n == quot * d,
                ;
                lemma_fundamental_div_mod_converse(n as int, d as int, -quot as int, 0);
            }
            -quot
        } else {
            proof {
                assert(n == (-quot - 1) * d + (d - rem)) by (nonlinear_arith)
                    requires
                        -n == quot * d + rem,
                ;
                lemma_fundamental_div_mod_converse(
                    n as int,
                    d as int,
                    -quot - 1,
                    d as int - rem as int,
                );
            }
            -quot - 1
        }
    }
}

/// The point halfway between two values, rounded down.
pub fn midpoint_of(lo: i64, hi: i64) -> (m: i64)
    ensures
        m == midpoint(lo as int, hi as int),
{
    let sum: i128 = lo as i128 + hi as i128;
    let half: i128 = floor_div(sum, 2);
    half as i64
}

/// The fixed-point product of a difference of two readings and a fraction,
/// rounded down.
pub(crate) fn scale(v: i128, frac: i64) -> (r: i128)
    requires
        -0x1_0000_0000_0000_0000 < v < 0x1_0000_0000_0000_0000,
    ensures
        r == scaled(v as int, frac as int),
        -0x4000_0000_0000_0000_0000_0000_0000_0000 <= r <= 0x4000_0000_0000_0000_0000_0000_0000_0000,
{
    assert(-0x7FFF_FFFF_FFFF_FFFF_FFFF_FFFF_FFFF_FFFF <= (v as int) * (frac as int)
        <= 0x7FFF_FFFF_FFFF_FFFF_FFFF_FFFF_FFFF_FFFF) by (nonlinear_arith)
        requires
            -0x1_0000_0000_0000_0000 < v < 0x1_0000_0000_0000_0000,
            -0x8000_0000_0000_0000 <= frac < 0x8000_0000_0000_0000,
    ;
    let product: i128 = v * (frac as i128);
    floor_div(product, ONE as i128)
}

/// Moves `current` towards `target` by the fraction `alpha`, which is
/// limited to the closed interval from `0.0` to `1.0` first.
pub fn blend_toward(current: i64, target: i64, alpha: i64) -> (r: i64)
    ensures
        r == blend(current as int, target as int, alpha as int),
{
    let a: i128 = clamp_fraction(alpha) as i128;
    let up: bool = target >= current;
    let distance: i128 = if up {
        target as i128 - current as i128
    } else {
        current as i128 - target as i128
    };
    assert(0 <= (distance as int) * (a as int) <= 0x1_0000_0000_0000_0000 * 1_000_000)
        by (nonlinear_arith)
        requires
            0 <= distance < 0x1_0000_0000_0000_0000,
            0 <= a <= 1_000_000,
    ;
    let step: i128 = (distance * a + (ONE as i128 - 1)) / (ONE as i128);
    proof {
        lemma_part_of(distance as int, a as int);
        lemma_blend_step(current as int, target as int, alpha as int);
    }
    if up {
        (current as i128 + step) as i64
    } else {
        (current as i128 - step) as i64
    }
}

} // verus!
