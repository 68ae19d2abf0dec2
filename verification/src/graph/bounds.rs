//! Vertical bounds: the target range for a window of readings and the
//! interpolation of the shown range towards it.

use super::data::{BufferModel, GraphData};
use crate::fixed::{
    blend, blend_toward, lemma_blend, lemma_blend_monotone, magnitude, max_of, saturate, saturated,
    ONE,
};
use vstd::prelude::*;

verus! {

/// A vertical range `(lo, hi)`.
pub type Bounds = (i64, i64);

/// A window whose readings span less than this is a flat signal.
pub const FLAT_EPSILON: i64 = 1;

/// A tenth of `v`, rounded up.
pub open spec fn tenth(v: int) -> int {
    (v + 9) / 10
}

/// The padding added on each side of the readings `mn..mx`: a tenth of what
/// they span, or, for a flat signal, a tenth of the larger of its magnitude
/// and `1.0`. It is rounded up, so that there is always some.
pub open spec fn pad_for(mn: int, mx: int) -> int {
    if mx - mn < FLAT_EPSILON as int {
        tenth(max_of(magnitude(mn), ONE as int))
    } else {
        tenth(mx - mn)
    }
}

/// There is always padding: readings never touch the bounds that are
/// padded around them, short of the ends of the fixed-point range.
pub proof fn lemma_padding_is_room(mn: i64, mx: i64)
    ensures
        pad_for(mn as int, mx as int) >= 1,
        mn <= mx && padded(mn, mx).0 > i64::MIN ==> padded(mn, mx).0 < mn,
        mn <= mx && padded(mn, mx).1 < i64::MAX ==> padded(mn, mx).1 > mx,
{
}

/// The readings `mn..mx` with their padding on both sides, as far as the
/// fixed-point range reaches.
pub open spec fn padded(mn: i64, mx: i64) -> Bounds {
    (
        saturated(mn - pad_for(mn as int, mx as int)) as i64,
        saturated(mx + pad_for(mn as int, mx as int)) as i64,
    )
}

/// The range autoscale aims at: the padded extremes of the window, or the
/// default range while the window counts as empty or holds no finite
/// y-value.
pub open spec fn auto_target(data: BufferModel) -> Bounds {
    if data.live() {
        padded(data.stats().0, data.stats().1)
    } else {
        data.config.y_range
    }
}

/// Both ends of `current` moved towards those of `target` by `alpha`.
pub open spec fn interp(current: Bounds, target: Bounds, alpha: i64) -> Bounds {
    (
        blend(current.0 as int, target.0 as int, alpha as int) as i64,
        blend(current.1 as int, target.1 as int, alpha as int) as i64,
    )
}

/// The lower bound is not above the upper one.
pub open spec fn ordered(b: Bounds) -> bool {
    b.0 <= b.1
}

/// Padding keeps the lower bound below the upper one.
pub proof fn lemma_padded_ordered(mn: i64, mx: i64)
    requires
        mn <= mx,
    ensures
        ordered(padded(mn, mx)),
{
}

/// The autoscale target is in order wherever the default range is.
pub proof fn lemma_target_ordered(data: BufferModel)
    requires
        ordered(data.config.y_range),
    ensures
        ordered(auto_target(data)),
{
    if data.live() {
        data.lemma_extremes();
        lemma_padded_ordered(data.stats().0, data.stats().1);
    }
}

/// Interpolation between bounds that are in order gives bounds that are in
/// order.
pub proof fn lemma_interp_ordered(current: Bounds, target: Bounds, alpha: i64)
    requires
        ordered(current),
        ordered(target),
    ensures
        ordered(interp(current, target, alpha)),
{
    lemma_blend(current.0 as int, target.0 as int, alpha as int);
    lemma_blend(current.1 as int, target.1 as int, alpha as int);
    lemma_blend_monotone(
        current.0 as int,
        target.0 as int,
        current.1 as int,
        target.1 as int,
        alpha as int,
    );
}

/// The autoscale target covers the extremes of the window.
pub proof fn lemma_target_covers_stats(data: BufferModel)
    ensures
        auto_target(data).0 <= data.stats().0,
        auto_target(data).1 >= data.stats().1,
{
}

/// The readings `mn..mx` with padding on both sides: a tenth of what they
/// span, or, for a flat signal, a tenth of the larger of its magnitude and
/// `1.0`, rounded up.
pub fn pad_bounds(mn: i64, mx: i64) -> (b: Bounds)
    ensures
        b == padded(mn, mx),
{
    let span: i128 = mx as i128 - mn as i128;
    let pad: i128 = if span < FLAT_EPSILON as i128 {
        let size: i128 = if mn < 0 {
            -(mn as i128)
        } else {
            mn as i128
        };
        let base: i128 = if size >= ONE as i128 {
            size
        } else {
            ONE as i128
        };
        (base + 9) / 10
    } else {
        (span + 9) / 10
    };
    (saturate(mn as i128 - pad), saturate(mx as i128 + pad))
}

/// Compute a target `(ymin, ymax)` for the current visible data, with
/// padding. Falls back to the default range while the window counts as
/// empty or holds no finite y-value.
pub fn compute_target_bounds(data: &GraphData) -> (b: Bounds)
    ensures
        b == auto_target(data@),
{
    if data.is_live() {
        let (mn, mx, _last) = data.stats();
        pad_bounds(mn, mx)
    } else {
        data.config.y_range
    }
}

/// Interpolate from current bounds toward target by alpha, limited to the
/// closed interval from `0.0` to `1.0`: `0.0` stays, `1.0` snaps to target.
pub fn interp_bounds(current: Bounds, target: Bounds, alpha: i64) -> (b: Bounds)
    ensures
        b == interp(current, target, alpha),
{
    (blend_toward(current.0, target.0, alpha), blend_toward(current.1, target.1, alpha))
}

/// The number of labels along the vertical axis.
pub const AXIS_TICKS: usize = 5;

/// The value of the `i`-th of the five evenly spaced labels of the
/// vertical axis, from the lower bound up to the upper one.
pub open spec fn tick(bounds: Bounds, i: int) -> int {
    bounds.0 + (max_of(bounds.1 - bounds.0, 0) * i) / 4
}

/// The values of the five evenly spaced labels of the vertical axis, from
/// the lower bound up to the upper one.
pub fn axis_ticks(bounds: Bounds) -> (ticks: Vec<i64>)
    ensures
        ticks@.len() == AXIS_TICKS,
        forall|i: int| 0 <= i < AXIS_TICKS ==> ticks@[i] == tick(bounds, i),
{
    let span: i128 = if bounds.1 > bounds.0 {
        bounds.1 as i128 - bounds.0 as i128
    } else {
        0
    };
    let mut ticks: Vec<i64> = Vec::new();
    let mut i: usize = 0;
    while i < AXIS_TICKS
        invariant
            i <= AXIS_TICKS,
            span == max_of(bounds.1 - bounds.0, 0),
            0 <= span < 0x1_0000_0000_0000_0000,
            ticks@.len() == i,
            forall|k: int| 0 <= k < i ==> ticks@[k] == tick(bounds, k),
        decreases AXIS_TICKS - i,
    {
        assert(0 <= span * i <= span * 4) by (nonlinear_arith)
            requires
                0 <= span,
                0 <= i <= 4,
        ;
        let step: i128 = (span * (i as i128)) / 4;
        let value: i128 = bounds.0 as i128 + step;
        ticks.push(value as i64);
        i = i + 1;
    }
    ticks
}

} // verus!
