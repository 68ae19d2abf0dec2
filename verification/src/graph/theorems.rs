//! What holds of a channel under every sequence of operations.

use super::bounds::{
    interp, lemma_interp_ordered, lemma_target_covers_stats, lemma_target_ordered, ordered, Bounds,
};
use super::shared::{Action, ChannelModel};
use crate::fixed::{lemma_blend, HALF};
use vstd::prelude::*;

verus! {

/// The operation neither releases a lock nor can it.
pub open spec fn keeps_lock(a: Action) -> bool {
    !(a is Unlock || a is ToggleLock || a is ToggleAutoscale)
}

impl ChannelModel {
    /// The default range, the shown bounds and the locked bounds each have
    /// their lower bound below their upper one.
    pub open spec fn view_ordered(self) -> bool {
        &&& ordered(self.data.config.y_range)
        &&& self.view.current_bounds is Some ==> ordered(self.view.current_bounds->0)
        &&& self.locked_bounds is Some ==> ordered(self.locked_bounds->0)
    }

    /// A frame never turns the bounds upside down.
    pub proof fn lemma_step_keeps_order(s: ChannelModel)
        requires
            s.view_ordered(),
        ensures
            s.step().view_ordered(),
            ordered(s.step().shown()),
    {
        lemma_target_ordered(s.data);
        let c = s.baseline().current_bounds->0;
        lemma_interp_ordered(c, s.target(), s.expansion_alpha());
        lemma_interp_ordered(c, s.target(), s.smoothing);
    }

    /// A frame leaves a consistent channel consistent.
    pub proof fn lemma_step_keeps_wf(s: ChannelModel)
        requires
            s.wf(),
        ensures
            s.step().wf(),
            s.step().view.current_bounds is Some,
    {
    }

    /// Every operation leaves a consistent channel consistent, and its
    /// buffer within its limits.
    pub proof fn lemma_apply_keeps_wf(s: ChannelModel, a: Action)
        requires
            s.wf(),
        ensures
            s.apply(a).wf(),
            s.apply(a).data.config == s.data.config,
            s.data.bounded() && s.data.config.data_window >= 1 ==> s.apply(a).data.bounded(),
            s.view_ordered() ==> s.apply(a).view_ordered(),
    {
        match a {
            Action::Step => {
                Self::lemma_step_keeps_wf(s);
                if s.view_ordered() {
                    Self::lemma_step_keeps_order(s);
                }
            },
            _ => {},
        }
    }

    /// Operations in any number and any order, as they arrive from
    /// ingestion, rendering and control, leave a consistent channel
    /// consistent: the smoothing factor a fraction, a locked view on its
    /// locked bounds, the streak in agreement with the phase, the buffer
    /// within its limits, and no bounds upside down.
    pub proof fn lemma_run_keeps_wf(s: ChannelModel, actions: Seq<Action>)
        requires
            s.wf(),
        ensures
            s.run(actions).wf(),
            s.run(actions).data.config == s.data.config,
            s.data.bounded() && s.data.config.data_window >= 1 ==> s.run(actions).data.bounded(),
            s.view_ordered() ==> s.run(actions).view_ordered(),
        decreases actions.len(),
    {
        if actions.len() > 0 {
            Self::lemma_run_keeps_wf(s, actions.drop_last());
            Self::lemma_apply_keeps_wf(s.run(actions.drop_last()), actions.last());
        }
    }

    /// Once locked, the view shows exactly the locked bounds: whatever is
    /// pushed, however many frames are rendered and whatever else is done,
    /// short of releasing the lock, the lock stays and the next frame draws
    /// the locked bounds.
    pub proof fn lemma_locked_view_holds(s: ChannelModel, b: Bounds, actions: Seq<Action>)
        requires
            s.wf(),
            s.locked_bounds == Some(b),
            forall|i: int| 0 <= i < actions.len() ==> keeps_lock(#[trigger] actions[i]),
        ensures
            s.run(actions).wf(),
            s.run(actions).locked_bounds == Some(b),
            s.run(actions).shown() == b,
            s.run(actions).step().shown() == b,
            s.run(actions).step().view.state is Stable,
        decreases actions.len(),
    {
        if actions.len() > 0 {
            Self::lemma_locked_view_holds(s, b, actions.drop_last());
        }
    }

    /// Expansion is immediate: when a reading lies outside the shown
    /// bounds of an unlocked view, the next frame is an expansion at no
    /// less than half speed, whatever the smoothing factor. With autoscale
    /// on, the bound that the reading exceeds moves outwards in that very
    /// frame.
    pub proof fn lemma_expansion_is_immediate(s: ChannelModel, c: Bounds)
        requires
            s.locked_bounds is None,
            s.view.current_bounds == Some(c),
            s.out_of_bounds(c),
        ensures
            s.step().view.state is Expanding,
            s.step().view.stable_count == 0,
            s.expansion_alpha() >= HALF,
            s.step().view.current_bounds == Some(interp(c, s.target(), s.expansion_alpha())),
            s.autoscale && s.data.stats().1 > c.1 ==> s.step().shown().1 > c.1,
            s.autoscale && s.data.stats().0 < c.0 ==> s.step().shown().0 < c.0,
    {
        let t = s.target();
        let a = s.expansion_alpha();
        lemma_blend(c.0 as int, t.0 as int, a as int);
        lemma_blend(c.1 as int, t.1 as int, a as int);
        if s.autoscale {
            lemma_target_covers_stats(s.data);
        }
    }

    /// Shrinking waits for confirmation: while the target sits comfortably
    /// inside the shown bounds of an unlocked view, frames that do not
    /// bring the streak up to `shrink_confirm_frames` leave the bounds as
    /// they are and the phase `Stable`.
    pub proof fn lemma_shrink_waits(s: ChannelModel, c: Bounds, k: nat)
        requires
            s.locked_bounds is None,
            s.view.current_bounds == Some(c),
            !s.out_of_bounds(c),
            s.comfortable(c),
            s.view.stable_count + k < s.shrink_confirm_frames,
        ensures
            s.steps(k).view.current_bounds == Some(c),
            s.steps(k).view.stable_count == s.view.stable_count + k,
            k >= 1 ==> s.steps(k).view.state is Stable,
            s.steps(k) == (ChannelModel { view: s.steps(k).view, ..s }),
        decreases k,
    {
        if k > 0 {
            Self::lemma_shrink_waits(s, c, (k - 1) as nat);
        }
    }

    /// A shrinking frame stays inside the bounds it starts from, for a
    /// margin fraction that is not negative and bounds that are in order.
    pub proof fn lemma_shrink_stays_inside(s: ChannelModel, c: Bounds)
        requires
            s.locked_bounds is None,
            s.view.current_bounds == Some(c),
            !s.out_of_bounds(c),
            s.comfortable(c),
            s.shrink_margin_frac >= 0,
            ordered(c),
        ensures
            c.0 <= s.step().shown().0,
            s.step().shown().1 <= c.1,
            c.0 <= s.target().0,
            s.target().1 <= c.1,
    {
        let t = s.target();
        assert(s.margin(c) >= 0) by (nonlinear_arith)
            requires
                s.margin(c) == ((c.1 - c.0) * s.shrink_margin_frac) / 1_000_000,
                c.1 - c.0 >= 0,
                s.shrink_margin_frac >= 0,
        ;
        lemma_blend(c.0 as int, t.0 as int, s.smoothing as int);
        lemma_blend(c.1 as int, t.1 as int, s.smoothing as int);
    }

    /// The frame that brings the streak of comfortable frames up to
    /// `shrink_confirm_frames` is the first to shrink the view: it moves
    /// the bounds towards the target by the smoothing factor.
    pub proof fn lemma_shrink_starts(s: ChannelModel, c: Bounds, k: nat)
        requires
            s.locked_bounds is None,
            s.view.current_bounds == Some(c),
            !s.out_of_bounds(c),
            s.comfortable(c),
            s.view.stable_count + k + 1 == s.shrink_confirm_frames,
        ensures
            s.steps(k + 1).view.state is Shrinking,
            s.steps(k + 1).view.current_bounds == Some(interp(c, s.target(), s.smoothing)),
    {
        Self::lemma_shrink_waits(s, c, k);
    }
}

} // verus!
