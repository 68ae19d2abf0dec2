//! Shared per-graph state: view state (autoscale and hysteresis), locking
//! and metadata, with the engine that advances the shown bounds.

use super::bounds::{auto_target, compute_target_bounds, interp, interp_bounds, Bounds};
use super::config::GraphConfig;
use super::data::{BufferModel, GraphData, Point, Sample};
use crate::fixed::{clamp_fraction, clamp_unit, scale, scaled, HALF, ONE};
use ratatui::style::Color;
use vstd::prelude::*;

verus! {

/// The colour tag of a channel, `ratatui::style::Color`. The engine carries
/// it through and never looks inside.
#[verifier::external_type_specification]
#[verifier::external_body]
pub struct ExColor(Color);

/// Frames of comfort needed before the view shrinks, unless configured.
pub const DEFAULT_SHRINK_CONFIRM_FRAMES: usize = 8;

/// Headroom, as a fraction of the shown range, that the target must keep on
/// both sides to count as comfortable, unless configured: `0.20`.
pub const DEFAULT_SHRINK_MARGIN_FRAC: i64 = 200_000;

/// Stabilization state for view hysteresis.
#[derive(Clone, Copy, Debug, PartialEq, Eq, Structural)]
pub enum StabilizationState {
    Stable,
    Expanding,
    Shrinking,
}

/// Why a control operation had no effect.
#[derive(Clone, Copy, Debug, PartialEq, Eq, Structural)]
pub enum ControlError {
    /// No frame has been rendered yet, so there are no bounds to lock.
    NoBounds,
}

/// View-related state mutated by the render step to implement
/// autoscale and hysteresis.
#[derive(Clone, Copy, Debug, PartialEq, Eq)]
pub struct GraphViewState {
    /// Currently shown y-bounds `(min, max)`. `None` means uninitialized.
    pub current_bounds: Option<Bounds>,
    /// Consecutive frames considered comfortable (used to confirm shrinking).
    pub stable_count: usize,
    /// Current stabilization phase.
    pub state: StabilizationState,
}

impl StabilizationState {
    /// The name of the phase.
    pub open spec fn name(self) -> Seq<char> {
        match self {
            StabilizationState::Stable => "Stable"@,
            StabilizationState::Expanding => "Expanding"@,
            StabilizationState::Shrinking => "Shrinking"@,
        }
    }

    /// The name of the phase, as the info panel shows it.
    pub fn label(&self) -> (s: &'static str)
        ensures
            s@ == self.name(),
    {
        match self {
            StabilizationState::Stable => "Stable",
            StabilizationState::Expanding => "Expanding",
            StabilizationState::Shrinking => "Shrinking",
        }
    }
}

impl GraphViewState {
    /// Create a fresh view state.
    pub fn new() -> (v: Self)
        ensures
            v.current_bounds is None,
            v.stable_count == 0,
            v.state is Stable,
    {
        Self { current_bounds: None, stable_count: 0, state: StabilizationState::Stable }
    }
}

/// One more comfortable frame, as far as the counter reaches.
pub open spec fn next_count(n: usize) -> usize {
    if n < usize::MAX {
        (n + 1) as usize
    } else {
        n
    }
}

/// The smoothing preset that follows `v` in the cycle `0.0`, `0.25`, `0.5`,
/// `0.75`, `1.0`; a value that is no preset is followed by `0.25`.
pub open spec fn next_preset(v: i64) -> i64 {
    if v == 250_000 {
        500_000
    } else if v == 500_000 {
        750_000
    } else if v == 750_000 {
        1_000_000
    } else if v == 1_000_000 {
        0
    } else {
        250_000
    }
}

/// One operation on a channel.
pub enum Action {
    /// Ingestion appends a point.
    Push(Point),
    /// The renderer advances the view by one frame.
    Step,
    ToggleAutoscale,
    SetSmoothing(i64),
    Lock,
    Unlock,
    ToggleLock,
    CycleSmoothing,
}

/// The mathematical content of a `GraphShared`.
pub struct ChannelModel {
    pub data: BufferModel,
    pub view: GraphViewState,
    pub name: Seq<char>,
    pub color: Color,
    pub autoscale: bool,
    pub smoothing: i64,
    pub locked_bounds: Option<Bounds>,
    pub shrink_confirm_frames: usize,
    pub shrink_margin_frac: i64,
}

impl ChannelModel {
    /// A channel as it is constructed.
    pub open spec fn fresh(
        config: GraphConfig,
        name: Seq<char>,
        color: Color,
        autoscale: bool,
        smoothing: i64,
    ) -> ChannelModel {
        ChannelModel {
            data: BufferModel::seeded(config),
            view: GraphViewState {
                current_bounds: None,
                stable_count: 0,
                state: StabilizationState::Stable,
            },
            name,
            color,
            autoscale,
            smoothing: clamp_unit(smoothing as int) as i64,
            locked_bounds: None,
            shrink_confirm_frames: DEFAULT_SHRINK_CONFIRM_FRAMES,
            shrink_margin_frac: DEFAULT_SHRINK_MARGIN_FRAC,
        }
    }

    /// What holds of a channel between any two operations: the smoothing
    /// factor is a fraction, a locked view shows exactly the locked bounds,
    /// and the streak of comfortable frames agrees with the phase.
    pub open spec fn wf(self) -> bool {
        &&& self.data.wf()
        &&& 0 <= self.smoothing <= ONE
        &&& self.locked_bounds is Some ==> self.view.current_bounds == self.locked_bounds
        &&& self.view.current_bounds is None ==> self.view.stable_count == 0
            && self.view.state is Stable
        &&& self.view.state is Expanding ==> self.view.stable_count == 0
        &&& self.view.state is Shrinking ==> self.view.stable_count >= self.shrink_confirm_frames
    }

    /// The bounds the view is heading for: the locked bounds if there are
    /// any, else the autoscale target if autoscale is on, else the default
    /// range.
    pub open spec fn target(self) -> Bounds {
        match self.locked_bounds {
            Some(b) => b,
            None => if self.autoscale {
                auto_target(self.data)
            } else {
                self.data.config.y_range
            },
        }
    }

    /// The bounds a frame draws: the current ones, or the default range
    /// before the first frame.
    pub open spec fn shown(self) -> Bounds {
        match self.view.current_bounds {
            Some(b) => b,
            None => self.data.config.y_range,
        }
    }

    /// The view state a frame starts from: a view without bounds takes the
    /// target at once.
    pub open spec fn baseline(self) -> GraphViewState {
        match self.view.current_bounds {
            Some(_) => self.view,
            None => GraphViewState {
                current_bounds: Some(self.target()),
                stable_count: 0,
                state: StabilizationState::Stable,
            },
        }
    }

    /// A reading lies outside the bounds `c`.
    pub open spec fn out_of_bounds(self, c: Bounds) -> bool {
        self.data.stats().0 < c.0 || self.data.stats().1 > c.1
    }

    /// The headroom that the target must keep inside the bounds `c`.
    pub open spec fn margin(self, c: Bounds) -> int {
        scaled(c.1 - c.0, self.shrink_margin_frac as int)
    }

    /// The target lies inside the bounds `c` with headroom on both sides.
    pub open spec fn comfortable(self, c: Bounds) -> bool {
        &&& self.target().0 >= c.0 + self.margin(c)
        &&& self.target().1 <= c.1 - self.margin(c)
    }

    /// The smoothing factor of an expansion: never below `0.5`.
    pub open spec fn expansion_alpha(self) -> i64 {
        if self.smoothing >= HALF {
            self.smoothing
        } else {
            HALF
        }
    }

    /// The view state after one frame.
    pub open spec fn step_view(self) -> GraphViewState {
        let base = self.baseline();
        let c = base.current_bounds->0;
        let target = self.target();
        if self.locked_bounds is Some {
            GraphViewState { state: StabilizationState::Stable, ..base }
        } else if self.out_of_bounds(c) {
            GraphViewState {
                current_bounds: Some(interp(c, target, self.expansion_alpha())),
                stable_count: 0,
                state: StabilizationState::Expanding,
            }
        } else if self.comfortable(c) {
            let count = next_count(base.stable_count);
            if count >= self.shrink_confirm_frames {
                GraphViewState {
                    current_bounds: Some(interp(c, target, self.smoothing)),
                    stable_count: count,
                    state: StabilizationState::Shrinking,
                }
            } else {
                GraphViewState {
                    current_bounds: Some(c),
                    stable_count: count,
                    state: StabilizationState::Stable,
                }
            }
        } else {
            GraphViewState {
                current_bounds: Some(
                    if self.smoothing == ONE {
                        target
                    } else {
                        c
                    },
                ),
                stable_count: 0,
                state: StabilizationState::Stable,
            }
        }
    }

    /// The channel after one frame.
    pub open spec fn step(self) -> ChannelModel {
        ChannelModel { view: self.step_view(), ..self }
    }

    /// The channel after `k` frames in a row.
    pub open spec fn steps(self, k: nat) -> ChannelModel
        decreases k,
    {
        if k == 0 {
            self
        } else {
            self.steps((k - 1) as nat).step()
        }
    }

    /// The channel after one more point.
    pub open spec fn push(self, p: Point) -> ChannelModel {
        ChannelModel { data: self.data.push(p), ..self }
    }

    /// The channel after autoscale was flipped: switching it on clears the
    /// lock.
    pub open spec fn toggle_autoscale(self) -> ChannelModel {
        ChannelModel {
            autoscale: !self.autoscale,
            locked_bounds: if !self.autoscale {
                None
            } else {
                self.locked_bounds
            },
            ..self
        }
    }

    /// The channel with the smoothing factor `v`, limited to a fraction.
    pub open spec fn set_smoothing(self, v: i64) -> ChannelModel {
        ChannelModel { smoothing: clamp_unit(v as int) as i64, ..self }
    }

    /// The channel with the view locked to the current bounds, if it has any.
    pub open spec fn lock(self) -> ChannelModel {
        match self.view.current_bounds {
            Some(b) => ChannelModel { locked_bounds: Some(b), ..self },
            None => self,
        }
    }

    /// The channel without a lock.
    pub open spec fn unlock(self) -> ChannelModel {
        ChannelModel { locked_bounds: None, ..self }
    }

    /// The channel with a lock released, or else taken on the current bounds.
    pub open spec fn toggle_lock(self) -> ChannelModel {
        ChannelModel {
            locked_bounds: if self.locked_bounds is Some {
                None
            } else {
                self.view.current_bounds
            },
            ..self
        }
    }

    /// The channel with the next smoothing preset.
    pub open spec fn cycle_smoothing(self) -> ChannelModel {
        ChannelModel { smoothing: next_preset(self.smoothing), ..self }
    }

    /// The channel after one operation.
    pub open spec fn apply(self, a: Action) -> ChannelModel {
        match a {
            Action::Push(p) => self.push(p),
            Action::Step => self.step(),
            Action::ToggleAutoscale => self.toggle_autoscale(),
            Action::SetSmoothing(v) => self.set_smoothing(v),
            Action::Lock => self.lock(),
            Action::Unlock => self.unlock(),
            Action::ToggleLock => self.toggle_lock(),
            Action::CycleSmoothing => self.cycle_smoothing(),
        }
    }

    /// The channel after the operations of `actions`, in order.
    pub open spec fn run(self, actions: Seq<Action>) -> ChannelModel
        decreases actions.len(),
    {
        if actions.len() == 0 {
            self
        } else {
            self.run(actions.drop_last()).apply(actions.last())
        }
    }
}

/// The authoritative per-channel object shared by ingestion, rendering and
/// remote control. Callers serialize their access; every operation here
/// leaves the channel consistent.
pub struct GraphShared {
    pub data: GraphData,
    pub view: GraphViewState,
    pub name: String,
    pub color: Color,
    pub autoscale: bool,
    pub smoothing: i64,
    pub locked_bounds: Option<Bounds>,
    pub shrink_confirm_frames: usize,
    pub shrink_margin_frac: i64,
}

impl View for GraphShared {
    type V = ChannelModel;

    open spec fn view(&self) -> ChannelModel {
        ChannelModel {
            data: self.data@,
            view: self.view,
            name: self.name@,
            color: self.color,
            autoscale: self.autoscale,
            smoothing: self.smoothing,
            locked_bounds: self.locked_bounds,
            shrink_confirm_frames: self.shrink_confirm_frames,
            shrink_margin_frac: self.shrink_margin_frac,
        }
    }
}

impl GraphShared {
    /// The snapshot of the window is current and the channel is consistent.
    pub open spec fn wf(&self) -> bool {
        self@.wf()
    }

    /// Construct `GraphShared`. The smoothing factor is limited to the
    /// closed interval from `0.0` to `1.0`.
    pub fn new(cfg: GraphConfig, name: &str, color: Color, autoscale: bool, smoothing: i64) -> (g:
        Self)
        ensures
            g@ == ChannelModel::fresh(cfg, name@, color, autoscale, smoothing),
            g.wf(),
    {
        Self {
            data: GraphData::new(cfg),
            view: GraphViewState::new(),
            name: name.to_owned(),
            color,
            autoscale,
            smoothing: clamp_fraction(smoothing),
            locked_bounds: None,
            shrink_confirm_frames: DEFAULT_SHRINK_CONFIRM_FRAMES,
            shrink_margin_frac: DEFAULT_SHRINK_MARGIN_FRAC,
        }
    }

    /// Ingestion: append the point `(x, y)` to the channel's series.
    pub fn push(&mut self, x: Sample, y: Sample)
        ensures
            final(self)@ == old(self)@.push((x, y)),
            final(self).data.data_vec@ == final(self).data.points@,
            old(self)@.wf() ==> final(self).wf(),
    {
        self.data.push_point(x, y);
    }

    /// Ingestion: append the reading `y` one step after the newest point of
    /// the history.
    pub fn record(&mut self, y: Sample)
        ensures
            final(self)@ == old(self)@.push((old(self)@.data.next_x(), y)),
            final(self)@.data == old(self)@.data.record(y),
            final(self).data.data_vec@ == final(self).data.points@,
            old(self)@.wf() ==> final(self).wf(),
    {
        let x: Sample = self.data.next_x();
        self.data.push_point(x, y);
    }

    /// The bounds the view is heading for: the locked bounds if there are
    /// any, else the autoscale target if autoscale is on, else the default
    /// range.
    pub fn target_bounds(&self) -> (b: Bounds)
        ensures
            b == self@.target(),
    {
        match self.locked_bounds {
            Some(b) => b,
            None => if self.autoscale {
                compute_target_bounds(&self.data)
            } else {
                self.data.config.y_range
            },
        }
    }

    /// The bounds a frame draws: the current ones, or the default range
    /// before the first frame.
    pub fn shown_bounds(&self) -> (b: Bounds)
        ensures
            b == self@.shown(),
    {
        match self.view.current_bounds {
            Some(b) => b,
            None => self.data.config.y_range,
        }
    }

    /// Whether the view is locked.
    pub fn is_locked(&self) -> (b: bool)
        ensures
            b == (self.locked_bounds is Some),
    {
        self.locked_bounds.is_some()
    }

    /// Rendering: advance the shown bounds by one frame and return them.
    ///
    /// A view without bounds takes the target at once. A locked view does
    /// not move. Otherwise, a reading outside the shown bounds makes the
    /// view expand towards the target at no less than half speed; a target
    /// with headroom inside the shown bounds makes it shrink at the
    /// configured speed, but only from the frame on at which the streak of
    /// such frames reaches `shrink_confirm_frames`; and in between the view
    /// holds still, unless smoothing is exactly `1.0`, which snaps it to
    /// the target.
    pub fn step_view(&mut self) -> (shown: Bounds)
        ensures
            final(self)@ == old(self)@.step(),
            shown == final(self)@.shown(),
            final(self).view.current_bounds == Some(shown),
            final(self).data == old(self).data,
            old(self).wf() ==> final(self).wf(),
            old(self)@.view_ordered() ==> shown.0 <= shown.1,
    {
        let (mn, mx, _last) = self.data.stats();
        let target: Bounds = self.target_bounds();
        let current: Bounds = match self.view.current_bounds {
            Some(c) => c,
            None => {
                self.view.stable_count = 0;
                self.view.state = StabilizationState::Stable;
                target
            },
        };
        let mut shown: Bounds = current;
        if self.locked_bounds.is_some() {
            self.view.state = StabilizationState::Stable;
        } else if mn < current.0 || mx > current.1 {
            self.view.state = StabilizationState::Expanding;
            self.view.stable_count = 0;
            let alpha: i64 = if self.smoothing >= HALF {
                self.smoothing
            } else {
                HALF
            };
            shown = interp_bounds(current, target, alpha);
        } else {
            let margin: i128 = scale(current.1 as i128 - current.0 as i128, self.shrink_margin_frac);
            let comfortable: bool = target.0 as i128 >= current.0 as i128 + margin && target.1 as i128
                <= current.1 as i128 - margin;
            if comfortable {
                if self.view.stable_count < usize::MAX {
                    self.view.stable_count = self.view.stable_count + 1;
                }
                if self.view.stable_count >= self.shrink_confirm_frames {
                    self.view.state = StabilizationState::Shrinking;
                    shown = interp_bounds(current, target, self.smoothing);
                } else {
                    self.view.state = StabilizationState::Stable;
                }
            } else {
                self.view.stable_count = 0;
                self.view.state = StabilizationState::Stable;
                if self.smoothing == ONE {
                    shown = target;
                }
            }
        }
        self.view.current_bounds = Some(shown);
        proof {
            if old(self).wf() {
                ChannelModel::lemma_step_keeps_wf(old(self)@);
            }
            if old(self)@.view_ordered() {
                ChannelModel::lemma_step_keeps_order(old(self)@);
            }
        }
        shown
    }

    /// Control: flip autoscale. Switching it on clears the lock.
    pub fn toggle_autoscale(&mut self)
        ensures
            final(self)@ == old(self)@.toggle_autoscale(),
            final(self).data == old(self).data,
            old(self).wf() ==> final(self).wf(),
    {
        self.autoscale = !self.autoscale;
        if self.autoscale {
            self.locked_bounds = None;
        }
    }

    /// Control: set the smoothing factor, limited to the closed interval
    /// from `0.0` to `1.0`.
    pub fn set_smoothing(&mut self, v: i64)
        ensures
            final(self)@ == old(self)@.set_smoothing(v),
            final(self).smoothing == clamp_unit(v as int),
            final(self).data == old(self).data,
            old(self).wf() ==> final(self).wf(),
    {
        self.smoothing = clamp_fraction(v);
    }

    /// Control: lock the view to the bounds it shows now. Fails with
    /// `NoBounds`, and changes nothing, while no frame has been rendered.
    pub fn lock(&mut self) -> (r: Result<(), ControlError>)
        ensures
            final(self)@ == old(self)@.lock(),
            r is Ok <==> old(self).view.current_bounds is Some,
            r is Ok ==> final(self).locked_bounds == old(self).view.current_bounds,
            r is Err ==> r == Err::<(), ControlError>(ControlError::NoBounds) && *final(self) == *old(
                self,
            ),
            final(self).data == old(self).data,
            old(self).wf() ==> final(self).wf(),
    {
        match self.view.current_bounds {
            Some(cb) => {
                self.locked_bounds = Some(cb);
                Ok(())
            },
            None => Err(ControlError::NoBounds),
        }
    }

    /// Control: clear the lock.
    pub fn unlock(&mut self)
        ensures
            final(self)@ == old(self)@.unlock(),
            final(self).locked_bounds is None,
            final(self).data == old(self).data,
            old(self).wf() ==> final(self).wf(),
    {
        self.locked_bounds = None;
    }

    /// Keyboard: release the lock if there is one, else lock the view to
    /// the bounds it shows now, if it shows any.
    pub fn toggle_lock(&mut self)
        ensures
            final(self)@ == old(self)@.toggle_lock(),
            final(self).data == old(self).data,
            old(self).wf() ==> final(self).wf(),
    {
        if self.locked_bounds.is_some() {
            self.locked_bounds = None;
        } else {
            self.locked_bounds = self.view.current_bounds;
        }
    }

    /// Keyboard: move on to the next smoothing preset of the cycle `0.0`,
    /// `0.25`, `0.5`, `0.75`, `1.0`; from a value that is no preset, to
    /// `0.25`.
    pub fn cycle_smoothing(&mut self)
        ensures
            final(self)@ == old(self)@.cycle_smoothing(),
            final(self).data == old(self).data,
            old(self).wf() ==> final(self).wf(),
    {
        let v: i64 = self.smoothing;
        self.smoothing = if v == 250_000 {
            500_000
        } else if v == 500_000 {
            750_000
        } else if v == 750_000 {
            ONE
        } else if v == ONE {
            0
        } else {
            250_000
        };
    }
}

} // verus!
