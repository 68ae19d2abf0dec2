//! Sliding-window live points, an owned snapshot of them for plotting, and
//! bounded history storage.

use super::config::GraphConfig;
use crate::fixed::{saturate, saturated, ONE};
use std::collections::VecDeque;
use vstd::prelude::*;

verus! {

/// One coordinate of a point: a fixed-point number, or the mark of a reading
/// that was infinite or not a number.
#[derive(Clone, Copy, Debug, PartialEq, Eq, Structural)]
pub enum Sample {
    Finite(i64),
    NonFinite,
}

/// A point `(x, y)` of a series.
pub type Point = (Sample, Sample);

/// The x-coordinate of the `i`-th synthetic point a fresh window is seeded
/// with: `i` itself, as far as the fixed-point range reaches.
pub open spec fn seed_x(i: int) -> i64 {
    saturated(i * (ONE as int)) as i64
}

/// The `i`-th synthetic point of a fresh window: it lies at the middle of the
/// default range.
pub open spec fn seed_point(config: GraphConfig, i: int) -> Point {
    (Sample::Finite(seed_x(i)), Sample::Finite(config.mid()))
}

/// The last `cap` elements of `s`, or all of `s` if it has no more.
pub open spec fn keep_last(s: Seq<Point>, cap: int) -> Seq<Point> {
    if s.len() > cap {
        s.subrange(s.len() - cap, s.len() as int)
    } else {
        s
    }
}

/// `m` is the least finite y-value among the points `w[from..to]`.
pub open spec fn lowest_in(w: Seq<Point>, from: int, to: int, m: i64) -> bool {
    &&& exists|k: int| from <= k < to && #[trigger] w[k].1 == Sample::Finite(m)
    &&& forall|k: int| from <= k < to && #[trigger] w[k].1 is Finite ==> m <= w[k].1->Finite_0
}

/// `m` is the greatest finite y-value among the points `w[from..to]`.
pub open spec fn highest_in(w: Seq<Point>, from: int, to: int, m: i64) -> bool {
    &&& exists|k: int| from <= k < to && #[trigger] w[k].1 == Sample::Finite(m)
    &&& forall|k: int| from <= k < to && #[trigger] w[k].1 is Finite ==> m >= w[k].1->Finite_0
}

/// The finite x-coordinates never decrease along the sequence.
pub open spec fn x_ordered(s: Seq<Point>) -> bool {
    forall|i: int, j: int|
        0 <= i <= j < s.len() && (#[trigger] s[i]).0 is Finite && (#[trigger] s[j]).0 is Finite
            ==> s[i].0->Finite_0 <= s[j].0->Finite_0
}

/// `a` is the end of `b`.
pub open spec fn is_suffix(a: Seq<Point>, b: Seq<Point>) -> bool {
    a.len() <= b.len() && b.skip(b.len() - a.len()) == a
}

/// The mathematical content of a `GraphData`.
pub struct BufferModel {
    /// The visible points, oldest first.
    pub window: Seq<Point>,
    /// The copy of the window that is handed out for plotting.
    pub snapshot: Seq<Point>,
    /// The retained points, oldest first.
    pub history: Seq<Point>,
    /// How many of the leading points of `window` are synthetic.
    pub seeds: usize,
    pub config: GraphConfig,
}

impl BufferModel {
    /// The buffer as it is constructed: window and history hold the
    /// synthetic points and nothing else.
    pub open spec fn seeded(config: GraphConfig) -> BufferModel {
        BufferModel {
            window: Seq::new(config.data_window as nat, |i: int| seed_point(config, i)),
            snapshot: Seq::new(config.data_window as nat, |i: int| seed_point(config, i)),
            history: Seq::new(config.data_window as nat, |i: int| seed_point(config, i)),
            seeds: config.data_window,
            config,
        }
    }

    /// The window holds a point that was pushed: a window of synthetic
    /// points only counts as empty.
    pub open spec fn has_reading(self) -> bool {
        self.seeds < self.window.len()
    }

    /// The window holds a pushed point, and some point of it has a finite
    /// y-value.
    pub open spec fn live(self) -> bool {
        &&& self.has_reading()
        &&& exists|k: int| 0 <= k < self.window.len() && #[trigger] self.window[k].1 is Finite
    }

    /// The least finite y-value of the window.
    pub open spec fn lowest(self) -> i64 {
        choose|m: i64| lowest_in(self.window, 0, self.window.len() as int, m)
    }

    /// The greatest finite y-value of the window.
    pub open spec fn highest(self) -> i64 {
        choose|m: i64| highest_in(self.window, 0, self.window.len() as int, m)
    }

    /// `(min, max, last)` of the window: its least and its greatest finite
    /// y-value and the y-value pushed last; the default range and its
    /// middle while the window counts as empty or holds no finite y-value.
    pub open spec fn stats(self) -> (i64, i64, Sample) {
        if self.live() {
            (self.lowest(), self.highest(), self.window.last().1)
        } else {
            (self.config.y_range.0, self.config.y_range.1, Sample::Finite(self.config.mid()))
        }
    }

    /// The x-coordinates of the oldest and of the newest point of the
    /// window; zero twice for an empty window.
    pub open spec fn x_bounds(self) -> (Sample, Sample) {
        if self.window.len() > 0 {
            (self.window.first().0, self.window.last().0)
        } else {
            (Sample::Finite(0), Sample::Finite(0))
        }
    }

    /// The x-coordinate one step after the newest point of the history;
    /// zero for an empty history.
    pub open spec fn next_x(self) -> Sample {
        if self.history.len() > 0 {
            match self.history.last().0 {
                Sample::Finite(x) => Sample::Finite(saturated(x + ONE) as i64),
                Sample::NonFinite => Sample::NonFinite,
            }
        } else {
            Sample::Finite(0)
        }
    }

    /// The buffer after one more point: a full window gives up its oldest
    /// point first, the snapshot is taken anew, and the history is cut
    /// back to its capacity afterwards.
    pub open spec fn push(self, p: Point) -> BufferModel {
        let evict = self.window.len() == self.config.data_window && self.window.len() > 0;
        let window = if evict {
            self.window.drop_first().push(p)
        } else {
            self.window.push(p)
        };
        BufferModel {
            window,
            snapshot: window,
            history: keep_last(self.history.push(p), self.config.max_history as int),
            seeds: if evict && self.seeds > 0 {
                (self.seeds - 1) as usize
            } else {
                self.seeds
            },
            config: self.config,
        }
    }

    /// The buffer after one more reading, placed one step after the
    /// newest point of the history.
    pub open spec fn record(self, y: Sample) -> BufferModel {
        self.push((self.next_x(), y))
    }

    /// The buffer after the readings of `ys`, recorded in order.
    pub open spec fn record_all(self, ys: Seq<Sample>) -> BufferModel
        decreases ys.len(),
    {
        if ys.len() == 0 {
            self
        } else {
            self.record_all(ys.drop_last()).record(ys.last())
        }
    }

    /// Every point of the window is a point of the history: the window is
    /// the newest part of it.
    pub open spec fn mirrored(self) -> bool {
        is_suffix(self.window, self.history)
    }

    /// The buffer after the points of `ps`, pushed in order.
    pub open spec fn push_all(self, ps: Seq<Point>) -> BufferModel
        decreases ps.len(),
    {
        if ps.len() == 0 {
            self
        } else {
            self.push_all(ps.drop_last()).push(ps.last())
        }
    }

    /// Neither sequence is longer than the configuration allows.
    pub open spec fn bounded(self) -> bool {
        &&& self.window.len() <= self.config.data_window
        &&& self.history.len() <= self.config.max_history
    }

    /// The snapshot equals the window, and the synthetic points are a
    /// prefix of it.
    pub open spec fn wf(self) -> bool {
        &&& self.snapshot == self.window
        &&& self.seeds <= self.window.len()
    }

    /// At most one value is the least finite y-value of a range of points.
    pub proof fn lemma_lowest_unique(w: Seq<Point>, from: int, to: int, a: i64, b: i64)
        requires
            lowest_in(w, from, to, a),
            lowest_in(w, from, to, b),
        ensures
            a == b,
    {
    }

    /// At most one value is the greatest finite y-value of a range of points.
    pub proof fn lemma_highest_unique(w: Seq<Point>, from: int, to: int, a: i64, b: i64)
        requires
            highest_in(w, from, to, a),
            highest_in(w, from, to, b),
        ensures
            a == b,
    {
    }

    /// Among points of which one has a finite y-value, one finite y-value
    /// is the least and one the greatest.
    pub proof fn lemma_extremes_exist(w: Seq<Point>, n: int)
        requires
            0 <= n <= w.len(),
            exists|k: int| 0 <= k < n && #[trigger] w[k].1 is Finite,
        ensures
            exists|m: i64| lowest_in(w, 0, n, m),
            exists|m: i64| highest_in(w, 0, n, m),
        decreases n,
    {
        let last = w[n - 1].1;
        let before = n - 1;
        if exists|k: int| 0 <= k < before && #[trigger] w[k].1 is Finite {
            Self::lemma_extremes_exist(w, before);
            let lo = choose|m: i64| lowest_in(w, 0, before, m);
            let hi = choose|m: i64| highest_in(w, 0, before, m);
            match last {
                Sample::Finite(y) => {
                    let lo2 = if y < lo {
                        y
                    } else {
                        lo
                    };
                    let hi2 = if y > hi {
                        y
                    } else {
                        hi
                    };
                    assert(w[n - 1].1 == Sample::Finite(y));
                    assert(lowest_in(w, 0, n, lo2));
                    assert(highest_in(w, 0, n, hi2));
                },
                Sample::NonFinite => {
                    assert(lowest_in(w, 0, n, lo));
                },
            }
        } else {
            let y = last->Finite_0;
            assert(lowest_in(w, 0, n, y));
            assert(highest_in(w, 0, n, y));
        }
    }

    /// The statistics of a live window are its least and its greatest
    /// finite y-value, and the least is not above the greatest.
    pub proof fn lemma_extremes(self)
        requires
            self.live(),
        ensures
            lowest_in(self.window, 0, self.window.len() as int, self.lowest()),
            highest_in(self.window, 0, self.window.len() as int, self.highest()),
            self.lowest() <= self.highest(),
    {
        let w = self.window;
        let n = w.len() as int;
        Self::lemma_extremes_exist(w, n);
    }

    /// A freshly seeded buffer counts as empty, so its statistics are the
    /// default range and its middle.
    pub proof fn lemma_seeded_stats(config: GraphConfig)
        ensures
            !BufferModel::seeded(config).live(),
            BufferModel::seeded(config).stats() == (
                config.y_range.0,
                config.y_range.1,
                Sample::Finite(config.mid()),
            ),
            BufferModel::seeded(config).wf(),
            config.wf() ==> BufferModel::seeded(config).bounded(),
    {
    }

    /// A push keeps the window the newest part of the history, for a
    /// window size of at least one that the history has room for.
    pub proof fn lemma_push_keeps_mirror(self, p: Point)
        requires
            self.config.wf(),
            self.config.data_window >= 1,
            self.bounded(),
            self.mirrored(),
        ensures
            self.push(p).mirrored(),
            self.push(p).bounded(),
    {
        let after = self.push(p);
        let w = after.window;
        let h = after.history;
        assert forall|k: int| 0 <= k < w.len() implies h.skip(h.len() - w.len())[k] == w[k] by {
            if k < w.len() - 1 {
                let shift = self.window.len() + 1 - w.len();
                assert(self.window[k + shift] == self.history.skip(
                    self.history.len() - self.window.len(),
                )[k + shift]);
            }
        }
        assert(h.skip(h.len() - w.len()) =~= w);
    }

    /// A recorded reading keeps the x-coordinates in order, in the history
    /// and in the window.
    pub proof fn lemma_record_keeps_order(self, y: Sample)
        requires
            self.config.wf(),
            self.config.data_window >= 1,
            self.bounded(),
            self.mirrored(),
            x_ordered(self.history),
        ensures
            self.record(y).bounded(),
            self.record(y).mirrored(),
            x_ordered(self.record(y).history),
            x_ordered(self.record(y).window),
    {
        let p = (self.next_x(), y);
        let after = self.push(p);
        self.lemma_push_keeps_mirror(p);
        let full = self.history.push(p);
        assert(x_ordered(full));
        assert(x_ordered(after.history));
    }

    /// Readings recorded one after the other, in any number, leave the
    /// x-coordinates of window and history in order, the window the newest
    /// part of the history, and both within their limits.
    pub proof fn lemma_records_stay_ordered(config: GraphConfig, ys: Seq<Sample>)
        requires
            config.wf(),
            config.data_window >= 1,
        ensures
            BufferModel::seeded(config).record_all(ys).config == config,
            BufferModel::seeded(config).record_all(ys).bounded(),
            BufferModel::seeded(config).record_all(ys).mirrored(),
            x_ordered(BufferModel::seeded(config).record_all(ys).history),
            x_ordered(BufferModel::seeded(config).record_all(ys).window),
        decreases ys.len(),
    {
        let start = BufferModel::seeded(config);
        if ys.len() == 0 {
            assert(start.history.skip(0) =~= start.window);
            assert forall|i: int, j: int| 0 <= i <= j < start.window.len() implies seed_x(i)
                <= seed_x(j) by {
                assert(i * (ONE as int) <= j * (ONE as int)) by (nonlinear_arith)
                    requires
                        i <= j,
                ;
            }
        } else {
            Self::lemma_records_stay_ordered(config, ys.drop_last());
            start.record_all(ys.drop_last()).lemma_record_keeps_order(ys.last());
        }
    }

    /// Window and history stay within their limits under every sequence of
    /// pushes, for a window size of at least one.
    pub proof fn lemma_pushes_stay_bounded(config: GraphConfig, ps: Seq<Point>)
        requires
            config.wf(),
            config.data_window >= 1,
        ensures
            BufferModel::seeded(config).push_all(ps).bounded(),
            BufferModel::seeded(config).push_all(ps).wf(),
            BufferModel::seeded(config).push_all(ps).config == config,
        decreases ps.len(),
    {
        if ps.len() > 0 {
            Self::lemma_pushes_stay_bounded(config, ps.drop_last());
        }
    }
}

/// The bounded series of one channel.
#[derive(Debug)]
pub struct GraphData {
    /// Points in the current visible sliding window (oldest at the front).
    pub points: VecDeque<Point>,
    /// An owned copy of `points` in one contiguous piece, for plotting.
    pub data_vec: Vec<Point>,
    /// Bounded history (oldest at the front).
    pub history: VecDeque<Point>,
    /// How many of the leading points of the window are synthetic.
    pub seeds: usize,
    /// Window sizes and fallback range.
    pub config: GraphConfig,
}

impl View for GraphData {
    type V = BufferModel;

    open spec fn view(&self) -> BufferModel {
        BufferModel {
            window: self.points@,
            snapshot: self.data_vec@,
            history: self.history@,
            seeds: self.seeds,
            config: self.config,
        }
    }
}

impl GraphData {
    /// The snapshot equals the window and the synthetic points are a prefix
    /// of it.
    pub open spec fn wf(&self) -> bool {
        self@.wf()
    }

    /// Create a new `GraphData` with the provided config. The window is
    /// seeded with `data_window` synthetic points at the middle of the
    /// default range, so that a chart never starts empty; until a point is
    /// pushed, the window counts as empty all the same.
    pub fn new(config: GraphConfig) -> (g: Self)
        ensures
            g@ == BufferModel::seeded(config),
            g.wf(),
    {
        let mid: i64 = config.midpoint();
        let mut points: VecDeque<Point> = VecDeque::new();
        let mut data_vec: Vec<Point> = Vec::new();
        let mut history: VecDeque<Point> = VecDeque::new();
        let mut i: usize = 0;
        while i < config.data_window
            invariant
                i <= config.data_window,
                mid == config.mid(),
                points@.len() == i,
                data_vec@ == points@,
                history@ == points@,
                forall|k: int| 0 <= k < i ==> #[trigger] points@[k] == seed_point(config, k),
            decreases config.data_window - i,
        {
            let x: i64 = saturate((i as i128) * (ONE as i128));
            let p: Point = (Sample::Finite(x), Sample::Finite(mid));
            points.push_back(p);
            data_vec.push(p);
            history.push_back(p);
            i = i + 1;
        }
        let g = Self { points, data_vec, history, seeds: config.data_window, config };
        assert(g@.window =~= BufferModel::seeded(config).window);
        g
    }

    /// Push a new point into the sliding window and bounded history.
    ///
    /// A window that is full gives up its oldest point first; the history
    /// gives up its oldest points afterwards, until it fits its capacity.
    /// Any pair of samples is accepted and stored.
    pub fn push_point(&mut self, x: Sample, y: Sample)
        ensures
            final(self)@ == old(self)@.push((x, y)),
            final(self).data_vec@ == final(self).points@,
            old(self)@.wf() ==> final(self).wf(),
            old(self)@.bounded() && old(self).config.data_window >= 1 ==> final(self)@.bounded(),
    {
        if self.points.len() == self.config.data_window {
            let dropped = self.points.pop_front();
            if dropped.is_some() && self.seeds > 0 {
                self.seeds = self.seeds - 1;
            }
        }
        self.points.push_back((x, y));

        self.data_vec.clear();
        let n: usize = self.points.len();
        let mut i: usize = 0;
        while i < n
            invariant
                i <= n,
                n == self.points@.len(),
                self.data_vec@ == self.points@.subrange(0, i as int),
                self.points@ == old(self)@.push((x, y)).window,
                self.history@ == old(self).history@,
                self.seeds == old(self)@.push((x, y)).seeds,
                self.config == old(self).config,
            decreases n - i,
        {
            let p: Point = self.points[i];
            self.data_vec.push(p);
            i = i + 1;
        }

        self.history.push_back((x, y));
        let ghost full = old(self).history@.push((x, y));
        assert(self.history@ =~= full.subrange(0, full.len() as int));
        while self.history.len() > self.config.max_history
            invariant
                self.history@.len() <= full.len(),
                self.history@ == full.subrange(
                    full.len() - self.history@.len(),
                    full.len() as int,
                ),
                self.history@.len() >= self.config.max_history || self.history@.len()
                    == full.len(),
                self.points@ == old(self)@.push((x, y)).window,
                self.data_vec@ == self.points@,
                self.seeds == old(self)@.push((x, y)).seeds,
                self.config == old(self).config,
            decreases self.history@.len(),
        {
            self.history.pop_front();
            assert(self.history@ =~= full.subrange(
                full.len() - self.history@.len(),
                full.len() as int,
            ));
        }
    }

    /// x bounds of the current sliding window `(first, last)`: the
    /// x-coordinate of its oldest and of its newest point.
    pub fn x_bounds(&self) -> (b: (Sample, Sample))
        ensures
            b == self@.x_bounds(),
    {
        let n: usize = self.points.len();
        if n > 0 {
            (self.points[0].0, self.points[n - 1].0)
        } else {
            (Sample::Finite(0), Sample::Finite(0))
        }
    }

    /// The x-coordinate for the next reading: one step after the newest
    /// point of the history, or zero if the history is empty.
    pub fn next_x(&self) -> (x: Sample)
        ensures
            x == self@.next_x(),
    {
        let n: usize = self.history.len();
        if n > 0 {
            match self.history[n - 1].0 {
                Sample::Finite(x) => Sample::Finite(saturate(x as i128 + ONE as i128)),
                Sample::NonFinite => Sample::NonFinite,
            }
        } else {
            Sample::Finite(0)
        }
    }

    /// The newest `rows` points of the history, oldest first: what a
    /// scrollback display of that many rows shows. The last of them is the
    /// latest point.
    pub fn recent_history(&self, rows: usize) -> (r: Vec<Point>)
        ensures
            r@ == keep_last(self@.history, rows as int),
    {
        let n: usize = self.history.len();
        let start: usize = if n > rows {
            n - rows
        } else {
            0
        };
        let mut r: Vec<Point> = Vec::new();
        let mut i: usize = start;
        while i < n
            invariant
                start <= i <= n,
                n == self.history@.len(),
                r@ == self.history@.subrange(start as int, i as int),
            decreases n - i,
        {
            let p: Point = self.history[i];
            r.push(p);
            i = i + 1;
        }
        r
    }

    /// Whether the window holds a pushed point and some point of it has a
    /// finite y-value.
    pub fn is_live(&self) -> (b: bool)
        ensures
            b == self@.live(),
    {
        let n: usize = self.points.len();
        if self.seeds >= n {
            return false;
        }
        let mut i: usize = 0;
        while i < n
            invariant
                i <= n,
                n == self.points@.len(),
                self@.has_reading(),
                forall|k: int| 0 <= k < i ==> !(#[trigger] self.points@[k].1 is Finite),
            decreases n - i,
        {
            match self.points[i].1 {
                Sample::Finite(_) => {
                    return true;
                },
                Sample::NonFinite => {},
            }
            i = i + 1;
        }
        false
    }

    /// `(min, max, last)` computed over the window.
    ///
    /// `min` and `max` are the least and the greatest finite y-value of the
    /// window, `last` is the y-value pushed last. While the window holds
    /// synthetic points only, or no finite y-value at all, the result is
    /// the default range and its middle.
    pub fn stats(&self) -> (r: (i64, i64, Sample))
        ensures
            r == self@.stats(),
            self@.live() ==> lowest_in(self@.window, 0, self@.window.len() as int, r.0)
                && highest_in(self@.window, 0, self@.window.len() as int, r.1),
            self@.live() ==> r.0 <= r.1,
    {
        let n: usize = self.points.len();
        let mut found: bool = false;
        let mut mn: i64 = 0;
        let mut mx: i64 = 0;
        let mut i: usize = 0;
        while i < n
            invariant
                i <= n,
                n == self.points@.len(),
                !found ==> forall|k: int| 0 <= k < i ==> !(#[trigger] self.points@[k].1 is Finite),
                found ==> lowest_in(self.points@, 0, i as int, mn),
                found ==> highest_in(self.points@, 0, i as int, mx),
            decreases n - i,
        {
            match self.points[i].1 {
                Sample::Finite(y) => {
                    if !found {
                        found = true;
                        mn = y;
                        mx = y;
                    } else {
                        if y < mn {
                            mn = y;
                        }
                        if y > mx {
                            mx = y;
                        }
                    }
                },
                Sample::NonFinite => {},
            }
            i = i + 1;
        }
        if found && self.seeds < n {
            proof {
                BufferModel::lemma_lowest_unique(self@.window, 0, n as int, mn, self@.lowest());
                BufferModel::lemma_highest_unique(self@.window, 0, n as int, mx, self@.highest());
            }
            (mn, mx, self.points[n - 1].1)
        } else {
            (self.config.y_range.0, self.config.y_range.1, Sample::Finite(self.config.midpoint()))
        }
    }
}

} // verus!
