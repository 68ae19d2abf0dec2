//! Configuration values for graph behavior and memory bounding.

use crate::fixed::{midpoint, midpoint_of, ONE};
use vstd::prelude::*;

verus! {

/// Window length, history capacity and default vertical range of a channel.
#[derive(Clone, Copy, Debug, PartialEq, Eq)]
pub struct GraphConfig {
    /// Number of data points visible in the live sliding window.
    pub data_window: usize,
    /// Maximum number of historical points to retain.
    pub max_history: usize,
    /// Default y-range `(lo, hi)`, used when autoscale is off or while no
    /// data exists.
    pub y_range: (i64, i64),
}

impl GraphConfig {
    /// The window fits into the history and the default range is not empty.
    pub open spec fn wf(&self) -> bool {
        &&& self.data_window <= self.max_history
        &&& self.y_range.0 < self.y_range.1
    }

    /// The middle of the default range, rounded down.
    pub open spec fn mid(&self) -> i64 {
        midpoint(self.y_range.0 as int, self.y_range.1 as int) as i64
    }

    /// Create a new `GraphConfig`.
    pub fn new(data_window: usize, max_history: usize, y_range: (i64, i64)) -> (c: Self)
        ensures
            c.data_window == data_window,
            c.max_history == max_history,
            c.y_range == y_range,
    {
        Self { data_window, max_history, y_range }
    }

    /// The middle of the default range, rounded down.
    pub fn midpoint(&self) -> (m: i64)
        ensures
            m == self.mid(),
    {
        midpoint_of(self.y_range.0, self.y_range.1)
    }
}

impl Default for GraphConfig {
    /// A window of 60 points, 2000 points of history, and the range from
    /// `-1.0` to `1.0`.
    fn default() -> (c: Self)
        ensures
            c.data_window == 60,
            c.max_history == 2_000,
            c.y_range.0 == -ONE,
            c.y_range.1 == ONE,
    {
        Self { data_window: 60, max_history: 2_000, y_range: (-ONE, ONE) }
    }
}

} // verus!
