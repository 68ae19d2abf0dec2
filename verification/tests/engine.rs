use ratatui::style::Color;
use telemetry_graph::fixed::{HALF, ONE};
use telemetry_graph::graph::bounds::{
    axis_ticks, compute_target_bounds, interp_bounds, pad_bounds,
};
use telemetry_graph::graph::data::Sample;
use telemetry_graph::graph::shared::{
    ControlError, GraphShared, GraphViewState, StabilizationState,
};
use telemetry_graph::graph::{GraphConfig, GraphData};

fn fin(v: i64) -> Sample {
    Sample::Finite(v)
}

fn channel(window: usize, range: (i64, i64), autoscale: bool, smoothing: i64) -> GraphShared {
    GraphShared::new(GraphConfig::new(window, 100, range), "ch", Color::Cyan, autoscale, smoothing)
}

fn feed(g: &mut GraphShared, values: &[i64]) {
    for v in values {
        g.record(fin(*v));
    }
}

#[test]
fn a_new_channel_starts_unlocked_and_without_bounds() {
    let g = GraphShared::new(GraphConfig::new(5, 9, (0, ONE)), "Msg #", Color::Magenta, true, 350_000);
    assert_eq!(g.name, "Msg #");
    assert_eq!(g.color, Color::Magenta);
    assert!(g.autoscale);
    assert_eq!(g.smoothing, 350_000);
    assert_eq!(g.locked_bounds, None);
    assert_eq!(g.shrink_confirm_frames, 8);
    assert_eq!(g.shrink_margin_frac, 200_000);
    assert_eq!(g.view, GraphViewState::new());
    assert_eq!(g.view.current_bounds, None);
    assert_eq!(g.view.stable_count, 0);
    assert_eq!(g.view.state, StabilizationState::Stable);
    assert_eq!(g.data.points.len(), 5);
    assert_eq!(g.shown_bounds(), (0, ONE));
    assert!(!g.is_locked());
}

#[test]
fn a_new_channel_clamps_its_smoothing() {
    assert_eq!(channel(1, (0, ONE), true, -5).smoothing, 0);
    assert_eq!(channel(1, (0, ONE), true, 3 * ONE).smoothing, ONE);
}

#[test]
fn padding_of_a_flat_signal_follows_its_magnitude() {
    assert_eq!(pad_bounds(0, 0), (-100_000, 100_000));
    assert_eq!(pad_bounds(1000 * ONE, 1000 * ONE), (900 * ONE, 1100 * ONE));
    assert_eq!(pad_bounds(-50 * ONE, -50 * ONE), (-55 * ONE, -45 * ONE));
    assert_eq!(pad_bounds(HALF, HALF), (400_000, 600_000));
}

#[test]
fn padding_of_a_range_is_a_tenth_of_it() {
    assert_eq!(pad_bounds(0, 10 * ONE), (-ONE, 11 * ONE));
    assert_eq!(pad_bounds(-5 * ONE, 15 * ONE), (-7 * ONE, 17 * ONE));
    assert_eq!(pad_bounds(0, 1), (-1, 2));
    assert_eq!(pad_bounds(0, 9), (-1, 10));
    assert_eq!(pad_bounds(0, 10), (-1, 11));
    assert_eq!(pad_bounds(0, 19), (-2, 21));
}

#[test]
fn padding_stops_at_the_ends_of_the_range() {
    assert_eq!(pad_bounds(i64::MIN, i64::MAX), (i64::MIN, i64::MAX));
    assert_eq!(pad_bounds(i64::MAX, i64::MAX), (i64::MAX - 922_337_203_685_477_581, i64::MAX));
    assert_eq!(pad_bounds(i64::MIN, i64::MIN), (i64::MIN, i64::MIN + 922_337_203_685_477_581));
}

#[test]
fn target_of_a_window_without_data_is_the_default_range() {
    let data = GraphData::new(GraphConfig::new(4, 8, (-3 * ONE, 9 * ONE)));
    assert_eq!(compute_target_bounds(&data), (-3 * ONE, 9 * ONE));
}

#[test]
fn target_of_a_window_with_data_is_padded() {
    let mut data = GraphData::new(GraphConfig::new(2, 8, (0, 10 * ONE)));
    data.push_point(fin(0), fin(0));
    data.push_point(fin(1), fin(10 * ONE));
    assert_eq!(compute_target_bounds(&data), (-ONE, 11 * ONE));
    data.push_point(fin(2), fin(10 * ONE));
    assert_eq!(compute_target_bounds(&data), (9 * ONE, 11 * ONE));
}

#[test]
fn target_prefers_the_lock_then_autoscale_then_the_default() {
    let mut g = channel(2, (0, 10 * ONE), true, HALF);
    feed(&mut g, &[2 * ONE, 4 * ONE]);
    assert_eq!(g.target_bounds(), (1_800_000, 4_200_000));
    g.autoscale = false;
    assert_eq!(g.target_bounds(), (0, 10 * ONE));
    g.locked_bounds = Some((7, 8));
    assert_eq!(g.target_bounds(), (7, 8));
    g.autoscale = true;
    assert_eq!(g.target_bounds(), (7, 8));
}

#[test]
fn interpolation_moves_both_ends() {
    assert_eq!(
        interp_bounds((0, 10 * ONE), (-400_000, 16_400_000), HALF),
        (-200_000, 13_200_000)
    );
    assert_eq!(interp_bounds((0, 10), (4, 6), 0), (0, 10));
    assert_eq!(interp_bounds((0, 10), (4, 6), ONE), (4, 6));
    assert_eq!(interp_bounds((0, 10), (4, 6), 5 * ONE), (4, 6));
    assert_eq!(interp_bounds((0, 10), (4, 6), -ONE), (0, 10));
    assert_eq!(interp_bounds((0, 100), (40, 60), 250_000), (10, 90));
}

#[test]
fn the_first_frame_takes_the_target() {
    let mut g = channel(3, (0, 10 * ONE), true, 0);
    assert_eq!(g.step_view(), (0, 10 * ONE));
    assert_eq!(g.view.current_bounds, Some((0, 10 * ONE)));
    assert_eq!(g.view.stable_count, 0);
    assert_eq!(g.view.state, StabilizationState::Stable);

    let mut h = channel(2, (0, 10 * ONE), true, 0);
    feed(&mut h, &[0, 10 * ONE]);
    assert_eq!(h.step_view(), (-ONE, 11 * ONE));
    assert_eq!(h.view.state, StabilizationState::Stable);
}

#[test]
fn expansion_is_immediate() {
    let mut g = channel(10, (0, 10 * ONE), true, 0);
    assert_eq!(g.step_view(), (0, 10 * ONE));
    g.record(fin(15 * ONE));
    assert_eq!(g.data.stats(), (5 * ONE, 15 * ONE, fin(15 * ONE)));
    assert_eq!(g.target_bounds(), (4 * ONE, 16 * ONE));
    let shown = g.step_view();
    assert_eq!(shown, (2 * ONE, 13 * ONE));
    assert_eq!(g.view.state, StabilizationState::Expanding);
    assert_eq!(g.view.stable_count, 0);
    assert!(shown.1 > 10 * ONE);
    assert!(shown.1 - shown.0 > 10 * ONE);
    assert_eq!(g.smoothing, 0);
}

#[test]
fn expansion_uses_the_smoothing_factor_above_one_half() {
    let mut g = channel(10, (0, 10 * ONE), true, 750_000);
    g.step_view();
    g.record(fin(15 * ONE));
    assert_eq!(g.step_view(), (3 * ONE, 14_500_000));
    assert_eq!(g.view.state, StabilizationState::Expanding);
}

#[test]
fn expansion_below_the_lower_bound() {
    let mut g = channel(10, (0, 10 * ONE), true, ONE);
    g.step_view();
    g.record(fin(-5 * ONE));
    assert_eq!(g.step_view(), (-6 * ONE, 6 * ONE));
    assert_eq!(g.view.state, StabilizationState::Expanding);
}

#[test]
fn expansion_resets_the_streak() {
    let mut g = channel(1, (0, 10 * ONE), true, 0);
    g.view.current_bounds = Some((0, 100 * ONE));
    g.record(fin(50 * ONE));
    for _ in 0..3 {
        g.step_view();
    }
    assert_eq!(g.view.stable_count, 3);
    g.record(fin(150 * ONE));
    g.step_view();
    assert_eq!(g.view.stable_count, 0);
    assert_eq!(g.view.state, StabilizationState::Expanding);
}

#[test]
fn shrinking_requires_confirmation() {
    let mut g = channel(2, (0, 10 * ONE), true, HALF);
    g.view.current_bounds = Some((0, 100 * ONE));
    feed(&mut g, &[40 * ONE, 60 * ONE]);
    assert_eq!(g.target_bounds(), (38 * ONE, 62 * ONE));
    for frame in 1..8 {
        assert_eq!(g.step_view(), (0, 100 * ONE));
        assert_eq!(g.view.state, StabilizationState::Stable);
        assert_eq!(g.view.stable_count, frame);
    }
    assert_eq!(g.step_view(), (19 * ONE, 81 * ONE));
    assert_eq!(g.view.state, StabilizationState::Shrinking);
    assert_eq!(g.view.stable_count, 8);
    assert_eq!(g.step_view(), (28_500_000, 71_500_000));
    assert_eq!(g.view.state, StabilizationState::Shrinking);
    assert_eq!(g.view.stable_count, 9);
}

#[test]
fn shrinking_follows_the_configured_number_of_frames() {
    let mut g = channel(2, (0, 10 * ONE), true, ONE);
    g.shrink_confirm_frames = 2;
    g.view.current_bounds = Some((0, 100 * ONE));
    feed(&mut g, &[40 * ONE, 60 * ONE]);
    assert_eq!(g.step_view(), (0, 100 * ONE));
    assert_eq!(g.view.state, StabilizationState::Stable);
    assert_eq!(g.step_view(), (38 * ONE, 62 * ONE));
    assert_eq!(g.view.state, StabilizationState::Shrinking);
}

#[test]
fn a_streak_is_broken_by_a_frame_without_headroom() {
    let mut g = channel(2, (0, 10 * ONE), true, HALF);
    g.view.current_bounds = Some((0, 100 * ONE));
    feed(&mut g, &[40 * ONE, 60 * ONE]);
    for _ in 0..7 {
        g.step_view();
    }
    assert_eq!(g.view.stable_count, 7);
    feed(&mut g, &[10 * ONE, 90 * ONE]);
    assert_eq!(g.step_view(), (0, 100 * ONE));
    assert_eq!(g.view.stable_count, 0);
    assert_eq!(g.view.state, StabilizationState::Stable);
    feed(&mut g, &[40 * ONE, 60 * ONE]);
    for _ in 0..7 {
        assert_eq!(g.step_view(), (0, 100 * ONE));
    }
    assert_eq!(g.view.state, StabilizationState::Stable);
}

#[test]
fn headroom_is_measured_against_the_margin() {
    let mut g = channel(2, (0, 10 * ONE), true, HALF);
    g.shrink_confirm_frames = 1;
    g.view.current_bounds = Some((0, 100 * ONE));
    feed(&mut g, &[20 * ONE, 70 * ONE]);
    assert_eq!(g.target_bounds(), (15 * ONE, 75 * ONE));
    assert_eq!(g.step_view(), (0, 100 * ONE));
    assert_eq!(g.view.state, StabilizationState::Stable);
    assert_eq!(g.view.stable_count, 0);
    feed(&mut g, &[25 * ONE, 75 * ONE]);
    assert_eq!(g.target_bounds(), (20 * ONE, 80 * ONE));
    assert_eq!(g.step_view(), (10 * ONE, 90 * ONE));
    assert_eq!(g.view.state, StabilizationState::Shrinking);
}

#[test]
fn instant_smoothing_snaps_without_waiting() {
    let mut g = channel(2, (0, 10 * ONE), true, ONE);
    g.view.current_bounds = Some((0, 100 * ONE));
    feed(&mut g, &[10 * ONE, 90 * ONE]);
    assert_eq!(g.target_bounds(), (2 * ONE, 98 * ONE));
    assert_eq!(g.step_view(), (2 * ONE, 98 * ONE));
    assert_eq!(g.view.state, StabilizationState::Stable);
    assert_eq!(g.view.stable_count, 0);

    let mut h = channel(2, (0, 10 * ONE), true, 999_999);
    h.view.current_bounds = Some((0, 100 * ONE));
    feed(&mut h, &[10 * ONE, 90 * ONE]);
    assert_eq!(h.step_view(), (0, 100 * ONE));
    assert_eq!(h.view.state, StabilizationState::Stable);
}

#[test]
fn autoscale_off_heads_for_the_default_range() {
    let mut g = channel(2, (0, 10 * ONE), false, HALF);
    feed(&mut g, &[40 * ONE, 60 * ONE]);
    assert_eq!(g.step_view(), (0, 10 * ONE));
    assert_eq!(g.step_view(), (0, 10 * ONE));
    assert_eq!(g.view.state, StabilizationState::Expanding);
}

#[test]
fn lock_overrides_autoscale() {
    let mut g = channel(3, (0, 10 * ONE), true, HALF);
    feed(&mut g, &[2 * ONE, 8 * ONE]);
    let before = g.step_view();
    assert_eq!(g.lock(), Ok(()));
    assert!(g.is_locked());
    assert_eq!(g.locked_bounds, Some(before));
    for i in 0..40 {
        g.record(fin(i * 1000 * ONE - 5000 * ONE));
        assert_eq!(g.step_view(), before);
        assert_eq!(g.view.state, StabilizationState::Stable);
        assert_eq!(g.locked_bounds, Some(before));
    }
    g.unlock();
    assert!(!g.is_locked());
    let after = g.step_view();
    assert!(after != before);
    assert_eq!(g.view.state, StabilizationState::Expanding);
}

#[test]
fn lock_before_the_first_frame_fails() {
    let mut g = channel(3, (0, 10 * ONE), true, HALF);
    assert_eq!(g.lock(), Err(ControlError::NoBounds));
    assert_eq!(g.locked_bounds, None);
    g.step_view();
    assert_eq!(g.lock(), Ok(()));
    assert_eq!(g.locked_bounds, Some((0, 10 * ONE)));
}

#[test]
fn a_lock_set_before_the_first_frame_is_taken_as_the_view() {
    let mut g = channel(3, (0, 10 * ONE), true, HALF);
    g.locked_bounds = Some((3, 4));
    assert_eq!(g.step_view(), (3, 4));
    assert_eq!(g.view.current_bounds, Some((3, 4)));
    assert_eq!(g.view.state, StabilizationState::Stable);
}

#[test]
fn toggling_autoscale_on_clears_the_lock() {
    let mut g = channel(3, (0, 10 * ONE), true, HALF);
    g.step_view();
    g.lock().unwrap();
    g.toggle_autoscale();
    assert!(!g.autoscale);
    assert!(g.is_locked());
    g.toggle_autoscale();
    assert!(g.autoscale);
    assert!(!g.is_locked());
}

#[test]
fn set_smoothing_clamps() {
    let mut g = channel(3, (0, 10 * ONE), true, HALF);
    g.set_smoothing(-ONE);
    assert_eq!(g.smoothing, 0);
    g.set_smoothing(0);
    assert_eq!(g.smoothing, 0);
    g.set_smoothing(HALF);
    assert_eq!(g.smoothing, HALF);
    g.set_smoothing(ONE);
    assert_eq!(g.smoothing, ONE);
    g.set_smoothing(2 * ONE);
    assert_eq!(g.smoothing, ONE);
}

#[test]
fn smoothing_presets_cycle() {
    let mut g = channel(3, (0, 10 * ONE), true, 0);
    let mut seen: Vec<i64> = Vec::new();
    for _ in 0..6 {
        g.cycle_smoothing();
        seen.push(g.smoothing);
    }
    assert_eq!(seen, vec![250_000, 500_000, 750_000, ONE, 0, 250_000]);
    g.set_smoothing(350_000);
    g.cycle_smoothing();
    assert_eq!(g.smoothing, 250_000);
}

#[test]
fn toggle_lock_locks_and_unlocks() {
    let mut g = channel(3, (0, 10 * ONE), true, 0);
    g.toggle_lock();
    assert_eq!(g.locked_bounds, None);
    g.step_view();
    g.toggle_lock();
    assert_eq!(g.locked_bounds, Some((0, 10 * ONE)));
    g.toggle_lock();
    assert_eq!(g.locked_bounds, None);
}

#[test]
fn push_and_record_append_to_the_series() {
    let mut g = channel(2, (0, 10 * ONE), true, 0);
    g.push(fin(100), fin(7));
    g.record(fin(9));
    assert_eq!(g.data.data_vec, vec![(fin(100), fin(7)), (fin(100 + ONE), fin(9))]);
}

#[test]
fn the_streak_stops_at_the_end_of_its_range() {
    let mut g = channel(2, (0, 10 * ONE), true, 0);
    g.view.current_bounds = Some((0, 100 * ONE));
    g.view.stable_count = usize::MAX;
    feed(&mut g, &[40 * ONE, 60 * ONE]);
    assert_eq!(g.step_view(), (0, 100 * ONE));
    assert_eq!(g.view.stable_count, usize::MAX);
    assert_eq!(g.view.state, StabilizationState::Shrinking);
}

#[test]
fn axis_ticks_are_evenly_spaced() {
    assert_eq!(axis_ticks((0, 4 * ONE)), vec![0, ONE, 2 * ONE, 3 * ONE, 4 * ONE]);
    assert_eq!(axis_ticks((-10, 0)), vec![-10, -8, -5, -3, 0]);
    assert_eq!(axis_ticks((5, 5)), vec![5, 5, 5, 5, 5]);
    assert_eq!(axis_ticks((9, 1)), vec![9, 9, 9, 9, 9]);
    assert_eq!(
        axis_ticks((i64::MIN, i64::MAX)),
        vec![i64::MIN, i64::MIN / 2 - 1, -1, i64::MAX / 2, i64::MAX]
    );
}

#[test]
fn phases_have_names() {
    assert_eq!(StabilizationState::Stable.label(), "Stable");
    assert_eq!(StabilizationState::Expanding.label(), "Expanding");
    assert_eq!(StabilizationState::Shrinking.label(), "Shrinking");
}
