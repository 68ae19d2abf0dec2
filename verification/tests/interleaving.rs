use ratatui::style::Color;
use telemetry_graph::fixed::ONE;
use telemetry_graph::graph::data::Sample;
use telemetry_graph::graph::shared::{GraphShared, StabilizationState};
use telemetry_graph::graph::GraphConfig;
use telemetry_graph::net::remote::handle_line;

fn consistent(g: &GraphShared) -> bool {
    let window: Vec<(Sample, Sample)> = g.data.points.iter().copied().collect();
    g.data.data_vec == window
        && g.data.seeds <= g.data.points.len()
        && g.data.points.len() <= g.data.config.data_window
        && g.data.history.len() <= g.data.config.max_history
        && 0 <= g.smoothing
        && g.smoothing <= ONE
        && (g.locked_bounds.is_none() || g.view.current_bounds == g.locked_bounds)
        && (g.view.current_bounds.is_some()
            || (g.view.stable_count == 0 && g.view.state == StabilizationState::Stable))
        && (g.view.state != StabilizationState::Expanding || g.view.stable_count == 0)
        && (g.view.state != StabilizationState::Shrinking
            || g.view.stable_count >= g.shrink_confirm_frames)
}

#[test]
fn interleaved_operations_keep_the_channel_consistent() {
    let mut graphs = vec![GraphShared::new(
        GraphConfig::new(6, 20, (-5 * ONE, 5 * ONE)),
        "mixed",
        Color::Yellow,
        true,
        350_000,
    )];
    assert!(consistent(&graphs[0]));
    let commands: [&str; 9] = [
        "toggle autoscale 0\n",
        "set smoothing 0 0.9\n",
        "lock 0\n",
        "set smoothing 0 -3\n",
        "unlock 0\n",
        "lock 0\n",
        "toggle autoscale 0\n",
        "set smoothing 0 1\n",
        "set smoothing 0 7\n",
    ];
    let mut seed: u64 = 12345;
    for round in 0..3000usize {
        seed = seed.wrapping_mul(6364136223846793005).wrapping_add(1442695040888963407);
        let pick = (seed >> 33) % 4;
        let value = ((seed >> 20) % 2_000_000) as i64 - 1_000_000;
        if pick == 0 {
            let y = if value % 17 == 0 { Sample::NonFinite } else { Sample::Finite(value * 50) };
            graphs[0].record(y);
        } else if pick == 1 {
            let shown = graphs[0].step_view();
            assert_eq!(graphs[0].view.current_bounds, Some(shown));
            if let Some(locked) = graphs[0].locked_bounds {
                assert_eq!(shown, locked);
            }
        } else if pick == 2 {
            handle_line(&mut graphs, commands[round % commands.len()].as_bytes());
        } else {
            graphs[0].cycle_smoothing();
            graphs[0].toggle_lock();
        }
        assert!(consistent(&graphs[0]), "round {}", round);
    }
}
