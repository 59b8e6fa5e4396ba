use wiblue_lib::network_stats::{
    compute_speed, network_stats_onetime, MonitorState, NetworkMonitor,
};

#[test]
fn first_sample_is_idle() {
    let mut state = MonitorState::new();
    let stats = state.record_sample(100, 200, 0);
    assert_eq!(stats.bytes_up, 100);
    assert_eq!(stats.bytes_down, 200);
    assert_eq!(stats.speed_up_millibytes, 0);
    assert_eq!(stats.speed_down_millibytes, 0);
    assert_eq!(stats.total_up, 0);
    assert_eq!(stats.total_down, 0);
}

#[test]
fn second_sample_reports_speeds_and_totals() {
    let mut state = MonitorState::new();
    state.record_sample(100, 200, 0);
    let stats = state.record_sample(150, 260, 1000);
    assert_eq!(stats.speed_up_millibytes, 50_000);
    assert_eq!(stats.speed_down_millibytes, 60_000);
    assert_eq!(stats.total_up, 50);
    assert_eq!(stats.total_down, 60);
}

#[test]
fn counter_reset_contributes_nothing() {
    let mut state = MonitorState::new();
    state.record_sample(100, 0, 0);
    let stats = state.record_sample(50, 0, 1000);
    assert_eq!(stats.speed_up_millibytes, 0);
    assert_eq!(stats.total_up, 0);
    assert_eq!(stats.bytes_up, 50);
}

#[test]
fn zero_elapsed_yields_zero_speed() {
    let mut state = MonitorState::new();
    state.record_sample(100, 100, 500);
    let stats = state.record_sample(300, 400, 500);
    assert_eq!(stats.speed_up_millibytes, 0);
    assert_eq!(stats.speed_down_millibytes, 0);
    assert_eq!(stats.total_up, 200);
    assert_eq!(stats.total_down, 300);
}

#[test]
fn backwards_clock_yields_zero_speed() {
    let mut state = MonitorState::new();
    state.record_sample(100, 100, 1000);
    let stats = state.record_sample(200, 200, 400);
    assert_eq!(stats.speed_up_millibytes, 0);
    assert_eq!(stats.speed_down_millibytes, 0);
    assert_eq!(stats.total_up, 100);
}

#[test]
fn totals_accumulate_diffs_and_never_shrink() {
    let samples: [(u64, u64, u64); 4] = [(10, 5, 0), (30, 25, 1000), (30, 45, 2500), (90, 50, 4000)];
    let mut state = MonitorState::new();
    let mut previous: Option<(u64, u64)> = None;
    let mut expected_up: u64 = 0;
    let mut expected_down: u64 = 0;
    let mut last_totals = (0u64, 0u64);
    for (up, down, at) in samples {
        let stats = state.record_sample(up, down, at);
        if let Some((prev_up, prev_down)) = previous {
            expected_up += up.saturating_sub(prev_up);
            expected_down += down.saturating_sub(prev_down);
        }
        assert_eq!(stats.total_up, expected_up);
        assert_eq!(stats.total_down, expected_down);
        assert!(stats.total_up >= last_totals.0);
        assert!(stats.total_down >= last_totals.1);
        last_totals = (stats.total_up, stats.total_down);
        previous = Some((up, down));
    }
    assert_eq!(last_totals, (80, 45));
}

#[test]
fn totals_saturate_at_the_maximum() {
    let mut state = MonitorState::new();
    state.record_sample(0, 0, 0);
    state.record_sample(u64::MAX, u64::MAX, 1000);
    let stats = state.record_sample(u64::MAX, u64::MAX, 2000);
    assert_eq!(stats.total_up, u64::MAX);
    assert_eq!(stats.total_down, u64::MAX);
}

#[test]
fn speed_computation_is_exact_and_saturating() {
    assert_eq!(compute_speed(50, 1000), 50_000);
    assert_eq!(compute_speed(1, 2000), 500);
    assert_eq!(compute_speed(7, 0), 0);
    assert_eq!(compute_speed(u64::MAX, 1), u64::MAX);
}

#[test]
fn monitor_rejects_absent_interface() {
    let created = NetworkMonitor::new("no-such-interface-on-any-host");
    assert!(created.is_err());
}

#[test]
fn one_shot_sampling_fails_on_an_absent_interface() {
    let taken = network_stats_onetime("no-such-interface-on-any-host");
    assert!(taken.is_err());
}
