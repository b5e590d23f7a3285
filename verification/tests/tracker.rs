use click_interval::state::AppState;

const MS: u128 = 1_000_000;

fn tracker_with_clicks(threshold: u128, times: &[u128]) -> AppState {
    let mut app = AppState::new(threshold);
    for &t in times {
        app.on_click_at(t);
    }
    app
}

#[test]
fn new_tracker_is_empty() {
    let app = AppState::new(1000 * MS);
    assert!(app.snapshot().is_empty());
}

#[test]
fn clicks_within_threshold_are_measured_from_the_first() {
    let app = tracker_with_clicks(1000 * MS, &[0, 300 * MS, 900 * MS]);
    assert_eq!(app.snapshot(), &vec![0, 300 * MS, 900 * MS]);
}

#[test]
fn late_click_starts_a_new_sequence() {
    let app = tracker_with_clicks(1000 * MS, &[0, 300 * MS, 1600 * MS]);
    assert_eq!(app.snapshot(), &vec![0]);
}

#[test]
fn zero_threshold_keeps_a_single_zero() {
    let mut app = AppState::new(0);
    for t in [5u128, 6, 7, 1_000, 1_000_000_000_000] {
        app.on_click_at(t);
        assert_eq!(app.snapshot(), &vec![0]);
    }
}

#[test]
fn zero_threshold_records_a_click_at_the_anchor_itself() {
    let app = tracker_with_clicks(0, &[5, 5]);
    assert_eq!(app.snapshot(), &vec![0, 0]);
}

#[test]
fn intervals_are_cumulative_not_pairwise() {
    let app = tracker_with_clicks(1000 * MS, &[100 * MS, 400 * MS, 600 * MS, 1100 * MS]);
    assert_eq!(app.snapshot(), &vec![0, 300 * MS, 500 * MS, 1000 * MS]);
}

#[test]
fn gaps_within_threshold_still_reset_when_the_total_is_too_long() {
    let app = tracker_with_clicks(1000 * MS, &[0, 600 * MS, 1200 * MS]);
    assert_eq!(app.snapshot(), &vec![0]);
}

#[test]
fn click_exactly_at_the_threshold_is_recorded() {
    let app = tracker_with_clicks(1000 * MS, &[7, 1000 * MS + 7]);
    assert_eq!(app.snapshot(), &vec![0, 1000 * MS]);
}

#[test]
fn click_one_nanosecond_past_the_threshold_resets() {
    let app = tracker_with_clicks(1000 * MS, &[7, 1000 * MS + 8]);
    assert_eq!(app.snapshot(), &vec![0]);
}

#[test]
fn sequence_after_a_late_click_is_measured_from_that_click() {
    let app = tracker_with_clicks(1000 * MS, &[0, 300 * MS, 1600 * MS, 1900 * MS, 2600 * MS]);
    assert_eq!(app.snapshot(), &vec![0, 300 * MS, 1000 * MS]);
}

#[test]
fn first_click_does_not_look_at_the_time_since_creation() {
    let app = tracker_with_clicks(1000 * MS, &[5000 * MS, 5200 * MS]);
    assert_eq!(app.snapshot(), &vec![0, 200 * MS]);
}

#[test]
fn reset_clears_the_list() {
    let mut app = tracker_with_clicks(1000 * MS, &[0, 300 * MS]);
    app.reset_at(400 * MS);
    assert!(app.snapshot().is_empty());
}

#[test]
fn first_click_after_reset_is_zero() {
    let mut app = tracker_with_clicks(1000 * MS, &[0, 300 * MS]);
    app.reset_at(400 * MS);
    app.on_click_at(450 * MS);
    assert_eq!(app.snapshot(), &vec![0]);
    app.on_click_at(650 * MS);
    assert_eq!(app.snapshot(), &vec![0, 200 * MS]);
}

#[test]
fn first_click_long_after_reset_is_zero() {
    let mut app = tracker_with_clicks(1000 * MS, &[0]);
    app.reset_at(10 * MS);
    app.on_click_at(900_000 * MS);
    assert_eq!(app.snapshot(), &vec![0]);
}

#[test]
fn click_before_the_anchor_counts_as_no_time_passed() {
    let app = tracker_with_clicks(1000 * MS, &[500 * MS, 200 * MS]);
    assert_eq!(app.snapshot(), &vec![0, 0]);
}

#[test]
fn recorded_values_never_exceed_the_threshold() {
    let threshold = 250 * MS;
    let mut app = AppState::new(threshold);
    let mut now: u128 = 0;
    for step in 0..200u128 {
        now += (step * 37 % 11) * 40 * MS;
        app.on_click_at(now);
        let recorded = app.snapshot();
        assert!(!recorded.is_empty());
        assert_eq!(recorded[0], 0);
        assert!(recorded.iter().all(|&d| d <= threshold));
    }
}

#[test]
fn snapshot_is_repeatable() {
    let app = tracker_with_clicks(1000 * MS, &[0, 300 * MS, 900 * MS]);
    let first = app.snapshot().clone();
    let second = app.snapshot().clone();
    let third = app.snapshot().clone();
    assert_eq!(first, second);
    assert_eq!(second, third);
    assert_eq!(third, vec![0, 300 * MS, 900 * MS]);
}

#[test]
fn largest_times_are_handled() {
    let app = tracker_with_clicks(u128::MAX, &[0, u128::MAX]);
    assert_eq!(app.snapshot(), &vec![0, u128::MAX]);
    let app = tracker_with_clicks(u128::MAX - 1, &[0, u128::MAX]);
    assert_eq!(app.snapshot(), &vec![0]);
}

#[test]
fn clicks_on_the_real_clock_stay_in_one_sequence_under_a_long_threshold() {
    let threshold = 3_600_000 * MS;
    let mut app = AppState::new(threshold);
    app.on_click();
    app.on_click();
    app.on_click();
    let recorded = app.snapshot();
    assert_eq!(recorded.len(), 3);
    assert_eq!(recorded[0], 0);
    assert!(recorded[1] <= recorded[2]);
    assert!(recorded[2] <= threshold);
}

#[test]
fn reset_on_the_real_clock_clears_the_list() {
    let mut app = AppState::new(3_600_000 * MS);
    app.on_click();
    app.on_click();
    app.reset();
    assert!(app.snapshot().is_empty());
    app.on_click();
    assert_eq!(app.snapshot(), &vec![0]);
}

#[test]
fn real_clock_runs_forward_from_creation() {
    let mut app = AppState::new(3_600_000 * MS);
    app.on_click_at(0);
    let started = std::time::Instant::now();
    while started.elapsed() < std::time::Duration::from_millis(5) {}
    app.on_click();
    let recorded = app.snapshot();
    assert_eq!(recorded.len(), 2);
    assert!(recorded[1] >= 5 * MS);
    assert!(recorded[1] < 3_600_000 * MS);
}
