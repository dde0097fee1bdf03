use ecson::timestep::{FixedTimestep, FrameStep, MAX_DURATION_NANOS, MAX_FIXED_UPDATES_PER_FRAME};

#[test]
fn new_clock_starts_empty() {
    let clock = FixedTimestep::new(33_333_333);
    assert_eq!(clock.step(), 33_333_333);
    assert_eq!(clock.accumulated(), 0);
}

#[test]
fn whole_timesteps_run_and_remainder_is_carried() {
    let mut clock = FixedTimestep::new(10);
    let frame = clock.advance(25);
    assert_eq!(frame, FrameStep { fixed_updates: 2, lagging: false });
    assert_eq!(clock.accumulated(), 5);
    let frame = clock.advance(3);
    assert_eq!(frame, FrameStep { fixed_updates: 0, lagging: false });
    assert_eq!(clock.accumulated(), 8);
    let frame = clock.advance(2);
    assert_eq!(frame, FrameStep { fixed_updates: 1, lagging: false });
    assert_eq!(clock.accumulated(), 0);
}

#[test]
fn four_timesteps_do_not_lag() {
    let mut clock = FixedTimestep::new(10);
    let frame = clock.advance(49);
    assert_eq!(frame, FrameStep { fixed_updates: 4, lagging: false });
    assert_eq!(clock.accumulated(), 9);
}

#[test]
fn lagging_frame_runs_the_bound_and_drops_the_backlog() {
    let mut clock = FixedTimestep::new(10);
    let frame = clock.advance(50);
    assert_eq!(frame, FrameStep { fixed_updates: MAX_FIXED_UPDATES_PER_FRAME, lagging: true });
    assert_eq!(clock.accumulated(), 0);
    let frame = clock.advance(1_000);
    assert_eq!(frame, FrameStep { fixed_updates: 5, lagging: true });
    assert_eq!(clock.accumulated(), 0);
}

#[test]
fn zero_timestep_always_lags() {
    let mut clock = FixedTimestep::new(0);
    let frame = clock.advance(0);
    assert_eq!(frame, FrameStep { fixed_updates: 5, lagging: true });
    assert_eq!(clock.accumulated(), 0);
}

#[test]
fn time_is_conserved_over_frames_without_lag() {
    let step: u128 = 16_666_667;
    let mut clock = FixedTimestep::new(step);
    let deltas: [u128; 6] = [1_000_000, 20_000_000, 5_000_000, 40_000_000, 16_666_667, 3];
    let mut updates: u128 = 0;
    let mut total: u128 = 0;
    for d in deltas {
        let frame = clock.advance(d);
        assert!(!frame.lagging);
        updates += frame.fixed_updates as u128;
        total += d;
    }
    assert_eq!(total, updates * step + clock.accumulated());
    assert!(clock.accumulated() < step);
}

#[test]
fn sleep_fills_the_rest_of_the_timestep() {
    let clock = FixedTimestep::new(100);
    assert_eq!(clock.sleep_after(30), Some(70));
    assert_eq!(clock.sleep_after(100), None);
    assert_eq!(clock.sleep_after(250), None);
    assert_eq!(clock.sleep_after(0), Some(100));
}

#[test]
fn largest_duration_fits() {
    let mut clock = FixedTimestep::new(MAX_DURATION_NANOS);
    let frame = clock.advance(MAX_DURATION_NANOS);
    assert_eq!(frame, FrameStep { fixed_updates: 1, lagging: false });
    assert_eq!(clock.accumulated(), 0);
}

#[test]
fn fixed_updates_never_run_ahead_with_lag() {
    let step: u128 = 10;
    let mut clock = FixedTimestep::new(step);
    let deltas: [u128; 5] = [25, 100, 7, 3, 61];
    let mut updates: u128 = 0;
    let mut total: u128 = 0;
    let mut lagged = false;
    for d in deltas {
        let frame = clock.advance(d);
        lagged |= frame.lagging;
        updates += frame.fixed_updates as u128;
        total += d;
    }
    assert!(lagged);
    assert!(updates * step + clock.accumulated() <= total);
    assert_eq!(updates, 2 + 5 + 0 + 1 + 5);
}
