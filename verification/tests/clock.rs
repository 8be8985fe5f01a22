//! Tick arithmetic and the latencies of the simulated sensors.

use std_test_device::clock::{
    attitude_delay, attitude_delay_from, camera_delay, camera_delay_from, elapsed_micros,
    next_sim_step, period_micros, ticks_at_micros, SimStep, SIM_FREQUENCY, TICK_HZ,
};

#[test]
fn ticks_are_microseconds() {
    assert_eq!(TICK_HZ, 1_000_000);
    assert_eq!(elapsed_micros(Some(1_000), 3_500), 2_500);
    assert_eq!(ticks_at_micros(123_456), 123_456);
}

#[test]
fn nothing_elapses_backwards_or_from_nowhere() {
    assert_eq!(elapsed_micros(Some(3_500), 1_000), 0);
    assert_eq!(elapsed_micros(Some(3_500), 3_500), 0);
    assert_eq!(elapsed_micros(None, 3_500), 0);
    assert_eq!(elapsed_micros(Some(0), u64::MAX), u64::MAX);
}

#[test]
fn period_of_the_simulation() {
    assert_eq!(SIM_FREQUENCY, 1000);
    assert_eq!(period_micros(SIM_FREQUENCY), 1_000);
    assert_eq!(period_micros(50), 20_000);
    assert_eq!(period_micros(100), 10_000);
}

#[test]
fn periods_are_rounded_and_at_least_a_tick() {
    assert_eq!(period_micros(3), 333_333);
    assert_eq!(period_micros(7), 142_857);
    assert_eq!(period_micros(600_000), 2);
    assert_eq!(period_micros(700_000), 1);
    assert_eq!(period_micros(1_000_000), 1);
    assert_eq!(period_micros(5_000_000), 1);
    assert_eq!(period_micros(1), 1_000_000);
}

#[test]
fn simulation_goes_on_until_its_time_is_up() {
    let go = SimStep::Advance { step_us: 1_000, proceed: true };
    assert_eq!(next_sim_step(0, 3, true), go);
    assert_eq!(next_sim_step(2_999_999, 3, true), go);
    assert_eq!(next_sim_step(3_000_000, 3, true), SimStep::TimedOut);
    assert_eq!(next_sim_step(0, 0, true), SimStep::TimedOut);
}

#[test]
fn simulation_takes_a_last_step_when_it_stops_running() {
    let last = SimStep::Advance { step_us: 1_000, proceed: false };
    assert_eq!(next_sim_step(1_000_000, 3, false), last);
    assert_eq!(next_sim_step(3_000_000, 3, false), SimStep::TimedOut);
}

#[test]
fn delays_come_from_random_words() {
    assert_eq!(camera_delay_from(0), 50_000);
    assert_eq!(camera_delay_from(9_999), 59_999);
    assert_eq!(camera_delay_from(10_000), 50_000);
    assert_eq!(camera_delay_from(u64::MAX), 51_615);
    assert_eq!(attitude_delay_from(0), 10_000);
    assert_eq!(attitude_delay_from(4_999), 14_999);
    assert_eq!(attitude_delay_from(5_000), 10_000);
    assert_eq!(attitude_delay_from(u64::MAX), 11_615);
}

#[test]
fn drawn_delays_stay_in_range_and_vary() {
    let first_camera = camera_delay();
    let first_attitude = attitude_delay();
    let mut camera_varies = false;
    let mut attitude_varies = false;
    for _ in 0..1000 {
        let camera = camera_delay();
        assert!((50_000..60_000).contains(&camera));
        camera_varies |= camera != first_camera;
        let attitude = attitude_delay();
        assert!((10_000..15_000).contains(&attitude));
        attitude_varies |= attitude != first_attitude;
    }
    assert!(camera_varies);
    assert!(attitude_varies);
}
