//! Alpha-beta filters for the line of sight.

use std_test_device::los::LosModel;
use std_test_device::los_estimator;
use std_test_device::pronav;

/// Directions are headings, gains are tenths, all whole numbers.
struct Headings;

impl LosModel for Headings {
    type Scalar = i64;
    type Vector = i64;

    fn clamp_gain(&self, alpha: i64) -> i64 {
        alpha.clamp(0, 10)
    }

    fn rate_gain(&self, alpha: i64) -> i64 {
        alpha * alpha
    }

    fn forward(&self) -> i64 {
        -1
    }

    fn zero(&self) -> i64 {
        0
    }

    fn time_step(&self, dt_us: u64) -> i64 {
        dt_us as i64
    }

    fn predict(&self, unit: i64, rate: i64, dt: i64) -> i64 {
        unit + rate * dt
    }

    fn correct(&self, predicted: i64, measured: i64, alpha: i64) -> i64 {
        predicted + alpha * (measured - predicted) / 10
    }

    fn correct_rate(&self, rate: i64, predicted: i64, measured: i64, beta: i64, dt: i64) -> i64 {
        rate + beta * (measured - predicted) / dt
    }

    /// Headings have no length, so the remainder stands for what is tangential.
    fn tangential(&self, unit: i64, rate: i64) -> i64 {
        if unit == 0 {
            rate
        } else {
            rate % 1000
        }
    }
}

#[test]
fn blind_filter_looks_straight_ahead() {
    let mut filter = los_estimator::AlphaBetaLos::new(Headings, 5);
    assert_eq!(filter.update(None, 10), (-1, 0));
    assert_eq!(filter.update(None, 10), (-1, 0));
}

#[test]
fn first_measurement_is_taken_as_it_is() {
    let mut filter = los_estimator::AlphaBetaLos::new(Headings, 5);
    assert_eq!(filter.update(Some(100), 10), (100, 0));
}

#[test]
fn measurements_correct_direction_and_rate() {
    let mut filter = los_estimator::AlphaBetaLos::new(Headings, 5);
    filter.update(Some(100), 10);
    // Predicted 100, off by 40: half of it into the direction, 25 * 40 / 10 into the rate.
    assert_eq!(filter.update(Some(140), 10), (120, 100));
    // Predicted 1120, off by -20.
    assert_eq!(filter.update(Some(1100), 10), (1110, 50));
}

#[test]
fn lost_track_is_coasted() {
    let mut filter = los_estimator::AlphaBetaLos::new(Headings, 5);
    filter.update(Some(100), 10);
    filter.update(Some(140), 10);
    assert_eq!(filter.update(None, 10), (1120, 100));
    assert_eq!(filter.update(None, 1), (1220, 100));
}

#[test]
fn only_the_tangential_rate_is_kept() {
    let mut filter = los_estimator::AlphaBetaLos::new(Headings, 10);
    filter.update(Some(0), 10);
    // The rate is 100 * 207 / 10 = 2070 before its remainder is taken.
    assert_eq!(filter.update(Some(207), 10), (207, 70));
}

#[test]
fn gains_are_clamped() {
    let mut high = los_estimator::AlphaBetaLos::new(Headings, 25);
    high.update(Some(0), 10);
    assert_eq!(high.update(Some(7), 10), (7, 70));
    let mut low = los_estimator::AlphaBetaLos::new(Headings, -25);
    low.update(Some(100), 10);
    assert_eq!(low.update(Some(700), 10), (100, 0));
}

#[test]
fn reset_makes_the_filter_blind_again() {
    let mut filter = los_estimator::AlphaBetaLos::new(Headings, 5);
    filter.update(Some(100), 10);
    filter.update(Some(140), 10);
    filter.reset();
    assert_eq!(filter.update(None, 10), (-1, 0));
    assert_eq!(filter.update(Some(7), 10), (7, 0));
}

#[test]
fn rewindable_filter_starts_blind() {
    let mut filter = pronav::AlphaBetaLos::new(Headings, 5);
    assert_eq!(filter.current_estimate(), (-1, 0));
    assert_eq!(filter.predict_to(1_000), (-1, 0));
    assert_eq!(filter.fuse(10, None), (-1, 0));
    assert_eq!(filter.predict_to(1_000), (-1, 0));
}

#[test]
fn rewindable_filter_steps_by_the_time_between_measurements() {
    let mut filter = pronav::AlphaBetaLos::new(Headings, 5);
    assert_eq!(filter.fuse(1_000, Some(100)), (100, 0));
    assert_eq!(filter.fuse(1_010, Some(140)), (120, 100));
    assert_eq!(filter.current_estimate(), (120, 100));
    assert_eq!(filter.fuse(1_020, None), (1120, 100));
}

#[test]
fn simultaneous_measurements_leave_the_rate_alone() {
    let mut filter = pronav::AlphaBetaLos::new(Headings, 5);
    filter.fuse(1_000, Some(100));
    filter.fuse(1_010, Some(140));
    assert_eq!(filter.fuse(1_010, Some(320)), (220, 100));
}

#[test]
fn late_measurement_is_as_good_as_a_punctual_one() {
    let mut punctual = pronav::AlphaBetaLos::new(Headings, 5);
    punctual.fuse(1_000, Some(100));
    punctual.fuse(1_010, Some(140));
    let expected = punctual.fuse(1_020, Some(1_100));

    let mut late = pronav::AlphaBetaLos::new(Headings, 5);
    late.fuse(1_000, Some(100));
    late.fuse(1_020, Some(1_100));
    assert_eq!(late.fuse(1_010, Some(140)), expected);
    assert_eq!(expected, (1110, 50));

    let mut latest = pronav::AlphaBetaLos::new(Headings, 5);
    latest.fuse(1_010, Some(140));
    latest.fuse(1_020, Some(1_100));
    assert_eq!(latest.fuse(1_000, Some(100)), expected);
}

#[test]
fn prediction_moves_the_filter_on() {
    let mut filter = pronav::AlphaBetaLos::new(Headings, 5);
    filter.fuse(1_000, Some(100));
    filter.fuse(1_010, Some(140));
    assert_eq!(filter.predict_to(1_013), (420, 100));
    assert_eq!(filter.current_estimate(), (420, 100));
    assert_eq!(filter.predict_to(1_013), (420, 100));
    assert_eq!(filter.predict_to(1_005), (420, 100));
}

#[test]
fn prediction_is_not_recorded() {
    let mut filter = pronav::AlphaBetaLos::new(Headings, 5);
    filter.fuse(1_000, Some(100));
    filter.fuse(1_010, Some(140));
    filter.predict_to(2_000);
    assert_eq!(filter.fuse(1_020, Some(1_100)), (1110, 50));
}

#[test]
fn measurement_at_the_predicted_instant_corrects_the_rate() {
    let mut predicted = pronav::AlphaBetaLos::new(Headings, 5);
    let mut resting = pronav::AlphaBetaLos::new(Headings, 5);
    for filter in [&mut predicted, &mut resting] {
        filter.fuse(1_000, Some(100));
    }
    assert_eq!(predicted.predict_to(1_010), (100, 0));
    assert_eq!(predicted.fuse(1_010, Some(140)), (120, 100));
    assert_eq!(resting.fuse(1_010, Some(140)), (120, 100));
}

#[test]
fn predictions_start_from_the_last_measurement() {
    let mut filter = pronav::AlphaBetaLos::new(Headings, 5);
    filter.fuse(1_000, Some(100));
    filter.fuse(1_010, Some(140));
    assert_eq!(filter.predict_to(1_013), (420, 100));
    assert_eq!(filter.predict_to(1_020), (1120, 100));
    assert_eq!(filter.fuse(1_020, Some(1_100)), (1110, 50));
}

#[test]
fn measurements_older_than_the_history_restart_the_filter() {
    let mut filter = pronav::AlphaBetaLos::new(Headings, 10);
    for i in 0..300 {
        filter.fuse(1_000 + i, Some(7));
    }
    assert_eq!(filter.fuse(500, Some(900)), (7, 0));
}

#[test]
fn reset_forgets_the_history() {
    let mut filter = pronav::AlphaBetaLos::new(Headings, 5);
    filter.fuse(1_000, Some(100));
    filter.fuse(1_010, Some(140));
    filter.reset();
    assert_eq!(filter.current_estimate(), (-1, 0));
    assert_eq!(filter.fuse(900, Some(3)), (3, 0));
}

#[test]
fn step_is_the_update_in_order() {
    let measurements = [Some(100), Some(140), None, Some(1_100), Some(7), None];
    let mut in_order = los_estimator::AlphaBetaLos::new(Headings, 5);
    let mut rewindable = pronav::AlphaBetaLos::new(Headings, 5);
    for (i, measurement) in measurements.into_iter().enumerate() {
        let expected = in_order.update(measurement, 10);
        assert_eq!(rewindable.fuse(1_000 + 10 * i as u64, measurement), expected);
    }
}

#[test]
fn estimate_does_not_depend_on_arrival() {
    let measurements: Vec<(u64, Option<i64>)> = (0..256)
        .map(|i| (1_000 + 7 * i, if i % 5 == 0 { None } else { Some((i * i % 90) as i64) }))
        .collect();
    let mut in_order = pronav::AlphaBetaLos::new(Headings, 3);
    for (timestamp, measurement) in &measurements {
        in_order.fuse(*timestamp, *measurement);
    }
    let mut shuffled = pronav::AlphaBetaLos::new(Headings, 3);
    for i in 0..256 {
        let (timestamp, measurement) = measurements[i * 77 % 256];
        shuffled.fuse(timestamp, measurement);
    }
    assert_eq!(shuffled.current_estimate(), in_order.current_estimate());
}

/// An arrow on a circle: whether it has unit length, the heading that it starts from, and how
/// long it is there. A rate that is square to no direction starts from nowhere.
type Arrow = (bool, i64, i64);

const NOWHERE: i64 = -1_000_000;

struct Circle;

impl LosModel for Circle {
    type Scalar = i64;
    type Vector = Arrow;

    fn clamp_gain(&self, alpha: i64) -> i64 {
        alpha.clamp(0, 10)
    }

    fn rate_gain(&self, alpha: i64) -> i64 {
        alpha
    }

    fn forward(&self) -> Arrow {
        (true, 0, 1)
    }

    fn zero(&self) -> Arrow {
        (false, NOWHERE, 0)
    }

    fn time_step(&self, dt_us: u64) -> i64 {
        dt_us as i64
    }

    fn predict(&self, unit: Arrow, rate: Arrow, dt: i64) -> Arrow {
        (true, unit.1 + rate.2 * dt, 1)
    }

    fn correct(&self, predicted: Arrow, measured: Arrow, alpha: i64) -> Arrow {
        (true, predicted.1 + alpha * (measured.1 - predicted.1) / 10, 1)
    }

    fn correct_rate(&self, rate: Arrow, from: Arrow, to: Arrow, beta: i64, dt: i64) -> Arrow {
        (false, NOWHERE, rate.2 + beta * (to.1 - from.1) / dt)
    }

    fn tangential(&self, unit: Arrow, rate: Arrow) -> Arrow {
        (false, unit.1, rate.2)
    }
}

fn on_the_sphere((unit, rate): (Arrow, Arrow)) -> bool {
    unit.0 && (rate.2 == 0 || rate.1 == unit.1)
}

#[test]
fn estimate_stays_on_the_sphere() {
    let mut filter = los_estimator::AlphaBetaLos::new(Circle, 5);
    assert!(on_the_sphere(filter.update(None, 10)));
    let mut moved = false;
    for i in 0..50 {
        let seen = if i % 3 == 0 { None } else { Some((true, i * i, 1)) };
        let estimate = filter.update(seen, 10);
        assert!(on_the_sphere(estimate));
        moved = moved || estimate.1.2 != 0;
    }
    assert!(moved);
}

#[test]
fn rewindable_estimate_is_on_the_sphere() {
    let mut filter = pronav::AlphaBetaLos::new(Circle, 5);
    assert!(on_the_sphere(filter.current_estimate()));
    assert!(on_the_sphere(filter.predict_to(5)));
    let mut moved = false;
    for i in 0..50 {
        let seen = if i % 3 == 0 { None } else { Some((true, i * i, 1)) };
        // Every other measurement is late.
        let timestamp = (100 + 10 * i - 25 * (i % 2)) as u64;
        assert!(on_the_sphere(filter.fuse(timestamp, seen)));
        let estimate = filter.predict_to((105 + 10 * i) as u64);
        assert!(on_the_sphere(estimate));
        moved = moved || estimate.1.2 != 0;
    }
    assert!(moved);
    filter.reset();
    assert!(on_the_sphere(filter.current_estimate()));
}
