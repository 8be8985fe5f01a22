//! Attitude history.

use std_test_device::pronav::attitude::AttitudeModel;
use std_test_device::pronav::AttitudeBuffer;

/// Attitudes are headings, rates are degrees per microsecond, all whole numbers.
struct Headings;

impl AttitudeModel for Headings {
    type Attitude = i64;
    type Rate = i64;
    type Weight = (i64, i64);

    fn swept(&self, rate: i64, dt_us: u64) -> i64 {
        rate * dt_us as i64
    }

    fn is_turn(&self, sweep: i64) -> bool {
        sweep.abs() > 1
    }

    fn turned(&self, attitude: i64, sweep: i64) -> i64 {
        attitude + sweep
    }

    fn weight(&self, part_us: u64, whole_us: u64) -> (i64, i64) {
        (part_us as i64, whole_us as i64)
    }

    fn slerp(&self, a: i64, b: i64, weight: (i64, i64)) -> i64 {
        a + (b - a) * weight.0 / weight.1
    }

    fn lerp(&self, a: i64, b: i64, weight: (i64, i64)) -> i64 {
        a + (b - a) * weight.0 / weight.1
    }
}

fn filled() -> AttitudeBuffer<Headings> {
    let mut buffer = AttitudeBuffer::new(Headings, 10);
    buffer.push(100, 0, 5);
    buffer.push(200, 50, 15);
    buffer.push(400, 250, 3);
    buffer
}

fn stamps(buffer: &AttitudeBuffer<Headings>) -> Vec<u64> {
    buffer.entries.iter().map(|e| e.timestamp).collect()
}

#[test]
fn empty_history_knows_nothing() {
    let buffer = AttitudeBuffer::new(Headings, 10);
    assert_eq!(buffer.latest(), None);
    assert_eq!(buffer.interpolate_at(0), None);
}

#[test]
fn latest_is_the_newest_sample() {
    assert_eq!(filled().latest(), Some((250, 3)));
}

#[test]
fn instants_before_the_first_sample_are_unknown() {
    let buffer = filled();
    assert_eq!(buffer.interpolate_at(99), None);
    assert_eq!(buffer.interpolate_at(0), None);
}

#[test]
fn stored_instants_are_returned_as_they_are() {
    let buffer = filled();
    assert_eq!(buffer.interpolate_at(100), Some((0, 5)));
    assert_eq!(buffer.interpolate_at(200), Some((50, 15)));
    assert_eq!(buffer.interpolate_at(400), Some((250, 3)));
}

#[test]
fn instants_in_between_are_interpolated() {
    let buffer = filled();
    assert_eq!(buffer.interpolate_at(150), Some((25, 10)));
    assert_eq!(buffer.interpolate_at(250), Some((100, 12)));
    assert_eq!(buffer.interpolate_at(399), Some((249, 4)));
}

#[test]
fn instants_after_the_last_sample_are_extrapolated() {
    let buffer = filled();
    assert_eq!(buffer.interpolate_at(410), Some((280, 3)));
}

#[test]
fn sweeps_too_small_to_have_a_direction_are_ignored() {
    let mut buffer = AttitudeBuffer::new(Headings, 10);
    buffer.push(100, 7, 1);
    assert_eq!(buffer.interpolate_at(101), Some((7, 1)));
    assert_eq!(buffer.interpolate_at(102), Some((9, 1)));
}

#[test]
fn samples_are_kept_in_chronological_order() {
    let mut buffer = filled();
    buffer.push(300, 1000, 0);
    buffer.push(50, -1000, 0);
    assert_eq!(stamps(&buffer), [50, 100, 200, 300, 400]);
    assert_eq!(buffer.interpolate_at(300), Some((1000, 0)));
    assert_eq!(buffer.interpolate_at(350), Some((625, 1)));
    assert_eq!(buffer.interpolate_at(50), Some((-1000, 0)));
}

#[test]
fn order_of_arrival_of_samples_makes_no_difference() {
    for capacity in 0..6 {
        let orders = [[100, 200, 300, 250], [100, 200, 250, 300], [250, 300, 200, 100]];
        let mut seen: Vec<Vec<u64>> = Vec::new();
        for order in orders {
            let mut buffer = AttitudeBuffer::new(Headings, capacity);
            for stamp in order {
                buffer.push(stamp, stamp as i64, 0);
            }
            seen.push(stamps(&buffer));
        }
        assert_eq!(seen[0], seen[1]);
        assert_eq!(seen[0], seen[2]);
    }
}

#[test]
fn oldest_samples_are_evicted() {
    let mut buffer = AttitudeBuffer::new(Headings, 2);
    buffer.push(100, 1, 0);
    buffer.push(200, 2, 0);
    buffer.push(300, 3, 0);
    assert_eq!(stamps(&buffer), [200, 300]);
    buffer.push(150, 9, 0);
    assert_eq!(stamps(&buffer), [200, 300]);
    assert_eq!(buffer.interpolate_at(150), None);
}

#[test]
fn history_without_capacity_keeps_nothing() {
    let mut buffer = AttitudeBuffer::new(Headings, 0);
    buffer.push(100, 1, 0);
    assert_eq!(buffer.latest(), None);
}

#[test]
fn late_sample_of_a_known_instant_goes_in_front() {
    let mut buffer = filled();
    buffer.push(200, 70, 1);
    let headings: Vec<i64> = buffer.entries.iter().map(|e| e.attitude).collect();
    assert_eq!(headings, [0, 70, 50, 250]);
}
