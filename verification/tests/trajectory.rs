//! The path of the target.

use std_test_device::trajectory::PathModel;
use std_test_device::{Trajectory, Waypoint};

/// Seconds and metres on a line, with whole thousandths for the averages.
struct Line;

impl PathModel for Line {
    type Time = i64;
    type Point = i64;

    fn start(&self) -> i64 {
        0
    }

    fn advance(&self, time: i64, leg: i64) -> i64 {
        time + leg
    }

    fn at_or_before(&self, a: i64, b: i64) -> bool {
        a <= b
    }

    fn origin(&self) -> i64 {
        0
    }

    fn between(&self, from: i64, to: i64, depart: i64, arrive: i64, t: i64) -> i64 {
        from + (to - from) * (t - depart) / (arrive - depart)
    }

    fn is_narrow(&self, window: i64) -> bool {
        window <= 0
    }

    fn sample_time(&self, t: i64, window: i64, i: usize, samples: usize) -> i64 {
        t - window + 2 * window * i as i64 / (samples as i64 - 1)
    }

    fn plus(&self, sum: i64, point: i64) -> i64 {
        sum + point
    }

    fn mean(&self, sum: i64, samples: usize) -> i64 {
        sum / samples as i64
    }
}

fn path() -> Trajectory<Line> {
    Trajectory::new(
        Line,
        vec![
            Waypoint { time: 5, pos: 1000 },
            Waypoint { time: 10, pos: 600 },
            Waypoint { time: 10, pos: 400 },
            Waypoint { time: 8, pos: 480 },
        ],
    )
}

#[test]
fn times_of_the_waypoints_add_up() {
    let path = path();
    assert_eq!(path.position_at(5), 1000);
    assert_eq!(path.position_at(15), 600);
    assert_eq!(path.position_at(25), 400);
    assert_eq!(path.position_at(33), 480);
}

#[test]
fn target_waits_at_both_ends() {
    let path = path();
    assert_eq!(path.position_at(-100), 1000);
    assert_eq!(path.position_at(0), 1000);
    assert_eq!(path.position_at(34), 480);
    assert_eq!(path.position_at(1000), 480);
}

#[test]
fn target_moves_straight_between_waypoints() {
    let path = path();
    assert_eq!(path.position_at(6), 960);
    assert_eq!(path.position_at(14), 640);
    assert_eq!(path.position_at(20), 500);
    assert_eq!(path.position_at(26), 410);
}

#[test]
fn path_without_waypoints_stays_at_the_origin() {
    let path = Trajectory::new(Line, vec![]);
    assert_eq!(path.position_at(7), 0);
    assert_eq!(path.smoothed_position_at(7, 1), 0);
}

#[test]
fn path_with_one_waypoint_stays_there() {
    let path = Trajectory::new(Line, vec![Waypoint { time: 3, pos: 9 }]);
    assert_eq!(path.position_at(0), 9);
    assert_eq!(path.position_at(3), 9);
    assert_eq!(path.position_at(4), 9);
}

#[test]
fn narrow_windows_do_not_smooth() {
    let path = path();
    assert_eq!(path.smoothed_position_at(6, 0), 960);
    assert_eq!(path.smoothed_position_at(6, -5), 960);
}

#[test]
fn smoothed_position_is_the_mean_of_twenty_samples() {
    let path = Trajectory::new(
        Line,
        vec![Waypoint { time: 0, pos: 0 }, Waypoint { time: 190, pos: 1900 }],
    );
    // The samples are at 10, 20, ..., 200; the last one is past the end.
    assert_eq!(path.smoothed_position_at(105, 95), 1045);
}

#[test]
fn smoothing_leaves_a_resting_target_alone() {
    let path = path();
    assert_eq!(path.smoothed_position_at(60, 19), 480);
    assert_eq!(path.smoothed_position_at(-60, 19), 1000);
}

/// Instants that cannot be compared: nothing is before or after anything.
struct Timeless;

impl PathModel for Timeless {
    type Time = i64;
    type Point = i64;

    fn start(&self) -> i64 {
        0
    }

    fn advance(&self, time: i64, leg: i64) -> i64 {
        time + leg
    }

    fn at_or_before(&self, _a: i64, _b: i64) -> bool {
        false
    }

    fn origin(&self) -> i64 {
        0
    }

    fn between(&self, _from: i64, _to: i64, _depart: i64, _arrive: i64, _t: i64) -> i64 {
        unreachable!()
    }

    fn is_narrow(&self, _window: i64) -> bool {
        true
    }

    fn sample_time(&self, t: i64, _window: i64, _i: usize, _samples: usize) -> i64 {
        t
    }

    fn plus(&self, sum: i64, point: i64) -> i64 {
        sum + point
    }

    fn mean(&self, sum: i64, _samples: usize) -> i64 {
        sum
    }
}

#[test]
fn instants_on_no_way_lead_to_the_last_waypoint() {
    let path = Trajectory::new(
        Timeless,
        vec![Waypoint { time: 1, pos: 10 }, Waypoint { time: 1, pos: 20 }],
    );
    assert_eq!(path.position_at(1), 20);
}

#[test]
fn straight_motion_is_not_displaced() {
    let path = Trajectory::new(
        Line,
        vec![Waypoint { time: 0, pos: 0 }, Waypoint { time: 1_000, pos: 5_000 }],
    );
    for t in [100, 300, 777] {
        assert_eq!(path.smoothed_position_at(t, 95), path.position_at(t));
    }
    assert_eq!(path.smoothed_position_at(95, 95), 475);
    assert_eq!(path.smoothed_position_at(905, 95), 4_525);
}

#[test]
fn narrow_windows_give_the_position() {
    let path = path();
    for t in -5..40 {
        assert_eq!(path.smoothed_position_at(t, 0), path.position_at(t));
    }
}
