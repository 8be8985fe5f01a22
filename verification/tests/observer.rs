//! The simulated camera.

use std_test_device::camera::{OpticsModel, Ray};
use std_test_device::observer::{Observer, SceneModel};
use std_test_device::pronav::CameraModel;
use std_test_device::trajectory::PathModel;
use std_test_device::{Event, Trajectory, Waypoint};

type Vector = (i64, i64, i64);

/// Whole milliseconds and metres; the target keeps to the first axis.
struct Scene;

impl OpticsModel for Scene {
    type Scalar = i64;
    type Vector = Vector;
    type Attitude = i64;

    fn focal_length(&self, height: i64, _vfov_rad: i64) -> i64 {
        height
    }

    fn half(&self, x: i64) -> i64 {
        x / 2
    }

    fn difference(&self, to: Vector, from: Vector) -> Vector {
        (to.0 - from.0, to.1 - from.1, to.2 - from.2)
    }

    fn normalize(&self, v: Vector) -> Vector {
        v
    }

    fn to_body(&self, v: Vector, attitude: i64) -> Vector {
        (v.0, v.1 - attitude, v.2)
    }

    fn to_global(&self, v: Vector, attitude: i64) -> Vector {
        (v.0, v.1 + attitude, v.2)
    }

    fn to_camera(&self, v: Vector, pitch: i64) -> Ray<i64> {
        Ray { depth: v.0, right: v.1, down: v.2 + pitch }
    }

    fn from_camera(&self, right: i64, down: i64, pitch: i64) -> Vector {
        (1, right, down - pitch)
    }

    fn is_behind(&self, depth: i64) -> bool {
        depth <= 0
    }

    fn to_pixel(&self, offset: i64, _depth: i64, _focal: i64, center: i64) -> i64 {
        offset + center
    }

    fn from_pixel(&self, pixel: i64, _focal: i64, center: i64) -> i64 {
        pixel - center
    }

    fn is_negative(&self, x: i64) -> bool {
        x < 0
    }

    fn exceeds(&self, x: i64, limit: i64) -> bool {
        x > limit
    }
}

impl PathModel for Scene {
    type Time = i64;
    type Point = Vector;

    fn start(&self) -> i64 {
        0
    }

    fn advance(&self, time: i64, leg: i64) -> i64 {
        time + leg
    }

    fn at_or_before(&self, a: i64, b: i64) -> bool {
        a <= b
    }

    fn origin(&self) -> Vector {
        (0, 0, 0)
    }

    fn between(&self, from: Vector, to: Vector, depart: i64, arrive: i64, t: i64) -> Vector {
        (from.0 + (to.0 - from.0) * (t - depart) / (arrive - depart), from.1, from.2)
    }

    fn is_narrow(&self, window: i64) -> bool {
        window < 1
    }

    fn sample_time(&self, t: i64, _window: i64, _i: usize, _samples: usize) -> i64 {
        t
    }

    fn plus(&self, sum: Vector, point: Vector) -> Vector {
        (sum.0 + point.0, sum.1 + point.1, sum.2 + point.2)
    }

    fn mean(&self, sum: Vector, samples: usize) -> Vector {
        let n = samples as i64;
        (sum.0 / n, sum.1 / n, sum.2 / n)
    }
}

impl SceneModel for Scene {
    type Scalar = i64;
    type Vector = Vector;
    type Attitude = i64;
    type Optics = Scene;
    type Path = Scene;

    fn time_step(&self, dt_us: u64) -> i64 {
        dt_us as i64 / 1_000
    }

    fn start(&self) -> i64 {
        0
    }

    fn later(&self, time: i64, dt: i64) -> i64 {
        time + dt
    }

    fn window(&self) -> i64 {
        1
    }

    fn velocity(&self, to: Vector, from: Vector, dt: i64) -> Vector {
        ((to.0 - from.0) * 1_000 / dt, (to.1 - from.1) * 1_000 / dt, (to.2 - from.2) * 1_000 / dt)
    }

    fn aim(&self, pos: Vector) -> Vector {
        (pos.0, pos.1, pos.2 - 2)
    }

    fn focal_point(&self, pos: Vector, attitude: i64) -> Vector {
        (pos.0 + 1, pos.1 + attitude, pos.2)
    }

    fn is_struck(&self, los: Vector) -> bool {
        los.0.abs() < 3
    }

    fn end_after(&self, time: i64) -> i64 {
        time + 30
    }

    fn is_after(&self, time: i64, end: i64) -> bool {
        time > end
    }

    fn level(&self) -> i64 {
        0
    }

    fn disturbed(&self, x: i64, noise: i64) -> i64 {
        x + noise
    }

    fn mounted(&self, los: Vector) -> Vector {
        (los.0 + 1, los.1, los.2)
    }
}

/// A target that comes from (100, 5, 7) and is at (0, 5, 7) after a tenth of a second.
fn observer() -> Observer<Scene> {
    let path = Trajectory::new(
        Scene,
        vec![
            Waypoint { time: 0, pos: (100, 5, 7) },
            Waypoint { time: 100, pos: (0, 5, 7) },
        ],
    );
    Observer::new(Scene, path, CameraModel::new(Scene, 1440, 1080, 1, 10))
}

#[test]
fn test_starts_where_the_path_does() {
    let observer = observer();
    assert_eq!(observer.elapsed, 0);
    assert_eq!(observer.break_time, None);
    assert_eq!(observer.target_pos, (100, 5, 7));
}

#[test]
fn frame_shows_where_the_target_is_and_how_it_moves() {
    let mut observer = observer();
    let target = observer.follow();
    assert_eq!(target.pos, (100, 5, 7));
    assert_eq!(target.vel, (0, 0, 0));
    let frame = observer.observe((0, 0, 0), 0);
    // Five to the right; seven down, less two for the aim, and ten for the pitch.
    assert_eq!(frame.pixel, Some((725, 555)));
    assert!(!frame.struck);
    assert!(frame.proceed);
    assert_eq!(observer.elapsed, 20);

    let target = observer.follow();
    assert_eq!(target.pos, (80, 5, 7));
    assert_eq!(target.vel, (-1000, 0, 0));
    assert_eq!(observer.target_pos, (80, 5, 7));
    // Following the target takes no time.
    assert_eq!(observer.elapsed, 20);
    assert_eq!(observer.follow().vel, (0, 0, 0));
}

#[test]
fn camera_moves_and_turns_with_the_vehicle() {
    let mut observer = observer();
    let frame = observer.observe((10, 20, 30), 3);
    // 5 - (20 + 3) - 3 to the right; 7 - 2 - 30 + 10 down.
    assert_eq!(frame.pixel, Some((699, 525)));
}

#[test]
fn target_behind_the_camera_is_not_shown() {
    let mut observer = observer();
    let frame = observer.observe((200, 0, 0), 0);
    assert_eq!(frame.pixel, None);
    assert!(frame.proceed);
}

#[test]
fn first_strike_settles_the_end() {
    let mut observer = observer();
    observer.follow();
    assert!(!observer.observe((0, 0, 0), 0).struck);
    observer.follow();
    let frame = observer.observe((78, 0, 0), 0);
    assert!(frame.struck);
    assert!(frame.proceed);
    assert_eq!(observer.break_time, Some(50));
    // At 40 the target is close again, but the end stays where it is.
    observer.follow();
    let frame = observer.observe((58, 0, 0), 0);
    assert!(!frame.struck);
    assert!(frame.proceed);
    assert_eq!(observer.break_time, Some(50));
    let frame = observer.observe((0, 0, 0), 0);
    assert!(!frame.proceed);
    assert!(!observer.observe((0, 0, 0), 0).proceed);
}

#[test]
fn test_without_a_strike_goes_on() {
    let mut observer = observer();
    for _ in 0..100 {
        observer.follow();
        assert!(observer.observe((-50, 0, 0), 0).proceed);
    }
    assert_eq!(observer.break_time, None);
}

#[test]
fn report_is_disturbed_and_stamped() {
    let observer = observer();
    let (event, marker) = observer.report(1_234, (725, 555), (-3, 4));
    match event {
        Event::Camera { timestamp, target_pixel } => {
            assert_eq!(timestamp, 1_234);
            assert_eq!(target_pixel, (722, 559));
        }
        Event::Attitude { .. } => unreachable!(),
    }
    assert_eq!(marker, (2, 2, 9));
}
