//! The guidance law on whole numbers: what the cruise phase leaves out of account.

use std_test_device::pronav::guidance::{GuidanceModel, Tuning};
use std_test_device::pronav::{FlightPhase, ProNav};

/// A horizontal and a vertical component.
type Vector = (i64, i64);

struct Axes;

impl GuidanceModel for Axes {
    type Scalar = i64;
    type Vector = Vector;
    type Attitude = Vector;

    fn default_tuning(&self) -> Tuning<i64> {
        Tuning {
            pronav_gain: 5,
            intnav_gain: 3,
            pursuit_gain: 2,
            velocity_gain: 0,
            velocity_target: 35,
            camera_pitch: 0,
            fov_limit: 4,
            fov_penalty_gain: 10,
            fov_leak_rate: 1,
        }
    }

    fn zero(&self) -> i64 {
        0
    }

    fn zero_vector(&self) -> Vector {
        (0, 0)
    }

    fn at_least_zero(&self, x: i64) -> i64 {
        x.max(0)
    }

    fn is_steep(&self, los_unit: Vector) -> bool {
        los_unit.1.abs() > 5
    }

    fn horizontal(&self, v: Vector) -> Vector {
        (v.0, 0)
    }

    fn integrate(&self, sum: Vector, v: Vector, dt: i64) -> Vector {
        (sum.0 + v.0 * dt, sum.1 + v.1 * dt)
    }

    fn demand(
        &self,
        tuning: Tuning<i64>,
        vel: i64,
        los: Vector,
        los_vel: Vector,
        sum: Vector,
    ) -> Vector {
        let one = |los: i64, los_vel: i64, sum: i64| {
            tuning.pronav_gain * vel * los_vel
                + tuning.intnav_gain * vel * sum
                + tuning.pursuit_gain * los
        };
        (one(los.0, los_vel.0, sum.0), one(los.1, los_vel.1, sum.1))
    }

    fn against_gravity(&self, accel: Vector) -> Vector {
        (accel.0, accel.1 - 10)
    }

    fn boresight(&self, camera_pitch: i64, attitude: Vector) -> Vector {
        (attitude.0, attitude.1 - camera_pitch)
    }

    fn angle(&self, a: Vector, b: Vector) -> i64 {
        (a.0 - b.0).abs() + (a.1 - b.1).abs()
    }

    fn beyond(&self, angle: i64, limit: i64) -> i64 {
        angle - limit
    }

    fn leak(&self, sum: i64, leak_rate: i64, input: i64, dt: i64) -> i64 {
        sum + (input - leak_rate * sum) * dt
    }

    fn is_positive(&self, x: i64) -> bool {
        x > 0
    }

    fn is_wide(&self, angle: i64) -> bool {
        angle > 1
    }

    fn restoring_axis(&self, from: Vector, to: Vector) -> Option<Vector> {
        if from == to {
            None
        } else {
            Some((to.0 - from.0, to.1 - from.1))
        }
    }

    fn times(&self, a: i64, b: i64) -> i64 {
        a * b
    }

    fn at_most_right(&self, angle: i64) -> i64 {
        angle.min(90)
    }

    fn turn(&self, v: Vector, axis: Vector, angle: i64) -> Vector {
        (v.0 + axis.0 * angle, v.1 + axis.1 * angle)
    }

    fn direction(&self, v: Vector) -> Option<Vector> {
        if v == (0, 0) {
            None
        } else {
            Some((v.0.signum(), v.1.signum()))
        }
    }

    fn up(&self) -> Vector {
        (0, -1)
    }

    fn north(&self) -> Vector {
        (1, 0)
    }

    fn east(&self) -> Vector {
        (2, 0)
    }

    fn thrust_axis(&self, attitude: Vector) -> Vector {
        attitude
    }

    fn dot(&self, a: Vector, b: Vector) -> i64 {
        a.0 * b.0 + a.1 * b.1
    }

    fn fraction(&self, x: i64) -> i64 {
        x.clamp(0, 1)
    }

    fn opposite(&self, v: Vector) -> Vector {
        (-v.0, -v.1)
    }

    fn square_to(&self, a: Vector, b: Vector) -> Option<Vector> {
        Some((a.0 + b.0, a.1 + b.1))
    }

    fn attitude_of(&self, right: Vector, down: Vector) -> Vector {
        (right.0 * 10 + down.0, right.1 * 10 + down.1)
    }

    fn force(&self, mass: i64, accel: Vector, alignment: i64) -> i64 {
        mass * (accel.0.abs() + accel.1.abs()) * alignment
    }
}

#[test]
fn cruise_ignores_the_vertical_rate() {
    let mut a = ProNav::new(Axes, 2);
    let mut b = ProNav::new(Axes, 2);
    for i in 0..50 {
        let los = (i % 7 - 3, i % 5 - 2);
        let attitude = (i % 3 - 1, -1);
        let result_a = a.update(20, los, (i % 4, 17 * i), attitude, 1);
        let result_b = b.update(20, los, (i % 4, -3), attitude, 1);
        assert_eq!(result_a, result_b);
        assert_eq!(a.los_vel_integral, b.los_vel_integral);
    }
    assert_eq!(a.phase, FlightPhase::Cruise);
}

#[test]
fn terminal_phase_heeds_the_vertical_rate() {
    let mut a = ProNav::new(Axes, 2);
    let mut b = ProNav::new(Axes, 2);
    let result_a = a.update(20, (1, 9), (1, 4), (1, 9), 1);
    let result_b = b.update(20, (1, 9), (1, -3), (1, 9), 1);
    assert!(result_a != result_b);
    assert_eq!(a.los_vel_integral, (1, 4));
}

#[test]
fn one_step_in_cruise() {
    let mut pronav = ProNav::new(Axes, 2);
    // Asks for 5 * 20 * 1 + 3 * 20 * 1 + 2 * 1 ahead and, against gravity, 10 up. The camera
    // points 2 off the target, which is not too wide.
    let (attitude, force) = pronav.update(20, (1, 0), (1, 8), (0, -1), 1);
    // The thrust goes ahead and up; down is its opposite, and right the sum of that and the
    // line of sight.
    assert_eq!(attitude, (-1, 11));
    assert_eq!(force, 2 * (162 + 10));
    assert_eq!(pronav.fov_integral, 0);
}
