//! The error-state Kalman filter on a circle of whole degrees.

use std_test_device::pronav::eskf::EskfModel;
use std_test_device::pronav::{EskfLos, OosmEskfLos};

/// Directions are headings, and the basis at a heading is the one square to it.
struct Circle;

impl EskfModel for Circle {
    type Scalar = i64;
    type Vector = i64;
    type Basis = i64;
    type Rotation = i64;
    type Cov = i64;
    type Noise = i64;
    type Gain = i64;
    type Error = i64;

    fn forward(&self) -> i64 {
        0
    }

    fn zero(&self) -> i64 {
        0
    }

    fn first_axis(&self) -> i64 {
        0
    }

    fn second_axis(&self) -> i64 {
        90
    }

    fn is_near_first_axis(&self, u: i64) -> bool {
        u.abs() < 25
    }

    fn span(&self, u: i64, _v: i64) -> i64 {
        u + 90
    }

    fn unknown(&self) -> i64 {
        1
    }

    fn isotropic(&self, r: i64) -> i64 {
        r
    }

    fn time_step(&self, dt_us: u64) -> i64 {
        dt_us as i64
    }

    fn swept(&self, omega: i64, dt: i64) -> i64 {
        omega * dt
    }

    fn is_turn(&self, angle: i64) -> bool {
        angle != 0
    }

    fn rotation(&self, _omega: i64, angle: i64) -> i64 {
        angle
    }

    fn rotate(&self, rotation: i64, v: i64) -> i64 {
        v + rotation
    }

    fn rotate_basis(&self, rotation: i64, basis: i64) -> i64 {
        basis + rotation
    }

    fn propagate(&self, p: i64, q: i64, dt: i64) -> i64 {
        p + q * dt * dt
    }

    fn innovation_inverse(&self, p: i64, _basis: i64, _z: i64, r: i64, a: i64) -> Option<i64> {
        if p + r + a == 0 {
            None
        } else {
            Some(p + r + a)
        }
    }

    fn gain(&self, _p: i64, _basis: i64, inverse: i64) -> i64 {
        inverse
    }

    fn error(&self, _gain: i64, z: i64, u: i64) -> i64 {
        (z - u) / 2
    }

    fn tilt(&self, error: i64) -> i64 {
        error
    }

    fn tilted(&self, u: i64, _basis: i64, error: i64, _tilt: i64) -> i64 {
        u + error
    }

    fn corrected_rate(&self, omega: i64, _basis: i64, error: i64, _u: i64) -> i64 {
        omega + error / 4
    }

    fn shrunk(&self, p: i64, _gain: i64, _basis: i64) -> i64 {
        p
    }

    fn refined(&self, _basis: i64, u: i64) -> i64 {
        u + 90
    }
}

fn state(filter: &EskfLos<Circle>) -> (i64, i64, i64, i64) {
    (filter.u_hat, filter.omega_hat, filter.basis, filter.p_cov)
}

#[test]
fn predictions_without_noise_add_up() {
    let mut parts = EskfLos::new(Circle, 0, 1);
    parts.update(40, 1);
    let mut whole = EskfLos::new(Circle, 0, 1);
    whole.update(40, 1);
    parts.predict(3);
    parts.predict(0);
    parts.predict(8);
    whole.predict(11);
    assert_eq!(state(&parts), state(&whole));
    assert_eq!(state(&whole), (75, 5, 165, 1));
}

#[test]
fn basis_stays_tangential() {
    let mut filter = EskfLos::new(Circle, 2, 1);
    assert_eq!(filter.basis, filter.u_hat + 90);
    for i in 0..20 {
        filter.predict(i % 3);
        assert_eq!(filter.basis, filter.u_hat + 90);
        filter.update(7 * i, 1);
        assert_eq!(filter.basis, filter.u_hat + 90);
    }
    filter.reset();
    assert_eq!(filter.basis, filter.u_hat + 90);
}

#[test]
fn measurements_of_the_tracker_may_arrive_in_any_order() {
    let measurements: Vec<(u64, i64)> =
        (0..32).map(|i| (100 + 3 * i, (i * i % 50) as i64)).collect();
    let mut in_order = OosmEskfLos::new(EskfLos::new(Circle, 2, 1), 32);
    for (timestamp, z_u) in &measurements {
        in_order.fuse(*timestamp, *z_u, 1);
    }
    let mut shuffled = OosmEskfLos::new(EskfLos::new(Circle, 2, 1), 32);
    for i in 0..32 {
        let (timestamp, z_u) = measurements[i * 13 % 32];
        shuffled.fuse(timestamp, z_u, 1);
        if i % 4 == 0 {
            shuffled.predict_to(1_000);
        }
    }
    let latest = 100 + 3 * 31;
    assert_eq!(shuffled.predict_to(latest), in_order.predict_to(latest));
}
