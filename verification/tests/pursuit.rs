//! The guidance loop, on terms that spell out which formula was applied to what.

use std_test_device::camera::{OpticsModel, Ray};
use std_test_device::pronav::attitude::AttitudeModel;
use std_test_device::pronav::eskf::EskfModel;
use std_test_device::pronav::guidance::{GuidanceModel, Tuning};
use std_test_device::pronav::{CameraModel, EskfLos, OosmEskfLos, ProNav};
use std_test_device::pursuit::{Outcome, Pursuit, PursuitModel};
use std_test_device::Event;

type Term = &'static str;

fn term(text: String) -> Term {
    Box::leak(text.into_boxed_str())
}

#[derive(Clone, Copy)]
struct Terms;

impl OpticsModel for Terms {
    type Scalar = Term;
    type Vector = Term;
    type Attitude = Term;

    fn focal_length(&self, _height: Term, _vfov_rad: Term) -> Term {
        "f"
    }

    fn half(&self, _x: Term) -> Term {
        "c"
    }

    fn difference(&self, _to: Term, _from: Term) -> Term {
        unreachable!()
    }

    fn normalize(&self, _v: Term) -> Term {
        unreachable!()
    }

    fn to_body(&self, _v: Term, _attitude: Term) -> Term {
        unreachable!()
    }

    fn to_global(&self, v: Term, attitude: Term) -> Term {
        term(format!("{attitude}.{v}"))
    }

    fn to_camera(&self, _v: Term, _pitch: Term) -> Ray<Term> {
        unreachable!()
    }

    fn from_camera(&self, right: Term, down: Term, pitch: Term) -> Term {
        term(format!("ray({right},{down},{pitch})"))
    }

    fn is_behind(&self, _depth: Term) -> bool {
        unreachable!()
    }

    fn to_pixel(&self, _offset: Term, _depth: Term, _focal: Term, _center: Term) -> Term {
        unreachable!()
    }

    fn from_pixel(&self, pixel: Term, _focal: Term, _center: Term) -> Term {
        pixel
    }

    fn is_negative(&self, _x: Term) -> bool {
        unreachable!()
    }

    fn exceeds(&self, _x: Term, _limit: Term) -> bool {
        unreachable!()
    }
}

impl AttitudeModel for Terms {
    type Attitude = Term;
    type Rate = Term;
    type Weight = Term;

    fn swept(&self, rate: Term, dt_us: u64) -> Term {
        term(format!("{rate}*{dt_us}"))
    }

    fn is_turn(&self, _sweep: Term) -> bool {
        true
    }

    fn turned(&self, attitude: Term, sweep: Term) -> Term {
        term(format!("({attitude}+{sweep})"))
    }

    fn weight(&self, part_us: u64, whole_us: u64) -> Term {
        term(format!("{part_us}/{whole_us}"))
    }

    fn slerp(&self, a: Term, b: Term, weight: Term) -> Term {
        term(format!("slerp({a},{b},{weight})"))
    }

    fn lerp(&self, a: Term, b: Term, weight: Term) -> Term {
        term(format!("lerp({a},{b},{weight})"))
    }
}

impl EskfModel for Terms {
    type Scalar = Term;
    type Vector = Term;
    type Basis = Term;
    type Rotation = Term;
    type Cov = Term;
    type Noise = Term;
    type Gain = Term;
    type Error = Term;

    fn forward(&self) -> Term {
        "fwd"
    }

    fn zero(&self) -> Term {
        "zero"
    }

    fn first_axis(&self) -> Term {
        "e1"
    }

    fn second_axis(&self) -> Term {
        "e2"
    }

    fn is_near_first_axis(&self, _u: Term) -> bool {
        true
    }

    fn span(&self, _u: Term, _v: Term) -> Term {
        "B"
    }

    fn unknown(&self) -> Term {
        "P"
    }

    fn isotropic(&self, r: Term) -> Term {
        r
    }

    fn time_step(&self, dt_us: u64) -> Term {
        term(format!("{dt_us}us"))
    }

    fn swept(&self, omega: Term, dt: Term) -> Term {
        term(format!("{omega}*{dt}"))
    }

    fn is_turn(&self, _angle: Term) -> bool {
        true
    }

    fn rotation(&self, _omega: Term, angle: Term) -> Term {
        angle
    }

    fn rotate(&self, rotation: Term, v: Term) -> Term {
        term(format!("{v}@{rotation}"))
    }

    fn rotate_basis(&self, _rotation: Term, basis: Term) -> Term {
        basis
    }

    fn propagate(&self, p: Term, _q: Term, _dt: Term) -> Term {
        p
    }

    fn innovation_inverse(&self, _p: Term, _b: Term, _z: Term, _r: Term, a: Term) -> Option<Term> {
        Some(a)
    }

    fn gain(&self, _p: Term, _basis: Term, inverse: Term) -> Term {
        inverse
    }

    fn error(&self, gain: Term, z: Term, _u: Term) -> Term {
        term(format!("{z}~{gain}"))
    }

    fn tilt(&self, _error: Term) -> Term {
        "tilt"
    }

    fn tilted(&self, u: Term, _basis: Term, error: Term, _tilt: Term) -> Term {
        term(format!("[{u}<{error}]"))
    }

    fn corrected_rate(&self, omega: Term, _basis: Term, _error: Term, _u: Term) -> Term {
        omega
    }

    fn shrunk(&self, p: Term, _gain: Term, _basis: Term) -> Term {
        p
    }

    fn refined(&self, basis: Term, _u: Term) -> Term {
        basis
    }
}

impl GuidanceModel for Terms {
    type Scalar = Term;
    type Vector = Term;
    type Attitude = Term;

    fn default_tuning(&self) -> Tuning<Term> {
        Tuning {
            pronav_gain: "5",
            intnav_gain: "0",
            pursuit_gain: "0",
            velocity_gain: "0",
            velocity_target: "35",
            camera_pitch: "0",
            fov_limit: "45",
            fov_penalty_gain: "10",
            fov_leak_rate: "1",
        }
    }

    fn zero(&self) -> Term {
        "0"
    }

    fn zero_vector(&self) -> Term {
        "none"
    }

    fn at_least_zero(&self, x: Term) -> Term {
        x
    }

    fn is_steep(&self, _los_unit: Term) -> bool {
        true
    }

    fn horizontal(&self, v: Term) -> Term {
        v
    }

    fn integrate(&self, sum: Term, _v: Term, dt: Term) -> Term {
        term(format!("{sum}+{dt}"))
    }

    fn demand(&self, _t: Tuning<Term>, vel: Term, los: Term, los_vel: Term, sum: Term) -> Term {
        term(format!("{vel},{los},{los_vel},{sum}"))
    }

    fn against_gravity(&self, accel: Term) -> Term {
        accel
    }

    fn boresight(&self, _camera_pitch: Term, attitude: Term) -> Term {
        attitude
    }

    fn angle(&self, a: Term, _b: Term) -> Term {
        a
    }

    fn beyond(&self, angle: Term, _limit: Term) -> Term {
        angle
    }

    fn leak(&self, _sum: Term, _leak_rate: Term, input: Term, _dt: Term) -> Term {
        input
    }

    fn is_positive(&self, _x: Term) -> bool {
        false
    }

    fn is_wide(&self, _angle: Term) -> bool {
        false
    }

    fn restoring_axis(&self, _from: Term, _to: Term) -> Option<Term> {
        None
    }

    fn times(&self, _a: Term, _b: Term) -> Term {
        unreachable!()
    }

    fn at_most_right(&self, _angle: Term) -> Term {
        unreachable!()
    }

    fn turn(&self, _v: Term, _axis: Term, _angle: Term) -> Term {
        unreachable!()
    }

    fn direction(&self, v: Term) -> Option<Term> {
        Some(v)
    }

    fn up(&self) -> Term {
        "up"
    }

    fn north(&self) -> Term {
        "north"
    }

    fn east(&self) -> Term {
        "east"
    }

    fn thrust_axis(&self, attitude: Term) -> Term {
        attitude
    }

    fn dot(&self, a: Term, _b: Term) -> Term {
        a
    }

    fn fraction(&self, x: Term) -> Term {
        x
    }

    fn opposite(&self, v: Term) -> Term {
        v
    }

    fn square_to(&self, _a: Term, b: Term) -> Option<Term> {
        Some(b)
    }

    fn attitude_of(&self, right: Term, down: Term) -> Term {
        term(format!("att({right};{down})"))
    }

    fn force(&self, mass: Term, accel: Term, alignment: Term) -> Term {
        term(format!("{mass}*({accel})*{alignment}"))
    }
}

impl PursuitModel for Terms {
    type Scalar = Term;
    type Vector = Term;
    type Attitude = Term;
    type Optics = Terms;
    type Turning = Terms;
    type Tracking = Terms;
    type Steering = Terms;

    fn level(&self) -> Term {
        "level"
    }

    fn third(&self, x: Term) -> Term {
        term(format!("{x}/3"))
    }

    fn attitude_noise(&self) -> Term {
        "A"
    }

    fn speed(&self, vel: Term) -> Term {
        term(format!("|{vel}|"))
    }

    fn time_step(&self, dt_us: u64) -> Term {
        term(format!("{dt_us}us"))
    }

    fn limit(&self, force: Term) -> Term {
        term(format!("min({force})"))
    }

    fn tip(&self, los: Term, attitude: Term) -> Term {
        term(format!("{attitude}\\{los}"))
    }
}

fn pursuit() -> Pursuit<Terms> {
    Pursuit::new(
        Terms,
        Terms,
        CameraModel::new(Terms, "w", "h", "fov", "pitch"),
        EskfLos::new(Terms, "Q", "r"),
        ProNav::new(Terms, "m"),
    )
}

fn camera(timestamp: u64, u: Term, v: Term) -> Event<Term, Term, Term> {
    Event::Camera { timestamp, target_pixel: (u, v) }
}

fn attitude(timestamp: u64, attitude: Term, angular_vel: Term) -> Event<Term, Term, Term> {
    Event::Attitude { timestamp, attitude, angular_vel }
}

#[test]
fn guidance_is_told_of_the_camera() {
    let pursuit = pursuit();
    assert_eq!(pursuit.pronav.tuning.camera_pitch, "pitch");
    assert_eq!(pursuit.pronav.tuning.fov_limit, "fov/3");
    assert_eq!(pursuit.pronav.tuning.pronav_gain, "5");
    assert_eq!(pursuit.attitudes.capacity, 100);
}

#[test]
fn frame_without_an_attitude_is_missed() {
    let mut pursuit = pursuit();
    let missed = Outcome::Missed { timestamp: 100, entries: 0 };
    assert_eq!(pursuit.on_event(camera(100, "u", "v")), missed);
    assert_eq!(pursuit.on_event(attitude(200, "q", "w")), Outcome::Stored);
    let missed = Outcome::Missed { timestamp: 199, entries: 1 };
    assert_eq!(pursuit.on_event(camera(199, "u", "v")), missed);
    assert_eq!(pursuit.filter.predict_to(300), ("fwd", "zero"));
}

#[test]
fn frame_is_turned_with_the_attitude_of_its_own_instant() {
    let mut pursuit = pursuit();
    pursuit.on_event(attitude(100, "q1", "w1"));
    pursuit.on_event(attitude(300, "q2", "w2"));
    assert_eq!(pursuit.on_event(camera(150, "u", "v")), Outcome::Fused);
    let mut expected = OosmEskfLos::new(EskfLos::new(Terms, "Q", "r"), 100);
    expected.fuse(150, "slerp(q1,q2,50/200).ray(u,v,pitch)", "A");
    assert_eq!(pursuit.filter.predict_to(400), expected.predict_to(400));
}

#[test]
fn frames_may_arrive_in_any_order() {
    let mut one = pursuit();
    one.on_event(attitude(100, "q1", "w1"));
    one.on_event(attitude(300, "q2", "w2"));
    one.on_event(camera(150, "u1", "v1"));
    one.on_event(camera(200, "u2", "v2"));
    let mut other = pursuit();
    other.on_event(attitude(300, "q2", "w2"));
    other.on_event(attitude(100, "q1", "w1"));
    other.on_event(camera(200, "u2", "v2"));
    other.on_event(camera(150, "u1", "v1"));
    assert_eq!(one.filter.predict_to(400), other.filter.predict_to(400));
}

#[test]
fn tick_without_an_attitude_takes_the_vehicle_for_level() {
    let mut pursuit = pursuit();
    let command = pursuit.on_tick(500, "vel", "q");
    assert_eq!(command.los_local, "q\\fwd");
    assert_eq!(command.los_rate, "zero");
    assert_eq!(command.attitude, "att(fwd;|vel|,fwd,zero,none+10000us)");
    assert_eq!(command.force, "min(m*(|vel|,fwd,zero,none+10000us)*level)");
}

#[test]
fn tick_carries_attitude_and_line_of_sight_on() {
    let mut pursuit = pursuit();
    pursuit.on_event(attitude(100, "q1", "w1"));
    pursuit.on_event(camera(100, "u", "v"));
    let command = pursuit.on_tick(120, "vel", "q");
    let los = "[fwd@zero*0us<q1.ray(u,v,pitch)~A]@zero*20us";
    assert_eq!(command.los_local, format!("q\\{los}"));
    assert_eq!(
        command.force,
        format!("min(m*(|vel|,{los},zero,none+10000us)*(q1+w1*20))")
    );
}

#[test]
fn commands_keep_to_the_thrust_limit() {
    let mut pursuit = pursuit();
    for i in 1..20 {
        let now = 100 * i;
        pursuit.on_event(attitude(now, "q", "w"));
        if i % 3 != 0 {
            pursuit.on_event(camera(now - 50 * (i % 2), "u", "v"));
        }
        let command = pursuit.on_tick(now + 10, "vel", "q");
        // What the guidance asks for goes through the limit as a whole.
        assert!(command.force.starts_with("min("));
        assert_eq!(command.force.matches("min(").count(), 1);
        assert!(command.force.ends_with(')'));
    }
}
