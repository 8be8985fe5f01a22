//! The error-state Kalman filter, on terms that spell out which formula was applied to what.

use std_test_device::pronav::eskf::EskfModel;
use std_test_device::pronav::{EskfLos, OosmEskfLos};

type Term = &'static str;

fn term(text: String) -> Term {
    Box::leak(text.into_boxed_str())
}

/// The outcomes of the decisions are chosen by the test.
#[derive(Clone, Copy)]
struct Terms {
    near: bool,
    turn: bool,
    singular: bool,
}

const PLAIN: Terms = Terms { near: true, turn: true, singular: false };

impl EskfModel for Terms {
    type Scalar = Term;
    type Vector = Term;
    type Basis = Term;
    type Rotation = Term;
    type Cov = Term;
    type Noise = Term;
    type Gain = Term;
    type Error = Term;

    fn forward(&self) -> Term {
        "fwd"
    }

    fn zero(&self) -> Term {
        "zero"
    }

    fn first_axis(&self) -> Term {
        "e1"
    }

    fn second_axis(&self) -> Term {
        "e2"
    }

    fn is_near_first_axis(&self, _u: Term) -> bool {
        self.near
    }

    fn span(&self, u: Term, v: Term) -> Term {
        term(format!("span({u},{v})"))
    }

    fn unknown(&self) -> Term {
        "I"
    }

    fn isotropic(&self, r: Term) -> Term {
        term(format!("iso({r})"))
    }

    fn time_step(&self, dt_us: u64) -> Term {
        term(format!("{dt_us}us"))
    }

    fn swept(&self, omega: Term, dt: Term) -> Term {
        term(format!("|{omega}|*{dt}"))
    }

    fn is_turn(&self, _angle: Term) -> bool {
        self.turn
    }

    fn rotation(&self, omega: Term, angle: Term) -> Term {
        term(format!("R({omega},{angle})"))
    }

    fn rotate(&self, rotation: Term, v: Term) -> Term {
        term(format!("{rotation}.{v}"))
    }

    fn rotate_basis(&self, rotation: Term, basis: Term) -> Term {
        term(format!("{rotation}:{basis}"))
    }

    fn propagate(&self, p: Term, q: Term, dt: Term) -> Term {
        term(format!("prop({p},{q},{dt})"))
    }

    fn innovation_inverse(&self, p: Term, basis: Term, z: Term, r: Term, a: Term) -> Option<Term> {
        if self.singular {
            None
        } else {
            Some(term(format!("inv({p},{basis},{z},{r},{a})")))
        }
    }

    fn gain(&self, p: Term, basis: Term, inverse: Term) -> Term {
        term(format!("K({p},{basis},{inverse})"))
    }

    fn error(&self, _gain: Term, z: Term, u: Term) -> Term {
        term(format!("err({z},{u})"))
    }

    fn tilt(&self, error: Term) -> Term {
        term(format!("tilt({error})"))
    }

    fn tilted(&self, u: Term, basis: Term, error: Term, tilt: Term) -> Term {
        term(format!("tilted({u},{basis},{error},{tilt})"))
    }

    fn corrected_rate(&self, omega: Term, basis: Term, error: Term, u: Term) -> Term {
        term(format!("rate({omega},{basis},{error},{u})"))
    }

    fn shrunk(&self, p: Term, gain: Term, basis: Term) -> Term {
        term(format!("shrunk({p},{gain},{basis})"))
    }

    fn refined(&self, basis: Term, u: Term) -> Term {
        term(format!("refined({basis},{u})"))
    }
}

#[test]
fn new_tracker_looks_forward() {
    let filter = EskfLos::new(PLAIN, "Q", "r");
    assert_eq!(filter.u_hat, "fwd");
    assert_eq!(filter.omega_hat, "zero");
    assert_eq!(filter.basis, "span(fwd,e2)");
    assert_eq!(filter.p_cov, "I");
    assert_eq!(filter.q_cov, "Q");
    assert_eq!(filter.r_pixel, "iso(r)");
}

#[test]
fn basis_is_spanned_from_the_axis_that_is_not_near() {
    let filter = EskfLos::new(Terms { near: false, ..PLAIN }, "Q", "r");
    assert_eq!(filter.basis, "span(fwd,e1)");
}

#[test]
fn prediction_turns_direction_and_basis() {
    let mut filter = EskfLos::new(PLAIN, "Q", "r");
    filter.predict("dt");
    assert_eq!(filter.u_hat, "R(zero,|zero|*dt).fwd");
    assert_eq!(filter.basis, "R(zero,|zero|*dt):span(fwd,e2)");
    assert_eq!(filter.omega_hat, "zero");
    assert_eq!(filter.p_cov, "prop(I,Q,dt)");
}

#[test]
fn prediction_without_a_turn_only_propagates_the_covariance() {
    let mut filter = EskfLos::new(Terms { turn: false, ..PLAIN }, "Q", "r");
    filter.predict("dt");
    assert_eq!(filter.u_hat, "fwd");
    assert_eq!(filter.basis, "span(fwd,e2)");
    assert_eq!(filter.p_cov, "prop(I,Q,dt)");
}

#[test]
fn measurement_corrects_the_state() {
    let mut filter = EskfLos::new(PLAIN, "Q", "r");
    filter.basis = "B";
    filter.update("z", "A");
    let u = "tilted(fwd,B,err(z,fwd),tilt(err(z,fwd)))";
    assert_eq!(filter.u_hat, u);
    assert_eq!(filter.omega_hat, format!("rate(zero,B,err(z,fwd),{u})"));
    assert_eq!(filter.p_cov, "shrunk(I,K(I,B,inv(I,B,z,iso(r),A)),B)");
    assert_eq!(filter.basis, format!("refined(B,{u})"));
}

#[test]
fn measurement_without_a_tilt_keeps_the_direction() {
    let mut filter = EskfLos::new(Terms { turn: false, ..PLAIN }, "Q", "r");
    filter.basis = "B";
    filter.update("z", "A");
    assert_eq!(filter.u_hat, "fwd");
    assert_eq!(filter.omega_hat, "rate(zero,B,err(z,fwd),fwd)");
    assert_eq!(filter.basis, "refined(B,fwd)");
}

#[test]
fn singular_measurement_changes_nothing() {
    let mut filter = EskfLos::new(Terms { singular: true, ..PLAIN }, "Q", "r");
    filter.update("z", "A");
    assert_eq!(filter.u_hat, "fwd");
    assert_eq!(filter.omega_hat, "zero");
    assert_eq!(filter.basis, "span(fwd,e2)");
    assert_eq!(filter.p_cov, "I");
}

#[test]
fn reset_makes_the_tracker_as_new() {
    let mut filter = EskfLos::new(PLAIN, "Q", "r");
    filter.predict("dt");
    filter.update("z", "A");
    filter.reset();
    assert_eq!(filter.u_hat, "fwd");
    assert_eq!(filter.omega_hat, "zero");
    assert_eq!(filter.basis, "span(fwd,e2)");
    assert_eq!(filter.p_cov, "I");
    assert_eq!(filter.q_cov, "Q");
    assert_eq!(filter.r_pixel, "iso(r)");
}

#[test]
fn late_tracker_predicts_and_updates() {
    let mut direct = EskfLos::new(PLAIN, "Q", "r");
    direct.predict("0us");
    direct.update("z1", "A");
    direct.predict("20us");
    direct.update("z2", "A");
    direct.predict("5us");

    let mut filter = OosmEskfLos::new(EskfLos::new(PLAIN, "Q", "r"), 10);
    assert_eq!(filter.predict_to(50), ("fwd", "zero"));
    filter.fuse(100, "z1", "A");
    filter.fuse(120, "z2", "A");
    assert_eq!(filter.predict_to(125), (direct.u_hat, direct.omega_hat));
}

#[test]
fn late_tracker_does_not_mind_the_order_of_arrival() {
    let mut punctual = OosmEskfLos::new(EskfLos::new(PLAIN, "Q", "r"), 10);
    punctual.fuse(100, "z1", "A1");
    punctual.fuse(120, "z2", "A2");
    punctual.fuse(150, "z3", "A3");
    let expected = punctual.predict_to(150);

    let mut late = OosmEskfLos::new(EskfLos::new(PLAIN, "Q", "r"), 10);
    late.fuse(120, "z2", "A2");
    late.predict_to(500);
    late.fuse(150, "z3", "A3");
    late.fuse(100, "z1", "A1");
    assert_eq!(late.predict_to(150), expected);
}
