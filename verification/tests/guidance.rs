//! The guidance law, on terms that spell out which formula was applied to what.

use std_test_device::pronav::guidance::{GuidanceModel, Tuning};
use std_test_device::pronav::{FlightPhase, ProNav};

type Term = &'static str;

fn term(text: String) -> Term {
    Box::leak(text.into_boxed_str())
}

/// The outcomes of the decisions are chosen by the test.
#[derive(Clone, Copy)]
struct Terms {
    steep: bool,
    positive: bool,
    wide: bool,
    axis: bool,
    direction: bool,
    square_to_los: bool,
    square_to_north: bool,
}

const PLAIN: Terms = Terms {
    steep: false,
    positive: false,
    wide: false,
    axis: false,
    direction: true,
    square_to_los: true,
    square_to_north: true,
};

impl GuidanceModel for Terms {
    type Scalar = Term;
    type Vector = Term;
    type Attitude = Term;

    fn default_tuning(&self) -> Tuning<Term> {
        Tuning {
            pronav_gain: "5",
            intnav_gain: "0",
            pursuit_gain: "0",
            velocity_gain: "0",
            velocity_target: "35",
            camera_pitch: "0",
            fov_limit: "45deg",
            fov_penalty_gain: "10",
            fov_leak_rate: "1",
        }
    }

    fn zero(&self) -> Term {
        "zero"
    }

    fn zero_vector(&self) -> Term {
        "none"
    }

    fn at_least_zero(&self, x: Term) -> Term {
        term(format!("max({x})"))
    }

    fn is_steep(&self, _los_unit: Term) -> bool {
        self.steep
    }

    fn horizontal(&self, v: Term) -> Term {
        term(format!("flat({v})"))
    }

    fn integrate(&self, sum: Term, v: Term, dt: Term) -> Term {
        term(format!("({sum}+{v}*{dt})"))
    }

    fn demand(&self, tuning: Tuning<Term>, vel: Term, los: Term, los_vel: Term, sum: Term) -> Term {
        term(format!("demand({},{vel},{los},{los_vel},{sum})", tuning.pronav_gain))
    }

    fn against_gravity(&self, accel: Term) -> Term {
        term(format!("({accel}-g)"))
    }

    fn boresight(&self, camera_pitch: Term, attitude: Term) -> Term {
        term(format!("axis({camera_pitch},{attitude})"))
    }

    fn angle(&self, a: Term, b: Term) -> Term {
        term(format!("angle({a},{b})"))
    }

    fn beyond(&self, angle: Term, limit: Term) -> Term {
        term(format!("({angle}-{limit})"))
    }

    fn leak(&self, sum: Term, leak_rate: Term, input: Term, dt: Term) -> Term {
        term(format!("leak({sum},{leak_rate},{input},{dt})"))
    }

    fn is_positive(&self, _x: Term) -> bool {
        self.positive
    }

    fn is_wide(&self, _angle: Term) -> bool {
        self.wide
    }

    fn restoring_axis(&self, from: Term, to: Term) -> Option<Term> {
        if self.axis {
            Some(term(format!("{from}x{to}")))
        } else {
            None
        }
    }

    fn times(&self, a: Term, b: Term) -> Term {
        term(format!("{a}*{b}"))
    }

    fn at_most_right(&self, angle: Term) -> Term {
        term(format!("min({angle})"))
    }

    fn turn(&self, v: Term, axis: Term, angle: Term) -> Term {
        term(format!("turn({v},{axis},{angle})"))
    }

    fn direction(&self, v: Term) -> Option<Term> {
        if self.direction {
            Some(term(format!("dir({v})")))
        } else {
            None
        }
    }

    fn up(&self) -> Term {
        "up"
    }

    fn north(&self) -> Term {
        "north"
    }

    fn east(&self) -> Term {
        "east"
    }

    fn thrust_axis(&self, attitude: Term) -> Term {
        term(format!("thrust({attitude})"))
    }

    fn dot(&self, a: Term, b: Term) -> Term {
        term(format!("{a}.{b}"))
    }

    fn fraction(&self, x: Term) -> Term {
        term(format!("clamp({x})"))
    }

    fn opposite(&self, v: Term) -> Term {
        term(format!("-{v}"))
    }

    fn square_to(&self, a: Term, b: Term) -> Option<Term> {
        let square = if b == "north" { self.square_to_north } else { self.square_to_los };
        if square {
            Some(term(format!("[{a}x{b}]")))
        } else {
            None
        }
    }

    fn attitude_of(&self, right: Term, down: Term) -> Term {
        term(format!("att({right},{down})"))
    }

    fn force(&self, mass: Term, accel: Term, alignment: Term) -> Term {
        term(format!("{mass}*{accel}*{alignment}"))
    }
}

fn controller(model: Terms) -> ProNav<Terms> {
    ProNav::new(model, "m")
}

const CRUISE: Term = "(flat(demand(5,v,l,w,(none+flat(w)*dt)))-g)";
const PENALTY: Term = "max(leak(zero,1,max((angle(axis(0,q),l)-45deg)),dt))";
const TERMINAL: Term = "(demand(5,v,l,w,(none+w*dt))-g)";

fn settled(accel: Term) -> (Term, Term) {
    let down = format!("-dir({accel})");
    (
        term(format!("att([{down}xl],{down})")),
        term(format!("m*{accel}*clamp(thrust(q).dir({accel}))")),
    )
}

#[test]
fn new_controller_has_the_default_tuning() {
    let pronav = controller(PLAIN);
    assert_eq!(pronav.drone_mass, "m");
    assert_eq!(pronav.tuning.pronav_gain, "5");
    assert_eq!(pronav.tuning.velocity_target, "35");
    assert_eq!(pronav.fov_integral, "zero");
    assert_eq!(pronav.los_vel_integral, "none");
    assert_eq!(pronav.phase, FlightPhase::Cruise);
}

#[test]
fn builders_set_one_parameter_each() {
    let pronav = controller(PLAIN)
        .pronav_gain("a")
        .intnav_gain("b")
        .pursuit_gain("c")
        .velocity_gain("d")
        .velocity_target("e")
        .camera_pitch("f")
        .fov_limit("g")
        .fov_penalty_gain("h");
    assert_eq!(pronav.tuning.pronav_gain, "max(a)");
    assert_eq!(pronav.tuning.intnav_gain, "max(b)");
    assert_eq!(pronav.tuning.pursuit_gain, "max(c)");
    assert_eq!(pronav.tuning.velocity_gain, "max(d)");
    assert_eq!(pronav.tuning.velocity_target, "max(e)");
    assert_eq!(pronav.tuning.camera_pitch, "f");
    assert_eq!(pronav.tuning.fov_limit, "g");
    assert_eq!(pronav.tuning.fov_penalty_gain, "h");
    assert_eq!(pronav.tuning.fov_leak_rate, "1");
    assert_eq!(pronav.drone_mass, "m");
}

#[test]
fn altitude_is_left_alone_in_cruise() {
    let mut pronav = controller(PLAIN);
    assert_eq!(pronav.update("v", "l", "w", "q", "dt"), settled(CRUISE));
    assert_eq!(pronav.phase, FlightPhase::Cruise);
    assert_eq!(pronav.los_vel_integral, "(none+flat(w)*dt)");
    assert_eq!(pronav.fov_integral, PENALTY);
}

#[test]
fn steep_target_starts_the_terminal_phase() {
    let mut pronav = controller(Terms { steep: true, ..PLAIN });
    assert_eq!(pronav.update("v", "l", "w", "q", "dt"), settled(TERMINAL));
    assert_eq!(pronav.phase, FlightPhase::Terminal);
    assert_eq!(pronav.los_vel_integral, "(none+w*dt)");
}

#[test]
fn terminal_phase_is_never_left() {
    let mut pronav = controller(Terms { steep: true, ..PLAIN });
    pronav.update("v", "l", "w", "q", "dt");
    pronav.model = PLAIN;
    pronav.update("v", "l", "w2", "q", "dt");
    assert_eq!(pronav.phase, FlightPhase::Terminal);
    assert_eq!(pronav.los_vel_integral, "((none+w*dt)+w2*dt)");
}

#[test]
fn target_out_of_view_is_drawn_back() {
    let mut pronav = controller(Terms { positive: true, wide: true, axis: true, ..PLAIN });
    let turned = term(format!("turn({CRUISE},axis(0,q)xl,min({PENALTY}*10))"));
    assert_eq!(pronav.update("v", "l", "w", "q", "dt"), settled(turned));
}

#[test]
fn target_in_view_is_not_drawn_back() {
    let all = Terms { positive: true, wide: true, axis: true, ..PLAIN };
    for model in [
        Terms { positive: false, ..all },
        Terms { wide: false, ..all },
        Terms { axis: false, ..all },
    ] {
        let mut pronav = controller(model);
        assert_eq!(pronav.update("v", "l", "w", "q", "dt"), settled(CRUISE));
    }
}

#[test]
fn thrust_without_a_direction_points_up() {
    let mut pronav = controller(Terms { direction: false, ..PLAIN });
    let expected = ("att([-upxl],-up)", term(format!("m*{CRUISE}*clamp(thrust(q).up)")));
    assert_eq!(pronav.update("v", "l", "w", "q", "dt"), expected);
}

#[test]
fn vertical_line_of_sight_turns_the_nose_north() {
    let mut pronav =
        controller(Terms { direction: false, square_to_los: false, ..PLAIN });
    assert_eq!(pronav.update("v", "l", "w", "q", "dt").0, "att([-upxnorth],-up)");
}

#[test]
fn vertical_north_leaves_the_right_side_east() {
    let mut pronav = controller(Terms {
        direction: false,
        square_to_los: false,
        square_to_north: false,
        ..PLAIN
    });
    assert_eq!(pronav.update("v", "l", "w", "q", "dt").0, "att(east,-up)");
}
