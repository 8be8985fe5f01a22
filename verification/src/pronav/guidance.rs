//! Proportional navigation: from the line of sight to an attitude and a thrust.

use vstd::prelude::*;

#[allow(unused_imports)]
use crate::functional::{function1, function2, function3, function4, function5, function6};

verus! {

/// The formulas of the guidance law. Global axes point north, east and down.
pub trait GuidanceModel {
    type Scalar: Copy;

    type Vector: Copy;

    type Attitude: Copy;

    /// The tuning of a guidance law that has not been told otherwise.
    fn default_tuning(&self) -> Tuning<Self::Scalar>;

    /// Zero.
    fn zero(&self) -> Self::Scalar;

    /// The vector without any length.
    fn zero_vector(&self) -> Self::Vector;

    /// `x`, or zero where it is less.
    fn at_least_zero(&self, x: Self::Scalar) -> Self::Scalar;

    /// Whether the target is so far above or below that the approach is over.
    fn is_steep(&self, los_unit: Self::Vector) -> bool;

    /// `v` without its vertical component.
    fn horizontal(&self, v: Self::Vector) -> Self::Vector;

    /// `sum` plus `v` over the time `dt`.
    fn integrate(&self, sum: Self::Vector, v: Self::Vector, dt: Self::Scalar) -> Self::Vector;

    /// The acceleration that proportional navigation, its integral and pure pursuit ask for.
    fn demand(
        &self,
        tuning: Tuning<Self::Scalar>,
        closing_vel: Self::Scalar,
        los_unit: Self::Vector,
        los_unit_vel: Self::Vector,
        los_vel_integral: Self::Vector,
    ) -> Self::Vector;

    /// `accel`, with what it takes to stay up added.
    fn against_gravity(&self, accel: Self::Vector) -> Self::Vector;

    /// The axis of a camera pitched up by `camera_pitch`, in global axes.
    fn boresight(&self, camera_pitch: Self::Scalar, attitude: Self::Attitude) -> Self::Vector;

    /// The angle between two vectors.
    fn angle(&self, a: Self::Vector, b: Self::Vector) -> Self::Scalar;

    /// By how much `angle` is above `limit`; negative where it is not.
    fn beyond(&self, angle: Self::Scalar, limit: Self::Scalar) -> Self::Scalar;

    /// The leaky integral `sum` after `input` has gone in for the time `dt`.
    fn leak(
        &self,
        sum: Self::Scalar,
        leak_rate: Self::Scalar,
        input: Self::Scalar,
        dt: Self::Scalar,
    ) -> Self::Scalar;

    /// Whether `x` is above zero.
    fn is_positive(&self, x: Self::Scalar) -> bool;

    /// Whether `angle` is wide enough to have a plane.
    fn is_wide(&self, angle: Self::Scalar) -> bool;

    /// The unit axis about which `from` turns to `to`, if they span a plane.
    fn restoring_axis(&self, from: Self::Vector, to: Self::Vector) -> Option<Self::Vector>;

    /// The product of two numbers.
    fn times(&self, a: Self::Scalar, b: Self::Scalar) -> Self::Scalar;

    /// `angle`, or a right angle where it is more.
    fn at_most_right(&self, angle: Self::Scalar) -> Self::Scalar;

    /// `v`, turned about the unit vector `axis` by `angle`.
    fn turn(&self, v: Self::Vector, axis: Self::Vector, angle: Self::Scalar) -> Self::Vector;

    /// The direction of `v`, if it has a length.
    fn direction(&self, v: Self::Vector) -> Option<Self::Vector>;

    /// The directions up, north and east.
    fn up(&self) -> Self::Vector;

    fn north(&self) -> Self::Vector;

    fn east(&self) -> Self::Vector;

    /// The direction in which a vehicle thrusts.
    fn thrust_axis(&self, attitude: Self::Attitude) -> Self::Vector;

    /// The dot product of two vectors.
    fn dot(&self, a: Self::Vector, b: Self::Vector) -> Self::Scalar;

    /// `x`, brought into the range from zero to one.
    fn fraction(&self, x: Self::Scalar) -> Self::Scalar;

    /// The direction opposite to `v`.
    fn opposite(&self, v: Self::Vector) -> Self::Vector;

    /// The direction that is square to both `a` and `b`, if they span a plane.
    fn square_to(&self, a: Self::Vector, b: Self::Vector) -> Option<Self::Vector>;

    /// The attitude of a body whose right and down axes are given.
    fn attitude_of(&self, right: Self::Vector, down: Self::Vector) -> Self::Attitude;

    /// The force that gives `mass` the acceleration `accel`, scaled by `alignment`.
    fn force(
        &self,
        mass: Self::Scalar,
        accel: Self::Vector,
        alignment: Self::Scalar,
    ) -> Self::Scalar;
}

/// All formulas are functions.
pub open spec fn functional<M: GuidanceModel>() -> bool {
    &&& function1(M::default_tuning)
    &&& function1(M::zero)
    &&& function1(M::zero_vector)
    &&& function2(M::at_least_zero)
    &&& function2(M::is_steep)
    &&& function2(M::horizontal)
    &&& function4(M::integrate)
    &&& function6(M::demand)
    &&& function2(M::against_gravity)
    &&& function3(M::boresight)
    &&& function3(M::angle)
    &&& function3(M::beyond)
    &&& function5(M::leak)
    &&& function2(M::is_positive)
    &&& function2(M::is_wide)
    &&& function3(M::restoring_axis)
    &&& function3(M::times)
    &&& function2(M::at_most_right)
    &&& function4(M::turn)
    &&& function2(M::direction)
    &&& function1(M::up)
    &&& function1(M::north)
    &&& function1(M::east)
    &&& function2(M::thrust_axis)
    &&& function3(M::dot)
    &&& function2(M::fraction)
    &&& function2(M::opposite)
    &&& function3(M::square_to)
    &&& function3(M::attitude_of)
    &&& function4(M::force)
}

/// The parameters of the guidance law.
#[derive(Clone, Copy, Debug)]
pub struct Tuning<S> {
    /// The gain of the control law.
    pub pronav_gain: S,
    /// The gain of the integral action.
    pub intnav_gain: S,
    /// The gain to encourage pure pursuit.
    pub pursuit_gain: S,
    /// The gain to push the target along the desired direction.
    pub velocity_gain: S,
    pub velocity_target: S,
    pub camera_pitch: S,
    /// The angle from the camera axis beyond which the target is drawn back into view.
    pub fov_limit: S,
    pub fov_penalty_gain: S,
    pub fov_leak_rate: S,
}

/// How far the flight has got.
#[derive(Clone, Copy, Debug, PartialEq, Eq, Structural)]
pub enum FlightPhase {
    /// The altitude is left alone.
    Cruise,
    /// The target is approached in all directions.
    Terminal,
}

/// What one guidance step sees.
#[derive(Clone, Copy, Debug)]
pub struct Sighting<S, V, A> {
    pub closing_vel: S,
    pub los_unit: V,
    pub los_unit_vel: V,
    pub attitude: A,
    pub dt: S,
}

/// The quantities that one guidance step goes through.
pub ghost struct Course<M: GuidanceModel> {
    /// What goes into the integral of the line-of-sight rate.
    pub integrand: M::Vector,
    /// The acceleration asked for, before the cruise phase takes the vertical part out.
    pub demand: M::Vector,
    /// The same with the vertical part out in the cruise phase.
    pub desired: M::Vector,
    /// The same with gravity compensated.
    pub lifted: M::Vector,
    /// The axis of the camera, its angle to the target, by how much that is too wide, and
    /// the penalty on it.
    pub boresight: M::Vector,
    pub angle: M::Scalar,
    pub violation: M::Scalar,
    pub penalty: M::Scalar,
    /// What has accumulated of it, before it is kept from getting negative.
    pub leaked: M::Scalar,
    /// The acceleration that is finally asked for.
    pub accel: M::Vector,
    /// Its direction, that of the thrust, and how well they are aligned.
    pub thrust_dir: M::Vector,
    pub thrust_axis: M::Vector,
    pub cosine: M::Scalar,
    pub alignment: M::Scalar,
    /// The axes of the attitude asked for.
    pub down: M::Vector,
    pub right: M::Vector,
}

/// The cruise phase ends for good when the target gets steep.
pub open spec fn phase_follows<M: GuidanceModel>(
    model: M,
    phase: FlightPhase,
    los_unit: M::Vector,
    next: FlightPhase,
) -> bool {
    match phase {
        FlightPhase::Cruise => {
            ||| next == FlightPhase::Terminal && call_ensures(M::is_steep, (&model, los_unit), true)
            ||| next == FlightPhase::Cruise && call_ensures(M::is_steep, (&model, los_unit), false)
        },
        FlightPhase::Terminal => next == FlightPhase::Terminal,
    }
}

/// `r` is `v`, without its vertical component in the cruise phase.
pub open spec fn flattened_in_cruise<M: GuidanceModel>(
    model: M,
    phase: FlightPhase,
    v: M::Vector,
    r: M::Vector,
) -> bool {
    match phase {
        FlightPhase::Cruise => call_ensures(M::horizontal, (&model, v), r),
        FlightPhase::Terminal => r == v,
    }
}

/// `r` is `accel`, turned about the axis from `boresight` to `los_unit` by the angle that
/// `integral` amounts to with the gain of the penalty, `product`, but at most by a right
/// angle: by `angle`.
pub open spec fn restored<M: GuidanceModel>(
    model: M,
    tuning: Tuning<M::Scalar>,
    integral: M::Scalar,
    boresight: M::Vector,
    los_unit: M::Vector,
    accel: M::Vector,
    axis: M::Vector,
    product: M::Scalar,
    angle: M::Scalar,
    r: M::Vector,
) -> bool {
    &&& call_ensures(M::restoring_axis, (&model, boresight, los_unit), Some(axis))
    &&& call_ensures(M::times, (&model, integral, tuning.fov_penalty_gain), product)
    &&& call_ensures(M::at_most_right, (&model, product), angle)
    &&& call_ensures(M::turn, (&model, accel, axis, angle), r)
}

/// `r` is `accel`, turned so that the camera comes back to the target: about the axis from
/// `boresight` to `los_unit`. Where nothing has accumulated, the angle is too small or there
/// is no such axis, `r` is `accel`.
pub open spec fn drawn_into_view<M: GuidanceModel>(
    model: M,
    tuning: Tuning<M::Scalar>,
    integral: M::Scalar,
    angle: M::Scalar,
    boresight: M::Vector,
    los_unit: M::Vector,
    accel: M::Vector,
    r: M::Vector,
) -> bool {
    ||| {
        &&& call_ensures(M::is_positive, (&model, integral), true)
        &&& call_ensures(M::is_wide, (&model, angle), true)
        &&& {
            ||| exists|axis: M::Vector, product: M::Scalar, turn: M::Scalar|
                restored(
                    model,
                    tuning,
                    integral,
                    boresight,
                    los_unit,
                    accel,
                    axis,
                    product,
                    turn,
                    r,
                )
            ||| call_ensures(M::restoring_axis, (&model, boresight, los_unit), None) && r == accel
        }
    }
    ||| {
        &&& call_ensures(M::is_positive, (&model, integral), false) || call_ensures(
            M::is_wide,
            (&model, angle),
            false,
        )
        &&& r == accel
    }
}

/// `r` is the direction of `accel`, or up where it has none.
pub open spec fn points_along<M: GuidanceModel>(model: M, accel: M::Vector, r: M::Vector) -> bool {
    ||| call_ensures(M::direction, (&model, accel), Some(r))
    ||| call_ensures(M::direction, (&model, accel), None) && call_ensures(M::up, (&model,), r)
}

/// `r` is square to `down` and to the line of sight; where these span no plane, square to
/// `down` and to the north; and east where these span none either.
pub open spec fn points_right<M: GuidanceModel>(
    model: M,
    down: M::Vector,
    los_unit: M::Vector,
    r: M::Vector,
) -> bool {
    ||| call_ensures(M::square_to, (&model, down, los_unit), Some(r))
    ||| {
        &&& call_ensures(M::square_to, (&model, down, los_unit), None)
        &&& exists|north: M::Vector|
            {
                &&& #[trigger] call_ensures(M::north, (&model,), north)
                &&& {
                    ||| call_ensures(M::square_to, (&model, down, north), Some(r))
                    ||| call_ensures(M::square_to, (&model, down, north), None) && call_ensures(
                        M::east,
                        (&model,),
                        r,
                    )
                }
            }
    }
}

/// A proportional navigation controller.
pub struct ProNav<M: GuidanceModel> {
    /// Mass of the drone in kilograms.
    pub drone_mass: M::Scalar,
    pub tuning: Tuning<M::Scalar>,
    /// How long and how far the target has been out of view.
    pub fov_integral: M::Scalar,
    /// How far the line of sight has turned.
    pub los_vel_integral: M::Vector,
    pub phase: FlightPhase,
    pub model: M,
}

impl<M: GuidanceModel> ProNav<M> {
    /// `next` has seen `seen` after `self`, went through `course` and asks for the attitude
    /// and the force in `r`.
    pub open spec fn guided(
        self,
        seen: Sighting<M::Scalar, M::Vector, M::Attitude>,
        course: Course<M>,
        next: Self,
        r: (M::Attitude, M::Scalar),
    ) -> bool {
        let model = self.model;
        // What stays as it was.
        &&& next.drone_mass == self.drone_mass
        &&& next.tuning == self.tuning
        &&& next.model == self.model
        &&& phase_follows(model, self.phase, seen.los_unit, next.phase)
        // The acceleration asked for by proportional navigation.
        &&& flattened_in_cruise(model, next.phase, seen.los_unit_vel, course.integrand)
        &&& call_ensures(
            M::integrate,
            (&model, self.los_vel_integral, course.integrand, seen.dt),
            next.los_vel_integral,
        )
        &&& call_ensures(
            M::demand,
            (
                &model,
                self.tuning,
                seen.closing_vel,
                seen.los_unit,
                seen.los_unit_vel,
                next.los_vel_integral,
            ),
            course.demand,
        )
        &&& flattened_in_cruise(model, next.phase, course.demand, course.desired)
        &&& call_ensures(M::against_gravity, (&model, course.desired), course.lifted)
        // The penalty on losing the target from view.
        &&& call_ensures(
            M::boresight,
            (&model, self.tuning.camera_pitch, seen.attitude),
            course.boresight,
        )
        &&& call_ensures(M::angle, (&model, course.boresight, seen.los_unit), course.angle)
        &&& call_ensures(
            M::beyond,
            (&model, course.angle, self.tuning.fov_limit),
            course.violation,
        )
        &&& call_ensures(M::at_least_zero, (&model, course.violation), course.penalty)
        &&& call_ensures(
            M::leak,
            (&model, self.fov_integral, self.tuning.fov_leak_rate, course.penalty, seen.dt),
            course.leaked,
        )
        &&& call_ensures(M::at_least_zero, (&model, course.leaked), next.fov_integral)
        &&& drawn_into_view(
            model,
            self.tuning,
            next.fov_integral,
            course.angle,
            course.boresight,
            seen.los_unit,
            course.lifted,
            course.accel,
        )
        // Attitude and force.
        &&& points_along(model, course.accel, course.thrust_dir)
        &&& call_ensures(M::thrust_axis, (&model, seen.attitude), course.thrust_axis)
        &&& call_ensures(M::dot, (&model, course.thrust_axis, course.thrust_dir), course.cosine)
        &&& call_ensures(M::fraction, (&model, course.cosine), course.alignment)
        &&& call_ensures(M::opposite, (&model, course.thrust_dir), course.down)
        &&& points_right(model, course.down, seen.los_unit, course.right)
        &&& call_ensures(M::attitude_of, (&model, course.right, course.down), r.0)
        &&& call_ensures(
            M::force,
            (&model, self.drone_mass, course.accel, course.alignment),
            r.1,
        )
    }

    /// `next` has seen `seen` after `self`, and asks for the attitude and the force in `r`.
    pub open spec fn guides(
        self,
        seen: Sighting<M::Scalar, M::Vector, M::Attitude>,
        next: Self,
        r: (M::Attitude, M::Scalar),
    ) -> bool {
        exists|course: Course<M>| self.guided(seen, course, next, r)
    }

    /// A controller for a drone of the given mass, with the default tuning.
    pub fn new(model: M, drone_mass: M::Scalar) -> (r: Self)
        ensures
            r.model == model,
            r.drone_mass == drone_mass,
            call_ensures(M::default_tuning, (&model,), r.tuning),
            call_ensures(M::zero, (&model,), r.fov_integral),
            call_ensures(M::zero_vector, (&model,), r.los_vel_integral),
            r.phase == FlightPhase::Cruise,
    {
        let tuning = model.default_tuning();
        let fov_integral = model.zero();
        let los_vel_integral = model.zero_vector();
        ProNav {
            drone_mass,
            tuning,
            fov_integral,
            los_vel_integral,
            phase: FlightPhase::Cruise,
            model,
        }
    }

    pub fn camera_pitch(self, camera_pitch: M::Scalar) -> (r: Self)
        ensures
            r == (ProNav { tuning: Tuning { camera_pitch, ..self.tuning }, ..self }),
    {
        let mut r = self;
        r.tuning.camera_pitch = camera_pitch;
        r
    }

    pub fn fov_limit(self, fov_limit: M::Scalar) -> (r: Self)
        ensures
            r == (ProNav { tuning: Tuning { fov_limit, ..self.tuning }, ..self }),
    {
        let mut r = self;
        r.tuning.fov_limit = fov_limit;
        r
    }

    pub fn fov_penalty_gain(self, fov_penalty_gain: M::Scalar) -> (r: Self)
        ensures
            r == (ProNav { tuning: Tuning { fov_penalty_gain, ..self.tuning }, ..self }),
    {
        let mut r = self;
        r.tuning.fov_penalty_gain = fov_penalty_gain;
        r
    }

    pub fn pronav_gain(self, pronav_gain: M::Scalar) -> (r: Self)
        ensures
            call_ensures(M::at_least_zero, (&self.model, pronav_gain), r.tuning.pronav_gain),
            r == (ProNav {
                tuning: Tuning { pronav_gain: r.tuning.pronav_gain, ..self.tuning },
                ..self
            }),
    {
        let mut r = self;
        r.tuning.pronav_gain = r.model.at_least_zero(pronav_gain);
        r
    }

    pub fn intnav_gain(self, intnav_gain: M::Scalar) -> (r: Self)
        ensures
            call_ensures(M::at_least_zero, (&self.model, intnav_gain), r.tuning.intnav_gain),
            r == (ProNav {
                tuning: Tuning { intnav_gain: r.tuning.intnav_gain, ..self.tuning },
                ..self
            }),
    {
        let mut r = self;
        r.tuning.intnav_gain = r.model.at_least_zero(intnav_gain);
        r
    }

    pub fn pursuit_gain(self, pursuit_gain: M::Scalar) -> (r: Self)
        ensures
            call_ensures(M::at_least_zero, (&self.model, pursuit_gain), r.tuning.pursuit_gain),
            r == (ProNav {
                tuning: Tuning { pursuit_gain: r.tuning.pursuit_gain, ..self.tuning },
                ..self
            }),
    {
        let mut r = self;
        r.tuning.pursuit_gain = r.model.at_least_zero(pursuit_gain);
        r
    }

    pub fn velocity_gain(self, velocity_gain: M::Scalar) -> (r: Self)
        ensures
            call_ensures(M::at_least_zero, (&self.model, velocity_gain), r.tuning.velocity_gain),
            r == (ProNav {
                tuning: Tuning { velocity_gain: r.tuning.velocity_gain, ..self.tuning },
                ..self
            }),
    {
        let mut r = self;
        r.tuning.velocity_gain = r.model.at_least_zero(velocity_gain);
        r
    }

    pub fn velocity_target(self, velocity_target: M::Scalar) -> (r: Self)
        ensures
            call_ensures(
                M::at_least_zero,
                (&self.model, velocity_target),
                r.tuning.velocity_target,
            ),
            r == (ProNav {
                tuning: Tuning { velocity_target: r.tuning.velocity_target, ..self.tuning },
                ..self
            }),
    {
        let mut r = self;
        r.tuning.velocity_target = r.model.at_least_zero(velocity_target);
        r
    }

    /// Runs the guidance law for one time step and returns the attitude and the force to
    /// take on.
    pub fn update(
        &mut self,
        closing_vel: M::Scalar,
        los_unit: M::Vector,
        los_unit_vel: M::Vector,
        attitude: M::Attitude,
        dt: M::Scalar,
    ) -> (r: (M::Attitude, M::Scalar))
        ensures
            old(self).guides(
                Sighting { closing_vel, los_unit, los_unit_vel, attitude, dt },
                *final(self),
                r,
            ),
            old(self).phase == FlightPhase::Terminal ==> final(self).phase
                == FlightPhase::Terminal,
    {
        let ghost before = *self;
        if self.phase == FlightPhase::Cruise {
            if self.model.is_steep(los_unit) {
                self.phase = FlightPhase::Terminal;
            }
        }
        let cruise: bool = self.phase == FlightPhase::Cruise;

        // The acceleration asked for by proportional navigation
        let integrand = if cruise {
            self.model.horizontal(los_unit_vel)
        } else {
            los_unit_vel
        };
        self.los_vel_integral = self.model.integrate(self.los_vel_integral, integrand, dt);
        let demand = self.model.demand(
            self.tuning,
            closing_vel,
            los_unit,
            los_unit_vel,
            self.los_vel_integral,
        );
        let desired = if cruise {
            self.model.horizontal(demand)
        } else {
            demand
        };
        let lifted = self.model.against_gravity(desired);

        // The penalty on losing the target from view
        let boresight = self.model.boresight(self.tuning.camera_pitch, attitude);
        let angle = self.model.angle(boresight, los_unit);
        let violation = self.model.beyond(angle, self.tuning.fov_limit);
        let penalty = self.model.at_least_zero(violation);
        let leaked = self.model.leak(
            self.fov_integral,
            self.tuning.fov_leak_rate,
            penalty,
            dt,
        );
        self.fov_integral = self.model.at_least_zero(leaked);
        let accel = if self.model.is_positive(self.fov_integral) && self.model.is_wide(angle) {
            match self.model.restoring_axis(boresight, los_unit) {
                Some(axis) => {
                    let product = self.model.times(self.fov_integral, self.tuning.fov_penalty_gain);
                    let turn = self.model.at_most_right(product);
                    let accel = self.model.turn(lifted, axis, turn);
                    assert(restored(
                        self.model,
                        self.tuning,
                        self.fov_integral,
                        boresight,
                        los_unit,
                        lifted,
                        axis,
                        product,
                        turn,
                        accel,
                    ));
                    accel
                },
                None => lifted,
            }
        } else {
            lifted
        };

        // Attitude and force
        let thrust_dir = match self.model.direction(accel) {
            Some(direction) => direction,
            None => self.model.up(),
        };
        let thrust_axis = self.model.thrust_axis(attitude);
        let cosine = self.model.dot(thrust_axis, thrust_dir);
        let alignment = self.model.fraction(cosine);
        let down = self.model.opposite(thrust_dir);
        let right = match self.model.square_to(down, los_unit) {
            Some(right) => right,
            None => {
                let north = self.model.north();
                match self.model.square_to(down, north) {
                    Some(right) => right,
                    None => self.model.east(),
                }
            },
        };
        let att_target = self.model.attitude_of(right, down);
        let force_target = self.model.force(self.drone_mass, accel, alignment);
        proof {
            let course: Course<M> = Course {
                integrand,
                demand,
                desired,
                lifted,
                boresight,
                angle,
                violation,
                penalty,
                leaked,
                accel,
                thrust_dir,
                thrust_axis,
                cosine,
                alignment,
                down,
                right,
            };
            let seen = Sighting { closing_vel, los_unit, los_unit_vel, attitude, dt };
            assert(before.guided(seen, course, *self, (att_target, force_target)));
        }
        (att_target, force_target)
    }
}

/// `a` and `b` are the same but for their vertical components.
pub open spec fn level_alike<M: GuidanceModel>(model: M, a: M::Vector, b: M::Vector) -> bool {
    exists|flat: M::Vector|
        {
            &&& #[trigger] call_ensures(M::horizontal, (&model, a), flat)
            &&& call_ensures(M::horizontal, (&model, b), flat)
        }
}

/// What `seen` makes the law ask for is `demand`, which is `flat` without its vertical
/// component.
pub open spec fn asks_for<M: GuidanceModel>(
    model: M,
    tuning: Tuning<M::Scalar>,
    seen: Sighting<M::Scalar, M::Vector, M::Attitude>,
    los_vel_integral: M::Vector,
    demand: M::Vector,
    flat: M::Vector,
) -> bool {
    &&& call_ensures(
        M::demand,
        (
            &model,
            tuning,
            seen.closing_vel,
            seen.los_unit,
            seen.los_unit_vel,
            los_vel_integral,
        ),
        demand,
    )
    &&& call_ensures(M::horizontal, (&model, demand), flat)
}

/// The horizontal part of what the law asks for does not depend on the vertical part of the
/// line-of-sight rate.
pub open spec fn demands_keep_axes_apart<M: GuidanceModel>(
    model: M,
    tuning: Tuning<M::Scalar>,
) -> bool {
    forall|
        a: Sighting<M::Scalar, M::Vector, M::Attitude>,
        b: Sighting<M::Scalar, M::Vector, M::Attitude>,
        los_vel_integral: M::Vector,
        demand_a: M::Vector,
        flat_a: M::Vector,
        demand_b: M::Vector,
        flat_b: M::Vector,
    |
        #[trigger] asks_for(model, tuning, a, los_vel_integral, demand_a, flat_a)
            && #[trigger] asks_for(model, tuning, b, los_vel_integral, demand_b, flat_b)
            && seen_alike(model, a, b) ==> flat_a == flat_b
}

/// `a` and `b` are the same but for the vertical part of the line-of-sight rate.
pub open spec fn seen_alike<M: GuidanceModel>(
    model: M,
    a: Sighting<M::Scalar, M::Vector, M::Attitude>,
    b: Sighting<M::Scalar, M::Vector, M::Attitude>,
) -> bool {
    &&& b == (Sighting { los_unit_vel: b.los_unit_vel, ..a })
    &&& level_alike(model, a.los_unit_vel, b.los_unit_vel)
}

/// In cruise, one guidance step does not depend on the vertical line-of-sight rate.
pub proof fn cruise_step_ignores_vertical_rate<M: GuidanceModel>(
    before: ProNav<M>,
    seen_a: Sighting<M::Scalar, M::Vector, M::Attitude>,
    course_a: Course<M>,
    next_a: ProNav<M>,
    r_a: (M::Attitude, M::Scalar),
    seen_b: Sighting<M::Scalar, M::Vector, M::Attitude>,
    course_b: Course<M>,
    next_b: ProNav<M>,
    r_b: (M::Attitude, M::Scalar),
)
    requires
        functional::<M>(),
        demands_keep_axes_apart(before.model, before.tuning),
        before.phase == FlightPhase::Cruise,
        !call_ensures(M::is_steep, (&before.model, seen_a.los_unit), true),
        seen_alike(before.model, seen_a, seen_b),
        before.guided(seen_a, course_a, next_a, r_a),
        before.guided(seen_b, course_b, next_b, r_b),
    ensures
        next_a == next_b,
        r_a == r_b,
        next_a.phase == FlightPhase::Cruise,
{
    let model = before.model;
    assert(course_a.integrand == course_b.integrand);
    assert(next_a.los_vel_integral == next_b.los_vel_integral);
    let integral = next_a.los_vel_integral;
    assert(asks_for(model, before.tuning, seen_a, integral, course_a.demand, course_a.desired));
    assert(asks_for(model, before.tuning, seen_b, integral, course_b.demand, course_b.desired));
    assert(course_a.lifted == course_b.lifted);
    assert(course_a.boresight == course_b.boresight);
    assert(course_a.angle == course_b.angle);
    assert(course_a.penalty == course_b.penalty);
    assert(next_a.fov_integral == next_b.fov_integral);
    assert(course_a.accel == course_b.accel);
    assert(course_a.thrust_dir == course_b.thrust_dir);
    assert(course_a.alignment == course_b.alignment);
    assert(course_a.down == course_b.down);
    assert(course_a.right == course_b.right);
}

/// A controller that is `pronavs[i]` before it sees `seen[i]`, asks for `results[i]` and is
/// `pronavs[i + 1]` after it.
pub open spec fn flies<M: GuidanceModel>(
    pronavs: Seq<ProNav<M>>,
    seen: Seq<Sighting<M::Scalar, M::Vector, M::Attitude>>,
    results: Seq<(M::Attitude, M::Scalar)>,
) -> bool {
    &&& pronavs.len() == seen.len() + 1
    &&& results.len() == seen.len()
    &&& forall|i: int| 0 <= i < seen.len() ==> #[trigger] flies_at(pronavs, seen, results, i)
}

/// The `i`-th step of such a flight.
pub open spec fn flies_at<M: GuidanceModel>(
    pronavs: Seq<ProNav<M>>,
    seen: Seq<Sighting<M::Scalar, M::Vector, M::Attitude>>,
    results: Seq<(M::Attitude, M::Scalar)>,
    i: int,
) -> bool {
    pronavs[i].guides(seen[i], pronavs[i + 1], results[i])
}

/// In cruise, nothing that is asked for depends on the vertical line-of-sight rate, past or
/// present: two controllers that start alike and see the same but for it, and no target that
/// is steep, ask for the same at every step.
pub proof fn cruise_ignores_vertical_rate<M: GuidanceModel>(
    pronavs_a: Seq<ProNav<M>>,
    seen_a: Seq<Sighting<M::Scalar, M::Vector, M::Attitude>>,
    results_a: Seq<(M::Attitude, M::Scalar)>,
    pronavs_b: Seq<ProNav<M>>,
    seen_b: Seq<Sighting<M::Scalar, M::Vector, M::Attitude>>,
    results_b: Seq<(M::Attitude, M::Scalar)>,
    n: int,
)
    requires
        functional::<M>(),
        flies(pronavs_a, seen_a, results_a),
        flies(pronavs_b, seen_b, results_b),
        pronavs_a[0] == pronavs_b[0],
        pronavs_a[0].phase == FlightPhase::Cruise,
        demands_keep_axes_apart(pronavs_a[0].model, pronavs_a[0].tuning),
        seen_a.len() == seen_b.len(),
        forall|i: int|
            0 <= i < seen_a.len() ==> #[trigger] seen_alike(
                pronavs_a[0].model,
                seen_a[i],
                seen_b[i],
            ) && !call_ensures(M::is_steep, (&pronavs_a[0].model, seen_a[i].los_unit), true),
        0 <= n <= seen_a.len(),
    ensures
        results_a.take(n) == results_b.take(n),
        pronavs_a[n] == pronavs_b[n],
        pronavs_a[n].phase == FlightPhase::Cruise,
        pronavs_a[n].model == pronavs_a[0].model,
        pronavs_a[n].tuning == pronavs_a[0].tuning,
    decreases n,
{
    if n == 0 {
        assert(results_a.take(0) =~= results_b.take(0));
    } else {
        let i = n - 1;
        cruise_ignores_vertical_rate(
            pronavs_a,
            seen_a,
            results_a,
            pronavs_b,
            seen_b,
            results_b,
            i,
        );
        assert(flies_at(pronavs_a, seen_a, results_a, i));
        assert(flies_at(pronavs_b, seen_b, results_b, i));
        assert(seen_alike(pronavs_a[0].model, seen_a[i], seen_b[i]));
        let course_a = choose|course: Course<M>|
            pronavs_a[i].guided(seen_a[i], course, pronavs_a[n], results_a[i]);
        let course_b = choose|course: Course<M>|
            pronavs_b[i].guided(seen_b[i], course, pronavs_b[n], results_b[i]);
        cruise_step_ignores_vertical_rate(
            pronavs_a[i],
            seen_a[i],
            course_a,
            pronavs_a[n],
            results_a[i],
            seen_b[i],
            course_b,
            pronavs_b[n],
            results_b[i],
        );
        assert(results_a.take(n) =~= results_a.take(i).push(results_a[i]));
        assert(results_b.take(n) =~= results_b.take(i).push(results_b[i]));
    }
}

/// Where the formulas are functions, a sighting leads to one command and one controller only.
pub proof fn guidance_is_determined<M: GuidanceModel>(
    before: ProNav<M>,
    seen: Sighting<M::Scalar, M::Vector, M::Attitude>,
    next_a: ProNav<M>,
    r_a: (M::Attitude, M::Scalar),
    next_b: ProNav<M>,
    r_b: (M::Attitude, M::Scalar),
)
    requires
        functional::<M>(),
        before.guides(seen, next_a, r_a),
        before.guides(seen, next_b, r_b),
    ensures
        next_a == next_b,
        r_a == r_b,
{
    let a = choose|course: Course<M>| before.guided(seen, course, next_a, r_a);
    let b = choose|course: Course<M>| before.guided(seen, course, next_b, r_b);
    assert(next_a.phase == next_b.phase);
    assert(a.integrand == b.integrand);
    assert(next_a.los_vel_integral == next_b.los_vel_integral);
    assert(a.demand == b.demand);
    assert(a.desired == b.desired);
    assert(a.lifted == b.lifted);
    assert(a.boresight == b.boresight);
    assert(a.angle == b.angle);
    assert(a.penalty == b.penalty);
    assert(next_a.fov_integral == next_b.fov_integral);
    assert(a.accel == b.accel);
    assert(a.thrust_dir == b.thrust_dir);
    assert(a.alignment == b.alignment);
    assert(a.down == b.down);
    assert(a.right == b.right);
}

/// The terminal phase is entered at the first steep target, not earlier, and never left.
pub proof fn steep_targets_start_the_terminal_phase<M: GuidanceModel>(
    before: ProNav<M>,
    seen: Sighting<M::Scalar, M::Vector, M::Attitude>,
    next: ProNav<M>,
    r: (M::Attitude, M::Scalar),
    steep: bool,
)
    requires
        functional::<M>(),
        call_ensures(M::is_steep, (&before.model, seen.los_unit), steep),
        before.guides(seen, next, r),
    ensures
        next.phase == FlightPhase::Terminal <==> before.phase == FlightPhase::Terminal || steep,
        next == (ProNav {
            fov_integral: next.fov_integral,
            los_vel_integral: next.los_vel_integral,
            phase: next.phase,
            ..before
        }),
{
}

/// A controller in the terminal phase asks for the same as one in cruise that has integrated
/// the same and sees the same, steep target: in the terminal phase nothing is taken out of
/// what is asked for, however long it has lasted.
pub proof fn terminal_phase_goes_on_as_it_starts<M: GuidanceModel>(
    terminal: ProNav<M>,
    next_t: ProNav<M>,
    r_t: (M::Attitude, M::Scalar),
    cruise: ProNav<M>,
    next_c: ProNav<M>,
    r_c: (M::Attitude, M::Scalar),
    seen: Sighting<M::Scalar, M::Vector, M::Attitude>,
)
    requires
        functional::<M>(),
        terminal.phase == FlightPhase::Terminal,
        cruise == (ProNav { phase: FlightPhase::Cruise, ..terminal }),
        call_ensures(M::is_steep, (&terminal.model, seen.los_unit), true),
        terminal.guides(seen, next_t, r_t),
        cruise.guides(seen, next_c, r_c),
    ensures
        next_t == next_c,
        r_t == r_c,
{
    let t = choose|course: Course<M>| terminal.guided(seen, course, next_t, r_t);
    let c = choose|course: Course<M>| cruise.guided(seen, course, next_c, r_c);
    assert(t.integrand == c.integrand);
    assert(next_t.los_vel_integral == next_c.los_vel_integral);
    assert(t.demand == c.demand);
    assert(t.desired == c.desired);
    assert(t.lifted == c.lifted);
    assert(t.boresight == c.boresight);
    assert(t.angle == c.angle);
    assert(t.penalty == c.penalty);
    assert(next_t.fov_integral == next_c.fov_integral);
    assert(t.accel == c.accel);
    assert(t.thrust_dir == c.thrust_dir);
    assert(t.alignment == c.alignment);
    assert(t.down == c.down);
    assert(t.right == c.right);
}

/// How far a controller has integrated after it has seen `seen`: the whole line-of-sight rate
/// in the terminal phase, its horizontal part in cruise, over the whole time step.
pub proof fn line_of_sight_rate_is_integrated<M: GuidanceModel>(
    before: ProNav<M>,
    seen: Sighting<M::Scalar, M::Vector, M::Attitude>,
    next: ProNav<M>,
    r: (M::Attitude, M::Scalar),
    flat: M::Vector,
    terminal: M::Vector,
    cruise: M::Vector,
)
    requires
        functional::<M>(),
        call_ensures(M::horizontal, (&before.model, seen.los_unit_vel), flat),
        call_ensures(
            M::integrate,
            (&before.model, before.los_vel_integral, seen.los_unit_vel, seen.dt),
            terminal,
        ),
        call_ensures(
            M::integrate,
            (&before.model, before.los_vel_integral, flat, seen.dt),
            cruise,
        ),
        before.guides(seen, next, r),
    ensures
        next.phase == FlightPhase::Terminal ==> next.los_vel_integral == terminal,
        next.phase == FlightPhase::Cruise ==> next.los_vel_integral == cruise,
{
}

/// The acceleration that the phase of `next` lets through of what is asked for at `seen`,
/// with gravity compensated, is `lifted`: in the terminal phase all of it, in cruise its
/// horizontal part. `demand` is what is asked for, `flat` its horizontal part.
pub open spec fn lets_through<M: GuidanceModel>(
    next: ProNav<M>,
    seen: Sighting<M::Scalar, M::Vector, M::Attitude>,
    demand: M::Vector,
    flat: M::Vector,
    lifted: M::Vector,
) -> bool {
    &&& call_ensures(
        M::demand,
        (
            &next.model,
            next.tuning,
            seen.closing_vel,
            seen.los_unit,
            seen.los_unit_vel,
            next.los_vel_integral,
        ),
        demand,
    )
    &&& call_ensures(M::horizontal, (&next.model, demand), flat)
    &&& next.phase == FlightPhase::Terminal ==> call_ensures(
        M::against_gravity,
        (&next.model, demand),
        lifted,
    )
    &&& next.phase == FlightPhase::Cruise ==> call_ensures(
        M::against_gravity,
        (&next.model, flat),
        lifted,
    )
}

/// The camera axis of the vehicle that sees `seen` is `boresight`, which is `angle` off the
/// target.
pub open spec fn looks_aside<M: GuidanceModel>(
    pronav: ProNav<M>,
    seen: Sighting<M::Scalar, M::Vector, M::Attitude>,
    boresight: M::Vector,
    angle: M::Scalar,
) -> bool {
    &&& call_ensures(
        M::boresight,
        (&pronav.model, pronav.tuning.camera_pitch, seen.attitude),
        boresight,
    )
    &&& call_ensures(M::angle, (&pronav.model, boresight, seen.los_unit), angle)
}

/// What has accumulated of the target being out of view leaks and grows by how far the camera
/// axis is off the target beyond the limit, if it is, and is never negative.
pub proof fn losing_the_target_accumulates<M: GuidanceModel>(
    before: ProNav<M>,
    seen: Sighting<M::Scalar, M::Vector, M::Attitude>,
    next: ProNav<M>,
    r: (M::Attitude, M::Scalar),
    boresight: M::Vector,
    angle: M::Scalar,
    violation: M::Scalar,
    penalty: M::Scalar,
    leaked: M::Scalar,
    integral: M::Scalar,
)
    requires
        functional::<M>(),
        looks_aside(before, seen, boresight, angle),
        call_ensures(M::beyond, (&before.model, angle, before.tuning.fov_limit), violation),
        call_ensures(M::at_least_zero, (&before.model, violation), penalty),
        call_ensures(
            M::leak,
            (
                &before.model,
                before.fov_integral,
                before.tuning.fov_leak_rate,
                penalty,
                seen.dt,
            ),
            leaked,
        ),
        call_ensures(M::at_least_zero, (&before.model, leaked), integral),
        before.guides(seen, next, r),
    ensures
        next.fov_integral == integral,
{
    let course = choose|course: Course<M>| before.guided(seen, course, next, r);
    assert(course.boresight == boresight);
    assert(course.angle == angle);
    assert(course.violation == violation);
    assert(course.penalty == penalty);
    assert(course.leaked == leaked);
}

/// `r` is the attitude and the force that a vehicle which sees `seen` needs for the
/// acceleration `accel`, whose direction is `up`: it thrusts along `up`, with its right axis
/// `right`, and with less force the less it is aligned yet. `axis` is where it thrusts now.
pub open spec fn thrusts_along<M: GuidanceModel>(
    pronav: ProNav<M>,
    seen: Sighting<M::Scalar, M::Vector, M::Attitude>,
    accel: M::Vector,
    up: M::Vector,
    down: M::Vector,
    right: M::Vector,
    axis: M::Vector,
    cosine: M::Scalar,
    alignment: M::Scalar,
    r: (M::Attitude, M::Scalar),
) -> bool {
    &&& call_ensures(M::opposite, (&pronav.model, up), down)
    &&& call_ensures(M::thrust_axis, (&pronav.model, seen.attitude), axis)
    &&& call_ensures(M::dot, (&pronav.model, axis, up), cosine)
    &&& call_ensures(M::fraction, (&pronav.model, cosine), alignment)
    &&& call_ensures(M::attitude_of, (&pronav.model, right, down), r.0)
    &&& call_ensures(M::force, (&pronav.model, pronav.drone_mass, accel, alignment), r.1)
}

/// The right axis of a vehicle whose down axis is `down` and which faces a target along `los`
/// is `right`: square to both, or to the north, or east, where there is no such axis.
pub open spec fn faces<M: GuidanceModel>(
    model: M,
    down: M::Vector,
    los: M::Vector,
    north: M::Vector,
    right: M::Vector,
) -> bool {
    ||| call_ensures(M::square_to, (&model, down, los), Some(right))
    ||| call_ensures(M::square_to, (&model, down, los), None) && call_ensures(
        M::north,
        (&model,),
        north,
    ) && (call_ensures(M::square_to, (&model, down, north), Some(right)) || call_ensures(
        M::square_to,
        (&model, down, north),
        None,
    ) && call_ensures(M::east, (&model,), right))
}

/// With the target in view, or no axis to turn about, a step asks for exactly the acceleration
/// that the phase lets through: the vehicle is to thrust along it.
pub proof fn demand_is_flown<M: GuidanceModel>(
    before: ProNav<M>,
    seen: Sighting<M::Scalar, M::Vector, M::Attitude>,
    next: ProNav<M>,
    r: (M::Attitude, M::Scalar),
    demand: M::Vector,
    flat: M::Vector,
    lifted: M::Vector,
    boresight: M::Vector,
    angle: M::Scalar,
    up: M::Vector,
    down: M::Vector,
    north: M::Vector,
    right: M::Vector,
    axis: M::Vector,
    cosine: M::Scalar,
    alignment: M::Scalar,
    expected: (M::Attitude, M::Scalar),
)
    requires
        functional::<M>(),
        before.guides(seen, next, r),
        lets_through(next, seen, demand, flat, lifted),
        looks_aside(before, seen, boresight, angle),
        call_ensures(M::is_positive, (&before.model, next.fov_integral), false) || call_ensures(
            M::is_wide,
            (&before.model, angle),
            false,
        ) || call_ensures(M::restoring_axis, (&before.model, boresight, seen.los_unit), None),
        call_ensures(M::direction, (&before.model, lifted), Some(up)) || call_ensures(
            M::direction,
            (&before.model, lifted),
            None,
        ) && call_ensures(M::up, (&before.model,), up),
        faces(before.model, down, seen.los_unit, north, right),
        thrusts_along(
            before,
            seen,
            lifted,
            up,
            down,
            right,
            axis,
            cosine,
            alignment,
            expected,
        ),
    ensures
        r == expected,
{
    let course = choose|course: Course<M>| before.guided(seen, course, next, r);
    assert(course.demand == demand);
    assert(course.lifted == lifted);
    assert(course.boresight == boresight);
    assert(course.angle == angle);
    assert(course.accel == lifted);
    assert(course.thrust_dir == up);
    assert(course.down == down);
    assert(course.right == right);
    assert(course.alignment == alignment);
}

/// With the target out of view, a step asks for the acceleration that the phase lets through,
/// turned about the axis from the camera to the target by what has accumulated, with the gain
/// on it, but by no more than a right angle.
pub proof fn demand_is_turned_towards_a_lost_target<M: GuidanceModel>(
    before: ProNav<M>,
    seen: Sighting<M::Scalar, M::Vector, M::Attitude>,
    next: ProNav<M>,
    r: (M::Attitude, M::Scalar),
    demand: M::Vector,
    flat: M::Vector,
    lifted: M::Vector,
    boresight: M::Vector,
    angle: M::Scalar,
    about: M::Vector,
    product: M::Scalar,
    turn: M::Scalar,
    accel: M::Vector,
    up: M::Vector,
    down: M::Vector,
    north: M::Vector,
    right: M::Vector,
    axis: M::Vector,
    cosine: M::Scalar,
    alignment: M::Scalar,
    expected: (M::Attitude, M::Scalar),
)
    requires
        functional::<M>(),
        before.guides(seen, next, r),
        lets_through(next, seen, demand, flat, lifted),
        looks_aside(before, seen, boresight, angle),
        call_ensures(M::is_positive, (&before.model, next.fov_integral), true),
        call_ensures(M::is_wide, (&before.model, angle), true),
        call_ensures(M::restoring_axis, (&before.model, boresight, seen.los_unit), Some(about)),
        call_ensures(
            M::times,
            (&before.model, next.fov_integral, before.tuning.fov_penalty_gain),
            product,
        ),
        call_ensures(M::at_most_right, (&before.model, product), turn),
        call_ensures(M::turn, (&before.model, lifted, about, turn), accel),
        call_ensures(M::direction, (&before.model, accel), Some(up)) || call_ensures(
            M::direction,
            (&before.model, accel),
            None,
        ) && call_ensures(M::up, (&before.model,), up),
        faces(before.model, down, seen.los_unit, north, right),
        thrusts_along(
            before,
            seen,
            accel,
            up,
            down,
            right,
            axis,
            cosine,
            alignment,
            expected,
        ),
    ensures
        r == expected,
{
    let course = choose|course: Course<M>| before.guided(seen, course, next, r);
    assert(course.demand == demand);
    assert(course.lifted == lifted);
    assert(course.boresight == boresight);
    assert(course.angle == angle);
    assert(course.accel == accel);
    assert(course.thrust_dir == up);
    assert(course.down == down);
    assert(course.right == right);
    assert(course.alignment == alignment);
}

/// A heavier vehicle is told the same attitude: the mass matters to the force alone, and only
/// as [`GuidanceModel::force`] has it. `accel` and `alignment` are the same for both.
pub proof fn mass_matters_to_the_force_alone<M: GuidanceModel>(
    a: ProNav<M>,
    next_a: ProNav<M>,
    r_a: (M::Attitude, M::Scalar),
    b: ProNav<M>,
    next_b: ProNav<M>,
    r_b: (M::Attitude, M::Scalar),
    seen: Sighting<M::Scalar, M::Vector, M::Attitude>,
) -> (shared: (M::Vector, M::Scalar))
    requires
        functional::<M>(),
        b == (ProNav { drone_mass: b.drone_mass, ..a }),
        a.guides(seen, next_a, r_a),
        b.guides(seen, next_b, r_b),
    ensures
        r_a.0 == r_b.0,
        next_b == (ProNav { drone_mass: b.drone_mass, ..next_a }),
        call_ensures(M::force, (&a.model, a.drone_mass, shared.0, shared.1), r_a.1),
        call_ensures(M::force, (&a.model, b.drone_mass, shared.0, shared.1), r_b.1),
{
    let x = choose|course: Course<M>| a.guided(seen, course, next_a, r_a);
    let y = choose|course: Course<M>| b.guided(seen, course, next_b, r_b);
    assert(x.integrand == y.integrand);
    assert(next_a.los_vel_integral == next_b.los_vel_integral);
    assert(x.demand == y.demand);
    assert(x.desired == y.desired);
    assert(x.lifted == y.lifted);
    assert(x.boresight == y.boresight);
    assert(x.angle == y.angle);
    assert(x.penalty == y.penalty);
    assert(next_a.fov_integral == next_b.fov_integral);
    assert(x.accel == y.accel);
    assert(x.thrust_dir == y.thrust_dir);
    assert(x.alignment == y.alignment);
    assert(x.down == y.down);
    assert(x.right == y.right);
    (x.accel, x.alignment)
}

/// A new controller has the mass it is told and the default tuning, has integrated nothing, and
/// is in cruise.
pub proof fn controllers_start_in_cruise<M: GuidanceModel>(
    model: M,
    drone_mass: M::Scalar,
    r: ProNav<M>,
    tuning: Tuning<M::Scalar>,
    zero: M::Scalar,
    zero_vector: M::Vector,
)
    requires
        functional::<M>(),
        call_ensures(ProNav::<M>::new, (model, drone_mass), r),
        call_ensures(M::default_tuning, (&model,), tuning),
        call_ensures(M::zero, (&model,), zero),
        call_ensures(M::zero_vector, (&model,), zero_vector),
    ensures
        r == (ProNav {
            drone_mass,
            tuning,
            fov_integral: zero,
            los_vel_integral: zero_vector,
            phase: FlightPhase::Cruise,
            model,
        }),
{
}

/// Each gain, and the velocity aimed for, is taken over, but not below zero: `least` is that.
/// Nothing else changes.
pub proof fn gains_are_taken_over<M: GuidanceModel>(
    pronav: ProNav<M>,
    x: M::Scalar,
    least: M::Scalar,
    r: ProNav<M>,
)
    requires
        functional::<M>(),
        call_ensures(M::at_least_zero, (&pronav.model, x), least),
    ensures
        call_ensures(ProNav::<M>::pronav_gain, (pronav, x), r) ==> r == (ProNav {
            tuning: Tuning { pronav_gain: least, ..pronav.tuning },
            ..pronav
        }),
        call_ensures(ProNav::<M>::intnav_gain, (pronav, x), r) ==> r == (ProNav {
            tuning: Tuning { intnav_gain: least, ..pronav.tuning },
            ..pronav
        }),
        call_ensures(ProNav::<M>::pursuit_gain, (pronav, x), r) ==> r == (ProNav {
            tuning: Tuning { pursuit_gain: least, ..pronav.tuning },
            ..pronav
        }),
        call_ensures(ProNav::<M>::velocity_gain, (pronav, x), r) ==> r == (ProNav {
            tuning: Tuning { velocity_gain: least, ..pronav.tuning },
            ..pronav
        }),
        call_ensures(ProNav::<M>::velocity_target, (pronav, x), r) ==> r == (ProNav {
            tuning: Tuning { velocity_target: least, ..pronav.tuning },
            ..pronav
        }),
{
}

/// Each setting of the camera, and the gain on losing the target from view, is taken over as it
/// is. Nothing else changes.
pub proof fn settings_are_taken_over<M: GuidanceModel>(
    pronav: ProNav<M>,
    x: M::Scalar,
    r: ProNav<M>,
)
    ensures
        call_ensures(ProNav::<M>::camera_pitch, (pronav, x), r) ==> r == (ProNav {
            tuning: Tuning { camera_pitch: x, ..pronav.tuning },
            ..pronav
        }),
        call_ensures(ProNav::<M>::fov_limit, (pronav, x), r) ==> r == (ProNav {
            tuning: Tuning { fov_limit: x, ..pronav.tuning },
            ..pronav
        }),
        call_ensures(ProNav::<M>::fov_penalty_gain, (pronav, x), r) ==> r == (ProNav {
            tuning: Tuning { fov_penalty_gain: x, ..pronav.tuning },
            ..pronav
        }),
{
}

/// A call of [`ProNav::update`] is one step in the sense of [`ProNav::guides`], for exactly what it
/// is told.
pub proof fn updates_are_steps<M: GuidanceModel>(
    pronav: &mut ProNav<M>,
    closing_vel: M::Scalar,
    los_unit: M::Vector,
    los_unit_vel: M::Vector,
    attitude: M::Attitude,
    dt: M::Scalar,
    r: (M::Attitude, M::Scalar),
)
    requires
        call_ensures(
            ProNav::<M>::update,
            (pronav, closing_vel, los_unit, los_unit_vel, attitude, dt),
            r,
        ),
    ensures
        old(pronav).guides(
            Sighting { closing_vel, los_unit, los_unit_vel, attitude, dt },
            *final(pronav),
            r,
        ),
{
}

/// Calls of [`ProNav::update`] that see the same, steep target ask for the same in the terminal
/// phase, however long it has lasted, as at its very beginning, where the controllers have
/// integrated the same.
pub proof fn terminal_updates_keep_the_demand<M: GuidanceModel>(
    terminal: &mut ProNav<M>,
    cruise: &mut ProNav<M>,
    closing_vel: M::Scalar,
    los_unit: M::Vector,
    los_unit_vel: M::Vector,
    attitude: M::Attitude,
    dt: M::Scalar,
    r_t: (M::Attitude, M::Scalar),
    r_c: (M::Attitude, M::Scalar),
)
    requires
        functional::<M>(),
        old(terminal).phase == FlightPhase::Terminal,
        *old(cruise) == (ProNav { phase: FlightPhase::Cruise, ..*old(terminal) }),
        call_ensures(M::is_steep, (&old(terminal).model, los_unit), true),
        call_ensures(
            ProNav::<M>::update,
            (terminal, closing_vel, los_unit, los_unit_vel, attitude, dt),
            r_t,
        ),
        call_ensures(
            ProNav::<M>::update,
            (cruise, closing_vel, los_unit, los_unit_vel, attitude, dt),
            r_c,
        ),
    ensures
        r_t == r_c,
        *final(terminal) == *final(cruise),
{
    terminal_phase_goes_on_as_it_starts(
        *old(terminal),
        *final(terminal),
        r_t,
        *old(cruise),
        *final(cruise),
        r_c,
        Sighting { closing_vel, los_unit, los_unit_vel, attitude, dt },
    );
}

/// With the target in view, what is asked for does not depend on how the vehicle is turned now, but
/// for how well its thrust is aligned yet: two steps that differ in the attitude only ask for the
/// same attitude, and for forces of the same acceleration, the first of the returned values.
pub proof fn attitude_matters_to_the_alignment_alone<M: GuidanceModel>(
    before: ProNav<M>,
    seen_a: Sighting<M::Scalar, M::Vector, M::Attitude>,
    next_a: ProNav<M>,
    r_a: (M::Attitude, M::Scalar),
    seen_b: Sighting<M::Scalar, M::Vector, M::Attitude>,
    next_b: ProNav<M>,
    r_b: (M::Attitude, M::Scalar),
) -> (shared: (M::Vector, M::Scalar, M::Scalar))
    requires
        functional::<M>(),
        seen_b == (Sighting { attitude: seen_b.attitude, ..seen_a }),
        before.guides(seen_a, next_a, r_a),
        before.guides(seen_b, next_b, r_b),
        call_ensures(M::is_positive, (&before.model, next_a.fov_integral), false),
        call_ensures(M::is_positive, (&before.model, next_b.fov_integral), false),
    ensures
        r_a.0 == r_b.0,
        next_b == (ProNav { fov_integral: next_b.fov_integral, ..next_a }),
        call_ensures(M::force, (&before.model, before.drone_mass, shared.0, shared.1), r_a.1),
        call_ensures(M::force, (&before.model, before.drone_mass, shared.0, shared.2), r_b.1),
{
    let x = choose|course: Course<M>| before.guided(seen_a, course, next_a, r_a);
    let y = choose|course: Course<M>| before.guided(seen_b, course, next_b, r_b);
    assert(next_a.phase == next_b.phase);
    assert(x.integrand == y.integrand);
    assert(next_a.los_vel_integral == next_b.los_vel_integral);
    assert(x.demand == y.demand);
    assert(x.desired == y.desired);
    assert(x.lifted == y.lifted);
    assert(x.accel == x.lifted && y.accel == y.lifted);
    assert(x.thrust_dir == y.thrust_dir);
    assert(x.down == y.down);
    assert(x.right == y.right);
    (x.accel, x.alignment, y.alignment)
}

/// With the target in view, a vehicle that has taken the attitude asked for thrusts along the
/// acceleration that the phase lets through, where that has a direction, and the formulas are
/// free of rounding: an attitude made of a right and a down axis thrusts against the latter.
pub proof fn attitudes_thrust_along_the_demand<M: GuidanceModel>(
    before: ProNav<M>,
    seen: Sighting<M::Scalar, M::Vector, M::Attitude>,
    next: ProNav<M>,
    r: (M::Attitude, M::Scalar),
    demand: M::Vector,
    flat: M::Vector,
    lifted: M::Vector,
    up: M::Vector,
    thrust: M::Vector,
)
    requires
        functional::<M>(),
        forall|
            up: M::Vector,
            down: M::Vector,
            right: M::Vector,
            attitude: M::Attitude,
            axis: M::Vector,
        |
            #[trigger] call_ensures(M::opposite, (&before.model, up), down)
                && #[trigger] call_ensures(M::attitude_of, (&before.model, right, down), attitude)
                && #[trigger] call_ensures(M::thrust_axis, (&before.model, attitude), axis) ==> axis
                == up,
        before.guides(seen, next, r),
        lets_through(next, seen, demand, flat, lifted),
        call_ensures(M::is_positive, (&before.model, next.fov_integral), false),
        call_ensures(M::direction, (&before.model, lifted), Some(up)),
        call_ensures(M::thrust_axis, (&before.model, r.0), thrust),
    ensures
        thrust == up,
{
    let course = choose|course: Course<M>| before.guided(seen, course, next, r);
    assert(course.demand == demand);
    assert(course.lifted == lifted);
    assert(course.accel == lifted);
    assert(course.thrust_dir == up);
}

} // verus!
