//! An error-state Kalman filter for the line of sight, also for measurements that arrive
//! late.

use vstd::prelude::*;
use crate::rewind::{Process, Rewind};

#[allow(unused_imports)]
use crate::chronology::inserted;
#[allow(unused_imports)]
use crate::functional::{function1, function2, function3, function4, function5, function6};
#[allow(unused_imports)]
use crate::rewind::{
    arrive, coasting_covers_the_whole_time, coasts_to, deterministic, distinct_instants,
    late_inputs_are_made_up_for, same_inputs_lead_to_the_same_state, steps_to, History, Recorded,
    Snapshot,
};

#[allow(unused_imports)]
use crate::weighing::{
    larger_variance_weighs_more, larger_variance_weighs_more_back, reorder, rest, share,
    share_is_a_part,
};

verus! {

/// The formulas of an error-state Kalman filter on the unit sphere.
pub trait EskfModel {
    type Scalar: Copy;

    type Vector: Copy;

    /// Two vectors that span the tangent plane at a direction.
    type Basis: Copy;

    type Rotation: Copy;

    /// Covariance of the error state: two angles and two rates.
    type Cov: Copy;

    /// Covariance of a measured vector.
    type Noise: Copy;

    type Gain: Copy;

    type Error: Copy;

    /// The direction that a filter starts from.
    fn forward(&self) -> Self::Vector;

    /// The rate of a direction at rest.
    fn zero(&self) -> Self::Vector;

    /// The unit vectors along the first and second axis.
    fn first_axis(&self) -> Self::Vector;

    fn second_axis(&self) -> Self::Vector;

    /// Whether `u` is nearly along the first axis.
    fn is_near_first_axis(&self, u: Self::Vector) -> bool;

    /// An orthonormal basis of the plane square to `u`, made from `u` and a vector `v` that
    /// is not along it.
    fn span(&self, u: Self::Vector, v: Self::Vector) -> Self::Basis;

    /// The covariance of a state that is not known.
    fn unknown(&self) -> Self::Cov;

    /// Measurement noise of variance `r` in all directions.
    fn isotropic(&self, r: Self::Scalar) -> Self::Noise;

    /// A time span in the unit that the other formulas take.
    fn time_step(&self, dt_us: u64) -> Self::Scalar;

    /// The angle swept at rate `omega` in `dt`.
    fn swept(&self, omega: Self::Vector, dt: Self::Scalar) -> Self::Scalar;

    /// Whether `angle` is large enough to turn by.
    fn is_turn(&self, angle: Self::Scalar) -> bool;

    /// The rotation about `omega` by `angle`.
    fn rotation(&self, omega: Self::Vector, angle: Self::Scalar) -> Self::Rotation;

    /// `v`, turned.
    fn rotate(&self, rotation: Self::Rotation, v: Self::Vector) -> Self::Vector;

    /// `basis`, turned.
    fn rotate_basis(&self, rotation: Self::Rotation, basis: Self::Basis) -> Self::Basis;

    /// The covariance `p` after `dt`, with process noise `q`.
    fn propagate(&self, p: Self::Cov, q: Self::Cov, dt: Self::Scalar) -> Self::Cov;

    /// The inverse of the covariance of a measurement `z` with noise `r` as seen from the
    /// state, with the uncertainty of the attitude in `p_attitude`; none where it is
    /// singular.
    fn innovation_inverse(
        &self,
        p: Self::Cov,
        basis: Self::Basis,
        z: Self::Vector,
        r: Self::Noise,
        p_attitude: Self::Noise,
    ) -> Option<Self::Noise>;

    /// The Kalman gain.
    fn gain(&self, p: Self::Cov, basis: Self::Basis, inverse: Self::Noise) -> Self::Gain;

    /// The error state that the difference of `z` and `u` amounts to.
    fn error(&self, gain: Self::Gain, z: Self::Vector, u: Self::Vector) -> Self::Error;

    /// The angle by which `error` tilts the direction.
    fn tilt(&self, error: Self::Error) -> Self::Scalar;

    /// `u`, tilted by `error`, that is by the angle `tilt`.
    fn tilted(
        &self,
        u: Self::Vector,
        basis: Self::Basis,
        error: Self::Error,
        tilt: Self::Scalar,
    ) -> Self::Vector;

    /// The rate `omega`, corrected by `error` and made tangential to `u`.
    fn corrected_rate(
        &self,
        omega: Self::Vector,
        basis: Self::Basis,
        error: Self::Error,
        u: Self::Vector,
    ) -> Self::Vector;

    /// The covariance `p` after a measurement.
    fn shrunk(&self, p: Self::Cov, gain: Self::Gain, basis: Self::Basis) -> Self::Cov;

    /// `basis`, made tangential at `u`.
    fn refined(&self, basis: Self::Basis, u: Self::Vector) -> Self::Basis;
}

/// All formulas are functions.
pub open spec fn functional<M: EskfModel>() -> bool {
    &&& function1(M::forward)
    &&& function1(M::zero)
    &&& function1(M::first_axis)
    &&& function1(M::second_axis)
    &&& function2(M::is_near_first_axis)
    &&& function3(M::span)
    &&& function1(M::unknown)
    &&& function2(M::isotropic)
    &&& function2(M::time_step)
    &&& function3(M::swept)
    &&& function2(M::is_turn)
    &&& function3(M::rotation)
    &&& function3(M::rotate)
    &&& function3(M::rotate_basis)
    &&& function4(M::propagate)
    &&& function6(M::innovation_inverse)
    &&& function4(M::gain)
    &&& function4(M::error)
    &&& function2(M::tilt)
    &&& function5(M::tilted)
    &&& function5(M::corrected_rate)
    &&& function4(M::shrunk)
    &&& function3(M::refined)
}

/// What the filter estimates.
pub struct EskfState<M: EskfModel> {
    /// Nominal direction of the line of sight.
    pub u_hat: M::Vector,
    /// Nominal angular rate of the line of sight.
    pub omega_hat: M::Vector,
    /// Basis of the tangent space of the unit sphere at `u_hat`.
    pub basis: M::Basis,
    /// Covariance of the error state.
    pub p_cov: M::Cov,
}

impl<M: EskfModel> Clone for EskfState<M> {
    fn clone(&self) -> (r: Self)
        ensures
            r == *self,
    {
        *self
    }
}

impl<M: EskfModel> Copy for EskfState<M> {

}

/// `basis` is tangential at `u`: spanned from `u` and the first axis, or the second where
/// `u` is nearly along the first.
pub open spec fn is_tangent_basis<M: EskfModel>(model: M, u: M::Vector, basis: M::Basis) -> bool {
    exists|v: M::Vector|
        {
            &&& call_ensures(M::is_near_first_axis, (&model, u), true) && call_ensures(
                M::second_axis,
                (&model,),
                v,
            ) || call_ensures(M::is_near_first_axis, (&model, u), false) && call_ensures(
                M::first_axis,
                (&model,),
                v,
            )
            &&& #[trigger] call_ensures(M::span, (&model, u, v), basis)
        }
}

/// `state` is that of a filter that knows nothing.
pub open spec fn is_initial<M: EskfModel>(model: M, state: EskfState<M>) -> bool {
    &&& call_ensures(M::forward, (&model,), state.u_hat)
    &&& call_ensures(M::zero, (&model,), state.omega_hat)
    &&& is_tangent_basis(model, state.u_hat, state.basis)
    &&& call_ensures(M::unknown, (&model,), state.p_cov)
}

/// `next` follows from `state` by dead reckoning over `dt`: direction and basis turn at the
/// known rate, by `angle`, where that is enough to turn by.
pub open spec fn predicted<M: EskfModel>(
    model: M,
    q_cov: M::Cov,
    state: EskfState<M>,
    dt: M::Scalar,
    angle: M::Scalar,
    next: EskfState<M>,
) -> bool {
    &&& call_ensures(M::swept, (&model, state.omega_hat, dt), angle)
    &&& next.omega_hat == state.omega_hat
    &&& {
        ||| {
            &&& call_ensures(M::is_turn, (&model, angle), true)
            &&& exists|rotation: M::Rotation|
                {
                    &&& #[trigger] call_ensures(
                        M::rotation,
                        (&model, state.omega_hat, angle),
                        rotation,
                    )
                    &&& call_ensures(M::rotate, (&model, rotation, state.u_hat), next.u_hat)
                    &&& call_ensures(M::rotate_basis, (&model, rotation, state.basis), next.basis)
                }
        }
        ||| {
            &&& call_ensures(M::is_turn, (&model, angle), false)
            &&& next.u_hat == state.u_hat
            &&& next.basis == state.basis
        }
    }
    &&& call_ensures(M::propagate, (&model, state.p_cov, q_cov, dt), next.p_cov)
}

/// `next` follows from `state` by the measurement `z_u`, once the covariance of the
/// innovation has the inverse `inverse`: by the Kalman gain `gain`, which makes the error
/// state `error` and tilts the direction by `tilt`, where that is enough to turn by.
pub open spec fn measured<M: EskfModel>(
    model: M,
    state: EskfState<M>,
    z_u: M::Vector,
    inverse: M::Noise,
    gain: M::Gain,
    error: M::Error,
    tilt: M::Scalar,
    next: EskfState<M>,
) -> bool {
    &&& call_ensures(M::gain, (&model, state.p_cov, state.basis, inverse), gain)
    &&& call_ensures(M::error, (&model, gain, z_u, state.u_hat), error)
    &&& call_ensures(M::tilt, (&model, error), tilt)
    &&& {
        ||| call_ensures(M::is_turn, (&model, tilt), true) && call_ensures(
            M::tilted,
            (&model, state.u_hat, state.basis, error, tilt),
            next.u_hat,
        )
        ||| call_ensures(M::is_turn, (&model, tilt), false) && next.u_hat == state.u_hat
    }
    &&& call_ensures(
        M::corrected_rate,
        (&model, state.omega_hat, state.basis, error, next.u_hat),
        next.omega_hat,
    )
    &&& call_ensures(M::shrunk, (&model, state.p_cov, gain, state.basis), next.p_cov)
    &&& call_ensures(M::refined, (&model, state.basis, next.u_hat), next.basis)
}

/// `next` follows from `state` by the measurement `z_u`. A measurement whose innovation has
/// a singular covariance changes nothing.
pub open spec fn corrected<M: EskfModel>(
    model: M,
    r_pixel: M::Noise,
    state: EskfState<M>,
    z_u: M::Vector,
    p_attitude: M::Noise,
    next: EskfState<M>,
) -> bool {
    ||| {
        &&& call_ensures(
            M::innovation_inverse,
            (&model, state.p_cov, state.basis, z_u, r_pixel, p_attitude),
            None,
        )
        &&& next == state
    }
    ||| exists|inverse: M::Noise, gain: M::Gain, error: M::Error, tilt: M::Scalar|
        {
            &&& call_ensures(
                M::innovation_inverse,
                (&model, state.p_cov, state.basis, z_u, r_pixel, p_attitude),
                Some(inverse),
            )
            &&& #[trigger] measured(model, state, z_u, inverse, gain, error, tilt, next)
        }
}

/// An orthonormal basis of the tangent plane at `u`.
fn compute_tangent_basis<M: EskfModel>(model: &M, u: M::Vector) -> (basis: M::Basis)
    ensures
        is_tangent_basis(*model, u, basis),
{
    let v = if model.is_near_first_axis(u) {
        model.second_axis()
    } else {
        model.first_axis()
    };
    model.span(u, v)
}

/// The state of a filter that knows nothing.
fn initial_state<M: EskfModel>(model: &M) -> (state: EskfState<M>)
    ensures
        is_initial(*model, state),
{
    let u_hat = model.forward();
    let omega_hat = model.zero();
    let basis = compute_tangent_basis(model, u_hat);
    EskfState { u_hat, omega_hat, basis, p_cov: model.unknown() }
}

/// The state `dt` after `state`, by dead reckoning.
fn predict_state<M: EskfModel>(
    model: &M,
    q_cov: M::Cov,
    state: EskfState<M>,
    dt: M::Scalar,
) -> (next: EskfState<M>)
    ensures
        exists|angle: M::Scalar| predicted(*model, q_cov, state, dt, angle, next),
{
    let mut next = state;
    let angle = model.swept(state.omega_hat, dt);
    if model.is_turn(angle) {
        let rotation = model.rotation(state.omega_hat, angle);
        next.u_hat = model.rotate(rotation, state.u_hat);
        next.basis = model.rotate_basis(rotation, state.basis);
    }
    next.p_cov = model.propagate(state.p_cov, q_cov, dt);
    assert(predicted(*model, q_cov, state, dt, angle, next));
    next
}

/// The state after the measurement `z_u`.
fn update_state<M: EskfModel>(
    model: &M,
    r_pixel: M::Noise,
    state: EskfState<M>,
    z_u: M::Vector,
    p_attitude: M::Noise,
) -> (next: EskfState<M>)
    ensures
        corrected(*model, r_pixel, state, z_u, p_attitude, next),
{
    match model.innovation_inverse(state.p_cov, state.basis, z_u, r_pixel, p_attitude) {
        Some(inverse) => {
            let mut next = state;
            let gain = model.gain(state.p_cov, state.basis, inverse);
            let error = model.error(gain, z_u, state.u_hat);
            let tilt = model.tilt(error);
            if model.is_turn(tilt) {
                next.u_hat = model.tilted(state.u_hat, state.basis, error, tilt);
            }
            next.omega_hat =
            model.corrected_rate(state.omega_hat, state.basis, error, next.u_hat);
            next.p_cov = model.shrunk(state.p_cov, gain, state.basis);
            next.basis = model.refined(state.basis, next.u_hat);
            assert(measured(*model, state, z_u, inverse, gain, error, tilt, next));
            next
        },
        None => state,
    }
}

/// An error-state Kalman filter for the line of sight.
pub struct EskfLos<M: EskfModel> {
    /// Nominal direction of the line of sight.
    pub u_hat: M::Vector,
    /// Nominal angular rate of the line of sight.
    pub omega_hat: M::Vector,
    /// Basis of the tangent space of the unit sphere at `u_hat`.
    pub basis: M::Basis,
    /// Covariance of the error state.
    pub p_cov: M::Cov,
    /// Covariance of the process noise.
    pub q_cov: M::Cov,
    /// Covariance of the measurement noise.
    pub r_pixel: M::Noise,
    pub model: M,
}

impl<M: EskfModel> EskfLos<M> {
    /// What the filter estimates.
    pub open spec fn spec_state(self) -> EskfState<M> {
        EskfState {
            u_hat: self.u_hat,
            omega_hat: self.omega_hat,
            basis: self.basis,
            p_cov: self.p_cov,
        }
    }

    /// The noise and the formulas are the same.
    pub open spec fn same_filter(self, other: Self) -> bool {
        &&& self.q_cov == other.q_cov
        &&& self.r_pixel == other.r_pixel
        &&& self.model == other.model
    }

    fn state(&self) -> (state: EskfState<M>)
        ensures
            state == self.spec_state(),
    {
        EskfState {
            u_hat: self.u_hat,
            omega_hat: self.omega_hat,
            basis: self.basis,
            p_cov: self.p_cov,
        }
    }

    fn set_state(&mut self, state: EskfState<M>)
        ensures
            final(self).spec_state() == state,
            final(self).same_filter(*old(self)),
    {
        self.u_hat = state.u_hat;
        self.omega_hat = state.omega_hat;
        self.basis = state.basis;
        self.p_cov = state.p_cov;
    }

    /// Constructs a new line-of-sight tracker with process noise `q_cov` and measurement
    /// noise of variance `r_pixel`.
    pub fn new(model: M, q_cov: M::Cov, r_pixel: M::Scalar) -> (r: Self)
        ensures
            r.model == model,
            r.q_cov == q_cov,
            call_ensures(M::isotropic, (&model, r_pixel), r.r_pixel),
            is_initial(model, r.spec_state()),
    {
        let state = initial_state(&model);
        let r_pixel = model.isotropic(r_pixel);
        EskfLos {
            u_hat: state.u_hat,
            omega_hat: state.omega_hat,
            basis: state.basis,
            p_cov: state.p_cov,
            q_cov,
            r_pixel,
            model,
        }
    }

    /// Resets the internal state of the filter.
    pub fn reset(&mut self)
        ensures
            final(self).same_filter(*old(self)),
            is_initial(old(self).model, final(self).spec_state()),
    {
        let state = initial_state(&self.model);
        self.set_state(state);
    }

    /// Predicts the state forward in time, whether or not there is a measurement.
    pub fn predict(&mut self, dt: M::Scalar)
        ensures
            final(self).same_filter(*old(self)),
            exists|angle: M::Scalar|
                predicted(
                    old(self).model,
                    old(self).q_cov,
                    old(self).spec_state(),
                    dt,
                    angle,
                    final(self).spec_state(),
                ),
    {
        let state = predict_state(&self.model, self.q_cov, self.state(), dt);
        self.set_state(state);
    }

    /// Updates the filter with a new measurement: the unit vector `z_u` in global axes, and
    /// the covariance of the attitude it was turned with.
    pub fn update(&mut self, z_u: M::Vector, p_attitude: M::Noise)
        ensures
            final(self).same_filter(*old(self)),
            corrected(
                old(self).model,
                old(self).r_pixel,
                old(self).spec_state(),
                z_u,
                p_attitude,
                final(self).spec_state(),
            ),
    {
        let state = update_state(&self.model, self.r_pixel, self.state(), z_u, p_attitude);
        self.set_state(state);
    }
}

/// A measured direction, with the covariance of the attitude it was turned with.
pub struct EskfInput<M: EskfModel> {
    pub z_u: M::Vector,
    pub p_attitude: M::Noise,
}

impl<M: EskfModel> Clone for EskfInput<M> {
    fn clone(&self) -> (r: Self)
        ensures
            r == *self,
    {
        *self
    }
}

impl<M: EskfModel> Copy for EskfInput<M> {

}

/// The filter as a process that can be rewound.
pub struct Eskf<M: EskfModel> {
    pub model: M,
    pub q_cov: M::Cov,
    pub r_pixel: M::Noise,
}

impl<M: EskfModel> Eskf<M> {
    /// `next` follows from `state` by dead reckoning over `dt_us` microseconds.
    pub open spec fn reckoned(self, state: EskfState<M>, dt_us: u64, next: EskfState<M>) -> bool {
        exists|dt: M::Scalar, angle: M::Scalar|
            {
                &&& call_ensures(M::time_step, (&self.model, dt_us), dt)
                &&& #[trigger] predicted(self.model, self.q_cov, state, dt, angle, next)
            }
    }

    /// `next` follows from `state` by dead reckoning over `dt_us` microseconds, to
    /// `before`, and a measurement there.
    pub open spec fn stepped(
        self,
        state: EskfState<M>,
        input: EskfInput<M>,
        dt_us: u64,
        before: EskfState<M>,
        next: EskfState<M>,
    ) -> bool {
        &&& self.reckoned(state, dt_us, before)
        &&& corrected(self.model, self.r_pixel, before, input.z_u, input.p_attitude, next)
    }
}

impl<M: EskfModel> Process for Eskf<M> {
    type State = EskfState<M>;

    type Input = EskfInput<M>;

    fn step(&self, state: EskfState<M>, input: EskfInput<M>, dt_us: u64) -> (next: EskfState<M>)
        ensures
            exists|before: EskfState<M>| self.stepped(state, input, dt_us, before, next),
    {
        let before = self.coast(state, dt_us);
        let next = update_state(&self.model, self.r_pixel, before, input.z_u, input.p_attitude);
        assert(self.stepped(state, input, dt_us, before, next));
        next
    }

    fn coast(&self, state: EskfState<M>, dt_us: u64) -> (next: EskfState<M>)
        ensures
            self.reckoned(state, dt_us, next),
    {
        let dt = self.model.time_step(dt_us);
        predict_state(&self.model, self.q_cov, state, dt)
    }
}

/// The error-state Kalman filter for measurements that may arrive late.
pub struct OosmEskfLos<M: EskfModel> {
    filter: Rewind<Eskf<M>>,
}

impl<M: EskfModel> OosmEskfLos<M> {
    /// State and history of the filter.
    pub closed spec fn history(self) -> History<Eskf<M>> {
        self.filter@
    }

    pub open spec fn wf(self) -> bool {
        self.history().wf()
    }

    /// A filter that starts in the state of `filter` and remembers up to `max_history`
    /// measurements.
    pub fn new(filter: EskfLos<M>, max_history: usize) -> (r: Self)
        requires
            max_history >= 1,
        ensures
            r.wf(),
            r.history().blank(),
            r.history().initial == filter.spec_state(),
            r.history().limit == max_history,
            r.history().process == (Eskf {
                model: filter.model,
                q_cov: filter.q_cov,
                r_pixel: filter.r_pixel,
            }),
    {
        let initial = filter.state();
        let process = Eskf { model: filter.model, q_cov: filter.q_cov, r_pixel: filter.r_pixel };
        OosmEskfLos { filter: Rewind::new(process, initial, max_history) }
    }

    /// Fuses a measurement at its true instant.
    pub fn fuse(&mut self, timestamp: u64, z_u: M::Vector, p_attitude: M::Noise)
        requires
            old(self).wf(),
        ensures
            final(self).wf(),
            old(self).history().fused(
                timestamp,
                EskfInput { z_u, p_attitude },
                final(self).history(),
            ),
    {
        self.filter.fuse(timestamp, EskfInput { z_u, p_attitude });
    }

    /// Coasts the filter forward to `now` without a measurement, and returns the direction
    /// and rate expected there.
    pub fn predict_to(&mut self, now: u64) -> (r: (M::Vector, M::Vector))
        requires
            old(self).wf(),
        ensures
            final(self).wf(),
            old(self).history().coasted(now, final(self).history()),
            r == (final(self).history().state.u_hat, final(self).history().state.omega_hat),
    {
        self.filter.predict_to(now);
        let state = self.filter.state();
        (state.u_hat, state.omega_hat)
    }
}

/// Taking a measurement in, in the sense of [`History`], is a prediction and an update, and
/// coasting is a prediction.
pub proof fn steps_are_predictions_and_updates<M: EskfModel>(
    process: Eskf<M>,
    state: EskfState<M>,
    input: EskfInput<M>,
    dt_us: u64,
    next: EskfState<M>,
)
    ensures
        steps_to(process, state, input, dt_us, next) ==> exists|before: EskfState<M>|
            process.stepped(state, input, dt_us, before, next),
        coasts_to(process, state, dt_us, next) ==> process.reckoned(state, dt_us, next),
{
}

/// Where the formulas are functions, dead reckoning leads to one state only.
pub proof fn prediction_is_determined<M: EskfModel>(
    model: M,
    q_cov: M::Cov,
    state: EskfState<M>,
    dt: M::Scalar,
    angle_a: M::Scalar,
    a: EskfState<M>,
    angle_b: M::Scalar,
    b: EskfState<M>,
)
    requires
        functional::<M>(),
        predicted(model, q_cov, state, dt, angle_a, a),
        predicted(model, q_cov, state, dt, angle_b, b),
    ensures
        a == b,
{
    assert(angle_a == angle_b);
}

/// Where the formulas are functions, one measurement leads to one state only.
pub proof fn correction_is_determined<M: EskfModel>(
    model: M,
    r_pixel: M::Noise,
    state: EskfState<M>,
    z_u: M::Vector,
    p_attitude: M::Noise,
    a: EskfState<M>,
    b: EskfState<M>,
)
    requires
        functional::<M>(),
        corrected(model, r_pixel, state, z_u, p_attitude, a),
        corrected(model, r_pixel, state, z_u, p_attitude, b),
    ensures
        a == b,
{
}

/// A filter whose formulas are functions is deterministic.
pub proof fn functional_filter_is_deterministic<M: EskfModel>(process: Eskf<M>)
    requires
        functional::<M>(),
    ensures
        deterministic(process),
{
    assert forall|
        state: EskfState<M>,
        input: EskfInput<M>,
        dt_us: u64,
        a: EskfState<M>,
        b: EskfState<M>,
    |
        #[trigger] steps_to(process, state, input, dt_us, a) && #[trigger] steps_to(
            process,
            state,
            input,
            dt_us,
            b,
        ) implies a == b by {
        steps_are_predictions_and_updates(process, state, input, dt_us, a);
        steps_are_predictions_and_updates(process, state, input, dt_us, b);
        let before_a = choose|before: EskfState<M>|
            process.stepped(state, input, dt_us, before, a);
        let before_b = choose|before: EskfState<M>|
            process.stepped(state, input, dt_us, before, b);
        let (dt_a, angle_a) = choose|dt: M::Scalar, angle: M::Scalar|
            {
                &&& call_ensures(M::time_step, (&process.model, dt_us), dt)
                &&& #[trigger] predicted(process.model, process.q_cov, state, dt, angle, before_a)
            };
        let (dt_b, angle_b) = choose|dt: M::Scalar, angle: M::Scalar|
            {
                &&& call_ensures(M::time_step, (&process.model, dt_us), dt)
                &&& #[trigger] predicted(process.model, process.q_cov, state, dt, angle, before_b)
            };
        assert(dt_a == dt_b);
        prediction_is_determined(
            process.model,
            process.q_cov,
            state,
            dt_a,
            angle_a,
            before_a,
            angle_b,
            before_b,
        );
        correction_is_determined(
            process.model,
            process.r_pixel,
            before_a,
            input.z_u,
            input.p_attitude,
            a,
            b,
        );
    }
}

/// The histories of filters.
pub open spec fn histories<M: EskfModel>(filters: Seq<OosmEskfLos<M>>) -> Seq<History<Eskf<M>>> {
    filters.map_values(|filter: OosmEskfLos<M>| filter.history())
}

/// Two filters that start alike and take the same measurements in, as many as they remember
/// and of different instants, end up in the same state at the latest of these instants,
/// whatever the order of arrival. `met_a` is the first filter as each measurement finds it,
/// `left_a` as it leaves it, and likewise for the second.
pub proof fn estimate_does_not_depend_on_arrival<M: EskfModel>(
    a: OosmEskfLos<M>,
    inputs_a: Seq<Recorded<EskfInput<M>>>,
    met_a: Seq<OosmEskfLos<M>>,
    left_a: Seq<OosmEskfLos<M>>,
    b: OosmEskfLos<M>,
    inputs_b: Seq<Recorded<EskfInput<M>>>,
    met_b: Seq<OosmEskfLos<M>>,
    left_b: Seq<OosmEskfLos<M>>,
)
    requires
        functional::<M>(),
        a.history().blank(),
        b.history().blank(),
        a.history().same_filter(b.history()),
        arrive(a.history(), inputs_a, histories(met_a), histories(left_a)),
        arrive(b.history(), inputs_b, histories(met_b), histories(left_b)),
        distinct_instants(inputs_a),
        distinct_instants(inputs_b),
        forall|e: Recorded<EskfInput<M>>| #[trigger]
            inputs_a.contains(e) <==> inputs_b.contains(e),
        0 < inputs_a.len() <= a.history().limit,
        0 < inputs_b.len() <= a.history().limit,
    ensures
        left_a.last().history() == left_b.last().history(),
        exists|i: int|
            0 <= i < inputs_a.len() && left_a.last().history().time == Some(
                #[trigger] inputs_a[i].timestamp,
            ),
        forall|i: int|
            0 <= i < inputs_a.len() ==> #[trigger] inputs_a[i].timestamp
                <= left_a.last().history().time->0,
{
    functional_filter_is_deterministic(a.history().process);
    same_inputs_lead_to_the_same_state(
        a.history(),
        inputs_a,
        histories(met_a),
        histories(left_a),
        b.history(),
        inputs_b,
        histories(met_b),
        histories(left_b),
    );
}

/// At the rate `omega`, the time `dt` makes the turn `rotation`, by `angle`.
pub open spec fn turns_by<M: EskfModel>(
    model: M,
    omega: M::Vector,
    dt: M::Scalar,
    angle: M::Scalar,
    rotation: M::Rotation,
) -> bool {
    &&& call_ensures(M::swept, (&model, omega, dt), angle)
    &&& call_ensures(M::is_turn, (&model, angle), true)
    &&& call_ensures(M::rotation, (&model, omega, angle), rotation)
}

/// A prediction either makes a turn or leaves direction and basis alone.
proof fn prediction_turns<M: EskfModel>(
    model: M,
    q_cov: M::Cov,
    state: EskfState<M>,
    dt: M::Scalar,
    angle: M::Scalar,
    next: EskfState<M>,
)
    requires
        predicted(model, q_cov, state, dt, angle, next),
    ensures
        call_ensures(M::is_turn, (&model, angle), false) && next.u_hat == state.u_hat && next.basis
            == state.basis || exists|rotation: M::Rotation|
            {
                &&& #[trigger] turns_by(model, state.omega_hat, dt, angle, rotation)
                &&& call_ensures(M::rotate, (&model, rotation, state.u_hat), next.u_hat)
                &&& call_ensures(M::rotate_basis, (&model, rotation, state.basis), next.basis)
            },
{
    if !(call_ensures(M::is_turn, (&model, angle), false) && next.u_hat == state.u_hat
        && next.basis == state.basis) {
        let rotation = choose|rotation: M::Rotation|
            {
                &&& #[trigger] call_ensures(
                    M::rotation,
                    (&model, state.omega_hat, angle),
                    rotation,
                )
                &&& call_ensures(M::rotate, (&model, rotation, state.u_hat), next.u_hat)
                &&& call_ensures(M::rotate_basis, (&model, rotation, state.basis), next.basis)
            };
        assert(turns_by(model, state.omega_hat, dt, angle, rotation));
    }
}

/// What vectors and bases mean: which vectors have unit length, which are square to each
/// other, which bases are orthonormal and tangential at which direction, and of which the
/// second vector is the cross product of the direction and the first. A basis can be
/// refined at a direction where its first vector is not along it.
pub ghost struct Geometry<M: EskfModel> {
    pub unit: spec_fn(M::Vector) -> bool,
    pub square: spec_fn(M::Vector, M::Vector) -> bool,
    pub tangent: spec_fn(M::Basis, M::Vector) -> bool,
    pub handed: spec_fn(M::Basis, M::Vector) -> bool,
    pub refinable: spec_fn(M::Basis, M::Vector) -> bool,
}

impl<M: EskfModel> Geometry<M> {
    /// Direction, rate and basis of `state` belong together.
    pub open spec fn holds(self, state: EskfState<M>) -> bool {
        &&& (self.unit)(state.u_hat)
        &&& (self.square)(state.omega_hat, state.u_hat)
        &&& (self.tangent)(state.basis, state.u_hat)
        &&& (self.handed)(state.basis, state.u_hat)
    }

    /// The formulas that a filter starts with are free of rounding.
    pub open spec fn exact_start(self, model: M) -> bool {
        &&& forall|u: M::Vector| #[trigger]
            call_ensures(M::forward, (&model,), u) ==> (self.unit)(u)
        &&& forall|u: M::Vector, zero: M::Vector| #[trigger]
            call_ensures(M::zero, (&model,), zero) && #[trigger] (self.unit)(u) ==> (self.square)(
                zero,
                u,
            )
        &&& forall|u: M::Vector, basis: M::Basis| #[trigger]
            is_tangent_basis(model, u, basis) && (self.unit)(u) ==> (self.tangent)(basis, u) && (
            self.handed)(basis, u)
    }

    /// Turns over the time `dt` are free of rounding: they keep lengths and angles, and leave
    /// their own axis alone.
    pub open spec fn exact_rotation(self, model: M, dt: M::Scalar) -> bool {
        &&& forall|
            omega: M::Vector,
            angle: M::Scalar,
            rotation: M::Rotation,
            u: M::Vector,
            r: M::Vector,
        |
            #[trigger] turns_by(model, omega, dt, angle, rotation) && #[trigger] call_ensures(
                M::rotate,
                (&model, rotation, u),
                r,
            ) && (self.unit)(u) ==> (self.unit)(r) && ((self.square)(omega, u) ==> (self.square)(
                omega,
                r,
            ))
        &&& forall|
            omega: M::Vector,
            angle: M::Scalar,
            rotation: M::Rotation,
            u: M::Vector,
            r: M::Vector,
            basis: M::Basis,
            b: M::Basis,
        |
            #[trigger] turns_by(model, omega, dt, angle, rotation) && #[trigger] call_ensures(
                M::rotate,
                (&model, rotation, u),
                r,
            ) && #[trigger] call_ensures(M::rotate_basis, (&model, rotation, basis), b) ==> {
                &&& (self.tangent)(basis, u) ==> (self.tangent)(b, r)
                &&& (self.handed)(basis, u) ==> (self.handed)(b, r)
            }
    }

    /// The formulas that inject an error into the state are free of rounding.
    pub open spec fn exact_injection(self, model: M) -> bool {
        &&& forall|
            u: M::Vector,
            basis: M::Basis,
            error: M::Error,
            tilt: M::Scalar,
            r: M::Vector,
        |
            #[trigger] call_ensures(M::tilted, (&model, u, basis, error, tilt), r) && call_ensures(
                M::tilt,
                (&model, error),
                tilt,
            ) && call_ensures(M::is_turn, (&model, tilt), true) && (self.unit)(u) && (
            self.tangent)(basis, u) ==> (self.unit)(r)
        &&& forall|
            omega: M::Vector,
            basis: M::Basis,
            error: M::Error,
            u: M::Vector,
            r: M::Vector,
        |
            #[trigger] call_ensures(M::corrected_rate, (&model, omega, basis, error, u), r)
                && (self.unit)(u) ==> (self.square)(r, u)
        &&& forall|basis: M::Basis, u: M::Vector, b: M::Basis| #[trigger]
            call_ensures(M::refined, (&model, basis, u), b) && (self.unit)(u) && (self.refinable)(
                basis,
                u,
            ) ==> (self.tangent)(b, u) && (self.handed)(b, u)
    }
}

/// But for rounding, a filter that has just been made or reset has a unit direction, a rate
/// square to it and an orthonormal, right-handed basis tangential at it.
pub proof fn start_lies_on_the_sphere<M: EskfModel>(
    geometry: Geometry<M>,
    model: M,
    state: EskfState<M>,
)
    requires
        geometry.exact_start(model),
        is_initial(model, state),
    ensures
        geometry.holds(state),
{
    assert(is_tangent_basis(model, state.u_hat, state.basis));
}

/// But for rounding, a prediction keeps it so.
pub proof fn predictions_stay_on_the_sphere<M: EskfModel>(
    geometry: Geometry<M>,
    model: M,
    q_cov: M::Cov,
    state: EskfState<M>,
    dt: M::Scalar,
    angle: M::Scalar,
    next: EskfState<M>,
)
    requires
        geometry.exact_rotation(model, dt),
        geometry.holds(state),
        predicted(model, q_cov, state, dt, angle, next),
    ensures
        geometry.holds(next),
        next.omega_hat == state.omega_hat,
{
    prediction_turns(model, q_cov, state, dt, angle, next);
}

/// But for rounding, a measurement keeps it so, as long as the basis can be refined at the
/// new direction.
pub proof fn measurements_stay_on_the_sphere<M: EskfModel>(
    geometry: Geometry<M>,
    model: M,
    r_pixel: M::Noise,
    state: EskfState<M>,
    z_u: M::Vector,
    p_attitude: M::Noise,
    next: EskfState<M>,
)
    requires
        geometry.exact_injection(model),
        geometry.holds(state),
        corrected(model, r_pixel, state, z_u, p_attitude, next),
        (geometry.refinable)(state.basis, next.u_hat),
    ensures
        geometry.holds(next),
{
}

/// The motion of a direction and of a basis at a given rate, over a given time.
pub ghost struct Motion<M: EskfModel> {
    pub vector: spec_fn(M::Vector, M::Scalar, M::Vector) -> M::Vector,
    pub basis: spec_fn(M::Vector, M::Scalar, M::Basis) -> M::Basis,
}

impl<M: EskfModel> Motion<M> {
    /// The formulas for a turn over the time `dt` follow this motion, and a turn that is not
    /// made would change nothing.
    pub open spec fn followed(self, model: M, dt: M::Scalar) -> bool {
        &&& forall|
            omega: M::Vector,
            angle: M::Scalar,
            rotation: M::Rotation,
            u: M::Vector,
            r: M::Vector,
        |
            #[trigger] turns_by(model, omega, dt, angle, rotation) && #[trigger] call_ensures(
                M::rotate,
                (&model, rotation, u),
                r,
            ) ==> r == (self.vector)(omega, dt, u)
        &&& forall|
            omega: M::Vector,
            angle: M::Scalar,
            rotation: M::Rotation,
            basis: M::Basis,
            r: M::Basis,
        |
            #[trigger] turns_by(model, omega, dt, angle, rotation) && #[trigger] call_ensures(
                M::rotate_basis,
                (&model, rotation, basis),
                r,
            ) ==> r == (self.basis)(omega, dt, basis)
        &&& forall|omega: M::Vector, angle: M::Scalar, u: M::Vector|
            #![trigger call_ensures(M::swept, (&model, omega, dt), angle), (self.vector)(omega, dt, u)]
            call_ensures(M::swept, (&model, omega, dt), angle) && call_ensures(
                M::is_turn,
                (&model, angle),
                false,
            ) ==> (self.vector)(omega, dt, u) == u
        &&& forall|omega: M::Vector, angle: M::Scalar, basis: M::Basis|
            #![trigger call_ensures(M::swept, (&model, omega, dt), angle), (self.basis)(omega, dt, basis)]
            call_ensures(M::swept, (&model, omega, dt), angle) && call_ensures(
                M::is_turn,
                (&model, angle),
                false,
            ) ==> (self.basis)(omega, dt, basis) == basis
    }

    /// The motion over `a` and then over `b` is that over `whole`.
    pub open spec fn adds_up(self, a: M::Scalar, b: M::Scalar, whole: M::Scalar) -> bool {
        &&& forall|omega: M::Vector, u: M::Vector|
            (self.vector)(omega, b, (self.vector)(omega, a, u)) == #[trigger] (self.vector)(
                omega,
                whole,
                u,
            )
        &&& forall|omega: M::Vector, basis: M::Basis|
            (self.basis)(omega, b, (self.basis)(omega, a, basis)) == #[trigger] (self.basis)(
                omega,
                whole,
                basis,
            )
    }
}

/// The covariance after `a` and then `b` is that after `whole`, as without process noise.
pub open spec fn propagation_adds_up<M: EskfModel>(
    model: M,
    q_cov: M::Cov,
    a: M::Scalar,
    b: M::Scalar,
    whole: M::Scalar,
) -> bool {
    forall|p: M::Cov, p_a: M::Cov, p_b: M::Cov, p_whole: M::Cov|
        #[trigger] call_ensures(M::propagate, (&model, p, q_cov, a), p_a)
            && #[trigger] call_ensures(M::propagate, (&model, p_a, q_cov, b), p_b)
            && #[trigger] call_ensures(M::propagate, (&model, p, q_cov, whole), p_whole) ==> p_b
            == p_whole
}

/// But for rounding, and for turns too small to be made, predicting in two parts or as a
/// whole comes to the same.
pub proof fn predictions_add_up<M: EskfModel>(
    motion: Motion<M>,
    model: M,
    q_cov: M::Cov,
    state: EskfState<M>,
    a: M::Scalar,
    angle_a: M::Scalar,
    middle: EskfState<M>,
    b: M::Scalar,
    angle_b: M::Scalar,
    end: EskfState<M>,
    whole: M::Scalar,
    angle: M::Scalar,
    direct: EskfState<M>,
)
    requires
        motion.followed(model, a),
        motion.followed(model, b),
        motion.followed(model, whole),
        motion.adds_up(a, b, whole),
        propagation_adds_up(model, q_cov, a, b, whole),
        predicted(model, q_cov, state, a, angle_a, middle),
        predicted(model, q_cov, middle, b, angle_b, end),
        predicted(model, q_cov, state, whole, angle, direct),
    ensures
        end == direct,
{
    let omega = state.omega_hat;
    prediction_follows_motion(motion, model, q_cov, state, a, angle_a, middle);
    prediction_follows_motion(motion, model, q_cov, middle, b, angle_b, end);
    prediction_follows_motion(motion, model, q_cov, state, whole, angle, direct);
    assert((motion.vector)(omega, whole, state.u_hat) == direct.u_hat);
    assert((motion.basis)(omega, whole, state.basis) == direct.basis);
}

/// A prediction moves direction and basis along.
proof fn prediction_follows_motion<M: EskfModel>(
    motion: Motion<M>,
    model: M,
    q_cov: M::Cov,
    state: EskfState<M>,
    dt: M::Scalar,
    angle: M::Scalar,
    next: EskfState<M>,
)
    requires
        motion.followed(model, dt),
        predicted(model, q_cov, state, dt, angle, next),
    ensures
        next.u_hat == (motion.vector)(state.omega_hat, dt, state.u_hat),
        next.basis == (motion.basis)(state.omega_hat, dt, state.basis),
{
    prediction_turns(model, q_cov, state, dt, angle, next);
}

/// A filter that knows nothing looks forward, at rest, with nothing known, and with a basis
/// spanned from an axis that its direction is not near: the first one, or else the second.
pub proof fn blank_filters_look_forward<M: EskfModel>(
    model: M,
    state: EskfState<M>,
    forward: M::Vector,
    zero: M::Vector,
    unknown: M::Cov,
    near: bool,
    first: M::Vector,
    second: M::Vector,
    basis: M::Basis,
)
    requires
        functional::<M>(),
        is_initial(model, state),
        call_ensures(M::forward, (&model,), forward),
        call_ensures(M::zero, (&model,), zero),
        call_ensures(M::unknown, (&model,), unknown),
        call_ensures(M::is_near_first_axis, (&model, forward), near),
        call_ensures(M::first_axis, (&model,), first),
        call_ensures(M::second_axis, (&model,), second),
        near ==> call_ensures(M::span, (&model, forward, second), basis),
        !near ==> call_ensures(M::span, (&model, forward, first), basis),
    ensures
        state == (EskfState::<M> {
            u_hat: forward,
            omega_hat: zero,
            basis,
            p_cov: unknown,
        }),
{
}

/// Dead reckoning turns direction and basis by the angle swept at the known rate in the whole
/// time, where that is a turn, leaves the rate alone, and lets the covariance grow over the
/// same time.
pub proof fn predictions_turn_at_the_known_rate<M: EskfModel>(
    model: M,
    q_cov: M::Cov,
    state: EskfState<M>,
    dt: M::Scalar,
    next: EskfState<M>,
    angle: M::Scalar,
    rotation: M::Rotation,
    u_hat: M::Vector,
    basis: M::Basis,
    p_cov: M::Cov,
)
    requires
        functional::<M>(),
        exists|angle: M::Scalar| predicted(model, q_cov, state, dt, angle, next),
        call_ensures(M::swept, (&model, state.omega_hat, dt), angle),
        call_ensures(M::rotation, (&model, state.omega_hat, angle), rotation),
        call_ensures(M::rotate, (&model, rotation, state.u_hat), u_hat),
        call_ensures(M::rotate_basis, (&model, rotation, state.basis), basis),
        call_ensures(M::propagate, (&model, state.p_cov, q_cov, dt), p_cov),
    ensures
        call_ensures(M::is_turn, (&model, angle), true) ==> next == (EskfState::<M> {
            u_hat,
            omega_hat: state.omega_hat,
            basis,
            p_cov,
        }),
        call_ensures(M::is_turn, (&model, angle), false) ==> next == (EskfState::<M> {
            u_hat: state.u_hat,
            omega_hat: state.omega_hat,
            basis: state.basis,
            p_cov,
        }),
{
}

/// The error that a measurement injects is the gain of the covariance and basis of the state
/// itself, applied to the difference between measured and known direction; the same gain
/// shrinks that covariance. Direction and rate are corrected by that error, in the basis of
/// the state, and the basis is made tangential at the new direction. Where the covariance of
/// the innovation is singular, nothing changes.
pub proof fn measurements_inject_the_gain_of_the_state<M: EskfModel>(
    model: M,
    r_pixel: M::Noise,
    state: EskfState<M>,
    z_u: M::Vector,
    p_attitude: M::Noise,
    next: EskfState<M>,
    inverse: Option<M::Noise>,
    gain: M::Gain,
    error: M::Error,
    tilt: M::Scalar,
    tilts: bool,
    tilted: M::Vector,
    omega_hat: M::Vector,
    p_cov: M::Cov,
    basis: M::Basis,
)
    requires
        functional::<M>(),
        corrected(model, r_pixel, state, z_u, p_attitude, next),
        call_ensures(
            M::innovation_inverse,
            (&model, state.p_cov, state.basis, z_u, r_pixel, p_attitude),
            inverse,
        ),
        inverse is Some ==> {
            let u_hat = if tilts { tilted } else { state.u_hat };
            &&& call_ensures(M::gain, (&model, state.p_cov, state.basis, inverse->0), gain)
            &&& call_ensures(M::error, (&model, gain, z_u, state.u_hat), error)
            &&& call_ensures(M::tilt, (&model, error), tilt)
            &&& call_ensures(M::is_turn, (&model, tilt), tilts)
            &&& call_ensures(
                M::tilted,
                (&model, state.u_hat, state.basis, error, tilt),
                tilted,
            )
            &&& call_ensures(
                M::corrected_rate,
                (&model, state.omega_hat, state.basis, error, u_hat),
                omega_hat,
            )
            &&& call_ensures(M::shrunk, (&model, state.p_cov, gain, state.basis), p_cov)
            &&& call_ensures(M::refined, (&model, state.basis, u_hat), basis)
        },
    ensures
        next == match inverse {
            Some(_) => EskfState::<M> {
                u_hat: if tilts { tilted } else { state.u_hat },
                omega_hat,
                basis,
                p_cov,
            },
            None => state,
        },
{
    if inverse is None {
        if next != state {
            let (other, gain, error, tilt) = choose|
                other: M::Noise,
                gain: M::Gain,
                error: M::Error,
                tilt: M::Scalar,
            |
                {
                    &&& call_ensures(
                        M::innovation_inverse,
                        (&model, state.p_cov, state.basis, z_u, r_pixel, p_attitude),
                        Some(other),
                    )
                    &&& #[trigger] measured(model, state, z_u, other, gain, error, tilt, next)
                };
            assert(inverse == Some(other));
        }
    }
}

/// The reading of a filter along one line: where a direction lies and how fast it moves along
/// it, the variances of that angle and rate and their covariance, the variance of a noise
/// (or, of an inverse, its reciprocal), and what gains and errors come to for angle and rate.
pub ghost struct Reading<M: EskfModel> {
    pub at: spec_fn(M::Vector) -> real,
    pub rate: spec_fn(M::Vector) -> real,
    pub time: spec_fn(M::Scalar) -> real,
    pub angle_var: spec_fn(M::Cov) -> real,
    pub cross: spec_fn(M::Cov) -> real,
    pub rate_var: spec_fn(M::Cov) -> real,
    pub noise: spec_fn(M::Noise) -> real,
    pub angle_gain: spec_fn(M::Gain) -> real,
    pub rate_gain: spec_fn(M::Gain) -> real,
    pub angle_error: spec_fn(M::Error) -> real,
    pub rate_error: spec_fn(M::Error) -> real,
}

impl<M: EskfModel> Reading<M> {
    /// The formulas for a measurement do scalar arithmetic along the line.
    pub open spec fn measures(self, model: M) -> bool {
        &&& forall|
            p: M::Cov,
            basis: M::Basis,
            z: M::Vector,
            r: M::Noise,
            a: M::Noise,
            inverse: Option<M::Noise>,
        | #[trigger]
            call_ensures(M::innovation_inverse, (&model, p, basis, z, r, a), inverse)
                && inverse is Some ==> (self.noise)(inverse->0) * ((self.angle_var)(p) + (
            self.noise)(r) + (self.noise)(a)) == 1real
        &&& forall|p: M::Cov, basis: M::Basis, inverse: M::Noise, k: M::Gain| #[trigger]
            call_ensures(M::gain, (&model, p, basis, inverse), k) ==> {
                &&& (self.angle_gain)(k) == (self.angle_var)(p) * (self.noise)(inverse)
                &&& (self.rate_gain)(k) == (self.cross)(p) * (self.noise)(inverse)
            }
        &&& forall|k: M::Gain, z: M::Vector, u: M::Vector, e: M::Error| #[trigger]
            call_ensures(M::error, (&model, k, z, u), e) ==> {
                &&& (self.angle_error)(e) == (self.angle_gain)(k) * ((self.at)(z) - (self.at)(u))
                &&& (self.rate_error)(e) == (self.rate_gain)(k) * ((self.at)(z) - (self.at)(u))
            }
        &&& forall|u: M::Vector, basis: M::Basis, e: M::Error, tilt: M::Scalar, r: M::Vector|
            #[trigger] call_ensures(M::tilted, (&model, u, basis, e, tilt), r) ==> (self.at)(r)
                == (self.at)(u) + (self.angle_error)(e)
        &&& forall|e: M::Error, tilt: M::Scalar| #[trigger]
            call_ensures(M::tilt, (&model, e), tilt) && call_ensures(
                M::is_turn,
                (&model, tilt),
                false,
            ) ==> (self.angle_error)(e) == 0real
        &&& forall|omega: M::Vector, basis: M::Basis, e: M::Error, u: M::Vector, r: M::Vector|
            #[trigger] call_ensures(M::corrected_rate, (&model, omega, basis, e, u), r) ==> (
            self.rate)(r) == (self.rate)(omega) + (self.rate_error)(e)
        &&& forall|p: M::Cov, k: M::Gain, basis: M::Basis, r: M::Cov| #[trigger]
            call_ensures(M::shrunk, (&model, p, k, basis), r) ==> {
                &&& (self.angle_var)(r) == (self.angle_var)(p) - (self.angle_gain)(k) * (
                self.angle_var)(p)
                &&& (self.cross)(r) == (self.cross)(p) - (self.angle_gain)(k) * (self.cross)(p)
                &&& (self.rate_var)(r) == (self.rate_var)(p) - (self.rate_gain)(k) * (self.cross)(p)
            }
    }

    /// The formulas for a prediction do scalar arithmetic along the line.
    pub open spec fn predicts(self, model: M) -> bool {
        &&& forall|
            omega: M::Vector,
            dt: M::Scalar,
            angle: M::Scalar,
            rotation: M::Rotation,
            u: M::Vector,
            r: M::Vector,
        |
            #[trigger] call_ensures(M::swept, (&model, omega, dt), angle)
                && #[trigger] call_ensures(M::rotation, (&model, omega, angle), rotation)
                && #[trigger] call_ensures(M::rotate, (&model, rotation, u), r) ==> (self.at)(r)
                == (self.at)(u) + (self.rate)(omega) * (self.time)(dt)
        &&& forall|omega: M::Vector, dt: M::Scalar, angle: M::Scalar| #[trigger]
            call_ensures(M::swept, (&model, omega, dt), angle) && call_ensures(
                M::is_turn,
                (&model, angle),
                false,
            ) ==> (self.rate)(omega) * (self.time)(dt) == 0real
        &&& forall|p: M::Cov, q: M::Cov, dt: M::Scalar, r: M::Cov| #[trigger]
            call_ensures(M::propagate, (&model, p, q, dt), r) ==> {
                let t = (self.time)(dt);
                &&& (self.angle_var)(r) == (self.angle_var)(p) + 2real * t * (self.cross)(p) + t * t
                    * (self.rate_var)(p) + (self.angle_var)(q)
                &&& (self.cross)(r) == (self.cross)(p) + t * (self.rate_var)(p) + (self.cross)(q)
                &&& (self.rate_var)(r) == (self.rate_var)(p) + (self.rate_var)(q)
            }
    }
}

/// The innovation of a measurement has a covariance that is not singular.
pub open spec fn informs<M: EskfModel>(
    model: M,
    r_pixel: M::Noise,
    state: EskfState<M>,
    z_u: M::Vector,
    p_attitude: M::Noise,
) -> bool {
    exists|inverse: M::Noise| #[trigger]
        call_ensures(
            M::innovation_inverse,
            (&model, state.p_cov, state.basis, z_u, r_pixel, p_attitude),
            Some(inverse),
        )
}

/// Along a line on which the formulas do scalar arithmetic, a measurement is weighed against
/// what is known by the variances of both: with the variance `p` of the known angle, its
/// covariance `c` with the rate and the variance `r` of the measurement, the correction of the
/// angle is `p / (p + r)` of the difference, that of the rate is `c / (p + r)` of it, and
/// what is left of the variance and the covariance is `r / (p + r)` of them.
pub proof fn measurements_are_weighed_by_variance<M: EskfModel>(
    reading: Reading<M>,
    model: M,
    r_pixel: M::Noise,
    state: EskfState<M>,
    z_u: M::Vector,
    p_attitude: M::Noise,
    next: EskfState<M>,
)
    requires
        functional::<M>(),
        reading.measures(model),
        informs(model, r_pixel, state, z_u, p_attitude),
        corrected(model, r_pixel, state, z_u, p_attitude, next),
    ensures
        ({
            let p = (reading.angle_var)(state.p_cov);
            let c = (reading.cross)(state.p_cov);
            let r = (reading.noise)(r_pixel) + (reading.noise)(p_attitude);
            let off = (reading.at)(z_u) - (reading.at)(state.u_hat);
            &&& ((reading.at)(next.u_hat) - (reading.at)(state.u_hat)) * (p + r) == p * off
            &&& ((reading.rate)(next.omega_hat) - (reading.rate)(state.omega_hat)) * (p + r) == c
                * off
            &&& (reading.angle_var)(next.p_cov) * (p + r) == p * r
            &&& (reading.cross)(next.p_cov) * (p + r) == c * r
            &&& ((reading.rate_var)(state.p_cov) - (reading.rate_var)(next.p_cov)) * (p + r) == c
                * c
            &&& p + r != 0real
        }),
{
    let p = (reading.angle_var)(state.p_cov);
    let c = (reading.cross)(state.p_cov);
    let r = (reading.noise)(r_pixel) + (reading.noise)(p_attitude);
    let off = (reading.at)(z_u) - (reading.at)(state.u_hat);
    let (inverse, gain, error, tilt) = choose|
        inverse: M::Noise,
        gain: M::Gain,
        error: M::Error,
        tilt: M::Scalar,
    |
        {
            &&& call_ensures(
                M::innovation_inverse,
                (&model, state.p_cov, state.basis, z_u, r_pixel, p_attitude),
                Some(inverse),
            )
            &&& #[trigger] measured(model, state, z_u, inverse, gain, error, tilt, next)
        };
    let known = choose|inverse: M::Noise| #[trigger]
        call_ensures(
            M::innovation_inverse,
            (&model, state.p_cov, state.basis, z_u, r_pixel, p_attitude),
            Some(inverse),
        );
    assert(Some(known) == Some(inverse));
    let s = (reading.noise)(inverse);
    let k = (reading.angle_gain)(gain);
    let w = (reading.rate_gain)(gain);
    assert(s * (p + r) == 1real);
    share(p, s, p + r, off);
    share(c, s, p + r, off);
    share(c, s, p + r, c);
    rest(p, r, s, p);
    rest(p, r, s, c);
    assert(k == p * s && w == c * s);
    assert((reading.angle_error)(error) == k * off);
    assert((reading.at)(next.u_hat) - (reading.at)(state.u_hat) == k * off);
    assert((reading.rate)(next.omega_hat) - (reading.rate)(state.omega_hat) == w * off);
    assert((reading.angle_var)(next.p_cov) == p - k * p);
    assert((reading.cross)(next.p_cov) == c - k * c);
    assert((reading.rate_var)(state.p_cov) - (reading.rate_var)(next.p_cov) == w * c);
}

/// Along a line on which the formulas do scalar arithmetic, a measurement never overshoots:
/// the new angle lies between the known and the measured one, and is known no worse than
/// before.
pub proof fn measurements_do_not_overshoot<M: EskfModel>(
    reading: Reading<M>,
    model: M,
    r_pixel: M::Noise,
    state: EskfState<M>,
    z_u: M::Vector,
    p_attitude: M::Noise,
    next: EskfState<M>,
)
    requires
        functional::<M>(),
        reading.measures(model),
        informs(model, r_pixel, state, z_u, p_attitude),
        corrected(model, r_pixel, state, z_u, p_attitude, next),
        (reading.angle_var)(state.p_cov) >= 0real,
        (reading.noise)(r_pixel) + (reading.noise)(p_attitude) >= 0real,
    ensures
        (reading.at)(state.u_hat) <= (reading.at)(z_u) ==> (reading.at)(state.u_hat) <= (
        reading.at)(next.u_hat) <= (reading.at)(z_u),
        (reading.at)(z_u) <= (reading.at)(state.u_hat) ==> (reading.at)(z_u) <= (reading.at)(
            next.u_hat,
        ) <= (reading.at)(state.u_hat),
        0real <= (reading.angle_var)(next.p_cov) <= (reading.angle_var)(state.p_cov),
        (reading.angle_var)(next.p_cov) <= (reading.noise)(r_pixel) + (reading.noise)(p_attitude),
{
    measurements_are_weighed_by_variance(
        reading,
        model,
        r_pixel,
        state,
        z_u,
        p_attitude,
        next,
    );
    let p = (reading.angle_var)(state.p_cov);
    let r = (reading.noise)(r_pixel) + (reading.noise)(p_attitude);
    let u = (reading.at)(state.u_hat);
    let z = (reading.at)(z_u);
    let x = (reading.at)(next.u_hat);
    let v = (reading.angle_var)(next.p_cov);
    share_is_a_part(p, r, z - u, x - u);
    share_is_a_part(p, r, r, v);
    reorder(p, r, 1real);
    share_is_a_part(r, p, p, v);
}

/// Along a line on which the formulas do scalar arithmetic, the better a state is known, the
/// less the same measurement corrects it.
pub proof fn better_known_states_are_corrected_less<M: EskfModel>(
    reading: Reading<M>,
    model: M,
    r_pixel: M::Noise,
    z_u: M::Vector,
    p_attitude: M::Noise,
    better: EskfState<M>,
    next_b: EskfState<M>,
    worse: EskfState<M>,
    next_w: EskfState<M>,
)
    requires
        functional::<M>(),
        reading.measures(model),
        informs(model, r_pixel, better, z_u, p_attitude),
        informs(model, r_pixel, worse, z_u, p_attitude),
        corrected(model, r_pixel, better, z_u, p_attitude, next_b),
        corrected(model, r_pixel, worse, z_u, p_attitude, next_w),
        (reading.at)(better.u_hat) == (reading.at)(worse.u_hat),
        0real <= (reading.angle_var)(better.p_cov) <= (reading.angle_var)(worse.p_cov),
        (reading.noise)(r_pixel) + (reading.noise)(p_attitude) > 0real,
    ensures
        (reading.at)(worse.u_hat) <= (reading.at)(z_u) ==> (reading.at)(next_b.u_hat) <= (
        reading.at)(next_w.u_hat),
        (reading.at)(z_u) <= (reading.at)(worse.u_hat) ==> (reading.at)(next_w.u_hat) <= (
        reading.at)(next_b.u_hat),
        (reading.angle_var)(next_b.p_cov) <= (reading.angle_var)(next_w.p_cov),
{
    measurements_are_weighed_by_variance(
        reading,
        model,
        r_pixel,
        better,
        z_u,
        p_attitude,
        next_b,
    );
    measurements_are_weighed_by_variance(
        reading,
        model,
        r_pixel,
        worse,
        z_u,
        p_attitude,
        next_w,
    );
    let p = (reading.angle_var)(better.p_cov);
    let q = (reading.angle_var)(worse.p_cov);
    let r = (reading.noise)(r_pixel) + (reading.noise)(p_attitude);
    let off = (reading.at)(z_u) - (reading.at)(worse.u_hat);
    let b = (reading.at)(next_b.u_hat) - (reading.at)(worse.u_hat);
    let w = (reading.at)(next_w.u_hat) - (reading.at)(worse.u_hat);
    let v_b = (reading.angle_var)(next_b.p_cov);
    let v_w = (reading.angle_var)(next_w.p_cov);
    if off >= 0real {
        larger_variance_weighs_more(p, q, r, off, b, w);
    }
    if off <= 0real {
        larger_variance_weighs_more_back(p, q, r, off, b, w);
    }
    larger_variance_weighs_more(p, q, r, r, v_b, v_w);
}

/// Along a line on which the formulas do scalar arithmetic, dead reckoning moves the angle on
/// at the known rate, for all of the time, and the variances grow as those of a motion at a
/// steady rate do, by the process noise.
pub proof fn predictions_move_at_a_steady_rate<M: EskfModel>(
    reading: Reading<M>,
    model: M,
    q_cov: M::Cov,
    state: EskfState<M>,
    dt: M::Scalar,
    next: EskfState<M>,
)
    requires
        reading.predicts(model),
        exists|angle: M::Scalar| predicted(model, q_cov, state, dt, angle, next),
    ensures
        ({
            let t = (reading.time)(dt);
            &&& (reading.at)(next.u_hat) == (reading.at)(state.u_hat) + (reading.rate)(
                state.omega_hat,
            ) * t
            &&& (reading.rate)(next.omega_hat) == (reading.rate)(state.omega_hat)
            &&& (reading.angle_var)(next.p_cov) == (reading.angle_var)(state.p_cov) + 2real * t * (
            reading.cross)(state.p_cov) + t * t * (reading.rate_var)(state.p_cov) + (
            reading.angle_var)(q_cov)
            &&& (reading.cross)(next.p_cov) == (reading.cross)(state.p_cov) + t * (
            reading.rate_var)(state.p_cov) + (reading.cross)(q_cov)
            &&& (reading.rate_var)(next.p_cov) == (reading.rate_var)(state.p_cov) + (
            reading.rate_var)(q_cov)
        }),
{
}

/// Coasting over any number of microseconds is one prediction over exactly that time, and
/// taking a measurement in is that prediction and the update of a filter in the predicted
/// state. `ahead` and `updated` are that filter after the one and the other.
pub proof fn steps_are_those_of_the_filter<M: EskfModel>(
    process: Eskf<M>,
    filter: EskfLos<M>,
    input: EskfInput<M>,
    dt_us: u64,
    dt: M::Scalar,
    ahead: EskfLos<M>,
    updated: EskfLos<M>,
    coasted: EskfState<M>,
    stepped: EskfState<M>,
)
    requires
        functional::<M>(),
        process == (Eskf { model: filter.model, q_cov: filter.q_cov, r_pixel: filter.r_pixel }),
        call_ensures(M::time_step, (&filter.model, dt_us), dt),
        ahead.same_filter(filter),
        exists|angle: M::Scalar|
            predicted(
                filter.model,
                filter.q_cov,
                filter.spec_state(),
                dt,
                angle,
                ahead.spec_state(),
            ),
        updated.same_filter(ahead),
        corrected(
            ahead.model,
            ahead.r_pixel,
            ahead.spec_state(),
            input.z_u,
            input.p_attitude,
            updated.spec_state(),
        ),
        coasts_to(process, filter.spec_state(), dt_us, coasted),
        steps_to(process, filter.spec_state(), input, dt_us, stepped),
    ensures
        coasted == ahead.spec_state(),
        stepped == updated.spec_state(),
{
    let state = filter.spec_state();
    let angle = choose|angle: M::Scalar|
        predicted(filter.model, filter.q_cov, state, dt, angle, ahead.spec_state());
    steps_are_predictions_and_updates(process, state, input, dt_us, coasted);
    steps_are_predictions_and_updates(process, state, input, dt_us, stepped);
    let (dt_c, angle_c) = choose|dt: M::Scalar, angle: M::Scalar|
        {
            &&& call_ensures(M::time_step, (&process.model, dt_us), dt)
            &&& #[trigger] predicted(process.model, process.q_cov, state, dt, angle, coasted)
        };
    assert(dt_c == dt);
    prediction_is_determined(
        process.model,
        process.q_cov,
        state,
        dt,
        angle,
        ahead.spec_state(),
        angle_c,
        coasted,
    );
    let before = choose|before: EskfState<M>| process.stepped(state, input, dt_us, before, stepped);
    let (dt_s, angle_s) = choose|dt: M::Scalar, angle: M::Scalar|
        {
            &&& call_ensures(M::time_step, (&process.model, dt_us), dt)
            &&& #[trigger] predicted(process.model, process.q_cov, state, dt, angle, before)
        };
    assert(dt_s == dt);
    prediction_is_determined(
        process.model,
        process.q_cov,
        state,
        dt,
        angle,
        ahead.spec_state(),
        angle_s,
        before,
    );
    correction_is_determined(
        process.model,
        process.r_pixel,
        before,
        input.z_u,
        input.p_attitude,
        stepped,
        updated.spec_state(),
    );
}

/// Where predictions add up, coasting over some microseconds and then some more is coasting
/// over all of them.
pub proof fn coasting_adds_up<M: EskfModel>(
    motion: Motion<M>,
    process: Eskf<M>,
    state: EskfState<M>,
    a_us: u64,
    a: M::Scalar,
    middle: EskfState<M>,
    b_us: u64,
    b: M::Scalar,
    end: EskfState<M>,
    whole_us: u64,
    whole: M::Scalar,
    direct: EskfState<M>,
)
    requires
        functional::<M>(),
        a_us + b_us == whole_us,
        call_ensures(M::time_step, (&process.model, a_us), a),
        call_ensures(M::time_step, (&process.model, b_us), b),
        call_ensures(M::time_step, (&process.model, whole_us), whole),
        motion.followed(process.model, a),
        motion.followed(process.model, b),
        motion.followed(process.model, whole),
        motion.adds_up(a, b, whole),
        propagation_adds_up(process.model, process.q_cov, a, b, whole),
        coasts_to(process, state, a_us, middle),
        coasts_to(process, middle, b_us, end),
        coasts_to(process, state, whole_us, direct),
    ensures
        end == direct,
{
    let angle_a = coast_predicts(process, state, a_us, a, middle);
    let angle_b = coast_predicts(process, middle, b_us, b, end);
    let angle = coast_predicts(process, state, whole_us, whole, direct);
    predictions_add_up(
        motion,
        process.model,
        process.q_cov,
        state,
        a,
        angle_a,
        middle,
        b,
        angle_b,
        end,
        whole,
        angle,
        direct,
    );
}

/// Coasting is a prediction over the time that it takes.
proof fn coast_predicts<M: EskfModel>(
    process: Eskf<M>,
    state: EskfState<M>,
    dt_us: u64,
    dt: M::Scalar,
    next: EskfState<M>,
) -> (angle: M::Scalar)
    requires
        functional::<M>(),
        call_ensures(M::time_step, (&process.model, dt_us), dt),
        coasts_to(process, state, dt_us, next),
    ensures
        predicted(process.model, process.q_cov, state, dt, angle, next),
{
    let (other, angle) = choose|dt: M::Scalar, angle: M::Scalar|
        {
            &&& call_ensures(M::time_step, (&process.model, dt_us), dt)
            &&& #[trigger] predicted(process.model, process.q_cov, state, dt, angle, next)
        };
    assert(other == dt);
    angle
}

/// A filter whose last measurement was of instant `last`, and that is asked for a later instant
/// than any before, gives direction and rate of the state after that measurement, predicted
/// over all the time since then.
pub proof fn extrapolation_covers_the_whole_time<M: EskfModel>(
    filter: OosmEskfLos<M>,
    now: u64,
    next: OosmEskfLos<M>,
    last: u64,
    dt_us: u64,
    dt: M::Scalar,
    angle: M::Scalar,
    ahead: EskfState<M>,
)
    requires
        functional::<M>(),
        filter.wf(),
        filter.history().snapshots.len() > 0,
        filter.history().snapshots.last().timestamp == last,
        filter.history().time matches Some(time) && time < now,
        last + dt_us == now,
        filter.history().coasted(now, next.history()),
        call_ensures(M::time_step, (&filter.history().process.model, dt_us), dt),
        predicted(
            filter.history().process.model,
            filter.history().process.q_cov,
            filter.history().snapshots.last().state,
            dt,
            angle,
            ahead,
        ),
    ensures
        next.history().state == ahead,
        next.history().snapshots == filter.history().snapshots,
        next.history().inputs == filter.history().inputs,
{
    let process = filter.history().process;
    let state = filter.history().snapshots.last().state;
    let other = coast_predicts(process, state, dt_us, dt, next.history().state);
    prediction_is_determined(
        process.model,
        process.q_cov,
        state,
        dt,
        angle,
        ahead,
        other,
        next.history().state,
    );
}

/// A measurement that is not late is taken in by predicting the state after the last one over
/// all the time in between, `ahead`, and updating it there, `updated`. A first measurement
/// finds the filter as it started.
pub proof fn punctual_measurements_predict_and_update<M: EskfModel>(
    filter: OosmEskfLos<M>,
    timestamp: u64,
    input: EskfInput<M>,
    next: OosmEskfLos<M>,
    dt_us: u64,
    dt: M::Scalar,
    angle: M::Scalar,
    ahead: EskfState<M>,
    updated: EskfState<M>,
)
    requires
        functional::<M>(),
        filter.wf(),
        filter.history().snapshots.len() > 0 ==> filter.history().snapshots.last().timestamp + dt_us
            == timestamp,
        filter.history().snapshots.len() == 0 ==> dt_us == 0,
        filter.history().fused(timestamp, input, next.history()),
        call_ensures(M::time_step, (&filter.history().process.model, dt_us), dt),
        predicted(
            filter.history().process.model,
            filter.history().process.q_cov,
            if filter.history().snapshots.len() > 0 {
                filter.history().snapshots.last().state
            } else {
                filter.history().initial
            },
            dt,
            angle,
            ahead,
        ),
        corrected(
            filter.history().process.model,
            filter.history().process.r_pixel,
            ahead,
            input.z_u,
            input.p_attitude,
            updated,
        ),
    ensures
        next.history().state == updated,
        next.history().time == Some(timestamp),
        next.history().snapshots.len() > 0,
        next.history().snapshots.last() == (Snapshot { timestamp, state: updated }),
        next.history().inputs.last() == (Recorded { timestamp, input }),
{
    let h = filter.history();
    let process = h.process;
    let state = if h.snapshots.len() > 0 {
        h.snapshots.last().state
    } else {
        h.initial
    };
    assert(!h.is_late(timestamp));
    assert(steps_to(process, state, input, dt_us, next.history().state));
    steps_are_predictions_and_updates(process, state, input, dt_us, next.history().state);
    let before = choose|before: EskfState<M>|
        process.stepped(state, input, dt_us, before, next.history().state);
    let (other, angle_b) = choose|dt: M::Scalar, angle: M::Scalar|
        {
            &&& call_ensures(M::time_step, (&process.model, dt_us), dt)
            &&& #[trigger] predicted(process.model, process.q_cov, state, dt, angle, before)
        };
    assert(other == dt);
    prediction_is_determined(
        process.model,
        process.q_cov,
        state,
        dt,
        angle,
        ahead,
        angle_b,
        before,
    );
    correction_is_determined(
        process.model,
        process.r_pixel,
        ahead,
        input.z_u,
        input.p_attitude,
        updated,
        next.history().state,
    );
}

/// Along a line on which the formulas do scalar arithmetic, the direction that a filter gives
/// for a later instant than any before is the last one known, moved on at the last rate known
/// for all the time since its measurement: `seconds` for each microsecond.
pub proof fn extrapolated_directions_keep_moving<M: EskfModel>(
    reading: Reading<M>,
    seconds: real,
    filter: OosmEskfLos<M>,
    now: u64,
    next: OosmEskfLos<M>,
)
    requires
        functional::<M>(),
        reading.predicts(filter.history().process.model),
        forall|dt_us: u64, dt: M::Scalar| #[trigger]
            call_ensures(M::time_step, (&filter.history().process.model, dt_us), dt) ==> (
            reading.time)(dt) == seconds * (dt_us as real),
        filter.wf(),
        filter.history().snapshots.len() > 0,
        filter.history().time matches Some(time) && time < now,
        filter.history().coasted(now, next.history()),
    ensures
        ({
            let last = filter.history().snapshots.last();
            &&& (reading.at)(next.history().state.u_hat) == (reading.at)(last.state.u_hat) + (
            reading.rate)(last.state.omega_hat) * (seconds * ((now - last.timestamp) as real))
            &&& next.history().state.omega_hat == last.state.omega_hat
        }),
{
    let process = filter.history().process;
    let last = filter.history().snapshots.last();
    let dt_us = (now - last.timestamp) as u64;
    let (dt, angle) = choose|dt: M::Scalar, angle: M::Scalar|
        {
            &&& call_ensures(M::time_step, (&process.model, dt_us), dt)
            &&& #[trigger] predicted(
                process.model,
                process.q_cov,
                last.state,
                dt,
                angle,
                next.history().state,
            )
        };
    predictions_move_at_a_steady_rate(
        reading,
        process.model,
        process.q_cov,
        last.state,
        dt,
        next.history().state,
    );
    assert(dt_us as real == (now - last.timestamp) as real);
}

/// A new filter has the process noise it is told, measurement noise of the variance it is told in
/// all directions, and knows nothing.
pub proof fn new_filters_know_nothing<M: EskfModel>(
    model: M,
    q_cov: M::Cov,
    r_pixel: M::Scalar,
    r: EskfLos<M>,
    noise: M::Noise,
    forward: M::Vector,
    zero: M::Vector,
    unknown: M::Cov,
)
    requires
        functional::<M>(),
        call_ensures(EskfLos::<M>::new, (model, q_cov, r_pixel), r),
        call_ensures(M::isotropic, (&model, r_pixel), noise),
        call_ensures(M::forward, (&model,), forward),
        call_ensures(M::zero, (&model,), zero),
        call_ensures(M::unknown, (&model,), unknown),
    ensures
        r.model == model,
        r.q_cov == q_cov,
        r.r_pixel == noise,
        r.u_hat == forward,
        r.omega_hat == zero,
        r.p_cov == unknown,
{
}

/// A filter for late measurements starts where the filter it is made from is, with its noise and
/// formulas, room for as many measurements as it is told, and none yet.
pub proof fn late_filters_start_where_theirs_is<M: EskfModel>(
    filter: EskfLos<M>,
    max_history: usize,
    r: OosmEskfLos<M>,
)
    requires
        max_history >= 1,
        call_ensures(OosmEskfLos::<M>::new, (filter, max_history), r),
    ensures
        r.history().inputs.len() == 0,
        r.history().snapshots.len() == 0,
        r.history().time is None,
        r.history().limit == max_history,
        r.history().initial == r.history().state,
        r.history().state == (EskfState::<M> {
            u_hat: filter.u_hat,
            omega_hat: filter.omega_hat,
            basis: filter.basis,
            p_cov: filter.p_cov,
        }),
        r.history().process == (Eskf {
            model: filter.model,
            q_cov: filter.q_cov,
            r_pixel: filter.r_pixel,
        }),
{
}

/// A call of [`EskfLos::predict`] turns direction and basis by the angle swept at the known rate in
/// all of `dt`, where that is a turn, lets the covariance grow over the same time, and changes
/// nothing else.
pub proof fn predicting_turns_the_filter<M: EskfModel>(
    filter: &mut EskfLos<M>,
    dt: M::Scalar,
    angle: M::Scalar,
    rotation: M::Rotation,
    u_hat: M::Vector,
    basis: M::Basis,
    p_cov: M::Cov,
)
    requires
        functional::<M>(),
        call_ensures(EskfLos::<M>::predict, (filter, dt), ()),
        call_ensures(M::swept, (&old(filter).model, old(filter).omega_hat, dt), angle),
        call_ensures(M::rotation, (&old(filter).model, old(filter).omega_hat, angle), rotation),
        call_ensures(M::rotate, (&old(filter).model, rotation, old(filter).u_hat), u_hat),
        call_ensures(M::rotate_basis, (&old(filter).model, rotation, old(filter).basis), basis),
        call_ensures(
            M::propagate,
            (&old(filter).model, old(filter).p_cov, old(filter).q_cov, dt),
            p_cov,
        ),
    ensures
        call_ensures(M::is_turn, (&old(filter).model, angle), true) ==> *final(filter) == (EskfLos {
            u_hat,
            basis,
            p_cov,
            ..*old(filter)
        }),
        call_ensures(M::is_turn, (&old(filter).model, angle), false) ==> *final(filter)
            == (EskfLos { p_cov, ..*old(filter) }),
{
    predictions_turn_at_the_known_rate(
        old(filter).model,
        old(filter).q_cov,
        old(filter).spec_state(),
        dt,
        final(filter).spec_state(),
        angle,
        rotation,
        u_hat,
        basis,
        p_cov,
    );
}

/// A call of [`EskfLos::update`] injects the gain of the filter's own covariance and basis, applied
/// to the difference between measured and known direction, and shrinks that covariance by the
/// same gain; noise and formulas stay. Where the covariance of the innovation is singular,
/// nothing changes.
pub proof fn updating_injects_the_gain_of_the_filter<M: EskfModel>(
    filter: &mut EskfLos<M>,
    z_u: M::Vector,
    p_attitude: M::Noise,
    inverse: Option<M::Noise>,
    gain: M::Gain,
    error: M::Error,
    tilt: M::Scalar,
    tilts: bool,
    tilted: M::Vector,
    omega_hat: M::Vector,
    p_cov: M::Cov,
    basis: M::Basis,
)
    requires
        functional::<M>(),
        call_ensures(EskfLos::<M>::update, (filter, z_u, p_attitude), ()),
        call_ensures(
            M::innovation_inverse,
            (
                &old(filter).model,
                old(filter).p_cov,
                old(filter).basis,
                z_u,
                old(filter).r_pixel,
                p_attitude,
            ),
            inverse,
        ),
        inverse is Some ==> {
            let model = &old(filter).model;
            let known = old(filter).basis;
            let u_hat = if tilts { tilted } else { old(filter).u_hat };
            &&& call_ensures(M::gain, (model, old(filter).p_cov, known, inverse->0), gain)
            &&& call_ensures(M::error, (model, gain, z_u, old(filter).u_hat), error)
            &&& call_ensures(M::tilt, (model, error), tilt)
            &&& call_ensures(M::is_turn, (model, tilt), tilts)
            &&& call_ensures(M::tilted, (model, old(filter).u_hat, known, error, tilt), tilted)
            &&& call_ensures(
                M::corrected_rate,
                (model, old(filter).omega_hat, known, error, u_hat),
                omega_hat,
            )
            &&& call_ensures(M::shrunk, (model, old(filter).p_cov, gain, known), p_cov)
            &&& call_ensures(M::refined, (model, known, u_hat), basis)
        },
    ensures
        inverse is Some ==> *final(filter) == (EskfLos {
            u_hat: if tilts { tilted } else { old(filter).u_hat },
            omega_hat,
            basis,
            p_cov,
            ..*old(filter)
        }),
        inverse is None ==> *final(filter) == *old(filter),
{
    measurements_inject_the_gain_of_the_state(
        old(filter).model,
        old(filter).r_pixel,
        old(filter).spec_state(),
        z_u,
        p_attitude,
        final(filter).spec_state(),
        inverse,
        gain,
        error,
        tilt,
        tilts,
        tilted,
        omega_hat,
        p_cov,
        basis,
    );
}

/// Along a line on which the formulas do scalar arithmetic, a call of [`EskfLos::update`] leaves
/// the angle between where it was and what was measured, and known no worse than before.
pub proof fn updating_does_not_overshoot<M: EskfModel>(
    reading: Reading<M>,
    filter: &mut EskfLos<M>,
    z_u: M::Vector,
    p_attitude: M::Noise,
)
    requires
        functional::<M>(),
        reading.measures(old(filter).model),
        informs(
            old(filter).model,
            old(filter).r_pixel,
            old(filter).spec_state(),
            z_u,
            p_attitude,
        ),
        call_ensures(EskfLos::<M>::update, (filter, z_u, p_attitude), ()),
        (reading.angle_var)(old(filter).p_cov) >= 0real,
        (reading.noise)(old(filter).r_pixel) + (reading.noise)(p_attitude) >= 0real,
    ensures
        (reading.at)(old(filter).u_hat) <= (reading.at)(z_u) ==> (reading.at)(old(filter).u_hat)
            <= (reading.at)(final(filter).u_hat) <= (reading.at)(z_u),
        (reading.at)(z_u) <= (reading.at)(old(filter).u_hat) ==> (reading.at)(z_u) <= (reading.at)(
            final(filter).u_hat,
        ) <= (reading.at)(old(filter).u_hat),
        0real <= (reading.angle_var)(final(filter).p_cov) <= (reading.angle_var)(
            old(filter).p_cov,
        ),
{
    measurements_do_not_overshoot(
        reading,
        old(filter).model,
        old(filter).r_pixel,
        old(filter).spec_state(),
        z_u,
        p_attitude,
        final(filter).spec_state(),
    );
}

/// A call of [`EskfLos::reset`] leaves the filter as [`EskfLos::new`] makes one with the same
/// noise.
pub proof fn resetting_makes_the_filter_new<M: EskfModel>(
    filter: &mut EskfLos<M>,
    r_pixel: M::Scalar,
    new: EskfLos<M>,
)
    requires
        functional::<M>(),
        call_ensures(EskfLos::<M>::reset, (filter,), ()),
        call_ensures(EskfLos::<M>::new, (old(filter).model, old(filter).q_cov, r_pixel), new),
        new.r_pixel == old(filter).r_pixel,
    ensures
        *final(filter) == new,
{
}

/// A call of [`OosmEskfLos::predict_to`] for a later instant than any before gives direction and
/// rate of the state after the last measurement, predicted over all the time since then. It does
/// not change what the filter remembers.
pub proof fn asking_ahead_predicts_from_the_last_measurement<M: EskfModel>(
    filter: &mut OosmEskfLos<M>,
    now: u64,
    r: (M::Vector, M::Vector),
    last: u64,
    dt_us: u64,
    dt: M::Scalar,
    angle: M::Scalar,
    ahead: EskfState<M>,
)
    requires
        functional::<M>(),
        old(filter).wf(),
        call_ensures(OosmEskfLos::<M>::predict_to, (filter, now), r),
        old(filter).history().snapshots.len() > 0,
        old(filter).history().snapshots.last().timestamp == last,
        old(filter).history().time matches Some(time) && time < now,
        last + dt_us == now,
        call_ensures(M::time_step, (&old(filter).history().process.model, dt_us), dt),
        predicted(
            old(filter).history().process.model,
            old(filter).history().process.q_cov,
            old(filter).history().snapshots.last().state,
            dt,
            angle,
            ahead,
        ),
    ensures
        r == (ahead.u_hat, ahead.omega_hat),
        final(filter).history().state == ahead,
        final(filter).history().snapshots == old(filter).history().snapshots,
        final(filter).history().inputs == old(filter).history().inputs,
{
    extrapolation_covers_the_whole_time(
        *old(filter),
        now,
        *final(filter),
        last,
        dt_us,
        dt,
        angle,
        ahead,
    );
}

/// A call of [`OosmEskfLos::predict_to`] for an instant that the filter has reached already, or
/// before there has been a measurement, changes nothing and gives what is known.
pub proof fn asking_back_changes_nothing<M: EskfModel>(
    filter: &mut OosmEskfLos<M>,
    now: u64,
    r: (M::Vector, M::Vector),
)
    requires
        old(filter).wf(),
        call_ensures(OosmEskfLos::<M>::predict_to, (filter, now), r),
        old(filter).history().time is None || now <= old(filter).history().time->0,
    ensures
        final(filter).history() == old(filter).history(),
        r == (
            old(filter).history().state.u_hat,
            old(filter).history().state.omega_hat,
        ),
{
    coasting_covers_the_whole_time(old(filter).history(), now, final(filter).history());
}

/// A call of [`OosmEskfLos::fuse`] with a measurement that is not late predicts the state after the
/// last one over all the time in between, `ahead`, and updates it there, `updated`.
pub proof fn fusing_predicts_and_updates<M: EskfModel>(
    filter: &mut OosmEskfLos<M>,
    timestamp: u64,
    z_u: M::Vector,
    p_attitude: M::Noise,
    dt_us: u64,
    dt: M::Scalar,
    angle: M::Scalar,
    ahead: EskfState<M>,
    updated: EskfState<M>,
)
    requires
        functional::<M>(),
        old(filter).wf(),
        call_ensures(OosmEskfLos::<M>::fuse, (filter, timestamp, z_u, p_attitude), ()),
        old(filter).history().snapshots.len() > 0,
        old(filter).history().snapshots.last().timestamp + dt_us == timestamp,
        call_ensures(M::time_step, (&old(filter).history().process.model, dt_us), dt),
        predicted(
            old(filter).history().process.model,
            old(filter).history().process.q_cov,
            old(filter).history().snapshots.last().state,
            dt,
            angle,
            ahead,
        ),
        corrected(
            old(filter).history().process.model,
            old(filter).history().process.r_pixel,
            ahead,
            z_u,
            p_attitude,
            updated,
        ),
    ensures
        final(filter).history().state == updated,
        final(filter).history().time == Some(timestamp),
{
    punctual_measurements_predict_and_update(
        *old(filter),
        timestamp,
        EskfInput { z_u, p_attitude },
        *final(filter),
        dt_us,
        dt,
        angle,
        ahead,
        updated,
    );
}

/// A call of [`OosmEskfLos::fuse`] with a measurement that is late, but not beyond what the filter
/// can go back to, leaves it where it would be had all measurements there ever were, `all`,
/// arrived in chronological order.
pub proof fn fusing_makes_up_for_late_measurements<M: EskfModel>(
    filter: &mut OosmEskfLos<M>,
    timestamp: u64,
    z_u: M::Vector,
    p_attitude: M::Noise,
    all: Seq<Recorded<EskfInput<M>>>,
    states: Seq<Snapshot<EskfState<M>>>,
)
    requires
        old(filter).wf(),
        old(filter).history().recalls(all, states),
        old(filter).history().reaches(timestamp),
        call_ensures(OosmEskfLos::<M>::fuse, (filter, timestamp, z_u, p_attitude), ()),
    ensures
        exists|all2: Seq<Recorded<EskfInput<M>>>, states2: Seq<Snapshot<EskfState<M>>>|
            inserted(
                all,
                Recorded { timestamp, input: EskfInput { z_u, p_attitude } },
                all2,
            ) && #[trigger] final(filter).history().remembers(all2, states2),
{
    late_inputs_are_made_up_for(
        old(filter).history(),
        all,
        states,
        timestamp,
        EskfInput { z_u, p_attitude },
        final(filter).history(),
    );
}

} // verus!
