//! Line-of-sight estimation on the unit sphere: the state of an alpha-beta filter and
//! the way a measurement changes it.

use vstd::prelude::*;

#[allow(unused_imports)]
use crate::functional::{function1, function2, function3, function4, function6};

#[allow(unused_imports)]
use crate::weighing::fraction_is_a_part;

verus! {

/// The formulas of an alpha-beta filter for a direction and its rate of change.
pub trait LosModel {
    type Scalar: Copy;

    type Vector: Copy;

    /// `alpha`, brought into the range from zero to one.
    fn clamp_gain(&self, alpha: Self::Scalar) -> Self::Scalar;

    /// The gain on the rate that belongs to the gain `alpha` on the direction.
    fn rate_gain(&self, alpha: Self::Scalar) -> Self::Scalar;

    /// The direction straight ahead.
    fn forward(&self) -> Self::Vector;

    /// The rate of a direction at rest.
    fn zero(&self) -> Self::Vector;

    /// A time span in the unit that the other formulas take.
    fn time_step(&self, dt_us: u64) -> Self::Scalar;

    /// The direction after `dt`, from direction `unit` and rate `rate`.
    fn predict(&self, unit: Self::Vector, rate: Self::Vector, dt: Self::Scalar) -> Self::Vector;

    /// The direction between the predicted and the measured one, by gain `alpha`.
    fn correct(
        &self,
        predicted: Self::Vector,
        measured: Self::Vector,
        alpha: Self::Scalar,
    ) -> Self::Vector;

    /// `rate`, changed by gain `beta` to account for the measured direction.
    fn correct_rate(
        &self,
        rate: Self::Vector,
        predicted: Self::Vector,
        measured: Self::Vector,
        beta: Self::Scalar,
        dt: Self::Scalar,
    ) -> Self::Vector;

    /// `rate` without its component along `unit`.
    fn tangential(&self, unit: Self::Vector, rate: Self::Vector) -> Self::Vector;
}

/// All formulas are functions.
pub open spec fn functional<M: LosModel>() -> bool {
    &&& function2(M::clamp_gain)
    &&& function2(M::rate_gain)
    &&& function1(M::forward)
    &&& function1(M::zero)
    &&& function2(M::time_step)
    &&& function4(M::predict)
    &&& function4(M::correct)
    &&& function6(M::correct_rate)
    &&& function3(M::tangential)
}

/// An estimate of the line of sight.
#[derive(Clone, Copy)]
pub struct LosState<V> {
    /// The direction, once there has been a measurement.
    pub unit: Option<V>,
    /// The rate at which it turns.
    pub rate: V,
}

impl<V> LosState<V> {
    /// Where there is no direction yet, there is no motion either.
    pub open spec fn still_if_blind(self, zero: V) -> bool {
        self.unit is None ==> self.rate == zero
    }

    /// Direction and rate, with `forward` in place of a direction not known yet.
    pub open spec fn estimate(self, forward: V) -> (V, V) {
        match self.unit {
            Some(unit) => (unit, self.rate),
            None => (forward, self.rate),
        }
    }
}

/// `next` follows from `unit` and `rate` by dead reckoning: the direction is predicted, and
/// the rate keeps only what is tangential to it.
pub open spec fn reckoned<M: LosModel>(
    model: M,
    unit: M::Vector,
    rate: M::Vector,
    dt: M::Scalar,
    next: (M::Vector, M::Vector),
) -> bool {
    &&& call_ensures(M::predict, (&model, unit, rate, dt), next.0)
    &&& call_ensures(M::tangential, (&model, next.0, rate), next.1)
}

/// `next` follows from `unit` and `rate` by the measurement `measured`: the predicted
/// direction `predicted` is corrected by `alpha`. The rate is corrected to `rate_new` by
/// `beta` where `renew` is set, else `rate_new` is the rate as it was; only what is
/// tangential to the new direction is kept.
pub open spec fn corrected<M: LosModel>(
    model: M,
    alpha: M::Scalar,
    beta: M::Scalar,
    unit: M::Vector,
    rate: M::Vector,
    measured: M::Vector,
    dt: M::Scalar,
    renew: bool,
    predicted: M::Vector,
    rate_new: M::Vector,
    next: (M::Vector, M::Vector),
) -> bool {
    &&& call_ensures(M::predict, (&model, unit, rate, dt), predicted)
    &&& call_ensures(M::correct, (&model, predicted, measured, alpha), next.0)
    &&& if renew {
        call_ensures(M::correct_rate, (&model, rate, predicted, measured, beta, dt), rate_new)
    } else {
        rate_new == rate
    }
    &&& call_ensures(M::tangential, (&model, next.0, rate_new), next.1)
}

/// `next` follows from `state` by `measurement`, or by dead reckoning where there is none,
/// after `dt`. A first measurement is taken as it is; without one nothing changes.
pub open spec fn updated<M: LosModel>(
    model: M,
    alpha: M::Scalar,
    beta: M::Scalar,
    state: LosState<M::Vector>,
    measurement: Option<M::Vector>,
    dt: M::Scalar,
    renew: bool,
    next: LosState<M::Vector>,
) -> bool {
    match (state.unit, measurement) {
        (Some(unit), Some(measured)) => {
            &&& next.unit is Some
            &&& exists|predicted: M::Vector, rate_new: M::Vector|
                corrected(
                    model,
                    alpha,
                    beta,
                    unit,
                    state.rate,
                    measured,
                    dt,
                    renew,
                    predicted,
                    rate_new,
                    (next.unit->0, next.rate),
                )
        },
        (Some(unit), None) => {
            &&& next.unit is Some
            &&& reckoned(model, unit, state.rate, dt, (next.unit->0, next.rate))
        },
        (None, Some(measured)) => next == (LosState { unit: Some(measured), rate: state.rate }),
        (None, None) => next == state,
    }
}

/// Direction and rate after `dt` by dead reckoning.
pub fn reckon<M: LosModel>(
    model: &M,
    unit: M::Vector,
    rate: M::Vector,
    dt: M::Scalar,
) -> (next: (M::Vector, M::Vector))
    ensures
        reckoned(*model, unit, rate, dt, next),
{
    let predicted = model.predict(unit, rate, dt);
    (predicted, model.tangential(predicted, rate))
}

/// The state after `measurement`, `dt` after `state`.
pub fn update<M: LosModel>(
    model: &M,
    alpha: M::Scalar,
    beta: M::Scalar,
    state: LosState<M::Vector>,
    measurement: Option<M::Vector>,
    dt: M::Scalar,
    renew: bool,
) -> (next: LosState<M::Vector>)
    ensures
        updated(*model, alpha, beta, state, measurement, dt, renew, next),
{
    match state.unit {
        Some(unit) => match measurement {
            Some(measured) => {
                let predicted = model.predict(unit, state.rate, dt);
                let direction = model.correct(predicted, measured, alpha);
                let rate_new = if renew {
                    model.correct_rate(state.rate, predicted, measured, beta, dt)
                } else {
                    state.rate
                };
                let rate = model.tangential(direction, rate_new);
                let next = LosState { unit: Some(direction), rate };
                assert(corrected(
                    *model,
                    alpha,
                    beta,
                    unit,
                    state.rate,
                    measured,
                    dt,
                    renew,
                    predicted,
                    rate_new,
                    (next.unit->0, next.rate),
                ));
                next
            },
            None => {
                let (direction, rate) = reckon(model, unit, state.rate, dt);
                LosState { unit: Some(direction), rate }
            },
        },
        None => match measurement {
            Some(measured) => LosState { unit: Some(measured), rate: state.rate },
            None => state,
        },
    }
}

/// Where the formulas are functions, one measurement leads to one state only.
pub proof fn update_is_determined<M: LosModel>(
    model: M,
    alpha: M::Scalar,
    beta: M::Scalar,
    state: LosState<M::Vector>,
    measurement: Option<M::Vector>,
    dt: M::Scalar,
    renew: bool,
    a: LosState<M::Vector>,
    b: LosState<M::Vector>,
)
    requires
        functional::<M>(),
        updated(model, alpha, beta, state, measurement, dt, renew, a),
        updated(model, alpha, beta, state, measurement, dt, renew, b),
    ensures
        a == b,
{
}

/// A filter with a direction keeps no rate along it, whether it has been measured again or
/// has coasted.
pub proof fn rate_is_tangential<M: LosModel>(
    model: M,
    alpha: M::Scalar,
    beta: M::Scalar,
    state: LosState<M::Vector>,
    measurement: Option<M::Vector>,
    dt: M::Scalar,
    renew: bool,
    next: LosState<M::Vector>,
)
    requires
        updated(model, alpha, beta, state, measurement, dt, renew, next),
        state.unit is Some,
    ensures
        next.unit is Some,
        exists|rate: M::Vector| #[trigger]
            call_ensures(M::tangential, (&model, next.unit->0, rate), next.rate),
{
}

/// What vectors mean: which directions have unit length, which rates are square to which
/// directions, and which predicted and measured directions are not exactly opposite, so that
/// something is left between them to normalize.
pub ghost struct Sphere<M: LosModel> {
    pub unit: spec_fn(M::Vector) -> bool,
    pub square: spec_fn(M::Vector, M::Vector) -> bool,
    pub apart: spec_fn(M::Vector, M::Vector) -> bool,
}

impl<M: LosModel> Sphere<M> {
    /// The direction of `state`, if there is one, has unit length, and the rate is square to
    /// it.
    pub open spec fn holds(self, state: LosState<M::Vector>) -> bool {
        state.unit matches Some(unit) ==> (self.unit)(unit) && (self.square)(state.rate, unit)
    }

    /// There is no measurement, or one of unit length.
    pub open spec fn measures(self, measurement: Option<M::Vector>) -> bool {
        measurement matches Some(measured) ==> (self.unit)(measured)
    }

    /// The formulas are free of rounding, with the gain `alpha` and the rate `zero` of a
    /// direction at rest.
    pub open spec fn exact(self, model: M, alpha: M::Scalar, zero: M::Vector) -> bool {
        &&& forall|unit: M::Vector, rate: M::Vector, dt: M::Scalar, r: M::Vector| #[trigger]
            call_ensures(M::predict, (&model, unit, rate, dt), r) && (self.unit)(unit) && (
            self.square)(rate, unit) ==> (self.unit)(r)
        &&& forall|predicted: M::Vector, measured: M::Vector, r: M::Vector| #[trigger]
            call_ensures(M::correct, (&model, predicted, measured, alpha), r) && (self.unit)(
                predicted,
            ) && (self.unit)(measured) && (self.apart)(predicted, measured) ==> (self.unit)(r)
        &&& forall|unit: M::Vector, rate: M::Vector, r: M::Vector| #[trigger]
            call_ensures(M::tangential, (&model, unit, rate), r) && (self.unit)(unit) ==> (
            self.square)(r, unit)
        &&& forall|unit: M::Vector| #[trigger] (self.unit)(unit) ==> (self.square)(zero, unit)
    }

    /// `measurement` is not exactly opposite to what is predicted from `state` over `dt`.
    pub open spec fn clear(
        self,
        model: M,
        state: LosState<M::Vector>,
        measurement: Option<M::Vector>,
        dt: M::Scalar,
    ) -> bool {
        match (state.unit, measurement) {
            (Some(unit), Some(measured)) => forall|predicted: M::Vector| #[trigger]
                call_ensures(M::predict, (&model, unit, state.rate, dt), predicted) ==> (
                self.apart)(predicted, measured),
            _ => true,
        }
    }
}

/// But for rounding, a measurement of unit length, or the lack of one, leaves a direction of
/// unit length and a rate square to it.
pub proof fn updates_stay_on_the_sphere<M: LosModel>(
    sphere: Sphere<M>,
    model: M,
    alpha: M::Scalar,
    beta: M::Scalar,
    zero: M::Vector,
    state: LosState<M::Vector>,
    measurement: Option<M::Vector>,
    dt: M::Scalar,
    renew: bool,
    next: LosState<M::Vector>,
)
    requires
        sphere.exact(model, alpha, zero),
        sphere.holds(state),
        state.still_if_blind(zero),
        sphere.measures(measurement),
        sphere.clear(model, state, measurement, dt),
        updated(model, alpha, beta, state, measurement, dt, renew, next),
    ensures
        sphere.holds(next),
        measurement is Some || state.unit is Some ==> next.unit is Some,
{
    match (state.unit, measurement) {
        (Some(unit), Some(measured)) => {
            let (predicted, rate_new) = choose|predicted: M::Vector, rate_new: M::Vector|
                corrected(
                    model,
                    alpha,
                    beta,
                    unit,
                    state.rate,
                    measured,
                    dt,
                    renew,
                    predicted,
                    rate_new,
                    (next.unit->0, next.rate),
                );
            assert((sphere.unit)(predicted));
            assert((sphere.apart)(predicted, measured));
        },
        _ => {},
    }
}

/// The values that the formulas of one update give.
pub ghost struct Correction<M: LosModel> {
    /// The direction expected, and the rate that is tangential to it.
    pub predicted: M::Vector,
    pub coasting: M::Vector,
    /// The direction corrected by a measurement, the rate corrected by it, and what is
    /// tangential of that rate and of the rate as it was.
    pub direction: M::Vector,
    pub rate: M::Vector,
    pub tangential: M::Vector,
    pub unrenewed: M::Vector,
}

impl<M: LosModel> Correction<M> {
    /// The values are those for `unit` and `rate`, `dt` later, with `measurement`.
    pub open spec fn follows(
        self,
        model: M,
        alpha: M::Scalar,
        beta: M::Scalar,
        unit: M::Vector,
        rate: M::Vector,
        measurement: Option<M::Vector>,
        dt: M::Scalar,
    ) -> bool {
        &&& call_ensures(M::predict, (&model, unit, rate, dt), self.predicted)
        &&& call_ensures(M::tangential, (&model, self.predicted, rate), self.coasting)
        &&& measurement matches Some(measured) ==> {
            &&& call_ensures(M::correct, (&model, self.predicted, measured, alpha), self.direction)
            &&& call_ensures(
                M::correct_rate,
                (&model, rate, self.predicted, measured, beta, dt),
                self.rate,
            )
            &&& call_ensures(M::tangential, (&model, self.direction, self.rate), self.tangential)
            &&& call_ensures(M::tangential, (&model, self.direction, rate), self.unrenewed)
        }
    }
}

/// An update predicts the direction over all of `dt` at the known rate, corrects direction and
/// rate by what is measured, each with its gain, and keeps what is tangential of the rate;
/// where `renew` is not set, the rate is not corrected. Without a measurement the prediction
/// stands. A first measurement is taken as it is; without one nothing changes.
pub proof fn updates_follow_the_correction<M: LosModel>(
    model: M,
    alpha: M::Scalar,
    beta: M::Scalar,
    state: LosState<M::Vector>,
    measurement: Option<M::Vector>,
    dt: M::Scalar,
    renew: bool,
    next: LosState<M::Vector>,
    course: Correction<M>,
)
    requires
        functional::<M>(),
        updated(model, alpha, beta, state, measurement, dt, renew, next),
        state.unit matches Some(unit) ==> course.follows(
            model,
            alpha,
            beta,
            unit,
            state.rate,
            measurement,
            dt,
        ),
    ensures
        next.unit == match (state.unit, measurement) {
            (Some(_), Some(_)) => Some(course.direction),
            (Some(_), None) => Some(course.predicted),
            (None, _) => measurement,
        },
        next.rate == match (state.unit, measurement) {
            (Some(_), Some(_)) => if renew {
                course.tangential
            } else {
                course.unrenewed
            },
            (Some(_), None) => course.coasting,
            (None, _) => state.rate,
        },
{
    match (state.unit, measurement) {
        (Some(unit), Some(measured)) => {
            let (predicted, rate_new) = choose|predicted: M::Vector, rate_new: M::Vector|
                corrected(
                    model,
                    alpha,
                    beta,
                    unit,
                    state.rate,
                    measured,
                    dt,
                    renew,
                    predicted,
                    rate_new,
                    (next.unit->0, next.rate),
                );
            assert(predicted == course.predicted);
        },
        _ => {},
    }
}

/// The reading of a filter along one line: where a direction lies, and how fast it moves.
pub ghost struct Reading<M: LosModel> {
    pub at: spec_fn(M::Vector) -> real,
    pub rate: spec_fn(M::Vector) -> real,
    pub time: spec_fn(M::Scalar) -> real,
    pub gain: spec_fn(M::Scalar) -> real,
}

impl<M: LosModel> Reading<M> {
    /// The formulas do scalar arithmetic along the line.
    pub open spec fn exact(self, model: M) -> bool {
        &&& forall|unit: M::Vector, rate: M::Vector, dt: M::Scalar, r: M::Vector| #[trigger]
            call_ensures(M::predict, (&model, unit, rate, dt), r) ==> (self.at)(r) == (self.at)(
                unit,
            ) + (self.rate)(rate) * (self.time)(dt)
        &&& forall|predicted: M::Vector, measured: M::Vector, alpha: M::Scalar, r: M::Vector|
            #[trigger] call_ensures(M::correct, (&model, predicted, measured, alpha), r) ==> (
            self.at)(r) == (self.at)(predicted) + (self.gain)(alpha) * ((self.at)(measured) - (
            self.at)(predicted))
        &&& forall|
            rate: M::Vector,
            predicted: M::Vector,
            measured: M::Vector,
            beta: M::Scalar,
            dt: M::Scalar,
            r: M::Vector,
        | #[trigger]
            call_ensures(M::correct_rate, (&model, rate, predicted, measured, beta, dt), r) ==> ((
            self.rate)(r) - (self.rate)(rate)) * (self.time)(dt) == (self.gain)(beta) * ((self.at)(
                measured,
            ) - (self.at)(predicted))
        &&& forall|unit: M::Vector, rate: M::Vector, r: M::Vector| #[trigger]
            call_ensures(M::tangential, (&model, unit, rate), r) ==> (self.rate)(r) == (self.rate)(
                rate,
            )
    }
}

/// Along a line on which the formulas do scalar arithmetic, a measurement corrects the expected
/// angle by the share `alpha` of how far it is off, and the rate by the share `beta` of that,
/// spread over the time; without one the angle moves on at the known rate.
pub proof fn updates_are_weighed_by_the_gains<M: LosModel>(
    reading: Reading<M>,
    model: M,
    alpha: M::Scalar,
    beta: M::Scalar,
    state: LosState<M::Vector>,
    measurement: Option<M::Vector>,
    dt: M::Scalar,
    next: LosState<M::Vector>,
)
    requires
        reading.exact(model),
        state.unit is Some,
        updated(model, alpha, beta, state, measurement, dt, true, next),
    ensures
        next.unit is Some,
        ({
            let expected = (reading.at)(state.unit->0) + (reading.rate)(state.rate) * (
            reading.time)(dt);
            &&& measurement is None ==> (reading.at)(next.unit->0) == expected && (reading.rate)(
                next.rate,
            ) == (reading.rate)(state.rate)
            &&& measurement matches Some(measured) ==> {
                let off = (reading.at)(measured) - expected;
                &&& (reading.at)(next.unit->0) == expected + (reading.gain)(alpha) * off
                &&& ((reading.rate)(next.rate) - (reading.rate)(state.rate)) * (reading.time)(dt)
                    == (reading.gain)(beta) * off
            }
        }),
{
    if let Some(measured) = measurement {
        let (predicted, rate_new) = choose|predicted: M::Vector, rate_new: M::Vector|
            corrected(
                model,
                alpha,
                beta,
                state.unit->0,
                state.rate,
                measured,
                dt,
                true,
                predicted,
                rate_new,
                (next.unit->0, next.rate),
            );
        assert((reading.at)(predicted) == (reading.at)(state.unit->0) + (reading.rate)(state.rate)
            * (reading.time)(dt));
    }
}

/// Along such a line, a gain from zero to one keeps the new angle between the expected and the
/// measured one.
pub proof fn updates_do_not_overshoot<M: LosModel>(
    reading: Reading<M>,
    model: M,
    alpha: M::Scalar,
    beta: M::Scalar,
    state: LosState<M::Vector>,
    measured: M::Vector,
    dt: M::Scalar,
    next: LosState<M::Vector>,
)
    requires
        reading.exact(model),
        0real <= (reading.gain)(alpha) <= 1real,
        state.unit is Some,
        updated(model, alpha, beta, state, Some(measured), dt, true, next),
    ensures
        ({
            let expected = (reading.at)(state.unit->0) + (reading.rate)(state.rate) * (
            reading.time)(dt);
            &&& expected <= (reading.at)(measured) ==> expected <= (reading.at)(next.unit->0) <= (
            reading.at)(measured)
            &&& (reading.at)(measured) <= expected ==> (reading.at)(measured) <= (reading.at)(
                next.unit->0,
            ) <= expected
        }),
{
    updates_are_weighed_by_the_gains(
        reading,
        model,
        alpha,
        beta,
        state,
        Some(measured),
        dt,
        next,
    );
    let expected = (reading.at)(state.unit->0) + (reading.rate)(state.rate) * (reading.time)(dt);
    fraction_is_a_part((reading.gain)(alpha), (reading.at)(measured) - expected);
}

} // verus!
