//! A line-of-sight filter that takes measurements in any order of arrival.

use vstd::prelude::*;
use crate::los::{update, LosModel, LosState};
use crate::rewind::{Process, Rewind};

#[allow(unused_imports)]
use crate::chronology::{inserted, place_of};
#[allow(unused_imports)]
use crate::clock::elapsed_us;
#[allow(unused_imports)]
use crate::los::{
    functional, update_is_determined, updated, updates_follow_the_correction,
    updates_stay_on_the_sphere, Correction, Sphere,
};
#[allow(unused_imports)]
use crate::los_estimator;
#[allow(unused_imports)]
use crate::rewind::{
    after_is_part, arrive, coasts_to, count_older_is_bounded, deterministic, distinct_instants,
    late_inputs_are_made_up_for, link, run, same_inputs_lead_to_the_same_state, steps_to, History,
    Recorded, Snapshot,
};

verus! {

/// How many measurements the filter remembers.
pub const MAX_HISTORY: usize = 256;

/// The formulas of an alpha-beta filter, with its gains.
pub struct AlphaBeta<M: LosModel> {
    pub model: M,
    /// Gain on the direction.
    pub alpha: M::Scalar,
    /// Gain on the rate.
    pub beta: M::Scalar,
}

impl<M: LosModel> AlphaBeta<M> {
    /// `next` follows from `state` by `measurement`, `dt_us` microseconds later. Where no
    /// time has passed the rate is not corrected.
    pub open spec fn stepped(
        self,
        state: LosState<M::Vector>,
        measurement: Option<M::Vector>,
        dt_us: u64,
        next: LosState<M::Vector>,
    ) -> bool {
        exists|dt: M::Scalar|
            {
                &&& #[trigger] call_ensures(M::time_step, (&self.model, dt_us), dt)
                &&& updated(
                    self.model,
                    self.alpha,
                    self.beta,
                    state,
                    measurement,
                    dt,
                    dt_us > 0,
                    next,
                )
            }
    }
}

impl<M: LosModel> Process for AlphaBeta<M> {
    type State = LosState<M::Vector>;

    type Input = Option<M::Vector>;

    fn step(
        &self,
        state: LosState<M::Vector>,
        measurement: Option<M::Vector>,
        dt_us: u64,
    ) -> (next: LosState<M::Vector>)
        ensures
            self.stepped(state, measurement, dt_us, next),
    {
        let dt = self.model.time_step(dt_us);
        update(&self.model, self.alpha, self.beta, state, measurement, dt, dt_us > 0)
    }

    fn coast(&self, state: LosState<M::Vector>, dt_us: u64) -> (next: LosState<M::Vector>)
        ensures
            self.stepped(state, None, dt_us, next),
    {
        let dt = self.model.time_step(dt_us);
        update(&self.model, self.alpha, self.beta, state, None, dt, dt_us > 0)
    }
}

/// Taking a measurement in, in the sense of [`History`], is what [`AlphaBeta::stepped`]
/// says.
pub proof fn steps_are_updates<M: LosModel>(
    process: AlphaBeta<M>,
    state: LosState<M::Vector>,
    measurement: Option<M::Vector>,
    dt_us: u64,
    next: LosState<M::Vector>,
)
    ensures
        steps_to(process, state, measurement, dt_us, next) ==> process.stepped(
            state,
            measurement,
            dt_us,
            next,
        ),
        coasts_to(process, state, dt_us, next) ==> process.stepped(state, None, dt_us, next),
{
}

/// A filter whose formulas are functions is deterministic.
pub proof fn functional_filter_is_deterministic<M: LosModel>(process: AlphaBeta<M>)
    requires
        functional::<M>(),
    ensures
        deterministic(process),
{
    assert forall|
        state: LosState<M::Vector>,
        measurement: Option<M::Vector>,
        dt_us: u64,
        a: LosState<M::Vector>,
        b: LosState<M::Vector>,
    |
        #[trigger] steps_to(process, state, measurement, dt_us, a) && #[trigger] steps_to(
            process,
            state,
            measurement,
            dt_us,
            b,
        ) implies a == b by {
        steps_are_updates(process, state, measurement, dt_us, a);
        steps_are_updates(process, state, measurement, dt_us, b);
        let dt = choose|dt: M::Scalar|
            {
                &&& #[trigger] call_ensures(M::time_step, (&process.model, dt_us), dt)
                &&& updated(
                    process.model,
                    process.alpha,
                    process.beta,
                    state,
                    measurement,
                    dt,
                    dt_us > 0,
                    a,
                )
            };
        update_is_determined(
            process.model,
            process.alpha,
            process.beta,
            state,
            measurement,
            dt,
            dt_us > 0,
            a,
            b,
        );
    }
}

/// A step of the filter is the update of a filter whose measurements arrive in order, with
/// the same gains and state, wherever time has passed.
pub proof fn step_is_the_update_in_order<M: LosModel>(
    process: AlphaBeta<M>,
    filter: los_estimator::AlphaBetaLos<M>,
    measurement: Option<M::Vector>,
    dt_us: u64,
    dt: M::Scalar,
    stepped: LosState<M::Vector>,
    updated: los_estimator::AlphaBetaLos<M>,
)
    requires
        functional::<M>(),
        process.model == filter.model(),
        process.alpha == filter.alpha(),
        process.beta == filter.beta(),
        dt_us > 0,
        call_ensures(M::time_step, (&process.model, dt_us), dt),
        process.stepped(filter.state(), measurement, dt_us, stepped),
        filter.updates_to(measurement, dt, updated),
        updated.same_filter(filter),
    ensures
        stepped == updated.state(),
        stepped.estimate(filter.forward()) == updated.state().estimate(updated.forward()),
{
    update_is_determined(
        process.model,
        process.alpha,
        process.beta,
        filter.state(),
        measurement,
        dt,
        true,
        stepped,
        updated.state(),
    );
}

/// A step leaves no motion where there is no direction.
proof fn step_stays_still<M: LosModel>(
    process: AlphaBeta<M>,
    state: LosState<M::Vector>,
    measurement: Option<M::Vector>,
    dt_us: u64,
    next: LosState<M::Vector>,
    zero: M::Vector,
)
    requires
        process.stepped(state, measurement, dt_us, next),
        state.still_if_blind(zero),
    ensures
        next.still_if_blind(zero),
{
}

/// Neither does a run.
proof fn run_stays_still<M: LosModel>(
    process: AlphaBeta<M>,
    start: LosState<M::Vector>,
    start_time: Option<u64>,
    inputs: Seq<Recorded<Option<M::Vector>>>,
    states: Seq<Snapshot<LosState<M::Vector>>>,
    zero: M::Vector,
    n: int,
)
    requires
        run(process, start, start_time, inputs, states),
        start.still_if_blind(zero),
        0 <= n < states.len(),
    ensures
        states[n].state.still_if_blind(zero),
    decreases n,
{
    assert(link(process, start, start_time, inputs, states, n));
    let (before, since) = if n == 0 {
        (start, start_time)
    } else {
        run_stays_still(process, start, start_time, inputs, states, zero, n - 1);
        (states[n - 1].state, Some(inputs[n - 1].timestamp))
    };
    let dt_us = elapsed_us(since, inputs[n].timestamp);
    steps_are_updates(process, before, inputs[n].input, dt_us, states[n].state);
    step_stays_still(process, before, inputs[n].input, dt_us, states[n].state, zero);
}

/// An alpha-beta filter for the line of sight that can be rewound: measurements may arrive
/// late and are still taken in at their own instant.
pub struct AlphaBetaLos<M: LosModel> {
    filter: Rewind<AlphaBeta<M>>,
    forward: M::Vector,
    zero: M::Vector,
}

impl<M: LosModel> AlphaBetaLos<M> {
    /// State and history of the filter.
    pub closed spec fn history(self) -> History<AlphaBeta<M>> {
        self.filter@
    }

    /// The direction reported before the first measurement.
    pub closed spec fn forward(self) -> M::Vector {
        self.forward
    }

    /// The rate reported before the first measurement.
    pub closed spec fn zero(self) -> M::Vector {
        self.zero
    }

    /// All states that the filter remembers are those of a filter that has seen nothing, or
    /// of one with a direction.
    pub open spec fn wf(self) -> bool {
        &&& self.history().wf()
        &&& self.history().limit == MAX_HISTORY
        &&& self.history().initial == (LosState { unit: None, rate: self.zero() })
        &&& self.history().state.still_if_blind(self.zero())
        &&& forall|i: int|
            0 <= i < self.history().snapshots.len()
                ==> #[trigger] self.history().snapshots[i].state.still_if_blind(self.zero())
    }

    /// Everything but state and history is the same.
    pub open spec fn same_filter(self, other: Self) -> bool {
        &&& self.history().same_filter(other.history())
        &&& self.forward() == other.forward()
        &&& self.zero() == other.zero()
    }

    /// The filter has taken nothing in, and has the gains that belong to `alpha`.
    pub open spec fn is_new(self, model: M, alpha: M::Scalar) -> bool {
        &&& self.wf()
        &&& self.history().blank()
        &&& self.history().process.model == model
        &&& call_ensures(M::clamp_gain, (&model, alpha), self.history().process.alpha)
        &&& call_ensures(
            M::rate_gain,
            (&model, self.history().process.alpha),
            self.history().process.beta,
        )
        &&& call_ensures(M::forward, (&model,), self.forward())
        &&& call_ensures(M::zero, (&model,), self.zero())
    }

    /// Constructs a new alpha-beta filter.
    ///
    /// Larger values of `alpha` make the filter more responsive, but also potentially
    /// noisier.
    pub fn new(model: M, alpha: M::Scalar) -> (r: Self)
        ensures
            r.is_new(model, alpha),
    {
        let alpha = model.clamp_gain(alpha);
        let beta = model.rate_gain(alpha);
        let forward = model.forward();
        let zero = model.zero();
        let initial = LosState { unit: None, rate: zero };
        let process = AlphaBeta { model, alpha, beta };
        AlphaBetaLos { filter: Rewind::new(process, initial, MAX_HISTORY), forward, zero }
    }

    /// Resets the internal state and the history of the filter.
    pub fn reset(&mut self)
        requires
            old(self).wf(),
        ensures
            final(self).wf(),
            final(self).same_filter(*old(self)),
            final(self).history().blank(),
    {
        self.filter.reset();
    }

    /// Fuses a measurement (or the lack of one) at its true instant, from the state after the
    /// last one. A measurement that is older than the last one makes the filter go back and
    /// take all later ones in again.
    ///
    /// Returns the direction and rate at the latest instant.
    pub fn fuse(&mut self, timestamp: u64, measurement: Option<M::Vector>) -> (r: (
        M::Vector,
        M::Vector,
    ))
        requires
            old(self).wf(),
        ensures
            final(self).wf(),
            final(self).same_filter(*old(self)),
            old(self).history().fused(timestamp, measurement, final(self).history()),
            !old(self).history().is_late(timestamp) ==> old(self).history().process.stepped(
                old(self).history().settled(),
                measurement,
                elapsed_us(old(self).history().settled_time(), timestamp),
                final(self).history().state,
            ),
            r == final(self).history().state.estimate(old(self).forward()),
    {
        let ghost before = self.history();
        let ghost zero = self.zero;
        self.filter.fuse(timestamp, measurement);
        proof {
            let next = self.history();
            if before.is_late(timestamp) {
                let (all, replayed) = choose|
                    all: Seq<Recorded<Option<M::Vector>>>,
                    replayed: Seq<Snapshot<LosState<M::Vector>>>,
                |
                    before.rewound(timestamp, measurement, all, replayed, next);
                let kept = before.kept(timestamp);
                count_older_is_bounded(before.snapshots, timestamp);
                if kept.len() > 0 {
                    assert(kept.last() == before.snapshots[kept.len() - 1]);
                }
                assert forall|i: int| 0 <= i < replayed.len() implies #[trigger] replayed[i].state.still_if_blind(
                    zero,
                ) by {
                    run_stays_still(
                        before.process,
                        before.restored(timestamp),
                        before.restored_time(timestamp),
                        before.pending(timestamp, next.inputs),
                        replayed,
                        zero,
                        i,
                    );
                }
                let states = kept + replayed;
                let dropped = states.len() - next.snapshots.len();
                assert forall|i: int| 0 <= i < next.snapshots.len() implies #[trigger] next.snapshots[i].state.still_if_blind(
                    zero,
                ) by {
                    let j = i + dropped;
                    assert(next.snapshots[i] == states[j]);
                    if j < kept.len() {
                        assert(states[j] == before.snapshots[j]);
                    } else {
                        assert(states[j] == replayed[j - kept.len()]);
                    }
                }
            } else {
                let dt_us = elapsed_us(before.settled_time(), timestamp);
                steps_are_updates(
                    before.process,
                    before.settled(),
                    measurement,
                    dt_us,
                    next.state,
                );
                step_stays_still(
                    before.process,
                    before.settled(),
                    measurement,
                    dt_us,
                    next.state,
                    zero,
                );
            }
        }
        self.current_estimate()
    }

    /// Coasts the filter forward to `now` without a measurement, and returns the direction
    /// and rate expected there. This moves the current state and time of the filter on, but
    /// is not recorded: the next measurement, late or not, finds the filter as the last one
    /// left it.
    pub fn predict_to(&mut self, now: u64) -> (r: (M::Vector, M::Vector))
        requires
            old(self).wf(),
        ensures
            final(self).wf(),
            final(self).same_filter(*old(self)),
            old(self).history().coasted(now, final(self).history()),
            elapsed_us(old(self).history().time, now) > 0
                ==> old(self).history().process.stepped(
                old(self).history().settled(),
                None,
                elapsed_us(old(self).history().settled_time(), now),
                final(self).history().state,
            ),
            r == final(self).history().state.estimate(old(self).forward()),
    {
        let ghost before = self.history();
        self.filter.predict_to(now);
        proof {
            let next = self.history();
            if elapsed_us(before.time, now) > 0 {
                let dt_us = elapsed_us(before.settled_time(), now);
                let settled = before.settled();
                steps_are_updates(before.process, settled, None, dt_us, next.state);
                step_stays_still(before.process, settled, None, dt_us, next.state, self.zero);
            }
        }
        self.current_estimate()
    }

    /// The current direction and rate. A filter that has never seen the target looks
    /// straight ahead and stands still.
    pub fn current_estimate(&self) -> (r: (M::Vector, M::Vector))
        requires
            self.wf(),
        ensures
            r == self.history().state.estimate(self.forward()),
            self.history().state.unit is None ==> r == (self.forward(), self.zero()),
    {
        let state = self.filter.state();
        match state.unit {
            Some(unit) => (unit, state.rate),
            None => (self.forward, state.rate),
        }
    }
}

/// The histories of filters.
pub open spec fn histories<M: LosModel>(filters: Seq<AlphaBetaLos<M>>) -> Seq<
    History<AlphaBeta<M>>,
> {
    filters.map_values(|filter: AlphaBetaLos<M>| filter.history())
}

/// Two new filters that are built alike and take the same measurements in, up to
/// [`MAX_HISTORY`] of different instants, end up in the same state and with the same estimate
/// at the latest of these instants, whatever the order of arrival. `met_a` is the first filter
/// as each measurement finds it, `left_a` as it leaves it, and likewise for the second.
pub proof fn estimate_does_not_depend_on_arrival<M: LosModel>(
    model: M,
    alpha: M::Scalar,
    a: AlphaBetaLos<M>,
    inputs_a: Seq<Recorded<Option<M::Vector>>>,
    met_a: Seq<AlphaBetaLos<M>>,
    left_a: Seq<AlphaBetaLos<M>>,
    b: AlphaBetaLos<M>,
    inputs_b: Seq<Recorded<Option<M::Vector>>>,
    met_b: Seq<AlphaBetaLos<M>>,
    left_b: Seq<AlphaBetaLos<M>>,
)
    requires
        functional::<M>(),
        a.is_new(model, alpha),
        b.is_new(model, alpha),
        arrive(a.history(), inputs_a, histories(met_a), histories(left_a)),
        arrive(b.history(), inputs_b, histories(met_b), histories(left_b)),
        left_a.last().same_filter(a),
        left_b.last().same_filter(b),
        distinct_instants(inputs_a),
        distinct_instants(inputs_b),
        forall|e: Recorded<Option<M::Vector>>| #[trigger]
            inputs_a.contains(e) <==> inputs_b.contains(e),
        0 < inputs_a.len() <= MAX_HISTORY,
        0 < inputs_b.len() <= MAX_HISTORY,
    ensures
        left_a.last().history() == left_b.last().history(),
        left_a.last().history().state.estimate(left_a.last().forward())
            == left_b.last().history().state.estimate(left_b.last().forward()),
        exists|i: int|
            0 <= i < inputs_a.len() && left_a.last().history().time == Some(
                #[trigger] inputs_a[i].timestamp,
            ),
        forall|i: int|
            0 <= i < inputs_a.len() ==> #[trigger] inputs_a[i].timestamp
                <= left_a.last().history().time->0,
{
    functional_filter_is_deterministic(a.history().process);
    same_inputs_lead_to_the_same_state(
        a.history(),
        inputs_a,
        histories(met_a),
        histories(left_a),
        b.history(),
        inputs_b,
        histories(met_b),
        histories(left_b),
    );
}

/// `measurement` is not exactly opposite to what the filter predicts from `state`, `dt_us`
/// microseconds later.
pub open spec fn clear<M: LosModel>(
    sphere: Sphere<M>,
    process: AlphaBeta<M>,
    state: LosState<M::Vector>,
    measurement: Option<M::Vector>,
    dt_us: u64,
) -> bool {
    forall|dt: M::Scalar| #[trigger]
        call_ensures(M::time_step, (&process.model, dt_us), dt) ==> sphere.clear(
            process.model,
            state,
            measurement,
            dt,
        )
}

/// So it is with the `i`-th measurement of a run.
pub open spec fn clear_at<M: LosModel>(
    sphere: Sphere<M>,
    process: AlphaBeta<M>,
    start: LosState<M::Vector>,
    start_time: Option<u64>,
    inputs: Seq<Recorded<Option<M::Vector>>>,
    states: Seq<Snapshot<LosState<M::Vector>>>,
    i: int,
) -> bool {
    if i == 0 {
        clear(
            sphere,
            process,
            start,
            inputs[0].input,
            elapsed_us(start_time, inputs[0].timestamp),
        )
    } else {
        clear(
            sphere,
            process,
            states[i - 1].state,
            inputs[i].input,
            elapsed_us(Some(inputs[i - 1].timestamp), inputs[i].timestamp),
        )
    }
}

/// So it is with all measurements of a run.
pub open spec fn clear_run<M: LosModel>(
    sphere: Sphere<M>,
    process: AlphaBeta<M>,
    start: LosState<M::Vector>,
    start_time: Option<u64>,
    inputs: Seq<Recorded<Option<M::Vector>>>,
    states: Seq<Snapshot<LosState<M::Vector>>>,
) -> bool {
    forall|i: int|
        0 <= i < states.len() ==> #[trigger] clear_at(
            sphere,
            process,
            start,
            start_time,
            inputs,
            states,
            i,
        )
}

/// So it is with all measurements that the filter takes in, or takes in again, when
/// `measurement` of instant `t` makes it `next`.
pub open spec fn clear_throughout<M: LosModel>(
    sphere: Sphere<M>,
    h: History<AlphaBeta<M>>,
    t: u64,
    measurement: Option<M::Vector>,
    next: History<AlphaBeta<M>>,
) -> bool {
    if h.is_late(t) {
        forall|
            all: Seq<Recorded<Option<M::Vector>>>,
            replayed: Seq<Snapshot<LosState<M::Vector>>>,
        |
            #[trigger] h.rewound(t, measurement, all, replayed, next) ==> clear_run(
                sphere,
                h.process,
                h.restored(t),
                h.restored_time(t),
                h.pending(t, next.inputs),
                replayed,
            )
    } else {
        clear(sphere, h.process, h.settled(), measurement, elapsed_us(h.settled_time(), t))
    }
}

/// All that a filter knows has unit length: the directions of its states, to which the rates
/// are square, and its measurements.
pub open spec fn on_the_sphere<M: LosModel>(sphere: Sphere<M>, h: History<AlphaBeta<M>>) -> bool {
    &&& sphere.holds(h.state)
    &&& forall|i: int|
        0 <= i < h.snapshots.len() ==> #[trigger] sphere.holds(h.snapshots[i].state)
    &&& forall|i: int| 0 <= i < h.inputs.len() ==> #[trigger] sphere.measures(h.inputs[i].input)
}

/// One step stays on the sphere.
proof fn step_stays_on_the_sphere<M: LosModel>(
    sphere: Sphere<M>,
    process: AlphaBeta<M>,
    zero: M::Vector,
    state: LosState<M::Vector>,
    measurement: Option<M::Vector>,
    dt_us: u64,
    next: LosState<M::Vector>,
)
    requires
        sphere.exact(process.model, process.alpha, zero),
        sphere.holds(state),
        state.still_if_blind(zero),
        sphere.measures(measurement),
        clear(sphere, process, state, measurement, dt_us),
        process.stepped(state, measurement, dt_us, next),
    ensures
        sphere.holds(next),
        measurement is Some || state.unit is Some ==> next.unit is Some,
{
    let dt = choose|dt: M::Scalar|
        {
            &&& #[trigger] call_ensures(M::time_step, (&process.model, dt_us), dt)
            &&& updated(
                process.model,
                process.alpha,
                process.beta,
                state,
                measurement,
                dt,
                dt_us > 0,
                next,
            )
        };
    updates_stay_on_the_sphere(
        sphere,
        process.model,
        process.alpha,
        process.beta,
        zero,
        state,
        measurement,
        dt,
        dt_us > 0,
        next,
    );
}

/// So does a run.
proof fn run_stays_on_the_sphere<M: LosModel>(
    sphere: Sphere<M>,
    process: AlphaBeta<M>,
    zero: M::Vector,
    start: LosState<M::Vector>,
    start_time: Option<u64>,
    inputs: Seq<Recorded<Option<M::Vector>>>,
    states: Seq<Snapshot<LosState<M::Vector>>>,
    n: int,
)
    requires
        sphere.exact(process.model, process.alpha, zero),
        sphere.holds(start),
        start.still_if_blind(zero),
        run(process, start, start_time, inputs, states),
        forall|i: int| 0 <= i < inputs.len() ==> #[trigger] sphere.measures(inputs[i].input),
        clear_run(sphere, process, start, start_time, inputs, states),
        0 <= n < states.len(),
    ensures
        sphere.holds(states[n].state),
    decreases n,
{
    assert(link(process, start, start_time, inputs, states, n));
    assert(clear_at(sphere, process, start, start_time, inputs, states, n));
    assert(sphere.measures(inputs[n].input));
    let (before, since) = if n == 0 {
        (start, start_time)
    } else {
        run_stays_on_the_sphere(
            sphere,
            process,
            zero,
            start,
            start_time,
            inputs,
            states,
            n - 1,
        );
        run_stays_still(process, start, start_time, inputs, states, zero, n - 1);
        (states[n - 1].state, Some(inputs[n - 1].timestamp))
    };
    let dt_us = elapsed_us(since, inputs[n].timestamp);
    steps_are_updates(process, before, inputs[n].input, dt_us, states[n].state);
    step_stays_on_the_sphere(
        sphere,
        process,
        zero,
        before,
        inputs[n].input,
        dt_us,
        states[n].state,
    );
}

/// A filter that is new or has been reset has no direction that could be off the sphere.
pub proof fn blank_filter_is_on_the_sphere<M: LosModel>(
    sphere: Sphere<M>,
    filter: AlphaBetaLos<M>,
)
    requires
        filter.wf(),
        filter.history().blank(),
    ensures
        on_the_sphere(sphere, filter.history()),
{
}

/// But for rounding, fusing measurements of unit length, late or not, keeps the direction on
/// the unit sphere and the rate square to it, in all states that the filter knows; unless a
/// measurement is exactly opposite to what is predicted.
pub proof fn fusing_stays_on_the_sphere<M: LosModel>(
    sphere: Sphere<M>,
    filter: AlphaBetaLos<M>,
    t: u64,
    measurement: Option<M::Vector>,
    next: AlphaBetaLos<M>,
)
    requires
        sphere.exact(
            filter.history().process.model,
            filter.history().process.alpha,
            filter.zero(),
        ),
        filter.wf(),
        on_the_sphere(sphere, filter.history()),
        sphere.measures(measurement),
        filter.history().fused(t, measurement, next.history()),
        clear_throughout(sphere, filter.history(), t, measurement, next.history()),
    ensures
        on_the_sphere(sphere, next.history()),
{
    let h = filter.history();
    let n = next.history();
    let zero = filter.zero();
    let new = Recorded { timestamp: t, input: measurement };
    if h.is_late(t) {
        let (all, replayed) = choose|
            all: Seq<Recorded<Option<M::Vector>>>,
            replayed: Seq<Snapshot<LosState<M::Vector>>>,
        |
            h.rewound(t, measurement, all, replayed, n);
        let kept = h.kept(t);
        let pending = h.pending(t, n.inputs);
        count_older_is_bounded(h.snapshots, t);
        if kept.len() > 0 {
            assert(kept.last() == h.snapshots[kept.len() - 1]);
        }
        let pos = place_of(h.inputs, new, all);
        assert forall|i: int| 0 <= i < n.inputs.len() implies #[trigger] sphere.measures(
            n.inputs[i].input,
        ) by {
            let j = i + all.len() - n.inputs.len();
            assert(n.inputs[i] == all[j]);
            if j < pos {
                assert(sphere.measures(h.inputs[j].input));
            } else if j > pos {
                assert(sphere.measures(h.inputs[j - 1].input));
            }
        }
        assert forall|i: int| 0 <= i < pending.len() implies #[trigger] sphere.measures(
            pending[i].input,
        ) by {
            match h.restored_time(t) {
                Some(since) => {
                    after_is_part(n.inputs, since);
                    assert(n.inputs.contains(pending[i]));
                    let j = choose|j: int| 0 <= j < n.inputs.len() && n.inputs[j] == pending[i];
                    assert(sphere.measures(n.inputs[j].input));
                },
                None => {
                    assert(sphere.measures(n.inputs[i].input));
                },
            }
        }
        assert forall|i: int| 0 <= i < replayed.len() implies #[trigger] sphere.holds(
            replayed[i].state,
        ) by {
            run_stays_on_the_sphere(
                sphere,
                h.process,
                zero,
                h.restored(t),
                h.restored_time(t),
                pending,
                replayed,
                i,
            );
        }
        let states = kept + replayed;
        assert forall|i: int| 0 <= i < n.snapshots.len() implies #[trigger] sphere.holds(
            n.snapshots[i].state,
        ) by {
            let j = i + states.len() - n.snapshots.len();
            assert(n.snapshots[i] == states[j]);
            if j < kept.len() {
                assert(states[j] == h.snapshots[j]);
                assert(sphere.holds(h.snapshots[j].state));
            } else {
                assert(states[j] == replayed[j - kept.len()]);
            }
        }
        assert(sphere.holds(replayed[replayed.len() - 1].state));
    } else {
        let dt_us = elapsed_us(h.settled_time(), t);
        if h.snapshots.len() > 0 {
            assert(sphere.holds(h.snapshots[h.snapshots.len() - 1].state));
        }
        steps_are_updates(h.process, h.settled(), measurement, dt_us, n.state);
        step_stays_on_the_sphere(
            sphere,
            h.process,
            zero,
            h.settled(),
            measurement,
            dt_us,
            n.state,
        );
        let states = h.snapshots.push(Snapshot { timestamp: t, state: n.state });
        let inputs = h.inputs.push(new);
        assert forall|i: int| 0 <= i < n.snapshots.len() implies #[trigger] sphere.holds(
            n.snapshots[i].state,
        ) by {
            let j = i + states.len() - n.snapshots.len();
            assert(n.snapshots[i] == states[j]);
            if j < h.snapshots.len() {
                assert(sphere.holds(h.snapshots[j].state));
            }
        }
        assert forall|i: int| 0 <= i < n.inputs.len() implies #[trigger] sphere.measures(
            n.inputs[i].input,
        ) by {
            let j = i + inputs.len() - n.inputs.len();
            assert(n.inputs[i] == inputs[j]);
            if j < h.inputs.len() {
                assert(sphere.measures(h.inputs[j].input));
            }
        }
    }
}

/// But for rounding, coasting keeps it so.
pub proof fn coasting_stays_on_the_sphere<M: LosModel>(
    sphere: Sphere<M>,
    filter: AlphaBetaLos<M>,
    now: u64,
    next: AlphaBetaLos<M>,
)
    requires
        sphere.exact(
            filter.history().process.model,
            filter.history().process.alpha,
            filter.zero(),
        ),
        filter.wf(),
        on_the_sphere(sphere, filter.history()),
        filter.history().coasted(now, next.history()),
    ensures
        on_the_sphere(sphere, next.history()),
{
    let h = filter.history();
    if elapsed_us(h.time, now) > 0 {
        let dt_us = elapsed_us(h.settled_time(), now);
        if h.snapshots.len() > 0 {
            assert(sphere.holds(h.snapshots[h.snapshots.len() - 1].state));
        }
        steps_are_updates(h.process, h.settled(), None, dt_us, next.history().state);
        step_stays_on_the_sphere(
            sphere,
            h.process,
            filter.zero(),
            h.settled(),
            None,
            dt_us,
            next.history().state,
        );
    }
}

/// An estimate of a filter on the sphere, once it has a direction, is a unit vector and a rate
/// square to it.
pub proof fn estimate_is_on_the_sphere<M: LosModel>(sphere: Sphere<M>, filter: AlphaBetaLos<M>)
    requires
        on_the_sphere(sphere, filter.history()),
        filter.history().state.unit is Some,
    ensures
        (sphere.unit)(filter.history().state.estimate(filter.forward()).0),
        (sphere.square)(
            filter.history().state.estimate(filter.forward()).1,
            filter.history().state.estimate(filter.forward()).0,
        ),
{
}

/// Taking a measurement in, or coasting, is the update of [`crate::los`] over exactly the time
/// that has passed; the rate is corrected wherever any has.
pub proof fn steps_take_their_time<M: LosModel>(
    process: AlphaBeta<M>,
    state: LosState<M::Vector>,
    measurement: Option<M::Vector>,
    dt_us: u64,
    dt: M::Scalar,
    stepped: LosState<M::Vector>,
    coasted: LosState<M::Vector>,
    course: Correction<M>,
)
    requires
        functional::<M>(),
        call_ensures(M::time_step, (&process.model, dt_us), dt),
        steps_to(process, state, measurement, dt_us, stepped),
        coasts_to(process, state, dt_us, coasted),
        state.unit matches Some(unit) ==> course.follows(
            process.model,
            process.alpha,
            process.beta,
            unit,
            state.rate,
            measurement,
            dt,
        ),
    ensures
        stepped.unit == match (state.unit, measurement) {
            (Some(_), Some(_)) => Some(course.direction),
            (Some(_), None) => Some(course.predicted),
            (None, _) => measurement,
        },
        stepped.rate == match (state.unit, measurement) {
            (Some(_), Some(_)) => if dt_us > 0 {
                course.tangential
            } else {
                course.unrenewed
            },
            (Some(_), None) => course.coasting,
            (None, _) => state.rate,
        },
        coasted == match state.unit {
            Some(_) => LosState { unit: Some(course.predicted), rate: course.coasting },
            None => state,
        },
{
    steps_are_updates(process, state, measurement, dt_us, stepped);
    steps_are_updates(process, state, measurement, dt_us, coasted);
    updates_follow_the_correction(
        process.model,
        process.alpha,
        process.beta,
        state,
        measurement,
        dt,
        dt_us > 0,
        stepped,
        course,
    );
    updates_follow_the_correction(
        process.model,
        process.alpha,
        process.beta,
        state,
        None,
        dt,
        dt_us > 0,
        coasted,
        course,
    );
}

/// A filter whose last measurement was of instant `last`, and that is asked for a later instant
/// than any before, gives the direction after that measurement, predicted at its rate over all
/// the time since then, and what is tangential of that rate.
pub proof fn extrapolation_covers_the_whole_time<M: LosModel>(
    filter: AlphaBetaLos<M>,
    now: u64,
    next: AlphaBetaLos<M>,
    last: u64,
    unit: M::Vector,
    rate: M::Vector,
    dt_us: u64,
    dt: M::Scalar,
    ahead: M::Vector,
    tangential: M::Vector,
)
    requires
        functional::<M>(),
        filter.wf(),
        filter.history().snapshots.len() > 0,
        filter.history().snapshots.last() == (Snapshot {
            timestamp: last,
            state: LosState { unit: Some(unit), rate },
        }),
        filter.history().time matches Some(time) && time < now,
        last + dt_us == now,
        filter.history().coasted(now, next.history()),
        call_ensures(M::time_step, (&filter.history().process.model, dt_us), dt),
        call_ensures(
            M::predict,
            (&filter.history().process.model, unit, rate, dt),
            ahead,
        ),
        call_ensures(
            M::tangential,
            (&filter.history().process.model, ahead, rate),
            tangential,
        ),
    ensures
        next.history().state == (LosState { unit: Some(ahead), rate: tangential }),
{
    let process = filter.history().process;
    let state = filter.history().snapshots.last().state;
    steps_are_updates(process, state, None, dt_us, next.history().state);
}

/// A new filter has the clamped gain, the gain on the rate that belongs to it, and room for 256
/// measurements; it has taken nothing in and looks straight ahead.
pub proof fn new_filters_have_matching_gains<M: LosModel>(
    model: M,
    alpha: M::Scalar,
    r: AlphaBetaLos<M>,
    clamped: M::Scalar,
    beta: M::Scalar,
    forward: M::Vector,
    zero: M::Vector,
)
    requires
        functional::<M>(),
        call_ensures(AlphaBetaLos::<M>::new, (model, alpha), r),
        call_ensures(M::clamp_gain, (&model, alpha), clamped),
        call_ensures(M::rate_gain, (&model, clamped), beta),
        call_ensures(M::forward, (&model,), forward),
        call_ensures(M::zero, (&model,), zero),
    ensures
        r.history().process == (AlphaBeta { model, alpha: clamped, beta }),
        r.history().inputs.len() == 0,
        r.history().snapshots.len() == 0,
        r.history().time is None,
        r.history().limit == 256,
        r.history().state == (LosState { unit: None, rate: zero }),
        r.forward() == forward,
        r.zero() == zero,
{
}

/// A call of [`AlphaBetaLos::predict_to`] for a later instant than any before gives the direction
/// after the last measurement, predicted at its rate over all the time since then, and what is
/// tangential of that rate. It does not change what the filter remembers.
pub proof fn asking_ahead_predicts_from_the_last_measurement<M: LosModel>(
    filter: &mut AlphaBetaLos<M>,
    now: u64,
    r: (M::Vector, M::Vector),
    last: u64,
    unit: M::Vector,
    rate: M::Vector,
    dt_us: u64,
    dt: M::Scalar,
    ahead: M::Vector,
    tangential: M::Vector,
)
    requires
        functional::<M>(),
        old(filter).wf(),
        call_ensures(AlphaBetaLos::<M>::predict_to, (filter, now), r),
        old(filter).history().snapshots.len() > 0,
        old(filter).history().snapshots.last() == (Snapshot {
            timestamp: last,
            state: LosState { unit: Some(unit), rate },
        }),
        old(filter).history().time matches Some(time) && time < now,
        last + dt_us == now,
        call_ensures(M::time_step, (&old(filter).history().process.model, dt_us), dt),
        call_ensures(
            M::predict,
            (&old(filter).history().process.model, unit, rate, dt),
            ahead,
        ),
        call_ensures(
            M::tangential,
            (&old(filter).history().process.model, ahead, rate),
            tangential,
        ),
    ensures
        r == (ahead, tangential),
        final(filter).history().process == old(filter).history().process,
        final(filter).history().initial == old(filter).history().initial,
        final(filter).history().limit == old(filter).history().limit,
        final(filter).forward() == old(filter).forward(),
        final(filter).zero() == old(filter).zero(),
        final(filter).history().snapshots == old(filter).history().snapshots,
        final(filter).history().inputs == old(filter).history().inputs,
{
    extrapolation_covers_the_whole_time(
        *old(filter),
        now,
        *final(filter),
        last,
        unit,
        rate,
        dt_us,
        dt,
        ahead,
        tangential,
    );
}

/// A call of [`AlphaBetaLos::fuse`] with a measurement that is not late gives what prediction over
/// all the time since the last one, and correction there, lead to; where no time has passed the
/// rate is not corrected.
pub proof fn fusing_predicts_and_corrects<M: LosModel>(
    filter: &mut AlphaBetaLos<M>,
    timestamp: u64,
    measurement: Option<M::Vector>,
    r: (M::Vector, M::Vector),
    last: u64,
    unit: M::Vector,
    rate: M::Vector,
    dt_us: u64,
    dt: M::Scalar,
    course: Correction<M>,
)
    requires
        functional::<M>(),
        old(filter).wf(),
        call_ensures(AlphaBetaLos::<M>::fuse, (filter, timestamp, measurement), r),
        old(filter).history().snapshots.len() > 0,
        old(filter).history().snapshots.last() == (Snapshot {
            timestamp: last,
            state: LosState { unit: Some(unit), rate },
        }),
        last + dt_us == timestamp,
        call_ensures(M::time_step, (&old(filter).history().process.model, dt_us), dt),
        course.follows(
            old(filter).history().process.model,
            old(filter).history().process.alpha,
            old(filter).history().process.beta,
            unit,
            rate,
            measurement,
            dt,
        ),
    ensures
        r == match measurement {
            Some(_) => (
                course.direction,
                if dt_us > 0 {
                    course.tangential
                } else {
                    course.unrenewed
                },
            ),
            None => (course.predicted, course.coasting),
        },
        final(filter).history().time == Some(timestamp),
{
    let process = old(filter).history().process;
    let state = old(filter).history().snapshots.last().state;
    steps_are_updates(process, state, measurement, dt_us, final(filter).history().state);
    updates_follow_the_correction(
        process.model,
        process.alpha,
        process.beta,
        state,
        measurement,
        dt,
        dt_us > 0,
        final(filter).history().state,
        course,
    );
}

/// A call of [`AlphaBetaLos::fuse`] with a measurement that is late, but not beyond what the filter
/// can go back to, leaves it where it would be had all measurements there ever were, `all`,
/// arrived in chronological order.
pub proof fn fusing_makes_up_for_late_measurements<M: LosModel>(
    filter: &mut AlphaBetaLos<M>,
    timestamp: u64,
    measurement: Option<M::Vector>,
    r: (M::Vector, M::Vector),
    all: Seq<Recorded<Option<M::Vector>>>,
    states: Seq<Snapshot<LosState<M::Vector>>>,
)
    requires
        old(filter).wf(),
        old(filter).history().recalls(all, states),
        old(filter).history().reaches(timestamp),
        call_ensures(AlphaBetaLos::<M>::fuse, (filter, timestamp, measurement), r),
    ensures
        exists|all2: Seq<Recorded<Option<M::Vector>>>, states2: Seq<Snapshot<LosState<M::Vector>>>|
            inserted(all, Recorded { timestamp, input: measurement }, all2)
                && #[trigger] final(filter).history().remembers(all2, states2),
        r == final(filter).history().state.estimate(old(filter).forward()),
        final(filter).history().process == old(filter).history().process,
        final(filter).history().initial == old(filter).history().initial,
        final(filter).history().limit == old(filter).history().limit,
        final(filter).forward() == old(filter).forward(),
        final(filter).zero() == old(filter).zero(),
{
    late_inputs_are_made_up_for(
        old(filter).history(),
        all,
        states,
        timestamp,
        measurement,
        final(filter).history(),
    );
}

/// A call of [`AlphaBetaLos::reset`] makes the filter forget all it has taken in, and nothing else.
pub proof fn resetting_forgets_the_target<M: LosModel>(filter: &mut AlphaBetaLos<M>)
    requires
        old(filter).wf(),
        call_ensures(AlphaBetaLos::<M>::reset, (filter,), ()),
    ensures
        final(filter).history().process == old(filter).history().process,
        final(filter).history().initial == old(filter).history().initial,
        final(filter).history().limit == old(filter).history().limit,
        final(filter).forward() == old(filter).forward(),
        final(filter).zero() == old(filter).zero(),
        final(filter).history().inputs.len() == 0,
        final(filter).history().snapshots.len() == 0,
        final(filter).history().time is None,
        final(filter).history().state == (LosState { unit: None, rate: old(filter).zero() }),
{
}

/// The current estimate is the direction and rate of the current state, or the direction straight
/// ahead, at rest, where there has been no measurement.
pub proof fn estimates_are_of_the_current_state<M: LosModel>(
    filter: AlphaBetaLos<M>,
    r: (M::Vector, M::Vector),
)
    requires
        filter.wf(),
        call_ensures(AlphaBetaLos::<M>::current_estimate, (&filter,), r),
    ensures
        filter.history().state.unit matches Some(unit) ==> r == (
            unit,
            filter.history().state.rate,
        ),
        filter.history().state.unit is None ==> r == (filter.forward(), filter.zero()),
{
}

} // verus!
