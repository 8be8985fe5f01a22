//! Filters that take measurements in any order of arrival.
//!
//! A [`Rewind`] keeps the inputs of a filter and the state after each of them. An input
//! that arrives late is put at its chronological place: the filter goes back to the last
//! state before it and takes all later inputs again.

use std::collections::VecDeque;
use vstd::prelude::*;
use crate::chronology::{evict, insert, Stamped};
use crate::clock::elapsed_micros;

#[allow(unused_imports)]
use crate::chronology::{
    chronological, fits, inserted, inserting_adds_one, is_place, newest, newest_of_push,
    newest_of_suffix, newest_stays_chronological, place_of, precedes_equal,
    strict_order_is_unique, strictly_chronological,
};
#[allow(unused_imports)]
use crate::clock::elapsed_us;

verus! {

/// The formulas of a filter.
pub trait Process {
    type State: Copy;

    type Input: Copy;

    /// The state after taking `input` in, `dt_us` microseconds after `state`.
    fn step(&self, state: Self::State, input: Self::Input, dt_us: u64) -> Self::State;

    /// The state `dt_us` microseconds after `state`, with nothing taken in.
    fn coast(&self, state: Self::State, dt_us: u64) -> Self::State;
}

/// An input and the instant it belongs to.
#[derive(Clone, Copy)]
pub struct Recorded<I> {
    pub timestamp: u64,
    pub input: I,
}

/// The state of a filter right after the input of that instant.
#[derive(Clone, Copy)]
pub struct Snapshot<S> {
    pub timestamp: u64,
    pub state: S,
}

impl<I> Stamped for Recorded<I> {
    open spec fn stamp(&self) -> u64 {
        self.timestamp
    }

    fn timestamp(&self) -> (t: u64) {
        self.timestamp
    }
}

impl<S> Stamped for Snapshot<S> {
    open spec fn stamp(&self) -> u64 {
        self.timestamp
    }

    fn timestamp(&self) -> (t: u64) {
        self.timestamp
    }
}

/// What a [`Rewind`] holds.
pub ghost struct History<P: Process> {
    pub process: P,
    /// State of a filter that has taken nothing in.
    pub initial: P::State,
    /// The current state, and the instant it belongs to.
    pub state: P::State,
    pub time: Option<u64>,
    /// The inputs that are still known, oldest first, and the state after each of them.
    pub inputs: Seq<Recorded<P::Input>>,
    pub snapshots: Seq<Snapshot<P::State>>,
    /// How many of each are kept.
    pub limit: nat,
}

/// Taking `input` in leads from `state` to `next`.
pub open spec fn steps_to<P: Process>(
    process: P,
    state: P::State,
    input: P::Input,
    dt_us: u64,
    next: P::State,
) -> bool {
    call_ensures(P::step, (&process, state, input, dt_us), next)
}

/// Taking nothing in leads from `state` to `next`.
pub open spec fn coasts_to<P: Process>(
    process: P,
    state: P::State,
    dt_us: u64,
    next: P::State,
) -> bool {
    call_ensures(P::coast, (&process, state, dt_us), next)
}

/// One step of a run: the `i`-th of `states` comes from the one before it (from `start`,
/// where it is the first) by the `i`-th of `inputs`.
pub open spec fn link<P: Process>(
    process: P,
    start: P::State,
    start_time: Option<u64>,
    inputs: Seq<Recorded<P::Input>>,
    states: Seq<Snapshot<P::State>>,
    i: int,
) -> bool {
    let before = if i == 0 {
        start
    } else {
        states[i - 1].state
    };
    let since = if i == 0 {
        start_time
    } else {
        Some(inputs[i - 1].timestamp)
    };
    &&& states[i].timestamp == inputs[i].timestamp
    &&& steps_to(
        process,
        before,
        inputs[i].input,
        elapsed_us(since, inputs[i].timestamp),
        states[i].state,
    )
}

/// `states` are the states of a filter that takes `inputs` in, one after the other,
/// from `start` on.
pub open spec fn run<P: Process>(
    process: P,
    start: P::State,
    start_time: Option<u64>,
    inputs: Seq<Recorded<P::Input>>,
    states: Seq<Snapshot<P::State>>,
) -> bool {
    &&& states.len() == inputs.len()
    &&& forall|i: int|
        0 <= i < states.len() ==> #[trigger] link(process, start, start_time, inputs, states, i)
}

/// How many entries are left of `s` when those at its end that are not older than `t`
/// are cut off.
pub open spec fn count_older<E: Stamped>(s: Seq<E>, t: u64) -> nat
    decreases s.len(),
{
    if s.len() == 0 {
        0
    } else if s.last().stamp() < t {
        s.len()
    } else {
        count_older(s.drop_last(), t)
    }
}

/// The entries of `s` that follow the last one stamped `t` or earlier.
pub open spec fn after<E: Stamped>(s: Seq<E>, t: u64) -> Seq<E>
    decreases s.len(),
{
    if s.len() == 0 || s.last().stamp() <= t {
        Seq::empty()
    } else {
        after(s.drop_last(), t).push(s.last())
    }
}

impl<P: Process> History<P> {
    /// Inputs and snapshots belong together, in chronological order, and the current state
    /// is not older than they are.
    pub open spec fn wf(self) -> bool {
        &&& self.limit >= 1
        &&& self.inputs.len() == self.snapshots.len() <= self.limit
        &&& chronological(self.inputs)
        &&& forall|i: int|
            0 <= i < self.inputs.len() ==> #[trigger] self.snapshots[i].timestamp
                == self.inputs[i].timestamp
        &&& match self.settled_time() {
            Some(last) => self.time matches Some(now) && last <= now,
            None => self.time is None && self.state == self.initial,
        }
    }

    /// The state right after the last input, before any coasting.
    pub open spec fn settled(self) -> P::State {
        if self.snapshots.len() > 0 {
            self.snapshots.last().state
        } else {
            self.initial
        }
    }

    /// The instant of that state.
    pub open spec fn settled_time(self) -> Option<u64> {
        if self.snapshots.len() > 0 {
            Some(self.snapshots.last().timestamp)
        } else {
            None
        }
    }

    /// Nothing has been taken in.
    pub open spec fn blank(self) -> bool {
        &&& self.state == self.initial
        &&& self.time is None
        &&& self.inputs.len() == 0
        &&& self.snapshots.len() == 0
    }

    /// `self` and `other` belong to the same filter.
    pub open spec fn same_filter(self, other: Self) -> bool {
        &&& self.process == other.process
        &&& self.initial == other.initial
        &&& self.limit == other.limit
    }

    /// An input stamped `t` is older than the last one.
    pub open spec fn is_late(self, t: u64) -> bool {
        self.settled_time() matches Some(last) && t < last
    }

    /// `next` has taken an input in that is not late: from the state after the last input,
    /// whether or not the filter has coasted since.
    pub open spec fn extended(self, t: u64, input: P::Input, next: Self) -> bool {
        &&& next.time == Some(t)
        &&& steps_to(
            self.process,
            self.settled(),
            input,
            elapsed_us(self.settled_time(), t),
            next.state,
        )
        &&& next.inputs == newest(self.inputs.push(Recorded { timestamp: t, input }), self.limit)
        &&& next.snapshots == newest(
            self.snapshots.push(Snapshot { timestamp: t, state: next.state }),
            self.limit,
        )
    }

    /// The snapshots that are strictly older than `t`: those that a late input keeps.
    pub open spec fn kept(self, t: u64) -> Seq<Snapshot<P::State>> {
        self.snapshots.take(count_older(self.snapshots, t) as int)
    }

    /// The state that a late input stamped `t` goes back to.
    pub open spec fn restored(self, t: u64) -> P::State {
        if self.kept(t).len() > 0 {
            self.kept(t).last().state
        } else {
            self.initial
        }
    }

    /// The instant of that state.
    pub open spec fn restored_time(self, t: u64) -> Option<u64> {
        if self.kept(t).len() > 0 {
            Some(self.kept(t).last().timestamp)
        } else {
            None
        }
    }

    /// Those of `inputs` that a late input stamped `t` has taken in again: all that follow
    /// the restored state, or all where the filter starts afresh.
    pub open spec fn pending(
        self,
        t: u64,
        inputs: Seq<Recorded<P::Input>>,
    ) -> Seq<Recorded<P::Input>> {
        match self.restored_time(t) {
            Some(since) => after(inputs, since),
            None => inputs,
        }
    }

    /// `next` has taken a late input in: `all` are the inputs with the late one at its
    /// place, `replayed` the states that the run from the restored state goes through.
    pub open spec fn rewound(
        self,
        t: u64,
        input: P::Input,
        all: Seq<Recorded<P::Input>>,
        replayed: Seq<Snapshot<P::State>>,
        next: Self,
    ) -> bool {
        &&& inserted(self.inputs, Recorded { timestamp: t, input }, all)
        &&& next.inputs == newest(all, self.limit)
        &&& run(
            self.process,
            self.restored(t),
            self.restored_time(t),
            self.pending(t, next.inputs),
            replayed,
        )
        &&& replayed.len() > 0
        &&& next.snapshots == newest(self.kept(t) + replayed, self.limit)
        &&& next.state == replayed.last().state
        &&& next.time == Some(replayed.last().timestamp)
    }

    /// `next` is `self` with `input` taken in at instant `t`.
    pub open spec fn fused(self, t: u64, input: P::Input, next: Self) -> bool {
        &&& next.same_filter(self)
        &&& if self.is_late(t) {
            exists|all: Seq<Recorded<P::Input>>, replayed: Seq<Snapshot<P::State>>|
                self.rewound(t, input, all, replayed, next)
        } else {
            self.extended(t, input, next)
        }
    }

    /// `next` is `self` moved on to `now` with nothing taken in, from the state after the last
    /// input. A filter that has taken nothing in, or is at `now` already, stays as it is.
    pub open spec fn coasted(self, now: u64, next: Self) -> bool {
        if elapsed_us(self.time, now) == 0 {
            next == self
        } else {
            &&& next.same_filter(self)
            &&& next.inputs == self.inputs
            &&& next.snapshots == self.snapshots
            &&& next.time == Some(now)
            &&& coasts_to(
                self.process,
                self.settled(),
                elapsed_us(self.settled_time(), now),
                next.state,
            )
        }
    }
}

/// No more entries are kept than there are.
pub proof fn count_older_is_bounded<E: Stamped>(s: Seq<E>, t: u64)
    ensures
        count_older(s, t) <= s.len(),
    decreases s.len(),
{
    if s.len() > 0 && s.last().stamp() >= t {
        count_older_is_bounded(s.drop_last(), t);
    }
}

/// In a chronological sequence, the entries that [`count_older`] keeps are exactly those
/// older than `t`.
proof fn count_older_splits<E: Stamped>(s: Seq<E>, t: u64)
    requires
        chronological(s),
    ensures
        count_older(s, t) <= s.len(),
        forall|i: int| 0 <= i < count_older(s, t) ==> s[i].stamp() < t,
        forall|i: int| count_older(s, t) <= i < s.len() ==> t <= s[i].stamp(),
    decreases s.len(),
{
    if s.len() > 0 && s.last().stamp() >= t {
        let front = s.drop_last();
        count_older_splits(front, t);
        assert forall|i: int| 0 <= i < count_older(s, t) implies s[i].stamp() < t by {
            assert(front[i].stamp() < t);
        }
        assert forall|i: int| count_older(s, t) <= i < s.len() implies t <= s[i].stamp() by {
            if i < front.len() {
                assert(t <= front[i].stamp());
            }
        }
    }
}

/// What follows an instant in a sequence is part of the sequence.
pub proof fn after_is_part<E: Stamped>(s: Seq<E>, t: u64)
    ensures
        forall|i: int| 0 <= i < after(s, t).len() ==> s.contains(#[trigger] after(s, t)[i]),
    decreases s.len(),
{
    if s.len() > 0 && s.last().stamp() > t {
        let front = s.drop_last();
        after_is_part(front, t);
        assert forall|i: int| 0 <= i < after(s, t).len() implies s.contains(
            #[trigger] after(s, t)[i],
        ) by {
            if i < after(front, t).len() {
                assert(front.contains(after(front, t)[i]));
                let j = choose|j: int| 0 <= j < front.len() && front[j] == after(front, t)[i];
                assert(s[j] == after(s, t)[i]);
            } else {
                assert(s[s.len() - 1] == after(s, t)[i]);
            }
        }
    }
}

/// Where a chronological sequence splits at `k` into entries up to `t` and later ones,
/// [`after`] is the second part.
proof fn after_is_suffix<E: Stamped>(s: Seq<E>, t: u64, k: int)
    requires
        0 <= k <= s.len(),
        forall|i: int| 0 <= i < k ==> s[i].stamp() <= t,
        forall|i: int| k <= i < s.len() ==> t < s[i].stamp(),
    ensures
        after(s, t) == s.skip(k),
    decreases s.len(),
{
    if s.len() == 0 || s.last().stamp() <= t {
        assert(s.skip(k) =~= Seq::empty());
    } else {
        after_is_suffix(s.drop_last(), t, k);
        assert(s.drop_last().skip(k).push(s.last()) =~= s.skip(k));
    }
}

impl<P: Process> History<P> {
    /// After a late input, inputs and snapshots still belong together.
    proof fn late_input_stays_aligned(
        self,
        t: u64,
        input: P::Input,
        all: Seq<Recorded<P::Input>>,
        replayed: Seq<Snapshot<P::State>>,
        next: Self,
    )
        requires
            self.wf(),
            next.same_filter(self),
            inserted(self.inputs, Recorded { timestamp: t, input }, all),
            chronological(all),
            next.inputs == newest(all, self.limit),
            run(
                self.process,
                self.restored(t),
                self.restored_time(t),
                self.pending(t, next.inputs),
                replayed,
            ),
            next.snapshots == newest(self.kept(t) + replayed, self.limit),
            replayed.len() > 0 ==> next.state == replayed.last().state && next.time == Some(
                replayed.last().timestamp,
            ),
        ensures
            next.wf(),
            self.rewound(t, input, all, replayed, next),
    {
        let late = Recorded { timestamp: t, input };
        let n = self.inputs.len() as int;
        let k = count_older(self.snapshots, t) as int;
        let pending = self.pending(t, next.inputs);
        self.snapshots_are_chronological();
        count_older_splits(self.snapshots, t);
        newest_stays_chronological(all, self.limit);
        let pos = place_of(self.inputs, late, all);
        assert forall|i: int| 0 <= i < replayed.len() implies #[trigger] replayed[i].timestamp
            == pending[i].timestamp by {
            assert(link(
                self.process,
                self.restored(t),
                self.restored_time(t),
                pending,
                replayed,
                i,
            ));
        }
        if k > 0 {
            let since = self.snapshots[k - 1].timestamp;
            let dropped = all.len() - next.inputs.len();
            assert(self.inputs[k - 1].stamp() < t);
            assert(k <= pos);
            assert forall|i: int| 0 <= i < k - dropped implies next.inputs[i].stamp() <= since by {
                assert(next.inputs[i] == self.inputs[i + dropped]);
            }
            assert forall|i: int| k - dropped <= i < next.inputs.len() implies since
                < next.inputs[i].stamp() by {
                let j = i + dropped;
                assert(next.inputs[i] == all[j]);
                if j < pos {
                    assert(t <= self.snapshots[j].stamp());
                    assert(all[j] == self.inputs[j]);
                } else if j > pos {
                    assert(t <= self.inputs[j - 1].stamp());
                    assert(all[j] == self.inputs[j - 1]);
                }
            }
            after_is_suffix(next.inputs, since, k - dropped);
            let states = self.kept(t) + replayed;
            assert(states.len() == all.len());
            assert forall|i: int| 0 <= i < states.len() implies #[trigger] states[i].timestamp
                == all[i].timestamp by {
                if i < k {
                    assert(states[i] == self.snapshots[i]);
                    assert(all[i] == self.inputs[i]);
                } else {
                    assert(states[i] == replayed[i - k]);
                    assert(pending[i - k] == next.inputs[i - dropped]);
                }
            }
            assert(next.inputs.last() == all.last());
            assert(states.last() == replayed.last());
            assert forall|i: int| 0 <= i < next.inputs.len() implies #[trigger] next.snapshots[i].timestamp
                == next.inputs[i].timestamp by {
                assert(next.snapshots[i] == states[i + dropped]);
            }
        } else {
            assert(self.kept(t) + replayed =~= replayed);
        }
    }

    /// Snapshots are in the order of their inputs.
    proof fn snapshots_are_chronological(self)
        requires
            self.wf(),
        ensures
            chronological(self.snapshots),
    {
        assert forall|i: int, j: int| 0 <= i <= j < self.snapshots.len() implies
            self.snapshots[i].stamp() <= self.snapshots[j].stamp() by {
            assert(self.snapshots[i].timestamp == self.inputs[i].timestamp);
            assert(self.snapshots[j].timestamp == self.inputs[j].timestamp);
            assert(self.inputs[i].stamp() <= self.inputs[j].stamp());
        }
    }
}

impl<P: Process> History<P> {
    /// What the filter knows is what it would know had `all` its inputs arrived in
    /// chronological order: `states` are those it would have gone through, and it still knows
    /// the newest of them.
    pub open spec fn recalls(
        self,
        all: Seq<Recorded<P::Input>>,
        states: Seq<Snapshot<P::State>>,
    ) -> bool {
        &&& chronological(all)
        &&& run(self.process, self.initial, None, all, states)
        &&& self.inputs == newest(all, self.limit)
        &&& self.snapshots == newest(states, self.limit)
    }

    /// The filter is where it would be had `all` its inputs arrived in chronological order:
    /// it recalls them, and has not coasted since the last one.
    pub open spec fn remembers(
        self,
        all: Seq<Recorded<P::Input>>,
        states: Seq<Snapshot<P::State>>,
    ) -> bool {
        &&& self.recalls(all, states)
        &&& if states.len() > 0 {
            &&& self.state == states.last().state
            &&& self.time == Some(states.last().timestamp)
        } else {
            &&& self.state == self.initial
            &&& self.time is None
        }
    }

    /// `self` and `other` are the same filter with the same history: they differ by coasting
    /// only.
    pub open spec fn knows_the_same(self, other: Self) -> bool {
        &&& self.same_filter(other)
        &&& self.inputs == other.inputs
        &&& self.snapshots == other.snapshots
    }

    /// The filter can go back far enough to take in an input stamped `t`: the input is not
    /// late, nothing has to be forgotten for it, or an older input is still known.
    pub open spec fn reaches(self, t: u64) -> bool {
        ||| !self.is_late(t)
        ||| self.inputs.len() < self.limit
        ||| self.inputs[0].timestamp < t
    }
}

/// The formulas of `process` give one result for one set of arguments.
pub open spec fn deterministic<P: Process>(process: P) -> bool {
    forall|state: P::State, input: P::Input, dt_us: u64, a: P::State, b: P::State|
        #[trigger] steps_to(process, state, input, dt_us, a) && #[trigger] steps_to(
            process,
            state,
            input,
            dt_us,
            b,
        ) ==> a == b
}

/// A filter that has taken nothing in has nothing to remember.
pub proof fn blank_remembers_nothing<P: Process>(h: History<P>)
    requires
        h.blank(),
    ensures
        h.remembers(Seq::empty(), Seq::empty()),
{
    assert(h.inputs =~= Seq::empty());
    assert(h.snapshots =~= Seq::empty());
}

/// An input, however late, leaves the filter where it would be had it arrived in its turn,
/// as long as the filter can go back far enough: it is at the end of a run over all inputs
/// there ever were, in chronological order, however often it has coasted in between.
pub proof fn late_inputs_are_made_up_for<P: Process>(
    h: History<P>,
    all: Seq<Recorded<P::Input>>,
    states: Seq<Snapshot<P::State>>,
    t: u64,
    input: P::Input,
    next: History<P>,
)
    requires
        h.wf(),
        h.recalls(all, states),
        h.reaches(t),
        h.fused(t, input, next),
    ensures
        exists|all2: Seq<Recorded<P::Input>>, states2: Seq<Snapshot<P::State>>|
            inserted(all, Recorded { timestamp: t, input }, all2) && #[trigger] next.remembers(
                all2,
                states2,
            ),
{
    if h.is_late(t) {
        let (near, replayed) = choose|
            near: Seq<Recorded<P::Input>>,
            replayed: Seq<Snapshot<P::State>>,
        |
            h.rewound(t, input, near, replayed, next);
        late_input_is_made_up_for(h, all, states, t, input, near, replayed, next);
    } else {
        let new = Recorded { timestamp: t, input };
        let snapshot = Snapshot { timestamp: t, state: next.state };
        let n = all.len() as int;
        let all2 = all.push(new);
        let states2 = states.push(snapshot);
        if n > 0 {
            assert(link(h.process, h.initial, None, all, states, n - 1));
        }
        assert forall|i: int| 0 <= i < states2.len() implies #[trigger] link(
            h.process,
            h.initial,
            None,
            all2,
            states2,
            i,
        ) by {
            if i < n {
                assert(link(h.process, h.initial, None, all, states, i));
            }
        }
        assert(chronological(all2)) by {
            assert forall|i: int| 0 <= i < n implies all[i].stamp() <= t by {
                assert(all[i].stamp() <= all[n - 1].stamp());
            }
        }
        newest_of_push(all, new, h.limit);
        newest_of_push(states, snapshot, h.limit);
        assert(next.remembers(all2, states2));
    }
}

/// The beginning of a run is a run.
proof fn run_begins<P: Process>(
    process: P,
    start: P::State,
    start_time: Option<u64>,
    inputs: Seq<Recorded<P::Input>>,
    states: Seq<Snapshot<P::State>>,
    m: int,
)
    requires
        run(process, start, start_time, inputs, states),
        0 <= m <= inputs.len(),
    ensures
        run(process, start, start_time, inputs.take(m), states.take(m)),
{
    assert forall|i: int| 0 <= i < m implies #[trigger] link(
        process,
        start,
        start_time,
        inputs.take(m),
        states.take(m),
        i,
    ) by {
        assert(link(process, start, start_time, inputs, states, i));
    }
}

/// A run over the first `m` inputs, and one over the others from where the first ends, make
/// one run.
proof fn runs_join<P: Process>(
    process: P,
    start: P::State,
    start_time: Option<u64>,
    inputs: Seq<Recorded<P::Input>>,
    m: int,
    first: Seq<Snapshot<P::State>>,
    then_start: P::State,
    then_time: Option<u64>,
    others: Seq<Snapshot<P::State>>,
)
    requires
        0 <= m <= inputs.len(),
        run(process, start, start_time, inputs.take(m), first),
        run(process, then_start, then_time, inputs.skip(m), others),
        if m == 0 {
            then_start == start && then_time == start_time
        } else {
            then_start == first.last().state && then_time == Some(inputs[m - 1].timestamp)
        },
    ensures
        run(process, start, start_time, inputs, first + others),
{
    let states = first + others;
    assert forall|i: int| 0 <= i < states.len() implies #[trigger] link(
        process,
        start,
        start_time,
        inputs,
        states,
        i,
    ) by {
        if i < m {
            assert(link(process, start, start_time, inputs.take(m), first, i));
        } else {
            assert(link(process, then_start, then_time, inputs.skip(m), others, i - m));
        }
    }
}

/// What [`History::recalls`] says of the known inputs and states: they are the last of all.
proof fn known_are_the_last<P: Process>(
    h: History<P>,
    all: Seq<Recorded<P::Input>>,
    states: Seq<Snapshot<P::State>>,
    i: int,
)
    requires
        h.recalls(all, states),
        0 <= i < h.inputs.len(),
    ensures
        h.inputs[i] == all[i + all.len() - h.inputs.len()],
        h.snapshots[i] == states[i + all.len() - h.inputs.len()],
{
}

/// Where a late input stands at `pos` among the known inputs, it stands at the same place
/// among all.
proof fn late_place_is_the_same<P: Process>(
    h: History<P>,
    all: Seq<Recorded<P::Input>>,
    states: Seq<Snapshot<P::State>>,
    late: Recorded<P::Input>,
    pos: int,
)
    requires
        h.wf(),
        h.recalls(all, states),
        h.reaches(late.timestamp),
        h.is_late(late.timestamp),
        is_place(h.inputs, pos, late.timestamp),
    ensures
        h.inputs.len() < all.len() ==> count_older(h.snapshots, late.timestamp) > 0,
        count_older(h.snapshots, late.timestamp) <= h.inputs.len(),
        count_older(h.snapshots, late.timestamp) <= pos,
        inserted(all, late, all.insert(pos + all.len() - h.inputs.len(), late)),
        chronological(all.insert(pos + all.len() - h.inputs.len(), late)),
{
    let t = late.timestamp;
    let dropped = all.len() - h.inputs.len();
    let k = count_older(h.snapshots, t) as int;
    let at = pos + dropped;
    let all2 = all.insert(at, late);
    h.snapshots_are_chronological();
    count_older_splits(h.snapshots, t);
    if k > 0 {
        assert(h.snapshots[k - 1].stamp() < t);
        assert(h.snapshots[k - 1].timestamp == h.inputs[k - 1].timestamp);
        assert(h.inputs[k - 1].stamp() < t);
    } else if h.inputs.len() > 0 {
        assert(h.snapshots[0].timestamp == h.inputs[0].timestamp);
        assert(t <= h.snapshots[0].stamp());
    }
    assert(fits(all, at, t)) by {
        assert forall|i: int| 0 <= i < at implies all[i].stamp() <= t by {
            known_are_the_last(h, all, states, pos - 1);
            assert(h.inputs[pos - 1].stamp() <= t);
            assert(all[i].stamp() <= all[at - 1].stamp());
        }
        assert forall|i: int| at <= i < all.len() implies t <= all[i].stamp() by {
            known_are_the_last(h, all, states, i - dropped);
            assert(t <= h.inputs[i - dropped].stamp());
        }
    }
    if all.len() > 0 {
        known_are_the_last(h, all, states, h.inputs.len() - 1);
    }
    if all.len() == 0 || all.last().stamp() <= t {
        assert(all2 =~= all.push(late));
    } else {
        assert(precedes_equal(all, at, t)) by {
            if exists|i: int| 0 <= i < all.len() && #[trigger] all[i].stamp() == t {
                let i = choose|i: int| 0 <= i < all.len() && #[trigger] all[i].stamp() == t;
                if i < dropped {
                    known_are_the_last(h, all, states, 0);
                    assert(all[i].stamp() <= all[dropped].stamp());
                    assert(h.inputs[0].stamp() <= h.inputs[k - 1].stamp());
                }
                known_are_the_last(h, all, states, i - dropped);
                assert(h.inputs[i - dropped].stamp() == t);
                known_are_the_last(h, all, states, pos);
            }
        }
    }
}

/// The inputs that a late input has taken in again are those that follow the restored state.
proof fn pending_follow_the_restored<P: Process>(
    h: History<P>,
    all: Seq<Recorded<P::Input>>,
    states: Seq<Snapshot<P::State>>,
    late: Recorded<P::Input>,
    pos: int,
    inputs: Seq<Recorded<P::Input>>,
)
    requires
        h.wf(),
        h.recalls(all, states),
        h.reaches(late.timestamp),
        h.is_late(late.timestamp),
        is_place(h.inputs, pos, late.timestamp),
        inputs == newest(h.inputs.insert(pos, late), h.limit),
    ensures
        ({
            let dropped = all.len() - h.inputs.len();
            let k = count_older(h.snapshots, late.timestamp);
            let all2 = all.insert(pos + dropped, late);
            &&& h.pending(late.timestamp, inputs) == all2.skip(k + dropped)
            &&& inputs == newest(all2, h.limit)
        }),
{
    let t = late.timestamp;
    let near = h.inputs.insert(pos, late);
    let dropped = all.len() - h.inputs.len();
    let k = count_older(h.snapshots, t) as int;
    let all2 = all.insert(pos + dropped, late);
    late_place_is_the_same(h, all, states, late, pos);
    h.snapshots_are_chronological();
    count_older_splits(h.snapshots, t);
    assert(near =~= all2.skip(dropped));
    newest_of_suffix(all2, dropped, h.limit);
    if k > 0 {
        let since = h.snapshots[k - 1].timestamp;
        let evicted = near.len() - inputs.len();
        assert(h.kept(t).last() == h.snapshots[k - 1]);
        assert(h.snapshots[k - 1].timestamp == h.inputs[k - 1].timestamp);
        assert(h.snapshots[k - 1].stamp() < t);
        assert forall|i: int| 0 <= i < k - evicted implies inputs[i].stamp() <= since by {
            let j = i + evicted;
            assert(inputs[i] == h.inputs[j]);
            assert(h.inputs[j].stamp() <= h.inputs[k - 1].stamp());
        }
        assert forall|i: int| k - evicted <= i < inputs.len() implies since
            < inputs[i].stamp() by {
            let j = i + evicted;
            assert(inputs[i] == near[j]);
            if j < pos {
                assert(t <= h.snapshots[j].stamp());
                assert(h.snapshots[j].timestamp == h.inputs[j].timestamp);
            } else if j > pos {
                assert(t <= h.inputs[j - 1].stamp());
            }
        }
        after_is_suffix(inputs, since, k - evicted);
        assert(inputs.skip(k - evicted) =~= all2.skip(k + dropped));
    } else {
        if h.inputs.len() > 0 {
            assert(h.snapshots[0].timestamp == h.inputs[0].timestamp);
            assert(t <= h.snapshots[0].stamp());
        }
        assert(inputs == near);
        assert(all2.skip(0) =~= all2);
    }
}

/// The case of an input that is late: `near` are the known inputs with the late one at its
/// place, `replayed` the states that the filter goes through again.
proof fn late_input_is_made_up_for<P: Process>(
    h: History<P>,
    all: Seq<Recorded<P::Input>>,
    states: Seq<Snapshot<P::State>>,
    t: u64,
    input: P::Input,
    near: Seq<Recorded<P::Input>>,
    replayed: Seq<Snapshot<P::State>>,
    next: History<P>,
)
    requires
        h.wf(),
        h.recalls(all, states),
        h.reaches(t),
        h.is_late(t),
        next.same_filter(h),
        h.rewound(t, input, near, replayed, next),
    ensures
        exists|all2: Seq<Recorded<P::Input>>, states2: Seq<Snapshot<P::State>>|
            inserted(all, Recorded { timestamp: t, input }, all2) && #[trigger] next.remembers(
                all2,
                states2,
            ),
{
    let late = Recorded { timestamp: t, input };
    let dropped = all.len() - h.inputs.len();
    let k = count_older(h.snapshots, t) as int;
    let m = k + dropped;
    let pos = place_of(h.inputs, late, near);
    let pending = h.pending(t, next.inputs);
    let all2 = all.insert(pos + dropped, late);
    let states2 = states.take(m) + replayed;
    late_place_is_the_same(h, all, states, late, pos);
    pending_follow_the_restored(h, all, states, late, pos, next.inputs);
    if k > 0 {
        known_are_the_last(h, all, states, k - 1);
        assert(h.kept(t).last() == h.snapshots[k - 1]);
        assert(h.snapshots[k - 1].timestamp == h.inputs[k - 1].timestamp);
    }
    run_begins(h.process, h.initial, None, all, states, m);
    assert(all.take(m) =~= all2.take(m));
    runs_join(
        h.process,
        h.initial,
        None,
        all2,
        m,
        states.take(m),
        h.restored(t),
        h.restored_time(t),
        replayed,
    );
    assert(h.kept(t) + replayed =~= states2.skip(dropped));
    newest_of_suffix(states2, dropped, h.limit);
    assert(states2.last() == replayed.last());
    assert(next.remembers(all2, states2));
}

/// Coasting is invisible to inputs, late or not: filters that differ by coasting only are led
/// to the same states by them.
pub proof fn coasting_does_not_disturb_inputs<P: Process>(
    h: History<P>,
    coasted: History<P>,
    t: u64,
    input: P::Input,
    next: History<P>,
)
    requires
        h.knows_the_same(coasted),
    ensures
        h.fused(t, input, next) <==> coasted.fused(t, input, next),
{
    assert(coasted.kept(t) == h.kept(t));
    if h.is_late(t) && h.fused(t, input, next) {
        let (all, replayed) = choose|
            all: Seq<Recorded<P::Input>>,
            replayed: Seq<Snapshot<P::State>>,
        |
            h.rewound(t, input, all, replayed, next);
        assert(coasted.rewound(t, input, all, replayed, next));
    }
    if h.is_late(t) && coasted.fused(t, input, next) {
        let (all, replayed) = choose|
            all: Seq<Recorded<P::Input>>,
            replayed: Seq<Snapshot<P::State>>,
        |
            coasted.rewound(t, input, all, replayed, next);
        assert(h.rewound(t, input, all, replayed, next));
    }
}

/// Coasting leaves what the filter knows alone.
pub proof fn coasting_forgets_nothing<P: Process>(h: History<P>, now: u64, coasted: History<P>)
    requires
        h.coasted(now, coasted),
    ensures
        h.knows_the_same(coasted),
{
}

/// Coasting in several parts comes to the same as coasting at once.
pub proof fn coasting_again_is_coasting_once<P: Process>(
    h: History<P>,
    first: u64,
    coasted: History<P>,
    now: u64,
    next: History<P>,
)
    requires
        h.wf(),
        h.coasted(first, coasted),
        coasted.coasted(now, next),
        elapsed_us(coasted.time, now) > 0,
    ensures
        h.coasted(now, next),
{
}

/// A run over given inputs goes through one sequence of states only, where the formulas
/// are deterministic.
proof fn run_is_determined<P: Process>(
    process: P,
    start: P::State,
    start_time: Option<u64>,
    inputs: Seq<Recorded<P::Input>>,
    a: Seq<Snapshot<P::State>>,
    b: Seq<Snapshot<P::State>>,
    n: nat,
)
    requires
        deterministic(process),
        run(process, start, start_time, inputs, a),
        run(process, start, start_time, inputs, b),
        n <= inputs.len(),
    ensures
        a.take(n as int) == b.take(n as int),
    decreases n,
{
    if n > 0 {
        run_is_determined(process, start, start_time, inputs, a, b, (n - 1) as nat);
        let i = n - 1;
        assert(link(process, start, start_time, inputs, a, i));
        assert(link(process, start, start_time, inputs, b, i));
        if i > 0 {
            assert(a.take(i)[i - 1] == b.take(i)[i - 1]);
        }
        assert(a.take(n as int) =~= a.take(i).push(a[i]));
        assert(b.take(n as int) =~= b.take(i).push(b[i]));
    }
}

/// The order of arrival does not matter: two filters that have made up for all that was
/// late, with the same inputs, no two of one instant, are in the same state with the same
/// history.
pub proof fn arrival_order_does_not_matter<P: Process>(
    a: History<P>,
    all_a: Seq<Recorded<P::Input>>,
    states_a: Seq<Snapshot<P::State>>,
    b: History<P>,
    all_b: Seq<Recorded<P::Input>>,
    states_b: Seq<Snapshot<P::State>>,
)
    requires
        deterministic(a.process),
        a.same_filter(b),
        a.remembers(all_a, states_a),
        b.remembers(all_b, states_b),
        strictly_chronological(all_a),
        strictly_chronological(all_b),
        forall|r: Recorded<P::Input>| #[trigger] all_a.contains(r) <==> all_b.contains(r),
    ensures
        a == b,
{
    strict_order_is_unique(all_a, all_b);
    run_is_determined(a.process, a.initial, None, all_a, states_a, states_b, all_a.len());
    assert(states_a.take(all_a.len() as int) =~= states_a);
    assert(states_b.take(all_a.len() as int) =~= states_b);
}

/// Of two inputs of different, new instants, it does not matter which one arrives first, as
/// long as the filter can go back far enough for the other: the late one ends up where it
/// belongs.
pub proof fn late_input_is_as_good_as_punctual<P: Process>(
    h: History<P>,
    all: Seq<Recorded<P::Input>>,
    states: Seq<Snapshot<P::State>>,
    x: Recorded<P::Input>,
    y: Recorded<P::Input>,
    with_x: History<P>,
    x_then_y: History<P>,
    with_y: History<P>,
    y_then_x: History<P>,
)
    requires
        deterministic(h.process),
        h.wf(),
        with_x.wf(),
        with_y.wf(),
        h.recalls(all, states),
        strictly_chronological(all),
        x.timestamp != y.timestamp,
        forall|i: int|
            0 <= i < all.len() ==> #[trigger] all[i].stamp() != x.timestamp && all[i].stamp()
                != y.timestamp,
        h.reaches(x.timestamp),
        h.fused(x.timestamp, x.input, with_x),
        with_x.reaches(y.timestamp),
        with_x.fused(y.timestamp, y.input, x_then_y),
        h.reaches(y.timestamp),
        h.fused(y.timestamp, y.input, with_y),
        with_y.reaches(x.timestamp),
        with_y.fused(x.timestamp, x.input, y_then_x),
    ensures
        x_then_y == y_then_x,
{
    let (xy, xy_states) = both_made_up_for(h, all, states, x, y, with_x, x_then_y);
    let (yx, yx_states) = both_made_up_for(h, all, states, y, x, with_y, y_then_x);
    arrival_order_does_not_matter(x_then_y, xy, xy_states, y_then_x, yx, yx_states);
}

/// What a filter remembers after two inputs.
proof fn both_made_up_for<P: Process>(
    h: History<P>,
    all: Seq<Recorded<P::Input>>,
    states: Seq<Snapshot<P::State>>,
    x: Recorded<P::Input>,
    y: Recorded<P::Input>,
    with_x: History<P>,
    x_then_y: History<P>,
) -> (r: (Seq<Recorded<P::Input>>, Seq<Snapshot<P::State>>))
    requires
        h.wf(),
        with_x.wf(),
        h.recalls(all, states),
        strictly_chronological(all),
        x.timestamp != y.timestamp,
        forall|i: int|
            0 <= i < all.len() ==> #[trigger] all[i].stamp() != x.timestamp && all[i].stamp()
                != y.timestamp,
        h.reaches(x.timestamp),
        h.fused(x.timestamp, x.input, with_x),
        with_x.reaches(y.timestamp),
        with_x.fused(y.timestamp, y.input, x_then_y),
    ensures
        x_then_y.same_filter(h),
        x_then_y.remembers(r.0, r.1),
        strictly_chronological(r.0),
        forall|e: Recorded<P::Input>| #[trigger]
            r.0.contains(e) <==> all.contains(e) || e == x || e == y,
{
    late_inputs_are_made_up_for(h, all, states, x.timestamp, x.input, with_x);
    let (one, one_states) = choose|
        one: Seq<Recorded<P::Input>>,
        one_states: Seq<Snapshot<P::State>>,
    |
        inserted(all, x, one) && #[trigger] with_x.remembers(one, one_states);
    inserting_adds_one(all, x, one);
    assert forall|i: int| 0 <= i < one.len() implies #[trigger] one[i].stamp() != y.timestamp by {
        assert(one.contains(one[i]));
    }
    late_inputs_are_made_up_for(with_x, one, one_states, y.timestamp, y.input, x_then_y);
    let (two, two_states) = choose|
        two: Seq<Recorded<P::Input>>,
        two_states: Seq<Snapshot<P::State>>,
    |
        inserted(one, y, two) && #[trigger] x_then_y.remembers(two, two_states);
    inserting_adds_one(one, y, two);
    (two, two_states)
}

/// The `i`-th of `inputs` arrives at a filter that started as `start`: the filter is `met[i]`
/// when it does, and `left[i]` right after it. Since the input before, it has at most
/// coasted.
pub open spec fn arrives<P: Process>(
    start: History<P>,
    inputs: Seq<Recorded<P::Input>>,
    met: Seq<History<P>>,
    left: Seq<History<P>>,
    i: int,
) -> bool {
    let before = if i == 0 {
        start
    } else {
        left[i - 1]
    };
    &&& met[i].wf()
    &&& before.knows_the_same(met[i])
    &&& met[i].fused(inputs[i].timestamp, inputs[i].input, left[i])
}

/// `inputs` arrive at a filter that started as `start`, one after the other.
pub open spec fn arrive<P: Process>(
    start: History<P>,
    inputs: Seq<Recorded<P::Input>>,
    met: Seq<History<P>>,
    left: Seq<History<P>>,
) -> bool {
    &&& met.len() == inputs.len()
    &&& left.len() == inputs.len()
    &&& forall|i: int| 0 <= i < inputs.len() ==> #[trigger] arrives(start, inputs, met, left, i)
}

/// No two of `inputs` belong to the same instant.
pub open spec fn distinct_instants<I>(inputs: Seq<Recorded<I>>) -> bool {
    forall|i: int, j: int|
        0 <= i < j < inputs.len() ==> #[trigger] inputs[i].timestamp != #[trigger] inputs[j].timestamp
}

/// What a filter remembers after `n` inputs.
proof fn arrived_are_remembered<P: Process>(
    start: History<P>,
    inputs: Seq<Recorded<P::Input>>,
    met: Seq<History<P>>,
    left: Seq<History<P>>,
    n: int,
) -> (r: (Seq<Recorded<P::Input>>, Seq<Snapshot<P::State>>))
    requires
        start.blank(),
        arrive(start, inputs, met, left),
        distinct_instants(inputs),
        0 <= n <= inputs.len() <= start.limit,
    ensures
        ({
            let end = if n == 0 {
                start
            } else {
                left[n - 1]
            };
            &&& end.same_filter(start)
            &&& end.remembers(r.0, r.1)
        }),
        r.0.len() == n,
        strictly_chronological(r.0),
        forall|e: Recorded<P::Input>| #[trigger] r.0.contains(e) <==> inputs.take(n).contains(e),
    decreases n,
{
    if n == 0 {
        blank_remembers_nothing(start);
        (Seq::empty(), Seq::empty())
    } else {
        let (all, states) = arrived_are_remembered(start, inputs, met, left, n - 1);
        let new = inputs[n - 1];
        let before = inputs.take(n - 1);
        assert(arrives(start, inputs, met, left, n - 1));
        assert(met[n - 1].recalls(all, states));
        late_inputs_are_made_up_for(
            met[n - 1],
            all,
            states,
            new.timestamp,
            new.input,
            left[n - 1],
        );
        let (all2, states2) = choose|
            all2: Seq<Recorded<P::Input>>,
            states2: Seq<Snapshot<P::State>>,
        |
            inserted(all, new, all2) && #[trigger] left[n - 1].remembers(all2, states2);
        assert forall|i: int| 0 <= i < all.len() implies #[trigger] all[i].stamp()
            != new.stamp() by {
            assert(all.contains(all[i]));
            let j = choose|j: int| 0 <= j < before.len() && before[j] == all[i];
            assert(inputs[j].timestamp != inputs[n - 1].timestamp);
        }
        inserting_adds_one(all, new, all2);
        assert(inputs.take(n) =~= before.push(new));
        assert forall|e: Recorded<P::Input>| #[trigger]
            all2.contains(e) <==> inputs.take(n).contains(e) by {
            if before.contains(e) {
                let j = choose|j: int| 0 <= j < before.len() && before[j] == e;
                assert(before.push(new)[j] == e);
            }
            if e == new {
                assert(before.push(new)[n - 1] == e);
            }
            if before.push(new).contains(e) {
                let j = choose|j: int| 0 <= j <= before.len() && before.push(new)[j] == e;
                if j < before.len() {
                    assert(before[j] == e);
                }
            }
        }
        (all2, states2)
    }
}

/// Whatever the order of arrival, the same inputs lead to the same state and history, at the
/// latest of their instants: for as many inputs as the filter can remember, of different
/// instants, however the filter coasts in between.
pub proof fn same_inputs_lead_to_the_same_state<P: Process>(
    start_a: History<P>,
    inputs_a: Seq<Recorded<P::Input>>,
    met_a: Seq<History<P>>,
    left_a: Seq<History<P>>,
    start_b: History<P>,
    inputs_b: Seq<Recorded<P::Input>>,
    met_b: Seq<History<P>>,
    left_b: Seq<History<P>>,
)
    requires
        deterministic(start_a.process),
        start_a.same_filter(start_b),
        start_a.blank(),
        start_b.blank(),
        arrive(start_a, inputs_a, met_a, left_a),
        arrive(start_b, inputs_b, met_b, left_b),
        distinct_instants(inputs_a),
        distinct_instants(inputs_b),
        forall|e: Recorded<P::Input>| #[trigger] inputs_a.contains(e) <==> inputs_b.contains(e),
        0 < inputs_a.len() <= start_a.limit,
        0 < inputs_b.len() <= start_a.limit,
    ensures
        left_a.last() == left_b.last(),
        left_a.last().time is Some,
        exists|i: int|
            0 <= i < inputs_a.len() && #[trigger] inputs_a[i].timestamp == left_a.last().time->0,
        forall|i: int|
            0 <= i < inputs_a.len() ==> #[trigger] inputs_a[i].timestamp <= left_a.last().time->0,
{
    let n = inputs_a.len() as int;
    let m = inputs_b.len() as int;
    let (all_a, states_a) = arrived_are_remembered(start_a, inputs_a, met_a, left_a, n);
    let (all_b, states_b) = arrived_are_remembered(start_b, inputs_b, met_b, left_b, m);
    assert(inputs_a.take(n) =~= inputs_a);
    assert(inputs_b.take(m) =~= inputs_b);
    let a = left_a.last();
    arrival_order_does_not_matter(a, all_a, states_a, left_b.last(), all_b, states_b);
    assert(link(a.process, a.initial, None, all_a, states_a, n - 1));
    assert(all_a.contains(all_a[n - 1]));
    let last = choose|i: int| 0 <= i < n && inputs_a[i] == all_a[n - 1];
    assert(inputs_a[last].timestamp == a.time->0);
    assert forall|i: int| 0 <= i < n implies #[trigger] inputs_a[i].timestamp <= a.time->0 by {
        assert(inputs_a.contains(inputs_a[i]));
        assert(all_a.contains(inputs_a[i]));
        let j = choose|j: int| 0 <= j < n && all_a[j] == inputs_a[i];
        if j < n - 1 {
            assert(all_a[j].stamp() < all_a[n - 1].stamp());
        }
    }
}

/// A filter with its history.
pub struct Rewind<P: Process> {
    process: P,
    initial: P::State,
    state: P::State,
    current_time: Option<u64>,
    snapshots: VecDeque<Snapshot<P::State>>,
    inputs: VecDeque<Recorded<P::Input>>,
    max_history: usize,
}

impl<P: Process> View for Rewind<P> {
    type V = History<P>;

    closed spec fn view(&self) -> History<P> {
        History {
            process: self.process,
            initial: self.initial,
            state: self.state,
            time: self.current_time,
            inputs: self.inputs@,
            snapshots: self.snapshots@,
            limit: self.max_history as nat,
        }
    }
}

impl<P: Process> Rewind<P> {
    /// A filter in state `initial` that keeps up to `max_history` inputs.
    pub fn new(process: P, initial: P::State, max_history: usize) -> (r: Self)
        requires
            max_history >= 1,
        ensures
            r@.wf(),
            r@.blank(),
            r@.process == process,
            r@.initial == initial,
            r@.limit == max_history,
    {
        Rewind {
            process,
            initial,
            state: initial,
            current_time: None,
            snapshots: VecDeque::new(),
            inputs: VecDeque::new(),
            max_history,
        }
    }

    /// The current state.
    pub fn state(&self) -> (r: P::State)
        ensures
            r == self@.state,
    {
        self.state
    }

    /// Forgets all inputs and goes back to the initial state.
    pub fn reset(&mut self)
        ensures
            final(self)@.blank(),
            final(self)@.same_filter(old(self)@),
            old(self)@.wf() ==> final(self)@.wf(),
    {
        self.state = self.initial;
        self.current_time = None;
        self.snapshots.clear();
        self.inputs.clear();
    }

    /// Saves the current state as the one right after the input of instant `timestamp`.
    fn save_snapshot(&mut self, timestamp: u64)
        ensures
            final(self)@ == (History {
                snapshots: newest(
                    old(self)@.snapshots.push(Snapshot { timestamp, state: old(self)@.state }),
                    old(self)@.limit,
                ),
                ..old(self)@
            }),
    {
        self.snapshots.push_back(Snapshot { timestamp, state: self.state });
        evict(&mut self.snapshots, self.max_history);
    }

    /// Records an input at its chronological place.
    fn record_input(&mut self, timestamp: u64, input: P::Input) -> (all: Ghost<
        Seq<Recorded<P::Input>>,
    >)
        requires
            chronological(old(self)@.inputs),
        ensures
            inserted(old(self)@.inputs, Recorded { timestamp, input }, all@),
            chronological(all@),
            final(self)@ == (History { inputs: newest(all@, old(self)@.limit), ..old(self)@ }),
    {
        insert(&mut self.inputs, Recorded { timestamp, input });
        let ghost all = self.inputs@;
        evict(&mut self.inputs, self.max_history);
        Ghost(all)
    }

    /// The instant of the last input, if there has been one.
    fn last_time(&self) -> (last: Option<u64>)
        ensures
            last == self@.settled_time(),
    {
        let n: usize = self.snapshots.len();
        if n > 0 {
            Some(self.snapshots[n - 1].timestamp)
        } else {
            None
        }
    }

    /// The state right after the last input.
    fn last_state(&self) -> (state: P::State)
        ensures
            state == self@.settled(),
    {
        let n: usize = self.snapshots.len();
        if n > 0 {
            self.snapshots[n - 1].state
        } else {
            self.initial
        }
    }

    /// Goes back to the state before the first input that is not older than `timestamp`,
    /// and forgets the states from there on. Returns the instant of that state.
    fn restore_before(&mut self, timestamp: u64) -> (since: Option<u64>)
        ensures
            since == old(self)@.restored_time(timestamp),
            final(self)@ == (History {
                state: old(self)@.restored(timestamp),
                time: old(self)@.restored_time(timestamp),
                snapshots: old(self)@.kept(timestamp),
                ..old(self)@
            }),
    {
        let ghost all = self.snapshots@;
        let mut kept: usize = self.snapshots.len();
        assert(all.take(kept as int) =~= all);
        while kept > 0 && self.snapshots[kept - 1].timestamp >= timestamp
            invariant
                kept <= self.snapshots@.len(),
                self.snapshots@ == all,
                count_older(all.take(kept as int), timestamp) == count_older(all, timestamp),
            decreases kept,
        {
            assert(all.take(kept as int).drop_last() =~= all.take(kept - 1));
            kept = kept - 1;
        }
        assert(count_older(all, timestamp) == kept);
        if kept > 0 {
            let snapshot = self.snapshots[kept - 1];
            self.state = snapshot.state;
            self.current_time = Some(snapshot.timestamp);
        } else {
            self.state = self.initial;
            self.current_time = None;
        }
        self.snapshots.truncate(kept);
        self.current_time
    }

    /// The index of the first recorded input that a run from `since` on takes in.
    fn first_pending(&self, since: Option<u64>) -> (first: usize)
        requires
            chronological(self@.inputs),
        ensures
            first <= self@.inputs.len(),
            match since {
                Some(t) => after(self@.inputs, t) == self@.inputs.skip(first as int),
                None => first == 0,
            },
    {
        let mut first: usize = 0;
        if let Some(t) = since {
            while first < self.inputs.len() && self.inputs[first].timestamp <= t
                invariant
                    first <= self.inputs@.len(),
                    forall|i: int| 0 <= i < first ==> self.inputs@[i].stamp() <= t,
                decreases self.inputs@.len() - first,
            {
                first = first + 1;
            }
            proof {
                after_is_suffix(self.inputs@, t, first as int);
            }
        }
        first
    }

    /// Takes the recorded inputs from index `first` on in again.
    fn replay(&mut self, first: usize) -> (replayed: Ghost<Seq<Snapshot<P::State>>>)
        requires
            first <= old(self)@.inputs.len(),
            old(self)@.snapshots.len() <= old(self)@.limit,
        ensures
            run(
                old(self)@.process,
                old(self)@.state,
                old(self)@.time,
                old(self)@.inputs.skip(first as int),
                replayed@,
            ),
            final(self)@ == (History {
                snapshots: newest(old(self)@.snapshots + replayed@, old(self)@.limit),
                state: if replayed@.len() > 0 {
                    replayed@.last().state
                } else {
                    old(self)@.state
                },
                time: if replayed@.len() > 0 {
                    Some(replayed@.last().timestamp)
                } else {
                    old(self)@.time
                },
                ..old(self)@
            }),
    {
        let ghost before = self@;
        let ghost pending = before.inputs.skip(first as int);
        let ghost mut replayed: Seq<Snapshot<P::State>> = Seq::empty();
        let mut i: usize = first;
        assert(before.snapshots + replayed =~= before.snapshots);
        while i < self.inputs.len()
            invariant
                first <= i <= self.inputs@.len(),
                self@ == (History {
                    snapshots: newest(before.snapshots + replayed, before.limit),
                    state: if replayed.len() > 0 {
                        replayed.last().state
                    } else {
                        before.state
                    },
                    time: if replayed.len() > 0 {
                        Some(replayed.last().timestamp)
                    } else {
                        before.time
                    },
                    ..before
                }),
                pending == before.inputs.skip(first as int),
                replayed.len() == i - first,
                forall|j: int|
                    0 <= j < replayed.len() ==> #[trigger] link(
                        before.process,
                        before.state,
                        before.time,
                        pending,
                        replayed,
                        j,
                    ),
            decreases self.inputs@.len() - i,
        {
            let recorded = self.inputs[i];
            let dt_us: u64 = elapsed_micros(self.current_time, recorded.timestamp);
            self.state = self.process.step(self.state, recorded.input, dt_us);
            self.current_time = Some(recorded.timestamp);
            self.save_snapshot(recorded.timestamp);
            proof {
                let n = replayed.len() as int;
                let snapshot = Snapshot { timestamp: recorded.timestamp, state: self.state };
                let longer = replayed.push(snapshot);
                newest_of_push(before.snapshots + replayed, snapshot, before.limit);
                assert((before.snapshots + replayed).push(snapshot) =~= before.snapshots + longer);
                assert(pending[n] == recorded);
                if n > 0 {
                    assert(link(
                        before.process,
                        before.state,
                        before.time,
                        pending,
                        replayed,
                        n - 1,
                    ));
                }
                assert forall|j: int| 0 <= j < longer.len() implies #[trigger] link(
                    before.process,
                    before.state,
                    before.time,
                    pending,
                    longer,
                    j,
                ) by {
                    if j < n {
                        assert(link(
                            before.process,
                            before.state,
                            before.time,
                            pending,
                            replayed,
                            j,
                        ));
                    }
                }
                replayed = longer;
            }
            i = i + 1;
        }
        Ghost(replayed)
    }

    /// Takes `input` in at instant `timestamp`, from the state after the last input. An input
    /// that is older than the last one is put at its chronological place: the filter goes
    /// back to the last state before it and takes it and all later inputs in again.
    pub fn fuse(&mut self, timestamp: u64, input: P::Input)
        requires
            old(self)@.wf(),
        ensures
            final(self)@.wf(),
            old(self)@.fused(timestamp, input, final(self)@),
    {
        let last: Option<u64> = self.last_time();
        let late: bool = match last {
            Some(t) => timestamp < t,
            None => false,
        };
        let ghost before = self@;
        if !late {
            let dt_us: u64 = elapsed_micros(last, timestamp);
            self.state = self.process.step(self.last_state(), input, dt_us);
            self.current_time = Some(timestamp);
            self.save_snapshot(timestamp);
            self.record_input(timestamp, input);
            proof {
                newest_stays_chronological(
                    before.inputs.push(Recorded { timestamp, input }),
                    before.limit,
                );
            }
        } else {
            let all = self.record_input(timestamp, input);
            let since = self.restore_before(timestamp);
            proof {
                newest_stays_chronological(all@, before.limit);
            }
            let first: usize = self.first_pending(since);
            proof {
                before.snapshots_are_chronological();
                count_older_splits(before.snapshots, timestamp);
                assert(self@.inputs.skip(0) =~= self@.inputs);
            }
            let replayed = self.replay(first);
            proof {
                before.late_input_stays_aligned(timestamp, input, all@, replayed@, self@);
            }
        }
    }

    /// Moves the filter on to `now` with nothing taken in. This is not part of the history:
    /// the next input finds it as it was.
    pub fn predict_to(&mut self, now: u64)
        requires
            old(self)@.wf(),
        ensures
            final(self)@.wf(),
            old(self)@.coasted(now, final(self)@),
    {
        if elapsed_micros(self.current_time, now) > 0 {
            let dt_us: u64 = elapsed_micros(self.last_time(), now);
            self.state = self.process.coast(self.last_state(), dt_us);
            self.current_time = Some(now);
        }
    }
}

/// An input that is not older than the last one is one step from the state after that, over all
/// the time in between, however far the filter has coasted; a first input is a step from the
/// initial state, over no time. It ends the history.
pub proof fn punctual_inputs_step_over_the_whole_time<P: Process>(
    h: History<P>,
    t: u64,
    input: P::Input,
    next: History<P>,
    dt_us: u64,
)
    requires
        h.wf(),
        h.snapshots.len() > 0 ==> h.snapshots.last().timestamp + dt_us == t,
        h.snapshots.len() == 0 ==> dt_us == 0,
        h.fused(t, input, next),
    ensures
        h.snapshots.len() > 0 ==> call_ensures(
            P::step,
            (&h.process, h.snapshots.last().state, input, dt_us),
            next.state,
        ),
        h.snapshots.len() == 0 ==> call_ensures(
            P::step,
            (&h.process, h.initial, input, dt_us),
            next.state,
        ),
        next.time == Some(t),
        next.process == h.process,
        next.initial == h.initial,
        next.limit == h.limit,
        next.inputs.len() == next.snapshots.len() == if h.inputs.len() < h.limit {
            h.inputs.len() + 1
        } else {
            h.limit
        },
        next.inputs.last() == (Recorded { timestamp: t, input }),
        next.snapshots.last() == (Snapshot { timestamp: t, state: next.state }),
        forall|k: int|
            1 <= k < next.inputs.len() ==> #[trigger] next.inputs[next.inputs.len() - 1 - k]
                == h.inputs[h.inputs.len() - k],
        forall|k: int|
            1 <= k < next.inputs.len() ==> #[trigger] next.snapshots[next.inputs.len() - 1 - k]
                == h.snapshots[h.inputs.len() - k],
{
}

/// Coasting to an instant later than the filter has reached is coasting from the state after
/// the last input, over all the time since then; coasting to any other instant, or before
/// there has been an input, changes nothing.
pub proof fn coasting_covers_the_whole_time<P: Process>(
    h: History<P>,
    now: u64,
    next: History<P>,
)
    requires
        h.wf(),
        h.coasted(now, next),
    ensures
        h.time is None || now <= h.time->0 ==> next == h,
        h.time is Some && h.time->0 < now ==> {
            &&& call_ensures(
                P::coast,
                (
                    &h.process,
                    h.snapshots.last().state,
                    (now - h.snapshots.last().timestamp) as u64,
                ),
                next.state,
            )
            &&& next == (History { state: next.state, time: Some(now), ..h })
        },
{
}

/// An input that is older than all that the filter still knows makes it start afresh: it is
/// where it would be had it taken in, in chronological order, only what it still knows.
pub proof fn inputs_beyond_the_history_start_afresh<P: Process>(
    h: History<P>,
    t: u64,
    input: P::Input,
    next: History<P>,
)
    requires
        h.wf(),
        h.inputs.len() > 0,
        forall|i: int| 0 <= i < h.inputs.len() ==> t < #[trigger] h.inputs[i].timestamp,
        h.fused(t, input, next),
    ensures
        next.inputs == if h.inputs.len() < h.limit {
            h.inputs.insert(0, Recorded { timestamp: t, input })
        } else {
            h.inputs
        },
        exists|states: Seq<Snapshot<P::State>>| next.remembers(next.inputs, states),
{
    let late = Recorded { timestamp: t, input };
    assert(h.snapshots.last().timestamp == h.inputs[h.inputs.len() - 1].timestamp);
    let (all, replayed) = choose|
        all: Seq<Recorded<P::Input>>,
        replayed: Seq<Snapshot<P::State>>,
    |
        h.rewound(t, input, all, replayed, next);
    h.snapshots_are_chronological();
    count_older_splits(h.snapshots, t);
    if count_older(h.snapshots, t) > 0 {
        assert(h.snapshots[0].stamp() < t);
        assert(h.snapshots[0].timestamp == h.inputs[0].timestamp);
    }
    assert(h.kept(t) =~= Seq::empty());
    assert(h.kept(t) + replayed =~= replayed);
    let pos = place_of(h.inputs, late, all);
    if pos > 0 {
        assert(h.inputs[0].stamp() <= t);
        assert(h.inputs[0].timestamp > t);
    }
    assert(next.inputs =~= if h.inputs.len() < h.limit {
        h.inputs.insert(0, late)
    } else {
        h.inputs
    });
    assert(chronological(all)) by {
        assert forall|i: int, j: int| 0 <= i <= j < all.len() implies all[i].stamp()
            <= all[j].stamp() by {
            if i > 0 {
                assert(all[i] == h.inputs[i - 1]);
                assert(all[j] == h.inputs[j - 1]);
                assert(h.inputs[i - 1].stamp() <= h.inputs[j - 1].stamp());
            } else if j > 0 {
                assert(all[j] == h.inputs[j - 1]);
                assert(t < h.inputs[j - 1].timestamp);
            }
        }
    }
    newest_stays_chronological(all, h.limit);
    assert(newest(next.inputs, h.limit) =~= next.inputs);
    assert(next.remembers(next.inputs, replayed));
}

/// A call of [`Rewind::fuse`] takes an input in, and one of [`Rewind::predict_to`] coasts, in the
/// sense of [`History`]; one of [`Rewind::reset`] forgets everything but the filter itself.
pub proof fn calls_change_the_history<P: Process>(
    fused: &mut Rewind<P>,
    timestamp: u64,
    input: P::Input,
    coasted: &mut Rewind<P>,
    now: u64,
    reset: &mut Rewind<P>,
)
    requires
        call_ensures(Rewind::<P>::fuse, (fused, timestamp, input), ()),
        call_ensures(Rewind::<P>::predict_to, (coasted, now), ()),
        call_ensures(Rewind::<P>::reset, (reset,), ()),
    ensures
        old(fused)@.fused(timestamp, input, final(fused)@),
        old(coasted)@.coasted(now, final(coasted)@),
        final(reset)@.same_filter(old(reset)@),
        final(reset)@.inputs.len() == 0,
        final(reset)@.snapshots.len() == 0,
        final(reset)@.time is None,
        final(reset)@.state == old(reset)@.initial,
{
}

/// Inputs are in chronological order exactly where their timestamps are.
pub proof fn inputs_are_ordered_by_timestamp<I>(inputs: Seq<Recorded<I>>)
    ensures
        chronological(inputs) <==> forall|i: int, j: int|
            0 <= i <= j < inputs.len() ==> #[trigger] inputs[i].timestamp
                <= #[trigger] inputs[j].timestamp,
{
    if forall|i: int, j: int|
        0 <= i <= j < inputs.len() ==> #[trigger] inputs[i].timestamp
            <= #[trigger] inputs[j].timestamp {
        assert forall|i: int, j: int| 0 <= i <= j < inputs.len() implies inputs[i].stamp()
            <= inputs[j].stamp() by {
            assert(inputs[i].timestamp <= inputs[j].timestamp);
        }
    }
    if chronological(inputs) {
        assert forall|i: int, j: int| 0 <= i <= j < inputs.len() implies
            #[trigger] inputs[i].timestamp <= #[trigger] inputs[j].timestamp by {
            assert(inputs[i].stamp() <= inputs[j].stamp());
        }
    }
}

/// Neither an input, late or not, nor coasting changes the filter itself.
pub proof fn filters_stay_themselves<P: Process>(
    h: History<P>,
    t: u64,
    input: P::Input,
    now: u64,
    next: History<P>,
)
    requires
        h.fused(t, input, next) || h.coasted(now, next),
    ensures
        next.process == h.process,
        next.initial == h.initial,
        next.limit == h.limit,
{
}

} // verus!
