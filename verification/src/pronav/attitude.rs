//! Attitude history for lookups at arbitrary past instants.

use std::collections::VecDeque;
use vstd::prelude::*;
use crate::chronology::{evict, insert, search, Stamped};
use crate::clock::elapsed_micros;

#[allow(unused_imports)]
use crate::chronology::{
    chronological, inserted, insertion_order_does_not_matter, newest, newest_stays_chronological,
    place_of, strictly_chronological,
};
#[allow(unused_imports)]
use crate::clock::elapsed_us;
#[allow(unused_imports)]
use crate::functional::{function2, function3, function4};

verus! {

/// The formulas for attitudes and angular velocities.
pub trait AttitudeModel {
    type Attitude: Copy;

    type Rate: Copy;

    type Weight: Copy;

    /// The angle swept at `rate` in `dt_us` microseconds.
    fn swept(&self, rate: Self::Rate, dt_us: u64) -> Self::Rate;

    /// Whether `sweep` is long enough to have a direction.
    fn is_turn(&self, sweep: Self::Rate) -> bool;

    /// `attitude`, turned by `sweep`.
    fn turned(&self, attitude: Self::Attitude, sweep: Self::Rate) -> Self::Attitude;

    /// How far `part_us` reaches into `whole_us`.
    fn weight(&self, part_us: u64, whole_us: u64) -> Self::Weight;

    /// The attitude `weight` of the way from `a` to `b`, along the sphere.
    fn slerp(&self, a: Self::Attitude, b: Self::Attitude, weight: Self::Weight) -> Self::Attitude;

    /// The angular velocity `weight` of the way from `a` to `b`.
    fn lerp(&self, a: Self::Rate, b: Self::Rate, weight: Self::Weight) -> Self::Rate;
}

/// An attitude sample.
#[derive(Clone, Copy)]
pub struct AttitudeEntry<A, R> {
    pub timestamp: u64,
    pub attitude: A,
    pub angular_vel: R,
}

impl<A, R> Stamped for AttitudeEntry<A, R> {
    open spec fn stamp(&self) -> u64 {
        self.timestamp
    }

    fn timestamp(&self) -> (t: u64) {
        self.timestamp
    }
}

impl<A, R> AttitudeEntry<A, R> {
    /// The sample itself, without its instant.
    pub open spec fn sample(self) -> (A, R) {
        (self.attitude, self.angular_vel)
    }
}

/// `r` is `attitude`, carried on at `rate` for `dt_us` microseconds. `sweep` is the angle
/// swept; one too small to have a direction leaves the attitude as it is.
pub open spec fn carried_on<M: AttitudeModel>(
    model: M,
    attitude: M::Attitude,
    rate: M::Rate,
    dt_us: u64,
    sweep: M::Rate,
    r: M::Attitude,
) -> bool {
    &&& call_ensures(M::swept, (&model, rate, dt_us), sweep)
    &&& {
        ||| call_ensures(M::is_turn, (&model, sweep), true) && call_ensures(
            M::turned,
            (&model, attitude, sweep),
            r,
        )
        ||| call_ensures(M::is_turn, (&model, sweep), false) && r == attitude
    }
}

/// `r` lies between the samples `a` and `b`, at instant `t`: `weight` of the way.
pub open spec fn blended<M: AttitudeModel>(
    model: M,
    a: AttitudeEntry<M::Attitude, M::Rate>,
    b: AttitudeEntry<M::Attitude, M::Rate>,
    t: u64,
    weight: M::Weight,
    r: (M::Attitude, M::Rate),
) -> bool {
    &&& call_ensures(
        M::weight,
        (
            &model,
            elapsed_us(Some(a.timestamp), t),
            elapsed_us(Some(a.timestamp), b.timestamp),
        ),
        weight,
    )
    &&& call_ensures(M::slerp, (&model, a.attitude, b.attitude, weight), r.0)
    &&& call_ensures(M::lerp, (&model, a.angular_vel, b.angular_vel, weight), r.1)
}

/// `r` is the sample that `entries` stand for at instant `t`:
/// - none, where there are no entries or all are later;
/// - the one stored for that instant, where there is one: the first and the last entry for
///   their own instants, else any of those that share it;
/// - beyond the last entry, the last attitude, carried on;
/// - else what lies between the two entries around `t`.
pub open spec fn sampled<M: AttitudeModel>(
    model: M,
    entries: Seq<AttitudeEntry<M::Attitude, M::Rate>>,
    t: u64,
    r: Option<(M::Attitude, M::Rate)>,
) -> bool {
    if entries.len() == 0 || t < entries[0].timestamp {
        r is None
    } else if t == entries[0].timestamp {
        r == Some(entries[0].sample())
    } else if t == entries.last().timestamp {
        r == Some(entries.last().sample())
    } else if t > entries.last().timestamp {
        &&& r is Some
        &&& exists|sweep: M::Rate|
            carried_on(
                model,
                entries.last().attitude,
                entries.last().angular_vel,
                elapsed_us(Some(entries.last().timestamp), t),
                sweep,
                (r->0).0,
            )
        &&& (r->0).1 == entries.last().angular_vel
    } else if exists|i: int| 0 <= i < entries.len() && #[trigger] entries[i].timestamp == t {
        exists|i: int|
            0 <= i < entries.len() && #[trigger] entries[i].timestamp == t && r == Some(
                entries[i].sample(),
            )
    } else {
        &&& r is Some
        &&& exists|i: int, weight: M::Weight|
            {
                &&& 0 <= i < entries.len() - 1
                &&& entries[i].timestamp < t < entries[i + 1].timestamp
                &&& #[trigger] blended(model, entries[i], entries[i + 1], t, weight, r->0)
            }
    }
}

/// A bounded history of attitude samples.
pub struct AttitudeBuffer<M: AttitudeModel> {
    /// The samples, oldest first.
    pub entries: VecDeque<AttitudeEntry<M::Attitude, M::Rate>>,
    /// How many samples are kept.
    pub capacity: usize,
    pub model: M,
}

impl<M: AttitudeModel> AttitudeBuffer<M> {
    /// The samples are in chronological order.
    pub open spec fn wf(self) -> bool {
        chronological(self.entries@)
    }

    /// `next` has stored `entry` at its chronological place, and has evicted the oldest
    /// samples beyond the capacity.
    pub open spec fn pushed(
        self,
        entry: AttitudeEntry<M::Attitude, M::Rate>,
        next: Self,
    ) -> bool {
        &&& next.capacity == self.capacity
        &&& next.model == self.model
        &&& exists|all: Seq<AttitudeEntry<M::Attitude, M::Rate>>| #[trigger]
            inserted(self.entries@, entry, all) && next.entries@ == newest(
                all,
                self.capacity as nat,
            )
    }

    /// An empty history that keeps up to `capacity` samples.
    pub fn new(model: M, capacity: usize) -> (r: Self)
        ensures
            r.wf(),
            r.entries@.len() == 0,
            r.capacity == capacity,
            r.model == model,
    {
        AttitudeBuffer { entries: VecDeque::new(), capacity, model }
    }

    /// Inserts an attitude sample. Handles out-of-order arrivals by inserting at the
    /// correct chronological position, and evicts the oldest samples beyond the capacity.
    pub fn push(&mut self, timestamp: u64, attitude: M::Attitude, angular_vel: M::Rate)
        requires
            old(self).wf(),
        ensures
            final(self).wf(),
            old(self).pushed(AttitudeEntry { timestamp, attitude, angular_vel }, *final(self)),
            final(self).entries@.len() <= final(self).capacity,
    {
        insert(&mut self.entries, AttitudeEntry { timestamp, attitude, angular_vel });
        let ghost all = self.entries@;
        evict(&mut self.entries, self.capacity);
        proof {
            newest_stays_chronological(all, self.capacity as nat);
        }
    }

    /// Returns the latest attitude and angular velocity in the buffer.
    pub fn latest(&self) -> (r: Option<(M::Attitude, M::Rate)>)
        ensures
            r == (if self.entries@.len() == 0 {
                None
            } else {
                Some(self.entries@.last().sample())
            }),
    {
        let n: usize = self.entries.len();
        if n == 0 {
            None
        } else {
            let last = self.entries[n - 1];
            Some((last.attitude, last.angular_vel))
        }
    }

    /// Interpolates attitude and angular velocity at the requested instant, and carries the
    /// last attitude on beyond it. Returns `None` if the buffer is empty or the instant is
    /// before the first stored entry.
    pub fn interpolate_at(&self, timestamp: u64) -> (r: Option<(M::Attitude, M::Rate)>)
        requires
            self.wf(),
        ensures
            sampled(self.model, self.entries@, timestamp, r),
    {
        let n: usize = self.entries.len();
        if n == 0 {
            return None;
        }
        let first = self.entries[0];
        let last = self.entries[n - 1];
        if timestamp < first.timestamp {
            return None;
        }
        if timestamp == first.timestamp {
            return Some((first.attitude, first.angular_vel));
        }
        if timestamp >= last.timestamp {
            let dt_us: u64 = elapsed_micros(Some(last.timestamp), timestamp);
            if dt_us == 0 {
                return Some((last.attitude, last.angular_vel));
            }
            let sweep = self.model.swept(last.angular_vel, dt_us);
            let attitude = if self.model.is_turn(sweep) {
                self.model.turned(last.attitude, sweep)
            } else {
                last.attitude
            };
            let r = Some((attitude, last.angular_vel));
            assert(carried_on(
                self.model,
                last.attitude,
                last.angular_vel,
                dt_us,
                sweep,
                (r->0).0,
            ));
            return r;
        }
        match search(&self.entries, timestamp) {
            Ok(i) => {
                let found = self.entries[i];
                Some((found.attitude, found.angular_vel))
            },
            Err(upper) => {
                assert(!(exists|i: int|
                    0 <= i < self.entries@.len() && #[trigger] self.entries@[i].timestamp
                        == timestamp)) by {
                    assert forall|i: int| 0 <= i < self.entries@.len() implies #[trigger] self.entries@[i].timestamp
                        != timestamp by {
                        assert(self.entries@[i].stamp() != timestamp);
                    }
                }
                assert(self.entries@[0].stamp() < timestamp);
                assert(self.entries@[n - 1].stamp() > timestamp);
                let a = self.entries[upper - 1];
                let b = self.entries[upper];
                assert(self.entries@[upper - 1].stamp() < timestamp);
                assert(self.entries@[upper as int].stamp() > timestamp);
                let weight = self.model.weight(
                    elapsed_micros(Some(a.timestamp), timestamp),
                    elapsed_micros(Some(a.timestamp), b.timestamp),
                );
                let attitude = self.model.slerp(a.attitude, b.attitude, weight);
                let angular_vel = self.model.lerp(a.angular_vel, b.angular_vel, weight);
                let r = Some((attitude, angular_vel));
                let ghost i = upper - 1;
                assert(blended(
                    self.model,
                    self.entries@[i],
                    self.entries@[i + 1],
                    timestamp,
                    weight,
                    r->0,
                ));
                r
            },
        }
    }
}

/// A sample that has just been stored, at an instant of its own, and not evicted again, is
/// what a lookup at that instant returns.
pub proof fn stored_sample_is_found<M: AttitudeModel>(
    before: AttitudeBuffer<M>,
    entry: AttitudeEntry<M::Attitude, M::Rate>,
    after: AttitudeBuffer<M>,
    r: Option<(M::Attitude, M::Rate)>,
)
    requires
        before.wf(),
        forall|i: int|
            0 <= i < before.entries@.len() ==> #[trigger] before.entries@[i].timestamp
                != entry.timestamp,
        before.pushed(entry, after),
        after.entries@.contains(entry),
        sampled(after.model, after.entries@, entry.timestamp, r),
    ensures
        r == Some(entry.sample()),
{
    let capacity = before.capacity as nat;
    let all = choose|all: Seq<AttitudeEntry<M::Attitude, M::Rate>>| #[trigger]
        inserted(before.entries@, entry, all) && after.entries@ == newest(all, capacity);
    let before = before.entries@;
    let kept = newest(all, capacity);
    let k = choose|k: int| 0 <= k < kept.len() && kept[k] == entry;
    assert(kept[k].timestamp == entry.timestamp);
    assert forall|i: int| 0 <= i < kept.len() && #[trigger] kept[i].timestamp
        == entry.timestamp implies kept[i] == entry by {
        let j = i + all.len() - kept.len();
        assert(kept[i] == all[j]);
        if before.len() == 0 || before.last().stamp() <= entry.stamp() {
            if j < before.len() {
                assert(all[j] == before[j]);
            }
        } else {
            let pos = place_of(before, entry, all);
            if j < pos {
                assert(all[j] == before[j]);
            } else if j > pos {
                assert(all[j] == before[j - 1]);
            }
        }
    }
    assert(chronological(all)) by {
        if before.len() == 0 || before.last().stamp() <= entry.stamp() {
            assert forall|i: int| 0 <= i < before.len() implies before[i].stamp() <= entry.stamp() by {
                assert(before[i].stamp() <= before[before.len() - 1].stamp());
            }
        }
    }
    newest_stays_chronological(all, capacity);
    assert(kept[0].stamp() <= kept[k].stamp() <= kept[kept.len() - 1].stamp());
}

/// Of two samples of different, new instants, it does not matter which one arrives first:
/// the history holds the same samples in the same order, whatever has been evicted.
pub proof fn arrival_order_does_not_matter<M: AttitudeModel>(
    before: AttitudeBuffer<M>,
    x: AttitudeEntry<M::Attitude, M::Rate>,
    y: AttitudeEntry<M::Attitude, M::Rate>,
    with_x: AttitudeBuffer<M>,
    x_then_y: AttitudeBuffer<M>,
    with_y: AttitudeBuffer<M>,
    y_then_x: AttitudeBuffer<M>,
)
    requires
        strictly_chronological(before.entries@),
        x.timestamp != y.timestamp,
        forall|i: int|
            0 <= i < before.entries@.len() ==> #[trigger] before.entries@[i].stamp() != x.timestamp
                && before.entries@[i].stamp() != y.timestamp,
        before.pushed(x, with_x),
        with_x.pushed(y, x_then_y),
        before.pushed(y, with_y),
        with_y.pushed(x, y_then_x),
    ensures
        x_then_y.entries@ == y_then_x.entries@,
{
    let limit = before.capacity as nat;
    let first_x = choose|all: Seq<AttitudeEntry<M::Attitude, M::Rate>>|
        #[trigger] inserted(before.entries@, x, all) && with_x.entries@ == newest(all, limit);
    let then_y = choose|all: Seq<AttitudeEntry<M::Attitude, M::Rate>>|
        #[trigger] inserted(with_x.entries@, y, all) && x_then_y.entries@ == newest(all, limit);
    let first_y = choose|all: Seq<AttitudeEntry<M::Attitude, M::Rate>>|
        #[trigger] inserted(before.entries@, y, all) && with_y.entries@ == newest(all, limit);
    let then_x = choose|all: Seq<AttitudeEntry<M::Attitude, M::Rate>>|
        #[trigger] inserted(with_y.entries@, x, all) && y_then_x.entries@ == newest(all, limit);
    insertion_order_does_not_matter(
        before.entries@,
        x,
        y,
        limit,
        first_x,
        then_y,
        first_y,
        then_x,
    );
}

/// All formulas are functions.
pub open spec fn functional<M: AttitudeModel>() -> bool {
    &&& function3(M::swept)
    &&& function2(M::is_turn)
    &&& function3(M::turned)
    &&& function3(M::weight)
    &&& function4(M::slerp)
    &&& function4(M::lerp)
}

/// A lookup is answered exactly where there is an entry at or before its instant, however long
/// after the last one it is.
pub proof fn lookups_are_answered_from_the_first_entry_on<M: AttitudeModel>(
    buffer: AttitudeBuffer<M>,
    t: u64,
    r: Option<(M::Attitude, M::Rate)>,
)
    requires
        buffer.wf(),
        call_ensures(AttitudeBuffer::<M>::interpolate_at, (&buffer, t), r),
    ensures
        r is Some <==> exists|i: int|
            0 <= i < buffer.entries@.len() && #[trigger] buffer.entries@[i].timestamp <= t,
{
    let entries = buffer.entries@;
    if exists|i: int| 0 <= i < entries.len() && #[trigger] entries[i].timestamp <= t {
        let i = choose|i: int| 0 <= i < entries.len() && #[trigger] entries[i].timestamp <= t;
        assert(entries[0].stamp() <= entries[i].stamp());
    }
    if entries.len() > 0 && entries[0].timestamp <= t {
        assert(entries[0].timestamp <= t);
    }
}

/// Past the last entry, for however long, a lookup gives the last attitude, turned by what is
/// swept at the last angular velocity in all the time since, where that is a turn, and that
/// angular velocity.
pub proof fn last_attitude_is_carried_on<M: AttitudeModel>(
    buffer: AttitudeBuffer<M>,
    t: u64,
    r: Option<(M::Attitude, M::Rate)>,
    dt_us: u64,
    sweep: M::Rate,
    turned: M::Attitude,
)
    requires
        functional::<M>(),
        buffer.wf(),
        buffer.entries@.len() > 0,
        buffer.entries@.last().timestamp + dt_us == t,
        dt_us > 0,
        call_ensures(M::swept, (&buffer.model, buffer.entries@.last().angular_vel, dt_us), sweep),
        call_ensures(
            M::turned,
            (&buffer.model, buffer.entries@.last().attitude, sweep),
            turned,
        ),
        call_ensures(AttitudeBuffer::<M>::interpolate_at, (&buffer, t), r),
    ensures
        call_ensures(M::is_turn, (&buffer.model, sweep), true) ==> r == Some(
            (turned, buffer.entries@.last().angular_vel),
        ),
        call_ensures(M::is_turn, (&buffer.model, sweep), false) ==> r == Some(
            buffer.entries@.last().sample(),
        ),
{
    let entries = buffer.entries@;
    assert(entries[0].stamp() <= entries[entries.len() - 1].stamp());
}

/// At the instant of an entry that shares it with no other, a lookup gives that entry.
pub proof fn entries_are_found<M: AttitudeModel>(
    buffer: AttitudeBuffer<M>,
    i: int,
    r: Option<(M::Attitude, M::Rate)>,
)
    requires
        strictly_chronological(buffer.entries@),
        0 <= i < buffer.entries@.len(),
        call_ensures(
            AttitudeBuffer::<M>::interpolate_at,
            (&buffer, buffer.entries@[i].timestamp),
            r,
        ),
    ensures
        r == Some((buffer.entries@[i].attitude, buffer.entries@[i].angular_vel)),
{
    let entries = buffer.entries@;
    let n = entries.len() as int;
    strict_order_is_chronological(entries);
    if i > 0 {
        assert(entries[0].stamp() < entries[i].stamp());
    }
    if i < n - 1 {
        assert(entries[i].stamp() < entries[n - 1].stamp());
    }
    assert forall|j: int| 0 <= j < n && #[trigger] entries[j].timestamp
        == entries[i].timestamp implies j == i by {
        if j < i {
            assert(entries[j].stamp() < entries[i].stamp());
        } else if i < j {
            assert(entries[i].stamp() < entries[j].stamp());
        }
    }
}

/// Entries in strict order of time are in order of time.
proof fn strict_order_is_chronological<E: Stamped>(s: Seq<E>)
    requires
        strictly_chronological(s),
    ensures
        chronological(s),
{
    assert forall|i: int, j: int| 0 <= i <= j < s.len() implies s[i].stamp() <= s[j].stamp() by {
        if i < j {
            assert(s[i].stamp() < s[j].stamp());
        }
    }
}

/// Between two neighbouring entries, a lookup gives what lies between these two, as far along
/// as its instant is, and depends on nothing else in the history.
pub proof fn lookups_lie_between_their_neighbours<M: AttitudeModel>(
    buffer: AttitudeBuffer<M>,
    i: int,
    since_us: u64,
    apart_us: u64,
    weight: M::Weight,
    attitude: M::Attitude,
    angular_vel: M::Rate,
    r: Option<(M::Attitude, M::Rate)>,
)
    requires
        functional::<M>(),
        buffer.wf(),
        0 <= i < buffer.entries@.len() - 1,
        0 < since_us < apart_us,
        buffer.entries@[i].timestamp + apart_us == buffer.entries@[i + 1].timestamp,
        call_ensures(M::weight, (&buffer.model, since_us, apart_us), weight),
        call_ensures(
            M::slerp,
            (
                &buffer.model,
                buffer.entries@[i].attitude,
                buffer.entries@[i + 1].attitude,
                weight,
            ),
            attitude,
        ),
        call_ensures(
            M::lerp,
            (
                &buffer.model,
                buffer.entries@[i].angular_vel,
                buffer.entries@[i + 1].angular_vel,
                weight,
            ),
            angular_vel,
        ),
        call_ensures(
            AttitudeBuffer::<M>::interpolate_at,
            (&buffer, (buffer.entries@[i].timestamp + since_us) as u64),
            r,
        ),
    ensures
        r == Some((attitude, angular_vel)),
{
    let entries = buffer.entries@;
    let n = entries.len() as int;
    let t = (entries[i].timestamp + since_us) as u64;
    assert(entries[0].stamp() <= entries[i].stamp());
    assert(entries[i + 1].stamp() <= entries[n - 1].stamp());
    assert forall|j: int| 0 <= j < n implies #[trigger] entries[j].timestamp != t by {
        if j <= i {
            assert(entries[j].stamp() <= entries[i].stamp());
        } else {
            assert(entries[i + 1].stamp() <= entries[j].stamp());
        }
    }
    let (k, w) = choose|k: int, w: M::Weight|
        {
            &&& 0 <= k < entries.len() - 1
            &&& entries[k].timestamp < t < entries[k + 1].timestamp
            &&& #[trigger] blended(buffer.model, entries[k], entries[k + 1], t, w, r->0)
        };
    if k < i {
        assert(entries[k + 1].stamp() <= entries[i].stamp());
    } else if i < k {
        assert(entries[i + 1].stamp() <= entries[k].stamp());
    }
}

/// The latest sample is what a lookup at its own instant gives.
pub proof fn latest_is_the_sample_of_its_instant<M: AttitudeModel>(
    buffer: AttitudeBuffer<M>,
    latest: Option<(M::Attitude, M::Rate)>,
    r: Option<(M::Attitude, M::Rate)>,
)
    requires
        strictly_chronological(buffer.entries@),
        buffer.entries@.len() > 0,
        call_ensures(AttitudeBuffer::<M>::latest, (&buffer,), latest),
        call_ensures(
            AttitudeBuffer::<M>::interpolate_at,
            (&buffer, buffer.entries@.last().timestamp),
            r,
        ),
    ensures
        latest is Some,
        latest == r,
{
    entries_are_found(buffer, buffer.entries@.len() - 1, r);
}

/// `motion` is where an attitude gets at a steady angular velocity in a given time: the
/// formulas follow it, a sweep too small to be made would change nothing, and the motion over
/// one time and then another is that over both.
pub open spec fn turns_steadily<M: AttitudeModel>(
    model: M,
    motion: spec_fn(M::Attitude, M::Rate, int) -> M::Attitude,
) -> bool {
    &&& forall|attitude: M::Attitude, rate: M::Rate, dt_us: u64, sweep: M::Rate, r: M::Attitude|
        #[trigger] call_ensures(M::swept, (&model, rate, dt_us), sweep) && #[trigger] call_ensures(
            M::turned,
            (&model, attitude, sweep),
            r,
        ) && call_ensures(M::is_turn, (&model, sweep), true) ==> r == motion(
            attitude,
            rate,
            dt_us as int,
        )
    &&& forall|attitude: M::Attitude, rate: M::Rate, dt_us: u64, sweep: M::Rate|
        #![trigger call_ensures(M::swept, (&model, rate, dt_us), sweep), motion(attitude, rate, dt_us as int)]
        call_ensures(M::swept, (&model, rate, dt_us), sweep) && call_ensures(
            M::is_turn,
            (&model, sweep),
            false,
        ) ==> motion(attitude, rate, dt_us as int) == attitude
    &&& forall|attitude: M::Attitude, rate: M::Rate, a: int, b: int|
        a >= 0 && b >= 0 ==> #[trigger] motion(motion(attitude, rate, a), rate, b) == motion(
            attitude,
            rate,
            a + b,
        )
}

/// Past the last entry, a lookup follows the steady motion of the vehicle.
pub proof fn lookups_follow_steady_motion<M: AttitudeModel>(
    motion: spec_fn(M::Attitude, M::Rate, int) -> M::Attitude,
    buffer: AttitudeBuffer<M>,
    t: u64,
    r: Option<(M::Attitude, M::Rate)>,
)
    requires
        turns_steadily(buffer.model, motion),
        buffer.wf(),
        buffer.entries@.len() > 0,
        buffer.entries@.last().timestamp < t,
        call_ensures(AttitudeBuffer::<M>::interpolate_at, (&buffer, t), r),
    ensures
        r == Some(
            (
                motion(
                    buffer.entries@.last().attitude,
                    buffer.entries@.last().angular_vel,
                    t - buffer.entries@.last().timestamp,
                ),
                buffer.entries@.last().angular_vel,
            ),
        ),
{
    let entries = buffer.entries@;
    let last = entries.last();
    assert(entries[0].stamp() <= entries[entries.len() - 1].stamp());
    let dt_us = elapsed_us(Some(last.timestamp), t);
    let sweep = choose|sweep: M::Rate|
        carried_on(buffer.model, last.attitude, last.angular_vel, dt_us, sweep, (r->0).0);
    assert(carried_on(buffer.model, last.attitude, last.angular_vel, dt_us, sweep, (r->0).0));
    let moved = motion(last.attitude, last.angular_vel, dt_us as int);
}

/// Storing what a lookup past the last entry has given does not change later lookups, where
/// turns at a steady angular velocity add up.
pub proof fn stored_lookups_change_nothing<M: AttitudeModel>(
    motion: spec_fn(M::Attitude, M::Rate, int) -> M::Attitude,
    buffer: AttitudeBuffer<M>,
    t: u64,
    sample: (M::Attitude, M::Rate),
    after: AttitudeBuffer<M>,
    later: u64,
    r: Option<(M::Attitude, M::Rate)>,
    direct: Option<(M::Attitude, M::Rate)>,
)
    requires
        turns_steadily(buffer.model, motion),
        buffer.wf(),
        buffer.capacity > 0,
        buffer.entries@.len() > 0,
        buffer.entries@.last().timestamp < t < later,
        call_ensures(AttitudeBuffer::<M>::interpolate_at, (&buffer, t), Some(sample)),
        buffer.pushed(
            AttitudeEntry { timestamp: t, attitude: sample.0, angular_vel: sample.1 },
            after,
        ),
        call_ensures(AttitudeBuffer::<M>::interpolate_at, (&after, later), r),
        call_ensures(AttitudeBuffer::<M>::interpolate_at, (&buffer, later), direct),
    ensures
        r == direct,
{
    let last = buffer.entries@.last();
    let entry = AttitudeEntry { timestamp: t, attitude: sample.0, angular_vel: sample.1 };
    samples_are_kept_in_order(buffer, entry, after);
    let all = buffer.entries@.push(entry);
    assert(after.entries@ == newest(all, buffer.capacity as nat));
    assert(after.entries@.last() == entry);
    lookups_follow_steady_motion(motion, buffer, t, Some(sample));
    lookups_follow_steady_motion(motion, buffer, later, direct);
    lookups_follow_steady_motion(motion, after, later, r);
    let a = t - last.timestamp;
    let b = later - t;
    assert(motion(motion(last.attitude, last.angular_vel, a), last.angular_vel, b) == motion(
        last.attitude,
        last.angular_vel,
        a + b,
    ));
}

/// Storing a sample keeps all samples, the new one among them, in chronological order, as many
/// as the history has room for, and lets only the oldest go.
pub proof fn samples_are_kept_in_order<M: AttitudeModel>(
    before: AttitudeBuffer<M>,
    entry: AttitudeEntry<M::Attitude, M::Rate>,
    after: AttitudeBuffer<M>,
)
    requires
        before.wf(),
        before.pushed(entry, after),
    ensures
        after.capacity == before.capacity,
        after.model == before.model,
        forall|i: int, j: int|
            0 <= i < j < after.entries@.len() ==> #[trigger] after.entries@[i].timestamp
                <= #[trigger] after.entries@[j].timestamp,
        after.entries@.len() == if before.entries@.len() < before.capacity {
            before.entries@.len() + 1
        } else {
            before.capacity as nat
        },
        forall|e: AttitudeEntry<M::Attitude, M::Rate>| #[trigger]
            after.entries@.contains(e) ==> before.entries@.contains(e) || e == entry,
        forall|e: AttitudeEntry<M::Attitude, M::Rate>, i: int|
            (before.entries@.contains(e) || e == entry) && !(#[trigger] after.entries@.contains(e))
                && 0 <= i < after.entries@.len() ==> e.timestamp <= (
            #[trigger] after.entries@[i]).timestamp,
{
    let capacity = before.capacity as nat;
    let s = before.entries@;
    let all = choose|all: Seq<AttitudeEntry<M::Attitude, M::Rate>>| #[trigger]
        inserted(s, entry, all) && after.entries@ == newest(all, capacity);
    let pos = place_of(s, entry, all);
    let kept = after.entries@;
    let dropped = all.len() - kept.len();
    assert(chronological(all)) by {
        assert forall|i: int, j: int| 0 <= i <= j < all.len() implies all[i].stamp()
            <= all[j].stamp() by {
            let x = if i < pos { i } else { i - 1 };
            let y = if j < pos { j } else { j - 1 };
            if i != pos {
                assert(all[i] == s[x]);
            }
            if j != pos {
                assert(all[j] == s[y]);
            }
            if i != pos && j != pos {
                assert(s[x].stamp() <= s[y].stamp());
            }
        }
    }
    newest_stays_chronological(all, capacity);
    assert forall|i: int, j: int| 0 <= i < j < kept.len() implies #[trigger] kept[i].timestamp
        <= #[trigger] kept[j].timestamp by {
        assert(kept[i].stamp() <= kept[j].stamp());
    }
    assert forall|e: AttitudeEntry<M::Attitude, M::Rate>| #[trigger] kept.contains(e) implies
        s.contains(e) || e == entry by {
        let i = choose|i: int| 0 <= i < kept.len() && kept[i] == e;
        let j = i + dropped;
        assert(all[j] == e);
        if j < pos {
            assert(s[j] == e);
        } else if j > pos {
            assert(s[j - 1] == e);
        }
    }
    assert forall|e: AttitudeEntry<M::Attitude, M::Rate>, i: int|
        (s.contains(e) || e == entry) && !(#[trigger] kept.contains(e)) && 0 <= i
            < kept.len() implies e.timestamp <= (#[trigger] kept[i]).timestamp by {
        let j = if e == entry {
            pos
        } else {
            let k = choose|k: int| 0 <= k < s.len() && s[k] == e;
            if k < pos { k } else { k + 1 }
        };
        assert(all[j] == e);
        if j >= dropped {
            assert(kept[j - dropped] == e);
        }
        assert(kept[i] == all[i + dropped]);
        assert(all[j].stamp() <= all[i + dropped].stamp());
    }
}

/// Where the formulas are functions and no two entries share an instant, a lookup has one answer
/// only.
pub proof fn lookups_are_determined<M: AttitudeModel>(
    model: M,
    entries: Seq<AttitudeEntry<M::Attitude, M::Rate>>,
    t: u64,
    a: Option<(M::Attitude, M::Rate)>,
    b: Option<(M::Attitude, M::Rate)>,
)
    requires
        functional::<M>(),
        strictly_chronological(entries),
        sampled(model, entries, t, a),
        sampled(model, entries, t, b),
    ensures
        a == b,
{
    let n = entries.len() as int;
    if n > 0 && entries[0].timestamp < t < entries.last().timestamp {
        if exists|i: int| 0 <= i < n && #[trigger] entries[i].timestamp == t {
            let i = choose|i: int|
                0 <= i < n && #[trigger] entries[i].timestamp == t && a == Some(
                    entries[i].sample(),
                );
            let j = choose|j: int|
                0 <= j < n && #[trigger] entries[j].timestamp == t && b == Some(
                    entries[j].sample(),
                );
            if i < j {
                assert(entries[i].stamp() < entries[j].stamp());
            } else if j < i {
                assert(entries[j].stamp() < entries[i].stamp());
            }
        } else {
            let (i, v) = choose|i: int, v: M::Weight|
                {
                    &&& 0 <= i < entries.len() - 1
                    &&& entries[i].timestamp < t < entries[i + 1].timestamp
                    &&& #[trigger] blended(model, entries[i], entries[i + 1], t, v, a->0)
                };
            let (j, w) = choose|j: int, w: M::Weight|
                {
                    &&& 0 <= j < entries.len() - 1
                    &&& entries[j].timestamp < t < entries[j + 1].timestamp
                    &&& #[trigger] blended(model, entries[j], entries[j + 1], t, w, b->0)
                };
            if i < j {
                if i + 1 < j {
                    assert(entries[i + 1].stamp() < entries[j].stamp());
                }
            } else if j < i {
                if j + 1 < i {
                    assert(entries[j + 1].stamp() < entries[i].stamp());
                }
            }
            assert(i == j);
            assert(v == w);
        }
    }
}

/// A call of [`AttitudeBuffer::push`] stores the sample it is told, in the sense of
/// [`AttitudeBuffer::pushed`], and keeps the history in order.
pub proof fn pushing_stores_the_sample<M: AttitudeModel>(
    buffer: &mut AttitudeBuffer<M>,
    timestamp: u64,
    attitude: M::Attitude,
    angular_vel: M::Rate,
)
    requires
        old(buffer).wf(),
        call_ensures(AttitudeBuffer::<M>::push, (buffer, timestamp, attitude, angular_vel), ()),
    ensures
        final(buffer).wf(),
        old(buffer).pushed(AttitudeEntry { timestamp, attitude, angular_vel }, *final(buffer)),
        old(buffer).capacity > 0 && (old(buffer).entries@.len() == 0 || timestamp
            >= old(buffer).entries@.last().timestamp) ==> final(buffer).entries@.last()
            == (AttitudeEntry { timestamp, attitude, angular_vel }),
{
    samples_are_kept_in_order(
        *old(buffer),
        AttitudeEntry { timestamp, attitude, angular_vel },
        *final(buffer),
    );
}

/// The latest sample is that of the last entry, and there is one exactly where there is an entry.
pub proof fn latest_is_the_last_entry<M: AttitudeModel>(
    buffer: AttitudeBuffer<M>,
    latest: Option<(M::Attitude, M::Rate)>,
)
    requires
        call_ensures(AttitudeBuffer::<M>::latest, (&buffer,), latest),
    ensures
        latest is Some <==> buffer.entries@.len() > 0,
        buffer.entries@.len() > 0 ==> latest == Some(
            (buffer.entries@.last().attitude, buffer.entries@.last().angular_vel),
        ),
{
}

/// Even where entries share an instant, a lookup at the instant of the first or of the last entry
/// gives that entry, and one at any other instant that has entries gives one of these.
pub proof fn shared_instants_give_one_of_their_entries<M: AttitudeModel>(
    buffer: AttitudeBuffer<M>,
    t: u64,
    r: Option<(M::Attitude, M::Rate)>,
)
    requires
        buffer.wf(),
        buffer.entries@.len() > 0,
        call_ensures(AttitudeBuffer::<M>::interpolate_at, (&buffer, t), r),
    ensures
        t == buffer.entries@[0].timestamp ==> r == Some(
            (buffer.entries@[0].attitude, buffer.entries@[0].angular_vel),
        ),
        t == buffer.entries@.last().timestamp && t != buffer.entries@[0].timestamp ==> r == Some(
            (buffer.entries@.last().attitude, buffer.entries@.last().angular_vel),
        ),
        (exists|i: int|
            0 <= i < buffer.entries@.len() && #[trigger] buffer.entries@[i].timestamp == t)
            ==> exists|i: int|
            0 <= i < buffer.entries@.len() && #[trigger] buffer.entries@[i].timestamp == t && r
                == Some((buffer.entries@[i].attitude, buffer.entries@[i].angular_vel)),
{
    let entries = buffer.entries@;
    let n = entries.len() as int;
    if exists|i: int| 0 <= i < n && #[trigger] entries[i].timestamp == t {
        let i = choose|i: int| 0 <= i < n && #[trigger] entries[i].timestamp == t;
        assert(entries[0].stamp() <= entries[i].stamp() <= entries[n - 1].stamp());
        if t == entries[0].timestamp {
            assert(entries[0].timestamp == t);
        } else if t == entries[n - 1].timestamp {
            assert(entries[n - 1].timestamp == t);
        }
    }
}

/// Attitude samples are in chronological order exactly where their timestamps are.
pub proof fn samples_are_ordered_by_timestamp<A, R>(entries: Seq<AttitudeEntry<A, R>>)
    ensures
        chronological(entries) <==> forall|i: int, j: int|
            0 <= i <= j < entries.len() ==> #[trigger] entries[i].timestamp
                <= #[trigger] entries[j].timestamp,
{
    if forall|i: int, j: int|
        0 <= i <= j < entries.len() ==> #[trigger] entries[i].timestamp
            <= #[trigger] entries[j].timestamp {
        assert forall|i: int, j: int| 0 <= i <= j < entries.len() implies entries[i].stamp()
            <= entries[j].stamp() by {
            assert(entries[i].timestamp <= entries[j].timestamp);
        }
    }
    if chronological(entries) {
        assert forall|i: int, j: int| 0 <= i <= j < entries.len() implies
            #[trigger] entries[i].timestamp <= #[trigger] entries[j].timestamp by {
            assert(entries[i].stamp() <= entries[j].stamp());
        }
    }
}

/// A new history is empty, and keeps as many samples as it is told.
pub proof fn histories_start_empty<M: AttitudeModel>(
    model: M,
    capacity: usize,
    r: AttitudeBuffer<M>,
)
    requires
        call_ensures(AttitudeBuffer::<M>::new, (model, capacity), r),
    ensures
        r.entries@.len() == 0,
        r.capacity == capacity,
        r.model == model,
{
}

} // verus!
