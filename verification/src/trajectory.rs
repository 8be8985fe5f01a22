//! The path of a simulated target.

use vstd::prelude::*;

#[allow(unused_imports)]
use crate::functional::{function1, function2, function3, function5, function6};

verus! {

/// The formulas for instants and points along a path.
pub trait PathModel {
    type Time: Copy;

    type Point: Copy;

    /// The instant at which a path starts.
    fn start(&self) -> Self::Time;

    /// The instant `leg` after `time`.
    fn advance(&self, time: Self::Time, leg: Self::Time) -> Self::Time;

    /// Whether `a` is not after `b`.
    fn at_or_before(&self, a: Self::Time, b: Self::Time) -> bool;

    /// The origin of all points.
    fn origin(&self) -> Self::Point;

    /// The point at `t` on the straight way from `from` at `depart` to `to` at `arrive`.
    fn between(
        &self,
        from: Self::Point,
        to: Self::Point,
        depart: Self::Time,
        arrive: Self::Time,
        t: Self::Time,
    ) -> Self::Point;

    /// Whether `window` is too narrow to average over.
    fn is_narrow(&self, window: Self::Time) -> bool;

    /// The `i`-th of `samples` instants spread evenly from `window` before to `window`
    /// after `t`.
    fn sample_time(
        &self,
        t: Self::Time,
        window: Self::Time,
        i: usize,
        samples: usize,
    ) -> Self::Time;

    /// The sum of two points.
    fn plus(&self, sum: Self::Point, point: Self::Point) -> Self::Point;

    /// The mean of `samples` points that add up to `sum`.
    fn mean(&self, sum: Self::Point, samples: usize) -> Self::Point;
}

/// All formulas are functions.
pub open spec fn functional<M: PathModel>() -> bool {
    &&& function1(M::start)
    &&& function3(M::advance)
    &&& function3(M::at_or_before)
    &&& function1(M::origin)
    &&& function6(M::between)
    &&& function2(M::is_narrow)
    &&& function5(M::sample_time)
    &&& function3(M::plus)
    &&& function3(M::mean)
}

/// A point on the way, and the time of arrival there.
#[derive(Clone, Copy, Debug)]
pub struct Waypoint<T, P> {
    pub time: T,
    pub pos: P,
}

/// How many samples a smoothed position averages.
pub const SAMPLES: usize = 20;

/// Waypoint `i` is leg `i` with its time replaced by the instant of arrival, which is that
/// of the waypoint before (`start`, where it is the first) plus the duration of the leg.
pub open spec fn arrival<M: PathModel>(
    model: M,
    start: M::Time,
    legs: Seq<Waypoint<M::Time, M::Point>>,
    waypoints: Seq<Waypoint<M::Time, M::Point>>,
    i: int,
) -> bool {
    let before = if i == 0 {
        start
    } else {
        waypoints[i - 1].time
    };
    &&& waypoints[i].pos == legs[i].pos
    &&& call_ensures(M::advance, (&model, before, legs[i].time), waypoints[i].time)
}

/// `waypoints` are `legs` with the times added up one after the other.
pub open spec fn accumulated<M: PathModel>(
    model: M,
    legs: Seq<Waypoint<M::Time, M::Point>>,
    waypoints: Seq<Waypoint<M::Time, M::Point>>,
) -> bool {
    &&& waypoints.len() == legs.len()
    &&& exists|start: M::Time|
        {
            &&& #[trigger] call_ensures(M::start, (&model,), start)
            &&& forall|i: int|
                0 <= i < legs.len() ==> #[trigger] arrival(model, start, legs, waypoints, i)
        }
}

/// The model has been seen to order `a` and `b` in the way of `outcome`.
pub open spec fn compared<M: PathModel>(
    model: M,
    a: M::Time,
    b: M::Time,
    outcome: bool,
) -> bool {
    call_ensures(M::at_or_before, (&model, a, b), outcome)
}

/// `t` lies on the way from waypoint `i` to the next.
pub open spec fn within<M: PathModel>(
    model: M,
    waypoints: Seq<Waypoint<M::Time, M::Point>>,
    t: M::Time,
    i: int,
) -> bool {
    &&& compared(model, waypoints[i].time, t, true)
    &&& compared(model, t, waypoints[i + 1].time, true)
}

/// `t` does not lie on the way from waypoint `i` to the next.
pub open spec fn outside<M: PathModel>(
    model: M,
    waypoints: Seq<Waypoint<M::Time, M::Point>>,
    t: M::Time,
    i: int,
) -> bool {
    ||| compared(model, waypoints[i].time, t, false)
    ||| compared(model, t, waypoints[i + 1].time, false)
}

/// `r` is the point between waypoint `i` and the next at instant `t`, and no earlier way
/// contains `t`.
pub open spec fn on_first_way<M: PathModel>(
    model: M,
    waypoints: Seq<Waypoint<M::Time, M::Point>>,
    t: M::Time,
    i: int,
    r: M::Point,
) -> bool {
    &&& 0 <= i < waypoints.len() - 1
    &&& within(model, waypoints, t, i)
    &&& forall|j: int| 0 <= j < i ==> #[trigger] outside(model, waypoints, t, j)
    &&& call_ensures(
        M::between,
        (
            &model,
            waypoints[i].pos,
            waypoints[i + 1].pos,
            waypoints[i].time,
            waypoints[i + 1].time,
            t,
        ),
        r,
    )
}

/// `r` is the position at instant `t` of a target that follows `waypoints`: the origin
/// where there are none, the first waypoint up to its instant, the last from its instant
/// on, and a point on the first way that contains `t` in between; where no way does, the
/// last waypoint.
pub open spec fn located<M: PathModel>(
    model: M,
    waypoints: Seq<Waypoint<M::Time, M::Point>>,
    t: M::Time,
    r: M::Point,
) -> bool {
    if waypoints.len() == 0 {
        call_ensures(M::origin, (&model,), r)
    } else {
        ||| compared(model, t, waypoints[0].time, true) && r == waypoints[0].pos
        ||| {
            &&& compared(model, t, waypoints[0].time, false)
            &&& {
                ||| compared(model, waypoints.last().time, t, true) && r == waypoints.last().pos
                ||| {
                    &&& compared(model, waypoints.last().time, t, false)
                    &&& {
                        ||| exists|i: int| #[trigger] on_first_way(model, waypoints, t, i, r)
                        ||| {
                            &&& forall|j: int|
                                0 <= j < waypoints.len() - 1 ==> #[trigger] outside(
                                    model,
                                    waypoints,
                                    t,
                                    j,
                                )
                            &&& r == waypoints.last().pos
                        }
                    }
                }
            }
        }
    }
}

/// What goes into one smoothed position: the sampled instants, the points there, and the
/// sums of the first of them, from none up to all.
pub ghost struct Average<M: PathModel> {
    pub times: Seq<M::Time>,
    pub points: Seq<M::Point>,
    pub sums: Seq<M::Point>,
}

impl<M: PathModel> Average<M> {
    /// The first `n` samples around `t` have been taken and added up.
    pub open spec fn taken(
        self,
        model: M,
        waypoints: Seq<Waypoint<M::Time, M::Point>>,
        t: M::Time,
        window: M::Time,
        n: int,
    ) -> bool {
        &&& self.times.len() == n && self.points.len() == n && self.sums.len() == n + 1
        &&& call_ensures(M::origin, (&model,), self.sums[0])
        &&& forall|i: int| 0 <= i < n ==> #[trigger] self.sample(model, waypoints, t, window, i)
    }

    /// The `i`-th sample and the sum that it leads to.
    pub open spec fn sample(
        self,
        model: M,
        waypoints: Seq<Waypoint<M::Time, M::Point>>,
        t: M::Time,
        window: M::Time,
        i: int,
    ) -> bool {
        &&& call_ensures(M::sample_time, (&model, t, window, i as usize, SAMPLES), self.times[i])
        &&& located(model, waypoints, self.times[i], self.points[i])
        &&& call_ensures(M::plus, (&model, self.sums[i], self.points[i]), self.sums[i + 1])
    }
}

/// `r` is the mean of [`SAMPLES`] positions around `t`.
pub open spec fn averaged<M: PathModel>(
    model: M,
    waypoints: Seq<Waypoint<M::Time, M::Point>>,
    t: M::Time,
    window: M::Time,
    average: Average<M>,
    r: M::Point,
) -> bool {
    &&& average.taken(model, waypoints, t, window, SAMPLES as int)
    &&& call_ensures(M::mean, (&model, average.sums[SAMPLES as int], SAMPLES), r)
}

/// `r` is the smoothed position at `t`: the position itself where `window` is too narrow
/// to average over, else the mean of the positions around.
pub open spec fn smoothed<M: PathModel>(
    model: M,
    waypoints: Seq<Waypoint<M::Time, M::Point>>,
    t: M::Time,
    window: M::Time,
    r: M::Point,
) -> bool {
    ||| call_ensures(M::is_narrow, (&model, window), true) && located(model, waypoints, t, r)
    ||| call_ensures(M::is_narrow, (&model, window), false) && exists|average: Average<M>|
        averaged(model, waypoints, t, window, average, r)
}

/// A target's path through a sequence of waypoints.
pub struct Trajectory<M: PathModel> {
    waypoints: Vec<Waypoint<M::Time, M::Point>>,
    model: M,
}

impl<M: PathModel> Trajectory<M> {
    /// The waypoints, with the instants of arrival.
    pub closed spec fn waypoints(self) -> Seq<Waypoint<M::Time, M::Point>> {
        self.waypoints@
    }

    pub closed spec fn model(self) -> M {
        self.model
    }

    /// Creates a new trajectory. The time of each waypoint is the duration of the way
    /// there.
    pub fn new(model: M, waypoints: Vec<Waypoint<M::Time, M::Point>>) -> (r: Self)
        ensures
            r.model() == model,
            accumulated(model, waypoints@, r.waypoints()),
    {
        let ghost legs = waypoints@;
        let mut waypoints = waypoints;
        let start = model.start();
        let mut time = start;
        let mut i: usize = 0;
        while i < waypoints.len()
            invariant
                i <= waypoints@.len() == legs.len(),
                call_ensures(M::start, (&model,), start),
                i == 0 ==> time == start,
                i > 0 ==> time == waypoints@[i - 1].time,
                forall|j: int| i <= j < legs.len() ==> waypoints@[j] == legs[j],
                forall|j: int|
                    0 <= j < i ==> #[trigger] arrival(model, start, legs, waypoints@, j),
            decreases waypoints@.len() - i,
        {
            let waypoint = waypoints[i];
            let ghost before = waypoints@;
            time = model.advance(time, waypoint.time);
            waypoints.set(i, Waypoint { time, pos: waypoint.pos });
            assert forall|j: int| 0 <= j < i + 1 implies #[trigger] arrival(
                model,
                start,
                legs,
                waypoints@,
                j,
            ) by {
                if j < i {
                    assert(arrival(model, start, legs, before, j));
                }
            }
            i = i + 1;
        }
        Trajectory { waypoints, model }
    }

    /// Evaluates the target position at instant `t`.
    pub fn position_at(&self, t: M::Time) -> (r: M::Point)
        ensures
            located(self.model(), self.waypoints(), t, r),
    {
        let n: usize = self.waypoints.len();
        if n == 0 {
            return self.model.origin();
        }
        let first = self.waypoints[0];
        let last = self.waypoints[n - 1];
        if self.model.at_or_before(t, first.time) {
            return first.pos;
        }
        if self.model.at_or_before(last.time, t) {
            return last.pos;
        }
        let mut i: usize = 0;
        while i < n - 1
            invariant
                0 <= i < n == self.waypoints@.len(),
                last == self.waypoints@.last(),
                compared(self.model, t, self.waypoints@[0].time, false),
                compared(self.model, last.time, t, false),
                forall|j: int|
                    0 <= j < i ==> #[trigger] outside(self.model, self.waypoints@, t, j),
            decreases n - i,
        {
            let from = self.waypoints[i];
            let to = self.waypoints[i + 1];
            if self.model.at_or_before(from.time, t) && self.model.at_or_before(t, to.time) {
                let r = self.model.between(from.pos, to.pos, from.time, to.time, t);
                assert(on_first_way(self.model, self.waypoints@, t, i as int, r));
                return r;
            }
            assert(outside(self.model, self.waypoints@, t, i as int));
            i = i + 1;
        }
        last.pos
    }

    /// Evaluates a smoothed target position, the mean over the instants from `window`
    /// before to `window` after `t`.
    pub fn smoothed_position_at(&self, t: M::Time, window: M::Time) -> (r: M::Point)
        ensures
            smoothed(self.model(), self.waypoints(), t, window, r),
    {
        if self.model.is_narrow(window) {
            return self.position_at(t);
        }
        let mut sum = self.model.origin();
        let ghost mut average = Average {
            times: Seq::empty(),
            points: Seq::empty(),
            sums: seq![sum],
        };
        let mut i: usize = 0;
        while i < SAMPLES
            invariant
                i <= SAMPLES,
                average.taken(self.model, self.waypoints@, t, window, i as int),
                sum == average.sums[i as int],
            decreases SAMPLES - i,
        {
            let time = self.model.sample_time(t, window, i, SAMPLES);
            let point = self.position_at(time);
            sum = self.model.plus(sum, point);
            proof {
                let longer = Average {
                    times: average.times.push(time),
                    points: average.points.push(point),
                    sums: average.sums.push(sum),
                };
                assert forall|j: int| 0 <= j < i + 1 implies #[trigger] longer.sample(
                    self.model,
                    self.waypoints@,
                    t,
                    window,
                    j,
                ) by {
                    if j < i {
                        assert(average.sample(self.model, self.waypoints@, t, window, j));
                    }
                }
                average = longer;
            }
            i = i + 1;
        }
        let r = self.model.mean(sum, SAMPLES);
        assert(averaged(self.model, self.waypoints@, t, window, average, r));
        r
    }
}

/// The model compares `t` with the waypoints by the number that `key` gives to each instant.
pub open spec fn ordered_by<M: PathModel>(
    model: M,
    key: spec_fn(M::Time) -> int,
    waypoints: Seq<Waypoint<M::Time, M::Point>>,
    t: M::Time,
) -> bool {
    &&& forall|i: int, outcome: bool| #[trigger]
        compared(model, t, waypoints[i].time, outcome) && 0 <= i < waypoints.len() ==> outcome == (
        key(t) <= key(waypoints[i].time))
    &&& forall|i: int, outcome: bool| #[trigger]
        compared(model, waypoints[i].time, t, outcome) && 0 <= i < waypoints.len() ==> outcome == (
        key(waypoints[i].time) <= key(t))
}

/// Some way contains every instant between two waypoints.
proof fn some_way_contains<M: PathModel>(
    waypoints: Seq<Waypoint<M::Time, M::Point>>,
    key: spec_fn(M::Time) -> int,
    t: M::Time,
    lo: int,
    hi: int,
) -> (i: int)
    requires
        0 <= lo < hi < waypoints.len(),
        key(waypoints[lo].time) <= key(t) <= key(waypoints[hi].time),
    ensures
        lo <= i < hi,
        key(waypoints[i].time) <= key(t) <= key(waypoints[i + 1].time),
    decreases hi - lo,
{
    if hi == lo + 1 {
        lo
    } else if key(waypoints[lo + 1].time) <= key(t) {
        some_way_contains::<M>(waypoints, key, t, lo + 1, hi)
    } else {
        lo
    }
}

/// Where its instant is ordered among the waypoints, a position between the first and the last waypoint is always
/// a point on a way that contains its instant: the target never jumps to the end.
pub proof fn position_lies_on_a_way<M: PathModel>(
    model: M,
    key: spec_fn(M::Time) -> int,
    waypoints: Seq<Waypoint<M::Time, M::Point>>,
    t: M::Time,
    r: M::Point,
)
    requires
        ordered_by(model, key, waypoints, t),
        waypoints.len() > 0,
        located(model, waypoints, t, r),
    ensures
        key(t) <= key(waypoints[0].time) ==> r == waypoints[0].pos,
        key(waypoints[0].time) < key(t) && key(waypoints.last().time) <= key(t) ==> r
            == waypoints.last().pos,
        key(waypoints[0].time) < key(t) < key(waypoints.last().time) ==> exists|i: int| #[trigger]
            on_first_way(model, waypoints, t, i, r) && key(waypoints[i].time) <= key(t) <= key(
                waypoints[i + 1].time,
            ),
{
    if key(waypoints[0].time) < key(t) < key(waypoints.last().time) {
        let i = some_way_contains::<M>(waypoints, key, t, 0, waypoints.len() - 1);
        assert(!outside(model, waypoints, t, i));
        let k = choose|k: int| #[trigger] on_first_way(model, waypoints, t, k, r);
        assert(on_first_way(model, waypoints, t, k, r));
    }
}

/// The way to waypoint `k` takes time: the instant of arrival that comes out is after that of
/// the waypoint before.
pub open spec fn takes_time<M: PathModel>(
    model: M,
    key: spec_fn(M::Time) -> int,
    legs: Seq<Waypoint<M::Time, M::Point>>,
    waypoints: Seq<Waypoint<M::Time, M::Point>>,
    k: int,
) -> bool {
    call_ensures(
        M::advance,
        (&model, waypoints[k - 1].time, legs[k].time),
        waypoints[k].time,
    ) ==> key(waypoints[k - 1].time) < key(waypoints[k].time)
}

/// Where every way but the first takes time, the waypoints of a new trajectory are strictly
/// sorted by instant.
pub proof fn waypoints_are_sorted<M: PathModel>(
    model: M,
    key: spec_fn(M::Time) -> int,
    legs: Seq<Waypoint<M::Time, M::Point>>,
    waypoints: Seq<Waypoint<M::Time, M::Point>>,
    i: int,
    j: int,
)
    requires
        accumulated(model, legs, waypoints),
        forall|k: int|
            0 < k < legs.len() ==> #[trigger] takes_time(model, key, legs, waypoints, k),
        0 <= i < j < waypoints.len(),
    ensures
        key(waypoints[i].time) < key(waypoints[j].time),
    decreases j - i,
{
    let start = choose|start: M::Time|
        {
            &&& #[trigger] call_ensures(M::start, (&model,), start)
            &&& forall|i: int|
                0 <= i < legs.len() ==> #[trigger] arrival(model, start, legs, waypoints, i)
        };
    assert(arrival(model, start, legs, waypoints, j));
    assert(takes_time(model, key, legs, waypoints, j));
    if i < j - 1 {
        waypoints_are_sorted(model, key, legs, waypoints, i, j - 1);
    }
}

/// Where the formulas are functions, the target is at one place at a time.
pub proof fn position_is_determined<M: PathModel>(
    model: M,
    waypoints: Seq<Waypoint<M::Time, M::Point>>,
    t: M::Time,
    a: M::Point,
    b: M::Point,
)
    requires
        functional::<M>(),
        located(model, waypoints, t, a),
        located(model, waypoints, t, b),
    ensures
        a == b,
{
    if exists|i: int| #[trigger] on_first_way(model, waypoints, t, i, a) {
        let i = choose|i: int| #[trigger] on_first_way(model, waypoints, t, i, a);
        assert(!outside(model, waypoints, t, i));
        if exists|j: int| #[trigger] on_first_way(model, waypoints, t, j, b) {
            let j = choose|j: int| #[trigger] on_first_way(model, waypoints, t, j, b);
            assert(!outside(model, waypoints, t, j));
            assert(i == j);
        }
    } else if exists|j: int| #[trigger] on_first_way(model, waypoints, t, j, b) {
        let j = choose|j: int| #[trigger] on_first_way(model, waypoints, t, j, b);
        assert(!outside(model, waypoints, t, j));
    }
}

/// A window too narrow to average over gives exactly the position itself.
pub proof fn narrow_windows_do_not_smooth<M: PathModel>(
    model: M,
    waypoints: Seq<Waypoint<M::Time, M::Point>>,
    t: M::Time,
    window: M::Time,
    r: M::Point,
    position: M::Point,
)
    requires
        functional::<M>(),
        call_ensures(M::is_narrow, (&model, window), true),
        smoothed(model, waypoints, t, window, r),
        located(model, waypoints, t, position),
    ensures
        r == position,
{
    position_is_determined(model, waypoints, t, r, position);
}

/// The sums of `average` and their mean `r` are free of rounding, in the coordinate that
/// `coordinate` gives to each point.
pub open spec fn exact_average<M: PathModel>(
    average: Average<M>,
    coordinate: spec_fn(M::Point) -> int,
    r: M::Point,
) -> bool {
    &&& coordinate(average.sums[0]) == 0
    &&& forall|i: int| 0 <= i < SAMPLES ==> #[trigger] exact_sum(average, coordinate, i)
    &&& coordinate(r) * SAMPLES == coordinate(average.sums[SAMPLES as int])
}

/// The sum that the `i`-th sample leads to is free of rounding.
pub open spec fn exact_sum<M: PathModel>(
    average: Average<M>,
    coordinate: spec_fn(M::Point) -> int,
    i: int,
) -> bool {
    coordinate(average.sums[i + 1]) == coordinate(average.sums[i]) + coordinate(average.points[i])
}

/// The samples around `t` are free of rounding, in the time that `time` gives to each
/// instant: they are spread evenly, no farther than `reach` from `t`.
pub open spec fn exact_samples<M: PathModel>(
    model: M,
    time: spec_fn(M::Time) -> int,
    t: M::Time,
    window: M::Time,
    reach: int,
) -> bool {
    forall|i: usize, j: usize, x: M::Time, y: M::Time|
        #[trigger] call_ensures(M::sample_time, (&model, t, window, i, SAMPLES), x)
            && #[trigger] call_ensures(M::sample_time, (&model, t, window, j, SAMPLES), y) && i + j
            + 1 == SAMPLES ==> opposite(time, t, reach, x, y)
}

/// `x` and `y` are the same time before and after `t`, and no farther from it than `reach`.
pub open spec fn opposite<T>(time: spec_fn(T) -> int, t: T, reach: int, x: T, y: T) -> bool {
    &&& time(x) + time(y) == 2 * time(t)
    &&& -reach <= time(x) - time(t) <= reach
}

/// The target moves straight on, at a steady speed, for the time `reach` before and after `t`:
/// it is as far ahead after any part of that time as it was behind before it.
pub open spec fn moves_straight<M: PathModel>(
    model: M,
    waypoints: Seq<Waypoint<M::Time, M::Point>>,
    time: spec_fn(M::Time) -> int,
    coordinate: spec_fn(M::Point) -> int,
    t: M::Time,
    reach: int,
    position: M::Point,
) -> bool {
    forall|x: M::Time, y: M::Time, p: M::Point, q: M::Point|
        #[trigger] located(model, waypoints, x, p) && #[trigger] located(model, waypoints, y, q)
            && opposite(time, t, reach, x, y) ==> coordinate(p) + coordinate(q) == 2 * coordinate(
            position,
        )
}

/// The coordinates of the first `n` points, added up.
pub open spec fn total<P>(coordinate: spec_fn(P) -> int, points: Seq<P>, n: nat) -> int
    decreases n,
{
    if n == 0 {
        0
    } else {
        total(coordinate, points, (n - 1) as nat) + coordinate(points[n - 1])
    }
}

/// The sums of an average add the coordinates up.
proof fn sums_add_up<M: PathModel>(
    average: Average<M>,
    coordinate: spec_fn(M::Point) -> int,
    r: M::Point,
    n: nat,
)
    requires
        exact_average(average, coordinate, r),
        n <= SAMPLES,
    ensures
        coordinate(average.sums[n as int]) == total(coordinate, average.points, n),
    decreases n,
{
    if n > 0 {
        sums_add_up(average, coordinate, r, (n - 1) as nat);
        assert(exact_sum(average, coordinate, n - 1));
    }
}

/// Smoothing does not displace or delay a target that moves straight on, or rests: but for
/// rounding, its smoothed position is its position.
pub proof fn straight_motion_is_not_displaced<M: PathModel>(
    model: M,
    waypoints: Seq<Waypoint<M::Time, M::Point>>,
    time: spec_fn(M::Time) -> int,
    coordinate: spec_fn(M::Point) -> int,
    t: M::Time,
    window: M::Time,
    reach: int,
    r: M::Point,
    position: M::Point,
)
    requires
        functional::<M>(),
        forall|average: Average<M>| #[trigger]
            averaged(model, waypoints, t, window, average, r) ==> exact_average(
                average,
                coordinate,
                r,
            ),
        exact_samples(model, time, t, window, reach),
        moves_straight(model, waypoints, time, coordinate, t, reach, position),
        smoothed(model, waypoints, t, window, r),
        located(model, waypoints, t, position),
    ensures
        coordinate(r) == coordinate(position),
{
    if call_ensures(M::is_narrow, (&model, window), true) {
        narrow_windows_do_not_smooth(model, waypoints, t, window, r, position);
    } else {
        let average = choose|average: Average<M>|
            averaged(model, waypoints, t, window, average, r);
        let points = average.points;
        let middle = coordinate(position);
        assert forall|i: int| 0 <= i < SAMPLES implies #[trigger] coordinate(points[i])
            + coordinate(points[SAMPLES - 1 - i]) == 2 * middle by {
            assert(average.sample(model, waypoints, t, window, i));
            assert(average.sample(model, waypoints, t, window, SAMPLES - 1 - i));
            assert(opposite(time, t, reach, average.times[i], average.times[SAMPLES - 1 - i]));
        }
        sums_add_up(average, coordinate, r, SAMPLES as nat);
        halves_add_up(coordinate, points, middle);
    }
}

/// Points of which each two opposite ones have the same middle have that mean.
proof fn halves_add_up<P>(coordinate: spec_fn(P) -> int, points: Seq<P>, middle: int)
    requires
        forall|i: int|
            0 <= i < SAMPLES ==> #[trigger] coordinate(points[i]) + coordinate(
                points[SAMPLES - 1 - i],
            ) == 2 * middle,
    ensures
        total(coordinate, points, SAMPLES as nat) == SAMPLES * middle,
{
    reveal_with_fuel(total, 21);
    assert(coordinate(points[0]) + coordinate(points[19]) == 2 * middle);
    assert(coordinate(points[1]) + coordinate(points[18]) == 2 * middle);
    assert(coordinate(points[2]) + coordinate(points[17]) == 2 * middle);
    assert(coordinate(points[3]) + coordinate(points[16]) == 2 * middle);
    assert(coordinate(points[4]) + coordinate(points[15]) == 2 * middle);
    assert(coordinate(points[5]) + coordinate(points[14]) == 2 * middle);
    assert(coordinate(points[6]) + coordinate(points[13]) == 2 * middle);
    assert(coordinate(points[7]) + coordinate(points[12]) == 2 * middle);
    assert(coordinate(points[8]) + coordinate(points[11]) == 2 * middle);
    assert(coordinate(points[9]) + coordinate(points[10]) == 2 * middle);
}

/// `x` is no farther from `t` than `reach`.
pub open spec fn near<T>(time: spec_fn(T) -> int, t: T, reach: int, x: T) -> bool {
    -reach <= time(x) - time(t) <= reach
}

/// A target that waits at its first waypoint moves straight on, with no speed at all.
pub proof fn waiting_at_the_start_is_straight<M: PathModel>(
    model: M,
    waypoints: Seq<Waypoint<M::Time, M::Point>>,
    time: spec_fn(M::Time) -> int,
    coordinate: spec_fn(M::Point) -> int,
    t: M::Time,
    reach: int,
)
    requires
        waypoints.len() > 0,
        forall|x: M::Time| #[trigger]
            near(time, t, reach, x) ==> !compared(model, x, waypoints[0].time, false),
    ensures
        moves_straight(model, waypoints, time, coordinate, t, reach, waypoints[0].pos),
{
    assert forall|x: M::Time, y: M::Time, p: M::Point, q: M::Point|
        #[trigger] located(model, waypoints, x, p) && #[trigger] located(model, waypoints, y, q)
            && opposite(time, t, reach, x, y) implies coordinate(p) + coordinate(q) == 2
        * coordinate(waypoints[0].pos) by {
        assert(near(time, t, reach, x) && near(time, t, reach, y));
    }
}

/// So does a target that waits at its last waypoint.
pub proof fn waiting_at_the_end_is_straight<M: PathModel>(
    model: M,
    waypoints: Seq<Waypoint<M::Time, M::Point>>,
    time: spec_fn(M::Time) -> int,
    coordinate: spec_fn(M::Point) -> int,
    t: M::Time,
    reach: int,
)
    requires
        waypoints.len() > 0,
        forall|x: M::Time| #[trigger]
            near(time, t, reach, x) ==> {
                &&& waypoints.len() > 1 ==> !compared(model, x, waypoints[0].time, true)
                &&& !compared(model, waypoints.last().time, x, false)
            },
    ensures
        moves_straight(model, waypoints, time, coordinate, t, reach, waypoints.last().pos),
{
    assert forall|x: M::Time, y: M::Time, p: M::Point, q: M::Point|
        #[trigger] located(model, waypoints, x, p) && #[trigger] located(model, waypoints, y, q)
            && opposite(time, t, reach, x, y) implies coordinate(p) + coordinate(q) == 2
        * coordinate(waypoints.last().pos) by {
        assert(near(time, t, reach, x) && near(time, t, reach, y));
    }
}

/// `p` is the point between waypoint `k` and the next at instant `x`.
pub open spec fn on_way<M: PathModel>(
    model: M,
    waypoints: Seq<Waypoint<M::Time, M::Point>>,
    k: int,
    x: M::Time,
    p: M::Point,
) -> bool {
    call_ensures(
        M::between,
        (
            &model,
            waypoints[k].pos,
            waypoints[k + 1].pos,
            waypoints[k].time,
            waypoints[k + 1].time,
            x,
        ),
        p,
    )
}

/// Points on the way from waypoint `i` to the next are free of rounding, no farther from `t`
/// than `reach`: they lie on `line`, which goes from the one to the other at a steady speed,
/// and the way before ends where this one begins.
pub open spec fn exact_way<M: PathModel>(
    model: M,
    waypoints: Seq<Waypoint<M::Time, M::Point>>,
    time: spec_fn(M::Time) -> int,
    coordinate: spec_fn(M::Point) -> int,
    line: spec_fn(int) -> int,
    i: int,
    t: M::Time,
    reach: int,
) -> bool {
    &&& forall|a: int, b: int, c: int|
        a + b == 2 * c ==> #[trigger] line(a) + #[trigger] line(b) == 2 * #[trigger] line(c)
    &&& line(time(waypoints[i].time)) == coordinate(waypoints[i].pos)
    &&& line(time(waypoints[i + 1].time)) == coordinate(waypoints[i + 1].pos)
    &&& forall|x: M::Time, p: M::Point| #[trigger]
        on_way(model, waypoints, i, x, p) && near(time, t, reach, x) ==> coordinate(p) == line(
            time(x),
        )
    &&& i > 0 ==> forall|x: M::Time, p: M::Point| #[trigger]
        on_way(model, waypoints, i - 1, x, p) && near(time, t, reach, x) && time(x) == time(
            waypoints[i].time,
        ) ==> coordinate(p) == coordinate(waypoints[i].pos)
}

/// A target on one way lies on its line.
proof fn position_lies_on_the_line<M: PathModel>(
    model: M,
    waypoints: Seq<Waypoint<M::Time, M::Point>>,
    time: spec_fn(M::Time) -> int,
    coordinate: spec_fn(M::Point) -> int,
    line: spec_fn(int) -> int,
    i: int,
    t: M::Time,
    reach: int,
    x: M::Time,
    p: M::Point,
)
    requires
        0 <= i < waypoints.len() - 1,
        forall|a: int, b: int|
            0 <= a < b < waypoints.len() ==> time(#[trigger] waypoints[a].time) < time(
                #[trigger] waypoints[b].time,
            ),
        exact_way(model, waypoints, time, coordinate, line, i, t, reach),
        near(time, t, reach, x),
        ordered_by(model, time, waypoints, x),
        time(waypoints[i].time) <= time(x) <= time(waypoints[i + 1].time),
        located(model, waypoints, x, p),
    ensures
        coordinate(p) == line(time(x)),
{
    let n = waypoints.len() as int;
    position_lies_on_a_way(model, time, waypoints, x, p);
    if i > 0 {
        assert(time(waypoints[0].time) < time(waypoints[i].time));
    }
    if i + 1 < n - 1 {
        assert(time(waypoints[i + 1].time) < time(waypoints[n - 1].time));
    }
    assert(time(waypoints[i].time) < time(waypoints[i + 1].time));
    if time(waypoints[0].time) < time(x) < time(waypoints.last().time) {
        let k = choose|k: int| #[trigger]
            on_first_way(model, waypoints, x, k, p) && time(waypoints[k].time) <= time(x) <= time(
                waypoints[k + 1].time,
            );
        assert(on_way(model, waypoints, k, x, p));
        if k < i {
            if k + 1 < i {
                assert(time(waypoints[k + 1].time) < time(waypoints[i].time));
            }
            assert(on_way(model, waypoints, i - 1, x, p));
        } else if k > i {
            assert(outside(model, waypoints, x, i));
            if compared(model, waypoints[i].time, x, false) {
                assert(false);
            }
            assert(compared(model, x, waypoints[i + 1].time, false));
        }
    } else if time(x) <= time(waypoints[0].time) {
        assert(i == 0);
    } else {
        assert(i + 1 == n - 1);
    }
}

/// A target that stays on one way moves straight on, where its points are free of rounding.
pub proof fn way_is_straight<M: PathModel>(
    model: M,
    waypoints: Seq<Waypoint<M::Time, M::Point>>,
    time: spec_fn(M::Time) -> int,
    coordinate: spec_fn(M::Point) -> int,
    line: spec_fn(int) -> int,
    i: int,
    t: M::Time,
    reach: int,
    position: M::Point,
)
    requires
        0 <= i < waypoints.len() - 1,
        forall|a: int, b: int|
            0 <= a < b < waypoints.len() ==> time(#[trigger] waypoints[a].time) < time(
                #[trigger] waypoints[b].time,
            ),
        exact_way(model, waypoints, time, coordinate, line, i, t, reach),
        reach >= 0,
        forall|x: M::Time| #[trigger]
            near(time, t, reach, x) ==> {
                &&& ordered_by(model, time, waypoints, x)
                &&& time(waypoints[i].time) <= time(x) <= time(waypoints[i + 1].time)
            },
        located(model, waypoints, t, position),
    ensures
        moves_straight(model, waypoints, time, coordinate, t, reach, position),
{
    assert(near(time, t, reach, t));
    position_lies_on_the_line(
        model,
        waypoints,
        time,
        coordinate,
        line,
        i,
        t,
        reach,
        t,
        position,
    );
    assert forall|x: M::Time, y: M::Time, p: M::Point, q: M::Point|
        #[trigger] located(model, waypoints, x, p) && #[trigger] located(model, waypoints, y, q)
            && opposite(time, t, reach, x, y) implies coordinate(p) + coordinate(q) == 2
        * coordinate(position) by {
        assert(near(time, t, reach, x) && near(time, t, reach, y));
        position_lies_on_the_line(
            model,
            waypoints,
            time,
            coordinate,
            line,
            i,
            t,
            reach,
            x,
            p,
        );
        position_lies_on_the_line(
            model,
            waypoints,
            time,
            coordinate,
            line,
            i,
            t,
            reach,
            y,
            q,
        );
    }
}

/// Where the formulas are functions, so is the smoothed position.
pub proof fn smoothed_position_is_determined<M: PathModel>(
    model: M,
    waypoints: Seq<Waypoint<M::Time, M::Point>>,
    t: M::Time,
    window: M::Time,
    a: M::Point,
    b: M::Point,
)
    requires
        functional::<M>(),
        smoothed(model, waypoints, t, window, a),
        smoothed(model, waypoints, t, window, b),
    ensures
        a == b,
{
    if call_ensures(M::is_narrow, (&model, window), true) {
        position_is_determined(model, waypoints, t, a, b);
    } else {
        let x = choose|average: Average<M>| averaged(model, waypoints, t, window, average, a);
        let y = choose|average: Average<M>| averaged(model, waypoints, t, window, average, b);
        averages_agree(model, waypoints, t, window, x, y, SAMPLES as int);
    }
}

/// Two averages of the same positions have the same sums.
proof fn averages_agree<M: PathModel>(
    model: M,
    waypoints: Seq<Waypoint<M::Time, M::Point>>,
    t: M::Time,
    window: M::Time,
    x: Average<M>,
    y: Average<M>,
    n: int,
)
    requires
        functional::<M>(),
        x.taken(model, waypoints, t, window, SAMPLES as int),
        y.taken(model, waypoints, t, window, SAMPLES as int),
        0 <= n <= SAMPLES,
    ensures
        x.sums[n] == y.sums[n],
    decreases n,
{
    if n > 0 {
        let i = n - 1;
        averages_agree(model, waypoints, t, window, x, y, i);
        assert(x.sample(model, waypoints, t, window, i));
        assert(y.sample(model, waypoints, t, window, i));
        assert(x.times[i] == y.times[i]);
        position_is_determined(model, waypoints, x.times[i], x.points[i], y.points[i]);
    }
}

/// A smoothed position is the mean of the positions at twenty instants spread over the window:
/// but for rounding, its coordinate is a twentieth of what theirs add up to.
pub proof fn smoothed_position_is_the_mean<M: PathModel>(
    trajectory: Trajectory<M>,
    coordinate: spec_fn(M::Point) -> int,
    t: M::Time,
    window: M::Time,
    r: M::Point,
    times: Seq<M::Time>,
    points: Seq<M::Point>,
)
    requires
        functional::<M>(),
        call_ensures(M::is_narrow, (&trajectory.model(), window), false),
        call_ensures(Trajectory::<M>::smoothed_position_at, (&trajectory, t, window), r),
        forall|origin: M::Point| #[trigger]
            call_ensures(M::origin, (&trajectory.model(),), origin) ==> coordinate(origin) == 0,
        forall|x: M::Point, y: M::Point, sum: M::Point| #[trigger]
            call_ensures(M::plus, (&trajectory.model(), x, y), sum) ==> coordinate(sum)
                == coordinate(x) + coordinate(y),
        forall|sum: M::Point, mean: M::Point| #[trigger]
            call_ensures(M::mean, (&trajectory.model(), sum, 20usize), mean) ==> coordinate(mean)
                * 20 == coordinate(sum),
        times.len() == 20,
        points.len() == 20,
        forall|i: int|
            0 <= i < 20 ==> call_ensures(
                M::sample_time,
                (&trajectory.model(), t, window, i as usize, 20usize),
                #[trigger] times[i],
            ),
        forall|i: int|
            0 <= i < 20 ==> call_ensures(
                Trajectory::<M>::position_at,
                (&trajectory, times[i]),
                #[trigger] points[i],
            ),
    ensures
        coordinate(r) * 20 == total(coordinate, points, 20),
{
    let model = trajectory.model();
    let waypoints = trajectory.waypoints();
    let average = choose|average: Average<M>| averaged(model, waypoints, t, window, average, r);
    mean_adds_up(model, waypoints, coordinate, t, window, average, times, points, 20);
}

/// The sums of an average are those of the positions at its instants.
proof fn mean_adds_up<M: PathModel>(
    model: M,
    waypoints: Seq<Waypoint<M::Time, M::Point>>,
    coordinate: spec_fn(M::Point) -> int,
    t: M::Time,
    window: M::Time,
    average: Average<M>,
    times: Seq<M::Time>,
    points: Seq<M::Point>,
    n: nat,
)
    requires
        functional::<M>(),
        average.taken(model, waypoints, t, window, SAMPLES as int),
        forall|origin: M::Point| #[trigger]
            call_ensures(M::origin, (&model,), origin) ==> coordinate(origin) == 0,
        forall|x: M::Point, y: M::Point, sum: M::Point| #[trigger]
            call_ensures(M::plus, (&model, x, y), sum) ==> coordinate(sum) == coordinate(x)
                + coordinate(y),
        times.len() == SAMPLES,
        points.len() == SAMPLES,
        forall|i: int|
            0 <= i < SAMPLES ==> call_ensures(
                M::sample_time,
                (&model, t, window, i as usize, SAMPLES),
                #[trigger] times[i],
            ),
        forall|i: int|
            0 <= i < SAMPLES ==> located(model, waypoints, times[i], #[trigger] points[i]),
        n <= SAMPLES,
    ensures
        coordinate(average.sums[n as int]) == total(coordinate, points, n),
    decreases n,
{
    if n > 0 {
        let i = n - 1;
        mean_adds_up(
            model,
            waypoints,
            coordinate,
            t,
            window,
            average,
            times,
            points,
            i as nat,
        );
        assert(average.sample(model, waypoints, t, window, i));
        assert(average.times[i] == times[i]);
        position_is_determined(model, waypoints, times[i], average.points[i], points[i]);
    }
}

/// A target that follows a path is at its first waypoint up to the instant of that, at its last
/// from the instant of that on, and in between on the straight way between two waypoints that
/// its instant lies between: the first such way. Without waypoints it is at the origin.
pub proof fn targets_move_from_waypoint_to_waypoint<M: PathModel>(
    trajectory: Trajectory<M>,
    key: spec_fn(M::Time) -> int,
    t: M::Time,
    r: M::Point,
    origin: M::Point,
    i: int,
    point: M::Point,
)
    requires
        functional::<M>(),
        forall|a: M::Time, b: M::Time, outcome: bool| #[trigger]
            call_ensures(M::at_or_before, (&trajectory.model(), a, b), outcome) ==> outcome == (
            key(a) <= key(b)),
        call_ensures(Trajectory::<M>::position_at, (&trajectory, t), r),
        call_ensures(M::origin, (&trajectory.model(),), origin),
    ensures
        ({
            let waypoints = trajectory.waypoints();
            let n = waypoints.len() as int;
            &&& n == 0 ==> r == origin
            &&& n > 0 && key(t) <= key(waypoints[0].time) ==> r == waypoints[0].pos
            &&& n > 0 && key(waypoints[0].time) < key(t) && key(waypoints.last().time) <= key(t)
                ==> r == waypoints.last().pos
            &&& {
                &&& 0 <= i < n - 1
                &&& key(waypoints[0].time) < key(t) < key(waypoints.last().time)
                &&& key(waypoints[i].time) <= key(t) <= key(waypoints[i + 1].time)
                &&& forall|j: int|
                    #![trigger waypoints[j]]
                    0 <= j < i ==> !(key(waypoints[j].time) <= key(t) <= key(waypoints[j + 1].time))
                &&& call_ensures(
                    M::between,
                    (
                        &trajectory.model(),
                        waypoints[i].pos,
                        waypoints[i + 1].pos,
                        waypoints[i].time,
                        waypoints[i + 1].time,
                        t,
                    ),
                    point,
                )
            } ==> r == point
        }),
{
    let model = trajectory.model();
    let waypoints = trajectory.waypoints();
    let n = waypoints.len() as int;
    assert(located(model, waypoints, t, r));
    if n > 0 {
        assert(ordered_by(model, key, waypoints, t));
        position_lies_on_a_way(model, key, waypoints, t, r);
        if 0 <= i < n - 1 && key(waypoints[0].time) < key(t) < key(waypoints.last().time)
            && key(waypoints[i].time) <= key(t) <= key(waypoints[i + 1].time) && (forall|j: int|
            #![trigger waypoints[j]]
            0 <= j < i ==> !(key(waypoints[j].time) <= key(t) <= key(waypoints[j + 1].time))) {
            let k = choose|k: int| #[trigger]
                on_first_way(model, waypoints, t, k, r) && key(waypoints[k].time) <= key(t) <= key(
                    waypoints[k + 1].time,
                );
            if k < i {
                let at = waypoints[k];
            } else if i < k {
                assert(outside(model, waypoints, t, i));
            }
            assert(k == i);
        }
    }
}

/// How long the first `n` legs take.
pub open spec fn duration<M: PathModel>(
    key: spec_fn(M::Time) -> int,
    legs: Seq<Waypoint<M::Time, M::Point>>,
    n: nat,
) -> int
    decreases n,
{
    if n == 0 {
        0
    } else {
        duration::<M>(key, legs, (n - 1) as nat) + key(legs[n - 1].time)
    }
}

/// A new path leads through the points of its legs, in their order, and reaches each of them
/// when all legs up to it have taken their time.
pub proof fn legs_take_their_time<M: PathModel>(
    model: M,
    key: spec_fn(M::Time) -> int,
    legs: Vec<Waypoint<M::Time, M::Point>>,
    trajectory: Trajectory<M>,
    i: nat,
)
    requires
        call_ensures(Trajectory::<M>::new, (model, legs), trajectory),
        forall|start: M::Time| #[trigger]
            call_ensures(M::start, (&model,), start) ==> key(start) == 0,
        forall|time: M::Time, leg: M::Time, r: M::Time| #[trigger]
            call_ensures(M::advance, (&model, time, leg), r) ==> key(r) == key(time) + key(leg),
    ensures
        trajectory.model() == model,
        trajectory.waypoints().len() == legs@.len(),
        i < legs@.len() ==> trajectory.waypoints()[i as int].pos == legs@[i as int].pos,
        i < legs@.len() ==> key(trajectory.waypoints()[i as int].time) == duration::<M>(
            key,
            legs@,
            i + 1,
        ),
    decreases i,
{
    if i < legs@.len() {
        let waypoints = trajectory.waypoints();
        let start = choose|start: M::Time|
            {
                &&& #[trigger] call_ensures(M::start, (&model,), start)
                &&& forall|i: int|
                    0 <= i < legs@.len() ==> #[trigger] arrival(model, start, legs@, waypoints, i)
            };
        assert(arrival(model, start, legs@, waypoints, i as int));
        if i > 0 {
            legs_take_their_time(model, key, legs, trajectory, (i - 1) as nat);
        } else {
            assert(duration::<M>(key, legs@, 0) == 0);
        }
    }
}

} // verus!
