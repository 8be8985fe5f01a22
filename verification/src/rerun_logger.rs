//! What is logged of a simulated flight, where, and how often.

use std::collections::VecDeque;
use vstd::prelude::*;

#[allow(unused_imports)]
use crate::functional::{function2, function3};

verus! {

/// How many past positions the trail of the vehicle shows.
pub const TRAIL_LEN: usize = 1000;

/// The terms of a rate controller about one axis.
pub struct PidTerms<D> {
    pub p: D,
    pub i: D,
    pub dr: D,
    pub dm: D,
}

/// A navigation estimate.
pub struct EstimateLog<D> {
    pub pos: D,
    pub vel: D,
    pub att: D,
    pub gyr_bias: D,
    pub acc_bias: D,
}

/// The state of the motors.
pub struct MotorLog<D> {
    pub force: D,
    pub command: D,
    pub arrows: D,
}

/// Readings of the inertial sensors.
pub struct ImuLog<D> {
    pub acc: D,
    pub gyr: D,
}

/// Everything that can be logged at one instant; what is missing has no value yet.
pub struct Telemetry<D> {
    pub motors: MotorLog<D>,
    pub imu: Option<ImuLog<D>>,
    pub target: Option<D>,
    pub gyr_comp: Option<D>,
    pub estimate: Option<EstimateLog<D>>,
    pub rate_sp: Option<D>,
    pub angl_sp: Option<D>,
    pub rate_ref_filt: Option<D>,
    pub rate_ff_pred: Option<D>,
    pub rate_comp_fuse: Option<D>,
    pub ahrs_attitude: Option<D>,
    pub rate_pid: Option<(PidTerms<D>, PidTerms<D>, PidTerms<D>)>,
    pub ahrs_att: Option<D>,
    pub position: D,
    pub rotation: D,
    pub drone: D,
    pub line_of_sight: Option<D>,
}

/// Something to log.
pub enum Datum<P, D> {
    /// Past positions, the latest first.
    Trail(Vec<P>),
    Value(D),
}

/// Something to log, and the path of the entity it belongs to.
pub struct Record<P, D> {
    pub path: &'static str,
    /// Whether a test cannot go on where this is not logged; any other record may be reported
    /// as an error.
    pub vital: bool,
    pub datum: Datum<P, D>,
}

/// What a record says.
pub ghost enum Logged<P, D> {
    Trail(Seq<char>, bool, Seq<P>),
    Value(Seq<char>, bool, D),
}

impl<P, D> View for Record<P, D> {
    type V = Logged<P, D>;

    open spec fn view(&self) -> Logged<P, D> {
        match self.datum {
            Datum::Trail(trail) => Logged::Trail(self.path@, self.vital, trail@),
            Datum::Value(value) => Logged::Value(self.path@, self.vital, value),
        }
    }
}

/// What a sequence of records says.
pub open spec fn contents<P, D>(records: Seq<Record<P, D>>) -> Seq<Logged<P, D>> {
    records.map_values(|record: Record<P, D>| record@)
}

/// One record of `value` at `path`.
pub open spec fn one<P, D>(path: &'static str, value: D) -> Seq<Logged<P, D>> {
    seq![Logged::Value(path@, false, value)]
}

/// One vital record of `value` at `path`.
pub open spec fn vital<P, D>(path: &'static str, value: D) -> Seq<Logged<P, D>> {
    seq![Logged::Value(path@, true, value)]
}

/// One record of `value` at `path`, if there is a value.
pub open spec fn if_any<P, D>(path: &'static str, value: Option<D>) -> Seq<Logged<P, D>> {
    match value {
        Some(value) => one(path, value),
        None => Seq::empty(),
    }
}

pub open spec fn motor_records<P, D>(motors: MotorLog<D>) -> Seq<Logged<P, D>> {
    one("drone/motor/force", motors.force) + one("drone/motor/command", motors.command) + one(
        "drone/motors",
        motors.arrows,
    )
}

pub open spec fn imu_records<P, D>(imu: Option<ImuLog<D>>) -> Seq<Logged<P, D>> {
    match imu {
        Some(imu) => one("sim/firmware/acc", imu.acc) + one("sim/firmware/gyr", imu.gyr),
        None => Seq::empty(),
    }
}

pub open spec fn estimate_records<P, D>(estimate: Option<EstimateLog<D>>) -> Seq<Logged<P, D>> {
    match estimate {
        Some(estimate) => one("sim/firmware/eskf/pos", estimate.pos) + one(
            "sim/firmware/eskf/vel",
            estimate.vel,
        ) + one("sim/firmware/eskf/att", estimate.att) + one(
            "sim/firmware/eskf/gyr_bias",
            estimate.gyr_bias,
        ) + one("sim/firmware/eskf/acc_bias", estimate.acc_bias),
        None => Seq::empty(),
    }
}

pub open spec fn pid_records<P, D>(
    pid: Option<(PidTerms<D>, PidTerms<D>, PidTerms<D>)>,
) -> Seq<Logged<P, D>> {
    match pid {
        Some((x, y, z)) => one("sim/firmware/rate_pid/x/p", x.p) + one(
            "sim/firmware/rate_pid/x/i",
            x.i,
        ) + one("sim/firmware/rate_pid/x/dr", x.dr) + one("sim/firmware/rate_pid/x/dm", x.dm)
            + one("sim/firmware/rate_pid/y/p", y.p) + one("sim/firmware/rate_pid/y/i", y.i) + one(
            "sim/firmware/rate_pid/y/dr",
            y.dr,
        ) + one("sim/firmware/rate_pid/y/dm", y.dm) + one("sim/firmware/rate_pid/z/p", z.p) + one(
            "sim/firmware/rate_pid/z/i",
            z.i,
        ) + one("sim/firmware/rate_pid/z/dr", z.dr) + one("sim/firmware/rate_pid/z/dm", z.dm),
        None => Seq::empty(),
    }
}

/// The records of one instant, in the order in which they are logged.
pub open spec fn all_records<P, D>(telemetry: Telemetry<D>, trail: Seq<P>) -> Seq<Logged<P, D>> {
    motor_records(telemetry.motors)
        + imu_records(telemetry.imu)
        + if_any("target", telemetry.target)
        + if_any("sim/firmware/gyr_comp", telemetry.gyr_comp)
        + estimate_records(telemetry.estimate)
        + if_any("sim/firmware/rate_sp", telemetry.rate_sp)
        + if_any("sim/firmware/angl_sp", telemetry.angl_sp)
        + if_any("sim/firmware/rate_ref_filt", telemetry.rate_ref_filt)
        + if_any("sim/firmware/rate_ff_pred", telemetry.rate_ff_pred)
        + if_any("sim/firmware/rate_comp_fuse", telemetry.rate_comp_fuse)
        + if_any("sim/firmware/ahrs_attitude", telemetry.ahrs_attitude)
        + pid_records(telemetry.rate_pid)
        + if_any("sim/firmware/ahrs_att", telemetry.ahrs_att)
        + seq![Logged::Trail("sim/position/trail"@, true, trail)]
        + vital("sim/position", telemetry.position)
        + vital("sim/rotation", telemetry.rotation)
        + one("drone", telemetry.drone)
        + if_any("line_of_sight", telemetry.line_of_sight)
}

/// Appends one record.
fn push_value<P, D>(records: &mut Vec<Record<P, D>>, path: &'static str, value: D)
    ensures
        contents(final(records)@) == contents(old(records)@) + one(path, value),
{
    records.push(Record { path, vital: false, datum: Datum::Value(value) });
    assert(contents(records@) =~= contents(old(records)@) + one(path, value));
}

/// Appends one vital record.
fn push_vital<P, D>(records: &mut Vec<Record<P, D>>, path: &'static str, value: D)
    ensures
        contents(final(records)@) == contents(old(records)@) + vital(path, value),
{
    records.push(Record { path, vital: true, datum: Datum::Value(value) });
    assert(contents(records@) =~= contents(old(records)@) + vital(path, value));
}

/// Appends one record, if there is a value.
fn push_if_any<P, D>(records: &mut Vec<Record<P, D>>, path: &'static str, value: Option<D>)
    ensures
        contents(final(records)@) == contents(old(records)@) + if_any(path, value),
{
    match value {
        Some(value) => push_value(records, path, value),
        None => {
            assert(contents(records@) =~= contents(old(records)@) + Seq::empty());
        },
    }
}

fn push_motors<P, D>(records: &mut Vec<Record<P, D>>, motors: MotorLog<D>)
    ensures
        contents(final(records)@) == contents(old(records)@) + motor_records(motors),
{
    push_value(records, "drone/motor/force", motors.force);
    push_value(records, "drone/motor/command", motors.command);
    push_value(records, "drone/motors", motors.arrows);
    assert(contents(records@) =~= contents(old(records)@) + motor_records(motors));
}

fn push_imu<P, D>(records: &mut Vec<Record<P, D>>, imu: Option<ImuLog<D>>)
    ensures
        contents(final(records)@) == contents(old(records)@) + imu_records(imu),
{
    match imu {
        Some(imu) => {
            push_value(records, "sim/firmware/acc", imu.acc);
            push_value(records, "sim/firmware/gyr", imu.gyr);
            assert(contents(records@) =~= contents(old(records)@) + imu_records(Some(imu)));
        },
        None => {
            assert(contents(records@) =~= contents(old(records)@) + Seq::empty());
        },
    }
}

fn push_estimate<P, D>(records: &mut Vec<Record<P, D>>, estimate: Option<EstimateLog<D>>)
    ensures
        contents(final(records)@) == contents(old(records)@) + estimate_records(estimate),
{
    match estimate {
        Some(estimate) => {
            push_value(records, "sim/firmware/eskf/pos", estimate.pos);
            push_value(records, "sim/firmware/eskf/vel", estimate.vel);
            push_value(records, "sim/firmware/eskf/att", estimate.att);
            push_value(records, "sim/firmware/eskf/gyr_bias", estimate.gyr_bias);
            push_value(records, "sim/firmware/eskf/acc_bias", estimate.acc_bias);
            assert(contents(records@) =~= contents(old(records)@) + estimate_records(
                Some(estimate),
            ));
        },
        None => {
            assert(contents(records@) =~= contents(old(records)@) + Seq::empty());
        },
    }
}

fn push_pid<P, D>(
    records: &mut Vec<Record<P, D>>,
    pid: Option<(PidTerms<D>, PidTerms<D>, PidTerms<D>)>,
)
    ensures
        contents(final(records)@) == contents(old(records)@) + pid_records(pid),
{
    match pid {
        Some((x, y, z)) => {
            push_value(records, "sim/firmware/rate_pid/x/p", x.p);
            push_value(records, "sim/firmware/rate_pid/x/i", x.i);
            push_value(records, "sim/firmware/rate_pid/x/dr", x.dr);
            push_value(records, "sim/firmware/rate_pid/x/dm", x.dm);
            push_value(records, "sim/firmware/rate_pid/y/p", y.p);
            push_value(records, "sim/firmware/rate_pid/y/i", y.i);
            push_value(records, "sim/firmware/rate_pid/y/dr", y.dr);
            push_value(records, "sim/firmware/rate_pid/y/dm", y.dm);
            push_value(records, "sim/firmware/rate_pid/z/p", z.p);
            push_value(records, "sim/firmware/rate_pid/z/i", z.i);
            push_value(records, "sim/firmware/rate_pid/z/dr", z.dr);
            push_value(records, "sim/firmware/rate_pid/z/dm", z.dm);
            assert(contents(records@) =~= contents(old(records)@) + pid_records(Some((x, y, z))));
        },
        None => {
            assert(contents(records@) =~= contents(old(records)@) + Seq::empty());
        },
    }
}

/// `trail` with `pos` in front; one of full length loses its oldest position.
pub open spec fn trailed<P>(trail: Seq<P>, pos: P, len: nat) -> Seq<P> {
    if trail.len() >= len && trail.len() > 0 {
        seq![pos] + trail.drop_last()
    } else {
        seq![pos] + trail
    }
}

/// The trail that `positions`, the latest last, have left in one of length `len`.
pub open spec fn trail_of<P>(positions: Seq<P>, len: nat) -> Seq<P>
    decreases positions.len(),
{
    if positions.len() == 0 {
        Seq::empty()
    } else {
        trailed(trail_of(positions.drop_last(), len), positions.last(), len)
    }
}

/// A trail shows the latest positions, as many as it is long, the latest first.
pub proof fn trail_is_the_recent_past<P>(positions: Seq<P>, len: nat)
    requires
        len >= 1,
    ensures
        trail_of(positions, len).len() == if positions.len() < len {
            positions.len()
        } else {
            len
        },
        forall|i: int|
            0 <= i < trail_of(positions, len).len() ==> #[trigger] trail_of(positions, len)[i]
                == positions[positions.len() - 1 - i],
    decreases positions.len(),
{
    if positions.len() > 0 {
        trail_is_the_recent_past(positions.drop_last(), len);
    }
}

/// A logger that keeps the trail of the vehicle.
pub struct RerunLogger<P: Copy> {
    pos_trail: VecDeque<P>,
    subsample_cfg: usize,
    subsample_count: usize,
}

impl<P: Copy> RerunLogger<P> {
    /// Past positions, the latest first.
    pub closed spec fn trail(self) -> Seq<P> {
        self.pos_trail@
    }

    /// Every how many steps the logger logs.
    pub closed spec fn period(self) -> usize {
        self.subsample_cfg
    }

    /// How many steps there have been since it last did.
    pub closed spec fn count(self) -> usize {
        self.subsample_count
    }

    /// The trail is not too long, and the next log is still to come.
    pub open spec fn wf(self) -> bool {
        &&& self.trail().len() <= TRAIL_LEN
        &&& self.count() < self.period() || self.count() == 0
    }

    /// A logger that logs at every `subsample`-th step.
    pub fn new(subsample: usize) -> (r: Self)
        ensures
            r.wf(),
            r.trail().len() == 0,
            r.period() == subsample,
            r.count() == 0,
    {
        RerunLogger { pos_trail: VecDeque::new(), subsample_cfg: subsample, subsample_count: 0 }
    }

    /// Counts one step and tells whether it is one to log.
    pub fn log_subsampled(&mut self) -> (due: bool)
        requires
            old(self).wf(),
        ensures
            final(self).wf(),
            final(self).trail() == old(self).trail(),
            final(self).period() == old(self).period(),
            due == (old(self).count() + 1 >= old(self).period()),
            final(self).count() == (if due {
                0
            } else {
                (old(self).count() + 1) as usize
            }),
    {
        if self.subsample_cfg > 0 && self.subsample_count < self.subsample_cfg - 1 {
            self.subsample_count = self.subsample_count + 1;
            return false;
        }
        self.subsample_count = 0;
        true
    }

    /// Adds the position of the vehicle to its trail and lists what to log, in order.
    pub fn log_now<D>(&mut self, pos: P, telemetry: Telemetry<D>) -> (records: Vec<Record<P, D>>)
        requires
            old(self).wf(),
        ensures
            final(self).wf(),
            final(self).trail() == trailed(old(self).trail(), pos, TRAIL_LEN as nat),
            final(self).period() == old(self).period(),
            final(self).count() == old(self).count(),
            contents(records@) == all_records(telemetry, final(self).trail()),
    {
        if self.pos_trail.len() >= TRAIL_LEN {
            self.pos_trail.pop_back();
        }
        self.pos_trail.push_front(pos);
        assert(self.trail() =~= trailed(old(self).trail(), pos, TRAIL_LEN as nat));

        let mut records: Vec<Record<P, D>> = Vec::new();
        assert(contents(records@) =~= Seq::empty());
        push_motors(&mut records, telemetry.motors);
        push_imu(&mut records, telemetry.imu);
        push_if_any(&mut records, "target", telemetry.target);
        push_if_any(&mut records, "sim/firmware/gyr_comp", telemetry.gyr_comp);
        push_estimate(&mut records, telemetry.estimate);
        push_if_any(&mut records, "sim/firmware/rate_sp", telemetry.rate_sp);
        push_if_any(&mut records, "sim/firmware/angl_sp", telemetry.angl_sp);
        push_if_any(&mut records, "sim/firmware/rate_ref_filt", telemetry.rate_ref_filt);
        push_if_any(&mut records, "sim/firmware/rate_ff_pred", telemetry.rate_ff_pred);
        push_if_any(&mut records, "sim/firmware/rate_comp_fuse", telemetry.rate_comp_fuse);
        push_if_any(&mut records, "sim/firmware/ahrs_attitude", telemetry.ahrs_attitude);
        push_pid(&mut records, telemetry.rate_pid);
        push_if_any(&mut records, "sim/firmware/ahrs_att", telemetry.ahrs_att);
        let ghost before = contents(records@);
        let trail = self.copy_trail();
        let datum = Datum::Trail(trail);
        records.push(Record { path: "sim/position/trail", vital: true, datum });
        assert(contents(records@) =~= before + seq![
            Logged::Trail("sim/position/trail"@, true, self.trail()),
        ]);
        push_vital(&mut records, "sim/position", telemetry.position);
        push_vital(&mut records, "sim/rotation", telemetry.rotation);
        push_value(&mut records, "drone", telemetry.drone);
        push_if_any(&mut records, "line_of_sight", telemetry.line_of_sight);
        assert(contents(records@) =~= all_records(telemetry, self.trail()));
        records
    }

    fn copy_trail(&self) -> (trail: Vec<P>)
        ensures
            trail@ == self.trail(),
    {
        let mut trail: Vec<P> = Vec::new();
        let mut i: usize = 0;
        while i < self.pos_trail.len()
            invariant
                i <= self.pos_trail@.len(),
                trail@ == self.pos_trail@.take(i as int),
            decreases self.pos_trail@.len() - i,
        {
            trail.push(self.pos_trail[i]);
            assert(self.pos_trail@.take(i + 1) =~= self.pos_trail@.take(i as int).push(
                self.pos_trail@[i as int],
            ));
            i = i + 1;
        }
        assert(self.pos_trail@.take(i as int) =~= self.pos_trail@);
        trail
    }
}

/// How often a logger that logs at every `period`-th step, and has counted `count` steps
/// since it last did, logs in the next `steps` steps.
pub open spec fn logs_in(period: nat, count: nat, steps: nat) -> nat
    decreases steps,
{
    if steps == 0 {
        0
    } else if count + 1 >= period {
        1 + logs_in(period, 0, (steps - 1) as nat)
    } else {
        logs_in(period, count + 1, (steps - 1) as nat)
    }
}

/// A logger logs once in every `period` steps, neither more often nor less; one without a
/// period logs at every step.
pub proof fn logs_once_per_period(period: nat, count: nat, steps: nat)
    requires
        count < period || count == 0,
    ensures
        period == 0 ==> logs_in(period, count, steps) == steps,
        period > 0 ==> logs_in(period, count, steps) == (count + steps) / period,
    decreases steps,
{
    if steps > 0 {
        let left = (steps - 1) as nat;
        if count + 1 >= period {
            logs_once_per_period(period, 0, left);
            if period > 0 {
                assert((period + left) / period == 1 + left / period) by (nonlinear_arith)
                    requires
                        period > 0,
                ;
            }
        } else {
            logs_once_per_period(period, count + 1, left);
        }
    } else if period > 0 {
        assert(count / period == 0) by (nonlinear_arith)
            requires
                count < period,
        ;
    }
}

/// The formulas that turn the state of a motor into an arrow.
pub trait MotorModel {
    type Params;

    type State;

    type Scalar: Copy;

    type Vector: Copy;

    type Color: Copy;

    /// The force and the command of a motor.
    fn force(&self, state: &Self::State) -> Self::Scalar;

    fn command(&self, state: &Self::State) -> Self::Scalar;

    /// The arrow that shows the force of a motor, where it starts, and its color.
    fn arrow(&self, params: &Self::Params, state: &Self::State) -> Self::Vector;

    fn origin(&self, params: &Self::Params) -> Self::Vector;

    fn color(&self, command: Self::Scalar) -> Self::Color;
}

/// What is logged of the motors, one entry of each kind per motor.
pub struct MotorArrows<M: MotorModel> {
    pub forces: Vec<M::Scalar>,
    pub commands: Vec<M::Scalar>,
    pub arrow_lengths: Vec<M::Vector>,
    pub arrow_origins: Vec<M::Vector>,
    pub arrow_colors: Vec<M::Color>,
}

impl<M: MotorModel> MotorArrows<M> {
    /// There are `n` entries of each kind.
    pub open spec fn has_len(self, n: int) -> bool {
        &&& self.forces@.len() == n
        &&& self.commands@.len() == n
        &&& self.arrow_lengths@.len() == n
        &&& self.arrow_origins@.len() == n
        &&& self.arrow_colors@.len() == n
    }

    /// The `i`-th entries show motor `i`.
    pub open spec fn shows(
        self,
        model: M,
        params: Seq<M::Params>,
        states: Seq<M::State>,
        i: int,
    ) -> bool {
        &&& call_ensures(M::force, (&model, &states[i]), self.forces@[i])
        &&& call_ensures(M::command, (&model, &states[i]), self.commands@[i])
        &&& call_ensures(M::arrow, (&model, &params[i], &states[i]), self.arrow_lengths@[i])
        &&& call_ensures(M::origin, (&model, &params[i]), self.arrow_origins@[i])
        &&& call_ensures(M::color, (&model, self.commands@[i]), self.arrow_colors@[i])
    }
}

/// Combines the parameters and the states of the motors into what is logged of them.
/// Where there are more of one than of the other, the rest is left out.
pub fn log_drone_motors<M: MotorModel>(
    model: &M,
    params: &Vec<M::Params>,
    states: &Vec<M::State>,
) -> (r: MotorArrows<M>)
    ensures
        r.has_len(if params@.len() < states@.len() {
            params@.len() as int
        } else {
            states@.len() as int
        }),
        forall|i: int|
            0 <= i < params@.len() && i < states@.len() ==> #[trigger] r.shows(
                *model,
                params@,
                states@,
                i,
            ),
{
    let mut r: MotorArrows<M> = MotorArrows {
        forces: Vec::new(),
        commands: Vec::new(),
        arrow_lengths: Vec::new(),
        arrow_origins: Vec::new(),
        arrow_colors: Vec::new(),
    };
    let mut i: usize = 0;
    while i < params.len() && i < states.len()
        invariant
            i <= params@.len(),
            i <= states@.len(),
            r.has_len(i as int),
            forall|j: int| 0 <= j < i ==> #[trigger] r.shows(*model, params@, states@, j),
        decreases params@.len() - i,
    {
        let ghost before = r;
        let command = model.command(&states[i]);
        r.forces.push(model.force(&states[i]));
        r.commands.push(command);
        r.arrow_lengths.push(model.arrow(&params[i], &states[i]));
        r.arrow_origins.push(model.origin(&params[i]));
        r.arrow_colors.push(model.color(command));
        assert forall|j: int| 0 <= j < i + 1 implies #[trigger] r.shows(
            *model,
            params@,
            states@,
            j,
        ) by {
            if j < i {
                assert(before.shows(*model, params@, states@, j));
            }
        }
        i = i + 1;
    }
    r
}

/// `e` is a record of `value` at `path`.
pub open spec fn says<P, D>(e: Logged<P, D>, path: &'static str, vital: bool, value: D) -> bool {
    e == Logged::<P, D>::Value(path@, vital, value)
}

/// `e` is a record of one of the terms of a rate controller.
pub open spec fn says_pid<P, D>(
    e: Logged<P, D>,
    p: &'static str,
    i: &'static str,
    dr: &'static str,
    dm: &'static str,
    terms: PidTerms<D>,
) -> bool {
    ||| says(e, p, false, terms.p)
    ||| says(e, i, false, terms.i)
    ||| says(e, dr, false, terms.dr)
    ||| says(e, dm, false, terms.dm)
}

/// `e` belongs into the log of one instant: it is a record of a signal, at the path of that
/// signal, that has a value in `telemetry`, or the trail.
pub open spec fn belongs<P, D>(telemetry: Telemetry<D>, trail: Seq<P>, e: Logged<P, D>) -> bool {
    ||| e == Logged::<P, D>::Trail("sim/position/trail"@, true, trail)
    ||| says(e, "drone/motor/force", false, telemetry.motors.force)
    ||| says(e, "drone/motor/command", false, telemetry.motors.command)
    ||| says(e, "drone/motors", false, telemetry.motors.arrows)
    ||| says(e, "sim/position", true, telemetry.position)
    ||| says(e, "sim/rotation", true, telemetry.rotation)
    ||| says(e, "drone", false, telemetry.drone)
    ||| telemetry.target is Some && says(e, "target", false, telemetry.target->0)
    ||| telemetry.gyr_comp is Some && says(e, "sim/firmware/gyr_comp", false, telemetry.gyr_comp->0)
    ||| telemetry.rate_sp is Some && says(e, "sim/firmware/rate_sp", false, telemetry.rate_sp->0)
    ||| telemetry.angl_sp is Some && says(e, "sim/firmware/angl_sp", false, telemetry.angl_sp->0)
    ||| telemetry.rate_ref_filt is Some && says(
        e,
        "sim/firmware/rate_ref_filt",
        false,
        telemetry.rate_ref_filt->0,
    )
    ||| telemetry.rate_ff_pred is Some && says(
        e,
        "sim/firmware/rate_ff_pred",
        false,
        telemetry.rate_ff_pred->0,
    )
    ||| telemetry.rate_comp_fuse is Some && says(
        e,
        "sim/firmware/rate_comp_fuse",
        false,
        telemetry.rate_comp_fuse->0,
    )
    ||| telemetry.ahrs_attitude is Some && says(
        e,
        "sim/firmware/ahrs_attitude",
        false,
        telemetry.ahrs_attitude->0,
    )
    ||| telemetry.ahrs_att is Some && says(e, "sim/firmware/ahrs_att", false, telemetry.ahrs_att->0)
    ||| telemetry.line_of_sight is Some && says(
        e,
        "line_of_sight",
        false,
        telemetry.line_of_sight->0,
    )
    ||| telemetry.imu is Some && says(e, "sim/firmware/acc", false, (telemetry.imu->0).acc)
    ||| telemetry.imu is Some && says(e, "sim/firmware/gyr", false, (telemetry.imu->0).gyr)
    ||| telemetry.estimate is Some && says(
        e,
        "sim/firmware/eskf/pos",
        false,
        (telemetry.estimate->0).pos,
    )
    ||| telemetry.estimate is Some && says(
        e,
        "sim/firmware/eskf/vel",
        false,
        (telemetry.estimate->0).vel,
    )
    ||| telemetry.estimate is Some && says(
        e,
        "sim/firmware/eskf/att",
        false,
        (telemetry.estimate->0).att,
    )
    ||| telemetry.estimate is Some && says(
        e,
        "sim/firmware/eskf/gyr_bias",
        false,
        (telemetry.estimate->0).gyr_bias,
    )
    ||| telemetry.estimate is Some && says(
        e,
        "sim/firmware/eskf/acc_bias",
        false,
        (telemetry.estimate->0).acc_bias,
    )
    ||| telemetry.rate_pid is Some && says_pid(
        e,
        "sim/firmware/rate_pid/x/p",
        "sim/firmware/rate_pid/x/i",
        "sim/firmware/rate_pid/x/dr",
        "sim/firmware/rate_pid/x/dm",
        (telemetry.rate_pid->0).0,
    )
    ||| telemetry.rate_pid is Some && says_pid(
        e,
        "sim/firmware/rate_pid/y/p",
        "sim/firmware/rate_pid/y/i",
        "sim/firmware/rate_pid/y/dr",
        "sim/firmware/rate_pid/y/dm",
        (telemetry.rate_pid->0).1,
    )
    ||| telemetry.rate_pid is Some && says_pid(
        e,
        "sim/firmware/rate_pid/z/p",
        "sim/firmware/rate_pid/z/i",
        "sim/firmware/rate_pid/z/dr",
        "sim/firmware/rate_pid/z/dm",
        (telemetry.rate_pid->0).2,
    )
}

/// `e` is in `s`.
#[verifier::opaque]
pub open spec fn holds<E>(s: Seq<E>, e: E) -> bool {
    s.contains(e)
}

/// There is nothing in an empty sequence.
proof fn nothing_held<E>(e: E)
    ensures
        !holds(Seq::<E>::empty(), e),
{
    reveal(holds);
}

/// A record is in two sequences together where it is in one of them.
proof fn joined<E>(s: Seq<E>, t: Seq<E>, e: E)
    ensures
        holds(s + t, e) <==> holds(s, e) || holds(t, e),
{
    reveal(holds);
    let both = s + t;
    if both.contains(e) {
        let i = choose|i: int| 0 <= i < both.len() && both[i] == e;
        if i < s.len() {
            assert(s[i] == e);
        } else {
            assert(t[i - s.len()] == e);
        }
    }
    if s.contains(e) {
        let i = choose|i: int| 0 <= i < s.len() && s[i] == e;
        assert(both[i] == e);
    }
    if t.contains(e) {
        let i = choose|i: int| 0 <= i < t.len() && t[i] == e;
        assert(both[i + s.len()] == e);
    }
}

/// A sequence of one record holds that record only.
proof fn single<E>(only: E, e: E)
    ensures
        holds(seq![only], e) <==> e == only,
{
    reveal(holds);
    assert(seq![only][0] == only);
}

/// A signal is logged where it has a value.
proof fn logged_if_any<P, D>(path: &'static str, value: Option<D>, e: Logged<P, D>)
    ensures
        holds(if_any::<P, D>(path, value), e) <==> value is Some && says(
            e,
            path,
            false,
            value->0,
        ),
{
    if let Some(value) = value {
        single(Logged::<P, D>::Value(path@, false, value), e);
    } else {
        nothing_held(e);
    }
}

/// A signal that always has a value is always logged.
proof fn logged_always<P, D>(path: &'static str, value: D, e: Logged<P, D>)
    ensures
        holds(one::<P, D>(path, value), e) <==> says(e, path, false, value),
        holds(vital::<P, D>(path, value), e) <==> says(e, path, true, value),
{
    single(Logged::<P, D>::Value(path@, false, value), e);
    single(Logged::<P, D>::Value(path@, true, value), e);
}

/// What is logged of the motors.
proof fn logged_motors<P, D>(motors: MotorLog<D>, e: Logged<P, D>)
    ensures
        holds(motor_records::<P, D>(motors), e) <==> {
            ||| says(e, "drone/motor/force", false, motors.force)
            ||| says(e, "drone/motor/command", false, motors.command)
            ||| says(e, "drone/motors", false, motors.arrows)
        },
{
    let r0 = one::<P, D>("drone/motor/force", motors.force);
    logged_always("drone/motor/force", motors.force, e);
    logged_always("drone/motor/command", motors.command, e);
    let r1 = r0 + one::<P, D>("drone/motor/command", motors.command);
    joined(r0, one::<P, D>("drone/motor/command", motors.command), e);
    logged_always("drone/motors", motors.arrows, e);
    let r2 = r1 + one::<P, D>("drone/motors", motors.arrows);
    joined(r1, one::<P, D>("drone/motors", motors.arrows), e);
}

/// What is logged of the inertial sensors.
proof fn logged_imu<P, D>(imu: ImuLog<D>, e: Logged<P, D>)
    ensures
        holds(imu_records::<P, D>(Some(imu)), e) <==> {
            ||| says(e, "sim/firmware/acc", false, imu.acc)
            ||| says(e, "sim/firmware/gyr", false, imu.gyr)
        },
{
    let r0 = one::<P, D>("sim/firmware/acc", imu.acc);
    logged_always("sim/firmware/acc", imu.acc, e);
    logged_always("sim/firmware/gyr", imu.gyr, e);
    let r1 = r0 + one::<P, D>("sim/firmware/gyr", imu.gyr);
    joined(r0, one::<P, D>("sim/firmware/gyr", imu.gyr), e);
}

/// What is logged of an estimate.
proof fn logged_estimate<P, D>(estimate: EstimateLog<D>, e: Logged<P, D>)
    ensures
        holds(estimate_records::<P, D>(Some(estimate)), e) <==> {
            ||| says(e, "sim/firmware/eskf/pos", false, estimate.pos)
            ||| says(e, "sim/firmware/eskf/vel", false, estimate.vel)
            ||| says(e, "sim/firmware/eskf/att", false, estimate.att)
            ||| says(e, "sim/firmware/eskf/gyr_bias", false, estimate.gyr_bias)
            ||| says(e, "sim/firmware/eskf/acc_bias", false, estimate.acc_bias)
        },
{
    let r0 = one::<P, D>("sim/firmware/eskf/pos", estimate.pos);
    logged_always("sim/firmware/eskf/pos", estimate.pos, e);
    logged_always("sim/firmware/eskf/vel", estimate.vel, e);
    let r1 = r0 + one::<P, D>("sim/firmware/eskf/vel", estimate.vel);
    joined(r0, one::<P, D>("sim/firmware/eskf/vel", estimate.vel), e);
    logged_always("sim/firmware/eskf/att", estimate.att, e);
    let r2 = r1 + one::<P, D>("sim/firmware/eskf/att", estimate.att);
    joined(r1, one::<P, D>("sim/firmware/eskf/att", estimate.att), e);
    logged_always("sim/firmware/eskf/gyr_bias", estimate.gyr_bias, e);
    let r3 = r2 + one::<P, D>("sim/firmware/eskf/gyr_bias", estimate.gyr_bias);
    joined(r2, one::<P, D>("sim/firmware/eskf/gyr_bias", estimate.gyr_bias), e);
    logged_always("sim/firmware/eskf/acc_bias", estimate.acc_bias, e);
    let r4 = r3 + one::<P, D>("sim/firmware/eskf/acc_bias", estimate.acc_bias);
    joined(r3, one::<P, D>("sim/firmware/eskf/acc_bias", estimate.acc_bias), e);
}

/// What is logged of a rate controller.
proof fn logged_pid<P, D>(x: PidTerms<D>, y: PidTerms<D>, z: PidTerms<D>, e: Logged<P, D>)
    ensures
        holds(pid_records::<P, D>(Some((x, y, z))), e) <==> {
            ||| says(e, "sim/firmware/rate_pid/x/p", false, x.p)
            ||| says(e, "sim/firmware/rate_pid/x/i", false, x.i)
            ||| says(e, "sim/firmware/rate_pid/x/dr", false, x.dr)
            ||| says(e, "sim/firmware/rate_pid/x/dm", false, x.dm)
            ||| says(e, "sim/firmware/rate_pid/y/p", false, y.p)
            ||| says(e, "sim/firmware/rate_pid/y/i", false, y.i)
            ||| says(e, "sim/firmware/rate_pid/y/dr", false, y.dr)
            ||| says(e, "sim/firmware/rate_pid/y/dm", false, y.dm)
            ||| says(e, "sim/firmware/rate_pid/z/p", false, z.p)
            ||| says(e, "sim/firmware/rate_pid/z/i", false, z.i)
            ||| says(e, "sim/firmware/rate_pid/z/dr", false, z.dr)
            ||| says(e, "sim/firmware/rate_pid/z/dm", false, z.dm)
        },
{
    let r0 = one::<P, D>("sim/firmware/rate_pid/x/p", x.p);
    logged_always("sim/firmware/rate_pid/x/p", x.p, e);
    logged_always("sim/firmware/rate_pid/x/i", x.i, e);
    let r1 = r0 + one::<P, D>("sim/firmware/rate_pid/x/i", x.i);
    joined(r0, one::<P, D>("sim/firmware/rate_pid/x/i", x.i), e);
    logged_always("sim/firmware/rate_pid/x/dr", x.dr, e);
    let r2 = r1 + one::<P, D>("sim/firmware/rate_pid/x/dr", x.dr);
    joined(r1, one::<P, D>("sim/firmware/rate_pid/x/dr", x.dr), e);
    logged_always("sim/firmware/rate_pid/x/dm", x.dm, e);
    let r3 = r2 + one::<P, D>("sim/firmware/rate_pid/x/dm", x.dm);
    joined(r2, one::<P, D>("sim/firmware/rate_pid/x/dm", x.dm), e);
    logged_always("sim/firmware/rate_pid/y/p", y.p, e);
    let r4 = r3 + one::<P, D>("sim/firmware/rate_pid/y/p", y.p);
    joined(r3, one::<P, D>("sim/firmware/rate_pid/y/p", y.p), e);
    logged_always("sim/firmware/rate_pid/y/i", y.i, e);
    let r5 = r4 + one::<P, D>("sim/firmware/rate_pid/y/i", y.i);
    joined(r4, one::<P, D>("sim/firmware/rate_pid/y/i", y.i), e);
    logged_always("sim/firmware/rate_pid/y/dr", y.dr, e);
    let r6 = r5 + one::<P, D>("sim/firmware/rate_pid/y/dr", y.dr);
    joined(r5, one::<P, D>("sim/firmware/rate_pid/y/dr", y.dr), e);
    logged_always("sim/firmware/rate_pid/y/dm", y.dm, e);
    let r7 = r6 + one::<P, D>("sim/firmware/rate_pid/y/dm", y.dm);
    joined(r6, one::<P, D>("sim/firmware/rate_pid/y/dm", y.dm), e);
    logged_always("sim/firmware/rate_pid/z/p", z.p, e);
    let r8 = r7 + one::<P, D>("sim/firmware/rate_pid/z/p", z.p);
    joined(r7, one::<P, D>("sim/firmware/rate_pid/z/p", z.p), e);
    logged_always("sim/firmware/rate_pid/z/i", z.i, e);
    let r9 = r8 + one::<P, D>("sim/firmware/rate_pid/z/i", z.i);
    joined(r8, one::<P, D>("sim/firmware/rate_pid/z/i", z.i), e);
    logged_always("sim/firmware/rate_pid/z/dr", z.dr, e);
    let r10 = r9 + one::<P, D>("sim/firmware/rate_pid/z/dr", z.dr);
    joined(r9, one::<P, D>("sim/firmware/rate_pid/z/dr", z.dr), e);
    logged_always("sim/firmware/rate_pid/z/dm", z.dm, e);
    let r11 = r10 + one::<P, D>("sim/firmware/rate_pid/z/dm", z.dm);
    joined(r10, one::<P, D>("sim/firmware/rate_pid/z/dm", z.dm), e);
}

/// Every signal that has a value is logged, and nothing else.
#[verifier::spinoff_prover]
proof fn logged_signals<P, D>(telemetry: Telemetry<D>, trail: Seq<P>, e: Logged<P, D>)
    ensures
        holds(all_records(telemetry, trail), e) <==> belongs(telemetry, trail, e),
{
    nothing_held(e);
    let r0 = motor_records::<P, D>(telemetry.motors);
    logged_motors(telemetry.motors, e);
    let part = imu_records::<P, D>(telemetry.imu);
    if let Some(imu) = telemetry.imu {
        logged_imu(imu, e);
    }
    joined(r0, part, e);
    let r1 = r0 + part;
    let part = if_any::<P, D>("target", telemetry.target);
    logged_if_any("target", telemetry.target, e);
    joined(r1, part, e);
    let r2 = r1 + part;
    let part = if_any::<P, D>("sim/firmware/gyr_comp", telemetry.gyr_comp);
    logged_if_any("sim/firmware/gyr_comp", telemetry.gyr_comp, e);
    joined(r2, part, e);
    let r3 = r2 + part;
    let part = estimate_records::<P, D>(telemetry.estimate);
    if let Some(estimate) = telemetry.estimate {
        logged_estimate(estimate, e);
    }
    joined(r3, part, e);
    let r4 = r3 + part;
    let part = if_any::<P, D>("sim/firmware/rate_sp", telemetry.rate_sp);
    logged_if_any("sim/firmware/rate_sp", telemetry.rate_sp, e);
    joined(r4, part, e);
    let r5 = r4 + part;
    let part = if_any::<P, D>("sim/firmware/angl_sp", telemetry.angl_sp);
    logged_if_any("sim/firmware/angl_sp", telemetry.angl_sp, e);
    joined(r5, part, e);
    let r6 = r5 + part;
    let part = if_any::<P, D>("sim/firmware/rate_ref_filt", telemetry.rate_ref_filt);
    logged_if_any("sim/firmware/rate_ref_filt", telemetry.rate_ref_filt, e);
    joined(r6, part, e);
    let r7 = r6 + part;
    let part = if_any::<P, D>("sim/firmware/rate_ff_pred", telemetry.rate_ff_pred);
    logged_if_any("sim/firmware/rate_ff_pred", telemetry.rate_ff_pred, e);
    joined(r7, part, e);
    let r8 = r7 + part;
    let part = if_any::<P, D>("sim/firmware/rate_comp_fuse", telemetry.rate_comp_fuse);
    logged_if_any("sim/firmware/rate_comp_fuse", telemetry.rate_comp_fuse, e);
    joined(r8, part, e);
    let r9 = r8 + part;
    let part = if_any::<P, D>("sim/firmware/ahrs_attitude", telemetry.ahrs_attitude);
    logged_if_any("sim/firmware/ahrs_attitude", telemetry.ahrs_attitude, e);
    joined(r9, part, e);
    let r10 = r9 + part;
    let part = pid_records::<P, D>(telemetry.rate_pid);
    if let Some((x, y, z)) = telemetry.rate_pid {
        logged_pid(x, y, z, e);
    }
    joined(r10, part, e);
    let r11 = r10 + part;
    let part = if_any::<P, D>("sim/firmware/ahrs_att", telemetry.ahrs_att);
    logged_if_any("sim/firmware/ahrs_att", telemetry.ahrs_att, e);
    joined(r11, part, e);
    let r12 = r11 + part;
    let part = seq![Logged::<P, D>::Trail("sim/position/trail"@, true, trail)];
    single(Logged::<P, D>::Trail("sim/position/trail"@, true, trail), e);
    joined(r12, part, e);
    let r13 = r12 + part;
    let part = vital::<P, D>("sim/position", telemetry.position);
    logged_always("sim/position", telemetry.position, e);
    joined(r13, part, e);
    let r14 = r13 + part;
    let part = vital::<P, D>("sim/rotation", telemetry.rotation);
    logged_always("sim/rotation", telemetry.rotation, e);
    joined(r14, part, e);
    let r15 = r14 + part;
    let part = one::<P, D>("drone", telemetry.drone);
    logged_always("drone", telemetry.drone, e);
    joined(r15, part, e);
    let r16 = r15 + part;
    let part = if_any::<P, D>("line_of_sight", telemetry.line_of_sight);
    logged_if_any("line_of_sight", telemetry.line_of_sight, e);
    joined(r16, part, e);
    let r17 = r16 + part;
}

/// The log of one instant holds a record of every signal that has a value, at the path of that
/// signal, and the trail; and it holds nothing else.
pub proof fn every_signal_is_logged<P, D>(
    telemetry: Telemetry<D>,
    trail: Seq<P>,
    e: Logged<P, D>,
)
    ensures
        all_records(telemetry, trail).contains(e) <==> belongs(telemetry, trail, e),
{
    logged_signals(telemetry, trail, e);
    reveal(holds);
}

/// Motor `i` is shown by the `i`-th entries, as far as there are both parameters and a state for
/// it: its force, its command, and an arrow of its own length and origin in the color of its
/// command.
pub proof fn motors_are_shown_in_order<M: MotorModel>(
    model: M,
    params: Vec<M::Params>,
    states: Vec<M::State>,
    r: MotorArrows<M>,
    i: int,
    force: M::Scalar,
    command: M::Scalar,
    arrow: M::Vector,
    origin: M::Vector,
    color: M::Color,
)
    requires
        function2(M::force),
        function2(M::command),
        function3(M::arrow),
        function2(M::origin),
        function2(M::color),
        call_ensures(log_drone_motors::<M>, (&model, &params, &states), r),
        0 <= i < params@.len(),
        i < states@.len(),
        r.shows(model, params@, states@, i),
        call_ensures(M::force, (&model, &states@[i]), force),
        call_ensures(M::command, (&model, &states@[i]), command),
        call_ensures(M::arrow, (&model, &params@[i], &states@[i]), arrow),
        call_ensures(M::origin, (&model, &params@[i]), origin),
        call_ensures(M::color, (&model, command), color),
    ensures
        i < r.forces@.len() <= params@.len(),
        r.forces@.len() <= states@.len(),
        r.commands@.len() == r.arrow_lengths@.len() == r.arrow_origins@.len()
            == r.arrow_colors@.len() == r.forces@.len(),
        r.forces@[i] == force,
        r.commands@[i] == command,
        r.arrow_lengths@[i] == arrow,
        r.arrow_origins@[i] == origin,
        r.arrow_colors@[i] == color,
{
}

/// A call of [`RerunLogger::log_subsampled`] is one of the steps that [`logs_in`] counts: so a
/// logger logs once in every period.
pub proof fn steps_are_counted<P: Copy>(logger: &mut RerunLogger<P>, due: bool, left: nat)
    requires
        old(logger).wf(),
        call_ensures(RerunLogger::<P>::log_subsampled, (logger,), due),
    ensures
        logs_in(
            old(logger).period() as nat,
            old(logger).count() as nat,
            left + 1,
        ) == logs_in(final(logger).period() as nat, final(logger).count() as nat, left) + if due {
            1int
        } else {
            0
        },
        due ==> final(logger).count() == 0,
        final(logger).period() == old(logger).period(),
        final(logger).trail() == old(logger).trail(),
{
}

/// A call of [`RerunLogger::log_now`] adds a position to the trail that all positions so far have
/// left, and logs that trail with everything else that belongs into the log.
pub proof fn positions_leave_a_trail<P: Copy, D>(
    logger: &mut RerunLogger<P>,
    pos: P,
    telemetry: Telemetry<D>,
    records: Vec<Record<P, D>>,
    positions: Seq<P>,
    e: Logged<P, D>,
)
    requires
        old(logger).wf(),
        old(logger).trail() == trail_of(positions, 1000),
        call_ensures(RerunLogger::<P>::log_now::<D>, (logger, pos, telemetry), records),
    ensures
        final(logger).trail() == trail_of(positions.push(pos), 1000),
        contents(records@).contains(e) <==> belongs(telemetry, final(logger).trail(), e),
        final(logger).count() == old(logger).count(),
        final(logger).period() == old(logger).period(),
{
    assert(positions.push(pos).drop_last() =~= positions);
    every_signal_is_logged(telemetry, final(logger).trail(), e);
}

/// A new logger has no trail, and counts from none.
pub proof fn loggers_start_without_a_trail<P: Copy>(subsample: usize, r: RerunLogger<P>)
    requires
        call_ensures(RerunLogger::<P>::new, (subsample,), r),
    ensures
        r.trail() == trail_of(Seq::<P>::empty(), 1000),
        r.count() == 0,
        r.period() == subsample,
{
    assert(r.trail() =~= Seq::empty());
}

/// The path that comes at the `i`-th place of a log in which every signal has a value.
pub open spec fn place(i: int) -> Seq<char> {
    if i == 0 {
        "drone/motor/force"@
    } else if i == 1 {
        "drone/motor/command"@
    } else if i == 2 {
        "drone/motors"@
    } else if i == 3 {
        "sim/firmware/acc"@
    } else if i == 4 {
        "sim/firmware/gyr"@
    } else if i == 5 {
        "target"@
    } else if i == 6 {
        "sim/firmware/gyr_comp"@
    } else if i == 7 {
        "sim/firmware/eskf/pos"@
    } else if i == 8 {
        "sim/firmware/eskf/vel"@
    } else if i == 9 {
        "sim/firmware/eskf/att"@
    } else if i == 10 {
        "sim/firmware/eskf/gyr_bias"@
    } else if i == 11 {
        "sim/firmware/eskf/acc_bias"@
    } else if i == 12 {
        "sim/firmware/rate_sp"@
    } else if i == 13 {
        "sim/firmware/angl_sp"@
    } else if i == 14 {
        "sim/firmware/rate_ref_filt"@
    } else if i == 15 {
        "sim/firmware/rate_ff_pred"@
    } else if i == 16 {
        "sim/firmware/rate_comp_fuse"@
    } else if i == 17 {
        "sim/firmware/ahrs_attitude"@
    } else if i == 18 {
        "sim/firmware/rate_pid/x/p"@
    } else if i == 19 {
        "sim/firmware/rate_pid/x/i"@
    } else if i == 20 {
        "sim/firmware/rate_pid/x/dr"@
    } else if i == 21 {
        "sim/firmware/rate_pid/x/dm"@
    } else if i == 22 {
        "sim/firmware/rate_pid/y/p"@
    } else if i == 23 {
        "sim/firmware/rate_pid/y/i"@
    } else if i == 24 {
        "sim/firmware/rate_pid/y/dr"@
    } else if i == 25 {
        "sim/firmware/rate_pid/y/dm"@
    } else if i == 26 {
        "sim/firmware/rate_pid/z/p"@
    } else if i == 27 {
        "sim/firmware/rate_pid/z/i"@
    } else if i == 28 {
        "sim/firmware/rate_pid/z/dr"@
    } else if i == 29 {
        "sim/firmware/rate_pid/z/dm"@
    } else if i == 30 {
        "sim/firmware/ahrs_att"@
    } else if i == 31 {
        "sim/position/trail"@
    } else if i == 32 {
        "sim/position"@
    } else if i == 33 {
        "sim/rotation"@
    } else if i == 34 {
        "drone"@
    } else {
        "line_of_sight"@
    }
}

/// The path of the entity that a record belongs to.
pub open spec fn path_of<P, D>(e: Logged<P, D>) -> Seq<char> {
    match e {
        Logged::Trail(path, _, _) => path,
        Logged::Value(path, _, _) => path,
    }
}

/// The records of `s` come at the places `at`, one after the other, from `from` on and before
/// `to`.
pub open spec fn placed<P, D>(s: Seq<Logged<P, D>>, at: Seq<int>, from: int, to: int) -> bool {
    &&& at.len() == s.len()
    &&& forall|k: int|
        0 <= k < s.len() ==> from <= #[trigger] at[k] < to && path_of(s[k]) == place(at[k])
    &&& forall|j: int, k: int| 0 <= j < k < s.len() ==> #[trigger] at[j] < #[trigger] at[k]
}

/// The records of `s` come in the order of a full log, from `from` on and before `to`.
#[verifier::opaque]
pub open spec fn in_order<P, D>(s: Seq<Logged<P, D>>, from: int, to: int) -> bool {
    exists|at: Seq<int>| placed(s, at, from, to)
}

/// What comes in order before something that comes in order is in order with it.
proof fn order_joins<P, D>(
    s: Seq<Logged<P, D>>,
    t: Seq<Logged<P, D>>,
    from: int,
    middle: int,
    to: int,
)
    requires
        in_order(s, from, middle),
        in_order(t, middle, to),
        from <= middle <= to,
    ensures
        in_order(s + t, from, to),
{
    reveal(in_order);
    let a = choose|at: Seq<int>| placed(s, at, from, middle);
    let b = choose|at: Seq<int>| placed(t, at, middle, to);
    let at = a + b;
    let both = s + t;
    assert forall|k: int| 0 <= k < both.len() implies from <= #[trigger] at[k] < to && path_of(
        both[k],
    ) == place(at[k]) by {
        if k < s.len() {
            assert(at[k] == a[k]);
        } else {
            assert(at[k] == b[k - s.len()]);
        }
    }
    assert forall|j: int, k: int| 0 <= j < k < both.len() implies #[trigger] at[j]
        < #[trigger] at[k] by {
        if k < s.len() {
            assert(at[j] == a[j] && at[k] == a[k]);
        } else if j >= s.len() {
            assert(at[j] == b[j - s.len()] && at[k] == b[k - s.len()]);
        } else {
            assert(at[j] == a[j] && at[k] == b[k - s.len()]);
        }
    }
    assert(placed(both, at, from, to));
}

/// One record comes at its own place.
proof fn order_of_one<P, D>(e: Logged<P, D>, i: int)
    requires
        path_of(e) == place(i),
    ensures
        in_order(seq![e], i, i + 1),
{
    reveal(in_order);
    assert(placed(seq![e], seq![i], i, i + 1));
}

/// No records come anywhere.
proof fn order_of_none<P, D>(from: int, to: int)
    ensures
        in_order(Seq::<Logged<P, D>>::empty(), from, to),
{
    reveal(in_order);
    assert(placed(Seq::<Logged<P, D>>::empty(), Seq::empty(), from, to));
}

/// A signal comes at its own place, if it has a value.
proof fn order_of_signal<P, D>(path: &'static str, value: Option<D>, i: int)
    requires
        path@ == place(i),
    ensures
        in_order(if_any::<P, D>(path, value), i, i + 1),
        value matches Some(value) ==> in_order(one::<P, D>(path, value), i, i + 1),
        value matches Some(value) ==> in_order(vital::<P, D>(path, value), i, i + 1),
{
    match value {
        Some(value) => {
            order_of_one(Logged::<P, D>::Value(path@, false, value), i);
            order_of_one(Logged::<P, D>::Value(path@, true, value), i);
        },
        None => {
            order_of_none::<P, D>(i, i + 1);
        },
    }
}

/// The order of what is logged of the motors.
proof fn order_of_motors<P, D>(motors: MotorLog<D>)
    ensures
        in_order(motor_records::<P, D>(motors), 0, 3),
{
    let r0 = one::<P, D>("drone/motor/force", motors.force);
    order_of_signal::<P, D>("drone/motor/force", Some(motors.force), 0);
    let part = one::<P, D>("drone/motor/command", motors.command);
    order_of_signal::<P, D>("drone/motor/command", Some(motors.command), 1);
    order_joins(r0, part, 0, 1, 2);
    let r1 = r0 + part;
    let part = one::<P, D>("drone/motors", motors.arrows);
    order_of_signal::<P, D>("drone/motors", Some(motors.arrows), 2);
    order_joins(r1, part, 0, 2, 3);
    let r2 = r1 + part;
}

/// The order of what is logged of the inertial sensors.
proof fn order_of_imu<P, D>(imu: ImuLog<D>)
    ensures
        in_order(imu_records::<P, D>(Some(imu)), 3, 5),
{
    let r0 = one::<P, D>("sim/firmware/acc", imu.acc);
    order_of_signal::<P, D>("sim/firmware/acc", Some(imu.acc), 3);
    let part = one::<P, D>("sim/firmware/gyr", imu.gyr);
    order_of_signal::<P, D>("sim/firmware/gyr", Some(imu.gyr), 4);
    order_joins(r0, part, 3, 4, 5);
    let r1 = r0 + part;
}

/// The order of what is logged of an estimate.
proof fn order_of_estimate<P, D>(estimate: EstimateLog<D>)
    ensures
        in_order(estimate_records::<P, D>(Some(estimate)), 7, 12),
{
    let r0 = one::<P, D>("sim/firmware/eskf/pos", estimate.pos);
    order_of_signal::<P, D>("sim/firmware/eskf/pos", Some(estimate.pos), 7);
    let part = one::<P, D>("sim/firmware/eskf/vel", estimate.vel);
    order_of_signal::<P, D>("sim/firmware/eskf/vel", Some(estimate.vel), 8);
    order_joins(r0, part, 7, 8, 9);
    let r1 = r0 + part;
    let part = one::<P, D>("sim/firmware/eskf/att", estimate.att);
    order_of_signal::<P, D>("sim/firmware/eskf/att", Some(estimate.att), 9);
    order_joins(r1, part, 7, 9, 10);
    let r2 = r1 + part;
    let part = one::<P, D>("sim/firmware/eskf/gyr_bias", estimate.gyr_bias);
    order_of_signal::<P, D>("sim/firmware/eskf/gyr_bias", Some(estimate.gyr_bias), 10);
    order_joins(r2, part, 7, 10, 11);
    let r3 = r2 + part;
    let part = one::<P, D>("sim/firmware/eskf/acc_bias", estimate.acc_bias);
    order_of_signal::<P, D>("sim/firmware/eskf/acc_bias", Some(estimate.acc_bias), 11);
    order_joins(r3, part, 7, 11, 12);
    let r4 = r3 + part;
}

/// The order of what is logged of a rate controller.
proof fn order_of_pid<P, D>(x: PidTerms<D>, y: PidTerms<D>, z: PidTerms<D>)
    ensures
        in_order(pid_records::<P, D>(Some((x, y, z))), 18, 30),
{
    let r0 = one::<P, D>("sim/firmware/rate_pid/x/p", x.p);
    order_of_signal::<P, D>("sim/firmware/rate_pid/x/p", Some(x.p), 18);
    let part = one::<P, D>("sim/firmware/rate_pid/x/i", x.i);
    order_of_signal::<P, D>("sim/firmware/rate_pid/x/i", Some(x.i), 19);
    order_joins(r0, part, 18, 19, 20);
    let r1 = r0 + part;
    let part = one::<P, D>("sim/firmware/rate_pid/x/dr", x.dr);
    order_of_signal::<P, D>("sim/firmware/rate_pid/x/dr", Some(x.dr), 20);
    order_joins(r1, part, 18, 20, 21);
    let r2 = r1 + part;
    let part = one::<P, D>("sim/firmware/rate_pid/x/dm", x.dm);
    order_of_signal::<P, D>("sim/firmware/rate_pid/x/dm", Some(x.dm), 21);
    order_joins(r2, part, 18, 21, 22);
    let r3 = r2 + part;
    let part = one::<P, D>("sim/firmware/rate_pid/y/p", y.p);
    order_of_signal::<P, D>("sim/firmware/rate_pid/y/p", Some(y.p), 22);
    order_joins(r3, part, 18, 22, 23);
    let r4 = r3 + part;
    let part = one::<P, D>("sim/firmware/rate_pid/y/i", y.i);
    order_of_signal::<P, D>("sim/firmware/rate_pid/y/i", Some(y.i), 23);
    order_joins(r4, part, 18, 23, 24);
    let r5 = r4 + part;
    let part = one::<P, D>("sim/firmware/rate_pid/y/dr", y.dr);
    order_of_signal::<P, D>("sim/firmware/rate_pid/y/dr", Some(y.dr), 24);
    order_joins(r5, part, 18, 24, 25);
    let r6 = r5 + part;
    let part = one::<P, D>("sim/firmware/rate_pid/y/dm", y.dm);
    order_of_signal::<P, D>("sim/firmware/rate_pid/y/dm", Some(y.dm), 25);
    order_joins(r6, part, 18, 25, 26);
    let r7 = r6 + part;
    let part = one::<P, D>("sim/firmware/rate_pid/z/p", z.p);
    order_of_signal::<P, D>("sim/firmware/rate_pid/z/p", Some(z.p), 26);
    order_joins(r7, part, 18, 26, 27);
    let r8 = r7 + part;
    let part = one::<P, D>("sim/firmware/rate_pid/z/i", z.i);
    order_of_signal::<P, D>("sim/firmware/rate_pid/z/i", Some(z.i), 27);
    order_joins(r8, part, 18, 27, 28);
    let r9 = r8 + part;
    let part = one::<P, D>("sim/firmware/rate_pid/z/dr", z.dr);
    order_of_signal::<P, D>("sim/firmware/rate_pid/z/dr", Some(z.dr), 28);
    order_joins(r9, part, 18, 28, 29);
    let r10 = r9 + part;
    let part = one::<P, D>("sim/firmware/rate_pid/z/dm", z.dm);
    order_of_signal::<P, D>("sim/firmware/rate_pid/z/dm", Some(z.dm), 29);
    order_joins(r10, part, 18, 29, 30);
    let r11 = r10 + part;
}

/// The log of one instant comes in the order of a full log, whichever signals have a value.
#[verifier::spinoff_prover]
pub proof fn signals_are_logged_in_order<P, D>(telemetry: Telemetry<D>, trail: Seq<P>)
    ensures
        exists|at: Seq<int>| placed(all_records(telemetry, trail), at, 0, 36),
{
    let r0 = motor_records::<P, D>(telemetry.motors);
    order_of_motors::<P, D>(telemetry.motors);
    let part = imu_records::<P, D>(telemetry.imu);
    match telemetry.imu {
        Some(imu) => order_of_imu::<P, D>(imu),
        None => order_of_none::<P, D>(3, 5),
    }
    order_joins(r0, part, 0, 3, 5);
    let r1 = r0 + part;
    let part = if_any::<P, D>("target", telemetry.target);
    order_of_signal::<P, D>("target", telemetry.target, 5);
    order_joins(r1, part, 0, 5, 6);
    let r2 = r1 + part;
    let part = if_any::<P, D>("sim/firmware/gyr_comp", telemetry.gyr_comp);
    order_of_signal::<P, D>("sim/firmware/gyr_comp", telemetry.gyr_comp, 6);
    order_joins(r2, part, 0, 6, 7);
    let r3 = r2 + part;
    let part = estimate_records::<P, D>(telemetry.estimate);
    match telemetry.estimate {
        Some(estimate) => order_of_estimate::<P, D>(estimate),
        None => order_of_none::<P, D>(7, 12),
    }
    order_joins(r3, part, 0, 7, 12);
    let r4 = r3 + part;
    let part = if_any::<P, D>("sim/firmware/rate_sp", telemetry.rate_sp);
    order_of_signal::<P, D>("sim/firmware/rate_sp", telemetry.rate_sp, 12);
    order_joins(r4, part, 0, 12, 13);
    let r5 = r4 + part;
    let part = if_any::<P, D>("sim/firmware/angl_sp", telemetry.angl_sp);
    order_of_signal::<P, D>("sim/firmware/angl_sp", telemetry.angl_sp, 13);
    order_joins(r5, part, 0, 13, 14);
    let r6 = r5 + part;
    let part = if_any::<P, D>("sim/firmware/rate_ref_filt", telemetry.rate_ref_filt);
    order_of_signal::<P, D>("sim/firmware/rate_ref_filt", telemetry.rate_ref_filt, 14);
    order_joins(r6, part, 0, 14, 15);
    let r7 = r6 + part;
    let part = if_any::<P, D>("sim/firmware/rate_ff_pred", telemetry.rate_ff_pred);
    order_of_signal::<P, D>("sim/firmware/rate_ff_pred", telemetry.rate_ff_pred, 15);
    order_joins(r7, part, 0, 15, 16);
    let r8 = r7 + part;
    let part = if_any::<P, D>("sim/firmware/rate_comp_fuse", telemetry.rate_comp_fuse);
    order_of_signal::<P, D>("sim/firmware/rate_comp_fuse", telemetry.rate_comp_fuse, 16);
    order_joins(r8, part, 0, 16, 17);
    let r9 = r8 + part;
    let part = if_any::<P, D>("sim/firmware/ahrs_attitude", telemetry.ahrs_attitude);
    order_of_signal::<P, D>("sim/firmware/ahrs_attitude", telemetry.ahrs_attitude, 17);
    order_joins(r9, part, 0, 17, 18);
    let r10 = r9 + part;
    let part = pid_records::<P, D>(telemetry.rate_pid);
    match telemetry.rate_pid {
        Some((x, y, z)) => order_of_pid::<P, D>(x, y, z),
        None => order_of_none::<P, D>(18, 30),
    }
    order_joins(r10, part, 0, 18, 30);
    let r11 = r10 + part;
    let part = if_any::<P, D>("sim/firmware/ahrs_att", telemetry.ahrs_att);
    order_of_signal::<P, D>("sim/firmware/ahrs_att", telemetry.ahrs_att, 30);
    order_joins(r11, part, 0, 30, 31);
    let r12 = r11 + part;
    let part = seq![Logged::<P, D>::Trail("sim/position/trail"@, true, trail)];
    order_of_one(Logged::<P, D>::Trail("sim/position/trail"@, true, trail), 31);
    order_joins(r12, part, 0, 31, 32);
    let r13 = r12 + part;
    let part = vital::<P, D>("sim/position", telemetry.position);
    order_of_signal::<P, D>("sim/position", Some(telemetry.position), 32);
    order_joins(r13, part, 0, 32, 33);
    let r14 = r13 + part;
    let part = vital::<P, D>("sim/rotation", telemetry.rotation);
    order_of_signal::<P, D>("sim/rotation", Some(telemetry.rotation), 33);
    order_joins(r14, part, 0, 33, 34);
    let r15 = r14 + part;
    let part = one::<P, D>("drone", telemetry.drone);
    order_of_signal::<P, D>("drone", Some(telemetry.drone), 34);
    order_joins(r15, part, 0, 34, 35);
    let r16 = r15 + part;
    let part = if_any::<P, D>("line_of_sight", telemetry.line_of_sight);
    order_of_signal::<P, D>("line_of_sight", telemetry.line_of_sight, 35);
    order_joins(r16, part, 0, 35, 36);
    let r17 = r16 + part;
    let all = all_records(telemetry, trail);
    assert(all == r17);
    assert(in_order(all, 0, 36));
    reveal(in_order);
    let at = choose|at: Seq<int>| placed(all, at, 0, 36);
    assert(placed(all, at, 0, 36));
}

} // verus!
