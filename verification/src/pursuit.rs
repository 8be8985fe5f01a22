//! The guidance loop: sensor events go into the attitude history and the line-of-sight
//! filter, and each tick of the controller makes a command out of them.

use vstd::prelude::*;
use crate::camera::OpticsModel;
use crate::clock::period_micros;
use crate::flight::Event;
use crate::pronav::attitude::{AttitudeBuffer, AttitudeModel};
use crate::pronav::camera_model::CameraModel;
use crate::pronav::eskf::{EskfLos, EskfModel, OosmEskfLos};
use crate::pronav::guidance::{GuidanceModel, ProNav};

#[allow(unused_imports)]
use crate::camera::sighted;
#[allow(unused_imports)]
use crate::chronology::{strictly_chronological, Stamped};
#[allow(unused_imports)]
use crate::flight::THRUST_LIMIT;
#[allow(unused_imports)]
use crate::functional::{function1, function2, function3};
#[allow(unused_imports)]
use crate::pronav::attitude::{lookups_are_determined, sampled, AttitudeEntry};
#[allow(unused_imports)]
use crate::pronav::camera_model::camera_sights_one_line;
#[allow(unused_imports)]
use crate::pronav::eskf::{Eskf, EskfInput};
#[allow(unused_imports)]
use crate::pronav::guidance::{guidance_is_determined, Course, Sighting, Tuning};

verus! {

/// How many attitude samples are kept.
pub const ATTITUDES: usize = 100;

/// How many measurements the line-of-sight filter remembers.
pub const MEASUREMENTS: usize = 100;

/// Rate of the controller, in hertz.
pub const CONTROL_FREQUENCY: u64 = 100;

/// The formulas of the guidance loop, and those of its parts.
pub trait PursuitModel {
    type Scalar: Copy;

    type Vector: Copy;

    type Attitude: Copy;

    type Optics: OpticsModel<
        Scalar = Self::Scalar,
        Vector = Self::Vector,
        Attitude = Self::Attitude,
    >;

    type Turning: AttitudeModel<Attitude = Self::Attitude, Rate = Self::Vector>;

    type Tracking: EskfModel<Scalar = Self::Scalar, Vector = Self::Vector>;

    type Steering: GuidanceModel<
        Scalar = Self::Scalar,
        Vector = Self::Vector,
        Attitude = Self::Attitude,
    >;

    /// The attitude of a body aligned with the global axes.
    fn level(&self) -> Self::Attitude;

    /// A third of `x`.
    fn third(&self, x: Self::Scalar) -> Self::Scalar;

    /// The uncertainty of an attitude.
    fn attitude_noise(&self) -> <Self::Tracking as EskfModel>::Noise;

    /// How fast a body with velocity `vel` moves.
    fn speed(&self, vel: Self::Vector) -> Self::Scalar;

    /// A time span in the unit that the other formulas take.
    fn time_step(&self, dt_us: u64) -> Self::Scalar;

    /// `force`, but at most the thrust limit.
    fn limit(&self, force: Self::Scalar) -> Self::Scalar;

    /// The tip of the direction `los`, seen from the camera, in the axes of a body with the
    /// given attitude.
    fn tip(&self, los: Self::Vector, attitude: Self::Attitude) -> Self::Vector;
}

/// What has become of an event.
#[derive(Clone, Copy, Debug, PartialEq, Eq, Structural)]
pub enum Outcome {
    /// The line of sight has gone into the filter.
    Fused,
    /// No attitude is known for the instant of the camera frame; `entries` are.
    Missed { timestamp: u64, entries: usize },
    /// The attitude has been stored.
    Stored,
}

/// What the controller asks for.
pub struct Command<M: PursuitModel> {
    pub attitude: M::Attitude,
    pub force: M::Scalar,
    /// The tip of the line of sight in body axes, and its rate, for show.
    pub los_local: M::Vector,
    pub los_rate: M::Vector,
}

/// The quantities that one tick goes through.
pub ghost struct Tick<M: PursuitModel> {
    /// The attitude and angular velocity known for this instant, and the attitude used.
    pub sample: Option<(M::Attitude, M::Vector)>,
    pub attitude: M::Attitude,
    pub closing_vel: M::Scalar,
    pub dt: M::Scalar,
    /// What the guidance law goes through, and the force it asks for.
    pub course: Course<M::Steering>,
    pub force: M::Scalar,
}

/// The guidance loop.
pub struct Pursuit<M: PursuitModel> {
    pub attitudes: AttitudeBuffer<M::Turning>,
    pub camera: CameraModel<M::Optics>,
    pub filter: OosmEskfLos<M::Tracking>,
    pub pronav: ProNav<M::Steering>,
    pub model: M,
}

impl<M: PursuitModel> Pursuit<M> {
    pub open spec fn wf(self) -> bool {
        &&& self.attitudes.wf()
        &&& self.filter.wf()
    }

    /// Starts with an empty attitude history and a filter in the state of `filter`. The
    /// guidance law is told how the camera is mounted, and to keep the target within a third
    /// of its field of view.
    pub fn new(
        model: M,
        turning: M::Turning,
        camera: CameraModel<M::Optics>,
        filter: EskfLos<M::Tracking>,
        pronav: ProNav<M::Steering>,
    ) -> (r: Self)
        ensures
            r.wf(),
            r.model == model,
            r.camera == camera,
            r.attitudes.model == turning,
            r.attitudes.capacity == ATTITUDES,
            r.attitudes.entries@.len() == 0,
            r.filter.history().blank(),
            r.filter.history().initial == filter.spec_state(),
            r.filter.history().limit == MEASUREMENTS,
            r.filter.history().process == (Eskf {
                model: filter.model,
                q_cov: filter.q_cov,
                r_pixel: filter.r_pixel,
            }),
            call_ensures(M::third, (&model, camera.vfov_rad), r.pronav.tuning.fov_limit),
            r.pronav == (ProNav {
                tuning: Tuning {
                    camera_pitch: camera.pitch_rad,
                    fov_limit: r.pronav.tuning.fov_limit,
                    ..pronav.tuning
                },
                ..pronav
            }),
    {
        let fov_limit = model.third(camera.vfov_rad);
        let pronav = pronav.camera_pitch(camera.pitch_rad).fov_limit(fov_limit);
        Pursuit {
            attitudes: AttitudeBuffer::new(turning, ATTITUDES),
            camera,
            filter: OosmEskfLos::new(filter, MEASUREMENTS),
            pronav,
            model,
        }
    }

    /// `next` has taken in that the camera saw the target at `pixel` at instant `timestamp`,
    /// when the attitude was `sample`. The pixel is turned into a global line of sight with
    /// the attitude of that very instant, and goes into the filter at that instant; where no
    /// attitude is known for it, nothing changes.
    pub open spec fn sighted(
        self,
        timestamp: u64,
        pixel: (M::Scalar, M::Scalar),
        sample: Option<(M::Attitude, M::Vector)>,
        next: Self,
        outcome: Outcome,
    ) -> bool {
        &&& sampled(self.attitudes.model, self.attitudes.entries@, timestamp, sample)
        &&& match sample {
            Some((attitude, _)) => {
                &&& outcome == Outcome::Fused
                &&& next == (Pursuit { filter: next.filter, ..self })
                &&& exists|z_u: M::Vector, p_attitude: <M::Tracking as EskfModel>::Noise|
                    self.fused(timestamp, pixel, attitude, z_u, p_attitude, next)
            },
            None => {
                &&& outcome == (Outcome::Missed {
                    timestamp,
                    entries: self.attitudes.entries@.len() as usize,
                })
                &&& next == self
            },
        }
    }

    /// The filter of `next` has taken in the line of sight `z_u` of `pixel`.
    pub open spec fn fused(
        self,
        timestamp: u64,
        pixel: (M::Scalar, M::Scalar),
        attitude: M::Attitude,
        z_u: M::Vector,
        p_attitude: <M::Tracking as EskfModel>::Noise,
        next: Self,
    ) -> bool {
        &&& exists|right: M::Scalar, down: M::Scalar, body: M::Vector|
            sighted(
                self.camera.optics,
                self.camera.spec_lens(),
                self.camera.pitch_rad,
                pixel,
                attitude,
                right,
                down,
                body,
                z_u,
            )
        &&& call_ensures(M::attitude_noise, (&self.model,), p_attitude)
        &&& self.filter.history().fused(
            timestamp,
            EskfInput { z_u, p_attitude },
            next.filter.history(),
        )
    }

    /// Takes an event in.
    pub fn on_event(&mut self, event: Event<M::Scalar, M::Attitude, M::Vector>) -> (outcome:
        Outcome)
        requires
            old(self).wf(),
        ensures
            final(self).wf(),
            match event {
                Event::Camera { timestamp, target_pixel } => exists|
                    sample: Option<(M::Attitude, M::Vector)>,
                |
                    old(self).sighted(timestamp, target_pixel, sample, *final(self), outcome),
                Event::Attitude { timestamp, attitude, angular_vel } => {
                    &&& outcome == Outcome::Stored
                    &&& old(self).attitudes.pushed(
                        AttitudeEntry { timestamp, attitude, angular_vel },
                        final(self).attitudes,
                    )
                    &&& *final(self) == (Pursuit {
                        attitudes: final(self).attitudes,
                        ..*old(self)
                    })
                },
            },
    {
        let ghost before = *self;
        match event {
            Event::Camera { timestamp, target_pixel } => {
                let sample = self.attitudes.interpolate_at(timestamp);
                match sample {
                    Some((attitude, _)) => {
                        let z_u = self.camera.pixel_to_global(target_pixel, attitude);
                        let p_attitude = self.model.attitude_noise();
                        self.filter.fuse(timestamp, z_u, p_attitude);
                        assert(before.fused(
                            timestamp,
                            target_pixel,
                            attitude,
                            z_u,
                            p_attitude,
                            *self,
                        ));
                        assert(before.sighted(
                            timestamp,
                            target_pixel,
                            sample,
                            *self,
                            Outcome::Fused,
                        ));
                        Outcome::Fused
                    },
                    None => {
                        let outcome = Outcome::Missed {
                            timestamp,
                            entries: self.attitudes.entries.len(),
                        };
                        assert(before.sighted(timestamp, target_pixel, sample, *self, outcome));
                        outcome
                    },
                }
            },
            Event::Attitude { timestamp, attitude, angular_vel } => {
                self.attitudes.push(timestamp, attitude, angular_vel);
                Outcome::Stored
            },
        }
    }

    /// `next` has made `command` at instant `now`, with `tick` in between: the filter is
    /// moved on to `now`, the guidance law is given what it expects to see there and the
    /// attitude known for `now` (level, where none is), and the force is limited.
    pub open spec fn ticked(
        self,
        now: u64,
        vel: M::Vector,
        att: M::Attitude,
        tick: Tick<M>,
        next: Self,
        command: Command<M>,
    ) -> bool {
        let los_unit = next.filter.history().state.u_hat;
        let los_rate = next.filter.history().state.omega_hat;
        &&& next == (Pursuit { filter: next.filter, pronav: next.pronav, ..self })
        &&& self.filter.history().coasted(now, next.filter.history())
        // What is shown of the line of sight.
        &&& command.los_rate == los_rate
        &&& call_ensures(M::tip, (&self.model, los_unit, att), command.los_local)
        // What the guidance law sees.
        &&& sampled(self.attitudes.model, self.attitudes.entries@, now, tick.sample)
        &&& match tick.sample {
            Some((attitude, _)) => tick.attitude == attitude,
            None => call_ensures(M::level, (&self.model,), tick.attitude),
        }
        &&& call_ensures(M::speed, (&self.model, vel), tick.closing_vel)
        &&& call_ensures(M::time_step, (&self.model, 10_000u64), tick.dt)
        // What it asks for.
        &&& self.pronav.guided(
            Sighting {
                closing_vel: tick.closing_vel,
                los_unit,
                los_unit_vel: los_rate,
                attitude: tick.attitude,
                dt: tick.dt,
            },
            tick.course,
            next.pronav,
            (command.attitude, tick.force),
        )
        &&& call_ensures(M::limit, (&self.model, tick.force), command.force)
    }

    /// Makes a command at instant `now`, for a vehicle that is estimated to move at `vel`
    /// with attitude `att`.
    pub fn on_tick(&mut self, now: u64, vel: M::Vector, att: M::Attitude) -> (command: Command<M>)
        requires
            old(self).wf(),
        ensures
            final(self).wf(),
            exists|tick: Tick<M>| old(self).ticked(now, vel, att, tick, *final(self), command),
    {
        let ghost before = *self;
        let (los_unit, los_rate) = self.filter.predict_to(now);
        let los_local = self.model.tip(los_unit, att);
        let sample = self.attitudes.interpolate_at(now);
        let attitude = match sample {
            Some((attitude, _)) => attitude,
            None => self.model.level(),
        };
        let closing_vel = self.model.speed(vel);
        let dt = self.model.time_step(period_micros(CONTROL_FREQUENCY));
        let (att_target, force) = self.pronav.update(closing_vel, los_unit, los_rate, attitude, dt);
        let command = Command {
            attitude: att_target,
            force: self.model.limit(force),
            los_local,
            los_rate,
        };
        proof {
            let seen = Sighting {
                closing_vel,
                los_unit,
                los_unit_vel: los_rate,
                attitude,
                dt,
            };
            let course = choose|course: Course<M::Steering>|
                before.pronav.guided(seen, course, self.pronav, (att_target, force));
            let tick = Tick { sample, attitude, closing_vel, dt, course, force };
            assert(before.ticked(now, vel, att, tick, *self, command));
        }
        command
    }
}

/// Limiting a force brings it down to the thrust limit: `newtons` is what a force comes to,
/// rounded up to whole newtons.
pub open spec fn limit_holds<M: PursuitModel>(
    model: M,
    newtons: spec_fn(M::Scalar) -> int,
) -> bool {
    forall|force: M::Scalar, r: M::Scalar| #[trigger]
        call_ensures(M::limit, (&model, force), r) ==> newtons(r) <= THRUST_LIMIT
}

/// Where limiting a force brings it down to the thrust limit, no command asks for more than
/// that.
pub proof fn commands_keep_to_the_thrust_limit<M: PursuitModel>(
    newtons: spec_fn(M::Scalar) -> int,
    pursuit: Pursuit<M>,
    now: u64,
    vel: M::Vector,
    att: M::Attitude,
    next: Pursuit<M>,
    command: Command<M>,
)
    requires
        limit_holds(pursuit.model, newtons),
        exists|tick: Tick<M>| pursuit.ticked(now, vel, att, tick, next, command),
    ensures
        newtons(command.force) <= THRUST_LIMIT,
{
}

/// All formulas of the guidance loop itself are functions.
pub open spec fn functional<M: PursuitModel>() -> bool {
    &&& function1(M::level)
    &&& function2(M::third)
    &&& function1(M::attitude_noise)
    &&& function2(M::speed)
    &&& function2(M::time_step)
    &&& function2(M::limit)
    &&& function3(M::tip)
}

/// A frame is turned into a line of sight with the attitude that a lookup gives for the very
/// instant of the frame, and goes into the filter at that instant; where there is no such
/// attitude it is missed and nothing changes. Either way, nothing but the filter changes.
pub proof fn frames_are_sighted_with_their_own_attitude<M: PursuitModel>(
    pursuit: Pursuit<M>,
    timestamp: u64,
    pixel: (M::Scalar, M::Scalar),
    next: Pursuit<M>,
    outcome: Outcome,
    sample: Option<(M::Attitude, M::Vector)>,
    los: M::Vector,
    noise: <M::Tracking as EskfModel>::Noise,
)
    requires
        functional::<M>(),
        crate::pronav::attitude::functional::<M::Turning>(),
        crate::camera::functional::<M::Optics>(),
        strictly_chronological(pursuit.attitudes.entries@),
        exists|sample: Option<(M::Attitude, M::Vector)>|
            pursuit.sighted(timestamp, pixel, sample, next, outcome),
        call_ensures(
            AttitudeBuffer::<M::Turning>::interpolate_at,
            (&pursuit.attitudes, timestamp),
            sample,
        ),
        sample matches Some((attitude, _)) ==> {
            &&& call_ensures(
                CameraModel::<M::Optics>::pixel_to_global,
                (&pursuit.camera, pixel, attitude),
                los,
            )
            &&& call_ensures(M::attitude_noise, (&pursuit.model,), noise)
        },
    ensures
        sample is Some ==> {
            &&& outcome == Outcome::Fused
            &&& pursuit.filter.history().fused(
                timestamp,
                EskfInput { z_u: los, p_attitude: noise },
                next.filter.history(),
            )
            &&& next == (Pursuit { filter: next.filter, ..pursuit })
        },
        sample is None ==> {
            &&& outcome is Missed
            &&& outcome->timestamp == timestamp
            &&& next == pursuit
        },
{
    let known = choose|sample: Option<(M::Attitude, M::Vector)>|
        pursuit.sighted(timestamp, pixel, sample, next, outcome);
    lookups_are_determined(
        pursuit.attitudes.model,
        pursuit.attitudes.entries@,
        timestamp,
        sample,
        known,
    );
    if let Some((attitude, _)) = sample {
        let (z_u, p_attitude) = choose|
            z_u: M::Vector,
            p_attitude: <M::Tracking as EskfModel>::Noise,
        |
            pursuit.fused(timestamp, pixel, attitude, z_u, p_attitude, next);
        assert(pursuit.camera.sights(pixel, attitude, z_u));
        camera_sights_one_line(pursuit.camera, pixel, attitude, z_u, los);
        assert(p_attitude == noise);
    }
}

/// A command is what the guidance law asks for, with its force limited, when it sees the line of
/// sight and its rate as the filter expects them now, the speed of the vehicle, and the attitude
/// that a lookup gives for now, or a level one where there is none, a hundredth of a second
/// after the last tick.
pub proof fn commands_are_those_of_the_guidance_law<M: PursuitModel>(
    pursuit: Pursuit<M>,
    now: u64,
    vel: M::Vector,
    att: M::Attitude,
    next: Pursuit<M>,
    command: Command<M>,
    sample: Option<(M::Attitude, M::Vector)>,
    level: M::Attitude,
    closing_vel: M::Scalar,
    dt: M::Scalar,
    pronav: ProNav<M::Steering>,
    attitude: M::Attitude,
    force: M::Scalar,
    limited: M::Scalar,
    tip: M::Vector,
)
    requires
        functional::<M>(),
        crate::pronav::attitude::functional::<M::Turning>(),
        crate::pronav::guidance::functional::<M::Steering>(),
        strictly_chronological(pursuit.attitudes.entries@),
        exists|tick: Tick<M>| pursuit.ticked(now, vel, att, tick, next, command),
        call_ensures(
            AttitudeBuffer::<M::Turning>::interpolate_at,
            (&pursuit.attitudes, now),
            sample,
        ),
        call_ensures(M::level, (&pursuit.model,), level),
        call_ensures(M::speed, (&pursuit.model, vel), closing_vel),
        call_ensures(M::time_step, (&pursuit.model, 10_000u64), dt),
        pursuit.pronav.guides(
            Sighting {
                closing_vel,
                los_unit: next.filter.history().state.u_hat,
                los_unit_vel: next.filter.history().state.omega_hat,
                attitude: match sample {
                    Some((attitude, _)) => attitude,
                    None => level,
                },
                dt,
            },
            pronav,
            (attitude, force),
        ),
        call_ensures(M::limit, (&pursuit.model, force), limited),
        call_ensures(M::tip, (&pursuit.model, next.filter.history().state.u_hat, att), tip),
    ensures
        command.attitude == attitude,
        command.force == limited,
        command.los_local == tip,
        command.los_rate == next.filter.history().state.omega_hat,
        pursuit.filter.history().coasted(now, next.filter.history()),
        next == (Pursuit { filter: next.filter, pronav, ..pursuit }),
{
    let tick = choose|tick: Tick<M>| pursuit.ticked(now, vel, att, tick, next, command);
    lookups_are_determined(
        pursuit.attitudes.model,
        pursuit.attitudes.entries@,
        now,
        sample,
        tick.sample,
    );
    assert(tick.closing_vel == closing_vel);
    assert(tick.dt == dt);
    let seen = Sighting {
        closing_vel,
        los_unit: next.filter.history().state.u_hat,
        los_unit_vel: next.filter.history().state.omega_hat,
        attitude: tick.attitude,
        dt,
    };
    assert(pursuit.pronav.guides(seen, next.pronav, (command.attitude, tick.force)));
    guidance_is_determined(
        pursuit.pronav,
        seen,
        next.pronav,
        (command.attitude, tick.force),
        pronav,
        (attitude, force),
    );
}

/// A new loop keeps a hundred attitudes and a hundred measurements, none of them yet, starts
/// with the estimate, the noise and the formulas of its filter, and has the guidance law keep
/// the target within a third of the field of view of the camera, as it is mounted.
pub proof fn loops_start_with_their_parts<M: PursuitModel>(
    model: M,
    turning: M::Turning,
    camera: CameraModel<M::Optics>,
    filter: EskfLos<M::Tracking>,
    pronav: ProNav<M::Steering>,
    r: Pursuit<M>,
    third: M::Scalar,
)
    requires
        functional::<M>(),
        call_ensures(Pursuit::<M>::new, (model, turning, camera, filter, pronav), r),
        call_ensures(M::third, (&model, camera.vfov_rad), third),
    ensures
        r.model == model,
        r.camera == camera,
        r.attitudes.model == turning,
        r.attitudes.capacity == 100,
        r.attitudes.entries@.len() == 0,
        r.filter.history().inputs.len() == 0,
        r.filter.history().snapshots.len() == 0,
        r.filter.history().limit == 100,
        r.filter.history().state.u_hat == filter.u_hat,
        r.filter.history().state.omega_hat == filter.omega_hat,
        r.filter.history().state.basis == filter.basis,
        r.filter.history().state.p_cov == filter.p_cov,
        r.filter.history().initial == r.filter.history().state,
        r.filter.history().process.model == filter.model,
        r.filter.history().process.q_cov == filter.q_cov,
        r.filter.history().process.r_pixel == filter.r_pixel,
        r.pronav == (ProNav {
            tuning: Tuning { camera_pitch: camera.pitch_rad, fov_limit: third, ..pronav.tuning },
            ..pronav
        }),
{
}

/// A call of [`Pursuit::on_event`] stores an attitude, and nothing else changes, or takes a frame
/// in, in the sense of [`Pursuit::sighted`].
pub proof fn events_go_where_they_belong<M: PursuitModel>(
    pursuit: &mut Pursuit<M>,
    event: Event<M::Scalar, M::Attitude, M::Vector>,
    outcome: Outcome,
)
    requires
        old(pursuit).wf(),
        call_ensures(Pursuit::<M>::on_event, (pursuit, event), outcome),
    ensures
        event matches Event::Attitude { timestamp, attitude, angular_vel } ==> {
            &&& outcome == Outcome::Stored
            &&& old(pursuit).attitudes.pushed(
                AttitudeEntry { timestamp, attitude, angular_vel },
                final(pursuit).attitudes,
            )
            &&& *final(pursuit) == (Pursuit {
                attitudes: final(pursuit).attitudes,
                ..*old(pursuit)
            })
        },
        event matches Event::Camera { timestamp, target_pixel } ==> {
            &&& exists|sample: Option<(M::Attitude, M::Vector)>|
                old(pursuit).sighted(timestamp, target_pixel, sample, *final(pursuit), outcome)
            &&& outcome == Outcome::Fused || outcome == (Outcome::Missed {
                timestamp,
                entries: old(pursuit).attitudes.entries@.len() as usize,
            })
        },
{
}

/// A frame is missed exactly where there is no attitude at or before its instant.
pub proof fn frames_are_missed_before_the_first_attitude<M: PursuitModel>(
    pursuit: &mut Pursuit<M>,
    timestamp: u64,
    target_pixel: (M::Scalar, M::Scalar),
    outcome: Outcome,
)
    requires
        old(pursuit).wf(),
        call_ensures(
            Pursuit::<M>::on_event,
            (pursuit, Event::Camera { timestamp, target_pixel }),
            outcome,
        ),
    ensures
        outcome == Outcome::Fused <==> exists|i: int|
            0 <= i < old(pursuit).attitudes.entries@.len()
                && #[trigger] old(pursuit).attitudes.entries@[i].timestamp <= timestamp,
        outcome != Outcome::Fused ==> *final(pursuit) == *old(pursuit),
{
    let entries = old(pursuit).attitudes.entries@;
    let sample = choose|sample: Option<(M::Attitude, M::Vector)>|
        old(pursuit).sighted(timestamp, target_pixel, sample, *final(pursuit), outcome);
    assert(sampled(old(pursuit).attitudes.model, entries, timestamp, sample));
    if exists|i: int| 0 <= i < entries.len() && #[trigger] entries[i].timestamp <= timestamp {
        let i = choose|i: int|
            0 <= i < entries.len() && #[trigger] entries[i].timestamp <= timestamp;
        assert(entries[0].stamp() <= entries[i].stamp());
    }
    if entries.len() > 0 && entries[0].timestamp <= timestamp {
        assert(entries[0].timestamp <= timestamp);
    }
}

/// A call of [`Pursuit::on_tick`] is one tick in the sense of [`Pursuit::ticked`].
pub proof fn ticks_make_commands<M: PursuitModel>(
    pursuit: &mut Pursuit<M>,
    now: u64,
    vel: M::Vector,
    att: M::Attitude,
    command: Command<M>,
)
    requires
        old(pursuit).wf(),
        call_ensures(Pursuit::<M>::on_tick, (pursuit, now, vel, att), command),
    ensures
        exists|tick: Tick<M>| old(pursuit).ticked(now, vel, att, tick, *final(pursuit), command),
        final(pursuit).attitudes == old(pursuit).attitudes,
        final(pursuit).camera == old(pursuit).camera,
{
}

} // verus!
