//! The simulated camera: it follows the target along its path, and ends the test after the
//! target has been struck.

use vstd::prelude::*;
use crate::camera::OpticsModel;
use crate::clock::period_micros;
use crate::flight::Event;
use crate::pronav::camera_model::CameraModel;
use crate::trajectory::{PathModel, Trajectory};

#[allow(unused_imports)]
use crate::camera::{projected, sighted, Ray};
#[allow(unused_imports)]
use crate::functional::{function1, function2, function3, function4};
#[allow(unused_imports)]
use crate::pronav::camera_model::{camera_shows_one_pixel, camera_sights_one_line};
#[allow(unused_imports)]
use crate::trajectory::{smoothed, smoothed_position_is_determined};

verus! {

/// Rate of the camera, in hertz.
pub const CAMERA_FREQUENCY: u64 = 50;

/// The formulas of the simulated scene, and those of its parts.
pub trait SceneModel {
    type Scalar: Copy;

    type Vector: Copy;

    type Attitude: Copy;

    type Optics: OpticsModel<
        Scalar = Self::Scalar,
        Vector = Self::Vector,
        Attitude = Self::Attitude,
    >;

    type Path: PathModel<Time = Self::Scalar, Point = Self::Vector>;

    /// A time span in the unit that the other formulas take.
    fn time_step(&self, dt_us: u64) -> Self::Scalar;

    /// The instant at which a test starts.
    fn start(&self) -> Self::Scalar;

    /// The instant `dt` after `time`.
    fn later(&self, time: Self::Scalar, dt: Self::Scalar) -> Self::Scalar;

    /// How far on each side of an instant the path is smoothed.
    fn window(&self) -> Self::Scalar;

    /// The velocity of a target that got from `from` to `to` in `dt`.
    fn velocity(&self, to: Self::Vector, from: Self::Vector, dt: Self::Scalar) -> Self::Vector;

    /// The point of a target at `pos` to aim at.
    fn aim(&self, pos: Self::Vector) -> Self::Vector;

    /// Where the camera of a vehicle at `pos` is.
    fn focal_point(&self, pos: Self::Vector, attitude: Self::Attitude) -> Self::Vector;

    /// Whether a target along the vector `los` is so close that it has been struck.
    fn is_struck(&self, los: Self::Vector) -> bool;

    /// The instant at which a test ends whose target was struck at `time`.
    fn end_after(&self, time: Self::Scalar) -> Self::Scalar;

    /// Whether `time` is after `end`.
    fn is_after(&self, time: Self::Scalar, end: Self::Scalar) -> bool;

    /// The attitude of a body aligned with the global axes.
    fn level(&self) -> Self::Attitude;

    /// `x`, disturbed by `noise`.
    fn disturbed(&self, x: Self::Scalar, noise: Self::Scalar) -> Self::Scalar;

    /// The tip of the direction `los`, in body axes, seen from the camera.
    fn mounted(&self, los: Self::Vector) -> Self::Vector;
}

/// Where the target is, and how it moves.
pub struct Target<M: SceneModel> {
    pub pos: M::Vector,
    pub vel: M::Vector,
}

/// What the camera gets to see at one instant.
pub struct Frame<M: SceneModel> {
    /// Where the image shows the target, if it does.
    pub pixel: Option<(M::Scalar, M::Scalar)>,
    /// Whether the target has been struck just now.
    pub struck: bool,
    /// Whether the test goes on.
    pub proceed: bool,
}

/// The quantities that one frame goes through.
pub ghost struct Shot<M: SceneModel> {
    pub dt: M::Scalar,
    pub aim: M::Vector,
    pub focal_point: M::Vector,
    /// The vector from the camera to the target.
    pub los: M::Vector,
    /// The same with unit length, in global, body and camera axes.
    pub unit: M::Vector,
    pub body: M::Vector,
    pub ray: Ray<M::Scalar>,
}

/// The simulated camera.
pub struct Observer<M: SceneModel> {
    pub trajectory: Trajectory<M::Path>,
    pub camera: CameraModel<M::Optics>,
    /// How long the test has been going on.
    pub elapsed: M::Scalar,
    /// When it ends, once the target has been struck.
    pub break_time: Option<M::Scalar>,
    /// Where the target was last seen to be.
    pub target_pos: M::Vector,
    pub model: M,
}

impl<M: SceneModel> Observer<M> {
    /// `r` is where the target is at instant `t`.
    pub open spec fn target_at(self, t: M::Scalar, window: M::Scalar, r: M::Vector) -> bool {
        &&& call_ensures(M::window, (&self.model,), window)
        &&& smoothed(self.trajectory.model(), self.trajectory.waypoints(), t, window, r)
    }

    /// A camera at the start of a test.
    pub fn new(model: M, trajectory: Trajectory<M::Path>, camera: CameraModel<M::Optics>) -> (r:
        Self)
        ensures
            r.model == model,
            r.trajectory == trajectory,
            r.camera == camera,
            call_ensures(M::start, (&model,), r.elapsed),
            r.break_time is None,
            exists|window: M::Scalar| r.target_at(r.elapsed, window, r.target_pos),
    {
        let elapsed = model.start();
        let window = model.window();
        let target_pos = trajectory.smoothed_position_at(elapsed, window);
        let r = Observer { trajectory, camera, elapsed, break_time: None, target_pos, model };
        assert(r.target_at(r.elapsed, window, r.target_pos));
        r
    }

    /// `next` has followed the target to where it is now, `target`.
    pub open spec fn followed(
        self,
        window: M::Scalar,
        dt: M::Scalar,
        next: Self,
        target: Target<M>,
    ) -> bool {
        &&& next == (Observer { target_pos: target.pos, ..self })
        &&& self.target_at(self.elapsed, window, target.pos)
        &&& call_ensures(M::time_step, (&self.model, 20_000u64), dt)
        &&& call_ensures(
            M::velocity,
            (&self.model, target.pos, self.target_pos, dt),
            target.vel,
        )
    }

    /// Follows the target to where it is now.
    pub fn follow(&mut self) -> (target: Target<M>)
        ensures
            exists|window: M::Scalar, dt: M::Scalar|
                old(self).followed(window, dt, *final(self), target),
    {
        let ghost before = *self;
        let window = self.model.window();
        let pos = self.trajectory.smoothed_position_at(self.elapsed, window);
        let dt = self.model.time_step(period_micros(CAMERA_FREQUENCY));
        let vel = self.model.velocity(pos, self.target_pos, dt);
        self.target_pos = pos;
        let target = Target { pos, vel };
        assert(before.followed(window, dt, *self, target));
        target
    }

    /// `next` has got `frame` from a vehicle at `pos` with attitude `att`, with `shot` in
    /// between.
    pub open spec fn observed(
        self,
        pos: M::Vector,
        att: M::Attitude,
        shot: Shot<M>,
        next: Self,
        frame: Frame<M>,
    ) -> bool {
        let model = self.model;
        // What stays as it was.
        &&& next.trajectory == self.trajectory
        &&& next.camera == self.camera
        &&& next.target_pos == self.target_pos
        &&& next.model == self.model
        // Where the image shows the target.
        &&& call_ensures(M::aim, (&model, self.target_pos), shot.aim)
        &&& call_ensures(M::focal_point, (&model, pos, att), shot.focal_point)
        &&& call_ensures(
            M::Optics::difference,
            (&self.camera.optics, shot.aim, shot.focal_point),
            shot.los,
        )
        &&& call_ensures(M::Optics::normalize, (&self.camera.optics, shot.los), shot.unit)
        &&& projected(
            self.camera.optics,
            self.camera.spec_lens(),
            self.camera.pitch_rad,
            shot.unit,
            att,
            shot.body,
            shot.ray,
            frame.pixel,
        )
        // The end of the test.
        &&& match self.break_time {
            Some(_) => !frame.struck,
            None => call_ensures(M::is_struck, (&model, shot.los), frame.struck),
        }
        &&& if frame.struck {
            &&& next.break_time is Some
            &&& call_ensures(M::end_after, (&model, self.elapsed), next.break_time->0)
        } else {
            next.break_time == self.break_time
        }
        &&& match next.break_time {
            Some(end) => call_ensures(M::is_after, (&model, self.elapsed, end), !frame.proceed),
            None => frame.proceed,
        }
        &&& call_ensures(M::time_step, (&model, 20_000u64), shot.dt)
        &&& call_ensures(M::later, (&model, self.elapsed, shot.dt), next.elapsed)
    }

    /// Looks once at the target, where it was last followed to, from a vehicle at `pos` with
    /// attitude `att`, and lets the time until the next frame pass. The first time that the
    /// target is struck settles when the test ends.
    pub fn observe(&mut self, pos: M::Vector, att: M::Attitude) -> (frame: Frame<M>)
        ensures
            exists|shot: Shot<M>| old(self).observed(pos, att, shot, *final(self), frame),
            old(self).break_time is Some ==> final(self).break_time == old(self).break_time,
            !frame.proceed ==> final(self).break_time is Some,
    {
        let ghost before = *self;
        let aim = self.model.aim(self.target_pos);
        let focal_point = self.model.focal_point(pos, att);
        let los = self.camera.optics.difference(aim, focal_point);
        let pixel = self.camera.project_to_pixel(los, att);

        let struck: bool = match self.break_time {
            Some(_) => false,
            None => self.model.is_struck(los),
        };
        if struck {
            self.break_time = Some(self.model.end_after(self.elapsed));
        }
        let proceed: bool = match self.break_time {
            Some(end) => !self.model.is_after(self.elapsed, end),
            None => true,
        };
        let dt = self.model.time_step(period_micros(CAMERA_FREQUENCY));
        self.elapsed = self.model.later(self.elapsed, dt);
        let frame = Frame { pixel, struck, proceed };
        proof {
            let (unit, body, ray) = choose|
                unit: M::Vector,
                body: M::Vector,
                ray: Ray<M::Scalar>,
            |
                {
                    &&& call_ensures(M::Optics::normalize, (&self.camera.optics, los), unit)
                    &&& #[trigger] projected(
                        self.camera.optics,
                        self.camera.spec_lens(),
                        self.camera.pitch_rad,
                        unit,
                        att,
                        body,
                        ray,
                        pixel,
                    )
                };
            let shot = Shot { dt, aim, focal_point, los, unit, body, ray };
            assert(before.observed(pos, att, shot, *self, frame));
        }
        frame
    }

    /// `marker` shows the line of sight of what the camera sees at `pixel`: `los` is that
    /// line in body axes.
    pub open spec fn marked(
        self,
        pixel: (M::Scalar, M::Scalar),
        level: M::Attitude,
        los: M::Vector,
        marker: M::Vector,
    ) -> bool {
        &&& call_ensures(M::level, (&self.model,), level)
        &&& exists|right: M::Scalar, down: M::Scalar, body: M::Vector|
            sighted(
                self.camera.optics,
                self.camera.spec_lens(),
                self.camera.pitch_rad,
                pixel,
                level,
                right,
                down,
                body,
                los,
            )
        &&& call_ensures(M::mounted, (&self.model, los), marker)
    }

    /// The event of a target seen at `pixel`, disturbed by `noise`, at instant `now`, and the
    /// tip of its line of sight in body axes.
    pub fn report(
        &self,
        now: u64,
        pixel: (M::Scalar, M::Scalar),
        noise: (M::Scalar, M::Scalar),
    ) -> (r: (Event<M::Scalar, M::Attitude, M::Vector>, M::Vector))
        ensures
            r.0 is Camera,
            r.0->Camera_timestamp == now,
            call_ensures(M::disturbed, (&self.model, pixel.0, noise.0), (r.0->target_pixel).0),
            call_ensures(M::disturbed, (&self.model, pixel.1, noise.1), (r.0->target_pixel).1),
            exists|level: M::Attitude, los: M::Vector|
                self.marked(r.0->target_pixel, level, los, r.1),
    {
        let u = self.model.disturbed(pixel.0, noise.0);
        let v = self.model.disturbed(pixel.1, noise.1);
        let level = self.model.level();
        let los = self.camera.pixel_to_global((u, v), level);
        let marker = self.model.mounted(los);
        let event = Event::Camera { timestamp: now, target_pixel: (u, v) };
        let r = (event, marker);
        assert(self.marked(r.0->target_pixel, level, los, r.1));
        r
    }
}

/// All formulas of the scene itself are functions.
pub open spec fn functional<M: SceneModel>() -> bool {
    &&& function2(M::time_step)
    &&& function1(M::start)
    &&& function3(M::later)
    &&& function1(M::window)
    &&& function4(M::velocity)
    &&& function2(M::aim)
    &&& function3(M::focal_point)
    &&& function2(M::is_struck)
    &&& function2(M::end_after)
    &&& function3(M::is_after)
    &&& function1(M::level)
    &&& function3(M::disturbed)
    &&& function2(M::mounted)
}

/// The vector from the camera of a vehicle at `pos` with attitude `att` to the point aimed at
/// on a target at `target` is `los`.
pub open spec fn points_to<M: SceneModel>(
    observer: Observer<M>,
    target: M::Vector,
    pos: M::Vector,
    att: M::Attitude,
    aim: M::Vector,
    focal_point: M::Vector,
    los: M::Vector,
) -> bool {
    &&& call_ensures(M::aim, (&observer.model, target), aim)
    &&& call_ensures(M::focal_point, (&observer.model, pos, att), focal_point)
    &&& call_ensures(M::Optics::difference, (&observer.camera.optics, aim, focal_point), los)
}

/// Until the target has been struck, a frame counts as a strike exactly where the vector from
/// the camera to the target is short enough, whatever the image shows; after that none does.
pub proof fn strikes_are_judged_by_the_vector_alone<M: SceneModel>(
    observer: Observer<M>,
    pos: M::Vector,
    att: M::Attitude,
    next: Observer<M>,
    frame: Frame<M>,
    aim: M::Vector,
    focal_point: M::Vector,
    los: M::Vector,
    close: bool,
)
    requires
        functional::<M>(),
        crate::camera::functional::<M::Optics>(),
        exists|shot: Shot<M>| observer.observed(pos, att, shot, next, frame),
        points_to(observer, observer.target_pos, pos, att, aim, focal_point, los),
        call_ensures(M::is_struck, (&observer.model, los), close),
    ensures
        observer.break_time is None ==> frame.struck == close,
        observer.break_time is Some ==> !frame.struck,
{
}

/// Frames of the same target, by cameras at the same place, agree on whether the target has
/// been struck, whatever the attitude of the vehicle and whatever the images show.
pub proof fn strikes_do_not_depend_on_the_attitude<M: SceneModel>(
    observer: Observer<M>,
    pos_a: M::Vector,
    att_a: M::Attitude,
    next_a: Observer<M>,
    frame_a: Frame<M>,
    pos_b: M::Vector,
    att_b: M::Attitude,
    next_b: Observer<M>,
    frame_b: Frame<M>,
    focal_point: M::Vector,
)
    requires
        functional::<M>(),
        crate::camera::functional::<M::Optics>(),
        call_ensures(M::focal_point, (&observer.model, pos_a, att_a), focal_point),
        call_ensures(M::focal_point, (&observer.model, pos_b, att_b), focal_point),
        exists|shot: Shot<M>| observer.observed(pos_a, att_a, shot, next_a, frame_a),
        exists|shot: Shot<M>| observer.observed(pos_b, att_b, shot, next_b, frame_b),
    ensures
        frame_a.struck == frame_b.struck,
        frame_a.proceed == frame_b.proceed,
        next_a == next_b,
{
    let a = choose|shot: Shot<M>| observer.observed(pos_a, att_a, shot, next_a, frame_a);
    let b = choose|shot: Shot<M>| observer.observed(pos_b, att_b, shot, next_b, frame_b);
    assert(a.aim == b.aim);
    assert(a.focal_point == b.focal_point);
    assert(a.los == b.los);
    assert(a.dt == b.dt);
}

/// The first strike settles the end of the test, and nothing moves it again; the test goes on
/// exactly until the time is after that end.
pub proof fn first_strike_settles_the_end<M: SceneModel>(
    observer: Observer<M>,
    pos: M::Vector,
    att: M::Attitude,
    next: Observer<M>,
    frame: Frame<M>,
    end: M::Scalar,
    over: bool,
)
    requires
        functional::<M>(),
        exists|shot: Shot<M>| observer.observed(pos, att, shot, next, frame),
        observer.break_time is None ==> call_ensures(
            M::end_after,
            (&observer.model, observer.elapsed),
            end,
        ),
        observer.break_time is Some ==> observer.break_time == Some(end),
        call_ensures(M::is_after, (&observer.model, observer.elapsed, end), over),
    ensures
        next.break_time == if observer.break_time is Some || frame.struck {
            Some(end)
        } else {
            None
        },
        frame.proceed == !((observer.break_time is Some || frame.struck) && over),
{
}

/// What a camera shows of a target is decided by the vector to it and the attitude: a frame
/// shows the target exactly where the camera shows that vector.
pub proof fn frames_show_what_the_camera_shows<M: SceneModel>(
    observer: Observer<M>,
    pos: M::Vector,
    att: M::Attitude,
    next: Observer<M>,
    frame: Frame<M>,
    aim: M::Vector,
    focal_point: M::Vector,
    los: M::Vector,
    pixel: Option<(M::Scalar, M::Scalar)>,
)
    requires
        functional::<M>(),
        crate::camera::functional::<M::Optics>(),
        exists|shot: Shot<M>| observer.observed(pos, att, shot, next, frame),
        points_to(observer, observer.target_pos, pos, att, aim, focal_point, los),
        call_ensures(
            CameraModel::<M::Optics>::project_to_pixel,
            (&observer.camera, los, att),
            pixel,
        ),
    ensures
        frame.pixel == pixel,
{
    let shot = choose|shot: Shot<M>| observer.observed(pos, att, shot, next, frame);
    assert(shot.los == los);
    assert(observer.camera.shows(los, att, frame.pixel));
    assert(observer.camera.shows(los, att, pixel));
    camera_shows_one_pixel(observer.camera, los, att, frame.pixel, pixel);
}

/// Looking moves the time on by one frame of a fiftieth of a second, and touches neither the
/// target nor the camera.
pub proof fn frames_follow_each_other<M: SceneModel>(
    observer: Observer<M>,
    pos: M::Vector,
    att: M::Attitude,
    next: Observer<M>,
    frame: Frame<M>,
    dt: M::Scalar,
    later: M::Scalar,
)
    requires
        functional::<M>(),
        exists|shot: Shot<M>| observer.observed(pos, att, shot, next, frame),
        call_ensures(M::time_step, (&observer.model, 20_000u64), dt),
        call_ensures(M::later, (&observer.model, observer.elapsed, dt), later),
    ensures
        next == (Observer { elapsed: later, break_time: next.break_time, ..observer }),
{
}

/// Following the target finds it where its smoothed path has it at this time, and with the
/// velocity that takes it there from where it was last, in one frame; nothing else changes.
pub proof fn targets_are_followed_along_their_path<M: SceneModel>(
    observer: Observer<M>,
    next: Observer<M>,
    target: Target<M>,
    window: M::Scalar,
    pos: M::Vector,
    dt: M::Scalar,
    vel: M::Vector,
)
    requires
        functional::<M>(),
        crate::trajectory::functional::<M::Path>(),
        exists|window: M::Scalar, dt: M::Scalar| observer.followed(window, dt, next, target),
        call_ensures(M::window, (&observer.model,), window),
        call_ensures(
            Trajectory::<M::Path>::smoothed_position_at,
            (&observer.trajectory, observer.elapsed, window),
            pos,
        ),
        call_ensures(M::time_step, (&observer.model, 20_000u64), dt),
        call_ensures(M::velocity, (&observer.model, pos, observer.target_pos, dt), vel),
    ensures
        target.pos == pos,
        target.vel == vel,
        next == (Observer { target_pos: pos, ..observer }),
{
    smoothed_position_is_determined(
        observer.trajectory.model(),
        observer.trajectory.waypoints(),
        observer.elapsed,
        window,
        target.pos,
        pos,
    );
}

/// A report is stamped with its own instant and holds the disturbed pixel; its marker is the
/// line of sight of exactly that pixel, seen by a level vehicle.
pub proof fn reports_are_of_the_disturbed_pixel<M: SceneModel>(
    observer: Observer<M>,
    now: u64,
    pixel: (M::Scalar, M::Scalar),
    noise: (M::Scalar, M::Scalar),
    r: (Event<M::Scalar, M::Attitude, M::Vector>, M::Vector),
    u: M::Scalar,
    v: M::Scalar,
    level: M::Attitude,
    los: M::Vector,
    marker: M::Vector,
)
    requires
        functional::<M>(),
        crate::camera::functional::<M::Optics>(),
        call_ensures(Observer::<M>::report, (&observer, now, pixel, noise), r),
        call_ensures(M::disturbed, (&observer.model, pixel.0, noise.0), u),
        call_ensures(M::disturbed, (&observer.model, pixel.1, noise.1), v),
        call_ensures(M::level, (&observer.model,), level),
        call_ensures(
            CameraModel::<M::Optics>::pixel_to_global,
            (&observer.camera, (u, v), level),
            los,
        ),
        call_ensures(M::mounted, (&observer.model, los), marker),
    ensures
        r.0 == (Event::<M::Scalar, M::Attitude, M::Vector>::Camera {
            timestamp: now,
            target_pixel: (u, v),
        }),
        r.1 == marker,
{
    let seen = r.0->target_pixel;
    assert(seen == (u, v));
    let (other, sight) = choose|level: M::Attitude, los: M::Vector|
        observer.marked(seen, level, los, r.1);
    assert(other == level);
    assert(observer.camera.sights(seen, level, sight));
    camera_sights_one_line(observer.camera, seen, level, sight, los);
}

/// A call of [`Observer::observe`] looks at the target once, in the sense of
/// [`Observer::observed`].
pub proof fn looking_is_observing<M: SceneModel>(
    observer: &mut Observer<M>,
    pos: M::Vector,
    att: M::Attitude,
    frame: Frame<M>,
)
    requires
        call_ensures(Observer::<M>::observe, (observer, pos, att), frame),
    ensures
        exists|shot: Shot<M>| old(observer).observed(pos, att, shot, *final(observer), frame),
        old(observer).break_time is Some ==> final(observer).break_time
            == old(observer).break_time,
{
}

/// A call of [`Observer::observe`] before the first strike counts as a strike exactly where the
/// vector from the camera to the target is short enough, whatever the image shows, and the first
/// strike settles when the test ends.
pub proof fn looking_judges_strikes_by_the_vector_alone<M: SceneModel>(
    observer: &mut Observer<M>,
    pos: M::Vector,
    att: M::Attitude,
    frame: Frame<M>,
    aim: M::Vector,
    focal_point: M::Vector,
    los: M::Vector,
    close: bool,
    end: M::Scalar,
)
    requires
        functional::<M>(),
        crate::camera::functional::<M::Optics>(),
        call_ensures(Observer::<M>::observe, (observer, pos, att), frame),
        old(observer).break_time is None,
        points_to(*old(observer), old(observer).target_pos, pos, att, aim, focal_point, los),
        call_ensures(M::is_struck, (&old(observer).model, los), close),
        call_ensures(M::end_after, (&old(observer).model, old(observer).elapsed), end),
    ensures
        frame.struck == close,
        final(observer).break_time == if close {
            Some(end)
        } else {
            None
        },
{
    strikes_are_judged_by_the_vector_alone(
        *old(observer),
        pos,
        att,
        *final(observer),
        frame,
        aim,
        focal_point,
        los,
        close,
    );
}

/// A call of [`Observer::follow`] follows the target once, in the sense of [`Observer::followed`].
pub proof fn following_is_once<M: SceneModel>(observer: &mut Observer<M>, target: Target<M>)
    requires
        call_ensures(Observer::<M>::follow, (observer,), target),
    ensures
        exists|window: M::Scalar, dt: M::Scalar|
            old(observer).followed(window, dt, *final(observer), target),
        *final(observer) == (Observer { target_pos: target.pos, ..*old(observer) }),
{
}

/// A new camera starts its test where the target is at the start, with no end settled.
pub proof fn tests_start_at_the_start<M: SceneModel>(
    model: M,
    trajectory: Trajectory<M::Path>,
    camera: CameraModel<M::Optics>,
    r: Observer<M>,
    start: M::Scalar,
    window: M::Scalar,
    pos: M::Vector,
)
    requires
        functional::<M>(),
        crate::trajectory::functional::<M::Path>(),
        call_ensures(Observer::<M>::new, (model, trajectory, camera), r),
        call_ensures(M::start, (&model,), start),
        call_ensures(M::window, (&model,), window),
        call_ensures(
            Trajectory::<M::Path>::smoothed_position_at,
            (&trajectory, start, window),
            pos,
        ),
    ensures
        r == (Observer {
            trajectory,
            camera,
            elapsed: start,
            break_time: None,
            target_pos: pos,
            model,
        }),
{
    let other = choose|window: M::Scalar| r.target_at(r.elapsed, window, r.target_pos);
    assert(other == window);
    smoothed_position_is_determined(
        trajectory.model(),
        trajectory.waypoints(),
        start,
        window,
        r.target_pos,
        pos,
    );
}

} // verus!
