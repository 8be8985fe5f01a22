//! Line-of-sight estimation for a camera whose measurements arrive in order.

use vstd::prelude::*;
use crate::camera::{fit, project, sight, Lens, OpticsModel};
use crate::los::{update, LosModel, LosState};

#[allow(unused_imports)]
use crate::camera::{
    exact_optics, exact_sighting, fitted, functional, imaged, places, projected,
    projection_is_determined, projection_is_where_the_target_is, projection_undoes_sighting, seen,
    sighted, sighting_undoes_projection, unseen, Ray,
};
#[allow(unused_imports)]
use crate::los::{
    updated, updates_follow_the_correction, updates_stay_on_the_sphere, Correction, Sphere,
};

verus! {

/// A camera fixed to the vehicle.
pub struct CameraSensor<M: OpticsModel> {
    pub width: M::Scalar,
    pub height: M::Scalar,
    pub f_x: M::Scalar,
    pub f_y: M::Scalar,
    pub c_x: M::Scalar,
    pub c_y: M::Scalar,
    pub pitch_offset: M::Scalar,
    pub optics: M,
}

impl<M: OpticsModel> CameraSensor<M> {
    /// The geometry of the image.
    pub open spec fn spec_lens(self) -> Lens<M::Scalar> {
        Lens {
            width: self.width,
            height: self.height,
            f_x: self.f_x,
            f_y: self.f_y,
            c_x: self.c_x,
            c_y: self.c_y,
        }
    }

    /// The camera at `focal_point` shows a target at `target_pos`, which lies along `los` in
    /// global axes and along `ray` in those of the camera, at `pixel`, or nowhere.
    pub open spec fn shows_along(
        self,
        target_pos: M::Vector,
        focal_point: M::Vector,
        att: M::Attitude,
        los: M::Vector,
        body: M::Vector,
        ray: Ray<M::Scalar>,
        pixel: Option<(M::Scalar, M::Scalar)>,
    ) -> bool {
        &&& call_ensures(M::difference, (&self.optics, target_pos, focal_point), los)
        &&& projected(
            self.optics,
            self.spec_lens(),
            self.pitch_offset,
            los,
            att,
            body,
            ray,
            pixel,
        )
    }

    /// The camera at `focal_point` shows a target at `target_pos` at `pixel`, or nowhere.
    pub open spec fn shows(
        self,
        target_pos: M::Vector,
        focal_point: M::Vector,
        att: M::Attitude,
        pixel: Option<(M::Scalar, M::Scalar)>,
    ) -> bool {
        exists|los: M::Vector, body: M::Vector, ray: Ray<M::Scalar>|
            self.shows_along(target_pos, focal_point, att, los, body, ray, pixel)
    }

    /// What the camera sees at `pixel` lies along the global vector `los`.
    pub open spec fn sights(
        self,
        pixel: (M::Scalar, M::Scalar),
        att: M::Attitude,
        los: M::Vector,
    ) -> bool {
        exists|right: M::Scalar, down: M::Scalar, body: M::Vector|
            sighted(
                self.optics,
                self.spec_lens(),
                self.pitch_offset,
                pixel,
                att,
                right,
                down,
                body,
                los,
            )
    }

    fn lens(&self) -> (lens: Lens<M::Scalar>)
        ensures
            lens == self.spec_lens(),
    {
        Lens {
            width: self.width,
            height: self.height,
            f_x: self.f_x,
            f_y: self.f_y,
            c_x: self.c_x,
            c_y: self.c_y,
        }
    }

    /// A camera with square pixels that spans `vfov_rad` vertically and is pitched up by
    /// `pitch_offset`.
    pub fn new(
        optics: M,
        width: M::Scalar,
        height: M::Scalar,
        vfov_rad: M::Scalar,
        pitch_offset: M::Scalar,
    ) -> (r: Self)
        ensures
            r.optics == optics,
            r.pitch_offset == pitch_offset,
            fitted(optics, width, height, vfov_rad, r.spec_lens()),
    {
        let lens = fit(&optics, width, height, vfov_rad);
        CameraSensor {
            width,
            height,
            f_x: lens.f_x,
            f_y: lens.f_y,
            c_x: lens.c_x,
            c_y: lens.c_y,
            pitch_offset,
            optics,
        }
    }

    /// Emulates the camera sensor, returning the pixel coordinates `(u, v)` if the target is
    /// in view.
    pub fn project_to_pixel(
        &self,
        target_pos: M::Vector,
        focal_point: M::Vector,
        att: M::Attitude,
    ) -> (r: Option<(M::Scalar, M::Scalar)>)
        ensures
            self.shows(target_pos, focal_point, att, r),
    {
        let los = self.optics.difference(target_pos, focal_point);
        let pixel = project(&self.optics, self.lens(), self.pitch_offset, los, att);
        proof {
            let (body, ray) = choose|body: M::Vector, ray: Ray<M::Scalar>|
                projected(
                    self.optics,
                    self.spec_lens(),
                    self.pitch_offset,
                    los,
                    att,
                    body,
                    ray,
                    pixel,
                );
            assert(self.shows_along(target_pos, focal_point, att, los, body, ray, pixel));
        }
        pixel
    }

    /// Converts a pixel measurement back to a global line-of-sight vector.
    pub fn pixel_to_global(&self, pixel: (M::Scalar, M::Scalar), att: M::Attitude) -> (r: M::Vector)
        ensures
            self.sights(pixel, att, r),
    {
        sight(&self.optics, self.lens(), self.pitch_offset, pixel, att)
    }
}

/// Only the vector from the camera to the target matters: where that is the same, as after
/// moving both by the same offset, so is the pixel.
pub proof fn moving_both_changes_nothing<M: OpticsModel>(
    camera: CameraSensor<M>,
    target_a: M::Vector,
    focal_a: M::Vector,
    target_b: M::Vector,
    focal_b: M::Vector,
    att: M::Attitude,
    los: M::Vector,
    a: Option<(M::Scalar, M::Scalar)>,
    b: Option<(M::Scalar, M::Scalar)>,
)
    requires
        functional::<M>(),
        call_ensures(M::difference, (&camera.optics, target_a, focal_a), los),
        call_ensures(M::difference, (&camera.optics, target_b, focal_b), los),
        camera.shows(target_a, focal_a, att, a),
        camera.shows(target_b, focal_b, att, b),
    ensures
        a == b,
{
    let (los_a, body_a, ray_a) = choose|los: M::Vector, body: M::Vector, ray: Ray<M::Scalar>|
        camera.shows_along(target_a, focal_a, att, los, body, ray, a);
    let (los_b, body_b, ray_b) = choose|los: M::Vector, body: M::Vector, ray: Ray<M::Scalar>|
        camera.shows_along(target_b, focal_b, att, los, body, ray, b);
    assert(los_a == los && los_b == los);
    projection_is_determined(
        camera.optics,
        camera.spec_lens(),
        camera.pitch_offset,
        los,
        att,
        body_a,
        ray_a,
        a,
        body_b,
        ray_b,
        b,
    );
}

/// `b` is `a`, drawn out: it is in front of a camera with the same lens where `a` is, and the
/// formulas for its pixel give the same there.
pub open spec fn drawn_out<M: OpticsModel>(
    camera: CameraSensor<M>,
    a: Ray<M::Scalar>,
    b: Ray<M::Scalar>,
) -> bool {
    let optics = camera.optics;
    &&& forall|outcome: bool|
        call_ensures(M::is_behind, (&optics, a.depth), outcome) == #[trigger] call_ensures(
            M::is_behind,
            (&optics, b.depth),
            outcome,
        )
    &&& call_ensures(M::is_behind, (&optics, a.depth), false) ==> forall|u: M::Scalar, v: M::Scalar|
        #[trigger] imaged(optics, camera.spec_lens(), a, u, v) == imaged(
            optics,
            camera.spec_lens(),
            b,
            u,
            v,
        )
}

/// The distance does not matter: but for rounding, a target farther along the same ray is
/// shown at the same pixel.
pub proof fn distance_does_not_matter<M: OpticsModel>(
    camera: CameraSensor<M>,
    target_a: M::Vector,
    target_b: M::Vector,
    focal_point: M::Vector,
    att: M::Attitude,
    a: Option<(M::Scalar, M::Scalar)>,
    b: Option<(M::Scalar, M::Scalar)>,
)
    requires
        functional::<M>(),
        camera.shows(target_a, focal_point, att, a),
        camera.shows(target_b, focal_point, att, b),
        forall|
            los_a: M::Vector,
            body_a: M::Vector,
            ray_a: Ray<M::Scalar>,
            los_b: M::Vector,
            body_b: M::Vector,
            ray_b: Ray<M::Scalar>,
        |
            #[trigger] camera.shows_along(target_a, focal_point, att, los_a, body_a, ray_a, a)
                && #[trigger] camera.shows_along(
                target_b,
                focal_point,
                att,
                los_b,
                body_b,
                ray_b,
                b,
            ) ==> drawn_out(camera, ray_a, ray_b),
    ensures
        a == b,
{
    let (los_a, body_a, ray_a) = choose|los: M::Vector, body: M::Vector, ray: Ray<M::Scalar>|
        camera.shows_along(target_a, focal_point, att, los, body, ray, a);
    let (los_b, body_b, ray_b) = choose|los: M::Vector, body: M::Vector, ray: Ray<M::Scalar>|
        camera.shows_along(target_b, focal_point, att, los, body, ray, b);
    assert(drawn_out(camera, ray_a, ray_b));
    if call_ensures(M::is_behind, (&camera.optics, ray_a.depth), false) {
        assert(call_ensures(M::is_behind, (&camera.optics, ray_b.depth), false));
    }
}

/// A target that is not in front of the camera, as one right at it, is not shown; any other
/// is shown in the image or not at all.
pub proof fn targets_are_shown_in_front_and_in_the_image<M: OpticsModel>(
    camera: CameraSensor<M>,
    target_pos: M::Vector,
    focal_point: M::Vector,
    att: M::Attitude,
    los: M::Vector,
    body: M::Vector,
    ray: Ray<M::Scalar>,
    pixel: Option<(M::Scalar, M::Scalar)>,
)
    requires
        camera.shows_along(target_pos, focal_point, att, los, body, ray, pixel),
    ensures
        !call_ensures(M::is_behind, (&camera.optics, ray.depth), false) ==> pixel is None,
        pixel matches Some((u, v)) ==> {
            &&& seen(camera.optics, u, camera.width)
            &&& seen(camera.optics, v, camera.height)
        },
{
}

/// But for rounding, the line of sight of the pixel at which the camera shows a target is the
/// direction of the vector to that target.
pub proof fn pixel_leads_back_to_the_target<M: OpticsModel>(
    camera: CameraSensor<M>,
    ratio: spec_fn(M::Scalar, M::Scalar) -> M::Scalar,
    direction: spec_fn(M::Vector) -> M::Vector,
    target_pos: M::Vector,
    focal_point: M::Vector,
    att: M::Attitude,
    los: M::Vector,
    body: M::Vector,
    ray: Ray<M::Scalar>,
    pixel: (M::Scalar, M::Scalar),
    r: M::Vector,
)
    requires
        exact_optics(
            camera.optics,
            camera.spec_lens(),
            camera.pitch_offset,
            att,
            ratio,
            direction,
        ),
        camera.shows_along(target_pos, focal_point, att, los, body, ray, Some(pixel)),
        camera.sights(pixel, att, r),
    ensures
        r == direction(los),
{
    sighting_undoes_projection(
        camera.optics,
        ratio,
        direction,
        camera.spec_lens(),
        camera.pitch_offset,
        los,
        att,
        pixel,
        r,
    );
}

/// But for rounding, a target along the line of sight of a pixel inside of the image is shown
/// at that pixel.
pub proof fn line_of_sight_leads_back_to_the_pixel<M: OpticsModel>(
    camera: CameraSensor<M>,
    ratio: spec_fn(M::Scalar, M::Scalar) -> M::Scalar,
    target_pos: M::Vector,
    focal_point: M::Vector,
    att: M::Attitude,
    pixel: (M::Scalar, M::Scalar),
    los: M::Vector,
    body: M::Vector,
    ray: Ray<M::Scalar>,
    r: Option<(M::Scalar, M::Scalar)>,
)
    requires
        exact_sighting(camera.optics, camera.spec_lens(), camera.pitch_offset, att, ratio),
        !unseen(camera.optics, pixel.0, camera.width),
        !unseen(camera.optics, pixel.1, camera.height),
        camera.sights(pixel, att, los),
        camera.shows_along(target_pos, focal_point, att, los, body, ray, r),
    ensures
        r == Some(pixel),
{
    projection_undoes_sighting(
        camera.optics,
        ratio,
        camera.spec_lens(),
        camera.pitch_offset,
        att,
        pixel,
        los,
        r,
    );
}

/// An alpha-beta filter for the line of sight.
pub struct AlphaBetaLos<M: LosModel> {
    model: M,
    alpha: M::Scalar,
    beta: M::Scalar,
    forward: M::Vector,
    zero: M::Vector,
    state: LosState<M::Vector>,
}

impl<M: LosModel> AlphaBetaLos<M> {
    pub closed spec fn model(self) -> M {
        self.model
    }

    /// Gain on the direction.
    pub closed spec fn alpha(self) -> M::Scalar {
        self.alpha
    }

    /// Gain on the rate.
    pub closed spec fn beta(self) -> M::Scalar {
        self.beta
    }

    /// The direction reported before the first measurement.
    pub closed spec fn forward(self) -> M::Vector {
        self.forward
    }

    /// The rate reported before the first measurement.
    pub closed spec fn zero(self) -> M::Vector {
        self.zero
    }

    pub closed spec fn state(self) -> LosState<M::Vector> {
        self.state
    }

    /// The state is that of a filter that has seen nothing, or of one with a direction.
    pub open spec fn wf(self) -> bool {
        self.state().still_if_blind(self.zero())
    }

    /// Everything but the state is the same.
    pub open spec fn same_filter(self, other: Self) -> bool {
        &&& self.model() == other.model()
        &&& self.alpha() == other.alpha()
        &&& self.beta() == other.beta()
        &&& self.forward() == other.forward()
        &&& self.zero() == other.zero()
    }

    /// `next` has taken `measurement`, or the lack of one, in, `dt` after `self`.
    pub open spec fn updates_to(
        self,
        measurement: Option<M::Vector>,
        dt: M::Scalar,
        next: Self,
    ) -> bool {
        updated(
            self.model(),
            self.alpha(),
            self.beta(),
            self.state(),
            measurement,
            dt,
            true,
            next.state(),
        )
    }

    /// Constructs a new alpha-beta filter.
    ///
    /// Larger values of `alpha` make the filter more responsive, but also potentially
    /// noisier.
    pub fn new(model: M, alpha: M::Scalar) -> (r: Self)
        ensures
            r.wf(),
            r.model() == model,
            call_ensures(M::clamp_gain, (&model, alpha), r.alpha()),
            call_ensures(M::rate_gain, (&model, r.alpha()), r.beta()),
            call_ensures(M::forward, (&model,), r.forward()),
            call_ensures(M::zero, (&model,), r.zero()),
            r.state() == (LosState { unit: None, rate: r.zero() }),
    {
        let alpha = model.clamp_gain(alpha);
        let beta = model.rate_gain(alpha);
        let forward = model.forward();
        let zero = model.zero();
        let state = LosState { unit: None, rate: zero };
        AlphaBetaLos { model, alpha, beta, forward, zero, state }
    }

    /// Resets the internal state of the filter.
    pub fn reset(&mut self)
        ensures
            final(self).wf(),
            final(self).same_filter(*old(self)),
            final(self).state() == (LosState { unit: None, rate: old(self).zero() }),
    {
        self.state = LosState { unit: None, rate: self.zero };
    }

    /// Updates the filter with a new line-of-sight measurement, taken `dt` after the last
    /// one. Without a measurement, the filter coasts on the rate it knows. Returns the new
    /// direction and rate; a filter that has never seen the target looks straight ahead.
    pub fn update(&mut self, measurement: Option<M::Vector>, dt: M::Scalar) -> (r: (
        M::Vector,
        M::Vector,
    ))
        requires
            old(self).wf(),
        ensures
            final(self).wf(),
            final(self).same_filter(*old(self)),
            old(self).updates_to(measurement, dt, *final(self)),
            r == final(self).state().estimate(old(self).forward()),
            old(self).state().unit is None && measurement is None ==> r == (
                old(self).forward(),
                old(self).zero(),
            ),
    {
        self.state = update(
            &self.model,
            self.alpha,
            self.beta,
            self.state,
            measurement,
            dt,
            true,
        );
        match self.state.unit {
            Some(unit) => (unit, self.state.rate),
            None => (self.forward, self.zero),
        }
    }
}

/// But for rounding, a filter that is fed measurements of unit length, or none, keeps a
/// direction of unit length and a rate square to it, once it has a direction.
pub proof fn estimate_stays_on_the_sphere<M: LosModel>(
    sphere: Sphere<M>,
    filter: AlphaBetaLos<M>,
    measurement: Option<M::Vector>,
    dt: M::Scalar,
    next: AlphaBetaLos<M>,
)
    requires
        sphere.exact(filter.model(), filter.alpha(), filter.zero()),
        filter.wf(),
        sphere.holds(filter.state()),
        sphere.measures(measurement),
        sphere.clear(filter.model(), filter.state(), measurement, dt),
        filter.updates_to(measurement, dt, next),
    ensures
        sphere.holds(next.state()),
        measurement is Some || filter.state().unit is Some ==> next.state().unit is Some,
{
    updates_stay_on_the_sphere(
        sphere,
        filter.model(),
        filter.alpha(),
        filter.beta(),
        filter.zero(),
        filter.state(),
        measurement,
        dt,
        true,
        next.state(),
    );
}

/// The camera shows a target exactly where the vector from its focal point to the target leads
/// in front of it and both coordinates of the pixel lie in the image: neither negative nor
/// beyond the last.
pub proof fn targets_are_shown_where_they_are<M: OpticsModel>(
    camera: CameraSensor<M>,
    target_pos: M::Vector,
    focal_point: M::Vector,
    att: M::Attitude,
    r: Option<(M::Scalar, M::Scalar)>,
    los: M::Vector,
    body: M::Vector,
    ray: Ray<M::Scalar>,
    u: M::Scalar,
    v: M::Scalar,
    behind: bool,
    inside: bool,
)
    requires
        functional::<M>(),
        call_ensures(
            CameraSensor::<M>::project_to_pixel,
            (&camera, target_pos, focal_point, att),
            r,
        ),
        call_ensures(M::difference, (&camera.optics, target_pos, focal_point), los),
        call_ensures(M::to_body, (&camera.optics, los, att), body),
        call_ensures(M::to_camera, (&camera.optics, body, camera.pitch_offset), ray),
        call_ensures(M::is_behind, (&camera.optics, ray.depth), behind),
        call_ensures(
            M::to_pixel,
            (&camera.optics, ray.right, ray.depth, camera.f_x, camera.c_x),
            u,
        ),
        call_ensures(
            M::to_pixel,
            (&camera.optics, ray.down, ray.depth, camera.f_y, camera.c_y),
            v,
        ),
        places(camera.optics, u, v, camera.width, camera.height, inside),
    ensures
        r == if !behind && inside {
            Some((u, v))
        } else {
            None
        },
{
    let (los_a, body_a, ray_a) = choose|los: M::Vector, body: M::Vector, ray: Ray<M::Scalar>|
        camera.shows_along(target_pos, focal_point, att, los, body, ray, r);
    assert(los_a == los);
    projection_is_where_the_target_is(
        camera.optics,
        camera.spec_lens(),
        camera.pitch_offset,
        los,
        att,
        body_a,
        ray_a,
        r,
        body,
        ray,
        u,
        v,
        behind,
        inside,
    );
}

/// The line of sight of a pixel is the global direction of the point at unit depth that is off
/// the axis as far as the pixel is off the middle of the image, on both axes.
pub proof fn pixels_are_sighted_off_the_middle<M: OpticsModel>(
    camera: CameraSensor<M>,
    pixel: (M::Scalar, M::Scalar),
    att: M::Attitude,
    r: M::Vector,
    right: M::Scalar,
    down: M::Scalar,
    body: M::Vector,
    los: M::Vector,
)
    requires
        functional::<M>(),
        call_ensures(CameraSensor::<M>::pixel_to_global, (&camera, pixel, att), r),
        call_ensures(M::from_pixel, (&camera.optics, pixel.0, camera.f_x, camera.c_x), right),
        call_ensures(M::from_pixel, (&camera.optics, pixel.1, camera.f_y, camera.c_y), down),
        call_ensures(M::from_camera, (&camera.optics, right, down, camera.pitch_offset), body),
        call_ensures(M::to_global, (&camera.optics, body, att), los),
    ensures
        r == los,
{
    let (right_b, down_b, body_b) = choose|right: M::Scalar, down: M::Scalar, body: M::Vector|
        sighted(
            camera.optics,
            camera.spec_lens(),
            camera.pitch_offset,
            pixel,
            att,
            right,
            down,
            body,
            r,
        );
    assert(right == right_b && down == down_b);
    assert(body == body_b);
}

/// A new camera has an image of the size asked for, with the same focal length on both axes,
/// that of its height and vertical field of view, and with its axis in the middle.
pub proof fn cameras_have_square_pixels<M: OpticsModel>(
    optics: M,
    width: M::Scalar,
    height: M::Scalar,
    vfov_rad: M::Scalar,
    pitch_offset: M::Scalar,
    r: CameraSensor<M>,
    focal: M::Scalar,
    c_x: M::Scalar,
    c_y: M::Scalar,
)
    requires
        functional::<M>(),
        call_ensures(CameraSensor::<M>::new, (optics, width, height, vfov_rad, pitch_offset), r),
        call_ensures(M::focal_length, (&optics, height, vfov_rad), focal),
        call_ensures(M::half, (&optics, width), c_x),
        call_ensures(M::half, (&optics, height), c_y),
    ensures
        r == (CameraSensor {
            width,
            height,
            f_x: focal,
            f_y: focal,
            c_x,
            c_y,
            pitch_offset,
            optics,
        }),
{
}

/// A filter that has a direction predicts it over the time since the last update at the rate
/// it knows, and corrects both by what is measured with its gains; only what is tangential of
/// the rate is kept. Without a measurement it stays with the prediction. A first measurement is
/// taken as it is, and as long as there is none nothing changes.
pub proof fn updates_predict_and_correct<M: LosModel>(
    filter: AlphaBetaLos<M>,
    measurement: Option<M::Vector>,
    dt: M::Scalar,
    next: AlphaBetaLos<M>,
    course: Correction<M>,
)
    requires
        crate::los::functional::<M>(),
        filter.updates_to(measurement, dt, next),
        filter.state().unit matches Some(unit) ==> course.follows(
            filter.model(),
            filter.alpha(),
            filter.beta(),
            unit,
            filter.state().rate,
            measurement,
            dt,
        ),
    ensures
        next.state().unit == match (filter.state().unit, measurement) {
            (Some(_), Some(_)) => Some(course.direction),
            (Some(_), None) => Some(course.predicted),
            (None, _) => measurement,
        },
        next.state().rate == match (filter.state().unit, measurement) {
            (Some(_), Some(_)) => course.tangential,
            (Some(_), None) => course.coasting,
            (None, _) => filter.state().rate,
        },
{
    updates_follow_the_correction(
        filter.model(),
        filter.alpha(),
        filter.beta(),
        filter.state(),
        measurement,
        dt,
        true,
        next.state(),
        course,
    );
}

/// A new filter has the clamped gain and the gain on the rate that belongs to it; it has seen
/// nothing and looks straight ahead.
pub proof fn new_filters_have_matching_gains<M: LosModel>(
    model: M,
    alpha: M::Scalar,
    r: AlphaBetaLos<M>,
    clamped: M::Scalar,
    beta: M::Scalar,
    forward: M::Vector,
    zero: M::Vector,
)
    requires
        crate::los::functional::<M>(),
        call_ensures(AlphaBetaLos::<M>::new, (model, alpha), r),
        call_ensures(M::clamp_gain, (&model, alpha), clamped),
        call_ensures(M::rate_gain, (&model, clamped), beta),
        call_ensures(M::forward, (&model,), forward),
        call_ensures(M::zero, (&model,), zero),
    ensures
        r.model() == model,
        r.alpha() == clamped,
        r.beta() == beta,
        r.forward() == forward,
        r.zero() == zero,
        r.state() == (LosState { unit: None, rate: zero }),
{
}

/// A call of [`AlphaBetaLos::update`] gives the direction and rate that prediction and correction
/// lead to; before the first measurement, the direction straight ahead, at rest.
pub proof fn updating_gives_the_estimate<M: LosModel>(
    filter: &mut AlphaBetaLos<M>,
    measurement: Option<M::Vector>,
    dt: M::Scalar,
    r: (M::Vector, M::Vector),
    course: Correction<M>,
)
    requires
        crate::los::functional::<M>(),
        old(filter).wf(),
        call_ensures(AlphaBetaLos::<M>::update, (filter, measurement, dt), r),
        old(filter).state().unit matches Some(unit) ==> course.follows(
            old(filter).model(),
            old(filter).alpha(),
            old(filter).beta(),
            unit,
            old(filter).state().rate,
            measurement,
            dt,
        ),
    ensures
        r == match (old(filter).state().unit, measurement) {
            (Some(_), Some(_)) => (course.direction, course.tangential),
            (Some(_), None) => (course.predicted, course.coasting),
            (None, Some(measured)) => (measured, old(filter).zero()),
            (None, None) => (old(filter).forward(), old(filter).zero()),
        },
        final(filter).model() == old(filter).model(),
        final(filter).alpha() == old(filter).alpha(),
        final(filter).beta() == old(filter).beta(),
        final(filter).forward() == old(filter).forward(),
        final(filter).zero() == old(filter).zero(),
        final(filter).state().unit == if measurement is Some || old(filter).state().unit is Some {
            Some(r.0)
        } else {
            None
        },
        final(filter).state().rate == r.1,
{
    updates_predict_and_correct(*old(filter), measurement, dt, *final(filter), course);
}

/// A call of [`AlphaBetaLos::reset`] makes the filter forget all it has seen, and nothing else.
pub proof fn resetting_forgets_the_target<M: LosModel>(filter: &mut AlphaBetaLos<M>)
    requires
        call_ensures(AlphaBetaLos::<M>::reset, (filter,), ()),
    ensures
        final(filter).model() == old(filter).model(),
        final(filter).alpha() == old(filter).alpha(),
        final(filter).beta() == old(filter).beta(),
        final(filter).forward() == old(filter).forward(),
        final(filter).zero() == old(filter).zero(),
        final(filter).state() == (LosState { unit: None, rate: old(filter).zero() }),
{
}

} // verus!
