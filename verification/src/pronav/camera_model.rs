//! The camera that the guidance sees its target with.

use vstd::prelude::*;
use crate::camera::{fit, project, sight, Lens, OpticsModel};

#[allow(unused_imports)]
use crate::camera::{
    exact_optics, exact_sighting, fitted, functional, places, projected,
    projection_is_determined, projection_is_where_the_target_is, projection_undoes_sighting, seen,
    sighted, sighting_undoes_projection, unseen, Ray,
};

verus! {

/// A camera fixed to the vehicle.
pub struct CameraModel<M: OpticsModel> {
    pub vfov_rad: M::Scalar,
    pub width: M::Scalar,
    pub height: M::Scalar,
    pub f_x: M::Scalar,
    pub f_y: M::Scalar,
    pub c_x: M::Scalar,
    pub c_y: M::Scalar,
    pub pitch_rad: M::Scalar,
    pub optics: M,
}

impl<M: OpticsModel> CameraModel<M> {
    /// The geometry of the image.
    pub open spec fn spec_lens(self) -> Lens<M::Scalar> {
        Lens {
            width: self.width,
            height: self.height,
            f_x: self.f_x,
            f_y: self.f_y,
            c_x: self.c_x,
            c_y: self.c_y,
        }
    }

    /// The camera shows a target along the global vector `los_global` at `pixel`, or nowhere.
    pub open spec fn shows(
        self,
        los_global: M::Vector,
        attitude: M::Attitude,
        pixel: Option<(M::Scalar, M::Scalar)>,
    ) -> bool {
        exists|los: M::Vector, body: M::Vector, ray: Ray<M::Scalar>|
            {
                &&& call_ensures(M::normalize, (&self.optics, los_global), los)
                &&& #[trigger] projected(
                    self.optics,
                    self.spec_lens(),
                    self.pitch_rad,
                    los,
                    attitude,
                    body,
                    ray,
                    pixel,
                )
            }
    }

    /// What the camera sees at `pixel` lies along the global vector `los`.
    pub open spec fn sights(
        self,
        pixel: (M::Scalar, M::Scalar),
        attitude: M::Attitude,
        los: M::Vector,
    ) -> bool {
        exists|right: M::Scalar, down: M::Scalar, body: M::Vector|
            sighted(
                self.optics,
                self.spec_lens(),
                self.pitch_rad,
                pixel,
                attitude,
                right,
                down,
                body,
                los,
            )
    }

    fn lens(&self) -> (lens: Lens<M::Scalar>)
        ensures
            lens == self.spec_lens(),
    {
        Lens {
            width: self.width,
            height: self.height,
            f_x: self.f_x,
            f_y: self.f_y,
            c_x: self.c_x,
            c_y: self.c_y,
        }
    }

    /// A camera with square pixels that spans `vfov_rad` vertically and is pitched up by
    /// `pitch_rad`.
    pub fn new(
        optics: M,
        width: M::Scalar,
        height: M::Scalar,
        vfov_rad: M::Scalar,
        pitch_rad: M::Scalar,
    ) -> (r: Self)
        ensures
            r.optics == optics,
            r.vfov_rad == vfov_rad,
            r.pitch_rad == pitch_rad,
            fitted(optics, width, height, vfov_rad, r.spec_lens()),
    {
        let lens = fit(&optics, width, height, vfov_rad);
        CameraModel {
            vfov_rad,
            width,
            height,
            f_x: lens.f_x,
            f_y: lens.f_y,
            c_x: lens.c_x,
            c_y: lens.c_y,
            pitch_rad,
            optics,
        }
    }

    /// Emulates the camera sensor, returning the pixel coordinates `(u, v)` if the target is
    /// in view.
    pub fn project_to_pixel(&self, los_global: M::Vector, attitude: M::Attitude) -> (r: Option<
        (M::Scalar, M::Scalar),
    >)
        ensures
            self.shows(los_global, attitude, r),
    {
        let los = self.optics.normalize(los_global);
        project(&self.optics, self.lens(), self.pitch_rad, los, attitude)
    }

    /// Converts a pixel measurement back to a global line-of-sight vector.
    pub fn pixel_to_global(&self, pixel: (M::Scalar, M::Scalar), att: M::Attitude) -> (r: M::Vector)
        ensures
            self.sights(pixel, att, r),
    {
        sight(&self.optics, self.lens(), self.pitch_rad, pixel, att)
    }
}

/// But for rounding, the line of sight of the pixel at which the camera shows a target is the
/// direction to that target.
pub proof fn pixel_leads_back_to_the_target<M: OpticsModel>(
    camera: CameraModel<M>,
    ratio: spec_fn(M::Scalar, M::Scalar) -> M::Scalar,
    direction: spec_fn(M::Vector) -> M::Vector,
    target: M::Vector,
    attitude: M::Attitude,
    pixel: (M::Scalar, M::Scalar),
    los: M::Vector,
)
    requires
        exact_optics(
            camera.optics,
            camera.spec_lens(),
            camera.pitch_rad,
            attitude,
            ratio,
            direction,
        ),
        forall|unit: M::Vector| #[trigger]
            call_ensures(M::normalize, (&camera.optics, target), unit) ==> direction(unit)
                == direction(target),
        camera.shows(target, attitude, Some(pixel)),
        camera.sights(pixel, attitude, los),
    ensures
        los == direction(target),
{
    let (unit, body, ray) = choose|unit: M::Vector, body: M::Vector, ray: Ray<M::Scalar>|
        {
            &&& call_ensures(M::normalize, (&camera.optics, target), unit)
            &&& #[trigger] projected(
                camera.optics,
                camera.spec_lens(),
                camera.pitch_rad,
                unit,
                attitude,
                body,
                ray,
                Some(pixel),
            )
        };
    sighting_undoes_projection(
        camera.optics,
        ratio,
        direction,
        camera.spec_lens(),
        camera.pitch_rad,
        unit,
        attitude,
        pixel,
        los,
    );
}

/// But for rounding, a target along the line of sight of a pixel inside of the image is shown
/// at that pixel.
pub proof fn line_of_sight_leads_back_to_the_pixel<M: OpticsModel>(
    camera: CameraModel<M>,
    ratio: spec_fn(M::Scalar, M::Scalar) -> M::Scalar,
    attitude: M::Attitude,
    pixel: (M::Scalar, M::Scalar),
    los: M::Vector,
    r: Option<(M::Scalar, M::Scalar)>,
)
    requires
        exact_sighting(camera.optics, camera.spec_lens(), camera.pitch_rad, attitude, ratio),
        !unseen(camera.optics, pixel.0, camera.width),
        !unseen(camera.optics, pixel.1, camera.height),
        camera.sights(pixel, attitude, los),
        forall|unit: M::Vector| #[trigger]
            call_ensures(M::normalize, (&camera.optics, los), unit) ==> unit == los,
        camera.shows(los, attitude, r),
    ensures
        r == Some(pixel),
{
    projection_undoes_sighting(
        camera.optics,
        ratio,
        camera.spec_lens(),
        camera.pitch_rad,
        attitude,
        pixel,
        los,
        r,
    );
}

/// A pixel at which the camera shows a target lies in the image.
pub proof fn targets_are_shown_in_the_image<M: OpticsModel>(
    camera: CameraModel<M>,
    target: M::Vector,
    attitude: M::Attitude,
    pixel: (M::Scalar, M::Scalar),
)
    requires
        camera.shows(target, attitude, Some(pixel)),
    ensures
        seen(camera.optics, pixel.0, camera.width),
        seen(camera.optics, pixel.1, camera.height),
{
}

/// Where the formulas are functions, the camera shows a target at one place only.
pub proof fn camera_shows_one_pixel<M: OpticsModel>(
    camera: CameraModel<M>,
    los_global: M::Vector,
    attitude: M::Attitude,
    a: Option<(M::Scalar, M::Scalar)>,
    b: Option<(M::Scalar, M::Scalar)>,
)
    requires
        functional::<M>(),
        camera.shows(los_global, attitude, a),
        camera.shows(los_global, attitude, b),
    ensures
        a == b,
{
    let (los_a, body_a, ray_a) = choose|los: M::Vector, body: M::Vector, ray: Ray<M::Scalar>|
        {
            &&& call_ensures(M::normalize, (&camera.optics, los_global), los)
            &&& #[trigger] projected(
                camera.optics,
                camera.spec_lens(),
                camera.pitch_rad,
                los,
                attitude,
                body,
                ray,
                a,
            )
        };
    let (los_b, body_b, ray_b) = choose|los: M::Vector, body: M::Vector, ray: Ray<M::Scalar>|
        {
            &&& call_ensures(M::normalize, (&camera.optics, los_global), los)
            &&& #[trigger] projected(
                camera.optics,
                camera.spec_lens(),
                camera.pitch_rad,
                los,
                attitude,
                body,
                ray,
                b,
            )
        };
    assert(los_a == los_b);
    projection_is_determined(
        camera.optics,
        camera.spec_lens(),
        camera.pitch_rad,
        los_a,
        attitude,
        body_a,
        ray_a,
        a,
        body_b,
        ray_b,
        b,
    );
}

/// Where the formulas are functions, a pixel has one line of sight only.
pub proof fn camera_sights_one_line<M: OpticsModel>(
    camera: CameraModel<M>,
    pixel: (M::Scalar, M::Scalar),
    attitude: M::Attitude,
    a: M::Vector,
    b: M::Vector,
)
    requires
        functional::<M>(),
        camera.sights(pixel, attitude, a),
        camera.sights(pixel, attitude, b),
    ensures
        a == b,
{
    let (right_a, down_a, body_a) = choose|right: M::Scalar, down: M::Scalar, body: M::Vector|
        sighted(
            camera.optics,
            camera.spec_lens(),
            camera.pitch_rad,
            pixel,
            attitude,
            right,
            down,
            body,
            a,
        );
    let (right_b, down_b, body_b) = choose|right: M::Scalar, down: M::Scalar, body: M::Vector|
        sighted(
            camera.optics,
            camera.spec_lens(),
            camera.pitch_rad,
            pixel,
            attitude,
            right,
            down,
            body,
            b,
        );
    assert(right_a == right_b);
    assert(down_a == down_b);
    assert(body_a == body_b);
}

/// The camera shows a target exactly where the target is in front of it and both coordinates
/// of its pixel lie in the image: neither negative nor beyond the last. `unit`, `body` and
/// `ray` are the direction to the target in global axes, in those of the body and in those of
/// the camera.
pub proof fn targets_are_shown_where_they_are<M: OpticsModel>(
    camera: CameraModel<M>,
    los_global: M::Vector,
    attitude: M::Attitude,
    r: Option<(M::Scalar, M::Scalar)>,
    unit: M::Vector,
    body: M::Vector,
    ray: Ray<M::Scalar>,
    u: M::Scalar,
    v: M::Scalar,
    behind: bool,
    inside: bool,
)
    requires
        functional::<M>(),
        call_ensures(
            CameraModel::<M>::project_to_pixel,
            (&camera, los_global, attitude),
            r,
        ),
        call_ensures(M::normalize, (&camera.optics, los_global), unit),
        call_ensures(M::to_body, (&camera.optics, unit, attitude), body),
        call_ensures(M::to_camera, (&camera.optics, body, camera.pitch_rad), ray),
        call_ensures(M::is_behind, (&camera.optics, ray.depth), behind),
        call_ensures(
            M::to_pixel,
            (&camera.optics, ray.right, ray.depth, camera.f_x, camera.c_x),
            u,
        ),
        call_ensures(
            M::to_pixel,
            (&camera.optics, ray.down, ray.depth, camera.f_y, camera.c_y),
            v,
        ),
        places(camera.optics, u, v, camera.width, camera.height, inside),
    ensures
        r == if !behind && inside {
            Some((u, v))
        } else {
            None
        },
{
    let (los_a, body_a, ray_a) = choose|los: M::Vector, body: M::Vector, ray: Ray<M::Scalar>|
        {
            &&& call_ensures(M::normalize, (&camera.optics, los_global), los)
            &&& #[trigger] projected(
                camera.optics,
                camera.spec_lens(),
                camera.pitch_rad,
                los,
                attitude,
                body,
                ray,
                r,
            )
        };
    projection_is_where_the_target_is(
        camera.optics,
        camera.spec_lens(),
        camera.pitch_rad,
        los_a,
        attitude,
        body_a,
        ray_a,
        r,
        body,
        ray,
        u,
        v,
        behind,
        inside,
    );
}

/// The line of sight of a pixel is the global direction of the point at unit depth that is off
/// the axis as far as the pixel is off the middle of the image, on both axes.
pub proof fn pixels_are_sighted_off_the_middle<M: OpticsModel>(
    camera: CameraModel<M>,
    pixel: (M::Scalar, M::Scalar),
    attitude: M::Attitude,
    r: M::Vector,
    right: M::Scalar,
    down: M::Scalar,
    body: M::Vector,
    los: M::Vector,
)
    requires
        functional::<M>(),
        call_ensures(CameraModel::<M>::pixel_to_global, (&camera, pixel, attitude), r),
        call_ensures(M::from_pixel, (&camera.optics, pixel.0, camera.f_x, camera.c_x), right),
        call_ensures(M::from_pixel, (&camera.optics, pixel.1, camera.f_y, camera.c_y), down),
        call_ensures(M::from_camera, (&camera.optics, right, down, camera.pitch_rad), body),
        call_ensures(M::to_global, (&camera.optics, body, attitude), los),
    ensures
        r == los,
{
    let (right_b, down_b, body_b) = choose|right: M::Scalar, down: M::Scalar, body: M::Vector|
        sighted(
            camera.optics,
            camera.spec_lens(),
            camera.pitch_rad,
            pixel,
            attitude,
            right,
            down,
            body,
            r,
        );
    assert(right == right_b && down == down_b);
    assert(body == body_b);
}

/// A new camera has an image of the size asked for, with the same focal length on both axes,
/// that of its height and vertical field of view, and with its axis in the middle.
pub proof fn cameras_have_square_pixels<M: OpticsModel>(
    optics: M,
    width: M::Scalar,
    height: M::Scalar,
    vfov_rad: M::Scalar,
    pitch_rad: M::Scalar,
    r: CameraModel<M>,
    focal: M::Scalar,
    c_x: M::Scalar,
    c_y: M::Scalar,
)
    requires
        functional::<M>(),
        call_ensures(CameraModel::<M>::new, (optics, width, height, vfov_rad, pitch_rad), r),
        call_ensures(M::focal_length, (&optics, height, vfov_rad), focal),
        call_ensures(M::half, (&optics, width), c_x),
        call_ensures(M::half, (&optics, height), c_y),
    ensures
        r == (CameraModel {
            vfov_rad,
            width,
            height,
            f_x: focal,
            f_y: focal,
            c_x,
            c_y,
            pitch_rad,
            optics,
        }),
{
}

} // verus!
