//! Pinhole cameras fixed to the body of a vehicle.
//!
//! Body axes point forward, right and down; the camera is pitched up from the forward
//! axis.

use vstd::prelude::*;

#[allow(unused_imports)]
use crate::functional::{function2, function3, function4, function5};

verus! {

/// The formulas of a pinhole camera.
pub trait OpticsModel {
    type Scalar: Copy;

    type Vector: Copy;

    type Attitude: Copy;

    /// The focal length, in pixels, of an image `height` pixels high that spans the angle
    /// `vfov_rad`.
    fn focal_length(&self, height: Self::Scalar, vfov_rad: Self::Scalar) -> Self::Scalar;

    /// Half of `x`.
    fn half(&self, x: Self::Scalar) -> Self::Scalar;

    /// The vector to `to` from `from`.
    fn difference(&self, to: Self::Vector, from: Self::Vector) -> Self::Vector;

    /// `v`, scaled to unit length.
    fn normalize(&self, v: Self::Vector) -> Self::Vector;

    /// The global vector `v` in the axes of a body with the given attitude.
    fn to_body(&self, v: Self::Vector, attitude: Self::Attitude) -> Self::Vector;

    /// The body vector `v` in global axes.
    fn to_global(&self, v: Self::Vector, attitude: Self::Attitude) -> Self::Vector;

    /// How far the body vector `v` reaches along, right of and below the axis of a camera
    /// pitched up by `pitch`.
    fn to_camera(&self, v: Self::Vector, pitch: Self::Scalar) -> Ray<Self::Scalar>;

    /// The unit body vector of a point `right` of and `down` from the axis of a camera
    /// pitched up by `pitch`, at unit depth.
    fn from_camera(
        &self,
        right: Self::Scalar,
        down: Self::Scalar,
        pitch: Self::Scalar,
    ) -> Self::Vector;

    /// Whether a point at `depth` is not in front of the camera.
    fn is_behind(&self, depth: Self::Scalar) -> bool;

    /// The pixel coordinate of a point `offset` off the axis at `depth`.
    fn to_pixel(
        &self,
        offset: Self::Scalar,
        depth: Self::Scalar,
        focal: Self::Scalar,
        center: Self::Scalar,
    ) -> Self::Scalar;

    /// How far off the axis a point at unit depth lies whose pixel coordinate is `pixel`.
    fn from_pixel(
        &self,
        pixel: Self::Scalar,
        focal: Self::Scalar,
        center: Self::Scalar,
    ) -> Self::Scalar;

    /// Whether `x` is below zero.
    fn is_negative(&self, x: Self::Scalar) -> bool;

    /// Whether `x` is above `limit`.
    fn exceeds(&self, x: Self::Scalar, limit: Self::Scalar) -> bool;
}

/// All formulas are functions.
pub open spec fn functional<M: OpticsModel>() -> bool {
    &&& function3(M::focal_length)
    &&& function2(M::half)
    &&& function3(M::difference)
    &&& function2(M::normalize)
    &&& function3(M::to_body)
    &&& function3(M::to_global)
    &&& function3(M::to_camera)
    &&& function4(M::from_camera)
    &&& function2(M::is_behind)
    &&& function5(M::to_pixel)
    &&& function4(M::from_pixel)
    &&& function2(M::is_negative)
    &&& function3(M::exceeds)
}

/// A vector in the axes of a camera.
#[derive(Clone, Copy, Debug)]
pub struct Ray<S> {
    pub depth: S,
    pub right: S,
    pub down: S,
}

/// The geometry of an image.
#[derive(Clone, Copy, Debug)]
pub struct Lens<S> {
    pub width: S,
    pub height: S,
    pub f_x: S,
    pub f_y: S,
    pub c_x: S,
    pub c_y: S,
}

/// `lens` belongs to an image of the given size that spans `vfov_rad` vertically, with
/// square pixels and the axis in its middle.
pub open spec fn fitted<M: OpticsModel>(
    model: M,
    width: M::Scalar,
    height: M::Scalar,
    vfov_rad: M::Scalar,
    lens: Lens<M::Scalar>,
) -> bool {
    &&& lens.width == width
    &&& lens.height == height
    &&& call_ensures(M::focal_length, (&model, height, vfov_rad), lens.f_y)
    &&& lens.f_x == lens.f_y
    &&& call_ensures(M::half, (&model, width), lens.c_x)
    &&& call_ensures(M::half, (&model, height), lens.c_y)
}

/// Coordinate `x` lies in the image, whose last one is `limit`.
pub open spec fn seen<M: OpticsModel>(model: M, x: M::Scalar, limit: M::Scalar) -> bool {
    &&& call_ensures(M::is_negative, (&model, x), false)
    &&& call_ensures(M::exceeds, (&model, x, limit), false)
}

/// Coordinate `x` lies outside of the image, whose last one is `limit`.
pub open spec fn unseen<M: OpticsModel>(model: M, x: M::Scalar, limit: M::Scalar) -> bool {
    ||| call_ensures(M::is_negative, (&model, x), true)
    ||| call_ensures(M::exceeds, (&model, x, limit), true)
}

/// A camera with `lens` maps `ray`, which is in front of it, to the pixel `(u, v)`.
pub open spec fn imaged<M: OpticsModel>(
    model: M,
    lens: Lens<M::Scalar>,
    ray: Ray<M::Scalar>,
    u: M::Scalar,
    v: M::Scalar,
) -> bool {
    &&& call_ensures(M::is_behind, (&model, ray.depth), false)
    &&& call_ensures(M::to_pixel, (&model, ray.right, ray.depth, lens.f_x, lens.c_x), u)
    &&& call_ensures(M::to_pixel, (&model, ray.down, ray.depth, lens.f_y, lens.c_y), v)
}

/// `pixel` is where a camera with `lens` sees what lies along `ray`: nowhere, if that is
/// behind it or outside of the image.
pub open spec fn pictured<M: OpticsModel>(
    model: M,
    lens: Lens<M::Scalar>,
    ray: Ray<M::Scalar>,
    pixel: Option<(M::Scalar, M::Scalar)>,
) -> bool {
    match pixel {
        Some((u, v)) => {
            &&& imaged(model, lens, ray, u, v)
            &&& seen(model, u, lens.width)
            &&& seen(model, v, lens.height)
        },
        None => {
            ||| call_ensures(M::is_behind, (&model, ray.depth), true)
            ||| exists|u: M::Scalar, v: M::Scalar|
                {
                    &&& #[trigger] imaged(model, lens, ray, u, v)
                    &&& unseen(model, u, lens.width) || unseen(model, v, lens.height)
                }
        },
    }
}

/// `pixel` is where a camera with `lens`, pitched up by `pitch`, sees a target whose line
/// of sight is the global vector `los`: `body` and `ray` are that vector in the axes of
/// the body and of the camera.
pub open spec fn projected<M: OpticsModel>(
    model: M,
    lens: Lens<M::Scalar>,
    pitch: M::Scalar,
    los: M::Vector,
    attitude: M::Attitude,
    body: M::Vector,
    ray: Ray<M::Scalar>,
    pixel: Option<(M::Scalar, M::Scalar)>,
) -> bool {
    &&& call_ensures(M::to_body, (&model, los, attitude), body)
    &&& call_ensures(M::to_camera, (&model, body, pitch), ray)
    &&& pictured(model, lens, ray, pixel)
}

/// `los` is the global line of sight of what a camera sees at `pixel`: `right` and `down`
/// are its offsets from the axis at unit depth, `body` is the vector in body axes.
pub open spec fn sighted<M: OpticsModel>(
    model: M,
    lens: Lens<M::Scalar>,
    pitch: M::Scalar,
    pixel: (M::Scalar, M::Scalar),
    attitude: M::Attitude,
    right: M::Scalar,
    down: M::Scalar,
    body: M::Vector,
    los: M::Vector,
) -> bool {
    &&& call_ensures(M::from_pixel, (&model, pixel.0, lens.f_x, lens.c_x), right)
    &&& call_ensures(M::from_pixel, (&model, pixel.1, lens.f_y, lens.c_y), down)
    &&& call_ensures(M::from_camera, (&model, right, down, pitch), body)
    &&& call_ensures(M::to_global, (&model, body, attitude), los)
}

/// The geometry of an image of the given size that spans `vfov_rad` vertically.
pub fn fit<M: OpticsModel>(
    model: &M,
    width: M::Scalar,
    height: M::Scalar,
    vfov_rad: M::Scalar,
) -> (lens: Lens<M::Scalar>)
    ensures
        fitted(*model, width, height, vfov_rad, lens),
{
    let f_y = model.focal_length(height, vfov_rad);
    Lens { width, height, f_x: f_y, f_y, c_x: model.half(width), c_y: model.half(height) }
}

/// Where a camera sees a target along the global vector `los`, if it does.
pub fn project<M: OpticsModel>(
    model: &M,
    lens: Lens<M::Scalar>,
    pitch: M::Scalar,
    los: M::Vector,
    attitude: M::Attitude,
) -> (pixel: Option<(M::Scalar, M::Scalar)>)
    ensures
        exists|body: M::Vector, ray: Ray<M::Scalar>|
            projected(*model, lens, pitch, los, attitude, body, ray, pixel),
{
    let body = model.to_body(los, attitude);
    let ray = model.to_camera(body, pitch);
    if model.is_behind(ray.depth) {
        let pixel = None;
        assert(projected(*model, lens, pitch, los, attitude, body, ray, pixel));
        return pixel;
    }
    let u = model.to_pixel(ray.right, ray.depth, lens.f_x, lens.c_x);
    let v = model.to_pixel(ray.down, ray.depth, lens.f_y, lens.c_y);
    assert(imaged(*model, lens, ray, u, v));
    let pixel = if model.is_negative(u) || model.exceeds(u, lens.width) || model.is_negative(v)
        || model.exceeds(v, lens.height) {
        None
    } else {
        Some((u, v))
    };
    assert(projected(*model, lens, pitch, los, attitude, body, ray, pixel));
    pixel
}

/// The global line of sight of what a camera sees at `pixel`.
pub fn sight<M: OpticsModel>(
    model: &M,
    lens: Lens<M::Scalar>,
    pitch: M::Scalar,
    pixel: (M::Scalar, M::Scalar),
    attitude: M::Attitude,
) -> (los: M::Vector)
    ensures
        exists|right: M::Scalar, down: M::Scalar, body: M::Vector|
            sighted(*model, lens, pitch, pixel, attitude, right, down, body, los),
{
    let right = model.from_pixel(pixel.0, lens.f_x, lens.c_x);
    let down = model.from_pixel(pixel.1, lens.f_y, lens.c_y);
    let body = model.from_camera(right, down, pitch);
    let los = model.to_global(body, attitude);
    assert(sighted(*model, lens, pitch, pixel, attitude, right, down, body, los));
    los
}

/// Where the formulas are functions, a camera shows a target at one place only.
pub proof fn projection_is_determined<M: OpticsModel>(
    model: M,
    lens: Lens<M::Scalar>,
    pitch: M::Scalar,
    los: M::Vector,
    attitude: M::Attitude,
    body_a: M::Vector,
    ray_a: Ray<M::Scalar>,
    a: Option<(M::Scalar, M::Scalar)>,
    body_b: M::Vector,
    ray_b: Ray<M::Scalar>,
    b: Option<(M::Scalar, M::Scalar)>,
)
    requires
        functional::<M>(),
        projected(model, lens, pitch, los, attitude, body_a, ray_a, a),
        projected(model, lens, pitch, los, attitude, body_b, ray_b, b),
    ensures
        a == b,
{
    assert(body_a == body_b);
    assert(ray_a == ray_b);
    picture_is_determined(model, lens, ray_a, a, b);
}

/// Where the formulas are functions, a ray is shown at one place only.
proof fn picture_is_determined<M: OpticsModel>(
    model: M,
    lens: Lens<M::Scalar>,
    ray: Ray<M::Scalar>,
    a: Option<(M::Scalar, M::Scalar)>,
    b: Option<(M::Scalar, M::Scalar)>,
)
    requires
        functional::<M>(),
        pictured(model, lens, ray, a),
        pictured(model, lens, ray, b),
    ensures
        a == b,
{
}

/// Reading a pixel coordinate undoes its projection, but for the depth, which `ratio` divides
/// out.
pub open spec fn reading_undoes_imaging<M: OpticsModel>(
    model: M,
    focal: M::Scalar,
    center: M::Scalar,
    ratio: spec_fn(M::Scalar, M::Scalar) -> M::Scalar,
) -> bool {
    forall|offset: M::Scalar, depth: M::Scalar, pixel: M::Scalar, r: M::Scalar|
        #[trigger] call_ensures(M::to_pixel, (&model, offset, depth, focal, center), pixel)
            && #[trigger] call_ensures(M::from_pixel, (&model, pixel, focal, center), r)
            && call_ensures(M::is_behind, (&model, depth), false) ==> r == ratio(offset, depth)
}

/// The formulas of a camera with `lens`, pitched up by `pitch`, on a body with the given
/// attitude are free of rounding: reading a pixel undoes the projection up to the depth, and
/// turning to another set of axes and back gives the `direction` of a vector.
pub open spec fn exact_optics<M: OpticsModel>(
    model: M,
    lens: Lens<M::Scalar>,
    pitch: M::Scalar,
    attitude: M::Attitude,
    ratio: spec_fn(M::Scalar, M::Scalar) -> M::Scalar,
    direction: spec_fn(M::Vector) -> M::Vector,
) -> bool {
    &&& reading_undoes_imaging(model, lens.f_x, lens.c_x, ratio)
    &&& reading_undoes_imaging(model, lens.f_y, lens.c_y, ratio)
    &&& forall|v: M::Vector, ray: Ray<M::Scalar>, r: M::Vector|
        #[trigger] call_ensures(M::to_camera, (&model, v, pitch), ray) && #[trigger] call_ensures(
            M::from_camera,
            (&model, ratio(ray.right, ray.depth), ratio(ray.down, ray.depth), pitch),
            r,
        ) && call_ensures(M::is_behind, (&model, ray.depth), false) ==> r == direction(v)
    &&& forall|v: M::Vector, body: M::Vector, r: M::Vector|
        #[trigger] call_ensures(M::to_body, (&model, v, attitude), body)
            && #[trigger] call_ensures(M::to_global, (&model, direction(body), attitude), r)
            ==> r == direction(v)
}

/// Sighting undoes projection: but for rounding, the line of sight of the pixel at which a
/// camera shows a target is the direction to that target.
pub proof fn sighting_undoes_projection<M: OpticsModel>(
    model: M,
    ratio: spec_fn(M::Scalar, M::Scalar) -> M::Scalar,
    direction: spec_fn(M::Vector) -> M::Vector,
    lens: Lens<M::Scalar>,
    pitch: M::Scalar,
    target: M::Vector,
    attitude: M::Attitude,
    pixel: (M::Scalar, M::Scalar),
    los: M::Vector,
)
    requires
        exact_optics(model, lens, pitch, attitude, ratio, direction),
        exists|body: M::Vector, ray: Ray<M::Scalar>|
            projected(model, lens, pitch, target, attitude, body, ray, Some(pixel)),
        exists|right: M::Scalar, down: M::Scalar, body: M::Vector|
            sighted(model, lens, pitch, pixel, attitude, right, down, body, los),
    ensures
        los == direction(target),
{
    let (body, ray) = choose|body: M::Vector, ray: Ray<M::Scalar>|
        projected(model, lens, pitch, target, attitude, body, ray, Some(pixel));
    let (right, down, seen) = choose|right: M::Scalar, down: M::Scalar, seen: M::Vector|
        sighted(model, lens, pitch, pixel, attitude, right, down, seen, los);
    assert(imaged(model, lens, ray, pixel.0, pixel.1));
    assert(right == ratio(ray.right, ray.depth));
    assert(down == ratio(ray.down, ray.depth));
    assert(seen == direction(body));
}

/// Projection undoes the reading of a pixel coordinate.
pub open spec fn imaging_undoes_reading<M: OpticsModel>(
    model: M,
    focal: M::Scalar,
    center: M::Scalar,
    ratio: spec_fn(M::Scalar, M::Scalar) -> M::Scalar,
) -> bool {
    forall|pixel: M::Scalar, offset: M::Scalar, depth: M::Scalar, back: M::Scalar|
        #[trigger] call_ensures(M::to_pixel, (&model, offset, depth, focal, center), back)
            && #[trigger] call_ensures(
            M::from_pixel,
            (&model, pixel, focal, center),
            ratio(offset, depth),
        ) && call_ensures(M::is_behind, (&model, depth), false) ==> back == pixel
}

/// The formulas of a camera with `lens`, pitched up by `pitch`, on a body with the given
/// attitude are free of rounding in the other direction: a point off the axis lies in front
/// of the camera, at the offsets it was made from; its pixel is the one that was read; and
/// turning to global axes and back changes nothing.
pub open spec fn exact_sighting<M: OpticsModel>(
    model: M,
    lens: Lens<M::Scalar>,
    pitch: M::Scalar,
    attitude: M::Attitude,
    ratio: spec_fn(M::Scalar, M::Scalar) -> M::Scalar,
) -> bool {
    &&& imaging_undoes_reading(model, lens.f_x, lens.c_x, ratio)
    &&& imaging_undoes_reading(model, lens.f_y, lens.c_y, ratio)
    &&& forall|right: M::Scalar, down: M::Scalar, body: M::Vector, ray: Ray<M::Scalar>|
        #[trigger] call_ensures(M::from_camera, (&model, right, down, pitch), body)
            && #[trigger] call_ensures(M::to_camera, (&model, body, pitch), ray) ==> {
            &&& !call_ensures(M::is_behind, (&model, ray.depth), true)
            &&& ratio(ray.right, ray.depth) == right
            &&& ratio(ray.down, ray.depth) == down
        }
    &&& forall|body: M::Vector, los: M::Vector, back: M::Vector|
        #[trigger] call_ensures(M::to_global, (&model, body, attitude), los)
            && #[trigger] call_ensures(M::to_body, (&model, los, attitude), back) ==> back == body
}

/// Projection undoes sighting: but for rounding, a target along the line of sight of a pixel
/// inside of the image is shown at that pixel.
pub proof fn projection_undoes_sighting<M: OpticsModel>(
    model: M,
    ratio: spec_fn(M::Scalar, M::Scalar) -> M::Scalar,
    lens: Lens<M::Scalar>,
    pitch: M::Scalar,
    attitude: M::Attitude,
    pixel: (M::Scalar, M::Scalar),
    los: M::Vector,
    r: Option<(M::Scalar, M::Scalar)>,
)
    requires
        exact_sighting(model, lens, pitch, attitude, ratio),
        !unseen(model, pixel.0, lens.width),
        !unseen(model, pixel.1, lens.height),
        exists|right: M::Scalar, down: M::Scalar, body: M::Vector|
            sighted(model, lens, pitch, pixel, attitude, right, down, body, los),
        exists|body: M::Vector, ray: Ray<M::Scalar>|
            projected(model, lens, pitch, los, attitude, body, ray, r),
    ensures
        r == Some(pixel),
{
    let (right, down, body) = choose|right: M::Scalar, down: M::Scalar, body: M::Vector|
        sighted(model, lens, pitch, pixel, attitude, right, down, body, los);
    let (back, ray) = choose|back: M::Vector, ray: Ray<M::Scalar>|
        projected(model, lens, pitch, los, attitude, back, ray, r);
    assert(back == body);
    assert(right == ratio(ray.right, ray.depth));
    assert(down == ratio(ray.down, ray.depth));
    assert forall|u: M::Scalar, v: M::Scalar| #[trigger] imaged(model, lens, ray, u, v) implies u
        == pixel.0 && v == pixel.1 by {
    }
}

/// `inside` tells whether the pixel `(u, v)` is neither left of nor above an image of the given
/// size, nor right of nor below it.
pub open spec fn places<M: OpticsModel>(
    model: M,
    u: M::Scalar,
    v: M::Scalar,
    width: M::Scalar,
    height: M::Scalar,
    inside: bool,
) -> bool {
    if inside {
        &&& call_ensures(M::is_negative, (&model, u), false)
        &&& call_ensures(M::is_negative, (&model, v), false)
        &&& call_ensures(M::exceeds, (&model, u, width), false)
        &&& call_ensures(M::exceeds, (&model, v, height), false)
    } else {
        ||| call_ensures(M::is_negative, (&model, u), true)
        ||| call_ensures(M::is_negative, (&model, v), true)
        ||| call_ensures(M::exceeds, (&model, u, width), true)
        ||| call_ensures(M::exceeds, (&model, v, height), true)
    }
}

/// A camera shows a target exactly where the target is in front of it and both coordinates of
/// its pixel lie in the image.
pub proof fn projection_is_where_the_target_is<M: OpticsModel>(
    model: M,
    lens: Lens<M::Scalar>,
    pitch: M::Scalar,
    los: M::Vector,
    attitude: M::Attitude,
    body_a: M::Vector,
    ray_a: Ray<M::Scalar>,
    r: Option<(M::Scalar, M::Scalar)>,
    body: M::Vector,
    ray: Ray<M::Scalar>,
    u: M::Scalar,
    v: M::Scalar,
    behind: bool,
    inside: bool,
)
    requires
        functional::<M>(),
        projected(model, lens, pitch, los, attitude, body_a, ray_a, r),
        call_ensures(M::to_body, (&model, los, attitude), body),
        call_ensures(M::to_camera, (&model, body, pitch), ray),
        call_ensures(M::is_behind, (&model, ray.depth), behind),
        call_ensures(M::to_pixel, (&model, ray.right, ray.depth, lens.f_x, lens.c_x), u),
        call_ensures(M::to_pixel, (&model, ray.down, ray.depth, lens.f_y, lens.c_y), v),
        places(model, u, v, lens.width, lens.height, inside),
    ensures
        r == if !behind && inside {
            Some((u, v))
        } else {
            None
        },
{
    assert(body_a == body);
    assert(ray_a == ray);
    if !behind && !(exists|x: M::Scalar, y: M::Scalar| imaged(model, lens, ray, x, y)) {
        assert(imaged(model, lens, ray, u, v));
    }
}

} // verus!
