//! Cameras.

use std_test_device::camera::{OpticsModel, Ray};
use std_test_device::los_estimator::CameraSensor;
use std_test_device::pronav::CameraModel;

/// Exact optics on whole numbers: attitudes are quarter turns about the down axis, pitch
/// moves what is below the axis, and vectors keep their length.
struct Quarters;

type Vector = (i64, i64, i64);

fn turned(v: Vector, quarters: i64) -> Vector {
    match quarters.rem_euclid(4) {
        0 => v,
        1 => (-v.1, v.0, v.2),
        2 => (-v.0, -v.1, v.2),
        _ => (v.1, -v.0, v.2),
    }
}

impl OpticsModel for Quarters {
    type Scalar = i64;
    type Vector = Vector;
    type Attitude = i64;

    fn focal_length(&self, height: i64, vfov_rad: i64) -> i64 {
        height * vfov_rad
    }

    fn half(&self, x: i64) -> i64 {
        x / 2
    }

    fn difference(&self, to: Vector, from: Vector) -> Vector {
        (to.0 - from.0, to.1 - from.1, to.2 - from.2)
    }

    /// Scaled to unit depth.
    fn normalize(&self, v: Vector) -> Vector {
        let length = v.0.abs().max(v.1.abs());
        (v.0 / length, v.1 / length, v.2 / length)
    }

    fn to_body(&self, v: Vector, attitude: i64) -> Vector {
        turned(v, -attitude)
    }

    fn to_global(&self, v: Vector, attitude: i64) -> Vector {
        turned(v, attitude)
    }

    fn to_camera(&self, v: Vector, pitch: i64) -> Ray<i64> {
        Ray { depth: v.0, right: v.1, down: v.2 + pitch * v.0 }
    }

    fn from_camera(&self, right: i64, down: i64, pitch: i64) -> Vector {
        (1, right, down - pitch)
    }

    fn is_behind(&self, depth: i64) -> bool {
        depth <= 0
    }

    fn to_pixel(&self, offset: i64, depth: i64, focal: i64, center: i64) -> i64 {
        focal * offset / depth + center
    }

    fn from_pixel(&self, pixel: i64, focal: i64, center: i64) -> i64 {
        (pixel - center) / focal
    }

    fn is_negative(&self, x: i64) -> bool {
        x < 0
    }

    fn exceeds(&self, x: i64, limit: i64) -> bool {
        x > limit
    }
}

fn sensor() -> CameraSensor<Quarters> {
    CameraSensor::new(Quarters, 1440, 1080, 0, 1)
}

fn model() -> CameraModel<Quarters> {
    let mut camera = CameraModel::new(Quarters, 1440, 1080, 1, 1);
    camera.f_x = 100;
    camera.f_y = 100;
    camera
}

#[test]
fn axis_is_in_the_middle_of_the_image() {
    let camera = CameraSensor::new(Quarters, 1440, 1080, 3, 7);
    assert_eq!((camera.width, camera.height), (1440, 1080));
    assert_eq!((camera.c_x, camera.c_y), (720, 540));
    assert_eq!((camera.f_x, camera.f_y), (3240, 3240));
    assert_eq!(camera.pitch_offset, 7);
}

#[test]
fn camera_of_the_guidance_has_the_same_geometry() {
    let camera = CameraModel::new(Quarters, 1440, 1080, 3, 7);
    assert_eq!((camera.width, camera.height), (1440, 1080));
    assert_eq!((camera.c_x, camera.c_y), (720, 540));
    assert_eq!((camera.f_x, camera.f_y), (3240, 3240));
    assert_eq!((camera.vfov_rad, camera.pitch_rad), (3, 7));
}

#[test]
fn sensor_shows_a_target_in_front_of_it() {
    let mut camera = sensor();
    camera.f_x = 100;
    camera.f_y = 100;
    // Ten ahead, twenty to the right and fifteen down from the camera, which is pitched up.
    assert_eq!(camera.project_to_pixel((12, 25, 20), (2, 5, 5), 0), Some((920, 790)));
}

#[test]
fn sensor_turns_with_the_body() {
    let mut camera = sensor();
    camera.f_x = 100;
    camera.f_y = 100;
    assert_eq!(camera.project_to_pixel((-20, 10, 15), (0, 0, 0), 1), Some((920, 790)));
}

#[test]
fn targets_behind_the_camera_are_not_seen() {
    let camera = model();
    assert_eq!(camera.project_to_pixel((-10, 1, 1), 0), None);
    assert_eq!(camera.project_to_pixel((0, 10, 0), 0), None);
    assert_eq!(sensor().project_to_pixel((-10, 0, 0), (0, 0, 0), 0), None);
}

#[test]
fn edges_of_the_image_belong_to_it() {
    let mut camera = sensor();
    camera.pitch_offset = 0;
    camera.f_x = 1;
    camera.f_y = 1;
    let seen = |right: i64, down: i64| camera.project_to_pixel((1, right, down), (0, 0, 0), 0);
    assert_eq!(seen(-720, 0), Some((0, 540)));
    assert_eq!(seen(-721, 0), None);
    assert_eq!(seen(720, 0), Some((1440, 540)));
    assert_eq!(seen(721, 0), None);
    assert_eq!(seen(0, -540), Some((720, 0)));
    assert_eq!(seen(0, -541), None);
    assert_eq!(seen(0, 540), Some((720, 1080)));
    assert_eq!(seen(0, 541), None);
}

#[test]
fn guidance_camera_normalizes_the_line_of_sight() {
    let camera = model();
    // Scaled to (1, 0, 2) first, then one down for the pitch.
    assert_eq!(camera.project_to_pixel((10, 9, 29), 0), Some((720, 840)));
}

#[test]
fn pixels_are_turned_back_into_directions() {
    let camera = model();
    assert_eq!(camera.pixel_to_global((920, 640), 0), (1, 2, 0));
    assert_eq!(camera.pixel_to_global((920, 640), 1), (-2, 1, 0));
    let mut camera = sensor();
    camera.f_x = 100;
    camera.f_y = 100;
    assert_eq!(camera.pixel_to_global((620, 840), 0), (1, -1, 2));
}

#[test]
fn sighting_undoes_projection() {
    let camera = model();
    for quarters in 0..4 {
        for right in -1..2 {
            for down in -3..3 {
                let target = turned((1, right, down), quarters);
                let pixel = camera.project_to_pixel(target, quarters).unwrap();
                assert_eq!(camera.pixel_to_global(pixel, quarters), target);
            }
        }
    }
}

#[test]
fn projection_undoes_sighting() {
    let mut camera = model();
    camera.pitch_rad = 0;
    for quarters in 0..4 {
        for u in [620, 720, 820] {
            for v in [440, 540, 640] {
                let los = camera.pixel_to_global((u, v), quarters);
                assert_eq!(camera.project_to_pixel(los, quarters), Some((u, v)));
            }
        }
    }
}

#[test]
fn moving_camera_and_target_changes_nothing() {
    let mut camera = sensor();
    camera.f_x = 100;
    camera.f_y = 100;
    let shown = camera.project_to_pixel((12, 25, 20), (2, 5, 5), 0);
    for offset in [-1_000, -3, 8, 500] {
        let target = (12 + offset, 25 - offset, 20 + 2 * offset);
        let focal_point = (2 + offset, 5 - offset, 5 + 2 * offset);
        assert_eq!(camera.project_to_pixel(target, focal_point, 0), shown);
    }
}

#[test]
fn distance_of_the_target_does_not_matter() {
    let mut camera = sensor();
    camera.f_x = 100;
    camera.f_y = 100;
    for k in 1..20 {
        let target = (10 * k, 20 * k, 15 * k);
        assert_eq!(camera.project_to_pixel(target, (0, 0, 0), 0), Some((920, 790)));
    }
}

#[test]
fn target_right_at_the_camera_is_not_seen() {
    assert_eq!(sensor().project_to_pixel((4, 5, 6), (4, 5, 6), 0), None);
}
