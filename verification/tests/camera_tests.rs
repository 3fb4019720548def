use rt_rs::camera::{sky_color, Camera, CameraBuilder, CameraError, Pixel};
use rt_rs::fixed::{Fx, FX_HALF, FX_ONE};
use rt_rs::material::{Dielectric, Lambertian, Material, Metal};
use rt_rs::rng::RandomSource;
use rt_rs::sphere::Sphere;
use rt_rs::vec3::Vec3;

fn v(x: i64, y: i64, z: i64) -> Vec3 {
    Vec3::new(Fx::from_int(x), Fx::from_int(y), Fx::from_int(z))
}

#[test]
fn build_default_camera() {
    let cam = CameraBuilder::new().build().expect("default parameters are valid");
    assert_eq!(cam.img_width, 100);
    assert_eq!(cam.img_height, 100);
    assert_eq!(cam.center, v(0, 0, -1));
}

#[test]
fn build_rejects_zero_width() {
    let r = CameraBuilder::new().img_width(0).build();
    assert_eq!(r.err(), Some(CameraError::ZeroWidth));
}

#[test]
fn build_rejects_bad_aspect() {
    let r = CameraBuilder::new().aspect_ratio(Fx::from_int(0)).build();
    assert_eq!(r.err(), Some(CameraError::NonPositiveAspect));
    let r = CameraBuilder::new().aspect_ratio(Fx::from_int(-2)).build();
    assert_eq!(r.err(), Some(CameraError::NonPositiveAspect));
}

#[test]
fn build_rejects_zero_height() {
    // Width two at an aspect ratio of one thousand floors to zero rows.
    let r = CameraBuilder::new().img_width(2).aspect_ratio(Fx::from_int(1000)).build();
    assert_eq!(r.err(), Some(CameraError::ZeroHeight));
}

#[test]
fn build_rejects_excessive_height() {
    // A sliver of an aspect ratio blows the height past the pixel grid.
    let r = CameraBuilder::new().img_width(4_000_000_000).aspect_ratio(Fx::of_raw(1)).build();
    assert_eq!(r.err(), Some(CameraError::ExcessiveHeight));
}

#[test]
fn build_rejects_zero_samples() {
    let r = CameraBuilder::new().samples_per_pixel(0).build();
    assert_eq!(r.err(), Some(CameraError::ZeroSamples));
}

#[test]
fn build_rejects_bad_fov() {
    let r = CameraBuilder::new().fov(0).build();
    assert_eq!(r.err(), Some(CameraError::InvalidFov));
    let r = CameraBuilder::new().fov(180).build();
    assert_eq!(r.err(), Some(CameraError::InvalidFov));
}

#[test]
fn build_rejects_bad_focus() {
    let r = CameraBuilder::new().focus_dist(Fx::from_int(0)).build();
    assert_eq!(r.err(), Some(CameraError::NonPositiveFocusDist));
}

#[test]
fn build_rejects_bad_defocus_angle() {
    let r = CameraBuilder::new().defocus_angle(Fx::from_int(-1)).build();
    assert_eq!(r.err(), Some(CameraError::InvalidDefocusAngle));
    let r = CameraBuilder::new().defocus_angle(Fx::from_int(200)).build();
    assert_eq!(r.err(), Some(CameraError::InvalidDefocusAngle));
}

#[test]
fn build_rejects_degenerate_view() {
    let r = CameraBuilder::new().lookfrom(v(1, 2, 3)).lookat(v(1, 2, 3)).build();
    assert_eq!(r.err(), Some(CameraError::DegenerateView));
    // An up vector parallel to the view direction leaves no usable basis.
    let r = CameraBuilder::new().lookfrom(v(0, 5, 0)).lookat(v(0, 0, 0)).vup(v(0, 1, 0)).build();
    assert_eq!(r.err(), Some(CameraError::DegenerateView));
}

#[test]
fn resolve_color_gamma_and_clamp() {
    let cam = CameraBuilder::new().samples_per_pixel(1).build().expect("valid");
    // Full white clamps just under one and quantizes to 255.
    let white = cam.resolve_color(v(1, 1, 1));
    assert_eq!(white, Pixel { r: 255, g: 255, b: 255 });
    // A linear quarter gamma-encodes to one half: byte 128.
    let quarter = Fx::of_raw(FX_ONE / 4);
    let gray = cam.resolve_color(Vec3::new(quarter, quarter, quarter));
    assert_eq!(gray, Pixel { r: 128, g: 128, b: 128 });
    // Negative accumulations floor at black.
    let below = cam.resolve_color(v(-1, -1, -1));
    assert_eq!(below, Pixel { r: 0, g: 0, b: 0 });
}

#[test]
fn two_by_two_render_of_empty_scene_is_the_sky() {
    // A square pinhole camera over an empty scene with one centered sample
    // per pixel: every output pixel must equal the sky gradient evaluated at
    // that pixel's exact ray, resolved the same way.
    let cam = CameraBuilder::new()
        .aspect_ratio(Fx::from_int(1))
        .img_width(2)
        .samples_per_pixel(1)
        .max_depth(1)
        .defocus_angle(Fx::from_int(0))
        .build()
        .expect("valid");
    let world: Vec<Sphere> = Vec::new();
    let mut rng = RandomSource::fixed(Fx::of_raw(FX_HALF));
    let out = cam.render(&world, &mut rng);
    assert_eq!(out.len(), 4);
    for j in 0..2u32 {
        for i in 0..2u32 {
            let mut probe = RandomSource::fixed(Fx::of_raw(FX_HALF));
            let ray = cam.get_ray(i, j, &mut probe);
            let expected = cam.resolve_color(Vec3::zero().add(sky_color(&ray)));
            assert_eq!(out[(j * 2 + i) as usize], expected);
        }
    }
}

fn small_scene() -> Vec<Sphere> {
    vec![
        Sphere::new(
            v(0, -100, -1),
            Fx::from_int(99),
            Material::Lambertian(Lambertian { albedo: Vec3::new(Fx::of_raw(FX_HALF), Fx::of_raw(FX_HALF), Fx::of_raw(0)) }),
        ),
        Sphere::new(
            v(0, 0, -2),
            Fx::of_raw(FX_HALF),
            Material::Metal(Metal { albedo: Vec3::new(Fx::of_raw(FX_HALF), Fx::of_raw(FX_HALF), Fx::of_raw(FX_HALF)), fuzz: Fx::of_raw(FX_HALF / 2) }),
        ),
        Sphere::new(
            v(1, 0, -2),
            Fx::of_raw(FX_HALF),
            Material::Dielectric(Dielectric { ir: Fx::of_raw(3 * FX_HALF) }),
        ),
    ]
}

#[test]
fn render_is_idempotent_for_equal_seeds() {
    // Re-running the renderer with an identical seeded random stream and
    // identical scene and camera parameters produces byte-identical output.
    let cam = CameraBuilder::new()
        .aspect_ratio(Fx::from_int(1))
        .img_width(4)
        .samples_per_pixel(2)
        .max_depth(4)
        .build()
        .expect("valid");
    let world = small_scene();
    let mut rng1 = RandomSource::seeded(42);
    let mut rng2 = RandomSource::seeded(42);
    let out1 = cam.render(&world, &mut rng1);
    let out2 = cam.render(&world, &mut rng2);
    assert_eq!(out1, out2);
    assert_eq!(out1.len(), 16);
}

#[test]
fn render_with_fixed_stream_is_reproducible() {
    // The constant stream pins the whole image; two runs agree pixel for
    // pixel even though the source value is threaded through every bounce.
    let cam = CameraBuilder::new()
        .aspect_ratio(Fx::from_int(1))
        .img_width(3)
        .samples_per_pixel(2)
        .max_depth(3)
        .build()
        .expect("valid");
    let world = small_scene();
    let mut rng1 = RandomSource::fixed(Fx::of_raw(20000));
    let mut rng2 = RandomSource::fixed(Fx::of_raw(20000));
    assert_eq!(cam.render(&world, &mut rng1), cam.render(&world, &mut rng2));
}

#[test]
fn pinhole_shoots_from_the_eye_point_for_any_stream() {
    // A closed lens never samples the defocus disk: the origin is the eye
    // point whatever the seeded stream draws.
    let cam = CameraBuilder::new().defocus_angle(Fx::from_int(0)).build().expect("valid");
    let mut rng = RandomSource::seeded(3);
    for k in 0..50u32 {
        let ray = cam.get_ray(k % cam.img_width, k / cam.img_width, &mut rng);
        assert_eq!(ray.origin, cam.center);
    }
}

#[test]
fn ray_through_pixel_grid_center() {
    // With the centered jitter draw, the four rays of a two-by-two pinhole
    // camera aim at the four pixel centers of the focus plane.
    let cam = CameraBuilder::new()
        .aspect_ratio(Fx::from_int(1))
        .img_width(2)
        .samples_per_pixel(1)
        .build()
        .expect("valid");
    let mut probe = RandomSource::fixed(Fx::of_raw(FX_HALF));
    let r00 = cam.get_ray(0, 0, &mut probe);
    let r10 = cam.get_ray(1, 0, &mut probe);
    assert_eq!(r00.origin, cam.center);
    assert_ne!(r00.direction, r10.direction);
}
