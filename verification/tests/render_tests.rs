use rt_rs::camera::{sky_color, Camera};
use rt_rs::fixed::{Fx, FX_HALF, FX_MAX, FX_ONE};
use rt_rs::hittable::{HitRecord, Hittable};
use rt_rs::interval::Interval;
use rt_rs::material::{Dielectric, Lambertian, Material, Metal, Scatterable};
use rt_rs::ray::Ray;
use rt_rs::rng::RandomSource;
use rt_rs::sphere::Sphere;
use rt_rs::vec3::Vec3;

fn v(x: i64, y: i64, z: i64) -> Vec3 {
    Vec3::new(Fx::from_int(x), Fx::from_int(y), Fx::from_int(z))
}

fn gray() -> Material {
    Material::Lambertian(Lambertian { albedo: Vec3::new(Fx::of_raw(FX_HALF), Fx::of_raw(FX_HALF), Fx::of_raw(FX_HALF)) })
}

fn wide_interval() -> Interval {
    Interval::new(Fx::of_raw(66), Fx::of_raw(FX_MAX))
}

#[test]
fn sphere_hit_head_on() {
    // A ray from the origin toward (0,0,-1) against a sphere centered at
    // (0,0,-1) with radius one half hits at t == 0.5 with normal (0,0,1).
    let sphere = Sphere::new(v(0, 0, -1), Fx::of_raw(FX_HALF), gray());
    let ray = Ray::new(v(0, 0, 0), v(0, 0, -1));
    let hit = sphere.hit(&ray, wide_interval());
    match hit {
        Some(rec) => {
            assert_eq!(rec.t, Fx::of_raw(FX_HALF));
            assert_eq!(rec.normal, v(0, 0, 1));
            assert_eq!(rec.front_face, true);
            assert_eq!(rec.point, Vec3::new(Fx::of_raw(0), Fx::of_raw(0), Fx::of_raw(-FX_HALF)));
        },
        None => panic!("expected a hit"),
    }
}

#[test]
fn sphere_miss() {
    let sphere = Sphere::new(v(0, 0, -1), Fx::of_raw(FX_HALF), gray());
    let ray = Ray::new(v(0, 0, 0), v(0, 0, 1));
    assert_eq!(sphere.hit(&ray, wide_interval()), None);
}

#[test]
fn hollow_sphere_flips_normal() {
    // A negative radius encodes an inside-out surface: the geometric normal
    // points inward, so a head-on ray sees front_face == false and the
    // oriented normal still opposes it.
    let sphere = Sphere::new(v(0, 0, -1), Fx::of_raw(-FX_HALF), gray());
    let ray = Ray::new(v(0, 0, 0), v(0, 0, -1));
    let hit = sphere.hit(&ray, wide_interval());
    match hit {
        Some(rec) => {
            assert_eq!(rec.t, Fx::of_raw(FX_HALF));
            assert_eq!(rec.front_face, false);
            assert_eq!(rec.normal, v(0, 0, 1));
        },
        None => panic!("expected a hit"),
    }
}

#[test]
fn nearest_of_two_spheres_wins() {
    let far = Sphere::new(v(0, 0, -10), Fx::from_int(1), gray());
    let near = Sphere::new(v(0, 0, -2), Fx::from_int(1), gray());
    let world: Vec<Sphere> = vec![far, near];
    let ray = Ray::new(v(0, 0, 0), v(0, 0, -1));
    let hit = world.hit(&ray, wide_interval());
    match hit {
        Some(rec) => assert_eq!(rec.t, Fx::from_int(1)),
        None => panic!("expected a hit"),
    }
}

#[test]
fn empty_world_returns_sky() {
    // An aggregate with zero surfaces behaves exactly like "always miss":
    // the estimator returns the sky gradient.
    let world: Vec<Sphere> = Vec::new();
    let ray = Ray::new(v(0, 0, 0), v(0, 1, 0));
    let mut rng = RandomSource::seeded(7);
    assert_eq!(world.hit(&ray, wide_interval()), None);
    let color = Camera::ray_color(&ray, 8, &world, &mut rng);
    assert_eq!(color, sky_color(&ray));
    // Straight up the gradient is the pure sky blue.
    assert_eq!(color, Vec3::new(Fx::of_raw(FX_HALF), Fx::of_raw(45875), Fx::of_raw(FX_ONE)));
}

#[test]
fn depth_zero_is_black() {
    // Out of recursion budget the estimator contributes no light, whatever
    // the scene holds.
    let world: Vec<Sphere> = vec![Sphere::new(v(0, 0, -1), Fx::of_raw(FX_HALF), gray())];
    let ray = Ray::new(v(0, 0, 0), v(0, 0, -1));
    let mut rng = RandomSource::seeded(7);
    let color = Camera::ray_color(&ray, 0, &world, &mut rng);
    assert_eq!(color, Vec3::zero());
}

#[test]
fn lambertian_scatters_about_normal() {
    // Under the constant half stream the unit-sphere sampler falls back to
    // the x axis, so the diffuse direction is normal + (1,0,0), exactly.
    let albedo = Vec3::new(Fx::of_raw(FX_HALF), Fx::of_raw(FX_HALF), Fx::of_raw(FX_HALF));
    let mat = Lambertian { albedo };
    let hit = HitRecord {
        point: v(0, 0, -1),
        normal: v(0, 0, 1),
        t: Fx::from_int(1),
        front_face: true,
        material: Material::Lambertian(mat),
    };
    let ray = Ray::new(v(0, 0, 0), v(0, 0, -1));
    let mut rng = RandomSource::fixed(Fx::of_raw(FX_HALF));
    let scatter = mat.scatter(&ray, &hit, &mut rng).expect("lambertian always scatters");
    assert_eq!(scatter.attenuation, albedo);
    assert_eq!(scatter.ray.origin, hit.point);
    assert_eq!(scatter.ray.direction, v(1, 0, 1));
}

#[test]
fn metal_mirror_reflection() {
    // With zero fuzz the metal direction is the exact mirror reflection.
    let albedo = Vec3::new(Fx::of_raw(FX_HALF), Fx::of_raw(FX_HALF), Fx::of_raw(FX_HALF));
    let mat = Metal { albedo, fuzz: Fx::of_raw(0) };
    let hit = HitRecord {
        point: v(0, 0, -1),
        normal: v(0, 0, 1),
        t: Fx::from_int(1),
        front_face: true,
        material: Material::Metal(mat),
    };
    let ray = Ray::new(v(0, 0, 0), v(0, 0, -1));
    let mut rng = RandomSource::fixed(Fx::of_raw(FX_HALF));
    let scatter = mat.scatter(&ray, &hit, &mut rng).expect("metal always scatters");
    assert_eq!(scatter.attenuation, albedo);
    assert_eq!(scatter.ray.direction, v(0, 0, 1));
}

#[test]
fn index_matched_dielectric_is_invisible() {
    // A dielectric with an index of refraction of one hit head-on always
    // refracts, and the refracted direction is the incoming unit direction
    // unchanged.
    let mat = Dielectric { ir: Fx::of_raw(FX_ONE) };
    let hit = HitRecord {
        point: v(0, 0, -1),
        normal: v(0, 0, 1),
        t: Fx::from_int(1),
        front_face: true,
        material: Material::Dielectric(mat),
    };
    let ray = Ray::new(v(0, 0, 0), v(0, 0, -1));
    let mut rng = RandomSource::fixed(Fx::of_raw(FX_HALF));
    let scatter = mat.scatter(&ray, &hit, &mut rng).expect("dielectric always scatters");
    assert_eq!(scatter.attenuation, v(1, 1, 1));
    assert_eq!(scatter.ray.direction, v(0, 0, -1));
    // The same holds for a seeded stream: the draw cannot matter head-on.
    let mut seeded = RandomSource::seeded(99);
    let again = mat.scatter(&ray, &hit, &mut seeded).expect("dielectric always scatters");
    assert_eq!(again.ray.direction, v(0, 0, -1));
}

#[test]
fn schlick_reflectance_values() {
    // Head-on against glass of index 1.5 the Schlick reflectance is the
    // fixed-point image of 0.04; at grazing incidence it saturates to one.
    let head_on = Dielectric::reflectance(Fx::of_raw(FX_ONE), Fx::of_raw(3 * FX_HALF));
    assert_eq!(head_on, Fx::of_raw(2621));
    let grazing = Dielectric::reflectance(Fx::of_raw(0), Fx::of_raw(3 * FX_HALF));
    assert_eq!(grazing, Fx::of_raw(FX_ONE));
}

#[test]
fn reflect_perpendicular_unchanged() {
    // A vector sliding along the mirror (perpendicular to the normal) is
    // reflected to itself.
    assert_eq!(Vec3::reflect(v(1, 0, 0), v(0, 1, 0)), v(1, 0, 0));
}

#[test]
fn reflect_head_on_reverses() {
    // A vector thrown straight against the normal comes straight back.
    assert_eq!(Vec3::reflect(v(0, 0, -1), v(0, 0, 1)), v(0, 0, 1));
}

#[test]
fn interval_membership() {
    let i = Interval::new(Fx::from_int(1), Fx::from_int(3));
    assert!(i.contains(Fx::from_int(1)));
    assert!(i.contains(Fx::from_int(3)));
    assert!(!i.surrounds(Fx::from_int(1)));
    assert!(i.surrounds(Fx::from_int(2)));
    assert_eq!(i.clamp(Fx::from_int(5)), Fx::from_int(3));
    assert_eq!(i.clamp(Fx::from_int(0)), Fx::from_int(1));
    assert_eq!(i.clamp(Fx::from_int(2)), Fx::from_int(2));
    let e = Interval::empty();
    assert!(!e.contains(Fx::from_int(0)));
    let u = Interval::universe();
    assert!(u.contains(Fx::from_int(123456)));
}

#[test]
fn hemisphere_sample_faces_the_normal() {
    // Under the constant half stream the unit sample is the positive x axis;
    // against an opposing normal it comes back flipped, so the result never
    // points into the surface.
    let mut rng = RandomSource::fixed(Fx::of_raw(FX_HALF));
    let up = Vec3::random_on_hemisphere(v(1, 0, 0), &mut rng);
    assert_eq!(up, v(1, 0, 0));
    let flipped = Vec3::random_on_hemisphere(v(-1, 0, 0), &mut rng);
    assert_eq!(flipped, v(-1, 0, 0));
    assert!(flipped.dot(v(-1, 0, 0)).raw >= 0);
}

#[test]
fn fixed_source_echoes_its_constant() {
    let mut rng = RandomSource::fixed(Fx::of_raw(1234));
    assert_eq!(rt_rs::rng::random(&mut rng), Fx::of_raw(1234));
    assert_eq!(rt_rs::rng::random(&mut rng), Fx::of_raw(1234));
}

#[test]
fn random_in_range_stays_in_range() {
    // The image of a draw lies in the half-open range: never below the
    // floor, strictly under the ceiling.
    let mut rng = RandomSource::seeded(5);
    let min = Fx::from_int(-1);
    let max = Fx::from_int(1);
    for _ in 0..200 {
        let x = rt_rs::rng::random_in_range(&mut rng, min, max);
        assert!(min.raw <= x.raw && x.raw < max.raw);
    }
}

#[test]
fn seeded_unit_vectors_stay_near_unit_length() {
    // Whatever the seeded stream draws, the unit sampler's result has
    // squared length within a few grid units of one.
    let mut rng = RandomSource::seeded(11);
    for _ in 0..200 {
        let u = Vec3::random_unit_vector(&mut rng);
        let ls = u.length_squared().raw;
        assert!(
            FX_ONE - 21 <= ls && ls <= FX_ONE + 16,
            "squared length {} out of tolerance",
            ls
        );
    }
}

#[test]
fn seeded_hemisphere_faces_the_normal() {
    let mut rng = RandomSource::seeded(13);
    let normal = v(0, 0, 1);
    for _ in 0..200 {
        let d = Vec3::random_on_hemisphere(normal, &mut rng).dot(normal);
        assert!(d.raw >= 0);
    }
}
