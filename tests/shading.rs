use raytracer::camera::Camera;
use raytracer::fixed::SCALE;
use rand::rngs::StdRng;
use rand::SeedableRng;
use raytracer::helper::{draw_unit, random_in_unit_circle, random_in_unit_sphere, schlick};
use raytracer::hitable::Intersection;
use raytracer::integrator::{background, color, MAX_DEPTH};
use raytracer::material::{Dielectric, Lambertian, Material, Metal};
use raytracer::ray::Ray;
use raytracer::sphere::Sphere;
use raytracer::vec3::Vec3;

const S: i64 = SCALE;

fn seeded_rng(seed: u64) -> StdRng {
    StdRng::seed_from_u64(seed)
}

fn v(x: i64, y: i64, z: i64) -> Vec3 {
    Vec3::new(x, y, z)
}

fn floor_hit() -> Intersection {
    Intersection::new(S, v(0, 0, 0), v(0, S, 0), 0)
}

#[test]
fn schlick_head_on_is_r0_squared() {
    // r0 = -0.2 (rounded to -819/4096); r0^2 is about 0.04.
    assert_eq!(schlick(S, 3 * S / 2), 163);
    assert_eq!(schlick(S, S), 0);
}

#[test]
fn schlick_grows_toward_grazing() {
    let head_on = schlick(S, 3 * S / 2);
    let oblique = schlick(S / 2, 3 * S / 2);
    let grazing = schlick(0, 3 * S / 2);
    assert!(head_on <= oblique && oblique <= grazing);
    assert_eq!(grazing, S);
}

#[test]
fn samplers_stay_inside() {
    let mut rng = seeded_rng(7);
    for _ in 0..200 {
        let p = random_in_unit_sphere(&mut rng);
        assert!(p.squared_length() < S);
        let q = random_in_unit_circle(&mut rng);
        assert_eq!(q.z, 0);
        assert!(q.squared_length() < S);
        let u = draw_unit(&mut rng);
        assert!((0..S).contains(&u));
    }
}

#[test]
fn samplers_vary() {
    let mut rng = seeded_rng(11);
    let first = random_in_unit_sphere(&mut rng);
    let mut differs = false;
    for _ in 0..20 {
        if random_in_unit_sphere(&mut rng) != first {
            differs = true;
        }
    }
    assert!(differs);
}

#[test]
fn lambertian_scatters_about_the_normal() {
    let m = Lambertian { albedo: v(S / 2, S / 4, S) };
    let (ray, att) = m.scatter_with(&floor_hit(), v(S / 2, 0, 0)).unwrap();
    assert_eq!(ray.origin, v(0, 0, 0));
    assert_eq!(ray.direction, v(S / 2, S, 0));
    assert_eq!(att, m.albedo);
}

#[test]
fn metal_mirror_without_fuzz() {
    let m = Metal { albedo: v(S, S / 2, 0), fuzz: 0 };
    let incoming = Ray::new(v(-S, S, 0), v(S, -S, 0));
    let mut rng = seeded_rng(1);
    let (ray, att) = m.scatter(&incoming, &floor_hit(), &mut rng).unwrap();
    assert_eq!(ray.origin, v(0, 0, 0));
    // The mirror image of the unit incoming direction (1, -1, 0) / sqrt(2).
    assert_eq!(ray.direction, v(2896, 2896, 0));
    assert_eq!(att, m.albedo);
}

#[test]
fn metal_absorbs_into_the_surface() {
    let m = Metal { albedo: v(S, S, S), fuzz: 0 };
    // Leaving from below the surface: the mirror direction points back inside.
    let incoming = Ray::new(v(0, -S, 0), v(0, S, 0));
    let mut rng = seeded_rng(2);
    assert!(m.scatter(&incoming, &floor_hit(), &mut rng).is_none());
    assert!(m.scatter_with(&incoming, &floor_hit(), v(0, 0, 0)).is_none());
}

#[test]
fn dielectric_keeps_albedo() {
    let m = Dielectric { reflection_index: 3 * S / 2, albedo: v(S, S, S) };
    let incoming = Ray::new(v(-S, S, 0), v(S, -S, 0));
    for u in [0, 100, S / 2, S - 1] {
        let (_, att) = m.scatter_with(&incoming, &floor_hit(), u).unwrap();
        assert_eq!(att, m.albedo);
    }
    let mut rng = seeded_rng(3);
    for _ in 0..50 {
        let (_, att) = m.scatter(&incoming, &floor_hit(), &mut rng).unwrap();
        assert_eq!(att, m.albedo);
    }
}

#[test]
fn dielectric_reflects_or_refracts_by_draw() {
    let m = Dielectric { reflection_index: 3 * S / 2, albedo: v(S, S, S) };
    let incoming = Ray::new(v(0, S, 0), v(0, -S, 0));
    // Head on: reflectance about 0.04, so a low draw reflects and a high one refracts.
    let (low, _) = m.scatter_with(&incoming, &floor_hit(), 0).unwrap();
    assert_eq!(low.direction, v(0, S, 0));
    let (high, _) = m.scatter_with(&incoming, &floor_hit(), S - 1).unwrap();
    assert_eq!(high.direction, v(0, -S, 0));
}

#[test]
fn dielectric_total_internal_reflection() {
    let m = Dielectric { reflection_index: 2 * S, albedo: v(S, S, S) };
    // Leaving the medium at a grazing angle: no refracted ray exists.
    let incoming = Ray::new(v(-S, 0, 0), v(S, S / 8, 0));
    let (ray, _) = m.scatter_with(&incoming, &floor_hit(), S - 1).unwrap();
    assert!(ray.direction.y < 0);
}

#[test]
fn material_dispatch() {
    let metal = Material::Metal(Metal { albedo: v(S, S, S), fuzz: 0 });
    let incoming = Ray::new(v(0, -S, 0), v(0, S, 0));
    let mut rng = seeded_rng(4);
    assert!(metal.scatter(&incoming, &floor_hit(), &mut rng).is_none());
    let diffuse = Material::Lambertian(Lambertian { albedo: v(S / 2, S / 2, S / 2) });
    let (_, att) = diffuse.scatter(&incoming, &floor_hit(), &mut rng).unwrap();
    assert_eq!(att, v(S / 2, S / 2, S / 2));
}

#[test]
fn background_gradient() {
    assert_eq!(background(&Ray::new(v(0, 0, 0), v(0, S, 0))), v(2048, 2867, 4096));
    assert_eq!(background(&Ray::new(v(0, 0, 0), v(0, -S, 0))), v(S, S, S));
    assert_eq!(background(&Ray::new(v(0, 0, 0), v(S, 0, 0))), v(3072, 3481, 4096));
}

#[test]
fn empty_scene_shows_background() {
    let world: Vec<Sphere> = Vec::new();
    let materials: Vec<Material> = Vec::new();
    let mut rng = seeded_rng(5);
    let up = Ray::new(v(0, 0, 0), v(0, S, 0));
    assert_eq!(color(&up, &world, &materials, 0, &mut rng), v(2048, 2867, 4096));
}

#[test]
fn absorbing_scene_is_black() {
    let world = vec![Sphere::new(v(0, 0, 0), 10 * S, 0)];
    let materials = vec![Material::Metal(Metal { albedo: v(S, S, S), fuzz: 0 })];
    let mut rng = seeded_rng(6);
    for d in [v(S, 0, 0), v(0, -S, 0), v(S, S, -S), v(0, 0, S)] {
        let r = Ray::new(v(0, 0, 0), d);
        assert_eq!(color(&r, &world, &materials, 0, &mut rng), v(0, 0, 0));
    }
}

#[test]
fn depth_bound_is_black() {
    let world = vec![Sphere::new(v(0, 0, -2 * S), S, 0)];
    let materials = vec![Material::Lambertian(Lambertian { albedo: v(S, S, S) })];
    let mut rng = seeded_rng(8);
    let r = Ray::new(v(0, 0, 0), v(0, 0, -S));
    assert_eq!(color(&r, &world, &materials, MAX_DEPTH, &mut rng), v(0, 0, 0));
}

#[test]
fn one_bounce_tints_by_albedo() {
    // A metal floor below a ray heading down-forward: one mirror bounce, then sky.
    let world = vec![Sphere::new(v(0, -1000 * S, 0), 999 * S, 0)];
    let materials = vec![Material::Metal(Metal { albedo: v(S / 2, S / 2, S / 2), fuzz: 0 })];
    let mut rng = seeded_rng(9);
    let r = Ray::new(v(0, 0, 0), v(0, -S, 0));
    assert_eq!(color(&r, &world, &materials, 0, &mut rng), v(1024, 1433, 2048));
}

#[test]
fn pinhole_camera_rays() {
    let cam = Camera::new(v(0, 0, 0), v(0, 0, -S), v(0, S, 0), S, 2 * S, 0, S);
    assert_eq!(cam.lens_radius, 0);
    let mut rng = seeded_rng(10);
    let centre = cam.get_ray(S / 2, S / 2, &mut rng);
    assert_eq!(centre.origin, v(0, 0, 0));
    assert_eq!(centre.direction, v(0, 0, -S));
    let corner = cam.get_ray(0, 0, &mut rng);
    assert_eq!(corner.direction, v(-2 * S, -S, -S));
    assert_eq!(cam.get_ray_with(S, S, v(0, 0, 0)).direction, v(2 * S, S, -S));
}

#[test]
fn lens_offsets_the_origin() {
    let cam = Camera::new(v(0, 0, 0), v(0, 0, -S), v(0, S, 0), S, S, 2 * S, S);
    assert_eq!(cam.lens_radius, S);
    let r = cam.get_ray_with(S / 2, S / 2, v(S / 2, 0, 0));
    assert_eq!(r.origin, v(S / 2, 0, 0));
    assert_eq!(r.direction, v(-S / 2, 0, -S));
}

fn render(seed: u64) -> Vec<Vec3> {
    let world = vec![Sphere::new(v(0, 0, -S), S / 2, 0), Sphere::new(v(0, -100 * S - S / 2, -S), 100 * S, 1)];
    let materials = vec![
        Material::Lambertian(Lambertian { albedo: v(S / 2, S / 2, S / 2) }),
        Material::Lambertian(Lambertian { albedo: v(S / 2, S / 2, S / 2) }),
    ];
    let cam = Camera::new(v(0, 0, 0), v(0, 0, -S), v(0, S, 0), S, 2 * S, 0, S);
    let mut rng = seeded_rng(seed);
    let (nx, ny, samples) = (8i64, 4i64, 8i64);
    let mut pixels = Vec::new();
    for j in 0..ny {
        for i in 0..nx {
            let mut sum = (0i64, 0i64, 0i64);
            for _ in 0..samples {
                let s = (i * S + draw_unit(&mut rng)) / nx;
                let t = (j * S + draw_unit(&mut rng)) / ny;
                let c = color(&cam.get_ray(s, t, &mut rng), &world, &materials, 0, &mut rng);
                sum = (sum.0 + c.x, sum.1 + c.y, sum.2 + c.z);
            }
            pixels.push(v(sum.0 / samples, sum.1 / samples, sum.2 / samples));
        }
    }
    pixels
}

#[test]
fn fixed_seed_render_is_reproducible() {
    let a = render(42);
    let b = render(42);
    assert_eq!(a, b);
    for p in &a {
        assert!(p.x >= 0 && p.x <= S && p.z >= 0 && p.z <= S);
    }
    // The top row looks past the spheres at the sky; the bottom row sees the ground.
    assert!(a[0].z < a[24].z);
}

#[test]
fn schlick_beyond_unit_cosine() {
    // An exiting ray can give a cosine above one; reflectance keeps falling there.
    let at_one = schlick(S, 3 * S / 2);
    let beyond = schlick(2 * S, 3 * S / 2);
    assert!(beyond <= at_one);
    assert_eq!(beyond, 2 * 163 - S);
}

#[test]
fn depth_beyond_the_bound() {
    let world = vec![Sphere::new(v(0, 0, -2 * S), S, 0)];
    let materials = vec![Material::Lambertian(Lambertian { albedo: v(S, S, S) })];
    let mut rng = seeded_rng(12);
    let hit = Ray::new(v(0, 0, 0), v(0, 0, -S));
    assert_eq!(color(&hit, &world, &materials, MAX_DEPTH + 100, &mut rng), v(0, 0, 0));
    let miss = Ray::new(v(0, 0, 0), v(0, S, 0));
    assert_eq!(color(&miss, &world, &materials, MAX_DEPTH + 100, &mut rng), v(2048, 2867, 4096));
}

#[test]
fn colors_stay_in_unit_cube() {
    let world = vec![
        Sphere::new(v(0, 0, -S), S / 2, 0),
        Sphere::new(v(0, -100 * S - S / 2, -S), 100 * S, 1),
        Sphere::new(v(S, 0, -S), S / 2, 2),
    ];
    let materials = vec![
        Material::Lambertian(Lambertian { albedo: v(S, S, S) }),
        Material::Metal(Metal { albedo: v(S, S / 2, S), fuzz: S / 4 }),
        Material::Dielectric(Dielectric { reflection_index: 3 * S / 2, albedo: v(S, S, S) }),
    ];
    let mut rng = seeded_rng(13);
    for k in 0..64i64 {
        let d = v(k * S / 32 - S, (k % 8) * S / 8 - S / 2, -S);
        let c = color(&Ray::new(v(0, 0, 0), d), &world, &materials, 0, &mut rng);
        for x in [c.x, c.y, c.z] {
            assert!((0..=S).contains(&x));
        }
    }
}

#[test]
fn bounce_multiplies_by_deeper_color() {
    // A diffuse sphere with albedo one half: the result is half of what the bounce brought back,
    // so it is never the sky itself and never above half of white.
    let world = vec![Sphere::new(v(0, 0, -2 * S), S, 0)];
    let materials = vec![Material::Lambertian(Lambertian { albedo: v(S / 2, S / 2, S / 2) })];
    let mut rng = seeded_rng(14);
    let c = color(&Ray::new(v(0, 0, 0), v(0, 0, -S)), &world, &materials, 0, &mut rng);
    assert!(c.x > 0 && c.x <= S / 2 && c.z > 0 && c.z <= S / 2);
}
