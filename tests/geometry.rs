use raytracer::fixed::{fdiv, fmul, fsqrt, SCALE};
use raytracer::hitable::Hitable;
use raytracer::ray::Ray;
use raytracer::sphere::Sphere;
use raytracer::vec3::Vec3;

const S: i64 = SCALE;

fn v(x: i64, y: i64, z: i64) -> Vec3 {
    Vec3::new(x, y, z)
}

#[test]
fn fixed_point_arithmetic() {
    assert_eq!(fmul(2 * S, 3 * S), 6 * S);
    assert_eq!(fmul(S / 2, S / 2), S / 4);
    assert_eq!(fmul(-S / 2, S / 2), -S / 4);
    assert_eq!(fdiv(S, 4 * S), S / 4);
    assert_eq!(fdiv(-3 * S, -2 * S), 3 * S / 2);
    assert_eq!(fsqrt(4 * S), 2 * S);
    assert_eq!(fsqrt(0), 0);
}

#[test]
fn saturation_at_the_limit() {
    let big = raytracer::fixed::LIMIT;
    assert_eq!(fmul(big, big), big);
    assert_eq!(fmul(big, -big), -big);
    assert_eq!(Vec3::add(v(big, 0, 0), v(big, 0, 0)).x, big);
}

#[test]
fn vector_products() {
    let a = v(S, 2 * S, 3 * S);
    let b = v(4 * S, -5 * S, 6 * S);
    assert_eq!(Vec3::dot(a, b), 12 * S);
    assert_eq!(Vec3::cross(v(S, 0, 0), v(0, S, 0)), v(0, 0, S));
    assert_eq!(Vec3::mul(a, b), v(4 * S, -10 * S, 18 * S));
    assert_eq!(v(3 * S, 4 * S, 0).length(), 5 * S);
    assert_eq!(v(0, 3 * S, 0).unit_vector(), v(0, S, 0));
}

#[test]
fn reflection_and_refraction() {
    assert_eq!(Vec3::reflect(v(S, -S, 0), v(0, S, 0)), v(S, S, 0));
    // Straight through when the indices match.
    assert_eq!(Vec3::refract(v(0, -S, 0), v(0, S, 0), S), Some(v(0, -S, 0)));
    // Grazing exit from a dense medium: total internal reflection.
    assert_eq!(Vec3::refract(v(S, -S / 8, 0), v(0, S, 0), 2 * S), None);
}

#[test]
fn ray_point_at_parameter() {
    let r = Ray::new(v(S, 0, 0), v(0, 2 * S, 0));
    assert_eq!(r.point_at_parameter(3 * S / 2), v(S, 3 * S, 0));
}

fn axis_ray() -> Ray {
    Ray::new(v(0, 0, 0), v(0, 0, -S))
}

#[test]
fn sphere_hit_selects_roots() {
    // Met at t = 1 and t = 3.
    let s = Sphere::new(v(0, 0, -2 * S), S, 0);
    let r = axis_ray();
    let near = s.hit(&r, 4, 100 * S).unwrap();
    assert_eq!(near.t, S);
    assert_eq!(near.point, v(0, 0, -S));
    let far = s.hit(&r, 2 * S, 100 * S).unwrap();
    assert_eq!(far.t, 3 * S);
    assert_eq!(far.point, v(0, 0, -3 * S));
    assert!(s.hit(&r, 4 * S, 100 * S).is_none());
    // An upper bound below the nearer root hides both.
    assert!(s.hit(&r, 4, S / 2).is_none());
}

#[test]
fn sphere_missed() {
    let s = Sphere::new(v(3 * S, 0, -2 * S), S, 0);
    assert!(s.hit(&axis_ray(), 4, 100 * S).is_none());
    let degenerate = Ray::new(v(0, 0, 0), v(0, 0, 0));
    assert!(Sphere::new(v(0, 0, 0), S, 0).hit(&degenerate, 4, 100 * S).is_none());
}

#[test]
fn normals_point_outward() {
    let s = Sphere::new(v(0, 0, -2 * S), S, 0);
    let front = s.hit(&axis_ray(), 4, 100 * S).unwrap();
    assert_eq!(front.normal, v(0, 0, S));
    let back = s.hit(&axis_ray(), 2 * S, 100 * S).unwrap();
    assert_eq!(back.normal, v(0, 0, -S));
    // From inside the sphere the normal still points away from the center.
    let inside = Ray::new(v(0, 0, -2 * S), v(S, 0, 0));
    let h = s.hit(&inside, 4, 100 * S).unwrap();
    assert_eq!(h.t, S);
    assert_eq!(h.normal, v(S, 0, 0));
}

#[test]
fn scene_returns_nearest_hit() {
    let a = Sphere::new(v(0, 0, -10 * S), S, 0);
    let b = Sphere::new(v(0, 0, -4 * S), S, 1);
    let c = Sphere::new(v(0, 0, -7 * S), S, 2);
    let world = vec![a, b, c];
    let h = world.hit(&axis_ray(), 4, 1000 * S).unwrap();
    assert_eq!(h.t, 3 * S);
    assert_eq!(h.material, 1);
    let without = vec![a, c];
    let h2 = without.hit(&axis_ray(), 4, 1000 * S).unwrap();
    assert_eq!(h2.t, 6 * S);
    assert_eq!(h2.material, 2);
    let empty: Vec<Sphere> = Vec::new();
    assert!(empty.hit(&axis_ray(), 4, 1000 * S).is_none());
}

#[test]
fn scene_hit_respects_bounds() {
    let world = vec![Sphere::new(v(0, 0, -4 * S), S, 0), Sphere::new(v(0, 0, -10 * S), S, 1)];
    assert!(world.hit(&axis_ray(), 4, 2 * S).is_none());
    let h = world.hit(&axis_ray(), 6 * S, 1000 * S).unwrap();
    assert_eq!(h.t, 9 * S);
}

#[test]
fn oblique_normal_is_unit_and_radial() {
    let radius = 2 * S;
    let center = v(S, -S, -5 * S);
    let s = Sphere::new(center, radius, 0);
    let r = Ray::new(v(0, 0, 0), v(S / 4, 0, -S));
    let h = s.hit(&r, 4, 100 * S).unwrap();
    let n = h.normal;
    let len2 = n.squared_length();
    assert!((len2 - S).abs() <= 8, "squared length {}", len2);
    let offset = Vec3::sub(h.point, center);
    let radial = v(fdiv(offset.x, radius), fdiv(offset.y, radius), fdiv(offset.z, radius));
    assert!((n.x - radial.x).abs() <= 8 && (n.y - radial.y).abs() <= 8 && (n.z - radial.z).abs() <= 8);
}
