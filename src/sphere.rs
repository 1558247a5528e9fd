//! Spheres and their closed-form intersection with rays.
use crate::fixed::{
    clamp, fdiv, fdiv_spec, fmul, fmul_spec, fsqrt, fsqrt_spec, in_range, lemma_fdiv_monotone, lemma_fsqrt,
    saturate, LIMIT,
};
use crate::hitable::{Hitable, Intersection};
use crate::ray::Ray;
use crate::vec3::{direction_spec, dot_spec, sub_spec, Vec3};
use vstd::prelude::*;

verus! {

/// A sphere; `material` is a handle into the scene's table of materials.
#[derive(Clone, Copy, Debug, PartialEq, Eq, Structural)]
pub struct Sphere {
    pub center: Vec3,
    pub radius: i64,
    pub material: usize,
    pub radius2: i64,
}

/// The terms of the intersection quadratic `a t^2 + 2 b t + c = 0` of a sphere and a ray.
pub struct Quadratic {
    pub a: int,
    pub b: int,
    pub disc: int,
}

pub open spec fn quadratic(s: Sphere, ray: Ray) -> Quadratic {
    let oc = sub_spec(ray.origin, s.center);
    let a = dot_spec(ray.direction, ray.direction);
    let b = dot_spec(ray.direction, oc);
    let c = clamp(dot_spec(oc, oc) - s.radius2);
    Quadratic { a, b, disc: clamp(fmul_spec(b, b) - fmul_spec(c, a)) }
}

/// The nearer root, where the discriminant is nonnegative and `a` positive.
pub open spec fn near_root(s: Sphere, ray: Ray) -> int {
    let q = quadratic(s, ray);
    fdiv_spec(clamp(-q.b - fsqrt_spec(q.disc)), q.a)
}

/// The farther root, where the discriminant is nonnegative and `a` positive.
pub open spec fn far_root(s: Sphere, ray: Ray) -> int {
    let q = quadratic(s, ray);
    fdiv_spec(clamp(-q.b + fsqrt_spec(q.disc)), q.a)
}

/// The record of a hit of `s` by `ray` at parameter `t`.
pub open spec fn record_spec(s: Sphere, ray: Ray, t: int) -> Intersection {
    let p = ray.point_at_spec(t);
    Intersection { t: t as i64, point: p, normal: direction_spec(sub_spec(p, s.center)), material: s.material }
}

/// The nearest hit of `s` by `ray` with parameter strictly inside `(t_min, t_max)`.
/// A tangent ray (discriminant exactly zero) counts as a hit at its single root; only a
/// negative discriminant, or a direction of zero length, misses.
#[verifier::opaque]
pub open spec fn sphere_hit_spec(s: Sphere, ray: Ray, t_min: int, t_max: int) -> Option<Intersection> {
    let q = quadratic(s, ray);
    if q.disc < 0 || q.a == 0 {
        None
    } else if t_min < near_root(s, ray) < t_max {
        Some(record_spec(s, ray, near_root(s, ray)))
    } else if t_min < far_root(s, ray) < t_max {
        Some(record_spec(s, ray, far_root(s, ray)))
    } else {
        None
    }
}

impl Sphere {
    pub open spec fn wf(&self) -> bool {
        &&& self.center.wf()
        &&& 0 < self.radius <= LIMIT
        &&& self.radius2 == fmul_spec(self.radius as int, self.radius as int)
    }

    pub fn new(center: Vec3, radius: i64, material: usize) -> (r: Sphere)
        requires
            center.wf(),
            0 < radius <= LIMIT,
        ensures
            r.wf(),
            r.center == center,
            r.radius == radius,
            r.material == material,
    {
        Sphere { center, radius, material, radius2: fmul(radius, radius) }
    }

    fn record(&self, ray: &Ray, t: i64) -> (r: Intersection)
        requires
            self.wf(),
            ray.wf(),
            in_range(t as int),
        ensures
            r == record_spec(*self, *ray, t as int),
            r.wf(),
    {
        let point: Vec3 = ray.point_at_parameter(t);
        let offset: Vec3 = Vec3::sub(point, self.center);
        Intersection::new(t, point, offset.direction(), self.material)
    }
}

impl Hitable for Sphere {
    open spec fn well_formed(&self) -> bool {
        self.wf()
    }

    open spec fn reports(&self, ray: Ray, t_min: int, t_max: int, r: Option<Intersection>) -> bool {
        r == sphere_hit_spec(*self, ray, t_min, t_max)
    }

    /// The nearest intersection with parameter strictly inside `(t_min, t_max)`.
    fn hit(&self, ray: &Ray, t_min: i64, t_max: i64) -> (r: Option<Intersection>) {
        reveal(sphere_hit_spec);
        let oc: Vec3 = Vec3::sub(ray.origin, self.center);
        let dir_length: i64 = ray.direction.squared_length();
        let dot_dir_oc: i64 = Vec3::dot(ray.direction, oc);
        let c: i64 = saturate(oc.squared_length() - self.radius2);
        let discriminant: i64 = saturate(fmul(dot_dir_oc, dot_dir_oc) - fmul(c, dir_length));
        if discriminant < 0 || dir_length == 0 {
            return None;
        }
        let discriminant_sqrt: i64 = fsqrt(discriminant);
        let near: i64 = fdiv(saturate(-dot_dir_oc - discriminant_sqrt), dir_length);
        if t_min < near && near < t_max {
            return Some(self.record(ray, near));
        }
        let far: i64 = fdiv(saturate(-dot_dir_oc + discriminant_sqrt), dir_length);
        if t_min < far && far < t_max {
            return Some(self.record(ray, far));
        }
        None
    }
}

/// Where the sphere is met at all, the nearer root does not exceed the farther.
pub proof fn lemma_roots_ordered(s: Sphere, ray: Ray)
    requires
        quadratic(s, ray).disc >= 0,
        quadratic(s, ray).a > 0,
    ensures
        near_root(s, ray) <= far_root(s, ray),
{
    let q = quadratic(s, ray);
    let sq = fsqrt_spec(q.disc);
    lemma_fsqrt(q.disc);
    lemma_fdiv_monotone(clamp(-q.b - sq), clamp(-q.b + sq), q.a);
}

/// Of the two roots where a ray meets a sphere, the hit test returns the nearer one where
/// it lies inside the bounds, the farther one where the lower bound lies between them, and
/// nothing once the lower bound has passed both.
pub proof fn lemma_hit_selects_root(s: Sphere, ray: Ray, t_min: int, t_max: int)
    requires
        quadratic(s, ray).disc >= 0,
        quadratic(s, ray).a > 0,
    ensures
        near_root(s, ray) <= far_root(s, ray),
        t_min < near_root(s, ray) < t_max ==> sphere_hit_spec(s, ray, t_min, t_max) == Some(
            record_spec(s, ray, near_root(s, ray)),
        ),
        near_root(s, ray) <= t_min < far_root(s, ray) < t_max ==> sphere_hit_spec(s, ray, t_min, t_max)
            == Some(record_spec(s, ray, far_root(s, ray))),
        far_root(s, ray) <= t_min ==> sphere_hit_spec(s, ray, t_min, t_max) is None,
{
    reveal(sphere_hit_spec);
    lemma_roots_ordered(s, ray);
}

/// A ray that meets a sphere has a direction of nonzero length, and the hit carries the
/// sphere's material.
pub proof fn lemma_hit_facts(s: Sphere, ray: Ray, t_min: int, t_max: int)
    requires
        ray.wf(),
        sphere_hit_spec(s, ray, t_min, t_max) is Some,
    ensures
        crate::vec3::length_spec(ray.direction) != 0,
        sphere_hit_spec(s, ray, t_min, t_max)->0.material == s.material,
{
    reveal(sphere_hit_spec);
    let d = ray.direction;
    assert(d.x * d.x + d.y * d.y + d.z * d.z >= 0) by (nonlinear_arith);
    let a = dot_spec(d, d);
    assert(a >= 1);
    lemma_fsqrt(a);
    let r = fsqrt_spec(a);
    assert(r >= 1) by (nonlinear_arith)
        requires
            a >= 1,
            r >= 0,
            a * 4096 < (r + 1) * (r + 1),
            r * r <= a * 4096,
    {
        if r == 0 {
            assert((r + 1) * (r + 1) == 1);
        }
    }
}

} // verus!
