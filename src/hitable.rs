//! Intersection records, and the nearest hit over a scene of spheres.
use crate::fixed::in_range;
use crate::ray::Ray;
use crate::sphere::{far_root, lemma_roots_ordered, near_root, quadratic, sphere_hit_spec, Sphere};
use crate::vec3::Vec3;
use vstd::prelude::*;

verus! {

/// Where a ray meets a surface: parameter, point, outward unit normal and material handle.
#[derive(Clone, Copy, Debug, PartialEq, Eq, Structural)]
pub struct Intersection {
    pub t: i64,
    pub point: Vec3,
    pub normal: Vec3,
    pub material: usize,
}

impl Intersection {
    pub open spec fn wf(&self) -> bool {
        in_range(self.t as int) && self.point.wf() && self.normal.wf()
    }

    pub fn new(t: i64, point: Vec3, normal: Vec3, material: usize) -> (r: Intersection)
        ensures
            r == (Intersection { t, point, normal, material }),
    {
        Intersection { t, point, normal, material }
    }
}

/// Something a ray can hit.
pub trait Hitable {
    /// What `hit` needs of the value itself.
    spec fn well_formed(&self) -> bool;

    /// `r` is what a hit test of `ray` in `(t_min, t_max)` reports.
    spec fn reports(&self, ray: Ray, t_min: int, t_max: int, r: Option<Intersection>) -> bool;

    /// The nearest intersection with parameter strictly inside `(t_min, t_max)`.
    fn hit(&self, ray: &Ray, t_min: i64, t_max: i64) -> (r: Option<Intersection>)
        requires
            self.well_formed(),
            ray.wf(),
            in_range(t_min as int),
            in_range(t_max as int),
        ensures
            self.reports(*ray, t_min as int, t_max as int, r),
            r matches Some(h) ==> h.wf(),
    ;
}

/// Every sphere of the scene is well formed.
pub open spec fn world_wf(world: Seq<Sphere>) -> bool {
    forall|i: int| 0 <= i < world.len() ==> #[trigger] world[i].wf()
}

/// `r` is the nearest hit in `(t_min, t_max)` of `ray` with the scene `world`: none where
/// no sphere is hit, and otherwise the hit of some sphere whose parameter is the least
/// of all spheres' hits (the first such sphere in scene order).
pub open spec fn is_nearest(
    world: Seq<Sphere>,
    ray: Ray,
    t_min: int,
    t_max: int,
    r: Option<Intersection>,
) -> bool {
    match r {
        None => forall|i: int|
            0 <= i < world.len() ==> (#[trigger] sphere_hit_spec(world[i], ray, t_min, t_max)) is None,
        Some(h) => exists|i: int|
            0 <= i < world.len() && #[trigger] sphere_hit_spec(world[i], ray, t_min, t_max) == Some(h)
                && (forall|j: int|
                0 <= j < world.len() ==> match #[trigger] sphere_hit_spec(world[j], ray, t_min, t_max) {
                    Some(g) => h.t <= g.t && (j < i ==> h.t < g.t),
                    None => true,
                }),
    }
}

/// Narrowing the upper bound to `c` keeps a sphere's hit exactly where its parameter is below `c`.
pub proof fn lemma_narrowed_hit(s: Sphere, ray: Ray, t_min: int, c: int, t_max: int)
    requires
        s.wf(),
        ray.wf(),
        c <= t_max,
    ensures
        sphere_hit_spec(s, ray, t_min, c) == (match sphere_hit_spec(s, ray, t_min, t_max) {
            Some(g) => if (g.t as int) < c {
                Some(g)
            } else {
                None
            },
            None => None,
        }),
{
    reveal(sphere_hit_spec);
    let q = quadratic(s, ray);
    if q.disc >= 0 && q.a != 0 {
        assert(q.a >= 0) by (nonlinear_arith)
            requires
                q.a == crate::vec3::dot_spec(ray.direction, ray.direction),
        {
            assert(ray.direction.x * ray.direction.x + ray.direction.y * ray.direction.y
                + ray.direction.z * ray.direction.z >= 0) by (nonlinear_arith);
        }
        lemma_roots_ordered(s, ray);
        assert(in_range(near_root(s, ray)));
        assert(in_range(far_root(s, ray)));
    }
}

/// Taking the sphere of the nearest hit out of the scene leaves as nearest hit the next one
/// along the ray: none where no other sphere is hit, and otherwise a hit no nearer than the
/// first.
pub proof fn lemma_nearest_after_removal(
    world: Seq<Sphere>,
    ray: Ray,
    t_min: int,
    t_max: int,
    k: int,
    first: Intersection,
    next: Option<Intersection>,
)
    requires
        0 <= k < world.len(),
        is_nearest(world, ray, t_min, t_max, Some(first)),
        sphere_hit_spec(world[k], ray, t_min, t_max) == Some(first),
        is_nearest(world.remove(k), ray, t_min, t_max, next),
    ensures
        next is None <==> forall|j: int|
            0 <= j < world.len() && j != k ==> (#[trigger] sphere_hit_spec(world[j], ray, t_min, t_max)) is None,
        next matches Some(h) ==> first.t <= h.t && exists|j: int|
            0 <= j < world.len() && j != k && #[trigger] sphere_hit_spec(world[j], ray, t_min, t_max) == Some(h),
{
    let rest = world.remove(k);
    match next {
        None => {
            assert forall|j: int| 0 <= j < world.len() && j != k implies (#[trigger] sphere_hit_spec(
                world[j],
                ray,
                t_min,
                t_max,
            )) is None by {
                let i = if j < k { j } else { j - 1 };
                assert(rest[i] == world[j]);
                assert(sphere_hit_spec(rest[i], ray, t_min, t_max) is None);
            }
        },
        Some(h) => {
            let i = choose|i: int|
                0 <= i < rest.len() && #[trigger] sphere_hit_spec(rest[i], ray, t_min, t_max) == Some(h) && (
                forall|j: int|
                    0 <= j < rest.len() ==> match #[trigger] sphere_hit_spec(rest[j], ray, t_min, t_max) {
                        Some(g) => h.t <= g.t && (j < i ==> h.t < g.t),
                        None => true,
                    });
            let j = if i < k { i } else { i + 1 };
            assert(world[j] == rest[i]);
            assert(sphere_hit_spec(world[j], ray, t_min, t_max) == Some(h));
            assert(first.t <= h.t);
            if forall|jj: int|
                0 <= jj < world.len() && jj != k ==> (#[trigger] sphere_hit_spec(world[jj], ray, t_min, t_max)) is None {
                assert(sphere_hit_spec(world[j], ray, t_min, t_max) is None);
            }
        },
    }
}

impl Hitable for Vec<Sphere> {
    open spec fn well_formed(&self) -> bool {
        world_wf(self@)
    }

    open spec fn reports(&self, ray: Ray, t_min: int, t_max: int, r: Option<Intersection>) -> bool {
        is_nearest(self@, ray, t_min, t_max, r)
    }

    /// The nearest hit of `ray` with any sphere of the scene, found by a sweep that shrinks
    /// the upper bound to the closest hit so far.
    fn hit(&self, ray: &Ray, t_min: i64, t_max: i64) -> (r: Option<Intersection>) {
        let mut result: Option<Intersection> = None;
        let mut closest_so_far: i64 = t_max;
        let mut k: usize = 0;
        while k < self.len()
            invariant
                world_wf(self@),
                ray.wf(),
                in_range(t_min as int),
                in_range(t_max as int),
                k <= self.len(),
                in_range(closest_so_far as int),
                closest_so_far <= t_max,
                match result {
                    None => closest_so_far == t_max && forall|i: int|
                        0 <= i < k ==> (#[trigger] sphere_hit_spec(self@[i], *ray, t_min as int, t_max as int)) is None,
                    Some(h) => h.wf() && closest_so_far == h.t && exists|i: int|
                        0 <= i < k && #[trigger] sphere_hit_spec(self@[i], *ray, t_min as int, t_max as int) == Some(h)
                            && (forall|j: int|
                            0 <= j < k ==> match #[trigger] sphere_hit_spec(self@[j], *ray, t_min as int, t_max as int) {
                                Some(g) => h.t <= g.t && (j < i ==> h.t < g.t),
                                None => true,
                            }),
                },
            decreases self.len() - k,
        {
            let e: Sphere = self[k];
            assert(e.wf());
            proof {
                lemma_narrowed_hit(e, *ray, t_min as int, closest_so_far as int, t_max as int);
            }
            match e.hit(ray, t_min, closest_so_far) {
                Some(record) => {
                    closest_so_far = record.t;
                    result = Some(record);
                },
                None => {},
            }
            k = k + 1;
        }
        result
    }
}

} // verus!
