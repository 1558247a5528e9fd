//! The recursive radiance estimate of a ray.
use crate::fixed::{clamp, fmul, fmul_spec, lemma_fmul_monotone, saturate, LIMIT, SCALE};
use crate::hitable::{is_nearest, world_wf, Hitable, Intersection};
use crate::material::{albedo_of, always_absorbs, in_unit_ball, lemma_scatter_albedo, scatter_spec, Material};
use crate::ray::Ray;
use crate::sphere::{lemma_hit_facts, sphere_hit_spec, Sphere};
use crate::vec3::{add_spec, direction_spec, mul_spec, scale_spec, v3, Vec3};
use rand::rngs::StdRng;
use vstd::arithmetic::div_mod::lemma_div_multiples_vanish;
use vstd::prelude::*;

verus! {

/// Bounces after which a path is cut off as black.
pub const MAX_DEPTH: u32 = 500;

/// Lower bound on hit parameters, which keeps a surface from hitting itself (about 0.001).
pub const T_EPSILON: i64 = 4;

/// `v` held to the interval `[0, 1]`.
pub open spec fn unit_interval(v: int) -> int {
    if v < 0 {
        0
    } else if v > SCALE {
        SCALE as int
    } else {
        v
    }
}

/// The sky gradient: white below, `(0.5, 0.7, 1.0)` straight up, blended by the height of
/// the ray's unit direction (the blend factor held to `[0, 1]` against rounding).
pub open spec fn background_spec(ray: Ray) -> Vec3 {
    let unit = direction_spec(ray.direction);
    let t = unit_interval(fmul_spec(SCALE / 2, clamp(unit.y + SCALE)));
    add_spec(scale_spec(clamp(SCALE - t), v3(SCALE as int, SCALE as int, SCALE as int)), scale_spec(t, v3(2048, 2867, 4096)))
}

/// The hit of the `i`-th sphere of `world` that the integrator searches for.
pub open spec fn hit_of(world: Seq<Sphere>, ray: Ray, i: int) -> Option<Intersection> {
    sphere_hit_spec(world[i], ray, T_EPSILON as int, LIMIT as int)
}

/// No sphere of `world` is hit by `ray`.
pub open spec fn misses(world: Seq<Sphere>, ray: Ray) -> bool {
    forall|i: int| 0 <= i < world.len() ==> (#[trigger] hit_of(world, ray, i)) is None
}

/// Spheres are well formed, their handles name materials, and materials are well formed.
pub open spec fn scene_wf(world: Seq<Sphere>, materials: Seq<Material>) -> bool {
    &&& world_wf(world)
    &&& forall|i: int| 0 <= i < world.len() ==> (#[trigger] world[i]).material < materials.len()
    &&& forall|j: int| 0 <= j < materials.len() ==> (#[trigger] materials[j]).wf()
}

/// Every hit of `ray` lands on a material that absorbs it whatever is drawn.
pub open spec fn absorbed_everywhere(world: Seq<Sphere>, materials: Seq<Material>, ray: Ray) -> bool {
    forall|i: int|
        0 <= i < world.len() ==> match #[trigger] hit_of(world, ray, i) {
            Some(h) => always_absorbs(materials[h.material as int], ray, h),
            None => true,
        }
}

/// Each component of `v` lies in `[0, 1]`.
pub open spec fn in_unit_cube(v: Vec3) -> bool {
    0 <= v.x <= SCALE && 0 <= v.y <= SCALE && 0 <= v.z <= SCALE
}

/// Every material reflects at most all of the light, per channel.
pub open spec fn albedos_in_unit(materials: Seq<Material>) -> bool {
    forall|j: int| 0 <= j < materials.len() ==> in_unit_cube(#[trigger] albedo_of(materials[j]))
}

/// `h` is the nearest hit of `ray` in the scene, as the integrator searches for it.
#[verifier::opaque]
pub open spec fn nearest_is(world: Seq<Sphere>, ray: Ray, h: Intersection) -> bool {
    is_nearest(world, ray, T_EPSILON as int, LIMIT as int, Some(h))
}

/// One bounce of a path: the nearest hit, the unit-ball sample, the uniform draw, and the
/// color that the scattered ray brought back.
pub type Bounce = (Intersection, Vec3, int, Vec3);

/// `r` is the color that a path of `ray` yields from bounce `level` on, with the draws and
/// deeper colors of `path`: the background where nothing is hit, black at the depth bound,
/// and otherwise, at the nearest hit, black where the scatter absorbs and else the
/// attenuation times the color that the scattered ray yields one bounce deeper.
pub open spec fn yields_via(
    world: Seq<Sphere>,
    materials: Seq<Material>,
    ray: Ray,
    level: int,
    r: Vec3,
    path: Seq<Bounce>,
) -> bool
    decreases MAX_DEPTH - level,
{
    if misses(world, ray) {
        r == background_spec(ray)
    } else if level >= MAX_DEPTH {
        r == (Vec3 { x: 0, y: 0, z: 0 })
    } else if path.len() == 0 {
        false
    } else {
        let (h, s, u, c) = path[0];
        nearest_is(world, ray, h) && in_unit_ball(s) && 0 <= u < SCALE && match scatter_spec(
            materials[h.material as int],
            ray,
            h,
            s,
            u,
        ) {
            None => r == (Vec3 { x: 0, y: 0, z: 0 }),
            Some((scattered, attenuation)) => r == mul_spec(attenuation, c) && yields_via(
                world,
                materials,
                scattered,
                level + 1,
                c,
                path.drop_first(),
            ),
        }
    }
}

/// `r` is a color that some draws let a path of `ray` yield from bounce `level` on.
pub open spec fn can_yield(world: Seq<Sphere>, materials: Seq<Material>, ray: Ray, level: int, r: Vec3) -> bool {
    exists|path: Seq<Bounce>| #[trigger] yields_via(world, materials, ray, level, r, path)
}

/// A product by a factor in `[0, 1]` with `1` on the right keeps the value.
proof fn lemma_fmul_one(a: int)
    requires
        0 <= a <= SCALE,
    ensures
        fmul_spec(a, SCALE as int) == a,
{
    lemma_div_multiples_vanish(a, SCALE as int);
    assert(a * SCALE == SCALE * a) by (nonlinear_arith);
}

/// Products of values in `[0, 1]` stay in `[0, 1]`, and do not exceed the first factor.
proof fn lemma_fmul_unit(a: int, b: int)
    requires
        0 <= a <= SCALE,
        0 <= b <= SCALE,
    ensures
        0 <= fmul_spec(a, b) <= a,
{
    lemma_fmul_monotone(a, b, a, SCALE as int);
    lemma_fmul_one(a);
}

/// The background lies in the unit cube.
pub proof fn lemma_background_in_unit(ray: Ray)
    ensures
        in_unit_cube(background_spec(ray)),
{
    let unit = direction_spec(ray.direction);
    let t = unit_interval(fmul_spec(SCALE / 2, clamp(unit.y + SCALE)));
    lemma_fmul_one(SCALE - t);
    lemma_fmul_unit(t, 2048);
    lemma_fmul_unit(t, 2867);
    lemma_fmul_unit(t, 4096);
}

/// The component-wise product of two colors of the unit cube stays in it.
pub proof fn lemma_mul_in_unit(a: Vec3, b: Vec3)
    requires
        in_unit_cube(a),
        in_unit_cube(b),
    ensures
        in_unit_cube(mul_spec(a, b)),
{
    lemma_fmul_unit(a.x as int, b.x as int);
    lemma_fmul_unit(a.y as int, b.y as int);
    lemma_fmul_unit(a.z as int, b.z as int);
}

/// The background color seen along `ray`.
pub fn background(ray: &Ray) -> (r: Vec3)
    requires
        ray.wf(),
    ensures
        r == background_spec(*ray),
        r.wf(),
        in_unit_cube(r),
{
    proof {
        lemma_background_in_unit(*ray);
    }
    let unit_direction: Vec3 = ray.direction.direction();
    let blend: i64 = fmul(SCALE / 2, saturate(unit_direction.y + SCALE));
    let t: i64 = if blend < 0 {
        0
    } else if blend > SCALE {
        SCALE
    } else {
        blend
    };
    let white: Vec3 = Vec3 { x: SCALE, y: SCALE, z: SCALE };
    let sky: Vec3 = Vec3 { x: 2048, y: 2867, z: 4096 };
    Vec3::add(Vec3::scale(saturate(SCALE - t), white), Vec3::scale(t, sky))
}

/// The radiance estimate of `ray` after `recursion_level` bounces: the background where
/// nothing is hit, black where the path is absorbed or too deep, and otherwise the
/// attenuation times the estimate of the scattered ray one bounce deeper.
pub fn color(
    ray: &Ray,
    world: &Vec<Sphere>,
    materials: &Vec<Material>,
    recursion_level: u32,
    rng: &mut StdRng,
) -> (r: Vec3)
    requires
        ray.wf(),
        scene_wf(world@, materials@),
    ensures
        r.wf(),
        can_yield(world@, materials@, *ray, recursion_level as int, r),
        misses(world@, *ray) ==> r == background_spec(*ray),
        !misses(world@, *ray) && recursion_level >= MAX_DEPTH ==> r == (Vec3 { x: 0, y: 0, z: 0 }),
        !misses(world@, *ray) && absorbed_everywhere(world@, materials@, *ray) ==> r == (Vec3 { x: 0, y: 0, z: 0 }),
        albedos_in_unit(materials@) ==> in_unit_cube(r),
    decreases MAX_DEPTH - recursion_level,
{
    let black: Vec3 = Vec3 { x: 0, y: 0, z: 0 };
    match world.hit(ray, T_EPSILON, LIMIT) {
        Some(record) => {
            proof {
                let i = choose|i: int|
                    0 <= i < world@.len() && #[trigger] sphere_hit_spec(world@[i], *ray, T_EPSILON as int, LIMIT as int)
                        == Some(record);
                assert(hit_of(world@, *ray, i) == Some(record));
                lemma_hit_facts(world@[i], *ray, T_EPSILON as int, LIMIT as int);
                assert(record.material < materials@.len());
                reveal(nearest_is);
                assert(nearest_is(world@, *ray, record));
            }
            if recursion_level < MAX_DEPTH {
                let material: Material = materials[record.material];
                let outcome = material.scatter(ray, &record, rng);
                let ghost (s, u) = choose|s: Vec3, u: int|
                    in_unit_ball(s) && 0 <= u < SCALE && outcome == scatter_spec(material, *ray, record, s, u);
                match outcome {
                    Some((scattered, attenuation)) => {
                        let c: Vec3 = color(&scattered, world, materials, recursion_level + 1, rng);
                        let r: Vec3 = Vec3::mul(attenuation, c);
                        proof {
                            let deeper = choose|p: Seq<Bounce>| #[trigger] yields_via(
                                world@,
                                materials@,
                                scattered,
                                recursion_level + 1,
                                c,
                                p,
                            );
                            let path: Seq<Bounce> = seq![(record, s, u, c)] + deeper;
                            assert(path.drop_first() =~= deeper);
                            assert(scatter_spec(materials@[record.material as int], *ray, record, s, u) == outcome);
                            assert(!misses(world@, *ray));
                            assert(yields_via(world@, materials@, *ray, recursion_level as int, r, path));
                            if albedos_in_unit(materials@) {
                                lemma_scatter_albedo(material, *ray, record, s, u);
                                assert(attenuation == albedo_of(material));
                                assert(in_unit_cube(albedo_of(materials@[record.material as int])));
                                lemma_mul_in_unit(attenuation, c);
                            }
                        }
                        r
                    },
                    None => {
                        proof {
                            let path: Seq<Bounce> = seq![(record, s, u, black)];
                            assert(scatter_spec(materials@[record.material as int], *ray, record, s, u) == outcome);
                            assert(!misses(world@, *ray));
                            assert(yields_via(world@, materials@, *ray, recursion_level as int, black, path));
                        }
                        black
                    },
                }
            } else {
                assert(!misses(world@, *ray));
                assert(yields_via(world@, materials@, *ray, recursion_level as int, black, Seq::empty()));
                black
            }
        },
        None => {
            proof {
                assert forall|i: int| 0 <= i < world@.len() implies (#[trigger] hit_of(world@, *ray, i)) is None by {
                    assert(sphere_hit_spec(world@[i], *ray, T_EPSILON as int, LIMIT as int) is None);
                }
            }
            let r: Vec3 = background(ray);
            assert(yields_via(world@, materials@, *ray, recursion_level as int, r, Seq::empty()));
            r
        },
    }
}

} // verus!
