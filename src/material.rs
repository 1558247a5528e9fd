//! The three scattering models: diffuse, metal with fuzz, and refractive dielectric.
use crate::fixed::{fdiv, fdiv_spec, fmul, fmul_spec, in_range, SCALE};
use crate::helper::{
    draw_unit, random_in_unit_sphere, schlick, schlick_spec, valid_index,
};
use crate::hitable::Intersection;
use crate::ray::Ray;
use crate::vec3::{
    add_spec, dot_spec, length_spec, neg_spec, reflect_spec, refract_disc, refracted_spec,
    scale_spec, sub_spec, unit_spec, Vec3,
};
use rand::rngs::StdRng;
use vstd::prelude::*;

verus! {

/// Ideal diffuse reflection.
#[derive(Clone, Copy, Debug, PartialEq, Eq, Structural)]
pub struct Lambertian {
    /// Fraction of light that is reflected, per channel.
    pub albedo: Vec3,
}

/// Specular reflection, roughened by `fuzz`.
#[derive(Clone, Copy, Debug, PartialEq, Eq, Structural)]
pub struct Metal {
    pub albedo: Vec3,
    pub fuzz: i64,
}

/// A refractive medium such as glass.
#[derive(Clone, Copy, Debug, PartialEq, Eq, Structural)]
pub struct Dielectric {
    pub reflection_index: i64,
    pub albedo: Vec3,
}

/// The closed set of materials.
#[derive(Clone, Copy, Debug, PartialEq, Eq, Structural)]
pub enum Material {
    Lambertian(Lambertian),
    Metal(Metal),
    Dielectric(Dielectric),
}

/// A point inside the unit sphere, as the samplers draw them.
pub open spec fn in_unit_ball(s: Vec3) -> bool {
    s.wf() && dot_spec(s, s) < SCALE
}

/// Diffuse scattering toward `point + normal + sample`.
pub open spec fn lambertian_spec(m: Lambertian, rec: Intersection, sample: Vec3) -> Option<(Ray, Vec3)> {
    let target = add_spec(add_spec(rec.point, rec.normal), sample);
    Some((Ray { origin: rec.point, direction: sub_spec(target, rec.point) }, m.albedo))
}

/// The mirror image of the normalised incoming direction.
pub open spec fn mirror_spec(ray: Ray, rec: Intersection) -> Vec3 {
    reflect_spec(unit_spec(ray.direction), rec.normal)
}

/// Metal scattering: the mirror direction perturbed by `fuzz * sample`, absorbed where it
/// does not leave the surface.
pub open spec fn metal_spec(m: Metal, ray: Ray, rec: Intersection, sample: Vec3) -> Option<(Ray, Vec3)> {
    let direction = add_spec(mirror_spec(ray, rec), scale_spec(m.fuzz as int, sample));
    if dot_spec(direction, rec.normal) > 0 {
        Some((Ray { origin: rec.point, direction }, m.albedo))
    } else {
        None
    }
}

/// The cosine of incidence used by the Fresnel term, on either side of the surface.
pub open spec fn dielectric_cosine(m: Dielectric, ray: Ray, rec: Intersection) -> int {
    let dot_direction = fdiv_spec(dot_spec(ray.direction, rec.normal), length_spec(ray.direction));
    if dot_spec(ray.direction, rec.normal) > 0 {
        fmul_spec(m.reflection_index as int, dot_direction)
    } else {
        -dot_direction
    }
}

/// The normal facing the incoming ray's side.
pub open spec fn dielectric_normal(ray: Ray, rec: Intersection) -> Vec3 {
    if dot_spec(ray.direction, rec.normal) > 0 {
        neg_spec(rec.normal)
    } else {
        rec.normal
    }
}

/// The ratio of refraction indices across the surface.
pub open spec fn dielectric_ratio(m: Dielectric, ray: Ray, rec: Intersection) -> int {
    if dot_spec(ray.direction, rec.normal) > 0 {
        m.reflection_index as int
    } else {
        fdiv_spec(SCALE as int, m.reflection_index as int)
    }
}

/// Dielectric scattering with the uniform draw `u` in `[0, 1)`: reflection under total
/// internal reflection or where `u` falls below the Schlick reflectance, refraction otherwise.
pub open spec fn dielectric_spec(m: Dielectric, ray: Ray, rec: Intersection, u: int) -> Option<(Ray, Vec3)> {
    let uv = unit_spec(ray.direction);
    let n = dielectric_normal(ray, rec);
    let k = dielectric_ratio(m, ray, rec);
    let reflected = Ray { origin: rec.point, direction: mirror_spec(ray, rec) };
    if refract_disc(uv, n, k) > 0 && u >= schlick_spec(dielectric_cosine(m, ray, rec), m.reflection_index as int) {
        Some((Ray { origin: rec.point, direction: refracted_spec(uv, n, k) }, m.albedo))
    } else {
        Some((reflected, m.albedo))
    }
}

/// What a scatter call may need of its inputs: well-formed values and a nonzero direction.
pub open spec fn scatter_ready(ray: Ray, rec: Intersection) -> bool {
    ray.wf() && rec.wf() && length_spec(ray.direction) != 0
}

pub open spec fn scattered_wf(r: Option<(Ray, Vec3)>) -> bool {
    r matches Some((s, a)) ==> s.wf() && a.wf()
}

impl Lambertian {
    pub open spec fn wf(&self) -> bool {
        self.albedo.wf()
    }

    /// Diffuse scattering with a given point `sample` of the unit ball.
    pub fn scatter_with(&self, record: &Intersection, sample: Vec3) -> (r: Option<(Ray, Vec3)>)
        requires
            self.wf(),
            record.wf(),
            sample.wf(),
        ensures
            r == lambertian_spec(*self, *record, sample),
            scattered_wf(r),
    {
        let target: Vec3 = Vec3::add(Vec3::add(record.point, record.normal), sample);
        let scattered: Ray = Ray { origin: record.point, direction: Vec3::sub(target, record.point) };
        Some((scattered, self.albedo))
    }

    /// Diffuse scattering toward a random point of the unit ball about `point + normal`.
    pub fn scatter(&self, record: &Intersection, rng: &mut StdRng) -> (r: Option<(Ray, Vec3)>)
        requires
            self.wf(),
            record.wf(),
        ensures
            exists|s: Vec3| in_unit_ball(s) && r == lambertian_spec(*self, *record, s),
            scattered_wf(r),
    {
        let sample: Vec3 = random_in_unit_sphere(rng);
        let r = self.scatter_with(record, sample);
        assert(in_unit_ball(sample) && r == lambertian_spec(*self, *record, sample));
        r
    }
}

impl Metal {
    pub open spec fn wf(&self) -> bool {
        self.albedo.wf() && in_range(self.fuzz as int)
    }

    /// Metal scattering with a given point `sample` of the unit ball.
    pub fn scatter_with(&self, ray: &Ray, record: &Intersection, sample: Vec3) -> (r: Option<(Ray, Vec3)>)
        requires
            self.wf(),
            scatter_ready(*ray, *record),
            sample.wf(),
        ensures
            r == metal_spec(*self, *ray, *record, sample),
            scattered_wf(r),
    {
        let reflected: Vec3 = Vec3::reflect(ray.direction.unit_vector(), record.normal);
        let direction: Vec3 = Vec3::add(reflected, Vec3::scale(self.fuzz, sample));
        if Vec3::dot(direction, record.normal) > 0 {
            Some((Ray { origin: record.point, direction }, self.albedo))
        } else {
            None
        }
    }

    /// Metal scattering, perturbed by a random point of the unit ball.
    pub fn scatter(&self, ray: &Ray, record: &Intersection, rng: &mut StdRng) -> (r: Option<(Ray, Vec3)>)
        requires
            self.wf(),
            scatter_ready(*ray, *record),
        ensures
            exists|s: Vec3| in_unit_ball(s) && r == metal_spec(*self, *ray, *record, s),
            self.fuzz == 0 ==> r == metal_spec(*self, *ray, *record, Vec3 { x: 0, y: 0, z: 0 }),
            scattered_wf(r),
    {
        let sample: Vec3 = random_in_unit_sphere(rng);
        let r = self.scatter_with(ray, record, sample);
        proof {
            assert(in_unit_ball(sample) && r == metal_spec(*self, *ray, *record, sample));
            if self.fuzz == 0 {
                assert(scale_spec(0, sample) == scale_spec(0, Vec3 { x: 0, y: 0, z: 0 }));
            }
        }
        r
    }
}

impl Dielectric {
    pub open spec fn wf(&self) -> bool {
        self.albedo.wf() && valid_index(self.reflection_index as int)
    }

    /// Dielectric scattering with a given uniform draw `u` in `[0, 1)`.
    pub fn scatter_with(&self, ray: &Ray, record: &Intersection, u: i64) -> (r: Option<(Ray, Vec3)>)
        requires
            self.wf(),
            scatter_ready(*ray, *record),
        ensures
            r == dielectric_spec(*self, *ray, *record, u as int),
            scattered_wf(r),
    {
        let d: i64 = Vec3::dot(ray.direction, record.normal);
        let dot_direction: i64 = fdiv(d, ray.direction.length());
        let outward_normal: Vec3;
        let ni_over_nt: i64;
        let cosine: i64;
        if d > 0 {
            outward_normal = Vec3::neg(record.normal);
            ni_over_nt = self.reflection_index;
            cosine = fmul(self.reflection_index, dot_direction);
        } else {
            outward_normal = record.normal;
            ni_over_nt = fdiv(SCALE, self.reflection_index);
            cosine = -dot_direction;
        }
        let reflected: Vec3 = Vec3::reflect(ray.direction.unit_vector(), record.normal);
        match Vec3::refract(ray.direction, outward_normal, ni_over_nt) {
            Some(refracted) => {
                if u < schlick(cosine, self.reflection_index) {
                    Some((Ray::new(record.point, reflected), self.albedo))
                } else {
                    Some((Ray::new(record.point, refracted), self.albedo))
                }
            },
            None => Some((Ray::new(record.point, reflected), self.albedo)),
        }
    }

    /// Dielectric scattering, choosing between reflection and refraction at random.
    pub fn scatter(&self, ray: &Ray, record: &Intersection, rng: &mut StdRng) -> (r: Option<(Ray, Vec3)>)
        requires
            self.wf(),
            scatter_ready(*ray, *record),
        ensures
            exists|u: int| 0 <= u < SCALE && r == dielectric_spec(*self, *ray, *record, u),
            r matches Some((_, a)) && a == self.albedo,
            scattered_wf(r),
    {
        let u: i64 = draw_unit(rng);
        let r = self.scatter_with(ray, record, u);
        assert(0 <= u < SCALE && r == dielectric_spec(*self, *ray, *record, u as int));
        r
    }
}

/// What `m` does with the incoming `ray` at `rec`, for the sample `s` of the unit ball and
/// the uniform draw `u`.
#[verifier::opaque]
pub open spec fn scatter_spec(m: Material, ray: Ray, rec: Intersection, s: Vec3, u: int) -> Option<(Ray, Vec3)> {
    match m {
        Material::Lambertian(l) => lambertian_spec(l, rec, s),
        Material::Metal(mm) => metal_spec(mm, ray, rec, s),
        Material::Dielectric(d) => dielectric_spec(d, ray, rec, u),
    }
}

/// The attenuation that `m` applies wherever it scatters.
pub open spec fn albedo_of(m: Material) -> Vec3 {
    match m {
        Material::Lambertian(l) => l.albedo,
        Material::Metal(mm) => mm.albedo,
        Material::Dielectric(d) => d.albedo,
    }
}

/// Wherever a material scatters, its attenuation is its albedo.
pub proof fn lemma_scatter_albedo(m: Material, ray: Ray, rec: Intersection, s: Vec3, u: int)
    ensures
        scatter_spec(m, ray, rec, s, u) matches Some((_, a)) ==> a == albedo_of(m),
{
    reveal(scatter_spec);
}

/// `m` absorbs `ray` at `rec` whatever is drawn: a metal without fuzz whose mirror
/// direction does not leave the surface.
pub open spec fn always_absorbs(m: Material, ray: Ray, rec: Intersection) -> bool {
    match m {
        Material::Metal(mm) => mm.fuzz == 0 && dot_spec(mirror_spec(ray, rec), rec.normal) <= 0,
        _ => false,
    }
}

/// A metal without fuzz absorbs exactly where the mirror direction does not leave the
/// surface, and otherwise scatters along that mirror direction with its albedo.
pub proof fn lemma_metal_without_fuzz(m: Metal, ray: Ray, rec: Intersection)
    requires
        m.wf(),
        m.fuzz == 0,
        scatter_ready(ray, rec),
    ensures
        dot_spec(mirror_spec(ray, rec), rec.normal) <= 0 ==> metal_spec(m, ray, rec, Vec3 { x: 0, y: 0, z: 0 }) is None,
        dot_spec(mirror_spec(ray, rec), rec.normal) > 0 ==> metal_spec(m, ray, rec, Vec3 { x: 0, y: 0, z: 0 })
            == Some((Ray { origin: rec.point, direction: mirror_spec(ray, rec) }, m.albedo)),
{
    assert(add_spec(mirror_spec(ray, rec), scale_spec(0, Vec3 { x: 0, y: 0, z: 0 })) == mirror_spec(ray, rec));
}

/// Whatever is drawn, a dielectric scatters, and with its albedo as the attenuation.
pub proof fn lemma_dielectric_keeps_albedo(m: Dielectric, ray: Ray, rec: Intersection, u: int)
    ensures
        dielectric_spec(m, ray, rec, u) matches Some((_, a)) && a == m.albedo,
{
}

impl Material {
    pub open spec fn wf(&self) -> bool {
        match *self {
            Material::Lambertian(l) => l.wf(),
            Material::Metal(m) => m.wf(),
            Material::Dielectric(d) => d.wf(),
        }
    }

    /// Scatters `ray` at `record`: a scattered ray with its attenuation, or `None` where
    /// the light is absorbed.
    pub fn scatter(&self, ray: &Ray, record: &Intersection, rng: &mut StdRng) -> (r: Option<(Ray, Vec3)>)
        requires
            self.wf(),
            scatter_ready(*ray, *record),
        ensures
            exists|s: Vec3, u: int| in_unit_ball(s) && 0 <= u < SCALE && r == scatter_spec(*self, *ray, *record, s, u),
            always_absorbs(*self, *ray, *record) ==> r is None,
            scattered_wf(r),
    {
        reveal(scatter_spec);
        match self {
            Material::Lambertian(l) => {
                let r = l.scatter(record, rng);
                proof {
                    let s = choose|s: Vec3| in_unit_ball(s) && r == lambertian_spec(*l, *record, s);
                    assert(in_unit_ball(s) && r == scatter_spec(*self, *ray, *record, s, 0));
                }
                r
            },
            Material::Metal(m) => {
                let r = m.scatter(ray, record, rng);
                proof {
                    let s = choose|s: Vec3| in_unit_ball(s) && r == metal_spec(*m, *ray, *record, s);
                    assert(in_unit_ball(s) && r == scatter_spec(*self, *ray, *record, s, 0));
                    if m.fuzz == 0 {
                        lemma_metal_without_fuzz(*m, *ray, *record);
                    }
                }
                r
            },
            Material::Dielectric(d) => {
                let r = d.scatter(ray, record, rng);
                proof {
                    let u = choose|u: int| 0 <= u < SCALE && r == dielectric_spec(*d, *ray, *record, u);
                    let s = Vec3 { x: 0, y: 0, z: 0 };
                    assert(in_unit_ball(s) && r == scatter_spec(*self, *ray, *record, s, u));
                }
                r
            },
        }
    }
}

} // verus!
