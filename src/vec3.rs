//! Three-component fixed-point vectors.
use crate::fixed::{
    clamp, fdiv, fdiv_spec, fmul, fmul_spec, fsqrt, fsqrt_spec, in_range, lemma_product_bound, saturate,
    tdiv, trunc_div, LIMIT, SCALE,
};
use vstd::prelude::*;

verus! {

/// A vector of three fixed-point components.
#[derive(Clone, Copy, Debug, PartialEq, Eq, Structural)]
pub struct Vec3 {
    pub x: i64,
    pub y: i64,
    pub z: i64,
}

/// The vector with the given components (each within range).
pub open spec fn v3(x: int, y: int, z: int) -> Vec3 {
    Vec3 { x: x as i64, y: y as i64, z: z as i64 }
}

pub open spec fn add_spec(a: Vec3, b: Vec3) -> Vec3 {
    v3(clamp(a.x + b.x), clamp(a.y + b.y), clamp(a.z + b.z))
}

pub open spec fn sub_spec(a: Vec3, b: Vec3) -> Vec3 {
    v3(clamp(a.x - b.x), clamp(a.y - b.y), clamp(a.z - b.z))
}

pub open spec fn neg_spec(a: Vec3) -> Vec3 {
    v3(-a.x, -a.y, -a.z)
}

pub open spec fn scale_spec(k: int, a: Vec3) -> Vec3 {
    v3(fmul_spec(k, a.x as int), fmul_spec(k, a.y as int), fmul_spec(k, a.z as int))
}

pub open spec fn mul_spec(a: Vec3, b: Vec3) -> Vec3 {
    v3(
        fmul_spec(a.x as int, b.x as int),
        fmul_spec(a.y as int, b.y as int),
        fmul_spec(a.z as int, b.z as int),
    )
}

pub open spec fn dot_spec(a: Vec3, b: Vec3) -> int {
    clamp(tdiv(a.x * b.x + a.y * b.y + a.z * b.z, SCALE as int))
}

pub open spec fn length_spec(a: Vec3) -> int {
    fsqrt_spec(dot_spec(a, a))
}

/// `a` scaled to unit length; meaningful where `length_spec(a) != 0`.
pub open spec fn unit_spec(a: Vec3) -> Vec3 {
    let l = length_spec(a);
    v3(fdiv_spec(a.x as int, l), fdiv_spec(a.y as int, l), fdiv_spec(a.z as int, l))
}

/// Mirror image of `v` about the normal `n`: `v - 2 dot(v, n) n`.
pub open spec fn reflect_spec(v: Vec3, n: Vec3) -> Vec3 {
    sub_spec(v, scale_spec(clamp(2 * dot_spec(v, n)), n))
}

/// The discriminant of Snell's law for unit `u`, normal `n` and index ratio `k`.
pub open spec fn refract_disc(u: Vec3, n: Vec3, k: int) -> int {
    let dt = dot_spec(u, n);
    clamp(SCALE - fmul_spec(fmul_spec(k, k), clamp(SCALE - fmul_spec(dt, dt))))
}

/// The refracted direction, where `refract_disc` is positive.
pub open spec fn refracted_spec(u: Vec3, n: Vec3, k: int) -> Vec3 {
    let dt = dot_spec(u, n);
    sub_spec(
        scale_spec(k, sub_spec(u, scale_spec(dt, n))),
        scale_spec(fsqrt_spec(refract_disc(u, n, k)), n),
    )
}

/// `a` scaled to unit length, or `a` itself where its length is zero.
pub open spec fn direction_spec(a: Vec3) -> Vec3 {
    if length_spec(a) == 0 {
        a
    } else {
        unit_spec(a)
    }
}

/// The cross product `a x b`.
pub open spec fn cross_spec(a: Vec3, b: Vec3) -> Vec3 {
    v3(
        clamp(fmul_spec(a.y as int, b.z as int) - fmul_spec(a.z as int, b.y as int)),
        clamp(fmul_spec(a.z as int, b.x as int) - fmul_spec(a.x as int, b.z as int)),
        clamp(fmul_spec(a.x as int, b.y as int) - fmul_spec(a.y as int, b.x as int)),
    )
}

impl Vec3 {
    /// All three components lie within the representable range.
    pub open spec fn wf(&self) -> bool {
        in_range(self.x as int) && in_range(self.y as int) && in_range(self.z as int)
    }

    pub fn new(x: i64, y: i64, z: i64) -> (r: Vec3)
        requires
            in_range(x as int),
            in_range(y as int),
            in_range(z as int),
        ensures
            r == (Vec3 { x, y, z }),
            r.wf(),
    {
        Vec3 { x, y, z }
    }

    pub fn add(a: Vec3, b: Vec3) -> (r: Vec3)
        requires
            a.wf(),
            b.wf(),
        ensures
            r == add_spec(a, b),
            r.wf(),
    {
        Vec3 { x: saturate(a.x + b.x), y: saturate(a.y + b.y), z: saturate(a.z + b.z) }
    }

    pub fn sub(a: Vec3, b: Vec3) -> (r: Vec3)
        requires
            a.wf(),
            b.wf(),
        ensures
            r == sub_spec(a, b),
            r.wf(),
    {
        Vec3 { x: saturate(a.x - b.x), y: saturate(a.y - b.y), z: saturate(a.z - b.z) }
    }

    pub fn neg(a: Vec3) -> (r: Vec3)
        requires
            a.wf(),
        ensures
            r == neg_spec(a),
            r.wf(),
    {
        Vec3 { x: -a.x, y: -a.y, z: -a.z }
    }

    /// The vector `a` multiplied by the scalar `k`.
    pub fn scale(k: i64, a: Vec3) -> (r: Vec3)
        requires
            in_range(k as int),
            a.wf(),
        ensures
            r == scale_spec(k as int, a),
            r.wf(),
    {
        Vec3 { x: fmul(k, a.x), y: fmul(k, a.y), z: fmul(k, a.z) }
    }

    /// Component-wise product.
    pub fn mul(a: Vec3, b: Vec3) -> (r: Vec3)
        requires
            a.wf(),
            b.wf(),
        ensures
            r == mul_spec(a, b),
            r.wf(),
    {
        Vec3 { x: fmul(a.x, b.x), y: fmul(a.y, b.y), z: fmul(a.z, b.z) }
    }

    pub fn dot(a: Vec3, b: Vec3) -> (r: i64)
        requires
            a.wf(),
            b.wf(),
        ensures
            r == dot_spec(a, b),
            in_range(r as int),
    {
        proof {
            lemma_product_bound(a.x as int, b.x as int);
            lemma_product_bound(a.y as int, b.y as int);
            lemma_product_bound(a.z as int, b.z as int);
        }
        let s: i64 = a.x * b.x + a.y * b.y + a.z * b.z;
        saturate(trunc_div(s, SCALE))
    }

    pub fn squared_length(&self) -> (r: i64)
        requires
            self.wf(),
        ensures
            r == dot_spec(*self, *self),
            0 <= r <= LIMIT,
    {
        proof {
            assert(self.x * self.x + self.y * self.y + self.z * self.z >= 0) by (nonlinear_arith);
        }
        Vec3::dot(*self, *self)
    }

    pub fn length(&self) -> (r: i64)
        requires
            self.wf(),
        ensures
            r == length_spec(*self),
            0 <= r <= LIMIT,
    {
        fsqrt(self.squared_length())
    }

    /// The vector scaled to unit length; its length must be nonzero.
    pub fn unit_vector(&self) -> (r: Vec3)
        requires
            self.wf(),
            length_spec(*self) != 0,
        ensures
            r == unit_spec(*self),
            r.wf(),
    {
        let l: i64 = self.length();
        Vec3 { x: fdiv(self.x, l), y: fdiv(self.y, l), z: fdiv(self.z, l) }
    }

    /// The vector scaled to unit length, or unchanged where its length is zero.
    pub fn direction(&self) -> (r: Vec3)
        requires
            self.wf(),
        ensures
            r == direction_spec(*self),
            r.wf(),
    {
        if self.length() == 0 {
            *self
        } else {
            self.unit_vector()
        }
    }

    pub fn cross(a: Vec3, b: Vec3) -> (r: Vec3)
        requires
            a.wf(),
            b.wf(),
        ensures
            r == cross_spec(a, b),
            r.wf(),
    {
        Vec3 {
            x: saturate(fmul(a.y, b.z) - fmul(a.z, b.y)),
            y: saturate(fmul(a.z, b.x) - fmul(a.x, b.z)),
            z: saturate(fmul(a.x, b.y) - fmul(a.y, b.x)),
        }
    }

    /// Mirror reflection of `v` about the normal `n`.
    pub fn reflect(v: Vec3, n: Vec3) -> (r: Vec3)
        requires
            v.wf(),
            n.wf(),
        ensures
            r == reflect_spec(v, n),
            r.wf(),
    {
        let d: i64 = Vec3::dot(v, n);
        Vec3::sub(v, Vec3::scale(saturate(2 * d), n))
    }

    /// Refraction of the direction `v` through a surface with normal `n` by Snell's law,
    /// with index ratio `ni_over_nt`; `None` under total internal reflection.
    pub fn refract(v: Vec3, n: Vec3, ni_over_nt: i64) -> (r: Option<Vec3>)
        requires
            v.wf(),
            n.wf(),
            in_range(ni_over_nt as int),
            length_spec(v) != 0,
        ensures
            refract_disc(unit_spec(v), n, ni_over_nt as int) > 0 ==> r == Some(
                refracted_spec(unit_spec(v), n, ni_over_nt as int),
            ),
            refract_disc(unit_spec(v), n, ni_over_nt as int) <= 0 ==> r is None,
            r matches Some(w) ==> w.wf(),
    {
        let uv: Vec3 = v.unit_vector();
        let dt: i64 = Vec3::dot(uv, n);
        let k2: i64 = fmul(ni_over_nt, ni_over_nt);
        let discriminant: i64 = saturate(SCALE - fmul(k2, saturate(SCALE - fmul(dt, dt))));
        if discriminant > 0 {
            let bent: Vec3 = Vec3::scale(ni_over_nt, Vec3::sub(uv, Vec3::scale(dt, n)));
            Some(Vec3::sub(bent, Vec3::scale(fsqrt(discriminant), n)))
        } else {
            None
        }
    }
}

} // verus!
