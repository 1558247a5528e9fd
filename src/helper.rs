//! Random sampling of points, and the Schlick approximation of Fresnel reflectance.
use crate::fixed::{
    clamp, fdiv, fdiv_spec, fmul, fmul_spec, in_range, lemma_fmul_monotone, lemma_fmul_monotone_right, lemma_fmul_odd, lemma_tdiv_bound, saturate,
    LIMIT, SCALE,
};
use crate::vec3::{dot_spec, Vec3};
use rand::rngs::StdRng;
use rand::Rng;
use vstd::prelude::*;

verus! {

/// rand's standard generator, carried through as an opaque value.
#[verifier::external_type_specification]
#[verifier::external_body]
pub struct ExStdRng(StdRng);

/// How many candidates a rejection sampler draws before it gives up on the
/// (vanishingly unlikely) run of misses and returns the origin.
pub const MAX_TRIES: u32 = 1000;

/// Relies on `rand::Rng::gen_range` on a half-open range, which returns a value in
/// `[low, high)` and panics only on an empty range.
#[verifier::external_body]
fn draw_between(rng: &mut StdRng, low: i64, high: i64) -> (r: i64)
    requires
        low < high,
    ensures
        low <= r < high,
{
    rng.gen_range(low..high)
}

/// A fixed-point value drawn uniformly from `[0, 1)`.
pub fn draw_unit(rng: &mut StdRng) -> (r: i64)
    ensures
        0 <= r < SCALE,
{
    draw_between(rng, 0, SCALE)
}

/// A point strictly inside the unit sphere, drawn by rejection from the cube `[-1, 1)^3`.
pub fn random_in_unit_sphere(rng: &mut StdRng) -> (r: Vec3)
    ensures
        r.wf(),
        dot_spec(r, r) < SCALE,
{
    let mut tries: u32 = 0;
    while tries < MAX_TRIES
        decreases MAX_TRIES - tries,
    {
        let p: Vec3 = Vec3 {
            x: draw_between(rng, -SCALE, SCALE),
            y: draw_between(rng, -SCALE, SCALE),
            z: draw_between(rng, -SCALE, SCALE),
        };
        if p.squared_length() < SCALE {
            return p;
        }
        tries = tries + 1;
    }
    Vec3 { x: 0, y: 0, z: 0 }
}

/// A point strictly inside the unit disk of the `z = 0` plane, drawn by rejection
/// from the square `[-1, 1)^2`.
pub fn random_in_unit_circle(rng: &mut StdRng) -> (r: Vec3)
    ensures
        r.wf(),
        r.z == 0,
        dot_spec(r, r) < SCALE,
{
    let mut tries: u32 = 0;
    while tries < MAX_TRIES
        decreases MAX_TRIES - tries,
    {
        let p: Vec3 = Vec3 { x: draw_between(rng, -SCALE, SCALE), y: draw_between(rng, -SCALE, SCALE), z: 0 };
        if p.squared_length() < SCALE {
            return p;
        }
        tries = tries + 1;
    }
    Vec3 { x: 0, y: 0, z: 0 }
}

/// Reflectance at normal incidence: `r0 = (1 - n) / (1 + n)`, squared.
pub open spec fn r0_squared(reflection_index: int) -> int {
    let r0 = fdiv_spec(SCALE - reflection_index, SCALE + reflection_index);
    fmul_spec(r0, r0)
}

/// `x^5` in fixed point, multiplied from the right.
pub open spec fn pow5_spec(x: int) -> int {
    fmul_spec(x, fmul_spec(x, fmul_spec(x, fmul_spec(x, x))))
}

/// Schlick's approximation: `r0^2 + (1 - r0^2) (1 - cosine)^5`.
pub open spec fn schlick_spec(cosine: int, reflection_index: int) -> int {
    let r0sq = r0_squared(reflection_index);
    clamp(r0sq + fmul_spec(clamp(SCALE - r0sq), pow5_spec(clamp(SCALE - cosine))))
}

/// The admissible refraction indices: positive, and small enough that `1 + n` is representable.
pub open spec fn valid_index(reflection_index: int) -> bool {
    0 < reflection_index <= LIMIT - SCALE
}

/// Probability of reflection at a dielectric boundary, by Schlick's approximation.
pub fn schlick(cosine: i64, reflection_index: i64) -> (r: i64)
    requires
        in_range(cosine as int),
        valid_index(reflection_index as int),
    ensures
        r == schlick_spec(cosine as int, reflection_index as int),
        in_range(r as int),
{
    let r0: i64 = fdiv(SCALE - reflection_index, SCALE + reflection_index);
    let r0sq: i64 = fmul(r0, r0);
    let x: i64 = saturate(SCALE - cosine);
    let p: i64 = fmul(x, fmul(x, fmul(x, fmul(x, x))));
    saturate(r0sq + fmul(saturate(SCALE - r0sq), p))
}

/// The reflectance at normal incidence squared lies in `[0, 1]`.
pub proof fn lemma_r0_squared_bounds(reflection_index: int)
    requires
        valid_index(reflection_index),
    ensures
        0 <= r0_squared(reflection_index) <= SCALE,
{
    let n = reflection_index;
    let num = (SCALE - n) * SCALE;
    let den = SCALE + n;
    assert(-(den * SCALE) <= num <= den * SCALE) by (nonlinear_arith)
        requires
            num == (SCALE - n) * SCALE,
            den == SCALE + n,
            n > 0,
    ;
    lemma_tdiv_bound(num, den, SCALE as int);
    let r0 = fdiv_spec(SCALE - n, SCALE + n);
    assert(-SCALE <= r0 <= SCALE);
    assert(0 <= r0 * r0 <= SCALE * SCALE) by (nonlinear_arith)
        requires
            -SCALE <= r0 <= SCALE,
    ;
    lemma_tdiv_bound(r0 * r0, SCALE as int, SCALE as int);
    lemma_fmul_monotone(0, 0, r0 * r0, 0);
}

/// Head-on incidence (`cosine = 1`) reflects exactly `r0^2`.
pub proof fn lemma_schlick_head_on(reflection_index: int)
    requires
        valid_index(reflection_index),
    ensures
        schlick_spec(SCALE as int, reflection_index) == r0_squared(reflection_index),
{
    lemma_r0_squared_bounds(reflection_index);
    assert(pow5_spec(0) == 0);
}

/// `x^5` is odd: `(-x)^5 = -(x^5)`.
pub proof fn lemma_pow5_odd(x: int)
    ensures
        pow5_spec(-x) == -pow5_spec(x),
{
    let a = fmul_spec(x, x);
    lemma_fmul_odd(x, x);
    lemma_fmul_odd(x, -x);
    assert(x * (-x) == (-x) * x) by (nonlinear_arith);
    assert(fmul_spec(-x, -x) == a);
    let b = fmul_spec(x, a);
    lemma_fmul_odd(x, a);
    assert(fmul_spec(-x, a) == -b);
    let c = fmul_spec(x, b);
    lemma_fmul_odd(x, -b);
    assert(fmul_spec(x, -b) == -c) by {
        assert(x * (-b) == (-x) * b) by (nonlinear_arith);
        lemma_fmul_odd(x, b);
    }
    assert(fmul_spec(-x, -b) == c);
    let d = fmul_spec(x, c);
    lemma_fmul_odd(x, c);
    assert(fmul_spec(-x, c) == -d);
}

/// `x^5` is nonnegative and monotone on nonnegative arguments.
proof fn lemma_pow5_monotone_nonneg(x1: int, x2: int)
    requires
        0 <= x1 <= x2,
    ensures
        0 <= pow5_spec(x1) <= pow5_spec(x2),
{
    lemma_fmul_monotone(x1, x1, x2, x2);
    let a1 = fmul_spec(x1, x1);
    let a2 = fmul_spec(x2, x2);
    lemma_fmul_monotone(x1, a1, x2, a2);
    let b1 = fmul_spec(x1, a1);
    let b2 = fmul_spec(x2, a2);
    lemma_fmul_monotone(x1, b1, x2, b2);
    let c1 = fmul_spec(x1, b1);
    let c2 = fmul_spec(x2, b2);
    lemma_fmul_monotone(x1, c1, x2, c2);
}

/// `x^5` is monotone on all arguments.
pub proof fn lemma_pow5_monotone(x1: int, x2: int)
    requires
        x1 <= x2,
    ensures
        pow5_spec(x1) <= pow5_spec(x2),
{
    if 0 <= x1 {
        lemma_pow5_monotone_nonneg(x1, x2);
    } else if x2 <= 0 {
        lemma_pow5_monotone_nonneg(-x2, -x1);
        lemma_pow5_odd(-x1);
        lemma_pow5_odd(-x2);
    } else {
        lemma_pow5_monotone_nonneg(0, -x1);
        lemma_pow5_odd(-x1);
        lemma_pow5_monotone_nonneg(0, x2);
    }
}

/// For a fixed index, reflectance never decreases as `1 - cosine` grows, for every
/// representable cosine.
pub proof fn lemma_schlick_monotone(cosine1: int, cosine2: int, reflection_index: int)
    requires
        valid_index(reflection_index),
        in_range(cosine1),
        in_range(cosine2),
        cosine2 <= cosine1,
    ensures
        schlick_spec(cosine1, reflection_index) <= schlick_spec(cosine2, reflection_index),
{
    lemma_r0_squared_bounds(reflection_index);
    let r0sq = r0_squared(reflection_index);
    let x1 = clamp(SCALE - cosine1);
    let x2 = clamp(SCALE - cosine2);
    lemma_pow5_monotone(x1, x2);
    let k = clamp(SCALE - r0sq);
    lemma_fmul_monotone_right(k, pow5_spec(x1), pow5_spec(x2));
}

} // verus!
