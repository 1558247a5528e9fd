//! A thin-lens camera that turns image-plane coordinates into world-space rays.
use crate::fixed::{clamp, fmul, fmul_spec, in_range, saturate, tdiv, trunc_div};
use crate::helper::random_in_unit_circle;
use crate::ray::Ray;
use crate::vec3::{add_spec, cross_spec, direction_spec, dot_spec, scale_spec, sub_spec, Vec3};
use rand::rngs::StdRng;
use vstd::prelude::*;

verus! {

/// The camera's frame: its position, the image rectangle on the plane of focus, and the
/// lens basis `(u, v)`.
#[derive(Clone, Copy, Debug, PartialEq, Eq, Structural)]
pub struct Camera {
    pub origin: Vec3,
    pub lower_left_corner: Vec3,
    pub horizontal: Vec3,
    pub vertical: Vec3,
    pub lens_radius: i64,
    pub u: Vec3,
    pub v: Vec3,
}

/// The camera set at `look_from`, aimed at `look_at`, with the view-up vector `up`;
/// `half_height` is the tangent of half the vertical field of view.
pub open spec fn camera_spec(
    look_from: Vec3,
    look_at: Vec3,
    up: Vec3,
    half_height: int,
    aspect_ratio: int,
    aperture: int,
    focus_distance: int,
) -> Camera {
    let half_width = fmul_spec(aspect_ratio, half_height);
    let w = direction_spec(sub_spec(look_from, look_at));
    let u = direction_spec(cross_spec(up, w));
    let v = cross_spec(w, u);
    let across = scale_spec(fmul_spec(half_width, focus_distance), u);
    let down = scale_spec(fmul_spec(half_height, focus_distance), v);
    let back = scale_spec(focus_distance, w);
    Camera {
        origin: look_from,
        lower_left_corner: sub_spec(sub_spec(sub_spec(look_from, across), down), back),
        horizontal: scale_spec(fmul_spec(clamp(2 * half_width), focus_distance), u),
        vertical: scale_spec(fmul_spec(clamp(2 * half_height), focus_distance), v),
        lens_radius: tdiv(aperture, 2) as i64,
        u,
        v,
    }
}

/// The ray through image coordinates `(s, t)` from the lens point `disk` of the unit disk.
pub open spec fn ray_spec(c: Camera, s: int, t: int, disk: Vec3) -> Ray {
    let rd = scale_spec(c.lens_radius as int, disk);
    let offset = add_spec(scale_spec(rd.x as int, c.u), scale_spec(rd.y as int, c.v));
    let target = add_spec(add_spec(c.lower_left_corner, scale_spec(s, c.horizontal)), scale_spec(t, c.vertical));
    Ray { origin: add_spec(c.origin, offset), direction: sub_spec(sub_spec(target, c.origin), offset) }
}

/// A camera built with no aperture is a pinhole: every ray leaves from `look_from`, and
/// its direction depends on the image coordinates alone, whatever the lens sample.
pub proof fn lemma_pinhole(
    look_from: Vec3,
    look_at: Vec3,
    up: Vec3,
    half_height: int,
    aspect_ratio: int,
    focus_distance: int,
    s: int,
    t: int,
    disk: Vec3,
)
    requires
        look_from.wf(),
        disk.wf(),
    ensures
        ray_spec(camera_spec(look_from, look_at, up, half_height, aspect_ratio, 0, focus_distance), s, t, disk).origin
            == look_from,
        ray_spec(camera_spec(look_from, look_at, up, half_height, aspect_ratio, 0, focus_distance), s, t, disk).direction
            == ({
            let c = camera_spec(look_from, look_at, up, half_height, aspect_ratio, 0, focus_distance);
            sub_spec(add_spec(add_spec(c.lower_left_corner, scale_spec(s, c.horizontal)), scale_spec(t, c.vertical)), look_from)
        }),
{
    let c = camera_spec(look_from, look_at, up, half_height, aspect_ratio, 0, focus_distance);
    let zero = Vec3 { x: 0, y: 0, z: 0 };
    assert(c.lens_radius == 0);
    assert(scale_spec(0, disk) == zero);
    assert(scale_spec(0, c.u) == zero);
    assert(scale_spec(0, c.v) == zero);
    assert(add_spec(zero, zero) == zero);
    assert(add_spec(look_from, zero) == look_from);
    let target = add_spec(add_spec(c.lower_left_corner, scale_spec(s, c.horizontal)), scale_spec(t, c.vertical));
    let d = sub_spec(target, look_from);
    assert(sub_spec(d, zero) == d);
}

impl Camera {
    pub open spec fn wf(&self) -> bool {
        &&& self.origin.wf()
        &&& self.lower_left_corner.wf()
        &&& self.horizontal.wf()
        &&& self.vertical.wf()
        &&& in_range(self.lens_radius as int)
        &&& self.u.wf()
        &&& self.v.wf()
    }

    /// Derives the camera's frame from where it stands and looks; `half_height` is
    /// `tan(vertical_fov / 2)`.
    pub fn new(
        look_from: Vec3,
        look_at: Vec3,
        up: Vec3,
        half_height: i64,
        aspect_ratio: i64,
        aperture: i64,
        focus_distance: i64,
    ) -> (r: Camera)
        requires
            look_from.wf(),
            look_at.wf(),
            up.wf(),
            in_range(half_height as int),
            in_range(aspect_ratio as int),
            in_range(aperture as int),
            in_range(focus_distance as int),
        ensures
            r == camera_spec(
                look_from,
                look_at,
                up,
                half_height as int,
                aspect_ratio as int,
                aperture as int,
                focus_distance as int,
            ),
            r.wf(),
    {
        let half_width: i64 = fmul(aspect_ratio, half_height);
        let w: Vec3 = Vec3::sub(look_from, look_at).direction();
        let u: Vec3 = Vec3::cross(up, w).direction();
        let v: Vec3 = Vec3::cross(w, u);
        let across: Vec3 = Vec3::scale(fmul(half_width, focus_distance), u);
        let down: Vec3 = Vec3::scale(fmul(half_height, focus_distance), v);
        let back: Vec3 = Vec3::scale(focus_distance, w);
        Camera {
            origin: look_from,
            lower_left_corner: Vec3::sub(Vec3::sub(Vec3::sub(look_from, across), down), back),
            horizontal: Vec3::scale(fmul(saturate(2 * half_width), focus_distance), u),
            vertical: Vec3::scale(fmul(saturate(2 * half_height), focus_distance), v),
            lens_radius: trunc_div(aperture, 2),
            u,
            v,
        }
    }

    /// The ray through image coordinates `(s, t)`, leaving the lens at `disk`, a point of
    /// the unit disk.
    pub fn get_ray_with(&self, s: i64, t: i64, disk: Vec3) -> (r: Ray)
        requires
            self.wf(),
            in_range(s as int),
            in_range(t as int),
            disk.wf(),
        ensures
            r == ray_spec(*self, s as int, t as int, disk),
            r.wf(),
    {
        let rd: Vec3 = Vec3::scale(self.lens_radius, disk);
        let offset: Vec3 = Vec3::add(Vec3::scale(rd.x, self.u), Vec3::scale(rd.y, self.v));
        let target: Vec3 = Vec3::add(
            Vec3::add(self.lower_left_corner, Vec3::scale(s, self.horizontal)),
            Vec3::scale(t, self.vertical),
        );
        Ray { origin: Vec3::add(self.origin, offset), direction: Vec3::sub(Vec3::sub(target, self.origin), offset) }
    }

    /// The ray through image coordinates `(s, t)` from a random point of the lens.
    pub fn get_ray(&self, s: i64, t: i64, rng: &mut StdRng) -> (r: Ray)
        requires
            self.wf(),
            in_range(s as int),
            in_range(t as int),
        ensures
            exists|disk: Vec3| disk.wf() && disk.z == 0 && dot_spec(disk, disk) < crate::fixed::SCALE
                && r == ray_spec(*self, s as int, t as int, disk),
            self.lens_radius == 0 ==> r == ray_spec(*self, s as int, t as int, Vec3 { x: 0, y: 0, z: 0 }),
            r.wf(),
    {
        let disk: Vec3 = random_in_unit_circle(rng);
        let r = self.get_ray_with(s, t, disk);
        assert(disk.wf() && disk.z == 0 && dot_spec(disk, disk) < crate::fixed::SCALE
            && r == ray_spec(*self, s as int, t as int, disk));
        assert(self.lens_radius == 0 ==> scale_spec(0, disk) == scale_spec(0, Vec3 { x: 0, y: 0, z: 0 }));
        r
    }
}

} // verus!
