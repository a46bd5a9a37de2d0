use vstd::prelude::*;

use crate::fixed::{
    fmul, fneg, fsub, spec_fmul, spec_fneg, spec_fsub, spec_tan_half_deg, tan_half_deg, ONE,
};
use crate::materials::in_unit_sphere;
use crate::math::{Ray, Vec3};

verus! {

/// Twice `ONE` and half of it, as fixed-point scalars.
pub const TWO: i64 = 131072;

pub const HALF: i64 = 32768;

/// The thin lens: a defocus disk spanned by two scaled basis vectors.
#[derive(Debug, Clone, Copy)]
pub struct Lens {
    pub u: Vec3<i64>,
    pub v: Vec3<i64>,
}

impl Lens {
    /// Where a disk sample lands: the basis vectors scaled by its coordinates.
    pub open spec fn spec_offset(self, p: Vec3<i64>) -> Vec3<i64> {
        self.u.spec_scale(p.x as int).spec_add(self.v.spec_scale(p.y as int))
    }

    pub fn new(u: Vec3<i64>, v: Vec3<i64>) -> (r: Self)
        ensures
            r == (Lens { u, v }),
    {
        Self { u, v }
    }

    /// A random offset within the defocus disk; with a collapsed disk, the
    /// offset is exactly zero.
    pub fn random_offset(&self) -> (r: Vec3<i64>)
        ensures
            exists|p: Vec3<i64>| in_unit_sphere(p) && p.z == 0 && r == self.spec_offset(p),
            self.u == (Vec3 { x: 0i64, y: 0i64, z: 0i64 }) && self.v == (Vec3 {
                x: 0i64,
                y: 0i64,
                z: 0i64,
            }) ==> r == (Vec3 { x: 0i64, y: 0i64, z: 0i64 }),
    {
        let p = Vec3::random_in_unit_disk();
        let r = self.u.mul(p.x).add(&self.v.mul(p.y));
        proof {
            assert(in_unit_sphere(p) && p.z == 0 && r == self.spec_offset(p));
        }
        r
    }
}

/// `CameraBuilder` builds a camera from the user-facing parameters. Angles
/// are in fixed-point degrees.
#[derive(Debug, Clone, Copy)]
pub struct CameraBuilder {
    pub position: Vec3<i64>,
    pub target: Vec3<i64>,
    pub up: Vec3<i64>,
    pub vertical_fov: i64,
    pub aspect_ratio: i64,
    pub defocus_angle: i64,
    pub focus_distance: i64,
}

/// The derived camera: eye position, the upper-left corner of the viewport,
/// the viewport-spanning basis vectors, and the lens.
#[derive(Debug, Clone, Copy)]
pub struct Camera {
    pub position: Vec3<i64>,
    pub upper_left_corner: Vec3<i64>,
    pub horizontal: Vec3<i64>,
    pub minus_vertical: Vec3<i64>,
    pub lens: Lens,
}

/// What building a camera computes: the viewport extent from the field of
/// view and focus distance, the orthonormal-by-construction basis from
/// position, target and up, and the defocus disk from the defocus angle.
pub open spec fn spec_build(b: CameraBuilder) -> Camera {
    let h = spec_tan_half_deg(b.vertical_fov as int);
    let height = spec_fmul(spec_fmul(TWO as int, h), b.focus_distance as int);
    let width = spec_fmul(b.aspect_ratio as int, height);
    let w = b.position.spec_sub(b.target).spec_normalize();
    let u = b.up.spec_cross(w).spec_normalize();
    let v = w.spec_cross(u);
    let horizontal = u.spec_scale(width);
    let vertical = v.spec_scale(height);
    let defocus_radius = spec_fmul(
        spec_tan_half_deg(b.defocus_angle as int),
        b.focus_distance as int,
    );
    Camera {
        position: b.position,
        upper_left_corner: b.position.spec_sub(horizontal.spec_scale(HALF as int)).spec_add(
            vertical.spec_scale(HALF as int),
        ).spec_sub(w.spec_scale(b.focus_distance as int)),
        horizontal,
        minus_vertical: vertical.spec_neg(),
        lens: Lens { u: u.spec_scale(defocus_radius), v: v.spec_scale(defocus_radius) },
    }
}

/// The ray a camera casts for a viewport offset, given where the lens sample
/// landed: from the displaced eye toward the offset point of the viewport.
pub open spec fn spec_ray_to_viewport(c: Camera, offset: (i64, i64), lens_offset: Vec3<i64>) -> Ray {
    let point = c.upper_left_corner.spec_add(c.horizontal.spec_scale(offset.0 as int)).spec_add(
        c.minus_vertical.spec_scale(offset.1 as int),
    );
    let origin = c.position.spec_add(lens_offset);
    Ray { origin, direction: point.spec_sub(origin) }
}

/// A ray the camera may cast for this offset: the cast for some lens sample.
pub open spec fn primary_ray_ok(c: Camera, offset: (i64, i64), r: Ray) -> bool {
    exists|p: Vec3<i64>|
        in_unit_sphere(p) && p.z == 0 && r == spec_ray_to_viewport(c, offset, c.lens.spec_offset(p))
}

impl CameraBuilder {
    /// Sets `Camera` position.
    pub fn position(self, position: Vec3<i64>) -> (r: Self)
        ensures
            r == (CameraBuilder { position, ..self }),
    {
        CameraBuilder { position, ..self }
    }

    /// Sets `Camera` target.
    pub fn target(self, target: Vec3<i64>) -> (r: Self)
        ensures
            r == (CameraBuilder { target, ..self }),
    {
        CameraBuilder { target, ..self }
    }

    /// Sets `Camera` up vector.
    pub fn up(self, up: Vec3<i64>) -> (r: Self)
        ensures
            r == (CameraBuilder { up, ..self }),
    {
        CameraBuilder { up, ..self }
    }

    /// Sets `Camera` vertical field of view, in fixed-point degrees.
    pub fn vertical_fov(self, vertical_fov: i64) -> (r: Self)
        ensures
            r == (CameraBuilder { vertical_fov, ..self }),
    {
        CameraBuilder { vertical_fov, ..self }
    }

    /// Sets `Camera` viewport aspect ratio.
    pub fn aspect_ratio(self, aspect_ratio: i64) -> (r: Self)
        ensures
            r == (CameraBuilder { aspect_ratio, ..self }),
    {
        CameraBuilder { aspect_ratio, ..self }
    }

    /// Sets `Camera` defocus angle, in fixed-point degrees.
    pub fn defocus_angle(self, defocus_angle: i64) -> (r: Self)
        ensures
            r == (CameraBuilder { defocus_angle, ..self }),
    {
        CameraBuilder { defocus_angle, ..self }
    }

    /// Sets `Camera` focus distance.
    pub fn focus_distance(self, focus_distance: i64) -> (r: Self)
        ensures
            r == (CameraBuilder { focus_distance, ..self }),
    {
        CameraBuilder { focus_distance, ..self }
    }

    /// Returns built `Camera`. The position must differ from the target, and
    /// the up vector must not be parallel to the viewing direction, so that
    /// the camera basis is defined.
    pub fn build(self) -> (r: Camera)
        requires
            self.position.spec_sub(self.target).spec_sq_mag() > 0,
            self.up.spec_cross(
                self.position.spec_sub(self.target).spec_normalize(),
            ).spec_sq_mag() > 0,
        ensures
            r == spec_build(self),
    {
        let h = tan_half_deg(self.vertical_fov);
        let height = fmul(fmul(TWO, h), self.focus_distance);
        let width = fmul(self.aspect_ratio, height);
        let w = self.position.sub(&self.target).normalize();
        let u = self.up.cross(&w).normalize();
        let v = w.cross(&u);
        let horizontal = u.mul(width);
        let vertical = v.mul(height);
        let defocus_radius = fmul(tan_half_deg(self.defocus_angle), self.focus_distance);
        Camera {
            position: self.position,
            upper_left_corner: self.position.sub(&horizontal.mul(HALF)).add(
                &vertical.mul(HALF),
            ).sub(&w.mul(self.focus_distance)),
            horizontal,
            minus_vertical: vertical.neg(),
            lens: Lens::new(u.mul(defocus_radius), v.mul(defocus_radius)),
        }
    }
}

/// The parameters the camera starts from: eye at the origin looking down the
/// negative z axis, a quarter-turn vertical field of view, a sixteen-to-nine
/// viewport, no defocus, and a focus distance of one.
pub open spec fn spec_default_builder() -> CameraBuilder {
    CameraBuilder {
        position: Vec3 { x: 0i64, y: 0i64, z: 0i64 },
        target: Vec3 { x: 0i64, y: 0i64, z: -65536i64 },
        up: Vec3 { x: 0i64, y: 65536i64, z: 0i64 },
        vertical_fov: 5898240i64,
        aspect_ratio: 116508i64,
        defocus_angle: 0i64,
        focus_distance: 65536i64,
    }
}

impl Camera {
    /// Returns a `CameraBuilder` with the default parameters, to set up the
    /// camera.
    pub fn new() -> (r: CameraBuilder)
        ensures
            r == spec_default_builder(),
    {
        CameraBuilder {
            position: Vec3::new(0, 0, 0),
            target: Vec3::new(0, 0, -65536),
            up: Vec3::new(0, 65536, 0),
            vertical_fov: 5898240,
            aspect_ratio: 116508,
            defocus_angle: 0,
            focus_distance: 65536,
        }
    }

    /// Returns a ray toward the viewport point at the given normalized
    /// offsets in `0..=ONE`, its origin jittered over the defocus disk; with
    /// a collapsed disk the ray is exactly the one through the eye.
    pub fn ray_to_viewport(&self, offset: &(i64, i64)) -> (r: Ray)
        ensures
            primary_ray_ok(*self, *offset, r),
            self.lens.u == (Vec3 { x: 0i64, y: 0i64, z: 0i64 }) && self.lens.v == (Vec3 {
                x: 0i64,
                y: 0i64,
                z: 0i64,
            }) ==> r == spec_ray_to_viewport(
                *self,
                *offset,
                Vec3 { x: 0i64, y: 0i64, z: 0i64 },
            ),
    {
        let lens_offset = self.lens.random_offset();
        let point = self.upper_left_corner.add(&self.horizontal.mul(offset.0)).add(
            &self.minus_vertical.mul(offset.1),
        );
        let origin = self.position.add(&lens_offset);
        let r = Ray::new(origin, point.sub(&origin));
        proof {
            let p = choose|p: Vec3<i64>|
                in_unit_sphere(p) && p.z == 0 && lens_offset == self.lens.spec_offset(p);
            assert(r == spec_ray_to_viewport(*self, *offset, self.lens.spec_offset(p)));
        }
        r
    }
}

impl core::default::Default for Camera {
    /// The camera built from the default parameters.
    fn default() -> (r: Self)
        ensures
            r == spec_build(spec_default_builder()),
    {
        proof {
            lemma_default_builder_valid();
        }
        Camera::new().build()
    }
}

/// The default parameters satisfy what building a camera asks: the viewing
/// direction has length, and the up vector is not parallel to it.
pub proof fn lemma_default_builder_valid()
    ensures
        spec_default_builder().position.spec_sub(
            spec_default_builder().target,
        ).spec_sq_mag() > 0,
        spec_default_builder().up.spec_cross(
            spec_default_builder().position.spec_sub(spec_default_builder().target)
                .spec_normalize(),
        ).spec_sq_mag() > 0,
        spec_default_builder().position.spec_sub(spec_default_builder().target).spec_normalize()
            == (Vec3 { x: 0i64, y: 0i64, z: 65536i64 }),
{
    let b = spec_default_builder();
    let d = b.position.spec_sub(b.target);
    assert(d == (Vec3 { x: 0i64, y: 0i64, z: 65536i64 }));
    assert(d.spec_sq_mag() == 65536);
    assert(65536nat * 65536nat == 4294967296nat) by (nonlinear_arith);
    assert((65536nat + 1) * (65536nat + 1) == 4295098369nat) by (nonlinear_arith);
    crate::fixed::lemma_isqrt_unique((65536int * 65536) as nat, 65536nat);
    assert(d.spec_len() == 65536);
    assert(d.spec_normalize() == (Vec3 { x: 0i64, y: 0i64, z: 65536i64 }));
    let u0 = b.up.spec_cross(d.spec_normalize());
    assert(u0 == (Vec3 { x: 65536i64, y: 0i64, z: 0i64 }));
    assert(u0.spec_sq_mag() == 65536);
}


/// The camera built from the default parameters casts the centered viewport
/// ray straight down the negative z axis: its defocus disk is collapsed, so
/// every cast for the centered offset leaves the origin exactly, and the
/// halved viewport spans cancel against the corner.
#[verifier::rlimit(100)]
pub proof fn lemma_default_camera_center_ray(r: Ray)
    requires
        primary_ray_ok(spec_build(spec_default_builder()), (HALF, HALF), r),
    ensures
        r.origin == (Vec3 { x: 0i64, y: 0i64, z: 0i64 }),
        r.direction == (Vec3 { x: 0i64, y: 0i64, z: -65536i64 }),
{
    let b = spec_default_builder();
    let cam = spec_build(b);
    lemma_default_builder_valid();
    let w = b.position.spec_sub(b.target).spec_normalize();
    assert(w == (Vec3 { x: 0i64, y: 0i64, z: 65536i64 }));
    let u0 = b.up.spec_cross(w);
    assert(u0 == (Vec3 { x: 65536i64, y: 0i64, z: 0i64 }));
    assert(u0.spec_sq_mag() == 65536);
    assert(65536nat * 65536nat == 4294967296nat) by (nonlinear_arith);
    assert((65536nat + 1) * (65536nat + 1) == 4295098369nat) by (nonlinear_arith);
    crate::fixed::lemma_isqrt_unique((65536int * 65536) as nat, 65536nat);
    assert(u0.spec_len() == 65536);
    let u = u0.spec_normalize();
    assert(u == (Vec3 { x: 65536i64, y: 0i64, z: 0i64 }));
    let v = w.spec_cross(u);
    assert(v == (Vec3 { x: 0i64, y: 65536i64, z: 0i64 }));
    let p = choose|p: Vec3<i64>|
        crate::materials::in_unit_sphere(p) && p.z == 0 && r == spec_ray_to_viewport(
            cam,
            (HALF, HALF),
            cam.lens.spec_offset(p),
        );
    let dr = spec_fmul(spec_tan_half_deg(b.defocus_angle as int), b.focus_distance as int);
    assert(spec_tan_half_deg(0) == 0);
    assert(dr == 0);
    crate::fixed::lemma_fmul_unit(u.x as int);
    crate::fixed::lemma_fmul_unit(u.y as int);
    crate::fixed::lemma_fmul_unit(u.z as int);
    crate::fixed::lemma_fmul_unit(v.x as int);
    crate::fixed::lemma_fmul_unit(v.y as int);
    crate::fixed::lemma_fmul_unit(v.z as int);
    assert(cam.lens.u == (Vec3 { x: 0i64, y: 0i64, z: 0i64 }));
    assert(cam.lens.v == (Vec3 { x: 0i64, y: 0i64, z: 0i64 }));
    crate::fixed::lemma_fmul_unit(p.x as int);
    crate::fixed::lemma_fmul_unit(p.y as int);
    assert(cam.lens.spec_offset(p) == (Vec3 { x: 0i64, y: 0i64, z: 0i64 }));
    assert(r.origin == cam.position.spec_add(Vec3 { x: 0i64, y: 0i64, z: 0i64 }));
    assert(r.origin == (Vec3 { x: 0i64, y: 0i64, z: 0i64 }));
    let h = spec_tan_half_deg(b.vertical_fov as int);
    let height = spec_fmul(spec_fmul(TWO as int, h), b.focus_distance as int);
    let width = spec_fmul(b.aspect_ratio as int, height);
    crate::fixed::lemma_fmul_unit(width);
    crate::fixed::lemma_fmul_unit(height);
    assert(cam.horizontal == u.spec_scale(width));
    assert(cam.horizontal.y == 0 && cam.horizontal.z == 0);
    assert(cam.minus_vertical == v.spec_scale(height).spec_neg());
    assert(cam.minus_vertical.x == 0 && cam.minus_vertical.z == 0);
    let mh = cam.horizontal.spec_scale(HALF as int);
    let mv = v.spec_scale(height).spec_scale(HALF as int);
    assert(cam.upper_left_corner == b.position.spec_sub(mh).spec_add(mv).spec_sub(
        w.spec_scale(65536),
    ));
    crate::fixed::lemma_fmul_unit(65536);
    assert(w.spec_scale(65536) == (Vec3 { x: 0i64, y: 0i64, z: 65536i64 }));
    let point = cam.upper_left_corner.spec_add(cam.horizontal.spec_scale(HALF as int)).spec_add(
        cam.minus_vertical.spec_scale(HALF as int),
    );
    assert(cam.minus_vertical.spec_scale(HALF as int).x == 0);
    assert(point.x == 0 && point.y == 0 && point.z == -65536);
    assert(r.direction == point.spec_sub(r.origin));
}

} // verus!
