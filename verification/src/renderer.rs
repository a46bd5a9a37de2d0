use vstd::prelude::*;

use crate::camera::{primary_ray_ok, Camera, HALF};
use crate::fixed::{fadd, fdiv, fmul, fsub, spec_fadd, spec_fdiv, spec_fmul, spec_fsub, MAX_FIXED,
    ONE};
use crate::hit::HitRecord;
use crate::image_write::ImageWrite;
use crate::materials::scatter_possible;
use crate::math::Ray;
use crate::random::random_in_range;
use crate::rgb::RGB;
use crate::scene::{closest_hit_of, Scene};

verus! {

/// The lower edge of the parameter window the integrator traces over,
/// shaving off hits of the surface a ray just left.
pub const T_EPS: i64 = 66;

/// What a ray that missed everything contributes: a constant color, or a
/// vertical gradient between two colors read off the ray's direction.
#[derive(Debug, Clone, Copy)]
pub enum Background {
    Constant(RGB),
    Gradient { low: RGB, high: RGB },
}

/// The background color for a ray: for a gradient, the blend rises with the
/// normalized direction's vertical component; a ray without direction reads
/// the low color.
pub open spec fn spec_background(bg: Background, ray: Ray) -> RGB {
    match bg {
        Background::Constant(c) => c,
        Background::Gradient { low, high } => {
            if ray.direction.spec_sq_mag() <= 0 {
                low
            } else {
                let unit = ray.direction.spec_normalize();
                let t = spec_fmul(HALF as int, spec_fadd(unit.y as int, ONE as int));
                low.spec_scale(spec_fsub(ONE as int, t)).spec_add(high.spec_scale(t))
            }
        },
    }
}

/// Evaluates a background on a ray.
pub fn background_color(bg: &Background, ray: &Ray) -> (r: RGB)
    ensures
        r == spec_background(*bg, *ray),
{
    match bg {
        Background::Constant(c) => *c,
        Background::Gradient { low, high } => {
            if ray.direction().squared_magnitude() <= 0 {
                *low
            } else {
                let unit = ray.direction().normalize();
                let t = fmul(HALF, fadd(unit.y, ONE));
                low.scale(fsub(ONE, t)).add(&high.scale(t))
            }
        },
    }
}

/// What the path integrator may return for a ray at a given depth: black at
/// depth zero; past that, the scene's nearest hit decides — a miss reads the
/// background, an absorbed bounce is black, and a scattered bounce multiplies
/// the attenuation into some admissible color of the scattered ray one level
/// down.
pub open spec fn ray_color_ok(scene: Scene, bg: Background, ray: Ray, depth: int, c: RGB) -> bool
    decreases depth,
{
    if depth <= 0 {
        c == RGB(0i64, 0i64, 0i64)
    } else {
        ||| closest_hit_of(scene.objects@, ray, T_EPS as int, MAX_FIXED as int, None)
            && c == spec_background(bg, ray)
        ||| exists|rec: HitRecord|
            #[trigger] closest_hit_of(scene.objects@, ray, T_EPS as int, MAX_FIXED as int, Some(rec))
                && scatter_possible(rec.material, ray, rec, None) && c == RGB(0i64, 0i64, 0i64)
        ||| exists|rec: HitRecord, scattered: Ray, attenuation: RGB, c2: RGB|
            #![trigger scatter_possible(rec.material, ray, rec, Some((scattered, attenuation))), attenuation.spec_mul(c2)]
            {
                &&& closest_hit_of(scene.objects@, ray, T_EPS as int, MAX_FIXED as int, Some(rec))
                &&& scatter_possible(rec.material, ray, rec, Some((scattered, attenuation)))
                &&& ray_color_ok(scene, bg, scattered, depth - 1, c2)
                &&& c == attenuation.spec_mul(c2)
            }
    }
}

/// A normalized viewport coordinate for a pixel index: the index plus a
/// jitter, over one less than the extent (or over one, for a single row or
/// column).
pub open spec fn spec_pixel_axis(idx: int, extent: int, jitter: int) -> int {
    spec_fdiv(idx * ONE + jitter, if extent > 1 {
        (extent - 1) * ONE
    } else {
        ONE as int
    })
}

fn pixel_axis(idx: usize, extent: usize, jitter: i64) -> (r: i64)
    requires
        idx < extent,
        extent <= 0x100000,
        0 <= jitter < ONE,
    ensures
        r == spec_pixel_axis(idx as int, extent as int, jitter as int),
{
    let num = (idx as i64) * 65536 + jitter;
    let den = if extent > 1 {
        ((extent - 1) as i64) * 65536
    } else {
        65536
    };
    fdiv(num, den)
}

/// One admissible sample for a pixel: some jitter pair, some primary ray the
/// camera may cast at the jittered coordinates, and some color the integrator
/// may assign to it.
pub open spec fn sample_ok(ren: Renderer, x: int, y: int, w: int, h: int, c: RGB) -> bool {
    exists|jx: int, jy: int, r: Ray|
        0 <= jx < ONE && 0 <= jy < ONE && #[trigger] primary_ray_ok(
            ren.camera,
            (spec_pixel_axis(x, w, jx) as i64, spec_pixel_axis(y, h, jy) as i64),
            r,
        ) && ray_color_ok(ren.scene, ren.ray_miss, r, ren.ray_depth as int, c)
}

/// The sum of a collection of colors, taken in order.
pub open spec fn rgb_sum(s: Seq<RGB>) -> RGB
    decreases s.len(),
{
    if s.len() == 0 {
        RGB(0i64, 0i64, 0i64)
    } else {
        rgb_sum(s.drop_last()).spec_add(s.last())
    }
}

/// An admissible finished pixel: the average of `sample_count` admissible
/// samples, tone-mapped.
pub open spec fn pixel_ok(ren: Renderer, x: int, y: int, w: int, h: int, p: RGB) -> bool {
    exists|samples: Seq<RGB>|
        {
            &&& samples.len() == ren.sample_count
            &&& forall|i: int| 0 <= i < samples.len() ==> sample_ok(ren, x, y, w, h, #[trigger] samples[i])
            &&& p == rgb_sum(samples).spec_div_count(
                ren.sample_count as int,
            ).spec_correct_gamma()
        }
}


/// A miss at positive depth colors the ray with the background.
proof fn lemma_ray_color_miss(scene: Scene, bg: Background, ray: Ray, depth: int, c: RGB)
    requires
        depth > 0,
        closest_hit_of(scene.objects@, ray, T_EPS as int, MAX_FIXED as int, None),
        c == spec_background(bg, ray),
    ensures
        ray_color_ok(scene, bg, ray, depth, c),
{
}

/// An absorbed bounce at positive depth colors the ray black.
proof fn lemma_ray_color_absorbed(scene: Scene, bg: Background, ray: Ray, depth: int, rec: HitRecord)
    requires
        depth > 0,
        closest_hit_of(scene.objects@, ray, T_EPS as int, MAX_FIXED as int, Some(rec)),
        scatter_possible(rec.material, ray, rec, None),
    ensures
        ray_color_ok(scene, bg, ray, depth, RGB(0i64, 0i64, 0i64)),
{
    assert(exists|rec2: HitRecord|
        #[trigger] closest_hit_of(scene.objects@, ray, T_EPS as int, MAX_FIXED as int, Some(rec2))
            && scatter_possible(rec2.material, ray, rec2, None) && RGB(0i64, 0i64, 0i64) == RGB(
            0i64,
            0i64,
            0i64,
        ));
}

/// A scattered bounce at positive depth multiplies the attenuation into an
/// admissible color of the scattered ray.
proof fn lemma_ray_color_scattered(
    scene: Scene,
    bg: Background,
    ray: Ray,
    depth: int,
    rec: HitRecord,
    scattered: Ray,
    attenuation: RGB,
    c2: RGB,
    c: RGB,
)
    requires
        depth > 0,
        closest_hit_of(scene.objects@, ray, T_EPS as int, MAX_FIXED as int, Some(rec)),
        scatter_possible(rec.material, ray, rec, Some((scattered, attenuation))),
        ray_color_ok(scene, bg, scattered, depth - 1, c2),
        c == attenuation.spec_mul(c2),
    ensures
        ray_color_ok(scene, bg, ray, depth, c),
{
    assert(exists|rec2: HitRecord, s2: Ray, a2: RGB, cc2: RGB|
        #![trigger scatter_possible(rec2.material, ray, rec2, Some((s2, a2))), a2.spec_mul(cc2)]
        {
            &&& closest_hit_of(scene.objects@, ray, T_EPS as int, MAX_FIXED as int, Some(rec2))
            &&& scatter_possible(rec2.material, ray, rec2, Some((s2, a2)))
            &&& ray_color_ok(scene, bg, s2, depth - 1, cc2)
            &&& c == a2.spec_mul(cc2)
        });
}

/// Renders a scene to an image buffer: an immutable bundle of the scene, the
/// camera, the per-pixel sampling budget, the path depth bound, and the
/// background.
pub struct Renderer {
    pub scene: Scene,
    pub camera: Camera,
    pub sample_count: usize,
    pub ray_depth: usize,
    pub ray_miss: Background,
}

/// `RendererBuilder` builds a renderer with set parameters.
pub struct RendererBuilder {
    pub scene: Scene,
    pub camera: Camera,
    pub sample_count: usize,
    pub ray_depth: usize,
    pub ray_miss: Background,
}

impl RendererBuilder {
    /// Sets count of samples per pixel.
    pub fn sample_count(self, sample_count: usize) -> (r: Self)
        ensures
            r.sample_count == sample_count,
            r.scene == self.scene && r.camera == self.camera && r.ray_depth == self.ray_depth
                && r.ray_miss == self.ray_miss,
    {
        RendererBuilder { sample_count, ..self }
    }

    /// Sets maximum ray refraction/reflection count.
    pub fn ray_depth(self, ray_depth: usize) -> (r: Self)
        ensures
            r.ray_depth == ray_depth,
            r.scene == self.scene && r.camera == self.camera && r.sample_count
                == self.sample_count && r.ray_miss == self.ray_miss,
    {
        RendererBuilder { ray_depth, ..self }
    }

    /// Sets the color of rays that miss the scene.
    pub fn ray_miss(self, ray_miss: Background) -> (r: Self)
        ensures
            r.ray_miss == ray_miss,
            r.scene == self.scene && r.camera == self.camera && r.sample_count
                == self.sample_count && r.ray_depth == self.ray_depth,
    {
        RendererBuilder { ray_miss, ..self }
    }

    /// Returns built `Renderer`.
    pub fn build(self) -> (r: Renderer)
        ensures
            r.scene == self.scene && r.camera == self.camera && r.sample_count
                == self.sample_count && r.ray_depth == self.ray_depth && r.ray_miss
                == self.ray_miss,
    {
        Renderer {
            scene: self.scene,
            camera: self.camera,
            sample_count: self.sample_count,
            ray_depth: self.ray_depth,
            ray_miss: self.ray_miss,
        }
    }
}

impl Renderer {
    /// A renderer fit to run: a sound scene and a positive, bounded sampling
    /// budget.
    pub open spec fn wf(self) -> bool {
        self.scene.wf() && 1 <= self.sample_count <= 0x100000
    }

    /// Returns a new `RendererBuilder` with the default sampling budget,
    /// depth bound and black background.
    pub fn new(scene: Scene, camera: Camera) -> (r: RendererBuilder)
        ensures
            r.scene == scene && r.camera == camera && r.sample_count == 100 && r.ray_depth == 50
                && r.ray_miss == Background::Constant(RGB(0i64, 0i64, 0i64)),
    {
        RendererBuilder {
            scene,
            camera,
            sample_count: 100,
            ray_depth: 50,
            ray_miss: Background::Constant(RGB::new(0, 0, 0)),
        }
    }

    /// One color the integrator assigns to a ray, tracing stochastic bounces
    /// down to the depth bound.
    #[verifier::rlimit(100)]
    pub fn ray_color(&self, ray: &Ray, depth: usize) -> (c: RGB)
        requires
            self.scene.wf(),
        ensures
            ray_color_ok(self.scene, self.ray_miss, *ray, depth as int, c),
        decreases depth,
    {
        if depth == 0 {
            return RGB::new(0, 0, 0);
        }
        let res = self.scene.hit(ray, T_EPS, MAX_FIXED);
        match res {
            Some(rec) => {
                let out = rec.material().scatter(ray, &rec);
                match out {
                    Some((scattered, attenuation)) => {
                        let c2 = self.ray_color(&scattered, depth - 1);
                        let c = attenuation.mul(&c2);
                        proof {
                            lemma_ray_color_scattered(self.scene, self.ray_miss, *ray,
                                depth as int, rec, scattered, attenuation, c2, c);
                        }
                        c
                    },
                    None => {
                        proof {
                            lemma_ray_color_absorbed(self.scene, self.ray_miss, *ray,
                                depth as int, rec);
                        }
                        RGB::new(0, 0, 0)
                    },
                }
            },
            None => {
                proof {
                    assert(closest_hit_of(self.scene.objects@, *ray, T_EPS as int,
                        MAX_FIXED as int, res));
                }
                background_color(&self.ray_miss, ray)
            },
        }
    }

    /// One finished pixel: the jittered samples averaged and tone-mapped.
    pub fn render_pixel(&self, x: usize, y: usize, width: usize, height: usize) -> (p: RGB)
        requires
            self.wf(),
            x < width,
            y < height,
            width <= 0x100000,
            height <= 0x100000,
        ensures
            pixel_ok(*self, x as int, y as int, width as int, height as int, p),
    {
        let mut color = RGB::new(0, 0, 0);
        let ghost mut samples: Seq<RGB> = Seq::empty();
        let mut s: usize = 0;
        proof {
            assert(color == rgb_sum(samples));
        }
        while s < self.sample_count
            invariant
                self.wf(),
                x < width,
                y < height,
                width <= 0x100000,
                height <= 0x100000,
                s <= self.sample_count,
                samples.len() == s,
                forall|i: int|
                    0 <= i < samples.len() ==> sample_ok(
                        *self,
                        x as int,
                        y as int,
                        width as int,
                        height as int,
                        #[trigger] samples[i],
                    ),
                color == rgb_sum(samples),
            decreases self.sample_count - s,
        {
            let jx = random_in_range(0, ONE);
            let jy = random_in_range(0, ONE);
            let u = pixel_axis(x, width, jx);
            let v = pixel_axis(y, height, jy);
            let ray = self.camera.ray_to_viewport(&(u, v));
            let c = self.ray_color(&ray, self.ray_depth);
            color = color.add(&c);
            proof {
                assert(u == spec_pixel_axis(x as int, width as int, jx as int) as i64);
                assert(v == spec_pixel_axis(y as int, height as int, jy as int) as i64);
                assert(primary_ray_ok(
                    self.camera,
                    (
                        spec_pixel_axis(x as int, width as int, jx as int) as i64,
                        spec_pixel_axis(y as int, height as int, jy as int) as i64,
                    ),
                    ray,
                ));
                assert(sample_ok(*self, x as int, y as int, width as int, height as int, c));
                let ghost prev = samples;
                samples = samples.push(c);
                assert(samples.drop_last() == prev);
                assert(samples.last() == c);
            }
            s = s + 1;
        }
        let avg = color.div(self.sample_count as i64);
        let p = avg.correct_gamma();
        proof {
            assert(samples.len() == self.sample_count && (forall|i: int|
                0 <= i < samples.len() ==> sample_ok(
                    *self,
                    x as int,
                    y as int,
                    width as int,
                    height as int,
                    #[trigger] samples[i],
                )) && p == rgb_sum(samples).spec_div_count(
                self.sample_count as int,
            ).spec_correct_gamma());
        }
        p
    }

    /// The full image: `width * height` pixels in row-major order, the first
    /// row at the top of the image.
    pub fn render_buffer(&self, width: usize, height: usize) -> (buf: Vec<RGB>)
        requires
            self.wf(),
            1 <= width <= 0x100000,
            1 <= height <= 0x100000,
        ensures
            buf@.len() == width * height,
            forall|k: int|
                0 <= k < buf@.len() ==> pixel_ok(
                    *self,
                    k % (width as int),
                    k / (width as int),
                    width as int,
                    height as int,
                    #[trigger] buf@[k],
                ),
    {
        let mut buf: Vec<RGB> = Vec::new();
        let mut y: usize = 0;
        while y < height
            invariant
                self.wf(),
                1 <= width <= 0x100000,
                1 <= height <= 0x100000,
                y <= height,
                buf@.len() == y * width,
                forall|k: int|
                    0 <= k < buf@.len() ==> pixel_ok(
                        *self,
                        k % (width as int),
                        k / (width as int),
                        width as int,
                        height as int,
                        #[trigger] buf@[k],
                    ),
            decreases height - y,
        {
            let mut x: usize = 0;
            while x < width
                invariant
                    self.wf(),
                    1 <= width <= 0x100000,
                    1 <= height <= 0x100000,
                    y < height,
                    x <= width,
                    buf@.len() == y * width + x,
                    forall|k: int|
                        0 <= k < buf@.len() ==> pixel_ok(
                            *self,
                            k % (width as int),
                            k / (width as int),
                            width as int,
                            height as int,
                            #[trigger] buf@[k],
                        ),
                decreases width - x,
            {
                let p = self.render_pixel(x, y, width, height);
                proof {
                    vstd::arithmetic::div_mod::lemma_fundamental_div_mod_converse_mod(
                        (y * width + x) as int,
                        width as int,
                        y as int,
                        x as int,
                    );
                    vstd::arithmetic::div_mod::lemma_fundamental_div_mod_converse_div(
                        (y * width + x) as int,
                        width as int,
                        y as int,
                        x as int,
                    );
                }
                buf.push(p);
                x = x + 1;
                proof {
                    assert((y as int) * (width as int) + (x as int) <= (height as int) * (width
                        as int)) by (nonlinear_arith)
                        requires
                            0 <= y as int,
                            (y as int) < (height as int),
                            0 <= x as int,
                            (x as int) <= (width as int),
                    ;
                }
            }
            proof {
                assert((y as int) * (width as int) + (width as int) == (y as int + 1) * (width
                    as int)) by (nonlinear_arith);
            }
            y = y + 1;
        }
        proof {
            assert((height as int) * (width as int) == (width as int) * (height as int))
                by (nonlinear_arith);
        }
        buf
    }

    /// Renders the image into an `ImageWrite` sink: the sink receives, in one
    /// write, exactly `width * height` admissible pixels in row-major order,
    /// the first row at the top of the image.
    pub fn render<IW: ImageWrite>(&self, iw: &mut IW)
        requires
            self.wf(),
            1 <= old(iw).spec_bounds().0 <= 0x100000,
            1 <= old(iw).spec_bounds().1 <= 0x100000,
        ensures
            final(iw).spec_bounds() == old(iw).spec_bounds(),
            exists|buf: Seq<RGB>|
                {
                    &&& final(iw).spec_written() == old(iw).spec_written() + buf
                    &&& buf.len() == old(iw).spec_bounds().0 * old(iw).spec_bounds().1
                    &&& forall|k: int|
                        0 <= k < buf.len() ==> pixel_ok(
                            *self,
                            k % (old(iw).spec_bounds().0 as int),
                            k / (old(iw).spec_bounds().0 as int),
                            old(iw).spec_bounds().0 as int,
                            old(iw).spec_bounds().1 as int,
                            #[trigger] buf[k],
                        )
                },
    {
        let bounds = iw.bounds();
        let buf = self.render_buffer(bounds.0, bounds.1);
        iw.write_all(buf.as_slice());
        proof {
            assert(iw.spec_written() == old(iw).spec_written() + buf@ && buf@.len() == old(
                iw,
            ).spec_bounds().0 * old(iw).spec_bounds().1 && forall|k: int|
                0 <= k < buf@.len() ==> pixel_ok(
                    *self,
                    k % (old(iw).spec_bounds().0 as int),
                    k / (old(iw).spec_bounds().0 as int),
                    old(iw).spec_bounds().0 as int,
                    old(iw).spec_bounds().1 as int,
                    #[trigger] buf@[k],
                ));
        }
    }
}

/// Over an empty scene, a positive depth, and a constant background, the
/// integrator's color is forced: every ray misses and reads the constant.
pub proof fn lemma_ray_color_empty_constant(scene: Scene, c: RGB, ray: Ray, depth: int, color: RGB)
    requires
        scene.objects@.len() == 0,
        depth > 0,
        ray_color_ok(scene, Background::Constant(c), ray, depth, color),
    ensures
        color == c,
{
    let res = choose|res: Option<HitRecord>|
        #[trigger] closest_hit_of(scene.objects@, ray, T_EPS as int, MAX_FIXED as int, res)
            && match res {
            None => color == spec_background(Background::Constant(c), ray),
            Some(rec) => exists|out: Option<(Ray, RGB)>|
                #[trigger] scatter_possible(rec.material, ray, rec, out) && match out {
                    None => color == RGB(0i64, 0i64, 0i64),
                    Some((scattered, attenuation)) => exists|c2: RGB|
                        #[trigger] ray_color_ok(
                            scene,
                            Background::Constant(c),
                            scattered,
                            depth - 1,
                            c2,
                        ) && color == attenuation.spec_mul(c2),
                },
        };
    match res {
        None => {},
        Some(rec) => {
            let i = choose|i: int|
                0 <= i < scene.objects@.len() && crate::shapes::spec_shape_hit(
                    #[trigger] scene.objects@[i],
                    ray,
                    T_EPS as int,
                    MAX_FIXED as int,
                ) == Some(rec);
            assert(false);
        },
    }
}

/// Averaging identical samples gives the sample back: with every sample equal
/// to `c`, a color with channels inside the nominal range, the accumulated
/// sum is an exact multiple and the division restores `c`.
pub proof fn lemma_average_of_constant(samples: Seq<RGB>, c: RGB)
    requires
        samples.len() >= 1,
        samples.len() <= 0x100000,
        forall|i: int| 0 <= i < samples.len() ==> samples[i] == c,
        0 <= c.0 <= ONE && 0 <= c.1 <= ONE && 0 <= c.2 <= ONE,
    ensures
        rgb_sum(samples).spec_div_count(samples.len() as int) == c,
    decreases samples.len(),
{
    lemma_sum_of_constant(samples, c);
    let n = samples.len() as int;
    let s = rgb_sum(samples);
    assert(0 <= n * c.0 <= 0x100000 * 65536 && 0 <= n * c.1 <= 0x100000 * 65536 && 0 <= n * c.2
        <= 0x100000 * 65536) by (nonlinear_arith)
        requires
            1 <= n <= 0x100000,
            0 <= c.0 <= 65536,
            0 <= c.1 <= 65536,
            0 <= c.2 <= 65536,
    ;
    vstd::arithmetic::div_mod::lemma_div_multiples_vanish(c.0 as int, n);
    vstd::arithmetic::div_mod::lemma_div_multiples_vanish(c.1 as int, n);
    vstd::arithmetic::div_mod::lemma_div_multiples_vanish(c.2 as int, n);
}

/// The sum of identical in-range samples is the exact channelwise multiple.
proof fn lemma_sum_of_constant(samples: Seq<RGB>, c: RGB)
    requires
        samples.len() <= 0x100000,
        forall|i: int| 0 <= i < samples.len() ==> samples[i] == c,
        0 <= c.0 <= ONE && 0 <= c.1 <= ONE && 0 <= c.2 <= ONE,
    ensures
        rgb_sum(samples) == RGB(
            ((samples.len() as int) * c.0) as i64,
            ((samples.len() as int) * c.1) as i64,
            ((samples.len() as int) * c.2) as i64,
        ),
    decreases samples.len(),
{
    if samples.len() > 0 {
        lemma_sum_of_constant(samples.drop_last(), c);
        assert(samples.last() == c);
        assert((samples.len() as int) * c.0 == (samples.len() - 1) * c.0 + c.0) by (nonlinear_arith);
        assert((samples.len() as int) * c.1 == (samples.len() - 1) * c.1 + c.1) by (nonlinear_arith);
        assert((samples.len() as int) * c.2 == (samples.len() - 1) * c.2 + c.2) by (nonlinear_arith);
        assert((samples.len() as int) * c.0 <= 0x100000 * 65536) by (nonlinear_arith)
            requires
                samples.len() <= 0x100000,
                0 <= c.0 <= 65536,
        ;
        assert((samples.len() as int) * c.1 <= 0x100000 * 65536) by (nonlinear_arith)
            requires
                samples.len() <= 0x100000,
                0 <= c.1 <= 65536,
        ;
        assert((samples.len() as int) * c.2 <= 0x100000 * 65536) by (nonlinear_arith)
            requires
                samples.len() <= 0x100000,
                0 <= c.2 <= 65536,
        ;
        assert((samples.len() as int) * c.0 >= 0) by (nonlinear_arith)
            requires
                0 <= c.0,
                samples.len() >= 0,
        ;
        assert((samples.len() as int) * c.1 >= 0) by (nonlinear_arith)
            requires
                0 <= c.1,
                samples.len() >= 0,
        ;
        assert((samples.len() as int) * c.2 >= 0) by (nonlinear_arith)
            requires
                0 <= c.2,
                samples.len() >= 0,
        ;
    }
}

/// Rendering an empty scene over a constant background makes every pixel the
/// tone-mapped constant, whatever the sampling budget.
pub proof fn lemma_pixel_empty_constant(
    ren: Renderer,
    c: RGB,
    x: int,
    y: int,
    w: int,
    h: int,
    p: RGB,
)
    requires
        ren.wf(),
        ren.ray_depth >= 1,
        ren.scene.objects@.len() == 0,
        ren.ray_miss == Background::Constant(c),
        0 <= c.0 <= ONE && 0 <= c.1 <= ONE && 0 <= c.2 <= ONE,
        pixel_ok(ren, x, y, w, h, p),
    ensures
        p == c.spec_correct_gamma(),
{
    let samples = choose|samples: Seq<RGB>|
        {
            &&& samples.len() == ren.sample_count
            &&& forall|i: int|
                0 <= i < samples.len() ==> sample_ok(ren, x, y, w, h, #[trigger] samples[i])
            &&& p == rgb_sum(samples).spec_div_count(
                ren.sample_count as int,
            ).spec_correct_gamma()
        };
    assert forall|i: int| 0 <= i < samples.len() implies samples[i] == c by {
        assert(sample_ok(ren, x, y, w, h, samples[i]));
        let (jx, jy, r) = choose|jx: int, jy: int, r: Ray|
            0 <= jx < ONE && 0 <= jy < ONE && #[trigger] primary_ray_ok(
                ren.camera,
                (spec_pixel_axis(x, w, jx) as i64, spec_pixel_axis(y, h, jy) as i64),
                r,
            ) && ray_color_ok(ren.scene, ren.ray_miss, r, ren.ray_depth as int, samples[i]);
        lemma_ray_color_empty_constant(ren.scene, c, r, ren.ray_depth as int, samples[i]);
    }
    lemma_average_of_constant(samples, c);
}


/// What an empty scene under a constant background delivers: every pixel of
/// any buffer meeting the renderer's delivery contract is the tone-mapped
/// constant. With the yellow constant of full red and green this quantizes
/// at the sink to the bytes 255, 255, 0.
pub proof fn lemma_delivery_empty_constant(
    ren: Renderer,
    c: RGB,
    w: int,
    h: int,
    buf: Seq<RGB>,
)
    requires
        ren.wf(),
        ren.ray_depth >= 1,
        ren.scene.objects@.len() == 0,
        ren.ray_miss == Background::Constant(c),
        0 <= c.0 <= ONE && 0 <= c.1 <= ONE && 0 <= c.2 <= ONE,
        w > 0,
        forall|k: int| 0 <= k < buf.len() ==> pixel_ok(ren, k % w, k / w, w, h, #[trigger] buf[k]),
    ensures
        forall|k: int| 0 <= k < buf.len() ==> #[trigger] buf[k] == c.spec_correct_gamma(),
{
    assert forall|k: int| 0 <= k < buf.len() implies #[trigger] buf[k]
        == c.spec_correct_gamma() by {
        lemma_pixel_empty_constant(ren, c, k % w, k / w, w, h, buf[k]);
    }
}

} // verus!
