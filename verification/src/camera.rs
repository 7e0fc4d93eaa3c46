//! The camera: what an image is made with.

use crate::ray::Ray;
use crate::scalar::Scalar;
use crate::texture::Color;
use crate::vec3::{Point3, Vec3};
use vstd::prelude::*;

verus! {

/// The pattern of the aspect ratio sixteen to nine.
pub const WIDE_BITS: u64 = 0x3ffc_71c7_1c71_c71c;

/// The pattern of `90.0`.
pub const NINETY_BITS: u64 = 0x4056_8000_0000_0000;

/// The pattern of `10.0`.
pub const TEN_BITS: u64 = 0x4024_0000_0000_0000;

/// The pattern of `-1.0`.
pub const MINUS_ONE_BITS: u64 = 0xbff0_0000_0000_0000;

/// A camera.  The upper fields are set by the scene; the lower ones are
/// worked out from them by `initialize`.
#[derive(Clone, Copy, Debug)]
pub struct Camera {
    pub image_width: i32,
    pub aspect_ratio: Scalar,
    pub samples_per_pixel: i32,
    pub max_recurse_depth: i32,
    pub background: Color,
    pub vfov: Scalar,
    pub lookfrom: Point3,
    pub lookat: Point3,
    pub vup: Vec3,
    pub defocus_angle: Scalar,
    pub focus_dist: Scalar,
    pub gauss_fuzzing_scale: Scalar,
    pub edge_detect: bool,
    pub image_height: i32,
    pub sqrt_spp: i32,
    pub frame: CameraFrame,
}

/// What of a camera takes arithmetic to find: its place, the place of the
/// first pixel and the steps from pixel to pixel, its three axes, the two
/// axes of its lens, the weight of one sample and the side of one stratum.
#[derive(Clone, Copy, Debug)]
pub struct CameraFrame {
    pub center: Point3,
    pub pixel00_loc: Point3,
    pub pixel_delta_u: Vec3,
    pub pixel_delta_v: Vec3,
    pub pixel_samples_scale: Scalar,
    pub recip_sqrt_spp: Scalar,
    pub u: Vec3,
    pub v: Vec3,
    pub w: Vec3,
    pub defocus_disk_u: Vec3,
    pub defocus_disk_v: Vec3,
}

/// Whether every component of the vector is positive zero.
pub open spec fn is_zero(v: Vec3) -> bool {
    v.e[0].bits == 0 && v.e[1].bits == 0 && v.e[2].bits == 0
}

/// Whether `r` is the whole part of the square root of `n`.
pub open spec fn is_root(n: int, r: int) -> bool {
    0 <= r && r * r <= n < (r + 1) * (r + 1)
}

/// The whole part of the square root of `n`, and zero for a negative `n`.
pub fn isqrt(n: i32) -> (r: i32)
    ensures
        n < 0 ==> r == 0,
        n >= 0 ==> is_root(n as int, r as int),
{
    if n <= 0 {
        return 0;
    }
    let target: i64 = n as i64;
    let mut r: i64 = 0;
    loop
        invariant
            0 <= r <= 46340,
            r * r <= target,
            target == n,
            0 < n,
        ensures
            0 <= r <= 46340,
            r * r <= target < (r + 1) * (r + 1),
        decreases 46341 - r,
    {
        let next: i64 = r + 1;
        assert(next * next <= 46341 * 46341) by (nonlinear_arith)
            requires
                0 <= next <= 46341,
        ;
        if next * next > target {
            break ;
        }
        assert(next <= 46340) by (nonlinear_arith)
            requires
                next * next <= target,
                target <= 2147483647,
                0 <= next,
        ;
        r = next;
    }
    r as i32
}

impl Camera {
    /// The height of an image in pixels, from `quotient`, its width divided
    /// by its aspect ratio: the whole part of the quotient, and one at
    /// least.
    pub open spec fn height_of(quotient: Scalar) -> i32 {
        if quotient.to_i32_spec() < 1 {
            1
        } else {
            quotient.to_i32_spec()
        }
    }

    /// The height of an image in pixels.
    pub fn image_height_of(quotient: Scalar) -> (h: i32)
        ensures
            h == Camera::height_of(quotient),
            h >= 1,
    {
        let h = quotient.to_i32();
        if h < 1 {
            1
        } else {
            h
        }
    }

    /// Makes the camera ready.  The height of the image follows from
    /// `quotient`, the width divided by the aspect ratio; each pixel is cut
    /// into as many strata a side as the square root of the samples per
    /// pixel has whole units; everything else is taken from `frame`.
    pub fn initialize(&mut self, quotient: Scalar, frame: &CameraFrame)
        ensures
            final(self).image_height == Camera::height_of(quotient),
            final(self).image_height >= 1,
            old(self).samples_per_pixel >= 0 ==> is_root(
                old(self).samples_per_pixel as int,
                final(self).sqrt_spp as int,
            ),
            old(self).samples_per_pixel < 0 ==> final(self).sqrt_spp == 0,
            final(self).frame == *frame,
            final(self).image_width == old(self).image_width,
            final(self).aspect_ratio == old(self).aspect_ratio,
            final(self).samples_per_pixel == old(self).samples_per_pixel,
            final(self).max_recurse_depth == old(self).max_recurse_depth,
            final(self).background == old(self).background,
            final(self).vfov == old(self).vfov,
            final(self).lookfrom == old(self).lookfrom,
            final(self).lookat == old(self).lookat,
            final(self).vup == old(self).vup,
            final(self).defocus_angle == old(self).defocus_angle,
            final(self).focus_dist == old(self).focus_dist,
            final(self).gauss_fuzzing_scale == old(self).gauss_fuzzing_scale,
            final(self).edge_detect == old(self).edge_detect,
    {
        self.image_height = Camera::image_height_of(quotient);
        self.sqrt_spp = isqrt(self.samples_per_pixel);
        self.frame = *frame;
    }

    /// The ray through a pixel.  A camera without a lens casts it from its
    /// own place along `from_center`; one with a lens casts it from
    /// `disk_sample`, a point drawn on the lens, along `from_disk`.  The ray
    /// is cast at shutter time `time`.
    pub fn get_ray(
        &self,
        from_center: Vec3,
        disk_sample: Point3,
        from_disk: Vec3,
        time: Scalar,
    ) -> (r: Ray)
        ensures
            r.tm == time,
            self.defocus_angle.le_spec(Scalar { bits: 0 }) ==> r.orig == self.frame.center && r.dir
                == from_center,
            !self.defocus_angle.le_spec(Scalar { bits: 0 }) ==> r.orig == disk_sample && r.dir
                == from_disk,
    {
        if self.defocus_angle.le(Scalar::zero()) {
            Ray::new(self.frame.center, from_center, time)
        } else {
            Ray::new(disk_sample, from_disk, time)
        }
    }

    /// The strata of one pixel, row by row: the pairs `(s_i, s_j)` in the
    /// order in which the samples of a pixel are taken.
    pub fn strata(&self) -> (cells: Vec<(i32, i32)>)
        requires
            0 <= self.sqrt_spp <= 46340,
        ensures
            cells.len() == self.sqrt_spp * self.sqrt_spp,
            forall|k: int|
                0 <= k < cells.len() ==> (#[trigger] cells[k]) == ((k % (self.sqrt_spp as int)) as i32, (
                    k / (self.sqrt_spp as int)) as i32),
    {
        let n = self.sqrt_spp;
        let mut cells: Vec<(i32, i32)> = Vec::new();
        let mut s_j: i32 = 0;
        while s_j < n
            invariant
                0 <= s_j <= n <= 46340,
                n == self.sqrt_spp,
                cells.len() == s_j * n,
                forall|k: int|
                    0 <= k < cells.len() ==> (#[trigger] cells[k]) == ((k % (n as int)) as i32, (k / (
                        n as int)) as i32),
            decreases n - s_j,
        {
            let mut s_i: i32 = 0;
            while s_i < n
                invariant
                    0 <= s_i <= n <= 46340,
                    0 <= s_j < n,
                    n == self.sqrt_spp,
                    cells.len() == s_j * n + s_i,
                    forall|k: int|
                        0 <= k < cells.len() ==> (#[trigger] cells[k]) == ((k % (n as int)) as i32, (k
                            / (n as int)) as i32),
                decreases n - s_i,
            {
                proof {
                    let k = s_j * n + s_i;
                    vstd::arithmetic::div_mod::lemma_fundamental_div_mod_converse(
                        k as int,
                        n as int,
                        s_j as int,
                        s_i as int,
                    );
                }
                cells.push((s_i, s_j));
                s_i = s_i + 1;
            }
            proof {
                assert((s_j + 1) * n == s_j * n + n) by (nonlinear_arith);
            }
            s_j = s_j + 1;
        }
        cells
    }
}

impl Default for Camera {
    /// A camera at the origin that looks down the third axis: 400 pixels
    /// wide at sixteen to nine, 100 samples a pixel, 50 bounces, a view of
    /// ninety degrees, no lens, a focus ten away and a black background.
    /// It is not ready before `initialize`: the height of its image is -1,
    /// it has no strata, the weight of a sample is -1 and everything else
    /// of its frame is zero.
    fn default() -> (c: Camera)
        ensures
            c.image_width == 400,
            c.aspect_ratio.bits == WIDE_BITS,
            c.samples_per_pixel == 100,
            c.max_recurse_depth == 50,
            is_zero(c.background),
            c.vfov.bits == NINETY_BITS,
            is_zero(c.lookfrom),
            c.lookat.e[0].bits == 0 && c.lookat.e[1].bits == 0 && c.lookat.e[2].bits
                == MINUS_ONE_BITS,
            c.vup.e[0].bits == 0 && c.vup.e[1].bits == crate::scalar::ONE_BITS && c.vup.e[2].bits
                == 0,
            c.defocus_angle.bits == 0,
            c.focus_dist.bits == TEN_BITS,
            c.gauss_fuzzing_scale.bits == 0,
            !c.edge_detect,
            c.image_height == -1,
            c.sqrt_spp == 0,
            is_zero(c.frame.center),
            is_zero(c.frame.pixel00_loc),
            is_zero(c.frame.pixel_delta_u),
            is_zero(c.frame.pixel_delta_v),
            c.frame.pixel_samples_scale.bits == MINUS_ONE_BITS,
            c.frame.recip_sqrt_spp.bits == 0,
            is_zero(c.frame.u),
            is_zero(c.frame.v),
            is_zero(c.frame.w),
            is_zero(c.frame.defocus_disk_u),
            is_zero(c.frame.defocus_disk_v),
    {
        let zero = Vec3::default();
        Camera {
            image_width: 400,
            aspect_ratio: Scalar::from_bits(WIDE_BITS),
            samples_per_pixel: 100,
            max_recurse_depth: 50,
            background: zero,
            vfov: Scalar::from_bits(NINETY_BITS),
            lookfrom: zero,
            lookat: Vec3::new(Scalar::zero(), Scalar::zero(), Scalar::from_bits(MINUS_ONE_BITS)),
            vup: Vec3::new(Scalar::zero(), Scalar::one(), Scalar::zero()),
            defocus_angle: Scalar::zero(),
            focus_dist: Scalar::from_bits(TEN_BITS),
            gauss_fuzzing_scale: Scalar::zero(),
            edge_detect: false,
            image_height: -1,
            sqrt_spp: 0,
            frame: CameraFrame {
                center: zero,
                pixel00_loc: zero,
                pixel_delta_u: zero,
                pixel_delta_v: zero,
                pixel_samples_scale: Scalar::from_bits(MINUS_ONE_BITS),
                recip_sqrt_spp: Scalar::zero(),
                u: zero,
                v: zero,
                w: zero,
                defocus_disk_u: zero,
                defocus_disk_v: zero,
            },
        }
    }
}

} // verus!
