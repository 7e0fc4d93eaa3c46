//! What colours a surface.

use crate::render::{raster_rows, raster_width, Raster};
use crate::scalar::Scalar;
use crate::vec3::{Point3, Vec3};
use vstd::prelude::*;

verus! {

/// An RGB colour.
pub type Color = Vec3;

/// One colour everywhere.
#[derive(Clone, Copy, Debug)]
pub struct SolidColor {
    pub albedo: Color,
}

/// Two textures in alternating cubes of side `1 / inv_scale`.
#[derive(Debug)]
pub struct CheckerTexture {
    pub inv_scale: Scalar,
    pub even: Box<Texture>,
    pub odd: Box<Texture>,
}

/// A texture.  An image and a noise field are known here by their place in
/// the scene's tables.
#[derive(Debug)]
pub enum Texture {
    Solid(SolidColor),
    Checker(CheckerTexture),
    Image(usize),
    Noise(usize),
}

impl SolidColor {
    /// The texture of colour `albedo`.
    pub fn new_color(albedo: Color) -> (t: SolidColor)
        ensures
            t.albedo == albedo,
    {
        SolidColor { albedo }
    }

    /// The colour at surface coordinates `(u, v)` and point `p`: the same
    /// everywhere.
    pub fn value(&self, _u: Scalar, _v: Scalar, _p: &Point3) -> (c: Color)
        ensures
            c == self.albedo,
    {
        self.albedo
    }
}

impl CheckerTexture {
    /// Whether the cube with the whole coordinates `(xi, yi, zi)` is an even
    /// one: whether the three add up to an even number.
    pub open spec fn is_even(xi: i32, yi: i32, zi: i32) -> bool {
        (xi + yi + zi) % 2 == 0
    }

    /// The checker of cubes of side `1 / inv_scale` in the two textures.
    pub fn new(inv_scale: Scalar, even: Texture, odd: Texture) -> (t: CheckerTexture)
        ensures
            t.inv_scale == inv_scale,
            *t.even == even,
            *t.odd == odd,
    {
        CheckerTexture { inv_scale, even: Box::new(even), odd: Box::new(odd) }
    }

    /// The texture that colours a point.  `scaled` is the point with every
    /// coordinate multiplied by `inv_scale`; the cube that holds it is found
    /// by rounding each coordinate down, and the cube's parity chooses.
    pub fn value(&self, scaled: &Point3) -> (t: &Texture)
        ensures
            *t == if CheckerTexture::is_even(
                scaled.e[0].floor_to_i32_spec(),
                scaled.e[1].floor_to_i32_spec(),
                scaled.e[2].floor_to_i32_spec(),
            ) {
                *self.even
            } else {
                *self.odd
            },
    {
        let xi: i64 = scaled.x().floor_to_i32() as i64;
        let yi: i64 = scaled.y().floor_to_i32() as i64;
        let zi: i64 = scaled.z().floor_to_i32() as i64;
        if (xi + yi + zi) % 2 == 0 {
            &self.even
        } else {
            &self.odd
        }
    }
}

/// An image laid over a surface.
pub struct ImageTexture {
    pub image_pixels: Raster,
}

/// The column or row of an image that a surface coordinate falls on: the
/// coordinate times the size, which the caller has worked out as `scaled`,
/// cut to a whole number and held below `size`.
pub open spec fn texel_index(scaled: Scalar, size: u32) -> u32 {
    if scaled.to_u32_spec() >= size {
        (size - 1) as u32
    } else {
        scaled.to_u32_spec()
    }
}

impl ImageTexture {
    /// The texture that shows `image_pixels`.
    pub fn new_image(image_pixels: Raster) -> (t: ImageTexture)
        ensures
            t.image_pixels == image_pixels,
    {
        ImageTexture { image_pixels }
    }

    /// The pixel of the image at a point of the surface, or nothing where
    /// the image has no pixel at all.  `scaled_u` is the first surface
    /// coordinate, held between zero and one, times the width of the image;
    /// `scaled_v` is the second one, held between zero and one and counted
    /// from the top, times the height.
    pub fn value(&self, scaled_u: Scalar, scaled_v: Scalar) -> (rgb: Option<(u8, u8, u8)>)
        ensures
            rgb is Some <==> raster_width(self.image_pixels) > 0 && raster_rows(
                self.image_pixels,
            ).len() > 0,
            rgb matches Some(p) ==> p == raster_rows(self.image_pixels)[texel_index(
                scaled_v,
                raster_rows(self.image_pixels).len() as u32,
            ) as int][texel_index(scaled_u, raster_width(self.image_pixels) as u32) as int],
    {
        let (width, height) = self.image_pixels.dimensions();
        if width == 0 || height == 0 {
            return None;
        }
        let mut i = scaled_u.to_u32();
        if i >= width {
            i = width - 1;
        }
        let mut j = scaled_v.to_u32();
        if j >= height {
            j = height - 1;
        }
        self.image_pixels.pixel(i, j)
    }
}

impl Texture {
    /// The colour of the texture where it has one colour everywhere.
    pub fn solid(&self) -> (c: Option<Color>)
        ensures
            c == match *self {
                Texture::Solid(s) => Some(s.albedo),
                _ => None::<Color>,
            },
    {
        match self {
            Texture::Solid(s) => Some(s.albedo),
            _ => None,
        }
    }
}

} // verus!
