//! Normal maps: images that bend the normals of a flat surface.

use crate::onb::Onb;
use crate::render::{raster_rows, raster_width, Raster};
use crate::scalar::Scalar;
use crate::vec3::Vec3;
use vstd::prelude::*;

verus! {

/// A way to replace the normal at a point of a surface.
pub trait NormalMap {
    /// The normal at texel `(u, v)`, in the basis `wtb` whose third axis is
    /// the surface's own normal.  Without a map of its own, a surface keeps
    /// that normal.
    fn modify_normal(&self, texel: (u32, u32), wtb: Onb) -> (n: Vec3)
        default_ensures
            n == wtb.axis[2],
    {
        *wtb.w()
    }

    /// The texel that belongs to the surface coordinates `at` on a surface
    /// of extent `size`.  Without a map of its own, a surface has the one
    /// texel `(0, 0)`.
    fn convert(&self, at: (Scalar, Scalar), size: (Scalar, Scalar)) -> (texel: (u32, u32))
        default_ensures
            texel == (0u32, 0u32),
    {
        (0, 0)
    }
}

/// The map that changes nothing.
#[derive(Default, Copy, Clone, Debug)]
pub struct OriginMap {}

impl NormalMap for OriginMap {

}

/// The map that takes its normals from an image.
pub struct MapMap {
    pub nmap: Raster,
}

impl MapMap {
    /// The map that reads `nmap`.
    pub fn new(nmap: Raster) -> (m: MapMap)
        ensures
            m.nmap == nmap,
    {
        MapMap { nmap }
    }

    /// The texel that belongs to a point of the surface, or nothing where
    /// the point falls off the image.  `scaled_u` and `scaled_v` are the
    /// point's share of the surface's extent times the width and the height
    /// of the image.  The image is stored top row first while the second
    /// coordinate grows upwards, so the rows are counted from the bottom.
    pub fn convert(&self, scaled_u: Scalar, scaled_v: Scalar) -> (texel: Option<(u32, u32)>)
        ensures
            texel is Some <==> scaled_u.to_u32_spec() < raster_width(self.nmap)
                && scaled_v.to_u32_spec() < raster_rows(self.nmap).len(),
            texel matches Some(t) ==> t.0 == scaled_u.to_u32_spec() && t.1 == raster_rows(
                self.nmap,
            ).len() - 1 - scaled_v.to_u32_spec(),
    {
        let (width, height) = self.nmap.dimensions();
        let column = scaled_u.to_u32();
        let up = scaled_v.to_u32();
        if column < width && up < height {
            Some((column, height - 1 - up))
        } else {
            None
        }
    }

    /// The colour of the map at a texel, from which the caller works out
    /// the normal; nothing outside the image.
    pub fn texel(&self, texel: (u32, u32)) -> (rgb: Option<(u8, u8, u8)>)
        ensures
            rgb is Some <==> texel.0 < raster_width(self.nmap) && texel.1 < raster_rows(
                self.nmap,
            ).len(),
            rgb matches Some(p) ==> p == raster_rows(self.nmap)[texel.1 as int][texel.0 as int],
    {
        self.nmap.pixel(texel.0, texel.1)
    }
}

} // verus!
