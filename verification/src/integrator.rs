//! The steps of a light path.
//!
//! The light that a ray gathers is found by following it from bounce to
//! bounce.  What happens at a bounce is decided here; the sums and products
//! that turn the decisions into light are the caller's.

use crate::hittable::HitRecord;
use crate::material::ScatterRecord;
use crate::pdf::{HittablePdf, MixturePdf, Pdf};
use crate::ray::Ray;
use crate::scalar::{Scalar, INFINITY_BITS};
use crate::texture::Color;
use vstd::prelude::*;

verus! {

/// What becomes of a ray.
#[derive(Clone, Copy, Debug)]
pub enum Bounce {
    /// The path has used up its bounces: it gathers no light.
    Exhausted,
    /// The ray has left the scene: it gathers the light of the background.
    Background,
    /// The ray has met a material that passes nothing on: it gathers what
    /// the material gives off.
    Emitted,
    /// The material passes the ray on along `ray`: the path gathers what the
    /// material gives off and, weighed by `attenuation`, what `ray` gathers
    /// with `depth` bounces left.
    Specular { attenuation: Color, ray: Ray, depth: i32 },
    /// The material passes the ray on along a direction to be drawn from
    /// `pdf`: the path gathers what the material gives off and, weighed by
    /// `attenuation` and by the densities of the direction drawn, what the
    /// ray along it gathers with `depth` bounces left.
    Sampled { attenuation: Color, pdf: MixturePdf, depth: i32 },
}

/// Whether a scatter record names what the path needs: the distribution to
/// draw from, unless it gives the ray itself.
pub open spec fn complete(srec: ScatterRecord) -> bool {
    srec.skip_pdf || srec.pdf_ptr is Some
}

/// Decides the next step of a path.  A path without bounces left ends dark.
/// A ray that has met nothing ends in the background.  A material that
/// passes nothing on ends the path with what it gives off.  A material that
/// gives the ray to follow is followed along it.  Any other material names a
/// distribution, which is mixed half and half with the distribution towards
/// the lights `lights`, seen from the point of the hit.
pub fn ray_color(
    depth: i32,
    rec: &Option<HitRecord>,
    srec: &Option<ScatterRecord>,
    lights: usize,
) -> (step: Bounce)
    requires
        *srec matches Some(s) ==> complete(s),
    ensures
        depth <= 0 ==> step is Exhausted,
        depth > 0 && *rec is None ==> step is Background,
        depth > 0 && *rec is Some && *srec is None ==> step is Emitted,
        depth > 0 && *rec is Some && *srec is Some && srec->0.skip_pdf ==> step
            == (Bounce::Specular {
            attenuation: srec->0.attenuation,
            ray: srec->0.skip_pdf_ray,
            depth: (depth - 1) as i32,
        }),
        depth > 0 && *rec is Some && *srec is Some && !srec->0.skip_pdf ==> {
            &&& step matches Bounce::Sampled { attenuation, pdf, depth: left }
            &&& attenuation == srec->0.attenuation
            &&& left == depth - 1
            &&& pdf.p[0] == Pdf::Hittable(HittablePdf { objects: lights, origin: rec->0.p })
            &&& pdf.p[1] == srec->0.pdf_ptr->0
        },
{
    if depth <= 0 {
        return Bounce::Exhausted;
    }
    let rec = match rec {
        Some(data) => data,
        None => {
            return Bounce::Background;
        },
    };
    let srec = match srec {
        Some(data) => data,
        None => {
            return Bounce::Emitted;
        },
    };
    if srec.skip_pdf {
        return Bounce::Specular {
            attenuation: srec.attenuation,
            ray: srec.skip_pdf_ray,
            depth: depth - 1,
        };
    }
    match srec.pdf_ptr {
        Some(own) => {
            let light_pdf = Pdf::Hittable(HittablePdf::new(lights, rec.p));
            Bounce::Sampled {
                attenuation: srec.attenuation,
                pdf: MixturePdf::new(light_pdf, own),
                depth: depth - 1,
            }
        },
        None => Bounce::Emitted,
    }
}

/// Whether light gathered along a drawn direction may be weighed by the
/// density `pdf_value` of that direction: only where the density is a
/// number, finite, and above zero.  A direction of density zero, as is drawn
/// from inside a light, would weigh its light without bound and is left
/// out.
pub fn weighable(pdf_value: Scalar) -> (ok: bool)
    ensures
        ok == (pdf_value.magnitude() < INFINITY_BITS && pdf_value.key() > 0),
        ok ==> !pdf_value.is_nan_spec(),
{
    pdf_value.is_finite() && pdf_value.gt(Scalar::zero())
}

/// A pixel's light with every channel that is not a finite number replaced
/// by darkness.
pub fn finite_color(c: &Color) -> (s: Color)
    ensures
        forall|i: int|
            0 <= i < 3 ==> (#[trigger] s.e[i]) == if c.e[i].magnitude() < INFINITY_BITS {
                c.e[i]
            } else {
                Scalar { bits: 0 }
            },
        forall|i: int| 0 <= i < 3 ==> (#[trigger] s.e[i]).magnitude() < INFINITY_BITS,
{
    crate::vec3::Vec3::new(
        crate::color::sanitize(c.x()),
        crate::color::sanitize(c.y()),
        crate::color::sanitize(c.z()),
    )
}

} // verus!
