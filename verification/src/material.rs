//! What a surface does to the light that reaches it.
//!
//! A material may absorb a ray, emit light, or pass the ray on.  It passes
//! it on either along one fixed direction, as a mirror or a pane of glass
//! does, or along a direction still to be drawn from a distribution that the
//! material names.

use crate::hittable::HitRecord;
use crate::pdf::{CosinePdf, Pdf, SpherePdf, UNIFORM_SPHERE_BITS};
use crate::ray::Ray;
use crate::scalar::{Scalar, ONE_BITS};
use crate::texture::{Color, SolidColor, Texture};
use crate::vec3::Vec3;
use vstd::prelude::*;

verus! {

/// What a material makes of a ray: the share of light that it lets pass,
/// the distribution to continue along where it names one, and, where
/// `skip_pdf` is set, the one ray along which it continues instead.
#[derive(Clone, Copy, Debug)]
pub struct ScatterRecord {
    pub attenuation: Color,
    pub pdf_ptr: Option<Pdf>,
    pub skip_pdf: bool,
    pub skip_pdf_ray: Ray,
}

/// A matt surface.
#[derive(Debug)]
pub struct Lambertian {
    pub tex: Texture,
}

/// A mirror, blurred by `fuzz`.
#[derive(Debug)]
pub struct Metal {
    pub tex: Texture,
    pub fuzz: Scalar,
}

/// Glass and the like.
#[derive(Clone, Copy, Debug)]
pub struct Dielectric {
    pub refraction_index: Scalar,
}

/// A surface that gives off light from its front.
#[derive(Debug)]
pub struct DiffuseLight {
    pub tex: Texture,
}

/// What fog is made of: it sends a ray on in any direction.
#[derive(Debug)]
pub struct Isotropic {
    pub tex: Texture,
}

/// A material.
#[derive(Debug)]
pub enum Material {
    Lambertian(Lambertian),
    Metal(Metal),
    Dielectric(Dielectric),
    DiffuseLight(DiffuseLight),
    Isotropic(Isotropic),
}

/// The materials of a scene.  A surface names its material by its place in
/// this table.
#[derive(Debug)]
pub struct Materials {
    pub table: Vec<Material>,
}

/// What is wrong with a scene.
#[derive(Clone, Copy, Debug, PartialEq, Eq)]
pub enum SceneError {
    /// Surface `surface` names material `material`, which the table does
    /// not have.
    MissingMaterial { surface: usize, material: usize },
}

/// Whether colour `a` exceeds colour `b` in no channel.
pub open spec fn within(a: Color, b: Color) -> bool {
    forall|i: int| 0 <= i < 3 ==> (#[trigger] a.e[i]).key() <= b.e[i].key()
}

/// The colour of a texture at a point: its own colour where it has one
/// everywhere, and else `sampled`, the colour that the caller has looked up.
pub open spec fn colour_of(tex: Texture, sampled: Color) -> Color {
    match tex {
        Texture::Solid(s) => s.albedo,
        _ => sampled,
    }
}

/// The colour of a texture at a point: see `colour_of`.
pub fn colour_at(tex: &Texture, sampled: Color) -> (c: Color)
    ensures
        c == colour_of(*tex, sampled),
{
    match tex.solid() {
        Some(c) => c,
        None => sampled,
    }
}

impl ScatterRecord {
    /// The record with the given parts.
    pub fn new(attenuation: Color, pdf_ptr: Option<Pdf>, skip_pdf: bool, skip_pdf_ray: Ray) -> (srec:
        ScatterRecord)
        ensures
            srec.attenuation == attenuation,
            srec.pdf_ptr == pdf_ptr,
            srec.skip_pdf == skip_pdf,
            srec.skip_pdf_ray == skip_pdf_ray,
    {
        ScatterRecord { attenuation, pdf_ptr, skip_pdf, skip_pdf_ray }
    }
}

impl Default for ScatterRecord {
    /// Nothing passes, nowhere.
    fn default() -> (srec: ScatterRecord)
        ensures
            srec.pdf_ptr is None,
            !srec.skip_pdf,
    {
        ScatterRecord {
            attenuation: Vec3::default(),
            pdf_ptr: None,
            skip_pdf: false,
            skip_pdf_ray: Ray::default(),
        }
    }
}

impl Lambertian {
    /// The matt surface of colour `albedo`.
    pub fn new_color(albedo: Color) -> (m: Lambertian)
        ensures
            m.tex == Texture::Solid(SolidColor { albedo }),
    {
        Lambertian { tex: Texture::Solid(SolidColor::new_color(albedo)) }
    }

    /// The matt surface coloured by `tex`.
    pub fn new_tex(tex: Texture) -> (m: Lambertian)
        ensures
            m.tex == tex,
    {
        Lambertian { tex }
    }

    /// A matt surface passes on the share of light that its colour at the
    /// point allows, along a direction to be drawn around the normal with a
    /// cosine density.  `sampled` is the colour looked up in the surface's
    /// image or noise, and is not used where the surface has one colour.
    /// The share never exceeds the colour of the surface.
    pub fn scatter(&self, rec: &HitRecord, sampled: Color) -> (srec: ScatterRecord)
        ensures
            srec.attenuation == colour_of(self.tex, sampled),
            self.tex matches Texture::Solid(s) ==> within(srec.attenuation, s.albedo),
            srec.pdf_ptr == Some(Pdf::Cosine(CosinePdf { w: rec.normal })),
            !srec.skip_pdf,
    {
        ScatterRecord::new(
            colour_at(&self.tex, sampled),
            Some(Pdf::Cosine(CosinePdf::new(rec.normal))),
            false,
            Ray::default(),
        )
    }

    /// The density with which the surface itself sends light along a
    /// direction, from `cosine_over_pi`: the cosine of the angle between the
    /// direction and the normal, divided by pi.  It is zero below the
    /// surface.
    pub fn scattering_pdf(&self, cosine_over_pi: Scalar) -> (d: Scalar)
        ensures
            d == cosine_over_pi.max_spec(Scalar { bits: 0 }),
            !cosine_over_pi.is_nan_spec() ==> !d.is_nan_spec() && d.key() >= 0,
    {
        cosine_over_pi.max(Scalar::zero())
    }
}

impl Metal {
    /// The blur that a mirror keeps of the blur asked for: no more than one.
    pub open spec fn capped(fuzz: Scalar) -> Scalar {
        if fuzz.lt_spec(Scalar { bits: ONE_BITS }) {
            fuzz
        } else {
            Scalar { bits: ONE_BITS }
        }
    }

    /// The mirror of colour `albedo`, blurred by `fuzz` or by one, whichever
    /// is less.
    pub fn new_color(albedo: Color, fuzz: Scalar) -> (m: Metal)
        ensures
            m.tex == Texture::Solid(SolidColor { albedo }),
            m.fuzz == Metal::capped(fuzz),
            !m.fuzz.is_nan_spec() && m.fuzz.key() <= ONE_BITS,
    {
        proof {
            crate::scalar::lemma_unsigned_pattern(ONE_BITS);
        }
        Metal {
            tex: Texture::Solid(SolidColor::new_color(albedo)),
            fuzz: if fuzz.lt(Scalar::one()) {
                fuzz
            } else {
                Scalar::one()
            },
        }
    }

    /// The mirror coloured by `tex`, blurred by `fuzz` or by one, whichever
    /// is less.
    pub fn new_tex(tex: Texture, fuzz: Scalar) -> (m: Metal)
        ensures
            m.tex == tex,
            m.fuzz == Metal::capped(fuzz),
            !m.fuzz.is_nan_spec() && m.fuzz.key() <= ONE_BITS,
    {
        proof {
            crate::scalar::lemma_unsigned_pattern(ONE_BITS);
        }
        Metal {
            tex,
            fuzz: if fuzz.lt(Scalar::one()) {
                fuzz
            } else {
                Scalar::one()
            },
        }
    }

    /// A mirror passes on the share of light that its colour allows along
    /// the one direction `reflected`: the mirrored direction of the incoming
    /// ray, blurred.  The ray leaves the point of the hit at the shutter
    /// time `time` of the incoming ray.
    pub fn scatter(&self, rec: &HitRecord, sampled: Color, reflected: Vec3, time: Scalar) -> (srec:
        ScatterRecord)
        ensures
            srec.attenuation == colour_of(self.tex, sampled),
            srec.pdf_ptr is None,
            srec.skip_pdf,
            srec.skip_pdf_ray == (Ray { orig: rec.p, dir: reflected, tm: time }),
    {
        ScatterRecord::new(
            colour_at(&self.tex, sampled),
            None,
            true,
            Ray::new(rec.p, reflected, time),
        )
    }
}

impl Dielectric {
    /// Whether glass mirrors a ray rather than lets it through.  It must
    /// where `ratio_sine`, the ratio of the refractive indices times the
    /// sine of the angle of incidence, exceeds one; else it does where the
    /// reflectance exceeds the number `draw` drawn for this ray.
    pub open spec fn mirrors(ratio_sine: Scalar, reflectance: Scalar, draw: Scalar) -> bool {
        (Scalar { bits: ONE_BITS }).lt_spec(ratio_sine) || draw.lt_spec(reflectance)
    }

    /// Glass of the given refractive index.
    pub fn new(refraction_index: Scalar) -> (m: Dielectric)
        ensures
            m.refraction_index == refraction_index,
    {
        Dielectric { refraction_index }
    }

    /// The ratio of the refractive indices that a ray meets: `inverse`, the
    /// reciprocal of the index, where the ray enters through the front
    /// face, and the index itself where it leaves.
    pub fn ratio(&self, front_face: bool, inverse: Scalar) -> (ri: Scalar)
        ensures
            ri == if front_face {
                inverse
            } else {
                self.refraction_index
            },
    {
        if front_face {
            inverse
        } else {
            self.refraction_index
        }
    }

    /// Glass absorbs nothing and passes a ray on along one direction: the
    /// mirrored one where it mirrors the ray, the refracted one where not.
    pub fn scatter(
        &self,
        rec: &HitRecord,
        ratio_sine: Scalar,
        reflectance: Scalar,
        draw: Scalar,
        reflected: Vec3,
        refracted: Vec3,
        time: Scalar,
    ) -> (srec: ScatterRecord)
        ensures
            forall|i: int| 0 <= i < 3 ==> (#[trigger] srec.attenuation.e[i]).bits == ONE_BITS,
            srec.pdf_ptr is None,
            srec.skip_pdf,
            srec.skip_pdf_ray == (Ray {
                orig: rec.p,
                dir: if Dielectric::mirrors(ratio_sine, reflectance, draw) {
                    reflected
                } else {
                    refracted
                },
                tm: time,
            }),
    {
        let cannot_refract = ratio_sine.gt(Scalar::one());
        let direction = if cannot_refract || reflectance.gt(draw) {
            reflected
        } else {
            refracted
        };
        ScatterRecord::new(
            Vec3::new(Scalar::one(), Scalar::one(), Scalar::one()),
            None,
            true,
            Ray::new(rec.p, direction, time),
        )
    }
}

impl DiffuseLight {
    /// The light of colour `emit`.
    pub fn new_color(emit: Color) -> (m: DiffuseLight)
        ensures
            m.tex == Texture::Solid(SolidColor { albedo: emit }),
    {
        DiffuseLight { tex: Texture::Solid(SolidColor::new_color(emit)) }
    }

    /// The light coloured by `tex`.
    pub fn new_tex(tex: Texture) -> (m: DiffuseLight)
        ensures
            m.tex == tex,
    {
        DiffuseLight { tex }
    }

    /// The light given off towards a ray: the colour of the surface at the
    /// point where the ray meets the front face, and none at the back.
    pub fn emitted(&self, rec: &HitRecord, sampled: Color) -> (c: Color)
        ensures
            rec.front_face ==> c == colour_of(self.tex, sampled),
            !rec.front_face ==> forall|i: int| 0 <= i < 3 ==> (#[trigger] c.e[i]).bits == 0,
    {
        if rec.front_face {
            colour_at(&self.tex, sampled)
        } else {
            Vec3::default()
        }
    }
}

impl Isotropic {
    /// Fog of colour `albedo`.
    pub fn new_color(albedo: Color) -> (m: Isotropic)
        ensures
            m.tex == Texture::Solid(SolidColor { albedo }),
    {
        Isotropic { tex: Texture::Solid(SolidColor::new_color(albedo)) }
    }

    /// Fog coloured by `tex`.
    pub fn new_tex(tex: Texture) -> (m: Isotropic)
        ensures
            m.tex == tex,
    {
        Isotropic { tex }
    }

    /// Fog passes on the share of light that its colour allows, along a
    /// direction to be drawn evenly from the whole sphere.
    pub fn scatter(&self, _rec: &HitRecord, sampled: Color) -> (srec: ScatterRecord)
        ensures
            srec.attenuation == colour_of(self.tex, sampled),
            srec.pdf_ptr == Some(Pdf::Sphere(SpherePdf {  })),
            !srec.skip_pdf,
    {
        ScatterRecord::new(
            colour_at(&self.tex, sampled),
            Some(Pdf::Sphere(SpherePdf {  })),
            false,
            Ray::default(),
        )
    }

    /// The density with which fog sends light along any direction:
    /// `1 / (4 * pi)`.
    pub fn scattering_pdf(&self) -> (d: Scalar)
        ensures
            d.bits == UNIFORM_SPHERE_BITS,
    {
        Scalar::positive(UNIFORM_SPHERE_BITS)
    }
}

impl Materials {
    /// The empty table.
    pub fn new() -> (m: Materials)
        ensures
            m.table@.len() == 0,
    {
        Materials { table: Vec::new() }
    }

    /// How many materials the table has.
    pub fn len(&self) -> (n: usize)
        ensures
            n == self.table.len(),
    {
        self.table.len()
    }

    /// Puts a material into the table and gives the place by which surfaces
    /// name it.
    pub fn add(&mut self, material: Material) -> (place: usize)
        ensures
            place == old(self).table.len(),
            final(self).table@ == old(self).table@.push(material),
    {
        self.table.push(material);
        self.table.len() - 1
    }

    /// The material at a place, or nothing where the table ends before it.
    pub fn get(&self, place: usize) -> (m: Option<&Material>)
        ensures
            m is Some <==> place < self.table.len(),
            m matches Some(found) ==> *found == self.table[place as int],
    {
        if place < self.table.len() {
            Some(&self.table[place])
        } else {
            None
        }
    }

    /// Makes sure that every surface of a scene names a material that the
    /// table has, before any ray is cast.  `used` lists, surface by surface,
    /// the materials named.  The first surface that names a missing material
    /// is reported.
    pub fn check(&self, used: &Vec<usize>) -> (checked: Result<(), SceneError>)
        ensures
            checked is Ok <==> forall|k: int| 0 <= k < used.len() ==> (#[trigger] used[k])
                < self.table.len(),
            checked matches Err(SceneError::MissingMaterial { surface, material }) ==> {
                &&& surface < used.len()
                &&& material == used[surface as int]
                &&& material >= self.table.len()
                &&& forall|k: int| 0 <= k < surface ==> (#[trigger] used[k]) < self.table.len()
            },
    {
        let mut k: usize = 0;
        while k < used.len()
            invariant
                k <= used.len(),
                forall|j: int| 0 <= j < k ==> (#[trigger] used[j]) < self.table.len(),
            decreases used.len() - k,
        {
            if used[k] >= self.table.len() {
                return Err(SceneError::MissingMaterial { surface: k, material: used[k] });
            }
            k = k + 1;
        }
        Ok(())
    }
}

impl Material {
    /// Whether the material passes light on at all: a light does not.
    pub fn scatters(&self) -> (b: bool)
        ensures
            b == !(*self is DiffuseLight),
    {
        match self {
            Material::DiffuseLight(_) => false,
            _ => true,
        }
    }

    /// Whether the material gives off light: only a light does.
    pub fn emits(&self) -> (b: bool)
        ensures
            b == (*self is DiffuseLight),
    {
        match self {
            Material::DiffuseLight(_) => true,
            _ => false,
        }
    }

    /// The light given off towards a ray that meets the material at `rec`:
    /// none, unless the material is a light.
    pub fn emitted(&self, rec: &HitRecord, sampled: Color) -> (c: Color)
        ensures
            match *self {
                Material::DiffuseLight(l) => rec.front_face ==> c == colour_of(l.tex, sampled),
                _ => forall|i: int| 0 <= i < 3 ==> (#[trigger] c.e[i]).bits == 0,
            },
            *self is DiffuseLight && !rec.front_face ==> forall|i: int|
                0 <= i < 3 ==> (#[trigger] c.e[i]).bits == 0,
    {
        match self {
            Material::DiffuseLight(l) => l.emitted(rec, sampled),
            _ => Vec3::default(),
        }
    }
}

} // verus!
