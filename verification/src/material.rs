//! Surface materials and the rule that picks one.

use vstd::prelude::*;
use crate::geometry::{Fixed, UNIT};
use crate::source::{fresh_identifier, is_uuid_text, random_in};

verus! {

/// A colour, one byte per channel.
#[derive(Clone, Copy, Debug, PartialEq, Eq, Structural)]
pub struct Color {
    pub r: u8,
    pub g: u8,
    pub b: u8,
}

/// How a surface treats light: matte scattering, mirror-like reflection, or
/// transparent refraction.
#[derive(Clone, Copy, Debug, PartialEq, Eq, Structural)]
pub enum MaterialKind {
    Lambertian,
    Metal,
    Dielectric,
}

/// A material record. `fuzz` belongs to lambertian and metal materials,
/// `refraction_index` to dielectric ones; see [`Material::well_formed`].
#[derive(Clone, Copy, Debug, PartialEq, Eq, Structural)]
pub struct Material {
    pub kind: MaterialKind,
    pub color: Color,
    pub fuzz: Option<Fixed>,
    pub refraction_index: Option<Fixed>,
}

/// Fuzz of every lambertian material: 1.0.
pub const LAMBERTIAN_FUZZ: Fixed = 1000;

/// Fuzz of every metal material: 0.05.
pub const METAL_FUZZ: Fixed = 50;

/// Refraction index of every dielectric material: 1.6.
pub const GLASS_REFRACTION: Fixed = 1600;

/// Pure white.
pub open spec fn white() -> Color {
    Color { r: 255, g: 255, b: 255 }
}

/// The lambertian material of the given colour.
pub open spec fn lambertian_material(color: Color) -> Material {
    Material {
        kind: MaterialKind::Lambertian,
        color,
        fuzz: Some(LAMBERTIAN_FUZZ),
        refraction_index: None,
    }
}

/// The material of the first anchor sphere.
pub open spec fn brown_material() -> Material {
    lambertian_material(Color { r: 100, g: 40, b: 0 })
}

/// The one metal material: white, slightly rough.
pub open spec fn metal_material() -> Material {
    Material {
        kind: MaterialKind::Metal,
        color: white(),
        fuzz: Some(METAL_FUZZ),
        refraction_index: None,
    }
}

/// The one dielectric material: white glass.
pub open spec fn dielectric_material() -> Material {
    Material {
        kind: MaterialKind::Dielectric,
        color: white(),
        fuzz: None,
        refraction_index: Some(GLASS_REFRACTION),
    }
}

/// The name a kind goes by in a scene document.
pub open spec fn kind_name(kind: MaterialKind) -> Seq<char> {
    match kind {
        MaterialKind::Lambertian => "lambertian"@,
        MaterialKind::Metal => "metal"@,
        MaterialKind::Dielectric => "dielectric"@,
    }
}

impl MaterialKind {
    /// The name this kind goes by in a scene document.
    pub fn name(&self) -> (text: &'static str)
        ensures
            text@ == kind_name(*self),
    {
        match self {
            MaterialKind::Lambertian => "lambertian",
            MaterialKind::Metal => "metal",
            MaterialKind::Dielectric => "dielectric",
        }
    }
}

impl Material {
    /// The two optional attributes exclude each other: a lambertian or metal
    /// material has a fuzz and no refraction index, a dielectric one has a
    /// refraction index above 1.0 and no fuzz.
    pub open spec fn well_formed(&self) -> bool {
        match self.kind {
            MaterialKind::Lambertian | MaterialKind::Metal => {
                self.fuzz is Some && self.refraction_index is None
            },
            MaterialKind::Dielectric => {
                &&& self.fuzz is None
                &&& self.refraction_index matches Some(index)
                &&& index > UNIT
            },
        }
    }

    /// A matte material of the given colour.
    pub fn diffuse(color: Color) -> (m: Material)
        ensures
            m == lambertian_material(color),
    {
        Material {
            kind: MaterialKind::Lambertian,
            color,
            fuzz: Some(LAMBERTIAN_FUZZ),
            refraction_index: None,
        }
    }

    /// The white, slightly rough mirror.
    pub fn reflective() -> (m: Material)
        ensures
            m == metal_material(),
    {
        Material {
            kind: MaterialKind::Metal,
            color: Color { r: 255, g: 255, b: 255 },
            fuzz: Some(METAL_FUZZ),
            refraction_index: None,
        }
    }

    /// White glass.
    pub fn refractive() -> (m: Material)
        ensures
            m == dielectric_material(),
    {
        Material {
            kind: MaterialKind::Dielectric,
            color: Color { r: 255, g: 255, b: 255 },
            fuzz: None,
            refraction_index: Some(GLASS_REFRACTION),
        }
    }

    /// Checks the rule of [`Material::well_formed`] on a record that came
    /// from elsewhere.
    pub fn is_well_formed(&self) -> (ok: bool)
        ensures
            ok == self.well_formed(),
    {
        match self.kind {
            MaterialKind::Lambertian | MaterialKind::Metal => {
                self.fuzz.is_some() && self.refraction_index.is_none()
            },
            MaterialKind::Dielectric => {
                match self.refraction_index {
                    Some(index) => self.fuzz.is_none() && index > UNIT,
                    None => false,
                }
            },
        }
    }
}

/// The kind that two draws choose, the first from `0..3` and the second from
/// `0..2`: any first draw but zero gives lambertian; on zero the second draw
/// splits what is left evenly between metal and dielectric.
pub open spec fn kind_of_draws(first: int, second: int) -> MaterialKind {
    if first > 0 {
        MaterialKind::Lambertian
    } else if second > 0 {
        MaterialKind::Metal
    } else {
        MaterialKind::Dielectric
    }
}

/// Applies the rule of [`kind_of_draws`].
pub fn kind_for_draws(first: i32, second: i32) -> (kind: MaterialKind)
    ensures
        kind == kind_of_draws(first as int, second as int),
{
    if first > 0 {
        MaterialKind::Lambertian
    } else if second > 0 {
        MaterialKind::Metal
    } else {
        MaterialKind::Dielectric
    }
}

/// What the material factory can hand out: a lambertian material of any
/// colour, the metal, or the glass.
pub open spec fn is_generated(m: Material) -> bool {
    m == lambertian_material(m.color) || m == metal_material() || m == dielectric_material()
}

/// A lambertian material of a random colour under a fresh identifier. Each
/// channel is drawn from the whole byte range.
pub fn lambertian() -> (made: (String, Material))
    ensures
        is_uuid_text(made.0@),
        made.1 == lambertian_material(made.1.color),
{
    let r: u8 = random_in(0, 256) as u8;
    let g: u8 = random_in(0, 256) as u8;
    let b: u8 = random_in(0, 256) as u8;
    let id = fresh_identifier();
    (id, Material::diffuse(Color { r, g, b }))
}

/// The metal under a fresh identifier.
pub fn metal() -> (made: (String, Material))
    ensures
        is_uuid_text(made.0@),
        made.1 == metal_material(),
{
    let id = fresh_identifier();
    (id, Material::reflective())
}

/// The glass under a fresh identifier.
pub fn dielectric() -> (made: (String, Material))
    ensures
        is_uuid_text(made.0@),
        made.1 == dielectric_material(),
{
    let id = fresh_identifier();
    (id, Material::refractive())
}

/// The material factory: draws a kind by the rule of [`kind_of_draws`] and
/// makes a material of that kind under a fresh identifier. The second draw
/// is made only when the first leaves the choice open.
pub fn generate_material() -> (made: (String, Material))
    ensures
        is_uuid_text(made.0@),
        is_generated(made.1),
        made.1.well_formed(),
{
    let first: i32 = random_in(0, 3);
    let second: i32 = if first > 0 {
        0
    } else {
        random_in(0, 2)
    };
    match kind_for_draws(first, second) {
        MaterialKind::Lambertian => lambertian(),
        MaterialKind::Metal => metal(),
        MaterialKind::Dielectric => dielectric(),
    }
}

} // verus!
