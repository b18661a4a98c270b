use vstd::prelude::*;

verus! {

/// A single voxel type in the world.
#[derive(Debug, Clone, Copy, PartialEq, Eq, Structural, Hash)]
pub enum Voxel {
    Air,
    Stone,
    Grass,
    Water,
    Wood,
    Glass,
    /// Emits light; intensity 0–255.
    Glow(u8),
    /// User-defined variant.
    Custom(u8),
}

/// The human-readable name of a voxel.
pub open spec fn name_of(v: Voxel) -> Seq<char> {
    match v {
        Voxel::Air => "Air"@,
        Voxel::Stone => "Stone"@,
        Voxel::Grass => "Grass"@,
        Voxel::Water => "Water"@,
        Voxel::Wood => "Wood"@,
        Voxel::Glass => "Glass"@,
        Voxel::Glow(_) => "Glow"@,
        Voxel::Custom(_) => "Custom"@,
    }
}

/// One colour channel of a custom voxel: `((id * mul + add) mod 256) mod 200 + 55`,
/// with the multiplication and the addition wrapping at 256.
pub open spec fn custom_channel(id: u8, mul: int, add: int) -> u8 {
    (((((id as int) * mul) % 256 + add) % 256) % 200 + 55) as u8
}

/// The base RGB colour of a voxel.
pub open spec fn color_of(v: Voxel) -> (u8, u8, u8) {
    match v {
        Voxel::Air => (0, 0, 0),
        Voxel::Stone => (128, 128, 128),
        Voxel::Grass => (34, 139, 34),
        Voxel::Water => (30, 144, 255),
        Voxel::Wood => (139, 90, 43),
        Voxel::Glass => (200, 220, 255),
        Voxel::Glow(i) => (255, 255, ((i as int) * 200 / 255) as u8),
        Voxel::Custom(id) => (
            custom_channel(id, 73, 40),
            custom_channel(id, 137, 80),
            custom_channel(id, 211, 120),
        ),
    }
}

/// Every voxel but `Air` is solid.
pub open spec fn solid(v: Voxel) -> bool {
    v != Voxel::Air
}

/// An integer code of a voxel, distinct for distinct voxels.
pub open spec fn code_of(v: Voxel) -> u16 {
    match v {
        Voxel::Air => 0,
        Voxel::Stone => 1,
        Voxel::Grass => 2,
        Voxel::Water => 3,
        Voxel::Wood => 4,
        Voxel::Glass => 5,
        Voxel::Glow(i) => (256 + i) as u16,
        Voxel::Custom(i) => (512 + i) as u16,
    }
}

/// Distinct voxels have distinct codes.
pub proof fn lemma_code_injective(a: Voxel, b: Voxel)
    ensures
        code_of(a) == code_of(b) <==> a == b,
{
}

/// Voxel codes order the plain types Air, Stone, Grass, Water, Wood, Glass
/// first, then glow voxels by intensity, then custom voxels by number; every
/// code lies below 768.
pub proof fn law_code_order(i: u8, j: u8)
    ensures
        code_of(Voxel::Air) < code_of(Voxel::Stone) < code_of(Voxel::Grass) < code_of(Voxel::Water)
            < code_of(Voxel::Wood) < code_of(Voxel::Glass) < code_of(Voxel::Glow(0)),
        i < j ==> code_of(Voxel::Glow(i)) < code_of(Voxel::Glow(j)),
        i < j ==> code_of(Voxel::Custom(i)) < code_of(Voxel::Custom(j)),
        code_of(Voxel::Glow(i)) < code_of(Voxel::Custom(j)),
        code_of(Voxel::Custom(i)) < 768,
{
}

/// Only `Air` is not solid: stone, grass, water, wood, glass and every glow
/// and custom voxel are solid.
pub proof fn law_only_air_is_not_solid(i: u8)
    ensures
        !solid(Voxel::Air),
        solid(Voxel::Stone),
        solid(Voxel::Grass),
        solid(Voxel::Water),
        solid(Voxel::Wood),
        solid(Voxel::Glass),
        solid(Voxel::Glow(i)),
        solid(Voxel::Custom(i)),
{
}

/// Each voxel type has its own name; glow and custom voxels are named by
/// their type whatever their parameter.
pub proof fn law_display_names(i: u8)
    ensures
        name_of(Voxel::Air) == "Air"@,
        name_of(Voxel::Stone) == "Stone"@,
        name_of(Voxel::Grass) == "Grass"@,
        name_of(Voxel::Water) == "Water"@,
        name_of(Voxel::Wood) == "Wood"@,
        name_of(Voxel::Glass) == "Glass"@,
        name_of(Voxel::Glow(i)) == "Glow"@,
        name_of(Voxel::Custom(i)) == "Custom"@,
{
}

/// Fixed colours of the plain types; a glow voxel is full red and green with
/// blue rising with its intensity, from 0 to 200; every channel of a custom
/// voxel lies in 55..=254.
pub proof fn law_base_colors(i: u8, j: u8)
    ensures
        color_of(Voxel::Air) == (0u8, 0u8, 0u8),
        color_of(Voxel::Stone) == (128u8, 128u8, 128u8),
        color_of(Voxel::Grass) == (34u8, 139u8, 34u8),
        color_of(Voxel::Water) == (30u8, 144u8, 255u8),
        color_of(Voxel::Wood) == (139u8, 90u8, 43u8),
        color_of(Voxel::Glass) == (200u8, 220u8, 255u8),
        color_of(Voxel::Glow(i)).0 == 255 && color_of(Voxel::Glow(i)).1 == 255,
        i <= j ==> color_of(Voxel::Glow(i)).2 <= color_of(Voxel::Glow(j)).2,
        color_of(Voxel::Glow(0)).2 == 0 && color_of(Voxel::Glow(255)).2 == 200,
        color_of(Voxel::Glow(i)).2 * 255 <= 200 * i < (color_of(Voxel::Glow(i)).2 + 1) * 255,
        color_of(Voxel::Custom(i)) == (
            ((73 * i + 40) % 256 % 200 + 55) as u8,
            ((137 * i + 80) % 256 % 200 + 55) as u8,
            ((211 * i + 120) % 256 % 200 + 55) as u8,
        ),
        55 <= color_of(Voxel::Custom(i)).0 <= 254,
        55 <= color_of(Voxel::Custom(i)).1 <= 254,
        55 <= color_of(Voxel::Custom(i)).2 <= 254,
{
    assert(i <= j ==> (i as int) * 200 / 255 <= (j as int) * 200 / 255) by (nonlinear_arith);
    assert(0 <= (i as int) * 200 / 255 <= 200) by (nonlinear_arith);
    assert(((i as int) * 200 / 255) * 255 <= 200 * i < ((i as int) * 200 / 255 + 1) * 255) by (nonlinear_arith);
    assert((((i as int) * 73) % 256 + 40) % 256 == (73 * i + 40) % 256) by (nonlinear_arith);
    assert((((i as int) * 137) % 256 + 80) % 256 == (137 * i + 80) % 256) by (nonlinear_arith);
    assert((((i as int) * 211) % 256 + 120) % 256 == (211 * i + 120) % 256) by (nonlinear_arith);
}

impl Voxel {
    /// Human-readable name.
    pub fn display_name(self) -> (name: &'static str)
        ensures
            name@ == name_of(self),
    {
        match self {
            Voxel::Air => "Air",
            Voxel::Stone => "Stone",
            Voxel::Grass => "Grass",
            Voxel::Water => "Water",
            Voxel::Wood => "Wood",
            Voxel::Glass => "Glass",
            Voxel::Glow(_) => "Glow",
            Voxel::Custom(_) => "Custom",
        }
    }

    /// Base RGB colour (each channel 0–255).
    #[verifier::spinoff_prover]
    pub fn base_color(self) -> (c: (u8, u8, u8))
        ensures
            c == color_of(self),
    {
        match self {
            Voxel::Air => (0, 0, 0),
            Voxel::Stone => (128, 128, 128),
            Voxel::Grass => (34, 139, 34),
            Voxel::Water => (30, 144, 255),
            Voxel::Wood => (139, 90, 43),
            Voxel::Glass => (200, 220, 255),
            Voxel::Glow(intensity) => {
                let i: u8 = intensity;
                (255, 255, ((i as u16 * 200 / 255) as u8))
            },
            Voxel::Custom(id) => {
                // Deterministic spread based on id.
                let r: u8 = (id.wrapping_mul(73)).wrapping_add(40) % 200 + 55;
                let g: u8 = (id.wrapping_mul(137)).wrapping_add(80) % 200 + 55;
                let b: u8 = (id.wrapping_mul(211)).wrapping_add(120) % 200 + 55;
                (r, g, b)
            },
        }
    }

    /// Whether this voxel is considered solid for collision / raycasting.
    pub fn is_solid(self) -> (s: bool)
        ensures
            s == solid(self),
            !s <==> self is Air,
    {
        !matches!(self, Voxel::Air)
    }

    /// The voxel's integer code (see `code_of`).
    pub(crate) fn code(self) -> (c: u16)
        ensures
            c == code_of(self),
    {
        match self {
            Voxel::Air => 0,
            Voxel::Stone => 1,
            Voxel::Grass => 2,
            Voxel::Water => 3,
            Voxel::Wood => 4,
            Voxel::Glass => 5,
            Voxel::Glow(i) => 256 + i as u16,
            Voxel::Custom(i) => 512 + i as u16,
        }
    }
}

} // verus!
