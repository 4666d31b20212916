//! What surfaces do with the light that falls on them.
//!
//! The directions in which a surface may send a ray on are the caller's
//! arithmetic. Which of them it takes, and whether it takes any, is decided
//! here.
use crate::hittable::HitRecord;
use crate::rank::{exponent, fraction, significand_stands_for, stands_for};
use vstd::arithmetic::power2::{lemma2_to64, lemma2_to64_rest, lemma_pow2_adds, pow2};
use vstd::prelude::*;

verus! {

/// A surface's rule for the light that falls on it.
///
/// The rule may draw numbers at random, so one ray may fare differently on
/// one surface from one time to the next: `scatters` tells which outcomes the
/// rule allows.
pub trait Material: Sized {
    /// The rays that fall on it and leave it.
    type Ray;

    /// The points and directions of the records it reads.
    type Vector;

    /// The colours by which it dims the light.
    type Color;

    /// Whether `out` is something that may become of the ray `r_in` that met
    /// the surface as `rec` tells.
    spec fn scatters(
        &self,
        r_in: Self::Ray,
        rec: HitRecord<Self::Vector, Self>,
        out: Option<(Self::Color, Self::Ray)>,
    ) -> bool;

    /// What becomes of the ray `r_in` that met the surface as `rec` tells:
    /// the attenuation and the ray that leaves, or nothing where the light is
    /// absorbed.
    fn scatter(&self, r_in: &Self::Ray, rec: &HitRecord<Self::Vector, Self>) -> (out: Option<
        (Self::Color, Self::Ray),
    >)
        ensures
            self.scatters(*r_in, *rec, out),
    ;
}

/// The rank of the number one.
pub const ONE: i64 = 0x3ff0_0000_0000_0000;

/// The rank of the bound `1e-8`, under which a component counts as zero.
pub const NEGLIGIBLE: i64 = 0x3e45_798e_e230_8c3a;

/// The double of rank `ONE` is one, and that of rank `NEGLIGIBLE` stands for
/// a hundred-millionth.
pub proof fn one_and_negligible()
    ensures
        stands_for(ONE as u64, 1, 1),
        stands_for(NEGLIGIBLE as u64, 1, 100_000_000),
{
    lemma2_to64();
    lemma2_to64_rest();
    let one = ONE as u64;
    assert(exponent(one) == 1023 && fraction(one) == 0 && one & 0x8000_0000_0000_0000 == 0) by {
        assert((0x3ff0_0000_0000_0000u64 >> 52) & 0x7ff == 1023 && 0x3ff0_0000_0000_0000u64
            & 0x000f_ffff_ffff_ffff == 0 && 0x3ff0_0000_0000_0000u64 & 0x8000_0000_0000_0000 == 0)
            by (bit_vector);
    }
    significand_stands_for(one, 1, 1);
    let small = NEGLIGIBLE as u64;
    assert(exponent(small) == 996 && fraction(small) == 0x5_798e_e230_8c3a && small
        & 0x8000_0000_0000_0000 == 0) by {
        assert((0x3e45_798e_e230_8c3au64 >> 52) & 0x7ff == 996 && 0x3e45_798e_e230_8c3au64
            & 0x000f_ffff_ffff_ffff == 0x5_798e_e230_8c3a && 0x3e45_798e_e230_8c3au64
            & 0x8000_0000_0000_0000 == 0) by (bit_vector);
    }
    lemma_pow2_adds(64, 15);
    significand_stands_for(small, 1, 100_000_000);
}

/// Whether a direction with components of these ranks is too short to be
/// used: each component lies strictly between `-1e-8` and `1e-8`.
pub open spec fn spec_near_zero(x: i64, y: i64, z: i64) -> bool {
    &&& -NEGLIGIBLE < x < NEGLIGIBLE
    &&& -NEGLIGIBLE < y < NEGLIGIBLE
    &&& -NEGLIGIBLE < z < NEGLIGIBLE
}

/// Whether a direction with components of these ranks is too short to be
/// used.
#[verifier::when_used_as_spec(spec_near_zero)]
pub fn near_zero(x: i64, y: i64, z: i64) -> (degenerate: bool)
    ensures
        degenerate == spec_near_zero(x, y, z),
{
    -NEGLIGIBLE < x && x < NEGLIGIBLE && -NEGLIGIBLE < y && y < NEGLIGIBLE && -NEGLIGIBLE < z && z
        < NEGLIGIBLE
}

/// The fuzz of a metal, kept between zero and one.
pub open spec fn spec_clamp_fuzz(fuzz: i64) -> i64 {
    if fuzz < 0 {
        0
    } else if fuzz > ONE {
        ONE
    } else {
        fuzz
    }
}

/// The fuzz of a metal, kept between zero and one.
#[verifier::when_used_as_spec(spec_clamp_fuzz)]
pub fn clamp_fuzz(fuzz: i64) -> (kept: i64)
    ensures
        kept == spec_clamp_fuzz(fuzz),
        0 <= kept <= ONE,
{
    if fuzz < 0 {
        0
    } else if fuzz > ONE {
        ONE
    } else {
        fuzz
    }
}

/// The cosine of the angle of incidence, kept at one or below.
pub fn clamp_cosine(cosine: i64) -> (kept: i64)
    ensures
        kept == if cosine < ONE {
            cosine
        } else {
            ONE
        },
{
    if cosine < ONE {
        cosine
    } else {
        ONE
    }
}

/// A diffuse surface of colour `albedo`.
#[derive(Clone, Copy, Debug, PartialEq)]
pub struct Lambertian<C> {
    pub albedo: C,
}

impl<C: Copy> Lambertian<C> {
    /// The diffuse surface of colour `albedo`.
    pub fn new(albedo: C) -> (surface: Self)
        ensures
            surface.albedo == albedo,
    {
        Lambertian { albedo }
    }

    /// What becomes of a ray on the surface: it is scattered, dimmed by the
    /// colour of the surface, and never absorbed.
    ///
    /// `scattered` is the ray from the point of the hit along the normal,
    /// turned aside at random, and `x`, `y` and `z` are the ranks of the
    /// components of its direction. Where that direction is too short to be
    /// used, the ray leaves along the normal itself, as `along_normal`.
    pub fn scatter<R>(&self, x: i64, y: i64, z: i64, scattered: R, along_normal: R) -> (out: Option<
        (C, R),
    >)
        ensures
            out == Some(
                (
                    self.albedo,
                    if near_zero(x, y, z) {
                        along_normal
                    } else {
                        scattered
                    },
                ),
            ),
    {
        if near_zero(x, y, z) {
            Some((self.albedo, along_normal))
        } else {
            Some((self.albedo, scattered))
        }
    }
}

/// A metallic surface of colour `albedo`, its reflections blurred by `fuzz`,
/// the rank of a number between zero and one.
#[derive(Clone, Copy, Debug, PartialEq)]
pub struct Metal<C> {
    pub albedo: C,
    pub fuzz: i64,
}

impl<C: Copy> Metal<C> {
    /// Whether the metal is one: its fuzz lies between zero and one.
    pub open spec fn well_formed(&self) -> bool {
        0 <= self.fuzz <= ONE
    }

    /// The metal of colour `albedo` and of fuzz `fuzz`, kept between zero and
    /// one.
    pub fn new(albedo: C, fuzz: i64) -> (surface: Self)
        ensures
            surface.albedo == albedo,
            surface.fuzz == clamp_fuzz(fuzz),
            surface.well_formed(),
    {
        Metal { albedo, fuzz: clamp_fuzz(fuzz) }
    }

    /// What becomes of a ray on the surface: it is reflected, dimmed by the
    /// colour of the surface, or absorbed where its reflection would enter
    /// the surface.
    ///
    /// `reflected` is the ray from the point of the hit in the mirrored
    /// direction, blurred by the fuzz, and `facing` is the rank of the dot
    /// product of its direction with the normal.
    pub fn scatter<R>(&self, facing: i64, reflected: R) -> (out: Option<(C, R)>)
        ensures
            out == if facing <= 0 {
                None
            } else {
                Some((self.albedo, reflected))
            },
    {
        if facing <= 0 {
            None
        } else {
            Some((self.albedo, reflected))
        }
    }
}

/// A surface of glass, `refraction_index` being the rank of its refractive
/// index.
#[derive(Clone, Copy, Debug, PartialEq)]
pub struct Dielectric {
    pub refraction_index: i64,
}

impl Dielectric {
    /// Whether the glass is one: its refractive index is positive.
    pub open spec fn well_formed(&self) -> bool {
        self.refraction_index > 0
    }

    /// The glass with a refractive index of rank `refraction_index`.
    pub fn new(refraction_index: i64) -> (surface: Self)
        requires
            refraction_index > 0,
        ensures
            surface.refraction_index == refraction_index,
            surface.well_formed(),
    {
        Dielectric { refraction_index }
    }

    /// The rank of the refraction ratio for a ray: `inverse`, the rank of
    /// the inverse of the refractive index, where the ray enters by the front
    /// face, and that of the index itself where it leaves.
    pub fn refraction_ratio(&self, front_face: bool, inverse: i64) -> (ratio: i64)
        ensures
            ratio == if front_face {
                inverse
            } else {
                self.refraction_index
            },
    {
        if front_face {
            inverse
        } else {
            self.refraction_index
        }
    }

    /// What becomes of a ray on the surface: it is reflected or refracted,
    /// with the attenuation given, and never absorbed.
    ///
    /// `bend` is the rank of the refraction ratio times the sine of the
    /// angle of incidence, `reflectance` that of the share of the light that
    /// the surface reflects at this angle, and `chance` that of a number
    /// drawn from `[0, 1)`. With a bend above one no refracted ray exists,
    /// and the ray leaves as `reflected`. Else it leaves as `reflected` where
    /// the number drawn is less than the reflectance, and as `refracted`
    /// otherwise.
    pub fn scatter<C, R>(
        &self,
        attenuation: C,
        bend: i64,
        reflectance: i64,
        chance: i64,
        reflected: R,
        refracted: R,
    ) -> (out: Option<(C, R)>)
        ensures
            out == Some(
                (
                    attenuation,
                    if bend > ONE || chance < reflectance {
                        reflected
                    } else {
                        refracted
                    },
                ),
            ),
    {
        if bend > ONE || chance < reflectance {
            Some((attenuation, reflected))
        } else {
            Some((attenuation, refracted))
        }
    }
}

} // verus!
