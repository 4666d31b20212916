//! The light that a ray brings, and the pixels of an image.
//!
//! Where a ray sets out, what the background shows behind it and how light
//! is dimmed, added and toned is the caller's arithmetic. How far a ray is
//! followed, which lights are dimmed by which attenuations, how many samples
//! make a pixel and in which order the pixels come is decided here.
use crate::color::{quantize, quantized};
use crate::hittable::{Hittable, HittableList};
use crate::interval::Interval;
use crate::material::Material;
use crate::rank::{exponent, fraction, significand_stands_for, stands_for, INFINITY};
use vstd::arithmetic::div_mod::lemma_fundamental_div_mod_converse;
use vstd::arithmetic::power2::lemma2_to64_rest;
use vstd::prelude::*;

verus! {

/// The rank of `0.001`: a ray is not met again nearer than that to where it
/// set out, on the surface that it left.
pub const SHADOW_GUARD: i64 = 0x3f50_624d_d2f1_a9fc;

/// The double of rank `SHADOW_GUARD` stands for a thousandth.
pub proof fn shadow_guard_is_a_thousandth()
    ensures
        stands_for(SHADOW_GUARD as u64, 1, 1000),
{
    lemma2_to64_rest();
    let guard = SHADOW_GUARD as u64;
    assert(exponent(guard) == 1013 && fraction(guard) == 0x624d_d2f1_a9fc && guard
        & 0x8000_0000_0000_0000 == 0) by {
        assert((0x3f50_624d_d2f1_a9fcu64 >> 52) & 0x7ff == 1013 && 0x3f50_624d_d2f1_a9fcu64
            & 0x000f_ffff_ffff_ffff == 0x624d_d2f1_a9fc && 0x3f50_624d_d2f1_a9fcu64
            & 0x8000_0000_0000_0000 == 0) by (bit_vector);
    }
    significand_stands_for(guard, 1, 1000);
}

/// The window in which a ray is followed: beyond the guard, without end.
pub open spec fn reach() -> Interval {
    Interval { min: SHADOW_GUARD, max: INFINITY }
}

/// How the path of a ray ends.
#[derive(Clone, Copy, Debug, PartialEq)]
pub enum Fate<R> {
    /// The depth was used up: the path brings no light.
    Exhausted,
    /// A surface absorbed the ray: the path brings no light.
    Absorbed,
    /// This ray met nothing: the path brings the light of the background
    /// behind it.
    Escaped(R),
}

/// The path of a ray: the attenuations of the surfaces that scattered it, in
/// order, and its end. The light it brings is that of its end, dimmed by
/// each attenuation.
#[derive(Debug, PartialEq)]
pub struct Path<C, R> {
    pub attenuations: Vec<C>,
    pub fate: Fate<R>,
}

/// Whether `ray` meets a surface of `world` beyond the guard, and `out` is
/// something that may become of it on the nearest such surface.
pub open spec fn meets<W, C>(world: W, ray: W::Ray, out: Option<(C, W::Ray)>) -> bool where
    W: Hittable,
    W::Material: Material<Ray = W::Ray, Vector = W::Vector, Color = C>,
 {
    match world.answer(ray, reach()) {
        Some(rec) => rec.mat.scatters(ray, rec, out),
        None => false,
    }
}

/// Whether `path` is a path of at most `depth` bounces through `world` along
/// the rays `rays`, the first of them `r`.
///
/// Each ray but the last met a surface beyond the guard, the nearest one, and
/// that surface scattered it into the next ray with the attenuation that the
/// path holds for it. The last ray met the end that the path tells: the depth
/// was used up before it was followed, or the nearest surface absorbed it, or
/// it met nothing.
pub open spec fn follows<W, C>(
    world: W,
    r: W::Ray,
    depth: u32,
    rays: Seq<W::Ray>,
    path: Path<C, W::Ray>,
) -> bool where W: Hittable, W::Material: Material<Ray = W::Ray, Vector = W::Vector, Color = C> {
    let bounces = path.attenuations@.len() as int;
    &&& rays.len() == bounces + 1
    &&& rays[0] == r
    &&& bounces <= depth
    &&& forall|i: int|
        0 <= i < bounces ==> meets(
            world,
            #[trigger] rays[i],
            Some((path.attenuations@[i], rays[i + 1])),
        )
    &&& match path.fate {
        Fate::Exhausted => bounces == depth,
        Fate::Absorbed => bounces < depth && meets(world, rays[bounces], None),
        Fate::Escaped(last) => bounces < depth && last == rays[bounces] && world.answer(
            last,
            reach(),
        ) is None,
    }
}

/// Follows the ray `r` through `world` for at most `depth` bounces.
///
/// With no depth left the path is exhausted, whatever the scene holds. Else
/// the nearest surface that the ray meets beyond the guard scatters it, and
/// the scattered ray is followed with one bounce less; the path ends where a
/// ray meets nothing, or a surface absorbs it.
pub fn follow<W, C>(r: W::Ray, depth: u32, world: &W) -> (path: Path<C, W::Ray>) where
    W: Hittable,
    W::Material: Material<Ray = W::Ray, Vector = W::Vector, Color = C>,

    ensures
        exists|rays: Seq<W::Ray>| follows(*world, r, depth, rays, path),
        depth == 0 ==> path.fate is Exhausted && path.attenuations@.len() == 0,
        depth > 0 && world.answer(r, reach()) is None ==> path.fate == Fate::Escaped(r)
            && path.attenuations@.len() == 0,
{
    let window = Interval::new(SHADOW_GUARD, INFINITY);
    let mut attenuations: Vec<C> = Vec::new();
    let mut ray = r;
    let mut left: u32 = depth;
    let ghost mut rays: Seq<W::Ray> = seq![r];
    while left > 0
        invariant
            window == reach(),
            left <= depth,
            attenuations@.len() == depth - left,
            rays.len() == attenuations@.len() + 1,
            rays[0] == r,
            rays.last() == ray,
            forall|i: int|
                0 <= i < attenuations@.len() ==> meets(
                    *world,
                    #[trigger] rays[i],
                    Some((attenuations@[i], rays[i + 1])),
                ),
        decreases left,
    {
        match world.hit(&ray, &window) {
            None => {
                let path = Path { attenuations, fate: Fate::Escaped(ray) };
                assert(follows(*world, r, depth, rays, path));
                return path;
            },
            Some(rec) => {
                match rec.mat.scatter(&ray, &rec) {
                    None => {
                        let path = Path { attenuations, fate: Fate::Absorbed };
                        assert(follows(*world, r, depth, rays, path));
                        return path;
                    },
                    Some((attenuation, scattered)) => {
                        attenuations.push(attenuation);
                        ray = scattered;
                        left = left - 1;
                        proof {
                            rays = rays.push(ray);
                        }
                    },
                }
            },
        }
    }
    let path = Path { attenuations, fate: Fate::Exhausted };
    assert(follows(*world, r, depth, rays, path));
    path
}

/// A ray of positive depth that meets nothing escapes at once, with no
/// attenuation.
pub proof fn nothing_met_escapes<W, C>(
    world: W,
    r: W::Ray,
    depth: u32,
    rays: Seq<W::Ray>,
    path: Path<C, W::Ray>,
) where W: Hittable, W::Material: Material<Ray = W::Ray, Vector = W::Vector, Color = C>
    requires
        follows(world, r, depth, rays, path),
        depth > 0,
        world.answer(r, reach()) is None,
    ensures
        path.fate == Fate::Escaped(r),
        path.attenuations@.len() == 0,
{
}

/// With no depth, a path is exhausted before it has begun.
pub proof fn no_depth_exhausts<W, C>(
    world: W,
    r: W::Ray,
    rays: Seq<W::Ray>,
    path: Path<C, W::Ray>,
) where W: Hittable, W::Material: Material<Ray = W::Ray, Vector = W::Vector, Color = C>
    requires
        follows(world, r, 0, rays, path),
    ensures
        path.fate is Exhausted,
        path.attenuations@.len() == 0,
{
}

/// Whether `lights` are the lights that `path` brings, bounce by bounce: the
/// last of them the light of its end, which is `black` unless the path
/// escaped and `background` tells the light behind its last ray, and each
/// other one the light after it as `attenuate` dims it by the attenuation of
/// its bounce.
pub open spec fn shines<C, R, B, A>(
    path: Path<C, R>,
    black: C,
    background: B,
    attenuate: A,
    lights: Seq<C>,
) -> bool where B: Fn(&R) -> C, A: Fn(C, C) -> C {
    let bounces = path.attenuations@.len() as int;
    &&& lights.len() == bounces + 1
    &&& match path.fate {
        Fate::Escaped(last) => call_ensures(background, (&last,), lights[bounces]),
        _ => lights[bounces] == black,
    }
    &&& forall|i: int|
        0 <= i < bounces ==> call_ensures(
            attenuate,
            (path.attenuations@[i], lights[i + 1]),
            #[trigger] lights[i],
        )
}

/// Whether `light` is a light that the ray `r` may bring from `world` when it
/// is followed for at most `depth` bounces: the first of the lights of a path
/// of `r`.
pub open spec fn brings<W, C, B, A>(
    world: W,
    r: W::Ray,
    depth: u32,
    black: C,
    background: B,
    attenuate: A,
    light: C,
) -> bool where
    W: Hittable,
    W::Material: Material<Ray = W::Ray, Vector = W::Vector, Color = C>,
    B: Fn(&W::Ray) -> C,
    A: Fn(C, C) -> C,
 {
    exists|rays: Seq<W::Ray>, path: Path<C, W::Ray>, lights: Seq<C>|
        follows(world, r, depth, rays, path) && shines(path, black, background, attenuate, lights)
            && light == lights[0]
}

/// With no depth a ray brings no light, whatever the scene holds.
pub proof fn no_depth_brings_black<W, C, B, A>(
    world: W,
    r: W::Ray,
    black: C,
    background: B,
    attenuate: A,
    light: C,
) where
    W: Hittable,
    W::Material: Material<Ray = W::Ray, Vector = W::Vector, Color = C>,
    B: Fn(&W::Ray) -> C,
    A: Fn(C, C) -> C,

    requires
        brings(world, r, 0, black, background, attenuate, light),
    ensures
        light == black,
{
}

/// A ray of positive depth that meets nothing brings the light of the
/// background behind it.
pub proof fn nothing_met_brings_background<W, C, B, A>(
    world: W,
    r: W::Ray,
    depth: u32,
    black: C,
    background: B,
    attenuate: A,
    light: C,
) where
    W: Hittable,
    W::Material: Material<Ray = W::Ray, Vector = W::Vector, Color = C>,
    B: Fn(&W::Ray) -> C,
    A: Fn(C, C) -> C,

    requires
        brings(world, r, depth, black, background, attenuate, light),
        depth > 0,
        world.answer(r, reach()) is None,
    ensures
        call_ensures(background, (&r,), light),
{
    let (rays, path, lights) = choose|rays: Seq<W::Ray>, path: Path<C, W::Ray>, lights: Seq<C>|
        follows(world, r, depth, rays, path) && shines(path, black, background, attenuate, lights)
            && light == lights[0];
    nothing_met_escapes(world, r, depth, rays, path);
}

/// In a scene without things every ray of positive depth brings the light of
/// the background behind it.
pub proof fn empty_scene_brings_background<H, C, B, A>(
    world: HittableList<H>,
    r: H::Ray,
    depth: u32,
    black: C,
    background: B,
    attenuate: A,
    light: C,
) where
    H: Hittable,
    H::Material: Material<Ray = H::Ray, Vector = H::Vector, Color = C>,
    B: Fn(&H::Ray) -> C,
    A: Fn(C, C) -> C,

    requires
        world@.len() == 0,
        depth > 0,
        brings(world, r, depth, black, background, attenuate, light),
    ensures
        call_ensures(background, (&r,), light),
{
    nothing_met_brings_background(world, r, depth, black, background, attenuate, light);
}

/// The light that the ray `r` brings from `world` when it is followed for at
/// most `depth` bounces.
///
/// With no depth left that is `black`, whatever the scene holds. A ray that
/// meets nothing brings the light that `background` tells for it. A ray that
/// the nearest surface absorbs brings `black`, and one that it scatters
/// brings the light of the scattered ray, followed with one bounce less, as
/// `attenuate` dims it by the attenuation of the surface.
pub fn ray_color<W, C, B, A>(
    r: W::Ray,
    depth: u32,
    world: &W,
    black: C,
    background: B,
    attenuate: A,
) -> (light: C) where
    W: Hittable,
    W::Material: Material<Ray = W::Ray, Vector = W::Vector, Color = C>,
    B: Fn(&W::Ray) -> C,
    A: Fn(C, C) -> C,

    requires
        forall|ray: W::Ray| call_requires(background, (&ray,)),
        forall|attenuation: C, light: C| call_requires(attenuate, (attenuation, light)),
    ensures
        brings(*world, r, depth, black, background, attenuate, light),
        depth == 0 ==> light == black,
        depth > 0 && world.answer(r, reach()) is None ==> call_ensures(background, (&r,), light),
{
    let path = follow(r, depth, world);
    let ghost rays = choose|rays: Seq<W::Ray>| follows(*world, r, depth, rays, path);
    let Path { attenuations, fate } = path;
    let mut attenuations = attenuations;
    let mut light = match fate {
        Fate::Escaped(last) => background(&last),
        Fate::Exhausted => black,
        Fate::Absorbed => black,
    };
    let ghost mut lights: Seq<C> = seq![light];
    while attenuations.len() > 0
        invariant
            attenuations@.len() <= path.attenuations@.len(),
            attenuations@ == path.attenuations@.take(attenuations@.len() as int),
            lights.len() == path.attenuations@.len() - attenuations@.len() + 1,
            lights[0] == light,
            match path.fate {
                Fate::Escaped(last) => call_ensures(background, (&last,), lights.last()),
                _ => lights.last() == black,
            },
            forall|i: int|
                0 <= i < lights.len() - 1 ==> call_ensures(
                    attenuate,
                    (path.attenuations@[attenuations@.len() + i], lights[i + 1]),
                    #[trigger] lights[i],
                ),
            forall|attenuation: C, light: C| call_requires(attenuate, (attenuation, light)),
        decreases attenuations.len(),
    {
        let attenuation = attenuations.pop().unwrap();
        light = attenuate(attenuation, light);
        proof {
            lights = seq![light] + lights;
        }
    }
    proof {
        if depth > 0 && world.answer(r, reach()) is None {
            nothing_met_escapes(*world, r, depth, rays, path);
        }
    }
    light
}

/// Whether `light` is the light of a sample of the pixel in column `i` of row
/// `j`: a light that a ray brings which `get_ray` casts through that pixel.
pub open spec fn samples<W, C, G, B, A>(
    world: W,
    i: usize,
    j: usize,
    depth: u32,
    get_ray: G,
    black: C,
    background: B,
    attenuate: A,
    light: C,
) -> bool where
    W: Hittable,
    W::Material: Material<Ray = W::Ray, Vector = W::Vector, Color = C>,
    G: Fn(usize, usize) -> W::Ray,
    B: Fn(&W::Ray) -> C,
    A: Fn(C, C) -> C,
 {
    exists|r: W::Ray|
        call_ensures(get_ray, (i, j), r) && brings(
            world,
            r,
            depth,
            black,
            background,
            attenuate,
            light,
        )
}

/// Whether `sums` are the sums of the `lights` of the samples of a pixel as
/// they are added up: the first of them `black`, and each other one the sum
/// before it with one more light, as `accumulate` adds it.
pub open spec fn gathers<C, S>(
    black: C,
    accumulate: S,
    lights: Seq<C>,
    sums: Seq<C>,
) -> bool where S: Fn(C, C) -> C {
    &&& sums.len() == lights.len() + 1
    &&& sums[0] == black
    &&& forall|s: int|
        0 <= s < lights.len() ==> call_ensures(
            accumulate,
            (sums[s], lights[s]),
            #[trigger] sums[s + 1],
        )
}

/// Whether `bytes` are bytes that the pixel in column `i` of row `j` may be
/// written as.
///
/// `samples_per_pixel` lights, each that of a sample of the pixel, are added
/// up from `black`, one after the other, as `accumulate` adds them. `tone`
/// takes the sum to the bits of the three intensities of the pixel, and each
/// is written as its byte.
pub open spec fn shows<W, C, G, B, A, S, T>(
    world: W,
    i: usize,
    j: usize,
    samples_per_pixel: u32,
    max_depth: u32,
    get_ray: G,
    black: C,
    background: B,
    attenuate: A,
    accumulate: S,
    tone: T,
    bytes: (u8, u8, u8),
) -> bool where
    W: Hittable,
    W::Material: Material<Ray = W::Ray, Vector = W::Vector, Color = C>,
    G: Fn(usize, usize) -> W::Ray,
    B: Fn(&W::Ray) -> C,
    A: Fn(C, C) -> C,
    S: Fn(C, C) -> C,
    T: Fn(C) -> (u64, u64, u64),
 {
    exists|lights: Seq<C>, sums: Seq<C>, toned: (u64, u64, u64)|
        {
            &&& lights.len() == samples_per_pixel
            &&& forall|s: int|
                0 <= s < lights.len() ==> samples(
                    world,
                    i,
                    j,
                    max_depth,
                    get_ray,
                    black,
                    background,
                    attenuate,
                    #[trigger] lights[s],
                )
            &&& gathers(black, accumulate, lights, sums)
            &&& call_ensures(tone, (sums.last(),), toned)
            &&& bytes.0 == quantized(toned.0)
            &&& bytes.1 == quantized(toned.1)
            &&& bytes.2 == quantized(toned.2)
        }
}

/// The three bytes of the pixel in column `i` of row `j`.
///
/// `samples_per_pixel` rays are cast through the pixel, each one that
/// `get_ray` gives, and followed through `world` for at most `max_depth`
/// bounces. The lights they bring are added up from `black`, one after the
/// other, as `accumulate` adds them. `tone` takes the sum to the bits of the
/// three intensities of the pixel, and each is written as its byte.
pub fn pixel<W, C, G, B, A, S, T>(
    i: usize,
    j: usize,
    samples_per_pixel: u32,
    max_depth: u32,
    world: &W,
    get_ray: G,
    black: C,
    background: B,
    attenuate: A,
    accumulate: S,
    tone: T,
) -> (bytes: (u8, u8, u8)) where
    W: Hittable,
    W::Material: Material<Ray = W::Ray, Vector = W::Vector, Color = C>,
    C: Copy,
    G: Fn(usize, usize) -> W::Ray,
    B: Fn(&W::Ray) -> C + Copy,
    A: Fn(C, C) -> C + Copy,
    S: Fn(C, C) -> C,
    T: Fn(C) -> (u64, u64, u64),

    requires
        call_requires(get_ray, (i, j)),
        forall|ray: W::Ray| call_requires(background, (&ray,)),
        forall|attenuation: C, light: C| call_requires(attenuate, (attenuation, light)),
        forall|sum: C, light: C| call_requires(accumulate, (sum, light)),
        forall|sum: C| call_requires(tone, (sum,)),
    ensures
        shows(
            *world,
            i,
            j,
            samples_per_pixel,
            max_depth,
            get_ray,
            black,
            background,
            attenuate,
            accumulate,
            tone,
            bytes,
        ),
{
    let mut sum = black;
    let mut taken: u32 = 0;
    let ghost mut lights: Seq<C> = Seq::empty();
    let ghost mut sums: Seq<C> = seq![black];
    while taken < samples_per_pixel
        invariant
            taken <= samples_per_pixel,
            lights.len() == taken,
            sums.last() == sum,
            gathers(black, accumulate, lights, sums),
            forall|s: int|
                0 <= s < lights.len() ==> samples(
                    *world,
                    i,
                    j,
                    max_depth,
                    get_ray,
                    black,
                    background,
                    attenuate,
                    #[trigger] lights[s],
                ),
            call_requires(get_ray, (i, j)),
            forall|ray: W::Ray| call_requires(background, (&ray,)),
            forall|attenuation: C, light: C| call_requires(attenuate, (attenuation, light)),
            forall|sum: C, light: C| call_requires(accumulate, (sum, light)),
        decreases samples_per_pixel - taken,
    {
        let r = get_ray(i, j);
        let light = ray_color(r, max_depth, world, black, background, attenuate);
        sum = accumulate(sum, light);
        proof {
            lights = lights.push(light);
            sums = sums.push(sum);
        }
        taken = taken + 1;
    }
    let toned = tone(sum);
    (quantize(toned.0), quantize(toned.1), quantize(toned.2))
}

/// The height of an image, given the quotient of its width by its aspect
/// ratio: that quotient, but one row at the least.
pub fn image_height(quotient: usize) -> (height: usize)
    ensures
        height == if quotient < 1 {
            1
        } else {
            quotient
        },
{
    if quotient < 1 {
        1
    } else {
        quotient
    }
}

/// Whether every ray sets out from the camera's own place, given the rank of
/// the defocus angle: it does where that angle is zero or below. Else the rays
/// set out from points of the defocus disk.
pub fn pinhole(defocus_angle: i64) -> (sharp: bool)
    ensures
        sharp <==> defocus_angle <= 0,
{
    defocus_angle <= 0
}

/// The column and the row of the pixel that stands at `index` in an image
/// `image_width` wide: rows follow each other from the top, and in a row the
/// pixels from the left.
pub open spec fn pixel_at(image_width: usize, index: int) -> (usize, usize) {
    ((index % image_width as int) as usize, (index / image_width as int) as usize)
}

/// The pixel in column `i` of row `j` stands behind the `j` rows above it
/// and the `i` pixels to its left.
pub proof fn pixel_at_row_major(image_width: usize, i: usize, j: usize)
    requires
        i < image_width,
    ensures
        pixel_at(image_width, j * image_width + i) == (i, j),
{
    lemma_fundamental_div_mod_converse(j * image_width + i, image_width as int, j as int, i as int);
}

/// The image `image_width` wide and `image_height` high whose pixels `pixel`
/// works out from their column and row, row by row from the top and in each
/// row from the left.
pub fn render<P, F>(image_width: usize, image_height: usize, pixel: F) -> (image: Vec<P>) where
    F: Fn(usize, usize) -> P,

    requires
        forall|i: usize, j: usize|
            i < image_width && j < image_height ==> call_requires(pixel, (i, j)),
    ensures
        image@.len() == image_width * image_height,
        forall|k: int|
            0 <= k < image@.len() ==> call_ensures(
                pixel,
                pixel_at(image_width, k),
                #[trigger] image@[k],
            ),
{
    let mut image: Vec<P> = Vec::new();
    let mut j: usize = 0;
    while j < image_height
        invariant
            j <= image_height,
            image@.len() == j * image_width,
            forall|i: usize, j: usize|
                i < image_width && j < image_height ==> call_requires(pixel, (i, j)),
            forall|k: int|
                0 <= k < image@.len() ==> call_ensures(
                    pixel,
                    pixel_at(image_width, k),
                    #[trigger] image@[k],
                ),
        decreases image_height - j,
    {
        let mut i: usize = 0;
        while i < image_width
            invariant
                j < image_height,
                i <= image_width,
                image@.len() == j * image_width + i,
                forall|i: usize, j: usize|
                    i < image_width && j < image_height ==> call_requires(pixel, (i, j)),
                forall|k: int|
                    0 <= k < image@.len() ==> call_ensures(
                        pixel,
                        pixel_at(image_width, k),
                        #[trigger] image@[k],
                    ),
            decreases image_width - i,
        {
            let shade = pixel(i, j);
            proof {
                pixel_at_row_major(image_width, i, j);
            }
            image.push(shade);
            i += 1;
        }
        assert((j + 1) * image_width == j * image_width + image_width) by (nonlinear_arith);
        j += 1;
    }
    assert(image@.len() == image_width * image_height) by (nonlinear_arith)
        requires
            image@.len() == j * image_width,
            j == image_height,
    ;
    image
}

/// What a camera counts: the columns and rows of its image, the samples that
/// make a pixel, and the bounces for which a ray is followed.
#[derive(Clone, Copy, Debug, PartialEq, Eq)]
pub struct Camera {
    pub image_width: usize,
    pub image_height: usize,
    pub samples_per_pixel: u32,
    pub max_depth: u32,
}

impl Camera {
    /// Whether the camera is one: it has columns and rows, takes samples and
    /// follows rays.
    pub open spec fn well_formed(&self) -> bool {
        &&& self.image_width > 0
        &&& self.image_height > 0
        &&& self.samples_per_pixel > 0
        &&& self.max_depth > 0
    }

    /// The camera with an image `image_width` wide and `image_height` high
    /// that takes `samples_per_pixel` samples for a pixel and follows a ray
    /// for `max_depth` bounces.
    pub fn new(
        image_width: usize,
        image_height: usize,
        samples_per_pixel: u32,
        max_depth: u32,
    ) -> (camera: Camera)
        requires
            image_width > 0,
            image_height > 0,
            samples_per_pixel > 0,
            max_depth > 0,
        ensures
            camera == (Camera { image_width, image_height, samples_per_pixel, max_depth }),
            camera.well_formed(),
    {
        Camera { image_width, image_height, samples_per_pixel, max_depth }
    }

    /// The image of `world`: the bytes of its pixels, row by row from the top
    /// and in each row from the left, each pixel as [`pixel`] works it out.
    pub fn render<W, C, G, B, A, S, T>(
        &self,
        world: &W,
        get_ray: G,
        black: C,
        background: B,
        attenuate: A,
        accumulate: S,
        tone: T,
    ) -> (image: Vec<(u8, u8, u8)>) where
        W: Hittable,
        W::Material: Material<Ray = W::Ray, Vector = W::Vector, Color = C>,
        C: Copy,
        G: Fn(usize, usize) -> W::Ray + Copy,
        B: Fn(&W::Ray) -> C + Copy,
        A: Fn(C, C) -> C + Copy,
        S: Fn(C, C) -> C + Copy,
        T: Fn(C) -> (u64, u64, u64) + Copy,

        requires
            forall|i: usize, j: usize|
                i < self.image_width && j < self.image_height ==> call_requires(get_ray, (i, j)),
            forall|ray: W::Ray| call_requires(background, (&ray,)),
            forall|attenuation: C, light: C| call_requires(attenuate, (attenuation, light)),
            forall|sum: C, light: C| call_requires(accumulate, (sum, light)),
            forall|sum: C| call_requires(tone, (sum,)),
        ensures
            image@.len() == self.image_width * self.image_height,
            forall|k: int|
                0 <= k < image@.len() ==> shows(
                    *world,
                    pixel_at(self.image_width, k).0,
                    pixel_at(self.image_width, k).1,
                    self.samples_per_pixel,
                    self.max_depth,
                    get_ray,
                    black,
                    background,
                    attenuate,
                    accumulate,
                    tone,
                    #[trigger] image@[k],
                ),
    {
        let samples_per_pixel = self.samples_per_pixel;
        let max_depth = self.max_depth;
        let image_width = self.image_width;
        let image_height = self.image_height;
        let shade = |i: usize, j: usize| -> (bytes: (u8, u8, u8))
            requires
                i < image_width && j < image_height,
            ensures
                shows(
                    *world,
                    i,
                    j,
                    samples_per_pixel,
                    max_depth,
                    get_ray,
                    black,
                    background,
                    attenuate,
                    accumulate,
                    tone,
                    bytes,
                ),
            {
                pixel(
                    i,
                    j,
                    samples_per_pixel,
                    max_depth,
                    world,
                    get_ray,
                    black,
                    background,
                    attenuate,
                    accumulate,
                    tone,
                )
            };
        render(image_width, image_height, shade)
    }
}

} // verus!
