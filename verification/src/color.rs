use vstd::prelude::*;
use crate::level::{
    lemma_round_half_away_is_nearest, round_to_sample, sample_of, sample_of_level,
    sample_of_thousandths, UNITS_PER_LEVEL,
};

verus! {

/// A pixel of three 8-bit samples.
#[derive(Debug, Clone, Copy, PartialEq, Eq, Structural)]
pub struct Rgb {
    pub r: u8,
    pub g: u8,
    pub b: u8,
}

/// A pixel of four 8-bit samples. An opaque pixel has an alpha of 255.
#[derive(Debug, Clone, Copy, PartialEq, Eq, Structural)]
pub struct Rgba {
    pub r: u8,
    pub g: u8,
    pub b: u8,
    pub a: u8,
}

impl Rgba {
    /// The pixel without its alpha.
    pub open spec fn spec_rgb(self) -> Rgb {
        Rgb { r: self.r, g: self.g, b: self.b }
    }

    /// The pixel without its alpha.
    pub fn rgb(&self) -> (p: Rgb)
        ensures
            p == self.spec_rgb(),
    {
        Rgb { r: self.r, g: self.g, b: self.b }
    }
}

impl Rgb {
    /// The pixel with the alpha of an opaque one.
    pub open spec fn spec_opaque(self) -> Rgba {
        Rgba { r: self.r, g: self.g, b: self.b, a: 255 }
    }

    /// The pixel with the alpha of an opaque one.
    pub fn opaque(&self) -> (p: Rgba)
        ensures
            p == self.spec_opaque(),
    {
        Rgba { r: self.r, g: self.g, b: self.b, a: 255 }
    }
}

/// Luma: `0.299 R + 0.587 G + 0.114 B`, rounded and clamped.
pub open spec fn luma(p: Rgb) -> int {
    sample_of(299 * p.r + 587 * p.g + 114 * p.b, 1000)
}

/// Blue-difference chroma: `-0.169 R - 0.331 G + 0.500 B + 128`, rounded and clamped.
pub open spec fn chroma_blue(p: Rgb) -> int {
    sample_of(-169 * p.r - 331 * p.g + 500 * p.b + 128_000, 1000)
}

/// Red-difference chroma: `0.500 R - 0.419 G - 0.081 B + 128`, rounded and clamped.
pub open spec fn chroma_red(p: Rgb) -> int {
    sample_of(500 * p.r - 419 * p.g - 81 * p.b + 128_000, 1000)
}

/// Red: `Y + 1.402 (Cr - 128)`, rounded and clamped. `y` is in fixed-point units.
pub open spec fn red_of(y: int, cr: int) -> int {
    sample_of_level(y + 1_402_000 * (cr - 128))
}

/// Green: `Y - 0.34414 (Cb - 128) - 0.71414 (Cr - 128)`, rounded and clamped.
/// `y` is in fixed-point units.
pub open spec fn green_of(y: int, cb: int, cr: int) -> int {
    sample_of_level(y - 344_140 * (cb - 128) - 714_140 * (cr - 128))
}

/// Blue: `Y + 1.772 (Cb - 128)`, rounded and clamped. `y` is in fixed-point units.
pub open spec fn blue_of(y: int, cb: int) -> int {
    sample_of_level(y + 1_772_000 * (cb - 128))
}

/// The pixel that a luma level and two chroma samples stand for.
pub open spec fn rgb_of(y: int, cb: int, cr: int) -> Rgb {
    Rgb { r: red_of(y, cr) as u8, g: green_of(y, cb, cr) as u8, b: blue_of(y, cb) as u8 }
}

/// Converts a pixel to luma and chroma samples `(Y, Cb, Cr)`.
pub fn rgb_to_ycbcr(pixel: &Rgb) -> (ycbcr: (u8, u8, u8))
    ensures
        ycbcr.0 == luma(*pixel),
        ycbcr.1 == chroma_blue(*pixel),
        ycbcr.2 == chroma_red(*pixel),
{
    let r: i32 = pixel.r as i32;
    let g: i32 = pixel.g as i32;
    let b: i32 = pixel.b as i32;
    let y = sample_of_thousandths(299 * r + 587 * g + 114 * b);
    let cb = sample_of_thousandths(128_000 - 169 * r - 331 * g + 500 * b);
    let cr = sample_of_thousandths(128_000 + 500 * r - 419 * g - 81 * b);
    (y, cb, cr)
}

/// The sample nearest to `level + offset`, whatever the level.
fn round_shifted(level: i128, offset: i128) -> (sample: u8)
    requires
        -1_000_000_000 <= offset <= 1_000_000_000,
    ensures
        sample == sample_of_level(level + offset),
{
    proof {
        lemma_round_half_away_is_nearest(level + offset, UNITS_PER_LEVEL as int);
    }
    if level >= 2_000_000_000 {
        255
    } else if level <= -2_000_000_000 {
        0
    } else {
        round_to_sample(level + offset)
    }
}

/// Converts a luma level, in fixed-point units, and two chroma samples to a pixel.
/// Each output sample is rounded to the nearest integer and clamped to `0..=255`.
pub fn ycbcr_to_rgb(y: i128, cb: u8, cr: u8) -> (pixel: Rgb)
    ensures
        pixel == rgb_of(y as int, cb as int, cr as int),
{
    let db: i128 = cb as i128 - 128;
    let dr: i128 = cr as i128 - 128;
    let r = round_shifted(y, 1_402_000 * dr);
    let g = round_shifted(y, 0 - 344_140 * db - 714_140 * dr);
    let b = round_shifted(y, 1_772_000 * db);
    Rgb { r, g, b }
}

/// A luma far above the range saturates every sample, and one far below
/// empties every sample, whatever the chroma: nothing wraps.
pub proof fn lemma_extreme_luma_saturates(y: int, cb: u8, cr: u8)
    ensures
        y >= 482 * UNITS_PER_LEVEL ==> rgb_of(y, cb as int, cr as int) == (Rgb {
            r: 255,
            g: 255,
            b: 255,
        }),
        y <= -226 * UNITS_PER_LEVEL ==> rgb_of(y, cb as int, cr as int) == (Rgb { r: 0, g: 0, b: 0 }),
{
    let db = cb - 128;
    let dr = cr - 128;
    lemma_round_half_away_is_nearest(y + 1_402_000 * dr, UNITS_PER_LEVEL as int);
    lemma_round_half_away_is_nearest(y - 344_140 * db - 714_140 * dr, UNITS_PER_LEVEL as int);
    lemma_round_half_away_is_nearest(y + 1_772_000 * db, UNITS_PER_LEVEL as int);
}

/// A grey pixel survives the passage through luma and chroma unchanged.
pub proof fn lemma_grey_round_trip(v: u8)
    ensures
        ({
            let p = Rgb { r: v, g: v, b: v };
            rgb_of(luma(p) * UNITS_PER_LEVEL, chroma_blue(p), chroma_red(p)) == p
        }),
{
    let p = Rgb { r: v, g: v, b: v };
    lemma_round_half_away_is_nearest(1000 * v, 1000);
    lemma_round_half_away_is_nearest(128_000, 1000);
    lemma_round_half_away_is_nearest(v * UNITS_PER_LEVEL, UNITS_PER_LEVEL as int);
}

} // verus!
