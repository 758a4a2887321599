//! Conversion of a luma and chroma triplet to a 24-bit colour.

use vstd::prelude::*;

verus! {

/// A 24-bit colour.
#[derive(Clone, Copy, Debug, PartialEq, Eq, Structural)]
pub struct Rgb {
    pub r: u8,
    pub g: u8,
    pub b: u8,
}

/// The fixed-point scale of the transform's coefficients: each coefficient
/// is written with five decimal places.
pub const SCALE: i32 = 100_000;

/// The integer nearest to `num / den`; a value halfway between two integers
/// goes to the one farther from zero.
pub open spec fn round_half_away(num: int, den: int) -> int
    recommends
        den > 0,
{
    if num >= 0 {
        (2 * num + den) / (2 * den)
    } else {
        -((den - 2 * num) / (2 * den))
    }
}

/// `x` limited to the range of a byte.
pub open spec fn clamp_to_byte(x: int) -> int {
    if x < 0 {
        0
    } else if x > 255 {
        255
    } else {
        x
    }
}

/// `SCALE * (y + 1.13983 * (v - 128))`.
pub open spec fn red_scaled(y: int, v: int) -> int {
    100_000 * y + 113_983 * (v - 128)
}

/// `SCALE * (y - 0.39465 * (u - 128) - 0.58060 * (v - 128))`.
pub open spec fn green_scaled(y: int, u: int, v: int) -> int {
    100_000 * y - 39_465 * (u - 128) - 58_060 * (v - 128)
}

/// `SCALE * (y + 2.03211 * (u - 128))`.
pub open spec fn blue_scaled(y: int, u: int) -> int {
    100_000 * y + 203_211 * (u - 128)
}

/// A scaled channel value rounded to the nearest integer and clamped.
pub open spec fn channel(scaled: int) -> int {
    clamp_to_byte(round_half_away(scaled, 100_000))
}

/// The red, green and blue components of the colour that the sample
/// `(y, u, v)` stands for.
pub open spec fn yuv_to_rgb_spec(y: int, u: int, v: int) -> (int, int, int) {
    (channel(red_scaled(y, v)), channel(green_scaled(y, u, v)), channel(blue_scaled(y, u)))
}

/// The components that a sample is drawn with: its colour when `colored`,
/// else the grey of its luma.
pub open spec fn pixel_color_spec(colored: bool, y: int, u: int, v: int) -> (int, int, int) {
    if colored {
        yuv_to_rgb_spec(y, u, v)
    } else {
        (y, y, y)
    }
}

/// The components of `c` as integers.
pub open spec fn components(c: Rgb) -> (int, int, int) {
    (c.r as int, c.g as int, c.b as int)
}

/// Rounds `scaled / SCALE` to the nearest integer and clamps it to a byte.
fn scaled_to_byte(scaled: i32) -> (b: u8)
    requires
        -1_000_000_000 <= scaled <= 1_000_000_000,
    ensures
        b as int == channel(scaled as int),
{
    if scaled <= 0 {
        0
    } else {
        let q: i32 = (2 * scaled + SCALE) / (2 * SCALE);
        if q > 255 {
            255
        } else {
            q as u8
        }
    }
}

/// Converts a luma and chroma sample to a colour.
pub fn yuv_to_rgb(y: u8, u: u8, v: u8) -> (c: Rgb)
    ensures
        components(c) == yuv_to_rgb_spec(y as int, u as int, v as int),
{
    let y: i32 = y as i32;
    let u: i32 = u as i32 - 128;
    let v: i32 = v as i32 - 128;
    Rgb {
        r: scaled_to_byte(SCALE * y + 113_983 * v),
        g: scaled_to_byte(SCALE * y - 39_465 * u - 58_060 * v),
        b: scaled_to_byte(SCALE * y + 203_211 * u),
    }
}

/// The colour a sample is drawn with: its converted colour when `colored`,
/// else the grey `(y, y, y)`, whatever the chroma.
pub fn pixel_color(colored: bool, y: u8, u: u8, v: u8) -> (c: Rgb)
    ensures
        components(c) == pixel_color_spec(colored, y as int, u as int, v as int),
        !colored ==> c == (Rgb { r: y, g: y, b: y }),
{
    if colored {
        yuv_to_rgb(y, u, v)
    } else {
        Rgb { r: y, g: y, b: y }
    }
}

/// The rounding picks a nearest integer: the rounded value is at most one
/// half away from the exact quotient.
pub proof fn lemma_round_is_nearest(num: int, den: int)
    requires
        den > 0,
    ensures
        -den <= 2 * (num - round_half_away(num, den) * den) <= den,
{
    let r = round_half_away(num, den);
    if num >= 0 {
        vstd::arithmetic::div_mod::lemma_fundamental_div_mod(2 * num + den, 2 * den);
        vstd::arithmetic::div_mod::lemma_mod_bound(2 * num + den, 2 * den);
        assert((2 * den) * r == 2 * (r * den)) by (nonlinear_arith);
    } else {
        let q = (den - 2 * num) / (2 * den);
        vstd::arithmetic::div_mod::lemma_fundamental_div_mod(den - 2 * num, 2 * den);
        vstd::arithmetic::div_mod::lemma_mod_bound(den - 2 * num, 2 * den);
        assert((2 * den) * q == 2 * (q * den)) by (nonlinear_arith);
        assert(r * den == -(q * den)) by (nonlinear_arith)
            requires
                r == -q,
        ;
    }
}

/// Every component of a drawn colour lies in `0..=255`, for every sample,
/// and without colour the three components are the luma itself.
pub proof fn lemma_pixel_color_in_range(colored: bool, y: int, u: int, v: int)
    requires
        0 <= y <= 255,
        0 <= u <= 255,
        0 <= v <= 255,
    ensures
        0 <= pixel_color_spec(colored, y, u, v).0 <= 255,
        0 <= pixel_color_spec(colored, y, u, v).1 <= 255,
        0 <= pixel_color_spec(colored, y, u, v).2 <= 255,
        !colored ==> pixel_color_spec(colored, y, u, v) == (y, y, y),
{
}

} // verus!
