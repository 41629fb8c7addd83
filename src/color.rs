//! Spek-style thermal palette: intensity level to RGBA, in exact integer arithmetic.
//!
//! An intensity is a level in `0..=INTENSITY_MAX`, standing for the fraction
//! `level / INTENSITY_MAX` of full scale. The palette interpolates four linear
//! segments of normalised YUV stops (given in thousandths) and converts them to
//! RGB with the full-range BT.601 matrix; each component is clamped to
//! `[0, 255]` and truncated.
use vstd::prelude::*;

verus! {

/// The level that stands for full intensity (1.0).
pub const INTENSITY_MAX: u16 = 65535;

/// RGBA color, 8 bits per channel.
#[derive(Debug, Copy, Clone, PartialEq, Eq, Structural)]
pub struct Rgba {
    pub r: u8,
    pub g: u8,
    pub b: u8,
    pub a: u8,
}

pub open spec fn level_max() -> int {
    INTENSITY_MAX as int
}

/// YUV stop `k` of the palette, each component in thousandths.
pub open spec fn stop(k: int) -> (int, int, int) {
    if k == 0 {
        (50, 500, 600)
    } else if k == 1 {
        (200, 600, 700)
    } else if k == 2 {
        (450, 450, 400)
    } else if k == 3 {
        (750, 350, 250)
    } else {
        (1000, 500, 500)
    }
}

/// Which of the four segments a level falls in (each spans a quarter of the range).
pub open spec fn segment(q: int) -> int {
    if 4 * q / level_max() >= 3 {
        3
    } else {
        4 * q / level_max()
    }
}

/// Position inside the segment, in units of `1 / level_max()` of the segment.
pub open spec fn segment_offset(q: int) -> int {
    4 * q - segment(q) * level_max()
}

/// `a + (b - a) * d / level_max()`, scaled by `level_max()`.
pub open spec fn mix(a: int, b: int, d: int) -> int {
    a * (level_max() - d) + b * d
}

/// Denominator shared by the three color components below.
pub open spec fn component_den() -> int {
    1_000_000_000 * level_max()
}

/// `255 * (Y + 1.402 (V - 1/2))`, over `component_den()`.
pub open spec fn red_num(y: int, v: int) -> int {
    255 * (1_000_000 * y + 1_402_000 * (v - 500 * level_max()))
}

/// `255 * (Y - 0.344136 (U - 1/2) - 0.714136 (V - 1/2))`, over `component_den()`.
pub open spec fn green_num(y: int, u: int, v: int) -> int {
    255 * (1_000_000 * y - 344_136 * (u - 500 * level_max()) - 714_136 * (v - 500
        * level_max()))
}

/// `255 * (Y + 1.772 (U - 1/2))`, over `component_den()`.
pub open spec fn blue_num(y: int, u: int) -> int {
    255 * (1_000_000 * y + 1_772_000 * (u - 500 * level_max()))
}

/// A rational component clamped to `[0, 255]` and truncated.
pub open spec fn component(num: int) -> u8 {
    if num <= 0 {
        0
    } else if num / component_den() >= 255 {
        255
    } else {
        (num / component_den()) as u8
    }
}

/// The color of intensity level `q`.
pub open spec fn palette_color(q: int) -> Rgba {
    let k = segment(q);
    let d = segment_offset(q);
    let y = mix(stop(k).0, stop(k + 1).0, d);
    let u = mix(stop(k).1, stop(k + 1).1, d);
    let v = mix(stop(k).2, stop(k + 1).2, d);
    Rgba { r: component(red_num(y, v)), g: component(green_num(y, u, v)), b: component(blue_num(y, u)), a: 255 }
}

/// Perceived luminance (BT.601 weights), truncated.
pub open spec fn luma(c: Rgba) -> int {
    (299 * c.r + 587 * c.g + 114 * c.b) / 1000
}

/// The lowest level is a dark color and the highest a bright one.
pub proof fn lemma_palette_endpoints()
    ensures
        luma(palette_color(0)) < 64,
        luma(palette_color(level_max())) > 200,
        palette_color(0).a == 255,
        palette_color(level_max()).a == 255,
{
    let q = level_max();
    assert(q == 65535);
    assert(component_den() == 65_535_000_000_000);
    assert(segment(0) == 0);
    assert(segment_offset(0) == 0);
    assert(mix(50, 200, 0) == 50 * q);
    assert(mix(500, 600, 0) == 500 * q);
    assert(mix(600, 700, 0) == 600 * q);
    assert(red_num(50 * q, 600 * q) == 48_501_000_000 * q);
    assert(48_501_000_000 * q / component_den() == 48);
    assert(green_num(50 * q, 500 * q, 600 * q) < 0);
    assert(blue_num(50 * q, 500 * q) == 12_750_000_000 * q);
    assert(12_750_000_000 * q / component_den() == 12);
    assert(palette_color(0) == Rgba { r: 48, g: 0, b: 12, a: 255 });
    assert(4 * q / q == 4);
    assert(segment(q) == 3);
    assert(segment_offset(q) == q);
    assert(mix(750, 1000, q) == 1000 * q);
    assert(mix(350, 500, q) == 500 * q);
    assert(mix(250, 500, q) == 500 * q);
    assert(red_num(1000 * q, 500 * q) == 255_000_000_000 * q);
    assert(255_000_000_000 * q / component_den() == 255);
    assert(green_num(1000 * q, 500 * q, 500 * q) == 255_000_000_000 * q);
    assert(blue_num(1000 * q, 500 * q) == 255_000_000_000 * q);
    assert(palette_color(q) == Rgba { r: 255, g: 255, b: 255, a: 255 });
}

/// Every palette color is opaque.
pub proof fn lemma_palette_opaque(q: int)
    ensures
        palette_color(q).a == 255,
{
}

fn interpolate(a: i64, b: i64, d: i64) -> (r: i64)
    requires
        0 <= a <= 1000,
        0 <= b <= 1000,
        0 <= d <= level_max(),
    ensures
        r == mix(a as int, b as int, d as int),
        0 <= r <= 1000 * level_max(),
{
    let q = INTENSITY_MAX as i64;
    assert(0 <= a * (q - d) <= 1000 * (q - d)) by (nonlinear_arith)
        requires 0 <= a <= 1000, 0 <= d <= q;
    assert(0 <= b * d <= 1000 * d) by (nonlinear_arith)
        requires 0 <= b <= 1000, 0 <= d;
    a * (q - d) + b * d
}

fn to_component(num: i64) -> (r: u8)
    ensures
        r == component(num as int),
{
    let den: i64 = 1_000_000_000 * (INTENSITY_MAX as i64);
    if num <= 0 {
        0
    } else if num / den >= 255 {
        255
    } else {
        (num / den) as u8
    }
}

/// Canonical Spek palette mapper. Stateless.
pub struct SpekColorMapper;

impl SpekColorMapper {
    pub fn new() -> (r: SpekColorMapper) {
        SpekColorMapper
    }

    /// The palette color of intensity level `intensity`.
    pub fn map(&self, intensity: u16) -> (r: Rgba)
        ensures
            r == palette_color(intensity as int),
    {
        let q = INTENSITY_MAX as i64;
        let four_q = 4 * (intensity as i64);
        let k: i64 = if four_q / q >= 3 {
            3
        } else {
            four_q / q
        };
        let d = four_q - k * q;
        let (y0, u0, v0, y1, u1, v1): (i64, i64, i64, i64, i64, i64) = if k == 0 {
            (50, 500, 600, 200, 600, 700)
        } else if k == 1 {
            (200, 600, 700, 450, 450, 400)
        } else if k == 2 {
            (450, 450, 400, 750, 350, 250)
        } else {
            (750, 350, 250, 1000, 500, 500)
        };
        let y = interpolate(y0, y1, d);
        let u = interpolate(u0, u1, d);
        let v = interpolate(v0, v1, d);
        let half = 500 * q;
        let r = to_component(255 * (1_000_000 * y + 1_402_000 * (v - half)));
        let g = to_component(255 * (1_000_000 * y - 344_136 * (u - half) - 714_136 * (v - half)));
        let b = to_component(255 * (1_000_000 * y + 1_772_000 * (u - half)));
        Rgba { r, g, b, a: 255 }
    }
}

} // verus!
