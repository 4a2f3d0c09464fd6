//! Display colors and the integer rules that fade and shade them.
use vstd::prelude::*;
use rand::rngs::StdRng;
use crate::random::offset;

verus! {

#[derive(Clone, Copy, Debug, PartialEq, Eq, Structural)]
pub struct Color {
    pub r: u8,
    pub g: u8,
    pub b: u8,
    pub a: u8,
}

impl Color {
    pub fn rgba(r: u8, g: u8, b: u8, a: u8) -> (c: Color)
        ensures
            c == (Color { r, g, b, a }),
    {
        Color { r, g, b, a }
    }

    pub open spec fn black_spec() -> Color {
        Color { r: 0, g: 0, b: 0, a: 255 }
    }

    pub fn black() -> (c: Color)
        ensures
            c == Color::black_spec(),
    {
        Color { r: 0, g: 0, b: 0, a: 255 }
    }
}

/// `a + (b - a) * num / den`, rounded down.
pub open spec fn lerp_channel(a: u8, b: u8, num: int, den: int) -> int {
    a + (b - a) * num / den
}

pub open spec fn lerp_color(a: Color, b: Color, num: int, den: int) -> Color {
    Color {
        r: lerp_channel(a.r, b.r, num, den) as u8,
        g: lerp_channel(a.g, b.g, num, den) as u8,
        b: lerp_channel(a.b, b.b, num, den) as u8,
        a: lerp_channel(a.a, b.a, num, den) as u8,
    }
}

/// The channel `c` moved by `shift`, kept within `0..=255`.
pub open spec fn shift_channel(c: u8, shift: int) -> u8 {
    if c + shift < 0 {
        0
    } else if c + shift > 255 {
        255
    } else {
        (c + shift) as u8
    }
}

/// `c` lightened (or darkened, for a negative shift) by `shift` on each of red, green and blue.
pub open spec fn shaded(c: Color, shift: int) -> Color {
    Color { r: shift_channel(c.r, shift), g: shift_channel(c.g, shift), b: shift_channel(c.b, shift), a: c.a }
}

proof fn lemma_lerp_in_range(a: u8, b: u8, num: int, den: int)
    requires
        0 < den,
        0 <= num <= den,
    ensures
        0 <= lerp_channel(a, b, num, den) <= 255,
{
    let d = (b - a) as int;
    if d >= 0 {
        assert(0 <= d * num <= d * den) by (nonlinear_arith)
            requires 0 <= d, 0 <= num <= den;
        assert(d * num / den <= d) by (nonlinear_arith)
            requires 0 <= d, 0 < den, d * num <= d * den;
        assert(0 <= d * num / den) by (nonlinear_arith)
            requires 0 < den, 0 <= d * num;
    } else {
        assert(d * den <= d * num <= 0) by (nonlinear_arith)
            requires d < 0, 0 <= num <= den;
        assert(d <= d * num / den) by (nonlinear_arith)
            requires d < 0, 0 < den, d * den <= d * num;
        assert(d * num / den <= 0) by (nonlinear_arith)
            requires 0 < den, d * num <= 0;
    }
}

fn lerp_channel_exec(a: u8, b: u8, num: u32, den: u32) -> (r: u8)
    requires
        0 < den,
        num <= den,
    ensures
        r == lerp_channel(a, b, num as int, den as int),
{
    proof {
        lemma_lerp_in_range(a, b, num as int, den as int);
    }
    let diff: i64 = b as i64 - a as i64;
    assert(-255 * (u32::MAX as int) <= diff * num <= 255 * (u32::MAX as int)) by (nonlinear_arith)
        requires 0 <= num <= u32::MAX, -255 <= diff <= 255;
    let d: i64 = diff * (num as i64);
    let q: i64 = if d >= 0 {
        d / (den as i64)
    } else {
        let m = (-d + den as i64 - 1) / (den as i64);
        assert(-(m as int) == (d as int) / (den as int)) by (nonlinear_arith)
            requires d < 0, den > 0, m as int == (-(d as int) + den - 1) / (den as int);
        -m
    };
    (a as i64 + q) as u8
}

/// The color a fraction `num / den` of the way from `a` to `b`, each channel rounded down.
pub fn color_interpolation(a: Color, b: Color, num: u32, den: u32) -> (c: Color)
    requires
        0 < den,
        num <= den,
    ensures
        c == lerp_color(a, b, num as int, den as int),
{
    Color {
        r: lerp_channel_exec(a.r, b.r, num, den),
        g: lerp_channel_exec(a.g, b.g, num, den),
        b: lerp_channel_exec(a.b, b.b, num, den),
        a: lerp_channel_exec(a.a, b.a, num, den),
    }
}

/// `color` kept at `lightness / full` of its brightness: interpolated toward black by the rest.
pub fn darken_color(color: Color, lightness: u32, full: u32) -> (c: Color)
    requires
        0 < full,
        lightness <= full,
    ensures
        c == lerp_color(color, Color::black_spec(), full - lightness, full as int),
{
    color_interpolation(color, Color::black(), full - lightness, full)
}

fn shift_channel_exec(c: u8, shift: i64) -> (r: u8)
    requires
        -256 <= shift <= 256,
    ensures
        r == shift_channel(c, shift as int),
{
    let v: i64 = c as i64 + shift;
    if v < 0 {
        0
    } else if v > 255 {
        255
    } else {
        v as u8
    }
}

/// `color` with `shift` added to red, green and blue, each kept within `0..=255`.
pub fn shade_color(color: Color, shift: i64) -> (c: Color)
    requires
        -256 <= shift <= 256,
    ensures
        c == shaded(color, shift as int),
{
    Color {
        r: shift_channel_exec(color.r, shift),
        g: shift_channel_exec(color.g, shift),
        b: shift_channel_exec(color.b, shift),
        a: color.a,
    }
}

/// `c` is `base` shaded by some amount within `-variance..=variance`.
pub open spec fn is_shade_of(c: Color, base: Color, variance: int) -> bool {
    exists|shift: int| -variance <= shift <= variance && c == #[trigger] shaded(base, shift)
}

/// `color` shaded by a random amount within `-variance..=variance`: red, green and blue move
/// together by the same step, a brightness jitter in RGB rather than one in hue, saturation
/// and lightness.
pub fn vary_color(color: Color, variance: u8, rng: &mut StdRng) -> (c: Color)
    ensures
        is_shade_of(c, color, variance as int),
{
    let shift = offset(rng, variance as u32);
    shade_color(color, shift)
}

} // verus!
