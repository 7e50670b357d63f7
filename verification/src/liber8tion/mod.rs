//! Eight-bit fixed-point arithmetic for microcontrollers: fractions, square
//! roots, sine and cosine, beats, and colours by hue, saturation and value.
pub mod interpolate;
pub mod rhythm;
pub mod sin_table;
pub mod trig;

use crate::liber8tion::interpolate::Fract8;
use crate::liber8tion::interpolate::Fract8Ops;
use crate::liber8tion::interpolate::lemma_scaled_bounds;
use crate::liber8tion::interpolate::scaled;
use crate::pixels::Rgb;
use crate::pixels::Rgba;
use vstd::prelude::*;

verus! {

/// `root` is the square root of `x`, rounded down.
pub open spec fn is_sqrt(x: int, root: int) -> bool {
    0 <= root && root * root <= x < (root + 1) * (root + 1)
}

/// The square root of `x`, rounded down.
pub open spec fn isqrt(x: int) -> int {
    choose|root: int| is_sqrt(x, root)
}

/// A number has at most one rounded-down square root.
pub proof fn lemma_sqrt_unique(x: int, first: int, second: int)
    requires
        is_sqrt(x, first),
        is_sqrt(x, second),
    ensures
        first == second,
{
    if first < second {
        assert((first + 1) * (first + 1) <= second * second) by (nonlinear_arith)
            requires
                0 <= first,
                first + 1 <= second,
        ;
    } else if second < first {
        assert((second + 1) * (second + 1) <= first * first) by (nonlinear_arith)
            requires
                0 <= second,
                second + 1 <= first,
        ;
    }
}

/// Whatever meets `is_sqrt` is the square root.
pub proof fn lemma_isqrt_is(x: int, root: int)
    requires
        is_sqrt(x, root),
    ensures
        isqrt(x) == root,
{
    lemma_sqrt_unique(x, isqrt(x), root);
}

/// Every natural number has a rounded-down square root.
pub proof fn lemma_sqrt_exists(x: nat)
    ensures
        is_sqrt(x as int, isqrt(x as int)),
    decreases x,
{
    if x == 0 {
        assert(is_sqrt(0, 0));
    } else {
        lemma_sqrt_exists((x - 1) as nat);
        let below = isqrt(x - 1);
        if (below + 1) * (below + 1) <= x {
            assert((below + 2) * (below + 2) > x) by (nonlinear_arith)
                requires
                    0 <= below,
                    x - 1 < (below + 1) * (below + 1),
            ;
            assert(is_sqrt(x as int, below + 1));
        } else {
            assert(is_sqrt(x as int, below));
        }
    }
}

/// The square root grows with its argument.
pub proof fn lemma_sqrt_monotonic(small: int, large: int)
    requires
        0 <= small <= large,
    ensures
        isqrt(small) <= isqrt(large),
{
    lemma_sqrt_exists(small as nat);
    lemma_sqrt_exists(large as nat);
    let a = isqrt(small);
    let b = isqrt(large);
    if b < a {
        assert((b + 1) * (b + 1) <= a * a) by (nonlinear_arith)
            requires
                0 <= b,
                b + 1 <= a,
        ;
    }
}

/// Adds two bytes, stopping at 255.
pub fn qadd8(i: u8, j: u8) -> (sum: u8)
    ensures
        sum as int == if i + j > 255 { 255 } else { i + j },
{
    let t: u16 = i as u16 + j as u16;
    if t > 255 {
        255
    } else {
        t as u8
    }
}

/// Subtracts one byte from another, stopping at 0.
pub fn qsub8(i: u8, j: u8) -> (difference: u8)
    ensures
        difference as int == if i < j { 0 } else { i - j },
{
    if i < j {
        0
    } else {
        i - j
    }
}

/// The square root of a 16-bit number, rounded down, by bisection.
pub fn sqrt16(x: u16) -> (root: u16)
    ensures
        is_sqrt(x as int, root as int),
        root as int == isqrt(x as int),
        root <= 255,
{
    if x <= 1 {
        proof {
            assert(is_sqrt(x as int, x as int)) by (nonlinear_arith)
                requires
                    0 <= x <= 1,
            ;
            lemma_isqrt_is(x as int, x as int);
        }
        return x;
    }
    let mut low: u16 = 1;
    let mut hi: u16 = if x > 7904 { 255 } else { x / 32 + 8 };
    proof {
        let t = (x / 32) as int;
        assert((hi + 1) * (hi + 1) > x) by (nonlinear_arith)
            requires
                x > 7904 ==> hi == 255,
                x <= 7904 ==> hi == t + 8,
                0 <= t,
                32 * t <= x <= 32 * t + 31,
                x <= 65535,
        ;
    }
    while hi >= low
        invariant
            1 <= low <= 256,
            hi <= 255,
            (low - 1) * (low - 1) <= x,
            (hi + 1) * (hi + 1) > x,
            low <= hi + 1,
        decreases hi + 1 - low,
    {
        let mid: u16 = (low + hi) / 2;
        assert(0 <= mid * mid <= 255 * 255) by (nonlinear_arith)
            requires
                0 <= mid <= 255,
        ;
        if mid * mid > x {
            hi = mid - 1;
        } else {
            if mid == 255 {
                proof {
                    assert(is_sqrt(x as int, 255));
                    lemma_isqrt_is(x as int, 255);
                }
                return 255;
            }
            low = mid + 1;
        }
    }
    proof {
        assert(is_sqrt(x as int, low - 1));
        lemma_isqrt_is(x as int, low - 1);
    }
    low - 1
}

/// A colour by hue, saturation and value, one byte each.
#[derive(Clone, Copy, Debug, Default, PartialEq, Eq, Structural, Hash)]
pub struct Hsv {
    pub hue: u8,
    pub saturation: u8,
    pub value: u8,
}

/// Hue of red, at 0 degrees.
pub const HUE_RED: u8 = 0;

/// Hue of orange, at 45 degrees.
pub const HUE_ORANGE: u8 = 32;

/// Hue of yellow, at 90 degrees.
pub const HUE_YELLOW: u8 = 64;

/// Hue of green, at 135 degrees.
pub const HUE_GREEN: u8 = 96;

/// Hue of aqua, at 180 degrees.
pub const HUE_AQUA: u8 = 128;

/// Hue of blue, at 225 degrees.
pub const HUE_BLUE: u8 = 160;

/// Hue of purple, at 270 degrees.
pub const HUE_PURPLE: u8 = 192;

/// Hue of pink, at 315 degrees.
pub const HUE_PINK: u8 = 224;

/// Width of one of the three sections of the hue ramp.
pub const HSV_SECTION_3: u8 = 64;

/// The least of three bytes.
pub open spec fn least_of(r: u8, g: u8, b: u8) -> u8 {
    if r <= g && r <= b {
        r
    } else if g <= b {
        g
    } else {
        b
    }
}

/// The greatest of three bytes.
pub open spec fn greatest_of(r: u8, g: u8, b: u8) -> u8 {
    if r >= g && r >= b {
        r
    } else if g >= b {
        g
    } else {
        b
    }
}

/// `i - j`, stopping at 0.
pub open spec fn floored_sub(i: int, j: int) -> int {
    if i < j {
        0
    } else {
        i - j
    }
}

/// A channel multiplied by `65535 / divisor`, in 256ths, cut to its low
/// byte: how the conversion from red, green and blue makes up for
/// saturation and for darkness.
pub open spec fn stretched(channel: u8, divisor: int) -> u8 {
    ((channel * (65535int / divisor) / 256) % 256) as u8
}

/// The hue ramp where red is the highest channel: from purple and pink to
/// red where green is zero, from red to orange where red less green is
/// more than green, and else from orange to yellow.
pub open spec fn hue_ramp_red(r: u8, g: u8) -> int {
    if g == 0 {
        (HUE_PURPLE + HUE_PINK) / 2 + scaled(floored_sub(r as int, 128), 96)
    } else if r - g > g {
        HUE_RED + scaled(g as int, 96)
    } else {
        HUE_ORANGE + scaled(floored_sub((g + 86 - r) % 256, 4), 96)
    }
}

/// The hue ramp where green is the highest channel: from yellow to green
/// where blue is zero, from green to aqua where green less blue is more
/// than blue, and else from aqua on.
pub open spec fn hue_ramp_green(r: u8, g: u8, b: u8) -> int {
    if b == 0 {
        HUE_YELLOW + (scaled(floored_sub(171, r as int), 47) + scaled(
            floored_sub(g as int, 171),
            96,
        )) / 2
    } else if g - b > b {
        HUE_GREEN + scaled(b as int, 96)
    } else {
        HUE_AQUA + scaled(floored_sub(b as int, 85), 48)
    }
}

/// The hue ramp where blue is the highest channel: from aqua to blue where
/// red is zero, from blue to purple where blue less red is more than red,
/// and else from purple to pink.
pub open spec fn hue_ramp_blue(r: u8, b: u8) -> int {
    if r == 0 {
        HUE_AQUA + (HUE_BLUE - HUE_AQUA) / 4 + scaled(floored_sub(b as int, 128), 48)
    } else if b - r > r {
        HUE_BLUE + scaled(r as int, 96)
    } else {
        HUE_PURPLE + scaled(floored_sub(r as int, 85), 96)
    }
}

/// The hue that the conversion from red, green and blue reads off the
/// stretched channels, before its final step of one: the ramp of the
/// highest channel, red before green before blue.
pub open spec fn hue_ramp(r: u8, g: u8, b: u8) -> int {
    let highest = greatest_of(r, g, b);
    if highest == r {
        hue_ramp_red(r, g)
    } else if highest == g {
        hue_ramp_green(r, g, b)
    } else {
        hue_ramp_blue(r, b)
    }
}

/// The saturation that is left when `desat` is taken out of every channel:
/// full where nothing is taken out, and else 255 less the square root of
/// `desat` in 256ths, which undoes the dimming of saturation.
pub open spec fn saturation_left(desat: u8) -> int {
    if desat == 0 {
        255
    } else {
        255 - isqrt(desat * 256)
    }
}

/// The value of a colour from what was taken out of every channel and the
/// sum of what was left: their sum, stopping at 255, and below 255 its
/// square root in 256ths, which undoes the dimming of brightness.
pub open spec fn value_of_light(desat: u8, total: int) -> int {
    let lit = if desat + total > 255 {
        255
    } else {
        desat + total
    };
    if total > 255 || lit == 255 {
        255
    } else {
        isqrt(lit * 256)
    }
}

/// The conversion from red, green and blue for a colour that is no grey:
/// `r1`, `g1` and `b1` are the channels without their common part `desat`,
/// and `s0` is the saturation that is left.
pub open spec fn coloured_to_hsv(r1: u8, g1: u8, b1: u8, desat: u8, s0: int) -> Hsv {
    let s = if s0 == 0 {
        1
    } else {
        s0
    };
    let r2 = if s0 < 255 { stretched(r1, s) } else { r1 };
    let g2 = if s0 < 255 { stretched(g1, s) } else { g1 };
    let b2 = if s0 < 255 { stretched(b1, s) } else { b1 };
    let total0 = r2 + g2 + b2;
    let total = if total0 == 0 {
        1
    } else {
        total0
    };
    let r3 = if total0 < 255 { stretched(r2, total) } else { r2 };
    let g3 = if total0 < 255 { stretched(g2, total) } else { g2 };
    let b3 = if total0 < 255 { stretched(b2, total) } else { b2 };
    Hsv {
        hue: ((hue_ramp(r3, g3, b3) + 1) % 256) as u8,
        saturation: s as u8,
        value: value_of_light(desat, total) as u8,
    }
}

/// The colour by hue, saturation and value that stands for a colour by
/// red, green and blue. The conversion is a heuristic and loses
/// information: it takes the least channel out as missing saturation,
/// stretches what is left, and reads the hue off the ramps of `hue_ramp`.
/// A colour whose channels are all equal is a grey.
pub open spec fn rgb_to_hsv(rgb: Rgb) -> Hsv {
    let desat = least_of(rgb.r, rgb.g, rgb.b);
    let r1 = (rgb.r - desat) as u8;
    let g1 = (rgb.g - desat) as u8;
    let b1 = (rgb.b - desat) as u8;
    let s0 = saturation_left(desat);
    if r1 + g1 + b1 == 0 {
        Hsv { hue: 0, saturation: 0, value: (255 - s0) as u8 }
    } else {
        coloured_to_hsv(r1, g1, b1, desat, s0)
    }
}

/// The colour by red, green and blue of a colour by hue, saturation and
/// value: a ramp of three sections of 64 steps, in which one channel
/// rises, one falls and one rests on the floor that the saturation leaves.
pub open spec fn hsv_to_rgb(hsv: Hsv) -> Rgb {
    if hsv.saturation == 0 {
        Rgb { r: hsv.value, g: hsv.value, b: hsv.value }
    } else {
        let mock_hue = scaled(191, hsv.hue as int);
        let floor = hsv.value * (255 - hsv.saturation) / 256;
        let amplitude = hsv.value - floor;
        let section = mock_hue / 64;
        let offset = mock_hue % 64;
        let up_raw = offset * amplitude / 64 + floor;
        let down_raw = (63 - offset) * amplitude / 64 + floor;
        let up = (if up_raw > 255 { 255 } else { up_raw }) as u8;
        let down = (if down_raw > 255 { 255 } else { down_raw }) as u8;
        if section == 1 {
            Rgb { r: floor as u8, g: down, b: up }
        } else if section == 0 {
            Rgb { r: down, g: up, b: floor as u8 }
        } else {
            Rgb { r: up, g: floor as u8, b: down }
        }
    }
}

/// Converting from hue, saturation and value keeps a colour without
/// saturation grey, at its value.
pub proof fn lemma_hsv_to_rgb_grey(hsv: Hsv)
    requires
        hsv.saturation == 0,
    ensures
        hsv_to_rgb(hsv) == (Rgb { r: hsv.value, g: hsv.value, b: hsv.value }),
{
}

/// Converting from red, green and blue gives a grey no saturation and hue
/// zero.
pub proof fn lemma_rgb_to_hsv_grey(level: u8)
    ensures
        rgb_to_hsv(Rgb { r: level, g: level, b: level }).saturation == 0,
        rgb_to_hsv(Rgb { r: level, g: level, b: level }).hue == 0,
{
}

fn stretch(channel: u8, divisor: u16) -> (out: u8)
    requires
        1 <= divisor,
    ensures
        out == stretched(channel, divisor as int),
{
    let scaleup: u32 = 65535 / (divisor as u32);
    assert(0 <= channel * scaleup <= 255 * 65535) by (nonlinear_arith)
        requires
            0 <= channel <= 255,
            0 <= scaleup <= 65535,
    ;
    let wide: u32 = channel as u32 * scaleup / 256;
    (wide % 256) as u8
}

fn hue_red_highest(r: u8, g: u8) -> (hue: u16)
    requires
        g <= r,
    ensures
        hue as int == hue_ramp_red(r, g),
        hue <= 511,
{
    proof {
        lemma_scaled_bounds(floored_sub(r as int, 128), 96);
        lemma_scaled_bounds(g as int, 96);
        lemma_scaled_bounds(floored_sub((g + 86 - r) % 256, 4), 96);
    }
    if g == 0 {
        let base: u16 = (HUE_PURPLE as u16 + HUE_PINK as u16) / 2;
        base + qsub8(r, 128).scale8(Fract8(96)) as u16
    } else if r - g > g {
        HUE_RED as u16 + g.scale8(Fract8(96)) as u16
    } else {
        let turned: u8 = g.wrapping_sub(85).wrapping_add(171u8.wrapping_sub(r));
        assert(turned as int == (g + 86 - r) % 256);
        HUE_ORANGE as u16 + qsub8(turned, 4).scale8(Fract8(96)) as u16
    }
}

fn hue_green_highest(r: u8, g: u8, b: u8) -> (hue: u16)
    requires
        b <= g,
    ensures
        hue as int == hue_ramp_green(r, g, b),
        hue <= 511,
{
    proof {
        lemma_scaled_bounds(floored_sub(171, r as int), 47);
        lemma_scaled_bounds(floored_sub(g as int, 171), 96);
        lemma_scaled_bounds(b as int, 96);
        lemma_scaled_bounds(floored_sub(b as int, 85), 48);
    }
    if b == 0 {
        let radj: u8 = qsub8(171, r).scale8(Fract8(47));
        let gadj: u8 = qsub8(g, 171).scale8(Fract8(96));
        let rgadj: u16 = radj as u16 + gadj as u16;
        HUE_YELLOW as u16 + rgadj / 2
    } else if g - b > b {
        HUE_GREEN as u16 + b.scale8(Fract8(96)) as u16
    } else {
        HUE_AQUA as u16 + qsub8(b, 85).scale8(Fract8(48)) as u16
    }
}

fn hue_blue_highest(r: u8, b: u8) -> (hue: u16)
    requires
        r <= b,
    ensures
        hue as int == hue_ramp_blue(r, b),
        hue <= 511,
{
    proof {
        lemma_scaled_bounds(floored_sub(b as int, 128), 48);
        lemma_scaled_bounds(r as int, 96);
        lemma_scaled_bounds(floored_sub(r as int, 85), 96);
    }
    if r == 0 {
        let base: u8 = HUE_AQUA + (HUE_BLUE - HUE_AQUA) / 4;
        base as u16 + qsub8(b, 128).scale8(Fract8(48)) as u16
    } else if b - r > r {
        HUE_BLUE as u16 + r.scale8(Fract8(96)) as u16
    } else {
        HUE_PURPLE as u16 + qsub8(r, 85).scale8(Fract8(96)) as u16
    }
}

fn hue_of_channels(r: u8, g: u8, b: u8) -> (hue: u16)
    ensures
        hue as int == hue_ramp(r, g, b),
        hue <= 511,
{
    let mut highest: u8 = r;
    if g > highest {
        highest = g;
    }
    if b > highest {
        highest = b;
    }
    assert(highest == greatest_of(r, g, b));
    if highest == r {
        hue_red_highest(r, g)
    } else if highest == g {
        hue_green_highest(r, g, b)
    } else {
        hue_blue_highest(r, b)
    }
}

fn sums_to_nothing(r: u8, g: u8, b: u8) -> (nothing: bool)
    ensures
        nothing == (r + g + b == 0),
{
    r as u16 + g as u16 + b as u16 == 0
}

fn saturation_after(desat: u8) -> (s: u8)
    ensures
        s as int == saturation_left(desat),
{
    let mut s: u8 = 255 - desat;
    if s != 255 {
        s = 255 - sqrt16((255 - s) as u16 * 256) as u8;
    }
    s
}

fn value_after(desat: u8, total: u16) -> (v: u8)
    requires
        1 <= total <= 765,
    ensures
        v as int == value_of_light(desat, total as int),
{
    if total > 255 {
        255
    } else {
        let lit: u8 = qadd8(desat, total as u8);
        if lit != 255 {
            sqrt16(lit as u16 * 256) as u8
        } else {
            lit
        }
    }
}

fn convert_coloured(r1: u8, g1: u8, b1: u8, desat: u8, s0: u8) -> (hsv: Hsv)
    ensures
        hsv == coloured_to_hsv(r1, g1, b1, desat, s0 as int),
{
    let mut r: u8 = r1;
    let mut g: u8 = g1;
    let mut b: u8 = b1;
    let mut s: u8 = s0;
    if s < 255 {
        if s == 0 {
            s = 1;
        }
        r = stretch(r, s as u16);
        g = stretch(g, s as u16);
        b = stretch(b, s as u16);
    }
    let mut total: u16 = r as u16 + g as u16 + b as u16;
    if total < 255 {
        if total == 0 {
            total = 1;
        }
        r = stretch(r, total);
        g = stretch(g, total);
        b = stretch(b, total);
    }
    let v: u8 = value_after(desat, total);
    let h: u16 = hue_of_channels(r, g, b);
    Hsv::new(((h + 1) % 256) as u8, s, v)
}

impl Hsv {
    /// The colour with the given hue, saturation and value.
    pub fn new(hue: u8, saturation: u8, value: u8) -> (hsv: Hsv)
        ensures
            hsv == (Hsv { hue, saturation, value }),
    {
        Hsv { hue, saturation, value }
    }

    /// Converts from red, green and blue. The conversion loses information:
    /// converting back need not give the same colour.
    pub fn from_rgb(rgb: Rgb) -> (hsv: Hsv)
        ensures
            hsv == rgb_to_hsv(rgb),
    {
        let mut desat: u8 = 255;
        if rgb.r < desat {
            desat = rgb.r;
        }
        if rgb.g < desat {
            desat = rgb.g;
        }
        if rgb.b < desat {
            desat = rgb.b;
        }
        assert(desat == least_of(rgb.r, rgb.g, rgb.b));
        let r: u8 = rgb.r - desat;
        let g: u8 = rgb.g - desat;
        let b: u8 = rgb.b - desat;
        let s: u8 = saturation_after(desat);
        if sums_to_nothing(r, g, b) {
            Hsv::new(0, 0, 255 - s)
        } else {
            convert_coloured(r, g, b, desat, s)
        }
    }

    /// Converts from a colour with alpha, which is dropped.
    pub fn from_rgba(rgba: Rgba) -> (hsv: Hsv)
        ensures
            hsv == rgb_to_hsv(Rgb { r: rgba.r, g: rgba.g, b: rgba.b }),
    {
        Hsv::from_rgb(Rgb::new(rgba.r, rgba.g, rgba.b))
    }

    /// Converts to red, green and blue.
    pub fn into_rgb8(self) -> (rgb: Rgb)
        ensures
            rgb == hsv_to_rgb(self),
    {
        if self.saturation == 0 {
            return Rgb::new(self.value, self.value, self.value);
        }
        let mock_hue: u8 = 191u8.scale8(Fract8(self.hue));
        let value: u8 = self.value;
        let invsat: u8 = 255 - self.saturation;
        assert(0 <= value * invsat <= 255 * 255) by (nonlinear_arith)
            requires
                0 <= value <= 255,
                0 <= invsat <= 255,
        ;
        assert(value * invsat <= value * 255) by (nonlinear_arith)
            requires
                0 <= value,
                0 <= invsat <= 255,
        ;
        let brightness_floor: u8 = (value as u16 * invsat as u16 / 256) as u8;
        let color_amplitude: u8 = value - brightness_floor;
        let section: u8 = mock_hue / HSV_SECTION_3;
        let offset: u8 = mock_hue % HSV_SECTION_3;
        let rampup: u8 = offset;
        let rampdown: u8 = (HSV_SECTION_3 - 1) - offset;
        assert(0 <= rampup * color_amplitude <= 63 * 255) by (nonlinear_arith)
            requires
                0 <= rampup <= 63,
                0 <= color_amplitude <= 255,
        ;
        assert(0 <= rampdown * color_amplitude <= 63 * 255) by (nonlinear_arith)
            requires
                0 <= rampdown <= 63,
                0 <= color_amplitude <= 255,
        ;
        let rampup_amp_adj: u8 = (rampup as u16 * color_amplitude as u16 / 64) as u8;
        let rampdown_amp_adj: u8 = (rampdown as u16 * color_amplitude as u16 / 64) as u8;
        let rampup_adj_with_floor: u8 = qadd8(rampup_amp_adj, brightness_floor);
        let rampdown_adj_with_floor: u8 = qadd8(rampdown_amp_adj, brightness_floor);
        if section == 1 {
            Rgb::new(brightness_floor, rampdown_adj_with_floor, rampup_adj_with_floor)
        } else if section == 0 {
            Rgb::new(rampdown_adj_with_floor, rampup_adj_with_floor, brightness_floor)
        } else {
            Rgb::new(rampup_adj_with_floor, brightness_floor, rampdown_adj_with_floor)
        }
    }

    /// Converts to red, green, blue and full alpha.
    pub fn into_rgba8(self) -> (rgba: Rgba)
        ensures
            rgba == (Rgba {
                r: hsv_to_rgb(self).r,
                g: hsv_to_rgb(self).g,
                b: hsv_to_rgb(self).b,
                a: 255,
            }),
    {
        let rgb = self.into_rgb8();
        Rgba::new(rgb.r, rgb.g, rgb.b, 255)
    }
}


impl From<Rgb> for Hsv {
    /// Converts from red, green and blue, as `Hsv::from_rgb` does.
    fn from(rgb: Rgb) -> (hsv: Hsv) {
        Hsv::from_rgb(rgb)
    }
}

impl vstd::std_specs::convert::FromSpecImpl<Rgb> for Hsv {
    open spec fn obeys_from_spec() -> bool {
        true
    }

    open spec fn from_spec(rgb: Rgb) -> Hsv {
        rgb_to_hsv(rgb)
    }
}

impl From<Rgba> for Hsv {
    /// Converts from a colour with alpha, which is dropped.
    fn from(value: Rgba) -> (hsv: Hsv) {
        Hsv::from_rgba(value)
    }
}

impl vstd::std_specs::convert::FromSpecImpl<Rgba> for Hsv {
    open spec fn obeys_from_spec() -> bool {
        true
    }

    open spec fn from_spec(value: Rgba) -> Hsv {
        rgb_to_hsv(Rgb { r: value.r, g: value.g, b: value.b })
    }
}

impl From<Hsv> for Rgb {
    /// Converts to red, green and blue, as `Hsv::into_rgb8` does.
    fn from(hsv: Hsv) -> (rgb: Rgb) {
        hsv.into_rgb8()
    }
}

impl vstd::std_specs::convert::FromSpecImpl<Hsv> for Rgb {
    open spec fn obeys_from_spec() -> bool {
        true
    }

    open spec fn from_spec(hsv: Hsv) -> Rgb {
        hsv_to_rgb(hsv)
    }
}

impl From<Hsv> for Rgba {
    /// Converts to red, green, blue and full alpha.
    fn from(hsv: Hsv) -> (rgba: Rgba) {
        hsv.into_rgba8()
    }
}

impl vstd::std_specs::convert::FromSpecImpl<Hsv> for Rgba {
    open spec fn obeys_from_spec() -> bool {
        true
    }

    open spec fn from_spec(hsv: Hsv) -> Rgba {
        Rgba { r: hsv_to_rgb(hsv).r, g: hsv_to_rgb(hsv).g, b: hsv_to_rgb(hsv).b, a: 255 }
    }
}

/// Colours that can be turned into red, green and blue.
pub trait IntoRgb8: Sized {
    /// The colour as red, green and blue.
    spec fn rgb8(self) -> Rgb;

    /// Turns the colour into red, green and blue.
    fn into_rgb8(self) -> (rgb: Rgb)
        ensures
            rgb == self.rgb8(),
    ;
}

impl IntoRgb8 for Rgb {
    open spec fn rgb8(self) -> Rgb {
        self
    }

    fn into_rgb8(self) -> (rgb: Rgb) {
        self
    }
}

impl IntoRgb8 for Hsv {
    open spec fn rgb8(self) -> Rgb {
        hsv_to_rgb(self)
    }

    fn into_rgb8(self) -> (rgb: Rgb) {
        Hsv::into_rgb8(self)
    }
}

} // verus!
