//! Fractions of one byte, and scaling, blending and interpolation by them.
use vstd::prelude::*;

verus! {

/// A fraction in one byte: 0 is 0% and 255 is 100%.
#[derive(Clone, Copy, Debug, Default, PartialEq, Eq, Structural, PartialOrd, Ord, Hash)]
pub struct Fract8(pub u8);

/// `value * fraction / 255`, rounded down.
pub open spec fn scaled(value: int, fraction: int) -> int {
    value * fraction / 255
}

/// The value that lies `fraction` of the way from `a` to `b`, as the blend
/// operator computes it: `a` and `b` weighted by `256 - fraction` and
/// `fraction + 1`, over 256.
pub open spec fn blended(a: int, b: int, fraction: int) -> int {
    (a * (256 - fraction) + b * (fraction + 1)) / 256
}

/// Interpolation from `a` towards `b`: the distance between them is scaled
/// by `fraction` and applied to `a`.
pub open spec fn lerped(a: int, b: int, fraction: int) -> int {
    if b > a {
        a + scaled(b - a, fraction)
    } else {
        a - scaled(a - b, fraction)
    }
}

/// A scaled value is never larger than the value, is the value itself at
/// 255, and is zero at 0.
pub proof fn lemma_scaled_bounds(value: int, fraction: int)
    requires
        0 <= value,
        0 <= fraction <= 255,
    ensures
        0 <= scaled(value, fraction) <= value,
        scaled(value, 255) == value,
        scaled(value, 0) == 0,
{
    assert(0 <= value * fraction <= value * 255) by (nonlinear_arith)
        requires
            0 <= value,
            0 <= fraction <= 255,
    ;
}

/// Scaling grows with the value scaled.
pub proof fn lemma_scaled_monotonic(small: int, large: int, fraction: int)
    requires
        0 <= small <= large,
        0 <= fraction <= 255,
    ensures
        scaled(small, fraction) <= scaled(large, fraction),
{
    assert(small * fraction <= large * fraction) by (nonlinear_arith)
        requires
            0 <= small <= large,
            0 <= fraction,
    ;
}

/// A blend of two bytes lies between them, and is exactly the first at
/// fraction 0 and exactly the second at fraction 255.
pub proof fn lemma_blended_bounds(a: int, b: int, fraction: int)
    requires
        0 <= a <= 255,
        0 <= b <= 255,
        0 <= fraction <= 255,
    ensures
        blended(a, b, 0) == a,
        blended(a, b, 255) == b,
        a <= b ==> a <= blended(a, b, fraction) <= b,
        b <= a ==> b <= blended(a, b, fraction) <= a,
{
    assert(a * (256 - 255) + b * (255 + 1) == a + 256 * b) by (nonlinear_arith);
    assert(a * (256 - 0) + b * (0 + 1) == 256 * a + b) by (nonlinear_arith);
    let low = if a <= b { a } else { b };
    let high = if a <= b { b } else { a };
    let total = a * (256 - fraction) + b * (fraction + 1);
    assert(low * 257 <= total <= high * 257) by (nonlinear_arith)
        requires
            low <= a <= high,
            low <= b <= high,
            0 <= fraction <= 255,
            total == a * (256 - fraction) + b * (fraction + 1),
    ;
}

impl Fract8 {
    /// The largest fraction, 100%.
    pub fn max_value() -> (fraction: Fract8)
        ensures
            fraction.0 == 255,
    {
        Fract8(255)
    }

    /// The smallest fraction, 0%.
    pub fn min_value() -> (fraction: Fract8)
        ensures
            fraction.0 == 0,
    {
        Fract8(0)
    }

    /// The byte behind the fraction.
    pub fn to_raw(self) -> (bits: u8)
        ensures
            bits == self.0,
    {
        self.0
    }

    /// The fraction that a byte stands for.
    pub fn from_raw(bits: u8) -> (fraction: Fract8)
        ensures
            fraction.0 == bits,
    {
        Fract8(bits)
    }

    /// The fraction `a / b` in 256ths, rounded down and cut to its low byte.
    pub fn from_ratio(a: u8, b: u8) -> (fraction: Fract8)
        requires
            b != 0,
        ensures
            fraction.0 as int == (a * 256 / (b as int)) % 256,
    {
        let wide: u16 = (a as u16 * 256) / (b as u16);
        Fract8((wide % 256) as u8)
    }

    /// The distance between two fractions.
    pub fn abs_diff(self, other: Self) -> (distance: Fract8)
        ensures
            distance.0 as int == if self.0 >= other.0 {
                self.0 - other.0
            } else {
                other.0 - self.0
            },
    {
        if self.0 >= other.0 {
            Fract8(self.0 - other.0)
        } else {
            Fract8(other.0 - self.0)
        }
    }

    /// Sum of two fractions, modulo 256.
    pub fn wrapping_add(&self, v: &Self) -> (sum: Fract8)
        ensures
            sum.0 as int == (self.0 + v.0) % 256,
    {
        Fract8(self.0.wrapping_add(v.0))
    }

    /// Product of the two bytes, modulo 256.
    pub fn wrapping_mul(&self, v: &Self) -> (product: Fract8)
        ensures
            product.0 as int == (self.0 * v.0) % 256,
    {
        assert(0 <= self.0 * v.0 <= 255 * 255) by (nonlinear_arith)
            requires
                0 <= self.0 <= 255,
                0 <= v.0 <= 255,
        ;
        let wide: u16 = self.0 as u16 * v.0 as u16;
        Fract8((wide % 256) as u8)
    }
}

/// Values that a fraction can scale, blend, add and interpolate.
pub trait Fract8Ops: Sized {
    /// What `scale8` returns.
    spec fn scale8_spec(self, scale: Fract8) -> Self;

    /// What `blend8` returns.
    spec fn blend8_spec(self, other: Self, scale: Fract8) -> Self;

    /// What `saturating_add` returns.
    spec fn saturating_add_spec(self, other: Self) -> Self;

    /// What `lerp8by8` returns.
    spec fn lerp8by8_spec(self, other: Self, scale: Fract8) -> Self;

    /// The value scaled down to the given fraction of itself.
    fn scale8(self, scale: Fract8) -> (out: Self)
        ensures
            out == self.scale8_spec(scale),
    ;

    /// The value that lies the given fraction of the way towards `other`.
    fn blend8(self, other: Self, scale: Fract8) -> (out: Self)
        ensures
            out == self.blend8_spec(other, scale),
    ;

    /// The sum, held at the largest value.
    fn saturating_add(self, other: Self) -> (out: Self)
        ensures
            out == self.saturating_add_spec(other),
    ;

    /// Interpolation towards `other` by scaling the distance.
    fn lerp8by8(self, other: Self, scale: Fract8) -> (out: Self)
        ensures
            out == self.lerp8by8_spec(other, scale),
    ;
}

impl Fract8Ops for u8 {
    open spec fn scale8_spec(self, scale: Fract8) -> Self {
        scaled(self as int, scale.0 as int) as u8
    }

    open spec fn blend8_spec(self, other: Self, scale: Fract8) -> Self {
        blended(self as int, other as int, scale.0 as int) as u8
    }

    open spec fn saturating_add_spec(self, other: Self) -> Self {
        if self + other > 255 {
            255u8
        } else {
            (self + other) as u8
        }
    }

    open spec fn lerp8by8_spec(self, other: Self, scale: Fract8) -> Self {
        lerped(self as int, other as int, scale.0 as int) as u8
    }

    fn scale8(self, scale: Fract8) -> (out: Self) {
        proof {
            lemma_scaled_bounds(self as int, scale.0 as int);
        }
        let wide: u16 = self as u16 * scale.0 as u16;
        (wide / 255) as u8
    }

    fn blend8(self, other: Self, scale: Fract8) -> (out: Self) {
        proof {
            lemma_blended_bounds(self as int, other as int, scale.0 as int);
        }
        if scale.0 == 0 {
            self
        } else if scale.0 == 255 {
            other
        } else {
            let keep: u32 = self as u32 * (256 - scale.0 as u32);
            let take: u32 = other as u32 * (scale.0 as u32 + 1);
            ((keep + take) / 256) as u8
        }
    }

    fn saturating_add(self, other: Self) -> (out: Self) {
        let wide: u16 = self as u16 + other as u16;
        if wide > 255 {
            255
        } else {
            wide as u8
        }
    }

    fn lerp8by8(self, other: Self, scale: Fract8) -> (out: Self) {
        if other > self {
            let delta: u8 = other - self;
            proof {
                lemma_scaled_bounds(delta as int, scale.0 as int);
            }
            self + delta.scale8(scale)
        } else {
            let delta: u8 = self - other;
            proof {
                lemma_scaled_bounds(delta as int, scale.0 as int);
            }
            self - delta.scale8(scale)
        }
    }
}


impl Fract8Ops for usize {
    /// The low byte scaled.
    open spec fn scale8_spec(self, scale: Fract8) -> Self {
        scaled((self % 256) as int, scale.0 as int) as usize
    }

    /// The low bytes blended.
    open spec fn blend8_spec(self, other: Self, scale: Fract8) -> Self {
        blended((self % 256) as int, (other % 256) as int, scale.0 as int) as usize
    }

    open spec fn saturating_add_spec(self, other: Self) -> Self {
        if self + other > usize::MAX {
            usize::MAX
        } else {
            (self + other) as usize
        }
    }

    /// The distance between the two, of which the low byte is scaled,
    /// applied to the first.
    open spec fn lerp8by8_spec(self, other: Self, scale: Fract8) -> Self {
        if other > self {
            (self + scaled(((other - self) % 256) as int, scale.0 as int)) as usize
        } else {
            (self - scaled(((self - other) % 256) as int, scale.0 as int)) as usize
        }
    }

    fn scale8(self, scale: Fract8) -> (out: Self) {
        proof {
            lemma_scaled_bounds((self % 256) as int, scale.0 as int);
        }
        ((self % 256) as u8).scale8(scale) as usize
    }

    fn blend8(self, other: Self, scale: Fract8) -> (out: Self) {
        proof {
            lemma_blended_bounds((self % 256) as int, (other % 256) as int, scale.0 as int);
        }
        ((self % 256) as u8).blend8((other % 256) as u8, scale) as usize
    }

    fn saturating_add(self, other: Self) -> (out: Self) {
        if self > usize::MAX - other {
            usize::MAX
        } else {
            self + other
        }
    }

    fn lerp8by8(self, other: Self, scale: Fract8) -> (out: Self) {
        if other > self {
            let delta: usize = other - self;
            proof {
                lemma_scaled_bounds((delta % 256) as int, scale.0 as int);
            }
            self + ((delta % 256) as u8).scale8(scale) as usize
        } else {
            let delta: usize = self - other;
            proof {
                lemma_scaled_bounds((delta % 256) as int, scale.0 as int);
            }
            self - ((delta % 256) as u8).scale8(scale) as usize
        }
    }
}

impl Fract8Ops for bool {
    /// Kept from one half on, and else off.
    open spec fn scale8_spec(self, scale: Fract8) -> Self {
        self && scale.0 >= 128
    }

    /// From one half on both must be on, below it the first decides.
    open spec fn blend8_spec(self, other: Self, scale: Fract8) -> Self {
        if scale.0 >= 128 {
            self && other
        } else {
            self
        }
    }

    open spec fn saturating_add_spec(self, other: Self) -> Self {
        self || other
    }

    /// The second from one half on, and else the first.
    open spec fn lerp8by8_spec(self, other: Self, scale: Fract8) -> Self {
        if scale.0 >= 128 {
            other
        } else {
            self
        }
    }

    fn scale8(self, scale: Fract8) -> (out: Self) {
        self && scale.0 >= 128
    }

    fn blend8(self, other: Self, scale: Fract8) -> (out: Self) {
        if scale.0 >= 128 {
            self && other
        } else {
            self
        }
    }

    fn saturating_add(self, other: Self) -> (out: Self) {
        self || other
    }

    fn lerp8by8(self, other: Self, scale: Fract8) -> (out: Self) {
        if scale.0 >= 128 {
            other
        } else {
            self
        }
    }
}

/// The value scaled down to the given fraction of itself.
pub fn scale8<T: Fract8Ops>(i: T, scale: Fract8) -> (out: T)
    ensures
        out == i.scale8_spec(scale),
{
    i.scale8(scale)
}

/// Interpolation from `a` towards `b` by scaling the distance.
pub fn lerp8by8<T: Fract8Ops>(a: T, b: T, frac: Fract8) -> (out: T)
    ensures
        out == a.lerp8by8_spec(b, frac),
{
    a.lerp8by8(b, frac)
}

/// Half of `i` plus half of `j`, each rounded down, plus the lowest bit of
/// `i`: an average of two signed bytes that cannot overflow.
pub open spec fn avg7_spec(i: int, j: int) -> int {
    i / 2 + j / 2 + i % 2
}

/// The average of two signed bytes, rounded as `avg7_spec` says.
pub fn avg7(i: i8, j: i8) -> (average: i8)
    ensures
        average as int == avg7_spec(i as int, j as int),
{
    let half_i: i16 = floor_half(i);
    let half_j: i16 = floor_half(j);
    let low_bit: i16 = i as i16 - 2 * half_i;
    (half_i + half_j + low_bit) as i8
}

fn floor_half(i: i8) -> (half: i16)
    ensures
        half as int == i as int / 2,
        -64 <= half <= 63,
{
    if i >= 0 {
        (i / 2) as i16
    } else {
        (i as i16 - 1) / 2
    }
}

/// Bit `bit` of `hash` is set.
pub open spec fn bit_is_set(hash: u8, bit: nat) -> bool {
    (hash as int / vstd::arithmetic::power2::pow2(bit) as int) % 2 == 1
}

/// `-v` in a signed byte, in which -128 is its own negative.
pub open spec fn wrapping_negated(v: int) -> int {
    if v == -128 {
        -128
    } else {
        -v
    }
}

/// The gradient of a noise cell: bit 2 of `hash` swaps the two
/// coordinates, bit 0 negates the first and bit 1 the second of what that
/// leaves, and the result is their average.
pub open spec fn grad8_spec(hash: u8, x: int, y: int) -> int {
    let u = if bit_is_set(hash, 2) { y } else { x };
    let v = if bit_is_set(hash, 2) { x } else { y };
    let u = if bit_is_set(hash, 0) { wrapping_negated(u) } else { u };
    let v = if bit_is_set(hash, 1) { wrapping_negated(v) } else { v };
    avg7_spec(u, v)
}

/// The gradient of a noise cell along one of eight directions.
pub fn grad8(hash: u8, x: i8, y: i8) -> (gradient: i8)
    ensures
        gradient as int == grad8_spec(hash, x as int, y as int),
{
    proof {
        vstd::arithmetic::power2::lemma2_to64();
    }
    let swap: bool = (hash / 4) % 2 == 1;
    let negate_first: bool = hash % 2 == 1;
    let negate_second: bool = (hash / 2) % 2 == 1;
    let mut u: i8 = if swap { y } else { x };
    let mut v: i8 = if swap { x } else { y };
    if negate_first {
        u = negated(u);
    }
    if negate_second {
        v = negated(v);
    }
    avg7(u, v)
}

fn negated(v: i8) -> (out: i8)
    ensures
        out as int == wrapping_negated(v as int),
{
    if v == -128 {
        -128
    } else {
        -v
    }
}

/// Interpolation between two signed bytes.
pub fn lerp7by8(a: i8, b: i8, frac: Fract8) -> (out: i8)
    ensures
        out as int == lerped(a as int, b as int, frac.0 as int),
{
    if b > a {
        let delta: u8 = (b as i16 - a as i16) as u8;
        proof {
            lemma_scaled_bounds(delta as int, frac.0 as int);
        }
        let scaled_delta: u8 = delta.scale8(frac);
        (a as i16 + scaled_delta as i16) as i8
    } else {
        let delta: u8 = (a as i16 - b as i16) as u8;
        proof {
            lemma_scaled_bounds(delta as int, frac.0 as int);
        }
        let scaled_delta: u8 = delta.scale8(frac);
        (a as i16 - scaled_delta as i16) as i8
    }
}

/// Maps a fraction of the whole range into the range between two
/// fractions.
pub fn map8(x: Fract8, range_start: Fract8, range_end: Fract8) -> (out: Fract8)
    requires
        range_start.0 <= range_end.0,
    ensures
        out.0 as int == range_start.0 + scaled(x.0 as int, range_end.0 - range_start.0),
        range_start.0 <= out.0 <= range_end.0,
{
    let range_width: u8 = range_end.0 - range_start.0;
    proof {
        lemma_scaled_bounds(x.0 as int, range_width as int);
        lemma_scaled_at_most_fraction(x.0 as int, range_width as int);
    }
    let out: u8 = x.0.scale8(Fract8(range_width)) + range_start.0;
    Fract8(out)
}

/// A scaled byte is never larger than the fraction it is scaled by.
pub proof fn lemma_scaled_at_most_fraction(value: int, fraction: int)
    requires
        0 <= value <= 255,
        0 <= fraction,
    ensures
        scaled(value, fraction) <= fraction,
{
    assert(value * fraction <= 255 * fraction) by (nonlinear_arith)
        requires
            0 <= value <= 255,
            0 <= fraction,
    ;
}

/// Quadratic easing in and out: the lower half of the range follows twice
/// the square, the upper half mirrors it.
pub open spec fn eased(i: int) -> int {
    if i < 128 {
        2 * scaled(i, i)
    } else {
        255 - 2 * scaled(255 - i, 255 - i)
    }
}

/// Quadratic easing in and out.
pub fn ease_in_out_quad(i: Fract8) -> (out: Fract8)
    ensures
        out.0 as int == eased(i.0 as int),
{
    let upper: bool = i.0 >= 128;
    let j: u8 = if upper { 255 - i.0 } else { i.0 };
    proof {
        lemma_scaled_monotonic(j as int, 127, j as int);
        lemma_scaled_at_most_fraction(127, j as int);
        assert(scaled(127, j as int) <= 63) by {
            assert(127 * j <= 127 * 127) by (nonlinear_arith)
                requires
                    0 <= j <= 127,
            ;
        }
    }
    let jj: u8 = j.scale8(Fract8(j));
    let jj2: u8 = jj * 2;
    if upper {
        Fract8(255 - jj2)
    } else {
        Fract8(jj2)
    }
}

} // verus!
