//! Sine and cosine of an angle in one byte, by table: 256 steps are one
//! full turn.
use crate::liber8tion::interpolate::Fract8;
use crate::liber8tion::sin_table::SIN_TABLE;
use vstd::prelude::*;

verus! {

/// The height of the sine curve above or below its middle at `offset`
/// steps into a quarter turn, where it rises: four straight pieces of 16
/// steps each, `slope` sixteenths up per step from `base`.
pub open spec fn quarter_rise(offset: int, steps: int) -> int {
    let section = offset / 16;
    let base: int = if section == 0 {
        0
    } else if section == 1 {
        49
    } else if section == 2 {
        90
    } else {
        117
    };
    let slope: int = if section == 0 {
        49
    } else if section == 1 {
        41
    } else if section == 2 {
        27
    } else {
        10
    };
    base + slope * steps / 16
}

/// The sine of an angle of `theta` 256ths of a turn, as a byte around 128:
/// the first quarter turn rises along `quarter_rise`, the second mirrors
/// the first, and the second half turn mirrors the first half downwards.
#[verifier::opaque]
pub open spec fn sin8_curve(theta: int) -> int {
    let falling = (theta / 64) % 2 == 1;
    let offset = if falling {
        63 - theta % 64
    } else {
        theta % 64
    };
    let steps = offset % 16 + if falling {
        1int
    } else {
        0int
    };
    let height = quarter_rise(offset, steps);
    if theta >= 128 {
        128 - height
    } else {
        128 + height
    }
}

/// The cosine is the sine a quarter turn on.
pub open spec fn cos8_curve(theta: int) -> int {
    sin8_curve((theta + 64) % 256)
}

/// Values that are angles, of which sine and cosine can be taken.
pub trait Trig8: Sized {
    /// The angle as 256ths of a turn.
    spec fn angle(self) -> int;

    /// The sine of the angle, as a byte around 128.
    fn sin8(self) -> (sine: u8)
        ensures
            sine as int == sin8_curve(self.angle()),
    ;

    /// The cosine of the angle, as a byte around 128.
    fn cos8(self) -> (cosine: u8)
        ensures
            cosine as int == cos8_curve(self.angle()),
    ;
}

proof fn lemma_table_row(theta: u8, row: int)
    requires
        0 <= row < 16,
        16 * row <= theta < 16 * row + 16,
    ensures
        SIN_TABLE[theta as int] as int == sin8_curve(theta as int),
        1 <= sin8_curve(theta as int) <= 255,
{
    reveal(sin8_curve);
}

/// The table holds the sine curve.
pub proof fn lemma_table_is_curve(theta: u8)
    ensures
        SIN_TABLE[theta as int] as int == sin8_curve(theta as int),
        1 <= sin8_curve(theta as int) <= 255,
{
    lemma_table_row(theta, theta as int / 16);
}

impl Trig8 for u8 {
    open spec fn angle(self) -> int {
        self as int
    }

    fn sin8(self) -> (sine: u8) {
        proof {
            lemma_table_is_curve(self);
        }
        SIN_TABLE[self as usize]
    }

    fn cos8(self) -> (cosine: u8) {
        let shifted: u8 = self.wrapping_add(64);
        shifted.sin8()
    }
}


impl Trig8 for usize {
    /// The number modulo 255.
    open spec fn angle(self) -> int {
        self as int % 255
    }

    fn sin8(self) -> (sine: u8) {
        ((self % 255) as u8).sin8()
    }

    fn cos8(self) -> (cosine: u8) {
        ((self % 255) as u8).cos8()
    }
}

/// The remainder of a signed number by 255, which has the sign of the
/// number, as a byte: a negative remainder counts down from 256.
pub open spec fn signed_angle(theta: int) -> int {
    if theta >= 0 {
        theta % 255
    } else {
        (256 - (-theta) % 255) % 256
    }
}

fn angle_of_signed(theta: i32) -> (angle: u8)
    ensures
        angle as int == signed_angle(theta as int),
{
    if theta >= 0 {
        (theta % 255) as u8
    } else {
        let back: i64 = (-(theta as i64)) % 255;
        if back == 0 {
            0
        } else {
            (256 - back) as u8
        }
    }
}

impl Trig8 for i32 {
    open spec fn angle(self) -> int {
        signed_angle(self as int)
    }

    fn sin8(self) -> (sine: u8) {
        angle_of_signed(self).sin8()
    }

    fn cos8(self) -> (cosine: u8) {
        angle_of_signed(self).cos8()
    }
}

impl Trig8 for Fract8 {
    open spec fn angle(self) -> int {
        self.0 as int
    }

    fn sin8(self) -> (sine: u8) {
        self.0.sin8()
    }

    fn cos8(self) -> (cosine: u8) {
        self.0.cos8()
    }
}

/// The sine of an angle, as a byte around 128.
pub fn sin8<T: Trig8>(theta: T) -> (sine: u8)
    ensures
        sine as int == sin8_curve(theta.angle()),
{
    theta.sin8()
}

/// The cosine of an angle, as a byte around 128.
pub fn cos8<T: Trig8>(theta: T) -> (cosine: u8)
    ensures
        cosine as int == cos8_curve(theta.angle()),
{
    theta.cos8()
}

/// The sine is in the middle at no turn and at half a turn, at its top
/// after a quarter turn and at its bottom after three quarters.
pub proof fn lemma_sine_landmarks()
    ensures
        sin8_curve(0) == 128,
        sin8_curve(64) == 255,
        sin8_curve(128) == 128,
        sin8_curve(192) == 1,
        cos8_curve(0) == 255,
{
    reveal(sin8_curve);
}

} // verus!
