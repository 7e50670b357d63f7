//! Power budgeting: an estimate of what a frame draws, and the brightness
//! that keeps the draw under a ceiling.
use crate::pixels::Bgr;
use crate::pixels::Grb;
use crate::pixels::Rgb;
use vstd::prelude::*;

verus! {

/// Milliwatts of a red channel at full level: 16 mA at 5 V.
pub const RED_MW: u32 = 80;

/// Milliwatts of a green channel at full level: 11 mA at 5 V.
pub const GREEN_MW: u32 = 55;

/// Milliwatts of a blue channel at full level: 15 mA at 5 V.
pub const BLUE_MW: u32 = 75;

/// Milliwatts of a pixel that shows nothing: 1 mA at 5 V.
pub const DARK_MW: u32 = 5;

/// The milliwatts that a pixel of the given levels draws: each channel its
/// share of the draw at full level, in 256ths and rounded down, and the
/// draw of a dark pixel on top.
pub open spec fn channels_milliwatts(r: u8, g: u8, b: u8) -> nat {
    (r * RED_MW / 256 + g * GREEN_MW / 256 + b * BLUE_MW / 256 + DARK_MW) as nat
}

/// The milliwatts that the first `count` pixels of a frame draw.
pub open spec fn frame_milliwatts<T: AsMilliwatts>(pixels: Seq<T>, count: nat) -> nat
    decreases count,
{
    if count == 0 {
        0
    } else {
        frame_milliwatts(pixels, (count - 1) as nat) + pixels[count - 1].milliwatts()
    }
}

/// `draw`, held at the largest number that 32 bits hold.
pub open spec fn held_u32(draw: nat) -> u32 {
    if draw > u32::MAX {
        u32::MAX
    } else {
        draw as u32
    }
}

/// Pixels, and frames of pixels, whose draw can be estimated.
pub trait AsMilliwatts {
    /// The estimated draw in milliwatts.
    spec fn milliwatts(&self) -> nat;

    /// The estimated draw in milliwatts, held at the largest number that
    /// 32 bits hold.
    fn as_milliwatts(&self) -> (mw: u32)
        ensures
            mw == held_u32(self.milliwatts()),
    ;
}

impl AsMilliwatts for Rgb {
    open spec fn milliwatts(&self) -> nat {
        channels_milliwatts(self.r, self.g, self.b)
    }

    fn as_milliwatts(&self) -> (mw: u32) {
        let red: u32 = self.r as u32 * RED_MW / 256;
        let green: u32 = self.g as u32 * GREEN_MW / 256;
        let blue: u32 = self.b as u32 * BLUE_MW / 256;
        red + green + blue + DARK_MW
    }
}

impl AsMilliwatts for Grb {
    open spec fn milliwatts(&self) -> nat {
        channels_milliwatts(self.r, self.g, self.b)
    }

    fn as_milliwatts(&self) -> (mw: u32) {
        Rgb { r: self.r, g: self.g, b: self.b }.as_milliwatts()
    }
}

impl AsMilliwatts for Bgr {
    open spec fn milliwatts(&self) -> nat {
        channels_milliwatts(self.r, self.g, self.b)
    }

    fn as_milliwatts(&self) -> (mw: u32) {
        Rgb { r: self.r, g: self.g, b: self.b }.as_milliwatts()
    }
}

/// The estimated draw of a frame in milliwatts, held at the largest
/// number that 32 bits hold.
pub fn frame_as_milliwatts<T: AsMilliwatts>(frame: &[T]) -> (mw: u32)
    ensures
        mw == held_u32(frame_milliwatts(frame@, frame@.len())),
{
    let count: usize = frame.len();
    let mut total: u32 = 0;
    let mut i: usize = 0;
    while i < count
        invariant
            i <= count,
            count == frame@.len(),
            total == held_u32(frame_milliwatts(frame@, i as nat)),
        decreases count - i,
    {
        let pixel: u32 = frame[i].as_milliwatts();
        total = total.saturating_add(pixel);
        i += 1;
    }
    total
}

impl<T: AsMilliwatts> AsMilliwatts for Vec<T> {
    open spec fn milliwatts(&self) -> nat {
        frame_milliwatts(self@, self@.len())
    }

    fn as_milliwatts(&self) -> (mw: u32) {
        frame_as_milliwatts(self.as_slice())
    }
}

impl<T: AsMilliwatts, const S: usize> AsMilliwatts for [T; S] {
    open spec fn milliwatts(&self) -> nat {
        frame_milliwatts(self@, self@.len())
    }

    fn as_milliwatts(&self) -> (mw: u32) {
        frame_as_milliwatts(self.as_slice())
    }
}

/// The draw of a frame of `total_mw` milliwatts at full brightness when it
/// is shown at brightness `target`.
pub open spec fn requested_milliwatts(total_mw: int, target: int) -> int {
    total_mw * target / 255
}

/// The brightness at which a frame is shown: the target where the draw at
/// the target stays within the ceiling, and else the target scaled down by
/// the ceiling over that draw.
pub open spec fn brightness_within(total_mw: int, target: int, max_power: int) -> int {
    let requested = requested_milliwatts(total_mw, target);
    if requested > max_power {
        target * max_power / requested
    } else {
        target
    }
}

/// The brightness at which a frame of `total_mw` milliwatts is shown so
/// that it draws no more than `max_power`. A frame whose draw at the target
/// brightness is within the ceiling keeps the target. A frame over the
/// ceiling gets a brightness below the target, with which that draw,
/// scaled by brightness over target, is within the ceiling.
pub fn brightness_for_mw(total_mw: u32, target: u8, max_power: u32) -> (brightness: u8)
    ensures
        brightness as int == brightness_within(total_mw as int, target as int, max_power as int),
        requested_milliwatts(total_mw as int, target as int) <= max_power ==> brightness == target,
        requested_milliwatts(total_mw as int, target as int) > max_power ==> brightness < target
            && requested_milliwatts(total_mw as int, target as int) * brightness <= target
            * max_power,
        brightness <= target,
{
    let target64: u64 = target as u64;
    assert(0 <= total_mw * target <= 0xffff_ffff * 255) by (nonlinear_arith)
        requires
            0 <= total_mw <= 0xffff_ffff,
            0 <= target <= 255,
    ;
    let requested_mw: u64 = (total_mw as u64 * target64) / 255;
    if requested_mw > max_power as u64 {
        assert(0 <= target * max_power <= 255 * 0xffff_ffff) by (nonlinear_arith)
            requires
                0 <= max_power <= 0xffff_ffff,
                0 <= target <= 255,
        ;
        let product: u64 = target64 * max_power as u64;
        let scaled: u64 = product / requested_mw;
        assert(scaled * requested_mw <= product && (target > 0 ==> scaled < target) && scaled
            <= target) by (nonlinear_arith)
            requires
                scaled == product / requested_mw,
                product == target * max_power,
                0 <= max_power < requested_mw,
                0 <= target,
        ;
        scaled as u8
    } else {
        target
    }
}

} // verus!
