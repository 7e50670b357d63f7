//! Beats: saw and sine waves that repeat a given number of times a minute.
use crate::liber8tion::interpolate::Fract8;
use crate::liber8tion::interpolate::Fract8Ops;
use crate::liber8tion::interpolate::lemma_scaled_at_most_fraction;
use crate::liber8tion::interpolate::lemma_scaled_bounds;
use crate::liber8tion::interpolate::scaled;
use crate::liber8tion::trig::Trig8;
use crate::liber8tion::trig::sin8_curve;
use vstd::prelude::*;

verus! {

/// The saw wave of 16 bits at `bpm` beats a minute in 256ths, at
/// `timebase` milliseconds: the product of time, rate and 280, of which
/// the low 32 bits are kept and the upper 16 of those returned.
pub open spec fn beat88_spec(bpm: int, timebase: int) -> int {
    (timebase * bpm * 280) % 0x1_0000_0000 / 0x1_0000
}

/// The rate in 256ths of a beat: a rate below 256 is taken as whole beats
/// a minute.
pub open spec fn rate_in_256ths(bpm: int) -> int {
    if bpm < 256 {
        bpm * 256
    } else {
        bpm
    }
}

/// The saw wave of 16 bits at a rate in 256ths of a beat a minute.
pub fn beat88(bpm: u16, timebase: u32) -> (beat: u16)
    ensures
        beat as int == beat88_spec(bpm as int, timebase as int),
{
    assert(0 <= timebase * bpm * 280 <= 0xffff_ffff * 0xffff * 280) by (nonlinear_arith)
        requires
            0 <= timebase <= 0xffff_ffff,
            0 <= bpm <= 0xffff,
    ;
    let product: u64 = timebase as u64 * bpm as u64 * 280;
    ((product % 0x1_0000_0000) / 0x1_0000) as u16
}

/// The saw wave of 16 bits at `bpm` beats a minute.
pub fn beat16(bpm: u16, timebase: u32) -> (beat: u16)
    ensures
        beat as int == beat88_spec(rate_in_256ths(bpm as int), timebase as int),
{
    let adj_bpm: u16 = if bpm < 256 {
        bpm * 256
    } else {
        bpm
    };
    beat88(adj_bpm, timebase)
}

/// The saw wave of 8 bits at `bpm` beats a minute: the upper byte of the
/// wave of 16 bits.
pub fn beat8(bpm: u16, timebase: u32) -> (beat: u8)
    ensures
        beat as int == beat88_spec(rate_in_256ths(bpm as int), timebase as int) / 256,
{
    (beat16(bpm, timebase) / 256) as u8
}

/// A sine wave at `bpm` beats a minute that swings between `lowest` and
/// `highest`, `phase` 256ths of a turn ahead.
pub fn beatsin8(bpm: u16, lowest: u8, highest: u8, timebase: u32, phase: u8) -> (level: u8)
    requires
        lowest <= highest,
    ensures
        level as int == lowest + scaled(
            sin8_curve(
                (beat88_spec(rate_in_256ths(bpm as int), timebase as int) / 256 + phase) % 256,
            ),
            highest - lowest,
        ),
        lowest <= level <= highest,
{
    let beat: u8 = beat8(bpm, timebase);
    let beatsin: u8 = beat.wrapping_add(phase).sin8();
    let width: u8 = highest - lowest;
    proof {
        lemma_scaled_bounds(beatsin as int, width as int);
        lemma_scaled_at_most_fraction(beatsin as int, width as int);
    }
    let scaledbeat: u8 = beatsin.scale8(Fract8(width));
    lowest + scaledbeat
}

} // verus!
