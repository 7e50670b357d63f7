//! Mappings from the virtual space, in which shaders are written, to the
//! pixels of a display.
pub mod linear;
pub mod stride;

use crate::liber8tion::interpolate::lemma_scaled_bounds;
use crate::liber8tion::interpolate::scaled;
use vstd::prelude::*;

verus! {

/// Where `index` lies between `start` and `end`, as a fraction of 255
/// rounded down. Between two equal ends every position is 0.
pub open spec fn position_in(index: int, start: int, end: int) -> int {
    if end > start {
        255 * (index - start) / (end - start)
    } else {
        0
    }
}

/// A position between two ends is a fraction: it starts at 0, ends at 255
/// and never falls.
pub proof fn lemma_position_in(index: int, start: int, end: int)
    requires
        start <= index <= end,
    ensures
        0 <= position_in(index, start, end) <= 255,
        position_in(start, start, end) == 0,
        start < end ==> position_in(end, start, end) == 255,
        index < end ==> position_in(index, start, end) <= position_in(index + 1, start, end),
{
    if end > start {
        let span = end - start;
        let off = index - start;
        assert(0 <= 255 * off / span <= 255) by (nonlinear_arith)
            requires
                0 <= off <= span,
                0 < span,
        ;
        assert(0int / span == 0) by (nonlinear_arith)
            requires
                0 < span,
        ;
        assert(255 * span / span == 255) by (nonlinear_arith)
            requires
                0 < span,
        ;
        assert(255 * off / span <= 255 * (off + 1) / span) by (nonlinear_arith)
            requires
                0 <= off,
                0 < span,
        ;
        assert(index + 1 - start == off + 1);
    }
}

/// An extent scaled by a fraction of 255, rounded down.
pub fn scale_extent(extent: usize, fraction: u8) -> (out: usize)
    ensures
        out as int == scaled(extent as int, fraction as int),
        out <= extent,
{
    let whole: usize = extent / 255;
    let rest: usize = extent % 255;
    proof {
        lemma_scaled_bounds(extent as int, fraction as int);
        assert(extent * fraction == 255 * (whole * fraction) + rest * fraction)
            by (nonlinear_arith)
            requires
                extent == 255 * whole + rest,
        ;
        assert(0 <= rest * fraction <= 254 * 255) by (nonlinear_arith)
            requires
                0 <= rest <= 254,
                0 <= fraction <= 255,
        ;
        assert(0 <= whole * fraction <= extent) by (nonlinear_arith)
            requires
                0 <= whole,
                255 * whole <= extent,
                0 <= fraction <= 255,
        ;
    }
    whole * (fraction as usize) + rest * (fraction as usize) / 255
}

/// Where `offset` lies within `span`, as a fraction of 255 rounded down.
pub fn fraction_of(offset: usize, span: usize) -> (fraction: u8)
    requires
        offset <= span,
    ensures
        fraction as int == position_in(offset as int, 0, span as int),
{
    if span == 0 {
        0
    } else {
        proof {
            lemma_position_in(offset as int, 0, span as int);
        }
        assert(255 * offset <= 255 * 0xffff_ffff_ffff_ffff) by (nonlinear_arith)
            requires
                offset <= 0xffff_ffff_ffff_ffff,
        ;
        ((255u128 * offset as u128) / (span as u128)) as u8
    }
}

} // verus!
