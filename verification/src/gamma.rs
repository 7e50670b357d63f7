//! Gamma correction: a table that turns every level of a channel into the
//! level that looks right on the hardware.
use crate::pixels::Bgr;
use crate::pixels::Grb;
use crate::pixels::Rgb;
use vstd::prelude::*;

verus! {

/// A gamma curve: for each of the 256 levels of a channel, the corrected
/// level. A curve does not change once it is made.
#[derive(Debug)]
pub struct GammaCurve {
    table: [u8; 256],
}

impl GammaCurve {
    /// The corrected level of every level.
    pub closed spec fn levels(&self) -> Seq<u8> {
        self.table@
    }

    /// The corrected level never falls as the level rises.
    pub open spec fn is_monotonic_spec(&self) -> bool {
        forall|low: int, high: int|
            0 <= low <= high < 256 ==> #[trigger] self.levels()[low] <= #[trigger] self.levels()[high]
    }

    /// A curve always has 256 levels.
    pub proof fn lemma_levels(&self)
        ensures
            self.levels().len() == 256,
    {
    }

    /// The curve with the given corrected levels.
    pub fn from_table(table: [u8; 256]) -> (curve: Self)
        ensures
            curve.levels() == table@,
    {
        GammaCurve { table }
    }

    /// The corrected level of a level.
    pub fn index(&self, index: usize) -> (level: u8)
        requires
            index < 256,
        ensures
            level == self.levels()[index as int],
    {
        self.table[index]
    }

    /// The corrected level of a level of a channel.
    pub fn corrected(&self, level: u8) -> (out: u8)
        ensures
            out == self.levels()[level as int],
    {
        self.table[level as usize]
    }

    /// Whether the corrected level never falls as the level rises.
    pub fn is_monotonic(&self) -> (monotonic: bool)
        ensures
            monotonic == self.is_monotonic_spec(),
    {
        let mut i: usize = 1;
        while i < 256
            invariant
                1 <= i <= 256,
                forall|low: int, high: int|
                    0 <= low <= high < i ==> self.table@[low] <= self.table@[high],
            decreases 256 - i,
        {
            if self.table[i - 1] > self.table[i] {
                assert(self.levels()[i - 1] > self.levels()[i as int]);
                return false;
            }
            assert forall|low: int, high: int| 0 <= low <= high < i + 1 implies self.table@[low]
                <= self.table@[high] by {
                if high == i && low < i {
                    assert(self.table@[low] <= self.table@[i - 1]);
                }
            }
            i += 1;
        }
        true
    }
}

impl Default for GammaCurve {
    /// The curve that corrects nothing: every level is its own corrected
    /// level.
    fn default() -> (curve: Self)
        ensures
            forall|level: int| 0 <= level < 256 ==> #[trigger] curve.levels()[level] == level,
    {
        let mut table: [u8; 256] = [0u8; 256];
        let mut i: usize = 0;
        while i < 256
            invariant
                i <= 256,
                forall|level: int| 0 <= level < i ==> #[trigger] table@[level] == level,
            decreases 256 - i,
        {
            table[i] = i as u8;
            i += 1;
        }
        GammaCurve { table }
    }
}

/// Pixels, and frames of pixels, that a gamma curve can correct.
pub trait WithGamma: Sized {
    /// The value with every colour channel corrected.
    spec fn with_gamma_spec(self, curve: GammaCurve) -> Self;

    /// Corrects every colour channel.
    fn with_gamma(self, curve: &GammaCurve) -> (out: Self)
        ensures
            out == self.with_gamma_spec(*curve),
    ;
}

impl WithGamma for Rgb {
    open spec fn with_gamma_spec(self, curve: GammaCurve) -> Self {
        Rgb {
            r: curve.levels()[self.r as int],
            g: curve.levels()[self.g as int],
            b: curve.levels()[self.b as int],
        }
    }

    fn with_gamma(self, curve: &GammaCurve) -> (out: Self) {
        Rgb { r: curve.corrected(self.r), g: curve.corrected(self.g), b: curve.corrected(self.b) }
    }
}

impl WithGamma for Grb {
    open spec fn with_gamma_spec(self, curve: GammaCurve) -> Self {
        Grb {
            g: curve.levels()[self.g as int],
            r: curve.levels()[self.r as int],
            b: curve.levels()[self.b as int],
        }
    }

    fn with_gamma(self, curve: &GammaCurve) -> (out: Self) {
        Grb { g: curve.corrected(self.g), r: curve.corrected(self.r), b: curve.corrected(self.b) }
    }
}

impl WithGamma for Bgr {
    open spec fn with_gamma_spec(self, curve: GammaCurve) -> Self {
        Bgr {
            b: curve.levels()[self.b as int],
            g: curve.levels()[self.g as int],
            r: curve.levels()[self.r as int],
        }
    }

    fn with_gamma(self, curve: &GammaCurve) -> (out: Self) {
        Bgr { b: curve.corrected(self.b), g: curve.corrected(self.g), r: curve.corrected(self.r) }
    }
}

/// Corrects every pixel of a frame.
pub fn frame_with_gamma<T: WithGamma + Copy>(frame: &[T], curve: &GammaCurve) -> (out: Vec<T>)
    ensures
        out@.len() == frame@.len(),
        forall|k: int|
            0 <= k < frame@.len() ==> #[trigger] out@[k] == frame@[k].with_gamma_spec(*curve),
{
    let mut out: Vec<T> = Vec::new();
    let count: usize = frame.len();
    let mut i: usize = 0;
    while i < count
        invariant
            i <= count,
            count == frame@.len(),
            out@.len() == i,
            forall|k: int| 0 <= k < i ==> #[trigger] out@[k] == frame@[k].with_gamma_spec(*curve),
        decreases count - i,
    {
        out.push(frame[i].with_gamma(curve));
        i += 1;
    }
    out
}

} // verus!
