//! The power-managed output stage: between the composited frame and the
//! hardware it corrects gamma, estimates the draw, and dims the frame so
//! that the draw stays under a ceiling.
use crate::gamma::GammaCurve;
use crate::gamma::WithGamma;
use crate::gamma::frame_with_gamma;
use crate::output::Brightness;
use crate::output::GammaCorrected;
use crate::pixels::PixelBlend;
use crate::pixels::Rgb;
use crate::power::AsMilliwatts;
use crate::power::brightness_for_mw;
use crate::power::brightness_within;
use crate::power::frame_as_milliwatts;
use crate::power::frame_milliwatts;
use crate::power::held_u32;
use vstd::prelude::*;

verus! {

/// The controls of a power-managed output.
pub struct PowerControls {
    max_mw: u32,
    brightness: u8,
    is_on: bool,
    gamma_curve: GammaCurve,
    last_mw: u32,
}

/// The grey of the given level: the colour that dims a pixel evenly when
/// the pixel is multiplied by it.
pub open spec fn grey(level: u8) -> Rgb {
    Rgb { r: level, g: level, b: level }
}

/// The frame with its gamma corrected.
pub open spec fn gamma_corrected<P: WithGamma>(frame: Seq<P>, curve: GammaCurve) -> Seq<P> {
    Seq::new(frame.len(), |k: int| frame[k].with_gamma_spec(curve))
}

impl PowerControls {
    /// The ceiling on the draw, in milliwatts.
    pub closed spec fn ceiling(&self) -> u32 {
        self.max_mw
    }

    /// The brightness that the output aims at.
    pub closed spec fn target(&self) -> u8 {
        self.brightness
    }

    /// The output is switched on.
    pub closed spec fn on(&self) -> bool {
        self.is_on
    }

    /// The curve that corrects every frame.
    pub closed spec fn curve(&self) -> GammaCurve {
        self.gamma_curve
    }

    /// The draw that was estimated for the last frame that was shown
    /// while the output was on.
    pub closed spec fn last_estimate(&self) -> u32 {
        self.last_mw
    }

    /// What the hardware is to show of a frame, and the controls after the
    /// frame. While the output is on, the gamma of the frame is corrected,
    /// the draw of the corrected frame is estimated and remembered, and
    /// every pixel is dimmed to the brightness that keeps that draw within
    /// the ceiling. While it is off, every pixel is black.
    pub open spec fn shown<P: WithGamma + AsMilliwatts + PixelBlend<Rgb>>(
        &self,
        frame: Seq<P>,
    ) -> Seq<P> {
        if self.on() {
            let corrected = gamma_corrected(frame, self.curve());
            let level = self.effective_brightness(frame);
            Seq::new(frame.len(), |k: int| corrected[k].multiply_spec(grey(level)))
        } else {
            Seq::new(frame.len(), |k: int| frame[k].multiply_spec(grey(0)))
        }
    }

    /// The draw of a frame at full brightness once its gamma is corrected,
    /// held at the largest number that 32 bits hold.
    pub open spec fn estimate<P: WithGamma + AsMilliwatts>(&self, frame: Seq<P>) -> u32 {
        held_u32(frame_milliwatts(gamma_corrected(frame, self.curve()), frame.len()))
    }

    /// The brightness at which a frame is shown while the output is on.
    pub open spec fn effective_brightness<P: WithGamma + AsMilliwatts>(&self, frame: Seq<P>) -> u8 {
        brightness_within(
            self.estimate(frame) as int,
            self.target() as int,
            self.ceiling() as int,
        ) as u8
    }

    /// Controls with the given ceiling in milliwatts: full brightness,
    /// switched on, and a curve that corrects nothing.
    pub fn new(max_mw: u32) -> (controls: Self)
        ensures
            controls.ceiling() == max_mw,
            controls.target() == 255,
            controls.on(),
            controls.last_estimate() == 0,
            forall|level: int|
                0 <= level < 256 ==> #[trigger] controls.curve().levels()[level] == level,
    {
        PowerControls {
            max_mw,
            brightness: 255,
            is_on: true,
            gamma_curve: GammaCurve::default(),
            last_mw: 0,
        }
    }

    /// The ceiling on the draw, in milliwatts.
    pub fn max_mw(&self) -> (mw: u32)
        ensures
            mw == self.ceiling(),
    {
        self.max_mw
    }

    /// The draw that was estimated for the last frame, in milliwatts.
    pub fn last_mw(&self) -> (mw: u32)
        ensures
            mw == self.last_estimate(),
    {
        self.last_mw
    }

    /// The brightness that the output aims at.
    pub fn brightness(&self) -> (brightness: u8)
        ensures
            brightness == self.target(),
    {
        self.brightness
    }

    /// Whether the output is switched on.
    pub fn is_on(&self) -> (on: bool)
        ensures
            on == self.on(),
    {
        self.is_on
    }

    /// Computes what the hardware is to show of a frame.
    pub fn prepare<P: WithGamma + AsMilliwatts + PixelBlend<Rgb> + Copy>(
        &mut self,
        pixbuf: &[P],
    ) -> (out: Vec<P>)
        ensures
            out@ == old(self).shown(pixbuf@),
            final(self).ceiling() == old(self).ceiling(),
            final(self).target() == old(self).target(),
            final(self).on() == old(self).on(),
            final(self).curve() == old(self).curve(),
            final(self).last_estimate() == if old(self).on() {
                old(self).estimate(pixbuf@)
            } else {
                old(self).last_estimate()
            },
    {
        let count: usize = pixbuf.len();
        if self.is_on {
            let with_gamma: Vec<P> = frame_with_gamma(pixbuf, &self.gamma_curve);
            assert(with_gamma@ =~= gamma_corrected(pixbuf@, self.gamma_curve));
            let mw: u32 = frame_as_milliwatts(with_gamma.as_slice());
            let b: u8 = brightness_for_mw(mw, self.brightness, self.max_mw);
            self.last_mw = mw;
            let blend_color = Rgb { r: b, g: b, b };
            let mut out: Vec<P> = Vec::new();
            let mut i: usize = 0;
            while i < count
                invariant
                    i <= count,
                    count == with_gamma@.len(),
                    out@.len() == i,
                    blend_color == grey(b),
                    forall|k: int|
                        0 <= k < i ==> #[trigger] out@[k] == with_gamma@[k].multiply_spec(grey(b)),
                decreases count - i,
            {
                out.push(with_gamma[i].multiply(blend_color));
                i += 1;
            }
            assert(out@ =~= old(self).shown(pixbuf@));
            out
        } else {
            let black = Rgb { r: 0, g: 0, b: 0 };
            let mut out: Vec<P> = Vec::new();
            let mut i: usize = 0;
            while i < count
                invariant
                    i <= count,
                    count == pixbuf@.len(),
                    out@.len() == i,
                    black == grey(0),
                    forall|k: int|
                        0 <= k < i ==> #[trigger] out@[k] == pixbuf@[k].multiply_spec(grey(0)),
                decreases count - i,
            {
                out.push(pixbuf[i].multiply(black));
                i += 1;
            }
            assert(out@ =~= old(self).shown(pixbuf@));
            out
        }
    }
}

impl Brightness for PowerControls {
    fn set_brightness(&mut self, brightness: u8)
        ensures
            final(self).target() == brightness,
            final(self).ceiling() == old(self).ceiling(),
            final(self).on() == old(self).on(),
            final(self).curve() == old(self).curve(),
            final(self).last_estimate() == old(self).last_estimate(),
    {
        self.brightness = brightness;
    }

    fn set_on(&mut self, is_on: bool)
        ensures
            final(self).on() == is_on,
            final(self).ceiling() == old(self).ceiling(),
            final(self).target() == old(self).target(),
            final(self).curve() == old(self).curve(),
            final(self).last_estimate() == old(self).last_estimate(),
    {
        self.is_on = is_on;
    }
}

impl GammaCorrected for PowerControls {
    fn set_gamma(&mut self, gamma: GammaCurve)
        ensures
            final(self).curve() == gamma,
            final(self).ceiling() == old(self).ceiling(),
            final(self).target() == old(self).target(),
            final(self).on() == old(self).on(),
            final(self).last_estimate() == old(self).last_estimate(),
    {
        self.gamma_curve = gamma
    }
}

/// A frame whose draw at the target brightness is within the ceiling is
/// shown at the target brightness. A frame over the ceiling is shown at a
/// lower brightness, at which that draw, scaled by brightness over target,
/// is within the ceiling.
pub proof fn lemma_brightness_keeps_ceiling(total_mw: u32, target: u8, max_power: u32)
    ensures
        total_mw * target / 255 <= max_power ==> brightness_within(
            total_mw as int,
            target as int,
            max_power as int,
        ) == target,
        total_mw <= max_power ==> brightness_within(
            total_mw as int,
            target as int,
            max_power as int,
        ) == target,
        total_mw * target / 255 > max_power ==> (total_mw * target / 255) * brightness_within(
            total_mw as int,
            target as int,
            max_power as int,
        ) <= target * max_power,
        0 <= brightness_within(total_mw as int, target as int, max_power as int) <= target,
{
    let requested = total_mw * target / 255;
    assert(0 <= total_mw * target <= total_mw * 255) by (nonlinear_arith)
        requires
            0 <= total_mw,
            0 <= target <= 255,
    ;
    if requested > max_power {
        let product = target * max_power;
        let scaled = product / requested;
        assert(scaled * requested <= product && 0 <= scaled <= target) by (nonlinear_arith)
            requires
                scaled == product / requested,
                product == target * max_power,
                0 <= max_power < requested,
                0 <= target,
        ;
        assert(requested * scaled == scaled * requested) by (nonlinear_arith);
    }
}

} // verus!
