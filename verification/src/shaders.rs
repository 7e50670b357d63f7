//! Shaders that are ready to use.
use crate::geometry::CoordinateSpace;
use crate::geometry::Coordinates;
use crate::liber8tion::trig::Trig8;
use crate::liber8tion::trig::cos8_curve;
use crate::liber8tion::trig::sin8_curve;
use crate::pixels::Rgb;
use crate::render::Shader;
use vstd::prelude::*;

verus! {

/// The number of the frame that is rendered: the uniforms of shaders that
/// move with time.
#[derive(Default, Debug, Clone, Copy, PartialEq, Eq, Structural)]
pub struct FrameNumber(pub usize);

/// The shader of one colour: every coordinate has it, in every frame.
#[derive(Default, Debug, Clone, Copy)]
pub struct Solid<Pixel> {
    /// The colour.
    pub color: Pixel,
}

impl<Pixel: Copy> Solid<Pixel> {
    /// The shader of the given colour.
    pub fn new(color: Pixel) -> (shader: Self)
        ensures
            shader.color == color,
    {
        Solid { color }
    }
}

impl<U, Space: CoordinateSpace, Pixel: Copy> Shader<U, Space, Pixel> for Solid<Pixel> {
    open spec fn color_at(&self, coords: Coordinates<Space>, uniforms: U) -> Pixel {
        self.color
    }

    fn draw(&self, surface_coords: &Coordinates<Space>, uniforms: &U) -> (pixel: Pixel) {
        self.color
    }
}

/// Three waves of different lengths, one for each colour, that scroll
/// sideways as the frames go by; the row shifts the levels.
#[derive(Default, Debug, Clone, Copy)]
pub struct RgbWaves {}

impl RgbWaves {
    /// The colour of the waves at column `x` and row `y` in frame `frame`.
    /// The column moves on by one every 30 frames. Each colour is the sine
    /// or cosine of a multiple of the column plus or minus the frame, all
    /// in machine words that wrap, and the low byte of the row is added to
    /// each, wrapping at 256.
    pub open spec fn waves_at(x: usize, y: usize, frame: usize) -> Rgb {
        let offset_x = x.wrapping_add((frame / 30) as usize);
        let row = (y % 256) as u8;
        Rgb {
            r: (sin8_curve(offset_x.wrapping_mul(3).wrapping_add(frame) as int % 255) as u8).wrapping_add(
                row,
            ),
            g: (cos8_curve(offset_x.wrapping_mul(5).wrapping_sub(frame) as int % 255) as u8).wrapping_add(
                row,
            ),
            b: (sin8_curve(offset_x.wrapping_mul(2).wrapping_add(frame) as int % 255) as u8).wrapping_add(
                row,
            ),
        }
    }
}

impl<Space: CoordinateSpace<Data = usize>> Shader<FrameNumber, Space, Rgb> for RgbWaves {
    open spec fn color_at(&self, coords: Coordinates<Space>, uniforms: FrameNumber) -> Rgb {
        RgbWaves::waves_at(coords.x, coords.y, uniforms.0)
    }

    fn draw(&self, coords: &Coordinates<Space>, frame: &FrameNumber) -> (pixel: Rgb) {
        // Scroll the whole pattern sideways, so that it repeats less often.
        let offset_x: usize = coords.x.wrapping_add(frame.0 / 30);
        let row: u8 = (coords.y % 256) as u8;
        let red: u8 = offset_x.wrapping_mul(3).wrapping_add(frame.0).sin8();
        let green: u8 = offset_x.wrapping_mul(5).wrapping_sub(frame.0).cos8();
        let blue: u8 = offset_x.wrapping_mul(2).wrapping_add(frame.0).sin8();
        Rgb {
            r: red.wrapping_add(row),
            g: green.wrapping_add(row),
            b: blue.wrapping_add(row),
        }
    }
}

} // verus!
