//! Pixel formats: colours of three or four channels of eight bits each, in
//! the channel orders that hardware asks for, and how one pixel is laid
//! over another.
use crate::liber8tion::interpolate::Fract8;
use crate::liber8tion::interpolate::Fract8Ops;
use crate::liber8tion::interpolate::blended;
use crate::liber8tion::interpolate::lemma_blended_bounds;
use crate::liber8tion::interpolate::lemma_scaled_bounds;
use crate::liber8tion::interpolate::scaled;
use vstd::prelude::*;

verus! {

/// Red, green and blue.
#[derive(Clone, Copy, Debug, Default, PartialEq, Eq, Structural, Hash)]
pub struct Rgb {
    pub r: u8,
    pub g: u8,
    pub b: u8,
}

/// Red, green, blue and alpha.
#[derive(Clone, Copy, Debug, Default, PartialEq, Eq, Structural, Hash)]
pub struct Rgba {
    pub r: u8,
    pub g: u8,
    pub b: u8,
    pub a: u8,
}

/// Green, red and blue: the order of many addressable strips.
#[derive(Clone, Copy, Debug, Default, PartialEq, Eq, Structural, Hash)]
pub struct Grb {
    pub g: u8,
    pub r: u8,
    pub b: u8,
}

/// Blue, green and red.
#[derive(Clone, Copy, Debug, Default, PartialEq, Eq, Structural, Hash)]
pub struct Bgr {
    pub b: u8,
    pub g: u8,
    pub r: u8,
}

/// Blue, green, red and alpha.
#[derive(Clone, Copy, Debug, Default, PartialEq, Eq, Structural, Hash)]
pub struct Bgra {
    pub b: u8,
    pub g: u8,
    pub r: u8,
    pub a: u8,
}

impl Rgb {
    /// The colour with the given channels.
    pub fn new(r: u8, g: u8, b: u8) -> (pixel: Rgb)
        ensures
            pixel == (Rgb { r, g, b }),
    {
        Rgb { r, g, b }
    }
}

impl Rgba {
    /// The colour with the given channels.
    pub fn new(r: u8, g: u8, b: u8, a: u8) -> (pixel: Rgba)
        ensures
            pixel == (Rgba { r, g, b, a }),
    {
        Rgba { r, g, b, a }
    }

    /// The colour without its alpha.
    pub fn rgb(&self) -> (pixel: Rgb)
        ensures
            pixel == (Rgb { r: self.r, g: self.g, b: self.b }),
    {
        Rgb { r: self.r, g: self.g, b: self.b }
    }
}

impl Grb {
    /// The colour with the given channels.
    pub fn new(g: u8, r: u8, b: u8) -> (pixel: Grb)
        ensures
            pixel == (Grb { g, r, b }),
    {
        Grb { g, r, b }
    }
}

impl Bgr {
    /// The colour with the given channels.
    pub fn new(b: u8, g: u8, r: u8) -> (pixel: Bgr)
        ensures
            pixel == (Bgr { b, g, r }),
    {
        Bgr { b, g, r }
    }
}

impl Bgra {
    /// The colour with the given channels.
    pub fn new(b: u8, g: u8, r: u8, a: u8) -> (pixel: Bgra)
        ensures
            pixel == (Bgra { b, g, r, a }),
    {
        Bgra { b, g, r, a }
    }

    /// The colour without its alpha.
    pub fn rgb(&self) -> (pixel: Rgb)
        ensures
            pixel == (Rgb { r: self.r, g: self.g, b: self.b }),
    {
        Rgb { r: self.r, g: self.g, b: self.b }
    }
}

impl Fract8Ops for Rgb {
    /// Every channel scaled.
    open spec fn scale8_spec(self, scale: Fract8) -> Self {
        Rgb { r: self.r.scale8_spec(scale), g: self.g.scale8_spec(scale), b: self.b.scale8_spec(scale) }
    }

    /// Every channel blended.
    open spec fn blend8_spec(self, other: Self, scale: Fract8) -> Self {
        Rgb { r: self.r.blend8_spec(other.r, scale), g: self.g.blend8_spec(other.g, scale), b: self.b.blend8_spec(other.b, scale) }
    }

    /// Every channel added, held at 255.
    open spec fn saturating_add_spec(self, other: Self) -> Self {
        Rgb { r: self.r.saturating_add_spec(other.r), g: self.g.saturating_add_spec(other.g), b: self.b.saturating_add_spec(other.b) }
    }

    /// Every channel interpolated.
    open spec fn lerp8by8_spec(self, other: Self, scale: Fract8) -> Self {
        Rgb { r: self.r.lerp8by8_spec(other.r, scale), g: self.g.lerp8by8_spec(other.g, scale), b: self.b.lerp8by8_spec(other.b, scale) }
    }

    fn scale8(self, scale: Fract8) -> (out: Self) {
        Rgb { r: self.r.scale8(scale), g: self.g.scale8(scale), b: self.b.scale8(scale) }
    }

    fn blend8(self, other: Self, scale: Fract8) -> (out: Self) {
        Rgb { r: self.r.blend8(other.r, scale), g: self.g.blend8(other.g, scale), b: self.b.blend8(other.b, scale) }
    }

    fn saturating_add(self, other: Self) -> (out: Self) {
        Rgb { r: Fract8Ops::saturating_add(self.r, other.r), g: Fract8Ops::saturating_add(self.g, other.g), b: Fract8Ops::saturating_add(self.b, other.b) }
    }

    fn lerp8by8(self, other: Self, scale: Fract8) -> (out: Self) {
        Rgb { r: self.r.lerp8by8(other.r, scale), g: self.g.lerp8by8(other.g, scale), b: self.b.lerp8by8(other.b, scale) }
    }
}

impl Fract8Ops for Rgba {
    /// Every channel scaled.
    open spec fn scale8_spec(self, scale: Fract8) -> Self {
        Rgba { r: self.r.scale8_spec(scale), g: self.g.scale8_spec(scale), b: self.b.scale8_spec(scale), a: self.a.scale8_spec(scale) }
    }

    /// Every channel blended.
    open spec fn blend8_spec(self, other: Self, scale: Fract8) -> Self {
        Rgba { r: self.r.blend8_spec(other.r, scale), g: self.g.blend8_spec(other.g, scale), b: self.b.blend8_spec(other.b, scale), a: self.a.blend8_spec(other.a, scale) }
    }

    /// Every channel added, held at 255.
    open spec fn saturating_add_spec(self, other: Self) -> Self {
        Rgba { r: self.r.saturating_add_spec(other.r), g: self.g.saturating_add_spec(other.g), b: self.b.saturating_add_spec(other.b), a: self.a.saturating_add_spec(other.a) }
    }

    /// Every channel interpolated.
    open spec fn lerp8by8_spec(self, other: Self, scale: Fract8) -> Self {
        Rgba { r: self.r.lerp8by8_spec(other.r, scale), g: self.g.lerp8by8_spec(other.g, scale), b: self.b.lerp8by8_spec(other.b, scale), a: self.a.lerp8by8_spec(other.a, scale) }
    }

    fn scale8(self, scale: Fract8) -> (out: Self) {
        Rgba { r: self.r.scale8(scale), g: self.g.scale8(scale), b: self.b.scale8(scale), a: self.a.scale8(scale) }
    }

    fn blend8(self, other: Self, scale: Fract8) -> (out: Self) {
        Rgba { r: self.r.blend8(other.r, scale), g: self.g.blend8(other.g, scale), b: self.b.blend8(other.b, scale), a: self.a.blend8(other.a, scale) }
    }

    fn saturating_add(self, other: Self) -> (out: Self) {
        Rgba { r: Fract8Ops::saturating_add(self.r, other.r), g: Fract8Ops::saturating_add(self.g, other.g), b: Fract8Ops::saturating_add(self.b, other.b), a: Fract8Ops::saturating_add(self.a, other.a) }
    }

    fn lerp8by8(self, other: Self, scale: Fract8) -> (out: Self) {
        Rgba { r: self.r.lerp8by8(other.r, scale), g: self.g.lerp8by8(other.g, scale), b: self.b.lerp8by8(other.b, scale), a: self.a.lerp8by8(other.a, scale) }
    }
}

impl Fract8Ops for Grb {
    /// Every channel scaled.
    open spec fn scale8_spec(self, scale: Fract8) -> Self {
        Grb { g: self.g.scale8_spec(scale), r: self.r.scale8_spec(scale), b: self.b.scale8_spec(scale) }
    }

    /// Every channel blended.
    open spec fn blend8_spec(self, other: Self, scale: Fract8) -> Self {
        Grb { g: self.g.blend8_spec(other.g, scale), r: self.r.blend8_spec(other.r, scale), b: self.b.blend8_spec(other.b, scale) }
    }

    /// Every channel added, held at 255.
    open spec fn saturating_add_spec(self, other: Self) -> Self {
        Grb { g: self.g.saturating_add_spec(other.g), r: self.r.saturating_add_spec(other.r), b: self.b.saturating_add_spec(other.b) }
    }

    /// Every channel interpolated.
    open spec fn lerp8by8_spec(self, other: Self, scale: Fract8) -> Self {
        Grb { g: self.g.lerp8by8_spec(other.g, scale), r: self.r.lerp8by8_spec(other.r, scale), b: self.b.lerp8by8_spec(other.b, scale) }
    }

    fn scale8(self, scale: Fract8) -> (out: Self) {
        Grb { g: self.g.scale8(scale), r: self.r.scale8(scale), b: self.b.scale8(scale) }
    }

    fn blend8(self, other: Self, scale: Fract8) -> (out: Self) {
        Grb { g: self.g.blend8(other.g, scale), r: self.r.blend8(other.r, scale), b: self.b.blend8(other.b, scale) }
    }

    fn saturating_add(self, other: Self) -> (out: Self) {
        Grb { g: Fract8Ops::saturating_add(self.g, other.g), r: Fract8Ops::saturating_add(self.r, other.r), b: Fract8Ops::saturating_add(self.b, other.b) }
    }

    fn lerp8by8(self, other: Self, scale: Fract8) -> (out: Self) {
        Grb { g: self.g.lerp8by8(other.g, scale), r: self.r.lerp8by8(other.r, scale), b: self.b.lerp8by8(other.b, scale) }
    }
}

impl Fract8Ops for Bgr {
    /// Every channel scaled.
    open spec fn scale8_spec(self, scale: Fract8) -> Self {
        Bgr { b: self.b.scale8_spec(scale), g: self.g.scale8_spec(scale), r: self.r.scale8_spec(scale) }
    }

    /// Every channel blended.
    open spec fn blend8_spec(self, other: Self, scale: Fract8) -> Self {
        Bgr { b: self.b.blend8_spec(other.b, scale), g: self.g.blend8_spec(other.g, scale), r: self.r.blend8_spec(other.r, scale) }
    }

    /// Every channel added, held at 255.
    open spec fn saturating_add_spec(self, other: Self) -> Self {
        Bgr { b: self.b.saturating_add_spec(other.b), g: self.g.saturating_add_spec(other.g), r: self.r.saturating_add_spec(other.r) }
    }

    /// Every channel interpolated.
    open spec fn lerp8by8_spec(self, other: Self, scale: Fract8) -> Self {
        Bgr { b: self.b.lerp8by8_spec(other.b, scale), g: self.g.lerp8by8_spec(other.g, scale), r: self.r.lerp8by8_spec(other.r, scale) }
    }

    fn scale8(self, scale: Fract8) -> (out: Self) {
        Bgr { b: self.b.scale8(scale), g: self.g.scale8(scale), r: self.r.scale8(scale) }
    }

    fn blend8(self, other: Self, scale: Fract8) -> (out: Self) {
        Bgr { b: self.b.blend8(other.b, scale), g: self.g.blend8(other.g, scale), r: self.r.blend8(other.r, scale) }
    }

    fn saturating_add(self, other: Self) -> (out: Self) {
        Bgr { b: Fract8Ops::saturating_add(self.b, other.b), g: Fract8Ops::saturating_add(self.g, other.g), r: Fract8Ops::saturating_add(self.r, other.r) }
    }

    fn lerp8by8(self, other: Self, scale: Fract8) -> (out: Self) {
        Bgr { b: self.b.lerp8by8(other.b, scale), g: self.g.lerp8by8(other.g, scale), r: self.r.lerp8by8(other.r, scale) }
    }
}

impl Fract8Ops for Bgra {
    /// Every channel scaled.
    open spec fn scale8_spec(self, scale: Fract8) -> Self {
        Bgra { b: self.b.scale8_spec(scale), g: self.g.scale8_spec(scale), r: self.r.scale8_spec(scale), a: self.a.scale8_spec(scale) }
    }

    /// Every channel blended.
    open spec fn blend8_spec(self, other: Self, scale: Fract8) -> Self {
        Bgra { b: self.b.blend8_spec(other.b, scale), g: self.g.blend8_spec(other.g, scale), r: self.r.blend8_spec(other.r, scale), a: self.a.blend8_spec(other.a, scale) }
    }

    /// Every channel added, held at 255.
    open spec fn saturating_add_spec(self, other: Self) -> Self {
        Bgra { b: self.b.saturating_add_spec(other.b), g: self.g.saturating_add_spec(other.g), r: self.r.saturating_add_spec(other.r), a: self.a.saturating_add_spec(other.a) }
    }

    /// Every channel interpolated.
    open spec fn lerp8by8_spec(self, other: Self, scale: Fract8) -> Self {
        Bgra { b: self.b.lerp8by8_spec(other.b, scale), g: self.g.lerp8by8_spec(other.g, scale), r: self.r.lerp8by8_spec(other.r, scale), a: self.a.lerp8by8_spec(other.a, scale) }
    }

    fn scale8(self, scale: Fract8) -> (out: Self) {
        Bgra { b: self.b.scale8(scale), g: self.g.scale8(scale), r: self.r.scale8(scale), a: self.a.scale8(scale) }
    }

    fn blend8(self, other: Self, scale: Fract8) -> (out: Self) {
        Bgra { b: self.b.blend8(other.b, scale), g: self.g.blend8(other.g, scale), r: self.r.blend8(other.r, scale), a: self.a.blend8(other.a, scale) }
    }

    fn saturating_add(self, other: Self) -> (out: Self) {
        Bgra { b: Fract8Ops::saturating_add(self.b, other.b), g: Fract8Ops::saturating_add(self.g, other.g), r: Fract8Ops::saturating_add(self.r, other.r), a: Fract8Ops::saturating_add(self.a, other.a) }
    }

    fn lerp8by8(self, other: Self, scale: Fract8) -> (out: Self) {
        Bgra { b: self.b.lerp8by8(other.b, scale), g: self.g.lerp8by8(other.g, scale), r: self.r.lerp8by8(other.r, scale), a: self.a.lerp8by8(other.a, scale) }
    }
}

/// A pixel that another pixel can be laid over.
pub trait PixelBlend<OverlayPixel>: Sized {
    /// The pixel with `overlay` laid over it at the given opacity.
    spec fn blend_pixel_spec(self, overlay: OverlayPixel, opacity: Fract8) -> Self;

    /// The pixel with every channel scaled by the same channel of
    /// `overlay`.
    spec fn multiply_spec(self, overlay: OverlayPixel) -> Self;

    /// An overlay without opacity leaves the pixel as it is.
    proof fn lemma_blend_transparent(self, overlay: OverlayPixel)
        ensures
            self.blend_pixel_spec(overlay, Fract8(0)) == self,
    ;

    /// Lays `overlay` over the pixel at the given opacity.
    fn blend_pixel(self, overlay: OverlayPixel, opacity: Fract8) -> (out: Self)
        ensures
            out == self.blend_pixel_spec(overlay, opacity),
    ;

    /// Scales every channel by the same channel of `overlay`.
    fn multiply(self, overlay: OverlayPixel) -> (out: Self)
        ensures
            out == self.multiply_spec(overlay),
    ;

    /// Composites `overlay` onto the pixel: at opacity 0 the pixel is
    /// handed back untouched, and else the overlay is laid over it.
    fn add(self, overlay: OverlayPixel, opacity: Fract8) -> (out: Self)
        ensures
            out == self.blend_pixel_spec(overlay, opacity),
            opacity.0 == 0 ==> out == self,
    {
        if opacity.0 == 0 {
            proof {
                self.lemma_blend_transparent(overlay);
            }
            self
        } else {
            self.blend_pixel(overlay, opacity)
        }
    }
}

/// A pixel format: a colour that one of its own kind can be laid over, so
/// that a full overlay replaces it.
pub trait PixelFormat: PixelBlend<Self> + Copy {
    /// The pixel that shows nothing: every channel at zero.
    spec fn blank_spec() -> Self;

    /// The pixel that shows nothing.
    fn blank() -> (pixel: Self)
        ensures
            pixel == Self::blank_spec(),
    ;

    /// An overlay of the same format at full opacity replaces the pixel.
    proof fn lemma_blend_opaque(self, overlay: Self)
        ensures
            self.blend_pixel_spec(overlay, Fract8(255)) == overlay,
    ;
}

/// A pixel format that hardware takes: one that a colour by red, green and
/// blue can be turned into.
pub trait HardwarePixel: PixelFormat + Fract8Ops {
    /// The pixel that shows the given colour.
    spec fn from_rgb_spec(rgb: Rgb) -> Self;

    /// The pixel that shows the given colour.
    fn from_rgb(rgb: Rgb) -> (pixel: Self)
        ensures
            pixel == Self::from_rgb_spec(rgb),
    ;
}

/// A value that a pixel can be read from.
pub trait PixelSrc<Output>: Sized {
    /// The pixel that is read.
    spec fn get_pixel_spec(&self) -> Output;

    /// Reads the pixel.
    fn get_pixel(&self) -> (pixel: Output)
        ensures
            pixel == self.get_pixel_spec(),
    ;
}

/// A pixel that can be overwritten from a pixel of another format.
pub trait PixelSink<Src>: Sized {
    /// The pixel after `pixel` was written to it.
    spec fn set_spec(self, pixel: Src) -> Self;

    /// Overwrites the pixel.
    fn set(&mut self, pixel: &Src)
        ensures
            *final(self) == old(self).set_spec(*pixel),
    ;
}

/// A blend of two bytes at opacity 0 is the first, and at opacity 255 the
/// second.
pub proof fn lemma_blend8_ends(a: u8, b: u8)
    ensures
        a.blend8_spec(b, Fract8(0)) == a,
        a.blend8_spec(b, Fract8(255)) == b,
{
    lemma_blended_bounds(a as int, b as int, 0);
}

impl PixelBlend<Rgb> for Rgb {
    /// Every channel blended towards that of the overlay.
    open spec fn blend_pixel_spec(self, overlay: Rgb, opacity: Fract8) -> Self {
        self.blend8_spec(overlay, opacity)
    }

    open spec fn multiply_spec(self, overlay: Rgb) -> Self {
        Rgb { r: self.r.scale8_spec(Fract8(overlay.r)), g: self.g.scale8_spec(Fract8(overlay.g)), b: self.b.scale8_spec(Fract8(overlay.b)) }
    }

    proof fn lemma_blend_transparent(self, overlay: Rgb) {
        lemma_blend8_ends(self.r, overlay.r);
        lemma_blend8_ends(self.g, overlay.g);
        lemma_blend8_ends(self.b, overlay.b);
    }

    fn blend_pixel(self, overlay: Rgb, opacity: Fract8) -> (out: Self) {
        self.blend8(overlay, opacity)
    }

    fn multiply(self, overlay: Rgb) -> (out: Self) {
        Rgb { r: self.r.scale8(Fract8(overlay.r)), g: self.g.scale8(Fract8(overlay.g)), b: self.b.scale8(Fract8(overlay.b)) }
    }
}

impl PixelFormat for Rgb {
    open spec fn blank_spec() -> Self {
        Rgb { r: 0, g: 0, b: 0 }
    }

    fn blank() -> (pixel: Self) {
        Rgb { r: 0, g: 0, b: 0 }
    }

    proof fn lemma_blend_opaque(self, overlay: Self) {
        lemma_blend8_ends(self.r, overlay.r);
        lemma_blend8_ends(self.g, overlay.g);
        lemma_blend8_ends(self.b, overlay.b);
    }
}

impl PixelSrc<Rgb> for Rgb {
    open spec fn get_pixel_spec(&self) -> Rgb {
        *self
    }

    fn get_pixel(&self) -> (pixel: Rgb) {
        *self
    }
}

impl PixelSink<Rgb> for Rgb {
    open spec fn set_spec(self, pixel: Rgb) -> Self {
        pixel
    }

    fn set(&mut self, pixel: &Rgb) {
        *self = *pixel;
    }
}

impl HardwarePixel for Rgb {
    open spec fn from_rgb_spec(rgb: Rgb) -> Self {
        Rgb { r: rgb.r, g: rgb.g, b: rgb.b }
    }

    fn from_rgb(rgb: Rgb) -> (pixel: Self) {
        Rgb { r: rgb.r, g: rgb.g, b: rgb.b }
    }
}

impl PixelBlend<Rgba> for Rgba {
    /// Every channel blended towards that of the overlay.
    open spec fn blend_pixel_spec(self, overlay: Rgba, opacity: Fract8) -> Self {
        self.blend8_spec(overlay, opacity)
    }

    open spec fn multiply_spec(self, overlay: Rgba) -> Self {
        Rgba { r: self.r.scale8_spec(Fract8(overlay.r)), g: self.g.scale8_spec(Fract8(overlay.g)), b: self.b.scale8_spec(Fract8(overlay.b)), a: self.a.scale8_spec(Fract8(overlay.a)) }
    }

    proof fn lemma_blend_transparent(self, overlay: Rgba) {
        lemma_blend8_ends(self.r, overlay.r);
        lemma_blend8_ends(self.g, overlay.g);
        lemma_blend8_ends(self.b, overlay.b);
        lemma_blend8_ends(self.a, overlay.a);
    }

    fn blend_pixel(self, overlay: Rgba, opacity: Fract8) -> (out: Self) {
        self.blend8(overlay, opacity)
    }

    fn multiply(self, overlay: Rgba) -> (out: Self) {
        Rgba { r: self.r.scale8(Fract8(overlay.r)), g: self.g.scale8(Fract8(overlay.g)), b: self.b.scale8(Fract8(overlay.b)), a: self.a.scale8(Fract8(overlay.a)) }
    }
}

impl PixelFormat for Rgba {
    open spec fn blank_spec() -> Self {
        Rgba { r: 0, g: 0, b: 0, a: 0 }
    }

    fn blank() -> (pixel: Self) {
        Rgba { r: 0, g: 0, b: 0, a: 0 }
    }

    proof fn lemma_blend_opaque(self, overlay: Self) {
        lemma_blend8_ends(self.r, overlay.r);
        lemma_blend8_ends(self.g, overlay.g);
        lemma_blend8_ends(self.b, overlay.b);
        lemma_blend8_ends(self.a, overlay.a);
    }
}

impl PixelSrc<Rgba> for Rgba {
    open spec fn get_pixel_spec(&self) -> Rgba {
        *self
    }

    fn get_pixel(&self) -> (pixel: Rgba) {
        *self
    }
}

impl PixelSink<Rgba> for Rgba {
    open spec fn set_spec(self, pixel: Rgba) -> Self {
        pixel
    }

    fn set(&mut self, pixel: &Rgba) {
        *self = *pixel;
    }
}

impl HardwarePixel for Rgba {
    open spec fn from_rgb_spec(rgb: Rgb) -> Self {
        Rgba { r: rgb.r, g: rgb.g, b: rgb.b, a: 255u8 }
    }

    fn from_rgb(rgb: Rgb) -> (pixel: Self) {
        Rgba { r: rgb.r, g: rgb.g, b: rgb.b, a: 255u8 }
    }
}

impl PixelBlend<Grb> for Grb {
    /// Every channel blended towards that of the overlay.
    open spec fn blend_pixel_spec(self, overlay: Grb, opacity: Fract8) -> Self {
        self.blend8_spec(overlay, opacity)
    }

    open spec fn multiply_spec(self, overlay: Grb) -> Self {
        Grb { g: self.g.scale8_spec(Fract8(overlay.g)), r: self.r.scale8_spec(Fract8(overlay.r)), b: self.b.scale8_spec(Fract8(overlay.b)) }
    }

    proof fn lemma_blend_transparent(self, overlay: Grb) {
        lemma_blend8_ends(self.g, overlay.g);
        lemma_blend8_ends(self.r, overlay.r);
        lemma_blend8_ends(self.b, overlay.b);
    }

    fn blend_pixel(self, overlay: Grb, opacity: Fract8) -> (out: Self) {
        self.blend8(overlay, opacity)
    }

    fn multiply(self, overlay: Grb) -> (out: Self) {
        Grb { g: self.g.scale8(Fract8(overlay.g)), r: self.r.scale8(Fract8(overlay.r)), b: self.b.scale8(Fract8(overlay.b)) }
    }
}

impl PixelFormat for Grb {
    open spec fn blank_spec() -> Self {
        Grb { g: 0, r: 0, b: 0 }
    }

    fn blank() -> (pixel: Self) {
        Grb { g: 0, r: 0, b: 0 }
    }

    proof fn lemma_blend_opaque(self, overlay: Self) {
        lemma_blend8_ends(self.g, overlay.g);
        lemma_blend8_ends(self.r, overlay.r);
        lemma_blend8_ends(self.b, overlay.b);
    }
}

impl PixelSrc<Grb> for Grb {
    open spec fn get_pixel_spec(&self) -> Grb {
        *self
    }

    fn get_pixel(&self) -> (pixel: Grb) {
        *self
    }
}

impl PixelSink<Grb> for Grb {
    open spec fn set_spec(self, pixel: Grb) -> Self {
        pixel
    }

    fn set(&mut self, pixel: &Grb) {
        *self = *pixel;
    }
}

impl HardwarePixel for Grb {
    open spec fn from_rgb_spec(rgb: Rgb) -> Self {
        Grb { g: rgb.g, r: rgb.r, b: rgb.b }
    }

    fn from_rgb(rgb: Rgb) -> (pixel: Self) {
        Grb { g: rgb.g, r: rgb.r, b: rgb.b }
    }
}

impl PixelBlend<Bgr> for Bgr {
    /// Every channel blended towards that of the overlay.
    open spec fn blend_pixel_spec(self, overlay: Bgr, opacity: Fract8) -> Self {
        self.blend8_spec(overlay, opacity)
    }

    open spec fn multiply_spec(self, overlay: Bgr) -> Self {
        Bgr { b: self.b.scale8_spec(Fract8(overlay.b)), g: self.g.scale8_spec(Fract8(overlay.g)), r: self.r.scale8_spec(Fract8(overlay.r)) }
    }

    proof fn lemma_blend_transparent(self, overlay: Bgr) {
        lemma_blend8_ends(self.b, overlay.b);
        lemma_blend8_ends(self.g, overlay.g);
        lemma_blend8_ends(self.r, overlay.r);
    }

    fn blend_pixel(self, overlay: Bgr, opacity: Fract8) -> (out: Self) {
        self.blend8(overlay, opacity)
    }

    fn multiply(self, overlay: Bgr) -> (out: Self) {
        Bgr { b: self.b.scale8(Fract8(overlay.b)), g: self.g.scale8(Fract8(overlay.g)), r: self.r.scale8(Fract8(overlay.r)) }
    }
}

impl PixelFormat for Bgr {
    open spec fn blank_spec() -> Self {
        Bgr { b: 0, g: 0, r: 0 }
    }

    fn blank() -> (pixel: Self) {
        Bgr { b: 0, g: 0, r: 0 }
    }

    proof fn lemma_blend_opaque(self, overlay: Self) {
        lemma_blend8_ends(self.b, overlay.b);
        lemma_blend8_ends(self.g, overlay.g);
        lemma_blend8_ends(self.r, overlay.r);
    }
}

impl PixelSrc<Bgr> for Bgr {
    open spec fn get_pixel_spec(&self) -> Bgr {
        *self
    }

    fn get_pixel(&self) -> (pixel: Bgr) {
        *self
    }
}

impl PixelSink<Bgr> for Bgr {
    open spec fn set_spec(self, pixel: Bgr) -> Self {
        pixel
    }

    fn set(&mut self, pixel: &Bgr) {
        *self = *pixel;
    }
}

impl HardwarePixel for Bgr {
    open spec fn from_rgb_spec(rgb: Rgb) -> Self {
        Bgr { b: rgb.b, g: rgb.g, r: rgb.r }
    }

    fn from_rgb(rgb: Rgb) -> (pixel: Self) {
        Bgr { b: rgb.b, g: rgb.g, r: rgb.r }
    }
}

impl PixelBlend<Bgra> for Bgra {
    /// Every channel blended towards that of the overlay.
    open spec fn blend_pixel_spec(self, overlay: Bgra, opacity: Fract8) -> Self {
        self.blend8_spec(overlay, opacity)
    }

    open spec fn multiply_spec(self, overlay: Bgra) -> Self {
        Bgra { b: self.b.scale8_spec(Fract8(overlay.b)), g: self.g.scale8_spec(Fract8(overlay.g)), r: self.r.scale8_spec(Fract8(overlay.r)), a: self.a.scale8_spec(Fract8(overlay.a)) }
    }

    proof fn lemma_blend_transparent(self, overlay: Bgra) {
        lemma_blend8_ends(self.b, overlay.b);
        lemma_blend8_ends(self.g, overlay.g);
        lemma_blend8_ends(self.r, overlay.r);
        lemma_blend8_ends(self.a, overlay.a);
    }

    fn blend_pixel(self, overlay: Bgra, opacity: Fract8) -> (out: Self) {
        self.blend8(overlay, opacity)
    }

    fn multiply(self, overlay: Bgra) -> (out: Self) {
        Bgra { b: self.b.scale8(Fract8(overlay.b)), g: self.g.scale8(Fract8(overlay.g)), r: self.r.scale8(Fract8(overlay.r)), a: self.a.scale8(Fract8(overlay.a)) }
    }
}

impl PixelFormat for Bgra {
    open spec fn blank_spec() -> Self {
        Bgra { b: 0, g: 0, r: 0, a: 0 }
    }

    fn blank() -> (pixel: Self) {
        Bgra { b: 0, g: 0, r: 0, a: 0 }
    }

    proof fn lemma_blend_opaque(self, overlay: Self) {
        lemma_blend8_ends(self.b, overlay.b);
        lemma_blend8_ends(self.g, overlay.g);
        lemma_blend8_ends(self.r, overlay.r);
        lemma_blend8_ends(self.a, overlay.a);
    }
}

impl PixelSrc<Bgra> for Bgra {
    open spec fn get_pixel_spec(&self) -> Bgra {
        *self
    }

    fn get_pixel(&self) -> (pixel: Bgra) {
        *self
    }
}

impl PixelSink<Bgra> for Bgra {
    open spec fn set_spec(self, pixel: Bgra) -> Self {
        pixel
    }

    fn set(&mut self, pixel: &Bgra) {
        *self = *pixel;
    }
}

impl HardwarePixel for Bgra {
    open spec fn from_rgb_spec(rgb: Rgb) -> Self {
        Bgra { b: rgb.b, g: rgb.g, r: rgb.r, a: 255u8 }
    }

    fn from_rgb(rgb: Rgb) -> (pixel: Self) {
        Bgra { b: rgb.b, g: rgb.g, r: rgb.r, a: 255u8 }
    }
}

impl PixelBlend<Rgba> for Rgb {
    /// The alpha of the overlay scales the opacity, and the colour of the
    /// overlay is blended in at what that leaves.
    open spec fn blend_pixel_spec(self, overlay: Rgba, opacity: Fract8) -> Self {
        let through = Fract8(overlay.a.scale8_spec(opacity));
        Rgb { r: self.r.blend8_spec(overlay.r, through), g: self.g.blend8_spec(overlay.g, through), b: self.b.blend8_spec(overlay.b, through) }
    }

    open spec fn multiply_spec(self, overlay: Rgba) -> Self {
        Rgb { r: self.r.scale8_spec(Fract8(overlay.r)), g: self.g.scale8_spec(Fract8(overlay.g)), b: self.b.scale8_spec(Fract8(overlay.b)) }
    }

    proof fn lemma_blend_transparent(self, overlay: Rgba) {
        lemma_scaled_bounds(overlay.a as int, 0);
        lemma_blend8_ends(self.r, overlay.r);
        lemma_blend8_ends(self.g, overlay.g);
        lemma_blend8_ends(self.b, overlay.b);
    }

    fn blend_pixel(self, overlay: Rgba, opacity: Fract8) -> (out: Self) {
        let through = Fract8(overlay.a.scale8(opacity));
        Rgb { r: self.r.blend8(overlay.r, through), g: self.g.blend8(overlay.g, through), b: self.b.blend8(overlay.b, through) }
    }

    fn multiply(self, overlay: Rgba) -> (out: Self) {
        Rgb { r: self.r.scale8(Fract8(overlay.r)), g: self.g.scale8(Fract8(overlay.g)), b: self.b.scale8(Fract8(overlay.b)) }
    }
}

impl PixelSink<Rgba> for Rgb {
    /// The colour of the pixel written, without its alpha.
    open spec fn set_spec(self, pixel: Rgba) -> Self {
        Rgb { r: pixel.r, g: pixel.g, b: pixel.b }
    }

    fn set(&mut self, pixel: &Rgba) {
        *self = Rgb { r: pixel.r, g: pixel.g, b: pixel.b };
    }
}

impl PixelBlend<Rgba> for Grb {
    /// The alpha of the overlay scales the opacity, and the colour of the
    /// overlay is blended in at what that leaves.
    open spec fn blend_pixel_spec(self, overlay: Rgba, opacity: Fract8) -> Self {
        let through = Fract8(overlay.a.scale8_spec(opacity));
        Grb { g: self.g.blend8_spec(overlay.g, through), r: self.r.blend8_spec(overlay.r, through), b: self.b.blend8_spec(overlay.b, through) }
    }

    open spec fn multiply_spec(self, overlay: Rgba) -> Self {
        Grb { g: self.g.scale8_spec(Fract8(overlay.g)), r: self.r.scale8_spec(Fract8(overlay.r)), b: self.b.scale8_spec(Fract8(overlay.b)) }
    }

    proof fn lemma_blend_transparent(self, overlay: Rgba) {
        lemma_scaled_bounds(overlay.a as int, 0);
        lemma_blend8_ends(self.g, overlay.g);
        lemma_blend8_ends(self.r, overlay.r);
        lemma_blend8_ends(self.b, overlay.b);
    }

    fn blend_pixel(self, overlay: Rgba, opacity: Fract8) -> (out: Self) {
        let through = Fract8(overlay.a.scale8(opacity));
        Grb { g: self.g.blend8(overlay.g, through), r: self.r.blend8(overlay.r, through), b: self.b.blend8(overlay.b, through) }
    }

    fn multiply(self, overlay: Rgba) -> (out: Self) {
        Grb { g: self.g.scale8(Fract8(overlay.g)), r: self.r.scale8(Fract8(overlay.r)), b: self.b.scale8(Fract8(overlay.b)) }
    }
}

impl PixelSink<Rgba> for Grb {
    /// The colour of the pixel written, without its alpha.
    open spec fn set_spec(self, pixel: Rgba) -> Self {
        Grb { g: pixel.g, r: pixel.r, b: pixel.b }
    }

    fn set(&mut self, pixel: &Rgba) {
        *self = Grb { g: pixel.g, r: pixel.r, b: pixel.b };
    }
}

impl PixelBlend<Rgba> for Bgr {
    /// The alpha of the overlay scales the opacity, and the colour of the
    /// overlay is blended in at what that leaves.
    open spec fn blend_pixel_spec(self, overlay: Rgba, opacity: Fract8) -> Self {
        let through = Fract8(overlay.a.scale8_spec(opacity));
        Bgr { b: self.b.blend8_spec(overlay.b, through), g: self.g.blend8_spec(overlay.g, through), r: self.r.blend8_spec(overlay.r, through) }
    }

    open spec fn multiply_spec(self, overlay: Rgba) -> Self {
        Bgr { b: self.b.scale8_spec(Fract8(overlay.b)), g: self.g.scale8_spec(Fract8(overlay.g)), r: self.r.scale8_spec(Fract8(overlay.r)) }
    }

    proof fn lemma_blend_transparent(self, overlay: Rgba) {
        lemma_scaled_bounds(overlay.a as int, 0);
        lemma_blend8_ends(self.b, overlay.b);
        lemma_blend8_ends(self.g, overlay.g);
        lemma_blend8_ends(self.r, overlay.r);
    }

    fn blend_pixel(self, overlay: Rgba, opacity: Fract8) -> (out: Self) {
        let through = Fract8(overlay.a.scale8(opacity));
        Bgr { b: self.b.blend8(overlay.b, through), g: self.g.blend8(overlay.g, through), r: self.r.blend8(overlay.r, through) }
    }

    fn multiply(self, overlay: Rgba) -> (out: Self) {
        Bgr { b: self.b.scale8(Fract8(overlay.b)), g: self.g.scale8(Fract8(overlay.g)), r: self.r.scale8(Fract8(overlay.r)) }
    }
}

impl PixelSink<Rgba> for Bgr {
    /// The colour of the pixel written, without its alpha.
    open spec fn set_spec(self, pixel: Rgba) -> Self {
        Bgr { b: pixel.b, g: pixel.g, r: pixel.r }
    }

    fn set(&mut self, pixel: &Rgba) {
        *self = Bgr { b: pixel.b, g: pixel.g, r: pixel.r };
    }
}

impl PixelBlend<Rgb> for Grb {
    /// Every channel blended towards the same channel of the overlay.
    open spec fn blend_pixel_spec(self, overlay: Rgb, opacity: Fract8) -> Self {
        Grb { g: self.g.blend8_spec(overlay.g, opacity), r: self.r.blend8_spec(overlay.r, opacity), b: self.b.blend8_spec(overlay.b, opacity) }
    }

    open spec fn multiply_spec(self, overlay: Rgb) -> Self {
        Grb { g: self.g.scale8_spec(Fract8(overlay.g)), r: self.r.scale8_spec(Fract8(overlay.r)), b: self.b.scale8_spec(Fract8(overlay.b)) }
    }

    proof fn lemma_blend_transparent(self, overlay: Rgb) {
        lemma_blend8_ends(self.g, overlay.g);
        lemma_blend8_ends(self.r, overlay.r);
        lemma_blend8_ends(self.b, overlay.b);
    }

    fn blend_pixel(self, overlay: Rgb, opacity: Fract8) -> (out: Self) {
        Grb { g: self.g.blend8(overlay.g, opacity), r: self.r.blend8(overlay.r, opacity), b: self.b.blend8(overlay.b, opacity) }
    }

    fn multiply(self, overlay: Rgb) -> (out: Self) {
        Grb { g: self.g.scale8(Fract8(overlay.g)), r: self.r.scale8(Fract8(overlay.r)), b: self.b.scale8(Fract8(overlay.b)) }
    }
}

impl PixelBlend<Rgb> for Bgr {
    /// Every channel blended towards the same channel of the overlay.
    open spec fn blend_pixel_spec(self, overlay: Rgb, opacity: Fract8) -> Self {
        Bgr { b: self.b.blend8_spec(overlay.b, opacity), g: self.g.blend8_spec(overlay.g, opacity), r: self.r.blend8_spec(overlay.r, opacity) }
    }

    open spec fn multiply_spec(self, overlay: Rgb) -> Self {
        Bgr { b: self.b.scale8_spec(Fract8(overlay.b)), g: self.g.scale8_spec(Fract8(overlay.g)), r: self.r.scale8_spec(Fract8(overlay.r)) }
    }

    proof fn lemma_blend_transparent(self, overlay: Rgb) {
        lemma_blend8_ends(self.b, overlay.b);
        lemma_blend8_ends(self.g, overlay.g);
        lemma_blend8_ends(self.r, overlay.r);
    }

    fn blend_pixel(self, overlay: Rgb, opacity: Fract8) -> (out: Self) {
        Bgr { b: self.b.blend8(overlay.b, opacity), g: self.g.blend8(overlay.g, opacity), r: self.r.blend8(overlay.r, opacity) }
    }

    fn multiply(self, overlay: Rgb) -> (out: Self) {
        Bgr { b: self.b.scale8(Fract8(overlay.b)), g: self.g.scale8(Fract8(overlay.g)), r: self.r.scale8(Fract8(overlay.r)) }
    }
}

impl PixelBlend<Rgba> for bool {
    /// From one half of opacity on, the pixel is lit where the three
    /// colours of the overlay add up to 128 or more; below, it stays.
    open spec fn blend_pixel_spec(self, overlay: Rgba, opacity: Fract8) -> Self {
        if opacity.0 >= 128 {
            overlay.r + overlay.g + overlay.b >= 128
        } else {
            self
        }
    }

    /// Lit where the mean of the four channels of the overlay is 128 or
    /// more.
    open spec fn multiply_spec(self, overlay: Rgba) -> Self {
        (overlay.r + overlay.g + overlay.b + overlay.a) / 4 >= 128
    }

    proof fn lemma_blend_transparent(self, overlay: Rgba) {
    }

    fn blend_pixel(self, overlay: Rgba, opacity: Fract8) -> (out: Self) {
        if opacity.0 >= 128 {
            overlay.r as u32 + overlay.g as u32 + overlay.b as u32 >= 128
        } else {
            self
        }
    }

    fn multiply(self, overlay: Rgba) -> (out: Self) {
        (overlay.r as u16 + overlay.g as u16 + overlay.b as u16 + overlay.a as u16) / 4 >= 128
    }
}

/// The result of compositing `overlay` onto `pixel` at the given opacity.
pub open spec fn composited<P: PixelBlend<O>, O>(pixel: P, overlay: O, opacity: Fract8) -> P {
    pixel.blend_pixel_spec(overlay, opacity)
}

/// Compositing at opacity 0 leaves the pixel unchanged, whatever the
/// formats of pixel and overlay.
pub proof fn lemma_add_transparent<P: PixelBlend<O>, O>(pixel: P, overlay: O)
    ensures
        composited(pixel, overlay, Fract8(0)) == pixel,
{
    pixel.lemma_blend_transparent(overlay);
}

/// Compositing an overlay of the same format at opacity 255 yields exactly
/// the overlay.
pub proof fn lemma_add_opaque<P: PixelFormat>(pixel: P, overlay: P)
    ensures
        composited(pixel, overlay, Fract8(255)) == overlay,
{
    pixel.lemma_blend_opaque(overlay);
}

/// Compositing an overlay with alpha onto red, green and blue at opacity
/// 255 blends the colour of the overlay in at its own alpha: an overlay of
/// full alpha replaces the colour, and one without alpha leaves it.
pub proof fn lemma_add_opaque_with_alpha(pixel: Rgb, overlay: Rgba)
    ensures
        composited(pixel, overlay, Fract8(255)) == pixel.blend8_spec(
            Rgb { r: overlay.r, g: overlay.g, b: overlay.b },
            Fract8(overlay.a),
        ),
        overlay.a == 255 ==> composited(pixel, overlay, Fract8(255)) == (Rgb {
            r: overlay.r,
            g: overlay.g,
            b: overlay.b,
        }),
        overlay.a == 0 ==> composited(pixel, overlay, Fract8(255)) == pixel,
{
    lemma_scaled_bounds(overlay.a as int, 255);
    lemma_blend8_ends(pixel.r, overlay.r);
    lemma_blend8_ends(pixel.g, overlay.g);
    lemma_blend8_ends(pixel.b, overlay.b);
}

/// For every byte and fraction, blending at fraction 0 is the first byte
/// and at fraction 255 the second, exactly.
pub proof fn lemma_blend_exact_at_ends<T: PixelFormat>(a: T, b: T)
    ensures
        a.blend_pixel_spec(b, Fract8(0)) == a,
        a.blend_pixel_spec(b, Fract8(255)) == b,
{
    a.lemma_blend_transparent(b);
    a.lemma_blend_opaque(b);
}

} // verus!
