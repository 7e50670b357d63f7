//! Buffers of pixels.
use crate::pixels::PixelFormat;
use vstd::prelude::*;

verus! {

/// A buffer of pixels, in memory or on hardware, that is read and written
/// pixel by pixel.
pub trait Pixbuf {
    /// The format of the pixels.
    type Format: PixelFormat;

    /// The pixels in the buffer, in order.
    spec fn pixels(&self) -> Seq<Self::Format>;

    /// Overwrites every pixel with the blank pixel.
    fn blank(&mut self)
        ensures
            final(self).pixels().len() == old(self).pixels().len(),
            forall|i: int|
                0 <= i < final(self).pixels().len() ==> #[trigger] final(self).pixels()[i]
                    == Self::Format::blank_spec(),
    ;

    /// The number of pixels in the buffer.
    fn pixel_count(&self) -> (count: usize)
        ensures
            count == self.pixels().len(),
    ;

    /// Reads one pixel.
    fn pixel(&self, index: usize) -> (pixel: Self::Format)
        requires
            index < self.pixels().len(),
        ensures
            pixel == self.pixels()[index as int],
    ;

    /// Overwrites one pixel.
    fn set_pixel(&mut self, index: usize, pixel: Self::Format)
        requires
            index < old(self).pixels().len(),
        ensures
            final(self).pixels() == old(self).pixels().update(index as int, pixel),
    ;
}

impl<T: PixelFormat> Pixbuf for Vec<T> {
    type Format = T;

    open spec fn pixels(&self) -> Seq<T> {
        self@
    }

    fn blank(&mut self) {
        let count = self.len();
        let mut i: usize = 0;
        while i < count
            invariant
                self@.len() == count,
                i <= count,
                forall|j: int| 0 <= j < i ==> #[trigger] self@[j] == T::blank_spec(),
            decreases count - i,
        {
            self[i] = T::blank();
            i += 1;
        }
    }

    fn pixel_count(&self) -> (count: usize) {
        self.len()
    }

    fn pixel(&self, index: usize) -> (pixel: T) {
        self[index]
    }

    fn set_pixel(&mut self, index: usize, pixel: T) {
        self[index] = pixel;
    }
}

impl<T: PixelFormat, const PIXEL_NUM: usize> Pixbuf for [T; PIXEL_NUM] {
    type Format = T;

    open spec fn pixels(&self) -> Seq<T> {
        self@
    }

    fn blank(&mut self) {
        let mut i: usize = 0;
        while i < PIXEL_NUM
            invariant
                self@.len() == PIXEL_NUM,
                i <= PIXEL_NUM,
                forall|j: int| 0 <= j < i ==> #[trigger] self@[j] == T::blank_spec(),
            decreases PIXEL_NUM - i,
        {
            self[i] = T::blank();
            i += 1;
        }
    }

    fn pixel_count(&self) -> (count: usize) {
        PIXEL_NUM
    }

    fn pixel(&self, index: usize) -> (pixel: T) {
        self[index]
    }

    fn set_pixel(&mut self, index: usize, pixel: T) {
        self[index] = pixel;
    }
}

} // verus!
