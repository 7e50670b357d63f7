//! The bit patterns that drive a WS2812 strip from a serial bus: every two
//! bits of colour are sent as one byte whose long or short pulses the
//! strip reads as ones or zeros.
use crate::pixels::Rgb;
use vstd::prelude::*;

verus! {

/// The byte that sends two bits: a pulse of three ones for a one and a
/// pulse of one one for a zero, the higher bit in the upper half.
pub open spec fn spi_pattern(pair: int) -> u8 {
    if pair == 0 {
        0b1000_1000u8
    } else if pair == 1 {
        0b1000_1110u8
    } else if pair == 2 {
        0b1110_1000u8
    } else {
        0b1110_1110u8
    }
}

/// The four bytes that send one byte of colour, its highest two bits
/// first.
pub open spec fn spi_encoded(byte: u8) -> Seq<u8> {
    seq![
        spi_pattern(byte as int / 64),
        spi_pattern(byte as int / 16 % 4),
        spi_pattern(byte as int / 4 % 4),
        spi_pattern(byte as int % 4),
    ]
}

/// The state of a writer: what the buffer holds, and where the next byte
/// goes.
pub struct SpiState {
    /// The bytes of the buffer.
    pub data: Seq<u8>,
    /// The place of the next byte.
    pub idx: int,
}

/// The state after one byte of colour was written: where four bytes of
/// room are left, its four bytes are written and the place moves on by
/// four; else nothing changes.
pub open spec fn spi_step(state: SpiState, byte: u8) -> SpiState {
    if 0 <= state.idx && state.idx + 4 <= state.data.len() {
        SpiState {
            data: state.data.subrange(0, state.idx) + spi_encoded(byte) + state.data.subrange(
                state.idx + 4,
                state.data.len() as int,
            ),
            idx: state.idx + 4,
        }
    } else {
        state
    }
}

/// The state after a pixel was written: green, then red, then blue.
pub open spec fn spi_pixel_step(state: SpiState, pixel: Rgb) -> SpiState {
    spi_step(spi_step(spi_step(state, pixel.g), pixel.r), pixel.b)
}

/// The state after the first `count` pixels were written.
pub open spec fn spi_stream(state: SpiState, pixels: Seq<Rgb>, count: nat) -> SpiState
    decreases count,
{
    if count == 0 {
        state
    } else {
        spi_pixel_step(spi_stream(state, pixels, (count - 1) as nat), pixels[count - 1])
    }
}

/// Writes the bit patterns of pixels into a buffer for the serial bus.
pub struct SpiPixelWriter<'a> {
    /// The place of the next byte.
    pub idx: usize,
    /// The buffer.
    pub data: &'a mut [u8],
}

impl<'a> SpiPixelWriter<'a> {
    /// The state of the writer.
    pub open spec fn state(&self) -> SpiState {
        SpiState { data: self.data@, idx: self.idx as int }
    }

    /// A writer at the start of a buffer.
    pub fn new(data: &'a mut [u8]) -> (writer: Self)
        ensures
            writer.state() == (SpiState { data: old(data)@, idx: 0 }),
            final(writer.data)@ == final(data)@,
    {
        SpiPixelWriter { idx: 0, data }
    }

    /// Writes the four bytes that send one byte of colour, where the
    /// buffer has room for them.
    pub fn write_byte(&mut self, data: u8)
        ensures
            final(self).state() == spi_step(old(self).state(), data),
            final(final(self).data)@ == final(old(self).data)@,
    {
        let len: usize = self.data.len();
        if len < 4 || self.idx > len - 4 {
            return ;
        }
        let ghost before = self.data@;
        let start: usize = self.idx;
        self.data[start] = pattern_for(data / 64);
        self.data[start + 1] = pattern_for(data / 16 % 4);
        self.data[start + 2] = pattern_for(data / 4 % 4);
        self.data[start + 3] = pattern_for(data % 4);
        self.idx = start + 4;
        assert(self.data@ =~= before.subrange(0, start as int) + spi_encoded(data)
            + before.subrange(start + 4, len as int));
    }

    /// Writes the bit patterns of the pixels, each as green, red and blue,
    /// as far as the buffer has room, and returns the place after the last
    /// byte written.
    pub fn write(&mut self, pixels: &[Rgb]) -> (end: usize)
        ensures
            final(self).state() == spi_stream(old(self).state(), pixels@, pixels@.len()),
            end == final(self).idx,
            final(final(self).data)@ == final(old(self).data)@,
    {
        let count: usize = pixels.len();
        let mut i: usize = 0;
        while i < count
            invariant
                i <= count,
                count == pixels@.len(),
                self.state() == spi_stream(old(self).state(), pixels@, i as nat),
                final(self.data)@ == final(old(self).data)@,
            decreases count - i,
        {
            let color: Rgb = pixels[i];
            self.write_byte(color.g);
            self.write_byte(color.r);
            self.write_byte(color.b);
            i += 1;
        }
        self.idx
    }
}

fn pattern_for(pair: u8) -> (pattern: u8)
    requires
        pair < 4,
    ensures
        pattern == spi_pattern(pair as int),
{
    if pair == 0 {
        0b1000_1000
    } else if pair == 1 {
        0b1000_1110
    } else if pair == 2 {
        0b1110_1000
    } else {
        0b1110_1110
    }
}

} // verus!
