//! Decodes the frames of a `data` payload into per-channel samples.
//!
//! Integer samples are widened to `i32` by sign extension: a sample keeps its
//! value, not its scale. 8-bit samples, which are stored unsigned, have 128
//! taken off first. Float samples are handed out as their raw IEEE words.

use vstd::prelude::*;

use crate::bytes::{read_u16_le, read_u24_le, read_u32_le, read_u64_le, uint_le};
use crate::errors::Error;
use crate::fmt::{format_supported, sample_width, WaveFmt};
use crate::raw_chunk_reader::RawChunkReader;

verus! {

/// The value of the integer sample of `width` bytes at `p`.
pub open spec fn int_sample(s: Seq<u8>, p: int, width: int) -> int {
    let u = uint_le(s, p, width);
    if width == 1 {
        u - 128
    } else if width == 2 {
        if u >= 0x8000 { u - 0x1_0000 } else { u }
    } else if width == 3 {
        if u >= 0x80_0000 { u - 0x100_0000 } else { u }
    } else {
        if u >= 0x8000_0000 { u - 0x1_0000_0000 } else { u }
    }
}

fn decode_int_sample(s: &Vec<u8>, p: usize, width: usize) -> (r: i32)
    requires
        width == 1 || width == 2 || width == 3 || width == 4,
        p + width <= s@.len(),
    ensures
        r as int == int_sample(s@, p as int, width as int),
{
    if width == 1 {
        s[p] as i32 - 128
    } else if width == 2 {
        let u = read_u16_le(s, p) as i32;
        if u >= 0x8000 { u - 0x1_0000 } else { u }
    } else if width == 3 {
        let u = read_u24_le(s, p) as i32;
        if u >= 0x80_0000 { u - 0x100_0000 } else { u }
    } else {
        let u = read_u32_le(s, p) as i64;
        if u >= 0x8000_0000 { (u - 0x1_0000_0000) as i32 } else { u as i32 }
    }
}

fn decode_float_word(s: &Vec<u8>, p: usize, width: usize) -> (r: u64)
    requires
        width == 4 || width == 8,
        p + width <= s@.len(),
    ensures
        r as int == uint_le(s@, p as int, width as int),
{
    if width == 4 {
        read_u32_le(s, p) as u64
    } else {
        read_u64_le(s, p)
    }
}

/// Reads frames of `format` from a bounded reader over a `data` payload.
/// The reader's position is the byte offset of the next frame.
pub struct AudioFrameReader<'a> {
    pub inner: RawChunkReader<'a>,
    pub format: WaveFmt,
}

impl<'a> AudioFrameReader<'a> {
    pub open spec fn wf(&self) -> bool {
        self.inner.wf() && format_supported(self.format)
    }

    /// Whether a whole frame lies between the position and the end of the payload.
    pub open spec fn frame_available(&self) -> bool {
        self.inner.pos + self.format.block_alignment <= self.inner.length
    }

    /// Absolute offset of sample `c` of the frame at the position.
    pub open spec fn sample_offset(&self, c: int) -> int {
        self.inner.start + self.inner.pos + c * sample_width(self.format)
    }

    /// A frame reader over `inner`, starting where `inner` stands.
    pub fn new(inner: RawChunkReader<'a>, format: WaveFmt) -> (r: AudioFrameReader<'a>)
        requires
            inner.wf(),
            format_supported(format),
        ensures
            r.wf(),
            r.inner == inner,
            r.format == format,
    {
        AudioFrameReader { inner, format }
    }

    /// A zeroed buffer of one sample per channel.
    pub fn create_frame_buffer(&self) -> (r: Vec<i32>)
        ensures
            r@.len() == self.format.channel_count,
            forall|i: int| 0 <= i < r@.len() ==> r@[i] == 0,
    {
        let mut r: Vec<i32> = Vec::new();
        let mut i: u16 = 0;
        while i < self.format.channel_count
            invariant
                i <= self.format.channel_count,
                r@.len() == i,
                forall|k: int| 0 <= k < r@.len() ==> r@[k] == 0,
            decreases self.format.channel_count - i,
        {
            r.push(0);
            i = i + 1;
        }
        r
    }

    /// Moves to frame `to` and returns it. A frame past the end is allowed;
    /// the next read there yields no frame. An offset beyond `u64` is held
    /// at `u64::MAX`, which is past the end as well.
    pub fn locate(&mut self, to: u64) -> (r: u64)
        requires
            old(self).wf(),
        ensures
            r == to,
            final(self).wf(),
            final(self).format == old(self).format,
            final(self).inner == (RawChunkReader {
                pos: if to * old(self).format.block_alignment <= u64::MAX {
                    (to * old(self).format.block_alignment) as u64
                } else {
                    u64::MAX
                },
                ..old(self).inner
            }),
    {
        let ba = self.format.block_alignment as u64;
        let offset = match to.checked_mul(ba) {
            Some(v) => v,
            None => u64::MAX,
        };
        self.inner.seek_to(offset);
        to
    }

    /// Decodes the next frame into `buffer` as integers and returns the
    /// number of frames read: 1, or 0 where less than a whole frame is left,
    /// in which case nothing changes. A float format is refused.
    pub fn read_integer_frame(&mut self, buffer: &mut Vec<i32>) -> (r: Result<u64, Error>)
        requires
            old(self).wf(),
            old(buffer)@.len() == old(self).format.channel_count,
        ensures
            final(self).wf(),
            final(self).format == old(self).format,
            final(buffer)@.len() == old(buffer)@.len(),
            old(self).format.is_float ==> r == Err::<u64, Error>(
                Error::UnsupportedSampleRepresentation,
            ) && *final(self) == *old(self) && final(buffer)@ == old(buffer)@,
            !old(self).format.is_float && !old(self).frame_available() ==> r == Ok::<u64, Error>(0)
                && *final(self) == *old(self) && final(buffer)@ == old(buffer)@,
            !old(self).format.is_float && old(self).frame_available() ==> r == Ok::<u64, Error>(1)
                && final(self).inner == (RawChunkReader {
                pos: (old(self).inner.pos + old(self).format.block_alignment) as u64,
                ..old(self).inner
            }) && forall|c: int|
                0 <= c < old(buffer)@.len() ==> final(buffer)@[c] as int == int_sample(
                    old(self).inner.stream@,
                    old(self).sample_offset(c),
                    sample_width(old(self).format),
                ),
    {
        if self.format.is_float {
            return Err(Error::UnsupportedSampleRepresentation);
        }
        let ba = self.format.block_alignment as u64;
        if self.inner.pos > self.inner.length || ba > self.inner.length - self.inner.pos {
            return Ok(0);
        }
        let total = self.inner.stream.len();
        let width = (self.format.bits_per_sample / 8) as usize;
        let cc = self.format.channel_count as usize;
        let base = (self.inner.start + self.inner.pos) as usize;
        let mut off: usize = base;
        let mut c: usize = 0;
        while c < cc
            invariant
                self.wf(),
                !self.format.is_float,
                self.frame_available(),
                total == self.inner.stream@.len(),
                *self == *old(self),
                width as int == sample_width(self.format),
                width == 1 || width == 2 || width == 3 || width == 4,
                cc == self.format.channel_count,
                cc as int * width as int == self.format.block_alignment,
                base == self.inner.start + self.inner.pos,
                c <= cc,
                off == base + c * width,
                buffer@.len() == cc,
                forall|k: int|
                    0 <= k < c ==> buffer@[k] as int == int_sample(
                        self.inner.stream@,
                        self.sample_offset(k),
                        width as int,
                    ),
            decreases cc - c,
        {
            assert((c + 1) * width <= cc * width) by (nonlinear_arith)
                requires
                    c + 1 <= cc,
            ;
            assert(off + width <= base + cc * width) by (nonlinear_arith)
                requires
                    off == base + c * width,
                    (c + 1) * width <= cc * width,
            ;
            let v = decode_int_sample(self.inner.stream, off, width);
            buffer.set(c, v);
            off = off + width;
            c = c + 1;
            assert(off == base + c * width) by (nonlinear_arith)
                requires
                    off == base + (c - 1) * width + width,
            ;
        }
        self.inner.pos = self.inner.pos + ba;
        Ok(1)
    }

    /// Reads the next frame of a float format into `buffer` as raw IEEE
    /// words (32-bit words in the low half) and returns the number of frames
    /// read: 1, or 0 where less than a whole frame is left, in which case
    /// nothing changes. An integer format is refused.
    pub fn read_float_frame_bits(&mut self, buffer: &mut Vec<u64>) -> (r: Result<u64, Error>)
        requires
            old(self).wf(),
            old(buffer)@.len() == old(self).format.channel_count,
        ensures
            final(self).wf(),
            final(self).format == old(self).format,
            final(buffer)@.len() == old(buffer)@.len(),
            !old(self).format.is_float ==> r == Err::<u64, Error>(
                Error::UnsupportedSampleRepresentation,
            ) && *final(self) == *old(self) && final(buffer)@ == old(buffer)@,
            old(self).format.is_float && !old(self).frame_available() ==> r == Ok::<u64, Error>(0)
                && *final(self) == *old(self) && final(buffer)@ == old(buffer)@,
            old(self).format.is_float && old(self).frame_available() ==> r == Ok::<u64, Error>(1)
                && final(self).inner == (RawChunkReader {
                pos: (old(self).inner.pos + old(self).format.block_alignment) as u64,
                ..old(self).inner
            }) && forall|c: int|
                0 <= c < old(buffer)@.len() ==> final(buffer)@[c] as int == uint_le(
                    old(self).inner.stream@,
                    old(self).sample_offset(c),
                    sample_width(old(self).format),
                ),
    {
        if !self.format.is_float {
            return Err(Error::UnsupportedSampleRepresentation);
        }
        let ba = self.format.block_alignment as u64;
        if self.inner.pos > self.inner.length || ba > self.inner.length - self.inner.pos {
            return Ok(0);
        }
        let total = self.inner.stream.len();
        let width = (self.format.bits_per_sample / 8) as usize;
        let cc = self.format.channel_count as usize;
        let base = (self.inner.start + self.inner.pos) as usize;
        let mut off: usize = base;
        let mut c: usize = 0;
        while c < cc
            invariant
                self.wf(),
                self.format.is_float,
                self.frame_available(),
                total == self.inner.stream@.len(),
                *self == *old(self),
                width as int == sample_width(self.format),
                width == 4 || width == 8,
                cc == self.format.channel_count,
                cc as int * width as int == self.format.block_alignment,
                base == self.inner.start + self.inner.pos,
                c <= cc,
                off == base + c * width,
                buffer@.len() == cc,
                forall|k: int|
                    0 <= k < c ==> buffer@[k] as int == uint_le(
                        self.inner.stream@,
                        self.sample_offset(k),
                        width as int,
                    ),
            decreases cc - c,
        {
            assert((c + 1) * width <= cc * width) by (nonlinear_arith)
                requires
                    c + 1 <= cc,
            ;
            assert(off + width <= base + cc * width) by (nonlinear_arith)
                requires
                    off == base + c * width,
                    (c + 1) * width <= cc * width,
            ;
            let v = decode_float_word(self.inner.stream, off, width);
            buffer.set(c, v);
            off = off + width;
            c = c + 1;
            assert(off == base + c * width) by (nonlinear_arith)
                requires
                    off == base + (c - 1) * width + width,
            ;
        }
        self.inner.pos = self.inner.pos + ba;
        Ok(1)
    }
}

} // verus!
