//! The sample-format descriptor carried by the `fmt ` chunk.

use vstd::prelude::*;

use crate::bytes::{read_u16_le, read_u32_le, u16_le, u32_le};
use crate::errors::Error;

verus! {

/// Format tag of integer PCM.
pub const WAVE_TAG_PCM: u16 = 0x0001;
/// Format tag of IEEE float PCM.
pub const WAVE_TAG_FLOAT: u16 = 0x0003;
/// Format tag of the extensible layout, which names its encoding by a GUID.
pub const WAVE_TAG_EXTENSIBLE: u16 = 0xFFFE;

/// Size of the basic `fmt ` body.
pub const FMT_BASIC_LEN: u64 = 16;
/// Size of the extensible `fmt ` body.
pub const FMT_EXTENSIBLE_LEN: u64 = 40;

/// How the samples of a `data` chunk are laid out.
#[derive(Clone, Copy, Debug, PartialEq, Eq, Structural)]
pub struct WaveFmt {
    pub tag: u16,
    pub channel_count: u16,
    pub sample_rate: u32,
    pub bytes_per_second: u32,
    pub block_alignment: u16,
    pub bits_per_sample: u16,
    pub valid_bits_per_sample: Option<u16>,
    pub channel_mask: Option<u32>,
    pub is_float: bool,
}

/// The bytes 2 to 15 of a sub-format GUID shared by the PCM and float
/// profiles, at `p + 2`, after the sub-format's own tag.
pub open spec fn guid_tail_ok(b: Seq<u8>, p: int) -> bool {
    &&& b[p + 2] == 0x00 && b[p + 3] == 0x00
    &&& b[p + 4] == 0x00 && b[p + 5] == 0x00
    &&& b[p + 6] == 0x10 && b[p + 7] == 0x00
    &&& b[p + 8] == 0x80 && b[p + 9] == 0x00
    &&& b[p + 10] == 0x00 && b[p + 11] == 0xaa
    &&& b[p + 12] == 0x00 && b[p + 13] == 0x38
    &&& b[p + 14] == 0x9b && b[p + 15] == 0x71
}

/// Bytes of one sample of `f`.
pub open spec fn sample_width(f: WaveFmt) -> int {
    f.bits_per_sample as int / 8
}

/// A format the frame reader decodes: at least one channel, whole-byte
/// samples of a supported depth, and frames of exactly one sample per channel.
pub open spec fn format_supported(f: WaveFmt) -> bool {
    &&& f.channel_count >= 1
    &&& if f.is_float {
        f.bits_per_sample == 32 || f.bits_per_sample == 64
    } else {
        f.bits_per_sample == 8 || f.bits_per_sample == 16 || f.bits_per_sample == 24
            || f.bits_per_sample == 32
    }
    &&& f.block_alignment as int == f.channel_count as int * sample_width(f)
}

/// The descriptor that the `fmt ` payload `b` holds, or `MalformedFmtChunk`
/// where `b` is too short for its tag, names an encoding other than linear
/// integer or float PCM, or describes a layout that `format_supported` rejects.
pub open spec fn parse_fmt(b: Seq<u8>) -> Result<WaveFmt, Error> {
    if b.len() < FMT_BASIC_LEN {
        Err(Error::MalformedFmtChunk)
    } else {
        let tag = u16_le(b, 0);
        let ext = tag == WAVE_TAG_EXTENSIBLE;
        if ext && b.len() < FMT_EXTENSIBLE_LEN {
            Err(Error::MalformedFmtChunk)
        } else {
            let sub = u16_le(b, 24);
            let is_float = tag == WAVE_TAG_FLOAT || (ext && sub == WAVE_TAG_FLOAT);
            let known = tag == WAVE_TAG_PCM || tag == WAVE_TAG_FLOAT || (ext && guid_tail_ok(b, 24)
                && (sub == WAVE_TAG_PCM || sub == WAVE_TAG_FLOAT));
            let f = WaveFmt {
                tag: tag as u16,
                channel_count: u16_le(b, 2) as u16,
                sample_rate: u32_le(b, 4) as u32,
                bytes_per_second: u32_le(b, 8) as u32,
                block_alignment: u16_le(b, 12) as u16,
                bits_per_sample: u16_le(b, 14) as u16,
                valid_bits_per_sample: if ext { Some(u16_le(b, 18) as u16) } else { None },
                channel_mask: if ext { Some(u32_le(b, 20) as u32) } else { None },
                is_float,
            };
            if known && format_supported(f) {
                Ok(f)
            } else {
                Err(Error::MalformedFmtChunk)
            }
        }
    }
}

/// Parses the `fmt ` payload `s[start..start + len]`.
pub fn parse_fmt_at(s: &Vec<u8>, start: usize, len: usize) -> (r: Result<WaveFmt, Error>)
    requires
        start + len <= s@.len(),
    ensures
        r == parse_fmt(s@.subrange(start as int, start + len)),
{
    let ghost b = s@.subrange(start as int, start + len);
    let n = s.len();
    assert(start + len <= n);
    if len < 16 {
        return Err(Error::MalformedFmtChunk);
    }
    let tag = read_u16_le(s, start);
    let ext = tag == WAVE_TAG_EXTENSIBLE;
    if ext && len < 40 {
        return Err(Error::MalformedFmtChunk);
    }
    let mut sub: u16 = 0;
    let mut tail_ok = false;
    let mut valid_bits: Option<u16> = None;
    let mut mask: Option<u32> = None;
    if ext {
        sub = read_u16_le(s, start + 24);
        let p = start + 24;
        tail_ok = s[p + 2] == 0x00 && s[p + 3] == 0x00 && s[p + 4] == 0x00 && s[p + 5] == 0x00
            && s[p + 6] == 0x10 && s[p + 7] == 0x00 && s[p + 8] == 0x80 && s[p + 9] == 0x00
            && s[p + 10] == 0x00 && s[p + 11] == 0xaa && s[p + 12] == 0x00 && s[p + 13] == 0x38
            && s[p + 14] == 0x9b && s[p + 15] == 0x71;
        valid_bits = Some(read_u16_le(s, start + 18));
        mask = Some(read_u32_le(s, start + 20));
        assert(tail_ok == guid_tail_ok(b, 24));
        assert(sub as int == u16_le(b, 24));
    }
    let is_float = tag == WAVE_TAG_FLOAT || (ext && sub == WAVE_TAG_FLOAT);
    let known = tag == WAVE_TAG_PCM || tag == WAVE_TAG_FLOAT || (ext && tail_ok && (sub
        == WAVE_TAG_PCM || sub == WAVE_TAG_FLOAT));
    let f = WaveFmt {
        tag,
        channel_count: read_u16_le(s, start + 2),
        sample_rate: read_u32_le(s, start + 4),
        bytes_per_second: read_u32_le(s, start + 8),
        block_alignment: read_u16_le(s, start + 12),
        bits_per_sample: read_u16_le(s, start + 14),
        valid_bits_per_sample: valid_bits,
        channel_mask: mask,
        is_float,
    };
    let bits = f.bits_per_sample;
    let depth_ok = if is_float {
        bits == 32 || bits == 64
    } else {
        bits == 8 || bits == 16 || bits == 24 || bits == 32
    };
    let width = (bits / 8) as u64;
    assert(f.channel_count as u64 * width <= 0xffff * 0x2000) by (nonlinear_arith)
        requires
            f.channel_count <= 0xffff,
            width <= 0x2000,
    ;
    let supported = f.channel_count >= 1 && depth_ok && f.block_alignment as u64
        == f.channel_count as u64 * width;
    if known && supported {
        Ok(f)
    } else {
        Err(Error::MalformedFmtChunk)
    }
}

} // verus!
