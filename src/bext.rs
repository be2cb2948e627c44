//! The Broadcast-WAVE metadata record of a `bext` chunk, field by field.
//! Text fields are handed out as their raw fixed-width bytes.

use vstd::prelude::*;

use crate::bytes::{read_u16_le, read_u64_le, u16_le, u64_le};
use crate::errors::{Error, IoErrorKind};
use crate::raw_chunk_reader::copy_range;

verus! {

/// Size of the fixed part of the record; the coding history follows it.
pub const BEXT_FIXED_LEN: u64 = 602;

/// A `bext` record.
#[derive(Clone, Debug)]
pub struct Bext {
    pub description: Vec<u8>,
    pub originator: Vec<u8>,
    pub originator_reference: Vec<u8>,
    pub origination_date: Vec<u8>,
    pub origination_time: Vec<u8>,
    pub time_reference: u64,
    pub version: u16,
    /// Present from version 1 on.
    pub umid: Option<Vec<u8>>,
    /// The loudness fields, in hundredths, present from version 2 on.
    pub loudness_value: Option<i16>,
    pub loudness_range: Option<i16>,
    pub max_true_peak_level: Option<i16>,
    pub max_momentary_loudness: Option<i16>,
    pub max_short_term_loudness: Option<i16>,
    pub coding_history: Vec<u8>,
}

/// The signed little-endian 16-bit value at `p`.
pub open spec fn i16_le(b: Seq<u8>, p: int) -> int {
    let u = u16_le(b, p);
    if u >= 0x8000 { u - 0x1_0000 } else { u }
}

/// A loudness field at `p`, present from version 2 on.
pub open spec fn loudness_field(b: Seq<u8>, p: int) -> Option<i16> {
    if u16_le(b, 346) >= 2 { Some(i16_le(b, p) as i16) } else { None }
}

/// Whether `x` is the record that the payload `b` holds; `b` is at least
/// `BEXT_FIXED_LEN` long.
pub open spec fn bext_matches(x: Bext, b: Seq<u8>) -> bool {
    &&& x.description@ == b.subrange(0, 256)
    &&& x.originator@ == b.subrange(256, 288)
    &&& x.originator_reference@ == b.subrange(288, 320)
    &&& x.origination_date@ == b.subrange(320, 330)
    &&& x.origination_time@ == b.subrange(330, 338)
    &&& x.time_reference as int == u64_le(b, 338)
    &&& x.version as int == u16_le(b, 346)
    &&& (x.version >= 1) == x.umid.is_some()
    &&& x.version >= 1 ==> x.umid.unwrap()@ == b.subrange(348, 412)
    &&& x.loudness_value == loudness_field(b, 412)
    &&& x.loudness_range == loudness_field(b, 414)
    &&& x.max_true_peak_level == loudness_field(b, 416)
    &&& x.max_momentary_loudness == loudness_field(b, 418)
    &&& x.max_short_term_loudness == loudness_field(b, 420)
    &&& x.coding_history@ == b.subrange(BEXT_FIXED_LEN as int, b.len() as int)
}

fn read_loudness(s: &Vec<u8>, p: usize, version: u16) -> (r: Option<i16>)
    requires
        p + 2 <= s@.len(),
    ensures
        r == (if version >= 2 {
            Some(i16_le(s@, p as int) as i16)
        } else {
            None::<i16>
        }),
{
    if version >= 2 {
        let u = read_u16_le(s, p) as i32;
        let v: i32 = if u >= 0x8000 { u - 0x1_0000 } else { u };
        Some(v as i16)
    } else {
        None
    }
}

/// Decodes the `bext` payload `s[start..start + len]`. Fails where the
/// payload is shorter than the fixed part of the record.
pub fn parse_bext_at(s: &Vec<u8>, start: usize, len: usize) -> (r: Result<Bext, Error>)
    requires
        start + len <= s@.len(),
    ensures
        match r {
            Ok(x) => len >= BEXT_FIXED_LEN && bext_matches(x, s@.subrange(start as int, start + len)),
            Err(e) => len < BEXT_FIXED_LEN && e == Error::IOError(IoErrorKind::UnexpectedEof),
        },
{
    let ghost b = s@.subrange(start as int, start + len);
    let n = s.len();
    assert(start + len <= n);
    if len < 602 {
        return Err(Error::IOError(IoErrorKind::UnexpectedEof));
    }
    let version = read_u16_le(s, start + 346);
    let umid = if version >= 1 {
        Some(copy_range(s, start + 348, start + 412))
    } else {
        None
    };
    let x = Bext {
        description: copy_range(s, start, start + 256),
        originator: copy_range(s, start + 256, start + 288),
        originator_reference: copy_range(s, start + 288, start + 320),
        origination_date: copy_range(s, start + 320, start + 330),
        origination_time: copy_range(s, start + 330, start + 338),
        time_reference: read_u64_le(s, start + 338),
        version,
        umid,
        loudness_value: read_loudness(s, start + 412, version),
        loudness_range: read_loudness(s, start + 414, version),
        max_true_peak_level: read_loudness(s, start + 416, version),
        max_momentary_loudness: read_loudness(s, start + 418, version),
        max_short_term_loudness: read_loudness(s, start + 420, version),
        coding_history: copy_range(s, start + 602, start + len),
    };
    assert(x.description@ =~= b.subrange(0, 256));
    assert(x.originator@ =~= b.subrange(256, 288));
    assert(x.originator_reference@ =~= b.subrange(288, 320));
    assert(x.origination_date@ =~= b.subrange(320, 330));
    assert(x.origination_time@ =~= b.subrange(330, 338));
    assert(version >= 1 ==> x.umid.unwrap()@ =~= b.subrange(348, 412));
    assert(x.coding_history@ =~= b.subrange(602, b.len() as int));
    Ok(x)
}

} // verus!
