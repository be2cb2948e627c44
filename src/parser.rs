//! The chunk scanner: from the bytes of a container to its ordered list of
//! chunk extents.

use vstd::prelude::*;

use crate::bytes::{read_u32_le, read_u64_le, u32_le, u64_le};
use crate::errors::{Error, IoErrorKind};
use crate::fourcc::{
    bw64_sig, data_sig, ds64_sig, fourcc_at, read_fourcc, rf64_sig, FourCC,
};

verus! {

/// Where one chunk's payload lies: `start` is the absolute offset just after
/// its eight-byte header, `length` the resolved payload length.
#[derive(Clone, Copy, Debug, PartialEq, Eq, Structural)]
pub struct ChunkExtent {
    pub signature: FourCC,
    pub start: u64,
    pub length: u64,
}

/// Length of the outer header: form signature, declared size, format signature.
pub const HEADER_LEN: u64 = 12;

/// Whether the form signature at the start of `s` marks an RF64/BW64 container.
pub open spec fn is_rf64(s: Seq<u8>) -> bool {
    fourcc_at(s, 0) == rf64_sig() || fourcc_at(s, 0) == bw64_sig()
}

/// Prepends `done` to a scan result; errors pass through.
pub open spec fn prepend(done: Seq<ChunkExtent>, r: Result<Seq<ChunkExtent>, Error>) -> Result<
    Seq<ChunkExtent>,
    Error,
> {
    match r {
        Ok(rest) => Ok(done + rest),
        Err(e) => Err(e),
    }
}

/// The resolved payload length of a chunk whose header holds `sig` and
/// `size`: the `ds64` data size for `data` in a 64-bit container once a
/// `ds64` has been read, the header field otherwise.
pub open spec fn resolved_length(rf64: bool, sig: FourCC, size: int, data_override: Option<u64>) -> int {
    if rf64 && sig == data_sig() && data_override.is_some() {
        data_override.unwrap() as int
    } else {
        size
    }
}

/// The chunks from offset `pos` on. `riff_size` bounds the outer form (it
/// ends at `8 + riff_size`); `data_override` is the `data` size of the last
/// `ds64` read in a 64-bit container.
pub open spec fn scan_from(
    s: Seq<u8>,
    rf64: bool,
    pos: int,
    riff_size: int,
    data_override: Option<u64>,
) -> Result<Seq<ChunkExtent>, Error>
    decreases s.len() - pos,
{
    if pos < 0 || pos >= 8 + riff_size || pos + 8 > s.len() {
        Ok(seq![])
    } else {
        let sig = fourcc_at(s, pos);
        let size = u32_le(s, pos + 4);
        let ds64 = rf64 && sig == ds64_sig();
        if ds64 && pos + 24 > s.len() {
            Err(Error::IOError(IoErrorKind::UnexpectedEof))
        } else {
            let riff2 = if ds64 { u64_le(s, pos + 8) } else { riff_size };
            let ovr2 = if ds64 { Some(u64_le(s, pos + 16) as u64) } else { data_override };
            let length = resolved_length(rf64, sig, size, data_override);
            let ext = ChunkExtent { signature: sig, start: (pos + 8) as u64, length: length as u64 };
            let next = pos + 8 + length + length % 2;
            if next + 8 > s.len() {
                Ok(seq![ext])
            } else {
                prepend(seq![ext], scan_from(s, rf64, next, riff2, ovr2))
            }
        }
    }
}

/// The chunk list of a container, in stream order, or the failure that
/// stops the scan: a stream shorter than the outer header, or a `ds64` of a
/// 64-bit container cut short before its sizes.
pub open spec fn scan(s: Seq<u8>) -> Result<Seq<ChunkExtent>, Error> {
    if s.len() < HEADER_LEN {
        Err(Error::IOError(IoErrorKind::UnexpectedEof))
    } else {
        scan_from(s, is_rf64(s), HEADER_LEN as int, u32_le(s, 4), None)
    }
}

/// Where the extents of `exts` lie in `s` when they were scanned from
/// offset `pos` on: the first payload starts right after the chunk header at
/// `pos`; each signature is the four bytes eight before its payload; each
/// length is its 32-bit header field, but for `data` in a 64-bit container;
/// and each next payload starts after the previous one, its one pad byte
/// when its length is odd, and an eight-byte header.
pub open spec fn laid_out_from(s: Seq<u8>, exts: Seq<ChunkExtent>, pos: int) -> bool {
    &&& exts.len() > 0 ==> exts[0].start == pos + 8
    &&& forall|k: int|
        0 <= k < exts.len() ==> #[trigger] exts[k].signature == fourcc_at(s, exts[k].start - 8)
    &&& forall|k: int|
        0 <= k < exts.len() ==> (#[trigger] exts[k].length == u32_le(s, exts[k].start - 4) || (
        is_rf64(s) && exts[k].signature == data_sig()))
    &&& forall|k: int|
        0 <= k < exts.len() - 1 ==> #[trigger] exts[k + 1].start == exts[k].start + exts[k].length
            + exts[k].length % 2 + 8
}

proof fn lemma_scan_from_layout(s: Seq<u8>, pos: int, riff_size: int, data_override: Option<u64>)
    requires
        s.len() <= u64::MAX,
        scan_from(s, is_rf64(s), pos, riff_size, data_override) is Ok,
    ensures
        laid_out_from(s, scan_from(s, is_rf64(s), pos, riff_size, data_override).unwrap(), pos),
    decreases s.len() - pos,
{
    let rf64 = is_rf64(s);
    if pos < 0 || pos >= 8 + riff_size || pos + 8 > s.len() {
    } else {
        let sig = fourcc_at(s, pos);
        let size = u32_le(s, pos + 4);
        let ds64 = rf64 && sig == ds64_sig();
        let riff2 = if ds64 { u64_le(s, pos + 8) } else { riff_size };
        let ovr2 = if ds64 { Some(u64_le(s, pos + 16) as u64) } else { data_override };
        let length = resolved_length(rf64, sig, size, data_override);
        let next = pos + 8 + length + length % 2;
        if next + 8 <= s.len() {
            lemma_scan_from_layout(s, next, riff2, ovr2);
            let rest = scan_from(s, rf64, next, riff2, ovr2).unwrap();
            let exts = scan_from(s, rf64, pos, riff_size, data_override).unwrap();
            assert(exts == seq![exts[0]] + rest);
            assert forall|k: int| 0 <= k < exts.len() - 1 implies #[trigger] exts[k + 1].start
                == exts[k].start + exts[k].length + exts[k].length % 2 + 8 by {
                if k > 0 {
                    assert(exts[k] == rest[k - 1]);
                    assert(exts[k + 1] == rest[k]);
                    assert(rest[(k - 1) + 1].start == rest[k - 1].start + rest[k - 1].length
                        + rest[k - 1].length % 2 + 8);
                } else {
                    assert(exts[1] == rest[0]);
                    assert(0 <= size < 0x1_0000_0000);
                    assert(exts[0].length == length);
                    assert(exts[0].start == pos + 8);
                }
            }
            assert forall|k: int| 0 <= k < exts.len() implies #[trigger] exts[k].signature
                == fourcc_at(s, exts[k].start - 8) by {
                if k > 0 {
                    assert(exts[k] == rest[k - 1]);
                }
            }
            assert forall|k: int| 0 <= k < exts.len() implies (#[trigger] exts[k].length == u32_le(
                s,
                exts[k].start - 4,
            ) || (is_rf64(s) && exts[k].signature == data_sig())) by {
                if k > 0 {
                    assert(exts[k] == rest[k - 1]);
                }
            }
        }
    }
}

/// The scanner reports every chunk where the container holds it: the first
/// payload starts at byte 20, after the outer header and its chunk header;
/// each signature and (but for `data` in a 64-bit container) each length
/// are the header fields eight bytes before the payload; and exactly one pad
/// byte follows a payload of odd length before the next chunk header.
pub proof fn lemma_scan_layout(s: Seq<u8>)
    requires
        s.len() <= u64::MAX,
        scan(s) is Ok,
    ensures
        laid_out_from(s, scan(s).unwrap(), HEADER_LEN as int),
{
    lemma_scan_from_layout(s, HEADER_LEN as int, u32_le(s, 4), None);
}

/// Index of the last `ds64` extent before index `k`, or -1 if none.
pub open spec fn last_ds64_before(exts: Seq<ChunkExtent>, k: int) -> int
    decreases k,
{
    if k <= 0 || k > exts.len() {
        -1
    } else if exts[k - 1].signature == ds64_sig() {
        k - 1
    } else {
        last_ds64_before(exts, k - 1)
    }
}

proof fn lemma_last_ds64_range(exts: Seq<ChunkExtent>, k: int)
    requires
        0 <= k,
    ensures
        -1 <= last_ds64_before(exts, k) < k,
    decreases k,
{
    if k > 0 && k <= exts.len() {
        lemma_last_ds64_range(exts, k - 1);
    }
}

proof fn lemma_last_ds64_cons(e: ChunkExtent, rest: Seq<ChunkExtent>, k: int)
    requires
        1 <= k <= rest.len() + 1,
    ensures
        last_ds64_before(seq![e] + rest, k) == if last_ds64_before(rest, k - 1) >= 0 {
            last_ds64_before(rest, k - 1) + 1
        } else if e.signature == ds64_sig() {
            0
        } else {
            -1
        },
    decreases k,
{
    let x = seq![e] + rest;
    assert(x[0] == e);
    assert(last_ds64_before(x, 0) == -1);
    assert(last_ds64_before(rest, 0) == -1);
    if k > 1 {
        assert(x[k - 1] == rest[k - 2]);
        lemma_last_ds64_cons(e, rest, k - 1);
    }
}

/// What each `data` length of `exts`, scanned from a 64-bit container,
/// comes from: the data size of the last `ds64` before it, or `data_override`
/// where there is none.
pub open spec fn data_lengths_from(s: Seq<u8>, exts: Seq<ChunkExtent>, data_override: Option<u64>) -> bool {
    forall|k: int|
        0 <= k < exts.len() && #[trigger] exts[k].signature == data_sig() ==> {
            let j = last_ds64_before(exts, k);
            if j >= 0 {
                exts[k].length == u64_le(s, exts[j].start + 8)
            } else if data_override.is_some() {
                exts[k].length == data_override.unwrap()
            } else {
                exts[k].length == u32_le(s, exts[k].start - 4)
            }
        }
}

proof fn lemma_scan_from_data_lengths(s: Seq<u8>, pos: int, riff_size: int, data_override: Option<u64>)
    requires
        s.len() <= u64::MAX,
        is_rf64(s),
        scan_from(s, true, pos, riff_size, data_override) is Ok,
    ensures
        data_lengths_from(s, scan_from(s, true, pos, riff_size, data_override).unwrap(), data_override),
    decreases s.len() - pos,
{
    if pos < 0 || pos >= 8 + riff_size || pos + 8 > s.len() {
    } else {
        let sig = fourcc_at(s, pos);
        let size = u32_le(s, pos + 4);
        let ds64 = sig == ds64_sig();
        let riff2 = if ds64 { u64_le(s, pos + 8) } else { riff_size };
        let ovr2 = if ds64 { Some(u64_le(s, pos + 16) as u64) } else { data_override };
        let length = resolved_length(true, sig, size, data_override);
        let next = pos + 8 + length + length % 2;
        let exts = scan_from(s, true, pos, riff_size, data_override).unwrap();
        assert(0 <= size < 0x1_0000_0000);
        assert(exts[0].start == pos + 8);
        if next + 8 <= s.len() {
            lemma_scan_from_data_lengths(s, next, riff2, ovr2);
            let rest = scan_from(s, true, next, riff2, ovr2).unwrap();
            assert(exts == seq![exts[0]] + rest);
            assert forall|k: int|
                0 <= k < exts.len() && #[trigger] exts[k].signature == data_sig() implies {
                let j = last_ds64_before(exts, k);
                if j >= 0 {
                    exts[k].length == u64_le(s, exts[j].start + 8)
                } else if data_override.is_some() {
                    exts[k].length == data_override.unwrap()
                } else {
                    exts[k].length == u32_le(s, exts[k].start - 4)
                }
            } by {
                if k > 0 {
                    lemma_last_ds64_cons(exts[0], rest, k);
                    assert(exts[k] == rest[k - 1]);
                    let j2 = last_ds64_before(rest, k - 1);
                    lemma_last_ds64_range(rest, k - 1);
                    if j2 >= 0 {
                        assert(exts[j2 + 1] == rest[j2]);
                    }
                }
            }
        }
    }
}

/// In an RF64/BW64 container the length of each `data` chunk is the data
/// size of the last `ds64` chunk before it, whatever its own 32-bit header
/// field holds; only where no `ds64` precedes it is that field used.
pub proof fn lemma_ds64_override(s: Seq<u8>)
    requires
        s.len() <= u64::MAX,
        is_rf64(s),
        scan(s) is Ok,
    ensures
        data_lengths_from(s, scan(s).unwrap(), None),
{
    lemma_scan_from_data_lengths(s, HEADER_LEN as int, u32_le(s, 4), None);
}

/// Scans the container in `s` into its chunk extents.
pub fn scan_chunks(s: &Vec<u8>) -> (r: Result<Vec<ChunkExtent>, Error>)
    ensures
        match r {
            Ok(v) => scan(s@) == Ok::<Seq<ChunkExtent>, Error>(v@),
            Err(e) => scan(s@) == Err::<Seq<ChunkExtent>, Error>(e),
        },
{
    let n = s.len();
    if n < 12 {
        return Err(Error::IOError(IoErrorKind::UnexpectedEof));
    }
    let form = read_fourcc(s, 0);
    let rf64 = form == rf64_sig() || form == bw64_sig();
    let mut riff_size: u64 = read_u32_le(s, 4) as u64;
    let mut data_override: Option<u64> = None;
    let mut pos: usize = 12;
    let mut out: Vec<ChunkExtent> = Vec::new();
    loop
        invariant
            n == s@.len(),
            rf64 == is_rf64(s@),
            12 <= pos <= n,
            scan(s@) == prepend(out@, scan_from(s@, rf64, pos as int, riff_size as int, data_override)),
        decreases n - pos,
    {
        if (pos as u64) - 8 >= riff_size || pos > n - 8 {
            assert(out@ + seq![] =~= out@);
            return Ok(out);
        }
        let sig = read_fourcc(s, pos);
        let size = read_u32_le(s, pos + 4) as u64;
        let ds64 = rf64 && sig == ds64_sig();
        if ds64 && (n < 24 || pos > n - 24) {
            return Err(Error::IOError(IoErrorKind::UnexpectedEof));
        }
        let length: u64 = if rf64 && sig == data_sig() && data_override.is_some() {
            data_override.unwrap()
        } else {
            size
        };
        let ext = ChunkExtent { signature: sig, start: (pos + 8) as u64, length };
        if ds64 {
            riff_size = read_u64_le(s, pos + 8);
            data_override = Some(read_u64_le(s, pos + 16));
        }
        let ghost before = out@;
        out.push(ext);
        let room = (n - (pos + 8)) as u64;
        if length > room || room - length < length % 2 + 8 {
            assert(before + seq![ext] =~= out@);
            return Ok(out);
        }
        proof {
            let next = (pos + 8 + length + length % 2) as int;
            match scan_from(s@, rf64, next, riff_size as int, data_override) {
                Ok(rest) => {
                    assert(before + (seq![ext] + rest) =~= out@ + rest);
                },
                Err(_) => {},
            }
        }
        pos = pos + 8 + (length + length % 2) as usize;
    }
}

} // verus!
