//! The container facade: chunk lookups, the format, the frame reader and the
//! validation predicates, each computed afresh from the stream's bytes.

use vstd::prelude::*;

use crate::audio_frame_reader::AudioFrameReader;
use crate::bext::{bext_matches, parse_bext_at, Bext, BEXT_FIXED_LEN};
use crate::errors::{Error, IoErrorKind};
use crate::fmt::{parse_fmt, parse_fmt_at, WaveFmt};
use crate::fourcc::{bext_sig, data_sig, fllr_sig, fmt_sig, junk_sig, FourCC};
use crate::parser::{scan, scan_chunks, ChunkExtent};
use crate::raw_chunk_reader::RawChunkReader;

verus! {

/// Filler needed before `data` to overwrite it later with a `ds64`.
pub const DS64_RESERVATION: u64 = 92;

/// Absolute offset at which an aligned `data` payload starts.
pub const DATA_ALIGNMENT_OFFSET: u64 = 0x4000;

/// The `k`-th extent (from 0) whose signature is `sig`.
pub open spec fn nth_with(s: Seq<ChunkExtent>, sig: FourCC, k: int) -> Option<ChunkExtent>
    decreases s.len(),
{
    if s.len() == 0 {
        None
    } else if s[0].signature == sig {
        if k == 0 {
            Some(s[0])
        } else {
            nth_with(s.drop_first(), sig, k - 1)
        }
    } else {
        nth_with(s.drop_first(), sig, k)
    }
}

/// Index of the first extent whose signature is `sig`; `s.len()` if none.
pub open spec fn first_pos(s: Seq<ChunkExtent>, sig: FourCC) -> int
    decreases s.len(),
{
    if s.len() == 0 {
        0
    } else if s[0].signature == sig {
        0
    } else {
        1 + first_pos(s.drop_first(), sig)
    }
}

pub open spec fn is_filler(sig: FourCC) -> bool {
    sig == junk_sig() || sig == fllr_sig()
}

/// Reserved size of the run of filler chunks that ends just before index
/// `j`: their payload lengths, plus 8 header bytes for each but the first.
pub open spec fn filler_before(s: Seq<ChunkExtent>, j: int) -> int
    decreases j,
{
    if j <= 0 || j > s.len() || !is_filler(s[j - 1].signature) {
        0
    } else {
        let overhead = if j >= 2 && is_filler(s[j - 2].signature) { 8int } else { 0int };
        s[j - 1].length + overhead + filler_before(s, j - 1)
    }
}

/// Payload start and length of the `index`-th chunk with `sig` in the
/// container `b`.
pub open spec fn extent_at(b: Seq<u8>, sig: FourCC, index: int) -> Result<(u64, u64), Error> {
    match scan(b) {
        Err(e) => Err(e),
        Ok(exts) => match nth_with(exts, sig, index) {
            Some(e) => Ok((e.start, e.length)),
            None => Err(Error::ChunkMissing { signature: sig }),
        },
    }
}

/// Readable: a `fmt ` and a `data` chunk, the first `fmt ` before the first `data`.
pub open spec fn readable(b: Seq<u8>) -> Result<(), Error> {
    match extent_at(b, fmt_sig(), 0) {
        Err(e) => Err(e),
        Ok(f) => match extent_at(b, data_sig(), 0) {
            Err(e) => Err(e),
            Ok(d) => if f.0 < d.0 {
                Ok(())
            } else {
                Err(Error::FmtChunkAfterData)
            },
        },
    }
}

/// Minimal: readable, and the chunk list is exactly `fmt `, `data`.
pub open spec fn minimal(b: Seq<u8>) -> Result<(), Error> {
    match readable(b) {
        Err(e) => Err(e),
        Ok(_) => match scan(b) {
            Err(e) => Err(e),
            Ok(exts) => if exts.len() == 2 && exts[0].signature == fmt_sig()
                && exts[1].signature == data_sig() {
                Ok(())
            } else {
                Err(Error::NotMinimalWaveFile)
            },
        },
    }
}

/// Broadcast-WAVE: readable, with a `bext` chunk.
pub open spec fn broadcast_wave(b: Seq<u8>) -> Result<(), Error> {
    match readable(b) {
        Err(e) => Err(e),
        Ok(_) => match extent_at(b, bext_sig(), 0) {
            Err(e) => Err(e),
            Ok(_) => Ok(()),
        },
    }
}

/// Aligned: readable, with the `data` payload at `DATA_ALIGNMENT_OFFSET`.
pub open spec fn data_aligned(b: Seq<u8>) -> Result<(), Error> {
    match readable(b) {
        Err(e) => Err(e),
        Ok(_) => match extent_at(b, data_sig(), 0) {
            Err(e) => Err(e),
            Ok(d) => if d.0 == DATA_ALIGNMENT_OFFSET {
                Ok(())
            } else {
                Err(Error::DataChunkNotAligned)
            },
        },
    }
}

/// Append-ready: readable, at least `DS64_RESERVATION` bytes of filler just
/// before the first `data`, and that `data` the last chunk.
pub open spec fn prepared_for_append(b: Seq<u8>) -> Result<(), Error> {
    match readable(b) {
        Err(e) => Err(e),
        Ok(_) => match scan(b) {
            Err(e) => Err(e),
            Ok(exts) => {
                let p = first_pos(exts, data_sig());
                let filler = filler_before(exts, p);
                if filler < DS64_RESERVATION {
                    Err(
                        Error::InsufficientDS64Reservation {
                            expected: DS64_RESERVATION,
                            actual: filler as u64,
                        },
                    )
                } else if p == exts.len() - 1 {
                    Ok(())
                } else {
                    Err(Error::DataChunkNotPreparedForAppend)
                }
            },
        },
    }
}

/// The start and length of a chunk's window, where it lies inside `b`.
pub open spec fn window_of(b: Seq<u8>, sig: FourCC, index: int) -> Result<(u64, u64), Error> {
    match extent_at(b, sig, index) {
        Err(e) => Err(e),
        Ok(x) => if x.0 + x.1 <= b.len() {
            Ok(x)
        } else {
            Err(Error::IOError(IoErrorKind::UnexpectedEof))
        },
    }
}

/// The format that the first `fmt ` chunk of `b` describes.
pub open spec fn format_of(b: Seq<u8>) -> Result<WaveFmt, Error> {
    match window_of(b, fmt_sig(), 0) {
        Err(e) => Err(e),
        Ok(x) => parse_fmt(b.subrange(x.0 as int, x.0 + x.1)),
    }
}

/// The number of whole frames in the first `data` chunk of `b`.
pub open spec fn frame_length_of(b: Seq<u8>) -> Result<u64, Error> {
    match extent_at(b, data_sig(), 0) {
        Err(e) => Err(e),
        Ok(d) => match format_of(b) {
            Err(e) => Err(e),
            Ok(f) => Ok((d.1 / f.block_alignment as u64) as u64),
        },
    }
}

/// Wave, Broadcast-WAVE and RF64/BW64 reader over the bytes of a container.
pub struct WaveReader {
    pub inner: Vec<u8>,
}

impl WaveReader {
    /// Wraps the bytes of a container, which start with its outer header.
    /// Fails where the container is not readable.
    pub fn new(inner: Vec<u8>) -> (r: Result<WaveReader, Error>)
        ensures
            match r {
                Ok(w) => w.inner@ == inner@ && readable(inner@) == Ok::<(), Error>(()),
                Err(e) => readable(inner@) == Err::<(), Error>(e),
            },
    {
        let retval = WaveReader { inner };
        match retval.validate_readable() {
            Ok(()) => Ok(retval),
            Err(e) => Err(e),
        }
    }

    /// The bytes of the container.
    pub fn into_inner(self) -> (r: Vec<u8>)
        ensures
            r == self.inner,
    {
        self.inner
    }

    /// Payload start and length of the `index`-th chunk with `fourcc`.
    pub fn get_chunk_extent_at_index(&self, fourcc: FourCC, index: u32) -> (r: Result<
        (u64, u64),
        Error,
    >)
        ensures
            r == extent_at(self.inner@, fourcc, index as int),
    {
        let chunks = match scan_chunks(&self.inner) {
            Ok(c) => c,
            Err(e) => return Err(e),
        };
        let ghost s = chunks@;
        let n = chunks.len();
        let mut i: usize = 0;
        let mut found: u32 = 0;
        assert(s.subrange(0, n as int) =~= s);
        while i < n
            invariant
                n == s.len(),
                chunks@ == s,
                scan(self.inner@) == Ok::<Seq<ChunkExtent>, Error>(s),
                i <= n,
                found <= index,
                nth_with(s, fourcc, index as int) == nth_with(
                    s.subrange(i as int, n as int),
                    fourcc,
                    index - found,
                ),
            decreases n - i,
        {
            assert(s.subrange(i as int, n as int).drop_first() =~= s.subrange(i + 1, n as int));
            let c = chunks[i];
            if c.signature == fourcc {
                if found == index {
                    return Ok((c.start, c.length));
                }
                found = found + 1;
            }
            i = i + 1;
        }
        Err(Error::ChunkMissing { signature: fourcc })
    }

    /// A bounded reader over the `index`-th chunk with `signature`. Fails
    /// where the chunk is missing or its payload runs past the stream.
    pub fn chunk_reader(&self, signature: FourCC, index: u32) -> (r: Result<RawChunkReader<'_>, Error>)
        ensures
            match r {
                Ok(c) => c.wf() && c.stream@ == self.inner@ && c.pos == 0 && window_of(
                    self.inner@,
                    signature,
                    index as int,
                ) == Ok::<(u64, u64), Error>((c.start, c.length)),
                Err(e) => window_of(self.inner@, signature, index as int) == Err::<
                    (u64, u64),
                    Error,
                >(e),
            },
    {
        let (start, length) = match self.get_chunk_extent_at_index(signature, index) {
            Ok(x) => x,
            Err(e) => return Err(e),
        };
        let total = self.inner.len() as u64;
        if start > total || length > total - start {
            return Err(Error::IOError(IoErrorKind::UnexpectedEof));
        }
        Ok(RawChunkReader::new(&self.inner, start, length))
    }

    /// Sample and frame format of this container.
    pub fn format(&self) -> (r: Result<WaveFmt, Error>)
        ensures
            r == format_of(self.inner@),
    {
        let reader = match self.chunk_reader(fmt_sig(), 0) {
            Ok(c) => c,
            Err(e) => return Err(e),
        };
        let total = self.inner.len();
        assert(reader.start + reader.length <= total);
        parse_fmt_at(&self.inner, reader.start as usize, reader.length as usize)
    }

    /// The count of whole audio frames in the `data` chunk.
    pub fn frame_length(&self) -> (r: Result<u64, Error>)
        ensures
            r == frame_length_of(self.inner@),
    {
        let (_, data_length) = match self.get_chunk_extent_at_index(data_sig(), 0) {
            Ok(x) => x,
            Err(e) => return Err(e),
        };
        let format = match self.format() {
            Ok(f) => f,
            Err(e) => return Err(e),
        };
        proof {
            lemma_supported_alignment(format);
        }
        Ok(data_length / (format.block_alignment as u64))
    }

    /// A frame reader over the `data` payload, at its first frame.
    pub fn audio_frame_reader(&self) -> (r: Result<AudioFrameReader<'_>, Error>)
        ensures
            match r {
                Ok(a) => a.wf() && format_of(self.inner@) == Ok::<WaveFmt, Error>(a.format)
                    && a.inner.stream@ == self.inner@ && a.inner.pos == 0 && window_of(
                    self.inner@,
                    data_sig(),
                    0,
                ) == Ok::<(u64, u64), Error>((a.inner.start, a.inner.length)),
                Err(e) => format_of(self.inner@) == Err::<WaveFmt, Error>(e) || (
                format_of(self.inner@).is_ok() && window_of(self.inner@, data_sig(), 0) == Err::<
                    (u64, u64),
                    Error,
                >(e)),
            },
    {
        let format = match self.format() {
            Ok(f) => f,
            Err(e) => return Err(e),
        };
        let audio_chunk_reader = match self.chunk_reader(data_sig(), 0) {
            Ok(c) => c,
            Err(e) => return Err(e),
        };
        Ok(AudioFrameReader::new(audio_chunk_reader, format))
    }

    /// The Broadcast-WAVE metadata record of the first `bext` chunk.
    pub fn broadcast_extension(&self) -> (r: Result<Bext, Error>)
        ensures
            match (r, window_of(self.inner@, bext_sig(), 0)) {
                (Ok(x), Ok(w)) => w.1 >= BEXT_FIXED_LEN && bext_matches(
                    x,
                    self.inner@.subrange(w.0 as int, w.0 + w.1),
                ),
                (Err(e), Ok(w)) => w.1 < BEXT_FIXED_LEN && e == Error::IOError(
                    IoErrorKind::UnexpectedEof,
                ),
                (Err(e), Err(e2)) => e == e2,
                (Ok(_), Err(_)) => false,
            },
    {
        let reader = match self.chunk_reader(bext_sig(), 0) {
            Ok(c) => c,
            Err(e) => return Err(e),
        };
        let total = self.inner.len();
        assert(reader.start + reader.length <= total);
        parse_bext_at(&self.inner, reader.start as usize, reader.length as usize)
    }

    /// `Ok(())` where a `fmt ` and a `data` chunk are present and the first
    /// `fmt ` comes before the first `data`.
    pub fn validate_readable(&self) -> (r: Result<(), Error>)
        ensures
            r == readable(self.inner@),
    {
        let (fmt_pos, _) = match self.get_chunk_extent_at_index(fmt_sig(), 0) {
            Ok(x) => x,
            Err(e) => return Err(e),
        };
        let (data_pos, _) = match self.get_chunk_extent_at_index(data_sig(), 0) {
            Ok(x) => x,
            Err(e) => return Err(e),
        };
        if fmt_pos < data_pos {
            Ok(())
        } else {
            Err(Error::FmtChunkAfterData)
        }
    }

    /// `Ok(())` where the container is readable and holds exactly a `fmt `
    /// and a `data` chunk, nothing else.
    pub fn validate_minimal(&self) -> (r: Result<(), Error>)
        ensures
            r == minimal(self.inner@),
    {
        match self.validate_readable() {
            Ok(()) => {},
            Err(e) => return Err(e),
        }
        let chunks = match scan_chunks(&self.inner) {
            Ok(c) => c,
            Err(e) => return Err(e),
        };
        if chunks.len() == 2 && chunks[0].signature == fmt_sig() && chunks[1].signature
            == data_sig() {
            Ok(())
        } else {
            Err(Error::NotMinimalWaveFile)
        }
    }

    /// `Ok(())` where the container is readable and has a `bext` chunk.
    pub fn validate_broadcast_wave(&self) -> (r: Result<(), Error>)
        ensures
            r == broadcast_wave(self.inner@),
    {
        match self.validate_readable() {
            Ok(()) => {},
            Err(e) => return Err(e),
        }
        match self.get_chunk_extent_at_index(bext_sig(), 0) {
            Ok(_) => Ok(()),
            Err(e) => Err(e),
        }
    }

    /// `Ok(())` where the container is readable and its `data` payload
    /// starts at `DATA_ALIGNMENT_OFFSET`.
    pub fn validate_data_chunk_alignment(&self) -> (r: Result<(), Error>)
        ensures
            r == data_aligned(self.inner@),
    {
        match self.validate_readable() {
            Ok(()) => {},
            Err(e) => return Err(e),
        }
        let (start, _) = match self.get_chunk_extent_at_index(data_sig(), 0) {
            Ok(x) => x,
            Err(e) => return Err(e),
        };
        if start == DATA_ALIGNMENT_OFFSET {
            Ok(())
        } else {
            Err(Error::DataChunkNotAligned)
        }
    }

    /// `Ok(())` where the container is readable, the filler chunks (`JUNK`,
    /// `FLLR`) just before the first `data` reserve at least
    /// `DS64_RESERVATION` bytes, and that `data` is the last chunk.
    pub fn validate_prepared_for_append(&self) -> (r: Result<(), Error>)
        ensures
            r == prepared_for_append(self.inner@),
    {
        match self.validate_readable() {
            Ok(()) => {},
            Err(e) => return Err(e),
        }
        let chunks = match scan_chunks(&self.inner) {
            Ok(c) => c,
            Err(e) => return Err(e),
        };
        let ghost s = chunks@;
        let n = chunks.len();
        let data = data_sig();
        let mut p: usize = 0;
        assert(s.subrange(0, n as int) =~= s);
        while p < n && chunks[p].signature != data
            invariant
                n == s.len(),
                chunks@ == s,
                p <= n,
                first_pos(s, data) == p + first_pos(s.subrange(p as int, n as int), data),
            decreases n - p,
        {
            assert(s.subrange(p as int, n as int).drop_first() =~= s.subrange(p + 1, n as int));
            p = p + 1;
        }
        assert(first_pos(s, data) == p);
        let mut j: usize = p;
        let mut filler: u128 = 0;
        while j > 0 && is_filler_sig(chunks[j - 1].signature) && filler < DS64_RESERVATION as u128
            invariant
                n == s.len(),
                chunks@ == s,
                j <= p <= n,
                filler_before(s, p as int) == filler + filler_before(s, j as int),
            decreases j,
        {
            let len = chunks[j - 1].length;
            let overhead: u64 = if j >= 2 && is_filler_sig(chunks[j - 2].signature) {
                8
            } else {
                0
            };
            filler = filler + len as u128 + overhead as u128;
            j = j - 1;
        }
        proof {
            lemma_filler_nonneg(s, j as int);
        }
        if filler < DS64_RESERVATION as u128 {
            return Err(
                Error::InsufficientDS64Reservation {
                    expected: DS64_RESERVATION,
                    actual: filler as u64,
                },
            );
        }
        if p == n - 1 {
            Ok(())
        } else {
            Err(Error::DataChunkNotPreparedForAppend)
        }
    }
}

/// Each of the stricter predicates holds only of readable containers, so a
/// container that passes one of them also passes `validate_readable`.
pub proof fn lemma_predicates_imply_readable(b: Seq<u8>)
    ensures
        minimal(b) is Ok ==> readable(b) is Ok,
        broadcast_wave(b) is Ok ==> readable(b) is Ok,
        data_aligned(b) is Ok ==> readable(b) is Ok,
        prepared_for_append(b) is Ok ==> readable(b) is Ok,
{
}

fn is_filler_sig(sig: FourCC) -> (r: bool)
    ensures
        r == is_filler(sig),
{
    sig == junk_sig() || sig == fllr_sig()
}

proof fn lemma_supported_alignment(f: WaveFmt)
    requires
        crate::fmt::format_supported(f),
    ensures
        f.block_alignment >= 1,
{
    let w = crate::fmt::sample_width(f);
    assert(f.channel_count as int * w >= 1) by (nonlinear_arith)
        requires
            f.channel_count >= 1,
            w >= 1,
    ;
}

proof fn lemma_filler_nonneg(s: Seq<ChunkExtent>, j: int)
    ensures
        filler_before(s, j) >= 0,
    decreases j,
{
    if j > 0 && j <= s.len() {
        lemma_filler_nonneg(s, j - 1);
    }
}

} // verus!
