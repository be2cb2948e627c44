//! Failures of the reader.

use vstd::prelude::*;

use crate::fourcc::FourCC;

verus! {

/// The kind of a stream failure.
#[derive(Clone, Copy, Debug, PartialEq, Eq, Structural)]
pub enum IoErrorKind {
    /// The stream ended inside a field that had to be read whole.
    UnexpectedEof,
}

/// Each way in which reading a container can fail.
#[derive(Clone, Copy, Debug, PartialEq, Eq, Structural)]
pub enum Error {
    /// The stream failed.
    IOError(IoErrorKind),
    /// No chunk with `signature` at the requested index.
    ChunkMissing { signature: FourCC },
    /// The first `fmt ` chunk does not precede the first `data` chunk.
    FmtChunkAfterData,
    /// The chunk list is something other than `fmt `, `data`.
    NotMinimalWaveFile,
    /// The `data` payload does not start at the alignment boundary.
    DataChunkNotAligned,
    /// The filler before `data` is too small to be overwritten by a `ds64`.
    InsufficientDS64Reservation { expected: u64, actual: u64 },
    /// `data` is not the last chunk.
    DataChunkNotPreparedForAppend,
    /// The `fmt ` chunk is too short, or describes a layout that is not
    /// linear integer or float PCM of a supported depth.
    MalformedFmtChunk,
    /// An integer read on a float format, or the reverse.
    UnsupportedSampleRepresentation,
}

} // verus!
