//! Reader for WAVE, Broadcast-WAVE and RF64/BW64 containers held in memory.
//!
//! The stream is a byte buffer. The chunk scanner, the bounded chunk reader,
//! the sample-format parser, the frame decoder and the validation predicates
//! are verified against spec functions that describe the container layout.

pub mod audio_frame_reader;
pub mod bext;
pub mod bytes;
pub mod conformance;
pub mod errors;
pub mod fmt;
pub mod fourcc;
pub mod layout;
pub mod parser;
pub mod raw_chunk_reader;
pub mod wavereader;

pub use audio_frame_reader::AudioFrameReader;
pub use bext::Bext;
pub use errors::{Error, IoErrorKind};
pub use fmt::WaveFmt;
pub use fourcc::FourCC;
pub use parser::{scan_chunks, ChunkExtent};
pub use raw_chunk_reader::RawChunkReader;
pub use wavereader::WaveReader;
