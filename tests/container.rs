use bwavfile::fourcc::{bext_sig, data_sig, ds64_sig, fmt_sig, junk_sig, list_sig};
use bwavfile::{scan_chunks, ChunkExtent, Error, FourCC, IoErrorKind, WaveReader};

fn sig(s: &[u8; 4]) -> FourCC {
    FourCC::new(s[0], s[1], s[2], s[3])
}

fn chunk(id: &[u8; 4], payload: &[u8]) -> Vec<u8> {
    let mut v = id.to_vec();
    v.extend_from_slice(&(payload.len() as u32).to_le_bytes());
    v.extend_from_slice(payload);
    if payload.len() % 2 == 1 {
        v.push(0);
    }
    v
}

fn riff(chunks: &[Vec<u8>]) -> Vec<u8> {
    let body: Vec<u8> = chunks.concat();
    let mut v = b"RIFF".to_vec();
    v.extend_from_slice(&((body.len() + 4) as u32).to_le_bytes());
    v.extend_from_slice(b"WAVE");
    v.extend_from_slice(&body);
    v
}

fn fmt_pcm(channels: u16, bits: u16) -> Vec<u8> {
    let ba = channels * (bits / 8);
    let mut v = Vec::new();
    v.extend_from_slice(&1u16.to_le_bytes());
    v.extend_from_slice(&channels.to_le_bytes());
    v.extend_from_slice(&44100u32.to_le_bytes());
    v.extend_from_slice(&(44100u32 * ba as u32).to_le_bytes());
    v.extend_from_slice(&ba.to_le_bytes());
    v.extend_from_slice(&bits.to_le_bytes());
    chunk(b"fmt ", &v)
}

fn ext(id: &[u8; 4], start: u64, length: u64) -> ChunkExtent {
    ChunkExtent { signature: sig(id), start, length }
}

#[test]
fn round_trip_extent_addressing() {
    let file = riff(&[
        chunk(b"JUNK", &[1, 2, 3]),
        fmt_pcm(1, 16),
        chunk(b"LIST", &[]),
        chunk(b"data", &[9, 9, 9, 9]),
    ]);
    let exts = scan_chunks(&file).unwrap();
    assert_eq!(
        exts,
        vec![
            ext(b"JUNK", 20, 3),
            ext(b"fmt ", 32, 16),
            ext(b"LIST", 56, 0),
            ext(b"data", 64, 4),
        ]
    );
}

#[test]
fn odd_lengths_skip_one_pad_byte() {
    let file = riff(&[
        chunk(b"aaaa", &[1]),
        chunk(b"bbbb", &[1, 2]),
        chunk(b"cccc", &[1, 2, 3, 4, 5]),
        chunk(b"dddd", &[1, 2, 3, 4]),
        chunk(b"eeee", &[7]),
    ]);
    let exts = scan_chunks(&file).unwrap();
    assert_eq!(
        exts,
        vec![
            ext(b"aaaa", 20, 1),
            ext(b"bbbb", 30, 2),
            ext(b"cccc", 40, 5),
            ext(b"dddd", 54, 4),
            ext(b"eeee", 66, 1),
        ]
    );
}

fn rf64_file(form: &[u8; 4], data_header: u32, ds64_data: u64, payload: &[u8]) -> Vec<u8> {
    let mut ds64 = Vec::new();
    ds64.extend_from_slice(&1000u64.to_le_bytes());
    ds64.extend_from_slice(&ds64_data.to_le_bytes());
    ds64.extend_from_slice(&0u64.to_le_bytes());
    ds64.extend_from_slice(&0u32.to_le_bytes());
    let mut v = form.to_vec();
    v.extend_from_slice(&0xFFFF_FFFFu32.to_le_bytes());
    v.extend_from_slice(b"WAVE");
    v.extend_from_slice(&chunk(b"ds64", &ds64));
    v.extend_from_slice(&fmt_pcm(1, 16));
    v.extend_from_slice(b"data");
    v.extend_from_slice(&data_header.to_le_bytes());
    v.extend_from_slice(payload);
    v
}

#[test]
fn ds64_overrides_data_length() {
    let file = rf64_file(b"RF64", 0xFFFF_FFFF, 6, &[0, 0, 1, 0, 2, 0]);
    let exts = scan_chunks(&file).unwrap();
    assert_eq!(exts.len(), 3);
    assert_eq!(exts[0], ext(b"ds64", 20, 28));
    assert_eq!(exts[1], ext(b"fmt ", 56, 16));
    assert_eq!(exts[2], ext(b"data", 80, 6));
    let r = WaveReader::new(file).unwrap();
    assert_eq!(r.frame_length().unwrap(), 3);
}

#[test]
fn bw64_form_also_takes_ds64() {
    let file = rf64_file(b"BW64", 2, 6, &[0, 0, 1, 0, 2, 0]);
    let exts = scan_chunks(&file).unwrap();
    assert_eq!(exts[2], ext(b"data", 80, 6));
}

#[test]
fn ds64_ignored_in_classic_riff() {
    let mut file = rf64_file(b"RIFF", 4, 6, &[0, 0, 1, 0]);
    file[4..8].copy_from_slice(&1000u32.to_le_bytes());
    let exts = scan_chunks(&file).unwrap();
    assert_eq!(exts[0], ext(b"ds64", 20, 28));
    assert_eq!(exts[2], ext(b"data", 80, 4));
}

#[test]
fn truncated_ds64_fails() {
    let mut v = b"RF64".to_vec();
    v.extend_from_slice(&0xFFFF_FFFFu32.to_le_bytes());
    v.extend_from_slice(b"WAVE");
    v.extend_from_slice(b"ds64");
    v.extend_from_slice(&28u32.to_le_bytes());
    v.extend_from_slice(&[0, 0, 0, 0]);
    assert_eq!(scan_chunks(&v), Err(Error::IOError(IoErrorKind::UnexpectedEof)));
}

#[test]
fn short_header_fails() {
    let v = b"RIFF\x04\x00".to_vec();
    assert_eq!(scan_chunks(&v), Err(Error::IOError(IoErrorKind::UnexpectedEof)));
    assert_eq!(
        WaveReader::new(v).err(),
        Some(Error::IOError(IoErrorKind::UnexpectedEof))
    );
}

#[test]
fn trailing_partial_header_is_ignored() {
    let mut file = riff(&[fmt_pcm(1, 16), chunk(b"data", &[0, 0])]);
    file.extend_from_slice(b"LIS");
    let n = file.len() as u32 - 8;
    file[4..8].copy_from_slice(&n.to_le_bytes());
    let exts = scan_chunks(&file).unwrap();
    assert_eq!(exts.len(), 2);
}

#[test]
fn scan_stops_at_end_of_form() {
    let mut file = riff(&[fmt_pcm(1, 16), chunk(b"data", &[0, 0])]);
    file.extend_from_slice(&chunk(b"LIST", &[1, 2]));
    let exts = scan_chunks(&file).unwrap();
    assert_eq!(exts.len(), 2);
}

#[test]
fn zero_length_and_repeated_chunks() {
    let file = riff(&[
        fmt_pcm(1, 16),
        chunk(b"LIST", &[]),
        chunk(b"LIST", &[5, 6]),
        chunk(b"data", &[0, 0]),
    ]);
    let r = WaveReader::new(file).unwrap();
    assert_eq!(r.get_chunk_extent_at_index(list_sig(), 0), Ok((44, 0)));
    assert_eq!(r.get_chunk_extent_at_index(list_sig(), 1), Ok((52, 2)));
    assert_eq!(
        r.get_chunk_extent_at_index(list_sig(), 2),
        Err(Error::ChunkMissing { signature: list_sig() })
    );
}

#[test]
fn minimal_validation() {
    let minimal = riff(&[fmt_pcm(1, 16), chunk(b"data", &[0, 0])]);
    let r = WaveReader::new(minimal).unwrap();
    assert_eq!(r.validate_minimal(), Ok(()));
    let with_list = riff(&[fmt_pcm(1, 16), chunk(b"data", &[0, 0]), chunk(b"LIST", &[1, 2])]);
    let r = WaveReader::new(with_list).unwrap();
    assert_eq!(r.validate_readable(), Ok(()));
    assert_eq!(r.validate_minimal(), Err(Error::NotMinimalWaveFile));
}

#[test]
fn ordering_violation() {
    let file = riff(&[chunk(b"data", &[0, 0]), fmt_pcm(1, 16)]);
    assert_eq!(WaveReader::new(file.clone()).err(), Some(Error::FmtChunkAfterData));
    let r = WaveReader { inner: file };
    assert_eq!(r.validate_readable(), Err(Error::FmtChunkAfterData));
    assert!(r.get_chunk_extent_at_index(fmt_sig(), 0).is_ok());
    assert!(r.get_chunk_extent_at_index(data_sig(), 0).is_ok());
}

#[test]
fn missing_chunks_are_named() {
    let no_data = riff(&[fmt_pcm(1, 16)]);
    assert_eq!(
        WaveReader::new(no_data).err(),
        Some(Error::ChunkMissing { signature: data_sig() })
    );
    let no_fmt = riff(&[chunk(b"data", &[0, 0])]);
    assert_eq!(
        WaveReader::new(no_fmt).err(),
        Some(Error::ChunkMissing { signature: fmt_sig() })
    );
}

fn append_file(filler: usize) -> Vec<u8> {
    riff(&[fmt_pcm(1, 16), chunk(b"JUNK", &vec![0u8; filler]), chunk(b"data", &[0, 0])])
}

#[test]
fn append_threshold() {
    let r = WaveReader::new(append_file(91)).unwrap();
    assert_eq!(
        r.validate_prepared_for_append(),
        Err(Error::InsufficientDS64Reservation { expected: 92, actual: 91 })
    );
    let r = WaveReader::new(append_file(92)).unwrap();
    assert_eq!(r.validate_prepared_for_append(), Ok(()));
}

#[test]
fn append_filler_run_counts_headers() {
    let file = riff(&[
        fmt_pcm(1, 16),
        chunk(b"JUNK", &vec![0u8; 40]),
        chunk(b"FLLR", &vec![0u8; 44]),
        chunk(b"data", &[0, 0]),
    ]);
    let r = WaveReader::new(file).unwrap();
    assert_eq!(r.validate_prepared_for_append(), Ok(()));
    let file = riff(&[
        fmt_pcm(1, 16),
        chunk(b"JUNK", &vec![0u8; 40]),
        chunk(b"FLLR", &vec![0u8; 42]),
        chunk(b"data", &[0, 0]),
    ]);
    let r = WaveReader::new(file).unwrap();
    assert_eq!(
        r.validate_prepared_for_append(),
        Err(Error::InsufficientDS64Reservation { expected: 92, actual: 90 })
    );
}

#[test]
fn append_needs_data_last() {
    let file = riff(&[
        fmt_pcm(1, 16),
        chunk(b"JUNK", &vec![0u8; 100]),
        chunk(b"data", &[0, 0]),
        chunk(b"LIST", &[]),
    ]);
    let r = WaveReader::new(file).unwrap();
    assert_eq!(r.validate_prepared_for_append(), Err(Error::DataChunkNotPreparedForAppend));
    let r = WaveReader::new(riff(&[fmt_pcm(1, 16), chunk(b"data", &[0, 0])])).unwrap();
    assert_eq!(
        r.validate_prepared_for_append(),
        Err(Error::InsufficientDS64Reservation { expected: 92, actual: 0 })
    );
}

#[test]
fn alignment_validation() {
    let r = WaveReader::new(riff(&[fmt_pcm(1, 16), chunk(b"data", &[0, 0])])).unwrap();
    assert_eq!(r.validate_data_chunk_alignment(), Err(Error::DataChunkNotAligned));
    let pad = 0x4000 - 52;
    let file = riff(&[fmt_pcm(1, 16), chunk(b"JUNK", &vec![0u8; pad]), chunk(b"data", &[0, 0])]);
    let r = WaveReader::new(file).unwrap();
    assert_eq!(r.get_chunk_extent_at_index(data_sig(), 0), Ok((0x4000, 2)));
    assert_eq!(r.validate_data_chunk_alignment(), Ok(()));
}

#[test]
fn broadcast_validation() {
    let r = WaveReader::new(riff(&[fmt_pcm(1, 16), chunk(b"data", &[0, 0])])).unwrap();
    assert_eq!(
        r.validate_broadcast_wave(),
        Err(Error::ChunkMissing { signature: bext_sig() })
    );
    let file = riff(&[chunk(b"bext", &[0u8; 602]), fmt_pcm(1, 16), chunk(b"data", &[0, 0])]);
    let r = WaveReader::new(file).unwrap();
    assert_eq!(r.validate_broadcast_wave(), Ok(()));
}

#[test]
fn signatures_spell_their_names() {
    assert_eq!(fmt_sig().to_bytes(), *b"fmt ");
    assert_eq!(data_sig().to_bytes(), *b"data");
    assert_eq!(ds64_sig().to_bytes(), *b"ds64");
    assert_eq!(junk_sig().to_bytes(), *b"JUNK");
    assert_eq!(bext_sig().to_bytes(), *b"bext");
}

#[test]
fn chunk_past_stream_end_is_refused_at_use() {
    let mut file = riff(&[fmt_pcm(1, 16)]);
    file.extend_from_slice(b"data");
    file.extend_from_slice(&100u32.to_le_bytes());
    file.extend_from_slice(&[0, 0]);
    let n = file.len() as u32 - 8;
    file[4..8].copy_from_slice(&n.to_le_bytes());
    let r = WaveReader::new(file).unwrap();
    assert_eq!(r.get_chunk_extent_at_index(data_sig(), 0), Ok((44, 100)));
    assert_eq!(
        r.chunk_reader(data_sig(), 0).err(),
        Some(Error::IOError(IoErrorKind::UnexpectedEof))
    );
    assert_eq!(
        r.audio_frame_reader().err(),
        Some(Error::IOError(IoErrorKind::UnexpectedEof))
    );
}

#[test]
fn into_inner_returns_bytes() {
    let file = riff(&[fmt_pcm(1, 16), chunk(b"data", &[0, 0])]);
    let r = WaveReader::new(file.clone()).unwrap();
    assert_eq!(r.into_inner(), file);
}
