use bwavfile::fourcc::data_sig;
use bwavfile::{Error, IoErrorKind, RawChunkReader, WaveReader};

fn chunk(id: &[u8; 4], payload: &[u8]) -> Vec<u8> {
    let mut v = id.to_vec();
    v.extend_from_slice(&(payload.len() as u32).to_le_bytes());
    v.extend_from_slice(payload);
    if payload.len() % 2 == 1 {
        v.push(0);
    }
    v
}

fn riff(chunks: &[Vec<u8>]) -> Vec<u8> {
    let body: Vec<u8> = chunks.concat();
    let mut v = b"RIFF".to_vec();
    v.extend_from_slice(&((body.len() + 4) as u32).to_le_bytes());
    v.extend_from_slice(b"WAVE");
    v.extend_from_slice(&body);
    v
}

fn fmt_body(tag: u16, channels: u16, bits: u16, ba: u16) -> Vec<u8> {
    let mut v = Vec::new();
    v.extend_from_slice(&tag.to_le_bytes());
    v.extend_from_slice(&channels.to_le_bytes());
    v.extend_from_slice(&48000u32.to_le_bytes());
    v.extend_from_slice(&(48000u32 * ba as u32).to_le_bytes());
    v.extend_from_slice(&ba.to_le_bytes());
    v.extend_from_slice(&bits.to_le_bytes());
    v
}

fn extensible(channels: u16, bits: u16, valid: u16, sub: u16) -> Vec<u8> {
    let ba = channels * (bits / 8);
    let mut v = fmt_body(0xFFFE, channels, bits, ba);
    v.extend_from_slice(&22u16.to_le_bytes());
    v.extend_from_slice(&valid.to_le_bytes());
    v.extend_from_slice(&3u32.to_le_bytes());
    v.extend_from_slice(&sub.to_le_bytes());
    v.extend_from_slice(&[
        0x00, 0x00, 0x00, 0x00, 0x10, 0x00, 0x80, 0x00, 0x00, 0xaa, 0x00, 0x38, 0x9b, 0x71,
    ]);
    v
}

fn wave(fmt: Vec<u8>, data: &[u8]) -> WaveReader {
    WaveReader::new(riff(&[chunk(b"fmt ", &fmt), chunk(b"data", data)])).unwrap()
}

#[test]
fn decode_sixteen_bit_zero() {
    let r = wave(fmt_body(1, 1, 16, 2), &[0, 0]);
    let mut fr = r.audio_frame_reader().unwrap();
    let mut buffer = fr.create_frame_buffer();
    assert_eq!(buffer, vec![0i32]);
    assert_eq!(fr.read_integer_frame(&mut buffer), Ok(1));
    assert_eq!(buffer, vec![0i32]);
    assert_eq!(fr.read_integer_frame(&mut buffer), Ok(0));
    assert_eq!(buffer, vec![0i32]);
}

#[test]
fn decode_sixteen_bit_stereo_values() {
    let r = wave(fmt_body(1, 2, 16, 4), &[0x01, 0x00, 0xff, 0xff, 0x00, 0x80, 0xff, 0x7f]);
    assert_eq!(r.frame_length(), Ok(2));
    let mut fr = r.audio_frame_reader().unwrap();
    let mut buffer = fr.create_frame_buffer();
    assert_eq!(fr.read_integer_frame(&mut buffer), Ok(1));
    assert_eq!(buffer, vec![1, -1]);
    assert_eq!(fr.read_integer_frame(&mut buffer), Ok(1));
    assert_eq!(buffer, vec![-32768, 32767]);
    assert_eq!(fr.read_integer_frame(&mut buffer), Ok(0));
}

#[test]
fn decode_twenty_four_bit_sign_extends() {
    let r = wave(fmt_body(1, 1, 24, 3), &[0x00, 0x00, 0x80, 0x56, 0x34, 0x12]);
    let mut fr = r.audio_frame_reader().unwrap();
    let mut buffer = fr.create_frame_buffer();
    assert_eq!(fr.read_integer_frame(&mut buffer), Ok(1));
    assert_eq!(buffer, vec![-8388608]);
    assert_eq!(fr.read_integer_frame(&mut buffer), Ok(1));
    assert_eq!(buffer, vec![0x123456]);
}

#[test]
fn decode_eight_bit_is_offset() {
    let r = wave(fmt_body(1, 2, 8, 2), &[0x80, 0x00, 0xff, 0x81]);
    let mut fr = r.audio_frame_reader().unwrap();
    let mut buffer = fr.create_frame_buffer();
    assert_eq!(fr.read_integer_frame(&mut buffer), Ok(1));
    assert_eq!(buffer, vec![0, -128]);
    assert_eq!(fr.read_integer_frame(&mut buffer), Ok(1));
    assert_eq!(buffer, vec![127, 1]);
}

#[test]
fn decode_thirty_two_bit() {
    let r = wave(fmt_body(1, 1, 32, 4), &[0x00, 0x00, 0x00, 0x80]);
    let mut fr = r.audio_frame_reader().unwrap();
    let mut buffer = fr.create_frame_buffer();
    assert_eq!(fr.read_integer_frame(&mut buffer), Ok(1));
    assert_eq!(buffer, vec![i32::MIN]);
}

#[test]
fn partial_frame_is_not_read() {
    let r = wave(fmt_body(1, 2, 16, 4), &[1, 0, 2, 0, 3, 0]);
    assert_eq!(r.frame_length(), Ok(1));
    let mut fr = r.audio_frame_reader().unwrap();
    let mut buffer = vec![7, 7];
    assert_eq!(fr.read_integer_frame(&mut buffer), Ok(1));
    assert_eq!(buffer, vec![1, 2]);
    assert_eq!(fr.read_integer_frame(&mut buffer), Ok(0));
    assert_eq!(buffer, vec![1, 2]);
    assert_eq!(fr.inner.position(), 4);
}

#[test]
fn locate_moves_to_frame() {
    let r = wave(fmt_body(1, 1, 16, 2), &[1, 0, 2, 0, 3, 0]);
    let mut fr = r.audio_frame_reader().unwrap();
    let mut buffer = fr.create_frame_buffer();
    assert_eq!(fr.locate(2), 2);
    assert_eq!(fr.read_integer_frame(&mut buffer), Ok(1));
    assert_eq!(buffer, vec![3]);
    assert_eq!(fr.locate(10), 10);
    assert_eq!(fr.read_integer_frame(&mut buffer), Ok(0));
    assert_eq!(fr.locate(u64::MAX), u64::MAX);
    assert_eq!(fr.read_integer_frame(&mut buffer), Ok(0));
    fr.locate(0);
    assert_eq!(fr.read_integer_frame(&mut buffer), Ok(1));
    assert_eq!(buffer, vec![1]);
}

#[test]
fn float_frames_as_words() {
    let one = 1.0f32.to_bits().to_le_bytes();
    let half = (-0.5f32).to_bits().to_le_bytes();
    let r = wave(fmt_body(3, 2, 32, 8), &[one, half].concat());
    let f = r.format().unwrap();
    assert!(f.is_float);
    let mut fr = r.audio_frame_reader().unwrap();
    let mut ints = fr.create_frame_buffer();
    assert_eq!(
        fr.read_integer_frame(&mut ints),
        Err(Error::UnsupportedSampleRepresentation)
    );
    let mut words = vec![0u64; 2];
    assert_eq!(fr.read_float_frame_bits(&mut words), Ok(1));
    assert_eq!(f32::from_bits(words[0] as u32), 1.0);
    assert_eq!(f32::from_bits(words[1] as u32), -0.5);
    assert_eq!(fr.read_float_frame_bits(&mut words), Ok(0));
}

#[test]
fn double_frames_as_words() {
    let r = wave(fmt_body(3, 1, 64, 8), &0.25f64.to_bits().to_le_bytes());
    let mut fr = r.audio_frame_reader().unwrap();
    let mut words = vec![0u64; 1];
    assert_eq!(fr.read_float_frame_bits(&mut words), Ok(1));
    assert_eq!(f64::from_bits(words[0]), 0.25);
}

#[test]
fn integer_format_refuses_float_read() {
    let r = wave(fmt_body(1, 1, 16, 2), &[0, 0]);
    let mut fr = r.audio_frame_reader().unwrap();
    let mut words = vec![0u64; 1];
    assert_eq!(
        fr.read_float_frame_bits(&mut words),
        Err(Error::UnsupportedSampleRepresentation)
    );
}

#[test]
fn format_fields() {
    let r = wave(fmt_body(1, 2, 24, 6), &[0; 6]);
    let f = r.format().unwrap();
    assert_eq!(f.tag, 1);
    assert_eq!(f.channel_count, 2);
    assert_eq!(f.sample_rate, 48000);
    assert_eq!(f.bytes_per_second, 288000);
    assert_eq!(f.block_alignment, 6);
    assert_eq!(f.bits_per_sample, 24);
    assert_eq!(f.valid_bits_per_sample, None);
    assert_eq!(f.channel_mask, None);
    assert!(!f.is_float);
}

#[test]
fn extensible_formats() {
    let r = wave(extensible(2, 24, 20, 1), &[0; 6]);
    let f = r.format().unwrap();
    assert_eq!(f.tag, 0xFFFE);
    assert_eq!(f.valid_bits_per_sample, Some(20));
    assert_eq!(f.channel_mask, Some(3));
    assert!(!f.is_float);
    let r = wave(extensible(1, 32, 32, 3), &[0; 4]);
    assert!(r.format().unwrap().is_float);
    let r = wave(extensible(1, 16, 16, 2), &[0; 2]);
    assert_eq!(r.format(), Err(Error::MalformedFmtChunk));
}

#[test]
fn malformed_formats() {
    let r = wave(fmt_body(1, 1, 16, 2)[..14].to_vec(), &[0, 0]);
    assert_eq!(r.format(), Err(Error::MalformedFmtChunk));
    assert_eq!(r.frame_length(), Err(Error::MalformedFmtChunk));
    assert_eq!(r.audio_frame_reader().err(), Some(Error::MalformedFmtChunk));
    let r = wave(fmt_body(1, 1, 12, 2), &[0, 0]);
    assert_eq!(r.format(), Err(Error::MalformedFmtChunk));
    let r = wave(fmt_body(1, 2, 16, 2), &[0, 0]);
    assert_eq!(r.format(), Err(Error::MalformedFmtChunk));
    let r = wave(fmt_body(2, 1, 16, 2), &[0, 0]);
    assert_eq!(r.format(), Err(Error::MalformedFmtChunk));
    let r = wave(fmt_body(0xFFFE, 1, 16, 2), &[0, 0]);
    assert_eq!(r.format(), Err(Error::MalformedFmtChunk));
}

#[test]
fn bounded_reader_short_reads() {
    let stream: Vec<u8> = (0u8..20).collect();
    let mut c = RawChunkReader::new(&stream, 5, 4);
    let mut buf = vec![0u8; 3];
    assert_eq!(c.read(&mut buf), 3);
    assert_eq!(buf, vec![5, 6, 7]);
    assert_eq!(c.read(&mut buf), 1);
    assert_eq!(buf, vec![8, 6, 7]);
    assert_eq!(c.read(&mut buf), 0);
    c.seek_to(1);
    assert_eq!(c.position(), 1);
    let mut big = vec![9u8; 10];
    assert_eq!(c.read(&mut big), 3);
    assert_eq!(big, vec![6, 7, 8, 9, 9, 9, 9, 9, 9, 9]);
    assert_eq!(c.contents(), vec![5, 6, 7, 8]);
}

#[test]
fn chunk_reader_windows_payload() {
    let r = wave(fmt_body(1, 1, 16, 2), &[1, 2, 3, 4]);
    let mut c = r.chunk_reader(data_sig(), 0).unwrap();
    assert_eq!(c.start, 44);
    assert_eq!(c.length, 4);
    let mut buf = vec![0u8; 8];
    assert_eq!(c.read(&mut buf), 4);
    assert_eq!(&buf[..4], &[1, 2, 3, 4]);
}

fn bext_payload(version: u16, history: &[u8]) -> Vec<u8> {
    let mut v = vec![0u8; 602];
    v[..5].copy_from_slice(b"Scene");
    v[256..260].copy_from_slice(b"Desk");
    v[288..291].copy_from_slice(b"ref");
    v[320..330].copy_from_slice(b"2020-01-02");
    v[330..338].copy_from_slice(b"10:20:30");
    v[338..346].copy_from_slice(&48000u64.to_le_bytes());
    v[346..348].copy_from_slice(&version.to_le_bytes());
    v[348] = 0x06;
    v[412..414].copy_from_slice(&(-2300i16).to_le_bytes());
    v[414..416].copy_from_slice(&500i16.to_le_bytes());
    v.extend_from_slice(history);
    v
}

#[test]
fn broadcast_extension_fields() {
    let file = riff(&[
        chunk(b"bext", &bext_payload(2, b"A=PCM")),
        chunk(b"fmt ", &fmt_body(1, 1, 16, 2)),
        chunk(b"data", &[0, 0]),
    ]);
    let r = WaveReader::new(file).unwrap();
    let b = r.broadcast_extension().unwrap();
    assert_eq!(&b.description[..5], b"Scene");
    assert_eq!(b.description.len(), 256);
    assert_eq!(&b.originator[..4], b"Desk");
    assert_eq!(&b.originator_reference[..3], b"ref");
    assert_eq!(b.origination_date, b"2020-01-02".to_vec());
    assert_eq!(b.origination_time, b"10:20:30".to_vec());
    assert_eq!(b.time_reference, 48000);
    assert_eq!(b.version, 2);
    assert_eq!(b.umid.as_ref().unwrap()[0], 0x06);
    assert_eq!(b.umid.as_ref().unwrap().len(), 64);
    assert_eq!(b.loudness_value, Some(-2300));
    assert_eq!(b.loudness_range, Some(500));
    assert_eq!(b.max_true_peak_level, Some(0));
    assert_eq!(b.coding_history, b"A=PCM".to_vec());
}

#[test]
fn broadcast_extension_version_zero() {
    let file = riff(&[
        chunk(b"bext", &bext_payload(0, b"")),
        chunk(b"fmt ", &fmt_body(1, 1, 16, 2)),
        chunk(b"data", &[0, 0]),
    ]);
    let r = WaveReader::new(file).unwrap();
    let b = r.broadcast_extension().unwrap();
    assert_eq!(b.umid, None);
    assert_eq!(b.loudness_value, None);
    assert!(b.coding_history.is_empty());
}

#[test]
fn broadcast_extension_short_or_missing() {
    let file = riff(&[
        chunk(b"bext", &[0u8; 100]),
        chunk(b"fmt ", &fmt_body(1, 1, 16, 2)),
        chunk(b"data", &[0, 0]),
    ]);
    let r = WaveReader::new(file).unwrap();
    assert_eq!(
        r.broadcast_extension().err(),
        Some(Error::IOError(IoErrorKind::UnexpectedEof))
    );
    let r = wave(fmt_body(1, 1, 16, 2), &[0, 0]);
    assert_eq!(
        r.broadcast_extension().err(),
        Some(Error::ChunkMissing { signature: bwavfile::fourcc::bext_sig() })
    );
}

