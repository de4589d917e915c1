use demus::cursor::ByteCursor;
use demus::mul::{get_bytes, parse_u32, split_mul, Chunk, MulError};

fn le(v: &mut Vec<u8>, x: u32) {
    v.extend_from_slice(&x.to_le_bytes());
}

fn mul_file(channels: u32) -> Vec<u8> {
    let mut v = vec![0u8; 0x800];
    v[..4].copy_from_slice(&22050u32.to_le_bytes());
    v[12..16].copy_from_slice(&channels.to_le_bytes());
    v
}

fn audio(v: &mut Vec<u8>, payload: &[u8]) {
    le(v, 0);
    le(v, payload.len() as u32 + 16);
    v.extend_from_slice(&[0; 24]);
    v.extend_from_slice(payload);
}

fn other(v: &mut Vec<u8>, kind: u32, payload: &[u8]) {
    le(v, kind);
    le(v, payload.len() as u32);
    v.extend_from_slice(&[0; 8]);
    v.extend_from_slice(payload);
}

#[test]
fn splits_channels_and_data() {
    let mut v = mul_file(2);
    audio(&mut v, &[1, 2, 3, 4]);
    other(&mut v, 1, &[9, 9]);
    other(&mut v, 2, &[0, 0, 0]);
    audio(&mut v, &[5, 6]);
    other(&mut v, 1, &[8]);
    let m = split_mul(v).unwrap();
    assert_eq!(m.sample_rate, 22050);
    assert_eq!(m.channels, 2);
    assert_eq!(m.audio, vec![vec![1, 2, 5], vec![3, 4, 6]]);
    assert_eq!(m.data, vec![9, 9, 8]);
    assert_eq!(m.audio_chunks, 2);
    assert_eq!(m.data_chunks, 2);
    assert_eq!(m.padding_chunks, 1);
}

#[test]
fn split_errors() {
    assert_eq!(split_mul(vec![0; 100]).err(), Some(MulError::UnexpectedEof));
    let mut v = mul_file(2);
    audio(&mut v, &[1, 2, 3]);
    assert_eq!(split_mul(v).err(), Some(MulError::UnevenAudio));
    let mut v = mul_file(1);
    other(&mut v, 7, &[]);
    assert_eq!(split_mul(v).err(), Some(MulError::UnknownChunk(7)));
    let mut v = mul_file(1);
    le(&mut v, 0);
    le(&mut v, 8);
    v.extend_from_slice(&[0; 24]);
    assert_eq!(split_mul(v).err(), Some(MulError::ShortAudioChunk));
    let mut v = mul_file(1);
    other(&mut v, 1, &[1, 2, 3]);
    v.truncate(v.len() - 1);
    assert_eq!(split_mul(v).err(), Some(MulError::UnexpectedEof));
}

#[test]
fn trailing_partial_header_ends_stream() {
    let mut v = mul_file(1);
    other(&mut v, 1, &[4]);
    v.extend_from_slice(&[1, 0, 0]);
    let m = split_mul(v).unwrap();
    assert_eq!(m.data, vec![4]);
}

#[test]
fn chunk_headers_parse() {
    let mut v = Vec::new();
    audio(&mut v, &[1, 2]);
    other(&mut v, 2, &[]);
    let mut c = ByteCursor::new(v);
    assert_eq!(Chunk::parse(&mut c), Ok(Some(Chunk::Audio { size: 2 })));
    assert_eq!(get_bytes(&mut c, 2), vec![1, 2]);
    assert_eq!(Chunk::parse(&mut c), Ok(Some(Chunk::Padding { size: 0 })));
    assert_eq!(Chunk::parse(&mut c), Ok(None));
    assert_eq!(parse_u32(&mut c), None);
    let mut c = ByteCursor::new(vec![7, 0, 0, 0]);
    assert_eq!(parse_u32(&mut c), Some(7));
}
