use demus::bank::{SequenceTableEntry, WaveEntry};
use demus::cursor::FormatError;
use demus::samples::{export_samples, patch_end_marker, sample_file};
use demus::sequences::{sequence_spans, split_sequences};
use demus::vag::vag_header;
use demus::Platform;

fn table(offsets: &[i32]) -> Vec<SequenceTableEntry> {
    offsets.iter().enumerate().map(|(i, o)| SequenceTableEntry { index: i as i32, offset: *o }).collect()
}

fn wave(offset: i32, size: i64) -> WaveEntry {
    WaveEntry {
        name: "W".chars().chain(std::iter::repeat('\0').take(19)).collect(),
        offset,
        loop_begin: 0,
        size,
        loop_end: 0,
        sample_rate: 44100,
        original_pitch: 60,
        loop_info: 0,
        snd_handle: 0,
    }
}

#[test]
fn spans_run_to_next_offset_and_end_of_file() {
    let spans = sequence_spans(&table(&[10, 14, 14, 20]), 25).unwrap();
    assert_eq!(spans, vec![(10, 14), (14, 14), (14, 20), (20, 25)]);
    for i in 0..spans.len() {
        for j in i + 1..spans.len() {
            assert!(spans[i].1 <= spans[j].0);
        }
    }
}

#[test]
fn spans_reject_bad_offsets() {
    assert_eq!(sequence_spans(&table(&[10, 5]), 25), Err(FormatError::SpanOutOfRange));
    assert_eq!(sequence_spans(&table(&[-1]), 25), Err(FormatError::SpanOutOfRange));
    assert_eq!(sequence_spans(&table(&[26]), 25), Err(FormatError::SpanOutOfRange));
    assert_eq!(sequence_spans(&table(&[]), 25), Ok(vec![]));
}

#[test]
fn sequences_reassemble_the_file_tail() {
    let file: Vec<u8> = (0..40).collect();
    let parts = split_sequences(&file, &table(&[12, 20, 31, 31])).unwrap();
    assert_eq!(parts.len(), 4);
    assert!(parts[2].is_empty());
    let joined: Vec<u8> = parts.concat();
    assert_eq!(joined, file[12..].to_vec());
}

#[test]
fn sample_file_header_layout() {
    let f = sample_file(Platform::PC, 22050, &[9, 8, 7]);
    let mut want = vec![0x53, 0x53, 0x68, 0x64, 0x18, 0, 0, 0, 0x01, 0, 0, 0];
    want.extend_from_slice(&22050i32.to_le_bytes());
    want.extend_from_slice(&[1, 0, 0, 0, 0, 0, 0, 0]);
    want.extend_from_slice(&[0xff; 8]);
    want.extend_from_slice(b"SSbd");
    want.extend_from_slice(&3u32.to_le_bytes());
    want.extend_from_slice(&[9, 8, 7]);
    assert_eq!(f, want);
    let f = sample_file(Platform::Console, 22050, &[]);
    assert_eq!(f[8], 0x10);
    assert_eq!(f.len(), 40);
}

fn marked(len: usize, end: usize) -> Vec<u8> {
    let mut sam = vec![0u8; len];
    sam[end - 16] = 0x07;
    for b in &mut sam[end - 14..end] {
        *b = 0x77;
    }
    sam
}

#[test]
fn end_marker_is_mended() {
    let mut sam = marked(40, 32);
    patch_end_marker(&mut sam, 32);
    assert_eq!(sam[17], 0x07);
    let mut other = marked(40, 32);
    other[20] = 0x76;
    let before = other.clone();
    patch_end_marker(&mut other, 32);
    assert_eq!(other, before);
    let mut short = vec![0x07u8; 10];
    patch_end_marker(&mut short, 10);
    assert_eq!(short, vec![0x07u8; 10]);
}

#[test]
fn console_profile_mends_before_cutting() {
    let waves = vec![wave(16, 16)];
    let mut sam = marked(40, 32);
    let files = export_samples(&waves, &mut sam, Platform::Console).unwrap();
    assert_eq!(sam[17], 0x07);
    assert_eq!(files[0][41], 0x07);
    let mut sam = marked(40, 32);
    let files = export_samples(&waves, &mut sam, Platform::PC).unwrap();
    assert_eq!(sam[17], 0x00);
    assert_eq!(files[0][41], 0x00);
}

#[test]
fn sample_spans_must_fit() {
    let mut sam = vec![0u8; 20];
    assert_eq!(export_samples(&vec![wave(10, 12)], &mut sam, Platform::PC), Err(FormatError::SpanOutOfRange));
    assert_eq!(export_samples(&vec![wave(-1, 2)], &mut sam, Platform::PC), Err(FormatError::SpanOutOfRange));
    assert_eq!(export_samples(&vec![wave(0, -2)], &mut sam, Platform::PC), Err(FormatError::SpanOutOfRange));
    assert_eq!(export_samples(&vec![wave(10, 10)], &mut sam, Platform::PC).unwrap()[0].len(), 50);
}

#[test]
fn vag_header_layout() {
    let h = vag_header(0x0102_0304, 44100);
    assert_eq!(h.len(), 48);
    assert_eq!(&h[..4], b"VAGp");
    assert_eq!(&h[4..8], &[0, 0, 0, 0x20]);
    assert_eq!(&h[12..16], &[1, 2, 3, 4]);
    assert_eq!(&h[16..20], &44100u32.to_be_bytes());
    assert!(h[20..].iter().all(|b| *b == 0));
}
