use demus::bank::{Bank, BANK_MAGIC};
use demus::cursor::FormatError;
use demus::decode::decode_bank;
use demus::descriptor::{descriptor_text, ZoneLevels};
use demus::name::name_to_str;
use demus::samples::{export_samples, loop_info_text, sample_file_name};
use demus::sequences::split_sequences;
use demus::Platform;

fn le(v: &mut Vec<u8>, x: i32) {
    v.extend_from_slice(&x.to_le_bytes());
}

fn name(v: &mut Vec<u8>, s: &str) {
    let mut field = [0u8; 20];
    field[..s.len()].copy_from_slice(s.as_bytes());
    v.extend_from_slice(&field);
}

fn header(v: &mut Vec<u8>, sequences: i32, waves: i32, programs: i32, presets: i32) {
    v.extend_from_slice(&BANK_MAGIC.to_be_bytes());
    for x in [48, 2, 127, 4, 1, sequences, 0, 0, waves, programs, presets] {
        le(v, x);
    }
}

fn wave(v: &mut Vec<u8>, n: &str, offset: i32, half_size: i32, loop_info: i32) {
    name(v, n);
    for x in [offset, 10, half_size, 40, 22050, 60 * 256, loop_info, 0] {
        le(v, x);
    }
}

fn program_zone(v: &mut Vec<u8>, root_key: i32, wave_index: i32) {
    le(v, 300);
    le(v, 3);
    v.extend_from_slice(&0.5f32.to_le_bytes());
    le(v, 0);
    le(v, 0);
    for _ in 0..6 {
        v.extend_from_slice(&1.0f32.to_le_bytes());
    }
    for _ in 0..4 {
        v.extend_from_slice(&0.0f32.to_le_bytes());
    }
    le(v, root_key);
    v.extend_from_slice(&[0, 127, 1, 126]);
    le(v, wave_index);
    v.extend_from_slice(&0.0f32.to_le_bytes());
    for _ in 0..6 {
        v.extend_from_slice(&0.0f32.to_le_bytes());
    }
    v.extend_from_slice(&0.0f32.to_le_bytes());
}

/// A bank of two sequences, one wave, one program and one preset, each
/// with one zone, then the sequence bytes.
fn small_bank(root_key: i32, wave_index: i32, program_index: i32) -> Vec<u8> {
    let mut v = Vec::new();
    header(&mut v, 2, 1, 1, 1);
    le(&mut v, 0);
    le(&mut v, 296);
    le(&mut v, 1);
    le(&mut v, 300);
    le(&mut v, 7);
    le(&mut v, 8);
    wave(&mut v, "C Hit      ", 4, 8, 1);
    name(&mut v, "Drums");
    le(&mut v, 1);
    program_zone(&mut v, root_key, wave_index);
    name(&mut v, "Kit");
    le(&mut v, 128);
    le(&mut v, 5);
    le(&mut v, 1);
    le(&mut v, -1);
    v.extend_from_slice(&[36, 60, 0, 127]);
    le(&mut v, program_index);
    assert_eq!(v.len(), 296);
    v.extend_from_slice(&[1, 2, 3, 4, 5, 6, 7, 8, 9, 10]);
    v
}

fn levels_for(b: &Bank) -> Vec<Vec<ZoneLevels>> {
    let l = ZoneLevels {
        pan: 0,
        attack_vol: 0,
        decay_vol: 0,
        sustain_vol: 0,
        release_vol: 0,
        delay_vol: 0,
        delay_mod: 0,
        attenuation: 0,
        delay_vib: 0,
        freq_vib: 0,
        vib_to_pitch: 0,
        attack_mod: 0,
        decay_mod: 0,
        sustain_mod: 0,
        release_mod: 0,
        mod_to_pitch: 0,
    };
    b.program_zones.iter().map(|zs| zs.iter().map(|_| l).collect()).collect()
}

#[test]
fn decodes_every_table() {
    let b = decode_bank(small_bank(-1, 0, 0)).unwrap();
    assert_eq!(b.header.sequence_count, 2);
    assert_eq!(b.header.reverb_volume, 127);
    assert_eq!(b.sequences.len(), 2);
    assert_eq!(b.sequences[1].index, 1);
    assert_eq!(b.sequences[1].offset, 300);
    assert_eq!(b.layers, vec![7, 8]);
    assert_eq!(b.waves.len(), 1);
    let w = &b.waves[0];
    assert_eq!(name_to_str(&w.name), "C Hit");
    assert_eq!(w.offset, 4);
    assert_eq!(w.size, 16);
    assert_eq!(w.loop_end, 40);
    assert_eq!(w.sample_rate, 22050);
    assert_eq!(w.original_pitch, 60);
    assert_eq!(b.programs.len(), 1);
    assert_eq!(b.program_zones[0].len(), 1);
    let z = &b.program_zones[0][0];
    assert_eq!(z.pitch_finetuning, 300);
    assert_eq!(z.pan_bits, 0.5f32.to_bits());
    assert_eq!(z.volume_env.attack, 1.0f32.to_bits());
    assert_eq!(z.note_high, 127);
    assert_eq!(z.velocity_high, 126);
    assert_eq!(z.root_key, -1);
    assert_eq!(b.presets.len(), 1);
    assert_eq!(name_to_str(&b.presets[0].name), "Kit");
    assert_eq!(b.presets[0].midi_bank_number, 128);
    assert_eq!(b.preset_zones[0][0].note_low, 36);
    assert_eq!(b.preset_zones[0][0].program_index, 0);
}

#[test]
fn bad_magic_is_rejected() {
    let mut v = small_bank(-1, 0, 0);
    v[0] = b'X';
    assert_eq!(decode_bank(v).unwrap_err(), FormatError::BadMagic);
}

#[test]
fn short_inputs_are_eof() {
    let v = small_bank(-1, 0, 0);
    assert_eq!(decode_bank(v[..47].to_vec()).unwrap_err(), FormatError::UnexpectedEof);
    assert_eq!(decode_bank(v[..200].to_vec()).unwrap_err(), FormatError::UnexpectedEof);
    assert_eq!(decode_bank(v[..295].to_vec()).unwrap_err(), FormatError::UnexpectedEof);
    assert!(decode_bank(v[..296].to_vec()).is_ok());
}

#[test]
fn negative_counts_read_nothing() {
    let mut v = Vec::new();
    header(&mut v, -3, -1, 0, 0);
    let b = decode_bank(v).unwrap();
    assert!(b.sequences.is_empty());
    assert!(b.waves.is_empty());
}

#[test]
fn end_to_end_one_of_each() {
    let file = small_bank(-1, 0, 0);
    let b = decode_bank(file.clone()).unwrap();
    let seqs = split_sequences(&file, &b.sequences).unwrap();
    assert_eq!(seqs.len(), 2);
    assert_eq!(seqs[0], vec![1, 2, 3, 4]);
    assert_eq!(seqs[1], vec![5, 6, 7, 8, 9, 10]);

    let mut sam: Vec<u8> = (0..32).collect();
    let files = export_samples(&b.waves, &mut sam, Platform::PC).unwrap();
    assert_eq!(files.len(), 1);
    assert_eq!(sample_file_name(&b.waves[0]), "C Hit.ads");
    assert_eq!(&files[0][40..], &(4u8..20).collect::<Vec<u8>>()[..]);

    let text = descriptor_text(&b, &levels_for(&b), "bank").unwrap();
    assert_eq!(text.matches("[Samples]").count(), 1);
    assert_eq!(text.matches("SampleName=").count(), 1);
    assert_eq!(text.matches("[Instruments]").count(), 1);
    assert_eq!(text.matches("InstrumentName=Drums\r\n").count(), 1);
    assert_eq!(text.matches("        Sample=C Hit\r\n").count(), 1);
    assert_eq!(text.matches("[Presets]").count(), 1);
    assert_eq!(text.matches("PresetName=Kit\r\n").count(), 1);
    assert_eq!(text.matches("        Instrument=Drums\r\n").count(), 1);
    assert!(text.ends_with("\r\n\r\n[Info]\r\nVersion=2.1\r\nEngine=EMU8000\r\nName=bank\r\nEditor=Demus\r\n"));
}

#[test]
fn descriptor_exact_sections() {
    let file = small_bank(-1, 0, 0);
    let b = decode_bank(file).unwrap();
    let text = descriptor_text(&b, &levels_for(&b), "bank").unwrap();
    assert!(text.starts_with(
        "[Samples]\r\n    SampleName=C Hit\r\n        SampleRate=22050\r\n        Key=60\r\n        FineTune=0\r\n        Type=1\r\n\r\n\r\n[Instruments]\r\n\r\n    InstrumentName=Drums\r\n\r\n        Sample=C Hit\r\n            Z_coarseTune=1\r\n            Z_fineTune=17\r\n            Z_reverbEffectsSend=30\r\n"
    ));
    assert!(text.contains(
        "            Z_modEnvToPitch=0\r\n            Z_sampleModes=1\r\n\r\n        GlobalZone\r\n\r\n\r\n[Presets]\r\n\r\n\r\n    PresetName=Kit\r\n        Bank=128\r\n        Program=5\r\n\r\n        Instrument=Drums\r\n            L_LowKey=36\r\n            L_HighKey=60\r\n            L_LowVelocity=0\r\n            L_HighVelocity=127\r\n\r\n        GlobalLayer\r\n"
    ));
}

#[test]
fn sentinel_root_key_has_no_override_line() {
    let b = decode_bank(small_bank(-1, 0, 0)).unwrap();
    let text = descriptor_text(&b, &levels_for(&b), "bank").unwrap();
    assert!(!text.contains("Z_overridingRootKey"));
    let b = decode_bank(small_bank(64, 0, 0)).unwrap();
    let text = descriptor_text(&b, &levels_for(&b), "bank").unwrap();
    assert_eq!(text.matches("            Z_overridingRootKey=64\r\n").count(), 1);
}

#[test]
fn bad_foreign_keys_are_invalid_index() {
    let b = decode_bank(small_bank(-1, 1, 0)).unwrap();
    assert_eq!(descriptor_text(&b, &levels_for(&b), "bank").unwrap_err(), FormatError::InvalidIndex);
    let b = decode_bank(small_bank(-1, 0, 3)).unwrap();
    assert_eq!(descriptor_text(&b, &levels_for(&b), "bank").unwrap_err(), FormatError::InvalidIndex);
    let b = decode_bank(small_bank(-1, -1, 0)).unwrap();
    assert_eq!(descriptor_text(&b, &levels_for(&b), "bank").unwrap_err(), FormatError::InvalidIndex);
}

#[test]
fn loop_list_skips_non_looping_waves() {
    let mut v = Vec::new();
    header(&mut v, 0, 2, 0, 0);
    wave(&mut v, "Loop", 0, 4, 1);
    wave(&mut v, "OneShot", 8, 4, 0);
    let b = decode_bank(v).unwrap();
    assert_eq!(loop_info_text(&b.waves), "10 39 Loop.wav\n");
}
