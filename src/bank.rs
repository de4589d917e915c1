use vstd::prelude::*;
use crate::cursor::{i32_be, i32_le, u32_le};
use crate::name::{is_name_byte, sanitized};
use crate::units::trunc_div;

verus! {

/// The bank's signature, "Mus!" read big-endian.
pub const BANK_MAGIC: i32 = 0x4D75_7321;
pub const HEADER_LEN: usize = 48;
pub const SEQUENCE_ENTRY_LEN: usize = 8;
pub const LAYER_LEN: usize = 4;
pub const WAVE_ENTRY_LEN: usize = 52;
pub const PROGRAM_ENTRY_LEN: usize = 24;
pub const PROGRAM_ZONE_LEN: usize = 104;
pub const PRESET_ENTRY_LEN: usize = 32;
pub const PRESET_ZONE_LEN: usize = 12;

/// The fixed header at the start of a bank.
#[derive(Clone, Copy, Debug, PartialEq, Eq, Structural)]
pub struct BankHeader {
    pub magic: i32,
    pub header_size: i32,
    pub version: i32,
    pub reverb_volume: i32,
    pub reverb_type: i32,
    pub reverb_multiply: i32,
    pub sequence_count: i32,
    pub label_count: i32,
    pub label_table_offset: i32,
    pub wave_count: i32,
    pub program_count: i32,
    pub preset_count: i32,
}

/// Where a sequence starts in the bank.
#[derive(Clone, Copy, Debug, PartialEq, Eq, Structural)]
pub struct SequenceTableEntry {
    pub index: i32,
    pub offset: i32,
}

/// One sample of the companion sample container.
#[derive(Debug)]
pub struct WaveEntry {
    pub name: Vec<char>,
    pub offset: i32,
    pub loop_begin: i32,
    /// In bytes: twice the stored half-size.
    pub size: i64,
    pub loop_end: i32,
    pub sample_rate: i32,
    /// The MIDI key: the stored fixed-point pitch over 256.
    pub original_pitch: i32,
    pub loop_info: i32,
    pub snd_handle: i32,
}

impl WaveEntry {
    /// Whether a byte may stand in a name.
    pub fn valid_char(c: &u8) -> (r: bool)
        ensures
            r == is_name_byte(*c),
    {
        match *c {
            34 | 36 | 42 | 47 | 58 | 59 | 60 | 62 | 63 | 92 | 94 | 96 => false,
            32..=126 => true,
            _ => false,
        }
    }
}

/// A six-stage envelope. Each field is the IEEE-754 bit pattern of a
/// single-precision float: seconds, or a percentage for `sustain`.
#[derive(Clone, Copy, Debug, PartialEq, Eq, Structural)]
pub struct Envelope {
    pub delay: u32,
    pub attack: u32,
    pub hold: u32,
    pub decay: u32,
    pub sustain: u32,
    pub release: u32,
}

/// One key/velocity zone of a program. Fields ending in `_bits` hold the
/// bit pattern of a single-precision float.
#[derive(Clone, Copy, Debug, PartialEq, Eq, Structural)]
pub struct ProgramZone {
    pub pitch_finetuning: i32,
    pub reverb: i32,
    pub pan_bits: u32,
    pub keynum_hold: i32,
    pub keynum_decay: i32,
    pub volume_env: Envelope,
    pub volume_env_atten_bits: u32,
    pub vib_delay_bits: u32,
    pub vib_frequency_bits: u32,
    pub vib_to_pitch_bits: u32,
    /// `-1` when the wave's own pitch is the root key.
    pub root_key: i32,
    pub note_low: u8,
    pub note_high: u8,
    pub velocity_low: u8,
    pub velocity_high: u8,
    pub wave_index: i32,
    pub base_priority_bits: u32,
    pub modul_env: Envelope,
    pub modul_env_to_pitch_bits: u32,
}

#[derive(Debug)]
pub struct ProgramEntry {
    pub name: Vec<char>,
    pub num_zones: i32,
}

#[derive(Clone, Copy, Debug, PartialEq, Eq, Structural)]
pub struct PresetZone {
    pub root_key: i32,
    pub note_low: u8,
    pub note_high: u8,
    pub velocity_low: u8,
    pub velocity_high: u8,
    pub program_index: i32,
}

#[derive(Debug)]
pub struct PresetEntry {
    pub name: Vec<char>,
    pub midi_bank_number: i32,
    pub midi_preset_number: i32,
    pub num_zones: i32,
}

/// A decoded bank. Zones stay grouped by their entry:
/// `program_zones[i]` belongs to `programs[i]`, and likewise for presets.
#[derive(Debug)]
pub struct Bank {
    pub header: BankHeader,
    pub sequences: Vec<SequenceTableEntry>,
    pub layers: Vec<i32>,
    pub waves: Vec<WaveEntry>,
    pub programs: Vec<ProgramEntry>,
    pub program_zones: Vec<Vec<ProgramZone>>,
    pub presets: Vec<PresetEntry>,
    pub preset_zones: Vec<Vec<PresetZone>>,
}

/// How many times a loop up to a signed count runs.
pub open spec fn count(x: int) -> int {
    if x < 0 {
        0
    } else {
        x
    }
}

pub open spec fn header_at(d: Seq<u8>, h: BankHeader) -> bool {
    &&& h.magic == i32_be(d, 0)
    &&& h.header_size == i32_le(d, 4)
    &&& h.version == i32_le(d, 8)
    &&& h.reverb_volume == i32_le(d, 12)
    &&& h.reverb_type == i32_le(d, 16)
    &&& h.reverb_multiply == i32_le(d, 20)
    &&& h.sequence_count == i32_le(d, 24)
    &&& h.label_count == i32_le(d, 28)
    &&& h.label_table_offset == i32_le(d, 32)
    &&& h.wave_count == i32_le(d, 36)
    &&& h.program_count == i32_le(d, 40)
    &&& h.preset_count == i32_le(d, 44)
}

pub open spec fn name_at(d: Seq<u8>, p: int, n: Seq<char>) -> bool {
    n == sanitized(d.subrange(p, p + 20))
}

pub open spec fn sequence_entry_at(d: Seq<u8>, p: int, e: SequenceTableEntry) -> bool {
    e.index == i32_le(d, p) && e.offset == i32_le(d, p + 4)
}

pub open spec fn wave_at(d: Seq<u8>, p: int, w: WaveEntry) -> bool {
    &&& name_at(d, p, w.name@)
    &&& w.offset == i32_le(d, p + 20)
    &&& w.loop_begin == i32_le(d, p + 24)
    &&& w.size == 2 * i32_le(d, p + 28)
    &&& w.loop_end == i32_le(d, p + 32)
    &&& w.sample_rate == i32_le(d, p + 36)
    &&& w.original_pitch == trunc_div(i32_le(d, p + 40) as int, 256)
    &&& w.loop_info == i32_le(d, p + 44)
    &&& w.snd_handle == i32_le(d, p + 48)
}

pub open spec fn envelope_at(d: Seq<u8>, p: int, e: Envelope) -> bool {
    &&& e.delay == u32_le(d, p)
    &&& e.attack == u32_le(d, p + 4)
    &&& e.hold == u32_le(d, p + 8)
    &&& e.decay == u32_le(d, p + 12)
    &&& e.sustain == u32_le(d, p + 16)
    &&& e.release == u32_le(d, p + 20)
}

pub open spec fn program_zone_at(d: Seq<u8>, p: int, z: ProgramZone) -> bool {
    &&& z.pitch_finetuning == i32_le(d, p)
    &&& z.reverb == i32_le(d, p + 4)
    &&& z.pan_bits == u32_le(d, p + 8)
    &&& z.keynum_hold == i32_le(d, p + 12)
    &&& z.keynum_decay == i32_le(d, p + 16)
    &&& envelope_at(d, p + 20, z.volume_env)
    &&& z.volume_env_atten_bits == u32_le(d, p + 44)
    &&& z.vib_delay_bits == u32_le(d, p + 48)
    &&& z.vib_frequency_bits == u32_le(d, p + 52)
    &&& z.vib_to_pitch_bits == u32_le(d, p + 56)
    &&& z.root_key == i32_le(d, p + 60)
    &&& z.note_low == d[p + 64]
    &&& z.note_high == d[p + 65]
    &&& z.velocity_low == d[p + 66]
    &&& z.velocity_high == d[p + 67]
    &&& z.wave_index == i32_le(d, p + 68)
    &&& z.base_priority_bits == u32_le(d, p + 72)
    &&& envelope_at(d, p + 76, z.modul_env)
    &&& z.modul_env_to_pitch_bits == u32_le(d, p + 100)
}

pub open spec fn preset_zone_at(d: Seq<u8>, p: int, z: PresetZone) -> bool {
    &&& z.root_key == i32_le(d, p)
    &&& z.note_low == d[p + 4]
    &&& z.note_high == d[p + 5]
    &&& z.velocity_low == d[p + 6]
    &&& z.velocity_high == d[p + 7]
    &&& z.program_index == i32_le(d, p + 8)
}

/// The zone count of the program entry at `p`.
pub open spec fn program_zone_count(d: Seq<u8>, p: int) -> int {
    count(i32_le(d, p + 20) as int)
}

/// The zone count of the preset entry at `p`.
pub open spec fn preset_zone_count(d: Seq<u8>, p: int) -> int {
    count(i32_le(d, p + 28) as int)
}

/// Where the `n`th program entry starts, the first one starting at `p`:
/// each entry is followed by its zones.
pub open spec fn programs_end(d: Seq<u8>, p: int, n: int) -> int
    decreases n,
{
    if n <= 0 {
        p
    } else {
        let q = programs_end(d, p, n - 1);
        q + 24 + 104 * program_zone_count(d, q)
    }
}

/// Where the `n`th preset entry starts, the first one starting at `p`.
pub open spec fn presets_end(d: Seq<u8>, p: int, n: int) -> int
    decreases n,
{
    if n <= 0 {
        p
    } else {
        let q = presets_end(d, p, n - 1);
        q + 32 + 12 * preset_zone_count(d, q)
    }
}

pub open spec fn programs_at(
    d: Seq<u8>,
    p: int,
    ps: Seq<ProgramEntry>,
    zs: Seq<Vec<ProgramZone>>,
) -> bool {
    &&& zs.len() == ps.len()
    &&& forall|i: int|
        0 <= i < ps.len() ==> {
            let q = #[trigger] programs_end(d, p, i);
            &&& name_at(d, q, ps[i].name@)
            &&& ps[i].num_zones == i32_le(d, q + 20)
            &&& zs[i]@.len() == program_zone_count(d, q)
            &&& forall|j: int|
                0 <= j < zs[i]@.len() ==> program_zone_at(d, q + 24 + 104 * j, #[trigger] zs[i]@[j])
        }
}

pub open spec fn presets_at(
    d: Seq<u8>,
    p: int,
    ps: Seq<PresetEntry>,
    zs: Seq<Vec<PresetZone>>,
) -> bool {
    &&& zs.len() == ps.len()
    &&& forall|i: int|
        0 <= i < ps.len() ==> {
            let q = #[trigger] presets_end(d, p, i);
            &&& name_at(d, q, ps[i].name@)
            &&& ps[i].midi_bank_number == i32_le(d, q + 20)
            &&& ps[i].midi_preset_number == i32_le(d, q + 24)
            &&& ps[i].num_zones == i32_le(d, q + 28)
            &&& zs[i]@.len() == preset_zone_count(d, q)
            &&& forall|j: int|
                0 <= j < zs[i]@.len() ==> preset_zone_at(d, q + 32 + 12 * j, #[trigger] zs[i]@[j])
        }
}

pub proof fn lemma_programs_end_grows(d: Seq<u8>, p: int, i: int, n: int)
    requires
        0 <= i <= n,
    ensures
        programs_end(d, p, i) + 24 * (n - i) <= programs_end(d, p, n),
    decreases n,
{
    if i < n {
        lemma_programs_end_grows(d, p, i, n - 1);
    }
}

pub proof fn lemma_presets_end_grows(d: Seq<u8>, p: int, i: int, n: int)
    requires
        0 <= i <= n,
    ensures
        presets_end(d, p, i) + 32 * (n - i) <= presets_end(d, p, n),
    decreases n,
{
    if i < n {
        lemma_presets_end_grows(d, p, i, n - 1);
    }
}

/// The header's count at byte `p`, as a loop count.
pub open spec fn header_count(d: Seq<u8>, p: int) -> int {
    count(i32_le(d, p) as int)
}

pub open spec fn layers_start(d: Seq<u8>) -> int {
    48 + 8 * header_count(d, 24)
}

pub open spec fn waves_start(d: Seq<u8>) -> int {
    layers_start(d) + 4 * count(i32_le(d, 40) + i32_le(d, 44))
}

pub open spec fn programs_start(d: Seq<u8>) -> int {
    waves_start(d) + 52 * header_count(d, 36)
}

pub open spec fn presets_start(d: Seq<u8>) -> int {
    programs_end(d, programs_start(d), header_count(d, 40))
}

/// Where a bank's last table ends.
pub open spec fn bank_end(d: Seq<u8>) -> int {
    presets_end(d, presets_start(d), header_count(d, 44))
}

/// `b` is what the bytes `d` hold, table by table.
pub open spec fn bank_matches(d: Seq<u8>, b: Bank) -> bool {
    &&& header_at(d, b.header)
    &&& b.sequences@.len() == header_count(d, 24)
    &&& forall|i: int| 0 <= i < b.sequences@.len() ==> sequence_entry_at(d, 48 + 8 * i, #[trigger] b.sequences@[i])
    &&& b.layers@.len() == count(i32_le(d, 40) + i32_le(d, 44))
    &&& forall|i: int| 0 <= i < b.layers@.len() ==> #[trigger] b.layers@[i] == i32_le(d, layers_start(d) + 4 * i)
    &&& b.waves@.len() == header_count(d, 36)
    &&& forall|i: int| 0 <= i < b.waves@.len() ==> wave_at(d, waves_start(d) + 52 * i, #[trigger] b.waves@[i])
    &&& b.programs@.len() == header_count(d, 40)
    &&& programs_at(d, programs_start(d), b.programs@, b.program_zones@)
    &&& b.presets@.len() == header_count(d, 44)
    &&& presets_at(d, presets_start(d), b.presets@, b.preset_zones@)
}

proof fn lemma_programs_end_from(d: Seq<u8>, p: int, n: int)
    requires
        0 <= n,
    ensures
        p + 24 * n <= programs_end(d, p, n),
{
    lemma_programs_end_grows(d, p, 0, n);
}

/// Each table starts no earlier than the one before it.
pub proof fn lemma_tables_ordered(d: Seq<u8>)
    ensures
        48 <= layers_start(d) <= waves_start(d) <= programs_start(d) <= presets_start(d) <= bank_end(d),
{
    lemma_programs_end_from(d, programs_start(d), header_count(d, 40));
    lemma_presets_end_grows(d, presets_start(d), 0, header_count(d, 44));
}

} // verus!

