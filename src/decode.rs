use vstd::prelude::*;
use crate::bank::{
    bank_end, bank_matches, count, envelope_at, header_at, lemma_presets_end_grows,
    lemma_programs_end_grows, lemma_tables_ordered, name_at, preset_zone_at, preset_zone_count,
    presets_at, presets_end, program_zone_at, program_zone_count, programs_at, programs_end,
    sequence_entry_at, wave_at, Bank, BankHeader, Envelope, PresetEntry, PresetZone, ProgramEntry,
    ProgramZone, SequenceTableEntry, WaveEntry, BANK_MAGIC, HEADER_LEN, LAYER_LEN, PRESET_ENTRY_LEN,
    PRESET_ZONE_LEN, PROGRAM_ENTRY_LEN, PROGRAM_ZONE_LEN, SEQUENCE_ENTRY_LEN, WAVE_ENTRY_LEN,
};
use crate::cursor::{ByteCursor, FormatError, i32_be, i32_le};
use crate::name::parse_name;
use crate::units::semitone_tuning;

verus! {

fn read_name(c: &mut ByteCursor) -> (r: Vec<char>)
    requires
        old(c).wf(),
        old(c).rest() >= 20,
    ensures
        final(c).wf(),
        final(c).data@ == old(c).data@,
        final(c).pos == old(c).pos + 20,
        name_at(old(c).data@, old(c).pos as int, r@),
{
    let raw = c.take_bytes(20);
    assert(raw@.take(20) =~= raw@);
    parse_name(raw.as_slice())
}

impl Envelope {
    /// Reads the six stages, each a little-endian float's bit pattern.
    pub fn parse(c: &mut ByteCursor) -> (r: Envelope)
        requires
            old(c).wf(),
            old(c).rest() >= 24,
        ensures
            final(c).wf(),
            final(c).data@ == old(c).data@,
            final(c).pos == old(c).pos + 24,
            envelope_at(old(c).data@, old(c).pos as int, r),
    {
        let delay = c.take_u32_le();
        let attack = c.take_u32_le();
        let hold = c.take_u32_le();
        let decay = c.take_u32_le();
        let sustain = c.take_u32_le();
        let release = c.take_u32_le();
        Envelope { delay, attack, hold, decay, sustain, release }
    }
}

fn read_wave(c: &mut ByteCursor) -> (r: WaveEntry)
    requires
        old(c).wf(),
        old(c).rest() >= 52,
    ensures
        final(c).wf(),
        final(c).data@ == old(c).data@,
        final(c).pos == old(c).pos + 52,
        wave_at(old(c).data@, old(c).pos as int, r),
{
    let name = read_name(c);
    let offset = c.take_i32_le();
    let loop_begin = c.take_i32_le();
    let half_size = c.take_i32_le();
    let loop_end = c.take_i32_le();
    let sample_rate = c.take_i32_le();
    let pitch = c.take_i32_le();
    let loop_info = c.take_i32_le();
    let snd_handle = c.take_i32_le();
    WaveEntry {
        name,
        offset,
        loop_begin,
        size: 2 * (half_size as i64),
        loop_end,
        sample_rate,
        original_pitch: semitone_tuning(pitch),
        loop_info,
        snd_handle,
    }
}

fn read_program_zone(c: &mut ByteCursor) -> (r: ProgramZone)
    requires
        old(c).wf(),
        old(c).rest() >= 104,
    ensures
        final(c).wf(),
        final(c).data@ == old(c).data@,
        final(c).pos == old(c).pos + 104,
        program_zone_at(old(c).data@, old(c).pos as int, r),
{
    let pitch_finetuning = c.take_i32_le();
    let reverb = c.take_i32_le();
    let pan_bits = c.take_u32_le();
    let keynum_hold = c.take_i32_le();
    let keynum_decay = c.take_i32_le();
    let volume_env = Envelope::parse(c);
    let volume_env_atten_bits = c.take_u32_le();
    let vib_delay_bits = c.take_u32_le();
    let vib_frequency_bits = c.take_u32_le();
    let vib_to_pitch_bits = c.take_u32_le();
    let root_key = c.take_i32_le();
    let note_low = c.take_byte();
    let note_high = c.take_byte();
    let velocity_low = c.take_byte();
    let velocity_high = c.take_byte();
    let wave_index = c.take_i32_le();
    let base_priority_bits = c.take_u32_le();
    let modul_env = Envelope::parse(c);
    let modul_env_to_pitch_bits = c.take_u32_le();
    ProgramZone {
        pitch_finetuning,
        reverb,
        pan_bits,
        keynum_hold,
        keynum_decay,
        volume_env,
        volume_env_atten_bits,
        vib_delay_bits,
        vib_frequency_bits,
        vib_to_pitch_bits,
        root_key,
        note_low,
        note_high,
        velocity_low,
        velocity_high,
        wave_index,
        base_priority_bits,
        modul_env,
        modul_env_to_pitch_bits,
    }
}

fn read_preset_zone(c: &mut ByteCursor) -> (r: PresetZone)
    requires
        old(c).wf(),
        old(c).rest() >= 12,
    ensures
        final(c).wf(),
        final(c).data@ == old(c).data@,
        final(c).pos == old(c).pos + 12,
        preset_zone_at(old(c).data@, old(c).pos as int, r),
{
    let root_key = c.take_i32_le();
    let note_low = c.take_byte();
    let note_high = c.take_byte();
    let velocity_low = c.take_byte();
    let velocity_high = c.take_byte();
    let program_index = c.take_i32_le();
    PresetZone { root_key, note_low, note_high, velocity_low, velocity_high, program_index }
}

/// Reads the sequence table: `n` (index, offset) pairs.
pub fn decode_sequences(c: &mut ByteCursor, n: i32) -> (r: Result<Vec<SequenceTableEntry>, FormatError>)
    requires
        old(c).wf(),
    ensures
        final(c).wf(),
        final(c).data@ == old(c).data@,
        r.is_ok() <==> old(c).rest() >= 8 * count(n as int),
        r.is_err() ==> r == Err::<Vec<SequenceTableEntry>, FormatError>(FormatError::UnexpectedEof),
        r.is_ok() ==> {
            &&& final(c).pos == old(c).pos + 8 * count(n as int)
            &&& r.unwrap()@.len() == count(n as int)
            &&& forall|i: int| 0 <= i < count(n as int) ==>
                sequence_entry_at(old(c).data@, old(c).pos + 8 * i, #[trigger] r.unwrap()@[i])
        },
{
    let ghost first = c.pos as int;
    let mut v: Vec<SequenceTableEntry> = Vec::new();
    let mut i: i32 = 0;
    while i < n
        invariant
            c.wf(),
            c.data@ == old(c).data@,
            0 <= i <= count(n as int),
            c.pos == first + 8 * i,
            first == old(c).pos,
            v@.len() == i,
            forall|k: int| 0 <= k < i ==> sequence_entry_at(c.data@, first + 8 * k, #[trigger] v@[k]),
        decreases n - i,
    {
        if c.remaining() < SEQUENCE_ENTRY_LEN {
            return Err(FormatError::UnexpectedEof);
        }
        let index = c.take_i32_le();
        let offset = c.take_i32_le();
        v.push(SequenceTableEntry { index, offset });
        i = i + 1;
    }
    Ok(v)
}

/// Reads `n` raw layer words (`n` may be as large as two counts together).
pub fn decode_layers(c: &mut ByteCursor, n: i64) -> (r: Result<Vec<i32>, FormatError>)
    requires
        old(c).wf(),
    ensures
        final(c).wf(),
        final(c).data@ == old(c).data@,
        r.is_ok() <==> old(c).rest() >= 4 * count(n as int),
        r.is_err() ==> r == Err::<Vec<i32>, FormatError>(FormatError::UnexpectedEof),
        r.is_ok() ==> {
            &&& final(c).pos == old(c).pos + 4 * count(n as int)
            &&& r.unwrap()@.len() == count(n as int)
            &&& forall|i: int| 0 <= i < count(n as int) ==>
                #[trigger] r.unwrap()@[i] == i32_le(old(c).data@, old(c).pos + 4 * i)
        },
{
    let ghost first = c.pos as int;
    let mut v: Vec<i32> = Vec::new();
    let mut i: i64 = 0;
    while i < n
        invariant
            c.wf(),
            c.data@ == old(c).data@,
            0 <= i <= count(n as int),
            c.pos == first + 4 * i,
            first == old(c).pos,
            v@.len() == i,
            forall|k: int| 0 <= k < i ==> #[trigger] v@[k] == i32_le(c.data@, first + 4 * k),
        decreases n - i,
    {
        if c.remaining() < LAYER_LEN {
            return Err(FormatError::UnexpectedEof);
        }
        v.push(c.take_i32_le());
        i = i + 1;
    }
    Ok(v)
}

/// Reads `n` wave entries.
pub fn decode_waves(c: &mut ByteCursor, n: i32) -> (r: Result<Vec<WaveEntry>, FormatError>)
    requires
        old(c).wf(),
    ensures
        final(c).wf(),
        final(c).data@ == old(c).data@,
        r.is_ok() <==> old(c).rest() >= 52 * count(n as int),
        r.is_err() ==> r.unwrap_err() == FormatError::UnexpectedEof,
        r.is_ok() ==> {
            &&& final(c).pos == old(c).pos + 52 * count(n as int)
            &&& r.unwrap()@.len() == count(n as int)
            &&& forall|i: int| 0 <= i < count(n as int) ==>
                wave_at(old(c).data@, old(c).pos + 52 * i, #[trigger] r.unwrap()@[i])
        },
{
    let ghost first = c.pos as int;
    let mut v: Vec<WaveEntry> = Vec::new();
    let mut i: i32 = 0;
    while i < n
        invariant
            c.wf(),
            c.data@ == old(c).data@,
            0 <= i <= count(n as int),
            c.pos == first + 52 * i,
            first == old(c).pos,
            v@.len() == i,
            forall|k: int| 0 <= k < i ==> wave_at(c.data@, first + 52 * k, #[trigger] v@[k]),
        decreases n - i,
    {
        if c.remaining() < WAVE_ENTRY_LEN {
            return Err(FormatError::UnexpectedEof);
        }
        v.push(read_wave(c));
        i = i + 1;
    }
    Ok(v)
}

/// Reads `n` program entries, each followed by its zones.
pub fn decode_programs(c: &mut ByteCursor, n: i32) -> (r: Result<(Vec<ProgramEntry>, Vec<Vec<ProgramZone>>), FormatError>)
    requires
        old(c).wf(),
    ensures
        final(c).wf(),
        final(c).data@ == old(c).data@,
        r.is_ok() <==> programs_end(old(c).data@, old(c).pos as int, count(n as int)) <= old(c).data@.len(),
        r.is_err() ==> r.unwrap_err() == FormatError::UnexpectedEof,
        r.is_ok() ==> {
            &&& final(c).pos == programs_end(old(c).data@, old(c).pos as int, count(n as int))
            &&& r.unwrap().0@.len() == count(n as int)
            &&& programs_at(old(c).data@, old(c).pos as int, r.unwrap().0@, r.unwrap().1@)
        },
{
    let ghost d = c.data@;
    let ghost first = c.pos as int;
    let mut entries: Vec<ProgramEntry> = Vec::new();
    let mut zones: Vec<Vec<ProgramZone>> = Vec::new();
    let mut i: i32 = 0;
    while i < n
        invariant
            c.wf(),
            c.data@ == d,
            d == old(c).data@,
            first == old(c).pos,
            0 <= i <= count(n as int),
            c.pos == programs_end(d, first, i as int),
            entries@.len() == i,
            programs_at(d, first, entries@, zones@),
        decreases n - i,
    {
        let ghost q = c.pos as int;
        proof {
            lemma_programs_end_grows(d, first, i + 1, count(n as int));
        }
        if c.remaining() < PROGRAM_ENTRY_LEN {
            return Err(FormatError::UnexpectedEof);
        }
        let name = read_name(c);
        let num_zones = c.take_i32_le();
        assert(program_zone_count(d, q) == count(num_zones as int));
        let mut zs: Vec<ProgramZone> = Vec::new();
        let mut j: i32 = 0;
        while j < num_zones
            invariant
                c.wf(),
                c.data@ == d,
                d == old(c).data@,
                first == old(c).pos,
                0 <= j <= count(num_zones as int),
                c.pos == q + 24 + 104 * j,
                q + 24 + 104 * count(num_zones as int) == programs_end(d, first, i + 1),
                programs_end(d, first, i + 1) <= programs_end(d, first, count(n as int)),
                zs@.len() == j,
                forall|m: int| 0 <= m < j ==> program_zone_at(d, q + 24 + 104 * m, #[trigger] zs@[m]),
            decreases num_zones - j,
        {
            if c.remaining() < PROGRAM_ZONE_LEN {
                return Err(FormatError::UnexpectedEof);
            }
            zs.push(read_program_zone(c));
            j = j + 1;
        }
        let ghost old_entries = entries@;
        let ghost old_zones = zones@;
        entries.push(ProgramEntry { name, num_zones });
        zones.push(zs);
        proof {
            assert forall|k: int| 0 <= k < entries@.len() implies {
                let qk = #[trigger] programs_end(d, first, k);
                &&& name_at(d, qk, entries@[k].name@)
                &&& entries@[k].num_zones == i32_le(d, qk + 20)
                &&& zones@[k]@.len() == program_zone_count(d, qk)
                &&& forall|m: int| 0 <= m < zones@[k]@.len() ==> program_zone_at(d, qk + 24 + 104 * m, #[trigger] zones@[k]@[m])
            } by {
                if k < i {
                    assert(entries@[k] == old_entries[k]);
                    assert(zones@[k] == old_zones[k]);
                }
            }
        }
        i = i + 1;
    }
    Ok((entries, zones))
}

/// Reads `n` preset entries, each followed by its zones.
pub fn decode_presets(c: &mut ByteCursor, n: i32) -> (r: Result<(Vec<PresetEntry>, Vec<Vec<PresetZone>>), FormatError>)
    requires
        old(c).wf(),
    ensures
        final(c).wf(),
        final(c).data@ == old(c).data@,
        r.is_ok() <==> presets_end(old(c).data@, old(c).pos as int, count(n as int)) <= old(c).data@.len(),
        r.is_err() ==> r.unwrap_err() == FormatError::UnexpectedEof,
        r.is_ok() ==> {
            &&& final(c).pos == presets_end(old(c).data@, old(c).pos as int, count(n as int))
            &&& r.unwrap().0@.len() == count(n as int)
            &&& presets_at(old(c).data@, old(c).pos as int, r.unwrap().0@, r.unwrap().1@)
        },
{
    let ghost d = c.data@;
    let ghost first = c.pos as int;
    let mut entries: Vec<PresetEntry> = Vec::new();
    let mut zones: Vec<Vec<PresetZone>> = Vec::new();
    let mut i: i32 = 0;
    while i < n
        invariant
            c.wf(),
            c.data@ == d,
            d == old(c).data@,
            first == old(c).pos,
            0 <= i <= count(n as int),
            c.pos == presets_end(d, first, i as int),
            entries@.len() == i,
            presets_at(d, first, entries@, zones@),
        decreases n - i,
    {
        let ghost q = c.pos as int;
        proof {
            lemma_presets_end_grows(d, first, i + 1, count(n as int));
        }
        if c.remaining() < PRESET_ENTRY_LEN {
            return Err(FormatError::UnexpectedEof);
        }
        let name = read_name(c);
        let midi_bank_number = c.take_i32_le();
        let midi_preset_number = c.take_i32_le();
        let num_zones = c.take_i32_le();
        assert(preset_zone_count(d, q) == count(num_zones as int));
        let mut zs: Vec<PresetZone> = Vec::new();
        let mut j: i32 = 0;
        while j < num_zones
            invariant
                c.wf(),
                c.data@ == d,
                d == old(c).data@,
                first == old(c).pos,
                0 <= j <= count(num_zones as int),
                c.pos == q + 32 + 12 * j,
                q + 32 + 12 * count(num_zones as int) == presets_end(d, first, i + 1),
                presets_end(d, first, i + 1) <= presets_end(d, first, count(n as int)),
                zs@.len() == j,
                forall|m: int| 0 <= m < j ==> preset_zone_at(d, q + 32 + 12 * m, #[trigger] zs@[m]),
            decreases num_zones - j,
        {
            if c.remaining() < PRESET_ZONE_LEN {
                return Err(FormatError::UnexpectedEof);
            }
            zs.push(read_preset_zone(c));
            j = j + 1;
        }
        let ghost old_entries = entries@;
        let ghost old_zones = zones@;
        entries.push(PresetEntry { name, midi_bank_number, midi_preset_number, num_zones });
        zones.push(zs);
        proof {
            assert forall|k: int| 0 <= k < entries@.len() implies {
                let qk = #[trigger] presets_end(d, first, k);
                &&& name_at(d, qk, entries@[k].name@)
                &&& entries@[k].midi_bank_number == i32_le(d, qk + 20)
                &&& entries@[k].midi_preset_number == i32_le(d, qk + 24)
                &&& entries@[k].num_zones == i32_le(d, qk + 28)
                &&& zones@[k]@.len() == preset_zone_count(d, qk)
                &&& forall|m: int| 0 <= m < zones@[k]@.len() ==> preset_zone_at(d, qk + 32 + 12 * m, #[trigger] zones@[k]@[m])
            } by {
                if k < i {
                    assert(entries@[k] == old_entries[k]);
                    assert(zones@[k] == old_zones[k]);
                }
            }
        }
        i = i + 1;
    }
    Ok((entries, zones))
}

fn read_header(c: &mut ByteCursor) -> (r: BankHeader)
    requires
        old(c).wf(),
        old(c).pos == 0,
        old(c).rest() >= 48,
    ensures
        final(c).wf(),
        final(c).data@ == old(c).data@,
        final(c).pos == 48,
        header_at(old(c).data@, r),
{
    let magic = match c.next_i32_be() {
        Ok(m) => m,
        Err(_) => 0,
    };
    let header_size = c.take_i32_le();
    let version = c.take_i32_le();
    let reverb_volume = c.take_i32_le();
    let reverb_type = c.take_i32_le();
    let reverb_multiply = c.take_i32_le();
    let sequence_count = c.take_i32_le();
    let label_count = c.take_i32_le();
    let label_table_offset = c.take_i32_le();
    let wave_count = c.take_i32_le();
    let program_count = c.take_i32_le();
    let preset_count = c.take_i32_le();
    BankHeader {
        magic,
        header_size,
        version,
        reverb_volume,
        reverb_type,
        reverb_multiply,
        sequence_count,
        label_count,
        label_table_offset,
        wave_count,
        program_count,
        preset_count,
    }
}

/// Decodes a whole bank: the header, then each table in the order the
/// format lays them out. A short input or a wrong signature decodes to
/// nothing.
pub fn decode_bank(data: Vec<u8>) -> (r: Result<Bank, FormatError>)
    ensures
        data@.len() < 48 ==> r == Err::<Bank, FormatError>(FormatError::UnexpectedEof),
        data@.len() >= 48 && i32_be(data@, 0) != BANK_MAGIC ==> r == Err::<Bank, FormatError>(FormatError::BadMagic),
        data@.len() >= 48 && i32_be(data@, 0) == BANK_MAGIC ==> {
            &&& r.is_ok() <==> bank_end(data@) <= data@.len()
            &&& r.is_err() ==> r == Err::<Bank, FormatError>(FormatError::UnexpectedEof)
        },
        r.is_ok() ==> bank_matches(data@, r.unwrap()),
{
    let ghost d = data@;
    let mut c = ByteCursor::new(data);
    if c.remaining() < HEADER_LEN {
        return Err(FormatError::UnexpectedEof);
    }
    let header = read_header(&mut c);
    if header.magic != BANK_MAGIC {
        return Err(FormatError::BadMagic);
    }
    proof {
        lemma_tables_ordered(d);
    }
    let sequences = match decode_sequences(&mut c, header.sequence_count) {
        Ok(v) => v,
        Err(e) => return Err(e),
    };
    let layers = match decode_layers(&mut c, header.program_count as i64 + header.preset_count as i64) {
        Ok(v) => v,
        Err(e) => return Err(e),
    };
    let waves = match decode_waves(&mut c, header.wave_count) {
        Ok(v) => v,
        Err(e) => return Err(e),
    };
    let (programs, program_zones) = match decode_programs(&mut c, header.program_count) {
        Ok(v) => v,
        Err(e) => return Err(e),
    };
    let (presets, preset_zones) = match decode_presets(&mut c, header.preset_count) {
        Ok(v) => v,
        Err(e) => return Err(e),
    };
    Ok(Bank { header, sequences, layers, waves, programs, program_zones, presets, preset_zones })
}

} // verus!


