use vstd::prelude::*;
use crate::bank::{Bank, PresetEntry, PresetZone, ProgramEntry, ProgramZone, WaveEntry};
use crate::cursor::FormatError;
use crate::name::{name_text, name_to_str};
use crate::text::{decimal, push_int, push_str};
use crate::units::{cents_tuning, semitone_tuning, trunc_div, trunc_rem};

verus! {

/// The root key that means "use the wave's own pitch".
pub const NO_ROOT_KEY: i32 = -1;

/// The values of a program zone that the descriptor gives in logarithmic
/// or scaled units, already converted from the zone's float fields.
#[derive(Clone, Copy, Debug, PartialEq, Eq, Structural)]
pub struct ZoneLevels {
    pub pan: i32,
    pub attack_vol: i32,
    pub decay_vol: i32,
    pub sustain_vol: i32,
    pub release_vol: i32,
    pub delay_vol: i32,
    pub delay_mod: i32,
    pub attenuation: i32,
    pub delay_vib: i32,
    pub freq_vib: i32,
    pub vib_to_pitch: i32,
    pub attack_mod: i32,
    pub decay_mod: i32,
    pub sustain_mod: i32,
    pub release_mod: i32,
    pub mod_to_pitch: i32,
}

/// `key`, the decimal value, and a line end.
pub open spec fn line(key: Seq<char>, v: int) -> Seq<char> {
    key + decimal(v) + "\r\n"@
}

pub open spec fn sample_block(w: WaveEntry) -> Seq<char> {
    "\r\n    SampleName="@ + name_text(w.name@) + "\r\n"@ + line("        SampleRate="@, w.sample_rate as int)
        + line("        Key="@, w.original_pitch as int) + "        FineTune=0\r\n"@ + "        Type=1\r\n"@
}

pub open spec fn samples_text(ws: Seq<WaveEntry>, k: int) -> Seq<char>
    decreases k,
{
    if k <= 0 {
        Seq::empty()
    } else {
        samples_text(ws, k - 1) + sample_block(ws[k - 1])
    }
}

pub open spec fn zone_head(w: WaveEntry, z: ProgramZone, u: ZoneLevels) -> Seq<char> {
    "\r\n        Sample="@ + name_text(w.name@) + "\r\n"@
        + line("            Z_coarseTune="@, trunc_div(z.pitch_finetuning as int, 256))
        + line("            Z_fineTune="@, trunc_div(trunc_rem(z.pitch_finetuning as int, 256) * 100, 256))
        + line("            Z_reverbEffectsSend="@, z.reverb * 10)
        + line("            Z_pan="@, u.pan as int)
        + line("            Z_keynumToVolEnvHold="@, z.keynum_hold as int)
        + line("            Z_keynumToVolEnvDecay="@, z.keynum_decay as int)
}

pub open spec fn zone_envelopes(u: ZoneLevels) -> Seq<char> {
    line("            Z_attackVolEnv="@, u.attack_vol as int)
        + line("            Z_decayVolEnv="@, u.decay_vol as int)
        + line("            Z_sustainVolEnv="@, u.sustain_vol as int)
        + line("            Z_releaseVolEnv="@, u.release_vol as int)
        + line("            Z_delayVolEnv="@, u.delay_vol as int)
        + line("            Z_delayModEnv="@, u.delay_mod as int)
        + line("            Z_initialAttenuation="@, u.attenuation as int)
        + line("            Z_delayVibLFO="@, u.delay_vib as int)
        + line("            Z_freqVibLFO="@, u.freq_vib as int)
        + line("            Z_vibLfoToPitch="@, u.vib_to_pitch as int)
}

/// The root-key line, left out for the "no override" sentinel.
pub open spec fn root_key_line(k: i32) -> Seq<char> {
    if k != NO_ROOT_KEY {
        line("            Z_overridingRootKey="@, k as int)
    } else {
        Seq::empty()
    }
}

pub open spec fn zone_tail(w: WaveEntry, z: ProgramZone, u: ZoneLevels) -> Seq<char> {
    line("            Z_LowKey="@, z.note_low as int)
        + line("            Z_HighKey="@, z.note_high as int)
        + line("            Z_LowVelocity="@, z.velocity_low as int)
        + line("            Z_HighVelocity="@, z.velocity_high as int)
        + line("            Z_attackModEnv="@, u.attack_mod as int)
        + line("            Z_decayModEnv="@, u.decay_mod as int)
        + line("            Z_sustainModEnv="@, u.sustain_mod as int)
        + line("            Z_releaseModEnv="@, u.release_mod as int)
        + line("            Z_modEnvToPitch="@, u.mod_to_pitch as int)
        + root_key_line(z.root_key)
        + line("            Z_sampleModes="@, w.loop_info as int)
}

/// The block of one program zone, which plays wave `w`.
#[verifier::opaque]
pub open spec fn zone_block(w: WaveEntry, z: ProgramZone, u: ZoneLevels) -> Seq<char> {
    zone_head(w, z, u) + zone_envelopes(u) + zone_tail(w, z, u)
}

pub open spec fn zones_text(ws: Seq<WaveEntry>, zs: Seq<ProgramZone>, us: Seq<ZoneLevels>, k: int) -> Seq<char>
    decreases k,
{
    if k <= 0 {
        Seq::empty()
    } else {
        zones_text(ws, zs, us, k - 1) + zone_block(ws[zs[k - 1].wave_index as int], zs[k - 1], us[k - 1])
    }
}

pub open spec fn program_block(ws: Seq<WaveEntry>, p: ProgramEntry, zs: Seq<ProgramZone>, us: Seq<ZoneLevels>) -> Seq<char> {
    "\r\n    InstrumentName="@ + name_text(p.name@) + "\r\n"@ + zones_text(ws, zs, us, zs.len() as int)
        + "\r\n        GlobalZone\r\n\r\n"@
}

pub open spec fn programs_text(
    ws: Seq<WaveEntry>,
    ps: Seq<ProgramEntry>,
    zss: Seq<Vec<ProgramZone>>,
    uss: Seq<Vec<ZoneLevels>>,
    k: int,
) -> Seq<char>
    decreases k,
{
    if k <= 0 {
        Seq::empty()
    } else {
        programs_text(ws, ps, zss, uss, k - 1) + program_block(ws, ps[k - 1], zss[k - 1]@, uss[k - 1]@)
    }
}

/// The block of one preset zone, which plays program `p`.
pub open spec fn layer_block(p: ProgramEntry, z: PresetZone) -> Seq<char> {
    "        Instrument="@ + name_text(p.name@) + "\r\n"@
        + line("            L_LowKey="@, z.note_low as int)
        + line("            L_HighKey="@, z.note_high as int)
        + line("            L_LowVelocity="@, z.velocity_low as int)
        + line("            L_HighVelocity="@, z.velocity_high as int)
        + "\r\n        GlobalLayer\r\n"@
}

pub open spec fn layers_text(ps: Seq<ProgramEntry>, zs: Seq<PresetZone>, k: int) -> Seq<char>
    decreases k,
{
    if k <= 0 {
        Seq::empty()
    } else {
        layers_text(ps, zs, k - 1) + layer_block(ps[zs[k - 1].program_index as int], zs[k - 1])
    }
}

pub open spec fn preset_block(ps: Seq<ProgramEntry>, e: PresetEntry, zs: Seq<PresetZone>) -> Seq<char> {
    "\r\n\r\n    PresetName="@ + name_text(e.name@) + "\r\n"@ + line("        Bank="@, e.midi_bank_number as int)
        + line("        Program="@, e.midi_preset_number as int) + "\r\n"@ + layers_text(ps, zs, zs.len() as int)
}

pub open spec fn presets_text(ps: Seq<ProgramEntry>, es: Seq<PresetEntry>, zss: Seq<Vec<PresetZone>>, k: int) -> Seq<char>
    decreases k,
{
    if k <= 0 {
        Seq::empty()
    } else {
        presets_text(ps, es, zss, k - 1) + preset_block(ps, es[k - 1], zss[k - 1]@)
    }
}

pub open spec fn info_text(base: Seq<char>) -> Seq<char> {
    "\r\n\r\n[Info]\r\n"@ + "Version=2.1\r\n"@ + "Engine=EMU8000\r\n"@ + "Name="@ + base + "\r\n"@ + "Editor=Demus\r\n"@
}

/// The whole descriptor of a bank named `base`.
pub open spec fn descriptor(b: Bank, levels: Seq<Vec<ZoneLevels>>, base: Seq<char>) -> Seq<char> {
    "[Samples]"@ + samples_text(b.waves@, b.waves@.len() as int) + "\r\n\r\n[Instruments]\r\n"@
        + programs_text(b.waves@, b.programs@, b.program_zones@, levels, b.programs@.len() as int)
        + "\r\n[Presets]\r\n"@ + presets_text(b.programs@, b.presets@, b.preset_zones@, b.presets@.len() as int)
        + info_text(base)
}

/// Zones come grouped by entry, and `levels` is grouped like the program zones.
pub open spec fn shaped(b: Bank, levels: Seq<Vec<ZoneLevels>>) -> bool {
    &&& b.program_zones@.len() == b.programs@.len()
    &&& b.preset_zones@.len() == b.presets@.len()
    &&& levels.len() == b.programs@.len()
    &&& forall|i: int| 0 <= i < levels.len() ==> (#[trigger] levels[i])@.len() == b.program_zones@[i]@.len()
}

/// Every zone names a wave, or a program, that the bank holds.
pub open spec fn indices_valid(b: Bank) -> bool {
    &&& forall|i: int, j: int| 0 <= i < b.program_zones@.len() && 0 <= j < b.program_zones@[i]@.len() ==>
        0 <= (#[trigger] b.program_zones@[i]@[j]).wave_index < b.waves@.len()
    &&& forall|i: int, j: int| 0 <= i < b.preset_zones@.len() && 0 <= j < b.preset_zones@[i]@.len() ==>
        0 <= (#[trigger] b.preset_zones@[i]@[j]).program_index < b.programs@.len()
}

fn push_line(s: &mut String, key: &str, v: i64)
    ensures
        final(s)@ == old(s)@ + line(key@, v as int),
{
    push_str(s, key);
    push_int(s, v);
    push_str(s, "\r\n");
    assert(final(s)@ =~= old(s)@ + line(key@, v as int));
}

fn push_name(s: &mut String, name: &Vec<char>)
    ensures
        final(s)@ == old(s)@ + name_text(name@),
{
    let t = name_to_str(name);
    push_str(s, t.as_str());
}

fn push_sample_block(s: &mut String, w: &WaveEntry)
    ensures
        final(s)@ == old(s)@ + sample_block(*w),
{
    push_str(s, "\r\n    SampleName=");
    push_name(s, &w.name);
    push_str(s, "\r\n");
    push_line(s, "        SampleRate=", w.sample_rate as i64);
    push_line(s, "        Key=", w.original_pitch as i64);
    push_str(s, "        FineTune=0\r\n");
    push_str(s, "        Type=1\r\n");
    assert(final(s)@ =~= old(s)@ + sample_block(*w));
}

fn push_zone_head(s: &mut String, w: &WaveEntry, z: &ProgramZone, u: &ZoneLevels)
    ensures
        final(s)@ == old(s)@ + zone_head(*w, *z, *u),
{
    push_str(s, "\r\n        Sample=");
    push_name(s, &w.name);
    push_str(s, "\r\n");
    push_line(s, "            Z_coarseTune=", semitone_tuning(z.pitch_finetuning) as i64);
    push_line(s, "            Z_fineTune=", cents_tuning(z.pitch_finetuning) as i64);
    push_line(s, "            Z_reverbEffectsSend=", z.reverb as i64 * 10);
    push_line(s, "            Z_pan=", u.pan as i64);
    push_line(s, "            Z_keynumToVolEnvHold=", z.keynum_hold as i64);
    push_line(s, "            Z_keynumToVolEnvDecay=", z.keynum_decay as i64);
    assert(final(s)@ =~= old(s)@ + zone_head(*w, *z, *u));
}

fn push_zone_envelopes(s: &mut String, u: &ZoneLevels)
    ensures
        final(s)@ == old(s)@ + zone_envelopes(*u),
{
    push_line(s, "            Z_attackVolEnv=", u.attack_vol as i64);
    push_line(s, "            Z_decayVolEnv=", u.decay_vol as i64);
    push_line(s, "            Z_sustainVolEnv=", u.sustain_vol as i64);
    push_line(s, "            Z_releaseVolEnv=", u.release_vol as i64);
    push_line(s, "            Z_delayVolEnv=", u.delay_vol as i64);
    push_line(s, "            Z_delayModEnv=", u.delay_mod as i64);
    push_line(s, "            Z_initialAttenuation=", u.attenuation as i64);
    push_line(s, "            Z_delayVibLFO=", u.delay_vib as i64);
    push_line(s, "            Z_freqVibLFO=", u.freq_vib as i64);
    push_line(s, "            Z_vibLfoToPitch=", u.vib_to_pitch as i64);
    assert(final(s)@ =~= old(s)@ + zone_envelopes(*u));
}

fn push_zone_tail(s: &mut String, w: &WaveEntry, z: &ProgramZone, u: &ZoneLevels)
    ensures
        final(s)@ == old(s)@ + zone_tail(*w, *z, *u),
{
    push_line(s, "            Z_LowKey=", z.note_low as i64);
    push_line(s, "            Z_HighKey=", z.note_high as i64);
    push_line(s, "            Z_LowVelocity=", z.velocity_low as i64);
    push_line(s, "            Z_HighVelocity=", z.velocity_high as i64);
    push_line(s, "            Z_attackModEnv=", u.attack_mod as i64);
    push_line(s, "            Z_decayModEnv=", u.decay_mod as i64);
    push_line(s, "            Z_sustainModEnv=", u.sustain_mod as i64);
    push_line(s, "            Z_releaseModEnv=", u.release_mod as i64);
    push_line(s, "            Z_modEnvToPitch=", u.mod_to_pitch as i64);
    let ghost before_root = s@;
    if z.root_key != NO_ROOT_KEY {
        push_line(s, "            Z_overridingRootKey=", z.root_key as i64);
    }
    assert(s@ =~= before_root + root_key_line(z.root_key));
    push_line(s, "            Z_sampleModes=", w.loop_info as i64);
    assert(final(s)@ =~= old(s)@ + zone_tail(*w, *z, *u));
}

fn push_zone_block(s: &mut String, w: &WaveEntry, z: &ProgramZone, u: &ZoneLevels)
    ensures
        final(s)@ == old(s)@ + zone_block(*w, *z, *u),
{
    push_zone_head(s, w, z, u);
    push_zone_envelopes(s, u);
    push_zone_tail(s, w, z, u);
    reveal(zone_block);
    assert(final(s)@ =~= old(s)@ + zone_block(*w, *z, *u));
}

fn push_program_block(s: &mut String, waves: &Vec<WaveEntry>, p: &ProgramEntry, zones: &Vec<ProgramZone>, levels: &Vec<ZoneLevels>)
    requires
        levels@.len() == zones@.len(),
        forall|j: int| 0 <= j < zones@.len() ==> 0 <= (#[trigger] zones@[j]).wave_index < waves@.len(),
    ensures
        final(s)@ == old(s)@ + program_block(waves@, *p, zones@, levels@),
{
    push_str(s, "\r\n    InstrumentName=");
    push_name(s, &p.name);
    push_str(s, "\r\n");
    let ghost head = s@;
    let mut j: usize = 0;
    while j < zones.len()
        invariant
            levels@.len() == zones@.len(),
            forall|m: int| 0 <= m < zones@.len() ==> 0 <= (#[trigger] zones@[m]).wave_index < waves@.len(),
            j <= zones@.len(),
            s@ == head + zones_text(waves@, zones@, levels@, j as int),
        decreases zones@.len() - j,
    {
        let z = &zones[j];
        assert(0 <= zones@[j as int].wave_index < waves@.len());
        push_zone_block(s, &waves[z.wave_index as usize], z, &levels[j]);
        j = j + 1;
        assert(s@ =~= head + zones_text(waves@, zones@, levels@, j as int));
    }
    push_str(s, "\r\n        GlobalZone\r\n\r\n");
    assert(final(s)@ =~= old(s)@ + program_block(waves@, *p, zones@, levels@));
}

fn push_layer_block(s: &mut String, p: &ProgramEntry, z: &PresetZone)
    ensures
        final(s)@ == old(s)@ + layer_block(*p, *z),
{
    push_str(s, "        Instrument=");
    push_name(s, &p.name);
    push_str(s, "\r\n");
    push_line(s, "            L_LowKey=", z.note_low as i64);
    push_line(s, "            L_HighKey=", z.note_high as i64);
    push_line(s, "            L_LowVelocity=", z.velocity_low as i64);
    push_line(s, "            L_HighVelocity=", z.velocity_high as i64);
    push_str(s, "\r\n        GlobalLayer\r\n");
    assert(final(s)@ =~= old(s)@ + layer_block(*p, *z));
}

fn push_preset_block(s: &mut String, programs: &Vec<ProgramEntry>, e: &PresetEntry, zones: &Vec<PresetZone>)
    requires
        forall|j: int| 0 <= j < zones@.len() ==> 0 <= (#[trigger] zones@[j]).program_index < programs@.len(),
    ensures
        final(s)@ == old(s)@ + preset_block(programs@, *e, zones@),
{
    push_str(s, "\r\n\r\n    PresetName=");
    push_name(s, &e.name);
    push_str(s, "\r\n");
    push_line(s, "        Bank=", e.midi_bank_number as i64);
    push_line(s, "        Program=", e.midi_preset_number as i64);
    push_str(s, "\r\n");
    let ghost head = s@;
    let mut j: usize = 0;
    while j < zones.len()
        invariant
            forall|m: int| 0 <= m < zones@.len() ==> 0 <= (#[trigger] zones@[m]).program_index < programs@.len(),
            j <= zones@.len(),
            s@ == head + layers_text(programs@, zones@, j as int),
        decreases zones@.len() - j,
    {
        let z = &zones[j];
        assert(0 <= zones@[j as int].program_index < programs@.len());
        push_layer_block(s, &programs[z.program_index as usize], z);
        j = j + 1;
        assert(s@ =~= head + layers_text(programs@, zones@, j as int));
    }
    assert(final(s)@ =~= old(s)@ + preset_block(programs@, *e, zones@));
}

/// Whether every zone of the bank names a wave, or a program, that it holds.
pub fn check_indices(b: &Bank) -> (r: bool)
    ensures
        r == indices_valid(*b),
{
    let mut i: usize = 0;
    while i < b.program_zones.len()
        invariant
            i <= b.program_zones@.len(),
            forall|k: int, j: int| 0 <= k < i && 0 <= j < b.program_zones@[k]@.len() ==>
                0 <= (#[trigger] b.program_zones@[k]@[j]).wave_index < b.waves@.len(),
        decreases b.program_zones@.len() - i,
    {
        let zs = &b.program_zones[i];
        let mut j: usize = 0;
        while j < zs.len()
            invariant
                i < b.program_zones@.len(),
                zs == b.program_zones@[i as int],
                j <= zs@.len(),
                forall|k: int, m: int| 0 <= k < i && 0 <= m < b.program_zones@[k]@.len() ==>
                    0 <= (#[trigger] b.program_zones@[k]@[m]).wave_index < b.waves@.len(),
                forall|m: int| 0 <= m < j ==> 0 <= (#[trigger] zs@[m]).wave_index < b.waves@.len(),
            decreases zs@.len() - j,
        {
            let w = zs[j].wave_index;
            if w < 0 || w as usize >= b.waves.len() {
                return false;
            }
            j = j + 1;
        }
        i = i + 1;
    }
    let mut i: usize = 0;
    while i < b.preset_zones.len()
        invariant
            i <= b.preset_zones@.len(),
            forall|k: int, j: int| 0 <= k < b.program_zones@.len() && 0 <= j < b.program_zones@[k]@.len() ==>
                0 <= (#[trigger] b.program_zones@[k]@[j]).wave_index < b.waves@.len(),
            forall|k: int, j: int| 0 <= k < i && 0 <= j < b.preset_zones@[k]@.len() ==>
                0 <= (#[trigger] b.preset_zones@[k]@[j]).program_index < b.programs@.len(),
        decreases b.preset_zones@.len() - i,
    {
        let zs = &b.preset_zones[i];
        let mut j: usize = 0;
        while j < zs.len()
            invariant
                i < b.preset_zones@.len(),
                zs == b.preset_zones@[i as int],
                j <= zs@.len(),
                forall|k: int, m: int| 0 <= k < b.program_zones@.len() && 0 <= m < b.program_zones@[k]@.len() ==>
                    0 <= (#[trigger] b.program_zones@[k]@[m]).wave_index < b.waves@.len(),
                forall|k: int, m: int| 0 <= k < i && 0 <= m < b.preset_zones@[k]@.len() ==>
                    0 <= (#[trigger] b.preset_zones@[k]@[m]).program_index < b.programs@.len(),
                forall|m: int| 0 <= m < j ==> 0 <= (#[trigger] zs@[m]).program_index < b.programs@.len(),
            decreases zs@.len() - j,
        {
            let p = zs[j].program_index;
            if p < 0 || p as usize >= b.programs.len() {
                return false;
            }
            j = j + 1;
        }
        i = i + 1;
    }
    true
}

/// The descriptor text of a bank named `base`: its samples, instruments and
/// presets sections, then the info trailer, with CRLF line ends. A zone
/// that names a wave or program the bank lacks is an `InvalidIndex`.
pub fn descriptor_text(b: &Bank, levels: &Vec<Vec<ZoneLevels>>, base: &str) -> (r: Result<String, FormatError>)
    requires
        shaped(*b, levels@),
    ensures
        r.is_ok() <==> indices_valid(*b),
        r.is_err() ==> r.unwrap_err() == FormatError::InvalidIndex,
        r.is_ok() ==> r.unwrap()@ == descriptor(*b, levels@, base@),
{
    if !check_indices(b) {
        return Err(FormatError::InvalidIndex);
    }
    let mut s = String::new();
    push_str(&mut s, "[Samples]");
    let ghost head = s@;
    let mut i: usize = 0;
    while i < b.waves.len()
        invariant
            i <= b.waves@.len(),
            s@ == head + samples_text(b.waves@, i as int),
        decreases b.waves@.len() - i,
    {
        push_sample_block(&mut s, &b.waves[i]);
        i = i + 1;
        assert(s@ =~= head + samples_text(b.waves@, i as int));
    }
    push_str(&mut s, "\r\n\r\n[Instruments]\r\n");
    let ghost head = s@;
    let mut i: usize = 0;
    while i < b.programs.len()
        invariant
            shaped(*b, levels@),
            indices_valid(*b),
            i <= b.programs@.len(),
            s@ == head + programs_text(b.waves@, b.programs@, b.program_zones@, levels@, i as int),
        decreases b.programs@.len() - i,
    {
        assert(levels@[i as int]@.len() == b.program_zones@[i as int]@.len());
        assert(forall|j: int| 0 <= j < b.program_zones@[i as int]@.len() ==> 0 <= (#[trigger] b.program_zones@[i as int]@[j]).wave_index < b.waves@.len());
        push_program_block(&mut s, &b.waves, &b.programs[i], &b.program_zones[i], &levels[i]);
        i = i + 1;
        assert(s@ =~= head + programs_text(b.waves@, b.programs@, b.program_zones@, levels@, i as int));
    }
    push_str(&mut s, "\r\n[Presets]\r\n");
    let ghost head = s@;
    let mut i: usize = 0;
    while i < b.presets.len()
        invariant
            shaped(*b, levels@),
            indices_valid(*b),
            i <= b.presets@.len(),
            s@ == head + presets_text(b.programs@, b.presets@, b.preset_zones@, i as int),
        decreases b.presets@.len() - i,
    {
        assert(forall|j: int| 0 <= j < b.preset_zones@[i as int]@.len() ==> 0 <= (#[trigger] b.preset_zones@[i as int]@[j]).program_index < b.programs@.len());
        push_preset_block(&mut s, &b.programs, &b.presets[i], &b.preset_zones[i]);
        i = i + 1;
        assert(s@ =~= head + presets_text(b.programs@, b.presets@, b.preset_zones@, i as int));
    }
    let ghost head = s@;
    push_str(&mut s, "\r\n\r\n[Info]\r\n");
    push_str(&mut s, "Version=2.1\r\n");
    push_str(&mut s, "Engine=EMU8000\r\n");
    push_str(&mut s, "Name=");
    push_str(&mut s, base);
    push_str(&mut s, "\r\n");
    push_str(&mut s, "Editor=Demus\r\n");
    assert(s@ =~= head + info_text(base@));
    assert(s@ =~= descriptor(*b, levels@, base@));
    Ok(s)
}

/// A zone whose root key is the "no override" sentinel gets no root-key
/// line: its block runs straight from the modulation lines to the sample
/// mode line.
pub proof fn lemma_sentinel_root_key_omitted(w: WaveEntry, z: ProgramZone, u: ZoneLevels)
    requires
        z.root_key == NO_ROOT_KEY,
    ensures
        zone_tail(w, z, u) == line("            Z_LowKey="@, z.note_low as int)
            + line("            Z_HighKey="@, z.note_high as int)
            + line("            Z_LowVelocity="@, z.velocity_low as int)
            + line("            Z_HighVelocity="@, z.velocity_high as int)
            + line("            Z_attackModEnv="@, u.attack_mod as int)
            + line("            Z_decayModEnv="@, u.decay_mod as int)
            + line("            Z_sustainModEnv="@, u.sustain_mod as int)
            + line("            Z_releaseModEnv="@, u.release_mod as int)
            + line("            Z_modEnvToPitch="@, u.mod_to_pitch as int)
            + line("            Z_sampleModes="@, w.loop_info as int),
{
    assert(root_key_line(z.root_key) == Seq::<char>::empty());
    assert(zone_tail(w, z, u) =~= line("            Z_LowKey="@, z.note_low as int)
            + line("            Z_HighKey="@, z.note_high as int)
            + line("            Z_LowVelocity="@, z.velocity_low as int)
            + line("            Z_HighVelocity="@, z.velocity_high as int)
            + line("            Z_attackModEnv="@, u.attack_mod as int)
            + line("            Z_decayModEnv="@, u.decay_mod as int)
            + line("            Z_sustainModEnv="@, u.sustain_mod as int)
            + line("            Z_releaseModEnv="@, u.release_mod as int)
            + line("            Z_modEnvToPitch="@, u.mod_to_pitch as int)
            + line("            Z_sampleModes="@, w.loop_info as int));
}

} // verus!

