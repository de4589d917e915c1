use vstd::prelude::*;
use crate::bank::WaveEntry;
use crate::cursor::{copy_span, FormatError};
use crate::name::{name_text, name_to_str};
use crate::text::{decimal, push_int, push_str};
use crate::Platform;

verus! {

/// The four bytes of `x`, least significant first.
pub open spec fn le_bytes(x: u32) -> Seq<u8> {
    seq![(x % 0x100) as u8, ((x / 0x100) % 0x100) as u8, ((x / 0x1_0000) % 0x100) as u8, (x / 0x100_0000) as u8]
}

/// The format code a sample file carries for each profile.
pub open spec fn format_code(p: Platform) -> u8 {
    match p {
        Platform::PC => 0x01,
        Platform::Console => 0x10,
    }
}

/// The header that precedes a sample's bytes in its own file.
pub open spec fn sample_header(p: Platform, sample_rate: i32, size: u32) -> Seq<u8> {
    seq![0x53u8, 0x53, 0x68, 0x64, 0x18, 0, 0, 0, format_code(p), 0, 0, 0]
        + le_bytes(sample_rate as u32)
        + seq![1u8, 0, 0, 0, 0, 0, 0, 0, 0xff, 0xff, 0xff, 0xff, 0xff, 0xff, 0xff, 0xff, 0x53, 0x53, 0x62, 0x64]
        + le_bytes(size)
}

/// The wave's bytes lie in a sample container of `len` bytes, and its size
/// fits the sample header's four-byte field.
pub open spec fn span_fits(w: WaveEntry, len: int) -> bool {
    0 <= w.offset && 0 <= w.size && w.size <= 0xFFFF_FFFF && w.offset + w.size <= len
}

pub open spec fn span_end_of(w: WaveEntry) -> int {
    w.offset + w.size
}

/// The end-of-stream marker that the console profile stores just before a
/// sample's end: `07 00` and fourteen `77`.
pub open spec fn has_end_marker(s: Seq<u8>, end: int) -> bool {
    &&& 16 <= end <= s.len()
    &&& s[end - 16] == 0x07
    &&& s[end - 15] == 0x00
    &&& forall|k: int| end - 14 <= k < end ==> #[trigger] s[k] == 0x77
}

/// The sample container once the marker before `end`, if there, is mended.
pub open spec fn patch_at(s: Seq<u8>, end: int) -> Seq<u8> {
    if has_end_marker(s, end) {
        s.update(end - 15, 0x07)
    } else {
        s
    }
}

/// The container after the markers of the first `k` waves, in order.
pub open spec fn patch_all(s: Seq<u8>, ws: Seq<WaveEntry>, k: int) -> Seq<u8>
    decreases k,
{
    if k <= 0 {
        s
    } else {
        patch_at(patch_all(s, ws, k - 1), span_end_of(ws[k - 1]))
    }
}

/// The container as the profile leaves it before sample files are cut.
pub open spec fn prepared(s: Seq<u8>, ws: Seq<WaveEntry>, p: Platform) -> Seq<u8> {
    match p {
        Platform::Console => patch_all(s, ws, ws.len() as int),
        Platform::PC => s,
    }
}

/// One line of the loop list, for a looping wave; nothing for another.
pub open spec fn loop_line(w: WaveEntry) -> Seq<char> {
    if w.loop_info != 0 {
        decimal(w.loop_begin as int) + " "@ + decimal(w.loop_end as int - 1) + " "@ + name_text(w.name@) + ".wav\n"@
    } else {
        Seq::empty()
    }
}

/// The loop list of the first `k` waves.
pub open spec fn loop_lines(ws: Seq<WaveEntry>, k: int) -> Seq<char>
    decreases k,
{
    if k <= 0 {
        Seq::empty()
    } else {
        loop_lines(ws, k - 1) + loop_line(ws[k - 1])
    }
}

fn push_u32_le(v: &mut Vec<u8>, x: u32)
    ensures
        final(v)@ == old(v)@ + le_bytes(x),
{
    v.push((x % 0x100) as u8);
    v.push(((x / 0x100) % 0x100) as u8);
    v.push(((x / 0x1_0000) % 0x100) as u8);
    v.push((x / 0x100_0000) as u8);
    assert(final(v)@ =~= old(v)@ + le_bytes(x));
}

fn push_all(v: &mut Vec<u8>, t: &[u8])
    ensures
        final(v)@ == old(v)@ + t@,
{
    let mut i: usize = 0;
    while i < t.len()
        invariant
            i <= t@.len(),
            v@ == old(v)@ + t@.take(i as int),
        decreases t@.len() - i,
    {
        v.push(t[i]);
        i = i + 1;
        assert(v@ =~= old(v)@ + t@.take(i as int));
    }
    assert(t@.take(t@.len() as int) =~= t@);
}

/// A sample file: its header, then the sample's bytes.
pub fn sample_file(platform: Platform, sample_rate: i32, payload: &[u8]) -> (r: Vec<u8>)
    requires
        payload@.len() <= 0xFFFF_FFFF,
    ensures
        r@ == sample_header(platform, sample_rate, payload@.len() as u32) + payload@,
{
    let mut v: Vec<u8> = Vec::new();
    v.push(0x53);
    v.push(0x53);
    v.push(0x68);
    v.push(0x64);
    v.push(0x18);
    v.push(0);
    v.push(0);
    v.push(0);
    v.push(match platform {
        Platform::PC => 0x01,
        Platform::Console => 0x10,
    });
    v.push(0);
    v.push(0);
    v.push(0);
    push_u32_le(&mut v, sample_rate as u32);
    v.push(1);
    let ghost head = v@;
    assert(v@.subrange(0, 17) =~= head);
    let mut k: usize = 0;
    while k < 7
        invariant
            head =~= seq![0x53u8, 0x53, 0x68, 0x64, 0x18, 0, 0, 0, format_code(platform), 0, 0, 0]
                + le_bytes(sample_rate as u32) + seq![1u8],
            k <= 7,
            v@.len() == 17 + k,
            forall|m: int| 17 <= m < 17 + k ==> v@[m] == 0,
            v@.subrange(0, 17) == head,
        decreases 7 - k,
    {
        v.push(0);
        k = k + 1;
        assert(v@.subrange(0, 17) =~= head);
    }
    while k < 15
        invariant
            head =~= seq![0x53u8, 0x53, 0x68, 0x64, 0x18, 0, 0, 0, format_code(platform), 0, 0, 0]
                + le_bytes(sample_rate as u32) + seq![1u8],
            7 <= k <= 15,
            v@.len() == 17 + k,
            forall|m: int| 17 <= m < 24 ==> v@[m] == 0,
            forall|m: int| 24 <= m < 17 + k ==> v@[m] == 0xff,
            v@.subrange(0, 17) == head,
        decreases 15 - k,
    {
        v.push(0xff);
        k = k + 1;
        assert(v@.subrange(0, 17) =~= head);
    }
    let ghost mid = v@;
    assert(mid =~= head + seq![0u8, 0, 0, 0, 0, 0, 0, 0xff, 0xff, 0xff, 0xff, 0xff, 0xff, 0xff, 0xff]) by {
        assert(mid.subrange(0, 17) == head);
    }
    v.push(0x53);
    v.push(0x53);
    v.push(0x62);
    v.push(0x64);
    push_u32_le(&mut v, payload.len() as u32);
    assert(v@ =~= mid + seq![0x53u8, 0x53, 0x62, 0x64] + le_bytes(payload@.len() as u32));
    assert(v@ =~= sample_header(platform, sample_rate, payload@.len() as u32));
    push_all(&mut v, payload);
    v
}

fn fits(w: &WaveEntry, len: usize) -> (r: bool)
    ensures
        r == span_fits(*w, len as int),
{
    w.offset >= 0 && w.size >= 0 && w.size <= 0xFFFF_FFFF && (w.offset as u64) + (w.size as u64) <= len as u64
}

fn wave_end(w: &WaveEntry, len: usize) -> (r: usize)
    requires
        span_fits(*w, len as int),
    ensures
        r == span_end_of(*w),
{
    let e = (w.offset as u64) + (w.size as u64);
    assert(e <= len);
    e as usize
}

/// Mends the console end-of-stream marker just before `end`, if it is there.
pub fn patch_end_marker(sam: &mut Vec<u8>, end: usize)
    requires
        end <= old(sam)@.len(),
    ensures
        final(sam)@ == patch_at(old(sam)@, end as int),
{
    if end < 16 {
        return;
    }
    let s = end - 16;
    if sam[s] != 0x07 || sam[s + 1] != 0x00 {
        return;
    }
    let mut k: usize = s + 2;
    while k < end
        invariant
            s + 2 <= k <= end <= sam@.len(),
            s == end - 16,
            sam@ == old(sam)@,
            sam@[s as int] == 0x07,
            sam@[s + 1] == 0x00,
            forall|m: int| s + 2 <= m < k ==> #[trigger] sam@[m] == 0x77,
        decreases end - k,
    {
        if sam[k] != 0x77 {
            assert(!has_end_marker(sam@, end as int));
            return;
        }
        k = k + 1;
    }
    sam.set(s + 1, 0x07);
}

/// Cuts one sample file per wave out of the sample container. In the
/// console profile each wave's end-of-stream marker is mended first, wave
/// by wave, and the files are cut from the mended container.
pub fn export_samples(waves: &Vec<WaveEntry>, sam: &mut Vec<u8>, platform: Platform) -> (r: Result<Vec<Vec<u8>>, FormatError>)
    ensures
        r.is_ok() <==> forall|i: int| 0 <= i < waves@.len() ==> span_fits(#[trigger] waves@[i], old(sam)@.len() as int),
        r.is_err() ==> r.unwrap_err() == FormatError::SpanOutOfRange && final(sam)@ == old(sam)@,
        r.is_ok() ==> {
            &&& final(sam)@ == prepared(old(sam)@, waves@, platform)
            &&& r.unwrap()@.len() == waves@.len()
            &&& forall|i: int| 0 <= i < waves@.len() ==> #[trigger] r.unwrap()@[i]@ == sample_header(platform, waves@[i].sample_rate, waves@[i].size as u32)
                + final(sam)@.subrange(waves@[i].offset as int, span_end_of(waves@[i]))
        },
{
    let n = waves.len();
    let mut i: usize = 0;
    while i < n
        invariant
            n == waves@.len(),
            i <= n,
            sam@ == old(sam)@,
            forall|k: int| 0 <= k < i ==> span_fits(#[trigger] waves@[k], sam@.len() as int),
        decreases n - i,
    {
        if !fits(&waves[i], sam.len()) {
            return Err(FormatError::SpanOutOfRange);
        }
        i = i + 1;
    }
    if platform == Platform::Console {
        let mut i: usize = 0;
        while i < n
            invariant
                n == waves@.len(),
                i <= n,
                sam@.len() == old(sam)@.len(),
                sam@ == patch_all(old(sam)@, waves@, i as int),
                forall|k: int| 0 <= k < n ==> span_fits(#[trigger] waves@[k], sam@.len() as int),
            decreases n - i,
        {
            assert(span_fits(waves@[i as int], sam@.len() as int));
            let end = wave_end(&waves[i], sam.len());
            patch_end_marker(sam, end);
            i = i + 1;
        }
    }
    let mut files: Vec<Vec<u8>> = Vec::new();
    let mut i: usize = 0;
    while i < n
        invariant
            n == waves@.len(),
            i <= n,
            sam@ == prepared(old(sam)@, waves@, platform),
            sam@.len() == old(sam)@.len(),
            forall|k: int| 0 <= k < n ==> span_fits(#[trigger] waves@[k], sam@.len() as int),
            files@.len() == i,
            forall|k: int| 0 <= k < i ==> #[trigger] files@[k]@ == sample_header(platform, waves@[k].sample_rate, waves@[k].size as u32)
                + sam@.subrange(waves@[k].offset as int, span_end_of(waves@[k])),
        decreases n - i,
    {
        assert(span_fits(waves@[i as int], sam@.len() as int));
        let start = waves[i].offset as usize;
        let end = wave_end(&waves[i], sam.len());
        let payload = copy_span(sam.as_slice(), start, end);
        files.push(sample_file(platform, waves[i].sample_rate, payload.as_slice()));
        i = i + 1;
    }
    Ok(files)
}

/// The name of a wave's sample file.
pub fn sample_file_name(w: &WaveEntry) -> (r: String)
    ensures
        r@ == name_text(w.name@) + ".ads"@,
{
    let mut s = name_to_str(&w.name);
    push_str(&mut s, ".ads");
    s
}

/// The loop list: `<loop_begin> <loop_end - 1> <name>.wav` for each
/// looping wave, in table order.
pub fn loop_info_text(waves: &Vec<WaveEntry>) -> (r: String)
    ensures
        r@ == loop_lines(waves@, waves@.len() as int),
{
    let mut s = String::new();
    let mut i: usize = 0;
    while i < waves.len()
        invariant
            i <= waves@.len(),
            s@ == loop_lines(waves@, i as int),
        decreases waves@.len() - i,
    {
        let w = &waves[i];
        if w.loop_info != 0 {
            let ghost before = s@;
            push_int(&mut s, w.loop_begin as i64);
            push_str(&mut s, " ");
            push_int(&mut s, w.loop_end as i64 - 1);
            push_str(&mut s, " ");
            let name = name_to_str(&w.name);
            push_str(&mut s, name.as_str());
            push_str(&mut s, ".wav\n");
            assert(s@ =~= before + loop_line(waves@[i as int]));
        }
        i = i + 1;
        assert(s@ =~= loop_lines(waves@, i as int));
    }
    s
}

/// Leaving out a wave that does not loop leaves the loop list as it was.
pub proof fn lemma_loop_list_skips_non_looping(ws: Seq<WaveEntry>, k: int)
    requires
        0 <= k < ws.len(),
        ws[k].loop_info == 0,
    ensures
        loop_lines(ws, ws.len() as int) == loop_lines(ws.remove(k), ws.len() - 1),
    decreases ws.len(),
{
    lemma_loop_lines_prefix(ws, ws.remove(k), k);
    lemma_loop_lines_shifted(ws, k, ws.len() as int);
}

proof fn lemma_loop_lines_prefix(a: Seq<WaveEntry>, b: Seq<WaveEntry>, k: int)
    requires
        0 <= k <= a.len(),
        k <= b.len(),
        forall|m: int| 0 <= m < k ==> a[m] == b[m],
    ensures
        loop_lines(a, k) == loop_lines(b, k),
    decreases k,
{
    if k > 0 {
        lemma_loop_lines_prefix(a, b, k - 1);
    }
}

proof fn lemma_loop_lines_shifted(ws: Seq<WaveEntry>, k: int, n: int)
    requires
        0 <= k < n <= ws.len(),
        ws[k].loop_info == 0,
        loop_lines(ws, k) == loop_lines(ws.remove(k), k),
    ensures
        loop_lines(ws, n) == loop_lines(ws.remove(k), n - 1),
    decreases n,
{
    if n == k + 1 {
        assert(loop_line(ws[k]) == Seq::<char>::empty());
        assert(loop_lines(ws, n) =~= loop_lines(ws, k));
    } else {
        lemma_loop_lines_shifted(ws, k, n - 1);
        assert(ws.remove(k)[n - 2] == ws[n - 1]);
    }
}

} // verus!
