use vstd::prelude::*;
use crate::cursor::{ByteCursor, u32_le};

verus! {

/// Where the chunk stream of an interleaved audio file starts.
pub const MUL_BODY_START: usize = 0x800;

/// Why an interleaved audio file could not be split.
#[derive(Clone, Copy, Debug, PartialEq, Eq, Structural)]
pub enum MulError {
    /// The file ends before its chunk stream starts, or inside a chunk.
    UnexpectedEof,
    /// A chunk kind other than audio, data or padding.
    UnknownChunk(u32),
    /// An audio chunk's declared size is below its own 16-byte header.
    ShortAudioChunk,
    /// An audio chunk that does not split into one equal, non-empty part per channel.
    UnevenAudio,
}

/// One chunk header of the stream: its kind and the size of its payload.
#[derive(Clone, Copy, Debug, PartialEq, Eq, Structural)]
pub enum Chunk {
    Audio { size: u32 },
    Data { size: u32 },
    Padding { size: u32 },
}

/// Reads a little-endian word, or nothing at the end of the input.
pub fn parse_u32(c: &mut ByteCursor) -> (r: Option<u32>)
    requires
        old(c).wf(),
    ensures
        final(c).wf(),
        final(c).data@ == old(c).data@,
        old(c).rest() >= 4 ==> final(c).pos == old(c).pos + 4 && r == Some(u32_le(old(c).data@, old(c).pos as int)),
        old(c).rest() < 4 ==> final(c).pos == old(c).pos && r.is_none(),
{
    match c.next_u32_le() {
        Ok(w) => Some(w),
        Err(_) => None,
    }
}

/// Takes the next `count` bytes.
pub fn get_bytes(c: &mut ByteCursor, count: usize) -> (r: Vec<u8>)
    requires
        old(c).wf(),
        old(c).rest() >= count,
    ensures
        final(c).wf(),
        final(c).data@ == old(c).data@,
        final(c).pos == old(c).pos + count,
        r@ == old(c).data@.subrange(old(c).pos as int, old(c).pos + count),
{
    c.take_bytes(count)
}

/// The chunk whose header starts at `p`, and where its payload starts;
/// `None` when fewer than eight bytes are left.
pub open spec fn chunk_at(d: Seq<u8>, p: int) -> Option<Result<(Chunk, int), MulError>> {
    if p + 8 > d.len() {
        None
    } else {
        let kind = u32_le(d, p);
        let size = u32_le(d, p + 4);
        if kind == 0 {
            if size < 16 {
                Some(Err(MulError::ShortAudioChunk))
            } else if p + 32 > d.len() {
                Some(Err(MulError::UnexpectedEof))
            } else {
                Some(Ok((Chunk::Audio { size: (size - 16) as u32 }, p + 32)))
            }
        } else if kind == 1 || kind == 2 {
            if p + 16 > d.len() {
                Some(Err(MulError::UnexpectedEof))
            } else if kind == 1 {
                Some(Ok((Chunk::Data { size }, p + 16)))
            } else {
                Some(Ok((Chunk::Padding { size }, p + 16)))
            }
        } else {
            Some(Err(MulError::UnknownChunk(kind)))
        }
    }
}

impl Chunk {
    /// Reads a chunk header and steps over the rest of it (the fields
    /// between the size and the payload). `None` at the end of the stream.
    pub fn parse(c: &mut ByteCursor) -> (r: Result<Option<Chunk>, MulError>)
        requires
            old(c).wf(),
        ensures
            final(c).wf(),
            final(c).data@ == old(c).data@,
            chunk_at(old(c).data@, old(c).pos as int) matches None ==> r == Ok::<Option<Chunk>, MulError>(None) && final(c).pos == old(c).pos,
            chunk_at(old(c).data@, old(c).pos as int) matches Some(Err(e)) ==> r == Err::<Option<Chunk>, MulError>(e),
            chunk_at(old(c).data@, old(c).pos as int) matches Some(Ok((k, p))) ==> r == Ok::<Option<Chunk>, MulError>(Some(k)) && final(c).pos == p,
    {
        if c.remaining() < 8 {
            return Ok(None);
        }
        let kind = c.take_u32_le();
        let size = c.take_u32_le();
        if kind == 0 {
            if size < 16 {
                return Err(MulError::ShortAudioChunk);
            }
            if c.remaining() < 24 {
                return Err(MulError::UnexpectedEof);
            }
            c.take_bytes(24);
            Ok(Some(Chunk::Audio { size: size - 16 }))
        } else if kind == 1 || kind == 2 {
            if c.remaining() < 8 {
                return Err(MulError::UnexpectedEof);
            }
            c.take_bytes(8);
            if kind == 1 {
                Ok(Some(Chunk::Data { size }))
            } else {
                Ok(Some(Chunk::Padding { size }))
            }
        } else {
            Err(MulError::UnknownChunk(kind))
        }
    }
}

/// What the chunk stream has given so far: each audio payload in turn,
/// the data payloads one after the other, and how many data and padding
/// chunks went by.
pub struct MulState {
    pub payloads: Seq<Seq<u8>>,
    pub data: Seq<u8>,
    pub data_chunks: int,
    pub padding_chunks: int,
}

pub open spec fn splits_evenly(n: int, ch: int) -> bool {
    ch > 0 && n >= ch && n % ch == 0
}

/// Walks the chunk stream from `p` to its end, for `ch` channels.
pub open spec fn walk(d: Seq<u8>, p: int, ch: int, st: MulState) -> Result<MulState, MulError>
    decreases d.len() - p,
{
    if p < 0 || p + 8 > d.len() {
        Ok(st)
    } else {
        let kind = u32_le(d, p);
        let size = u32_le(d, p + 4) as int;
        if kind == 0 {
            if size < 16 {
                Err(MulError::ShortAudioChunk)
            } else if p + 32 + (size - 16) > d.len() {
                Err(MulError::UnexpectedEof)
            } else if !splits_evenly(size - 16, ch) {
                Err(MulError::UnevenAudio)
            } else {
                walk(d, p + 32 + (size - 16), ch, MulState {
                    payloads: st.payloads.push(d.subrange(p + 32, p + 32 + (size - 16))),
                    ..st
                })
            }
        } else if kind == 1 || kind == 2 {
            if p + 16 + size > d.len() {
                Err(MulError::UnexpectedEof)
            } else if kind == 1 {
                walk(d, p + 16 + size, ch, MulState {
                    data: st.data + d.subrange(p + 16, p + 16 + size),
                    data_chunks: st.data_chunks + 1,
                    ..st
                })
            } else {
                walk(d, p + 16 + size, ch, MulState { padding_chunks: st.padding_chunks + 1, ..st })
            }
        } else {
            Err(MulError::UnknownChunk(kind))
        }
    }
}

/// Channel `i`'s share of an audio payload split over `ch` channels.
pub open spec fn channel_part(payload: Seq<u8>, ch: int, i: int) -> Seq<u8> {
    payload.subrange(i * (payload.len() as int / ch), (i + 1) * (payload.len() as int / ch))
}

/// Channel `i`'s shares of the first `k` audio payloads, one after the other.
pub open spec fn channel_audio(payloads: Seq<Seq<u8>>, ch: int, i: int, k: int) -> Seq<u8>
    decreases k,
{
    if k <= 0 {
        Seq::empty()
    } else {
        channel_audio(payloads, ch, i, k - 1) + channel_part(payloads[k - 1], ch, i)
    }
}

pub open spec fn start_state() -> MulState {
    MulState { payloads: Seq::empty(), data: Seq::empty(), data_chunks: 0, padding_chunks: 0 }
}

/// The streams of an interleaved audio file.
pub struct MulContents {
    pub sample_rate: u32,
    pub channels: u32,
    /// One stream per channel.
    pub audio: Vec<Vec<u8>>,
    pub data: Vec<u8>,
    pub audio_chunks: usize,
    pub data_chunks: usize,
    pub padding_chunks: usize,
}

/// `m` holds what walking the stream gave.
pub open spec fn contents_match(m: MulContents, st: MulState, ch: int) -> bool {
    &&& m.audio@.len() == ch
    &&& forall|i: int| 0 <= i < ch ==> (#[trigger] m.audio@[i])@ == channel_audio(st.payloads, ch, i, st.payloads.len() as int)
    &&& m.data@ == st.data
    &&& m.audio_chunks == st.payloads.len()
    &&& m.data_chunks == st.data_chunks
    &&& m.padding_chunks == st.padding_chunks
}

fn append_span(v: &mut Vec<u8>, t: &[u8], start: usize, end: usize)
    requires
        start <= end <= t@.len(),
    ensures
        final(v)@ == old(v)@ + t@.subrange(start as int, end as int),
{
    let mut i: usize = start;
    while i < end
        invariant
            start <= i <= end <= t@.len(),
            v@ == old(v)@ + t@.subrange(start as int, i as int),
        decreases end - i,
    {
        v.push(t[i]);
        i = i + 1;
        assert(v@ =~= old(v)@ + t@.subrange(start as int, i as int));
    }
}

fn channel_stream(payloads: &Vec<Vec<u8>>, ch: u32, i: u32) -> (r: Vec<u8>)
    requires
        i < ch,
        forall|k: int| 0 <= k < payloads@.len() ==> splits_evenly((#[trigger] payloads@[k])@.len() as int, ch as int),
    ensures
        r@ == channel_audio(payloads@.map_values(|p: Vec<u8>| p@), ch as int, i as int, payloads@.len() as int),
{
    let ghost views = payloads@.map_values(|p: Vec<u8>| p@);
    let mut r: Vec<u8> = Vec::new();
    let mut k: usize = 0;
    while k < payloads.len()
        invariant
            i < ch,
            views == payloads@.map_values(|p: Vec<u8>| p@),
            forall|m: int| 0 <= m < payloads@.len() ==> splits_evenly((#[trigger] payloads@[m])@.len() as int, ch as int),
            k <= payloads@.len(),
            r@ == channel_audio(views, ch as int, i as int, k as int),
        decreases payloads@.len() - k,
    {
        let p = &payloads[k];
        let n = p.len();
        assert(splits_evenly(payloads@[k as int]@.len() as int, ch as int));
        let part = n / (ch as usize);
        proof {
            assert((i as int + 1) * (n as int / ch as int) <= n) by (nonlinear_arith)
                requires i < ch, ch > 0, (n as int) % (ch as int) == 0, n >= 0;
            assert(i as int * (n as int / ch as int) <= (i as int + 1) * (n as int / ch as int)) by (nonlinear_arith)
                requires ch > 0, n >= 0;
        }
        append_span(&mut r, p.as_slice(), (i as usize) * part, (i as usize + 1) * part);
        k = k + 1;
        assert(views[k - 1] == payloads@[k - 1]@);
        assert(r@ =~= channel_audio(views, ch as int, i as int, k as int));
    }
    r
}

/// Splits an interleaved audio file: the sample rate and channel count
/// from its header, then, from its chunk stream, one audio stream per
/// channel and the data stream.
pub fn split_mul(file: Vec<u8>) -> (r: Result<MulContents, MulError>)
    ensures
        file@.len() < 0x800 ==> r == Err::<MulContents, MulError>(MulError::UnexpectedEof),
        file@.len() >= 0x800 ==> match walk(file@, 0x800, u32_le(file@, 12) as int, start_state()) {
            Err(e) => r == Err::<MulContents, MulError>(e),
            Ok(st) => r.is_ok() && contents_match(r.unwrap(), st, u32_le(file@, 12) as int)
                && r.unwrap().sample_rate == u32_le(file@, 0) && r.unwrap().channels == u32_le(file@, 12),
        },
{
    let ghost d = file@;
    let mut c = ByteCursor::new(file);
    if c.remaining() < MUL_BODY_START {
        return Err(MulError::UnexpectedEof);
    }
    let sample_rate = c.take_u32_le();
    c.take_u32_le();
    c.take_u32_le();
    let channels = c.take_u32_le();
    c.take_bytes(MUL_BODY_START - 16);
    let ghost ch = channels as int;
    let mut payloads: Vec<Vec<u8>> = Vec::new();
    let mut data: Vec<u8> = Vec::new();
    let mut data_chunks: usize = 0;
    let mut padding_chunks: usize = 0;
    let mut done = false;
    assert(payloads@.map_values(|p: Vec<u8>| p@) =~= Seq::<Seq<u8>>::empty());
    assert(data@ =~= Seq::<u8>::empty());
    while !done
        invariant
            c.wf(),
            c.data@ == d,
            d == file@,
            d.len() >= 0x800,
            ch == channels as int,
            channels == u32_le(d, 12),
            c.pos >= 0x800,
            payloads@.len() + data_chunks + padding_chunks <= c.pos,
            forall|k: int| 0 <= k < payloads@.len() ==> splits_evenly((#[trigger] payloads@[k])@.len() as int, ch),
            walk(d, 0x800, ch, start_state()) == walk(d, c.pos as int, ch, MulState {
                payloads: payloads@.map_values(|p: Vec<u8>| p@),
                data: data@,
                data_chunks: data_chunks as int,
                padding_chunks: padding_chunks as int,
            }),
            done ==> walk(d, c.pos as int, ch, MulState {
                payloads: payloads@.map_values(|p: Vec<u8>| p@),
                data: data@,
                data_chunks: data_chunks as int,
                padding_chunks: padding_chunks as int,
            }) == Ok::<MulState, MulError>(MulState {
                payloads: payloads@.map_values(|p: Vec<u8>| p@),
                data: data@,
                data_chunks: data_chunks as int,
                padding_chunks: padding_chunks as int,
            }),
        decreases c.data@.len() - c.pos + (if done { 0int } else { 1int }),
    {
        let ghost p = c.pos as int;
        let ghost views = payloads@.map_values(|q: Vec<u8>| q@);
        match Chunk::parse(&mut c) {
            Ok(None) => {
                done = true;
            },
            Err(e) => {
                return Err(e);
            },
            Ok(Some(Chunk::Audio { size })) => {
                if c.remaining() < size as usize {
                    return Err(MulError::UnexpectedEof);
                }
                if channels == 0 || size < channels || size % channels != 0 {
                    return Err(MulError::UnevenAudio);
                }
                let payload = get_bytes(&mut c, size as usize);
                payloads.push(payload);
                assert(payloads@.map_values(|q: Vec<u8>| q@) =~= views.push(d.subrange(p + 32, p + 32 + size)));
            },
            Ok(Some(Chunk::Data { size })) => {
                if c.remaining() < size as usize {
                    return Err(MulError::UnexpectedEof);
                }
                let payload = get_bytes(&mut c, size as usize);
                append_span(&mut data, payload.as_slice(), 0, payload.len());
                assert(payload@.subrange(0, payload@.len() as int) =~= payload@);
                data_chunks = data_chunks + 1;
            },
            Ok(Some(Chunk::Padding { size })) => {
                if c.remaining() < size as usize {
                    return Err(MulError::UnexpectedEof);
                }
                c.take_bytes(size as usize);
                padding_chunks = padding_chunks + 1;
            },
        }
    }
    let ghost views = payloads@.map_values(|q: Vec<u8>| q@);
    let mut audio: Vec<Vec<u8>> = Vec::new();
    let mut i: u32 = 0;
    while i < channels
        invariant
            i <= channels,
            views == payloads@.map_values(|q: Vec<u8>| q@),
            forall|k: int| 0 <= k < payloads@.len() ==> splits_evenly((#[trigger] payloads@[k])@.len() as int, channels as int),
            audio@.len() == i,
            forall|m: int| 0 <= m < i ==> (#[trigger] audio@[m])@ == channel_audio(views, channels as int, m, views.len() as int),
        decreases channels - i,
    {
        audio.push(channel_stream(&payloads, channels, i));
        i = i + 1;
    }
    let audio_chunks = payloads.len();
    Ok(MulContents { sample_rate, channels, audio, data, audio_chunks, data_chunks, padding_chunks })
}

} // verus!

