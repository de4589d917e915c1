use vstd::prelude::*;

verus! {

/// The four bytes of `x`, most significant first.
pub open spec fn be_bytes(x: u32) -> Seq<u8> {
    seq![(x / 0x100_0000) as u8, ((x / 0x1_0000) % 0x100) as u8, ((x / 0x100) % 0x100) as u8, (x % 0x100) as u8]
}

/// The 48-byte header of a VAG sample file: signature, version, the
/// payload size and the sample rate (both big-endian), then zeros.
pub open spec fn vag_header_bytes(data_len: u32, sample_rate: u32) -> Seq<u8> {
    seq![0x56u8, 0x41, 0x47, 0x70, 0, 0, 0, 0x20, 0, 0, 0, 0] + be_bytes(data_len) + be_bytes(sample_rate)
        + Seq::new(28, |i: int| 0u8)
}

fn push_u32_be(v: &mut Vec<u8>, x: u32)
    ensures
        final(v)@ == old(v)@ + be_bytes(x),
{
    v.push((x / 0x100_0000) as u8);
    v.push(((x / 0x1_0000) % 0x100) as u8);
    v.push(((x / 0x100) % 0x100) as u8);
    v.push((x % 0x100) as u8);
    assert(final(v)@ =~= old(v)@ + be_bytes(x));
}

/// The header that goes before `data_len` bytes of raw sample data.
pub fn vag_header(data_len: u32, sample_rate: u32) -> (r: Vec<u8>)
    ensures
        r@ == vag_header_bytes(data_len, sample_rate),
{
    let mut v: Vec<u8> = Vec::new();
    v.push(0x56);
    v.push(0x41);
    v.push(0x47);
    v.push(0x70);
    v.push(0);
    v.push(0);
    v.push(0);
    v.push(0x20);
    v.push(0);
    v.push(0);
    v.push(0);
    v.push(0);
    push_u32_be(&mut v, data_len);
    push_u32_be(&mut v, sample_rate);
    let ghost head = v@;
    assert(head =~= seq![0x56u8, 0x41, 0x47, 0x70, 0, 0, 0, 0x20, 0, 0, 0, 0] + be_bytes(data_len) + be_bytes(sample_rate));
    assert(v@.subrange(0, 20) =~= head);
    let mut k: usize = 0;
    while k < 28
        invariant
            k <= 28,
            v@.len() == 20 + k,
            v@.subrange(0, 20) == head,
            head == seq![0x56u8, 0x41, 0x47, 0x70, 0, 0, 0, 0x20, 0, 0, 0, 0] + be_bytes(data_len) + be_bytes(sample_rate),
            forall|m: int| 20 <= m < 20 + k ==> v@[m] == 0,
        decreases 28 - k,
    {
        v.push(0);
        k = k + 1;
        assert(v@.subrange(0, 20) =~= head);
    }
    assert(v@ =~= head + Seq::new(28, |i: int| 0u8)) by {
        assert(v@.subrange(0, 20) == head);
    }
    assert(v@ =~= vag_header_bytes(data_len, sample_rate));
    v
}

} // verus!
