use vstd::prelude::*;
use crate::bank::SequenceTableEntry;
use crate::cursor::{copy_span, FormatError};

verus! {

/// Where sequence `i` starts.
pub open spec fn span_start(t: Seq<SequenceTableEntry>, i: int) -> int {
    t[i].offset as int
}

/// Where sequence `i` ends: where the next one starts, or the end of the file.
pub open spec fn span_end(t: Seq<SequenceTableEntry>, len: int, i: int) -> int {
    if i + 1 < t.len() {
        t[i + 1].offset as int
    } else {
        len
    }
}

/// Every offset lies in the file and none is below the one before it.
pub open spec fn offsets_valid(t: Seq<SequenceTableEntry>, len: int) -> bool {
    &&& forall|i: int| 0 <= i < t.len() ==> 0 <= #[trigger] t[i].offset <= len
    &&& forall|i: int| 0 <= i < t.len() - 1 ==> #[trigger] t[i].offset <= t[i + 1].offset
}

/// The bytes of sequence `i`.
pub open spec fn span_bytes(file: Seq<u8>, t: Seq<SequenceTableEntry>, i: int) -> Seq<u8> {
    file.subrange(span_start(t, i), span_end(t, file.len() as int, i))
}

/// The first `k` sequences, one after the other.
pub open spec fn joined(file: Seq<u8>, t: Seq<SequenceTableEntry>, k: int) -> Seq<u8>
    decreases k,
{
    if k <= 0 {
        Seq::empty()
    } else {
        joined(file, t, k - 1) + span_bytes(file, t, k - 1)
    }
}

/// The byte span of each sequence of the table, in table order: from its
/// offset to the next entry's, the last one to the end of the file.
pub fn sequence_spans(table: &Vec<SequenceTableEntry>, file_len: usize) -> (r: Result<Vec<(usize, usize)>, FormatError>)
    ensures
        r.is_ok() <==> offsets_valid(table@, file_len as int),
        r.is_err() ==> r == Err::<Vec<(usize, usize)>, FormatError>(FormatError::SpanOutOfRange),
        r.is_ok() ==> {
            &&& r.unwrap()@.len() == table@.len()
            &&& forall|i: int| 0 <= i < table@.len() ==> {
                &&& (#[trigger] r.unwrap()@[i]).0 == span_start(table@, i)
                &&& r.unwrap()@[i].1 == span_end(table@, file_len as int, i)
            }
        },
{
    let n = table.len();
    let mut i: usize = 0;
    while i < n
        invariant
            n == table@.len(),
            i <= n,
            forall|k: int| 0 <= k < i ==> 0 <= #[trigger] table@[k].offset <= file_len,
            forall|k: int| 0 <= k < i && k < n - 1 ==> #[trigger] table@[k].offset <= table@[k + 1].offset,
        decreases n - i,
    {
        let off = table[i].offset;
        if off < 0 || off as usize > file_len {
            return Err(FormatError::SpanOutOfRange);
        }
        if i + 1 < n && table[i + 1].offset < off {
            return Err(FormatError::SpanOutOfRange);
        }
        i = i + 1;
    }
    let mut spans: Vec<(usize, usize)> = Vec::new();
    let mut i: usize = 0;
    while i < n
        invariant
            n == table@.len(),
            i <= n,
            offsets_valid(table@, file_len as int),
            spans@.len() == i,
            forall|k: int| 0 <= k < i ==> {
                &&& (#[trigger] spans@[k]).0 == span_start(table@, k)
                &&& spans@[k].1 == span_end(table@, file_len as int, k)
            },
        decreases n - i,
    {
        let start = table[i].offset as usize;
        let end = if i + 1 < n { table[i + 1].offset as usize } else { file_len };
        spans.push((start, end));
        i = i + 1;
    }
    Ok(spans)
}

/// The bytes of each sequence, in table order.
pub fn split_sequences(file: &Vec<u8>, table: &Vec<SequenceTableEntry>) -> (r: Result<Vec<Vec<u8>>, FormatError>)
    ensures
        r.is_ok() <==> offsets_valid(table@, file@.len() as int),
        r.is_err() ==> r.unwrap_err() == FormatError::SpanOutOfRange,
        r.is_ok() ==> {
            &&& r.unwrap()@.len() == table@.len()
            &&& forall|i: int| 0 <= i < table@.len() ==> #[trigger] r.unwrap()@[i]@ == span_bytes(file@, table@, i)
        },
{
    let spans = match sequence_spans(table, file.len()) {
        Ok(s) => s,
        Err(e) => return Err(e),
    };
    proof {
        lemma_spans_ordered(table@, file@.len() as int);
    }
    let mut out: Vec<Vec<u8>> = Vec::new();
    let mut i: usize = 0;
    while i < spans.len()
        invariant
            spans@.len() == table@.len(),
            offsets_valid(table@, file@.len() as int),
            forall|k: int| 0 <= k < table@.len() ==> {
                &&& (#[trigger] spans@[k]).0 == span_start(table@, k)
                &&& spans@[k].1 == span_end(table@, file@.len() as int, k)
            },
            forall|k: int| 0 <= k < table@.len() ==>
                0 <= span_start(table@, k) <= #[trigger] span_end(table@, file@.len() as int, k) <= file@.len(),
            i <= spans@.len(),
            out@.len() == i,
            forall|k: int| 0 <= k < i ==> #[trigger] out@[k]@ == span_bytes(file@, table@, k),
        decreases spans@.len() - i,
    {
        let (start, end) = spans[i];
        assert(0 <= span_start(table@, i as int) <= span_end(table@, file@.len() as int, i as int));
        let piece = copy_span(file.as_slice(), start, end);
        out.push(piece);
        i = i + 1;
    }
    Ok(out)
}

/// Each span runs forward and lies in the file.
proof fn lemma_spans_ordered(t: Seq<SequenceTableEntry>, len: int)
    requires
        offsets_valid(t, len),
    ensures
        forall|k: int| 0 <= k < t.len() ==>
            0 <= span_start(t, k) <= #[trigger] span_end(t, len, k) <= len,
{
    assert forall|k: int| 0 <= k < t.len() implies
        0 <= span_start(t, k) <= #[trigger] span_end(t, len, k) <= len by {
        assert(0 <= t[k].offset <= len);
        if k + 1 < t.len() {
            assert(t[k].offset <= t[k + 1].offset);
            assert(0 <= t[k + 1].offset <= len);
        }
    }
}

/// The spans re-derived from a valid sequence table do not overlap: each
/// one ends no later than any later one starts, and all lie in the file.
pub proof fn lemma_spans_disjoint(t: Seq<SequenceTableEntry>, len: int)
    requires
        offsets_valid(t, len),
    ensures
        forall|i: int| 0 <= i < t.len() ==> 0 <= span_start(t, i) <= #[trigger] span_end(t, len, i) <= len,
        forall|i: int, j: int| 0 <= i < j < t.len() ==> #[trigger] span_end(t, len, i) <= #[trigger] span_start(t, j),
{
    lemma_spans_ordered(t, len);
    assert forall|i: int, j: int| 0 <= i < j < t.len() implies #[trigger] span_end(t, len, i) <= #[trigger] span_start(t, j) by {
        lemma_offsets_monotone(t, len, i + 1, j);
    }
}

proof fn lemma_offsets_monotone(t: Seq<SequenceTableEntry>, len: int, i: int, j: int)
    requires
        offsets_valid(t, len),
        0 <= i <= j < t.len(),
    ensures
        t[i].offset <= t[j].offset,
    decreases j - i,
{
    if i < j {
        lemma_offsets_monotone(t, len, i, j - 1);
        assert(t[j - 1].offset <= t[j].offset);
    }
}

/// Putting the sequences back together, in table order, gives back the
/// file from the first sequence's offset to its end.
pub proof fn lemma_sequences_reassemble(file: Seq<u8>, t: Seq<SequenceTableEntry>)
    requires
        offsets_valid(t, file.len() as int),
        t.len() > 0,
    ensures
        joined(file, t, t.len() as int) == file.subrange(span_start(t, 0), file.len() as int),
{
    lemma_spans_ordered(t, file.len() as int);
    lemma_joined_prefix(file, t, t.len() as int);
}

proof fn lemma_joined_prefix(file: Seq<u8>, t: Seq<SequenceTableEntry>, k: int)
    requires
        offsets_valid(t, file.len() as int),
        forall|m: int| 0 <= m < t.len() ==>
            0 <= span_start(t, m) <= #[trigger] span_end(t, file.len() as int, m) <= file.len(),
        1 <= k <= t.len(),
    ensures
        joined(file, t, k) == file.subrange(span_start(t, 0), span_end(t, file.len() as int, k - 1)),
    decreases k,
{
    let len = file.len() as int;
    if k == 1 {
        assert(joined(file, t, 0) == Seq::<u8>::empty());
        assert(joined(file, t, 1) =~= span_bytes(file, t, 0));
    } else {
        lemma_joined_prefix(file, t, k - 1);
        assert(span_end(t, len, k - 2) == span_start(t, k - 1));
        assert(span_end(t, len, k - 2) >= span_start(t, 0)) by {
            if k - 2 > 0 {
                assert(span_end(t, len, 0) <= span_end(t, len, k - 2)) by {
                    lemma_offsets_monotone(t, len, 1, k - 1);
                }
            }
        }
        assert(joined(file, t, k) =~= file.subrange(span_start(t, 0), span_end(t, len, k - 1)));
    }
}

} // verus!
