use vstd::prelude::*;

verus! {

/// Why a decode or an export stopped.
#[derive(Clone, Copy, Debug, PartialEq, Eq, Structural)]
pub enum FormatError {
    /// The bank's signature is not the expected one.
    BadMagic,
    /// The input ended in the middle of a field.
    UnexpectedEof,
    /// A zone names a wave or a program that the tables do not hold.
    InvalidIndex,
    /// A byte span lies outside the buffer it points into, or runs backwards.
    SpanOutOfRange,
}

/// The little-endian 32-bit word at `p`.
pub open spec fn u32_le(s: Seq<u8>, p: int) -> u32 {
    (s[p] as int + 0x100 * s[p + 1] as int + 0x1_0000 * s[p + 2] as int + 0x100_0000 * s[p + 3] as int) as u32
}

/// The big-endian 32-bit word at `p`.
pub open spec fn u32_be(s: Seq<u8>, p: int) -> u32 {
    (s[p + 3] as int + 0x100 * s[p + 2] as int + 0x1_0000 * s[p + 1] as int + 0x100_0000 * s[p] as int) as u32
}

pub open spec fn i32_le(s: Seq<u8>, p: int) -> i32 {
    u32_le(s, p) as i32
}

pub open spec fn i32_be(s: Seq<u8>, p: int) -> i32 {
    u32_be(s, p) as i32
}

/// A forward-only reader over a byte buffer.
pub struct ByteCursor {
    pub data: Vec<u8>,
    pub pos: usize,
}

fn le_word(b0: u8, b1: u8, b2: u8, b3: u8) -> (r: u32)
    ensures
        r as int == b0 as int + 0x100 * b1 as int + 0x1_0000 * b2 as int + 0x100_0000 * b3 as int,
{
    b0 as u32 + (b1 as u32) * 0x100 + (b2 as u32) * 0x1_0000 + (b3 as u32) * 0x100_0000
}

impl ByteCursor {
    pub open spec fn wf(&self) -> bool {
        self.pos <= self.data@.len()
    }

    pub open spec fn rest(&self) -> int {
        self.data@.len() - self.pos
    }

    pub fn new(data: Vec<u8>) -> (r: ByteCursor)
        ensures
            r.wf(),
            r.data@ == data@,
            r.pos == 0,
    {
        ByteCursor { data, pos: 0 }
    }

    pub fn remaining(&self) -> (r: usize)
        requires
            self.wf(),
        ensures
            r == self.rest(),
    {
        self.data.len() - self.pos
    }

    pub(crate) fn take_byte(&mut self) -> (r: u8)
        requires
            old(self).wf(),
            old(self).rest() >= 1,
        ensures
            final(self).wf(),
            final(self).data@ == old(self).data@,
            final(self).pos == old(self).pos + 1,
            r == old(self).data@[old(self).pos as int],
    {
        let len = self.data.len();
        let b = self.data[self.pos];
        self.pos = self.pos + 1;
        b
    }

    pub(crate) fn take_u32_le(&mut self) -> (r: u32)
        requires
            old(self).wf(),
            old(self).rest() >= 4,
        ensures
            final(self).wf(),
            final(self).data@ == old(self).data@,
            final(self).pos == old(self).pos + 4,
            r == u32_le(old(self).data@, old(self).pos as int),
    {
        let len = self.data.len();
        let p = self.pos;
        let r = le_word(self.data[p], self.data[p + 1], self.data[p + 2], self.data[p + 3]);
        self.pos = p + 4;
        r
    }

    pub(crate) fn take_i32_le(&mut self) -> (r: i32)
        requires
            old(self).wf(),
            old(self).rest() >= 4,
        ensures
            final(self).wf(),
            final(self).data@ == old(self).data@,
            final(self).pos == old(self).pos + 4,
            r == i32_le(old(self).data@, old(self).pos as int),
    {
        #[verifier::truncate] (self.take_u32_le() as i32)
    }

    pub(crate) fn take_bytes(&mut self, n: usize) -> (r: Vec<u8>)
        requires
            old(self).wf(),
            old(self).rest() >= n,
        ensures
            final(self).wf(),
            final(self).data@ == old(self).data@,
            final(self).pos == old(self).pos + n,
            r@ == old(self).data@.subrange(old(self).pos as int, old(self).pos + n),
    {
        let len = self.data.len();
        let start = self.pos;
        let mut r: Vec<u8> = Vec::new();
        let mut i: usize = 0;
        while i < n
            invariant
                self.wf(),
                self.pos == start,
                len == self.data@.len(),
                start + n <= len,
                i <= n,
                r@ == self.data@.subrange(start as int, start + i),
            decreases n - i,
        {
            r.push(self.data[start + i]);
            i = i + 1;
            assert(r@ =~= self.data@.subrange(start as int, start + i));
        }
        self.pos = start + n;
        r
    }

    /// Consumes one byte.
    pub fn next_byte(&mut self) -> (r: Result<u8, FormatError>)
        requires
            old(self).wf(),
        ensures
            final(self).wf(),
            final(self).data@ == old(self).data@,
            old(self).rest() >= 1 ==> final(self).pos == old(self).pos + 1 && r == Ok::<u8, FormatError>(old(self).data@[old(self).pos as int]),
            old(self).rest() < 1 ==> final(self).pos == old(self).pos && r == Err::<u8, FormatError>(FormatError::UnexpectedEof),
    {
        if self.remaining() < 1 {
            return Err(FormatError::UnexpectedEof);
        }
        Ok(self.take_byte())
    }

    /// Consumes a little-endian unsigned word.
    pub fn next_u32_le(&mut self) -> (r: Result<u32, FormatError>)
        requires
            old(self).wf(),
        ensures
            final(self).wf(),
            final(self).data@ == old(self).data@,
            old(self).rest() >= 4 ==> final(self).pos == old(self).pos + 4 && r == Ok::<u32, FormatError>(u32_le(old(self).data@, old(self).pos as int)),
            old(self).rest() < 4 ==> final(self).pos == old(self).pos && r == Err::<u32, FormatError>(FormatError::UnexpectedEof),
    {
        if self.remaining() < 4 {
            return Err(FormatError::UnexpectedEof);
        }
        Ok(self.take_u32_le())
    }

    /// Consumes a little-endian signed word.
    pub fn next_i32_le(&mut self) -> (r: Result<i32, FormatError>)
        requires
            old(self).wf(),
        ensures
            final(self).wf(),
            final(self).data@ == old(self).data@,
            old(self).rest() >= 4 ==> final(self).pos == old(self).pos + 4 && r == Ok::<i32, FormatError>(i32_le(old(self).data@, old(self).pos as int)),
            old(self).rest() < 4 ==> final(self).pos == old(self).pos && r == Err::<i32, FormatError>(FormatError::UnexpectedEof),
    {
        if self.remaining() < 4 {
            return Err(FormatError::UnexpectedEof);
        }
        Ok(self.take_i32_le())
    }

    /// Consumes a big-endian signed word.
    pub fn next_i32_be(&mut self) -> (r: Result<i32, FormatError>)
        requires
            old(self).wf(),
        ensures
            final(self).wf(),
            final(self).data@ == old(self).data@,
            old(self).rest() >= 4 ==> final(self).pos == old(self).pos + 4 && r == Ok::<i32, FormatError>(i32_be(old(self).data@, old(self).pos as int)),
            old(self).rest() < 4 ==> final(self).pos == old(self).pos && r == Err::<i32, FormatError>(FormatError::UnexpectedEof),
    {
        if self.remaining() < 4 {
            return Err(FormatError::UnexpectedEof);
        }
        let len = self.data.len();
        let p = self.pos;
        let w = le_word(self.data[p + 3], self.data[p + 2], self.data[p + 1], self.data[p]);
        self.pos = p + 4;
        Ok(#[verifier::truncate] (w as i32))
    }

    /// Returns the next `n` bytes verbatim.
    pub fn take(&mut self, n: usize) -> (r: Result<Vec<u8>, FormatError>)
        requires
            old(self).wf(),
        ensures
            final(self).wf(),
            final(self).data@ == old(self).data@,
            old(self).rest() >= n ==> final(self).pos == old(self).pos + n && r.is_ok() && r.unwrap()@ == old(self).data@.subrange(old(self).pos as int, old(self).pos + n),
            old(self).rest() < n ==> final(self).pos == old(self).pos && r == Err::<Vec<u8>, FormatError>(FormatError::UnexpectedEof),
    {
        if self.remaining() < n {
            return Err(FormatError::UnexpectedEof);
        }
        Ok(self.take_bytes(n))
    }

    /// Steps over the next `n` bytes.
    pub fn skip(&mut self, n: usize) -> (r: Result<(), FormatError>)
        requires
            old(self).wf(),
        ensures
            final(self).wf(),
            final(self).data@ == old(self).data@,
            old(self).rest() >= n ==> final(self).pos == old(self).pos + n && r.is_ok(),
            old(self).rest() < n ==> final(self).pos == old(self).pos && r == Err::<(), FormatError>(FormatError::UnexpectedEof),
    {
        if self.remaining() < n {
            return Err(FormatError::UnexpectedEof);
        }
        let len = self.data.len();
        self.pos = self.pos + n;
        Ok(())
    }
}

/// A copy of `data[start..end]`.
pub fn copy_span(data: &[u8], start: usize, end: usize) -> (r: Vec<u8>)
    requires
        start <= end <= data@.len(),
    ensures
        r@ == data@.subrange(start as int, end as int),
{
    let mut r: Vec<u8> = Vec::new();
    let mut i: usize = start;
    while i < end
        invariant
            start <= i <= end <= data@.len(),
            r@ == data@.subrange(start as int, i as int),
        decreases end - i,
    {
        r.push(data[i]);
        i = i + 1;
        assert(r@ =~= data@.subrange(start as int, i as int));
    }
    r
}

} // verus!

