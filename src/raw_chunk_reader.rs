//! A read and seek view clamped to one chunk's payload.

use vstd::prelude::*;

verus! {

/// A view onto the bytes `[start, start + length)` of a shared stream.
/// Positions are local: position 0 is `start`. Reads never cross the end
/// of the window; the window itself lies inside the stream.
pub struct RawChunkReader<'a> {
    pub stream: &'a Vec<u8>,
    pub start: u64,
    pub length: u64,
    pub pos: u64,
}

impl<'a> RawChunkReader<'a> {
    /// The window lies inside the stream.
    pub open spec fn wf(&self) -> bool {
        self.start + self.length <= self.stream@.len()
    }

    /// The payload bytes the window covers.
    pub open spec fn window(&self) -> Seq<u8> {
        self.stream@.subrange(self.start as int, self.start + self.length)
    }

    /// Bytes left between the position and the end of the window.
    pub open spec fn remaining(&self) -> int {
        if self.pos < self.length {
            self.length - self.pos
        } else {
            0
        }
    }

    /// A reader over `[start, start + length)` of `stream`, at position 0.
    pub fn new(stream: &'a Vec<u8>, start: u64, length: u64) -> (r: RawChunkReader<'a>)
        requires
            start + length <= stream@.len(),
        ensures
            r.wf(),
            r.stream == stream,
            r.start == start,
            r.length == length,
            r.pos == 0,
    {
        RawChunkReader { stream, start, length, pos: 0 }
    }

    /// The local position.
    pub fn position(&self) -> (r: u64)
        ensures
            r == self.pos,
    {
        self.pos
    }

    /// Moves to local `offset`. A position past the end is allowed; reads
    /// there return nothing.
    pub fn seek_to(&mut self, offset: u64)
        ensures
            *final(self) == (RawChunkReader { pos: offset, ..*old(self) }),
    {
        self.pos = offset;
    }

    /// Fills the front of `buf` with the next bytes of the window and returns
    /// how many: all of `buf` or what is left of the window, whichever is
    /// fewer. The rest of `buf` is kept; the position moves past the bytes read.
    pub fn read(&mut self, buf: &mut Vec<u8>) -> (n: usize)
        requires
            old(self).wf(),
        ensures
            n as int == if old(buf)@.len() < old(self).remaining() {
                old(buf)@.len() as int
            } else {
                old(self).remaining()
            },
            final(buf)@.len() == old(buf)@.len(),
            forall|i: int|
                0 <= i < n ==> final(buf)@[i] == old(self).stream@[old(self).start + old(self).pos + i],
            forall|i: int| n <= i < old(buf)@.len() ==> final(buf)@[i] == old(buf)@[i],
            *final(self) == (RawChunkReader { pos: (old(self).pos + n) as u64, ..*old(self) }),
    {
        let total = self.stream.len();
        let left: u64 = if self.pos < self.length {
            self.length - self.pos
        } else {
            0
        };
        let n: usize = if (buf.len() as u64) < left {
            buf.len()
        } else {
            left as usize
        };
        let base: usize = if self.pos < self.length {
            (self.start + self.pos) as usize
        } else {
            0
        };
        let mut i: usize = 0;
        while i < n
            invariant
                self.wf(),
                total == self.stream@.len(),
                n <= buf@.len(),
                buf@.len() == old(buf)@.len(),
                n <= left,
                left == self.remaining(),
                self.pos < self.length ==> base == self.start + self.pos,
                left == 0 ==> n == 0,
                i <= n,
                forall|k: int| 0 <= k < i ==> buf@[k] == self.stream@[base + k],
                forall|k: int| i <= k < buf@.len() ==> buf@[k] == old(buf)@[k],
                *self == *old(self),
            decreases n - i,
        {
            buf.set(i, self.stream[base + i]);
            i = i + 1;
        }
        self.pos = self.pos + n as u64;
        n
    }

    /// A copy of the whole window.
    pub fn contents(&self) -> (r: Vec<u8>)
        requires
            self.wf(),
        ensures
            r@ == self.window(),
    {
        let total = self.stream.len();
        assert(self.start + self.length <= total);
        copy_range(self.stream, self.start as usize, (self.start + self.length) as usize)
    }
}

/// A copy of `s[from..to]`.
pub fn copy_range(s: &Vec<u8>, from: usize, to: usize) -> (r: Vec<u8>)
    requires
        from <= to <= s@.len(),
    ensures
        r@ == s@.subrange(from as int, to as int),
{
    let mut r: Vec<u8> = Vec::new();
    let mut i: usize = from;
    while i < to
        invariant
            from <= i <= to <= s@.len(),
            r@ == s@.subrange(from as int, i as int),
        decreases to - i,
    {
        r.push(s[i]);
        i = i + 1;
        assert(r@ =~= s@.subrange(from as int, i as int));
    }
    r
}

} // verus!
