//! An in-memory buffered byte source, and the capturing adapter that mirrors
//! every consumed byte into an accumulation buffer.

use vstd::prelude::*;
use vstd::slice::slice_subrange;

verus! {

/// A buffered byte source over an in-memory region: the whole stream plus a
/// cursor. `fill_buf` peeks at everything not yet consumed; `consume`
/// advances the cursor.
pub struct ByteSource {
    pub data: Vec<u8>,
    pub pos: usize,
}

impl ByteSource {
    /// The cursor never runs past the end of the data.
    pub open spec fn wf(&self) -> bool {
        self.pos <= self.data@.len()
    }

    /// The bytes not yet consumed.
    pub open spec fn remaining(&self) -> Seq<u8> {
        self.data@.skip(self.pos as int)
    }

    /// A source positioned at the very start of `data`.
    pub fn new(data: Vec<u8>) -> (r: ByteSource)
        ensures
            r.data@ == data@,
            r.pos == 0,
            r.wf(),
    {
        ByteSource { data, pos: 0 }
    }

    /// Peek at every byte not yet consumed, without advancing.
    pub fn fill_buf(&self) -> (r: &[u8])
        requires
            self.wf(),
        ensures
            r@ == self.remaining(),
    {
        slice_subrange(self.data.as_slice(), self.pos, self.data.len())
    }

    /// Mark `amt` bytes as consumed.
    pub fn consume(&mut self, amt: usize)
        requires
            old(self).wf(),
            amt <= old(self).remaining().len(),
        ensures
            final(self).data@ == old(self).data@,
            final(self).pos == old(self).pos + amt,
            final(self).wf(),
    {
        let n: usize = self.data.len();
        assert(self.pos + amt <= n);
        self.pos = self.pos + amt;
    }

    /// Consume and return the next `n` bytes, or `None`, leaving the source
    /// untouched, when fewer than `n` remain.
    pub fn read_bytes(&mut self, n: usize) -> (r: Option<Vec<u8>>)
        requires
            old(self).wf(),
        ensures
            final(self).data@ == old(self).data@,
            final(self).wf(),
            match r {
                Some(v) => {
                    &&& old(self).remaining().len() >= n
                    &&& v@ == old(self).remaining().take(n as int)
                    &&& final(self).pos == old(self).pos + n
                },
                None => {
                    &&& old(self).remaining().len() < n
                    &&& final(self).pos == old(self).pos
                },
            },
    {
        if n > self.data.len() - self.pos {
            return None;
        }
        let s = slice_subrange(self.data.as_slice(), self.pos, self.pos + n);
        let v = vstd::slice::slice_to_vec(s);
        self.pos = self.pos + n;
        proof {
            assert(v@ =~= old(self).remaining().take(n as int));
        }
        Some(v)
    }
}

/// A capturing adapter over a [`ByteSource`]: it offers the same
/// fill-then-consume reads as the source itself, and mirrors each consumed
/// byte into `write`, so that `write` accumulates the exact bytes a
/// decompressor drew from the stream. Peeking mirrors nothing; only explicit
/// consumption does.
pub struct PassThrough {
    pub read: ByteSource,
    pub write: Vec<u8>,
}

impl PassThrough {
    pub open spec fn wf(&self) -> bool {
        self.read.wf()
    }

    /// Wrap a source; the capture buffer starts empty.
    pub fn new(read: ByteSource) -> (r: PassThrough)
        requires
            read.wf(),
        ensures
            r.read == read,
            r.write@ == Seq::<u8>::empty(),
            r.wf(),
    {
        PassThrough { read, write: Vec::new() }
    }

    /// Peek at every byte not yet consumed; captures nothing.
    pub fn fill_buf(&self) -> (r: &[u8])
        requires
            self.wf(),
        ensures
            r@ == self.read.remaining(),
    {
        self.read.fill_buf()
    }

    /// Mark `amt` bytes as consumed, mirroring those same bytes into the
    /// capture buffer in the same step.
    pub fn consume(&mut self, amt: usize)
        requires
            old(self).wf(),
            amt <= old(self).read.remaining().len(),
        ensures
            final(self).read.data@ == old(self).read.data@,
            final(self).read.pos == old(self).read.pos + amt,
            final(self).write@ == old(self).write@ + old(self).read.remaining().take(amt as int),
            final(self).wf(),
    {
        let n: usize = self.read.data.len();
        assert(self.read.pos + amt <= n);
        let buf = slice_subrange(
            self.read.data.as_slice(),
            self.read.pos,
            self.read.pos + amt,
        );
        let mut i: usize = 0;
        while i < amt
            invariant
                i <= amt,
                buf@ == old(self).read.remaining().take(amt as int),
                buf@.len() == amt,
                self.read == old(self).read,
                self.write@ == old(self).write@ + buf@.take(i as int),
            decreases amt - i,
        {
            self.write.push(buf[i]);
            proof {
                assert(old(self).write@ + buf@.take(i + 1 as int) =~= (old(self).write@
                    + buf@.take(i as int)).push(buf@[i as int]));
            }
            i = i + 1;
        }
        proof {
            assert(buf@.take(amt as int) =~= buf@);
        }
        self.read.consume(amt);
    }

    /// Hand the accumulated capture out, leaving an empty buffer behind.
    pub fn take_capture(&mut self) -> (r: Vec<u8>)
        ensures
            r@ == old(self).write@,
            final(self).read == old(self).read,
            final(self).write@ == Seq::<u8>::empty(),
    {
        let mut r: Vec<u8> = Vec::new();
        core::mem::swap(&mut r, &mut self.write);
        r
    }
}

} // verus!
