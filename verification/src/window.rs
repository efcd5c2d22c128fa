//! The buffered-I/O emulation layer shared by every file backend.
//!
//! A [`BufWindow`] is a growable byte buffer together with a filled count and
//! a cursor. The byte range `[pos, filled)` of the buffer is the window: the
//! slice of the file's content currently materialized in memory. Reads are
//! served from the window; a backend fill replaces the buffer's prefix and
//! resets the cursor; a write replaces the buffer's prefix and empties the
//! window so that the next read refetches.

use vstd::prelude::*;
use vstd::math::min;

verus! {

/// A byte buffer with a cursor and a filled count.
///
/// Invariant ([`BufWindow::wf`]): `pos() <= filled() <= buf().len()`.
pub struct BufWindow {
    buffer: Vec<u8>,
    buf_filled: usize,
    cursor: usize,
}

impl BufWindow {
    /// The allocated buffer contents.
    pub closed spec fn buf(&self) -> Seq<u8> {
        self.buffer@
    }

    /// How many bytes at the front of the buffer are valid.
    pub closed spec fn filled(&self) -> int {
        self.buf_filled as int
    }

    /// The read/write position within the filled region.
    pub closed spec fn pos(&self) -> int {
        self.cursor as int
    }

    /// Well-formedness: the cursor lies within the filled region, which lies
    /// within the buffer.
    pub open spec fn wf(&self) -> bool {
        0 <= self.pos() <= self.filled() <= self.buf().len()
    }

    /// The not-yet-consumed filled bytes.
    pub open spec fn window(&self) -> Seq<u8> {
        self.buf().subrange(self.pos(), self.filled())
    }

    /// A fresh window of `size` zero bytes, empty and at position zero.
    pub fn new(size: usize) -> (w: BufWindow)
        ensures
            w.wf(),
            w.buf() == Seq::new(size as nat, |i: int| 0u8),
            w.filled() == 0,
            w.pos() == 0,
    {
        let w = BufWindow { buffer: vec![0u8; size], buf_filled: 0, cursor: 0 };
        proof {
            assert(w.buf() =~= Seq::new(size as nat, |i: int| 0u8));
        }
        w
    }

    /// The allocated buffer length.
    pub fn buffer_len(&self) -> (n: usize)
        ensures
            n == self.buf().len(),
    {
        self.buffer.len()
    }

    /// Serves up to `max` bytes out of the window, advancing the cursor past
    /// what was served. Serves fewer than `max` bytes only when the window
    /// holds fewer.
    pub fn read_into(&mut self, max: usize) -> (out: Vec<u8>)
        requires
            old(self).wf(),
        ensures
            final(self).wf(),
            out@.len() == min(old(self).filled() - old(self).pos(), max as int),
            out@ == old(self).buf().subrange(old(self).pos(), old(self).pos() + out@.len()),
            final(self).pos() == old(self).pos() + out@.len(),
            final(self).filled() == old(self).filled(),
            final(self).buf() == old(self).buf(),
    {
        let avail = self.buf_filled - self.cursor;
        let count = if avail < max { avail } else { max };
        let mut out: Vec<u8> = Vec::new();
        let mut i: usize = 0;
        while i < count
            invariant
                self.wf(),
                i <= count,
                self.cursor + count <= self.buf_filled,
                out@.len() == i as int,
                out@ == self.buf().subrange(self.pos(), self.pos() + i),
            decreases count - i,
        {
            out.push(self.buffer[self.cursor + i]);
            proof {
                assert(out@ =~= self.buf().subrange(self.pos(), self.pos() + i + 1));
            }
            i += 1;
        }
        self.cursor += count;
        out
    }

    /// A copy of the window: the filled bytes not yet consumed. The cursor
    /// does not move.
    pub fn window_bytes(&self) -> (out: Vec<u8>)
        requires
            self.wf(),
        ensures
            out@ == self.window(),
    {
        let mut out: Vec<u8> = Vec::new();
        let mut i: usize = self.cursor;
        while i < self.buf_filled
            invariant
                self.wf(),
                self.cursor <= i <= self.buf_filled,
                out@ == self.buf().subrange(self.pos(), i as int),
            decreases self.buf_filled - i,
        {
            out.push(self.buffer[i]);
            proof {
                assert(out@ =~= self.buf().subrange(self.pos(), i + 1));
            }
            i += 1;
        }
        out
    }

    /// Moves the cursor forward by `amt`, saturating at the end of the
    /// filled region.
    pub fn consume(&mut self, amt: usize)
        requires
            old(self).wf(),
        ensures
            final(self).wf(),
            final(self).pos() == min(old(self).pos() + amt, old(self).filled()),
            final(self).filled() == old(self).filled(),
            final(self).buf() == old(self).buf(),
    {
        let avail = self.buf_filled - self.cursor;
        if amt < avail {
            self.cursor += amt;
        } else {
            self.cursor = self.buf_filled;
        }
    }

    /// Records a backend fill: the bytes just read replace the front of the
    /// buffer, the filled count becomes their number, and the cursor returns
    /// to the start.
    pub fn apply_fill(&mut self, data: &[u8])
        requires
            old(self).wf(),
            data@.len() <= old(self).buf().len(),
        ensures
            final(self).wf(),
            final(self).buf() == data@ + old(self).buf().skip(data@.len() as int),
            final(self).filled() == data@.len(),
            final(self).pos() == 0,
    {
        let n = data.len();
        let mut i: usize = 0;
        while i < n
            invariant
                i <= n,
                n == data@.len() <= self.buffer@.len(),
                self.buffer@.len() == old(self).buf().len(),
                self.buffer@ == data@.take(i as int) + old(self).buf().skip(i as int),
            decreases n - i,
        {
            let b = data[i];
            self.buffer.set(i, b);
            proof {
                assert(self.buffer@ =~= data@.take(i + 1) + old(self).buf().skip(i + 1));
            }
            i += 1;
        }
        self.buf_filled = n;
        self.cursor = 0;
        proof {
            assert(self.buffer@ =~= data@ + old(self).buf().skip(n as int));
        }
    }

    /// Replaces buffered content with `data`, truncated to the allocated
    /// buffer length: up to `min(buffer length, data length)` bytes are
    /// copied, and that count is returned. The filled region is emptied, so
    /// the next read refetches from the backend.
    pub fn write_replace(&mut self, data: &[u8]) -> (n: usize)
        requires
            old(self).wf(),
        ensures
            final(self).wf(),
            n == min(old(self).buf().len() as int, data@.len() as int),
            final(self).buf() == data@.take(n as int) + old(self).buf().skip(n as int),
            final(self).filled() == 0,
            final(self).pos() == 0,
    {
        self.buf_filled = 0;
        self.cursor = 0;
        let n = if self.buffer.len() < data.len() {
            self.buffer.len()
        } else {
            data.len()
        };
        let mut i: usize = 0;
        while i < n
            invariant
                i <= n,
                n <= data@.len(),
                n <= self.buffer@.len(),
                self.buffer@.len() == old(self).buf().len(),
                self.buf_filled == 0,
                self.cursor == 0,
                self.buffer@ == data@.take(i as int) + old(self).buf().skip(i as int),
            decreases n - i,
        {
            let b = data[i];
            self.buffer.set(i, b);
            proof {
                assert(self.buffer@ =~= data@.take(i + 1) + old(self).buf().skip(i + 1));
            }
            i += 1;
        }
        n
    }

    /// A copy of the whole allocated buffer, filled or not. This is what a
    /// flush persists: the full buffer, not only the window.
    pub fn full_buffer(&self) -> (out: Vec<u8>)
        ensures
            out@ == self.buf(),
    {
        let mut out: Vec<u8> = Vec::new();
        let mut i: usize = 0;
        while i < self.buffer.len()
            invariant
                i <= self.buffer@.len(),
                out@ == self.buf().take(i as int),
            decreases self.buffer@.len() - i,
        {
            out.push(self.buffer[i]);
            proof {
                assert(out@ =~= self.buf().take(i + 1));
            }
            i += 1;
        }
        proof {
            assert(out@ =~= self.buf());
        }
        out
    }

    /// Resizes the allocated buffer: a longer buffer keeps its contents and
    /// pads with zero bytes, a shorter one keeps its prefix. The filled
    /// region and cursor are clipped to the new length.
    pub fn resize(&mut self, size: usize)
        requires
            old(self).wf(),
        ensures
            final(self).wf(),
            final(self).buf().len() == size,
            final(self).buf() == if size <= old(self).buf().len() {
                old(self).buf().take(size as int)
            } else {
                (old(self).buf() + Seq::new((size - old(self).buf().len()) as nat, |i: int| 0u8))
            },
            final(self).filled() == min(old(self).filled(), size as int),
            final(self).pos() == min(old(self).pos(), size as int),
    {
        self.buffer.resize(size, 0u8);
        if self.buf_filled > size {
            self.buf_filled = size;
        }
        if self.cursor > size {
            self.cursor = size;
        }
        proof {
            if size <= old(self).buf().len() {
                assert(self.buffer@ =~= old(self).buf().take(size as int));
            } else {
                assert(self.buffer@ =~= old(self).buf() + Seq::new(
                    (size - old(self).buf().len()) as nat,
                    |i: int| 0u8,
                ));
            }
        }
    }

    /// Empties the filled region and resets the cursor; the buffer's content
    /// and allocated length are untouched.
    pub fn reset(&mut self)
        requires
            old(self).wf(),
        ensures
            final(self).wf(),
            final(self).buf() == old(self).buf(),
            final(self).filled() == 0,
            final(self).pos() == 0,
    {
        self.buf_filled = 0;
        self.cursor = 0;
    }

    /// True when the window is exhausted, so the next read must fill.
    pub fn needs_fill(&self) -> (r: bool)
        ensures
            r == (self.pos() >= self.filled()),
    {
        self.cursor >= self.buf_filled
    }
}

/// Round trip. A file is created with a buffer of at least the payload's
/// length; the payload `b` is written ([`BufWindow::write_replace`] leaves
/// `buf1` in the buffer); a flush persists the full buffer
/// ([`BufWindow::full_buffer`] hands `persisted` to the backend); the file is
/// closed and reopened, and the first fill reads the persisted content back,
/// clipped to the buffer length ([`BufWindow::apply_fill`] makes `refill` the
/// window); a read of `b.len()` bytes then serves the window's front
/// ([`BufWindow::read_into`] returns `out`). The bytes read equal the bytes
/// written.
pub proof fn lemma_write_flush_read_round_trip(
    buf0: Seq<u8>,
    b: Seq<u8>,
    buf1: Seq<u8>,
    persisted: Seq<u8>,
    refill: Seq<u8>,
    out: Seq<u8>,
)
    requires
        b.len() <= buf0.len(),
        buf1 == b.take(min(buf0.len() as int, b.len() as int)) + buf0.skip(
            min(buf0.len() as int, b.len() as int),
        ),
        persisted == buf1,
        refill == persisted.take(min(persisted.len() as int, buf1.len() as int)),
        out == refill.take(min(refill.len() as int, b.len() as int)),
    ensures
        out == b,
{
    assert(min(buf0.len() as int, b.len() as int) == b.len() as int);
    assert(buf1.len() == buf0.len());
    assert(refill =~= persisted);
    assert(out =~= b);
}

/// Round trip, boundary. A file created with buffer size zero accepts no
/// bytes from any write: the accepted count is zero and the buffer is
/// unchanged — the documented truncation limit of the write path, kept, not
/// repaired.
pub proof fn lemma_zero_buffer_write_accepts_nothing(buf0: Seq<u8>, b: Seq<u8>)
    requires
        buf0.len() == 0,
    ensures
        min(buf0.len() as int, b.len() as int) == 0,
        b.take(min(buf0.len() as int, b.len() as int)) + buf0.skip(
            min(buf0.len() as int, b.len() as int),
        ) == buf0,
{
    assert(b.take(0) + buf0.skip(0) =~= buf0);
}

} // verus!
