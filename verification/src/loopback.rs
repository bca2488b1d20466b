//! The serial loopback: bytes accumulate until a terminator, then
//! the whole line is echoed back with the terminator appended.
//!
//! The buffer is bounded; a byte that arrives while the buffer is
//! full is dropped rather than overrunning it, so no input sequence
//! can break the device.

use vstd::prelude::*;

verus! {

/// Most bytes a line may hold before further bytes are dropped.
pub const LINE_CAPACITY: usize = 256;

/// The byte that ends a line.
pub const TERMINATOR: u8 = 0x0a;

/// The accumulating line buffer of the loopback.
#[derive(Debug)]
pub struct LineBuffer {
    pub buf: Vec<u8>,
}

/// What one input byte does to the buffered line: a terminator
/// flushes the line followed by the terminator; any other byte is
/// appended while there is room and dropped when there is none.
pub open spec fn spec_feed_byte(buf: Seq<u8>, byte: u8) -> (Seq<u8>, Seq<u8>) {
    if byte == TERMINATOR {
        (Seq::empty(), buf + seq![TERMINATOR])
    } else if buf.len() < LINE_CAPACITY {
        (buf.push(byte), Seq::empty())
    } else {
        (buf, Seq::empty())
    }
}

/// What a whole input chunk does: the bytes are fed in order and
/// the echoes concatenate.
pub open spec fn spec_feed(buf: Seq<u8>, input: Seq<u8>) -> (Seq<u8>, Seq<u8>)
    decreases input.len(),
{
    if input.len() == 0 {
        (buf, Seq::empty())
    } else {
        let first = spec_feed_byte(buf, input[0]);
        let rest = spec_feed(first.0, input.skip(1));
        (rest.0, first.1 + rest.1)
    }
}

impl LineBuffer {
    /// The buffered line never exceeds the capacity.
    pub open spec fn wf(self) -> bool {
        self.buf@.len() <= LINE_CAPACITY
    }

    /// An empty line buffer.
    pub fn new() -> (r: LineBuffer)
        ensures
            r.wf(),
            r.buf@.len() == 0,
    {
        LineBuffer { buf: Vec::new() }
    }

    /// Feeds one byte; returns what is echoed back.
    pub fn feed_byte(&mut self, byte: u8) -> (out: Vec<u8>)
        requires
            old(self).wf(),
        ensures
            final(self).wf(),
            (final(self).buf@, out@) == spec_feed_byte(old(self).buf@, byte),
    {
        let mut out: Vec<u8> = Vec::new();
        if byte == TERMINATOR {
            core::mem::swap(&mut out, &mut self.buf);
            out.push(TERMINATOR);
            assert(out@ =~= old(self).buf@ + seq![TERMINATOR]);
        } else if self.buf.len() < LINE_CAPACITY {
            self.buf.push(byte);
        }
        out
    }

    /// Feeds a received chunk byte by byte; returns everything
    /// echoed back, in order.
    pub fn feed(&mut self, chunk: &[u8]) -> (out: Vec<u8>)
        requires
            old(self).wf(),
        ensures
            final(self).wf(),
            (final(self).buf@, out@) == spec_feed(old(self).buf@, chunk@),
    {
        let mut out: Vec<u8> = Vec::new();
        let mut i: usize = 0;
        proof {
            assert(chunk@.skip(0) =~= chunk@);
            assert(out@ + spec_feed(self.buf@, chunk@).1 =~= spec_feed(self.buf@, chunk@).1);
        }
        while i < chunk.len()
            invariant
                i <= chunk@.len(),
                self.wf(),
                spec_feed(old(self).buf@, chunk@) == (
                    spec_feed(self.buf@, chunk@.skip(i as int)).0,
                    out@ + spec_feed(self.buf@, chunk@.skip(i as int)).1,
                ),
            decreases chunk@.len() - i,
        {
            proof {
                assert(chunk@.skip(i as int)[0] == chunk@[i as int]);
                assert(chunk@.skip(i as int).skip(1) =~= chunk@.skip(i + 1 as int));
            }
            let ghost buf_before = self.buf@;
            let ghost out_before = out@;
            let echoed = self.feed_byte(chunk[i]);
            let mut j: usize = 0;
            while j < echoed.len()
                invariant
                    j <= echoed@.len(),
                    out@ == out_before + echoed@.take(j as int),
                decreases echoed@.len() - j,
            {
                out.push(echoed[j]);
                proof {
                    assert(out_before + echoed@.take(j as int).push(echoed@[j as int])
                        =~= out_before + echoed@.take(j + 1 as int));
                }
                j = j + 1;
            }
            proof {
                assert(echoed@.take(echoed@.len() as int) =~= echoed@);
                assert(out@ == out_before + echoed@);
                let tail = spec_feed(self.buf@, chunk@.skip(i + 1 as int));
                assert(spec_feed(buf_before, chunk@.skip(i as int)) == (
                    tail.0,
                    echoed@ + tail.1,
                ));
                assert(out_before + (echoed@ + tail.1) =~= (out_before + echoed@) + tail.1);
            }
            i = i + 1;
        }
        proof {
            assert(chunk@.skip(chunk@.len() as int) =~= Seq::<u8>::empty());
            assert(out@ + Seq::<u8>::empty() =~= out@);
        }
        out
    }
}

} // verus!
