//! The fan-in side of the transport.
//!
//! Replies from the dispatch loop, replies from pooled handlers, and
//! frames from independent periodic producers all funnel through one
//! sender, which serializes them onto the single outbound stream:
//! each frame enters the queue whole, so concurrent producers never
//! interleave partial frames. The queue is bounded; a producer that
//! finds it full is told so and drops its frame rather than blocking
//! forever, which is the wanted behaviour while no host is attached.

use vstd::prelude::*;
use crate::codec::{encode_ctrl_status, spec_encode_ctrl_status, CtrlStatus};
use crate::frame::{encode_frame, spec_encode_frame, Frame, FrameV};

verus! {

/// The shared outbound frame queue.
#[derive(Debug)]
pub struct Sender {
    /// Key prefix width the wire carries, in bytes.
    pub key_len: usize,
    /// Key of the diagnostic log route, already reduced to `key_len`.
    pub log_key: u64,
    /// Most frames the queue holds before producers see "full".
    pub capacity: usize,
    /// Encoded frames waiting for the transport, oldest first.
    pub queue: Vec<Vec<u8>>,
    /// Sequence value stamped on the next log frame.
    pub log_seq: u32,
}

/// The byte sequences queued in `q`, oldest first.
pub open spec fn spec_queue_view(q: Seq<Vec<u8>>) -> Seq<Seq<u8>> {
    q.map_values(|v: Vec<u8>| v@)
}

impl Sender {
    /// The key width is one the wire supports and the queue respects
    /// its bound.
    pub open spec fn wf(self) -> bool {
        &&& (self.key_len == 1 || self.key_len == 2 || self.key_len == 4 || self.key_len == 8)
        &&& self.queue@.len() <= self.capacity
    }

    /// An empty sender for a wire of `key_len`-byte key prefixes,
    /// logging on `log_key`, holding at most `capacity` frames.
    pub fn new(key_len: usize, log_key: u64, capacity: usize) -> (s: Sender)
        requires
            key_len == 1 || key_len == 2 || key_len == 4 || key_len == 8,
        ensures
            s.wf(),
            s.key_len == key_len,
            s.log_key == log_key,
            s.capacity == capacity,
            s.queue@.len() == 0,
            s.log_seq == 0,
    {
        Sender { key_len, log_key, capacity, queue: Vec::new(), log_seq: 0 }
    }

    /// Queues one whole frame, or reports the queue full. Nothing
    /// but the queue changes.
    pub fn enqueue(&mut self, f: &Frame) -> (sent: bool)
        requires
            old(self).wf(),
        ensures
            final(self).wf(),
            final(self).key_len == old(self).key_len,
            final(self).log_key == old(self).log_key,
            final(self).capacity == old(self).capacity,
            final(self).log_seq == old(self).log_seq,
            sent == (old(self).queue@.len() < old(self).capacity),
            sent ==> spec_queue_view(final(self).queue@) == spec_queue_view(
                old(self).queue@,
            ).push(spec_encode_frame(f@, old(self).key_len as nat)),
            !sent ==> final(self).queue@ == old(self).queue@,
    {
        if self.queue.len() < self.capacity {
            let bytes = encode_frame(f, self.key_len);
            self.queue.push(bytes);
            proof {
                assert(spec_queue_view(self.queue@) =~= spec_queue_view(old(self).queue@).push(
                    spec_encode_frame(f@, old(self).key_len as nat),
                ));
            }
            true
        } else {
            false
        }
    }

    /// Queues the reply to the request with sequence number `seq` on
    /// route `key`: the reply frame carries exactly that sequence
    /// number.
    pub fn reply(&mut self, key: u64, seq: u32, payload: Vec<u8>) -> (sent: bool)
        requires
            old(self).wf(),
        ensures
            final(self).wf(),
            final(self).key_len == old(self).key_len,
            final(self).log_key == old(self).log_key,
            final(self).capacity == old(self).capacity,
            final(self).log_seq == old(self).log_seq,
            sent == (old(self).queue@.len() < old(self).capacity),
            sent ==> spec_queue_view(final(self).queue@) == spec_queue_view(
                old(self).queue@,
            ).push(
                spec_encode_frame(
                    FrameV { key, seq, payload: payload@ },
                    old(self).key_len as nat,
                ),
            ),
            !sent ==> final(self).queue@ == old(self).queue@,
    {
        let f = Frame { key, seq, payload };
        self.enqueue(&f)
    }

    /// Queues one diagnostic log frame carrying `text`, best effort:
    /// when the queue is full the frame is dropped and the caller is
    /// not blocked. Each sent log frame advances the log sequence by
    /// one, wrapping around.
    pub fn log(&mut self, text: Vec<u8>) -> (sent: bool)
        requires
            old(self).wf(),
        ensures
            final(self).wf(),
            final(self).key_len == old(self).key_len,
            final(self).log_key == old(self).log_key,
            final(self).capacity == old(self).capacity,
            sent == (old(self).queue@.len() < old(self).capacity),
            sent ==> spec_queue_view(final(self).queue@) == spec_queue_view(
                old(self).queue@,
            ).push(
                spec_encode_frame(
                    FrameV { key: old(self).log_key, seq: old(self).log_seq, payload: text@ },
                    old(self).key_len as nat,
                ),
            ) && final(self).log_seq == old(self).log_seq.wrapping_add(1),
            !sent ==> final(self).queue@ == old(self).queue@ && final(self).log_seq == old(
                self,
            ).log_seq,
    {
        let f = Frame { key: self.log_key, seq: self.log_seq, payload: text };
        let sent = self.enqueue(&f);
        if sent {
            self.log_seq = self.log_seq.wrapping_add(1);
        }
        sent
    }

    /// Queues one topic-publish frame on `topic_key` with the
    /// sender-chosen sequence value `seq`.
    pub fn publish(&mut self, topic_key: u64, seq: u32, payload: Vec<u8>) -> (sent: bool)
        requires
            old(self).wf(),
        ensures
            final(self).wf(),
            final(self).key_len == old(self).key_len,
            final(self).log_key == old(self).log_key,
            final(self).capacity == old(self).capacity,
            final(self).log_seq == old(self).log_seq,
            sent == (old(self).queue@.len() < old(self).capacity),
            sent ==> spec_queue_view(final(self).queue@) == spec_queue_view(
                old(self).queue@,
            ).push(
                spec_encode_frame(
                    FrameV { key: topic_key, seq, payload: payload@ },
                    old(self).key_len as nat,
                ),
            ),
            !sent ==> final(self).queue@ == old(self).queue@,
    {
        let f = Frame { key: topic_key, seq, payload };
        self.enqueue(&f)
    }

    /// Hands every queued frame to the transport writer, oldest
    /// first, leaving the queue empty. Frames leave in the order
    /// they were enqueued.
    pub fn drain(&mut self) -> (out: Vec<Vec<u8>>)
        requires
            old(self).wf(),
        ensures
            final(self).wf(),
            final(self).key_len == old(self).key_len,
            final(self).log_key == old(self).log_key,
            final(self).capacity == old(self).capacity,
            final(self).log_seq == old(self).log_seq,
            out@ == old(self).queue@,
            final(self).queue@.len() == 0,
    {
        let mut out: Vec<Vec<u8>> = Vec::new();
        core::mem::swap(&mut out, &mut self.queue);
        out
    }
}

/// Drives pending outbound traffic to the transport: the poll of the
/// logging interrupt hands every queued frame out, oldest first.
pub fn log_over_usb(sender: &mut Sender) -> (out: Vec<Vec<u8>>)
    requires
        old(sender).wf(),
    ensures
        final(sender).wf(),
        out@ == old(sender).queue@,
        final(sender).queue@.len() == 0,
{
    sender.drain()
}

/// One tick of the periodic status broadcaster: publishes `msg` on
/// the topic `topic_key` with the task's own sequence value `seq`,
/// then advances the sequence by one, wrapping around.
pub fn broadcast_step(sender: &mut Sender, topic_key: u64, seq: u8, msg: &CtrlStatus) -> (r: (
    bool,
    u8,
))
    requires
        old(sender).wf(),
    ensures
        final(sender).wf(),
        r.1 == seq.wrapping_add(1),
        r.0 == (old(sender).queue@.len() < old(sender).capacity),
        r.0 ==> spec_queue_view(final(sender).queue@) == spec_queue_view(
            old(sender).queue@,
        ).push(
            spec_encode_frame(
                FrameV { key: topic_key, seq: seq as u32, payload: spec_encode_ctrl_status(*msg) },
                old(sender).key_len as nat,
            ),
        ),
        !r.0 ==> final(sender).queue@ == old(sender).queue@,
    {
    let payload = encode_ctrl_status(msg);
    let sent = sender.publish(topic_key, seq as u32, payload);
    (sent, seq.wrapping_add(1))
}

// ---------------------------------------------------------------
// The heartbeat log line.
// ---------------------------------------------------------------

/// The decimal spelling of `n`.
pub open spec fn spec_decimal(n: nat) -> Seq<u8>
    decreases n,
{
    if n < 10 {
        seq![(0x30 + n) as u8]
    } else {
        spec_decimal(n / 10) + seq![(0x30 + n % 10) as u8]
    }
}

/// The heartbeat line: `Uptime: <secs>s`.
pub open spec fn spec_uptime_message(secs: nat) -> Seq<u8> {
    seq![0x55u8, 0x70u8, 0x74u8, 0x69u8, 0x6du8, 0x65u8, 0x3au8, 0x20u8] + spec_decimal(secs)
        + seq![0x73u8]
}

/// Appends the decimal spelling of `n` to `out`.
pub fn push_decimal(out: &mut Vec<u8>, n: u64)
    ensures
        final(out)@ == old(out)@ + spec_decimal(n as nat),
    decreases n,
{
    if n < 10 {
        out.push(0x30 + n as u8);
        assert(out@ =~= old(out)@ + spec_decimal(n as nat));
    } else {
        push_decimal(out, n / 10);
        out.push(0x30 + (n % 10) as u8);
        assert(out@ =~= old(out)@ + spec_decimal(n as nat));
    }
}

/// The text of the heartbeat log line after `secs` seconds of
/// uptime.
pub fn uptime_message(secs: u64) -> (r: Vec<u8>)
    ensures
        r@ == spec_uptime_message(secs as nat),
{
    let mut out: Vec<u8> = Vec::new();
    out.push(0x55);
    out.push(0x70);
    out.push(0x74);
    out.push(0x69);
    out.push(0x6d);
    out.push(0x65);
    out.push(0x3a);
    out.push(0x20);
    proof {
        assert(out@ =~= seq![0x55u8, 0x70u8, 0x74u8, 0x69u8, 0x6du8, 0x65u8, 0x3au8, 0x20u8]);
    }
    push_decimal(&mut out, secs);
    out.push(0x73);
    proof {
        assert(out@ =~= spec_uptime_message(secs as nat));
    }
    out
}

/// One tick of the heartbeat logger: queues the uptime line, best
/// effort.
pub fn logging_step(sender: &mut Sender, uptime_secs: u64) -> (sent: bool)
    requires
        old(sender).wf(),
    ensures
        final(sender).wf(),
        sent == (old(sender).queue@.len() < old(sender).capacity),
        sent ==> spec_queue_view(final(sender).queue@) == spec_queue_view(
            old(sender).queue@,
        ).push(
            spec_encode_frame(
                FrameV {
                    key: old(sender).log_key,
                    seq: old(sender).log_seq,
                    payload: spec_uptime_message(uptime_secs as nat),
                },
                old(sender).key_len as nat,
            ),
        ),
        !sent ==> final(sender).queue@ == old(sender).queue@,
{
    let text = uptime_message(uptime_secs);
    sender.log(text)
}

} // verus!
