//! The transport frame: the unit exchanged over the byte channel.
//!
//! A frame is a header and a payload. The header holds the routing
//! key, sent as a fixed-width little-endian prefix whose width the
//! route table chose, and a variable-length sequence number that
//! correlates a reply with its request. The payload runs to the end
//! of the frame; the transport delimits frames.

use vstd::prelude::*;
use vstd::slice::{slice_subrange, slice_to_vec};
use crate::varint::{push_varint, spec_take_varint, spec_varint, DecodeError};
use crate::codec::{spec_take_u32, take_u32};
use crate::key::spec_trunc_key;

verus! {

/// One transport frame.
#[derive(Clone, Debug, PartialEq, Eq)]
pub struct Frame {
    /// Routing key, already reduced to the width the wire carries.
    pub key: u64,
    /// Correlates a reply with the request that caused it.
    pub seq: u32,
    /// The encoded request, response or topic message.
    pub payload: Vec<u8>,
}

/// The mathematical content of a [`Frame`].
pub struct FrameV {
    pub key: u64,
    pub seq: u32,
    pub payload: Seq<u8>,
}

impl View for Frame {
    type V = FrameV;

    open spec fn view(&self) -> FrameV {
        FrameV { key: self.key, seq: self.seq, payload: self.payload@ }
    }
}

/// 0x100 to the power `n`: the number of values of an `n`-byte
/// little-endian prefix.
pub open spec fn spec_pow256(n: nat) -> nat
    decreases n,
{
    if n == 0 {
        1
    } else {
        0x100 * spec_pow256((n - 1) as nat)
    }
}

/// The `len`-byte little-endian spelling of `key`'s low bytes.
pub open spec fn spec_key_bytes(key: u64, len: nat) -> Seq<u8>
    decreases len,
{
    if len == 0 {
        Seq::empty()
    } else {
        seq![(key % 0x100) as u8] + spec_key_bytes(key / 0x100, (len - 1) as nat)
    }
}

/// The value spelled by the little-endian bytes `b`.
pub open spec fn spec_le_value(b: Seq<u8>) -> nat
    decreases b.len(),
{
    if b.len() == 0 {
        0
    } else {
        (b[0] as nat) + 0x100 * spec_le_value(b.skip(1))
    }
}

/// The wire bytes of the frame `f` under key width `key_len`.
pub open spec fn spec_encode_frame(f: FrameV, key_len: nat) -> Seq<u8> {
    spec_key_bytes(f.key, key_len) + spec_varint(f.seq as nat) + f.payload
}

/// The frame held in `b` under key width `key_len`, or the error
/// that decoding its envelope reports.
pub open spec fn spec_take_frame(b: Seq<u8>, key_len: nat) -> Result<FrameV, DecodeError> {
    if b.len() < key_len {
        Err(DecodeError::UnexpectedEnd)
    } else {
        match spec_take_u32(b.skip(key_len as int)) {
            Err(e) => Err(e),
            Ok((seq, n)) => Ok(
                FrameV {
                    key: spec_le_value(b.take(key_len as int)) as u64,
                    seq: seq as u32,
                    payload: b.skip((key_len + n) as int),
                },
            ),
        }
    }
}

/// A little-endian spelling has one byte per position.
pub proof fn lemma_key_bytes_len(key: u64, len: nat)
    ensures
        spec_key_bytes(key, len).len() == len,
    decreases len,
{
    if len > 0 {
        lemma_key_bytes_len(key / 0x100, (len - 1) as nat);
    }
}

/// The bytes spell at most `spec_pow256(len) - 1`.
pub proof fn lemma_le_value_bound(b: Seq<u8>)
    ensures
        spec_le_value(b) < spec_pow256(b.len()),
    decreases b.len(),
{
    if b.len() > 0 {
        lemma_le_value_bound(b.skip(1));
        let rest = spec_le_value(b.skip(1));
        assert(0x100 * rest <= 0x100 * (spec_pow256((b.len() - 1) as nat) - 1))
            by (nonlinear_arith)
            requires
                rest <= spec_pow256((b.len() - 1) as nat) - 1,
        ;
    }
}

/// Reading back the spelling of a key that fits the width gives the
/// key.
pub proof fn lemma_key_bytes_round_trip(key: u64, len: nat)
    requires
        key < spec_pow256(len),
    ensures
        spec_le_value(spec_key_bytes(key, len)) == key,
    decreases len,
{
    if len == 0 {
    } else {
        let rest = spec_key_bytes(key / 0x100, (len - 1) as nat);
        assert(spec_key_bytes(key, len).skip(1) =~= rest);
        assert((key as nat) / 0x100 < spec_pow256((len - 1) as nat)) by (nonlinear_arith)
            requires
                key < spec_pow256(len),
                spec_pow256(len) == 0x100 * spec_pow256((len - 1) as nat),
        ;
        lemma_key_bytes_round_trip(key / 0x100, (len - 1) as nat);
        assert((key as nat) == 0x100 * ((key as nat) / 0x100) + (key as nat) % 0x100);
    }
}

/// More bytes spell no fewer values.
pub proof fn lemma_pow256_mono(a: nat, b: nat)
    requires
        a <= b,
    ensures
        spec_pow256(a) <= spec_pow256(b),
    decreases b,
{
    if a < b {
        lemma_pow256_mono(a, (b - 1) as nat);
    }
}

/// The supported key widths fit a 64-bit key.
pub proof fn lemma_pow256_widths()
    ensures
        spec_pow256(1) == 0x100,
        spec_pow256(2) == 0x1_0000,
        spec_pow256(4) == 0x1_0000_0000,
        spec_pow256(8) == 0x1_0000_0000_0000_0000,
{
    reveal_with_fuel(spec_pow256, 9);
}

/// A key reduced to `len` bytes fits an `len`-byte prefix.
pub proof fn lemma_trunc_key_fits(key: u64, len: usize)
    requires
        len == 1 || len == 2 || len == 4 || len == 8,
    ensures
        spec_trunc_key(key, len) < spec_pow256(len as nat),
{
    lemma_pow256_widths();
}

/// Round trip of a frame whose key fits the key width: decoding the
/// encoding gives the frame back.
pub proof fn lemma_frame_round_trip(f: FrameV, key_len: nat)
    requires
        f.key < spec_pow256(key_len),
    ensures
        spec_take_frame(spec_encode_frame(f, key_len), key_len) == Ok::<FrameV, DecodeError>(f),
{
    let kb = spec_key_bytes(f.key, key_len);
    let sq = spec_varint(f.seq as nat);
    let b = spec_encode_frame(f, key_len);
    lemma_key_bytes_len(f.key, key_len);
    assert(b.take(key_len as int) =~= kb);
    lemma_key_bytes_round_trip(f.key, key_len);
    assert(b.skip(key_len as int) =~= sq + f.payload);
    crate::codec::lemma_u32_round_trip(f.seq, f.payload);
    assert(b.skip((key_len + sq.len()) as int) =~= f.payload);
}

/// Round trip of a frame whose key is already reduced to the wire's
/// key width, as every frame the core builds is.
pub proof fn lemma_wire_frame_round_trip(f: FrameV, key_len: usize)
    requires
        key_len == 1 || key_len == 2 || key_len == 4 || key_len == 8,
        f.key == spec_trunc_key(f.key, key_len),
    ensures
        spec_take_frame(spec_encode_frame(f, key_len as nat), key_len as nat) == Ok::<
            FrameV,
            DecodeError,
        >(f),
{
    lemma_trunc_key_fits(f.key, key_len);
    lemma_frame_round_trip(f, key_len as nat);
}

/// Appends the `len`-byte little-endian prefix of `key` to `out`.
pub fn push_key_bytes(out: &mut Vec<u8>, key: u64, len: usize)
    ensures
        final(out)@ == old(out)@ + spec_key_bytes(key, len as nat),
    decreases len,
{
    if len == 0 {
        assert(out@ =~= old(out)@ + spec_key_bytes(key, 0));
    } else {
        out.push((key % 0x100) as u8);
        push_key_bytes(out, key / 0x100, len - 1);
        assert(out@ =~= old(out)@ + spec_key_bytes(key, len as nat));
    }
}

/// The wire bytes of `f` under key width `key_len`.
pub fn encode_frame(f: &Frame, key_len: usize) -> (r: Vec<u8>)
    ensures
        r@ == spec_encode_frame(f@, key_len as nat),
{
    let mut out: Vec<u8> = Vec::new();
    push_key_bytes(&mut out, f.key, key_len);
    push_varint(&mut out, f.seq as u64);
    let mut i: usize = 0;
    proof {
        assert(out@ =~= spec_key_bytes(f@.key, key_len as nat) + spec_varint(f@.seq as nat)
            + f.payload@.take(0));
    }
    while i < f.payload.len()
        invariant
            i <= f.payload@.len(),
            out@ == spec_key_bytes(f@.key, key_len as nat) + spec_varint(f@.seq as nat)
                + f.payload@.take(i as int),
        decreases f.payload@.len() - i,
    {
        out.push(f.payload[i]);
        proof {
            assert(f.payload@.take(i as int).push(f.payload@[i as int]) =~= f.payload@.take(
                i + 1 as int,
            ));
        }
        i = i + 1;
    }
    proof {
        assert(f.payload@.take(f.payload@.len() as int) =~= f.payload@);
        assert(out@ =~= spec_encode_frame(f@, key_len as nat));
    }
    out
}

/// Reads the `len`-byte little-endian prefix starting at `pos`.
fn read_le_key(b: &[u8], pos: usize, len: usize) -> (k: u64)
    requires
        pos + len <= b@.len(),
        len <= 8,
    ensures
        k == spec_le_value(b@.subrange(pos as int, (pos + len) as int)),
    decreases len,
{
    let ghost s = b@.subrange(pos as int, (pos + len) as int);
    let blen: usize = b.len();
    if len == 0 {
        0
    } else {
        assert(pos + 1 <= blen);
        let rest = read_le_key(b, pos + 1, len - 1);
        proof {
            assert(s.skip(1) =~= b@.subrange(pos + 1 as int, (pos + 1 + (len - 1)) as int));
            lemma_le_value_bound(s.skip(1));
            lemma_pow256_mono((len - 1) as nat, 7);
            reveal_with_fuel(spec_pow256, 9);
            assert(s[0] == b@[pos as int]);
        }
        b[pos] as u64 + 0x100 * rest
    }
}

/// Decodes the frame held in `bytes` under key width `key_len`.
/// Decoding is total: any input too short for the header, or whose
/// sequence number is malformed, yields the typed error instead.
pub fn take_frame(bytes: &[u8], key_len: usize) -> (r: Result<Frame, DecodeError>)
    requires
        key_len == 1 || key_len == 2 || key_len == 4 || key_len == 8,
    ensures
        match r {
            Ok(f) => spec_take_frame(bytes@, key_len as nat) == Ok::<FrameV, DecodeError>(f@),
            Err(e) => spec_take_frame(bytes@, key_len as nat) == Err::<FrameV, DecodeError>(e),
        },
{
    if bytes.len() < key_len {
        return Err(DecodeError::UnexpectedEnd);
    }
    let key = read_le_key(bytes, 0, key_len);
    proof {
        assert(bytes@.subrange(0, key_len as int) =~= bytes@.take(key_len as int));
        lemma_le_value_bound(bytes@.take(key_len as int));
        lemma_pow256_widths();
    }
    let sq = match take_u32(bytes, key_len) {
        Err(e) => {
            return Err(e);
        },
        Ok(v) => v,
    };
    let payload = slice_to_vec(slice_subrange(bytes, sq.1, bytes.len()));
    proof {
        assert(bytes@.subrange(sq.1 as int, bytes@.len() as int) =~= bytes@.skip(
            (key_len + (sq.1 - key_len)) as int,
        ));
    }
    Ok(Frame { key, seq: sq.0, payload })
}

} // verus!
