//! Variable-length integer wire encoding.
//!
//! An unsigned integer is sent as little-endian groups of seven bits;
//! every byte but the last carries a continuation bit. A decoder for a
//! `w`-bit integer reads at most `ceil(w / 7)` bytes and bounds the
//! final byte, so decoding is total: it consumes a bounded prefix of
//! any input and reports malformed bytes with a typed [`DecodeError`].

use vstd::prelude::*;

verus! {

/// Why a payload or frame failed to decode. Decoding never panics;
/// every malformed input maps to one of these.
#[derive(Clone, Copy, Debug, PartialEq, Eq, Structural)]
pub enum DecodeError {
    /// The input ended before the value was complete.
    UnexpectedEnd,
    /// A variable-length integer ran past the width of its type.
    BadVarint,
    /// An enum tag named no declared variant.
    BadDiscriminant,
}

/// Most bytes a variable-length `u16` may occupy.
pub const VARINT_MAX_U16: usize = 3;

/// Most bytes a variable-length `u32` may occupy.
pub const VARINT_MAX_U32: usize = 5;

/// Most bytes a variable-length `u64` may occupy.
pub const VARINT_MAX_U64: usize = 10;

/// Largest admissible final byte of a maximum-length `u16` varint.
pub const VARINT_LAST_U16: u8 = 0x03;

/// Largest admissible final byte of a maximum-length `u32` varint.
pub const VARINT_LAST_U32: u8 = 0x0f;

/// Largest admissible final byte of a maximum-length `u64` varint.
pub const VARINT_LAST_U64: u8 = 0x01;

/// The canonical (shortest) encoding of `v`.
pub open spec fn spec_varint(v: nat) -> Seq<u8>
    decreases v,
{
    if v < 0x80 {
        seq![v as u8]
    } else {
        seq![((v % 0x80) + 0x80) as u8] + spec_varint(v / 0x80)
    }
}

/// The value and consumed length that a decoder limited to `max`
/// bytes, whose final byte may not exceed `last_max`, takes from the
/// front of `b`; or the error it reports.
pub open spec fn spec_take_varint(b: Seq<u8>, max: nat, last_max: u8) -> Result<
    (nat, nat),
    DecodeError,
>
    decreases max,
{
    if b.len() == 0 {
        Err(DecodeError::UnexpectedEnd)
    } else if max <= 1 {
        if b[0] > last_max {
            Err(DecodeError::BadVarint)
        } else {
            Ok((b[0] as nat, 1))
        }
    } else if b[0] < 0x80 {
        Ok((b[0] as nat, 1))
    } else {
        match spec_take_varint(b.skip(1), (max - 1) as nat, last_max) {
            Err(e) => Err(e),
            Ok((v, n)) => Ok((((b[0] - 0x80) as nat) + 0x80 * v, n + 1)),
        }
    }
}

/// The largest value a decoder limited to `max` bytes with final byte
/// at most `last_max` can return.
pub open spec fn spec_varint_cap(max: nat, last_max: u8) -> nat
    decreases max,
{
    if max <= 1 {
        last_max as nat
    } else {
        0x7f + 0x80 * spec_varint_cap((max - 1) as nat, last_max)
    }
}

/// The three decoder bounds used on this wire are exactly the type
/// maxima.
pub proof fn lemma_varint_caps()
    ensures
        spec_varint_cap(VARINT_MAX_U16 as nat, VARINT_LAST_U16) == u16::MAX,
        spec_varint_cap(VARINT_MAX_U32 as nat, VARINT_LAST_U32) == u32::MAX,
        spec_varint_cap(VARINT_MAX_U64 as nat, VARINT_LAST_U64) == u64::MAX,
{
    reveal_with_fuel(spec_varint_cap, 11);
}

/// A successful take stays within the cap and consumes between one
/// and `max` bytes of the input.
pub proof fn lemma_take_varint_le_cap(b: Seq<u8>, max: nat, last_max: u8)
    requires
        1 <= max,
    ensures
        spec_take_varint(b, max, last_max) matches Ok((v, n)) ==> v <= spec_varint_cap(
            max,
            last_max,
        ) && 1 <= n <= max && n <= b.len(),
    decreases max,
{
    if b.len() == 0 || max <= 1 {
    } else if b[0] < 0x80 {
    } else {
        lemma_take_varint_le_cap(b.skip(1), (max - 1) as nat, last_max);
        let c = spec_varint_cap((max - 1) as nat, last_max);
        match spec_take_varint(b.skip(1), (max - 1) as nat, last_max) {
            Err(_) => {
            },
            Ok((v, n)) => {
                assert(v <= c);
                assert(0x80 * v <= 0x80 * c) by (nonlinear_arith)
                    requires
                        v <= c,
                ;
                assert(((b[0] - 0x80) as nat) + 0x80 * v <= 0x7f + 0x80 * c);
            },
        }
    }
}

/// The cap grows with the byte budget.
pub proof fn lemma_cap_monotonic(max: nat, last_max: u8)
    requires
        2 <= max,
    ensures
        spec_varint_cap((max - 1) as nat, last_max) <= spec_varint_cap(max, last_max),
{
}

/// The canonical encoding of a value within the cap fits the byte
/// budget.
pub proof fn lemma_varint_fits(v: nat, max: nat, last_max: u8)
    requires
        1 <= max,
        last_max < 0x80,
        v <= spec_varint_cap(max, last_max),
    ensures
        spec_varint(v).len() <= max,
        1 <= spec_varint(v).len(),
    decreases max,
{
    if v < 0x80 {
    } else {
        assert(max >= 2);
        assert(v / 0x80 <= spec_varint_cap((max - 1) as nat, last_max)) by {
            assert(v <= 0x7f + 0x80 * spec_varint_cap((max - 1) as nat, last_max));
        };
        lemma_varint_fits(v / 0x80, (max - 1) as nat, last_max);
    }
}

/// Round trip: a decoder whose budget admits `v` takes exactly `v`
/// back out of its canonical encoding, whatever bytes follow.
pub proof fn lemma_varint_round_trip(v: nat, rest: Seq<u8>, max: nat, last_max: u8)
    requires
        1 <= max,
        last_max < 0x80,
        v <= spec_varint_cap(max, last_max),
    ensures
        spec_take_varint(spec_varint(v) + rest, max, last_max) == Ok::<(nat, nat), DecodeError>(
            (v, spec_varint(v).len()),
        ),
    decreases max,
{
    let b = spec_varint(v) + rest;
    if v < 0x80 {
        assert(b[0] == v as u8);
    } else {
        assert(max >= 2);
        assert(b[0] == ((v % 0x80) + 0x80) as u8);
        assert(v / 0x80 <= spec_varint_cap((max - 1) as nat, last_max)) by {
            assert(v <= 0x7f + 0x80 * spec_varint_cap((max - 1) as nat, last_max));
        };
        lemma_varint_round_trip(v / 0x80, rest, (max - 1) as nat, last_max);
        assert(b.skip(1) =~= spec_varint(v / 0x80) + rest);
        lemma_varint_fits(v / 0x80, (max - 1) as nat, last_max);
        assert(((b[0] - 0x80) as nat) + 0x80 * (v / 0x80) == v) by {
            assert(v == 0x80 * (v / 0x80) + v % 0x80);
        };
    }
}

/// Appends the canonical encoding of `v` to `out`.
pub fn push_varint(out: &mut Vec<u8>, v: u64)
    ensures
        final(out)@ == old(out)@ + spec_varint(v as nat),
    decreases v,
{
    if v < 0x80 {
        out.push(v as u8);
        assert(out@ =~= old(out)@ + spec_varint(v as nat));
    } else {
        let b0: u8 = ((v % 0x80) + 0x80) as u8;
        out.push(b0);
        push_varint(out, v / 0x80);
        assert(out@ =~= old(out)@ + spec_varint(v as nat));
    }
}

/// Takes one variable-length integer from `b` at `pos`, within a
/// budget of `max` bytes whose final byte may not exceed `last_max`.
/// Returns the value and the position after it.
pub fn take_varint(b: &[u8], pos: usize, max: usize, last_max: u8) -> (r: Result<
    (u64, usize),
    DecodeError,
>)
    requires
        pos <= b@.len(),
        1 <= max,
        spec_varint_cap(max as nat, last_max) <= u64::MAX,
    ensures
        match r {
            Ok((v, end)) => spec_take_varint(b@.skip(pos as int), max as nat, last_max)
                == Ok::<(nat, nat), DecodeError>((v as nat, (end - pos) as nat)) && pos < end
                <= b@.len(),
            Err(e) => spec_take_varint(b@.skip(pos as int), max as nat, last_max) == Err::<
                (nat, nat),
                DecodeError,
            >(e),
        },
    decreases max,
{
    let ghost s = b@.skip(pos as int);
    if pos == b.len() {
        return Err(DecodeError::UnexpectedEnd);
    }
    let byte = b[pos];
    assert(s[0] == byte);
    if max == 1 {
        if byte > last_max {
            Err(DecodeError::BadVarint)
        } else {
            Ok((byte as u64, pos + 1))
        }
    } else if byte < 0x80 {
        Ok((byte as u64, pos + 1))
    } else {
        proof {
            lemma_cap_monotonic(max as nat, last_max);
        }
        match take_varint(b, pos + 1, max - 1, last_max) {
            Err(e) => {
                assert(s.skip(1) =~= b@.skip(pos + 1 as int));
                Err(e)
            },
            Ok((v, end)) => {
                assert(s.skip(1) =~= b@.skip(pos + 1 as int));
                proof {
                    lemma_take_varint_le_cap(s.skip(1), (max - 1) as nat, last_max);
                }
                assert((byte - 0x80) as u64 as nat + 0x80 * (v as nat) <= spec_varint_cap(
                    max as nat,
                    last_max,
                ));
                Ok(((byte - 0x80) as u64 + 0x80 * v, end))
            },
        }
    }
}

} // verus!
