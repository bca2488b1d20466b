//! Typed values and their compact binary wire form.
//!
//! Every registered type encodes deterministically to a byte sequence
//! built from variable-length integers and declaration-order enum
//! tags; reordering declared variants is a breaking wire change. Each
//! `take_*` decoder is total: it either returns the value and the
//! position after it, or a typed [`DecodeError`], for every input.

use vstd::prelude::*;
use crate::varint::{
    push_varint, spec_take_varint, spec_varint, spec_varint_cap, take_varint, DecodeError,
    lemma_take_varint_le_cap, lemma_varint_caps, lemma_varint_fits, lemma_varint_round_trip,
    VARINT_LAST_U16, VARINT_LAST_U32, VARINT_LAST_U64, VARINT_MAX_U16, VARINT_MAX_U32,
    VARINT_MAX_U64,
};

verus! {

/// A command addressed to the positioning device.
#[derive(Clone, Copy, Debug, PartialEq, Eq, Structural)]
pub enum Commands {
    SetPosition(Position),
    QueryPosition,
    SetTime(u64),
    /// Substituted for a command that failed to decode, so a bad
    /// input never stops the device.
    Unknown,
}

/// A point the device is asked to move to.
#[derive(Clone, Copy, Debug, PartialEq, Eq, Structural)]
pub struct Position {
    pub x: u32,
    pub y: u32,
}

/// Request of the pooled sleep endpoint: how long to sleep.
#[derive(Clone, Copy, Debug, PartialEq, Eq, Structural)]
pub struct SleepMillis {
    pub millis: u16,
}

/// Reply of the pooled sleep endpoint: how long was actually slept.
#[derive(Clone, Copy, Debug, PartialEq, Eq, Structural)]
pub struct SleptMillis {
    pub millis: u16,
}

/// The state of the board's indicator.
#[derive(Clone, Copy, Debug, PartialEq, Eq, Structural)]
pub enum LedState {
    Off,
    On,
}

/// Periodically broadcast device status.
#[derive(Clone, Copy, Debug, PartialEq, Eq, Structural)]
pub struct CtrlStatus {
    pub var1: u64,
    pub var2: u64,
    pub var3: u64,
    pub var4: u64,
}

impl Default for CtrlStatus {
    /// The all-zero status.
    fn default() -> (r: CtrlStatus)
        ensures
            r == (CtrlStatus { var1: 0, var2: 0, var3: 0, var4: 0 }),
    {
        CtrlStatus { var1: 0, var2: 0, var3: 0, var4: 0 }
    }
}

/// A typed error reply, sent on the error route so a requester can
/// tell "busy, retry later" from "not supported here".
#[derive(Clone, Copy, Debug, PartialEq, Eq, Structural)]
pub enum WireError {
    /// The handler pool of the addressed endpoint is exhausted.
    Busy,
    /// The frame's payload did not decode as the request type.
    Malformed,
    /// The frame's key names no registered route.
    Unroutable,
}

// ---------------------------------------------------------------
// Wire form of each type.
// ---------------------------------------------------------------

/// Wire form of a [`Position`]: `x` then `y`.
pub open spec fn spec_encode_position(p: Position) -> Seq<u8> {
    spec_varint(p.x as nat) + spec_varint(p.y as nat)
}

/// Wire form of a [`Commands`] value: declaration-order tag, then the
/// variant's fields.
pub open spec fn spec_encode_commands(c: Commands) -> Seq<u8> {
    match c {
        Commands::SetPosition(p) => seq![0u8] + spec_encode_position(p),
        Commands::QueryPosition => seq![1u8],
        Commands::SetTime(t) => seq![2u8] + spec_varint(t as nat),
        Commands::Unknown => seq![3u8],
    }
}

/// Wire form of a [`SleepMillis`] request.
pub open spec fn spec_encode_sleep_millis(m: SleepMillis) -> Seq<u8> {
    spec_varint(m.millis as nat)
}

/// Wire form of a [`SleptMillis`] reply.
pub open spec fn spec_encode_slept_millis(m: SleptMillis) -> Seq<u8> {
    spec_varint(m.millis as nat)
}

/// Wire form of a [`LedState`]: its declaration-order tag.
pub open spec fn spec_encode_led_state(l: LedState) -> Seq<u8> {
    match l {
        LedState::Off => seq![0u8],
        LedState::On => seq![1u8],
    }
}

/// Wire form of a [`CtrlStatus`]: its four counters in order.
pub open spec fn spec_encode_ctrl_status(s: CtrlStatus) -> Seq<u8> {
    spec_varint(s.var1 as nat) + spec_varint(s.var2 as nat) + spec_varint(s.var3 as nat)
        + spec_varint(s.var4 as nat)
}

/// Wire form of a [`WireError`]: its declaration-order tag.
pub open spec fn spec_encode_wire_error(e: WireError) -> Seq<u8> {
    match e {
        WireError::Busy => seq![0u8],
        WireError::Malformed => seq![1u8],
        WireError::Unroutable => seq![2u8],
    }
}

// ---------------------------------------------------------------
// What a decoder takes from the front of arbitrary bytes.
// ---------------------------------------------------------------

/// Takes a `u16` varint from the front of `b`.
pub open spec fn spec_take_u16(b: Seq<u8>) -> Result<(nat, nat), DecodeError> {
    spec_take_varint(b, VARINT_MAX_U16 as nat, VARINT_LAST_U16)
}

/// Takes a `u32` varint from the front of `b`.
pub open spec fn spec_take_u32(b: Seq<u8>) -> Result<(nat, nat), DecodeError> {
    spec_take_varint(b, VARINT_MAX_U32 as nat, VARINT_LAST_U32)
}

/// Takes a `u64` varint from the front of `b`.
pub open spec fn spec_take_u64(b: Seq<u8>) -> Result<(nat, nat), DecodeError> {
    spec_take_varint(b, VARINT_MAX_U64 as nat, VARINT_LAST_U64)
}

/// Takes a [`Position`] from the front of `b`.
pub open spec fn spec_take_position(b: Seq<u8>) -> Result<(Position, nat), DecodeError> {
    match spec_take_u32(b) {
        Err(e) => Err(e),
        Ok((x, n1)) => match spec_take_u32(b.skip(n1 as int)) {
            Err(e) => Err(e),
            Ok((y, n2)) => Ok((Position { x: x as u32, y: y as u32 }, n1 + n2)),
        },
    }
}

/// Takes a [`Commands`] value from the front of `b`. A tag naming no
/// declared variant is a [`DecodeError::BadDiscriminant`].
pub open spec fn spec_take_commands(b: Seq<u8>) -> Result<(Commands, nat), DecodeError> {
    match spec_take_u32(b) {
        Err(e) => Err(e),
        Ok((tag, n1)) => if tag == 0 {
            match spec_take_position(b.skip(n1 as int)) {
                Err(e) => Err(e),
                Ok((p, n2)) => Ok((Commands::SetPosition(p), n1 + n2)),
            }
        } else if tag == 1 {
            Ok((Commands::QueryPosition, n1))
        } else if tag == 2 {
            match spec_take_u64(b.skip(n1 as int)) {
                Err(e) => Err(e),
                Ok((t, n2)) => Ok((Commands::SetTime(t as u64), n1 + n2)),
            }
        } else if tag == 3 {
            Ok((Commands::Unknown, n1))
        } else {
            Err(DecodeError::BadDiscriminant)
        },
    }
}

/// Takes a [`SleepMillis`] from the front of `b`.
pub open spec fn spec_take_sleep_millis(b: Seq<u8>) -> Result<(SleepMillis, nat), DecodeError> {
    match spec_take_u16(b) {
        Err(e) => Err(e),
        Ok((m, n)) => Ok((SleepMillis { millis: m as u16 }, n)),
    }
}

/// Takes a [`SleptMillis`] from the front of `b`.
pub open spec fn spec_take_slept_millis(b: Seq<u8>) -> Result<(SleptMillis, nat), DecodeError> {
    match spec_take_u16(b) {
        Err(e) => Err(e),
        Ok((m, n)) => Ok((SleptMillis { millis: m as u16 }, n)),
    }
}

/// Takes a [`LedState`] from the front of `b`.
pub open spec fn spec_take_led_state(b: Seq<u8>) -> Result<(LedState, nat), DecodeError> {
    match spec_take_u32(b) {
        Err(e) => Err(e),
        Ok((tag, n)) => if tag == 0 {
            Ok((LedState::Off, n))
        } else if tag == 1 {
            Ok((LedState::On, n))
        } else {
            Err(DecodeError::BadDiscriminant)
        },
    }
}

/// Takes a [`CtrlStatus`] from the front of `b`.
pub open spec fn spec_take_ctrl_status(b: Seq<u8>) -> Result<(CtrlStatus, nat), DecodeError> {
    match spec_take_u64(b) {
        Err(e) => Err(e),
        Ok((v1, n1)) => match spec_take_u64(b.skip(n1 as int)) {
            Err(e) => Err(e),
            Ok((v2, n2)) => match spec_take_u64(b.skip((n1 + n2) as int)) {
                Err(e) => Err(e),
                Ok((v3, n3)) => match spec_take_u64(b.skip((n1 + n2 + n3) as int)) {
                    Err(e) => Err(e),
                    Ok((v4, n4)) => Ok(
                        (
                            CtrlStatus {
                                var1: v1 as u64,
                                var2: v2 as u64,
                                var3: v3 as u64,
                                var4: v4 as u64,
                            },
                            n1 + n2 + n3 + n4,
                        ),
                    ),
                },
            },
        },
    }
}

/// Takes a [`WireError`] from the front of `b`.
pub open spec fn spec_take_wire_error(b: Seq<u8>) -> Result<(WireError, nat), DecodeError> {
    match spec_take_u32(b) {
        Err(e) => Err(e),
        Ok((tag, n)) => if tag == 0 {
            Ok((WireError::Busy, n))
        } else if tag == 1 {
            Ok((WireError::Malformed, n))
        } else if tag == 2 {
            Ok((WireError::Unroutable, n))
        } else {
            Err(DecodeError::BadDiscriminant)
        },
    }
}

/// The command held in `b`, with the sentinel substituted when the
/// bytes are malformed.
pub open spec fn spec_decode_commands_or_unknown(b: Seq<u8>) -> Commands {
    match spec_take_commands(b) {
        Ok((c, _)) => c,
        Err(_) => Commands::Unknown,
    }
}

// ---------------------------------------------------------------
// Executable decoders.
// ---------------------------------------------------------------

/// Takes one `u16` varint out of `b` at `pos`.
pub fn take_u16(b: &[u8], pos: usize) -> (r: Result<(u16, usize), DecodeError>)
    requires
        pos <= b@.len(),
    ensures
        match r {
            Ok((v, end)) => spec_take_u16(b@.skip(pos as int)) == Ok::<(nat, nat), DecodeError>(
                (v as nat, (end - pos) as nat),
            ) && pos < end <= b@.len(),
            Err(e) => spec_take_u16(b@.skip(pos as int)) == Err::<(nat, nat), DecodeError>(e),
        },
{
    proof {
        lemma_varint_caps();
        lemma_take_varint_le_cap(b@.skip(pos as int), VARINT_MAX_U16 as nat, VARINT_LAST_U16);
    }
    match take_varint(b, pos, VARINT_MAX_U16, VARINT_LAST_U16) {
        Err(e) => Err(e),
        Ok((v, end)) => Ok((v as u16, end)),
    }
}

/// Takes one `u32` varint out of `b` at `pos`.
pub fn take_u32(b: &[u8], pos: usize) -> (r: Result<(u32, usize), DecodeError>)
    requires
        pos <= b@.len(),
    ensures
        match r {
            Ok((v, end)) => spec_take_u32(b@.skip(pos as int)) == Ok::<(nat, nat), DecodeError>(
                (v as nat, (end - pos) as nat),
            ) && pos < end <= b@.len(),
            Err(e) => spec_take_u32(b@.skip(pos as int)) == Err::<(nat, nat), DecodeError>(e),
        },
{
    proof {
        lemma_varint_caps();
        lemma_take_varint_le_cap(b@.skip(pos as int), VARINT_MAX_U32 as nat, VARINT_LAST_U32);
    }
    match take_varint(b, pos, VARINT_MAX_U32, VARINT_LAST_U32) {
        Err(e) => Err(e),
        Ok((v, end)) => Ok((v as u32, end)),
    }
}

/// Takes one `u64` varint out of `b` at `pos`.
pub fn take_u64(b: &[u8], pos: usize) -> (r: Result<(u64, usize), DecodeError>)
    requires
        pos <= b@.len(),
    ensures
        match r {
            Ok((v, end)) => spec_take_u64(b@.skip(pos as int)) == Ok::<(nat, nat), DecodeError>(
                (v as nat, (end - pos) as nat),
            ) && pos < end <= b@.len(),
            Err(e) => spec_take_u64(b@.skip(pos as int)) == Err::<(nat, nat), DecodeError>(e),
        },
{
    proof {
        lemma_varint_caps();
    }
    match take_varint(b, pos, VARINT_MAX_U64, VARINT_LAST_U64) {
        Err(e) => Err(e),
        Ok((v, end)) => Ok((v, end)),
    }
}

/// Takes one [`Position`] out of `b` at `pos`.
pub fn take_position(b: &[u8], pos: usize) -> (r: Result<(Position, usize), DecodeError>)
    requires
        pos <= b@.len(),
    ensures
        match r {
            Ok((p, end)) => spec_take_position(b@.skip(pos as int)) == Ok::<
                (Position, nat),
                DecodeError,
            >((p, (end - pos) as nat)) && pos < end <= b@.len(),
            Err(e) => spec_take_position(b@.skip(pos as int)) == Err::<(Position, nat), DecodeError>(
                e,
            ),
        },
{
    let x = match take_u32(b, pos) {
        Err(e) => {
            return Err(e);
        },
        Ok(v) => v,
    };
    proof {
        assert(b@.skip(pos as int).skip((x.1 - pos) as int) =~= b@.skip(x.1 as int));
    }
    let y = match take_u32(b, x.1) {
        Err(e) => {
            return Err(e);
        },
        Ok(v) => v,
    };
    Ok((Position { x: x.0, y: y.0 }, y.1))
}

/// Takes one [`Commands`] value out of `b` at `pos`.
pub fn take_commands(b: &[u8], pos: usize) -> (r: Result<(Commands, usize), DecodeError>)
    requires
        pos <= b@.len(),
    ensures
        match r {
            Ok((c, end)) => spec_take_commands(b@.skip(pos as int)) == Ok::<
                (Commands, nat),
                DecodeError,
            >((c, (end - pos) as nat)) && pos < end <= b@.len(),
            Err(e) => spec_take_commands(b@.skip(pos as int)) == Err::<(Commands, nat), DecodeError>(
                e,
            ),
        },
{
    let tag = match take_u32(b, pos) {
        Err(e) => {
            return Err(e);
        },
        Ok(v) => v,
    };
    proof {
        assert(b@.skip(pos as int).skip((tag.1 - pos) as int) =~= b@.skip(tag.1 as int));
    }
    if tag.0 == 0 {
        match take_position(b, tag.1) {
            Err(e) => Err(e),
            Ok((p, end)) => Ok((Commands::SetPosition(p), end)),
        }
    } else if tag.0 == 1 {
        Ok((Commands::QueryPosition, tag.1))
    } else if tag.0 == 2 {
        match take_u64(b, tag.1) {
            Err(e) => Err(e),
            Ok((t, end)) => Ok((Commands::SetTime(t), end)),
        }
    } else if tag.0 == 3 {
        Ok((Commands::Unknown, tag.1))
    } else {
        Err(DecodeError::BadDiscriminant)
    }
}

/// Takes one [`SleepMillis`] out of `b` at `pos`.
pub fn take_sleep_millis(b: &[u8], pos: usize) -> (r: Result<(SleepMillis, usize), DecodeError>)
    requires
        pos <= b@.len(),
    ensures
        match r {
            Ok((m, end)) => spec_take_sleep_millis(b@.skip(pos as int)) == Ok::<
                (SleepMillis, nat),
                DecodeError,
            >((m, (end - pos) as nat)) && pos < end <= b@.len(),
            Err(e) => spec_take_sleep_millis(b@.skip(pos as int)) == Err::<
                (SleepMillis, nat),
                DecodeError,
            >(e),
        },
{
    match take_u16(b, pos) {
        Err(e) => Err(e),
        Ok((m, end)) => Ok((SleepMillis { millis: m }, end)),
    }
}

/// Takes one [`SleptMillis`] out of `b` at `pos`.
pub fn take_slept_millis(b: &[u8], pos: usize) -> (r: Result<(SleptMillis, usize), DecodeError>)
    requires
        pos <= b@.len(),
    ensures
        match r {
            Ok((m, end)) => spec_take_slept_millis(b@.skip(pos as int)) == Ok::<
                (SleptMillis, nat),
                DecodeError,
            >((m, (end - pos) as nat)) && pos < end <= b@.len(),
            Err(e) => spec_take_slept_millis(b@.skip(pos as int)) == Err::<
                (SleptMillis, nat),
                DecodeError,
            >(e),
        },
{
    match take_u16(b, pos) {
        Err(e) => Err(e),
        Ok((m, end)) => Ok((SleptMillis { millis: m }, end)),
    }
}

/// Takes one [`LedState`] out of `b` at `pos`.
pub fn take_led_state(b: &[u8], pos: usize) -> (r: Result<(LedState, usize), DecodeError>)
    requires
        pos <= b@.len(),
    ensures
        match r {
            Ok((l, end)) => spec_take_led_state(b@.skip(pos as int)) == Ok::<
                (LedState, nat),
                DecodeError,
            >((l, (end - pos) as nat)) && pos < end <= b@.len(),
            Err(e) => spec_take_led_state(b@.skip(pos as int)) == Err::<
                (LedState, nat),
                DecodeError,
            >(e),
        },
{
    let tag = match take_u32(b, pos) {
        Err(e) => {
            return Err(e);
        },
        Ok(v) => v,
    };
    if tag.0 == 0 {
        Ok((LedState::Off, tag.1))
    } else if tag.0 == 1 {
        Ok((LedState::On, tag.1))
    } else {
        Err(DecodeError::BadDiscriminant)
    }
}

/// Takes one [`WireError`] out of `b` at `pos`.
pub fn take_wire_error(b: &[u8], pos: usize) -> (r: Result<(WireError, usize), DecodeError>)
    requires
        pos <= b@.len(),
    ensures
        match r {
            Ok((w, end)) => spec_take_wire_error(b@.skip(pos as int)) == Ok::<
                (WireError, nat),
                DecodeError,
            >((w, (end - pos) as nat)) && pos < end <= b@.len(),
            Err(e) => spec_take_wire_error(b@.skip(pos as int)) == Err::<
                (WireError, nat),
                DecodeError,
            >(e),
        },
{
    let tag = match take_u32(b, pos) {
        Err(e) => {
            return Err(e);
        },
        Ok(v) => v,
    };
    if tag.0 == 0 {
        Ok((WireError::Busy, tag.1))
    } else if tag.0 == 1 {
        Ok((WireError::Malformed, tag.1))
    } else if tag.0 == 2 {
        Ok((WireError::Unroutable, tag.1))
    } else {
        Err(DecodeError::BadDiscriminant)
    }
}

/// Takes one [`CtrlStatus`] out of `b` at `pos`.
pub fn take_ctrl_status(b: &[u8], pos: usize) -> (r: Result<(CtrlStatus, usize), DecodeError>)
    requires
        pos <= b@.len(),
    ensures
        match r {
            Ok((s, end)) => spec_take_ctrl_status(b@.skip(pos as int)) == Ok::<
                (CtrlStatus, nat),
                DecodeError,
            >((s, (end - pos) as nat)) && pos < end <= b@.len(),
            Err(e) => spec_take_ctrl_status(b@.skip(pos as int)) == Err::<
                (CtrlStatus, nat),
                DecodeError,
            >(e),
        },
{
    let v1 = match take_u64(b, pos) {
        Err(e) => {
            return Err(e);
        },
        Ok(v) => v,
    };
    proof {
        assert(b@.skip(pos as int).skip((v1.1 - pos) as int) =~= b@.skip(v1.1 as int));
    }
    let v2 = match take_u64(b, v1.1) {
        Err(e) => {
            return Err(e);
        },
        Ok(v) => v,
    };
    proof {
        assert(b@.skip(pos as int).skip((v2.1 - pos) as int) =~= b@.skip(v2.1 as int));
    }
    let v3 = match take_u64(b, v2.1) {
        Err(e) => {
            return Err(e);
        },
        Ok(v) => v,
    };
    proof {
        assert(b@.skip(pos as int).skip((v3.1 - pos) as int) =~= b@.skip(v3.1 as int));
    }
    let v4 = match take_u64(b, v3.1) {
        Err(e) => {
            return Err(e);
        },
        Ok(v) => v,
    };
    Ok(
        (
            CtrlStatus { var1: v1.0, var2: v2.0, var3: v3.0, var4: v4.0 },
            v4.1,
        ),
    )
}

/// The command held in `bytes`. Malformed input yields the sentinel
/// [`Commands::Unknown`] instead of an error: the caller substitutes
/// "unknown" and keeps serving.
pub fn decode(bytes: &[u8]) -> (c: Commands)
    ensures
        c == spec_decode_commands_or_unknown(bytes@),
{
    proof {
        assert(bytes@.skip(0) =~= bytes@);
    }
    match take_commands(bytes, 0) {
        Ok((c, _)) => c,
        Err(_) => Commands::Unknown,
    }
}

// ---------------------------------------------------------------
// Executable encoders.
// ---------------------------------------------------------------

/// The wire bytes of `p`.
pub fn encode_position(p: &Position) -> (r: Vec<u8>)
    ensures
        r@ == spec_encode_position(*p),
{
    let mut out: Vec<u8> = Vec::new();
    push_varint(&mut out, p.x as u64);
    push_varint(&mut out, p.y as u64);
    out
}

/// The wire bytes of `c`.
pub fn encode_commands(c: &Commands) -> (r: Vec<u8>)
    ensures
        r@ == spec_encode_commands(*c),
{
    let mut out: Vec<u8> = Vec::new();
    match c {
        Commands::SetPosition(p) => {
            out.push(0u8);
            push_varint(&mut out, p.x as u64);
            push_varint(&mut out, p.y as u64);
            assert(out@ =~= seq![0u8] + spec_encode_position(*p));
        },
        Commands::QueryPosition => {
            out.push(1u8);
            assert(out@ =~= seq![1u8]);
        },
        Commands::SetTime(t) => {
            out.push(2u8);
            push_varint(&mut out, *t);
            assert(out@ =~= seq![2u8] + spec_varint(*t as nat));
        },
        Commands::Unknown => {
            out.push(3u8);
            assert(out@ =~= seq![3u8]);
        },
    }
    out
}

/// The wire bytes of `m`.
pub fn encode_sleep_millis(m: &SleepMillis) -> (r: Vec<u8>)
    ensures
        r@ == spec_encode_sleep_millis(*m),
{
    let mut out: Vec<u8> = Vec::new();
    push_varint(&mut out, m.millis as u64);
    out
}

/// The wire bytes of `m`.
pub fn encode_slept_millis(m: &SleptMillis) -> (r: Vec<u8>)
    ensures
        r@ == spec_encode_slept_millis(*m),
{
    let mut out: Vec<u8> = Vec::new();
    push_varint(&mut out, m.millis as u64);
    out
}

/// The wire bytes of `l`.
pub fn encode_led_state(l: &LedState) -> (r: Vec<u8>)
    ensures
        r@ == spec_encode_led_state(*l),
{
    let mut out: Vec<u8> = Vec::new();
    match l {
        LedState::Off => out.push(0u8),
        LedState::On => out.push(1u8),
    }
    out
}

/// The wire bytes of `s`.
pub fn encode_ctrl_status(s: &CtrlStatus) -> (r: Vec<u8>)
    ensures
        r@ == spec_encode_ctrl_status(*s),
{
    let mut out: Vec<u8> = Vec::new();
    push_varint(&mut out, s.var1);
    push_varint(&mut out, s.var2);
    push_varint(&mut out, s.var3);
    push_varint(&mut out, s.var4);
    assert(out@ =~= spec_encode_ctrl_status(*s));
    out
}

// ---------------------------------------------------------------
// Round trip: decoding an encoding gives the value back, whatever
// bytes follow it on the wire.
// ---------------------------------------------------------------

/// Round trip of a `u16` varint.
pub proof fn lemma_u16_round_trip(v: u16, rest: Seq<u8>)
    ensures
        spec_take_u16(spec_varint(v as nat) + rest) == Ok::<(nat, nat), DecodeError>(
            (v as nat, spec_varint(v as nat).len()),
        ),
{
    lemma_varint_caps();
    lemma_varint_round_trip(v as nat, rest, VARINT_MAX_U16 as nat, VARINT_LAST_U16);
}

/// Round trip of a `u32` varint.
pub proof fn lemma_u32_round_trip(v: u32, rest: Seq<u8>)
    ensures
        spec_take_u32(spec_varint(v as nat) + rest) == Ok::<(nat, nat), DecodeError>(
            (v as nat, spec_varint(v as nat).len()),
        ),
{
    lemma_varint_caps();
    lemma_varint_round_trip(v as nat, rest, VARINT_MAX_U32 as nat, VARINT_LAST_U32);
}

/// Round trip of a `u64` varint.
pub proof fn lemma_u64_round_trip(v: u64, rest: Seq<u8>)
    ensures
        spec_take_u64(spec_varint(v as nat) + rest) == Ok::<(nat, nat), DecodeError>(
            (v as nat, spec_varint(v as nat).len()),
        ),
{
    lemma_varint_caps();
    lemma_varint_round_trip(v as nat, rest, VARINT_MAX_U64 as nat, VARINT_LAST_U64);
}

/// Round trip of a [`Position`].
pub proof fn lemma_position_round_trip(p: Position, rest: Seq<u8>)
    ensures
        spec_take_position(spec_encode_position(p) + rest) == Ok::<(Position, nat), DecodeError>(
            (p, spec_encode_position(p).len()),
        ),
{
    let ex = spec_varint(p.x as nat);
    let ey = spec_varint(p.y as nat);
    assert(spec_encode_position(p) + rest =~= ex + (ey + rest));
    lemma_u32_round_trip(p.x, ey + rest);
    assert((ex + (ey + rest)).skip(ex.len() as int) =~= ey + rest);
    lemma_u32_round_trip(p.y, rest);
}

/// Round trip of a [`Commands`] value.
pub proof fn lemma_commands_round_trip(c: Commands, rest: Seq<u8>)
    ensures
        spec_take_commands(spec_encode_commands(c) + rest) == Ok::<(Commands, nat), DecodeError>(
            (c, spec_encode_commands(c).len()),
        ),
{
    let b = spec_encode_commands(c) + rest;
    match c {
        Commands::SetPosition(p) => {
            assert(b.skip(1) =~= spec_encode_position(p) + rest);
            lemma_position_round_trip(p, rest);
        },
        Commands::QueryPosition => {
        },
        Commands::SetTime(t) => {
            assert(b.skip(1) =~= spec_varint(t as nat) + rest);
            lemma_u64_round_trip(t, rest);
        },
        Commands::Unknown => {
        },
    }
}

/// Round trip of a [`SleepMillis`].
pub proof fn lemma_sleep_millis_round_trip(m: SleepMillis, rest: Seq<u8>)
    ensures
        spec_take_sleep_millis(spec_encode_sleep_millis(m) + rest) == Ok::<
            (SleepMillis, nat),
            DecodeError,
        >((m, spec_encode_sleep_millis(m).len())),
{
    lemma_u16_round_trip(m.millis, rest);
}

/// Round trip of a [`SleptMillis`].
pub proof fn lemma_slept_millis_round_trip(m: SleptMillis, rest: Seq<u8>)
    ensures
        spec_take_slept_millis(spec_encode_slept_millis(m) + rest) == Ok::<
            (SleptMillis, nat),
            DecodeError,
        >((m, spec_encode_slept_millis(m).len())),
{
    lemma_u16_round_trip(m.millis, rest);
}

/// Round trip of a [`LedState`].
pub proof fn lemma_led_state_round_trip(l: LedState, rest: Seq<u8>)
    ensures
        spec_take_led_state(spec_encode_led_state(l) + rest) == Ok::<(LedState, nat), DecodeError>(
            (l, 1),
        ),
{
}

/// Round trip of a [`CtrlStatus`].
pub proof fn lemma_ctrl_status_round_trip(s: CtrlStatus, rest: Seq<u8>)
    ensures
        spec_take_ctrl_status(spec_encode_ctrl_status(s) + rest) == Ok::<
            (CtrlStatus, nat),
            DecodeError,
        >((s, spec_encode_ctrl_status(s).len())),
{
    let e1 = spec_varint(s.var1 as nat);
    let e2 = spec_varint(s.var2 as nat);
    let e3 = spec_varint(s.var3 as nat);
    let e4 = spec_varint(s.var4 as nat);
    let b = spec_encode_ctrl_status(s) + rest;
    assert(b =~= e1 + (e2 + (e3 + (e4 + rest))));
    lemma_u64_round_trip(s.var1, e2 + (e3 + (e4 + rest)));
    assert(b.skip(e1.len() as int) =~= e2 + (e3 + (e4 + rest)));
    lemma_u64_round_trip(s.var2, e3 + (e4 + rest));
    assert(b.skip((e1.len() + e2.len()) as int) =~= e3 + (e4 + rest));
    lemma_u64_round_trip(s.var3, e4 + rest);
    assert(b.skip((e1.len() + e2.len() + e3.len()) as int) =~= e4 + rest);
    lemma_u64_round_trip(s.var4, rest);
}

/// Round trip of a [`WireError`].
pub proof fn lemma_wire_error_round_trip(e: WireError, rest: Seq<u8>)
    ensures
        spec_take_wire_error(spec_encode_wire_error(e) + rest) == Ok::<
            (WireError, nat),
            DecodeError,
        >((e, 1)),
{
}

/// The wire bytes of `e`.
pub fn encode_wire_error(e: &WireError) -> (r: Vec<u8>)
    ensures
        r@ == spec_encode_wire_error(*e),
{
    let mut out: Vec<u8> = Vec::new();
    match e {
        WireError::Busy => out.push(0u8),
        WireError::Malformed => out.push(1u8),
        WireError::Unroutable => out.push(2u8),
    }
    out
}

} // verus!
