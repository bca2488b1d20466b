//! Routing keys.
//!
//! A key is the 64-bit FNV-1a hash of an entry's path, computed once
//! when the table of routes is built. Routing then moves only the
//! fixed-width key, never the path string. When every registered key
//! already differs in its low bytes, the wire may carry just that
//! little-endian prefix; [`spec_trunc_key`] is the value of such a
//! prefix.

use vstd::prelude::*;
use vstd::string::StringSliceAdditionalSpecFns;

verus! {

/// Offset basis of the 64-bit FNV-1a hash.
pub const FNV_OFFSET_BASIS: u64 = 0xcbf2_9ce4_8422_2325;

/// Prime of the 64-bit FNV-1a hash.
pub const FNV_PRIME: u64 = 0x0000_0100_0000_01b3;

/// Folds `bytes` into the running FNV-1a state `acc`: each byte is
/// xor-ed in, then the state is multiplied by the prime modulo 2^64.
pub open spec fn spec_fnv1a_from(acc: u64, bytes: Seq<u8>) -> u64
    decreases bytes.len(),
{
    if bytes.len() == 0 {
        acc
    } else {
        spec_fnv1a_from((acc ^ (bytes[0] as u64)).wrapping_mul(FNV_PRIME), bytes.skip(1))
    }
}

/// The 64-bit routing key of the path spelled by `bytes`.
pub open spec fn spec_key_of(bytes: Seq<u8>) -> u64 {
    spec_fnv1a_from(FNV_OFFSET_BASIS, bytes)
}

/// The value of the `len`-byte little-endian prefix of `key`, for the
/// supported prefix widths 1, 2, 4 and 8.
pub open spec fn spec_trunc_key(key: u64, len: usize) -> u64 {
    if len == 1 {
        key % 0x100
    } else if len == 2 {
        key % 0x1_0000
    } else if len == 4 {
        key % 0x1_0000_0000
    } else {
        key
    }
}

/// The routing key of the path spelled by `bytes`.
pub fn key_of(bytes: &[u8]) -> (k: u64)
    ensures
        k == spec_key_of(bytes@),
{
    let mut acc: u64 = FNV_OFFSET_BASIS;
    let mut i: usize = 0;
    proof {
        assert(bytes@.skip(0) =~= bytes@);
    }
    while i < bytes.len()
        invariant
            i <= bytes@.len(),
            spec_fnv1a_from(acc, bytes@.skip(i as int)) == spec_key_of(bytes@),
        decreases bytes@.len() - i,
    {
        proof {
            assert(bytes@.skip(i as int)[0] == bytes@[i as int]);
            assert(bytes@.skip(i as int).skip(1) =~= bytes@.skip(i + 1 as int));
        }
        acc = (acc ^ (bytes[i] as u64)).wrapping_mul(FNV_PRIME);
        i = i + 1;
    }
    acc
}

/// The routing key of `path`.
pub fn key_of_str(path: &str) -> (k: u64)
    ensures
        k == spec_key_of(path.spec_bytes()),
{
    key_of(path.as_bytes())
}

/// The `len`-byte little-endian prefix of `key`.
pub fn trunc_key(key: u64, len: usize) -> (k: u64)
    ensures
        k == spec_trunc_key(key, len),
{
    if len == 1 {
        key % 0x100
    } else if len == 2 {
        key % 0x1_0000
    } else if len == 4 {
        key % 0x1_0000_0000
    } else {
        key
    }
}

} // verus!
