//! Deterministic FNV-1a-64 fingerprints for canonical records.
//!
//! The fingerprint detects accidental differences only; it is not an
//! authentication primitive.
use vstd::prelude::*;

verus! {

pub const FNV1A64_OFFSET_BASIS: u64 = 0xcbf2_9ce4_8422_2325;

pub const FNV1A64_PRIME: u64 = 0x0000_0100_0000_01b3;

/// One FNV-1a step: xor the byte in, then multiply modulo 2^64.
pub open spec fn fnv1a64_step(hash: u64, byte: u8) -> u64 {
    (((hash ^ (byte as u64)) as nat * FNV1A64_PRIME as nat) % 0x1_0000_0000_0000_0000nat) as u64
}

/// FNV-1a-64 of a byte sequence.
pub open spec fn fnv1a64_spec(bytes: Seq<u8>) -> u64
    decreases bytes.len(),
{
    if bytes.len() == 0 {
        FNV1A64_OFFSET_BASIS
    } else {
        fnv1a64_step(fnv1a64_spec(bytes.drop_last()), bytes.last())
    }
}

/// FNV-1a-64 over `bytes`.
pub fn fnv1a64(bytes: &[u8]) -> (r: u64)
    ensures
        r == fnv1a64_spec(bytes@),
{
    let mut hash: u64 = FNV1A64_OFFSET_BASIS;
    let mut i: usize = 0;
    while i < bytes.len()
        invariant
            i <= bytes@.len(),
            hash == fnv1a64_spec(bytes@.take(i as int)),
        decreases bytes@.len() - i,
    {
        let byte = bytes[i];
        assert(bytes@.take(i + 1).drop_last() =~= bytes@.take(i as int));
        hash = (hash ^ (byte as u64)).wrapping_mul(FNV1A64_PRIME);
        i = i + 1;
    }
    assert(bytes@.take(bytes@.len() as int) =~= bytes@);
    hash
}

} // verus!
