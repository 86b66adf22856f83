//! Conversion between prefix lengths and netmasks.
//!
//! The routing-socket wire format carries no prefix-length field: a route's
//! prefix travels as a netmask address structure, and decoding recovers the
//! prefix by counting the mask's leading one-bits.

use vstd::prelude::*;
use vstd::std_specs::bits::{
    axiom_u32_leading_ones, axiom_u64_leading_ones, u32_leading_ones, u64_leading_ones,
};

verus! {

/// The 32-bit netmask with `p` leading one-bits.
pub open spec fn mask32(p: u32) -> u32
    recommends
        p <= 32,
{
    if p == 0 {
        0
    } else {
        0xffff_ffffu32 << ((32 - p) as u32)
    }
}

/// The 64-bit mask with `p` leading one-bits (one half of a v6 netmask).
pub open spec fn mask64(p: u32) -> u64
    recommends
        p <= 64,
{
    if p == 0 {
        0
    } else {
        0xffff_ffff_ffff_ffffu64 << ((64 - p) as u64)
    }
}

/// The 128-bit netmask with `p` leading one-bits.
pub open spec fn mask128(p: u32) -> u128
    recommends
        p <= 128,
{
    if p == 0 {
        0
    } else {
        0xffff_ffff_ffff_ffff_ffff_ffff_ffff_ffffu128 << ((128 - p) as u128)
    }
}

/// The number of leading one-bits of a 128-bit mask, counted half by half.
pub open spec fn u128_leading_ones(m: u128) -> u32 {
    if (m >> 64) as u64 == 0xffff_ffff_ffff_ffffu64 {
        (64 + u64_leading_ones(m as u64)) as u32
    } else {
        u64_leading_ones((m >> 64) as u64)
    }
}

/// The netmask of a v4 prefix length.
pub fn netmask_v4(prefix: u8) -> (r: u32)
    requires
        prefix <= 32,
    ensures
        r == mask32(prefix as u32),
{
    if prefix == 0 {
        0
    } else {
        u32::MAX << (32 - prefix as u32)
    }
}

/// The netmask of a v6 prefix length.
pub fn netmask_v6(prefix: u8) -> (r: u128)
    requires
        prefix <= 128,
    ensures
        r == mask128(prefix as u32),
{
    if prefix == 0 {
        0
    } else {
        u128::MAX << (128 - prefix as u32)
    }
}

/// The prefix length encoded by a v4 netmask: its count of leading
/// one-bits.
pub fn prefix_len_v4(mask: u32) -> (r: u8)
    ensures
        r == u32_leading_ones(mask),
{
    proof {
        axiom_u32_leading_ones(mask);
    }
    mask.leading_ones() as u8
}

/// The prefix length encoded by a v6 netmask: its count of leading
/// one-bits.
pub fn prefix_len_v6(mask: u128) -> (r: u8)
    ensures
        r == u128_leading_ones(mask),
{
    let hi = (mask >> 64) as u64;
    proof {
        axiom_u64_leading_ones(hi);
        axiom_u64_leading_ones(mask as u64);
    }
    if hi == u64::MAX {
        64 + (mask as u64).leading_ones() as u8
    } else {
        hi.leading_ones() as u8
    }
}

/// Bit-level facts about `mask32`: every bit in the top `p` positions is
/// one, the next bit down is zero, and the mask is all ones exactly at the
/// full width.
proof fn lemma_mask32_bits(p: u32)
    by (bit_vector)
    requires
        p <= 32,
    ensures
        p < 32 ==> (mask32(p) >> ((31 - p) as u32)) & 1u32 == 0u32,
        forall|j: u32| 32 - p <= j < 32 ==> #[trigger] ((mask32(p) >> j) & 1u32) == 1u32,
        mask32(p) == 0xffff_ffffu32 <==> p == 32,
{
}

/// Bit-level facts about `mask64`, as for `mask32`.
proof fn lemma_mask64_bits(p: u32)
    by (bit_vector)
    requires
        p <= 64,
    ensures
        p < 64 ==> (mask64(p) >> ((63 - p) as u64)) & 1u64 == 0u64,
        forall|j: u64| 64 - p <= j < 64 ==> #[trigger] ((mask64(p) >> j) & 1u64) == 1u64,
        mask64(p) == 0xffff_ffff_ffff_ffffu64 <==> p == 64,
{
}

/// How `mask128` splits into its two 64-bit halves.
proof fn lemma_mask128_halves(p: u32)
    by (bit_vector)
    requires
        p <= 128,
    ensures
        p <= 64 ==> (mask128(p) >> 64) as u64 == mask64(p) && mask128(p) as u64 == 0u64,
        p >= 64 ==> (mask128(p) >> 64) as u64 == 0xffff_ffff_ffff_ffffu64 && mask128(p) as u64
            == mask64((p - 64) as u32),
{
}

/// Counting the leading ones of the mask of `p` gives back `p`, for the
/// whole 64-bit range.
proof fn lemma_mask64_roundtrip(p: u32)
    requires
        p <= 64,
    ensures
        u64_leading_ones(mask64(p)) == p,
{
    let m = mask64(p);
    axiom_u64_leading_ones(m);
    lemma_mask64_bits(p);
    let x = u64_leading_ones(m);
    if x < p {
        // the bit just below the count must be zero, yet it lies inside the
        // mask's run of ones
        assert((m >> ((63 - x) as u64)) & 1u64 == 1u64);
    }
    if x > p {
        // the mask's first zero bit lies inside the counted run of ones
        assert((m >> ((63 - p) as u64)) & 1u64 == 1u64);
    }
}

/// Netmask-to-prefix inversion for the v4 family: converting a prefix
/// length to a netmask and back yields the same prefix length.
pub proof fn lemma_netmask_roundtrip_v4(p: u32)
    requires
        p <= 32,
    ensures
        u32_leading_ones(mask32(p)) == p,
{
    let m = mask32(p);
    axiom_u32_leading_ones(m);
    lemma_mask32_bits(p);
    let x = u32_leading_ones(m);
    if x < p {
        assert((m >> ((31 - x) as u32)) & 1u32 == 1u32);
    }
    if x > p {
        assert((m >> ((31 - p) as u32)) & 1u32 == 1u32);
    }
}

/// Netmask-to-prefix inversion for the v6 family: converting a prefix
/// length to a netmask and back yields the same prefix length.
pub proof fn lemma_netmask_roundtrip_v6(p: u32)
    requires
        p <= 128,
    ensures
        u128_leading_ones(mask128(p)) == p,
{
    let m = mask128(p);
    lemma_mask128_halves(p);
    if p < 64 {
        lemma_mask64_bits(p);
        lemma_mask64_roundtrip(p);
    } else if p == 64 {
        lemma_mask64_roundtrip(0);
    } else {
        lemma_mask64_roundtrip((p - 64) as u32);
    }
}

} // verus!
