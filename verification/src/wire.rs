//! Byte-level primitives shared by the two protocol codecs: little-endian
//! field access, big-endian (network-order) address octets, and the
//! alignment rules of the wire formats.

use vstd::prelude::*;

verus! {

// ---------------------------------------------------------------------------
// Little-endian fields (the native byte order of the supported targets).
// ---------------------------------------------------------------------------

/// The 16-bit value stored little-endian in two bytes.
pub open spec fn le16_val(b0: u8, b1: u8) -> u16 {
    (b0 + 0x100 * b1) as u16
}

/// The 32-bit value stored little-endian in four bytes.
pub open spec fn le32_val(b0: u8, b1: u8, b2: u8, b3: u8) -> u32 {
    (b0 + 0x100 * b1 + 0x1_0000 * b2 + 0x100_0000 * b3) as u32
}

/// The two little-endian bytes of a 16-bit value.
pub open spec fn le16_bytes(x: u16) -> Seq<u8> {
    seq![(x & 0xff) as u8, ((x >> 8) & 0xff) as u8]
}

/// The four little-endian bytes of a 32-bit value.
pub open spec fn le32_bytes(x: u32) -> Seq<u8> {
    seq![
        (x & 0xff) as u8,
        ((x >> 8) & 0xff) as u8,
        ((x >> 16) & 0xff) as u8,
        ((x >> 24) & 0xff) as u8,
    ]
}

/// Reassembling the two little-endian bytes of a value yields the value.
pub proof fn lemma_le16_roundtrip(x: u16)
    by (bit_vector)
    ensures
        le16_val((x & 0xff) as u8, ((x >> 8) & 0xff) as u8) == x,
{
}

/// Reassembling the four little-endian bytes of a value yields the value.
pub proof fn lemma_le32_roundtrip(x: u32)
    by (bit_vector)
    ensures
        le32_val(
            (x & 0xff) as u8,
            ((x >> 8) & 0xff) as u8,
            ((x >> 16) & 0xff) as u8,
            ((x >> 24) & 0xff) as u8,
        ) == x,
{
}

/// Appends a 16-bit value in little-endian order.
pub fn put_u16_le(out: &mut Vec<u8>, x: u16)
    ensures
        final(out)@ == old(out)@ + le16_bytes(x),
{
    out.push((x & 0xff) as u8);
    out.push(((x >> 8) & 0xff) as u8);
    assert(out@ =~= old(out)@ + le16_bytes(x));
}

/// Appends a 32-bit value in little-endian order.
pub fn put_u32_le(out: &mut Vec<u8>, x: u32)
    ensures
        final(out)@ == old(out)@ + le32_bytes(x),
{
    out.push((x & 0xff) as u8);
    out.push(((x >> 8) & 0xff) as u8);
    out.push(((x >> 16) & 0xff) as u8);
    out.push(((x >> 24) & 0xff) as u8);
    assert(out@ =~= old(out)@ + le32_bytes(x));
}

/// Reads the 16-bit little-endian value at `off`.
pub fn read_u16_le(b: &[u8], off: usize) -> (r: u16)
    requires
        off + 2 <= b@.len(),
    ensures
        r == le16_val(b@[off as int], b@[off as int + 1]),
{
    b[off] as u16 + 0x100 * (b[off + 1] as u16)
}

/// Reads the 32-bit little-endian value at `off`.
pub fn read_u32_le(b: &[u8], off: usize) -> (r: u32)
    requires
        off + 4 <= b@.len(),
    ensures
        r == le32_val(b@[off as int], b@[off as int + 1], b@[off as int + 2], b@[off as int + 3]),
{
    b[off] as u32 + 0x100 * (b[off + 1] as u32) + 0x1_0000 * (b[off + 2] as u32) + 0x100_0000 * (b[
        off + 3] as u32)
}

// ---------------------------------------------------------------------------
// Network-order address octets.
// ---------------------------------------------------------------------------

/// The 32-bit value whose big-endian octets are the four given bytes.
pub open spec fn be32_val(b0: u8, b1: u8, b2: u8, b3: u8) -> u32 {
    (0x100_0000 * b0 + 0x1_0000 * b1 + 0x100 * b2 + b3) as u32
}

/// The four big-endian octets of a 32-bit address.
pub open spec fn be32_bytes(x: u32) -> Seq<u8> {
    seq![
        ((x >> 24) & 0xff) as u8,
        ((x >> 16) & 0xff) as u8,
        ((x >> 8) & 0xff) as u8,
        (x & 0xff) as u8,
    ]
}

/// The 64-bit value whose big-endian octets are the eight bytes of `b`
/// starting at `off`.
pub open spec fn be64_val_at(b: Seq<u8>, off: int) -> u64
    recommends
        0 <= off,
        off + 8 <= b.len(),
{
    (0x100_0000_0000_0000 * b[off] + 0x1_0000_0000_0000 * b[off + 1] + 0x100_0000_0000 * b[off + 2]
        + 0x1_0000_0000 * b[off + 3] + 0x100_0000 * b[off + 4] + 0x1_0000 * b[off + 5] + 0x100 * b[
    off + 6] + b[off + 7]) as u64
}

/// The 128-bit value whose big-endian octets are the sixteen bytes of `b`
/// starting at `off`: the first eight bytes carry the high half.
pub open spec fn be128_val_at(b: Seq<u8>, off: int) -> u128
    recommends
        0 <= off,
        off + 16 <= b.len(),
{
    (0x1_0000_0000_0000_0000 * be64_val_at(b, off) + be64_val_at(b, off + 8)) as u128
}

/// The sixteen big-endian octets of a 128-bit address.
pub open spec fn be128_bytes(x: u128) -> Seq<u8> {
    seq![
        ((x >> 120) & 0xff) as u8,
        ((x >> 112) & 0xff) as u8,
        ((x >> 104) & 0xff) as u8,
        ((x >> 96) & 0xff) as u8,
        ((x >> 88) & 0xff) as u8,
        ((x >> 80) & 0xff) as u8,
        ((x >> 72) & 0xff) as u8,
        ((x >> 64) & 0xff) as u8,
        ((x >> 56) & 0xff) as u8,
        ((x >> 48) & 0xff) as u8,
        ((x >> 40) & 0xff) as u8,
        ((x >> 32) & 0xff) as u8,
        ((x >> 24) & 0xff) as u8,
        ((x >> 16) & 0xff) as u8,
        ((x >> 8) & 0xff) as u8,
        (x & 0xff) as u8,
    ]
}

/// Reassembling the four big-endian octets of a value yields the value.
pub proof fn lemma_be32_roundtrip(x: u32)
    by (bit_vector)
    ensures
        be32_val(
            ((x >> 24) & 0xff) as u8,
            ((x >> 16) & 0xff) as u8,
            ((x >> 8) & 0xff) as u8,
            (x & 0xff) as u8,
        ) == x,
{
}

/// Reassembling the sixteen big-endian octets of a value yields the value.
pub proof fn lemma_be128_roundtrip(x: u128)
    ensures
        be128_val_at(be128_bytes(x), 0) == x,
{
    let b = be128_bytes(x);
    assert(b[0] == ((x >> 120) & 0xff) as u8 && b[1] == ((x >> 112) & 0xff) as u8 && b[2] == ((x
        >> 104) & 0xff) as u8 && b[3] == ((x >> 96) & 0xff) as u8 && b[4] == ((x >> 88) & 0xff) as u8
        && b[5] == ((x >> 80) & 0xff) as u8 && b[6] == ((x >> 72) & 0xff) as u8 && b[7] == ((x >> 64)
        & 0xff) as u8 && b[8] == ((x >> 56) & 0xff) as u8 && b[9] == ((x >> 48) & 0xff) as u8 && b[10]
        == ((x >> 40) & 0xff) as u8 && b[11] == ((x >> 32) & 0xff) as u8 && b[12] == ((x >> 24)
        & 0xff) as u8 && b[13] == ((x >> 16) & 0xff) as u8 && b[14] == ((x >> 8) & 0xff) as u8 && b[15]
        == (x & 0xff) as u8);
    let hi = be64_val_at(b, 0);
    let lo = be64_val_at(b, 8);
    assert(hi == ((x >> 64) & 0xffff_ffff_ffff_ffff) as u64 && lo == (x & 0xffff_ffff_ffff_ffff)
        as u64) by (bit_vector)
        requires
            hi == (0x100_0000_0000_0000 * (((x >> 120) & 0xff) as u8) + 0x1_0000_0000_0000 * (((x
                >> 112) & 0xff) as u8) + 0x100_0000_0000 * (((x >> 104) & 0xff) as u8)
                + 0x1_0000_0000 * (((x >> 96) & 0xff) as u8) + 0x100_0000 * (((x >> 88) & 0xff)
                as u8) + 0x1_0000 * (((x >> 80) & 0xff) as u8) + 0x100 * (((x >> 72) & 0xff) as u8)
                + (((x >> 64) & 0xff) as u8)) as u64,
            lo == (0x100_0000_0000_0000 * (((x >> 56) & 0xff) as u8) + 0x1_0000_0000_0000 * (((x
                >> 48) & 0xff) as u8) + 0x100_0000_0000 * (((x >> 40) & 0xff) as u8)
                + 0x1_0000_0000 * (((x >> 32) & 0xff) as u8) + 0x100_0000 * (((x >> 24) & 0xff)
                as u8) + 0x1_0000 * (((x >> 16) & 0xff) as u8) + 0x100 * (((x >> 8) & 0xff) as u8)
                + ((x & 0xff) as u8)) as u64,
    ;
    assert(0x1_0000_0000_0000_0000 * ((((x >> 64) & 0xffff_ffff_ffff_ffff) as u64) as u128) + (((x
        & 0xffff_ffff_ffff_ffff) as u64) as u128) == x) by (bit_vector);
}

/// Appends the four big-endian octets of a 32-bit address.
pub fn put_be32(out: &mut Vec<u8>, x: u32)
    ensures
        final(out)@ == old(out)@ + be32_bytes(x),
{
    out.push(((x >> 24) & 0xff) as u8);
    out.push(((x >> 16) & 0xff) as u8);
    out.push(((x >> 8) & 0xff) as u8);
    out.push((x & 0xff) as u8);
    assert(out@ =~= old(out)@ + be32_bytes(x));
}

/// Appends the sixteen big-endian octets of a 128-bit address.
pub fn put_be128(out: &mut Vec<u8>, x: u128)
    ensures
        final(out)@ == old(out)@ + be128_bytes(x),
{
    out.push(((x >> 120) & 0xff) as u8);
    out.push(((x >> 112) & 0xff) as u8);
    out.push(((x >> 104) & 0xff) as u8);
    out.push(((x >> 96) & 0xff) as u8);
    out.push(((x >> 88) & 0xff) as u8);
    out.push(((x >> 80) & 0xff) as u8);
    out.push(((x >> 72) & 0xff) as u8);
    out.push(((x >> 64) & 0xff) as u8);
    out.push(((x >> 56) & 0xff) as u8);
    out.push(((x >> 48) & 0xff) as u8);
    out.push(((x >> 40) & 0xff) as u8);
    out.push(((x >> 32) & 0xff) as u8);
    out.push(((x >> 24) & 0xff) as u8);
    out.push(((x >> 16) & 0xff) as u8);
    out.push(((x >> 8) & 0xff) as u8);
    out.push((x & 0xff) as u8);
    assert(out@ =~= old(out)@ + be128_bytes(x));
}

/// Reads the 32-bit address stored big-endian at `off`.
pub fn read_be32(b: &[u8], off: usize) -> (r: u32)
    requires
        off + 4 <= b@.len(),
    ensures
        r == be32_val(b@[off as int], b@[off as int + 1], b@[off as int + 2], b@[off as int + 3]),
{
    0x100_0000 * (b[off] as u32) + 0x1_0000 * (b[off + 1] as u32) + 0x100 * (b[off + 2] as u32) + b[
        off + 3] as u32
}

/// Reads the 64-bit value stored big-endian at `off`.
fn read_be64(b: &[u8], off: usize) -> (r: u64)
    requires
        off + 8 <= b@.len(),
    ensures
        r == be64_val_at(b@, off as int),
{
    0x100_0000_0000_0000 * (b[off] as u64) + 0x1_0000_0000_0000 * (b[off + 1] as u64)
        + 0x100_0000_0000 * (b[off + 2] as u64) + 0x1_0000_0000 * (b[off + 3] as u64) + 0x100_0000
        * (b[off + 4] as u64) + 0x1_0000 * (b[off + 5] as u64) + 0x100 * (b[off + 6] as u64) + b[off
        + 7] as u64
}

/// Reads the 128-bit address stored big-endian at `off`.
pub fn read_be128(b: &[u8], off: usize) -> (r: u128)
    requires
        off + 16 <= b@.len(),
    ensures
        r == be128_val_at(b@, off as int),
{
    // the slice length fits a machine word, which bounds the offsets
    let _bound = b.len();
    let hi = read_be64(b, off);
    let lo = read_be64(b, off + 8);
    0x1_0000_0000_0000_0000 * (hi as u128) + lo as u128
}

// ---------------------------------------------------------------------------
// Alignment.
// ---------------------------------------------------------------------------

/// `n` rounded up to the next multiple of four: the alignment of netlink
/// attributes and of routing-socket address structures.
pub open spec fn align4(n: int) -> int {
    ((n + 3) / 4) * 4
}

/// Rounds up to the next multiple of four.
pub fn align4_up(n: usize) -> (r: usize)
    requires
        n + 3 <= usize::MAX,
    ensures
        r == align4(n as int),
        n <= r < n + 4,
{
    ((n + 3) / 4) * 4
}

/// The routing-socket advance for an address structure of declared length
/// `n`: the length rounded up to word alignment, one word at least.
pub open spec fn sa_advance(n: int) -> int {
    if n == 0 {
        4
    } else {
        align4(n)
    }
}

/// The routing-socket cursor advance for a declared length.
pub fn sa_advance_up(n: usize) -> (r: usize)
    requires
        n + 3 <= usize::MAX,
    ensures
        r == sa_advance(n as int),
        4 <= r,
        n <= r <= n + 4,
{
    if n == 0 {
        4
    } else {
        align4_up(n)
    }
}

} // verus!
