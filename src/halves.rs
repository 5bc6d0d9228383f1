//! Splitting a 64-bit block into two 32-bit halves and joining them again.

use vstd::prelude::*;

verus! {

/// The number of distinct values of one half: 2^32.
pub open spec fn half_base() -> int {
    0x1_0000_0000
}

/// The block whose high half is `a` and whose low half is `b`.
pub open spec fn pack(a: u32, b: u32) -> u64 {
    (a as int * half_base() + b as int) as u64
}

/// The high 32 bits of `v`.
pub open spec fn high_half(v: u64) -> u32 {
    (v as int / half_base()) as u32
}

/// The low 32 bits of `v`.
pub open spec fn low_half(v: u64) -> u32 {
    (v as int % half_base()) as u32
}

/// Joins two halves into a block: `a` in the high 32 bits, `b` in the low 32 bits.
pub fn concat(a: u32, b: u32) -> (r: u64)
    ensures
        r == pack(a, b),
{
    let r = ((a as u64) << 32) | (b as u64);
    assert(((a as u64) << 32) | (b as u64) == (a as u64) * 0x1_0000_0000 + (b as u64))
        by (bit_vector);
    r
}

/// The high half of a block.
pub fn left(val: u64) -> (r: u32)
    ensures
        r == high_half(val),
{
    assert((val >> 32) as u32 == val / 0x1_0000_0000) by (bit_vector);
    (val >> 32) as u32
}

/// The low half of a block.
pub fn right(val: u64) -> (r: u32)
    ensures
        r == low_half(val),
{
    assert(val as u32 == val % 0x1_0000_0000) by (bit_vector);
    val as u32
}

/// Taking the halves of a packed block gives back the two values that were packed.
pub proof fn lemma_halves_of_pack(a: u32, b: u32)
    ensures
        high_half(pack(a, b)) == a,
        low_half(pack(a, b)) == b,
{
    assert((a as u64) * 0x1_0000_0000 + (b as u64) < 0x1_0000_0000_0000_0000
        && ((a as u64) * 0x1_0000_0000 + (b as u64)) / 0x1_0000_0000 == a
        && ((a as u64) * 0x1_0000_0000 + (b as u64)) % 0x1_0000_0000 == b) by (bit_vector);
}

/// Packing the two halves of a block gives back the block.
pub proof fn lemma_pack_of_halves(v: u64)
    ensures
        pack(high_half(v), low_half(v)) == v,
{
    assert((v / 0x1_0000_0000) * 0x1_0000_0000 + v % 0x1_0000_0000 == v) by (bit_vector);
}

} // verus!
