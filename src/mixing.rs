//! The byte-mixing functions `g0` and `g1` and the nonlinear function `f`
//! built from them.

use vstd::prelude::*;

verus! {

/// `((a + b) mod 256) << 2`, the shift taken within eight bits.
pub open spec fn g0_spec(a: u8, b: u8) -> u8 {
    (((a as int + b as int) % 256) * 4 % 256) as u8
}

/// `((a + b + 1) mod 256) << 2`, the shift taken within eight bits.
pub open spec fn g1_spec(a: u8, b: u8) -> u8 {
    (((a as int + b as int + 1) % 256) * 4 % 256) as u8
}

/// Byte `i` of `v` in big-endian order: byte 0 is the most significant.
pub open spec fn be_byte(v: u32, i: int) -> u8 {
    ((v as int / byte_weight(3 - i)) % 256) as u8
}

/// `256^n` for `n` from 0 to 3.
pub open spec fn byte_weight(n: int) -> int {
    if n <= 0 {
        1
    } else if n == 1 {
        0x100
    } else if n == 2 {
        0x1_0000
    } else {
        0x100_0000
    }
}

/// The 32-bit value whose big-endian bytes are `y0, y1, y2, y3`.
pub open spec fn from_be(y0: u8, y1: u8, y2: u8, y3: u8) -> u32 {
    (y0 as int * 0x100_0000 + y1 as int * 0x1_0000 + y2 as int * 0x100 + y3 as int) as u32
}

/// The nonlinear function of a round, over the big-endian bytes of `v`.
pub open spec fn f_spec(v: u32) -> u32 {
    let x0 = be_byte(v, 0);
    let x1 = be_byte(v, 1);
    let x2 = be_byte(v, 2);
    let x3 = be_byte(v, 3);
    let y1 = g1_spec(x0 ^ x1, x2 ^ x3);
    let y0 = g0_spec(x0, y1);
    let y2 = g0_spec(y1, x2 & x3);
    let y3 = g1_spec(y2, x3);
    from_be(y0, y1, y2, y3)
}

/// Adds two bytes modulo 256 and shifts the sum left by two within eight bits.
pub fn g0(a: u8, b: u8) -> (r: u8)
    ensures
        r == g0_spec(a, b),
{
    let s: u8 = (((a as u16) + (b as u16)) % 256) as u8;
    assert(s == (a as int + b as int) % 256);
    assert(s << 2 == (s as int * 4) % 256) by (bit_vector);
    s << 2
}

/// Adds two bytes and one modulo 256 and shifts the sum left by two within eight bits.
pub fn g1(a: u8, b: u8) -> (r: u8)
    ensures
        r == g1_spec(a, b),
{
    let s: u8 = (((a as u16) + (b as u16) + 1) % 256) as u8;
    assert(s == (a as int + b as int + 1) % 256);
    assert(s << 2 == (s as int * 4) % 256) by (bit_vector);
    s << 2
}

/// The nonlinear function of a round.
pub fn f(val: u32) -> (r: u32)
    ensures
        r == f_spec(val),
{
    let x0: u8 = (val >> 24) as u8;
    let x1: u8 = (val >> 16) as u8;
    let x2: u8 = (val >> 8) as u8;
    let x3: u8 = val as u8;
    assert(x0 == be_byte(val, 0) && x1 == be_byte(val, 1) && x2 == be_byte(val, 2)
        && x3 == be_byte(val, 3)) by {
        assert((val >> 24) as u8 == (val / 0x100_0000) % 256
            && (val >> 16) as u8 == (val / 0x1_0000) % 256
            && (val >> 8) as u8 == (val / 0x100) % 256
            && val as u8 == val % 256) by (bit_vector);
    }

    let y1 = g1(x0 ^ x1, x2 ^ x3);
    let y0 = g0(x0, y1);
    let y2 = g0(y1, x2 & x3);
    let y3 = g1(y2, x3);

    let r = ((y0 as u32) << 24) | ((y1 as u32) << 16) | ((y2 as u32) << 8) | (y3 as u32);
    assert(((y0 as u32) << 24) | ((y1 as u32) << 16) | ((y2 as u32) << 8) | (y3 as u32)
        == (y0 as u32) * 0x100_0000 + (y1 as u32) * 0x1_0000 + (y2 as u32) * 0x100 + (y3 as u32))
        by (bit_vector);
    r
}

/// Every byte of what `f` returns has its two low bits clear: each is the output of
/// `g0` or `g1`.
pub proof fn lemma_f_low_bits_clear(v: u32)
    ensures
        f_spec(v) & 0x0303_0303 == 0,
{
    assert(f_spec(v) & 0x0303_0303 == 0) by (bit_vector);
}

/// `f` ignores the two high bits of each byte of its input, so it is not injective.
pub proof fn lemma_f_ignores_high_bits(v: u32)
    ensures
        f_spec(v) == f_spec(v & 0x3F3F_3F3F),
{
    assert(f_spec(v) == f_spec(v & 0x3F3F_3F3F)) by (bit_vector);
}

} // verus!
