//! Decoding of 16-bit instruction words into operand fields, and the
//! wrapping arithmetic the opcode semantics are stated with.

use vstd::prelude::*;

verus! {

/// The opcode family: the top 4 bits of the instruction word.
pub open spec fn fam(w: u16) -> u16 {
    w >> 12
}

/// The `x` register index field: bits 8..12.
pub open spec fn op_x(w: u16) -> u16 {
    (w >> 8) & 0xF
}

/// The `y` register index field: bits 4..8.
pub open spec fn op_y(w: u16) -> u16 {
    (w >> 4) & 0xF
}

/// The 4-bit immediate field: the low nibble.
pub open spec fn op_n(w: u16) -> u16 {
    w & 0xF
}

/// The 8-bit immediate field: the low byte.
pub open spec fn op_nn(w: u16) -> u8 {
    (w & 0xFF) as u8
}

/// The 12-bit address field.
pub open spec fn op_nnn(w: u16) -> u16 {
    w & 0xFFF
}

/// Two bytes combined big-endian into an instruction word.
pub open spec fn be16(hi: u8, lo: u8) -> u16 {
    ((hi as u16) << 8) | (lo as u16)
}

/// Every operand field lies in its range.
pub proof fn lemma_op_fields(w: u16)
    ensures
        fam(w) < 16,
        op_x(w) < 16,
        op_y(w) < 16,
        op_n(w) < 16,
        op_nnn(w) < 4096,
{
    assert(w >> 12 < 16) by (bit_vector);
    assert((w >> 8) & 0xF < 16) by (bit_vector);
    assert((w >> 4) & 0xF < 16) by (bit_vector);
    assert(w & 0xF < 16) by (bit_vector);
    assert(w & 0xFFF < 4096) by (bit_vector);
}

/// An integer reduced modulo 256, as the byte registers wrap.
pub open spec fn wrap8(a: int) -> u8 {
    (a % 256) as u8
}

/// An integer reduced modulo 2^16, as the 16-bit registers wrap.
pub open spec fn wrap16(a: int) -> u16 {
    (a % 0x10000) as u16
}

/// Wrapping 16-bit addition.
pub fn add16e(a: u16, b: u16) -> (r: u16)
    ensures
        r == wrap16(a + b),
{
    (((a as u32) + (b as u32)) % 0x10000) as u16
}

/// Wrapping 8-bit addition.
pub fn add8e(a: u8, b: u8) -> (r: u8)
    ensures
        r == wrap8(a + b),
{
    (((a as u16) + (b as u16)) % 256) as u8
}

/// Wrapping 8-bit subtraction.
pub fn sub8e(a: u8, b: u8) -> (r: u8)
    ensures
        r == wrap8(a - b),
{
    proof {
        vstd::arithmetic::div_mod::lemma_mod_add_multiples_vanish(a - b, 256);
    }
    ((256 + (a as u16) - (b as u16)) % 256) as u8
}

/// Combine two bytes big-endian, as `step` fetches instruction words.
pub fn be16e(hi: u8, lo: u8) -> (w: u16)
    ensures
        w == be16(hi, lo),
{
    ((hi as u16) << 8) | (lo as u16)
}

} // verus!
