//! Byte arithmetic of the instruction set.

use vstd::prelude::*;

verus! {

/// `a + b` modulo 256, and whether the sum went past 255.
pub(crate) fn add_bytes(a: u8, b: u8) -> (r: (u8, bool))
    ensures
        r.0 == (a + b) % 0x100,
        r.1 == (a + b > 0xFF),
{
    (a.wrapping_add(b), a as u16 + b as u16 > 0xFF)
}

/// `a - b` modulo 256, and whether the subtraction did without a borrow.
pub(crate) fn sub_bytes(a: u8, b: u8) -> (r: (u8, bool))
    ensures
        r.0 == (a - b) % 0x100,
        r.1 == (a >= b),
{
    (a.wrapping_sub(b), a >= b)
}

/// `a` shifted right by one bit, and the bit that left.
pub(crate) fn shift_right(a: u8) -> (r: (u8, bool))
    ensures
        r.0 == a / 2,
        r.1 == (a % 2 == 1),
{
    assert(a >> 1 == a / 2 && (a & 1 == 1) == (a % 2 == 1)) by (bit_vector);
    (a >> 1, a & 1 == 1)
}

/// `a` shifted left by one bit, and the bit that left.
pub(crate) fn shift_left(a: u8) -> (r: (u8, bool))
    ensures
        r.0 == (a * 2) % 0x100,
        r.1 == (a >= 0x80),
{
    assert(a << 1 == (a * 2) % 0x100 && (a & 0x80 != 0) == (a >= 0x80)) by (bit_vector);
    (a << 1, a & 0x80 != 0)
}

/// `index + offset` modulo 65536.
pub(crate) fn add_index(index: u16, offset: u8) -> (r: u16)
    ensures
        r == (index + offset) % 0x1_0000,
{
    index.wrapping_add(offset as u16)
}

} // verus!
