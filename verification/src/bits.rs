use vstd::prelude::*;

verus! {

/// 16-bit wrapping addition, as the program counter and the index register
/// use it. Mirrors `vstd::wrapping::u16_specs::wrapping_add`.
pub open spec fn add16(a: u16, b: u16) -> u16 {
    if a + b > u16::MAX {
        (a + b - 0x10000) as u16
    } else {
        (a + b) as u16
    }
}

/// 8-bit wrapping addition of two register values.
pub open spec fn add8(a: u8, b: u8) -> u8 {
    if a + b > u8::MAX {
        (a + b - 0x100) as u8
    } else {
        (a + b) as u8
    }
}

/// 8-bit wrapping subtraction of two register values.
pub open spec fn sub8(a: u8, b: u8) -> u8 {
    if a - b < 0 {
        (a - b + 0x100) as u8
    } else {
        (a - b) as u8
    }
}

/// The executable wrapping additions and subtraction agree with the spec
/// forms above.
pub proof fn lemma_wrapping_agree(a16: u16, b16: u16, a8: u8, b8: u8)
    ensures
        add16(a16, b16) == vstd::wrapping::u16_specs::wrapping_add(a16, b16),
        add8(a8, b8) == vstd::wrapping::u8_specs::wrapping_add(a8, b8),
        sub8(a8, b8) == vstd::wrapping::u8_specs::wrapping_sub(a8, b8),
{
}

/// Masking an address to the 12-bit space yields a valid index, and leaves
/// an address that is already in the space unchanged.
pub proof fn lemma_mask12(a: u16)
    by (bit_vector)
    ensures
        a & 0xfff < 4096,
        a < 4096 ==> a & 0xfff == a,
{
}

/// Bounds of the fixed fields decoded from an instruction word: the two
/// register fields fit in four bits, the address field in twelve.
pub proof fn lemma_fields(w: u16)
    by (bit_vector)
    ensures
        (w & 0x0f00) >> 8 < 16,
        (w & 0x00f0) >> 4 < 16,
        w & 0xfff <= 0xfff,
        w & 0xf < 16,
        w & 0xff < 256,
{
}

/// A single extracted bit is 0 or 1.
pub proof fn lemma_bit_le(b: u8, s: u8)
    by (bit_vector)
    ensures
        (b >> s) & 1 <= 1,
{
}

} // verus!
