//! Masked bit-field access within a single register value.
//!
//! A field is described by a mask and a bit offset. Writing a field clears
//! the masked bits of the register and then ORs in the value shifted to the
//! field's position, cut to the mask so that a value wider than the field
//! never reaches other bits; reading masks the register and shifts the field
//! down to bit 0.

use vstd::prelude::*;

verus! {

/// The register value after writing `value` into the field `(mask, offset)`.
pub open spec fn field_set32(reg: u32, mask: u32, offset: u32, value: u32) -> u32 {
    (reg & !mask) | ((value << offset) & mask)
}

/// The value of the field `(mask, offset)`, right-aligned at bit 0.
pub open spec fn field_get32(reg: u32, mask: u32, offset: u32) -> u32 {
    (reg & mask) >> offset
}

/// The byte-register counterpart of `field_set32`.
pub open spec fn field_set8(reg: u8, mask: u8, offset: u8, value: u8) -> u8 {
    (reg & !mask) | ((value << offset) & mask)
}

/// The byte-register counterpart of `field_get32`.
pub open spec fn field_get8(reg: u8, mask: u8, offset: u8) -> u8 {
    (reg & mask) >> offset
}

/// A mask and an offset agree: the mask is a run of ones starting exactly at
/// bit `offset`.
pub open spec fn field_wf32(mask: u32, offset: u32) -> bool {
    &&& offset < 32
    &&& (mask >> offset) << offset == mask
    &&& (mask >> offset) & (((mask >> offset) + 1) as u32) == 0
}

/// The byte-register counterpart of `field_wf32`.
pub open spec fn field_wf8(mask: u8, offset: u8) -> bool {
    &&& offset < 8
    &&& (mask >> offset) << offset == mask
    &&& (mask >> offset) & (((mask >> offset) + 1) as u8) == 0
}

/// Computes the register value after writing `value` into the field
/// `(mask, offset)` of `reg`.
pub fn field_write32(reg: u32, mask: u32, offset: u32, value: u32) -> (r: u32)
    requires
        offset < 32,
    ensures
        r == field_set32(reg, mask, offset, value),
{
    (reg & !mask) | ((value << offset) & mask)
}

/// Extracts the field `(mask, offset)` of `reg`.
pub fn field_read32(reg: u32, mask: u32, offset: u32) -> (r: u32)
    requires
        offset < 32,
    ensures
        r == field_get32(reg, mask, offset),
{
    (reg & mask) >> offset
}

/// Computes the byte-register value after writing `value` into the field
/// `(mask, offset)` of `reg`.
pub fn field_write8(reg: u8, mask: u8, offset: u8, value: u8) -> (r: u8)
    requires
        offset < 8,
    ensures
        r == field_set8(reg, mask, offset, value),
{
    (reg & !mask) | ((value << offset) & mask)
}

/// Extracts the field `(mask, offset)` of the byte register `reg`.
pub fn field_read8(reg: u8, mask: u8, offset: u8) -> (r: u8)
    requires
        offset < 8,
    ensures
        r == field_get8(reg, mask, offset),
{
    (reg & mask) >> offset
}

/// Writing a well-formed field and reading it back yields the written value
/// truncated to the field's width, and every bit of the register outside the
/// field keeps its old value.
pub proof fn lemma_field32_write_read(reg: u32, mask: u32, offset: u32, value: u32)
    requires
        field_wf32(mask, offset),
    ensures
        field_get32(field_set32(reg, mask, offset, value), mask, offset) == value & (mask
            >> offset),
        field_set32(reg, mask, offset, value) & !mask == reg & !mask,
{
    assert((((reg & !mask) | ((value << offset) & mask)) & mask) >> offset == value & (mask >> offset))
        by (bit_vector)
        requires
            offset < 32,
            (mask >> offset) << offset == mask,
            (mask >> offset) & (((mask >> offset) + 1) as u32) == 0,
    ;
    assert(((reg & !mask) | ((value << offset) & mask)) & !mask == reg & !mask) by (bit_vector)
        requires
            offset < 32,
            (mask >> offset) << offset == mask,
            (mask >> offset) & (((mask >> offset) + 1) as u32) == 0,
    ;
}

/// The byte-register counterpart of `lemma_field32_write_read`.
pub proof fn lemma_field8_write_read(reg: u8, mask: u8, offset: u8, value: u8)
    requires
        field_wf8(mask, offset),
    ensures
        field_get8(field_set8(reg, mask, offset, value), mask, offset) == value & (mask
            >> offset),
        field_set8(reg, mask, offset, value) & !mask == reg & !mask,
{
    assert((((reg & !mask) | ((value << offset) & mask)) & mask) >> offset == value & (mask >> offset))
        by (bit_vector)
        requires
            offset < 8,
            (mask >> offset) << offset == mask,
            (mask >> offset) & (((mask >> offset) + 1) as u8) == 0,
    ;
    assert(((reg & !mask) | ((value << offset) & mask)) & !mask == reg & !mask) by (bit_vector)
        requires
            offset < 8,
            (mask >> offset) << offset == mask,
            (mask >> offset) & (((mask >> offset) + 1) as u8) == 0,
    ;
}

} // verus!
