//! The register window of a core-local vectored interrupt controller and the
//! controller operations built on it.
//!
//! `MemoryMapper` is a byte-addressed register window: 32-bit registers are
//! little-endian words, and every access is a masked field read or a
//! read-modify-write of one register. `Clic` interprets such a window with
//! the controller's layout: a configuration byte, an information word that
//! reports the number of interrupts, and per-interrupt pending, enable,
//! attribute and control registers at a fixed stride.

use vstd::prelude::*;
use crate::field::{
    field_get32, field_get8, field_read32, field_read8, field_set32, field_set8, field_wf32,
    field_wf8, field_write32, field_write8, lemma_field32_write_read, lemma_field8_write_read,
};

verus! {

/// The little-endian 32-bit word stored at byte offset `o` of `s`.
pub open spec fn word_at(s: Seq<u8>, o: int) -> u32 {
    (s[o] as u32) | ((s[o + 1] as u32) << 8u32) | ((s[o + 2] as u32) << 16u32) | ((s[o + 3]
        as u32) << 24u32)
}

/// `s` with the little-endian word `w` stored at byte offset `o`.
pub open spec fn put_word(s: Seq<u8>, o: int, w: u32) -> Seq<u8> {
    s.update(o, w as u8).update(o + 1, (w >> 8u32) as u8).update(o + 2, (w >> 16u32) as u8).update(
        o + 3,
        (w >> 24u32) as u8,
    )
}

/// A window of memory-mapped registers, addressed by byte offset from its
/// base address.
pub struct MemoryMapper {
    base_address: usize,
    regs: Vec<u8>,
}

impl View for MemoryMapper {
    type V = Seq<u8>;

    closed spec fn view(&self) -> Seq<u8> {
        self.regs@
    }
}

impl MemoryMapper {
    /// The address at which the window is mapped.
    pub closed spec fn base_spec(&self) -> usize {
        self.base_address
    }

    /// A window of `size` bytes mapped at `base_address`, all registers zero.
    pub fn new(base_address: usize, size: usize) -> (r: Self)
        ensures
            r@ == Seq::new(size as nat, |i: int| 0u8),
            r.base_spec() == base_address,
    {
        let mut regs: Vec<u8> = Vec::new();
        let mut i: usize = 0;
        while i < size
            invariant
                i <= size,
                regs@ == Seq::new(i as nat, |k: int| 0u8),
            decreases size - i,
        {
            regs.push(0u8);
            i = i + 1;
            assert(regs@ =~= Seq::new(i as nat, |k: int| 0u8));
        }
        MemoryMapper { base_address, regs }
    }

    /// The address at which the window is mapped.
    pub fn base_address(&self) -> (r: usize)
        ensures
            r == self.base_spec(),
    {
        self.base_address
    }

    /// The bus address of the register at `reg_offset`.
    pub fn register_address(&self, reg_offset: isize) -> (r: usize)
        requires
            0 <= reg_offset,
            self.base_spec() + reg_offset <= usize::MAX,
        ensures
            r == self.base_spec() + reg_offset,
    {
        self.base_address + reg_offset as usize
    }

    /// The size of the window in bytes.
    pub fn size(&self) -> (r: usize)
        ensures
            r == self@.len(),
    {
        self.regs.len()
    }

    fn load_word(&self, o: usize) -> (r: u32)
        requires
            o + 4 <= self@.len(),
        ensures
            r == word_at(self@, o as int),
    {
        let len = self.regs.len();
        proof {
            assert(o + 4 <= len);
        }
        (self.regs[o] as u32) | ((self.regs[o + 1] as u32) << 8u32) | ((self.regs[o + 2] as u32)
            << 16u32) | ((self.regs[o + 3] as u32) << 24u32)
    }

    fn store_word(&mut self, o: usize, w: u32)
        requires
            o + 4 <= old(self)@.len(),
        ensures
            final(self)@ == put_word(old(self)@, o as int, w),
            final(self).base_spec() == old(self).base_spec(),
    {
        let len = self.regs.len();
        proof {
            assert(o + 4 <= len);
        }
        self.regs.set(o, #[verifier::truncate] (w as u8));
        self.regs.set(o + 1, #[verifier::truncate] ((w >> 8u32) as u8));
        self.regs.set(o + 2, #[verifier::truncate] ((w >> 16u32) as u8));
        self.regs.set(o + 3, #[verifier::truncate] ((w >> 24u32) as u8));
    }

    /// Read-modify-write of the 32-bit register at `reg_offset`: the bits
    /// under `mask` are cleared, then `value << bitoffset`, cut to `mask`, is
    /// ORed in.
    pub fn write(&mut self, reg_offset: isize, mask: u32, bitoffset: u32, value: u32)
        requires
            0 <= reg_offset,
            reg_offset + 4 <= old(self)@.len(),
            bitoffset < 32,
        ensures
            final(self)@ == put_word(
                old(self)@,
                reg_offset as int,
                field_set32(word_at(old(self)@, reg_offset as int), mask, bitoffset, value),
            ),
            final(self).base_spec() == old(self).base_spec(),
    {
        let o = reg_offset as usize;
        let reg = self.load_word(o);
        let reg = field_write32(reg, mask, bitoffset, value);
        self.store_word(o, reg);
    }

    /// Read-modify-write of the byte register at `reg_offset`.
    pub fn write_byte(&mut self, reg_offset: isize, mask: u8, bitoffset: u8, value: u8)
        requires
            0 <= reg_offset < old(self)@.len(),
            bitoffset < 8,
        ensures
            final(self)@ == old(self)@.update(
                reg_offset as int,
                field_set8(old(self)@[reg_offset as int], mask, bitoffset, value),
            ),
            final(self).base_spec() == old(self).base_spec(),
    {
        let o = reg_offset as usize;
        let reg = field_write8(self.regs[o], mask, bitoffset, value);
        self.regs.set(o, reg);
    }

    /// The field `(mask, bitoffset)` of the 32-bit register at `reg_offset`.
    pub fn read(&self, reg_offset: isize, mask: u32, bitoffset: u32) -> (r: u32)
        requires
            0 <= reg_offset,
            reg_offset + 4 <= self@.len(),
            bitoffset < 32,
        ensures
            r == field_get32(word_at(self@, reg_offset as int), mask, bitoffset),
    {
        let reg = self.load_word(reg_offset as usize);
        field_read32(reg, mask, bitoffset)
    }

    /// The field `(mask, bitoffset)` of the byte register at `reg_offset`.
    pub fn read_byte(&self, reg_offset: isize, mask: u8, bitoffset: u8) -> (r: u8)
        requires
            0 <= reg_offset < self@.len(),
            bitoffset < 8,
        ensures
            r == field_get8(self@[reg_offset as int], mask, bitoffset),
    {
        field_read8(self.regs[reg_offset as usize], mask, bitoffset)
    }
}

/// Storing a word and loading it back gives the word.
pub proof fn lemma_word_round_trip(s: Seq<u8>, o: int, w: u32)
    requires
        0 <= o,
        o + 4 <= s.len(),
    ensures
        word_at(put_word(s, o, w), o) == w,
        put_word(s, o, w).len() == s.len(),
        forall|k: int| 0 <= k < s.len() && (k < o || k >= o + 4) ==> put_word(s, o, w)[k] == s[k],
{
    let t = put_word(s, o, w);
    assert(t[o] == w as u8 && t[o + 1] == (w >> 8u32) as u8 && t[o + 2] == (w >> 16u32) as u8
        && t[o + 3] == (w >> 24u32) as u8);
    assert(((w as u8) as u32) | ((((w >> 8u32) as u8) as u32) << 8u32) | ((((w >> 16u32) as u8)
        as u32) << 16u32) | ((((w >> 24u32) as u8) as u32) << 24u32) == w) by (bit_vector);
}

/// A masked write to a register of the window, followed by a read of the
/// same well-formed field, yields the written value truncated to the field's
/// width; the register's other bits and every other byte of the window keep
/// their old values.
pub proof fn lemma_mapper_write_read(s: Seq<u8>, reg_offset: int, mask: u32, bitoffset: u32, value: u32)
    requires
        0 <= reg_offset,
        reg_offset + 4 <= s.len(),
        field_wf32(mask, bitoffset),
    ensures
        ({
            let t = put_word(s, reg_offset, field_set32(word_at(s, reg_offset), mask, bitoffset, value));
            &&& field_get32(word_at(t, reg_offset), mask, bitoffset) == value & (mask >> bitoffset)
            &&& word_at(t, reg_offset) & !mask == word_at(s, reg_offset) & !mask
            &&& t.len() == s.len()
            &&& forall|k: int| 0 <= k < s.len() && (k < reg_offset || k >= reg_offset + 4) ==> t[k] == s[k]
        }),
{
    let w = field_set32(word_at(s, reg_offset), mask, bitoffset, value);
    lemma_word_round_trip(s, reg_offset, w);
    lemma_field32_write_read(word_at(s, reg_offset), mask, bitoffset, value);
}

/// The byte-register counterpart of `lemma_mapper_write_read`.
pub proof fn lemma_mapper_write_read_byte(s: Seq<u8>, reg_offset: int, mask: u8, bitoffset: u8, value: u8)
    requires
        0 <= reg_offset < s.len(),
        field_wf8(mask, bitoffset),
    ensures
        ({
            let t = s.update(reg_offset, field_set8(s[reg_offset], mask, bitoffset, value));
            &&& field_get8(t[reg_offset], mask, bitoffset) == value & (mask >> bitoffset)
            &&& t[reg_offset] & !mask == s[reg_offset] & !mask
            &&& t.len() == s.len()
            &&& forall|k: int| 0 <= k < s.len() && k != reg_offset ==> t[k] == s[k]
        }),
{
    lemma_field8_write_read(s[reg_offset], mask, bitoffset, value);
}


// Configuration register.
pub const CLICCFG_REG_OFFSET: isize = 0x0;
pub const CLICCFG_NVBITS_MASK: u8 = 0x1;
pub const CLICCFG_NVBITS_OFFSET: u8 = 0;
pub const CLICCFG_NLBITS_MASK: u8 = 0x1E;
pub const CLICCFG_NLBITS_OFFSET: u8 = 1;
pub const CLICCFG_NMBITS_MASK: u8 = 0x60;
pub const CLICCFG_NMBITS_OFFSET: u8 = 5;

// Information register.
pub const CLICINFO_REG_OFFSET: isize = 0x4;
pub const CLICINFO_NUM_INTERRUPT_MASK: u32 = 0x1FFF;
pub const CLICINFO_NUM_INTERRUPT_OFFSET: u32 = 0;
pub const CLICINFO_VERSION_MASK: u32 = 0x1FE000;
pub const CLICINFO_VERSION_OFFSET: u32 = 13;
pub const CLICINFO_CLICINTCTLBITS_MASK: u32 = 0x1E00000;
pub const CLICINFO_CLICINTCTLBITS_OFFSET: u32 = 21;
pub const CLICINFO_NUM_TRIGGER_MASK: u32 = 0x7E000000;
pub const CLICINFO_NUM_TRIGGER_OFFSET: u32 = 25;

// Per-interrupt registers: the block of interrupt `id` starts at
// `CLICINT_TABLE_OFFSET + CLICINT_STRIDE * id`.
pub const CLICINT_TABLE_OFFSET: u32 = 0x1000;
pub const CLICINT_STRIDE: u32 = 0x10;

pub const CLICINTIP_CLICINTIP_BIT: u8 = 0;
pub const CLICINTIP_CLICINTIP_MASK: u8 = 1;

pub const CLICINTIE_CLICINTIE_BIT: u8 = 0;
pub const CLICINTIE_CLICINTIE_MASK: u8 = 1;

pub const CLICINTATTR_SHV_BIT: u8 = 0;
pub const CLICINTATTR_SHV_MASK: u8 = 0x1;
pub const CLICINTATTR_TRIG_MASK: u8 = 0x6;
pub const CLICINTATTR_TRIG_OFFSET: u8 = 1;
pub const CLICINTATTR_MODE_MASK: u8 = 0xC0;
pub const CLICINTATTR_MODE_OFFSET: u8 = 6;

pub const TRIG_LEVEL: u8 = 0;
pub const TRIG_EDGE: u8 = 1;
pub const TRIG_POSITIVE: u8 = 0 << 1;
pub const TRIG_NEGATIVE: u8 = 1 << 1;

pub const CLICINTCTL_CLICINTCTL_MASK: u8 = 0xFF;
pub const CLICINTCTL_CLICINTCTL_OFFSET: u8 = 0;

/// Byte offset of the pending register of interrupt `id`.
pub open spec fn intip_offset(id: int) -> int {
    0x1000 + 0x10 * id
}

/// Byte offset of the enable register of interrupt `id`.
pub open spec fn intie_offset(id: int) -> int {
    0x1004 + 0x10 * id
}

/// Byte offset of the attribute register of interrupt `id`.
pub open spec fn intattr_offset(id: int) -> int {
    0x1008 + 0x10 * id
}

/// Byte offset of the control (level and priority) register of interrupt `id`.
pub open spec fn intctl_offset(id: int) -> int {
    0x100c + 0x10 * id
}

/// The pending register offset of interrupt `id`; ids range below the
/// interrupt count that the information register can report.
#[allow(non_snake_case)]
pub fn CLICINTIP_REG_OFFSET(id: u32) -> (r: isize)
    requires
        id < CLICINFO_NUM_INTERRUPT_MASK,
    ensures
        r == intip_offset(id as int),
{
    (0x1000 + 0x10 * id) as isize
}

/// The enable register offset of interrupt `id`.
#[allow(non_snake_case)]
pub fn CLICINTIE_REG_OFFSET(id: u32) -> (r: isize)
    requires
        id < CLICINFO_NUM_INTERRUPT_MASK,
    ensures
        r == intie_offset(id as int),
{
    (0x1004 + 0x10 * id) as isize
}

/// The attribute register offset of interrupt `id`.
#[allow(non_snake_case)]
pub fn CLICINTATTR_REG_OFFSET(id: u32) -> (r: isize)
    requires
        id < CLICINFO_NUM_INTERRUPT_MASK,
    ensures
        r == intattr_offset(id as int),
{
    (0x1008 + 0x10 * id) as isize
}

/// The control register offset of interrupt `id`.
#[allow(non_snake_case)]
pub fn CLICINTCTL_REG_OFFSET(id: u32) -> (r: isize)
    requires
        id < CLICINFO_NUM_INTERRUPT_MASK,
    ensures
        r == intctl_offset(id as int),
{
    (0x100c + 0x10 * id) as isize
}

/// The offset of register `kind` (0: pending, 1: enable, 2: attribute,
/// 3: control) of interrupt `id`.
pub open spec fn int_reg_offset(kind: int, id: int) -> int {
    0x1000 + 0x10 * id + 4 * kind
}

/// Per-interrupt register offsets grow strictly with the interrupt id, every
/// interrupt's registers lie in its own block, and no register of one
/// interrupt shares an offset with any register of another.
pub proof fn lemma_offsets_increasing_disjoint(i: int, j: int, count: int)
    requires
        0 <= i < j < count,
    ensures
        intip_offset(i) < intip_offset(j),
        intie_offset(i) < intie_offset(j),
        intattr_offset(i) < intattr_offset(j),
        intctl_offset(i) < intctl_offset(j),
        intip_offset(i) == int_reg_offset(0, i),
        intie_offset(i) == int_reg_offset(1, i),
        intattr_offset(i) == int_reg_offset(2, i),
        intctl_offset(i) == int_reg_offset(3, i),
        forall|a: int, b: int|
            0 <= a < 4 && 0 <= b < 4 ==> #[trigger] int_reg_offset(a, i) < #[trigger] int_reg_offset(
                b,
                j,
            ),
{
}

/// Every field descriptor of the controller layout is well formed, so the
/// write-then-read law of `lemma_mapper_write_read` and
/// `lemma_mapper_write_read_byte` holds for each of them.
pub proof fn lemma_layout_fields_wf()
    ensures
        field_wf8(CLICCFG_NVBITS_MASK, CLICCFG_NVBITS_OFFSET),
        field_wf8(CLICCFG_NLBITS_MASK, CLICCFG_NLBITS_OFFSET),
        field_wf8(CLICCFG_NMBITS_MASK, CLICCFG_NMBITS_OFFSET),
        field_wf32(CLICINFO_NUM_INTERRUPT_MASK, CLICINFO_NUM_INTERRUPT_OFFSET),
        field_wf32(CLICINFO_VERSION_MASK, CLICINFO_VERSION_OFFSET),
        field_wf32(CLICINFO_CLICINTCTLBITS_MASK, CLICINFO_CLICINTCTLBITS_OFFSET),
        field_wf32(CLICINFO_NUM_TRIGGER_MASK, CLICINFO_NUM_TRIGGER_OFFSET),
        field_wf8(CLICINTIP_CLICINTIP_MASK, CLICINTIP_CLICINTIP_BIT),
        field_wf8(CLICINTIE_CLICINTIE_MASK, CLICINTIE_CLICINTIE_BIT),
        field_wf8(CLICINTATTR_SHV_MASK, CLICINTATTR_SHV_BIT),
        field_wf8(CLICINTATTR_TRIG_MASK, CLICINTATTR_TRIG_OFFSET),
        field_wf8(CLICINTATTR_MODE_MASK, CLICINTATTR_MODE_OFFSET),
        field_wf8(CLICINTCTL_CLICINTCTL_MASK, CLICINTCTL_CLICINTCTL_OFFSET),
{
    assert(field_wf8(0x1, 0)) by (bit_vector);
    assert(field_wf8(0x1E, 1)) by (bit_vector);
    assert(field_wf8(0x60, 5)) by (bit_vector);
    assert(field_wf32(0x1FFF, 0)) by (bit_vector);
    assert(field_wf32(0x1FE000, 13)) by (bit_vector);
    assert(field_wf32(0x1E00000, 21)) by (bit_vector);
    assert(field_wf32(0x7E000000, 25)) by (bit_vector);
    assert(field_wf8(0x6, 1)) by (bit_vector);
    assert(field_wf8(0xC0, 6)) by (bit_vector);
    assert(field_wf8(0xFF, 0)) by (bit_vector);
}

} // verus!
