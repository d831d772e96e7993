//! The interrupt controller seen through its register window: per-interrupt
//! pending, enable, attribute and control registers, and the hardware's
//! "claim the next pending interrupt" operation that the fast dispatch loop
//! repeats until nothing is left.

use vstd::prelude::*;
use crate::clic::{
    intattr_offset, intctl_offset, intie_offset, intip_offset, word_at, MemoryMapper,
    CLICCFG_NLBITS_MASK, CLICCFG_NLBITS_OFFSET, CLICCFG_NMBITS_MASK, CLICCFG_NMBITS_OFFSET,
    CLICCFG_NVBITS_MASK, CLICCFG_NVBITS_OFFSET, CLICCFG_REG_OFFSET, CLICINFO_CLICINTCTLBITS_MASK,
    CLICINFO_CLICINTCTLBITS_OFFSET, CLICINFO_NUM_INTERRUPT_MASK, CLICINFO_NUM_INTERRUPT_OFFSET,
    CLICINFO_REG_OFFSET, CLICINTATTR_MODE_MASK, CLICINTATTR_MODE_OFFSET, CLICINTATTR_REG_OFFSET,
    CLICINTATTR_TRIG_MASK, CLICINTATTR_TRIG_OFFSET, CLICINTCTL_CLICINTCTL_MASK,
    CLICINTCTL_CLICINTCTL_OFFSET, CLICINTCTL_REG_OFFSET, CLICINTIE_CLICINTIE_BIT,
    CLICINTIE_CLICINTIE_MASK, CLICINTIE_REG_OFFSET, CLICINTIP_CLICINTIP_BIT,
    CLICINTIP_CLICINTIP_MASK, CLICINTIP_REG_OFFSET,
};
use crate::field::{field_get32, field_get8, field_set8};

verus! {

/// The interrupt count that the information register of `s` reports.
pub open spec fn num_interrupts_of(s: Seq<u8>) -> u32 {
    field_get32(word_at(s, 4), CLICINFO_NUM_INTERRUPT_MASK, CLICINFO_NUM_INTERRUPT_OFFSET)
}

/// The window holds the information register and the register block of
/// every interrupt that it reports.
pub open spec fn clic_wf(s: Seq<u8>) -> bool {
    &&& s.len() >= 8
    &&& s.len() >= intip_offset(num_interrupts_of(s) as int)
}

/// The lowest bit of the byte register value `b` is set.
pub open spec fn low_bit(b: u8) -> bool {
    field_get8(b, 1, 0) == 1
}

/// Interrupt `id` is pending.
pub open spec fn pending_of(s: Seq<u8>, id: int) -> bool {
    low_bit(s[intip_offset(id)])
}

/// Interrupt `id` is enabled.
pub open spec fn enabled_of(s: Seq<u8>, id: int) -> bool {
    low_bit(s[intie_offset(id)])
}

/// The control (level and priority) value of interrupt `id`.
pub open spec fn level_of(s: Seq<u8>, id: int) -> u8 {
    s[intctl_offset(id)]
}

/// Interrupt `id` exists, is pending and is enabled: the controller would
/// deliver it.
pub open spec fn claimable(s: Seq<u8>, id: int) -> bool {
    &&& 0 <= id < num_interrupts_of(s)
    &&& pending_of(s, id)
    &&& enabled_of(s, id)
}

/// Interrupt `j` does not outrank interrupt `i`: a lower control value, or
/// an equal one and an id no higher.
pub open spec fn outranked_by(s: Seq<u8>, j: int, i: int) -> bool {
    level_of(s, j) < level_of(s, i) || (level_of(s, j) == level_of(s, i) && j <= i)
}

/// Byte offset `o` is the pending register of an interrupt listed in `ids`.
pub open spec fn is_pending_reg_in(o: int, ids: Seq<u32>) -> bool {
    &&& o >= 0x1000
    &&& (o - 0x1000) % 0x10 == 0
    &&& (o - 0x1000) / 0x10 <= u32::MAX
    &&& ids.contains(((o - 0x1000) / 0x10) as u32)
}

/// `s` with the pending bit of each interrupt listed in `ids` cleared.
pub open spec fn with_pending_cleared(s: Seq<u8>, ids: Seq<u32>) -> Seq<u8> {
    Seq::new(
        s.len(),
        |o: int|
            if is_pending_reg_in(o, ids) {
                field_set8(s[o], 1, 0, 0)
            } else {
                s[o]
            },
    )
}

/// How many of the interrupts with id below `k` the controller would deliver.
pub open spec fn count_claimable(s: Seq<u8>, k: int) -> nat
    decreases k,
{
    if k <= 0 {
        0
    } else {
        count_claimable(s, k - 1) + if claimable(s, k - 1) {
            1nat
        } else {
            0nat
        }
    }
}

/// `s` after the controller hands out interrupt `id` and clears its pending bit.
pub open spec fn after_claim(s: Seq<u8>, id: int) -> Seq<u8> {
    s.update(intip_offset(id), field_set8(s[intip_offset(id)], 1, 0, 0))
}

proof fn lemma_count_bound(w: u32)
    ensures
        field_get32(w, CLICINFO_NUM_INTERRUPT_MASK, CLICINFO_NUM_INTERRUPT_OFFSET) <= 0x1FFF,
{
    assert((w & 0x1FFFu32) >> 0u32 <= 0x1FFF) by (bit_vector);
}

proof fn lemma_low_bit_set(b: u8, v: bool)
    ensures
        low_bit(field_set8(b, 1, 0, if v { 1u8 } else { 0u8 })) == v,
        field_set8(b, 1, 0, if v { 1u8 } else { 0u8 }) & !1u8 == b & !1u8,
{
    assert(((((b & !1u8) | ((1u8 << 0u8) & 1u8)) & 1u8) >> 0u8 == 1u8)) by (bit_vector);
    assert(((((b & !1u8) | ((0u8 << 0u8) & 1u8)) & 1u8) >> 0u8 == 0u8)) by (bit_vector);
    assert(((b & !1u8) | ((1u8 << 0u8) & 1u8)) & !1u8 == b & !1u8) by (bit_vector);
    assert(((b & !1u8) | ((0u8 << 0u8) & 1u8)) & !1u8 == b & !1u8) by (bit_vector);
}

proof fn lemma_after_claim(s: Seq<u8>, id: int)
    requires
        clic_wf(s),
        0 <= id < num_interrupts_of(s),
    ensures
        after_claim(s, id).len() == s.len(),
        num_interrupts_of(after_claim(s, id)) == num_interrupts_of(s),
        clic_wf(after_claim(s, id)),
        !claimable(after_claim(s, id), id),
        forall|j: int| j != id ==> claimable(after_claim(s, id), j) == claimable(s, j),
        forall|j: int| 0 <= j < num_interrupts_of(s) ==> level_of(after_claim(s, id), j) == level_of(s, j),
{
    let t = after_claim(s, id);
    lemma_low_bit_set(s[intip_offset(id)], false);
    assert(word_at(t, 4) == word_at(s, 4));
    assert forall|j: int| j != id implies claimable(t, j) == claimable(s, j) by {
        if 0 <= j < num_interrupts_of(s) {
            assert(intip_offset(j) != intip_offset(id));
            assert(intie_offset(j) != intip_offset(id));
        }
    }
}

proof fn lemma_count_after_claim(s: Seq<u8>, id: int, k: int)
    requires
        clic_wf(s),
        claimable(s, id),
        0 <= k,
    ensures
        count_claimable(after_claim(s, id), k) + (if id < k { 1nat } else { 0nat }) == count_claimable(s, k),
    decreases k,
{
    lemma_after_claim(s, id);
    if k > 0 {
        lemma_count_after_claim(s, id, k - 1);
    }
}

proof fn lemma_count_none(s: Seq<u8>, k: int)
    requires
        forall|j: int| 0 <= j < k ==> !claimable(s, j),
    ensures
        count_claimable(s, k) == 0,
    decreases k,
{
    if k > 0 {
        lemma_count_none(s, k - 1);
    }
}

/// A controller register window together with its layout.
pub struct Clic {
    mapper: MemoryMapper,
}

impl View for Clic {
    type V = Seq<u8>;

    closed spec fn view(&self) -> Seq<u8> {
        self.mapper@
    }
}

impl Clic {
    /// Takes a register window as a controller; refuses, and hands back, a
    /// window too small for the interrupt count that it reports.
    pub fn new(mapper: MemoryMapper) -> (r: Result<Clic, MemoryMapper>)
        ensures
            mapper@.len() >= 8 ==> (r is Ok <==> clic_wf(mapper@)),
            mapper@.len() < 8 ==> r is Err,
            r matches Ok(c) ==> c@ == mapper@,
            r matches Err(m) ==> m == mapper,
    {
        if mapper.size() < 8 {
            return Err(mapper);
        }
        let n = mapper.read(CLICINFO_REG_OFFSET, CLICINFO_NUM_INTERRUPT_MASK, CLICINFO_NUM_INTERRUPT_OFFSET);
        proof {
            lemma_count_bound(word_at(mapper@, 4));
        }
        if mapper.size() >= 0x1000 + 0x10 * (n as usize) {
            Ok(Clic { mapper })
        } else {
            Err(mapper)
        }
    }

    /// Gives back the register window.
    pub fn into_mapper(self) -> (r: MemoryMapper)
        ensures
            r@ == self@,
    {
        self.mapper
    }

    /// The number of interrupts that the controller reports.
    pub fn num_interrupts(&self) -> (r: u32)
        requires
            clic_wf(self@),
        ensures
            r == num_interrupts_of(self@),
            r <= 0x1FFF,
    {
        let n = self.mapper.read(CLICINFO_REG_OFFSET, CLICINFO_NUM_INTERRUPT_MASK, CLICINFO_NUM_INTERRUPT_OFFSET);
        proof {
            lemma_count_bound(word_at(self@, 4));
        }
        n
    }

    /// Width in bits of the per-interrupt control field that the hardware
    /// implements.
    pub fn intctl_bits(&self) -> (r: u32)
        requires
            clic_wf(self@),
        ensures
            r == field_get32(word_at(self@, 4), CLICINFO_CLICINTCTLBITS_MASK, CLICINFO_CLICINTCTLBITS_OFFSET),
    {
        self.mapper.read(CLICINFO_REG_OFFSET, CLICINFO_CLICINTCTLBITS_MASK, CLICINFO_CLICINTCTLBITS_OFFSET)
    }

    /// The selective-vectoring bit of the configuration register.
    pub fn vectoring_bits(&self) -> (r: u8)
        requires
            clic_wf(self@),
        ensures
            r == field_get8(self@[0], CLICCFG_NVBITS_MASK, CLICCFG_NVBITS_OFFSET),
    {
        self.mapper.read_byte(CLICCFG_REG_OFFSET, CLICCFG_NVBITS_MASK, CLICCFG_NVBITS_OFFSET)
    }

    /// The number of level bits of the configuration register.
    pub fn level_bits(&self) -> (r: u8)
        requires
            clic_wf(self@),
        ensures
            r == field_get8(self@[0], CLICCFG_NLBITS_MASK, CLICCFG_NLBITS_OFFSET),
    {
        self.mapper.read_byte(CLICCFG_REG_OFFSET, CLICCFG_NLBITS_MASK, CLICCFG_NLBITS_OFFSET)
    }

    /// The number of privilege-mode bits of the configuration register.
    pub fn mode_bits(&self) -> (r: u8)
        requires
            clic_wf(self@),
        ensures
            r == field_get8(self@[0], CLICCFG_NMBITS_MASK, CLICCFG_NMBITS_OFFSET),
    {
        self.mapper.read_byte(CLICCFG_REG_OFFSET, CLICCFG_NMBITS_MASK, CLICCFG_NMBITS_OFFSET)
    }

    /// Whether interrupt `id` is pending.
    pub fn is_pending(&self, id: u32) -> (r: bool)
        requires
            clic_wf(self@),
            id < num_interrupts_of(self@),
        ensures
            r == pending_of(self@, id as int),
    {
        proof {
            lemma_count_bound(word_at(self@, 4));
        }
        let off = CLICINTIP_REG_OFFSET(id);
        self.mapper.read_byte(off, CLICINTIP_CLICINTIP_MASK, CLICINTIP_CLICINTIP_BIT) == 1
    }

    /// Whether interrupt `id` is enabled.
    pub fn is_enabled(&self, id: u32) -> (r: bool)
        requires
            clic_wf(self@),
            id < num_interrupts_of(self@),
        ensures
            r == enabled_of(self@, id as int),
    {
        proof {
            lemma_count_bound(word_at(self@, 4));
        }
        let off = CLICINTIE_REG_OFFSET(id);
        self.mapper.read_byte(off, CLICINTIE_CLICINTIE_MASK, CLICINTIE_CLICINTIE_BIT) == 1
    }

    /// The control (level and priority) value of interrupt `id`.
    pub fn level(&self, id: u32) -> (r: u8)
        requires
            clic_wf(self@),
            id < num_interrupts_of(self@),
        ensures
            r == level_of(self@, id as int),
    {
        proof {
            lemma_count_bound(word_at(self@, 4));
        }
        let off = CLICINTCTL_REG_OFFSET(id);
        let r = self.mapper.read_byte(off, CLICINTCTL_CLICINTCTL_MASK, CLICINTCTL_CLICINTCTL_OFFSET);
        proof {
            let b = self@[intctl_offset(id as int)];
            assert((b & 0xFFu8) >> 0u8 == b) by (bit_vector);
        }
        r
    }

    /// Sets or clears the pending bit of interrupt `id`, leaving the rest of
    /// the window as it was.
    pub fn set_pending(&mut self, id: u32, pending: bool)
        requires
            clic_wf(old(self)@),
            id < num_interrupts_of(old(self)@),
        ensures
            final(self)@ == old(self)@.update(
                intip_offset(id as int),
                field_set8(old(self)@[intip_offset(id as int)], 1, 0, if pending { 1u8 } else { 0u8 }),
            ),
            pending_of(final(self)@, id as int) == pending,
            clic_wf(final(self)@),
            num_interrupts_of(final(self)@) == num_interrupts_of(old(self)@),
    {
        proof {
            lemma_count_bound(word_at(self@, 4));
        }
        let off = CLICINTIP_REG_OFFSET(id);
        let v: u8 = if pending { 1 } else { 0 };
        self.mapper.write_byte(off, CLICINTIP_CLICINTIP_MASK, CLICINTIP_CLICINTIP_BIT, v);
        proof {
            lemma_low_bit_set(old(self)@[intip_offset(id as int)], pending);
            assert(word_at(self@, 4) == word_at(old(self)@, 4));
        }
    }

    /// Sets or clears the enable bit of interrupt `id`, leaving the rest of
    /// the window as it was.
    pub fn set_enabled(&mut self, id: u32, enabled: bool)
        requires
            clic_wf(old(self)@),
            id < num_interrupts_of(old(self)@),
        ensures
            final(self)@ == old(self)@.update(
                intie_offset(id as int),
                field_set8(old(self)@[intie_offset(id as int)], 1, 0, if enabled { 1u8 } else { 0u8 }),
            ),
            enabled_of(final(self)@, id as int) == enabled,
            clic_wf(final(self)@),
            num_interrupts_of(final(self)@) == num_interrupts_of(old(self)@),
    {
        proof {
            lemma_count_bound(word_at(self@, 4));
        }
        let off = CLICINTIE_REG_OFFSET(id);
        let v: u8 = if enabled { 1 } else { 0 };
        self.mapper.write_byte(off, CLICINTIE_CLICINTIE_MASK, CLICINTIE_CLICINTIE_BIT, v);
        proof {
            lemma_low_bit_set(old(self)@[intie_offset(id as int)], enabled);
            assert(word_at(self@, 4) == word_at(old(self)@, 4));
        }
    }

    /// Writes the trigger field (edge or level, and polarity) of interrupt
    /// `id`'s attribute register.
    pub fn set_trigger(&mut self, id: u32, trigger: u8)
        requires
            clic_wf(old(self)@),
            id < num_interrupts_of(old(self)@),
        ensures
            final(self)@ == old(self)@.update(
                intattr_offset(id as int),
                field_set8(old(self)@[intattr_offset(id as int)], CLICINTATTR_TRIG_MASK, CLICINTATTR_TRIG_OFFSET, trigger),
            ),
            clic_wf(final(self)@),
            num_interrupts_of(final(self)@) == num_interrupts_of(old(self)@),
    {
        proof {
            lemma_count_bound(word_at(self@, 4));
        }
        let off = CLICINTATTR_REG_OFFSET(id);
        self.mapper.write_byte(off, CLICINTATTR_TRIG_MASK, CLICINTATTR_TRIG_OFFSET, trigger);
        proof {
            assert(word_at(self@, 4) == word_at(old(self)@, 4));
        }
    }

    /// Writes the privilege-mode field of interrupt `id`'s attribute register.
    pub fn set_mode(&mut self, id: u32, mode: u8)
        requires
            clic_wf(old(self)@),
            id < num_interrupts_of(old(self)@),
        ensures
            final(self)@ == old(self)@.update(
                intattr_offset(id as int),
                field_set8(old(self)@[intattr_offset(id as int)], CLICINTATTR_MODE_MASK, CLICINTATTR_MODE_OFFSET, mode),
            ),
            clic_wf(final(self)@),
            num_interrupts_of(final(self)@) == num_interrupts_of(old(self)@),
    {
        proof {
            lemma_count_bound(word_at(self@, 4));
        }
        let off = CLICINTATTR_REG_OFFSET(id);
        self.mapper.write_byte(off, CLICINTATTR_MODE_MASK, CLICINTATTR_MODE_OFFSET, mode);
        proof {
            assert(word_at(self@, 4) == word_at(old(self)@, 4));
        }
    }

    /// Writes the control (level and priority) value of interrupt `id`.
    pub fn set_level(&mut self, id: u32, level: u8)
        requires
            clic_wf(old(self)@),
            id < num_interrupts_of(old(self)@),
        ensures
            final(self)@ == old(self)@.update(intctl_offset(id as int), level),
            clic_wf(final(self)@),
            num_interrupts_of(final(self)@) == num_interrupts_of(old(self)@),
    {
        proof {
            lemma_count_bound(word_at(self@, 4));
        }
        let off = CLICINTCTL_REG_OFFSET(id);
        self.mapper.write_byte(off, CLICINTCTL_CLICINTCTL_MASK, CLICINTCTL_CLICINTCTL_OFFSET, level);
        proof {
            let b = old(self)@[intctl_offset(id as int)];
            assert((b & !0xFFu8) | ((level << 0u8) & 0xFFu8) == level) by (bit_vector);
            assert(self@ =~= old(self)@.update(intctl_offset(id as int), level));
            assert(word_at(self@, 4) == word_at(old(self)@, 4));
        }
    }

    /// The controller's next-pending-interrupt operation: hands out the
    /// pending and enabled interrupt of highest control value (the higher id
    /// among equals) and clears its pending bit; `None` when no interrupt is
    /// pending and enabled, with the window unchanged.
    pub fn claim_next(&mut self) -> (r: Option<u32>)
        requires
            clic_wf(old(self)@),
        ensures
            r is None ==> final(self)@ == old(self)@ && forall|j: int| !claimable(old(self)@, j),
            r matches Some(id) ==> {
                &&& claimable(old(self)@, id as int)
                &&& forall|j: int| claimable(old(self)@, j) ==> outranked_by(old(self)@, j, id as int)
                &&& final(self)@ == after_claim(old(self)@, id as int)
            },
            clic_wf(final(self)@),
            num_interrupts_of(final(self)@) == num_interrupts_of(old(self)@),
    {
        let n = self.num_interrupts();
        let mut best: Option<u32> = None;
        let mut i: u32 = 0;
        while i < n
            invariant
                self@ == old(self)@,
                clic_wf(self@),
                n == num_interrupts_of(self@),
                i <= n,
                best matches Some(b) ==> {
                    &&& b < i
                    &&& claimable(self@, b as int)
                    &&& forall|j: int| j < i && claimable(self@, j) ==> outranked_by(self@, j, b as int)
                },
                best is None ==> forall|j: int| j < i ==> !claimable(self@, j),
            decreases n - i,
        {
            if self.is_pending(i) && self.is_enabled(i) {
                match best {
                    None => {
                        best = Some(i);
                    },
                    Some(b) => {
                        if self.level(i) >= self.level(b) {
                            best = Some(i);
                        }
                    },
                }
            }
            i = i + 1;
        }
        match best {
            None => None,
            Some(b) => {
                self.set_pending(b, false);
                proof {
                    lemma_after_claim(old(self)@, b as int);
                }
                Some(b)
            },
        }
    }

    /// The fast dispatch loop: claims interrupts until the controller has
    /// none left, and returns the ids in the order they were handed out.
    /// Every interrupt that was pending and enabled on entry is handed out
    /// exactly once, highest ranked first, and only its pending bit is
    /// cleared.
    pub fn service_pending(&mut self) -> (r: Vec<u32>)
        requires
            clic_wf(old(self)@),
        ensures
            r@.len() == count_claimable(old(self)@, num_interrupts_of(old(self)@) as int),
            r@.no_duplicates(),
            forall|id: u32| r@.contains(id) <==> claimable(old(self)@, id as int),
            forall|k: int, l: int|
                0 <= k < l < r@.len() ==> outranked_by(old(self)@, r@[l] as int, r@[k] as int),
            final(self)@ == with_pending_cleared(old(self)@, r@),
            forall|j: int| !claimable(final(self)@, j),
            clic_wf(final(self)@),
            num_interrupts_of(final(self)@) == num_interrupts_of(old(self)@),
    {
        let ghost s0 = self@;
        let ghost n = num_interrupts_of(s0) as int;
        let mut serviced: Vec<u32> = Vec::new();
        proof {
            assert(self@ =~= with_pending_cleared(s0, serviced@));
        }
        loop
            invariant
                clic_wf(self@),
                num_interrupts_of(self@) == n,
                self@ == with_pending_cleared(s0, serviced@),
                serviced@.no_duplicates(),
                forall|id: u32| serviced@.contains(id) ==> claimable(s0, id as int),
                forall|j: int| #[trigger] claimable(self@, j) <==> (claimable(s0, j) && !serviced@.contains(j as u32)),
                forall|j: int| 0 <= j < n ==> level_of(self@, j) == level_of(s0, j),
                serviced@.len() + count_claimable(self@, n) == count_claimable(s0, n),
                forall|k: int, l: int|
                    0 <= k < l < serviced@.len() ==> outranked_by(s0, serviced@[l] as int, serviced@[k] as int),
                forall|k: int, j: int|
                    0 <= k < serviced@.len() && claimable(self@, j) ==> outranked_by(s0, j, serviced@[k] as int),
            ensures
                forall|j: int| !claimable(self@, j),
                count_claimable(self@, n) == 0,
            decreases count_claimable(self@, n),
        {
            let ghost before = self@;
            match self.claim_next() {
                None => {
                    proof {
                        lemma_count_none(before, n);
                    }
                    break;
                },
                Some(id) => {
                    proof {
                        assert(claimable(before, id as int));
                        assert((id as int) as u32 == id);
                        assert(!serviced@.contains(id));
                        lemma_after_claim(before, id as int);
                        lemma_count_after_claim(before, id as int, n);
                    }
                    let ghost old_serviced = serviced@;
                    serviced.push(id);
                    proof {
                        assert forall|x: u32| serviced@.contains(x) == (old_serviced.contains(x) || x == id) by {
                            if old_serviced.contains(x) {
                                let k = choose|k: int| 0 <= k < old_serviced.len() && old_serviced[k] == x;
                                assert(serviced@[k] == x);
                            }
                            if x == id {
                                assert(serviced@[old_serviced.len() as int] == x);
                            }
                            if serviced@.contains(x) {
                                let k = choose|k: int| 0 <= k < serviced@.len() && serviced@[k] == x;
                                if k < old_serviced.len() {
                                    assert(old_serviced[k] == x);
                                }
                            }
                        }
                        assert forall|j: int| #[trigger] claimable(self@, j) <==> (claimable(s0, j) && !serviced@.contains(j as u32)) by {
                            if j != id as int && 0 <= j < n {
                                assert(claimable(self@, j) == claimable(before, j));
                                assert(j as u32 != id);
                            }
                        }
                        assert forall|k: int, j: int|
                            0 <= k < serviced@.len() && claimable(self@, j) implies outranked_by(s0, j, serviced@[k] as int) by {
                            assert(claimable(before, j));
                            if k == old_serviced.len() {
                                assert(outranked_by(before, j, id as int));
                                assert(level_of(before, j) == level_of(s0, j));
                                assert(level_of(before, id as int) == level_of(s0, id as int));
                            } else {
                                assert(serviced@[k] == old_serviced[k]);
                            }
                        }
                        assert(intip_offset(id as int) - 0x1000 == 0x10 * id);
                        assert(self@ =~= with_pending_cleared(s0, serviced@)) by {
                            assert forall|o: int| 0 <= o < self@.len() implies self@[o] == with_pending_cleared(s0, serviced@)[o] by {
                                if o == intip_offset(id as int) {
                                    assert((o - 0x1000) % 0x10 == 0);
                                    assert((o - 0x1000) / 0x10 == id);
                                    assert(!old_serviced.contains(id));
                                    assert(!is_pending_reg_in(o, old_serviced));
                                } else {
                                    if o >= 0x1000 && (o - 0x1000) % 0x10 == 0 && (o - 0x1000) / 0x10 <= u32::MAX {
                                        assert(((o - 0x1000) / 0x10) as u32 != id);
                                    }
                                }
                            }
                        }
                    }
                },
            }
        }
        proof {
            assert forall|id: u32| claimable(s0, id as int) implies serviced@.contains(id) by {
                assert(!claimable(self@, id as int));
            }
        }
        serviced
    }
}

} // verus!
