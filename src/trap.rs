//! Trap classification and the static-table dispatch path, with the layout
//! of the register frame that the trap trampolines save and restore.

use vstd::prelude::*;

verus! {

/// The caller-saved registers as they stood when the trap was taken.
#[derive(Clone, Copy, Debug, PartialEq, Eq, Structural)]
pub struct TrapFrame {
    pub ra: usize,
    pub t0: usize,
    pub t1: usize,
    pub t2: usize,
    pub t3: usize,
    pub t4: usize,
    pub t5: usize,
    pub t6: usize,
    pub a0: usize,
    pub a1: usize,
    pub a2: usize,
    pub a3: usize,
    pub a4: usize,
    pub a5: usize,
    pub a6: usize,
    pub a7: usize,
}

/// The core interrupt causes, each with its slot in the vector table.
#[derive(Clone, Copy, Debug, PartialEq, Eq, Structural)]
pub enum Interrupt {
    UserSoft,
    SupervisorSoft,
    MachineSoft,
    UserTimer,
    SupervisorTimer,
    MachineTimer,
    UserExternal,
    SupervisorExternal,
    MachineExternal,
}

/// Number of slots of the core interrupt vector table.
pub const CORE_VECTOR_SLOTS: usize = 12;

impl Interrupt {
    /// The cause code, which is also the vector table slot.
    pub open spec fn code_spec(self) -> usize {
        match self {
            Interrupt::UserSoft => 0,
            Interrupt::SupervisorSoft => 1,
            Interrupt::MachineSoft => 3,
            Interrupt::UserTimer => 4,
            Interrupt::SupervisorTimer => 5,
            Interrupt::MachineTimer => 7,
            Interrupt::UserExternal => 8,
            Interrupt::SupervisorExternal => 9,
            Interrupt::MachineExternal => 11,
        }
    }

    /// The cause code of this interrupt.
    pub fn code(self) -> (r: usize)
        ensures
            r == self.code_spec(),
    {
        match self {
            Interrupt::UserSoft => 0,
            Interrupt::SupervisorSoft => 1,
            Interrupt::MachineSoft => 3,
            Interrupt::UserTimer => 4,
            Interrupt::SupervisorTimer => 5,
            Interrupt::MachineTimer => 7,
            Interrupt::UserExternal => 8,
            Interrupt::SupervisorExternal => 9,
            Interrupt::MachineExternal => 11,
        }
    }

    /// The interrupt with cause code `code`; `None` for a reserved or
    /// unknown code.
    pub fn from_code(code: usize) -> (r: Option<Interrupt>)
        ensures
            r matches Some(i) ==> i.code_spec() == code,
            r is None ==> forall|i: Interrupt| i.code_spec() != code,
    {
        match code {
            0 => Some(Interrupt::UserSoft),
            1 => Some(Interrupt::SupervisorSoft),
            3 => Some(Interrupt::MachineSoft),
            4 => Some(Interrupt::UserTimer),
            5 => Some(Interrupt::SupervisorTimer),
            7 => Some(Interrupt::MachineTimer),
            8 => Some(Interrupt::UserExternal),
            9 => Some(Interrupt::SupervisorExternal),
            11 => Some(Interrupt::MachineExternal),
            _ => None,
        }
    }
}

/// A vector table slot: a registered handler, or nothing.
#[derive(Debug)]
pub enum Vector<H> {
    Handler(H),
    Reserved,
}

/// Builds the core interrupt vector table; `handlers` lists one handler per
/// interrupt in the order of `Interrupt`'s variants.
pub fn core_vector_table<H: Copy>(handlers: &[H]) -> (r: Vec<Vector<H>>)
    requires
        handlers@.len() == 9,
    ensures
        r@.len() == CORE_VECTOR_SLOTS,
        r@[2] is Reserved,
        r@[6] is Reserved,
        r@[10] is Reserved,
        r@[0] == Vector::Handler(handlers@[0]),
        r@[1] == Vector::Handler(handlers@[1]),
        r@[3] == Vector::Handler(handlers@[2]),
        r@[4] == Vector::Handler(handlers@[3]),
        r@[5] == Vector::Handler(handlers@[4]),
        r@[7] == Vector::Handler(handlers@[5]),
        r@[8] == Vector::Handler(handlers@[6]),
        r@[9] == Vector::Handler(handlers@[7]),
        r@[11] == Vector::Handler(handlers@[8]),
{
    let mut r: Vec<Vector<H>> = Vec::new();
    r.push(Vector::Handler(handlers[0]));
    r.push(Vector::Handler(handlers[1]));
    r.push(Vector::Reserved);
    r.push(Vector::Handler(handlers[2]));
    r.push(Vector::Handler(handlers[3]));
    r.push(Vector::Handler(handlers[4]));
    r.push(Vector::Reserved);
    r.push(Vector::Handler(handlers[5]));
    r.push(Vector::Handler(handlers[6]));
    r.push(Vector::Handler(handlers[7]));
    r.push(Vector::Reserved);
    r.push(Vector::Handler(handlers[8]));
    r
}

/// Half the range of `usize`: the value of the cause register's top bit.
pub open spec fn cause_top_bit() -> int {
    (usize::MAX as int + 1) / 2
}

/// The cause register split into its interrupt flag (the top bit) and its
/// code (the remaining bits).
#[derive(Clone, Copy, Debug, PartialEq, Eq, Structural)]
pub struct TrapCause {
    pub is_interrupt: bool,
    pub code: usize,
}

/// Splits the raw cause register value into its interrupt flag and code.
pub fn decode_cause(bits: usize) -> (r: TrapCause)
    ensures
        r.is_interrupt == (bits >= cause_top_bit()),
        r.code == bits as int % cause_top_bit(),
{
    let top: usize = usize::MAX - usize::MAX / 2;
    proof {
        assert(usize::MAX == 0xffff_ffff || usize::MAX == 0xffff_ffff_ffff_ffff);
        assert(top == cause_top_bit());
        if usize::MAX == 0xffff_ffff {
            assert(top == 0x8000_0000);
        } else {
            assert(top == 0x8000_0000_0000_0000);
        }
    }
    if bits >= top {
        TrapCause { is_interrupt: true, code: bits - top }
    } else {
        TrapCause { is_interrupt: false, code: bits }
    }
}

/// Where a trap goes: exactly one of the exception handler, a registered
/// interrupt handler, or the default handler.
#[derive(Debug)]
pub enum TrapTarget<H> {
    Exception,
    Interrupt(H),
    Default,
}

/// The static-table dispatch decision for a trap with the raw cause value
/// `cause_bits`: exceptions go to the exception handler; an interrupt goes to
/// the handler in its slot when the slot exists and holds one, and to the
/// default handler otherwise.
pub fn dispatch_trap<H: Copy>(cause_bits: usize, table: &[Vector<H>]) -> (r: TrapTarget<H>)
    ensures
        cause_bits < cause_top_bit() <==> r is Exception,
        cause_bits >= cause_top_bit() ==> {
            let code = cause_bits as int % cause_top_bit();
            if code < table@.len() && table@[code] is Handler {
                r == TrapTarget::Interrupt(table@[code]->Handler_0)
            } else {
                r is Default
            }
        },
{
    let cause = decode_cause(cause_bits);
    if !cause.is_interrupt {
        TrapTarget::Exception
    } else if cause.code < table.len() {
        match table[cause.code] {
            Vector::Handler(h) => TrapTarget::Interrupt(h),
            Vector::Reserved => TrapTarget::Default,
        }
    } else {
        TrapTarget::Default
    }
}

/// The dispatch decision at the common trap entry when the vectored
/// interrupt controller is in charge: the controller sends each interrupt
/// to its own vector, so exceptions go to the exception handler and any
/// interrupt that arrives here goes to the default handler.
pub fn dispatch_trap_vectored<H>(cause_bits: usize) -> (r: TrapTarget<H>)
    ensures
        cause_bits < cause_top_bit() <==> r is Exception,
        cause_bits >= cause_top_bit() ==> r is Default,
{
    let cause = decode_cause(cause_bits);
    if !cause.is_interrupt {
        TrapTarget::Exception
    } else {
        TrapTarget::Default
    }
}

/// A word of the frame that the trap trampolines push on entry, in the
/// order in which they are saved.
#[derive(Clone, Copy, Debug, PartialEq, Eq, Structural)]
pub enum FrameSlot {
    Ra,
    T0,
    T1,
    T2,
    A0,
    A1,
    A2,
    A3,
    A4,
    A5,
    A6,
    A7,
    T3,
    T4,
    T5,
    T6,
    Cause,
    Epc,
}

/// Number of words that the trampolines save.
pub const FRAME_SLOTS: usize = 18;

/// Bytes by which the trampolines move the stack pointer, once on entry
/// and once back on exit.
pub const FRAME_BYTES: usize = 128;

/// Bytes per saved word.
pub const FRAME_WORD_BYTES: usize = 4;

impl FrameSlot {
    /// Position of the slot in save order.
    pub open spec fn index_spec(self) -> int {
        match self {
            FrameSlot::Ra => 0,
            FrameSlot::T0 => 1,
            FrameSlot::T1 => 2,
            FrameSlot::T2 => 3,
            FrameSlot::A0 => 4,
            FrameSlot::A1 => 5,
            FrameSlot::A2 => 6,
            FrameSlot::A3 => 7,
            FrameSlot::A4 => 8,
            FrameSlot::A5 => 9,
            FrameSlot::A6 => 10,
            FrameSlot::A7 => 11,
            FrameSlot::T3 => 12,
            FrameSlot::T4 => 13,
            FrameSlot::T5 => 14,
            FrameSlot::T6 => 15,
            FrameSlot::Cause => 16,
            FrameSlot::Epc => 17,
        }
    }

    /// Byte offset of the slot from the stack pointer after the entry
    /// adjustment.
    pub fn byte_offset(self) -> (r: usize)
        ensures
            r == FRAME_WORD_BYTES * self.index_spec(),
            r + FRAME_WORD_BYTES <= FRAME_BYTES,
    {
        let k: usize = match self {
            FrameSlot::Ra => 0,
            FrameSlot::T0 => 1,
            FrameSlot::T1 => 2,
            FrameSlot::T2 => 3,
            FrameSlot::A0 => 4,
            FrameSlot::A1 => 5,
            FrameSlot::A2 => 6,
            FrameSlot::A3 => 7,
            FrameSlot::A4 => 8,
            FrameSlot::A5 => 9,
            FrameSlot::A6 => 10,
            FrameSlot::A7 => 11,
            FrameSlot::T3 => 12,
            FrameSlot::T4 => 13,
            FrameSlot::T5 => 14,
            FrameSlot::T6 => 15,
            FrameSlot::Cause => 16,
            FrameSlot::Epc => 17,
        };
        FRAME_WORD_BYTES * k
    }
}

/// The slots in save order.
pub open spec fn save_order_spec() -> Seq<FrameSlot> {
    seq![
        FrameSlot::Ra,
        FrameSlot::T0,
        FrameSlot::T1,
        FrameSlot::T2,
        FrameSlot::A0,
        FrameSlot::A1,
        FrameSlot::A2,
        FrameSlot::A3,
        FrameSlot::A4,
        FrameSlot::A5,
        FrameSlot::A6,
        FrameSlot::A7,
        FrameSlot::T3,
        FrameSlot::T4,
        FrameSlot::T5,
        FrameSlot::T6,
        FrameSlot::Cause,
        FrameSlot::Epc,
    ]
}

/// The order in which the trampolines save the frame.
pub fn save_order() -> (r: Vec<FrameSlot>)
    ensures
        r@ == save_order_spec(),
        forall|k: int| 0 <= k < r@.len() ==> (#[trigger] r@[k]).index_spec() == k,
{
    let r = vec![
        FrameSlot::Ra,
        FrameSlot::T0,
        FrameSlot::T1,
        FrameSlot::T2,
        FrameSlot::A0,
        FrameSlot::A1,
        FrameSlot::A2,
        FrameSlot::A3,
        FrameSlot::A4,
        FrameSlot::A5,
        FrameSlot::A6,
        FrameSlot::A7,
        FrameSlot::T3,
        FrameSlot::T4,
        FrameSlot::T5,
        FrameSlot::T6,
        FrameSlot::Cause,
        FrameSlot::Epc,
    ];
    assert(r@ =~= save_order_spec());
    r
}

/// The order in which the trampolines restore the frame: the mirror image
/// of the save order, last saved first restored.
pub fn restore_order() -> (r: Vec<FrameSlot>)
    ensures
        r@ == save_order_spec().reverse(),
{
    let order = save_order();
    let mut r: Vec<FrameSlot> = Vec::new();
    let mut i: usize = order.len();
    while i > 0
        invariant
            i <= order@.len(),
            order@ == save_order_spec(),
            r@ == order@.subrange(i as int, order@.len() as int).reverse(),
        decreases i,
    {
        i = i - 1;
        r.push(order[i]);
        assert(r@ =~= order@.subrange(i as int, order@.len() as int).reverse());
    }
    assert(order@.subrange(0, order@.len() as int) =~= order@);
    r
}

/// Everything a trap saves: the caller-saved registers and the cause and
/// return-address registers.
#[derive(Clone, Copy, Debug, PartialEq, Eq, Structural)]
pub struct SavedContext {
    pub regs: TrapFrame,
    pub cause: usize,
    pub epc: usize,
}

/// The value that `c` holds for `slot`.
pub open spec fn slot_value(c: SavedContext, slot: FrameSlot) -> usize {
    match slot {
        FrameSlot::Ra => c.regs.ra,
        FrameSlot::T0 => c.regs.t0,
        FrameSlot::T1 => c.regs.t1,
        FrameSlot::T2 => c.regs.t2,
        FrameSlot::A0 => c.regs.a0,
        FrameSlot::A1 => c.regs.a1,
        FrameSlot::A2 => c.regs.a2,
        FrameSlot::A3 => c.regs.a3,
        FrameSlot::A4 => c.regs.a4,
        FrameSlot::A5 => c.regs.a5,
        FrameSlot::A6 => c.regs.a6,
        FrameSlot::A7 => c.regs.a7,
        FrameSlot::T3 => c.regs.t3,
        FrameSlot::T4 => c.regs.t4,
        FrameSlot::T5 => c.regs.t5,
        FrameSlot::T6 => c.regs.t6,
        FrameSlot::Cause => c.cause,
        FrameSlot::Epc => c.epc,
    }
}

/// The frame words of `c`, in save order.
pub open spec fn frame_of(c: SavedContext) -> Seq<usize> {
    save_order_spec().map_values(|slot: FrameSlot| slot_value(c, slot))
}

/// The context that the frame `w` restores.
pub open spec fn context_of(w: Seq<usize>) -> SavedContext {
    SavedContext {
        regs: TrapFrame {
            ra: w[0],
            t0: w[1],
            t1: w[2],
            t2: w[3],
            a0: w[4],
            a1: w[5],
            a2: w[6],
            a3: w[7],
            a4: w[8],
            a5: w[9],
            a6: w[10],
            a7: w[11],
            t3: w[12],
            t4: w[13],
            t5: w[14],
            t6: w[15],
        },
        cause: w[16],
        epc: w[17],
    }
}

/// The frame that the trampolines push for `c`, word `k` at byte offset
/// `FRAME_WORD_BYTES * k`.
pub fn save_context(c: &SavedContext) -> (r: Vec<usize>)
    ensures
        r@ == frame_of(*c),
{
    let r = vec![
        c.regs.ra,
        c.regs.t0,
        c.regs.t1,
        c.regs.t2,
        c.regs.a0,
        c.regs.a1,
        c.regs.a2,
        c.regs.a3,
        c.regs.a4,
        c.regs.a5,
        c.regs.a6,
        c.regs.a7,
        c.regs.t3,
        c.regs.t4,
        c.regs.t5,
        c.regs.t6,
        c.cause,
        c.epc,
    ];
    assert(r@ =~= frame_of(*c));
    r
}

/// The context that a saved frame restores.
pub fn restore_context(frame: &[usize]) -> (r: SavedContext)
    requires
        frame@.len() == FRAME_SLOTS,
    ensures
        r == context_of(frame@),
{
    SavedContext {
        regs: TrapFrame {
            ra: frame[0],
            t0: frame[1],
            t1: frame[2],
            t2: frame[3],
            a0: frame[4],
            a1: frame[5],
            a2: frame[6],
            a3: frame[7],
            a4: frame[8],
            a5: frame[9],
            a6: frame[10],
            a7: frame[11],
            t3: frame[12],
            t4: frame[13],
            t5: frame[14],
            t6: frame[15],
        },
        cause: frame[16],
        epc: frame[17],
    }
}

/// Restoring the frame that a trap saved gives back exactly the registers,
/// cause and return address that stood at the trap; and a frame of the right
/// size is exactly the frame of the context it restores.
pub proof fn lemma_frame_round_trip(c: SavedContext, w: Seq<usize>)
    ensures
        context_of(frame_of(c)) == c,
        frame_of(c).len() == FRAME_SLOTS,
        forall|k: int| 0 <= k < FRAME_SLOTS ==> frame_of(c)[k] == slot_value(c, #[trigger] save_order_spec()[k]),
        w.len() == FRAME_SLOTS ==> frame_of(context_of(w)) == w,
{
    if w.len() == FRAME_SLOTS {
        assert(frame_of(context_of(w)) =~= w);
    }
}

} // verus!
