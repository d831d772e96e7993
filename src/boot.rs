//! The reset-time sequence of a hart: election of the hart that initializes
//! memory, clearing of the zero-initialized section, copying of the
//! initialized-data image, programming of the trap vector, and the hand-off
//! to the entry point.
//!
//! The sequence is a state machine: `first_step` and `next_step` decide what
//! the hart does next, and the caller performs each step and reports the
//! election result.

use vstd::prelude::*;

verus! {

/// Whether the default election policy elects hart `hartid`.
pub open spec fn default_elects(hartid: usize) -> bool {
    hartid == 0
}

/// The default election policy: hart 0 initializes memory; every other hart
/// is told to wait until it is woken.
pub fn default_mp_hook(hartid: usize) -> (r: bool)
    ensures
        r == default_elects(hartid),
{
    hartid == 0
}

/// Under the default policy, among the harts `0..n` of one boot exactly one
/// hart, hart 0, is elected.
pub proof fn lemma_default_election_unique(n: usize)
    requires
        n >= 1,
    ensures
        Set::new(|h: usize| h < n && default_elects(h)) == set![0usize],
        Set::new(|h: usize| h < n && default_elects(h)).len() == 1,
{
    assert(Set::new(|h: usize| h < n && default_elects(h)) =~= set![0usize]);
}

/// Where the link step placed the sections that the elected hart prepares,
/// as byte addresses: the zero-initialized section `[sbss, ebss)`, the
/// initialized-data section `[sdata, edata)`, and its image at `sidata`.
#[derive(Clone, Copy, Debug, PartialEq, Eq, Structural)]
pub struct SectionLayout {
    pub sbss: usize,
    pub ebss: usize,
    pub sdata: usize,
    pub edata: usize,
    pub sidata: usize,
}

impl SectionLayout {
    /// Both sections are ordered, word aligned and within the address space,
    /// and the data image does not overlap the data section.
    pub open spec fn valid(self) -> bool {
        &&& self.sbss <= self.ebss
        &&& self.sdata <= self.edata
        &&& self.sbss % 4 == 0
        &&& self.ebss % 4 == 0
        &&& self.sdata % 4 == 0
        &&& self.edata % 4 == 0
        &&& self.sidata % 4 == 0
        &&& self.sidata + (self.edata - self.sdata) <= usize::MAX
        &&& (self.sidata + (self.edata - self.sdata) <= self.sdata || self.edata <= self.sidata
            || self.sdata == self.edata)
    }

    /// Whether the layout is valid.
    pub fn is_valid(&self) -> (r: bool)
        ensures
            r == self.valid(),
    {
        self.sbss <= self.ebss && self.sdata <= self.edata && self.sbss % 4 == 0 && self.ebss % 4
            == 0 && self.sdata % 4 == 0 && self.edata % 4 == 0 && self.sidata % 4 == 0
            && self.sidata <= usize::MAX - (self.edata - self.sdata) && (self.sidata + (self.edata
            - self.sdata) <= self.sdata || self.edata <= self.sidata || self.sdata == self.edata)
    }

    /// Number of words of the zero-initialized section.
    pub fn bss_words(&self) -> (r: usize)
        requires
            self.valid(),
        ensures
            r * 4 == self.ebss - self.sbss,
    {
        (self.ebss - self.sbss) / 4
    }

    /// Number of words of the initialized-data section.
    pub fn data_words(&self) -> (r: usize)
        requires
            self.valid(),
        ensures
            r * 4 == self.edata - self.sdata,
    {
        (self.edata - self.sdata) / 4
    }
}

/// `mem` with the words `[start, end)` set to zero.
pub open spec fn cleared(mem: Seq<u32>, start: int, end: int) -> Seq<u32> {
    Seq::new(mem.len(), |i: int| if start <= i < end { 0u32 } else { mem[i] })
}

/// Writes zero to every word of `mem` from `sbss` up to, not including,
/// `ebss`; the other words keep their values.
pub fn zero_bss(mem: &mut [u32], sbss: usize, ebss: usize)
    requires
        sbss <= ebss <= old(mem)@.len(),
    ensures
        final(mem)@ == cleared(old(mem)@, sbss as int, ebss as int),
{
    let mut i: usize = sbss;
    while i < ebss
        invariant
            sbss <= i <= ebss,
            ebss <= mem@.len(),
            mem@ == cleared(old(mem)@, sbss as int, i as int),
        decreases ebss - i,
    {
        mem[i] = 0;
        i = i + 1;
        assert(mem@ =~= cleared(old(mem)@, sbss as int, i as int));
    }
}

/// Copies the initialized-data image word by word into the data section.
pub fn init_data(data: &mut [u32], image: &[u32])
    requires
        old(data)@.len() == image@.len(),
    ensures
        final(data)@ == image@,
{
    let mut i: usize = 0;
    while i < data.len()
        invariant
            i <= data@.len(),
            data@.len() == image@.len(),
            data@.subrange(0, i as int) == image@.subrange(0, i as int),
        decreases data@.len() - i,
    {
        data[i] = image[i];
        i = i + 1;
        assert(data@.subrange(0, i as int) =~= image@.subrange(0, i as int));
    }
    assert(data@ =~= data@.subrange(0, i as int));
    assert(image@ =~= image@.subrange(0, i as int));
}

/// Clearing a region twice leaves what clearing it once left, every word of
/// the region zero; clearing an empty region changes nothing.
pub proof fn lemma_clear_idempotent(mem: Seq<u32>, start: int, end: int)
    requires
        0 <= start <= end <= mem.len(),
    ensures
        cleared(cleared(mem, start, end), start, end) == cleared(mem, start, end),
        forall|i: int| start <= i < end ==> #[trigger] cleared(mem, start, end)[i] == 0,
        start == end ==> cleared(mem, start, end) == mem,
{
    assert(cleared(cleared(mem, start, end), start, end) =~= cleared(mem, start, end));
    if start == end {
        assert(cleared(mem, start, end) =~= mem);
    }
}

/// One step of the reset sequence.
#[derive(Clone, Copy, Debug, PartialEq, Eq, Structural)]
pub enum BootStep {
    /// Ask the election hook whether this hart initializes memory.
    Elect,
    /// Run the pre-initialization hook.
    PreInit,
    /// Clear the zero-initialized section.
    ZeroBss,
    /// Copy the initialized-data image.
    InitData,
    /// Program the trap vector.
    SetupInterrupts,
    /// Enter the user entry point with the boot parameters.
    EnterMain,
    /// Divert the hart to its abort state.
    Abort,
}

/// The first step of hart `hartid`: a hart beyond the configured maximum, or
/// any hart under an invalid section layout, is aborted; any other starts
/// with the election.
pub open spec fn first_step_spec(hartid: usize, max_hart_id: usize, layout: SectionLayout) -> BootStep {
    if hartid > max_hart_id || !layout.valid() {
        BootStep::Abort
    } else {
        BootStep::Elect
    }
}

/// The step that follows `done`, given the election result.
pub open spec fn next_step_spec(done: BootStep, elected: bool) -> Option<BootStep> {
    match done {
        BootStep::Elect => if elected {
            Some(BootStep::PreInit)
        } else {
            Some(BootStep::SetupInterrupts)
        },
        BootStep::PreInit => Some(BootStep::ZeroBss),
        BootStep::ZeroBss => Some(BootStep::InitData),
        BootStep::InitData => Some(BootStep::SetupInterrupts),
        BootStep::SetupInterrupts => Some(BootStep::EnterMain),
        BootStep::EnterMain => None,
        BootStep::Abort => None,
    }
}

/// The first step of the reset sequence of hart `hartid`.
pub fn first_step(hartid: usize, max_hart_id: usize, layout: &SectionLayout) -> (r: BootStep)
    ensures
        r == first_step_spec(hartid, max_hart_id, *layout),
{
    if hartid > max_hart_id || !layout.is_valid() {
        BootStep::Abort
    } else {
        BootStep::Elect
    }
}

/// The step after `done`; `elected` is what the election hook returned.
/// `None` once the entry point has been entered or the hart aborted.
pub fn next_step(done: BootStep, elected: bool) -> (r: Option<BootStep>)
    ensures
        r == next_step_spec(done, elected),
{
    match done {
        BootStep::Elect => if elected {
            Some(BootStep::PreInit)
        } else {
            Some(BootStep::SetupInterrupts)
        },
        BootStep::PreInit => Some(BootStep::ZeroBss),
        BootStep::ZeroBss => Some(BootStep::InitData),
        BootStep::InitData => Some(BootStep::SetupInterrupts),
        BootStep::SetupInterrupts => Some(BootStep::EnterMain),
        BootStep::EnterMain => None,
        BootStep::Abort => None,
    }
}

/// The whole reset sequence of a hart, for a given election result.
pub open spec fn boot_run(hartid: usize, max_hart_id: usize, layout: SectionLayout, elected: bool) -> Seq<BootStep> {
    if first_step_spec(hartid, max_hart_id, layout) == BootStep::Abort {
        seq![BootStep::Abort]
    } else if elected {
        seq![
            BootStep::Elect,
            BootStep::PreInit,
            BootStep::ZeroBss,
            BootStep::InitData,
            BootStep::SetupInterrupts,
            BootStep::EnterMain,
        ]
    } else {
        seq![BootStep::Elect, BootStep::SetupInterrupts, BootStep::EnterMain]
    }
}

/// Following `first_step` and `next_step` gives `boot_run`: a hart within
/// the configured maximum under a valid layout consults the election hook
/// exactly once, first; any other hart is aborted without consulting it.
/// Memory is prepared only by an elected hart, and the sequence ends at the
/// entry point or in abort.
pub proof fn lemma_boot_sequence(hartid: usize, max_hart_id: usize, layout: SectionLayout, elected: bool)
    ensures
        ({
            let run = boot_run(hartid, max_hart_id, layout, elected);
            &&& run[0] == first_step_spec(hartid, max_hart_id, layout)
            &&& (hartid <= max_hart_id && layout.valid()) ==> run[0] == BootStep::Elect
            &&& forall|k: int| 0 <= k < run.len() - 1 ==> next_step_spec(#[trigger] run[k], elected) == Some(run[k + 1])
            &&& next_step_spec(run.last(), elected) is None
            &&& forall|k: int| 0 <= k < run.len() && #[trigger] run[k] == BootStep::Elect ==> k == 0
            &&& forall|k: int| 0 <= k < run.len() && (#[trigger] run[k] == BootStep::PreInit
                || run[k] == BootStep::ZeroBss || run[k] == BootStep::InitData) ==> elected
            &&& run.last() == BootStep::EnterMain || run.last() == BootStep::Abort
        }),
        forall|s: BootStep, e: bool| next_step_spec(s, e) != Some(BootStep::Elect),
{
}

/// How the core dispatches traps.
#[derive(Clone, Copy, Debug, PartialEq, Eq, Structural)]
pub enum TrapMode {
    /// Every trap enters one handler address.
    Direct,
    /// The interrupt controller vectors interrupts through a table.
    Clic,
}

/// The interrupt hardware that the trap vector is programmed for.
#[derive(Clone, Copy, Debug, PartialEq, Eq, Structural)]
pub enum InterruptController {
    /// Core-local interruptor: direct mode, static vector table.
    Clint,
    /// Vectored controller; `nxti` selects the next-pending-interrupt loop
    /// as the trap entry.
    Clic { nxti: bool },
}

/// The sub-mode field of the trap-vector register in controller mode.
#[derive(Clone, Copy, Debug, PartialEq, Eq, Structural)]
pub enum SubMode {
    /// Every trap enters the trap entry address.
    Default,
    /// The trap entry runs the next-pending-interrupt loop.
    Nxti,
}

impl SubMode {
    /// The value of the four sub-mode bits.
    pub open spec fn bits_spec(self) -> usize {
        match self {
            SubMode::Default => 0,
            SubMode::Nxti => 1,
        }
    }
}

/// What to write into the trap-vector registers.
#[derive(Clone, Copy, Debug, PartialEq, Eq, Structural)]
pub struct TrapVectorSetup {
    /// Trap entry address.
    pub address: usize,
    pub mode: TrapMode,
    pub submode: SubMode,
    /// Base address of the controller's vector table, where one is used.
    pub vector_table: Option<usize>,
}

/// The default trap-vector programming: direct mode at the trap entry for
/// the core-local interruptor; for the vectored controller, controller mode
/// and the controller's vector table, with either the fast-loop entry and
/// the sub-mode that selects the fast loop, or the trap entry and the
/// default sub-mode.
pub fn default_setup_interrupts(
    controller: InterruptController,
    start_trap: usize,
    nxti_trap_handler: usize,
    interrupt_vector: usize,
) -> (r: TrapVectorSetup)
    ensures
        controller == InterruptController::Clint ==> r == (TrapVectorSetup {
            address: start_trap,
            mode: TrapMode::Direct,
            submode: SubMode::Default,
            vector_table: None,
        }),
        controller == (InterruptController::Clic { nxti: true }) ==> r == (TrapVectorSetup {
            address: nxti_trap_handler,
            mode: TrapMode::Clic,
            submode: SubMode::Nxti,
            vector_table: Some(interrupt_vector),
        }),
        controller == (InterruptController::Clic { nxti: false }) ==> r == (TrapVectorSetup {
            address: start_trap,
            mode: TrapMode::Clic,
            submode: SubMode::Default,
            vector_table: Some(interrupt_vector),
        }),
{
    match controller {
        InterruptController::Clint => TrapVectorSetup {
            address: start_trap,
            mode: TrapMode::Direct,
            submode: SubMode::Default,
            vector_table: None,
        },
        InterruptController::Clic { nxti } => TrapVectorSetup {
            address: if nxti {
                nxti_trap_handler
            } else {
                start_trap
            },
            mode: TrapMode::Clic,
            submode: if nxti {
                SubMode::Nxti
            } else {
                SubMode::Default
            },
            vector_table: Some(interrupt_vector),
        },
    }
}

/// The trap-vector register value for controller mode: the entry address
/// aligned down to 64 bytes, the sub-mode in bits 2 to 5 and both mode bits
/// set.
pub fn clic_mtvec_bits(address: usize, submode: SubMode) -> (r: usize)
    ensures
        r == address - address % 64 + 4 * submode.bits_spec() + 3,
{
    let sub: usize = match submode {
        SubMode::Default => 0,
        SubMode::Nxti => 1,
    };
    address - address % 64 + 4 * sub + 3
}

} // verus!
