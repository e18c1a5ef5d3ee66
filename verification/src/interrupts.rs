//! Segment selectors, the operand of the table-load instructions, and the
//! order in which the processor tables are brought up.

use vstd::prelude::*;
use crate::interrupts::gdt::{
    lemma_base_round_trip, Gdt, SegmentActivation, SegmentLowerFlags, SegmentUpperFlags,
    StackRegion, SystemSegmentDescriptor, Tss,
};
use crate::interrupts::idt::{
    lemma_exception_vectors, lemma_gate_round_trip, Exception, Handlers, Idt, IdtDescriptor,
};
use crate::wire::{le16, le64, write_u16, write_u64};

pub mod gdt;
pub mod idt;

verus! {

/// A privilege level.
#[derive(Clone, Copy, Debug, PartialEq, Eq, Structural)]
pub enum Ring {
    Ring0,
    Ring3,
}

impl Ring {
    /// The level as the number the processor uses.
    pub open spec fn level(self) -> u16 {
        match self {
            Ring::Ring0 => 0,
            Ring::Ring3 => 3,
        }
    }

    /// The level as the number the processor uses.
    pub fn bits(self) -> (r: u16)
        ensures
            r == self.level(),
    {
        match self {
            Ring::Ring0 => 0,
            Ring::Ring3 => 3,
        }
    }
}

/// An index into a descriptor table together with the privilege level
/// requested for the access.
pub type SegmentSelector = u16;

/// Number of descriptor slots a selector can address.
pub const SELECTOR_INDEX_LIMIT: u16 = 8192;

/// The table entry a selector points at.
pub open spec fn selector_index(sel: SegmentSelector) -> u16 {
    sel >> 3
}

/// The privilege level a selector requests.
pub open spec fn selector_rpl(sel: SegmentSelector) -> u16 {
    sel & 3
}

/// Whether a selector points into the global table (table-indicator bit clear).
pub open spec fn selector_is_global(sel: SegmentSelector) -> bool {
    sel & 4 == 0
}

/// The encoding of a selector: the index above the three low bits, the
/// requested privilege level in the two lowest.
pub open spec fn selector_bits(index: u16, rpl: Ring) -> SegmentSelector {
    (index << 3) | rpl.level()
}

proof fn lemma_selector_fields(index: u16, level: u16)
    by (bit_vector)
    requires
        index < 8192,
        level <= 3,
    ensures
        ((index << 3) | level) >> 3 == index,
        ((index << 3) | level) & 3 == level,
        ((index << 3) | level) & 4 == 0,
        ((index << 3) | level) == index * 8 + level,
{
}

proof fn lemma_kernel_selectors()
    by (bit_vector)
    ensures
        (1u16 << 3) | 0 == 0x08,
        (2u16 << 3) | 0 == 0x10,
        (3u16 << 3) | 0 == 0x18,
{
}

/// Builds the selector for entry `index` of the global table at privilege
/// level `rpl`.
pub fn new_segment(index: u16, rpl: Ring) -> (sel: SegmentSelector)
    ensures
        sel == selector_bits(index, rpl),
        index < SELECTOR_INDEX_LIMIT ==> sel == index * 8 + rpl.level(),
        index < SELECTOR_INDEX_LIMIT ==> selector_index(sel) == index && selector_rpl(sel)
            == rpl.level() && selector_is_global(sel),
{
    let level: u16 = rpl.bits();
    proof {
        if index < 8192 {
            lemma_selector_fields(index, level);
        }
    }
    (index << 3) | level
}

/// Selector of the kernel code segment.
pub const KERNEL_CS: SegmentSelector = 0x08;

/// Selector of the kernel data segment.
pub const KERNEL_DS: SegmentSelector = 0x10;

/// Selector of the task-state segment.
pub const TSS_SELECTOR: SegmentSelector = 0x18;

/// The three selectors in use are the encodings of entries 1, 2 and 3 of
/// the global table at ring 0.
pub proof fn lemma_selector_constants()
    ensures
        selector_bits(1, Ring::Ring0) == KERNEL_CS,
        selector_bits(2, Ring::Ring0) == KERNEL_DS,
        selector_bits(3, Ring::Ring0) == TSS_SELECTOR,
{
    lemma_kernel_selectors();
}

/// A selector built from an index below the limit gives back that index
/// and that privilege level, and never points into a local table.
pub proof fn lemma_selector_round_trip(index: u16, rpl: Ring)
    requires
        index < SELECTOR_INDEX_LIMIT,
    ensures
        selector_bits(index, rpl) == index * 8 + rpl.level(),
        selector_index(selector_bits(index, rpl)) == index,
        selector_rpl(selector_bits(index, rpl)) == rpl.level(),
        selector_is_global(selector_bits(index, rpl)),
{
    lemma_selector_fields(index, rpl.level());
}

/// Operand of the instructions that load a table register: the table's
/// last valid byte offset and its address.
#[derive(Clone, Copy, Debug, PartialEq, Eq, Structural)]
pub struct DescriptorTableRegister {
    /// Size of the table in bytes, less one.
    pub limit: u16,
    /// Address of the table.
    pub base: u64,
}

impl DescriptorTableRegister {
    /// The operand for a table of `size` bytes at `base`.
    pub fn new(base: u64, size: usize) -> (reg: Self)
        requires
            0 < size <= 0x1_0000,
        ensures
            reg.base == base,
            reg.limit == size - 1,
    {
        DescriptorTableRegister { limit: (size - 1) as u16, base }
    }

    /// The operand as the load instructions read it: the limit, then the
    /// base, with no padding between them.
    pub open spec fn image(self) -> Seq<u8> {
        le16(self.limit) + le64(self.base)
    }

    /// The operand as bytes, to be handed to the load instruction.
    pub fn to_bytes(&self) -> (out: [u8; 10])
        ensures
            out@ == self.image(),
    {
        let mut out: [u8; 10] = [0u8; 10];
        write_u16(&mut out, 0, self.limit);
        write_u64(&mut out, 2, self.base);
        assert(out@ =~= self.image());
        out
    }
}

/// Where the tables, the stacks and the handlers lie in memory.
#[derive(Clone, Copy, Debug, PartialEq, Eq, Structural)]
pub struct Placement {
    pub gdt_address: u64,
    pub tss_address: u64,
    pub idt_address: u64,
    /// The stack the kernel runs on.
    pub kernel_stack: StackRegion,
    /// The stack set aside for double faults.
    pub double_fault_stack: StackRegion,
    pub handlers: Handlers,
}

impl Placement {
    /// Both stacks lie within the address space and share no byte.
    pub open spec fn wf(self) -> bool {
        &&& self.kernel_stack.wf()
        &&& self.double_fault_stack.wf()
        &&& self.double_fault_stack.disjoint(self.kernel_stack)
    }

    /// Whether the placement can be used.
    pub fn check(&self) -> (ok: bool)
        ensures
            ok == self.wf(),
    {
        self.kernel_stack.fits() && self.double_fault_stack.fits()
            && !self.double_fault_stack.overlaps(&self.kernel_stack)
    }
}

/// The tables, complete for the place they will lie at, and what the
/// processor has to be told to activate them.
#[derive(Clone, Copy, Debug, PartialEq, Eq)]
pub struct ControlTables {
    pub gdt: Gdt,
    pub tss: Tss,
    pub idt: Idt,
    /// How to activate the segment table. This comes first: the gates of
    /// the interrupt table name the code segment that it defines.
    pub segments: SegmentActivation,
    /// How to activate the interrupt table.
    pub interrupts: DescriptorTableRegister,
}

impl ControlTables {
    /// The tables are those of a kernel that lies as `placement` says:
    ///
    /// - the segment table holds the null entry, ring-0 code in long mode
    ///   and ring-0 data, and a task-state descriptor with the address and
    ///   the size of the task-state segment;
    /// - the task-state segment holds the end of the double-fault stack in
    ///   slot 0 of its interrupt stack table, and nothing else;
    /// - the interrupt table holds a present descriptor for each handled
    ///   exception, and an absent one for every other vector;
    /// - the segment table is activated with the kernel's three selectors,
    ///   and both tables with their address and their size less one.
    pub open spec fn built_for(self, placement: Placement) -> bool {
        &&& self.gdt.user_segments@ == Gdt::fresh_segments()
        &&& self.gdt.tss == (SystemSegmentDescriptor {
            limit_15_0: Tss::SIZE as u16,
            ..SystemSegmentDescriptor::blank_tss().with_base(placement.tss_address)
        })
        &&& self.tss.ist_list@ == seq![
            placement.double_fault_stack.end() as u64,
            0,
            0,
            0,
            0,
            0,
            0,
        ]
        &&& self.tss.rsp_list@ == seq![0u64, 0, 0]
        &&& self.tss.io_map_base == 0
        &&& forall|v: int|
            0 <= v < 256 ==> #[trigger] self.idt.entries@[v] == Idt::installed(
                placement.handlers,
                v,
                IdtDescriptor::absent(),
            )
        &&& self.segments == (SegmentActivation {
            register: DescriptorTableRegister {
                limit: (Gdt::SIZE - 1) as u16,
                base: placement.gdt_address,
            },
            code_selector: KERNEL_CS,
            data_selector: KERNEL_DS,
            task_selector: TSS_SELECTOR,
        })
        &&& self.interrupts == (DescriptorTableRegister {
            limit: (Idt::SIZE - 1) as u16,
            base: placement.idt_address,
        })
    }
}

/// Builds the segment table, the task-state segment and the interrupt table
/// for `placement`.
pub fn init(placement: &Placement) -> (tables: ControlTables)
    requires
        placement.wf(),
    ensures
        tables.built_for(*placement),
{
    let mut gdt = Gdt::new();
    let mut tss = Tss::new();
    let mut idt = Idt::new();
    let segments = gdt::prepare(&mut gdt, &mut tss, placement);
    let interrupts = idt::prepare(&mut idt, &placement.handlers, placement.idt_address);
    assert(tss.ist_list@ =~= seq![placement.double_fault_stack.end() as u64, 0, 0, 0, 0, 0, 0]);
    assert(tss.rsp_list@ =~= seq![0u64, 0, 0]);
    ControlTables { gdt, tss, idt, segments, interrupts }
}

/// The tables that are built for a placement fit together:
///
/// - the descriptor of each handled exception is present and enters its
///   handler through the code selector that the activation loads, and
///   that selector names the long-mode code entry of the segment table;
/// - the data selector names the data entry, and the task selector the
///   fourth slot, whose descriptor points at the task-state segment;
/// - the stack index in the descriptor of the double fault names the slot
///   of the task-state segment that holds the end of the double-fault
///   stack, which shares no byte with the kernel's stack.
pub proof fn lemma_tables_fit_together(tables: ControlTables, placement: Placement, e: Exception)
    requires
        placement.wf(),
        tables.built_for(placement),
    ensures
        tables.idt.entries@[e.spec_vector() as int].is_present(),
        tables.idt.entries@[e.spec_vector() as int].offset() == placement.handlers.spec_address(e),
        tables.idt.entries@[e.spec_vector() as int].segment_selector
            == tables.segments.code_selector,
        tables.idt.entries@[e.spec_vector() as int].ist == e.spec_ist(),
        selector_index(tables.segments.code_selector) == 1,
        tables.gdt.user_segments@[1].lower_flags.bits == SegmentLowerFlags::KERNEL_CODE,
        tables.gdt.user_segments@[1].limit_and_upper_flags == SegmentUpperFlags::LONG_MODE,
        selector_index(tables.segments.data_selector) == 2,
        tables.gdt.user_segments@[2].lower_flags.bits == SegmentLowerFlags::KERNEL_DATA,
        selector_index(tables.segments.task_selector) == 3,
        tables.gdt.tss.lower_flags.bits == SegmentLowerFlags::TSS_SEGMENT,
        tables.gdt.tss.base() == placement.tss_address,
        tables.gdt.tss.limit_15_0 == Tss::SIZE,
        tables.tss.ist_list@[Exception::DoubleFault.spec_ist() - 1]
            == placement.double_fault_stack.end(),
        placement.double_fault_stack.disjoint(placement.kernel_stack),
{
    lemma_selector_round_trip(1, Ring::Ring0);
    lemma_selector_round_trip(2, Ring::Ring0);
    lemma_selector_round_trip(3, Ring::Ring0);
    lemma_selector_constants();
    lemma_gate_round_trip(placement.handlers.spec_address(e), e.spec_ist());
    lemma_base_round_trip(SystemSegmentDescriptor::blank_tss(), placement.tss_address);
    lemma_exception_vectors(e);
    assert(tables.idt.entries@[e.spec_vector() as int] == IdtDescriptor::gate(
        placement.handlers.spec_address(e),
        e.spec_ist(),
    ));
}

/// How far the bring-up of the processor tables has come.
#[derive(Clone, Copy, Debug, PartialEq, Eq, Structural)]
pub enum BootPhase {
    /// Nothing is active: any fault resets the machine.
    Reset,
    /// The segment table is active.
    SegmentsActive,
    /// Both tables are active.
    InterruptsActive,
}

/// One activation.
#[derive(Clone, Copy, Debug, PartialEq, Eq, Structural)]
pub enum BootStep {
    /// Load the segment table, reload the segment registers and the task
    /// register.
    LoadSegments,
    /// Load the interrupt table.
    LoadInterrupts,
}

impl BootPhase {
    /// The step that is due in this phase.
    pub open spec fn spec_next(self) -> Option<BootStep> {
        match self {
            BootPhase::Reset => Some(BootStep::LoadSegments),
            BootPhase::SegmentsActive => Some(BootStep::LoadInterrupts),
            BootPhase::InterruptsActive => None,
        }
    }

    /// The phase after `done` has been carried out in this phase; `None`
    /// where `done` is not the step that is due.
    pub open spec fn spec_advance(self, done: BootStep) -> Option<BootPhase> {
        match (self, done) {
            (BootPhase::Reset, BootStep::LoadSegments) => Some(BootPhase::SegmentsActive),
            (BootPhase::SegmentsActive, BootStep::LoadInterrupts) => Some(
                BootPhase::InterruptsActive,
            ),
            _ => None,
        }
    }

    /// The phase reached from this one by carrying out `steps` in order;
    /// `None` where one of them is not due when its turn comes.
    pub open spec fn run(self, steps: Seq<BootStep>) -> Option<BootPhase>
        decreases steps.len(),
    {
        if steps.len() == 0 {
            Some(self)
        } else {
            match self.spec_advance(steps[0]) {
                Some(phase) => phase.run(steps.drop_first()),
                None => None,
            }
        }
    }

    /// The step that is due in this phase; `None` once both tables are
    /// active.
    #[verifier::when_used_as_spec(spec_next)]
    pub fn next(self) -> (step: Option<BootStep>)
        ensures
            step == self.spec_next(),
    {
        match self {
            BootPhase::Reset => Some(BootStep::LoadSegments),
            BootPhase::SegmentsActive => Some(BootStep::LoadInterrupts),
            BootPhase::InterruptsActive => None,
        }
    }

    /// The phase after `done` has been carried out in this phase; `None`
    /// where `done` is not the step that is due.
    #[verifier::when_used_as_spec(spec_advance)]
    pub fn advance(self, done: BootStep) -> (phase: Option<BootPhase>)
        ensures
            phase == self.spec_advance(done),
    {
        match (self, done) {
            (BootPhase::Reset, BootStep::LoadSegments) => Some(BootPhase::SegmentsActive),
            (BootPhase::SegmentsActive, BootStep::LoadInterrupts) => Some(
                BootPhase::InterruptsActive,
            ),
            _ => None,
        }
    }

    /// Whether both tables are active.
    pub fn is_initialized(self) -> (b: bool)
        ensures
            b == (self == BootPhase::InterruptsActive),
    {
        match self {
            BootPhase::InterruptsActive => true,
            _ => false,
        }
    }
}

/// A step is accepted exactly when it is the one that is due.
pub proof fn lemma_step_due(phase: BootPhase, step: BootStep)
    ensures
        phase.spec_advance(step) is Some <==> phase.spec_next() == Some(step),
{
}

/// From reset, the only way to have both tables active is to load the
/// segment table and then the interrupt table, each once; and whatever is
/// accepted from reset is the beginning of that sequence.
pub proof fn lemma_boot_order(steps: Seq<BootStep>)
    ensures
        BootPhase::Reset.run(steps) == Some(BootPhase::InterruptsActive) <==> steps == seq![
            BootStep::LoadSegments,
            BootStep::LoadInterrupts,
        ],
        BootPhase::Reset.run(steps) is Some ==> steps.len() <= 2 && (steps.len() >= 1 ==> steps[0]
            == BootStep::LoadSegments) && (steps.len() == 2 ==> steps[1]
            == BootStep::LoadInterrupts),
{
    let full = seq![BootStep::LoadSegments, BootStep::LoadInterrupts];
    reveal_with_fuel(BootPhase::run, 4);
    if steps.len() >= 1 {
        let rest = steps.drop_first();
        if rest.len() >= 1 {
            let rest2 = rest.drop_first();
            assert(rest[0] == steps[1]);
            if rest2.len() >= 1 {
                assert(rest2.drop_first().len() == steps.len() - 3);
            }
        }
    }
    if steps == full {
        assert(full.drop_first() =~= seq![BootStep::LoadInterrupts]);
        assert(full.drop_first().drop_first() =~= Seq::<BootStep>::empty());
    }
    if BootPhase::Reset.run(steps) == Some(BootPhase::InterruptsActive) {
        assert(steps =~= full);
    }
}

} // verus!
