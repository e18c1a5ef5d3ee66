//! The interrupt descriptor table: one gate for each of the 256 vectors.

use vstd::prelude::*;
use crate::interrupts::gdt::DOUBLE_FAULT_IST;
use crate::interrupts::{DescriptorTableRegister, SegmentSelector, KERNEL_CS};
use crate::wire::{le16, le32, write_bytes, write_u16, write_u32, write_u8};

verus! {

/// The type-and-attribute byte of a gate.
#[derive(Clone, Copy, Debug, PartialEq, Eq, Structural)]
pub struct GateFlags {
    pub bits: u8,
}

impl GateFlags {
    /// A gate that masks interrupts while its handler runs.
    pub const INTERRUPT_GATE: u8 = 0x0E;

    /// Only ring 0 may raise the vector by software.
    pub const RING_0: u8 = 0x00;

    /// Ring 3 may raise the vector by software.
    pub const RING_3: u8 = 0x60;

    /// The descriptor is in use.
    pub const PRESENT: u8 = 0x80;

    /// Whether every bit of `mask` is set.
    pub open spec fn has(self, mask: u8) -> bool {
        self.bits & mask == mask
    }

    /// No flag set.
    pub fn empty() -> (flags: Self)
        ensures
            flags.bits == 0,
    {
        GateFlags { bits: 0 }
    }

    /// Whether every bit of `mask` is set.
    pub fn contains(&self, mask: u8) -> (r: bool)
        ensures
            r == self.has(mask),
    {
        self.bits & mask == mask
    }
}

proof fn lemma_gate_attributes()
    by (bit_vector)
    ensures
        GateFlags::INTERRUPT_GATE | GateFlags::PRESENT | GateFlags::RING_0 == 0x8Eu8,
        0x8Eu8 & GateFlags::PRESENT == GateFlags::PRESENT,
        0x8Eu8 & GateFlags::RING_3 == GateFlags::RING_0,
        0x8Eu8 & 0x0Fu8 == GateFlags::INTERRUPT_GATE,
        0u8 & GateFlags::PRESENT != GateFlags::PRESENT,
        GateFlags::PRESENT == 1u8 << 7,
        GateFlags::RING_3 == 3u8 << 5,
{
}

proof fn lemma_split_offset(addr: u64)
    by (bit_vector)
    ensures
        ((((addr >> 32) as u32) as u64) << 32) | ((((addr >> 16) as u16) as u64) << 16) | ((
        addr as u16) as u64) == addr,
{
}

/// A gate: where the handler of one vector lies and how to enter it.
#[derive(Clone, Copy, Debug, PartialEq, Eq, Structural)]
pub struct IdtDescriptor {
    pub offset_15_0: u16,
    pub segment_selector: SegmentSelector,
    /// Bits 2:0 are the index into the interrupt stack table, 0 for none;
    /// the rest is zero.
    pub ist: u8,
    pub attributes: GateFlags,
    pub offset_31_16: u16,
    pub offset_63_32: u32,
    pub reserved: u32,
}

impl IdtDescriptor {
    /// Bytes a gate takes in the table.
    pub const SIZE: usize = 16;

    /// The present ring-0 interrupt gate that enters `handler` through the
    /// kernel code segment, on the stack that `ist` names.
    pub open spec fn gate(handler: u64, ist: u8) -> Self {
        IdtDescriptor {
            offset_15_0: handler as u16,
            segment_selector: KERNEL_CS,
            ist,
            attributes: GateFlags { bits: 0x8E },
            offset_31_16: (handler >> 16) as u16,
            offset_63_32: (handler >> 32) as u32,
            reserved: 0,
        }
    }

    /// The descriptor of a vector that has no handler: every field zero.
    pub open spec fn absent() -> Self {
        IdtDescriptor {
            offset_15_0: 0,
            segment_selector: 0,
            ist: 0,
            attributes: GateFlags { bits: 0 },
            offset_31_16: 0,
            offset_63_32: 0,
            reserved: 0,
        }
    }

    /// The handler's address, put together from the three fields it is
    /// split over.
    pub open spec fn offset(self) -> u64 {
        ((self.offset_63_32 as u64) << 32) | ((self.offset_31_16 as u64) << 16) | (
        self.offset_15_0 as u64)
    }

    /// The processor may enter through this gate.
    pub open spec fn is_present(self) -> bool {
        self.attributes.has(GateFlags::PRESENT)
    }

    /// The descriptor as it lies in the table.
    pub open spec fn image(self) -> Seq<u8> {
        le16(self.offset_15_0) + le16(self.segment_selector) + seq![self.ist, self.attributes.bits]
            + le16(self.offset_31_16) + le32(self.offset_63_32) + le32(self.reserved)
    }

    /// The present ring-0 interrupt gate that enters `handler` through the
    /// kernel code segment, on the stack that `ist` names.
    pub fn new(handler: u64, ist: u8) -> (d: Self)
        ensures
            d == Self::gate(handler, ist),
            d.offset() == handler,
            d.is_present(),
            d.attributes.bits == GateFlags::INTERRUPT_GATE | GateFlags::PRESENT
                | GateFlags::RING_0,
    {
        proof {
            lemma_gate_attributes();
            lemma_split_offset(handler);
        }
        let addr = handler;
        IdtDescriptor {
            offset_15_0: #[verifier::truncate] (addr as u16),
            offset_31_16: #[verifier::truncate] ((addr >> 16) as u16),
            offset_63_32: #[verifier::truncate] ((addr >> 32) as u32),
            segment_selector: KERNEL_CS,
            ist,
            attributes: GateFlags {
                bits: GateFlags::INTERRUPT_GATE | GateFlags::PRESENT | GateFlags::RING_0,
            },
            reserved: 0,
        }
    }

    /// The descriptor of a vector without a handler.
    pub fn missing() -> (d: Self)
        ensures
            d == Self::absent(),
            !d.is_present(),
    {
        proof {
            lemma_gate_attributes();
        }
        IdtDescriptor {
            offset_15_0: 0,
            segment_selector: 0,
            ist: 0,
            attributes: GateFlags::empty(),
            offset_31_16: 0,
            offset_63_32: 0,
            reserved: 0,
        }
    }

    /// The address of the handler.
    pub fn handler(&self) -> (addr: u64)
        ensures
            addr == self.offset(),
    {
        ((self.offset_63_32 as u64) << 32) | ((self.offset_31_16 as u64) << 16) | (
        self.offset_15_0 as u64)
    }

    /// Whether the present bit is set.
    pub fn present(&self) -> (p: bool)
        ensures
            p == self.is_present(),
    {
        self.attributes.contains(GateFlags::PRESENT)
    }

    /// The descriptor as bytes, to be put in the table.
    pub fn to_bytes(&self) -> (out: [u8; 16])
        ensures
            out@ == self.image(),
    {
        let mut out: [u8; 16] = [0u8; 16];
        write_u16(&mut out, 0, self.offset_15_0);
        write_u16(&mut out, 2, self.segment_selector);
        write_u8(&mut out, 4, self.ist);
        write_u8(&mut out, 5, self.attributes.bits);
        write_u16(&mut out, 6, self.offset_31_16);
        write_u32(&mut out, 8, self.offset_63_32);
        write_u32(&mut out, 12, self.reserved);
        assert(out@ =~= self.image());
        out
    }
}

/// A gate made for a handler is present, is entered at ring 0 through the
/// kernel code segment, and gives the handler's address back when its
/// three offset fields are put together again.
pub proof fn lemma_gate_round_trip(handler: u64, ist: u8)
    ensures
        IdtDescriptor::gate(handler, ist).offset() == handler,
        IdtDescriptor::gate(handler, ist).is_present(),
        IdtDescriptor::gate(handler, ist).attributes.bits & GateFlags::RING_3 == GateFlags::RING_0,
        IdtDescriptor::gate(handler, ist).attributes.bits & 0x0F == GateFlags::INTERRUPT_GATE,
        !IdtDescriptor::absent().is_present(),
{
    lemma_gate_attributes();
    lemma_split_offset(handler);
}

/// What the processor has pushed when a handler is entered.
#[derive(Clone, Copy, Debug, PartialEq, Eq, Structural)]
pub struct ExceptionStackFrame {
    pub ip: u64,
    pub cs: u64,
    pub flags: u64,
    pub sp: u64,
    pub ss: u64,
}

/// The vectors that have a handler.
#[derive(Clone, Copy, Debug, PartialEq, Eq, Structural)]
pub enum Exception {
    /// Vector 8: a fault while another fault was being delivered.
    DoubleFault,
    /// Vector 11.
    SegmentNotPresent,
    /// Vector 12.
    StackSegmentFault,
    /// Vector 13.
    GeneralProtection,
    /// Vector 33: raised by software to try the table out.
    Test,
}

/// What a handler does once it has logged what it was given.
#[derive(Clone, Copy, Debug, PartialEq, Eq, Structural)]
pub enum Disposition {
    /// Go back to the interrupted code.
    Resume,
    /// Stop for good.
    Halt,
}

impl Exception {
    /// The vector the processor raises for this exception.
    pub open spec fn spec_vector(self) -> u8 {
        match self {
            Exception::DoubleFault => 8,
            Exception::SegmentNotPresent => 11,
            Exception::StackSegmentFault => 12,
            Exception::GeneralProtection => 13,
            Exception::Test => 33,
        }
    }

    /// The handled exception with vector `vector`, if there is one.
    pub open spec fn spec_from_vector(vector: u8) -> Option<Exception> {
        if vector == 8 {
            Some(Exception::DoubleFault)
        } else if vector == 11 {
            Some(Exception::SegmentNotPresent)
        } else if vector == 12 {
            Some(Exception::StackSegmentFault)
        } else if vector == 13 {
            Some(Exception::GeneralProtection)
        } else if vector == 33 {
            Some(Exception::Test)
        } else {
            None
        }
    }

    /// The stack index of this exception's gate: the double fault runs on
    /// a stack of its own, all others on the stack that was interrupted.
    pub open spec fn spec_ist(self) -> u8 {
        match self {
            Exception::DoubleFault => 1,
            _ => 0,
        }
    }

    /// Double faults and general-protection faults are fatal; the others
    /// are logged and execution goes on.
    pub open spec fn spec_disposition(self) -> Disposition {
        match self {
            Exception::DoubleFault | Exception::GeneralProtection => Disposition::Halt,
            _ => Disposition::Resume,
        }
    }

    /// Whether the processor pushes an error code for this exception.
    pub open spec fn spec_has_error_code(self) -> bool {
        !(self is Test)
    }

    /// The vector the processor raises for this exception.
    #[verifier::when_used_as_spec(spec_vector)]
    pub fn vector(self) -> (v: u8)
        ensures
            v == self.spec_vector(),
    {
        match self {
            Exception::DoubleFault => 8,
            Exception::SegmentNotPresent => 11,
            Exception::StackSegmentFault => 12,
            Exception::GeneralProtection => 13,
            Exception::Test => 33,
        }
    }

    /// The handled exception with vector `vector`, if there is one.
    pub fn from_vector(vector: u8) -> (e: Option<Exception>)
        ensures
            e == Self::spec_from_vector(vector),
    {
        if vector == 8 {
            Some(Exception::DoubleFault)
        } else if vector == 11 {
            Some(Exception::SegmentNotPresent)
        } else if vector == 12 {
            Some(Exception::StackSegmentFault)
        } else if vector == 13 {
            Some(Exception::GeneralProtection)
        } else if vector == 33 {
            Some(Exception::Test)
        } else {
            None
        }
    }

    /// The stack index of this exception's descriptor.
    #[verifier::when_used_as_spec(spec_ist)]
    pub fn ist(self) -> (i: u8)
        ensures
            i == self.spec_ist(),
    {
        match self {
            Exception::DoubleFault => 1,
            _ => 0,
        }
    }

    /// What the handler of this exception does once it has logged.
    #[verifier::when_used_as_spec(spec_disposition)]
    pub fn disposition(self) -> (d: Disposition)
        ensures
            d == self.spec_disposition(),
    {
        match self {
            Exception::DoubleFault | Exception::GeneralProtection => Disposition::Halt,
            _ => Disposition::Resume,
        }
    }

    /// Whether the processor pushes an error code for this exception.
    #[verifier::when_used_as_spec(spec_has_error_code)]
    pub fn has_error_code(self) -> (b: bool)
        ensures
            b == self.spec_has_error_code(),
    {
        match self {
            Exception::Test => false,
            _ => true,
        }
    }
}

/// Each handled exception is found again from its vector, and the stack
/// index of the double-fault gate names the slot of the task-state segment
/// that holds the double-fault stack.
pub proof fn lemma_exception_vectors(e: Exception)
    ensures
        Exception::spec_from_vector(e.spec_vector()) == Some(e),
        e.spec_ist() <= 7,
        Exception::DoubleFault.spec_ist() == DOUBLE_FAULT_IST + 1,
{
}

/// The addresses of the handlers.
#[derive(Clone, Copy, Debug, PartialEq, Eq, Structural)]
pub struct Handlers {
    pub double_fault: u64,
    pub segment_not_present: u64,
    pub stack_segment_fault: u64,
    pub general_protection: u64,
    pub test: u64,
}

impl Handlers {
    /// The address of the handler of `e`.
    pub open spec fn spec_address(&self, e: Exception) -> u64 {
        match e {
            Exception::DoubleFault => self.double_fault,
            Exception::SegmentNotPresent => self.segment_not_present,
            Exception::StackSegmentFault => self.stack_segment_fault,
            Exception::GeneralProtection => self.general_protection,
            Exception::Test => self.test,
        }
    }

    /// The address of the handler of `e`.
    #[verifier::when_used_as_spec(spec_address)]
    pub fn address(&self, e: Exception) -> (a: u64)
        ensures
            a == self.spec_address(e),
    {
        match e {
            Exception::DoubleFault => self.double_fault,
            Exception::SegmentNotPresent => self.segment_not_present,
            Exception::StackSegmentFault => self.stack_segment_fault,
            Exception::GeneralProtection => self.general_protection,
            Exception::Test => self.test,
        }
    }
}

/// Number of vectors.
pub const NB_ENTRIES: usize = 256;

/// What happens when the processor raises a vector.
#[derive(Clone, Copy, Debug, PartialEq, Eq, Structural)]
pub enum Delivery {
    /// The vector has a present descriptor: its handler runs.
    Handler { address: u64, ist: u8 },
    /// The vector has none, which is a fault of its own and ends in the
    /// double-fault handler.
    DoubleFault { address: u64, ist: u8 },
    /// Neither gate is present: the processor resets.
    Reset,
}

/// The interrupt descriptor table.
#[derive(Clone, Copy, Debug, PartialEq, Eq)]
pub struct Idt {
    pub entries: [IdtDescriptor; 256],
}

impl Idt {
    /// Bytes the table takes in memory.
    pub const SIZE: usize = 4096;

    /// No vector has a handler.
    pub open spec fn is_blank(self) -> bool {
        forall|v: int| 0 <= v < 256 ==> self.entries@[v] == IdtDescriptor::absent()
    }

    /// The descriptor that vector `v` has once the handlers are installed in a
    /// table whose gate for `v` was `before`.
    pub open spec fn installed(handlers: Handlers, v: int, before: IdtDescriptor) -> IdtDescriptor {
        match Exception::spec_from_vector(v as u8) {
            Some(e) => IdtDescriptor::gate(handlers.spec_address(e), e.spec_ist()),
            None => before,
        }
    }

    /// The table as it lies in memory: the gates one after the other.
    pub open spec fn image(self) -> Seq<u8> {
        Seq::new(4096, |i: int| self.entries@[i / 16].image()[i % 16])
    }

    /// What the processor does on vector `vector`.
    pub open spec fn spec_deliver(&self, vector: u8) -> Delivery {
        let gate = self.entries@[vector as int];
        let fallback = self.entries@[8];
        if gate.is_present() {
            Delivery::Handler { address: gate.offset(), ist: gate.ist }
        } else if fallback.is_present() {
            Delivery::DoubleFault { address: fallback.offset(), ist: fallback.ist }
        } else {
            Delivery::Reset
        }
    }

    /// A table in which every gate is absent.
    pub fn new() -> (idt: Self)
        ensures
            idt.is_blank(),
    {
        Idt { entries: [IdtDescriptor::missing(); 256] }
    }

    /// Installs a present descriptor for `handler` at `vector`.
    pub fn set_handler(&mut self, vector: u8, handler: u64, ist: u8)
        ensures
            final(self).entries@ == old(self).entries@.update(
                vector as int,
                IdtDescriptor::gate(handler, ist),
            ),
    {
        self.entries[vector as usize] = IdtDescriptor::new(handler, ist);
    }

    /// What the processor does on vector `vector` with this table
    /// active: it enters the vector's handler; where the vector has none,
    /// the double-fault handler; where that is missing too, it resets.
    #[verifier::when_used_as_spec(spec_deliver)]
    pub fn deliver(&self, vector: u8) -> (d: Delivery)
        ensures
            d == self.spec_deliver(vector),
    {
        let gate = &self.entries[vector as usize];
        let fallback = &self.entries[8];
        if gate.present() {
            Delivery::Handler { address: gate.handler(), ist: gate.ist }
        } else if fallback.present() {
            Delivery::DoubleFault { address: fallback.handler(), ist: fallback.ist }
        } else {
            Delivery::Reset
        }
    }

    /// The table as bytes, to be put where the table register points.
    pub fn to_bytes(&self) -> (out: [u8; 4096])
        ensures
            out@ == self.image(),
            out@.len() == Self::SIZE,
            out@.len() == NB_ENTRIES * IdtDescriptor::SIZE,
    {
        let mut out: [u8; 4096] = [0u8; 4096];
        let mut v: usize = 0;
        while v < 256
            invariant
                v <= 256,
                forall|i: int| 0 <= i < v * 16 ==> out@[i] == self.entries@[i / 16].image()[i % 16],
            decreases 256 - v,
        {
            let gate = self.entries[v].to_bytes();
            write_bytes(&mut out, v * 16, &gate);
            v += 1;
        }
        assert(out@ =~= self.image());
        out
    }
}

/// Installs the gates of the handled exceptions and says how to activate
/// the table, which lies at `idt_address`. Every other gate stays as it
/// was.
pub fn prepare(idt: &mut Idt, handlers: &Handlers, idt_address: u64) -> (register:
    DescriptorTableRegister)
    ensures
        forall|v: int|
            0 <= v < 256 ==> #[trigger] final(idt).entries@[v] == Idt::installed(
                *handlers,
                v,
                old(idt).entries@[v],
            ),
        register == (DescriptorTableRegister { limit: (Idt::SIZE - 1) as u16, base: idt_address }),
{
    idt.set_handler(11, handlers.segment_not_present, 0);
    idt.set_handler(12, handlers.stack_segment_fault, 0);
    idt.set_handler(13, handlers.general_protection, 0);
    idt.set_handler(33, handlers.test, 0);
    idt.set_handler(8, handlers.double_fault, 1);
    DescriptorTableRegister::new(idt_address, Idt::SIZE)
}

/// Once the handlers are installed in a blank table, each handled vector
/// enters its own handler on its own stack index, and every other vector
/// ends in the double-fault handler on the double-fault stack.
pub proof fn lemma_delivery_after_install(before: Idt, after: Idt, handlers: Handlers, vector: u8)
    requires
        before.is_blank(),
        forall|v: int|
            0 <= v < 256 ==> #[trigger] after.entries@[v] == Idt::installed(
                handlers,
                v,
                before.entries@[v],
            ),
    ensures
        match Exception::spec_from_vector(vector) {
            Some(e) => after.spec_deliver(vector) == (Delivery::Handler {
                address: handlers.spec_address(e),
                ist: e.spec_ist(),
            }),
            None => after.spec_deliver(vector) == (Delivery::DoubleFault {
                address: handlers.double_fault,
                ist: 1,
            }),
        },
{
    let gate = after.entries@[vector as int];
    let fallback = after.entries@[8];
    assert(fallback == IdtDescriptor::gate(handlers.double_fault, 1));
    lemma_gate_round_trip(handlers.double_fault, 1);
    match Exception::spec_from_vector(vector) {
        Some(e) => {
            lemma_gate_round_trip(handlers.spec_address(e), e.spec_ist());
        },
        None => {
            assert(gate == IdtDescriptor::absent());
        },
    }
}

/// In a blank table every vector ends in a reset.
pub proof fn lemma_delivery_blank(idt: Idt, vector: u8)
    requires
        idt.is_blank(),
    ensures
        idt.spec_deliver(vector) == Delivery::Reset,
{
    lemma_gate_round_trip(0, 0);
    assert(idt.entries@[vector as int] == IdtDescriptor::absent());
    assert(idt.entries@[8] == IdtDescriptor::absent());
}

} // verus!
