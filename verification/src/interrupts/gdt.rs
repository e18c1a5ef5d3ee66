//! The global descriptor table and the task-state segment.
//!
//! In 64-bit mode the table is mostly a legacy structure: it still decides
//! the privilege level of code and data, and it is the only way to tell the
//! processor where the task-state segment lies.

use vstd::prelude::*;
use crate::interrupts::{
    selector_index, DescriptorTableRegister, Placement, SegmentSelector, KERNEL_CS, KERNEL_DS,
    TSS_SELECTOR,
};
use crate::wire::{
    le16, le32, le64, lemma_word16_of_image, lemma_word64_of_image, word16, word64, write_bytes,
    write_u16, write_u32, write_u64, write_u8,
};

verus! {

/// The flag nibble that shares a byte with bits 19:16 of the limit.
#[derive(Clone, Copy, Debug, PartialEq, Eq, Structural)]
pub struct SegmentUpperFlags {
    pub bits: u8,
}

impl SegmentUpperFlags {
    /// The segment holds 64-bit code; segmentation is off.
    pub const LONG_MODE: u8 = 0x20;

    /// No flag set.
    pub fn empty() -> (flags: Self)
        ensures
            flags.bits == 0,
    {
        SegmentUpperFlags { bits: 0 }
    }
}

/// The access byte of a descriptor.
#[derive(Clone, Copy, Debug, PartialEq, Eq, Structural)]
pub struct SegmentLowerFlags {
    pub bits: u8,
}

impl SegmentLowerFlags {
    /// The descriptor is in use.
    pub const PRESENT: u8 = 0x80;

    /// Descriptor privilege level 0: the kernel.
    pub const DPL_0: u8 = 0x00;

    /// Descriptor privilege level 3: user code.
    pub const DPL_3: u8 = 0x60;

    /// A code or data descriptor.
    pub const USER_DESCRIPTOR: u8 = 0x10;

    /// A system descriptor: bit 4 is clear.
    pub const SYSTEM_DESCRIPTOR: u8 = 0x00;

    /// A code segment; a data segment where clear.
    pub const EXECUTE: u8 = 0x08;

    /// Readable, for a code segment; writable, for a data segment.
    pub const ACCESSIBLE: u8 = 0x02;

    /// Present, ring 0, code, readable.
    pub const KERNEL_CODE: u8 = 0x9A;

    /// Present, ring 0, data, writable.
    pub const KERNEL_DATA: u8 = 0x92;

    /// Present, system descriptor of type 9: an available 64-bit
    /// task-state segment.
    pub const TSS_SEGMENT: u8 = 0x89;

    /// Whether every bit of `mask` is set.
    pub open spec fn has(self, mask: u8) -> bool {
        self.bits & mask == mask
    }

    /// No flag set.
    pub fn empty() -> (flags: Self)
        ensures
            flags.bits == 0,
    {
        SegmentLowerFlags { bits: 0 }
    }

    /// Whether every bit of `mask` is set.
    pub fn contains(&self, mask: u8) -> (r: bool)
        ensures
            r == self.has(mask),
    {
        self.bits & mask == mask
    }
}

/// The named patterns are the unions of the single flags they stand for.
pub proof fn lemma_access_patterns()
    by (bit_vector)
    ensures
        SegmentLowerFlags::KERNEL_CODE == SegmentLowerFlags::PRESENT | SegmentLowerFlags::DPL_0
            | SegmentLowerFlags::USER_DESCRIPTOR | SegmentLowerFlags::EXECUTE
            | SegmentLowerFlags::ACCESSIBLE,
        SegmentLowerFlags::KERNEL_DATA == SegmentLowerFlags::PRESENT | SegmentLowerFlags::DPL_0
            | SegmentLowerFlags::USER_DESCRIPTOR | SegmentLowerFlags::ACCESSIBLE,
        SegmentLowerFlags::TSS_SEGMENT == SegmentLowerFlags::PRESENT | 0b1001u8
            | SegmentLowerFlags::SYSTEM_DESCRIPTOR,
        SegmentLowerFlags::PRESENT == 1u8 << 7,
        SegmentLowerFlags::DPL_3 == 3u8 << 5,
        SegmentLowerFlags::USER_DESCRIPTOR == 1u8 << 4,
        SegmentLowerFlags::EXECUTE == 1u8 << 3,
        SegmentLowerFlags::ACCESSIBLE == 1u8 << 1,
        SegmentUpperFlags::LONG_MODE == 1u8 << 5,
{
}

/// A code or data descriptor: eight bytes.
#[derive(Clone, Copy, Debug, PartialEq, Eq, Structural)]
pub struct UserSegmentDescriptor {
    pub limit_15_0: u16,
    pub base_15_0: u16,
    pub base_23_16: u8,
    pub lower_flags: SegmentLowerFlags,
    /// Bits 3:0 are bits 19:16 of the limit, bits 7:4 the flags.
    pub limit_and_upper_flags: u8,
    pub base_31_24: u8,
}

impl UserSegmentDescriptor {
    /// Bytes a descriptor takes in the table.
    pub const SIZE: usize = 8;

    /// The descriptor with the given flags and with base and limit zero,
    /// which the processor ignores in 64-bit mode.
    pub open spec fn flat(upper_flags: SegmentUpperFlags, lower_flags: SegmentLowerFlags) -> Self {
        UserSegmentDescriptor {
            limit_15_0: 0,
            base_15_0: 0,
            base_23_16: 0,
            lower_flags,
            limit_and_upper_flags: upper_flags.bits,
            base_31_24: 0,
        }
    }

    /// The descriptor as it lies in the table.
    pub open spec fn image(self) -> Seq<u8> {
        le16(self.limit_15_0) + le16(self.base_15_0) + seq![
            self.base_23_16,
            self.lower_flags.bits,
            self.limit_and_upper_flags,
            self.base_31_24,
        ]
    }

    /// The descriptor with the given flags and with base and limit zero.
    pub fn new(upper_flags: SegmentUpperFlags, lower_flags: SegmentLowerFlags) -> (d: Self)
        ensures
            d == Self::flat(upper_flags, lower_flags),
    {
        UserSegmentDescriptor {
            limit_15_0: 0,
            base_15_0: 0,
            base_23_16: 0,
            limit_and_upper_flags: upper_flags.bits,
            lower_flags,
            base_31_24: 0,
        }
    }

    /// The descriptor of entry 0, which no selector may use.
    pub fn null() -> (d: Self)
        ensures
            d == Self::flat(SegmentUpperFlags { bits: 0 }, SegmentLowerFlags { bits: 0 }),
    {
        UserSegmentDescriptor::new(SegmentUpperFlags::empty(), SegmentLowerFlags::empty())
    }

    /// The descriptor as bytes, to be put in the table.
    pub fn to_bytes(&self) -> (out: [u8; 8])
        ensures
            out@ == self.image(),
    {
        let mut out: [u8; 8] = [0u8; 8];
        write_u16(&mut out, 0, self.limit_15_0);
        write_u16(&mut out, 2, self.base_15_0);
        write_u8(&mut out, 4, self.base_23_16);
        write_u8(&mut out, 5, self.lower_flags.bits);
        write_u8(&mut out, 6, self.limit_and_upper_flags);
        write_u8(&mut out, 7, self.base_31_24);
        assert(out@ =~= self.image());
        out
    }
}

/// The descriptor of a system segment: sixteen bytes, with room for a
/// 64-bit base. Only the task-state segment has one.
#[derive(Clone, Copy, Debug, PartialEq, Eq, Structural)]
pub struct SystemSegmentDescriptor {
    pub limit_15_0: u16,
    pub base_15_0: u16,
    pub base_23_16: u8,
    pub lower_flags: SegmentLowerFlags,
    /// Bits 3:0 are bits 19:16 of the limit, bits 7:4 the flags.
    pub limit_and_upper_flags: u8,
    pub base_31_24: u8,
    pub base_63_32: u32,
    pub zero: u32,
}

proof fn lemma_split_base(base: u64)
    by (bit_vector)
    ensures
        ((((base >> 32) as u32) as u64) << 32) | ((((base >> 24) as u8) as u64) << 24) | ((((base
            >> 16) as u8) as u64) << 16) | ((base as u16) as u64) == base,
{
}

impl SystemSegmentDescriptor {
    /// Bytes the descriptor takes in the table.
    pub const SIZE: usize = 16;

    /// The descriptor of a task-state segment whose place and size are
    /// not set yet.
    pub open spec fn blank_tss() -> Self {
        SystemSegmentDescriptor {
            limit_15_0: 0,
            base_15_0: 0,
            base_23_16: 0,
            lower_flags: SegmentLowerFlags { bits: SegmentLowerFlags::TSS_SEGMENT },
            limit_and_upper_flags: 0,
            base_31_24: 0,
            base_63_32: 0,
            zero: 0,
        }
    }

    /// The address the descriptor points at, put together from the four
    /// fields it is split over.
    pub open spec fn base(self) -> u64 {
        ((self.base_63_32 as u64) << 32) | ((self.base_31_24 as u64) << 24) | ((
        self.base_23_16 as u64) << 16) | (self.base_15_0 as u64)
    }

    /// This descriptor, pointing at `base`.
    pub open spec fn with_base(self, base: u64) -> Self {
        SystemSegmentDescriptor {
            base_15_0: base as u16,
            base_23_16: (base >> 16) as u8,
            base_31_24: (base >> 24) as u8,
            base_63_32: (base >> 32) as u32,
            ..self
        }
    }

    /// The descriptor as it lies in the table.
    pub open spec fn image(self) -> Seq<u8> {
        le16(self.limit_15_0) + le16(self.base_15_0) + seq![
            self.base_23_16,
            self.lower_flags.bits,
            self.limit_and_upper_flags,
            self.base_31_24,
        ] + le32(self.base_63_32) + le32(self.zero)
    }

    /// The descriptor of a task-state segment whose place and size are
    /// not set yet.
    pub fn tss() -> (d: Self)
        ensures
            d == Self::blank_tss(),
    {
        SystemSegmentDescriptor {
            limit_15_0: 0,
            base_15_0: 0,
            base_23_16: 0,
            lower_flags: SegmentLowerFlags { bits: SegmentLowerFlags::TSS_SEGMENT },
            limit_and_upper_flags: SegmentUpperFlags::empty().bits,
            base_31_24: 0,
            base_63_32: 0,
            zero: 0,
        }
    }

    /// Points the descriptor at `base`, the address of the segment.
    pub fn set_base(&mut self, base: u64) -> (ret: &mut Self)
        ensures
            *ret == old(self).with_base(base),
            ret.base() == base,
            *final(self) == *final(ret),
    {
        proof {
            lemma_split_base(base);
        }
        self.base_15_0 = #[verifier::truncate] (base as u16);
        self.base_23_16 = #[verifier::truncate] ((base >> 16) as u8);
        self.base_31_24 = #[verifier::truncate] ((base >> 24) as u8);
        self.base_63_32 = #[verifier::truncate] ((base >> 32) as u32);
        self
    }

    /// Sets bits 15:0 of the limit.
    pub fn set_limit(&mut self, limit: u16) -> (ret: &mut Self)
        ensures
            *ret == (SystemSegmentDescriptor { limit_15_0: limit, ..*old(self) }),
            *final(self) == *final(ret),
    {
        self.limit_15_0 = limit;
        self
    }

    /// The descriptor as bytes, to be put in the table.
    pub fn to_bytes(&self) -> (out: [u8; 16])
        ensures
            out@ == self.image(),
    {
        let mut out: [u8; 16] = [0u8; 16];
        write_u16(&mut out, 0, self.limit_15_0);
        write_u16(&mut out, 2, self.base_15_0);
        write_u8(&mut out, 4, self.base_23_16);
        write_u8(&mut out, 5, self.lower_flags.bits);
        write_u8(&mut out, 6, self.limit_and_upper_flags);
        write_u8(&mut out, 7, self.base_31_24);
        write_u32(&mut out, 8, self.base_63_32);
        write_u32(&mut out, 12, self.zero);
        assert(out@ =~= self.image());
        out
    }
}

/// Wherever a descriptor is pointed, putting its four base fields together
/// again gives that address.
pub proof fn lemma_base_round_trip(d: SystemSegmentDescriptor, base: u64)
    ensures
        d.with_base(base).base() == base,
{
    lemma_split_base(base);
}

/// A stretch of memory set aside as a stack. Stacks grow downwards, so
/// the first push goes just below `top()`.
#[derive(Clone, Copy, Debug, PartialEq, Eq, Structural)]
pub struct StackRegion {
    /// Lowest address of the region.
    pub base: u64,
    /// Length of the region in bytes.
    pub size: u64,
}

impl StackRegion {
    /// The region ends within the address space.
    pub open spec fn wf(self) -> bool {
        self.base + self.size <= u64::MAX
    }

    /// The address just past the region.
    pub open spec fn end(self) -> int {
        self.base + self.size
    }

    /// No byte belongs to both regions.
    pub open spec fn disjoint(self, other: StackRegion) -> bool {
        self.size == 0 || other.size == 0 || self.end() <= other.base || other.end() <= self.base
    }

    /// Whether the region ends within the address space.
    pub fn fits(&self) -> (ok: bool)
        ensures
            ok == self.wf(),
    {
        self.size <= u64::MAX - self.base
    }

    /// The initial stack pointer for this region.
    pub fn top(&self) -> (top: u64)
        requires
            self.wf(),
        ensures
            top == self.end(),
    {
        self.base + self.size
    }

    /// Whether the two regions share a byte.
    pub fn overlaps(&self, other: &StackRegion) -> (r: bool)
        ensures
            r == !self.disjoint(*other),
    {
        let starts_before_end = self.base < other.base || self.base - other.base < other.size;
        let ends_after_start = other.base < self.base || other.base - self.base < self.size;
        self.size != 0 && other.size != 0 && starts_before_end && ends_after_start
    }
}

/// Slot of the interrupt stack table that holds the stack for double
/// faults.
pub const DOUBLE_FAULT_IST: usize = 0;

/// The task-state segment of 64-bit mode: the stacks the processor
/// switches to on a change of privilege level or for a gate that asks for
/// a stack of its own.
#[derive(Clone, Copy, Debug, PartialEq, Eq)]
pub struct Tss {
    /// Stack pointers for rings 0 to 2.
    pub rsp_list: [u64; 3],
    /// The interrupt stack table. A gate names slot `n` as `n + 1`.
    pub ist_list: [u64; 7],
    /// Offset of the I/O permission map from the start of the segment.
    pub io_map_base: u16,
}

impl Tss {
    /// Bytes the segment takes in memory.
    pub const SIZE: usize = 0x68;

    /// Every stack pointer is zero.
    pub open spec fn is_blank(self) -> bool {
        &&& forall|i: int| 0 <= i < 3 ==> self.rsp_list@[i] == 0
        &&& forall|i: int| 0 <= i < 7 ==> self.ist_list@[i] == 0
        &&& self.io_map_base == 0
    }

    /// The segment as the processor reads it. The reserved fields are
    /// zero.
    pub open spec fn image(self) -> Seq<u8> {
        le32(0) + le64(self.rsp_list@[0]) + le64(self.rsp_list@[1]) + le64(self.rsp_list@[2])
            + le64(0) + le64(self.ist_list@[0]) + le64(self.ist_list@[1]) + le64(
            self.ist_list@[2],
        ) + le64(self.ist_list@[3]) + le64(self.ist_list@[4]) + le64(self.ist_list@[5]) + le64(
            self.ist_list@[6],
        ) + le64(0) + le16(0) + le16(self.io_map_base)
    }

    /// A segment in which every stack pointer is zero.
    pub fn new() -> (tss: Self)
        ensures
            tss.is_blank(),
    {
        Tss { rsp_list: [0; 3], ist_list: [0; 7], io_map_base: 0 }
    }

    /// The segment as bytes, to be put where its descriptor points.
    pub fn to_bytes(&self) -> (out: [u8; 104])
        ensures
            out@ == self.image(),
            out@.len() == Self::SIZE,
    {
        let mut out: [u8; 104] = [0u8; 104];
        write_u32(&mut out, 0, 0);
        write_u64(&mut out, 4, self.rsp_list[0]);
        write_u64(&mut out, 12, self.rsp_list[1]);
        write_u64(&mut out, 20, self.rsp_list[2]);
        write_u64(&mut out, 28, 0);
        write_u64(&mut out, 36, self.ist_list[0]);
        write_u64(&mut out, 44, self.ist_list[1]);
        write_u64(&mut out, 52, self.ist_list[2]);
        write_u64(&mut out, 60, self.ist_list[3]);
        write_u64(&mut out, 68, self.ist_list[4]);
        write_u64(&mut out, 76, self.ist_list[5]);
        write_u64(&mut out, 84, self.ist_list[6]);
        write_u64(&mut out, 92, 0);
        write_u16(&mut out, 100, 0);
        write_u16(&mut out, 102, self.io_map_base);
        assert(out@ =~= self.image());
        out
    }
}

/// Where the processor looks for what: the stack pointer of ring `k` lies
/// at offset `4 + 8 * k` of the segment, slot `k` of the interrupt stack
/// table at offset `0x24 + 8 * k`, and the offset of the I/O permission map
/// at offset `0x66`.
pub proof fn lemma_tss_layout(tss: Tss, k: int)
    ensures
        tss.image().len() == Tss::SIZE,
        0 <= k < 3 ==> word64(tss.image(), 4 + 8 * k) == tss.rsp_list@[k],
        0 <= k < 7 ==> word64(tss.image(), 0x24 + 8 * k) == tss.ist_list@[k],
        word16(tss.image(), 0x66) == tss.io_map_base,
{
    let image = tss.image();
    if 0 <= k < 3 {
        assert(image.subrange(4 + 8 * k, 4 + 8 * k + 8) =~= le64(tss.rsp_list@[k]));
        lemma_word64_of_image(image, 4 + 8 * k, tss.rsp_list@[k]);
    }
    if 0 <= k < 7 {
        assert(image.subrange(0x24 + 8 * k, 0x24 + 8 * k + 8) =~= le64(tss.ist_list@[k]));
        lemma_word64_of_image(image, 0x24 + 8 * k, tss.ist_list@[k]);
    }
    assert(image.subrange(0x66, 0x68) =~= le16(tss.io_map_base));
    lemma_word16_of_image(image, 0x66, tss.io_map_base);
}

/// The global descriptor table: the null entry, kernel code, kernel data,
/// and the descriptor of the task-state segment.
#[derive(Clone, Copy, Debug, PartialEq, Eq)]
pub struct Gdt {
    pub user_segments: [UserSegmentDescriptor; 3],
    pub tss: SystemSegmentDescriptor,
}

impl Gdt {
    /// Bytes the table takes in memory.
    pub const SIZE: usize = 40;

    /// The table as it is before the task-state segment has a place:
    /// entry 0 null, entry 1 ring-0 code in long mode, entry 2 ring-0 data,
    /// entry 3 a task-state descriptor with base and limit zero.
    pub open spec fn is_fresh(self) -> bool {
        &&& self.user_segments@ == Self::fresh_segments()
        &&& self.tss == SystemSegmentDescriptor::blank_tss()
    }

    /// The three code and data entries: null, ring-0 code in long mode,
    /// ring-0 data.
    pub open spec fn fresh_segments() -> Seq<UserSegmentDescriptor> {
        seq![
            UserSegmentDescriptor::flat(
                SegmentUpperFlags { bits: 0 },
                SegmentLowerFlags { bits: 0 },
            ),
            UserSegmentDescriptor::flat(
                SegmentUpperFlags { bits: SegmentUpperFlags::LONG_MODE },
                SegmentLowerFlags { bits: SegmentLowerFlags::KERNEL_CODE },
            ),
            UserSegmentDescriptor::flat(
                SegmentUpperFlags { bits: SegmentUpperFlags::LONG_MODE },
                SegmentLowerFlags { bits: SegmentLowerFlags::KERNEL_DATA },
            ),
        ]
    }

    /// The table as it lies in memory.
    pub open spec fn image(self) -> Seq<u8> {
        self.user_segments@[0].image() + self.user_segments@[1].image()
            + self.user_segments@[2].image() + self.tss.image()
    }

    /// The table as it is before the task-state segment has a place.
    pub fn new() -> (gdt: Self)
        ensures
            gdt.is_fresh(),
    {
        Gdt {
            user_segments: [
                UserSegmentDescriptor::null(),
                UserSegmentDescriptor::new(
                    SegmentUpperFlags { bits: SegmentUpperFlags::LONG_MODE },
                    SegmentLowerFlags { bits: SegmentLowerFlags::KERNEL_CODE },
                ),
                UserSegmentDescriptor::new(
                    SegmentUpperFlags { bits: SegmentUpperFlags::LONG_MODE },
                    SegmentLowerFlags { bits: SegmentLowerFlags::KERNEL_DATA },
                ),
            ],
            tss: SystemSegmentDescriptor::tss(),
        }
    }

    /// The table as bytes, to be put where the table register points.
    pub fn to_bytes(&self) -> (out: [u8; 40])
        ensures
            out@ == self.image(),
            out@.len() == Self::SIZE,
    {
        let mut out: [u8; 40] = [0u8; 40];
        let null = self.user_segments[0].to_bytes();
        let code = self.user_segments[1].to_bytes();
        let data = self.user_segments[2].to_bytes();
        let tss = self.tss.to_bytes();
        write_bytes(&mut out, 0, &null);
        write_bytes(&mut out, 8, &code);
        write_bytes(&mut out, 16, &data);
        write_bytes(&mut out, 24, &tss);
        assert(out@ =~= self.image());
        out
    }
}

/// In a fresh table the code selector finds the kernel-code access byte
/// with the long-mode flag, the data selector the kernel-data access byte,
/// and the task selector the task-state descriptor.
pub proof fn lemma_selectors_match_table(gdt: Gdt)
    requires
        gdt.is_fresh(),
    ensures
        gdt.user_segments@[selector_index(KERNEL_CS) as int].lower_flags.bits
            == SegmentLowerFlags::KERNEL_CODE,
        gdt.user_segments@[selector_index(KERNEL_CS) as int].limit_and_upper_flags
            == SegmentUpperFlags::LONG_MODE,
        gdt.user_segments@[selector_index(KERNEL_DS) as int].lower_flags.bits
            == SegmentLowerFlags::KERNEL_DATA,
        selector_index(TSS_SELECTOR) == 3,
        gdt.tss.lower_flags.bits == SegmentLowerFlags::TSS_SEGMENT,
{
    assert(0x08u16 >> 3 == 1 && 0x10u16 >> 3 == 2 && 0x18u16 >> 3 == 3) by (bit_vector);
}

/// What the processor has to be told once the table and the task-state
/// segment lie in memory: the operand for the table register, the
/// selectors for the code segment and for every data-segment register,
/// and the selector for the task register.
#[derive(Clone, Copy, Debug, PartialEq, Eq, Structural)]
pub struct SegmentActivation {
    pub register: DescriptorTableRegister,
    pub code_selector: SegmentSelector,
    pub data_selector: SegmentSelector,
    pub task_selector: SegmentSelector,
}

/// One thing the processor is told while the segment table is activated.
#[derive(Clone, Copy, Debug, PartialEq, Eq, Structural)]
pub enum SegmentStep {
    /// Load the table register with this operand.
    LoadTable(DescriptorTableRegister),
    /// Reload the code segment register with this selector. A plain move
    /// cannot do it, since instructions are fetched through that register:
    /// push the selector and the address of the next instruction, and
    /// return far.
    ReloadCode(SegmentSelector),
    /// Move this selector to each of the registers `ds`, `es`, `fs`, `gs`
    /// and `ss`.
    ReloadData(SegmentSelector),
    /// Load the task register with this selector.
    LoadTask(SegmentSelector),
}

impl SegmentActivation {
    /// The steps of the activation, in the order in which they have to
    /// be taken: the table first, since the selectors are looked up in it;
    /// the task register last.
    pub open spec fn spec_steps(&self) -> Seq<SegmentStep> {
        seq![
            SegmentStep::LoadTable(self.register),
            SegmentStep::ReloadCode(self.code_selector),
            SegmentStep::ReloadData(self.data_selector),
            SegmentStep::LoadTask(self.task_selector),
        ]
    }

    /// The steps of the activation, in the order in which they have to
    /// be taken.
    pub fn steps(&self) -> (steps: [SegmentStep; 4])
        ensures
            steps@ == self.spec_steps(),
    {
        let steps = [
            SegmentStep::LoadTable(self.register),
            SegmentStep::ReloadCode(self.code_selector),
            SegmentStep::ReloadData(self.data_selector),
            SegmentStep::LoadTask(self.task_selector),
        ];
        assert(steps@ =~= self.spec_steps());
        steps
    }
}

/// Completes the table and the task-state segment for the place they
/// will lie at, and says how to activate them.
///
/// The stack for double faults must not share a byte with the stack the
/// kernel runs on: a double fault that follows from running out of stack
/// could not be handled on the stack that ran out.
pub fn prepare(gdt: &mut Gdt, tss: &mut Tss, placement: &Placement) -> (activation:
    SegmentActivation)
    requires
        placement.wf(),
    ensures
        final(tss).ist_list@ == old(tss).ist_list@.update(
            DOUBLE_FAULT_IST as int,
            placement.double_fault_stack.end() as u64,
        ),
        final(tss).rsp_list == old(tss).rsp_list,
        final(tss).io_map_base == old(tss).io_map_base,
        final(gdt).user_segments == old(gdt).user_segments,
        final(gdt).tss == (SystemSegmentDescriptor {
            limit_15_0: Tss::SIZE as u16,
            ..old(gdt).tss.with_base(placement.tss_address)
        }),
        final(gdt).tss.base() == placement.tss_address,
        activation == (SegmentActivation {
            register: DescriptorTableRegister {
                limit: (Gdt::SIZE - 1) as u16,
                base: placement.gdt_address,
            },
            code_selector: KERNEL_CS,
            data_selector: KERNEL_DS,
            task_selector: TSS_SELECTOR,
        }),
{
    tss.ist_list[DOUBLE_FAULT_IST] = placement.double_fault_stack.top();
    gdt.tss.set_base(placement.tss_address).set_limit(Tss::SIZE as u16);
    SegmentActivation {
        register: DescriptorTableRegister::new(placement.gdt_address, Gdt::SIZE),
        code_selector: KERNEL_CS,
        data_selector: KERNEL_DS,
        task_selector: TSS_SELECTOR,
    }
}

} // verus!
