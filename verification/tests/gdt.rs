use bringup::interrupts::gdt::{
    prepare, Gdt, SegmentLowerFlags, SegmentStep, SegmentUpperFlags, StackRegion,
    SystemSegmentDescriptor, Tss, UserSegmentDescriptor, DOUBLE_FAULT_IST,
};
use bringup::interrupts::idt::Handlers;
use bringup::interrupts::{
    new_segment, DescriptorTableRegister, Placement, Ring, KERNEL_CS, KERNEL_DS, TSS_SELECTOR,
};

fn placement() -> Placement {
    Placement {
        gdt_address: 0xffff_8000_0010_0000,
        tss_address: 0xffff_8000_0020_3040,
        idt_address: 0xffff_8000_0030_0000,
        kernel_stack: StackRegion { base: 0x8_0000, size: 0x8000 },
        double_fault_stack: StackRegion { base: 0x9_0000, size: 0x1000 },
        handlers: Handlers {
            double_fault: 1,
            segment_not_present: 2,
            stack_segment_fault: 3,
            general_protection: 4,
            test: 5,
        },
    }
}

fn base_of(d: &SystemSegmentDescriptor) -> u64 {
    (d.base_63_32 as u64) << 32
        | (d.base_31_24 as u64) << 24
        | (d.base_23_16 as u64) << 16
        | (d.base_15_0 as u64)
}

#[test]
fn tss_size_is_correct() {
    assert_eq!(Tss::SIZE, 0x68);
    assert_eq!(Tss::new().to_bytes().len(), 0x68);
}

#[test]
fn code_and_data_selectors_match() {
    let gdt = Gdt::new();
    let cs_index = ((KERNEL_CS >> 3) & 0b11) as usize;
    let gdt_cs_entry = &gdt.user_segments[cs_index];
    assert!(gdt_cs_entry.lower_flags.contains(SegmentLowerFlags::KERNEL_CODE));
    assert_eq!(gdt_cs_entry.lower_flags.bits, 0x9a);

    let ds_index = ((KERNEL_DS >> 3) & 0b11) as usize;
    let gdt_ds_entry = &gdt.user_segments[ds_index];
    assert!(gdt_ds_entry.lower_flags.contains(SegmentLowerFlags::KERNEL_DATA));
    assert_eq!(gdt_ds_entry.lower_flags.bits, 0x92);
    assert!(!gdt_ds_entry.lower_flags.contains(SegmentLowerFlags::KERNEL_CODE));
}

#[test]
fn tss_selector_matches() {
    let mut gdt = Gdt::new();
    let mut tss = Tss::new();
    let at = placement();
    prepare(&mut gdt, &mut tss, &at);
    assert_eq!(((TSS_SELECTOR >> 3) & 0b11) as usize, 3);
    assert!(gdt.tss.lower_flags.contains(SegmentLowerFlags::TSS_SEGMENT));
    assert_eq!(base_of(&gdt.tss), at.tss_address);
}

#[test]
fn selector_encoding() {
    assert_eq!(new_segment(1, Ring::Ring0), 0x08);
    assert_eq!(new_segment(2, Ring::Ring0), 0x10);
    assert_eq!(new_segment(3, Ring::Ring0), 0x18);
    assert_eq!(new_segment(0, Ring::Ring0), 0);
    assert_eq!(new_segment(4, Ring::Ring3), 0x23);
    assert_eq!(new_segment(8191, Ring::Ring3), 0xfffb);
    assert_eq!(new_segment(8192, Ring::Ring0), 0);
    assert_eq!(KERNEL_CS, new_segment(1, Ring::Ring0));
    assert_eq!(KERNEL_DS, new_segment(2, Ring::Ring0));
    assert_eq!(TSS_SELECTOR, new_segment(3, Ring::Ring0));
    assert_eq!(Ring::Ring0.bits(), 0);
    assert_eq!(Ring::Ring3.bits(), 3);
}

#[test]
fn access_bytes_are_the_unions_of_their_flags() {
    assert_eq!(SegmentLowerFlags::PRESENT, 1 << 7);
    assert_eq!(SegmentLowerFlags::DPL_0, 0 << 5);
    assert_eq!(SegmentLowerFlags::DPL_3, 3 << 5);
    assert_eq!(SegmentLowerFlags::USER_DESCRIPTOR, 1 << 4);
    assert_eq!(SegmentLowerFlags::SYSTEM_DESCRIPTOR, 0 << 4);
    assert_eq!(SegmentLowerFlags::EXECUTE, 1 << 3);
    assert_eq!(SegmentLowerFlags::ACCESSIBLE, 1 << 1);
    assert_eq!(
        SegmentLowerFlags::KERNEL_CODE,
        SegmentLowerFlags::PRESENT
            | SegmentLowerFlags::DPL_0
            | SegmentLowerFlags::USER_DESCRIPTOR
            | SegmentLowerFlags::EXECUTE
            | SegmentLowerFlags::ACCESSIBLE
    );
    assert_eq!(
        SegmentLowerFlags::KERNEL_DATA,
        SegmentLowerFlags::PRESENT
            | SegmentLowerFlags::DPL_0
            | SegmentLowerFlags::USER_DESCRIPTOR
            | SegmentLowerFlags::ACCESSIBLE
    );
    assert_eq!(
        SegmentLowerFlags::TSS_SEGMENT,
        SegmentLowerFlags::PRESENT | 0b1001 | SegmentLowerFlags::SYSTEM_DESCRIPTOR
    );
    assert_eq!(SegmentUpperFlags::LONG_MODE, 1 << 5);
    assert_eq!(SegmentUpperFlags::empty().bits, 0);
    assert_eq!(SegmentLowerFlags::empty().bits, 0);
    assert!(SegmentLowerFlags::empty().contains(0));
    assert!(!SegmentLowerFlags::empty().contains(SegmentLowerFlags::PRESENT));
    let data = SegmentLowerFlags { bits: SegmentLowerFlags::KERNEL_DATA };
    assert!(data.contains(SegmentLowerFlags::PRESENT | SegmentLowerFlags::ACCESSIBLE));
    assert!(!data.contains(SegmentLowerFlags::EXECUTE));
}

#[test]
fn fresh_table_entries() {
    let gdt = Gdt::new();
    assert_eq!(gdt.user_segments[0], UserSegmentDescriptor::null());
    assert_eq!(
        gdt.user_segments[0],
        UserSegmentDescriptor {
            limit_15_0: 0,
            base_15_0: 0,
            base_23_16: 0,
            lower_flags: SegmentLowerFlags { bits: 0 },
            limit_and_upper_flags: 0,
            base_31_24: 0,
        }
    );
    assert_eq!(
        gdt.user_segments[1],
        UserSegmentDescriptor {
            limit_15_0: 0,
            base_15_0: 0,
            base_23_16: 0,
            lower_flags: SegmentLowerFlags { bits: 0x9a },
            limit_and_upper_flags: 0x20,
            base_31_24: 0,
        }
    );
    assert_eq!(
        gdt.user_segments[2],
        UserSegmentDescriptor::new(
            SegmentUpperFlags { bits: SegmentUpperFlags::LONG_MODE },
            SegmentLowerFlags { bits: SegmentLowerFlags::KERNEL_DATA },
        )
    );
    assert_eq!(gdt.tss, SystemSegmentDescriptor::tss());
    assert_eq!(gdt.tss.lower_flags.bits, 0x89);
    assert_eq!(base_of(&gdt.tss), 0);
    assert_eq!(gdt.tss.limit_15_0, 0);
}

#[test]
fn fresh_table_image() {
    let image = Gdt::new().to_bytes();
    assert_eq!(image.len(), Gdt::SIZE);
    assert_eq!(image.len(), 3 * UserSegmentDescriptor::SIZE + SystemSegmentDescriptor::SIZE);
    assert_eq!(image[0..8], 0u64.to_le_bytes());
    assert_eq!(image[8..16], 0x0020_9a00_0000_0000u64.to_le_bytes());
    assert_eq!(image[16..24], 0x0020_9200_0000_0000u64.to_le_bytes());
    assert_eq!(image[24..32], 0x0000_8900_0000_0000u64.to_le_bytes());
    assert_eq!(image[32..40], 0u64.to_le_bytes());
}

#[test]
fn system_descriptor_splits_its_base() {
    let mut d = SystemSegmentDescriptor::tss();
    d.set_base(0x1234_5678_9abc_def0).set_limit(0x68);
    assert_eq!(d.base_15_0, 0xdef0);
    assert_eq!(d.base_23_16, 0xbc);
    assert_eq!(d.base_31_24, 0x9a);
    assert_eq!(d.base_63_32, 0x1234_5678);
    assert_eq!(d.limit_15_0, 0x68);
    assert_eq!(d.lower_flags.bits, 0x89);
    assert_eq!(d.limit_and_upper_flags, 0);
    assert_eq!(d.zero, 0);
    assert_eq!(base_of(&d), 0x1234_5678_9abc_def0);
    assert_eq!(
        d.to_bytes(),
        [0x68, 0x00, 0xf0, 0xde, 0xbc, 0x89, 0x00, 0x9a, 0x78, 0x56, 0x34, 0x12, 0, 0, 0, 0]
    );
    for base in [0u64, 1, 0xffff, 0x1_0000, 0xff00_0000, 0xffff_ffff, 0x1_0000_0000, u64::MAX] {
        d.set_base(base);
        assert_eq!(base_of(&d), base);
        assert_eq!(d.limit_15_0, 0x68);
    }
}

#[test]
fn user_descriptor_image() {
    let d = UserSegmentDescriptor {
        limit_15_0: 0x1122,
        base_15_0: 0x3344,
        base_23_16: 0x55,
        lower_flags: SegmentLowerFlags { bits: 0x66 },
        limit_and_upper_flags: 0x77,
        base_31_24: 0x88,
    };
    assert_eq!(d.to_bytes(), [0x22, 0x11, 0x44, 0x33, 0x55, 0x66, 0x77, 0x88]);
}

#[test]
fn task_state_segment_image() {
    let mut tss = Tss::new();
    assert_eq!(tss.to_bytes(), [0u8; 0x68]);
    tss.rsp_list = [0x0101_0101_0101_0101, 0x0202_0202_0202_0202, 0x0303_0303_0303_0303];
    tss.ist_list = [0x11, 0x12, 0x13, 0x14, 0x15, 0x16, 0x8877_6655_4433_2211];
    tss.io_map_base = 0xabcd;
    let image = tss.to_bytes();
    assert_eq!(image[0..4], [0u8; 4]);
    assert_eq!(image[4..12], [1u8; 8]);
    assert_eq!(image[12..20], [2u8; 8]);
    assert_eq!(image[20..28], [3u8; 8]);
    assert_eq!(image[28..36], [0u8; 8]);
    for slot in 0..6 {
        assert_eq!(image[36 + 8 * slot..44 + 8 * slot], (0x11 + slot as u64).to_le_bytes());
    }
    assert_eq!(image[84..92], [0x11, 0x22, 0x33, 0x44, 0x55, 0x66, 0x77, 0x88]);
    assert_eq!(image[92..102], [0u8; 10]);
    assert_eq!(image[102..104], [0xcd, 0xab]);
}

#[test]
fn prepare_installs_the_double_fault_stack() {
    let mut gdt = Gdt::new();
    let mut tss = Tss::new();
    tss.rsp_list = [7, 8, 9];
    tss.ist_list = [1, 2, 3, 4, 5, 6, 7];
    tss.io_map_base = 0x68;
    let at = placement();
    let activation = prepare(&mut gdt, &mut tss, &at);
    assert_eq!(DOUBLE_FAULT_IST, 0);
    assert_eq!(tss.ist_list, [0x9_1000, 2, 3, 4, 5, 6, 7]);
    assert_eq!(tss.rsp_list, [7, 8, 9]);
    assert_eq!(tss.io_map_base, 0x68);
    assert_eq!(gdt.user_segments, Gdt::new().user_segments);
    assert_eq!(gdt.tss.limit_15_0, 0x68);
    assert_eq!(gdt.tss.base_15_0, 0x3040);
    assert_eq!(gdt.tss.base_23_16, 0x20);
    assert_eq!(gdt.tss.base_31_24, 0x00);
    assert_eq!(gdt.tss.base_63_32, 0xffff_8000);
    assert_eq!(
        activation.register,
        DescriptorTableRegister { limit: 39, base: 0xffff_8000_0010_0000 }
    );
    assert_eq!(activation.code_selector, 0x08);
    assert_eq!(activation.data_selector, 0x10);
    assert_eq!(activation.task_selector, 0x18);
}

#[test]
fn activation_steps_come_in_order() {
    let mut gdt = Gdt::new();
    let mut tss = Tss::new();
    let activation = prepare(&mut gdt, &mut tss, &placement());
    assert_eq!(
        activation.steps(),
        [
            SegmentStep::LoadTable(DescriptorTableRegister {
                limit: 39,
                base: 0xffff_8000_0010_0000
            }),
            SegmentStep::ReloadCode(0x08),
            SegmentStep::ReloadData(0x10),
            SegmentStep::LoadTask(0x18),
        ]
    );
}

#[test]
fn stack_regions() {
    let a = StackRegion { base: 0x1000, size: 0x1000 };
    assert!(a.fits());
    assert_eq!(a.top(), 0x2000);
    assert!(a.overlaps(&a));
    assert!(!a.overlaps(&StackRegion { base: 0x2000, size: 0x1000 }));
    assert!(!a.overlaps(&StackRegion { base: 0, size: 0x1000 }));
    assert!(a.overlaps(&StackRegion { base: 0x1fff, size: 1 }));
    assert!(a.overlaps(&StackRegion { base: 0, size: 0x1001 }));
    assert!(a.overlaps(&StackRegion { base: 0, size: 0x10000 }));
    assert!(!a.overlaps(&StackRegion { base: 0x1800, size: 0 }));
    assert!(!StackRegion { base: 0x1800, size: 0 }.overlaps(&a));
    assert!(StackRegion { base: u64::MAX, size: 0 }.fits());
    assert!(StackRegion { base: u64::MAX - 1, size: 1 }.fits());
    assert!(!StackRegion { base: u64::MAX, size: 1 }.fits());
    assert!(!StackRegion { base: 1, size: u64::MAX }.fits());
    assert_eq!(StackRegion { base: 0, size: u64::MAX }.top(), u64::MAX);
}

#[test]
fn table_register_operand() {
    let reg = DescriptorTableRegister::new(0x1122_3344_5566_7788, 40);
    assert_eq!(reg.limit, 39);
    assert_eq!(reg.base, 0x1122_3344_5566_7788);
    assert_eq!(reg.to_bytes(), [39, 0, 0x88, 0x77, 0x66, 0x55, 0x44, 0x33, 0x22, 0x11]);
    assert_eq!(DescriptorTableRegister::new(0, 1).limit, 0);
    assert_eq!(DescriptorTableRegister::new(0, 0x1_0000).limit, 0xffff);
    assert_eq!(DescriptorTableRegister::new(0, 4096).to_bytes()[0..2], [0xff, 0x0f]);
}
