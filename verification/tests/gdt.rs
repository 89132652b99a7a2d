use rose::gdt::{
    boot_tss, get_kernel_segments, init, set_interrupt_stack_table, Selectors,
    DOUBLE_FAULT_IST_INDEX, DOUBLE_FAULT_STACK_SIZE, GENERAL_PROTECTION_FAULT_IST_INDEX,
    INTERRUPT_STACK_COUNT, KERNEL_CODE64, KERNEL_CODE_SELECTOR, KERNEL_DATA,
    KERNEL_DATA_SELECTOR, PAGE_FAULT_IST_INDEX, TIMER_INTERRUPT_INDEX, TSS_DESCRIPTOR_FIXED_BITS,
    TSS_DESCRIPTOR_FIXED_MASK, TSS_SELECTOR,
};
use x86_64::structures::gdt::SegmentSelector;
use x86_64::structures::tss::TaskStateSegment;
use x86_64::{PrivilegeLevel, VirtAddr};

static TSS: TaskStateSegment = TaskStateSegment::new();

fn stacks(tss: &TaskStateSegment) -> Vec<u64> {
    let table = tss.interrupt_stack_table;
    table.iter().map(|addr| addr.as_u64()).collect()
}

#[test]
fn stack_indices_and_sizes() {
    assert_eq!(DOUBLE_FAULT_IST_INDEX, 0);
    assert_eq!(PAGE_FAULT_IST_INDEX, 0);
    assert_eq!(GENERAL_PROTECTION_FAULT_IST_INDEX, 0);
    assert_eq!(TIMER_INTERRUPT_INDEX, 1);
    assert_eq!(INTERRUPT_STACK_COUNT, 7);
    assert_eq!(DOUBLE_FAULT_STACK_SIZE, 20 * 1024);
}

#[test]
fn boot_tss_points_double_fault_and_timer_at_the_reserved_region() {
    let start = 0x0020_0000u64;
    let tss = boot_tss(start);
    let end = start + DOUBLE_FAULT_STACK_SIZE as u64;
    assert_eq!(end, 0x0020_5000);
    assert_eq!(stacks(&tss), vec![end, end, 0, 0, 0, 0, 0]);
}

#[test]
fn boot_tss_double_fault_stack_lies_in_the_region() {
    let start = 0xffff_8000_0010_0000u64;
    let tss = boot_tss(start);
    let slot = stacks(&tss)[DOUBLE_FAULT_IST_INDEX as usize];
    assert!(start < slot && slot <= start + DOUBLE_FAULT_STACK_SIZE as u64);
}

#[test]
fn set_interrupt_stack_table_changes_one_entry() {
    let mut tss = boot_tss(0x0020_0000);
    set_interrupt_stack_table(&mut tss, TIMER_INTERRUPT_INDEX as usize, 0x0040_2000);
    assert_eq!(stacks(&tss), vec![0x0020_5000, 0x0040_2000, 0, 0, 0, 0, 0]);
    set_interrupt_stack_table(&mut tss, 6, 0xffff_ffff_ffff_f000);
    assert_eq!(
        stacks(&tss),
        vec![0x0020_5000, 0x0040_2000, 0, 0, 0, 0, 0xffff_ffff_ffff_f000]
    );
}

#[test]
fn set_interrupt_stack_table_takes_the_last_lower_address() {
    let mut tss = TaskStateSegment::new();
    set_interrupt_stack_table(&mut tss, 0, 0x0000_7fff_ffff_ffff);
    assert_eq!(stacks(&tss)[0], 0x0000_7fff_ffff_ffff);
}

#[test]
fn init_publishes_code_data_and_tss() {
    let (gdt, _) = init(&TSS);
    let entries = gdt.as_raw_slice();
    assert_eq!(entries.len(), 5);
    assert_eq!(entries[0], 0);
    assert_eq!(entries[1], KERNEL_CODE64);
    assert_eq!(entries[1], 0x00af_9b00_0000_ffff);
    assert_eq!(entries[2], KERNEL_DATA);
    assert_eq!(entries[2], 0x00cf_9300_0000_ffff);
    assert_eq!(entries[3] & TSS_DESCRIPTOR_FIXED_MASK, TSS_DESCRIPTOR_FIXED_BITS);
}

#[test]
fn init_tss_descriptor_holds_the_segments_address() {
    let (gdt, _) = init(&TSS);
    let entries = gdt.as_raw_slice();
    let low = entries[3];
    let high = entries[4];
    let base = ((low >> 16) & 0xff_ffff) | (((low >> 56) & 0xff) << 24) | (high << 32);
    assert_eq!(base, VirtAddr::from_ptr(&TSS).as_u64());
    assert_eq!(low & 0xffff, 0x67);
    assert_eq!((low >> 40) & 0xf, 0b1001);
    assert_eq!((low >> 47) & 1, 1);
}

#[test]
fn init_returns_the_three_selectors() {
    let (_, selectors) = init(&TSS);
    assert_eq!(
        selectors,
        Selectors { code_selector: 0x08, data_selector: 0x10, tss_selector: 0x18 }
    );
    assert_eq!(selectors.code_selector, KERNEL_CODE_SELECTOR);
    assert_eq!(selectors.data_selector, KERNEL_DATA_SELECTOR);
    assert_eq!(selectors.tss_selector, TSS_SELECTOR);
}

#[test]
fn selectors_are_ring_0_and_index_the_table() {
    let (_, selectors) = init(&TSS);
    let code = SegmentSelector(selectors.code_selector);
    let data = SegmentSelector(selectors.data_selector);
    let tss = SegmentSelector(selectors.tss_selector);
    assert_eq!((code.index(), code.rpl()), (1, PrivilegeLevel::Ring0));
    assert_eq!((data.index(), data.rpl()), (2, PrivilegeLevel::Ring0));
    assert_eq!((tss.index(), tss.rpl()), (3, PrivilegeLevel::Ring0));
}

#[test]
fn get_kernel_segments_gives_code_then_data() {
    let (_, selectors) = init(&TSS);
    assert_eq!(get_kernel_segments(&selectors), (0x08, 0x10));
    let other = Selectors { code_selector: 0x28, data_selector: 0x30, tss_selector: 0x40 };
    assert_eq!(get_kernel_segments(&other), (0x28, 0x30));
}
