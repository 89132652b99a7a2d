//! The task state segment and the global descriptor table.

use vstd::prelude::*;
use x86_64::structures::gdt::{Descriptor, GlobalDescriptorTable};
use x86_64::structures::tss::TaskStateSegment;
use x86_64::VirtAddr;
use crate::address::{is_canonical, is_canonical_block};

verus! {

/// Entry of the interrupt stack table on which double faults are taken.
pub const DOUBLE_FAULT_IST_INDEX: u16 = 0;

/// Entry of the interrupt stack table on which page faults are taken.
pub const PAGE_FAULT_IST_INDEX: u16 = 0;

/// Entry of the interrupt stack table on which general protection faults are
/// taken.
pub const GENERAL_PROTECTION_FAULT_IST_INDEX: u16 = 0;

/// Entry of the interrupt stack table on which the timer interrupt is taken:
/// it follows the running thread.
pub const TIMER_INTERRUPT_INDEX: u16 = 1;

/// Number of entries in the interrupt stack table.
pub const INTERRUPT_STACK_COUNT: usize = 7;

/// Size of the region that is set aside for the double-fault stack.
pub const DOUBLE_FAULT_STACK_SIZE: usize = 4096 * 5;

/// The descriptor of a 64-bit kernel code segment.
pub const KERNEL_CODE64: u64 = 0x00af_9b00_0000_ffff;

/// The descriptor of a kernel data segment.
pub const KERNEL_DATA: u64 = 0x00cf_9300_0000_ffff;

/// The bits of the low word of a task state segment's descriptor that do not
/// hold the segment's address.
pub const TSS_DESCRIPTOR_FIXED_MASK: u64 = 0x00ff_ff00_0000_ffff;

/// What those bits hold: present, privilege level 0, type "available 64-bit
/// task state segment", and the limit 0x67, the segment's size less one.
pub const TSS_DESCRIPTOR_FIXED_BITS: u64 = 0x0000_8900_0000_0067;

#[verifier::external_type_specification]
#[verifier::external_body]
pub struct ExTaskStateSegment(TaskStateSegment);

#[verifier::external_type_specification]
#[verifier::external_body]
pub struct ExGlobalDescriptorTable(GlobalDescriptorTable);

/// The seven entries of a task state segment's interrupt stack table, as
/// addresses.
pub uninterp spec fn tss_stacks(tss: TaskStateSegment) -> Seq<u64>;

/// The entries of a global descriptor table that are in use, the null entry
/// first.
pub uninterp spec fn gdt_entries(gdt: GlobalDescriptorTable) -> Seq<u64>;

/// A segment descriptor: one table entry for a code or data segment, two for
/// a system segment.
#[derive(Debug, Clone, Copy, PartialEq, Eq, Structural)]
pub enum SegmentDescriptor {
    UserSegment(u64),
    SystemSegment(u64, u64),
}

impl SegmentDescriptor {
    /// The table entries that the descriptor takes.
    pub open spec fn words(self) -> Seq<u64> {
        match self {
            SegmentDescriptor::UserSegment(value) => seq![value],
            SegmentDescriptor::SystemSegment(low, high) => seq![low, high],
        }
    }

    /// The descriptor's first entry, which holds its flags.
    pub open spec fn low(self) -> u64 {
        match self {
            SegmentDescriptor::UserSegment(value) => value,
            SegmentDescriptor::SystemSegment(low, _) => low,
        }
    }

    /// The descriptor's privilege level, bits 45 and 46 of its first entry.
    pub open spec fn privilege_level(self) -> u16 {
        ((self.low() & (3u64 << 45)) >> 45) as u16
    }
}

/// The selector of the table entry `index` with the requested privilege level
/// `rpl`.
pub open spec fn segment_selector(index: u16, rpl: u16) -> u16 {
    index << 3 | rpl
}

/// Whether the interrupt stack table `after` is `before` with entry `index`
/// set to `stack_end`.
pub open spec fn is_stack_update(
    before: Seq<u64>,
    after: Seq<u64>,
    index: int,
    stack_end: u64,
) -> bool {
    &&& after.len() == INTERRUPT_STACK_COUNT
    &&& after[index] == stack_end
    &&& forall|i: int| 0 <= i < INTERRUPT_STACK_COUNT && i != index ==> after[i] == before[i]
}

/// `TaskStateSegment::new`: a segment whose interrupt stack table holds seven
/// null addresses.
#[verifier::external_body]
fn tss_new() -> (tss: TaskStateSegment)
    ensures
        tss_stacks(tss) == Seq::new(7, |i: int| 0u64),
{
    TaskStateSegment::new()
}

/// Stores `VirtAddr::new(stack_end)` in entry `index` of the segment's
/// `interrupt_stack_table`, and leaves the other six entries as they are.
/// `VirtAddr::new` keeps a canonical address as it is; it is not called on any
/// other.
#[verifier::external_body]
fn tss_set_stack(tss: &mut TaskStateSegment, index: usize, stack_end: u64)
    requires
        index < 7,
        is_canonical(stack_end),
    ensures
        is_stack_update(tss_stacks(*old(tss)), tss_stacks(*final(tss)), index as int, stack_end),
{
    tss.interrupt_stack_table[index] = VirtAddr::new(stack_end);
}

/// `GlobalDescriptorTable::new`: a table that holds the null entry alone.
#[verifier::external_body]
fn gdt_new() -> (gdt: GlobalDescriptorTable)
    ensures
        gdt_entries(gdt) == seq![0u64],
{
    GlobalDescriptorTable::new()
}

/// `GlobalDescriptorTable::add_entry`: appends the descriptor's entries and
/// returns the selector of the first, with the descriptor's own privilege
/// level. The table holds eight entries; the call is not made where the
/// descriptor does not fit.
#[verifier::external_body]
fn gdt_add_entry(gdt: &mut GlobalDescriptorTable, entry: SegmentDescriptor) -> (selector: u16)
    requires
        gdt_entries(*old(gdt)).len() + entry.words().len() <= 8,
    ensures
        gdt_entries(*final(gdt)) == gdt_entries(*old(gdt)) + entry.words(),
        selector == segment_selector(
            gdt_entries(*old(gdt)).len() as u16,
            entry.privilege_level(),
        ),
{
    let descriptor = match entry {
        SegmentDescriptor::UserSegment(value) => Descriptor::UserSegment(value),
        SegmentDescriptor::SystemSegment(low, high) => Descriptor::SystemSegment(low, high),
    };
    gdt.add_entry(descriptor).0
}

/// `Descriptor::kernel_code_segment`: the user-segment descriptor with the
/// flags of a 64-bit kernel code segment.
#[verifier::external_body]
fn kernel_code_segment() -> (descriptor: SegmentDescriptor)
    ensures
        descriptor == SegmentDescriptor::UserSegment(KERNEL_CODE64),
{
    match Descriptor::kernel_code_segment() {
        Descriptor::UserSegment(value) => SegmentDescriptor::UserSegment(value),
        Descriptor::SystemSegment(low, high) => SegmentDescriptor::SystemSegment(low, high),
    }
}

/// `Descriptor::kernel_data_segment`: the user-segment descriptor with the
/// flags of a kernel data segment.
#[verifier::external_body]
fn kernel_data_segment() -> (descriptor: SegmentDescriptor)
    ensures
        descriptor == SegmentDescriptor::UserSegment(KERNEL_DATA),
{
    match Descriptor::kernel_data_segment() {
        Descriptor::UserSegment(value) => SegmentDescriptor::UserSegment(value),
        Descriptor::SystemSegment(low, high) => SegmentDescriptor::SystemSegment(low, high),
    }
}

/// `Descriptor::tss_segment`: a system-segment descriptor. Its two entries
/// hold the segment's address, which is not stated here; the other bits of the
/// first are fixed.
#[verifier::external_body]
fn tss_segment(tss: &'static TaskStateSegment) -> (descriptor: SegmentDescriptor)
    ensures
        descriptor is SystemSegment,
        descriptor.low() & TSS_DESCRIPTOR_FIXED_MASK == TSS_DESCRIPTOR_FIXED_BITS,
{
    match Descriptor::tss_segment(tss) {
        Descriptor::UserSegment(value) => SegmentDescriptor::UserSegment(value),
        Descriptor::SystemSegment(low, high) => SegmentDescriptor::SystemSegment(low, high),
    }
}

/// The selectors of the three segments that the kernel publishes.
#[derive(Debug, Clone, Copy, PartialEq, Eq, Structural)]
pub struct Selectors {
    pub code_selector: u16,
    pub data_selector: u16,
    pub tss_selector: u16,
}

/// Selector of the kernel code segment: entry 1, privilege level 0.
pub const KERNEL_CODE_SELECTOR: u16 = 0x08;

/// Selector of the kernel data segment: entry 2, privilege level 0.
pub const KERNEL_DATA_SELECTOR: u16 = 0x10;

/// Selector of the task state segment: entry 3, privilege level 0.
pub const TSS_SELECTOR: u16 = 0x18;

/// Whether `entries` is the table that `init` publishes: the null entry, the
/// kernel code segment, the kernel data segment, and the two entries of a
/// task state segment's descriptor.
pub open spec fn is_kernel_table(entries: Seq<u64>) -> bool {
    &&& entries.len() == 5
    &&& entries[0] == 0
    &&& entries[1] == KERNEL_CODE64
    &&& entries[2] == KERNEL_DATA
    &&& entries[3] & TSS_DESCRIPTOR_FIXED_MASK == TSS_DESCRIPTOR_FIXED_BITS
}

/// The interrupt stack table with which the kernel boots: the double-fault
/// entry and the timer entry hold the end of the region set aside at
/// `stack_start`, the others are null.
pub open spec fn boot_stacks(stack_start: u64) -> Seq<u64> {
    Seq::new(
        7,
        |i: int|
            if i == DOUBLE_FAULT_IST_INDEX || i == TIMER_INTERRUPT_INDEX {
                (stack_start + DOUBLE_FAULT_STACK_SIZE) as u64
            } else {
                0u64
            },
    )
}

/// Makes the task state segment with which the kernel boots. `stack_start` is
/// the first address of the region of `DOUBLE_FAULT_STACK_SIZE` bytes that is
/// set aside for double faults. Until a thread runs, the timer entry shares
/// that region.
pub fn boot_tss(stack_start: u64) -> (tss: TaskStateSegment)
    requires
        is_canonical_block(stack_start, DOUBLE_FAULT_STACK_SIZE as nat),
    ensures
        tss_stacks(tss) == boot_stacks(stack_start),
        stack_start < tss_stacks(tss)[DOUBLE_FAULT_IST_INDEX as int] <= stack_start
            + DOUBLE_FAULT_STACK_SIZE,
{
    let mut tss = tss_new();
    let stack_end: u64 = stack_start + DOUBLE_FAULT_STACK_SIZE as u64;
    tss_set_stack(&mut tss, DOUBLE_FAULT_IST_INDEX as usize, stack_end);
    tss_set_stack(&mut tss, TIMER_INTERRUPT_INDEX as usize, stack_end);
    assert(tss_stacks(tss) =~= boot_stacks(stack_start));
    tss
}

/// Points entry `index` of the interrupt stack table at `stack_end`.
pub fn set_interrupt_stack_table(tss: &mut TaskStateSegment, index: usize, stack_end: u64)
    requires
        index < INTERRUPT_STACK_COUNT,
        is_canonical(stack_end),
    ensures
        is_stack_update(tss_stacks(*old(tss)), tss_stacks(*final(tss)), index as int, stack_end),
{
    tss_set_stack(tss, index, stack_end);
}

/// Builds the global descriptor table: the kernel code segment, the kernel
/// data segment and the descriptor of `tss`, in that order behind the null
/// entry. Returns the table with the three selectors.
pub fn init(tss: &'static TaskStateSegment) -> (tables: (GlobalDescriptorTable, Selectors))
    ensures
        is_kernel_table(gdt_entries(tables.0)),
        tables.1 == (Selectors {
            code_selector: KERNEL_CODE_SELECTOR,
            data_selector: KERNEL_DATA_SELECTOR,
            tss_selector: TSS_SELECTOR,
        }),
{
    let mut gdt = gdt_new();
    let code = kernel_code_segment();
    let data = kernel_data_segment();
    let task = tss_segment(tss);
    proof {
        lemma_kernel_selectors(task.low());
    }
    let code_selector = gdt_add_entry(&mut gdt, code);
    let data_selector = gdt_add_entry(&mut gdt, data);
    let tss_selector = gdt_add_entry(&mut gdt, task);
    (gdt, Selectors { code_selector, data_selector, tss_selector })
}

/// The three descriptors have privilege level 0, so their selectors are eight
/// times their index.
proof fn lemma_kernel_selectors(tss_low: u64)
    requires
        tss_low & TSS_DESCRIPTOR_FIXED_MASK == TSS_DESCRIPTOR_FIXED_BITS,
    ensures
        segment_selector(1, SegmentDescriptor::UserSegment(KERNEL_CODE64).privilege_level())
            == KERNEL_CODE_SELECTOR,
        segment_selector(2, SegmentDescriptor::UserSegment(KERNEL_DATA).privilege_level())
            == KERNEL_DATA_SELECTOR,
        forall|high: u64|
            segment_selector(
                3,
                #[trigger] SegmentDescriptor::SystemSegment(tss_low, high).privilege_level(),
            ) == TSS_SELECTOR,
{
    assert(((0x00af_9b00_0000_ffffu64 & (3u64 << 45)) >> 45) as u16 == 0) by (bit_vector);
    assert(((0x00cf_9300_0000_ffffu64 & (3u64 << 45)) >> 45) as u16 == 0) by (bit_vector);
    assert(((tss_low & (3u64 << 45)) >> 45) as u16 == 0) by (bit_vector)
        requires
            tss_low & 0x00ff_ff00_0000_ffffu64 == 0x0000_8900_0000_0067u64,
    ;
    assert(1u16 << 3 | 0u16 == 0x08u16) by (bit_vector);
    assert(2u16 << 3 | 0u16 == 0x10u16) by (bit_vector);
    assert(3u16 << 3 | 0u16 == 0x18u16) by (bit_vector);
}

/// The selectors of the kernel code segment and of the kernel data segment.
pub fn get_kernel_segments(selectors: &Selectors) -> (segments: (u16, u16))
    ensures
        segments == (selectors.code_selector, selectors.data_selector),
{
    (selectors.code_selector, selectors.data_selector)
}

} // verus!
