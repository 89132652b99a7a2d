//! Interrupt vectors, the saved register context, and what each interrupt
//! handler decides.

use vstd::prelude::*;
use vstd::bytes::{
    lemma_auto_spec_u64_to_from_le_bytes, spec_u64_from_le_bytes, spec_u64_to_le_bytes,
    spec_u64_to_le_bytes_to_open, u64_from_le_bytes,
};
use vstd::slice::slice_subrange;
use x86_64::structures::tss::TaskStateSegment;
use crate::gdt::{
    is_stack_update, tss_stacks, DOUBLE_FAULT_IST_INDEX, GENERAL_PROTECTION_FAULT_IST_INDEX,
    INTERRUPT_STACK_COUNT, PAGE_FAULT_IST_INDEX, TIMER_INTERRUPT_INDEX,
};
use crate::process::{schedule_next, Scheduler};

verus! {

/// Vector of the first line of the primary interrupt controller.
pub const PIC_1_OFFSET: u8 = 32;

/// Vector of the first line of the secondary interrupt controller.
pub const PIC_2_OFFSET: u8 = PIC_1_OFFSET + 8;

/// Number of bytes needed to store a `Context`.
pub const INTERRUPT_CONTEXT_SIZE: usize = 20 * 8;

/// The interrupt-enable flag of `rflags` (bit 9).
pub const RFLAGS_INTERRUPT_ENABLE: u64 = 0x200;

/// Byte offset of `rip` from the start of a stored `Context`.
pub const RIP_OFFSET: usize = 120;

/// Byte offset of `cs` from the start of a stored `Context`.
pub const CS_OFFSET: usize = 128;

/// Byte offset of `rflags` from the start of a stored `Context`.
pub const RFLAGS_OFFSET: usize = 136;

/// Byte offset of `rsp` from the start of a stored `Context`.
pub const RSP_OFFSET: usize = 144;

/// Byte offset of `ss` from the start of a stored `Context`.
pub const SS_OFFSET: usize = 152;

/// The machine state that a timer interrupt leaves on a thread's kernel
/// stack, fields in order of rising address: the fifteen general registers
/// that the interrupt entry code pushes (`rax` first, so `r15` ends lowest),
/// then the frame that the CPU pushed before them.
#[derive(Debug, Clone, Copy, PartialEq, Eq, Structural)]
pub struct Context {
    pub r15: u64,
    pub r14: u64,
    pub r13: u64,
    pub r12: u64,
    pub r11: u64,
    pub r10: u64,
    pub r9: u64,
    pub r8: u64,
    pub rbp: u64,
    pub rsi: u64,
    pub rdi: u64,
    pub rdx: u64,
    pub rcx: u64,
    pub rbx: u64,
    pub rax: u64,
    /// Instruction pointer.
    pub rip: u64,
    /// Code segment.
    pub cs: u64,
    /// Processor flags.
    pub rflags: u64,
    /// Stack pointer.
    pub rsp: u64,
    /// Stack segment.
    pub ss: u64,
}

impl Context {
    /// The twenty words of the record, lowest address first.
    pub open spec fn words(self) -> Seq<u64> {
        seq![
            self.r15,
            self.r14,
            self.r13,
            self.r12,
            self.r11,
            self.r10,
            self.r9,
            self.r8,
            self.rbp,
            self.rsi,
            self.rdi,
            self.rdx,
            self.rcx,
            self.rbx,
            self.rax,
            self.rip,
            self.cs,
            self.rflags,
            self.rsp,
            self.ss,
        ]
    }

    /// The record as it lies in memory: each word in turn, least significant
    /// byte first.
    pub open spec fn image(self) -> Seq<u8> {
        Seq::new(
            INTERRUPT_CONTEXT_SIZE as nat,
            |i: int| spec_u64_to_le_bytes(self.words()[i / 8])[i % 8],
        )
    }

    /// The eight bytes of the stored record that hold word `w`.
    pub open spec fn stored_word(self, w: int) -> Seq<u8> {
        self.image().subrange(8 * w, 8 * w + 8)
    }

    /// The context from which a new thread starts: it enters `entry` on the
    /// stack that ends at `stack_top`, with interrupts enabled, the given
    /// segments and every general register zero.
    pub open spec fn spec_initial(
        entry: u64,
        stack_top: u64,
        code_selector: u16,
        data_selector: u16,
    ) -> Context {
        Context {
            r15: 0,
            r14: 0,
            r13: 0,
            r12: 0,
            r11: 0,
            r10: 0,
            r9: 0,
            r8: 0,
            rbp: 0,
            rsi: 0,
            rdi: 0,
            rdx: 0,
            rcx: 0,
            rbx: 0,
            rax: 0,
            rip: entry,
            cs: code_selector as u64,
            rflags: RFLAGS_INTERRUPT_ENABLE,
            rsp: stack_top,
            ss: data_selector as u64,
        }
    }

    /// Builds the context from which a new thread starts.
    pub fn initial(entry: u64, stack_top: u64, code_selector: u16, data_selector: u16) -> (context:
        Context)
        ensures
            context == Context::spec_initial(entry, stack_top, code_selector, data_selector),
            context.rflags & RFLAGS_INTERRUPT_ENABLE == RFLAGS_INTERRUPT_ENABLE,
    {
        assert(0x200u64 & 0x200u64 == 0x200u64) by (bit_vector);
        Context {
            r15: 0,
            r14: 0,
            r13: 0,
            r12: 0,
            r11: 0,
            r10: 0,
            r9: 0,
            r8: 0,
            rbp: 0,
            rsi: 0,
            rdi: 0,
            rdx: 0,
            rcx: 0,
            rbx: 0,
            rax: 0,
            rip: entry,
            cs: code_selector as u64,
            rflags: RFLAGS_INTERRUPT_ENABLE,
            rsp: stack_top,
            ss: data_selector as u64,
        }
    }

    fn to_words(&self) -> (words: [u64; 20])
        ensures
            words@ == self.words(),
    {
        let words: [u64; 20] = [
            self.r15,
            self.r14,
            self.r13,
            self.r12,
            self.r11,
            self.r10,
            self.r9,
            self.r8,
            self.rbp,
            self.rsi,
            self.rdi,
            self.rdx,
            self.rcx,
            self.rbx,
            self.rax,
            self.rip,
            self.cs,
            self.rflags,
            self.rsp,
            self.ss,
        ];
        assert(words@ =~= self.words());
        words
    }

    /// Stores the record in `memory`, at `offset` and the 159 bytes after it.
    pub fn write(&self, memory: &mut Vec<u8>, offset: usize)
        requires
            offset + INTERRUPT_CONTEXT_SIZE <= old(memory).len(),
        ensures
            final(memory)@ == old(memory)@.subrange(0, offset as int) + self.image() + old(
                memory,
            )@.subrange(offset + INTERRUPT_CONTEXT_SIZE, old(memory).len() as int),
    {
        let ghost before = memory@;
        let words = self.to_words();
        let mut i: usize = 0;
        while i < 20
            invariant
                i <= 20,
                words@ == self.words(),
                memory.len() == before.len(),
                offset + INTERRUPT_CONTEXT_SIZE <= memory.len(),
                forall|j: int|
                    0 <= j < memory.len() ==> memory@[j] == if offset <= j < offset + 8 * i {
                        self.image()[j - offset]
                    } else {
                        before[j]
                    },
            decreases 20 - i,
        {
            let word = words[i];
            let mut k: usize = 0;
            while k < 8
                invariant
                    i < 20,
                    k <= 8,
                    word == self.words()[i as int],
                    memory.len() == before.len(),
                    offset + INTERRUPT_CONTEXT_SIZE <= memory.len(),
                    forall|j: int|
                        0 <= j < memory.len() ==> memory@[j] == if offset <= j < offset + 8 * i
                            + k {
                            self.image()[j - offset]
                        } else {
                            before[j]
                        },
                decreases 8 - k,
            {
                memory.set(offset + 8 * i + k, le_byte(word, k));
                k += 1;
            }
            i += 1;
        }
        assert(memory@ =~= before.subrange(0, offset as int) + self.image() + before.subrange(
            offset + INTERRUPT_CONTEXT_SIZE,
            before.len() as int,
        ));
    }

    /// Reads the record that lies in `memory` at `offset`.
    pub fn read(memory: &Vec<u8>, offset: usize) -> (context: Context)
        requires
            offset + INTERRUPT_CONTEXT_SIZE <= memory.len(),
        ensures
            context.image() == memory@.subrange(
                offset as int,
                offset + INTERRUPT_CONTEXT_SIZE,
            ),
    {
        let context = Context {
            r15: word_at(memory, offset),
            r14: word_at(memory, offset + 8),
            r13: word_at(memory, offset + 16),
            r12: word_at(memory, offset + 24),
            r11: word_at(memory, offset + 32),
            r10: word_at(memory, offset + 40),
            r9: word_at(memory, offset + 48),
            r8: word_at(memory, offset + 56),
            rbp: word_at(memory, offset + 64),
            rsi: word_at(memory, offset + 72),
            rdi: word_at(memory, offset + 80),
            rdx: word_at(memory, offset + 88),
            rcx: word_at(memory, offset + 96),
            rbx: word_at(memory, offset + 104),
            rax: word_at(memory, offset + 112),
            rip: word_at(memory, offset + 120),
            cs: word_at(memory, offset + 128),
            rflags: word_at(memory, offset + 136),
            rsp: word_at(memory, offset + 144),
            ss: word_at(memory, offset + 152),
        };
        proof {
            let stored = memory@.subrange(offset as int, offset + INTERRUPT_CONTEXT_SIZE);
            assert forall|i: int| 0 <= i < 160 implies context.image()[i] == stored[i] by {
                let w = i / 8;
                assert(spec_u64_to_le_bytes(context.words()[w]) == memory@.subrange(
                    offset + 8 * w,
                    offset + 8 * w + 8,
                ));
            }
            assert(context.image() =~= stored);
        }
        context
    }
}

/// Interrupts are enabled in every initial context: bit 9 of its `rflags` is
/// set.
pub proof fn lemma_initial_context_enables_interrupts(
    entry: u64,
    stack_top: u64,
    code_selector: u16,
    data_selector: u16,
)
    ensures
        Context::spec_initial(entry, stack_top, code_selector, data_selector).rflags & (1u64 << 9)
            == 1u64 << 9,
{
    assert(0x200u64 & (1u64 << 9) == 1u64 << 9) by (bit_vector);
}

/// Byte `k` of `word`, the least significant being byte 0.
fn le_byte(word: u64, k: usize) -> (byte: u8)
    requires
        k < 8,
    ensures
        byte == spec_u64_to_le_bytes(word)[k as int],
{
    proof {
        spec_u64_to_le_bytes_to_open(word);
    }
    match k {
        0 => (word & 0xff) as u8,
        1 => ((word >> 8) & 0xff) as u8,
        2 => ((word >> 16) & 0xff) as u8,
        3 => ((word >> 24) & 0xff) as u8,
        4 => ((word >> 32) & 0xff) as u8,
        5 => ((word >> 40) & 0xff) as u8,
        6 => ((word >> 48) & 0xff) as u8,
        _ => ((word >> 56) & 0xff) as u8,
    }
}

/// The word stored least significant byte first in the eight bytes of
/// `memory` from `at` on.
fn word_at(memory: &Vec<u8>, at: usize) -> (word: u64)
    requires
        at + 8 <= memory.len(),
    ensures
        spec_u64_to_le_bytes(word) == memory@.subrange(at as int, at + 8),
{
    let bytes = slice_subrange(memory.as_slice(), at, at + 8);
    proof {
        lemma_auto_spec_u64_to_from_le_bytes();
    }
    u64_from_le_bytes(bytes)
}

/// A stored context takes 160 bytes, and the frame that the CPU pushed lies at
/// the offsets 120 (`rip`), 128 (`cs`), 136 (`rflags`), 144 (`rsp`) and
/// 152 (`ss`). Each of the twenty words lies at eight times its index.
pub proof fn lemma_context_layout(context: Context)
    ensures
        context.image().len() == INTERRUPT_CONTEXT_SIZE,
        context.image().len() == 160,
        context.words().len() == 20,
        forall|w: int|
            0 <= w < 20 ==> #[trigger] context.stored_word(w) == spec_u64_to_le_bytes(
                context.words()[w],
            ),
        context.image().subrange(RIP_OFFSET as int, RIP_OFFSET + 8) == spec_u64_to_le_bytes(
            context.rip,
        ),
        context.image().subrange(CS_OFFSET as int, CS_OFFSET + 8) == spec_u64_to_le_bytes(
            context.cs,
        ),
        context.image().subrange(RFLAGS_OFFSET as int, RFLAGS_OFFSET + 8) == spec_u64_to_le_bytes(
            context.rflags,
        ),
        context.image().subrange(RSP_OFFSET as int, RSP_OFFSET + 8) == spec_u64_to_le_bytes(
            context.rsp,
        ),
        context.image().subrange(SS_OFFSET as int, SS_OFFSET + 8) == spec_u64_to_le_bytes(
            context.ss,
        ),
        RIP_OFFSET == 120 && CS_OFFSET == 128 && RFLAGS_OFFSET == 136 && RSP_OFFSET == 144
            && SS_OFFSET == 152,
{
    lemma_auto_spec_u64_to_from_le_bytes();
    assert forall|w: int| 0 <= w < 20 implies #[trigger] context.stored_word(w)
        == spec_u64_to_le_bytes(context.words()[w]) by {
        let part = context.stored_word(w);
        let word = spec_u64_to_le_bytes(context.words()[w]);
        assert forall|k: int| 0 <= k < 8 implies part[k] == word[k] by {
            assert((8 * w + k) / 8 == w);
            assert((8 * w + k) % 8 == k);
        }
        assert(part =~= word);
    }
    assert(context.stored_word(15) == spec_u64_to_le_bytes(context.words()[15]));
    assert(context.stored_word(16) == spec_u64_to_le_bytes(context.words()[16]));
    assert(context.stored_word(17) == spec_u64_to_le_bytes(context.words()[17]));
    assert(context.stored_word(18) == spec_u64_to_le_bytes(context.words()[18]));
    assert(context.stored_word(19) == spec_u64_to_le_bytes(context.words()[19]));
}

/// Two contexts with the same stored form are the same context: what is read
/// back from a stored context is that context, register for register.
pub proof fn lemma_image_determines_context(a: Context, b: Context)
    requires
        a.image() == b.image(),
    ensures
        a == b,
{
    lemma_auto_spec_u64_to_from_le_bytes();
    lemma_context_layout(a);
    lemma_context_layout(b);
    assert forall|w: int| 0 <= w < 20 implies a.words()[w] == b.words()[w] by {
        assert(a.stored_word(w) == spec_u64_to_le_bytes(a.words()[w]));
        assert(b.stored_word(w) == spec_u64_to_le_bytes(b.words()[w]));
        assert(spec_u64_from_le_bytes(spec_u64_to_le_bytes(a.words()[w])) == a.words()[w]);
        assert(spec_u64_from_le_bytes(spec_u64_to_le_bytes(b.words()[w])) == b.words()[w]);
    }
    assert(a.words()[0] == b.words()[0]);
    assert(a.words()[1] == b.words()[1]);
    assert(a.words()[2] == b.words()[2]);
    assert(a.words()[3] == b.words()[3]);
    assert(a.words()[4] == b.words()[4]);
    assert(a.words()[5] == b.words()[5]);
    assert(a.words()[6] == b.words()[6]);
    assert(a.words()[7] == b.words()[7]);
    assert(a.words()[8] == b.words()[8]);
    assert(a.words()[9] == b.words()[9]);
    assert(a.words()[10] == b.words()[10]);
    assert(a.words()[11] == b.words()[11]);
    assert(a.words()[12] == b.words()[12]);
    assert(a.words()[13] == b.words()[13]);
    assert(a.words()[14] == b.words()[14]);
    assert(a.words()[15] == b.words()[15]);
    assert(a.words()[16] == b.words()[16]);
    assert(a.words()[17] == b.words()[17]);
    assert(a.words()[18] == b.words()[18]);
    assert(a.words()[19] == b.words()[19]);
}

/// The hardware interrupts that the kernel handles, by vector.
#[derive(Debug, Clone, Copy, PartialEq, Eq, Structural)]
pub enum InterruptIndex {
    Timer,
    Keyboard,
}

impl InterruptIndex {
    /// The interrupt's vector: the timer is line 0 of the primary controller,
    /// the keyboard line 1.
    pub open spec fn vector(self) -> u8 {
        match self {
            InterruptIndex::Timer => PIC_1_OFFSET,
            InterruptIndex::Keyboard => (PIC_1_OFFSET + 1) as u8,
        }
    }

    /// The interrupt's vector.
    pub fn as_u8(self) -> (vector: u8)
        ensures
            vector == self.vector(),
            self == InterruptIndex::Timer ==> vector == 32,
            self == InterruptIndex::Keyboard ==> vector == 33,
    {
        match self {
            InterruptIndex::Timer => PIC_1_OFFSET,
            InterruptIndex::Keyboard => PIC_1_OFFSET + 1,
        }
    }

    /// The interrupt's vector, as an index into the interrupt descriptor
    /// table.
    pub fn as_usize(self) -> (vector: usize)
        ensures
            vector == self.vector(),
    {
        let vector: u8 = self.as_u8();
        vector as usize
    }
}

/// Where a timer interrupt leaves the saved context when it is taken on the
/// stack that ends at `stack_end`: the CPU rounds the stack pointer down to a
/// multiple of 16 and pushes its frame of five words, and the entry code
/// pushes the fifteen general registers below that.
pub open spec fn entry_context_address(stack_end: u64) -> int {
    stack_end - stack_end % 16 - INTERRUPT_CONTEXT_SIZE
}

/// Vector of the breakpoint exception.
pub const BREAKPOINT_VECTOR: u8 = 3;

/// Vector of the double fault.
pub const DOUBLE_FAULT_VECTOR: u8 = 8;

/// Vector of the general protection fault.
pub const GENERAL_PROTECTION_FAULT_VECTOR: u8 = 13;

/// Vector of the page fault.
pub const PAGE_FAULT_VECTOR: u8 = 14;

/// The handlers that the kernel installs.
#[derive(Debug, Clone, Copy, PartialEq, Eq, Structural)]
pub enum Handler {
    Breakpoint,
    DoubleFault,
    GeneralProtectionFault,
    PageFault,
    Timer,
    Keyboard,
}

/// What a handler does once it has reported or served its interrupt.
#[derive(Debug, Clone, Copy, PartialEq, Eq, Structural)]
pub enum Outcome {
    /// Return to the interrupted code.
    Resume,
    /// Halt the CPU for good.
    Halt,
}

impl Handler {
    /// The vector that the handler is bound to.
    pub open spec fn spec_vector(self) -> u8 {
        match self {
            Handler::Breakpoint => BREAKPOINT_VECTOR,
            Handler::DoubleFault => DOUBLE_FAULT_VECTOR,
            Handler::GeneralProtectionFault => GENERAL_PROTECTION_FAULT_VECTOR,
            Handler::PageFault => PAGE_FAULT_VECTOR,
            Handler::Timer => InterruptIndex::Timer.vector(),
            Handler::Keyboard => InterruptIndex::Keyboard.vector(),
        }
    }

    /// The entry of the interrupt stack table whose stack the CPU switches to
    /// before it enters the handler, if any. The three faults share the
    /// reserved stack; the timer takes the running thread's kernel stack.
    pub open spec fn spec_stack_index(self) -> Option<u16> {
        match self {
            Handler::Breakpoint => None,
            Handler::DoubleFault => Some(DOUBLE_FAULT_IST_INDEX),
            Handler::GeneralProtectionFault => Some(GENERAL_PROTECTION_FAULT_IST_INDEX),
            Handler::PageFault => Some(PAGE_FAULT_IST_INDEX),
            Handler::Timer => Some(TIMER_INTERRUPT_INDEX),
            Handler::Keyboard => None,
        }
    }

    /// The three faults are fatal; the breakpoint and the hardware interrupts
    /// return.
    pub open spec fn spec_outcome(self) -> Outcome {
        match self {
            Handler::DoubleFault | Handler::GeneralProtectionFault | Handler::PageFault =>
                Outcome::Halt,
            Handler::Breakpoint | Handler::Timer | Handler::Keyboard => Outcome::Resume,
        }
    }

    /// The interrupt that the handler has to acknowledge to the interrupt
    /// controller before it returns: its own vector for a hardware interrupt,
    /// none for an exception.
    pub open spec fn spec_end_of_interrupt(self) -> Option<u8> {
        match self {
            Handler::Timer | Handler::Keyboard => Some(self.spec_vector()),
            _ => None,
        }
    }

    /// The vector that the handler is bound to.
    pub fn vector(self) -> (vector: u8)
        ensures
            vector == self.spec_vector(),
    {
        match self {
            Handler::Breakpoint => BREAKPOINT_VECTOR,
            Handler::DoubleFault => DOUBLE_FAULT_VECTOR,
            Handler::GeneralProtectionFault => GENERAL_PROTECTION_FAULT_VECTOR,
            Handler::PageFault => PAGE_FAULT_VECTOR,
            Handler::Timer => InterruptIndex::Timer.as_u8(),
            Handler::Keyboard => InterruptIndex::Keyboard.as_u8(),
        }
    }

    /// The entry of the interrupt stack table that the handler runs on, if
    /// any.
    pub fn stack_index(self) -> (index: Option<u16>)
        ensures
            index == self.spec_stack_index(),
            index matches Some(i) ==> i < INTERRUPT_STACK_COUNT,
    {
        match self {
            Handler::Breakpoint => None,
            Handler::DoubleFault => Some(DOUBLE_FAULT_IST_INDEX),
            Handler::GeneralProtectionFault => Some(GENERAL_PROTECTION_FAULT_IST_INDEX),
            Handler::PageFault => Some(PAGE_FAULT_IST_INDEX),
            Handler::Timer => Some(TIMER_INTERRUPT_INDEX),
            Handler::Keyboard => None,
        }
    }

    /// Whether the handler returns to the interrupted code or halts.
    pub fn outcome(self) -> (outcome: Outcome)
        ensures
            outcome == self.spec_outcome(),
    {
        match self {
            Handler::DoubleFault | Handler::GeneralProtectionFault | Handler::PageFault =>
                Outcome::Halt,
            Handler::Breakpoint | Handler::Timer | Handler::Keyboard => Outcome::Resume,
        }
    }

    /// The interrupt to acknowledge before the handler returns, if any.
    pub fn end_of_interrupt(self) -> (irq: Option<u8>)
        ensures
            irq == self.spec_end_of_interrupt(),
    {
        match self {
            Handler::Timer | Handler::Keyboard => Some(self.vector()),
            _ => None,
        }
    }
}

/// One entry of the interrupt descriptor table: the handler bound to a
/// vector, and the interrupt stack that the CPU switches to for it.
#[derive(Debug, Clone, Copy, PartialEq, Eq, Structural)]
pub struct IdtEntry {
    pub vector: u8,
    pub handler: Handler,
    pub stack_index: Option<u16>,
}

/// The table entry that binds `handler`.
pub open spec fn entry_of(handler: Handler) -> IdtEntry {
    IdtEntry {
        vector: handler.spec_vector(),
        handler,
        stack_index: handler.spec_stack_index(),
    }
}

/// The kernel's interrupt descriptor table, in the order in which its entries
/// are set.
pub open spec fn idt_entries() -> Seq<IdtEntry> {
    seq![
        entry_of(Handler::Breakpoint),
        entry_of(Handler::DoubleFault),
        entry_of(Handler::Timer),
        entry_of(Handler::PageFault),
        entry_of(Handler::Keyboard),
        entry_of(Handler::GeneralProtectionFault),
    ]
}

fn entry(handler: Handler) -> (entry: IdtEntry)
    ensures
        entry == entry_of(handler),
{
    IdtEntry { vector: handler.vector(), handler, stack_index: handler.stack_index() }
}

/// Lays out the interrupt descriptor table: one entry for each handler.
pub fn init_idt() -> (entries: [IdtEntry; 6])
    ensures
        entries@ == idt_entries(),
{
    let entries: [IdtEntry; 6] = [
        entry(Handler::Breakpoint),
        entry(Handler::DoubleFault),
        entry(Handler::Timer),
        entry(Handler::PageFault),
        entry(Handler::Keyboard),
        entry(Handler::GeneralProtectionFault),
    ];
    assert(entries@ =~= idt_entries());
    entries
}

/// In the kernel's interrupt descriptor table no vector is bound twice, and
/// the entries of the double fault, the page fault, the general protection
/// fault and the timer each name an entry of the interrupt stack table, of
/// which there are seven.
pub proof fn lemma_idt_stacks()
    ensures
        forall|i: int, j: int|
            0 <= i < j < idt_entries().len() ==> (#[trigger] idt_entries()[i]).vector != (
            #[trigger] idt_entries()[j]).vector,
        forall|i: int|
            0 <= i < idt_entries().len() ==> {
                let entry = #[trigger] idt_entries()[i];
                (entry.vector == DOUBLE_FAULT_VECTOR || entry.vector == PAGE_FAULT_VECTOR
                    || entry.vector == GENERAL_PROTECTION_FAULT_VECTOR || entry.vector
                    == InterruptIndex::Timer.vector()) ==> (entry.stack_index matches Some(index)
                    && index < INTERRUPT_STACK_COUNT)
            },
        exists|i: int|
            0 <= i < idt_entries().len() && (#[trigger] idt_entries()[i]).vector
                == DOUBLE_FAULT_VECTOR,
        exists|i: int|
            0 <= i < idt_entries().len() && (#[trigger] idt_entries()[i]).vector == PAGE_FAULT_VECTOR,
        exists|i: int|
            0 <= i < idt_entries().len() && (#[trigger] idt_entries()[i]).vector
                == GENERAL_PROTECTION_FAULT_VECTOR,
        exists|i: int|
            0 <= i < idt_entries().len() && (#[trigger] idt_entries()[i]).vector
                == InterruptIndex::Timer.vector(),
{
    assert(idt_entries()[1].vector == DOUBLE_FAULT_VECTOR);
    assert(idt_entries()[2].vector == InterruptIndex::Timer.vector());
    assert(idt_entries()[3].vector == PAGE_FAULT_VECTOR);
    assert(idt_entries()[5].vector == GENERAL_PROTECTION_FAULT_VECTOR);
}

/// What the timer interrupt's handler hands back to the interrupt entry
/// code.
#[derive(Debug, Clone, Copy, PartialEq, Eq, Structural)]
pub struct Tick {
    /// The stack to switch to, or 0 to stay on the one in use.
    pub next_stack: u64,
    /// The interrupt to acknowledge to the interrupt controller before the
    /// return from the interrupt.
    pub end_of_interrupt: u8,
}

/// The timer interrupt: one tick of the scheduler, then the timer's vector to
/// acknowledge.
pub fn timer_interrupt_handler(
    scheduler: &mut Scheduler,
    tss: &mut TaskStateSegment,
    context_addr: u64,
) -> (tick: Tick)
    requires
        old(scheduler)@.wf(),
    ensures
        final(scheduler)@ == old(scheduler)@.tick(context_addr),
        final(scheduler)@.wf(),
        tick.next_stack == old(scheduler)@.switch_to(),
        tick.end_of_interrupt == InterruptIndex::Timer.vector(),
        match final(scheduler)@.current {
            Some(thread) => is_stack_update(
                tss_stacks(*old(tss)),
                tss_stacks(*final(tss)),
                TIMER_INTERRUPT_INDEX as int,
                thread.kernel_stack_end,
            ),
            None => tss_stacks(*final(tss)) == tss_stacks(*old(tss)),
        },
{
    let next_stack = schedule_next(scheduler, tss, context_addr);
    Tick { next_stack, end_of_interrupt: InterruptIndex::Timer.as_u8() }
}

} // verus!
