//! Kernel threads and the round-robin scheduler.

use std::collections::VecDeque;
use vstd::prelude::*;
use x86_64::structures::tss::TaskStateSegment;
use crate::address::{block_end, is_canonical_block};
use crate::ticks::{lemma_tick_keeps_contexts, lemma_tick_keeps_distinct};
use crate::gdt::{
    get_kernel_segments, is_stack_update, set_interrupt_stack_table, tss_stacks, Selectors,
    TIMER_INTERRUPT_INDEX,
};
use crate::interrupts::{Context, INTERRUPT_CONTEXT_SIZE};

verus! {

/// Size of a thread's kernel stack, on which its interrupts are taken.
pub const KERNEL_STACK_SIZE: usize = 4096 * 2;

/// Size of the stack that a thread's own code runs on.
pub const USER_STACK_SIZE: usize = 4096 * 5;

/// What a stack is to the scheduler: its contents and where they lie.
pub struct StackView {
    pub base: u64,
    pub bytes: Seq<u8>,
}

impl StackView {
    /// The address one past the stack's last byte, from which it grows down.
    pub open spec fn end(self) -> int {
        self.base + self.bytes.len()
    }

    /// The stack lies at canonical addresses, from its first to its end.
    pub open spec fn wf(self) -> bool {
        is_canonical_block(self.base, self.bytes.len())
    }
}

/// A stack: the buffer that backs it, and the address of the buffer's first
/// byte. The buffer is never resized, so it never moves.
pub struct Stack {
    memory: Vec<u8>,
    base: u64,
}

impl View for Stack {
    type V = StackView;

    closed spec fn view(&self) -> StackView {
        StackView { base: self.base, bytes: self.memory@ }
    }
}

impl Stack {
    /// Takes `memory`, whose first byte lies at `base`, as a stack. The block
    /// has to be canonical from its first address to its end.
    pub fn new(memory: Vec<u8>, base: u64) -> (stack: Option<Stack>)
        ensures
            stack is Some <==> is_canonical_block(base, memory@.len()),
            stack matches Some(s) ==> s@ == (StackView { base, bytes: memory@ }),
    {
        match block_end(base, memory.len()) {
            Some(_) => Some(Stack { memory, base }),
            None => None,
        }
    }

    /// The address of the stack's first byte.
    pub fn base(&self) -> (base: u64)
        ensures
            base == self@.base,
    {
        self.base
    }

    /// The stack's size in bytes.
    pub fn size(&self) -> (size: usize)
        ensures
            size == self@.bytes.len(),
    {
        self.memory.len()
    }

    /// The address one past the stack's last byte.
    pub fn end(&self) -> (end: u64)
        requires
            self@.wf(),
        ensures
            end == self@.end(),
    {
        self.base + self.memory.len() as u64
    }
}

/// What a thread is to the scheduler.
pub struct ThreadView {
    pub kernel_stack: StackView,
    pub user_stack: StackView,
    /// The address that the task state segment holds while the thread runs.
    pub kernel_stack_end: u64,
    pub user_stack_end: u64,
    /// Address of the thread's saved `Context`, on its kernel stack.
    pub context: u64,
}

impl ThreadView {
    /// The stacks have their sizes and lie at canonical addresses, and the
    /// two ends are those of the stacks.
    pub open spec fn wf(self) -> bool {
        &&& self.kernel_stack.wf()
        &&& self.kernel_stack.bytes.len() == KERNEL_STACK_SIZE
        &&& self.kernel_stack_end == self.kernel_stack.end()
        &&& self.user_stack.wf()
        &&& self.user_stack.bytes.len() == USER_STACK_SIZE
        &&& self.user_stack_end == self.user_stack.end()
    }

    /// A `Context` at `addr` lies wholly on the thread's kernel stack.
    pub open spec fn holds_context(self, addr: u64) -> bool {
        self.kernel_stack.base <= addr <= self.kernel_stack_end - INTERRUPT_CONTEXT_SIZE
    }

    /// The thread as it is once preempted with its context saved at `saved`.
    pub open spec fn parked(self, saved: u64) -> ThreadView {
        ThreadView { context: saved, ..self }
    }

    /// The thread that `new_kthread` makes: its context is the topmost record
    /// of its kernel stack, and the stack holds there the initial context for
    /// `function`.
    pub open spec fn is_new(
        self,
        kernel_stack: StackView,
        user_stack: StackView,
        function: u64,
        code_selector: u16,
        data_selector: u16,
    ) -> bool {
        &&& self.kernel_stack.base == kernel_stack.base
        &&& self.kernel_stack.bytes == kernel_stack.bytes.subrange(
            0,
            KERNEL_STACK_SIZE - INTERRUPT_CONTEXT_SIZE,
        ) + Context::spec_initial(
            function,
            user_stack.end() as u64,
            code_selector,
            data_selector,
        ).image()
        &&& self.user_stack == user_stack
        &&& self.kernel_stack_end == kernel_stack.end()
        &&& self.user_stack_end == user_stack.end()
        &&& self.context == kernel_stack.end() - INTERRUPT_CONTEXT_SIZE
    }
}

/// A kernel thread.
pub struct Thread {
    kernel_stack: Stack,
    user_stack: Stack,
    kernel_stack_end: u64,
    user_stack_end: u64,
    context: u64,
}

impl View for Thread {
    type V = ThreadView;

    closed spec fn view(&self) -> ThreadView {
        ThreadView {
            kernel_stack: self.kernel_stack@,
            user_stack: self.user_stack@,
            kernel_stack_end: self.kernel_stack_end,
            user_stack_end: self.user_stack_end,
            context: self.context,
        }
    }
}

impl Thread {
    /// Makes the thread that starts at `function`: takes the two stacks and
    /// stores the thread's initial context at the top of its kernel stack.
    pub fn new(
        kernel_stack: Stack,
        user_stack: Stack,
        function: u64,
        code_selector: u16,
        data_selector: u16,
    ) -> (thread: Thread)
        requires
            kernel_stack@.wf(),
            kernel_stack@.bytes.len() == KERNEL_STACK_SIZE,
            user_stack@.wf(),
            user_stack@.bytes.len() == USER_STACK_SIZE,
        ensures
            thread@.is_new(kernel_stack@, user_stack@, function, code_selector, data_selector),
            thread@.wf(),
            thread@.holds_context(thread@.context),
    {
        let ghost given = kernel_stack@;
        let kernel_stack_end = kernel_stack.end();
        let user_stack_end = user_stack.end();
        let context = kernel_stack_end - INTERRUPT_CONTEXT_SIZE as u64;
        let mut kernel_stack = kernel_stack;
        let initial = Context::initial(function, user_stack_end, code_selector, data_selector);
        initial.write(&mut kernel_stack.memory, KERNEL_STACK_SIZE - INTERRUPT_CONTEXT_SIZE);
        let thread = Thread { kernel_stack, user_stack, kernel_stack_end, user_stack_end, context };
        assert(thread@.kernel_stack.bytes =~= given.bytes.subrange(
            0,
            KERNEL_STACK_SIZE - INTERRUPT_CONTEXT_SIZE,
        ) + initial.image());
        thread
    }

    /// The end of the thread's kernel stack.
    pub fn kernel_stack_end(&self) -> (end: u64)
        ensures
            end == self@.kernel_stack_end,
    {
        self.kernel_stack_end
    }

    /// The end of the stack that the thread's own code runs on.
    pub fn user_stack_end(&self) -> (end: u64)
        ensures
            end == self@.user_stack_end,
    {
        self.user_stack_end
    }

    /// The address of the thread's saved context.
    pub fn context(&self) -> (context: u64)
        ensures
            context == self@.context,
    {
        self.context
    }

    /// The thread's saved context, read from its kernel stack; none where the
    /// address that the thread holds for it lies off that stack.
    pub fn context_record(&self) -> (record: Option<Context>)
        requires
            self@.wf(),
        ensures
            record is Some <==> self@.holds_context(self@.context),
            record matches Some(context) ==> context.image() == self@.kernel_stack.bytes.subrange(
                self@.context - self@.kernel_stack.base,
                self@.context - self@.kernel_stack.base + INTERRUPT_CONTEXT_SIZE,
            ),
    {
        let base = self.kernel_stack.base;
        if self.context < base || self.context > self.kernel_stack_end - INTERRUPT_CONTEXT_SIZE as u64 {
            return None;
        }
        let offset = (self.context - base) as usize;
        Some(Context::read(&self.kernel_stack.memory, offset))
    }
}

/// What the scheduler holds: the thread that runs, if any, and the threads
/// that wait, first to run first.
pub struct SchedulerView {
    pub current: Option<ThreadView>,
    pub queue: Seq<ThreadView>,
}

impl SchedulerView {
    /// Every thread, the running one first, then the waiting ones in order.
    pub open spec fn ring(self) -> Seq<ThreadView> {
        match self.current {
            Some(thread) => seq![thread] + self.queue,
            None => self.queue,
        }
    }

    /// Every thread is well formed.
    pub open spec fn wf(self) -> bool {
        forall|i: int| 0 <= i < self.ring().len() ==> (#[trigger] self.ring()[i]).wf()
    }

    /// Every thread's saved context lies on its own kernel stack.
    pub open spec fn contexts_on_stacks(self) -> bool {
        forall|i: int|
            0 <= i < self.ring().len() ==> {
                let thread = #[trigger] self.ring()[i];
                thread.holds_context(thread.context)
            }
    }

    /// No two threads share a kernel stack: each thread is held once, in the
    /// queue or as the running thread.
    pub open spec fn distinct(self) -> bool {
        forall|i: int, j: int|
            0 <= i < j < self.ring().len() ==> (#[trigger] self.ring()[i]).kernel_stack_end != (
            #[trigger] self.ring()[j]).kernel_stack_end
    }

    /// Whether a thread's kernel stack ends at `kernel_stack_end`.
    pub open spec fn has_thread(self, kernel_stack_end: u64) -> bool {
        exists|i: int|
            0 <= i < self.ring().len() && (#[trigger] self.ring()[i]).kernel_stack_end
                == kernel_stack_end
    }

    /// The state after `thread` is spawned: it waits behind all others.
    pub open spec fn spawn(self, thread: ThreadView) -> SchedulerView {
        SchedulerView { current: self.current, queue: self.queue.push(thread) }
    }

    /// The state after a timer tick that saved the interrupted context at
    /// `saved`. The running thread, if any, records `saved` as its context.
    /// Where a thread waits, the first in line runs next and the running
    /// thread goes to the back of the queue; where none waits, it runs on.
    pub open spec fn tick(self, saved: u64) -> SchedulerView {
        match self.current {
            Some(thread) => if self.queue.len() == 0 {
                SchedulerView { current: Some(thread.parked(saved)), queue: self.queue }
            } else {
                SchedulerView {
                    current: Some(self.queue[0]),
                    queue: self.queue.subrange(1, self.queue.len() as int).push(
                        thread.parked(saved),
                    ),
                }
            },
            None => if self.queue.len() == 0 {
                self
            } else {
                SchedulerView {
                    current: Some(self.queue[0]),
                    queue: self.queue.subrange(1, self.queue.len() as int),
                }
            },
        }
    }

    /// What a timer tick hands back to the interrupt entry code: the saved
    /// context of the thread to switch to, or 0 to stay on the stack in use.
    pub open spec fn switch_to(self) -> u64 {
        if self.queue.len() == 0 {
            0
        } else {
            self.queue[0].context
        }
    }
}

/// The run queue and the running thread.
pub struct Scheduler {
    running_queue: VecDeque<Box<Thread>>,
    current_thread: Option<Box<Thread>>,
}

impl View for Scheduler {
    type V = SchedulerView;

    closed spec fn view(&self) -> SchedulerView {
        SchedulerView {
            current: match self.current_thread {
                Some(thread) => Some(thread@),
                None => None,
            },
            queue: self.running_queue@.map_values(|thread: Box<Thread>| thread@),
        }
    }
}

impl Scheduler {
    /// A scheduler without threads.
    pub fn new() -> (scheduler: Scheduler)
        ensures
            scheduler@ == (SchedulerView { current: None, queue: Seq::empty() }),
            scheduler@.wf(),
            scheduler@.distinct(),
            scheduler@.contexts_on_stacks(),
    {
        let scheduler = Scheduler { running_queue: VecDeque::new(), current_thread: None };
        assert(scheduler@.queue =~= Seq::empty());
        scheduler
    }

    /// The running thread, if any.
    pub fn current(&self) -> (thread: Option<&Thread>)
        ensures
            thread is Some <==> self@.current is Some,
            thread matches Some(t) ==> self@.current == Some(t@),
    {
        match &self.current_thread {
            Some(thread) => Some(&**thread),
            None => None,
        }
    }

    /// The number of threads that wait.
    pub fn queue_len(&self) -> (len: usize)
        ensures
            len == self@.queue.len(),
    {
        self.running_queue.len()
    }

    /// The waiting thread at place `index` of the queue, 0 being the first in
    /// line.
    pub fn queued(&self, index: usize) -> (thread: Option<&Thread>)
        ensures
            thread is Some <==> index < self@.queue.len(),
            thread matches Some(t) ==> self@.queue[index as int] == t@,
    {
        if index < self.running_queue.len() {
            Some(&*self.running_queue[index])
        } else {
            None
        }
    }
}

/// Spawns a kernel thread that starts at `function`, on the two stacks given:
/// the thread is made as `Thread::new` makes it and waits behind all others.
/// The next timer tick that finds it first in line runs it.
pub fn new_kthread(
    scheduler: &mut Scheduler,
    selectors: &Selectors,
    kernel_stack: Stack,
    user_stack: Stack,
    function: u64,
)
    requires
        old(scheduler)@.wf(),
        kernel_stack@.wf(),
        kernel_stack@.bytes.len() == KERNEL_STACK_SIZE,
        user_stack@.wf(),
        user_stack@.bytes.len() == USER_STACK_SIZE,
    ensures
        final(scheduler)@.current == old(scheduler)@.current,
        final(scheduler)@.queue.len() == old(scheduler)@.queue.len() + 1,
        final(scheduler)@ == old(scheduler)@.spawn(final(scheduler)@.queue.last()),
        final(scheduler)@.queue.last().is_new(
            kernel_stack@,
            user_stack@,
            function,
            selectors.code_selector,
            selectors.data_selector,
        ),
        final(scheduler)@.wf(),
        old(scheduler)@.contexts_on_stacks() ==> final(scheduler)@.contexts_on_stacks(),
        old(scheduler)@.distinct() && !old(scheduler)@.has_thread(kernel_stack@.end() as u64)
            ==> final(scheduler)@.distinct(),
{
    let (code_selector, data_selector) = get_kernel_segments(selectors);
    let new_thread = Box::new(
        Thread::new(kernel_stack, user_stack, function, code_selector, data_selector),
    );
    let ghost before = scheduler@;
    scheduler.running_queue.push_back(new_thread);
    proof {
        assert(scheduler@.queue =~= before.queue.push(new_thread@));
        lemma_spawn(before, new_thread@);
    }
}

/// Spawning keeps what holds of every thread, where it holds of the new one.
pub proof fn lemma_spawn(state: SchedulerView, thread: ThreadView)
    ensures
        state.wf() && thread.wf() ==> state.spawn(thread).wf(),
        state.contexts_on_stacks() && thread.holds_context(thread.context) ==> state.spawn(
            thread,
        ).contexts_on_stacks(),
        state.distinct() && !state.has_thread(thread.kernel_stack_end) ==> state.spawn(
            thread,
        ).distinct(),
        state.spawn(thread).ring() == state.ring().push(thread),
{
    let after = state.spawn(thread);
    assert(after.ring() =~= state.ring().push(thread));
    if state.distinct() && !state.has_thread(thread.kernel_stack_end) {
        assert forall|i: int, j: int| 0 <= i < j < after.ring().len() implies (
        #[trigger] after.ring()[i]).kernel_stack_end != (
        #[trigger] after.ring()[j]).kernel_stack_end by {
            if j == state.ring().len() {
                assert(state.ring()[i].kernel_stack_end != thread.kernel_stack_end);
            } else {
                assert(after.ring()[i] == state.ring()[i]);
                assert(after.ring()[j] == state.ring()[j]);
            }
        }
    }
}

/// One timer tick. `context_addr` is where the interrupt entry code saved
/// the interrupted context. The running thread, if any, records it; where
/// another thread waits, the first in line becomes the running thread and the
/// preempted one goes to the back of the queue. The timer entry of the
/// interrupt stack table is pointed at the kernel stack of the thread that
/// runs next, so that the next tick is taken there. Returns the address of
/// that thread's saved context, for the entry code to switch to, or 0 where
/// the stack in use stays: no thread waits.
pub fn schedule_next(
    scheduler: &mut Scheduler,
    tss: &mut TaskStateSegment,
    context_addr: u64,
) -> (next: u64)
    requires
        old(scheduler)@.wf(),
    ensures
        final(scheduler)@ == old(scheduler)@.tick(context_addr),
        next == old(scheduler)@.switch_to(),
        match final(scheduler)@.current {
            Some(thread) => is_stack_update(
                tss_stacks(*old(tss)),
                tss_stacks(*final(tss)),
                TIMER_INTERRUPT_INDEX as int,
                thread.kernel_stack_end,
            ),
            None => tss_stacks(*final(tss)) == tss_stacks(*old(tss)),
        },
        final(scheduler)@.wf(),
        old(scheduler)@.distinct() ==> final(scheduler)@.distinct(),
        old(scheduler)@.contexts_on_stacks() && (old(scheduler)@.current matches Some(thread)
            ==> thread.holds_context(context_addr)) ==> final(scheduler)@.contexts_on_stacks(),
{
    let ghost before = scheduler@;
    let alone = scheduler.running_queue.len() == 0;
    if let Some(mut thread) = scheduler.current_thread.take() {
        // Save the location of the context, and go to the back of the queue.
        thread.context = context_addr;
        scheduler.running_queue.push_back(thread);
    }
    // The first in line runs next.
    scheduler.current_thread = scheduler.running_queue.pop_front();
    proof {
        lemma_tick_keeps_well_formed(before, context_addr);
        assert(scheduler@.queue =~= before.tick(context_addr).queue);
        if scheduler@.current is Some {
            assert(scheduler@.ring()[0].wf());
        }
        if before.distinct() {
            lemma_tick_keeps_distinct(before, context_addr);
        }
        if before.contexts_on_stacks() && (before.current matches Some(thread)
            ==> thread.holds_context(context_addr)) {
            lemma_tick_keeps_contexts(before, context_addr);
        }
    }
    match &scheduler.current_thread {
        Some(thread) => {
            // The next interrupt is taken on this thread's kernel stack.
            set_interrupt_stack_table(tss, TIMER_INTERRUPT_INDEX as usize, thread.kernel_stack_end);
            if alone {
                0
            } else {
                thread.context
            }
        },
        None => 0,
    }
}

/// A tick keeps every thread well formed, and keeps their number.
pub proof fn lemma_tick_keeps_well_formed(state: SchedulerView, saved: u64)
    requires
        state.wf(),
    ensures
        state.tick(saved).wf(),
        state.tick(saved).ring().len() == state.ring().len(),
{
    let after = state.tick(saved);
    assert forall|i: int| 0 <= i < after.ring().len() implies (#[trigger] after.ring()[i]).wf() by {
        match state.current {
            Some(thread) => {
                assert(state.ring()[0].wf());
                if state.queue.len() > 0 {
                    if i < state.queue.len() {
                        assert(after.ring()[i] == state.ring()[i + 1]);
                    }
                }
            },
            None => {
                assert(after.ring()[i] == state.ring()[i]);
            },
        }
    }
}

} // verus!
