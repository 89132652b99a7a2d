use rose::gdt::{boot_tss, Selectors};
use rose::interrupts::{timer_interrupt_handler, Context};
use rose::process::{
    new_kthread, schedule_next, Scheduler, Stack, Thread, KERNEL_STACK_SIZE, USER_STACK_SIZE,
};
use x86_64::structures::tss::TaskStateSegment;

const SELECTORS: Selectors = Selectors { code_selector: 0x08, data_selector: 0x10, tss_selector: 0x18 };

const BOOT_STACK: u64 = 0x0020_0000;
const BOOT_STACK_END: u64 = 0x0020_5000;

const A_KERNEL: u64 = 0x0100_0000;
const A_USER: u64 = 0x0110_0000;
const A_ENTRY: u64 = 0x0040_1000;
const A_END: u64 = A_KERNEL + 0x2000;

const B_KERNEL: u64 = 0x0200_0000;
const B_USER: u64 = 0x0210_0000;
const B_ENTRY: u64 = 0x0040_2000;
const B_END: u64 = B_KERNEL + 0x2000;

const C_KERNEL: u64 = 0xffff_8000_0300_0000;
const C_USER: u64 = 0xffff_8000_0310_0000;
const C_ENTRY: u64 = 0xffff_8000_0040_3000;
const C_END: u64 = C_KERNEL + 0x2000;

fn kernel_stack_at(base: u64) -> Stack {
    Stack::new(vec![0u8; KERNEL_STACK_SIZE], base).unwrap()
}

fn user_stack_at(base: u64) -> Stack {
    Stack::new(vec![0u8; USER_STACK_SIZE], base).unwrap()
}

fn spawn_at(scheduler: &mut Scheduler, kernel: u64, user: u64, entry: u64) {
    new_kthread(scheduler, &SELECTORS, kernel_stack_at(kernel), user_stack_at(user), entry);
}

fn timer_stack(tss: &TaskStateSegment) -> u64 {
    let table = tss.interrupt_stack_table;
    table[1].as_u64()
}

fn running(scheduler: &Scheduler) -> Option<u64> {
    scheduler.current().map(|thread| thread.kernel_stack_end())
}

fn waiting(scheduler: &Scheduler) -> Vec<u64> {
    (0..scheduler.queue_len()).map(|i| scheduler.queued(i).unwrap().kernel_stack_end()).collect()
}

#[test]
fn stack_sizes() {
    assert_eq!(KERNEL_STACK_SIZE, 8 * 1024);
    assert_eq!(USER_STACK_SIZE, 20 * 1024);
}

#[test]
fn stack_knows_its_base_size_and_end() {
    let stack = Stack::new(vec![0u8; 4096], 0x7000).unwrap();
    assert_eq!(stack.base(), 0x7000);
    assert_eq!(stack.size(), 4096);
    assert_eq!(stack.end(), 0x8000);
}

#[test]
fn stack_off_the_canonical_addresses_is_refused() {
    assert!(Stack::new(vec![0u8; 4096], 0x0000_8000_0000_0000).is_none());
    assert!(Stack::new(vec![0u8; 4096], 0x0000_7fff_ffff_f000).is_none());
    assert!(Stack::new(vec![0u8; 4096], 0xffff_ffff_ffff_f000).is_none());
    assert!(Stack::new(vec![0u8; 4096], 0x0000_7fff_ffff_e000).is_some());
    assert!(Stack::new(vec![0u8; 4095], 0xffff_ffff_ffff_f000).is_some());
}

#[test]
fn new_thread_ends_its_stacks_and_saves_its_context_on_top() {
    let thread = Thread::new(kernel_stack_at(A_KERNEL), user_stack_at(A_USER), A_ENTRY, 0x08, 0x10);
    assert_eq!(thread.kernel_stack_end(), 0x0100_2000);
    assert_eq!(thread.user_stack_end(), 0x0110_5000);
    assert_eq!(thread.context(), 0x0100_2000 - 160);
    assert_eq!(thread.context(), 0x0100_1f60);
}

#[test]
fn new_thread_holds_its_initial_context() {
    let thread = Thread::new(kernel_stack_at(A_KERNEL), user_stack_at(A_USER), A_ENTRY, 0x08, 0x10);
    let context = thread.context_record().unwrap();
    assert_eq!(context, Context::initial(A_ENTRY, 0x0110_5000, 0x08, 0x10));
    assert_eq!(context.rip, A_ENTRY);
    assert_eq!(context.rsp, 0x0110_5000);
    assert_eq!(context.rflags, 0x200);
    assert_eq!(context.cs, 0x08);
    assert_eq!(context.ss, 0x10);
    assert_eq!(context.rax, 0);
    assert_eq!(context.r15, 0);
}

#[test]
fn new_thread_writes_only_the_top_of_its_kernel_stack() {
    let memory = vec![0x77u8; KERNEL_STACK_SIZE];
    let stack = Stack::new(memory, A_KERNEL).unwrap();
    let thread = Thread::new(stack, user_stack_at(A_USER), A_ENTRY, 0x08, 0x10);
    let context = thread.context_record().unwrap();
    assert_eq!(context.rip, A_ENTRY);
    assert_eq!(context.rbx, 0);
}

#[test]
fn new_scheduler_has_no_threads() {
    let scheduler = Scheduler::new();
    assert!(scheduler.current().is_none());
    assert_eq!(scheduler.queue_len(), 0);
    assert!(scheduler.queued(0).is_none());
}

#[test]
fn new_kthread_queues_behind_the_others() {
    let mut scheduler = Scheduler::new();
    spawn_at(&mut scheduler, A_KERNEL, A_USER, A_ENTRY);
    spawn_at(&mut scheduler, B_KERNEL, B_USER, B_ENTRY);
    assert!(scheduler.current().is_none());
    assert_eq!(waiting(&scheduler), vec![A_END, B_END]);
    assert!(scheduler.queued(2).is_none());
}

#[test]
fn new_kthread_takes_the_kernel_segments() {
    let mut scheduler = Scheduler::new();
    let selectors = Selectors { code_selector: 0x28, data_selector: 0x30, tss_selector: 0x40 };
    new_kthread(
        &mut scheduler,
        &selectors,
        kernel_stack_at(A_KERNEL),
        user_stack_at(A_USER),
        A_ENTRY,
    );
    let context = scheduler.queued(0).unwrap().context_record().unwrap();
    assert_eq!(context, Context::initial(A_ENTRY, A_USER + 0x5000, 0x28, 0x30));
}

#[test]
fn new_kthread_in_the_upper_half() {
    let mut scheduler = Scheduler::new();
    spawn_at(&mut scheduler, C_KERNEL, C_USER, C_ENTRY);
    let thread = scheduler.queued(0).unwrap();
    assert_eq!(thread.kernel_stack_end(), 0xffff_8000_0300_2000);
    assert_eq!(thread.user_stack_end(), 0xffff_8000_0310_5000);
    assert_eq!(thread.context(), 0xffff_8000_0300_1f60);
    assert_eq!(thread.context_record().unwrap().rip, C_ENTRY);
}

#[test]
fn boot_without_threads() {
    let mut scheduler = Scheduler::new();
    let mut tss = boot_tss(BOOT_STACK);
    for _ in 0..100 {
        assert_eq!(schedule_next(&mut scheduler, &mut tss, BOOT_STACK_END - 160), 0);
        assert!(scheduler.current().is_none());
        assert_eq!(scheduler.queue_len(), 0);
        assert_eq!(timer_stack(&tss), BOOT_STACK_END);
    }
}

#[test]
fn first_tick_starts_the_first_thread() {
    let mut scheduler = Scheduler::new();
    let mut tss = boot_tss(BOOT_STACK);
    spawn_at(&mut scheduler, A_KERNEL, A_USER, A_ENTRY);
    let next = schedule_next(&mut scheduler, &mut tss, BOOT_STACK_END - 160);
    assert_eq!(next, A_END - 160);
    assert_eq!(running(&scheduler), Some(A_END));
    assert_eq!(scheduler.queue_len(), 0);
    assert_eq!(timer_stack(&tss), A_END);
}

#[test]
fn lone_thread_runs_on() {
    let mut scheduler = Scheduler::new();
    let mut tss = boot_tss(BOOT_STACK);
    spawn_at(&mut scheduler, A_KERNEL, A_USER, A_ENTRY);
    schedule_next(&mut scheduler, &mut tss, BOOT_STACK_END - 160);
    for tick in 0..5u64 {
        let saved = A_END - 160 - 16 * tick;
        assert_eq!(schedule_next(&mut scheduler, &mut tss, saved), 0);
        assert_eq!(running(&scheduler), Some(A_END));
        assert_eq!(scheduler.current().unwrap().context(), saved);
        assert_eq!(scheduler.queue_len(), 0);
        assert_eq!(timer_stack(&tss), A_END);
    }
}

#[test]
fn two_thread_alternation() {
    let mut scheduler = Scheduler::new();
    let mut tss = boot_tss(BOOT_STACK);
    spawn_at(&mut scheduler, A_KERNEL, A_USER, A_ENTRY);
    spawn_at(&mut scheduler, B_KERNEL, B_USER, B_ENTRY);
    let mut saved = BOOT_STACK_END - 160;
    let mut ran = Vec::new();
    for _ in 0..10 {
        let next = schedule_next(&mut scheduler, &mut tss, saved);
        assert_ne!(next, 0);
        ran.push(running(&scheduler).unwrap());
        saved = next;
    }
    assert_eq!(ran, vec![A_END, B_END, A_END, B_END, A_END, B_END, A_END, B_END, A_END, B_END]);
    assert_eq!(ran.iter().filter(|&&end| end == A_END).count(), 5);
    assert_eq!(ran.iter().filter(|&&end| end == B_END).count(), 5);
}

#[test]
fn three_threads_each_run_once_per_round() {
    let mut scheduler = Scheduler::new();
    let mut tss = boot_tss(BOOT_STACK);
    spawn_at(&mut scheduler, A_KERNEL, A_USER, A_ENTRY);
    spawn_at(&mut scheduler, B_KERNEL, B_USER, B_ENTRY);
    spawn_at(&mut scheduler, C_KERNEL, C_USER, C_ENTRY);
    // Start somewhere in a round.
    for _ in 0..2 {
        schedule_next(&mut scheduler, &mut tss, 0x1000);
    }
    let mut ran = Vec::new();
    for _ in 0..4 * 3 {
        schedule_next(&mut scheduler, &mut tss, 0x1000);
        ran.push(running(&scheduler).unwrap());
    }
    for end in [A_END, B_END, C_END] {
        assert_eq!(ran.iter().filter(|&&ran_end| ran_end == end).count(), 4);
    }
    assert_eq!(&ran[..4], &[C_END, A_END, B_END, C_END]);
}

#[test]
fn preempted_thread_goes_to_the_back() {
    let mut scheduler = Scheduler::new();
    let mut tss = boot_tss(BOOT_STACK);
    spawn_at(&mut scheduler, A_KERNEL, A_USER, A_ENTRY);
    spawn_at(&mut scheduler, B_KERNEL, B_USER, B_ENTRY);
    spawn_at(&mut scheduler, C_KERNEL, C_USER, C_ENTRY);
    schedule_next(&mut scheduler, &mut tss, BOOT_STACK_END - 160);
    assert_eq!(running(&scheduler), Some(A_END));
    assert_eq!(waiting(&scheduler), vec![B_END, C_END]);
    schedule_next(&mut scheduler, &mut tss, A_END - 200);
    assert_eq!(running(&scheduler), Some(B_END));
    assert_eq!(waiting(&scheduler), vec![C_END, A_END]);
}

#[test]
fn no_thread_is_held_twice() {
    let mut scheduler = Scheduler::new();
    let mut tss = boot_tss(BOOT_STACK);
    spawn_at(&mut scheduler, A_KERNEL, A_USER, A_ENTRY);
    spawn_at(&mut scheduler, B_KERNEL, B_USER, B_ENTRY);
    spawn_at(&mut scheduler, C_KERNEL, C_USER, C_ENTRY);
    for _ in 0..7 {
        schedule_next(&mut scheduler, &mut tss, 0x1000);
        let mut held = waiting(&scheduler);
        held.extend(running(&scheduler));
        held.sort();
        assert_eq!(held, vec![A_END, B_END, C_END]);
    }
}

#[test]
fn tss_tracks_the_running_thread() {
    let mut scheduler = Scheduler::new();
    let mut tss = boot_tss(BOOT_STACK);
    spawn_at(&mut scheduler, A_KERNEL, A_USER, A_ENTRY);
    spawn_at(&mut scheduler, B_KERNEL, B_USER, B_ENTRY);
    spawn_at(&mut scheduler, C_KERNEL, C_USER, C_ENTRY);
    for _ in 0..9 {
        schedule_next(&mut scheduler, &mut tss, 0x1000);
        assert_eq!(Some(timer_stack(&tss)), running(&scheduler));
        let table = tss.interrupt_stack_table;
        assert_eq!(table[0].as_u64(), BOOT_STACK_END);
        assert_eq!(table[2].as_u64(), 0);
    }
}

#[test]
fn preempted_thread_resumes_where_it_was_saved() {
    let mut scheduler = Scheduler::new();
    let mut tss = boot_tss(BOOT_STACK);
    spawn_at(&mut scheduler, A_KERNEL, A_USER, A_ENTRY);
    spawn_at(&mut scheduler, B_KERNEL, B_USER, B_ENTRY);
    spawn_at(&mut scheduler, C_KERNEL, C_USER, C_ENTRY);
    assert_eq!(schedule_next(&mut scheduler, &mut tss, BOOT_STACK_END - 160), A_END - 160);
    // A is interrupted with its context saved at A_END - 0x300.
    assert_eq!(schedule_next(&mut scheduler, &mut tss, A_END - 0x300), B_END - 160);
    assert_eq!(schedule_next(&mut scheduler, &mut tss, B_END - 0x400), C_END - 160);
    assert_eq!(schedule_next(&mut scheduler, &mut tss, C_END - 0x500), A_END - 0x300);
    assert_eq!(running(&scheduler), Some(A_END));
    assert_eq!(scheduler.current().unwrap().context(), A_END - 0x300);
    assert_eq!(schedule_next(&mut scheduler, &mut tss, A_END - 0x310), B_END - 0x400);
    assert_eq!(schedule_next(&mut scheduler, &mut tss, B_END - 0x410), C_END - 0x500);
}

#[test]
fn context_record_follows_the_saved_address() {
    let mut scheduler = Scheduler::new();
    let mut tss = boot_tss(BOOT_STACK);
    spawn_at(&mut scheduler, A_KERNEL, A_USER, A_ENTRY);
    spawn_at(&mut scheduler, B_KERNEL, B_USER, B_ENTRY);
    schedule_next(&mut scheduler, &mut tss, BOOT_STACK_END - 160);
    // A's context is saved lower on its stack, where the buffer holds zeros.
    schedule_next(&mut scheduler, &mut tss, A_END - 0x400);
    let parked = scheduler.queued(0).unwrap();
    assert_eq!(parked.kernel_stack_end(), A_END);
    let mut zero = Context::initial(0, 0, 0, 0);
    zero.rflags = 0;
    assert_eq!(parked.context_record().unwrap(), zero);
}

#[test]
fn context_record_off_the_stack_is_none() {
    let mut scheduler = Scheduler::new();
    let mut tss = boot_tss(BOOT_STACK);
    spawn_at(&mut scheduler, A_KERNEL, A_USER, A_ENTRY);
    spawn_at(&mut scheduler, B_KERNEL, B_USER, B_ENTRY);
    schedule_next(&mut scheduler, &mut tss, BOOT_STACK_END - 160);
    schedule_next(&mut scheduler, &mut tss, A_END - 159);
    assert!(scheduler.queued(0).unwrap().context_record().is_none());
    schedule_next(&mut scheduler, &mut tss, B_KERNEL - 1);
    assert!(scheduler.queued(0).unwrap().context_record().is_none());
    schedule_next(&mut scheduler, &mut tss, A_KERNEL);
    assert!(scheduler.queued(0).unwrap().context_record().is_some());
}

#[test]
fn spawn_from_thread() {
    let mut scheduler = Scheduler::new();
    let mut tss = boot_tss(BOOT_STACK);
    spawn_at(&mut scheduler, A_KERNEL, A_USER, A_ENTRY);
    schedule_next(&mut scheduler, &mut tss, BOOT_STACK_END - 160);
    assert_eq!(running(&scheduler), Some(A_END));
    // A spawns C while it runs.
    spawn_at(&mut scheduler, C_KERNEL, C_USER, C_ENTRY);
    assert_eq!(running(&scheduler), Some(A_END));
    assert_eq!(waiting(&scheduler), vec![C_END]);
    let next = schedule_next(&mut scheduler, &mut tss, A_END - 0x200);
    assert_eq!(next, C_END - 160);
    assert_eq!(running(&scheduler), Some(C_END));
    assert_eq!(timer_stack(&tss), C_END);
    assert_eq!(scheduler.current().unwrap().context_record().unwrap().rip, C_ENTRY);
}

#[test]
fn spawn_between_ticks_joins_the_round() {
    let mut scheduler = Scheduler::new();
    let mut tss = boot_tss(BOOT_STACK);
    spawn_at(&mut scheduler, A_KERNEL, A_USER, A_ENTRY);
    spawn_at(&mut scheduler, B_KERNEL, B_USER, B_ENTRY);
    schedule_next(&mut scheduler, &mut tss, 0x1000);
    spawn_at(&mut scheduler, C_KERNEL, C_USER, C_ENTRY);
    let mut ran = Vec::new();
    for _ in 0..6 {
        schedule_next(&mut scheduler, &mut tss, 0x1000);
        ran.push(running(&scheduler).unwrap());
    }
    assert_eq!(ran, vec![B_END, C_END, A_END, B_END, C_END, A_END]);
}

#[test]
fn timer_handler_ticks_the_scheduler() {
    let mut scheduler = Scheduler::new();
    let mut tss = boot_tss(BOOT_STACK);
    spawn_at(&mut scheduler, A_KERNEL, A_USER, A_ENTRY);
    spawn_at(&mut scheduler, B_KERNEL, B_USER, B_ENTRY);
    let first = timer_interrupt_handler(&mut scheduler, &mut tss, BOOT_STACK_END - 160);
    assert_eq!((first.next_stack, first.end_of_interrupt), (A_END - 160, 32));
    let second = timer_interrupt_handler(&mut scheduler, &mut tss, A_END - 0x300);
    assert_eq!((second.next_stack, second.end_of_interrupt), (B_END - 160, 32));
    assert_eq!(timer_stack(&tss), B_END);
    let third = timer_interrupt_handler(&mut scheduler, &mut tss, B_END - 0x300);
    assert_eq!((third.next_stack, third.end_of_interrupt), (A_END - 0x300, 32));
}
