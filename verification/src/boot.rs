//! The order in which the kernel is brought up.

use vstd::prelude::*;

verus! {

/// The steps of bringing the kernel up.
#[derive(Debug, Clone, Copy, PartialEq, Eq, Structural)]
pub enum BootStep {
    /// Load the global descriptor table, the code segment and the task state
    /// segment.
    LoadGdt,
    /// Load the interrupt descriptor table.
    LoadIdt,
    /// Move the interrupt controllers' vectors clear of the CPU's exceptions.
    RemapPics,
    /// Let the CPU take hardware interrupts.
    EnableInterrupts,
    /// Set up the heap, from which threads and their stacks are taken.
    InitHeap,
    /// Spawn the first thread.
    SpawnFirstThread,
}

impl BootStep {
    /// The step's place in the boot order, from 0.
    pub open spec fn place(self) -> nat {
        match self {
            BootStep::LoadGdt => 0,
            BootStep::LoadIdt => 1,
            BootStep::RemapPics => 2,
            BootStep::EnableInterrupts => 3,
            BootStep::InitHeap => 4,
            BootStep::SpawnFirstThread => 5,
        }
    }

    /// The step with which the boot begins.
    pub fn first() -> (step: BootStep)
        ensures
            step == boot_order()[0],
    {
        BootStep::LoadGdt
    }

    /// The step that follows this one, if any does.
    pub fn next(self) -> (step: Option<BootStep>)
        ensures
            step is Some <==> self.place() + 1 < boot_order().len(),
            step matches Some(s) ==> s == boot_order()[self.place() as int + 1],
    {
        match self {
            BootStep::LoadGdt => Some(BootStep::LoadIdt),
            BootStep::LoadIdt => Some(BootStep::RemapPics),
            BootStep::RemapPics => Some(BootStep::EnableInterrupts),
            BootStep::EnableInterrupts => Some(BootStep::InitHeap),
            BootStep::InitHeap => Some(BootStep::SpawnFirstThread),
            BootStep::SpawnFirstThread => None,
        }
    }
}

/// The boot order: the descriptor tables, the interrupt table, the interrupt
/// controllers, then interrupts on, the heap, and the first thread.
pub open spec fn boot_order() -> Seq<BootStep> {
    seq![
        BootStep::LoadGdt,
        BootStep::LoadIdt,
        BootStep::RemapPics,
        BootStep::EnableInterrupts,
        BootStep::InitHeap,
        BootStep::SpawnFirstThread,
    ]
}

/// Each step stands once in the boot order, at its place. So the interrupt
/// stacks, the handlers and the controllers' vectors are all set before the
/// first hardware interrupt can be taken, and no thread is spawned before
/// there is a heap.
pub proof fn lemma_boot_order(step: BootStep)
    ensures
        step.place() < boot_order().len(),
        boot_order()[step.place() as int] == step,
        forall|i: int| 0 <= i < boot_order().len() && boot_order()[i] == step ==> i == step.place(),
        BootStep::LoadGdt.place() < BootStep::EnableInterrupts.place(),
        BootStep::LoadIdt.place() < BootStep::EnableInterrupts.place(),
        BootStep::RemapPics.place() < BootStep::EnableInterrupts.place(),
        BootStep::InitHeap.place() < BootStep::SpawnFirstThread.place(),
{
}

} // verus!
