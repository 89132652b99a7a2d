use rose::boot::BootStep;

#[test]
fn boot_starts_with_the_descriptor_table() {
    assert_eq!(BootStep::first(), BootStep::LoadGdt);
}

#[test]
fn boot_takes_six_steps_in_order() {
    let mut taken = vec![BootStep::first()];
    while let Some(step) = taken[taken.len() - 1].next() {
        taken.push(step);
    }
    assert_eq!(
        taken,
        vec![
            BootStep::LoadGdt,
            BootStep::LoadIdt,
            BootStep::RemapPics,
            BootStep::EnableInterrupts,
            BootStep::InitHeap,
            BootStep::SpawnFirstThread,
        ]
    );
}

#[test]
fn nothing_follows_the_first_thread() {
    assert_eq!(BootStep::SpawnFirstThread.next(), None);
}

#[test]
fn interrupts_go_on_after_the_tables_and_the_controllers() {
    assert_eq!(BootStep::RemapPics.next(), Some(BootStep::EnableInterrupts));
    assert_eq!(BootStep::LoadGdt.next(), Some(BootStep::LoadIdt));
    assert_eq!(BootStep::LoadIdt.next(), Some(BootStep::RemapPics));
}

#[test]
fn first_thread_is_spawned_once_there_is_a_heap() {
    assert_eq!(BootStep::EnableInterrupts.next(), Some(BootStep::InitHeap));
    assert_eq!(BootStep::InitHeap.next(), Some(BootStep::SpawnFirstThread));
}
