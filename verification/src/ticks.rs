//! What holds of the scheduler over a run of timer ticks: each tick turns the
//! ring of threads by one place, so every thread gets its turn, once per
//! round, and finds its context where it was saved.

use vstd::prelude::*;
use vstd::arithmetic::div_mod::{
    lemma_add_mod_noop_right, lemma_fundamental_div_mod, lemma_mod_bound,
    lemma_mod_multiples_vanish, lemma_mod_self_0, lemma_small_mod,
};
use vstd::arithmetic::mul::{lemma_mul_is_distributive_add_other_way, lemma_mul_nonnegative};
use crate::interrupts::entry_context_address;
use crate::process::{lemma_tick_keeps_well_formed, SchedulerView, ThreadView};

verus! {

impl SchedulerView {
    /// The state after one timer tick for each element of `saved`, in order;
    /// the element is the address at which that tick's interrupted context
    /// was saved.
    pub open spec fn run(self, saved: Seq<u64>) -> SchedulerView
        decreases saved.len(),
    {
        if saved.len() == 0 {
            self
        } else {
            self.run(saved.drop_last()).tick(saved.last())
        }
    }

    /// Whether the running thread is the one whose kernel stack ends at
    /// `kernel_stack_end`.
    pub open spec fn selects(self, kernel_stack_end: u64) -> bool {
        self.current matches Some(thread) && thread.kernel_stack_end == kernel_stack_end
    }

    /// How many of the ticks of `saved` leave the thread whose kernel stack
    /// ends at `kernel_stack_end` as the running thread.
    pub open spec fn times_selected(self, saved: Seq<u64>, kernel_stack_end: u64) -> nat
        decreases saved.len(),
    {
        if saved.len() == 0 {
            0
        } else {
            self.times_selected(saved.drop_last(), kernel_stack_end) + if self.run(saved).selects(
                kernel_stack_end,
            ) {
                1nat
            } else {
                0nat
            }
        }
    }

    /// Whether each tick of `saved` found its context saved where an interrupt
    /// taken on the running thread's kernel stack leaves it.
    pub open spec fn saved_by_entry(self, saved: Seq<u64>) -> bool
        decreases saved.len(),
    {
        saved.len() > 0 ==> {
            &&& self.saved_by_entry(saved.drop_last())
            &&& (self.run(saved.drop_last()).current matches Some(thread) ==> saved.last()
                == entry_context_address(thread.kernel_stack_end))
        }
    }

    /// By how many places the first tick turns the ring: by one where a
    /// thread runs, by none where the first in line has yet to start.
    pub open spec fn lead(self) -> int {
        if self.current is Some {
            1
        } else {
            0
        }
    }
}

/// A tick keeps every thread and moves each by one place: the thread at place
/// `j` of the ring after the tick is the one that stood at place `j + 1`
/// before it, the last one the thread that ran. Where no thread ran, the ring
/// stays as it was and its first thread starts.
pub proof fn lemma_tick_rotates(state: SchedulerView, saved: u64)
    requires
        state.ring().len() > 0,
    ensures
        state.tick(saved).current is Some,
        state.tick(saved).ring().len() == state.ring().len(),
        forall|j: int|
            0 <= j < state.ring().len() ==> (#[trigger] state.tick(
                saved,
            ).ring()[j]).kernel_stack_end == state.ring()[(j + state.lead()) % (
            state.ring().len() as int)].kernel_stack_end,
{
    let after = state.tick(saved);
    let n = state.ring().len() as int;
    assert forall|j: int| 0 <= j < n implies (#[trigger] after.ring()[j]).kernel_stack_end
        == state.ring()[(j + state.lead()) % n].kernel_stack_end by {
        match state.current {
            Some(thread) => {
                if j + 1 < n {
                    lemma_small_mod((j + 1) as nat, n as nat);
                    assert(after.ring()[j] == state.ring()[j + 1]);
                } else {
                    lemma_mod_self_0(n);
                    assert(after.ring()[j] == thread.parked(saved));
                }
            },
            None => {
                lemma_small_mod(j as nat, n as nat);
                assert(after.ring()[j] == state.ring()[j]);
            },
        }
    }
}

/// After one tick or more a thread runs, and the ring is the ring of the start
/// turned by one place for each tick but the first, and by one more where a
/// thread ran at the start.
pub proof fn lemma_run_rotates(state: SchedulerView, saved: Seq<u64>)
    requires
        state.ring().len() > 0,
        saved.len() > 0,
    ensures
        state.run(saved).current is Some,
        state.run(saved).ring().len() == state.ring().len(),
        forall|j: int|
            0 <= j < state.ring().len() ==> (#[trigger] state.run(
                saved,
            ).ring()[j]).kernel_stack_end == state.ring()[(j + state.lead() + saved.len() - 1) % (
            state.ring().len() as int)].kernel_stack_end,
    decreases saved.len(),
{
    let n = state.ring().len() as int;
    let before = state.run(saved.drop_last());
    let after = state.run(saved);
    if saved.len() == 1 {
        assert(before == state);
        lemma_tick_rotates(state, saved.last());
    } else {
        lemma_run_rotates(state, saved.drop_last());
        lemma_tick_rotates(before, saved.last());
        assert forall|j: int| 0 <= j < n implies (#[trigger] after.ring()[j]).kernel_stack_end
            == state.ring()[(j + state.lead() + saved.len() - 1) % n].kernel_stack_end by {
            let turned = (j + 1) % n;
            lemma_mod_bound(j + 1, n);
            assert(after.ring()[j].kernel_stack_end == before.ring()[turned].kernel_stack_end);
            assert(before.ring()[turned].kernel_stack_end == state.ring()[(turned + state.lead()
                + saved.drop_last().len() - 1) % n].kernel_stack_end);
            lemma_add_mod_noop_right(state.lead() + saved.len() - 2, j + 1, n);
            assert(turned + state.lead() + saved.drop_last().len() - 1 == (state.lead()
                + saved.len() - 2) + turned);
            assert((state.lead() + saved.len() - 2) + (j + 1) == j + state.lead() + saved.len()
                - 1);
        }
    }
}

/// How many of the `count` numbers from `start` on leave the remainder
/// `place` when divided by `period`.
pub open spec fn turns(start: int, count: nat, period: int, place: int) -> nat
    decreases count,
{
    if count == 0 {
        0
    } else {
        turns(start, (count - 1) as nat, period, place) + if (start + count - 1) % period
            == place {
            1nat
        } else {
            0nat
        }
    }
}

proof fn lemma_turns_split(start: int, first: nat, second: nat, period: int, place: int)
    ensures
        turns(start, first + second, period, place) == turns(start, first, period, place) + turns(
            start + first,
            second,
            period,
            place,
        ),
    decreases second,
{
    if second > 0 {
        lemma_turns_split(start, first, (second - 1) as nat, period, place);
        assert((first + second - 1) as nat == first + (second - 1) as nat);
    }
}

/// Of `count` numbers in a row, `count` at most `period`, one leaves the
/// remainder `place` where the distance from the first number's remainder to
/// `place` is under `count`, and none otherwise.
proof fn lemma_turns_within_period(start: int, count: nat, period: int, place: int)
    requires
        0 <= start,
        0 <= place < period,
        count <= period,
    ensures
        turns(start, count, period, place) == if (place - start % period + period) % period
            < count {
            1nat
        } else {
            0nat
        },
    decreases count,
{
    let first = start % period;
    lemma_mod_bound(start, period);
    let distance = (place - first + period) % period;
    if place >= first {
        lemma_mod_multiples_vanish(1, place - first, period);
        lemma_small_mod((place - first) as nat, period as nat);
        assert(distance == place - first);
    } else {
        lemma_small_mod((place - first + period) as nat, period as nat);
        assert(distance == place - first + period);
    }
    if count > 0 {
        lemma_turns_within_period(start, (count - 1) as nat, period, place);
        let step = count - 1;
        let last = (start + step) % period;
        lemma_fundamental_div_mod(start, period);
        let q = start / period;
        assert(start + step == period * q + (first + step));
        if first + step < period {
            lemma_mod_multiples_vanish(q, first + step, period);
            lemma_small_mod((first + step) as nat, period as nat);
            assert(last == first + step);
        } else {
            assert(start + step == period * (q + 1) + (first + step - period)) by {
                lemma_mul_is_distributive_add_other_way(period, q, 1);
            }
            lemma_mod_multiples_vanish(q + 1, first + step - period, period);
            lemma_small_mod((first + step - period) as nat, period as nat);
            assert(last == first + step - period);
        }
        assert((last == place) <==> (step == distance));
    }
}

/// Of `rounds * period` numbers in a row, `rounds` leave the remainder
/// `place`.
proof fn lemma_turns_rounds(start: int, rounds: nat, period: int, place: int)
    requires
        0 <= start,
        0 <= place < period,
    ensures
        rounds * period >= 0,
        turns(start, (rounds * period) as nat, period, place) == rounds,
    decreases rounds,
{
    lemma_mul_nonnegative(rounds as int, period);
    if rounds == 0 {
        assert(rounds * period == 0) by (nonlinear_arith)
            requires
                rounds == 0,
        ;
    } else {
        let done = (rounds - 1) as nat;
        lemma_turns_rounds(start, done, period, place);
        lemma_mul_nonnegative(done as int, period);
        let first = (done * period) as nat;
        assert(rounds * period == done * period + period) by {
            lemma_mul_is_distributive_add_other_way(period, done as int, 1);
        }
        assert((rounds * period) as nat == first + period as nat);
        lemma_turns_split(start, first, period as nat, period, place);
        lemma_turns_within_period(start + first, period as nat, period, place);
        lemma_mod_bound(start + first, period);
        lemma_mod_bound(place - (start + first) % period + period, period);
        assert(turns(start + first, period as nat, period, place) == 1);
    }
}

/// Where no two threads share a kernel stack, the ticks that leave the thread
/// at place `place` of the ring as the running thread are those whose number
/// has the matching remainder.
proof fn lemma_selected_by_turn(state: SchedulerView, saved: Seq<u64>, place: int)
    requires
        state.distinct(),
        0 <= place < state.ring().len(),
    ensures
        state.times_selected(saved, state.ring()[place].kernel_stack_end) == turns(
            state.lead(),
            saved.len(),
            state.ring().len() as int,
            place,
        ),
    decreases saved.len(),
{
    let n = state.ring().len() as int;
    let key = state.ring()[place].kernel_stack_end;
    if saved.len() > 0 {
        lemma_selected_by_turn(state, saved.drop_last(), place);
        lemma_run_rotates(state, saved);
        let after = state.run(saved);
        let turned = (state.lead() + saved.len() - 1) % n;
        lemma_mod_bound(state.lead() + saved.len() - 1, n);
        assert(after.ring()[0].kernel_stack_end == state.ring()[turned].kernel_stack_end);
        assert(after.current == Some(after.ring()[0]));
        if turned != place {
            if turned < place {
                assert(state.ring()[turned].kernel_stack_end != state.ring()[place].kernel_stack_end);
            } else {
                assert(state.ring()[place].kernel_stack_end != state.ring()[turned].kernel_stack_end);
            }
        }
        assert(after.selects(key) <==> turned == place);
    }
}

/// Round-robin fairness. With the threads that the scheduler holds, none of
/// them sharing a kernel stack with another, any `rounds` times as many timer
/// ticks as there are threads leave each thread as the running thread
/// exactly `rounds` times.
pub proof fn lemma_round_robin_fairness(
    state: SchedulerView,
    saved: Seq<u64>,
    rounds: nat,
    kernel_stack_end: u64,
)
    requires
        state.distinct(),
        state.has_thread(kernel_stack_end),
        saved.len() == rounds * state.ring().len(),
    ensures
        state.times_selected(saved, kernel_stack_end) == rounds,
{
    let n = state.ring().len() as int;
    let place = choose|i: int|
        0 <= i < state.ring().len() && (#[trigger] state.ring()[i]).kernel_stack_end
            == kernel_stack_end;
    lemma_selected_by_turn(state, saved, place);
    lemma_turns_rounds(state.lead(), rounds, n, place);
}

/// No double enqueue. A tick keeps the threads apart: where no two threads
/// shared a kernel stack before it, none do after it, and there are as many
/// threads as before.
pub proof fn lemma_tick_keeps_distinct(state: SchedulerView, saved: u64)
    requires
        state.distinct(),
    ensures
        state.tick(saved).distinct(),
        state.tick(saved).ring().len() == state.ring().len(),
        forall|kernel_stack_end: u64|
            state.has_thread(kernel_stack_end) <==> state.tick(saved).has_thread(
                kernel_stack_end,
            ),
{
    let after = state.tick(saved);
    let n = state.ring().len() as int;
    if n > 0 {
        lemma_tick_rotates(state, saved);
        assert forall|i: int, j: int| 0 <= i < j < n implies (
        #[trigger] after.ring()[i]).kernel_stack_end != (
        #[trigger] after.ring()[j]).kernel_stack_end by {
            let a = lemma_turned_place(i, state.lead(), n);
            let b = lemma_turned_place(j, state.lead(), n);
            if a < b {
                assert(state.ring()[a].kernel_stack_end != state.ring()[b].kernel_stack_end);
            } else {
                assert(state.ring()[b].kernel_stack_end != state.ring()[a].kernel_stack_end);
            }
        }
        assert forall|kernel_stack_end: u64|
            state.has_thread(kernel_stack_end) <==> after.has_thread(kernel_stack_end) by {
            if state.has_thread(kernel_stack_end) {
                let i = choose|i: int|
                    0 <= i < n && (#[trigger] state.ring()[i]).kernel_stack_end
                        == kernel_stack_end;
                let j = if i - state.lead() < 0 {
                    i - state.lead() + n
                } else {
                    i - state.lead()
                };
                let back = lemma_turned_place(j, state.lead(), n);
                assert(back == i);
                assert(after.ring()[j].kernel_stack_end == kernel_stack_end);
            }
            if after.has_thread(kernel_stack_end) {
                let j = choose|j: int|
                    0 <= j < n && (#[trigger] after.ring()[j]).kernel_stack_end
                        == kernel_stack_end;
                let i = lemma_turned_place(j, state.lead(), n);
                assert(state.ring()[i].kernel_stack_end == kernel_stack_end);
            }
        }
    } else {
        assert(after == state);
    }
}

/// The place from which a tick brings a thread to place `j`.
proof fn lemma_turned_place(j: int, lead: int, n: int) -> (place: int)
    requires
        0 <= j < n,
        0 <= lead <= 1,
    ensures
        place == (j + lead) % n,
        0 <= place < n,
        place == if j + lead < n {
            j + lead
        } else {
            0
        },
{
    if j + lead < n {
        lemma_small_mod((j + lead) as nat, n as nat);
    } else {
        lemma_mod_self_0(n);
    }
    (j + lead) % n
}

/// A tick keeps every saved context on its thread's kernel stack, where the
/// interrupted context was saved on the running thread's.
pub proof fn lemma_tick_keeps_contexts(state: SchedulerView, saved: u64)
    requires
        state.contexts_on_stacks(),
        state.current matches Some(thread) ==> thread.holds_context(saved),
    ensures
        state.tick(saved).contexts_on_stacks(),
{
    let after = state.tick(saved);
    assert forall|i: int| 0 <= i < after.ring().len() implies {
        let thread = #[trigger] after.ring()[i];
        thread.holds_context(thread.context)
    } by {
        match state.current {
            Some(thread) => {
                if state.queue.len() > 0 && i < state.queue.len() {
                    assert(after.ring()[i] == state.ring()[i + 1]);
                } else {
                    assert(after.ring()[i] == thread.parked(saved));
                }
            },
            None => {
                assert(after.ring()[i] == state.ring()[i]);
            },
        }
    }
}

/// The threads as they stand after `saved.len()` ticks, at most one round,
/// from a state in which a thread runs and another waits: those that have not
/// run yet have moved up unchanged, and behind them stand those that ran,
/// each with the context that its tick saved.
proof fn lemma_run_within_round(state: SchedulerView, saved: Seq<u64>)
    requires
        state.current is Some,
        state.queue.len() > 0,
        saved.len() <= state.ring().len(),
    ensures
        state.run(saved).current is Some,
        state.run(saved).ring().len() == state.ring().len(),
        forall|j: int|
            0 <= j < state.ring().len() - saved.len() ==> #[trigger] state.run(saved).ring()[j]
                == state.ring()[j + saved.len()],
        forall|i: int|
            0 <= i < saved.len() ==> #[trigger] state.run(saved).ring()[state.ring().len()
                - saved.len() + i] == state.ring()[i].parked(saved[i]),
    decreases saved.len(),
{
    let n = state.ring().len() as int;
    let after = state.run(saved);
    if saved.len() > 0 {
        let earlier = saved.drop_last();
        let before = state.run(earlier);
        let done = earlier.len() as int;
        lemma_run_within_round(state, earlier);
        assert(before.ring()[0] == state.ring()[done]);
        assert(before.queue.len() == n - 1);
        assert forall|j: int| 0 <= j < n - 1 implies #[trigger] after.ring()[j] == before.ring()[j
            + 1] by {}
        assert(after.ring()[n - 1] == before.ring()[0].parked(saved.last()));
        assert forall|j: int| 0 <= j < n - saved.len() implies #[trigger] after.ring()[j]
            == state.ring()[j + saved.len()] by {
            assert(after.ring()[j] == before.ring()[j + 1]);
        }
        assert forall|i: int| 0 <= i < saved.len() implies #[trigger] after.ring()[n - saved.len()
            + i] == state.ring()[i].parked(saved[i]) by {
            if i < done {
                assert(after.ring()[n - saved.len() + i] == before.ring()[n - done + i]);
                assert(earlier[i] == saved[i]);
            }
        }
    }
}

/// A preempted thread is resumed where it was interrupted. Take a state in
/// which a thread runs and others wait, and as many ticks as there are
/// threads. The first tick saves the running thread's context at `saved[0]`.
/// The last tick is the one that brings the thread back: the address that it
/// hands to the interrupt entry code is `saved[0]`, and the thread that runs
/// after it is the thread of the start, changed in nothing but that address.
pub proof fn lemma_resumes_at_saved_context(state: SchedulerView, saved: Seq<u64>)
    requires
        state.current is Some,
        state.queue.len() > 0,
        saved.len() == state.ring().len(),
    ensures
        state.run(saved.drop_last()).switch_to() == saved[0],
        state.run(saved).current == Some(state.current->0.parked(saved[0])),
{
    let n = state.ring().len() as int;
    let earlier = saved.drop_last();
    lemma_run_within_round(state, earlier);
    lemma_run_within_round(state, saved);
    let before = state.run(earlier);
    assert(before.ring()[n - earlier.len() + 0] == state.ring()[0].parked(earlier[0]));
    assert(before.queue[0] == before.ring()[1]);
    assert(state.run(saved).ring()[n - saved.len() + 0] == state.ring()[0].parked(saved[0]));
}

/// An interrupt taken on a thread's kernel stack saves the context on that
/// stack.
pub proof fn lemma_entry_saves_on_stack(thread: ThreadView)
    requires
        thread.wf(),
    ensures
        0 <= entry_context_address(thread.kernel_stack_end) <= u64::MAX,
        thread.holds_context(entry_context_address(thread.kernel_stack_end) as u64),
{
}

/// Saved contexts stay on their stacks. The timer interrupt is taken on the
/// running thread's kernel stack, where the task state segment points. So
/// over any run of ticks every thread stays well formed and every thread's
/// saved context stays on its own kernel stack.
pub proof fn lemma_contexts_stay_on_stacks(state: SchedulerView, saved: Seq<u64>)
    requires
        state.wf(),
        state.contexts_on_stacks(),
        state.saved_by_entry(saved),
    ensures
        state.run(saved).wf(),
        state.run(saved).contexts_on_stacks(),
    decreases saved.len(),
{
    if saved.len() > 0 {
        let before = state.run(saved.drop_last());
        lemma_contexts_stay_on_stacks(state, saved.drop_last());
        if before.current is Some {
            assert(before.ring()[0].wf());
            lemma_entry_saves_on_stack(before.current->0);
        }
        lemma_tick_keeps_well_formed(before, saved.last());
        lemma_tick_keeps_contexts(before, saved.last());
    }
}

} // verus!
