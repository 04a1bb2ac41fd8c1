//! No wakeup is lost: whoever sleeps through a notification is woken by it.
//!
//! A call of `notify` counts the wakeup, and takes the wakers out of the list in a second step. A
//! waiter looks at the count, puts its waker into the list, and looks at the count again before it
//! goes to sleep. Any number of such calls and waiters run side by side, so other steps may come
//! between the steps of each of them.
use crate::notify::counted;
use crate::notify::NotifiedView;
use crate::notify::NotifyView;
use crate::notify::waiters_list::WaitersView;
use vstd::prelude::*;

verus! {

/// How far a waiter got.
pub ghost enum Phase {
    /// It listens, and its task is not about to sleep.
    Listening,
    /// It looked at the count, and saw no wakeup.
    Checked,
    /// It put its waker into the list.
    Registered,
    /// It looked at the count again, saw no wakeup, and its task went to sleep.
    Asleep,
    /// It saw a wakeup.
    Done,
}

/// A waiter, and what happened to it.
pub ghost struct Waiter {
    pub view: NotifiedView,
    /// How many calls of `notify` had counted their wakeup when it started to listen.
    pub calls_before: nat,
    pub phase: Phase,
    /// Whether its waker was taken to be woken, after it was put into the list for the last time.
    pub woken: bool,
}

/// A notification with its waiters, each by the index of its slot, and the calls of `notify`.
pub ghost struct World<W> {
    pub notify: NotifyView<W>,
    pub waiters: Map<usize, Waiter>,
    /// How many calls of `notify` have counted their wakeup.
    pub calls: nat,
    /// How many of them have not taken the wakers yet.
    pub draining: nat,
}

/// A step of a call of `notify`, or of a waiter.
pub ghost enum Step<W> {
    /// A call of `notify` counts its wakeup.
    Count,
    /// A call of `notify` takes the wakers, and wakes them.
    Drain,
    /// A new waiter starts to listen.
    Listen(usize),
    /// A waiter is polled, and looks at the count.
    Check(usize),
    /// A waiter puts its waker into the list.
    Register(usize, W, bool),
    /// A waiter looks at the count again.
    CheckAgain(usize),
    /// A waiter is dropped.
    Drop(usize),
}

impl<W> World<W> {
    /// A notification that no one waits for, and that was never notified.
    pub open spec fn is_initial(self) -> bool {
        &&& self.notify == (NotifyView::<W> {
            num_wakeups: 0,
            waiters: (WaitersView { list: Seq::empty(), live: Set::empty() }),
        })
        &&& self.waiters == Map::<usize, Waiter>::empty()
        &&& self.calls == 0
        &&& self.draining == 0
    }

    /// Whether the step can be taken.
    pub open spec fn possible(self, step: Step<W>) -> bool {
        match step {
            Step::Count => true,
            Step::Drain => self.draining > 0,
            Step::Listen(slot) => !self.notify.waiters.live.contains(slot),
            Step::Check(slot) => self.waiters.dom().contains(slot) && (
            self.waiters[slot].phase is Listening || self.waiters[slot].phase is Asleep),
            Step::Register(slot, _, _) => self.waiters.dom().contains(slot)
                && self.waiters[slot].phase is Checked,
            Step::CheckAgain(slot) => self.waiters.dom().contains(slot)
                && self.waiters[slot].phase is Registered,
            Step::Drop(slot) => self.waiters.dom().contains(slot),
        }
    }

    /// The world in which the waiter of the slot got to `phase`.
    pub open spec fn with_phase(self, slot: usize, phase: Phase) -> Self {
        World { waiters: self.waiters.insert(slot, Waiter { phase, ..self.waiters[slot] }), ..self }
    }

    /// The world after the step.
    pub open spec fn after(self, step: Step<W>) -> Self {
        match step {
            Step::Count => World {
                notify: self.notify.with_counted(),
                calls: self.calls + 1,
                draining: self.draining + 1,
                ..self
            },
            Step::Drain => World {
                notify: self.notify.with_drained(),
                draining: (self.draining - 1) as nat,
                waiters: self.waiters.map_entries(
                    |slot: usize, waiter: Waiter|
                        Waiter {
                            woken: waiter.woken || self.notify.waiters.is_in_list(slot),
                            ..waiter
                        },
                ),
                ..self
            },
            Step::Listen(slot) => World {
                notify: self.notify.with_added(slot),
                waiters: self.waiters.insert(
                    slot,
                    Waiter {
                        view: NotifiedView {
                            slot,
                            num_wakeups_snapshot: self.notify.num_wakeups,
                        },
                        calls_before: self.calls,
                        phase: Phase::Listening,
                        woken: false,
                    },
                ),
                ..self
            },
            Step::Check(slot) => if self.waiters[slot].view.was_notified(self.notify) {
                self.with_phase(slot, Phase::Done)
            } else {
                self.with_phase(slot, Phase::Checked)
            },
            Step::Register(slot, waker, keeps_waker) => World {
                notify: self.notify.with_registered(slot, waker, keeps_waker),
                waiters: self.waiters.insert(
                    slot,
                    Waiter { phase: Phase::Registered, woken: false, ..self.waiters[slot] },
                ),
                ..self
            },
            Step::CheckAgain(slot) => if self.waiters[slot].view.was_notified(self.notify) {
                self.with_phase(slot, Phase::Done)
            } else {
                self.with_phase(slot, Phase::Asleep)
            },
            Step::Drop(slot) => World {
                notify: self.notify.with_removed(slot),
                waiters: self.waiters.remove(slot),
                ..self
            },
        }
    }

    /// What holds of a waiter: a registered one that was not woken is in the list, and one that
    /// sleeps, did not miss a call that is over, and was not woken, has every call still to come.
    pub open spec fn waiter_inv(self, slot: usize) -> bool {
        let waiter = self.waiters[slot];
        &&& waiter.view.slot == slot
        &&& waiter.calls_before <= self.calls
        &&& waiter.view.num_wakeups_snapshot == counted(0, waiter.calls_before)
        &&& waiter.phase is Registered || waiter.phase is Asleep ==> waiter.woken
            || self.notify.waiters.is_in_list(slot)
        &&& waiter.phase is Asleep && !waiter.woken && self.calls - waiter.calls_before
            <= usize::MAX ==> self.calls == waiter.calls_before || self.draining > 0
    }

    /// What holds after any number of steps.
    pub open spec fn inv(self) -> bool {
        &&& self.notify.waiters.wf()
        &&& self.notify.waiters.live == self.waiters.dom()
        &&& self.notify.num_wakeups == counted(0, self.calls)
        &&& forall|slot: usize| #[trigger]
            self.waiters.dom().contains(slot) ==> self.waiter_inv(slot)
    }
}

/// The worlds that follow each other by the steps.
pub open spec fn behavior<W>(worlds: Seq<World<W>>, steps: Seq<Step<W>>) -> bool {
    &&& worlds.len() == steps.len() + 1
    &&& worlds[0].is_initial()
    &&& forall|i: int|
        0 <= i < steps.len() ==> worlds[i].possible(#[trigger] steps[i]) && worlds[i + 1]
            == worlds[i].after(steps[i])
}

/// A count that goes up comes back to what it was no sooner than after as many times as a `usize` has
/// values.
pub proof fn law_count_changes(n: usize, times: nat)
    requires
        0 < times <= usize::MAX,
    ensures
        counted(n, times) != n,
{
    let m: int = usize::MAX + 1;
    if n + times < m {
        vstd::arithmetic::div_mod::lemma_small_mod((n + times) as nat, m as nat);
    } else {
        vstd::arithmetic::div_mod::lemma_mod_sub_multiples_vanish(n + times, m);
        vstd::arithmetic::div_mod::lemma_small_mod((n + times - m) as nat, m as nat);
    }
}

/// Counting up `k` times, and `l` times more, is counting up `k + l` times.
pub proof fn law_counts_add_up(n: usize, k: nat, l: nat)
    ensures
        counted(counted(n, k), l) == counted(n, k + l),
{
    let m: int = usize::MAX + 1;
    vstd::arithmetic::div_mod::lemma_mod_bound(n + k, m);
    vstd::arithmetic::div_mod::lemma_add_mod_noop(n + k, l as int, m);
    vstd::arithmetic::div_mod::lemma_mod_twice(n + k, m);
    vstd::arithmetic::div_mod::lemma_add_mod_noop((n + k) % m, l as int, m);
}

/// Every step keeps the invariant.
pub proof fn law_step_keeps_invariant<W>(world: World<W>, step: Step<W>)
    requires
        world.inv(),
        world.possible(step),
    ensures
        world.after(step).inv(),
{
    let next = world.after(step);
    let waiters = world.notify.waiters;
    law_counts_add_up(0, world.calls, 1);
    match step {
        Step::CheckAgain(slot) => {
            let waiter = world.waiters[slot];
            assert(world.waiter_inv(slot));
            if world.calls > waiter.calls_before && world.calls - waiter.calls_before <= usize::MAX {
                law_counts_add_up(
                    0,
                    waiter.calls_before,
                    (world.calls - waiter.calls_before) as nat,
                );
                law_count_changes(
                    waiter.view.num_wakeups_snapshot,
                    (world.calls - waiter.calls_before) as nat,
                );
            }
        },
        Step::Register(slot, waker, keeps_waker) => {
            crate::notify::waiters_list::law_register_changes_own_slot(
                waiters,
                slot,
                waker,
                keeps_waker,
            );
        },
        Step::Drop(slot) => {
            crate::notify::waiters_list::law_remove_changes_own_slot(waiters, slot);
        },
        _ => {},
    }
    assert(next.notify.waiters.live =~= next.waiters.dom());
    assert forall|slot: usize| #[trigger] next.waiters.dom().contains(slot) implies next.waiter_inv(
        slot,
    ) by {
        if world.waiters.dom().contains(slot) {
            assert(world.waiter_inv(slot));
            if waiters.list == next.notify.waiters.list && waiters.is_in_list(slot) {
                assert(next.notify.waiters.list[waiters.position(slot)].0 == slot);
            }
        }
    }
}

/// The invariant holds after any number of steps.
pub proof fn law_invariant_holds_throughout<W>(worlds: Seq<World<W>>, steps: Seq<Step<W>>, i: int)
    requires
        behavior(worlds, steps),
        0 <= i < worlds.len(),
    ensures
        worlds[i].inv(),
    decreases i,
{
    if i == 0 {
        assert(worlds[0].notify.waiters.live =~= worlds[0].waiters.dom());
        vstd::arithmetic::div_mod::lemma_small_mod(0, (usize::MAX + 1) as nat);
    } else {
        law_invariant_holds_throughout(worlds, steps, i - 1);
        assert(worlds[i - 1].possible(steps[i - 1]));
        law_step_keeps_invariant(worlds[i - 1], steps[i - 1]);
    }
}

/// No wakeup is lost: once the calls of `notify` are over, everyone who listened before one of them
/// and sleeps has been woken. The wakeups that a waiter has not seen are told apart from none as
/// long as they are no more than a `usize` can count.
pub proof fn law_no_wakeup_is_lost<W>(
    worlds: Seq<World<W>>,
    steps: Seq<Step<W>>,
    i: int,
    slot: usize,
)
    requires
        behavior(worlds, steps),
        0 <= i < worlds.len(),
        worlds[i].waiters.dom().contains(slot),
        worlds[i].waiters[slot].phase is Asleep,
        0 < worlds[i].calls - worlds[i].waiters[slot].calls_before <= usize::MAX,
        worlds[i].draining == 0,
    ensures
        worlds[i].waiters[slot].woken,
{
    law_invariant_holds_throughout(worlds, steps, i);
    assert(worlds[i].waiter_inv(slot));
}

/// Whoever listened before a call of `notify` is done the next time it is polled, provided that the
/// wakeups that it has not seen are no more than a `usize` can count.
pub proof fn law_notified_waiter_is_done<W>(
    worlds: Seq<World<W>>,
    steps: Seq<Step<W>>,
    i: int,
    slot: usize,
)
    requires
        behavior(worlds, steps),
        0 <= i < worlds.len(),
        worlds[i].waiters.dom().contains(slot),
        0 < worlds[i].calls - worlds[i].waiters[slot].calls_before <= usize::MAX,
    ensures
        worlds[i].waiters[slot].view.was_notified(worlds[i].notify),
{
    law_invariant_holds_throughout(worlds, steps, i);
    let waiter = worlds[i].waiters[slot];
    assert(worlds[i].waiter_inv(slot));
    let missed = (worlds[i].calls - waiter.calls_before) as nat;
    law_counts_add_up(0, waiter.calls_before, missed);
    law_count_changes(waiter.view.num_wakeups_snapshot, missed);
}

/// Whoever is done was notified: no one sees a wakeup before `notify` was called.
pub proof fn law_done_only_if_notified<W>(
    worlds: Seq<World<W>>,
    steps: Seq<Step<W>>,
    i: int,
    slot: usize,
)
    requires
        behavior(worlds, steps),
        0 <= i < worlds.len(),
        worlds[i].waiters.dom().contains(slot),
        worlds[i].waiters[slot].view.was_notified(worlds[i].notify),
    ensures
        worlds[i].calls > worlds[i].waiters[slot].calls_before,
{
    law_invariant_holds_throughout(worlds, steps, i);
    assert(worlds[i].waiter_inv(slot));
}

/// Whoever goes to sleep is woken by the next notification: its waker is in the list, so it is among
/// the wakers that the notification takes.
pub proof fn law_sleeper_is_woken_next<W>(waiters: WaitersView<W>, slot: usize, waker: W)
    requires
        waiters.wf(),
        !waiters.is_in_list(slot),
    ensures
        waiters.with_registered(slot, waker, false).wakers().contains(waker),
{
    let after = waiters.with_registered(slot, waker, false);
    assert(after.wakers()[0] == waker);
}

/// Whoever is woken when the wakers are taken has its waker among those that are handed out, and
/// whoever is in the list is woken, however many there are.
pub proof fn law_woken_waiters_wakers_are_handed_out<W>(world: World<W>, slot: usize) -> (k: int)
    requires
        world.inv(),
        world.possible(Step::Drain),
        world.waiters.dom().contains(slot),
        !world.waiters[slot].woken,
        world.after(Step::Drain).waiters[slot].woken,
    ensures
        0 <= k < world.notify.waiters.wakers().len(),
        world.notify.waiters.list[k].0 == slot,
        world.notify.waiters.wakers()[k] == world.notify.waiters.list[k].1,
{
    crate::notify::waiters_list::law_wakers_are_all_in_the_list(world.notify.waiters);
    world.notify.waiters.position(slot)
}

/// Every waker that is handed out is that of a waiter, which is woken by it.
pub proof fn law_handed_out_wakers_wake<W>(world: World<W>, k: int)
    requires
        world.inv(),
        world.possible(Step::Drain),
        0 <= k < world.notify.waiters.wakers().len(),
    ensures
        ({
            let slot = world.notify.waiters.list[k].0;
            &&& world.waiters.dom().contains(slot)
            &&& world.after(Step::Drain).waiters[slot].woken
            &&& !world.after(Step::Drain).notify.waiters.is_in_list(slot)
        }),
{
    crate::notify::waiters_list::law_wakers_are_all_in_the_list(world.notify.waiters);
    let slot = world.notify.waiters.list[k].0;
    assert(world.notify.waiters.is_in_list(slot));
}

/// The count goes up by one at a time, and after the largest one starts again at 0.
pub proof fn law_count_goes_up_by_one(n: usize)
    ensures
        counted(n, 0) == n,
        n < usize::MAX ==> counted(n, 1) == n + 1,
        n == usize::MAX ==> counted(n, 1) == 0,
{
    let m: int = usize::MAX + 1;
    vstd::arithmetic::div_mod::lemma_small_mod(n as nat, m as nat);
    if n == usize::MAX {
        vstd::arithmetic::div_mod::lemma_mod_self_0(m);
    } else {
        vstd::arithmetic::div_mod::lemma_small_mod((n + 1) as nat, m as nat);
    }
}

} // verus!
