//! Why data may be reclaimed after a grace period: no thread still uses it.
//!
//! A [`World`] is everything that takes part: the epoch id, the storage slots, the protected pointers
//! with the references that threads hold to what they pointed to, and the waits for grace periods. A
//! [`Step`] is one thing that happens: a hook, a read or a swap of a pointer, or one step of a wait.
//! The steps of the hooks and of the waits do to the epoch id, the slots and the phases what the
//! contracts of `hooks` and `synchronize` say.
//!
//! The steps are small. A hook publishes an epoch id that its thread has read, and that may have been
//! incremented since, though not reset. A wait looks at one slot after the other, and between two
//! looks anything can happen. So what is proved holds all the more where hooks and looks at all slots
//! happen as a whole.
use vstd::prelude::*;

use crate::epoch::{valid_epoch_id, EpochId, EPOCH_ID_MAX, EPOCH_ID_MIN};
use crate::hooks::{busy_at, is_busy, last_seen, parked, StatusChange};
use crate::per_thread_storage::thread_storage_slots::{
    lemma_with_allocated, lemma_with_deallocated, lemma_with_stored, SlotsView,
};
use crate::per_thread_storage::ThreadStorageSlotId;
use crate::synchronize::{
    law_end_of_hold_up_is_notified, need_not_wait, need_not_wait_for, ResetLock, SeenGoal, SyncAction,
    SyncPhase,
};

verus! {

/// A wait for a grace period.
pub ghost struct Wait {
    /// How far it has come.
    pub phase: SyncPhase,
    /// The versions that had been swapped out when the wait began, and are to be reclaimed when it
    /// is over.
    pub retired: Set<nat>,
    /// While it looks at the slots one after the other, how many it has looked at, and how many there
    /// were when it began.
    pub look: Option<(nat, nat)>,
}

/// The state of everything that takes part.
pub ghost struct World {
    /// The epoch id.
    pub epoch: EpochId,
    /// The storage slots.
    pub slots: SlotsView,
    /// How many versions of protected data there have been. Each has a number below this one.
    pub num_versions: nat,
    /// The protected pointers, by some number, each with the version that it now points to.
    pub pointers: Map<nat, nat>,
    /// By the slot of a thread, the versions that code on that thread holds references to.
    pub held: Map<ThreadStorageSlotId, Set<nat>>,
    /// The waits for grace periods, by some number.
    pub waits: Map<nat, Wait>,
    /// The waits to which the end of the reset was announced that they sleep for.
    pub announced: Set<nat>,
    /// By the number of a wait, the slot of the thread that it ran on when it last began to look.
    pub ran_on: Map<nat, ThreadStorageSlotId>,
    /// How many hooks have asked for the waiting writers to be notified, and that has not been done.
    pub notifications: nat,
    /// The waits that have been notified since they last began to listen.
    pub notified: Set<nat>,
}

impl World {
    /// Nothing has happened yet.
    pub open spec fn initial(self) -> bool {
        &&& self.epoch == EPOCH_ID_MIN
        &&& self.slots == SlotsView::empty()
        &&& self.num_versions == 0
        &&& self.pointers == Map::<nat, nat>::empty()
        &&& self.held == Map::<ThreadStorageSlotId, Set<nat>>::empty()
        &&& self.waits == Map::<nat, Wait>::empty()
        &&& self.announced == Set::<nat>::empty()
        &&& self.ran_on == Map::<nat, ThreadStorageSlotId>::empty()
        &&& self.notifications == 0
        &&& self.notified == Set::<nat>::empty()
    }

    /// Whether no pointer points to the given version any more.
    pub open spec fn is_swapped_out(self, version: nat) -> bool {
        &&& version < self.num_versions
        &&& forall|pointer: nat| #[trigger]
            self.pointers.contains_key(pointer) ==> self.pointers[pointer] != version
    }

    /// Whether code on the thread with slot `id` holds a reference to the given version.
    pub open spec fn holds(self, id: ThreadStorageSlotId, version: nat) -> bool {
        self.held.contains_key(id) && self.held[id].contains(version)
    }

    /// Whether code on the thread with slot `id` holds no reference.
    pub open spec fn holds_nothing(self, id: ThreadStorageSlotId) -> bool {
        forall|version: nat| !#[trigger] self.holds(id, version)
    }

    /// Whether the thread with slot `id` is busy.
    pub open spec fn busy(self, id: ThreadStorageSlotId) -> bool {
        self.slots.is_allocated(id) && is_busy(self.slots.states[id.0 as int])
    }

    /// The epoch id that the thread with slot `id` has last seen.
    pub open spec fn seen_by(self, id: ThreadStorageSlotId) -> EpochId {
        last_seen(self.slots.states[id.0 as int])
    }

    /// Whether a thread can publish the given epoch id: it is the current one, or was before it was
    /// incremented.
    pub open spec fn is_readable(self, epoch_id: EpochId) -> bool {
        valid_epoch_id(epoch_id) && epoch_id <= self.epoch
    }

    /// How the given wait holds the reset lock.
    pub open spec fn lock_of(self, wait: nat) -> ResetLock {
        if self.waits.contains_key(wait) {
            self.waits[wait].phase.lock()
        } else {
            ResetLock::Unlocked
        }
    }

    /// Whether no wait but the given one holds the reset lock alone.
    pub open spec fn no_other_exclusive(self, wait: nat) -> bool {
        forall|other: nat|
            other != wait ==> #[trigger] self.lock_of(other) != ResetLock::Exclusive
    }

    /// Whether no wait but the given one holds the reset lock.
    pub open spec fn no_other_lock(self, wait: nat) -> bool {
        forall|other: nat| other != wait ==> #[trigger] self.lock_of(other) == ResetLock::Unlocked
    }

    /// Whether the given wait need not look at the slot any more: it has done so, or the slot came
    /// later.
    pub open spec fn cleared(self, wait: nat, id: ThreadStorageSlotId) -> bool {
        self.waits[wait].look matches Some((looked, until)) && (id.0 < looked || id.0 >= until)
    }

    /// Whether the epoch id has been reset, and the wait that did so has yet to see whether the thread
    /// with slot `id` has seen that.
    pub open spec fn reset_will_look_at(self, id: ThreadStorageSlotId) -> bool {
        exists|wait: nat| #[trigger] self.in_reset(wait) && !self.cleared(wait, id)
    }

    /// Whether the thread with slot `id` publishes no epoch id from before a reset, unless that is
    /// going to be noticed.
    pub open spec fn is_not_stale(self, id: ThreadStorageSlotId) -> bool {
        self.seen_by(id) <= self.epoch || self.reset_will_look_at(id)
    }

    /// Whether the given wait has reset the epoch id, and not yet found that all threads have seen
    /// that.
    pub open spec fn in_reset(self, wait: nat) -> bool {
        self.waits.contains_key(wait) && match self.waits[wait].phase {
            SyncPhase::ResetFence | SyncPhase::ResetScan | SyncPhase::ResetSleep => true,
            _ => false,
        }
    }

    /// Whether the given wait sleeps until the epoch id is reset.
    pub open spec fn awaits_reset(self, wait: nat) -> bool {
        self.waits.contains_key(wait) && self.waits[wait].phase == SyncPhase::AwaitReset
    }

    /// What the given wait sleeps for, if it sleeps until the state of some thread changes: that no
    /// thread holds it up which has not seen this.
    pub open spec fn sleep_goal(self, wait: nat) -> Option<SeenGoal> {
        if !self.waits.contains_key(wait) {
            None
        } else {
            match self.waits[wait].phase {
                SyncPhase::ResetSleep => Some(SeenGoal::Exactly(EPOCH_ID_MIN)),
                SyncPhase::Sleep(epoch_id) => Some(SeenGoal::AtLeast(epoch_id)),
                _ => None,
            }
        }
    }

    /// Whether the given wait listens for changes of the states of threads: it looks at the slots, or
    /// sleeps after it has done so.
    pub open spec fn listens(self, wait: nat) -> bool {
        self.waits.contains_key(wait) && (self.waits[wait].look is Some || self.sleep_goal(
            wait,
        ) is Some)
    }

    /// Whether no slot that a wait with the given goal looks at, on the thread with slot `id`, holds it
    /// up.
    pub open spec fn need_not_wait(self, id: ThreadStorageSlotId, goal: SeenGoal) -> bool {
        need_not_wait(self.slots.states, id, goal)
    }

    /// How many notifications are to be done after the thread with slot `id` changes its status.
    pub open spec fn notifications_after(self, id: ThreadStorageSlotId, change: StatusChange) -> nat {
        if change.notifies(self.slots.states[id.0 as int]) {
            self.notifications + 1
        } else {
            self.notifications
        }
    }

    /// The waits to which the end of the reset has been announced that they sleep for, once what the
    /// given wait asked for is done: the wait that ran the reset announces it to all that sleep.
    pub open spec fn announced_when_completed(self, wait: nat) -> Set<nat> {
        if self.waits[wait].phase == SyncPhase::AnnounceReset {
            Set::new(|other: nat| self.awaits_reset(other))
        } else {
            self.announced.remove(wait)
        }
    }

    /// The world with the given wait in the given phase, and so far with its look at the slots.
    pub open spec fn with_look(self, wait: nat, phase: SyncPhase, look: Option<(nat, nat)>) -> World {
        World { waits: self.waits.insert(wait, Wait { phase, look, ..self.waits[wait] }), ..self }
    }

    /// The world with the given wait in the given phase.
    pub open spec fn with_phase(self, wait: nat, phase: SyncPhase) -> World {
        self.with_look(wait, phase, None)
    }

    /// What may be reclaimed when the given wait is over is not in use: no thread holds a reference
    /// to any of it.
    pub open spec fn retired_is_unused(self, wait: nat) -> bool {
        forall|id: ThreadStorageSlotId, version: nat| #[trigger]
            self.holds(id, version) ==> !self.waits[wait].retired.contains(version)
    }
}

/// One thing that happens.
pub ghost enum Step {
    /// A thread starts, and publishes this epoch id.
    ThreadStart(EpochId),
    /// The thread with this slot stops.
    ThreadStop(ThreadStorageSlotId),
    /// The thread with this slot parks.
    ThreadPark(ThreadStorageSlotId),
    /// The thread with this slot unparks, and publishes this epoch id.
    ThreadUnpark(ThreadStorageSlotId, EpochId),
    /// The thread with this slot has polled a task, and publishes this epoch id.
    AfterTaskPoll(ThreadStorageSlotId, EpochId),
    /// A protected pointer with this number is made, which points to a new version.
    New(nat),
    /// Code on the thread with this slot reads the pointer with this number, and holds a reference
    /// to the version that it finds.
    Read(ThreadStorageSlotId, nat),
    /// Code on the thread with this slot gives up its references to this version.
    Release(ThreadStorageSlotId, nat),
    /// The pointer with this number is swapped: it now points to a new version.
    Swap(nat),
    /// A wait with this number begins.
    Synchronize(nat),
    /// The wait with this number goes on, with what it asked for done.
    Advance(nat),
    /// The wait with this number goes on after it tried to take the reset lock again.
    Relock(nat, bool),
    /// What a hook has asked for is done: everyone who listens is notified.
    Notify,
    /// The wait with this number begins to listen, and then to look at all slots; it runs on the
    /// thread with this slot.
    BeginLook(nat, ThreadStorageSlotId),
    /// The wait with this number looks at the next slot; it runs on the thread with this slot.
    Look(nat, ThreadStorageSlotId),
    /// The wait with this number has looked at all slots, and found no reason to wait.
    EndLook(nat),
}

impl Step {
    /// Whether the step can happen.
    ///
    /// References are held within one poll of a task only: the thread holds none when it stops,
    /// parks, has polled a task, or polls a task that waits for a grace period. Only a thread that
    /// is parked unparks. The reset lock excludes as a readers-writer lock does.
    pub open spec fn possible(self, w: World) -> bool {
        match self {
            Step::ThreadStart(epoch_id) => w.slots.has_room() && w.is_readable(epoch_id),
            Step::ThreadStop(id) => w.slots.is_allocated(id) && w.holds_nothing(id),
            Step::ThreadPark(id) => w.slots.is_allocated(id) && w.holds_nothing(id),
            Step::ThreadUnpark(id, epoch_id) => w.slots.is_allocated(id) && !w.busy(id)
                && w.is_readable(epoch_id),
            Step::AfterTaskPoll(id, epoch_id) => w.busy(id) && w.holds_nothing(id)
                && w.is_readable(epoch_id),
            Step::New(pointer) => !w.pointers.contains_key(pointer),
            Step::Read(id, pointer) => w.busy(id) && w.pointers.contains_key(pointer),
            Step::Release(id, version) => w.holds(id, version),
            Step::Swap(pointer) => w.pointers.contains_key(pointer),
            Step::Synchronize(wait) => !w.waits.contains_key(wait),
            Step::Advance(wait) => {
                &&& w.waits.contains_key(wait)
                &&& w.waits[wait].phase.awaits_completion()
                &&& w.waits[wait].phase == SyncPhase::LockShared ==> w.no_other_exclusive(wait)
                &&& w.waits[wait].phase == SyncPhase::LockExclusive ==> w.no_other_lock(wait)
                &&& w.awaits_reset(wait) ==> w.announced.contains(wait)
            },
            Step::Relock(wait, acquired) => {
                &&& w.waits.contains_key(wait)
                &&& w.waits[wait].phase == SyncPhase::RelockShared
                &&& acquired ==> w.no_other_exclusive(wait)
            },
            Step::Notify => w.notifications > 0,
            Step::BeginLook(wait, _) => {
                &&& w.waits.contains_key(wait)
                &&& w.waits[wait].phase.scan_goal() is Some
                &&& w.waits[wait].look is None
            },
            Step::Look(wait, id) => {
                &&& w.waits.contains_key(wait)
                &&& w.waits[wait].phase.scan_goal() is Some
                &&& w.waits[wait].look matches Some((looked, until)) && looked < until
                &&& w.ran_on[wait] == id
                &&& w.slots.is_allocated(id)
                &&& w.holds_nothing(id)
            },
            Step::EndLook(wait) => {
                &&& w.waits.contains_key(wait)
                &&& w.waits[wait].phase.scan_goal() is Some
                &&& w.waits[wait].look matches Some((looked, until)) && looked >= until
            },
        }
    }

    /// The world after the step.
    pub open spec fn after(self, w: World) -> World {
        match self {
            Step::ThreadStart(epoch_id) => World {
                slots: w.slots.with_allocated(busy_at(epoch_id)),
                ..w
            },
            Step::ThreadStop(id) => World {
                slots: w.slots.with_deallocated(id),
                notifications: w.notifications_after(id, StatusChange::Stop),
                ..w
            },
            Step::ThreadPark(id) => World {
                slots: w.slots.with_stored(id, parked(w.slots.states[id.0 as int])),
                notifications: w.notifications_after(id, StatusChange::Park),
                ..w
            },
            Step::ThreadUnpark(id, epoch_id) => World {
                slots: w.slots.with_stored(id, busy_at(epoch_id)),
                ..w
            },
            Step::AfterTaskPoll(id, epoch_id) => World {
                slots: w.slots.with_stored(id, busy_at(epoch_id)),
                notifications: w.notifications_after(id, StatusChange::TaskPolled(epoch_id)),
                ..w
            },
            Step::New(pointer) | Step::Swap(pointer) => World {
                num_versions: w.num_versions + 1,
                pointers: w.pointers.insert(pointer, w.num_versions),
                ..w
            },
            Step::Read(id, pointer) => {
                let before = if w.held.contains_key(id) {
                    w.held[id]
                } else {
                    Set::empty()
                };
                World { held: w.held.insert(id, before.insert(w.pointers[pointer])), ..w }
            },
            Step::Release(id, version) => World {
                held: w.held.insert(id, w.held[id].remove(version)),
                ..w
            },
            Step::Synchronize(wait) => World {
                waits: w.waits.insert(
                    wait,
                    Wait {
                        phase: SyncPhase::Fence,
                        look: None,
                        retired: Set::new(|version: nat| w.is_swapped_out(version)),
                    },
                ),
                ..w
            },
            Step::Advance(wait) => World {
                epoch: w.waits[wait].phase.epoch_id_when_completed(w.epoch),
                announced: w.announced_when_completed(wait),
                ..w.with_phase(wait, w.waits[wait].phase.completed(w.epoch))
            },
            Step::Relock(wait, acquired) => World {
                epoch: if acquired {
                    crate::epoch::incremented(w.epoch)
                } else {
                    w.epoch
                },
                ..w.with_phase(wait, w.waits[wait].phase.relocked(acquired, w.epoch))
            },
            Step::Notify => World {
                notifications: (w.notifications - 1) as nat,
                notified: Set::new(|wait: nat| w.notified.contains(wait) || w.listens(wait)),
                ..w
            },
            Step::BeginLook(wait, id) => World {
                notified: w.notified.remove(wait),
                ran_on: w.ran_on.insert(wait, id),
                ..w.with_look(wait, w.waits[wait].phase, Some((0, w.slots.states.len())))
            },
            Step::Look(wait, id) => {
                let (looked, until) = w.waits[wait].look->0;
                let goal = w.waits[wait].phase.scan_goal()->0;
                if (looked == id.0 && !(goal is Exactly)) || need_not_wait_for(
                    w.slots.states[looked as int],
                    goal,
                ) {
                    w.with_look(wait, w.waits[wait].phase, Some((looked + 1, until)))
                } else {
                    w.with_phase(wait, w.waits[wait].phase.scanned(false))
                }
            },
            Step::EndLook(wait) => w.with_phase(wait, w.waits[wait].phase.scanned(true)),
        }
    }
}

/// What holds at all times; see [`law_grace_period_step`].
pub open spec fn inv(w: World) -> bool {
    &&& w.slots.wf()
    &&& valid_epoch_id(w.epoch)
    // only busy threads hold references, and only to versions that there have been
    &&& forall|id: ThreadStorageSlotId, version: nat| #[trigger]
        w.holds(id, version) ==> w.busy(id) && version < w.num_versions
    // the reset lock is held alone, or together by those that share it
    &&& forall|a: nat, b: nat|
        a != b && #[trigger] w.lock_of(a) == ResetLock::Exclusive ==> #[trigger] w.lock_of(b)
            == ResetLock::Unlocked
    // while the reset lock is held alone, the epoch id is at its smallest value
    &&& forall|wait: nat| #[trigger]
        w.lock_of(wait) == ResetLock::Exclusive ==> w.epoch == EPOCH_ID_MIN
    // no busy thread publishes an epoch id that is still to come
    &&& forall|id: ThreadStorageSlotId| #[trigger] w.busy(id) ==> w.is_not_stale(id)
    // the slots that a wait has looked at are there
    &&& forall|wait: nat| #[trigger]
        w.waits.contains_key(wait) ==> (w.waits[wait].look matches Some((looked, until)) ==> looked
            <= until <= w.slots.states.len())
    // what is to be reclaimed has been swapped out for good
    &&& forall|wait: nat, version: nat|
        w.waits.contains_key(wait) && #[trigger] w.waits[wait].retired.contains(version)
            ==> w.is_swapped_out(version)
    // no two pointers point to the same version
    &&& forall|pointer: nat| #[trigger]
        w.pointers.contains_key(pointer) ==> w.pointers[pointer] < w.num_versions
    &&& forall|a: nat, b: nat|
        a != b && #[trigger] w.pointers.contains_key(a) && #[trigger] w.pointers.contains_key(b)
            ==> w.pointers[a] != w.pointers[b]
    &&& forall|wait: nat| #[trigger] w.waits.contains_key(wait) ==> wait_inv(w, wait)
}

/// What holds of a wait at all times: once it has incremented the epoch id, a thread that still
/// uses what is to be reclaimed is busy, has not seen the new epoch id, and has yet to be looked at;
/// and once it is over, no thread still uses what is to be reclaimed.
pub open spec fn wait_inv(w: World, wait: nat) -> bool {
    match w.waits[wait].phase {
        SyncPhase::Scan(epoch_id) | SyncPhase::Sleep(epoch_id) => {
            &&& epoch_id <= w.epoch
            &&& forall|id: ThreadStorageSlotId, version: nat| #[trigger]
                w.holds(id, version) && w.waits[wait].retired.contains(version) ==> w.seen_by(id)
                    < epoch_id && !w.cleared(wait, id)
        },
        SyncPhase::Unlock | SyncPhase::Finished => w.retired_is_unused(wait),
        _ => true,
    }
}

/// A version that was swapped out stays so: no pointer ever points to it again.
pub proof fn law_swapped_out_for_good(w: World, step: Step, version: nat)
    requires
        step.possible(w),
        w.is_swapped_out(version),
    ensures
        step.after(w).is_swapped_out(version),
{
    let w2 = step.after(w);
    assert forall|pointer: nat| #[trigger] w2.pointers.contains_key(pointer) implies w2.pointers[pointer]
        != version by {
        assert(w.pointers.contains_key(pointer) ==> w.pointers[pointer] != version);
    }
}

/// A swap swaps out the version that the pointer pointed to: no other pointer points to it.
pub proof fn law_swap_retires_old_version(w: World, pointer: nat)
    requires
        inv(w),
        Step::Swap(pointer).possible(w),
    ensures
        Step::Swap(pointer).after(w).is_swapped_out(w.pointers[pointer]),
{
}

/// A hook keeps what holds at all times: it changes one slot, whose thread holds no reference.
proof fn lemma_hook_keeps_inv(w: World, w2: World, id: ThreadStorageSlotId)
    requires
        inv(w),
        w2 == (World { slots: w2.slots, notifications: w2.notifications, ..w }),
        w2.slots.wf(),
        w2.slots.states.len() >= w.slots.states.len(),
        w.holds_nothing(id),
        forall|other: ThreadStorageSlotId| #[trigger]
            w.busy(other) && other != id ==> w2.busy(other) && w2.seen_by(other) == w.seen_by(
                other,
            ),
        forall|other: ThreadStorageSlotId| #[trigger]
            w2.busy(other) && other != id ==> w.busy(other),
        w2.busy(id) ==> w2.seen_by(id) <= w.epoch,
    ensures
        inv(w2),
{
    assert forall|other: ThreadStorageSlotId, version: nat| #[trigger]
        w2.holds(other, version) implies w.holds(other, version) && other != id && w.busy(other)
        && w2.busy(other) && w2.seen_by(other) == w.seen_by(other) by {
        assert(w.holds(other, version));
    }
    assert forall|wait: nat| w2.lock_of(wait) == #[trigger] w.lock_of(wait) by {}
    assert forall|wait: nat| w2.in_reset(wait) == #[trigger] w.in_reset(wait) by {}
    assert forall|other: ThreadStorageSlotId| #[trigger] w2.busy(other) implies w2.is_not_stale(
        other,
    ) by {
        if other != id {
            assert(w.busy(other));
            lemma_reset_still_looks(w, w2, other);
        }
    }
    assert forall|a: nat, b: nat|
        a != b && #[trigger] w2.lock_of(a) == ResetLock::Exclusive implies #[trigger] w2.lock_of(b)
        == ResetLock::Unlocked by {
        assert(w.lock_of(a) == ResetLock::Exclusive);
        assert(w.lock_of(b) == ResetLock::Unlocked);
    }
    assert forall|wait: nat| #[trigger] w2.lock_of(wait) == ResetLock::Exclusive implies w2.epoch
        == EPOCH_ID_MIN by {
        assert(w.lock_of(wait) == ResetLock::Exclusive);
    }
    assert forall|wait: nat| #[trigger] w2.waits.contains_key(wait) implies wait_inv(w2, wait) by {
        assert(w.waits.contains_key(wait));
        assert(wait_inv(w, wait));
    }
}

/// A reset that is going to look at a thread still is, if the waits in a reset stay as they are.
proof fn lemma_reset_still_looks(w: World, w2: World, id: ThreadStorageSlotId)
    requires
        forall|wait: nat| #[trigger]
            w.in_reset(wait) && !w.cleared(wait, id) ==> w2.in_reset(wait) && !w2.cleared(wait, id),
    ensures
        w.reset_will_look_at(id) ==> w2.reset_will_look_at(id),
{
    if w.reset_will_look_at(id) {
        let wait = choose|wait: nat| #[trigger] w.in_reset(wait) && !w.cleared(wait, id);
        assert(w2.in_reset(wait) && !w2.cleared(wait, id));
    }
}

/// The steps of the hooks keep what holds at all times.
proof fn lemma_thread_steps_keep_inv(w: World, step: Step)
    requires
        inv(w),
        step.possible(w),
        step is ThreadStart || step is ThreadStop || step is ThreadPark || step is ThreadUnpark
            || step is AfterTaskPoll,
    ensures
        inv(step.after(w)),
{
    let w2 = step.after(w);
    match step {
        Step::ThreadStart(epoch_id) => {
            let id = w.slots.next_slot();
            lemma_with_allocated(w.slots, busy_at(epoch_id));
            assert(w.holds_nothing(id)) by {
                assert forall|version: nat| !#[trigger] w.holds(id, version) by {
                    assert(!w.busy(id));
                }
            }
            lemma_hook_keeps_inv(w, w2, id);
        },
        Step::ThreadStop(id) => {
            lemma_with_deallocated(w.slots, id);
            lemma_hook_keeps_inv(w, w2, id);
        },
        Step::ThreadPark(id) => {
            let state = w.slots.states[id.0 as int];
            assert(crate::thread_state::valid_encoded(state));
            lemma_with_stored(w.slots, id, parked(state));
            lemma_hook_keeps_inv(w, w2, id);
        },
        Step::ThreadUnpark(id, epoch_id) | Step::AfterTaskPoll(id, epoch_id) => {
            lemma_with_stored(w.slots, id, busy_at(epoch_id));
            assert(w.holds_nothing(id)) by {
                assert forall|version: nat| !w.busy(id) implies !#[trigger] w.holds(id, version) by {}
            }
            lemma_hook_keeps_inv(w, w2, id);
        },
        _ => {},
    }
}

/// Making a pointer, reading it, giving up references, swapping it, beginning a wait and notifying keep
/// what holds at all times.
proof fn lemma_pointer_steps_keep_inv(w: World, step: Step)
    requires
        inv(w),
        step.possible(w),
        step is New || step is Read || step is Release || step is Swap || step is Synchronize
            || step is Notify,
    ensures
        inv(step.after(w)),
{
    let w2 = step.after(w);
    assert forall|id: ThreadStorageSlotId, version: nat| #[trigger]
        w2.holds(id, version) implies w.holds(id, version) || (w.busy(id) && (step matches Step::Read(
            reader,
            pointer,
        ) && reader == id && w.pointers.contains_key(pointer) && version == w.pointers[pointer])) by {}
    assert forall|id: ThreadStorageSlotId, version: nat| #[trigger]
        w2.holds(id, version) implies w2.busy(id) && version < w2.num_versions by {
        assert(w.holds(id, version) ==> w.busy(id));
    }
    assert forall|version: nat| w.is_swapped_out(version) implies #[trigger] w2.is_swapped_out(
        version,
    ) by {
        law_swapped_out_for_good(w, step, version);
    }
    assert forall|wait: nat| #[trigger] w2.lock_of(wait) == w.lock_of(wait) by {}
    assert forall|wait: nat| w2.in_reset(wait) == #[trigger] w.in_reset(wait) by {}
    assert forall|a: nat, b: nat|
        a != b && #[trigger] w2.lock_of(a) == ResetLock::Exclusive implies #[trigger] w2.lock_of(b)
        == ResetLock::Unlocked by {
        assert(w.lock_of(a) == ResetLock::Exclusive);
        assert(w.lock_of(b) == ResetLock::Unlocked);
    }
    assert forall|id: ThreadStorageSlotId| #[trigger] w2.busy(id) implies w2.is_not_stale(id) by {
        assert(w.busy(id));
        lemma_reset_still_looks(w, w2, id);
    }
    assert forall|wait: nat| #[trigger] w2.waits.contains_key(wait) implies wait_inv(w2, wait) by {
        if w.waits.contains_key(wait) {
            assert(wait_inv(w, wait));
        }
    }
    assert forall|wait: nat, version: nat|
        w2.waits.contains_key(wait) && #[trigger] w2.waits[wait].retired.contains(
            version,
        ) implies w2.is_swapped_out(version) by {
        if w.waits.contains_key(wait) {
            assert(w.waits[wait].retired.contains(version));
        }
    }
}

/// A step of a wait keeps what holds at all times, if it keeps what holds of the wait, and leaves no
/// busy thread publishing an epoch id that is still to come.
proof fn lemma_wait_step_keeps_inv(w: World, w2: World, wait: nat)
    requires
        inv(w),
        w.waits.contains_key(wait),
        w2 == (World {
            epoch: w2.epoch,
            announced: w2.announced,
            notified: w2.notified,
            ran_on: w2.ran_on,
            ..w.with_look(wait, w2.waits[wait].phase, w2.waits[wait].look)
        }),
        valid_epoch_id(w2.epoch),
        // no wait but this one is affected by how the epoch id changes
        w.epoch <= w2.epoch || w.no_other_lock(wait),
        w2.lock_of(wait) == ResetLock::Exclusive ==> w2.epoch == EPOCH_ID_MIN && w.no_other_lock(
            wait,
        ),
        w2.lock_of(wait) == ResetLock::Shared ==> w.no_other_exclusive(wait),
        w.epoch != w2.epoch ==> w.no_other_exclusive(wait),
        w2.waits[wait].look matches Some((looked, until)) ==> looked <= until
            <= w.slots.states.len(),
        forall|id: ThreadStorageSlotId| #[trigger] w2.busy(id) ==> w2.is_not_stale(id),
        wait_inv(w2, wait),
    ensures
        inv(w2),
{
    assert forall|id: ThreadStorageSlotId, version: nat| w2.holds(id, version) == #[trigger] w.holds(
        id,
        version,
    ) by {}
    assert forall|id: ThreadStorageSlotId, version: nat| #[trigger]
        w2.holds(id, version) implies w2.busy(id) && version < w2.num_versions by {
        assert(w.holds(id, version));
        assert(w.busy(id));
    }
    assert forall|other: nat| other != wait implies w2.lock_of(other) == #[trigger] w.lock_of(
        other,
    ) by {}
    assert forall|a: nat, b: nat|
        a != b && #[trigger] w2.lock_of(a) == ResetLock::Exclusive implies #[trigger] w2.lock_of(b)
        == ResetLock::Unlocked by {
        if a == wait {
            assert(w.lock_of(b) == ResetLock::Unlocked);
        } else {
            assert(w.lock_of(a) == ResetLock::Exclusive);
            if b != wait {
                assert(w.lock_of(b) == ResetLock::Unlocked);
            }
        }
    }
    assert forall|other: nat| #[trigger] w2.lock_of(other) == ResetLock::Exclusive implies w2.epoch
        == EPOCH_ID_MIN by {
        if other != wait {
            assert(w.lock_of(other) == ResetLock::Exclusive);
        }
    }
    assert forall|other: nat| #[trigger] w2.waits.contains_key(other) implies wait_inv(w2, other) by {
        assert(w.waits.contains_key(other));
        if other != wait {
            assert(wait_inv(w, other));
            assert(w.lock_of(other) == w.waits[other].phase.lock());
            assert forall|id: ThreadStorageSlotId, version: nat| #[trigger]
                w2.holds(id, version) implies w.holds(id, version) && w2.seen_by(id) == w.seen_by(
                id,
            ) by {}
        }
    }
}

/// While no other wait holds the reset lock alone, and this one is in no reset, no reset is going to
/// look at a thread.
proof fn lemma_no_reset_will_look(w: World, wait: nat, id: ThreadStorageSlotId)
    requires
        w.no_other_exclusive(wait),
        !w.in_reset(wait),
    ensures
        !w.reset_will_look_at(id),
{
    if w.reset_will_look_at(id) {
        let other = choose|other: nat| #[trigger] w.in_reset(other) && !w.cleared(other, id);
        assert(w.lock_of(other) == ResetLock::Exclusive);
    }
}

/// Incrementing the epoch id keeps what holds at all times.
proof fn lemma_increment_keeps_inv(w: World, w2: World, wait: nat)
    requires
        inv(w),
        w.waits.contains_key(wait),
        w.no_other_exclusive(wait),
        w.lock_of(wait) == ResetLock::Unlocked,
        w2 == (World {
            epoch: crate::epoch::incremented(w.epoch),
            announced: w2.announced,
            ..w.with_phase(wait, w2.waits[wait].phase)
        }),
        match crate::epoch::increment_result(w.epoch) {
            Ok(new_epoch_id) => w2.waits[wait].phase == SyncPhase::Scan(new_epoch_id),
            Err(_) => match w2.waits[wait].phase {
                SyncPhase::LockExclusive
                | SyncPhase::AwaitReset
                | SyncPhase::FailedToIncrement => true,
                _ => false,
            },
        },
    ensures
        inv(w2),
{
    crate::epoch::law_increment_is_monotonic(w.epoch);
    assert forall|id: ThreadStorageSlotId| #[trigger] w2.busy(id) implies w2.seen_by(id)
        <= w.epoch by {
        assert(w.busy(id));
        lemma_no_reset_will_look(w, wait, id);
    }
    assert forall|id: ThreadStorageSlotId, version: nat| #[trigger] w2.holds(id, version) implies w2.busy(
        id,
    ) by {
        assert(w.holds(id, version));
        assert(w.busy(id));
    }
    lemma_wait_step_keeps_inv(w, w2, wait);
}

/// A step of a wait for which what it asked for is done keeps what holds at all times.
proof fn lemma_advance_keeps_inv(w: World, wait: nat)
    requires
        inv(w),
        Step::Advance(wait).possible(w),
    ensures
        inv(Step::Advance(wait).after(w)),
{
    let w2 = Step::Advance(wait).after(w);
    let phase = w.waits[wait].phase;
    assert(wait_inv(w, wait));
    assert(w2.waits.dom() =~= w.waits.dom());
    assert(w.lock_of(wait) == phase.lock());
    assert(w2.lock_of(wait) == w2.waits[wait].phase.lock());
    if phase == SyncPhase::LockShared {
        lemma_increment_keeps_inv(w, w2, wait);
    } else {
        assert forall|id: ThreadStorageSlotId| #[trigger] w2.busy(id) implies w2.is_not_stale(
            id,
        ) by {
            assert(w.busy(id));
            if phase == SyncPhase::LockExclusive {
                assert(w2.in_reset(wait) && !w2.cleared(wait, id));
            } else {
                assert forall|other: nat| #[trigger]
                    w.in_reset(other) && !w.cleared(other, id) implies w2.in_reset(other)
                    && !w2.cleared(other, id) by {}
                lemma_reset_still_looks(w, w2, id);
            }
        }
        assert(wait_inv(w2, wait)) by {
            assert forall|id: ThreadStorageSlotId, version: nat| #[trigger]
                w2.holds(id, version) implies w.holds(id, version) && w2.seen_by(id) == w.seen_by(
                id,
            ) by {}
        }
        if w.lock_of(wait) == ResetLock::Exclusive {
            assert forall|other: nat| other != wait implies #[trigger] w.lock_of(other)
                == ResetLock::Unlocked by {}
        }
        if w.lock_of(wait) == ResetLock::Shared {
            assert forall|other: nat| other != wait implies #[trigger] w.lock_of(other)
                != ResetLock::Exclusive by {}
        }
        lemma_wait_step_keeps_inv(w, w2, wait);
    }
}

/// A step of a wait that tried to take the reset lock again keeps what holds at all times.
proof fn lemma_relock_keeps_inv(w: World, wait: nat, acquired: bool)
    requires
        inv(w),
        Step::Relock(wait, acquired).possible(w),
    ensures
        inv(Step::Relock(wait, acquired).after(w)),
{
    let w2 = Step::Relock(wait, acquired).after(w);
    assert(w2.waits.dom() =~= w.waits.dom());
    assert(w2.lock_of(wait) == w2.waits[wait].phase.lock());
    if acquired {
        lemma_increment_keeps_inv(w, w2, wait);
    } else {
        assert forall|id: ThreadStorageSlotId| #[trigger] w2.busy(id) implies w2.is_not_stale(
            id,
        ) by {
            assert(w.busy(id));
            assert forall|other: nat| #[trigger]
                w.in_reset(other) && !w.cleared(other, id) implies w2.in_reset(other)
                && !w2.cleared(other, id) by {}
            lemma_reset_still_looks(w, w2, id);
        }
        lemma_wait_step_keeps_inv(w, w2, wait);
    }
}

/// The steps in which a wait looks at the slots keep what holds at all times.
proof fn lemma_look_steps_keep_inv(w: World, step: Step, wait: nat)
    requires
        inv(w),
        step.possible(w),
        match step {
            Step::BeginLook(number, _) | Step::Look(number, _) | Step::EndLook(number) => number
                == wait,
            _ => false,
        },
    ensures
        inv(step.after(w)),
{
    let w2 = step.after(w);
    let phase = w.waits[wait].phase;
    assert(wait_inv(w, wait));
    assert(w2.waits.dom() =~= w.waits.dom());
    assert(w.lock_of(wait) == phase.lock());
    assert(w2.lock_of(wait) == w2.waits[wait].phase.lock());
    assert forall|id: ThreadStorageSlotId, version: nat| #[trigger] w2.holds(id, version) implies w.holds(
        id,
        version,
    ) && w.busy(id) && w2.seen_by(id) == w.seen_by(id) && id.0 < w.slots.states.len() by {
        assert(w.holds(id, version));
    }
    if phase == SyncPhase::ResetScan {
        assert forall|other: nat| other != wait implies #[trigger] w.lock_of(other)
            == ResetLock::Unlocked by {}
        assert forall|id: ThreadStorageSlotId| #[trigger] w2.busy(id) implies w2.is_not_stale(
            id,
        ) by {
            assert(w.busy(id));
            if w.seen_by(id) > w.epoch {
                // the reset has yet to look at the thread, and if it does now, it waits.
                let other = choose|other: nat| #[trigger] w.in_reset(other) && !w.cleared(other, id);
                assert(w.lock_of(other) == ResetLock::Exclusive);
                assert(other == wait);
                assert(w2.in_reset(wait) && !w2.cleared(wait, id));
            }
        }
    } else {
        assert forall|other: nat| other != wait implies #[trigger] w.lock_of(other)
            != ResetLock::Exclusive by {}
        assert forall|id: ThreadStorageSlotId| #[trigger] w2.busy(id) implies w2.is_not_stale(
            id,
        ) by {
            assert(w.busy(id));
            lemma_no_reset_will_look(w, wait, id);
        }
    }
    assert(wait_inv(w2, wait));
    lemma_wait_step_keeps_inv(w, w2, wait);
}

/// At all times only busy threads hold references, a thread that still uses what a wait is to
/// reclaim has not seen the epoch id of that wait, and when a wait is over, no thread uses what it is
/// to reclaim: every step keeps this.
pub proof fn law_grace_period_step(w: World, step: Step)
    requires
        inv(w),
        step.possible(w),
    ensures
        inv(step.after(w)),
{
    match step {
        Step::Advance(wait) => lemma_advance_keeps_inv(w, wait),
        Step::Relock(wait, acquired) => lemma_relock_keeps_inv(w, wait, acquired),
        Step::BeginLook(wait, _)
        | Step::Look(wait, _)
        | Step::EndLook(wait) => lemma_look_steps_keep_inv(w, step, wait),
        Step::New(_)
        | Step::Read(_, _)
        | Step::Release(_, _)
        | Step::Swap(_)
        | Step::Notify
        | Step::Synchronize(_) => lemma_pointer_steps_keep_inv(w, step),
        _ => lemma_thread_steps_keep_inv(w, step),
    }
}

/// Whether `worlds` is what the given steps make of a world in which nothing has happened yet, where
/// each step is possible.
pub open spec fn behavior(worlds: Seq<World>, steps: Seq<Step>) -> bool {
    &&& worlds.len() == steps.len() + 1
    &&& worlds[0].initial()
    &&& forall|i: int|
        0 <= i < steps.len() ==> {
            &&& (#[trigger] steps[i]).possible(worlds[i])
            &&& worlds[i + 1] == steps[i].after(worlds[i])
        }
}

/// What holds at all times holds throughout every behavior.
pub proof fn law_invariant_holds_throughout(worlds: Seq<World>, steps: Seq<Step>, i: int)
    requires
        behavior(worlds, steps),
        0 <= i < worlds.len(),
    ensures
        inv(worlds[i]),
    decreases i,
{
    if i == 0 {
        let w = worlds[0];
        assert forall|id: ThreadStorageSlotId, version: nat| !#[trigger] w.holds(id, version) by {}
        assert forall|wait: nat| #[trigger] w.lock_of(wait) == ResetLock::Unlocked by {}
    } else {
        law_invariant_holds_throughout(worlds, steps, i - 1);
        assert(steps[i - 1].possible(worlds[i - 1]));
        law_grace_period_step(worlds[i - 1], steps[i - 1]);
    }
}

/// After a grace period no thread uses what was swapped out before it: in every behavior, from the
/// time that a wait is over, no thread holds a reference to a version that had been swapped out when
/// the wait began.
pub proof fn law_reclaimed_data_is_unused(
    worlds: Seq<World>,
    steps: Seq<Step>,
    i: int,
    wait: nat,
    id: ThreadStorageSlotId,
    version: nat,
)
    requires
        behavior(worlds, steps),
        0 <= i < worlds.len(),
        worlds[i].waits.contains_key(wait),
        worlds[i].waits[wait].phase == SyncPhase::Finished,
        worlds[i].waits[wait].retired.contains(version),
    ensures
        !worlds[i].holds(id, version),
{
    law_invariant_holds_throughout(worlds, steps, i);
    assert(wait_inv(worlds[i], wait));
}

/// What a reader uses is never reclaimed: as long as a thread holds a reference to a version, every
/// wait that is to reclaim it goes on.
pub proof fn law_data_in_use_is_not_reclaimed(
    worlds: Seq<World>,
    steps: Seq<Step>,
    i: int,
    wait: nat,
    id: ThreadStorageSlotId,
    version: nat,
)
    requires
        behavior(worlds, steps),
        0 <= i < worlds.len(),
        worlds[i].holds(id, version),
        worlds[i].waits.contains_key(wait),
        worlds[i].waits[wait].retired.contains(version),
    ensures
        worlds[i].waits[wait].phase != SyncPhase::Finished,
{
    if worlds[i].waits[wait].phase == SyncPhase::Finished {
        law_reclaimed_data_is_unused(worlds, steps, i, wait, id, version);
    }
}

/// A version that was swapped out stays so throughout every behavior.
proof fn lemma_stays_swapped_out(
    worlds: Seq<World>,
    steps: Seq<Step>,
    i: int,
    j: int,
    version: nat,
)
    requires
        behavior(worlds, steps),
        0 <= i <= j < worlds.len(),
        worlds[i].is_swapped_out(version),
    ensures
        worlds[j].is_swapped_out(version),
    decreases j - i,
{
    if i < j {
        lemma_stays_swapped_out(worlds, steps, i, j - 1, version);
        assert(steps[j - 1].possible(worlds[j - 1]));
        law_swapped_out_for_good(worlds[j - 1], steps[j - 1], version);
    }
}

/// What a wait is to reclaim is settled when it begins.
proof fn lemma_retired_stays(worlds: Seq<World>, steps: Seq<Step>, i: int, j: int, wait: nat)
    requires
        behavior(worlds, steps),
        0 <= i <= j < worlds.len(),
        worlds[i].waits.contains_key(wait),
    ensures
        worlds[j].waits.contains_key(wait),
        worlds[j].waits[wait].retired == worlds[i].waits[wait].retired,
    decreases j - i,
{
    if i < j {
        lemma_retired_stays(worlds, steps, i, j - 1, wait);
        assert(steps[j - 1].possible(worlds[j - 1]));
    }
}

/// One grace period is enough for everything that was swapped out before it: if a pointer is swapped,
/// a wait begins later on, and that wait is over, then no thread holds a reference to what the pointer
/// pointed to before the swap. This holds of every pointer that was swapped before the wait began.
pub proof fn law_swap_then_wait(
    worlds: Seq<World>,
    steps: Seq<Step>,
    swap: int,
    begin: int,
    end: int,
    pointer: nat,
    wait: nat,
    id: ThreadStorageSlotId,
)
    requires
        behavior(worlds, steps),
        0 <= swap < begin < end < worlds.len(),
        steps[swap] == Step::Swap(pointer),
        steps[begin] == Step::Synchronize(wait),
        worlds[end].waits[wait].phase == SyncPhase::Finished,
    ensures
        !worlds[end].holds(id, worlds[swap].pointers[pointer]),
{
    let version = worlds[swap].pointers[pointer];
    law_invariant_holds_throughout(worlds, steps, swap);
    assert(steps[swap].possible(worlds[swap]));
    law_swap_retires_old_version(worlds[swap], pointer);
    assert(worlds[swap + 1] == steps[swap].after(worlds[swap]));
    lemma_stays_swapped_out(worlds, steps, swap + 1, begin, version);
    assert(worlds[begin + 1] == steps[begin].after(worlds[begin]));
    assert(worlds[begin + 1].waits[wait].retired.contains(version));
    lemma_retired_stays(worlds, steps, begin + 1, end, wait);
    law_reclaimed_data_is_unused(worlds, steps, end, wait, id, version);
}

/// Whether the thread with slot `id` passes through a quiescent state in the step: it has polled a
/// task, parks or stops, or it is the very thread that runs the given wait.
pub open spec fn is_quiescent_state(step: Step, wait: nat, id: ThreadStorageSlotId) -> bool {
    match step {
        Step::ThreadStop(other)
        | Step::ThreadPark(other)
        | Step::AfterTaskPoll(other, _) => other == id,
        Step::Look(number, other) => number == wait && other == id,
        _ => false,
    }
}

/// What holds of a busy thread as long as it passes through no quiescent state after a wait began:
/// it publishes no epoch id that is still to come, and not the epoch id of the wait, and the wait has
/// yet to look at it, so the wait is not over.
spec fn is_waited_for(w: World, wait: nat, id: ThreadStorageSlotId) -> bool {
    &&& w.busy(id)
    &&& w.is_not_stale(id)
    &&& w.waits.contains_key(wait)
    &&& match w.waits[wait].phase {
        SyncPhase::Scan(epoch_id) | SyncPhase::Sleep(epoch_id) => w.seen_by(id) < epoch_id
            && !w.cleared(wait, id),
        SyncPhase::Unlock | SyncPhase::Finished => false,
        _ => true,
    }
}

/// A wait goes on to wait for a busy thread in every step that is no quiescent state of the thread.
proof fn lemma_wait_goes_on(w: World, step: Step, wait: nat, id: ThreadStorageSlotId)
    requires
        inv(w),
        step.possible(w),
        is_waited_for(w, wait, id),
        !is_quiescent_state(step, wait, id),
    ensures
        is_waited_for(step.after(w), wait, id),
{
    let w2 = step.after(w);
    crate::epoch::law_increment_is_monotonic(w.epoch);
    assert(w2.busy(id) && w2.seen_by(id) == w.seen_by(id)) by {
        match step {
            Step::ThreadStart(epoch_id) => {
                lemma_with_allocated(w.slots, busy_at(epoch_id));
            },
            _ => {},
        }
    }
    match step {
        Step::Advance(other)
        | Step::Relock(other, _)
        | Step::BeginLook(other, _)
        | Step::Look(other, _)
        | Step::EndLook(other) => {
            assert(w2.waits.dom() =~= w.waits.dom());
            assert(w.lock_of(other) == w.waits[other].phase.lock());
            assert forall|third: nat| third != other && #[trigger] w.in_reset(third) && !w.cleared(
                third,
                id,
            ) implies w2.in_reset(third) && !w2.cleared(third, id) by {}
            assert(w2.is_not_stale(id)) by {
                if w.in_reset(other) && !w.cleared(other, id) {
                    // if the reset looks at the thread now, it has seen the reset epoch id or is
                    // waited for.
                    assert(w.lock_of(other) == ResetLock::Exclusive);
                    assert(w.seen_by(id) == EPOCH_ID_MIN || (w2.in_reset(other) && !w2.cleared(
                        other,
                        id,
                    )));
                } else {
                    lemma_reset_still_looks(w, w2, id);
                    if w2.epoch < w.epoch {
                        assert(w2.in_reset(other) && !w2.cleared(other, id));
                    }
                }
            }
            let increments = step == Step::Relock(other, true) || (step is Advance
                && w.waits[other].phase == SyncPhase::LockShared);
            if increments {
                lemma_no_reset_will_look(w, other, id);
            }
        },
        _ => {
            assert forall|third: nat| #[trigger] w.in_reset(third) && !w.cleared(
                third,
                id,
            ) implies w2.in_reset(third) && !w2.cleared(third, id) by {}
            lemma_reset_still_looks(w, w2, id);
        },
    }
}

/// As long as a thread that was busy before the barrier of a wait passes through no quiescent state,
/// the wait waits for it.
proof fn lemma_waited_for_until_quiescent(
    worlds: Seq<World>,
    steps: Seq<Step>,
    begin: int,
    end: int,
    wait: nat,
    id: ThreadStorageSlotId,
)
    requires
        behavior(worlds, steps),
        0 <= begin <= end < worlds.len(),
        worlds[begin].waits.contains_key(wait),
        worlds[begin].waits[wait].phase == SyncPhase::Fence,
        worlds[begin].busy(id),
        forall|k: int| begin <= k < end ==> !is_quiescent_state(#[trigger] steps[k], wait, id),
    ensures
        is_waited_for(worlds[end], wait, id),
    decreases end - begin,
{
    if begin < end {
        let k = end - 1;
        lemma_waited_for_until_quiescent(worlds, steps, begin, k, wait, id);
        law_invariant_holds_throughout(worlds, steps, k);
        assert(steps[k].possible(worlds[k]));
        assert(worlds[end] == steps[k].after(worlds[k]));
        lemma_wait_goes_on(worlds[k], steps[k], wait, id);
    } else {
        law_invariant_holds_throughout(worlds, steps, begin);
    }
}

/// A grace period is over only after every thread that was busy when the wait for it performed its
/// barrier has since passed through a quiescent state or become inactive. `begin` is any time from the
/// beginning of the wait up to the barrier.
pub proof fn law_grace_period_waits_for_busy_threads(
    worlds: Seq<World>,
    steps: Seq<Step>,
    begin: int,
    end: int,
    wait: nat,
    id: ThreadStorageSlotId,
)
    requires
        behavior(worlds, steps),
        0 <= begin < end < worlds.len(),
        worlds[begin].waits.contains_key(wait),
        worlds[begin].waits[wait].phase == SyncPhase::Fence,
        worlds[end].waits[wait].phase == SyncPhase::Finished,
        worlds[begin].busy(id),
    ensures
        exists|k: int| begin <= k < end && is_quiescent_state(#[trigger] steps[k], wait, id),
{
    if forall|k: int| begin <= k < end ==> !is_quiescent_state(#[trigger] steps[k], wait, id) {
        lemma_waited_for_until_quiescent(worlds, steps, begin, end, wait, id);
    }
}

/// A reset waits for all threads: from the time that a reset is announced until the epoch id is
/// incremented, every busy thread publishes the reset epoch id. More generally, no busy thread
/// publishes an epoch id larger than the current one, except during a reset that has yet to look at
/// it.
pub proof fn law_reset_waits_for_all_threads(
    worlds: Seq<World>,
    steps: Seq<Step>,
    i: int,
    wait: nat,
    id: ThreadStorageSlotId,
)
    requires
        behavior(worlds, steps),
        0 <= i < worlds.len(),
        worlds[i].busy(id),
    ensures
        worlds[i].seen_by(id) <= worlds[i].epoch || worlds[i].reset_will_look_at(id),
        worlds[i].waits.contains_key(wait) && worlds[i].waits[wait].phase
            == SyncPhase::AnnounceReset ==> worlds[i].epoch == EPOCH_ID_MIN && worlds[i].seen_by(id)
            == EPOCH_ID_MIN,
{
    let w = worlds[i];
    law_invariant_holds_throughout(worlds, steps, i);
    if w.waits.contains_key(wait) && w.waits[wait].phase == SyncPhase::AnnounceReset {
        assert(w.lock_of(wait) == ResetLock::Exclusive);
        assert(w.no_other_exclusive(wait)) by {
            assert forall|other: nat| other != wait implies #[trigger] w.lock_of(other)
                != ResetLock::Exclusive by {}
        }
        lemma_no_reset_will_look(w, wait, id);
        assert(crate::thread_state::valid_encoded(w.slots.states[id.0 as int]));
    }
}

/// The world after the given wait, on the thread `this_thread`, began to look at the slots and looked
/// at `n` of them in a row.
pub open spec fn after_looks(
    w: World,
    wait: nat,
    this_thread: ThreadStorageSlotId,
    n: nat,
) -> World
    decreases n,
{
    if n == 0 {
        Step::BeginLook(wait, this_thread).after(w)
    } else {
        Step::Look(wait, this_thread).after(after_looks(w, wait, this_thread, (n - 1) as nat))
    }
}

/// The world in which the given wait has just begun to listen, on the thread `this_thread`.
pub open spec fn listening(w: World, wait: nat, this_thread: ThreadStorageSlotId) -> World {
    World {
        notified: w.notified.remove(wait),
        ran_on: w.ran_on.insert(wait, this_thread),
        ..w
    }
}

/// As long as there is no reason to wait, looks in a row change nothing but how far they got.
proof fn lemma_after_looks(w: World, wait: nat, this_thread: ThreadStorageSlotId, n: nat)
    requires
        w.waits.contains_key(wait),
        w.waits[wait].phase.scan_goal() is Some,
        n <= w.slots.states.len(),
        forall|i: int|
            0 <= i < n && (i != this_thread.0 || w.waits[wait].phase.scan_goal()->0 is Exactly)
                ==> need_not_wait_for(
                #[trigger] w.slots.states[i],
                w.waits[wait].phase.scan_goal()->0,
            ),
    ensures
        after_looks(w, wait, this_thread, n) == listening(w, wait, this_thread).with_look(
            wait,
            w.waits[wait].phase,
            Some((n, w.slots.states.len())),
        ),
    decreases n,
{
    if n > 0 {
        lemma_after_looks(w, wait, this_thread, (n - 1) as nat);
        let goal = w.waits[wait].phase.scan_goal()->0;
        assert((n - 1 == this_thread.0 && !(goal is Exactly)) || need_not_wait_for(
            w.slots.states[n - 1],
            goal,
        ));
        assert(after_looks(w, wait, this_thread, n).waits =~= w.with_look(
            wait,
            w.waits[wait].phase,
            Some((n, w.slots.states.len())),
        ).waits);
    }
}

/// Looks at all slots in a row are what [`SynchronizeRcu::scan`](crate::synchronize::SynchronizeRcu::scan)
/// does as a whole: the wait goes on if it need not wait for any thread, and sleeps at the first slot
/// that it has to wait for otherwise.
pub proof fn law_scan_is_looks_in_a_row(w: World, wait: nat, this_thread: ThreadStorageSlotId)
    requires
        Step::BeginLook(wait, this_thread).possible(w),
    ensures
        ({
            let phase = w.waits[wait].phase;
            let len = w.slots.states.len();
            if need_not_wait(w.slots.states, this_thread, phase.scan_goal()->0) {
                Step::EndLook(wait).after(after_looks(w, wait, this_thread, len)) == listening(
                    w,
                    wait,
                    this_thread,
                ).with_phase(wait, phase.scanned(true))
            } else {
                exists|n: nat|
                    n < len && Step::Look(wait, this_thread).after(
                        #[trigger] after_looks(w, wait, this_thread, n),
                    ) == listening(w, wait, this_thread).with_phase(wait, phase.scanned(false))
            }
        }),
{
    let phase = w.waits[wait].phase;
    let goal = phase.scan_goal()->0;
    let states = w.slots.states;
    if need_not_wait(states, this_thread, goal) {
        lemma_after_looks(w, wait, this_thread, states.len());
        assert(Step::EndLook(wait).after(
            after_looks(w, wait, this_thread, states.len()),
        ).waits =~= w.with_phase(wait, phase.scanned(true)).waits);
    } else {
        let i = choose|i: int|
            0 <= i < states.len() && (i != this_thread.0 || goal is Exactly) && !need_not_wait_for(
                #[trigger] states[i],
                goal,
            );
        let n = lemma_first_hold_up(states, this_thread, goal, i as nat);
        lemma_after_looks(w, wait, this_thread, n);
        assert(Step::Look(wait, this_thread).after(after_looks(w, wait, this_thread, n)).waits
            =~= w.with_phase(wait, phase.scanned(false)).waits);
    }
}

/// Where some thread holds up a wait, there is a first one.
proof fn lemma_first_hold_up(
    states: Seq<crate::thread_state::EncodedThreadState>,
    this_thread: ThreadStorageSlotId,
    goal: SeenGoal,
    i: nat,
) -> (n: nat)
    requires
        i < states.len(),
        i != this_thread.0 || goal is Exactly,
        !need_not_wait_for(states[i as int], goal),
    ensures
        n <= i,
        n != this_thread.0 || goal is Exactly,
        !need_not_wait_for(states[n as int], goal),
        forall|k: int|
            0 <= k < n && (k != this_thread.0 || goal is Exactly) ==> need_not_wait_for(#[trigger] states[k], goal),
    decreases i,
{
    if exists|k: int|
        0 <= k < i && (k != this_thread.0 || goal is Exactly) && !need_not_wait_for(#[trigger] states[k], goal) {
        let k = choose|k: int|
            0 <= k < i && (k != this_thread.0 || goal is Exactly) && !need_not_wait_for(#[trigger] states[k], goal);
        lemma_first_hold_up(states, this_thread, goal, k as nat)
    } else {
        i
    }
}

/// What holds of all waits that sleep until the state of some thread changes: as long as one has not
/// been notified, and is not going to be, some slot that it looks at holds it up.
pub open spec fn sleepers_are_held_up(w: World) -> bool {
    forall|wait: nat|
        (#[trigger] w.sleep_goal(wait)) is Some ==> w.notified.contains(wait) || w.notifications > 0
            || !w.need_not_wait(w.ran_on[wait], w.sleep_goal(wait)->0)
}

/// Where a hook changes the state in the slot `id`, a wait that was held up still is, unless that slot
/// held it up and the hook asks for a notification.
proof fn lemma_hook_keeps_holding_up(
    w: World,
    w2: World,
    id: ThreadStorageSlotId,
    this_thread: ThreadStorageSlotId,
    goal: SeenGoal,
)
    requires
        !w.need_not_wait(this_thread, goal),
        w2.slots.states.len() >= w.slots.states.len(),
        forall|i: int|
            0 <= i < w.slots.states.len() && i != id.0 ==> #[trigger] w2.slots.states[i]
                == w.slots.states[i],
        id.0 < w.slots.states.len() && !need_not_wait_for(w.slots.states[id.0 as int], goal)
            ==> w2.notifications > 0 || !need_not_wait_for(w2.slots.states[id.0 as int], goal),
    ensures
        w2.notifications > 0 || !w2.need_not_wait(this_thread, goal),
{
    let i = choose|i: int|
        0 <= i < w.slots.states.len() && (i != this_thread.0 || goal is Exactly)
            && !need_not_wait_for(#[trigger] w.slots.states[i], goal);
    if i != id.0 {
        assert(!need_not_wait_for(w2.slots.states[i], goal));
    }
}

/// No wait sleeps through what it waits for: every step keeps what [`sleepers_are_held_up`] says.
pub proof fn law_step_keeps_sleepers_held_up(w: World, step: Step)
    requires
        inv(w),
        step.possible(w),
        sleepers_are_held_up(w),
    ensures
        sleepers_are_held_up(step.after(w)),
{
    let w2 = step.after(w);
    assert forall|wait: nat| (#[trigger] w2.sleep_goal(wait)) is Some implies w2.notified.contains(
        wait,
    ) || w2.notifications > 0 || !w2.need_not_wait(w2.ran_on[wait], w2.sleep_goal(wait)->0) by {
        let goal = w2.sleep_goal(wait)->0;
        let this_thread = w.ran_on[wait];
        if w.sleep_goal(wait) == Some(goal) {
            // it slept before.
            assert(w.listens(wait));
            if !w.notified.contains(wait) && w.notifications == 0 {
                match step {
                    Step::ThreadStart(epoch_id) => {
                        let id = w.slots.next_slot();
                        lemma_with_allocated(w.slots, busy_at(epoch_id));
                        lemma_hook_keeps_holding_up(w, w2, id, this_thread, goal);
                    },
                    Step::ThreadStop(id) | Step::ThreadPark(id) | Step::ThreadUnpark(id, _) => {
                        lemma_hook_keeps_holding_up(w, w2, id, this_thread, goal);
                    },
                    Step::AfterTaskPoll(id, epoch_id) => {
                        let state = w.slots.states[id.0 as int];
                        let change = StatusChange::TaskPolled(epoch_id);
                        if !need_not_wait_for(state, goal) && need_not_wait_for(
                            change.after(state),
                            goal,
                        ) {
                            law_end_of_hold_up_is_notified(state, change, goal);
                        }
                        lemma_hook_keeps_holding_up(w, w2, id, this_thread, goal);
                    },
                    _ => {
                        assert(w2.slots == w.slots);
                    },
                }
            }
        } else {
            // it has just looked at a slot that holds it up.
            let (looked_at, until) = w.waits[wait].look->0;
            let looked = looked_at as int;
            assert(!need_not_wait_for(w2.slots.states[looked], goal));
        }
    }
}

/// No change is missed, since a wait listens before it looks: a wait that sleeps, while no slot that it
/// looks at holds it up any more, has been notified since it began to listen, or some hook has asked
/// for that and it is about to be done.
pub proof fn law_no_change_is_missed(
    worlds: Seq<World>,
    steps: Seq<Step>,
    i: int,
    wait: nat,
    goal: SeenGoal,
)
    requires
        behavior(worlds, steps),
        0 <= i < worlds.len(),
        worlds[i].sleep_goal(wait) == Some(goal),
        worlds[i].need_not_wait(worlds[i].ran_on[wait], goal),
    ensures
        worlds[i].notified.contains(wait) || worlds[i].notifications > 0,
{
    lemma_sleepers_are_held_up_throughout(worlds, steps, i);
}

/// What [`sleepers_are_held_up`] says holds throughout every behavior.
proof fn lemma_sleepers_are_held_up_throughout(worlds: Seq<World>, steps: Seq<Step>, i: int)
    requires
        behavior(worlds, steps),
        0 <= i < worlds.len(),
    ensures
        sleepers_are_held_up(worlds[i]),
    decreases i,
{
    if i > 0 {
        lemma_sleepers_are_held_up_throughout(worlds, steps, i - 1);
        law_invariant_holds_throughout(worlds, steps, i - 1);
        assert(steps[i - 1].possible(worlds[i - 1]));
        law_step_keeps_sleepers_held_up(worlds[i - 1], steps[i - 1]);
    }
}

/// The epoch id is reset only by a wait that holds the reset lock alone, and so never while another
/// wait is looking for its epoch id in the states of the threads; every other step leaves the epoch
/// id as it is or raises it.
pub proof fn law_epoch_falls_only_while_no_one_waits_for_it(w: World, step: Step, other: nat)
    requires
        inv(w),
        step.possible(w),
        step.after(w).epoch < w.epoch,
    ensures
        step matches Step::Advance(wait) && w.waits[wait].phase == SyncPhase::LockExclusive && (
        other != wait ==> w.lock_of(other) == ResetLock::Unlocked),
        w.waits.contains_key(other) ==> match w.waits[other].phase {
            SyncPhase::Scan(_) | SyncPhase::Sleep(_) => false,
            _ => true,
        },
{
    crate::epoch::law_increment_is_monotonic(w.epoch);
    match step {
        Step::Advance(wait) => {
            if other != wait {
                assert(w.lock_of(other) == ResetLock::Unlocked);
            }
        },
        _ => {},
    }
}

/// Whether the given wait is the one to reset the epoch id, or is resetting it.
pub open spec fn leads_reset(w: World, wait: nat) -> bool {
    w.waits.contains_key(wait) && (w.waits[wait].phase == SyncPhase::LockExclusive
        || w.waits[wait].phase.lock() == ResetLock::Exclusive)
}

/// Whether the given wait failed, right after a reset, because the epoch id overflowed again.
pub open spec fn failed_to_increment(w: World, wait: nat) -> bool {
    w.waits.contains_key(wait) && w.waits[wait].phase == SyncPhase::FailedToIncrement
}

/// At most one wait leads a reset. A wait that is about to reset the epoch id finds it at its largest
/// value; and when the epoch id is there, or a wait sleeps until it is reset, some wait is about to
/// reset it, unless one failed because the epoch id overflowed right after a reset.
pub open spec fn one_leader(w: World) -> bool {
    &&& forall|a: nat, b: nat|
        a != b && #[trigger] leads_reset(w, a) ==> !#[trigger] leads_reset(w, b)
    &&& forall|wait: nat| #[trigger]
        w.waits.contains_key(wait) && w.waits[wait].phase == SyncPhase::LockExclusive ==> w.epoch
            == EPOCH_ID_MAX
    &&& w.epoch == EPOCH_ID_MAX ==> reset_is_led(w)
    &&& forall|wait: nat| #[trigger]
        w.awaits_reset(wait) && !w.announced.contains(wait) ==> reset_is_led(w)
}

/// Whether some wait leads a reset, or one failed because the epoch id overflowed right after a reset.
pub open spec fn reset_is_led(w: World) -> bool {
    ||| exists|wait: nat| #[trigger] leads_reset(w, wait)
    ||| exists|wait: nat| #[trigger] failed_to_increment(w, wait)
}

/// A step of a wait keeps what [`one_leader`] says.
proof fn lemma_wait_step_keeps_one_leader(w: World, step: Step, wait: nat)
    requires
        inv(w),
        one_leader(w),
        step.possible(w),
        match step {
            Step::Advance(number)
            | Step::Relock(number, _)
            | Step::BeginLook(number, _)
            | Step::Look(number, _)
            | Step::EndLook(number) => number == wait,
            _ => false,
        },
    ensures
        one_leader(step.after(w)),
{
    let w2 = step.after(w);
    let phase = w.waits[wait].phase;
    let phase2 = w2.waits[wait].phase;
    assert(w.lock_of(wait) == phase.lock());
    assert forall|other: nat| other != wait implies #[trigger] leads_reset(w2, other)
        == leads_reset(w, other) by {}
    assert forall|other: nat| other != wait implies #[trigger] failed_to_increment(w2, other)
        == failed_to_increment(w, other) by {}
    let increments = phase == SyncPhase::LockShared || step == Step::Relock(wait, true);
    if leads_reset(w2, wait) && !leads_reset(w, wait) {
        assert(increments && w.epoch != EPOCH_ID_MAX && w2.epoch == EPOCH_ID_MAX);
        assert forall|other: nat| other != wait implies !#[trigger] leads_reset(w, other) by {
            assert(w.lock_of(other) != ResetLock::Exclusive);
        }
    }
    assert forall|a: nat, b: nat|
        a != b && #[trigger] leads_reset(w2, a) implies !#[trigger] leads_reset(w2, b) by {
        if leads_reset(w2, b) {
            assert(a != wait ==> leads_reset(w, a));
            assert(b != wait ==> leads_reset(w, b));
        }
    }
    assert forall|other: nat| #[trigger]
        w2.waits.contains_key(other) && w2.waits[other].phase
            == SyncPhase::LockExclusive implies w2.epoch == EPOCH_ID_MAX by {
        assert(w.waits.contains_key(other));
        if other != wait {
            assert(leads_reset(w, other));
            if phase == SyncPhase::LockExclusive {
                assert(leads_reset(w, wait));
            }
        }
    }
    if reset_is_led(w) && phase != SyncPhase::AnnounceReset {
        if exists|other: nat| #[trigger] leads_reset(w, other) {
            let other = choose|other: nat| #[trigger] leads_reset(w, other);
            assert(leads_reset(w2, other));
        } else {
            let other = choose|other: nat| #[trigger] failed_to_increment(w, other);
            assert(failed_to_increment(w2, other));
        }
        assert(reset_is_led(w2));
    }
    if w2.epoch == EPOCH_ID_MAX && w.epoch != EPOCH_ID_MAX {
        assert(leads_reset(w2, wait) || failed_to_increment(w2, wait));
    }
    assert forall|other: nat| #[trigger]
        w2.awaits_reset(other) && !w2.announced.contains(other) implies reset_is_led(w2) by {
        if other != wait {
            assert(w.awaits_reset(other));
        } else {
            assert(increments && w.epoch == EPOCH_ID_MAX);
        }
    }
}

/// Every reset of the epoch id has exactly one leader: every step keeps this.
pub proof fn law_one_leader_per_reset(w: World, step: Step)
    requires
        inv(w),
        one_leader(w),
        step.possible(w),
    ensures
        one_leader(step.after(w)),
{
    let w2 = step.after(w);
    match step {
        Step::Advance(wait) => lemma_wait_step_keeps_one_leader(w, step, wait),
        Step::Relock(wait, _) => lemma_wait_step_keeps_one_leader(w, step, wait),
        Step::BeginLook(wait, _) => lemma_wait_step_keeps_one_leader(w, step, wait),
        Step::Look(wait, _) => lemma_wait_step_keeps_one_leader(w, step, wait),
        Step::EndLook(wait) => lemma_wait_step_keeps_one_leader(w, step, wait),
        _ => {
            assert forall|wait: nat| #[trigger] leads_reset(w2, wait) == leads_reset(w, wait) by {}
            assert forall|wait: nat| #[trigger] failed_to_increment(w2, wait)
                == failed_to_increment(w, wait) by {}
            if reset_is_led(w) {
                if exists|wait: nat| #[trigger] leads_reset(w, wait) {
                    let wait = choose|wait: nat| #[trigger] leads_reset(w, wait);
                    assert(leads_reset(w2, wait));
                } else {
                    let wait = choose|wait: nat| #[trigger] failed_to_increment(w, wait);
                    assert(failed_to_increment(w2, wait));
                }
                assert(reset_is_led(w2));
            }
            assert forall|wait: nat| #[trigger] w2.awaits_reset(wait) == w.awaits_reset(wait) by {}
        },
    }
}

/// Throughout every behavior a reset of the epoch id has exactly one leader.
pub proof fn law_one_leader_throughout(worlds: Seq<World>, steps: Seq<Step>, i: int)
    requires
        behavior(worlds, steps),
        0 <= i < worlds.len(),
    ensures
        one_leader(worlds[i]),
    decreases i,
{
    if i > 0 {
        law_one_leader_throughout(worlds, steps, i - 1);
        law_invariant_holds_throughout(worlds, steps, i - 1);
        assert(steps[i - 1].possible(worlds[i - 1]));
        law_one_leader_per_reset(worlds[i - 1], steps[i - 1]);
    }
}

/// A driver that follows the actions of a wait never hands out data in use: once the wait asks for
/// nothing more, no thread holds a reference to what a pointer pointed to before it was swapped, if
/// the wait began after that.
pub proof fn law_driver_hands_out_unused_data_only(
    worlds: Seq<World>,
    steps: Seq<Step>,
    swap: int,
    begin: int,
    end: int,
    pointer: nat,
    wait: nat,
    id: ThreadStorageSlotId,
)
    requires
        behavior(worlds, steps),
        0 <= swap < begin < end < worlds.len(),
        steps[swap] == Step::Swap(pointer),
        steps[begin] == Step::Synchronize(wait),
        worlds[end].waits[wait].phase.action() == SyncAction::Finished,
    ensures
        !worlds[end].holds(id, worlds[swap].pointers[pointer]),
{
    law_swap_then_wait(worlds, steps, swap, begin, end, pointer, wait, id);
}

/// A thread that polls a task is busy afterwards, has seen the epoch id that it read, and no other
/// thread is touched.
pub proof fn law_poll_publishes_the_epoch_id(
    w: World,
    id: ThreadStorageSlotId,
    epoch_id: EpochId,
    other: ThreadStorageSlotId,
)
    requires
        inv(w),
        Step::AfterTaskPoll(id, epoch_id).possible(w),
    ensures
        ({
            let w2 = Step::AfterTaskPoll(id, epoch_id).after(w);
            &&& w2.busy(id)
            &&& w2.seen_by(id) == epoch_id
            &&& w2.epoch == w.epoch
            &&& other != id && w.slots.is_allocated(other) ==> w2.busy(other) == w.busy(other)
                && w2.seen_by(other) == w.seen_by(other)
        }),
{
}

/// A wait ends: once every busy thread but its own has seen the current epoch id, as it does in a
/// quiescent state, the next look at all slots finds no one to wait for, and with one step more the
/// wait asks for nothing. This is so for every epoch id that the wait looks for.
pub proof fn law_wait_ends_once_all_have_quiesced(
    w: World,
    wait: nat,
    this_thread: ThreadStorageSlotId,
)
    requires
        inv(w),
        Step::BeginLook(wait, this_thread).possible(w),
        w.waits[wait].phase is Scan,
        forall|id: ThreadStorageSlotId| #[trigger] w.busy(id) && id != this_thread ==> w.seen_by(id)
            == w.epoch,
    ensures
        ({
            let looked = Step::EndLook(wait).after(
                after_looks(w, wait, this_thread, w.slots.states.len()),
            );
            &&& looked.waits[wait].phase.action() == SyncAction::ReleaseShared
            &&& Step::Advance(wait).possible(looked)
            &&& Step::Advance(wait).after(looked).waits[wait].phase.action() == SyncAction::Finished
            &&& Step::Advance(wait).after(looked).epoch == w.epoch
        }),
{
    let epoch_id = w.waits[wait].phase->Scan_0;
    let goal = SeenGoal::AtLeast(epoch_id);
    assert(wait_inv(w, wait));
    assert forall|i: int| 0 <= i < w.slots.states.len() && i != this_thread.0 implies need_not_wait_for(
        #[trigger] w.slots.states[i],
        goal,
    ) by {
        let id = ThreadStorageSlotId(i as u16);
        if is_busy(w.slots.states[i]) {
            assert(w.busy(id));
        }
    }
    law_scan_is_looks_in_a_row(w, wait, this_thread);
    let looked = Step::EndLook(wait).after(
        after_looks(w, wait, this_thread, w.slots.states.len()),
    );
    assert(looked.waits[wait].phase == SyncPhase::Unlock);
}

/// A reset ends: once every busy thread has seen the current epoch id, as it does in a quiescent state,
/// the next look at all slots finds no one to wait for, and the reset is announced.
pub proof fn law_reset_ends_once_all_have_quiesced(
    w: World,
    wait: nat,
    this_thread: ThreadStorageSlotId,
)
    requires
        inv(w),
        Step::BeginLook(wait, this_thread).possible(w),
        w.waits[wait].phase is ResetScan,
        forall|id: ThreadStorageSlotId| #[trigger] w.busy(id) ==> w.seen_by(id) == w.epoch,
    ensures
        Step::EndLook(wait).after(
            after_looks(w, wait, this_thread, w.slots.states.len()),
        ).waits[wait].phase.action() == SyncAction::AnnounceReset,
{
    assert(w.lock_of(wait) == ResetLock::Exclusive);
    assert forall|i: int| 0 <= i < w.slots.states.len() implies need_not_wait_for(
        #[trigger] w.slots.states[i],
        SeenGoal::Exactly(EPOCH_ID_MIN),
    ) by {
        let id = ThreadStorageSlotId(i as u16);
        if is_busy(w.slots.states[i]) {
            assert(w.busy(id));
        }
    }
    law_scan_is_looks_in_a_row(w, wait, this_thread);
}

/// A thread that is busy and has not seen the epoch id that a wait looks for keeps it from ending: the
/// look at its slot sends the wait to sleep.
pub proof fn law_busy_thread_sends_wait_to_sleep(
    w: World,
    wait: nat,
    this_thread: ThreadStorageSlotId,
    epoch_id: EpochId,
    id: ThreadStorageSlotId,
)
    requires
        Step::Look(wait, this_thread).possible(w),
        w.waits[wait].phase == SyncPhase::Scan(epoch_id),
        w.waits[wait].look matches Some((looked, _)) && looked == id.0,
        id != this_thread,
        w.busy(id),
        w.seen_by(id) < epoch_id,
    ensures
        Step::Look(wait, this_thread).after(w).waits[wait].phase.action() == SyncAction::Sleep,
{
}

} // verus!
