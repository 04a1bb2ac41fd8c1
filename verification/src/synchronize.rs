//! Waiting for a grace period.
//!
//! [`SynchronizeRcu`] is the course of one wait, without the waiting itself: it says what has to be
//! done next, and is told once that is done. What is done outside are the memory barriers, the lock
//! that keeps resets of the epoch id and waits apart, and the sleeping.
use vstd::prelude::*;

use crate::epoch::{
    epoch_id_inc, epoch_id_set, increment_result, incremented, valid_epoch_id, EpochCounter, EpochId,
    EPOCH_ID_MAX, EPOCH_ID_MIN,
};
use crate::hooks::{busy_at, is_busy, last_seen, parked, StatusChange};
use crate::per_thread_storage::thread_storage_slots::ThreadStorageSlots;
use crate::per_thread_storage::{
    this_thread_get_storage_slot_id, thread_storage_slot_get_all, OwnedThreadStorageSlot,
    ThreadStorageSlotId,
};
use crate::thread_state::{EncodedThreadState, ThreadState};

verus! {

/// What a waiting writer wants of the last seen epoch id of each busy thread.
#[derive(Debug, Clone, Copy, PartialEq, Eq, Structural)]
pub enum SeenGoal {
    /// The thread has seen this very epoch id.
    Exactly(EpochId),
    /// The thread has seen this epoch id or a later one.
    AtLeast(EpochId),
}

impl SeenGoal {
    /// Whether a thread that has last seen `epoch_id` meets the goal.
    pub open spec fn met_by(self, epoch_id: EpochId) -> bool {
        match self {
            SeenGoal::Exactly(goal) => epoch_id == goal,
            SeenGoal::AtLeast(goal) => epoch_id >= goal,
        }
    }

    /// Whether a thread that has last seen `epoch_id` meets the goal.
    pub fn is_met_by(self, epoch_id: EpochId) -> (res: bool)
        ensures
            res == self.met_by(epoch_id),
    {
        match self {
            SeenGoal::Exactly(goal) => epoch_id == goal,
            SeenGoal::AtLeast(goal) => epoch_id >= goal,
        }
    }
}

/// Whether a writer with the given goal need not wait for the thread with the given packed state:
/// there is no such thread, or it is not busy, or it meets the goal.
pub open spec fn need_not_wait_for(state: EncodedThreadState, goal: SeenGoal) -> bool {
    state == ThreadState::NONE_ENCODED_VALUE || !is_busy(state) || goal.met_by(last_seen(state))
}

/// Whether a writer on the thread `this_thread` with the given goal need not wait for any thread.
///
/// A writer that waits for others to see its epoch id does not wait for its own thread, which does
/// nothing else while it runs the writer. One that waits for all to see a reset waits for its own
/// thread too: otherwise that thread could go on to publish an epoch id from before the reset, which
/// a later writer would take for its own.
pub open spec fn need_not_wait(
    states: Seq<EncodedThreadState>,
    this_thread: ThreadStorageSlotId,
    goal: SeenGoal,
) -> bool {
    forall|i: int|
        0 <= i < states.len() && (i != this_thread.0 || goal is Exactly) ==> need_not_wait_for(
            #[trigger] states[i],
            goal,
        )
}

/// Looks at the states of all threads once, for a writer that runs on `this_thread`, and returns
/// whether it need not wait for any of them.
pub fn running_threads_have_seen_epoch_id(
    slots: &ThreadStorageSlots,
    this_thread: &OwnedThreadStorageSlot,
    goal: SeenGoal,
) -> (res: bool)
    requires
        slots.wf(),
        this_thread@ is Some,
    ensures
        res == need_not_wait(slots@.states, this_thread@->0, goal),
{
    let this_thread_id = this_thread_get_storage_slot_id(this_thread);
    let skips_this_thread: bool = !matches!(goal, SeenGoal::Exactly(_));
    let all = thread_storage_slot_get_all(slots);
    let len: usize = all.len();
    let mut index: usize = 0;
    while index < len
        invariant
            slots.wf(),
            all@ == slots@.states,
            len == slots@.states.len(),
            index <= len,
            forall|i: int|
                0 <= i < index && (i != this_thread_id.0 || goal is Exactly) ==> need_not_wait_for(
                    #[trigger] slots@.states[i],
                    goal,
                ),
            skips_this_thread == !(goal is Exactly),
            this_thread@ == Some(this_thread_id),
        decreases len - index,
    {
        let id = ThreadStorageSlotId(index as u16);
        if id != this_thread_id || !skips_this_thread {
            let encoded_state: EncodedThreadState = all.get(id).state;
            assert(encoded_state == slots@.states[index as int]);
            if let Some(state) = ThreadState::decode(encoded_state) {
                if state.is_busy && !goal.is_met_by(state.last_seen_epoch_id) {
                    return false;
                }
            }
        }
        index += 1;
    }
    true
}

/// How the lock that keeps resets of the epoch id and waits apart is held.
#[derive(Debug, Clone, Copy, PartialEq, Eq, Structural)]
pub enum ResetLock {
    /// Not at all.
    Unlocked,
    /// Together with other waits: no reset can start.
    Shared,
    /// Alone: the epoch id can be reset.
    Exclusive,
}

/// How far a wait for a grace period has come.
#[derive(Debug, Clone, Copy, PartialEq, Eq, Structural)]
pub enum SyncPhase {
    /// The writes before the wait are being made visible to all threads.
    Fence,
    /// The reset lock is being taken, shared.
    LockShared,
    /// The epoch id overflowed, and this wait is the one to reset it: the reset lock is being taken
    /// alone.
    LockExclusive,
    /// The epoch id has been reset, which is being made visible to all threads.
    ResetFence,
    /// The threads are to be looked at, for whether all have seen the reset epoch id.
    ResetScan,
    /// Some thread has not seen the reset epoch id: sleeping until some thread's state changes.
    ResetSleep,
    /// All threads have seen the reset epoch id: the reset lock is being given up, and the other
    /// waits that overflowed are being woken.
    AnnounceReset,
    /// The epoch id overflowed, and another wait resets it: sleeping until it is done.
    AwaitReset,
    /// The epoch id has been reset: the reset lock is being taken again, shared.
    RelockShared,
    /// The threads are to be looked at, for whether all have seen this epoch id.
    Scan(EpochId),
    /// Some thread has not seen this epoch id: sleeping until some thread's state changes.
    Sleep(EpochId),
    /// The grace period is over: the reset lock is being given up.
    Unlock,
    /// The grace period is over.
    Finished,
    /// The reset lock could not be taken again after a reset, since another reset is under way.
    FailedToRelock,
    /// The epoch id overflowed again right after a reset. The reset lock is being given up.
    FailedToIncrement,
}

impl SyncPhase {
    /// How the reset lock is held while the wait has come this far.
    pub open spec fn lock(self) -> ResetLock {
        match self {
            SyncPhase::ResetFence
            | SyncPhase::ResetScan
            | SyncPhase::ResetSleep
            | SyncPhase::AnnounceReset => ResetLock::Exclusive,
            SyncPhase::Scan(_)
            | SyncPhase::Sleep(_)
            | SyncPhase::Unlock
            | SyncPhase::FailedToIncrement => ResetLock::Shared,
            _ => ResetLock::Unlocked,
        }
    }

    /// Whether the wait goes on once what it asked for is done.
    pub open spec fn awaits_completion(self) -> bool {
        match self {
            SyncPhase::Fence
            | SyncPhase::LockShared
            | SyncPhase::LockExclusive
            | SyncPhase::ResetFence
            | SyncPhase::ResetSleep
            | SyncPhase::AnnounceReset
            | SyncPhase::AwaitReset
            | SyncPhase::Sleep(_)
            | SyncPhase::Unlock => true,
            _ => false,
        }
    }

    /// Whether the wait goes on by looking at the threads, and what it then wants of them.
    pub open spec fn scan_goal(self) -> Option<SeenGoal> {
        match self {
            SyncPhase::ResetScan => Some(SeenGoal::Exactly(EPOCH_ID_MIN)),
            SyncPhase::Scan(epoch_id) => Some(SeenGoal::AtLeast(epoch_id)),
            _ => None,
        }
    }

    /// What comes after this, once what was asked for is done, with the epoch id as it is then.
    pub open spec fn completed(self, epoch_id: EpochId) -> SyncPhase {
        match self {
            SyncPhase::Fence => SyncPhase::LockShared,
            SyncPhase::LockShared => match increment_result(epoch_id) {
                Ok(new_epoch_id) => SyncPhase::Scan(new_epoch_id),
                Err(err) => if err.am_i_the_leader {
                    SyncPhase::LockExclusive
                } else {
                    SyncPhase::AwaitReset
                },
            },
            SyncPhase::LockExclusive => SyncPhase::ResetFence,
            SyncPhase::ResetFence => SyncPhase::ResetScan,
            SyncPhase::ResetSleep => SyncPhase::ResetScan,
            SyncPhase::AnnounceReset => SyncPhase::RelockShared,
            SyncPhase::AwaitReset => SyncPhase::RelockShared,
            SyncPhase::Sleep(goal) => SyncPhase::Scan(goal),
            SyncPhase::Unlock => SyncPhase::Finished,
            _ => self,
        }
    }

    /// The epoch id after this is completed: taking the reset lock, shared, lets the wait increment
    /// it, and taking the reset lock alone lets the wait reset it.
    pub open spec fn epoch_id_when_completed(self, epoch_id: EpochId) -> EpochId {
        match self {
            SyncPhase::LockShared => incremented(epoch_id),
            SyncPhase::LockExclusive => EPOCH_ID_MIN,
            _ => epoch_id,
        }
    }

    /// What comes after the attempt to take the reset lock again.
    pub open spec fn relocked(self, acquired: bool, epoch_id: EpochId) -> SyncPhase {
        if !acquired {
            SyncPhase::FailedToRelock
        } else {
            match increment_result(epoch_id) {
                Ok(new_epoch_id) => SyncPhase::Scan(new_epoch_id),
                Err(_) => SyncPhase::FailedToIncrement,
            }
        }
    }

    /// What comes after a look at the threads that showed, or did not show, what was wanted.
    pub open spec fn scanned(self, seen: bool) -> SyncPhase {
        match self {
            SyncPhase::ResetScan => if seen {
                SyncPhase::AnnounceReset
            } else {
                SyncPhase::ResetSleep
            },
            SyncPhase::Scan(epoch_id) => if seen {
                SyncPhase::Unlock
            } else {
                SyncPhase::Sleep(epoch_id)
            },
            _ => self,
        }
    }
}

/// What a wait asks to be done next.
#[derive(Debug, Clone, Copy, PartialEq, Eq, Structural)]
pub enum SyncAction {
    /// Make all writes so far visible to all threads; then call `advance`.
    Membarrier,
    /// Take the reset lock, shared; then call `advance`.
    AcquireShared,
    /// Give up the reset lock, take it alone; then call `advance`.
    AcquireExclusive,
    /// Start listening for the end of the reset, give up the reset lock, and sleep until the reset
    /// is done; then call `advance`.
    AwaitReset,
    /// Give up the reset lock and announce that the reset is done; then call `advance`.
    AnnounceReset,
    /// Try to take the reset lock, shared, without waiting; then call `relock`.
    TryAcquireShared,
    /// Start listening for changes of thread states; then call `scan`.
    Scan,
    /// Sleep until a thread state has changed since listening started; then call `advance`.
    Sleep,
    /// Give up the reset lock; then call `advance`.
    ReleaseShared,
    /// Nothing: the grace period is over.
    Finished,
    /// Panic: another reset of the epoch id began right after the last one.
    PanicResetAgain,
    /// Give up the reset lock and panic: the epoch id overflowed right after a reset.
    PanicOverflowAgain,
}

impl SyncPhase {
    /// What is to be done now that the wait has come this far.
    pub open spec fn action(self) -> SyncAction {
        match self {
            SyncPhase::Fence => SyncAction::Membarrier,
            SyncPhase::LockShared => SyncAction::AcquireShared,
            SyncPhase::LockExclusive => SyncAction::AcquireExclusive,
            SyncPhase::ResetFence => SyncAction::Membarrier,
            SyncPhase::ResetScan => SyncAction::Scan,
            SyncPhase::ResetSleep => SyncAction::Sleep,
            SyncPhase::AnnounceReset => SyncAction::AnnounceReset,
            SyncPhase::AwaitReset => SyncAction::AwaitReset,
            SyncPhase::RelockShared => SyncAction::TryAcquireShared,
            SyncPhase::Scan(_) => SyncAction::Scan,
            SyncPhase::Sleep(_) => SyncAction::Sleep,
            SyncPhase::Unlock => SyncAction::ReleaseShared,
            SyncPhase::Finished => SyncAction::Finished,
            SyncPhase::FailedToRelock => SyncAction::PanicResetAgain,
            SyncPhase::FailedToIncrement => SyncAction::PanicOverflowAgain,
        }
    }
}

/// One wait for a grace period.
///
/// [`action`](Self::action) says what has to be done next; the call that it names then takes the wait
/// one step further, until the grace period is over.
pub struct SynchronizeRcu {
    phase: SyncPhase,
}

impl View for SynchronizeRcu {
    type V = SyncPhase;

    closed spec fn view(&self) -> SyncPhase {
        self.phase
    }
}

impl SynchronizeRcu {
    /// A wait that is about to begin.
    pub fn new() -> (sync: Self)
        ensures
            sync@ == SyncPhase::Fence,
    {
        SynchronizeRcu { phase: SyncPhase::Fence }
    }

    /// What has to be done next.
    pub fn action(&self) -> (action: SyncAction)
        ensures
            action == self@.action(),
            action == SyncAction::Finished <==> self@ == SyncPhase::Finished,
    {
        match self.phase {
            SyncPhase::Fence => SyncAction::Membarrier,
            SyncPhase::LockShared => SyncAction::AcquireShared,
            SyncPhase::LockExclusive => SyncAction::AcquireExclusive,
            SyncPhase::ResetFence => SyncAction::Membarrier,
            SyncPhase::ResetScan => SyncAction::Scan,
            SyncPhase::ResetSleep => SyncAction::Sleep,
            SyncPhase::AnnounceReset => SyncAction::AnnounceReset,
            SyncPhase::AwaitReset => SyncAction::AwaitReset,
            SyncPhase::RelockShared => SyncAction::TryAcquireShared,
            SyncPhase::Scan(_) => SyncAction::Scan,
            SyncPhase::Sleep(_) => SyncAction::Sleep,
            SyncPhase::Unlock => SyncAction::ReleaseShared,
            SyncPhase::Finished => SyncAction::Finished,
            SyncPhase::FailedToRelock => SyncAction::PanicResetAgain,
            SyncPhase::FailedToIncrement => SyncAction::PanicOverflowAgain,
        }
    }

    /// Goes on, now that what the wait asked for is done.
    ///
    /// With the reset lock just taken, shared, the epoch id is incremented; with the reset lock just
    /// taken alone, it is reset to its smallest value.
    pub fn advance(&mut self, epoch: &mut EpochCounter)
        requires
            old(self)@.awaits_completion(),
        ensures
            final(self)@ == old(self)@.completed(old(epoch)@),
            final(epoch)@ == old(self)@.epoch_id_when_completed(old(epoch)@),
    {
        let next = match self.phase {
            SyncPhase::Fence => SyncPhase::LockShared,
            SyncPhase::LockShared => match epoch_id_inc(epoch) {
                Ok(new_epoch_id) => SyncPhase::Scan(new_epoch_id),
                Err(err) => {
                    if err.am_i_the_leader {
                        SyncPhase::LockExclusive
                    } else {
                        SyncPhase::AwaitReset
                    }
                },
            },
            SyncPhase::LockExclusive => {
                epoch_id_set(epoch, EPOCH_ID_MIN);
                SyncPhase::ResetFence
            },
            SyncPhase::ResetFence => SyncPhase::ResetScan,
            SyncPhase::ResetSleep => SyncPhase::ResetScan,
            SyncPhase::AnnounceReset => SyncPhase::RelockShared,
            SyncPhase::AwaitReset => SyncPhase::RelockShared,
            SyncPhase::Sleep(goal) => SyncPhase::Scan(goal),
            SyncPhase::Unlock => SyncPhase::Finished,
            other => other,
        };
        self.phase = next;
    }

    /// Goes on after the attempt to take the reset lock again, shared, after a reset. If it was
    /// taken, the epoch id is incremented.
    pub fn relock(&mut self, epoch: &mut EpochCounter, acquired: bool)
        requires
            old(self)@ == SyncPhase::RelockShared,
        ensures
            final(self)@ == old(self)@.relocked(acquired, old(epoch)@),
            final(epoch)@ == if acquired {
                incremented(old(epoch)@)
            } else {
                old(epoch)@
            },
    {
        let next = if !acquired {
            SyncPhase::FailedToRelock
        } else {
            match epoch_id_inc(epoch) {
                Ok(new_epoch_id) => SyncPhase::Scan(new_epoch_id),
                Err(_) => SyncPhase::FailedToIncrement,
            }
        };
        self.phase = next;
    }

    /// Looks at the states of all threads, and goes on according to whether all busy ones have seen
    /// what is wanted. The thread that runs the wait is left out, except for a reset.
    pub fn scan(&mut self, slots: &ThreadStorageSlots, this_thread: &OwnedThreadStorageSlot)
        requires
            slots.wf(),
            this_thread@ is Some,
            old(self)@.scan_goal() is Some,
        ensures
            old(self)@.scan_goal() matches Some(goal) && final(self)@ == old(self)@.scanned(
                need_not_wait(slots@.states, this_thread@->0, goal),
            ),
            old(self)@ matches SyncPhase::Scan(epoch_id) ==> final(self)@ == if need_not_wait(
                slots@.states,
                this_thread@->0,
                SeenGoal::AtLeast(epoch_id),
            ) {
                SyncPhase::Unlock
            } else {
                SyncPhase::Sleep(epoch_id)
            },
            old(self)@ == SyncPhase::ResetScan ==> final(self)@ == if need_not_wait(
                slots@.states,
                this_thread@->0,
                SeenGoal::Exactly(EPOCH_ID_MIN),
            ) {
                SyncPhase::AnnounceReset
            } else {
                SyncPhase::ResetSleep
            },
    {
        let next = match self.phase {
            SyncPhase::ResetScan => {
                if running_threads_have_seen_epoch_id(
                    slots,
                    this_thread,
                    SeenGoal::Exactly(EPOCH_ID_MIN),
                ) {
                    SyncPhase::AnnounceReset
                } else {
                    SyncPhase::ResetSleep
                }
            },
            SyncPhase::Scan(epoch_id) => {
                if running_threads_have_seen_epoch_id(
                    slots,
                    this_thread,
                    SeenGoal::AtLeast(epoch_id),
                ) {
                    SyncPhase::Unlock
                } else {
                    SyncPhase::Sleep(epoch_id)
                }
            },
            other => other,
        };
        self.phase = next;
    }

    /// Whether the grace period is over.
    pub fn is_finished(&self) -> (res: bool)
        ensures
            res <==> self@ == SyncPhase::Finished,
    {
        matches!(self.phase, SyncPhase::Finished)
    }
}

/// One quiescent state is enough: a thread that has just seen the current epoch id holds up no wait
/// for that epoch id or an earlier one, nor a reset to it.
pub proof fn law_quiescent_state_suffices(epoch_id: EpochId, goal: SeenGoal)
    requires
        valid_epoch_id(epoch_id),
        match goal {
            SeenGoal::Exactly(wanted) => wanted == epoch_id,
            SeenGoal::AtLeast(wanted) => wanted <= epoch_id,
        },
    ensures
        need_not_wait_for(busy_at(epoch_id), goal),
{
}

/// A thread that parks or stops holds up no wait.
pub proof fn law_idle_threads_hold_up_no_wait(state: EncodedThreadState, goal: SeenGoal)
    ensures
        need_not_wait_for(parked(state), goal),
        need_not_wait_for(ThreadState::NONE_ENCODED_VALUE, goal),
{
}

/// No wait sleeps through what it waits for: whenever a thread that held up a wait parks, stops or
/// polls a task, and holds it up no longer, the hook asks for the waiting writers to be notified.
pub proof fn law_end_of_hold_up_is_notified(
    state: EncodedThreadState,
    change: StatusChange,
    goal: SeenGoal,
)
    requires
        change matches StatusChange::TaskPolled(epoch_id) ==> valid_epoch_id(epoch_id),
        !need_not_wait_for(state, goal),
        need_not_wait_for(change.after(state), goal),
    ensures
        change.notifies(state),
{
}

/// A thread that starts or unparks was holding up no wait before, so nobody has to be notified.
pub proof fn law_starting_threads_held_up_no_wait(state: EncodedThreadState, goal: SeenGoal)
    requires
        state == ThreadState::NONE_ENCODED_VALUE || !is_busy(state),
    ensures
        need_not_wait_for(state, goal),
{
}

/// A thread holds up a writer exactly if it is busy and has not seen what the writer wants; a vacant
/// slot holds up no one.
pub proof fn law_who_is_waited_for(state: ThreadState, epoch_id: EpochId)
    requires
        state.valid(),
    ensures
        need_not_wait_for(crate::thread_state::encoded(state), SeenGoal::AtLeast(epoch_id)) <==> (
        state.is_busy ==> epoch_id <= state.last_seen_epoch_id),
        need_not_wait_for(crate::thread_state::encoded(state), SeenGoal::Exactly(epoch_id)) <==> (
        state.is_busy ==> epoch_id == state.last_seen_epoch_id),
        need_not_wait_for(0, SeenGoal::AtLeast(epoch_id)),
        need_not_wait_for(0, SeenGoal::Exactly(epoch_id)),
{
}

/// A goal to see at least some epoch id is met by that epoch id and all later ones, and a goal to see
/// exactly one is met by that one alone.
pub proof fn law_goals(epoch_id: EpochId, other: EpochId)
    ensures
        SeenGoal::AtLeast(epoch_id).met_by(other) <==> !(other < epoch_id),
        SeenGoal::Exactly(epoch_id).met_by(other) <==> other == epoch_id,
{
}

/// One thread that holds up a writer is enough for it to wait, and no other thread's state matters
/// then: the writer's own thread is left out, unless the writer waits for a reset to be seen.
pub proof fn law_one_thread_holds_up_a_writer(
    states: Seq<EncodedThreadState>,
    this_thread: ThreadStorageSlotId,
    goal: SeenGoal,
    i: int,
)
    requires
        0 <= i < states.len(),
        !need_not_wait_for(states[i], goal),
        i != this_thread.0 || goal is Exactly,
    ensures
        !need_not_wait(states, this_thread, goal),
{
}

/// A writer that no thread holds up goes on, however many threads there are, and whatever its own
/// thread does, unless it waits for a reset to be seen.
pub proof fn law_writer_that_no_one_holds_up_goes_on(
    states: Seq<EncodedThreadState>,
    this_thread: ThreadStorageSlotId,
    goal: SeenGoal,
)
    requires
        forall|i: int|
            0 <= i < states.len() && i != this_thread.0 ==> need_not_wait_for(
                #[trigger] states[i],
                goal,
            ),
        goal is Exactly && this_thread.0 < states.len() ==> need_not_wait_for(
            states[this_thread.0 as int],
            goal,
        ),
    ensures
        need_not_wait(states, this_thread, goal),
{
}

/// The action that a wait asks for tells its phase truly: whether it is over or has failed, sleeps,
/// looks at the threads, or goes on once something is done, whatever its epoch id.
pub proof fn law_action_tells_the_phase(phase: SyncPhase)
    ensures
        phase.action() == SyncAction::Finished <==> phase == SyncPhase::Finished,
        phase.action() == SyncAction::Sleep <==> phase is Sleep || phase is ResetSleep,
        phase.action() == SyncAction::Scan <==> phase.scan_goal() is Some,
        phase.action() == SyncAction::Scan <==> phase is Scan || phase is ResetScan,
        phase.action() == SyncAction::TryAcquireShared <==> phase == SyncPhase::RelockShared,
        phase.action() == SyncAction::PanicResetAgain <==> phase == SyncPhase::FailedToRelock,
        phase.action() == SyncAction::PanicOverflowAgain <==> phase == SyncPhase::FailedToIncrement,
        phase.action() == SyncAction::Membarrier <==> phase is Fence || phase is ResetFence,
        phase.action() == SyncAction::AcquireShared <==> phase == SyncPhase::LockShared,
        phase.action() == SyncAction::AcquireExclusive <==> phase == SyncPhase::LockExclusive,
        phase.action() == SyncAction::AwaitReset <==> phase == SyncPhase::AwaitReset,
        phase.action() == SyncAction::AnnounceReset <==> phase == SyncPhase::AnnounceReset,
        phase.action() == SyncAction::ReleaseShared <==> phase == SyncPhase::Unlock,
{
}

/// Every action that is not an end, a look at the threads or an attempt to take the reset lock again is
/// completed by `advance`, and no other.
pub proof fn law_advance_completes_all_other_actions(phase: SyncPhase)
    ensures
        phase.awaits_completion() <==> {
            &&& phase.action() != SyncAction::Scan
            &&& phase.action() != SyncAction::TryAcquireShared
            &&& phase.action() != SyncAction::Finished
            &&& phase.action() != SyncAction::PanicResetAgain
            &&& phase.action() != SyncAction::PanicOverflowAgain
        },
{
}

/// A wait holds the reset lock alone from the time that it was asked to take it alone until it is asked
/// to announce the reset, and shares it while it looks for its epoch id and sleeps, until it is asked
/// to give it up.
pub proof fn law_reset_lock_is_held_as_asked(phase: SyncPhase)
    ensures
        phase.lock() == ResetLock::Exclusive <==> phase is ResetFence || phase is ResetScan
            || phase is ResetSleep || phase is AnnounceReset,
        phase.lock() == ResetLock::Shared <==> phase is Scan || phase is Sleep || phase is Unlock
            || phase is FailedToIncrement,
{
}

/// What a driver finds when it does what a wait asks for.
pub ghost struct Input {
    /// The epoch id.
    pub epoch_id: EpochId,
    /// Whether no thread holds up the wait.
    pub seen: bool,
    /// Whether the reset lock could be taken again.
    pub acquired: bool,
}

/// The phase after a driver did what a wait in the given phase asks for.
pub open spec fn driven(phase: SyncPhase, input: Input) -> SyncPhase {
    match phase.action() {
        SyncAction::Scan => phase.scanned(input.seen),
        SyncAction::TryAcquireShared => phase.relocked(input.acquired, input.epoch_id),
        SyncAction::Finished
        | SyncAction::PanicResetAgain
        | SyncAction::PanicOverflowAgain => phase,
        _ => phase.completed(input.epoch_id),
    }
}

/// The phase of a wait after a driver did what it asks for, once for each input.
pub open spec fn driven_times(inputs: Seq<Input>) -> SyncPhase
    decreases inputs.len(),
{
    if inputs.len() == 0 {
        SyncPhase::Fence
    } else {
        driven(driven_times(inputs.drop_last()), inputs.last())
    }
}

/// A wait performs its barrier, takes the reset lock, increments the epoch id by 2, and then looks at
/// the threads until all that are busy have seen the new epoch id. This is so for every epoch id from
/// which an increment does not overflow.
pub proof fn law_wait_looks_for_the_incremented_epoch_id(inputs: Seq<Input>)
    requires
        inputs.len() == 2,
        valid_epoch_id(inputs[1].epoch_id),
        inputs[1].epoch_id + 2 < EPOCH_ID_MAX,
    ensures
        driven_times(inputs).action() == SyncAction::Scan,
        driven_times(inputs).scan_goal() == Some(
            SeenGoal::AtLeast((inputs[1].epoch_id + 2) as EpochId),
        ),
        driven_times(inputs.drop_last()).epoch_id_when_completed(inputs[1].epoch_id)
            == inputs[1].epoch_id + 2,
{
    let first = inputs.drop_last();
    assert(first.drop_last() =~= Seq::<Input>::empty());
    assert(driven_times(first) == driven(SyncPhase::Fence, inputs[0])) by {
        assert(driven_times(first.drop_last()) == SyncPhase::Fence);
    }
}

/// A wait makes progress: a look at the threads that finds none to wait for ends it, with one step
/// more, and one that finds some leads to the same look again, after a sleep. This is so for every
/// epoch id.
pub proof fn law_scan_makes_progress(phase: SyncPhase, epoch_id: EpochId)
    requires
        phase.scan_goal() == Some(SeenGoal::AtLeast(epoch_id)),
    ensures
        phase.scanned(true).action() == SyncAction::ReleaseShared,
        forall|e: EpochId| (#[trigger] phase.scanned(true).completed(e)).action()
            == SyncAction::Finished,
        phase.scanned(false).action() == SyncAction::Sleep,
        forall|e: EpochId| #[trigger] phase.scanned(false).completed(e) == phase,
        forall|e: EpochId| #[trigger] phase.scanned(true).epoch_id_when_completed(e) == e,
        forall|e: EpochId| #[trigger] phase.scanned(false).epoch_id_when_completed(e) == e,
{
}

/// The number of the input that tells how the look number `k` at the threads ends: a look takes one
/// input, and a sleep after it another one.
pub open spec fn look_number(k: nat) -> int {
    (2 + 2 * k) as int
}

/// After `n` looks that found threads to wait for, a wait is about to look for the same epoch id again.
proof fn lemma_looks_again(inputs: Seq<Input>, n: nat)
    requires
        inputs.len() == look_number(n),
        valid_epoch_id(inputs[1].epoch_id),
        inputs[1].epoch_id + 2 < EPOCH_ID_MAX,
        forall|k: nat| k < n ==> !inputs[#[trigger] look_number(k)].seen,
    ensures
        driven_times(inputs) == SyncPhase::Scan((inputs[1].epoch_id + 2) as EpochId),
    decreases n,
{
    if n == 0 {
        law_wait_looks_for_the_incremented_epoch_id(inputs);
    } else {
        let slept = inputs.drop_last();
        let looked = slept.drop_last();
        assert forall|k: nat| k < n - 1 implies !looked[#[trigger] look_number(k)].seen by {
            assert(!inputs[look_number(k)].seen);
        }
        lemma_looks_again(looked, (n - 1) as nat);
        assert(slept.last() == inputs[look_number((n - 1) as nat)]);
        assert(looked[1] == inputs[1]);
        assert(driven_times(slept) == driven(driven_times(looked), slept.last()));
        assert(driven_times(inputs) == driven(driven_times(slept), inputs.last()));
    }
}

/// A wait ends: a driver that does what it asks for has to do so four times, and twice more for every
/// look that finds some thread to wait for. This is so for every epoch id from which an increment does
/// not overflow, and for any number of looks.
pub proof fn law_wait_ends(inputs: Seq<Input>, n: nat)
    requires
        inputs.len() == 4 + 2 * n,
        valid_epoch_id(inputs[1].epoch_id),
        inputs[1].epoch_id + 2 < EPOCH_ID_MAX,
        forall|k: nat| k < n ==> !inputs[#[trigger] look_number(k)].seen,
        inputs[look_number(n)].seen,
    ensures
        driven_times(inputs).action() == SyncAction::Finished,
        driven_times(inputs) == SyncPhase::Finished,
{
    let looked = inputs.drop_last();
    let before = looked.drop_last();
    assert forall|k: nat| k < n implies !before[#[trigger] look_number(k)].seen by {
        assert(!inputs[look_number(k)].seen);
    }
    lemma_looks_again(before, n);
    assert(looked.last() == inputs[look_number(n)]);
    assert(before[1] == inputs[1]);
    assert(driven_times(looked) == driven(driven_times(before), looked.last()));
    assert(driven_times(inputs) == driven(driven_times(looked), inputs.last()));
}

/// A wait does not end early: one that is over, or about to be, has looked at the threads for some epoch
/// id and found none to wait for.
pub proof fn law_wait_ends_only_after_a_look(inputs: Seq<Input>) -> (k: int)
    requires
        driven_times(inputs).action() == SyncAction::Finished || driven_times(inputs).action()
            == SyncAction::ReleaseShared,
    ensures
        0 <= k < inputs.len(),
        driven_times(inputs.take(k)).action() == SyncAction::Scan,
        driven_times(inputs.take(k)).scan_goal() is Some,
        driven_times(inputs.take(k)).scan_goal()->0 is AtLeast,
        inputs[k].seen,
    decreases inputs.len(),
{
    let last = inputs.len() - 1;
    let before = inputs.drop_last();
    assert(before =~= inputs.take(last));
    let phase = driven_times(before);
    if phase.action() == SyncAction::Finished || phase.action() == SyncAction::ReleaseShared {
        let k = law_wait_ends_only_after_a_look(before);
        assert(before.take(k) =~= inputs.take(k));
        k
    } else {
        last
    }
}

/// The wait whose increment takes the epoch id to its largest value resets it: it takes the reset lock
/// alone, the epoch id becomes the smallest one, and it looks at the threads, after a barrier, until
/// all have seen that. Then it announces the reset, and tries to take the reset lock again.
pub proof fn law_leader_resets_the_epoch_id(
    before: SyncPhase,
    epoch_id: EpochId,
    e1: EpochId,
    e2: EpochId,
    e3: EpochId,
)
    requires
        before.action() == SyncAction::AcquireShared,
        epoch_id + 2 == EPOCH_ID_MAX,
    ensures
        ({
            let leads = before.completed(epoch_id);
            let fences = leads.completed(e1);
            let scans = fences.completed(e2);
            &&& before.epoch_id_when_completed(epoch_id) == EPOCH_ID_MAX
            &&& leads.action() == SyncAction::AcquireExclusive
            &&& leads.epoch_id_when_completed(e1) == EPOCH_ID_MIN
            &&& fences.action() == SyncAction::Membarrier
            &&& fences.epoch_id_when_completed(e2) == e2
            &&& scans.action() == SyncAction::Scan
            &&& scans.scan_goal() == Some(SeenGoal::Exactly(EPOCH_ID_MIN))
            &&& scans.scanned(false).action() == SyncAction::Sleep
            &&& scans.scanned(false).completed(e3) == scans
            &&& scans.scanned(false).epoch_id_when_completed(e3) == e3
            &&& scans.scanned(true).action() == SyncAction::AnnounceReset
            &&& scans.scanned(true).completed(e3).action() == SyncAction::TryAcquireShared
            &&& scans.scanned(true).epoch_id_when_completed(e3) == e3
        }),
{
}

/// A wait that finds the epoch id at its largest value sleeps until it is reset, and then tries to take
/// the reset lock again. It leaves the epoch id as it is.
pub proof fn law_follower_awaits_the_reset(before: SyncPhase, e: EpochId)
    requires
        before.action() == SyncAction::AcquireShared,
    ensures
        before.completed(EPOCH_ID_MAX).action() == SyncAction::AwaitReset,
        before.epoch_id_when_completed(EPOCH_ID_MAX) == EPOCH_ID_MAX,
        before.completed(EPOCH_ID_MAX).completed(e).action() == SyncAction::TryAcquireShared,
        before.completed(EPOCH_ID_MAX).epoch_id_when_completed(e) == e,
{
}

/// After a reset a wait goes on as it would have without one: it increments the epoch id, and looks for
/// the new one. It fails exactly if the reset lock could not be taken again, or the epoch id overflows
/// again.
pub proof fn law_wait_goes_on_after_a_reset(phase: SyncPhase, epoch_id: EpochId)
    requires
        phase.action() == SyncAction::TryAcquireShared,
        valid_epoch_id(epoch_id),
    ensures
        phase.relocked(false, epoch_id).action() == SyncAction::PanicResetAgain,
        epoch_id + 2 < EPOCH_ID_MAX ==> phase.relocked(true, epoch_id).scan_goal() == Some(
            SeenGoal::AtLeast((epoch_id + 2) as EpochId),
        ),
        epoch_id + 2 >= EPOCH_ID_MAX ==> phase.relocked(true, epoch_id).action()
            == SyncAction::PanicOverflowAgain,
{
}

/// The epoch id changes in two steps of a wait only: it is incremented when the reset lock was taken,
/// shared, and reset when it was taken alone.
pub proof fn law_epoch_id_changes_in_two_steps_only(phase: SyncPhase, epoch_id: EpochId)
    requires
        phase.action() != SyncAction::AcquireShared,
        phase.action() != SyncAction::AcquireExclusive,
    ensures
        phase.epoch_id_when_completed(epoch_id) == epoch_id,
{
}

} // verus!
