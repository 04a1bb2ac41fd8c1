//! What a thread does to its published state when it starts, stops, parks, unparks, and after it
//! polled a task.
//!
//! Each hook works on the epoch id, the storage slots and the slot of the thread that it runs on.
//! A hook that lets a waiting writer go on returns `true`: all waiting writers are then to be
//! notified.
use vstd::prelude::*;

use crate::epoch::{epoch_id_get, EpochCounter, EpochId};
use crate::per_thread_storage::thread_storage_slots::{
    lemma_with_allocated, lemma_with_stored, SlotsView, ThreadStorageSlots,
};
use crate::per_thread_storage::{
    this_thread_alloc_storage_slot, this_thread_dealloc_storage_slot, this_thread_get_storage_slot,
    this_thread_get_storage_slot_id, OwnedThreadStorageSlot, ThreadStorageSlotId,
};
use crate::thread_state::{decoded, encoded, EncodedThreadState, ThreadState};

verus! {

/// The packed state of a busy thread that has just seen `epoch_id`.
pub open spec fn busy_at(epoch_id: EpochId) -> EncodedThreadState {
    encoded(ThreadState { last_seen_epoch_id: epoch_id, is_busy: true })
}

/// The packed state `state` with the busy flag cleared.
pub open spec fn parked(state: EncodedThreadState) -> EncodedThreadState {
    (state - state % 2) as EncodedThreadState
}

/// Whether the packed state is that of a busy thread.
pub open spec fn is_busy(state: EncodedThreadState) -> bool {
    state % 2 == 1
}

/// The last epoch id seen, as far as a packed state says.
pub open spec fn last_seen(state: EncodedThreadState) -> EpochId {
    (state - state % 2) as EpochId
}

/// What a busy thread does that may let a waiting writer go on.
pub ghost enum StatusChange {
    /// It parks.
    Park,
    /// It stops.
    Stop,
    /// It has polled a task, and sees this epoch id.
    TaskPolled(EpochId),
}

impl StatusChange {
    /// What the slot of the thread holds afterwards, where it held the given packed state.
    pub open spec fn after(self, state: EncodedThreadState) -> EncodedThreadState {
        match self {
            StatusChange::Park => parked(state),
            StatusChange::Stop => ThreadState::NONE_ENCODED_VALUE,
            StatusChange::TaskPolled(epoch_id) => busy_at(epoch_id),
        }
    }

    /// Whether waiting writers are to be notified of it: always, except that a polled task is of
    /// interest only if another epoch id was seen than before.
    pub open spec fn notifies(self, state: EncodedThreadState) -> bool {
        match self {
            StatusChange::Park | StatusChange::Stop => true,
            StatusChange::TaskPolled(epoch_id) => last_seen(state) != epoch_id,
        }
    }
}

/// Reads the epoch id for the thread to publish.
pub fn this_thread_see_new_epoch_id(epoch: &EpochCounter) -> (epoch_id: EpochId)
    ensures
        epoch_id == epoch@,
        crate::epoch::valid_epoch_id(epoch_id),
{
    epoch_id_get(epoch)
}

/// A thread starts: it gets a slot, which says that it is busy and has seen the current epoch id.
pub fn on_thread_start(
    epoch: &EpochCounter,
    slots: &mut ThreadStorageSlots,
    this_thread: &mut OwnedThreadStorageSlot,
)
    requires
        old(slots).wf(),
        old(slots)@.has_room(),
        old(this_thread)@ is None,
    ensures
        final(slots).wf(),
        final(slots)@ == old(slots)@.with_allocated(busy_at(epoch@)),
        final(this_thread)@ == Some(old(slots)@.next_slot()),
        final(this_thread).belongs_to(*final(slots)),
        final(slots)@.states[old(slots)@.next_slot().0 as int] == busy_at(epoch@),
{
    let epoch_id: EpochId = this_thread_see_new_epoch_id(epoch);
    proof {
        lemma_with_allocated(slots@, busy_at(epoch@));
    }
    let _ = this_thread_alloc_storage_slot(
        slots,
        this_thread,
        ThreadState { last_seen_epoch_id: epoch_id, is_busy: true },
    );
}

/// A thread stops: it gives its slot back. Waiting writers are to be notified, since some may have
/// been waiting for this thread to see their epoch id.
pub fn on_thread_stop(
    slots: &mut ThreadStorageSlots,
    this_thread: &mut OwnedThreadStorageSlot,
) -> (notify_waiters: bool)
    requires
        old(slots).wf(),
        old(this_thread)@ is Some,
        old(this_thread).belongs_to(*old(slots)),
    ensures
        final(slots).wf(),
        old(this_thread)@ matches Some(id) && final(slots)@ == old(slots)@.with_deallocated(id)
            && notify_waiters == StatusChange::Stop.notifies(old(slots)@.states[id.0 as int]),
        final(this_thread)@ == None::<ThreadStorageSlotId>,
{
    this_thread_dealloc_storage_slot(slots, this_thread);
    true
}

/// A thread parks: its slot says that it is no longer busy. Waiting writers are to be notified,
/// since some may have been waiting for this thread to see their epoch id.
pub fn on_thread_park(slots: &mut ThreadStorageSlots, this_thread: &OwnedThreadStorageSlot) -> (
    notify_waiters: bool)
    requires
        old(slots).wf(),
        this_thread@ is Some,
        this_thread.belongs_to(*old(slots)),
    ensures
        final(slots).wf(),
        this_thread@ matches Some(id) && final(slots)@ == old(slots)@.with_stored(
            id,
            parked(old(slots)@.states[id.0 as int]),
        ) && notify_waiters == StatusChange::Park.notifies(old(slots)@.states[id.0 as int]),
        this_thread.belongs_to(*final(slots)),
{
    let id = this_thread_get_storage_slot_id(this_thread);
    let state: EncodedThreadState = this_thread_get_storage_slot(slots, this_thread).state;
    assert(state & (!1u32) == state - state % 2) by (bit_vector);
    assert(crate::thread_state::valid_encoded(slots@.states[id.0 as int]));
    proof {
        lemma_with_stored(slots@, id, parked(state));
    }
    slots.store(id, state & (!1));
    true
}

/// A thread unparks: its slot says that it is busy and has seen the current epoch id.
///
/// The epoch id has to be read anew: it may have been reset while the thread was parked, and the
/// epoch id that it saw before would then be too large.
pub fn on_thread_unpark(
    epoch: &EpochCounter,
    slots: &mut ThreadStorageSlots,
    this_thread: &OwnedThreadStorageSlot,
)
    requires
        old(slots).wf(),
        this_thread@ is Some,
        this_thread.belongs_to(*old(slots)),
    ensures
        final(slots).wf(),
        this_thread@ matches Some(id) && final(slots)@ == old(slots)@.with_stored(
            id,
            busy_at(epoch@),
        ),
        this_thread.belongs_to(*final(slots)),
{
    let id = this_thread_get_storage_slot_id(this_thread);
    let new_seen_epoch_id: EpochId = this_thread_see_new_epoch_id(epoch);
    slots.store(
        id,
        ThreadState { last_seen_epoch_id: new_seen_epoch_id, is_busy: true }.encode(),
    );
}

/// Whether there is nothing to do after a task was polled: the slot of the thread says already that it
/// is busy and has seen the current epoch id. See [`law_nothing_to_do_after_task_poll`].
pub fn is_up_to_date(
    epoch: &EpochCounter,
    slots: &ThreadStorageSlots,
    this_thread: &OwnedThreadStorageSlot,
) -> (res: bool)
    requires
        slots.wf(),
        this_thread@ is Some,
        this_thread.belongs_to(*slots),
    ensures
        this_thread@ matches Some(id) && res == (slots@.states[id.0 as int] == busy_at(epoch@)),
{
    let epoch_id: EpochId = this_thread_see_new_epoch_id(epoch);
    let state: EncodedThreadState = this_thread_get_storage_slot(slots, this_thread).state;
    state == ThreadState { last_seen_epoch_id: epoch_id, is_busy: true }.encode()
}

/// Where the slot of a thread says already that it is busy and has seen the current epoch id,
/// [`on_after_task_poll`] leaves all slots as they are, and asks for no notification.
pub proof fn law_nothing_to_do_after_task_poll(
    slots: SlotsView,
    id: ThreadStorageSlotId,
    epoch_id: EpochId,
)
    requires
        crate::epoch::valid_epoch_id(epoch_id),
        slots.is_allocated(id),
        slots.states[id.0 as int] == busy_at(epoch_id),
    ensures
        slots.with_stored(id, busy_at(epoch_id)) == slots,
        !StatusChange::TaskPolled(epoch_id).notifies(slots.states[id.0 as int]),
{
    assert(slots.with_stored(id, busy_at(epoch_id)) =~= slots);
}

/// A thread has polled a task, and is in a quiescent state: its slot says that it has seen the
/// current epoch id. Waiting writers are to be notified if that is another one than before.
pub fn on_after_task_poll(
    epoch: &EpochCounter,
    slots: &mut ThreadStorageSlots,
    this_thread: &OwnedThreadStorageSlot,
) -> (notify_waiters: bool)
    requires
        old(slots).wf(),
        this_thread@ is Some,
        this_thread.belongs_to(*old(slots)),
    ensures
        final(slots).wf(),
        this_thread@ matches Some(id) && final(slots)@ == old(slots)@.with_stored(
            id,
            busy_at(epoch@),
        ) && notify_waiters == StatusChange::TaskPolled(epoch@).notifies(
            old(slots)@.states[id.0 as int],
        ),
        this_thread.belongs_to(*final(slots)),
{
    let id = this_thread_get_storage_slot_id(this_thread);
    let new_seen_epoch_id: EpochId = this_thread_see_new_epoch_id(epoch);
    let prev_state_encoded: EncodedThreadState = this_thread_get_storage_slot(
        slots,
        this_thread,
    ).state;
    assert(crate::thread_state::valid_encoded(slots@.states[id.0 as int]));
    slots.store(
        id,
        ThreadState { last_seen_epoch_id: new_seen_epoch_id, is_busy: true }.encode(),
    );
    let prev_state = ThreadState::decode(prev_state_encoded).unwrap();
    prev_state.last_seen_epoch_id != new_seen_epoch_id
}

/// The bookkeeping around the root future of a runtime.
///
/// The thread that runs the root future is none of the runtime's worker threads, and the runtime
/// calls no hooks on it. So the hooks are called around each poll of the root future instead.
#[derive(Debug, Clone, Copy)]
pub struct RcuRootFuture {
    has_already_been_polled: bool,
}

impl RcuRootFuture {
    /// Whether the root future has been polled before.
    pub closed spec fn polled(self) -> bool {
        self.has_already_been_polled
    }

    /// A root future that has not been polled yet.
    pub fn new() -> (root: Self)
        ensures
            !root.polled(),
    {
        RcuRootFuture { has_already_been_polled: false }
    }

    /// Whether the root future has been polled before.
    pub fn has_already_been_polled(&self) -> (res: bool)
        ensures
            res == self.polled(),
    {
        self.has_already_been_polled
    }

    /// What is done before the root future is polled: the first time the thread starts, and later
    /// it unparks, since a pending root future parks it.
    pub fn before_poll(
        &mut self,
        epoch: &EpochCounter,
        slots: &mut ThreadStorageSlots,
        this_thread: &mut OwnedThreadStorageSlot,
    )
        requires
            old(slots).wf(),
            !old(self).polled() ==> old(this_thread)@ is None && old(slots)@.has_room(),
            old(self).polled() ==> old(this_thread)@ is Some,
            old(this_thread).belongs_to(*old(slots)),
        ensures
            final(self).polled(),
            final(slots).wf(),
            !old(self).polled() ==> {
                &&& final(slots)@ == old(slots)@.with_allocated(busy_at(epoch@))
                &&& final(this_thread)@ == Some(old(slots)@.next_slot())
            },
            old(self).polled() ==> {
                &&& old(this_thread)@ matches Some(id) && final(slots)@ == old(slots)@.with_stored(
                    id,
                    busy_at(epoch@),
                )
                &&& final(this_thread)@ == old(this_thread)@
            },
            final(this_thread).belongs_to(*final(slots)),
            final(this_thread)@ matches Some(id) && final(slots)@.states[id.0 as int] == busy_at(
                epoch@,
            ),
    {
        if !self.has_already_been_polled {
            on_thread_start(epoch, slots, this_thread);
            self.has_already_been_polled = true;
        } else {
            on_thread_unpark(epoch, slots, this_thread);
        }
    }

    /// What is done after the root future was polled: the thread has polled a task; then it stops,
    /// if the root future is `ready`, and parks otherwise. Either way waiting writers are to be
    /// notified.
    pub fn after_poll(
        &self,
        epoch: &EpochCounter,
        slots: &mut ThreadStorageSlots,
        this_thread: &mut OwnedThreadStorageSlot,
        ready: bool,
    ) -> (notify_waiters: bool)
        requires
            old(slots).wf(),
            old(this_thread)@ is Some,
            old(this_thread).belongs_to(*old(slots)),
        ensures
            final(slots).wf(),
            old(this_thread)@ matches Some(id) && {
                let before = old(slots)@;
                let seen = before.with_stored(id, busy_at(epoch@));
                &&& final(slots)@ == if ready {
                    seen.with_deallocated(id)
                } else {
                    seen.with_stored(id, parked(busy_at(epoch@)))
                }
            },
            notify_waiters,
            final(this_thread)@ == if ready {
                None
            } else {
                old(this_thread)@
            },
            final(this_thread).belongs_to(*final(slots)),
    {
        let seen_new_epoch_id: bool = on_after_task_poll(epoch, slots, this_thread);
        let became_inactive: bool = if ready {
            on_thread_stop(slots, this_thread)
        } else {
            on_thread_park(slots, this_thread)
        };
        seen_new_epoch_id || became_inactive
    }
}

/// What a busy thread publishes is that it is busy, and the epoch id that it saw.
pub proof fn law_busy_state(epoch_id: EpochId)
    requires
        crate::epoch::valid_epoch_id(epoch_id),
    ensures
        decoded(busy_at(epoch_id)) == Some(
            ThreadState { last_seen_epoch_id: epoch_id, is_busy: true },
        ),
{
}

/// Parking keeps the epoch id that a thread has last seen, and says that it is not busy, whatever it
/// published before.
pub proof fn law_parked_state(state: ThreadState)
    requires
        state.valid(),
    ensures
        decoded(parked(encoded(state))) == Some(ThreadState { is_busy: false, ..state }),
{
}

/// What a packed state says of a thread is what it says when it is unpacked.
pub proof fn law_packed_state_tells(state: ThreadState)
    requires
        state.valid(),
    ensures
        is_busy(encoded(state)) == state.is_busy,
        last_seen(encoded(state)) == state.last_seen_epoch_id,
{
}

/// A thread that stops leaves its slot vacant, one that parks is not busy and keeps its epoch id, and
/// one that has polled a task is busy with the epoch id that it saw.
pub proof fn law_status_after_change(state: ThreadState, change: StatusChange)
    requires
        state.valid(),
        change matches StatusChange::TaskPolled(epoch_id) ==> crate::epoch::valid_epoch_id(epoch_id),
    ensures
        decoded(change.after(encoded(state))) == match change {
            StatusChange::Stop => None,
            StatusChange::Park => Some(ThreadState { is_busy: false, ..state }),
            StatusChange::TaskPolled(epoch_id) => Some(
                ThreadState { last_seen_epoch_id: epoch_id, is_busy: true },
            ),
        },
{
}

/// Writers are notified of every change of what a busy thread publishes, and of nothing else.
pub proof fn law_every_change_of_a_busy_thread_is_notified(state: ThreadState, change: StatusChange)
    requires
        state.valid(),
        state.is_busy,
        change matches StatusChange::TaskPolled(epoch_id) ==> crate::epoch::valid_epoch_id(epoch_id),
    ensures
        change.notifies(encoded(state)) <==> change.after(encoded(state)) != encoded(state),
{
}

/// Writers are notified of everything that a thread does, except of a polled task after which it sees
/// the epoch id that it had seen before.
pub proof fn law_only_a_poll_without_news_is_not_notified(state: ThreadState, change: StatusChange)
    requires
        state.valid(),
    ensures
        change.notifies(encoded(state)) <==> change != StatusChange::TaskPolled(
            state.last_seen_epoch_id,
        ),
{
}

} // verus!
