//! The storage slots in which the threads publish their state.
//!
//! A thread-local variable would be visible to its own thread only, but a writer has to look at the
//! state of every thread. So each thread owns a slot in a buffer that all threads can read.
use vstd::prelude::*;

use crate::thread_state::{encoded, EncodedThreadState, ThreadState};
use thread_storage_slots::{ThreadStorageSlots, ThreadStorageSlotsReadGuard};

pub mod cur_data;
pub mod thread_storage_slots;

verus! {

/// The id of a storage slot: its index in the buffer of slots.
#[derive(Debug, Clone, Copy, PartialEq, Eq, PartialOrd, Ord, Structural)]
pub struct ThreadStorageSlotId(pub u16);

/// What a storage slot holds.
#[derive(Debug, Clone, Copy, PartialEq, Eq, Structural)]
pub struct ThreadStorageSlotValue {
    /// The encoded state of the thread that owns the slot.
    pub state: EncodedThreadState,
}

/// Access to the states of all threads.
pub fn thread_storage_slot_get_all(slots: &ThreadStorageSlots) -> (guard:
    ThreadStorageSlotsReadGuard<'_>)
    ensures
        guard@ == slots@.states,
{
    slots.read()
}

/// The storage slot that a thread owns, if it owns one. Meant for a thread-local variable; it
/// starts without a slot.
pub struct OwnedThreadStorageSlot {
    id: Option<ThreadStorageSlotId>,
}

impl View for OwnedThreadStorageSlot {
    type V = Option<ThreadStorageSlotId>;

    closed spec fn view(&self) -> Option<ThreadStorageSlotId> {
        self.id
    }
}

impl OwnedThreadStorageSlot {
    /// No slot.
    pub fn unallocated() -> (owned: Self)
        ensures
            owned@ == None::<ThreadStorageSlotId>,
    {
        OwnedThreadStorageSlot { id: None }
    }

    /// Whether the slot that the thread owns, if any, is given to some thread in `slots`.
    pub open spec fn belongs_to(self, slots: ThreadStorageSlots) -> bool {
        self@ matches Some(id) ==> slots@.is_allocated(id)
    }

    /// Gets a slot for the thread, and returns its id. A thread that already owns a slot keeps it,
    /// as it is.
    pub fn allocate(
        &mut self,
        slots: &mut ThreadStorageSlots,
        initial_thread_state: ThreadState,
    ) -> (id: ThreadStorageSlotId)
        requires
            old(slots).wf(),
            old(self)@ is None ==> initial_thread_state.valid() && old(slots)@.has_room(),
        ensures
            final(self)@ == Some(id),
            final(slots).wf(),
            old(self)@ matches Some(existing_id) ==> id == existing_id && *final(slots) == *old(
                slots,
            ),
            old(self)@ is None ==> {
                &&& id == old(slots)@.next_slot()
                &&& final(slots)@ == old(slots)@.with_allocated(encoded(initial_thread_state))
                &&& final(slots)@.is_allocated(id)
            },
    {
        if let Some(existing_id) = self.id {
            return existing_id;
        }
        let id = slots.allocate(initial_thread_state);
        self.id = Some(id);
        assert(slots@.allocated().contains(id));
        id
    }

    /// Gives the slot of the thread back. A thread that owns no slot changes nothing.
    pub fn dealloc(&mut self, slots: &mut ThreadStorageSlots)
        requires
            old(slots).wf(),
            old(self).belongs_to(*old(slots)),
        ensures
            final(self)@ == None::<ThreadStorageSlotId>,
            final(slots).wf(),
            old(self)@ matches Some(id) ==> final(slots)@ == old(slots)@.with_deallocated(id),
            old(self)@ is None ==> *final(slots) == *old(slots),
    {
        if let Some(id) = self.id {
            slots.dealloc(id);
            self.id = None;
        }
    }

    /// The id of the slot that the thread owns, if any.
    pub fn id(&self) -> (id: Option<ThreadStorageSlotId>)
        ensures
            id == self@,
    {
        self.id
    }
}

/// The id of the slot that the thread owns. It has to own one.
pub fn this_thread_get_storage_slot_id(this_thread: &OwnedThreadStorageSlot) -> (id:
    ThreadStorageSlotId)
    requires
        this_thread@ is Some,
    ensures
        this_thread@ == Some(id),
{
    this_thread.id().unwrap()
}

/// What the slot holds that the thread owns. It has to own one.
pub fn this_thread_get_storage_slot(
    slots: &ThreadStorageSlots,
    this_thread: &OwnedThreadStorageSlot,
) -> (slot: ThreadStorageSlotValue)
    requires
        slots.wf(),
        this_thread@ is Some,
        this_thread.belongs_to(*slots),
    ensures
        this_thread@ matches Some(id) && slot.state == slots@.states[id.0 as int],
{
    slots.get(this_thread_get_storage_slot_id(this_thread))
}

/// Whether the thread owns a slot.
pub fn this_thread_does_have_allocated_storage_slot(this_thread: &OwnedThreadStorageSlot) -> (res:
    bool)
    ensures
        res <==> this_thread@ is Some,
{
    this_thread.id().is_some()
}

/// Gets a slot for the thread, unless it already owns one, and returns its id.
pub fn this_thread_alloc_storage_slot(
    slots: &mut ThreadStorageSlots,
    this_thread: &mut OwnedThreadStorageSlot,
    initial_thread_state: ThreadState,
) -> (id: ThreadStorageSlotId)
    requires
        old(slots).wf(),
        old(this_thread)@ is None ==> initial_thread_state.valid() && old(slots)@.has_room(),
    ensures
        final(this_thread)@ == Some(id),
        final(slots).wf(),
        old(this_thread)@ matches Some(existing_id) ==> id == existing_id && *final(slots) == *old(
            slots,
        ),
        old(this_thread)@ is None ==> {
            &&& id == old(slots)@.next_slot()
            &&& final(slots)@ == old(slots)@.with_allocated(encoded(initial_thread_state))
            &&& final(slots)@.is_allocated(id)
        },
{
    this_thread.allocate(slots, initial_thread_state)
}

/// Gives the slot of the thread back, if it owns one.
pub fn this_thread_dealloc_storage_slot(
    slots: &mut ThreadStorageSlots,
    this_thread: &mut OwnedThreadStorageSlot,
)
    requires
        old(slots).wf(),
        old(this_thread).belongs_to(*old(slots)),
    ensures
        final(this_thread)@ == None::<ThreadStorageSlotId>,
        final(slots).wf(),
        old(this_thread)@ matches Some(id) ==> final(slots)@ == old(slots)@.with_deallocated(id),
        old(this_thread)@ is None ==> *final(slots) == *old(slots),
{
    this_thread.dealloc(slots)
}

} // verus!
