//! Storage slots in a table of fixed size, with no list of the vacant ones: a thread takes the first
//! vacant slot that it finds.
use vstd::prelude::*;

use index_type::array::TypedArray;
use index_type::IndexType;
use std::num::NonZeroU16;

use crate::per_thread_storage::{ThreadStorageSlotId, ThreadStorageSlotValue};
use crate::thread_state::{encoded, EncodedThreadState, ThreadState};

verus! {

/// The number of slots in the table, and so the largest number of threads at a time.
pub const MAX_CONCURRENT_THREADS: usize = 4096;

/// A table of [`MAX_CONCURRENT_THREADS`] storage slots, in an `index_type` array.
#[verifier::external_body]
pub struct FixedThreadStorageSlots {
    slots: TypedArray<NonZeroU16, EncodedThreadState, MAX_CONCURRENT_THREADS>,
}

/// The encoded states in the table, by slot index.
pub uninterp spec fn table_states(slots: FixedThreadStorageSlots) -> Seq<EncodedThreadState>;

impl View for FixedThreadStorageSlots {
    type V = Seq<EncodedThreadState>;

    open spec fn view(&self) -> Seq<EncodedThreadState> {
        table_states(*self)
    }
}

/// `TypedArray::from_array` of an array that holds the same state throughout.
#[verifier::external_body]
fn table_filled_with(state: EncodedThreadState) -> (slots: FixedThreadStorageSlots)
    ensures
        table_states(slots) == Seq::new(MAX_CONCURRENT_THREADS as nat, |i: int| state),
{
    FixedThreadStorageSlots { slots: TypedArray::from_array([state; MAX_CONCURRENT_THREADS]) }
}

/// Indexing of a `TypedArray`: the state at a slot index. It panics past the end.
#[verifier::external_body]
fn table_get(slots: &FixedThreadStorageSlots, index: u16) -> (state: EncodedThreadState)
    requires
        index < MAX_CONCURRENT_THREADS,
    ensures
        state == table_states(*slots)[index as int],
{
    slots.slots[NonZeroU16::from_raw_index(index as usize)]
}

/// Mutable indexing of a `TypedArray`: stores a state at a slot index. It panics past the end.
#[verifier::external_body]
fn table_set(slots: &mut FixedThreadStorageSlots, index: u16, state: EncodedThreadState)
    requires
        index < MAX_CONCURRENT_THREADS,
    ensures
        table_states(*final(slots)) == table_states(*old(slots)).update(index as int, state),
{
    slots.slots[NonZeroU16::from_raw_index(index as usize)] = state;
}

impl FixedThreadStorageSlots {
    /// Whether the table has all its slots.
    pub open spec fn wf(self) -> bool {
        self@.len() == MAX_CONCURRENT_THREADS
    }

    /// Whether the slot belongs to some thread.
    pub open spec fn is_allocated(self, id: ThreadStorageSlotId) -> bool {
        id.0 < self@.len() && self@[id.0 as int] != ThreadState::NONE_ENCODED_VALUE
    }

    /// Whether some slot is vacant.
    pub open spec fn has_room(self) -> bool {
        self@.contains(ThreadState::NONE_ENCODED_VALUE)
    }

    /// Whether `id` is the first vacant slot.
    pub open spec fn first_vacant(self, id: ThreadStorageSlotId) -> bool {
        &&& id.0 < self@.len()
        &&& self@[id.0 as int] == ThreadState::NONE_ENCODED_VALUE
        &&& forall|i: int| 0 <= i < id.0 ==> self@[i] != ThreadState::NONE_ENCODED_VALUE
    }

    /// A table whose slots are all vacant.
    pub fn new() -> (slots: Self)
        ensures
            slots.wf(),
            forall|i: int|
                0 <= i < MAX_CONCURRENT_THREADS ==> slots@[i] == ThreadState::NONE_ENCODED_VALUE,
    {
        table_filled_with(ThreadState::NONE_ENCODED_VALUE)
    }
}

/// All slots of the table with their ids, in the order of the ids.
pub fn thread_storage_slot_get_all(slots: &FixedThreadStorageSlots) -> (all: Vec<
    (ThreadStorageSlotId, ThreadStorageSlotValue),
>)
    requires
        slots.wf(),
    ensures
        all@.len() == slots@.len(),
        forall|i: int|
            0 <= i < all@.len() ==> #[trigger] all@[i] == (
                ThreadStorageSlotId(i as u16),
                ThreadStorageSlotValue { state: slots@[i] },
            ),
{
    let mut all: Vec<(ThreadStorageSlotId, ThreadStorageSlotValue)> = Vec::new();
    let mut index: u16 = 0;
    while (index as usize) < MAX_CONCURRENT_THREADS
        invariant
            slots.wf(),
            index <= MAX_CONCURRENT_THREADS,
            all@.len() == index,
            forall|i: int|
                0 <= i < index ==> #[trigger] all@[i] == (
                    ThreadStorageSlotId(i as u16),
                    ThreadStorageSlotValue { state: slots@[i] },
                ),
        decreases MAX_CONCURRENT_THREADS - index,
    {
        all.push(
            (
                ThreadStorageSlotId(index),
                thread_storage_slot_get(slots, ThreadStorageSlotId(index)),
            ),
        );
        index += 1;
    }
    all
}

/// The slot with the given id.
pub fn thread_storage_slot_get(slots: &FixedThreadStorageSlots, id: ThreadStorageSlotId) -> (slot:
    ThreadStorageSlotValue)
    requires
        slots.wf(),
        id.0 < MAX_CONCURRENT_THREADS,
    ensures
        slot.state == slots@[id.0 as int],
{
    ThreadStorageSlotValue { state: table_get(slots, id.0) }
}

/// Gives the first vacant slot to a thread, with the thread's initial state in it, and returns its
/// id; `None` if no slot is vacant.
pub fn thread_storage_slot_alloc(
    slots: &mut FixedThreadStorageSlots,
    initial_thread_state: ThreadState,
) -> (res: Option<ThreadStorageSlotId>)
    requires
        old(slots).wf(),
        initial_thread_state.valid(),
    ensures
        final(slots).wf(),
        res is Some <==> old(slots).has_room(),
        res matches Some(id) ==> old(slots).first_vacant(id) && final(slots)@ == old(
            slots,
        )@.update(id.0 as int, encoded(initial_thread_state)) && final(slots).is_allocated(id),
        res is None ==> *final(slots) == *old(slots),
{
    let encoded_initial_thread_state: EncodedThreadState = initial_thread_state.encode();
    let mut index: u16 = 0;
    while (index as usize) < MAX_CONCURRENT_THREADS
        invariant
            *slots == *old(slots),
            slots.wf(),
            initial_thread_state.valid(),
            encoded_initial_thread_state == encoded(initial_thread_state),
            encoded_initial_thread_state != ThreadState::NONE_ENCODED_VALUE,
            index <= MAX_CONCURRENT_THREADS,
            forall|i: int| 0 <= i < index ==> slots@[i] != ThreadState::NONE_ENCODED_VALUE,
        decreases MAX_CONCURRENT_THREADS - index,
    {
        let slot_id = ThreadStorageSlotId(index);
        if thread_storage_slot_get(slots, slot_id).state == ThreadState::NONE_ENCODED_VALUE {
            table_set(slots, index, encoded_initial_thread_state);
            return Some(slot_id);
        }
        index += 1;
    }
    None
}

/// Takes the slot back from the thread that owns it.
pub fn thread_storage_slot_free(slots: &mut FixedThreadStorageSlots, id: ThreadStorageSlotId)
    requires
        old(slots).wf(),
        old(slots).is_allocated(id),
    ensures
        final(slots).wf(),
        final(slots)@ == old(slots)@.update(id.0 as int, ThreadState::NONE_ENCODED_VALUE),
{
    table_set(slots, id.0, ThreadState::NONE_ENCODED_VALUE);
}

/// The slot of the table that a thread owns, if it owns one. Meant for a thread-local variable; it
/// starts without a slot.
pub struct OwnedThreadStorageSlot {
    id: Option<ThreadStorageSlotId>,
}

impl View for OwnedThreadStorageSlot {
    type V = Option<ThreadStorageSlotId>;

    closed spec fn view(&self) -> Option<ThreadStorageSlotId> {
        self.id
    }
}

impl OwnedThreadStorageSlot {
    /// No slot.
    pub fn unallocated() -> (owned: Self)
        ensures
            owned@ == None::<ThreadStorageSlotId>,
    {
        OwnedThreadStorageSlot { id: None }
    }

    /// Whether the slot that the thread owns, if any, is given to some thread in `slots`.
    pub open spec fn belongs_to(self, slots: FixedThreadStorageSlots) -> bool {
        self@ matches Some(id) ==> slots.is_allocated(id)
    }

    /// Gets the first vacant slot for the thread. A thread that already owns a slot keeps it, as it
    /// is; for another one some slot has to be vacant.
    pub fn allocate(
        &mut self,
        slots: &mut FixedThreadStorageSlots,
        initial_thread_state: ThreadState,
    )
        requires
            old(slots).wf(),
            old(self)@ is None ==> initial_thread_state.valid() && old(slots).has_room(),
        ensures
            final(slots).wf(),
            old(self)@ is Some ==> final(self)@ == old(self)@ && *final(slots) == *old(slots),
            old(self)@ is None ==> {
                &&& final(self)@ matches Some(id) && old(slots).first_vacant(id) && final(slots)@
                    == old(slots)@.update(id.0 as int, encoded(initial_thread_state))
                &&& final(self).belongs_to(*final(slots))
            },
    {
        if self.id.is_some() {
            return;
        }
        self.id = thread_storage_slot_alloc(slots, initial_thread_state);
    }

    /// Gives the slot of the thread back. A thread that owns no slot changes nothing.
    pub fn dealloc(&mut self, slots: &mut FixedThreadStorageSlots)
        requires
            old(slots).wf(),
            old(self).belongs_to(*old(slots)),
        ensures
            final(self)@ == None::<ThreadStorageSlotId>,
            final(slots).wf(),
            old(self)@ matches Some(id) ==> final(slots)@ == old(slots)@.update(
                id.0 as int,
                ThreadState::NONE_ENCODED_VALUE,
            ),
            old(self)@ is None ==> *final(slots) == *old(slots),
    {
        if let Some(id) = self.id {
            thread_storage_slot_free(slots, id);
            self.id = None;
        }
    }

    /// The id of the slot that the thread owns, if any.
    pub fn id(&self) -> (id: Option<ThreadStorageSlotId>)
        ensures
            id == self@,
    {
        self.id
    }
}

/// The first vacant slot is unique.
pub proof fn law_first_vacant_is_unique(
    slots: FixedThreadStorageSlots,
    a: ThreadStorageSlotId,
    b: ThreadStorageSlotId,
)
    requires
        slots.first_vacant(a),
        slots.first_vacant(b),
    ensures
        a == b,
{
    if a.0 < b.0 {
        assert(slots@[a.0 as int] != ThreadState::NONE_ENCODED_VALUE);
    } else if b.0 < a.0 {
        assert(slots@[b.0 as int] != ThreadState::NONE_ENCODED_VALUE);
    }
}

/// The first vacant slot is the one that is vacant while no slot before it is.
pub proof fn law_first_vacant_comes_first(slots: FixedThreadStorageSlots, id: ThreadStorageSlotId)
    requires
        slots.wf(),
        id.0 < 4096,
    ensures
        slots.first_vacant(id) <==> slots@[id.0 as int] == 0 && forall|i: int|
            0 <= i < 4096 && #[trigger] slots@[i] == 0 ==> id.0 <= i,
{
    if slots@[id.0 as int] == 0 && forall|i: int|
        0 <= i < 4096 && #[trigger] slots@[i] == 0 ==> id.0 <= i {
        assert forall|i: int| 0 <= i < id.0 implies slots@[i] != 0 by {}
    }
}

/// A table has room as long as any of its slots is vacant.
pub proof fn law_table_has_room(slots: FixedThreadStorageSlots)
    requires
        slots.wf(),
    ensures
        slots.has_room() <==> exists|i: int| 0 <= i < 4096 && #[trigger] slots@[i] == 0,
{
    if slots.has_room() {
        let i = slots@.index_of(0);
        assert(slots@[i] == 0);
    }
    if exists|i: int| 0 <= i < 4096 && #[trigger] slots@[i] == 0 {
        let i = choose|i: int| 0 <= i < 4096 && #[trigger] slots@[i] == 0;
        assert(slots@.contains(slots@[i]));
    }
}

/// A slot of the table belongs to a thread exactly if it is there and not vacant.
pub proof fn law_allocated_table_slots(slots: FixedThreadStorageSlots, id: ThreadStorageSlotId)
    requires
        slots.wf(),
    ensures
        slots.is_allocated(id) <==> id.0 < 4096 && slots@[id.0 as int] != 0,
{
}

} // verus!
