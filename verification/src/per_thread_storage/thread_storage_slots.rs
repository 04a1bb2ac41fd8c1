//! A growing buffer of storage slots, one for each thread that takes part in the bookkeeping.
use vstd::prelude::*;

use crate::per_thread_storage::cur_data::{
    num_cpus_get, ThreadStorageSlotsCurData, MAX_THREAD_STORAGE_SLOTS,
};
use crate::per_thread_storage::{ThreadStorageSlotId, ThreadStorageSlotValue};
use crate::thread_state::{encoded, valid_encoded, EncodedThreadState, ThreadState};

verus! {

/// The contents of the storage slots.
#[verifier::ext_equal]
pub ghost struct SlotsView {
    /// The encoded state in each slot, by slot index. A vacant slot holds
    /// `ThreadState::NONE_ENCODED_VALUE`.
    pub states: Seq<EncodedThreadState>,
    /// The vacant slots; the one that was vacated last comes last, and is taken first.
    pub free: Seq<ThreadStorageSlotId>,
}

impl SlotsView {
    /// No slot at all.
    pub open spec fn empty() -> Self {
        SlotsView { states: Seq::empty(), free: Seq::empty() }
    }

    /// The vacant slots are exactly those that are listed as free, each once; every other slot
    /// holds the packed form of a thread state.
    pub open spec fn wf(self) -> bool {
        &&& self.states.len() <= MAX_THREAD_STORAGE_SLOTS
        &&& forall|i: int|
            0 <= i < self.states.len() ==> valid_encoded(#[trigger] self.states[i])
        &&& forall|k: int|
            0 <= k < self.free.len() ==> (#[trigger] self.free[k]).0 < self.states.len()
                && self.states[self.free[k].0 as int] == ThreadState::NONE_ENCODED_VALUE
        &&& forall|k: int, l: int|
            0 <= k < l < self.free.len() ==> #[trigger] self.free[k] != #[trigger] self.free[l]
        &&& forall|i: int|
            0 <= i < self.states.len() && #[trigger] self.states[i]
                == ThreadState::NONE_ENCODED_VALUE ==> self.free.contains(
                ThreadStorageSlotId(i as u16),
            )
    }

    /// Whether the slot belongs to some thread.
    pub open spec fn is_allocated(self, id: ThreadStorageSlotId) -> bool {
        id.0 < self.states.len() && self.states[id.0 as int] != ThreadState::NONE_ENCODED_VALUE
    }

    /// The slots that belong to some thread.
    pub open spec fn allocated(self) -> Set<ThreadStorageSlotId> {
        Set::new(|id: ThreadStorageSlotId| self.is_allocated(id))
    }

    /// Whether one thread more can be given a slot.
    pub open spec fn has_room(self) -> bool {
        self.free.len() > 0 || self.states.len() < MAX_THREAD_STORAGE_SLOTS
    }

    /// The slot that is given to the next thread: the slot vacated last, or else a new one.
    pub open spec fn next_slot(self) -> ThreadStorageSlotId {
        if self.free.len() > 0 {
            self.free.last()
        } else {
            ThreadStorageSlotId(self.states.len() as u16)
        }
    }

    /// The slots after the next slot was given to a thread with the given encoded state.
    pub open spec fn with_allocated(self, state: EncodedThreadState) -> Self {
        if self.free.len() > 0 {
            SlotsView {
                states: self.states.update(self.free.last().0 as int, state),
                free: self.free.drop_last(),
            }
        } else {
            SlotsView { states: self.states.push(state), free: self.free }
        }
    }

    /// The slots after the thread that owned `id` gave it back.
    pub open spec fn with_deallocated(self, id: ThreadStorageSlotId) -> Self {
        SlotsView {
            states: self.states.update(id.0 as int, ThreadState::NONE_ENCODED_VALUE),
            free: self.free.push(id),
        }
    }

    /// The slots after the thread that owns `id` published a new state.
    pub open spec fn with_stored(self, id: ThreadStorageSlotId, state: EncodedThreadState) -> Self {
        SlotsView { states: self.states.update(id.0 as int, state), free: self.free }
    }
}

/// How many slots to set aside space for on a machine with `cpus` CPUs: one for each worker thread
/// and one for the main thread.
pub fn initial_capacity(cpus: usize) -> (capacity: usize)
    requires
        cpus < usize::MAX,
    ensures
        capacity == cpus + 1,
{
    cpus + 1
}

/// The storage slots of all threads that take part in the bookkeeping.
pub struct ThreadStorageSlots {
    cur_data: ThreadStorageSlotsCurData,
    free_slots: Vec<ThreadStorageSlotId>,
}

impl View for ThreadStorageSlots {
    type V = SlotsView;

    closed spec fn view(&self) -> SlotsView {
        SlotsView { states: self.cur_data@, free: self.free_slots@ }
    }
}

impl ThreadStorageSlots {
    /// Whether the vacant slots are listed as free, and no others are.
    pub open spec fn wf(self) -> bool {
        self@.wf()
    }

    /// No slot at all.
    pub fn new() -> (slots: Self)
        ensures
            slots@ == SlotsView::empty(),
            slots.wf(),
    {
        ThreadStorageSlots { cur_data: ThreadStorageSlotsCurData::new(), free_slots: Vec::new() }
    }

    /// Access to the states in all slots.
    pub fn read(&self) -> (guard: ThreadStorageSlotsReadGuard<'_>)
        ensures
            guard@ == self@.states,
    {
        ThreadStorageSlotsReadGuard { origin: self }
    }

    /// Whether one thread more can be given a slot.
    pub fn has_room(&self) -> (res: bool)
        ensures
            res == self@.has_room(),
    {
        self.free_slots.len() > 0 || self.cur_data.len() < MAX_THREAD_STORAGE_SLOTS
    }

    /// Gives a slot to a thread. From the start the slot holds the thread's initial state.
    ///
    /// There has to be room: the number of slots is limited by their ids.
    pub fn allocate(&mut self, initial_thread_state: ThreadState) -> (id: ThreadStorageSlotId)
        requires
            old(self).wf(),
            initial_thread_state.valid(),
            old(self)@.has_room(),
        ensures
            id == old(self)@.next_slot(),
            final(self)@ == old(self)@.with_allocated(encoded(initial_thread_state)),
            final(self).wf(),
            !old(self)@.allocated().contains(id),
            final(self)@.allocated() == old(self)@.allocated().insert(id),
    {
        let encoded_initial_thread_state: EncodedThreadState = initial_thread_state.encode();
        proof {
            lemma_with_allocated(self@, encoded_initial_thread_state);
        }
        match self.free_slots.pop() {
            Some(free_slot_id) => {
                self.alloc_from_free_slot(encoded_initial_thread_state, free_slot_id)
            },
            None => self.alloc_no_free_slots(encoded_initial_thread_state),
        }
    }

    /// Gives a slot of the buffer, which was just taken off the list of free ones, to a thread.
    fn alloc_from_free_slot(
        &mut self,
        encoded_initial_thread_state: EncodedThreadState,
        free_slot_id: ThreadStorageSlotId,
    ) -> (id: ThreadStorageSlotId)
        requires
            old(self)@.states.len() <= MAX_THREAD_STORAGE_SLOTS,
            free_slot_id.0 < old(self)@.states.len(),
        ensures
            id == free_slot_id,
            final(self)@ == old(self)@.with_stored(free_slot_id, encoded_initial_thread_state),
    {
        self.cur_data.set(free_slot_id.0, encoded_initial_thread_state);
        free_slot_id
    }

    /// Gives a new slot to a thread, where no slot of the buffer is free.
    fn alloc_no_free_slots(&mut self, encoded_initial_thread_state: EncodedThreadState) -> (id:
        ThreadStorageSlotId)
        requires
            old(self)@.states.len() < MAX_THREAD_STORAGE_SLOTS,
        ensures
            id.0 == old(self)@.states.len(),
            final(self)@.states == old(self)@.states.push(encoded_initial_thread_state),
            final(self)@.free == old(self)@.free,
    {
        if self.cur_data.capacity() == 0 {
            self.alloc_no_cur_data(encoded_initial_thread_state)
        } else {
            self.alloc_no_free_slots_grow_cur_data(encoded_initial_thread_state)
        }
    }

    /// Gives the first slot of a new buffer to a thread, where there was no buffer. The new buffer
    /// has space for as many threads as the runtime usually starts on this machine.
    fn alloc_no_cur_data(&mut self, new_slot_value: EncodedThreadState) -> (id: ThreadStorageSlotId)
        requires
            old(self)@.states.len() == 0,
        ensures
            id.0 == 0,
            final(self)@.states == seq![new_slot_value],
            final(self)@.free == old(self)@.free,
    {
        let cpus: usize = num_cpus_get();
        // a buffer takes at most half of the address space, at four bytes for each slot. nothing is set
        // aside for more CPUs than that.
        let mut new_data = if cpus < isize::MAX as usize / 4 {
            ThreadStorageSlotsCurData::with_capacity(initial_capacity(cpus))
        } else {
            ThreadStorageSlotsCurData::new()
        };
        let _ = new_data.push(new_slot_value);
        self.cur_data = new_data;
        ThreadStorageSlotId(0)
    }

    /// Gives a new slot at the end of the buffer to a thread, growing the buffer where it has no
    /// space left.
    fn alloc_no_free_slots_grow_cur_data(&mut self, new_slot_value: EncodedThreadState) -> (id:
        ThreadStorageSlotId)
        requires
            old(self)@.states.len() < MAX_THREAD_STORAGE_SLOTS,
        ensures
            id.0 == old(self)@.states.len(),
            final(self)@.states == old(self)@.states.push(new_slot_value),
            final(self)@.free == old(self)@.free,
    {
        let len: usize = self.cur_data.len();
        if branches::likely(len < self.cur_data.capacity()) {
            match self.cur_data.try_push(new_slot_value) {
                Ok(index) => ThreadStorageSlotId(index as u16),
                Err(_) => {
                    assert(false);
                    ThreadStorageSlotId(0)
                },
            }
        } else {
            let index: usize = self.cur_data.push(new_slot_value);
            ThreadStorageSlotId(index as u16)
        }
    }

    /// Takes the slot back from the thread that owns it.
    pub fn dealloc(&mut self, slot_id: ThreadStorageSlotId)
        requires
            old(self).wf(),
            old(self)@.is_allocated(slot_id),
        ensures
            final(self)@ == old(self)@.with_deallocated(slot_id),
            final(self).wf(),
            final(self)@.allocated() == old(self)@.allocated().remove(slot_id),
    {
        proof {
            lemma_with_deallocated(self@, slot_id);
        }
        self.cur_data.set(slot_id.0, ThreadState::NONE_ENCODED_VALUE);
        self.free_slots.push(slot_id);
    }

    /// The slot that a thread owns.
    pub fn get(&self, id: ThreadStorageSlotId) -> (slot: ThreadStorageSlotValue)
        requires
            self.wf(),
            id.0 < self@.states.len(),
        ensures
            slot.state == self@.states[id.0 as int],
    {
        ThreadStorageSlotValue { state: self.cur_data.get(id.0) }
    }

    /// Publishes a new state of the thread that owns the slot.
    pub fn store(&mut self, id: ThreadStorageSlotId, state: EncodedThreadState)
        requires
            old(self).wf(),
            old(self)@.is_allocated(id),
            valid_encoded(state),
            state != ThreadState::NONE_ENCODED_VALUE,
        ensures
            final(self)@ == old(self)@.with_stored(id, state),
            final(self).wf(),
            final(self)@.allocated() == old(self)@.allocated(),
    {
        proof {
            lemma_with_stored(self@, id, state);
        }
        self.cur_data.set(id.0, state);
    }
}

/// Access to the states in all storage slots.
pub struct ThreadStorageSlotsReadGuard<'a> {
    origin: &'a ThreadStorageSlots,
}

impl<'a> View for ThreadStorageSlotsReadGuard<'a> {
    type V = Seq<EncodedThreadState>;

    closed spec fn view(&self) -> Seq<EncodedThreadState> {
        self.origin@.states
    }
}

impl<'a> ThreadStorageSlotsReadGuard<'a> {
    /// The number of slots, vacant ones counted in.
    pub fn len(&self) -> (len: usize)
        ensures
            len == self@.len(),
    {
        self.origin.cur_data.len()
    }

    /// The slot with the given id.
    pub fn get(&self, id: ThreadStorageSlotId) -> (slot: ThreadStorageSlotValue)
        requires
            id.0 < self@.len() <= MAX_THREAD_STORAGE_SLOTS,
        ensures
            slot.state == self@[id.0 as int],
    {
        ThreadStorageSlotValue { state: self.origin.cur_data.get(id.0) }
    }
}

/// Giving a slot to a thread keeps the slots in order, and adds that one slot to those that belong
/// to a thread.
pub proof fn lemma_with_allocated(slots: SlotsView, state: EncodedThreadState)
    requires
        slots.wf(),
        slots.has_room(),
        valid_encoded(state),
        state != ThreadState::NONE_ENCODED_VALUE,
    ensures
        slots.with_allocated(state).wf(),
        !slots.is_allocated(slots.next_slot()),
        slots.with_allocated(state).is_allocated(slots.next_slot()),
        slots.with_allocated(state).states[slots.next_slot().0 as int] == state,
        slots.with_allocated(state).allocated() == slots.allocated().insert(slots.next_slot()),
{
    let id = slots.next_slot();
    let after = slots.with_allocated(state);
    if slots.free.len() > 0 {
        assert(slots.free[slots.free.len() - 1] == id);
        assert forall|i: int|
            0 <= i < after.states.len() && #[trigger] after.states[i]
                == ThreadState::NONE_ENCODED_VALUE implies after.free.contains(
            ThreadStorageSlotId(i as u16),
        ) by {
            assert(slots.states[i] == ThreadState::NONE_ENCODED_VALUE);
            let k = choose|k: int|
                0 <= k < slots.free.len() && slots.free[k] == ThreadStorageSlotId(i as u16);
            assert(after.free[k] == ThreadStorageSlotId(i as u16));
        }
    } else {
        assert forall|i: int|
            0 <= i < after.states.len() && #[trigger] after.states[i]
                == ThreadState::NONE_ENCODED_VALUE implies after.free.contains(
            ThreadStorageSlotId(i as u16),
        ) by {
            assert(slots.states[i] == ThreadState::NONE_ENCODED_VALUE);
        }
    }
    assert(after.allocated() =~= slots.allocated().insert(id));
}

/// Taking a slot back keeps the slots in order, and removes that one slot from those that belong to
/// a thread.
pub proof fn lemma_with_deallocated(slots: SlotsView, id: ThreadStorageSlotId)
    requires
        slots.wf(),
        slots.is_allocated(id),
    ensures
        slots.with_deallocated(id).wf(),
        slots.with_deallocated(id).allocated() == slots.allocated().remove(id),
{
    let after = slots.with_deallocated(id);
    assert forall|i: int|
        0 <= i < after.states.len() && #[trigger] after.states[i]
            == ThreadState::NONE_ENCODED_VALUE implies after.free.contains(
        ThreadStorageSlotId(i as u16),
    ) by {
        if i == id.0 {
            assert(after.free[slots.free.len() as int] == ThreadStorageSlotId(i as u16));
        } else {
            assert(slots.states[i] == ThreadState::NONE_ENCODED_VALUE);
            let k = choose|k: int|
                0 <= k < slots.free.len() && slots.free[k] == ThreadStorageSlotId(i as u16);
            assert(after.free[k] == ThreadStorageSlotId(i as u16));
        }
    }
    assert(after.allocated() =~= slots.allocated().remove(id));
}

/// Publishing a state keeps the slots in order, and leaves the slots that belong to a thread as
/// they are.
pub proof fn lemma_with_stored(slots: SlotsView, id: ThreadStorageSlotId, state: EncodedThreadState)
    requires
        slots.wf(),
        slots.is_allocated(id),
        valid_encoded(state),
        state != ThreadState::NONE_ENCODED_VALUE,
    ensures
        slots.with_stored(id, state).wf(),
        slots.with_stored(id, state).allocated() == slots.allocated(),
{
    let after = slots.with_stored(id, state);
    assert forall|i: int|
        0 <= i < after.states.len() && #[trigger] after.states[i]
            == ThreadState::NONE_ENCODED_VALUE implies after.free.contains(
        ThreadStorageSlotId(i as u16),
    ) by {
        assert(slots.states[i] == ThreadState::NONE_ENCODED_VALUE);
    }
    assert(after.allocated() =~= slots.allocated());
}

/// A slot that was just given back is the next one to be given out.
pub proof fn law_vacated_slot_is_taken_next(slots: SlotsView, id: ThreadStorageSlotId)
    requires
        slots.wf(),
        slots.is_allocated(id),
    ensures
        slots.with_deallocated(id).has_room(),
        slots.with_deallocated(id).next_slot() == id,
{
}

/// Giving a slot back and taking it again is the same as publishing the new state.
pub proof fn law_allocate_after_dealloc(
    slots: SlotsView,
    id: ThreadStorageSlotId,
    state: EncodedThreadState,
)
    requires
        slots.wf(),
        slots.is_allocated(id),
    ensures
        slots.with_deallocated(id).with_allocated(state) == slots.with_stored(id, state),
{
    assert(slots.with_deallocated(id).with_allocated(state) =~= slots.with_stored(id, state));
}

/// Giving back the slot that was just taken undoes the taking, except that a slot that was new
/// stays in the buffer, vacant.
pub proof fn law_dealloc_after_allocate(slots: SlotsView, state: EncodedThreadState)
    requires
        slots.wf(),
        slots.has_room(),
    ensures
        slots.with_allocated(state).with_deallocated(slots.next_slot()) == if slots.free.len() > 0 {
            slots
        } else {
            SlotsView {
                states: slots.states.push(ThreadState::NONE_ENCODED_VALUE),
                free: seq![slots.next_slot()],
            }
        },
{
    if slots.free.len() > 0 {
        assert(slots.free[slots.free.len() - 1] == slots.next_slot());
        assert(slots.states[slots.next_slot().0 as int] == ThreadState::NONE_ENCODED_VALUE);
        assert(slots.with_allocated(state).with_deallocated(slots.next_slot()) =~= slots);
    } else {
        assert(slots.with_allocated(state).with_deallocated(slots.next_slot()).states
            =~= slots.states.push(ThreadState::NONE_ENCODED_VALUE));
        assert(slots.with_allocated(state).with_deallocated(slots.next_slot()).free =~= seq![
            slots.next_slot(),
        ]);
    }
}

/// Taking a slot, giving one back and publishing a state leave the states in all other slots as
/// they are.
pub proof fn law_other_slots_are_unaffected(
    slots: SlotsView,
    id: ThreadStorageSlotId,
    state: EncodedThreadState,
    other: ThreadStorageSlotId,
)
    requires
        slots.wf(),
        slots.is_allocated(id),
        other.0 < slots.states.len(),
    ensures
        slots.has_room() && other != slots.next_slot() ==> slots.with_allocated(
            state,
        ).states[other.0 as int] == slots.states[other.0 as int],
        other != id ==> slots.with_deallocated(id).states[other.0 as int]
            == slots.states[other.0 as int],
        other != id ==> slots.with_stored(id, state).states[other.0 as int]
            == slots.states[other.0 as int],
{
}

/// What is published in a slot is what is read there: after the slot was given to a thread, and after
/// the thread published a state, it holds that state, and after it was given back it is vacant.
pub proof fn law_slot_holds_what_was_published(
    slots: SlotsView,
    id: ThreadStorageSlotId,
    state: EncodedThreadState,
)
    requires
        slots.wf(),
        slots.is_allocated(id),
    ensures
        slots.with_stored(id, state).states[id.0 as int] == state,
        slots.with_stored(id, state).free == slots.free,
        slots.with_deallocated(id).states[id.0 as int] == 0,
        slots.has_room() ==> slots.with_allocated(state).states[slots.next_slot().0 as int] == state,
{
    if slots.free.len() > 0 {
        assert(slots.free[slots.free.len() - 1] == slots.next_slot());
    }
}

/// The buffer never shrinks, and grows by one slot exactly if a slot is given out while none is vacant.
pub proof fn law_buffer_grows_only_when_needed(
    slots: SlotsView,
    id: ThreadStorageSlotId,
    state: EncodedThreadState,
)
    requires
        slots.wf(),
        slots.is_allocated(id),
    ensures
        slots.with_stored(id, state).states.len() == slots.states.len(),
        slots.with_deallocated(id).states.len() == slots.states.len(),
        slots.with_allocated(state).states.len() - slots.states.len() == if (exists|i: int|
            0 <= i < slots.states.len() && #[trigger] slots.states[i] == 0) {
            0int
        } else {
            1int
        },
{
    if slots.free.len() > 0 {
        let i = slots.free[slots.free.len() - 1].0 as int;
        assert(slots.states[i] == 0);
    }
}

/// There is room for one thread more exactly if some slot is vacant, or there are fewer slots than can
/// be counted.
pub proof fn law_room(slots: SlotsView)
    requires
        slots.wf(),
    ensures
        slots.has_room() <==> slots.states.len() < 65534 || exists|i: int|
            0 <= i < slots.states.len() && #[trigger] slots.states[i] == 0,
{
    if slots.free.len() > 0 {
        let i = slots.free[slots.free.len() - 1].0 as int;
        assert(slots.states[i] == 0);
    }
}

/// A thread never gets a slot that belongs to another one, and where no slot is vacant it gets the one
/// after all others.
pub proof fn law_next_slot_is_vacant(slots: SlotsView)
    requires
        slots.wf(),
        slots.has_room(),
    ensures
        slots.next_slot().0 <= slots.states.len(),
        slots.next_slot().0 < slots.states.len() ==> slots.states[slots.next_slot().0 as int] == 0,
        slots.next_slot().0 == slots.states.len() <==> forall|i: int|
            0 <= i < slots.states.len() ==> #[trigger] slots.states[i] != 0,
        slots.next_slot().0 < 65534,
{
    if slots.free.len() > 0 {
        let i = slots.free[slots.free.len() - 1].0 as int;
        assert(slots.states[i] == 0);
    }
}

/// Slots that were given back are given out again in the reverse order.
pub proof fn law_slots_are_reused_in_reverse(
    slots: SlotsView,
    a: ThreadStorageSlotId,
    b: ThreadStorageSlotId,
    state: EncodedThreadState,
)
    requires
        slots.wf(),
        slots.is_allocated(a),
        slots.is_allocated(b),
        a != b,
    ensures
        slots.with_deallocated(a).with_deallocated(b).next_slot() == b,
        slots.with_deallocated(a).with_deallocated(b).with_allocated(state).next_slot() == a,
{
    assert(slots.with_deallocated(a).with_deallocated(b).with_allocated(state).free
        =~= slots.with_deallocated(a).free);
}

/// A slot belongs to a thread exactly if it is there and not vacant.
pub proof fn law_allocated_slots(slots: SlotsView, id: ThreadStorageSlotId)
    ensures
        slots.is_allocated(id) <==> id.0 < slots.states.len() && slots.states[id.0 as int] != 0,
        slots.allocated().contains(id) <==> slots.is_allocated(id),
        SlotsView::empty().wf(),
        !SlotsView::empty().is_allocated(id),
{
}

} // verus!
