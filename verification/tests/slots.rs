use tokio_rcu::epoch::{EpochId, EPOCH_ID_MAX, EPOCH_ID_MIN};
use tokio_rcu::per_thread_storage::cur_data::MAX_THREAD_STORAGE_SLOTS;
use tokio_rcu::per_thread_storage::thread_storage_slots::{initial_capacity, ThreadStorageSlots};
use tokio_rcu::per_thread_storage::{
    this_thread_alloc_storage_slot, this_thread_dealloc_storage_slot,
    this_thread_does_have_allocated_storage_slot, this_thread_get_storage_slot,
    this_thread_get_storage_slot_id, thread_storage_slot_get_all, OwnedThreadStorageSlot,
    ThreadStorageSlotId,
};
use tokio_rcu::thread_state::ThreadState;

fn busy(last_seen_epoch_id: EpochId) -> ThreadState {
    ThreadState { last_seen_epoch_id, is_busy: true }
}

#[test]
fn test_basic() {
    let mut slots = ThreadStorageSlots::new();
    let thread_state = ThreadState { last_seen_epoch_id: EPOCH_ID_MIN, is_busy: true };
    let slot_id = slots.allocate(thread_state);
    let read_guard = slots.read();
    assert_eq!(read_guard.get(slot_id).state, thread_state.encode());
    slots.dealloc(slot_id);
}

#[test]
fn test_multiple_allocs() {
    const NUM_ALLOCS: u16 = 1024;
    fn thread_state_by_alloc_index(alloc_index: u16) -> ThreadState {
        ThreadState { last_seen_epoch_id: ((alloc_index + 1) * 2) as EpochId, is_busy: true }
    }
    let mut slots = ThreadStorageSlots::new();
    let slot_ids: Vec<ThreadStorageSlotId> =
        (0..NUM_ALLOCS).map(|i| slots.allocate(thread_state_by_alloc_index(i))).collect();

    for i in 0..NUM_ALLOCS {
        let slot_id = slot_ids[i as usize];

        assert_eq!(slots.read().get(slot_id).state, thread_state_by_alloc_index(i).encode());
    }

    for slot in slot_ids {
        slots.dealloc(slot);
    }
}

#[test]
fn test_realloc() {
    let mut slots = ThreadStorageSlots::new();
    let thread_state = ThreadState { last_seen_epoch_id: EPOCH_ID_MIN, is_busy: true };
    let id = slots.allocate(thread_state);
    slots.dealloc(id);
    for _ in 0..128 {
        let new_id = slots.allocate(thread_state);
        assert_eq!(id, new_id);
        slots.dealloc(new_id);
    }
}

#[test]
fn slots_are_numbered_from_zero() {
    let mut slots = ThreadStorageSlots::new();
    assert_eq!(slots.read().len(), 0);
    for i in 0..200 {
        assert_eq!(slots.allocate(busy(2)), ThreadStorageSlotId(i));
        assert_eq!(slots.read().len(), i as usize + 1);
    }
}

#[test]
fn vacated_slot_is_taken_next() {
    let mut slots = ThreadStorageSlots::new();
    let a = slots.allocate(busy(2));
    let b = slots.allocate(busy(4));
    let c = slots.allocate(busy(6));
    slots.dealloc(a);
    slots.dealloc(c);
    assert_eq!(slots.read().get(a).state, ThreadState::NONE_ENCODED_VALUE);
    assert_eq!(slots.read().get(b).state, 5);
    assert_eq!(slots.allocate(busy(8)), c);
    assert_eq!(slots.allocate(busy(10)), a);
    assert_eq!(slots.read().get(c).state, 9);
    assert_eq!(slots.read().get(a).state, 11);
    assert_eq!(slots.allocate(busy(12)), ThreadStorageSlotId(3));
}

#[test]
fn dealloc_keeps_the_buffer() {
    let mut slots = ThreadStorageSlots::new();
    let id = slots.allocate(busy(2));
    slots.dealloc(id);
    assert_eq!(slots.read().len(), 1);
    assert_eq!(slots.get(id).state, ThreadState::NONE_ENCODED_VALUE);
}

#[test]
fn store_changes_one_slot() {
    let mut slots = ThreadStorageSlots::new();
    let a = slots.allocate(busy(2));
    let b = slots.allocate(busy(2));
    slots.store(b, ThreadState { last_seen_epoch_id: EPOCH_ID_MAX, is_busy: false }.encode());
    assert_eq!(slots.get(a).state, 3);
    assert_eq!(slots.get(b).state, 0xffff_fffe);
}

#[test]
fn room_ends_at_the_largest_number_of_slots() {
    let mut slots = ThreadStorageSlots::new();
    for i in 0..MAX_THREAD_STORAGE_SLOTS {
        assert!(slots.has_room());
        assert_eq!(slots.allocate(busy(2)), ThreadStorageSlotId(i as u16));
    }
    assert_eq!(slots.read().len(), 65534);
    assert!(!slots.has_room());
    slots.dealloc(ThreadStorageSlotId(777));
    assert!(slots.has_room());
    assert_eq!(slots.allocate(busy(4)), ThreadStorageSlotId(777));
    assert!(!slots.has_room());
}

#[test]
fn space_for_the_main_thread_is_set_aside() {
    assert_eq!(initial_capacity(1), 2);
    assert_eq!(initial_capacity(20), 21);
    assert_eq!(initial_capacity(65533), 65534);
    assert_eq!(initial_capacity(65534), 65535);
    assert_eq!(initial_capacity(1_000_000), 1_000_001);
}

#[test]
fn thread_gets_a_slot_once() {
    let mut slots = ThreadStorageSlots::new();
    let mut this_thread = OwnedThreadStorageSlot::unallocated();
    assert_eq!(this_thread.id(), None);
    assert!(!this_thread_does_have_allocated_storage_slot(&this_thread));
    let id = this_thread.allocate(&mut slots, busy(2));
    assert_eq!(id, ThreadStorageSlotId(0));
    assert_eq!(this_thread.id(), Some(id));
    assert!(this_thread_does_have_allocated_storage_slot(&this_thread));
    assert_eq!(this_thread.allocate(&mut slots, busy(6)), id);
    assert_eq!(slots.get(id).state, 3);
    assert_eq!(slots.read().len(), 1);
    this_thread.dealloc(&mut slots);
    assert_eq!(this_thread.id(), None);
    assert_eq!(slots.get(id).state, 0);
    this_thread.dealloc(&mut slots);
    assert_eq!(this_thread.id(), None);
}

#[test]
fn thread_finds_its_slot() {
    let mut slots = ThreadStorageSlots::new();
    let mut other = OwnedThreadStorageSlot::unallocated();
    let mut this_thread = OwnedThreadStorageSlot::unallocated();
    this_thread_alloc_storage_slot(&mut slots, &mut other, busy(2));
    let id = this_thread_alloc_storage_slot(&mut slots, &mut this_thread, busy(10));
    assert_eq!(id, ThreadStorageSlotId(1));
    assert_eq!(this_thread_get_storage_slot_id(&this_thread), id);
    assert_eq!(this_thread_get_storage_slot(&slots, &this_thread).state, 11);
    assert_eq!(thread_storage_slot_get_all(&slots).get(id).state, 11);
    assert_eq!(thread_storage_slot_get_all(&slots).len(), 2);
    this_thread_dealloc_storage_slot(&mut slots, &mut this_thread);
    assert!(!this_thread_does_have_allocated_storage_slot(&this_thread));
    assert!(this_thread_does_have_allocated_storage_slot(&other));
}
