use tokio_rcu::fixed_thread_storage::{
    thread_storage_slot_alloc, thread_storage_slot_free, thread_storage_slot_get,
    thread_storage_slot_get_all, FixedThreadStorageSlots, OwnedThreadStorageSlot,
    MAX_CONCURRENT_THREADS,
};
use tokio_rcu::per_thread_storage::ThreadStorageSlotId;
use tokio_rcu::thread_state::ThreadState;

const STATE: ThreadState = ThreadState { last_seen_epoch_id: 8, is_busy: true };

#[test]
fn new_table_is_vacant() {
    let slots = FixedThreadStorageSlots::new();
    let all = thread_storage_slot_get_all(&slots);
    assert_eq!(all.len(), 4096);
    for (i, (id, slot)) in all.into_iter().enumerate() {
        assert_eq!(id, ThreadStorageSlotId(i as u16));
        assert_eq!(slot.state, ThreadState::NONE_ENCODED_VALUE);
    }
}

#[test]
fn first_vacant_slot_is_taken() {
    let mut slots = FixedThreadStorageSlots::new();
    for i in 0..5 {
        assert_eq!(thread_storage_slot_alloc(&mut slots, STATE), Some(ThreadStorageSlotId(i)));
    }
    thread_storage_slot_free(&mut slots, ThreadStorageSlotId(3));
    thread_storage_slot_free(&mut slots, ThreadStorageSlotId(1));
    assert_eq!(thread_storage_slot_get(&slots, ThreadStorageSlotId(1)).state, 0);
    assert_eq!(thread_storage_slot_get(&slots, ThreadStorageSlotId(2)).state, 9);
    assert_eq!(thread_storage_slot_alloc(&mut slots, STATE), Some(ThreadStorageSlotId(1)));
    assert_eq!(thread_storage_slot_alloc(&mut slots, STATE), Some(ThreadStorageSlotId(3)));
    assert_eq!(thread_storage_slot_alloc(&mut slots, STATE), Some(ThreadStorageSlotId(5)));
}

#[test]
fn full_table_has_no_slot() {
    let mut slots = FixedThreadStorageSlots::new();
    for i in 0..MAX_CONCURRENT_THREADS {
        assert_eq!(
            thread_storage_slot_alloc(&mut slots, STATE),
            Some(ThreadStorageSlotId(i as u16))
        );
    }
    assert_eq!(thread_storage_slot_alloc(&mut slots, STATE), None);
    thread_storage_slot_free(&mut slots, ThreadStorageSlotId(4095));
    assert_eq!(thread_storage_slot_alloc(&mut slots, STATE), Some(ThreadStorageSlotId(4095)));
}

#[test]
fn owner_of_a_table_slot_keeps_it() {
    let mut slots = FixedThreadStorageSlots::new();
    let mut owned = OwnedThreadStorageSlot::unallocated();
    assert_eq!(owned.id(), None);
    owned.allocate(&mut slots, STATE);
    assert_eq!(owned.id(), Some(ThreadStorageSlotId(0)));
    owned.allocate(&mut slots, ThreadState { last_seen_epoch_id: 20, is_busy: false });
    assert_eq!(owned.id(), Some(ThreadStorageSlotId(0)));
    assert_eq!(thread_storage_slot_get(&slots, ThreadStorageSlotId(0)).state, 9);
    owned.dealloc(&mut slots);
    assert_eq!(owned.id(), None);
    assert_eq!(thread_storage_slot_get(&slots, ThreadStorageSlotId(0)).state, 0);
    owned.dealloc(&mut slots);
    assert_eq!(owned.id(), None);
}
