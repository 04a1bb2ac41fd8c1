use tokio_rcu::epoch::{epoch_id_inc, epoch_id_set, EpochCounter, EPOCH_ID_MAX};
use tokio_rcu::hooks::{
    is_up_to_date, on_after_task_poll, on_thread_park, on_thread_start, on_thread_stop,
    on_thread_unpark, this_thread_see_new_epoch_id, RcuRootFuture,
};
use tokio_rcu::per_thread_storage::thread_storage_slots::ThreadStorageSlots;
use tokio_rcu::per_thread_storage::{OwnedThreadStorageSlot, ThreadStorageSlotId};

struct Fixture {
    epoch: EpochCounter,
    slots: ThreadStorageSlots,
    thread: OwnedThreadStorageSlot,
}

impl Fixture {
    fn new() -> Self {
        Fixture {
            epoch: EpochCounter::new(),
            slots: ThreadStorageSlots::new(),
            thread: OwnedThreadStorageSlot::unallocated(),
        }
    }

    fn state(&self) -> u32 {
        self.slots.get(self.thread.id().unwrap()).state
    }
}

#[test]
fn started_thread_is_busy() {
    let mut f = Fixture::new();
    epoch_id_inc(&mut f.epoch).unwrap();
    assert_eq!(this_thread_see_new_epoch_id(&f.epoch), 4);
    on_thread_start(&f.epoch, &mut f.slots, &mut f.thread);
    assert_eq!(f.thread.id(), Some(ThreadStorageSlotId(0)));
    assert_eq!(f.state(), 5);
}

#[test]
fn stopped_thread_has_no_slot() {
    let mut f = Fixture::new();
    on_thread_start(&f.epoch, &mut f.slots, &mut f.thread);
    assert!(on_thread_stop(&mut f.slots, &mut f.thread));
    assert_eq!(f.thread.id(), None);
    assert_eq!(f.slots.get(ThreadStorageSlotId(0)).state, 0);
}

#[test]
fn parked_thread_keeps_its_epoch_id() {
    let mut f = Fixture::new();
    on_thread_start(&f.epoch, &mut f.slots, &mut f.thread);
    epoch_id_inc(&mut f.epoch).unwrap();
    assert!(on_thread_park(&mut f.slots, &f.thread));
    assert_eq!(f.state(), 2);
    assert!(on_thread_park(&mut f.slots, &f.thread));
    assert_eq!(f.state(), 2);
}

#[test]
fn unparked_thread_sees_the_epoch_id() {
    let mut f = Fixture::new();
    epoch_id_set(&mut f.epoch, EPOCH_ID_MAX);
    on_thread_start(&f.epoch, &mut f.slots, &mut f.thread);
    assert_eq!(f.state(), u32::MAX);
    on_thread_park(&mut f.slots, &f.thread);
    epoch_id_set(&mut f.epoch, 2);
    on_thread_unpark(&f.epoch, &mut f.slots, &f.thread);
    assert_eq!(f.state(), 3);
}

#[test]
fn polling_notifies_when_the_epoch_id_changed() {
    let mut f = Fixture::new();
    on_thread_start(&f.epoch, &mut f.slots, &mut f.thread);
    assert!(is_up_to_date(&f.epoch, &f.slots, &f.thread));
    assert!(!on_after_task_poll(&f.epoch, &mut f.slots, &f.thread));
    assert_eq!(f.state(), 3);
    epoch_id_inc(&mut f.epoch).unwrap();
    assert!(!is_up_to_date(&f.epoch, &f.slots, &f.thread));
    assert!(on_after_task_poll(&f.epoch, &mut f.slots, &f.thread));
    assert_eq!(f.state(), 5);
    assert!(!on_after_task_poll(&f.epoch, &mut f.slots, &f.thread));
    assert_eq!(f.state(), 5);
}

#[test]
fn root_future_starts_parks_and_stops_its_thread() {
    let mut f = Fixture::new();
    let mut root = RcuRootFuture::new();
    assert!(!root.has_already_been_polled());

    root.before_poll(&f.epoch, &mut f.slots, &mut f.thread);
    assert!(root.has_already_been_polled());
    assert_eq!(f.thread.id(), Some(ThreadStorageSlotId(0)));
    assert_eq!(f.state(), 3);
    assert!(root.after_poll(&f.epoch, &mut f.slots, &mut f.thread, false));
    assert_eq!(f.state(), 2);

    epoch_id_inc(&mut f.epoch).unwrap();
    root.before_poll(&f.epoch, &mut f.slots, &mut f.thread);
    assert_eq!(f.state(), 5);
    assert!(root.after_poll(&f.epoch, &mut f.slots, &mut f.thread, true));
    assert_eq!(f.thread.id(), None);
    assert_eq!(f.slots.get(ThreadStorageSlotId(0)).state, 0);
}

#[test]
fn root_future_notifies_when_it_saw_an_epoch_id() {
    let mut f = Fixture::new();
    let mut root = RcuRootFuture::new();
    root.before_poll(&f.epoch, &mut f.slots, &mut f.thread);
    epoch_id_inc(&mut f.epoch).unwrap();
    assert!(root.after_poll(&f.epoch, &mut f.slots, &mut f.thread, true));
}

#[test]
fn parked_thread_is_not_up_to_date() {
    let mut f = Fixture::new();
    on_thread_start(&f.epoch, &mut f.slots, &mut f.thread);
    on_thread_park(&mut f.slots, &f.thread);
    assert!(!is_up_to_date(&f.epoch, &f.slots, &f.thread));
    assert!(!on_after_task_poll(&f.epoch, &mut f.slots, &f.thread));
    assert_eq!(f.state(), 3);
}
