use tokio_rcu::epoch::{epoch_id_get, epoch_id_set, EpochCounter, EPOCH_ID_MAX, EPOCH_ID_MIN};
use tokio_rcu::hooks::{
    on_after_task_poll, on_thread_park, on_thread_start, on_thread_stop, on_thread_unpark,
};
use tokio_rcu::per_thread_storage::thread_storage_slots::ThreadStorageSlots;
use tokio_rcu::per_thread_storage::OwnedThreadStorageSlot;
use tokio_rcu::synchronize::{
    running_threads_have_seen_epoch_id, SeenGoal, SyncAction, SynchronizeRcu,
};

/// Some threads that have started.
struct Threads {
    epoch: EpochCounter,
    slots: ThreadStorageSlots,
    threads: Vec<OwnedThreadStorageSlot>,
}

impl Threads {
    fn new(count: usize) -> Self {
        let mut threads = Threads {
            epoch: EpochCounter::new(),
            slots: ThreadStorageSlots::new(),
            threads: Vec::new(),
        };
        for _ in 0..count {
            let mut thread = OwnedThreadStorageSlot::unallocated();
            on_thread_start(&threads.epoch, &mut threads.slots, &mut thread);
            threads.threads.push(thread);
        }
        threads
    }

    fn poll(&mut self, thread: usize) -> bool {
        on_after_task_poll(&self.epoch, &mut self.slots, &self.threads[thread])
    }

    fn park(&mut self, thread: usize) {
        assert!(on_thread_park(&mut self.slots, &self.threads[thread]));
    }

    fn unpark(&mut self, thread: usize) {
        on_thread_unpark(&self.epoch, &mut self.slots, &self.threads[thread]);
    }

    /// Whether a writer on the first thread need not wait.
    fn have_seen(&self, goal: SeenGoal) -> bool {
        running_threads_have_seen_epoch_id(&self.slots, &self.threads[0], goal)
    }

    /// Does what the wait asks for, as far as it neither sleeps nor ends.
    fn run(&mut self, sync: &mut SynchronizeRcu, thread: usize) -> SyncAction {
        loop {
            match sync.action() {
                SyncAction::Scan => sync.scan(&self.slots, &self.threads[thread]),
                SyncAction::TryAcquireShared => sync.relock(&mut self.epoch, true),
                SyncAction::Membarrier
                | SyncAction::AcquireShared
                | SyncAction::AcquireExclusive
                | SyncAction::AnnounceReset
                | SyncAction::ReleaseShared => sync.advance(&mut self.epoch),
                action => return action,
            }
        }
    }
}

#[test]
fn wait_alone_is_over_at_once() {
    let mut threads = Threads::new(1);
    let mut sync = SynchronizeRcu::new();
    let expected = [
        SyncAction::Membarrier,
        SyncAction::AcquireShared,
        SyncAction::Scan,
        SyncAction::ReleaseShared,
    ];
    for action in expected {
        assert_eq!(sync.action(), action);
        assert!(!sync.is_finished());
        if action == SyncAction::Scan {
            sync.scan(&threads.slots, &threads.threads[0]);
        } else {
            sync.advance(&mut threads.epoch);
        }
    }
    assert_eq!(sync.action(), SyncAction::Finished);
    assert!(sync.is_finished());
    assert_eq!(epoch_id_get(&threads.epoch), 4);
}

#[test]
fn busy_threads_are_waited_for() {
    let mut threads = Threads::new(3);
    let mut sync = SynchronizeRcu::new();
    assert_eq!(threads.run(&mut sync, 0), SyncAction::Sleep);
    assert!(threads.poll(1));
    sync.advance(&mut threads.epoch);
    assert_eq!(threads.run(&mut sync, 0), SyncAction::Sleep);
    assert!(threads.poll(2));
    sync.advance(&mut threads.epoch);
    assert_eq!(threads.run(&mut sync, 0), SyncAction::Finished);
    assert_eq!(epoch_id_get(&threads.epoch), 4);
}

#[test]
fn parked_and_stopped_threads_are_not_waited_for() {
    let mut threads = Threads::new(3);
    threads.park(1);
    let Threads { slots, threads: all, .. } = &mut threads;
    on_thread_stop(slots, &mut all[2]);
    let mut sync = SynchronizeRcu::new();
    assert_eq!(threads.run(&mut sync, 0), SyncAction::Finished);
}

#[test]
fn unparked_thread_has_seen_the_epoch_id() {
    let mut threads = Threads::new(2);
    threads.park(1);
    let mut sync = SynchronizeRcu::new();
    sync.advance(&mut threads.epoch);
    sync.advance(&mut threads.epoch);
    threads.unpark(1);
    assert_eq!(threads.run(&mut sync, 0), SyncAction::Finished);
}

#[test]
fn waits_share_one_quiescent_state() {
    let mut threads = Threads::new(3);
    let mut first = SynchronizeRcu::new();
    let mut second = SynchronizeRcu::new();
    assert_eq!(threads.run(&mut first, 0), SyncAction::Sleep);
    assert_eq!(threads.run(&mut second, 1), SyncAction::Sleep);
    assert_eq!(epoch_id_get(&threads.epoch), 6);
    threads.poll(0);
    threads.poll(1);
    threads.poll(2);
    first.advance(&mut threads.epoch);
    second.advance(&mut threads.epoch);
    assert_eq!(threads.run(&mut first, 0), SyncAction::Finished);
    assert_eq!(threads.run(&mut second, 1), SyncAction::Finished);
}

#[test]
fn scan_compares_what_was_seen() {
    let mut threads = Threads::new(2);
    assert!(threads.have_seen(SeenGoal::AtLeast(2)));
    assert!(!threads.have_seen(SeenGoal::AtLeast(4)));
    assert!(threads.have_seen(SeenGoal::Exactly(2)));
    epoch_id_set(&mut threads.epoch, 8);
    threads.poll(1);
    assert!(threads.have_seen(SeenGoal::AtLeast(8)));
    assert!(!threads.have_seen(SeenGoal::Exactly(2)));
    threads.park(1);
    assert!(threads.have_seen(SeenGoal::Exactly(2)));
    // a writer leaves its own thread out, unless it waits for a reset to be seen.
    threads.poll(0);
    epoch_id_set(&mut threads.epoch, 2);
    assert!(threads.have_seen(SeenGoal::AtLeast(10)));
    assert!(!threads.have_seen(SeenGoal::Exactly(2)));
    threads.poll(0);
    assert!(threads.have_seen(SeenGoal::Exactly(2)));
    assert!(SeenGoal::AtLeast(4).is_met_by(6));
    assert!(!SeenGoal::Exactly(4).is_met_by(6));
}

#[test]
fn leader_resets_the_epoch_id() {
    let mut threads = Threads::new(3);
    epoch_id_set(&mut threads.epoch, EPOCH_ID_MAX - 2);
    for thread in 0..3 {
        threads.poll(thread);
    }
    let mut leader = SynchronizeRcu::new();
    leader.advance(&mut threads.epoch);
    leader.advance(&mut threads.epoch);
    assert_eq!(leader.action(), SyncAction::AcquireExclusive);
    assert_eq!(epoch_id_get(&threads.epoch), EPOCH_ID_MAX);

    // another wait that overflows waits for the leader.
    let mut follower = SynchronizeRcu::new();
    follower.advance(&mut threads.epoch);
    follower.advance(&mut threads.epoch);
    assert_eq!(follower.action(), SyncAction::AwaitReset);

    leader.advance(&mut threads.epoch);
    assert_eq!(epoch_id_get(&threads.epoch), EPOCH_ID_MIN);
    assert_eq!(leader.action(), SyncAction::Membarrier);
    assert_eq!(threads.run(&mut leader, 0), SyncAction::Sleep);
    threads.poll(1);
    leader.advance(&mut threads.epoch);
    assert_eq!(threads.run(&mut leader, 0), SyncAction::Sleep);
    threads.park(2);
    leader.advance(&mut threads.epoch);
    assert_eq!(threads.run(&mut leader, 0), SyncAction::Sleep);
    // the thread of the leader has to see the reset as well.
    assert!(threads.poll(0));
    leader.advance(&mut threads.epoch);
    leader.scan(&threads.slots, &threads.threads[0]);
    assert_eq!(leader.action(), SyncAction::AnnounceReset);
    leader.advance(&mut threads.epoch);
    assert_eq!(leader.action(), SyncAction::TryAcquireShared);

    // the thread of the leader is busy, so the follower waits for it as for any other.
    follower.advance(&mut threads.epoch);
    assert_eq!(threads.run(&mut follower, 1), SyncAction::Sleep);
    assert_eq!(epoch_id_get(&threads.epoch), 4);
    assert!(threads.poll(0));
    follower.advance(&mut threads.epoch);
    assert_eq!(threads.run(&mut follower, 1), SyncAction::Finished);
    assert_eq!(threads.run(&mut leader, 0), SyncAction::Sleep);
    assert_eq!(epoch_id_get(&threads.epoch), 6);
    threads.poll(1);
    leader.advance(&mut threads.epoch);
    assert_eq!(threads.run(&mut leader, 0), SyncAction::Finished);
}

#[test]
fn second_reset_right_after_the_first_fails() {
    let mut threads = Threads::new(1);
    epoch_id_set(&mut threads.epoch, EPOCH_ID_MAX);
    let mut sync = SynchronizeRcu::new();
    assert_eq!(threads.run(&mut sync, 0), SyncAction::AwaitReset);
    sync.advance(&mut threads.epoch);
    assert_eq!(sync.action(), SyncAction::TryAcquireShared);
    sync.relock(&mut threads.epoch, false);
    assert_eq!(sync.action(), SyncAction::PanicResetAgain);
    assert_eq!(epoch_id_get(&threads.epoch), EPOCH_ID_MAX);
}

#[test]
fn second_overflow_right_after_a_reset_fails() {
    let mut threads = Threads::new(1);
    epoch_id_set(&mut threads.epoch, EPOCH_ID_MAX);
    let mut sync = SynchronizeRcu::new();
    assert_eq!(threads.run(&mut sync, 0), SyncAction::AwaitReset);
    sync.advance(&mut threads.epoch);
    epoch_id_set(&mut threads.epoch, EPOCH_ID_MAX - 2);
    sync.relock(&mut threads.epoch, true);
    assert_eq!(sync.action(), SyncAction::PanicOverflowAgain);
    assert!(!sync.is_finished());
}

#[test]
fn thread_that_led_a_reset_is_waited_for() {
    let mut threads = Threads::new(2);
    epoch_id_set(&mut threads.epoch, EPOCH_ID_MAX - 2);
    threads.poll(0);
    threads.poll(1);
    threads.park(1);
    let mut leader = SynchronizeRcu::new();
    assert_eq!(threads.run(&mut leader, 0), SyncAction::Sleep);
    assert_eq!(epoch_id_get(&threads.epoch), EPOCH_ID_MIN);
    threads.poll(0);
    leader.advance(&mut threads.epoch);
    assert_eq!(threads.run(&mut leader, 0), SyncAction::Finished);

    // the first thread is still busy, so a wait on the second one waits for it.
    threads.unpark(1);
    let mut sync = SynchronizeRcu::new();
    assert_eq!(threads.run(&mut sync, 1), SyncAction::Sleep);
    assert_eq!(epoch_id_get(&threads.epoch), 6);
    assert!(threads.poll(0));
    sync.advance(&mut threads.epoch);
    assert_eq!(threads.run(&mut sync, 1), SyncAction::Finished);
}
