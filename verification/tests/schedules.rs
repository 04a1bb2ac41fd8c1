use tokio_rcu::epoch::{epoch_id_get, epoch_id_set, EpochCounter, EPOCH_ID_MAX};
use tokio_rcu::hooks::{on_after_task_poll, on_thread_park, on_thread_start, on_thread_unpark};
use tokio_rcu::per_thread_storage::thread_storage_slots::ThreadStorageSlots;
use tokio_rcu::per_thread_storage::OwnedThreadStorageSlot;
use tokio_rcu::rcu::Rcu;
use tokio_rcu::reclamation::Reclamation;
use tokio_rcu::synchronize::SyncAction;

const NUM_THREADS: usize = 8;

/// How a wait holds the lock that keeps resets and waits apart.
#[derive(Debug, Clone, Copy, PartialEq, Eq)]
enum Lock {
    Unlocked,
    Shared,
    Exclusive,
}

/// A thread that reads and writes in turn.
struct Thread {
    slot: OwnedThreadStorageSlot,
    is_parked: bool,
    held: Vec<u64>,
    reclamation: Option<Reclamation<Box<u64>>>,
    lock: Lock,
    awaits_reset: bool,
}

/// Pseudo-random numbers.
struct Random(u64);

impl Random {
    fn below(&mut self, bound: u64) -> u64 {
        self.0 = self.0.wrapping_mul(6364136223846793005).wrapping_add(1442695040888963407);
        (self.0 >> 33) % bound
    }
}

struct Schedule {
    random: Random,
    epoch: EpochCounter,
    slots: ThreadStorageSlots,
    data: Rcu<u64>,
    last_version: u64,
    num_reclaimed: u64,
    num_resets: u64,
    threads: Vec<Thread>,
}

impl Schedule {
    fn new(seed: u64, first_epoch_id: u32) -> Self {
        let mut epoch = EpochCounter::new();
        epoch_id_set(&mut epoch, first_epoch_id);
        let mut slots = ThreadStorageSlots::new();
        let mut threads = Vec::new();
        for _ in 0..NUM_THREADS {
            let mut slot = OwnedThreadStorageSlot::unallocated();
            on_thread_start(&epoch, &mut slots, &mut slot);
            threads.push(Thread {
                slot,
                is_parked: false,
                held: Vec::new(),
                reclamation: None,
                lock: Lock::Unlocked,
                awaits_reset: false,
            });
        }
        Schedule {
            random: Random(seed),
            epoch,
            slots,
            data: Rcu::new(Box::new(0)),
            last_version: 0,
            num_reclaimed: 0,
            num_resets: 0,
            threads,
        }
    }

    fn others_hold(&self, current: usize, lock: Lock) -> bool {
        (0..NUM_THREADS).any(|i| i != current && self.threads[i].lock == lock)
    }

    /// Takes the wait of the current thread one step further, if it is not held up.
    fn step_wait(&mut self, current: usize, reclamation: &mut Reclamation<Box<u64>>) {
        let others_share = self.others_hold(current, Lock::Shared);
        let others_exclude = self.others_hold(current, Lock::Exclusive);
        match reclamation.action() {
            SyncAction::Scan => {
                reclamation.scan(&self.slots, &self.threads[current].slot);
                return;
            }
            SyncAction::TryAcquireShared => {
                if !others_exclude {
                    self.threads[current].lock = Lock::Shared;
                }
                reclamation.relock(&mut self.epoch, !others_exclude);
                return;
            }
            SyncAction::AcquireShared => {
                if others_exclude {
                    return;
                }
                self.threads[current].lock = Lock::Shared;
            }
            SyncAction::AcquireExclusive => {
                self.threads[current].lock = Lock::Unlocked;
                if others_exclude || others_share {
                    return;
                }
                self.threads[current].lock = Lock::Exclusive;
                self.num_resets += 1;
            }
            SyncAction::AwaitReset => {
                if self.threads[current].lock == Lock::Shared {
                    self.threads[current].lock = Lock::Unlocked;
                    self.threads[current].awaits_reset = true;
                }
                if self.threads[current].awaits_reset {
                    return;
                }
            }
            SyncAction::AnnounceReset => {
                self.threads[current].lock = Lock::Unlocked;
                for thread in &mut self.threads {
                    thread.awaits_reset = false;
                }
            }
            SyncAction::ReleaseShared => self.threads[current].lock = Lock::Unlocked,
            SyncAction::PanicResetAgain | SyncAction::PanicOverflowAgain => panic!("reset again"),
            SyncAction::Membarrier | SyncAction::Sleep | SyncAction::Finished => {}
        }
        reclamation.advance(&mut self.epoch);
    }

    /// Lets a thread do something.
    fn step(&mut self) {
        let current = self.random.below(NUM_THREADS as u64) as usize;
        if self.threads[current].is_parked {
            on_thread_unpark(&self.epoch, &mut self.slots, &self.threads[current].slot);
            self.threads[current].is_parked = false;
            return;
        }
        match self.random.below(4) {
            0 => {
                let value = *self.data.read(&self.threads[current].slot);
                self.threads[current].held.push(value);
            }
            1 => {
                // the task yields, so it holds no reference any more.
                self.threads[current].held.clear();
                on_after_task_poll(&self.epoch, &mut self.slots, &self.threads[current].slot);
                if self.random.below(4) == 0 {
                    assert!(on_thread_park(&mut self.slots, &self.threads[current].slot));
                    self.threads[current].is_parked = true;
                }
            }
            _ => {
                // references are not held over a point where a task waits.
                self.threads[current].held.clear();
                match self.threads[current].reclamation.take() {
                    None => {
                        self.last_version += 1;
                        let new_value = Box::new(self.last_version);
                        self.threads[current].reclamation = Some(self.data.swap(new_value));
                    }
                    Some(mut reclamation) => {
                        self.step_wait(current, &mut reclamation);
                        if reclamation.is_finished() {
                            let old = reclamation.finish();
                            self.num_reclaimed += 1;
                            assert!(self.threads.iter().all(|other| !other.held.contains(&old)));
                        } else {
                            self.threads[current].reclamation = Some(reclamation);
                        }
                    }
                }
            }
        }
    }
}

#[test]
fn no_used_data_is_reclaimed_in_random_schedules() {
    let mut schedule = Schedule::new(1, 2);
    for _ in 0..200_000 {
        schedule.step();
    }
    assert!(schedule.num_reclaimed > 1000);
    assert_eq!(schedule.num_resets, 0);
    // every wait but those that have just begun has incremented the epoch id once.
    let increments = (epoch_id_get(&schedule.epoch) as u64 - 2) / 2;
    assert!(increments <= schedule.last_version && schedule.last_version <= increments + 8);
}

#[test]
fn no_used_data_is_reclaimed_around_resets() {
    for seed in 0..500 {
        let mut schedule = Schedule::new(seed, EPOCH_ID_MAX - 2 * (seed as u32 % 20));
        // where the epoch id starts at its largest value, there is no leader.
        if epoch_id_get(&schedule.epoch) == EPOCH_ID_MAX {
            continue;
        }
        for _ in 0..4_000 {
            schedule.step();
        }
        assert_eq!(schedule.num_resets, 1);
        assert!(schedule.num_reclaimed > 20);
        assert!(epoch_id_get(&schedule.epoch) < 2000);
    }
}
