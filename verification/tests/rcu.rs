use tokio_rcu::epoch::EpochCounter;
use tokio_rcu::hooks::{
    on_after_task_poll, on_thread_park, on_thread_start, on_thread_stop, on_thread_unpark,
};
use tokio_rcu::per_thread_storage::thread_storage_slots::ThreadStorageSlots;
use tokio_rcu::per_thread_storage::OwnedThreadStorageSlot;
use tokio_rcu::rcu::Rcu;
use tokio_rcu::rcu_box::{rcu_box_wait_multiple, RcuBox};
use tokio_rcu::reclamation::Reclamation;
use tokio_rcu::synchronize::SyncAction;

struct Runtime {
    epoch: EpochCounter,
    slots: ThreadStorageSlots,
}

impl Runtime {
    fn new() -> Self {
        Runtime { epoch: EpochCounter::new(), slots: ThreadStorageSlots::new() }
    }

    fn start(&mut self) -> OwnedThreadStorageSlot {
        let mut thread = OwnedThreadStorageSlot::unallocated();
        on_thread_start(&self.epoch, &mut self.slots, &mut thread);
        thread
    }

    fn stop(&mut self, thread: &mut OwnedThreadStorageSlot) {
        on_thread_stop(&mut self.slots, thread);
    }

    fn poll(&mut self, thread: &OwnedThreadStorageSlot) {
        on_after_task_poll(&self.epoch, &mut self.slots, thread);
    }

    fn park(&mut self, thread: &OwnedThreadStorageSlot) {
        on_thread_park(&mut self.slots, thread);
    }

    fn unpark(&mut self, thread: &OwnedThreadStorageSlot) {
        on_thread_unpark(&self.epoch, &mut self.slots, thread);
    }

    /// Does the next thing that the reclamation asks for. Returns whether it is over.
    fn step<V>(&mut self, reclamation: &mut Reclamation<V>, thread: &OwnedThreadStorageSlot) -> bool {
        match reclamation.action() {
            SyncAction::Finished => return true,
            SyncAction::Scan => reclamation.scan(&self.slots, thread),
            SyncAction::TryAcquireShared => reclamation.relock(&mut self.epoch, true),
            SyncAction::PanicResetAgain | SyncAction::PanicOverflowAgain => panic!("reset again"),
            _ => reclamation.advance(&mut self.epoch),
        }
        reclamation.is_finished()
    }

    /// Waits for a reclamation, where no other thread is running.
    fn wait<V>(&mut self, mut reclamation: Reclamation<V>, thread: &OwnedThreadStorageSlot) -> V {
        for _ in 0..10 {
            if self.step(&mut reclamation, thread) {
                return reclamation.finish();
            }
        }
        panic!("the wait is not over");
    }
}

/// What each of two workers does, one step at a time, with every order of their steps.
fn interleavings(a: usize, b: usize) -> Vec<Vec<bool>> {
    if a == 0 {
        return vec![vec![false; b]];
    }
    if b == 0 {
        return vec![vec![true; a]];
    }
    let mut all = Vec::new();
    for (first, rest) in [(true, interleavings(a - 1, b)), (false, interleavings(a, b - 1))] {
        for tail in rest {
            let mut order = vec![first];
            order.extend(tail);
            all.push(order);
        }
    }
    all
}

#[test]
fn no_uaf_basic() {
    // the first worker starts, swaps, takes up to 8 steps of its wait, and stops at the end; the
    // second one starts, reads, uses what it read, and stops.
    for order in interleavings(9, 4) {
        let mut runtime = Runtime::new();
        let mut state = Rcu::new(Box::new(String::from("initial")));
        let mut worker1 = OwnedThreadStorageSlot::unallocated();
        let mut worker2 = OwnedThreadStorageSlot::unallocated();
        let mut reclamation = None;
        let mut prev = None;
        let mut step1 = 0;
        let mut step2 = 0;
        let mut guard: Option<String> = None;
        for is_first in order {
            if is_first {
                if step1 == 0 {
                    worker1 = runtime.start();
                } else if step1 == 1 {
                    reclamation = Some(state.swap(Box::new(String::from("new"))));
                } else if let Some(mut wait) = reclamation.take() {
                    if runtime.step(&mut wait, &worker1) {
                        // nobody uses the old data when it can be owned.
                        assert!(guard != Some(String::from("initial")));
                        prev = Some(wait.finish());
                    } else {
                        reclamation = Some(wait);
                    }
                }
                step1 += 1;
            } else {
                if step2 == 0 {
                    worker2 = runtime.start();
                } else if step2 == 1 {
                    guard = Some((*state.read(&worker2)).clone());
                } else if step2 == 2 {
                    let value = guard.take().unwrap();
                    assert!(value == "initial" || value == "new");
                    // data that was reclaimed is not read.
                    assert!(prev.is_none() || value == "new");
                } else {
                    runtime.stop(&mut worker2);
                }
                step2 += 1;
            }
        }
        if let Some(wait) = reclamation {
            prev = Some(runtime.wait(wait, &worker1));
        }
        assert_eq!(*prev.unwrap(), "initial");
        runtime.stop(&mut worker1);
    }
}

#[test]
fn reader_holds_up_reclamation() {
    let mut runtime = Runtime::new();
    let writer = runtime.start();
    let reader = runtime.start();
    let mut state = Rcu::new(Box::new(1));
    assert_eq!(state.with(&reader, |value: &i32| *value + 10), 11);
    let mut reclamation = state.swap(Box::new(2));
    for _ in 0..20 {
        assert!(!runtime.step(&mut reclamation, &writer));
    }
    runtime.poll(&reader);
    assert_eq!(*runtime.wait(reclamation, &writer), 1);
    assert_eq!(*state.read(&reader), 2);
}

#[test]
fn swap_nowait_returns_the_old_data() {
    let mut runtime = Runtime::new();
    let thread = runtime.start();
    let mut state = Rcu::new(Box::new("some interesting string"));
    let old_data = state.swap_nowait(Box::new("done"));
    assert_eq!(*state.read(&thread), "done");
    assert_eq!(*runtime.wait(old_data.wait(), &thread), "some interesting string");
}

#[test]
fn double_buffering() {
    const NUM_READER_TASKS: usize = 64;
    const READER_NUM_CLONES: usize = 1000;
    const WRITER_NUM_WRITES: usize = 1000;

    #[derive(Debug, Clone, PartialEq, Eq)]
    struct Buffer {
        buffer_index: usize,
        bytes: Vec<u8>,
        should_readers_exit: bool,
    }

    // allocate 2 buffers to be used in our double buffering scheme
    let buf_a = Box::new(Buffer {
        buffer_index: 0,
        bytes: vec![5u8; 2048],
        should_readers_exit: false,
    });
    let buf_b = Box::new(Buffer {
        buffer_index: 1,
        bytes: vec![17u8; 4096],
        should_readers_exit: false,
    });

    let mut runtime = Runtime::new();
    let writer = runtime.start();
    // every reader has a thread, which is parked between the polls of the reader.
    let readers: Vec<_> = (0..NUM_READER_TASKS).map(|_| runtime.start()).collect();
    for reader in &readers {
        runtime.park(reader);
    }
    let mut data = Rcu::new(buf_a);

    let mut cur_unused_buf = buf_b;
    for i in 0..WRITER_NUM_WRITES {
        cur_unused_buf.bytes.fill(i as u8);
        let reader = &readers[i % NUM_READER_TASKS];
        runtime.unpark(reader);
        let mut reclamation = data.swap(cur_unused_buf);
        // the reader is in the middle of a poll, so the old buffer cannot be owned yet.
        for _ in 0..10 {
            assert!(!runtime.step(&mut reclamation, &writer));
        }
        {
            let value = data.read(reader);
            let orig_value = (*value).clone();
            assert!(orig_value.buffer_index == 0 || orig_value.buffer_index == 1);
            for _ in 0..READER_NUM_CLONES {
                let cloned_value = (*value).clone();

                // the same guard should always yield the same data.
                assert_eq!(orig_value, cloned_value);
            }
            assert!(!value.should_readers_exit);
        }
        runtime.poll(reader);
        runtime.park(reader);
        cur_unused_buf = runtime.wait(reclamation, &writer);
        assert_eq!(cur_unused_buf.buffer_index, i % 2);
        assert_eq!(data.read(&writer).buffer_index, 1 - i % 2);
        assert_eq!(data.read(&writer).bytes[0], i as u8);
    }

    cur_unused_buf.should_readers_exit = true;
    runtime.wait(data.swap(cur_unused_buf), &writer);
    for reader in &readers {
        runtime.unpark(reader);
        assert!(data.read(reader).should_readers_exit);
    }
}

#[test]
fn rcu_box_is_read_and_swapped() {
    let mut runtime = Runtime::new();
    let thread = runtime.start();
    let mut numbers = RcuBox::new(Box::new(vec![1, 2, 3, 4]));
    numbers.with(&thread, |numbers: &Vec<i32>| {
        assert!(numbers.contains(&3));
        assert!(!numbers.contains(&5));
    });
    let old_numbers = runtime.wait(numbers.swap(Box::new(vec![5, 6, 7, 8])), &thread);
    assert_eq!(*old_numbers, vec![1, 2, 3, 4]);
    numbers.with_unchecked(|numbers: &Vec<i32>| {
        assert!(numbers.contains(&6));
        assert!(!numbers.contains(&10));
    });
    assert_eq!(numbers.read_clone(&thread), vec![5, 6, 7, 8]);
    assert_eq!(*numbers.read(), vec![5, 6, 7, 8]);
    assert_eq!(numbers.read(), numbers.read());
}

#[test]
fn several_rcu_boxes_need_one_grace_period() {
    let mut runtime = Runtime::new();
    let thread = runtime.start();
    let mut rcu_a = RcuBox::new(Box::new("a"));
    let mut rcu_b = RcuBox::new(Box::new(vec![1, 2, 3]));
    let mut rcu_c = RcuBox::new(Box::new(78));
    let old_data_a = rcu_a.swap_nowait(Box::new("aaaa"));
    let old_data_b = rcu_b.swap_nowait(Box::new(vec![4, 88, 12, 59, 33]));
    let old_data_c = rcu_c.swap_nowait(Box::new(9120));
    let (old_a, old_b, old_c) =
        runtime.wait(rcu_box_wait_multiple((old_data_a, old_data_b, old_data_c)), &thread);
    assert_eq!(*old_a, "a");
    assert_eq!(*old_b, vec![1, 2, 3]);
    assert_eq!(*old_c, 78);
    // one grace period takes the epoch id from 2 to 4.
    assert_eq!(tokio_rcu::epoch::epoch_id_get(&runtime.epoch), 4);
}

#[test]
fn twelve_rcu_boxes_keep_their_order() {
    let mut runtime = Runtime::new();
    let thread = runtime.start();
    let mut boxes: Vec<RcuBox<usize>> = (0..12).map(|i| RcuBox::new(Box::new(i))).collect();
    let mut old: Vec<_> = boxes.iter_mut().map(|b| b.swap_nowait(Box::new(100))).collect();
    let mut next = || old.remove(0);
    let items = (
        next(),
        next(),
        next(),
        next(),
        next(),
        next(),
        next(),
        next(),
        next(),
        next(),
        next(),
        next(),
    );
    let result = runtime.wait(rcu_box_wait_multiple(items), &thread);
    assert_eq!((*result.0, *result.1, *result.2, *result.3), (0, 1, 2, 3));
    assert_eq!((*result.4, *result.5, *result.6, *result.7), (4, 5, 6, 7));
    assert_eq!((*result.8, *result.9, *result.10, *result.11), (8, 9, 10, 11));
    assert!(boxes.iter().all(|b| b.read_clone(&thread) == 100));
}
