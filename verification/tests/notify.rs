use std::future::poll_fn;
use std::sync::atomic::{fence, AtomicUsize, Ordering};
use std::sync::{Arc, Mutex};
use std::task::{Poll, Waker};
use tokio_rcu::notify::waiters_list::WaitersList;
use tokio_rcu::notify::{Notified, Notify};

/// A notification that tasks share.
struct Shared {
    notify: Mutex<Notify<Waker>>,
}

impl Shared {
    fn new() -> Self {
        Shared { notify: Mutex::new(Notify::new()) }
    }

    fn notified(&self) -> Notified {
        self.notify.lock().unwrap().notified()
    }

    fn notify(&self) {
        let wakers = self.notify.lock().unwrap().notify();
        for waker in wakers {
            waker.wake();
        }
    }

    async fn wait(&self, notified: Notified) {
        poll_fn(|cx| {
            let mut notify = self.notify.lock().unwrap();
            let waker = cx.waker().clone();
            if notified.poll(&mut notify, waker, |existing: &Waker| existing.will_wake(cx.waker())) {
                Poll::Ready(())
            } else {
                Poll::Pending
            }
        })
        .await;
        notified.drop(&mut self.notify.lock().unwrap());
    }
}

#[test]
fn basic() {
    struct State {
        notify: Shared,
        value: AtomicUsize,
    }
    tokio::runtime::Runtime::new().unwrap().block_on(async {
        let state = Arc::new(State { notify: Shared::new(), value: AtomicUsize::new(5) });

        // start listening to notifications before spawning the writer task to make sure we see his notification.
        let notified = state.notify.notified();

        let task = tokio::task::spawn({
            let state = state.clone();
            async move {
                state.value.store(12, Ordering::Relaxed);
                state.notify.notify();
            }
        });
        state.notify.wait(notified).await;
        assert_eq!(state.value.load(Ordering::Relaxed), 12);

        task.await.unwrap();
    });
}

#[test]
fn multiple_wakers() {
    const NUM_WAKERS: usize = 32;

    struct State {
        notify: Shared,
        value: AtomicUsize,
    }
    tokio::runtime::Runtime::new().unwrap().block_on(async {
        let state = Arc::new(State { notify: Shared::new(), value: AtomicUsize::new(5) });

        // start listening to notifications before spawning the writer task to make sure we see his notification.
        let notified = state.notify.notified();

        let tasks: Vec<_> = (0..NUM_WAKERS)
            .map(|i| {
                tokio::task::spawn({
                    let state = state.clone();
                    async move {
                        state.value.store(1234 + i, Ordering::Relaxed);
                        state.notify.notify();
                    }
                })
            })
            .collect();

        state.notify.wait(notified).await;
        assert!((1234..1234 + NUM_WAKERS).contains(&state.value.load(Ordering::Relaxed)));

        for task in tasks {
            task.await.unwrap()
        }
    });
}

#[test]
fn multiple_waiters_and_wakers() {
    const NUM_WAITERS: usize = 32;
    const NUM_WAKERS: usize = 32;

    struct State {
        num_done_setup: AtomicUsize,
        done_setup_notify: Shared,
        notify: Shared,
        value: AtomicUsize,
    }
    tokio::runtime::Runtime::new().unwrap().block_on(async {
        let state = Arc::new(State {
            num_done_setup: AtomicUsize::new(0),
            done_setup_notify: Shared::new(),
            notify: Shared::new(),
            value: AtomicUsize::new(5),
        });

        // the wakers start listening before the waiters can finish the setup.
        let waker_tasks: Vec<_> = (0..NUM_WAKERS)
            .map(|i| {
                let done_setup = state.done_setup_notify.notified();
                tokio::task::spawn({
                    let state = state.clone();
                    async move {
                        state.done_setup_notify.wait(done_setup).await;
                        state.value.store(1234 + i, Ordering::Relaxed);
                        state.notify.notify();
                    }
                })
            })
            .collect();

        let waiter_tasks: Vec<_> = (0..NUM_WAITERS)
            .map(|_| {
                tokio::task::spawn({
                    let state = state.clone();
                    async move {
                        let notified = state.notify.notified();
                        if state.num_done_setup.fetch_add(1, Ordering::Release) + 1 == NUM_WAITERS {
                            fence(Ordering::Acquire);
                            state.done_setup_notify.notify();
                        }
                        state.notify.wait(notified).await;
                        assert!(
                            (1234..1234 + NUM_WAKERS).contains(&state.value.load(Ordering::Relaxed))
                        );
                    }
                })
            })
            .collect();

        for task in waker_tasks.into_iter().chain(waiter_tasks.into_iter()) {
            task.await.unwrap()
        }
    });
}

fn never(_: &u32) -> bool {
    false
}

#[test]
fn waiter_is_done_after_a_notification() {
    let mut notify: Notify<u32> = Notify::new();
    let before = notify.notified();
    assert!(!before.was_notified(&notify));
    assert_eq!(notify.notify(), vec![]);
    assert!(before.was_notified(&notify));
    assert!(before.poll(&mut notify, 1, never));
    let after = notify.notified();
    assert!(!after.poll(&mut notify, 2, never));
    assert_eq!(notify.notify(), vec![2]);
    assert!(after.poll(&mut notify, 3, never));
    assert_eq!(notify.notify(), vec![]);
}

#[test]
fn sleepers_are_woken_from_the_last_on() {
    let mut notify: Notify<u32> = Notify::new();
    let waiters: Vec<Notified> = (0..5).map(|_| notify.notified()).collect();
    for (i, waiter) in waiters.iter().enumerate() {
        assert!(!waiter.poll(&mut notify, 10 + i as u32, never));
    }
    assert_eq!(notify.notify(), vec![14, 13, 12, 11, 10]);
    assert_eq!(notify.notify(), vec![]);
}

#[test]
fn waker_is_replaced_unless_it_wakes_the_same_task() {
    let mut notify: Notify<u32> = Notify::new();
    let a = notify.notified();
    let b = notify.notified();
    assert!(!a.poll(&mut notify, 1, never));
    assert!(!b.poll(&mut notify, 2, never));
    assert!(!a.poll(&mut notify, 3, |existing: &u32| *existing == 3));
    assert!(!b.poll(&mut notify, 4, |existing: &u32| *existing == 2));
    assert_eq!(notify.notify(), vec![2, 3]);
}

#[test]
fn dropped_waiter_is_not_woken() {
    let mut notify: Notify<u32> = Notify::new();
    let waiters: Vec<Notified> = (0..5).map(|_| notify.notified()).collect();
    for (i, waiter) in waiters.iter().enumerate() {
        waiter.register(&mut notify, i as u32, never);
    }
    for (i, waiter) in waiters.into_iter().enumerate() {
        // the last one to register is the head of the list, the first one is its end.
        if i == 0 || i == 2 || i == 4 {
            waiter.drop(&mut notify);
        }
    }
    assert_eq!(notify.notify(), vec![3, 1]);
}

#[test]
fn dropped_waiter_leaves_its_slot_to_the_next() {
    let mut notify: Notify<u32> = Notify::new();
    for i in 0..100 {
        let waiter = notify.notified();
        assert!(!waiter.poll(&mut notify, i, never));
        waiter.drop(&mut notify);
    }
    let waiter = notify.notified();
    assert!(!waiter.poll(&mut notify, 7, never));
    assert_eq!(notify.notify(), vec![7]);
    waiter.drop(&mut notify);
    assert_eq!(notify.notify(), vec![]);
}

#[test]
fn wakeup_between_check_and_registration_is_seen() {
    let mut notify: Notify<u32> = Notify::new();
    let waiter = notify.notified();
    assert!(!waiter.was_notified(&notify));
    notify.count_wakeup();
    assert_eq!(notify.take_wakers(), vec![]);
    waiter.register(&mut notify, 9, never);
    assert!(waiter.was_notified(&notify));
}

#[test]
fn wakeup_after_registration_takes_the_waker() {
    let mut notify: Notify<u32> = Notify::new();
    let waiter = Notified::new(&mut notify);
    notify.count_wakeup();
    waiter.register(&mut notify, 9, never);
    assert_eq!(notify.take_wakers(), vec![9]);
    assert!(waiter.was_notified(&notify));
}

#[test]
fn list_keeps_its_order() {
    let mut waiters: WaitersList<&str> = WaitersList::new();
    let a = waiters.add_slot();
    let b = waiters.add_slot();
    let c = waiters.add_slot();
    assert_eq!((a, b, c), (0, 1, 2));
    waiters.register(a, "a", |_: &&str| false);
    waiters.register(b, "b", |_: &&str| false);
    waiters.register(c, "c", |_: &&str| false);
    waiters.remove_slot(b);
    assert_eq!(waiters.add_slot(), b);
    waiters.register(b, "again", |_: &&str| false);
    waiters.register(a, "kept", |_: &&str| true);
    assert_eq!(waiters.take_wakers(), vec!["again", "c", "a"]);
    assert!(waiters.take_wakers().is_empty());
}
