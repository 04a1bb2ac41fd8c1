use tokio_rcu::fair_gme_lock::{FairGmeLock, GmeLockGuard};

fn first_a(lock: &mut FairGmeLock) -> Option<GmeLockGuard> {
    lock.lock_group_a(&mut false)
}

#[test]
fn group_holds_the_lock_together() {
    let mut lock = FairGmeLock::new();
    let first = first_a(&mut lock).unwrap();
    let second = first_a(&mut lock).unwrap();
    assert_eq!((lock.group_count(0), lock.group_count(1)), (2, 0));
    first.drop(&mut lock);
    let third = first_a(&mut lock).unwrap();
    second.drop(&mut lock);
    third.drop(&mut lock);
    assert!(lock.lock_group_b(&mut false).is_some());
}

#[test]
fn groups_exclude_each_other() {
    let mut lock = FairGmeLock::new();
    let a = first_a(&mut lock).unwrap();
    let mut counted = false;
    assert!(lock.lock_group_b(&mut counted).is_none());
    assert!(counted);
    assert!(lock.lock_group_b(&mut counted).is_none());
    assert_eq!((lock.group_count(0), lock.group_count(1)), (1, 1));
    a.drop(&mut lock);
    let b = lock.lock_group_b(&mut counted).unwrap();
    let mut counted_a = false;
    assert!(lock.lock_group_a(&mut counted_a).is_none());
    assert!(counted_a);
    b.drop(&mut lock);
    assert!(lock.lock_group_a(&mut counted_a).is_some());
}

#[test]
fn no_one_joins_while_the_other_group_waits() {
    let mut lock = FairGmeLock::new();
    let first = first_a(&mut lock).unwrap();
    let second = first_a(&mut lock).unwrap();
    let mut b = false;
    assert!(lock.lock_group_b(&mut b).is_none());
    let mut late = false;
    assert!(lock.lock_group_a(&mut late).is_none());
    assert!(!late);
    first.drop(&mut lock);
    assert!(lock.lock_group_b(&mut b).is_none());
    second.drop(&mut lock);
    // the lock was handed over, so the late one waits for the other group now.
    assert!(lock.lock_group_a(&mut late).is_none());
    assert!(late);
    let guard = lock.lock_group_b(&mut b).unwrap();
    // another one of the group that holds the lock has to wait in turn.
    let mut late_b = false;
    assert!(lock.lock_group_b(&mut late_b).is_none());
    assert!(!late_b);
    guard.drop(&mut lock);
    assert!(lock.lock_group_a(&mut late).is_some());
}

#[test]
fn all_that_waited_get_the_lock() {
    let mut lock = FairGmeLock::new();
    let a = first_a(&mut lock).unwrap();
    let mut waiting = vec![false; 10];
    for counted in waiting.iter_mut() {
        assert!(lock.lock_group_b(counted).is_none());
    }
    a.drop(&mut lock);
    let mut late = false;
    assert!(lock.lock_group_a(&mut late).is_none());
    let guards: Vec<GmeLockGuard> =
        waiting.iter_mut().map(|counted| lock.lock_group_b(counted).unwrap()).collect();
    for guard in guards {
        assert!(lock.lock_group_a(&mut late).is_none());
        guard.drop(&mut lock);
    }
    assert!(lock.lock_group_a(&mut late).is_some());
}

#[test]
fn group_is_given_by_its_index() {
    let mut lock = FairGmeLock::new();
    let b = lock.lock_group(1, &mut false).unwrap();
    let mut counted = false;
    assert!(lock.lock_group(0, &mut counted).is_none());
    assert!(counted);
    b.drop(&mut lock);
    assert!(lock.lock_group(0, &mut counted).is_some());
}
