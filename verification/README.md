# tokio_rcu

Read-copy-update for tokio, with its bookkeeping verified in Verus.

- `src/` is the verified library: the epoch id, the storage slots of the threads, the hooks, the course of a
  wait for a grace period, the notification that writers sleep on, the rcu box and the rcu protected pointer
  as values, and a fair lock for two groups.
- `app/` hooks the library into tokio: the state that threads share, the atomic pointers, the memory
  barriers, the locks and the awaiting.
- `tests/` runs the library.

The main theorems:

- `grace_period::law_swap_then_wait`: once a wait for a grace period is over, no thread holds a reference to
  anything that was swapped out before the wait began.
- `grace_period::law_grace_period_waits_for_busy_threads`: a grace period is over only after every other thread
  that was busy when the wait performed its barrier has passed through a quiescent state or become inactive.
- `grace_period::law_reset_waits_for_all_threads`: when a reset of the epoch id is announced, every busy thread
  has seen it, the one that ran the reset too.
- `grace_period::law_one_leader_throughout`: every reset of the epoch id is run by exactly one wait.
- `grace_period::law_no_change_is_missed`: a wait that sleeps, while no thread holds it up any more, has been
  notified, or is about to be.
- `notify::wakeups::law_no_wakeup_is_lost`: whoever sleeps through a notification is woken by it.
- `fair_gme_lock::law_groups_exclude_each_other`, `fair_gme_lock::law_newcomer_waits_for_all_who_waited`: the
  lock excludes, and is fair.

The functions of the library each work on plain values, and `app/` calls each under a lock. The theorems about
what happens side by side are about smaller steps: a hook may publish an epoch id that was incremented since, a
wait looks at one slot after the other, and a notification counts a wakeup before it takes the wakers. The
steps happen in some order. The memory orderings of the atomics, and the memory barriers that a wait asks for,
are not part of the theorems.
