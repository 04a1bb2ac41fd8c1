//! A notification that any number of tasks can wait for.
//!
//! A waiter starts listening at some point, and is done once [`Notify::notify`] is called after that
//! point. Until then its waker waits in a list, and the call takes all wakers out of the list to wake
//! them.
pub mod waiters_list;
pub mod wakeups;

use crate::notify::waiters_list::WaitersList;
use crate::notify::waiters_list::WaitersView;
use vstd::prelude::*;

verus! {

/// The state of a notification.
#[verifier::ext_equal]
pub ghost struct NotifyView<W> {
    /// How often it was notified, modulo the number of values of a `usize`.
    pub num_wakeups: usize,
    /// Its waiters.
    pub waiters: WaitersView<W>,
}

/// `n`, counted up `times` times, modulo the number of values of a `usize`.
pub open spec fn counted(n: usize, times: nat) -> usize {
    ((n + times) % (usize::MAX + 1)) as usize
}

impl<W> NotifyView<W> {
    /// The state after a wakeup was counted.
    pub open spec fn with_counted(self) -> Self {
        NotifyView { num_wakeups: counted(self.num_wakeups, 1), ..self }
    }

    /// The state after all wakers were taken out of the list.
    pub open spec fn with_drained(self) -> Self {
        NotifyView { waiters: self.waiters.with_drained(), ..self }
    }

    /// The state after it was notified.
    pub open spec fn notified(self) -> Self {
        self.with_counted().with_drained()
    }

    /// The state after a new waiter got the slot.
    pub open spec fn with_added(self, slot: usize) -> Self {
        NotifyView { waiters: self.waiters.with_added(slot), ..self }
    }

    /// The state after the waiter of the slot went to sleep with `waker`.
    pub open spec fn with_registered(self, slot: usize, waker: W, keeps_waker: bool) -> Self {
        NotifyView { waiters: self.waiters.with_registered(slot, waker, keeps_waker), ..self }
    }

    /// The state after the waiter of the slot is gone.
    pub open spec fn with_removed(self, slot: usize) -> Self {
        NotifyView { waiters: self.waiters.with_removed(slot), ..self }
    }
}

/// A notification, whose waiters are woken by a waker `W`.
pub struct Notify<W> {
    num_wakeups: usize,
    waiters: WaitersList<W>,
}

impl<W> View for Notify<W> {
    type V = NotifyView<W>;

    closed spec fn view(&self) -> NotifyView<W> {
        NotifyView { num_wakeups: self.num_wakeups, waiters: self.waiters@ }
    }
}

impl<W> Notify<W> {
    /// Whether its list of waiters is well-formed.
    pub closed spec fn wf(self) -> bool {
        self.waiters.wf()
    }

    /// No slot is in the list of a well-formed notification twice, and those in it belong to a waiter.
    pub proof fn law_wf(self)
        requires
            self.wf(),
        ensures
            self@.waiters.wf(),
    {
        self.waiters.law_wf();
    }

    /// A notification that no one waits for, and that was never notified.
    pub fn new() -> (notify: Self)
        ensures
            notify.wf(),
            notify@ == (NotifyView::<W> {
                num_wakeups: 0,
                waiters: (WaitersView { list: Seq::empty(), live: Set::empty() }),
            }),
    {
        Notify { num_wakeups: 0, waiters: WaitersList::new() }
    }

    /// Starts to listen: the result is done once [`Notify::notify`] is called from now on.
    pub fn notified(&mut self) -> (notified: Notified)
        requires
            old(self).wf(),
        ensures
            final(self).wf(),
            !old(self)@.waiters.live.contains(notified@.slot),
            !old(self)@.waiters.is_in_list(notified@.slot),
            final(self)@ == old(self)@.with_added(notified@.slot),
            notified@.num_wakeups_snapshot == old(self)@.num_wakeups,
    {
        Notified::new(self)
    }

    /// Counts a wakeup, so that everyone who listens at this point is done the next time they look.
    pub fn count_wakeup(&mut self)
        requires
            old(self).wf(),
        ensures
            final(self).wf(),
            final(self)@ == old(self)@.with_counted(),
    {
        proof {
            let m: int = usize::MAX + 1;
            if self.num_wakeups == usize::MAX {
                vstd::arithmetic::div_mod::lemma_mod_self_0(m);
            } else {
                vstd::arithmetic::div_mod::lemma_small_mod((self.num_wakeups + 1) as nat, m as nat);
            }
        }
        self.num_wakeups = self.num_wakeups.wrapping_add(1);
    }

    /// Takes the wakers of everyone who sleeps, for the caller to wake them, the one that went to
    /// sleep last first.
    pub fn take_wakers(&mut self) -> (wakers: Vec<W>)
        requires
            old(self).wf(),
        ensures
            final(self).wf(),
            final(self)@ == old(self)@.with_drained(),
            wakers@ == old(self)@.waiters.wakers(),
            wakers@.len() == old(self)@.waiters.list.len(),
            forall|k: int|
                0 <= k < wakers@.len() ==> #[trigger] wakers@[k] == old(self)@.waiters.list[k].1,
    {
        self.waiters.take_wakers()
    }

    /// Notifies everyone who listens: a wakeup is counted, and the wakers of those who sleep are
    /// returned, for the caller to wake them, the one that went to sleep last first.
    pub fn notify(&mut self) -> (wakers: Vec<W>)
        requires
            old(self).wf(),
        ensures
            final(self).wf(),
            final(self)@ == old(self)@.notified(),
            wakers@ == old(self)@.waiters.wakers(),
            wakers@.len() == old(self)@.waiters.list.len(),
            forall|k: int|
                0 <= k < wakers@.len() ==> #[trigger] wakers@[k] == old(self)@.waiters.list[k].1,
    {
        self.count_wakeup();
        self.take_wakers()
    }
}

/// The state of a waiter.
pub ghost struct NotifiedView {
    /// Its slot among the waiters of the notification.
    pub slot: usize,
    /// The count of wakeups when it started to listen.
    pub num_wakeups_snapshot: usize,
}

/// A waiter for a notification.
pub struct Notified {
    slot: usize,
    num_wakeups_snapshot: usize,
}

impl View for Notified {
    type V = NotifiedView;

    closed spec fn view(&self) -> NotifiedView {
        NotifiedView { slot: self.slot, num_wakeups_snapshot: self.num_wakeups_snapshot }
    }
}

impl NotifiedView {
    /// Whether the waiter has a slot among the waiters of `notify`.
    pub open spec fn waits_for<W>(self, notify: NotifyView<W>) -> bool {
        notify.waiters.live.contains(self.slot)
    }

    /// Whether the waiter sees that `notify` was notified since it started to listen.
    pub open spec fn was_notified<W>(self, notify: NotifyView<W>) -> bool {
        notify.num_wakeups != self.num_wakeups_snapshot
    }

    /// Whether the waiter may be polled with `will_wake`, which tells whether a waker that it left in
    /// the list will wake the task that polls it.
    pub open spec fn can_register<W, F: Fn(&W) -> bool>(
        self,
        notify: NotifyView<W>,
        will_wake: F,
    ) -> bool {
        &&& self.waits_for(notify)
        &&& notify.waiters.is_in_list(self.slot) ==> call_requires(
            will_wake,
            (&notify.waiters.list[notify.waiters.position(self.slot)].1,),
        )
    }

    /// Whether `after` is `notify` with `waker` in the list for the waiter: a waker that it left
    /// there stays if `will_wake` says of it that it will wake the same task.
    pub open spec fn registers<W, F: Fn(&W) -> bool>(
        self,
        notify: NotifyView<W>,
        waker: W,
        will_wake: F,
        after: NotifyView<W>,
    ) -> bool {
        exists|keeps_waker: bool|
            {
                &&& after == #[trigger] notify.with_registered(self.slot, waker, keeps_waker)
                &&& notify.waiters.is_in_list(self.slot) ==> call_ensures(
                    will_wake,
                    (&notify.waiters.list[notify.waiters.position(self.slot)].1,),
                    keeps_waker,
                )
            }
    }
}

impl Notified {
    /// Starts to listen to `notify`.
    pub fn new<W>(notify: &mut Notify<W>) -> (notified: Self)
        requires
            old(notify).wf(),
        ensures
            final(notify).wf(),
            !old(notify)@.waiters.live.contains(notified@.slot),
            !old(notify)@.waiters.is_in_list(notified@.slot),
            final(notify)@ == old(notify)@.with_added(notified@.slot),
            notified@.num_wakeups_snapshot == old(notify)@.num_wakeups,
    {
        let slot: usize = notify.waiters.add_slot();
        Notified { slot, num_wakeups_snapshot: notify.num_wakeups }
    }

    /// Looks whether `notify` was notified since the waiter started to listen.
    pub fn was_notified<W>(&self, notify: &Notify<W>) -> (res: bool)
        ensures
            res == self@.was_notified(notify@),
    {
        notify.num_wakeups != self.num_wakeups_snapshot
    }

    /// Puts `waker` into the list, to be woken by the next notification.
    pub fn register<W, F: Fn(&W) -> bool>(&self, notify: &mut Notify<W>, waker: W, will_wake: F)
        requires
            old(notify).wf(),
            self@.can_register(old(notify)@, will_wake),
        ensures
            final(notify).wf(),
            self@.registers(old(notify)@, waker, will_wake, final(notify)@),
    {
        notify.waiters.register(self.slot, waker, will_wake);
        proof {
            let before = old(notify)@;
            let keeps_waker = choose|keeps_waker: bool|
                {
                    &&& notify.waiters@ == #[trigger] before.waiters.with_registered(
                        self.slot,
                        waker,
                        keeps_waker,
                    )
                    &&& before.waiters.is_in_list(self.slot) ==> call_ensures(
                        will_wake,
                        (&before.waiters.list[before.waiters.position(self.slot)].1,),
                        keeps_waker,
                    )
                };
            assert(notify@ == before.with_registered(self.slot, waker, keeps_waker));
        }
    }

    /// Whether the waiter is done. If it is not, its task sleeps from now on, and `waker` is in the
    /// list, to be woken by the next notification.
    pub fn poll<W, F: Fn(&W) -> bool>(
        &self,
        notify: &mut Notify<W>,
        waker: W,
        will_wake: F,
    ) -> (is_ready: bool)
        requires
            old(notify).wf(),
            self@.can_register(old(notify)@, will_wake),
        ensures
            final(notify).wf(),
            is_ready == self@.was_notified(old(notify)@),
            is_ready ==> final(notify)@ == old(notify)@,
            !is_ready ==> self@.registers(old(notify)@, waker, will_wake, final(notify)@),
    {
        if self.was_notified(notify) {
            return true;
        }
        self.register(notify, waker, will_wake);
        // a notification that came while the waker was put into the list may have missed it.
        self.was_notified(notify)
    }

    /// Ends the wait: the waiter leaves the list, if it is there.
    pub fn drop<W>(self, notify: &mut Notify<W>)
        requires
            old(notify).wf(),
            self@.waits_for(old(notify)@),
        ensures
            final(notify).wf(),
            final(notify)@ == old(notify)@.with_removed(self@.slot),
    {
        notify.waiters.remove_slot(self.slot);
    }
}

/// Counting a wakeup takes the count to the next one, and after the largest one to 0.
pub proof fn law_wakeup_is_counted_once<W>(notify: NotifyView<W>)
    ensures
        notify.num_wakeups < usize::MAX ==> notify.with_counted().num_wakeups == notify.num_wakeups
            + 1,
        notify.num_wakeups == usize::MAX ==> notify.with_counted().num_wakeups == 0,
        notify.with_counted().waiters == notify.waiters,
{
    let m: int = usize::MAX + 1;
    if notify.num_wakeups == usize::MAX {
        vstd::arithmetic::div_mod::lemma_mod_self_0(m);
    } else {
        vstd::arithmetic::div_mod::lemma_small_mod((notify.num_wakeups + 1) as nat, m as nat);
    }
}

/// To notify is to count one wakeup and to empty the list of sleepers. Everyone who listened before
/// sees it, and everyone keeps their slot.
pub proof fn law_notification_is_seen_by_all<W>(notify: NotifyView<W>, waiter: NotifiedView)
    requires
        waiter.num_wakeups_snapshot == notify.num_wakeups,
    ensures
        !waiter.was_notified(notify),
        waiter.was_notified(notify.notified()),
        notify.notified().waiters.list.len() == 0,
        notify.notified().waiters.live == notify.waiters.live,
        notify.notified().num_wakeups == notify.with_counted().num_wakeups,
{
    law_wakeup_is_counted_once(notify);
}

/// A waiter sees a notification exactly if the count is another one than when it began to listen.
pub proof fn law_waiter_compares_counts<W>(notify: NotifyView<W>, waiter: NotifiedView)
    ensures
        waiter.was_notified(notify) <==> !(waiter.num_wakeups_snapshot == notify.num_wakeups),
        waiter.waits_for(notify) <==> notify.waiters.live.contains(waiter.slot),
{
}

/// Nothing but a notification changes the count.
pub proof fn law_only_notifications_are_counted<W>(
    notify: NotifyView<W>,
    slot: usize,
    waker: W,
    keeps_waker: bool,
)
    ensures
        notify.with_added(slot).num_wakeups == notify.num_wakeups,
        notify.with_registered(slot, waker, keeps_waker).num_wakeups == notify.num_wakeups,
        notify.with_removed(slot).num_wakeups == notify.num_wakeups,
        notify.with_drained().num_wakeups == notify.num_wakeups,
        notify.with_added(slot).waiters == notify.waiters.with_added(slot),
        notify.with_registered(slot, waker, keeps_waker).waiters == notify.waiters.with_registered(
            slot,
            waker,
            keeps_waker,
        ),
        notify.with_removed(slot).waiters == notify.waiters.with_removed(slot),
        notify.with_drained().waiters == notify.waiters.with_drained(),
{
}

/// The next notification wakes the task of a waiter that went to sleep: the waker in the list is the
/// one that it was polled with, or one that was there before and was said to wake the same task.
pub proof fn law_sleeper_leaves_a_waker<W, F: Fn(&W) -> bool>(
    notify: NotifyView<W>,
    waiter: NotifiedView,
    waker: W,
    will_wake: F,
    after: NotifyView<W>,
)
    requires
        notify.waiters.wf(),
        waiter.registers(notify, waker, will_wake, after),
    ensures
        exists|k: int|
            0 <= k < after.waiters.wakers().len() && (#[trigger] after.waiters.list[k]).0
                == waiter.slot && (after.waiters.wakers()[k] == waker || call_ensures(
                will_wake,
                (&after.waiters.wakers()[k],),
                true,
            )),
        after.num_wakeups == notify.num_wakeups,
        after.waiters.live == notify.waiters.live,
{
    let keeps_waker = choose|keeps_waker: bool|
        {
            &&& after == #[trigger] notify.with_registered(waiter.slot, waker, keeps_waker)
            &&& notify.waiters.is_in_list(waiter.slot) ==> call_ensures(
                will_wake,
                (&notify.waiters.list[notify.waiters.position(waiter.slot)].1,),
                keeps_waker,
            )
        };
    crate::notify::waiters_list::law_wakers_are_all_in_the_list(after.waiters);
    if notify.waiters.is_in_list(waiter.slot) {
        let k = notify.waiters.position(waiter.slot);
        crate::notify::waiters_list::law_sleeper_keeps_its_place(
            notify.waiters,
            k,
            waker,
            keeps_waker,
        );
        assert(after.waiters.list[k].0 == waiter.slot);
    } else {
        crate::notify::waiters_list::law_sleeper_becomes_the_head(
            notify.waiters,
            waiter.slot,
            waker,
            keeps_waker,
        );
        assert(after.waiters.list[0].0 == waiter.slot);
    }
}

/// A waker that is said to wake the same task stays in the list, and one that is said not to is
/// replaced by the new one. No other waiter's waker changes.
pub proof fn law_waker_stays_if_it_wakes_the_task<W, F: Fn(&W) -> bool>(
    notify: NotifyView<W>,
    waiter: NotifiedView,
    waker: W,
    will_wake: F,
    after: NotifyView<W>,
    k: int,
)
    requires
        notify.waiters.wf(),
        0 <= k < notify.waiters.list.len(),
        notify.waiters.list[k].0 == waiter.slot,
        waiter.registers(notify, waker, will_wake, after),
    ensures
        after.waiters.list.len() == notify.waiters.list.len(),
        after.waiters.list[k].0 == waiter.slot,
        !call_ensures(will_wake, (&notify.waiters.list[k].1,), false) ==> after.waiters.list[k].1
            == notify.waiters.list[k].1,
        !call_ensures(will_wake, (&notify.waiters.list[k].1,), true) ==> after.waiters.list[k].1
            == waker,
        forall|l: int|
            0 <= l < notify.waiters.list.len() && l != k ==> #[trigger] after.waiters.list[l]
                == notify.waiters.list[l],
{
    let keeps_waker = choose|keeps_waker: bool|
        {
            &&& after == #[trigger] notify.with_registered(waiter.slot, waker, keeps_waker)
            &&& notify.waiters.is_in_list(waiter.slot) ==> call_ensures(
                will_wake,
                (&notify.waiters.list[notify.waiters.position(waiter.slot)].1,),
                keeps_waker,
            )
        };
    crate::notify::waiters_list::law_position_in_the_list(notify.waiters, k);
    crate::notify::waiters_list::law_sleeper_keeps_its_place(notify.waiters, k, waker, keeps_waker);
}

/// Every waiter that has a slot can be polled, whatever tells of its wakers, unless it left one in the
/// list that cannot be told of.
pub proof fn law_waiter_can_be_polled<W, F: Fn(&W) -> bool>(
    notify: NotifyView<W>,
    waiter: NotifiedView,
    will_wake: F,
)
    requires
        notify.waiters.live.contains(waiter.slot),
        forall|k: int|
            0 <= k < notify.waiters.list.len() && (#[trigger] notify.waiters.list[k]).0
                == waiter.slot ==> call_requires(will_wake, (&notify.waiters.list[k].1,)),
    ensures
        waiter.can_register(notify, will_wake),
{
}

} // verus!
