//! The list of the wakers of those that wait for a notification.
//!
//! The list is doubly linked, through the slots of the waiters: a slot is looked up by its index, so
//! a waiter is put into the list and taken out of it without a search.
use vstd::prelude::*;

verus! {

/// The place of one waiter in the list.
struct Slot<W> {
    prev: Option<usize>,
    next: Option<usize>,
    waker: Option<W>,
    is_in_list: bool,
}

impl<W> Slot<W> {
    /// A slot that is not in the list.
    fn new() -> (slot: Self)
        ensures
            slot == (Slot::<W> { prev: None, next: None, waker: None, is_in_list: false }),
    {
        Slot { prev: None, next: None, waker: None, is_in_list: false }
    }
}

/// The contents of a list of waiters.
#[verifier::ext_equal]
pub ghost struct WaitersView<W> {
    /// The slots in the list, each with the waker of its waiter, from the head of the list on.
    pub list: Seq<(usize, W)>,
    /// The slots that belong to some waiter, in the list or not.
    pub live: Set<usize>,
}

impl<W> WaitersView<W> {
    /// Whether the slot is in the list.
    pub open spec fn is_in_list(self, slot: usize) -> bool {
        exists|k: int| 0 <= k < self.list.len() && (#[trigger] self.list[k]).0 == slot
    }

    /// The position of the slot in the list.
    pub open spec fn position(self, slot: usize) -> int {
        choose|k: int| 0 <= k < self.list.len() && (#[trigger] self.list[k]).0 == slot
    }

    /// The wakers in the list, from its head on.
    pub open spec fn wakers(self) -> Seq<W> {
        self.list.map_values(|entry: (usize, W)| entry.1)
    }

    /// Whether no slot is in the list twice, and those in the list belong to a waiter.
    pub open spec fn wf(self) -> bool {
        &&& forall|k: int|
            0 <= k < self.list.len() ==> self.live.contains((#[trigger] self.list[k]).0)
        &&& forall|k: int, l: int|
            0 <= k < l < self.list.len() ==> (#[trigger] self.list[k]).0 != (
            #[trigger] self.list[l]).0
    }

    /// The contents after a new waiter got the slot.
    pub open spec fn with_added(self, slot: usize) -> Self {
        WaitersView { live: self.live.insert(slot), ..self }
    }

    /// The contents after the waiter of the slot went to sleep with `waker`: a slot that was not in
    /// the list is its new head, one that was stays where it is, and keeps its waker if
    /// `keeps_waker`.
    pub open spec fn with_registered(self, slot: usize, waker: W, keeps_waker: bool) -> Self {
        let list = if !self.is_in_list(slot) {
            seq![(slot, waker)] + self.list
        } else if keeps_waker {
            self.list
        } else {
            self.list.update(self.position(slot), (slot, waker))
        };
        WaitersView { list, ..self }
    }

    /// The contents after the slot was taken out of the list.
    pub open spec fn with_unlinked(self, slot: usize) -> Self {
        let list = if self.is_in_list(slot) {
            self.list.remove(self.position(slot))
        } else {
            self.list
        };
        WaitersView { list, ..self }
    }

    /// The contents after the waiter of the slot is gone.
    pub open spec fn with_removed(self, slot: usize) -> Self {
        WaitersView { live: self.live.remove(slot), ..self.with_unlinked(slot) }
    }

    /// The contents after all wakers were taken out of the list.
    pub open spec fn with_drained(self) -> Self {
        WaitersView { list: Seq::empty(), ..self }
    }
}

/// A waiter that goes to sleep is in the list afterwards, and no one else enters or leaves it.
pub proof fn law_register_changes_own_slot<W>(
    waiters: WaitersView<W>,
    slot: usize,
    waker: W,
    keeps_waker: bool,
)
    requires
        waiters.wf(),
        waiters.live.contains(slot),
    ensures
        waiters.with_registered(slot, waker, keeps_waker).wf(),
        forall|s: usize| #[trigger]
            waiters.with_registered(slot, waker, keeps_waker).is_in_list(s) == (s == slot
                || waiters.is_in_list(s)),
{
    let after = waiters.with_registered(slot, waker, keeps_waker);
    let shift: int = if waiters.is_in_list(slot) {
        0
    } else {
        1
    };
    if shift == 1 {
        assert(after.list[0].0 == slot);
    } else {
        assert(after.list[waiters.position(slot)].0 == slot);
    }
    assert forall|s: usize| #[trigger] after.is_in_list(s) == (s == slot || waiters.is_in_list(s)) by {
        if waiters.is_in_list(s) {
            assert(after.list[waiters.position(s) + shift].0 == s);
        }
        if s != slot && after.is_in_list(s) {
            assert(waiters.list[after.position(s) - shift].0 == s);
        }
    }
}

/// A waiter that is gone is not in the list, and no one else enters or leaves it.
pub proof fn law_remove_changes_own_slot<W>(waiters: WaitersView<W>, slot: usize)
    requires
        waiters.wf(),
    ensures
        waiters.with_removed(slot).wf(),
        forall|s: usize| #[trigger]
            waiters.with_removed(slot).is_in_list(s) == (s != slot && waiters.is_in_list(s)),
{
    let after = waiters.with_removed(slot);
    if waiters.is_in_list(slot) {
        let k = waiters.position(slot);
        assert forall|s: usize| #[trigger]
            after.is_in_list(s) == (s != slot && waiters.is_in_list(s)) by {
            if s != slot && waiters.is_in_list(s) {
                let i = waiters.position(s);
                let j = if i < k {
                    i
                } else {
                    i - 1
                };
                assert(after.list[j].0 == s);
            }
            if after.is_in_list(s) {
                let j = after.position(s);
                let i = if j < k {
                    j
                } else {
                    j + 1
                };
                assert(waiters.list[i].0 == s);
            }
        }
    } else {
        assert(after.list == waiters.list);
        assert forall|s: usize| #[trigger]
            after.is_in_list(s) == (s != slot && waiters.is_in_list(s)) by {
            if after.is_in_list(s) {
                assert(waiters.list[after.position(s)].0 == s);
            }
            if waiters.is_in_list(s) {
                assert(after.list[waiters.position(s)].0 == s);
            }
        }
    }
}

/// The waiters of a notification, and the list of those that sleep.
pub struct WaitersList<W> {
    head: Option<usize>,
    slots: Vec<Slot<W>>,
    vacant: Vec<usize>,
    order: Ghost<Seq<usize>>,
}

impl<W> View for WaitersList<W> {
    type V = WaitersView<W>;

    closed spec fn view(&self) -> WaitersView<W> {
        WaitersView {
            list: Seq::new(
                self.order@.len(),
                |i: int| (self.order@[i], self.slots@[self.order@[i] as int].waker->0),
            ),
            live: Set::new(|slot: usize| slot < self.slots@.len() && !self.vacant@.contains(slot)),
        }
    }
}

/// The element of `order` before position `i`, if there is one.
spec fn before(order: Seq<usize>, i: int) -> Option<usize> {
    if i == 0 {
        None
    } else {
        Some(order[i - 1])
    }
}

/// The element of `order` after position `i`, if there is one.
spec fn behind(order: Seq<usize>, i: int) -> Option<usize> {
    if i + 1 < order.len() {
        Some(order[i + 1])
    } else {
        None
    }
}

/// Whether the slot at position `i` of `order` is an entry of the list: it is linked to its neighbours
/// and holds a waker.
spec fn is_entry<W>(slots: Seq<Slot<W>>, order: Seq<usize>, i: int) -> bool {
    let slot = order[i];
    &&& slot < slots.len()
    &&& slots[slot as int].is_in_list
    &&& slots[slot as int].waker is Some
    &&& slots[slot as int].prev == before(order, i)
    &&& slots[slot as int].next == behind(order, i)
}

/// Whether the slots, linked from `head` on, form a list of the slots `order`, and no other slot says
/// that it is in the list.
spec fn linked<W>(head: Option<usize>, slots: Seq<Slot<W>>, order: Seq<usize>) -> bool {
    &&& head == if order.len() > 0 {
        Some(order[0])
    } else {
        None
    }
    &&& forall|i: int| 0 <= i < order.len() ==> #[trigger] is_entry(slots, order, i)
    &&& forall|i: int, j: int|
        0 <= i < j < order.len() ==> #[trigger] order[i] != #[trigger] order[j]
    &&& forall|s: usize|
        s < slots.len() && (#[trigger] slots[s as int]).is_in_list ==> order.contains(s)
}

/// A list stays linked when its neighbours are linked to each other in place of the slot at position
/// `k`.
proof fn lemma_linked_without<W>(
    head: Option<usize>,
    slots: Seq<Slot<W>>,
    order: Seq<usize>,
    k: int,
    new_head: Option<usize>,
    new_slots: Seq<Slot<W>>,
)
    requires
        linked(head, slots, order),
        0 <= k < order.len(),
        new_slots.len() == slots.len(),
        !new_slots[order[k] as int].is_in_list,
        forall|s: usize|
            s < slots.len() && s != order[k] ==> {
                &&& (#[trigger] new_slots[s as int]).is_in_list == slots[s as int].is_in_list
                &&& new_slots[s as int].waker == slots[s as int].waker
                &&& new_slots[s as int].prev == if behind(order, k) == Some(s) {
                    before(order, k)
                } else {
                    slots[s as int].prev
                }
                &&& new_slots[s as int].next == if before(order, k) == Some(s) {
                    behind(order, k)
                } else {
                    slots[s as int].next
                }
            },
        new_head == if k == 0 {
            behind(order, 0)
        } else {
            head
        },
    ensures
        linked(new_head, new_slots, order.remove(k)),
{
    let new_order = order.remove(k);
    assert forall|i: int| 0 <= i < new_order.len() implies #[trigger] is_entry(
        new_slots,
        new_order,
        i,
    ) by {
        let j = if i < k {
            i
        } else {
            i + 1
        };
        assert(new_order[i] == order[j]);
        assert(is_entry(slots, order, j));
    }
    assert forall|s: usize|
        s < new_slots.len() && (
        #[trigger] new_slots[s as int]).is_in_list implies new_order.contains(s) by {
        assert(slots[s as int].is_in_list);
        let j = order.index_of(s);
        assert(order[j] == s);
        assert(j != k);
        let i = if j < k {
            j
        } else {
            j - 1
        };
        assert(new_order[i] == s);
    }
}

/// A list stays linked when a slot that is not in it is put before its head.
proof fn lemma_linked_in_front<W>(
    head: Option<usize>,
    slots: Seq<Slot<W>>,
    order: Seq<usize>,
    slot: usize,
    new_slots: Seq<Slot<W>>,
)
    requires
        linked(head, slots, order),
        slot < slots.len(),
        !slots[slot as int].is_in_list,
        new_slots.len() == slots.len(),
        new_slots[slot as int].is_in_list,
        new_slots[slot as int].waker is Some,
        new_slots[slot as int].prev is None,
        new_slots[slot as int].next == head,
        forall|s: usize|
            s < slots.len() && s != slot ==> {
                &&& (#[trigger] new_slots[s as int]).is_in_list == slots[s as int].is_in_list
                &&& new_slots[s as int].waker == slots[s as int].waker
                &&& new_slots[s as int].prev == if head == Some(s) {
                    Some(slot)
                } else {
                    slots[s as int].prev
                }
                &&& new_slots[s as int].next == slots[s as int].next
            },
    ensures
        linked(Some(slot), new_slots, seq![slot] + order),
{
    let new_order = seq![slot] + order;
    assert forall|i: int| 0 <= i < new_order.len() implies #[trigger] is_entry(
        new_slots,
        new_order,
        i,
    ) by {
        if i > 0 {
            assert(new_order[i] == order[i - 1]);
            assert(is_entry(slots, order, i - 1));
        }
    }
    assert forall|i: int, j: int| 0 <= i < j < new_order.len() implies #[trigger] new_order[i]
        != #[trigger] new_order[j] by {
        assert(new_order[j] == order[j - 1]);
        assert(is_entry(slots, order, j - 1));
        if i > 0 {
            assert(new_order[i] == order[i - 1]);
        }
    }
    assert forall|s: usize|
        s < new_slots.len() && (
        #[trigger] new_slots[s as int]).is_in_list implies new_order.contains(s) by {
        if s == slot {
            assert(new_order[0] == s);
        } else {
            assert(slots[s as int].is_in_list);
            let j = order.index_of(s);
            assert(order[j] == s);
            assert(new_order[j + 1] == s);
        }
    }
}

impl<W> WaitersList<W> {
    /// Whether the slots are linked up properly, and the vacant ones are not in the list.
    pub closed spec fn wf(self) -> bool {
        &&& linked(self.head, self.slots@, self.order@)
        &&& forall|k: int|
            0 <= k < self.vacant@.len() ==> (#[trigger] self.vacant@[k]) < self.slots@.len()
                && !self.slots@[self.vacant@[k] as int].is_in_list
        &&& forall|k: int, l: int|
            0 <= k < l < self.vacant@.len() ==> #[trigger] self.vacant@[k] != #[trigger] self.vacant@[l]
    }

    /// No slot is in the list of a well-formed list of waiters twice, and those in it belong to a
    /// waiter.
    pub proof fn law_wf(self)
        requires
            self.wf(),
        ensures
            self@.wf(),
    {
        self.lemma_view();
    }

    /// No waiters.
    pub fn new() -> (waiters: Self)
        ensures
            waiters.wf(),
            waiters@ == (WaitersView::<W> { list: Seq::empty(), live: Set::empty() }),
    {
        let waiters = WaitersList {
            head: None,
            slots: Vec::new(),
            vacant: Vec::new(),
            order: Ghost(Seq::empty()),
        };
        assert(waiters@ =~= WaitersView::<W> { list: Seq::empty(), live: Set::empty() });
        waiters
    }

    /// Gives a slot to a new waiter. It is not in the list.
    pub fn add_slot(&mut self) -> (slot: usize)
        requires
            old(self).wf(),
        ensures
            final(self).wf(),
            !old(self)@.live.contains(slot),
            !old(self)@.is_in_list(slot),
            final(self)@ == old(self)@.with_added(slot),
    {
        proof {
            self.lemma_view();
        }
        match self.vacant.pop() {
            Some(slot) => {
                proof {
                    let vacant = old(self).vacant@;
                    assert(vacant[vacant.len() - 1] == slot);
                    assert forall|s: usize| self.vacant@.contains(s) == (vacant.contains(s) && s
                        != slot) by {
                        if vacant.contains(s) && s != slot {
                            let k = choose|k: int| 0 <= k < vacant.len() && vacant[k] == s;
                            assert(self.vacant@[k] == s);
                        }
                        if self.vacant@.contains(s) {
                            let k = choose|k: int|
                                0 <= k < self.vacant@.len() && self.vacant@[k] == s;
                            assert(vacant[k] == s);
                        }
                    }
                    assert(self@ =~= old(self)@.with_added(slot));
                }
                slot
            },
            None => {
                let slot: usize = self.slots.len();
                self.slots.push(Slot::new());
                proof {
                    assert forall|i: int| 0 <= i < self.order@.len() implies #[trigger] is_entry(
                        self.slots@,
                        self.order@,
                        i,
                    ) by {
                        assert(is_entry(old(self).slots@, self.order@, i));
                    }
                    assert forall|i: int| 0 <= i < self.order@.len() implies self@.list[i]
                        == old(self)@.list[i] by {
                        assert(is_entry(old(self).slots@, self.order@, i));
                    }
                    assert(self@ =~= old(self)@.with_added(slot));
                }
                slot
            },
        }
    }

    /// Takes the slot out of the list, if it is there.
    fn unlink(&mut self, slot: usize)
        requires
            old(self).wf(),
            old(self)@.live.contains(slot),
        ensures
            final(self).wf(),
            final(self)@ == old(self)@.with_unlinked(slot),
            !final(self)@.is_in_list(slot),
    {
        proof {
            self.lemma_view();
        }
        if !self.slots[slot].is_in_list {
            return ;
        }
        let ghost order = self.order@;
        let ghost k = order.index_of(slot);
        assert(order.contains(slot));
        assert(is_entry(self.slots@, order, k));

        let prev_opt = self.slots[slot].prev;
        let next_opt = self.slots[slot].next;
        if let Some(next) = next_opt {
            assert(is_entry(self.slots@, order, k + 1));
            self.slots[next].prev = prev_opt;
        }
        match prev_opt {
            Some(prev) => {
                assert(is_entry(old(self).slots@, order, k - 1));
                self.slots[prev].next = next_opt;
            },
            None => {
                self.head = next_opt;
            },
        }
        self.slots[slot] = Slot::new();
        self.order = Ghost(order.remove(k));
        proof {
            lemma_linked_without(old(self).head, old(self).slots@, order, k, self.head, self.slots@);
            assert(old(self)@.list[k].0 == slot);
            assert(old(self)@.position(slot) == k);
            assert(self@ =~= old(self)@.with_unlinked(slot));
            self.lemma_view();
        }
    }

    /// Takes the slot from a waiter that is gone, and takes it out of the list, if it is there.
    pub fn remove_slot(&mut self, slot: usize)
        requires
            old(self).wf(),
            old(self)@.live.contains(slot),
        ensures
            final(self).wf(),
            final(self)@ == old(self)@.with_removed(slot),
    {
        self.unlink(slot);
        let ghost unlinked = *self;
        proof {
            self.lemma_view();
        }
        self.vacant.push(slot);
        proof {
            assert forall|s: usize| self.vacant@.contains(s) == (unlinked.vacant@.contains(s) || s
                == slot) by {
                if s == slot {
                    assert(self.vacant@[unlinked.vacant@.len() as int] == s);
                } else if unlinked.vacant@.contains(s) {
                    assert(self.vacant@[unlinked.vacant@.index_of(s)] == s);
                }
            }
            assert(self@ =~= old(self)@.with_removed(slot));
        }
    }

    /// Puts the slot into the list with `waker`, as its new head. If it is in the list already, its
    /// waker becomes `waker`, unless `will_wake` says of the waker that it has that it will wake the
    /// same task.
    pub fn register<F: Fn(&W) -> bool>(&mut self, slot: usize, waker: W, will_wake: F)
        requires
            old(self).wf(),
            old(self)@.live.contains(slot),
            old(self)@.is_in_list(slot) ==> call_requires(
                will_wake,
                (&old(self)@.list[old(self)@.position(slot)].1,),
            ),
        ensures
            final(self).wf(),
            exists|keeps_waker: bool|
                {
                    &&& final(self)@ == #[trigger] old(self)@.with_registered(
                        slot,
                        waker,
                        keeps_waker,
                    )
                    &&& old(self)@.is_in_list(slot) ==> call_ensures(
                        will_wake,
                        (&old(self)@.list[old(self)@.position(slot)].1,),
                        keeps_waker,
                    )
                },
    {
        proof {
            self.lemma_view();
        }
        if self.slots[slot].is_in_list {
            let ghost k = self@.position(slot);
            assert(is_entry(self.slots@, self.order@, k));
            let keeps_waker = match &self.slots[slot].waker {
                Some(existing_waker) => will_wake(existing_waker),
                None => false,
            };
            if !keeps_waker {
                self.slots[slot].waker = Some(waker);
                proof {
                    assert forall|i: int| 0 <= i < self.order@.len() implies #[trigger] is_entry(
                        self.slots@,
                        self.order@,
                        i,
                    ) by {
                        assert(is_entry(old(self).slots@, self.order@, i));
                    }
                    assert forall|s: usize|
                        s < self.slots@.len() && (
                        #[trigger] self.slots@[s as int]).is_in_list implies self.order@.contains(
                        s,
                    ) by {
                        assert(old(self).slots@[s as int].is_in_list);
                    }
                }
            }
            assert(self@ =~= old(self)@.with_registered(slot, waker, keeps_waker));
        } else {
            let head_opt = self.head;
            self.slots[slot] = Slot {
                prev: None,
                next: head_opt,
                waker: Some(waker),
                is_in_list: true,
            };
            if let Some(head) = head_opt {
                assert(is_entry(old(self).slots@, self.order@, 0));
                self.slots[head].prev = Some(slot);
            }
            self.head = Some(slot);
            let ghost order = self.order@;
            self.order = Ghost(seq![slot] + order);
            proof {
                lemma_linked_in_front(head_opt, old(self).slots@, order, slot, self.slots@);
                assert forall|i: int| 0 < i < self.order@.len() implies self@.list[i]
                    == old(self)@.list[i - 1] by {
                    assert(is_entry(old(self).slots@, order, i - 1));
                }
                assert(self@ =~= old(self)@.with_registered(slot, waker, false));
            }
        }
    }

    /// Takes all wakers out of the list, and returns them from the head of the list on.
    pub fn take_wakers(&mut self) -> (wakers: Vec<W>)
        requires
            old(self).wf(),
        ensures
            final(self).wf(),
            final(self)@ == old(self)@.with_drained(),
            wakers@ == old(self)@.wakers(),
            wakers@.len() == old(self)@.list.len(),
            forall|k: int|
                0 <= k < wakers@.len() ==> #[trigger] wakers@[k] == old(self)@.list[k].1,
    {
        let ghost order = self.order@;
        let ghost mut n: int = 0;
        let mut wakers: Vec<W> = Vec::new();
        let mut cur_opt = self.head;
        self.head = None;
        proof {
            assert forall|i: int| 0 <= i < order.len() implies (#[trigger] order[i])
                < self.slots@.len() by {
                assert(is_entry(self.slots@, order, i));
            }
        }
        while cur_opt.is_some()
            invariant
                0 <= n <= order.len(),
                linked(old(self).head, old(self).slots@, order),
                old(self).order@ == order,
                cur_opt == if n < order.len() {
                    Some(order[n])
                } else {
                    None
                },
                self.slots@.len() == old(self).slots@.len(),
                forall|i: int| 0 <= i < order.len() ==> (#[trigger] order[i]) < self.slots@.len(),
                forall|i: int|
                    n <= i < order.len() ==> self.slots@[(#[trigger] order[i]) as int] == old(
                        self,
                    ).slots@[order[i] as int],
                forall|i: int|
                    0 <= i < n ==> !self.slots@[(#[trigger] order[i]) as int].is_in_list,
                forall|s: usize|
                    s < self.slots@.len() && (#[trigger] self.slots@[s as int]).is_in_list ==> old(
                        self,
                    ).slots@[s as int].is_in_list,
                self.head is None,
                self.vacant@ == old(self).vacant@,
                wakers@ == old(self)@.wakers().take(n),
            decreases order.len() - n,
        {
            assert(is_entry(old(self).slots@, order, n));
            let cur: usize = cur_opt.unwrap();
            let next_opt = self.slots[cur].next;
            self.slots[cur].is_in_list = false;
            let waker_opt = self.slots[cur].waker.take();
            if let Some(waker) = waker_opt {
                wakers.push(waker);
            }
            cur_opt = next_opt;
            proof {
                n = n + 1;
                assert(old(self)@.wakers().take(n) =~= old(self)@.wakers().take(n - 1).push(
                    old(self)@.list[n - 1].1,
                ));
            }
        }
        self.order = Ghost(Seq::empty());
        proof {
            assert forall|s: usize| s < self.slots@.len() implies !(
            #[trigger] self.slots@[s as int]).is_in_list by {
                if self.slots@[s as int].is_in_list {
                    assert(order.contains(s));
                    let i = order.index_of(s);
                    assert(!self.slots@[order[i] as int].is_in_list);
                }
            }
            assert(self@ =~= old(self)@.with_drained());
            assert(old(self)@.wakers().take(n) =~= old(self)@.wakers());
        }
        wakers
    }

    /// What the slots say of the list is what its view says.
    proof fn lemma_view(self)
        requires
            self.wf(),
        ensures
            self@.wf(),
            forall|slot: usize| #[trigger]
                self@.live.contains(slot) ==> slot < self.slots@.len() && (
                self.slots@[slot as int].is_in_list <==> self@.is_in_list(slot)),
    {
        assert forall|i: int| 0 <= i < self.order@.len() implies self@.live.contains(
            (#[trigger] self@.list[i]).0,
        ) by {
            assert(is_entry(self.slots@, self.order@, i));
            if self.vacant@.contains(self.order@[i]) {
                let k = self.vacant@.index_of(self.order@[i]);
                assert(self.vacant@[k] == self.order@[i]);
            }
        }
        assert forall|slot: usize| #[trigger]
            self@.live.contains(slot) implies self.slots@[slot as int].is_in_list
            == self@.is_in_list(slot) by {
            if self.slots@[slot as int].is_in_list {
                let k = self.order@.index_of(slot);
                assert(self@.list[k].0 == slot);
            }
            if self@.is_in_list(slot) {
                assert(is_entry(self.slots@, self.order@, self@.position(slot)));
            }
        }
    }
}

/// Whoever is in the list is woken, each by its own waker: there are as many wakers as entries, and
/// each is that of its entry.
pub proof fn law_wakers_are_all_in_the_list<W>(waiters: WaitersView<W>)
    ensures
        waiters.wakers().len() == waiters.list.len(),
        forall|k: int|
            0 <= k < waiters.list.len() ==> #[trigger] waiters.wakers()[k] == waiters.list[k].1,
        forall|slot: usize|
            waiters.is_in_list(slot) ==> waiters.wakers().contains(
                (waiters.list[#[trigger] waiters.position(slot)]).1,
            ),
{
    assert forall|slot: usize| waiters.is_in_list(slot) implies waiters.wakers().contains(
        (waiters.list[#[trigger] waiters.position(slot)]).1,
    ) by {
        assert(waiters.wakers()[waiters.position(slot)] == waiters.list[waiters.position(slot)].1);
    }
}

/// A slot is in the list exactly if some entry is its, and its position is that of this entry.
pub proof fn law_position_in_the_list<W>(waiters: WaitersView<W>, k: int)
    requires
        waiters.wf(),
        0 <= k < waiters.list.len(),
    ensures
        waiters.is_in_list(waiters.list[k].0),
        waiters.position(waiters.list[k].0) == k,
{
    let slot = waiters.list[k].0;
    assert(waiters.is_in_list(slot));
    let l = waiters.position(slot);
    assert(waiters.list[l].0 == slot);
}

/// A waiter that goes to sleep and is not in the list becomes its head, with its waker. All others stay
/// in the list, in their order and with their wakers.
pub proof fn law_sleeper_becomes_the_head<W>(
    waiters: WaitersView<W>,
    slot: usize,
    waker: W,
    keeps_waker: bool,
)
    requires
        forall|k: int| 0 <= k < waiters.list.len() ==> (#[trigger] waiters.list[k]).0 != slot,
    ensures
        ({
            let after = waiters.with_registered(slot, waker, keeps_waker);
            &&& after.list.len() == waiters.list.len() + 1
            &&& after.list[0] == (slot, waker)
            &&& forall|k: int|
                0 <= k < waiters.list.len() ==> #[trigger] waiters.list[k] == after.list[k + 1]
            &&& after.live == waiters.live
        }),
{
}

/// A waiter that goes to sleep and is in the list stays where it is, with its old waker if that is
/// kept, and with the new one otherwise. Nothing else changes.
pub proof fn law_sleeper_keeps_its_place<W>(
    waiters: WaitersView<W>,
    k: int,
    waker: W,
    keeps_waker: bool,
)
    requires
        waiters.wf(),
        0 <= k < waiters.list.len(),
    ensures
        ({
            let after = waiters.with_registered(waiters.list[k].0, waker, keeps_waker);
            &&& after.list.len() == waiters.list.len()
            &&& after.list[k].0 == waiters.list[k].0
            &&& keeps_waker ==> after.list[k].1 == waiters.list[k].1
            &&& !keeps_waker ==> after.list[k].1 == waker
            &&& forall|l: int|
                0 <= l < waiters.list.len() && l != k ==> #[trigger] after.list[l] == waiters.list[l]
            &&& after.live == waiters.live
        }),
{
    law_position_in_the_list(waiters, k);
}

/// A waiter that is gone leaves the list, and those behind it move up. All others stay, in their order
/// and with their wakers.
pub proof fn law_removed_waiter_leaves_the_list<W>(waiters: WaitersView<W>, k: int)
    requires
        waiters.wf(),
        0 <= k < waiters.list.len(),
    ensures
        ({
            let after = waiters.with_removed(waiters.list[k].0);
            &&& after.list.len() == waiters.list.len() - 1
            &&& forall|l: int| 0 <= l < k ==> #[trigger] after.list[l] == waiters.list[l]
            &&& forall|l: int|
                k <= l < after.list.len() ==> #[trigger] after.list[l] == waiters.list[l + 1]
            &&& forall|slot: usize| #[trigger]
                after.live.contains(slot) <==> waiters.live.contains(slot) && slot
                    != waiters.list[k].0
        }),
{
    law_position_in_the_list(waiters, k);
}

/// A waiter that is gone and was not in the list leaves the list as it is.
pub proof fn law_removed_waiter_was_not_in_the_list<W>(waiters: WaitersView<W>, slot: usize)
    requires
        forall|k: int| 0 <= k < waiters.list.len() ==> (#[trigger] waiters.list[k]).0 != slot,
    ensures
        waiters.with_removed(slot).list == waiters.list,
        forall|other: usize| #[trigger]
            waiters.with_removed(slot).live.contains(other) <==> waiters.live.contains(other)
                && other != slot,
{
}

/// Taking the wakers empties the list, and leaves every waiter its slot. A new waiter gets a slot, and
/// leaves the list as it is.
pub proof fn law_drain_and_add<W>(waiters: WaitersView<W>, slot: usize, other: usize)
    ensures
        waiters.with_drained().list.len() == 0,
        waiters.with_drained().live == waiters.live,
        waiters.with_added(slot).list == waiters.list,
        waiters.with_added(slot).live.contains(other) <==> waiters.live.contains(other) || other
            == slot,
{
}

} // verus!
