//! A heap allocation of shared data whose value can be swapped while it is read: an rcu box.
use std::ops::Deref;
use vstd::prelude::*;

use crate::per_thread_storage::OwnedThreadStorageSlot;
use crate::reclamation::{Reclamation, ReclamationView};
use crate::synchronize::SyncPhase;
use crate::utils::PhantomUnsendUnsync;

verus! {

/// A read guard, which gives a view into the data the box held when it was read.
#[derive(Debug, PartialEq, Eq, PartialOrd, Ord, Hash)]
pub struct RcuBoxReadGuard<'a, T> {
    value: &'a T,
    /// Readers are tracked by the thread that they run on, so a guard must stay on its thread.
    _phantom: PhantomUnsendUnsync,
}

impl<'a, T> View for RcuBoxReadGuard<'a, T> {
    type V = T;

    closed spec fn view(&self) -> T {
        *self.value
    }
}

impl<'a, T> Deref for RcuBoxReadGuard<'a, T> {
    type Target = T;

    fn deref(&self) -> (value: &T)
        ensures
            *value == self@,
    {
        self.value
    }
}

/// Old data of an rcu box, which was swapped out for new data. Readers may still use it, so it has to
/// be waited for before it can be owned.
#[must_use]
pub struct RcuBoxOldData<T> {
    old_data: Box<T>,
}

impl<T> RcuBoxOldData<T> {
    /// The old data.
    pub closed spec fn old_data(self) -> Box<T> {
        self.old_data
    }

    /// Guards old data that was just swapped out.
    fn new(old_data: Box<T>) -> (guarded: Self)
        ensures
            guarded.old_data() == old_data,
    {
        RcuBoxOldData { old_data }
    }

    /// Begins to wait for everyone who may use the old data. It can be owned when the wait is
    /// finished.
    pub fn wait(self) -> (reclamation: Reclamation<Box<T>>)
        ensures
            reclamation@ == (ReclamationView {
                old_data: self.old_data(),
                phase: SyncPhase::Fence,
            }),
    {
        Reclamation::new(self.old_data)
    }
}

/// A tuple of [`RcuBoxOldData`] instances, each with its own type of data.
pub trait MultipleRcuBoxOldDataInstances: Sized {
    /// What comes out when all of them were waited for: the tuple of their data, each in its box.
    type WaitResult;

    /// The old data of all of them.
    spec fn all_old_data(self) -> Self::WaitResult;

    /// Begins to wait for everyone who may use any of the old data. One grace period is enough for
    /// all of it.
    fn wait(self) -> (reclamation: Reclamation<Self::WaitResult>)
        ensures
            reclamation@ == (ReclamationView {
                old_data: self.all_old_data(),
                phase: SyncPhase::Fence,
            }),
    ;
}

impl<A, B> MultipleRcuBoxOldDataInstances for (RcuBoxOldData<A>, RcuBoxOldData<B>) {
    type WaitResult = (Box<A>, Box<B>);

    open spec fn all_old_data(self) -> Self::WaitResult {
        (self.0.old_data(), self.1.old_data())
    }

    fn wait(self) -> Reclamation<Self::WaitResult> {
        Reclamation::new((self.0.old_data, self.1.old_data))
    }
}

impl<A, B, C> MultipleRcuBoxOldDataInstances for (RcuBoxOldData<A>, RcuBoxOldData<B>, RcuBoxOldData<C>) {
    type WaitResult = (Box<A>, Box<B>, Box<C>);

    open spec fn all_old_data(self) -> Self::WaitResult {
        (self.0.old_data(), self.1.old_data(), self.2.old_data())
    }

    fn wait(self) -> Reclamation<Self::WaitResult> {
        Reclamation::new((self.0.old_data, self.1.old_data, self.2.old_data))
    }
}

impl<A, B, C, D> MultipleRcuBoxOldDataInstances for (RcuBoxOldData<A>, RcuBoxOldData<B>, RcuBoxOldData<C>, RcuBoxOldData<D>) {
    type WaitResult = (Box<A>, Box<B>, Box<C>, Box<D>);

    open spec fn all_old_data(self) -> Self::WaitResult {
        (self.0.old_data(), self.1.old_data(), self.2.old_data(), self.3.old_data())
    }

    fn wait(self) -> Reclamation<Self::WaitResult> {
        Reclamation::new((self.0.old_data, self.1.old_data, self.2.old_data, self.3.old_data))
    }
}

impl<A, B, C, D, E> MultipleRcuBoxOldDataInstances for (RcuBoxOldData<A>, RcuBoxOldData<B>, RcuBoxOldData<C>, RcuBoxOldData<D>, RcuBoxOldData<E>) {
    type WaitResult = (Box<A>, Box<B>, Box<C>, Box<D>, Box<E>);

    open spec fn all_old_data(self) -> Self::WaitResult {
        (
            self.0.old_data(),
            self.1.old_data(),
            self.2.old_data(),
            self.3.old_data(),
            self.4.old_data(),
        )
    }

    fn wait(self) -> Reclamation<Self::WaitResult> {
        Reclamation::new((
            self.0.old_data,
            self.1.old_data,
            self.2.old_data,
            self.3.old_data,
            self.4.old_data,
        ))
    }
}

impl<A, B, C, D, E, F> MultipleRcuBoxOldDataInstances for (
    RcuBoxOldData<A>,
    RcuBoxOldData<B>,
    RcuBoxOldData<C>,
    RcuBoxOldData<D>,
    RcuBoxOldData<E>,
    RcuBoxOldData<F>,
) {
    type WaitResult = (Box<A>, Box<B>, Box<C>, Box<D>, Box<E>, Box<F>);

    open spec fn all_old_data(self) -> Self::WaitResult {
        (
            self.0.old_data(),
            self.1.old_data(),
            self.2.old_data(),
            self.3.old_data(),
            self.4.old_data(),
            self.5.old_data(),
        )
    }

    fn wait(self) -> Reclamation<Self::WaitResult> {
        Reclamation::new((
            self.0.old_data,
            self.1.old_data,
            self.2.old_data,
            self.3.old_data,
            self.4.old_data,
            self.5.old_data,
        ))
    }
}

impl<A, B, C, D, E, F, G> MultipleRcuBoxOldDataInstances for (
    RcuBoxOldData<A>,
    RcuBoxOldData<B>,
    RcuBoxOldData<C>,
    RcuBoxOldData<D>,
    RcuBoxOldData<E>,
    RcuBoxOldData<F>,
    RcuBoxOldData<G>,
) {
    type WaitResult = (Box<A>, Box<B>, Box<C>, Box<D>, Box<E>, Box<F>, Box<G>);

    open spec fn all_old_data(self) -> Self::WaitResult {
        (
            self.0.old_data(),
            self.1.old_data(),
            self.2.old_data(),
            self.3.old_data(),
            self.4.old_data(),
            self.5.old_data(),
            self.6.old_data(),
        )
    }

    fn wait(self) -> Reclamation<Self::WaitResult> {
        Reclamation::new((
            self.0.old_data,
            self.1.old_data,
            self.2.old_data,
            self.3.old_data,
            self.4.old_data,
            self.5.old_data,
            self.6.old_data,
        ))
    }
}

impl<A, B, C, D, E, F, G, H> MultipleRcuBoxOldDataInstances for (
    RcuBoxOldData<A>,
    RcuBoxOldData<B>,
    RcuBoxOldData<C>,
    RcuBoxOldData<D>,
    RcuBoxOldData<E>,
    RcuBoxOldData<F>,
    RcuBoxOldData<G>,
    RcuBoxOldData<H>,
) {
    type WaitResult = (Box<A>, Box<B>, Box<C>, Box<D>, Box<E>, Box<F>, Box<G>, Box<H>);

    open spec fn all_old_data(self) -> Self::WaitResult {
        (
            self.0.old_data(),
            self.1.old_data(),
            self.2.old_data(),
            self.3.old_data(),
            self.4.old_data(),
            self.5.old_data(),
            self.6.old_data(),
            self.7.old_data(),
        )
    }

    fn wait(self) -> Reclamation<Self::WaitResult> {
        Reclamation::new((
            self.0.old_data,
            self.1.old_data,
            self.2.old_data,
            self.3.old_data,
            self.4.old_data,
            self.5.old_data,
            self.6.old_data,
            self.7.old_data,
        ))
    }
}

impl<A, B, C, D, E, F, G, H, I> MultipleRcuBoxOldDataInstances for (
    RcuBoxOldData<A>,
    RcuBoxOldData<B>,
    RcuBoxOldData<C>,
    RcuBoxOldData<D>,
    RcuBoxOldData<E>,
    RcuBoxOldData<F>,
    RcuBoxOldData<G>,
    RcuBoxOldData<H>,
    RcuBoxOldData<I>,
) {
    type WaitResult = (Box<A>, Box<B>, Box<C>, Box<D>, Box<E>, Box<F>, Box<G>, Box<H>, Box<I>);

    open spec fn all_old_data(self) -> Self::WaitResult {
        (
            self.0.old_data(),
            self.1.old_data(),
            self.2.old_data(),
            self.3.old_data(),
            self.4.old_data(),
            self.5.old_data(),
            self.6.old_data(),
            self.7.old_data(),
            self.8.old_data(),
        )
    }

    fn wait(self) -> Reclamation<Self::WaitResult> {
        Reclamation::new((
            self.0.old_data,
            self.1.old_data,
            self.2.old_data,
            self.3.old_data,
            self.4.old_data,
            self.5.old_data,
            self.6.old_data,
            self.7.old_data,
            self.8.old_data,
        ))
    }
}

impl<A, B, C, D, E, F, G, H, I, J> MultipleRcuBoxOldDataInstances for (
    RcuBoxOldData<A>,
    RcuBoxOldData<B>,
    RcuBoxOldData<C>,
    RcuBoxOldData<D>,
    RcuBoxOldData<E>,
    RcuBoxOldData<F>,
    RcuBoxOldData<G>,
    RcuBoxOldData<H>,
    RcuBoxOldData<I>,
    RcuBoxOldData<J>,
) {
    type WaitResult = (Box<A>, Box<B>, Box<C>, Box<D>, Box<E>, Box<F>, Box<G>, Box<H>, Box<I>, Box<J>);

    open spec fn all_old_data(self) -> Self::WaitResult {
        (
            self.0.old_data(),
            self.1.old_data(),
            self.2.old_data(),
            self.3.old_data(),
            self.4.old_data(),
            self.5.old_data(),
            self.6.old_data(),
            self.7.old_data(),
            self.8.old_data(),
            self.9.old_data(),
        )
    }

    fn wait(self) -> Reclamation<Self::WaitResult> {
        Reclamation::new((
            self.0.old_data,
            self.1.old_data,
            self.2.old_data,
            self.3.old_data,
            self.4.old_data,
            self.5.old_data,
            self.6.old_data,
            self.7.old_data,
            self.8.old_data,
            self.9.old_data,
        ))
    }
}

impl<A, B, C, D, E, F, G, H, I, J, K> MultipleRcuBoxOldDataInstances for (
    RcuBoxOldData<A>,
    RcuBoxOldData<B>,
    RcuBoxOldData<C>,
    RcuBoxOldData<D>,
    RcuBoxOldData<E>,
    RcuBoxOldData<F>,
    RcuBoxOldData<G>,
    RcuBoxOldData<H>,
    RcuBoxOldData<I>,
    RcuBoxOldData<J>,
    RcuBoxOldData<K>,
) {
    type WaitResult = (
        Box<A>,
        Box<B>,
        Box<C>,
        Box<D>,
        Box<E>,
        Box<F>,
        Box<G>,
        Box<H>,
        Box<I>,
        Box<J>,
        Box<K>,
    );

    open spec fn all_old_data(self) -> Self::WaitResult {
        (
            self.0.old_data(),
            self.1.old_data(),
            self.2.old_data(),
            self.3.old_data(),
            self.4.old_data(),
            self.5.old_data(),
            self.6.old_data(),
            self.7.old_data(),
            self.8.old_data(),
            self.9.old_data(),
            self.10.old_data(),
        )
    }

    fn wait(self) -> Reclamation<Self::WaitResult> {
        Reclamation::new((
            self.0.old_data,
            self.1.old_data,
            self.2.old_data,
            self.3.old_data,
            self.4.old_data,
            self.5.old_data,
            self.6.old_data,
            self.7.old_data,
            self.8.old_data,
            self.9.old_data,
            self.10.old_data,
        ))
    }
}

impl<A, B, C, D, E, F, G, H, I, J, K, L> MultipleRcuBoxOldDataInstances for (
    RcuBoxOldData<A>,
    RcuBoxOldData<B>,
    RcuBoxOldData<C>,
    RcuBoxOldData<D>,
    RcuBoxOldData<E>,
    RcuBoxOldData<F>,
    RcuBoxOldData<G>,
    RcuBoxOldData<H>,
    RcuBoxOldData<I>,
    RcuBoxOldData<J>,
    RcuBoxOldData<K>,
    RcuBoxOldData<L>,
) {
    type WaitResult = (
        Box<A>,
        Box<B>,
        Box<C>,
        Box<D>,
        Box<E>,
        Box<F>,
        Box<G>,
        Box<H>,
        Box<I>,
        Box<J>,
        Box<K>,
        Box<L>,
    );

    open spec fn all_old_data(self) -> Self::WaitResult {
        (
            self.0.old_data(),
            self.1.old_data(),
            self.2.old_data(),
            self.3.old_data(),
            self.4.old_data(),
            self.5.old_data(),
            self.6.old_data(),
            self.7.old_data(),
            self.8.old_data(),
            self.9.old_data(),
            self.10.old_data(),
            self.11.old_data(),
        )
    }

    fn wait(self) -> Reclamation<Self::WaitResult> {
        Reclamation::new((
            self.0.old_data,
            self.1.old_data,
            self.2.old_data,
            self.3.old_data,
            self.4.old_data,
            self.5.old_data,
            self.6.old_data,
            self.7.old_data,
            self.8.old_data,
            self.9.old_data,
            self.10.old_data,
            self.11.old_data,
        ))
    }
}

/// Begins to wait for everyone who may use any of the old data of several rcu boxes, given as a tuple
/// `(RcuBoxOldData<A>, RcuBoxOldData<B>, ..)` of up to twelve. This takes a single grace period, where
/// waiting for each of them on its own would take one grace period each.
pub fn rcu_box_wait_multiple<T: MultipleRcuBoxOldDataInstances>(items: T) -> (reclamation:
    Reclamation<T::WaitResult>)
    ensures
        reclamation@ == (ReclamationView { old_data: items.all_old_data(), phase: SyncPhase::Fence }),
{
    items.wait()
}

/// An rcu box: its value can be swapped while readers read it, and they need no lock.
pub struct RcuBox<T> {
    value: Box<T>,
}

impl<T> View for RcuBox<T> {
    type V = T;

    closed spec fn view(&self) -> T {
        *self.value
    }
}

impl<T> RcuBox<T> {
    /// A box that holds the value.
    pub fn new(value: Box<T>) -> (rcu: Self)
        ensures
            rcu@ == *value,
    {
        RcuBox { value }
    }

    /// Hands the current data to `f`, on a thread that takes part in the tracking of readers.
    pub fn with<F, R>(&self, this_thread: &OwnedThreadStorageSlot, f: F) -> (res: R) where
        F: FnOnce(&T) -> R,

        requires
            this_thread@ is Some,
            call_requires(f, (&self@,)),
        ensures
            call_ensures(f, (&self@,), res),
    {
        self.with_unchecked(f)
    }

    /// Hands the current data to `f`. The thread that calls this has to take part in the tracking of
    /// readers.
    pub fn with_unchecked<F, R>(&self, f: F) -> (res: R) where F: FnOnce(&T) -> R
        requires
            call_requires(f, (&self@,)),
        ensures
            call_ensures(f, (&self@,), res),
    {
        let guard = self.read();
        f(guard.deref())
    }

    /// A guard of the current data. The thread that calls this has to take part in the tracking of
    /// readers, and the guard must not be kept over a point where the task yields.
    pub fn read(&self) -> (guard: RcuBoxReadGuard<'_, T>)
        ensures
            guard@ == self@,
    {
        RcuBoxReadGuard { value: &*self.value, _phantom: PhantomUnsendUnsync::new() }
    }

    /// Swaps in the new value, and returns the old one, which can be owned once everyone was waited
    /// for who may use it.
    pub fn swap_nowait(&mut self, new_value: Box<T>) -> (old_data: RcuBoxOldData<T>)
        ensures
            final(self)@ == *new_value,
            *old_data.old_data() == old(self)@,
    {
        let mut value = new_value;
        std::mem::swap(&mut self.value, &mut value);
        RcuBoxOldData::new(value)
    }

    /// Swaps in the new value, and begins to wait for everyone who may use the old one, which can be
    /// owned when the wait is finished.
    pub fn swap(&mut self, new_value: Box<T>) -> (reclamation: Reclamation<Box<T>>)
        ensures
            final(self)@ == *new_value,
            *reclamation@.old_data == old(self)@,
            reclamation@.phase == SyncPhase::Fence,
    {
        self.swap_nowait(new_value).wait()
    }
}

impl<T: Clone> RcuBox<T> {
    /// A clone of the current data, on a thread that takes part in the tracking of readers.
    pub fn read_clone(&self, this_thread: &OwnedThreadStorageSlot) -> (value: T)
        requires
            this_thread@ is Some,
        ensures
            cloned(self@, value),
    {
        self.read().deref().clone()
    }
}

} // verus!
