//! A pointer to shared data that can be swapped while the data is read: an rcu protected pointer.
use std::ops::Deref;
use vstd::prelude::*;

use crate::per_thread_storage::OwnedThreadStorageSlot;
use crate::reclamation::{Reclamation, ReclamationView};
use crate::synchronize::SyncPhase;
use crate::utils::PhantomUnsendUnsync;

verus! {

/// A read guard, which gives a view into the data the pointer held when it was read.
#[derive(Debug, PartialEq, Eq, PartialOrd, Ord, Clone, Copy, Hash)]
pub struct RcuReadGuard<'a, T> {
    value: &'a T,
    /// Readers are tracked by the thread that they run on, so a guard must stay on its thread.
    _phantom: PhantomUnsendUnsync,
}

impl<'a, T> View for RcuReadGuard<'a, T> {
    type V = T;

    closed spec fn view(&self) -> T {
        *self.value
    }
}

impl<'a, T> Deref for RcuReadGuard<'a, T> {
    type Target = T;

    fn deref(&self) -> (value: &T)
        ensures
            *value == self@,
    {
        self.value
    }
}

/// Old data of an rcu protected pointer, which was swapped out for new data. Readers may still use it, so it has to
/// be waited for before it can be owned.
#[must_use]
pub struct RcuOldData<T> {
    old_data: Box<T>,
}

impl<T> RcuOldData<T> {
    /// The old data.
    pub closed spec fn old_data(self) -> Box<T> {
        self.old_data
    }

    /// Guards old data that was just swapped out.
    fn new(old_data: Box<T>) -> (guarded: Self)
        ensures
            guarded.old_data() == old_data,
    {
        RcuOldData { old_data }
    }

    /// Begins to wait for everyone who may use the old data. It can be owned when the wait is
    /// finished.
    pub fn wait(self) -> (reclamation: Reclamation<Box<T>>)
        ensures
            reclamation@ == (ReclamationView {
                old_data: self.old_data(),
                phase: SyncPhase::Fence,
            }),
    {
        Reclamation::new(self.old_data)
    }
}

/// An rcu protected pointer: it can be swapped while readers use the data, and they need no lock.
pub struct Rcu<T> {
    value: Box<T>,
}

impl<T> View for Rcu<T> {
    type V = T;

    closed spec fn view(&self) -> T {
        *self.value
    }
}

impl<T> Rcu<T> {
    /// A pointer to the value.
    pub fn new(value: Box<T>) -> (rcu: Self)
        ensures
            rcu@ == *value,
    {
        Rcu { value }
    }

    /// Hands the current data to `f`, on a thread that takes part in the tracking of readers.
    pub fn with<F, R>(&self, this_thread: &OwnedThreadStorageSlot, f: F) -> (res: R) where
        F: FnOnce(&T) -> R,

        requires
            this_thread@ is Some,
            call_requires(f, (&self@,)),
        ensures
            call_ensures(f, (&self@,), res),
    {
        let guard = self.read(this_thread);
        f(guard.deref())
    }

    /// A guard of the current data, on a thread that takes part in the tracking of readers. The guard
    /// must not be kept over a point where the task yields.
    pub fn read(&self, this_thread: &OwnedThreadStorageSlot) -> (guard: RcuReadGuard<'_, T>)
        requires
            this_thread@ is Some,
        ensures
            guard@ == self@,
    {
        RcuReadGuard { value: &*self.value, _phantom: PhantomUnsendUnsync::new() }
    }

    /// Swaps in the new value, and returns the old one, which can be owned once everyone was waited
    /// for who may use it.
    pub fn swap_nowait(&mut self, new_value: Box<T>) -> (old_data: RcuOldData<T>)
        ensures
            final(self)@ == *new_value,
            *old_data.old_data() == old(self)@,
    {
        let mut value = new_value;
        std::mem::swap(&mut self.value, &mut value);
        RcuOldData::new(value)
    }

    /// Swaps in the new value, and begins to wait for everyone who may use the old one, which can be
    /// owned when the wait is finished.
    pub fn swap(&mut self, new_value: Box<T>) -> (reclamation: Reclamation<Box<T>>)
        ensures
            final(self)@ == *new_value,
            *reclamation@.old_data == old(self)@,
            reclamation@.phase == SyncPhase::Fence,
    {
        self.swap_nowait(new_value).wait()
    }
}

} // verus!
