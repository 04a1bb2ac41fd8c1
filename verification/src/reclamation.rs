//! Old data that is waiting to be reclaimed.
//!
//! Old data that readers may still use can be owned again once a grace period is over that began
//! after the data was swapped out. A [`Reclamation`] holds the old data and waits for the grace
//! period: the data does not come out before the wait is finished.
use vstd::prelude::*;

use crate::epoch::{incremented, EpochCounter, EPOCH_ID_MIN};
use crate::per_thread_storage::thread_storage_slots::ThreadStorageSlots;
use crate::per_thread_storage::OwnedThreadStorageSlot;
use crate::synchronize::{need_not_wait, SeenGoal, SyncAction, SyncPhase, SynchronizeRcu};

verus! {

/// The state of a reclamation.
pub ghost struct ReclamationView<V> {
    /// The old data.
    pub old_data: V,
    /// How far the wait got.
    pub phase: SyncPhase,
}

/// Old data, and the wait for its readers.
pub struct Reclamation<V> {
    old_data: V,
    synchronize: SynchronizeRcu,
}

impl<V> View for Reclamation<V> {
    type V = ReclamationView<V>;

    closed spec fn view(&self) -> ReclamationView<V> {
        ReclamationView { old_data: self.old_data, phase: self.synchronize@ }
    }
}

impl<V> Reclamation<V> {
    /// Old data that was just swapped out, and a wait that is about to begin.
    pub fn new(old_data: V) -> (reclamation: Self)
        ensures
            reclamation@ == (ReclamationView { old_data, phase: SyncPhase::Fence }),
    {
        Reclamation { old_data, synchronize: SynchronizeRcu::new() }
    }

    /// What has to be done next.
    pub fn action(&self) -> (action: SyncAction)
        ensures
            action == self@.phase.action(),
            action == SyncAction::Finished <==> self@.phase == SyncPhase::Finished,
    {
        self.synchronize.action()
    }

    /// Goes on, now that what the wait asked for is done. See [`SynchronizeRcu::advance`].
    pub fn advance(&mut self, epoch: &mut EpochCounter)
        requires
            old(self)@.phase.awaits_completion(),
        ensures
            final(self)@.old_data == old(self)@.old_data,
            final(self)@.phase == old(self)@.phase.completed(old(epoch)@),
            final(epoch)@ == old(self)@.phase.epoch_id_when_completed(old(epoch)@),
    {
        self.synchronize.advance(epoch);
    }

    /// Goes on after the attempt to take the reset lock again. See [`SynchronizeRcu::relock`].
    pub fn relock(&mut self, epoch: &mut EpochCounter, acquired: bool)
        requires
            old(self)@.phase == SyncPhase::RelockShared,
        ensures
            final(self)@.old_data == old(self)@.old_data,
            final(self)@.phase == old(self)@.phase.relocked(acquired, old(epoch)@),
            final(epoch)@ == if acquired {
                incremented(old(epoch)@)
            } else {
                old(epoch)@
            },
    {
        self.synchronize.relock(epoch, acquired);
    }

    /// Looks at the states of all threads, and goes on. See [`SynchronizeRcu::scan`].
    pub fn scan(&mut self, slots: &ThreadStorageSlots, this_thread: &OwnedThreadStorageSlot)
        requires
            slots.wf(),
            this_thread@ is Some,
            old(self)@.phase.scan_goal() is Some,
        ensures
            final(self)@.old_data == old(self)@.old_data,
            old(self)@.phase.scan_goal() matches Some(goal) && final(self)@.phase == old(
                self,
            )@.phase.scanned(need_not_wait(slots@.states, this_thread@->0, goal)),
            old(self)@.phase matches SyncPhase::Scan(epoch_id) ==> final(self)@.phase
                == if need_not_wait(
                slots@.states,
                this_thread@->0,
                SeenGoal::AtLeast(epoch_id),
            ) {
                SyncPhase::Unlock
            } else {
                SyncPhase::Sleep(epoch_id)
            },
            old(self)@.phase == SyncPhase::ResetScan ==> final(self)@.phase == if need_not_wait(
                slots@.states,
                this_thread@->0,
                SeenGoal::Exactly(EPOCH_ID_MIN),
            ) {
                SyncPhase::AnnounceReset
            } else {
                SyncPhase::ResetSleep
            },
    {
        self.synchronize.scan(slots, this_thread);
    }

    /// Whether the grace period is over.
    pub fn is_finished(&self) -> (res: bool)
        ensures
            res <==> self@.phase == SyncPhase::Finished,
    {
        self.synchronize.is_finished()
    }

    /// The old data, which no one else uses any more. The grace period has to be over.
    pub fn finish(self) -> (old_data: V)
        requires
            self@.phase == SyncPhase::Finished,
        ensures
            old_data == self@.old_data,
    {
        self.old_data
    }
}

} // verus!
