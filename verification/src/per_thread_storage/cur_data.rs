//! The buffer behind the thread storage slots, and the outside calls that work on it.
use vstd::prelude::*;

use index_type::vec::TypedVec;
use index_type::{GenericIndexTooBigError, IndexType};
use std::num::NonZeroU16;

use crate::thread_state::EncodedThreadState;

verus! {

/// The largest number of storage slots: the largest length that a `TypedVec` with `NonZeroU16`
/// indices can have.
pub const MAX_THREAD_STORAGE_SLOTS: usize = 65534;

/// The error of a push that would take the buffer past what its index type can count.
#[verifier::external_type_specification]
#[verifier::external_body]
pub struct ExGenericIndexTooBigError(GenericIndexTooBigError);

/// The current buffer of storage slots: the encoded state of each, by slot index.
///
/// The buffer is an `index_type` vector, whose niche-optimised index type counts up to
/// [`MAX_THREAD_STORAGE_SLOTS`].
#[verifier::external_body]
pub struct ThreadStorageSlotsCurData {
    slots: TypedVec<NonZeroU16, EncodedThreadState>,
}

/// The encoded states in the buffer, by slot index.
pub uninterp spec fn buffer_states(data: ThreadStorageSlotsCurData) -> Seq<EncodedThreadState>;

impl View for ThreadStorageSlotsCurData {
    type V = Seq<EncodedThreadState>;

    open spec fn view(&self) -> Seq<EncodedThreadState> {
        buffer_states(*self)
    }
}

/// `branches::likely` hands its argument back; it only hints at which branch is taken more often.
pub assume_specification[ branches::likely ](b: bool) -> (res: bool)
    ensures
        res == b,
;

/// `num_cpus::get`: the number of CPUs that this process may use, which is at least 1. It depends
/// on the machine and may change from call to call.
#[verifier::external_body]
pub(crate) fn num_cpus_get() -> (cpus: usize)
    ensures
        cpus >= 1,
{
    num_cpus::get()
}

impl ThreadStorageSlotsCurData {
    /// `TypedVec::new`: a buffer that holds nothing.
    #[verifier::external_body]
    pub(crate) fn new() -> (data: Self)
        ensures
            buffer_states(data) == Seq::<EncodedThreadState>::empty(),
    {
        ThreadStorageSlotsCurData { slots: TypedVec::new() }
    }

    /// `TypedVec::with_capacity`: a buffer that holds nothing, with space set aside for `capacity`
    /// slots, of four bytes each. It panics on a capacity of more than `isize::MAX` bytes.
    #[verifier::external_body]
    pub(crate) fn with_capacity(capacity: usize) -> (data: Self)
        requires
            capacity * 4 <= isize::MAX,
        ensures
            buffer_states(data) == Seq::<EncodedThreadState>::empty(),
    {
        ThreadStorageSlotsCurData { slots: TypedVec::with_capacity(capacity) }
    }

    /// `TypedVec::len_usize`: the number of slots in the buffer.
    #[verifier::external_body]
    pub(crate) fn len(&self) -> (len: usize)
        ensures
            len == buffer_states(*self).len(),
    {
        self.slots.len_usize()
    }

    /// `TypedVec::capacity`: the number of slots that there is space for, which is never less than
    /// the number of slots in the buffer. How much more is up to the allocator.
    #[verifier::external_body]
    pub(crate) fn capacity(&self) -> (capacity: usize)
        ensures
            capacity >= buffer_states(*self).len(),
    {
        self.slots.capacity()
    }

    /// `TypedVec::try_push`: appends a slot and returns its index, the length before. It fails, and
    /// changes nothing, exactly if the index type cannot count one slot more.
    #[verifier::external_body]
    pub(crate) fn try_push(&mut self, state: EncodedThreadState) -> (res: Result<
        usize,
        GenericIndexTooBigError,
    >)
        ensures
            res is Ok <==> buffer_states(*old(self)).len() < MAX_THREAD_STORAGE_SLOTS,
            res matches Ok(index) ==> index == buffer_states(*old(self)).len() && buffer_states(
                *final(self),
            ) == buffer_states(*old(self)).push(state),
            res is Err ==> buffer_states(*final(self)) == buffer_states(*old(self)),
    {
        match self.slots.try_push(state) {
            Ok(index) => Ok(index.to_raw_index()),
            Err(err) => Err(err),
        }
    }

    /// `TypedVec::push`: appends a slot and returns its index, the length before. It panics if the
    /// index type cannot count one slot more.
    #[verifier::external_body]
    pub(crate) fn push(&mut self, state: EncodedThreadState) -> (index: usize)
        requires
            buffer_states(*old(self)).len() < MAX_THREAD_STORAGE_SLOTS,
        ensures
            index == buffer_states(*old(self)).len(),
            buffer_states(*final(self)) == buffer_states(*old(self)).push(state),
    {
        self.slots.push(state).to_raw_index()
    }

    /// Indexing of a `TypedVec`: the state at a slot index. It panics past the end.
    #[verifier::external_body]
    pub(crate) fn get(&self, index: u16) -> (state: EncodedThreadState)
        requires
            index < buffer_states(*self).len(),
            index < MAX_THREAD_STORAGE_SLOTS,
        ensures
            state == buffer_states(*self)[index as int],
    {
        self.slots[NonZeroU16::from_raw_index(index as usize)]
    }

    /// Mutable indexing of a `TypedVec`: stores a state at a slot index. It panics past the end.
    #[verifier::external_body]
    pub(crate) fn set(&mut self, index: u16, state: EncodedThreadState)
        requires
            index < buffer_states(*old(self)).len(),
            index < MAX_THREAD_STORAGE_SLOTS,
        ensures
            buffer_states(*final(self)) == buffer_states(*old(self)).update(index as int, state),
    {
        self.slots[NonZeroU16::from_raw_index(index as usize)] = state;
    }
}

} // verus!
