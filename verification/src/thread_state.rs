//! The state that each thread publishes for the bookkeeping, and its packed form.
use vstd::prelude::*;

use crate::epoch::{valid_epoch_id, EpochId};

verus! {

/// A thread state in its packed form: the last seen epoch id, which is even, with the busy flag in
/// the least significant bit.
pub type EncodedThreadState = EpochId;

/// The state of a thread, as far as the bookkeeping needs it.
#[derive(Debug, Clone, Copy, PartialEq, Eq, Structural)]
pub struct ThreadState {
    /// The last epoch id that the thread has seen.
    pub last_seen_epoch_id: EpochId,
    /// Whether the thread is running code, as opposed to being parked.
    pub is_busy: bool,
}

/// The packed form of `state`.
pub open spec fn encoded(state: ThreadState) -> EncodedThreadState {
    (state.last_seen_epoch_id + if state.is_busy {
        1int
    } else {
        0int
    }) as EncodedThreadState
}

/// The thread state that a packed form stands for; the vacant value stands for none.
pub open spec fn decoded(encoded: EncodedThreadState) -> Option<ThreadState> {
    if encoded == 0 {
        None
    } else {
        Some(
            ThreadState {
                last_seen_epoch_id: (encoded - encoded % 2) as EpochId,
                is_busy: encoded % 2 == 1,
            },
        )
    }
}

/// Whether `encoded` is vacant or the packed form of a thread state with a valid epoch id.
pub open spec fn valid_encoded(encoded: EncodedThreadState) -> bool {
    encoded != 1
}

impl ThreadState {
    /// The packed value that stands for no thread state: that of a vacant storage slot.
    pub const NONE_ENCODED_VALUE: EncodedThreadState = 0;

    /// Whether the state can be packed: its epoch id is a valid one.
    pub open spec fn valid(self) -> bool {
        valid_epoch_id(self.last_seen_epoch_id)
    }

    /// Unpacks a thread state; `None` for the value of a vacant slot.
    pub fn decode(encoded: EncodedThreadState) -> (state: Option<ThreadState>)
        requires
            valid_encoded(encoded),
        ensures
            state == decoded(encoded),
            state matches Some(s) ==> s.valid(),
    {
        if encoded == Self::NONE_ENCODED_VALUE {
            None
        } else {
            let last_seen_epoch_id: EpochId = encoded & (!1);
            assert(encoded & (!1u32) == encoded - encoded % 2) by (bit_vector);
            assert((encoded & 1u32) == encoded % 2) by (bit_vector);
            Some(ThreadState { last_seen_epoch_id, is_busy: (encoded & 1) != 0 })
        }
    }

    /// Packs the thread state.
    pub fn encode(self) -> (res: EncodedThreadState)
        requires
            self.valid(),
        ensures
            res == encoded(self),
            res != Self::NONE_ENCODED_VALUE,
            valid_encoded(res),
    {
        let busy_bit: EncodedThreadState = if self.is_busy {
            1
        } else {
            0
        };
        let epoch_id: EpochId = self.last_seen_epoch_id;
        assert(epoch_id % 2 == 0 && busy_bit < 2 ==> epoch_id | busy_bit == epoch_id + busy_bit)
            by (bit_vector);
        epoch_id | busy_bit
    }
}

/// Unpacking undoes packing.
pub proof fn law_decode_undoes_encode(state: ThreadState)
    requires
        state.valid(),
    ensures
        decoded(encoded(state)) == Some(state),
        encoded(state) != ThreadState::NONE_ENCODED_VALUE,
        valid_encoded(encoded(state)),
{
}

/// Packing undoes unpacking, for every packed thread state.
pub proof fn law_encode_undoes_decode(value: EncodedThreadState)
    requires
        valid_encoded(value),
        value != ThreadState::NONE_ENCODED_VALUE,
    ensures
        decoded(value) matches Some(state) && state.valid() && encoded(state) == value,
{
}

/// No two thread states share a packed form.
pub proof fn law_encode_is_injective(a: ThreadState, b: ThreadState)
    requires
        a.valid(),
        b.valid(),
        encoded(a) == encoded(b),
    ensures
        a == b,
{
}

/// In the packed form the least significant bit is the busy flag, and the other bits are the epoch id.
pub proof fn law_packed_form(state: ThreadState)
    requires
        state.valid(),
    ensures
        encoded(state) & 1 == if state.is_busy {
            1u32
        } else {
            0u32
        },
        encoded(state) & !1 == state.last_seen_epoch_id,
{
    let epoch_id = state.last_seen_epoch_id;
    let packed = encoded(state);
    assert(packed % 2 == packed & 1) by (bit_vector);
    assert(packed & !1 == packed - packed % 2) by (bit_vector);
    assert(epoch_id % 2 == 0);
}

/// Only the vacant value stands for no thread state; every other one can be taken apart into its bits.
pub proof fn law_unpacked_form(value: EncodedThreadState)
    requires
        valid_encoded(value),
    ensures
        decoded(value) is None <==> value == 0,
        decoded(value) matches Some(state) ==> state.last_seen_epoch_id == value & !1
            && state.is_busy == (value & 1 == 1),
{
    assert(value % 2 == value & 1) by (bit_vector);
    assert(value & !1 == value - value % 2) by (bit_vector);
}

/// Every packed value but one, a busy thread with epoch id 0, is vacant or that of a thread state.
pub proof fn law_valid_packed_values(value: EncodedThreadState)
    ensures
        valid_encoded(value) <==> (value == 0 || exists|state: ThreadState| #[trigger]
            encoded(state) == value && state.valid()),
{
    if value > 1 {
        let state = ThreadState {
            last_seen_epoch_id: (value - value % 2) as EpochId,
            is_busy: value % 2 == 1,
        };
        assert(encoded(state) == value && state.valid());
    }
    if value == 1 {
        assert forall|state: ThreadState| #[trigger] encoded(state) == value implies !state.valid() by {}
    }
}

} // verus!
