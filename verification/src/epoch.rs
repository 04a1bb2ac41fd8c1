//! The global epoch id.
//!
//! A writer that waits for a grace period increments the epoch id; every thread publishes the
//! epoch id that it saw last each time it passes through a quiescent state. Once every busy thread
//! has published an epoch id at least as large as the writer's, the grace period is over.
use vstd::prelude::*;

verus! {

/// An epoch id. The valid epoch ids are the even integers greater than 0.
///
/// Even, so that the least significant bit of an encoded thread state is free for a flag; non-zero,
/// so that 0 can stand for "no thread state".
pub type EpochId = u32;

/// The smallest valid epoch id.
pub const EPOCH_ID_MIN: EpochId = 2;

/// The largest valid epoch id: the epoch id is always even, so this is one less than the largest
/// integer of its type.
pub const EPOCH_ID_MAX: EpochId = 0xffff_fffe;

/// Whether `epoch_id` is an epoch id that the counter can hold.
pub open spec fn valid_epoch_id(epoch_id: EpochId) -> bool {
    epoch_id > 0 && epoch_id % 2 == 0
}

/// Incrementing the epoch id reached its largest value: it has to be reset.
#[derive(Debug, Clone, Copy, PartialEq, Eq, Structural)]
pub struct EpochIdOverflowErr {
    /// Whether this is the increment that took the epoch id to its largest value. Until the epoch
    /// id is reset, every other increment fails without being the leader.
    pub am_i_the_leader: bool,
}

/// The global epoch id. It always holds a valid epoch id.
pub struct EpochCounter {
    cur: EpochId,
}

impl View for EpochCounter {
    type V = EpochId;

    closed spec fn view(&self) -> EpochId {
        self.cur
    }
}

impl EpochCounter {
    #[verifier::type_invariant]
    spec fn holds_valid_epoch_id(self) -> bool {
        valid_epoch_id(self.cur)
    }

    /// The epoch id before any increment.
    pub fn new() -> (counter: Self)
        ensures
            counter@ == EPOCH_ID_MIN,
    {
        EpochCounter { cur: EPOCH_ID_MIN }
    }
}

/// The epoch id after one increment of `cur`: it grows by 2, and stays where it is at its largest
/// value.
pub open spec fn incremented(cur: EpochId) -> EpochId {
    if cur == EPOCH_ID_MAX {
        cur
    } else {
        (cur + 2) as EpochId
    }
}

/// What an increment of `cur` returns.
pub open spec fn increment_result(cur: EpochId) -> Result<EpochId, EpochIdOverflowErr> {
    if incremented(cur) < EPOCH_ID_MAX {
        Ok(incremented(cur))
    } else {
        Err(EpochIdOverflowErr { am_i_the_leader: cur != EPOCH_ID_MAX })
    }
}

/// The current epoch id.
pub fn epoch_id_get(counter: &EpochCounter) -> (epoch_id: EpochId)
    ensures
        epoch_id == counter@,
        valid_epoch_id(epoch_id),
{
    proof {
        use_type_invariant(counter);
    }
    counter.cur
}

/// Increments the epoch id and returns the new one.
///
/// Reaching the largest epoch id is reported as an overflow: the increment that reaches it is the
/// leader of the reset that is now due. From then on, until the reset, the epoch id stays at its
/// largest value and increments fail without being the leader.
pub fn epoch_id_inc(counter: &mut EpochCounter) -> (res: Result<EpochId, EpochIdOverflowErr>)
    ensures
        final(counter)@ == incremented(old(counter)@),
        res == increment_result(old(counter)@),
        valid_epoch_id(final(counter)@),
{
    proof {
        use_type_invariant(&*counter);
    }
    match counter.cur.checked_add(2) {
        Some(new_epoch_id) => {
            counter.cur = new_epoch_id;
            if new_epoch_id > EpochId::MAX - 2 {
                return Err(EpochIdOverflowErr { am_i_the_leader: true });
            }
            Ok(new_epoch_id)
        },
        None => Err(EpochIdOverflowErr { am_i_the_leader: false }),
    }
}

/// Sets the epoch id.
pub fn epoch_id_set(counter: &mut EpochCounter, new_value: EpochId)
    requires
        valid_epoch_id(new_value),
    ensures
        final(counter)@ == new_value,
{
    counter.cur = new_value;
}

/// The epoch id after `n` increments of `cur`.
pub open spec fn incremented_times(cur: EpochId, n: nat) -> EpochId
    decreases n,
{
    if n == 0 {
        cur
    } else {
        incremented(incremented_times(cur, (n - 1) as nat))
    }
}

/// How many of `n` increments in a row, starting at `cur`, fail as the leader of an overflow.
pub open spec fn leaders(cur: EpochId, n: nat) -> nat
    decreases n,
{
    if n == 0 {
        0
    } else {
        let before = incremented_times(cur, (n - 1) as nat);
        leaders(cur, (n - 1) as nat) + if increment_result(before) == Err::<
            EpochId,
            EpochIdOverflowErr,
        >(EpochIdOverflowErr { am_i_the_leader: true }) {
            1nat
        } else {
            0nat
        }
    }
}

/// `n` increments add `2 * n`, up to the largest epoch id, where the epoch id stays until it is
/// set anew.
pub proof fn law_increments_add_up(cur: EpochId, n: nat)
    requires
        valid_epoch_id(cur),
    ensures
        incremented_times(cur, n) == if cur + 2 * n < EPOCH_ID_MAX {
            cur + 2 * n
        } else {
            EPOCH_ID_MAX as int
        },
        valid_epoch_id(incremented_times(cur, n)),
    decreases n,
{
    if n > 0 {
        law_increments_add_up(cur, (n - 1) as nat);
    }
}

/// Every overflow has exactly one leader: of `n` increments in a row exactly one is the leader if
/// they take the epoch id to its largest value, and none is if they do not, or if it was there
/// before.
pub proof fn law_one_leader_per_overflow(cur: EpochId, n: nat)
    requires
        valid_epoch_id(cur),
    ensures
        leaders(cur, n) == if cur < EPOCH_ID_MAX && incremented_times(cur, n) == EPOCH_ID_MAX {
            1nat
        } else {
            0nat
        },
    decreases n,
{
    if n > 0 {
        law_one_leader_per_overflow(cur, (n - 1) as nat);
        law_increments_add_up(cur, (n - 1) as nat);
    }
}

/// An increment never lowers the epoch id, and one that succeeds raises it.
pub proof fn law_increment_is_monotonic(cur: EpochId)
    requires
        valid_epoch_id(cur),
    ensures
        cur <= incremented(cur),
        valid_epoch_id(incremented(cur)),
        increment_result(cur) matches Ok(new_epoch_id) ==> cur < new_epoch_id && new_epoch_id
            == incremented(cur) && valid_epoch_id(new_epoch_id),
{
}

/// The valid epoch ids are the even ones but 0, and the smallest and the largest of them are
/// [`EPOCH_ID_MIN`] and [`EPOCH_ID_MAX`].
pub proof fn law_valid_epoch_ids(epoch_id: EpochId)
    ensures
        valid_epoch_id(epoch_id) <==> epoch_id != 0 && epoch_id & 1 == 0,
        valid_epoch_id(epoch_id) ==> EPOCH_ID_MIN <= epoch_id <= EPOCH_ID_MAX,
        valid_epoch_id(EPOCH_ID_MIN),
        valid_epoch_id(EPOCH_ID_MAX),
{
    assert((epoch_id & 1 == 0) <==> epoch_id % 2 == 0) by (bit_vector);
}

/// An increment succeeds as long as the new epoch id is not the largest one, whatever it is: two
/// increments that succeed in a row give epoch ids that are next to each other, and only reaching the
/// largest epoch id makes a leader.
pub proof fn law_increment_fails_only_at_the_end(cur: EpochId)
    requires
        valid_epoch_id(cur),
    ensures
        increment_result(cur) is Ok <==> cur + 2 < EPOCH_ID_MAX,
        increment_result(cur) is Ok ==> increment_result(cur)->Ok_0 - cur == 2,
        increment_result(cur) is Err ==> (increment_result(cur)->Err_0.am_i_the_leader <==> cur + 2
            == EPOCH_ID_MAX),
        incremented(cur) - cur == if cur == EPOCH_ID_MAX {
            0int
        } else {
            2int
        },
{
}

} // verus!
