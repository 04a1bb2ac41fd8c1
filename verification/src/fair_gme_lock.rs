//! A fair group mutual exclusion lock for exactly two groups.
//!
//! Any number of members of one group can hold the lock together, but never members of both groups.
//! It is fair: once a member of the group that does not hold the lock waits for it, no one new joins
//! those that hold it, and the last one that leaves hands the lock over.
//!
//! This is the state of the lock, and what becomes of it when someone tries to get the lock once, or
//! gives it back. Whoever does not get the lock tries again.
use vstd::prelude::*;

verus! {

/// The owner of a lock that no one holds.
pub const NO_OWNER: u8 = 2;

/// The state of a lock.
pub ghost struct LockState {
    /// How many members of each group hold the lock, or wait for it and are counted.
    pub counts: (nat, nat),
    /// The group that holds the lock, or [`NO_OWNER`].
    pub owner: u8,
}

/// The other group.
pub open spec fn other_group(group: u8) -> u8 {
    (1 - group) as u8
}

impl LockState {
    /// How many members of the group hold the lock, or wait for it and are counted.
    pub open spec fn count(self, group: u8) -> nat {
        if group == 0 {
            self.counts.0
        } else {
            self.counts.1
        }
    }

    /// The state with another count for the group.
    pub open spec fn with_count(self, group: u8, count: nat) -> Self {
        if group == 0 {
            LockState { counts: (count, self.counts.1), ..self }
        } else {
            LockState { counts: (self.counts.0, count), ..self }
        }
    }

    /// Whether the group that holds the lock has someone counted, and no one is counted while no
    /// group holds it.
    pub open spec fn wf(self) -> bool {
        &&& self.owner <= NO_OWNER
        &&& self.owner == NO_OWNER ==> self.counts == (0nat, 0nat)
        &&& self.owner != NO_OWNER ==> self.count(self.owner) > 0
    }

    /// Whether a member of the group gets the lock when it tries. `is_counted` tells whether an
    /// earlier attempt of it was counted.
    pub open spec fn admits(self, group: u8, is_counted: bool) -> bool {
        ||| self.owner == NO_OWNER
        ||| self.owner == group && (is_counted || self.count(other_group(group)) == 0)
    }

    /// Whether a member of the group is counted after it tried to get the lock.
    pub open spec fn counts_in(self, group: u8, is_counted: bool) -> bool {
        is_counted || self.admits(group, is_counted) || self.owner == other_group(group)
    }

    /// The state after a member of the group tried to get the lock.
    pub open spec fn after_attempt(self, group: u8, is_counted: bool) -> Self {
        let counted = if !is_counted && self.counts_in(group, is_counted) {
            self.with_count(group, self.count(group) + 1)
        } else {
            self
        };
        LockState {
            owner: if self.admits(group, is_counted) {
                group
            } else {
                self.owner
            },
            ..counted
        }
    }

    /// The state after a member of the group that holds the lock gave it back.
    pub open spec fn after_release(self, group: u8) -> Self {
        let left = self.with_count(group, (self.count(group) - 1) as nat);
        LockState {
            owner: if left.count(group) > 0 {
                group
            } else if left.count(other_group(group)) > 0 {
                other_group(group)
            } else {
                NO_OWNER
            },
            ..left
        }
    }
}

/// A fair group mutual exclusion lock for exactly two groups.
pub struct FairGmeLock {
    group_counts: [usize; 2],
    cur_owner_group_index: u8,
}

impl View for FairGmeLock {
    type V = LockState;

    closed spec fn view(&self) -> LockState {
        LockState {
            counts: (self.group_counts@[0] as nat, self.group_counts@[1] as nat),
            owner: self.cur_owner_group_index,
        }
    }
}

impl FairGmeLock {
    /// A lock that no one holds.
    pub fn new() -> (lock: Self)
        ensures
            lock@.wf(),
            lock@ == (LockState { counts: (0, 0), owner: NO_OWNER }),
    {
        FairGmeLock { group_counts: [0, 0], cur_owner_group_index: NO_OWNER }
    }

    /// How many members of the group hold the lock, or wait for it and are counted.
    pub fn group_count(&self, group_index: u8) -> (count: usize)
        requires
            group_index < 2,
        ensures
            count == self@.count(group_index),
    {
        self.group_counts[group_index as usize]
    }

    /// Tries to get the lock for a member of the group. `already_incremented` is false at the first
    /// attempt, and keeps for the next one whether the member was counted.
    pub fn lock_group(&mut self, group_index: u8, already_incremented: &mut bool) -> (guard: Option<
        GmeLockGuard,
    >)
        requires
            old(self)@.wf(),
            group_index < 2,
            !*old(already_incremented) && old(self)@.counts_in(group_index, false) ==> old(
                self,
            )@.count(group_index) < usize::MAX,
            *old(already_incremented) ==> old(self)@.count(group_index) > 0,
        ensures
            final(self)@.wf(),
            final(self)@ == old(self)@.after_attempt(group_index, *old(already_incremented)),
            *final(already_incremented) == old(self)@.counts_in(
                group_index,
                *old(already_incremented),
            ),
            guard is Some <==> old(self)@.admits(group_index, *old(already_incremented)),
            guard is Some ==> guard->0@ == group_index,
    {
        let other_group_index: u8 = group_index ^ 1;
        assert(group_index ^ 1 == 1 - group_index) by (bit_vector)
            requires
                group_index < 2,
        ;
        if self.cur_owner_group_index == group_index {
            if *already_incremented {
                // whoever waits in the other group came later, so this does not starve them.
                return Some(GmeLockGuard { group_index });
            }
            if self.group_counts[other_group_index as usize] > 0 {
                // the other group gets the lock first.
                None
            } else {
                self.group_counts[group_index as usize] = self.group_counts[group_index as usize]
                    + 1;
                *already_incremented = true;
                Some(GmeLockGuard { group_index })
            }
        } else if self.cur_owner_group_index == NO_OWNER {
            if !*already_incremented {
                self.group_counts[group_index as usize] = self.group_counts[group_index as usize]
                    + 1;
                *already_incremented = true;
            }
            self.cur_owner_group_index = group_index;
            Some(GmeLockGuard { group_index })
        } else {
            // let the other group know that someone waits.
            if !*already_incremented {
                self.group_counts[group_index as usize] = self.group_counts[group_index as usize]
                    + 1;
                *already_incremented = true;
            }
            None
        }
    }

    /// Tries to get the lock for a member of the first group. `already_incremented` is false at the
    /// first attempt, and keeps for the next one whether the member was counted.
    pub fn lock_group_a(&mut self, already_incremented: &mut bool) -> (guard: Option<GmeLockGuard>)
        requires
            old(self)@.wf(),
            !*old(already_incremented) && old(self)@.counts_in(0, false) ==> old(self)@.count(0)
                < usize::MAX,
            *old(already_incremented) ==> old(self)@.count(0) > 0,
        ensures
            final(self)@.wf(),
            final(self)@ == old(self)@.after_attempt(0, *old(already_incremented)),
            *final(already_incremented) == old(self)@.counts_in(0, *old(already_incremented)),
            guard is Some <==> old(self)@.admits(0, *old(already_incremented)),
            guard is Some ==> guard->0@ == 0,
    {
        self.lock_group(0, already_incremented)
    }

    /// Tries to get the lock for a member of the second group. `already_incremented` is false at the
    /// first attempt, and keeps for the next one whether the member was counted.
    pub fn lock_group_b(&mut self, already_incremented: &mut bool) -> (guard: Option<GmeLockGuard>)
        requires
            old(self)@.wf(),
            !*old(already_incremented) && old(self)@.counts_in(1, false) ==> old(self)@.count(1)
                < usize::MAX,
            *old(already_incremented) ==> old(self)@.count(1) > 0,
        ensures
            final(self)@.wf(),
            final(self)@ == old(self)@.after_attempt(1, *old(already_incremented)),
            *final(already_incremented) == old(self)@.counts_in(1, *old(already_incremented)),
            guard is Some <==> old(self)@.admits(1, *old(already_incremented)),
            guard is Some ==> guard->0@ == 1,
    {
        self.lock_group(1, already_incremented)
    }
}

/// A hold of the lock, by a member of one group.
pub struct GmeLockGuard {
    group_index: u8,
}

impl View for GmeLockGuard {
    type V = u8;

    closed spec fn view(&self) -> u8 {
        self.group_index
    }
}

impl GmeLockGuard {
    /// Gives the lock back. The last one of a group hands it over to the other group, if someone
    /// there waits for it.
    pub fn drop(self, lock: &mut FairGmeLock)
        requires
            old(lock)@.wf(),
            self@ < 2,
            old(lock)@.owner == self@,
        ensures
            final(lock)@.wf(),
            final(lock)@ == old(lock)@.after_release(self@),
    {
        let group_index: u8 = self.group_index;
        lock.group_counts[group_index as usize] = lock.group_counts[group_index as usize] - 1;
        if lock.group_counts[group_index as usize] == 0 {
            let other_group_index: u8 = group_index ^ 1;
            assert(group_index ^ 1 == 1 - group_index) by (bit_vector)
                requires
                    group_index < 2,
            ;
            if lock.group_counts[other_group_index as usize] > 0 {
                // if the lock was just released, a newcomer of this group could be faster.
                lock.cur_owner_group_index = other_group_index;
            } else {
                lock.cur_owner_group_index = NO_OWNER;
            }
        }
    }
}

/// A lock, with the members of the groups that hold it, and those that wait for it and are counted,
/// each given by some number.
pub ghost struct World {
    pub lock: LockState,
    /// The members of each group that hold the lock.
    pub holders: (Set<nat>, Set<nat>),
    /// The members of each group that wait for the lock and are counted.
    pub waiting: (Set<nat>, Set<nat>),
}

/// A step of a member, given by its number, of a group, given by its index.
pub ghost enum Step {
    /// A member that is not counted tries to get the lock.
    Attempt(nat, u8),
    /// A member that is counted already tries to get the lock.
    AttemptAgain(nat, u8),
    /// A member gives the lock back.
    Release(nat, u8),
}

impl World {
    /// A lock that no one holds or waits for.
    pub open spec fn is_initial(self) -> bool {
        &&& self.lock == (LockState { counts: (0, 0), owner: NO_OWNER })
        &&& self.holders == (Set::<nat>::empty(), Set::<nat>::empty())
        &&& self.waiting == (Set::<nat>::empty(), Set::<nat>::empty())
    }

    /// The members of the group that hold the lock.
    pub open spec fn holders_of(self, group: u8) -> Set<nat> {
        if group == 0 {
            self.holders.0
        } else {
            self.holders.1
        }
    }

    /// The members of the group that wait for the lock and are counted.
    pub open spec fn waiting_of(self, group: u8) -> Set<nat> {
        if group == 0 {
            self.waiting.0
        } else {
            self.waiting.1
        }
    }

    /// Whether the member of the group neither holds the lock nor is counted as waiting for it.
    pub open spec fn is_outside(self, member: nat, group: u8) -> bool {
        !self.holders_of(group).contains(member) && !self.waiting_of(group).contains(member)
    }

    /// The world in which these members of the group hold the lock, and these wait for it.
    pub open spec fn with_members(self, group: u8, holders: Set<nat>, waiting: Set<nat>) -> Self {
        if group == 0 {
            World { holders: (holders, self.holders.1), waiting: (waiting, self.waiting.1), ..self }
        } else {
            World { holders: (self.holders.0, holders), waiting: (self.waiting.0, waiting), ..self }
        }
    }

    /// Whether the step can be taken.
    pub open spec fn possible(self, step: Step) -> bool {
        match step {
            Step::Attempt(member, group) => group < 2 && self.is_outside(member, group),
            Step::AttemptAgain(member, group) => group < 2 && self.waiting_of(group).contains(
                member,
            ),
            Step::Release(member, group) => group < 2 && self.holders_of(group).contains(member),
        }
    }

    /// The world after the step.
    pub open spec fn after(self, step: Step) -> Self {
        match step {
            Step::Attempt(member, group) => {
                let holders = self.holders_of(group);
                let waiting = self.waiting_of(group);
                let members = if self.lock.admits(group, false) {
                    self.with_members(group, holders.insert(member), waiting)
                } else if self.lock.counts_in(group, false) {
                    self.with_members(group, holders, waiting.insert(member))
                } else {
                    self
                };
                World { lock: self.lock.after_attempt(group, false), ..members }
            },
            Step::AttemptAgain(member, group) => {
                let holders = self.holders_of(group);
                let waiting = self.waiting_of(group);
                let members = if self.lock.admits(group, true) {
                    self.with_members(group, holders.insert(member), waiting.remove(member))
                } else {
                    self
                };
                World { lock: self.lock.after_attempt(group, true), ..members }
            },
            Step::Release(member, group) => {
                let holders = self.holders_of(group).remove(member);
                World {
                    lock: self.lock.after_release(group),
                    ..self.with_members(group, holders, self.waiting_of(group))
                }
            },
        }
    }

    /// Whether the members of the group are counted, each once.
    pub open spec fn counts_members(self, group: u8) -> bool {
        &&& self.holders_of(group).finite()
        &&& self.waiting_of(group).finite()
        &&& self.holders_of(group).disjoint(self.waiting_of(group))
        &&& self.lock.count(group) == self.holders_of(group).len() + self.waiting_of(group).len()
    }

    /// What holds after any number of steps: everyone is counted once, and whoever holds the lock is
    /// in the group that owns it.
    pub open spec fn inv(self) -> bool {
        &&& self.lock.wf()
        &&& self.counts_members(0)
        &&& self.counts_members(1)
        &&& self.lock.owner != 0 ==> self.holders_of(0) == Set::<nat>::empty()
        &&& self.lock.owner != 1 ==> self.holders_of(1) == Set::<nat>::empty()
    }
}

/// The worlds that follow each other by the steps.
pub open spec fn behavior(worlds: Seq<World>, steps: Seq<Step>) -> bool {
    &&& worlds.len() == steps.len() + 1
    &&& worlds[0].is_initial()
    &&& forall|i: int|
        0 <= i < steps.len() ==> worlds[i].possible(#[trigger] steps[i]) && worlds[i + 1]
            == worlds[i].after(steps[i])
}

/// Where a group has members that hold the lock or wait for it, it is counted.
proof fn lemma_members_are_counted(world: World, group: u8, member: nat)
    requires
        world.counts_members(group),
        !world.is_outside(member, group),
    ensures
        world.lock.count(group) > 0,
{
    if world.holders_of(group).contains(member) {
        assert(world.holders_of(group).remove(member).len() + 1 == world.holders_of(group).len());
    } else {
        assert(world.waiting_of(group).remove(member).len() + 1 == world.waiting_of(group).len());
    }
}

/// Every step keeps the invariant, and what the operations ask of the lock holds when they are used.
pub proof fn law_step_keeps_invariant(world: World, step: Step)
    requires
        world.inv(),
        world.possible(step),
    ensures
        world.after(step).inv(),
        step matches Step::AttemptAgain(_, group) ==> world.lock.count(group) > 0,
        step matches Step::Release(_, group) ==> world.lock.owner == group,
{
    let next = world.after(step);
    match step {
        Step::Attempt(member, group) => {},
        Step::AttemptAgain(member, group) => {
            lemma_members_are_counted(world, group, member);
        },
        Step::Release(member, group) => {
            lemma_members_are_counted(world, group, member);
            let left = world.holders_of(group).remove(member);
            if next.lock.owner != group {
                assert(left.len() == 0);
                assert(left =~= Set::<nat>::empty());
            }
        },
    }
    assert(next.counts_members(0) && next.counts_members(1));
}

/// The invariant holds after any number of steps.
pub proof fn law_invariant_holds_throughout(worlds: Seq<World>, steps: Seq<Step>, i: int)
    requires
        behavior(worlds, steps),
        0 <= i < worlds.len(),
    ensures
        worlds[i].inv(),
    decreases i,
{
    if i > 0 {
        law_invariant_holds_throughout(worlds, steps, i - 1);
        assert(worlds[i - 1].possible(steps[i - 1]));
        law_step_keeps_invariant(worlds[i - 1], steps[i - 1]);
    }
}

/// Members of both groups never hold the lock together: from the step in which a member gets the lock
/// until it gives it back, no member of the other group holds it.
pub proof fn law_groups_exclude_each_other(
    worlds: Seq<World>,
    steps: Seq<Step>,
    i: int,
    group: u8,
    member: nat,
    other_member: nat,
)
    requires
        behavior(worlds, steps),
        0 <= i < worlds.len(),
        group < 2,
        worlds[i].holders_of(group).contains(member),
    ensures
        !worlds[i].holders_of(other_group(group)).contains(other_member),
{
    law_invariant_holds_throughout(worlds, steps, i);
}

/// Members of the group that holds the lock can hold it together: anyone new gets it at once, as long
/// as no one of the other group waits, and those that hold it keep it.
pub proof fn law_group_shares_lock(world: World, group: u8, member: nat)
    requires
        world.inv(),
        world.possible(Step::Attempt(member, group)),
        world.lock.owner == group,
        world.waiting_of(other_group(group)) == Set::<nat>::empty(),
    ensures
        world.lock.admits(group, false),
        world.after(Step::Attempt(member, group)).holders_of(group) == world.holders_of(
            group,
        ).insert(member),
{
    assert(world.counts_members(other_group(group)));
}

/// A lock that no one holds is got at the first attempt.
pub proof fn law_free_lock_is_got(lock: LockState, group: u8, is_counted: bool)
    requires
        lock.owner == NO_OWNER,
    ensures
        lock.admits(group, is_counted),
        lock.after_attempt(group, is_counted).owner == group,
{
}

/// While someone of the other group waits for the lock, no step lets anyone new join the group that
/// holds it: as long as that group keeps the lock, its members become no more, and with every one
/// that gives the lock back they become fewer.
pub proof fn law_no_one_joins_while_other_group_waits(world: World, step: Step, waiter: nat)
    requires
        world.inv(),
        world.possible(step),
        world.lock.owner < 2,
        world.waiting_of(other_group(world.lock.owner)).contains(waiter),
    ensures
        ({
            let owner = world.lock.owner;
            let next = world.after(step);
            ||| next.lock.owner == other_group(owner)
            ||| next.lock.owner == owner && next.waiting_of(other_group(owner)).contains(waiter)
                && next.lock.count(owner) <= world.lock.count(owner) && (step is Release
                ==> next.lock.count(owner) < world.lock.count(owner))
        }),
{
    lemma_members_are_counted(world, other_group(world.lock.owner), waiter);
    law_step_keeps_invariant(world, step);
}

/// How many of the steps from `i` on and before `j` give the lock back.
pub open spec fn releases(steps: Seq<Step>, i: int, j: int) -> nat
    decreases j - i,
{
    if i >= j {
        0
    } else if steps[j - 1] is Release {
        releases(steps, i, j - 1) + 1
    } else {
        releases(steps, i, j - 1)
    }
}

/// Whoever waits for the lock waits for no more members of the other group than were counted when it
/// began to wait: as long as that group keeps the lock, it is given back fewer times than that.
pub proof fn law_wait_is_bounded(
    worlds: Seq<World>,
    steps: Seq<Step>,
    i: int,
    j: int,
    owner: u8,
    waiter: nat,
)
    requires
        behavior(worlds, steps),
        0 <= i <= j < worlds.len(),
        owner < 2,
        forall|k: int| i <= k <= j ==> (#[trigger] worlds[k]).lock.owner == owner,
        worlds[i].waiting_of(other_group(owner)).contains(waiter),
    ensures
        worlds[j].waiting_of(other_group(owner)).contains(waiter),
        releases(steps, i, j) + worlds[j].lock.count(owner) <= worlds[i].lock.count(owner),
        releases(steps, i, j) < worlds[i].lock.count(owner),
    decreases j - i,
{
    law_invariant_holds_throughout(worlds, steps, j);
    if i < j {
        law_wait_is_bounded(worlds, steps, i, j - 1, owner, waiter);
        law_invariant_holds_throughout(worlds, steps, j - 1);
        assert(worlds[j - 1].possible(steps[j - 1]));
        law_no_one_joins_while_other_group_waits(worlds[j - 1], steps[j - 1], waiter);
    }
}

/// While the other group stays counted, a newcomer of the group that owned the lock does not get it:
/// it is not even counted before the other group owns the lock.
proof fn lemma_newcomer_waits(
    worlds: Seq<World>,
    steps: Seq<Step>,
    i: int,
    j: int,
    group: u8,
    newcomer: nat,
)
    requires
        behavior(worlds, steps),
        0 <= i <= j < worlds.len(),
        group < 2,
        worlds[i].lock.owner == group,
        worlds[i].is_outside(newcomer, group),
        forall|k: int| i <= k <= j ==> (#[trigger] worlds[k]).lock.count(other_group(group)) > 0,
    ensures
        ({
            let w = worlds[j];
            ||| w.lock.owner == group && w.is_outside(newcomer, group)
            ||| w.lock.owner == other_group(group) && !w.holders_of(group).contains(newcomer)
        }),
    decreases j - i,
{
    law_invariant_holds_throughout(worlds, steps, j);
    if i < j {
        lemma_newcomer_waits(worlds, steps, i, j - 1, group, newcomer);
        law_invariant_holds_throughout(worlds, steps, j - 1);
        let w = worlds[j - 1];
        assert(w.lock.count(other_group(group)) > 0);
        assert(worlds[j].lock.count(other_group(group)) > 0);
        assert(w.possible(steps[j - 1]));
        law_step_keeps_invariant(w, steps[j - 1]);
    }
}

/// A member that was counted, and later is not, gave the lock back in between.
proof fn lemma_members_leave_by_release(
    worlds: Seq<World>,
    steps: Seq<Step>,
    i: int,
    j: int,
    group: u8,
    member: nat,
) -> (release: int)
    requires
        behavior(worlds, steps),
        0 <= i <= j < worlds.len(),
        group < 2,
        !worlds[i].is_outside(member, group),
        worlds[j].is_outside(member, group),
    ensures
        i <= release < j,
        steps[release] == Step::Release(member, group),
        worlds[release].holders_of(group).contains(member),
    decreases j - i,
{
    let w = worlds[j - 1];
    assert(w.possible(steps[j - 1]));
    assert(worlds[j] == w.after(steps[j - 1]));
    if w.is_outside(member, group) {
        lemma_members_leave_by_release(worlds, steps, i, j - 1, group, member)
    } else {
        assert(steps[j - 1] == Step::Release(member, group));
        j - 1
    }
}

/// The lock is fair: a newcomer never joins its own group ahead of a waiting other group. If a group
/// holds the lock, someone of the other group waits for it, and a newcomer of the first group holds it
/// later on, then whoever waited has got the lock and given it back before.
pub proof fn law_newcomer_waits_for_all_who_waited(
    worlds: Seq<World>,
    steps: Seq<Step>,
    i: int,
    j: int,
    group: u8,
    newcomer: nat,
    waiter: nat,
) -> (release: int)
    requires
        behavior(worlds, steps),
        0 <= i < j < worlds.len(),
        group < 2,
        worlds[i].lock.owner == group,
        worlds[i].waiting_of(other_group(group)).contains(waiter),
        worlds[i].is_outside(newcomer, group),
        worlds[j].holders_of(group).contains(newcomer),
    ensures
        i < release < j,
        worlds[release].holders_of(other_group(group)).contains(waiter),
        steps[release] == Step::Release(waiter, other_group(group)),
        exists|k: int|
            release < k <= j && (#[trigger] worlds[k]).lock.count(other_group(group)) == 0,
{
    let other = other_group(group);
    law_invariant_holds_throughout(worlds, steps, i);
    lemma_members_are_counted(worlds[i], other, waiter);
    if forall|k: int| i <= k <= j ==> (#[trigger] worlds[k]).lock.count(other) > 0 {
        lemma_newcomer_waits(worlds, steps, i, j, group, newcomer);
        law_invariant_holds_throughout(worlds, steps, j);
    }
    let k = choose|k: int| i <= k <= j && (#[trigger] worlds[k]).lock.count(other) == 0;
    law_invariant_holds_throughout(worlds, steps, k);
    if !worlds[k].is_outside(waiter, other) {
        lemma_members_are_counted(worlds[k], other, waiter);
    }
    let release = lemma_members_leave_by_release(worlds, steps, i, k, other, waiter);
    assert(worlds[k].lock.count(other) == 0);
    release
}

/// The last one of a group that gives the lock back hands it over to those that wait in the other
/// group: whoever of them tries next gets it.
pub proof fn law_lock_is_handed_over(world: World, group: u8, last: nat, waiter: nat)
    requires
        world.inv(),
        group < 2,
        world.holders_of(group) == Set::<nat>::empty().insert(last),
        world.waiting_of(group) == Set::<nat>::empty(),
        world.waiting_of(other_group(group)).contains(waiter),
    ensures
        ({
            let next = world.after(Step::Release(last, group));
            &&& next.lock.owner == other_group(group)
            &&& next.lock.admits(other_group(group), true)
            &&& next.waiting_of(other_group(group)).contains(waiter)
            &&& !next.lock.admits(group, false)
            &&& next.lock.counts_in(group, false)
        }),
{
    lemma_members_are_counted(world, other_group(group), waiter);
}

/// Whoever is counted gets the lock as soon as its group owns it, however many of the other group are
/// counted.
pub proof fn law_counted_member_gets_lock_of_its_group(world: World, group: u8, member: nat)
    requires
        world.inv(),
        group < 2,
        world.lock.owner == group,
        world.waiting_of(group).contains(member),
    ensures
        world.lock.admits(group, true),
        world.after(Step::AttemptAgain(member, group)).holders_of(group).contains(member),
        world.after(Step::AttemptAgain(member, group)).lock == world.lock,
{
}

/// There is no deadlock: where someone waits for the lock and no one holds it, some member that waits
/// gets it at its next attempt.
pub proof fn law_no_deadlock(world: World, group: u8, member: nat) -> (next: nat)
    requires
        world.inv(),
        group < 2,
        world.waiting_of(group).contains(member),
        world.holders_of(0) == Set::<nat>::empty(),
        world.holders_of(1) == Set::<nat>::empty(),
    ensures
        world.lock.owner < 2,
        world.waiting_of(world.lock.owner).contains(next),
        world.lock.admits(world.lock.owner, true),
        world.after(Step::AttemptAgain(next, world.lock.owner)).holders_of(
            world.lock.owner,
        ).contains(next),
{
    lemma_members_are_counted(world, group, member);
    let owner = world.lock.owner;
    assert(world.counts_members(owner));
    assert(world.waiting_of(owner).len() > 0);
    let next = world.waiting_of(owner).choose();
    if forall|m: nat| !#[trigger] world.waiting_of(owner).contains(m) {
        assert(world.waiting_of(owner) =~= Set::<nat>::empty());
    }
    next
}

/// Whoever tries to get the lock while the other group owns it is counted, so that it gets the lock
/// once it is handed over, however many are counted already.
pub proof fn law_attempt_at_foreign_lock_is_counted(world: World, group: u8, member: nat)
    requires
        world.inv(),
        world.possible(Step::Attempt(member, group)),
        world.lock.owner == other_group(group),
    ensures
        ({
            let next = world.after(Step::Attempt(member, group));
            &&& next.waiting_of(group).contains(member)
            &&& next.lock.count(group) == world.lock.count(group) + 1
            &&& next.lock.count(other_group(group)) == world.lock.count(other_group(group))
            &&& next.lock.owner == world.lock.owner
            &&& !world.lock.admits(group, false)
            &&& !world.lock.admits(group, true)
        }),
{
}

/// A newcomer of the group that owns the lock is neither let in nor counted while the other group
/// waits: the attempt changes nothing.
pub proof fn law_newcomer_leaves_no_trace(world: World, group: u8, member: nat, waiter: nat)
    requires
        world.inv(),
        world.possible(Step::Attempt(member, group)),
        world.lock.owner == group,
        world.waiting_of(other_group(group)).contains(waiter),
    ensures
        world.after(Step::Attempt(member, group)) == world,
        !world.lock.counts_in(group, false),
{
    lemma_members_are_counted(world, other_group(group), waiter);
}

/// Giving the lock back changes the owner only if no one of the group is counted any more. Then the
/// lock goes to the other group if someone of it waits, however many they are, and is free otherwise.
pub proof fn law_owner_after_release(world: World, group: u8, member: nat)
    requires
        world.inv(),
        world.possible(Step::Release(member, group)),
    ensures
        ({
            let next = world.after(Step::Release(member, group));
            &&& next.lock.count(group) == world.lock.count(group) - 1
            &&& next.lock.count(other_group(group)) == world.lock.count(other_group(group))
            &&& next.lock.count(group) > 0 ==> next.lock.owner == group
            &&& next.lock.count(group) == 0 && next.lock.count(other_group(group)) > 0
                ==> next.lock.owner == other_group(group)
            &&& next.lock.count(0) == 0 && next.lock.count(1) == 0 <==> next.lock.owner == NO_OWNER
        }),
{
    law_step_keeps_invariant(world, Step::Release(member, group));
    lemma_members_are_counted(world, group, member);
}

/// There are two groups, and each is the other one of the other.
pub proof fn law_two_groups(group: u8, lock: LockState, count: nat)
    requires
        group < 2,
    ensures
        other_group(group) < 2,
        other_group(group) != group,
        other_group(other_group(group)) == group,
        lock.count(0) == lock.counts.0,
        lock.count(1) == lock.counts.1,
        lock.with_count(group, count).count(group) == count,
        lock.with_count(group, count).count(other_group(group)) == lock.count(other_group(group)),
        lock.with_count(group, count).owner == lock.owner,
        NO_OWNER >= 2,
{
}

/// The groups are treated alike: with the groups exchanged, a lock admits and counts the members of one
/// group as it did those of the other.
pub proof fn law_groups_are_treated_alike(lock: LockState, group: u8, is_counted: bool)
    requires
        group < 2,
        lock.owner <= NO_OWNER,
    ensures
        ({
            let mirrored = LockState {
                counts: (lock.counts.1, lock.counts.0),
                owner: if lock.owner == NO_OWNER {
                    NO_OWNER
                } else {
                    other_group(lock.owner)
                },
            };
            &&& mirrored.admits(other_group(group), is_counted) == lock.admits(group, is_counted)
            &&& mirrored.counts_in(other_group(group), is_counted) == lock.counts_in(
                group,
                is_counted,
            )
        }),
{
}

/// After any number of steps, whoever is counted gets the lock at its next attempt if its group owns
/// it, and someone who is counted does if no one holds it.
pub proof fn law_no_deadlock_throughout(
    worlds: Seq<World>,
    steps: Seq<Step>,
    i: int,
    group: u8,
    member: nat,
) -> (next: nat)
    requires
        behavior(worlds, steps),
        0 <= i < worlds.len(),
        group < 2,
        worlds[i].waiting_of(group).contains(member),
    ensures
        worlds[i].lock.owner < 2,
        worlds[i].lock.owner == group ==> worlds[i].after(
            Step::AttemptAgain(member, group),
        ).holders_of(group).contains(member),
        worlds[i].holders_of(0).is_empty() && worlds[i].holders_of(1).is_empty()
            ==> worlds[i].waiting_of(worlds[i].lock.owner).contains(next) && worlds[i].after(
            Step::AttemptAgain(next, worlds[i].lock.owner),
        ).holders_of(worlds[i].lock.owner).contains(next),
{
    law_invariant_holds_throughout(worlds, steps, i);
    let world = worlds[i];
    lemma_members_are_counted(world, group, member);
    if world.lock.owner == group {
        law_counted_member_gets_lock_of_its_group(world, group, member);
    }
    if world.holders_of(0).is_empty() && world.holders_of(1).is_empty() {
        law_no_deadlock(world, group, member)
    } else {
        member
    }
}

} // verus!
