//! Whether the kernel can do the memory barrier over all threads of a process that a grace period
//! begins with.
use vstd::prelude::*;

verus! {

/// What the machine's numbers are for what the system call `membarrier` of linux takes and gives.
#[derive(Debug, Clone, Copy, PartialEq, Eq, Structural)]
pub struct MembarrierNumbers {
    /// The error number `ENOSYS`: there is no such system call.
    pub enosys: i32,
    /// The bits of the command `MEMBARRIER_CMD_REGISTER_PRIVATE_EXPEDITED`, which registers the
    /// process for the barrier.
    pub register_private_expedited: i32,
    /// The bits of the command `MEMBARRIER_CMD_PRIVATE_EXPEDITED`, which performs the barrier.
    pub private_expedited: i32,
}

impl MembarrierNumbers {
    /// Whether an answer to the query of the system call is one that can be understood: it fails only
    /// if there is no such system call.
    pub open spec fn is_answer(self, query_result: i32, errno: i32) -> bool {
        query_result == -1 ==> errno == self.enosys
    }

    /// Whether an answer to the query says that both commands are there.
    pub open spec fn has_both_commands(self, query_result: i32) -> bool {
        &&& query_result != -1
        &&& query_result & self.register_private_expedited == self.register_private_expedited
        &&& query_result & self.private_expedited == self.private_expedited
    }
}

/// The barrier as a system call of linux, `membarrier`.
pub struct MemBarrierImplLinux;

impl MemBarrierImplLinux {
    /// Whether the kernel can do the barrier, given what the query of the system call returned, a bit
    /// mask of the commands that it has, or -1 with an error number. The only error that is expected
    /// is that there is no such system call.
    pub fn is_supported(query_result: i32, errno: i32, numbers: MembarrierNumbers) -> (res: bool)
        requires
            numbers.is_answer(query_result, errno),
        ensures
            res == numbers.has_both_commands(query_result),
    {
        if query_result == -1 {
            false
        } else {
            let register: i32 = numbers.register_private_expedited;
            let perform: i32 = numbers.private_expedited;
            let required_commands: i32 = register | perform;
            assert((query_result & (register | perform) == register | perform) <==> (query_result
                & register == register && query_result & perform == perform)) by (bit_vector);
            query_result & required_commands == required_commands
        }
    }
}

/// Whether the memory barrier is supported on this machine, given the answer of the kernel.
pub fn is_supported(query_result: i32, errno: i32, numbers: MembarrierNumbers) -> (res: bool)
    requires
        numbers.is_answer(query_result, errno),
    ensures
        res == numbers.has_both_commands(query_result),
{
    MemBarrierImplLinux::is_supported(query_result, errno, numbers)
}

/// Support depends on nothing but the bits of the two required commands: answers that agree on these
/// give the same result, whatever other commands the kernel has.
pub proof fn law_support_depends_on_required_commands(
    numbers: MembarrierNumbers,
    query_result: i32,
    other_result: i32,
)
    requires
        query_result != -1,
        other_result != -1,
        query_result & (numbers.register_private_expedited | numbers.private_expedited)
            == other_result & (numbers.register_private_expedited | numbers.private_expedited),
    ensures
        numbers.has_both_commands(query_result) == numbers.has_both_commands(other_result),
{
    let register = numbers.register_private_expedited;
    let perform = numbers.private_expedited;
    assert(query_result & (register | perform) == other_result & (register | perform) ==> ((
    query_result & register == register && query_result & perform == perform) <==> (other_result
        & register == register && other_result & perform == perform))) by (bit_vector);
}

/// A kernel that has both commands, and possibly others, is supported.
pub proof fn law_further_commands_do_no_harm(numbers: MembarrierNumbers, further_commands: i32)
    requires
        numbers.register_private_expedited | numbers.private_expedited | further_commands != -1,
    ensures
        numbers.has_both_commands(
            numbers.register_private_expedited | numbers.private_expedited | further_commands,
        ),
{
    let register = numbers.register_private_expedited;
    let perform = numbers.private_expedited;
    assert((register | perform | further_commands) & register == register && (register | perform
        | further_commands) & perform == perform) by (bit_vector);
}

/// A kernel that lacks a bit of either command, or the system call itself, is not supported.
pub proof fn law_both_commands_are_needed(numbers: MembarrierNumbers, query_result: i32)
    requires
        query_result == -1 || (numbers.register_private_expedited | numbers.private_expedited)
            & !query_result != 0,
    ensures
        !numbers.has_both_commands(query_result),
{
    let register = numbers.register_private_expedited;
    let perform = numbers.private_expedited;
    assert((register | perform) & !query_result != 0 ==> !(query_result & register == register
        && query_result & perform == perform)) by (bit_vector);
}

/// Every answer but -1 is understood, whatever the error number, and -1 only if there is no such
/// system call.
pub proof fn law_understood_answers(numbers: MembarrierNumbers, query_result: i32, errno: i32)
    ensures
        query_result != -1 ==> numbers.is_answer(query_result, errno),
        query_result == -1 ==> (numbers.is_answer(query_result, errno) <==> errno == numbers.enosys),
{
}

} // verus!
