use tokio_rcu::epoch::{
    epoch_id_get, epoch_id_inc, epoch_id_set, EpochCounter, EpochIdOverflowErr, EPOCH_ID_MAX,
    EPOCH_ID_MIN,
};
use tokio_rcu::membarrier::{is_supported, MemBarrierImplLinux, MembarrierNumbers};
use tokio_rcu::test_utils::{extract_string_panic_message, PanicPayload};
use tokio_rcu::thread_state::ThreadState;
use tokio_rcu::utils::PhantomUnsendUnsync;

#[test]
fn epoch_id_starts_at_its_smallest_value() {
    assert_eq!(EPOCH_ID_MIN, 2);
    assert_eq!(EPOCH_ID_MAX, u32::MAX - 1);
    assert_eq!(epoch_id_get(&EpochCounter::new()), 2);
}

#[test]
fn epoch_id_grows_by_two() {
    let mut counter = EpochCounter::new();
    for i in 1..100 {
        assert_eq!(epoch_id_inc(&mut counter), Ok(2 + 2 * i));
        assert_eq!(epoch_id_get(&counter), 2 + 2 * i);
    }
}

#[test]
fn overflow_has_one_leader() {
    let mut counter = EpochCounter::new();
    epoch_id_set(&mut counter, EPOCH_ID_MAX - 4);
    assert_eq!(epoch_id_inc(&mut counter), Ok(EPOCH_ID_MAX - 2));
    assert_eq!(epoch_id_inc(&mut counter), Err(EpochIdOverflowErr { am_i_the_leader: true }));
    assert_eq!(epoch_id_get(&counter), EPOCH_ID_MAX);
    for _ in 0..10 {
        assert_eq!(epoch_id_inc(&mut counter), Err(EpochIdOverflowErr { am_i_the_leader: false }));
        assert_eq!(epoch_id_get(&counter), EPOCH_ID_MAX);
    }
    epoch_id_set(&mut counter, EPOCH_ID_MIN);
    assert_eq!(epoch_id_inc(&mut counter), Ok(4));
}

#[test]
fn thread_state_is_packed() {
    assert_eq!(ThreadState { last_seen_epoch_id: 2, is_busy: false }.encode(), 2);
    assert_eq!(ThreadState { last_seen_epoch_id: 2, is_busy: true }.encode(), 3);
    assert_eq!(
        ThreadState { last_seen_epoch_id: EPOCH_ID_MAX, is_busy: true }.encode(),
        u32::MAX
    );
}

#[test]
fn thread_state_is_unpacked() {
    assert_eq!(ThreadState::decode(ThreadState::NONE_ENCODED_VALUE), None);
    assert_eq!(
        ThreadState::decode(7),
        Some(ThreadState { last_seen_epoch_id: 6, is_busy: true })
    );
    assert_eq!(
        ThreadState::decode(u32::MAX - 1),
        Some(ThreadState { last_seen_epoch_id: EPOCH_ID_MAX, is_busy: false })
    );
    for value in 2..2000 {
        assert_eq!(ThreadState::decode(value).unwrap().encode(), value);
    }
}

#[test]
fn membarrier_needs_both_commands() {
    let numbers =
        MembarrierNumbers { enosys: 38, register_private_expedited: 16, private_expedited: 8 };
    assert!(is_supported(24, 0, numbers));
    assert!(is_supported(0x1ff, 0, numbers));
    assert!(!is_supported(16, 0, numbers));
    assert!(!is_supported(8, 0, numbers));
    assert!(!is_supported(0, 38, numbers));
    assert!(!is_supported(-1, 38, numbers));
    assert!(MemBarrierImplLinux::is_supported(25, 5, numbers));
    assert!(!MemBarrierImplLinux::is_supported(-1, 38, numbers));
}

#[test]
fn panic_message_is_extracted() {
    assert_eq!(extract_string_panic_message(PanicPayload::Str("a literal")), "a literal");
    let message = format!("number {}", 12);
    assert_eq!(extract_string_panic_message(PanicPayload::String(&message)), "number 12");
}

#[test]
fn phantom_has_one_value() {
    assert_eq!(PhantomUnsendUnsync::new(), PhantomUnsendUnsync::new());
}
