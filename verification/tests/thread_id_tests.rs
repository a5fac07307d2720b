use quiklang::threads::ThreadIds;
use quiklang::vm::VMRuntimeError;

#[test]
fn thread_ids_count_from_one_and_end_once() {
    let mut ids = ThreadIds::new();
    assert_eq!(ids.next_thread_id(), 1);
    assert_eq!(ids.next_thread_id(), 2);
    assert_eq!(ids.next_thread_id(), 3);
    assert_eq!(ids.live, vec![1, 2, 3]);
    assert_eq!(ids.end_thread(2), Ok(()));
    assert_eq!(ids.live, vec![1, 3]);
    assert_eq!(ids.end_thread(2), Err(VMRuntimeError::InvalidThreadId(2)));
    assert_eq!(ids.end_thread(7), Err(VMRuntimeError::InvalidThreadId(7)));
    // ids are not reused
    assert_eq!(ids.next_thread_id(), 4);
    assert_eq!(ids.end_all(), vec![1, 3, 4]);
    assert!(ids.live.is_empty());
    assert_eq!(ids.end_thread(1), Err(VMRuntimeError::InvalidThreadId(1)));
    assert_eq!(ids.next_thread_id(), 5);
}
