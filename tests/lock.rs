use aurto::lock::{LockEvent, RepoLock};

#[test]
fn second_add_waits_for_first_release() {
    let mut lock = RepoLock::new();
    assert!(lock.try_acquire(1));
    assert!(!lock.try_acquire(2));
    assert_eq!(lock.holder(), Some(1));
    assert!(!lock.release(2));
    assert!(lock.release(1));
    assert!(lock.try_acquire(2));
    assert!(lock.release(2));
    assert_eq!(
        lock.events(),
        vec![
            LockEvent::Acquired(1),
            LockEvent::Released(1),
            LockEvent::Acquired(2),
            LockEvent::Released(2),
        ]
    );
    assert_eq!(lock.holder(), None);
}
