use useful_static::{Lock, LockStep, TryLockError};

#[test]
fn new_lock_is_free_and_clean() {
    let lock = Lock::new(1u8);
    assert!(!lock.is_locked());
    assert!(!lock.is_poisoned());
}

#[test]
fn lock_hands_out_the_value() {
    let mut lock = Lock::new(String::from("inside"));
    match lock.lock() {
        LockStep::Acquired(guard) => assert_eq!(*guard.get(), "inside"),
        _ => panic!("the lock is free and clean"),
    }
    assert!(lock.is_locked());
    assert!(!lock.is_poisoned());
}

#[test]
fn only_one_guard_at_a_time() {
    let mut lock = Lock::new(0u32);
    let first = lock.try_lock();
    let second = lock.try_lock();
    let third = lock.lock();
    assert!(first.is_ok());
    assert!(matches!(second, Err(TryLockError::WouldBlock)));
    assert!(matches!(third, LockStep::Wait));
}

#[test]
fn release_frees_the_lock_for_the_next() {
    let mut lock = Lock::new(0u32);
    for expected in 0..5u32 {
        match lock.try_lock() {
            Ok(mut guard) => {
                assert_eq!(*guard.get(), expected);
                *guard.get_mut() += 1;
                lock.unlock(guard);
            }
            Err(_) => panic!("the lock was released"),
        }
        assert!(!lock.is_locked());
    }
}

#[test]
fn abandon_poisons_and_frees() {
    let mut lock = Lock::new(String::from("whole"));
    match lock.try_lock() {
        Ok(mut guard) => {
            guard.get_mut().truncate(2);
            lock.abandon(guard);
        }
        Err(_) => panic!("the lock is free and clean"),
    }
    assert!(lock.is_poisoned());
    assert!(!lock.is_locked());
    match lock.try_lock() {
        Err(TryLockError::Poisoned(error)) => {
            assert_eq!(*error.get_ref().get(), "wh");
            lock.unlock(error.into_inner());
        }
        _ => panic!("the failure has to be reported"),
    }
    assert!(lock.is_poisoned());
    assert!(matches!(lock.lock(), LockStep::Poisoned(_)));
}
