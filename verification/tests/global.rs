use useful_static::{Global, LockStep, TryLockError};

fn acquire(g: &mut Global<String>) -> useful_static::Guard<String> {
    match g.lock() {
        LockStep::Acquired(guard) => guard,
        LockStep::Poisoned(_) => panic!("the lock is not poisoned"),
        LockStep::Wait => panic!("the lock is free"),
    }
}

#[test]
fn set_then_lock_reads_the_value() {
    let mut g = Global::new();
    g.set(String::from("Hello World!"));
    let guard = acquire(&mut g);
    assert_eq!(*guard.get(), "Hello World!");
}

#[test]
fn new_global_is_uninitialized() {
    let g: Global<String> = Global::new();
    assert!(!g.is_initialized());
}

#[test]
fn set_initializes() {
    let mut g = Global::new();
    g.set(7u32);
    assert!(g.is_initialized());
    assert!(!g.deref().is_locked());
    assert!(!g.deref().is_poisoned());
}

#[test]
fn second_set_changes_nothing() {
    let mut g = Global::new();
    g.set(String::from("first"));
    g.set(String::from("second"));
    g.set(String::from("third"));
    assert!(g.is_initialized());
    let guard = acquire(&mut g);
    assert_eq!(*guard.get(), "first");
}

#[test]
fn set_on_a_held_lock_changes_nothing() {
    let mut g = Global::new();
    g.set(String::from("first"));
    let guard = acquire(&mut g);
    g.set(String::from("second"));
    assert!(g.deref().is_locked());
    assert!(matches!(g.lock(), LockStep::Wait));
    g.unlock(guard);
    let guard = acquire(&mut g);
    assert_eq!(*guard.get(), "first");
}

#[test]
fn set_on_a_poisoned_lock_changes_nothing() {
    let mut g = Global::new();
    g.set(1u8);
    match g.try_lock() {
        Ok(guard) => g.abandon(guard),
        Err(_) => panic!("the lock is free and clean"),
    }
    g.set(2u8);
    assert!(g.deref().is_poisoned());
    match g.lock() {
        LockStep::Poisoned(error) => assert_eq!(*error.get_ref().get(), 1),
        _ => panic!("the lock is free and poisoned"),
    }
}

#[test]
fn lock_on_a_held_lock_says_wait() {
    let mut g = Global::new();
    g.set(5i64);
    let first = g.lock();
    assert!(matches!(first, LockStep::Acquired(_)));
    assert!(matches!(g.lock(), LockStep::Wait));
    assert!(matches!(g.lock(), LockStep::Wait));
    assert!(g.deref().is_locked());
}

#[test]
fn try_lock_on_a_held_lock_would_block() {
    let mut g = Global::new();
    g.set(5i64);
    let held = g.try_lock();
    assert!(held.is_ok());
    assert!(matches!(g.try_lock(), Err(TryLockError::WouldBlock)));
    assert!(matches!(g.try_lock(), Err(TryLockError::WouldBlock)));
    match held {
        Ok(guard) => g.unlock(guard),
        Err(_) => panic!("the first attempt met a free lock"),
    }
    assert!(g.try_lock().is_ok());
}

#[test]
fn unlock_brings_the_changed_value_back() {
    let mut g = Global::new();
    g.set(String::from("Hello"));
    let mut guard = acquire(&mut g);
    guard.get_mut().push_str(" World!");
    g.unlock(guard);
    assert!(!g.deref().is_locked());
    let guard = acquire(&mut g);
    assert_eq!(*guard.get(), "Hello World!");
}

#[test]
fn failed_holder_poisons_the_lock() {
    let mut g = Global::new();
    g.set(vec![1u8, 2, 3]);
    let mut guard = match g.lock() {
        LockStep::Acquired(guard) => guard,
        _ => panic!("the lock is free and clean"),
    };
    guard.get_mut().pop();
    g.abandon(guard);
    assert!(g.deref().is_poisoned());
    assert!(!g.deref().is_locked());
    match g.lock() {
        LockStep::Poisoned(error) => {
            assert_eq!(*error.get_ref().get(), vec![1u8, 2]);
            let guard = error.into_inner();
            assert_eq!(*guard.get(), vec![1u8, 2]);
            g.unlock(guard);
        }
        _ => panic!("the failure has to be reported"),
    }
}

#[test]
fn try_lock_reports_poison() {
    let mut g = Global::new();
    g.set(10u16);
    match g.try_lock() {
        Ok(guard) => g.abandon(guard),
        Err(_) => panic!("the lock is free and clean"),
    }
    match g.try_lock() {
        Err(TryLockError::Poisoned(error)) => assert_eq!(*error.into_inner().get(), 10),
        _ => panic!("the failure has to be reported"),
    }
    assert!(matches!(g.try_lock(), Err(TryLockError::WouldBlock)));
}

#[test]
fn poison_stays_after_a_good_release() {
    let mut g = Global::new();
    g.set(0u8);
    match g.try_lock() {
        Ok(guard) => g.abandon(guard),
        Err(_) => panic!("the lock is free and clean"),
    }
    for round in 0..3u8 {
        match g.lock() {
            LockStep::Poisoned(error) => {
                let mut guard = error.into_inner();
                assert_eq!(*guard.get(), round);
                *guard.get_mut() += 1;
                g.unlock(guard);
            }
            _ => panic!("poison never goes away"),
        }
    }
    assert!(g.deref().is_poisoned());
}

#[test]
fn deref_mut_reaches_the_lock() {
    let mut g = Global::new();
    g.set(3u8);
    let step = g.deref_mut().lock();
    assert!(matches!(step, LockStep::Acquired(_)));
    assert!(g.deref().is_locked());
    assert!(matches!(g.try_lock(), Err(TryLockError::WouldBlock)));
    if let LockStep::Acquired(guard) = step {
        g.deref_mut().unlock(guard);
    }
    assert!(!g.deref().is_locked());
}
