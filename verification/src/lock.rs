//! The lock that protects the value of a deferred global.
//!
//! The lock is an ownership protocol: acquiring it moves the protected value
//! out of the lock and into a [`Guard`], releasing it moves the value back.
//! While a guard is out there is nothing left in the lock to hand to a second
//! caller, which is what makes the access exclusive.

use vstd::prelude::*;

verus! {

/// The abstract state of a lock.
pub enum LockState<T> {
    /// Nobody holds the lock; `value` is the protected value.
    Free { value: T, poisoned: bool },
    /// A guard is out, and the protected value travels with it.
    Held { poisoned: bool },
}

/// What an attempt to acquire a lock yields.
pub enum Grant<T> {
    /// Exclusive access to the value, which every earlier holder released in
    /// good order.
    Clean(T),
    /// Exclusive access to the value, with the warning that an earlier holder
    /// failed while it had the lock.
    Poisoned(T),
    /// Nothing: somebody else holds the lock.
    Busy,
}

/// The state of a lock that has just been put around `value`: free, and
/// not poisoned.
pub open spec fn fresh<T>(value: T) -> LockState<T> {
    LockState::Free { value, poisoned: false }
}

impl<T> LockState<T> {
    /// Whether a guard is out.
    pub open spec fn is_locked(self) -> bool {
        self is Held
    }

    /// Whether a holder has failed while it had the lock.
    pub open spec fn is_poisoned(self) -> bool {
        match self {
            LockState::Free { poisoned, .. } => poisoned,
            LockState::Held { poisoned } => poisoned,
        }
    }

    /// What an attempt to acquire the lock yields in this state.
    pub open spec fn grant(self) -> Grant<T> {
        match self {
            LockState::Free { value, poisoned: false } => Grant::Clean(value),
            LockState::Free { value, poisoned: true } => Grant::Poisoned(value),
            LockState::Held { .. } => Grant::Busy,
        }
    }

    /// The state after an attempt to acquire the lock: a free lock becomes
    /// held, a held lock is left as it is.
    pub open spec fn acquired(self) -> Self {
        LockState::Held { poisoned: self.is_poisoned() }
    }

    /// The state after the holder has given `value` back in good order.
    pub open spec fn released(self, value: T) -> Self {
        LockState::Free { value, poisoned: self.is_poisoned() }
    }

    /// The state after a failing holder has given `value` back.
    pub open spec fn abandoned(self, value: T) -> Self {
        LockState::Free { value, poisoned: true }
    }
}

/// Exclusive access to the value of a lock.
///
/// A guard owns the protected value for as long as the lock is held. It is
/// made only by acquiring a lock, and it ends by being handed back to
/// [`Lock::unlock`] or [`Lock::abandon`].
#[derive(Debug)]
pub struct Guard<T> {
    value: T,
}

impl<T> View for Guard<T> {
    type V = T;

    closed spec fn view(&self) -> T {
        self.value
    }
}

impl<T> Guard<T> {
    /// The protected value.
    pub fn get(&self) -> (r: &T)
        ensures
            *r == self@,
    {
        &self.value
    }

    /// The protected value, for changing it in place.
    pub fn get_mut(&mut self) -> (r: &mut T)
        ensures
            *r == old(self)@,
            final(self)@ == *final(r),
    {
        &mut self.value
    }
}

/// The lock was acquired, but an earlier holder failed while it had it, so
/// the value may have been left half-changed. The guard is inside.
#[derive(Debug)]
pub struct PoisonError<T> {
    guard: Guard<T>,
}

impl<T> View for PoisonError<T> {
    type V = T;

    closed spec fn view(&self) -> T {
        self.guard@
    }
}

impl<T> PoisonError<T> {
    /// Accept the value as it is and go on with the guard.
    pub fn into_inner(self) -> (r: Guard<T>)
        ensures
            r@ == self@,
    {
        self.guard
    }

    /// Look at the guard without taking it.
    pub fn get_ref(&self) -> (r: &Guard<T>)
        ensures
            r@ == self@,
    {
        &self.guard
    }
}

/// Why `try_lock` gave no clean guard.
#[derive(Debug)]
pub enum TryLockError<T> {
    /// The lock was acquired, but it is poisoned.
    Poisoned(PoisonError<T>),
    /// The lock is held by somebody else.
    WouldBlock,
}

/// One step of a blocking acquisition.
#[derive(Debug)]
pub enum LockStep<T> {
    /// The lock was free and is now held by the caller.
    Acquired(Guard<T>),
    /// The lock was free and is now held by the caller, but it is poisoned.
    Poisoned(PoisonError<T>),
    /// The lock is held by somebody else: the caller has to wait for a
    /// release and then try again.
    Wait,
}

impl<T> View for LockStep<T> {
    type V = Grant<T>;

    open spec fn view(&self) -> Grant<T> {
        match *self {
            LockStep::Acquired(guard) => Grant::Clean(guard@),
            LockStep::Poisoned(error) => Grant::Poisoned(error@),
            LockStep::Wait => Grant::Busy,
        }
    }
}

/// The grant that a result of `try_lock` stands for.
pub open spec fn try_lock_grant<T>(r: Result<Guard<T>, TryLockError<T>>) -> Grant<T> {
    match r {
        Ok(guard) => Grant::Clean(guard@),
        Err(TryLockError::Poisoned(error)) => Grant::Poisoned(error@),
        Err(TryLockError::WouldBlock) => Grant::Busy,
    }
}

/// A mutual-exclusion lock around a value of type `T`.
#[derive(Debug)]
pub struct Lock<T> {
    slot: Option<T>,
    poisoned: bool,
}

impl<T> View for Lock<T> {
    type V = LockState<T>;

    closed spec fn view(&self) -> LockState<T> {
        match self.slot {
            Some(value) => LockState::Free { value, poisoned: self.poisoned },
            None => LockState::Held { poisoned: self.poisoned },
        }
    }
}

impl<T> Lock<T> {
    /// A free lock around `value`.
    pub fn new(value: T) -> (r: Lock<T>)
        ensures
            r@ == fresh(value),
    {
        Lock { slot: Some(value), poisoned: false }
    }

    /// Whether a guard is out.
    pub fn is_locked(&self) -> (r: bool)
        ensures
            r == self@.is_locked(),
    {
        self.slot.is_none()
    }

    /// Whether a holder has failed while it had the lock.
    pub fn is_poisoned(&self) -> (r: bool)
        ensures
            r == self@.is_poisoned(),
    {
        self.poisoned
    }

    /// Acquire the lock if it is free, and say so if it is not. Never waits.
    pub fn try_lock(&mut self) -> (r: Result<Guard<T>, TryLockError<T>>)
        ensures
            try_lock_grant(r) == old(self)@.grant(),
            final(self)@ == old(self)@.acquired(),
    {
        match self.slot.take() {
            Some(value) => {
                let guard = Guard { value };
                if self.poisoned {
                    Err(TryLockError::Poisoned(PoisonError { guard }))
                } else {
                    Ok(guard)
                }
            },
            None => Err(TryLockError::WouldBlock),
        }
    }

    /// Acquire the lock if it is free; if it is not, tell the caller to wait.
    ///
    /// A caller that is told to wait does so until the holder has released
    /// the lock, and then calls again.
    pub fn lock(&mut self) -> (r: LockStep<T>)
        ensures
            r@ == old(self)@.grant(),
            final(self)@ == old(self)@.acquired(),
    {
        match self.try_lock() {
            Ok(guard) => LockStep::Acquired(guard),
            Err(TryLockError::Poisoned(error)) => LockStep::Poisoned(error),
            Err(TryLockError::WouldBlock) => LockStep::Wait,
        }
    }

    /// Release the lock: the value that the guard carries goes back in.
    ///
    /// A guard goes back to the lock that it came from, which is held for
    /// as long as the guard is out. A free lock takes no guard: the value in
    /// it is not to be replaced.
    pub fn unlock(&mut self, guard: Guard<T>)
        requires
            old(self)@.is_locked(),
        ensures
            final(self)@ == old(self)@.released(guard@),
    {
        self.slot = Some(guard.value);
    }

    /// Release the lock on behalf of a holder that failed: the value goes
    /// back in as the holder left it, and the lock is poisoned from now on.
    pub fn abandon(&mut self, guard: Guard<T>)
        requires
            old(self)@.is_locked(),
        ensures
            final(self)@ == old(self)@.abandoned(guard@),
    {
        self.slot = Some(guard.value);
        self.poisoned = true;
    }
}

/// A held lock refuses.
///
/// After any attempt to acquire a lock, successful or not, the lock is held.
/// While it is held, every further attempt is told at once that the lock is
/// busy, gets no value, and leaves the lock exactly as it was.
pub proof fn law_held_lock_refuses<T>(lock: LockState<T>)
    ensures
        lock.acquired().is_locked(),
        lock.is_locked() ==> lock.grant() is Busy && lock.acquired() == lock,
{
}

/// A failure is reported.
///
/// When a holder has failed, the next caller that acquires the lock is told
/// so, and gets the value as the failed holder left it. The mark never goes
/// away: neither acquiring nor releasing a poisoned lock makes it clean.
pub proof fn law_failure_is_reported<T>(lock: LockState<T>, left: T, later: T)
    ensures
        lock.abandoned(left).grant() == Grant::Poisoned(left),
        lock.is_poisoned() ==> lock.acquired().is_poisoned(),
        lock.is_poisoned() ==> lock.released(later).grant() == Grant::Poisoned(later),
{
}

} // verus!
