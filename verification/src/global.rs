//! The deferred global itself: a one-shot cell with a lock inside.

use vstd::prelude::*;
use crate::lock::{fresh, try_lock_grant, Guard, Lock, LockState, LockStep, TryLockError};
use crate::raw::{RawGlobal, installed};

verus! {

/// A global variable whose place exists from the start and whose value comes
/// later.
///
/// A `Global` is created uninitialized. One call of [`Global::set`] installs
/// the value together with a fresh lock; from then on the value is reached
/// only through that lock. Installing happens once: a second `set` changes
/// nothing.
///
/// Every operation that changes the container takes `&mut self`, so nobody
/// can look at it while it is between two states.
///
/// Reaching for the value before `set` is a mistake in the program, not a
/// condition to handle: the accessors rule it out by their preconditions.
#[derive(Debug)]
pub struct Global<T> {
    content: RawGlobal<Lock<T>>,
}

impl<T> View for Global<T> {
    type V = Option<LockState<T>>;

    /// `None` while uninitialized, afterwards the state of the lock.
    closed spec fn view(&self) -> Option<LockState<T>> {
        match self.content {
            RawGlobal::No => None,
            RawGlobal::Yes(lock) => Some(lock@),
        }
    }
}

impl<T> Global<T> {
    /// Create new `Global` instance, not yet initialized.
    pub fn new() -> (r: Global<T>)
        ensures
            r@ is None,
    {
        Global { content: RawGlobal::new() }
    }

    /// Whether `set` has been called.
    pub fn is_initialized(&self) -> (r: bool)
        ensures
            r == (self@ is Some),
    {
        self.content.is_set()
    }

    /// Set value to `Global`.
    ///
    /// The first call installs `content` behind a fresh lock. Every later
    /// call is a no-op, whatever state the lock is in: the value, the holder
    /// and the poison mark all stay, and `content` is dropped.
    pub fn set(&mut self, content: T)
        ensures
            final(self)@ == installed(old(self)@, fresh(content)),
    {
        self.content.set(Lock::new(content));
    }

    /// The lock, without acquiring it.
    pub fn deref(&self) -> (r: &Lock<T>)
        requires
            self@ is Some,
        ensures
            self@ == Some(r@),
    {
        self.content.deref()
    }

    /// The lock, without acquiring it, for operating on it.
    pub fn deref_mut(&mut self) -> (r: &mut Lock<T>)
        requires
            old(self)@ is Some,
        ensures
            old(self)@ == Some(r@),
            final(self)@ == Some(final(r)@),
    {
        self.content.deref_mut()
    }

    /// Acquire the lock if it is free; if it is not, tell the caller to wait.
    pub fn lock(&mut self) -> (r: LockStep<T>)
        requires
            old(self)@ is Some,
        ensures
            r@ == old(self)@.unwrap().grant(),
            final(self)@ == Some(old(self)@.unwrap().acquired()),
    {
        self.content.deref_mut().lock()
    }

    /// Acquire the lock if it is free, and say so if it is not. Never waits.
    pub fn try_lock(&mut self) -> (r: Result<Guard<T>, TryLockError<T>>)
        requires
            old(self)@ is Some,
        ensures
            try_lock_grant(r) == old(self)@.unwrap().grant(),
            final(self)@ == Some(old(self)@.unwrap().acquired()),
    {
        self.content.deref_mut().try_lock()
    }

    /// Release the lock: the value that the guard carries goes back in.
    pub fn unlock(&mut self, guard: Guard<T>)
        requires
            old(self)@ is Some,
            old(self)@.unwrap().is_locked(),
        ensures
            final(self)@ == Some(old(self)@.unwrap().released(guard@)),
    {
        self.content.deref_mut().unlock(guard)
    }

    /// Release the lock on behalf of a holder that failed: the value goes
    /// back in as the holder left it, and the lock is poisoned from now on.
    pub fn abandon(&mut self, guard: Guard<T>)
        requires
            old(self)@ is Some,
            old(self)@.unwrap().is_locked(),
        ensures
            final(self)@ == Some(old(self)@.unwrap().abandoned(guard@)),
    {
        self.content.deref_mut().abandon(guard)
    }
}

} // verus!
