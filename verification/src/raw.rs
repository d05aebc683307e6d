//! The one-shot cell underneath a deferred global.

use vstd::prelude::*;

verus! {

/// A slot that starts out empty and is filled at most once.
///
/// `No` is the state before initialization, `Yes` the state after it. There is
/// no way back from `Yes` to `No`, and no operation replaces the content of a
/// `Yes`.
#[derive(Debug)]
pub enum RawGlobal<T> {
    No,
    Yes(T),
}

impl<T> View for RawGlobal<T> {
    type V = Option<T>;

    open spec fn view(&self) -> Option<T> {
        match *self {
            RawGlobal::No => None,
            RawGlobal::Yes(content) => Some(content),
        }
    }
}

/// What a slot in state `before` holds after a call of `set` with `content`:
/// an empty slot takes the content, a filled one keeps its own.
pub open spec fn installed<T>(before: Option<T>, content: T) -> Option<T> {
    match before {
        None => Some(content),
        Some(_) => before,
    }
}

impl<T> RawGlobal<T> {
    /// Create new `RawGlobal` instance, not yet initialized.
    pub fn new() -> (r: RawGlobal<T>)
        ensures
            r@ is None,
    {
        RawGlobal::No
    }

    /// Whether a value has been installed.
    pub fn is_set(&self) -> (r: bool)
        ensures
            r == (self@ is Some),
    {
        match self {
            RawGlobal::No => false,
            RawGlobal::Yes(_) => true,
        }
    }

    /// Set value to `RawGlobal`.
    ///
    /// The first call installs `content`. Every later call is a no-op: the
    /// installed value stays and `content` is dropped.
    pub fn set(&mut self, content: T)
        ensures
            final(self)@ == installed(old(self)@, content),
    {
        if !self.is_set() {
            *self = RawGlobal::Yes(content);
        }
    }

    /// The installed value.
    pub fn deref(&self) -> (r: &T)
        requires
            self@ is Some,
        ensures
            self@ == Some(*r),
    {
        match self {
            RawGlobal::Yes(content) => content,
            RawGlobal::No => vstd::pervasive::unreached(),
        }
    }

    /// The installed value, for changing it in place.
    pub fn deref_mut(&mut self) -> (r: &mut T)
        requires
            old(self)@ is Some,
        ensures
            old(self)@ == Some(*r),
            final(self)@ == Some(*final(r)),
    {
        match self {
            RawGlobal::Yes(content) => content,
            RawGlobal::No => vstd::pervasive::unreached(),
        }
    }
}

} // verus!
