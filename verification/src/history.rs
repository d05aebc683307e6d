//! Histories of a deferred global, and what holds of every one of them.
//!
//! The operations of a [`Global`](crate::global::Global) take `&mut self`, so
//! whatever number of callers there are, their calls reach the container one
//! after another. A history is that sequence of calls. The laws below hold of
//! every history, and so of every way in which concurrent callers can be
//! interleaved.

use vstd::prelude::*;
use crate::lock::{fresh, Grant, LockState};
use crate::raw::installed;

verus! {

/// One call on a deferred global, seen from outside.
pub enum Event<T> {
    /// `set` with this content.
    Install(T),
    /// `lock` or `try_lock`.
    Acquire,
    /// `unlock` with a guard that carries this value.
    Release(T),
    /// `abandon` with a guard that carries this value.
    Abandon(T),
}

/// Whether the preconditions of the operations admit `event` in `state`.
pub open spec fn allowed<T>(state: Option<LockState<T>>, event: Event<T>) -> bool {
    match event {
        Event::Install(_) => true,
        Event::Acquire => state is Some,
        Event::Release(_) => state is Some && state.unwrap().is_locked(),
        Event::Abandon(_) => state is Some && state.unwrap().is_locked(),
    }
}

/// The state in which `event` leaves a container that was in `state`.
pub open spec fn next<T>(state: Option<LockState<T>>, event: Event<T>) -> Option<LockState<T>> {
    match event {
        Event::Install(content) => installed(state, fresh(content)),
        Event::Acquire => Some(state.unwrap().acquired()),
        Event::Release(value) => Some(state.unwrap().released(value)),
        Event::Abandon(value) => Some(state.unwrap().abandoned(value)),
    }
}

/// The state of a container that was made by `new` and has then seen
/// `events`, oldest first.
pub open spec fn after<T>(events: Seq<Event<T>>) -> Option<LockState<T>>
    decreases events.len(),
{
    if events.len() == 0 {
        None
    } else {
        next(after(events.drop_last()), events.last())
    }
}

/// Whether every event of the history is allowed in the state that it meets.
pub open spec fn admissible<T>(events: Seq<Event<T>>) -> bool
    decreases events.len(),
{
    events.len() > 0 ==> admissible(events.drop_last()) && allowed(
        after(events.drop_last()),
        events.last(),
    )
}

/// Whether the lock exists and a guard is out.
pub open spec fn held<T>(state: Option<LockState<T>>) -> bool {
    state is Some && state.unwrap().is_locked()
}

/// The number of guards that have been handed out and not yet given back.
/// Every attempt that is not told that the lock is busy hands one out.
pub open spec fn guards_out<T>(events: Seq<Event<T>>) -> int
    decreases events.len(),
{
    if events.len() == 0 {
        0
    } else {
        let before = events.drop_last();
        guards_out(before) + match events.last() {
            Event::Install(_) => 0int,
            Event::Acquire => if after(before).unwrap().grant() is Busy { 0int } else { 1int },
            Event::Release(_) => -1int,
            Event::Abandon(_) => -1int,
        }
    }
}

/// The value that was put into the container last: by the guard that came
/// back last or, if none has come back yet, by the `set` that took effect.
pub open spec fn stored<T>(events: Seq<Event<T>>) -> Option<T>
    decreases events.len(),
{
    if events.len() == 0 {
        None
    } else {
        let before = events.drop_last();
        match events.last() {
            Event::Install(content) => if after(before) is None {
                Some(content)
            } else {
                stored(before)
            },
            Event::Acquire => stored(before),
            Event::Release(value) => Some(value),
            Event::Abandon(value) => Some(value),
        }
    }
}

proof fn lemma_prefix_admissible<T>(events: Seq<Event<T>>, i: int)
    requires
        admissible(events),
        0 <= i <= events.len(),
    ensures
        admissible(events.take(i)),
    decreases events.len(),
{
    if i == events.len() {
        assert(events.take(i) =~= events);
    } else {
        assert(events.drop_last().take(i) =~= events.take(i));
        lemma_prefix_admissible(events.drop_last(), i);
    }
}

proof fn lemma_initialized_by_first_event<T>(events: Seq<Event<T>>)
    requires
        admissible(events),
        events.len() > 0,
    ensures
        events[0] is Install,
        after(events) is Some,
    decreases events.len(),
{
    let before = events.drop_last();
    if before.len() > 0 {
        lemma_initialized_by_first_event(before);
    }
}

/// The container goes from uninitialized to initialized once and never back.
///
/// In every admissible history the first call is a `set`, since nothing else
/// is allowed on an uninitialized container. The container is initialized
/// from that call on, whatever follows, and every later `set` leaves the
/// state exactly as it found it.
pub proof fn law_initialized_once<T>(events: Seq<Event<T>>, i: int)
    requires
        admissible(events),
        0 <= i < events.len(),
    ensures
        events[0] is Install,
        after(events.take(i)) is None <==> i == 0,
        after(events.take(i + 1)) is Some,
        i > 0 && events[i] is Install ==> after(events.take(i + 1)) == after(events.take(i)),
{
    let upto = events.take(i);
    let with = events.take(i + 1);
    lemma_prefix_admissible(events, i);
    lemma_prefix_admissible(events, i + 1);
    lemma_initialized_by_first_event(with);
    assert(with.drop_last() =~= upto);
    if i > 0 {
        lemma_initialized_by_first_event(upto);
    }
}

/// The history in which `set` is called with each of `contents` in turn, and
/// nothing else happens.
pub open spec fn installs<T>(contents: Seq<T>) -> Seq<Event<T>> {
    Seq::new(contents.len(), |i: int| Event::Install(contents[i]))
}

/// With any number of calls of `set`, the first one decides: the container
/// holds its content behind a free, clean lock, and the contents of all the
/// others are gone.
pub proof fn law_first_set_wins<T>(contents: Seq<T>)
    requires
        contents.len() > 0,
    ensures
        admissible(installs(contents)),
        after(installs(contents)) == Some(fresh(contents[0])),
    decreases contents.len(),
{
    let earlier = contents.drop_last();
    assert(installs(contents).drop_last() =~= installs(earlier));
    if earlier.len() > 0 {
        law_first_set_wins(earlier);
    } else {
        assert(admissible(installs(earlier)));
    }
}

/// At most one guard is out at any time, and the lock is held exactly while
/// one is.
pub proof fn law_one_holder<T>(events: Seq<Event<T>>)
    requires
        admissible(events),
    ensures
        guards_out(events) == if held(after(events)) { 1int } else { 0int },
    decreases events.len(),
{
    if events.len() > 0 {
        law_one_holder(events.drop_last());
    }
}

/// The protected value changes only in the hands of a holder.
///
/// Whenever the lock is free, the value in it is the one that the last guard
/// brought back, or the content of the first `set` if no guard has come back
/// yet. A guard that is handed out next carries exactly that value.
pub proof fn law_value_changes_under_guard_only<T>(events: Seq<Event<T>>)
    requires
        admissible(events),
        events.len() > 0,
    ensures
        stored(events) is Some,
        after(events) matches Some(LockState::Free { value, .. }) ==> stored(events) == Some(value),
        after(events).unwrap().grant() matches Grant::Clean(value) ==> stored(events) == Some(value),
        after(events).unwrap().grant() matches Grant::Poisoned(value) ==> stored(events) == Some(
            value,
        ),
    decreases events.len(),
{
    let before = events.drop_last();
    if before.len() > 0 {
        law_value_changes_under_guard_only(before);
        lemma_initialized_by_first_event(before);
    }
}

/// A lock is poisoned exactly if a holder has failed while it had it.
///
/// So what the next caller is told depends on the history in this way: that
/// the lock is busy, if a guard is out; that it is poisoned, if it is free
/// and some holder has failed; and nothing but the value otherwise.
pub proof fn law_poisoned_iff_abandoned<T>(events: Seq<Event<T>>)
    requires
        admissible(events),
        events.len() > 0,
    ensures
        after(events).unwrap().is_poisoned() <==> exists|i: int|
            0 <= i < events.len() && events[i] is Abandon,
        after(events).unwrap().grant() is Busy <==> held(after(events)),
        after(events).unwrap().grant() is Poisoned <==> !held(after(events)) && exists|i: int|
            0 <= i < events.len() && events[i] is Abandon,
    decreases events.len(),
{
    let before = events.drop_last();
    if before.len() > 0 {
        law_poisoned_iff_abandoned(before);
        lemma_initialized_by_first_event(before);
    }
    // A holder has failed in `events` exactly if one has failed in `before`
    // or the last event is a failure.
    if exists|i: int| 0 <= i < before.len() && before[i] is Abandon {
        let i = choose|i: int| 0 <= i < before.len() && before[i] is Abandon;
        assert(events[i] is Abandon);
    }
    if events.last() is Abandon {
        assert(events[events.len() - 1] is Abandon);
    }
    if exists|i: int| 0 <= i < events.len() && events[i] is Abandon {
        let i = choose|i: int| 0 <= i < events.len() && events[i] is Abandon;
        if i < before.len() {
            assert(before[i] is Abandon);
        }
    }
}

} // verus!
