//! Many workers, one lock: no update is lost.
//!
//! Each worker does the same three things: it acquires the lock, applies an
//! update to the value that came with the guard, and releases the lock with
//! the result. A scheduler decides whose turn it is, in any order and as
//! often as it likes. The laws at the end say that the workers never block
//! each other for good, and that once all of them are through, the value has
//! seen every update exactly once.

use vstd::prelude::*;
use crate::lock::{fresh, Grant, LockState};

verus! {

/// Where a worker stands.
pub enum Worker<T> {
    /// It has not got the lock yet.
    Waiting,
    /// It holds the lock, and the guard carries this value.
    Holding(T),
    /// It has released the lock with its update applied.
    Done,
}

/// A lock and the workers that share it.
pub struct Shop<T> {
    pub lock: LockState<T>,
    pub workers: Seq<Worker<T>>,
}

/// One turn of worker `who`.
///
/// A waiting worker tries to acquire the lock, and goes on waiting if the
/// lock is busy. A worker that holds the lock releases it with the updated
/// value. A worker that is through does nothing.
pub open spec fn turn<T>(shop: Shop<T>, who: int, update: spec_fn(T) -> T) -> Shop<T> {
    if 0 <= who < shop.workers.len() {
        match shop.workers[who] {
            Worker::Waiting => match shop.lock.grant() {
                Grant::Clean(value) => Shop {
                    lock: shop.lock.acquired(),
                    workers: shop.workers.update(who, Worker::Holding(value)),
                },
                Grant::Poisoned(value) => Shop {
                    lock: shop.lock.acquired(),
                    workers: shop.workers.update(who, Worker::Holding(value)),
                },
                Grant::Busy => Shop { lock: shop.lock.acquired(), workers: shop.workers },
            },
            Worker::Holding(value) => Shop {
                lock: shop.lock.released(update(value)),
                workers: shop.workers.update(who, Worker::Done),
            },
            Worker::Done => shop,
        }
    } else {
        shop
    }
}

/// The shop after the turns of `schedule`, first to last.
pub open spec fn run<T>(shop: Shop<T>, schedule: Seq<int>, update: spec_fn(T) -> T) -> Shop<T>
    decreases schedule.len(),
{
    if schedule.len() == 0 {
        shop
    } else {
        turn(run(shop, schedule.drop_last(), update), schedule.last(), update)
    }
}

/// A fresh lock around `value` and `n` workers that wait for it.
pub open spec fn opening<T>(value: T, n: nat) -> Shop<T> {
    Shop { lock: fresh(value), workers: Seq::new(n, |i: int| Worker::Waiting) }
}

/// Whether every worker is through.
pub open spec fn all_done<T>(workers: Seq<Worker<T>>) -> bool {
    forall|i: int| 0 <= i < workers.len() ==> workers[i] is Done
}

/// The number of workers that are through.
pub open spec fn done<T>(workers: Seq<Worker<T>>) -> nat
    decreases workers.len(),
{
    if workers.len() == 0 {
        0
    } else {
        done(workers.drop_last()) + if workers.last() is Done { 1nat } else { 0nat }
    }
}

/// `value` after `times` updates.
pub open spec fn applied<T>(update: spec_fn(T) -> T, times: nat, value: T) -> T
    decreases times,
{
    if times == 0 {
        value
    } else {
        update(applied(update, (times - 1) as nat, value))
    }
}

/// Worker `h` holds the lock with `value`, and nobody else holds it.
spec fn holder<T>(workers: Seq<Worker<T>>, h: int, value: T) -> bool {
    &&& 0 <= h < workers.len()
    &&& workers[h] == Worker::Holding(value)
    &&& forall|i: int| 0 <= i < workers.len() && i != h ==> !(#[trigger] workers[i] is Holding)
}

/// The value carries the updates of the workers that are through, no more
/// and no fewer, and it is in one place: in the lock, or with the one worker
/// that holds the lock.
spec fn consistent<T>(shop: Shop<T>, start: T, update: spec_fn(T) -> T) -> bool {
    let current = applied(update, done(shop.workers), start);
    match shop.lock {
        LockState::Free { value, poisoned } => {
            &&& !poisoned
            &&& value == current
            &&& forall|i: int|
                0 <= i < shop.workers.len() ==> !(#[trigger] shop.workers[i] is Holding)
        },
        LockState::Held { poisoned } => {
            &&& !poisoned
            &&& exists|h: int| holder(shop.workers, h, current)
        },
    }
}

/// Replacing one worker changes the count by what that worker gained or lost.
proof fn lemma_done_after_update<T>(workers: Seq<Worker<T>>, i: int, worker: Worker<T>)
    requires
        0 <= i < workers.len(),
    ensures
        done(workers.update(i, worker)) + (if workers[i] is Done { 1nat } else { 0nat })
            == done(workers) + (if worker is Done { 1nat } else { 0nat }),
    decreases workers.len(),
{
    if i == workers.len() - 1 {
        assert(workers.update(i, worker).drop_last() =~= workers.drop_last());
    } else {
        assert(workers.update(i, worker).drop_last() =~= workers.drop_last().update(i, worker));
        lemma_done_after_update(workers.drop_last(), i, worker);
    }
}

proof fn lemma_done_bounds<T>(workers: Seq<Worker<T>>)
    ensures
        done(workers) <= workers.len(),
        all_done(workers) ==> done(workers) == workers.len(),
        (forall|i: int| 0 <= i < workers.len() ==> !(workers[i] is Done)) ==> done(workers) == 0,
    decreases workers.len(),
{
    if workers.len() > 0 {
        let before = workers.drop_last();
        assert(forall|i: int| 0 <= i < before.len() ==> before[i] == workers[i]);
        lemma_done_bounds(before);
    }
}

proof fn lemma_turn_keeps_consistent<T>(
    shop: Shop<T>,
    who: int,
    start: T,
    update: spec_fn(T) -> T,
)
    requires
        consistent(shop, start, update),
    ensures
        consistent(turn(shop, who, update), start, update),
        turn(shop, who, update).workers.len() == shop.workers.len(),
{
    let then = turn(shop, who, update);
    let current = applied(update, done(shop.workers), start);
    if 0 <= who < shop.workers.len() {
        match shop.workers[who] {
            Worker::Waiting => {
                if shop.lock is Free {
                    // The lock hands `current` to this worker, and nobody
                    // else held it before.
                    lemma_done_after_update(shop.workers, who, Worker::Holding(current));
                    assert(holder(then.workers, who, current));
                }
            },
            Worker::Holding(_) => {
                // This worker is the one holder, so what it carries is
                // `current`, and its release adds one update.
                let h = choose|h: int| holder(shop.workers, h, current);
                assert(h == who);
                lemma_done_after_update(shop.workers, who, Worker::Done);
                assert(done(then.workers) == done(shop.workers) + 1);
            },
            Worker::Done => {},
        }
    }
}

proof fn lemma_run_keeps_consistent<T>(
    shop: Shop<T>,
    schedule: Seq<int>,
    start: T,
    update: spec_fn(T) -> T,
)
    requires
        consistent(shop, start, update),
    ensures
        consistent(run(shop, schedule, update), start, update),
        run(shop, schedule, update).workers.len() == shop.workers.len(),
    decreases schedule.len(),
{
    if schedule.len() > 0 {
        let earlier = schedule.drop_last();
        lemma_run_keeps_consistent(shop, earlier, start, update);
        lemma_turn_keeps_consistent(run(shop, earlier, update), schedule.last(), start, update);
    }
}

proof fn lemma_opening_is_consistent<T>(value: T, n: nat, update: spec_fn(T) -> T)
    ensures
        consistent(opening(value, n), value, update),
{
    lemma_done_bounds(opening(value, n).workers);
}

/// No update is lost.
///
/// Let `n` workers share a lock around `value`, and let them take turns in
/// any order. Whenever the lock is free, the value in it is `value` with one
/// update for each worker that is through. So once all of them are through,
/// the lock is free and the value has been updated exactly `n` times.
pub proof fn law_no_update_is_lost<T>(
    value: T,
    n: nat,
    update: spec_fn(T) -> T,
    schedule: Seq<int>,
)
    ensures
        ({
            let end = run(opening(value, n), schedule, update);
            &&& end.workers.len() == n
            &&& end.lock matches LockState::Free { value: now, .. } ==> now == applied(
                update,
                done(end.workers),
                value,
            )
            &&& all_done(end.workers) ==> end.lock == fresh(applied(update, n, value))
        }),
{
    lemma_opening_is_consistent(value, n, update);
    lemma_run_keeps_consistent(opening(value, n), schedule, value, update);
    let end = run(opening(value, n), schedule, update);
    lemma_done_bounds(end.workers);
    if all_done(end.workers) && end.lock is Held {
        // Somebody would hold the lock, and yet be through.
        let h = choose|h: int| holder(end.workers, h, applied(update, done(end.workers), value));
        assert(end.workers[h] is Done);
    }
}

/// With a counter for a value and "add one" for an update, the counter ends
/// at its start plus the number of workers.
pub proof fn law_counter_counts_every_worker(start: int, n: nat, schedule: Seq<int>)
    ensures
        ({
            let end = run(opening(start, n), schedule, |count: int| count + 1);
            all_done(end.workers) ==> end.lock == fresh(start + n)
        }),
{
    law_no_update_is_lost(start, n, |count: int| count + 1, schedule);
    lemma_applied_increments(start, n);
}

proof fn lemma_applied_increments(start: int, times: nat)
    ensures
        applied(|count: int| count + 1, times, start) == start + times,
    decreases times,
{
    if times > 0 {
        lemma_applied_increments(start, (times - 1) as nat);
    }
}

/// The workers never block each other for good.
///
/// Whatever has happened so far, as long as some worker is not through there
/// is a worker whose next turn takes it a stage further: the holder if the
/// lock is held, and any waiting worker if it is free.
pub proof fn law_never_stuck<T>(value: T, n: nat, update: spec_fn(T) -> T, schedule: Seq<int>)
    ensures
        ({
            let now = run(opening(value, n), schedule, update);
            !all_done(now.workers) ==> exists|who: int|
                0 <= who < n && !(now.workers[who] is Done) && (#[trigger] turn(
                    now,
                    who,
                    update,
                )).workers[who] != now.workers[who]
        }),
{
    lemma_opening_is_consistent(value, n, update);
    lemma_run_keeps_consistent(opening(value, n), schedule, value, update);
    let now = run(opening(value, n), schedule, update);
    if !all_done(now.workers) {
        if now.lock is Held {
            let h = choose|h: int|
                holder(now.workers, h, applied(update, done(now.workers), value));
            assert(turn(now, h, update).workers[h] is Done);
        } else {
            let w = choose|w: int| 0 <= w < now.workers.len() && !(now.workers[w] is Done);
            assert(now.workers[w] is Waiting);
            assert(turn(now, w, update).workers[w] is Holding);
        }
    }
}

} // verus!
