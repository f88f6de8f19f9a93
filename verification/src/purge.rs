//! Expiry: which stored files a sweep deletes, and when the sweeper runs.
//!
//! Times are nanoseconds since the Unix epoch. A file's age is measured from
//! its modification time; a file that claims to come from the future has
//! age zero.

use vstd::prelude::*;

verus! {

/// Nanoseconds in a second.
pub const NANOS_PER_SECOND: u128 = 1_000_000_000;

/// How long a stored file is kept, in seconds.
pub const PURGE_AFTER_SECONDS: u64 = 86_400;

/// How long the sweeper waits between two sweeps, in seconds.
pub const PURGE_INTERVAL_SECONDS: u64 = 60;

/// The age at `now` of a file last modified at `modified`.
pub open spec fn age(now: u128, modified: u128) -> nat {
    if now >= modified {
        (now - modified) as nat
    } else {
        0
    }
}

/// Whether a file last modified at `modified` is past `retention` at `now`:
/// its age is strictly greater.
pub open spec fn is_expired(now: u128, modified: u128, retention: u128) -> bool {
    age(now, modified) > retention
}

/// The indices, in rising order, of the entries of `modified` that are
/// expired at `now`.
pub open spec fn expired_indices(modified: Seq<u128>, now: u128, retention: u128) -> Seq<int>
    decreases modified.len(),
{
    if modified.len() == 0 {
        Seq::empty()
    } else if is_expired(now, modified.last(), retention) {
        expired_indices(modified.drop_last(), now, retention).push(modified.len() - 1)
    } else {
        expired_indices(modified.drop_last(), now, retention)
    }
}

/// `expired_indices` holds exactly the indices of the files whose age is past
/// the retention window, each once and in rising order.
pub proof fn lemma_expired_indices(modified: Seq<u128>, now: u128, retention: u128)
    ensures
        forall|i: int|
            #[trigger] expired_indices(modified, now, retention).contains(i) <==> (0 <= i
                < modified.len() && is_expired(now, modified[i], retention)),
        forall|j: int, k: int|
            0 <= j < k < expired_indices(modified, now, retention).len() ==> expired_indices(
                modified,
                now,
                retention,
            )[j] < expired_indices(modified, now, retention)[k],
        expired_indices(modified, now, retention).len() <= modified.len(),
    decreases modified.len(),
{
    let all = expired_indices(modified, now, retention);
    if modified.len() == 0 {
        assert(all =~= Seq::<int>::empty());
    } else {
        let front = modified.drop_last();
        let rest = expired_indices(front, now, retention);
        let last = modified.len() - 1;
        lemma_expired_indices(front, now, retention);
        assert forall|i: int| #[trigger] all.contains(i) <==> (0 <= i < modified.len()
            && is_expired(now, modified[i], retention)) by {
            if is_expired(now, modified.last(), retention) {
                assert(all == rest.push(last));
                assert(all[rest.len() as int] == last);
                if all.contains(i) {
                    let k = choose|k: int| 0 <= k < all.len() && all[k] == i;
                    if k < rest.len() {
                        assert(rest[k] == i);
                        assert(rest.contains(i));
                        assert(front[i] == modified[i]);
                    }
                }
                if 0 <= i < last && is_expired(now, modified[i], retention) {
                    assert(front[i] == modified[i]);
                    assert(rest.contains(i));
                    let k = choose|k: int| 0 <= k < rest.len() && rest[k] == i;
                    assert(all[k] == i);
                }
            } else {
                if all.contains(i) {
                    assert(front[i] == modified[i]);
                }
                if 0 <= i < last && is_expired(now, modified[i], retention) {
                    assert(front[i] == modified[i]);
                }
            }
        }
        assert forall|j: int, k: int| 0 <= j < k < all.len() implies all[j] < all[k] by {
            if is_expired(now, modified.last(), retention) {
                if k == rest.len() {
                    assert(rest.contains(rest[j]));
                    assert(rest[j] < last);
                } else {
                    assert(all[j] == rest[j] && all[k] == rest[k]);
                }
            }
        }
    }
}

/// The retention window in nanoseconds.
pub fn retention_window() -> (nanos: u128)
    ensures
        nanos == PURGE_AFTER_SECONDS * NANOS_PER_SECOND,
{
    86_400_000_000_000
}

/// Whether a file last modified at `modified` is due for deletion at `now`.
pub fn expired(now: u128, modified: u128, retention: u128) -> (due: bool)
    ensures
        due == is_expired(now, modified, retention),
{
    if now >= modified {
        now - modified > retention
    } else {
        false
    }
}

/// One sweep's decision: the indices of the files to delete, given the
/// modification time of every file in the upload directory. A file is chosen
/// if and only if its age is past the retention window; the indices rise.
pub fn select_expired(modified: &[u128], now: u128, retention: u128) -> (due: Vec<usize>)
    ensures
        due@.map_values(|i: usize| i as int) == expired_indices(modified@, now, retention),
        forall|i: int|
            0 <= i < modified@.len() ==> (#[trigger] due@.contains(i as usize) <==> is_expired(
                now,
                modified@[i],
                retention,
            )),
        forall|k: int| 0 <= k < due@.len() ==> #[trigger] due@[k] < modified@.len(),
        forall|j: int, k: int| 0 <= j < k < due@.len() ==> due@[j] < due@[k],
{
    let mut due: Vec<usize> = Vec::new();
    let mut i: usize = 0;
    assert(modified@.take(0) =~= Seq::<u128>::empty());
    while i < modified.len()
        invariant
            i <= modified@.len(),
            due@.map_values(|i: usize| i as int) =~= expired_indices(
                modified@.take(i as int),
                now,
                retention,
            ),
        decreases modified@.len() - i,
    {
        assert(modified@.take(i + 1).drop_last() =~= modified@.take(i as int));
        assert(modified@.take(i + 1).last() == modified@[i as int]);
        if expired(now, modified[i], retention) {
            due.push(i);
        }
        i += 1;
    }
    assert(modified@.take(i as int) =~= modified@);
    proof {
        let chosen = expired_indices(modified@, now, retention);
        let ghost_due = due@.map_values(|i: usize| i as int);
        lemma_expired_indices(modified@, now, retention);
        assert forall|k: int| 0 <= k < due@.len() implies #[trigger] due@[k] < modified@.len() by {
            assert(chosen[k] == due@[k] as int);
            assert(chosen.contains(chosen[k]));
        }
        assert forall|j: int, k: int| 0 <= j < k < due@.len() implies due@[j] < due@[k] by {
            assert(chosen[j] == due@[j] as int);
            assert(chosen[k] == due@[k] as int);
        }
        assert forall|i: int| 0 <= i < modified@.len() implies (#[trigger] due@.contains(
            i as usize,
        ) <==> is_expired(now, modified@[i], retention)) by {
            if due@.contains(i as usize) {
                let k = choose|k: int| 0 <= k < due@.len() && due@[k] == i as usize;
                assert(chosen[k] == i);
                assert(chosen.contains(i));
            }
            if is_expired(now, modified@[i], retention) {
                assert(chosen.contains(i));
                let k = choose|k: int| 0 <= k < chosen.len() && chosen[k] == i;
                assert(ghost_due[k] == i);
                assert(due@[k] == i as usize);
            }
        }
    }
    due
}

/// What wakes the sweeper.
#[derive(Clone, Copy, Debug, PartialEq, Eq, Structural)]
pub enum Signal {
    /// The interval has passed.
    Tick,
    /// The service is shutting down.
    Stop,
}

/// What the sweeper does next.
#[derive(Clone, Copy, Debug, PartialEq, Eq, Structural)]
pub enum Action {
    /// Run one sweep, then wait again.
    Sweep,
    /// Leave the loop.
    Exit,
}

/// Where the sweeper stands.
#[derive(Clone, Copy, Debug, PartialEq, Eq, Structural)]
pub enum Phase {
    /// Waiting for the next signal.
    Running,
    /// Told to stop; it sweeps no more.
    Stopped,
}

/// The sweeper's move on one signal.
pub open spec fn next(phase: Phase, signal: Signal) -> (Phase, Action) {
    match (phase, signal) {
        (Phase::Running, Signal::Tick) => (Phase::Running, Action::Sweep),
        _ => (Phase::Stopped, Action::Exit),
    }
}

/// The sweeper's moves on a run of signals, starting in `phase`.
pub open spec fn actions(phase: Phase, signals: Seq<Signal>) -> Seq<Action>
    decreases signals.len(),
{
    if signals.len() == 0 {
        Seq::empty()
    } else {
        seq![next(phase, signals[0]).1] + actions(next(phase, signals[0]).0, signals.drop_first())
    }
}

/// The sweeper's move on one signal: a tick while running starts a sweep,
/// a stop ends the loop, and once stopped nothing starts a sweep again.
pub fn step(phase: Phase, signal: Signal) -> (moved: (Phase, Action))
    ensures
        moved == next(phase, signal),
{
    match phase {
        Phase::Running => match signal {
            Signal::Tick => (Phase::Running, Action::Sweep),
            Signal::Stop => (Phase::Stopped, Action::Exit),
        },
        Phase::Stopped => (Phase::Stopped, Action::Exit),
    }
}

} // verus!
