use vstd::prelude::*;

use crate::executor::{
    batch_size, is_ready, ready_count, spec_runs, spec_successor, spec_successors, RunObservation,
};
use crate::schedule::{entries_ordered, Schedule};
use crate::task::{fires_before, TaskEntry, TaskKind};

verus! {

/// Ordering: in a well-formed schedule, store position fixes firing
/// order. The entry nearer the firing end never fires later than one
/// behind it: distinct deadlines fire in non-decreasing deadline order,
/// and equal deadlines fire in submission order (the id tie-break).
pub proof fn lemma_fire_order(s: &Schedule, i: int, j: int)
    requires
        s.wf(),
        0 <= i < j < s.tasks().len(),
    ensures
        fires_before(s.tasks()[j], s.tasks()[i]),
        s.tasks()[j].deadline <= s.tasks()[i].deadline,
        s.tasks()[j].deadline == s.tasks()[i].deadline ==> s.tasks()[j].id <= s.tasks()[i].id,
{
}

/// A due entry is never slept past: once anything in an ordered store is
/// ready, the selection step hands the worker a non-empty batch. With
/// `lemma_once_at_most_once`, a pending one-shot fires exactly once.
pub proof fn lemma_ready_entry_selected(ts: Seq<TaskEntry>, now: u64, i: int)
    requires
        entries_ordered(ts),
        0 <= i < ts.len(),
        is_ready(ts[i], now),
    ensures
        ready_count(ts, now) >= 1,
        batch_size(ts, now) >= 1,
{
    let last = ts.len() - 1;
    if i < last {
        assert(fires_before(ts[last], ts[i]));
    }
    assert(is_ready(ts.last(), now));
    assert(ready_count(ts, now) == 1 + ready_count(ts.drop_last(), now));
}

/// In an ordered store, `ready_count` picks out exactly the due entries:
/// an entry is due at `now` iff it sits within the last `ready_count`
/// positions. One selection pass therefore pops every due entry (up to
/// the per-loop cap) and nothing that is not yet due.
pub proof fn lemma_ready_count_exact(ts: Seq<TaskEntry>, now: u64, i: int)
    requires
        entries_ordered(ts),
        0 <= i < ts.len(),
    ensures
        is_ready(ts[i], now) <==> i >= ts.len() - ready_count(ts, now),
    decreases ts.len(),
{
    let last = ts.len() - 1;
    if !is_ready(ts.last(), now) {
        // the head is not due, so nothing behind it is either
        if i < last {
            assert(fires_before(ts[last], ts[i]));
        }
    } else if i < last {
        let dl = ts.drop_last();
        assert(entries_ordered(dl)) by {
            assert forall|a: int, b: int|
                #![trigger dl[a], dl[b]]
                0 <= a < b < dl.len() implies fires_before(dl[b], dl[a]) by {
                assert(dl[a] == ts[a]);
                assert(dl[b] == ts[b]);
            }
        };
        lemma_ready_count_exact(dl, now, i);
        assert(dl[i] == ts[i]);
    }
}

/// A one-shot entry never recurs: whatever the worker observed, handling
/// it stages no successor, so it cannot fire a second time.
pub proof fn lemma_once_at_most_once(e: TaskEntry, o: RunObservation)
    requires
        e.kind is Once,
    ensures
        spec_successor(e, o) is None,
{
}

/// Cancellation observed before the run prevents execution: the body is
/// not invoked, and nothing is staged for reinsertion.
pub proof fn lemma_cancelled_prevents_run(e: TaskEntry, o: RunObservation)
    requires
        o.cancelled,
    ensures
        !spec_runs(o),
        spec_successor(e, o) is None,
{
}

/// With no cancellation observed and no unrecovered earlier failure, the
/// body does run: in particular a detached guard, which never raises the
/// cancellation flag, leaves its task firing normally with no guard left
/// alive.
pub proof fn lemma_undisturbed_task_runs(o: RunObservation)
    requires
        !o.cancelled,
        !o.already_running,
    ensures
        spec_runs(o),
{
}

/// The deadline of the k-th firing (counting from zero) of a repeating
/// chain submitted at `t0` whose every body completes right at its
/// deadline: the first deadline is `t0 + interval`, and each run's
/// completion schedules the next one interval later.
pub open spec fn chain_deadline(t0: int, interval: int, k: nat) -> int
    decreases k,
{
    if k == 0 {
        t0 + interval
    } else {
        chain_deadline(t0, interval, (k - 1) as nat) + interval
    }
}

/// One link of a periodic chain: a run that completes at time `c` stages
/// the next firing at exactly `c + interval`, under the same id. Slow
/// bodies therefore drift the cadence; they never overlap it.
pub proof fn lemma_successor_step(e: TaskEntry, o: RunObservation, interval: u64)
    requires
        e.kind == (TaskKind::Repeating { interval }),
        spec_runs(o),
        !o.panicked,
        o.completion_time + interval <= u64::MAX,
    ensures
        spec_successor(e, o) == Some(
            TaskEntry {
                id: e.id,
                deadline: (o.completion_time + interval) as u64,
                kind: e.kind,
            },
        ),
{
}

/// Drift model, ideal case: with negligible bodies the k-th firing lands
/// exactly `(k + 1) * interval` after submission.
pub proof fn lemma_periodic_cadence(t0: int, interval: int, k: nat)
    ensures
        chain_deadline(t0, interval, k) == t0 + (k as int + 1) * interval,
    decreases k,
{
    if k == 0 {
        assert((0 + 1) * interval == interval) by (nonlinear_arith);
    } else {
        lemma_periodic_cadence(t0, interval, (k - 1) as nat);
        assert((k as int) * interval + interval == (k as int + 1) * interval)
            by (nonlinear_arith);
    }
}

/// Drift model, counting: over a window of `m` whole intervals from
/// submission, exactly the firings numbered below `m` are due — the
/// expected count is the elapsed time divided by the interval.
pub proof fn lemma_periodic_count(t0: int, interval: int, k: nat, m: nat)
    requires
        interval >= 1,
    ensures
        chain_deadline(t0, interval, k) <= t0 + (m as int) * interval <==> k as int + 1
            <= m as int,
{
    lemma_periodic_cadence(t0, interval, k);
    assert(((k as int + 1) * interval <= (m as int) * interval) <==> (k as int + 1 <= m as int))
        by (nonlinear_arith)
        requires
            interval >= 1,
    ;
}

/// Panic isolation: a failed run stages no successor — its chain ends
/// with that one invocation — and the batch's staged successors are
/// exactly those of the batch with the failed entry left out, so
/// siblings in the same batch are unaffected.
pub proof fn lemma_panic_isolation(batch: Seq<TaskEntry>, obs: Seq<RunObservation>, i: int)
    requires
        batch.len() == obs.len(),
        0 <= i < batch.len(),
        obs[i].panicked,
    ensures
        spec_successor(batch[i], obs[i]) is None,
        spec_successors(batch, obs) == spec_successors(batch.remove(i), obs.remove(i)),
    decreases i,
{
    if i == 0 {
        assert(batch.remove(0) =~= batch.drop_first());
        assert(obs.remove(0) =~= obs.drop_first());
    } else {
        lemma_panic_isolation(batch.drop_first(), obs.drop_first(), i - 1);
        assert(batch.drop_first().remove(i - 1) =~= batch.remove(i).drop_first());
        assert(obs.drop_first().remove(i - 1) =~= obs.remove(i).drop_first());
        assert(batch.remove(i)[0] == batch[0]);
        assert(obs.remove(i)[0] == obs[0]);
    }
}

/// A computed sleep never overshoots: when the entry that fires next is
/// not yet due and the worker decides to sleep until its deadline, every
/// pending entry's deadline lies at or beyond the moment it will wake.
/// (A submission arriving meanwhile is caught by the epoch re-check.)
pub proof fn lemma_sleep_duration_safe(ts: Seq<TaskEntry>, now: u64, i: int)
    requires
        entries_ordered(ts),
        0 <= i < ts.len(),
        now <= ts.last().deadline,
    ensures
        now + (ts.last().deadline - now) <= ts[i].deadline,
{
    if i < ts.len() - 1 {
        assert(fires_before(ts[ts.len() - 1], ts[i]));
    }
}

/// Fire-and-forget immediacy: an entry due now fires strictly ahead of
/// any entry with a later deadline, regardless of submission order.
pub proof fn lemma_immediate_fires_first(a: TaskEntry, b: TaskEntry)
    requires
        a.deadline < b.deadline,
    ensures
        fires_before(a, b),
        !fires_before(b, a),
{
}

} // verus!
