use vstd::prelude::*;

use crate::schedule::{entries_ordered, Schedule};
use crate::task::{fires_before, should_run, Ready, TaskEntry, TaskKind};

verus! {

/// Worst case for how late an entry can fire if the worker misses a wake
/// signal while it is busy: it rescans at least this often, in ticks.
pub const DEFAULT_LOOP_TIME: u64 = 500000000;

/// Upper bound on how many ready entries one worker iteration pops, so a
/// burst of due work cannot keep the lock-free execution phase from ever
/// going back for newly submitted, earlier entries.
pub const MAX_PER_LOOP: usize = 8;

/// What the worker does next, decided in one pass under the lock.
#[derive(Debug)]
pub enum NextAction {
    /// Run these entries now, in order: the one that fires first comes
    /// first.
    ExecuteSome(Vec<TaskEntry>),
    /// Sleep at least this many ticks — unless the epoch moves first.
    SleepAtLeast(u64, u64),
    Exit,
}

/// A stored entry is due once the clock has reached its deadline.
pub open spec fn is_ready(e: TaskEntry, now: u64) -> bool {
    e.deadline <= now
}

/// The length of the due suffix of the store: how many entries at the
/// firing end are ready at `now`.
pub open spec fn ready_count(ts: Seq<TaskEntry>, now: u64) -> nat
    decreases ts.len(),
{
    if ts.len() == 0 {
        0
    } else if is_ready(ts.last(), now) {
        1 + ready_count(ts.drop_last(), now)
    } else {
        0
    }
}

/// How many entries one iteration hands to the worker: every due entry,
/// up to the per-loop cap.
pub open spec fn batch_size(ts: Seq<TaskEntry>, now: u64) -> int {
    if (ready_count(ts, now) as int) < (MAX_PER_LOOP as int) {
        ready_count(ts, now) as int
    } else {
        MAX_PER_LOOP as int
    }
}

/// The popped batch is exactly the due end of the store, reversed: it
/// fires in order, and everything left behind fires no earlier.
proof fn lemma_batch_order(ts: Seq<TaskEntry>, batch: Seq<TaskEntry>, rest: Seq<TaskEntry>)
    requires
        entries_ordered(ts),
        batch.len() <= ts.len(),
        rest == ts.take(ts.len() - batch.len()),
        forall|i: int| 0 <= i < batch.len() ==> #[trigger] batch[i] == ts[ts.len() - 1 - i],
    ensures
        forall|i: int, j: int|
            #![trigger batch[i], batch[j]]
            0 <= i < j < batch.len() ==> fires_before(batch[i], batch[j]),
        forall|i: int, k: int|
            #![trigger batch[i], rest[k]]
            0 <= i < batch.len() && 0 <= k < rest.len() ==> fires_before(batch[i], rest[k]),
{
    assert forall|i: int, j: int|
        #![trigger batch[i], batch[j]]
        0 <= i < j < batch.len() implies fires_before(batch[i], batch[j]) by {
        let a = ts.len() - 1 - j;
        let b = ts.len() - 1 - i;
        assert(batch[j] == ts[a]);
        assert(batch[i] == ts[b]);
        assert(fires_before(ts[b], ts[a]));
    };
    assert forall|i: int, k: int|
        #![trigger batch[i], rest[k]]
        0 <= i < batch.len() && 0 <= k < rest.len() implies fires_before(batch[i], rest[k]) by {
        let b = ts.len() - 1 - i;
        assert(batch[i] == ts[b]);
        assert(rest[k] == ts[k]);
        assert(k < b);
        assert(fires_before(ts[b], ts[k]));
    };
}

/// One pass of the worker's selection step, taken under the lock: exit on
/// shutdown; otherwise pop every due entry up to the cap; with nothing
/// due, report how long to sleep and under which epoch that choice was
/// made. A due entry is never slept past.
pub fn next_action(s: &mut Schedule, now: u64) -> (r: NextAction)
    requires
        old(s).wf(),
    ensures
        final(s).wf(),
        final(s).is_done() == old(s).is_done(),
        final(s).next_id() == old(s).next_id(),
        old(s).is_done() ==> r is Exit && final(s).tasks() == old(s).tasks(),
        !old(s).is_done() ==> !(r is Exit),
        !old(s).is_done() && batch_size(old(s).tasks(), now) > 0 ==> r is ExecuteSome,
        r matches NextAction::ExecuteSome(batch) ==> {
            &&& batch@.len() == batch_size(old(s).tasks(), now)
            &&& batch@.len() > 0
            &&& forall|i: int|
                0 <= i < batch@.len() ==> #[trigger] batch@[i] == old(s).tasks()[old(
                    s,
                ).tasks().len() - 1 - i]
            &&& final(s).tasks() == old(s).tasks().take(
                old(s).tasks().len() - batch@.len(),
            )
            &&& forall|i: int| 0 <= i < batch@.len() ==> is_ready(#[trigger] batch@[i], now)
            &&& forall|i: int, j: int|
                #![trigger batch@[i], batch@[j]]
                0 <= i < j < batch@.len() ==> fires_before(batch@[i], batch@[j])
            &&& forall|i: int, k: int|
                #![trigger batch@[i], final(s).tasks()[k]]
                0 <= i < batch@.len() && 0 <= k < final(s).tasks().len() ==> fires_before(
                    batch@[i],
                    final(s).tasks()[k],
                )
        },
        r matches NextAction::SleepAtLeast(d, ep) ==> {
            &&& ep == old(s).next_id()
            &&& batch_size(old(s).tasks(), now) == 0
            &&& final(s).tasks() == old(s).tasks()
            &&& (old(s).tasks().len() > 0 ==> now < old(s).tasks().last().deadline && d
                == old(s).tasks().last().deadline - now)
            &&& (old(s).tasks().len() == 0 ==> d == DEFAULT_LOOP_TIME)
        },
{
    if s.is_shutdown() {
        return NextAction::Exit;
    }
    let epoch = s.epoch();
    let ghost ts = s.tasks();
    let ghost l = ts.len() as int;
    let mut batch: Vec<TaskEntry> = Vec::new();
    proof {
        assert(ts.take(l) =~= ts);
    }
    while batch.len() < MAX_PER_LOOP
        invariant
            s.wf(),
            s.is_done() == old(s).is_done(),
            !s.is_done(),
            s.next_id() == old(s).next_id(),
            epoch == old(s).next_id(),
            ts == old(s).tasks(),
            entries_ordered(ts),
            forall|i: int| 0 <= i < ts.len() ==> (#[trigger] ts[i]).id < old(s).next_id(),
            l == ts.len(),
            batch@.len() <= MAX_PER_LOOP,
            batch@.len() <= l,
            s.tasks() == ts.take(l - batch@.len()),
            forall|i: int| 0 <= i < batch@.len() ==> #[trigger] batch@[i] == ts[l - 1 - i],
            forall|i: int| 0 <= i < batch@.len() ==> is_ready(#[trigger] batch@[i], now),
            ready_count(ts, now) == batch@.len() + ready_count(s.tasks(), now),
        decreases MAX_PER_LOOP - batch@.len(),
    {
        match s.peek_next() {
            None => {
                // store exhausted: everything due is already in the batch
                if batch.len() == 0 {
                    return NextAction::SleepAtLeast(DEFAULT_LOOP_TIME, epoch);
                } else {
                    proof {
                        lemma_batch_order(ts, batch@, s.tasks());
                    }
                    return NextAction::ExecuteSome(batch);
                }
            },
            Some(e) => {
                match e.ready(now) {
                    Ready::Now => {
                        let ghost cur = s.tasks();
                        let _popped = s.pop_next();
                        batch.push(e);
                        proof {
                            assert(cur.drop_last() =~= ts.take(l - batch@.len()));
                        }
                    },
                    Ready::In(d) => {
                        // the earliest pending entry is not due yet
                        proof {
                            assert(ready_count(s.tasks(), now) == 0);
                        }
                        if batch.len() == 0 {
                            proof {
                                assert(s.tasks() =~= ts);
                            }
                            return NextAction::SleepAtLeast(d, epoch);
                        } else {
                            proof {
                                lemma_batch_order(ts, batch@, s.tasks());
                            }
                            return NextAction::ExecuteSome(batch);
                        }
                    },
                }
            },
        }
    }
    proof {
        lemma_batch_order(ts, batch@, s.tasks());
    }
    NextAction::ExecuteSome(batch)
}

/// What the worker, back under the lock with a sleep already computed,
/// does before actually waiting.
#[derive(Clone, Copy, PartialEq, Eq, Structural, Debug)]
pub enum SleepCheck {
    /// Shutdown was requested in the meantime.
    Exit,
    /// A submission landed since the sleep was computed: rescan at once
    /// rather than risk oversleeping a new, earlier deadline.
    Rescan,
    /// Nothing changed: wait out the timeout (or a wake signal).
    Wait,
}

/// The re-check under the lock before sleeping: exit on shutdown, rescan
/// if the epoch moved since `seen_epoch` was read, otherwise wait.
pub fn sleep_decision(s: &Schedule, seen_epoch: u64) -> (r: SleepCheck)
    ensures
        s.is_done() ==> r == SleepCheck::Exit,
        !s.is_done() && s.next_id() != seen_epoch ==> r == SleepCheck::Rescan,
        !s.is_done() && s.next_id() == seen_epoch ==> r == SleepCheck::Wait,
{
    if s.is_shutdown() {
        SleepCheck::Exit
    } else if s.epoch() != seen_epoch {
        SleepCheck::Rescan
    } else {
        SleepCheck::Wait
    }
}

/// What the worker observed while handling one popped entry: the two
/// shared flags it read before running the body, whether the body failed,
/// and when the run finished.
#[derive(Clone, Copy, PartialEq, Eq, Structural, Debug)]
pub struct RunObservation {
    /// The guard's cancellation flag, read just before running.
    pub cancelled: bool,
    /// The re-entrancy flag was already raised: an earlier run of this
    /// chain failed without recovering.
    pub already_running: bool,
    /// The body was run and failed; its panic was caught and isolated.
    pub panicked: bool,
    /// When the run finished, in ticks; meaningless if the body never
    /// ran.
    pub completion_time: u64,
}

/// Whether the body is run at all: a cancelled entry is skipped silently,
/// and a raised re-entrancy flag marks an unrecovered failure, so the
/// entry is skipped and never retried.
pub open spec fn spec_runs(o: RunObservation) -> bool {
    !o.cancelled && !o.already_running
}

/// The entry staged for reinsertion after one is handled: only a
/// repeating entry whose body ran and completed recurs, at completion
/// time plus its interval.
pub open spec fn spec_successor(e: TaskEntry, o: RunObservation) -> Option<TaskEntry> {
    if spec_runs(o) && !o.panicked {
        match e.kind {
            TaskKind::Once => None,
            TaskKind::Repeating { interval } => Some(
                TaskEntry {
                    id: e.id,
                    deadline: (o.completion_time + interval) as u64,
                    kind: e.kind,
                },
            ),
        }
    } else {
        None
    }
}

/// The decision after one popped entry was handled: whether anything is
/// staged for reinsertion, per `spec_successor`.
pub fn run_outcome(e: &TaskEntry, o: RunObservation) -> (r: Option<TaskEntry>)
    requires
        e.kind matches TaskKind::Repeating { interval } ==> o.completion_time + interval
            <= u64::MAX,
    ensures
        r == spec_successor(*e, o),
{
    if should_run(o.cancelled, o.already_running) && !o.panicked {
        e.successor(o.completion_time)
    } else {
        None
    }
}

/// The successors staged by a whole executed batch, in batch order: each
/// entry contributes through `spec_successor` of its own observation
/// alone.
pub open spec fn spec_successors(batch: Seq<TaskEntry>, obs: Seq<RunObservation>) -> Seq<
    TaskEntry,
>
    decreases batch.len(),
{
    if batch.len() == 0 || obs.len() == 0 {
        Seq::empty()
    } else {
        match spec_successor(batch[0], obs[0]) {
            Some(e) => seq![e] + spec_successors(batch.drop_first(), obs.drop_first()),
            None => spec_successors(batch.drop_first(), obs.drop_first()),
        }
    }
}

/// Stage the successors of a whole executed batch, in batch order, for
/// reinsertion under one lock acquisition.
pub fn batch_outcomes(batch: &Vec<TaskEntry>, obs: &Vec<RunObservation>) -> (r: Vec<TaskEntry>)
    requires
        batch@.len() == obs@.len(),
        forall|i: int|
            0 <= i < batch@.len() ==> ((#[trigger] batch@[i]).kind matches TaskKind::Repeating {
                interval,
            } ==> obs@[i].completion_time + interval <= u64::MAX),
    ensures
        r@ == spec_successors(batch@, obs@),
{
    let mut out: Vec<TaskEntry> = Vec::new();
    let mut idx: usize = 0;
    proof {
        assert(batch@.skip(0) =~= batch@);
        assert(obs@.skip(0) =~= obs@);
        assert(out@ + spec_successors(batch@, obs@) =~= spec_successors(batch@, obs@));
    }
    while idx < batch.len()
        invariant
            batch@.len() == obs@.len(),
            idx <= batch@.len(),
            forall|i: int|
                0 <= i < batch@.len() ==> ((#[trigger] batch@[i]).kind
                    matches TaskKind::Repeating { interval } ==> obs@[i].completion_time + interval
                    <= u64::MAX),
            out@ + spec_successors(batch@.skip(idx as int), obs@.skip(idx as int))
                == spec_successors(batch@, obs@),
        decreases batch@.len() - idx,
    {
        let ghost bs = batch@.skip(idx as int);
        let ghost os = obs@.skip(idx as int);
        proof {
            assert(bs[0] == batch@[idx as int]);
            assert(os[0] == obs@[idx as int]);
            assert(bs.drop_first() =~= batch@.skip(idx as int + 1));
            assert(os.drop_first() =~= obs@.skip(idx as int + 1));
        }
        let ghost out_before = out@;
        match run_outcome(&batch[idx], obs[idx]) {
            Some(e) => {
                out.push(e);
                proof {
                    assert(out@ + spec_successors(bs.drop_first(), os.drop_first()) =~= out_before
                        + (seq![e] + spec_successors(bs.drop_first(), os.drop_first())));
                }
            },
            None => {
            },
        }
        idx += 1;
    }
    proof {
        assert(batch@.skip(batch@.len() as int) =~= Seq::<TaskEntry>::empty());
        assert(obs@.skip(obs@.len() as int) =~= Seq::<RunObservation>::empty());
        assert(out@ + Seq::<TaskEntry>::empty() =~= out@);
    }
    out
}

} // verus!
