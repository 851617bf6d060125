//! The verified core of a synchronous, single-worker task scheduler:
//! an ordered store of scheduled entries, the worker's batching and
//! sleeping decisions, the successor rule for periodic work, and the
//! cancellation guard.
//!
//! The threaded front end (the lock, the condition variable, the worker
//! thread, the callback bodies) lives outside this crate's proofs and
//! drives these functions; every scheduling decision it takes is computed
//! and proved here, over plain clock ticks.

mod executor;
mod laws;
mod schedule;
mod task;

pub use executor::{
    batch_outcomes, batch_size, is_ready, next_action, ready_count, run_outcome, sleep_decision,
    spec_runs, spec_successor, spec_successors, NextAction, RunObservation, SleepCheck,
    DEFAULT_LOOP_TIME, MAX_PER_LOOP,
};
pub use laws::{
    chain_deadline, lemma_cancelled_prevents_run, lemma_fire_order, lemma_immediate_fires_first,
    lemma_once_at_most_once, lemma_panic_isolation, lemma_periodic_cadence, lemma_periodic_count,
    lemma_ready_count_exact, lemma_ready_entry_selected, lemma_sleep_duration_safe,
    lemma_successor_step,
    lemma_undisturbed_task_runs,
};
pub use schedule::{deadline_at, deadline_in, entries_ordered, Schedule};
pub use task::{
    fires_before, fires_no_later, lemma_fires_before_total, should_run, Ready, TaskEntry,
    TaskGuard, TaskKind,
};
