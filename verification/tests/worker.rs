use std::sync::atomic::{AtomicBool, Ordering};
use std::sync::Arc;

use task_timer::{
    batch_outcomes, deadline_at, next_action, NextAction, RunObservation, Schedule, TaskGuard,
    TaskKind, DEFAULT_LOOP_TIME, MAX_PER_LOOP,
};

/// Drive the worker's decision functions against a virtual clock until
/// `horizon` ticks have passed, the way the threaded front end would:
/// pop what is due, "run" it (recording the id), stage successors, and
/// advance the clock across sleeps. Entries listed in `cancelled` are
/// observed with their cancellation flag raised; those in `panicking`
/// have bodies that fail on every invocation.
fn run_sim(s: &mut Schedule, horizon: u64, cancelled: &[u64], panicking: &[u64]) -> Vec<u64> {
    let mut fired: Vec<u64> = Vec::new();
    let mut now: u64 = 0;
    loop {
        match next_action(s, now) {
            NextAction::Exit => break,
            NextAction::ExecuteSome(batch) => {
                let mut obs: Vec<RunObservation> = Vec::new();
                for e in batch.iter() {
                    let o = RunObservation {
                        cancelled: cancelled.contains(&e.id),
                        already_running: false,
                        panicked: panicking.contains(&e.id),
                        completion_time: now,
                    };
                    if !o.cancelled && !o.already_running {
                        fired.push(e.id);
                    }
                    obs.push(o);
                }
                let staged = batch_outcomes(&batch, &obs);
                for succ in staged {
                    s.reinsert(succ);
                }
            }
            NextAction::SleepAtLeast(d, _epoch) => {
                let next = now.saturating_add(d);
                if next > horizon {
                    break;
                }
                now = next;
            }
        }
    }
    fired
}

#[test]
fn one_shot_fires_exactly_once() {
    let mut s = Schedule::with_capacity(0);
    let id = s.submit(10, TaskKind::Once);
    let fired = run_sim(&mut s, 100, &[], &[]);
    assert_eq!(fired, vec![id]);
}

#[test]
fn distinct_deadlines_fire_in_deadline_order() {
    let mut s = Schedule::with_capacity(0);
    let a = s.submit(30, TaskKind::Once);
    let b = s.submit(10, TaskKind::Once);
    let c = s.submit(20, TaskKind::Once);
    let fired = run_sim(&mut s, 100, &[], &[]);
    assert_eq!(fired, vec![b, c, a]);
}

#[test]
fn equal_deadlines_fire_in_submission_order() {
    let mut s = Schedule::with_capacity(0);
    let a = s.submit(10, TaskKind::Once);
    let b = s.submit(10, TaskKind::Once);
    let c = s.submit(10, TaskKind::Once);
    let fired = run_sim(&mut s, 100, &[], &[]);
    assert_eq!(fired, vec![a, b, c]);
}

#[test]
fn cancelled_before_deadline_never_runs() {
    let mut s = Schedule::with_capacity(0);
    let id = s.submit(10, TaskKind::Once);
    let flag = Arc::new(AtomicBool::new(false));
    let guard = TaskGuard::new(id, Arc::clone(&flag));
    // released strictly before the deadline, without detaching
    drop(guard);
    let cancelled: Vec<u64> = if flag.load(Ordering::SeqCst) { vec![id] } else { vec![] };
    let fired = run_sim(&mut s, 100, &cancelled, &[]);
    assert_eq!(fired, Vec::<u64>::new());
}

#[test]
fn detached_guard_still_fires() {
    let mut s = Schedule::with_capacity(0);
    let id = s.submit(10, TaskKind::Once);
    let flag = Arc::new(AtomicBool::new(false));
    let guard = TaskGuard::new(id, Arc::clone(&flag));
    guard.detach();
    let cancelled: Vec<u64> = if flag.load(Ordering::SeqCst) { vec![id] } else { vec![] };
    let fired = run_sim(&mut s, 100, &cancelled, &[]);
    assert_eq!(fired, vec![id]);
}

#[test]
fn repeating_task_count_tracks_elapsed_over_interval() {
    let mut s = Schedule::with_capacity(0);
    let id = s.submit(10, TaskKind::Repeating { interval: 10 });
    let fired = run_sim(&mut s, 100, &[], &[]);
    assert!(fired.iter().all(|f| *f == id));
    assert!(fired.len() > 7, "fired {} times", fired.len());
    assert!(fired.len() < 11, "fired {} times", fired.len());
}

#[test]
fn panicking_repeating_task_fires_once_and_sibling_survives() {
    let mut s = Schedule::with_capacity(0);
    let bad = s.submit(10, TaskKind::Repeating { interval: 10 });
    let good = s.submit(10, TaskKind::Repeating { interval: 10 });
    let fired = run_sim(&mut s, 100, &[], &[bad]);
    assert_eq!(fired.iter().filter(|f| **f == bad).count(), 1);
    let good_runs = fired.iter().filter(|f| **f == good).count();
    assert!(good_runs > 7, "sibling fired {} times", good_runs);
}

#[test]
fn immediate_submission_fires_before_delayed_one() {
    let mut s = Schedule::with_capacity(0);
    let delayed = s.submit(50, TaskKind::Once);
    // the immediate path: deadline is "now", and the guard is detached
    let immediate = s.submit(0, TaskKind::Once);
    let fired = run_sim(&mut s, 100, &[], &[]);
    assert_eq!(fired, vec![immediate, delayed]);
}

#[test]
fn wall_clock_submissions_fire_once_even_from_the_past() {
    let mut s = Schedule::with_capacity(0);
    // wall clock reads 1000 at submission, monotonic clock reads 0
    let future = s.submit(deadline_at(1050, 1000, 0), TaskKind::Once);
    let past = s.submit(deadline_at(900, 1000, 0), TaskKind::Once);
    let fired = run_sim(&mut s, 100, &[], &[]);
    // the already-past target runs as soon as possible, the other at its offset
    assert_eq!(fired, vec![past, future]);
}

#[test]
fn a_batch_is_capped_and_the_rest_follows() {
    let mut s = Schedule::with_capacity(0);
    for _ in 0..10 {
        s.submit(1, TaskKind::Once);
    }
    match next_action(&mut s, 5) {
        NextAction::ExecuteSome(batch) => assert_eq!(batch.len(), MAX_PER_LOOP),
        _ => panic!("expected a batch"),
    }
    match next_action(&mut s, 5) {
        NextAction::ExecuteSome(batch) => assert_eq!(batch.len(), 2),
        _ => panic!("expected the remainder"),
    }
}

#[test]
fn empty_schedule_sleeps_the_default_poll_interval() {
    let mut s = Schedule::with_capacity(0);
    match next_action(&mut s, 5) {
        NextAction::SleepAtLeast(d, epoch) => {
            assert_eq!(d, DEFAULT_LOOP_TIME);
            assert_eq!(epoch, 1);
        }
        _ => panic!("expected a sleep"),
    }
}

#[test]
fn not_yet_due_head_sets_the_sleep_duration() {
    let mut s = Schedule::with_capacity(0);
    s.submit(40, TaskKind::Once);
    match next_action(&mut s, 15) {
        NextAction::SleepAtLeast(d, epoch) => {
            assert_eq!(d, 25);
            assert_eq!(epoch, 2);
        }
        _ => panic!("expected a sleep"),
    }
}

#[test]
fn shutdown_wins_over_pending_work() {
    let mut s = Schedule::with_capacity(0);
    s.submit(1, TaskKind::Once);
    s.set_done();
    match next_action(&mut s, 100) {
        NextAction::Exit => {}
        _ => panic!("expected exit"),
    }
}
