use vstd::prelude::*;

use crate::task::{fires_before, fires_no_later, TaskEntry, TaskKind};

verus! {

/// The store keeps the entry that fires next at the end: walking from the
/// front, every later position fires no later than every earlier one.
pub open spec fn entries_ordered(ts: Seq<TaskEntry>) -> bool {
    forall|i: int, j: int|
        #![trigger ts[i], ts[j]]
        0 <= i < j < ts.len() ==> fires_before(ts[j], ts[i])
}

/// The shared schedule: the ordered store of pending entries, the
/// submission counter that both assigns ids and serves as the epoch, and
/// the shutdown flag. One of these sits behind the front end's lock.
pub struct Schedule {
    tasks: Vec<TaskEntry>,
    done: bool,
    next_id: u64,
}

impl Schedule {
    /// The pending entries; the one that fires next is last.
    pub closed spec fn tasks(&self) -> Seq<TaskEntry> {
        self.tasks@
    }

    /// Whether shutdown has been requested.
    pub closed spec fn is_done(&self) -> bool {
        self.done
    }

    /// The submission counter: the id the next submission will get.
    pub closed spec fn next_id(&self) -> u64 {
        self.next_id
    }

    /// Well-formed: the store is ordered, every stored id was assigned by
    /// an earlier submission, and the counter starts at one.
    pub open spec fn wf(&self) -> bool {
        &&& entries_ordered(self.tasks())
        &&& forall|i: int|
            0 <= i < self.tasks().len() ==> (#[trigger] self.tasks()[i]).id < self.next_id()
        &&& self.next_id() >= 1
    }

    /// An empty schedule, with room reserved for `cap` entries as a pure
    /// performance hint.
    pub fn with_capacity(cap: usize) -> (r: Schedule)
        ensures
            r.wf(),
            r.tasks() == Seq::<TaskEntry>::empty(),
            !r.is_done(),
            r.next_id() == 1,
    {
        let tasks: Vec<TaskEntry> = if cap == 0 {
            // avoid allocating in this case
            Vec::new()
        } else {
            Vec::with_capacity(cap)
        };
        Schedule { tasks, done: false, next_id: 1 }
    }

    /// The first store position holding an entry that fires no later than
    /// `e`; inserting `e` there keeps the store ordered.
    fn insert_position(&self, e: &TaskEntry) -> (p: usize)
        requires
            self.wf(),
        ensures
            p <= self.tasks().len(),
            forall|i: int| 0 <= i < p ==> fires_before(*e, #[trigger] self.tasks()[i]),
            p < self.tasks().len() ==> fires_before(self.tasks()[p as int], *e),
    {
        let mut idx: usize = 0;
        while idx < self.tasks.len()
            invariant
                idx <= self.tasks().len(),
                forall|i: int| 0 <= i < idx ==> fires_before(*e, #[trigger] self.tasks()[i]),
            decreases self.tasks().len() - idx,
        {
            if fires_no_later(&self.tasks[idx], e) {
                return idx;
            }
            idx += 1;
        }
        idx
    }

    /// Put an entry (back) into the store, keeping it ordered. The worker
    /// uses this for a periodic successor, whose id was assigned when the
    /// chain was first submitted; `submit` uses it for fresh entries.
    pub fn reinsert(&mut self, e: TaskEntry)
        requires
            old(self).wf(),
            e.id < old(self).next_id(),
        ensures
            final(self).wf(),
            final(self).is_done() == old(self).is_done(),
            final(self).next_id() == old(self).next_id(),
            exists|p: int|
                0 <= p <= old(self).tasks().len() && final(self).tasks() == old(self).tasks()
                    .insert(p, e),
            final(self).tasks().to_multiset() == old(self).tasks().to_multiset().insert(e),
    {
        let ghost ts = self.tasks@;
        let p = self.insert_position(&e);
        self.tasks.insert(p, e);
        proof {
            let new = self.tasks@;
            assert(new == ts.insert(p as int, e));
            new.to_multiset_ensures();
            assert(new.remove(p as int) =~= ts);
            assert(new[p as int] == e);
            assert(new.contains(e));
            assert(new.to_multiset().count(e) > 0);
            assert(new.to_multiset() =~= ts.to_multiset().insert(e));
            assert forall|i: int, j: int|
                #![trigger new[i], new[j]]
                0 <= i < j < new.len() implies fires_before(new[j], new[i]) by {
                if j < p {
                    assert(new[i] == ts[i] && new[j] == ts[j]);
                } else if j == p {
                    assert(new[i] == ts[i] && new[j] == e);
                } else if i < p {
                    assert(new[i] == ts[i] && new[j] == ts[j - 1]);
                } else if i == p {
                    assert(new[i] == e && new[j] == ts[j - 1]);
                    assert(fires_before(ts[p as int], e));
                    assert(j - 1 >= p);
                    if j - 1 > p {
                        assert(fires_before(ts[j - 1], ts[p as int]));
                    }
                } else {
                    assert(new[i] == ts[i - 1] && new[j] == ts[j - 1]);
                }
            };
            assert forall|i: int| 0 <= i < new.len() implies (#[trigger] new[i]).id
                < self.next_id() by {
                if i < p {
                    assert(new[i] == ts[i]);
                } else if i == p {
                    assert(new[i] == e);
                } else {
                    assert(new[i] == ts[i - 1]);
                }
            };
        }
    }

    /// Assign the next id and insert a fresh entry with the given
    /// deadline and kind, returning the id. This is the only operation
    /// that moves the submission counter, so a sleeper comparing epochs
    /// sees exactly the submissions it missed.
    pub fn submit(&mut self, deadline: u64, kind: TaskKind) -> (id: u64)
        requires
            old(self).wf(),
            old(self).next_id() < u64::MAX,
        ensures
            final(self).wf(),
            id == old(self).next_id(),
            final(self).next_id() == old(self).next_id() + 1,
            final(self).is_done() == old(self).is_done(),
            exists|p: int|
                0 <= p <= old(self).tasks().len() && final(self).tasks() == old(self).tasks()
                    .insert(p, (TaskEntry { id, deadline, kind })),
            final(self).tasks().to_multiset() == old(self).tasks().to_multiset().insert(
                (TaskEntry { id, deadline, kind }),
            ),
    {
        let id = self.next_id;
        self.next_id = self.next_id + 1;
        self.reinsert(TaskEntry::new(id, deadline, kind));
        id
    }

    /// The entry that fires next, if any: the minimum by (deadline, id).
    pub fn peek_next(&self) -> (r: Option<TaskEntry>)
        requires
            self.wf(),
        ensures
            self.tasks().len() == 0 ==> r is None,
            self.tasks().len() > 0 ==> r == Some(self.tasks().last()),
    {
        if self.tasks.len() == 0 {
            None
        } else {
            Some(self.tasks[self.tasks.len() - 1])
        }
    }

    /// Remove and return the entry that fires next. Everything left fires
    /// no earlier than what was popped.
    pub fn pop_next(&mut self) -> (r: Option<TaskEntry>)
        requires
            old(self).wf(),
        ensures
            final(self).wf(),
            final(self).is_done() == old(self).is_done(),
            final(self).next_id() == old(self).next_id(),
            old(self).tasks().len() == 0 ==> r is None && final(self).tasks() == old(self).tasks(),
            old(self).tasks().len() > 0 ==> r == Some(old(self).tasks().last())
                && final(self).tasks() == old(self).tasks().drop_last() && (forall|i: int|
                0 <= i < final(self).tasks().len() ==> fires_before(
                    old(self).tasks().last(),
                    #[trigger] final(self).tasks()[i],
                )),
    {
        let r = self.tasks.pop();
        r
    }

    /// Request shutdown: the worker exits after observing it.
    pub fn set_done(&mut self)
        ensures
            final(self).is_done(),
            final(self).tasks() == old(self).tasks(),
            final(self).next_id() == old(self).next_id(),
            old(self).wf() ==> final(self).wf(),
    {
        self.done = true;
    }

    /// Whether shutdown has been requested; checked under the lock only.
    pub fn is_shutdown(&self) -> (r: bool)
        ensures
            r == self.is_done(),
    {
        self.done
    }

    /// The submission counter, read as an epoch: it moved iff a
    /// submission landed in the meantime.
    pub fn epoch(&self) -> (r: u64)
        ensures
            r == self.next_id(),
    {
        self.next_id
    }

    /// How many entries are pending.
    pub fn len(&self) -> (r: usize)
        ensures
            r == self.tasks().len(),
    {
        self.tasks.len()
    }
}

/// Monotonic deadline for a task submitted at `now` that should fire
/// after `delay` ticks.
pub fn deadline_in(now: u64, delay: u64) -> (r: u64)
    requires
        now + delay <= u64::MAX,
    ensures
        r == now + delay,
{
    now + delay
}

/// Monotonic deadline for an absolute wall-clock target, fixed once at
/// submission time: the offset of the target from the current wall clock
/// is applied to the current monotonic clock, and a target already in the
/// past fires as soon as possible. Later wall-clock adjustments do not
/// move the deadline.
pub fn deadline_at(wall_target: u64, wall_now: u64, mono_now: u64) -> (r: u64)
    requires
        wall_target > wall_now ==> mono_now + (wall_target - wall_now) <= u64::MAX,
    ensures
        wall_target <= wall_now ==> r == mono_now,
        wall_target > wall_now ==> r == mono_now + (wall_target - wall_now),
{
    if wall_target > wall_now {
        mono_now + (wall_target - wall_now)
    } else {
        mono_now
    }
}

} // verus!
