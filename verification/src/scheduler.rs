//! The task scheduler: a queue of requests and multicasts, each with the time
//! at which it is due. Times and delays are in milliseconds.

use crate::units::UnitCoord;
use crate::HashValue;
use vstd::prelude::*;

verus! {

/// How long to wait before a request that got no answer is sent again.
pub const FETCH_INTERVAL: u64 = 4000;

/// How often the scheduler is woken.
pub const TICK_INTERVAL: u64 = 100;

/// How long to wait before a unit is multicast for the second time.
pub const INITIAL_MULTICAST_DELAY: u64 = 3000;

/// Something the member does at a given time, and again later.
#[derive(Clone, Copy, Debug, PartialEq, Eq, Structural)]
pub enum Task {
    /// Ask a peer for the unit at a position.
    CoordRequest(UnitCoord),
    /// Ask a peer for the parents of a unit.
    ParentsRequest(HashValue),
    /// Send the unit with the given hash to everyone; the delay is the wait before the next time.
    UnitMulticast(HashValue, u64),
}

#[derive(Clone, Copy, Debug, PartialEq, Eq, Structural)]
pub struct ScheduledTask {
    pub task: Task,
    pub scheduled_time: u64,
}

impl ScheduledTask {
    pub fn new(task: Task, scheduled_time: u64) -> (scheduled: Self)
        ensures
            scheduled == (ScheduledTask { task, scheduled_time }),
    {
        ScheduledTask { task, scheduled_time }
    }
}

/// The place of the task that is due first: the earliest time, and among
/// equal times the task that was scheduled first.
pub open spec fn spec_earliest(q: Seq<ScheduledTask>) -> int
    decreases q.len(),
{
    if q.len() <= 1 {
        0
    } else {
        let best = spec_earliest(q.drop_last());
        if q.last().scheduled_time < q[best].scheduled_time {
            q.len() - 1
        } else {
            best
        }
    }
}

/// The task that is due first, taken out of the queue, where it is due by `now`.
pub open spec fn spec_pop_due(q: Seq<ScheduledTask>, now: u64) -> Option<
    (ScheduledTask, Seq<ScheduledTask>),
> {
    if q.len() > 0 && q[spec_earliest(q)].scheduled_time <= now {
        Some((q[spec_earliest(q)], q.remove(spec_earliest(q))))
    } else {
        None
    }
}

/// The tasks that are due by `now`, in the order in which they are due.
pub open spec fn spec_due(q: Seq<ScheduledTask>, now: u64) -> Seq<ScheduledTask>
    decreases q.len(),
{
    match spec_pop_due(q, now) {
        Some((first, rest)) => if rest.len() < q.len() {
            seq![first] + spec_due(rest, now)
        } else {
            Seq::empty()
        },
        None => Seq::empty(),
    }
}

/// The tasks that are not due by `now`, in the order in which they were scheduled.
pub open spec fn spec_not_due(q: Seq<ScheduledTask>, now: u64) -> Seq<ScheduledTask>
    decreases q.len(),
{
    match spec_pop_due(q, now) {
        Some((first, rest)) => if rest.len() < q.len() {
            spec_not_due(rest, now)
        } else {
            q
        },
        None => q,
    }
}

/// The earliest task is in the queue, no task is due before it, and every
/// task scheduled before it is due later.
pub proof fn lemma_earliest(q: Seq<ScheduledTask>)
    requires
        q.len() > 0,
    ensures
        0 <= spec_earliest(q) < q.len(),
        forall|j: int|
            0 <= j < q.len() ==> q[spec_earliest(q)].scheduled_time <= (#[trigger] q[j]).scheduled_time,
        forall|j: int|
            0 <= j < spec_earliest(q) ==> q[spec_earliest(q)].scheduled_time < (#[trigger] q[j]).scheduled_time,
    decreases q.len(),
{
    if q.len() > 1 {
        let front = q.drop_last();
        lemma_earliest(front);
        let best = spec_earliest(front);
        assert(front[best] == q[best]);
        assert forall|j: int| 0 <= j < q.len() implies q[spec_earliest(q)].scheduled_time <= (
        #[trigger] q[j]).scheduled_time by {
            if j < q.len() - 1 {
                assert(front[j] == q[j]);
            }
        }
        assert forall|j: int| 0 <= j < spec_earliest(q) implies q[spec_earliest(
            q,
        )].scheduled_time < (#[trigger] q[j]).scheduled_time by {
            assert(front[j] == q[j]);
        }
    }
}

/// Of the tasks handed out as due, each was due by `now`, and of those left
/// behind none is.
pub proof fn law_due_split(q: Seq<ScheduledTask>, now: u64)
    ensures
        forall|i: int|
            0 <= i < spec_due(q, now).len() ==> (#[trigger] spec_due(q, now)[i]).scheduled_time
                <= now,
        forall|i: int|
            0 <= i < spec_not_due(q, now).len() ==> (#[trigger] spec_not_due(
                q,
                now,
            )[i]).scheduled_time > now,
        spec_due(q, now).len() + spec_not_due(q, now).len() == q.len(),
    decreases q.len(),
{
    if q.len() > 0 {
        lemma_earliest(q);
    }
    match spec_pop_due(q, now) {
        Some((first, rest)) => {
            law_due_split(rest, now);
            let tail = spec_due(rest, now);
            assert forall|i: int| 0 <= i < spec_due(q, now).len() implies (#[trigger] spec_due(
                q,
                now,
            )[i]).scheduled_time <= now by {
                if i > 0 {
                    assert(spec_due(q, now)[i] == tail[i - 1]);
                }
            }
        },
        None => {
            assert forall|i: int| 0 <= i < q.len() implies (#[trigger] q[i]).scheduled_time
                > now by {}
        },
    }
}

/// Each task handed out as due was scheduled.
proof fn lemma_due_are_scheduled(q: Seq<ScheduledTask>, now: u64)
    ensures
        forall|i: int|
            0 <= i < spec_due(q, now).len() ==> q.contains(#[trigger] spec_due(q, now)[i]),
    decreases q.len(),
{
    if q.len() > 0 {
        lemma_earliest(q);
    }
    match spec_pop_due(q, now) {
        Some((first, rest)) => {
            lemma_due_are_scheduled(rest, now);
            let tail = spec_due(rest, now);
            let e = spec_earliest(q);
            assert forall|i: int| 0 <= i < spec_due(q, now).len() implies q.contains(
                #[trigger] spec_due(q, now)[i],
            ) by {
                if i == 0 {
                    assert(q[e] == first);
                } else {
                    assert(spec_due(q, now)[i] == tail[i - 1]);
                    assert(rest.contains(tail[i - 1]));
                    let k = choose|k: int| 0 <= k < rest.len() && rest[k] == tail[i - 1];
                    if k < e {
                        assert(q[k] == rest[k]);
                    } else {
                        assert(q[k + 1] == rest[k]);
                    }
                }
            }
        },
        None => {},
    }
}

/// The tasks handed out as due come in the order of their times.
pub proof fn law_due_in_time_order(q: Seq<ScheduledTask>, now: u64)
    ensures
        forall|i: int, j: int|
            0 <= i <= j < spec_due(q, now).len() ==> (#[trigger] spec_due(q, now)[i]).scheduled_time
                <= (#[trigger] spec_due(q, now)[j]).scheduled_time,
    decreases q.len(),
{
    if q.len() > 0 {
        lemma_earliest(q);
    }
    match spec_pop_due(q, now) {
        Some((first, rest)) => {
            law_due_in_time_order(rest, now);
            lemma_due_are_scheduled(rest, now);
            let tail = spec_due(rest, now);
            let due = spec_due(q, now);
            let e = spec_earliest(q);
            assert forall|i: int, j: int| 0 <= i <= j < due.len() implies (
            #[trigger] due[i]).scheduled_time <= (#[trigger] due[j]).scheduled_time by {
                if j > 0 {
                    assert(due[j] == tail[j - 1]);
                    if i > 0 {
                        assert(due[i] == tail[i - 1]);
                    } else {
                        assert(rest.contains(tail[j - 1]));
                        let k = choose|k: int| 0 <= k < rest.len() && rest[k] == tail[j - 1];
                        if k < e {
                            assert(q[k] == rest[k]);
                        } else {
                            assert(q[k + 1] == rest[k]);
                        }
                    }
                }
            }
        },
        None => {},
    }
}

/// The tasks that wait for their time.
pub struct TaskQueue {
    tasks: Vec<ScheduledTask>,
}

impl View for TaskQueue {
    type V = Seq<ScheduledTask>;

    closed spec fn view(&self) -> Seq<ScheduledTask> {
        self.tasks@
    }
}

impl TaskQueue {
    pub fn new() -> (queue: Self)
        ensures
            queue@ == Seq::<ScheduledTask>::empty(),
    {
        TaskQueue { tasks: Vec::new() }
    }

    pub fn len(&self) -> (n: usize)
        ensures
            n == self@.len(),
    {
        self.tasks.len()
    }

    /// Schedules a task.
    pub fn push(&mut self, task: ScheduledTask)
        ensures
            final(self)@ == old(self)@.push(task),
    {
        self.tasks.push(task);
    }

    /// The task that is due first, if there is any.
    pub fn peek(&self) -> (r: Option<ScheduledTask>)
        ensures
            r == (if self@.len() > 0 {
                Some(self@[spec_earliest(self@)])
            } else {
                None
            }),
    {
        if self.tasks.len() == 0 {
            return None;
        }
        let best = self.earliest();
        Some(self.tasks[best])
    }

    fn earliest(&self) -> (best: usize)
        requires
            self@.len() > 0,
        ensures
            best == spec_earliest(self@),
            best < self@.len(),
    {
        let mut best: usize = 0;
        let mut i: usize = 1;
        assert(self.tasks@.take(1).len() == 1);
        while i < self.tasks.len()
            invariant
                1 <= i <= self.tasks.len(),
                best < i,
                best == spec_earliest(self.tasks@.take(i as int)),
            decreases self.tasks.len() - i,
        {
            assert(self.tasks@.take(i + 1).drop_last() =~= self.tasks@.take(i as int));
            if self.tasks[i].scheduled_time < self.tasks[best].scheduled_time {
                best = i;
            }
            i += 1;
        }
        assert(self.tasks@.take(self.tasks.len() as int) =~= self.tasks@);
        best
    }

    /// Takes out the task that is due first, where it is due by `now`.
    pub fn pop_due(&mut self, now: u64) -> (r: Option<ScheduledTask>)
        ensures
            match r {
                Some(task) => spec_pop_due(old(self)@, now) == Some((task, final(self)@)),
                None => spec_pop_due(old(self)@, now) is None && final(self)@ == old(self)@,
            },
    {
        if self.tasks.len() == 0 {
            return None;
        }
        let best = self.earliest();
        if self.tasks[best].scheduled_time > now {
            return None;
        }
        let task = self.tasks.remove(best);
        Some(task)
    }

    /// Takes out every task that is due by `now`, in the order in which they are due.
    pub fn take_due(&mut self, now: u64) -> (due: Vec<ScheduledTask>)
        ensures
            due@ == spec_due(old(self)@, now),
            final(self)@ == spec_not_due(old(self)@, now),
    {
        let mut due: Vec<ScheduledTask> = Vec::new();
        loop
            invariant
                spec_due(old(self)@, now) == due@ + spec_due(self@, now),
                spec_not_due(old(self)@, now) == spec_not_due(self@, now),
            ensures
                due@ == spec_due(old(self)@, now),
                self@ == spec_not_due(old(self)@, now),
            decreases self@.len(),
        {
            let ghost before = self@;
            let ghost taken = due@;
            match self.pop_due(now) {
                Some(task) => {
                    proof {
                        lemma_earliest(before);
                    }
                    due.push(task);
                    assert(taken + (seq![task] + spec_due(self@, now)) =~= due@ + spec_due(
                        self@,
                        now,
                    ));
                },
                None => {
                    assert(due@ + Seq::<ScheduledTask>::empty() =~= due@);
                    break ;
                },
            }
        }
        due
    }
}

} // verus!
