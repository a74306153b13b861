//! A pool whose workers all draw from one first-in, first-out queue.

use super::TPool;
use crate::error::EspressoProcessingError;
use std::collections::VecDeque;
use vstd::prelude::*;

verus! {

/// The mathematical content of a pool.
pub struct PoolView<J> {
    /// The tasks accepted and not yet handed to a worker, oldest first.
    pub queue: Seq<J>,
    /// For each worker, whether it is running a task.
    pub busy: Seq<bool>,
    /// How many tasks were accepted so far.
    pub accepted: nat,
    /// How many tasks came to an end, by returning or by panicking.
    pub finished: nat,
    /// How many of the finished tasks panicked.
    pub failed: nat,
    /// Whether the pool still accepts tasks.
    pub open: bool,
}

/// What can happen to a pool.
pub enum PoolEvent<J> {
    /// A task is submitted.
    Exec(J),
    /// The worker asks for its next task.
    Take(usize),
    /// The worker's task has come to an end; the flag says whether it panicked.
    Finish(usize, bool),
    /// The pool is closed to further tasks.
    Close,
}

/// The number of busy workers.
pub open spec fn count_busy(busy: Seq<bool>) -> nat
    decreases busy.len(),
{
    if busy.len() == 0 {
        0
    } else {
        count_busy(busy.drop_last()) + if busy.last() {
            1nat
        } else {
            0nat
        }
    }
}

/// The invariant of a pool: it has a worker, and every accepted task is
/// queued, running or finished, and only one of these.
pub open spec fn valid<J>(p: PoolView<J>) -> bool {
    &&& p.busy.len() >= 1
    &&& p.accepted == p.queue.len() + count_busy(p.busy) + p.finished
    &&& p.failed <= p.finished
}

/// A pool of `size` idle workers to which nothing has happened yet.
pub open spec fn fresh<J>(size: nat) -> PoolView<J> {
    PoolView {
        queue: Seq::empty(),
        busy: Seq::new(size, |i: int| false),
        accepted: 0,
        finished: 0,
        failed: 0,
        open: true,
    }
}

/// Whether the pool accepts a further task: it is open and its count of
/// accepted tasks can still grow.
pub open spec fn accepts<J>(p: PoolView<J>) -> bool {
    p.open && p.accepted < usize::MAX
}

/// Whether the worker gets a task when it asks: it is a worker of the pool,
/// it is idle, and a task is queued.
pub open spec fn can_take<J>(p: PoolView<J>, worker: usize) -> bool {
    worker < p.busy.len() && !p.busy[worker as int] && p.queue.len() > 0
}

/// Whether the worker has a task to finish.
pub open spec fn can_finish<J>(p: PoolView<J>, worker: usize) -> bool {
    worker < p.busy.len() && p.busy[worker as int]
}

/// The pool after an event. An event that does not apply (a task submitted
/// to a pool that does not accept it, a request by a busy worker or on an
/// empty queue, the end of a task that no worker runs) leaves the pool as
/// it is.
pub open spec fn apply<J>(p: PoolView<J>, event: PoolEvent<J>) -> PoolView<J> {
    match event {
        PoolEvent::Exec(task) => if accepts(p) {
            PoolView { queue: p.queue.push(task), accepted: p.accepted + 1, ..p }
        } else {
            p
        },
        PoolEvent::Take(worker) => if can_take(p, worker) {
            PoolView {
                queue: p.queue.subrange(1, p.queue.len() as int),
                busy: p.busy.update(worker as int, true),
                ..p
            }
        } else {
            p
        },
        PoolEvent::Finish(worker, panicked) => if can_finish(p, worker) {
            PoolView {
                busy: p.busy.update(worker as int, false),
                finished: p.finished + 1,
                failed: if panicked {
                    p.failed + 1
                } else {
                    p.failed
                },
                ..p
            }
        } else {
            p
        },
        PoolEvent::Close => PoolView { open: false, ..p },
    }
}

/// The tasks that an event puts into the pool.
pub open spec fn taken_in<J>(p: PoolView<J>, event: PoolEvent<J>) -> Seq<J> {
    match event {
        PoolEvent::Exec(task) => if accepts(p) {
            seq![task]
        } else {
            Seq::empty()
        },
        _ => Seq::empty(),
    }
}

/// The tasks that an event hands to a worker.
pub open spec fn handed_out<J>(p: PoolView<J>, event: PoolEvent<J>) -> Seq<J> {
    match event {
        PoolEvent::Take(worker) => if can_take(p, worker) {
            seq![p.queue[0]]
        } else {
            Seq::empty()
        },
        _ => Seq::empty(),
    }
}

/// The pool after a series of events.
pub open spec fn run<J>(p: PoolView<J>, trace: Seq<PoolEvent<J>>) -> PoolView<J>
    decreases trace.len(),
{
    if trace.len() == 0 {
        p
    } else {
        apply(run(p, trace.drop_last()), trace.last())
    }
}

/// The tasks that a series of events puts into the pool, in their order.
pub open spec fn submissions<J>(p: PoolView<J>, trace: Seq<PoolEvent<J>>) -> Seq<J>
    decreases trace.len(),
{
    if trace.len() == 0 {
        Seq::empty()
    } else {
        submissions(p, trace.drop_last()) + taken_in(run(p, trace.drop_last()), trace.last())
    }
}

/// The tasks that a series of events hands to workers, in their order.
pub open spec fn executions<J>(p: PoolView<J>, trace: Seq<PoolEvent<J>>) -> Seq<J>
    decreases trace.len(),
{
    if trace.len() == 0 {
        Seq::empty()
    } else {
        executions(p, trace.drop_last()) + handed_out(run(p, trace.drop_last()), trace.last())
    }
}

/// No more workers are busy than there are workers.
pub proof fn lemma_count_bound(busy: Seq<bool>)
    ensures
        count_busy(busy) <= busy.len(),
    decreases busy.len(),
{
    if busy.len() > 0 {
        lemma_count_bound(busy.drop_last());
    }
}

/// Changing one worker's flag changes the count of busy workers by that
/// worker alone.
pub proof fn lemma_count_update(busy: Seq<bool>, i: int, flag: bool)
    requires
        0 <= i < busy.len(),
    ensures
        count_busy(busy.update(i, flag)) + (if busy[i] {
            1nat
        } else {
            0nat
        }) == count_busy(busy) + (if flag {
            1nat
        } else {
            0nat
        }),
    decreases busy.len(),
{
    let after = busy.update(i, flag);
    if i == busy.len() - 1 {
        assert(after.drop_last() =~= busy.drop_last());
    } else {
        lemma_count_update(busy.drop_last(), i, flag);
        assert(after.drop_last() =~= busy.drop_last().update(i, flag));
    }
}

/// Where no worker is busy, the count is zero, and the other way round.
pub proof fn lemma_count_zero(busy: Seq<bool>)
    ensures
        count_busy(busy) == 0 <==> forall|i: int| 0 <= i < busy.len() ==> !busy[i],
    decreases busy.len(),
{
    if busy.len() > 0 {
        lemma_count_zero(busy.drop_last());
        if count_busy(busy) == 0 {
            assert forall|i: int| 0 <= i < busy.len() implies !busy[i] by {
                if i < busy.len() - 1 {
                    assert(busy.drop_last()[i] == busy[i]);
                }
            }
        }
        if forall|i: int| 0 <= i < busy.len() ==> !busy[i] {
            assert forall|i: int| 0 <= i < busy.drop_last().len() implies !busy.drop_last()[i] by {}
        }
    }
}

/// Every event keeps the pool's invariant.
pub proof fn lemma_apply_valid<J>(p: PoolView<J>, event: PoolEvent<J>)
    requires
        valid(p),
    ensures
        valid(apply(p, event)),
{
    match event {
        PoolEvent::Take(worker) => {
            if can_take(p, worker) {
                lemma_count_update(p.busy, worker as int, true);
            }
        },
        PoolEvent::Finish(worker, panicked) => {
            if can_finish(p, worker) {
                lemma_count_update(p.busy, worker as int, false);
            }
        },
        _ => {},
    }
}

/// Each task runs exactly once, in the order of submission. Whatever
/// happens to a pool of at least one worker, the tasks it accepted are
/// those handed to workers followed by those still queued; every task
/// handed out is running or finished; and once nothing is queued and no
/// worker is busy, as many tasks have finished as were accepted.
pub proof fn lemma_each_task_runs_once<J>(size: nat, trace: Seq<PoolEvent<J>>)
    requires
        size >= 1,
    ensures
        ({
            let start = fresh::<J>(size);
            let p = run(start, trace);
            &&& valid(p)
            &&& p.busy.len() == size
            &&& submissions(start, trace) == executions(start, trace) + p.queue
            &&& submissions(start, trace).len() == p.accepted
            &&& executions(start, trace).len() == count_busy(p.busy) + p.finished
            &&& (p.queue.len() == 0 && count_busy(p.busy) == 0 ==> p.finished == submissions(
                start,
                trace,
            ).len() && executions(start, trace) == submissions(start, trace))
        }),
    decreases trace.len(),
{
    let start = fresh::<J>(size);
    if trace.len() == 0 {
        lemma_count_zero(start.busy);
    } else {
        let before = run(start, trace.drop_last());
        lemma_each_task_runs_once::<J>(size, trace.drop_last());
        lemma_apply_valid(before, trace.last());
        match trace.last() {
            PoolEvent::Take(worker) => {
                if can_take(before, worker) {
                    lemma_count_update(before.busy, worker as int, true);
                }
            },
            PoolEvent::Finish(worker, panicked) => {
                if can_finish(before, worker) {
                    lemma_count_update(before.busy, worker as int, false);
                }
            },
            _ => {},
        }
    }
}

/// A task that panics costs the pool nothing but a count. After a worker's
/// task has ended, by panic or not, the worker is idle and the pool is as
/// open as before; the panic shows in the count of failures alone. A task
/// submitted next to an accepting pool with an empty queue is the one that
/// this worker is handed when it asks, and finishing it counts.
pub proof fn lemma_panic_spares_worker<J>(p: PoolView<J>, worker: usize, next: J)
    requires
        valid(p),
        can_finish(p, worker),
    ensures
        ({
            let calm = apply(p, PoolEvent::Finish(worker, false));
            let hurt = apply(p, PoolEvent::Finish(worker, true));
            let queued = apply(hurt, PoolEvent::Exec(next));
            let started = apply(queued, PoolEvent::Take(worker));
            let done = apply(started, PoolEvent::Finish(worker, false));
            &&& hurt == PoolView { failed: p.failed + 1, ..calm }
            &&& !hurt.busy[worker as int]
            &&& hurt.open == p.open
            &&& accepts(hurt) && p.queue.len() == 0 ==> {
                &&& handed_out(queued, PoolEvent::Take(worker)) == seq![next]
                &&& can_finish(started, worker)
                &&& done.finished == p.finished + 2
                &&& done.failed == p.failed + 1
            }
        }),
{
}

/// A pool of workers that draw their tasks from one queue, first in, first
/// out. The pool keeps the books; it neither owns threads nor runs tasks.
pub struct ThreadPool<J> {
    queue: VecDeque<J>,
    busy: Vec<bool>,
    running: usize,
    accepted: usize,
    finished: usize,
    failed: usize,
    open: bool,
}

impl<J> View for ThreadPool<J> {
    type V = PoolView<J>;

    closed spec fn view(&self) -> PoolView<J> {
        PoolView {
            queue: self.queue@,
            busy: self.busy@,
            accepted: self.accepted as nat,
            finished: self.finished as nat,
            failed: self.failed as nat,
            open: self.open,
        }
    }
}

impl<J> ThreadPool<J> {
    /// The pool's invariant: that of its content, kept in machine numbers.
    pub closed spec fn wf(&self) -> bool {
        valid(self@) && self.running == count_busy(self.busy@)
    }

    /// A well-formed pool has valid content.
    pub proof fn lemma_wf(&self)
        requires
            self.wf(),
        ensures
            valid(self@),
    {
    }

    /// The number of workers.
    pub fn size(&self) -> (n: usize)
        ensures
            n == self@.busy.len(),
    {
        self.busy.len()
    }

    /// The number of tasks queued.
    pub fn pending(&self) -> (n: usize)
        ensures
            n == self@.queue.len(),
    {
        self.queue.len()
    }

    /// The number of busy workers: a measure of load, not a gate for dispatch.
    pub fn busy_count(&self) -> (n: usize)
        requires
            self.wf(),
        ensures
            n == count_busy(self@.busy),
    {
        self.running
    }

    /// The number of tasks accepted so far.
    pub fn accepted(&self) -> (n: usize)
        ensures
            n == self@.accepted,
    {
        self.accepted
    }

    /// The number of tasks that came to an end.
    pub fn finished(&self) -> (n: usize)
        ensures
            n == self@.finished,
    {
        self.finished
    }

    /// The number of tasks that ended in a panic.
    pub fn failed(&self) -> (n: usize)
        ensures
            n == self@.failed,
    {
        self.failed
    }

    /// Whether the pool still accepts tasks.
    pub fn is_open(&self) -> (open: bool)
        ensures
            open == self@.open,
    {
        self.open
    }

    /// Whether the worker is running a task.
    pub fn is_busy(&self, worker: usize) -> (busy: bool)
        ensures
            busy == can_finish(self@, worker),
    {
        worker < self.busy.len() && self.busy[worker]
    }

    /// The first idle worker, if any is idle.
    pub fn idle_worker(&self) -> (r: Option<usize>)
        ensures
            match r {
                Some(w) => w < self@.busy.len() && !self@.busy[w as int] && forall|i: int|
                    0 <= i < w ==> self@.busy[i],
                None => forall|i: int| 0 <= i < self@.busy.len() ==> self@.busy[i],
            },
    {
        let mut i: usize = 0;
        while i < self.busy.len()
            invariant
                i <= self.busy@.len(),
                forall|j: int| 0 <= j < i ==> self.busy@[j],
            decreases self.busy@.len() - i,
        {
            if !self.busy[i] {
                return Some(i);
            }
            i += 1;
        }
        None
    }

    /// Whether a worker that finds the queue empty may leave: the pool is
    /// closed, and the queue has been drained.
    pub fn drained(&self) -> (r: bool)
        ensures
            r == (!self@.open && self@.queue.len() == 0),
    {
        !self.open && self.queue.len() == 0
    }

    /// Hands the worker the oldest queued task and marks the worker busy;
    /// `None`, with the pool unchanged, where the worker is busy or unknown
    /// or nothing is queued.
    pub fn take(&mut self, worker: usize) -> (r: Option<J>)
        requires
            old(self).wf(),
        ensures
            final(self).wf(),
            final(self)@ == apply(old(self)@, PoolEvent::Take(worker)),
            match r {
                Some(task) => can_take(old(self)@, worker) && task == old(self)@.queue[0],
                None => !can_take(old(self)@, worker),
            },
    {
        if worker >= self.busy.len() || self.busy[worker] || self.queue.len() == 0 {
            return None;
        }
        proof {
            lemma_count_update(self.busy@, worker as int, true);
            lemma_count_bound(self.busy@);
        }
        let task = self.queue.pop_front();
        self.busy.set(worker, true);
        self.running = self.running + 1;
        task
    }

    /// Records that the worker's task has come to an end, by returning or by
    /// panicking, and marks the worker idle. `false`, with the pool
    /// unchanged, where the worker runs no task.
    pub fn finish(&mut self, worker: usize, panicked: bool) -> (r: bool)
        requires
            old(self).wf(),
        ensures
            final(self).wf(),
            final(self)@ == apply(old(self)@, PoolEvent::Finish(worker, panicked)),
            r == can_finish(old(self)@, worker),
    {
        if worker >= self.busy.len() || !self.busy[worker] {
            return false;
        }
        proof {
            lemma_count_update(self.busy@, worker as int, false);
        }
        self.busy.set(worker, false);
        self.running = self.running - 1;
        self.finished = self.finished + 1;
        if panicked {
            self.failed = self.failed + 1;
        }
        true
    }

    /// Closes the pool to further tasks. What is queued stays queued, to be
    /// drained by the workers.
    pub fn close(&mut self)
        requires
            old(self).wf(),
        ensures
            final(self).wf(),
            final(self)@ == apply(old(self)@, PoolEvent::Close),
    {
        self.open = false;
    }
}

impl<J> TPool<J> for ThreadPool<J> {
    open spec fn valid(&self) -> bool {
        self.wf()
    }

    open spec fn queued(&self) -> Seq<J> {
        self@.queue
    }

    open spec fn accepting(&self) -> bool {
        accepts(self@)
    }

    fn new(size: usize) -> (pool: ThreadPool<J>)
        ensures
            pool@ == fresh::<J>(size as nat),
    {
        let mut busy: Vec<bool> = Vec::new();
        let mut i: usize = 0;
        while i < size
            invariant
                i <= size,
                busy@ == Seq::new(i as nat, |k: int| false),
            decreases size - i,
        {
            busy.push(false);
            i += 1;
        }
        proof {
            lemma_count_zero(busy@);
        }
        ThreadPool {
            queue: VecDeque::new(),
            busy,
            running: 0,
            accepted: 0,
            finished: 0,
            failed: 0,
            open: true,
        }
    }

    fn exec(&mut self, task: J) -> (r: Result<(), EspressoProcessingError>)
        ensures
            final(self)@ == apply(old(self)@, PoolEvent::Exec(task)),
    {
        if !self.open || self.accepted == usize::MAX {
            return Err(EspressoProcessingError::FailedThreadPool);
        }
        self.queue.push_back(task);
        self.accepted = self.accepted + 1;
        Ok(())
    }
}

} // verus!
