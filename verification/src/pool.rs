//! The worker pool: a shared supply of tasks, a fixed number of workers that
//! each hold at most one task, and a shared sink for what they finish.

use crate::algorithm::Job;
use crate::channel::{Channel, ChannelView};
use vstd::prelude::*;

verus! {

/// Where a worker stands in its loop.
#[derive(Clone, Copy, Debug, PartialEq, Eq, Structural)]
pub enum WorkerState {
    /// Holds no task and may acquire one.
    Idle,
    /// Holds a task that it has not finished yet.
    Busy,
    /// Has found the supply closed and drained, and has left its loop.
    Exited,
}

/// What a worker's attempt to acquire a task led to.
#[derive(Debug, PartialEq, Eq)]
pub enum Acquired<T> {
    /// The oldest task of the supply, now owned by this worker alone.
    Task(T),
    /// The supply is open and holds nothing: the worker has to wait.
    Empty,
    /// The supply is closed and drained: the worker has left its loop.
    Closed,
    /// There is no such worker, or it still holds an unfinished task.
    Refused,
}

/// What one turn of a worker's loop led to.
#[derive(Clone, Copy, Debug, PartialEq, Eq, Structural)]
pub enum Worked {
    /// The worker acquired a task, executed it and handed in the outcome.
    Done,
    /// The supply is open and holds nothing: the worker has to wait.
    Empty,
    /// The supply is closed and drained: the worker has left its loop.
    Closed,
    /// There is no such worker, or it still holds an unfinished task.
    Refused,
}

/// What a [`Pool`] stands for.
pub struct PoolView<T, R> {
    /// Tasks dispatched and not yet acquired.
    pub supply: ChannelView<T>,
    /// Outcomes emitted and not yet collected.
    pub results: ChannelView<R>,
    /// The state of each worker, by index.
    pub workers: Seq<WorkerState>,
}

impl<T, R> PoolView<T, R> {
    /// A pool of `threads` idle workers with empty, open channels.
    pub open spec fn fresh(threads: nat) -> Self {
        PoolView {
            supply: ChannelView::fresh(),
            results: ChannelView::fresh(),
            workers: Seq::new(threads, |i: int| WorkerState::Idle),
        }
    }

    /// Whether `worker` names a worker of this pool.
    pub open spec fn has_worker(self, worker: int) -> bool {
        0 <= worker < self.workers.len()
    }

    /// Whether `worker` holds an unfinished task.
    pub open spec fn is_busy(self, worker: int) -> bool {
        self.has_worker(worker) && self.workers[worker] == WorkerState::Busy
    }

    /// Whether `worker` is free to acquire a task.
    pub open spec fn is_idle(self, worker: int) -> bool {
        self.has_worker(worker) && self.workers[worker] == WorkerState::Idle
    }

    /// Whether `worker` has left its loop.
    pub open spec fn has_exited(self, worker: int) -> bool {
        self.has_worker(worker) && self.workers[worker] == WorkerState::Exited
    }

    /// The pool after the tasks were dispatched in the given order.
    pub open spec fn dispatch(self, tasks: Seq<T>) -> Self {
        PoolView { supply: self.supply.send_all(tasks), ..self }
    }

    /// What `worker` gets when it tries to acquire a task.
    pub open spec fn acquired(self, worker: int) -> Acquired<T> {
        if self.has_exited(worker) {
            Acquired::Closed
        } else if !self.is_idle(worker) {
            Acquired::Refused
        } else if self.supply.has_message() {
            Acquired::Task(self.supply.queue[0])
        } else if self.supply.closed {
            Acquired::Closed
        } else {
            Acquired::Empty
        }
    }

    /// What one turn of the loop of `worker` reports.
    pub open spec fn worked(self, worker: int) -> Worked {
        match self.acquired(worker) {
            Acquired::Task(_) => Worked::Done,
            Acquired::Empty => Worked::Empty,
            Acquired::Closed => Worked::Closed,
            Acquired::Refused => Worked::Refused,
        }
    }

    /// The pool after `worker` tried to acquire a task.
    pub open spec fn acquire(self, worker: int) -> Self {
        if !self.is_idle(worker) {
            self
        } else if self.supply.has_message() {
            PoolView {
                supply: self.supply.recv(),
                workers: self.workers.update(worker, WorkerState::Busy),
                ..self
            }
        } else if self.supply.closed {
            PoolView { workers: self.workers.update(worker, WorkerState::Exited), ..self }
        } else {
            self
        }
    }

    /// The pool after `worker` handed in `outcome`: only a worker that holds
    /// a task emits anything, and it is idle afterwards.
    pub open spec fn complete(self, worker: int, outcome: R) -> Self {
        if self.is_busy(worker) {
            PoolView {
                results: self.results.send(outcome),
                workers: self.workers.update(worker, WorkerState::Idle),
                ..self
            }
        } else {
            self
        }
    }

    /// The pool after the oldest outcome was collected.
    pub open spec fn collect(self) -> Self {
        PoolView { results: self.results.recv(), ..self }
    }

    /// The pool after both of its channels were closed and the tasks that no
    /// worker had acquired were thrown away.
    pub open spec fn shut_down(self) -> Self {
        PoolView { supply: self.supply.close().discard(), results: self.results.close(), ..self }
    }

    /// The pool after the workers named by `order` handed in the
    /// `outcomes`, one each, in that order.
    pub open spec fn complete_all(self, order: Seq<int>, outcomes: Seq<R>) -> Self
        recommends
            order.len() == outcomes.len(),
        decreases order.len(),
    {
        if order.len() == 0 {
            self
        } else {
            self.complete_all(order.drop_last(), outcomes.drop_last()).complete(
                order.last(),
                outcomes.last(),
            )
        }
    }
}

/// A fixed set of workers around a shared task supply and a shared sink.
///
/// A task leaves the supply in the same step in which a worker acquires it,
/// so no two workers ever hold the same task. A worker emits an outcome only
/// while it holds a task and holds none afterwards, so it emits exactly one
/// outcome per task.
pub struct Pool<T, R> {
    supply: Channel<T>,
    results: Channel<R>,
    workers: Vec<WorkerState>,
}

impl<T, R> View for Pool<T, R> {
    type V = PoolView<T, R>;

    closed spec fn view(&self) -> PoolView<T, R> {
        PoolView { supply: self.supply@, results: self.results@, workers: self.workers@ }
    }
}

impl<T, R> Pool<T, R> {
    /// A pool of `threads` idle workers.
    pub fn new(threads: u32) -> (pool: Self)
        requires
            threads >= 1,
        ensures
            pool@ == PoolView::<T, R>::fresh(threads as nat),
    {
        let mut workers: Vec<WorkerState> = Vec::new();
        let mut n: u32 = 0;
        while n < threads
            invariant
                n <= threads,
                workers@.len() == n,
                forall|i: int| 0 <= i < n ==> workers@[i] == WorkerState::Idle,
            decreases threads - n,
        {
            workers.push(WorkerState::Idle);
            n = n + 1;
        }
        let pool = Pool { supply: Channel::new(), results: Channel::new(), workers };
        assert(pool@.workers =~= PoolView::<T, R>::fresh(threads as nat).workers);
        pool
    }

    /// The number of workers, fixed when the pool was made.
    pub fn size(&self) -> (n: usize)
        ensures
            n == self@.workers.len(),
    {
        self.workers.len()
    }

    /// The state of `worker`, if there is such a worker.
    pub fn worker_state(&self, worker: usize) -> (state: Option<WorkerState>)
        ensures
            state == (if self@.has_worker(worker as int) {
                Some(self@.workers[worker as int])
            } else {
                None
            }),
    {
        if worker < self.workers.len() {
            Some(self.workers[worker])
        } else {
            None
        }
    }

    /// Puts the tasks into the supply in the given order. A closed supply
    /// takes none of them.
    pub fn dispatch(&mut self, tasks: Vec<T>)
        ensures
            final(self)@ == old(self)@.dispatch(tasks@),
    {
        self.supply.send_all(tasks);
    }

    /// Lets `worker` take the oldest task of the supply.
    pub fn acquire(&mut self, worker: usize) -> (got: Acquired<T>)
        ensures
            final(self)@ == old(self)@.acquire(worker as int),
            got == old(self)@.acquired(worker as int),
    {
        if worker >= self.workers.len() {
            return Acquired::Refused;
        }
        match self.workers[worker] {
            WorkerState::Exited => Acquired::Closed,
            WorkerState::Busy => Acquired::Refused,
            WorkerState::Idle => {
                match self.supply.try_recv() {
                    Some(task) => {
                        self.workers.set(worker, WorkerState::Busy);
                        Acquired::Task(task)
                    },
                    None => {
                        if self.supply.is_closed() {
                            self.workers.set(worker, WorkerState::Exited);
                            Acquired::Closed
                        } else {
                            Acquired::Empty
                        }
                    },
                }
            },
        }
    }

    /// Takes the outcome of the task that `worker` holds and puts it into the
    /// sink. Returns whether the worker held a task; if it did not, the
    /// outcome is discarded and nothing changes.
    pub fn complete(&mut self, worker: usize, outcome: R) -> (accepted: bool)
        ensures
            final(self)@ == old(self)@.complete(worker as int, outcome),
            accepted == old(self)@.is_busy(worker as int),
    {
        if worker >= self.workers.len() {
            return false;
        }
        match self.workers[worker] {
            WorkerState::Busy => {
                self.workers.set(worker, WorkerState::Idle);
                let _ = self.results.send(outcome);
                true
            },
            _ => false,
        }
    }

    /// One turn of the loop of `worker`: acquire the oldest task of the
    /// supply, execute it to completion and hand in the outcome, with nothing
    /// in between.
    pub fn work(&mut self, worker: usize) -> (did: Worked) where T: Job<R>
        ensures
            did == old(self)@.worked(worker as int),
            did == Worked::Done ==> exists|outcome: R|
                final(self)@ == old(self)@.acquire(worker as int).complete(worker as int, outcome),
            did != Worked::Done ==> final(self)@ == old(self)@.acquire(worker as int),
    {
        match self.acquire(worker) {
            Acquired::Task(task) => {
                let outcome = task.run();
                let ghost acquired = self@;
                self.complete(worker, outcome);
                assert(self@ == acquired.complete(worker as int, outcome));
                Worked::Done
            },
            Acquired::Empty => Worked::Empty,
            Acquired::Closed => Worked::Closed,
            Acquired::Refused => Worked::Refused,
        }
    }

    /// Takes the oldest outcome out of the sink, if there is one.
    pub fn collect(&mut self) -> (outcome: Option<R>)
        ensures
            final(self)@ == old(self)@.collect(),
            outcome == old(self)@.results.front(),
    {
        self.results.try_recv()
    }

    /// Whether an outcome waits in the sink.
    pub fn has_result(&self) -> (ready: bool)
        ensures
            ready == self@.results.has_message(),
    {
        !self.results.is_empty()
    }

    /// Closes the supply and the sink and throws away the tasks that no
    /// worker has acquired. A worker finishes the task it holds, if any, and
    /// leaves its loop at its next attempt to acquire one.
    pub fn shut_down(&mut self)
        ensures
            final(self)@ == old(self)@.shut_down(),
    {
        self.supply.close();
        self.supply.discard();
        self.results.close();
    }
}

} // verus!
