//! The coordinator: the one unit between the client and the worker pool.

use crate::algorithm::{Algorithm, Job};
use crate::channel::{Channel, ChannelView};
use crate::message::BotMsg;
use crate::pool::{Acquired, Pool, PoolView, Worked};
use vstd::prelude::*;

verus! {

/// One of the two sources that the coordinator waits on at once.
#[derive(Clone, Copy, Debug, PartialEq, Eq, Structural)]
pub enum Source {
    /// The commands of the client.
    Commands,
    /// The outcomes of the workers.
    Results,
}

/// What ended the coordinator's wait.
#[derive(Debug, PartialEq, Eq)]
pub enum Wakeup<P, L, R> {
    /// A command arrived: the algorithm has to apply it.
    Message(BotMsg<P, L>),
    /// A worker finished a task: the algorithm has to integrate the outcome.
    Finished(R),
    /// No command will ever arrive again: the loop is over.
    Closed,
    /// Neither source has anything yet.
    Pending,
}

/// What the first half of an iteration of the coordinator's loop led to.
#[derive(Clone, Copy, Debug, PartialEq, Eq, Structural)]
pub enum Begun {
    /// The loop is over: the coordinator had stopped before, or the
    /// algorithm reported a terminal state and the coordinator stopped now.
    Stopped,
    /// The algorithm advanced, and this many tasks and decisions of its
    /// making were dispatched and emitted.
    Published { tasks: usize, outputs: usize },
}

/// What the second half of an iteration of the coordinator's loop led to.
#[derive(Clone, Copy, Debug, PartialEq, Eq, Structural)]
pub enum Turn {
    /// A command arrived and the algorithm applied it.
    Applied,
    /// An outcome arrived and the algorithm integrated it.
    Integrated,
    /// No command will ever arrive again: the loop is over.
    Closed,
    /// Neither source has anything yet.
    Pending,
}

/// What a [`Coordinator`] stands for.
pub struct CoordinatorView<P, L, T, R, D> {
    /// Commands sent by the client and not yet received.
    pub commands: ChannelView<BotMsg<P, L>>,
    /// Decisions emitted and not yet polled by the client.
    pub outputs: ChannelView<D>,
    /// The worker pool with its two channels.
    pub pool: PoolView<T, R>,
    /// Whether the coordinator has left its loop.
    pub stopped: bool,
}

impl<P, L, T, R, D> CoordinatorView<P, L, T, R, D> {
    /// A running coordinator with `threads` idle workers and empty channels.
    pub open spec fn fresh(threads: nat) -> Self {
        CoordinatorView {
            commands: ChannelView::fresh(),
            outputs: ChannelView::fresh(),
            pool: PoolView::fresh(threads),
            stopped: false,
        }
    }

    /// The coordinator after it left its loop: all its channels are closed,
    /// and tasks that no worker had acquired are gone.
    pub open spec fn stop(self) -> Self {
        CoordinatorView {
            commands: self.commands.close(),
            outputs: self.outputs.close(),
            pool: self.pool.shut_down(),
            stopped: true,
        }
    }

    /// Whether the loop goes into another iteration, given what the
    /// algorithm says of its state.
    pub open spec fn keeps_running(self, terminal: bool) -> bool {
        !self.stopped && !terminal
    }

    /// The coordinator after the check at the top of its loop.
    pub open spec fn keep_running(self, terminal: bool) -> Self {
        if !self.stopped && terminal {
            self.stop()
        } else {
            self
        }
    }

    /// The coordinator after it emitted the outputs and dispatched the
    /// tasks, each in the given order. A stopped coordinator does neither.
    pub open spec fn publish(self, tasks: Seq<T>, outputs: Seq<D>) -> Self {
        if self.stopped {
            self
        } else {
            CoordinatorView {
                outputs: self.outputs.send_all(outputs),
                pool: self.pool.dispatch(tasks),
                ..self
            }
        }
    }

    /// Whether the command source would end a wait: a command is there, or
    /// the client has closed the channel.
    pub open spec fn commands_ready(self) -> bool {
        self.commands.has_message() || self.commands.closed
    }

    /// Whether the result source would end a wait.
    pub open spec fn results_ready(self) -> bool {
        self.pool.results.has_message()
    }

    /// Whether the command source wins the race: it is ready, and it is
    /// preferred or alone.
    pub open spec fn commands_win(self, prefer: Source) -> bool {
        self.commands_ready() && (prefer == Source::Commands || !self.results_ready())
    }

    /// What ends a wait in which `prefer` wins if both sources are ready.
    pub open spec fn wakeup(self, prefer: Source) -> Wakeup<P, L, R> {
        if self.stopped {
            Wakeup::Closed
        } else if self.commands_win(prefer) {
            if self.commands.has_message() {
                Wakeup::Message(self.commands.queue[0])
            } else {
                Wakeup::Closed
            }
        } else if self.results_ready() {
            Wakeup::Finished(self.pool.results.queue[0])
        } else {
            Wakeup::Pending
        }
    }

    /// The coordinator after such a wait.
    pub open spec fn wait(self, prefer: Source) -> Self {
        if self.stopped {
            self
        } else if self.commands_win(prefer) {
            if self.commands.has_message() {
                CoordinatorView { commands: self.commands.recv(), ..self }
            } else {
                self.stop()
            }
        } else {
            CoordinatorView { pool: self.pool.collect(), ..self }
        }
    }

    /// What the second half of an iteration reports for such a wait.
    pub open spec fn turn(self, prefer: Source) -> Turn {
        match self.wakeup(prefer) {
            Wakeup::Message(_) => Turn::Applied,
            Wakeup::Finished(_) => Turn::Integrated,
            Wakeup::Closed => Turn::Closed,
            Wakeup::Pending => Turn::Pending,
        }
    }

    /// The coordinator after the client tried to send `msg`.
    pub open spec fn send(self, msg: BotMsg<P, L>) -> Self {
        CoordinatorView { commands: self.commands.send(msg), ..self }
    }

    /// The coordinator after the client polled for a decision.
    pub open spec fn poll(self) -> Self {
        CoordinatorView { outputs: self.outputs.recv(), ..self }
    }

    /// The coordinator after the client closed the command channel.
    pub open spec fn hang_up(self) -> Self {
        CoordinatorView { commands: self.commands.close(), ..self }
    }

    /// The coordinator after `worker` tried to acquire a task.
    pub open spec fn acquire(self, worker: int) -> Self {
        CoordinatorView { pool: self.pool.acquire(worker), ..self }
    }

    /// The coordinator after `worker` handed in `outcome`.
    pub open spec fn complete(self, worker: int, outcome: R) -> Self {
        CoordinatorView { pool: self.pool.complete(worker, outcome), ..self }
    }
}

/// The state that the coordinator's loop works on, apart from the state of
/// the search algorithm, which the host keeps.
///
/// One iteration of the loop has two halves, and the loop suspends between
/// them only. [`begin_iteration`](Self::begin_iteration) asks the algorithm
/// whether its state is terminal, lets it advance, emits its decisions and
/// dispatches its tasks. [`end_iteration`](Self::end_iteration) takes one
/// item from whichever source is ready and hands it to the algorithm.
///
/// Both are made of steps that take the algorithm's answers as arguments and
/// say exactly what they do with them: [`keep_running`](Self::keep_running),
/// [`publish`](Self::publish) and [`wait`](Self::wait). A host that keeps the
/// algorithm elsewhere calls these.
pub struct Coordinator<P, L, T, R, D> {
    commands: Channel<BotMsg<P, L>>,
    outputs: Channel<D>,
    pool: Pool<T, R>,
    stopped: bool,
}

impl<P, L, T, R, D> View for Coordinator<P, L, T, R, D> {
    type V = CoordinatorView<P, L, T, R, D>;

    closed spec fn view(&self) -> CoordinatorView<P, L, T, R, D> {
        CoordinatorView {
            commands: self.commands@,
            outputs: self.outputs@,
            pool: self.pool@,
            stopped: self.stopped,
        }
    }
}

impl<P, L, T, R, D> Coordinator<P, L, T, R, D> {
    /// A running coordinator with a pool of `threads` idle workers.
    pub(crate) fn new(threads: u32) -> (bot: Self)
        requires
            threads >= 1,
        ensures
            bot@ == CoordinatorView::<P, L, T, R, D>::fresh(threads as nat),
    {
        Coordinator {
            commands: Channel::new(),
            outputs: Channel::new(),
            pool: Pool::new(threads),
            stopped: false,
        }
    }

    /// Sends a command from the client; it comes back if the channel is
    /// closed.
    pub(crate) fn send(&mut self, msg: BotMsg<P, L>) -> (sent: Result<(), BotMsg<P, L>>)
        ensures
            final(self)@ == old(self)@.send(msg),
            sent == (if old(self)@.commands.closed {
                Err::<(), BotMsg<P, L>>(msg)
            } else {
                Ok::<(), BotMsg<P, L>>(())
            }),
    {
        self.commands.send(msg)
    }

    /// Takes the oldest decision that the client has not seen yet.
    pub(crate) fn try_recv(&mut self) -> (decision: Option<D>)
        ensures
            final(self)@ == old(self)@.poll(),
            decision == old(self)@.outputs.front(),
    {
        self.outputs.try_recv()
    }

    /// Closes the command channel from the client's side.
    pub(crate) fn hang_up(&mut self)
        ensures
            final(self)@ == old(self)@.hang_up(),
    {
        self.commands.close();
    }

    fn stop(&mut self)
        ensures
            final(self)@ == old(self)@.stop(),
    {
        self.commands.close();
        self.outputs.close();
        self.pool.shut_down();
        self.stopped = true;
    }

    /// Whether the coordinator has left its loop.
    pub fn is_stopped(&self) -> (stopped: bool)
        ensures
            stopped == self@.stopped,
    {
        self.stopped
    }

    /// The number of workers in the pool.
    pub fn threads(&self) -> (n: usize)
        ensures
            n == self@.pool.workers.len(),
    {
        self.pool.size()
    }

    /// The check at the top of the loop. `terminal` is what the algorithm
    /// says of its state. Returns whether the loop goes on; if it does not,
    /// the coordinator has stopped and all its channels are closed.
    pub fn keep_running(&mut self, terminal: bool) -> (running: bool)
        ensures
            final(self)@ == old(self)@.keep_running(terminal),
            running == old(self)@.keeps_running(terminal),
    {
        if self.stopped {
            false
        } else if terminal {
            self.stop();
            false
        } else {
            true
        }
    }

    /// Emits every output to the client and dispatches every task to the
    /// pool, each in the order in which the algorithm produced them. After
    /// the coordinator has stopped nothing is emitted or dispatched.
    pub fn publish(&mut self, tasks: Vec<T>, outputs: Vec<D>)
        ensures
            final(self)@ == old(self)@.publish(tasks@, outputs@),
    {
        if !self.stopped {
            self.outputs.send_all(outputs);
            self.pool.dispatch(tasks);
        }
    }

    /// Waits on the command source and the result source at once and takes
    /// one item from whichever is ready; `prefer` wins when both are.
    ///
    /// A closed and drained command channel counts as ready: finding it ends
    /// the loop, and the coordinator stops. Returns `Pending`, and changes
    /// nothing, only if neither source is ready.
    pub fn wait(&mut self, prefer: Source) -> (wakeup: Wakeup<P, L, R>)
        ensures
            final(self)@ == old(self)@.wait(prefer),
            wakeup == old(self)@.wakeup(prefer),
    {
        if self.stopped {
            return Wakeup::Closed;
        }
        let commands_ready = !self.commands.is_empty() || self.commands.is_closed();
        let results_ready = self.pool.has_result();
        let commands_first = match prefer {
            Source::Commands => true,
            Source::Results => false,
        };
        if commands_ready && (commands_first || !results_ready) {
            match self.commands.try_recv() {
                Some(msg) => Wakeup::Message(msg),
                None => {
                    self.stop();
                    Wakeup::Closed
                },
            }
        } else {
            match self.pool.collect() {
                Some(outcome) => Wakeup::Finished(outcome),
                None => Wakeup::Pending,
            }
        }
    }

    /// The first half of an iteration: the check at the top of the loop and,
    /// if the loop goes on, one advance of the algorithm, whose decisions
    /// are emitted and whose tasks are dispatched at once.
    ///
    /// A coordinator that has stopped does not touch the algorithm.
    pub fn begin_iteration<A>(&mut self, algorithm: &mut A) -> (begun: Begun) where
        A: Algorithm<P, L, T, R, D>,

        ensures
            old(self)@.stopped ==> begun == Begun::Stopped && final(self)@ == old(self)@
                && *final(algorithm) == *old(algorithm),
            begun == Begun::Stopped ==> final(self)@ == old(self)@.keep_running(true),
            begun is Published ==> !old(self)@.stopped && exists|tasks: Seq<T>, outputs: Seq<D>|
                tasks.len() == begun->tasks && outputs.len() == begun->outputs && final(self)@
                    == old(self)@.publish(tasks, outputs),
    {
        if self.stopped {
            return Begun::Stopped;
        }
        let terminal = algorithm.is_terminal();
        if !self.keep_running(terminal) {
            return Begun::Stopped;
        }
        let (tasks, outputs) = algorithm.advance();
        let begun = Begun::Published { tasks: tasks.len(), outputs: outputs.len() };
        let ghost dispatched = tasks@;
        let ghost emitted = outputs@;
        self.publish(tasks, outputs);
        assert(self@ == old(self)@.publish(dispatched, emitted));
        begun
    }

    /// The second half of an iteration: the wait on both sources, and the
    /// hand-over of what arrived to the algorithm. A command goes to its
    /// `apply`, an outcome to its `integrate`; if nothing arrived the
    /// algorithm is not touched.
    pub fn end_iteration<A>(&mut self, algorithm: &mut A, prefer: Source) -> (turn: Turn) where
        A: Algorithm<P, L, T, R, D>,

        ensures
            final(self)@ == old(self)@.wait(prefer),
            turn == old(self)@.turn(prefer),
            turn == Turn::Closed || turn == Turn::Pending ==> *final(algorithm) == *old(algorithm),
    {
        match self.wait(prefer) {
            Wakeup::Message(command) => {
                algorithm.apply(command);
                Turn::Applied
            },
            Wakeup::Finished(outcome) => {
                algorithm.integrate(outcome);
                Turn::Integrated
            },
            Wakeup::Closed => Turn::Closed,
            Wakeup::Pending => Turn::Pending,
        }
    }

    /// One turn of the loop of `worker`: acquire the oldest task of the
    /// supply, execute it to completion and hand in the outcome, with nothing
    /// in between.
    pub fn work(&mut self, worker: usize) -> (did: Worked) where T: Job<R>
        ensures
            did == old(self)@.pool.worked(worker as int),
            did == Worked::Done ==> exists|outcome: R|
                final(self)@ == old(self)@.acquire(worker as int).complete(worker as int, outcome),
            did != Worked::Done ==> final(self)@ == old(self)@.acquire(worker as int),
    {
        let did = self.pool.work(worker);
        proof {
            if did == Worked::Done {
                let outcome = choose|outcome: R|
                    self.pool@ == old(self).pool@.acquire(worker as int).complete(
                        worker as int,
                        outcome,
                    );
                assert(self@ == old(self)@.acquire(worker as int).complete(worker as int, outcome));
            }
        }
        did
    }

    /// Lets `worker` take the oldest task of the supply.
    pub fn acquire(&mut self, worker: usize) -> (got: Acquired<T>)
        ensures
            final(self)@ == old(self)@.acquire(worker as int),
            got == old(self)@.pool.acquired(worker as int),
    {
        self.pool.acquire(worker)
    }

    /// Takes the outcome of the task that `worker` holds. Returns whether
    /// the worker held a task; if it did not, nothing changes.
    pub fn complete(&mut self, worker: usize, outcome: R) -> (accepted: bool)
        ensures
            final(self)@ == old(self)@.complete(worker as int, outcome),
            accepted == old(self)@.pool.is_busy(worker as int),
    {
        self.pool.complete(worker, outcome)
    }
}

} // verus!
