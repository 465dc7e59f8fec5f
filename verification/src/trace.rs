//! Runs of the whole system: the steps that a host can take, what a sequence
//! of them leads to, and what passes through the channels on the way.

use crate::coordinator::{Source, Wakeup};
use crate::interface::InterfaceView;
use crate::message::BotMsg;
use crate::pool::Acquired;
use vstd::prelude::*;

verus! {

/// One step of one unit. Each stands for one public operation of the
/// handle, of the coordinator or of a worker.
pub enum Step<P, L, T, R, D> {
    /// The client asked the handle to send a command.
    Send(BotMsg<P, L>),
    /// The client polled for a decision.
    Poll,
    /// The client closed the command channel.
    Disconnect,
    /// The coordinator made the check at the top of its loop; the flag is
    /// what the algorithm said of its state.
    KeepRunning(bool),
    /// The coordinator published the tasks and the outputs that the
    /// algorithm produced.
    Publish(Seq<T>, Seq<D>),
    /// The coordinator waited on both sources, with the given preference.
    Wait(Source),
    /// The worker with this index tried to acquire a task.
    Acquire(int),
    /// The worker with this index handed in an outcome.
    Complete(int, R),
}

impl<P, L, T, R, D> Step<P, L, T, R, D> {
    /// The steps in which the workers named by `order` hand in the
    /// `outcomes`, one each, in that order.
    pub open spec fn completions(order: Seq<int>, outcomes: Seq<R>) -> Seq<Self>
        recommends
            order.len() == outcomes.len(),
    {
        Seq::new(order.len(), |i: int| Step::Complete(order[i], outcomes[i]))
    }

    /// The steps in which the coordinator waits `count` times with the same
    /// preference.
    pub open spec fn waits(count: nat, prefer: Source) -> Seq<Self> {
        Seq::new(count, |i: int| Step::Wait(prefer))
    }
}

impl<P, L, T, R, D> InterfaceView<P, L, T, R, D> {
    /// The system after one step.
    pub open spec fn step(self, step: Step<P, L, T, R, D>) -> Self {
        match step {
            Step::Send(msg) => self.submit(msg),
            Step::Poll => self.poll(),
            Step::Disconnect => self.disconnect(),
            Step::KeepRunning(terminal) => InterfaceView {
                bot: self.bot.keep_running(terminal),
                ..self
            },
            Step::Publish(tasks, outputs) => InterfaceView {
                bot: self.bot.publish(tasks, outputs),
                ..self
            },
            Step::Wait(prefer) => InterfaceView { bot: self.bot.wait(prefer), ..self },
            Step::Acquire(worker) => InterfaceView { bot: self.bot.acquire(worker), ..self },
            Step::Complete(worker, outcome) => InterfaceView {
                bot: self.bot.complete(worker, outcome),
                ..self
            },
        }
    }

    /// The system after the steps were taken in order.
    pub open spec fn run(self, steps: Seq<Step<P, L, T, R, D>>) -> Self
        decreases steps.len(),
    {
        if steps.len() == 0 {
            self
        } else {
            self.run(steps.drop_last()).step(steps.last())
        }
    }

    /// The tasks that this step puts into the supply.
    pub open spec fn dispatched_by(self, step: Step<P, L, T, R, D>) -> Seq<T> {
        match step {
            Step::Publish(tasks, _) => if self.bot.stopped || self.bot.pool.supply.closed {
                Seq::empty()
            } else {
                tasks
            },
            _ => Seq::empty(),
        }
    }

    /// The task that this step hands to a worker, if it hands one over.
    pub open spec fn delivered_by(self, step: Step<P, L, T, R, D>) -> Seq<T> {
        match step {
            Step::Acquire(worker) => match self.bot.pool.acquired(worker) {
                Acquired::Task(task) => seq![task],
                _ => Seq::empty(),
            },
            _ => Seq::empty(),
        }
    }

    /// Whether this step makes the coordinator leave its loop.
    pub open spec fn is_stop(self, step: Step<P, L, T, R, D>) -> bool {
        !self.bot.stopped && self.step(step).bot.stopped
    }

    /// The tasks that this step throws away: those that no worker had
    /// acquired when the coordinator left its loop.
    pub open spec fn discarded_by(self, step: Step<P, L, T, R, D>) -> Seq<T> {
        if self.is_stop(step) {
            self.bot.pool.supply.queue
        } else {
            Seq::empty()
        }
    }

    /// The outcome that this step puts into the sink, if it puts one in.
    pub open spec fn emitted_by(self, step: Step<P, L, T, R, D>) -> Seq<R> {
        match step {
            Step::Complete(worker, outcome) => if self.bot.pool.is_busy(worker)
                && !self.bot.pool.results.closed {
                seq![outcome]
            } else {
                Seq::empty()
            },
            _ => Seq::empty(),
        }
    }

    /// The outcome that this step hands to the algorithm, if it hands one
    /// over.
    pub open spec fn integrated_by(self, step: Step<P, L, T, R, D>) -> Seq<R> {
        match step {
            Step::Wait(prefer) => match self.bot.wakeup(prefer) {
                Wakeup::Finished(outcome) => seq![outcome],
                _ => Seq::empty(),
            },
            _ => Seq::empty(),
        }
    }

    /// The command that this step puts into the command channel, if it puts
    /// one in.
    pub open spec fn sent_by(self, step: Step<P, L, T, R, D>) -> Seq<BotMsg<P, L>> {
        match step {
            Step::Send(msg) => if self.dead || self.bot.commands.closed {
                Seq::empty()
            } else {
                seq![msg]
            },
            _ => Seq::empty(),
        }
    }

    /// The command that this step hands to the algorithm, if it hands one
    /// over.
    pub open spec fn applied_by(self, step: Step<P, L, T, R, D>) -> Seq<BotMsg<P, L>> {
        match step {
            Step::Wait(prefer) => match self.bot.wakeup(prefer) {
                Wakeup::Message(msg) => seq![msg],
                _ => Seq::empty(),
            },
            _ => Seq::empty(),
        }
    }

    /// The decisions that this step puts into the output channel.
    pub open spec fn announced_by(self, step: Step<P, L, T, R, D>) -> Seq<D> {
        match step {
            Step::Publish(_, outputs) => if self.bot.stopped || self.bot.outputs.closed {
                Seq::empty()
            } else {
                outputs
            },
            _ => Seq::empty(),
        }
    }

    /// The decision that this step hands to the client, if it hands one
    /// over.
    pub open spec fn polled_by(self, step: Step<P, L, T, R, D>) -> Seq<D> {
        match step {
            Step::Poll => match self.bot.outputs.front() {
                Some(decision) => seq![decision],
                None => Seq::empty(),
            },
            _ => Seq::empty(),
        }
    }

    /// Whether this step is `worker` acquiring a task.
    pub open spec fn is_acquisition(self, step: Step<P, L, T, R, D>, worker: int) -> bool {
        step matches Step::Acquire(w) && w == worker && self.bot.pool.is_idle(worker)
            && self.bot.pool.supply.has_message()
    }

    /// Whether this step is `worker` handing in the outcome of a task that
    /// it holds.
    pub open spec fn is_completion(self, step: Step<P, L, T, R, D>, worker: int) -> bool {
        step matches Step::Complete(w, _) && w == worker && self.bot.pool.is_busy(worker)
    }

    /// All tasks put into the supply in the course of the steps, in order.
    pub open spec fn dispatched(self, steps: Seq<Step<P, L, T, R, D>>) -> Seq<T>
        decreases steps.len(),
    {
        if steps.len() == 0 {
            Seq::empty()
        } else {
            self.dispatched(steps.drop_last()) + self.run(steps.drop_last()).dispatched_by(
                steps.last(),
            )
        }
    }

    /// All tasks handed to workers in the course of the steps, in order.
    pub open spec fn delivered(self, steps: Seq<Step<P, L, T, R, D>>) -> Seq<T>
        decreases steps.len(),
    {
        if steps.len() == 0 {
            Seq::empty()
        } else {
            self.delivered(steps.drop_last()) + self.run(steps.drop_last()).delivered_by(
                steps.last(),
            )
        }
    }

    /// All tasks thrown away in the course of the steps, in order.
    pub open spec fn discarded(self, steps: Seq<Step<P, L, T, R, D>>) -> Seq<T>
        decreases steps.len(),
    {
        if steps.len() == 0 {
            Seq::empty()
        } else {
            self.discarded(steps.drop_last()) + self.run(steps.drop_last()).discarded_by(
                steps.last(),
            )
        }
    }

    /// All outcomes put into the sink in the course of the steps, in order.
    pub open spec fn emitted(self, steps: Seq<Step<P, L, T, R, D>>) -> Seq<R>
        decreases steps.len(),
    {
        if steps.len() == 0 {
            Seq::empty()
        } else {
            self.emitted(steps.drop_last()) + self.run(steps.drop_last()).emitted_by(
                steps.last(),
            )
        }
    }

    /// All outcomes handed to the algorithm in the course of the steps, in
    /// order.
    pub open spec fn integrated(self, steps: Seq<Step<P, L, T, R, D>>) -> Seq<R>
        decreases steps.len(),
    {
        if steps.len() == 0 {
            Seq::empty()
        } else {
            self.integrated(steps.drop_last()) + self.run(steps.drop_last()).integrated_by(
                steps.last(),
            )
        }
    }

    /// All commands put into the command channel in the course of the
    /// steps, in order.
    pub open spec fn sent(self, steps: Seq<Step<P, L, T, R, D>>) -> Seq<BotMsg<P, L>>
        decreases steps.len(),
    {
        if steps.len() == 0 {
            Seq::empty()
        } else {
            self.sent(steps.drop_last()) + self.run(steps.drop_last()).sent_by(steps.last())
        }
    }

    /// All commands handed to the algorithm in the course of the steps, in
    /// order.
    pub open spec fn applied(self, steps: Seq<Step<P, L, T, R, D>>) -> Seq<BotMsg<P, L>>
        decreases steps.len(),
    {
        if steps.len() == 0 {
            Seq::empty()
        } else {
            self.applied(steps.drop_last()) + self.run(steps.drop_last()).applied_by(
                steps.last(),
            )
        }
    }

    /// All decisions put into the output channel in the course of the steps,
    /// in order.
    pub open spec fn announced(self, steps: Seq<Step<P, L, T, R, D>>) -> Seq<D>
        decreases steps.len(),
    {
        if steps.len() == 0 {
            Seq::empty()
        } else {
            self.announced(steps.drop_last()) + self.run(steps.drop_last()).announced_by(
                steps.last(),
            )
        }
    }

    /// All decisions handed to the client in the course of the steps, in
    /// order.
    pub open spec fn polled(self, steps: Seq<Step<P, L, T, R, D>>) -> Seq<D>
        decreases steps.len(),
    {
        if steps.len() == 0 {
            Seq::empty()
        } else {
            self.polled(steps.drop_last()) + self.run(steps.drop_last()).polled_by(steps.last())
        }
    }

    /// How many tasks `worker` acquires in the course of the steps.
    pub open spec fn acquisitions(self, steps: Seq<Step<P, L, T, R, D>>, worker: int) -> nat
        decreases steps.len(),
    {
        if steps.len() == 0 {
            0
        } else if self.run(steps.drop_last()).is_acquisition(steps.last(), worker) {
            self.acquisitions(steps.drop_last(), worker) + 1
        } else {
            self.acquisitions(steps.drop_last(), worker)
        }
    }

    /// How many outcomes `worker` hands in for tasks that it holds in the
    /// course of the steps.
    pub open spec fn completions(self, steps: Seq<Step<P, L, T, R, D>>, worker: int) -> nat
        decreases steps.len(),
    {
        if steps.len() == 0 {
            0
        } else if self.run(steps.drop_last()).is_completion(steps.last(), worker) {
            self.completions(steps.drop_last(), worker) + 1
        } else {
            self.completions(steps.drop_last(), worker)
        }
    }

    /// One if `worker` holds a task, zero if not.
    pub open spec fn held_by(self, worker: int) -> nat {
        if self.bot.pool.is_busy(worker) {
            1
        } else {
            0
        }
    }

    /// What holds of every state that a launched system can reach.
    pub open spec fn consistent(self) -> bool {
        &&& self.bot.pool.workers.len() >= 1
        &&& self.bot.stopped == self.bot.pool.supply.closed
        &&& self.bot.stopped ==> self.bot.pool.supply.drained()
        &&& self.bot.stopped == self.bot.pool.results.closed
        &&& self.bot.stopped == self.bot.outputs.closed
        &&& self.bot.stopped ==> self.bot.commands.closed
        &&& self.dead ==> self.bot.commands.closed
        &&& forall|worker: int| #[trigger]
            self.bot.pool.has_exited(worker) ==> self.bot.pool.supply.drained()
    }
}

} // verus!
