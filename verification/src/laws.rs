//! What holds of the system under every schedule.
//!
//! A run is a sequence of [`Step`]s taken from some state; every public
//! operation of the handle, the coordinator and the pool is one step or a
//! few. The statements below quantify over all runs, so they hold however a
//! host interleaves the client, the coordinator and the workers.

use crate::coordinator::{CoordinatorView, Source, Wakeup};
use crate::interface::InterfaceView;
use crate::message::BotMsg;
use crate::pool::{Acquired, PoolView, WorkerState};
use crate::trace::Step;
use vstd::prelude::*;

verus! {

/// Every state that a system launched with at least one worker reaches, by
/// whatever steps in whatever order, is consistent: the pool is not empty,
/// the coordinator's channels are closed exactly when it has stopped, a dead
/// handle faces a closed command channel, and a worker has left its loop
/// only if the supply is closed and drained.
pub proof fn lemma_reachable_states_are_consistent<P, L, T, R, D>(
    threads: nat,
    steps: Seq<Step<P, L, T, R, D>>,
)
    requires
        threads >= 1,
    ensures
        InterfaceView::<P, L, T, R, D>::fresh(threads).run(steps).consistent(),
{
    lemma_steps_keep_consistency(InterfaceView::<P, L, T, R, D>::fresh(threads), steps);
}

/// A step leads from a consistent state to a consistent state.
pub proof fn lemma_step_keeps_consistency<P, L, T, R, D>(
    state: InterfaceView<P, L, T, R, D>,
    step: Step<P, L, T, R, D>,
)
    requires
        state.consistent(),
    ensures
        state.step(step).consistent(),
{
    let next = state.step(step);
    assert forall|worker: int| #[trigger]
        next.bot.pool.has_exited(worker) implies next.bot.pool.supply.drained() by {
        if !state.bot.pool.has_exited(worker) {
            assert(step matches Step::Acquire(w) && w == worker);
        }
    }
}

/// Any steps lead from a consistent state to a consistent state.
pub proof fn lemma_steps_keep_consistency<P, L, T, R, D>(
    state: InterfaceView<P, L, T, R, D>,
    steps: Seq<Step<P, L, T, R, D>>,
)
    requires
        state.consistent(),
    ensures
        state.run(steps).consistent(),
    decreases steps.len(),
{
    if steps.len() > 0 {
        lemma_steps_keep_consistency(state, steps.drop_last());
        lemma_step_keeps_consistency(state.run(steps.drop_last()), steps.last());
    }
}

/// The size of the pool never changes.
pub proof fn lemma_pool_size_is_fixed<P, L, T, R, D>(
    state: InterfaceView<P, L, T, R, D>,
    steps: Seq<Step<P, L, T, R, D>>,
)
    ensures
        state.run(steps).bot.pool.workers.len() == state.bot.pool.workers.len(),
    decreases steps.len(),
{
    if steps.len() > 0 {
        lemma_pool_size_is_fixed(state, steps.drop_last());
    }
}

/// Death is permanent: a handle that is dead stays dead, whatever is done
/// to it or to the bot behind it.
pub proof fn lemma_death_is_permanent<P, L, T, R, D>(
    state: InterfaceView<P, L, T, R, D>,
    steps: Seq<Step<P, L, T, R, D>>,
)
    requires
        state.dead,
    ensures
        state.run(steps).dead,
    decreases steps.len(),
{
    if steps.len() > 0 {
        lemma_death_is_permanent(state, steps.drop_last());
    }
}

/// A dead handle sends nothing: whatever the client asks it to send, the
/// state stays as it is.
pub proof fn lemma_dead_handle_sends_nothing<P, L, T, R, D>(
    state: InterfaceView<P, L, T, R, D>,
    step: Step<P, L, T, R, D>,
)
    requires
        state.dead,
        step is Send,
    ensures
        state.step(step) == state,
{
}

/// In one step, the task that is handed to a worker is the oldest of the
/// supply and leaves the supply in that very step; tasks enter the supply
/// only behind those that are already there; and tasks are thrown away only
/// all at once, when the coordinator leaves its loop.
pub proof fn lemma_step_moves_tasks<P, L, T, R, D>(
    state: InterfaceView<P, L, T, R, D>,
    step: Step<P, L, T, R, D>,
)
    ensures
        state.delivered_by(step) + state.step(step).bot.pool.supply.queue + state.discarded_by(
            step,
        ) == state.bot.pool.supply.queue + state.dispatched_by(step),
{
    let before = state.bot.pool.supply.queue;
    let after = state.step(step).bot.pool.supply.queue;
    assert(state.delivered_by(step) + after + state.discarded_by(step) =~= before
        + state.dispatched_by(step));
}

/// No task is delivered to more than one worker, and none is made up: the
/// tasks handed to workers in the course of any steps, followed by those
/// still in the supply and by those thrown away when the coordinator left
/// its loop, are exactly the tasks that were in the supply at the start
/// followed by those dispatched since, each once and in that order. Tasks
/// are thrown away only by a coordinator that has stopped, and then the
/// supply is empty.
pub proof fn lemma_tasks_are_delivered_once<P, L, T, R, D>(
    state: InterfaceView<P, L, T, R, D>,
    steps: Seq<Step<P, L, T, R, D>>,
)
    ensures
        state.delivered(steps) + state.run(steps).bot.pool.supply.queue + state.discarded(steps)
            == state.bot.pool.supply.queue + state.dispatched(steps),
        state.discarded(steps).len() > 0 ==> state.run(steps).bot.stopped && state.run(
            steps,
        ).bot.pool.supply.queue.len() == 0,
    decreases steps.len(),
{
    let start = state.bot.pool.supply.queue;
    if steps.len() == 0 {
        assert(state.delivered(steps) + start + state.discarded(steps) =~= start
            + state.dispatched(steps));
    } else {
        let earlier = steps.drop_last();
        let before = state.run(earlier);
        lemma_tasks_are_delivered_once(state, earlier);
        lemma_step_moves_tasks(before, steps.last());
        let handed = before.delivered_by(steps.last());
        let added = before.dispatched_by(steps.last());
        let dropped = before.discarded_by(steps.last());
        let middle = before.bot.pool.supply.queue;
        let left = state.run(steps).bot.pool.supply.queue;
        if state.discarded(earlier).len() > 0 {
            // The coordinator had stopped before: this step moves no task.
            assert(state.delivered(steps) =~= state.delivered(earlier));
            assert(state.discarded(steps) =~= state.discarded(earlier));
            assert(state.dispatched(steps) =~= state.dispatched(earlier));
            assert(left =~= middle);
        } else {
            assert(state.discarded(steps) =~= dropped);
            assert(state.delivered(earlier) + middle + state.discarded(earlier)
                =~= state.delivered(earlier) + middle);
            assert((state.delivered(earlier) + handed) + left + dropped =~= state.delivered(earlier)
                + (handed + left + dropped));
            assert(state.delivered(earlier) + (middle + added) =~= (state.delivered(earlier)
                + middle) + added);
            assert((start + state.dispatched(earlier)) + added =~= start + (state.dispatched(earlier)
                + added));
        }
    }
}

/// A task is delivered to the one worker that asked for it: a step hands
/// over at most one task, it does so exactly if it is an acquisition by some
/// worker, that worker is the only one whose state changes, and it holds a
/// task afterwards.
pub proof fn lemma_delivery_goes_to_one_worker<P, L, T, R, D>(
    state: InterfaceView<P, L, T, R, D>,
    step: Step<P, L, T, R, D>,
)
    ensures
        state.delivered_by(step).len() <= 1,
        state.delivered_by(step).len() == 1 <==> exists|worker: int|
            state.is_acquisition(step, worker),
        forall|worker: int, other: int|
            state.is_acquisition(step, worker) && state.is_acquisition(step, other) ==> worker
                == other,
        forall|worker: int, other: int|
            #![trigger state.is_acquisition(step, worker), state.bot.pool.workers[other]]
            state.is_acquisition(step, worker) && state.bot.pool.has_worker(other) ==> state.step(
                step,
            ).bot.pool.workers[other] == (if other == worker {
                WorkerState::Busy
            } else {
                state.bot.pool.workers[other]
            }),
{
    if state.delivered_by(step).len() == 1 {
        let worker: int = step->Acquire_0;
        assert(state.is_acquisition(step, worker));
    }
}

/// In one step, the outcome that is handed to the algorithm is the oldest of
/// the sink and leaves the sink in that very step; outcomes enter the sink
/// only behind those that are already there.
pub proof fn lemma_step_moves_outcomes<P, L, T, R, D>(
    state: InterfaceView<P, L, T, R, D>,
    step: Step<P, L, T, R, D>,
)
    ensures
        state.integrated_by(step) + state.step(step).bot.pool.results.queue
            == state.bot.pool.results.queue + state.emitted_by(step),
{
    let before = state.bot.pool.results.queue;
    let after = state.step(step).bot.pool.results.queue;
    assert(state.integrated_by(step) + after =~= before + state.emitted_by(step));
}

/// Outcomes reach the algorithm in the order in which the workers handed
/// them in, whatever the order in which their tasks were dispatched, each
/// once and none made up: the outcomes handed to the algorithm in the course
/// of any steps, followed by those still in the sink, are exactly the
/// outcomes that were in the sink at the start followed by those emitted
/// since.
pub proof fn lemma_outcomes_are_integrated_once<P, L, T, R, D>(
    state: InterfaceView<P, L, T, R, D>,
    steps: Seq<Step<P, L, T, R, D>>,
)
    ensures
        state.integrated(steps) + state.run(steps).bot.pool.results.queue
            == state.bot.pool.results.queue + state.emitted(steps),
    decreases steps.len(),
{
    let start = state.bot.pool.results.queue;
    if steps.len() == 0 {
        assert(state.integrated(steps) + start =~= start + state.emitted(steps));
    } else {
        let earlier = steps.drop_last();
        let before = state.run(earlier);
        lemma_outcomes_are_integrated_once(state, earlier);
        lemma_step_moves_outcomes(before, steps.last());
        let handed = before.integrated_by(steps.last());
        let added = before.emitted_by(steps.last());
        let middle = before.bot.pool.results.queue;
        let left = state.run(steps).bot.pool.results.queue;
        assert((state.integrated(earlier) + handed) + left =~= state.integrated(earlier) + (handed + left));
        assert(state.integrated(earlier) + (middle + added) =~= (state.integrated(earlier) + middle) + added);
        assert((start + state.emitted(earlier)) + added =~= start + (state.emitted(earlier) + added));
    }
}

/// No worker hands in more than one outcome per task that it acquired: in
/// the course of any steps, the outcomes that a worker handed in for tasks
/// that it held, plus the task that it holds at the end, are as many as the
/// tasks that it acquired, plus the task that it held at the start.
pub proof fn lemma_one_outcome_per_task<P, L, T, R, D>(
    state: InterfaceView<P, L, T, R, D>,
    steps: Seq<Step<P, L, T, R, D>>,
    worker: int,
)
    ensures
        state.completions(steps, worker) + state.run(steps).held_by(worker)
            == state.acquisitions(steps, worker) + state.held_by(worker),
    decreases steps.len(),
{
    if steps.len() > 0 {
        lemma_one_outcome_per_task(state, steps.drop_last(), worker);
    }
}

/// A worker of a freshly launched system never has handed in more outcomes
/// than it has acquired tasks.
pub proof fn lemma_outcomes_never_exceed_tasks<P, L, T, R, D>(
    threads: nat,
    steps: Seq<Step<P, L, T, R, D>>,
    worker: int,
)
    ensures
        ({
            let start = InterfaceView::<P, L, T, R, D>::fresh(threads);
            start.completions(steps, worker) <= start.acquisitions(steps, worker)
        }),
{
    lemma_one_outcome_per_task(InterfaceView::<P, L, T, R, D>::fresh(threads), steps, worker);
}

/// In one step, the command that is handed to the algorithm is the oldest
/// of the command channel and leaves it in that very step; commands enter
/// the channel only behind those that are already there.
pub proof fn lemma_step_moves_commands<P, L, T, R, D>(
    state: InterfaceView<P, L, T, R, D>,
    step: Step<P, L, T, R, D>,
)
    ensures
        state.applied_by(step) + state.step(step).bot.commands.queue == state.bot.commands.queue
            + state.sent_by(step),
{
    let before = state.bot.commands.queue;
    let after = state.step(step).bot.commands.queue;
    assert(state.applied_by(step) + after =~= before + state.sent_by(step));
}

/// Commands reach the algorithm in the order in which the client sent them,
/// each once and none made up.
pub proof fn lemma_commands_are_applied_once<P, L, T, R, D>(
    state: InterfaceView<P, L, T, R, D>,
    steps: Seq<Step<P, L, T, R, D>>,
)
    ensures
        state.applied(steps) + state.run(steps).bot.commands.queue == state.bot.commands.queue
            + state.sent(steps),
    decreases steps.len(),
{
    let start = state.bot.commands.queue;
    if steps.len() == 0 {
        assert(state.applied(steps) + start =~= start + state.sent(steps));
    } else {
        let earlier = steps.drop_last();
        let before = state.run(earlier);
        lemma_commands_are_applied_once(state, earlier);
        lemma_step_moves_commands(before, steps.last());
        let handed = before.applied_by(steps.last());
        let added = before.sent_by(steps.last());
        let middle = before.bot.commands.queue;
        let left = state.run(steps).bot.commands.queue;
        assert((state.applied(earlier) + handed) + left =~= state.applied(earlier) + (handed + left));
        assert(state.applied(earlier) + (middle + added) =~= (state.applied(earlier) + middle) + added);
        assert((start + state.sent(earlier)) + added =~= start + (state.sent(earlier) + added));
    }
}

/// In one step, the decision that is handed to the client is the oldest of
/// the output channel and leaves it in that very step; decisions enter the
/// channel only behind those that are already there.
pub proof fn lemma_step_moves_decisions<P, L, T, R, D>(
    state: InterfaceView<P, L, T, R, D>,
    step: Step<P, L, T, R, D>,
)
    ensures
        state.polled_by(step) + state.step(step).bot.outputs.queue == state.bot.outputs.queue
            + state.announced_by(step),
{
    let before = state.bot.outputs.queue;
    let after = state.step(step).bot.outputs.queue;
    assert(state.polled_by(step) + after =~= before + state.announced_by(step));
}

/// Decisions reach the client in the order in which the algorithm produced
/// them, each once and none made up.
pub proof fn lemma_decisions_are_polled_once<P, L, T, R, D>(
    state: InterfaceView<P, L, T, R, D>,
    steps: Seq<Step<P, L, T, R, D>>,
)
    ensures
        state.polled(steps) + state.run(steps).bot.outputs.queue == state.bot.outputs.queue
            + state.announced(steps),
    decreases steps.len(),
{
    let start = state.bot.outputs.queue;
    if steps.len() == 0 {
        assert(state.polled(steps) + start =~= start + state.announced(steps));
    } else {
        let earlier = steps.drop_last();
        let before = state.run(earlier);
        lemma_decisions_are_polled_once(state, earlier);
        lemma_step_moves_decisions(before, steps.last());
        let handed = before.polled_by(steps.last());
        let added = before.announced_by(steps.last());
        let middle = before.bot.outputs.queue;
        let left = state.run(steps).bot.outputs.queue;
        assert((state.polled(earlier) + handed) + left =~= state.polled(earlier) + (handed + left));
        assert(state.polled(earlier) + (middle + added) =~= (state.polled(earlier) + middle) + added);
        assert((start + state.announced(earlier)) + added =~= start + (state.announced(earlier) + added));
    }
}

/// Workers may finish in any order. Whatever the order in which workers that
/// hold a task hand in their outcomes, every outcome is taken, the outcomes
/// line up in the sink in the order of completion, each of these workers is
/// idle afterwards, and nothing else changes.
pub proof fn lemma_workers_finish_in_any_order<T, R>(
    pool: PoolView<T, R>,
    order: Seq<int>,
    outcomes: Seq<R>,
)
    requires
        order.len() == outcomes.len(),
        order.no_duplicates(),
        forall|i: int| 0 <= i < order.len() ==> pool.is_busy(#[trigger] order[i]),
    ensures
        ({
            let after = pool.complete_all(order, outcomes);
            &&& after.supply == pool.supply
            &&& after.results == pool.results.send_all(outcomes)
            &&& after.workers.len() == pool.workers.len()
            &&& forall|w: int|
                pool.has_worker(w) ==> #[trigger] after.workers[w] == if order.contains(w) {
                    WorkerState::Idle
                } else {
                    pool.workers[w]
                }
        }),
    decreases order.len(),
{
    let after = pool.complete_all(order, outcomes);
    if order.len() == 0 {
        assert(pool.results.queue + outcomes =~= pool.results.queue);
        assert forall|w: int| pool.has_worker(w) implies #[trigger] after.workers[w]
            == pool.workers[w] by {
            assert(!order.contains(w));
        }
    } else {
        let first = order.drop_last();
        let last: int = order.last();
        let before = pool.complete_all(first, outcomes.drop_last());
        assert forall|i: int| 0 <= i < first.len() implies pool.is_busy(#[trigger] first[i]) by {
            assert(first[i] == order[i]);
        }
        lemma_workers_finish_in_any_order(pool, first, outcomes.drop_last());
        assert(pool.is_busy(order[order.len() - 1]));
        assert(!first.contains(last)) by {
            if first.contains(last) {
                let i: int = choose|i: int| 0 <= i < first.len() && first[i] == last;
                assert(order[i] == order[order.len() - 1]);
            }
        }
        assert(before.workers[last] == pool.workers[last]);
        assert(before.is_busy(last));
        assert(pool.results.queue + outcomes =~= (pool.results.queue
            + outcomes.drop_last()).push(outcomes.last()));
        assert forall|w: int| pool.has_worker(w) implies #[trigger] after.workers[w]
            == if order.contains(w) {
            WorkerState::Idle
        } else {
            pool.workers[w]
        } by {
            if w == last {
                assert(order[order.len() - 1] == w);
            } else if first.contains(w) {
                let i: int = choose|i: int| 0 <= i < first.len() && first[i] == w;
                assert(order[i] == w);
            } else if order.contains(w) {
                let i: int = choose|i: int| 0 <= i < order.len() && order[i] == w;
                assert(first[i] == w);
            }
        }
    }
}

/// Steps taken in two parts lead where the same steps lead when taken as
/// one, and what is handed to the algorithm in the two parts adds up.
pub proof fn lemma_run_in_two_parts<P, L, T, R, D>(
    state: InterfaceView<P, L, T, R, D>,
    first: Seq<Step<P, L, T, R, D>>,
    second: Seq<Step<P, L, T, R, D>>,
)
    ensures
        state.run(first + second) == state.run(first).run(second),
        state.integrated(first + second) == state.integrated(first) + state.run(first).integrated(
            second,
        ),
    decreases second.len(),
{
    if second.len() == 0 {
        assert(first + second =~= first);
        assert(state.integrated(first) + state.run(first).integrated(second) =~= state.integrated(
            first,
        ));
    } else {
        let all = first + second;
        assert(all.drop_last() =~= first + second.drop_last());
        assert(all.last() == second.last());
        lemma_run_in_two_parts(state, first, second.drop_last());
        let middle = state.run(first);
        let before = middle.run(second.drop_last());
        assert(state.integrated(all) =~= state.integrated(first) + (middle.integrated(
            second.drop_last(),
        ) + before.integrated_by(second.last())));
    }
}

/// While workers hand in outcomes nothing but the pool changes, and nothing
/// is handed to the algorithm.
pub proof fn lemma_completions_change_the_pool_only<P, L, T, R, D>(
    state: InterfaceView<P, L, T, R, D>,
    order: Seq<int>,
    outcomes: Seq<R>,
)
    requires
        order.len() == outcomes.len(),
    ensures
        ({
            let steps = Step::<P, L, T, R, D>::completions(order, outcomes);
            &&& state.run(steps) == InterfaceView {
                bot: CoordinatorView {
                    pool: state.bot.pool.complete_all(order, outcomes),
                    ..state.bot
                },
                ..state
            }
            &&& state.integrated(steps) == Seq::<R>::empty()
        }),
    decreases order.len(),
{
    let steps = Step::<P, L, T, R, D>::completions(order, outcomes);
    if order.len() > 0 {
        let earlier = Step::<P, L, T, R, D>::completions(order.drop_last(), outcomes.drop_last());
        assert(steps.drop_last() =~= earlier);
        assert(steps.last() == Step::<P, L, T, R, D>::Complete(order.last(), outcomes.last()));
        lemma_completions_change_the_pool_only(state, order.drop_last(), outcomes.drop_last());
        assert(state.integrated(steps) =~= Seq::<R>::empty());
    }
}

/// A running coordinator that prefers outcomes and finds `count` of them in
/// the sink hands exactly these to the algorithm in `count` waits, oldest
/// first, and touches nothing else.
pub proof fn lemma_waits_drain_the_sink<P, L, T, R, D>(
    state: InterfaceView<P, L, T, R, D>,
    count: nat,
)
    requires
        !state.bot.stopped,
        count <= state.bot.pool.results.queue.len(),
    ensures
        ({
            let steps = Step::<P, L, T, R, D>::waits(count, Source::Results);
            let queue = state.bot.pool.results.queue;
            &&& state.integrated(steps) == queue.take(count as int)
            &&& state.run(steps) == InterfaceView {
                bot: CoordinatorView {
                    pool: PoolView {
                        results: crate::channel::ChannelView {
                            queue: queue.skip(count as int),
                            ..state.bot.pool.results
                        },
                        ..state.bot.pool
                    },
                    ..state.bot
                },
                ..state
            }
        }),
    decreases count,
{
    let steps = Step::<P, L, T, R, D>::waits(count, Source::Results);
    let queue = state.bot.pool.results.queue;
    if count == 0 {
        assert(queue.skip(0) =~= queue);
        assert(state.integrated(steps) =~= queue.take(0));
    } else {
        let fewer = (count - 1) as nat;
        let earlier = Step::<P, L, T, R, D>::waits(fewer, Source::Results);
        assert(steps.drop_last() =~= earlier);
        assert(steps.last() == Step::<P, L, T, R, D>::Wait(Source::Results));
        lemma_waits_drain_the_sink(state, fewer);
        let before = state.run(earlier);
        assert(before.bot.pool.results.queue == queue.skip(fewer as int));
        assert(before.bot.wakeup(Source::Results) == Wakeup::<P, L, R>::Finished(
            queue[fewer as int],
        ));
        assert(queue.skip(fewer as int).skip(1) =~= queue.skip(count as int));
        assert(queue.take(fewer as int).push(queue[fewer as int]) =~= queue.take(count as int));
        assert(state.integrated(steps) =~= queue.take(count as int));
    }
}

/// Outcomes that arrive out of order do no harm. In a consistent, running
/// system whose sink is empty, let workers that hold a task hand in their
/// outcomes in any order whatever, and let the coordinator then wait once
/// for each, preferring outcomes: the algorithm is handed exactly these
/// outcomes in the order of their arrival, the system is consistent and
/// still running, and each of these workers is free for the next task.
pub proof fn lemma_outcomes_in_any_order_reach_the_algorithm<P, L, T, R, D>(
    state: InterfaceView<P, L, T, R, D>,
    order: Seq<int>,
    outcomes: Seq<R>,
)
    requires
        state.consistent(),
        !state.bot.stopped,
        !state.bot.pool.results.has_message(),
        order.len() == outcomes.len(),
        order.no_duplicates(),
        forall|i: int| 0 <= i < order.len() ==> state.bot.pool.is_busy(#[trigger] order[i]),
    ensures
        ({
            let steps = Step::<P, L, T, R, D>::completions(order, outcomes) + Step::<
                P,
                L,
                T,
                R,
                D,
            >::waits(order.len(), Source::Results);
            let end = state.run(steps);
            &&& state.integrated(steps) == outcomes
            &&& end.consistent()
            &&& !end.bot.stopped
            &&& !end.bot.pool.results.has_message()
            &&& forall|i: int| 0 <= i < order.len() ==> end.bot.pool.is_idle(#[trigger] order[i])
        }),
{
    let handing_in = Step::<P, L, T, R, D>::completions(order, outcomes);
    let waiting = Step::<P, L, T, R, D>::waits(order.len(), Source::Results);
    let middle = state.run(handing_in);
    lemma_completions_change_the_pool_only(state, order, outcomes);
    lemma_workers_finish_in_any_order(state.bot.pool, order, outcomes);
    assert(middle.bot.pool.results.queue =~= outcomes);
    lemma_waits_drain_the_sink(middle, order.len());
    lemma_run_in_two_parts(state, handing_in, waiting);
    lemma_steps_keep_consistency(state, handing_in + waiting);
    assert(outcomes.take(outcomes.len() as int) =~= outcomes);
    assert(state.integrated(handing_in + waiting) =~= outcomes);
    let end = state.run(handing_in + waiting);
    assert forall|i: int| 0 <= i < order.len() implies end.bot.pool.is_idle(
        #[trigger] order[i],
    ) by {
        assert(state.bot.pool.is_busy(order[i]));
        assert(order.contains(order[i]));
    }
}

/// A client that goes away ends the loop within one iteration: if no command
/// is under way when the client closes the command channel, the next wait in
/// which the command source wins the race finds the channel drained, and the
/// coordinator stops, closes all its channels and empties the supply.
pub proof fn lemma_disconnect_ends_the_loop<P, L, T, R, D>(
    state: InterfaceView<P, L, T, R, D>,
    prefer: Source,
)
    requires
        !state.bot.stopped,
        !state.bot.commands.has_message(),
        prefer == Source::Commands || !state.bot.results_ready(),
    ensures
        ({
            let end = state.step(Step::Disconnect).step(Step::Wait(prefer));
            &&& state.step(Step::Disconnect).bot.wakeup(prefer) == Wakeup::<P, L, R>::Closed
            &&& end.bot.stopped
            &&& end.bot.commands.closed
            &&& end.bot.outputs.closed
            &&& end.bot.pool.results.closed
            &&& end.bot.pool.supply.drained()
        }),
{
}

/// The coordinator never waits in vain: while it runs and at least one of
/// its two sources is ready, a wait ends with a command, an outcome or the
/// end of the loop, whichever source is preferred, and takes exactly one
/// item out or stops the coordinator.
pub proof fn lemma_wait_ends_when_a_source_is_ready<P, L, T, R, D>(
    bot: CoordinatorView<P, L, T, R, D>,
    prefer: Source,
)
    requires
        !bot.stopped,
        bot.commands_ready() || bot.results_ready(),
    ensures
        !(bot.wakeup(prefer) is Pending),
        bot.wakeup(prefer) is Message ==> bot.wait(prefer).commands.queue.len()
            == bot.commands.queue.len() - 1,
        bot.wakeup(prefer) is Finished ==> bot.wait(prefer).pool.results.queue.len()
            == bot.pool.results.queue.len() - 1,
        bot.wakeup(prefer) is Closed ==> bot.wait(prefer).stopped,
{
}

/// A wait is left pending only if the coordinator runs and neither source
/// has anything, and then it changes nothing.
pub proof fn lemma_wait_is_pending_only_when_idle<P, L, T, R, D>(
    bot: CoordinatorView<P, L, T, R, D>,
    prefer: Source,
)
    ensures
        bot.wakeup(prefer) is Pending <==> !bot.stopped && !bot.commands_ready()
            && !bot.results_ready(),
        bot.wakeup(prefer) is Pending ==> bot.wait(prefer) == bot,
{
    if bot.wakeup(prefer) is Pending {
        assert(bot.pool.results.recv() == bot.pool.results);
        assert(bot.pool.collect() == bot.pool);
    }
}

/// Neither source is drained before the other: when both are ready, the
/// preference alone decides which one a wait takes from.
pub proof fn lemma_race_has_no_fixed_winner<P, L, T, R, D>(bot: CoordinatorView<P, L, T, R, D>)
    requires
        !bot.stopped,
        bot.commands_ready(),
        bot.results_ready(),
    ensures
        bot.wakeup(Source::Results) == Wakeup::<P, L, R>::Finished(bot.pool.results.queue[0]),
        bot.commands.has_message() ==> bot.wakeup(Source::Commands) == Wakeup::<
            P,
            L,
            R,
        >::Message(bot.commands.queue[0]),
        !bot.commands.has_message() ==> bot.wakeup(Source::Commands) == Wakeup::<P, L, R>::Closed,
{
}

/// Work never stalls in a running system: while a task waits in the supply,
/// some worker can acquire it, or some worker holds a task and can hand in
/// its outcome.
pub proof fn lemma_waiting_task_finds_a_worker<P, L, T, R, D>(state: InterfaceView<P, L, T, R, D>)
    requires
        state.consistent(),
        !state.bot.stopped,
        state.bot.pool.supply.has_message(),
    ensures
        exists|worker: int|
            #![trigger state.bot.pool.acquired(worker)]
            state.bot.pool.acquired(worker) is Task || state.bot.pool.is_busy(worker),
{
    let pool = state.bot.pool;
    assert(pool.has_worker(0));
    if pool.has_exited(0) {
        assert(pool.supply.drained());
    }
    assert(pool.acquired(0) is Task || pool.is_busy(0));
}

/// No interleaving leads into a deadlock. Whatever steps a launched system
/// has taken, in whatever order: if its coordinator runs and one of the two
/// sources is ready, the next wait ends and changes the state; and if a task
/// waits in the supply, some worker can acquire it or can hand in the
/// outcome of the task that it holds.
pub proof fn lemma_no_run_ends_in_a_deadlock<P, L, T, R, D>(
    threads: nat,
    steps: Seq<Step<P, L, T, R, D>>,
    prefer: Source,
)
    requires
        threads >= 1,
    ensures
        ({
            let now = InterfaceView::<P, L, T, R, D>::fresh(threads).run(steps);
            &&& !now.bot.stopped && (now.bot.commands_ready() || now.bot.results_ready()) ==> {
                &&& !(now.bot.wakeup(prefer) is Pending)
                &&& now.step(Step::Wait(prefer)) != now
            }
            &&& !now.bot.stopped && now.bot.pool.supply.has_message() ==> exists|worker: int|
                #![trigger now.bot.pool.acquired(worker)]
                now.bot.pool.acquired(worker) is Task || now.bot.pool.is_busy(worker)
        }),
{
    let now = InterfaceView::<P, L, T, R, D>::fresh(threads).run(steps);
    lemma_reachable_states_are_consistent::<P, L, T, R, D>(threads, steps);
    if !now.bot.stopped {
        if now.bot.commands_ready() || now.bot.results_ready() {
            lemma_wait_ends_when_a_source_is_ready(now.bot, prefer);
            let then = now.step(Step::Wait(prefer));
            if now.bot.wakeup(prefer) is Message {
                assert(then.bot.commands.queue.len() != now.bot.commands.queue.len());
            } else if now.bot.wakeup(prefer) is Finished {
                assert(then.bot.pool.results.queue.len() != now.bot.pool.results.queue.len());
            } else {
                assert(then.bot.stopped);
            }
        }
        if now.bot.pool.supply.has_message() {
            lemma_waiting_task_finds_a_worker(now);
        }
    }
}

/// A coordinator that finds the command channel closed and drained leaves
/// its loop in that very wait, provided the command source wins the race:
/// it is preferred, or no outcome is ready.
pub proof fn lemma_closed_channel_ends_the_loop<P, L, T, R, D>(
    bot: CoordinatorView<P, L, T, R, D>,
    prefer: Source,
)
    requires
        !bot.stopped,
        bot.commands.drained(),
        prefer == Source::Commands || !bot.results_ready(),
    ensures
        bot.wakeup(prefer) == Wakeup::<P, L, R>::Closed,
        bot.wait(prefer) == bot.stop(),
{
}

/// A terminal state of the algorithm ends the loop at the next check.
pub proof fn lemma_terminal_state_ends_the_loop<P, L, T, R, D>(bot: CoordinatorView<P, L, T, R, D>)
    ensures
        !bot.keeps_running(true),
        bot.keep_running(true).stopped,
        !bot.stopped ==> bot.keep_running(true) == bot.stop(),
{
}

/// The loop ends for two reasons only: the algorithm reports a terminal
/// state at the check, or a wait finds the command channel closed and
/// drained.
pub proof fn lemma_loop_ends_for_two_reasons_only<P, L, T, R, D>(
    state: InterfaceView<P, L, T, R, D>,
    step: Step<P, L, T, R, D>,
)
    requires
        state.is_stop(step),
    ensures
        step == Step::<P, L, T, R, D>::KeepRunning(true) || (step is Wait
            && state.bot.commands.drained()),
{
}

/// Stopping is final. Once the coordinator has stopped it stays stopped, and
/// whatever steps follow, no task is dispatched, no decision is emitted, and
/// neither a command nor an outcome is handed to the algorithm.
pub proof fn lemma_nothing_moves_after_the_stop<P, L, T, R, D>(
    state: InterfaceView<P, L, T, R, D>,
    steps: Seq<Step<P, L, T, R, D>>,
)
    requires
        state.bot.stopped,
    ensures
        state.run(steps).bot.stopped,
        state.dispatched(steps) == Seq::<T>::empty(),
        state.announced(steps) == Seq::<D>::empty(),
        state.applied(steps) == Seq::<BotMsg<P, L>>::empty(),
        state.integrated(steps) == Seq::<R>::empty(),
    decreases steps.len(),
{
    if steps.len() > 0 {
        lemma_nothing_moves_after_the_stop(state, steps.drop_last());
        assert(state.dispatched(steps) =~= Seq::<T>::empty());
        assert(state.announced(steps) =~= Seq::<D>::empty());
        assert(state.applied(steps) =~= Seq::<BotMsg<P, L>>::empty());
        assert(state.integrated(steps) =~= Seq::<R>::empty());
    }
}

/// Stopping releases the workers. Once the coordinator of a consistent
/// system has stopped, a worker that tries to acquire a task gets none and
/// has left its loop afterwards, unless it still holds a task; and a worker
/// that holds a task may hand in its outcome, which goes nowhere, and is idle
/// afterwards.
pub proof fn lemma_stop_releases_the_workers<P, L, T, R, D>(
    state: InterfaceView<P, L, T, R, D>,
    worker: int,
    outcome: R,
)
    requires
        state.consistent(),
        state.bot.stopped,
        state.bot.pool.has_worker(worker),
    ensures
        !(state.bot.pool.acquired(worker) is Task),
        !state.bot.pool.is_busy(worker) ==> state.bot.pool.acquired(worker) == Acquired::<
            T,
        >::Closed && state.bot.pool.acquire(worker).has_exited(worker),
        state.bot.pool.is_busy(worker) ==> state.bot.pool.complete(worker, outcome).is_idle(worker)
            && state.bot.pool.complete(worker, outcome).results == state.bot.pool.results,
{
}

/// After the stop no worker is handed a task again.
pub proof fn lemma_no_delivery_after_the_stop<P, L, T, R, D>(
    state: InterfaceView<P, L, T, R, D>,
    steps: Seq<Step<P, L, T, R, D>>,
)
    requires
        state.consistent(),
        state.bot.stopped,
    ensures
        state.delivered(steps) == Seq::<T>::empty(),
    decreases steps.len(),
{
    if steps.len() > 0 {
        lemma_no_delivery_after_the_stop(state, steps.drop_last());
        lemma_nothing_moves_after_the_stop(state, steps.drop_last());
        lemma_steps_keep_consistency(state, steps.drop_last());
        assert(state.delivered(steps) =~= Seq::<T>::empty());
    }
}

} // verus!
