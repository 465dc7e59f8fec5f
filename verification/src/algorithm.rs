//! What the coordinator and the workers need from the search: an algorithm
//! that owns the decision state, and tasks that can be executed.
//!
//! Nothing is assumed of an implementation beyond its signatures. Whatever
//! it returns, the orchestration around it keeps its own promises.

use crate::message::BotMsg;
use vstd::prelude::*;

verus! {

/// The search algorithm and its state, as the coordinator uses it.
///
/// `P` is the type of a piece, `L` of a placement, `T` of a task, `R` of the
/// outcome of a task and `D` of a decision.
pub trait Algorithm<P, L, T, R, D> {
    /// Whether the state is terminal: every possible continuation is lost.
    fn is_terminal(&self) -> bool;

    /// Produces the tasks that should run next and the decisions that are
    /// ready. Called once in every iteration of the coordinator's loop.
    fn advance(&mut self) -> (Vec<T>, Vec<D>);

    /// Takes in the outcome of one task. Outcomes come in the order in which
    /// the workers finish; one that belongs to a state that a command has
    /// replaced since is handed over like any other, and it is for the
    /// algorithm to recognise and drop it.
    fn integrate(&mut self, outcome: R);

    /// Applies one command of the client.
    fn apply(&mut self, command: BotMsg<P, L>);
}

/// A task that a worker can execute, yielding an outcome of type `R`.
pub trait Job<R> {
    /// Executes the task to completion.
    fn run(self) -> R;
}

} // verus!
