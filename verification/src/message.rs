//! The commands that a client sends to the coordinator.

use vstd::prelude::*;

verus! {

/// A command from the client handle to the coordinator.
///
/// `P` is the type of a piece and `L` the type of a placement. Neither is
/// looked into here: a command is carried to the search algorithm as it is.
#[derive(Debug, PartialEq, Eq)]
pub enum BotMsg<P, L> {
    /// Provide a move as soon as possible; the number is the lead time that
    /// the client announces for it.
    NextMove(u32),
    /// A new piece was added to the end of the queue.
    NewPiece(P),
    /// The playfield, the back-to-back status and the combo count were set
    /// from outside: what was computed for the old field is void.
    Reset { field: [[bool; 10]; 40], b2b: bool, combo: u32 },
    /// Analyse this line of placements before choosing freely among others.
    ForceAnalysisLine(Vec<L>),
}

} // verus!
