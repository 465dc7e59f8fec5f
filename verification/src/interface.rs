//! The client handle: the only object that the surrounding application
//! touches.

use crate::coordinator::{Coordinator, CoordinatorView};
use crate::message::BotMsg;
use vstd::prelude::*;

verus! {

/// What an [`Interface`] stands for: the liveness flag and the bot behind
/// the handle.
pub struct InterfaceView<P, L, T, R, D> {
    /// Whether a send to the coordinator has failed.
    pub dead: bool,
    /// The coordinator with its pool and channels.
    pub bot: CoordinatorView<P, L, T, R, D>,
}

impl<P, L, T, R, D> InterfaceView<P, L, T, R, D> {
    /// A live handle in front of a running coordinator with `threads` idle
    /// workers.
    pub open spec fn fresh(threads: nat) -> Self {
        InterfaceView { dead: false, bot: CoordinatorView::fresh(threads) }
    }

    /// The handle after the client asked it to send `msg`. A dead handle
    /// sends nothing. A live one tries; if the command channel is closed the
    /// send fails, which makes the handle dead.
    pub open spec fn submit(self, msg: BotMsg<P, L>) -> Self {
        if self.dead {
            self
        } else if self.bot.commands.closed {
            InterfaceView { dead: true, ..self }
        } else {
            InterfaceView { bot: self.bot.send(msg), ..self }
        }
    }

    /// The handle after the client polled for a decision.
    pub open spec fn poll(self) -> Self {
        InterfaceView { bot: self.bot.poll(), ..self }
    }

    /// The handle after the client closed the command channel.
    pub open spec fn disconnect(self) -> Self {
        InterfaceView { bot: self.bot.hang_up(), ..self }
    }
}

/// The handle through which a client talks to its bot.
///
/// `P` is the type of a piece, `L` of a placement, `T` of a task, `R` of the
/// outcome of a task and `D` of a decision. None of them is looked into.
pub struct Interface<P, L, T, R, D> {
    dead: bool,
    worker: Coordinator<P, L, T, R, D>,
}

impl<P, L, T, R, D> View for Interface<P, L, T, R, D> {
    type V = InterfaceView<P, L, T, R, D>;

    closed spec fn view(&self) -> InterfaceView<P, L, T, R, D> {
        InterfaceView { dead: self.dead, bot: self.worker@ }
    }
}

impl<P, L, T, R, D> Interface<P, L, T, R, D> {
    /// Launches a bot with a pool of `threads` workers.
    pub fn launch(threads: u32) -> (handle: Self)
        requires
            threads >= 1,
        ensures
            handle@ == InterfaceView::<P, L, T, R, D>::fresh(threads as nat),
    {
        Interface { dead: false, worker: Coordinator::new(threads) }
    }

    /// Launches a bot with a pool of `threads` workers, or none at all if
    /// `threads` is zero.
    pub fn try_launch(threads: u32) -> (handle: Option<Self>)
        ensures
            threads == 0 ==> handle is None,
            threads >= 1 ==> handle is Some
                && handle->0@ == InterfaceView::<P, L, T, R, D>::fresh(threads as nat),
    {
        if threads == 0 {
            None
        } else {
            Some(Self::launch(threads))
        }
    }

    /// Returns true once a send to the coordinator has failed, which happens
    /// after the coordinator has stopped: the algorithm found that every
    /// continuation is lost, or the command channel was closed.
    pub fn is_dead(&self) -> (dead: bool)
        ensures
            dead == self@.dead,
    {
        self.dead
    }

    fn submit(&mut self, msg: BotMsg<P, L>)
        ensures
            final(self)@ == old(self)@.submit(msg),
    {
        if !self.dead {
            if self.worker.send(msg).is_err() {
                self.dead = true;
            }
        }
    }

    /// Requests the bot to provide a move as soon as possible.
    ///
    /// Once a move is chosen it becomes available through
    /// [`poll_next_move`](Self::poll_next_move).
    pub fn request_next_move(&mut self, incoming: u32)
        ensures
            final(self)@ == old(self)@.submit(BotMsg::NextMove(incoming)),
    {
        self.submit(BotMsg::NextMove(incoming));
    }

    /// Checks whether the bot has provided a requested move yet. Never
    /// blocks: returns the oldest decision that was not polled before, or
    /// `None` if there is none.
    pub fn poll_next_move(&mut self) -> (decision: Option<D>)
        ensures
            final(self)@ == old(self)@.poll(),
            decision == old(self)@.bot.outputs.front(),
    {
        self.worker.try_recv()
    }

    /// Adds a new piece to the end of the queue.
    pub fn add_next_piece(&mut self, piece: P)
        ensures
            final(self)@ == old(self)@.submit(BotMsg::NewPiece(piece)),
    {
        self.submit(BotMsg::NewPiece(piece));
    }

    /// Resets the playfield, the back-to-back status and the combo count.
    ///
    /// Tasks that were dispatched for the old field are not cancelled; their
    /// outcomes still reach the algorithm, which has to tell them apart.
    pub fn reset(&mut self, field: [[bool; 10]; 40], b2b_active: bool, combo: u32)
        ensures
            final(self)@ == old(self)@.submit(
                (BotMsg::Reset { field, b2b: b2b_active, combo }),
            ),
    {
        self.submit(BotMsg::Reset { field, b2b: b2b_active, combo });
    }

    /// Specifies a line that the bot should analyse before making any moves.
    pub fn force_analysis_line(&mut self, path: Vec<L>)
        ensures
            final(self)@ == old(self)@.submit(BotMsg::ForceAnalysisLine(path)),
    {
        self.submit(BotMsg::ForceAnalysisLine(path));
    }

    /// Closes the command channel, as dropping the client's end of it does.
    /// The coordinator still receives what was sent before and stops when it
    /// finds the channel drained.
    pub fn disconnect(&mut self)
        ensures
            final(self)@ == old(self)@.disconnect(),
    {
        self.worker.hang_up();
    }

    /// The bot behind the handle, for the host that runs the coordinator's
    /// loop and the workers. The liveness flag is out of its reach.
    pub fn coordinator(&mut self) -> (bot: &mut Coordinator<P, L, T, R, D>)
        ensures
            bot@ == old(self)@.bot,
            final(self)@ == (InterfaceView { dead: old(self)@.dead, bot: final(bot)@ }),
    {
        &mut self.worker
    }
}

} // verus!
