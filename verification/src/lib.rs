//! Orchestration core of a move-search bot.
//!
//! A client handle sends commands to a coordinator, the coordinator fans the
//! work that a search algorithm generates out to a fixed pool of workers, and
//! whatever the workers finish is handed back to the algorithm in the order
//! of completion. Every hand-off moves a value through a FIFO channel.
//!
//! The units do not run by themselves: a host calls one step at a time and
//! thereby decides the interleaving. Each step is a total function of the
//! state and its arguments, so every contract below holds under every
//! schedule the host may pick.
//!
//! - [`interface`]: the client handle and its liveness flag.
//! - [`coordinator`]: the coordinator's loop, one half of an iteration at a
//!   time.
//! - [`pool`]: the workers, the task supply and the sink for outcomes.
//! - [`channel`]: the FIFO path that every message takes.
//! - [`message`]: the commands of the client.
//! - [`algorithm`]: what is asked of the search algorithm and of its tasks.
//! - [`trace`]: runs of the whole system as sequences of steps.
//! - [`laws`]: what is proved of every run.

pub mod algorithm;
pub mod channel;
pub mod coordinator;
pub mod interface;
pub mod laws;
pub mod message;
pub mod pool;
pub mod trace;
