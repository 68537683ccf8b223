//! A fixed-size worker pool, kept as an explicit state machine.
//!
//! The pool owns a FIFO queue of messages and a fixed set of worker records.
//! Every operation is one atomic transition of that state: submitting a job,
//! a worker taking the next message, a worker finishing its job, the pool
//! starting to shut down, the pool joining a worker. Whoever holds the pool
//! behind a lock and runs the jobs on real threads gets a pool whose
//! scheduling decisions are all made, and proved, here.
//!
//! `model` holds the mathematical state, its transitions and its
//! invariant; `laws` what follows for every schedule; `pool` the executable
//! pool. Around the pool stands a small web server: `http` finds the route
//! of a request and builds the bytes of the answer, `cards` and `blackjack`
//! keep the game that one of the routes deals.

pub mod blackjack;
pub mod cards;
pub mod http;
pub mod laws;
pub mod model;
pub mod pool;

pub use crate::pool::ThreadPool;
