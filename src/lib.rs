//! Driver supervision and transaction dispatch for an optimistic-rollup
//! challenger agent.
//!
//! The library holds the parts of the agent that decide: the driver
//! configuration with its bounded dispatch channel, the dispatch driver's
//! state machine (signing, submission, bounded retry with exponential backoff,
//! confirmation), and the supervisor that ends the process on the first
//! driver failure. The I/O around them (the chain connection, the task set,
//! the timers) is run by the caller, which performs the actions these state
//! machines return and hands back what happened as events.

pub mod address;
pub mod channel;
pub mod config;
pub mod dispatch;
pub mod supervisor;
pub mod trace;
pub mod verbosity;
