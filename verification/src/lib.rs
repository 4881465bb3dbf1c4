//! In-memory coordination ledger for a crowd-sourced compute network.
//!
//! Participants pledge resource capacity, models are gated by an aggregate
//! resource threshold, work is handed out as opaque chunks that earn reward
//! credits on submission, and training tasks carry opaque training data
//! through to opaque trained weights.  The ledger owns all of this state and
//! its contracts pin down every operation's effect on it.
#![verifier::loop_isolation(false)]

pub mod completion;
pub mod errors;
pub mod helpers;
pub mod laws;
pub mod lookup;
pub mod model_chunk;
pub mod task_manager;
pub mod task_manager_impl;
pub mod training_task;
pub mod user;
