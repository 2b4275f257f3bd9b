//! Core of a task and time-tracking service: task lifecycle, at-most-one
//! active timer per task, derived time aggregates, a role-gated user
//! administration policy, and a per-user/per-project time report.
//!
//! The durable store is modeled as a value (`store::Store`); every operation
//! is a verified transition from one store value to the next, and an
//! unverified outer layer is expected to mirror each transition onto the real
//! database.

use vstd::prelude::*;

pub mod adapters;
pub mod aggregate;
pub mod auth;
pub mod laws;
pub mod model;
pub mod report;
pub mod seqtools;
pub mod store;
pub mod tasks;
pub mod timers;

verus! {

} // verus!
