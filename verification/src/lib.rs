//! Escrow settlement for multi-milestone shipments.
use vstd::prelude::*;

pub mod types;
pub mod model;
pub mod lemmas;
pub mod settlement;
pub mod laws;
pub mod operations;
pub mod create;
pub mod config;
pub mod queries;
pub mod ledger;
pub mod outcomes;

verus! {
}
