//! Write-ahead-log budgets: which statements may generate how much WAL, by policy scope.
//!
//! The library holds the decisions: policy validation and matching, WAL prediction, token-bucket
//! admission, reconciliation of predictions with measurements, and the shared tables that all of
//! this is kept in. Reading the database, the clock and the settings is left to the caller, who
//! hands in plain values.

pub mod admission;
pub mod budget;
pub mod catalog;
pub mod errors;
pub mod guc;
pub mod lifecycle;
pub mod policy;
pub mod policy_cache;
pub mod predict;
pub mod privileges;
pub mod profile;
pub mod profile_store;
pub mod reconcile;
pub mod scope;
pub mod seqs;
pub mod shmem;
pub mod stats;
pub mod text;
pub mod time;
pub mod types;
pub mod utility;
