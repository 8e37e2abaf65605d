//! Session control and derived metrics for an operator dashboard of a
//! clustered event store.
//!
//! The library owns the navigation state, the per-view stage machines and the
//! engines that turn successive raw snapshots into rates, lag indicators and
//! cluster-health counters. Fetching snapshots and painting the terminal are
//! left to the program around it.

pub mod request;
pub mod keys;
pub mod failure;
pub mod text;
pub mod fixed;
pub mod catalog;
pub mod schedule;
pub mod models;
pub mod views;
