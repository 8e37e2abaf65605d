//! The derived-metrics engines: each turns one poll's snapshot, together with
//! what it kept of the polls before, into what the views show.

pub mod monitoring;
pub mod persistent_subscriptions;
pub mod projections;
pub mod resource_queues;
pub mod stats;
