//! The views of the session, one per tab, and the session that drives them.

pub mod stream_browser;
pub mod dashboard;
pub mod projections;
pub mod persistent_subscriptions;
pub mod monitoring;
pub mod context;
pub mod line_numbers;
pub mod layout;
pub mod legend;
