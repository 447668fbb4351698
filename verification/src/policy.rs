//! Policy evaluation and storage quotas.

pub mod engine;
pub mod quota;
