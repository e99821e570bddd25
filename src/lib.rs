//! Intake and dispatch of judge requests: deliveries from a message broker
//! are decoded, queued, handed to a fixed pool of workers, and each one is
//! settled with the broker exactly once.

pub mod broker;
pub mod intake;
pub mod pipeline;
pub mod schema;
pub mod signal;
pub mod worker;
