//! A publish/subscribe engine with a FIFO queue, a bounded number of
//! dispatches in flight and an add-only subscriber registry, together with
//! the configuration values of the service that hosts it.

pub mod config;
pub mod engine;
pub mod event_bus;
pub mod laws;
pub mod model;
pub mod steps;
