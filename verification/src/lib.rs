//! Resilient mutually-authenticated relay primitive: a bounded-retry channel
//! bootstrapper, a single-flight forwarding gateway with correlation-id
//! threading, and the terminal in-memory relay store.

pub mod bootstrap;
pub mod channel;
pub mod gateway;
mod ids;
pub mod proto;
pub mod store;
