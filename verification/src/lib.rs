//! Verified core of a Yellowstone gRPC ingestion pipeline.
//!
//! The library models the connect -> subscribe -> consume -> dispatch
//! lifecycle of a Geyser update stream: endpoint validation, subscription
//! filter construction and its wire codec, classification of incoming
//! updates, and the per-message consumption policy. Network I/O itself is
//! left to the surrounding application, which hands the library plain
//! values and drives the verified per-item step function.

pub mod client;
pub mod errors;
pub mod log;
pub mod subscriptions;
pub mod update;
