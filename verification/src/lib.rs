//! A Lightning watchtower client library.
//!
//! The client delivers encrypted justice transactions ("appointments") to
//! one or more remote watchtower services each time a channel commitment
//! is revoked, and manages the lifecycle of the relationship with each
//! tower: registration, subscription accounting, reachability, misbehavior
//! detection and retry.

pub mod byteops;
pub mod types;
pub mod cryptography;
pub mod receipts;
pub mod store;
pub mod wt_client;
pub mod dispatch;
pub mod retrier;
pub mod config;
