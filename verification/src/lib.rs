//! Core of a federated mint: the rules by which federation members agree on
//! epochs and apply them, and by which clients fold peer answers into one.
//!
//! Everything here is plain computation over plain values. Network, storage
//! and timers live in the surrounding program, which feeds events in and
//! carries actions out.

pub mod types;
pub mod registry;
pub mod config;
pub mod api;
pub mod crypto;
pub mod channel;
pub mod codec;
pub mod epoch;
pub mod engine;
pub mod query;
pub mod proposer;
pub mod startup;
pub mod clientd;
pub mod gateway;
pub mod server;
