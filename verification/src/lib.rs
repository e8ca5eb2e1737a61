//! A content-addressable trade approval workflow.
//!
//! A trade's lifecycle is recorded as an append-only chain of witnesses; its
//! current state is never stored but derived by replaying that chain. Trade
//! details are immutable records identified by the hash of their canonical
//! binary encoding.

pub mod codec;
pub mod context;
pub mod error;
pub mod laws;
pub mod service;
pub mod trade;
pub mod utils;
