//! A small chat service: wire protocol, account stores and request handling.

use vstd::prelude::*;

pub mod cli;
pub mod client;
pub mod durable;
pub mod handler;
pub mod lamport;
pub mod laws;
pub mod listing;
pub mod store;
pub mod text;
pub mod volatile;
pub mod wire;

verus! {

/// Arbitrary local port for client and server communications.
pub const WIRE_PORT: u16 = 5722;

} // verus!
