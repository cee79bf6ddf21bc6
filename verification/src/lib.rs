//! A small MCP (Model Context Protocol) tool server core: a JSON-RPC 2.0
//! dispatcher, a static tool registry, and the tool executors (echo, reverse,
//! counter increment, current time, dice roll, docs fetch-and-summarize).
//! Transports (stdio lines, HTTP, SSE) live outside the library and hand it
//! plain values.
use vstd::prelude::*;

pub mod dto;
pub mod emit;
pub mod json;
pub mod rpc;
pub mod text;
pub mod tools;

verus! {

/// The protocol version this server advertises.
pub fn protocol_version() -> (r: &'static str)
    ensures
        r@ == "2025-03-26"@,
{
    "2025-03-26"
}

} // verus!
