//! An MCP-to-OpenAPI proxy's logic: its configuration, the MCP protocol's messages and
//! transport decisions, the OpenAPI documents it serves, and its HTTP replies.
use vstd::prelude::*;

pub mod auth;
pub mod cli;
pub mod config;
pub mod connection;
pub mod header;
pub mod json;
pub mod mcp;
pub mod openapi;
pub mod reload;
pub mod server;
pub mod text;
pub mod watcher;

verus! {
} // verus!
