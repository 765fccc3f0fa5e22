//! The MCP protocol side: JSON-RPC messages, the client's requests and replies, and
//! the decisions of the three transports.
pub mod client;
pub mod sse;
pub mod stdio;
pub mod streamable_http;
pub mod types;
