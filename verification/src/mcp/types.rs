//! JSON-RPC 2.0 and MCP message types.
use vstd::prelude::*;

use crate::json::{Json, JsonValue};
use crate::text::{concat, owned};

verus! {

/// A tool that an MCP server offers.
#[derive(Debug)]
pub struct Tool {
    pub name: String,
    pub description: Option<String>,
    /// The JSON Schema of the tool's arguments.
    pub input_schema: JsonValue,
}

/// The mathematical form of a tool.
pub struct ToolView {
    pub name: Seq<char>,
    pub description: Option<Seq<char>>,
    pub input_schema: Json,
}

impl View for Tool {
    type V = ToolView;

    open spec fn view(&self) -> ToolView {
        ToolView {
            name: self.name@,
            description: match self.description {
                Some(d) => Some(d@),
                None => None,
            },
            input_schema: self.input_schema@,
        }
    }
}

impl Tool {
    /// A copy of the tool.
    pub fn copy(&self) -> (r: Tool)
        ensures
            r@ == self@,
    {
        Tool {
            name: self.name.clone(),
            description: match &self.description {
                Some(d) => Some(d.clone()),
                None => None,
            },
            input_schema: self.input_schema.deep_clone(),
        }
    }
}

/// The views of a sequence of tools.
pub open spec fn tool_views(ts: Seq<Tool>) -> Seq<ToolView> {
    ts.map_values(|t: Tool| t@)
}

/// A JSON-RPC 2.0 request; one without an id is a notification.
#[derive(Debug)]
pub struct JsonRpcRequest {
    pub jsonrpc: String,
    pub id: Option<i64>,
    pub method: String,
    pub params: Option<JsonValue>,
}

/// The mathematical form of a JSON-RPC request.
pub struct RequestView {
    pub jsonrpc: Seq<char>,
    pub id: Option<i64>,
    pub method: Seq<char>,
    pub params: Option<Json>,
}

impl View for JsonRpcRequest {
    type V = RequestView;

    open spec fn view(&self) -> RequestView {
        RequestView {
            jsonrpc: self.jsonrpc@,
            id: self.id,
            method: self.method@,
            params: match self.params {
                Some(p) => Some(p@),
                None => None,
            },
        }
    }
}

/// The request `method` with `params`, numbered `id`.
pub open spec fn request_spec(id: Option<i64>, method: Seq<char>, params: Option<Json>) -> RequestView {
    RequestView { jsonrpc: "2.0"@, id, method, params }
}

impl JsonRpcRequest {
    /// A request numbered `id`.
    pub fn new(id: i64, method: &str, params: Option<JsonValue>) -> (r: JsonRpcRequest)
        ensures
            r@ == request_spec(
                Some(id),
                method@,
                match params {
                    Some(p) => Some(p@),
                    None => None,
                },
            ),
    {
        JsonRpcRequest { jsonrpc: owned("2.0"), id: Some(id), method: owned(method), params }
    }

    /// A notification: a request without an id.
    pub fn notification(method: &str, params: Option<JsonValue>) -> (r: JsonRpcRequest)
        ensures
            r@ == request_spec(
                None,
                method@,
                match params {
                    Some(p) => Some(p@),
                    None => None,
                },
            ),
    {
        JsonRpcRequest { jsonrpc: owned("2.0"), id: None, method: owned(method), params }
    }
}

/// The numbering of requests: 1, 2, 3, ...
#[derive(Debug)]
pub struct RequestIds {
    pub next: i64,
}

impl RequestIds {
    /// Numbering that starts at 1.
    pub fn new() -> (r: RequestIds)
        ensures
            r.next == 1,
    {
        RequestIds { next: 1 }
    }

    /// Hands out the next number.
    pub fn next_id(&mut self) -> (id: i64)
        requires
            old(self).next < i64::MAX,
        ensures
            id == old(self).next,
            final(self).next == old(self).next + 1,
    {
        let id = self.next;
        self.next = self.next + 1;
        id
    }
}

/// Why a transport could not deliver a request or a reply.
#[derive(Debug, Clone, PartialEq)]
pub enum TransportError {
    /// The SSE stream has not announced where to post messages.
    NoEndpoint,
    /// The SSE stream ended before announcing where to post messages.
    ClosedWithoutEndpoint,
    /// Opening the SSE stream failed with the status shown.
    ConnectFailed { status: String },
    /// Posting to the SSE message endpoint was refused with 405.
    PostNotAllowed,
    /// Posting to the SSE message endpoint failed with the status shown.
    PostFailed { status: String },
    /// The stdio server answered with an empty line.
    EmptyStdioResponse,
    /// The streamable HTTP server answered with an empty body.
    EmptyHttpResponse,
}

impl TransportError {
    /// The text that reports this error.
    pub fn message(&self) -> (r: String)
        ensures
            r@ == match self {
                TransportError::NoEndpoint => "Message endpoint not available"@,
                TransportError::ClosedWithoutEndpoint => "SSE connection closed without endpoint event"@,
                TransportError::ConnectFailed { status } => "SSE connection failed with status: "@
                    + status@,
                TransportError::PostNotAllowed => "SSE message endpoint returned 405 Method Not Allowed, the server may not support POST messaging"@,
                TransportError::PostFailed { status } => "SSE POST failed with status: "@ + status@,
                TransportError::EmptyStdioResponse => "Empty response from MCP server"@,
                TransportError::EmptyHttpResponse => "Empty response from streamable HTTP server"@,
            },
    {
        match self {
            TransportError::NoEndpoint => owned("Message endpoint not available"),
            TransportError::ClosedWithoutEndpoint => owned(
                "SSE connection closed without endpoint event",
            ),
            TransportError::ConnectFailed { status } => concat(
                "SSE connection failed with status: ",
                status.as_str(),
            ),
            TransportError::PostNotAllowed => owned(
                "SSE message endpoint returned 405 Method Not Allowed, the server may not support POST messaging",
            ),
            TransportError::PostFailed { status } => concat(
                "SSE POST failed with status: ",
                status.as_str(),
            ),
            TransportError::EmptyStdioResponse => owned("Empty response from MCP server"),
            TransportError::EmptyHttpResponse => owned(
                "Empty response from streamable HTTP server",
            ),
        }
    }
}

/// An HTTP status in the 2xx range (`StatusCode::is_success`).
pub open spec fn is_success_status(code: u16) -> bool {
    200 <= code < 300
}

/// Whether an HTTP status is in the 2xx range.
pub fn is_success(code: u16) -> (r: bool)
    ensures
        r == is_success_status(code),
{
    200 <= code && code < 300
}

} // verus!
