//! The stdio transport's framing: one JSON message per line.
use vstd::prelude::*;

use crate::json::JsonValue;
use crate::mcp::types::{request_spec, JsonRpcRequest, TransportError};
use crate::text::{concat, trim, trim_spec};

verus! {

/// The request that the stdio transport writes for `method`: it always carries id 1.
pub fn stdio_request(method: &str, params: Option<JsonValue>) -> (r: JsonRpcRequest)
    ensures
        r@ == request_spec(
            Some(1),
            method@,
            match params {
                Some(p) => Some(p@),
                None => None,
            },
        ),
{
    JsonRpcRequest::new(1, method, params)
}

/// A serialised message as one line: the message followed by a line feed.
pub fn frame_message(json: &str) -> (r: String)
    ensures
        r@ == json@ + "\n"@,
{
    concat(json, "\n")
}

/// The JSON text of a reply line: the line without surrounding white space, which
/// must not be empty.
pub fn check_response_line(line: &str) -> (r: Result<String, TransportError>)
    ensures
        trim_spec(line@).len() == 0 ==> r matches Err(TransportError::EmptyStdioResponse),
        trim_spec(line@).len() != 0 ==> (r matches Ok(t) && t@ == trim_spec(line@)),
{
    let t = trim(line);
    if t.as_str().unicode_len() == 0 {
        Err(TransportError::EmptyStdioResponse)
    } else {
        Ok(t)
    }
}

} // verus!
