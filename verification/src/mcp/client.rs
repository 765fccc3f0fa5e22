//! The MCP client's requests and the reading of its replies.
use vstd::prelude::*;

use crate::json::{
    as_text, get_member, members_view, push_member, text_value, Json, JsonValue,
};
use crate::mcp::types::Tool;
use crate::text::{concat, owned};

verus! {

/// What a connected server told the client: its tools and its answer to `initialize`.
#[derive(Debug)]
pub struct McpSession {
    pub tools: Vec<Tool>,
    pub initialize_result: JsonValue,
}

impl McpSession {
    /// A copy of the session.
    pub fn copy(&self) -> (r: McpSession)
        ensures
            r.tools@.len() == self.tools@.len(),
            forall|i: int| 0 <= i < r.tools@.len() ==> #[trigger] r.tools@[i]@ == self.tools@[i]@,
            r.initialize_result@ == self.initialize_result@,
    {
        let mut tools: Vec<Tool> = Vec::new();
        let n = self.tools.len();
        for i in 0..n
            invariant
                n == self.tools@.len(),
                tools@.len() == i,
                forall|j: int| 0 <= j < i ==> #[trigger] tools@[j]@ == self.tools@[j]@,
        {
            tools.push(self.tools[i].copy());
        }
        McpSession { tools, initialize_result: self.initialize_result.deep_clone() }
    }
}

/// The method that opens a session.
pub const METHOD_INITIALIZE: &'static str = "initialize";

/// The notification that follows a successful `initialize`.
pub const METHOD_INITIALIZED: &'static str = "notifications/initialized";

/// The method that lists a server's tools.
pub const METHOD_LIST_TOOLS: &'static str = "tools/list";

/// The method that calls a tool.
pub const METHOD_CALL_TOOL: &'static str = "tools/call";

/// An empty object.
pub open spec fn empty_object() -> Json {
    Json::Object(Seq::empty())
}

/// The parameters of `initialize`: the protocol version, no capabilities, and the
/// client's name and version.
pub open spec fn initialize_params_spec() -> Json {
    Json::Object(
        seq![
            ("protocolVersion"@, Json::Str("2024-11-05"@)),
            ("capabilities"@, empty_object()),
            (
                "clientInfo"@,
                Json::Object(
                    seq![("name"@, Json::Str("mcpo-rs"@)), ("version"@, Json::Str("0.1.0"@))],
                ),
            ),
        ],
    )
}

/// An empty object.
pub fn empty_object_value() -> (r: JsonValue)
    ensures
        r@ == empty_object(),
{
    let ms: Vec<(String, JsonValue)> = Vec::new();
    assert(members_view(ms@) =~= Seq::empty());
    JsonValue::Object(ms)
}

/// The parameters of `initialize`.
pub fn initialize_params() -> (r: JsonValue)
    ensures
        r@ == initialize_params_spec(),
{
    let mut info: Vec<(String, JsonValue)> = Vec::new();
    assert(members_view(info@) =~= Seq::empty());
    push_member(&mut info, "name", text_value("mcpo-rs"));
    push_member(&mut info, "version", text_value("0.1.0"));
    assert(members_view(info@) =~= seq![
        ("name"@, Json::Str("mcpo-rs"@)),
        ("version"@, Json::Str("0.1.0"@)),
    ]);
    let mut ms: Vec<(String, JsonValue)> = Vec::new();
    assert(members_view(ms@) =~= Seq::empty());
    push_member(&mut ms, "protocolVersion", text_value("2024-11-05"));
    push_member(&mut ms, "capabilities", empty_object_value());
    push_member(&mut ms, "clientInfo", JsonValue::Object(info));
    assert(members_view(ms@) =~= initialize_params_spec()->Object_0);
    JsonValue::Object(ms)
}

/// The parameters of `tools/call`: the tool's name and its arguments (an empty object
/// when none are given).
pub open spec fn call_tool_params_spec(name: Seq<char>, arguments: Option<Json>) -> Json {
    Json::Object(
        seq![
            ("name"@, Json::Str(name)),
            (
                "arguments"@,
                match arguments {
                    Some(a) => a,
                    None => empty_object(),
                },
            ),
        ],
    )
}

/// The parameters of `tools/call`.
pub fn call_tool_params(name: &str, arguments: Option<JsonValue>) -> (r: JsonValue)
    ensures
        r@ == call_tool_params_spec(
            name@,
            match arguments {
                Some(a) => Some(a@),
                None => None,
            },
        ),
{
    let args = match arguments {
        Some(a) => a,
        None => empty_object_value(),
    };
    let mut ms: Vec<(String, JsonValue)> = Vec::new();
    assert(members_view(ms@) =~= Seq::empty());
    push_member(&mut ms, "name", text_value(name));
    push_member(&mut ms, "arguments", args);
    assert(members_view(ms@) =~= call_tool_params_spec(
        name@,
        match arguments {
            Some(a) => Some(a@),
            None => None,
        },
    )->Object_0);
    JsonValue::Object(ms)
}

/// Why a JSON-RPC reply carries no result.
#[derive(Debug, Clone, PartialEq)]
pub enum RpcError {
    /// The reply reports an error, with this message.
    Remote { message: String },
    /// The reply has neither an error nor a result.
    MissingResult,
}

/// The outcome of a JSON-RPC reply, in mathematical form.
pub enum RpcOutcome {
    Result(Json),
    Remote(Seq<char>),
    MissingResult,
}

/// What a reply holds: its error's message (or "unknown RPC error" when the error has
/// no text message) if it has an `error` member, else its `result` member.
pub open spec fn reply_outcome(response: Json) -> RpcOutcome {
    match get_member(response, "error"@) {
        Some(err) => RpcOutcome::Remote(
            match get_member(err, "message"@) {
                Some(m) => match as_text(m) {
                    Some(t) => t,
                    None => "unknown RPC error"@,
                },
                None => "unknown RPC error"@,
            },
        ),
        None => match get_member(response, "result"@) {
            Some(res) => RpcOutcome::Result(res),
            None => RpcOutcome::MissingResult,
        },
    }
}

/// The result of a JSON-RPC reply, or why there is none.
pub fn extract_result(response: &JsonValue) -> (r: Result<JsonValue, RpcError>)
    ensures
        match (reply_outcome(response@), r) {
            (RpcOutcome::Result(v), Ok(x)) => x@ == v,
            (RpcOutcome::Remote(m), Err(RpcError::Remote { message })) => message@ == m,
            (RpcOutcome::MissingResult, Err(RpcError::MissingResult)) => true,
            _ => false,
        },
{
    if let Some(err) = response.get("error") {
        let msg = match err.get("message") {
            Some(m) => match m.as_str() {
                Some(t) => t.clone(),
                None => owned("unknown RPC error"),
            },
            None => owned("unknown RPC error"),
        };
        return Err(RpcError::Remote { message: msg });
    }
    match response.get("result") {
        Some(res) => Ok(res.deep_clone()),
        None => Err(RpcError::MissingResult),
    }
}

impl RpcError {
    /// The text that reports this error.
    pub fn message(&self) -> (r: String)
        ensures
            match self {
                RpcError::Remote { message } => r@ == "MCP RPC error: "@ + message@,
                RpcError::MissingResult => r@ == "JSON-RPC response missing 'result' field"@,
            },
    {
        match self {
            RpcError::Remote { message } => concat("MCP RPC error: ", message.as_str()),
            RpcError::MissingResult => owned("JSON-RPC response missing 'result' field"),
        }
    }
}

} // verus!
