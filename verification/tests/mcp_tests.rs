use mcpo::json::{json_eq, JsonValue};
use mcpo::mcp::client::{
    call_tool_params, extract_result, initialize_params, RpcError, METHOD_CALL_TOOL,
    METHOD_INITIALIZE, METHOD_INITIALIZED, METHOD_LIST_TOOLS,
};
use mcpo::mcp::sse::{check_connect_status, check_post_status, SseEndpointParser, SseSession};
use mcpo::mcp::stdio::{check_response_line, frame_message, stdio_request};
use mcpo::mcp::streamable_http::{check_response_body, StreamableHttpSession, SESSION_HEADER};
use mcpo::mcp::types::{is_success, JsonRpcRequest, RequestIds, TransportError};

fn s(t: &str) -> JsonValue {
    JsonValue::Str(t.to_string())
}

fn o(ms: Vec<(&str, JsonValue)>) -> JsonValue {
    JsonValue::Object(ms.into_iter().map(|(k, v)| (k.to_string(), v)).collect())
}

fn num(t: &str) -> JsonValue {
    JsonValue::Number(t.to_string())
}

#[test]
fn request_and_notification() {
    let r = JsonRpcRequest::new(7, "tools/list", None);
    assert_eq!(r.jsonrpc, "2.0");
    assert_eq!(r.id, Some(7));
    assert_eq!(r.method, "tools/list");
    assert!(r.params.is_none());
    let n = JsonRpcRequest::notification("notifications/initialized", Some(o(vec![])));
    assert_eq!(n.id, None);
    assert!(json_eq(n.params.as_ref().unwrap(), &o(vec![])));
}

#[test]
fn ids_count_up_from_one() {
    let mut ids = RequestIds::new();
    assert_eq!(ids.next_id(), 1);
    assert_eq!(ids.next_id(), 2);
    assert_eq!(ids.next_id(), 3);
}

#[test]
fn method_names() {
    assert_eq!(METHOD_INITIALIZE, "initialize");
    assert_eq!(METHOD_INITIALIZED, "notifications/initialized");
    assert_eq!(METHOD_LIST_TOOLS, "tools/list");
    assert_eq!(METHOD_CALL_TOOL, "tools/call");
}

#[test]
fn initialize_parameters() {
    let expected = o(vec![
        ("protocolVersion", s("2024-11-05")),
        ("capabilities", o(vec![])),
        ("clientInfo", o(vec![("name", s("mcpo-rs")), ("version", s("0.1.0"))])),
    ]);
    assert!(json_eq(&initialize_params(), &expected));
}

#[test]
fn call_tool_parameters() {
    let with = call_tool_params("get_time", Some(o(vec![("tz", s("UTC"))])));
    assert!(json_eq(&with, &o(vec![("name", s("get_time")), ("arguments", o(vec![("tz", s("UTC"))]))])));
    let without = call_tool_params("ping", None);
    assert!(json_eq(&without, &o(vec![("name", s("ping")), ("arguments", o(vec![]))])));
}

#[test]
fn reply_with_result() {
    let reply = o(vec![("jsonrpc", s("2.0")), ("id", num("1")), ("result", o(vec![("tools", JsonValue::Array(vec![]))]))]);
    let r = extract_result(&reply).unwrap();
    assert!(json_eq(&r, &o(vec![("tools", JsonValue::Array(vec![]))])));
}

#[test]
fn reply_with_error() {
    let reply = o(vec![("error", o(vec![("code", num("-32601")), ("message", s("Method not found"))]))]);
    let err = extract_result(&reply).unwrap_err();
    assert_eq!(err, RpcError::Remote { message: "Method not found".to_string() });
    assert_eq!(err.message(), "MCP RPC error: Method not found");
    let reply = o(vec![("error", o(vec![("code", num("1"))])), ("result", num("2"))]);
    assert_eq!(
        extract_result(&reply).unwrap_err(),
        RpcError::Remote { message: "unknown RPC error".to_string() }
    );
}

#[test]
fn reply_without_result() {
    let err = extract_result(&o(vec![("id", num("1"))])).unwrap_err();
    assert_eq!(err, RpcError::MissingResult);
    assert_eq!(err.message(), "JSON-RPC response missing 'result' field");
    assert_eq!(extract_result(&JsonValue::Null).unwrap_err(), RpcError::MissingResult);
}

#[test]
fn sse_endpoint_event_is_found() {
    let mut p = SseEndpointParser::new();
    let found = p.feed_chunk("event: endpoint\ndata: /messages?session_id=abc \n\n");
    assert_eq!(found.as_deref(), Some("/messages?session_id=abc"));
}

#[test]
fn sse_endpoint_across_chunks_and_crlf() {
    let mut p = SseEndpointParser::new();
    assert_eq!(p.feed_chunk(": ping\r\n\r\nevent: endpoint\r\n"), None);
    assert_eq!(p.feed_chunk("data: /m\r\n"), None);
    assert_eq!(p.feed_chunk("\r\n").as_deref(), Some("/m"));
}

#[test]
fn sse_other_events_are_skipped() {
    let mut p = SseEndpointParser::new();
    assert_eq!(p.feed_chunk("event: message\ndata: {}\n\n"), None);
    assert_eq!(p.event_type, "");
    assert_eq!(p.data, "");
    assert_eq!(p.feed_line("data: a"), None);
    assert_eq!(p.feed_line("data: b"), None);
    assert_eq!(p.data, "ab");
    assert_eq!(p.feed_line("event: endpoint"), None);
    assert_eq!(p.feed_line("").as_deref(), Some("ab"));
}

#[test]
fn sse_posts_need_an_endpoint() {
    let mut session = SseSession::new();
    let err = session.prepare_post("tools/list", None).unwrap_err();
    assert_eq!(err, TransportError::NoEndpoint);
    assert_eq!(err.message(), "Message endpoint not available");
    assert_eq!(session.ids.next, 1);
    session.set_endpoint("http://h/messages".to_string());
    let (ep, req) = session.prepare_post("tools/list", None).unwrap();
    assert_eq!(ep, "http://h/messages");
    assert_eq!(req.id, Some(1));
    let (_, req) = session.prepare_post("tools/call", None).unwrap();
    assert_eq!(req.id, Some(2));
}

#[test]
fn sse_statuses() {
    assert!(is_success(200) && is_success(299) && !is_success(300) && !is_success(199));
    assert!(check_connect_status(200, "200 OK").is_ok());
    let err = check_connect_status(502, "502 Bad Gateway").unwrap_err();
    assert_eq!(err.message(), "SSE connection failed with status: 502 Bad Gateway");
    assert!(check_post_status(202, "202 Accepted").is_ok());
    let err = check_post_status(405, "405 Method Not Allowed").unwrap_err();
    assert_eq!(err, TransportError::PostNotAllowed);
    assert_eq!(
        err.message(),
        "SSE message endpoint returned 405 Method Not Allowed, the server may not support POST messaging"
    );
    let err = check_post_status(500, "500 Internal Server Error").unwrap_err();
    assert_eq!(err.message(), "SSE POST failed with status: 500 Internal Server Error");
    assert_eq!(
        TransportError::ClosedWithoutEndpoint.message(),
        "SSE connection closed without endpoint event"
    );
}

#[test]
fn stdio_framing() {
    assert_eq!(frame_message("{\"a\":1}"), "{\"a\":1}\n");
    assert_eq!(stdio_request("tools/list", None).id, Some(1));
    assert_eq!(check_response_line("  {\"x\":1}\n").unwrap(), "{\"x\":1}");
    let err = check_response_line(" \r\n").unwrap_err();
    assert_eq!(err, TransportError::EmptyStdioResponse);
    assert_eq!(err.message(), "Empty response from MCP server");
}

#[test]
fn streamable_session_id() {
    let mut st = StreamableHttpSession::new();
    assert_eq!(SESSION_HEADER, "mcp-session-id");
    assert_eq!(st.next_request("initialize", None).id, Some(1));
    assert_eq!(st.next_request("tools/list", None).id, Some(2));
    st.record_session_id(None);
    assert!(st.session_id.is_none());
    st.record_session_id(Some(b"abc-123"));
    assert_eq!(st.session_id.as_deref(), Some("abc-123"));
    st.record_session_id(None);
    assert_eq!(st.session_id.as_deref(), Some("abc-123"));
    st.record_session_id(Some(&[0xff]));
    assert_eq!(st.session_id.as_deref(), Some(""));
}

#[test]
fn streamable_empty_body() {
    assert!(check_response_body("{}").is_ok());
    let err = check_response_body("").unwrap_err();
    assert_eq!(err, TransportError::EmptyHttpResponse);
    assert_eq!(err.message(), "Empty response from streamable HTTP server");
}

#[test]
fn streamable_exchanges_number_and_carry_session() {
    let mut st = StreamableHttpSession::new();
    let replies: [Option<&[u8]>; 4] = [None, Some(b"s1"), None, Some(b"s2")];
    let mut sent = Vec::new();
    for (k, header) in replies.iter().enumerate() {
        let carried = st.session_header();
        let req = st.next_request("tools/list", None);
        assert_eq!(req.id, Some(k as i64 + 1));
        sent.push(carried.map(|(n, v)| {
            assert_eq!(n, "mcp-session-id");
            v
        }));
        st.record_session_id(*header);
    }
    assert_eq!(st.ids.next, 5);
    assert_eq!(sent, vec![None, None, Some("s1".to_string()), Some("s1".to_string())]);
    assert_eq!(st.session_header().map(|(_, v)| v).as_deref(), Some("s2"));
}
