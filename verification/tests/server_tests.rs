use std::collections::HashMap;

use mcpo::config::{AppConfig, McpServerConfig};
use mcpo::json::{json_eq, JsonValue};
use mcpo::mcp::types::Tool;
use mcpo::server::{
    published_tools,
    after_call, after_connect, after_lookup, ToolCallAction, api_key_status, choose_config_source, connect_before_document, connect_failed_reply,
    cors_origins, disabled_tools_for, docs_page_html, extract_server_name, filter_disabled_tools,
    health_body, index_page_html, invalid_path_reply, openapi_response, parse_tool_path,
    path_within_prefix, server_route_base,
    server_names, server_not_found_reply, single_server_config, tool_call_response,
    tool_error_reply, ConfigSource, CorsOrigins, ServeError, ServerConfig, DOCS_PAGE_HEAD,
    DOCS_PAGE_TAIL, INDEX_PAGE_HEAD, INDEX_PAGE_TAIL,
};

fn s(t: &str) -> JsonValue {
    JsonValue::Str(t.to_string())
}

fn o(ms: Vec<(&str, JsonValue)>) -> JsonValue {
    JsonValue::Object(ms.into_iter().map(|(k, v)| (k.to_string(), v)).collect())
}

fn a(items: Vec<JsonValue>) -> JsonValue {
    JsonValue::Array(items)
}

fn entry() -> McpServerConfig {
    McpServerConfig {
        command: Some("npx".to_string()),
        args: None,
        env: None,
        url: None,
        server_type: None,
        headers: None,
        disabled_tools: None,
        oauth: None,
    }
}

fn tool(name: &str) -> Tool {
    Tool { name: name.to_string(), description: None, input_schema: o(vec![]) }
}

#[test]
fn server_names_from_paths() {
    assert_eq!(extract_server_name("/time/openapi.json"), "time");
    assert_eq!(extract_server_name("/time/docs"), "time");
    assert_eq!(extract_server_name("/a/b/openapi.json"), "b");
    assert_eq!(extract_server_name("//time//openapi.json"), "time");
    assert_eq!(extract_server_name("/openapi.json"), "openapi.json");
    assert_eq!(extract_server_name("/"), "unknown");
    assert_eq!(extract_server_name(""), "unknown");
}

#[test]
fn tool_paths() {
    assert_eq!(
        parse_tool_path("/time/get_current_time"),
        Some(("time".to_string(), "get_current_time".to_string()))
    );
    assert_eq!(parse_tool_path("/time/a/b"), Some(("time".to_string(), "a_b".to_string())));
    assert_eq!(parse_tool_path("/time"), None);
    assert_eq!(parse_tool_path("/"), None);
}

#[test]
fn route_round_trips() {
    for n in ["memory", "time", "remote_server"] {
        assert_eq!(extract_server_name(&format!("/{}/openapi.json", n)), n);
        assert_eq!(parse_tool_path(&format!("/{}/tool", n)), Some((n.to_string(), "tool".to_string())));
        assert!(docs_page_html(&format!("/{}/docs", n)).contains(&format!("url:\"/{}/openapi.json\"", n)));
    }
}

#[test]
fn docs_page() {
    let html = docs_page_html("/time/docs");
    assert_eq!(html, format!("{}{}{}", DOCS_PAGE_HEAD, "/time/openapi.json", DOCS_PAGE_TAIL));
    assert!(html.starts_with("<!DOCTYPE html>"));
    assert!(html.contains("<title>MCPO API Docs</title>"));
    assert!(html.contains("SwaggerUIBundle({url:\"/time/openapi.json\",dom_id:\"#swagger-ui\""));
    assert_eq!(docs_page_html("/docs/docs"), format!("{}/openapi.json{}", DOCS_PAGE_HEAD, DOCS_PAGE_TAIL));
}

#[test]
fn index_page() {
    let html = index_page_html(&vec!["memory".to_string(), "time".to_string()], "/");
    let links = "<li><a href=\"/memory/docs\">memory API Docs</a></li><li><a href=\"/time/docs\">time API Docs</a></li>";
    assert_eq!(html, format!("{}{}{}", INDEX_PAGE_HEAD, links, INDEX_PAGE_TAIL));
    assert!(html.contains("<h1>MCPO-RS - MCP-to-OpenAPI Proxy</h1>"));
    assert!(html.contains("body { font-family"));
}

#[test]
fn cors_policy() {
    assert!(matches!(cors_origins(&vec![]), CorsOrigins::Any));
    assert!(matches!(cors_origins(&vec!["http://a".to_string(), "*".to_string()]), CorsOrigins::Any));
    match cors_origins(&vec!["http://a".to_string(), "http://b".to_string()]) {
        CorsOrigins::Listed(l) => assert_eq!(l, vec!["http://a".to_string(), "http://b".to_string()]),
        CorsOrigins::Any => panic!("expected a list"),
    }
}

#[test]
fn api_key_reporting() {
    assert_eq!(api_key_status(None), "Not Provided");
    assert_eq!(api_key_status(Some("")), "Not Provided");
    assert_eq!(api_key_status(Some("k")), "Provided");
}

#[test]
fn tool_result_with_single_text() {
    let result = o(vec![("content", a(vec![o(vec![("type", s("text")), ("text", s("12:00"))])]))]);
    let reply = tool_call_response(&result);
    assert_eq!(reply.status, 200);
    assert!(json_eq(&reply.body, &s("12:00")));
}

#[test]
fn tool_result_with_several_items() {
    let image = o(vec![("type", s("image")), ("data", s("abc"))]);
    let result = o(vec![("content", a(vec![o(vec![("text", s("a"))]), image]))]);
    let reply = tool_call_response(&result);
    assert_eq!(reply.status, 200);
    let expected = a(vec![s("a"), o(vec![("type", s("image")), ("data", s("abc"))])]);
    assert!(json_eq(&reply.body, &expected));
}

#[test]
fn tool_result_without_content_is_shown_whole() {
    let result = o(vec![("value", JsonValue::Number("3".to_string()))]);
    let reply = tool_call_response(&result);
    assert_eq!(reply.status, 200);
    assert!(json_eq(&reply.body, &result));
    let empty = o(vec![("content", a(vec![]))]);
    assert!(json_eq(&tool_call_response(&empty).body, &a(vec![])));
}

#[test]
fn tool_result_flagged_as_error() {
    let result = o(vec![
        ("content", a(vec![o(vec![("type", s("text")), ("text", s("bad timezone"))])])),
        ("isError", JsonValue::Bool(true)),
    ]);
    let reply = tool_call_response(&result);
    assert_eq!(reply.status, 500);
    assert!(json_eq(&reply.body, &o(vec![("message", s("bad timezone"))])));
    let bare = o(vec![("isError", JsonValue::Bool(true))]);
    let reply = tool_call_response(&bare);
    assert_eq!(reply.status, 500);
    assert!(json_eq(&reply.body, &o(vec![("message", s("Unknown error"))])));
    let not_flag = o(vec![("isError", s("true"))]);
    assert_eq!(tool_call_response(&not_flag).status, 200);
}

#[test]
fn error_replies() {
    let r = invalid_path_reply();
    assert_eq!(r.status, 404);
    assert!(json_eq(&r.body, &o(vec![("error", s("Invalid path"))])));
    let r = server_not_found_reply("x");
    assert_eq!(r.status, 404);
    assert!(json_eq(&r.body, &o(vec![("error", s("Server 'x' not found"))])));
    let r = connect_failed_reply("refused");
    assert_eq!(r.status, 500);
    assert!(json_eq(&r.body, &o(vec![("error", s("Failed to connect to MCP server: refused"))])));
    let r = tool_error_reply("timeout");
    assert_eq!(r.status, 500);
    assert!(json_eq(&r.body, &o(vec![("message", s("Tool execution error: timeout"))])));
    assert!(json_eq(&health_body(), &o(vec![("status", s("ok"))])));
}

#[test]
fn openapi_replies() {
    let r = openapi_response("time", None, None, "/");
    assert_eq!(r.status, 404);
    assert!(json_eq(&r.body, &o(vec![("error", s("Server 'time' not found or not connected"))])));
    let tools = vec![tool("now")];
    let r = openapi_response("time", Some(&tools), Some(b"example.org:8000"), "/");
    assert_eq!(r.status, 200);
    let url = r.body.get("servers").unwrap().as_array().unwrap()[0].get("url").unwrap();
    assert_eq!(url.as_str().map(|x| x.as_str()), Some("http://example.org:8000"));
    let d = r.body.get("info").unwrap().get("description").unwrap();
    assert_eq!(d.as_str().map(|x| x.as_str()), Some("time MCP Server API"));
    assert!(r.body.get("paths").unwrap().get("/time/now").is_some());
    assert!(r.body.get("paths").unwrap().get("/now").is_none());
    let r = openapi_response("time", Some(&tools), None, "");
    let url = r.body.get("servers").unwrap().as_array().unwrap()[0].get("url").unwrap();
    assert_eq!(url.as_str().map(|x| x.as_str()), Some("http://localhost"));
}

#[test]
fn disabled_tools_are_hidden() {
    let tools = vec![tool("get_current_time"), tool("convert_time"), tool("other")];
    let kept = filter_disabled_tools(&tools, &vec!["convert_time".to_string()]);
    let names: Vec<&str> = kept.iter().map(|t| t.name.as_str()).collect();
    assert_eq!(names, vec!["get_current_time", "other"]);
    assert_eq!(filter_disabled_tools(&tools, &vec![]).len(), 3);
}

#[test]
fn disabled_tools_of_a_server() {
    let mut time = entry();
    time.disabled_tools = Some(vec!["convert_time".to_string()]);
    let config = AppConfig { mcp_servers: vec![("memory".to_string(), entry()), ("time".to_string(), time)] };
    assert_eq!(disabled_tools_for(&config, "time"), vec!["convert_time".to_string()]);
    assert!(disabled_tools_for(&config, "memory").is_empty());
    assert!(disabled_tools_for(&config, "nope").is_empty());
    assert_eq!(server_names(&config), vec!["memory".to_string(), "time".to_string()]);
}

#[test]
fn single_stdio_server() {
    let cmd = vec!["uvx".to_string(), "mcp-server-time".to_string(), "--local-timezone=America/New_York".to_string()];
    let config = single_server_config("MCP OpenAPI Proxy", None, &cmd, None);
    assert_eq!(config.mcp_servers.len(), 1);
    let (name, c) = &config.mcp_servers[0];
    assert_eq!(name, "MCP OpenAPI Proxy");
    assert_eq!(c.command.as_deref(), Some("uvx"));
    assert_eq!(c.args.as_ref().unwrap(), &cmd[1..].to_vec());
    assert_eq!(c.server_type.as_deref(), Some("stdio"));
    assert!(c.url.is_none());
}

#[test]
fn single_remote_server() {
    let mut headers = HashMap::new();
    headers.insert("Authorization".to_string(), "Bearer t".to_string());
    let cmd = vec!["http://127.0.0.1:8001/sse".to_string()];
    let config = single_server_config("p", Some("sse"), &cmd, Some(&headers));
    let c = &config.mcp_servers[0].1;
    assert_eq!(c.url.as_deref(), Some("http://127.0.0.1:8001/sse"));
    assert_eq!(c.server_type.as_deref(), Some("sse"));
    assert!(c.command.is_none() && c.args.is_none());
    assert_eq!(c.headers.as_ref().unwrap().get("Authorization").map(|x| x.as_str()), Some("Bearer t"));
}

fn server_config() -> ServerConfig {
    ServerConfig {
        host: "0.0.0.0".to_string(),
        port: 8000,
        api_key: None,
        cors_allow_origins: vec![],
        config_path: None,
        server_type: None,
        server_command: None,
        name: "MCP OpenAPI Proxy".to_string(),
        description: "d".to_string(),
        path_prefix: "/".to_string(),
        strict_auth: false,
        headers: None,
        hot_reload: false,
    }
}

#[test]
fn configuration_sources() {
    let err = choose_config_source(&server_config()).unwrap_err();
    assert!(matches!(err, ServeError::NoServerSource));
    assert_eq!(err.message(), "Either --config or a server command must be provided");
    let mut c = server_config();
    c.config_path = Some("config.json".to_string());
    c.server_command = Some(vec!["x".to_string()]);
    match choose_config_source(&c).unwrap() {
        ConfigSource::File(p) => assert_eq!(p, "config.json"),
        ConfigSource::Single(_) => panic!("expected the file"),
    }
    let mut c = server_config();
    c.server_command = Some(vec!["npx".to_string(), "-y".to_string()]);
    c.server_type = Some("stdio".to_string());
    match choose_config_source(&c).unwrap() {
        ConfigSource::Single(app) => {
            assert_eq!(app.mcp_servers[0].0, "MCP OpenAPI Proxy");
            assert_eq!(app.mcp_servers[0].1.command.as_deref(), Some("npx"));
        }
        ConfigSource::File(_) => panic!("expected a single server"),
    }
}

#[test]
fn lazy_connection_for_documents() {
    assert!(connect_before_document(false, true, false));
    assert!(!connect_before_document(true, true, false));
    assert!(!connect_before_document(false, false, false));
    assert!(!connect_before_document(false, true, true));
}

#[test]
fn tool_call_flow() {
    match after_lookup("nope", false, false) {
        ToolCallAction::Reply(r) => {
            assert_eq!(r.status, 404);
            assert!(json_eq(&r.body, &o(vec![("error", s("Server 'nope' not found"))])));
        }
        other => panic!("unexpected {:?}", other),
    }
    assert!(matches!(after_lookup("time", true, false), ToolCallAction::Connect));
    assert!(matches!(after_lookup("time", true, true), ToolCallAction::Call));
    assert!(matches!(after_connect(Ok(())), ToolCallAction::Call));
    match after_connect(Err("refused")) {
        ToolCallAction::Reply(r) => {
            assert_eq!(r.status, 500);
            assert!(json_eq(&r.body, &o(vec![("error", s("Failed to connect to MCP server: refused"))])));
        }
        other => panic!("unexpected {:?}", other),
    }
    let result = o(vec![("content", a(vec![o(vec![("text", s("hi"))])]))]);
    let r = after_call(Ok(&result));
    assert_eq!(r.status, 200);
    assert!(json_eq(&r.body, &s("hi")));
    let r = after_call(Err("broken pipe"));
    assert_eq!(r.status, 500);
    assert!(json_eq(&r.body, &o(vec![("message", s("Tool execution error: broken pipe"))])));
}

#[test]
fn readme_openapi_document() {
    let tools = vec![tool("get_current_time")];
    let r = openapi_response("time", Some(&tools), Some(b"localhost:8000"), "/");
    assert_eq!(r.status, 200);
    let text = |v: &JsonValue| v.as_str().map(|x| x.to_string());
    assert_eq!(text(r.body.get("openapi").unwrap()).as_deref(), Some("3.0.3"));
    let info = r.body.get("info").unwrap();
    assert_eq!(text(info.get("title").unwrap()).as_deref(), Some("time MCP Server"));
    assert_eq!(text(info.get("version").unwrap()).as_deref(), Some("1.0.0"));
    let op = r.body.get("paths").unwrap().get("/time/get_current_time").unwrap().get("post").unwrap();
    assert_eq!(text(op.get("operationId").unwrap()).as_deref(), Some("time_get_current_time"));
    let schema = op
        .get("requestBody").unwrap()
        .get("content").unwrap()
        .get("application/json").unwrap()
        .get("schema").unwrap();
    assert_eq!(
        text(schema.get("$ref").unwrap()).as_deref(),
        Some("#/components/schemas/get_current_time_params")
    );
    let url = r.body.get("servers").unwrap().as_array().unwrap()[0].get("url").unwrap();
    assert_eq!(
        format!("{}{}", text(url).unwrap(), "/time/get_current_time"),
        "http://localhost:8000/time/get_current_time"
    );
    assert_eq!(
        parse_tool_path("/time/get_current_time"),
        Some(("time".to_string(), "get_current_time".to_string()))
    );
}

#[test]
fn published_tools_leave_out_disabled_ones() {
    let mut time = entry();
    time.disabled_tools = Some(vec!["convert_time".to_string()]);
    let config = AppConfig { mcp_servers: vec![("time".to_string(), time)] };
    let tools = vec![tool("get_current_time"), tool("convert_time")];
    let kept = published_tools(&config, "time", &tools);
    assert_eq!(kept.len(), 1);
    assert_eq!(kept[0].name, "get_current_time");
    assert_eq!(published_tools(&config, "other", &tools).len(), 2);
}

#[test]
fn index_links_every_configured_server() {
    let config = AppConfig {
        mcp_servers: vec![("memory".to_string(), entry()), ("time".to_string(), entry())],
    };
    let html = index_page_html(&server_names(&config), "");
    for (name, _) in &config.mcp_servers {
        assert!(html.contains(&format!("<li><a href=\"/{}/docs\">{} API Docs</a></li>", name, name)));
    }
}

#[test]
fn routes_under_a_path_prefix() {
    assert_eq!(server_route_base("/api/", "time"), "/api/time");
    assert_eq!(server_route_base("/", "time"), "/time");
    assert_eq!(server_route_base("", "time"), "/time");
    assert_eq!(path_within_prefix("/api/time/now", "/api/"), Some("/time/now".to_string()));
    assert_eq!(path_within_prefix("/api/time/now", "/api"), Some("/time/now".to_string()));
    assert_eq!(path_within_prefix("/apix/time/now", "/api"), None);
    assert_eq!(path_within_prefix("/other/time", "/api"), None);
    assert_eq!(path_within_prefix("/time/now", "/"), Some("/time/now".to_string()));
    assert_eq!(path_within_prefix("/time/now", ""), Some("/time/now".to_string()));
    let local = path_within_prefix("/api/time/get_current_time", "/api").unwrap();
    assert_eq!(parse_tool_path(&local), Some(("time".to_string(), "get_current_time".to_string())));
    let tools = vec![tool("now")];
    let r = openapi_response("time", Some(&tools), Some(b"h:1"), "/api");
    assert!(r.body.get("paths").unwrap().get("/api/time/now").is_some());
    let url = r.body.get("servers").unwrap().as_array().unwrap()[0].get("url").unwrap();
    assert_eq!(url.as_str().map(|x| x.as_str()), Some("http://h:1/time"));
    let html = index_page_html(&vec!["time".to_string()], "/api/");
    assert!(html.contains("<li><a href=\"/api/time/docs\">time API Docs</a></li>"));
}
