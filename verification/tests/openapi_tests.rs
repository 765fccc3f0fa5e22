use mcpo::json::{json_eq, JsonValue};
use mcpo::mcp::types::Tool;
use mcpo::openapi::generate_openapi_spec;

fn s(t: &str) -> JsonValue {
    JsonValue::Str(t.to_string())
}

fn o(ms: Vec<(&str, JsonValue)>) -> JsonValue {
    JsonValue::Object(ms.into_iter().map(|(k, v)| (k.to_string(), v)).collect())
}

fn a(items: Vec<JsonValue>) -> JsonValue {
    JsonValue::Array(items)
}

fn responses() -> JsonValue {
    o(vec![
        (
            "200",
            o(vec![
                ("description", s("Successful response")),
                ("content", o(vec![("application/json", o(vec![("schema", o(vec![("type", s("object"))]))]))])),
            ]),
        ),
        ("400", o(vec![("description", s("Bad request"))])),
        ("500", o(vec![("description", s("Internal server error"))])),
    ])
}

fn operation(server: &str, tool: &str, summary: &str, description: &str) -> JsonValue {
    o(vec![
        ("summary", s(summary)),
        ("description", s(description)),
        ("operationId", s(&format!("{}_{}", server, tool))),
        (
            "requestBody",
            o(vec![
                ("required", JsonValue::Bool(false)),
                (
                    "content",
                    o(vec![(
                        "application/json",
                        o(vec![("schema", o(vec![("$ref", s(&format!("#/components/schemas/{}_params", tool)))]))]),
                    )]),
                ),
            ]),
        ),
        ("responses", responses()),
        ("tags", a(vec![s(server)])),
    ])
}

fn time_tool() -> Tool {
    Tool {
        name: "get_current_time".to_string(),
        description: Some("Get time".to_string()),
        input_schema: o(vec![
            ("type", s("object")),
            ("properties", o(vec![("timezone", o(vec![("type", s("string"))]))])),
            ("required", a(vec![s("timezone"), JsonValue::Number("3".to_string())])),
            ("$defs", o(vec![("Tz", o(vec![("type", s("string"))]))])),
        ]),
    }
}

#[test]
fn document_for_one_tool() {
    let doc = generate_openapi_spec("time", "time MCP Server API", &[time_tool()], "localhost:8000", "");
    let expected = o(vec![
        ("openapi", s("3.0.3")),
        (
            "info",
            o(vec![
                ("title", s("time MCP Server")),
                ("description", s("time MCP Server API")),
                ("version", s("1.0.0")),
            ]),
        ),
        ("servers", a(vec![o(vec![("url", s("http://localhost:8000")), ("description", s("time server"))])])),
        (
            "paths",
            o(vec![("/time/get_current_time", o(vec![("post", operation("time", "get_current_time", "get current time", "Get time"))]))]),
        ),
        (
            "components",
            o(vec![(
                "schemas",
                o(vec![
                    ("Tz", o(vec![("type", s("string"))])),
                    (
                        "get_current_time_params",
                        o(vec![
                            ("type", s("object")),
                            ("properties", o(vec![("timezone", o(vec![("type", s("string"))]))])),
                            ("required", a(vec![s("timezone")])),
                        ]),
                    ),
                ]),
            )]),
        ),
    ]);
    assert!(json_eq(&doc, &expected));
}

#[test]
fn tool_without_properties_gets_empty_schema() {
    let tool = Tool { name: "ping".to_string(), description: None, input_schema: o(vec![("type", s("object"))]) };
    let doc = generate_openapi_spec("srv", "d", &[tool], "https://example.com/", "/api/");
    let paths = doc.get("paths").unwrap();
    let op = paths.get("/api/srv/ping").unwrap().get("post").unwrap();
    assert!(json_eq(op, &operation("srv", "ping", "ping", "")));
    let schema = doc.get("components").unwrap().get("schemas").unwrap().get("ping_params").unwrap();
    assert!(json_eq(schema, &o(vec![("type", s("object")), ("properties", o(vec![]))])));
    let url = doc.get("servers").unwrap().as_array().unwrap()[0].get("url").unwrap();
    assert_eq!(url.as_str().map(|x| x.as_str()), Some("https://example.com/srv"));
}

#[test]
fn server_address_under_a_path_prefix_names_the_server() {
    let tool = Tool { name: "get_current_time".to_string(), description: None, input_schema: o(vec![]) };
    let doc = generate_openapi_spec("time", "d", &[tool], "https://api.example.com/", "/api/");
    let url = doc.get("servers").unwrap().as_array().unwrap()[0].get("url").unwrap();
    assert_eq!(url.as_str().map(|x| x.as_str()), Some("https://api.example.com/time"));
    let paths = doc.get("paths").unwrap().as_object().unwrap();
    assert_eq!(paths.len(), 1);
    assert_eq!(paths[0].0, "/api/time/get_current_time");
    let schema = doc.get("components").unwrap().get("schemas").unwrap().get("get_current_time_params").unwrap();
    assert!(json_eq(schema, &o(vec![("type", s("object")), ("properties", o(vec![]))])));
    let doc = generate_openapi_spec("time", "d", &[], "localhost:8000", "/v1");
    let url = doc.get("servers").unwrap().as_array().unwrap()[0].get("url").unwrap();
    assert_eq!(url.as_str().map(|x| x.as_str()), Some("http://localhost:8000/time"));
}

#[test]
fn server_address_without_a_prefix_is_the_host() {
    for prefix in ["", "/", "//"] {
        let doc = generate_openapi_spec("time", "d", &[], "localhost:8000", prefix);
        let url = doc.get("servers").unwrap().as_array().unwrap()[0].get("url").unwrap();
        assert_eq!(url.as_str().map(|x| x.as_str()), Some("http://localhost:8000"));
    }
}

#[test]
fn every_tool_gets_a_route() {
    let tools: Vec<Tool> = ["a", "b_c", "d"]
        .iter()
        .map(|n| Tool { name: n.to_string(), description: None, input_schema: o(vec![]) })
        .collect();
    let doc = generate_openapi_spec("x", "", &tools, "h", "/");
    let paths = doc.get("paths").unwrap();
    for t in ["a", "b_c", "d"] {
        let op = paths.get(&format!("/x/{}", t)).unwrap().get("post").unwrap();
        assert_eq!(op.get("operationId").unwrap().as_str().map(|x| x.as_str()), Some(format!("x_{}", t).as_str()));
    }
    assert_eq!(paths.as_object().unwrap().len(), 3);
}

#[test]
fn later_tool_with_same_name_replaces_route() {
    let t1 = Tool { name: "t".to_string(), description: Some("one".to_string()), input_schema: o(vec![]) };
    let t2 = Tool { name: "t".to_string(), description: Some("two".to_string()), input_schema: o(vec![]) };
    let doc = generate_openapi_spec("x", "", &[t1, t2], "h", "");
    let paths = doc.get("paths").unwrap().as_object().unwrap();
    assert_eq!(paths.len(), 1);
    let d = paths[0].1.get("post").unwrap().get("description").unwrap();
    assert_eq!(d.as_str().map(|x| x.as_str()), Some("two"));
}
