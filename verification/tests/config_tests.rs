use std::collections::HashMap;

use mcpo::config::{
    normalize_server_type, validate_app_config, validate_server_config, AppConfig, ConfigError,
    McpServerConfig, OAuthConfig,
};
use mcpo::connection::{
    create_connection_config, init_connections_from_config, transport_kind,
    unsupported_type_message, TransportKind,
};

fn entry() -> McpServerConfig {
    McpServerConfig {
        command: None,
        args: None,
        env: None,
        url: None,
        server_type: None,
        headers: None,
        disabled_tools: None,
        oauth: None,
    }
}

fn stdio(command: &str) -> McpServerConfig {
    McpServerConfig { command: Some(command.to_string()), ..entry() }
}

fn remote(kind: &str, url: Option<&str>) -> McpServerConfig {
    McpServerConfig {
        server_type: Some(kind.to_string()),
        url: url.map(|u| u.to_string()),
        ..entry()
    }
}

#[test]
fn stdio_entry_with_command_is_valid() {
    assert!(validate_server_config("memory", &stdio("npx")).is_ok());
}

#[test]
fn entry_without_command_or_type_is_refused() {
    let err = validate_server_config("broken", &entry()).unwrap_err();
    assert_eq!(err, ConfigError::MissingTransport { name: "broken".to_string() });
    assert_eq!(
        err.message(),
        "Server 'broken' must have either 'command' for stdio or 'type' and 'url' for remote servers"
    );
}

#[test]
fn sse_entry_without_url_is_refused() {
    let err = validate_server_config("remote", &remote("sse", None)).unwrap_err();
    assert_eq!(
        err,
        ConfigError::MissingUrl { name: "remote".to_string(), server_type: "sse".to_string() }
    );
    assert_eq!(err.message(), "Server 'remote' of type 'sse' requires a 'url' field");
}

#[test]
fn streamable_entry_without_url_is_refused() {
    let err = validate_server_config("s", &remote("streamable-http", None)).unwrap_err();
    assert_eq!(err.message(), "Server 's' of type 'streamable-http' requires a 'url' field");
}

#[test]
fn remote_entries_with_url_are_valid() {
    assert!(validate_server_config("a", &remote("sse", Some("http://127.0.0.1:8001/sse"))).is_ok());
    assert!(
        validate_server_config("b", &remote("streamable-http", Some("http://127.0.0.1:8002/mcp")))
            .is_ok()
    );
}

#[test]
fn alias_type_with_command_passes_validation() {
    let mut c = remote("streamable_http", None);
    c.command = Some("x".to_string());
    assert!(validate_server_config("alias", &c).is_ok());
}

#[test]
fn empty_configuration_is_refused() {
    let err = validate_app_config(&AppConfig { mcp_servers: vec![] }).unwrap_err();
    assert_eq!(err, ConfigError::NoServers);
    assert_eq!(err.message(), "No 'mcpServers' found in config file.");
}

#[test]
fn configuration_reports_first_faulty_entry() {
    let config = AppConfig {
        mcp_servers: vec![
            ("time".to_string(), stdio("uvx")),
            ("a".to_string(), remote("sse", None)),
            ("b".to_string(), entry()),
        ],
    };
    let err = validate_app_config(&config).unwrap_err();
    assert_eq!(
        err,
        ConfigError::MissingUrl { name: "a".to_string(), server_type: "sse".to_string() }
    );
}

#[test]
fn readme_configuration_is_valid() {
    let mut headers = HashMap::new();
    headers.insert("Authorization".to_string(), "Bearer token".to_string());
    let mut time = stdio("uvx");
    time.args = Some(vec!["mcp-server-time".to_string(), "--local-timezone=America/New_York".to_string()]);
    time.disabled_tools = Some(vec!["convert_time".to_string()]);
    let mut sse = remote("sse", Some("http://127.0.0.1:8001/sse"));
    sse.headers = Some(headers);
    let config = AppConfig {
        mcp_servers: vec![
            ("memory".to_string(), stdio("npx")),
            ("time".to_string(), time),
            ("remote_server".to_string(), sse),
            ("streamable_server".to_string(), remote("streamable-http", Some("http://127.0.0.1:8002/mcp"))),
        ],
    };
    assert!(validate_app_config(&config).is_ok());
}

#[test]
fn server_type_spellings_normalise() {
    assert_eq!(normalize_server_type("streamable_http"), "streamable-http");
    assert_eq!(normalize_server_type("streamablehttp"), "streamable-http");
    assert_eq!(normalize_server_type("streamable-http"), "streamable-http");
    assert_eq!(normalize_server_type("sse"), "sse");
    assert_eq!(normalize_server_type("stdio"), "stdio");
}

#[test]
fn normalising_twice_is_normalising_once() {
    for t in ["streamable_http", "streamablehttp", "sse", "other"] {
        assert_eq!(normalize_server_type(normalize_server_type(t)), normalize_server_type(t));
    }
}

#[test]
fn stdio_connection_keeps_command_and_defaults() {
    let cc = create_connection_config("memory", &stdio("npx")).unwrap();
    assert_eq!(cc.server_type, "stdio");
    assert_eq!(cc.command.as_deref(), Some("npx"));
    assert!(cc.args.is_empty());
    assert!(cc.env.is_empty());
    assert!(cc.url.is_none());
    assert!(cc.headers.is_none());
}

#[test]
fn stdio_connection_keeps_args_and_env() {
    let mut c = stdio("uvx");
    c.args = Some(vec!["mcp-server-time".to_string()]);
    let mut env = HashMap::new();
    env.insert("TZ".to_string(), "UTC".to_string());
    c.env = Some(env);
    let cc = create_connection_config("time", &c).unwrap();
    assert_eq!(cc.args, vec!["mcp-server-time".to_string()]);
    assert_eq!(cc.env.get("TZ").map(|s| s.as_str()), Some("UTC"));
}

#[test]
fn remote_connection_uses_url_as_argument() {
    let mut c = remote("streamablehttp", Some("http://h/mcp"));
    let mut headers = HashMap::new();
    headers.insert("X".to_string(), "1".to_string());
    c.headers = Some(headers);
    let cc = create_connection_config("s", &c).unwrap();
    assert_eq!(cc.server_type, "streamable-http");
    assert_eq!(cc.args, vec!["http://h/mcp".to_string()]);
    assert_eq!(cc.url.as_deref(), Some("http://h/mcp"));
    assert!(cc.command.is_none());
    assert_eq!(cc.headers.unwrap().get("X").map(|s| s.as_str()), Some("1"));
}

#[test]
fn connection_needs_command_or_url() {
    let err = create_connection_config("x", &entry()).unwrap_err();
    assert_eq!(err, ConfigError::MissingCommand { name: "x".to_string() });
    assert_eq!(err.message(), "Missing command for stdio server 'x'");
    let err = create_connection_config("y", &remote("sse", None)).unwrap_err();
    assert_eq!(err, ConfigError::MissingRemoteUrl { name: "y".to_string() });
    assert_eq!(err.message(), "Missing URL for remote server 'y'");
}

#[test]
fn valid_alias_with_command_does_not_connect() {
    let mut c = remote("streamable_http", None);
    c.command = Some("x".to_string());
    assert!(validate_server_config("alias", &c).is_ok());
    assert!(create_connection_config("alias", &c).is_err());
}

#[test]
fn transports_by_type() {
    assert_eq!(transport_kind("stdio"), Some(TransportKind::Stdio));
    assert_eq!(transport_kind("sse"), Some(TransportKind::Sse));
    assert_eq!(transport_kind("streamable-http"), Some(TransportKind::StreamableHttp));
    assert_eq!(transport_kind("streamable_http"), Some(TransportKind::StreamableHttp));
    assert_eq!(transport_kind("streamablehttp"), Some(TransportKind::StreamableHttp));
    assert_eq!(transport_kind("websocket"), None);
    assert_eq!(unsupported_type_message("websocket"), "Unsupported server type: websocket");
}

#[test]
fn valid_known_entries_connect() {
    for c in [stdio("npx"), remote("sse", Some("http://x/sse")), remote("streamable-http", Some("http://x/mcp"))] {
        assert!(validate_server_config("n", &c).is_ok());
        let cc = create_connection_config("n", &c).unwrap();
        assert!(transport_kind(&cc.server_type).is_some());
    }
}

#[test]
fn connections_for_every_entry() {
    let config = AppConfig {
        mcp_servers: vec![
            ("ok".to_string(), stdio("npx")),
            ("bad".to_string(), remote("sse", None)),
        ],
    };
    let r = init_connections_from_config(&config);
    assert_eq!(r.len(), 2);
    assert_eq!(r[0].0, "ok");
    assert!(r[0].1.is_ok());
    assert_eq!(r[1].0, "bad");
    assert!(matches!(r[1].1, Err(ConfigError::MissingRemoteUrl { .. })));
}

#[test]
fn oauth_settings_are_kept() {
    let mut c = stdio("npx");
    c.oauth = Some(OAuthConfig {
        server_url: "https://auth".to_string(),
        storage_type: None,
        callback_port: Some(3030),
        use_loopback: Some(true),
    });
    assert!(validate_server_config("o", &c).is_ok());
    assert_eq!(c.oauth.unwrap().callback_port, Some(3030));
}

#[test]
fn valid_configuration_connects_every_server() {
    let config = AppConfig {
        mcp_servers: vec![
            ("memory".to_string(), stdio("npx")),
            ("remote_server".to_string(), remote("sse", Some("http://127.0.0.1:8001/sse"))),
            ("streamable_server".to_string(), remote("streamable-http", Some("http://127.0.0.1:8002/mcp"))),
        ],
    };
    assert!(validate_app_config(&config).is_ok());
    let r = init_connections_from_config(&config);
    assert!(r.iter().all(|(_, outcome)| outcome.is_ok()));
    let types: Vec<String> = r.into_iter().map(|(_, o)| o.unwrap().server_type).collect();
    assert_eq!(types, vec!["stdio", "sse", "streamable-http"]);
}
