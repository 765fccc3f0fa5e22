use mcpo::cli::{choose_server_command, parse_cors_origins, parse_headers_arg};
use mcpo::watcher::{should_reload, FsEventKind, RELOAD_DELAY_MS, RELOAD_MESSAGE};

fn words(ws: &[&str]) -> Vec<String> {
    ws.iter().map(|w| w.to_string()).collect()
}

#[test]
fn cors_origins_from_the_command_line() {
    assert_eq!(parse_cors_origins(None), Vec::<String>::new());
    assert_eq!(parse_cors_origins(Some("")), Vec::<String>::new());
    assert_eq!(parse_cors_origins(Some(" http://a , ,http://b,")), words(&["http://a", "http://b"]));
    assert_eq!(parse_cors_origins(Some("*")), words(&["*"]));
}

#[test]
fn server_command_choice() {
    let trailing = words(&["uvx", "mcp-server-time"]);
    assert_eq!(choose_server_command(true, &trailing, None), None);
    assert_eq!(choose_server_command(false, &vec![], None), None);
    assert_eq!(choose_server_command(false, &trailing, None), Some(trailing.clone()));
    let after = words(&["npx", "-y", "server"]);
    assert_eq!(choose_server_command(false, &trailing, Some(&after)), Some(after.clone()));
    assert_eq!(choose_server_command(false, &trailing, Some(&vec![])), None);
    assert_eq!(choose_server_command(false, &words(&[""]), None), None);
}

#[test]
fn reload_on_changes_only() {
    assert!(should_reload(FsEventKind::Modify));
    assert!(should_reload(FsEventKind::Create));
    assert!(!should_reload(FsEventKind::Other));
    assert_eq!(RELOAD_MESSAGE, "reload");
    assert_eq!(RELOAD_DELAY_MS, 500);
}

#[test]
fn headers_from_the_command_line() {
    assert!(parse_headers_arg(None).is_none());
    let h = parse_headers_arg(Some("{\"Authorization\": \"Bearer token\", \"X\": \"1\"}")).unwrap();
    assert_eq!(h.len(), 2);
    assert_eq!(h.get("Authorization").map(|v| v.as_str()), Some("Bearer token"));
    assert!(parse_headers_arg(Some("not json")).is_none());
    assert!(parse_headers_arg(Some("{\"X\": 1}")).is_none());
    assert_eq!(parse_headers_arg(Some("{\"X\": \"a\", \"X\": \"b\"}")).unwrap().get("X").map(|v| v.as_str()), Some("b"));
}
