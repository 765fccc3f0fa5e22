use std::collections::HashMap;

use mcpo::config::{AppConfig, McpServerConfig, OAuthConfig};
use mcpo::reload::{reload_plan, same_entry};

fn stdio(command: &str) -> McpServerConfig {
    McpServerConfig {
        command: Some(command.to_string()),
        args: Some(vec!["-y".to_string()]),
        env: None,
        url: None,
        server_type: None,
        headers: None,
        disabled_tools: None,
        oauth: None,
    }
}

fn config(entries: Vec<(&str, McpServerConfig)>) -> AppConfig {
    AppConfig { mcp_servers: entries.into_iter().map(|(n, c)| (n.to_string(), c)).collect() }
}

fn words(ws: &[&str]) -> Vec<String> {
    ws.iter().map(|w| w.to_string()).collect()
}

#[test]
fn reload_adds_removes_and_reconnects() {
    let old = config(vec![("memory", stdio("npx")), ("time", stdio("uvx")), ("gone", stdio("x"))]);
    let mut time = stdio("uvx");
    time.disabled_tools = Some(vec!["convert_time".to_string()]);
    let new = config(vec![("fresh", stdio("y")), ("time", time), ("memory", stdio("npx"))]);
    let plan = reload_plan(&old, &new);
    assert_eq!(plan.added, words(&["fresh"]));
    assert_eq!(plan.removed, words(&["gone"]));
    assert_eq!(plan.changed, words(&["time"]));
}

#[test]
fn reload_without_change_does_nothing() {
    let c = config(vec![("memory", stdio("npx")), ("time", stdio("uvx"))]);
    let plan = reload_plan(&c, &c.clone());
    assert!(plan.added.is_empty());
    assert!(plan.removed.is_empty());
    assert!(plan.changed.is_empty());
}

#[test]
fn entries_compare_by_every_field() {
    let a = stdio("npx");
    assert!(same_entry(&a, &a.clone()));
    let mut b = a.clone();
    b.args = Some(vec!["-x".to_string()]);
    assert!(!same_entry(&a, &b));
    let mut env1 = HashMap::new();
    env1.insert("A".to_string(), "1".to_string());
    env1.insert("B".to_string(), "2".to_string());
    let mut env2 = HashMap::new();
    env2.insert("B".to_string(), "2".to_string());
    env2.insert("A".to_string(), "1".to_string());
    let mut c = a.clone();
    c.env = Some(env1.clone());
    let mut d = a.clone();
    d.env = Some(env2);
    assert!(same_entry(&c, &d));
    let mut env3 = env1.clone();
    env3.insert("A".to_string(), "9".to_string());
    d.env = Some(env3);
    assert!(!same_entry(&c, &d));
    let mut h = a.clone();
    h.headers = Some(HashMap::new());
    assert!(!same_entry(&a, &h));
    let oauth = OAuthConfig {
        server_url: "https://auth".to_string(),
        storage_type: None,
        callback_port: Some(3000),
        use_loopback: None,
    };
    let mut o1 = a.clone();
    o1.oauth = Some(oauth.clone());
    let mut o2 = a.clone();
    o2.oauth = Some(OAuthConfig { callback_port: Some(3001), ..oauth });
    assert!(!same_entry(&o1, &o2));
    assert!(same_entry(&o1, &o1.clone()));
}

#[test]
fn changed_environment_reconnects() {
    let mut env = HashMap::new();
    env.insert("TZ".to_string(), "UTC".to_string());
    let mut a = stdio("uvx");
    a.env = Some(env.clone());
    env.insert("TZ".to_string(), "CET".to_string());
    let mut b = stdio("uvx");
    b.env = Some(env);
    let plan = reload_plan(&config(vec![("time", a)]), &config(vec![("time", b)]));
    assert_eq!(plan.changed, words(&["time"]));
    assert!(plan.added.is_empty() && plan.removed.is_empty());
}
