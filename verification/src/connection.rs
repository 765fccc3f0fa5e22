//! How a server entry becomes the settings of one connection, and which transport
//! those settings call for.
use std::collections::HashMap;
use vstd::prelude::*;

use crate::config::{
    declared_type, declared_type_of, normalize_server_type, normalized_type, opt_view,
    validation_fault, AppConfig, ConfigError, ConfigFault, McpServerConfig,
};
use crate::text::{clone_strings, concat, owned, str_eq, views};

verus! {

/// The settings of one connection to an MCP server.
#[derive(Debug, Clone)]
pub struct ServerConnectionConfig {
    pub server_type: String,
    pub command: Option<String>,
    pub args: Vec<String>,
    pub env: HashMap<String, String>,
    pub url: Option<String>,
    pub headers: Option<HashMap<String, String>>,
}

/// The type under which a server entry is connected.
pub open spec fn connection_type(c: McpServerConfig) -> Seq<char> {
    normalized_type(declared_type(c))
}

/// What keeps a server entry from being turned into connection settings, if anything.
pub open spec fn connection_fault(name: Seq<char>, c: McpServerConfig) -> Option<ConfigFault> {
    if connection_type(c) == "stdio"@ {
        if c.command is None {
            Some(ConfigFault::MissingCommand(name))
        } else {
            None
        }
    } else if c.url is None {
        Some(ConfigFault::MissingRemoteUrl(name))
    } else {
        None
    }
}

/// The settings that a (fault-free) server entry is turned into: a stdio entry keeps
/// its command, arguments and environment; a remote entry keeps its normalised type,
/// its url (also as the only argument) and its headers.
pub open spec fn settings_for(c: McpServerConfig, cc: ServerConnectionConfig) -> bool {
    if connection_type(c) == "stdio"@ {
        &&& cc.server_type@ == "stdio"@
        &&& opt_view(cc.command) == opt_view(c.command)
        &&& views(cc.args@) == (match c.args {
            Some(a) => views(a@),
            None => Seq::<Seq<char>>::empty(),
        })
        &&& cc.env@ == (match c.env {
            Some(e) => e@,
            None => Map::<String, String>::empty(),
        })
        &&& cc.url is None
        &&& cc.headers is None
    } else {
        &&& cc.server_type@ == connection_type(c)
        &&& cc.command is None
        &&& views(cc.args@) == seq![c.url->0@]
        &&& cc.env@ == Map::<String, String>::empty()
        &&& opt_view(cc.url) == opt_view(c.url)
        &&& match (c.headers, cc.headers) {
            (Some(h), Some(h2)) => h2@ == h@,
            (None, None) => true,
            _ => false,
        }
    }
}

/// Turns a server entry into the settings of its connection.
pub fn create_connection_config(name: &str, server_cfg: &McpServerConfig) -> (r: Result<
    ServerConnectionConfig,
    ConfigError,
>)
    ensures
        r is Ok <==> connection_fault(name@, *server_cfg) is None,
        r matches Err(e) ==> connection_fault(name@, *server_cfg) == Some(e@),
        r matches Ok(cc) ==> settings_for(*server_cfg, cc),
{
    let server_type = normalize_server_type(declared_type_of(server_cfg));
    if str_eq(server_type, "stdio") {
        let command = match &server_cfg.command {
            Some(c) => c.clone(),
            None => {
                return Err(ConfigError::MissingCommand { name: owned(name) });
            },
        };
        let args = match &server_cfg.args {
            Some(a) => clone_strings(a),
            None => Vec::new(),
        };
        let env = match &server_cfg.env {
            Some(e) => e.clone(),
            None => HashMap::new(),
        };
        proof {
            if server_cfg.args is None {
                assert(views(args@) =~= Seq::<Seq<char>>::empty());
            }
        }
        Ok(
            ServerConnectionConfig {
                server_type: owned("stdio"),
                command: Some(command),
                args,
                env,
                url: None,
                headers: None,
            },
        )
    } else {
        let url = match &server_cfg.url {
            Some(u) => u.clone(),
            None => {
                return Err(ConfigError::MissingRemoteUrl { name: owned(name) });
            },
        };
        let mut args: Vec<String> = Vec::new();
        args.push(url.clone());
        assert(views(args@) =~= seq![url@]);
        let headers = match &server_cfg.headers {
            Some(h) => Some(h.clone()),
            None => None,
        };
        Ok(
            ServerConnectionConfig {
                server_type: owned(server_type),
                command: None,
                args,
                env: HashMap::new(),
                url: Some(url),
                headers,
            },
        )
    }
}

/// The transports that a connection can use.
#[derive(Debug, Clone, Copy, PartialEq, Eq)]
pub enum TransportKind {
    Stdio,
    Sse,
    StreamableHttp,
}

/// The transport that a connection type calls for, if it is a supported one.
pub open spec fn transport_for(t: Seq<char>) -> Option<TransportKind> {
    if t == "stdio"@ {
        Some(TransportKind::Stdio)
    } else if t == "sse"@ {
        Some(TransportKind::Sse)
    } else if t == "streamable-http"@ || t == "streamable_http"@ || t == "streamablehttp"@ {
        Some(TransportKind::StreamableHttp)
    } else {
        None
    }
}

/// The transport that a connection's type calls for (what creating its client
/// dispatches on); nothing for an unsupported type.
pub fn transport_kind(server_type: &str) -> (r: Option<TransportKind>)
    ensures
        r == transport_for(server_type@),
{
    if str_eq(server_type, "stdio") {
        Some(TransportKind::Stdio)
    } else if str_eq(server_type, "sse") {
        Some(TransportKind::Sse)
    } else if str_eq(server_type, "streamable-http") || str_eq(server_type, "streamable_http")
        || str_eq(server_type, "streamablehttp") {
        Some(TransportKind::StreamableHttp)
    } else {
        None
    }
}

/// The text that reports a connection type without a transport.
pub fn unsupported_type_message(server_type: &str) -> (r: String)
    ensures
        r@ == "Unsupported server type: "@ + server_type@,
{
    concat("Unsupported server type: ", server_type)
}

/// The settings for every server entry, in order: each entry's name with the outcome
/// of `create_connection_config` for it.
pub fn init_connections_from_config(config: &AppConfig) -> (r: Vec<
    (String, Result<ServerConnectionConfig, ConfigError>),
>)
    ensures
        r@.len() == config.mcp_servers@.len(),
        forall|i: int|
            0 <= i < r@.len() ==> {
                let (name, c) = config.mcp_servers@[i];
                &&& (#[trigger] r@[i]).0@ == name@
                &&& (r@[i].1 is Ok <==> connection_fault(name@, c) is None)
                &&& (r@[i].1 matches Err(e) ==> connection_fault(name@, c) == Some(e@))
                &&& (r@[i].1 matches Ok(cc) ==> settings_for(c, cc))
            },
{
    let mut r: Vec<(String, Result<ServerConnectionConfig, ConfigError>)> = Vec::new();
    let n = config.mcp_servers.len();
    for i in 0..n
        invariant
            n == config.mcp_servers@.len(),
            r@.len() == i,
            forall|k: int|
                0 <= k < i ==> {
                    let (name, c) = config.mcp_servers@[k];
                    &&& (#[trigger] r@[k]).0@ == name@
                    &&& (r@[k].1 is Ok <==> connection_fault(name@, c) is None)
                    &&& (r@[k].1 matches Err(e) ==> connection_fault(name@, c) == Some(e@))
                    &&& (r@[k].1 matches Ok(cc) ==> settings_for(c, cc))
                },
    {
        let entry = &config.mcp_servers[i];
        let outcome = create_connection_config(entry.0.as_str(), &entry.1);
        r.push((entry.0.clone(), outcome));
    }
    r
}

/// The types that validation and connection both know.
pub open spec fn is_known_type(t: Seq<char>) -> bool {
    t == "stdio"@ || t == "sse"@ || t == "streamable-http"@
}

/// A server entry that passes validation and declares a known type can be connected:
/// its connection settings can be built, and their type calls for a supported
/// transport that finds what it needs (a command for stdio, a url otherwise).
pub proof fn law_valid_entry_connects(name: Seq<char>, c: McpServerConfig)
    requires
        validation_fault(name, c) is None,
        is_known_type(declared_type(c)),
    ensures
        connection_fault(name, c) is None,
        transport_for(connection_type(c)) is Some,
        transport_for(connection_type(c)) == Some(TransportKind::Stdio) ==> c.command is Some,
        transport_for(connection_type(c)) != Some(TransportKind::Stdio) ==> c.url is Some,
{
    reveal_strlit("stdio");
    reveal_strlit("sse");
    reveal_strlit("streamable-http");
    reveal_strlit("streamable_http");
    reveal_strlit("streamablehttp");
    assert("stdio"@.len() == 5);
    assert("sse"@.len() == 3);
    assert("streamable-http"@.len() == 15);
    assert("streamable_http"@.len() == 15);
    assert("streamablehttp"@.len() == 14);
    assert("streamable-http"@[10] != "streamable_http"@[10]);
}

/// A configuration that passes validation, and whose entries all declare known types,
/// has connection settings for every server.
pub proof fn law_valid_config_connects_all(config: AppConfig)
    requires
        crate::config::config_fault(config.mcp_servers@) is None,
        forall|i: int|
            0 <= i < config.mcp_servers@.len() ==> is_known_type(
                declared_type(#[trigger] config.mcp_servers@[i].1),
            ),
    ensures
        forall|i: int|
            0 <= i < config.mcp_servers@.len() ==> connection_fault(
                (#[trigger] config.mcp_servers@[i]).0@,
                config.mcp_servers@[i].1,
            ) is None,
{
    crate::config::lemma_first_fault(config.mcp_servers@);
    assert forall|i: int| 0 <= i < config.mcp_servers@.len() implies connection_fault(
        (#[trigger] config.mcp_servers@[i]).0@,
        config.mcp_servers@[i].1,
    ) is None by {
        let (name, c) = config.mcp_servers@[i];
        assert(validation_fault(config.mcp_servers@[i].0@, config.mcp_servers@[i].1) is None);
        law_valid_entry_connects(name@, c);
    }
}

/// The settings of a remote entry (of any remote type) carry the entry's address, as
/// their only argument too, and exactly the entry's headers: the same map, and none only
/// when the entry has none.
pub proof fn law_remote_settings_keep_headers(c: McpServerConfig, cc: ServerConnectionConfig)
    requires
        settings_for(c, cc),
        connection_type(c) != "stdio"@,
    ensures
        c.headers is Some <==> cc.headers is Some,
        c.headers matches Some(h) ==> cc.headers->0@ == h@,
        opt_view(cc.url) == opt_view(c.url),
        c.url matches Some(u) ==> views(cc.args@) == seq![u@],
{
}

/// The settings of a stdio entry carry its command, its arguments (none when it lists
/// none) and its environment, and no url or headers.
pub proof fn law_stdio_settings_keep_command(c: McpServerConfig, cc: ServerConnectionConfig)
    requires
        settings_for(c, cc),
        connection_type(c) == "stdio"@,
    ensures
        opt_view(cc.command) == opt_view(c.command),
        c.args matches Some(a) ==> views(cc.args@) == views(a@),
        c.args is None ==> cc.args@.len() == 0,
        c.env matches Some(e) ==> cc.env@ == e@,
        c.env is None ==> cc.env@ == Map::<String, String>::empty(),
        cc.url is None,
        cc.headers is None,
{
    assert(views(cc.args@).len() == cc.args@.len());
}

/// An entry can be connected exactly when a stdio entry has a command and a remote one
/// has a url.
pub proof fn law_connectable_entries(name: Seq<char>, c: McpServerConfig)
    ensures
        connection_fault(name, c) is None <==> (if connection_type(c) == "stdio"@ {
            c.command is Some
        } else {
            c.url is Some
        }),
{
}

} // verus!
