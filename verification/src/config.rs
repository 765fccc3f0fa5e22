//! The configuration file's model, its validation, and the server type names.
use std::collections::HashMap;
use vstd::prelude::*;

use crate::text::{concat3, owned, str_eq};

verus! {

/// One MCP server entry of the configuration file.
#[derive(Debug, Clone)]
pub struct McpServerConfig {
    pub command: Option<String>,
    pub args: Option<Vec<String>>,
    pub env: Option<HashMap<String, String>>,
    pub url: Option<String>,
    pub server_type: Option<String>,
    pub headers: Option<HashMap<String, String>>,
    pub disabled_tools: Option<Vec<String>>,
    pub oauth: Option<OAuthConfig>,
}

/// OAuth settings of a server entry.
#[derive(Debug, Clone)]
pub struct OAuthConfig {
    pub server_url: String,
    pub storage_type: Option<String>,
    pub callback_port: Option<u16>,
    pub use_loopback: Option<bool>,
}

/// The whole configuration file: the named server entries, in the order they are
/// handed over (no name occurs twice in a file that was read from JSON).
#[derive(Debug, Clone)]
pub struct AppConfig {
    pub mcp_servers: Vec<(String, McpServerConfig)>,
}

impl AppConfig {
    /// No two entries share a name.
    pub open spec fn names_distinct(&self) -> bool {
        forall|i: int, j: int|
            0 <= i < j < self.mcp_servers@.len() ==> #[trigger] self.mcp_servers@[i].0@
                != #[trigger] self.mcp_servers@[j].0@
    }
}

/// Why a configuration was refused, in mathematical form.
pub enum ConfigFault {
    NoServers,
    MissingUrl(Seq<char>, Seq<char>),
    MissingTransport(Seq<char>),
    MissingCommand(Seq<char>),
    MissingRemoteUrl(Seq<char>),
}

/// Why a configuration was refused.
#[derive(Debug, Clone, PartialEq)]
pub enum ConfigError {
    /// The file names no server.
    NoServers,
    /// A remote server (by name, and its type) has no `url`.
    MissingUrl { name: String, server_type: String },
    /// A server has neither a `command` nor a remote type.
    MissingTransport { name: String },
    /// A stdio server has no `command` when its connection is set up.
    MissingCommand { name: String },
    /// A remote server has no `url` when its connection is set up.
    MissingRemoteUrl { name: String },
}

impl View for ConfigError {
    type V = ConfigFault;

    open spec fn view(&self) -> ConfigFault {
        match self {
            ConfigError::NoServers => ConfigFault::NoServers,
            ConfigError::MissingUrl { name, server_type } => ConfigFault::MissingUrl(
                name@,
                server_type@,
            ),
            ConfigError::MissingTransport { name } => ConfigFault::MissingTransport(name@),
            ConfigError::MissingCommand { name } => ConfigFault::MissingCommand(name@),
            ConfigError::MissingRemoteUrl { name } => ConfigFault::MissingRemoteUrl(name@),
        }
    }
}

/// The text that reports a refused configuration.
pub open spec fn fault_message(f: ConfigFault) -> Seq<char> {
    match f {
        ConfigFault::NoServers => "No 'mcpServers' found in config file."@,
        ConfigFault::MissingUrl(name, t) => "Server '"@ + name + "' of type '"@ + t
            + "' requires a 'url' field"@,
        ConfigFault::MissingTransport(name) => "Server '"@ + name
            + "' must have either 'command' for stdio or 'type' and 'url' for remote servers"@,
        ConfigFault::MissingCommand(name) => "Missing command for stdio server '"@ + name + "'"@,
        ConfigFault::MissingRemoteUrl(name) => "Missing URL for remote server '"@ + name + "'"@,
    }
}

impl ConfigError {
    /// The text that reports this error.
    pub fn message(&self) -> (r: String)
        ensures
            r@ == fault_message(self@),
    {
        match self {
            ConfigError::NoServers => owned("No 'mcpServers' found in config file."),
            ConfigError::MissingUrl { name, server_type } => {
                let mut r = concat3("Server '", name.as_str(), "' of type '");
                r.append(server_type.as_str());
                r.append("' requires a 'url' field");
                r
            },
            ConfigError::MissingTransport { name } => concat3(
                "Server '",
                name.as_str(),
                "' must have either 'command' for stdio or 'type' and 'url' for remote servers",
            ),
            ConfigError::MissingCommand { name } => concat3(
                "Missing command for stdio server '",
                name.as_str(),
                "'",
            ),
            ConfigError::MissingRemoteUrl { name } => concat3(
                "Missing URL for remote server '",
                name.as_str(),
                "'",
            ),
        }
    }
}

/// The views of an optional string.
pub open spec fn opt_view(o: Option<String>) -> Option<Seq<char>> {
    match o {
        Some(s) => Some(s@),
        None => None,
    }
}

/// The type a server entry declares, `stdio` when it declares none.
pub open spec fn declared_type(c: McpServerConfig) -> Seq<char> {
    match c.server_type {
        Some(t) => t@,
        None => "stdio"@,
    }
}

/// The types whose servers are reached over the network, as validation knows them.
pub open spec fn is_remote_type(t: Seq<char>) -> bool {
    t == "sse"@ || t == "streamable-http"@
}

/// What is wrong with a server entry, if anything.
pub open spec fn validation_fault(name: Seq<char>, c: McpServerConfig) -> Option<ConfigFault> {
    let t = declared_type(c);
    if is_remote_type(t) {
        if c.url is None {
            Some(ConfigFault::MissingUrl(name, t))
        } else {
            None
        }
    } else if c.command is Some {
        None
    } else {
        Some(ConfigFault::MissingTransport(name))
    }
}

/// The declared type of a server entry, `stdio` when it declares none.
pub fn declared_type_of(c: &McpServerConfig) -> (r: &str)
    ensures
        r@ == declared_type(*c),
{
    match &c.server_type {
        Some(t) => t.as_str(),
        None => "stdio",
    }
}

/// Checks one server entry: a remote entry (`sse`, `streamable-http`) needs a `url`,
/// any other needs a `command`.
pub fn validate_server_config(name: &str, config: &McpServerConfig) -> (r: Result<(), ConfigError>)
    ensures
        r is Ok <==> validation_fault(name@, *config) is None,
        r matches Err(e) ==> validation_fault(name@, *config) == Some(e@),
{
    let server_type = declared_type_of(config);
    if str_eq(server_type, "sse") || str_eq(server_type, "streamable-http") {
        if config.url.is_none() {
            return Err(
                ConfigError::MissingUrl { name: owned(name), server_type: owned(server_type) },
            );
        }
    } else if config.command.is_some() {
    } else {
        return Err(ConfigError::MissingTransport { name: owned(name) });
    }
    Ok(())
}

/// What is wrong with a whole configuration, if anything: no server at all, or the
/// fault of the first faulty entry.
pub open spec fn config_fault(servers: Seq<(String, McpServerConfig)>) -> Option<ConfigFault> {
    if servers.len() == 0 {
        Some(ConfigFault::NoServers)
    } else {
        first_fault(servers)
    }
}

/// The fault of the first faulty entry, if any.
pub open spec fn first_fault(servers: Seq<(String, McpServerConfig)>) -> Option<ConfigFault>
    decreases servers.len(),
{
    if servers.len() == 0 {
        None
    } else {
        match validation_fault(servers[0].0@, servers[0].1) {
            Some(f) => Some(f),
            None => first_fault(servers.drop_first()),
        }
    }
}

/// An entry has a fault exactly when the first-fault search finds one.
pub proof fn lemma_first_fault(servers: Seq<(String, McpServerConfig)>)
    ensures
        first_fault(servers) is None <==> forall|i: int|
            0 <= i < servers.len() ==> validation_fault(
                #[trigger] servers[i].0@,
                servers[i].1,
            ) is None,
    decreases servers.len(),
{
    if servers.len() > 0 {
        let rest = servers.drop_first();
        lemma_first_fault(rest);
        if validation_fault(servers[0].0@, servers[0].1) is Some {
            assert(first_fault(servers) is Some);
        } else {
            assert(first_fault(servers) == first_fault(rest));
            if first_fault(rest) is None {
                assert forall|i: int| 0 <= i < servers.len() implies validation_fault(
                    #[trigger] servers[i].0@,
                    servers[i].1,
                ) is None by {
                    if i > 0 {
                        assert(rest[i - 1] == servers[i]);
                    }
                }
            } else {
                let k = choose|k: int|
                    0 <= k < rest.len() && validation_fault(#[trigger] rest[k].0@, rest[k].1) is Some;
                assert(rest[k] == servers[k + 1]);
            }
        }
    }
}

proof fn lemma_first_fault_skip(servers: Seq<(String, McpServerConfig)>, i: int)
    requires
        0 <= i < servers.len(),
        forall|j: int|
            0 <= j < i ==> validation_fault(#[trigger] servers[j].0@, servers[j].1) is None,
    ensures
        first_fault(servers) == first_fault(servers.skip(i)),
    decreases i,
{
    if i > 0 {
        assert(servers.skip(i) =~= servers.drop_first().skip(i - 1));
        assert(validation_fault(servers[0].0@, servers[0].1) is None);
        assert forall|j: int| 0 <= j < i - 1 implies validation_fault(
            #[trigger] servers.drop_first()[j].0@,
            servers.drop_first()[j].1,
        ) is None by {
            assert(servers.drop_first()[j] == servers[j + 1]);
        }
        lemma_first_fault_skip(servers.drop_first(), i - 1);
    } else {
        assert(servers.skip(0) =~= servers);
    }
}

/// Checks a whole configuration (what loading a configuration file checks after
/// parsing it): it must name at least one server, and every entry must pass
/// `validate_server_config`; the error is that of the first entry that fails.
pub fn validate_app_config(config: &AppConfig) -> (r: Result<(), ConfigError>)
    ensures
        r is Ok <==> config_fault(config.mcp_servers@) is None,
        r matches Err(e) ==> config_fault(config.mcp_servers@) == Some(e@),
{
    let n = config.mcp_servers.len();
    if n == 0 {
        return Err(ConfigError::NoServers);
    }
    let ghost all = config.mcp_servers@;
    for i in 0..n
        invariant
            n == all.len(),
            n > 0,
            all == config.mcp_servers@,
            forall|j: int| 0 <= j < i ==> validation_fault(#[trigger] all[j].0@, all[j].1) is None,
    {
        let entry = &config.mcp_servers[i];
        match validate_server_config(entry.0.as_str(), &entry.1) {
            Ok(()) => {},
            Err(e) => {
                proof {
                    lemma_first_fault_skip(all, i as int);
                    assert(all.skip(i as int)[0] == all[i as int]);
                }
                return Err(e);
            },
        }
    }
    proof {
        lemma_first_fault(all);
    }
    Ok(())
}

/// The canonical name of a server type: the spellings of streamable HTTP become
/// `streamable-http`, any other name stays as it is.
pub open spec fn normalized_type(t: Seq<char>) -> Seq<char> {
    if t == "streamable_http"@ || t == "streamablehttp"@ || t == "streamable-http"@ {
        "streamable-http"@
    } else {
        t
    }
}

/// The canonical name of a server type.
pub fn normalize_server_type<'a>(server_type: &'a str) -> (r: &'a str)
    ensures
        r@ == normalized_type(server_type@),
{
    if str_eq(server_type, "streamable_http") || str_eq(server_type, "streamablehttp") || str_eq(
        server_type,
        "streamable-http",
    ) {
        "streamable-http"
    } else {
        server_type
    }
}

/// Normalising a server type twice gives what normalising it once gives.
pub proof fn law_normalize_idempotent(t: Seq<char>)
    ensures
        normalized_type(normalized_type(t)) == normalized_type(t),
{
}

/// An entry that declares no remote type (`sse` or `streamable-http`) and has a command
/// is valid, whatever else it holds (arguments, environment, headers, disabled tools,
/// OAuth); a remote entry with a url is valid too.
pub proof fn law_entries_with_a_transport_are_valid(name: Seq<char>, c: McpServerConfig)
    ensures
        (match c.server_type {
            Some(t) => t@ != "sse"@ && t@ != "streamable-http"@,
            None => true,
        }) && c.command is Some ==> validation_fault(name, c) is None,
        (match c.server_type {
            Some(t) => t@ == "sse"@ || t@ == "streamable-http"@,
            None => false,
        }) && c.url is Some ==> validation_fault(name, c) is None,
{
    reveal_strlit("stdio");
    reveal_strlit("sse");
    reveal_strlit("streamable-http");
    assert("stdio"@.len() != "sse"@.len());
    assert("stdio"@.len() != "streamable-http"@.len());
    assert(!is_remote_type("stdio"@));
}

/// A configuration is accepted exactly when it names at least one server and every
/// entry is valid.
pub proof fn law_config_valid_iff_entries_valid(servers: Seq<(String, McpServerConfig)>)
    ensures
        config_fault(servers) is None <==> servers.len() > 0 && forall|i: int|
            0 <= i < servers.len() ==> validation_fault(#[trigger] servers[i].0@, servers[i].1) is None,
{
    lemma_first_fault(servers);
}

} // verus!
