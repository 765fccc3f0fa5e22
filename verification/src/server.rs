//! The HTTP side's decisions: routes and their replies, the pages, CORS origins, and
//! the setup of the served configuration.
use std::collections::HashMap;
use vstd::prelude::*;

use crate::config::{AppConfig, McpServerConfig};
use crate::header::{header_text, header_text_spec};
use crate::json::{
    as_flag, as_items, as_text, get_member, items_view, lemma_items_push, lemma_items_view,
    members_view, push_member, Json, JsonValue,
};
use crate::mcp::types::{tool_views, Tool};
use crate::openapi::{generate_openapi_spec, obj, openapi_document, s, tool_path_prefix};
use crate::text::{
    clone_strings, concat, concat3, has_prefix, join, join_spec, owned, segments, segments_spec,
    starts_with, str_eq, strip_prefix, trim_end_char, trim_end_char_spec, trim_end_str, trim_end_str_spec, views,
};

verus! {

/// The docs page up to the address of the OpenAPI document.
pub const DOCS_PAGE_HEAD: &'static str = r##"<!DOCTYPE html>
<html>
<head>
    <title>MCPO API Docs</title>
    <meta charset="utf-8"/>
    <meta name="viewport" content="width=device-width, initial-scale=1">
    <link rel="stylesheet" type="text/css" href="https://cdn.jsdelivr.net/npm/swagger-ui-dist@5/swagger-ui.css">
    <style>html{box-sizing:border-box;overflow:-moz-scrollbars-vertical;overflow-y:scroll}*,*:before,*:after{box-sizing:inherit}body{margin:0;background:#fafafa}</style>
</head>
<body>
<div id="swagger-ui"></div>
<script src="https://cdn.jsdelivr.net/npm/swagger-ui-dist@5/swagger-ui-bundle.js"></script>
<script>window.onload=function(){window.ui=SwaggerUIBundle({url:""##;

/// The docs page after the address of the OpenAPI document.
pub const DOCS_PAGE_TAIL: &'static str = r##"",dom_id:"#swagger-ui",presets:[SwaggerUIBundle.presets.apis,SwaggerUIBundle.SwaggerUIStandalonePreset],layout:"BaseLayout"})}</script>
</body>
</html>"##;

/// The index page up to the list of servers.
pub const INDEX_PAGE_HEAD: &'static str = r##"<!DOCTYPE html>
<html>
<head>
    <title>MCPO-RS - MCP Servers</title>
    <meta charset="utf-8"/>
    <meta name="viewport" content="width=device-width, initial-scale=1">
    <style>
        body { font-family: -apple-system, BlinkMacSystemFont, 'Segoe UI', Roboto, sans-serif;
               max-width: 800px; margin: 40px auto; padding: 20px; background: #f5f5f5; }
        h1 { color: #333; }
        ul { list-style: none; padding: 0; }
        li { margin: 10px 0; }
        a { color: #2563eb; text-decoration: none; font-size: 18px; }
        a:hover { text-decoration: underline; }
        .card { background: white; border-radius: 8px; padding: 20px; margin: 10px 0; box-shadow: 0 1px 3px rgba(0,0,0,0.1); }
    </style>
</head>
<body>
    <h1>MCPO-RS - MCP-to-OpenAPI Proxy</h1>
    <p>Available MCP Servers:</p>
    <div class="card">
        <ul>"##;

/// The index page after the list of servers.
pub const INDEX_PAGE_TAIL: &'static str = r##"</ul>
    </div>
</body>
</html>"##;

/// The settings the proxy is started with.
pub struct ServerConfig {
    pub host: String,
    pub port: u16,
    pub api_key: Option<String>,
    pub cors_allow_origins: Vec<String>,
    pub config_path: Option<String>,
    pub server_type: Option<String>,
    pub server_command: Option<Vec<String>>,
    pub name: String,
    pub description: String,
    pub path_prefix: String,
    pub strict_auth: bool,
    pub headers: Option<HashMap<String, String>>,
    pub hot_reload: bool,
}

/// An HTTP reply: its status and its JSON body.
#[derive(Debug)]
pub struct HttpReply {
    pub status: u16,
    pub body: JsonValue,
}

/// The origins that cross-origin requests may come from.
#[derive(Debug)]
pub enum CorsOrigins {
    /// Any origin.
    Any,
    /// Only these origins.
    Listed(Vec<String>),
}

/// Whether cross-origin requests may come from any origin: when no origin is given, or
/// `*` is among them.
pub open spec fn allows_any_origin(origins: Seq<Seq<char>>) -> bool {
    origins.len() == 0 || origins.contains("*"@)
}

/// The origins that the CORS layer admits.
pub fn cors_origins(origins: &Vec<String>) -> (r: CorsOrigins)
    ensures
        allows_any_origin(views(origins@)) ==> r is Any,
        !allows_any_origin(views(origins@)) ==> (r matches CorsOrigins::Listed(l) && views(l@)
            == views(origins@)),
{
    let n = origins.len();
    if n == 0 {
        return CorsOrigins::Any;
    }
    let ghost ov = views(origins@);
    for i in 0..n
        invariant
            n == origins@.len(),
            ov == views(origins@),
            forall|j: int| 0 <= j < i ==> #[trigger] ov[j] != "*"@,
    {
        if str_eq(origins[i].as_str(), "*") {
            assert(ov[i as int] == "*"@);
            return CorsOrigins::Any;
        }
    }
    assert(!ov.contains("*"@));
    CorsOrigins::Listed(clone_strings(origins))
}

/// The server a docs or OpenAPI path belongs to: the segment before `openapi.json` when
/// the path ends with it, else the first segment, else `unknown`.
pub open spec fn server_name_of(path: Seq<char>) -> Seq<char> {
    let segs = segments_spec(path, '/');
    if segs.len() >= 2 && segs.last() == "openapi.json"@ {
        segs[segs.len() - 2]
    } else if segs.len() > 0 {
        segs[0]
    } else {
        "unknown"@
    }
}

/// The server a docs or OpenAPI path belongs to.
pub fn extract_server_name(path: &str) -> (r: String)
    ensures
        r@ == server_name_of(path@),
{
    let segs = segments(path, '/');
    let ghost sv = views(segs@);
    let n = segs.len();
    if n >= 2 && str_eq(segs[n - 1].as_str(), "openapi.json") {
        assert(sv.last() == segs@[n - 1]@);
        segs[n - 2].clone()
    } else if n > 0 {
        segs[0].clone()
    } else {
        owned("unknown")
    }
}

/// The server and tool that a tool call path names: the first segment, and the other
/// segments joined with `_`; nothing for fewer than two segments.
pub open spec fn tool_path_of(path: Seq<char>) -> Option<(Seq<char>, Seq<char>)> {
    let segs = segments_spec(path, '/');
    if segs.len() >= 2 {
        Some((segs[0], join_spec(segs.skip(1), "_"@)))
    } else {
        None
    }
}

/// The server and tool that a tool call path names.
pub fn parse_tool_path(path: &str) -> (r: Option<(String, String)>)
    ensures
        match (r, tool_path_of(path@)) {
            (Some((a, b)), Some((x, y))) => a@ == x && b@ == y,
            (None, None) => true,
            _ => false,
        },
{
    let segs = segments(path, '/');
    let ghost sv = views(segs@);
    let n = segs.len();
    if n >= 2 {
        let mut rest: Vec<String> = Vec::new();
        let mut i: usize = 1;
        while i < n
            invariant
                1 <= i <= n,
                n == segs@.len(),
                sv == views(segs@),
                views(rest@) == sv.subrange(1, i as int),
            decreases n - i,
        {
            let ghost prev = rest@;
            let x = segs[i].clone();
            rest.push(x);
            assert(views(rest@) =~= views(prev).push(sv[i as int]));
            assert(views(rest@) =~= sv.subrange(1, i + 1));
            i = i + 1;
        }
        assert(sv.subrange(1, n as int) =~= sv.skip(1));
        let tool = join(rest.as_slice(), "_");
        Some((segs[0].clone(), tool))
    } else {
        None
    }
}

/// A one-member object with a string value.
fn message_body(key: &str, text: String) -> (r: JsonValue)
    ensures
        r@ == obj(seq![(key@, s(text@))]),
{
    let mut ms: Vec<(String, JsonValue)> = Vec::new();
    assert(members_view(ms@) =~= Seq::empty());
    push_member(&mut ms, key, JsonValue::Str(text));
    assert(members_view(ms@) =~= seq![(key@, s(text@))]);
    JsonValue::Object(ms)
}

/// The reply to a tool call path with fewer than two segments.
pub fn invalid_path_reply() -> (r: HttpReply)
    ensures
        r.status == 404,
        r.body@ == obj(seq![("error"@, s("Invalid path"@))]),
{
    HttpReply { status: 404, body: message_body("error", owned("Invalid path")) }
}

/// The reply to a tool call for a server that is not configured.
pub fn server_not_found_reply(server_name: &str) -> (r: HttpReply)
    ensures
        r.status == 404,
        r.body@ == obj(seq![("error"@, s("Server '"@ + server_name@ + "' not found"@))]),
{
    HttpReply {
        status: 404,
        body: message_body("error", concat3("Server '", server_name, "' not found")),
    }
}

/// The reply to a tool call whose server could not be connected (with the reason).
pub fn connect_failed_reply(reason: &str) -> (r: HttpReply)
    ensures
        r.status == 500,
        r.body@ == obj(seq![("error"@, s("Failed to connect to MCP server: "@ + reason@))]),
{
    HttpReply {
        status: 500,
        body: message_body("error", concat("Failed to connect to MCP server: ", reason)),
    }
}

/// The reply to a tool call that failed on its way (with the reason).
pub fn tool_error_reply(reason: &str) -> (r: HttpReply)
    ensures
        r.status == 500,
        r.body@ == obj(seq![("message"@, s("Tool execution error: "@ + reason@))]),
{
    HttpReply { status: 500, body: message_body("message", concat("Tool execution error: ", reason)) }
}

/// The body of the health check.
pub fn health_body() -> (r: JsonValue)
    ensures
        r@ == obj(seq![("status"@, s("ok"@))]),
{
    message_body("status", owned("ok"))
}

/// What a content item shows: its `text` member when it has one, else the whole item.
pub open spec fn shown_item(c: Json) -> Json {
    match get_member(c, "text"@) {
        Some(t) => t,
        None => c,
    }
}

/// The message of a failed tool result: the text of its first content item, or
/// `Unknown error`.
pub open spec fn error_text(content: Option<Seq<Json>>) -> Seq<char> {
    match content {
        Some(items) => if items.len() > 0 {
            match get_member(items[0], "text"@) {
                Some(t) => match as_text(t) {
                    Some(x) => x,
                    None => "Unknown error"@,
                },
                None => "Unknown error"@,
            }
        } else {
            "Unknown error"@
        },
        None => "Unknown error"@,
    }
}

/// The reply to a tool result: a result flagged `isError` is a 500 with the error's
/// message; otherwise the content items are shown (a single item by itself, several as
/// an array), and a result without content is shown whole.
pub open spec fn tool_reply(result: Json) -> (u16, Json) {
    let content = match get_member(result, "content"@) {
        Some(c) => as_items(c),
        None => None,
    };
    let is_error = match get_member(result, "isError"@) {
        Some(e) => match as_flag(e) {
            Some(b) => b,
            None => false,
        },
        None => false,
    };
    if is_error {
        (500, obj(seq![("message"@, s(error_text(content)))]))
    } else {
        match content {
            Some(items) => {
                let shown = items.map_values(|c: Json| shown_item(c));
                if shown.len() == 1 {
                    (200, shown[0])
                } else {
                    (200, Json::Array(shown))
                }
            },
            None => (200, result),
        }
    }
}

/// What a content item shows.
fn shown_item_value(c: &JsonValue) -> (r: JsonValue)
    ensures
        r@ == shown_item(c@),
{
    match c.get("text") {
        Some(t) => t.deep_clone(),
        None => c.deep_clone(),
    }
}

/// The reply to the result of a tool call.
pub fn tool_call_response(result: &JsonValue) -> (r: HttpReply)
    ensures
        (r.status, r.body@) == tool_reply(result@),
{
    let content = match result.get("content") {
        Some(c) => c.as_array(),
        None => None,
    };
    let is_error = match result.get("isError") {
        Some(e) => match e.as_bool() {
            Some(b) => b,
            None => false,
        },
        None => false,
    };
    let ghost cv = match get_member(result@, "content"@) {
        Some(c) => as_items(c),
        None => None,
    };
    if is_error {
        let msg = match content {
            Some(items) => {
                proof {
                    lemma_items_view(items@);
                }
                if items.len() > 0 {
                    match items[0].get("text") {
                        Some(t) => match t.as_str() {
                            Some(x) => x.clone(),
                            None => owned("Unknown error"),
                        },
                        None => owned("Unknown error"),
                    }
                } else {
                    owned("Unknown error")
                }
            },
            None => owned("Unknown error"),
        };
        assert(msg@ == error_text(cv));
        return HttpReply { status: 500, body: message_body("message", msg) };
    }
    match content {
        Some(items) => {
            proof {
                lemma_items_view(items@);
            }
            let ghost iv = items_view(items@);
            let mut shown: Vec<JsonValue> = Vec::new();
            let n = items.len();
            for i in 0..n
                invariant
                    n == items@.len(),
                    iv == items_view(items@),
                    iv.len() == n,
                    forall|j: int| 0 <= j < n ==> #[trigger] iv[j] == items@[j]@,
                    items_view(shown@) == iv.take(i as int).map_values(|c: Json| shown_item(c)),
            {
                let v = shown_item_value(&items[i]);
                proof {
                    lemma_items_push(shown@, v);
                }
                shown.push(v);
                assert(iv.take(i + 1).map_values(|c: Json| shown_item(c)) =~= iv.take(
                    i as int,
                ).map_values(|c: Json| shown_item(c)).push(shown_item(iv[i as int])));
            }
            assert(iv.take(n as int) =~= iv);
            proof {
                lemma_items_view(shown@);
            }
            if shown.len() == 1 {
                let only = shown.pop().unwrap();
                HttpReply { status: 200, body: only }
            } else {
                HttpReply { status: 200, body: JsonValue::Array(shown) }
            }
        },
        None => HttpReply { status: 200, body: result.deep_clone() },
    }
}

/// The host named in the document: the `Host` header's text, else `localhost`.
pub open spec fn host_of(host_header: Option<Seq<u8>>) -> Seq<char> {
    match host_header {
        Some(b) => match header_text_spec(b) {
            Some(t) => t,
            None => "localhost"@,
        },
        None => "localhost"@,
    }
}

/// The reply to a request for a server's OpenAPI document: the document for its tools
/// (described as `<server> MCP Server API`, for the requested host, under the path
/// prefix its routes are mounted at), or a 404 when the server's tools are not known.
pub fn openapi_response(
    server_name: &str,
    tools: Option<&Vec<Tool>>,
    host_header: Option<&[u8]>,
    path_prefix: &str,
) -> (r: HttpReply)
    ensures
        tools is None ==> r.status == 404 && r.body@ == obj(
            seq![("error"@, s("Server '"@ + server_name@ + "' not found or not connected"@))],
        ),
        tools matches Some(ts) ==> r.status == 200 && r.body@ == openapi_document(
            server_name@,
            server_name@ + " MCP Server API"@,
            tool_views(ts@),
            host_of(
                match host_header {
                    Some(b) => Some(b@),
                    None => None,
                },
            ),
            path_prefix@,
        ),
{
    match tools {
        Some(ts) => {
            let host = match host_header {
                Some(b) => match header_text(b) {
                    Some(t) => t,
                    None => owned("localhost"),
                },
                None => owned("localhost"),
            };
            let description = concat(server_name, " MCP Server API");
            let spec = generate_openapi_spec(
                server_name,
                description.as_str(),
                ts.as_slice(),
                host.as_str(),
                path_prefix,
            );
            HttpReply { status: 200, body: spec }
        },
        None => HttpReply {
            status: 404,
            body: message_body(
                "error",
                concat3("Server '", server_name, "' not found or not connected"),
            ),
        },
    }
}

/// The address of the OpenAPI document for a docs page path: the path without its
/// trailing `/docs` parts and slashes, then `/openapi.json`.
pub open spec fn docs_spec_url(path: Seq<char>) -> Seq<char> {
    trim_end_char_spec(trim_end_str_spec(path, "/docs"@), '/') + "/openapi.json"@
}

/// The docs page (Swagger UI) for a docs page path.
pub fn docs_page_html(path: &str) -> (r: String)
    ensures
        r@ == DOCS_PAGE_HEAD@ + docs_spec_url(path@) + DOCS_PAGE_TAIL@,
{
    let base = trim_end_char(trim_end_str(path, "/docs").as_str(), '/');
    let url = concat(base.as_str(), "/openapi.json");
    concat3(DOCS_PAGE_HEAD, url.as_str(), DOCS_PAGE_TAIL)
}

/// The index page's entry for one server, whose routes are mounted under the path prefix.
pub open spec fn server_link(prefix: Seq<char>, name: Seq<char>) -> Seq<char> {
    "<li><a href=\""@ + tool_path_prefix(name, prefix) + "/docs\">"@ + name + " API Docs</a></li>"@
}

/// The index page's entries, in order.
pub open spec fn server_links(prefix: Seq<char>, names: Seq<Seq<char>>) -> Seq<char>
    decreases names.len(),
{
    if names.len() == 0 {
        Seq::empty()
    } else {
        server_links(prefix, names.drop_last()) + server_link(prefix, names.last())
    }
}

/// Where a server's routes are mounted: the path prefix (without trailing slashes), a
/// slash and the server name, the prefix of the tool routes in its OpenAPI document.
pub fn server_route_base(path_prefix: &str, server: &str) -> (r: String)
    ensures
        r@ == tool_path_prefix(server@, path_prefix@),
{
    let base = trim_end_char(path_prefix, '/');
    concat3(base.as_str(), "/", server)
}

/// The part of a request path below the path prefix: what follows the prefix (without
/// trailing slashes) when a slash follows it there.
pub open spec fn route_within(path: Seq<char>, path_prefix: Seq<char>) -> Option<Seq<char>> {
    let base = trim_end_char_spec(path_prefix, '/');
    if has_prefix(path, base + "/"@) {
        Some(path.skip(base.len() as int))
    } else {
        None
    }
}

/// The part of a request path below the path prefix.
pub fn path_within_prefix(path: &str, path_prefix: &str) -> (r: Option<String>)
    ensures
        match (r, route_within(path@, path_prefix@)) {
            (Some(a), Some(b)) => a@ == b,
            (None, None) => true,
            _ => false,
        },
{
    let base = trim_end_char(path_prefix, '/');
    let marker = concat(base.as_str(), "/");
    if starts_with(path, marker.as_str()) {
        match strip_prefix(path, base.as_str()) {
            Some(rest) => Some(rest),
            None => {
                assert(marker@.subrange(0, base@.len() as int) =~= base@);
                assert(path@.subrange(0, base@.len() as int) =~= path@.subrange(0, marker@.len() as int).subrange(0, base@.len() as int));
                None
            },
        }
    } else {
        None
    }
}

/// The index page, which links to each server's docs page under the path prefix.
pub fn index_page_html(servers: &Vec<String>, path_prefix: &str) -> (r: String)
    ensures
        r@ == INDEX_PAGE_HEAD@ + server_links(path_prefix@, views(servers@)) + INDEX_PAGE_TAIL@,
{
    let ghost sv = views(servers@);
    let mut links = String::new();
    let n = servers.len();
    for i in 0..n
        invariant
            n == servers@.len(),
            sv == views(servers@),
            links@ == server_links(path_prefix@, sv.take(i as int)),
    {
        assert(sv.take(i + 1).drop_last() =~= sv.take(i as int));
        let name = servers[i].as_str();
        let base = server_route_base(path_prefix, name);
        links.append("<li><a href=\"");
        links.append(base.as_str());
        links.append("/docs\">");
        links.append(name);
        links.append(" API Docs</a></li>");
        assert(links@ =~= server_links(path_prefix@, sv.take(i + 1)));
    }
    assert(sv.take(n as int) =~= sv);
    concat3(INDEX_PAGE_HEAD, links.as_str(), INDEX_PAGE_TAIL)
}

/// How the API key is reported at startup.
pub open spec fn api_key_status_spec(api_key: Option<Seq<char>>) -> Seq<char> {
    match api_key {
        Some(k) => if k.len() == 0 {
            "Not Provided"@
        } else {
            "Provided"@
        },
        None => "Not Provided"@,
    }
}

/// How the API key is reported at startup: `Provided` only for a nonempty key.
pub fn api_key_status(api_key: Option<&str>) -> (r: &'static str)
    ensures
        r@ == api_key_status_spec(
            match api_key {
                Some(k) => Some(k@),
                None => None,
            },
        ),
{
    match api_key {
        Some(k) => if k.unicode_len() == 0 {
            "Not Provided"
        } else {
            "Provided"
        },
        None => "Not Provided",
    }
}

/// The names of the configured servers, in order.
pub fn server_names(config: &AppConfig) -> (r: Vec<String>)
    ensures
        views(r@) == config.mcp_servers@.map_values(|e: (String, McpServerConfig)| e.0@),
{
    let mut r: Vec<String> = Vec::new();
    let n = config.mcp_servers.len();
    for i in 0..n
        invariant
            n == config.mcp_servers@.len(),
            views(r@) == config.mcp_servers@.take(i as int).map_values(
                |e: (String, McpServerConfig)| e.0@,
            ),
    {
        let ghost prev = r@;
        let x = config.mcp_servers[i].0.clone();
        r.push(x);
        assert(views(r@) =~= views(prev).push(config.mcp_servers@[i as int].0@));
        assert(views(r@) =~= config.mcp_servers@.take(i + 1).map_values(
            |e: (String, McpServerConfig)| e.0@,
        ));
    }
    assert(config.mcp_servers@.take(n as int) =~= config.mcp_servers@);
    r
}

/// Whether `name` is among `list`.
pub fn contains_name(list: &Vec<String>, name: &str) -> (r: bool)
    ensures
        r == views(list@).contains(name@),
{
    let ghost lv = views(list@);
    let n = list.len();
    for i in 0..n
        invariant
            n == list@.len(),
            lv == views(list@),
            forall|j: int| 0 <= j < i ==> #[trigger] lv[j] != name@,
    {
        if str_eq(list[i].as_str(), name) {
            assert(lv[i as int] == name@);
            return true;
        }
    }
    false
}

/// The tools that are not disabled, in their order.
pub open spec fn enabled_tools(tools: Seq<crate::mcp::types::ToolView>, disabled: Seq<Seq<char>>) -> Seq<
    crate::mcp::types::ToolView,
> {
    tools.filter(|t: crate::mcp::types::ToolView| !disabled.contains(t.name))
}

/// The tools whose names are not disabled, in their order.
pub fn filter_disabled_tools(tools: &Vec<Tool>, disabled: &Vec<String>) -> (r: Vec<Tool>)
    ensures
        tool_views(r@) == enabled_tools(tool_views(tools@), views(disabled@)),
{
    let ghost tv = tool_views(tools@);
    let ghost dv = views(disabled@);
    let mut r: Vec<Tool> = Vec::new();
    let n = tools.len();
    for i in 0..n
        invariant
            n == tools@.len(),
            tv == tool_views(tools@),
            dv == views(disabled@),
            tool_views(r@) == enabled_tools(tv.take(i as int), dv),
    {
        proof {
            reveal_with_fuel(Seq::filter, 1);
            assert(tv.take(i + 1).drop_last() =~= tv.take(i as int));
            assert(tv.take(i + 1).last() == tools@[i as int]@);
        }
        let ghost prev = tool_views(r@);
        if !contains_name(disabled, tools[i].name.as_str()) {
            let t = tools[i].copy();
            r.push(t);
            assert(tool_views(r@) =~= prev.push(tools@[i as int]@));
        }
    }
    assert(tv.take(n as int) =~= tv);
    r
}

/// No disabled tool is offered, and every tool that is not disabled is.
pub proof fn law_disabled_tools_hidden(tools: Seq<crate::mcp::types::ToolView>, disabled: Seq<Seq<char>>)
    ensures
        forall|i: int|
            0 <= i < enabled_tools(tools, disabled).len() ==> !disabled.contains(
                #[trigger] enabled_tools(tools, disabled)[i].name,
            ),
        forall|t: crate::mcp::types::ToolView|
            #[trigger] tools.contains(t) && !disabled.contains(t.name) ==> enabled_tools(
                tools,
                disabled,
            ).contains(t),
{
    let p = |t: crate::mcp::types::ToolView| !disabled.contains(t.name);
    assert forall|i: int| 0 <= i < enabled_tools(tools, disabled).len() implies !disabled.contains(
        #[trigger] enabled_tools(tools, disabled)[i].name,
    ) by {
        tools.lemma_filter_pred(p, i);
    }
    assert forall|t: crate::mcp::types::ToolView| #[trigger] tools.contains(t) && !disabled.contains(
        t.name,
    ) implies enabled_tools(tools, disabled).contains(t) by {
        tools.lemma_filter_contains_rev(p, t);
    }
}

/// The disabled tools of the first entry named `name` (none when it lists none, or when
/// no entry has that name).
pub open spec fn disabled_for(servers: Seq<(String, McpServerConfig)>, name: Seq<char>) -> Seq<
    Seq<char>,
>
    decreases servers.len(),
{
    if servers.len() == 0 {
        Seq::<Seq<char>>::empty()
    } else if servers[0].0@ == name {
        match servers[0].1.disabled_tools {
            Some(d) => views(d@),
            None => Seq::<Seq<char>>::empty(),
        }
    } else {
        disabled_for(servers.drop_first(), name)
    }
}

/// The disabled tools of the server named `name`.
pub fn disabled_tools_for(config: &AppConfig, name: &str) -> (r: Vec<String>)
    ensures
        views(r@) == disabled_for(config.mcp_servers@, name@),
{
    let ghost all = config.mcp_servers@;
    let n = config.mcp_servers.len();
    assert(all.skip(0) =~= all);
    for i in 0..n
        invariant
            n == all.len(),
            all == config.mcp_servers@,
            disabled_for(all, name@) == disabled_for(all.skip(i as int), name@),
    {
        assert(all.skip(i as int)[0] == all[i as int]);
        assert(all.skip(i as int).drop_first() =~= all.skip(i + 1));
        let entry = &config.mcp_servers[i];
        if str_eq(entry.0.as_str(), name) {
            return match &entry.1.disabled_tools {
                Some(d) => clone_strings(d),
                None => {
                    let e: Vec<String> = Vec::new();
                    assert(views(e@) =~= Seq::<Seq<char>>::empty());
                    e
                },
            };
        }
    }
    assert(all.skip(n as int) =~= Seq::<(String, McpServerConfig)>::empty());
    let e: Vec<String> = Vec::new();
    assert(views(e@) =~= Seq::<Seq<char>>::empty());
    e
}

/// Why the proxy cannot start.
#[derive(Debug)]
pub enum ServeError {
    /// Neither a configuration file nor a server command was given.
    NoServerSource,
}

impl ServeError {
    /// The text that reports this error.
    pub fn message(&self) -> (r: String)
        ensures
            r@ == "Either --config or a server command must be provided"@,
    {
        owned("Either --config or a server command must be provided")
    }
}

/// Where the served configuration comes from.
#[derive(Debug)]
pub enum ConfigSource {
    /// A configuration file, to be read from this path.
    File(String),
    /// A single server given on the command line.
    Single(AppConfig),
}

/// The entry of the single server given by a command line: a stdio server runs the
/// first word with the others as arguments; another type connects to the first word as
/// its url.
pub open spec fn single_entry(
    server_type: Option<Seq<char>>,
    command: Seq<Seq<char>>,
    headers: Option<Map<String, String>>,
    c: McpServerConfig,
) -> bool {
    let t = match server_type {
        Some(t) => t,
        None => "stdio"@,
    };
    &&& c.env is None
    &&& c.disabled_tools is None
    &&& c.oauth is None
    &&& match (c.headers, headers) {
        (Some(h), Some(h2)) => h@ == h2,
        (None, None) => true,
        _ => false,
    }
    &&& if t == "stdio"@ {
        &&& c.command matches Some(x) && x@ == command[0]
        &&& c.args matches Some(a) && views(a@) == command.skip(1)
        &&& c.url is None
        &&& c.server_type matches Some(x) && x@ == "stdio"@
    } else {
        &&& c.command is None
        &&& c.args is None
        &&& c.url matches Some(x) && x@ == command[0]
        &&& c.server_type matches Some(x) && x@ == t
    }
}

/// The configuration of a single server given by a command line, named `name`.
pub fn single_server_config(
    name: &str,
    server_type: Option<&str>,
    command: &Vec<String>,
    headers: Option<&HashMap<String, String>>,
) -> (r: AppConfig)
    requires
        command@.len() >= 1,
    ensures
        r.names_distinct(),
        r.mcp_servers@.len() == 1,
        r.mcp_servers@[0].0@ == name@,
        single_entry(
            match server_type {
                Some(t) => Some(t@),
                None => None,
            },
            views(command@),
            match headers {
                Some(h) => Some(h@),
                None => None,
            },
            r.mcp_servers@[0].1,
        ),
{
    let t = match server_type {
        Some(t) => t,
        None => "stdio",
    };
    let hs = match headers {
        Some(h) => Some(h.clone()),
        None => None,
    };
    let ghost cv = views(command@);
    let cfg = if str_eq(t, "stdio") {
        let mut rest: Vec<String> = Vec::new();
        let n = command.len();
        let mut i: usize = 1;
        while i < n
            invariant
                1 <= i <= n,
                n == command@.len(),
                cv == views(command@),
                views(rest@) == cv.subrange(1, i as int),
            decreases n - i,
        {
            let ghost prev = rest@;
            let x = command[i].clone();
            rest.push(x);
            assert(views(rest@) =~= views(prev).push(cv[i as int]));
            assert(views(rest@) =~= cv.subrange(1, i + 1));
            i = i + 1;
        }
        assert(cv.subrange(1, n as int) =~= cv.skip(1));
        McpServerConfig {
            command: Some(command[0].clone()),
            args: Some(rest),
            env: None,
            url: None,
            server_type: Some(owned("stdio")),
            headers: hs,
            disabled_tools: None,
            oauth: None,
        }
    } else {
        McpServerConfig {
            command: None,
            args: None,
            env: None,
            url: Some(command[0].clone()),
            server_type: Some(owned(t)),
            headers: hs,
            disabled_tools: None,
            oauth: None,
        }
    };
    let mut servers: Vec<(String, McpServerConfig)> = Vec::new();
    servers.push((owned(name), cfg));
    AppConfig { mcp_servers: servers }
}

/// Where the served configuration comes from: the configuration file when one is
/// given, else the single server of the command line (with the proxy's name and the
/// given headers), else nowhere.
pub fn choose_config_source(config: &ServerConfig) -> (r: Result<ConfigSource, ServeError>)
    requires
        config.config_path is None ==> (config.server_command matches Some(c) ==> c@.len() >= 1),
    ensures
        config.config_path matches Some(p) ==> (r matches Ok(ConfigSource::File(q)) && q@ == p@),
        config.config_path is None && config.server_command is None ==> r matches Err(
            ServeError::NoServerSource,
        ),
        config.config_path is None && config.server_command is Some ==> (r matches Ok(
            ConfigSource::Single(app),
        ) && app.mcp_servers@.len() == 1 && app.names_distinct() && app.mcp_servers@[0].0@ == config.name@
            && single_entry(
            match config.server_type {
                Some(t) => Some(t@),
                None => None,
            },
            views(config.server_command->0@),
            match config.headers {
                Some(h) => Some(h@),
                None => None,
            },
            app.mcp_servers@[0].1,
        )),
{
    match &config.config_path {
        Some(p) => Ok(ConfigSource::File(p.clone())),
        None => match &config.server_command {
            Some(cmd) => {
                let t = match &config.server_type {
                    Some(t) => Some(t.as_str()),
                    None => None,
                };
                let h = match &config.headers {
                    Some(h) => Some(h),
                    None => None,
                };
                Ok(ConfigSource::Single(single_server_config(config.name.as_str(), t, cmd, h)))
            },
            None => Err(ServeError::NoServerSource),
        },
    }
}

/// Whether a request for an OpenAPI document first connects its server: only when the
/// server's tools are not known yet, the server is configured, and it has no session.
pub fn connect_before_document(tools_known: bool, configured: bool, has_session: bool) -> (r: bool)
    ensures
        r == (!tools_known && configured && !has_session),
{
    !tools_known && configured && !has_session
}

/// The pieces of `/<n>/<m>` between slashes, for `n` and `m` without slashes.
proof fn lemma_two_segment_path(n: Seq<char>, m: Seq<char>)
    requires
        crate::text::free_of(n, '/'),
        crate::text::free_of(m, '/'),
    ensures
        crate::text::split_spec("/"@ + n + "/"@ + m, '/') == seq![Seq::<char>::empty(), n, m],
{
    reveal_strlit("/");
    let e = Seq::<char>::empty();
    let p1 = e.push('/');
    crate::text::lemma_split_push_sep(e, '/');
    assert(crate::text::split_spec(e, '/') == seq![e]);
    assert(crate::text::split_spec(p1, '/') =~= seq![e, e]);
    crate::text::lemma_split_append_plain(p1, n, '/');
    assert(e + n =~= n);
    assert(crate::text::split_spec(p1 + n, '/') =~= seq![e, n]);
    let p3 = (p1 + n).push('/');
    crate::text::lemma_split_push_sep(p1 + n, '/');
    assert(crate::text::split_spec(p3, '/') =~= seq![e, n, e]);
    crate::text::lemma_split_append_plain(p3, m, '/');
    assert(crate::text::split_spec(p3 + m, '/') =~= seq![e, n, m]);
    assert("/"@ + n + "/"@ + m =~= p3 + m);
}

/// The nonempty pieces of `/<n>/<m>` between slashes, for nonempty `n` and `m` without
/// slashes.
proof fn lemma_two_segments(n: Seq<char>, m: Seq<char>)
    requires
        crate::text::free_of(n, '/'),
        crate::text::free_of(m, '/'),
        n.len() > 0,
        m.len() > 0,
    ensures
        segments_spec("/"@ + n + "/"@ + m, '/') == seq![n, m],
{
    lemma_two_segment_path(n, m);
    let e = Seq::<char>::empty();
    reveal_with_fuel(Seq::filter, 4);
    let all = seq![e, n, m];
    assert(all.drop_last() =~= seq![e, n]);
    assert(all.drop_last().drop_last() =~= seq![e]);
    assert(all.drop_last().drop_last().drop_last() =~= Seq::<Seq<char>>::empty());
    assert(all.filter(|p: Seq<char>| p.len() > 0) =~= seq![n, m]);
}

/// The OpenAPI route of a server, `/<name>/openapi.json`, is read back as that server's
/// name (for a nonempty name without slashes).
pub proof fn law_openapi_route_names_server(name: Seq<char>)
    requires
        name.len() > 0,
        crate::text::free_of(name, '/'),
    ensures
        server_name_of("/"@ + name + "/"@ + "openapi.json"@) == name,
{
    reveal_strlit("openapi.json");
    assert(crate::text::free_of("openapi.json"@, '/'));
    lemma_two_segments(name, "openapi.json"@);
}

/// A tool route `/<server>/<tool>` is read back as that server and that tool (for
/// nonempty names without slashes).
pub proof fn law_tool_route_names_tool(server: Seq<char>, tool: Seq<char>)
    requires
        server.len() > 0,
        tool.len() > 0,
        crate::text::free_of(server, '/'),
        crate::text::free_of(tool, '/'),
    ensures
        tool_path_of("/"@ + server + "/"@ + tool) == Some((server, tool)),
{
    lemma_two_segments(server, tool);
    assert(seq![server, tool].skip(1) =~= seq![tool]);
}

/// The docs page of a server, `/<name>/docs`, points at that server's OpenAPI route
/// `/<name>/openapi.json` (for a nonempty name without slashes other than `docs`).
pub proof fn law_docs_page_points_to_document(name: Seq<char>)
    requires
        name.len() > 0,
        crate::text::free_of(name, '/'),
        name != "docs"@,
    ensures
        docs_spec_url("/"@ + name + "/"@ + "docs"@) == "/"@ + name + "/"@ + "openapi.json"@,
{
    reveal_strlit("/");
    reveal_strlit("docs");
    reveal_strlit("/docs");
    reveal_strlit("/openapi.json");
    reveal_strlit("openapi.json");
    let full = "/"@ + name + "/"@ + "docs"@;
    let stem = "/"@ + name;
    assert("/docs"@ =~= "/"@ + "docs"@);
    assert(full =~= stem + "/docs"@);
    assert(crate::text::has_suffix(full, "/docs"@)) by {
        assert(full.subrange(full.len() - 5, full.len() as int) =~= "/docs"@);
    }
    assert(full.subrange(0, full.len() - 5) =~= stem);
    assert(!crate::text::has_suffix(stem, "/docs"@)) by {
        if stem.len() >= 5 {
            let tail = stem.subrange(stem.len() - 5, stem.len() as int);
            if tail == "/docs"@ {
                if stem.len() == 5 {
                    assert(stem =~= tail);
                    assert(name =~= stem.skip(1));
                    assert("/docs"@.skip(1) =~= "docs"@);
                    assert(name =~= "docs"@);
                } else {
                    assert(tail[0] == '/');
                    assert(tail[0] == stem[stem.len() - 5]);
                    assert(stem[stem.len() - 5] == name[stem.len() - 6]);
                    assert(0 <= stem.len() - 6 < name.len());
                }
            }
        }
    }
    assert("/docs"@.len() == 5);
    assert(trim_end_str_spec(stem, "/docs"@) == stem);
    assert(trim_end_str_spec(full, "/docs"@) == trim_end_str_spec(
        full.subrange(0, full.len() - "/docs"@.len()),
        "/docs"@,
    ));
    assert(trim_end_str_spec(full, "/docs"@) == stem);
    assert(stem.last() == name.last());
    assert(stem.last() != '/');
    assert(trim_end_char_spec(stem, '/') == stem);
    assert(stem + "/openapi.json"@ =~= "/"@ + name + "/"@ + "openapi.json"@);
}

/// With distinct names, the disabled tools looked up by a server's name are those of
/// that server's own entry (as a map keyed by name would give them).
pub proof fn law_disabled_tools_of_own_entry(config: AppConfig, i: int)
    requires
        config.names_distinct(),
        0 <= i < config.mcp_servers@.len(),
    ensures
        disabled_for(config.mcp_servers@, config.mcp_servers@[i].0@) == match config.mcp_servers@[i].1.disabled_tools {
            Some(d) => views(d@),
            None => Seq::<Seq<char>>::empty(),
        },
{
    lemma_disabled_for_entry(config.mcp_servers@, i);
}

proof fn lemma_disabled_for_entry(servers: Seq<(String, McpServerConfig)>, i: int)
    requires
        0 <= i < servers.len(),
        forall|a: int, b: int|
            0 <= a < b < servers.len() ==> #[trigger] servers[a].0@ != #[trigger] servers[b].0@,
    ensures
        disabled_for(servers, servers[i].0@) == match servers[i].1.disabled_tools {
            Some(d) => views(d@),
            None => Seq::<Seq<char>>::empty(),
        },
    decreases i,
{
    if i > 0 {
        let rest = servers.drop_first();
        assert(servers[0].0@ != servers[i].0@);
        assert forall|a: int, b: int| 0 <= a < b < rest.len() implies #[trigger] rest[a].0@
            != #[trigger] rest[b].0@ by {
            assert(rest[a] == servers[a + 1]);
            assert(rest[b] == servers[b + 1]);
        }
        assert(rest[i - 1] == servers[i]);
        lemma_disabled_for_entry(rest, i - 1);
    }
}

/// What handling a tool call does next.
#[derive(Debug)]
pub enum ToolCallAction {
    /// Answer with this reply.
    Reply(HttpReply),
    /// Connect the server first.
    Connect,
    /// Call the tool.
    Call,
}

/// The next step once the server's connection has been looked up: a server that is not
/// configured gets a 404; one without a session is connected first; else the tool is
/// called.
pub fn after_lookup(server_name: &str, configured: bool, has_session: bool) -> (r: ToolCallAction)
    ensures
        !configured ==> (r matches ToolCallAction::Reply(rep) && rep.status == 404 && rep.body@
            == obj(seq![("error"@, s("Server '"@ + server_name@ + "' not found"@))])),
        configured && !has_session ==> r is Connect,
        configured && has_session ==> r is Call,
{
    if !configured {
        ToolCallAction::Reply(server_not_found_reply(server_name))
    } else if !has_session {
        ToolCallAction::Connect
    } else {
        ToolCallAction::Call
    }
}

/// The next step once connecting has ended: call the tool, or answer with the failure.
pub fn after_connect(outcome: Result<(), &str>) -> (r: ToolCallAction)
    ensures
        outcome is Ok ==> r is Call,
        outcome matches Err(reason) ==> (r matches ToolCallAction::Reply(rep) && rep.status
            == 500 && rep.body@ == obj(
            seq![("error"@, s("Failed to connect to MCP server: "@ + reason@))],
        )),
{
    match outcome {
        Ok(()) => ToolCallAction::Call,
        Err(reason) => ToolCallAction::Reply(connect_failed_reply(reason)),
    }
}

/// The reply once the tool call has ended: the result's reply, or the failure.
pub fn after_call(outcome: Result<&JsonValue, &str>) -> (r: HttpReply)
    ensures
        outcome matches Ok(result) ==> (r.status, r.body@) == tool_reply(result@),
        outcome matches Err(reason) ==> r.status == 500 && r.body@ == obj(
            seq![("message"@, s("Tool execution error: "@ + reason@))],
        ),
{
    match outcome {
        Ok(result) => tool_call_response(result),
        Err(reason) => tool_error_reply(reason),
    }
}

/// In the OpenAPI document that the proxy serves for a server under a path prefix,
/// every tool (of a list with distinct names) is documented under the route
/// `<prefix>/<server>/<tool>` (`/<server>/<tool>` with no prefix); below the prefix that
/// route is `/<server>/<tool>`, which the tool call route reads back as that server and
/// that tool (for nonempty names without slashes).
pub proof fn law_documented_routes_are_served(
    server: Seq<char>,
    prefix: Seq<char>,
    tools: Seq<crate::mcp::types::ToolView>,
)
    requires
        forall|i: int, j: int|
            0 <= i < j < tools.len() ==> #[trigger] tools[i].name != #[trigger] tools[j].name,
    ensures
        forall|i: int|
            0 <= i < tools.len() ==> crate::json::lookup(
                crate::openapi::all_paths(server, tool_path_prefix(server, prefix), tools),
                trim_end_char_spec(prefix, '/') + "/"@ + server + "/"@ + (#[trigger] tools[i]).name,
            ) == Some(obj(seq![("post"@, crate::openapi::post_operation(server, tools[i]))])),
        forall|i: int|
            0 <= i < tools.len() ==> route_within(
                trim_end_char_spec(prefix, '/') + "/"@ + server + "/"@ + (#[trigger] tools[i]).name,
                prefix,
            ) == Some("/"@ + server + "/"@ + tools[i].name),
        forall|i: int|
            0 <= i < tools.len() && server.len() > 0 && crate::text::free_of(server, '/')
                && (#[trigger] tools[i]).name.len() > 0 && crate::text::free_of(tools[i].name, '/')
                ==> tool_path_of("/"@ + server + "/"@ + tools[i].name) == Some((server, tools[i].name)),
{
    let base = trim_end_char_spec(prefix, '/');
    let rp = tool_path_prefix(server, prefix);
    crate::openapi::law_every_tool_documented(server, rp, tools);
    assert forall|i: int| 0 <= i < tools.len() implies crate::json::lookup(
        crate::openapi::all_paths(server, rp, tools),
        base + "/"@ + server + "/"@ + (#[trigger] tools[i]).name,
    ) == Some(obj(seq![("post"@, crate::openapi::post_operation(server, tools[i]))])) by {
        assert(crate::openapi::tool_route(rp, tools[i].name) =~= base + "/"@ + server + "/"@ + tools[i].name);
    }
    assert forall|i: int| 0 <= i < tools.len() implies route_within(
        base + "/"@ + server + "/"@ + (#[trigger] tools[i]).name,
        prefix,
    ) == Some("/"@ + server + "/"@ + tools[i].name) by {
        let full = base + "/"@ + server + "/"@ + tools[i].name;
        assert(full.subrange(0, (base + "/"@).len() as int) =~= base + "/"@);
        assert(full.skip(base.len() as int) =~= "/"@ + server + "/"@ + tools[i].name);
    }
    assert forall|i: int|
        0 <= i < tools.len() && server.len() > 0 && crate::text::free_of(server, '/')
            && (#[trigger] tools[i]).name.len() > 0 && crate::text::free_of(tools[i].name, '/')
        implies tool_path_of("/"@ + server + "/"@ + tools[i].name) == Some((server, tools[i].name)) by {
        law_tool_route_names_tool(server, tools[i].name);
    }
}

/// Text that occurs in `x` occurs in any text that contains `x`.
proof fn lemma_occurs_in_middle(a: Seq<char>, x: Seq<char>, c: Seq<char>, p: Seq<char>)
    requires
        crate::text::occurs_in(x, p),
    ensures
        crate::text::occurs_in(a + x + c, p),
{
    let i = choose|i: int| 0 <= i && i + p.len() <= x.len() && #[trigger] x.subrange(i, i + p.len()) == p;
    let t = a + x + c;
    let k = a.len() + i;
    assert(t.subrange(k, k + p.len()) =~= x.subrange(i, i + p.len()));
}

/// The entries of the index page hold the link of every server in the list.
proof fn lemma_links_hold(prefix: Seq<char>, names: Seq<Seq<char>>, j: int)
    requires
        0 <= j < names.len(),
    ensures
        crate::text::occurs_in(server_links(prefix, names), server_link(prefix, names[j])),
    decreases names.len(),
{
    let e = Seq::<char>::empty();
    let last = server_link(prefix, names.last());
    if j == names.len() - 1 {
        let l = last;
        assert(l.subrange(0int, 0int + l.len()) =~= l);
        assert(crate::text::occurs_in(l, l));
        lemma_occurs_in_middle(server_links(prefix, names.drop_last()), l, e, l);
        assert(server_links(prefix, names.drop_last()) + l + e =~= server_links(prefix, names));
    } else {
        lemma_links_hold(prefix, names.drop_last(), j);
        assert(names.drop_last()[j] == names[j]);
        lemma_occurs_in_middle(e, server_links(prefix, names.drop_last()), last, server_link(prefix, names[j]));
        assert(e + server_links(prefix, names.drop_last()) + last =~= server_links(prefix, names));
    }
}

/// The index page of a configuration links the docs page of every configured server
/// `s`, under the path prefix its routes are mounted at (`/<s>/docs` with no prefix); it
/// depends on the configuration alone, not on which servers are connected (as the health
/// reply depends on nothing).
pub proof fn law_index_links_every_server(config: AppConfig, prefix: Seq<char>)
    ensures
        forall|i: int|
            0 <= i < config.mcp_servers@.len() ==> crate::text::occurs_in(
                INDEX_PAGE_HEAD@ + server_links(
                    prefix,
                    config.mcp_servers@.map_values(|e: (String, McpServerConfig)| e.0@),
                ) + INDEX_PAGE_TAIL@,
                server_link(prefix, (#[trigger] config.mcp_servers@[i]).0@),
            ),
        forall|name: Seq<char>|
            #[trigger] server_link(Seq::<char>::empty(), name) == "<li><a href=\"/"@ + name + "/docs\">"@
                + name + " API Docs</a></li>"@,
{
    let names = config.mcp_servers@.map_values(|e: (String, McpServerConfig)| e.0@);
    assert forall|i: int| 0 <= i < config.mcp_servers@.len() implies crate::text::occurs_in(
        INDEX_PAGE_HEAD@ + server_links(prefix, names) + INDEX_PAGE_TAIL@,
        server_link(prefix, (#[trigger] config.mcp_servers@[i]).0@),
    ) by {
        assert(names[i] == config.mcp_servers@[i].0@);
        lemma_links_hold(prefix, names, i);
        lemma_occurs_in_middle(INDEX_PAGE_HEAD@, server_links(prefix, names), INDEX_PAGE_TAIL@, server_link(prefix, names[i]));
    }
    assert forall|name: Seq<char>|
        #[trigger] server_link(Seq::<char>::empty(), name) == "<li><a href=\"/"@ + name + "/docs\">"@
            + name + " API Docs</a></li>"@ by {
        reveal_strlit("<li><a href=\"");
        reveal_strlit("<li><a href=\"/");
        reveal_strlit("/");
        assert(trim_end_char_spec(Seq::<char>::empty(), '/') == Seq::<char>::empty());
        assert(tool_path_prefix(name, Seq::<char>::empty()) =~= "/"@ + name);
        assert(server_link(Seq::<char>::empty(), name) =~= "<li><a href=\"/"@ + name + "/docs\">"@
            + name + " API Docs</a></li>"@);
    }
}

/// The tools of a server that the proxy publishes: those that the server's entry does
/// not disable.
pub fn published_tools(config: &AppConfig, server_name: &str, tools: &Vec<Tool>) -> (r: Vec<Tool>)
    ensures
        tool_views(r@) == enabled_tools(tool_views(tools@), disabled_for(config.mcp_servers@, server_name@)),
{
    let disabled = disabled_tools_for(config, server_name);
    filter_disabled_tools(tools, &disabled)
}

/// The reply to a tool result is a 500 exactly when the result's `isError` member is
/// the boolean `true`; when it is `false`, absent or not a boolean the reply is a 200,
/// and a single content item is shown by its `text` (or whole, without one).
pub proof fn law_error_flag_decides_status(result: Json)
    ensures
        tool_reply(result).0 == 500 <==> get_member(result, "isError"@) == Some(Json::Bool(true)),
        tool_reply(result).0 == 200 <==> get_member(result, "isError"@) != Some(Json::Bool(true)),
        forall|c: Json|
            get_member(result, "isError"@) != Some(Json::Bool(true)) && get_member(result, "content"@)
                == Some(Json::Array(seq![c])) ==> tool_reply(result).1 == match get_member(c, "text"@) {
                Some(t) => t,
                None => c,
            },
{
    assert forall|c: Json|
        get_member(result, "isError"@) != Some(Json::Bool(true)) && get_member(result, "content"@)
            == Some(Json::Array(seq![c])) implies tool_reply(result).1 == match get_member(c, "text"@) {
            Some(t) => t,
            None => c,
        } by {
        let shown = seq![c].map_values(|x: Json| shown_item(x));
        assert(shown.len() == 1);
        assert(shown[0] == shown_item(c));
    }
}

} // verus!
