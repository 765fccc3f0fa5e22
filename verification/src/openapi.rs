//! The OpenAPI 3.0 document that describes one MCP server's tools.
use vstd::prelude::*;

use crate::json::{
    as_items, as_members, as_text, get_member, insert, insert_member, items_view,
    lemma_items_push, lemma_members_view, members_view, push_member, text_value, Json,
    JsonValue,
};
use crate::mcp::types::{tool_views, Tool, ToolView};
use crate::text::{
    concat, concat3, contains, occurs_in, replace_char, replace_char_spec, trim_end_char,
    trim_end_char_spec,
};

verus! {

/// A string value.
pub open spec fn s(t: Seq<char>) -> Json {
    Json::Str(t)
}

/// An object with the given members.
pub open spec fn obj(ms: Seq<(Seq<char>, Json)>) -> Json {
    Json::Object(ms)
}

/// The prefix of every tool route: the path prefix (without trailing slashes), a slash
/// and the server name; so with no prefix (or only slashes) a tool's route is
/// `/<server>/<tool>`, the path the proxy serves it under.
pub open spec fn tool_path_prefix(server: Seq<char>, path_prefix: Seq<char>) -> Seq<char> {
    trim_end_char_spec(path_prefix, '/') + "/"@ + server
}

/// The address of the host: the host (without trailing slashes) when it names a
/// scheme, else `http://` and the host.
pub open spec fn host_url(host: Seq<char>) -> Seq<char> {
    if occurs_in(host, "://"@) {
        trim_end_char_spec(host, '/')
    } else {
        "http://"@ + host
    }
}

/// The path prefix carries routes of its own: it holds more than slashes.
pub open spec fn has_path_prefix(path_prefix: Seq<char>) -> bool {
    trim_end_char_spec(path_prefix, '/').len() > 0
}

/// The server address of the document. Under a path prefix it is the host's address, a
/// slash and the server name. With no prefix the routes are the full `/<server>/<tool>`
/// paths that the documentation shows, so the address is the host's alone and address
/// plus route is still the tool's endpoint.
pub open spec fn servers_url(host: Seq<char>, server: Seq<char>, path_prefix: Seq<char>) -> Seq<char> {
    if has_path_prefix(path_prefix) {
        host_url(host) + "/"@ + server
    } else {
        host_url(host)
    }
}

/// The name of a tool's parameter schema.
pub open spec fn schema_name(tool: Seq<char>) -> Seq<char> {
    tool + "_params"@
}

/// The text items of an array, in order (others are skipped).
pub open spec fn texts_of(items: Seq<Json>) -> Seq<Seq<char>> {
    items.filter_map(|j: Json| as_text(j))
}

/// The names a tool's input schema lists as `required` (nothing when it lists none).
pub open spec fn required_names(input_schema: Json) -> Seq<Seq<char>> {
    match get_member(input_schema, "required"@) {
        Some(r) => match as_items(r) {
            Some(items) => texts_of(items),
            None => Seq::<Seq<char>>::empty(),
        },
        None => Seq::<Seq<char>>::empty(),
    }
}

/// The parameter schema of a tool: an object type whose properties are those of the
/// tool's input schema (none when it has none), with the required names when there
/// are any.
pub open spec fn tool_schema(t: ToolView) -> Json {
    match get_member(t.input_schema, "properties"@) {
        None => obj(seq![("type"@, s("object"@)), ("properties"@, obj(Seq::empty()))]),
        Some(props) => {
            let req = required_names(t.input_schema);
            let base = seq![("type"@, s("object"@)), ("properties"@, props)];
            if req.len() == 0 {
                obj(base)
            } else {
                obj(base.push(("required"@, Json::Array(req.map_values(|n: Seq<char>| s(n))))))
            }
        },
    }
}

/// The shared definitions (`$defs`) of a tool's input schema, taken only when the
/// schema also has properties.
pub open spec fn tool_defs(input_schema: Json) -> Option<Seq<(Seq<char>, Json)>> {
    match get_member(input_schema, "properties"@) {
        Some(_) => match get_member(input_schema, "$defs"@) {
            Some(d) => as_members(d),
            None => None,
        },
        None => None,
    }
}

/// `m` with each of `ms` inserted in turn.
pub open spec fn insert_all(m: Seq<(Seq<char>, Json)>, ms: Seq<(Seq<char>, Json)>) -> Seq<
    (Seq<char>, Json),
>
    decreases ms.len(),
{
    if ms.len() == 0 {
        m
    } else {
        insert(insert_all(m, ms.drop_last()), ms.last().0, ms.last().1)
    }
}

/// The schemas after a tool is described: its shared definitions, then its parameter
/// schema.
pub open spec fn schemas_step(schemas: Seq<(Seq<char>, Json)>, t: ToolView) -> Seq<
    (Seq<char>, Json),
> {
    let with_defs = match tool_defs(t.input_schema) {
        Some(ds) => insert_all(schemas, ds),
        None => schemas,
    };
    insert(with_defs, schema_name(t.name), tool_schema(t))
}

/// The schemas of the document, the tools described in order.
pub open spec fn all_schemas(tools: Seq<ToolView>) -> Seq<(Seq<char>, Json)>
    decreases tools.len(),
{
    if tools.len() == 0 {
        Seq::empty()
    } else {
        schemas_step(all_schemas(tools.drop_last()), tools.last())
    }
}

/// The POST operation that calls a tool.
pub open spec fn post_operation(server: Seq<char>, t: ToolView) -> Json {
    obj(
        seq![
            ("summary"@, s(replace_char_spec(t.name, '_', ' '))),
            (
                "description"@,
                s(
                    match t.description {
                        Some(d) => d,
                        None => Seq::<char>::empty(),
                    },
                ),
            ),
            ("operationId"@, s(server + "_"@ + t.name)),
            (
                "requestBody"@,
                obj(
                    seq![
                        ("required"@, Json::Bool(false)),
                        (
                            "content"@,
                            obj(
                                seq![
                                    (
                                        "application/json"@,
                                        obj(
                                            seq![
                                                (
                                                    "schema"@,
                                                    obj(
                                                        seq![
                                                            (
                                                                "$ref"@,
                                                                s(
                                                                    "#/components/schemas/"@
                                                                        + schema_name(t.name),
                                                                ),
                                                            ),
                                                        ],
                                                    ),
                                                ),
                                            ],
                                        ),
                                    ),
                                ],
                            ),
                        ),
                    ],
                ),
            ),
            ("responses"@, responses()),
            ("tags"@, Json::Array(seq![s(server)])),
        ],
    )
}

/// The responses every operation documents.
pub open spec fn responses() -> Json {
    obj(
        seq![
            (
                "200"@,
                obj(
                    seq![
                        ("description"@, s("Successful response"@)),
                        (
                            "content"@,
                            obj(
                                seq![
                                    (
                                        "application/json"@,
                                        obj(
                                            seq![
                                                (
                                                    "schema"@,
                                                    obj(seq![("type"@, s("object"@))]),
                                                ),
                                            ],
                                        ),
                                    ),
                                ],
                            ),
                        ),
                    ],
                ),
            ),
            ("400"@, obj(seq![("description"@, s("Bad request"@))])),
            ("500"@, obj(seq![("description"@, s("Internal server error"@))])),
        ],
    )
}

/// The paths of the document, the tools described in order: each tool's route maps to
/// its POST operation.
pub open spec fn all_paths(server: Seq<char>, prefix: Seq<char>, tools: Seq<ToolView>) -> Seq<
    (Seq<char>, Json),
>
    decreases tools.len(),
{
    if tools.len() == 0 {
        Seq::empty()
    } else {
        let t = tools.last();
        insert(
            all_paths(server, prefix, tools.drop_last()),
            prefix + "/"@ + t.name,
            obj(seq![("post"@, post_operation(server, t))]),
        )
    }
}

/// The OpenAPI document of a server and its tools.
pub open spec fn openapi_document(
    server: Seq<char>,
    description: Seq<char>,
    tools: Seq<ToolView>,
    host: Seq<char>,
    path_prefix: Seq<char>,
) -> Json {
    obj(
        seq![
            ("openapi"@, s("3.0.3"@)),
            (
                "info"@,
                obj(
                    seq![
                        ("title"@, s(server + " MCP Server"@)),
                        ("description"@, s(description)),
                        ("version"@, s("1.0.0"@)),
                    ],
                ),
            ),
            (
                "servers"@,
                Json::Array(
                    seq![
                        obj(
                            seq![
                                ("url"@, s(servers_url(host, server, path_prefix))),
                                ("description"@, s(server + " server"@)),
                            ],
                        ),
                    ],
                ),
            ),
            ("paths"@, obj(all_paths(server, tool_path_prefix(server, path_prefix), tools))),
            ("components"@, obj(seq![("schemas"@, obj(all_schemas(tools)))])),
        ],
    )
}

/// A new empty list of members.
fn members() -> (r: Vec<(String, JsonValue)>)
    ensures
        members_view(r@) == Seq::<(Seq<char>, Json)>::empty(),
{
    let r: Vec<(String, JsonValue)> = Vec::new();
    assert(members_view(r@) =~= Seq::empty());
    r
}

/// An object with one member.
fn object1(k: &str, v: JsonValue) -> (r: JsonValue)
    ensures
        r@ == obj(seq![(k@, v@)]),
{
    let mut ms = members();
    push_member(&mut ms, k, v);
    assert(members_view(ms@) =~= seq![(k@, v@)]);
    JsonValue::Object(ms)
}

/// An object with two members.
fn object2(k1: &str, v1: JsonValue, k2: &str, v2: JsonValue) -> (r: JsonValue)
    ensures
        r@ == obj(seq![(k1@, v1@), (k2@, v2@)]),
{
    let mut ms = members();
    push_member(&mut ms, k1, v1);
    push_member(&mut ms, k2, v2);
    assert(members_view(ms@) =~= seq![(k1@, v1@), (k2@, v2@)]);
    JsonValue::Object(ms)
}

/// The responses every operation documents.
fn responses_value() -> (r: JsonValue)
    ensures
        r@ == responses(),
{
    let ok_schema = object1("schema", object1("type", text_value("object")));
    let ok = object2(
        "description",
        text_value("Successful response"),
        "content",
        object1("application/json", ok_schema),
    );
    let mut ms = members();
    push_member(&mut ms, "200", ok);
    push_member(&mut ms, "400", object1("description", text_value("Bad request")));
    push_member(&mut ms, "500", object1("description", text_value("Internal server error")));
    assert(members_view(ms@) =~= responses()->Object_0);
    JsonValue::Object(ms)
}

/// The POST operation that calls a tool.
fn post_operation_value(server: &str, t: &Tool) -> (r: JsonValue)
    ensures
        r@ == post_operation(server@, t@),
{
    let name = t.name.as_str();
    let description = match &t.description {
        Some(d) => d.clone(),
        None => String::new(),
    };
    let sname = concat(name, "_params");
    let reference = concat("#/components/schemas/", sname.as_str());
    let schema = object1("schema", object1("$ref", JsonValue::Str(reference)));
    let body = object2(
        "required",
        JsonValue::Bool(false),
        "content",
        object1("application/json", schema),
    );
    let mut tags: Vec<JsonValue> = Vec::new();
    let tag = text_value(server);
    proof {
        lemma_items_push(tags@, tag);
    }
    tags.push(tag);
    assert(items_view(tags@) =~= seq![s(server@)]);
    let mut ms = members();
    push_member(&mut ms, "summary", JsonValue::Str(replace_char(name, '_', ' ')));
    push_member(&mut ms, "description", JsonValue::Str(description));
    push_member(&mut ms, "operationId", JsonValue::Str(concat3(server, "_", name)));
    push_member(&mut ms, "requestBody", body);
    push_member(&mut ms, "responses", responses_value());
    push_member(&mut ms, "tags", JsonValue::Array(tags));
    assert(members_view(ms@) =~= post_operation(server@, t@)->Object_0);
    JsonValue::Object(ms)
}

/// An object with three members.
fn object3(k1: &str, v1: JsonValue, k2: &str, v2: JsonValue, k3: &str, v3: JsonValue) -> (r:
    JsonValue)
    ensures
        r@ == obj(seq![(k1@, v1@), (k2@, v2@), (k3@, v3@)]),
{
    let mut ms = members();
    push_member(&mut ms, k1, v1);
    push_member(&mut ms, k2, v2);
    push_member(&mut ms, k3, v3);
    assert(members_view(ms@) =~= seq![(k1@, v1@), (k2@, v2@), (k3@, v3@)]);
    JsonValue::Object(ms)
}

/// The names an input schema lists as `required`.
fn required_list(schema: &JsonValue) -> (r: Vec<String>)
    ensures
        crate::text::views(r@) == required_names(schema@),
{
    let mut r: Vec<String> = Vec::new();
    match schema.get("required") {
        Some(req) => match req.as_array() {
            Some(items) => {
                proof {
                    crate::json::lemma_items_view(items@);
                }
                let ghost iv = items_view(items@);
                let n = items.len();
                for i in 0..n
                    invariant
                        n == items@.len(),
                        iv == items_view(items@),
                        iv.len() == n,
                        forall|j: int| 0 <= j < n ==> #[trigger] iv[j] == items@[j]@,
                        crate::text::views(r@) == texts_of(iv.take(i as int)),
                {
                    assert(iv.take(i + 1).drop_last() =~= iv.take(i as int));
                    assert(iv.take(i + 1).last() == items@[i as int]@);
                    let ghost prev = crate::text::views(r@);
                    match items[i].as_str() {
                        Some(t) => {
                            r.push(t.clone());
                            assert(crate::text::views(r@) =~= prev + seq![t@]);
                        },
                        None => {},
                    }
                }
                assert(iv.take(n as int) =~= iv);
                r
            },
            None => {
                assert(crate::text::views(r@) =~= Seq::<Seq<char>>::empty());
                r
            },
        },
        None => {
            assert(crate::text::views(r@) =~= Seq::<Seq<char>>::empty());
            r
        },
    }
}

/// An array of string values.
fn text_array(names: &Vec<String>) -> (r: JsonValue)
    ensures
        r@ == Json::Array(crate::text::views(names@).map_values(|n: Seq<char>| s(n))),
{
    let mut items: Vec<JsonValue> = Vec::new();
    let n = names.len();
    for i in 0..n
        invariant
            n == names@.len(),
            items_view(items@) == crate::text::views(names@).take(i as int).map_values(
                |n: Seq<char>| s(n),
            ),
    {
        let v = JsonValue::Str(names[i].clone());
        proof {
            lemma_items_push(items@, v);
        }
        items.push(v);
        assert(crate::text::views(names@).take(i + 1).map_values(|n: Seq<char>| s(n))
            =~= crate::text::views(names@).take(i as int).map_values(|n: Seq<char>| s(n)).push(
            s(names@[i as int]@),
        ));
    }
    assert(crate::text::views(names@).take(n as int) =~= crate::text::views(names@));
    JsonValue::Array(items)
}

/// The parameter schema of a tool.
fn tool_schema_value(t: &Tool) -> (r: JsonValue)
    ensures
        r@ == tool_schema(t@),
{
    match t.input_schema.get("properties") {
        None => object2("type", text_value("object"), "properties", JsonValue::Object(members())),
        Some(props) => {
            let req = required_list(&t.input_schema);
            let mut ms = members();
            push_member(&mut ms, "type", text_value("object"));
            push_member(&mut ms, "properties", props.deep_clone());
            if req.len() > 0 {
                push_member(&mut ms, "required", text_array(&req));
            }
            assert(members_view(ms@) =~= tool_schema(t@)->Object_0);
            JsonValue::Object(ms)
        },
    }
}

/// The shared definitions of an input schema, taken only when it has properties.
fn tool_defs_of(schema: &JsonValue) -> (r: Option<&Vec<(String, JsonValue)>>)
    ensures
        r is None <==> tool_defs(schema@) is None,
        r matches Some(ds) ==> tool_defs(schema@) == Some(members_view(ds@)),
{
    match schema.get("properties") {
        Some(_) => match schema.get("$defs") {
            Some(d) => d.as_object(),
            None => None,
        },
        None => None,
    }
}

/// Inserts each of `defs` in turn.
fn insert_defs(schemas: &mut Vec<(String, JsonValue)>, defs: &Vec<(String, JsonValue)>)
    ensures
        members_view(final(schemas)@) == insert_all(members_view(old(schemas)@), members_view(defs@)),
{
    proof {
        lemma_members_view(defs@);
    }
    let ghost start = members_view(schemas@);
    let ghost dv = members_view(defs@);
    let n = defs.len();
    assert(dv.take(0) =~= Seq::<(Seq<char>, Json)>::empty());
    for i in 0..n
        invariant
            n == defs@.len(),
            dv == members_view(defs@),
            dv.len() == n,
            forall|j: int| 0 <= j < n ==> #[trigger] dv[j] == (defs@[j].0@, defs@[j].1@),
            start == members_view(old(schemas)@),
            members_view(schemas@) == insert_all(start, dv.take(i as int)),
    {
        assert(dv.take(i + 1).drop_last() =~= dv.take(i as int));
        assert(dv.take(i + 1).last() == dv[i as int]);
        insert_member(schemas, defs[i].0.as_str(), defs[i].1.deep_clone());
    }
    assert(dv.take(n as int) =~= dv);
}

/// The OpenAPI 3.0 document of a server: one POST path per tool, which calls the tool,
/// and one parameter schema per tool (with the shared definitions of its input schema).
pub fn generate_openapi_spec(
    server_name: &str,
    description: &str,
    tools: &[Tool],
    host: &str,
    path_prefix: &str,
) -> (r: JsonValue)
    ensures
        r@ == openapi_document(server_name@, description@, tool_views(tools@), host@, path_prefix@),
{
    let base_path = trim_end_char(path_prefix, '/');
    let tool_prefix = concat3(base_path.as_str(), "/", server_name);
    let host_address = if contains(host, "://") {
        trim_end_char(host, '/')
    } else {
        concat("http://", host)
    };
    let url = if base_path.as_str().unicode_len() > 0 {
        concat3(host_address.as_str(), "/", server_name)
    } else {
        host_address
    };
    let ghost tv = tool_views(tools@);
    let mut paths = members();
    let mut schemas = members();
    let n = tools.len();
    for i in 0..n
        invariant
            n == tools@.len(),
            tv == tool_views(tools@),
            tool_prefix@ == tool_path_prefix(server_name@, path_prefix@),
            members_view(paths@) == all_paths(server_name@, tool_prefix@, tv.take(i as int)),
            members_view(schemas@) == all_schemas(tv.take(i as int)),
    {
        let t = &tools[i];
        assert(tv.take(i + 1).drop_last() =~= tv.take(i as int));
        assert(tv.take(i + 1).last() == t@);
        match tool_defs_of(&t.input_schema) {
            Some(defs) => insert_defs(&mut schemas, defs),
            None => {},
        }
        let sname = concat(t.name.as_str(), "_params");
        insert_member(&mut schemas, sname.as_str(), tool_schema_value(t));
        let route = concat3(tool_prefix.as_str(), "/", t.name.as_str());
        insert_member(&mut paths, route.as_str(), object1("post", post_operation_value(server_name, t)));
    }
    assert(tv.take(n as int) =~= tv);
    let info = object3(
        "title",
        JsonValue::Str(concat(server_name, " MCP Server")),
        "description",
        text_value(description),
        "version",
        text_value("1.0.0"),
    );
    let server = object2(
        "url",
        JsonValue::Str(url),
        "description",
        JsonValue::Str(concat(server_name, " server")),
    );
    let mut servers: Vec<JsonValue> = Vec::new();
    proof {
        lemma_items_push(servers@, server);
    }
    servers.push(server);
    assert(items_view(servers@) =~= seq![server@]);
    let mut doc = members();
    push_member(&mut doc, "openapi", text_value("3.0.3"));
    push_member(&mut doc, "info", info);
    push_member(&mut doc, "servers", JsonValue::Array(servers));
    push_member(&mut doc, "paths", JsonValue::Object(paths));
    push_member(&mut doc, "components", object1("schemas", JsonValue::Object(schemas)));
    assert(members_view(doc@) =~= openapi_document(
        server_name@,
        description@,
        tv,
        host@,
        path_prefix@,
    )->Object_0);
    JsonValue::Object(doc)
}

/// The route of a tool under a route prefix.
pub open spec fn tool_route(prefix: Seq<char>, tool: Seq<char>) -> Seq<char> {
    prefix + "/"@ + tool
}

/// Every tool of a list with distinct names is documented: its route maps to the POST
/// operation that calls it.
pub proof fn law_every_tool_documented(server: Seq<char>, prefix: Seq<char>, tools: Seq<ToolView>)
    requires
        forall|i: int, j: int|
            0 <= i < j < tools.len() ==> #[trigger] tools[i].name != #[trigger] tools[j].name,
    ensures
        forall|i: int|
            0 <= i < tools.len() ==> crate::json::lookup(
                all_paths(server, prefix, tools),
                tool_route(prefix, #[trigger] tools[i].name),
            ) == Some(obj(seq![("post"@, post_operation(server, tools[i]))])),
    decreases tools.len(),
{
    if tools.len() > 0 {
        let rest = tools.drop_last();
        let t = tools.last();
        law_every_tool_documented(server, prefix, rest);
        let v = obj(seq![("post"@, post_operation(server, t))]);
        crate::json::lemma_lookup_insert_same(all_paths(server, prefix, rest), tool_route(prefix, t.name), v);
        assert forall|i: int| 0 <= i < tools.len() implies crate::json::lookup(
            all_paths(server, prefix, tools),
            tool_route(prefix, #[trigger] tools[i].name),
        ) == Some(obj(seq![("post"@, post_operation(server, tools[i]))])) by {
            if i < tools.len() - 1 {
                assert(rest[i] == tools[i]);
                assert(tools[i].name != t.name);
                let a = tool_route(prefix, tools[i].name);
                let b = tool_route(prefix, t.name);
                if a == b {
                    let k = (prefix + "/"@).len() as int;
                    assert(a.skip(k) =~= tools[i].name);
                    assert(b.skip(k) =~= t.name);
                }
                crate::json::lemma_lookup_insert_other(all_paths(server, prefix, rest), b, v, a);
            }
        }
    }
}

/// Setting a key keeps every key that was there.
proof fn lemma_insert_keeps(ms: Seq<(Seq<char>, Json)>, k: Seq<char>, v: Json, k2: Seq<char>)
    ensures
        crate::json::lookup(ms, k2) is Some ==> crate::json::lookup(insert(ms, k, v), k2) is Some,
{
    if k2 == k {
        crate::json::lemma_lookup_insert_same(ms, k, v);
    } else {
        crate::json::lemma_lookup_insert_other(ms, k, v, k2);
    }
}

/// Setting several keys keeps every key that was there.
proof fn lemma_insert_all_keeps(m: Seq<(Seq<char>, Json)>, ms: Seq<(Seq<char>, Json)>, k2: Seq<char>)
    ensures
        crate::json::lookup(m, k2) is Some ==> crate::json::lookup(insert_all(m, ms), k2) is Some,
    decreases ms.len(),
{
    if ms.len() > 0 {
        lemma_insert_all_keeps(m, ms.drop_last(), k2);
        lemma_insert_keeps(insert_all(m, ms.drop_last()), ms.last().0, ms.last().1, k2);
    }
}

/// Every operation's request body refers to `#/components/schemas/<tool>_params`, and
/// that reference resolves: the document's schemas hold a parameter schema for every
/// tool of the list (not only for the last one described), and the last tool's is its
/// own.
pub proof fn law_every_schema_reference_resolves(tools: Seq<ToolView>)
    ensures
        forall|i: int|
            0 <= i < tools.len() ==> crate::json::lookup(
                all_schemas(tools),
                schema_name(#[trigger] tools[i].name),
            ) is Some,
        tools.len() > 0 ==> crate::json::lookup(all_schemas(tools), schema_name(tools.last().name))
            == Some(tool_schema(tools.last())),
    decreases tools.len(),
{
    if tools.len() > 0 {
        let rest = tools.drop_last();
        let t = tools.last();
        law_every_schema_reference_resolves(rest);
        let with_defs = match tool_defs(t.input_schema) {
            Some(ds) => insert_all(all_schemas(rest), ds),
            None => all_schemas(rest),
        };
        crate::json::lemma_lookup_insert_same(with_defs, schema_name(t.name), tool_schema(t));
        assert forall|i: int| 0 <= i < tools.len() implies crate::json::lookup(
            all_schemas(tools),
            schema_name(#[trigger] tools[i].name),
        ) is Some by {
            if i < tools.len() - 1 {
                assert(rest[i] == tools[i]);
                let k = schema_name(tools[i].name);
                match tool_defs(t.input_schema) {
                    Some(ds) => lemma_insert_all_keeps(all_schemas(rest), ds, k),
                    None => {},
                }
                lemma_insert_keeps(with_defs, schema_name(t.name), tool_schema(t), k);
            }
        }
    }
}

} // verus!
