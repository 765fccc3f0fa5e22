//! API key checks on the `Authorization` header.
use vstd::prelude::*;

use crate::header::{header_text, header_text_spec};
use crate::text::{ends_with, has_prefix, has_suffix, owned, str_eq, strip_prefix};

verus! {

/// Whether a request whose `Authorization` header has the bytes `auth` (if present)
/// passes the check against `expected`: an empty key lets everything pass; otherwise the
/// header must read `Bearer ` followed by exactly the key.
pub open spec fn api_key_accepted(auth: Option<Seq<u8>>, expected: Seq<char>) -> bool {
    if expected.len() == 0 {
        true
    } else {
        match auth {
            Some(b) => match header_text_spec(b) {
                Some(t) => has_prefix(t, "Bearer "@) && t.skip("Bearer "@.len() as int) == expected,
                None => false,
            },
            None => false,
        }
    }
}

/// The bytes of an optional header value.
pub open spec fn opt_bytes(h: Option<&[u8]>) -> Option<Seq<u8>> {
    match h {
        Some(b) => Some(b@),
        None => None,
    }
}

/// Checks the `Authorization` header (its bytes, if the request has one) against the
/// expected API key.
pub fn check_api_key(authorization: Option<&[u8]>, expected_key: &str) -> (r: bool)
    ensures
        r == api_key_accepted(opt_bytes(authorization), expected_key@),
{
    if expected_key.unicode_len() == 0 {
        return true;
    }
    match authorization {
        Some(bytes) => match header_text(bytes) {
            Some(text) => match strip_prefix(text.as_str(), "Bearer ") {
                Some(key) => str_eq(key.as_str(), expected_key),
                None => false,
            },
            None => false,
        },
        None => false,
    }
}

/// A request refused for its API key.
#[derive(Debug, Clone, PartialEq)]
pub enum AuthError {
    Unauthorized,
}

impl AuthError {
    /// The text that reports the refusal.
    pub fn message(&self) -> (r: String)
        ensures
            r@ == "Invalid or missing API key. Use 'Authorization: Bearer <api-key>' header."@,
    {
        owned("Invalid or missing API key. Use 'Authorization: Bearer <api-key>' header.")
    }
}

/// Whether the guard lets a request through: without a configured key, or with an empty
/// one, every request passes; otherwise the header must carry the key.
pub open spec fn request_allowed(app_key: Option<Seq<char>>, auth: Option<Seq<u8>>) -> bool {
    match app_key {
        Some(k) => api_key_accepted(auth, k),
        None => true,
    }
}

/// The guard in front of the endpoints: refuses a request whose `Authorization` header
/// does not carry the configured key.
pub fn verify_api_key(app_key: Option<&str>, authorization: Option<&[u8]>) -> (r: Result<
    (),
    AuthError,
>)
    ensures
        r is Ok <==> request_allowed(
            match app_key {
                Some(k) => Some(k@),
                None => None,
            },
            opt_bytes(authorization),
        ),
{
    if let Some(key) = app_key {
        if key.unicode_len() > 0 {
            if !check_api_key(authorization, key) {
                return Err(AuthError::Unauthorized);
            }
        }
    }
    Ok(())
}

/// The endpoints of the proxy, as the API key guard tells them apart.
#[derive(Debug, Clone, Copy, PartialEq, Eq, Structural)]
pub enum Endpoint {
    /// `GET /`: the index page.
    Index,
    /// `GET /health`.
    Health,
    /// `GET /docs`: the list of the servers' docs pages.
    ApiDocs,
    /// `GET .../<server>/docs`: a server's Swagger UI page.
    ServerDocs,
    /// `GET .../<server>/openapi.json`: a server's OpenAPI document.
    OpenApiDocument,
    /// `POST .../<server>/<tool>`: a tool call.
    ToolCall,
    /// Any other request.
    Other,
}

/// The endpoint that a request (its method, and its path) is addressed to.
pub open spec fn endpoint_kind(is_post: bool, path: Seq<char>) -> Endpoint {
    if is_post {
        Endpoint::ToolCall
    } else if path == "/"@ {
        Endpoint::Index
    } else if path == "/health"@ {
        Endpoint::Health
    } else if path == "/docs"@ {
        Endpoint::ApiDocs
    } else if has_suffix(path, "/openapi.json"@) {
        Endpoint::OpenApiDocument
    } else if has_suffix(path, "/docs"@) {
        Endpoint::ServerDocs
    } else {
        Endpoint::Other
    }
}

/// The endpoint that a request is addressed to.
pub fn endpoint_of(is_post: bool, path: &str) -> (r: Endpoint)
    ensures
        r == endpoint_kind(is_post, path@),
{
    proof {
        reveal_strlit("/");
        reveal_strlit("/health");
        reveal_strlit("/docs");
    }
    if is_post {
        Endpoint::ToolCall
    } else if str_eq(path, "/") {
        Endpoint::Index
    } else if str_eq(path, "/health") {
        Endpoint::Health
    } else if str_eq(path, "/docs") {
        Endpoint::ApiDocs
    } else if ends_with(path, "/openapi.json") {
        Endpoint::OpenApiDocument
    } else if ends_with(path, "/docs") {
        Endpoint::ServerDocs
    } else {
        Endpoint::Other
    }
}

/// The endpoints that the API key guards: all of them under strict authentication,
/// otherwise the tool calls (the API itself).
pub open spec fn key_guards(strict_auth: bool, e: Endpoint) -> bool {
    strict_auth || e == Endpoint::ToolCall
}

/// Whether the API key guards an endpoint.
pub fn guards_endpoint(strict_auth: bool, e: Endpoint) -> (r: bool)
    ensures
        r == key_guards(strict_auth, e),
{
    strict_auth || matches!(e, Endpoint::ToolCall)
}

/// Whether a request passes the guard: its endpoint is not guarded, or its
/// `Authorization` header carries the configured key.
pub open spec fn admitted(
    app_key: Option<Seq<char>>,
    strict_auth: bool,
    is_post: bool,
    path: Seq<char>,
    auth: Option<Seq<u8>>,
) -> bool {
    !key_guards(strict_auth, endpoint_kind(is_post, path)) || request_allowed(app_key, auth)
}

/// The guard installed in front of every endpoint: refuses a request to a guarded
/// endpoint whose `Authorization` header does not carry the configured key.
pub fn guard_request(
    app_key: Option<&str>,
    strict_auth: bool,
    is_post: bool,
    path: &str,
    authorization: Option<&[u8]>,
) -> (r: Result<(), AuthError>)
    ensures
        r is Ok <==> admitted(
            match app_key {
                Some(k) => Some(k@),
                None => None,
            },
            strict_auth,
            is_post,
            path@,
            opt_bytes(authorization),
        ),
{
    let e = endpoint_of(is_post, path);
    if guards_endpoint(strict_auth, e) {
        verify_api_key(app_key, authorization)
    } else {
        Ok(())
    }
}

/// With a key configured, strict authentication refuses every request that lacks it;
/// without strict authentication, a tool call that lacks it is refused and every other
/// request is let through.
pub proof fn law_strict_auth_guards_all(key: Seq<char>, is_post: bool, path: Seq<char>)
    requires
        key.len() > 0,
    ensures
        !admitted(Some(key), true, is_post, path, None),
        !admitted(Some(key), false, true, path, None),
        !is_post ==> admitted(Some(key), false, false, path, None),
{
}

/// A request whose `Authorization` header reads `Bearer <key>` is accepted for that key.
pub proof fn law_bearer_key_accepted(auth: Seq<u8>, key: Seq<char>)
    requires
        header_text_spec(auth) == Some("Bearer "@ + key),
    ensures
        api_key_accepted(Some(auth), key),
{
    let t = "Bearer "@ + key;
    assert(t.subrange(0, "Bearer "@.len() as int) =~= "Bearer "@);
    assert(t.skip("Bearer "@.len() as int) =~= key);
}

/// With a nonempty key, a request without an `Authorization` header is refused.
pub proof fn law_missing_header_refused(key: Seq<char>)
    requires
        key.len() > 0,
    ensures
        !api_key_accepted(None, key),
        !request_allowed(Some(key), None),
{
}

} // verus!
