//! The streamable HTTP transport's state: request numbering and the session id that
//! the server hands out.
use vstd::prelude::*;

use crate::header::{header_text, header_text_spec};
use crate::json::JsonValue;
use crate::mcp::types::{request_spec, JsonRpcRequest, RequestIds, TransportError};
use crate::config::opt_view;
use crate::text::owned;

verus! {

/// The header that carries the session id.
pub const SESSION_HEADER: &'static str = "mcp-session-id";

/// The `Accept` value of every request.
pub const ACCEPT_VALUE: &'static str = "application/json, text/event-stream";

/// The `Content-Type` value of every request.
pub const CONTENT_TYPE_VALUE: &'static str = "application/json";

/// The streamable HTTP transport's own state.
pub struct StreamableHttpSession {
    pub ids: RequestIds,
    pub session_id: Option<String>,
}

impl StreamableHttpSession {
    /// A session without an id, numbering from 1.
    pub fn new() -> (r: StreamableHttpSession)
        ensures
            r.ids.next == 1,
            r.session_id is None,
    {
        StreamableHttpSession { ids: RequestIds::new(), session_id: None }
    }

    /// The request for `method` with `params`, which takes the next number.
    pub fn next_request(&mut self, method: &str, params: Option<JsonValue>) -> (r: JsonRpcRequest)
        requires
            old(self).ids.next < i64::MAX,
        ensures
            r@ == request_spec(
                Some(old(self).ids.next),
                method@,
                match params {
                    Some(p) => Some(p@),
                    None => None,
                },
            ),
            final(self).ids.next == old(self).ids.next + 1,
            final(self).session_id == old(self).session_id,
    {
        let id = self.ids.next_id();
        JsonRpcRequest::new(id, method, params)
    }

    /// Notes the session id header of a reply: a present header replaces the id (with
    /// its text, or an empty id when it has none); an absent one keeps it.
    pub fn record_session_id(&mut self, header: Option<&[u8]>)
        ensures
            final(self).ids == old(self).ids,
            header is None ==> final(self).session_id == old(self).session_id,
            header matches Some(b) ==> (final(self).session_id matches Some(s) && s@ == (
            match header_text_spec(b@) {
                Some(t) => t,
                None => Seq::<char>::empty(),
            })),
    {
        if let Some(bytes) = header {
            let id = match header_text(bytes) {
                Some(t) => t,
                None => owned(""),
            };
            proof {
                reveal_strlit("");
            }
            self.session_id = Some(id);
        }
    }
}

impl StreamableHttpSession {
    /// The session id header that the next request carries: present exactly when a
    /// session id has been handed out.
    pub fn session_header(&self) -> (r: Option<(String, String)>)
        ensures
            self.session_id is None ==> r is None,
            self.session_id matches Some(sid) ==> (r matches Some((name, value)) && name@
                == SESSION_HEADER@ && value@ == sid@),
    {
        match &self.session_id {
            Some(sid) => Some((owned(SESSION_HEADER), sid.clone())),
            None => None,
        }
    }
}

/// The session id that a present `mcp-session-id` header gives: its text, or an empty
/// id when it has none.
pub open spec fn session_text(b: Seq<u8>) -> Seq<char> {
    match header_text_spec(b) {
        Some(t) => t,
        None => Seq::<char>::empty(),
    }
}

/// The session id after a series of replies: that of the latest reply that carried the
/// header, or none when none did.
pub open spec fn latest_session(headers: Seq<Option<Seq<u8>>>) -> Option<Seq<char>>
    decreases headers.len(),
{
    if headers.len() == 0 {
        None
    } else {
        match headers.last() {
            Some(b) => Some(session_text(b)),
            None => latest_session(headers.drop_last()),
        }
    }
}

/// One exchange of the transport, as `next_request` and then `record_session_id` leave
/// the session: the request takes number `id`, and the reply's header (if any) sets the
/// session id.
pub open spec fn exchange(
    before: StreamableHttpSession,
    after: StreamableHttpSession,
    id: i64,
    header: Option<Seq<u8>>,
) -> bool {
    &&& id == before.ids.next
    &&& after.ids.next == before.ids.next + 1
    &&& match header {
        None => after.session_id == before.session_id,
        Some(b) => after.session_id matches Some(s) && s@ == session_text(b),
    }
}

proof fn lemma_exchanges(
    sessions: Seq<StreamableHttpSession>,
    ids: Seq<i64>,
    headers: Seq<Option<Seq<u8>>>,
    i: int,
)
    requires
        sessions.len() == ids.len() + 1,
        headers.len() == ids.len(),
        sessions[0].ids.next == 1,
        sessions[0].session_id is None,
        forall|j: int|
            0 <= j < ids.len() ==> exchange(
                #[trigger] sessions[j],
                sessions[j + 1],
                ids[j],
                headers[j],
            ),
        0 <= i <= ids.len(),
    ensures
        sessions[i].ids.next == i + 1,
        opt_view(sessions[i].session_id) == latest_session(headers.take(i)),
    decreases i,
{
    if i > 0 {
        lemma_exchanges(sessions, ids, headers, i - 1);
        assert(exchange(sessions[i - 1], sessions[i], ids[i - 1], headers[i - 1]));
        assert(headers.take(i).drop_last() =~= headers.take(i - 1));
        assert(headers.take(i).last() == headers[i - 1]);
    } else {
        assert(headers.take(0) =~= Seq::<Option<Seq<u8>>>::empty());
    }
}

/// Over a series of exchanges from a new session, the k-th request takes number k, the
/// next number is one more than the number of requests, and each request carries the
/// session id of the latest reply before it that had the `mcp-session-id` header (none
/// before the first such reply).
pub proof fn law_exchanges(
    sessions: Seq<StreamableHttpSession>,
    ids: Seq<i64>,
    headers: Seq<Option<Seq<u8>>>,
)
    requires
        sessions.len() == ids.len() + 1,
        headers.len() == ids.len(),
        sessions[0].ids.next == 1,
        sessions[0].session_id is None,
        forall|j: int|
            0 <= j < ids.len() ==> exchange(
                #[trigger] sessions[j],
                sessions[j + 1],
                ids[j],
                headers[j],
            ),
    ensures
        forall|j: int| 0 <= j < ids.len() ==> #[trigger] ids[j] == j + 1,
        sessions.last().ids.next == ids.len() + 1,
        forall|j: int|
            0 <= j < sessions.len() ==> opt_view(#[trigger] sessions[j].session_id)
                == latest_session(headers.take(j)),
{
    assert forall|j: int| 0 <= j < ids.len() implies #[trigger] ids[j] == j + 1 by {
        lemma_exchanges(sessions, ids, headers, j);
        assert(exchange(sessions[j], sessions[j + 1], ids[j], headers[j]));
    }
    lemma_exchanges(sessions, ids, headers, ids.len() as int);
    assert forall|j: int| 0 <= j < sessions.len() implies opt_view(#[trigger] sessions[j].session_id)
        == latest_session(headers.take(j)) by {
        lemma_exchanges(sessions, ids, headers, j);
    }
}

/// The verdict on a reply body: an empty one is an error.
pub fn check_response_body(text: &str) -> (r: Result<(), TransportError>)
    ensures
        text@.len() == 0 <==> r matches Err(TransportError::EmptyHttpResponse),
        text@.len() != 0 <==> r is Ok,
{
    if text.unicode_len() == 0 {
        Err(TransportError::EmptyHttpResponse)
    } else {
        Ok(())
    }
}

} // verus!
