//! The SSE transport's decisions: finding the message endpoint in the event stream,
//! numbering the posted requests, and judging the replies' statuses.
use vstd::prelude::*;

use crate::json::JsonValue;
use crate::mcp::types::{is_success, is_success_status, request_spec, JsonRpcRequest, RequestIds, TransportError};
use crate::text::{has_prefix, lines, lines_spec, owned, str_eq, strip_prefix, trim, trim_spec, views};

verus! {

/// The event type that announces the message endpoint.
pub open spec fn endpoint_event() -> Seq<char> {
    "endpoint"@
}

/// One line of the event stream read in the state `(event, data)`: the new state, and
/// the announced endpoint when the line ends an `endpoint` event.
pub open spec fn sse_step(event: Seq<char>, data: Seq<char>, line: Seq<char>) -> (
    Seq<char>,
    Seq<char>,
    Option<Seq<char>>,
) {
    if line.len() == 0 {
        if event == endpoint_event() {
            (event, data, Some(trim_spec(data)))
        } else {
            (Seq::<char>::empty(), Seq::<char>::empty(), None)
        }
    } else if has_prefix(line, "event: "@) {
        (line.skip("event: "@.len() as int), data, None)
    } else if has_prefix(line, "data: "@) {
        (event, data + line.skip("data: "@.len() as int), None)
    } else {
        (event, data, None)
    }
}

/// Lines read one after another until one of them ends an `endpoint` event.
pub open spec fn sse_run(event: Seq<char>, data: Seq<char>, ls: Seq<Seq<char>>) -> (
    Seq<char>,
    Seq<char>,
    Option<Seq<char>>,
)
    decreases ls.len(),
{
    if ls.len() == 0 {
        (event, data, None)
    } else {
        let (e, d, found) = sse_step(event, data, ls[0]);
        if found is Some {
            (e, d, found)
        } else {
            sse_run(e, d, ls.drop_first())
        }
    }
}

/// Reads an SSE stream until it announces the endpoint to post messages to.
pub struct SseEndpointParser {
    /// The type of the event being read.
    pub event_type: String,
    /// The data of the event being read.
    pub data: String,
}

impl SseEndpointParser {
    /// A parser that has read nothing.
    pub fn new() -> (r: SseEndpointParser)
        ensures
            r.event_type@ == Seq::<char>::empty(),
            r.data@ == Seq::<char>::empty(),
    {
        SseEndpointParser { event_type: String::new(), data: String::new() }
    }

    /// Reads one line: a blank line ends the event (yielding the trimmed data of an
    /// `endpoint` event), `event: ` sets the type, `data: ` adds to the data, and
    /// other lines change nothing.
    pub fn feed_line(&mut self, line: &str) -> (r: Option<String>)
        ensures
            ({
                let (e, d, found) = sse_step(old(self).event_type@, old(self).data@, line@);
                &&& final(self).event_type@ == e
                &&& final(self).data@ == d
                &&& match (r, found) {
                    (Some(x), Some(y)) => x@ == y,
                    (None, None) => true,
                    _ => false,
                }
            }),
    {
        if line.unicode_len() == 0 {
            if str_eq(self.event_type.as_str(), "endpoint") {
                return Some(trim(self.data.as_str()));
            }
            self.event_type = String::new();
            self.data = String::new();
            None
        } else if let Some(value) = strip_prefix(line, "event: ") {
            self.event_type = value;
            None
        } else if let Some(value) = strip_prefix(line, "data: ") {
            self.data.append(value.as_str());
            None
        } else {
            None
        }
    }

    /// Reads the lines of one chunk of the stream (as `str::lines` splits it) and
    /// stops at the first one that yields the endpoint.
    pub fn feed_chunk(&mut self, text: &str) -> (r: Option<String>)
        ensures
            ({
                let (e, d, found) = sse_run(old(self).event_type@, old(self).data@, lines_spec(text@));
                &&& final(self).event_type@ == e
                &&& final(self).data@ == d
                &&& match (r, found) {
                    (Some(x), Some(y)) => x@ == y,
                    (None, None) => true,
                    _ => false,
                }
            }),
    {
        let ls = lines(text);
        let ghost all = views(ls@);
        let ghost e0 = self.event_type@;
        let ghost d0 = self.data@;
        let n = ls.len();
        assert(all.skip(0) =~= all);
        for i in 0..n
            invariant
                n == ls@.len(),
                all == views(ls@),
                all == lines_spec(text@),
                all.len() == n,
                e0 == old(self).event_type@,
                d0 == old(self).data@,
                sse_run(e0, d0, all) == sse_run(self.event_type@, self.data@, all.skip(i as int)),
        {
            assert(all.skip(i as int)[0] == ls@[i as int]@);
            assert(all.skip(i as int).drop_first() =~= all.skip(i + 1));
            let ghost cur_e = self.event_type@;
            let ghost cur_d = self.data@;
            let found = self.feed_line(ls[i].as_str());
            proof {
                let st = sse_step(cur_e, cur_d, all[i as int]);
                assert(sse_run(cur_e, cur_d, all.skip(i as int)) == if st.2 is Some {
                    st
                } else {
                    sse_run(st.0, st.1, all.skip(i + 1))
                });
            }
            if found.is_some() {
                return found;
            }
        }
        None
    }
}

/// From a parser that has read nothing, the lines `event: endpoint`, `data: <u>` and a
/// blank line announce the endpoint `u`, trimmed.
pub proof fn law_endpoint_announced(u: Seq<char>)
    ensures
        sse_run(
            Seq::<char>::empty(),
            Seq::<char>::empty(),
            seq!["event: "@ + endpoint_event(), "data: "@ + u, Seq::<char>::empty()],
        ).2 == Some(trim_spec(u)),
{
    reveal_strlit("event: ");
    reveal_strlit("data: ");
    reveal_strlit("endpoint");
    let l0 = "event: "@ + endpoint_event();
    let l1 = "data: "@ + u;
    let ls = seq![l0, l1, Seq::<char>::empty()];
    assert(l0.subrange(0, 7) =~= "event: "@);
    assert(l0.skip(7) =~= endpoint_event());
    assert(l1.subrange(0, 6) =~= "data: "@);
    assert(l1.skip(6) =~= u);
    assert(l1[0] == 'd');
    assert("event: "@[0] == 'e');
    if l1.len() >= 7 {
        assert(l1.subrange(0, 7)[0] != "event: "@[0]);
    }
    assert(!has_prefix(l1, "event: "@));
    assert(ls.drop_first() =~= seq![l1, Seq::<char>::empty()]);
    assert(ls.drop_first().drop_first() =~= seq![Seq::<char>::empty()]);
    assert(Seq::<char>::empty() + u =~= u);
    assert(has_prefix(l0, "event: "@));
    assert(l0.len() > 0);
    let e = Seq::<char>::empty();
    assert(sse_step(e, e, l0) == (endpoint_event(), e, None::<Seq<char>>));
    assert(has_prefix(l1, "data: "@));
    assert(l1.len() > 0);
    assert(sse_step(endpoint_event(), e, l1) == (endpoint_event(), u, None::<Seq<char>>));
    assert(sse_step(endpoint_event(), u, e) == (endpoint_event(), u, Some(trim_spec(u))));
    assert(sse_run(endpoint_event(), u, seq![e]) == (endpoint_event(), u, Some(trim_spec(u))));
    assert(sse_run(endpoint_event(), e, seq![l1, e]) == (endpoint_event(), u, Some(trim_spec(u))));
}

/// The SSE transport's own state: the endpoint announced by the stream and the
/// numbering of the posted requests.
pub struct SseSession {
    pub message_endpoint: Option<String>,
    pub ids: RequestIds,
}

impl SseSession {
    /// A session without an endpoint, numbering from 1.
    pub fn new() -> (r: SseSession)
        ensures
            r.message_endpoint is None,
            r.ids.next == 1,
    {
        SseSession { message_endpoint: None, ids: RequestIds::new() }
    }

    /// Notes the endpoint that the stream announced.
    pub fn set_endpoint(&mut self, endpoint: String)
        ensures
            final(self).message_endpoint matches Some(e) && e@ == endpoint@,
            final(self).ids == old(self).ids,
    {
        self.message_endpoint = Some(endpoint);
    }

    /// The endpoint and the request for posting `method` with `params`: the request
    /// takes the next number; without an endpoint nothing is numbered.
    pub fn prepare_post(&mut self, method: &str, params: Option<JsonValue>) -> (r: Result<
        (String, JsonRpcRequest),
        TransportError,
    >)
        requires
            old(self).ids.next < i64::MAX,
        ensures
            old(self).message_endpoint is None ==> (r matches Err(TransportError::NoEndpoint)
                && final(self).ids == old(self).ids),
            old(self).message_endpoint matches Some(e) ==> (r matches Ok((ep, req)) && ep@ == e@
                && req@ == request_spec(
                Some(old(self).ids.next),
                method@,
                match params {
                    Some(p) => Some(p@),
                    None => None,
                },
            ) && final(self).ids.next == old(self).ids.next + 1),
            final(self).message_endpoint == old(self).message_endpoint,
    {
        let endpoint = match &self.message_endpoint {
            Some(e) => e.clone(),
            None => {
                return Err(TransportError::NoEndpoint);
            },
        };
        let id = self.ids.next_id();
        Ok((endpoint, JsonRpcRequest::new(id, method, params)))
    }
}

/// The verdict on the status of the reply to opening the stream.
pub fn check_connect_status(code: u16, shown: &str) -> (r: Result<(), TransportError>)
    ensures
        is_success_status(code) ==> r is Ok,
        !is_success_status(code) ==> (r matches Err(TransportError::ConnectFailed { status })
            && status@ == shown@),
{
    if is_success(code) {
        Ok(())
    } else {
        Err(TransportError::ConnectFailed { status: owned(shown) })
    }
}

/// The verdict on the status of the reply to a post: 405 has its own error.
pub fn check_post_status(code: u16, shown: &str) -> (r: Result<(), TransportError>)
    ensures
        is_success_status(code) ==> r is Ok,
        !is_success_status(code) && code == 405 ==> r matches Err(TransportError::PostNotAllowed),
        !is_success_status(code) && code != 405 ==> (r matches Err(
            TransportError::PostFailed { status },
        ) && status@ == shown@),
{
    if is_success(code) {
        Ok(())
    } else if code == 405 {
        Err(TransportError::PostNotAllowed)
    } else {
        Err(TransportError::PostFailed { status: owned(shown) })
    }
}

} // verus!
