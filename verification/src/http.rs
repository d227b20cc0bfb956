//! A transport-free HTTP response model and an in-memory client for tests
//! and offline debugging.

use vstd::prelude::*;
use vstd::utf8::{valid_utf8, decode_utf8};
use vstd::string::{StringSliceAdditionalSpecFns, StrSliceExecFns};
use crate::error::Error;
use crate::text::{ascii_ci_eq, eq_ignore_ascii_case, parse_u64, seq_starts_with, spec_parse_u64,
    starts_with, concat2};

verus! {

/// A minimal HTTP response that does not depend on any client library, so
/// canned responses can be built without touching the network.
#[derive(Debug)]
pub struct HttpResponse {
    pub status: u16,
    pub headers: Vec<(String, String)>,
    pub body: Vec<u8>,
}

/// A response as plain values.
pub struct ResponseView {
    pub status: u16,
    pub headers: Seq<(Seq<char>, Seq<char>)>,
    pub body: Seq<u8>,
}

/// The header list as character sequences.
pub open spec fn header_views(hs: Seq<(String, String)>) -> Seq<(Seq<char>, Seq<char>)> {
    hs.map_values(|h: (String, String)| (h.0@, h.1@))
}

impl View for HttpResponse {
    type V = ResponseView;

    open spec fn view(&self) -> ResponseView {
        ResponseView { status: self.status, headers: header_views(self.headers@), body: self.body@ }
    }
}

/// The value of the first header whose name equals `name` up to ASCII case.
pub open spec fn first_header(hs: Seq<(Seq<char>, Seq<char>)>, name: Seq<char>) -> Option<Seq<char>>
    decreases hs.len(),
{
    if hs.len() == 0 {
        None
    } else if ascii_ci_eq(hs[0].0, name) {
        Some(hs[0].1)
    } else {
        first_header(hs.skip(1), name)
    }
}

/// What `Content-Length` says, when it holds a number that `u64::from_str` reads.
pub open spec fn spec_content_length(r: ResponseView) -> Option<u64> {
    match first_header(r.headers, "content-length"@) {
        Some(v) => spec_parse_u64(v),
        None => None,
    }
}

/// What `String::from_utf8` says of bytes that are not UTF-8 (its error's text).
pub uninterp spec fn spec_utf8_error_text(b: Seq<u8>) -> Seq<char>;

/// Calls `String::from_utf8`. Believed: it succeeds exactly on valid UTF-8,
/// then holding the decoded characters; on failure the error's text is
/// `spec_utf8_error_text` of the bytes.
#[verifier::external_body]
fn string_from_utf8(b: Vec<u8>) -> (r: Result<String, String>)
    ensures
        r is Ok <==> valid_utf8(b@),
        r matches Ok(s) ==> s@ == decode_utf8(b@),
        r matches Err(m) ==> m@ == spec_utf8_error_text(b@),
{
    String::from_utf8(b).map_err(|e| e.to_string())
}

fn copy_bytes(b: &Vec<u8>) -> (r: Vec<u8>)
    ensures
        r@ == b@,
{
    let mut r: Vec<u8> = Vec::new();
    let mut i: usize = 0;
    while i < b.len()
        invariant
            i <= b@.len(),
            r@ == b@.subrange(0, i as int),
        decreases b.len() - i,
    {
        r.push(b[i]);
        i += 1;
        assert(r@ =~= b@.subrange(0, i as int));
    }
    assert(r@ =~= b@);
    r
}

impl HttpResponse {
    /// The value of the first header whose name matches `name` ignoring ASCII case.
    pub fn header(&self, name: &str) -> (r: Option<&str>)
        ensures
            match r {
                Some(v) => first_header(self@.headers, name@) == Some(v@),
                None => first_header(self@.headers, name@) is None,
            },
    {
        let ghost hs = self@.headers;
        let mut i: usize = 0;
        assert(hs.skip(0) =~= hs);
        while i < self.headers.len()
            invariant
                hs == self@.headers,
                hs.len() == self.headers@.len(),
                i <= hs.len(),
                first_header(hs, name@) == first_header(hs.skip(i as int), name@),
            decreases self.headers.len() - i,
        {
            assert(hs.skip(i as int)[0] == (self.headers@[i as int].0@, self.headers@[i as int].1@));
            if eq_ignore_ascii_case(self.headers[i].0.as_str(), name) {
                return Some(self.headers[i].1.as_str());
            }
            assert(hs.skip(i as int).skip(1) =~= hs.skip(i + 1));
            i += 1;
        }
        None
    }

    /// The `Content-Length` header as a number, when present and numeric.
    pub fn content_length(&self) -> (r: Option<u64>)
        ensures
            r == spec_content_length(self@),
    {
        match self.header("content-length") {
            Some(v) => parse_u64(v),
            None => None,
        }
    }

    /// The body as text; a body that is not UTF-8 is a `Parse` error.
    pub fn text(&self) -> (r: Result<String, Error>)
        ensures
            r is Ok <==> valid_utf8(self.body@),
            r matches Ok(s) ==> s@ == decode_utf8(self.body@),
            r matches Err(e) ==> e.is_parse("invalid utf-8 body: "@ + spec_utf8_error_text(self.body@)),
    {
        match string_from_utf8(copy_bytes(&self.body)) {
            Ok(s) => Ok(s),
            Err(m) => Err(Error::Parse(concat2("invalid utf-8 body: ", m.as_str()))),
        }
    }

    /// A response with the given status and body and no headers.
    pub fn ok(status: u16, body: Vec<u8>) -> (r: Self)
        ensures
            r.status == status,
            r.headers@.len() == 0,
            r.body@ == body@,
    {
        HttpResponse { status, headers: Vec::new(), body }
    }

    /// A field-by-field copy.
    pub fn duplicate(&self) -> (r: Self)
        ensures
            r@ == self@,
    {
        let mut hs: Vec<(String, String)> = Vec::new();
        let mut i: usize = 0;
        while i < self.headers.len()
            invariant
                i <= self.headers@.len(),
                hs@.len() == i,
                forall|j: int| 0 <= j < i ==> (#[trigger] hs@[j]).0@ == self.headers@[j].0@
                    && hs@[j].1@ == self.headers@[j].1@,
            decreases self.headers.len() - i,
        {
            let k = self.headers[i].0.clone();
            let v = self.headers[i].1.clone();
            hs.push((k, v));
            i += 1;
        }
        assert(header_views(hs@) =~= header_views(self.headers@));
        HttpResponse { status: self.status, headers: hs, body: copy_bytes(&self.body) }
    }
}

/// In-memory client for tests and offline debugging. Routes are matched by
/// URL prefix; the first matching route wins. Requests are logged and can be
/// asserted on.
#[derive(Debug)]
pub struct MockHttp {
    routes: Vec<(String, HttpResponse)>,
    requests: Vec<String>,
}

/// The client's routes and request log as plain values.
#[verifier::ext_equal]
pub struct MockView {
    pub routes: Seq<(Seq<char>, ResponseView)>,
    pub requests: Seq<Seq<char>>,
}

impl View for MockHttp {
    type V = MockView;

    closed spec fn view(&self) -> MockView {
        MockView {
            routes: self.routes@.map_values(|r: (String, HttpResponse)| (r.0@, r.1@)),
            requests: crate::text::views(self.requests@),
        }
    }
}

/// A call that changes a mock client: registering a route, or requesting a URL.
pub enum MockOp {
    Route(Seq<char>, ResponseView),
    Dispatch(Seq<char>),
}

/// The client after one call.
pub open spec fn apply_op(m: MockView, op: MockOp) -> MockView {
    match op {
        MockOp::Route(prefix, resp) => MockView { routes: m.routes.push((prefix, resp)), requests: m.requests },
        MockOp::Dispatch(url) => MockView { routes: m.routes, requests: m.requests.push(url) },
    }
}

/// The client after a sequence of calls, in order.
pub open spec fn replay(m: MockView, ops: Seq<MockOp>) -> MockView
    decreases ops.len(),
{
    if ops.len() == 0 {
        m
    } else {
        apply_op(replay(m, ops.drop_last()), ops.last())
    }
}

/// The URLs requested by a sequence of calls, in order.
pub open spec fn dispatched(ops: Seq<MockOp>) -> Seq<Seq<char>>
    decreases ops.len(),
{
    if ops.len() == 0 {
        Seq::empty()
    } else {
        match ops.last() {
            MockOp::Dispatch(url) => dispatched(ops.drop_last()).push(url),
            MockOp::Route(_, _) => dispatched(ops.drop_last()),
        }
    }
}

/// A fresh client: no routes, nothing requested.
pub open spec fn empty_mock() -> MockView {
    MockView { routes: Seq::empty(), requests: Seq::empty() }
}

/// The request log of a client made by `new` is, after any sequence of
/// route registrations and requests, exactly the requested URLs in call
/// order, whether or not a route answered them.
pub proof fn lemma_log_is_requests(ops: Seq<MockOp>)
    ensures
        replay(empty_mock(), ops).requests == dispatched(ops),
    decreases ops.len(),
{
    if ops.len() > 0 {
        lemma_log_is_requests(ops.drop_last());
    }
}

/// The response of the first route whose prefix starts `url`.
pub open spec fn first_route(routes: Seq<(Seq<char>, ResponseView)>, url: Seq<char>) -> Option<ResponseView>
    decreases routes.len(),
{
    if routes.len() == 0 {
        None
    } else if seq_starts_with(url, routes[0].0) {
        Some(routes[0].1)
    } else {
        first_route(routes.skip(1), url)
    }
}

impl MockHttp {
    /// A client with no routes and an empty log.
    pub fn new() -> (r: Self)
        ensures
            r@ == empty_mock(),
    {
        let r = MockHttp { routes: Vec::new(), requests: Vec::new() };
        assert(r@.routes =~= Seq::<(Seq<char>, ResponseView)>::empty());
        assert(r@.requests =~= Seq::<Seq<char>>::empty());
        r
    }

    /// Registers a response for every URL starting with `prefix`, after the
    /// routes registered before.
    pub fn route(&mut self, prefix: &str, response: HttpResponse)
        ensures
            final(self)@ == apply_op(old(self)@, MockOp::Route(prefix@, response@)),
    {
        self.routes.push((String::from_str(prefix), response));
        assert(self@.routes =~= old(self)@.routes.push((prefix@, response@)));
    }

    /// Registers a status 200 response whose body is the UTF-8 encoding of `text`.
    pub fn route_text(&mut self, prefix: &str, text: &str)
        ensures
            final(self)@.routes.len() == old(self)@.routes.len() + 1,
            final(self)@.routes.drop_last() == old(self)@.routes,
            final(self)@.routes.last().0 == prefix@,
            final(self)@.routes.last().1.status == 200,
            final(self)@.routes.last().1.headers.len() == 0,
            final(self)@.routes.last().1.body == text.spec_bytes(),
            final(self)@ == apply_op(old(self)@, MockOp::Route(prefix@,
                ResponseView { status: 200, headers: Seq::empty(), body: text.spec_bytes() })),
    {
        let resp = HttpResponse::ok(200, text.as_bytes_vec());
        assert(resp@.headers =~= Seq::<(Seq<char>, Seq<char>)>::empty());
        assert(resp@ == ResponseView { status: 200, headers: Seq::empty(), body: text.spec_bytes() });
        self.route(prefix, resp);
        assert(self@.routes.drop_last() =~= old(self)@.routes);
    }

    /// The URLs requested so far, in order.
    pub fn requested(&self) -> (r: Vec<String>)
        ensures
            crate::text::views(r@) == self@.requests,
    {
        let mut r: Vec<String> = Vec::new();
        let mut i: usize = 0;
        while i < self.requests.len()
            invariant
                i <= self.requests@.len(),
                r@.len() == i,
                forall|j: int| 0 <= j < i ==> #[trigger] r@[j]@ == self.requests@[j]@,
            decreases self.requests.len() - i,
        {
            r.push(self.requests[i].clone());
            i += 1;
        }
        assert(crate::text::views(r@) =~= crate::text::views(self.requests@));
        r
    }

    /// Logs `url` and answers with the response of the first route whose
    /// prefix starts it, or a 404 `HttpStatus` error when none does.
    pub fn dispatch(&mut self, url: &str) -> (r: Result<HttpResponse, Error>)
        ensures
            final(self)@ == apply_op(old(self)@, MockOp::Dispatch(url@)),
            match first_route(old(self)@.routes, url@) {
                Some(resp) => r matches Ok(x) && x@ == resp,
                None => r matches Err(Error::HttpStatus { status, url: u, body })
                    && status == 404 && u@ == url@ && body@ == "no mock route registered"@,
            },
    {
        self.requests.push(String::from_str(url));
        proof {
            assert(self@.requests =~= old(self)@.requests.push(url@));
        }
        let ghost rs = self@.routes;
        let mut i: usize = 0;
        assert(rs.skip(0) =~= rs);
        while i < self.routes.len()
            invariant
                rs == self@.routes,
                rs == old(self)@.routes,
                self@.requests == old(self)@.requests.push(url@),
                rs.len() == self.routes@.len(),
                i <= rs.len(),
                first_route(rs, url@) == first_route(rs.skip(i as int), url@),
            decreases self.routes.len() - i,
        {
            assert(rs.skip(i as int)[0] == (self.routes@[i as int].0@, self.routes@[i as int].1@));
            if starts_with(url, self.routes[i].0.as_str()) {
                return Ok(self.routes[i].1.duplicate());
            }
            assert(rs.skip(i as int).skip(1) =~= rs.skip(i + 1));
            i += 1;
        }
        Err(Error::HttpStatus {
            status: 404,
            url: String::from_str(url),
            body: String::from_str("no mock route registered"),
        })
    }
}

/// The first registered route that matches a URL answers it; routes added
/// later never shadow it.
pub proof fn lemma_first_route_wins(
    routes: Seq<(Seq<char>, ResponseView)>,
    extra: (Seq<char>, ResponseView),
    url: Seq<char>,
)
    requires
        first_route(routes, url) is Some,
    ensures
        first_route(routes.push(extra), url) == first_route(routes, url),
    decreases routes.len(),
{
    assert(routes.push(extra)[0] == routes[0]);
    if !seq_starts_with(url, routes[0].0) {
        assert(routes.push(extra).skip(1) =~= routes.skip(1).push(extra));
        lemma_first_route_wins(routes.skip(1), extra, url);
    }
}

/// A route added after routes that all miss a URL answers that URL when its
/// prefix starts it.
pub proof fn lemma_new_route_answers(
    routes: Seq<(Seq<char>, ResponseView)>,
    prefix: Seq<char>,
    resp: ResponseView,
    url: Seq<char>,
)
    requires
        first_route(routes, url) is None,
        seq_starts_with(url, prefix),
    ensures
        first_route(routes.push((prefix, resp)), url) == Some(resp),
    decreases routes.len(),
{
    if routes.len() == 0 {
        assert(routes.push((prefix, resp))[0] == (prefix, resp));
    } else {
        assert(routes.push((prefix, resp))[0] == routes[0]);
        assert(routes.push((prefix, resp)).skip(1) =~= routes.skip(1).push((prefix, resp)));
        lemma_new_route_answers(routes.skip(1), prefix, resp, url);
    }
}

} // verus!
