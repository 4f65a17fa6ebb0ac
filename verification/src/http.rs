//! Requests as plain data, and what a status means.

use vstd::prelude::*;

use crate::json::json_text;
use crate::json::Json;
use crate::text::concat;

verus! {

#[derive(Debug, Clone, Copy, PartialEq, Eq, Structural)]
pub enum Method {
    Get,
    Post,
}

/// A request that is ready to be sent.
pub struct HttpRequest {
    pub method: Method,
    pub url: String,
    pub query: Vec<(String, String)>,
    pub headers: Vec<(String, String)>,
    pub body: Option<String>,
}

/// The texts of a list of pairs.
pub open spec fn pair_texts(pairs: Seq<(String, String)>) -> Seq<(Seq<char>, Seq<char>)> {
    pairs.map_values(|pair: (String, String)| (pair.0@, pair.1@))
}

/// The header that goes with a JSON body.
pub open spec fn json_content() -> (Seq<char>, Seq<char>) {
    ("Content-Type"@, "application/json"@)
}

/// The header that carries a bearer token.
pub open spec fn bearer(token: Seq<char>) -> (Seq<char>, Seq<char>) {
    ("Authorization"@, "Bearer "@ + token)
}

impl HttpRequest {
    pub open spec fn query_texts(self) -> Seq<(Seq<char>, Seq<char>)> {
        pair_texts(self.query@)
    }

    pub open spec fn header_texts(self) -> Seq<(Seq<char>, Seq<char>)> {
        pair_texts(self.headers@)
    }

    /// Whether the request is made of these parts, without a query.
    pub open spec fn is_made_of(
        self,
        method: Method,
        url: Seq<char>,
        headers: Seq<(Seq<char>, Seq<char>)>,
        body: Option<Seq<char>>,
    ) -> bool {
        &&& self.method == method
        &&& self.url@ == url
        &&& self.query_texts() == Seq::<(Seq<char>, Seq<char>)>::empty()
        &&& self.header_texts() == headers
        &&& match (self.body, body) {
            (Some(sent), Some(text)) => sent@ == text,
            (None, None) => true,
            _ => false,
        }
    }

    /// A request without query, headers and body.
    pub fn new(method: Method, url: String) -> (r: HttpRequest)
        ensures
            r.is_made_of(method, url@, Seq::empty(), None),
    {
        let r = HttpRequest { method, url, query: Vec::new(), headers: Vec::new(), body: None };
        assert(r.query_texts() =~= Seq::<(Seq<char>, Seq<char>)>::empty());
        assert(r.header_texts() =~= Seq::<(Seq<char>, Seq<char>)>::empty());
        r
    }

    /// The request with one header more.
    pub fn header(self, name: &str, value: &str) -> (r: HttpRequest)
        ensures
            r.header_texts() == self.header_texts().push((name@, value@)),
            r == (HttpRequest { headers: r.headers, ..self }),
    {
        let mut headers = self.headers;
        headers.push((name.to_owned(), value.to_owned()));
        let r = HttpRequest {
            method: self.method,
            url: self.url,
            query: self.query,
            headers,
            body: self.body,
        };
        assert(r.header_texts() =~= self.header_texts().push((name@, value@)));
        r
    }

    /// The request with one query parameter more.
    pub fn parameter(self, name: &str, value: &str) -> (r: HttpRequest)
        ensures
            r.query_texts() == self.query_texts().push((name@, value@)),
            r == (HttpRequest { query: r.query, ..self }),
    {
        let mut query = self.query;
        query.push((name.to_owned(), value.to_owned()));
        let r = HttpRequest {
            method: self.method,
            url: self.url,
            query,
            headers: self.headers,
            body: self.body,
        };
        assert(r.query_texts() =~= self.query_texts().push((name@, value@)));
        r
    }

    /// The request with a bearer token.
    pub fn bearer_auth(self, token: &str) -> (r: HttpRequest)
        ensures
            r.header_texts() == self.header_texts().push(bearer(token@)),
            r == (HttpRequest { headers: r.headers, ..self }),
    {
        let value = concat("Bearer ", token);
        self.header("Authorization", value.as_str())
    }

    /// The request with a body that is JSON already.
    pub fn json_body(self, text: String) -> (r: HttpRequest)
        ensures
            r.header_texts() == self.header_texts().push(json_content()),
            r == (HttpRequest { headers: r.headers, body: Some(text), ..self }),
    {
        let r = self.header("Content-Type", "application/json");
        HttpRequest { body: Some(text), ..r }
    }

    /// The request with a JSON value as its body.
    pub fn json(self, value: Json) -> (r: HttpRequest)
        requires
            value.wf(),
        ensures
            r.header_texts() == self.header_texts().push(json_content()),
            r.body is Some,
            r.body->0@ == json_text(value@),
            r == (HttpRequest { headers: r.headers, body: r.body, ..self }),
    {
        self.json_body(value.into_text())
    }
}

/// Whether a status says that a request was carried out.
pub open spec fn success(status: u16) -> bool {
    200 <= status < 300
}

pub fn is_success(status: u16) -> (r: bool)
    ensures
        r == success(status),
        r == (200 <= status < 300),
{
    200 <= status && status < 300
}

/// A request that is said to be made of parts has these parts and no others.
pub proof fn request_has_its_parts(
    request: HttpRequest,
    method: Method,
    url: Seq<char>,
    headers: Seq<(Seq<char>, Seq<char>)>,
    body: Option<Seq<char>>,
)
    requires
        request.is_made_of(method, url, headers, body),
    ensures
        request.method == method,
        request.url@ == url,
        request.query@.len() == 0,
        request.headers@.len() == headers.len(),
        forall|i: int|
            0 <= i < headers.len() ==> (#[trigger] request.headers@[i]).0@ == headers[i].0
                && request.headers@[i].1@ == headers[i].1,
        request.body is Some <==> body is Some,
        body is Some ==> request.body->0@ == body->0,
{
    assert(request.query_texts().len() == request.query@.len());
    assert forall|i: int| 0 <= i < headers.len() implies (#[trigger] request.headers@[i]).0@
        == headers[i].0 && request.headers@[i].1@ == headers[i].1 by {
        assert(request.header_texts()[i] == headers[i]);
    }
}

/// A bearer token goes into the `Authorization` header, and a JSON body is said
/// to be one.
pub proof fn headers_are_spelled_out(token: Seq<char>)
    ensures
        bearer(token) == ("Authorization"@, "Bearer "@ + token),
        json_content() == ("Content-Type"@, "application/json"@),
{
}

/// A request was carried out where its status is one of the two hundreds.
pub proof fn success_is_the_two_hundreds(status: u16)
    ensures
        success(status) <==> status / 100 == 2,
{
}

/// The texts of a request's query and headers are those of their pairs, in order.
pub proof fn pairs_are_read_in_order(request: HttpRequest, i: int)
    ensures
        request.query_texts().len() == request.query@.len(),
        request.header_texts().len() == request.headers@.len(),
        0 <= i < request.query@.len() ==> request.query_texts()[i] == (
            request.query@[i].0@,
            request.query@[i].1@,
        ),
        0 <= i < request.headers@.len() ==> request.header_texts()[i] == (
            request.headers@[i].0@,
            request.headers@[i].1@,
        ),
{
}

} // verus!
