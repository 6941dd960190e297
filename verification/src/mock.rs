//! A registered mock: what to match (method, path, headers, body) and what
//! to answer (status, headers, body), together with its hit accounting.

use vstd::prelude::*;
use vstd::string::StringExecFns;
use crate::matcher::Matcher;
use crate::request::{Request, spec_header_values};
use crate::wire::Body;

verus! {

/// The characters that `String::from_utf8_lossy` produces for these bytes.
pub uninterp spec fn lossy_decode(bytes: Seq<u8>) -> Seq<char>;

/// Relies on String::from_utf8_lossy: the result is a function of the bytes
/// alone, and valid UTF-8 input decodes without any replacement.
#[verifier::external_body]
fn utf8_lossy(bytes: &Vec<u8>) -> (s: String)
    ensures
        s@ == lossy_decode(bytes@),
        vstd::utf8::valid_utf8(bytes@) ==> s@ == vstd::utf8::decode_utf8(bytes@),
{
    String::from_utf8_lossy(bytes).into_owned()
}

/// The response a mock answers with.
pub struct Response {
    pub status: String,
    pub headers: Vec<(String, String)>,
    pub body: Body,
}

impl Response {
    /// An empty 200 response.
    pub fn new() -> (r: Response)
        ensures
            r.status@ == "200 OK"@,
            r.headers@ == Seq::<(String, String)>::empty(),
            r.body matches Body::Bytes(b) && b@ == Seq::<u8>::empty(),
    {
        Response {
            status: String::from_str("200 OK"),
            headers: Vec::new(),
            body: Body::Bytes(Vec::new()),
        }
    }
}

/// One registered expectation: the requests it matches, the response it
/// sends, how often it has been hit, and the expected hit bounds.
pub struct Mock {
    pub method: String,
    pub path: Matcher,
    pub headers: Vec<(String, Matcher)>,
    pub body: Matcher,
    pub response: Response,
    pub hits: usize,
    pub expected_hits_at_least: Option<usize>,
    pub expected_hits_at_most: Option<usize>,
}

impl Mock {
    /// A mock for the given method and path, matching any headers and any
    /// body, answering an empty 200 response, expecting at least one call.
    pub fn new(method: String, path: Matcher) -> (m: Mock)
        ensures
            m.method@ == method@,
            m.path == path,
            m.headers@ == Seq::<(String, Matcher)>::empty(),
            m.body == Matcher::Any,
            m.response.status@ == "200 OK"@,
            m.response.headers@ == Seq::<(String, String)>::empty(),
            m.response.body matches Body::Bytes(b) && b@ == Seq::<u8>::empty(),
            m.hits == 0,
            m.expected_hits_at_least is None,
            m.expected_hits_at_most is None,
    {
        Mock {
            method,
            path,
            headers: Vec::new(),
            body: Matcher::Any,
            response: Response::new(),
            hits: 0,
            expected_hits_at_least: None,
            expected_hits_at_most: None,
        }
    }

    pub open spec fn spec_method_matches(self, request: Request) -> bool {
        self.method@ == request.method@
    }

    pub open spec fn spec_path_matches(self, request: Request) -> bool {
        self.path.accepts_value(request.path@)
    }

    /// Every registered header matcher accepts the complete set of values
    /// found in the request under that header's name.
    pub open spec fn spec_headers_match(self, request: Request) -> bool {
        forall|i: int|
            0 <= i < self.headers@.len() ==> (#[trigger] self.headers@[i]).1.accepts_values(
                spec_header_values(request.headers@, self.headers@[i].0@),
            )
    }

    /// The body matcher accepts the body read lossily as UTF-8 text, or it
    /// accepts the raw bytes; either success counts.
    pub open spec fn spec_body_matches(self, request: Request) -> bool {
        self.body.accepts_value(lossy_decode(request.body@)) || self.body.accepts_binary(
            request.body@,
        )
    }

    /// Whether this mock matches the request on all four components.
    pub open spec fn spec_matches(self, request: Request) -> bool {
        self.spec_method_matches(request) && self.spec_path_matches(request)
            && self.spec_headers_match(request) && self.spec_body_matches(request)
    }

    /// Whether this mock still misses hits against its expectation bounds.
    pub open spec fn spec_missing_hits(self) -> bool {
        match (self.expected_hits_at_least, self.expected_hits_at_most) {
            (Some(_at_least), Some(at_most)) => self.hits < at_most,
            (Some(at_least), None) => self.hits < at_least,
            (None, Some(at_most)) => self.hits < at_most,
            (None, None) => self.hits < 1,
        }
    }

    pub fn method_matches(&self, request: &Request) -> (r: bool)
        ensures
            r == self.spec_method_matches(*request),
    {
        self.method == request.method
    }

    pub fn path_matches(&self, request: &Request) -> (r: bool)
        ensures
            r == self.spec_path_matches(*request),
    {
        self.path.matches_value(&request.path)
    }

    pub fn headers_match(&self, request: &Request) -> (r: bool)
        ensures
            r == self.spec_headers_match(*request),
    {
        let mut i: usize = 0;
        let mut all = true;
        while i < self.headers.len()
            invariant
                i <= self.headers@.len(),
                all == (forall|k: int|
                    0 <= k < i ==> (#[trigger] self.headers@[k]).1.accepts_values(
                        spec_header_values(request.headers@, self.headers@[k].0@),
                    )),
            decreases self.headers@.len() - i,
        {
            let pair = &self.headers[i];
            let values = request.find_header_values(&pair.0);
            if !pair.1.matches_values(&values) {
                all = false;
            }
            i = i + 1;
        }
        all
    }

    pub fn body_matches(&self, request: &Request) -> (r: bool)
        ensures
            r == self.spec_body_matches(*request),
    {
        let safe_body = utf8_lossy(&request.body);
        self.body.matches_value(&safe_body) || self.body.matches_binary_value(&request.body)
    }

    /// Whether this mock matches the request (the conjunction of the four
    /// component checks).
    pub fn matches_request(&self, request: &Request) -> (r: bool)
        ensures
            r == self.spec_matches(*request),
    {
        self.method_matches(request) && self.path_matches(request) && self.headers_match(request)
            && self.body_matches(request)
    }

    pub fn is_missing_hits(&self) -> (r: bool)
        ensures
            r == self.spec_missing_hits(),
    {
        match (self.expected_hits_at_least, self.expected_hits_at_most) {
            (Some(_at_least), Some(at_most)) => self.hits < at_most,
            (Some(at_least), None) => self.hits < at_least,
            (None, Some(at_most)) => self.hits < at_most,
            (None, None) => self.hits < 1,
        }
    }
}

/// A mock with no explicit bounds is missing hits exactly while it has never
/// been hit.
pub proof fn lemma_default_bounds_missing_hits(m: Mock)
    requires
        m.expected_hits_at_least is None,
        m.expected_hits_at_most is None,
    ensures
        m.spec_missing_hits() <==> m.hits == 0,
{
}

/// A mock with only a lower bound is missing hits exactly while its counter
/// is below that bound.
pub proof fn lemma_lower_bound_missing_hits(m: Mock, at_least: usize)
    requires
        m.expected_hits_at_least == Some(at_least),
        m.expected_hits_at_most is None,
    ensures
        m.spec_missing_hits() <==> m.hits < at_least,
{
}

} // verus!
