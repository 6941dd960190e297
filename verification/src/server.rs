//! The server state: registered mocks in registration order, the unmatched
//! request log, and the listening address; the selection policy that decides
//! which mock answers a request; and the slot-picking policy of the pool.

use vstd::prelude::*;
use vstd::string::StringExecFns;
use crate::mock::Mock;
use crate::request::Request;
use crate::wire::{Body, error_bytes, not_found_bytes, render_response, response_bytes};

verus! {

/// The loopback address a started server listens on.
#[derive(Clone, Copy)]
pub struct ServerAddress {
    pub port: u16,
}

/// The decimal digit characters of `n`, most significant first.
pub open spec fn dec_chars(n: nat) -> Seq<char>
    decreases n,
{
    if n < 10 {
        seq![(((48 + n % 10) as u8) as char)]
    } else {
        dec_chars(n / 10).push(((48 + n % 10) as u8) as char)
    }
}

/// The textual form of a server address: `127.0.0.1:<port>`.
pub open spec fn spec_address_chars(port: nat) -> Seq<char> {
    "127.0.0.1:"@ + dec_chars(port)
}

/// Appends the decimal rendering of `n` to a string.
fn append_dec_chars(s: &mut String, n: u64)
    ensures
        final(s)@ == old(s)@ + dec_chars(n as nat),
    decreases n,
{
    if n >= 10 {
        proof {
            assert(n / 10 < n) by (nonlinear_arith)
                requires
                    n >= 10,
            ;
        }
        append_dec_chars(s, n / 10);
    }
    let d = n % 10;
    let digit: &str = if d == 0 {
        "0"
    } else if d == 1 {
        "1"
    } else if d == 2 {
        "2"
    } else if d == 3 {
        "3"
    } else if d == 4 {
        "4"
    } else if d == 5 {
        "5"
    } else if d == 6 {
        "6"
    } else if d == 7 {
        "7"
    } else if d == 8 {
        "8"
    } else {
        "9"
    };
    proof {
        reveal_strlit("0");
        reveal_strlit("1");
        reveal_strlit("2");
        reveal_strlit("3");
        reveal_strlit("4");
        reveal_strlit("5");
        reveal_strlit("6");
        reveal_strlit("7");
        reveal_strlit("8");
        reveal_strlit("9");
        assert(digit@ =~= seq![(((48 + (n as nat) % 10) as u8) as char)]);
    }
    s.append(digit);
    proof {
        assert(final(s)@ =~= old(s)@ + dec_chars(n as nat));
    }
}

/// The textual host and port of a server address.
pub fn address_string(addr: &ServerAddress) -> (r: String)
    ensures
        r@ == spec_address_chars(addr.port as nat),
{
    let mut s = String::from_str("127.0.0.1:");
    append_dec_chars(&mut s, addr.port as u64);
    s
}

/// A local `http://…` URL for the given server address.
pub fn url(addr: &ServerAddress) -> (r: String)
    ensures
        r@ == "http://"@ + spec_address_chars(addr.port as nat),
{
    let mut s = String::from_str("http://");
    let host = address_string(addr);
    s.append(host.as_str());
    s
}

/// The first mock, in registration order, that matches the request and is
/// still missing hits.
pub open spec fn spec_first_missing(mocks: Seq<Mock>, request: Request) -> Option<int>
    decreases mocks.len(),
{
    if mocks.len() == 0 {
        None
    } else {
        match spec_first_missing(mocks.drop_last(), request) {
            Some(i) => Some(i),
            None => if mocks.last().spec_matches(request) && mocks.last().spec_missing_hits() {
                Some(mocks.len() - 1)
            } else {
                None
            },
        }
    }
}

/// The last mock, in registration order, that matches the request.
pub open spec fn spec_last_match(mocks: Seq<Mock>, request: Request) -> Option<int>
    decreases mocks.len(),
{
    if mocks.len() == 0 {
        None
    } else if mocks.last().spec_matches(request) {
        Some(mocks.len() - 1)
    } else {
        spec_last_match(mocks.drop_last(), request)
    }
}

/// The selection policy: prefer the first matching mock still missing hits;
/// when every matching mock has met its ceiling, fall back to the last
/// matching mock.
pub open spec fn spec_selected(mocks: Seq<Mock>, request: Request) -> Option<int> {
    match spec_first_missing(mocks, request) {
        Some(i) => Some(i),
        None => spec_last_match(mocks, request),
    }
}

pub proof fn lemma_first_missing_props(mocks: Seq<Mock>, request: Request)
    ensures
        match spec_first_missing(mocks, request) {
            Some(i) => 0 <= i < mocks.len() && mocks[i].spec_matches(request)
                && mocks[i].spec_missing_hits() && forall|k: int|
                0 <= k < i ==> !((#[trigger] mocks[k]).spec_matches(request)
                    && mocks[k].spec_missing_hits()),
            None => forall|k: int|
                0 <= k < mocks.len() ==> !((#[trigger] mocks[k]).spec_matches(request)
                    && mocks[k].spec_missing_hits()),
        },
    decreases mocks.len(),
{
    if mocks.len() > 0 {
        lemma_first_missing_props(mocks.drop_last(), request);
        assert(forall|k: int|
            0 <= k < mocks.len() - 1 ==> mocks.drop_last()[k] == mocks[k]);
    }
}

pub proof fn lemma_last_match_props(mocks: Seq<Mock>, request: Request)
    ensures
        match spec_last_match(mocks, request) {
            Some(i) => 0 <= i < mocks.len() && mocks[i].spec_matches(request) && forall|k: int|
                i < k < mocks.len() ==> !(#[trigger] mocks[k]).spec_matches(request),
            None => forall|k: int|
                0 <= k < mocks.len() ==> !(#[trigger] mocks[k]).spec_matches(request),
        },
    decreases mocks.len(),
{
    if mocks.len() > 0 {
        lemma_last_match_props(mocks.drop_last(), request);
        assert(forall|k: int|
            0 <= k < mocks.len() - 1 ==> mocks.drop_last()[k] == mocks[k]);
    }
}

/// Among two matching mocks registered in this order, the earlier one is
/// selected — not the later — whenever the earlier one is still missing
/// hits; whichever mock is selected stands no later than the earlier one.
pub proof fn lemma_earlier_missing_match_preferred(
    mocks: Seq<Mock>,
    request: Request,
    i: int,
    j: int,
)
    requires
        0 <= i < j < mocks.len(),
        mocks[i].spec_matches(request),
        mocks[i].spec_missing_hits(),
        mocks[j].spec_matches(request),
    ensures
        spec_selected(mocks, request) matches Some(s) && 0 <= s <= i && mocks[s].spec_matches(
            request,
        ) && mocks[s].spec_missing_hits(),
        spec_selected(mocks, request) != Some(j),
{
    lemma_first_missing_props(mocks, request);
}

/// When every matching mock has met its expectation ceiling, the selection
/// falls back to the last matching mock in registration order.
pub proof fn lemma_exhausted_mocks_fall_back_to_last(mocks: Seq<Mock>, request: Request, w: int)
    requires
        forall|k: int|
            0 <= k < mocks.len() && (#[trigger] mocks[k]).spec_matches(request)
                ==> !mocks[k].spec_missing_hits(),
        0 <= w < mocks.len(),
        mocks[w].spec_matches(request),
    ensures
        spec_selected(mocks, request) matches Some(s) && 0 <= s < mocks.len()
            && mocks[s].spec_matches(request) && forall|k: int|
            s < k < mocks.len() ==> !(#[trigger] mocks[k]).spec_matches(request),
{
    lemma_first_missing_props(mocks, request);
    lemma_last_match_props(mocks, request);
}

/// The selected mock after its hit counter moved up by one.
pub open spec fn spec_hit_once(m: Mock) -> Mock {
    Mock { hits: (m.hits + 1) as usize, ..m }
}

/// A selected mock with no explicit bounds has met its default expectation
/// after the one recorded hit: it counts exactly one more hit and is no
/// longer missing hits.
pub proof fn lemma_default_bounds_satisfied_after_hit(m: Mock)
    requires
        m.expected_hits_at_least is None,
        m.expected_hits_at_most is None,
        m.hits < usize::MAX,
    ensures
        spec_hit_once(m).hits == m.hits + 1,
        !spec_hit_once(m).spec_missing_hits(),
{
}

/// The bytes a matched mock answers with: its status, its headers, and its
/// body — the body left off entirely for a HEAD request.
pub open spec fn spec_mock_response_bytes(m: Mock, request: Request) -> Seq<u8> {
    response_bytes(
        request.version,
        m.response.status@,
        m.response.headers@,
        if request.method@ == "HEAD"@ {
            None
        } else {
            Some(m.response.body)
        },
    )
}

/// A HEAD request is answered with the mock's status and headers but zero
/// body bytes on the wire: the same bytes as a response with no body at all.
pub proof fn lemma_head_response_has_no_body(m: Mock, request: Request)
    requires
        request.method@ == "HEAD"@,
    ensures
        spec_mock_response_bytes(m, request) == response_bytes(
            request.version,
            m.response.status@,
            m.response.headers@,
            None,
        ),
{
}

/// The serialized response for a matched mock.
pub fn mock_response(m: &Mock, version: (u8, u8), skip_body: bool) -> (r: Vec<u8>)
    ensures
        r@ == response_bytes(
            version,
            m.response.status@,
            m.response.headers@,
            if skip_body {
                None
            } else {
                Some(m.response.body)
            },
        ),
{
    if skip_body {
        render_response(version, &m.response.status, Some(&m.response.headers), None)
    } else {
        render_response(
            version,
            &m.response.status,
            Some(&m.response.headers),
            Some(&m.response.body),
        )
    }
}

/// Maps an executable index option to its mathematical counterpart.
pub open spec fn opt_index(o: Option<usize>) -> Option<int> {
    match o {
        Some(k) => Some(k as int),
        None => None,
    }
}

/// One mock server: its address once started, its mocks in registration
/// order, and the log of requests nothing matched.
pub struct Server {
    pub listening_addr: Option<ServerAddress>,
    pub mocks: Vec<Mock>,
    pub unmatched_requests: Vec<Request>,
}

impl Server {
    /// A fresh server: not listening, no mocks, no unmatched requests.
    pub fn new() -> (s: Server)
        ensures
            s.listening_addr is None,
            s.mocks@ == Seq::<Mock>::empty(),
            s.unmatched_requests@ == Seq::<Request>::empty(),
    {
        Server { listening_addr: None, mocks: Vec::new(), unmatched_requests: Vec::new() }
    }

    /// Registers a mock after all earlier ones; registration order decides
    /// selection precedence.
    pub fn register(&mut self, mock: Mock)
        ensures
            final(self).mocks@ == old(self).mocks@.push(mock),
            final(self).unmatched_requests@ == old(self).unmatched_requests@,
            final(self).listening_addr == old(self).listening_addr,
    {
        self.mocks.push(mock);
    }

    /// Whether the listener still has to be started.
    pub fn needs_start(&self) -> (r: bool)
        ensures
            r == (self.listening_addr is None),
    {
        self.listening_addr.is_none()
    }

    /// Records the address of a successfully bound listener; the address is
    /// set once and never changes afterwards.
    pub fn record_start(&mut self, port: u16)
        requires
            old(self).listening_addr is None,
        ensures
            final(self).listening_addr matches Some(a) && a.port == port,
            final(self).mocks@ == old(self).mocks@,
            final(self).unmatched_requests@ == old(self).unmatched_requests@,
    {
        self.listening_addr = Some(ServerAddress { port });
    }

    /// Answers one parsed request: selects a mock by the two-phase policy,
    /// counts the hit and serializes that mock's response; or, when nothing
    /// matches, logs the request and serializes the fixed `501 Mock Not
    /// Found` response. Callers keep every hit counter below the machine
    /// limit, so the one counted hit cannot overflow.
    pub fn handle_request(&mut self, request: Request) -> (response: Vec<u8>)
        requires
            forall|k: int|
                0 <= k < old(self).mocks@.len() ==> (#[trigger] old(self).mocks@[k]).hits
                    < usize::MAX,
        ensures
            final(self).listening_addr == old(self).listening_addr,
            match spec_selected(old(self).mocks@, request) {
                Some(i) => {
                    &&& final(self).mocks@ == old(self).mocks@.update(
                        i,
                        spec_hit_once(old(self).mocks@[i]),
                    )
                    &&& final(self).unmatched_requests@ == old(self).unmatched_requests@
                    &&& response@ == spec_mock_response_bytes(old(self).mocks@[i], request)
                },
                None => {
                    &&& final(self).mocks@ == old(self).mocks@
                    &&& final(self).unmatched_requests@ == old(self).unmatched_requests@.push(
                        request,
                    )
                    &&& response@ == not_found_bytes(request.version)
                },
            },
    {
        let mut i: usize = 0;
        let mut first_missing: Option<usize> = None;
        let mut last_match: Option<usize> = None;
        while i < self.mocks.len()
            invariant
                i <= self.mocks@.len(),
                self.mocks@ == old(self).mocks@,
                opt_index(first_missing) == spec_first_missing(
                    self.mocks@.take(i as int),
                    request,
                ),
                opt_index(last_match) == spec_last_match(self.mocks@.take(i as int), request),
            decreases self.mocks@.len() - i,
        {
            proof {
                assert(self.mocks@.take(i + 1).drop_last() =~= self.mocks@.take(i as int));
                assert(self.mocks@.take(i + 1).last() == self.mocks@[i as int]);
            }
            let matched = self.mocks[i].matches_request(&request);
            if matched {
                last_match = Some(i);
                if first_missing.is_none() && self.mocks[i].is_missing_hits() {
                    first_missing = Some(i);
                }
            }
            i = i + 1;
        }
        proof {
            assert(self.mocks@.take(self.mocks@.len() as int) =~= self.mocks@);
        }
        let chosen: Option<usize> = match first_missing {
            Some(k) => Some(k),
            None => last_match,
        };
        proof {
            assert(opt_index(chosen) == spec_selected(old(self).mocks@, request));
            lemma_first_missing_props(old(self).mocks@, request);
            lemma_last_match_props(old(self).mocks@, request);
        }
        match chosen {
            Some(idx) => {
                let mut m = self.mocks.remove(idx);
                m.hits = m.hits + 1;
                let skip_body = request.is_head();
                let response = mock_response(&m, request.version, skip_body);
                self.mocks.insert(idx, m);
                proof {
                    assert(final(self).mocks@ =~= old(self).mocks@.update(
                        idx as int,
                        spec_hit_once(old(self).mocks@[idx as int]),
                    ));
                }
                response
            },
            None => {
                let response = not_found_response(request.version);
                self.unmatched_requests.push(request);
                response
            },
        }
    }
}

/// The fixed response for a request no mock matched: `501 Mock Not Found`
/// with an explicit `content-length: 0` and no body, on the request's own
/// protocol version.
pub fn not_found_response(version: (u8, u8)) -> (r: Vec<u8>)
    ensures
        r@ == not_found_bytes(version),
{
    let mut headers: Vec<(String, String)> = Vec::new();
    headers.push((String::from_str("content-length"), String::from_str("0")));
    let status = String::from_str("501 Mock Not Found");
    let r = render_response(version, &status, Some(&headers), None);
    proof {
        assert(headers@.drop_last() =~= Seq::<(String, String)>::empty());
        assert(crate::wire::headers_bytes(headers@.drop_last()) =~= Seq::<u8>::empty());
        assert(crate::wire::headers_bytes(headers@) =~= crate::wire::header_line_chars(
            "content-length"@,
            "0"@,
        ));
        assert(r@ =~= not_found_bytes(version));
    }
    r
}

/// The response for a connection whose request could not be parsed: `422
/// Mock Error`, the diagnostic message (or a fixed fallback) as the body,
/// and a synthesized `content-length`.
pub fn parse_error_response(version: (u8, u8), error: &Option<String>) -> (r: Vec<u8>)
    ensures
        r@ == error_bytes(
            version,
            match error {
                Some(e) => e@,
                None => "Could not parse the request."@,
            },
        ),
{
    let status = String::from_str("422 Mock Error");
    let message: &str = match error {
        Some(e) => e.as_str(),
        None => "Could not parse the request.",
    };
    let body = Body::Bytes(message.as_bytes_vec());
    let r = render_response(version, &status, None, Some(&body));
    proof {
        assert(r@ =~= error_bytes(
            version,
            match error {
                Some(e) => e@,
                None => "Could not parse the request."@,
            },
        ));
    }
    r
}

/// The first free slot of the pool, in fixed order; slot 0 is the designated
/// fallback when every slot is contended.
pub fn pick_slot(available: &Vec<bool>) -> (slot: usize)
    requires
        available@.len() > 0,
    ensures
        slot < available@.len(),
        (exists|i: int| 0 <= i < available@.len() && available@[i]) ==> available@[slot as int]
            && forall|k: int| 0 <= k < slot ==> !available@[k],
        !(exists|i: int| 0 <= i < available@.len() && available@[i]) ==> slot == 0,
{
    let mut i: usize = 0;
    while i < available.len()
        invariant
            i <= available@.len(),
            forall|k: int| 0 <= k < i ==> !available@[k],
        decreases available@.len() - i,
    {
        if available[i] {
            return i;
        }
        i = i + 1;
    }
    0
}

} // verus!
