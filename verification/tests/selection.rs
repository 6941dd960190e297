use mockwire::matcher::Matcher;
use mockwire::mock::Mock;
use mockwire::request::Request;
use mockwire::server::Server;
use mockwire::wire::Body;

fn get(path: &str) -> Request {
    Request {
        method: "GET".to_string(),
        path: path.to_string(),
        headers: vec![],
        body: vec![],
        version: (1, 1),
        error: None,
    }
}

fn mock_with_body(path: &str, body: &str) -> Mock {
    let mut m = Mock::new("GET".to_string(), Matcher::Exact(path.to_string()));
    m.response.body = Body::Bytes(body.as_bytes().to_vec());
    m
}

fn body_of(response: &[u8]) -> Vec<u8> {
    let pos = response
        .windows(4)
        .position(|w| w == b"\r\n\r\n")
        .expect("response has a header terminator");
    response[pos + 4..].to_vec()
}

#[test]
fn earlier_missing_match_is_selected() {
    let mut s = Server::new();
    s.register(mock_with_body("/a", "first"));
    s.register(mock_with_body("/a", "second"));

    let response = s.handle_request(get("/a"));
    assert_eq!(body_of(&response), b"first".to_vec());
    assert_eq!(s.mocks[0].hits, 1);
    assert_eq!(s.mocks[1].hits, 0);
}

#[test]
fn exhausted_mocks_fall_back_to_last_registered() {
    let mut s = Server::new();
    let mut m1 = mock_with_body("/a", "first");
    m1.expected_hits_at_most = Some(0);
    let mut m2 = mock_with_body("/a", "second");
    m2.expected_hits_at_most = Some(0);
    s.register(m1);
    s.register(m2);

    // neither mock is missing hits, so the last registered one answers
    let response = s.handle_request(get("/a"));
    assert_eq!(body_of(&response), b"second".to_vec());
    assert_eq!(s.mocks[1].hits, 1);
}

#[test]
fn default_bounds_are_satisfied_after_one_hit() {
    let mut s = Server::new();
    s.register(mock_with_body("/a", "first"));
    s.register(mock_with_body("/a", "second"));

    let r1 = s.handle_request(get("/a"));
    assert_eq!(body_of(&r1), b"first".to_vec());
    // the first mock met its default expectation, the second is still missing
    let r2 = s.handle_request(get("/a"));
    assert_eq!(body_of(&r2), b"second".to_vec());
    // both satisfied: fall back to the last registered match
    let r3 = s.handle_request(get("/a"));
    assert_eq!(body_of(&r3), b"second".to_vec());
    assert_eq!(s.mocks[0].hits, 1);
    assert_eq!(s.mocks[1].hits, 2);
}

#[test]
fn at_least_two_keeps_mock_preferred_until_two_hits() {
    let mut s = Server::new();
    let mut m1 = mock_with_body("/a", "first");
    m1.expected_hits_at_least = Some(2);
    s.register(m1);
    s.register(mock_with_body("/a", "second"));

    assert_eq!(body_of(&s.handle_request(get("/a"))), b"first".to_vec());
    assert_eq!(body_of(&s.handle_request(get("/a"))), b"first".to_vec());
    assert_eq!(s.mocks[0].hits, 2);
    assert_eq!(body_of(&s.handle_request(get("/a"))), b"second".to_vec());
}

#[test]
fn unmatched_request_gets_fixed_not_found_response() {
    let mut s = Server::new();
    s.register(mock_with_body("/a", "first"));

    let response = s.handle_request(get("/elsewhere"));
    assert_eq!(
        response,
        b"HTTP/1.1 501 Mock Not Found\r\ncontent-length: 0\r\n\r\n".to_vec()
    );
    assert_eq!(s.unmatched_requests.len(), 1);
    assert_eq!(s.unmatched_requests[0].path, "/elsewhere");
    assert_eq!(s.mocks[0].hits, 0);
}

#[test]
fn not_found_echoes_request_version() {
    let mut s = Server::new();
    let mut r = get("/missing");
    r.version = (1, 0);
    let response = s.handle_request(r);
    assert_eq!(
        response,
        b"HTTP/1.0 501 Mock Not Found\r\ncontent-length: 0\r\n\r\n".to_vec()
    );
}

#[test]
fn head_request_gets_headers_and_status_but_no_body() {
    let mut s = Server::new();
    let mut m = Mock::new("HEAD".to_string(), Matcher::Exact("/a".to_string()));
    m.response.headers = vec![("x-custom".to_string(), "1".to_string())];
    m.response.body = Body::Bytes(b"hello".to_vec());
    s.register(m);

    let mut r = get("/a");
    r.method = "HEAD".to_string();
    let response = s.handle_request(r);
    assert_eq!(response, b"HTTP/1.1 200 OK\r\nx-custom: 1\r\n\r\n".to_vec());
    assert_eq!(s.mocks[0].hits, 1);
}

#[test]
fn matched_mock_counts_exactly_one_hit() {
    let mut s = Server::new();
    s.register(mock_with_body("/a", "x"));
    assert_eq!(s.mocks[0].hits, 0);
    s.handle_request(get("/a"));
    assert_eq!(s.mocks[0].hits, 1);
    assert!(s.unmatched_requests.is_empty());
}
