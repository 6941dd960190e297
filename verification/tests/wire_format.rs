use mockwire::matcher::Matcher;
use mockwire::mock::Mock;
use mockwire::request::Request;
use mockwire::server::{address_string, parse_error_response, url, Server, ServerAddress};
use mockwire::wire::{render_response, Body};

fn get(path: &str) -> Request {
    Request {
        method: "GET".to_string(),
        path: path.to_string(),
        headers: vec![],
        body: vec![],
        version: (1, 1),
        error: None,
    }
}

#[test]
fn content_length_is_synthesized_from_exact_byte_count() {
    let mut s = Server::new();
    let mut m = Mock::new("GET".to_string(), Matcher::Exact("/a".to_string()));
    m.response.body = Body::Bytes(b"hello".to_vec());
    s.register(m);

    let response = s.handle_request(get("/a"));
    assert_eq!(
        response,
        b"HTTP/1.1 200 OK\r\ncontent-length: 5\r\n\r\nhello".to_vec()
    );
}

#[test]
fn explicit_content_length_is_never_overridden() {
    let mut s = Server::new();
    let mut m = Mock::new("GET".to_string(), Matcher::Exact("/a".to_string()));
    m.response.headers = vec![("content-length".to_string(), "999".to_string())];
    m.response.body = Body::Bytes(b"hello".to_vec());
    s.register(m);

    let response = s.handle_request(get("/a"));
    assert_eq!(
        response,
        b"HTTP/1.1 200 OK\r\ncontent-length: 999\r\n\r\nhello".to_vec()
    );
}

#[test]
fn response_headers_go_out_in_the_order_given() {
    let status = "200 OK".to_string();
    let headers = vec![
        ("b".to_string(), "2".to_string()),
        ("a".to_string(), "1".to_string()),
    ];
    let r = render_response((1, 1), &status, Some(&headers), None);
    assert_eq!(r, b"HTTP/1.1 200 OK\r\nb: 2\r\na: 1\r\n\r\n".to_vec());
}

#[test]
fn chunked_body_is_framed_and_terminated() {
    let mut s = Server::new();
    let mut m = Mock::new("GET".to_string(), Matcher::Exact("/a".to_string()));
    m.response.body = Body::Chunks(vec![b"hello".to_vec(), b"world!".to_vec()]);
    s.register(m);

    let response = s.handle_request(get("/a"));
    assert_eq!(
        response,
        b"HTTP/1.1 200 OK\r\ntransfer-encoding: chunked\r\n\r\n5\r\nhello\r\n6\r\nworld!\r\n0\r\n\r\n"
            .to_vec()
    );
    assert!(response.ends_with(b"0\r\n\r\n"));
}

#[test]
fn chunk_lengths_are_lower_case_hexadecimal() {
    let chunk = vec![b'x'; 26];
    let status = "200 OK".to_string();
    let body = Body::Chunks(vec![chunk.clone()]);
    let r = render_response((1, 1), &status, None, Some(&body));
    let mut expected = b"HTTP/1.1 200 OK\r\ntransfer-encoding: chunked\r\n\r\n1a\r\n".to_vec();
    expected.extend_from_slice(&chunk);
    expected.extend_from_slice(b"\r\n0\r\n\r\n");
    assert_eq!(r, expected);
}

#[test]
fn empty_chunks_are_skipped_rather_than_ending_the_body() {
    let status = "200 OK".to_string();
    let body = Body::Chunks(vec![vec![], b"abc".to_vec()]);
    let r = render_response((1, 1), &status, None, Some(&body));
    assert_eq!(
        r,
        b"HTTP/1.1 200 OK\r\ntransfer-encoding: chunked\r\n\r\n3\r\nabc\r\n0\r\n\r\n".to_vec()
    );
}

#[test]
fn absent_body_means_no_framing_header_and_no_bytes() {
    let status = "204 No Content".to_string();
    let r = render_response((1, 1), &status, None, None);
    assert_eq!(r, b"HTTP/1.1 204 No Content\r\n\r\n".to_vec());
}

#[test]
fn parse_error_response_carries_the_diagnostic() {
    let r = parse_error_response((1, 1), &Some("bad header".to_string()));
    assert_eq!(
        r,
        b"HTTP/1.1 422 Mock Error\r\ncontent-length: 10\r\n\r\nbad header".to_vec()
    );
}

#[test]
fn parse_error_response_falls_back_to_a_fixed_message() {
    let r = parse_error_response((1, 0), &None);
    assert_eq!(
        r,
        b"HTTP/1.0 422 Mock Error\r\ncontent-length: 28\r\n\r\nCould not parse the request.".to_vec()
    );
}

#[test]
fn address_and_url_render_host_and_port() {
    let addr = ServerAddress { port: 8080 };
    assert_eq!(address_string(&addr), "127.0.0.1:8080");
    assert_eq!(url(&addr), "http://127.0.0.1:8080");

    let low = ServerAddress { port: 7 };
    assert_eq!(url(&low), "http://127.0.0.1:7");

    let max = ServerAddress { port: 65535 };
    assert_eq!(url(&max), "http://127.0.0.1:65535");
}
