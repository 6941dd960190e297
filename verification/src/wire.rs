//! Wire-level response serialization: status line, headers, synthesized
//! framing headers, and fixed or chunked bodies, all rendered into one byte
//! buffer that the connection handler writes to the stream.

use vstd::prelude::*;
use vstd::utf8::encode_utf8;

verus! {

/// A response body: either a fixed byte buffer, or a sequence of chunks to
/// be sent with chunked transfer encoding (the chunks a caller-supplied
/// producer emitted).
pub enum Body {
    Bytes(Vec<u8>),
    Chunks(Vec<Vec<u8>>),
}

/// The UTF-8 bytes of a string, as they leave on the wire.
pub open spec fn str_bytes(s: Seq<char>) -> Seq<u8> {
    encode_utf8(s)
}

pub open spec fn crlf() -> Seq<u8> {
    seq![13u8, 10u8]
}

/// Decimal digits of `n`, most significant first, as ASCII bytes.
pub open spec fn dec_digits(n: nat) -> Seq<u8>
    decreases n,
{
    if n < 10 {
        seq![(48 + n) as u8]
    } else {
        dec_digits(n / 10).push((48 + n % 10) as u8)
    }
}

/// One lower-case hexadecimal digit.
pub open spec fn hex_digit(d: nat) -> u8 {
    if d < 10 {
        (48 + d) as u8
    } else {
        (87 + d) as u8
    }
}

/// Hexadecimal digits of `n`, most significant first, as ASCII bytes.
pub open spec fn hex_digits(n: nat) -> Seq<u8>
    decreases n,
{
    if n < 16 {
        seq![hex_digit(n)]
    } else {
        hex_digits(n / 16).push(hex_digit(n % 16))
    }
}

/// One serialized header line: `name: value\r\n`.
pub open spec fn header_line_chars(name: Seq<char>, value: Seq<char>) -> Seq<u8> {
    str_bytes(name) + str_bytes(": "@) + str_bytes(value) + crlf()
}

/// One serialized header line, from an owned header pair.
pub open spec fn header_line(h: (String, String)) -> Seq<u8> {
    header_line_chars(h.0@, h.1@)
}

/// All header lines, in the order given.
pub open spec fn headers_bytes(hs: Seq<(String, String)>) -> Seq<u8>
    decreases hs.len(),
{
    if hs.len() == 0 {
        Seq::empty()
    } else {
        headers_bytes(hs.drop_last()) + header_line(hs.last())
    }
}

/// Whether a `content-length` header was supplied explicitly.
pub open spec fn has_content_length(hs: Seq<(String, String)>) -> bool {
    exists|i: int| 0 <= i < hs.len() && hs[i].0@ == "content-length"@
}

/// The status line: `HTTP/<major>.<minor> <status>\r\n`.
pub open spec fn status_line(version: (u8, u8), status: Seq<char>) -> Seq<u8> {
    str_bytes("HTTP/"@) + dec_digits(version.0 as nat) + str_bytes("."@) + dec_digits(
        version.1 as nat,
    ) + str_bytes(" "@) + status_tail(status)
}

/// The status text followed by the line terminator.
pub open spec fn status_tail(status: Seq<char>) -> Seq<u8> {
    str_bytes(status) + crlf()
}

/// The framing header synthesized from the body: a `content-length` for a
/// fixed buffer (unless one was supplied explicitly, which is never
/// overridden), `transfer-encoding: chunked` for a chunked body, nothing
/// for an absent body.
pub open spec fn framing_bytes(explicit_length: bool, body: Option<Body>) -> Seq<u8> {
    match body {
        Some(Body::Bytes(b)) => if explicit_length {
            Seq::empty()
        } else {
            str_bytes("content-length: "@) + dec_digits(b@.len()) + crlf()
        },
        Some(Body::Chunks(_)) => str_bytes("transfer-encoding: chunked"@) + crlf(),
        None => Seq::empty(),
    }
}

/// One chunk on the wire: `<hex length>\r\n<data>\r\n`; an empty chunk
/// produces nothing, since a zero-length chunk would end the body early.
pub open spec fn chunk_bytes(c: Seq<u8>) -> Seq<u8> {
    if c.len() == 0 {
        Seq::empty()
    } else {
        hex_digits(c.len()) + crlf() + c + crlf()
    }
}

/// All chunks, in order.
pub open spec fn chunks_bytes(cs: Seq<Vec<u8>>) -> Seq<u8>
    decreases cs.len(),
{
    if cs.len() == 0 {
        Seq::empty()
    } else {
        chunks_bytes(cs.drop_last()) + chunk_bytes(cs.last()@)
    }
}

/// The terminating zero-length chunk: `0\r\n\r\n`.
pub open spec fn chunk_terminator() -> Seq<u8> {
    seq![48u8] + crlf() + crlf()
}

/// The body bytes that follow the blank line.
pub open spec fn body_payload(body: Option<Body>) -> Seq<u8> {
    match body {
        None => Seq::empty(),
        Some(Body::Bytes(b)) => b@,
        Some(Body::Chunks(cs)) => chunks_bytes(cs@) + chunk_terminator(),
    }
}

/// The complete serialized response.
pub open spec fn response_bytes(
    version: (u8, u8),
    status: Seq<char>,
    headers: Seq<(String, String)>,
    body: Option<Body>,
) -> Seq<u8> {
    status_line(version, status) + headers_bytes(headers) + framing_bytes(
        has_content_length(headers),
        body,
    ) + crlf() + body_payload(body)
}

/// The fixed response for an unmatched request: `501 Mock Not Found` with
/// an explicit `content-length: 0` header and no body, on the request's own
/// protocol version.
pub open spec fn not_found_bytes(version: (u8, u8)) -> Seq<u8> {
    status_line(version, "501 Mock Not Found"@) + header_line_chars("content-length"@, "0"@)
        + crlf()
}

/// The response for an unparsable request: `422 Mock Error`, the diagnostic
/// message as the body, and a `content-length` synthesized from it.
pub open spec fn error_bytes(version: (u8, u8), message: Seq<char>) -> Seq<u8> {
    status_line(version, "422 Mock Error"@) + str_bytes("content-length: "@) + dec_digits(
        str_bytes(message).len(),
    ) + crlf() + crlf() + str_bytes(message)
}

/// A fixed-buffer body without an explicit `content-length` header gets one
/// synthesized with the exact byte count; an explicit one is never
/// overridden — nothing is added and the headers go out exactly as given.
pub proof fn lemma_content_length_synthesis(
    version: (u8, u8),
    status: Seq<char>,
    headers: Seq<(String, String)>,
    b: Vec<u8>,
)
    ensures
        !has_content_length(headers) ==> response_bytes(version, status, headers, Some(Body::Bytes(b)))
            == status_line(version, status) + headers_bytes(headers) + (str_bytes(
            "content-length: "@,
        ) + dec_digits(b@.len()) + crlf()) + crlf() + b@,
        has_content_length(headers) ==> response_bytes(version, status, headers, Some(Body::Bytes(b)))
            == status_line(version, status) + headers_bytes(headers) + crlf() + b@,
{
    if has_content_length(headers) {
        assert(response_bytes(version, status, headers, Some(Body::Bytes(b))) =~= status_line(
            version,
            status,
        ) + headers_bytes(headers) + crlf() + b@);
    }
}

/// A chunked body always carries `transfer-encoding: chunked` in place of
/// any length header, and the serialized response always ends with the
/// literal zero-length chunk `0\r\n\r\n`.
pub proof fn lemma_chunked_response_shape(
    version: (u8, u8),
    status: Seq<char>,
    headers: Seq<(String, String)>,
    cs: Vec<Vec<u8>>,
)
    ensures
        framing_bytes(has_content_length(headers), Some(Body::Chunks(cs))) == str_bytes(
            "transfer-encoding: chunked"@,
        ) + crlf(),
        ({
            let r = response_bytes(version, status, headers, Some(Body::Chunks(cs)));
            r.len() >= 5 && r.subrange(r.len() - 5, r.len() as int) == chunk_terminator()
        }),
{
    let r = response_bytes(version, status, headers, Some(Body::Chunks(cs)));
    assert(chunk_terminator().len() == 5);
    assert(r.subrange(r.len() - 5, r.len() as int) =~= chunk_terminator());
}

/// Appends a byte slice to the output buffer.
fn append_bytes(out: &mut Vec<u8>, src: &[u8])
    ensures
        final(out)@ == old(out)@ + src@,
{
    let mut i: usize = 0;
    while i < src.len()
        invariant
            i <= src@.len(),
            out@ == old(out)@ + src@.take(i as int),
        decreases src@.len() - i,
    {
        proof {
            assert(src@.take(i + 1) =~= src@.take(i as int).push(src@[i as int]));
        }
        out.push(src[i]);
        i = i + 1;
    }
    proof {
        assert(src@.take(src@.len() as int) =~= src@);
    }
}

/// Appends the UTF-8 bytes of a string slice.
fn append_str(out: &mut Vec<u8>, s: &str)
    ensures
        final(out)@ == old(out)@ + str_bytes(s@),
{
    append_bytes(out, s.as_bytes());
}

fn append_crlf(out: &mut Vec<u8>)
    ensures
        final(out)@ == old(out)@ + crlf(),
{
    out.push(13);
    out.push(10);
    proof {
        assert(out@ =~= old(out)@ + crlf());
    }
}

/// Appends the decimal rendering of `n`.
fn append_dec(out: &mut Vec<u8>, n: u64)
    ensures
        final(out)@ == old(out)@ + dec_digits(n as nat),
    decreases n,
{
    if n >= 10 {
        proof {
            assert(n / 10 < n) by (nonlinear_arith)
                requires
                    n >= 10,
            ;
        }
        append_dec(out, n / 10);
    }
    out.push((48 + (n % 10)) as u8);
    proof {
        assert(out@ =~= old(out)@ + dec_digits(n as nat));
    }
}

/// Appends the lower-case hexadecimal rendering of `n`.
fn append_hex(out: &mut Vec<u8>, n: u64)
    ensures
        final(out)@ == old(out)@ + hex_digits(n as nat),
    decreases n,
{
    if n >= 16 {
        proof {
            assert(n / 16 < n) by (nonlinear_arith)
                requires
                    n >= 16,
            ;
        }
        append_hex(out, n / 16);
    }
    let d = n % 16;
    if d < 10 {
        out.push((48 + d) as u8);
    } else {
        out.push((87 + d) as u8);
    }
    proof {
        assert(out@ =~= old(out)@ + hex_digits(n as nat));
    }
}

/// Whether the headers contain an explicit `content-length`.
fn contains_content_length(headers: &Vec<(String, String)>) -> (r: bool)
    ensures
        r == has_content_length(headers@),
{
    let needle = String::from_str("content-length");
    let mut i: usize = 0;
    let mut found = false;
    while i < headers.len()
        invariant
            i <= headers@.len(),
            needle@ == "content-length"@,
            found == exists|k: int| 0 <= k < i && headers@[k].0@ == "content-length"@,
        decreases headers@.len() - i,
    {
        if headers[i].0 == needle {
            found = true;
        }
        i = i + 1;
    }
    found
}

/// Appends every header line in order.
fn append_headers(out: &mut Vec<u8>, headers: &Vec<(String, String)>)
    ensures
        final(out)@ == old(out)@ + headers_bytes(headers@),
{
    let mut i: usize = 0;
    while i < headers.len()
        invariant
            i <= headers@.len(),
            out@ == old(out)@ + headers_bytes(headers@.take(i as int)),
        decreases headers@.len() - i,
    {
        proof {
            assert(headers@.take(i + 1).drop_last() =~= headers@.take(i as int));
            assert(headers@.take(i + 1).last() == headers@[i as int]);
        }
        let pair = &headers[i];
        append_str(out, pair.0.as_str());
        append_str(out, ": ");
        append_str(out, pair.1.as_str());
        append_crlf(out);
        i = i + 1;
    }
    proof {
        assert(headers@.take(headers@.len() as int) =~= headers@);
    }
}

/// Appends every chunk, framed, followed by the zero-length terminator.
fn append_chunked_body(out: &mut Vec<u8>, chunks: &Vec<Vec<u8>>)
    ensures
        final(out)@ == old(out)@ + chunks_bytes(chunks@) + chunk_terminator(),
{
    let mut i: usize = 0;
    while i < chunks.len()
        invariant
            i <= chunks@.len(),
            out@ == old(out)@ + chunks_bytes(chunks@.take(i as int)),
        decreases chunks@.len() - i,
    {
        proof {
            assert(chunks@.take(i + 1).drop_last() =~= chunks@.take(i as int));
            assert(chunks@.take(i + 1).last() == chunks@[i as int]);
        }
        let chunk = &chunks[i];
        if chunk.len() > 0 {
            append_hex(out, chunk.len() as u64);
            append_crlf(out);
            append_bytes(out, chunk.as_slice());
            append_crlf(out);
        }
        i = i + 1;
    }
    proof {
        assert(chunks@.take(chunks@.len() as int) =~= chunks@);
    }
    out.push(48);
    append_crlf(out);
    append_crlf(out);
    proof {
        assert(out@ =~= old(out)@ + chunks_bytes(chunks@) + chunk_terminator());
    }
}

/// Serializes one complete response: status line, the headers as given, the
/// synthesized framing header, a blank line, then the body bytes.
#[verifier::rlimit(50)]
pub fn render_response(
    version: (u8, u8),
    status: &String,
    headers: Option<&Vec<(String, String)>>,
    body: Option<&Body>,
) -> (r: Vec<u8>)
    ensures
        r@ == response_bytes(
            version,
            status@,
            match headers {
                Some(h) => h@,
                None => Seq::empty(),
            },
            match body {
                Some(b) => Some(*b),
                None => None,
            },
        ),
{
    let mut out: Vec<u8> = Vec::new();
    append_str(&mut out, "HTTP/");
    append_dec(&mut out, version.0 as u64);
    append_str(&mut out, ".");
    append_dec(&mut out, version.1 as u64);
    append_str(&mut out, " ");
    append_str(&mut out, status.as_str());
    append_crlf(&mut out);

    let mut explicit_length = false;
    match headers {
        Some(hs) => {
            append_headers(&mut out, hs);
            explicit_length = contains_content_length(hs);
        },
        None => {},
    }

    match body {
        Some(b) => {
            match b {
                Body::Bytes(bytes) => {
                    if !explicit_length {
                        append_str(&mut out, "content-length: ");
                        append_dec(&mut out, bytes.len() as u64);
                        append_crlf(&mut out);
                    }
                },
                Body::Chunks(_) => {
                    append_str(&mut out, "transfer-encoding: chunked");
                    append_crlf(&mut out);
                },
            }
        },
        None => {},
    }
    append_crlf(&mut out);

    match body {
        Some(b) => {
            match b {
                Body::Bytes(bytes) => {
                    append_bytes(&mut out, bytes.as_slice());
                },
                Body::Chunks(chunks) => {
                    append_chunked_body(&mut out, chunks);
                },
            }
        },
        None => {},
    }
    proof {
        assert(out@ =~= response_bytes(
            version,
            status@,
            match headers {
                Some(h) => h@,
                None => Seq::empty(),
            },
            match body {
                Some(b) => Some(*b),
                None => None,
            },
        ));
    }
    out
}

} // verus!
