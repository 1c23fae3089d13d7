use ruxy::artifact::render_request_artifact;
use ruxy::artifact::render_response_artifact;
use ruxy::artifact::request_artifact_name;
use ruxy::artifact::response_artifact_name;
use ruxy::clock::current_timestamp_millis;
use ruxy::engine::relay_response;
use ruxy::model::HeaderEntry;

fn header(name: &str, value: &[u8]) -> HeaderEntry {
    HeaderEntry { name: name.as_bytes().to_vec(), value: value.to_vec() }
}

#[test]
fn artifact_names_are_keyed_by_identifier() {
    assert_eq!(request_artifact_name(12345), b"ruxy-request-12345.http".to_vec());
    assert_eq!(response_artifact_name(12345), b"ruxy-response-12345.http".to_vec());
    assert_eq!(request_artifact_name(0), b"ruxy-request-0.http".to_vec());
}

#[test]
fn request_artifact_layout() {
    let headers = vec![header("host", b"example.com"), header("accept", b"*/*")];
    let body = b"hello body".to_vec();
    let art = render_request_artifact(
        1699999999999,
        &b"POST".to_vec(),
        &b"/submit?x=1".to_vec(),
        &headers,
        &body,
    );
    let expected = b"POST /submit?x=1 HTTP/1.1\n\
X-Ruxy-Created-At: 1699999999999\n\
host: example.com\n\
accept: */*\n\
\n\
hello body"
        .to_vec();
    assert_eq!(art, expected);
}

#[test]
fn unreadable_header_value_is_recorded_as_placeholder() {
    let headers = vec![header("x-raw", &[0xff, 0xfe])];
    let art = render_request_artifact(7, &b"GET".to_vec(), &b"/".to_vec(), &headers, &Vec::new());
    let expected = b"GET / HTTP/1.1\nX-Ruxy-Created-At: 7\nx-raw: <unknown>\n\n".to_vec();
    assert_eq!(art, expected);
}

#[test]
fn response_artifact_layout_uses_canonical_reason() {
    let headers = vec![header("content-type", b"text/plain")];
    let body = b"not here".to_vec();
    let art = render_response_artifact(
        42,
        &b"https://example.com/missing".to_vec(),
        404,
        &headers,
        &body,
    );
    let expected = b"HTTP/1.1 404 Not Found\n\
X-Ruxy-Created-At: 42\n\
X-Ruxy-Destination: https://example.com/missing\n\
content-type: text/plain\n\
\n\
not here"
        .to_vec();
    assert_eq!(art, expected);
}

#[test]
fn response_artifact_with_unknown_status_has_empty_reason() {
    let art = render_response_artifact(1, &b"https://example.com/".to_vec(), 599, &Vec::new(), &Vec::new());
    let expected = b"HTTP/1.1 599 \nX-Ruxy-Created-At: 1\nX-Ruxy-Destination: https://example.com/\n\n".to_vec();
    assert_eq!(art, expected);
}

#[test]
fn relay_preserves_status_headers_and_body() {
    let headers = vec![header("etag", b"\"abc\"")];
    let body = b"payload".to_vec();
    let r = relay_response(503, headers, body);
    assert_eq!(r.status, 503);
    assert_eq!(r.headers.len(), 1);
    assert_eq!(r.headers[0].name, b"etag".to_vec());
    assert_eq!(r.headers[0].value, b"\"abc\"".to_vec());
    assert_eq!(r.body, b"payload".to_vec());
}

#[test]
fn timestamp_reads_a_recent_clock() {
    let t = current_timestamp_millis();
    // A sane clock is far past the epoch (this bound is September 2020).
    assert!(t > 1_600_000_000_000u128);
}
