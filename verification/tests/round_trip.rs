use ruxy::artifact::render_request_artifact;
use ruxy::artifact::render_response_artifact;
use ruxy::model::HeaderEntry;
use ruxy::parse::parse_request_record;
use ruxy::parse::parse_response_record;

fn header(name: &str, value: &[u8]) -> HeaderEntry {
    HeaderEntry { name: name.as_bytes().to_vec(), value: value.to_vec() }
}

#[test]
fn request_artifact_round_trips() {
    let headers = vec![
        header("host", b"example.com"),
        header("content-type", b"application/json"),
        header("x-extra", b"a: b: c"),
    ];
    let body = b"{\"k\": 1}\n\nraw trailing\nlines".to_vec();
    let art = render_request_artifact(
        1700000000123,
        &b"PUT".to_vec(),
        &b"/api/v1/items?id=7".to_vec(),
        &headers,
        &body,
    );
    let rec = parse_request_record(&art).expect("artifact must parse");
    assert_eq!(rec.method, b"PUT".to_vec());
    assert_eq!(rec.target, b"/api/v1/items?id=7".to_vec());
    assert_eq!(rec.id_digits, b"1700000000123".to_vec());
    assert_eq!(rec.headers.len(), 3);
    assert_eq!(rec.headers[0].name, b"host".to_vec());
    assert_eq!(rec.headers[0].value, b"example.com".to_vec());
    assert_eq!(rec.headers[2].name, b"x-extra".to_vec());
    assert_eq!(rec.headers[2].value, b"a: b: c".to_vec());
    assert_eq!(rec.body, body);
}

#[test]
fn request_artifact_round_trips_with_empty_body_and_no_headers() {
    let art = render_request_artifact(0, &b"GET".to_vec(), &b"/".to_vec(), &Vec::new(), &Vec::new());
    let rec = parse_request_record(&art).expect("artifact must parse");
    assert_eq!(rec.method, b"GET".to_vec());
    assert_eq!(rec.target, b"/".to_vec());
    assert_eq!(rec.id_digits, b"0".to_vec());
    assert_eq!(rec.headers.len(), 0);
    assert_eq!(rec.body, Vec::<u8>::new());
}

#[test]
fn response_artifact_round_trips() {
    let headers = vec![header("content-length", b"5"), header("server", b"upstream/2")];
    let body = vec![0u8, 10u8, 13u8, 255u8, 7u8];
    let art = render_response_artifact(
        99,
        &b"https://example.com/downloads".to_vec(),
        200,
        &headers,
        &body,
    );
    let rec = parse_response_record(&art).expect("artifact must parse");
    assert_eq!(rec.status_digits, b"200".to_vec());
    assert_eq!(rec.reason, b"OK".to_vec());
    assert_eq!(rec.id_digits, b"99".to_vec());
    assert_eq!(rec.destination, b"https://example.com/downloads".to_vec());
    assert_eq!(rec.headers.len(), 2);
    assert_eq!(rec.headers[1].name, b"server".to_vec());
    assert_eq!(rec.headers[1].value, b"upstream/2".to_vec());
    assert_eq!(rec.body, body);
}

#[test]
fn truncated_artifact_does_not_parse() {
    assert!(parse_request_record(&b"GET / HTTP/1.1".to_vec()).is_none());
    assert!(parse_request_record(&b"GET / HTTP/1.1\nX-Ruxy-Created-At: 5\n".to_vec()).is_none());
    assert!(parse_request_record(&b"GET / HTTP/1.1\nwrong: 5\n\n".to_vec()).is_none());
    assert!(parse_response_record(&b"HTTP/1.0 200 OK\nX-Ruxy-Created-At: 5\n\n".to_vec()).is_none());
}
