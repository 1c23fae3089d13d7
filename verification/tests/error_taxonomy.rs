use ruxy::errors::RequestError;
use ruxy::errors::error_response;

#[test]
fn no_host_message() {
    assert_eq!(
        RequestError::NoHost.message(),
        "invalid request: no header `Host` passed\nhint: add `Host: domain.com` header to proxy request"
    );
}

#[test]
fn forbidden_host_message() {
    assert_eq!(
        RequestError::ForbiddenHost.message(),
        "invalid request: sending request to that host is forbidden\nnote: this error can caused because of you tryed to send request without `Host` header and cURL/browser/etc added it as `localhost`\nhint: try to set `Host` header\nhint: forbidden hosts are localhost and all ipv4/ipv6"
    );
}

#[test]
fn host_url_message() {
    assert_eq!(
        RequestError::HostUrl.message(),
        "invalid request: invalid `Host` header passed\nhint: `Host` header is usually normal domain name\nhint: examples are:\n - `example.com`\n - `www.example.com`"
    );
}

#[test]
fn body_message() {
    assert_eq!(
        RequestError::Body.message(),
        "invalid request: unreadable body\nnote: it may caused because of too big size"
    );
}

#[test]
fn request_message_carries_details() {
    let e = RequestError::Request("connection refused".to_string());
    assert_eq!(e.message(), "request failed: connection refused");
}

#[test]
fn response_body_message() {
    assert_eq!(
        RequestError::ResponseBody.message(),
        "request failed: server didn't return correct body"
    );
}

#[test]
fn error_responses_are_400_with_message_body_and_no_headers() {
    let r = error_response(&RequestError::NoHost);
    assert_eq!(r.status, 400);
    assert_eq!(r.headers.len(), 0);
    assert_eq!(r.body, RequestError::NoHost.message().into_bytes());

    let r = error_response(&RequestError::Request("tls handshake failed".to_string()));
    assert_eq!(r.status, 400);
    assert_eq!(r.body, b"request failed: tls handshake failed".to_vec());
}
