use ruxy::errors::RequestError;
use ruxy::host::validate_request;
use ruxy::model::HeaderEntry;

fn header(name: &str, value: &[u8]) -> HeaderEntry {
    HeaderEntry { name: name.as_bytes().to_vec(), value: value.to_vec() }
}

#[test]
fn missing_host_is_rejected() {
    let headers = vec![header("accept", b"*/*"), header("user-agent", b"curl")];
    match validate_request(&headers) {
        Err(RequestError::NoHost) => (),
        _ => panic!("expected NoHost"),
    }
}

#[test]
fn unreadable_host_value_is_rejected() {
    let headers = vec![header("host", &[0xffu8, 0x01u8])];
    match validate_request(&headers) {
        Err(RequestError::NoHost) => (),
        _ => panic!("expected NoHost for non-text value"),
    }
}

#[test]
fn localhost_is_forbidden() {
    let headers = vec![header("host", b"localhost")];
    match validate_request(&headers) {
        Err(RequestError::ForbiddenHost) => (),
        _ => panic!("expected ForbiddenHost"),
    }
}

#[test]
fn localhost_with_port_is_forbidden() {
    let headers = vec![header("host", b"localhost:3000")];
    match validate_request(&headers) {
        Err(RequestError::ForbiddenHost) => (),
        _ => panic!("expected ForbiddenHost"),
    }
}

#[test]
fn empty_host_is_forbidden() {
    let headers = vec![header("host", b"   ")];
    match validate_request(&headers) {
        Err(RequestError::ForbiddenHost) => (),
        _ => panic!("expected ForbiddenHost for blank host"),
    }
}

#[test]
fn ipv4_host_is_forbidden() {
    let headers = vec![header("host", b"127.0.0.1:8080")];
    match validate_request(&headers) {
        Err(RequestError::ForbiddenHost) => (),
        _ => panic!("expected ForbiddenHost for IPv4 literal"),
    }
}

#[test]
fn ipv6_host_is_forbidden() {
    // "::1" loses everything from the first colon on, leaving an empty
    // candidate, which is forbidden as well.
    let headers = vec![header("host", b"::1")];
    match validate_request(&headers) {
        Err(RequestError::ForbiddenHost) => (),
        _ => panic!("expected ForbiddenHost"),
    }
}

#[test]
fn plain_domain_is_accepted() {
    let headers = vec![header("host", b"example.com")];
    assert_eq!(validate_request(&headers).ok().unwrap(), b"example.com".to_vec());
}

#[test]
fn port_is_stripped_and_whitespace_trimmed() {
    let headers = vec![header("host", b"  example.com :8443")];
    assert_eq!(validate_request(&headers).ok().unwrap(), b"example.com".to_vec());
}

#[test]
fn host_header_name_is_case_insensitive() {
    let headers = vec![header("HoSt", b"example.com")];
    assert_eq!(validate_request(&headers).ok().unwrap(), b"example.com".to_vec());
}

#[test]
fn first_host_header_wins() {
    let headers = vec![header("host", b"example.com"), header("host", b"localhost")];
    assert_eq!(validate_request(&headers).ok().unwrap(), b"example.com".to_vec());
}

#[test]
fn uppercase_localhost_is_allowed() {
    // The forbidden-name comparison is case-sensitive.
    let headers = vec![header("host", b"LOCALHOST")];
    assert_eq!(validate_request(&headers).ok().unwrap(), b"LOCALHOST".to_vec());
}

#[test]
fn ipv6_with_port_text_keeps_only_the_first_group() {
    // The port strip cuts at the first colon, so an unbracketed IPv6 value
    // leaves only its first group as the candidate, which is allowed when it
    // is not itself an IP literal.
    let headers = vec![header("host", b"2001:db8::1")];
    assert_eq!(validate_request(&headers).ok().unwrap(), b"2001".to_vec());
}
