use ruxy::errors::RequestError;
use ruxy::upstream::build_upstream_url;
use ruxy::upstream::resolve_upstream;

#[test]
fn url_bytes_concatenate_scheme_host_and_target() {
    let url = build_upstream_url(&b"example.com".to_vec(), &b"/a/b?q=1".to_vec());
    assert_eq!(url, b"https://example.com/a/b?q=1".to_vec());
}

#[test]
fn resolve_parses_and_normalizes() {
    // The parser is really consulted: it lowercases the host and supplies the
    // root path, so the result is not the input echoed back.
    let r = resolve_upstream(&b"EXAMPLE.com".to_vec(), &b"".to_vec());
    assert_eq!(r.ok().unwrap(), "https://example.com/".to_string());

    let r = resolve_upstream(&b"example.com".to_vec(), &b"/path?q=1".to_vec());
    assert_eq!(r.ok().unwrap(), "https://example.com/path?q=1".to_string());
}

#[test]
fn unusable_host_yields_host_url_rejection() {
    // A lone "[" survives host validation but cannot be assembled into a URL.
    let r = resolve_upstream(&b"[".to_vec(), &b"/".to_vec());
    match r {
        Err(RequestError::HostUrl) => (),
        _ => panic!("expected HostUrl"),
    }
}
