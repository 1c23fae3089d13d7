//! Building and parsing the upstream URL. The URL text is assembled by
//! verified code; only the parse itself is delegated to the URL parser the
//! HTTP client uses, behind a trusted wrapper.
use vstd::prelude::*;
use crate::errors::RequestError;
use crate::text::append_bytes;
use crate::text::append_str;
use crate::text::ascii_of;

verus! {

/// What the URL parser returns on these URL bytes: `None` when they do not
/// parse (or are not UTF-8), or the parsed URL rendered back to text. A pure
/// function of the bytes alone.
pub uninterp spec fn url_parse_res(s: Seq<u8>) -> Option<Seq<char>>;

/// Relies on `reqwest::Url::parse` (the `url` crate's parser, re-exported):
/// parsing is a pure function of the input text, and `Url::as_str` renders
/// the parsed URL back. Bytes that are not UTF-8 fail like unparsable URLs.
#[verifier::external_body]
fn parse_url_bytes(url: &Vec<u8>) -> (r: Option<String>)
    ensures
        match r {
            Some(u) => url_parse_res(url@) == Some(u@),
            None => url_parse_res(url@) is None,
        },
{
    match core::str::from_utf8(url.as_slice()) {
        Ok(s) => match reqwest::Url::parse(s) {
            Ok(u) => Some(u.as_str().to_string()),
            Err(_) => None,
        },
        Err(_) => None,
    }
}

/// The URL bytes of the upstream request: HTTPS scheme, validated host,
/// original path and query.
pub open spec fn upstream_url_bytes(host: Seq<u8>, target: Seq<u8>) -> Seq<u8> {
    ascii_of("https://"@) + host + target
}

/// Assembles the upstream URL bytes, matching `upstream_url_bytes`.
pub fn build_upstream_url(host: &Vec<u8>, target: &Vec<u8>) -> (r: Vec<u8>)
    ensures
        r@ == upstream_url_bytes(host@, target@),
{
    let mut out: Vec<u8> = Vec::new();
    proof {
        reveal_strlit("https://");
        assert("https://".is_ascii());
    }
    append_str(&mut out, "https://");
    append_bytes(&mut out, host.as_slice());
    append_bytes(&mut out, target.as_slice());
    proof {
        assert(out@ =~= upstream_url_bytes(host@, target@));
    }
    out
}

/// Builds and parses the upstream URL for a validated host and the original
/// path and query: the parsed URL's text when it parses, the `HostUrl`
/// rejection exactly when it does not.
pub fn resolve_upstream(host: &Vec<u8>, target: &Vec<u8>) -> (r: Result<String, RequestError>)
    ensures
        match r {
            Ok(u) => url_parse_res(upstream_url_bytes(host@, target@)) == Some(u@),
            Err(e) => e is HostUrl && url_parse_res(upstream_url_bytes(host@, target@)) is None,
        },
{
    let url = build_upstream_url(host, target);
    match parse_url_bytes(&url) {
        Some(u) => Ok(u),
        None => Err(RequestError::HostUrl),
    }
}

/// The canonical reason phrase of an HTTP status code, as the HTTP layer's
/// fixed table gives it (empty when the code has none or is out of range). A
/// pure function of the code alone.
pub uninterp spec fn reason_of(status: u16) -> Seq<char>;

/// Relies on `hyper::StatusCode::from_u16` and `StatusCode::canonical_reason`:
/// the reason phrase is a fixed table lookup, a pure function of the code.
#[verifier::external_body]
pub(crate) fn status_reason(status: u16) -> (r: String)
    ensures
        r@ == reason_of(status),
{
    match hyper::StatusCode::from_u16(status) {
        Ok(s) => match s.canonical_reason() {
            Some(t) => t.to_string(),
            None => String::new(),
        },
        Err(_) => String::new(),
    }
}

} // verus!
