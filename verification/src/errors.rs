//! The failure taxonomy of the forwarding pipeline. Every classified failure
//! ends the request and is surfaced to the caller as HTTP 400 with a fixed
//! plain-text message; no other status is ever produced by the pipeline
//! itself.
use vstd::prelude::*;
use vstd::string::StrSliceExecFns;
use vstd::string::StringExecFns;
use vstd::utf8::encode_utf8;
use crate::model::HeaderEntry;
use crate::model::ProxiedResponse;
use crate::model::ResponseSpec;

verus! {

/// The failure classes, in pipeline order.
pub enum RequestError {
    /// The `Host` header is missing, or its value is not readable text.
    NoHost,
    /// The candidate host is empty after trimming, an IPv4/IPv6 literal, or
    /// the literal string `localhost`.
    ForbiddenHost,
    /// The upstream URL built from the validated host does not parse.
    HostUrl,
    /// The inbound request body could not be fully read.
    Body,
    /// The upstream client reported a transport-level failure; the payload is
    /// the underlying error's description.
    Request(String),
    /// The upstream response body could not be fully read.
    ResponseBody,
}

/// Spec-level image of `RequestError`.
pub ghost enum ErrorSpec {
    NoHost,
    ForbiddenHost,
    HostUrl,
    Body,
    Request(Seq<char>),
    ResponseBody,
}

impl View for RequestError {
    type V = ErrorSpec;

    open spec fn view(&self) -> ErrorSpec {
        match self {
            RequestError::NoHost => ErrorSpec::NoHost,
            RequestError::ForbiddenHost => ErrorSpec::ForbiddenHost,
            RequestError::HostUrl => ErrorSpec::HostUrl,
            RequestError::Body => ErrorSpec::Body,
            RequestError::Request(d) => ErrorSpec::Request(d@),
            RequestError::ResponseBody => ErrorSpec::ResponseBody,
        }
    }
}

/// The fixed message of each failure class, exactly as the caller sees it.
pub open spec fn message_of(e: ErrorSpec) -> Seq<char> {
    match e {
        ErrorSpec::NoHost => "invalid request: no header `Host` passed\nhint: add `Host: domain.com` header to proxy request"@,
        ErrorSpec::ForbiddenHost => "invalid request: sending request to that host is forbidden\nnote: this error can caused because of you tryed to send request without `Host` header and cURL/browser/etc added it as `localhost`\nhint: try to set `Host` header\nhint: forbidden hosts are localhost and all ipv4/ipv6"@,
        ErrorSpec::HostUrl => "invalid request: invalid `Host` header passed\nhint: `Host` header is usually normal domain name\nhint: examples are:\n - `example.com`\n - `www.example.com`"@,
        ErrorSpec::Body => "invalid request: unreadable body\nnote: it may caused because of too big size"@,
        ErrorSpec::Request(d) => "request failed: "@ + d,
        ErrorSpec::ResponseBody => "request failed: server didn't return correct body"@,
    }
}

/// The response a classified failure produces: status 400, no headers, and
/// the class's message (UTF-8 encoded) as the body.
pub open spec fn reject_spec(e: ErrorSpec) -> ResponseSpec {
    ResponseSpec { status: 400, headers: Seq::empty(), body: encode_utf8(message_of(e)) }
}

impl RequestError {
    /// The plain-text message shown to the caller for this failure class.
    pub fn message(&self) -> (r: String)
        ensures
            r@ == message_of(self@),
    {
        match self {
            RequestError::NoHost => "invalid request: no header `Host` passed\nhint: add `Host: domain.com` header to proxy request".to_owned(),
            RequestError::ForbiddenHost => "invalid request: sending request to that host is forbidden\nnote: this error can caused because of you tryed to send request without `Host` header and cURL/browser/etc added it as `localhost`\nhint: try to set `Host` header\nhint: forbidden hosts are localhost and all ipv4/ipv6".to_owned(),
            RequestError::HostUrl => "invalid request: invalid `Host` header passed\nhint: `Host` header is usually normal domain name\nhint: examples are:\n - `example.com`\n - `www.example.com`".to_owned(),
            RequestError::Body => "invalid request: unreadable body\nnote: it may caused because of too big size".to_owned(),
            RequestError::Request(d) => String::from_str("request failed: ").concat(d.as_str()),
            RequestError::ResponseBody => "request failed: server didn't return correct body".to_owned(),
        }
    }
}

/// Converts a classified failure into the HTTP 400 response the caller
/// receives: the class's fixed message as the body, and no headers.
pub fn error_response(err: &RequestError) -> (r: ProxiedResponse)
    ensures
        r@ == reject_spec(err@),
{
    let msg = err.message();
    let body = msg.as_str().as_bytes_vec();
    let r = ProxiedResponse { status: 400, headers: Vec::<HeaderEntry>::new(), body };
    proof {
        assert(r@ =~= reject_spec(err@));
    }
    r
}

} // verus!
