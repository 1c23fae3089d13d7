//! The forwarding engine's run model: one inbound request moves strictly
//! forward through host validation, body collection, request logging,
//! upstream dispatch, response collection and response logging, rejecting at
//! the first failed checkpoint. The model fixes, for every answer the outside
//! world can give, the response handed back to the caller and the artifacts
//! written; the surrounding server performs the reads, the dispatch and the
//! writes and is held to the step functions' contracts.
use vstd::prelude::*;
use vstd::utf8::encode_utf8;
use crate::artifact::request_artifact;
use crate::artifact::request_name;
use crate::artifact::response_artifact;
use crate::artifact::response_name;
use crate::errors::ErrorSpec;
use crate::errors::reject_spec;
use crate::host::HostRejection;
use crate::host::candidate_host;
use crate::host::forbidden_host;
use crate::host::host_decision;
use crate::host::host_header;
use crate::host::is_header_text;
use crate::model::HeaderEntry;
use crate::model::ProxiedResponse;
use crate::model::ResponseSpec;
use crate::model::headers_view;
use crate::upstream::reason_of;
use crate::upstream::upstream_url_bytes;
use crate::upstream::url_parse_res;

verus! {

/// Spec-level image of an inbound request: method, target (path and query),
/// and headers, all as raw bytes.
#[verifier::ext_equal]
pub ghost struct RequestSpec {
    pub method: Seq<u8>,
    pub target: Seq<u8>,
    pub headers: Seq<(Seq<u8>, Seq<u8>)>,
}

/// Spec-level image of the upstream's answer: status, headers, and the
/// collected response body (`None` when it could not be fully read).
#[verifier::ext_equal]
pub ghost struct UpstreamSpec {
    pub status: u16,
    pub headers: Seq<(Seq<u8>, Seq<u8>)>,
    pub body: Option<Seq<u8>>,
}

/// What the outside world answered during one run: the correlation
/// identifier drawn from the clock, the collected inbound body (`None` when
/// unreadable), and the upstream exchange (`Err` carries the transport
/// error's description).
#[verifier::ext_equal]
pub ghost struct EnvSpec {
    pub id: u128,
    pub inbound_body: Option<Seq<u8>>,
    pub upstream: Result<UpstreamSpec, Seq<char>>,
}

/// The observable outcome of one run: the response to the caller, and the
/// artifacts written, as (file name, contents) pairs in the order written.
#[verifier::ext_equal]
pub ghost struct RunResult {
    pub response: ResponseSpec,
    pub artifacts: Seq<(Seq<u8>, Seq<u8>)>,
}

/// A run ending in a classified failure: the failure's fixed 400 response,
/// beside whatever artifacts were already written.
pub open spec fn rejection(e: ErrorSpec, artifacts: Seq<(Seq<u8>, Seq<u8>)>) -> RunResult {
    RunResult { response: reject_spec(e), artifacts }
}

/// The whole run of the forwarding engine on one request, given the outside
/// world's answers. Requests rejected before body collection leave no
/// artifact; every run that survives body collection logs the request; only
/// a fully successful exchange also logs the response and relays the
/// upstream's status, headers and body verbatim.
pub open spec fn run_model(req: RequestSpec, env: EnvSpec) -> RunResult {
    match host_decision(req.headers) {
        Err(HostRejection::NoHost) => rejection(ErrorSpec::NoHost, Seq::empty()),
        Err(HostRejection::Forbidden) => rejection(ErrorSpec::ForbiddenHost, Seq::empty()),
        Ok(host) => match env.inbound_body {
            None => rejection(ErrorSpec::Body, Seq::empty()),
            Some(body) => {
                let req_art = (
                    request_name(env.id),
                    request_artifact(env.id, req.method, req.target, req.headers, body),
                );
                match url_parse_res(upstream_url_bytes(host, req.target)) {
                    None => rejection(ErrorSpec::HostUrl, seq![req_art]),
                    Some(url) => match env.upstream {
                        Err(details) => rejection(ErrorSpec::Request(details), seq![req_art]),
                        Ok(up) => match up.body {
                            None => rejection(ErrorSpec::ResponseBody, seq![req_art]),
                            Some(ubody) => RunResult {
                                response: ResponseSpec {
                                    status: up.status,
                                    headers: up.headers,
                                    body: ubody,
                                },
                                artifacts: seq![
                                    req_art,
                                    (
                                        response_name(env.id),
                                        response_artifact(
                                            env.id,
                                            encode_utf8(url),
                                            up.status,
                                            reason_of(up.status),
                                            up.headers,
                                            ubody,
                                        ),
                                    ),
                                ],
                            },
                        },
                    },
                }
            },
        },
    }
}

/// Copies a successful upstream exchange verbatim into the response handed
/// back to the caller: status, header set and body bytes unchanged.
pub fn relay_response(status: u16, headers: Vec<HeaderEntry>, body: Vec<u8>) -> (r: ProxiedResponse)
    ensures
        r@ == (ResponseSpec { status, headers: headers_view(headers@), body: body@ }),
{
    ProxiedResponse { status, headers, body }
}

/// Every request without a `Host` header is answered with the 400 `NoHost`
/// response, and no artifact is written for it, whatever the rest of the
/// request or the outside world's answers.
pub proof fn lemma_no_host_rejected(req: RequestSpec, env: EnvSpec)
    requires
        host_header(req.headers) is None,
    ensures
        run_model(req, env).response == reject_spec(ErrorSpec::NoHost),
        run_model(req, env).artifacts.len() == 0,
{
}

/// Every request whose `Host` value, after dropping an optional port and
/// trimming, is empty, an IPv4 or IPv6 literal, or `localhost`, is answered
/// with the 400 `ForbiddenHost` response, and no artifact is written for it.
pub proof fn lemma_forbidden_host_rejected(req: RequestSpec, env: EnvSpec, v: Seq<u8>)
    requires
        host_header(req.headers) == Some(v),
        is_header_text(v),
        forbidden_host(candidate_host(v)),
    ensures
        run_model(req, env).response == reject_spec(ErrorSpec::ForbiddenHost),
        run_model(req, env).artifacts.len() == 0,
{
}

/// Every run with a valid host, a readable body, a well-formed upstream URL
/// and a completed upstream exchange writes exactly one request artifact and
/// one response artifact, both keyed by the run's correlation identifier.
pub proof fn lemma_success_artifact_pair(req: RequestSpec, env: EnvSpec)
    requires
        host_decision(req.headers) is Ok,
        env.inbound_body is Some,
        url_parse_res(
            upstream_url_bytes(host_decision(req.headers)->Ok_0, req.target),
        ) is Some,
        env.upstream is Ok,
        env.upstream->Ok_0.body is Some,
    ensures
        run_model(req, env).artifacts.len() == 2,
        run_model(req, env).artifacts[0].0 == request_name(env.id),
        run_model(req, env).artifacts[1].0 == response_name(env.id),
        run_model(req, env).artifacts[0].1 == request_artifact(
            env.id,
            req.method,
            req.target,
            req.headers,
            env.inbound_body.unwrap(),
        ),
{
}

/// For every completed upstream exchange, the response handed back to the
/// caller carries the upstream's status code, header set and body bytes
/// unchanged — whatever the status, success or not.
pub proof fn lemma_relay_verbatim(req: RequestSpec, env: EnvSpec)
    requires
        host_decision(req.headers) is Ok,
        env.inbound_body is Some,
        url_parse_res(
            upstream_url_bytes(host_decision(req.headers)->Ok_0, req.target),
        ) is Some,
        env.upstream is Ok,
        env.upstream->Ok_0.body is Some,
    ensures
        run_model(req, env).response.status == env.upstream->Ok_0.status,
        run_model(req, env).response.headers == env.upstream->Ok_0.headers,
        run_model(req, env).response.body == env.upstream->Ok_0.body.unwrap(),
{
}

/// Every transport-level failure of the upstream dispatch is answered with
/// the 400 `Request` response whose body carries the underlying error's
/// description; the request artifact alone was written.
pub proof fn lemma_transport_failure_reported(req: RequestSpec, env: EnvSpec, details: Seq<char>)
    requires
        host_decision(req.headers) is Ok,
        env.inbound_body is Some,
        url_parse_res(
            upstream_url_bytes(host_decision(req.headers)->Ok_0, req.target),
        ) is Some,
        env.upstream == Err::<UpstreamSpec, Seq<char>>(details),
    ensures
        run_model(req, env).response == reject_spec(ErrorSpec::Request(details)),
        run_model(req, env).response.body == encode_utf8("request failed: "@ + details),
        run_model(req, env).artifacts.len() == 1,
        run_model(req, env).artifacts[0].0 == request_name(env.id),
{
}

} // verus!
