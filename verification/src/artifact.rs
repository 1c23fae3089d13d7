//! Textual artifacts of forwarded requests and received responses: one file
//! per request and one per response, keyed by the correlation identifier.
//! The layout is a request or status line, the correlation header (and, for
//! responses, a destination header), the forwarded headers, a blank line, and
//! the raw body bytes.
use vstd::prelude::*;
use vstd::utf8::encode_utf8;
use crate::host::is_header_text;
use crate::host::value_is_text;
use crate::model::HeaderEntry;
use crate::model::headers_view;
use crate::text::append_bytes;
use crate::text::append_str;
use crate::text::ascii_of;
use crate::text::dec_bytes;
use crate::text::u128_to_dec;
use crate::upstream::reason_of;
use crate::upstream::status_reason;

verus! {

/// How a header value is recorded: its own bytes when they are readable
/// text, an explicit placeholder otherwise.
pub open spec fn recorded_value(v: Seq<u8>) -> Seq<u8> {
    if is_header_text(v) {
        v
    } else {
        ascii_of("<unknown>"@)
    }
}

/// One recorded header line: `name: value` and a line feed.
pub open spec fn header_line(h: (Seq<u8>, Seq<u8>)) -> Seq<u8> {
    h.0 + ascii_of(": "@) + recorded_value(h.1) + seq![10u8]
}

/// The recorded header lines of a whole collection, in order.
pub open spec fn header_block(hs: Seq<(Seq<u8>, Seq<u8>)>) -> Seq<u8>
    decreases hs.len(),
{
    if hs.len() == 0 {
        Seq::empty()
    } else {
        header_line(hs.first()) + header_block(hs.drop_first())
    }
}

pub proof fn lemma_header_block_push(hs: Seq<(Seq<u8>, Seq<u8>)>, h: (Seq<u8>, Seq<u8>))
    ensures
        header_block(hs.push(h)) == header_block(hs) + header_line(h),
    decreases hs.len(),
{
    if hs.len() == 0 {
        assert(hs.push(h).drop_first() =~= Seq::<(Seq<u8>, Seq<u8>)>::empty());
        assert(hs.push(h).first() == h);
        assert(header_block(hs.push(h)) == header_line(h) + header_block(
            hs.push(h).drop_first(),
        ));
        assert(header_block(hs.push(h)) =~= header_block(hs) + header_line(h));
    } else {
        assert(hs.push(h).drop_first() =~= hs.drop_first().push(h));
        lemma_header_block_push(hs.drop_first(), h);
        assert(hs.push(h).first() == hs.first());
        assert(header_line(hs.first()) + (header_block(hs.drop_first()) + header_line(h)) =~= (
        header_line(hs.first()) + header_block(hs.drop_first())) + header_line(h));
    }
}

/// The correlation line added to every artifact: the identifier in decimal.
pub open spec fn correlation_line(id: u128) -> Seq<u8> {
    ascii_of("X-Ruxy-Created-At: "@) + dec_bytes(id as nat) + seq![10u8]
}

/// The first line of a request artifact: method, target, protocol.
pub open spec fn request_line(method: Seq<u8>, target: Seq<u8>) -> Seq<u8> {
    method + seq![32u8] + target + ascii_of(" HTTP/1.1"@) + seq![10u8]
}

/// A whole request artifact: request line, correlation line, recorded
/// headers, a blank line, the raw body.
pub open spec fn request_artifact(
    id: u128,
    method: Seq<u8>,
    target: Seq<u8>,
    hs: Seq<(Seq<u8>, Seq<u8>)>,
    body: Seq<u8>,
) -> Seq<u8> {
    request_line(method, target) + correlation_line(id) + header_block(hs) + seq![10u8] + body
}

/// The first line of a response artifact: protocol, status code, canonical
/// reason phrase.
pub open spec fn status_line(status: u16, reason: Seq<char>) -> Seq<u8> {
    ascii_of("HTTP/1.1 "@) + dec_bytes(status as nat) + seq![32u8] + encode_utf8(reason) + seq![
        10u8,
    ]
}

/// The destination line of a response artifact: the upstream URL used.
pub open spec fn destination_line(dest: Seq<u8>) -> Seq<u8> {
    ascii_of("X-Ruxy-Destination: "@) + dest + seq![10u8]
}

/// A whole response artifact: status line, correlation line, destination
/// line, recorded headers, a blank line, the raw body.
pub open spec fn response_artifact(
    id: u128,
    dest: Seq<u8>,
    status: u16,
    reason: Seq<char>,
    hs: Seq<(Seq<u8>, Seq<u8>)>,
    body: Seq<u8>,
) -> Seq<u8> {
    status_line(status, reason) + correlation_line(id) + destination_line(dest) + header_block(hs)
        + seq![10u8] + body
}

/// The file name of a request artifact for this identifier.
pub open spec fn request_name(id: u128) -> Seq<u8> {
    ascii_of("ruxy-request-"@) + dec_bytes(id as nat) + ascii_of(".http"@)
}

/// The file name of a response artifact for this identifier.
pub open spec fn response_name(id: u128) -> Seq<u8> {
    ascii_of("ruxy-response-"@) + dec_bytes(id as nat) + ascii_of(".http"@)
}

/// Renders the file name of a request artifact, matching `request_name`.
pub fn request_artifact_name(id: u128) -> (r: Vec<u8>)
    ensures
        r@ == request_name(id),
{
    let mut out: Vec<u8> = Vec::new();
    proof {
        reveal_strlit("ruxy-request-");
        reveal_strlit(".http");
        assert("ruxy-request-".is_ascii());
        assert(".http".is_ascii());
    }
    append_str(&mut out, "ruxy-request-");
    let digits = u128_to_dec(id);
    append_bytes(&mut out, digits.as_slice());
    append_str(&mut out, ".http");
    proof {
        assert(out@ =~= request_name(id));
    }
    out
}

/// Renders the file name of a response artifact, matching `response_name`.
pub fn response_artifact_name(id: u128) -> (r: Vec<u8>)
    ensures
        r@ == response_name(id),
{
    let mut out: Vec<u8> = Vec::new();
    proof {
        reveal_strlit("ruxy-response-");
        reveal_strlit(".http");
        assert("ruxy-response-".is_ascii());
        assert(".http".is_ascii());
    }
    append_str(&mut out, "ruxy-response-");
    let digits = u128_to_dec(id);
    append_bytes(&mut out, digits.as_slice());
    append_str(&mut out, ".http");
    proof {
        assert(out@ =~= response_name(id));
    }
    out
}

/// Appends the recorded header lines, matching `header_block`.
fn append_header_block(out: &mut Vec<u8>, headers: &Vec<HeaderEntry>)
    ensures
        final(out)@ == old(out)@ + header_block(headers_view(headers@)),
{
    let ghost hv = headers_view(headers@);
    proof {
        assert(hv.take(0) =~= Seq::<(Seq<u8>, Seq<u8>)>::empty());
        assert(out@ =~= old(out)@ + header_block(hv.take(0)));
    }
    let mut i: usize = 0;
    while i < headers.len()
        invariant
            hv == headers_view(headers@),
            i <= headers@.len(),
            out@ == old(out)@ + header_block(hv.take(i as int)),
        decreases headers@.len() - i,
    {
        proof {
            reveal_strlit(": ");
            reveal_strlit("<unknown>");
            assert(": ".is_ascii());
            assert("<unknown>".is_ascii());
            assert(hv[i as int] == headers@[i as int]@);
        }
        append_bytes(out, headers[i].name.as_slice());
        append_str(out, ": ");
        if value_is_text(&headers[i].value) {
            append_bytes(out, headers[i].value.as_slice());
        } else {
            append_str(out, "<unknown>");
        }
        out.push(10);
        i += 1;
        proof {
            assert(hv.take(i as int) =~= hv.take(i as int - 1).push(hv[i as int - 1]));
            lemma_header_block_push(hv.take(i as int - 1), hv[i as int - 1]);
            assert(out@ =~= old(out)@ + header_block(hv.take(i as int)));
        }
    }
    proof {
        assert(hv.take(headers@.len() as int) =~= hv);
    }
}

/// Appends the correlation line, matching `correlation_line`.
fn append_correlation_line(out: &mut Vec<u8>, id: u128)
    ensures
        final(out)@ == old(out)@ + correlation_line(id),
{
    proof {
        reveal_strlit("X-Ruxy-Created-At: ");
        assert("X-Ruxy-Created-At: ".is_ascii());
    }
    append_str(out, "X-Ruxy-Created-At: ");
    let digits = u128_to_dec(id);
    append_bytes(out, digits.as_slice());
    out.push(10);
    proof {
        assert(out@ =~= old(out)@ + correlation_line(id));
    }
}

/// Renders a request artifact, matching `request_artifact`: the forwarded
/// request's method, target, headers and raw body, keyed by `id`.
pub fn render_request_artifact(
    id: u128,
    method: &Vec<u8>,
    target: &Vec<u8>,
    headers: &Vec<HeaderEntry>,
    body: &Vec<u8>,
) -> (r: Vec<u8>)
    ensures
        r@ == request_artifact(id, method@, target@, headers_view(headers@), body@),
{
    let mut out: Vec<u8> = Vec::new();
    proof {
        reveal_strlit(" HTTP/1.1");
        assert(" HTTP/1.1".is_ascii());
    }
    append_bytes(&mut out, method.as_slice());
    out.push(32);
    append_bytes(&mut out, target.as_slice());
    append_str(&mut out, " HTTP/1.1");
    out.push(10);
    proof {
        assert(out@ =~= request_line(method@, target@));
    }
    append_correlation_line(&mut out, id);
    append_header_block(&mut out, headers);
    out.push(10);
    append_bytes(&mut out, body.as_slice());
    proof {
        assert(out@ =~= request_artifact(id, method@, target@, headers_view(headers@), body@));
    }
    out
}

/// Renders a response artifact, matching `response_artifact`: the upstream's
/// status (with its canonical reason phrase), the destination URL used, the
/// response headers and raw body, keyed by `id`.
pub fn render_response_artifact(
    id: u128,
    dest: &Vec<u8>,
    status: u16,
    headers: &Vec<HeaderEntry>,
    body: &Vec<u8>,
) -> (r: Vec<u8>)
    ensures
        r@ == response_artifact(id, dest@, status, reason_of(status), headers_view(headers@), body@),
{
    let mut out: Vec<u8> = Vec::new();
    proof {
        reveal_strlit("HTTP/1.1 ");
        reveal_strlit("X-Ruxy-Destination: ");
        assert("HTTP/1.1 ".is_ascii());
        assert("X-Ruxy-Destination: ".is_ascii());
    }
    append_str(&mut out, "HTTP/1.1 ");
    let digits = u128_to_dec(status as u128);
    append_bytes(&mut out, digits.as_slice());
    out.push(32);
    let reason = status_reason(status);
    append_bytes(&mut out, reason.as_str().as_bytes());
    out.push(10);
    proof {
        assert(out@ =~= status_line(status, reason_of(status)));
    }
    append_correlation_line(&mut out, id);
    append_str(&mut out, "X-Ruxy-Destination: ");
    append_bytes(&mut out, dest.as_slice());
    out.push(10);
    append_header_block(&mut out, headers);
    out.push(10);
    append_bytes(&mut out, body.as_slice());
    proof {
        assert(out@ =~= response_artifact(
            id,
            dest@,
            status,
            reason_of(status),
            headers_view(headers@),
            body@,
        ));
    }
    out
}

} // verus!
