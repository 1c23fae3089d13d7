//! Host extraction and validation: locate the `Host` header, strip an
//! optional `:port` suffix, trim whitespace, and reject empty hosts, IP
//! literals and `localhost`. A host that fails validation never reaches the
//! dispatch step.
use vstd::prelude::*;
use crate::errors::RequestError;
use crate::ip::is_ipv4;
use crate::ip::is_ipv6;
use crate::ip::check_ipv4;
use crate::ip::check_ipv6;
use crate::model::HeaderEntry;
use crate::model::headers_view;
use crate::text::ascii_of;
use crate::text::find_byte;
use crate::text::eq_str_bytes;
use crate::text::find_byte_in;
use crate::text::lemma_find_byte;
use crate::text::subvec;
use crate::text::trim;
use crate::text::trim_bytes;

verus! {

/// Why host extraction rejected a request: no usable `Host` header at all,
/// or a host the filter forbids.
pub ghost enum HostRejection {
    NoHost,
    Forbidden,
}

/// Lowercases one ASCII byte.
pub open spec fn lower_byte(b: u8) -> u8 {
    if 65 <= b && b <= 90 {
        (b + 32) as u8
    } else {
        b
    }
}

/// Whether a header name is `host`, compared ASCII-case-insensitively as the
/// HTTP layer does.
pub open spec fn is_host_name(n: Seq<u8>) -> bool {
    &&& n.len() == 4
    &&& lower_byte(n[0]) == 'h' as u8
    &&& lower_byte(n[1]) == 'o' as u8
    &&& lower_byte(n[2]) == 's' as u8
    &&& lower_byte(n[3]) == 't' as u8
}

/// The value of the first `Host` header, if any.
pub open spec fn host_header(hs: Seq<(Seq<u8>, Seq<u8>)>) -> Option<Seq<u8>>
    decreases hs.len(),
{
    if hs.len() == 0 {
        None
    } else if is_host_name(hs.first().0) {
        Some(hs.first().1)
    } else {
        host_header(hs.drop_first())
    }
}

/// Whether a header value is readable text: every byte visible ASCII or tab.
pub open spec fn is_header_text(v: Seq<u8>) -> bool {
    forall|i: int| 0 <= i < v.len() ==> ((32 <= #[trigger] v[i] && v[i] < 127) || v[i] == 9)
}

/// The candidate host of a `Host` value: the part before the first colon
/// (dropping an optional port), trimmed of whitespace.
pub open spec fn candidate_host(v: Seq<u8>) -> Seq<u8> {
    trim(v.take(find_byte(v, 58)))
}

/// The hosts the filter refuses: empty, an IPv4 or IPv6 literal, or the
/// literal string `localhost`.
pub open spec fn forbidden_host(h: Seq<u8>) -> bool {
    h.len() == 0 || is_ipv4(h) || is_ipv6(h) || h == ascii_of("localhost"@)
}

/// The whole host decision on a header collection: `NoHost` when no `Host`
/// header exists or its value is not readable text, `Forbidden` when the
/// candidate host fails the filter, and otherwise the validated host.
pub open spec fn host_decision(hs: Seq<(Seq<u8>, Seq<u8>)>) -> Result<Seq<u8>, HostRejection> {
    match host_header(hs) {
        None => Err(HostRejection::NoHost),
        Some(v) => if !is_header_text(v) {
            Err(HostRejection::NoHost)
        } else if forbidden_host(candidate_host(v)) {
            Err(HostRejection::Forbidden)
        } else {
            Ok(candidate_host(v))
        },
    }
}

/// Whether this entry's name is `host`, matching `is_host_name`.
fn name_is_host(n: &Vec<u8>) -> (r: bool)
    ensures
        r == is_host_name(n@),
{
    if n.len() != 4 {
        return false;
    }
    let b0 = n[0];
    let b1 = n[1];
    let b2 = n[2];
    let b3 = n[3];
    (b0 == 'h' as u8 || b0 == 'H' as u8) && (b1 == 'o' as u8 || b1 == 'O' as u8) && (b2 == 's' as u8
        || b2 == 'S' as u8) && (b3 == 't' as u8 || b3 == 'T' as u8)
}

/// Whether a header value is readable text, matching `is_header_text`.
pub fn value_is_text(v: &Vec<u8>) -> (r: bool)
    ensures
        r == is_header_text(v@),
{
    let mut i: usize = 0;
    while i < v.len()
        invariant
            i <= v@.len(),
            forall|j: int| 0 <= j < i ==> ((32 <= #[trigger] v@[j] && v@[j] < 127) || v@[j] == 9),
        decreases v@.len() - i,
    {
        let b = v[i];
        if !((32 <= b && b < 127) || b == 9) {
            return false;
        }
        i += 1;
    }
    true
}

/// Index of the first `Host` header, matching `host_header`.
fn find_host_index(headers: &Vec<HeaderEntry>) -> (r: Option<usize>)
    ensures
        match r {
            Some(i) => i < headers@.len() && is_host_name(headers@[i as int].name@) && host_header(
                headers_view(headers@),
            ) == Some(headers@[i as int].value@),
            None => host_header(headers_view(headers@)) is None,
        },
{
    let ghost hv = headers_view(headers@);
    proof {
        assert(hv.skip(0) =~= hv);
    }
    let mut i: usize = 0;
    while i < headers.len()
        invariant
            hv == headers_view(headers@),
            i <= headers@.len(),
            host_header(hv) == host_header(hv.skip(i as int)),
        decreases headers@.len() - i,
    {
        proof {
            assert(hv[i as int] == headers@[i as int]@);
            assert(hv.skip(i as int).first() == hv[i as int]);
        }
        if name_is_host(&headers[i].name) {
            return Some(i);
        }
        proof {
            assert(hv.skip(i as int).drop_first() =~= hv.skip(i as int + 1));
        }
        i += 1;
    }
    proof {
        assert(hv.skip(headers@.len() as int) =~= Seq::<(Seq<u8>, Seq<u8>)>::empty());
    }
    None
}

/// Extracts and validates the target host from a request's headers. Returns
/// the validated host's bytes, or the rejection the host decision classifies:
/// `NoHost` when no readable `Host` header exists, `ForbiddenHost` when the
/// candidate host is empty, an IP literal, or `localhost`.
pub fn validate_request(headers: &Vec<HeaderEntry>) -> (r: Result<Vec<u8>, RequestError>)
    ensures
        match r {
            Ok(h) => host_decision(headers_view(headers@)) == Ok::<Seq<u8>, HostRejection>(h@),
            Err(e) => match e {
                RequestError::NoHost => host_decision(headers_view(headers@)) == Err::<
                    Seq<u8>,
                    HostRejection,
                >(HostRejection::NoHost),
                RequestError::ForbiddenHost => host_decision(headers_view(headers@)) == Err::<
                    Seq<u8>,
                    HostRejection,
                >(HostRejection::Forbidden),
                _ => false,
            },
        },
{
    let idx = match find_host_index(headers) {
        None => {
            return Err(RequestError::NoHost);
        },
        Some(i) => i,
    };
    let value = &headers[idx].value;
    if !value_is_text(value) {
        return Err(RequestError::NoHost);
    }
    proof {
        lemma_find_byte(value@, 58);
    }
    let cut = find_byte_in(value, 58);
    let prefix = subvec(value, 0, cut);
    proof {
        assert(prefix@ =~= value@.take(find_byte(value@, 58)));
    }
    let host = trim_bytes(&prefix);
    proof {
        assert(host@ == candidate_host(value@));
    }
    if host.len() == 0 {
        return Err(RequestError::ForbiddenHost);
    }
    if check_ipv4(&host) {
        return Err(RequestError::ForbiddenHost);
    }
    if check_ipv6(&host) {
        return Err(RequestError::ForbiddenHost);
    }
    proof {
        reveal_strlit("localhost");
        assert("localhost".is_ascii());
    }
    if eq_str_bytes(&host, "localhost") {
        return Err(RequestError::ForbiddenHost);
    }
    Ok(host)
}

} // verus!
