//! Re-parsing of written artifacts. Artifacts are meant to be read back by
//! people and tooling; parsing here recovers, from the rendered bytes, the
//! method, target, correlation digits, header set and exact body of a request
//! artifact, and the status digits, reason, destination, header set and body
//! of a response artifact. Round-trip proofs show the renderers lose nothing.
use vstd::prelude::*;
use vstd::utf8::encode_utf8;
use vstd::string::StringSliceAdditionalSpecFns;
use crate::artifact::correlation_line;
use crate::artifact::destination_line;
use crate::artifact::header_block;
use crate::artifact::header_line;
use crate::artifact::recorded_value;
use crate::artifact::request_artifact;
use crate::artifact::request_line;
use crate::artifact::response_artifact;
use crate::artifact::status_line;
use crate::host::is_header_text;
use crate::model::HeaderEntry;
use crate::model::headers_view;
use crate::text::ascii_of;
use crate::text::dec_bytes;
use crate::text::find_byte;
use crate::text::is_digit;
use crate::text::lemma_dec_bytes;
use crate::text::lemma_find_byte;
use crate::text::all_digits;
use crate::text::eq_str_bytes;
use crate::text::find_byte_in;
use crate::text::subvec;

verus! {

/// The first occurrence of `t` in `a + [t] + b` is right after `a` when `a`
/// itself is free of `t`.
pub proof fn lemma_find_byte_concat(a: Seq<u8>, b: Seq<u8>, t: u8)
    requires
        forall|i: int| 0 <= i < a.len() ==> a[i] != t,
    ensures
        find_byte(a + seq![t] + b, t) == a.len(),
{
    let s = a + seq![t] + b;
    lemma_find_byte(s, t);
    assert(s[a.len() as int] == t);
    if find_byte(s, t) < a.len() {
        assert(s[find_byte(s, t)] == a[find_byte(s, t)]);
    }
}

/// Whether `s` still holds a complete line.
pub open spec fn has_line(s: Seq<u8>) -> bool {
    find_byte(s, 10) < s.len()
}

/// The first line of `s`, without its line feed.
pub open spec fn line_of(s: Seq<u8>) -> Seq<u8> {
    s.take(find_byte(s, 10))
}

/// Everything after the first line of `s`.
pub open spec fn rest_of(s: Seq<u8>) -> Seq<u8> {
    s.skip(find_byte(s, 10) + 1)
}

/// Splitting `a + [10] + b` at its first line feed recovers `a` and `b`, when
/// `a` holds none.
pub proof fn lemma_line_split(a: Seq<u8>, b: Seq<u8>)
    requires
        forall|i: int| 0 <= i < a.len() ==> a[i] != 10,
    ensures
        has_line(a + seq![10u8] + b),
        line_of(a + seq![10u8] + b) == a,
        rest_of(a + seq![10u8] + b) == b,
{
    let s = a + seq![10u8] + b;
    lemma_find_byte_concat(a, b, 10);
    assert(line_of(s) =~= a);
    assert(rest_of(s) =~= b);
}

/// Parses a request line: method, one space, target, one space, the protocol
/// tag. Method and target must be non-empty.
pub open spec fn parse_request_line(line: Seq<u8>) -> Option<(Seq<u8>, Seq<u8>)> {
    let i = find_byte(line, 32);
    if i == line.len() {
        None
    } else {
        let rest = line.skip(i + 1);
        let j = find_byte(rest, 32);
        if j == rest.len() {
            None
        } else {
            let m = line.take(i);
            let t = rest.take(j);
            let v = rest.skip(j + 1);
            if m.len() > 0 && t.len() > 0 && v == ascii_of("HTTP/1.1"@) {
                Some((m, t))
            } else {
                None
            }
        }
    }
}

/// Parses the correlation line: the fixed prefix, then decimal digits.
pub open spec fn parse_correlation_line(line: Seq<u8>) -> Option<Seq<u8>> {
    let p = ascii_of("X-Ruxy-Created-At: "@);
    let d = line.skip(p.len() as int);
    if p.len() < line.len() && line.take(p.len() as int) == p && (forall|i: int|
        0 <= i < d.len() ==> is_digit(#[trigger] d[i])) {
        Some(d)
    } else {
        None
    }
}

/// Parses the destination line: the fixed prefix, then the URL bytes.
pub open spec fn parse_destination_line(line: Seq<u8>) -> Option<Seq<u8>> {
    let p = ascii_of("X-Ruxy-Destination: "@);
    if p.len() <= line.len() && line.take(p.len() as int) == p {
        Some(line.skip(p.len() as int))
    } else {
        None
    }
}

/// Parses one recorded header line: a non-empty name free of colons, a colon
/// and a space, then the recorded value.
pub open spec fn parse_header_line(line: Seq<u8>) -> Option<(Seq<u8>, Seq<u8>)> {
    let i = find_byte(line, 58);
    if i == 0 || i >= line.len() {
        None
    } else if i + 1 < line.len() && line[i + 1] == 32 {
        Some((line.take(i), line.skip(i + 2)))
    } else {
        None
    }
}

/// Parses recorded header lines up to the blank line, then takes the rest as
/// the body.
pub open spec fn parse_tail(s: Seq<u8>) -> Option<(Seq<(Seq<u8>, Seq<u8>)>, Seq<u8>)>
    decreases s.len(),
    via parse_tail_decreases
{
    if !has_line(s) {
        None
    } else if line_of(s).len() == 0 {
        Some((Seq::empty(), rest_of(s)))
    } else {
        match parse_header_line(line_of(s)) {
            None => None,
            Some(h) => match parse_tail(rest_of(s)) {
                None => None,
                Some((hs, body)) => Some((seq![h] + hs, body)),
            },
        }
    }
}

#[via_fn]
proof fn parse_tail_decreases(s: Seq<u8>) {
    lemma_find_byte(s, 10);
}

/// Everything a request artifact records.
#[verifier::ext_equal]
pub ghost struct ParsedRequest {
    pub method: Seq<u8>,
    pub target: Seq<u8>,
    pub id_digits: Seq<u8>,
    pub headers: Seq<(Seq<u8>, Seq<u8>)>,
    pub body: Seq<u8>,
}

/// Parses a whole request artifact.
pub open spec fn parse_request_artifact(s: Seq<u8>) -> Option<ParsedRequest> {
    if !has_line(s) {
        None
    } else {
        match parse_request_line(line_of(s)) {
            None => None,
            Some((m, t)) => {
                let r1 = rest_of(s);
                if !has_line(r1) {
                    None
                } else {
                    match parse_correlation_line(line_of(r1)) {
                        None => None,
                        Some(digits) => match parse_tail(rest_of(r1)) {
                            None => None,
                            Some((hs, body)) => Some(
                                ParsedRequest { method: m, target: t, id_digits: digits, headers: hs, body },
                            ),
                        },
                    }
                }
            },
        }
    }
}

/// A request or response header set that the artifact layout records
/// losslessly: names non-empty, free of colons and line feeds; values
/// readable text.
pub open spec fn recordable_headers(hs: Seq<(Seq<u8>, Seq<u8>)>) -> bool {
    forall|k: int| 0 <= k < hs.len() ==> {
        &&& (#[trigger] hs[k]).0.len() > 0
        &&& forall|i: int| 0 <= i < hs[k].0.len() ==> hs[k].0[i] != 58 && hs[k].0[i] != 10
        &&& is_header_text(hs[k].1)
    }
}

/// A method or target that the request line records losslessly: non-empty
/// and free of spaces and line feeds.
pub open spec fn plain_token(m: Seq<u8>) -> bool {
    m.len() > 0 && forall|i: int| 0 <= i < m.len() ==> m[i] != 32 && m[i] != 10
}

proof fn lemma_http_tag_bytes()
    ensures
        ascii_of(" HTTP/1.1"@) =~= seq![32u8] + ascii_of("HTTP/1.1"@),
        forall|i: int|
            0 <= i < ascii_of("HTTP/1.1"@).len() ==> ascii_of("HTTP/1.1"@)[i] != 10
                && ascii_of("HTTP/1.1"@)[i] != 32,
{
    reveal_strlit(" HTTP/1.1");
    reveal_strlit("HTTP/1.1");
    assert(" HTTP/1.1"@ =~= seq![' ', 'H', 'T', 'T', 'P', '/', '1', '.', '1']);
    assert("HTTP/1.1"@ =~= seq!['H', 'T', 'T', 'P', '/', '1', '.', '1']);
    assert forall|i: int|
        0 <= i < ascii_of("HTTP/1.1"@).len() implies ascii_of("HTTP/1.1"@)[i] != 10 && ascii_of(
        "HTTP/1.1"@,
    )[i] != 32 by {
        assert(ascii_of("HTTP/1.1"@)[i] == "HTTP/1.1"@[i] as u8);
    }
    assert(ascii_of(" HTTP/1.1"@) =~= seq![32u8] + ascii_of("HTTP/1.1"@));
}

proof fn lemma_correlation_prefix_bytes()
    ensures
        forall|i: int|
            0 <= i < ascii_of("X-Ruxy-Created-At: "@).len() ==> ascii_of(
                "X-Ruxy-Created-At: "@,
            )[i] != 10,
        ascii_of("X-Ruxy-Created-At: "@).len() == 19,
{
    reveal_strlit("X-Ruxy-Created-At: ");
    assert("X-Ruxy-Created-At: "@ =~= seq![
        'X',
        '-',
        'R',
        'u',
        'x',
        'y',
        '-',
        'C',
        'r',
        'e',
        'a',
        't',
        'e',
        'd',
        '-',
        'A',
        't',
        ':',
        ' ',
    ]);
    assert forall|i: int|
        0 <= i < ascii_of("X-Ruxy-Created-At: "@).len() implies ascii_of(
        "X-Ruxy-Created-At: "@,
    )[i] != 10 by {
        assert(ascii_of("X-Ruxy-Created-At: "@)[i] == "X-Ruxy-Created-At: "@[i] as u8);
    }
}

proof fn lemma_colon_space_bytes()
    ensures
        ascii_of(": "@) =~= seq![58u8, 32u8],
{
    reveal_strlit(": ");
    assert(": "@ =~= seq![':', ' ']);
    assert(ascii_of(": "@) =~= seq![58u8, 32u8]);
}

/// The request line parses back to the method and target it was built from.
proof fn lemma_request_line_round(method: Seq<u8>, target: Seq<u8>)
    requires
        plain_token(method),
        plain_token(target),
    ensures
        forall|i: int|
            0 <= i < request_line(method, target).len() - 1 ==> request_line(method, target)[i]
                != 10,
        request_line(method, target).len() > 0,
        request_line(method, target).last() == 10,
        parse_request_line(request_line(method, target).drop_last()) == Some((method, target)),
{
    lemma_http_tag_bytes();
    let tag = ascii_of("HTTP/1.1"@);
    let line = method + seq![32u8] + (target + seq![32u8] + tag);
    assert(request_line(method, target) =~= line + seq![10u8]);
    assert(request_line(method, target).drop_last() =~= line);
    lemma_find_byte_concat(method, target + seq![32u8] + tag, 32);
    assert(line.take(method.len() as int) =~= method);
    assert(line.skip(method.len() as int + 1) =~= target + seq![32u8] + tag);
    let rest = target + seq![32u8] + tag;
    lemma_find_byte_concat(target, tag, 32);
    assert(rest.take(target.len() as int) =~= target);
    assert(rest.skip(target.len() as int + 1) =~= tag);
    assert(parse_request_line(line) == Some((method, target)));
    assert forall|i: int|
        0 <= i < request_line(method, target).len() - 1 implies request_line(method, target)[i]
        != 10 by {
        assert(request_line(method, target)[i] == line[i]);
    }
}

/// The correlation line parses back to the decimal digits of the identifier.
proof fn lemma_correlation_line_round(id: u128)
    requires
        true,
    ensures
        forall|i: int|
            0 <= i < correlation_line(id).len() - 1 ==> correlation_line(id)[i] != 10,
        correlation_line(id).len() > 0,
        correlation_line(id).last() == 10,
        parse_correlation_line(correlation_line(id).drop_last()) == Some(dec_bytes(id as nat)),
{
    lemma_correlation_prefix_bytes();
    lemma_dec_bytes(id as nat);
    let p = ascii_of("X-Ruxy-Created-At: "@);
    let line = p + dec_bytes(id as nat);
    assert(correlation_line(id) =~= line + seq![10u8]);
    assert(correlation_line(id).drop_last() =~= line);
    assert(line.take(p.len() as int) =~= p);
    assert(line.skip(p.len() as int) =~= dec_bytes(id as nat));
    assert(parse_correlation_line(line) == Some(dec_bytes(id as nat)));
    assert forall|i: int|
        0 <= i < correlation_line(id).len() - 1 implies correlation_line(id)[i] != 10 by {
        assert(correlation_line(id)[i] == line[i]);
    }
}

/// One recorded header line parses back to its name and value.
proof fn lemma_header_line_round(h: (Seq<u8>, Seq<u8>))
    requires
        h.0.len() > 0,
        forall|i: int| 0 <= i < h.0.len() ==> h.0[i] != 58 && h.0[i] != 10,
        is_header_text(h.1),
    ensures
        forall|i: int| 0 <= i < header_line(h).len() - 1 ==> header_line(h)[i] != 10,
        header_line(h).len() > 1,
        header_line(h).last() == 10,
        parse_header_line(header_line(h).drop_last()) == Some(h),
{
    lemma_colon_space_bytes();
    let line = h.0 + seq![58u8] + (seq![32u8] + h.1);
    assert(recorded_value(h.1) == h.1);
    assert(header_line(h) =~= line + seq![10u8]);
    assert(header_line(h).drop_last() =~= line);
    lemma_find_byte_concat(h.0, seq![32u8] + h.1, 58);
    assert(line[h.0.len() as int + 1] == 32);
    assert(line.take(h.0.len() as int) =~= h.0);
    assert(line.skip(h.0.len() as int + 2) =~= h.1);
    assert(parse_header_line(line) == Some(h));
    assert forall|i: int| 0 <= i < header_line(h).len() - 1 implies header_line(h)[i] != 10 by {
        assert(header_line(h)[i] == line[i]);
    }
}

/// The recorded header lines and body parse back exactly.
proof fn lemma_parse_tail_round(hs: Seq<(Seq<u8>, Seq<u8>)>, body: Seq<u8>)
    requires
        recordable_headers(hs),
    ensures
        parse_tail(header_block(hs) + seq![10u8] + body) == Some((hs, body)),
    decreases hs.len(),
{
    if hs.len() == 0 {
        let s = header_block(hs) + seq![10u8] + body;
        assert(s =~= Seq::<u8>::empty() + seq![10u8] + body);
        lemma_line_split(Seq::empty(), body);
        assert(line_of(s).len() == 0);
        assert(parse_tail(s) == Some((Seq::<(Seq<u8>, Seq<u8>)>::empty(), body)));
    } else {
        let h = hs.first();
        assert(recordable_headers(hs.drop_first())) by {
            assert(forall|k: int|
                0 <= k < hs.drop_first().len() ==> hs.drop_first()[k] == hs[k + 1]);
        }
        lemma_parse_tail_round(hs.drop_first(), body);
        lemma_header_line_round(h);
        let tail = header_block(hs.drop_first()) + seq![10u8] + body;
        let s = header_block(hs) + seq![10u8] + body;
        assert(s =~= header_line(h).drop_last() + seq![10u8] + tail);
        lemma_line_split(header_line(h).drop_last(), tail);
        assert(line_of(s) == header_line(h).drop_last());
        assert(line_of(s).len() > 0);
        assert(parse_header_line(line_of(s)) == Some(h));
        assert(parse_tail(rest_of(s)) == Some((hs.drop_first(), body)));
        assert(seq![h] + hs.drop_first() =~= hs);
    }
}

/// Round trip of request artifacts: re-parsing a rendered request artifact
/// recovers the original method, target and header set (beside the added
/// correlation digits) and the exact original body bytes, whenever the method
/// and target are plain tokens and the headers are recordable.
pub proof fn lemma_request_artifact_round_trip(
    id: u128,
    method: Seq<u8>,
    target: Seq<u8>,
    hs: Seq<(Seq<u8>, Seq<u8>)>,
    body: Seq<u8>,
)
    requires
        plain_token(method),
        plain_token(target),
        recordable_headers(hs),
    ensures
        parse_request_artifact(request_artifact(id, method, target, hs, body)) == Some(
            ParsedRequest {
                method,
                target,
                id_digits: dec_bytes(id as nat),
                headers: hs,
                body,
            },
        ),
{
    let s = request_artifact(id, method, target, hs, body);
    lemma_request_line_round(method, target);
    lemma_correlation_line_round(id);
    lemma_parse_tail_round(hs, body);
    let tail1 = correlation_line(id) + header_block(hs) + seq![10u8] + body;
    assert(s =~= request_line(method, target).drop_last() + seq![10u8] + tail1);
    lemma_line_split(request_line(method, target).drop_last(), tail1);
    assert(line_of(s) == request_line(method, target).drop_last());
    assert(parse_request_line(line_of(s)) == Some((method, target)));
    let tail2 = header_block(hs) + seq![10u8] + body;
    assert(rest_of(s) =~= correlation_line(id).drop_last() + seq![10u8] + tail2);
    lemma_line_split(correlation_line(id).drop_last(), tail2);
    assert(parse_correlation_line(line_of(rest_of(s))) == Some(dec_bytes(id as nat)));
    assert(parse_tail(rest_of(rest_of(s))) == Some((hs, body)));
}

/// Everything a response artifact records.
#[verifier::ext_equal]
pub ghost struct ParsedResponse {
    pub status_digits: Seq<u8>,
    pub reason: Seq<u8>,
    pub id_digits: Seq<u8>,
    pub destination: Seq<u8>,
    pub headers: Seq<(Seq<u8>, Seq<u8>)>,
    pub body: Seq<u8>,
}

/// Parses a status line: the protocol prefix, non-empty decimal status
/// digits, a space, then the reason phrase (possibly empty).
pub open spec fn parse_status_line(line: Seq<u8>) -> Option<(Seq<u8>, Seq<u8>)> {
    let p = ascii_of("HTTP/1.1 "@);
    if !(p.len() <= line.len() && line.take(p.len() as int) == p) {
        None
    } else {
        let rest = line.skip(p.len() as int);
        let j = find_byte(rest, 32);
        if j == rest.len() {
            None
        } else {
            let digits = rest.take(j);
            if digits.len() > 0 && (forall|i: int| 0 <= i < digits.len() ==> is_digit(
                #[trigger] digits[i],
            )) {
                Some((digits, rest.skip(j + 1)))
            } else {
                None
            }
        }
    }
}

/// Parses a whole response artifact.
pub open spec fn parse_response_artifact(s: Seq<u8>) -> Option<ParsedResponse> {
    if !has_line(s) {
        None
    } else {
        match parse_status_line(line_of(s)) {
            None => None,
            Some((digits, reason)) => {
                let r1 = rest_of(s);
                if !has_line(r1) {
                    None
                } else {
                    match parse_correlation_line(line_of(r1)) {
                        None => None,
                        Some(id_digits) => {
                            let r2 = rest_of(r1);
                            if !has_line(r2) {
                                None
                            } else {
                                match parse_destination_line(line_of(r2)) {
                                    None => None,
                                    Some(destination) => match parse_tail(rest_of(r2)) {
                                        None => None,
                                        Some((hs, body)) => Some(
                                            ParsedResponse {
                                                status_digits: digits,
                                                reason,
                                                id_digits,
                                                destination,
                                                headers: hs,
                                                body,
                                            },
                                        ),
                                    },
                                }
                            }
                        },
                    }
                }
            },
        }
    }
}

proof fn lemma_status_prefix_bytes()
    ensures
        forall|i: int|
            0 <= i < ascii_of("HTTP/1.1 "@).len() ==> ascii_of("HTTP/1.1 "@)[i] != 10,
        ascii_of("HTTP/1.1 "@).len() == 9,
{
    reveal_strlit("HTTP/1.1 ");
    assert("HTTP/1.1 "@ =~= seq!['H', 'T', 'T', 'P', '/', '1', '.', '1', ' ']);
    assert forall|i: int|
        0 <= i < ascii_of("HTTP/1.1 "@).len() implies ascii_of("HTTP/1.1 "@)[i] != 10 by {
        assert(ascii_of("HTTP/1.1 "@)[i] == "HTTP/1.1 "@[i] as u8);
    }
}

proof fn lemma_destination_prefix_bytes()
    ensures
        forall|i: int|
            0 <= i < ascii_of("X-Ruxy-Destination: "@).len() ==> ascii_of(
                "X-Ruxy-Destination: "@,
            )[i] != 10,
        ascii_of("X-Ruxy-Destination: "@).len() == 20,
{
    reveal_strlit("X-Ruxy-Destination: ");
    assert("X-Ruxy-Destination: "@ =~= seq![
        'X',
        '-',
        'R',
        'u',
        'x',
        'y',
        '-',
        'D',
        'e',
        's',
        't',
        'i',
        'n',
        'a',
        't',
        'i',
        'o',
        'n',
        ':',
        ' ',
    ]);
    assert forall|i: int|
        0 <= i < ascii_of("X-Ruxy-Destination: "@).len() implies ascii_of(
        "X-Ruxy-Destination: "@,
    )[i] != 10 by {
        assert(ascii_of("X-Ruxy-Destination: "@)[i] == "X-Ruxy-Destination: "@[i] as u8);
    }
}

/// The status line parses back to the status digits and reason it was built
/// from, when the reason's bytes hold no line feed.
proof fn lemma_status_line_round(status: u16, reason: Seq<char>)
    requires
        forall|i: int|
            0 <= i < encode_utf8(reason).len() ==> #[trigger] encode_utf8(reason)[i] != 10,
    ensures
        forall|i: int|
            0 <= i < status_line(status, reason).len() - 1 ==> status_line(status, reason)[i]
                != 10,
        status_line(status, reason).len() > 0,
        status_line(status, reason).last() == 10,
        parse_status_line(status_line(status, reason).drop_last()) == Some(
            (dec_bytes(status as nat), encode_utf8(reason)),
        ),
{
    lemma_status_prefix_bytes();
    lemma_dec_bytes(status as nat);
    let p = ascii_of("HTTP/1.1 "@);
    let digits = dec_bytes(status as nat);
    let line = p + digits + seq![32u8] + encode_utf8(reason);
    assert(status_line(status, reason) =~= line + seq![10u8]);
    assert(status_line(status, reason).drop_last() =~= line);
    assert(line.take(p.len() as int) =~= p);
    assert(line.skip(p.len() as int) =~= digits + seq![32u8] + encode_utf8(reason));
    lemma_find_byte_concat(digits, encode_utf8(reason), 32);
    let rest = digits + seq![32u8] + encode_utf8(reason);
    assert(rest.take(digits.len() as int) =~= digits);
    assert(rest.skip(digits.len() as int + 1) =~= encode_utf8(reason));
    assert(parse_status_line(line) == Some((digits, encode_utf8(reason))));
    assert forall|i: int|
        0 <= i < status_line(status, reason).len() - 1 implies status_line(status, reason)[i]
        != 10 by {
        assert(status_line(status, reason)[i] == line[i]);
    }
}

/// The destination line parses back to the destination it was built from,
/// when the destination holds no line feed.
proof fn lemma_destination_line_round(dest: Seq<u8>)
    requires
        forall|i: int| 0 <= i < dest.len() ==> dest[i] != 10,
    ensures
        forall|i: int|
            0 <= i < destination_line(dest).len() - 1 ==> destination_line(dest)[i] != 10,
        destination_line(dest).len() > 0,
        destination_line(dest).last() == 10,
        parse_destination_line(destination_line(dest).drop_last()) == Some(dest),
{
    lemma_destination_prefix_bytes();
    let p = ascii_of("X-Ruxy-Destination: "@);
    let line = p + dest;
    assert(destination_line(dest) =~= line + seq![10u8]);
    assert(destination_line(dest).drop_last() =~= line);
    assert(line.take(p.len() as int) =~= p);
    assert(line.skip(p.len() as int) =~= dest);
    assert(parse_destination_line(line) == Some(dest));
    assert forall|i: int|
        0 <= i < destination_line(dest).len() - 1 implies destination_line(dest)[i] != 10 by {
        assert(destination_line(dest)[i] == line[i]);
    }
}

/// Round trip of response artifacts: re-parsing a rendered response artifact
/// recovers the original status digits, reason, destination and header set
/// (beside the added correlation digits) and the exact original body bytes,
/// whenever the headers are recordable and neither the reason nor the
/// destination holds a line feed.
#[verifier::rlimit(60)]
pub proof fn lemma_response_artifact_round_trip(
    id: u128,
    dest: Seq<u8>,
    status: u16,
    reason: Seq<char>,
    hs: Seq<(Seq<u8>, Seq<u8>)>,
    body: Seq<u8>,
)
    requires
        recordable_headers(hs),
        forall|i: int|
            0 <= i < encode_utf8(reason).len() ==> #[trigger] encode_utf8(reason)[i] != 10,
        forall|i: int| 0 <= i < dest.len() ==> dest[i] != 10,
    ensures
        parse_response_artifact(response_artifact(id, dest, status, reason, hs, body)) == Some(
            ParsedResponse {
                status_digits: dec_bytes(status as nat),
                reason: encode_utf8(reason),
                id_digits: dec_bytes(id as nat),
                destination: dest,
                headers: hs,
                body,
            },
        ),
{
    let s = response_artifact(id, dest, status, reason, hs, body);
    lemma_status_line_round(status, reason);
    lemma_correlation_line_round(id);
    lemma_destination_line_round(dest);
    lemma_parse_tail_round(hs, body);
    let tail1 = correlation_line(id) + destination_line(dest) + header_block(hs) + seq![10u8]
        + body;
    assert(s =~= status_line(status, reason).drop_last() + seq![10u8] + tail1);
    lemma_line_split(status_line(status, reason).drop_last(), tail1);
    assert(parse_status_line(line_of(s)) == Some((dec_bytes(status as nat), encode_utf8(reason))));
    let tail2 = destination_line(dest) + header_block(hs) + seq![10u8] + body;
    assert(rest_of(s) =~= correlation_line(id).drop_last() + seq![10u8] + tail2);
    lemma_line_split(correlation_line(id).drop_last(), tail2);
    assert(parse_correlation_line(line_of(rest_of(s))) == Some(dec_bytes(id as nat)));
    let tail3 = header_block(hs) + seq![10u8] + body;
    assert(rest_of(rest_of(s)) =~= destination_line(dest).drop_last() + seq![10u8] + tail3);
    lemma_line_split(destination_line(dest).drop_last(), tail3);
    assert(parse_destination_line(line_of(rest_of(rest_of(s)))) == Some(dest));
    assert(parse_tail(rest_of(rest_of(rest_of(s)))) == Some((hs, body)));
}

/// One parsed request artifact, as plain values.
pub struct RequestRecord {
    pub method: Vec<u8>,
    pub target: Vec<u8>,
    pub id_digits: Vec<u8>,
    pub headers: Vec<HeaderEntry>,
    pub body: Vec<u8>,
}

impl View for RequestRecord {
    type V = ParsedRequest;

    open spec fn view(&self) -> ParsedRequest {
        ParsedRequest {
            method: self.method@,
            target: self.target@,
            id_digits: self.id_digits@,
            headers: headers_view(self.headers@),
            body: self.body@,
        }
    }
}

/// One parsed response artifact, as plain values.
pub struct ResponseRecord {
    pub status_digits: Vec<u8>,
    pub reason: Vec<u8>,
    pub id_digits: Vec<u8>,
    pub destination: Vec<u8>,
    pub headers: Vec<HeaderEntry>,
    pub body: Vec<u8>,
}

impl View for ResponseRecord {
    type V = ParsedResponse;

    open spec fn view(&self) -> ParsedResponse {
        ParsedResponse {
            status_digits: self.status_digits@,
            reason: self.reason@,
            id_digits: self.id_digits@,
            destination: self.destination@,
            headers: headers_view(self.headers@),
            body: self.body@,
        }
    }
}

/// Parses the recorded header lines and body, matching `parse_tail`.
fn parse_tail_exec(s: &Vec<u8>) -> (r: Option<(Vec<HeaderEntry>, Vec<u8>)>)
    ensures
        match r {
            Some(p) => parse_tail(s@) == Some((headers_view(p.0@), p.1@)),
            None => parse_tail(s@) is None,
        },
    decreases s@.len(),
{
    proof {
        lemma_find_byte(s@, 10);
    }
    let nl = find_byte_in(s, 10);
    if nl == s.len() {
        return None;
    }
    let line = subvec(s, 0, nl);
    let rest = subvec(s, nl + 1, s.len());
    proof {
        assert(line@ =~= line_of(s@));
        assert(rest@ =~= rest_of(s@));
    }
    if line.len() == 0 {
        let hs: Vec<HeaderEntry> = Vec::new();
        proof {
            assert(headers_view(hs@) =~= Seq::<(Seq<u8>, Seq<u8>)>::empty());
        }
        return Some((hs, rest));
    }
    proof {
        lemma_find_byte(line@, 58);
    }
    let c = find_byte_in(&line, 58);
    if c == 0 || c == line.len() {
        return None;
    }
    if !(c + 1 < line.len()) {
        return None;
    }
    if line[c + 1] != 32 {
        return None;
    }
    let name = subvec(&line, 0, c);
    let value = subvec(&line, c + 2, line.len());
    let ghost h = (name@, value@);
    proof {
        assert(name@ =~= line@.take(find_byte(line@, 58)));
        assert(value@ =~= line@.skip(find_byte(line@, 58) + 2));
        assert(parse_header_line(line@) == Some(h));
    }
    match parse_tail_exec(&rest) {
        None => None,
        Some((hs0, body)) => {
            let mut hs = hs0;
            let ghost prev = hs@;
            hs.insert(0, HeaderEntry { name, value });
            proof {
                assert(headers_view(hs@) =~= seq![h] + headers_view(prev));
            }
            Some((hs, body))
        },
    }
}

/// Parses a whole request artifact, matching `parse_request_artifact`.
pub fn parse_request_record(s: &Vec<u8>) -> (r: Option<RequestRecord>)
    ensures
        match r {
            Some(rec) => parse_request_artifact(s@) == Some(rec@),
            None => parse_request_artifact(s@) is None,
        },
{
    proof {
        lemma_find_byte(s@, 10);
    }
    let n1 = find_byte_in(s, 10);
    if n1 == s.len() {
        return None;
    }
    let line1 = subvec(s, 0, n1);
    let r1 = subvec(s, n1 + 1, s.len());
    proof {
        assert(line1@ =~= line_of(s@));
        assert(r1@ =~= rest_of(s@));
        lemma_find_byte(line1@, 32);
    }
    let sp1 = find_byte_in(&line1, 32);
    if sp1 == line1.len() {
        return None;
    }
    let m = subvec(&line1, 0, sp1);
    let rest1 = subvec(&line1, sp1 + 1, line1.len());
    proof {
        assert(m@ =~= line1@.take(find_byte(line1@, 32)));
        assert(rest1@ =~= line1@.skip(find_byte(line1@, 32) + 1));
        lemma_find_byte(rest1@, 32);
    }
    let sp2 = find_byte_in(&rest1, 32);
    if sp2 == rest1.len() {
        return None;
    }
    let t = subvec(&rest1, 0, sp2);
    let ver = subvec(&rest1, sp2 + 1, rest1.len());
    proof {
        assert(t@ =~= rest1@.take(find_byte(rest1@, 32)));
        assert(ver@ =~= rest1@.skip(find_byte(rest1@, 32) + 1));
        reveal_strlit("HTTP/1.1");
        assert("HTTP/1.1".is_ascii());
    }
    if m.len() == 0 || t.len() == 0 || !eq_str_bytes(&ver, "HTTP/1.1") {
        return None;
    }
    proof {
        assert(parse_request_line(line1@) == Some((m@, t@)));
        lemma_find_byte(r1@, 10);
    }
    let n2 = find_byte_in(&r1, 10);
    if n2 == r1.len() {
        return None;
    }
    let line2 = subvec(&r1, 0, n2);
    let r2 = subvec(&r1, n2 + 1, r1.len());
    proof {
        assert(line2@ =~= line_of(r1@));
        assert(r2@ =~= rest_of(r1@));
        reveal_strlit("X-Ruxy-Created-At: ");
        assert("X-Ruxy-Created-At: ".is_ascii());
        broadcast use vstd::string::is_ascii_spec_bytes;

        assert("X-Ruxy-Created-At: ".spec_bytes() =~= ascii_of("X-Ruxy-Created-At: "@));
    }
    let plen = "X-Ruxy-Created-At: ".len();
    if line2.len() <= plen {
        return None;
    }
    let pre = subvec(&line2, 0, plen);
    proof {
        assert(pre@ =~= line2@.take(ascii_of("X-Ruxy-Created-At: "@).len() as int));
    }
    if !eq_str_bytes(&pre, "X-Ruxy-Created-At: ") {
        return None;
    }
    let digits = subvec(&line2, plen, line2.len());
    proof {
        assert(digits@ =~= line2@.skip(ascii_of("X-Ruxy-Created-At: "@).len() as int));
    }
    if !all_digits(&digits) {
        return None;
    }
    proof {
        assert(parse_correlation_line(line2@) == Some(digits@));
    }
    match parse_tail_exec(&r2) {
        None => None,
        Some((hs, body)) => {
            let rec = RequestRecord { method: m, target: t, id_digits: digits, headers: hs, body };
            proof {
                assert(parse_request_artifact(s@).unwrap() =~= rec@);
            }
            Some(rec)
        },
    }
}

/// Parses a whole response artifact, matching `parse_response_artifact`.
pub fn parse_response_record(s: &Vec<u8>) -> (r: Option<ResponseRecord>)
    ensures
        match r {
            Some(rec) => parse_response_artifact(s@) == Some(rec@),
            None => parse_response_artifact(s@) is None,
        },
{
    proof {
        lemma_find_byte(s@, 10);
    }
    let n1 = find_byte_in(s, 10);
    if n1 == s.len() {
        return None;
    }
    let line1 = subvec(s, 0, n1);
    let r1 = subvec(s, n1 + 1, s.len());
    proof {
        assert(line1@ =~= line_of(s@));
        assert(r1@ =~= rest_of(s@));
        reveal_strlit("HTTP/1.1 ");
        assert("HTTP/1.1 ".is_ascii());
        broadcast use vstd::string::is_ascii_spec_bytes;

        assert("HTTP/1.1 ".spec_bytes() =~= ascii_of("HTTP/1.1 "@));
    }
    let slen = "HTTP/1.1 ".len();
    if line1.len() < slen {
        return None;
    }
    let spre = subvec(&line1, 0, slen);
    proof {
        assert(spre@ =~= line1@.take(ascii_of("HTTP/1.1 "@).len() as int));
    }
    if !eq_str_bytes(&spre, "HTTP/1.1 ") {
        return None;
    }
    let rest = subvec(&line1, slen, line1.len());
    proof {
        assert(rest@ =~= line1@.skip(ascii_of("HTTP/1.1 "@).len() as int));
        lemma_find_byte(rest@, 32);
    }
    let j = find_byte_in(&rest, 32);
    if j == rest.len() {
        return None;
    }
    let digits = subvec(&rest, 0, j);
    let reason = subvec(&rest, j + 1, rest.len());
    proof {
        assert(digits@ =~= rest@.take(find_byte(rest@, 32)));
        assert(reason@ =~= rest@.skip(find_byte(rest@, 32) + 1));
    }
    if digits.len() == 0 || !all_digits(&digits) {
        return None;
    }
    proof {
        assert(parse_status_line(line1@) == Some((digits@, reason@)));
        lemma_find_byte(r1@, 10);
    }
    let n2 = find_byte_in(&r1, 10);
    if n2 == r1.len() {
        return None;
    }
    let line2 = subvec(&r1, 0, n2);
    let r2 = subvec(&r1, n2 + 1, r1.len());
    proof {
        assert(line2@ =~= line_of(r1@));
        assert(r2@ =~= rest_of(r1@));
        reveal_strlit("X-Ruxy-Created-At: ");
        assert("X-Ruxy-Created-At: ".is_ascii());
        broadcast use vstd::string::is_ascii_spec_bytes;

        assert("X-Ruxy-Created-At: ".spec_bytes() =~= ascii_of("X-Ruxy-Created-At: "@));
    }
    let plen = "X-Ruxy-Created-At: ".len();
    if line2.len() <= plen {
        return None;
    }
    let pre = subvec(&line2, 0, plen);
    proof {
        assert(pre@ =~= line2@.take(ascii_of("X-Ruxy-Created-At: "@).len() as int));
    }
    if !eq_str_bytes(&pre, "X-Ruxy-Created-At: ") {
        return None;
    }
    let id_digits = subvec(&line2, plen, line2.len());
    proof {
        assert(id_digits@ =~= line2@.skip(ascii_of("X-Ruxy-Created-At: "@).len() as int));
    }
    if !all_digits(&id_digits) {
        return None;
    }
    proof {
        assert(parse_correlation_line(line2@) == Some(id_digits@));
        lemma_find_byte(r2@, 10);
    }
    let n3 = find_byte_in(&r2, 10);
    if n3 == r2.len() {
        return None;
    }
    let line3 = subvec(&r2, 0, n3);
    let r3 = subvec(&r2, n3 + 1, r2.len());
    proof {
        assert(line3@ =~= line_of(r2@));
        assert(r3@ =~= rest_of(r2@));
        reveal_strlit("X-Ruxy-Destination: ");
        assert("X-Ruxy-Destination: ".is_ascii());
        broadcast use vstd::string::is_ascii_spec_bytes;

        assert("X-Ruxy-Destination: ".spec_bytes() =~= ascii_of("X-Ruxy-Destination: "@));
    }
    let dlen = "X-Ruxy-Destination: ".len();
    if line3.len() < dlen {
        return None;
    }
    let dpre = subvec(&line3, 0, dlen);
    proof {
        assert(dpre@ =~= line3@.take(ascii_of("X-Ruxy-Destination: "@).len() as int));
    }
    if !eq_str_bytes(&dpre, "X-Ruxy-Destination: ") {
        return None;
    }
    let destination = subvec(&line3, dlen, line3.len());
    proof {
        assert(destination@ =~= line3@.skip(ascii_of("X-Ruxy-Destination: "@).len() as int));
        assert(parse_destination_line(line3@) == Some(destination@));
    }
    match parse_tail_exec(&r3) {
        None => None,
        Some((hs, body)) => {
            let rec = ResponseRecord {
                status_digits: digits,
                reason,
                id_digits,
                destination,
                headers: hs,
                body,
            };
            proof {
                assert(parse_response_artifact(s@).unwrap() =~= rec@);
            }
            Some(rec)
        },
    }
}

} // verus!
