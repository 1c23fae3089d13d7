//! Recognizers for IPv4 and IPv6 address literals. A host that is a bare IP
//! literal is forbidden, so these recognizers are part of the host filter's
//! security decision. The grammar is the usual textual one: a dotted quad of
//! decimal octets, and colon-separated hexadecimal groups with at most one
//! `::` compression and an optional embedded IPv4 tail.
use vstd::prelude::*;
use crate::text::find_twin;
use crate::text::find_twin_in;
use crate::text::is_digit;
use crate::text::lemma_find_twin;
use crate::text::split_bytes;
use crate::text::split_on;
use crate::text::subvec;
use crate::text::views_of;

verus! {

/// True of an ASCII hexadecimal digit byte.
pub open spec fn is_hex_digit(b: u8) -> bool {
    is_digit(b) || (97 <= b && b <= 102) || (65 <= b && b <= 70)
}

/// The numeric value of a decimal digit token, most significant digit first.
pub open spec fn dec_value(s: Seq<u8>) -> int
    decreases s.len(),
{
    if s.len() == 0 {
        0
    } else {
        dec_value(s.drop_last()) * 10 + (s.last() - 48)
    }
}

/// One octet of a dotted-quad IPv4 literal: one to three decimal digits, no
/// leading zero, value at most 255.
pub open spec fn is_octet(t: Seq<u8>) -> bool {
    &&& 1 <= t.len() <= 3
    &&& forall|i: int| 0 <= i < t.len() ==> is_digit(#[trigger] t[i])
    &&& (t.len() == 1 || t[0] != 48)
    &&& dec_value(t) <= 255
}

/// An IPv4 address literal: four octets separated by dots.
pub open spec fn is_ipv4(s: Seq<u8>) -> bool {
    let p = split_on(s, 46);
    p.len() == 4 && (forall|i: int| 0 <= i < 4 ==> is_octet(#[trigger] p[i]))
}

/// One group of an IPv6 literal: one to four hexadecimal digits.
pub open spec fn is_group(t: Seq<u8>) -> bool {
    1 <= t.len() <= 4 && (forall|i: int| 0 <= i < t.len() ==> is_hex_digit(#[trigger] t[i]))
}

/// Group count of the part of an IPv6 literal before the `::` compression:
/// every colon-separated token must be a hexadecimal group. `None` marks an
/// invalid part.
pub open spec fn head_groups(s: Seq<u8>) -> Option<int> {
    if s.len() == 0 {
        Some(0int)
    } else {
        let p = split_on(s, 58);
        if forall|i: int| 0 <= i < p.len() ==> is_group(#[trigger] p[i]) {
            Some(p.len() as int)
        } else {
            None
        }
    }
}

/// Group count of the part after the `::` compression, or of a whole literal
/// without one: hexadecimal groups, where the last token may instead be an
/// embedded IPv4 literal counting as two groups. `None` marks an invalid
/// part.
pub open spec fn tail_groups(s: Seq<u8>) -> Option<int> {
    if s.len() == 0 {
        Some(0int)
    } else {
        let p = split_on(s, 58);
        if !(forall|i: int| 0 <= i < p.len() - 1 ==> is_group(#[trigger] p[i])) {
            None
        } else if is_group(p.last()) {
            Some(p.len() as int)
        } else if is_ipv4(p.last()) {
            Some(p.len() + 1int)
        } else {
            None
        }
    }
}

/// An IPv6 address literal: without a `::`, exactly eight groups (an embedded
/// IPv4 literal counting as two); with one, both sides valid and together at
/// most seven groups, the compression standing for the remainder.
pub open spec fn is_ipv6(s: Seq<u8>) -> bool {
    let d = find_twin(s, 58);
    if d == s.len() {
        tail_groups(s) == Some(8int)
    } else {
        let h = head_groups(s.take(d));
        let t = tail_groups(s.skip(d + 2));
        h is Some && t is Some && h.unwrap() + t.unwrap() <= 7
    }
}

/// Checks one dotted-quad octet, matching `is_octet`.
fn check_octet_bytes(t: &Vec<u8>) -> (r: bool)
    ensures
        r == is_octet(t@),
{
    if t.len() < 1 || t.len() > 3 {
        return false;
    }
    let mut i: usize = 0;
    let mut val: u32 = 0;
    while i < t.len()
        invariant
            i <= t@.len(),
            1 <= t@.len() <= 3,
            forall|j: int| 0 <= j < i ==> is_digit(#[trigger] t@[j]),
            val == dec_value(t@.take(i as int)),
            i == 0 ==> val == 0,
            i == 1 ==> val <= 9,
            i == 2 ==> val <= 99,
            i == 3 ==> val <= 999,
        decreases t@.len() - i,
    {
        let b = t[i];
        if b < 48 || b > 57 {
            return false;
        }
        val = val * 10 + ((b - 48) as u32);
        i += 1;
        proof {
            assert(t@.take(i as int).drop_last() =~= t@.take(i as int - 1));
            assert(t@.take(i as int).last() == t@[i as int - 1]);
        }
    }
    proof {
        assert(t@.take(t@.len() as int) =~= t@);
    }
    if t.len() > 1 && t[0] == 48 {
        return false;
    }
    val <= 255
}

/// Checks one hexadecimal group, matching `is_group`.
fn check_group_bytes(t: &Vec<u8>) -> (r: bool)
    ensures
        r == is_group(t@),
{
    if t.len() < 1 || t.len() > 4 {
        return false;
    }
    let mut i: usize = 0;
    while i < t.len()
        invariant
            i <= t@.len(),
            1 <= t@.len() <= 4,
            forall|j: int| 0 <= j < i ==> is_hex_digit(#[trigger] t@[j]),
        decreases t@.len() - i,
    {
        let b = t[i];
        if !((48 <= b && b <= 57) || (97 <= b && b <= 102) || (65 <= b && b <= 70)) {
            return false;
        }
        i += 1;
    }
    true
}

/// Recognizes an IPv4 address literal, matching `is_ipv4`.
pub fn check_ipv4(v: &Vec<u8>) -> (r: bool)
    ensures
        r == is_ipv4(v@),
{
    let p = split_bytes(v, 46);
    proof {
        assert(split_on(v@, 46).len() == p@.len());
    }
    if p.len() != 4 {
        return false;
    }
    let mut i: usize = 0;
    while i < 4
        invariant
            p@.len() == 4,
            views_of(p@) == split_on(v@, 46),
            i <= 4,
            forall|j: int| 0 <= j < i ==> is_octet(#[trigger] split_on(v@, 46)[j]),
        decreases 4 - i,
    {
        proof {
            assert(views_of(p@)[i as int] == p@[i as int]@);
        }
        if !check_octet_bytes(&p[i]) {
            return false;
        }
        i += 1;
    }
    true
}

/// Counts the groups before a `::`, matching `head_groups` up to a cap: a
/// `None` result means the part is invalid or holds more than seven groups.
fn head_groups_of(s: &Vec<u8>) -> (r: Option<usize>)
    ensures
        match r {
            Some(n) => head_groups(s@) == Some(n as int) && n <= 8,
            None => head_groups(s@) is None || (head_groups(s@) is Some && head_groups(
                s@,
            ).unwrap() > 7),
        },
{
    if s.len() == 0 {
        return Some(0);
    }
    let p = split_bytes(s, 58);
    proof {
        assert(split_on(s@, 58).len() == p@.len());
    }
    if p.len() > 8 {
        return None;
    }
    let mut i: usize = 0;
    while i < p.len()
        invariant
            s@.len() > 0,
            p@.len() <= 8,
            views_of(p@) == split_on(s@, 58),
            i <= p@.len(),
            forall|j: int| 0 <= j < i ==> is_group(#[trigger] split_on(s@, 58)[j]),
        decreases p@.len() - i,
    {
        proof {
            assert(views_of(p@)[i as int] == p@[i as int]@);
        }
        if !check_group_bytes(&p[i]) {
            return None;
        }
        i += 1;
    }
    Some(p.len())
}

/// Counts the groups after a `::` (or of a whole literal without one),
/// matching `tail_groups` up to a cap: a `None` result means the part is
/// invalid or counts more than eight groups.
fn tail_groups_of(s: &Vec<u8>) -> (r: Option<usize>)
    ensures
        match r {
            Some(n) => tail_groups(s@) == Some(n as int) && n <= 9,
            None => tail_groups(s@) is None || (tail_groups(s@) is Some && tail_groups(
                s@,
            ).unwrap() > 8),
        },
{
    if s.len() == 0 {
        return Some(0);
    }
    let p = split_bytes(s, 58);
    proof {
        assert(split_on(s@, 58).len() == p@.len());
    }
    if p.len() > 8 {
        return None;
    }
    let mut i: usize = 0;
    let last = p.len() - 1;
    while i < last
        invariant
            s@.len() > 0,
            1 <= p@.len() <= 8,
            last == p@.len() - 1,
            views_of(p@) == split_on(s@, 58),
            i <= last,
            forall|j: int| 0 <= j < i ==> is_group(#[trigger] split_on(s@, 58)[j]),
        decreases last - i,
    {
        proof {
            assert(views_of(p@)[i as int] == p@[i as int]@);
        }
        if !check_group_bytes(&p[i]) {
            return None;
        }
        i += 1;
    }
    proof {
        assert(views_of(p@)[last as int] == p@[last as int]@);
        assert(split_on(s@, 58).last() == split_on(s@, 58)[last as int]);
    }
    if check_group_bytes(&p[last]) {
        Some(p.len())
    } else if check_ipv4(&p[last]) {
        Some(p.len() + 1)
    } else {
        None
    }
}

/// Recognizes an IPv6 address literal, matching `is_ipv6`.
pub fn check_ipv6(v: &Vec<u8>) -> (r: bool)
    ensures
        r == is_ipv6(v@),
{
    proof {
        lemma_find_twin(v@, 58);
    }
    let d = find_twin_in(v, 58);
    if d == v.len() {
        match tail_groups_of(v) {
            Some(n) => n == 8,
            None => false,
        }
    } else {
        let head = subvec(v, 0, d);
        let tail = subvec(v, d + 2, v.len());
        proof {
            assert(head@ =~= v@.take(d as int));
            assert(tail@ =~= v@.skip(d as int + 2));
        }
        match head_groups_of(&head) {
            Some(h) => match tail_groups_of(&tail) {
                Some(t) => h + t <= 7,
                None => false,
            },
            None => false,
        }
    }
}

} // verus!
