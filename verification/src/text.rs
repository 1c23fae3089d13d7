//! Byte-sequence utilities the pipeline's logic is built on: locating bytes,
//! splitting on separators, trimming ASCII whitespace, and rendering an
//! identifier in decimal.
use vstd::prelude::*;
use vstd::string::StrSliceExecFns;
use vstd::string::StringSliceAdditionalSpecFns;

verus! {

/// The bytes of an ASCII character sequence, one byte per character.
pub open spec fn ascii_of(s: Seq<char>) -> Seq<u8> {
    Seq::new(s.len(), |i: int| s[i] as u8)
}

/// ASCII whitespace: space, tab, line feed, vertical tab, form feed,
/// carriage return.
pub open spec fn ws(b: u8) -> bool {
    b == 32 || (9 <= b && b <= 13)
}

/// Number of leading whitespace bytes of `s`.
pub open spec fn lead_ws(s: Seq<u8>) -> int
    decreases s.len(),
{
    if s.len() > 0 && ws(s.first()) {
        1 + lead_ws(s.drop_first())
    } else {
        0
    }
}

/// Number of trailing whitespace bytes of `s`.
pub open spec fn tail_ws(s: Seq<u8>) -> int
    decreases s.len(),
{
    if s.len() > 0 && ws(s.last()) {
        1 + tail_ws(s.drop_last())
    } else {
        0
    }
}

pub proof fn lemma_lead_ws(s: Seq<u8>)
    ensures
        0 <= lead_ws(s) <= s.len(),
        forall|i: int| 0 <= i < lead_ws(s) ==> ws(s[i]),
        lead_ws(s) < s.len() ==> !ws(s[lead_ws(s)]),
    decreases s.len(),
{
    if s.len() > 0 && ws(s.first()) {
        lemma_lead_ws(s.drop_first());
        assert forall|i: int| 0 <= i < lead_ws(s) implies ws(s[i]) by {
            if i > 0 {
                assert(s.drop_first()[i - 1] == s[i]);
            }
        }
        if lead_ws(s) < s.len() {
            assert(s.drop_first()[lead_ws(s) - 1] == s[lead_ws(s)]);
        }
    }
}

pub proof fn lemma_tail_ws(s: Seq<u8>)
    ensures
        0 <= tail_ws(s) <= s.len(),
        forall|i: int| s.len() - tail_ws(s) <= i < s.len() ==> ws(s[i]),
        tail_ws(s) < s.len() ==> !ws(s[s.len() - tail_ws(s) - 1]),
    decreases s.len(),
{
    if s.len() > 0 && ws(s.last()) {
        lemma_tail_ws(s.drop_last());
        assert forall|i: int| s.len() - tail_ws(s) <= i < s.len() implies ws(s[i]) by {
            if i < s.len() - 1 {
                assert(s.drop_last()[i] == s[i]);
            }
        }
        if tail_ws(s) < s.len() {
            assert(s.drop_last()[s.len() - tail_ws(s) - 1] == s[s.len() - tail_ws(s) - 1]);
        }
    }
}

/// `s` with leading and trailing ASCII whitespace removed.
pub open spec fn trim(s: Seq<u8>) -> Seq<u8> {
    if lead_ws(s) == s.len() {
        Seq::empty()
    } else {
        s.subrange(lead_ws(s), s.len() - tail_ws(s))
    }
}

/// Index of the first occurrence of `t` in `s`, or `s.len()` if `t` does not
/// occur.
pub open spec fn find_byte(s: Seq<u8>, t: u8) -> int
    decreases s.len(),
{
    if s.len() == 0 {
        0
    } else if s.first() == t {
        0
    } else {
        1 + find_byte(s.drop_first(), t)
    }
}

pub proof fn lemma_find_byte(s: Seq<u8>, t: u8)
    ensures
        0 <= find_byte(s, t) <= s.len(),
        forall|i: int| 0 <= i < find_byte(s, t) ==> s[i] != t,
        find_byte(s, t) < s.len() ==> s[find_byte(s, t)] == t,
    decreases s.len(),
{
    if s.len() > 0 && s.first() != t {
        lemma_find_byte(s.drop_first(), t);
        assert forall|i: int| 0 <= i < find_byte(s, t) implies s[i] != t by {
            if i > 0 {
                assert(s.drop_first()[i - 1] == s[i]);
            }
        }
        if find_byte(s, t) < s.len() {
            assert(s.drop_first()[find_byte(s, t) - 1] == s[find_byte(s, t)]);
        }
    }
}

/// Index of the first position where `t` occurs twice in a row in `s`, or
/// `s.len()` if there is no such position.
pub open spec fn find_twin(s: Seq<u8>, t: u8) -> int
    decreases s.len(),
{
    if s.len() < 2 {
        s.len() as int
    } else if s.first() == t && s[1] == t {
        0
    } else {
        1 + find_twin(s.drop_first(), t)
    }
}

pub proof fn lemma_find_twin(s: Seq<u8>, t: u8)
    ensures
        0 <= find_twin(s, t) <= s.len(),
        forall|i: int| 0 <= i < find_twin(s, t) && i + 1 < s.len() ==> !(#[trigger] s[i] == t && s[i + 1] == t),
        find_twin(s, t) < s.len() ==> find_twin(s, t) + 1 < s.len() && s[find_twin(s, t)] == t
            && s[find_twin(s, t) + 1] == t,
    decreases s.len(),
{
    if s.len() >= 2 && !(s.first() == t && s[1] == t) {
        lemma_find_twin(s.drop_first(), t);
        assert forall|i: int|
            0 <= i < find_twin(s, t) && i + 1 < s.len() implies !(#[trigger] s[i] == t && s[i + 1] == t) by {
            if i > 0 {
                assert(s.drop_first()[i - 1] == s[i]);
                assert(s.drop_first()[i] == s[i + 1]);
            }
        }
        if find_twin(s, t) < s.len() {
            assert(s.drop_first()[find_twin(s, t) - 1] == s[find_twin(s, t)]);
            assert(s.drop_first()[find_twin(s, t)] == s[find_twin(s, t) + 1]);
        }
    }
}

/// The tokens of `s` between occurrences of the separator `t`. A separator at
/// either end, or two adjacent separators, yield an empty token; splitting
/// the empty sequence yields one empty token.
pub open spec fn split_on(s: Seq<u8>, t: u8) -> Seq<Seq<u8>>
    decreases s.len(),
    via split_on_decreases
{
    if find_byte(s, t) == s.len() {
        seq![s]
    } else {
        seq![s.take(find_byte(s, t))] + split_on(s.skip(find_byte(s, t) + 1), t)
    }
}

#[via_fn]
proof fn split_on_decreases(s: Seq<u8>, t: u8) {
    lemma_find_byte(s, t);
}

/// The view of each element of a vector of byte vectors.
pub open spec fn views_of(r: Seq<Vec<u8>>) -> Seq<Seq<u8>> {
    r.map_values(|x: Vec<u8>| x@)
}

/// The decimal rendering of `n` as ASCII digit bytes, most significant digit
/// first.
pub open spec fn dec_bytes(n: nat) -> Seq<u8>
    decreases n,
{
    if n < 10 {
        seq![(48 + n) as u8]
    } else {
        dec_bytes(n / 10) + seq![(48 + n % 10) as u8]
    }
}

/// True of an ASCII decimal digit byte.
pub open spec fn is_digit(b: u8) -> bool {
    48 <= b && b <= 57
}

/// A decimal rendering is never empty and holds digit bytes only.
pub proof fn lemma_dec_bytes(n: nat)
    ensures
        dec_bytes(n).len() >= 1,
        forall|i: int| 0 <= i < dec_bytes(n).len() ==> is_digit(#[trigger] dec_bytes(n)[i]),
    decreases n,
{
    if n >= 10 {
        lemma_dec_bytes(n / 10);
        assert forall|i: int| 0 <= i < dec_bytes(n).len() implies is_digit(
            #[trigger] dec_bytes(n)[i],
        ) by {
            if i < dec_bytes(n).len() - 1 {
                assert(dec_bytes(n)[i] == dec_bytes(n / 10)[i]);
            }
        }
    }
}

/// Renders `n` in decimal, matching `dec_bytes`.
pub fn u128_to_dec(n: u128) -> (r: Vec<u8>)
    ensures
        r@ == dec_bytes(n as nat),
    decreases n,
{
    if n < 10 {
        let mut r: Vec<u8> = Vec::new();
        r.push(48 + (n as u8));
        proof {
            assert(r@ =~= dec_bytes(n as nat));
        }
        r
    } else {
        let mut r = u128_to_dec(n / 10);
        r.push(48 + ((n % 10) as u8));
        proof {
            assert(r@ =~= dec_bytes(n as nat));
        }
        r
    }
}

/// Appends a byte slice to `out`.
pub fn append_bytes(out: &mut Vec<u8>, src: &[u8])
    ensures
        final(out)@ == old(out)@ + src@,
{
    proof {
        assert(out@ =~= old(out)@ + src@.subrange(0, 0));
    }
    let mut i: usize = 0;
    while i < src.len()
        invariant
            i <= src@.len(),
            out@ == old(out)@ + src@.subrange(0, i as int),
        decreases src@.len() - i,
    {
        out.push(src[i]);
        i += 1;
        proof {
            assert(out@ =~= old(out)@ + src@.subrange(0, i as int));
        }
    }
    proof {
        assert(out@ =~= old(out)@ + src@);
    }
}

/// Appends the bytes of an ASCII string to `out`.
pub fn append_str(out: &mut Vec<u8>, s: &str)
    requires
        s.is_ascii(),
    ensures
        final(out)@ == old(out)@ + ascii_of(s@),
{
    proof {
        broadcast use vstd::string::is_ascii_spec_bytes;

        assert(s.spec_bytes() =~= ascii_of(s@));
    }
    append_bytes(out, s.as_bytes());
}

/// Copies the bytes of `src` at indices `a..b` into a fresh vector.
pub fn subvec(src: &Vec<u8>, a: usize, b: usize) -> (r: Vec<u8>)
    requires
        a <= b <= src@.len(),
    ensures
        r@ == src@.subrange(a as int, b as int),
{
    let mut r: Vec<u8> = Vec::new();
    let mut i: usize = a;
    while i < b
        invariant
            a <= i <= b <= src@.len(),
            r@ == src@.subrange(a as int, i as int),
        decreases b - i,
    {
        r.push(src[i]);
        i += 1;
        proof {
            assert(r@ =~= src@.subrange(a as int, i as int));
        }
    }
    r
}

/// Finds the first occurrence of `t` in `v` from the front, matching
/// `find_byte`.
pub fn find_byte_in(v: &Vec<u8>, t: u8) -> (i: usize)
    ensures
        i as int == find_byte(v@, t),
{
    let mut i: usize = 0;
    while i < v.len()
        invariant
            i <= v@.len(),
            forall|j: int| 0 <= j < i ==> v@[j] != t,
        decreases v@.len() - i,
    {
        if v[i] == t {
            proof {
                lemma_find_byte(v@, t);
            }
            return i;
        }
        i += 1;
    }
    proof {
        lemma_find_byte(v@, t);
    }
    i
}

/// Finds the first position where `t` occurs twice in a row in `v`, matching
/// `find_twin`.
pub fn find_twin_in(v: &Vec<u8>, t: u8) -> (i: usize)
    ensures
        i as int == find_twin(v@, t),
{
    if v.len() < 2 {
        proof {
            lemma_find_twin(v@, t);
        }
        return v.len();
    }
    let mut i: usize = 0;
    while i < v.len() - 1
        invariant
            v@.len() >= 2,
            i <= v@.len() - 1,
            forall|j: int| 0 <= j < i && j + 1 < v@.len() ==> !(#[trigger] v@[j] == t && v@[j + 1] == t),
        decreases v@.len() - i,
    {
        if v[i] == t && v[i + 1] == t {
            proof {
                lemma_find_twin(v@, t);
            }
            return i;
        }
        i += 1;
    }
    proof {
        lemma_find_twin(v@, t);
    }
    v.len()
}

/// Splits `v` on the separator `t`, matching `split_on`.
pub fn split_bytes(v: &Vec<u8>, t: u8) -> (r: Vec<Vec<u8>>)
    ensures
        views_of(r@) == split_on(v@, t),
    decreases v@.len(),
{
    proof {
        lemma_find_byte(v@, t);
    }
    let i = find_byte_in(v, t);
    if i == v.len() {
        let head = subvec(v, 0, v.len());
        let mut r: Vec<Vec<u8>> = Vec::new();
        r.push(head);
        proof {
            assert(head@ =~= v@);
            assert(views_of(r@) =~= split_on(v@, t));
        }
        r
    } else {
        let head = subvec(v, 0, i);
        let rest = subvec(v, i + 1, v.len());
        let mut r = split_bytes(&rest, t);
        r.insert(0, head);
        proof {
            assert(head@ =~= v@.take(find_byte(v@, t)));
            assert(rest@ =~= v@.skip(find_byte(v@, t) + 1));
            assert(views_of(r@) =~= split_on(v@, t));
        }
        r
    }
}

/// Whether `b` is ASCII whitespace, matching `ws`.
pub fn is_ws_byte(b: u8) -> (r: bool)
    ensures
        r == ws(b),
{
    b == 32 || (9 <= b && b <= 13)
}

/// Removes leading and trailing ASCII whitespace, matching `trim`.
pub fn trim_bytes(v: &Vec<u8>) -> (r: Vec<u8>)
    ensures
        r@ == trim(v@),
{
    proof {
        lemma_lead_ws(v@);
        lemma_tail_ws(v@);
    }
    let mut a: usize = 0;
    while a < v.len() && is_ws_byte(v[a])
        invariant
            a <= v@.len(),
            forall|j: int| 0 <= j < a ==> ws(v@[j]),
        decreases v@.len() - a,
    {
        a += 1;
    }
    proof {
        assert(a as int == lead_ws(v@));
    }
    if a == v.len() {
        let r: Vec<u8> = Vec::new();
        proof {
            assert(r@ =~= trim(v@));
        }
        return r;
    }
    let mut b: usize = v.len();
    while b > a && is_ws_byte(v[b - 1])
        invariant
            a <= b <= v@.len(),
            a < v@.len(),
            !ws(v@[a as int]),
            forall|j: int| b <= j < v@.len() ==> ws(v@[j]),
        decreases b,
    {
        b -= 1;
    }
    proof {
        assert(v@.len() - b as int == tail_ws(v@));
    }
    subvec(v, a, b)
}

/// Whether every byte of `v` is a decimal digit.
pub fn all_digits(v: &Vec<u8>) -> (r: bool)
    ensures
        r == (forall|i: int| 0 <= i < v@.len() ==> is_digit(#[trigger] v@[i])),
{
    let mut i: usize = 0;
    while i < v.len()
        invariant
            i <= v@.len(),
            forall|j: int| 0 <= j < i ==> is_digit(#[trigger] v@[j]),
        decreases v@.len() - i,
    {
        let b = v[i];
        if b < 48 || b > 57 {
            return false;
        }
        i += 1;
    }
    true
}

/// Whether `v` holds exactly the bytes of the ASCII string `s`.
pub fn eq_str_bytes(v: &Vec<u8>, s: &str) -> (r: bool)
    requires
        s.is_ascii(),
    ensures
        r == (v@ == ascii_of(s@)),
{
    proof {
        broadcast use vstd::string::is_ascii_spec_bytes;

        assert(s.spec_bytes() =~= ascii_of(s@));
    }
    let sb = s.as_bytes();
    if v.len() != sb.len() {
        return false;
    }
    let mut i: usize = 0;
    while i < v.len()
        invariant
            sb@ == ascii_of(s@),
            v@.len() == sb@.len(),
            i <= v@.len(),
            forall|j: int| 0 <= j < i ==> v@[j] == sb@[j],
        decreases v@.len() - i,
    {
        if v[i] != sb[i] {
            return false;
        }
        i += 1;
    }
    proof {
        assert(v@ =~= ascii_of(s@));
    }
    true
}

} // verus!
