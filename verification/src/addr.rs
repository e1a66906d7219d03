//! IPv4 literals: classifying host strings and rendering addresses as text.

use vstd::prelude::*;

verus! {

/// An IPv4 address as its four octets.
#[derive(Debug, Clone, Copy, PartialEq, Eq, Structural)]
pub struct Ipv4 {
    pub a: u8,
    pub b: u8,
    pub c: u8,
    pub d: u8,
}

/// ASCII code of `'.'`.
pub const DOT: u8 = 46;

/// ASCII code of `'0'`.
pub const ZERO: u8 = 48;

/// Whether `c` is an ASCII decimal digit.
pub open spec fn is_digit(c: u8) -> bool {
    ZERO <= c && c <= 57
}

/// Whether every byte of `s` is an ASCII decimal digit.
pub open spec fn all_digits(s: Seq<u8>) -> bool {
    forall|i: int| 0 <= i < s.len() ==> is_digit(s[i])
}

/// The number that the digit string `s` denotes, read left to right.
pub open spec fn seg_value(s: Seq<u8>) -> int
    decreases s.len(),
{
    if s.len() == 0 {
        0
    } else {
        seg_value(s.drop_last()) * 10 + s.last() - ZERO
    }
}

/// Whether `s` is the canonical decimal text of one IPv4 octet: one to three
/// digits, no leading zero, value at most 255.
pub open spec fn is_octet_text(s: Seq<u8>) -> bool {
    &&& 1 <= s.len() <= 3
    &&& all_digits(s)
    &&& (s.len() == 1 || s[0] != ZERO)
    &&& seg_value(s) <= 255
}

/// Ten to the power `n`.
pub open spec fn pow10(n: nat) -> int
    decreases n,
{
    if n == 0 {
        1
    } else {
        10 * pow10((n - 1) as nat)
    }
}

/// A digit string of length `n` denotes a value below ten to the `n`.
proof fn lemma_seg_value_bound(s: Seq<u8>)
    requires
        all_digits(s),
    ensures
        0 <= seg_value(s) < pow10(s.len()),
    decreases s.len(),
{
    if s.len() > 0 {
        assert(all_digits(s.drop_last())) by {
            assert(forall|i: int| 0 <= i < s.len() - 1 ==> s.drop_last()[i] == s[i]);
        }
        lemma_seg_value_bound(s.drop_last());
    }
}

/// The index of the first `'.'` in `s` at or after `from`, or `s.len()` if
/// there is none.
pub open spec fn first_dot(s: Seq<u8>, from: int) -> int
    decreases s.len() - from,
{
    if from < 0 || from >= s.len() {
        s.len() as int
    } else if s[from] == DOT {
        from
    } else {
        first_dot(s, from + 1)
    }
}

/// Finds the first `'.'` at or after `from`, returning the length when none
/// remains.
fn find_dot(s: &Vec<u8>, from: usize) -> (r: usize)
    requires
        from <= s.len(),
    ensures
        r == first_dot(s@, from as int),
        from <= r <= s.len(),
        r < s.len() ==> s@[r as int] == DOT,
{
    let mut i: usize = from;
    while i < s.len() && s[i] != DOT
        invariant
            from <= i <= s.len(),
            first_dot(s@, from as int) == first_dot(s@, i as int),
        decreases s.len() - i,
    {
        assert(first_dot(s@, i as int) == first_dot(s@, i + 1));
        i = i + 1;
    }
    assert(first_dot(s@, i as int) == i || i == s.len());
    i
}

/// Parses the segment `s[start..end]` as the decimal text of one octet:
/// `Some` exactly when the segment is well formed, carrying its value.
fn parse_octet(s: &Vec<u8>, start: usize, end: usize) -> (r: Option<u8>)
    requires
        start <= end <= s.len(),
    ensures
        match r {
            Some(v) => is_octet_text(s@.subrange(start as int, end as int)) && v == seg_value(
                s@.subrange(start as int, end as int),
            ),
            None => !is_octet_text(s@.subrange(start as int, end as int)),
        },
{
    let ghost seg = s@.subrange(start as int, end as int);
    let n = end - start;
    if n < 1 || n > 3 {
        return None;
    }
    if n > 1 && s[start] == ZERO {
        return None;
    }
    let mut acc: u16 = 0;
    let mut i: usize = 0;
    while i < n
        invariant
            0 <= i <= n == end - start,
            start <= end <= s.len(),
            1 <= n <= 3,
            seg == s@.subrange(start as int, end as int),
            all_digits(seg.subrange(0, i as int)),
            acc == seg_value(seg.subrange(0, i as int)),
        decreases n - i,
    {
        let c = s[start + i];
        if c < ZERO || c > 57 {
            assert(!all_digits(seg)) by {
                assert(seg[i as int] == c);
            }
            return None;
        }
        proof {
            lemma_seg_value_bound(seg.subrange(0, i as int));
            assert(pow10(seg.subrange(0, i as int).len()) <= 100) by {
                assert(pow10(0) == 1);
                assert(pow10(1) == 10);
                assert(pow10(2) == 100);
            }
        }
        let d: u16 = (c - ZERO) as u16;
        acc = acc * 10 + d;
        proof {
            let prefix = seg.subrange(0, i + 1);
            assert(prefix.drop_last() =~= seg.subrange(0, i as int));
            assert(prefix.last() == c);
            assert(all_digits(prefix));
        }
        i = i + 1;
    }
    assert(seg.subrange(0, i as int) =~= seg);
    if acc > 255 {
        return None;
    }
    Some(acc as u8)
}

/// What parsing `s` as an IPv4 literal yields: the four octets when `s` is
/// exactly four well-formed octet texts separated by `'.'`, `None` otherwise.
pub open spec fn spec_parse_ipv4(s: Seq<u8>) -> Option<Ipv4> {
    let i = first_dot(s, 0);
    let j = first_dot(s, i + 1);
    let k = first_dot(s, j + 1);
    if i < s.len() && j < s.len() && k < s.len() && is_octet_text(s.subrange(0, i))
        && is_octet_text(s.subrange(i + 1, j)) && is_octet_text(s.subrange(j + 1, k))
        && is_octet_text(s.subrange(k + 1, s.len() as int)) {
        Some(
            Ipv4 {
                a: seg_value(s.subrange(0, i)) as u8,
                b: seg_value(s.subrange(i + 1, j)) as u8,
                c: seg_value(s.subrange(j + 1, k)) as u8,
                d: seg_value(s.subrange(k + 1, s.len() as int)) as u8,
            },
        )
    } else {
        None
    }
}

/// Whether `s` is a literal IPv4 address in dotted decimal form.
pub open spec fn is_ipv4_text(s: Seq<u8>) -> bool {
    spec_parse_ipv4(s) is Some
}

/// Parses a host string as an IPv4 literal; `None` on any deviation from
/// dotted decimal form.
pub fn parse_ipv4(host: &Vec<u8>) -> (r: Option<Ipv4>)
    ensures
        r == spec_parse_ipv4(host@),
{
    let len = host.len();
    let i = find_dot(host, 0);
    if i == len {
        return None;
    }
    let j = find_dot(host, i + 1);
    if j == len {
        return None;
    }
    let k = find_dot(host, j + 1);
    if k == len {
        return None;
    }
    let oa = parse_octet(host, 0, i);
    let ob = parse_octet(host, i + 1, j);
    let oc = parse_octet(host, j + 1, k);
    let od = parse_octet(host, k + 1, len);
    match (oa, ob, oc, od) {
        (Some(a), Some(b), Some(c), Some(d)) => Some(Ipv4 { a, b, c, d }),
        _ => None,
    }
}

/// How a host string is routed: a literal IPv4 address bypasses DNS
/// resolution, anything else is treated as a domain name to look up.
#[derive(Debug, Clone, Copy, PartialEq, Eq, Structural)]
pub enum HostClass {
    /// The host is already a literal IPv4 address.
    Literal(Ipv4),
    /// The host needs DNS resolution.
    DomainName,
}

/// Classifies a host string: `Literal` exactly when it is an IPv4 literal,
/// carrying the parsed address; `DomainName` otherwise.
pub fn classify(host: &Vec<u8>) -> (r: HostClass)
    ensures
        r matches HostClass::Literal(ip) ==> spec_parse_ipv4(host@) == Some(ip),
        r is DomainName <==> !is_ipv4_text(host@),
{
    match parse_ipv4(host) {
        Some(ip) => HostClass::Literal(ip),
        None => HostClass::DomainName,
    }
}

/// The decimal text of one octet, without leading zeros.
pub open spec fn octet_text(n: u8) -> Seq<u8> {
    if n >= 100 {
        seq![(ZERO + n / 100) as u8, (ZERO + (n / 10) % 10) as u8, (ZERO + n % 10) as u8]
    } else if n >= 10 {
        seq![(ZERO + n / 10) as u8, (ZERO + n % 10) as u8]
    } else {
        seq![(ZERO + n) as u8]
    }
}

/// The dotted decimal text of an IPv4 address.
pub open spec fn ipv4_text(ip: Ipv4) -> Seq<u8> {
    octet_text(ip.a) + seq![DOT] + octet_text(ip.b) + seq![DOT] + octet_text(ip.c) + seq![DOT]
        + octet_text(ip.d)
}

/// Appends the decimal text of one octet.
fn push_octet(out: &mut Vec<u8>, n: u8)
    ensures
        final(out)@ == old(out)@ + octet_text(n),
{
    if n >= 100 {
        out.push(ZERO + n / 100);
        out.push(ZERO + (n / 10) % 10);
        out.push(ZERO + n % 10);
    } else if n >= 10 {
        out.push(ZERO + n / 10);
        out.push(ZERO + n % 10);
    } else {
        out.push(ZERO + n);
    }
    assert(out@ =~= old(out)@ + octet_text(n));
}

/// The decimal text of an octet is a well-formed octet text and denotes the
/// octet itself.
proof fn lemma_octet_text_wf(n: u8)
    ensures
        is_octet_text(octet_text(n)),
        seg_value(octet_text(n)) == n,
{
    let t = octet_text(n);
    if n >= 100 {
        let x = (ZERO + n / 100) as u8;
        let y = (ZERO + (n / 10) % 10) as u8;
        let z = (ZERO + n % 10) as u8;
        assert(seq![x, y, z].drop_last() =~= seq![x, y]);
        assert(seq![x, y].drop_last() =~= seq![x]);
        assert(seq![x].drop_last() =~= Seq::<u8>::empty());
        assert(seg_value(Seq::<u8>::empty()) == 0);
        assert(seg_value(seq![x]) == x - ZERO);
        assert(seg_value(seq![x, y]) == (x - ZERO) * 10 + y - ZERO);
        assert(seg_value(seq![x, y, z]) == ((x - ZERO) * 10 + y - ZERO) * 10 + z - ZERO);
        assert(((n / 100) * 10 + (n / 10) % 10) * 10 + n % 10 == n) by (nonlinear_arith);
    } else if n >= 10 {
        let x = (ZERO + n / 10) as u8;
        let y = (ZERO + n % 10) as u8;
        assert(seq![x, y].drop_last() =~= seq![x]);
        assert(seq![x].drop_last() =~= Seq::<u8>::empty());
        assert(seg_value(Seq::<u8>::empty()) == 0);
        assert(seg_value(seq![x]) == x - ZERO);
        assert(seg_value(seq![x, y]) == (x - ZERO) * 10 + y - ZERO);
        assert((n / 10) * 10 + n % 10 == n);
    } else {
        let x = (ZERO + n) as u8;
        assert(seq![x].drop_last() =~= Seq::<u8>::empty());
        assert(seg_value(Seq::<u8>::empty()) == 0);
        assert(seg_value(seq![x]) == x - ZERO);
    }
}

/// `first_dot` finds a `'.'` at `i` when none stands before it.
proof fn lemma_first_dot_at(s: Seq<u8>, from: int, i: int)
    requires
        0 <= from <= i < s.len(),
        s[i] == DOT,
        forall|m: int| from <= m < i ==> s[m] != DOT,
    ensures
        first_dot(s, from) == i,
    decreases i - from,
{
    if from < i {
        lemma_first_dot_at(s, from + 1, i);
    }
}

/// Law: rendering an address as text and parsing the text back yields the
/// address again. In particular the host of every assembled endpoint is
/// itself an IPv4 literal, so it would bypass resolution if resolved anew.
pub proof fn lemma_format_parse_roundtrip(ip: Ipv4)
    ensures
        spec_parse_ipv4(ipv4_text(ip)) == Some(ip),
        is_ipv4_text(ipv4_text(ip)),
{
    let ta = octet_text(ip.a);
    let tb = octet_text(ip.b);
    let tc = octet_text(ip.c);
    let td = octet_text(ip.d);
    let la = ta.len() as int;
    let lb = tb.len() as int;
    let lc = tc.len() as int;
    let ld = td.len() as int;
    let s = ipv4_text(ip);
    lemma_octet_text_wf(ip.a);
    lemma_octet_text_wf(ip.b);
    lemma_octet_text_wf(ip.c);
    lemma_octet_text_wf(ip.d);
    let i = la;
    let j = la + 1 + lb;
    let k = la + 1 + lb + 1 + lc;
    assert(s.len() == la + lb + lc + ld + 3);
    assert(forall|m: int| 0 <= m < la ==> s[m] == ta[m]);
    assert(s[i] == DOT);
    assert(forall|m: int| 0 <= m < lb ==> s[i + 1 + m] == tb[m]);
    assert(s[j] == DOT);
    assert(forall|m: int| 0 <= m < lc ==> s[j + 1 + m] == tc[m]);
    assert(s[k] == DOT);
    assert(forall|m: int| 0 <= m < ld ==> s[k + 1 + m] == td[m]);
    assert(s.subrange(0, i) =~= ta);
    assert(s.subrange(i + 1, j) =~= tb);
    assert(s.subrange(j + 1, k) =~= tc);
    assert(s.subrange(k + 1, s.len() as int) =~= td);
    assert(forall|m: int| 0 <= m < i ==> s[m] != DOT) by {
        assert(forall|m: int| 0 <= m < la ==> is_digit(#[trigger] ta[m]));
    }
    assert(forall|m: int| i + 1 <= m < j ==> s[m] != DOT) by {
        assert(forall|m: int| 0 <= m < lb ==> is_digit(#[trigger] tb[m]));
    }
    assert(forall|m: int| j + 1 <= m < k ==> s[m] != DOT) by {
        assert(forall|m: int| 0 <= m < lc ==> is_digit(#[trigger] tc[m]));
    }
    lemma_first_dot_at(s, 0, i);
    lemma_first_dot_at(s, i + 1, j);
    lemma_first_dot_at(s, j + 1, k);
}

/// Renders an IPv4 address as its dotted decimal text.
pub fn format_ipv4(ip: Ipv4) -> (r: Vec<u8>)
    ensures
        r@ == ipv4_text(ip),
{
    let mut out: Vec<u8> = Vec::new();
    push_octet(&mut out, ip.a);
    out.push(DOT);
    push_octet(&mut out, ip.b);
    out.push(DOT);
    push_octet(&mut out, ip.c);
    out.push(DOT);
    push_octet(&mut out, ip.d);
    assert(out@ =~= ipv4_text(ip));
    out
}

} // verus!
