//! The resolver address: an IPv4 socket address held as plain values, and
//! its textual grammar `A.B.C.D:PORT`.

use vstd::prelude::*;
use crate::argv::{first_index, lemma_first_index, lemma_first_index_at, lemma_first_index_none};
use crate::numparse::{all_digits, digit_val, digits_val, is_digit, lemma_digits_val_prefix};
use crate::strutil::to_chars;

verus! {

/// An IPv4 socket address: four octets and a port, as plain values.
#[derive(Clone, Copy, Debug, PartialEq, Eq, Structural)]
pub struct ResolverAddr {
    pub o1: u8,
    pub o2: u8,
    pub o3: u8,
    pub o4: u8,
    pub port: u16,
}

/// The address every lookup uses when no resolver flag is given.
pub open spec fn spec_default_resolver() -> ResolverAddr {
    ResolverAddr { o1: 1, o2: 1, o3: 1, o4: 1, port: 53 }
}

/// The fixed default resolver, `1.1.1.1:53`.
pub fn default_resolver() -> (r: ResolverAddr)
    ensures
        r == spec_default_resolver(),
{
    ResolverAddr { o1: 1, o2: 1, o3: 1, o4: 1, port: 53 }
}

/// The sequence split at the first occurrence of `c`, which joins neither
/// side; nothing when `c` does not occur.
pub open spec fn spec_split_first(s: Seq<char>, c: char) -> Option<(Seq<char>, Seq<char>)> {
    match first_index(s, c) {
        None => None,
        Some(i) => Some((s.take(i), s.skip(i + 1))),
    }
}

/// A decimal octet: one to three digits, no leading zero, value at most
/// 255.
pub open spec fn is_octet(s: Seq<char>) -> bool {
    &&& 1 <= s.len() <= 3
    &&& all_digits(s)
    &&& (s.len() > 1 ==> s[0] != '0')
    &&& digits_val(s) <= 255
}

/// The value of a decimal octet; anything else is rejected.
pub open spec fn spec_octet(s: Seq<char>) -> Option<u8> {
    if is_octet(s) {
        Some(digits_val(s) as u8)
    } else {
        None
    }
}

/// A port number: at least one digit, all digits, value at most 65535.
/// Leading zeros are accepted.
pub open spec fn is_port(s: Seq<char>) -> bool {
    &&& s.len() >= 1
    &&& all_digits(s)
    &&& digits_val(s) <= 65535
}

/// The value of a port number; anything else is rejected.
pub open spec fn spec_port(s: Seq<char>) -> Option<u16> {
    if is_port(s) {
        Some(digits_val(s) as u16)
    } else {
        None
    }
}

/// An IPv4 address in dotted-decimal form: four octets, cut at the first
/// three dots.
pub open spec fn spec_ipv4(s: Seq<char>) -> Option<(u8, u8, u8, u8)> {
    match spec_split_first(s, '.') {
        None => None,
        Some((p1, r1)) => match spec_split_first(r1, '.') {
            None => None,
            Some((p2, r2)) => match spec_split_first(r2, '.') {
                None => None,
                Some((p3, p4)) => match (spec_octet(p1), spec_octet(p2), spec_octet(p3), spec_octet(p4)) {
                    (Some(a), Some(b), Some(c), Some(d)) => Some((a, b, c, d)),
                    _ => None,
                },
            },
        },
    }
}

/// A socket address `A.B.C.D:PORT`, cut at the first colon.
pub open spec fn spec_sock_addr(s: Seq<char>) -> Option<ResolverAddr> {
    match spec_split_first(s, ':') {
        None => None,
        Some((ip, pt)) => match (spec_ipv4(ip), spec_port(pt)) {
            (Some((a, b, c, d)), Some(p)) => Some(
                ResolverAddr { o1: a, o2: b, o3: c, o4: d, port: p },
            ),
            _ => None,
        },
    }
}

/// Splits a character vector at the first occurrence of `c`, as
/// [`spec_split_first`] states.
fn split_first_at(v: &Vec<char>, c: char) -> (r: Option<(Vec<char>, Vec<char>)>)
    ensures
        match spec_split_first(v@, c) {
            None => r is None,
            Some(pair) => r matches Some(p) && p.0@ == pair.0 && p.1@ == pair.1,
        },
{
    let n = v.len();
    let mut i: usize = 0;
    while i < n
        invariant
            n == v@.len(),
            0 <= i <= n,
            forall|j: int| 0 <= j < i ==> v@[j] != c,
        decreases n - i,
    {
        if v[i] == c {
            proof {
                lemma_first_index_at(v@, c, i as int);
            }
            let left = subvec(v, 0, i);
            let right = subvec(v, i + 1, n);
            return Some((left, right));
        }
        i = i + 1;
    }
    proof {
        lemma_first_index_none(v@, c);
    }
    None
}

/// A copy of the characters from `from` (inclusive) to `to` (exclusive).
fn subvec(v: &Vec<char>, from: usize, to: usize) -> (r: Vec<char>)
    requires
        from <= to <= v@.len(),
    ensures
        r@ == v@.subrange(from as int, to as int),
{
    let mut r: Vec<char> = Vec::new();
    let mut i: usize = from;
    while i < to
        invariant
            from <= i <= to <= v@.len(),
            r@.len() == i - from,
            forall|j: int| 0 <= j < i - from ==> r@[j] == v@[from + j],
        decreases to - i,
    {
        r.push(v[i]);
        i = i + 1;
    }
    proof {
        assert(r@ =~= v@.subrange(from as int, to as int));
    }
    r
}

/// Reads a decimal octet, as [`spec_octet`] states.
fn check_octet(v: &Vec<char>) -> (r: Option<u8>)
    ensures
        r == spec_octet(v@),
{
    let n = v.len();
    if n < 1 || n > 3 {
        return None;
    }
    if n > 1 && v[0] == '0' {
        return None;
    }
    let mut val: u32 = 0;
    let mut i: usize = 0;
    while i < n
        invariant
            n == v@.len(),
            1 <= n <= 3,
            0 <= i <= n,
            all_digits(v@.take(i as int)),
            val == digits_val(v@.take(i as int)),
            val <= 999,
            i < 3 ==> val <= 99,
            i < 2 ==> val <= 9,
        decreases n - i,
    {
        let c = v[i];
        if !(c >= '0' && c <= '9') {
            proof {
                assert(!is_digit(v@[i as int]));
            }
            return None;
        }
        proof {
            assert(is_digit(c));
            assert forall|j: int| 0 <= j < i + 1 implies is_digit(#[trigger] v@.take(i + 1)[j]) by {
                if j < i {
                    assert(v@.take(i + 1)[j] == v@.take(i as int)[j]);
                } else {
                    assert(v@.take(i + 1)[j] == c);
                }
            }
            assert(v@.take(i + 1).drop_last() =~= v@.take(i as int));
            assert(v@.take(i + 1).last() == c);
            assert('0' as u32 == 48);
        }
        val = val * 10 + (c as u32 - 48);
        i = i + 1;
    }
    proof {
        assert(v@.take(n as int) =~= v@);
    }
    if val > 255 {
        return None;
    }
    Some(val as u8)
}

/// Reads a port number, as [`spec_port`] states.
fn check_port(v: &Vec<char>) -> (r: Option<u16>)
    ensures
        r == spec_port(v@),
{
    let n = v.len();
    if n < 1 {
        return None;
    }
    let mut val: u32 = 0;
    let mut i: usize = 0;
    while i < n
        invariant
            n == v@.len(),
            0 <= i <= n,
            all_digits(v@.take(i as int)),
            val == digits_val(v@.take(i as int)),
            val <= 65535,
        decreases n - i,
    {
        let c = v[i];
        if !(c >= '0' && c <= '9') {
            proof {
                assert(!is_digit(v@[i as int]));
            }
            return None;
        }
        proof {
            assert(is_digit(c));
            assert forall|j: int| 0 <= j < i + 1 implies is_digit(#[trigger] v@.take(i + 1)[j]) by {
                if j < i {
                    assert(v@.take(i + 1)[j] == v@.take(i as int)[j]);
                } else {
                    assert(v@.take(i + 1)[j] == c);
                }
            }
            assert(v@.take(i + 1).drop_last() =~= v@.take(i as int));
            assert(v@.take(i + 1).last() == c);
            assert('0' as u32 == 48);
        }
        val = val * 10 + (c as u32 - 48);
        i = i + 1;
        if val > 65535 {
            proof {
                if all_digits(v@) {
                    lemma_digits_val_prefix(v@, i as int);
                }
            }
            return None;
        }
    }
    proof {
        assert(v@.take(n as int) =~= v@);
    }
    Some(val as u16)
}

/// Parses a socket address, as [`spec_sock_addr`] states.
pub fn parse_sock_addr(s: &str) -> (r: Option<ResolverAddr>)
    ensures
        r == spec_sock_addr(s@),
{
    let cs = to_chars(s);
    let (ip, pt) = match split_first_at(&cs, ':') {
        None => {
            return None;
        },
        Some(pair) => pair,
    };
    let (p1, r1) = match split_first_at(&ip, '.') {
        None => {
            return None;
        },
        Some(pair) => pair,
    };
    let (p2, r2) = match split_first_at(&r1, '.') {
        None => {
            return None;
        },
        Some(pair) => pair,
    };
    let (p3, p4) = match split_first_at(&r2, '.') {
        None => {
            return None;
        },
        Some(pair) => pair,
    };
    let o1 = check_octet(&p1);
    let o2 = check_octet(&p2);
    let o3 = check_octet(&p3);
    let o4 = check_octet(&p4);
    let p = check_port(&pt);
    match (o1, o2, o3, o4, p) {
        (Some(a), Some(b), Some(c), Some(d), Some(port)) => Some(
            ResolverAddr { o1: a, o2: b, o3: c, o4: d, port },
        ),
        _ => None,
    }
}

} // verus!
