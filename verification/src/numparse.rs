//! Decimal-number grammar: digit sequences and unsigned-integer parsing.

use vstd::prelude::*;
use crate::strutil::to_chars;

verus! {

/// A decimal digit.
pub open spec fn is_digit(c: char) -> bool {
    '0' <= c && c <= '9'
}

/// The numeric value of one decimal digit.
pub open spec fn digit_val(c: char) -> int {
    c as u32 - '0' as u32
}

/// Every character of the sequence is a decimal digit.
pub open spec fn all_digits(s: Seq<char>) -> bool {
    forall|i: int| 0 <= i < s.len() ==> is_digit(#[trigger] s[i])
}

/// The value of a digit sequence read as a decimal number.
pub open spec fn digits_val(s: Seq<char>) -> int
    decreases s.len(),
{
    if s.len() == 0 {
        0
    } else {
        digits_val(s.drop_last()) * 10 + digit_val(s.last())
    }
}

pub proof fn lemma_digits_val_nonneg(s: Seq<char>)
    requires
        all_digits(s),
    ensures
        digits_val(s) >= 0,
    decreases s.len(),
{
    if s.len() > 0 {
        assert(all_digits(s.drop_last()));
        lemma_digits_val_nonneg(s.drop_last());
    }
}

/// Reading one more digit never decreases the value: the value of any
/// prefix of a digit sequence bounds the value of the whole from below.
pub proof fn lemma_digits_val_prefix(s: Seq<char>, i: int)
    requires
        all_digits(s),
        0 <= i <= s.len(),
    ensures
        0 <= digits_val(s.take(i)) <= digits_val(s),
    decreases s.len() - i,
{
    assert(all_digits(s.take(i)));
    lemma_digits_val_nonneg(s.take(i));
    if i == s.len() {
        assert(s.take(i) =~= s);
    } else {
        assert(s.take(i + 1).drop_last() =~= s.take(i));
        assert(digits_val(s.take(i + 1)) == digits_val(s.take(i)) * 10 + digit_val(s.take(i + 1).last()));
        assert(is_digit(s[i]));
        lemma_digits_val_prefix(s, i + 1);
    }
}

/// A sequence with one optional leading `+` sign removed.
pub open spec fn strip_plus(s: Seq<char>) -> Seq<char> {
    if s.len() > 0 && s[0] == '+' {
        s.drop_first()
    } else {
        s
    }
}

/// The value of an unsigned decimal integer literal: an optional leading
/// `+`, then at least one digit, with a value that fits in a `u64`.
/// Anything else is rejected.
pub open spec fn spec_parse_u64(s: Seq<char>) -> Option<u64> {
    let t = strip_plus(s);
    if t.len() > 0 && all_digits(t) && digits_val(t) <= u64::MAX {
        Some(digits_val(t) as u64)
    } else {
        None
    }
}

/// Parses an unsigned decimal integer, as [`spec_parse_u64`] states.
pub fn parse_u64(s: &str) -> (r: Option<u64>)
    ensures
        r == spec_parse_u64(s@),
{
    let cs = to_chars(s);
    let n = cs.len();
    let start: usize = if n > 0 && cs[0] == '+' {
        1
    } else {
        0
    };
    let ghost t = strip_plus(s@);
    proof {
        assert(t =~= cs@.subrange(start as int, n as int));
    }
    if start >= n {
        return None;
    }
    let mut val: u128 = 0;
    let mut i: usize = start;
    while i < n
        invariant
            cs@ == s@,
            n == cs@.len(),
            start <= i <= n,
            start <= 1,
            t == strip_plus(s@),
            t == cs@.subrange(start as int, n as int),
            all_digits(t.take((i - start) as int)),
            val == digits_val(t.take((i - start) as int)),
            val <= u64::MAX,
        decreases n - i,
    {
        let c = cs[i];
        proof {
            assert(t[(i - start) as int] == c);
        }
        if !(c >= '0' && c <= '9') {
            proof {
                assert(!is_digit(c));
                assert(!all_digits(t));
            }
            return None;
        }
        proof {
            assert(is_digit(c));
            assert forall|j: int| 0 <= j < i + 1 - start implies is_digit(
                #[trigger] t.take((i + 1 - start) as int)[j],
            ) by {
                if j < i - start {
                    assert(t.take((i + 1 - start) as int)[j] == t.take((i - start) as int)[j]);
                } else {
                    assert(t.take((i + 1 - start) as int)[j] == c);
                }
            }
            assert(all_digits(t.take((i + 1 - start) as int)));
            assert(t.take((i + 1 - start) as int).drop_last() =~= t.take((i - start) as int));
            assert(t.take((i + 1 - start) as int).last() == c);
            assert('0' as u32 == 48);
        }
        let cu = c as u32;
        val = val * 10 + (cu - 48) as u128;
        i = i + 1;
        if val > u64::MAX as u128 {
            proof {
                if all_digits(t) {
                    lemma_digits_val_prefix(t, (i - start) as int);
                }
            }
            return None;
        }
    }
    proof {
        assert(t.take((n - start) as int) =~= t);
    }
    Some(val as u64)
}

} // verus!
