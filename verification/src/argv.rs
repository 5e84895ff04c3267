//! The argument-vector grammar: locating flags, taking their values, and
//! the two policies for combining a long and a short spelling of one flag.

use vstd::prelude::*;
use crate::strutil::str_eq;

verus! {

/// The index of the first occurrence of `x` in `s`, if any.
pub open spec fn first_index<T>(s: Seq<T>, x: T) -> Option<int>
    decreases s.len(),
{
    if s.len() == 0 {
        None
    } else if s[0] == x {
        Some(0int)
    } else {
        match first_index(s.drop_first(), x) {
            None => None,
            Some(i) => Some(i + 1),
        }
    }
}

pub proof fn lemma_first_index<T>(s: Seq<T>, x: T)
    ensures
        match first_index(s, x) {
            Some(i) => 0 <= i < s.len() && s[i] == x && (forall|j: int| 0 <= j < i ==> s[j] != x),
            None => forall|j: int| 0 <= j < s.len() ==> s[j] != x,
        },
    decreases s.len(),
{
    if s.len() > 0 && s[0] != x {
        lemma_first_index(s.drop_first(), x);
        match first_index(s.drop_first(), x) {
            Some(i) => {
                assert(s[i + 1] == s.drop_first()[i]);
                assert forall|j: int| 0 <= j < i + 1 implies s[j] != x by {
                    if j > 0 {
                        assert(s.drop_first()[j - 1] == s[j]);
                    }
                }
            },
            None => {
                assert forall|j: int| 0 <= j < s.len() implies s[j] != x by {
                    if j > 0 {
                        assert(s.drop_first()[j - 1] == s[j]);
                    }
                }
            },
        }
    }
}

/// A match at `i` with no earlier match pins the first occurrence down.
pub proof fn lemma_first_index_at<T>(s: Seq<T>, x: T, i: int)
    requires
        0 <= i < s.len(),
        s[i] == x,
        forall|j: int| 0 <= j < i ==> s[j] != x,
    ensures
        first_index(s, x) == Some(i),
{
    lemma_first_index(s, x);
}

/// No match anywhere means no first occurrence.
pub proof fn lemma_first_index_none<T>(s: Seq<T>, x: T)
    requires
        forall|j: int| 0 <= j < s.len() ==> s[j] != x,
    ensures
        first_index(s, x) is None,
{
    lemma_first_index(s, x);
}

/// The character sequences of a sequence of strings.
pub open spec fn views_of(v: Seq<String>) -> Seq<Seq<char>> {
    Seq::new(v.len(), |k: int| v[k]@)
}

/// A vector's deep view is the sequence of its strings' views.
pub proof fn lemma_deep_view_is(v: Vec<String>)
    ensures
        v.deep_view() == views_of(v@),
{
    assert(v.deep_view() =~= views_of(v@));
}

/// Removing a string commutes with taking views.
pub proof fn lemma_views_of_remove(v: Seq<String>, i: int)
    requires
        0 <= i < v.len(),
    ensures
        views_of(v.remove(i)) == views_of(v).remove(i),
{
    assert forall|k: int| 0 <= k < v.len() - 1 implies views_of(v.remove(i))[k] == views_of(
        v,
    ).remove(i)[k] by {
        if k < i {
            assert(v.remove(i)[k] == v[k]);
        } else {
            assert(v.remove(i)[k] == v[k + 1]);
        }
    }
    assert(views_of(v.remove(i)) =~= views_of(v).remove(i));
}

/// The index of the first argument spelled exactly `key`.
pub fn position_of_key(args: &Vec<String>, key: &str) -> (r: Option<usize>)
    ensures
        match r {
            Some(i) => first_index(args.deep_view(), key@) == Some(i as int),
            None => first_index(args.deep_view(), key@) is None,
        },
{
    proof {
        lemma_deep_view_is(*args);
    }
    let n = args.len();
    let mut i: usize = 0;
    while i < n
        invariant
            n == args@.len(),
            0 <= i <= n,
            args.deep_view() == views_of(args@),
            forall|j: int| 0 <= j < i ==> args.deep_view()[j] != key@,
        decreases n - i,
    {
        let eq = str_eq(args[i].as_str(), key);
        proof {
            assert(args.deep_view()[i as int] == args@[i as int]@);
        }
        if eq {
            proof {
                lemma_first_index_at(args.deep_view(), key@, i as int);
            }
            return Some(i);
        }
        i = i + 1;
    }
    proof {
        lemma_first_index_none(args.deep_view(), key@);
    }
    None
}

/// What one optional flag lookup yields.
pub ghost enum SpecLookup {
    /// The key occurs nowhere: the vector stays as it is.
    Absent,
    /// The key is the last argument, so no value follows it: an error.
    NoValue,
    /// The key's first occurrence is followed by a value; both leave the
    /// vector.
    Found { value: Seq<char>, rest: Seq<Seq<char>> },
}

/// One optional flag lookup: the first argument spelled exactly `key`
/// names the flag, and the argument after it is the flag's value.
pub open spec fn spec_take(args: Seq<Seq<char>>, key: Seq<char>) -> SpecLookup {
    match first_index(args, key) {
        None => SpecLookup::Absent,
        Some(i) => if i + 1 < args.len() {
            SpecLookup::Found { value: args[i + 1], rest: args.remove(i).remove(i) }
        } else {
            SpecLookup::NoValue
        },
    }
}

/// What [`take_value`] reports to its caller.
pub enum Lookup {
    Absent,
    NoValue,
    Found { value: String },
}

/// Takes an optional flag and its value out of the vector, as
/// [`spec_take`] states.
pub fn take_value(args: &mut Vec<String>, key: &str) -> (r: Lookup)
    ensures
        match spec_take(old(args).deep_view(), key@) {
            SpecLookup::Absent => r is Absent && final(args).deep_view() == old(
                args,
            ).deep_view(),
            SpecLookup::NoValue => r is NoValue && final(args).deep_view() == old(
                args,
            ).deep_view(),
            SpecLookup::Found { value, rest } => (r matches Lookup::Found { value: v } && v@
                == value) && final(args).deep_view() == rest,
        },
{
    proof {
        lemma_deep_view_is(*args);
        lemma_first_index(args.deep_view(), key@);
    }
    let pos = position_of_key(args, key);
    match pos {
        None => Lookup::Absent,
        Some(i) => {
            let n = args.len();
            proof {
                assert(args.deep_view().len() == args@.len());
                assert(i < n);
            }
            if i + 1 >= n {
                Lookup::NoValue
            } else {
                let ghost v0 = args@;
                let value = args[i + 1].clone();
                args.remove(i);
                proof {
                    lemma_deep_view_is(*old(args));
                    lemma_deep_view_is(*args);
                    lemma_views_of_remove(v0, i as int);
                }
                let ghost v1 = args@;
                args.remove(i);
                proof {
                    lemma_deep_view_is(*args);
                    lemma_views_of_remove(v1, i as int);
                }
                Lookup::Found { value }
            }
        },
    }
}

/// A trailing element that is not the needle leaves the first
/// occurrence where it was.
pub proof fn lemma_first_index_push<T>(s: Seq<T>, x: T, w: T)
    requires
        w != x,
    ensures
        first_index(s.push(w), x) == first_index(s, x),
{
    lemma_first_index(s, x);
    match first_index(s, x) {
        Some(i) => {
            assert(s.push(w)[i] == s[i]);
            assert forall|j: int| 0 <= j < i implies s.push(w)[j] != x by {
                assert(s.push(w)[j] == s[j]);
            }
            lemma_first_index_at(s.push(w), x, i);
        },
        None => {
            assert forall|j: int| 0 <= j < s.push(w).len() implies s.push(w)[j] != x by {
                if j < s.len() {
                    assert(s.push(w)[j] == s[j]);
                } else {
                    assert(s.push(w)[j] == w);
                }
            }
            lemma_first_index_none(s.push(w), x);
        },
    }
}

/// Removing an element that is not the pushed one commutes with the
/// push.
pub proof fn lemma_remove_push<T>(s: Seq<T>, i: int, w: T)
    requires
        0 <= i < s.len(),
    ensures
        s.push(w).remove(i) == s.remove(i).push(w),
{
    assert forall|k: int| 0 <= k < s.len() implies s.push(w).remove(i)[k] == s.remove(i).push(
        w,
    )[k] by {
        if k < i {
            assert(s.push(w).remove(i)[k] == s.push(w)[k]);
            assert(s.push(w)[k] == s[k]);
        } else if k < s.len() - 1 {
            assert(s.push(w).remove(i)[k] == s.push(w)[k + 1]);
            assert(s.push(w)[k + 1] == s[k + 1]);
        } else {
            assert(s.push(w).remove(i)[k] == s.push(w)[k + 1]);
            assert(s.push(w)[k + 1] == w);
        }
    }
    assert(s.push(w).remove(i) =~= s.remove(i).push(w));
}

/// A trailing argument that spells no key slips through a lookup
/// untouched: an absent key stays absent, and a found key yields the
/// same value, with the trailing argument joining the rest.
pub proof fn lemma_take_push(args: Seq<Seq<char>>, key: Seq<char>, w: Seq<char>)
    requires
        w != key,
        !(spec_take(args, key) is NoValue),
    ensures
        spec_take(args, key) is Absent ==> spec_take(args.push(w), key) == SpecLookup::Absent,
        spec_take(args, key) matches SpecLookup::Found { value, rest } ==> spec_take(
            args.push(w),
            key,
        ) == (SpecLookup::Found { value, rest: rest.push(w) }),
{
    lemma_first_index(args, key);
    lemma_first_index_push(args, key, w);
    match first_index(args, key) {
        None => {},
        Some(i) => {
            assert(i + 1 < args.len());
            assert(args.push(w)[i + 1] == args[i + 1]);
            lemma_remove_push(args, i, w);
            lemma_remove_push(args.remove(i), i, w);
        },
    }
}

/// Exclusive-or combination: a value only when exactly one side has one.
pub open spec fn spec_xor<T>(a: Option<T>, b: Option<T>) -> Option<T> {
    match (a, b) {
        (Some(x), None) => Some(x),
        (None, Some(y)) => Some(y),
        _ => None,
    }
}

/// Combines two aliased flags by exclusive-or, as [`spec_xor`] states:
/// both present falls back to "no value", exactly as neither present.
pub fn exclusive_or<T>(a: Option<T>, b: Option<T>) -> (r: Option<T>)
    ensures
        r == spec_xor(a, b),
{
    match (a, b) {
        (Some(x), None) => Some(x),
        (None, Some(y)) => Some(y),
        _ => None,
    }
}

/// Priority-or combination: the first present value wins.
pub open spec fn spec_or<T>(a: Option<T>, b: Option<T>) -> Option<T> {
    match a {
        Some(x) => Some(x),
        None => b,
    }
}

/// Combines two aliased flags by priority, as [`spec_or`] states: when
/// both are present the first one wins.
pub fn priority_or<T>(a: Option<T>, b: Option<T>) -> (r: Option<T>)
    ensures
        r == spec_or(a, b),
{
    match a {
        Some(x) => Some(x),
        None => b,
    }
}

} // verus!
