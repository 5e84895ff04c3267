//! Properties of the resolution grammar, stated and proved once for all
//! inputs.

use vstd::prelude::*;
use vstd::utf8::is_ascii_chars;
use crate::argv::{lemma_first_index, lemma_first_index_push, lemma_take_push};
use crate::cli::{
    spec_canonical, spec_finish, spec_flags, spec_interval_stage, spec_name_stage, spec_resolve,
    spec_take_addr, spec_take_record, spec_take_str, ResolutionView, Variant,
};
use crate::record_type::RecordType;
use crate::resolver::ResolverAddr;

verus! {

/// Canonicalizing a name that does not already end in a dot appends
/// exactly one trailing dot and nothing else.
pub proof fn lemma_canonical_adds_one_dot(name: Seq<char>)
    requires
        name.len() == 0 || name[name.len() - 1] != '.',
    ensures
        spec_canonical(name) == name.push('.'),
        spec_canonical(name).len() == name.len() + 1,
        spec_canonical(name).last() == '.',
{
}

/// Canonicalization is idempotent: run on an already-dotted name it
/// changes nothing, so running it twice is running it once.
pub proof fn lemma_canonical_idempotent(name: Seq<char>)
    ensures
        spec_canonical(spec_canonical(name)) == spec_canonical(name),
{
}

/// A resolved configuration's name is always ASCII and always in FQDN
/// form: whatever the arguments were, a non-ASCII name never reaches a
/// configuration.
pub proof fn lemma_resolved_name_ascii_fqdn(variant: Variant, args: Seq<Seq<char>>)
    ensures
        spec_resolve(variant, args) matches ResolutionView::Resolved { config, .. }
            ==> is_ascii_chars(config.name) && config.name.len() > 0 && config.name.last() == '.',
{
    assert forall|name: Seq<char>| is_ascii_chars(name) implies is_ascii_chars(
        #[trigger] spec_canonical(name),
    ) && spec_canonical(name).len() > 0 && spec_canonical(name).last() == '.' by {
        if name.len() > 0 && name[name.len() - 1] == '.' {
        } else {
            assert(forall|i: int|
                0 <= i < name.push('.').len() ==> '\0' <= #[trigger] name.push('.')[i]
                    <= '\u{7f}');
        }
    }
}

/// Once the grammar has picked a name that is not ASCII, the run ends in
/// the non-ASCII diagnosis carrying that very name, never in a
/// configuration.
pub proof fn lemma_non_ascii_name_rejected(
    variant: Variant,
    rt: RecordType,
    iv: u64,
    rs: ResolverAddr,
    args: Seq<Seq<char>>,
)
    requires
        args.len() > 0,
        !is_ascii_chars(args[0]),
    ensures
        spec_name_stage(variant, rt, iv, rs, args) == (ResolutionView::NonAsciiName {
            name: args[0],
        }),
{
}

/// The flag spellings the grammar of a variant recognizes.
pub open spec fn spec_is_key(variant: Variant, w: Seq<char>) -> bool {
    ||| w == "-h"@
    ||| w == "--help"@
    ||| w == "--record-type"@
    ||| w == "-t"@
    ||| (variant is Interval && (w == "--interval"@ || w == "-i"@))
    ||| w == "--resolver"@
    ||| w == "-r"@
}

/// An unrecognized trailing token changes nothing but the leftover
/// warning: a run that resolved, and whose positional name came from
/// the vector, resolves with the token appended to exactly the same
/// configuration, the token joining the leftovers.  In the one-shot
/// variant every resolved run took its name from the vector, so the
/// last premise holds of itself; in the interval variant it rules out
/// the runs that fell back to the default name, where a trailing token
/// would become the name instead.
pub proof fn lemma_trailing_token_same_config(
    variant: Variant,
    args: Seq<Seq<char>>,
    w: Seq<char>,
)
    requires
        !spec_is_key(variant, w),
        spec_resolve(variant, args) is Resolved,
        variant is Interval ==> (spec_flags(variant, args) matches Ok(t) && t.3.len() > 0),
    ensures
        spec_resolve(variant, args.push(w)) == (match spec_resolve(variant, args) {
            ResolutionView::Resolved { config, leftover } => ResolutionView::Resolved {
                config,
                leftover: leftover.push(w),
            },
            r => r,
        }),
{
    lemma_first_index_push(args, "-h"@, w);
    lemma_first_index_push(args, "--help"@, w);
    match spec_take_record(args, "--record-type"@) {
        Err(_) => {},
        Ok((_rt_long, a1)) => {
            lemma_take_push(args, "--record-type"@, w);
            match spec_take_record(a1, "-t"@) {
                Err(_) => {},
                Ok((_rt_short, a2)) => {
                    lemma_take_push(a1, "-t"@, w);
                    match spec_interval_stage(variant, a2) {
                        Err(_) => {},
                        Ok((_interval, a3)) => {
                            match variant {
                                Variant::OneShot => {},
                                Variant::Interval => {
                                    match spec_take_str(a2, "--interval"@) {
                                        Err(_) => {},
                                        Ok((_i_long, b1)) => {
                                            lemma_take_push(a2, "--interval"@, w);
                                            match spec_take_str(b1, "-i"@) {
                                                Err(_) => {},
                                                Ok((_i_short, _b2)) => {
                                                    lemma_take_push(b1, "-i"@, w);
                                                },
                                            }
                                        },
                                    }
                                },
                            }
                            match spec_take_addr(a3, "--resolver"@) {
                                Err(_) => {},
                                Ok((_r_long, a4)) => {
                                    lemma_take_push(a3, "--resolver"@, w);
                                    match spec_take_addr(a4, "-r"@) {
                                        Err(_) => {},
                                        Ok((_r_short, a5)) => {
                                            lemma_take_push(a4, "-r"@, w);
                                            if a5.len() > 0 {
                                                assert(a5.push(w)[0] == a5[0]);
                                                assert(a5.push(w).drop_first() =~= a5.drop_first().push(w));
                                            }
                                        },
                                    }
                                },
                            }
                        },
                    }
                },
            }
        },
    }
}

/// `-h` or `--help` anywhere among the arguments short-circuits the
/// whole resolution to the help outcome, whatever else is present.
pub proof fn lemma_help_short_circuits(variant: Variant, args: Seq<Seq<char>>, i: int)
    requires
        0 <= i < args.len(),
        args[i] == "-h"@ || args[i] == "--help"@,
    ensures
        spec_resolve(variant, args) == ResolutionView::Help,
{
    if args[i] == "-h"@ {
        lemma_first_index(args, "-h"@);
    } else {
        lemma_first_index(args, "--help"@);
    }
}

} // verus!
