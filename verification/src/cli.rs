//! The argument resolver: a raw argument vector becomes a validated
//! configuration, or one of the terminal outcomes (help, a fatal
//! validation failure, a recoverable flag error).

use vstd::prelude::*;
use vstd::string::*;
use vstd::utf8::is_ascii_chars;
use crate::argv::{
    exclusive_or, first_index, position_of_key, priority_or, spec_or, spec_take, spec_xor,
    take_value, Lookup, SpecLookup,
};
use crate::numparse::{parse_u64, spec_parse_u64};
use crate::record_type::{parse_record_type, spec_record_type, RecordType};
use crate::resolver::{
    default_resolver, parse_sock_addr, spec_default_resolver, spec_sock_addr, ResolverAddr,
};

verus! {

/// The fixed help text, printed to standard output when `-h` or
/// `--help` is present.
pub const HELP: &'static str = "\
dnstest -- domain information gatherer, obviously
USAGE:
  dnstest [OPTIONS] --record-type TYPE NAME
FLAGS:
  -h, --help                Prints help information
OPTIONS:
  -t, --record-type TYPE    Choose the DNS record type (supports A, CNAME, SOA and AAAA) (default A)
  -r, --resolver IP         Which DNS resolver to query (default is 1.1.1.1:53)
  -i, --interval Seconds    If specified repeats and sleeps interval seconds between dns queries.
ARGS:
  NAME A domain name to look up. Remember, these must be ASCII.(Default google.com)
";

/// Which sibling tool is resolving: the one-shot lookup, where the name
/// is required, or the repeating interval lookup, where the name has a
/// default and an interval flag exists.
#[derive(Clone, Copy, Debug, PartialEq, Eq, Structural)]
pub enum Variant {
    OneShot,
    Interval,
}

/// Values derived from the CLI arguments.
#[derive(Clone, Debug)]
pub struct AppArgs {
    pub record_type: RecordType,
    pub name: String,
    pub resolver: ResolverAddr,
    pub interval: u64,
}

/// The mathematical content of an [`AppArgs`].
pub ghost struct ConfigView {
    pub record_type: RecordType,
    pub name: Seq<char>,
    pub resolver: ResolverAddr,
    pub interval: u64,
}

impl View for AppArgs {
    type V = ConfigView;

    open spec fn view(&self) -> ConfigView {
        ConfigView {
            record_type: self.record_type,
            name: self.name@,
            resolver: self.resolver,
            interval: self.interval,
        }
    }
}

/// A recoverable parse error, handed back for the caller to report.
#[derive(Clone, Debug)]
pub enum ParseError {
    /// A flag stands last, with no value after it.
    OptionWithoutAValue { key: String },
    /// A flag's value cannot be read as the flag's type.
    InvalidOptionValue { key: String, value: String },
    /// The required positional domain name is missing.
    MissingName,
}

/// The mathematical content of a [`ParseError`].
pub ghost enum ErrorView {
    OptionWithoutAValue { key: Seq<char> },
    InvalidOptionValue { key: Seq<char>, value: Seq<char> },
    MissingName,
}

impl View for ParseError {
    type V = ErrorView;

    open spec fn view(&self) -> ErrorView {
        match self {
            ParseError::OptionWithoutAValue { key } => ErrorView::OptionWithoutAValue {
                key: key@,
            },
            ParseError::InvalidOptionValue { key, value } => ErrorView::InvalidOptionValue {
                key: key@,
                value: value@,
            },
            ParseError::MissingName => ErrorView::MissingName,
        }
    }
}

/// How one resolution run ends.
#[derive(Debug)]
pub enum Resolution {
    /// A configuration, and the arguments left unconsumed; the caller
    /// warns about leftovers, they change nothing.
    Resolved { config: AppArgs, leftover: Vec<String> },
    /// `-h` or `--help` was present: show the help text and exit 0.
    Help,
    /// The domain name is not ASCII: diagnose it and exit 1.
    NonAsciiName { name: String },
    /// The interval value is not a number: abort at once.
    InvalidInterval { value: String },
    /// A recoverable flag error for the caller to decide on.
    Failed { error: ParseError },
}

/// The mathematical content of a [`Resolution`].
pub ghost enum ResolutionView {
    Resolved { config: ConfigView, leftover: Seq<Seq<char>> },
    Help,
    NonAsciiName { name: Seq<char> },
    InvalidInterval { value: Seq<char> },
    Failed { error: ErrorView },
}

impl View for Resolution {
    type V = ResolutionView;

    open spec fn view(&self) -> ResolutionView {
        match self {
            Resolution::Resolved { config, leftover } => ResolutionView::Resolved {
                config: config@,
                leftover: leftover.deep_view(),
            },
            Resolution::Help => ResolutionView::Help,
            Resolution::NonAsciiName { name } => ResolutionView::NonAsciiName { name: name@ },
            Resolution::InvalidInterval { value } => ResolutionView::InvalidInterval {
                value: value@,
            },
            Resolution::Failed { error } => ResolutionView::Failed { error: error@ },
        }
    }
}

/// `-h` or `--help` occurs among the arguments.
pub open spec fn spec_has_help(args: Seq<Seq<char>>) -> bool {
    first_index(args, "-h"@) is Some || first_index(args, "--help"@) is Some
}

/// One optional string-valued flag: the grammar lookup alone, since any
/// string is acceptable as a value.
pub open spec fn spec_take_str(args: Seq<Seq<char>>, key: Seq<char>) -> Result<
    (Option<Seq<char>>, Seq<Seq<char>>),
    ErrorView,
> {
    match spec_take(args, key) {
        SpecLookup::Absent => Ok((None, args)),
        SpecLookup::NoValue => Err(ErrorView::OptionWithoutAValue { key }),
        SpecLookup::Found { value, rest } => Ok((Some(value), rest)),
    }
}

/// One optional record-type flag: the grammar lookup, then the
/// record-type grammar on the value.
pub open spec fn spec_take_record(args: Seq<Seq<char>>, key: Seq<char>) -> Result<
    (Option<RecordType>, Seq<Seq<char>>),
    ErrorView,
> {
    match spec_take(args, key) {
        SpecLookup::Absent => Ok((None, args)),
        SpecLookup::NoValue => Err(ErrorView::OptionWithoutAValue { key }),
        SpecLookup::Found { value, rest } => match spec_record_type(value) {
            Some(rt) => Ok((Some(rt), rest)),
            None => Err(ErrorView::InvalidOptionValue { key, value }),
        },
    }
}

/// One optional resolver flag: the grammar lookup, then the socket
/// address grammar on the value.
pub open spec fn spec_take_addr(args: Seq<Seq<char>>, key: Seq<char>) -> Result<
    (Option<ResolverAddr>, Seq<Seq<char>>),
    ErrorView,
> {
    match spec_take(args, key) {
        SpecLookup::Absent => Ok((None, args)),
        SpecLookup::NoValue => Err(ErrorView::OptionWithoutAValue { key }),
        SpecLookup::Found { value, rest } => match spec_sock_addr(value) {
            Some(a) => Ok((Some(a), rest)),
            None => Err(ErrorView::InvalidOptionValue { key, value }),
        },
    }
}

/// The interval stage: absent entirely in the one-shot variant; in the
/// interval variant `--interval` and `-i` combine by exclusive-or, the
/// absent (or doubled) case defaults to `0`, and a value that is not an
/// unsigned number is a fatal abort of its own, not a flag error.
pub open spec fn spec_interval_stage(variant: Variant, args: Seq<Seq<char>>) -> Result<
    (u64, Seq<Seq<char>>),
    ResolutionView,
> {
    match variant {
        Variant::OneShot => Ok((0u64, args)),
        Variant::Interval => match spec_take_str(args, "--interval"@) {
            Err(e) => Err(ResolutionView::Failed { error: e }),
            Ok((i_long, a1)) => match spec_take_str(a1, "-i"@) {
                Err(e) => Err(ResolutionView::Failed { error: e }),
                Ok((i_short, a2)) => {
                    let raw = match spec_xor(i_long, i_short) {
                        Some(v) => v,
                        None => "0"@,
                    };
                    match spec_parse_u64(raw) {
                        Some(n) => Ok((n, a2)),
                        None => Err(ResolutionView::InvalidInterval { value: raw }),
                    }
                },
            },
        },
    }
}

/// FQDN canonicalization: a name keeps its trailing dot, or gains one.
pub open spec fn spec_canonical(name: Seq<char>) -> Seq<char> {
    if name.len() > 0 && name[name.len() - 1] == '.' {
        name
    } else {
        name.push('.')
    }
}

/// The last two steps on an obtained name: ASCII validation, which on
/// failure ends the run by itself, then canonicalization.
pub open spec fn spec_finish(
    record_type: RecordType,
    interval: u64,
    resolver: ResolverAddr,
    name: Seq<char>,
    leftover: Seq<Seq<char>>,
) -> ResolutionView {
    if !is_ascii_chars(name) {
        ResolutionView::NonAsciiName { name }
    } else {
        ResolutionView::Resolved {
            config: ConfigView { record_type, name: spec_canonical(name), resolver, interval },
            leftover,
        }
    }
}

/// The positional name: the first remaining argument, whatever it looks
/// like; required in the one-shot variant, defaulted to `google.com` in
/// the interval variant.
pub open spec fn spec_name_stage(
    variant: Variant,
    record_type: RecordType,
    interval: u64,
    resolver: ResolverAddr,
    args: Seq<Seq<char>>,
) -> ResolutionView {
    if args.len() > 0 {
        spec_finish(record_type, interval, resolver, args[0], args.drop_first())
    } else {
        match variant {
            Variant::OneShot => ResolutionView::Failed { error: ErrorView::MissingName },
            Variant::Interval => spec_finish(record_type, interval, resolver, "google.com"@, args),
        }
    }
}

/// The flag stages, in the order the tool applies them: the record type
/// from `--record-type` and `-t` by exclusive-or, defaulting to `A`;
/// the interval; the resolver from `--resolver` and `-r` by
/// priority-or, defaulting to `1.1.1.1:53`.  Each lookup takes its
/// arguments out of the vector in turn; `Ok` carries what remains,
/// `Err` is the outcome that ends the run early.
pub open spec fn spec_flags(variant: Variant, args: Seq<Seq<char>>) -> Result<
    (RecordType, u64, ResolverAddr, Seq<Seq<char>>),
    ResolutionView,
> {
    match spec_take_record(args, "--record-type"@) {
        Err(e) => Err(ResolutionView::Failed { error: e }),
        Ok((rt_long, a1)) => match spec_take_record(a1, "-t"@) {
            Err(e) => Err(ResolutionView::Failed { error: e }),
            Ok((rt_short, a2)) => {
                let record_type = match spec_xor(rt_long, rt_short) {
                    Some(rt) => rt,
                    None => RecordType::A,
                };
                match spec_interval_stage(variant, a2) {
                    Err(r) => Err(r),
                    Ok((interval, a3)) => match spec_take_addr(a3, "--resolver"@) {
                        Err(e) => Err(ResolutionView::Failed { error: e }),
                        Ok((r_long, a4)) => match spec_take_addr(a4, "-r"@) {
                            Err(e) => Err(ResolutionView::Failed { error: e }),
                            Ok((r_short, a5)) => {
                                let resolver = match spec_or(r_long, r_short) {
                                    Some(a) => a,
                                    None => spec_default_resolver(),
                                };
                                Ok((record_type, interval, resolver, a5))
                            },
                        },
                    },
                }
            },
        },
    }
}

/// The whole resolution, in the order the tool applies it: the help
/// check first, then the flag stages, then the positional name, ASCII
/// validation and canonicalization.  Whatever the stages left in the
/// vector at the end is the leftover the caller warns about.
pub open spec fn spec_resolve(variant: Variant, args: Seq<Seq<char>>) -> ResolutionView {
    if spec_has_help(args) {
        ResolutionView::Help
    } else {
        match spec_flags(variant, args) {
            Err(r) => r,
            Ok((record_type, interval, resolver, rest)) => spec_name_stage(
                variant,
                record_type,
                interval,
                resolver,
                rest,
            ),
        }
    }
}

/// Canonicalizes a domain name in place, as [`spec_canonical`] states.
pub fn canonicalize(name: &mut String)
    ensures
        final(name)@ == spec_canonical(old(name)@),
{
    let n = name.as_str().unicode_len();
    let last_is_dot = if n > 0 {
        name.as_str().get_char(n - 1) == '.'
    } else {
        false
    };
    if !last_is_dot {
        name.append(".");
        proof {
            reveal_strlit(".");
            assert(old(name)@.push('.') =~= old(name)@ + "."@);
        }
    }
}

impl AppArgs {
    /// Resolves an argument vector into a configuration or a terminal
    /// outcome, exactly as [`spec_resolve`] states.
    pub fn parse(variant: Variant, args: Vec<String>) -> (r: Resolution)
        ensures
            r@ == spec_resolve(variant, args.deep_view()),
    {
        let mut rest = args;

        // Help has a higher priority and is handled before anything else.
        let h_short = position_of_key(&rest, "-h");
        let h_long = position_of_key(&rest, "--help");
        if h_short.is_some() || h_long.is_some() {
            return Resolution::Help;
        }

        // Record type: long and short spellings, exclusive-or, default A.
        let rt_long: Option<RecordType> = match take_value(&mut rest, "--record-type") {
            Lookup::NoValue => {
                return Resolution::Failed {
                    error: ParseError::OptionWithoutAValue {
                        key: String::from_str("--record-type"),
                    },
                };
            },
            Lookup::Absent => None,
            Lookup::Found { value } => match parse_record_type(value.as_str()) {
                Some(rt) => Some(rt),
                None => {
                    return Resolution::Failed {
                        error: ParseError::InvalidOptionValue {
                            key: String::from_str("--record-type"),
                            value,
                        },
                    };
                },
            },
        };
        let rt_short: Option<RecordType> = match take_value(&mut rest, "-t") {
            Lookup::NoValue => {
                return Resolution::Failed {
                    error: ParseError::OptionWithoutAValue { key: String::from_str("-t") },
                };
            },
            Lookup::Absent => None,
            Lookup::Found { value } => match parse_record_type(value.as_str()) {
                Some(rt) => Some(rt),
                None => {
                    return Resolution::Failed {
                        error: ParseError::InvalidOptionValue {
                            key: String::from_str("-t"),
                            value,
                        },
                    };
                },
            },
        };
        let record_type: RecordType = match exclusive_or(rt_long, rt_short) {
            Some(rt) => rt,
            None => RecordType::A,
        };

        // Interval: only the interval variant reads these flags.
        let interval: u64 = match variant {
            Variant::OneShot => 0,
            Variant::Interval => {
                let i_long: Option<String> = match take_value(&mut rest, "--interval") {
                    Lookup::NoValue => {
                        return Resolution::Failed {
                            error: ParseError::OptionWithoutAValue {
                                key: String::from_str("--interval"),
                            },
                        };
                    },
                    Lookup::Absent => None,
                    Lookup::Found { value } => Some(value),
                };
                let i_short: Option<String> = match take_value(&mut rest, "-i") {
                    Lookup::NoValue => {
                        return Resolution::Failed {
                            error: ParseError::OptionWithoutAValue { key: String::from_str("-i") },
                        };
                    },
                    Lookup::Absent => None,
                    Lookup::Found { value } => Some(value),
                };
                let raw: String = match exclusive_or(i_long, i_short) {
                    Some(v) => v,
                    None => String::from_str("0"),
                };
                match parse_u64(raw.as_str()) {
                    Some(n) => n,
                    None => {
                        return Resolution::InvalidInterval { value: raw };
                    },
                }
            },
        };

        // Resolver: long wins over short, default 1.1.1.1:53.
        let r_long: Option<ResolverAddr> = match take_value(&mut rest, "--resolver") {
            Lookup::NoValue => {
                return Resolution::Failed {
                    error: ParseError::OptionWithoutAValue { key: String::from_str("--resolver") },
                };
            },
            Lookup::Absent => None,
            Lookup::Found { value } => match parse_sock_addr(value.as_str()) {
                Some(a) => Some(a),
                None => {
                    return Resolution::Failed {
                        error: ParseError::InvalidOptionValue {
                            key: String::from_str("--resolver"),
                            value,
                        },
                    };
                },
            },
        };
        let r_short: Option<ResolverAddr> = match take_value(&mut rest, "-r") {
            Lookup::NoValue => {
                return Resolution::Failed {
                    error: ParseError::OptionWithoutAValue { key: String::from_str("-r") },
                };
            },
            Lookup::Absent => None,
            Lookup::Found { value } => match parse_sock_addr(value.as_str()) {
                Some(a) => Some(a),
                None => {
                    return Resolution::Failed {
                        error: ParseError::InvalidOptionValue {
                            key: String::from_str("-r"),
                            value,
                        },
                    };
                },
            },
        };
        let ghost after_flags = rest.deep_view();
        let resolver: ResolverAddr = match priority_or(r_long, r_short) {
            Some(a) => a,
            None => default_resolver(),
        };

        // The positional name: the first remaining argument.
        let name_raw: String = if rest.len() > 0 {
            let ghost before = rest;
            let n = rest.remove(0);
            proof {
                crate::argv::lemma_deep_view_is(before);
                crate::argv::lemma_deep_view_is(rest);
                crate::argv::lemma_views_of_remove(before@, 0);
                assert(rest.deep_view() =~= after_flags.drop_first());
                assert(n@ == after_flags[0]);
            }
            n
        } else {
            match variant {
                Variant::OneShot => {
                    return Resolution::Failed { error: ParseError::MissingName };
                },
                Variant::Interval => String::from_str("google.com"),
            }
        };
        if !name_raw.as_str().is_ascii() {
            return Resolution::NonAsciiName { name: name_raw };
        }
        let mut name = name_raw;
        canonicalize(&mut name);
        Resolution::Resolved {
            config: AppArgs { record_type, name, resolver, interval },
            leftover: rest,
        }
    }
}

} // verus!
