use dnstest::cli::{AppArgs, ParseError, Resolution, Variant};
use dnstest::record_type::RecordType;
use dnstest::resolver::ResolverAddr;

fn sv(xs: &[&str]) -> Vec<String> {
    xs.iter().map(|x| x.to_string()).collect()
}

fn resolved(variant: Variant, xs: &[&str]) -> (AppArgs, Vec<String>) {
    match AppArgs::parse(variant, sv(xs)) {
        Resolution::Resolved { config, leftover } => (config, leftover),
        other => panic!("expected a resolved configuration, got {:?}", other),
    }
}

#[test]
fn record_type_long_only() {
    let (config, leftover) = resolved(Variant::OneShot, &["--record-type", "AAAA", "example.com"]);
    assert!(matches!(config.record_type, RecordType::AAAA));
    assert!(leftover.is_empty());
}

#[test]
fn record_type_short_only() {
    let (config, _) = resolved(Variant::OneShot, &["-t", "AAAA", "example.com"]);
    assert!(matches!(config.record_type, RecordType::AAAA));
}

#[test]
fn record_type_both_falls_back_to_default() {
    let (config, _) = resolved(
        Variant::OneShot,
        &["--record-type", "AAAA", "-t", "CNAME", "example.com"],
    );
    assert!(matches!(config.record_type, RecordType::A));
}

#[test]
fn record_type_defaults_to_a() {
    let (config, _) = resolved(Variant::OneShot, &["example.com"]);
    assert!(matches!(config.record_type, RecordType::A));
}

#[test]
fn resolver_long_flag_wins_over_short() {
    let (config, _) = resolved(
        Variant::OneShot,
        &["--resolver", "8.8.8.8:53", "-r", "9.9.9.9:53", "example.com"],
    );
    assert_eq!(
        config.resolver,
        ResolverAddr { o1: 8, o2: 8, o3: 8, o4: 8, port: 53 }
    );
}

#[test]
fn resolver_short_flag_alone() {
    let (config, _) = resolved(Variant::OneShot, &["-r", "9.9.9.9:53", "example.com"]);
    assert_eq!(
        config.resolver,
        ResolverAddr { o1: 9, o2: 9, o3: 9, o4: 9, port: 53 }
    );
}

#[test]
fn resolver_defaults_to_cloudflare() {
    let (config, _) = resolved(Variant::OneShot, &["example.com"]);
    assert_eq!(
        config.resolver,
        ResolverAddr { o1: 1, o2: 1, o3: 1, o4: 1, port: 53 }
    );
}

#[test]
fn interval_variant_default_name() {
    let (config, _) = resolved(Variant::Interval, &[]);
    assert_eq!(config.name, "google.com.");
    assert_eq!(config.interval, 0);
}

#[test]
fn interval_both_flags_fall_back_to_zero() {
    let (config, _) = resolved(Variant::Interval, &["--interval", "5", "-i", "10"]);
    assert_eq!(config.interval, 0);
}

#[test]
fn interval_long_flag_value() {
    let (config, _) = resolved(Variant::Interval, &["--interval", "5", "example.com"]);
    assert_eq!(config.interval, 5);
}

#[test]
fn interval_accepts_leading_plus() {
    let (config, _) = resolved(Variant::Interval, &["-i", "+7"]);
    assert_eq!(config.interval, 7);
}

#[test]
fn interval_non_numeric_is_fatal() {
    let r = AppArgs::parse(Variant::Interval, sv(&["--interval", "soon"]));
    match r {
        Resolution::InvalidInterval { value } => assert_eq!(value, "soon"),
        other => panic!("expected the fatal interval outcome, got {:?}", other),
    }
}

#[test]
fn name_gains_exactly_one_dot() {
    let (config, _) = resolved(Variant::OneShot, &["example.com"]);
    assert_eq!(config.name, "example.com.");
}

#[test]
fn dotted_name_is_unchanged() {
    let (config, _) = resolved(Variant::OneShot, &["example.com."]);
    assert_eq!(config.name, "example.com.");
}

#[test]
fn non_ascii_name_is_rejected() {
    let r = AppArgs::parse(Variant::OneShot, sv(&["ex\u{e4}mple.com"]));
    match r {
        Resolution::NonAsciiName { name } => assert_eq!(name, "ex\u{e4}mple.com"),
        other => panic!("expected the non-ASCII outcome, got {:?}", other),
    }
}

#[test]
fn help_short_circuits_everything() {
    let r = AppArgs::parse(
        Variant::OneShot,
        sv(&["--resolver", "not-an-address", "--help"]),
    );
    assert!(matches!(r, Resolution::Help));
}

#[test]
fn help_short_flag() {
    let r = AppArgs::parse(Variant::Interval, sv(&["-h"]));
    assert!(matches!(r, Resolution::Help));
}

#[test]
fn leftover_token_warns_but_succeeds() {
    let (with_stray, leftover) = resolved(Variant::OneShot, &["example.com", "stray"]);
    let (without, _) = resolved(Variant::OneShot, &["example.com"]);
    assert_eq!(leftover, vec!["stray".to_string()]);
    assert_eq!(with_stray.name, without.name);
    assert_eq!(with_stray.record_type, without.record_type);
    assert_eq!(with_stray.resolver, without.resolver);
    assert_eq!(with_stray.interval, without.interval);
}

#[test]
fn flags_are_taken_wherever_they_stand() {
    let (config, leftover) = resolved(Variant::OneShot, &["example.com", "-t", "SOA"]);
    assert!(matches!(config.record_type, RecordType::SOA));
    assert_eq!(config.name, "example.com.");
    assert!(leftover.is_empty());
}

#[test]
fn first_free_argument_is_the_name_even_if_dashed() {
    let (config, leftover) = resolved(Variant::OneShot, &["-x", "example.com"]);
    assert_eq!(config.name, "-x.");
    assert_eq!(leftover, vec!["example.com".to_string()]);
}

#[test]
fn missing_name_fails_in_one_shot() {
    let r = AppArgs::parse(Variant::OneShot, sv(&["-t", "SOA"]));
    match r {
        Resolution::Failed { error } => assert!(matches!(error, ParseError::MissingName)),
        other => panic!("expected the missing-name error, got {:?}", other),
    }
}

#[test]
fn malformed_record_type_is_an_error() {
    let r = AppArgs::parse(Variant::OneShot, sv(&["--record-type", "MX", "example.com"]));
    match r {
        Resolution::Failed { error } => match error {
            ParseError::InvalidOptionValue { key, value } => {
                assert_eq!(key, "--record-type");
                assert_eq!(value, "MX");
            },
            other => panic!("expected an invalid-value error, got {:?}", other),
        },
        other => panic!("expected a flag error, got {:?}", other),
    }
}

#[test]
fn record_type_flag_without_value_is_an_error() {
    let r = AppArgs::parse(Variant::OneShot, sv(&["example.com", "--record-type"]));
    match r {
        Resolution::Failed { error } => match error {
            ParseError::OptionWithoutAValue { key } => assert_eq!(key, "--record-type"),
            other => panic!("expected a value-less option error, got {:?}", other),
        },
        other => panic!("expected a flag error, got {:?}", other),
    }
}

#[test]
fn next_token_is_the_value_even_if_dashed() {
    let r = AppArgs::parse(Variant::OneShot, sv(&["--record-type", "-t", "example.com"]));
    match r {
        Resolution::Failed { error } => match error {
            ParseError::InvalidOptionValue { key, value } => {
                assert_eq!(key, "--record-type");
                assert_eq!(value, "-t");
            },
            other => panic!("expected an invalid-value error, got {:?}", other),
        },
        other => panic!("expected a flag error, got {:?}", other),
    }
}

#[test]
fn malformed_resolver_is_an_error() {
    let r = AppArgs::parse(Variant::OneShot, sv(&["-r", "dns.example:53", "example.com"]));
    match r {
        Resolution::Failed { error } => match error {
            ParseError::InvalidOptionValue { key, value } => {
                assert_eq!(key, "-r");
                assert_eq!(value, "dns.example:53");
            },
            other => panic!("expected an invalid-value error, got {:?}", other),
        },
        other => panic!("expected a flag error, got {:?}", other),
    }
}

#[test]
fn resolver_rejects_leading_zero_octets() {
    let r = AppArgs::parse(Variant::OneShot, sv(&["-r", "1.1.1.01:53", "example.com"]));
    assert!(matches!(r, Resolution::Failed { .. }));
}

#[test]
fn resolver_rejects_out_of_range_port() {
    let r = AppArgs::parse(Variant::OneShot, sv(&["-r", "1.1.1.1:65536", "example.com"]));
    assert!(matches!(r, Resolution::Failed { .. }));
}

#[test]
fn resolver_accepts_port_edge_values() {
    let (config, _) = resolved(Variant::OneShot, &["-r", "255.255.255.255:65535", "example.com"]);
    assert_eq!(
        config.resolver,
        ResolverAddr { o1: 255, o2: 255, o3: 255, o4: 255, port: 65535 }
    );
}

#[test]
fn repeated_flag_only_first_occurrence_is_consumed() {
    let (config, leftover) = resolved(
        Variant::OneShot,
        &["-t", "CNAME", "-t", "AAAA", "example.com"],
    );
    assert!(matches!(config.record_type, RecordType::CNAME));
    assert_eq!(config.name, "-t.");
    assert_eq!(leftover, vec!["AAAA".to_string(), "example.com".to_string()]);
}

#[test]
fn empty_name_becomes_a_single_dot() {
    let (config, _) = resolved(Variant::OneShot, &[""]);
    assert_eq!(config.name, ".");
}
