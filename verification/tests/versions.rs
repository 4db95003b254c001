//! The semantic-version grammar.

use bindle::version::{parse_version, Version};

#[test]
fn parses_plain_triples() {
    assert_eq!(parse_version("1.2.3"), Some(Version { major: 1, minor: 2, patch: 3 }));
    assert_eq!(parse_version("0.0.0"), Some(Version { major: 0, minor: 0, patch: 0 }));
    assert_eq!(
        parse_version("10.200.3000"),
        Some(Version { major: 10, minor: 200, patch: 3000 }),
    );
}

#[test]
fn accepts_the_largest_component() {
    assert_eq!(
        parse_version("18446744073709551615.0.1"),
        Some(Version { major: u64::MAX, minor: 0, patch: 1 }),
    );
}

#[test]
fn rejects_overflowing_components() {
    assert_eq!(parse_version("18446744073709551616.0.0"), None);
    assert_eq!(parse_version("1.99999999999999999999.1"), None);
}

#[test]
fn rejects_malformed_shapes() {
    assert_eq!(parse_version(""), None);
    assert_eq!(parse_version("1"), None);
    assert_eq!(parse_version("1.2"), None);
    assert_eq!(parse_version("1.2.3.4"), None);
    assert_eq!(parse_version("1..3"), None);
    assert_eq!(parse_version(".2.3"), None);
    assert_eq!(parse_version("1.2."), None);
    assert_eq!(parse_version("a.b.c"), None);
    assert_eq!(parse_version("1.2.3-pre"), None);
    assert_eq!(parse_version(" 1.2.3"), None);
}

#[test]
fn rejects_leading_zeroes() {
    assert_eq!(parse_version("01.2.3"), None);
    assert_eq!(parse_version("1.02.3"), None);
    assert_eq!(parse_version("1.2.00"), None);
    assert_eq!(parse_version("0.2.3"), Some(Version { major: 0, minor: 2, patch: 3 }));
}
