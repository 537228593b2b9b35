//! Tests of the catalog model, its serialization, and version handling.

use volta_core::serial;
use volta_core::version::Version;
use volta_core::fail::ErrorDetails;

fn serial_node(current: Option<&str>, versions: &[&str]) -> serial::NodeCatalog {
    serial::NodeCatalog {
        current: current.map(|s| s.to_string()),
        versions: versions.iter().map(|s| s.to_string()).collect(),
    }
}

fn serial_catalog(current: Option<&str>, versions: &[&str]) -> serial::Catalog {
    serial::Catalog { node: serial_node(current, versions) }
}

fn roundtrip(current: Option<&str>, versions: &[&str]) -> serial::Catalog {
    serial_catalog(current, versions)
        .into_catalog()
        .expect("catalog should parse")
        .to_serial()
}

#[test]
fn parse_then_serialize_sorts_and_dedups() {
    let out = roundtrip(
        None,
        &["2.0.0", "1.0.0", "1.0.0", "1.5.3-alpha.2", "1.5.3", "2.0.0"],
    );
    assert_eq!(
        out.node.versions,
        vec!["1.0.0", "1.5.3-alpha.2", "1.5.3", "2.0.0"]
    );
    assert!(out.node.current.is_none());
}

#[test]
fn parse_then_serialize_orders_by_precedence() {
    // The precedence chain from the semantic-versioning specification.
    let out = roundtrip(
        None,
        &[
            "1.0.0",
            "1.0.0-rc.1",
            "1.0.0-beta.11",
            "1.0.0-beta.2",
            "1.0.0-beta",
            "1.0.0-alpha.beta",
            "1.0.0-alpha.1",
            "1.0.0-alpha",
        ],
    );
    assert_eq!(
        out.node.versions,
        vec![
            "1.0.0-alpha",
            "1.0.0-alpha.1",
            "1.0.0-alpha.beta",
            "1.0.0-beta",
            "1.0.0-beta.2",
            "1.0.0-beta.11",
            "1.0.0-rc.1",
            "1.0.0",
        ]
    );
}

#[test]
fn duplicates_up_to_build_metadata_keep_first() {
    let out = roundtrip(None, &["1.0.0+first", "1.0.0+second", "1.0.0"]);
    assert_eq!(out.node.versions, vec!["1.0.0+first"]);
}

#[test]
fn one_round_trip_reaches_a_fixed_point() {
    let first = roundtrip(
        Some("2.0.0"),
        &["2.0.0", "1.0.0-beta.11", "1.0.0-beta.2", "1.0.0-beta.2", "1.0.0"],
    );
    let again = first
        .into_catalog()
        .expect("normalized output must parse")
        .to_serial();
    assert_eq!(again.node.current.as_deref(), Some("2.0.0"));
    assert_eq!(
        again.node.versions,
        vec!["1.0.0-beta.2", "1.0.0-beta.11", "1.0.0", "2.0.0"]
    );
}

#[test]
fn current_is_parsed_and_rendered() {
    let out = roundtrip(Some("4.1.0"), &["4.1.0", "3.9.9"]);
    assert_eq!(out.node.current.as_deref(), Some("4.1.0"));
    assert_eq!(out.node.versions, vec!["3.9.9", "4.1.0"]);
}

#[test]
fn current_need_not_be_installed() {
    let out = roundtrip(Some("9.9.9"), &["1.0.0"]);
    assert_eq!(out.node.current.as_deref(), Some("9.9.9"));
    assert_eq!(out.node.versions, vec!["1.0.0"]);
}

#[test]
fn malformed_version_fails_whole_parse() {
    let r = serial_catalog(None, &["1.0.0", "not-a-version", "2.0.0"]).into_catalog();
    let e = r.err().expect("parse must fail");
    assert!(matches!(e.details, ErrorDetails::VersionParseError { .. }));
    assert_eq!(e.exit_code().code(), 4);
}

#[test]
fn malformed_current_fails_whole_parse() {
    let r = serial_catalog(Some(""), &["1.0.0"]).into_catalog();
    let e = r.err().expect("parse must fail");
    assert!(matches!(e.details, ErrorDetails::VersionParseError { .. }));
    assert!(!e.message().is_empty());
}

#[test]
fn absent_node_section_is_empty_catalog() {
    let raw = serial::Catalog { node: serial::NodeCatalog::default() };
    let c = raw.into_catalog().expect("an absent section is not an error");
    assert!(c.node.current.is_none());
    assert!(c.node.versions.is_empty());
}

#[test]
fn version_parse_reads_all_parts() {
    let v = Version::parse("10.20.30-alpha.5+build.7").expect("must parse");
    assert_eq!(v.major, 10);
    assert_eq!(v.minor, 20);
    assert_eq!(v.patch, 30);
    assert_eq!(v.pre.len(), 2);
    assert_eq!(v.build.len(), 2);
    assert_eq!(v.text(), "10.20.30-alpha.5+build.7");
}

#[test]
fn version_parse_rejects_leading_zeroes() {
    assert!(Version::parse("01.2.3").is_err());
}

#[test]
fn version_parse_rejects_incomplete() {
    assert!(Version::parse("1.2").is_err());
    assert!(Version::parse("").is_err());
}

#[test]
fn version_order_follows_precedence() {
    let a = Version::parse("1.0.0-alpha").unwrap();
    let b = Version::parse("1.0.0-alpha.1").unwrap();
    let c = Version::parse("1.0.0").unwrap();
    let d = Version::parse("1.0.1").unwrap();
    assert!(a.lt(&b));
    assert!(b.lt(&c));
    assert!(c.lt(&d));
    assert!(!d.lt(&c));
    assert!(!c.lt(&c));
}

#[test]
fn version_order_ignores_build_metadata() {
    let a = Version::parse("1.0.0+one").unwrap();
    let b = Version::parse("1.0.0+two").unwrap();
    assert!(!a.lt(&b));
    assert!(!b.lt(&a));
}

#[test]
fn version_text_renders_numeric_identifiers() {
    let v = Version::parse("0.0.0-0.10.200").unwrap();
    assert_eq!(v.text(), "0.0.0-0.10.200");
}
