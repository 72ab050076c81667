use filesup_update::order::{version_eq, version_lt_exec};
use filesup_update::version::{parse_version, Version};

fn v(s: &str) -> Version {
    parse_version(s).expect(s)
}

fn lib_lt(a: &str, b: &str) -> bool {
    version_lt_exec(&v(a), &v(b))
}

fn semver_lt(a: &str, b: &str) -> bool {
    semver::Version::parse(a).unwrap() < semver::Version::parse(b).unwrap()
}

#[test]
fn parses_plain_release() {
    let ver = v("1.2.3");
    assert_eq!(ver.major, 1);
    assert_eq!(ver.minor, 2);
    assert_eq!(ver.patch, 3);
    assert!(ver.pre.is_empty());
    assert_eq!(ver.raw, "1.2.3");
}

#[test]
fn parses_pre_release_identifiers() {
    let ver = v("1.0.0-alpha.1");
    assert_eq!(ver.major, 1);
    assert_eq!(ver.pre, vec!["alpha".to_string(), "1".to_string()]);
    assert_eq!(ver.raw, "1.0.0-alpha.1");
}

#[test]
fn parses_hyphenated_pre_release() {
    let ver = v("2.0.0-rc-2.x-y");
    assert_eq!(ver.pre, vec!["rc-2".to_string(), "x-y".to_string()]);
}

#[test]
fn rejects_malformed_versions() {
    for bad in [
        "", "1", "1.2", "1.2.3.4", "01.2.3", "1.02.3", "1.2.03", "1.2.3-", "1.2.3-a..b",
        "1.2.3-a.", "1.2.3-01", "v1.2.3", "1.2.3 ", "1.-2.3", "1.2.3-beta!",
    ] {
        assert!(parse_version(bad).is_none(), "accepted {:?}", bad);
    }
}

#[test]
fn numeric_components_use_machine_range() {
    let max = "18446744073709551615.0.0";
    let over = "18446744073709551616.0.0";
    assert_eq!(v(max).major, u64::MAX);
    assert!(parse_version(over).is_none());
    assert!(semver::Version::parse(max).is_ok());
    assert!(semver::Version::parse(over).is_err());
}

#[test]
fn ordering_matches_reference_semver() {
    let pairs = [
        ("1.0.0", "2.0.0"),
        ("1.0.0", "1.1.0"),
        ("1.9.0", "1.10.0"),
        ("1.0.0", "1.0.1"),
        ("1.0.0-alpha", "1.0.0"),
        ("1.0.0-alpha", "1.0.0-alpha.1"),
        ("1.0.0-alpha.1", "1.0.0-alpha.beta"),
        ("1.0.0-alpha.beta", "1.0.0-beta"),
        ("1.0.0-beta.2", "1.0.0-beta.11"),
        ("1.0.0-2", "1.0.0-10"),
        ("1.0.0-9", "1.0.0-a"),
        ("1.0.0-rc.1", "1.0.0"),
    ];
    for (a, b) in pairs {
        assert!(lib_lt(a, b), "{} < {}", a, b);
        assert!(!lib_lt(b, a), "!({} < {})", b, a);
        assert!(semver_lt(a, b), "semver disagrees on {} < {}", a, b);
    }
}

#[test]
fn equal_versions_are_not_ordered() {
    for s in ["1.0.0", "0.0.0", "1.0.0-alpha.1"] {
        assert!(!lib_lt(s, s));
        assert!(version_eq(&v(s), &v(s)));
    }
    assert!(!version_eq(&v("1.0.0"), &v("1.0.1")));
    assert!(!version_eq(&v("1.0.0-alpha"), &v("1.0.0")));
}
