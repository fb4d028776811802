use pypi_requires::errors::ErrorKind;
use pypi_requires::version::{normalize_and_parse_version_string, normalize_version_string,
    u64_to_string, Version};

#[test]
fn fix_leading_zero() {
    let version = "1.01.0";

    let fixed = normalize_version_string(version).unwrap();

    assert_eq!(fixed, "1.1.0");
}

#[test]
fn fix_missing_patch() {
    let version = "3.2";

    let fixed = normalize_version_string(version).unwrap();

    assert_eq!(fixed, "3.2.0");
}

#[test]
fn fix_missing_minor() {
    let version = "5";

    let fixed = normalize_version_string(version).unwrap();

    assert_eq!(fixed, "5.0.0");
}

#[test]
fn normalize_leading_zero_version() {
    let v = normalize_and_parse_version_string("1.01.0").unwrap();
    assert_eq!(v, Version { major: 1, minor: 1, patch: 0 });
}

#[test]
fn normalize_missing_patch_version() {
    let v = normalize_and_parse_version_string("3.2").unwrap();
    assert_eq!(v, Version { major: 3, minor: 2, patch: 0 });
}

#[test]
fn normalize_major_only_version() {
    let v = normalize_and_parse_version_string("5").unwrap();
    assert_eq!(v, Version { major: 5, minor: 0, patch: 0 });
}

#[test]
fn normalize_is_idempotent_on_own_output() {
    for raw in ["1.01.0", "3.2", "5", "2.7.13", "0.4a1", "99999.1.2", "2017.4.17"] {
        let v = normalize_and_parse_version_string(raw).unwrap();
        let rendered = v.to_version_string();
        let again = normalize_and_parse_version_string(&rendered).unwrap();
        assert_eq!(again, v);
        assert_eq!(again.to_version_string(), rendered);
    }
}

#[test]
fn normalize_uses_strict_parse_first() {
    // The loose pattern would default an oversized first component to zero;
    // strict semantic-version parsing keeps it.
    let v = normalize_and_parse_version_string("99999.1.2").unwrap();
    assert_eq!(v, Version { major: 99999, minor: 1, patch: 2 });
}

#[test]
fn normalize_discards_trailing_suffix() {
    let v = normalize_and_parse_version_string("0.4a1").unwrap();
    assert_eq!(v, Version { major: 0, minor: 4, patch: 0 });

    let v = normalize_and_parse_version_string("1.2.3-alpha.1+build").unwrap();
    assert_eq!(v, Version { major: 1, minor: 2, patch: 3 });
}

#[test]
fn normalize_defaults_oversized_loose_component() {
    // A loose component that does not fit sixteen bits reads as zero.
    let v = normalize_and_parse_version_string("70000").unwrap();
    assert_eq!(v, Version { major: 0, minor: 0, patch: 0 });
}

#[test]
fn normalize_rejects_non_numeric_prefix() {
    let e = normalize_and_parse_version_string("abc").unwrap_err();
    assert!(matches!(e.kind, ErrorKind::NormalizeVersionStringRegexFailed(ref s) if s == "abc"));
    assert!(e.cause.is_none());

    let e = normalize_and_parse_version_string("v1.0").unwrap_err();
    assert!(matches!(e.kind, ErrorKind::NormalizeVersionStringRegexFailed(ref s) if s == "v1.0"));

    let e = normalize_version_string("").unwrap_err();
    assert!(matches!(e.kind, ErrorKind::NormalizeVersionStringRegexFailed(ref s) if s.is_empty()));
}

#[test]
fn version_renders_canonically() {
    assert_eq!(Version { major: 0, minor: 0, patch: 0 }.to_version_string(), "0.0.0");
    assert_eq!(Version { major: 10, minor: 20, patch: 3 }.to_version_string(), "10.20.3");
    assert_eq!(u64_to_string(0), "0");
    assert_eq!(u64_to_string(18446744073709551615), "18446744073709551615");
}

#[test]
fn version_order_is_lexicographic() {
    let a = Version { major: 1, minor: 9, patch: 9 };
    let b = Version { major: 2, minor: 0, patch: 0 };
    let c = Version { major: 2, minor: 0, patch: 1 };
    assert!(a.le(&b));
    assert!(b.le(&c));
    assert!(!c.le(&b));
    assert!(a.le(&a));
}
