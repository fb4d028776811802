use pypi_requires::errors::ErrorKind;
use pypi_requires::version_req::{CompareOp, ConstraintVersion, PackageVersionReq,
    VersionConstraint};

fn make_constraint(s: &str) -> VersionConstraint {
    let digit_at = s.find(|c: char| c.is_ascii_digit()).unwrap();
    let (op_str, rest) = s.split_at(digit_at);
    let op = match op_str.trim() {
        "<" => CompareOp::Lt,
        "<=" => CompareOp::Le,
        ">" => CompareOp::Gt,
        ">=" => CompareOp::Ge,
        "=" => CompareOp::Exact,
        other => panic!("unexpected operator {other}"),
    };
    let mut parts = rest.trim().split('.');
    let major = parts.next().unwrap().parse().unwrap();
    let minor = parts.next().map(|p| p.parse().unwrap());
    let patch = parts.next().map(|p| p.parse().unwrap());
    VersionConstraint { op, version: ConstraintVersion { major, minor, patch } }
}

fn make_version_req(name: &str, reqs: Vec<&str>) -> PackageVersionReq {
    PackageVersionReq::new(name.to_owned(), reqs.iter().map(|s| make_constraint(s)).collect())
}

#[test]
fn parse_simple_requires_txt_line() {
    let requires_txt_line = "chardet<3.1.0";

    let version_req = PackageVersionReq::parse_requires_txt_line(requires_txt_line).unwrap();

    assert_eq!(version_req, make_version_req("chardet", vec!["< 3.1.0"]));
}

#[test]
fn parse_requires_txt_range() {
    let requires_txt_line = "chardet>=3.0.2,<3.1.0";

    let version_req = PackageVersionReq::parse_requires_txt_line(requires_txt_line).unwrap();

    assert_eq!(version_req, make_version_req("chardet", vec![">= 3.0.2", "< 3.1.0"]));
}

#[test]
fn parse_major_only() {
    let requires_txt_line = "django<2";

    let version_req = PackageVersionReq::parse_requires_txt_line(requires_txt_line).unwrap();

    assert_eq!(version_req, make_version_req("django", vec!["< 2"]));
}

#[test]
fn parse_line_without_name_fails() {
    let e = PackageVersionReq::parse_requires_txt_line("*** !!!").unwrap_err();
    assert!(matches!(e.kind, ErrorKind::PackageNameRegexFailed(ref l) if l == "*** !!!"));
    assert!(e.cause.is_none());
}

#[test]
fn parse_line_with_invalid_operator_fails() {
    let e = PackageVersionReq::parse_requires_txt_line("chardet<>3.1").unwrap_err();
    assert!(matches!(e.kind, ErrorKind::Deserialization(ref l) if l == "chardet<>3.1"));

    let e = PackageVersionReq::parse_requires_txt_line("chardet==3.1").unwrap_err();
    assert!(matches!(e.kind, ErrorKind::Deserialization(ref l) if l == "chardet==3.1"));
}

#[test]
fn parse_line_with_oversized_component_fails() {
    let line = "pkg<99999999999999999999999";
    let e = PackageVersionReq::parse_requires_txt_line(line).unwrap_err();
    assert!(matches!(e.kind, ErrorKind::Deserialization(ref l) if l == line));
}

#[test]
fn parse_line_without_constraints() {
    let req = PackageVersionReq::parse_requires_txt_line("requests").unwrap();
    assert_eq!(req, make_version_req("requests", vec![]));
}

#[test]
fn parse_line_keeps_constraint_order() {
    let req = PackageVersionReq::parse_requires_txt_line("a>=1.2,<2,=1.5.7").unwrap();
    assert_eq!(req, make_version_req("a", vec![">= 1.2", "< 2", "= 1.5.7"]));
}

#[test]
fn describe_joins_constraints() {
    let req = PackageVersionReq::parse_requires_txt_line("chardet>=3.0.2,<3.1.0").unwrap();
    assert_eq!(req.describe(), "chardet (>= 3.0.2, < 3.1.0)");

    let req = PackageVersionReq::parse_requires_txt_line("django<2").unwrap();
    assert_eq!(req.describe(), "django (< 2)");

    let req = PackageVersionReq::parse_requires_txt_line("requests").unwrap();
    assert_eq!(req.describe(), "requests ()");
}
