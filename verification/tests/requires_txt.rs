use pypi_requires::errors::ErrorKind;
use pypi_requires::parse_release::parse_requires_txt;
use pypi_requires::version_req::{CompareOp, ConstraintVersion, PackageVersionReq,
    VersionConstraint};

fn mk_constraint(s: &str) -> VersionConstraint {
    let digit_at = s.find(|c: char| c.is_ascii_digit()).unwrap();
    let (op_str, rest) = s.split_at(digit_at);
    let op = match op_str.trim() {
        "<" => CompareOp::Lt,
        "<=" => CompareOp::Le,
        ">" => CompareOp::Gt,
        ">=" => CompareOp::Ge,
        "=" => CompareOp::Exact,
        other => panic!("unexpected operator {other}"),
    };
    let mut parts = rest.trim().split('.');
    let major = parts.next().unwrap().parse().unwrap();
    let minor = parts.next().map(|p| p.parse().unwrap());
    let patch = parts.next().map(|p| p.parse().unwrap());
    VersionConstraint { op, version: ConstraintVersion { major, minor, patch } }
}

fn mk_version_req(name: &str, reqs: Vec<&str>) -> PackageVersionReq {
    PackageVersionReq::new(name.to_owned(), reqs.iter().map(|s| mk_constraint(s)).collect())
}

#[test]
fn parse_requests_requires_txt() {
    let requires_txt = "chardet>=3.0.2,<3.1.0
idna>=2.5,<2.6
urllib3>=1.21.1,<1.22
certifi>=2017.4.17

[security]
pyOpenSSL>=0.14";

    let version_reqs = parse_requires_txt(requires_txt).unwrap();

    assert_eq!(
        version_reqs,
        vec![
            mk_version_req("chardet", vec![">= 3.0.2", "< 3.1.0"]),
            mk_version_req("idna", vec![">= 2.5", "< 2.6"]),
            mk_version_req("urllib3", vec![">= 1.21.1", "< 1.22"]),
            mk_version_req("certifi", vec![">= 2017.4.17"]),
        ]
    )
}

#[test]
fn section_header_stops_parsing() {
    let text = "a>=1\n[security]\nb>=2\nc>=3";
    let reqs = parse_requires_txt(text).unwrap();
    assert_eq!(reqs, vec![mk_version_req("a", vec![">= 1"])]);
}

#[test]
fn blank_lines_are_skipped() {
    let text = "\n\na>=1\n\nb<2\n";
    let reqs = parse_requires_txt(text).unwrap();
    assert_eq!(
        reqs,
        vec![mk_version_req("a", vec![">= 1"]), mk_version_req("b", vec!["< 2"])]
    );
}

#[test]
fn leading_section_header_yields_nothing() {
    let reqs = parse_requires_txt("[extras]\na>=1").unwrap();
    assert_eq!(reqs, vec![]);

    let reqs = parse_requires_txt("").unwrap();
    assert_eq!(reqs, vec![]);
}

#[test]
fn malformed_line_fails_whole_parse() {
    let e = parse_requires_txt("good>=1\nbad<>2").unwrap_err();
    assert!(matches!(e.kind, ErrorKind::Deserialization(ref l) if l == "bad<>2"));

    let e = parse_requires_txt("good>=1\n???").unwrap_err();
    assert!(matches!(e.kind, ErrorKind::PackageNameRegexFailed(ref l) if l == "???"));
}
