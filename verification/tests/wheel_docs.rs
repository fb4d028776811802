use pypi_requires::errors::{Error, ErrorKind};
use pypi_requires::lookup::{on_metadata, on_wheel_document, LookupStep};
use pypi_requires::pypi::{PackageDownloads, PackageInfo, PypiPackage, ReleaseMetadata};
use pypi_requires::release::{is_wheel_schema_key, validate_wheel_schema_keys, ReleaseType,
    WheelMetadata, WheelMetadataVersion, WheelRequiresGroup};

fn meta(run_requires: Vec<WheelRequiresGroup>) -> WheelMetadata {
    WheelMetadata {
        keywords: vec![],
        classifiers: vec![],
        extensions: vec![],
        extras: vec![],
        generator: "bdist_wheel".to_owned(),
        license: None,
        metadata_version: WheelMetadataVersion::V2_0,
        name: "demo".to_owned(),
        requires: None,
        run_requires,
        test_requires: vec![],
        summary: String::new(),
        version: "1.0.0".to_owned(),
        download_url: None,
        platform: None,
        provides: None,
    }
}

fn group(
    extra: Option<&str>,
    environment: Option<&str>,
    requires: Vec<&str>,
) -> WheelRequiresGroup {
    WheelRequiresGroup {
        extra: extra.map(|s| s.to_owned()),
        environment: environment.map(|s| s.to_owned()),
        requires: requires.iter().map(|s| (*s).to_owned()).collect(),
    }
}

#[test]
fn to_version_reqs_keeps_only_unconditional_groups() {
    let m = meta(vec![
        group(None, None, vec!["chardet>=3.0.2,<3.1.0"]),
        group(Some("security"), None, vec!["pyOpenSSL>=0.14"]),
        group(None, Some("python_version=='2.6'"), vec!["argparse>=1"]),
        group(None, None, vec!["idna>=2.5,<2.6"]),
    ]);
    let reqs = m.to_version_reqs().unwrap();
    assert_eq!(reqs.len(), 2);
    assert_eq!(reqs[0].describe(), "chardet (>= 3.0.2, < 3.1.0)");
    assert_eq!(reqs[1].describe(), "idna (>= 2.5, < 2.6)");
}

#[test]
fn to_version_reqs_fails_on_malformed_requirement() {
    let m = meta(vec![group(None, None, vec!["***"])]);
    let e = m.to_version_reqs().unwrap_err();
    assert!(matches!(e.kind, ErrorKind::PackageNameRegexFailed(ref l) if l == "***"));
}

#[test]
fn wheel_schema_accepts_known_keys() {
    let keys: Vec<String> = [
        "keywords", "classifiers", "extensions", "extras", "generator", "license",
        "metadata_version", "name", "requires", "run_requires", "test_requires", "summary",
        "version", "download_url", "platform", "provides",
    ]
    .iter()
    .map(|s| (*s).to_owned())
    .collect();
    assert!(validate_wheel_schema_keys(&keys).is_ok());
}

#[test]
fn wheel_schema_rejects_unknown_key_entirely() {
    let keys: Vec<String> = ["name", "version", "description", "summary"]
        .iter()
        .map(|s| (*s).to_owned())
        .collect();
    let e = validate_wheel_schema_keys(&keys).unwrap_err();
    assert!(matches!(e.kind, ErrorKind::Deserialization(ref k) if k == "description"));
    assert!(!is_wheel_schema_key("description"));
    assert!(is_wheel_schema_key("metadata_version"));
}

#[test]
fn on_wheel_document_extracts_requirements() {
    let m = meta(vec![group(None, None, vec!["certifi>=2017.4.17"])]);
    match on_wheel_document(&m) {
        LookupStep::Done { requires } => {
            assert_eq!(requires.len(), 1);
            assert_eq!(requires[0].describe(), "certifi (>= 2017.4.17)");
        },
        _ => panic!("expected a completed lookup"),
    }
}

fn art(kind: ReleaseType, url: &str) -> ReleaseMetadata {
    ReleaseMetadata {
        has_sig: false,
        upload_time: String::new(),
        comment_text: String::new(),
        python_version: String::new(),
        url: url.to_owned(),
        md5_digest: String::new(),
        downloads: 0,
        filename: String::new(),
        package_type: kind,
        path: String::new(),
        size: 0,
    }
}

fn pkg(releases: Vec<(String, Vec<ReleaseMetadata>)>) -> PypiPackage {
    PypiPackage {
        info: PackageInfo {
            maintainer: None,
            docs_url: None,
            requires_python: None,
            maintainer_email: None,
            keywords: None,
            package_url: String::new(),
            author: String::new(),
            author_email: String::new(),
            download_url: None,
            platform: String::new(),
            version: String::new(),
            description: String::new(),
            release_url: String::new(),
            downloads: PackageDownloads { last_month: 0, last_week: 0, last_day: 0 },
            requires_dist: vec![],
            classifiers: vec![],
            name: "demo".to_owned(),
            bugtrack_url: None,
            license: None,
            summary: String::new(),
            home_page: String::new(),
        },
        releases,
        urls: vec![],
    }
}

#[test]
fn on_metadata_plans_wheel_fetch_for_latest() {
    let p = pkg(vec![
        ("1.0.0".to_owned(), vec![art(ReleaseType::Sdist, "old.tar.gz")]),
        (
            "2.0.0".to_owned(),
            vec![
                art(ReleaseType::Sdist, "new.tar.gz"),
                art(ReleaseType::BdistWheel, "new.whl"),
            ],
        ),
    ]);
    match on_metadata(&p) {
        LookupStep::FetchArtifact { url, release_type } => {
            assert_eq!(url, "new.whl");
            assert_eq!(release_type, ReleaseType::BdistWheel);
        },
        _ => panic!("expected a fetch step"),
    }
}

#[test]
fn on_metadata_fails_without_releases() {
    let p = pkg(vec![]);
    match on_metadata(&p) {
        LookupStep::Failed { error } => {
            assert!(matches!(
                error.kind,
                ErrorKind::PackageHasNoReleasedVersions(ref n) if n == "demo"
            ));
        },
        _ => panic!("expected a failed lookup"),
    }
}

#[test]
fn error_cause_chain_is_kept() {
    let inner = Error::new(ErrorKind::Transport("connection reset".to_owned()));
    let outer = Error::with_cause(
        ErrorKind::PackageHasNoReleasedVersions("demo".to_owned()),
        inner,
    );
    assert!(matches!(outer.kind, ErrorKind::PackageHasNoReleasedVersions(ref n) if n == "demo"));
    let cause = outer.cause.expect("cause expected");
    assert!(matches!(cause.kind, ErrorKind::Transport(ref m) if m == "connection reset"));
    assert!(cause.cause.is_none());
}
