use pypi_requires::errors::ErrorKind;
use pypi_requires::pypi::{PackageDownloads, PackageInfo, PypiPackage, ReleaseMetadata};
use pypi_requires::release::ReleaseType;
use pypi_requires::version::Version;

fn info(name: &str) -> PackageInfo {
    PackageInfo {
        maintainer: None,
        docs_url: None,
        requires_python: None,
        maintainer_email: None,
        keywords: None,
        package_url: String::new(),
        author: String::new(),
        author_email: String::new(),
        download_url: None,
        platform: String::new(),
        version: String::new(),
        description: String::new(),
        release_url: String::new(),
        downloads: PackageDownloads { last_month: 0, last_week: 0, last_day: 0 },
        requires_dist: vec![],
        classifiers: vec![],
        name: name.to_owned(),
        bugtrack_url: None,
        license: None,
        summary: String::new(),
        home_page: String::new(),
    }
}

fn art(kind: ReleaseType, url: &str) -> ReleaseMetadata {
    ReleaseMetadata {
        has_sig: false,
        upload_time: String::new(),
        comment_text: String::new(),
        python_version: String::new(),
        url: url.to_owned(),
        md5_digest: String::new(),
        downloads: 0,
        filename: String::new(),
        package_type: kind,
        path: String::new(),
        size: 0,
    }
}

fn pkg(releases: Vec<(String, Vec<ReleaseMetadata>)>) -> PypiPackage {
    PypiPackage { info: info("demo"), releases, urls: vec![] }
}

#[test]
fn package_name_accessor() {
    let p = pkg(vec![]);
    assert_eq!(p.name(), "demo");
}

#[test]
fn latest_version_is_maximum() {
    let p = pkg(vec![
        ("1.0.0".to_owned(), vec![]),
        ("2.0.0".to_owned(), vec![]),
        ("0.9.1".to_owned(), vec![]),
    ]);
    assert_eq!(p.latest_version().unwrap(), Version { major: 2, minor: 0, patch: 0 });
}

#[test]
fn latest_version_normalizes_loose_tags() {
    let p = pkg(vec![
        ("1.01.0".to_owned(), vec![]),
        ("1.2".to_owned(), vec![]),
    ]);
    assert_eq!(p.latest_version().unwrap(), Version { major: 1, minor: 2, patch: 0 });
}

#[test]
fn latest_version_fails_on_empty_index() {
    let p = pkg(vec![]);
    let e = p.latest_version().unwrap_err();
    assert!(matches!(e.kind, ErrorKind::PackageHasNoReleasedVersions(ref n) if n == "demo"));
    assert!(e.cause.is_none());
}

#[test]
fn latest_version_chains_normalization_failure() {
    let p = pkg(vec![("???".to_owned(), vec![])]);
    let e = p.latest_version().unwrap_err();
    assert!(matches!(e.kind, ErrorKind::PackageHasNoReleasedVersions(ref n) if n == "demo"));
    let cause = e.cause.expect("cause expected");
    assert!(matches!(
        cause.kind,
        ErrorKind::NormalizeVersionStringRegexFailed(ref t) if t == "???"
    ));
}

#[test]
fn releases_fails_fast_on_bad_tag() {
    let p = pkg(vec![("1.0.0".to_owned(), vec![]), ("bad".to_owned(), vec![])]);
    let e = p.releases().unwrap_err();
    assert!(matches!(e.kind, ErrorKind::NormalizeVersionStringRegexFailed(ref t) if t == "bad"));
}

#[test]
fn selection_prefers_wheel_over_sdist() {
    let v = Version { major: 1, minor: 0, patch: 0 };
    let p = pkg(vec![(
        "1.0.0".to_owned(),
        vec![
            art(ReleaseType::Sdist, "https://example.invalid/demo.tar.gz"),
            art(ReleaseType::BdistWheel, "https://example.invalid/demo.whl"),
        ],
    )]);
    let m = p.get_requires_for_version(&v).unwrap();
    assert_eq!(m.package_type, ReleaseType::BdistWheel);
    assert_eq!(m.url, "https://example.invalid/demo.whl");
}

#[test]
fn selection_uses_sdist_when_no_wheel() {
    let v = Version { major: 1, minor: 0, patch: 0 };
    let p = pkg(vec![(
        "1.0.0".to_owned(),
        vec![
            art(ReleaseType::BdistEgg, "https://example.invalid/demo.egg"),
            art(ReleaseType::Sdist, "https://example.invalid/demo.tar.gz"),
        ],
    )]);
    let m = p.get_requires_for_version(&v).unwrap();
    assert_eq!(m.package_type, ReleaseType::Sdist);
    assert_eq!(m.url, "https://example.invalid/demo.tar.gz");
}

#[test]
fn absent_version_fails_with_version_doesnt_exist() {
    let v = Version { major: 9, minor: 9, patch: 9 };
    let p = pkg(vec![("1.0.0".to_owned(), vec![art(ReleaseType::Sdist, "u")])]);
    let e = p.get_requires_for_version(&v).unwrap_err();
    assert!(matches!(
        e.kind,
        ErrorKind::VersionDoesntExist(ref n, ref vv)
            if n == "demo" && *vv == Version { major: 9, minor: 9, patch: 9 }
    ));
}

#[test]
fn version_without_selectable_kind_fails_with_no_release() {
    let v = Version { major: 1, minor: 0, patch: 0 };
    let p = pkg(vec![(
        "1.0.0".to_owned(),
        vec![
            art(ReleaseType::BdistEgg, "a"),
            art(ReleaseType::BdistDumb, "b"),
            art(ReleaseType::BdistWininst, "c"),
        ],
    )]);
    let e = p.get_requires_for_version(&v).unwrap_err();
    assert!(matches!(
        e.kind,
        ErrorKind::NoReleaseForVersion(ref n, ref vv)
            if n == "demo" && *vv == Version { major: 1, minor: 0, patch: 0 }
    ));
}

#[test]
fn colliding_tags_keep_earliest_entry() {
    // "1.0" and "1.0.0" normalize to the same version; the earlier raw
    // entry's artifacts win.
    let v = Version { major: 1, minor: 0, patch: 0 };
    let p = pkg(vec![
        ("1.0".to_owned(), vec![art(ReleaseType::Sdist, "first")]),
        ("1.0.0".to_owned(), vec![art(ReleaseType::Sdist, "second")]),
    ]);
    let m = p.get_requires_for_version(&v).unwrap();
    assert_eq!(m.url, "first");

    let idx = p.releases().unwrap();
    assert_eq!(idx.entries.len(), 1);
    let arts = idx.artifacts_for(&v).unwrap();
    assert_eq!(arts.len(), 1);
    assert_eq!(arts[0].url, "first");
}

#[test]
fn selection_picks_first_artifact_of_kind() {
    let v = Version { major: 1, minor: 0, patch: 0 };
    let p = pkg(vec![(
        "1.0.0".to_owned(),
        vec![
            art(ReleaseType::BdistWheel, "w1"),
            art(ReleaseType::BdistWheel, "w2"),
        ],
    )]);
    let m = p.get_requires_for_version(&v).unwrap();
    assert_eq!(m.url, "w1");
}
