use pypi_requires::pipfile::{git_editable_default, Lockfile, LockfileMeta, LockfileMetaHash,
    PackageInfo, Pipfile, Source};

#[test]
fn git_dependencies_are_not_editable_by_default() {
    assert_eq!(git_editable_default(), false);
}

#[test]
fn pipfile_holds_its_sections() {
    let pipfile = Pipfile {
        source: vec![Source { url: "https://pypi.python.org/simple".to_owned(), verify_ssl: true }],
        requires: vec![("python_version".to_owned(), "2.7".to_owned())],
        packages: vec![
            ("requests".to_owned(), PackageInfo::SimpleString("*".to_owned())),
            (
                "records".to_owned(),
                PackageInfo::Simple { version: ">0.5.0".to_owned(), hash: None },
            ),
            (
                "django".to_owned(),
                PackageInfo::Git {
                    git: "https://github.com/django/django.git".to_owned(),
                    ref_: "1.11.4".to_owned(),
                    editable: git_editable_default(),
                },
            ),
        ],
        dev_packages: None,
    };
    assert_eq!(pipfile.packages.len(), 3);
    assert!(matches!(
        pipfile.packages[2].1,
        PackageInfo::Git { ref editable, .. } if !editable
    ));
}

#[test]
fn lockfile_holds_its_metadata() {
    let lockfile = Lockfile {
        default: vec![(
            "requests".to_owned(),
            PackageInfo::Simple { version: "==2.18.4".to_owned(), hash: None },
        )],
        develop: vec![],
        meta: LockfileMeta {
            hash: LockfileMetaHash { sha256: "0a5b2c".to_owned() },
            requires: vec![],
            sources: vec![Source {
                url: "https://pypi.python.org/simple".to_owned(),
                verify_ssl: true,
            }],
        },
    };
    assert_eq!(lockfile.default.len(), 1);
    assert_eq!(lockfile.meta.sources.len(), 1);
}
