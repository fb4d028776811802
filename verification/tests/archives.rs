use std::io::Write;

use pypi_requires::errors::ErrorKind;
use pypi_requires::lookup::{on_artifact, LookupStep};
use pypi_requires::parse_release::{parse_release_requirements, ReleaseScan};
use pypi_requires::release::ReleaseType;

fn build_zip(entries: &[(&str, &[u8])]) -> Vec<u8> {
    let mut w = zip::ZipWriter::new(std::io::Cursor::new(Vec::new()));
    for (name, content) in entries {
        w.start_file(*name, zip::write::SimpleFileOptions::default()).unwrap();
        w.write_all(content).unwrap();
    }
    w.finish().unwrap().into_inner()
}

fn build_targz(entries: &[(&str, &[u8])]) -> Vec<u8> {
    let mut b = tar::Builder::new(Vec::new());
    for (name, content) in entries {
        let mut h = tar::Header::new_gnu();
        h.set_size(content.len() as u64);
        h.set_cksum();
        b.append_data(&mut h, *name, *content).unwrap();
    }
    let tar_bytes = b.into_inner().unwrap();
    let mut enc = flate2::write::GzEncoder::new(Vec::new(), flate2::Compression::default());
    enc.write_all(&tar_bytes).unwrap();
    enc.finish().unwrap()
}

#[test]
fn wheel_scan_returns_only_matching_entry() {
    let doc = br#"{"name": "demo"}"#;
    let bytes = build_zip(&[
        ("demo/README", b"readme text"),
        ("demo-1.0.dist-info/metadata.json", doc),
        ("demo/other.json", b"{}"),
    ]);
    match parse_release_requirements(&bytes, ReleaseType::BdistWheel).unwrap() {
        ReleaseScan::WheelDocument(content) => assert_eq!(content, doc.to_vec()),
        ReleaseScan::Requirements(_) => panic!("expected a wheel document"),
    }
}

#[test]
fn wheel_scan_without_match_fails_not_found() {
    let bytes = build_zip(&[("demo/README", b"x"), ("demo/metadata.txt", b"y")]);
    let e = parse_release_requirements(&bytes, ReleaseType::BdistWheel).unwrap_err();
    assert!(matches!(
        e.kind,
        ErrorKind::ArchiveFileNotFound(ref s) if s == ".dist-info/metadata.json"
    ));
}

#[test]
fn wheel_scan_rejects_malformed_archive() {
    let bytes = b"this is not a zip archive".to_vec();
    let e = parse_release_requirements(&bytes, ReleaseType::BdistWheel).unwrap_err();
    assert!(matches!(e.kind, ErrorKind::ArchiveFormat(_)));
}

#[test]
fn sdist_scan_parses_requires_txt() {
    let requires = b"chardet>=3.0.2,<3.1.0\nidna>=2.5\n\n[security]\npyOpenSSL>=0.14\n";
    let bytes = build_targz(&[
        ("demo-1.0/PKG-INFO", b"Metadata-Version: 1.1"),
        ("demo-1.0/demo.egg-info/requires.txt", requires),
    ]);
    match parse_release_requirements(&bytes, ReleaseType::Sdist).unwrap() {
        ReleaseScan::Requirements(reqs) => {
            assert_eq!(reqs.len(), 2);
            assert_eq!(reqs[0].describe(), "chardet (>= 3.0.2, < 3.1.0)");
            assert_eq!(reqs[1].describe(), "idna (>= 2.5)");
        },
        ReleaseScan::WheelDocument(_) => panic!("expected parsed requirements"),
    }
}

#[test]
fn sdist_scan_without_match_fails_not_found() {
    let bytes = build_targz(&[("demo-1.0/PKG-INFO", b"x")]);
    let e = parse_release_requirements(&bytes, ReleaseType::Sdist).unwrap_err();
    assert!(matches!(
        e.kind,
        ErrorKind::ArchiveFileNotFound(ref s) if s == ".egg-info/requires.txt"
    ));
}

#[test]
fn sdist_scan_rejects_malformed_gzip() {
    let bytes = b"garbage that is not gzip".to_vec();
    let e = parse_release_requirements(&bytes, ReleaseType::Sdist).unwrap_err();
    assert!(matches!(e.kind, ErrorKind::ArchiveFormat(_)));
}

#[test]
fn sdist_scan_rejects_invalid_utf8_requires() {
    let bytes = build_targz(&[("demo.egg-info/requires.txt", &[0xff, 0xfe, 0x80][..])]);
    let e = parse_release_requirements(&bytes, ReleaseType::Sdist).unwrap_err();
    assert!(matches!(e.kind, ErrorKind::Deserialization(_)));
}

#[test]
fn on_artifact_completes_sdist_lookup() {
    let bytes = build_targz(&[("demo.egg-info/requires.txt", &b"urllib3>=1.21.1,<1.22\n"[..])]);
    match on_artifact(ReleaseType::Sdist, &bytes) {
        LookupStep::Done { requires } => {
            assert_eq!(requires.len(), 1);
            assert_eq!(requires[0].describe(), "urllib3 (>= 1.21.1, < 1.22)");
        },
        _ => panic!("expected a completed lookup"),
    }
}

#[test]
fn on_artifact_hands_out_wheel_document() {
    let doc = br#"{"metadata_version": "2.0"}"#;
    let bytes = build_zip(&[("demo-1.0.dist-info/metadata.json", doc)]);
    match on_artifact(ReleaseType::BdistWheel, &bytes) {
        LookupStep::ParseWheelDocument { document } => assert_eq!(document, doc.to_vec()),
        _ => panic!("expected a wheel document step"),
    }
}
