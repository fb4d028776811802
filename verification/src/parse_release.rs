//! Legacy requirement text and the per-kind dispatch of a fetched
//! release artifact.

use vstd::prelude::*;
use vstd::utf8::{decode_utf8, valid_utf8};

use crate::archive::{scan_sdist_archive, scan_wheel_archive, sdist_requires_suffix,
    spec_sdist_scan, spec_wheel_scan, wheel_metadata_suffix, ScanFailure};
use crate::errors::{Error, ErrorKind};
use crate::release::ReleaseType;
use crate::version_req::{reqs_models, spec_parse_line, LineError, PackageVersionReq,
    VersionConstraint};

verus! {

// ---------------------------------------------------------------------------
// Legacy requirement text
// ---------------------------------------------------------------------------

/// The index of the first newline at or after `i`, or the end of `s`.
pub open spec fn find_newline(s: Seq<char>, i: int) -> int
    decreases s.len() - i,
    when 0 <= i
{
    if i >= s.len() {
        s.len() as int
    } else if s[i] == '\n' {
        i
    } else {
        find_newline(s, i + 1)
    }
}

/// The first newline at or after `i` is within bounds, is a newline when
/// inside the string, and nothing before it is one.
pub proof fn lemma_find_newline(s: Seq<char>, i: int)
    requires
        0 <= i <= s.len(),
    ensures
        i <= find_newline(s, i) <= s.len(),
        find_newline(s, i) < s.len() ==> s[find_newline(s, i)] == '\n',
        forall|k: int| i <= k < find_newline(s, i) ==> s[k] != '\n',
    decreases s.len() - i,
{
    if i < s.len() && s[i] != '\n' {
        lemma_find_newline(s, i + 1);
    }
}

/// A position `e` with no newline before it and a newline (or the end) at
/// it is exactly the first newline position.
pub proof fn lemma_find_newline_unique(s: Seq<char>, i: int, e: int)
    requires
        0 <= i <= e <= s.len(),
        forall|k: int| i <= k < e ==> s[k] != '\n',
        e < s.len() ==> s[e] == '\n',
    ensures
        find_newline(s, i) == e,
    decreases e - i,
{
    if i < e {
        assert(s[i] != '\n');
        lemma_find_newline_unique(s, i + 1, e);
    }
}

/// Parses legacy requirement text from position `i` on: lines are
/// separated by newlines, blank lines are skipped, and the first line
/// beginning with `[` ends the parse, everything after it being ignored.
/// Every other line is parsed as a requirement line; the first failing
/// line fails the whole parse.
pub open spec fn spec_parse_requires_from(s: Seq<char>, i: int) -> Result<
    Seq<(Seq<char>, Seq<VersionConstraint>)>,
    (Seq<char>, LineError),
>
    decreases s.len() + 1 - i,
    when 0 <= i
    via spec_parse_requires_from_decreases
{
    if i >= s.len() {
        Ok(seq![])
    } else {
        let e = find_newline(s, i);
        let line = s.subrange(i, e);
        if line.len() == 0 {
            spec_parse_requires_from(s, e + 1)
        } else if line[0] == '[' {
            Ok(seq![])
        } else {
            match spec_parse_line(line) {
                Err(err) => Err((line, err)),
                Ok(m) => match spec_parse_requires_from(s, e + 1) {
                    Err(err) => Err(err),
                    Ok(rest) => Ok(seq![m] + rest),
                },
            }
        }
    }
}

#[via_fn]
proof fn spec_parse_requires_from_decreases(s: Seq<char>, i: int) {
    if i < s.len() {
        lemma_find_newline(s, i);
    }
}

/// What legacy requirement text parses to: only the non-blank lines before
/// the first `[`-headed section line are consumed.
pub open spec fn spec_parse_requires(s: Seq<char>) -> Result<
    Seq<(Seq<char>, Seq<VersionConstraint>)>,
    (Seq<char>, LineError),
> {
    spec_parse_requires_from(s, 0)
}

/// The index of the first newline at or after `start`, or the end.
fn newline_end(s: &str, start: usize) -> (r: usize)
    requires
        start <= s@.len(),
    ensures
        start <= r <= s@.len(),
        r == find_newline(s@, start as int),
{
    let n = s.unicode_len();
    let mut i = start;
    loop
        invariant
            start <= i <= n,
            n == s@.len(),
            forall|k: int| start <= k < i ==> s@[k] != '\n',
        ensures
            start <= i <= n,
            forall|k: int| start <= k < i ==> s@[k] != '\n',
            i == n || s@[i as int] == '\n',
        decreases n - i,
    {
        if i >= n {
            break;
        }
        if s.get_char(i) == '\n' {
            break;
        }
        i = i + 1;
    }
    proof {
        lemma_find_newline_unique(s@, start as int, i as int);
    }
    i
}

/// Parses legacy requirement text: blank lines are skipped, parsing stops
/// permanently at the first line beginning with `[`, and every remaining
/// line yields one requirement.  The first malformed line fails the whole
/// parse.
pub fn parse_requires_txt(text: &str) -> (r: Result<Vec<PackageVersionReq>, Error>)
    ensures
        match spec_parse_requires(text@) {
            Ok(ms) => r matches Ok(v) && reqs_models(v@) == ms,
            Err((line, LineError::NoName)) => r matches Err(e) && (e.cause is None) && (
            e.kind matches ErrorKind::PackageNameRegexFailed(l) && l@ == line),
            Err((line, LineError::BadConstraint)) => r matches Err(e) && (e.cause is None) && (
            e.kind matches ErrorKind::Deserialization(l) && l@ == line),
        },
{
    let n = text.unicode_len();
    let mut acc: Vec<PackageVersionReq> = Vec::new();
    let mut i: usize = 0;
    proof {
        match spec_parse_requires_from(text@, 0) {
            Ok(ms) => {
                assert(reqs_models(acc@) + ms =~= ms);
                assert(reqs_models(acc@) =~= Seq::<(Seq<char>, Seq<VersionConstraint>)>::empty());
            },
            Err(e) => {},
        }
    }
    while i < n
        invariant
            0 <= i <= n,
            n == text@.len(),
            spec_parse_requires(text@) == (match spec_parse_requires_from(text@, i as int) {
                Err(e) => Err::<Seq<(Seq<char>, Seq<VersionConstraint>)>, (Seq<char>, LineError)>(
                    e,
                ),
                Ok(rest) => Ok(reqs_models(acc@) + rest),
            }),
        ensures
            spec_parse_requires(text@) == Ok::<
                Seq<(Seq<char>, Seq<VersionConstraint>)>,
                (Seq<char>, LineError),
            >(reqs_models(acc@)),
        decreases n - i,
    {
        let e = newline_end(text, i);
        let ghost line = text@.subrange(i as int, e as int);
        let next: usize = if e == n {
            n
        } else {
            e + 1
        };
        if e == i {
            // blank line
            i = next;
        } else {
            let line_str = text.substring_char(i, e);
            if line_str.get_char(0) == '[' {
                proof {
                    match spec_parse_requires_from(text@, i as int) {
                        Ok(rest) => {
                            assert(reqs_models(acc@) + rest =~= reqs_models(acc@));
                        },
                        Err(err) => {
                            assert(false);
                        },
                    }
                }
                return Ok(acc);
            }
            match PackageVersionReq::parse_requires_txt_line(line_str) {
                Ok(req) => {
                    let ghost old_acc = acc@;
                    acc.push(req);
                    proof {
                        assert(reqs_models(acc@) =~= reqs_models(old_acc).push(
                            (req.package_name@, req.version_reqs@),
                        ));
                        match spec_parse_requires_from(text@, e + 1) {
                            Err(err) => {},
                            Ok(rest) => {
                                assert(reqs_models(old_acc) + (seq![
                                    (req.package_name@, req.version_reqs@),
                                ] + rest) =~= reqs_models(acc@) + rest);
                            },
                        }
                    }
                    i = next;
                },
                Err(err) => {
                    proof {
                        match spec_parse_line(line) {
                            Err(le) => {},
                            Ok(m) => {
                                assert(false);
                            },
                        }
                    }
                    return Err(err);
                },
            }
        }
    }
    Ok(acc)
}

// ---------------------------------------------------------------------------
// Release artifact dispatch
// ---------------------------------------------------------------------------

/// What inspecting a release artifact yields: the requirements themselves
/// for a source distribution, and the raw metadata document of a wheel,
/// which still needs structured deserialization.
#[derive(Debug)]
pub enum ReleaseScan {
    Requirements(Vec<PackageVersionReq>),
    WheelDocument(Vec<u8>),
}

/// What a successful wheel inspection hands on: the scan's pinned result,
/// the bytes of the first entry matching the wheel metadata suffix.
pub open spec fn spec_wheel_outcome_ok(bytes: Seq<u8>, doc: Seq<u8>) -> bool {
    spec_wheel_scan(bytes) == Ok::<Seq<u8>, ScanFailure>(doc)
}

/// The ways wheel inspection fails, each pinned to the scan's outcome: an
/// unreadable archive or touched entry, or no entry matching the wheel
/// metadata suffix.
pub open spec fn spec_wheel_outcome_err(bytes: Seq<u8>, e: Error) -> bool {
    (e.cause is None) && match e.kind {
        ErrorKind::ArchiveFormat(_) => spec_wheel_scan(bytes) == Err::<Seq<u8>, ScanFailure>(
            ScanFailure::Container,
        ) || spec_wheel_scan(bytes) == Err::<Seq<u8>, ScanFailure>(ScanFailure::EntryRead),
        ErrorKind::ArchiveFileNotFound(s) => s@ == wheel_metadata_suffix() && spec_wheel_scan(
            bytes,
        ) == Err::<Seq<u8>, ScanFailure>(ScanFailure::NotFound),
        _ => false,
    }
}

/// What a successful source-distribution inspection yields: the parse of
/// the UTF-8 text of the first entry matching the legacy requirement
/// suffix, which the scan pins.
pub open spec fn spec_sdist_outcome_ok(
    bytes: Seq<u8>,
    ms: Seq<(Seq<char>, Seq<VersionConstraint>)>,
) -> bool {
    spec_sdist_scan(bytes) matches Ok(c) && valid_utf8(c) && spec_parse_requires(decode_utf8(c))
        == Ok::<Seq<(Seq<char>, Seq<VersionConstraint>)>, (Seq<char>, LineError)>(ms)
}

/// The ways source-distribution inspection fails, each pinned to the
/// scan's outcome: an unreadable layer or touched entry, no matching
/// entry, a matching entry that is not UTF-8, or a requirement line that
/// does not parse.
pub open spec fn spec_sdist_outcome_err(bytes: Seq<u8>, e: Error) -> bool {
    (e.cause is None) && match e.kind {
        ErrorKind::ArchiveFormat(_) => spec_sdist_scan(bytes) == Err::<Seq<u8>, ScanFailure>(
            ScanFailure::Container,
        ) || spec_sdist_scan(bytes) == Err::<Seq<u8>, ScanFailure>(ScanFailure::EntryRead),
        ErrorKind::ArchiveFileNotFound(s) => s@ == sdist_requires_suffix() && spec_sdist_scan(
            bytes,
        ) == Err::<Seq<u8>, ScanFailure>(ScanFailure::NotFound),
        ErrorKind::Deserialization(d) => (spec_sdist_scan(bytes) matches Ok(c) && !valid_utf8(c))
            || (spec_sdist_scan(bytes) matches Ok(c) && valid_utf8(c) && (spec_parse_requires(
            decode_utf8(c),
        ) matches Err(le) && le.1 == LineError::BadConstraint && d@ == le.0)),
        ErrorKind::PackageNameRegexFailed(l) => spec_sdist_scan(bytes) matches Ok(c) && valid_utf8(
            c,
        ) && (spec_parse_requires(decode_utf8(c)) matches Err(le) && le.1 == LineError::NoName
            && l@ == le.0),
        _ => false,
    }
}

/// Inspects the fetched bytes of a release artifact of the given kind.  A
/// wheel is opened as a zip archive and yields its metadata document; a
/// source distribution is opened as gzip-compressed tar and its legacy
/// requirement text is parsed on the spot.  Only these two kinds are ever
/// selected for inspection.
pub fn parse_release_requirements(bytes: &Vec<u8>, release_type: ReleaseType) -> (r: Result<
    ReleaseScan,
    Error,
>)
    requires
        release_type == ReleaseType::BdistWheel || release_type == ReleaseType::Sdist,
    ensures
        release_type == ReleaseType::BdistWheel ==> match r {
            Ok(scan) => scan matches ReleaseScan::WheelDocument(doc) && spec_wheel_outcome_ok(
                bytes@,
                doc@,
            ),
            Err(e) => spec_wheel_outcome_err(bytes@, e),
        },
        release_type == ReleaseType::Sdist ==> match r {
            Ok(scan) => scan matches ReleaseScan::Requirements(v) && spec_sdist_outcome_ok(
                bytes@,
                reqs_models(v@),
            ),
            Err(e) => spec_sdist_outcome_err(bytes@, e),
        },
{
    match release_type {
        ReleaseType::BdistWheel => {
            let doc = scan_wheel_archive(bytes)?;
            Ok(ReleaseScan::WheelDocument(doc))
        },
        _ => {
            let text = scan_sdist_archive(bytes)?;
            let reqs = parse_requires_txt(text.as_str())?;
            Ok(ReleaseScan::Requirements(reqs))
        },
    }
}

} // verus!
