//! Archive inspection: scanning a zip-backed wheel or a gzip+tar source
//! distribution for the one entry that carries requirement data.

use vstd::prelude::*;
use vstd::utf8::{decode_utf8, valid_utf8};

use crate::errors::{Error, ErrorKind};
use crate::strutil::{spec_ends_with, str_ends_with};

verus! {

// ---------------------------------------------------------------------------
// Entry tables and read outcomes
// ---------------------------------------------------------------------------

/// The entry table that the zip central directory of `bytes` describes:
/// each entry's stored name and decompressed content, in directory order;
/// `None` when `bytes` does not open as a zip archive.
pub uninterp spec fn zip_entries_of(bytes: Seq<u8>) -> Option<Seq<(Seq<char>, Seq<u8>)>>;

/// Whether reading the stored name of entry `i` of the zip archive in
/// `bytes` succeeds.  The archive lives in memory, so the outcome is a
/// function of the bytes and the index alone.
pub uninterp spec fn zip_entry_name_ok(bytes: Seq<u8>, i: int) -> bool;

/// Whether decompressing the content of entry `i` of the zip archive in
/// `bytes` succeeds; a function of the bytes and the index alone.
pub uninterp spec fn zip_entry_content_ok(bytes: Seq<u8>, i: int) -> bool;

/// What the gzip layer of `bytes` decompresses to, or `None` when the
/// stream is not a readable gzip stream.
pub uninterp spec fn gunzip_of(bytes: Seq<u8>) -> Option<Seq<u8>>;

/// The entry table of the tar stream `bytes`: each readable entry's path
/// and content, in stream order, up to the first damaged header or the
/// terminator.
pub uninterp spec fn tar_entries_of(bytes: Seq<u8>) -> Seq<(Seq<char>, Seq<u8>)>;

/// Whether walking the tar stream `bytes` to position `i` (and reading
/// the entry there, when one exists) succeeds; a function of the bytes
/// and the index alone.
pub uninterp spec fn tar_entry_ok(bytes: Seq<u8>, i: int) -> bool;

/// How scanning an archive for a suffix-matched entry fails.
#[derive(Debug, Clone, Copy, PartialEq, Eq, Structural)]
pub enum ScanFailure {
    /// The container itself (zip directory, gzip stream) is unreadable.
    Container,
    /// An entry at or before the first match could not be read.
    EntryRead,
    /// Every entry was readable and none matched the suffix.
    NotFound,
}

// ---------------------------------------------------------------------------
// Trusted wrappers around the archive crates
// ---------------------------------------------------------------------------

/// Relies on zip::ZipArchive::new and zip::ZipArchive::len over an
/// in-memory cursor: whether `bytes` opens as a zip archive, and how many
/// entries its central directory holds, are functions of the bytes alone.
#[verifier::external_body]
fn zip_entry_count(bytes: &Vec<u8>) -> (r: Result<usize, ()>)
    ensures
        match r {
            Ok(n) => zip_entries_of(bytes@) matches Some(es) && n == es.len(),
            Err(()) => zip_entries_of(bytes@) is None,
        },
{
    match zip::read::ZipArchive::new(std::io::Cursor::new(bytes.clone())) {
        Ok(a) => Ok(a.len()),
        Err(_) => Err(()),
    }
}

/// Relies on zip::ZipArchive::by_index and zip::read::ZipFile::name: the
/// stored name of entry `i` of the archive in `bytes`, reopened in memory
/// for each access; success and value are functions of the bytes and the
/// index alone.
#[verifier::external_body]
fn zip_entry_name_at(bytes: &Vec<u8>, i: usize) -> (r: Result<String, ()>)
    requires
        zip_entries_of(bytes@) matches Some(es) && i < es.len(),
    ensures
        match r {
            Ok(name) => zip_entry_name_ok(bytes@, i as int) && name@ == zip_entries_of(
                bytes@,
            )->Some_0[i as int].0,
            Err(()) => !zip_entry_name_ok(bytes@, i as int),
        },
{
    let mut a = match zip::read::ZipArchive::new(std::io::Cursor::new(bytes.clone())) {
        Ok(a) => a,
        Err(_) => return Err(()),
    };
    let r = match a.by_index(i) {
        Ok(f) => Ok(f.name().to_owned()),
        Err(_) => Err(()),
    };
    r
}

/// Relies on zip::ZipArchive::by_index and std::io::Read::read_to_end:
/// the decompressed content of entry `i` of the archive in `bytes`,
/// reopened in memory for each access; success and value are functions of
/// the bytes and the index alone.
#[verifier::external_body]
fn zip_entry_content_at(bytes: &Vec<u8>, i: usize) -> (r: Result<Vec<u8>, ()>)
    requires
        zip_entries_of(bytes@) matches Some(es) && i < es.len(),
    ensures
        match r {
            Ok(c) => zip_entry_content_ok(bytes@, i as int) && c@ == zip_entries_of(
                bytes@,
            )->Some_0[i as int].1,
            Err(()) => !zip_entry_content_ok(bytes@, i as int),
        },
{
    let mut a = match zip::read::ZipArchive::new(std::io::Cursor::new(bytes.clone())) {
        Ok(a) => a,
        Err(_) => return Err(()),
    };
    let r = match a.by_index(i) {
        Ok(mut f) => {
            let mut buf: Vec<u8> = Vec::new();
            match std::io::Read::read_to_end(&mut f, &mut buf) {
                Ok(_) => Ok(buf),
                Err(_) => Err(()),
            }
        },
        Err(_) => Err(()),
    };
    r
}

/// Relies on flate2::read::GzDecoder and std::io::Read::read_to_end:
/// decompressing the gzip stream is a function of the bytes alone.
#[verifier::external_body]
fn gunzip(bytes: &Vec<u8>) -> (r: Result<Vec<u8>, ()>)
    ensures
        match r {
            Ok(o) => gunzip_of(bytes@) == Some(o@),
            Err(()) => gunzip_of(bytes@) is None,
        },
{
    let mut d = flate2::read::GzDecoder::new(bytes.as_slice());
    let mut out: Vec<u8> = Vec::new();
    match std::io::Read::read_to_end(&mut d, &mut out) {
        Ok(_) => Ok(out),
        Err(_) => Err(()),
    }
}

/// Relies on tar::Archive::entries, tar::Entry::path_bytes (decoded as
/// UTF-8 with replacement) and std::io::Read::read_to_end: the tar stream
/// is re-walked from the start and its entry `i` returned, a function of
/// the bytes alone; `None` past the last entry.  Every entry occupies at
/// least one 512-byte header block of the stream, so the table never holds
/// more entries than the stream has bytes.
#[verifier::external_body]
fn tar_entry_at(bytes: &Vec<u8>, i: usize) -> (r: Result<Option<(String, Vec<u8>)>, ()>)
    ensures
        match r {
            Ok(p) => tar_entry_ok(bytes@, i as int) && match p {
                Some(e) => i < tar_entries_of(bytes@).len() && tar_entries_of(bytes@).len()
                    <= bytes@.len() && e.0@ == tar_entries_of(bytes@)[i as int].0 && e.1@
                    == tar_entries_of(bytes@)[i as int].1,
                None => i >= tar_entries_of(bytes@).len(),
            },
            Err(()) => !tar_entry_ok(bytes@, i as int),
        },
{
    let mut a = tar::Archive::new(bytes.as_slice());
    let mut entries = a.entries().map_err(|_| ())?;
    match entries.nth(i) {
        None => Ok(None),
        Some(Err(_)) => Err(()),
        Some(Ok(mut e)) => {
            let name = String::from_utf8_lossy(&e.path_bytes()).into_owned();
            let mut buf: Vec<u8> = Vec::new();
            std::io::Read::read_to_end(&mut e, &mut buf).map_err(|_| ())?;
            Ok(Some((name, buf)))
        },
    }
}

/// Relies on String::from_utf8: decodes the bytes exactly when they are
/// valid UTF-8.
#[verifier::external_body]
fn bytes_to_string(b: Vec<u8>) -> (r: Result<String, ()>)
    ensures
        match r {
            Ok(s) => valid_utf8(b@) && s@ == decode_utf8(b@),
            Err(()) => !valid_utf8(b@),
        },
{
    match String::from_utf8(b) {
        Ok(s) => Ok(s),
        Err(_) => Err(()),
    }
}

// ---------------------------------------------------------------------------
// Archive scanning
// ---------------------------------------------------------------------------

/// The entry-name suffix that identifies the metadata document of a wheel.
pub open spec fn wheel_metadata_suffix() -> Seq<char> {
    ".dist-info/metadata.json"@
}

/// The entry-name suffix that identifies the legacy requirement text of a
/// source distribution.
pub open spec fn sdist_requires_suffix() -> Seq<char> {
    ".egg-info/requires.txt"@
}

/// The outcome of scanning the zip entry table from position `i` on for
/// the wheel metadata suffix: the content of the first matching entry,
/// `NotFound` when every entry from `i` on is readable and none matches,
/// and `EntryRead` as soon as a name (or the matching entry's content)
/// cannot be read.
pub open spec fn spec_wheel_scan_entries(
    bytes: Seq<u8>,
    es: Seq<(Seq<char>, Seq<u8>)>,
    i: int,
) -> Result<Seq<u8>, ScanFailure>
    decreases es.len() - i,
    when 0 <= i
{
    if i >= es.len() {
        Err(ScanFailure::NotFound)
    } else if !zip_entry_name_ok(bytes, i) {
        Err(ScanFailure::EntryRead)
    } else if spec_ends_with(es[i].0, wheel_metadata_suffix()) {
        if zip_entry_content_ok(bytes, i) {
            Ok(es[i].1)
        } else {
            Err(ScanFailure::EntryRead)
        }
    } else {
        spec_wheel_scan_entries(bytes, es, i + 1)
    }
}

/// The outcome of inspecting `bytes` as a wheel: `Container` when the zip
/// directory does not parse, and otherwise the scan of its entry table.
pub open spec fn spec_wheel_scan(bytes: Seq<u8>) -> Result<Seq<u8>, ScanFailure> {
    match zip_entries_of(bytes) {
        None => Err(ScanFailure::Container),
        Some(es) => spec_wheel_scan_entries(bytes, es, 0),
    }
}

/// The outcome of walking the tar stream `tb` from position `i` on for
/// the legacy requirement suffix: the content of the first matching
/// entry, `NotFound` when the stream is exhausted without a match, and
/// `EntryRead` as soon as the walk fails.
pub open spec fn spec_tar_scan_from(tb: Seq<u8>, i: int) -> Result<Seq<u8>, ScanFailure>
    decreases tar_entries_of(tb).len() - i,
    when 0 <= i
{
    if !tar_entry_ok(tb, i) {
        Err(ScanFailure::EntryRead)
    } else if i >= tar_entries_of(tb).len() {
        Err(ScanFailure::NotFound)
    } else if spec_ends_with(tar_entries_of(tb)[i].0, sdist_requires_suffix()) {
        Ok(tar_entries_of(tb)[i].1)
    } else {
        spec_tar_scan_from(tb, i + 1)
    }
}

/// The outcome of inspecting `bytes` as a source distribution:
/// `Container` when the gzip layer does not decompress, and otherwise the
/// walk of the tar stream inside.
pub open spec fn spec_sdist_scan(bytes: Seq<u8>) -> Result<Seq<u8>, ScanFailure> {
    match gunzip_of(bytes) {
        None => Err(ScanFailure::Container),
        Some(tb) => spec_tar_scan_from(tb, 0),
    }
}

/// Opens `bytes` as a zip archive and returns the content of the first
/// entry whose name ends with the wheel metadata suffix.  Success and
/// every failure are pinned: `ArchiveFileNotFound` exactly when all
/// entries are readable and none matches, and `ArchiveFormat` exactly
/// when the directory does not parse or a touched entry cannot be read.
pub fn scan_wheel_archive(bytes: &Vec<u8>) -> (r: Result<Vec<u8>, Error>)
    ensures
        match r {
            Ok(c) => spec_wheel_scan(bytes@) == Ok::<Seq<u8>, ScanFailure>(c@),
            Err(e) => (e.cause is None) && match e.kind {
                ErrorKind::ArchiveFormat(_) => spec_wheel_scan(bytes@) == Err::<
                    Seq<u8>,
                    ScanFailure,
                >(ScanFailure::Container) || spec_wheel_scan(bytes@) == Err::<
                    Seq<u8>,
                    ScanFailure,
                >(ScanFailure::EntryRead),
                ErrorKind::ArchiveFileNotFound(s) => s@ == wheel_metadata_suffix()
                    && spec_wheel_scan(bytes@) == Err::<Seq<u8>, ScanFailure>(
                    ScanFailure::NotFound,
                ),
                _ => false,
            },
        },
{
    let n = match zip_entry_count(bytes) {
        Ok(n) => n,
        Err(()) => {
            return Err(
                Error::new(ErrorKind::ArchiveFormat(String::from_str("zip archive"))),
            );
        },
    };
    let ghost es = zip_entries_of(bytes@)->Some_0;
    let mut i: usize = 0;
    while i < n
        invariant
            0 <= i <= n,
            n == es.len(),
            zip_entries_of(bytes@) == Some(es),
            spec_wheel_scan_entries(bytes@, es, 0) == spec_wheel_scan_entries(bytes@, es, i as int),
        decreases n - i,
    {
        let name = match zip_entry_name_at(bytes, i) {
            Ok(name) => name,
            Err(()) => {
                return Err(
                    Error::new(ErrorKind::ArchiveFormat(String::from_str("zip entry"))),
                );
            },
        };
        if str_ends_with(name.as_str(), ".dist-info/metadata.json") {
            match zip_entry_content_at(bytes, i) {
                Ok(c) => {
                    return Ok(c);
                },
                Err(()) => {
                    return Err(
                        Error::new(
                            ErrorKind::ArchiveFormat(String::from_str("zip entry content")),
                        ),
                    );
                },
            }
        }
        i = i + 1;
    }
    Err(
        Error::new(
            ErrorKind::ArchiveFileNotFound(String::from_str(".dist-info/metadata.json")),
        ),
    )
}

/// Decompresses `bytes` as gzip, walks the tar stream inside, and returns
/// the UTF-8 text of the first entry whose path ends with the legacy
/// requirement suffix.  Success and every failure are pinned:
/// `ArchiveFileNotFound` exactly when the stream is exhausted without a
/// match, `ArchiveFormat` exactly when a layer or a touched entry cannot
/// be read, and `Deserialization` exactly when the matching entry is not
/// valid UTF-8.
pub fn scan_sdist_archive(bytes: &Vec<u8>) -> (r: Result<String, Error>)
    ensures
        match r {
            Ok(text) => spec_sdist_scan(bytes@) matches Ok(c) && valid_utf8(c) && text@
                == decode_utf8(c),
            Err(e) => (e.cause is None) && match e.kind {
                ErrorKind::ArchiveFormat(_) => spec_sdist_scan(bytes@) == Err::<
                    Seq<u8>,
                    ScanFailure,
                >(ScanFailure::Container) || spec_sdist_scan(bytes@) == Err::<
                    Seq<u8>,
                    ScanFailure,
                >(ScanFailure::EntryRead),
                ErrorKind::ArchiveFileNotFound(s) => s@ == sdist_requires_suffix()
                    && spec_sdist_scan(bytes@) == Err::<Seq<u8>, ScanFailure>(
                    ScanFailure::NotFound,
                ),
                ErrorKind::Deserialization(_) => spec_sdist_scan(bytes@) matches Ok(c)
                    && !valid_utf8(c),
                _ => false,
            },
        },
{
    let tar_bytes = match gunzip(bytes) {
        Ok(o) => o,
        Err(()) => {
            return Err(
                Error::new(ErrorKind::ArchiveFormat(String::from_str("gzip stream"))),
            );
        },
    };
    let ghost tb = tar_bytes@;
    let bl = tar_bytes.len();
    let mut i: usize = 0;
    loop
        invariant
            0 <= i,
            i <= tar_entries_of(tb).len(),
            tb == tar_bytes@,
            bl == tb.len(),
            gunzip_of(bytes@) == Some(tb),
            spec_tar_scan_from(tb, 0) == spec_tar_scan_from(tb, i as int),
        decreases tar_entries_of(tb).len() - i,
    {
        let entry = match tar_entry_at(&tar_bytes, i) {
            Ok(entry) => entry,
            Err(()) => {
                return Err(
                    Error::new(ErrorKind::ArchiveFormat(String::from_str("tar stream"))),
                );
            },
        };
        match entry {
            None => {
                return Err(
                    Error::new(
                        ErrorKind::ArchiveFileNotFound(String::from_str(".egg-info/requires.txt")),
                    ),
                );
            },
            Some((name, content)) => {
                if str_ends_with(name.as_str(), ".egg-info/requires.txt") {
                    match bytes_to_string(content) {
                        Ok(text) => {
                            return Ok(text);
                        },
                        Err(()) => {
                            return Err(
                                Error::new(
                                    ErrorKind::Deserialization(
                                        String::from_str(".egg-info/requires.txt"),
                                    ),
                                ),
                            );
                        },
                    }
                }
            },
        }
        i = i + 1;
    }
}

} // verus!
