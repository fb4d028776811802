//! Local manifest and lockfile data, as plain values.

use vstd::prelude::*;

verus! {

/// One package source of a Pipfile.
#[derive(Debug)]
pub struct Source {
    pub url: String,
    pub verify_ssl: bool,
}

/// How a Pipfile pins one package.
#[derive(Debug)]
pub enum PackageInfo {
    SimpleString(String),
    Simple { version: String, hash: Option<String> },
    Git { git: String, ref_: String, editable: bool },
}

/// Whether a git dependency is an editable install when the Pipfile does
/// not say.
pub fn git_editable_default() -> (r: bool)
    ensures
        r == false,
{
    false
}

/// A local manifest: sources, interpreter requirements, and the packages
/// it pins, with keys kept in document order.
#[derive(Debug)]
pub struct Pipfile {
    pub source: Vec<Source>,
    pub requires: Vec<(String, String)>,
    pub packages: Vec<(String, PackageInfo)>,
    pub dev_packages: Option<Vec<(String, PackageInfo)>>,
}

/// The interpreter requirements and sources a lockfile was generated
/// against.
#[derive(Debug)]
pub struct LockfileMeta {
    pub hash: LockfileMetaHash,
    pub requires: Vec<(String, String)>,
    pub sources: Vec<Source>,
}

/// The content hash of a lockfile.
#[derive(Debug)]
pub struct LockfileMetaHash {
    pub sha256: String,
}

/// A local lockfile: resolved default and development packages, with the
/// metadata block they were resolved under.
#[derive(Debug)]
pub struct Lockfile {
    pub default: Vec<(String, PackageInfo)>,
    pub develop: Vec<(String, PackageInfo)>,
    pub meta: LockfileMeta,
}

} // verus!
