//! A registry package document kept close to the wire shape.

use vstd::prelude::*;

verus! {

/// Download counters of a package, as an untyped registry document
/// reports them.
#[derive(Debug)]
pub struct PackageDownloads {
    pub last_month: u64,
    pub last_week: u64,
    pub last_day: u64,
}

/// The information block of an untyped registry package document.
#[derive(Debug)]
pub struct PackageInfo {
    pub maintainer: Option<String>,
    pub docs_url: Option<String>,
    pub requires_python: Option<String>,
    pub maintainer_email: Option<String>,
    pub keywords: Option<String>,
    pub package_url: String,
    pub author: String,
    pub author_email: String,
    pub download_url: String,
    pub platform: String,
    pub version: String,
    pub description: String,
    pub release_url: String,
    pub downloads: PackageDownloads,
    pub requires_dist: Option<Vec<String>>,
    pub classifiers: Vec<String>,
    pub name: String,
    pub bugtrack_url: Option<String>,
    pub license: String,
    pub summary: String,
    pub home_page: String,
}

/// One artifact record of an untyped registry package document, with the
/// artifact kind kept as the raw string the registry sent.
#[derive(Debug)]
pub struct ReleaseMetadata {
    pub has_sig: bool,
    pub upload_time: String,
    pub comment_text: String,
    pub python_version: String,
    pub url: String,
    pub md5_digest: String,
    pub downloads: u64,
    pub filename: String,
    pub packagetype: String,
    pub path: String,
    pub size: u64,
}

/// A registry package document kept close to the raw wire shape, before
/// artifact kinds are interpreted.
#[derive(Debug)]
pub struct Package {
    pub info: PackageInfo,
    pub releases: Vec<(String, Vec<ReleaseMetadata>)>,
}

} // verus!
