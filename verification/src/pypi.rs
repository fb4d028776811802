//! The registry package document, its release index, and artifact
//! selection with the fixed wheel-before-source fallback order.

use vstd::prelude::*;

use crate::errors::{Error, ErrorKind};
use crate::release::ReleaseType;
use crate::version::{spec_normalized_version, normalize_and_parse_version_string, Version};

verus! {

/// Download counters of a package, as the registry reports them.
#[derive(Debug, Clone, Copy)]
pub struct PackageDownloads {
    pub last_month: u64,
    pub last_week: u64,
    pub last_day: u64,
}

/// The general information block of a registry package document.
#[derive(Debug)]
pub struct PackageInfo {
    pub maintainer: Option<String>,
    pub docs_url: Option<String>,
    pub requires_python: Option<String>,
    pub maintainer_email: Option<String>,
    pub keywords: Option<String>,
    pub package_url: String,
    pub author: String,
    pub author_email: String,
    pub download_url: Option<String>,
    pub platform: String,
    pub version: String,
    pub description: String,
    pub release_url: String,
    pub downloads: PackageDownloads,
    pub requires_dist: Vec<String>,
    pub classifiers: Vec<String>,
    pub name: String,
    pub bugtrack_url: Option<String>,
    pub license: Option<String>,
    pub summary: String,
    pub home_page: String,
}

/// One published artifact of a release, as the registry reports it.
#[derive(Debug)]
pub struct ReleaseMetadata {
    pub has_sig: bool,
    pub upload_time: String,
    pub comment_text: String,
    pub python_version: String,
    pub url: String,
    pub md5_digest: String,
    pub downloads: u64,
    pub filename: String,
    pub package_type: ReleaseType,
    pub path: String,
    pub size: u64,
}

impl Clone for ReleaseMetadata {
    /// An equal copy of this artifact record.
    fn clone(&self) -> (r: Self)
        ensures
            r == *self,
    {
        ReleaseMetadata {
            has_sig: self.has_sig,
            upload_time: self.upload_time.clone(),
            comment_text: self.comment_text.clone(),
            python_version: self.python_version.clone(),
            url: self.url.clone(),
            md5_digest: self.md5_digest.clone(),
            downloads: self.downloads,
            filename: self.filename.clone(),
            package_type: self.package_type,
            path: self.path.clone(),
            size: self.size,
        }
    }
}

/// A registry package document: its information block and, per raw version
/// tag, the artifacts published for that tag.
#[derive(Debug)]
pub struct PypiPackage {
    pub info: PackageInfo,
    pub releases: Vec<(String, Vec<ReleaseMetadata>)>,
    pub urls: Vec<ReleaseMetadata>,
}

/// The release index: normalized versions, each with the artifacts
/// published for it, in the order the raw entries first produced them.
#[derive(Debug)]
pub struct PackageReleaseIndex {
    pub entries: Vec<(Version, Vec<ReleaseMetadata>)>,
}

/// The mathematical content of the index entries.
pub open spec fn index_models(es: Seq<(Version, Vec<ReleaseMetadata>)>) -> Seq<
    (Version, Seq<ReleaseMetadata>),
> {
    es.map_values(|p: (Version, Vec<ReleaseMetadata>)| (p.0, p.1@))
}

/// Builds the index from raw release entries, in order: each tag is
/// normalized (the first tag that fails aborts the build with that tag),
/// and when two raw tags normalize to the same version the earliest entry
/// is kept and later ones are dropped.
pub open spec fn spec_build_index(rel: Seq<(String, Vec<ReleaseMetadata>)>) -> Result<
    Seq<(Version, Seq<ReleaseMetadata>)>,
    Seq<char>,
>
    decreases rel.len(),
{
    if rel.len() == 0 {
        Ok(seq![])
    } else {
        match spec_build_index(rel.drop_last()) {
            Err(t) => Err(t),
            Ok(front) => match spec_normalized_version(rel.last().0@) {
                None => Err(rel.last().0@),
                Some(v) => if exists|k: int| 0 <= k < front.len() && front[k].0 == v {
                    Ok(front)
                } else {
                    Ok(front.push((v, rel.last().1@)))
                },
            },
        }
    }
}

/// Once a prefix of the raw entries fails to build, the whole sequence
/// fails the same way.
pub proof fn lemma_build_index_err_persists(rel: Seq<(String, Vec<ReleaseMetadata>)>, j: int)
    requires
        0 <= j <= rel.len(),
        spec_build_index(rel.take(j)) is Err,
    ensures
        spec_build_index(rel) == spec_build_index(rel.take(j)),
    decreases rel.len() - j,
{
    if j == rel.len() {
        assert(rel.take(j) =~= rel);
    } else {
        assert(rel.take(j + 1).drop_last() =~= rel.take(j));
        lemma_build_index_err_persists(rel, j + 1);
    }
}

/// The artifacts of the first index entry for `v`, if any.
pub open spec fn spec_lookup(es: Seq<(Version, Seq<ReleaseMetadata>)>, v: Version) -> Option<
    Seq<ReleaseMetadata>,
>
    decreases es.len(),
{
    if es.len() == 0 {
        None
    } else if es[0].0 == v {
        Some(es[0].1)
    } else {
        spec_lookup(es.drop_first(), v)
    }
}

/// Locating the first entry for `v` at index `i` determines the lookup.
pub proof fn lemma_lookup_at(es: Seq<(Version, Seq<ReleaseMetadata>)>, v: Version, i: int)
    requires
        0 <= i <= es.len(),
        forall|j: int| 0 <= j < i ==> es[j].0 != v,
        i < es.len() ==> es[i].0 == v,
    ensures
        spec_lookup(es, v) == (if i == es.len() {
            None::<Seq<ReleaseMetadata>>
        } else {
            Some(es[i].1)
        }),
    decreases i,
{
    if i == 0 {
    } else {
        assert(es[0].0 != v);
        assert forall|j: int| 0 <= j < i - 1 implies es.drop_first()[j].0 != v by {
            assert(es[j + 1].0 != v);
        }
        lemma_lookup_at(es.drop_first(), v, i - 1);
        if i < es.len() {
            assert(es.drop_first()[i - 1] == es[i]);
        }
    }
}

/// True when `v` is a key of the index and no key orders above it.
pub open spec fn spec_is_latest(es: Seq<(Version, Seq<ReleaseMetadata>)>, v: Version) -> bool {
    &&& exists|k: int| 0 <= k < es.len() && es[k].0 == v
    &&& forall|k: int| 0 <= k < es.len() ==> es[k].0.spec_le(v)
}

/// A version that is a key of the index is found by lookup.
pub proof fn lemma_lookup_present(es: Seq<(Version, Seq<ReleaseMetadata>)>, v: Version)
    requires
        exists|k: int| 0 <= k < es.len() && es[k].0 == v,
    ensures
        spec_lookup(es, v) is Some,
    decreases es.len(),
{
    let k = choose|k: int| 0 <= k < es.len() && es[k].0 == v;
    if es[0].0 != v {
        assert(es.drop_first()[k - 1].0 == v);
        lemma_lookup_present(es.drop_first(), v);
    }
}

/// The first artifact of the given kind, if any.
pub open spec fn spec_first_of_type(arts: Seq<ReleaseMetadata>, t: ReleaseType) -> Option<
    ReleaseMetadata,
>
    decreases arts.len(),
{
    if arts.len() == 0 {
        None
    } else if arts[0].package_type == t {
        Some(arts[0])
    } else {
        spec_first_of_type(arts.drop_first(), t)
    }
}

/// Locating the first artifact of kind `t` at index `i` determines the
/// search.
pub proof fn lemma_first_of_type_at(arts: Seq<ReleaseMetadata>, t: ReleaseType, i: int)
    requires
        0 <= i <= arts.len(),
        forall|j: int| 0 <= j < i ==> arts[j].package_type != t,
        i < arts.len() ==> arts[i].package_type == t,
    ensures
        spec_first_of_type(arts, t) == (if i == arts.len() {
            None::<ReleaseMetadata>
        } else {
            Some(arts[i])
        }),
    decreases i,
{
    if i == 0 {
    } else {
        assert(arts[0].package_type != t);
        assert forall|j: int| 0 <= j < i - 1 implies arts.drop_first()[j].package_type != t by {
            assert(arts[j + 1].package_type != t);
        }
        lemma_first_of_type_at(arts.drop_first(), t, i - 1);
        if i < arts.len() {
            assert(arts.drop_first()[i - 1] == arts[i]);
        }
    }
}

/// What artifact selection inspects for a release: the first binary wheel
/// when one exists, else the first source distribution, else nothing.
pub open spec fn spec_selected(arts: Seq<ReleaseMetadata>) -> Option<ReleaseMetadata> {
    match spec_first_of_type(arts, ReleaseType::BdistWheel) {
        Some(m) => Some(m),
        None => spec_first_of_type(arts, ReleaseType::Sdist),
    }
}

/// The search for a kind succeeds exactly when some artifact has that
/// kind, and what it finds has that kind.
pub proof fn lemma_first_of_type_found(arts: Seq<ReleaseMetadata>, t: ReleaseType)
    ensures
        (spec_first_of_type(arts, t) is Some) == (exists|k: int|
            0 <= k < arts.len() && arts[k].package_type == t),
        spec_first_of_type(arts, t) matches Some(m) ==> m.package_type == t,
    decreases arts.len(),
{
    if arts.len() == 0 {
    } else if arts[0].package_type == t {
        assert(arts[0].package_type == t);
    } else {
        lemma_first_of_type_found(arts.drop_first(), t);
        if exists|k: int| 0 <= k < arts.len() && arts[k].package_type == t {
            let k = choose|k: int| 0 <= k < arts.len() && arts[k].package_type == t;
            assert(arts.drop_first()[k - 1].package_type == t);
        }
        if exists|k: int| 0 <= k < arts.drop_first().len() && arts.drop_first()[k].package_type
            == t {
            let k = choose|k: int|
                0 <= k < arts.drop_first().len() && arts.drop_first()[k].package_type == t;
            assert(arts[k + 1].package_type == t);
        }
    }
}

/// For a release that offers both a binary wheel and a source
/// distribution, selection always inspects a wheel, never the source
/// distribution.
pub proof fn lemma_selection_prefers_wheel(arts: Seq<ReleaseMetadata>)
    requires
        exists|k: int| 0 <= k < arts.len() && arts[k].package_type == ReleaseType::BdistWheel,
    ensures
        spec_selected(arts) matches Some(m) && m.package_type == ReleaseType::BdistWheel,
{
    lemma_first_of_type_found(arts, ReleaseType::BdistWheel);
}

/// For a release with no binary wheel but a source distribution,
/// selection uses a source distribution.
pub proof fn lemma_selection_falls_back_to_sdist(arts: Seq<ReleaseMetadata>)
    requires
        forall|k: int| 0 <= k < arts.len() ==> arts[k].package_type != ReleaseType::BdistWheel,
        exists|k: int| 0 <= k < arts.len() && arts[k].package_type == ReleaseType::Sdist,
    ensures
        spec_selected(arts) matches Some(m) && m.package_type == ReleaseType::Sdist,
{
    lemma_first_of_type_found(arts, ReleaseType::BdistWheel);
    lemma_first_of_type_found(arts, ReleaseType::Sdist);
}

/// With neither selectable kind present, selection selects nothing.
pub proof fn lemma_selection_empty(arts: Seq<ReleaseMetadata>)
    requires
        forall|k: int| 0 <= k < arts.len() ==> arts[k].package_type != ReleaseType::BdistWheel,
        forall|k: int| 0 <= k < arts.len() ==> arts[k].package_type != ReleaseType::Sdist,
    ensures
        spec_selected(arts) is None,
{
    lemma_first_of_type_found(arts, ReleaseType::BdistWheel);
    lemma_first_of_type_found(arts, ReleaseType::Sdist);
}

/// An equal copy of an artifact list.
fn clone_artifacts(v: &Vec<ReleaseMetadata>) -> (r: Vec<ReleaseMetadata>)
    ensures
        r@ == v@,
{
    let mut out: Vec<ReleaseMetadata> = Vec::new();
    let n = v.len();
    let mut i: usize = 0;
    while i < n
        invariant
            0 <= i <= n,
            n == v@.len(),
            out@ =~= v@.take(i as int),
        decreases n - i,
    {
        out.push(v[i].clone());
        proof {
            assert(out@ =~= v@.take(i + 1));
        }
        i = i + 1;
    }
    proof {
        assert(v@.take(n as int) =~= v@);
    }
    out
}

/// The first artifact of the given kind in the list, if any.
fn find_of_type(arts: &Vec<ReleaseMetadata>, t: ReleaseType) -> (r: Option<&ReleaseMetadata>)
    ensures
        match r {
            Some(m) => spec_first_of_type(arts@, t) == Some(*m),
            None => spec_first_of_type(arts@, t) is None,
        },
{
    let n = arts.len();
    let mut i: usize = 0;
    while i < n
        invariant
            0 <= i <= n,
            n == arts@.len(),
            forall|j: int| 0 <= j < i ==> arts@[j].package_type != t,
        decreases n - i,
    {
        if arts[i].package_type == t {
            proof {
                lemma_first_of_type_at(arts@, t, i as int);
            }
            return Some(&arts[i]);
        }
        i = i + 1;
    }
    proof {
        lemma_first_of_type_at(arts@, t, n as int);
    }
    None
}

impl PackageReleaseIndex {
    /// The artifacts recorded for `v`, if `v` is a key of the index.
    pub fn artifacts_for(&self, v: &Version) -> (r: Option<&Vec<ReleaseMetadata>>)
        ensures
            match r {
                Some(arts) => spec_lookup(index_models(self.entries@), *v) == Some(arts@),
                None => spec_lookup(index_models(self.entries@), *v) is None,
            },
    {
        let n = self.entries.len();
        let mut i: usize = 0;
        while i < n
            invariant
                0 <= i <= n,
                n == self.entries@.len(),
                forall|j: int| 0 <= j < i ==> index_models(self.entries@)[j].0 != *v,
            decreases n - i,
        {
            if self.entries[i].0 == *v {
                proof {
                    lemma_lookup_at(index_models(self.entries@), *v, i as int);
                }
                return Some(&self.entries[i].1);
            }
            proof {
                assert(index_models(self.entries@)[i as int].0 == self.entries@[i as int].0);
            }
            i = i + 1;
        }
        proof {
            lemma_lookup_at(index_models(self.entries@), *v, n as int);
        }
        None
    }
}

impl PypiPackage {
    /// The package's name.
    pub fn name(&self) -> (r: &str)
        ensures
            r@ == self.info.name@,
    {
        self.info.name.as_str()
    }

    /// Builds the release index from the raw per-tag entries: every tag is
    /// normalized, and an entry whose tag fails normalization aborts the
    /// build with that failure.  When two raw tags normalize to the same
    /// version, the earliest entry is kept.
    pub fn releases(&self) -> (r: Result<PackageReleaseIndex, Error>)
        ensures
            match spec_build_index(self.releases@) {
                Ok(es) => r matches Ok(idx) && index_models(idx.entries@) == es,
                Err(tag) => r matches Err(e) && (e.cause is None) && (
                e.kind matches ErrorKind::NormalizeVersionStringRegexFailed(t) && t@ == tag),
            },
    {
        let mut entries: Vec<(Version, Vec<ReleaseMetadata>)> = Vec::new();
        let n = self.releases.len();
        let mut i: usize = 0;
        proof {
            assert(self.releases@.take(0) =~= Seq::<(String, Vec<ReleaseMetadata>)>::empty());
            assert(index_models(entries@) =~= Seq::<(Version, Seq<ReleaseMetadata>)>::empty());
        }
        while i < n
            invariant
                0 <= i <= n,
                n == self.releases@.len(),
                spec_build_index(self.releases@.take(i as int)) == Ok::<
                    Seq<(Version, Seq<ReleaseMetadata>)>,
                    Seq<char>,
                >(index_models(entries@)),
            decreases n - i,
        {
            proof {
                assert(self.releases@.take(i + 1).drop_last() =~= self.releases@.take(i as int));
                assert(self.releases@.take(i + 1).last() == self.releases@[i as int]);
            }
            match normalize_and_parse_version_string(self.releases[i].0.as_str()) {
                Err(e) => {
                    proof {
                        lemma_build_index_err_persists(self.releases@, i + 1);
                    }
                    return Err(e);
                },
                Ok(v) => {
                    let mut present = false;
                    let en = entries.len();
                    let mut k: usize = 0;
                    while k < en
                        invariant
                            0 <= k <= en,
                            en == entries@.len(),
                            present == exists|j: int|
                                0 <= j < k && index_models(entries@)[j].0 == v,
                        decreases en - k,
                    {
                        if entries[k].0 == v {
                            present = true;
                            proof {
                                assert(index_models(entries@)[k as int].0 == v);
                            }
                        }
                        k = k + 1;
                    }
                    if !present {
                        let ghost old_entries = entries@;
                        let arts = clone_artifacts(&self.releases[i].1);
                        entries.push((v, arts));
                        proof {
                            assert(index_models(entries@) =~= index_models(old_entries).push(
                                (v, self.releases@[i as int].1@),
                            ));
                        }
                    }
                },
            }
            i = i + 1;
        }
        proof {
            assert(self.releases@.take(n as int) =~= self.releases@);
        }
        Ok(PackageReleaseIndex { entries })
    }

    /// The greatest normalized version the package has released.  An index
    /// that cannot be built, or is empty, reports that the package has no
    /// released versions, with the underlying failure chained when there
    /// is one.
    pub fn latest_version(&self) -> (r: Result<Version, Error>)
        ensures
            match spec_build_index(self.releases@) {
                Err(tag) => r matches Err(e) && (
                e.kind matches ErrorKind::PackageHasNoReleasedVersions(n) && n@ == self.info.name@)
                    && (e.cause matches Some(c) && (c.cause is None) && (
                c.kind matches ErrorKind::NormalizeVersionStringRegexFailed(t) && t@ == tag)),
                Ok(es) => if es.len() == 0 {
                    r matches Err(e) && (e.cause is None) && (
                    e.kind matches ErrorKind::PackageHasNoReleasedVersions(n) && n@
                        == self.info.name@)
                } else {
                    r matches Ok(v) && spec_is_latest(es, v)
                },
            },
    {
        let idx = match self.releases() {
            Ok(idx) => idx,
            Err(e) => {
                return Err(
                    Error::with_cause(
                        ErrorKind::PackageHasNoReleasedVersions(self.info.name.clone()),
                        e,
                    ),
                );
            },
        };
        let n = idx.entries.len();
        if n == 0 {
            return Err(
                Error::new(ErrorKind::PackageHasNoReleasedVersions(self.info.name.clone())),
            );
        }
        let ghost es = index_models(idx.entries@);
        let mut best = idx.entries[0].0;
        proof {
            assert(es[0].0 == best);
        }
        let mut k: usize = 1;
        while k < n
            invariant
                1 <= k <= n,
                n == idx.entries@.len(),
                es == index_models(idx.entries@),
                exists|j: int| 0 <= j < k && es[j].0 == best,
                forall|j: int| 0 <= j < k ==> es[j].0.spec_le(best),
            decreases n - k,
        {
            let cand = idx.entries[k].0;
            proof {
                assert(es[k as int].0 == cand);
            }
            if best.le(&cand) {
                best = cand;
            }
            k = k + 1;
        }
        Ok(best)
    }

    /// The artifact the given kind offers for `version`: the version must
    /// be a key of the index, and must have an artifact of that kind.
    fn get_requires_for_version_and_release_type(
        &self,
        version: &Version,
        release_type: ReleaseType,
    ) -> (r: Result<ReleaseMetadata, Error>)
        ensures
            match spec_build_index(self.releases@) {
                Err(tag) => r matches Err(e) && (e.cause is None) && (
                e.kind matches ErrorKind::NormalizeVersionStringRegexFailed(t) && t@ == tag),
                Ok(es) => match spec_lookup(es, *version) {
                    None => r matches Err(e) && (e.cause is None) && (
                    e.kind matches ErrorKind::VersionDoesntExist(n, v) && n@ == self.info.name@ && v
                        == *version),
                    Some(arts) => match spec_first_of_type(arts, release_type) {
                        None => r matches Err(e) && (e.cause is None) && (
                        e.kind matches ErrorKind::NoReleaseForVersion(n, v) && n@
                            == self.info.name@ && v == *version),
                        Some(m) => r matches Ok(rm) && rm == m,
                    },
                },
            },
    {
        let idx = self.releases()?;
        let arts = match idx.artifacts_for(version) {
            Some(arts) => arts,
            None => {
                return Err(
                    Error::new(
                        ErrorKind::VersionDoesntExist(self.info.name.clone(), *version),
                    ),
                );
            },
        };
        match find_of_type(arts, release_type) {
            Some(m) => Ok(m.clone()),
            None => Err(
                Error::new(ErrorKind::NoReleaseForVersion(self.info.name.clone(), *version)),
            ),
        }
    }

    /// Selects the artifact to inspect for `version`: the first binary
    /// wheel when the version has one, else its first source distribution.
    /// A version absent from the index fails with `VersionDoesntExist`; a
    /// version with neither selectable kind fails with
    /// `NoReleaseForVersion`.  The selected artifact is used even if its
    /// later inspection fails; no other kind is retried.
    pub fn get_requires_for_version(&self, version: &Version) -> (r: Result<ReleaseMetadata, Error>)
        ensures
            match spec_build_index(self.releases@) {
                Err(tag) => r matches Err(e) && (e.cause is None) && (
                e.kind matches ErrorKind::NormalizeVersionStringRegexFailed(t) && t@ == tag),
                Ok(es) => match spec_lookup(es, *version) {
                    None => r matches Err(e) && (e.cause is None) && (
                    e.kind matches ErrorKind::VersionDoesntExist(n, v) && n@ == self.info.name@ && v
                        == *version),
                    Some(arts) => match spec_selected(arts) {
                        None => r matches Err(e) && (e.cause is None) && (
                        e.kind matches ErrorKind::NoReleaseForVersion(n, v) && n@
                            == self.info.name@ && v == *version),
                        Some(m) => r matches Ok(rm) && rm == m,
                    },
                },
            },
    {
        let idx = self.releases()?;
        let arts = match idx.artifacts_for(version) {
            Some(arts) => arts,
            None => {
                return Err(
                    Error::new(
                        ErrorKind::VersionDoesntExist(self.info.name.clone(), *version),
                    ),
                );
            },
        };
        match find_of_type(arts, ReleaseType::BdistWheel) {
            Some(m) => Ok(m.clone()),
            None => match find_of_type(arts, ReleaseType::Sdist) {
                Some(m) => Ok(m.clone()),
                None => Err(
                    Error::new(
                        ErrorKind::NoReleaseForVersion(self.info.name.clone(), *version),
                    ),
                ),
            },
        }
    }
}

} // verus!
