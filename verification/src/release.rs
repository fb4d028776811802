//! Release artifact kinds and the structured wheel metadata document,
//! with its schema check and requirement extraction.

use vstd::prelude::*;

use crate::errors::{Error, ErrorKind};
use crate::strutil::str_eq;
use crate::version_req::{reqs_models, spec_parse_line, spec_parse_lines, LineError,
    PackageVersionReq, VersionConstraint};

verus! {

/// The kind of a published release artifact.
#[derive(Debug, Clone, Copy, PartialEq, Eq, Structural)]
pub enum ReleaseType {
    Sdist,
    BdistDumb,
    BdistEgg,
    BdistWheel,
    BdistWininst,
}

/// One `run_requires` (or `test_requires`) group of a wheel metadata
/// document: requirement strings that apply under an optional extra and an
/// optional environment marker.
#[derive(Debug, Clone)]
pub struct WheelRequiresGroup {
    pub extra: Option<String>,
    pub environment: Option<String>,
    pub requires: Vec<String>,
}

/// The metadata version this schema admits.
#[allow(non_camel_case_types)]
#[derive(Debug, Clone, Copy, PartialEq, Eq, Structural)]
pub enum WheelMetadataVersion {
    V2_0,
}

/// The structured metadata document found inside a wheel archive.
#[derive(Debug, Clone)]
pub struct WheelMetadata {
    pub keywords: Vec<String>,
    pub classifiers: Vec<String>,
    pub extensions: Vec<String>,
    pub extras: Vec<String>,
    pub generator: String,
    pub license: Option<String>,
    pub metadata_version: WheelMetadataVersion,
    pub name: String,
    pub requires: Option<String>,
    pub run_requires: Vec<WheelRequiresGroup>,
    pub test_requires: Vec<WheelRequiresGroup>,
    pub summary: String,
    pub version: String,
    pub download_url: Option<String>,
    pub platform: Option<String>,
    pub provides: Option<String>,
}

/// The views of a sequence of strings.
pub open spec fn strings_views(v: Seq<String>) -> Seq<Seq<char>> {
    v.map_values(|s: String| s@)
}

/// The requirement strings of the groups that carry neither an extra nor
/// an environment marker, flattened in order: the unconditional runtime
/// requirements of the document.
pub open spec fn spec_unconditional_lines(groups: Seq<WheelRequiresGroup>) -> Seq<Seq<char>>
    decreases groups.len(),
{
    if groups.len() == 0 {
        seq![]
    } else {
        (if groups[0].extra is None && groups[0].environment is None {
            strings_views(groups[0].requires@)
        } else {
            seq![]
        }) + spec_unconditional_lines(groups.drop_first())
    }
}

impl WheelMetadata {
    /// Extracts the unconditional runtime requirements: groups with an
    /// extra or an environment marker are excluded, and every requirement
    /// string of the remaining groups is parsed as a requirement line, in
    /// order, the first failure failing the whole extraction.
    pub fn to_version_reqs(&self) -> (r: Result<Vec<PackageVersionReq>, Error>)
        ensures
            match spec_parse_lines(spec_unconditional_lines(self.run_requires@)) {
                Ok(ms) => r matches Ok(v) && reqs_models(v@) == ms,
                Err((line, LineError::NoName)) => r matches Err(e) && (e.cause is None) && (
                e.kind matches ErrorKind::PackageNameRegexFailed(l) && l@ == line),
                Err((line, LineError::BadConstraint)) => r matches Err(e) && (e.cause is None) && (
                e.kind matches ErrorKind::Deserialization(l) && l@ == line),
            },
    {
        let ghost all = spec_unconditional_lines(self.run_requires@);
        let mut acc: Vec<PackageVersionReq> = Vec::new();
        let gn = self.run_requires.len();
        proof {
            assert(self.run_requires@.skip(0) =~= self.run_requires@);
            assert(reqs_models(acc@) =~= Seq::<(Seq<char>, Seq<VersionConstraint>)>::empty());
            match spec_parse_lines(all) {
                Ok(ms) => {
                    assert(reqs_models(acc@) + ms =~= ms);
                },
                Err(e) => {},
            }
        }
        let mut g: usize = 0;
        while g < gn
            invariant
                0 <= g <= gn,
                gn == self.run_requires@.len(),
                all == spec_unconditional_lines(self.run_requires@),
                spec_parse_lines(all) == (match spec_parse_lines(
                    spec_unconditional_lines(self.run_requires@.skip(g as int)),
                ) {
                    Err(e) => Err::<Seq<(Seq<char>, Seq<VersionConstraint>)>, (Seq<char>, LineError)>(e),
                    Ok(rest) => Ok(reqs_models(acc@) + rest),
                }),
            decreases gn - g,
        {
            let ghost gsuf = self.run_requires@.skip(g as int);
            proof {
                assert(gsuf[0] == self.run_requires@[g as int]);
                assert(gsuf.drop_first() =~= self.run_requires@.skip(g + 1));
            }
            if self.run_requires[g].extra.is_none() && self.run_requires[g].environment.is_none() {
                let rn = self.run_requires[g].requires.len();
                let ghost glines = strings_views(self.run_requires@[g as int].requires@);
                let ghost tail = spec_unconditional_lines(self.run_requires@.skip(g + 1));
                proof {
                    assert(glines.skip(0) =~= glines);
                    assert(spec_unconditional_lines(gsuf) == glines + tail);
                }
                let mut k: usize = 0;
                while k < rn
                    invariant
                        0 <= k <= rn,
                        g < self.run_requires@.len(),
                        rn == self.run_requires@[g as int].requires@.len(),
                        glines == strings_views(self.run_requires@[g as int].requires@),
                        tail == spec_unconditional_lines(self.run_requires@.skip(g + 1)),
                        all == spec_unconditional_lines(self.run_requires@),
                        spec_parse_lines(all) == (match spec_parse_lines(
                            glines.skip(k as int) + tail,
                        ) {
                            Err(e) => Err::<
                                Seq<(Seq<char>, Seq<VersionConstraint>)>,
                                (Seq<char>, LineError),
                            >(e),
                            Ok(rest) => Ok(reqs_models(acc@) + rest),
                        }),
                    decreases rn - k,
                {
                    let ghost lk = glines.skip(k as int) + tail;
                    proof {
                        assert(lk.len() > 0);
                        assert(lk[0] == self.run_requires@[g as int].requires@[k as int]@);
                        assert(lk.drop_first() =~= glines.skip(k + 1) + tail);
                    }
                    let line = &self.run_requires[g].requires[k];
                    match PackageVersionReq::parse_requires_txt_line(line.as_str()) {
                        Ok(req) => {
                            let ghost old_acc = acc@;
                            acc.push(req);
                            proof {
                                assert(reqs_models(acc@) =~= reqs_models(old_acc).push(
                                    (req.package_name@, req.version_reqs@),
                                ));
                                match spec_parse_lines(glines.skip(k + 1) + tail) {
                                    Err(e) => {},
                                    Ok(rest) => {
                                        assert(reqs_models(old_acc) + (seq![
                                            (req.package_name@, req.version_reqs@),
                                        ] + rest) =~= reqs_models(acc@) + rest);
                                    },
                                }
                            }
                        },
                        Err(e) => {
                            proof {
                                match spec_parse_line(lk[0]) {
                                    Err(le) => {
                                        assert(spec_parse_lines(lk) == Err::<
                                            Seq<(Seq<char>, Seq<VersionConstraint>)>,
                                            (Seq<char>, LineError),
                                        >((lk[0], le)));
                                    },
                                    Ok(m) => {
                                        assert(false);
                                    },
                                }
                            }
                            return Err(e);
                        },
                    }
                    k = k + 1;
                }
                proof {
                    assert(glines.skip(rn as int) =~= Seq::<Seq<char>>::empty());
                    assert(glines.skip(rn as int) + tail =~= tail);
                }
            } else {
                proof {
                    assert(spec_unconditional_lines(gsuf) =~= Seq::<Seq<char>>::empty()
                        + spec_unconditional_lines(self.run_requires@.skip(g + 1)));
                    assert(spec_unconditional_lines(gsuf) =~= spec_unconditional_lines(
                        self.run_requires@.skip(g + 1),
                    ));
                }
            }
            g = g + 1;
        }
        proof {
            assert(self.run_requires@.skip(gn as int) =~= Seq::<WheelRequiresGroup>::empty());
            match spec_parse_lines(all) {
                Ok(ms) => {
                    assert(reqs_models(acc@) + Seq::<(Seq<char>, Seq<VersionConstraint>)>::empty()
                        =~= reqs_models(acc@));
                },
                Err(e) => {},
            }
        }
        Ok(acc)
    }
}

/// True when `k` is one of the top-level keys of the wheel metadata
/// schema.
pub open spec fn spec_is_wheel_schema_key(k: Seq<char>) -> bool {
    ||| k == "keywords"@
    ||| k == "classifiers"@
    ||| k == "extensions"@
    ||| k == "extras"@
    ||| k == "generator"@
    ||| k == "license"@
    ||| k == "metadata_version"@
    ||| k == "name"@
    ||| k == "requires"@
    ||| k == "run_requires"@
    ||| k == "test_requires"@
    ||| k == "summary"@
    ||| k == "version"@
    ||| k == "download_url"@
    ||| k == "platform"@
    ||| k == "provides"@
}

/// True when `key` is a top-level key of the wheel metadata schema.
pub fn is_wheel_schema_key(key: &str) -> (r: bool)
    ensures
        r == spec_is_wheel_schema_key(key@),
{
    str_eq(key, "keywords") || str_eq(key, "classifiers") || str_eq(key, "extensions") || str_eq(
        key,
        "extras",
    ) || str_eq(key, "generator") || str_eq(key, "license") || str_eq(key, "metadata_version")
        || str_eq(key, "name") || str_eq(key, "requires") || str_eq(key, "run_requires") || str_eq(
        key,
        "test_requires",
    ) || str_eq(key, "summary") || str_eq(key, "version") || str_eq(key, "download_url") || str_eq(
        key,
        "platform",
    ) || str_eq(key, "provides")
}

/// Validates the top-level keys of a wheel metadata document against the
/// schema: one key outside the schema rejects the whole document.  The
/// error names the first unknown key.
pub fn validate_wheel_schema_keys(keys: &Vec<String>) -> (r: Result<(), Error>)
    ensures
        match r {
            Ok(()) => forall|i: int|
                0 <= i < keys@.len() ==> spec_is_wheel_schema_key(keys@[i]@),
            Err(e) => {
                &&& exists|j: int|
                    {
                        &&& 0 <= j < keys@.len()
                        &&& !spec_is_wheel_schema_key(keys@[j]@)
                        &&& forall|i: int| 0 <= i < j ==> spec_is_wheel_schema_key(keys@[i]@)
                        &&& e.kind matches ErrorKind::Deserialization(k) && k@ == keys@[j]@
                    }
                &&& e.cause is None
            },
        },
{
    let n = keys.len();
    let mut i: usize = 0;
    while i < n
        invariant
            0 <= i <= n,
            n == keys@.len(),
            forall|k: int| 0 <= k < i ==> spec_is_wheel_schema_key(keys@[k]@),
        decreases n - i,
    {
        if !is_wheel_schema_key(keys[i].as_str()) {
            let bad = keys[i].clone();
            return Err(Error::new(ErrorKind::Deserialization(bad)));
        }
        i = i + 1;
    }
    Ok(())
}

} // verus!
