//! The lookup state machine: the decisions of a package lookup, with
//! every fetch and decode handed out to the driver as a step.

use vstd::prelude::*;

use crate::errors::{Error, ErrorKind};
use crate::parse_release::{parse_release_requirements, spec_sdist_outcome_err,
    spec_sdist_outcome_ok, spec_wheel_outcome_err, spec_wheel_outcome_ok, ReleaseScan};
use crate::pypi::{lemma_lookup_present, spec_build_index, spec_is_latest, spec_lookup,
    spec_selected, PypiPackage};
use crate::release::{spec_unconditional_lines, ReleaseType, WheelMetadata};
use crate::version_req::{reqs_models, spec_parse_lines, LineError, PackageVersionReq};

verus! {

/// The next move of a package lookup, as a state machine the driver runs:
/// each fetch or deserialization the library cannot perform itself is
/// handed out as a step, and every stage failure is terminal.
#[derive(Debug)]
pub enum LookupStep {
    /// Fetch the artifact at `url` and hand its bytes to `on_artifact`.
    FetchArtifact { url: String, release_type: ReleaseType },
    /// Deserialize this wheel metadata document and hand the result to
    /// `on_wheel_document`.
    ParseWheelDocument { document: Vec<u8> },
    /// The unconditional runtime requirements, fully extracted.
    Done { requires: Vec<PackageVersionReq> },
    /// A stage failed; the lookup is over.
    Failed { error: Error },
}

/// Advances a lookup once the registry metadata document has been fetched
/// and deserialized: resolves the latest released version and selects the
/// artifact to inspect for it, wheel before source distribution.
pub fn on_metadata(package: &PypiPackage) -> (r: LookupStep)
    ensures
        match spec_build_index(package.releases@) {
            Err(tag) => r matches LookupStep::Failed { error } && (
            error.kind matches ErrorKind::PackageHasNoReleasedVersions(n) && n@
                == package.info.name@) && (error.cause matches Some(c) && (c.cause is None) && (
            c.kind matches ErrorKind::NormalizeVersionStringRegexFailed(t) && t@ == tag)),
            Ok(es) => if es.len() == 0 {
                r matches LookupStep::Failed { error } && (error.cause is None) && (
                error.kind matches ErrorKind::PackageHasNoReleasedVersions(n) && n@
                    == package.info.name@)
            } else {
                exists|v: crate::version::Version|
                    #[trigger] spec_is_latest(es, v) && match spec_lookup(es, v) {
                        None => false,
                        Some(arts) => match spec_selected(arts) {
                            None => r matches LookupStep::Failed { error } && (
                            error.cause is None) && (
                            error.kind matches ErrorKind::NoReleaseForVersion(n, vv) && n@
                                == package.info.name@ && vv == v),
                            Some(m) => r matches LookupStep::FetchArtifact { url, release_type }
                                && url@ == m.url@ && release_type == m.package_type,
                        },
                    }
            },
        },
{
    let latest = match package.latest_version() {
        Ok(v) => v,
        Err(error) => {
            return LookupStep::Failed { error };
        },
    };
    let ghost es = spec_build_index(package.releases@)->Ok_0;
    proof {
        lemma_lookup_present(es, latest);
    }
    match package.get_requires_for_version(&latest) {
        Ok(m) => {
            let r = LookupStep::FetchArtifact { url: m.url, release_type: m.package_type };
            proof {
                assert(spec_is_latest(es, latest) && match spec_lookup(es, latest) {
                    None => false,
                    Some(arts) => match spec_selected(arts) {
                        None => false,
                        Some(sel) => r matches LookupStep::FetchArtifact { url, release_type }
                            && url@ == sel.url@ && release_type == sel.package_type,
                    },
                });
            }
            r
        },
        Err(error) => {
            let r = LookupStep::Failed { error };
            proof {
                assert(spec_is_latest(es, latest) && match spec_lookup(es, latest) {
                    None => false,
                    Some(arts) => match spec_selected(arts) {
                        None => r matches LookupStep::Failed { error: e2 } && (e2.cause is None)
                            && (e2.kind matches ErrorKind::NoReleaseForVersion(n, vv) && n@
                            == package.info.name@ && vv == latest),
                        Some(sel) => false,
                    },
                });
            }
            r
        },
    }
}

/// Advances a lookup once the selected artifact's bytes have been
/// fetched: inspects the archive.  A source distribution completes the
/// lookup; a wheel hands its metadata document out for structured
/// deserialization.
pub fn on_artifact(release_type: ReleaseType, bytes: &Vec<u8>) -> (r: LookupStep)
    requires
        release_type == ReleaseType::BdistWheel || release_type == ReleaseType::Sdist,
    ensures
        release_type == ReleaseType::BdistWheel ==> match r {
            LookupStep::ParseWheelDocument { document } => spec_wheel_outcome_ok(
                bytes@,
                document@,
            ),
            LookupStep::Failed { error } => spec_wheel_outcome_err(bytes@, error),
            _ => false,
        },
        release_type == ReleaseType::Sdist ==> match r {
            LookupStep::Done { requires: rq } => spec_sdist_outcome_ok(bytes@, reqs_models(rq@)),
            LookupStep::Failed { error } => spec_sdist_outcome_err(bytes@, error),
            _ => false,
        },
{
    match parse_release_requirements(bytes, release_type) {
        Ok(ReleaseScan::WheelDocument(document)) => LookupStep::ParseWheelDocument { document },
        Ok(ReleaseScan::Requirements(rq)) => LookupStep::Done { requires: rq },
        Err(error) => LookupStep::Failed { error },
    }
}

/// Completes a lookup once a wheel metadata document has been
/// deserialized: extracts its unconditional runtime requirements.
pub fn on_wheel_document(metadata: &WheelMetadata) -> (r: LookupStep)
    ensures
        match spec_parse_lines(spec_unconditional_lines(metadata.run_requires@)) {
            Ok(ms) => r matches LookupStep::Done { requires: rq } && reqs_models(rq@) == ms,
            Err((line, LineError::NoName)) => r matches LookupStep::Failed { error } && (
            error.cause is None) && (error.kind matches ErrorKind::PackageNameRegexFailed(l) && l@
                == line),
            Err((line, LineError::BadConstraint)) => r matches LookupStep::Failed { error } && (
            error.cause is None) && (error.kind matches ErrorKind::Deserialization(l) && l@
                == line),
        },
{
    match metadata.to_version_reqs() {
        Ok(rq) => LookupStep::Done { requires: rq },
        Err(error) => LookupStep::Failed { error },
    }
}

} // verus!
