//! The engine-version gate: a template may require a semantic-version range
//! of the engine; a run under an engine outside the range is refused before
//! anything else happens.
use vstd::prelude::*;

use crate::GenError;
use crate::config::TemplateCfg;
use crate::strutil::to_owned_str;

verus! {

/// Whether `semver::VersionReq::parse` accepts the requirement text: a
/// function of the text alone.
pub uninterp spec fn spec_req_parses(text: Seq<char>) -> bool;

/// Whether `semver::Version::parse` accepts the version text: a function
/// of the text alone.
pub uninterp spec fn spec_version_parses(text: Seq<char>) -> bool;

/// What `semver::VersionReq::matches` answers for the parsed requirement
/// and the parsed version: a function of the two texts alone, meaningful
/// where both parse.
pub uninterp spec fn spec_req_met(req_text: Seq<char>, version_text: Seq<char>) -> bool;

/// Relies on semver::VersionReq::parse, semver::Version::parse and
/// VersionReq::matches: parsing accepts a fixed grammar and matching is
/// pure, so all three outcomes are functions of the two texts alone.
/// `None` tells a parse failure of either text apart from a verdict.
#[verifier::external_body]
fn semver_check(req_text: &str, version_text: &str) -> (r: Option<bool>)
    ensures
        r is Some <==> (spec_req_parses(req_text@) && spec_version_parses(version_text@)),
        r matches Some(m) ==> m == spec_req_met(req_text@, version_text@),
{
    let req = semver::VersionReq::parse(req_text).ok()?;
    let version = semver::Version::parse(version_text).ok()?;
    Some(req.matches(&version))
}

/// Turns the requirement-match verdict into the run's fate: a met
/// requirement lets the run continue, an unmet one refuses it, naming both
/// the requirement and the engine version.
pub fn version_gate(matches_req: bool, required: &str, actual: &str) -> (r: Result<(), GenError>)
    ensures
        r is Ok <==> matches_req,
        r matches Err(e) ==> e matches GenError::VersionMismatch { required: rq, actual: ac }
            && rq@ == required@ && ac@ == actual@,
{
    if matches_req {
        Ok(())
    } else {
        Err(
            GenError::VersionMismatch {
                required: to_owned_str(required),
                actual: to_owned_str(actual),
            },
        )
    }
}

/// Whether the configuration's version requirement lets an engine of the
/// given version run: no requirement always does; one that parses, against
/// an engine version that parses, exactly when the requirement is met.
pub open spec fn spec_version_ok(cfg: TemplateCfg, engine_version: Seq<char>) -> bool {
    match cfg.version_req {
        None => true,
        Some(req) => spec_req_parses(req@) && spec_version_parses(engine_version)
            && spec_req_met(req@, engine_version),
    }
}

/// Checks the template's engine-version requirement, when it declares one,
/// against the running engine's version: the run goes on if and only if
/// [`spec_version_ok`] holds — no requirement, or a met one. A requirement
/// or engine version that does not parse is told apart from an unmet
/// requirement, which names both sides.
pub fn check_cargo_generate_version(cfg: &TemplateCfg, engine_version: &str) -> (r: Result<
    (),
    GenError,
>)
    ensures
        r is Ok <==> spec_version_ok(*cfg, engine_version@),
        r matches Err(e) ==> cfg.version_req matches Some(vr) && match e {
            GenError::InvalidVersionReq => !(spec_req_parses(vr@) && spec_version_parses(
                engine_version@,
            )),
            GenError::VersionMismatch { required, actual } => {
                &&& required@ == vr@
                &&& actual@ == engine_version@
                &&& spec_req_parses(vr@)
                &&& spec_version_parses(engine_version@)
                &&& !spec_req_met(vr@, engine_version@)
            },
            _ => false,
        },
{
    match &cfg.version_req {
        None => Ok(()),
        Some(req_text) => {
            match semver_check(req_text.as_str(), engine_version) {
                None => Err(GenError::InvalidVersionReq),
                Some(m) => version_gate(m, req_text.as_str(), engine_version),
            }
        },
    }
}

} // verus!
