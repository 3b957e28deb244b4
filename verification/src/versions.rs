//! Version-requirement matching, delegated to the semver library.

use vstd::prelude::*;

verus! {

pub uninterp spec fn version_req_match(req: Seq<char>, ver: Seq<char>) -> Option<bool>;

/// Relies on `semver::VersionReq::parse`, `semver::Version::parse` and
/// `semver::VersionReq::matches`: whether the version written in `ver`
/// satisfies the requirement written in `req` is a function of the two
/// strings alone. `None` stands for a requirement or version text that
/// semver does not accept.
#[verifier::external_body]
pub(crate) fn req_matches(req: &String, ver: &String) -> (r: Option<bool>)
    ensures
        r == version_req_match(req@, ver@),
{
    let parsed_req = match semver::VersionReq::parse(req) {
        Ok(parsed_req) => parsed_req,
        Err(_) => return None,
    };
    let parsed_ver = match semver::Version::parse(ver) {
        Ok(parsed_ver) => parsed_ver,
        Err(_) => return None,
    };
    Some(parsed_req.matches(&parsed_ver))
}

} // verus!
