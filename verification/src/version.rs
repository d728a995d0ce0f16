//! Semantic versions, as the `semver` crate reads and orders them.

use vstd::prelude::*;

verus! {

/// The message of the error with which `semver::Version::parse` rejects
/// `text`; `None` where it accepts `text`.
pub uninterp spec fn semver_error(text: Seq<char>) -> Option<Seq<char>>;

/// Whether the version that `older` spells orders before the version that
/// `newer` spells, by the `<` of `semver::Version`. It has a meaning only
/// where `semver::Version::parse` accepts both texts.
pub uninterp spec fn semver_precedes(older: Seq<char>, newer: Seq<char>) -> bool;

/// Whether `text` spells a semantic version.
pub open spec fn is_version(text: Seq<char>) -> bool {
    semver_error(text) is None
}

/// Calls `semver::Version::parse` on `text` and hands back the message of
/// its error, if it fails.
///
/// Trusted: the result is what `semver_error` names, nothing more is
/// claimed of the parser.
#[verifier::external_body]
pub(crate) fn version_error(text: &str) -> (r: Option<String>)
    ensures
        r is None <==> semver_error(text@) is None,
        r matches Some(message) ==> semver_error(text@) == Some(message@),
{
    match semver::Version::parse(text) {
        Ok(_) => None,
        Err(e) => Some(e.to_string()),
    }
}

/// Parses both texts with `semver::Version::parse` and compares the two
/// versions with `<`.
///
/// Trusted: the result is what `semver_precedes` names. Both texts must
/// spell versions, so that neither parse fails.
#[verifier::external_body]
pub(crate) fn version_precedes(older: &str, newer: &str) -> (r: bool)
    requires
        is_version(older@),
        is_version(newer@),
    ensures
        r == semver_precedes(older@, newer@),
{
    let older = semver::Version::parse(older).unwrap();
    let newer = semver::Version::parse(newer).unwrap();
    older < newer
}

} // verus!
