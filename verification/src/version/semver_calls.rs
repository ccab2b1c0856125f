//! The two questions the version logic asks the `semver` crate.

use vstd::prelude::*;

use super::precedence::pre_order;
use super::{no_leading_zero, suffix_ok, well_formed_suffix};

verus! {

/// `semver::Prerelease::new`. For text made of dot-separated, non-empty ASCII
/// alphanumeric identifiers, the crate's parser fails only on an all-digit
/// identifier longer than one character that starts with `0`; this says
/// exactly that of the returned `is_ok`.
#[verifier::external_body]
pub(crate) fn prerelease_accepted(text: &str) -> (ok: bool)
    requires
        well_formed_suffix(text@),
    ensures
        ok == no_leading_zero(text@),
{
    semver::Prerelease::new(text).is_ok()
}

/// `Ord::cmp` of `semver::Prerelease`, on the pre-releases parsed from `a` and
/// `b` (both accepted by the parser, or empty). The crate compares as SemVer
/// prescribes, which `pre_order` states: no suffix ranks highest, identifiers
/// left to right, numeric ones by length then text, numeric below
/// alphanumeric, alphanumeric ones by text, and a longer list wins a tie.
/// The result is `-1`, `0` or `1` for less, equal, greater.
#[verifier::external_body]
pub(crate) fn prerelease_precedence(a: &str, b: &str) -> (o: i8)
    requires
        suffix_ok(a@),
        suffix_ok(b@),
    ensures
        o == pre_order(a@, b@),
{
    let left = semver::Prerelease::new(a).unwrap_or(semver::Prerelease::EMPTY);
    let right = semver::Prerelease::new(b).unwrap_or(semver::Prerelease::EMPTY);
    match left.cmp(&right) {
        std::cmp::Ordering::Less => -1,
        std::cmp::Ordering::Equal => 0,
        std::cmp::Ordering::Greater => 1,
    }
}

} // verus!
