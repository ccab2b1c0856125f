//! Settling the version an AI draft suggests.

use vstd::prelude::*;

use crate::strings::{to_chars, trim, trim_space, from_chars};
use crate::version::{lemma_next_patch_is_newer, next_patch_of, parse_version, version_order, Version};

verus! {

broadcast use vstd::string::group_string_axioms;

/// Whether the AI's suggestion is used as it stands: it is valid once trimmed,
/// and newer than the previous release when there is a valid one.
pub open spec fn suggestion_acceptable(suggested: Seq<char>, previous: Option<Seq<char>>) -> bool {
    match parse_version(trim(suggested)) {
        Some(v) => match previous {
            Some(p) => match parse_version(p) {
                Some(pv) => version_order(v, pv) > 0,
                None => true,
            },
            None => true,
        },
        None => false,
    }
}

/// The version and notice [`settle_version`] gives.
pub open spec fn settle_spec(suggested: Seq<char>, previous: Option<Seq<char>>, fallback: Seq<char>) -> (Seq<char>, Option<Seq<char>>) {
    if suggestion_acceptable(suggested, previous) {
        (trim(suggested), None)
    } else {
        let next = match previous {
            Some(p) => match parse_version(p) {
                Some(pv) => next_patch_of(pv).raw,
                None => fallback,
            },
            None => fallback,
        };
        let reason = match previous {
            Some(p) => "is not a valid version newer than "@ + p,
            None => "is not a valid version"@,
        };
        (next, Some("The AI suggested \""@ + suggested + "\", which "@ + reason + ". Using "@ + next + " instead."@))
    }
}

/// Settling needs the next patch of the previous release to fit a `u64`
/// when the suggestion is overridden.
pub open spec fn settle_ready(suggested: Seq<char>, previous: Option<Seq<char>>) -> bool {
    !suggestion_acceptable(suggested, previous) ==> match previous {
        Some(p) => match parse_version(p) {
            Some(pv) => pv.pre.len() > 0 || pv.patch < u64::MAX,
            None => true,
        },
        None => true,
    }
}

/// The version to use from an AI suggestion: overridden to the next patch when
/// it is invalid or not newer than the previous release, with a notice saying so.
pub fn settle_version(suggested: &str, previous: Option<&str>, fallback: &str) -> (r: (String, Option<String>))
    requires
        settle_ready(suggested@, match previous {
            Some(p) => Some(p@),
            None => None,
        }),
    ensures
        (r.0@, crate::tools::opt_view(r.1)) == settle_spec(suggested@, match previous {
            Some(p) => Some(p@),
            None => None,
        }, fallback@),
{
    let previous_version = match previous {
        Some(p) => match Version::parse(p) {
            Ok(v) => Some(v),
            Err(_) => None,
        },
        None => None,
    };
    let trimmed = from_chars(trim_space(to_chars(suggested).as_slice()).as_slice());
    let acceptable = match Version::parse(trimmed.as_str()) {
        Ok(v) => match &previous_version {
            Some(p) => v.is_newer_than(p),
            None => true,
        },
        Err(_) => false,
    };
    if acceptable {
        return (trimmed, None);
    }
    let next = match &previous_version {
        Some(p) => p.next_patch().as_str().to_owned(),
        None => fallback.to_owned(),
    };
    let mut notice = "The AI suggested \"".to_owned();
    notice.append(suggested);
    notice.append("\", which ");
    match previous {
        Some(p) => {
            notice.append("is not a valid version newer than ");
            notice.append(p);
        },
        None => notice.append("is not a valid version"),
    }
    notice.append(". Using ");
    notice.append(next.as_str());
    notice.append(" instead.");
    (next, Some(notice))
}

/// A settled AI version is newer than a valid previous release: the AI's
/// suggestion when it is valid and newer, else the previous release's next
/// patch, which always is.
pub proof fn lemma_settled_version_is_newer(suggested: Seq<char>, previous: Seq<char>, fallback: Seq<char>)
    requires
        parse_version(previous) is Some,
    ensures
        ({
            let pv = parse_version(previous)->0;
            let settled = settle_spec(suggested, Some(previous), fallback).0;
            &&& suggestion_acceptable(suggested, Some(previous)) ==> settled == trim(suggested) && (parse_version(
                settled,
            ) matches Some(v) && version_order(v, pv) > 0)
            &&& !suggestion_acceptable(suggested, Some(previous)) ==> settled == next_patch_of(pv).raw
                && version_order(next_patch_of(pv), pv) > 0
        }),
{
    lemma_next_patch_is_newer(parse_version(previous)->0);
}

} // verus!
