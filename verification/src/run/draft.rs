//! The manual draft: sensible pre-filled values and validation of what the
//! developer approves.

use vstd::prelude::*;

use crate::plugin::{ChangelogEntry, PluginFacts};
use crate::strings::{join, lines, lines_of, starts_with, to_chars, trim, trim_space, trim_start, trim_start_space, from_chars, has_prefix};
use crate::verify::{join_texts, texts};
use crate::version::{next_patch_of, parse_version, version_order, Version};

use super::changes::ChangeSet;
use super::model::{ErrorView, ReleaseDraft};

verus! {

broadcast use vstd::string::group_string_axioms;

/// The version a text parses to, if any.
pub open spec fn parsed(t: Option<String>) -> Option<crate::version::VersionView> {
    match t {
        Some(s) => parse_version(s@),
        None => None,
    }
}

/// The version to pre-fill: the header's version when it is newer than the
/// previous release, otherwise the next patch of the previous release; the
/// header's version when there is no previous release; else `1.0.0`.
pub open spec fn suggested_spec(header: Option<String>, previous: Option<Seq<char>>) -> Seq<char> {
    let h = parsed(header);
    let p = match previous {
        Some(t) => parse_version(t),
        None => None,
    };
    match (h, p) {
        (Some(hv), Some(pv)) => if version_order(hv, pv) > 0 {
            hv.raw
        } else {
            next_patch_of(pv).raw
        },
        (None, Some(pv)) => next_patch_of(pv).raw,
        (Some(hv), None) => hv.raw,
        (None, None) => "1.0.0"@,
    }
}

/// Pre-filling needs the next patch of the previous release to fit a `u64`
/// when the header's version is not newer.
pub open spec fn suggest_ready(header: Option<String>, previous: Option<Seq<char>>) -> bool {
    let h = parsed(header);
    match previous {
        Some(t) => match parse_version(t) {
            Some(pv) => (h matches Some(hv) && version_order(hv, pv) > 0) || pv.pre.len() > 0 || pv.patch < u64::MAX,
            None => true,
        },
        None => true,
    }
}

/// The version to pre-fill: the header's version when it is already newer
/// than the previous release, otherwise the next patch.
pub fn suggested_version(facts: &PluginFacts, previous: Option<&str>) -> (r: String)
    requires
        suggest_ready(facts.header.version, match previous {
            Some(p) => Some(p@),
            None => None,
        }),
    ensures
        r@ == suggested_spec(facts.header.version, match previous {
            Some(p) => Some(p@),
            None => None,
        }),
{
    let header = match &facts.header.version {
        Some(v) => match Version::parse(v.as_str()) {
            Ok(h) => Some(h),
            Err(_) => None,
        },
        None => None,
    };
    let prev = match previous {
        Some(p) => match Version::parse(p) {
            Ok(v) => Some(v),
            Err(_) => None,
        },
        None => None,
    };
    match (header, prev) {
        (Some(h), Some(p)) => {
            if h.is_newer_than(&p) {
                h.as_str().to_owned()
            } else {
                p.next_patch().as_str().to_owned()
            }
        },
        (None, Some(p)) => p.next_patch().as_str().to_owned(),
        (Some(h), None) => h.as_str().to_owned(),
        (None, None) => "1.0.0".to_owned(),
    }
}

/// The body of the first entry written for `version`, if any.
pub open spec fn entry_body(entries: Seq<ChangelogEntry>, version: Seq<char>) -> Option<Seq<char>>
    decreases entries.len(),
{
    if entries.len() == 0 {
        None
    } else if entries[0].version matches Some(v) && v@ == version {
        Some(entries[0].body@)
    } else {
        entry_body(entries.skip(1), version)
    }
}

fn entry_for(entries: &Vec<ChangelogEntry>, version: &str) -> (r: Option<String>)
    ensures
        crate::tools::opt_view(r) == entry_body(entries@, version@),
{
    let wanted = version.to_owned();
    let mut i: usize = 0;
    proof {
        assert(entries@.skip(0) =~= entries@);
    }
    while i < entries.len()
        invariant
            i <= entries@.len(),
            wanted@ == version@,
            entry_body(entries@, version@) == entry_body(entries@.skip(i as int), version@),
        decreases entries@.len() - i,
    {
        proof {
            assert(entries@.skip(i as int).skip(1) =~= entries@.skip(i + 1));
            assert(entries@.skip(i as int)[0] == entries@[i as int]);
        }
        let hit = match &entries[i].version {
            Some(v) => *v == wanted,
            None => false,
        };
        if hit {
            return Some(entries[i].body.clone());
        }
        i = i + 1;
    }
    None
}

/// `* subject` for each commit.
pub open spec fn bullets(commits: Seq<Seq<char>>) -> Seq<Seq<char>> {
    commits.map_values(|c: Seq<char>| "* "@ + c)
}

/// The changelog and upgrade notice a pre-filled draft for `version` gets:
/// the readme's entries written for it, else the commit subjects as a list
/// (and no notice).
pub open spec fn prefill_spec(facts: PluginFacts, version: Seq<char>, commits: Seq<Seq<char>>) -> (Seq<char>, Seq<char>) {
    let changelog = match facts.readme {
        Some(r) => entry_body(r.changelog@, version),
        None => None,
    };
    let notice = match facts.readme {
        Some(r) => entry_body(r.upgrade_notice@, version),
        None => None,
    };
    (
        match changelog {
            Some(c) => c,
            None => join(bullets(commits), "\n"@),
        },
        match notice {
            Some(n) => n,
            None => Seq::empty(),
        },
    )
}

/// A draft pre-filled from the readme (an entry already written for this
/// version) or the commit subjects.
pub fn prefill(facts: &PluginFacts, version: &str, changes: &ChangeSet) -> (d: ReleaseDraft)
    ensures
        d.version@ == version@,
        d.reason@.len() == 0,
        (d.changelog_markdown@, d.upgrade_notice@) == prefill_spec(*facts, version@, texts(changes.commits@)),
        d.summary@.len() == 0,
        d.provider is None,
        d.fell_back_from is None,
{
    let from_readme = match &facts.readme {
        Some(r) => entry_for(&r.changelog, version),
        None => None,
    };
    let changelog = match from_readme {
        Some(c) => c,
        None => {
            let mut lines_v: Vec<String> = Vec::new();
            let mut i: usize = 0;
            while i < changes.commits.len()
                invariant
                    i <= changes.commits@.len(),
                    texts(lines_v@) == bullets(texts(changes.commits@.take(i as int))),
                decreases changes.commits@.len() - i,
            {
                let mut l = "* ".to_owned();
                l.append(changes.commits[i].as_str());
                lines_v.push(l);
                proof {
                    assert(bullets(texts(changes.commits@.take(i + 1))) =~= bullets(texts(changes.commits@.take(i as int))).push(
                        "* "@ + changes.commits@[i as int]@,
                    ));
                }
                i = i + 1;
            }
            proof {
                assert(changes.commits@.take(changes.commits@.len() as int) =~= changes.commits@);
            }
            join_texts(lines_v.as_slice(), "\n")
        },
    };
    let upgrade_notice = match &facts.readme {
        Some(r) => match entry_for(&r.upgrade_notice, version) {
            Some(n) => n,
            None => String::new(),
        },
        None => String::new(),
    };
    ReleaseDraft {
        version: version.to_owned(),
        reason: String::new(),
        changelog_markdown: changelog,
        upgrade_notice,
        summary: String::new(),
        provider: None,
        fell_back_from: None,
    }
}

/// Whether some line of `text` starts, after leading whitespace, with `==`.
pub open spec fn has_heading(text: Seq<char>) -> bool {
    exists|i: int| 0 <= i < lines(text).len() && starts_with(trim_start(#[trigger] lines(text)[i]), "=="@)
}

/// The error code, message and fix [`validate_draft`] refuses a draft with, if any.
pub open spec fn draft_problem(version: Seq<char>, changelog: Seq<char>) -> Option<(Seq<char>, Seq<char>, Seq<char>)> {
    if parse_version(trim(version)) is None {
        Some((
            "DRAFT_INVALID_VERSION"@,
            "\""@ + version + "\" is not a valid version."@,
            "Use x.y or x.y.z, optionally followed by a pre-release suffix such as -beta1."@,
        ))
    } else if trim(version) != version {
        Some(("DRAFT_INVALID_VERSION"@, "The version has leading or trailing spaces."@, "Remove the spaces."@))
    } else if trim(changelog).len() == 0 {
        Some(("DRAFT_EMPTY_CHANGELOG"@, "The changelog entry is empty."@, "Describe what changed in this release."@))
    } else if has_heading(changelog) {
        Some((
            "DRAFT_HEADING_IN_CHANGELOG"@,
            "The changelog entry contains a readme section heading."@,
            "Remove lines that start with ==."@,
        ))
    } else {
        None
    }
}

fn refuse(code: &str, message: String, fix: &str) -> (r: Result<(), ErrorView>)
    ensures
        r matches Err(e) && e.code@ == code@ && e.message == message && (e.fix matches Some(f) && f@ == fix@),
{
    Err(ErrorView::new(code, message, Some(fix.to_owned())))
}

/// Checks a draft before it is written. Version ordering is left to V03 so
/// the check table stays the single place that decides.
pub fn validate_draft(draft: &ReleaseDraft) -> (r: Result<(), ErrorView>)
    ensures
        match draft_problem(draft.version@, draft.changelog_markdown@) {
            None => r is Ok,
            Some((code, message, fix)) => r matches Err(e) && e.code@ == code && e.message@ == message
                && (e.fix matches Some(f) && f@ == fix),
        },
{
    let version_chars = to_chars(draft.version.as_str());
    let trimmed = from_chars(trim_space(version_chars.as_slice()).as_slice());
    if Version::parse(trimmed.as_str()).is_err() {
        let mut m = "\"".to_owned();
        m.append(draft.version.as_str());
        m.append("\" is not a valid version.");
        return refuse("DRAFT_INVALID_VERSION", m, "Use x.y or x.y.z, optionally followed by a pre-release suffix such as -beta1.");
    }
    if !(trimmed == draft.version) {
        return refuse("DRAFT_INVALID_VERSION", "The version has leading or trailing spaces.".to_owned(), "Remove the spaces.");
    }
    let log = to_chars(draft.changelog_markdown.as_str());
    if trim_space(log.as_slice()).len() == 0 {
        return refuse("DRAFT_EMPTY_CHANGELOG", "The changelog entry is empty.".to_owned(), "Describe what changed in this release.");
    }
    let ls = lines_of(log.as_slice());
    let ghost lv = lines(draft.changelog_markdown@);
    let marker = vec!['=', '='];
    proof {
        reveal_strlit("==");
        assert(marker@ =~= "=="@);
    }
    let mut i: usize = 0;
    while i < ls.len()
        invariant
            i <= ls@.len(),
            ls@.len() == lv.len(),
            lv == lines(draft.changelog_markdown@),
            marker@ == "=="@,
            parse_version(trim(draft.version@)) is Some,
            trim(draft.version@) == draft.version@,
            trim(draft.changelog_markdown@).len() > 0,
            forall|j: int| 0 <= j < ls@.len() ==> #[trigger] ls@[j]@ == lv[j],
            forall|j: int| 0 <= j < i ==> !starts_with(trim_start(#[trigger] lv[j]), "=="@),
        decreases ls@.len() - i,
    {
        let t = trim_start_space(ls[i].as_slice());
        if has_prefix(t.as_slice(), marker.as_slice()) {
            assert(starts_with(trim_start(lv[i as int]), "=="@));
            return refuse(
                "DRAFT_HEADING_IN_CHANGELOG",
                "The changelog entry contains a readme section heading.".to_owned(),
                "Remove lines that start with ==.",
            );
        }
        i = i + 1;
    }
    Ok(())
}

/// The pre-filled version is a valid version, and newer than the previous
/// release whenever that release's version is valid: the header's version
/// when it is newer already, else the next patch of the previous release.
pub proof fn lemma_suggestion_is_valid_and_newer(header: Option<String>, previous: Option<Seq<char>>)
    requires
        suggest_ready(header, previous),
    ensures
        parse_version(suggested_spec(header, previous)) is Some,
        match previous {
            Some(t) => match parse_version(t) {
                Some(pv) => version_order(parse_version(suggested_spec(header, previous))->0, pv) > 0,
                None => true,
            },
            None => true,
        },
{
    let h = parsed(header);
    let p = match previous {
        Some(t) => parse_version(t),
        None => None,
    };
    match p {
        Some(pv) => {
            if h is Some && version_order(h->0, pv) > 0 {
                crate::version::lemma_version_keeps_its_text((h->0).raw);
            } else {
                let np = next_patch_of(pv);
                crate::version::lemma_number_parts_fit(previous->0);
                crate::version::lemma_version_text_parses(np.major, np.minor, Some(np.patch), None);
                assert(crate::version::version_text(np.major, np.minor, Some(np.patch), None) =~= np.raw);
                crate::version::lemma_next_patch_is_newer(pv);
            }
        },
        None => {
            match h {
                Some(hv) => {
                    crate::version::lemma_version_keeps_its_text(hv.raw);
                },
                None => {
                    crate::version::lemma_version_text_parses(1, 0, Some(0), None);
                    reveal_strlit("1.0.0");
                    crate::version::lemma_decimal_small();
                    assert(crate::version::version_text(1, 0, Some(0), None) =~= "1.0.0"@);
                },
            }
        },
    }
}

/// A draft is accepted exactly when its version is valid with no spaces
/// around it and its changelog entry has text and no readme section
/// heading; an invalid version is refused first, an empty entry as empty.
pub proof fn lemma_draft_accepted(version: Seq<char>, changelog: Seq<char>)
    ensures
        draft_problem(version, changelog) is None <==> (parse_version(version) is Some && trim(version) == version
            && trim(changelog).len() > 0 && !has_heading(changelog)),
        parse_version(trim(version)) is None ==> (draft_problem(version, changelog)->0).0 == "DRAFT_INVALID_VERSION"@,
        (parse_version(version) is Some && trim(version) == version && trim(changelog).len() == 0) ==> (draft_problem(
            version,
            changelog,
        )->0).0 == "DRAFT_EMPTY_CHANGELOG"@,
{
}

} // verus!
