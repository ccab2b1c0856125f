//! Steps 4 to 6 around the work the app does: the Verify verdict, the Build
//! step's command, checks, notices and summary, and the per-file diffs the
//! Preview keeps within a byte budget.

use vstd::prelude::*;
use vstd::string::StringSliceAdditionalSpecFns;
use vstd::utf8::{decode_utf8, encode_utf8, is_char_boundary};

use crate::plugin::PluginFacts;
use crate::strings::{decimal, decimal_string, to_chars, trim, trim_space};
use crate::verify::blocking::package_spec;
use crate::verify::{
    blocked, is_blocked, package_checks, views, CheckResult, CheckStatus, CheckView, FileRef, VerifyInput,
    WorkingCopyState,
};

use super::model::FileDiff;
use super::svn_steps::{human_size, human_size_text};
use super::RunFailure;

verus! {

broadcast use {vstd::string::group_string_axioms, vstd::utf8::group_utf8_lib};

/// How many checks failed, warnings included.
pub open spec fn failures(rs: Seq<CheckView>) -> nat
    decreases rs.len(),
{
    if rs.len() == 0 {
        0
    } else {
        failures(rs.drop_last()) + if rs.last().status == CheckStatus::Fail {
            1nat
        } else {
            0nat
        }
    }
}

/// The Verify step's summary when nothing blocks: how many warnings remain.
pub open spec fn verified_summary(rs: Seq<CheckView>) -> Seq<char> {
    "All blocking checks passed · "@ + decimal(failures(rs)) + " warning(s)"@
}

/// The Verify step's verdict on its results: `None` when a blocking check
/// failed, else the step's summary.
pub fn verify_verdict(results: &[CheckResult]) -> (r: Option<String>)
    ensures
        r is None <==> blocked(views(results@)),
        r matches Some(s) ==> s@ == verified_summary(views(results@)),
{
    if is_blocked(results) {
        return None;
    }
    let mut failed: u64 = 0;
    let mut i: usize = 0;
    while i < results.len()
        invariant
            i <= results@.len(),
            failed == failures(views(results@).subrange(0, i as int)),
            failed <= i,
        decreases results@.len() - i,
    {
        proof {
            let sub = views(results@).subrange(0, i + 1);
            assert(sub.drop_last() =~= views(results@).subrange(0, i as int));
            assert(sub.last() == results@[i as int]@);
        }
        if results[i].status == CheckStatus::Fail {
            failed = failed + 1;
        }
        i = i + 1;
    }
    proof {
        assert(views(results@).subrange(0, results@.len() as int) =~= views(results@));
    }
    let mut s = "All blocking checks passed · ".to_owned();
    let number = decimal_string(failed);
    s.append(number.as_str());
    s.append(" warning(s)");
    Some(s)
}

/// The pre-build command to run: the configured one unless it is blank.
pub fn pre_build(setting: Option<&str>) -> (r: Option<String>)
    ensures
        match setting {
            Some(c) => if trim(c@).len() == 0 {
                r is None
            } else {
                r matches Some(x) && x@ == c@
            },
            None => r is None,
        },
{
    match setting {
        Some(c) => {
            if trim_space(to_chars(c).as_slice()).len() == 0 {
                None
            } else {
                Some(c.to_owned())
            }
        },
        None => None,
    }
}

/// The version a package built outside a release is named by: the main
/// file's `Version` header; without one the build stops.
pub fn build_version(header_version: Option<String>) -> (r: Result<String, RunFailure>)
    ensures
        header_version matches Some(v) ==> r == Ok::<String, RunFailure>(v),
        header_version is None ==> (r matches Err(f) && !f.cancelled && f.error.code@ == "BUILD_NO_VERSION"@
            && f.error.message@ == "The main plugin file has no Version header."@ && (f.error.fix matches Some(x)
            && x@ == "Add \"Version: 1.0.0\" to the plugin header."@)),
{
    match header_version {
        Some(v) => Ok(v),
        None => Err(
            RunFailure::new(
                "BUILD_NO_VERSION",
                "The main plugin file has no Version header.".to_owned(),
                Some("Add \"Version: 1.0.0\" to the plugin header.".to_owned()),
            ),
        ),
    }
}

/// The failure when the package root (shown as `root`) does not exist.
pub fn missing_package_root(root: &str) -> (f: RunFailure)
    ensures
        !f.cancelled,
        f.error.code@ == "PACKAGE_ROOT_MISSING"@,
        f.error.message@ == "The package root "@ + root@ + " does not exist."@,
        f.error.fix matches Some(x) && x@ == "Check the package root and the pre-build command in project settings."@,
{
    let mut m = "The package root ".to_owned();
    m.append(root);
    m.append(" does not exist.");
    RunFailure::new(
        "PACKAGE_ROOT_MISSING",
        m,
        Some("Check the package root and the pre-build command in project settings.".to_owned()),
    )
}

/// What the package checks see of a staged package: its files and zip
/// entries, with nothing from the server, the readme or the working copy.
pub open spec fn staged_input<'a>(
    facts: &'a PluginFacts,
    version: &'a str,
    files: &'a [FileRef<'a>],
    zip_entries: &'a [String],
    required_paths: &'a [String],
    allow_phar: bool,
) -> VerifyInput<'a> {
    VerifyInput {
        facts,
        version,
        previous: None,
        server_tags: &[],
        readme_text: None,
        main_file_text: "",
        files,
        zip_entries: Some(zip_entries),
        required_paths,
        allow_phar,
        svn_version: None,
        working_copy: &WorkingCopyState::NotCreated,
        has_credentials: None,
        git_dirty: None,
        current_wordpress: None,
        assets: None,
        gitignored: &[],
    }
}

/// V10–V13 against the staged tree and its zip.
pub fn staged_checks(
    facts: &PluginFacts,
    version: &str,
    files: &[FileRef<'_>],
    zip_entries: &[String],
    required_paths: &[String],
    allow_phar: bool,
) -> (r: Vec<CheckResult>)
    ensures
        views(r@) == package_spec(staged_input(facts, version, files, zip_entries, required_paths, allow_phar)),
{
    let state = WorkingCopyState::NotCreated;
    let no_tags: Vec<String> = Vec::new();
    let no_paths: Vec<String> = Vec::new();
    let input = VerifyInput {
        facts,
        version,
        previous: None,
        server_tags: no_tags.as_slice(),
        readme_text: None,
        main_file_text: "",
        files,
        zip_entries: Some(zip_entries),
        required_paths,
        allow_phar,
        svn_version: None,
        working_copy: &state,
        has_credentials: None,
        git_dirty: None,
        current_wordpress: None,
        assets: None,
        gitignored: no_paths.as_slice(),
    };
    package_checks(&input)
}

/// The Build step's verdict on the staged package's checks.
pub fn build_verdict(rows: &[CheckResult]) -> (r: Result<(), RunFailure>)
    ensures
        r is Ok <==> !blocked(views(rows@)),
        r matches Err(f) ==> !f.cancelled && f.error.code@ == "CHECKS_FAILED"@ && f.error.message@
            == "The staged package failed a blocking check."@ && (f.error.fix matches Some(x) && x@
            == "Fix the package rules, then release again."@),
{
    if is_blocked(rows) {
        Err(
            RunFailure::new(
                "CHECKS_FAILED",
                "The staged package failed a blocking check.".to_owned(),
                Some("Fix the package rules, then release again.".to_owned()),
            ),
        )
    } else {
        Ok(())
    }
}

/// The notice for a packaged path longer than Windows tools accept.
pub fn long_path_notice(path: &str) -> (s: String)
    ensures
        s@ == path@ + " is longer than 260 characters; some tools reject long paths."@,
{
    let mut s = path.to_owned();
    s.append(" is longer than 260 characters; some tools reject long paths.");
    s
}

/// The Build step's summary: file count, size and the start of the SHA-256.
pub open spec fn build_summary_text(files: nat, bytes: nat, sha256: Seq<u8>) -> Seq<char> {
    decimal(files) + " file(s) · "@ + human_size_text(bytes) + " · SHA-256 "@ + decode_utf8(sha256.subrange(0, 12))
}

/// The Build step's summary: `<n> file(s) · <size> · SHA-256 <first 12>`.
pub fn build_summary(files: u64, bytes: u64, sha256: &str) -> (s: String)
    requires
        is_char_boundary(sha256.spec_bytes(), 12),
    ensures
        s@ == build_summary_text(files as nat, bytes as nat, sha256.spec_bytes()),
{
    let (head, _) = sha256.split_at(12);
    proof {
        vstd::utf8::encode_utf8_decode_utf8(head@);
        assert(encode_utf8(head@) == head.spec_bytes());
    }
    let mut s = decimal_string(files);
    s.append(" file(s) · ");
    let size = human_size(bytes);
    s.append(size.as_str());
    s.append(" · SHA-256 ");
    s.append(head);
    s
}

/// The marker a cut diff ends with.
pub open spec fn cut_marker() -> Seq<char> {
    "\n[diff cut short]\n"@
}

/// The last character boundary of `bytes` at or before `k`.
pub open spec fn boundary_at_or_before(bytes: Seq<u8>, k: int) -> int
    decreases k,
{
    if k <= 0 {
        0
    } else if is_char_boundary(bytes, k) {
        k
    } else {
        boundary_at_or_before(bytes, k - 1)
    }
}

/// A diff kept within `budget` bytes: whole when it fits, else cut at the
/// last character boundary within the budget, with a marker saying so.
pub open spec fn cut_text(diff: Seq<char>, budget: nat) -> Seq<char> {
    let b = encode_utf8(diff);
    if b.len() > budget {
        decode_utf8(b.subrange(0, boundary_at_or_before(b, budget as int))) + cut_marker()
    } else {
        diff
    }
}

/// One file's diff for the preview: keyed `<area>/<path>`, kept within the
/// remaining `budget`, and the budget left after it (never below zero).
pub fn area_diff(area: &str, path: &str, diff: String, budget: usize) -> (r: (FileDiff, usize))
    ensures
        r.0.path@ == area@ + "/"@ + path@,
        r.0.diff@ == cut_text(diff@, budget as nat),
        r.1 == (if encode_utf8(r.0.diff@).len() > budget {
            0
        } else {
            budget - encode_utf8(r.0.diff@).len()
        }),
{
    let ghost b = encode_utf8(diff@);
    let text = if diff.as_str().as_bytes().len() > budget {
        let mut cut = budget;
        while !diff.as_str().is_char_boundary(cut)
            invariant
                cut <= budget,
                budget < b.len(),
                b == encode_utf8(diff@),
                boundary_at_or_before(b, budget as int) == boundary_at_or_before(b, cut as int),
            decreases cut,
        {
            proof {
                assert(is_char_boundary(b, 0));
            }
            cut = cut - 1;
        }
        proof {
            assert(boundary_at_or_before(b, cut as int) == cut);
        }
        let (head, _) = diff.as_str().split_at(cut);
        proof {
            vstd::utf8::encode_utf8_decode_utf8(head@);
            assert(head.spec_bytes() == b.subrange(0, cut as int));
            assert(head@ == decode_utf8(b.subrange(0, cut as int)));
        }
        let mut t = head.to_owned();
        t.append("\n[diff cut short]\n");
        proof {
            assert(t@ == cut_text(diff@, budget as nat));
        }
        t
    } else {
        diff
    };
    assert(text@ == cut_text(diff@, budget as nat));
    let used = text.as_str().as_bytes().len();
    let left = if used > budget {
        0
    } else {
        budget - used
    };
    let mut key = area.to_owned();
    key.append("/");
    key.append(path);
    (FileDiff { path: key, diff: text }, left)
}

} // verus!
