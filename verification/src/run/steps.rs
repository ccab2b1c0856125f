//! Step helpers: the unified diff of a written file, and the Verify step's
//! adjustments for what the pure checks cannot see.

use vstd::prelude::*;

use crate::verify::{texts, CheckResult, CheckStatus, CheckView};

use crate::plugin::PluginFacts;
use crate::strings::{decimal, decimal_string};
use crate::svn::{code_of, fix_of, message_of, SvnError};
use crate::tools::{opt_view, Platform, ToolReport};
use crate::version::{newest, newest_of};

use super::model::{capitalised, ErrorView};
use super::RunFailure;

verus! {

broadcast use vstd::string::group_string_axioms;

/// The unified diff `similar` renders from `before` to `after`, with
/// `radius` lines of context and the two header names given.
pub uninterp spec fn similar_unified_diff(
    before: Seq<char>,
    after: Seq<char>,
    radius: nat,
    old_header: Seq<char>,
    new_header: Seq<char>,
) -> Seq<char>;

/// `similar::TextDiff::from_lines(before, after).unified_diff()` with
/// `context_radius(radius)` and `header(old_header, new_header)`, as text.
/// The default configuration has no deadline, so the text depends on the
/// arguments alone.
#[verifier::external_body]
fn render_unified_diff(before: &str, after: &str, radius: usize, old_header: &str, new_header: &str) -> (d: String)
    ensures
        d@ == similar_unified_diff(before@, after@, radius as nat, old_header@, new_header@),
{
    similar::TextDiff::from_lines(before, after)
        .unified_diff()
        .context_radius(radius)
        .header(old_header, new_header)
        .to_string()
}

/// Lines of context around each change in a file's diff.
pub const DIFF_CONTEXT_LINES: usize = 3;

/// The unified diff of `path` from `before` to `after`: three lines of
/// context, headers `a/<path>` and `b/<path>`.
pub open spec fn unified_diff_text(path: Seq<char>, before: Seq<char>, after: Seq<char>) -> Seq<char> {
    similar_unified_diff(before, after, DIFF_CONTEXT_LINES as nat, "a/"@ + path, "b/"@ + path)
}

/// The unified diff of `path` from `before` to `after`: three lines of
/// context, headers `a/<path>` and `b/<path>`.
pub fn unified_diff(path: &str, before: &str, after: &str) -> (d: String)
    ensures
        d@ == unified_diff_text(path@, before@, after@),
{
    let mut old_header = "a/".to_owned();
    old_header.append(path);
    let mut new_header = "b/".to_owned();
    new_header.append(path);
    render_unified_diff(before, after, DIFF_CONTEXT_LINES, old_header.as_str(), new_header.as_str())
}

/// Whether a check is one of V10–V12, the ones that need the package root.
pub open spec fn needs_package(id: Seq<char>) -> bool {
    id == "V10"@ || id == "V11"@ || id == "V12"@
}

/// A row after [`adjust`]: V10–V12 skipped while the package root does not
/// exist yet; V15 failed with the working-copy error when there is one.
pub open spec fn adjusted(c: CheckView, package_ready: bool, wc_error: Option<(Seq<char>, Option<Seq<char>>)>) -> CheckView {
    let c1 = if !package_ready && needs_package(c.id) {
        CheckView {
            id: c.id,
            severity: c.severity,
            status: CheckStatus::Skip,
            title: c.title,
            message: "Runs after the pre-build command creates the package root."@,
            fix: None,
            paths: Seq::empty(),
        }
    } else {
        c
    };
    match wc_error {
        Some((message, fix)) => if c1.id == "V15"@ {
            CheckView {
                id: c1.id,
                severity: c1.severity,
                status: CheckStatus::Fail,
                title: c1.title,
                message: "Could not check the working copy: "@ + message,
                fix,
                paths: c1.paths,
            }
        } else {
            c1
        },
        None => c1,
    }
}

/// The working-copy error as [`adjusted`] reads it.
pub open spec fn error_parts(e: Option<&ErrorView>) -> Option<(Seq<char>, Option<Seq<char>>)> {
    match e {
        Some(v) => Some((v.message@, crate::tools::opt_view(v.fix))),
        None => None,
    }
}

fn is_id(c: &CheckResult, id: &str) -> (b: bool)
    ensures
        b == (c.id@ == id@),
{
    c.id == id.to_owned()
}

/// Step 4 context the pure checks cannot see: a package root a pre-build
/// command has yet to create, and a server that could not be asked.
pub fn adjust(results: &mut Vec<CheckResult>, package_ready: bool, wc_error: Option<&ErrorView>)
    ensures
        final(results)@.len() == old(results)@.len(),
        forall|i: int| 0 <= i < old(results)@.len() ==> (#[trigger] final(results)@[i])@ == adjusted(
            old(results)@[i]@,
            package_ready,
            error_parts(wc_error),
        ),
{
    let mut i: usize = 0;
    while i < results.len()
        invariant
            i <= results@.len(),
            results@.len() == old(results)@.len(),
            forall|k: int| 0 <= k < i ==> (#[trigger] results@[k])@ == adjusted(old(results)@[k]@, package_ready, error_parts(wc_error)),
            forall|k: int| i <= k < results@.len() ==> #[trigger] results@[k] == old(results)@[k],
        decreases results@.len() - i,
    {
        let skip = !package_ready && (is_id(&results[i], "V10") || is_id(&results[i], "V11") || is_id(&results[i], "V12"));
        let fail_wc = is_id(&results[i], "V15") && wc_error.is_some();
        if skip || fail_wc {
            let id = results[i].id.clone();
            let title = results[i].title.clone();
            let severity = results[i].severity;
            let mut status = results[i].status;
            let mut message = results[i].message.clone();
            let mut fix = match &results[i].fix {
                Some(f) => Some(f.clone()),
                None => None,
            };
            let mut paths: Vec<String> = Vec::new();
            if !skip {
                let mut k: usize = 0;
                while k < results[i].paths.len()
                    invariant
                        i < results@.len(),
                        k <= results@[i as int].paths@.len(),
                        texts(paths@) == texts(results@[i as int].paths@).take(k as int),
                    decreases results@[i as int].paths@.len() - k,
                {
                    paths.push(results[i].paths[k].clone());
                    proof {
                        assert(texts(results@[i as int].paths@).take(k + 1) =~= texts(results@[i as int].paths@).take(
                            k as int,
                        ).push(results@[i as int].paths@[k as int]@));
                    }
                    k = k + 1;
                }
                proof {
                    assert(texts(results@[i as int].paths@).take(results@[i as int].paths@.len() as int) =~= texts(
                        results@[i as int].paths@,
                    ));
                }
            }
            if skip {
                status = CheckStatus::Skip;
                message = "Runs after the pre-build command creates the package root.".to_owned();
                fix = None;
                proof {
                    assert(texts(paths@) =~= Seq::<Seq<char>>::empty());
                }
            }
            if fail_wc {
                match wc_error {
                    Some(e) => {
                        status = CheckStatus::Fail;
                        let mut m = "Could not check the working copy: ".to_owned();
                        m.append(e.message.as_str());
                        message = m;
                        fix = match &e.fix {
                            Some(f) => Some(f.clone()),
                            None => None,
                        };
                    },
                    None => {},
                }
            }
            let row = CheckResult { id, severity, status, title, message, fix, paths };
            proof {
                reveal_strlit("V10");
                reveal_strlit("V11");
                reveal_strlit("V12");
                reveal_strlit("V15");
                assert("V15"@.len() == 3);
                assert("V10"@[2] != "V15"@[2]);
                assert("V11"@[2] != "V15"@[2]);
                assert("V12"@[2] != "V15"@[2]);
            }
            results.set(i, row);
        } else {
            proof {
                reveal_strlit("V15");
            }
        }
        i = i + 1;
    }
}

/// Detect's failure when Subversion cannot be used: the Doctor row's
/// sentence and fix; `None` when it can.
pub fn svn_unavailable(report: &ToolReport) -> (r: Option<RunFailure>)
    ensures
        report.ok <==> r is None,
        r matches Some(f) ==> !f.cancelled && f.error.code@ == "TOOLS_SVN_UNAVAILABLE"@ && f.error.message
            == report.message && f.error.fix == report.fix,
{
    if report.ok {
        None
    } else {
        let fix = match &report.fix {
            Some(x) => Some(x.clone()),
            None => None,
        };
        Some(RunFailure::new("TOOLS_SVN_UNAVAILABLE", report.message.clone(), fix))
    }
}

/// The notice when the server's tags could not be listed.
pub open spec fn tags_notice() -> Seq<char> {
    "Could not list tags on the server. The previous release comes from the local working copy only."@
}

/// What a failed tag listing means for Detect: a network failure only
/// costs the server's tags (a notice says so); any other stops the run
/// with that error (a cancellation as a cancellation).
pub fn tags_unavailable(e: &SvnError, platform: Platform) -> (r: Result<String, RunFailure>)
    ensures
        e is Network ==> (r matches Ok(n) && n@ == tags_notice()),
        !(e is Network) ==> (r matches Err(f) && (code_of(*e) == "CANCELLED"@ ==> f.cancelled) && (code_of(*e)
            != "CANCELLED"@ ==> !f.cancelled && f.error.code@ == code_of(*e) && f.error.message@ == capitalised(
            message_of(*e),
        ) && opt_view(f.error.fix) == fix_of(*e, platform))),
{
    match e {
        SvnError::Network { .. } => Ok(
            "Could not list tags on the server. The previous release comes from the local working copy only.".to_owned(),
        ),
        _ => {
            let message = e.message();
            Err(RunFailure::from_coded(e.code(), message.as_str(), e.fix(platform)))
        },
    }
}

/// The previous release: the newest valid version among trunk's header
/// version and the server's tags, as written.
pub fn previous_release(trunk_version: Option<&str>, tags: &[String]) -> (r: Option<String>)
    ensures
        opt_view(r) == (match newest_of(
            (match trunk_version {
                Some(t) => seq![t@],
                None => seq![],
            }) + tags@.map_values(|t: String| t@),
        ) {
            Some(v) => Some(v.raw),
            None => None,
        }),
{
    let mut candidates: Vec<&str> = Vec::new();
    match trunk_version {
        Some(t) => candidates.push(t),
        None => {},
    }
    let ghost head = candidates@.map_values(|c: &str| c@);
    proof {
        assert(head =~= (match trunk_version {
            Some(t) => seq![t@],
            None => seq![],
        }));
    }
    let mut i: usize = 0;
    while i < tags.len()
        invariant
            i <= tags@.len(),
            candidates@.map_values(|c: &str| c@) == head + tags@.map_values(|t: String| t@).subrange(0, i as int),
        decreases tags@.len() - i,
    {
        let ghost before = candidates@;
        candidates.push(tags[i].as_str());
        proof {
            assert(candidates@.map_values(|c: &str| c@) =~= before.map_values(|c: &str| c@).push(tags@[i as int]@));
            assert(tags@.map_values(|t: String| t@).subrange(0, i + 1) =~= tags@.map_values(|t: String| t@).subrange(
                0,
                i as int,
            ).push(tags@[i as int]@));
        }
        i = i + 1;
    }
    proof {
        assert(tags@.map_values(|t: String| t@).subrange(0, tags@.len() as int) =~= tags@.map_values(|t: String| t@));
    }
    match newest(candidates.as_slice()) {
        Some(v) => Some(v.as_str().to_owned()),
        None => None,
    }
}

/// Detect's summary: the plugin's name and header version, its slug, and
/// how many tags the server has.
pub fn detect_summary(facts: &PluginFacts, tags: usize) -> (s: String)
    ensures
        s@ == facts.name@ + " "@ + (match facts.header.version {
            Some(v) => v@,
            None => "(no version)"@,
        }) + " · "@ + facts.slug@ + " · "@ + decimal(tags as nat) + " tag(s) on the server"@,
{
    let mut s = facts.name.clone();
    s.append(" ");
    match &facts.header.version {
        Some(v) => s.append(v.as_str()),
        None => s.append("(no version)"),
    }
    s.append(" · ");
    s.append(facts.slug.as_str());
    s.append(" · ");
    s.append(decimal_string(tags as u64).as_str());
    s.append(" tag(s) on the server");
    s
}

/// Draft's failure when nothing changed since the previous release.
pub fn nothing_changed() -> (f: RunFailure)
    ensures
        !f.cancelled,
        f.error.code@ == "NOTHING_TO_RELEASE"@,
        f.error.message@ == "Nothing to release: the plugin matches the previous release."@,
        f.error.fix matches Some(x) && x@ == "Make your changes, then release again."@,
{
    RunFailure::new(
        "NOTHING_TO_RELEASE",
        "Nothing to release: the plugin matches the previous release.".to_owned(),
        Some("Make your changes, then release again.".to_owned()),
    )
}

/// Draft's summary once a version is approved.
pub fn draft_summary(version: &str, files: usize) -> (s: String)
    ensures
        s@ == "Version "@ + version@ + " approved · "@ + decimal(files as nat) + " changed file(s)"@,
{
    let mut s = "Version ".to_owned();
    s.append(version);
    s.append(" approved · ");
    s.append(decimal_string(files as u64).as_str());
    s.append(" changed file(s)");
    s
}

/// Write's summary.
pub fn write_summary(files: usize) -> (s: String)
    ensures
        s@ == decimal(files as nat) + " file(s) written"@,
{
    let mut s = decimal_string(files as u64);
    s.append(" file(s) written");
    s
}

/// Before the package root exists, V10, V11 and V12 are skipped with no fix
/// or paths; every other check keeps its outcome, except that V15 fails,
/// with the working-copy error's message and fix, when the server could not
/// be asked. The ID, severity and title of every row are kept.
pub proof fn lemma_adjust_skips_package_checks(
    c: CheckView,
    package_ready: bool,
    wc_error: Option<(Seq<char>, Option<Seq<char>>)>,
)
    ensures
        adjusted(c, package_ready, wc_error).id == c.id,
        adjusted(c, package_ready, wc_error).severity == c.severity,
        adjusted(c, package_ready, wc_error).title == c.title,
        !package_ready && (c.id == "V10"@ || c.id == "V11"@ || c.id == "V12"@) ==> adjusted(c, package_ready, wc_error).status
            == CheckStatus::Skip && adjusted(c, package_ready, wc_error).fix is None && adjusted(
            c,
            package_ready,
            wc_error,
        ).paths.len() == 0,
        (package_ready || (c.id != "V10"@ && c.id != "V11"@ && c.id != "V12"@)) && (wc_error is None || c.id
            != "V15"@) ==> adjusted(c, package_ready, wc_error) == c,
        match wc_error {
            Some((m, f)) => c.id == "V15"@ ==> adjusted(c, package_ready, wc_error).status == CheckStatus::Fail
                && adjusted(c, package_ready, wc_error).fix == f && adjusted(c, package_ready, wc_error).message
                == "Could not check the working copy: "@ + m,
            None => true,
        },
{
    reveal_strlit("V10");
    reveal_strlit("V11");
    reveal_strlit("V12");
    reveal_strlit("V15");
    assert("V15"@[2] != "V10"@[2] && "V15"@[2] != "V11"@[2] && "V15"@[2] != "V12"@[2]);
}

} // verus!
