use svnpush_core::plugin::{ChangelogEntry, Header, PluginFacts, Readme};
use svnpush_core::run::assist::settle_version;
use svnpush_core::run::changes::{parse_name_status, ChangeKind, ChangeSet, ChangeSource};
use svnpush_core::run::draft::{prefill, suggested_version, validate_draft};
use svnpush_core::run::explain::{fix_view, SuggestedFix};
use svnpush_core::run::files::normalise;
use svnpush_core::run::journal::{Outcome, RunJournal};
use svnpush_core::run::material::{looks_secret, priority, split_git_diff, Material};
use svnpush_core::run::model::{ErrorView, Phase, RunState, Step, StepStatus};
use svnpush_core::run::steps::adjust;
use svnpush_core::run::svn_steps::{delta_counts, human_size, preview_texts, replace_checks};
use svnpush_core::run::RunFailure;
use svnpush_core::svn::Delta;
use svnpush_core::verify::{CheckResult, CheckStatus, Severity};

#[test]
fn versions_not_newer_than_the_previous_release_are_overridden() {
    assert_eq!(settle_version("1.3.0", Some("1.2.0"), "1.2.1"), ("1.3.0".to_owned(), None));
    let (version, notice) = settle_version("1.2.0", Some("1.2.0"), "1.2.1");
    assert_eq!(version, "1.2.1");
    assert!(notice.unwrap().contains("newer than 1.2.0"));
    assert_eq!(settle_version("1.1", Some("1.2.0"), "x").0, "1.2.1");
    assert_eq!(settle_version("soon", None, "1.0.0").0, "1.0.0");
    assert_eq!(settle_version(" 2.0 ", None, "1.0.0"), ("2.0".to_owned(), None));
}

#[test]
fn overridden_suggestions_explain_why() {
    let (version, notice) = settle_version("soon", None, "1.0.0");
    assert_eq!(version, "1.0.0");
    assert_eq!(notice.as_deref(), Some("The AI suggested \"soon\", which is not a valid version. Using 1.0.0 instead."));
}

#[test]
fn parses_name_status_including_renames() {
    let out = "M\tplugin.php\nA\tinc/new.php\nD\told.php\nR100\tfrom.php\tto.php\n";
    let files = parse_name_status(out);
    assert_eq!(files.len(), 4);
    assert_eq!(files[3].path, "to.php");
    assert_eq!(files[3].kind, ChangeKind::Modified);
    assert_eq!(files[2].kind, ChangeKind::Deleted);
    assert!(parse_name_status("X\tweird\nM\n").is_empty());
}

fn fix(path: &str, original: &str, replacement: &str) -> SuggestedFix {
    SuggestedFix {
        check_id: "V06".into(),
        path: path.into(),
        original: original.into(),
        replacement: replacement.into(),
    }
}

#[test]
fn only_unique_readme_text_can_be_replaced() {
    let readme = "Stable tag: trunk\nTested up to: 6.0\n";
    let ok = fix_view(fix("readme.txt", "Stable tag: trunk", "Stable tag: 1.2.0"), Some(readme));
    assert_eq!(ok.problem, None);
    assert!(ok.diff.contains("-Stable tag: trunk\n+Stable tag: 1.2.0"));

    let code = fix_view(fix("plugin.php", "a", "b"), Some(readme));
    assert!(code.problem.unwrap().contains("Only readme.txt"));
    assert!(code.diff.is_empty());
    assert!(fix_view(fix("readme.txt", "Nope", "x"), Some(readme)).problem.unwrap().contains("not in"));
    assert!(fix_view(fix("readme.txt", ": ", "x"), Some(readme)).problem.unwrap().contains("more than once"));
    assert!(fix_view(fix("readme.txt", "", "x"), Some(readme)).problem.is_some());
    assert!(fix_view(fix("readme.txt", "a", "b"), None).problem.unwrap().contains("no readme"));
}

#[test]
fn saved_text_is_normalised() {
    assert_eq!(normalise("/docs\r\n.*\r\n\r\n"), "/docs\n.*\n");
    assert_eq!(normalise(""), "\n");
}

#[test]
fn git_diff_is_split_per_file() {
    let out = "diff --git a/a.php b/a.php\n--- a/a.php\n+++ b/a.php\n@@ -1 +1 @@\n-x\n+y\ndiff --git a/inc/b.js b/inc/b.js\n+z\n";
    let files = split_git_diff(out);
    assert_eq!(files.len(), 2);
    let a = &files.iter().find(|(p, _)| p == "a.php").unwrap().1;
    assert!(a.starts_with("diff --git a/a.php"));
    assert!(a.ends_with("+y\n"));
    let b = &files.iter().find(|(p, _)| p == "inc/b.js").unwrap().1;
    assert_eq!(b, "diff --git a/inc/b.js b/inc/b.js\n+z\n");
}

#[test]
fn human_sizes() {
    assert_eq!(human_size(12), "12 B");
    assert_eq!(human_size(2048), "2 KB");
    assert_eq!(human_size(3 * 1024 * 1024 / 2), "1.5 MB");
}

#[test]
fn human_sizes_round_like_float_formatting() {
    for bytes in [0u64, 1023, 1024, 1535, 1536, 2560, 3584, 1048575, 1048576, 1101004, 1153433, 1205862, 10485760, 123456789, 5 * 1048576 + 52428] {
        let value = bytes as f64;
        let expected = if bytes >= 1024 * 1024 {
            format!("{:.1} MB", value / (1024.0 * 1024.0))
        } else if bytes >= 1024 {
            format!("{:.0} KB", value / 1024.0)
        } else {
            format!("{bytes} B")
        };
        assert_eq!(human_size(bytes), expected, "{bytes}");
    }
}

#[test]
fn delta_counts_and_preview_texts() {
    let d = Delta { added: vec!["a".into(), "b".into()], modified: vec![], deleted: vec!["c/".into()] };
    assert_eq!(delta_counts(&d), "+2 ~0 \u{2212}1");
    let (trunk, tag, url) = preview_texts("https://plugins.svn.wordpress.org/demo/", "1.2.0");
    assert_eq!(trunk, "Release 1.2.0");
    assert_eq!(tag, "Tag 1.2.0");
    assert_eq!(url, "https://plugins.svn.wordpress.org/demo/tags/1.2.0");
}

#[test]
fn secrets_and_priorities() {
    for secret in [".env", "config/.env.local", "certs/site.pem", "private.key", "wp-config.php", "A/WP-CONFIG.PHP"] {
        assert!(looks_secret(secret), "{secret}");
    }
    for kept in ["plugin.php", "readme.txt", "assets/app.js", "environment.js", "keys/id_rsa"] {
        assert!(!looks_secret(kept), "{kept}");
    }
    assert_eq!(priority("readme.txt"), 0);
    assert_eq!(priority("inc/a.PHP"), 0);
    assert_eq!(priority("assets/app.js"), 1);
    assert_eq!(priority("style.scss"), 1);
    assert_eq!(priority("images/logo.png"), 2);
    assert_eq!(priority(".php"), 2);
}

#[test]
fn material_joins_and_budgets() {
    let empty = Material { stat: String::new(), diffs: vec![], withheld: vec![] };
    assert_eq!(empty.joined(), "No text diff is available for these files.");
    assert_eq!(empty.diff_chars(), 0);
    let m = Material {
        stat: String::new(),
        diffs: vec![("a".into(), "xé".into()), ("b".into(), "yy".into())],
        withheld: vec![],
    };
    assert_eq!(m.joined(), "xé\nyy");
    assert_eq!(m.diff_chars(), 4);
    assert!(m.needs_summaries(3));
    assert!(!m.needs_summaries(4));
}

fn facts(header_version: &str, readme: Option<Readme>) -> PluginFacts {
    PluginFacts {
        name: "P".into(),
        slug: "p".into(),
        main_file: "p.php".into(),
        header: Header {
            name: None,
            version: Some(header_version.into()),
            text_domain: None,
            requires_at_least: None,
            requires_php: None,
            license: None,
        },
        readme,
        versions: Vec::new(),
        folder_matches_slug: true,
        has_distignore: false,
        has_project_config: false,
    }
}

fn entry(version: &str, body: &str) -> ChangelogEntry {
    ChangelogEntry { title: version.into(), version: Some(version.into()), body: body.into() }
}

fn readme_with_entries() -> Readme {
    let mut r = Readme::empty();
    r.name = Some("P".into());
    r.changelog = vec![entry("1.2.0", "* Written already.")];
    r.upgrade_notice = vec![entry("1.2.0", "Update.")];
    r
}

fn changes(commits: &[&str]) -> ChangeSet {
    ChangeSet {
        source: ChangeSource::Git,
        base: Some("v1.0.0".into()),
        files: Vec::new(),
        commits: commits.iter().map(|c| (*c).to_owned()).collect(),
    }
}

#[test]
fn suggests_the_bumped_header_or_the_next_patch() {
    assert_eq!(suggested_version(&facts("1.2.0", None), Some("1.1.0")), "1.2.0");
    assert_eq!(suggested_version(&facts("1.1.0", None), Some("1.1.0")), "1.1.1");
    assert_eq!(suggested_version(&facts("0.9", None), None), "0.9");
    assert_eq!(suggested_version(&facts("bad", None), None), "1.0.0");
}

#[test]
fn prefills_from_an_existing_entry_or_commits() {
    let d = prefill(&facts("1.2.0", Some(readme_with_entries())), "1.2.0", &changes(&["Fix a"]));
    assert_eq!(d.changelog_markdown, "* Written already.");
    assert_eq!(d.upgrade_notice, "Update.");
    let d = prefill(&facts("1.2.0", Some(readme_with_entries())), "1.3.0", &changes(&["Fix a", "Add b"]));
    assert_eq!(d.changelog_markdown, "* Fix a\n* Add b");
    assert_eq!(d.upgrade_notice, "");
}

#[test]
fn validation() {
    let mut d = prefill(&facts("1.0", None), "1.0.1", &changes(&["x"]));
    assert!(validate_draft(&d).is_ok());
    d.version = "1.0.1 ".into();
    assert_eq!(validate_draft(&d).unwrap_err().code, "DRAFT_INVALID_VERSION");
    d.version = "one".into();
    assert_eq!(validate_draft(&d).unwrap_err().code, "DRAFT_INVALID_VERSION");
    d.version = "1.0.1".into();
    d.changelog_markdown = "  ".into();
    assert_eq!(validate_draft(&d).unwrap_err().code, "DRAFT_EMPTY_CHANGELOG");
    d.changelog_markdown = "* a\n== FAQ ==".into();
    assert_eq!(validate_draft(&d).unwrap_err().code, "DRAFT_HEADING_IN_CHANGELOG");
}

#[test]
fn change_sets_know_when_nothing_changed() {
    let mut c = changes(&[]);
    assert!(c.is_empty());
    c.source = ChangeSource::Unknown;
    assert!(!c.is_empty());
}

fn row(id: &str, status: CheckStatus) -> CheckResult {
    CheckResult {
        id: id.into(),
        severity: Severity::Block,
        status,
        title: "t".into(),
        message: "m".into(),
        fix: Some("f".into()),
        paths: vec!["p".into()],
    }
}

#[test]
fn adjust_skips_package_checks_and_reports_working_copy_errors() {
    let mut rows = vec![row("V10", CheckStatus::Fail), row("V15", CheckStatus::Pass), row("V01", CheckStatus::Pass)];
    let error = ErrorView::new("SVN_NETWORK", "could not reach the SVN server".into(), Some("Check your connection.".into()));
    adjust(&mut rows, false, Some(&error));
    assert_eq!(rows[0].status, CheckStatus::Skip);
    assert_eq!(rows[0].message, "Runs after the pre-build command creates the package root.");
    assert!(rows[0].fix.is_none());
    assert!(rows[0].paths.is_empty());
    assert_eq!(rows[1].status, CheckStatus::Fail);
    assert_eq!(rows[1].message, "Could not check the working copy: could not reach the SVN server");
    assert_eq!(rows[1].fix.as_deref(), Some("Check your connection."));
    assert_eq!(rows[2].status, CheckStatus::Pass);
}

#[test]
fn replacing_checks_keeps_the_table_order() {
    let mut table = vec![row("V01", CheckStatus::Pass), row("V10", CheckStatus::Pass)];
    replace_checks(&mut table, vec![row("V10", CheckStatus::Fail), row("V15", CheckStatus::Fail)]);
    let ids: Vec<&str> = table.iter().map(|r| r.id.as_str()).collect();
    assert_eq!(ids, ["V01", "V10", "V15"]);
    assert_eq!(table[1].status, CheckStatus::Fail);
}

#[test]
fn run_state_starts_pending_and_tracks_the_active_step() {
    let mut s = RunState::new("20260101-000000".into(), "/p".into(), true);
    assert_eq!(s.phase, Phase::Idle);
    assert!(!s.phase.is_terminal());
    assert_eq!(s.steps.len(), 7);
    assert_eq!(s.steps[6].step.number(), 7);
    assert!(s.active_step().is_none());
    s.set_step(Step::Verify, StepStatus::Running, None);
    assert_eq!(s.active_step(), Some(Step::Verify));
    s.set_step(Step::Verify, StepStatus::Done, Some("ok".into()));
    s.set_step(Step::Verify, StepStatus::Done, None);
    assert_eq!(s.steps[3].summary.as_deref(), Some("ok"));
    assert!(s.active_step().is_none());
    assert!(Phase::DryRunComplete.is_terminal());
}

#[test]
fn journals_detect_interruption_and_a_missing_tag() {
    let mut j = RunJournal::start("20260917-120000", "demo", "/p", false, "2026-09-17T12:00:00Z".into());
    assert!(j.is_interrupted());
    assert!(j.last_step().is_none());
    j.record(Step::Publish, StepStatus::Running, None, "2026-09-17T12:01:00Z".into());
    j.revisions.trunk = Some(12);
    assert!(j.needs_tag());
    assert_eq!(j.last_step(), Some(Step::Publish));
    j.outcome = Some(Outcome::Failed(Step::Publish));
    assert!(!j.is_interrupted());
    assert_eq!(j.outcome.unwrap().label(), "Failed");
    j.discarded = true;
    assert!(!j.needs_tag());
}

#[test]
fn a_trunk_commit_waits_for_its_tag_until_the_tag_is_recorded() {
    let mut j = RunJournal::start("20260917-120000", "demo", "/p", false, "2026-09-17T12:00:00Z".into());
    j.record_trunk(Some(120), "Tagging 1.4.0".into());
    assert_eq!(j.revisions.trunk, Some(120));
    assert_eq!(j.tag_message.as_deref(), Some("Tagging 1.4.0"));
    assert!(j.needs_tag());
    j.record_tag(121);
    assert_eq!((j.revisions.trunk, j.revisions.tag), (Some(120), Some(121)));
    assert!(!j.needs_tag());

    let mut unchanged = RunJournal::start("20260917-130000", "demo", "/p", false, "2026-09-17T13:00:00Z".into());
    unchanged.record_trunk(None, "Tagging 1.4.1".into());
    assert!(!unchanged.needs_tag());
}

#[test]
fn run_failures() {
    let c = RunFailure::cancelled();
    assert!(c.cancelled);
    assert_eq!(c.error.code, "CANCELLED");
    let io = RunFailure::io("write", "/p/.distignore", "denied");
    assert_eq!(io.error.message, "Could not write /p/.distignore: denied");
    let f = RunFailure::from_coded("SVN_NETWORK", "could not reach the SVN server: x", None);
    assert!(!f.cancelled);
    assert_eq!(f.error.message, "Could not reach the SVN server: x");
    assert!(RunFailure::from_coded("CANCELLED", "cancelled", None).cancelled);
}

#[test]
fn steps_order_as_the_protocol_runs_them() {
    let all = [Step::Detect, Step::Draft, Step::Write, Step::Verify, Step::Build, Step::Preview, Step::Publish];
    for w in all.windows(2) {
        assert!(w[0] < w[1]);
    }
    assert_eq!(all.iter().max(), Some(&Step::Publish));
}
