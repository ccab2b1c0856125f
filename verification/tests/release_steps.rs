use svnpush_core::plugin::{Header, PluginFacts};
use svnpush_core::run::assets_only::{
    assets_checks, assets_folder_missing, assets_preview_summary, assets_publish_finish, assets_verdict,
    skip_release_steps, working_copy_verdict,
};
use svnpush_core::run::changes::{from_trunk, ChangeKind, ChangeSource};
use svnpush_core::run::journal::{Outcome, RunJournal};
use svnpush_core::run::model::{Phase, RunState, Step, StepStatus};
use svnpush_core::run::steps::{
    detect_summary, draft_summary, nothing_changed, previous_release, svn_unavailable, tags_unavailable,
    write_summary,
};
use svnpush_core::svn::sync::{ExistingFile, SourceFile};
use svnpush_core::svn::{Delta, SvnError};
use svnpush_core::tools::{Platform, ToolKind, ToolReport};
use svnpush_core::verify::{CheckResult, CheckStatus, Severity};

fn src(rel: &str, hash: &str) -> SourceFile {
    SourceFile { rel: rel.into(), hash: hash.into() }
}

fn wc(rel: &str, hash: &str) -> ExistingFile {
    ExistingFile { rel: rel.into(), hash: hash.into() }
}

fn fresh() -> (RunState, RunJournal) {
    (
        RunState::new("20250101-120000".into(), "/work/demo".into(), false),
        RunJournal::start("20250101-120000", "demo", "/work/demo", false, "2025-01-01T12:00:00Z".into()),
    )
}

fn row(id: &str, status: CheckStatus) -> CheckResult {
    CheckResult {
        id: id.into(),
        severity: Severity::Block,
        status,
        title: "t".into(),
        message: "m".into(),
        fix: None,
        paths: Vec::new(),
    }
}

#[test]
fn trunk_comparison_finds_all_three_kinds() {
    let listing = [src("same.php", "h-same"), src("changed.php", "h-new"), src("added.php", "h-a")];
    let trunk = [wc("same.php", "h-same"), wc("changed.php", "h-old"), wc("gone.php", "h-g")];
    let set = from_trunk(true, &listing, &trunk, Vec::new());
    assert_eq!(set.source, ChangeSource::Trunk);
    let summary: Vec<(&str, ChangeKind)> = set.files.iter().map(|f| (f.path.as_str(), f.kind)).collect();
    assert_eq!(
        summary,
        [("added.php", ChangeKind::Added), ("changed.php", ChangeKind::Modified), ("gone.php", ChangeKind::Deleted)]
    );
}

#[test]
fn identical_trees_have_nothing_to_release() {
    let listing = [src("a.php", "h")];
    let trunk = [wc("a.php", "h")];
    assert!(from_trunk(true, &listing, &trunk, Vec::new()).is_empty());
    let missing = from_trunk(false, &[], &trunk, Vec::new());
    assert_eq!(missing.source, ChangeSource::Unknown);
    assert!(!missing.is_empty());
}

#[test]
fn an_empty_trunk_is_a_first_release() {
    let listing = [src("b.php", "1"), src("a.php", "2")];
    let set = from_trunk(true, &listing, &[], vec!["Initial".into()]);
    assert_eq!(set.source, ChangeSource::FirstRelease);
    let paths: Vec<&str> = set.files.iter().map(|f| f.path.as_str()).collect();
    assert_eq!(paths, ["a.php", "b.php"]);
    assert!(set.files.iter().all(|f| f.kind == ChangeKind::Added));
    assert_eq!(set.commits, vec!["Initial".to_string()]);
}

#[test]
fn an_assets_only_release_skips_the_version_steps() {
    let (mut state, mut journal) = fresh();
    skip_release_steps(&mut state, &mut journal, "2026-09-17T12:00:00Z".into());
    for step in [Step::Draft, Step::Write, Step::Build] {
        let card = state.steps.iter().find(|c| c.step == step).unwrap();
        assert_eq!(card.status, StepStatus::Skipped);
        assert_eq!(card.summary.as_deref(), Some("Not part of an assets-only release."));
    }
    let recorded: Vec<Step> = journal.steps.iter().map(|r| r.step).collect();
    assert_eq!(recorded, [Step::Draft, Step::Write, Step::Build]);
}

#[test]
fn only_the_assets_checks_apply_to_an_assets_only_release() {
    let rows = vec![
        row("V01", CheckStatus::Fail),
        row("V14", CheckStatus::Pass),
        row("V15", CheckStatus::Fail),
        row("V16", CheckStatus::Fail),
        row("W04", CheckStatus::Pass),
    ];
    let kept: Vec<String> = assets_checks(rows).into_iter().map(|r| r.id).collect();
    assert_eq!(kept, ["V14", "V16", "W04"]);

    let failed = assets_verdict(&[row("V14", CheckStatus::Pass), row("V16", CheckStatus::Fail)]).unwrap_err();
    assert_eq!(failed.error.code, "CHECKS_FAILED");
    assert_eq!(failed.error.fix.as_deref(), Some("Fix each failed check, then try again."));
    assert!(assets_verdict(&[row("V14", CheckStatus::Pass)]).is_ok());

    let f = assets_folder_missing();
    assert_eq!(f.error.code, "ASSETS_FOLDER_MISSING");
    assert_eq!(f.error.message, "This project has no assets folder.");
}

#[test]
fn a_conflicted_working_copy_stops_the_preview() {
    let bad = [row("V15", CheckStatus::Fail)];
    let f = working_copy_verdict(&bad, true).unwrap_err();
    assert_eq!(f.error.message, "The working copy has conflicts or is out of date.");
    assert_eq!(f.error.fix.as_deref(), Some("Reset the working copy, then try again."));
    let f = working_copy_verdict(&bad, false).unwrap_err();
    assert_eq!(f.error.fix.as_deref(), Some("Reset the working copy, then release again."));
    assert!(working_copy_verdict(&[row("V15", CheckStatus::Pass)], false).is_ok());
}

#[test]
fn an_assets_preview_needs_a_change() {
    let none = Delta { added: vec![], modified: vec![], deleted: vec![] };
    let f = assets_preview_summary(&none).unwrap_err();
    assert_eq!(f.error.code, "NOTHING_TO_RELEASE");
    let some = Delta { added: vec!["banner-772x250.png".into()], modified: vec![], deleted: vec![] };
    assert_eq!(assets_preview_summary(&some).unwrap(), "assets +1 ~0 \u{2212}0");
}

#[test]
fn an_assets_publish_ends_verified_without_a_tag() {
    let (mut state, mut journal) = fresh();
    assets_publish_finish(&mut state, &mut journal, Some(77), "https://wordpress.org/plugins/demo/".into(), false, "2026-09-17T12:00:00Z".into());
    assert_eq!(state.phase, Phase::Verified);
    let card = state.steps.iter().find(|c| c.step == Step::Publish).unwrap();
    assert_eq!(card.summary.as_deref(), Some("assets r77"));
    let publish = state.publish.unwrap();
    assert_eq!(publish.tag_revision, None);
    assert_eq!(publish.trunk_revision, None);
    assert_eq!(journal.revisions.assets, Some(77));
    assert_eq!(journal.outcome, Some(Outcome::Complete));

    let (mut state, mut journal) = fresh();
    assets_publish_finish(&mut state, &mut journal, None, "u".into(), true, "2026-09-17T12:00:00Z".into());
    let card = state.steps.iter().find(|c| c.step == Step::Publish).unwrap();
    assert_eq!(card.summary.as_deref(), Some("assets unchanged"));
}

#[test]
fn detect_stops_when_subversion_cannot_run() {
    let ok = ToolReport {
        kind: ToolKind::Svn,
        path: Some("/usr/bin/svn".into()),
        version: Some("1.14.2".into()),
        ok: true,
        message: "Subversion 1.14.2".into(),
        fix: None,
    };
    assert!(svn_unavailable(&ok).is_none());
    let missing = ToolReport {
        kind: ToolKind::Svn,
        path: None,
        version: None,
        ok: false,
        message: "Subversion was not found.".into(),
        fix: Some("Install it.".into()),
    };
    let f = svn_unavailable(&missing).unwrap();
    assert_eq!(f.error.code, "TOOLS_SVN_UNAVAILABLE");
    assert_eq!(f.error.message, "Subversion was not found.");
    assert_eq!(f.error.fix.as_deref(), Some("Install it."));
}

#[test]
fn only_a_network_failure_keeps_detect_going_without_tags() {
    let notice = tags_unavailable(&SvnError::Network { detail: "timeout".into() }, Platform::Linux).unwrap();
    assert_eq!(
        notice,
        "Could not list tags on the server. The previous release comes from the local working copy only."
    );
    let f = tags_unavailable(&SvnError::Cancelled, Platform::Linux).unwrap_err();
    assert!(f.cancelled);
    let f = tags_unavailable(&SvnError::NotFound { detail: "no such path".into() }, Platform::Linux).unwrap_err();
    assert!(!f.cancelled);
    assert_eq!(f.error.code, "SVN_NOT_FOUND");
}

#[test]
fn the_previous_release_is_the_newest_valid_version() {
    let tags = vec!["1.0.0".to_string(), "1.10.0".to_string(), "not-a-version".to_string(), "1.9.0".to_string()];
    assert_eq!(previous_release(Some("1.2.0"), &tags).as_deref(), Some("1.10.0"));
    assert_eq!(previous_release(Some("2.0"), &tags).as_deref(), Some("2.0"));
    assert_eq!(previous_release(None, &[]), None);
    assert_eq!(previous_release(Some("trunk"), &[]), None);
}

#[test]
fn step_summaries_read_as_sentences() {
    let facts = PluginFacts {
        name: "Demo".into(),
        slug: "demo".into(),
        main_file: "demo.php".into(),
        header: Header {
            name: Some("Demo".into()),
            version: Some("1.2.0".into()),
            text_domain: None,
            requires_at_least: None,
            requires_php: None,
            license: None,
        },
        readme: None,
        versions: Vec::new(),
        folder_matches_slug: true,
        has_distignore: false,
        has_project_config: false,
    };
    assert_eq!(detect_summary(&facts, 3), "Demo 1.2.0 · demo · 3 tag(s) on the server");
    assert_eq!(draft_summary("1.3.0", 4), "Version 1.3.0 approved · 4 changed file(s)");
    assert_eq!(write_summary(2), "2 file(s) written");
    let f = nothing_changed();
    assert_eq!(f.error.code, "NOTHING_TO_RELEASE");
    assert_eq!(f.error.fix.as_deref(), Some("Make your changes, then release again."));
}
