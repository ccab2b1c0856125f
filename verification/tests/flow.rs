use svnpush_core::run::flow::{
    begin, close_discarded, discard_plan, done, finish_dry_run, journal_save_notice, git_release_commands, git_release_notice, no_account, no_password,
    publish_finish, resume_finish, roll_back_notice, roll_back_plan, RollBackPart, resume_state, resume_tag_inputs, stages, stop, stop_plan, wait, Stage,
};
use svnpush_core::run::journal::{forget_snapshot, is_journal_file, prune_due, sort_newest_first, Outcome, RunJournal};
use svnpush_core::run::model::{ErrorView, FileDiff, Phase, RunState, Step, StepStatus};
use svnpush_core::run::snapshot::Snapshot;
use svnpush_core::run::RunFailure;
use svnpush_core::svn::TagVerification;

fn fresh() -> (RunState, RunJournal) {
    (
        RunState::new("20250101-120000".into(), "/work/demo".into(), false),
        RunJournal::start("20250101-120000", "demo", "/work/demo", false, "2025-01-01T12:00:00Z".into()),
    )
}

fn card(state: &RunState, step: Step) -> (StepStatus, Option<String>) {
    let v = state.steps.iter().find(|c| c.step == step).unwrap();
    (v.status, v.summary.clone())
}

#[test]
fn begin_runs_the_step_unless_cancelled() {
    let (mut state, _) = fresh();
    assert!(begin(&mut state, Step::Detect, Phase::Detecting, false).is_ok());
    assert_eq!(state.phase, Phase::Detecting);
    assert_eq!(card(&state, Step::Detect).0, StepStatus::Running);

    let (mut other, _) = fresh();
    let failure = begin(&mut other, Step::Detect, Phase::Detecting, true).unwrap_err();
    assert!(failure.cancelled);
    assert_eq!(failure.error.code, "CANCELLED");
    assert_eq!(other.phase, Phase::Idle);
    assert_eq!(card(&other, Step::Detect).0, StepStatus::Pending);
}

#[test]
fn done_marks_the_card_and_records_the_step() {
    let (mut state, mut journal) = fresh();
    begin(&mut state, Step::Draft, Phase::Drafting, false).unwrap();
    done(&mut state, &mut journal, Step::Draft, "Version 1.2.0 approved".into(), "2026-09-17T12:01:00Z".into());
    assert_eq!(card(&state, Step::Draft), (StepStatus::Done, Some("Version 1.2.0 approved".into())));
    assert_eq!(journal.steps.len(), 1);
    assert_eq!(journal.steps[0].step, Step::Draft);
    assert_eq!(journal.steps[0].status, StepStatus::Done);
    assert_eq!(journal.steps[0].at, "2026-09-17T12:01:00Z");
    assert_eq!(journal.last_step(), Some(Step::Draft));
}

#[test]
fn waiting_sets_the_phase_and_the_card() {
    let (mut state, _) = fresh();
    wait(&mut state, Step::Publish, Phase::AwaitingPublish);
    assert_eq!(state.phase, Phase::AwaitingPublish);
    assert_eq!(card(&state, Step::Publish).0, StepStatus::Waiting);
    assert_eq!(state.active_step(), Some(Step::Publish));
}

#[test]
fn stopping_rolls_back_only_before_trunk_is_committed() {
    let (mut state, mut journal) = fresh();
    begin(&mut state, Step::Build, Phase::Building, false).unwrap();
    let cancelled = RunFailure::cancelled();
    let plan = stop_plan(&state, &journal, &cancelled);
    assert_eq!(plan.step, Step::Build);
    assert!(plan.roll_back);
    assert!(plan.remove_build);

    let failed = RunFailure::new("CHECKS_FAILED", "Blocking checks failed.".into(), None);
    let plan = stop_plan(&state, &journal, &failed);
    assert!(plan.roll_back);
    assert!(!plan.remove_build);

    journal.revisions.trunk = Some(42);
    let plan = stop_plan(&state, &journal, &cancelled);
    assert!(!plan.roll_back);
    assert!(!plan.remove_build);
}

#[test]
fn a_stop_with_nothing_running_blames_detect() {
    let (state, journal) = fresh();
    let plan = stop_plan(&state, &journal, &RunFailure::cancelled());
    assert_eq!(plan.step, Step::Detect);
    assert!(!plan.remove_build);
}

#[test]
fn a_failed_stop_shows_the_error_and_records_the_step() {
    let (mut state, mut journal) = fresh();
    begin(&mut state, Step::Verify, Phase::Verifying, false).unwrap();
    let failure = RunFailure::new("CHECKS_FAILED", "Blocking checks failed.".into(), None);
    stop(&mut state, &mut journal, failure, Step::Verify, "2026-09-17T12:09:00Z".into());
    assert_eq!(state.phase, Phase::Failed);
    assert!(state.phase.is_terminal());
    assert_eq!(card(&state, Step::Verify), (StepStatus::Failed, Some("Blocking checks failed.".into())));
    assert_eq!(state.error.as_ref().unwrap().code, "CHECKS_FAILED");
    assert!(state.notices.is_empty());
    assert_eq!(journal.outcome, Some(Outcome::Failed(Step::Verify)));
    assert_eq!(journal.steps.last().unwrap().summary.as_deref(), Some("Blocking checks failed."));
    assert!(!journal.is_interrupted());
}

#[test]
fn a_cancelled_stop_after_the_trunk_commit_says_so() {
    let (mut state, mut journal) = fresh();
    journal.revisions.trunk = Some(7);
    stop(&mut state, &mut journal, RunFailure::cancelled(), Step::Publish, "2026-09-17T12:00:00Z".into());
    assert_eq!(state.phase, Phase::Cancelled);
    assert!(state.error.is_none());
    assert_eq!(card(&state, Step::Publish), (StepStatus::Failed, Some("Cancelled".into())));
    assert_eq!(
        state.notices,
        ["Trunk was already committed and cannot be undone. Use Resume to create the tag."]
    );
    assert_eq!(journal.outcome, Some(Outcome::Cancelled));
}

#[test]
fn a_dry_run_ends_without_publishing() {
    let (mut state, mut journal) = fresh();
    finish_dry_run(&mut state, &mut journal);
    assert_eq!(state.phase, Phase::DryRunComplete);
    assert_eq!(card(&state, Step::Publish), (StepStatus::Skipped, Some("Dry run: nothing was committed.".into())));
    assert_eq!(
        state.notices,
        ["Dry run complete. Your plugin files and the working copy are unchanged."]
    );
    assert_eq!(journal.outcome, Some(Outcome::DryRun));
}

#[test]
fn a_resumed_run_starts_at_the_tag() {
    let state = resume_state("r1".into(), "/work/demo".into());
    assert_eq!(state.phase, Phase::Publishing);
    assert!(!state.dry_run);
    assert_eq!(state.steps.len(), 7);
    for view in &state.steps[..6] {
        assert_eq!(view.status, StepStatus::Done);
    }
    assert_eq!(card(&state, Step::Publish), (StepStatus::Running, Some("Resuming: creating the tag".into())));
    assert_eq!(state.active_step(), Some(Step::Publish));
}

#[test]
fn resuming_needs_a_version_and_defaults_the_tag_message() {
    let (_, mut journal) = fresh();
    let failure = resume_tag_inputs(&journal).unwrap_err();
    assert_eq!(failure.error.code, "RESUME_NO_VERSION");
    assert_eq!(failure.error.message, "The journal has no version.");
    journal.version = Some("1.2.0".into());
    assert_eq!(resume_tag_inputs(&journal).unwrap(), ("1.2.0".to_owned(), "Tag 1.2.0".to_owned()));
    journal.tag_message = Some("Tagging 1.2.0".into());
    assert_eq!(resume_tag_inputs(&journal).unwrap().1, "Tagging 1.2.0");
}

#[test]
fn a_resumed_tag_completes_the_run() {
    let mut state = resume_state("r1".into(), "/work/demo".into());
    let (_, mut journal) = fresh();
    journal.revisions.trunk = Some(100);
    resume_finish(
        &mut state,
        &mut journal,
        Ok(("1.2.0".into(), 101, TagVerification::Verified)),
        "https://wordpress.org/plugins/demo/".into(),
        true,
        "done-at".into(),
    );
    assert_eq!(state.phase, Phase::Verified);
    assert_eq!(card(&state, Step::Publish), (StepStatus::Done, Some("tags/1.2.0 r101".into())));
    let publish = state.publish.unwrap();
    assert_eq!(publish.trunk_revision, Some(100));
    assert_eq!(publish.tag_revision, Some(101));
    assert_eq!(publish.plugin_url, "https://wordpress.org/plugins/demo/");
    assert!(publish.open_plugin_page);
    assert_eq!(journal.outcome, Some(Outcome::Complete));
    assert_eq!(journal.verification, Some(TagVerification::Verified));
    assert_eq!(journal.finished.as_deref(), Some("done-at"));
    assert_eq!((journal.revisions.trunk, journal.revisions.tag), (Some(100), Some(101)));
    assert!(!journal.needs_tag());
}

#[test]
fn an_unverified_or_failed_resume_is_reported() {
    let mut state = resume_state("r1".into(), "/w".into());
    let (_, mut journal) = fresh();
    resume_finish(
        &mut state,
        &mut journal,
        Ok(("2.0".into(), 5, TagVerification::Unverified("not listed yet".into()))),
        "u".into(),
        false,
        "f".into(),
    );
    assert_eq!(state.phase, Phase::PublishedUnverified);
    assert_eq!(journal.outcome, Some(Outcome::PublishedUnverified));

    let mut state = resume_state("r2".into(), "/w".into());
    let (_, mut journal) = fresh();
    let failure = RunFailure::new("SVN_FAILED", "The tag could not be created.".into(), None);
    resume_finish(&mut state, &mut journal, Err(failure), "u".into(), false, "f".into());
    assert_eq!(state.phase, Phase::Failed);
    assert_eq!(card(&state, Step::Publish), (StepStatus::Failed, Some("The tag could not be created.".into())));
    assert_eq!(state.error.as_ref().map(|e: &ErrorView| e.code.as_str()), Some("SVN_FAILED"));
    assert_eq!(journal.outcome, Some(Outcome::Failed(Step::Publish)));

    let mut state = resume_state("r3".into(), "/w".into());
    let (_, mut journal) = fresh();
    resume_finish(&mut state, &mut journal, Err(RunFailure::cancelled()), "u".into(), false, "f".into());
    assert_eq!(state.phase, Phase::Cancelled);
    assert!(state.error.is_none());
}

#[test]
fn a_verified_publish_completes_the_run() {
    let (mut state, mut journal) = fresh();
    begin(&mut state, Step::Publish, Phase::Publishing, false).unwrap();
    publish_finish(
        &mut state,
        &mut journal,
        Some(120),
        121,
        "1.4.0",
        TagVerification::Verified,
        "https://wordpress.org/plugins/demo/".into(),
        true,
        Some("/work/demo.zip".into()),
        "2026-09-17T12:09:00Z".into(),
    );
    assert_eq!(state.phase, Phase::Verified);
    assert_eq!(card(&state, Step::Publish), (StepStatus::Done, Some("trunk r120 · tags/1.4.0 r121".into())));
    assert!(state.notices.is_empty());
    let publish = state.publish.unwrap();
    assert_eq!(publish.trunk_revision, Some(120));
    assert_eq!(publish.tag_revision, Some(121));
    assert_eq!(publish.zip_path.as_deref(), Some("/work/demo.zip"));
    assert_eq!(journal.outcome, Some(Outcome::Complete));
    assert_eq!(journal.verification, Some(TagVerification::Verified));
    assert_eq!(journal.steps.last().unwrap().at, "2026-09-17T12:09:00Z");
}

#[test]
fn an_unverified_publish_with_unchanged_trunk_adds_a_notice() {
    let (mut state, mut journal) = fresh();
    publish_finish(
        &mut state,
        &mut journal,
        None,
        7,
        "2.0",
        TagVerification::Unverified("readme not found".into()),
        "u".into(),
        false,
        None,
        "2026-09-17T12:00:00Z".into(),
    );
    assert_eq!(state.phase, Phase::PublishedUnverified);
    assert_eq!(card(&state, Step::Publish).1, Some("trunk unchanged · tags/2.0 r7".into()));
    assert_eq!(
        state.notices,
        vec!["Published, but the tag could not be verified yet. Check the plugin page in a few minutes.".to_string()]
    );
    assert_eq!(journal.outcome, Some(Outcome::PublishedUnverified));
}

#[test]
fn missing_accounts_and_passwords_name_the_fix() {
    let f = no_account("plugins.svn.wordpress.org");
    assert_eq!(f.error.code, "VAULT_NO_ACCOUNT");
    assert_eq!(f.error.message, "No SVN account is set up for plugins.svn.wordpress.org.");
    assert!(f.error.fix.unwrap().starts_with("Open Vault, add your WordPress.org username"));
    assert!(!f.cancelled);

    let f = no_password("alice");
    assert_eq!(f.error.code, "VAULT_NO_CREDENTIALS");
    assert_eq!(f.error.message, "No SVN password is stored for alice.");
    assert_eq!(f.error.fix.as_deref(), Some("Open Vault and save the SVN password for this account."));
}

#[test]
fn a_release_is_committed_and_tagged_in_git() {
    let diffs = vec![
        FileDiff { path: "readme.txt".into(), diff: "-a\n+b\n".into() },
        FileDiff { path: "demo.php".into(), diff: String::new() },
    ];
    let (commit, tag) = git_release_commands("1.4.0", &diffs);
    assert_eq!(commit, vec!["commit", "-m", "Release 1.4.0", "--", "readme.txt", "demo.php"]);
    assert_eq!(tag, vec!["tag", "v1.4.0"]);

    let (commit, _) = git_release_commands("2.0", &[]);
    assert_eq!(commit, vec!["commit", "-m", "Release 2.0", "--"]);
}

#[test]
fn git_release_notices_cover_each_outcome() {
    assert_eq!(git_release_notice("1.0", true, true, true), None);
    assert_eq!(
        git_release_notice("1.0", false, false, false).as_deref(),
        Some("Git is not available, so no git tag was created.")
    );
    assert_eq!(
        git_release_notice("1.0", true, true, false).as_deref(),
        Some("The git commit or tag v1.0 could not be created. Create them yourself if you need them.")
    );
}

#[test]
fn journals_list_newest_first_and_detect_interruption() {
    let mut old = RunJournal::start("20260101-000000", "demo", "/p", false, "2026-01-01T00:00:00Z".into());
    old.outcome = Some(Outcome::Complete);
    let mut new = RunJournal::start("20260917-120000", "demo", "/p", false, "2026-09-17T12:01:00Z".into());
    new.record(Step::Publish, StepStatus::Running, None, "2026-09-17T12:02:00Z".into());
    new.revisions.trunk = Some(12);

    let all = sort_newest_first(vec![old, new]);
    assert_eq!(all.len(), 2);
    assert_eq!(all[0].id, "20260917-120000");
    assert!(all[0].is_interrupted());
    assert!(all[0].needs_tag());
    assert_eq!(all[0].last_step(), Some(Step::Publish));
    assert!(!all[1].is_interrupted());
    assert!(sort_newest_first(Vec::new()).is_empty());
    assert_eq!(all[0].file_name(), "20260917-120000.json");
    assert!(is_journal_file("20260917-120000.json"));
    assert!(!is_journal_file("notes.txt"));
    assert!(!is_journal_file(".json"));
}

#[test]
fn only_published_snapshots_past_the_retention_period_are_pruned() {
    let mut j = RunJournal::start("r", "demo", "/p", false, "2026-09-17T12:00:00Z".into());
    j.snapshot = Some("/snapshots/r".into());
    j.outcome = Some(Outcome::Complete);
    assert!(prune_due(&j, 604800));
    assert!(!prune_due(&j, 604799));
    j.outcome = Some(Outcome::Failed(Step::Build));
    assert!(!prune_due(&j, 10_000_000));
    j.outcome = Some(Outcome::PublishedUnverified);
    assert!(prune_due(&j, 10_000_000));
    forget_snapshot(&mut j);
    assert!(j.snapshot.is_none());
    assert!(!prune_due(&j, 10_000_000));
}

#[test]
fn discarding_undoes_local_changes_only_before_the_trunk_commit() {
    let mut j = RunJournal::start("r", "demo", "/p", false, "2026-09-17T12:00:00Z".into());
    j.snapshot = Some("/snap".into());
    let plan = discard_plan(&j, true, true);
    assert!(plan.restore_snapshot && plan.revert);
    let plan = discard_plan(&j, false, false);
    assert!(!plan.restore_snapshot && !plan.revert);
    j.revisions.trunk = Some(3);
    let plan = discard_plan(&j, true, true);
    assert!(!plan.restore_snapshot && !plan.revert);

    close_discarded(&mut j, "end".into());
    assert_eq!(j.outcome, Some(Outcome::Cancelled));
    assert_eq!(j.finished.as_deref(), Some("end"));
    assert!(j.discarded);

    let mut done = RunJournal::start("s", "demo", "/p", false, "2026-09-17T12:00:00Z".into());
    done.outcome = Some(Outcome::Complete);
    close_discarded(&mut done, "later".into());
    assert_eq!(done.outcome, Some(Outcome::Complete));
    assert!(done.finished.is_none());
    assert!(done.discarded);
    assert_eq!(journal_save_notice("disk full"), "Could not save the run journal: disk full");
}

#[test]
fn a_roll_back_undoes_only_what_the_run_did() {
    let plan = roll_back_plan(true, false, true, false);
    assert!(plan.restore_snapshot && !plan.revert && !plan.remove_build);
    let plan = roll_back_plan(false, true, true, true);
    assert!(!plan.restore_snapshot && plan.revert && plan.remove_build);
    assert_eq!(roll_back_notice(RollBackPart::Revert, "E155004: locked"), "Could not revert the working copy: E155004: locked");
    assert_eq!(roll_back_notice(RollBackPart::Restore, "gone"), "Could not restore changed files: gone");
    assert_eq!(roll_back_notice(RollBackPart::RemoveBuild, "busy"), "Could not remove the staged build: busy");
}

#[test]
fn a_snapshot_lists_the_files_it_holds() {
    let s = Snapshot::taken("/p".into(), "/snap".into(), &["inc/a.php".to_string(), "readme.txt".to_string()]);
    assert_eq!(s.files, ["inc/a.php", "readme.txt"]);
    assert_eq!((s.root.as_str(), s.dir.as_str()), ("/p", "/snap"));
    let walk = vec![("inc".to_string(), false), ("inc\\a.php".to_string(), true), ("readme.txt".to_string(), true)];
    let s = Snapshot::opened("/p".into(), "/snap".into(), &walk);
    assert_eq!(s.files, ["inc/a.php", "readme.txt"]);
}

#[test]
fn a_run_goes_through_its_stages_in_order() {
    assert_eq!(
        stages(false, false),
        [Stage::Detect, Stage::Draft, Stage::Write, Stage::Verify, Stage::Build, Stage::Preview, Stage::Publish]
    );
    assert_eq!(stages(true, false).last(), Some(&Stage::FinishDryRun));
    assert_eq!(
        stages(false, true),
        [Stage::Detect, Stage::SkipReleaseSteps, Stage::AssetsVerify, Stage::AssetsPreview, Stage::AssetsPublish]
    );
    assert_eq!(stages(true, true).last(), Some(&Stage::FinishDryRun));
}
