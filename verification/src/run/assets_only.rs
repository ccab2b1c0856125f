//! The assets-only release: sync `assets/` from the project's assets folder
//! and commit it alone, with no version change and no tag. It uses the same
//! checklist, preview and Publish confirmation; these are its decisions.

use vstd::prelude::*;

use crate::clock::is_utc_time;
use crate::sorting::same_text;
use crate::strings::{decimal, decimal_string};
use crate::svn::Delta;
use crate::verify::{blocked, is_blocked, views, CheckResult};

use super::flow::done;
use super::journal::{same_but_records, Outcome, RunJournal, StepRecord};
use super::model::{card_set, same_but_cards, Phase, PublishResult, RunState, Step, StepStatus};
use super::svn_steps::{delta_counts, delta_text};
use super::RunFailure;

verus! {

broadcast use vstd::string::group_string_axioms;

/// The summary of the steps an assets-only release skips.
pub open spec fn skipped_text() -> Seq<char> {
    "Not part of an assets-only release."@
}

/// Skips Draft, Write and Build: each card and journal record says why.
pub fn skip_release_steps(state: &mut RunState, journal: &mut RunJournal, at: String)
    requires
        is_utc_time(at@),
    ensures
        (exists|s: String|
            s@ == skipped_text() && final(state).steps@ == card_set(
                card_set(card_set(old(state).steps@, Step::Draft, StepStatus::Skipped, Some(s)), Step::Write, StepStatus::Skipped, Some(s)),
                Step::Build,
                StepStatus::Skipped,
                Some(s),
            ) && final(journal).steps@ == old(journal).steps@.push(
                StepRecord { step: Step::Draft, status: StepStatus::Skipped, at, summary: Some(s) },
            ).push(StepRecord { step: Step::Write, status: StepStatus::Skipped, at, summary: Some(s) }).push(
                StepRecord { step: Step::Build, status: StepStatus::Skipped, at, summary: Some(s) },
            )),
        same_but_cards(*final(state), *old(state)),
        same_but_records(*final(journal), *old(journal)),
{
    let text = "Not part of an assets-only release.".to_owned();
    state.set_step(Step::Draft, StepStatus::Skipped, Some(text.clone()));
    journal.record(Step::Draft, StepStatus::Skipped, Some(text.clone()), at.clone());
    state.set_step(Step::Write, StepStatus::Skipped, Some(text.clone()));
    journal.record(Step::Write, StepStatus::Skipped, Some(text.clone()), at.clone());
    state.set_step(Step::Build, StepStatus::Skipped, Some(text.clone()));
    journal.record(Step::Build, StepStatus::Skipped, Some(text), at);
}

/// Whether a check applies when only `assets/` is committed.
pub open spec fn assets_check_id(id: Seq<char>) -> bool {
    id == "V14"@ || id == "V16"@ || id == "W04"@
}

/// The results that apply to an assets-only release, in order.
pub open spec fn assets_rows(rows: Seq<CheckResult>) -> Seq<CheckResult>
    decreases rows.len(),
{
    if rows.len() == 0 {
        seq![]
    } else if assets_check_id(rows.last().id@) {
        assets_rows(rows.drop_last()).push(rows.last())
    } else {
        assets_rows(rows.drop_last())
    }
}

/// Keeps the checks that apply to an assets-only release (V14, V16, W04).
pub fn assets_checks(rows: Vec<CheckResult>) -> (r: Vec<CheckResult>)
    ensures
        r@ == assets_rows(rows@),
{
    let ghost all = rows@;
    let mut rest = rows;
    let mut kept: Vec<CheckResult> = Vec::new();
    let mut taken: usize = 0;
    let total = rest.len();
    while rest.len() > 0
        invariant
            taken + rest@.len() == all.len(),
            all.len() == total,
            rest@ == all.subrange(taken as int, all.len() as int),
            kept@ == assets_rows(all.subrange(0, taken as int)),
        decreases rest@.len(),
    {
        let row = rest.remove(0);
        proof {
            let sub = all.subrange(0, taken + 1);
            assert(sub.drop_last() =~= all.subrange(0, taken as int));
            assert(sub.last() == row);
            assert(rest@ =~= all.subrange(taken + 1, all.len() as int));
        }
        let id = row.id.as_str();
        if same_text(id, "V14") || same_text(id, "V16") || same_text(id, "W04") {
            kept.push(row);
        }
        taken = taken + 1;
    }
    proof {
        assert(all.subrange(0, all.len() as int) =~= all);
    }
    kept
}

/// The failure when the project has no assets folder.
pub fn assets_folder_missing() -> (f: RunFailure)
    ensures
        !f.cancelled,
        f.error.code@ == "ASSETS_FOLDER_MISSING"@,
        f.error.message@ == "This project has no assets folder."@,
        f.error.fix matches Some(x) && x@
            == "Put banners, icons and screenshots in .wordpress-org, or set the assets folder in project settings."@,
{
    RunFailure::new(
        "ASSETS_FOLDER_MISSING",
        "This project has no assets folder.".to_owned(),
        Some(
            "Put banners, icons and screenshots in .wordpress-org, or set the assets folder in project settings.".to_owned(),
        ),
    )
}

/// Whether the assets checks let the release go on: a blocking failure stops it.
pub fn assets_verdict(rows: &[CheckResult]) -> (r: Result<(), RunFailure>)
    ensures
        r is Ok <==> !blocked(views(rows@)),
        r matches Err(f) ==> !f.cancelled && f.error.code@ == "CHECKS_FAILED"@ && f.error.message@
            == "Blocking checks failed."@ && (f.error.fix matches Some(x) && x@ == "Fix each failed check, then try again."@),
{
    if is_blocked(rows) {
        Err(
            RunFailure::new(
                "CHECKS_FAILED",
                "Blocking checks failed.".to_owned(),
                Some("Fix each failed check, then try again.".to_owned()),
            ),
        )
    } else {
        Ok(())
    }
}

/// The Preview's verdict on the working copy check (V15): conflicts or an
/// out-of-date copy stop the release.
pub fn working_copy_verdict(rows: &[CheckResult], assets_only: bool) -> (r: Result<(), RunFailure>)
    ensures
        r is Ok <==> !blocked(views(rows@)),
        r matches Err(f) ==> !f.cancelled && f.error.code@ == "CHECKS_FAILED"@ && f.error.message@
            == "The working copy has conflicts or is out of date."@ && (f.error.fix matches Some(x) && x@ == (if assets_only {
            "Reset the working copy, then try again."@
        } else {
            "Reset the working copy, then release again."@
        })),
{
    if is_blocked(rows) {
        let fix = if assets_only {
            "Reset the working copy, then try again.".to_owned()
        } else {
            "Reset the working copy, then release again.".to_owned()
        };
        Err(RunFailure::new("CHECKS_FAILED", "The working copy has conflicts or is out of date.".to_owned(), Some(fix)))
    } else {
        Ok(())
    }
}

/// What an assets-only preview found: an error when nothing changes, else
/// the step's summary.
pub fn assets_preview_summary(assets: &Delta) -> (r: Result<String, RunFailure>)
    ensures
        (assets.added@.len() == 0 && assets.modified@.len() == 0 && assets.deleted@.len() == 0) <==> r is Err,
        r matches Err(f) ==> !f.cancelled && f.error.code@ == "NOTHING_TO_RELEASE"@ && f.error.message@
            == "Nothing to release: assets/ on the server already matches your assets folder."@ && (
        f.error.fix matches Some(x) && x@ == "Change a banner, icon or screenshot, then try again."@),
        r matches Ok(s) ==> s@ == "assets "@ + delta_text(*assets),
{
    if assets.is_empty() {
        return Err(
            RunFailure::new(
                "NOTHING_TO_RELEASE",
                "Nothing to release: assets/ on the server already matches your assets folder.".to_owned(),
                Some("Change a banner, icon or screenshot, then try again.".to_owned()),
            ),
        );
    }
    let mut s = "assets ".to_owned();
    s.append(delta_counts(assets).as_str());
    Ok(s)
}

/// The summary of an assets-only Publish.
pub open spec fn assets_publish_text(revision: Option<u64>) -> Seq<char> {
    match revision {
        Some(r) => "assets r"@ + decimal(r as nat),
        None => "assets unchanged"@,
    }
}

/// Ends an assets-only Publish after the commit: the journal keeps the
/// assets revision and completes; Publish is done (recorded at `at`); the
/// run ends verified, with no tag.
pub fn assets_publish_finish(
    state: &mut RunState,
    journal: &mut RunJournal,
    revision: Option<u64>,
    plugin_url: String,
    open_plugin_page: bool,
    at: String,
)
    requires
        is_utc_time(at@),
    ensures
        (exists|s: String|
            s@ == assets_publish_text(revision) && final(state).steps@ == card_set(
                old(state).steps@,
                Step::Publish,
                StepStatus::Done,
                Some(s),
            ) && final(journal).steps@ == old(journal).steps@.push(
                StepRecord { step: Step::Publish, status: StepStatus::Done, at, summary: Some(s) },
            )),
        final(state).phase == Phase::Verified,
        final(state).publish == Some(
            PublishResult {
                trunk_revision: None,
                tag_revision: None,
                verification: None,
                plugin_url,
                open_plugin_page,
                zip_path: None,
            },
        ),
        same_but_cards(
            *final(state),
            RunState { phase: Phase::Verified, publish: final(state).publish, ..*old(state) },
        ),
        final(journal).revisions.assets == revision,
        final(journal).revisions.trunk == old(journal).revisions.trunk,
        final(journal).revisions.tag == old(journal).revisions.tag,
        final(journal).outcome == Some(Outcome::Complete),
        same_but_records(
            *final(journal),
            RunJournal { revisions: final(journal).revisions, outcome: Some(Outcome::Complete), ..*old(journal) },
        ),
{
    journal.revisions.assets = revision;
    journal.outcome = Some(Outcome::Complete);
    state.publish = Some(
        PublishResult {
            trunk_revision: None,
            tag_revision: None,
            verification: None,
            plugin_url,
            open_plugin_page,
            zip_path: None,
        },
    );
    let summary = match revision {
        Some(r) => {
            let mut s = "assets r".to_owned();
            s.append(decimal_string(r).as_str());
            s
        },
        None => "assets unchanged".to_owned(),
    };
    done(state, journal, Step::Publish, summary, at);
    state.phase = Phase::Verified;
}

} // verus!
