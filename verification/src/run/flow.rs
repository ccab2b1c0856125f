//! How a run moves between steps and how it ends: starting and finishing a
//! step, waiting for the developer, stopping on a failure, a dry run's end,
//! and resuming a run whose trunk was committed. Each function takes the
//! run's state and journal and the outcome of the work the app did.

use vstd::prelude::*;

use crate::clock::is_utc_time;
use crate::strings::{decimal, decimal_string};
use crate::svn::TagVerification;

use super::journal::{awaits_tag, same_but_records, with_tag, Outcome, RunJournal, StepRecord};
use super::model::{
    all_steps, card_set, first_active_is, same_but_cards, terminal, FileDiff, Phase, PublishResult, RunState, Step,
    StepStatus, StepView,
};
use super::RunFailure;

verus! {

broadcast use vstd::string::group_string_axioms;

/// Whether `f` is the failure a cancelled run stops with.
pub open spec fn is_cancellation(f: RunFailure) -> bool {
    &&& f.cancelled
    &&& f.error.code@ == "CANCELLED"@
    &&& f.error.message@ == "The release was cancelled."@
    &&& f.error.fix is None
}

/// `state` with its phase replaced.
pub open spec fn with_phase(state: RunState, phase: Phase) -> RunState {
    RunState { phase, ..state }
}

/// Starts `step` in `phase`: its card runs. A cancelled run does not start
/// the step and stops with the cancellation failure instead.
pub fn begin(state: &mut RunState, step: Step, phase: Phase, cancelled: bool) -> (r: Result<(), RunFailure>)
    ensures
        cancelled ==> (r matches Err(f) && is_cancellation(f)) && *final(state) == *old(state),
        !cancelled ==> r is Ok && final(state).steps@ == card_set(old(state).steps@, step, StepStatus::Running, None)
            && same_but_cards(*final(state), with_phase(*old(state), phase)),
{
    if cancelled {
        return Err(RunFailure::cancelled());
    }
    state.phase = phase;
    state.set_step(step, StepStatus::Running, None);
    Ok(())
}

/// Finishes `step` with `summary`, on its card and in the journal at time `at`.
pub fn done(state: &mut RunState, journal: &mut RunJournal, step: Step, summary: String, at: String)
    requires
        is_utc_time(at@),
    ensures
        final(state).steps@ == card_set(old(state).steps@, step, StepStatus::Done, Some(summary)),
        same_but_cards(*final(state), *old(state)),
        final(journal).steps@ == old(journal).steps@.push(
            StepRecord { step, status: StepStatus::Done, at, summary: Some(summary) },
        ),
        same_but_records(*final(journal), *old(journal)),
{
    state.set_step(step, StepStatus::Done, Some(summary.clone()));
    journal.record(step, StepStatus::Done, Some(summary), at);
}

/// Waits for the developer at `step` in `phase`: its card waits.
pub fn wait(state: &mut RunState, step: Step, phase: Phase)
    ensures
        final(state).steps@ == card_set(old(state).steps@, step, StepStatus::Waiting, None),
        same_but_cards(*final(state), with_phase(*old(state), phase)),
{
    state.phase = phase;
    state.set_step(step, StepStatus::Waiting, None);
}

/// What stopping a run does before it records the failure.
pub struct StopPlan {
    /// The step that stopped: the running or waiting one, else Detect.
    pub step: Step,
    /// Whether local changes are undone (the snapshot restored, the working copy reverted).
    pub roll_back: bool,
    /// Whether the staged build is removed as well.
    pub remove_build: bool,
}

/// Whether `step` stages or ships the package.
pub open spec fn ships(step: Step) -> bool {
    step == Step::Build || step == Step::Preview || step == Step::Publish
}

/// Plans the stop of a run that failed with `failure`. Nothing is undone
/// once trunk was committed; a cancelled run also removes its staged build
/// when it stopped while building, previewing or publishing.
pub fn stop_plan(state: &RunState, journal: &RunJournal, failure: &RunFailure) -> (p: StopPlan)
    ensures
        (exists|a: Option<Step>| first_active_is(state.steps@, a) && p.step == (match a {
            Some(s) => s,
            None => Step::Detect,
        })),
        p.roll_back == (journal.revisions.trunk is None),
        p.remove_build == (p.roll_back && failure.cancelled && ships(p.step)),
{
    let active = state.active_step();
    let step = match active {
        Some(s) => s,
        None => Step::Detect,
    };
    let roll_back = journal.revisions.trunk.is_none();
    let ships_step = match step {
        Step::Build | Step::Preview | Step::Publish => true,
        _ => false,
    };
    StopPlan { step, roll_back, remove_build: roll_back && failure.cancelled && ships_step }
}

/// The phase a run that stopped with `failure` ends in.
pub open spec fn stop_phase(failure: RunFailure) -> Phase {
    if failure.cancelled {
        Phase::Cancelled
    } else {
        Phase::Failed
    }
}

/// The phase a published run ends in, by whether its tag was verified.
pub open spec fn published_phase(verified: bool) -> Phase {
    if verified {
        Phase::Verified
    } else {
        Phase::PublishedUnverified
    }
}

/// However a run ends, it ends in a terminal phase: stopped (cancelled or
/// failed), a finished dry run, or published with the tag verified or not.
pub proof fn lemma_runs_end_terminal(failure: RunFailure, verified: bool)
    ensures
        terminal(stop_phase(failure)),
        terminal(Phase::DryRunComplete),
        terminal(published_phase(verified)),
{
}

/// The notice a failed run shows when trunk was already committed.
pub open spec fn trunk_committed_notice() -> Seq<char> {
    "Trunk was already committed and cannot be undone. Use Resume to create the tag."@
}

/// The summary a stopped step's card and record carry.
pub open spec fn stop_summary(failure: RunFailure) -> Seq<char> {
    if failure.cancelled {
        "Cancelled"@
    } else {
        failure.error.message@
    }
}

/// Records that the run stopped at `step` with `failure`, at time `at`: the
/// card and the journal record fail, the phase is Cancelled or Failed, the
/// journal's outcome is set, and the error is shown unless the developer
/// cancelled. When trunk was already committed, a notice says so.
pub fn stop(state: &mut RunState, journal: &mut RunJournal, failure: RunFailure, step: Step, at: String)
    requires
        is_utc_time(at@),
    ensures
        (exists|s: String|
            s@ == stop_summary(failure) && final(state).steps@ == card_set(
                old(state).steps@,
                step,
                StepStatus::Failed,
                Some(s),
            ) && final(journal).steps@ == old(journal).steps@.push(
                StepRecord { step, status: StepStatus::Failed, at, summary: Some(s) },
            )),
        final(state).phase == stop_phase(failure),
        final(state).error == (if failure.cancelled {
            None
        } else {
            Some(failure.error)
        }),
        old(journal).revisions.trunk is Some ==> final(state).notices@.len() == old(state).notices@.len() + 1
            && final(state).notices@.drop_last() == old(state).notices@ && final(state).notices@.last()@
            == trunk_committed_notice(),
        old(journal).revisions.trunk is None ==> final(state).notices@ == old(state).notices@,
        same_but_cards(
            *final(state),
            RunState {
                phase: final(state).phase,
                error: final(state).error,
                notices: final(state).notices,
                ..*old(state)
            },
        ),
        final(journal).outcome == Some(
            if failure.cancelled {
                Outcome::Cancelled
            } else {
                Outcome::Failed(step)
            },
        ),
        same_but_records(*final(journal), RunJournal { outcome: final(journal).outcome, ..*old(journal) }),
{
    if journal.revisions.trunk.is_some() {
        state.notices.push(
            "Trunk was already committed and cannot be undone. Use Resume to create the tag.".to_owned(),
        );
    }
    let summary = if failure.cancelled {
        "Cancelled".to_owned()
    } else {
        failure.error.message.clone()
    };
    if failure.cancelled {
        state.phase = Phase::Cancelled;
        journal.outcome = Some(Outcome::Cancelled);
    } else {
        state.phase = Phase::Failed;
        journal.outcome = Some(Outcome::Failed(step));
    }
    state.set_step(step, StepStatus::Failed, Some(summary.clone()));
    journal.record(step, StepStatus::Failed, Some(summary), at);
    state.error = if failure.cancelled {
        None
    } else {
        Some(failure.error)
    };
}

/// The notice a finished dry run shows.
pub open spec fn dry_run_notice() -> Seq<char> {
    "Dry run complete. Your plugin files and the working copy are unchanged."@
}

/// Ends a dry run after its preview (the app has rolled back local changes):
/// Publish is skipped, the phase is DryRunComplete, a notice says nothing
/// changed, and the journal's outcome is DryRun.
pub fn finish_dry_run(state: &mut RunState, journal: &mut RunJournal)
    ensures
        (exists|s: String|
            s@ == "Dry run: nothing was committed."@ && final(state).steps@ == card_set(
                old(state).steps@,
                Step::Publish,
                StepStatus::Skipped,
                Some(s),
            )),
        final(state).phase == Phase::DryRunComplete,
        final(state).notices@.len() == old(state).notices@.len() + 1,
        final(state).notices@.drop_last() == old(state).notices@,
        final(state).notices@.last()@ == dry_run_notice(),
        same_but_cards(
            *final(state),
            RunState { phase: Phase::DryRunComplete, notices: final(state).notices, ..*old(state) },
        ),
        *final(journal) == (RunJournal { outcome: Some(Outcome::DryRun), ..*old(journal) }),
{
    state.set_step(Step::Publish, StepStatus::Skipped, Some("Dry run: nothing was committed.".to_owned()));
    state.phase = Phase::DryRunComplete;
    state.notices.push("Dry run complete. Your plugin files and the working copy are unchanged.".to_owned());
    journal.outcome = Some(Outcome::DryRun);
}

/// The summary Publish shows while a run resumes.
pub open spec fn resuming_summary() -> Seq<char> {
    "Resuming: creating the tag"@
}

/// The state a resumed run starts in: every step done but Publish, which
/// runs creating the tag, in the Publishing phase.
pub fn resume_state(id: String, project_path: String) -> (s: RunState)
    ensures
        s.id == id,
        s.project_path == project_path,
        !s.dry_run,
        s.phase == Phase::Publishing,
        s.steps@.len() == 7,
        forall|i: int| 0 <= i < 6 ==> (#[trigger] s.steps@[i]).step == all_steps()[i] && s.steps@[i].status
            == StepStatus::Done && s.steps@[i].summary is None,
        s.steps@[6].step == Step::Publish,
        s.steps@[6].status == StepStatus::Running,
        s.steps@[6].summary matches Some(m) && m@ == resuming_summary(),
        s.facts is None && s.server_tags@.len() == 0 && s.previous is None && s.draft_context is None,
        s.draft is None && s.diffs@.len() == 0 && s.draft_ai is None && s.explanation is None,
        s.checks@.len() == 0 && s.preview is None && s.publish is None && s.error is None,
        s.notices@.len() == 0,
{
    let all = Step::all();
    let mut steps: Vec<StepView> = Vec::new();
    let mut i: usize = 0;
    while i < 6
        invariant
            i <= 6,
            all@ == all_steps(),
            steps@.len() == i,
            forall|k: int| 0 <= k < i ==> (#[trigger] steps@[k]).step == all_steps()[k] && steps@[k].status
                == StepStatus::Done && steps@[k].summary is None,
        decreases 6 - i,
    {
        steps.push(StepView { step: all[i], status: StepStatus::Done, summary: None });
        i = i + 1;
    }
    steps.push(
        StepView {
            step: Step::Publish,
            status: StepStatus::Running,
            summary: Some("Resuming: creating the tag".to_owned()),
        },
    );
    RunState {
        id,
        project_path,
        dry_run: false,
        phase: Phase::Publishing,
        steps,
        facts: None,
        server_tags: Vec::new(),
        previous: None,
        draft_context: None,
        draft: None,
        diffs: Vec::new(),
        draft_ai: None,
        explanation: None,
        checks: Vec::new(),
        preview: None,
        publish: None,
        error: None,
        notices: Vec::new(),
    }
}

/// A copy of a verification outcome.
fn copy_verification(v: &TagVerification) -> (r: TagVerification)
    ensures
        r == *v,
{
    match v {
        TagVerification::Verified => TagVerification::Verified,
        TagVerification::Unverified(reason) => TagVerification::Unverified(reason.clone()),
    }
}

/// The summary Publish shows once the tag for `version` exists at revision `tag`.
pub open spec fn tag_summary(version: Seq<char>, tag: nat) -> Seq<char> {
    "tags/"@ + version + " r"@ + decimal(tag)
}

/// Ends a resumed run with what tagging gave: the tag's version and revision
/// and its verification, or the failure that stopped it. A verified tag
/// completes the run; an unverified one is published but unverified; a
/// failure fails Publish (its error shown unless the developer cancelled).
/// A tag that was made is recorded, so the run no longer waits for it.
/// The journal is closed at `finished`.
pub fn resume_finish(
    state: &mut RunState,
    journal: &mut RunJournal,
    result: Result<(String, u64, TagVerification), RunFailure>,
    plugin_url: String,
    open_plugin_page: bool,
    finished: String,
)
    ensures
        final(journal).finished == Some(finished),
        match result {
            Ok((version, tag, verification)) => {
                let verified = verification is Verified;
                &&& final(journal).outcome == Some(
                    if verified {
                        Outcome::Complete
                    } else {
                        Outcome::PublishedUnverified
                    },
                )
                &&& final(journal).verification == Some(verification)
                &&& *final(journal) == (RunJournal {
                    outcome: final(journal).outcome,
                    verification: final(journal).verification,
                    finished: Some(finished),
                    ..with_tag(*old(journal), tag)
                })
                &&& !awaits_tag(*final(journal))
                &&& final(state).phase == published_phase(verified)
                &&& (exists|s: String|
                    s@ == tag_summary(version@, tag as nat) && final(state).steps@ == card_set(
                        old(state).steps@,
                        Step::Publish,
                        StepStatus::Done,
                        Some(s),
                    ))
                &&& final(state).publish == Some(
                    PublishResult {
                        trunk_revision: old(journal).revisions.trunk,
                        tag_revision: Some(tag),
                        verification: Some(verification),
                        plugin_url,
                        open_plugin_page,
                        zip_path: None,
                    },
                )
                &&& same_but_cards(
                    *final(state),
                    RunState { phase: final(state).phase, publish: final(state).publish, ..*old(state) },
                )
            },
            Err(failure) => {
                &&& final(journal).outcome == Some(Outcome::Failed(Step::Publish))
                &&& *final(journal) == (RunJournal {
                    outcome: final(journal).outcome,
                    finished: Some(finished),
                    ..*old(journal)
                })
                &&& final(state).phase == stop_phase(failure)
                &&& final(state).steps@ == card_set(
                    old(state).steps@,
                    Step::Publish,
                    StepStatus::Failed,
                    Some(failure.error.message),
                )
                &&& final(state).error == (if failure.cancelled {
                    None
                } else {
                    Some(failure.error)
                })
                &&& same_but_cards(
                    *final(state),
                    RunState { phase: final(state).phase, error: final(state).error, ..*old(state) },
                )
            },
        },
{
    match result {
        Ok((version, tag, verification)) => {
            let verified = match &verification {
                TagVerification::Verified => true,
                TagVerification::Unverified(_) => false,
            };
            journal.outcome = Some(
                if verified {
                    Outcome::Complete
                } else {
                    Outcome::PublishedUnverified
                },
            );
            journal.verification = Some(copy_verification(&verification));
            journal.record_tag(tag);
            state.phase = if verified {
                Phase::Verified
            } else {
                Phase::PublishedUnverified
            };
            let mut summary = "tags/".to_owned();
            summary.append(version.as_str());
            summary.append(" r");
            let number = decimal_string(tag);
            summary.append(number.as_str());
            state.set_step(Step::Publish, StepStatus::Done, Some(summary));
            state.publish = Some(
                PublishResult {
                    trunk_revision: journal.revisions.trunk,
                    tag_revision: Some(tag),
                    verification: Some(verification),
                    plugin_url,
                    open_plugin_page,
                    zip_path: None,
                },
            );
        },
        Err(failure) => {
            state.phase = if failure.cancelled {
                Phase::Cancelled
            } else {
                Phase::Failed
            };
            state.set_step(Step::Publish, StepStatus::Failed, Some(failure.error.message.clone()));
            state.error = if failure.cancelled {
                None
            } else {
                Some(failure.error)
            };
            journal.outcome = Some(Outcome::Failed(Step::Publish));
        },
    }
    journal.finished = Some(finished);
}

/// What a resumed run tags: the journal's version, and its tag message or
/// `Tag <version>`. A journal without a version cannot be resumed.
pub fn resume_tag_inputs(journal: &RunJournal) -> (r: Result<(String, String), RunFailure>)
    ensures
        match journal.version {
            None => r matches Err(f) && !f.cancelled && f.error.code@ == "RESUME_NO_VERSION"@
                && f.error.message@ == "The journal has no version."@ && f.error.fix is None,
            Some(v) => r matches Ok((version, message)) && version == v && message@ == (match journal.tag_message {
                Some(m) => m@,
                None => "Tag "@ + v@,
            }),
        },
{
    match &journal.version {
        None => Err(RunFailure::new("RESUME_NO_VERSION", "The journal has no version.".to_owned(), None)),
        Some(v) => {
            let message = match &journal.tag_message {
                Some(m) => m.clone(),
                None => {
                    let mut m = "Tag ".to_owned();
                    m.append(v.as_str());
                    m
                },
            };
            Ok((v.clone(), message))
        },
    }
}

/// Publish's summary: the trunk revision (or that trunk was unchanged) and the tag.
pub open spec fn publish_summary(trunk: Option<u64>, version: Seq<char>, tag: nat) -> Seq<char> {
    match trunk {
        Some(rev) => "trunk r"@ + decimal(rev as nat) + " · "@ + tag_summary(version, tag),
        None => "trunk unchanged · "@ + tag_summary(version, tag),
    }
}

/// The notice when the tag could not be verified yet.
pub open spec fn unverified_notice() -> Seq<char> {
    "Published, but the tag could not be verified yet. Check the plugin page in a few minutes."@
}

/// Ends Publish after the commit, the tag and its verification: Publish is
/// done (recorded at `at`), the run is verified or published unverified
/// (with a notice), and the journal keeps the verification and outcome.
pub fn publish_finish(
    state: &mut RunState,
    journal: &mut RunJournal,
    trunk: Option<u64>,
    tag: u64,
    version: &str,
    verification: TagVerification,
    plugin_url: String,
    open_plugin_page: bool,
    zip_path: Option<String>,
    at: String,
)
    requires
        is_utc_time(at@),
    ensures
        ({
            let verified = verification is Verified;
            &&& (exists|s: String|
                s@ == publish_summary(trunk, version@, tag as nat) && final(state).steps@ == card_set(
                    old(state).steps@,
                    Step::Publish,
                    StepStatus::Done,
                    Some(s),
                ) && final(journal).steps@ == old(journal).steps@.push(
                    StepRecord { step: Step::Publish, status: StepStatus::Done, at, summary: Some(s) },
                ))
            &&& final(state).phase == published_phase(verified)
            &&& final(state).publish == Some(
                PublishResult {
                    trunk_revision: trunk,
                    tag_revision: Some(tag),
                    verification: Some(verification),
                    plugin_url,
                    open_plugin_page,
                    zip_path,
                },
            )
            &&& (verified ==> final(state).notices@ == old(state).notices@)
            &&& (!verified ==> final(state).notices@.len() == old(state).notices@.len() + 1
                && final(state).notices@.drop_last() == old(state).notices@ && final(state).notices@.last()@
                == unverified_notice())
            &&& same_but_cards(
                *final(state),
                RunState {
                    phase: final(state).phase,
                    publish: final(state).publish,
                    notices: final(state).notices,
                    ..*old(state)
                },
            )
            &&& final(journal).verification == Some(verification)
            &&& final(journal).outcome == Some(
                if verified {
                    Outcome::Complete
                } else {
                    Outcome::PublishedUnverified
                },
            )
            &&& same_but_records(
                *final(journal),
                RunJournal {
                    verification: final(journal).verification,
                    outcome: final(journal).outcome,
                    ..*old(journal)
                },
            )
        }),
{
    let verified = match &verification {
        TagVerification::Verified => true,
        TagVerification::Unverified(_) => false,
    };
    journal.verification = Some(copy_verification(&verification));
    journal.outcome = Some(
        if verified {
            Outcome::Complete
        } else {
            Outcome::PublishedUnverified
        },
    );
    state.publish = Some(
        PublishResult {
            trunk_revision: trunk,
            tag_revision: Some(tag),
            verification: Some(verification),
            plugin_url,
            open_plugin_page,
            zip_path,
        },
    );
    let mut summary = match trunk {
        Some(rev) => {
            let mut s = "trunk r".to_owned();
            s.append(decimal_string(rev).as_str());
            s.append(" · ");
            s
        },
        None => "trunk unchanged · ".to_owned(),
    };
    summary.append("tags/");
    summary.append(version);
    summary.append(" r");
    summary.append(decimal_string(tag).as_str());
    done(state, journal, Step::Publish, summary, at);
    state.phase = if verified {
        Phase::Verified
    } else {
        Phase::PublishedUnverified
    };
    if !verified {
        state.notices.push(
            "Published, but the tag could not be verified yet. Check the plugin page in a few minutes.".to_owned(),
        );
    }
}

/// The failure when no SVN account is set up for `host`.
pub fn no_account(host: &str) -> (f: RunFailure)
    ensures
        !f.cancelled,
        f.error.code@ == "VAULT_NO_ACCOUNT"@,
        f.error.message@ == "No SVN account is set up for "@ + host@ + "."@,
        f.error.fix matches Some(x) && x@
            == "Open Vault, add your WordPress.org username and SVN password, and choose it in project settings if you have several."@,
{
    let mut m = "No SVN account is set up for ".to_owned();
    m.append(host);
    m.append(".");
    RunFailure::new(
        "VAULT_NO_ACCOUNT",
        m,
        Some(
            "Open Vault, add your WordPress.org username and SVN password, and choose it in project settings if you have several.".to_owned(),
        ),
    )
}

/// The failure when no SVN password is stored for `username`.
pub fn no_password(username: &str) -> (f: RunFailure)
    ensures
        !f.cancelled,
        f.error.code@ == "VAULT_NO_CREDENTIALS"@,
        f.error.message@ == "No SVN password is stored for "@ + username@ + "."@,
        f.error.fix matches Some(x) && x@ == "Open Vault and save the SVN password for this account."@,
{
    let mut m = "No SVN password is stored for ".to_owned();
    m.append(username);
    m.append(".");
    RunFailure::new("VAULT_NO_CREDENTIALS", m, Some("Open Vault and save the SVN password for this account.".to_owned()))
}

/// The git commands that record a release: a commit of the written files
/// with the message `Release <version>`, and the tag `v<version>`.
pub fn git_release_commands(version: &str, paths: &[FileDiff]) -> (r: (Vec<String>, Vec<String>))
    ensures
        crate::verify::texts(r.0@) == seq!["commit"@, "-m"@, "Release "@ + version@, "--"@] + paths@.map_values(
            |d: FileDiff| d.path@,
        ),
        crate::verify::texts(r.1@) == seq!["tag"@, "v"@ + version@],
{
    let mut message = "Release ".to_owned();
    message.append(version);
    let mut commit: Vec<String> = Vec::new();
    commit.push("commit".to_owned());
    commit.push("-m".to_owned());
    commit.push(message);
    commit.push("--".to_owned());
    let ghost head = crate::verify::texts(commit@);
    proof {
        assert(head =~= seq!["commit"@, "-m"@, "Release "@ + version@, "--"@]);
    }
    let mut i: usize = 0;
    while i < paths.len()
        invariant
            i <= paths@.len(),
            crate::verify::texts(commit@) == head + paths@.map_values(|d: FileDiff| d.path@).subrange(0, i as int),
        decreases paths@.len() - i,
    {
        let ghost before = commit@;
        commit.push(paths[i].path.clone());
        proof {
            assert(crate::verify::texts(commit@) =~= crate::verify::texts(before).push(paths@[i as int].path@));
            assert(paths@.map_values(|d: FileDiff| d.path@).subrange(0, i + 1) =~= paths@.map_values(
                |d: FileDiff| d.path@,
            ).subrange(0, i as int).push(paths@[i as int].path@));
        }
        i = i + 1;
    }
    proof {
        assert(paths@.map_values(|d: FileDiff| d.path@).subrange(0, paths@.len() as int) =~= paths@.map_values(
            |d: FileDiff| d.path@,
        ));
    }
    let mut tag_name = "v".to_owned();
    tag_name.append(version);
    let mut tag: Vec<String> = Vec::new();
    tag.push("tag".to_owned());
    tag.push(tag_name);
    proof {
        assert(crate::verify::texts(tag@) =~= seq!["tag"@, "v"@ + version@]);
    }
    (commit, tag)
}

/// The notice after recording a release in git: none when both the commit
/// and the tag were made; otherwise what to do, or that git is missing.
pub fn git_release_notice(version: &str, git_found: bool, committed: bool, tagged: bool) -> (r: Option<String>)
    ensures
        !git_found ==> (r matches Some(m) && m@ == "Git is not available, so no git tag was created."@),
        git_found && committed && tagged ==> r is None,
        git_found && !(committed && tagged) ==> (r matches Some(m) && m@ == "The git commit or tag v"@ + version@
            + " could not be created. Create them yourself if you need them."@),
{
    if !git_found {
        return Some("Git is not available, so no git tag was created.".to_owned());
    }
    if committed && tagged {
        return None;
    }
    let mut m = "The git commit or tag v".to_owned();
    m.append(version);
    m.append(" could not be created. Create them yourself if you need them.");
    Some(m)
}

/// What discarding an interrupted run undoes locally.
pub struct DiscardPlan {
    /// Restore the files the run changed from its snapshot.
    pub restore_snapshot: bool,
    /// Revert the working copy.
    pub revert: bool,
}

/// What discarding an interrupted run undoes: before the trunk commit, the
/// snapshot is restored (when its folder still exists) and the working copy
/// reverted (when it exists); after it, nothing is undone.
pub fn discard_plan(journal: &RunJournal, snapshot_exists: bool, working_copy_exists: bool) -> (p: DiscardPlan)
    ensures
        p.restore_snapshot == (journal.revisions.trunk is None && journal.snapshot is Some && snapshot_exists),
        p.revert == (journal.revisions.trunk is None && working_copy_exists),
{
    let before_trunk = journal.revisions.trunk.is_none();
    DiscardPlan {
        restore_snapshot: before_trunk && journal.snapshot.is_some() && snapshot_exists,
        revert: before_trunk && working_copy_exists,
    }
}

/// Closes a discarded run's journal: a run without an outcome ends
/// cancelled at `at`; the journal is marked discarded.
pub fn close_discarded(journal: &mut RunJournal, at: String)
    ensures
        old(journal).outcome is None ==> final(journal).outcome == Some(Outcome::Cancelled) && final(journal).finished
            == Some(at),
        old(journal).outcome is Some ==> final(journal).outcome == old(journal).outcome && final(journal).finished
            == old(journal).finished,
        *final(journal) == (RunJournal {
            outcome: final(journal).outcome,
            finished: final(journal).finished,
            discarded: true,
            ..*old(journal)
        }),
{
    if journal.outcome.is_none() {
        journal.outcome = Some(Outcome::Cancelled);
        journal.finished = Some(at);
    }
    journal.discarded = true;
}

/// The notice when the journal could not be saved.
pub fn journal_save_notice(error: &str) -> (s: String)
    ensures
        s@ == "Could not save the run journal: "@ + error@,
{
    let mut s = "Could not save the run journal: ".to_owned();
    s.append(error);
    s
}

/// What rolling a run back undoes.
pub struct RollBackPlan {
    /// Restore the files Step 3 changed from the snapshot.
    pub restore_snapshot: bool,
    /// Revert the working copy Preview synced.
    pub revert: bool,
    /// Remove the staged build folder.
    pub remove_build: bool,
}

/// What a roll-back undoes: the snapshot when there is one, the working
/// copy once Preview synced it, and the staged build when asked and it exists.
pub fn roll_back_plan(has_snapshot: bool, previewed: bool, remove_build: bool, build_dir_exists: bool) -> (p:
    RollBackPlan)
    ensures
        p.restore_snapshot == has_snapshot,
        p.revert == previewed,
        p.remove_build == (remove_build && build_dir_exists),
{
    RollBackPlan { restore_snapshot: has_snapshot, revert: previewed, remove_build: remove_build && build_dir_exists }
}

/// The notice when part of a roll-back failed: which part, and why.
pub fn roll_back_notice(part: RollBackPart, error: &str) -> (s: String)
    ensures
        s@ == (match part {
            RollBackPart::Restore => "Could not restore changed files: "@,
            RollBackPart::Revert => "Could not revert the working copy: "@,
            RollBackPart::RemoveBuild => "Could not remove the staged build: "@,
        }) + error@,
{
    let mut s = match part {
        RollBackPart::Restore => "Could not restore changed files: ".to_owned(),
        RollBackPart::Revert => "Could not revert the working copy: ".to_owned(),
        RollBackPart::RemoveBuild => "Could not remove the staged build: ".to_owned(),
    };
    s.append(error);
    s
}

/// A part of a roll-back.
pub enum RollBackPart {
    /// Restoring the snapshot.
    Restore,
    /// Reverting the working copy.
    Revert,
    /// Removing the staged build.
    RemoveBuild,
}

/// One stage of a run, in the order the engine runs them.
#[derive(Debug, Clone, Copy, PartialEq, Eq, Structural)]
pub enum Stage {
    /// Step 1.
    Detect,
    /// Step 2.
    Draft,
    /// Step 3.
    Write,
    /// Step 4.
    Verify,
    /// Step 5.
    Build,
    /// Step 6.
    Preview,
    /// Step 7.
    Publish,
    /// A dry run ends after the preview.
    FinishDryRun,
    /// An assets-only release skips Draft, Write and Build.
    SkipReleaseSteps,
    /// The assets checks.
    AssetsVerify,
    /// The assets preview.
    AssetsPreview,
    /// The assets commit.
    AssetsPublish,
}

/// The stages of a run: the seven steps, or for an assets-only release
/// Detect, the skipped steps, the assets checks and preview; a dry run
/// ends after the preview instead of publishing.
pub open spec fn stages_spec(dry_run: bool, assets_only: bool) -> Seq<Stage> {
    let last = if dry_run {
        Stage::FinishDryRun
    } else if assets_only {
        Stage::AssetsPublish
    } else {
        Stage::Publish
    };
    if assets_only {
        seq![Stage::Detect, Stage::SkipReleaseSteps, Stage::AssetsVerify, Stage::AssetsPreview, last]
    } else {
        seq![Stage::Detect, Stage::Draft, Stage::Write, Stage::Verify, Stage::Build, Stage::Preview, last]
    }
}

/// The stages a run goes through, in order; the first that fails stops it.
pub fn stages(dry_run: bool, assets_only: bool) -> (r: Vec<Stage>)
    ensures
        r@ == stages_spec(dry_run, assets_only),
{
    let last = if dry_run {
        Stage::FinishDryRun
    } else if assets_only {
        Stage::AssetsPublish
    } else {
        Stage::Publish
    };
    let r = if assets_only {
        vec![Stage::Detect, Stage::SkipReleaseSteps, Stage::AssetsVerify, Stage::AssetsPreview, last]
    } else {
        vec![Stage::Detect, Stage::Draft, Stage::Write, Stage::Verify, Stage::Build, Stage::Preview, last]
    };
    proof {
        assert(r@ =~= stages_spec(dry_run, assets_only));
    }
    r
}

} // verus!
