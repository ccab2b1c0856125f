//! The AI panels' decisions in Step 2 (the draft) and Step 4 (explaining
//! failed checks): what a developer's decision does, what a resolved
//! provider means for the panel, how progress events and a finished task
//! update it, and applying the chosen readme fixes. Asking the provider is
//! the app's.

use vstd::prelude::*;

use crate::strings::{
    count_matches, count_of, decimal, decimal_string, from_chars, replace_first, replace_first_chars, to_chars,
};
use crate::strings::{join, starts_with};
use crate::svn::pair_texts;
use crate::tools::opt_view;
use crate::verify::{join_texts, texts};

use super::ai_view::{AiStatus, AiTask, DraftAi, Explanation, FixView, PrivacyNotice, SummaryProgress};
use super::assist::{settle_ready, settle_spec, settle_version};
use super::explain::{fix_check, fix_view, SuggestedFix};
use super::material::{excluded_by, first_chars, Filter, MAX_SUMMARISED_FILES};
use super::model::{card_set, same_but_cards, Decision, DraftProvider, ErrorView, Phase, ReleaseDraft, RunState, Step, StepStatus};

verus! {

broadcast use vstd::string::group_string_axioms;

/// How the run's AI provider resolved.
pub enum Resolution {
    /// AI is off for this project.
    Off,
    /// No provider can be used.
    NoProvider { error: ErrorView },
    /// This provider will be asked; `seen` says whether its data-sharing
    /// notice was accepted, `revoye` whether it is the Revoye service.
    Ready { provider: DraftProvider, seen: bool, revoye: bool },
}

/// What a step does with the developer's decision while its AI panel is open.
pub enum AssistAction {
    /// Step 2 ends with this draft.
    Approve { draft: ReleaseDraft },
    /// Step 4: apply these suggested fixes.
    ApplyFixes { fixes: Vec<u32> },
    /// Step 4 stops with the failed checks.
    Stop,
    /// Remember the accepted notice for this provider, then ask it.
    AcceptPrivacy { provider_id: String },
    /// Resolve the provider (the given one becomes the run's choice) and act on it.
    Resolve { provider_id: Option<String> },
    /// Nothing to do: wait for the next decision.
    Wait,
}

/// A copy of a provider.
fn copy_provider(p: &DraftProvider) -> (r: DraftProvider)
    ensures
        r == *p,
{
    DraftProvider { id: p.id.clone(), kind: p.kind.clone(), label: p.label.clone() }
}

/// `task` after the developer chose to write by hand.
pub open spec fn manual(task: AiTask) -> AiTask {
    AiTask { status: AiStatus::Manual, privacy: None, ..task }
}

/// Step 2: what a decision does. Approve ends the step; Manual stops the
/// panel's AI; accepting a notice remembers it and asks that provider;
/// Generate resolves the provider. Other decisions belong to other steps.
pub fn draft_action(task: &mut AiTask, decision: Decision) -> (a: AssistAction)
    ensures
        match decision {
            Decision::Approve { draft } => a == (AssistAction::Approve { draft }) && *final(task) == *old(task),
            Decision::Manual => a is Wait && *final(task) == manual(*old(task)),
            Decision::AcceptPrivacy { provider_id } => a == (AssistAction::AcceptPrivacy { provider_id })
                && *final(task) == *old(task),
            Decision::Generate { provider_id } => a == (AssistAction::Resolve { provider_id })
                && *final(task) == *old(task),
            _ => a is Wait && *final(task) == *old(task),
        },
{
    match decision {
        Decision::Approve { draft } => AssistAction::Approve { draft },
        Decision::Manual => {
            task.status = AiStatus::Manual;
            task.privacy = None;
            AssistAction::Wait
        },
        Decision::AcceptPrivacy { provider_id } => AssistAction::AcceptPrivacy { provider_id },
        Decision::Generate { provider_id } => AssistAction::Resolve { provider_id },
        _ => AssistAction::Wait,
    }
}

/// Step 4: what a decision does. Stop ends the step with the failed checks;
/// ApplyFixes applies the chosen fixes; accepting a notice remembers it and
/// asks that provider; Generate resolves the provider; Manual stops the
/// panel's AI. Other decisions belong to other steps.
pub fn fixes_action(task: &mut AiTask, decision: Decision) -> (a: AssistAction)
    ensures
        match decision {
            Decision::Stop => a is Stop && *final(task) == *old(task),
            Decision::ApplyFixes { fixes } => a == (AssistAction::ApplyFixes { fixes }) && *final(task) == *old(task),
            Decision::AcceptPrivacy { provider_id } => a == (AssistAction::AcceptPrivacy { provider_id })
                && *final(task) == *old(task),
            Decision::Generate { provider_id } => a == (AssistAction::Resolve { provider_id })
                && *final(task) == *old(task),
            Decision::Manual => a is Wait && *final(task) == manual(*old(task)),
            _ => a is Wait && *final(task) == *old(task),
        },
{
    match decision {
        Decision::Stop => AssistAction::Stop,
        Decision::ApplyFixes { fixes } => AssistAction::ApplyFixes { fixes },
        Decision::AcceptPrivacy { provider_id } => AssistAction::AcceptPrivacy { provider_id },
        Decision::Generate { provider_id } => AssistAction::Resolve { provider_id },
        Decision::Manual => {
            task.status = AiStatus::Manual;
            task.privacy = None;
            AssistAction::Wait
        },
        _ => AssistAction::Wait,
    }
}

/// Acts on a resolved provider: the provider to ask now, or `None` with the
/// panel showing why not (AI off leaves it as it is; no provider shows the
/// error; a provider whose notice was not accepted asks for consent).
pub fn on_resolution(task: &mut AiTask, resolution: Resolution) -> (ask: Option<DraftProvider>)
    ensures
        match resolution {
            Resolution::Off => ask is None && *final(task) == *old(task),
            Resolution::NoProvider { error } => ask is None && *final(task) == (AiTask {
                status: AiStatus::NoProvider,
                error: Some(error),
                ..*old(task)
            }),
            Resolution::Ready { provider, seen, revoye } => if seen {
                ask == Some(provider) && *final(task) == *old(task)
            } else {
                ask is None && *final(task) == (AiTask {
                    status: AiStatus::NeedsConsent,
                    provider: Some(provider),
                    privacy: Some(PrivacyNotice { provider, revoye }),
                    ..*old(task)
                })
            },
        },
{
    match resolution {
        Resolution::Off => None,
        Resolution::NoProvider { error } => {
            task.status = AiStatus::NoProvider;
            task.error = Some(error);
            None
        },
        Resolution::Ready { provider, seen, revoye } => {
            if seen {
                Some(provider)
            } else {
                let shown = copy_provider(&provider);
                task.status = AiStatus::NeedsConsent;
                task.provider = Some(provider);
                task.privacy = Some(PrivacyNotice { provider: shown, revoye });
                None
            }
        },
    }
}

/// Step 2's panel when the step opens, and whether the provider is asked at
/// once: AI off shows Off; no provider shows the error; a ready provider is
/// resolved and asked straight away.
pub fn open_draft_panel(choices: Vec<DraftProvider>, resolution: Resolution) -> (r: (DraftAi, bool))
    ensures
        r.0.draft is None,
        r.0.generation == 0,
        !r.0.from_summaries,
        r.0.notice is None,
        r.0.task.choices == choices,
        r.0.task.provider is None && r.0.task.summaries is None && r.0.task.job_status is None,
        r.0.task.queue_position is None && r.0.task.raw_text is None && r.0.task.privacy is None,
        match resolution {
            Resolution::Off => r.0.task.status == AiStatus::Off && r.0.task.error is None && !r.1,
            Resolution::NoProvider { error } => r.0.task.status == AiStatus::NoProvider && r.0.task.error == Some(
                error,
            ) && !r.1,
            Resolution::Ready { .. } => r.0.task.status == AiStatus::Manual && r.0.task.error is None && r.1,
        },
{
    let mut task = AiTask::new(AiStatus::Manual, choices);
    let mut ask = false;
    match resolution {
        Resolution::Off => task.status = AiStatus::Off,
        Resolution::NoProvider { error } => {
            task.status = AiStatus::NoProvider;
            task.error = Some(error);
        },
        Resolution::Ready { .. } => ask = true,
    }
    (DraftAi { task, draft: None, generation: 0, from_summaries: false, notice: None }, ask)
}

/// Step 4's panel after blocking checks failed: none when AI is off or no
/// provider can be used (the step then fails with the checks), else a
/// working panel whose provider is resolved and asked at once.
pub fn open_explanation(choices: Vec<DraftProvider>, resolution: &Resolution) -> (e: Option<Explanation>)
    ensures
        match resolution {
            Resolution::Ready { .. } => e matches Some(x) && x.task.status == AiStatus::Working && x.task.choices
                == choices && x.task.provider is None && x.task.summaries is None && x.task.job_status is None
                && x.task.queue_position is None && x.task.error is None && x.task.raw_text is None
                && x.task.privacy is None && x.text is None && x.fixes@.len() == 0,
            _ => e is None,
        },
{
    match resolution {
        Resolution::Ready { .. } => Some(
            Explanation { task: AiTask::new(AiStatus::Working, choices), text: None, fixes: Vec::new() },
        ),
        _ => None,
    }
}

/// Step 2 starts asking `provider`: the phase is Drafting, the card runs and
/// the panel's task starts over. A state without a draft panel only moves on.
pub fn start_draft(state: &mut RunState, provider: DraftProvider)
    ensures
        final(state).phase == Phase::Drafting,
        final(state).steps@ == card_set(old(state).steps@, Step::Draft, StepStatus::Running, None),
        match old(state).draft_ai {
            Some(panel) => final(state).draft_ai matches Some(p) && p.draft == panel.draft && p.generation
                == panel.generation && p.from_summaries == panel.from_summaries && p.notice == panel.notice
                && p.task.status == AiStatus::Working && p.task.provider == Some(provider) && p.task.choices
                == panel.task.choices && p.task.summaries is None && p.task.job_status is None
                && p.task.queue_position is None && p.task.error is None && p.task.raw_text is None
                && p.task.privacy is None,
            None => final(state).draft_ai is None,
        },
        same_but_cards(
            *final(state),
            RunState { phase: Phase::Drafting, draft_ai: final(state).draft_ai, ..*old(state) },
        ),
{
    state.phase = Phase::Drafting;
    state.set_step(Step::Draft, StepStatus::Running, None);
    match state.draft_ai.take() {
        Some(mut panel) => {
            panel.task.start(provider);
            state.draft_ai = Some(panel);
        },
        None => {},
    }
}

/// Step 4 starts asking `provider`: the card runs, the explanation's task
/// starts over and its text and fixes are cleared.
pub fn start_explanation(state: &mut RunState, provider: DraftProvider)
    ensures
        final(state).steps@ == card_set(old(state).steps@, Step::Verify, StepStatus::Running, None),
        match old(state).explanation {
            Some(x) => final(state).explanation matches Some(e) && e.text is None && e.fixes@.len() == 0
                && e.task.status == AiStatus::Working && e.task.provider == Some(provider) && e.task.choices
                == x.task.choices && e.task.summaries is None && e.task.job_status is None
                && e.task.queue_position is None && e.task.error is None && e.task.raw_text is None
                && e.task.privacy is None,
            None => final(state).explanation is None,
        },
        same_but_cards(*final(state), RunState { explanation: final(state).explanation, ..*old(state) }),
{
    state.set_step(Step::Verify, StepStatus::Running, None);
    match state.explanation.take() {
        Some(mut x) => {
            x.task.start(provider);
            x.text = None;
            x.fixes = Vec::new();
            state.explanation = Some(x);
        },
        None => {},
    }
}

/// Progress from a running AI task.
pub enum AssistEvent {
    /// A provider is being tried.
    Attempt { provider: DraftProvider },
    /// A queued job reported its status.
    Pending { status: String, queue_position: Option<u32> },
    /// Per-file summaries advanced.
    Summaries { progress: SummaryProgress },
}

/// Shows a progress event on the task.
pub fn apply_event(task: &mut AiTask, event: AssistEvent)
    ensures
        match event {
            AssistEvent::Attempt { provider } => *final(task) == (AiTask {
                provider: Some(provider),
                job_status: None,
                queue_position: None,
                ..*old(task)
            }),
            AssistEvent::Pending { status, queue_position } => *final(task) == (AiTask {
                job_status: Some(status),
                queue_position,
                ..*old(task)
            }),
            AssistEvent::Summaries { progress } => *final(task) == (AiTask {
                summaries: Some(progress),
                ..*old(task)
            }),
        },
{
    match event {
        AssistEvent::Attempt { provider } => {
            task.provider = Some(provider);
            task.job_status = None;
            task.queue_position = None;
        },
        AssistEvent::Pending { status, queue_position } => {
            task.job_status = Some(status);
            task.queue_position = queue_position;
        },
        AssistEvent::Summaries { progress } => {
            task.summaries = Some(progress);
        },
    }
}

/// What a decision that arrives while the AI works does.
pub enum PumpReaction {
    /// Accepting a notice: the task goes on.
    Ignore,
    /// Any other decision stops the task and is handled once it has stopped.
    Hold { decision: Decision },
    /// The decisions closed: the run is cancelled.
    Cancel,
}

/// Reacts to a decision (or the end of decisions) while the AI works.
pub fn pump_reaction(decision: Option<Decision>) -> (r: PumpReaction)
    ensures
        match decision {
            None => r is Cancel,
            Some(Decision::AcceptPrivacy { .. }) => r is Ignore,
            Some(d) => r == (PumpReaction::Hold { decision: d }),
        },
{
    match decision {
        None => PumpReaction::Cancel,
        Some(Decision::AcceptPrivacy { .. }) => PumpReaction::Ignore,
        Some(d) => PumpReaction::Hold { decision: d },
    }
}

/// How an AI task ended.
pub enum AiOutcome<T> {
    /// The provider's answer.
    Answer(T),
    /// The developer stopped it.
    Cancelled,
    /// It failed with this error, and the unusable answer when there was one.
    Failed { error: ErrorView, raw_text: Option<String> },
}

/// An AI draft as the provider wrote it.
pub struct DraftAnswer {
    /// The version it suggests.
    pub version: String,
    /// Why.
    pub reason: String,
    /// The changelog entry, Markdown.
    pub changelog_markdown: String,
    /// The upgrade notice.
    pub upgrade_notice: String,
    /// A one-line summary.
    pub summary: String,
    /// The provider that answered.
    pub provider: DraftProvider,
    /// The provider that failed first, when the router fell back.
    pub fell_back_from: Option<String>,
    /// Whether it was written from per-file summaries.
    pub from_summaries: bool,
}

/// Whether finishing a draft can settle its version.
pub open spec fn draft_finish_ready(panel: DraftAi, outcome: AiOutcome<DraftAnswer>, previous: Option<Seq<char>>) -> bool {
    outcome matches AiOutcome::Answer(a) ==> panel.generation < u32::MAX && settle_ready(a.version@, previous)
}

/// Shows how Step 2's AI task ended. An answer becomes the panel's draft,
/// its version settled against the previous release (`suggested` when
/// there is none to go by), with a new generation; a stop returns the panel
/// to manual; a failure shows the error and the unusable answer.
pub fn finish_draft(panel: &mut DraftAi, outcome: AiOutcome<DraftAnswer>, previous: Option<&str>, suggested: &str)
    requires
        draft_finish_ready(*old(panel), outcome, match previous {
            Some(p) => Some(p@),
            None => None,
        }),
    ensures
        match outcome {
            AiOutcome::Answer(a) => {
                let settled = settle_spec(a.version@, match previous {
                    Some(p) => Some(p@),
                    None => None,
                }, suggested@);
                &&& final(panel).draft matches Some(d) && d.version@ == settled.0 && d.reason == a.reason
                    && d.changelog_markdown == a.changelog_markdown && d.upgrade_notice == a.upgrade_notice
                    && d.summary == a.summary && d.provider == Some(a.provider) && d.fell_back_from
                    == a.fell_back_from
                &&& opt_view(final(panel).notice) == settled.1
                &&& final(panel).generation == old(panel).generation + 1
                &&& final(panel).from_summaries == a.from_summaries
                &&& final(panel).task == (AiTask {
                    status: AiStatus::Done,
                    summaries: None,
                    job_status: None,
                    queue_position: None,
                    ..old(panel).task
                })
            },
            AiOutcome::Cancelled => *final(panel) == (DraftAi {
                task: AiTask { status: AiStatus::Manual, ..old(panel).task },
                ..*old(panel)
            }),
            AiOutcome::Failed { error, raw_text } => *final(panel) == (DraftAi {
                task: AiTask {
                    status: AiStatus::Failed,
                    error: Some(error),
                    raw_text,
                    job_status: None,
                    queue_position: None,
                    ..old(panel).task
                },
                ..*old(panel)
            }),
        },
{
    match outcome {
        AiOutcome::Answer(a) => {
            let (version, notice) = settle_version(a.version.as_str(), previous, suggested);
            panel.draft = Some(
                ReleaseDraft {
                    version,
                    reason: a.reason,
                    changelog_markdown: a.changelog_markdown,
                    upgrade_notice: a.upgrade_notice,
                    summary: a.summary,
                    provider: Some(a.provider),
                    fell_back_from: a.fell_back_from,
                },
            );
            panel.generation = panel.generation + 1;
            panel.from_summaries = a.from_summaries;
            panel.notice = notice;
            panel.task.status = AiStatus::Done;
            panel.task.summaries = None;
            panel.task.job_status = None;
            panel.task.queue_position = None;
        },
        AiOutcome::Cancelled => {
            panel.task.status = AiStatus::Manual;
        },
        AiOutcome::Failed { error, raw_text } => {
            panel.task.status = AiStatus::Failed;
            panel.task.error = Some(error);
            panel.task.raw_text = raw_text;
            panel.task.job_status = None;
            panel.task.queue_position = None;
        },
    }
}

/// An explanation as the provider wrote it.
pub struct ExplainAnswer {
    /// Plain-language explanation of the failed checks.
    pub explanation: String,
    /// Suggested readme edits.
    pub fixes: Vec<SuggestedFix>,
}

/// Whether `v` shows the suggested fix `f` checked against `readme`.
pub open spec fn shows_fix(f: SuggestedFix, v: FixView, readme: Option<Seq<char>>) -> bool {
    &&& v.check_id == f.check_id
    &&& v.path == f.path
    &&& v.original == f.original
    &&& v.replacement == f.replacement
    &&& (opt_view(v.problem), v.diff@) == fix_check(f.path@, f.original@, f.replacement@, readme)
}

/// Shows how Step 4's AI task ended: the explanation and its fixes, each
/// checked against the current readme; a stop returns the panel to manual;
/// a failure shows the error and the unusable answer. Queue progress is cleared.
pub fn finish_explanation(panel: &mut Explanation, outcome: AiOutcome<ExplainAnswer>, readme: Option<&str>)
    ensures
        final(panel).task.job_status is None,
        final(panel).task.queue_position is None,
        match outcome {
            AiOutcome::Answer(a) => {
                &&& final(panel).task == (AiTask {
                    status: AiStatus::Done,
                    job_status: None,
                    queue_position: None,
                    ..old(panel).task
                })
                &&& final(panel).text == Some(a.explanation)
                &&& final(panel).fixes@.len() == a.fixes@.len()
                &&& forall|k: int|
                    0 <= k < a.fixes@.len() ==> shows_fix(
                        a.fixes@[k],
                        #[trigger] final(panel).fixes@[k],
                        match readme {
                            Some(t) => Some(t@),
                            None => None,
                        },
                    )
            },
            AiOutcome::Cancelled => *final(panel) == (Explanation {
                task: AiTask { status: AiStatus::Manual, job_status: None, queue_position: None, ..old(panel).task },
                ..*old(panel)
            }),
            AiOutcome::Failed { error, raw_text } => *final(panel) == (Explanation {
                task: AiTask {
                    status: AiStatus::Failed,
                    error: Some(error),
                    raw_text,
                    job_status: None,
                    queue_position: None,
                    ..old(panel).task
                },
                ..*old(panel)
            }),
        },
{
    panel.task.job_status = None;
    panel.task.queue_position = None;
    match outcome {
        AiOutcome::Answer(a) => {
            panel.task.status = AiStatus::Done;
            panel.text = Some(a.explanation);
            let ghost suggested = a.fixes@;
            let mut fixes: Vec<FixView> = Vec::new();
            let mut rest = a.fixes;
            while rest.len() > 0
                invariant
                    fixes@.len() <= suggested.len(),
                    rest@ == suggested.subrange(fixes@.len() as int, suggested.len() as int),
                    forall|k: int|
                        0 <= k < fixes@.len() ==> shows_fix(
                            suggested[k],
                            #[trigger] fixes@[k],
                            match readme {
                                Some(t) => Some(t@),
                                None => None,
                            },
                        ),
                decreases rest@.len(),
            {
                let f = rest.remove(0);
                let v = fix_view(f, readme);
                fixes.push(v);
            }
            panel.fixes = fixes;
        },
        AiOutcome::Cancelled => {
            panel.task.status = AiStatus::Manual;
        },
        AiOutcome::Failed { error, raw_text } => {
            panel.task.status = AiStatus::Failed;
            panel.task.error = Some(error);
            panel.task.raw_text = raw_text;
        },
    }
}

/// Whether `p` occurs exactly once in `t`, as `str::matches` counts (an empty
/// pattern matches at every character boundary).
pub open spec fn occurs_once(t: Seq<char>, p: Seq<char>) -> bool {
    if p.len() == 0 {
        t.len() == 0
    } else {
        count_matches(t, p) == 1
    }
}

/// The readme after applying the chosen fixes in turn, and how many applied.
/// A fix applies when its index is in range, it had no problem, and its text
/// occurs exactly once in the readme as the fixes before it left it.
pub open spec fn applied_fixes(text: Seq<char>, fixes: Seq<FixView>, chosen: Seq<u32>) -> (Seq<char>, nat)
    decreases chosen.len(),
{
    if chosen.len() == 0 {
        (text, 0)
    } else {
        let before = applied_fixes(text, fixes, chosen.drop_last());
        let i = chosen.last() as int;
        if i < fixes.len() && fixes[i].problem is None && occurs_once(before.0, fixes[i].original@) {
            let after = if fixes[i].original@.len() == 0 {
                fixes[i].replacement@
            } else {
                replace_first(before.0, fixes[i].original@, fixes[i].replacement@)
            };
            (after, before.1 + 1)
        } else {
            before
        }
    }
}

/// Applies the chosen suggested fixes to the readme text: the new text and
/// how many fixes applied, or `None` when the text does not change.
pub fn apply_fixes(readme: &str, fixes: &[FixView], chosen: &[u32]) -> (r: Option<(String, u64)>)
    ensures
        r is None <==> applied_fixes(readme@, fixes@, chosen@).0 == readme@,
        r matches Some((text, n)) ==> text@ == applied_fixes(readme@, fixes@, chosen@).0 && n
            == applied_fixes(readme@, fixes@, chosen@).1,
{
    let original = to_chars(readme);
    let mut text = to_chars(readme);
    let mut applied: u64 = 0;
    let mut k: usize = 0;
    while k < chosen.len()
        invariant
            k <= chosen@.len(),
            original@ == readme@,
            text@ == applied_fixes(readme@, fixes@, chosen@.subrange(0, k as int)).0,
            applied == applied_fixes(readme@, fixes@, chosen@.subrange(0, k as int)).1,
            applied <= k,
        decreases chosen@.len() - k,
    {
        let ghost sub = chosen@.subrange(0, k + 1);
        proof {
            assert(sub.drop_last() =~= chosen@.subrange(0, k as int));
            assert(sub.last() == chosen@[k as int]);
        }
        let i = chosen[k] as usize;
        if i < fixes.len() && fixes[i].problem.is_none() {
            let pattern = to_chars(fixes[i].original.as_str());
            let replacement = to_chars(fixes[i].replacement.as_str());
            if pattern.len() == 0 {
                if text.len() == 0 {
                    text = replacement;
                    applied = applied + 1;
                }
            } else if count_of(text.as_slice(), pattern.as_slice()) == 1 {
                text = replace_first_chars(text.as_slice(), pattern.as_slice(), replacement.as_slice());
                applied = applied + 1;
            }
        }
        k = k + 1;
    }
    proof {
        assert(chosen@.subrange(0, chosen@.len() as int) =~= chosen@);
    }
    let after = from_chars(text.as_slice());
    if same_chars(text.as_slice(), original.as_slice()) {
        None
    } else {
        Some((after, applied))
    }
}

/// Whether two character sequences are equal.
fn same_chars(a: &[char], b: &[char]) -> (r: bool)
    ensures
        r == (a@ == b@),
{
    if a.len() != b.len() {
        return false;
    }
    let mut i: usize = 0;
    while i < a.len()
        invariant
            i <= a@.len(),
            a@.len() == b@.len(),
            forall|q: int| 0 <= q < i ==> a@[q] == b@[q],
        decreases a@.len() - i,
    {
        if a[i] != b[i] {
            return false;
        }
        i = i + 1;
    }
    proof {
        assert(a@ =~= b@);
    }
    true
}

/// The notice after applying fixes: how many applied, or that none could be
/// because the readme changed since they were suggested.
pub open spec fn fixes_notice_text(applied: Option<u64>) -> Seq<char> {
    match applied {
        Some(n) => "Applied "@ + decimal(n as nat) + " suggested fix(es) to readme.txt."@,
        None => "None of the chosen fixes could be applied; the readme changed since they were suggested."@,
    }
}

/// The notice after applying fixes.
pub fn fixes_notice(applied: Option<u64>) -> (s: String)
    ensures
        s@ == fixes_notice_text(applied),
{
    match applied {
        Some(n) => {
            let mut s = "Applied ".to_owned();
            let number = decimal_string(n);
            s.append(number.as_str());
            s.append(" suggested fix(es) to readme.txt.");
            s
        },
        None => "None of the chosen fixes could be applied; the readme changed since they were suggested.".to_owned(),
    }
}

/// The line a file contributes to a summarised draft: its summary, or a
/// note once the file limit is reached.
pub open spec fn summary_line(index: int, path: Seq<char>, summaries: Seq<Seq<char>>) -> Seq<char> {
    if index >= MAX_SUMMARISED_FILES {
        path + ": not summarised (file limit reached)"@
    } else {
        path + ": "@ + summaries[index]
    }
}

/// How many files are summarised one by one.
pub open spec fn summarised_count(files: nat) -> nat {
    if files < MAX_SUMMARISED_FILES {
        files
    } else {
        MAX_SUMMARISED_FILES as nat
    }
}

/// The changes a draft is written from when the diff was too large: one
/// line per file, `path: summary`, the files past the limit noted as not
/// summarised; `summaries` holds the answers for the first files.
pub fn summarised_changes(paths: &[String], summaries: &[String]) -> (s: String)
    requires
        summaries@.len() == summarised_count(paths@.len()),
    ensures
        s@ == join(
            Seq::new(paths@.len(), |i: int| summary_line(i, paths@[i]@, texts(summaries@))),
            "\n"@,
        ),
{
    let ghost want = Seq::new(paths@.len(), |i: int| summary_line(i, paths@[i]@, texts(summaries@)));
    let mut lines: Vec<String> = Vec::new();
    let mut i: usize = 0;
    while i < paths.len()
        invariant
            i <= paths@.len(),
            summaries@.len() == summarised_count(paths@.len()),
            want == Seq::new(paths@.len(), |i: int| summary_line(i, paths@[i]@, texts(summaries@))),
            texts(lines@) == want.take(i as int),
        decreases paths@.len() - i,
    {
        let mut line = paths[i].clone();
        if i >= MAX_SUMMARISED_FILES {
            line.append(": not summarised (file limit reached)");
        } else {
            line.append(": ");
            line.append(summaries[i].as_str());
        }
        proof {
            assert(texts(summaries@).len() == summaries@.len());
            if i < MAX_SUMMARISED_FILES {
                assert(texts(summaries@)[i as int] == summaries@[i as int]@);
            }
            assert(line@ == want[i as int]);
        }
        let ghost before = lines@;
        lines.push(line);
        proof {
            assert(texts(lines@) =~= texts(before).push(want[i as int]));
            assert(want.take(i + 1) =~= want.take(i as int).push(want[i as int]));
        }
        i = i + 1;
    }
    proof {
        assert(want.take(paths@.len() as int) =~= want);
    }
    join_texts(lines.as_slice(), "\n")
}

/// What the AI reads besides the failed checks when it explains them: the
/// readme, then the main file's text cut to `budget` characters, each when
/// it was read and the exclude patterns keep it.
pub open spec fn excerpts_spec(
    lines: Seq<Seq<char>>,
    readme: Option<Seq<char>>,
    main_file: Option<Seq<char>>,
    main_text: Option<Seq<char>>,
    budget: nat,
) -> Seq<(Seq<char>, Seq<char>)> {
    (match readme {
        Some(t) => if !excluded_by(lines, "readme.txt"@) {
            seq![("readme.txt"@, t)]
        } else {
            seq![]
        },
        None => seq![],
    }) + (match (main_file, main_text) {
        (Some(m), Some(t)) => if !excluded_by(lines, m) {
            seq![(m, first_chars(t, budget))]
        } else {
            seq![]
        },
        _ => seq![],
    })
}

/// The excerpts an explanation of failed checks is written from.
pub fn explanation_excerpts(
    filter: &Filter,
    readme: Option<String>,
    main_file: Option<String>,
    main_text: Option<String>,
    budget: usize,
) -> (r: Vec<(String, String)>)
    ensures
        pair_texts(r@) == excerpts_spec(filter.lines(), opt_view(readme), opt_view(main_file), opt_view(main_text), budget as nat),
{
    let mut r: Vec<(String, String)> = Vec::new();
    match readme {
        Some(t) => {
            if !filter.excludes("readme.txt") {
                r.push(("readme.txt".to_owned(), t));
            }
        },
        None => {},
    }
    let ghost head = pair_texts(r@);
    match (main_file, main_text) {
        (Some(m), Some(t)) => {
            if !filter.excludes(m.as_str()) {
                let excerpt = crate::run::material::cut_text(t.as_str(), budget);
                r.push((m, excerpt));
                proof {
                    assert(pair_texts(r@) =~= head.push((m@, first_chars(t@, budget as nat))));
                }
            }
        },
        _ => {},
    }
    proof {
        assert(pair_texts(r@) =~= excerpts_spec(filter.lines(), opt_view(readme), opt_view(main_file), opt_view(main_text), budget as nat));
    }
    r
}

} // verus!
