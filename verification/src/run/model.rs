//! The run's shape: steps, phases, the draft, and the one `RunState` the UI renders.

use vstd::prelude::*;

use crate::plugin::PluginFacts;
use crate::svn::{Delta, TagVerification};
use crate::verify::CheckResult;

use super::ai_view::{DraftAi, Explanation};
use super::changes::ChangeSet;

verus! {

broadcast use vstd::string::group_string_axioms;

/// The seven protocol steps, in order.
#[derive(Debug, Clone, Copy, PartialEq, Eq, PartialOrd, Ord, Structural)]
pub enum Step {
    /// 1. Detect.
    Detect,
    /// 2. Changes and draft.
    Draft,
    /// 3. Write.
    Write,
    /// 4. Verify.
    Verify,
    /// 5. Build.
    Build,
    /// 6. Preview SVN.
    Preview,
    /// 7. Publish.
    Publish,
}

/// The 1-based number of a step.
pub open spec fn step_number(step: Step) -> u8 {
    match step {
        Step::Detect => 1,
        Step::Draft => 2,
        Step::Write => 3,
        Step::Verify => 4,
        Step::Build => 5,
        Step::Preview => 6,
        Step::Publish => 7,
    }
}

/// Every step in order.
pub open spec fn all_steps() -> Seq<Step> {
    seq![Step::Detect, Step::Draft, Step::Write, Step::Verify, Step::Build, Step::Preview, Step::Publish]
}

impl Step {
    /// Every step in order.
    pub fn all() -> (v: Vec<Step>)
        ensures
            v@ == all_steps(),
    {
        let v = vec![Step::Detect, Step::Draft, Step::Write, Step::Verify, Step::Build, Step::Preview, Step::Publish];
        assert(v@ =~= all_steps());
        v
    }

    /// The 1-based number shown in the checklist.
    pub fn number(self) -> (n: u8)
        ensures
            n == step_number(self),
    {
        match self {
            Step::Detect => 1,
            Step::Draft => 2,
            Step::Write => 3,
            Step::Verify => 4,
            Step::Build => 5,
            Step::Preview => 6,
            Step::Publish => 7,
        }
    }
}

/// Steps are numbered 1 to 7 in their order: the `i`-th step has number `i + 1`.
pub proof fn lemma_steps_numbered_in_order(i: int)
    requires
        0 <= i < 7,
    ensures
        step_number(all_steps()[i]) == i + 1,
{
}

/// A step card's state.
#[derive(Debug, Clone, Copy, PartialEq, Eq, Structural)]
pub enum StepStatus {
    /// Not reached.
    Pending,
    /// Working.
    Running,
    /// Waiting for the developer.
    Waiting,
    /// Finished.
    Done,
    /// Stopped the run.
    Failed,
    /// Not part of this run (Publish in a dry run).
    Skipped,
}

/// One card in the checklist.
pub struct StepView {
    /// Which step.
    pub step: Step,
    /// Its state.
    pub status: StepStatus,
    /// One line about what happened.
    pub summary: Option<String>,
}

/// Where the run is.
#[derive(Debug, Clone, Copy, PartialEq, Eq, Structural)]
pub enum Phase {
    /// Created, not started.
    Idle,
    /// Step 1.
    Detecting,
    /// Step 2, computing changes.
    Drafting,
    /// Step 2, waiting for Approve.
    AwaitingApproval,
    /// Step 3.
    Writing,
    /// Step 4.
    Verifying,
    /// Step 4 failed; waiting for suggested fixes to be applied or the run stopped.
    AwaitingFixes,
    /// Step 5, waiting for the file review.
    AwaitingFileReview,
    /// Step 5.
    Building,
    /// Step 6.
    Previewing,
    /// Step 7, waiting for the Publish confirmation.
    AwaitingPublish,
    /// Step 7, committing and tagging.
    Publishing,
    /// Published and the tag verified.
    Verified,
    /// Published; the tag could not be verified yet.
    PublishedUnverified,
    /// A dry run finished its preview.
    DryRunComplete,
    /// A step failed.
    Failed,
    /// The developer cancelled.
    Cancelled,
}

/// The phases a run ends in.
pub open spec fn terminal(p: Phase) -> bool {
    p == Phase::Verified || p == Phase::PublishedUnverified || p == Phase::DryRunComplete || p == Phase::Failed
        || p == Phase::Cancelled
}

impl Phase {
    /// Whether the run has ended.
    pub fn is_terminal(self) -> (b: bool)
        ensures
            b == terminal(self),
    {
        match self {
            Phase::Verified | Phase::PublishedUnverified | Phase::DryRunComplete | Phase::Failed | Phase::Cancelled => true,
            _ => false,
        }
    }
}

/// A typed error, ready to render.
#[derive(Debug)]
pub struct ErrorView {
    /// Stable code.
    pub code: String,
    /// What went wrong.
    pub message: String,
    /// What to do about it.
    pub fix: Option<String>,
}

/// What `char::to_uppercase` yields for `c`.
pub uninterp spec fn uppercase_of(c: char) -> Seq<char>;

/// An ASCII character in uppercase: a lowercase letter becomes its capital,
/// anything else stays.
pub open spec fn ascii_upper(c: char) -> char {
    if 'a' <= c && c <= 'z' {
        ((c as u32) - 32) as char
    } else {
        c
    }
}

/// `char::to_uppercase`, collected: the Unicode uppercase mapping of `c`,
/// which depends on `c` alone; for an ASCII character it is the one
/// character `char::to_ascii_uppercase` gives.
#[verifier::external_body]
fn uppercase(c: char) -> (s: String)
    ensures
        s@ == uppercase_of(c),
        (c as u32) < 128 ==> s@ == seq![ascii_upper(c)],
{
    c.to_uppercase().collect()
}

/// `text` with its first character in uppercase (an ASCII one by the
/// ASCII mapping).
pub open spec fn capitalised(text: Seq<char>) -> Seq<char> {
    if text.len() == 0 {
        text
    } else if (text[0] as u32) < 128 {
        seq![ascii_upper(text[0])] + text.skip(1)
    } else {
        uppercase_of(text[0]) + text.skip(1)
    }
}

/// `text` with its first character in uppercase.
pub fn capitalise(text: &str) -> (r: String)
    ensures
        r@ == capitalised(text@),
{
    let chars = crate::strings::to_chars(text);
    if chars.len() == 0 {
        return String::new();
    }
    let mut r = uppercase(chars[0]);
    let rest = crate::strings::slice_chars(chars.as_slice(), 1, chars.len());
    proof {
        assert(rest@ =~= text@.skip(1));
    }
    r.append(crate::strings::from_chars(rest.as_slice()).as_str());
    r
}

impl ErrorView {
    /// From a coded error's code, message and fix; the message is capitalised.
    pub fn from_coded(code: &str, message: &str, fix: Option<String>) -> (e: ErrorView)
        ensures
            e.code@ == code@,
            e.message@ == capitalised(message@),
            e.fix == fix,
    {
        ErrorView { code: code.to_owned(), message: capitalise(message), fix }
    }

    /// A run-level error with a fixed code.
    pub fn new(code: &str, message: String, fix: Option<String>) -> (e: ErrorView)
        ensures
            e.code@ == code@,
            e.message == message,
            e.fix == fix,
    {
        ErrorView { code: code.to_owned(), message, fix }
    }
}

/// The AI provider that wrote a draft.
pub struct DraftProvider {
    /// Provider record id.
    pub id: String,
    /// Adapter kind.
    pub kind: String,
    /// Record label.
    pub label: String,
}

/// The release text the developer approves.
pub struct ReleaseDraft {
    /// The version to release.
    pub version: String,
    /// Why this version (one sentence).
    pub reason: String,
    /// The changelog entry body.
    pub changelog_markdown: String,
    /// The upgrade notice; empty for none.
    pub upgrade_notice: String,
    /// One paragraph about the release.
    pub summary: String,
    /// Who wrote it; `None` when written by hand.
    pub provider: Option<DraftProvider>,
    /// The provider that failed before this one answered.
    pub fell_back_from: Option<String>,
}

/// What Step 2 knows before a draft exists.
pub struct DraftContext {
    /// The previous release, if any.
    pub previous: Option<String>,
    /// The next patch version, pre-filled in the form.
    pub suggested_version: String,
    /// What changed.
    pub changes: ChangeSet,
    /// A pre-filled draft from the readme and commits.
    pub prefill: ReleaseDraft,
}

/// A unified diff of one written file.
pub struct FileDiff {
    /// Path relative to the project folder.
    pub path: String,
    /// Unified diff text.
    pub diff: String,
}

/// What Step 6 will commit and tag.
pub struct SvnPreview {
    /// Changes under `trunk/`.
    pub trunk: Delta,
    /// Changes under `assets/`.
    pub assets: Delta,
    /// Default trunk commit message.
    pub trunk_message: String,
    /// Default tag commit message.
    pub tag_message: String,
    /// The tag URL that will be created.
    pub tag_url: String,
    /// The SVN URL.
    pub svn_url: String,
    /// The account that will commit, when one is set up.
    pub account: Option<String>,
    /// Per-file diffs, keyed `trunk/<path>` or `assets/<path>`.
    pub diffs: Vec<FileDiff>,
}

/// What Step 7 did.
pub struct PublishResult {
    /// Trunk commit revision; `None` when trunk was unchanged.
    pub trunk_revision: Option<u64>,
    /// Tag commit revision.
    pub tag_revision: Option<u64>,
    /// Tag verification outcome.
    pub verification: Option<TagVerification>,
    /// The public plugin page.
    pub plugin_url: String,
    /// Whether the plugin page should open (project setting).
    pub open_plugin_page: bool,
    /// The zip that was published.
    pub zip_path: Option<String>,
}

/// The developer's answers while a run waits.
pub enum Decision {
    /// Step 2: write this draft.
    Approve { draft: ReleaseDraft },
    /// Step 2 or 4: ask the AI, optionally with another provider.
    Generate { provider_id: Option<String> },
    /// Step 2 or 4: the data-sharing notice for this provider was accepted.
    AcceptPrivacy { provider_id: String },
    /// Step 2: stop the AI and write the draft by hand.
    Manual,
    /// Step 4: apply these suggested readme fixes and verify again.
    ApplyFixes { fixes: Vec<u32> },
    /// Step 4: stop with the failed checks.
    Stop,
    /// Step 5: confirm the files, with the `.distignore` to save.
    ConfirmFiles { distignore: Option<String> },
    /// Step 7: commit and tag with these messages.
    Publish { trunk_message: String, tag_message: String },
}

/// Everything the UI renders about one run.
pub struct RunState {
    /// Run id (a sortable timestamp).
    pub id: String,
    /// Project folder.
    pub project_path: String,
    /// Whether this is a dry run.
    pub dry_run: bool,
    /// Where the run is.
    pub phase: Phase,
    /// The seven step cards.
    pub steps: Vec<StepView>,
    /// Step 1 result.
    pub facts: Option<PluginFacts>,
    /// Tags on the server.
    pub server_tags: Vec<String>,
    /// The previous release.
    pub previous: Option<String>,
    /// Step 2 context.
    pub draft_context: Option<DraftContext>,
    /// The approved draft.
    pub draft: Option<ReleaseDraft>,
    /// Step 3 diffs.
    pub diffs: Vec<FileDiff>,
    /// Step 2's AI panel.
    pub draft_ai: Option<DraftAi>,
    /// Step 4's explanation of failed checks.
    pub explanation: Option<Explanation>,
    /// Step 4 (and Build's V10–V13) results.
    pub checks: Vec<CheckResult>,
    /// Step 6 result.
    pub preview: Option<SvnPreview>,
    /// Step 7 result.
    pub publish: Option<PublishResult>,
    /// The error that stopped the run.
    pub error: Option<ErrorView>,
    /// Informational notes.
    pub notices: Vec<String>,
}

/// The index of the first card for `step`.
pub open spec fn card_index(steps: Seq<StepView>, step: Step) -> Option<int> {
    if exists|i: int| 0 <= i < steps.len() && (#[trigger] steps[i]).step == step {
        Some(choose|i: int| 0 <= i < steps.len() && (#[trigger] steps[i]).step == step && forall|j: int|
            0 <= j < i ==> (#[trigger] steps[j]).step != step)
    } else {
        None
    }
}

/// The cards after the first card of `step` is set to `status`, keeping its
/// summary when none is given; unchanged when there is no such card.
pub open spec fn card_set(steps: Seq<StepView>, step: Step, status: StepStatus, summary: Option<String>) -> Seq<StepView> {
    match card_index(steps, step) {
        Some(k) => steps.update(k, StepView {
            step,
            status,
            summary: if summary is Some { summary } else { steps[k].summary },
        }),
        None => steps,
    }
}

/// Two states that differ at most in their step cards.
pub open spec fn same_but_cards(a: RunState, b: RunState) -> bool {
    &&& a.id == b.id
    &&& a.project_path == b.project_path
    &&& a.dry_run == b.dry_run
    &&& a.phase == b.phase
    &&& a.facts == b.facts
    &&& a.server_tags == b.server_tags
    &&& a.previous == b.previous
    &&& a.draft_context == b.draft_context
    &&& a.draft == b.draft
    &&& a.diffs == b.diffs
    &&& a.draft_ai == b.draft_ai
    &&& a.explanation == b.explanation
    &&& a.checks == b.checks
    &&& a.preview == b.preview
    &&& a.publish == b.publish
    &&& a.error == b.error
    &&& a.notices == b.notices
}

/// Whether a card is running or waiting.
pub open spec fn active(v: StepView) -> bool {
    v.status == StepStatus::Running || v.status == StepStatus::Waiting
}

/// Whether `r` is the step of the first running or waiting card, or `None`
/// when no card is running or waiting.
pub open spec fn first_active_is(steps: Seq<StepView>, r: Option<Step>) -> bool {
    &&& (r is None <==> forall|i: int| 0 <= i < steps.len() ==> !active(#[trigger] steps[i]))
    &&& (r matches Some(s) ==> exists|i: int|
        0 <= i < steps.len() && active(#[trigger] steps[i]) && steps[i].step == s
            && forall|j: int| 0 <= j < i ==> !active(#[trigger] steps[j]))
}

impl RunState {
    /// A fresh state with every step pending.
    pub fn new(id: String, project_path: String, dry_run: bool) -> (s: RunState)
        ensures
            s.id == id,
            s.project_path == project_path,
            s.dry_run == dry_run,
            s.phase == Phase::Idle,
            s.steps@.len() == 7,
            forall|i: int| 0 <= i < 7 ==> (#[trigger] s.steps@[i]).step == all_steps()[i] && s.steps@[i].status
                == StepStatus::Pending && s.steps@[i].summary is None,
            s.facts is None,
            s.server_tags@.len() == 0,
            s.previous is None,
            s.draft_context is None,
            s.draft is None,
            s.diffs@.len() == 0,
            s.draft_ai is None,
            s.explanation is None,
            s.checks@.len() == 0,
            s.preview is None,
            s.publish is None,
            s.error is None,
            s.notices@.len() == 0,
    {
        let all = Step::all();
        let mut steps: Vec<StepView> = Vec::new();
        let mut i: usize = 0;
        while i < all.len()
            invariant
                i <= all@.len(),
                all@ == all_steps(),
                steps@.len() == i,
                forall|k: int| 0 <= k < i ==> (#[trigger] steps@[k]).step == all_steps()[k] && steps@[k].status
                    == StepStatus::Pending && steps@[k].summary is None,
            decreases all@.len() - i,
        {
            steps.push(StepView { step: all[i], status: StepStatus::Pending, summary: None });
            i = i + 1;
        }
        RunState {
            id,
            project_path,
            dry_run,
            phase: Phase::Idle,
            steps,
            facts: None,
            server_tags: Vec::new(),
            previous: None,
            draft_context: None,
            draft: None,
            diffs: Vec::new(),
            draft_ai: None,
            explanation: None,
            checks: Vec::new(),
            preview: None,
            publish: None,
            error: None,
            notices: Vec::new(),
        }
    }

    /// Sets the first card of `step` to `status`, and its summary when one is given.
    pub fn set_step(&mut self, step: Step, status: StepStatus, summary: Option<String>)
        ensures
            final(self).steps@ == card_set(old(self).steps@, step, status, summary),
            same_but_cards(*final(self), *old(self)),
    {
        let mut i: usize = 0;
        while i < self.steps.len()
            invariant
                i <= self.steps@.len(),
                self.steps@ == old(self).steps@,
                same_but_cards(*self, *old(self)),
                forall|j: int| 0 <= j < i ==> (#[trigger] self.steps@[j]).step != step,
            decreases self.steps@.len() - i,
        {
            if self.steps[i].step == step {
                proof {
                    let k = card_index(old(self).steps@, step)->0;
                    assert(old(self).steps@[i as int].step == step);
                    if k != i {
                        assert(k < i || k > i);
                    }
                }
                let old_summary = match &self.steps[i].summary {
                    Some(s) => Some(s.clone()),
                    None => None,
                };
                let new_summary = if summary.is_some() {
                    summary
                } else {
                    old_summary
                };
                self.steps.set(i, StepView { step, status, summary: new_summary });
                return;
            }
            i = i + 1;
        }
    }

    /// The step currently running or waiting, if any: the first such card.
    pub fn active_step(&self) -> (r: Option<Step>)
        ensures
            first_active_is(self.steps@, r),
    {
        let mut i: usize = 0;
        while i < self.steps.len()
            invariant
                i <= self.steps@.len(),
                forall|j: int| 0 <= j < i ==> !active(#[trigger] self.steps@[j]),
            decreases self.steps@.len() - i,
        {
            if self.steps[i].status == StepStatus::Running || self.steps[i].status == StepStatus::Waiting {
                assert(active(self.steps@[i as int]));
                return Some(self.steps[i].step);
            }
            i = i + 1;
        }
        None
    }
}

} // verus!
