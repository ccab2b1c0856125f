//! What the UI shows about the AI inside a run: the draft panel in Step 2 and
//! the explanation of failed checks in Step 4.

use vstd::prelude::*;

use super::model::{DraftProvider, ErrorView, ReleaseDraft};

verus! {

/// Where an AI task is.
#[derive(Debug, Clone, Copy, PartialEq, Eq, Structural)]
pub enum AiStatus {
    /// The project turned AI off.
    Off,
    /// No provider could be resolved.
    NoProvider,
    /// Waiting for the developer to accept the data-sharing notice.
    NeedsConsent,
    /// Asking the provider.
    Working,
    /// The answer arrived.
    Done,
    /// The provider failed; the error says why.
    Failed,
    /// The developer chose to write it by hand.
    Manual,
}

/// The one-time notice shown before a provider first receives project data.
pub struct PrivacyNotice {
    /// Who will receive the data.
    pub provider: DraftProvider,
    /// Whether the provider is Revoye (answers come from the developer's own AI accounts).
    pub revoye: bool,
}

/// Per-file summaries written so far, when the diff was too large.
#[derive(Debug, Clone, Copy, PartialEq, Eq)]
pub struct SummaryProgress {
    /// Files summarised.
    pub done: u32,
    /// Files to summarise.
    pub total: u32,
}

/// Progress and outcome of one AI task.
pub struct AiTask {
    /// Where it is.
    pub status: AiStatus,
    /// The provider asked (the last one, after a fallback).
    pub provider: Option<DraftProvider>,
    /// Every configured provider, for the Change link.
    pub choices: Vec<DraftProvider>,
    /// Summaries written so far, when the diff was too large.
    pub summaries: Option<SummaryProgress>,
    /// Job status while pending.
    pub job_status: Option<String>,
    /// Queue position while queued.
    pub queue_position: Option<u32>,
    /// Why it failed.
    pub error: Option<ErrorView>,
    /// The unusable answer, shown as plain text.
    pub raw_text: Option<String>,
    /// The notice to accept first.
    pub privacy: Option<PrivacyNotice>,
}

impl AiTask {
    /// A task in `status` with no progress.
    pub fn new(status: AiStatus, choices: Vec<DraftProvider>) -> (t: AiTask)
        ensures
            t.status == status,
            t.choices == choices,
            t.provider is None,
            t.summaries is None,
            t.job_status is None,
            t.queue_position is None,
            t.error is None,
            t.raw_text is None,
            t.privacy is None,
    {
        AiTask {
            status,
            provider: None,
            choices,
            summaries: None,
            job_status: None,
            queue_position: None,
            error: None,
            raw_text: None,
            privacy: None,
        }
    }

    /// Clears progress and outcome before a new attempt with `provider`.
    pub fn start(&mut self, provider: DraftProvider)
        ensures
            final(self).status == AiStatus::Working,
            final(self).provider == Some(provider),
            final(self).choices == old(self).choices,
            final(self).summaries is None,
            final(self).job_status is None,
            final(self).queue_position is None,
            final(self).error is None,
            final(self).raw_text is None,
            final(self).privacy is None,
    {
        self.status = AiStatus::Working;
        self.provider = Some(provider);
        self.summaries = None;
        self.job_status = None;
        self.queue_position = None;
        self.error = None;
        self.raw_text = None;
        self.privacy = None;
    }
}

/// Step 2's AI panel.
pub struct DraftAi {
    /// The task.
    pub task: AiTask,
    /// The AI's draft, loaded into the editor when `generation` changes.
    pub draft: Option<ReleaseDraft>,
    /// Increments with each new AI draft.
    pub generation: u32,
    /// Whether the draft was written from per-file summaries.
    pub from_summaries: bool,
    /// A note about the draft, for example an overridden version.
    pub notice: Option<String>,
}

/// One suggested readme edit.
pub struct FixView {
    /// The check it fixes.
    pub check_id: String,
    /// The file (only `readme.txt` can be applied).
    pub path: String,
    /// Text to replace.
    pub original: String,
    /// Replacement text.
    pub replacement: String,
    /// The diff applying it would produce.
    pub diff: String,
    /// Why it cannot be applied, when it cannot.
    pub problem: Option<String>,
}

/// Step 4's explanation of failed checks.
pub struct Explanation {
    /// The task.
    pub task: AiTask,
    /// Plain-language explanation.
    pub text: Option<String>,
    /// Suggested readme edits.
    pub fixes: Vec<FixView>,
}

} // verus!
