use svnpush_core::run::ai_flow::{
    apply_event, apply_fixes, draft_action, finish_draft, finish_explanation, fixes_action, fixes_notice,
    on_resolution, open_draft_panel, open_explanation, pump_reaction, start_draft, start_explanation, AiOutcome,
    AssistAction, AssistEvent, DraftAnswer, ExplainAnswer, PumpReaction, Resolution,
};
use svnpush_core::run::ai_view::{AiStatus, AiTask, Explanation, FixView, SummaryProgress};
use svnpush_core::run::explain::SuggestedFix;
use svnpush_core::run::model::{Decision, DraftProvider, ErrorView, Phase, ReleaseDraft, RunState, Step, StepStatus};

fn provider(id: &str) -> DraftProvider {
    DraftProvider { id: id.into(), kind: "hosted".into(), label: format!("Provider {id}") }
}

fn draft(version: &str) -> ReleaseDraft {
    ReleaseDraft {
        version: version.into(),
        reason: String::new(),
        changelog_markdown: "* Fix.".into(),
        upgrade_notice: String::new(),
        summary: String::new(),
        provider: None,
        fell_back_from: None,
    }
}

fn error(code: &str) -> ErrorView {
    ErrorView::new(code, "Something went wrong.".into(), None)
}

#[test]
fn draft_decisions() {
    let mut task = AiTask::new(AiStatus::Working, Vec::new());
    match draft_action(&mut task, Decision::Approve { draft: draft("1.2.0") }) {
        AssistAction::Approve { draft } => assert_eq!(draft.version, "1.2.0"),
        _ => panic!("approve ends the step"),
    }
    assert!(matches!(draft_action(&mut task, Decision::Manual), AssistAction::Wait));
    assert_eq!(task.status, AiStatus::Manual);
    match draft_action(&mut task, Decision::AcceptPrivacy { provider_id: "p1".into() }) {
        AssistAction::AcceptPrivacy { provider_id } => assert_eq!(provider_id, "p1"),
        _ => panic!("accepting a notice asks that provider"),
    }
    match draft_action(&mut task, Decision::Generate { provider_id: Some("p2".into()) }) {
        AssistAction::Resolve { provider_id } => assert_eq!(provider_id.as_deref(), Some("p2")),
        _ => panic!("generate resolves the provider"),
    }
    assert!(matches!(draft_action(&mut task, Decision::Stop), AssistAction::Wait));
}

#[test]
fn fixes_decisions() {
    let mut task = AiTask::new(AiStatus::Working, Vec::new());
    assert!(matches!(fixes_action(&mut task, Decision::Stop), AssistAction::Stop));
    match fixes_action(&mut task, Decision::ApplyFixes { fixes: vec![0, 2] }) {
        AssistAction::ApplyFixes { fixes } => assert_eq!(fixes, [0, 2]),
        _ => panic!("apply the chosen fixes"),
    }
    assert!(matches!(fixes_action(&mut task, Decision::Approve { draft: draft("1.0") }), AssistAction::Wait));
    assert_eq!(task.status, AiStatus::Working);
    assert!(matches!(fixes_action(&mut task, Decision::Manual), AssistAction::Wait));
    assert_eq!(task.status, AiStatus::Manual);
}

#[test]
fn resolutions_ask_or_explain_why_not() {
    let mut task = AiTask::new(AiStatus::Manual, Vec::new());
    assert!(on_resolution(&mut task, Resolution::Off).is_none());
    assert_eq!(task.status, AiStatus::Manual);

    assert!(on_resolution(&mut task, Resolution::NoProvider { error: error("AI_NO_PROVIDER") }).is_none());
    assert_eq!(task.status, AiStatus::NoProvider);
    assert_eq!(task.error.as_ref().unwrap().code, "AI_NO_PROVIDER");

    let mut task = AiTask::new(AiStatus::Manual, Vec::new());
    let ask = on_resolution(&mut task, Resolution::Ready { provider: provider("p1"), seen: false, revoye: true });
    assert!(ask.is_none());
    assert_eq!(task.status, AiStatus::NeedsConsent);
    let notice = task.privacy.as_ref().unwrap();
    assert_eq!(notice.provider.id, "p1");
    assert!(notice.revoye);

    let ask = on_resolution(&mut task, Resolution::Ready { provider: provider("p1"), seen: true, revoye: true });
    assert_eq!(ask.unwrap().id, "p1");
}

#[test]
fn panels_open_by_resolution() {
    let (panel, ask) = open_draft_panel(vec![provider("p1")], Resolution::Off);
    assert_eq!(panel.task.status, AiStatus::Off);
    assert!(!ask);
    let (panel, ask) = open_draft_panel(Vec::new(), Resolution::NoProvider { error: error("E") });
    assert_eq!(panel.task.status, AiStatus::NoProvider);
    assert!(!ask);
    let (panel, ask) =
        open_draft_panel(vec![provider("p1")], Resolution::Ready { provider: provider("p1"), seen: true, revoye: false });
    assert_eq!(panel.task.status, AiStatus::Manual);
    assert_eq!(panel.generation, 0);
    assert_eq!(panel.task.choices.len(), 1);
    assert!(ask);

    assert!(open_explanation(Vec::new(), &Resolution::Off).is_none());
    assert!(open_explanation(Vec::new(), &Resolution::NoProvider { error: error("E") }).is_none());
    let x = open_explanation(Vec::new(), &Resolution::Ready { provider: provider("p"), seen: true, revoye: false });
    assert_eq!(x.unwrap().task.status, AiStatus::Working);
}

#[test]
fn generation_starts_on_the_card_and_the_panel() {
    let mut state = RunState::new("r".into(), "/w".into(), false);
    let (panel, _) = open_draft_panel(Vec::new(), Resolution::Off);
    state.draft_ai = Some(panel);
    start_draft(&mut state, provider("p1"));
    assert_eq!(state.phase, Phase::Drafting);
    assert_eq!(state.steps[1].step, Step::Draft);
    assert_eq!(state.steps[1].status, StepStatus::Running);
    let task = &state.draft_ai.as_ref().unwrap().task;
    assert_eq!(task.status, AiStatus::Working);
    assert_eq!(task.provider.as_ref().unwrap().id, "p1");

    state.explanation = Some(Explanation {
        task: AiTask::new(AiStatus::Failed, Vec::new()),
        text: Some("old".into()),
        fixes: Vec::new(),
    });
    start_explanation(&mut state, provider("p2"));
    assert_eq!(state.steps[3].status, StepStatus::Running);
    let x = state.explanation.as_ref().unwrap();
    assert!(x.text.is_none());
    assert_eq!(x.task.status, AiStatus::Working);
}

#[test]
fn progress_events_update_the_task() {
    let mut task = AiTask::new(AiStatus::Working, Vec::new());
    apply_event(&mut task, AssistEvent::Pending { status: "queued".into(), queue_position: Some(3) });
    assert_eq!(task.job_status.as_deref(), Some("queued"));
    assert_eq!(task.queue_position, Some(3));
    apply_event(&mut task, AssistEvent::Attempt { provider: provider("p9") });
    assert_eq!(task.provider.as_ref().unwrap().id, "p9");
    assert!(task.job_status.is_none() && task.queue_position.is_none());
    apply_event(&mut task, AssistEvent::Summaries { progress: SummaryProgress { done: 2, total: 5 } });
    assert_eq!(task.summaries, Some(SummaryProgress { done: 2, total: 5 }));
}

#[test]
fn decisions_while_the_ai_works() {
    assert!(matches!(pump_reaction(None), PumpReaction::Cancel));
    assert!(matches!(pump_reaction(Some(Decision::AcceptPrivacy { provider_id: "p".into() })), PumpReaction::Ignore));
    assert!(matches!(pump_reaction(Some(Decision::Manual)), PumpReaction::Hold { decision: Decision::Manual }));
}

#[test]
fn a_finished_draft_settles_its_version() {
    let (mut panel, _) = open_draft_panel(Vec::new(), Resolution::Off);
    let answer = DraftAnswer {
        version: "1.2.0".into(),
        reason: "Bug fixes.".into(),
        changelog_markdown: "* Fixed it.".into(),
        upgrade_notice: String::new(),
        summary: "Fixes".into(),
        provider: provider("p1"),
        fell_back_from: Some("p0".into()),
        from_summaries: true,
    };
    finish_draft(&mut panel, AiOutcome::Answer(answer), Some("1.2.0"), "1.2.1");
    let d = panel.draft.as_ref().unwrap();
    assert_eq!(d.version, "1.2.1");
    assert_eq!(d.provider.as_ref().unwrap().id, "p1");
    assert_eq!(d.fell_back_from.as_deref(), Some("p0"));
    assert!(panel.notice.as_ref().unwrap().contains("newer than 1.2.0"));
    assert_eq!(panel.generation, 1);
    assert!(panel.from_summaries);
    assert_eq!(panel.task.status, AiStatus::Done);

    finish_draft(&mut panel, AiOutcome::Cancelled, None, "1.0.0");
    assert_eq!(panel.task.status, AiStatus::Manual);
    assert_eq!(panel.generation, 1);

    finish_draft(
        &mut panel,
        AiOutcome::Failed { error: error("AI_INVALID"), raw_text: Some("{oops".into()) },
        None,
        "1.0.0",
    );
    assert_eq!(panel.task.status, AiStatus::Failed);
    assert_eq!(panel.task.raw_text.as_deref(), Some("{oops"));
}

#[test]
fn a_finished_explanation_checks_each_fix() {
    let mut panel = Explanation { task: AiTask::new(AiStatus::Working, Vec::new()), text: None, fixes: Vec::new() };
    let readme = "Stable tag: trunk\nTested up to: 6.0\n";
    let answer = ExplainAnswer {
        explanation: "The stable tag is trunk.".into(),
        fixes: vec![
            SuggestedFix {
                check_id: "V06".into(),
                path: "readme.txt".into(),
                original: "Stable tag: trunk".into(),
                replacement: "Stable tag: 1.2.0".into(),
            },
            SuggestedFix {
                check_id: "V09".into(),
                path: "plugin.php".into(),
                original: "a".into(),
                replacement: "b".into(),
            },
        ],
    };
    finish_explanation(&mut panel, AiOutcome::Answer(answer), Some(readme));
    assert_eq!(panel.task.status, AiStatus::Done);
    assert_eq!(panel.text.as_deref(), Some("The stable tag is trunk."));
    assert_eq!(panel.fixes.len(), 2);
    assert!(panel.fixes[0].problem.is_none());
    assert_eq!(panel.fixes[0].check_id, "V06");
    assert!(panel.fixes[1].problem.as_ref().unwrap().contains("Only readme.txt"));
}

fn view(original: &str, replacement: &str, problem: Option<&str>) -> FixView {
    FixView {
        check_id: "V06".into(),
        path: "readme.txt".into(),
        original: original.into(),
        replacement: replacement.into(),
        diff: String::new(),
        problem: problem.map(str::to_owned),
    }
}

#[test]
fn chosen_fixes_apply_in_turn_to_unique_text() {
    let readme = "Stable tag: trunk\nTested up to: 6.0\n";
    let fixes = [
        view("Stable tag: trunk", "Stable tag: 1.2.0", None),
        view("Tested up to: 6.0", "Tested up to: 6.8", None),
        view("Tested", "Checked", Some("blocked")),
        view(": ", "=", None),
    ];
    let (text, applied) = apply_fixes(readme, &fixes, &[0, 1, 2, 3, 9]).unwrap();
    assert_eq!(text, "Stable tag: 1.2.0\nTested up to: 6.8\n");
    assert_eq!(applied, 2);
    assert_eq!(fixes_notice(Some(applied)), "Applied 2 suggested fix(es) to readme.txt.");
    assert!(apply_fixes(readme, &fixes, &[2, 3]).is_none());
    assert_eq!(
        fixes_notice(None),
        "None of the chosen fixes could be applied; the readme changed since they were suggested."
    );
}
