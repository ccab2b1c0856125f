//! The run journal: one record per run, written after every step, so a crash
//! leaves a record to resume from. Times come from the caller's clock.

use vstd::prelude::*;

use crate::clock::is_utc_time;
use crate::svn::TagVerification;
use crate::version::precedence::{lemma_text_order, lemma_text_order_transitive, text_order};

use super::model::{FileDiff, Step, StepStatus};

verus! {

broadcast use vstd::string::group_string_axioms;

/// Snapshots of successful publishes are kept this long, in seconds.
pub const SNAPSHOT_RETENTION_SECONDS: u64 = 604800;

/// How a run ended.
#[derive(Debug, Clone, Copy, PartialEq, Eq, Structural)]
pub enum Outcome {
    /// Published and verified.
    Complete,
    /// Published; verification did not confirm the tag.
    PublishedUnverified,
    /// A dry run finished.
    DryRun,
    /// A step failed.
    Failed(Step),
    /// Cancelled by the developer, or discarded after an interruption.
    Cancelled,
}

/// The label of an outcome.
pub open spec fn outcome_label(o: Outcome) -> Seq<char> {
    match o {
        Outcome::Complete => "Complete"@,
        Outcome::PublishedUnverified => "PublishedUnverified"@,
        Outcome::DryRun => "DryRun"@,
        Outcome::Failed(_) => "Failed"@,
        Outcome::Cancelled => "Cancelled"@,
    }
}

impl Outcome {
    /// The short label stored on the project.
    pub fn label(&self) -> (s: &'static str)
        ensures
            s@ == outcome_label(*self),
    {
        match self {
            Outcome::Complete => "Complete",
            Outcome::PublishedUnverified => "PublishedUnverified",
            Outcome::DryRun => "DryRun",
            Outcome::Failed(_) => "Failed",
            Outcome::Cancelled => "Cancelled",
        }
    }
}

/// One step's record.
pub struct StepRecord {
    /// Which step.
    pub step: Step,
    /// How it ended.
    pub status: StepStatus,
    /// ISO 8601 UTC time.
    pub at: String,
    /// One line.
    pub summary: Option<String>,
}

/// Revisions created on the server.
#[derive(Debug, Clone, Copy, PartialEq, Eq, Structural)]
pub struct Revisions {
    /// The trunk commit.
    pub trunk: Option<u64>,
    /// The tag copy.
    pub tag: Option<u64>,
    /// The assets commit of an assets-only release.
    pub assets: Option<u64>,
}

/// A run's journal.
pub struct RunJournal {
    /// Run id, also the file name.
    pub id: String,
    /// Plugin slug.
    pub slug: String,
    /// Project folder.
    pub project_path: String,
    /// The version released, once approved.
    pub version: Option<String>,
    /// Main plugin file, for tag verification on resume.
    pub main_file: Option<String>,
    /// Whether this was a dry run.
    pub dry_run: bool,
    /// ISO 8601 UTC start time.
    pub started: String,
    /// ISO 8601 UTC end time.
    pub finished: Option<String>,
    /// Steps, in the order they ended.
    pub steps: Vec<StepRecord>,
    /// Server revisions.
    pub revisions: Revisions,
    /// How it ended; `None` while running or after a crash.
    pub outcome: Option<Outcome>,
    /// The diffs Step 3 wrote.
    pub diffs: Vec<FileDiff>,
    /// Tag message used, for resume.
    pub tag_message: Option<String>,
    /// Verification result.
    pub verification: Option<TagVerification>,
    /// Snapshot folder, while it exists.
    pub snapshot: Option<String>,
    /// Whether the developer discarded this run after it stopped.
    pub discarded: bool,
    /// Whether the run synced and committed only `assets/`.
    pub assets_only: bool,
}

/// Whether trunk was committed but no tag was created, in a run that was
/// neither a dry run nor discarded.
pub open spec fn awaits_tag(j: RunJournal) -> bool {
    j.revisions.trunk is Some && j.revisions.tag is None && !j.dry_run && !j.discarded
}

/// `j` after the trunk commit gave `trunk` (`None` when nothing changed),
/// keeping the tag message for the tag that follows.
pub open spec fn with_trunk(j: RunJournal, trunk: Option<u64>, tag_message: String) -> RunJournal {
    RunJournal {
        revisions: Revisions { trunk, ..j.revisions },
        tag_message: Some(tag_message),
        ..j
    }
}

/// `j` after the tag copy was made at revision `tag`.
pub open spec fn with_tag(j: RunJournal, tag: u64) -> RunJournal {
    RunJournal { revisions: Revisions { tag: Some(tag), ..j.revisions }, ..j }
}

/// A trunk commit that made a revision leaves the run waiting for its tag,
/// unless a tag already exists or the run was a dry run or discarded; a
/// commit that changed nothing leaves nothing to tag-resume.
pub proof fn lemma_trunk_commit_awaits_tag(j: RunJournal, trunk: Option<u64>, tag_message: String)
    ensures
        awaits_tag(with_trunk(j, trunk, tag_message)) <==> (trunk is Some && j.revisions.tag is None && !j.dry_run
            && !j.discarded),
        with_trunk(j, trunk, tag_message).revisions.tag == j.revisions.tag,
{
}

/// Once the tag exists the run no longer waits for it, and the trunk
/// revision it was made from is kept.
pub proof fn lemma_tag_ends_the_wait(j: RunJournal, tag: u64)
    ensures
        !awaits_tag(with_tag(j, tag)),
        with_tag(j, tag).revisions.trunk == j.revisions.trunk,
        with_tag(j, tag).tag_message == j.tag_message,
{
}

/// Two journals that differ at most in their step records.
pub open spec fn same_but_records(a: RunJournal, b: RunJournal) -> bool {
    &&& a.id == b.id
    &&& a.slug == b.slug
    &&& a.project_path == b.project_path
    &&& a.version == b.version
    &&& a.main_file == b.main_file
    &&& a.dry_run == b.dry_run
    &&& a.started == b.started
    &&& a.finished == b.finished
    &&& a.revisions == b.revisions
    &&& a.outcome == b.outcome
    &&& a.diffs == b.diffs
    &&& a.tag_message == b.tag_message
    &&& a.verification == b.verification
    &&& a.snapshot == b.snapshot
    &&& a.discarded == b.discarded
    &&& a.assets_only == b.assets_only
}

impl RunJournal {
    /// A journal for a run starting at `started` (ISO 8601 UTC).
    pub fn start(id: &str, slug: &str, project_path: &str, dry_run: bool, started: String) -> (j: RunJournal)
        requires
            is_utc_time(started@),
        ensures
            j.id@ == id@,
            j.slug@ == slug@,
            j.project_path@ == project_path@,
            j.dry_run == dry_run,
            j.started == started,
            j.version is None,
            j.main_file is None,
            j.finished is None,
            j.steps@.len() == 0,
            j.revisions == (Revisions { trunk: None, tag: None, assets: None }),
            j.outcome is None,
            j.diffs@.len() == 0,
            j.tag_message is None,
            j.verification is None,
            j.snapshot is None,
            !j.discarded,
            !j.assets_only,
    {
        RunJournal {
            id: id.to_owned(),
            slug: slug.to_owned(),
            project_path: project_path.to_owned(),
            version: None,
            main_file: None,
            dry_run,
            started,
            finished: None,
            steps: Vec::new(),
            revisions: Revisions { trunk: None, tag: None, assets: None },
            outcome: None,
            diffs: Vec::new(),
            tag_message: None,
            verification: None,
            snapshot: None,
            discarded: false,
            assets_only: false,
        }
    }

    /// Whether the run stopped without an outcome (the app closed mid-run).
    pub fn is_interrupted(&self) -> (b: bool)
        ensures
            b == (self.outcome is None),
    {
        self.outcome.is_none()
    }

    /// Whether trunk was committed but no tag was created: Resume creates only the tag.
    pub fn needs_tag(&self) -> (b: bool)
        ensures
            b == awaits_tag(*self),
    {
        self.revisions.trunk.is_some() && self.revisions.tag.is_none() && !self.dry_run && !self.discarded
    }

    /// Records the trunk commit's revision (`None` when nothing changed) and
    /// the message the tag will use, as soon as the commit is made.
    pub fn record_trunk(&mut self, trunk: Option<u64>, tag_message: String)
        ensures
            *final(self) == with_trunk(*old(self), trunk, tag_message),
    {
        self.revisions.trunk = trunk;
        self.tag_message = Some(tag_message);
    }

    /// Records the tag copy's revision as soon as the tag exists.
    pub fn record_tag(&mut self, tag: u64)
        ensures
            *final(self) == with_tag(*old(self), tag),
    {
        self.revisions.tag = Some(tag);
    }

    /// The last step that finished.
    pub fn last_step(&self) -> (s: Option<Step>)
        ensures
            self.steps@.len() == 0 ==> s is None,
            self.steps@.len() > 0 ==> s == Some(self.steps@.last().step),
    {
        if self.steps.len() == 0 {
            None
        } else {
            Some(self.steps[self.steps.len() - 1].step)
        }
    }

    /// Records a finished step at time `at`, an ISO 8601 UTC time
    /// (as `crate::clock::iso8601` writes one).
    pub fn record(&mut self, step: Step, status: StepStatus, summary: Option<String>, at: String)
        requires
            is_utc_time(at@),
        ensures
            final(self).steps@ == old(self).steps@.push(StepRecord { step, status, at, summary }),
            same_but_records(*final(self), *old(self)),
    {
        self.steps.push(StepRecord { step, status, at, summary });
    }
}

impl RunJournal {
    /// The name of the file this journal is saved to, in the plugin's runs folder.
    pub fn file_name(&self) -> (n: String)
        ensures
            n@ == self.id@ + ".json"@,
    {
        let mut n = self.id.clone();
        n.append(".json");
        n
    }
}

/// Whether a file in the runs folder holds a journal: its extension is `json`.
pub open spec fn journal_file(name: Seq<char>) -> bool {
    crate::run::material::extension(name) == Some("json"@)
}

/// Whether a file in the runs folder holds a journal.
pub fn is_journal_file(name: &str) -> (b: bool)
    ensures
        b == journal_file(name@),
{
    let chars = crate::strings::to_chars(name);
    let n = chars.len();
    let base_start = match crate::strings::last_index_of(chars.as_slice(), '/') {
        Some(k) => {
            assert(k < n);
            k + 1
        },
        None => 0,
    };
    let base = crate::strings::slice_chars(chars.as_slice(), base_start, n);
    proof {
        assert(base@ =~= crate::run::material::base_name(name@));
    }
    match crate::strings::last_index_of(base.as_slice(), '.') {
        Some(k) => {
            if k == 0 {
                return false;
            }
            let m = base.len();
            let ext = crate::strings::slice_chars(base.as_slice(), k + 1, m);
            proof {
                assert(ext@ =~= base@.skip(k + 1));
            }
            crate::sorting::same_text(crate::strings::from_chars(ext.as_slice()).as_str(), "json")
        },
        None => false,
    }
}

/// Whether journals are newest first (ids are start times, so by id, descending).
pub open spec fn newest_first(js: Seq<RunJournal>) -> bool {
    forall|i: int, j: int| 0 <= i < j < js.len() ==> text_order((#[trigger] js[i]).id@, (#[trigger] js[j]).id@) >= 0
}

/// Every journal for a plugin, newest first.
pub fn sort_newest_first(journals: Vec<RunJournal>) -> (r: Vec<RunJournal>)
    ensures
        newest_first(r@),
        r@.to_multiset() == journals@.to_multiset(),
{
    broadcast use {vstd::seq_lib::group_to_multiset_ensures, vstd::multiset::group_multiset_axioms};

    let ghost all = journals@;
    let mut rest = journals;
    let mut out: Vec<RunJournal> = Vec::new();
    proof {
        assert(out@.to_multiset() =~= vstd::multiset::Multiset::empty());
    }
    while rest.len() > 0
        invariant
            newest_first(out@),
            out@.to_multiset().add(rest@.to_multiset()) == all.to_multiset(),
        decreases rest@.len(),
    {
        let ghost rest_before = rest@;
        let x = rest.remove(0);
        proof {
            assert(rest@ =~= rest_before.remove(0));
            vstd::seq_lib::to_multiset_remove(rest_before, 0);
            assert(rest_before[0] == x);
            vstd::seq_lib::to_multiset_contains(rest_before, x);
            assert(rest_before.contains(x));
        }
        let mut p: usize = 0;
        while p < out.len()
            invariant
                p <= out@.len(),
                newest_first(out@),
                forall|k: int| 0 <= k < p ==> text_order((#[trigger] out@[k]).id@, x.id@) >= 0,
            ensures
                p <= out@.len(),
                forall|k: int| 0 <= k < p ==> text_order((#[trigger] out@[k]).id@, x.id@) >= 0,
                p < out@.len() ==> text_order(x.id@, out@[p as int].id@) > 0,
            decreases out@.len() - p,
        {
            if crate::sorting::compare_text(x.id.as_str(), out[p].id.as_str()) > 0 {
                break;
            }
            proof {
                lemma_text_order(x.id@, out@[p as int].id@);
            }
            p = p + 1;
        }
        proof {
            if p < out@.len() {
                assert forall|k: int| p <= k < out@.len() implies text_order(x.id@, (#[trigger] out@[k]).id@) > 0 by {
                    if k > p {
                        lemma_text_order(x.id@, out@[p as int].id@);
                        lemma_text_order(out@[p as int].id@, out@[k].id@);
                        lemma_text_order_transitive(out@[k].id@, out@[p as int].id@, x.id@);
                        lemma_text_order(out@[k].id@, x.id@);
                    }
                }
            }
        }
        let ghost before = out@;
        let ghost moved = x;
        out.insert(p, x);
        proof {
            let s2 = out@;
            assert(s2 == before.insert(p as int, moved));
            vstd::seq_lib::to_multiset_insert(before, p as int, moved);
            assert(out@.to_multiset().add(rest@.to_multiset()) =~= before.to_multiset().add(rest_before.to_multiset()));
            assert forall|a: int, b: int| 0 <= a < b < s2.len() implies text_order(
                (#[trigger] s2[a]).id@,
                (#[trigger] s2[b]).id@,
            ) >= 0 by {
                if b < p {
                    assert(s2[a] == before[a] && s2[b] == before[b]);
                } else if b == p {
                    assert(s2[a] == before[a]);
                } else if a == p {
                    assert(s2[b] == before[b - 1]);
                } else if a < p {
                    assert(s2[a] == before[a] && s2[b] == before[b - 1]);
                } else {
                    assert(s2[a] == before[a - 1] && s2[b] == before[b - 1]);
                }
            }
        }
    }
    proof {
        assert(rest@.to_multiset() =~= vstd::multiset::Multiset::empty());
        assert(out@.to_multiset() =~= all.to_multiset());
    }
    out
}

/// Whether a journal's snapshot folder is due for removal: the run
/// published, and the snapshot is at least the retention period old.
pub open spec fn snapshot_due(j: RunJournal, age_seconds: u64) -> bool {
    j.snapshot is Some && (j.outcome == Some(Outcome::Complete) || j.outcome == Some(Outcome::PublishedUnverified))
        && age_seconds >= SNAPSHOT_RETENTION_SECONDS
}

/// Whether to remove a journal's snapshot, given how old the folder is
/// (seconds since it changed; 0 when that cannot be told).
pub fn prune_due(journal: &RunJournal, age_seconds: u64) -> (b: bool)
    ensures
        b == snapshot_due(*journal, age_seconds),
{
    let published = match journal.outcome {
        Some(Outcome::Complete) => true,
        Some(Outcome::PublishedUnverified) => true,
        _ => false,
    };
    journal.snapshot.is_some() && published && age_seconds >= SNAPSHOT_RETENTION_SECONDS
}

/// A journal after its snapshot folder was removed.
pub fn forget_snapshot(journal: &mut RunJournal)
    ensures
        *final(journal) == (RunJournal { snapshot: None, ..*old(journal) }),
{
    journal.snapshot = None;
}

} // verus!
