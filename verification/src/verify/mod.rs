//! Step 4, Verify: blocking checks V01–V17 and warnings W01–W11.
//!
//! Every check is a pure function of [`VerifyInput`]; gathering the input
//! (listing files, asking `svn`, reading git) happens in the run.

use vstd::prelude::*;

pub mod blocking;
pub mod warnings;

use crate::plugin::PluginFacts;
use crate::strings::join;

pub use blocking::{svn_major_minor, v15};

verus! {

broadcast use vstd::string::group_string_axioms;

/// Whether a check can stop the release.
#[derive(Debug, Clone, Copy, PartialEq, Eq, Structural)]
pub enum Severity {
    /// Must pass for the release to continue.
    Block,
    /// Shown, never blocks.
    Warn,
}

/// A check's outcome.
#[derive(Debug, Clone, Copy, PartialEq, Eq, Structural)]
pub enum CheckStatus {
    /// The condition holds.
    Pass,
    /// The condition does not hold.
    Fail,
    /// The check cannot run yet or does not apply; the message says why.
    Skip,
}

/// One row of the check table.
pub struct CheckResult {
    /// Stable identifier, `V01`–`V17` or `W01`–`W11`.
    pub id: String,
    /// Block or warn.
    pub severity: Severity,
    /// Pass, fail or skip.
    pub status: CheckStatus,
    /// What the check verifies.
    pub title: String,
    /// What was found.
    pub message: String,
    /// What to do about a failure.
    pub fix: Option<String>,
    /// Files involved, relative to the package root.
    pub paths: Vec<String>,
}

/// What a [`CheckResult`] says, as text.
pub struct CheckView {
    pub id: Seq<char>,
    pub severity: Severity,
    pub status: CheckStatus,
    pub title: Seq<char>,
    pub message: Seq<char>,
    pub fix: Option<Seq<char>>,
    pub paths: Seq<Seq<char>>,
}

/// The texts of a sequence of strings.
pub open spec fn texts(s: Seq<String>) -> Seq<Seq<char>> {
    s.map_values(|x: String| x@)
}

/// The text of an optional string.
pub open spec fn opt_text(o: Option<String>) -> Option<Seq<char>> {
    match o {
        Some(s) => Some(s@),
        None => None,
    }
}

impl View for CheckResult {
    type V = CheckView;

    open spec fn view(&self) -> CheckView {
        CheckView {
            id: self.id@,
            severity: self.severity,
            status: self.status,
            title: self.title@,
            message: self.message@,
            fix: opt_text(self.fix),
            paths: texts(self.paths@),
        }
    }
}

/// A check that has not run: passing, with no message.
pub open spec fn fresh(id: Seq<char>, severity: Severity, title: Seq<char>) -> CheckView {
    CheckView { id, severity, status: CheckStatus::Pass, title, message: Seq::empty(), fix: None, paths: Seq::empty() }
}

/// `c` passed with `message`.
pub open spec fn passed(c: CheckView, message: Seq<char>) -> CheckView {
    CheckView { id: c.id, severity: c.severity, status: CheckStatus::Pass, title: c.title, message, fix: c.fix, paths: c.paths }
}

/// `c` failed with `message`; an empty `fix` means none.
pub open spec fn failed(c: CheckView, message: Seq<char>, fix: Seq<char>) -> CheckView {
    CheckView {
        id: c.id,
        severity: c.severity,
        status: CheckStatus::Fail,
        title: c.title,
        message,
        fix: if fix.len() == 0 {
            None
        } else {
            Some(fix)
        },
        paths: c.paths,
    }
}

/// `c` skipped with `message`.
pub open spec fn skipped(c: CheckView, message: Seq<char>) -> CheckView {
    CheckView { id: c.id, severity: c.severity, status: CheckStatus::Skip, title: c.title, message, fix: c.fix, paths: c.paths }
}

/// `c` naming `paths`.
pub open spec fn with_paths(c: CheckView, paths: Seq<Seq<char>>) -> CheckView {
    CheckView { id: c.id, severity: c.severity, status: c.status, title: c.title, message: c.message, fix: c.fix, paths }
}

/// The state of the sparse SVN working copy, as check V15 sees it.
pub enum WorkingCopyState {
    /// No working copy exists yet; Preview creates it.
    NotCreated,
    /// No conflicts and nothing newer on the server.
    Clean,
    /// Conflicted paths.
    Conflicts(Vec<String>),
    /// Paths changed on the server since the last update.
    OutOfDate(Vec<String>),
}

/// A file as the package checks see it.
#[derive(Debug, Clone, Copy, PartialEq, Eq)]
pub struct FileRef<'a> {
    /// Path relative to the package root, with `/` separators.
    pub rel: &'a str,
    /// Size in bytes.
    pub size: u64,
}

/// Everything the checks read.
#[derive(Clone, Copy)]
pub struct VerifyInput<'a> {
    /// Detected plugin facts, after Write.
    pub facts: &'a PluginFacts,
    /// The version being released.
    pub version: &'a str,
    /// The previous release, when there is one.
    pub previous: Option<&'a str>,
    /// Folder names under `tags/` on the server.
    pub server_tags: &'a [String],
    /// Raw `readme.txt`, when present.
    pub readme_text: Option<&'a str>,
    /// Raw main plugin file.
    pub main_file_text: &'a str,
    /// Files that will be (or were) packaged.
    pub files: &'a [FileRef<'a>],
    /// Entry names of the built zip; `None` before Build.
    pub zip_entries: Option<&'a [String]>,
    /// Extra paths the project marks required.
    pub required_paths: &'a [String],
    /// Whether the project allows `.phar` files.
    pub allow_phar: bool,
    /// `svn --version --quiet` output; `None` when not found.
    pub svn_version: Option<&'a str>,
    /// Working copy state.
    pub working_copy: &'a WorkingCopyState,
    /// Whether the vault holds credentials for the project's SVN account;
    /// `None` in a dry run, which needs none.
    pub has_credentials: Option<bool>,
    /// Uncommitted git paths; `None` when git or a repository is unavailable.
    pub git_dirty: Option<&'a [String]>,
    /// The current WordPress version; `None` when the lookup is off or failed.
    pub current_wordpress: Option<&'a str>,
    /// File names in the assets folder; `None` when there is no assets folder.
    pub assets: Option<&'a [String]>,
    /// Packaged files ignored by a `.gitignore`.
    pub gitignored: &'a [String],
}

impl CheckResult {
    /// A check that has not run yet.
    pub fn new(id: &str, severity: Severity, title: &str) -> (r: CheckResult)
        ensures
            r@ == fresh(id@, severity, title@),
    {
        let r = CheckResult {
            id: id.to_owned(),
            severity,
            status: CheckStatus::Pass,
            title: title.to_owned(),
            message: String::new(),
            fix: None,
            paths: Vec::new(),
        };
        assert(r@.paths =~= Seq::<Seq<char>>::empty());
        r
    }

    /// Marks the check passed.
    pub fn pass(self, message: String) -> (r: CheckResult)
        ensures
            r@ == passed(self@, message@),
    {
        let mut s = self;
        s.status = CheckStatus::Pass;
        s.message = message;
        s
    }

    /// Marks the check failed; an empty `fix` means none.
    pub fn fail(self, message: String, fix: String) -> (r: CheckResult)
        ensures
            r@ == failed(self@, message@, fix@),
    {
        let mut s = self;
        s.status = CheckStatus::Fail;
        s.message = message;
        s.fix = if fix.as_str().is_empty() {
            None
        } else {
            Some(fix)
        };
        s
    }

    /// Marks the check skipped.
    pub fn skip(self, message: String) -> (r: CheckResult)
        ensures
            r@ == skipped(self@, message@),
    {
        let mut s = self;
        s.status = CheckStatus::Skip;
        s.message = message;
        s
    }

    /// Names the files involved.
    pub fn with_paths(self, paths: Vec<String>) -> (r: CheckResult)
        ensures
            r@ == with_paths(self@, texts(paths@)),
    {
        let mut s = self;
        s.paths = paths;
        s
    }
}

/// Joins `pieces` with `sep` between them.
pub fn join_texts(pieces: &[String], sep: &str) -> (r: String)
    ensures
        r@ == join(texts(pieces@), sep@),
{
    let mut out = String::new();
    let mut i: usize = 0;
    while i < pieces.len()
        invariant
            i <= pieces@.len(),
            out@ == join(texts(pieces@.take(i as int)), sep@),
        decreases pieces@.len() - i,
    {
        proof {
            assert(texts(pieces@.take(i + 1)).drop_last() =~= texts(pieces@.take(i as int)));
            assert(texts(pieces@.take(i + 1)).last() == pieces@[i as int]@);
        }
        if i > 0 {
            out.append(sep);
        }
        out.append(pieces[i].as_str());
        proof {
            if i == 0 {
                assert(texts(pieces@.take(1)) =~= seq![pieces@[0]@]);
            }
        }
        i = i + 1;
    }
    proof {
        assert(pieces@.take(pieces@.len() as int) =~= pieces@);
    }
    out
}

/// The whole check table, blocking first, in ID order.
pub open spec fn all_checks(input: VerifyInput) -> Seq<CheckView> {
    blocking::blocking_checks(input) + warnings::warning_checks(input)
}

/// What [`run`] needs to hold: next patch of the previous release fits, and
/// the package size fits a `u64`.
pub open spec fn run_ready(input: VerifyInput) -> bool {
    blocking::v03_ready(input) && warnings::sizes_fit(input.files@)
}

/// The views of a list of results.
pub open spec fn views(rs: Seq<CheckResult>) -> Seq<CheckView> {
    rs.map_values(|r: CheckResult| r@)
}

/// Runs every check, blocking first, in ID order.
pub fn run(input: &VerifyInput<'_>) -> (r: Vec<CheckResult>)
    requires
        run_ready(*input),
    ensures
        views(r@) == all_checks(*input),
{
    let mut results = blocking::all(input);
    let mut more = warnings::all(input);
    let ghost before = views(results@);
    results.append(&mut more);
    assert(views(results@) =~= before + warnings::warning_checks(*input));
    results
}

/// Runs only V10–V13, the checks Build repeats against the staged tree and zip.
pub fn package_checks(input: &VerifyInput<'_>) -> (r: Vec<CheckResult>)
    ensures
        views(r@) == blocking::package_spec(*input),
{
    blocking::package(input)
}

/// Whether some blocking check failed.
pub open spec fn blocked(rs: Seq<CheckView>) -> bool {
    exists|i: int| 0 <= i < rs.len() && (#[trigger] rs[i]).severity == Severity::Block && rs[i].status == CheckStatus::Fail
}

/// Whether any blocking check failed.
pub fn is_blocked(results: &[CheckResult]) -> (b: bool)
    ensures
        b == blocked(views(results@)),
{
    let mut i: usize = 0;
    while i < results.len()
        invariant
            i <= results@.len(),
            forall|j: int| 0 <= j < i ==> !((#[trigger] views(results@)[j]).severity == Severity::Block
                && views(results@)[j].status == CheckStatus::Fail),
        decreases results@.len() - i,
    {
        if results[i].severity == Severity::Block && results[i].status == CheckStatus::Fail {
            assert(views(results@)[i as int].severity == Severity::Block);
            return true;
        }
        i = i + 1;
    }
    false
}

/// The IDs of the failed checks, in order.
pub open spec fn failed_ids_of(rs: Seq<CheckView>) -> Seq<Seq<char>>
    decreases rs.len(),
{
    if rs.len() == 0 {
        Seq::empty()
    } else if rs.last().status == CheckStatus::Fail {
        failed_ids_of(rs.drop_last()).push(rs.last().id)
    } else {
        failed_ids_of(rs.drop_last())
    }
}

/// The IDs of every failed check, blocking and warning, for the journal.
pub fn failed_ids(results: &[CheckResult]) -> (ids: Vec<String>)
    ensures
        texts(ids@) == failed_ids_of(views(results@)),
{
    let mut ids: Vec<String> = Vec::new();
    let mut i: usize = 0;
    while i < results.len()
        invariant
            i <= results@.len(),
            texts(ids@) == failed_ids_of(views(results@.take(i as int))),
        decreases results@.len() - i,
    {
        proof {
            assert(views(results@.take(i + 1)).drop_last() =~= views(results@.take(i as int)));
        }
        if results[i].status == CheckStatus::Fail {
            ids.push(results[i].id.clone());
        }
        i = i + 1;
    }
    proof {
        assert(results@.take(results@.len() as int) =~= results@);
    }
    ids
}

/// The check table's IDs, in order: V01–V17, then W01–W11.
pub open spec fn check_ids() -> Seq<Seq<char>> {
    seq![
        "V01"@,
        "V02"@,
        "V03"@,
        "V04"@,
        "V05"@,
        "V06"@,
        "V07"@,
        "V08"@,
        "V09"@,
        "V10"@,
        "V11"@,
        "V12"@,
        "V13"@,
        "V14"@,
        "V15"@,
        "V16"@,
        "V17"@,
        "W01"@,
        "W02"@,
        "W03"@,
        "W04"@,
        "W05"@,
        "W06"@,
        "W07"@,
        "W08"@,
        "W09"@,
        "W10"@,
        "W11"@,
    ]
}

/// The IDs of the checks Build repeats.
pub open spec fn package_ids() -> Seq<Seq<char>> {
    seq!["V10"@, "V11"@, "V12"@, "V13"@]
}

/// Every run gives the whole table: one row per check, in ID order.
pub proof fn lemma_check_ids(input: VerifyInput)
    ensures
        all_checks(input).len() == check_ids().len(),
        forall|i: int| 0 <= i < check_ids().len() ==> (#[trigger] all_checks(input)[i]).id == check_ids()[i],
{
    assert(all_checks(input).len() == 28);
}

/// The first seventeen rows of the table, V01–V17, can block a release; the
/// other eleven, W01–W11, only warn.
pub proof fn lemma_check_severities(input: VerifyInput)
    ensures
        forall|i: int| 0 <= i < 17 ==> (#[trigger] all_checks(input)[i]).severity == Severity::Block,
        forall|i: int| 17 <= i < 28 ==> (#[trigger] all_checks(input)[i]).severity == Severity::Warn,
{
    assert(all_checks(input).len() == 28);
}

/// A check that fails always says what to do about it: every failed row of
/// the table carries a fix.
pub proof fn lemma_failures_carry_a_fix(input: VerifyInput)
    ensures
        forall|i: int|
            0 <= i < all_checks(input).len() && (#[trigger] all_checks(input)[i]).status == CheckStatus::Fail
                ==> all_checks(input)[i].fix is Some,
{
    blocking::lemma_blocking_failures_carry_a_fix(input);
    warnings::lemma_warning_failures_carry_a_fix(input);
    let b = blocking::blocking_checks(input);
    let w = warnings::warning_checks(input);
    assert forall|i: int|
        0 <= i < all_checks(input).len() && (#[trigger] all_checks(input)[i]).status == CheckStatus::Fail
            implies all_checks(input)[i].fix is Some by {
        if i < b.len() {
            assert(all_checks(input)[i] == b[i]);
        } else {
            assert(all_checks(input)[i] == w[i - b.len()]);
        }
    }
}

/// The checks Build repeats are the table's V10–V13 rows: rows 9 to 12 of
/// the table, and no other row has one of their IDs.
#[verifier::spinoff_prover]
pub proof fn lemma_package_checks_are_v10_to_v13(input: VerifyInput)
    ensures
        blocking::package_spec(input) == all_checks(input).subrange(9, 13),
        forall|i: int|
            0 <= i < all_checks(input).len() ==> (package_ids().contains(#[trigger] all_checks(input)[i].id) <==> 9
                <= i < 13),
{
    reveal_strlit("V01");
    reveal_strlit("V02");
    reveal_strlit("V03");
    reveal_strlit("V04");
    reveal_strlit("V05");
    reveal_strlit("V06");
    reveal_strlit("V07");
    reveal_strlit("V08");
    reveal_strlit("V09");
    reveal_strlit("V10");
    reveal_strlit("V11");
    reveal_strlit("V12");
    reveal_strlit("V13");
    reveal_strlit("V14");
    reveal_strlit("V15");
    reveal_strlit("V16");
    reveal_strlit("V17");
    reveal_strlit("W01");
    reveal_strlit("W02");
    reveal_strlit("W03");
    reveal_strlit("W04");
    reveal_strlit("W05");
    reveal_strlit("W06");
    reveal_strlit("W07");
    reveal_strlit("W08");
    reveal_strlit("W09");
    reveal_strlit("W10");
    reveal_strlit("W11");
    lemma_check_ids(input);
    assert(blocking::package_spec(input) =~= all_checks(input).subrange(9, 13));
    assert forall|i: int| 0 <= i < all_checks(input).len() implies (package_ids().contains(
        #[trigger] all_checks(input)[i].id,
    ) <==> 9 <= i < 13) by {
        assert(all_checks(input)[i].id == check_ids()[i]);
        if 9 <= i < 13 {
            assert(package_ids()[i - 9] == check_ids()[i]);
        } else {
            assert forall|k: int| 0 <= k < 4 implies package_ids()[k] != check_ids()[i] by {
                assert(package_ids()[k][2] != check_ids()[i][2] || package_ids()[k][1] != check_ids()[i][1]
                    || package_ids()[k][0] != check_ids()[i][0]);
            }
        }
    }
}

/// A row of the checks Build repeats: one with a V10–V13 ID.
pub open spec fn is_package_row(r: CheckView) -> bool {
    package_ids().contains(r.id)
}

proof fn lemma_filter_keeps_all(s: Seq<CheckView>, pred: spec_fn(CheckView) -> bool)
    requires
        forall|i: int| 0 <= i < s.len() ==> pred(#[trigger] s[i]),
    ensures
        s.filter(pred) == s,
    decreases s.len(),
{
    reveal(Seq::filter);
    if s.len() > 0 {
        lemma_filter_keeps_all(s.drop_last(), pred);
        assert(s.drop_last().push(s.last()) =~= s);
    }
}

/// The checks Build repeats ([`package_checks`]) are the rows V10, V11, V12
/// and V13, in that order, and they are what remains of the whole table
/// ([`run`]) when only the V10–V13 rows are kept.
#[verifier::spinoff_prover]
pub proof fn lemma_package_checks_filter_the_table(input: VerifyInput)
    ensures
        blocking::package_spec(input).map_values(|r: CheckView| r.id) == package_ids(),
        blocking::package_spec(input) == all_checks(input).filter(|r: CheckView| is_package_row(r)),
{
    lemma_package_checks_are_v10_to_v13(input);
    lemma_check_ids(input);
    assert forall|k: int| 0 <= k < 4 implies #[trigger] blocking::package_spec(input)[k].id == package_ids()[k] by {
        assert(blocking::package_spec(input)[k] == all_checks(input)[k + 9]);
        assert(all_checks(input)[k + 9].id == check_ids()[k + 9]);
    }
    assert(blocking::package_spec(input).map_values(|r: CheckView| r.id) =~= package_ids());
    let t = all_checks(input);
    let pred = |r: CheckView| is_package_row(r);
    let a = t.subrange(0, 9);
    let b = t.subrange(9, 13);
    let c = t.subrange(13, t.len() as int);
    assert(t =~= a + b + c);
    assert forall|i: int| 0 <= i < a.len() implies !pred(#[trigger] a[i]) by {
        assert(a[i] == t[i]);
    }
    assert forall|i: int| 0 <= i < b.len() implies pred(#[trigger] b[i]) by {
        assert(b[i] == t[i + 9]);
    }
    assert forall|i: int| 0 <= i < c.len() implies !pred(#[trigger] c[i]) by {
        assert(c[i] == t[i + 13]);
    }
    a.lemma_all_neg_filter_empty(pred);
    c.lemma_all_neg_filter_empty(pred);
    lemma_filter_keeps_all(b, pred);
    Seq::filter_distributes_over_add(a + b, c, pred);
    Seq::filter_distributes_over_add(a, b, pred);
    assert(a.filter(pred) =~= Seq::<CheckView>::empty());
    assert(c.filter(pred) =~= Seq::<CheckView>::empty());
    assert(t.filter(pred) =~= b);
}

/// A readme whose short description is empty blocks the release: the V07
/// row of the table fails.
pub proof fn lemma_empty_short_description_blocks(input: VerifyInput)
    requires
        input.facts.readme matches Some(r) && r.short_description@.len() == 0,
    ensures
        all_checks(input)[6].id == "V07"@,
        all_checks(input)[6].status == CheckStatus::Fail,
        blocked(all_checks(input)),
{
    blocking::lemma_v07_passes_on_a_short_description(input);
    lemma_check_severities(input);
    assert(all_checks(input)[6] == blocking::v07_spec(input));
}

/// A failed blocking check blocks the release, and nothing else does: a
/// warning that fails, or a blocking check that passes or is skipped, never
/// blocks.
pub proof fn lemma_only_failed_blocking_checks_block(rs: Seq<CheckView>)
    ensures
        (exists|i: int| 0 <= i < rs.len() && (#[trigger] rs[i]).severity == Severity::Block && rs[i].status
            == CheckStatus::Fail) ==> blocked(rs),
        (forall|i: int| 0 <= i < rs.len() ==> (#[trigger] rs[i]).severity == Severity::Warn || rs[i].status
            != CheckStatus::Fail) ==> !blocked(rs),
{
}

} // verus!
