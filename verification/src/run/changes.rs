//! What changed since the previous release.
//!
//! With git and a tag, the working tree is compared with the last tag. Otherwise
//! the package root is compared file by file with the trunk working copy.

use vstd::prelude::*;

use crate::strings::{lines, lines_of, split_char, split_on, to_chars};
use crate::svn::sync::{added_rels, deleted_rels, mirror_plan, modified_rels, ExistingFile, SourceFile};
use crate::verify::texts;
use crate::version::precedence::{lemma_text_order, lemma_text_order_transitive, text_order};

verus! {

broadcast use vstd::string::group_string_axioms;

/// How the change set was computed.
#[derive(Debug, Clone, Copy, PartialEq, Eq, Structural)]
pub enum ChangeSource {
    /// `git diff <last tag>` against the working tree.
    Git,
    /// The package root compared with the trunk working copy.
    Trunk,
    /// Trunk is empty: everything is new.
    FirstRelease,
    /// The package root does not exist yet (a pre-build hook creates it).
    Unknown,
}

/// A changed path.
#[derive(Debug, Clone, Copy, PartialEq, Eq, Structural)]
pub enum ChangeKind {
    /// New.
    Added,
    /// Changed.
    Modified,
    /// Removed.
    Deleted,
}

/// One changed path.
pub struct ChangedFile {
    /// Path, relative to the project folder (git) or package root (trunk).
    pub path: String,
    /// What happened to it.
    pub kind: ChangeKind,
}

/// Everything that changed since the previous release.
pub struct ChangeSet {
    /// How it was computed.
    pub source: ChangeSource,
    /// The git tag compared against, for `Git`.
    pub base: Option<String>,
    /// Changed paths, sorted.
    pub files: Vec<ChangedFile>,
    /// Commit subjects since the base, newest first.
    pub commits: Vec<String>,
}

impl ChangeSet {
    /// Whether there is provably nothing to release.
    pub fn is_empty(&self) -> (b: bool)
        ensures
            b == (self.source != ChangeSource::Unknown && self.files@.len() == 0),
    {
        self.source != ChangeSource::Unknown && self.files.len() == 0
    }
}

/// The change a `git diff --name-status` status letter names.
pub open spec fn kind_of_status(status: Seq<char>) -> Option<ChangeKind> {
    if status.len() == 0 {
        None
    } else if status[0] == 'A' || status[0] == 'C' {
        Some(ChangeKind::Added)
    } else if status[0] == 'D' {
        Some(ChangeKind::Deleted)
    } else if status[0] == 'M' || status[0] == 'T' || status[0] == 'R' {
        Some(ChangeKind::Modified)
    } else {
        None
    }
}

/// The change a `git diff --name-status` status letter names.
pub fn kind_from_status(status: &[char]) -> (k: Option<ChangeKind>)
    ensures
        k == kind_of_status(status@),
{
    if status.len() == 0 {
        return None;
    }
    let c = status[0];
    if c == 'A' || c == 'C' {
        Some(ChangeKind::Added)
    } else if c == 'D' {
        Some(ChangeKind::Deleted)
    } else if c == 'M' || c == 'T' || c == 'R' {
        Some(ChangeKind::Modified)
    } else {
        None
    }
}

/// What one `--name-status` line says: the last tab-separated field as the
/// path (the new name of a rename), with the kind its status names.
pub open spec fn name_status_entry(line: Seq<char>) -> Option<(Seq<char>, ChangeKind)> {
    let fields = split_char(line, '\t');
    match kind_of_status(fields[0]) {
        Some(k) => if fields.len() >= 2 {
            Some((fields.last(), k))
        } else {
            None
        },
        None => None,
    }
}

/// The entries of every line that names a change, in order.
pub open spec fn name_status_entries(ls: Seq<Seq<char>>) -> Seq<(Seq<char>, ChangeKind)>
    decreases ls.len(),
{
    if ls.len() == 0 {
        Seq::empty()
    } else {
        match name_status_entry(ls.last()) {
            Some(e) => name_status_entries(ls.drop_last()).push(e),
            None => name_status_entries(ls.drop_last()),
        }
    }
}

/// The (path, kind) pairs of a list of changed files.
pub open spec fn changed_view(files: Seq<ChangedFile>) -> Seq<(Seq<char>, ChangeKind)> {
    files.map_values(|f: ChangedFile| (f.path@, f.kind))
}

/// Parses `git diff --name-status` output.
pub fn parse_name_status(output: &str) -> (files: Vec<ChangedFile>)
    ensures
        changed_view(files@) == name_status_entries(lines(output@)),
{
    let chars = to_chars(output);
    let ls = lines_of(chars.as_slice());
    let ghost lv = lines(output@);
    let mut files: Vec<ChangedFile> = Vec::new();
    let mut i: usize = 0;
    while i < ls.len()
        invariant
            i <= ls@.len(),
            ls@.len() == lv.len(),
            forall|j: int| 0 <= j < ls@.len() ==> #[trigger] ls@[j]@ == lv[j],
            changed_view(files@) == name_status_entries(lv.take(i as int)),
        decreases ls@.len() - i,
    {
        proof {
            assert(lv.take(i + 1).drop_last() =~= lv.take(i as int));
            assert(lv.take(i + 1).last() == lv[i as int]);
        }
        let fields = split_on(ls[i].as_slice(), '\t');
        proof {
            crate::strings::lemma_split_char_len(lv[i as int], '\t');
        }
        match kind_from_status(fields[0].as_slice()) {
            Some(kind) => {
                if fields.len() >= 2 {
                    let last = fields.len() - 1;
                    let path = crate::strings::from_chars(fields[last].as_slice());
                    files.push(ChangedFile { path, kind });
                    proof {
                        assert(changed_view(files@) =~= name_status_entries(lv.take(i + 1)));
                    }
                }
            },
            None => {},
        }
        i = i + 1;
    }
    proof {
        assert(lv.take(ls@.len() as int) =~= lv);
    }
    files
}

/// A changed file as a path and what happened to it.
pub open spec fn change_view(f: ChangedFile) -> (Seq<char>, ChangeKind) {
    (f.path@, f.kind)
}

/// Each path marked with what happened to it.
pub open spec fn marked(paths: Seq<Seq<char>>, kind: ChangeKind) -> Seq<(Seq<char>, ChangeKind)> {
    paths.map_values(|p: Seq<char>| (p, kind))
}

/// Whether changed files are in ascending order of path.
pub open spec fn by_path(files: Seq<ChangedFile>) -> bool {
    forall|i: int, j: int| 0 <= i < j < files.len() ==> text_order((#[trigger] files[i]).path@, (#[trigger] files[j]).path@) <= 0
}

/// Changed files in ascending order of path.
fn sort_by_path(files: Vec<ChangedFile>) -> (r: Vec<ChangedFile>)
    ensures
        by_path(r@),
        r@.map_values(|f: ChangedFile| change_view(f)).to_multiset() == files@.map_values(
            |f: ChangedFile| change_view(f),
        ).to_multiset(),
{
    broadcast use {vstd::seq_lib::group_to_multiset_ensures, vstd::multiset::group_multiset_axioms};

    let ghost all = files@.map_values(|f: ChangedFile| change_view(f));
    let mut rest = files;
    let mut out: Vec<ChangedFile> = Vec::new();
    proof {
        assert(out@.map_values(|f: ChangedFile| change_view(f)).to_multiset() =~= vstd::multiset::Multiset::empty());
    }
    while rest.len() > 0
        invariant
            by_path(out@),
            out@.map_values(|f: ChangedFile| change_view(f)).to_multiset().add(
                rest@.map_values(|f: ChangedFile| change_view(f)).to_multiset(),
            ) == all.to_multiset(),
        decreases rest@.len(),
    {
        let ghost rest_before = rest@;
        let x = rest.remove(0);
        let ghost xv = change_view(x);
        proof {
            let rb = rest_before.map_values(|f: ChangedFile| change_view(f));
            assert(rest@.map_values(|f: ChangedFile| change_view(f)) =~= rb.remove(0));
            vstd::seq_lib::to_multiset_remove(rb, 0);
            assert(rb[0] == xv);
            vstd::seq_lib::to_multiset_contains(rb, xv);
            assert(rb.contains(xv));
        }
        let mut p: usize = 0;
        while p < out.len()
            invariant
                p <= out@.len(),
                by_path(out@),
                forall|k: int| 0 <= k < p ==> text_order((#[trigger] out@[k]).path@, x.path@) <= 0,
            ensures
                p <= out@.len(),
                forall|k: int| 0 <= k < p ==> text_order((#[trigger] out@[k]).path@, x.path@) <= 0,
                p < out@.len() ==> text_order(x.path@, out@[p as int].path@) < 0,
            decreases out@.len() - p,
        {
            if crate::sorting::compare_text(x.path.as_str(), out[p].path.as_str()) < 0 {
                break;
            }
            proof {
                lemma_text_order(x.path@, out@[p as int].path@);
            }
            p = p + 1;
        }
        proof {
            if p < out@.len() {
                assert forall|k: int| p <= k < out@.len() implies text_order(x.path@, (#[trigger] out@[k]).path@) < 0 by {
                    if k > p {
                        lemma_text_order_transitive(x.path@, out@[p as int].path@, out@[k].path@);
                    }
                }
            }
        }
        let ghost before = out@;
        let ghost moved = x;
        out.insert(p, x);
        proof {
            let s2 = out@;
            assert(s2 == before.insert(p as int, moved));
            let bv = before.map_values(|f: ChangedFile| change_view(f));
            assert(s2.map_values(|f: ChangedFile| change_view(f)) =~= bv.insert(p as int, xv));
            vstd::seq_lib::to_multiset_insert(bv, p as int, xv);
            assert forall|a: int, b: int| 0 <= a < b < s2.len() implies text_order(
                (#[trigger] s2[a]).path@,
                (#[trigger] s2[b]).path@,
            ) <= 0 by {
                if b < p {
                    assert(s2[a] == before[a] && s2[b] == before[b]);
                } else if b == p {
                    assert(s2[a] == before[a]);
                } else if a == p {
                    assert(s2[b] == before[b - 1]);
                } else if a < p {
                    assert(s2[a] == before[a] && s2[b] == before[b - 1]);
                } else {
                    assert(s2[a] == before[a - 1] && s2[b] == before[b - 1]);
                }
            }
            assert(out@.map_values(|f: ChangedFile| change_view(f)).to_multiset().add(
                rest@.map_values(|f: ChangedFile| change_view(f)).to_multiset(),
            ) =~= bv.to_multiset().add(rest_before.map_values(|f: ChangedFile| change_view(f)).to_multiset()));
        }
    }
    proof {
        assert(rest@.map_values(|f: ChangedFile| change_view(f)).to_multiset() =~= vstd::multiset::Multiset::empty());
        assert(out@.map_values(|f: ChangedFile| change_view(f)).to_multiset() =~= all.to_multiset());
    }
    out
}

/// The changes from comparing the package root's files with trunk's (each
/// with its content hash): files trunk lacks are added, files whose hash
/// differs are modified, files only trunk has are deleted; sorted by path.
pub open spec fn trunk_changes(listing: Seq<SourceFile>, trunk: Seq<ExistingFile>) -> Seq<(Seq<char>, ChangeKind)> {
    marked(added_rels(listing, trunk), ChangeKind::Added) + marked(modified_rels(listing, trunk), ChangeKind::Modified)
        + marked(deleted_rels(listing, trunk), ChangeKind::Deleted)
}

fn mark_all(paths: Vec<String>, kind: ChangeKind, out: &mut Vec<ChangedFile>)
    ensures
        final(out)@.map_values(|f: ChangedFile| change_view(f)) == old(out)@.map_values(|f: ChangedFile| change_view(f))
            + marked(texts(paths@), kind),
{
    let ghost start = out@.map_values(|f: ChangedFile| change_view(f));
    let mut i: usize = 0;
    while i < paths.len()
        invariant
            i <= paths@.len(),
            out@.map_values(|f: ChangedFile| change_view(f)) == start + marked(texts(paths@), kind).subrange(0, i as int),
        decreases paths@.len() - i,
    {
        let ghost before = out@;
        out.push(ChangedFile { path: paths[i].clone(), kind });
        proof {
            assert(out@.map_values(|f: ChangedFile| change_view(f)) =~= before.map_values(|f: ChangedFile| change_view(f)).push(
                (paths@[i as int]@, kind),
            ));
            assert(marked(texts(paths@), kind).subrange(0, i + 1) =~= marked(texts(paths@), kind).subrange(0, i as int).push(
                (paths@[i as int]@, kind),
            ));
        }
        i = i + 1;
    }
    proof {
        assert(marked(texts(paths@), kind).subrange(0, paths@.len() as int) =~= marked(texts(paths@), kind));
    }
}

/// The change set from comparing the package root with the trunk working
/// copy: `root_exists` tells whether the package root exists yet (a
/// pre-build command may create it), `listing` holds its files and `trunk`
/// trunk's, each with its content hash. With no package root the change set
/// is unknown; an empty trunk is a first release.
pub fn from_trunk(root_exists: bool, listing: &[SourceFile], trunk: &[ExistingFile], commits: Vec<String>) -> (r: ChangeSet)
    ensures
        r.base is None,
        r.commits == commits,
        !root_exists ==> r.source == ChangeSource::Unknown && r.files@.len() == 0,
        root_exists ==> r.source == (if trunk@.len() == 0 {
            ChangeSource::FirstRelease
        } else {
            ChangeSource::Trunk
        }) && by_path(r.files@) && r.files@.map_values(|f: ChangedFile| change_view(f)).to_multiset()
            == trunk_changes(listing@, trunk@).to_multiset(),
{
    if !root_exists {
        return ChangeSet { source: ChangeSource::Unknown, base: None, files: Vec::new(), commits };
    }
    let source = if trunk.len() == 0 {
        ChangeSource::FirstRelease
    } else {
        ChangeSource::Trunk
    };
    let plan = mirror_plan(listing, trunk);
    let mut files: Vec<ChangedFile> = Vec::new();
    proof {
        assert(files@.map_values(|f: ChangedFile| change_view(f)) =~= Seq::<(Seq<char>, ChangeKind)>::empty());
    }
    mark_all(plan.added, ChangeKind::Added, &mut files);
    mark_all(plan.modified, ChangeKind::Modified, &mut files);
    mark_all(plan.deleted, ChangeKind::Deleted, &mut files);
    proof {
        assert(files@.map_values(|f: ChangedFile| change_view(f)) =~= trunk_changes(listing@, trunk@));
    }
    let sorted = sort_by_path(files);
    ChangeSet { source, base: None, files: sorted, commits }
}

/// A `git diff --name-status` line is the status, a tab, and the path (or,
/// for a rename or copy, the old path, a tab and the new one): the path
/// that counts is the last one, and the status letter says the change —
/// `A` and `C` add, `D` deletes, `M`, `T` and `R` modify; any other letter
/// names no change.
pub proof fn lemma_name_status_lines(status: Seq<char>, old: Seq<char>, path: Seq<char>)
    requires
        status.len() > 0,
        forall|i: int| 0 <= i < status.len() ==> status[i] != '\t',
        forall|i: int| 0 <= i < old.len() ==> old[i] != '\t',
        forall|i: int| 0 <= i < path.len() ==> path[i] != '\t',
    ensures
        name_status_entry(status + seq!['\t'] + path) == match kind_of_status(status) {
            Some(k) => Some((path, k)),
            None => None,
        },
        name_status_entry(status + seq!['\t'] + old + seq!['\t'] + path) == match kind_of_status(status) {
            Some(k) => Some((path, k)),
            None => None,
        },
        (status[0] == 'A' || status[0] == 'C') ==> kind_of_status(status) == Some(ChangeKind::Added),
        status[0] == 'D' ==> kind_of_status(status) == Some(ChangeKind::Deleted),
        (status[0] == 'M' || status[0] == 'T' || status[0] == 'R') ==> kind_of_status(status) == Some(
            ChangeKind::Modified,
        ),
        !(status[0] == 'A' || status[0] == 'C' || status[0] == 'D' || status[0] == 'M' || status[0] == 'T'
            || status[0] == 'R') ==> kind_of_status(status) is None,
{
    crate::version::lemma_split_without_separator(path, '\t');
    crate::version::lemma_split_after_piece(status, '\t', path);
    crate::version::lemma_split_after_piece(old, '\t', path);
    assert(status + seq!['\t'] + old + seq!['\t'] + path =~= status + seq!['\t'] + (old + seq!['\t'] + path));
    crate::version::lemma_split_after_piece(status, '\t', old + seq!['\t'] + path);
}

} // verus!
