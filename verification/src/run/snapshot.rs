//! Rollback: the exact bytes of every file Step 3 changes are copied aside
//! first and restored on cancel or failure before Publish. Copying is the
//! app's; which files a snapshot holds is decided here.

use vstd::prelude::*;

use crate::svn::slashed;
use crate::verify::texts;

verus! {

broadcast use vstd::string::group_string_axioms;

/// A snapshot of files under a root folder.
pub struct Snapshot {
    /// The folder the relative paths belong to.
    pub root: String,
    /// Where the copies are.
    pub dir: String,
    /// Relative paths captured, `/`-separated.
    pub files: Vec<String>,
}

impl Snapshot {
    /// The snapshot of the files Step 3 edits (relative to `root`), once
    /// their current bytes are copied into `dir`.
    pub fn taken(root: String, dir: String, edited: &[String]) -> (s: Snapshot)
        ensures
            s.root == root,
            s.dir == dir,
            texts(s.files@) == texts(edited@),
    {
        let mut files: Vec<String> = Vec::new();
        let mut i: usize = 0;
        while i < edited.len()
            invariant
                i <= edited@.len(),
                texts(files@) == texts(edited@).take(i as int),
            decreases edited@.len() - i,
        {
            let ghost before = texts(files@);
            files.push(edited[i].clone());
            proof {
                assert(texts(files@) =~= before.push(edited@[i as int]@));
                assert(texts(edited@).take(i + 1) =~= texts(edited@).take(i as int).push(edited@[i as int]@));
            }
            i = i + 1;
        }
        proof {
            assert(texts(edited@).take(edited@.len() as int) =~= texts(edited@));
        }
        Snapshot { root, dir, files }
    }

    /// A snapshot folder written earlier (for Discard after a crash), from
    /// its walk: every file in it, in walk order, with `/` separators.
    pub fn opened(root: String, dir: String, entries: &[(String, bool)]) -> (s: Snapshot)
        ensures
            s.root == root,
            s.dir == dir,
            texts(s.files@) == snapshot_files(entries@, entries@.len() as int),
    {
        let mut files: Vec<String> = Vec::new();
        let mut i: usize = 0;
        while i < entries.len()
            invariant
                i <= entries@.len(),
                texts(files@) == snapshot_files(entries@, i as int),
            decreases entries@.len() - i,
        {
            if entries[i].1 {
                let rel = crate::svn::slashed_text(entries[i].0.as_str());
                let ghost before = texts(files@);
                files.push(rel);
                proof {
                    assert(texts(files@) =~= before.push(slashed(entries@[i as int].0@)));
                }
            }
            i = i + 1;
        }
        Snapshot { root, dir, files }
    }
}

/// The files among the first `k` entries of a snapshot folder's walk, with
/// `/` separators.
pub open spec fn snapshot_files(entries: Seq<(String, bool)>, k: int) -> Seq<Seq<char>>
    decreases k,
{
    if k <= 0 {
        seq![]
    } else if entries[k - 1].1 {
        snapshot_files(entries, k - 1).push(slashed(entries[k - 1].0@))
    } else {
        snapshot_files(entries, k - 1)
    }
}

} // verus!
