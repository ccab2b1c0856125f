//! Mirroring a folder into a working-copy folder: which files are new,
//! changed or gone (compared by content hash), which to copy, which MIME
//! types to set, and the sorted change lists. Walking, hashing, copying and
//! running `svn` are the app's.

use vstd::prelude::*;

use crate::sorting::{has_text, same_text, sort_texts, sort_unique, texts_ascending, texts_sorted};
use crate::strings::{
    contains, decimal, decimal_string, ends_with, has_infix, has_prefix, has_suffix, starts_with, to_chars,
};
use crate::verify::texts;

use super::{mime_type, mime_type_spec, pair_texts, Delta};

verus! {

broadcast use vstd::string::group_string_axioms;

/// A file to mirror: its path relative to the source folder (with `/`
/// separators) and its content hash.
pub struct SourceFile {
    /// Path relative to the source folder.
    pub rel: String,
    /// Content hash, lowercase hex.
    pub hash: String,
}

/// A file already in the target folder (outside `.svn`), with its content hash.
pub struct ExistingFile {
    /// Path relative to the target folder.
    pub rel: String,
    /// Content hash, lowercase hex.
    pub hash: String,
}

/// What `str::to_lowercase` yields for `text`.
pub uninterp spec fn lowercase_of(text: Seq<char>) -> Seq<char>;

/// `str::to_lowercase`: the Unicode lowercase mapping of `text`, which
/// depends on `text` alone.
#[verifier::external_body]
fn lowercase(text: &str) -> (r: String)
    ensures
        r@ == lowercase_of(text@),
{
    text.to_lowercase()
}

/// The hash of the first existing file at `rel`, if there is one.
pub open spec fn hash_at(existing: Seq<ExistingFile>, rel: Seq<char>) -> Option<Seq<char>>
    decreases existing.len(),
{
    if existing.len() == 0 {
        None
    } else if existing[0].rel@ == rel {
        Some(existing[0].hash@)
    } else {
        hash_at(existing.drop_first(), rel)
    }
}

/// Whether a source is at `rel`.
pub open spec fn wanted(sources: Seq<SourceFile>, rel: Seq<char>) -> bool {
    exists|i: int| 0 <= i < sources.len() && (#[trigger] sources[i]).rel@ == rel
}

/// Sources with no existing file at their path, in source order.
pub open spec fn added_rels(sources: Seq<SourceFile>, existing: Seq<ExistingFile>) -> Seq<Seq<char>>
    decreases sources.len(),
{
    if sources.len() == 0 {
        seq![]
    } else {
        let rest = added_rels(sources.drop_last(), existing);
        if hash_at(existing, sources.last().rel@) is None {
            rest.push(sources.last().rel@)
        } else {
            rest
        }
    }
}

/// Sources whose existing file has another hash, in source order.
pub open spec fn modified_rels(sources: Seq<SourceFile>, existing: Seq<ExistingFile>) -> Seq<Seq<char>>
    decreases sources.len(),
{
    if sources.len() == 0 {
        seq![]
    } else {
        let rest = modified_rels(sources.drop_last(), existing);
        let s = sources.last();
        if hash_at(existing, s.rel@) matches Some(h) && h != s.hash@ {
            rest.push(s.rel@)
        } else {
            rest
        }
    }
}

/// Sources that are new or changed, in source order: the files to copy.
pub open spec fn copied_rels(sources: Seq<SourceFile>, existing: Seq<ExistingFile>) -> Seq<Seq<char>>
    decreases sources.len(),
{
    if sources.len() == 0 {
        seq![]
    } else {
        let rest = copied_rels(sources.drop_last(), existing);
        let s = sources.last();
        if hash_at(existing, s.rel@) != Some(s.hash@) {
            rest.push(s.rel@)
        } else {
            rest
        }
    }
}

/// Existing files that no source keeps, in listing order.
pub open spec fn deleted_rels(sources: Seq<SourceFile>, existing: Seq<ExistingFile>) -> Seq<Seq<char>>
    decreases existing.len(),
{
    if existing.len() == 0 {
        seq![]
    } else {
        let rest = deleted_rels(sources, existing.drop_last());
        if wanted(sources, existing.last().rel@) {
            rest
        } else {
            rest.push(existing.last().rel@)
        }
    }
}

/// The last existing path spelled like `rel` but for letter case.
pub open spec fn case_twin(existing: Seq<ExistingFile>, rel: Seq<char>) -> Option<Seq<char>>
    decreases existing.len(),
{
    if existing.len() == 0 {
        None
    } else if lowercase_of(existing.last().rel@) == lowercase_of(rel) {
        Some(existing.last().rel@)
    } else {
        case_twin(existing.drop_last(), rel)
    }
}

/// Case-only renames: (old spelling, new spelling) for each new source
/// whose path an existing file has in another letter case.
pub open spec fn renamed(sources: Seq<SourceFile>, existing: Seq<ExistingFile>) -> Seq<(Seq<char>, Seq<char>)>
    decreases sources.len(),
{
    if sources.len() == 0 {
        seq![]
    } else {
        let rest = renamed(sources.drop_last(), existing);
        let s = sources.last();
        if hash_at(existing, s.rel@) is None && case_twin(existing, s.rel@) is Some {
            rest.push((case_twin(existing, s.rel@)->0, s.rel@))
        } else {
            rest
        }
    }
}

/// What mirroring changes, before `svn` runs.
pub struct MirrorPlan {
    /// New files, in source order.
    pub added: Vec<String>,
    /// Changed files, in source order.
    pub modified: Vec<String>,
    /// New or changed files, in source order: what is copied into the target.
    pub copies: Vec<String>,
    /// Files no source keeps, in listing order: what `svn delete` removes.
    pub deleted: Vec<String>,
    /// Case-only renames (old, new), reported to the developer.
    pub renames: Vec<(String, String)>,
}

/// The first existing file's hash at `rel`.
fn find_hash(existing: &[ExistingFile], rel: &str) -> (r: Option<String>)
    ensures
        (match r {
            Some(h) => Some(h@),
            None => None,
        }) == hash_at(existing@, rel@),
{
    let mut j: usize = 0;
    proof {
        assert(existing@.skip(0) =~= existing@);
    }
    while j < existing.len()
        invariant
            j <= existing@.len(),
            hash_at(existing@, rel@) == hash_at(existing@.skip(j as int), rel@),
        decreases existing@.len() - j,
    {
        proof {
            assert(existing@.skip(j as int)[0] == existing@[j as int]);
            assert(existing@.skip(j as int).drop_first() =~= existing@.skip(j + 1));
        }
        if same_text(existing[j].rel.as_str(), rel) {
            return Some(existing[j].hash.clone());
        }
        j = j + 1;
    }
    proof {
        assert(existing@.skip(j as int).len() == 0);
    }
    None
}

/// Whether a source is at `rel`.
fn is_wanted(sources: &[SourceFile], rel: &str) -> (b: bool)
    ensures
        b == wanted(sources@, rel@),
{
    let mut i: usize = 0;
    while i < sources.len()
        invariant
            i <= sources@.len(),
            forall|k: int| 0 <= k < i ==> (#[trigger] sources@[k]).rel@ != rel@,
        decreases sources@.len() - i,
    {
        if same_text(sources[i].rel.as_str(), rel) {
            return true;
        }
        i = i + 1;
    }
    false
}

/// The last existing path equal to `rel` but for letter case, given the
/// existing paths' lowercase forms.
fn find_twin(existing: &[ExistingFile], lowers: &Vec<String>, rel: &str) -> (r: Option<String>)
    requires
        lowers@.len() == existing@.len(),
        forall|k: int| 0 <= k < existing@.len() ==> (#[trigger] lowers@[k])@ == lowercase_of(existing@[k].rel@),
    ensures
        (match r {
            Some(t) => Some(t@),
            None => None,
        }) == case_twin(existing@, rel@),
{
    let target = lowercase(rel);
    let mut found: Option<String> = None;
    let mut j: usize = 0;
    while j < existing.len()
        invariant
            j <= existing@.len(),
            lowers@.len() == existing@.len(),
            forall|k: int| 0 <= k < existing@.len() ==> (#[trigger] lowers@[k])@ == lowercase_of(existing@[k].rel@),
            target@ == lowercase_of(rel@),
            (match found {
                Some(t) => Some(t@),
                None => None,
            }) == case_twin(existing@.subrange(0, j as int), rel@),
        decreases existing@.len() - j,
    {
        proof {
            let sub = existing@.subrange(0, j + 1);
            assert(sub.drop_last() =~= existing@.subrange(0, j as int));
            assert(sub.last() == existing@[j as int]);
        }
        if same_text(lowers[j].as_str(), target.as_str()) {
            found = Some(existing[j].rel.clone());
        }
        j = j + 1;
    }
    proof {
        assert(existing@.subrange(0, existing@.len() as int) =~= existing@);
    }
    found
}

/// Plans mirroring `sources` over the `existing` files of the target folder.
pub fn mirror_plan(sources: &[SourceFile], existing: &[ExistingFile]) -> (p: MirrorPlan)
    ensures
        texts(p.added@) == added_rels(sources@, existing@),
        texts(p.modified@) == modified_rels(sources@, existing@),
        texts(p.copies@) == copied_rels(sources@, existing@),
        texts(p.deleted@) == deleted_rels(sources@, existing@),
        pair_texts(p.renames@) == renamed(sources@, existing@),
{
    let mut lowers: Vec<String> = Vec::new();
    let mut j: usize = 0;
    while j < existing.len()
        invariant
            j <= existing@.len(),
            lowers@.len() == j,
            forall|k: int| 0 <= k < j ==> (#[trigger] lowers@[k])@ == lowercase_of(existing@[k].rel@),
        decreases existing@.len() - j,
    {
        lowers.push(lowercase(existing[j].rel.as_str()));
        j = j + 1;
    }
    let mut added: Vec<String> = Vec::new();
    let mut modified: Vec<String> = Vec::new();
    let mut copies: Vec<String> = Vec::new();
    let mut renames: Vec<(String, String)> = Vec::new();
    let mut i: usize = 0;
    while i < sources.len()
        invariant
            i <= sources@.len(),
            lowers@.len() == existing@.len(),
            forall|k: int| 0 <= k < existing@.len() ==> (#[trigger] lowers@[k])@ == lowercase_of(existing@[k].rel@),
            texts(added@) == added_rels(sources@.subrange(0, i as int), existing@),
            texts(modified@) == modified_rels(sources@.subrange(0, i as int), existing@),
            texts(copies@) == copied_rels(sources@.subrange(0, i as int), existing@),
            pair_texts(renames@) == renamed(sources@.subrange(0, i as int), existing@),
        decreases sources@.len() - i,
    {
        let ghost sub = sources@.subrange(0, i + 1);
        proof {
            assert(sub.drop_last() =~= sources@.subrange(0, i as int));
            assert(sub.last() == sources@[i as int]);
        }
        let source = &sources[i];
        let current = find_hash(existing, source.rel.as_str());
        match current {
            None => {
                added.push(source.rel.clone());
                copies.push(source.rel.clone());
                let twin = find_twin(existing, &lowers, source.rel.as_str());
                match twin {
                    Some(old) => {
                        renames.push((old, source.rel.clone()));
                    },
                    None => {},
                }
            },
            Some(h) => {
                if !same_text(h.as_str(), source.hash.as_str()) {
                    modified.push(source.rel.clone());
                    copies.push(source.rel.clone());
                }
            },
        }
        proof {
            assert(texts(added@) =~= added_rels(sub, existing@));
            assert(texts(modified@) =~= modified_rels(sub, existing@));
            assert(texts(copies@) =~= copied_rels(sub, existing@));
            assert(pair_texts(renames@) =~= renamed(sub, existing@));
        }
        i = i + 1;
    }
    let mut deleted: Vec<String> = Vec::new();
    let mut k: usize = 0;
    while k < existing.len()
        invariant
            k <= existing@.len(),
            texts(deleted@) == deleted_rels(sources@, existing@.subrange(0, k as int)),
        decreases existing@.len() - k,
    {
        let ghost sub = existing@.subrange(0, k + 1);
        proof {
            assert(sub.drop_last() =~= existing@.subrange(0, k as int));
            assert(sub.last() == existing@[k as int]);
        }
        if !is_wanted(sources, existing[k].rel.as_str()) {
            deleted.push(existing[k].rel.clone());
        }
        proof {
            assert(texts(deleted@) =~= deleted_rels(sources@, sub));
        }
        k = k + 1;
    }
    proof {
        assert(sources@.subrange(0, sources@.len() as int) =~= sources@);
        assert(existing@.subrange(0, existing@.len() as int) =~= existing@);
    }
    MirrorPlan { added, modified, copies, deleted, renames }
}

/// The paths among `rels` whose MIME type is `m`, in order.
pub open spec fn with_mime(rels: Seq<Seq<char>>, m: Seq<char>) -> Seq<Seq<char>>
    decreases rels.len(),
{
    if rels.len() == 0 {
        seq![]
    } else {
        let rest = with_mime(rels.drop_last(), m);
        if mime_type_spec(rels.last()) == Some(m) {
            rest.push(rels.last())
        } else {
            rest
        }
    }
}

/// Whether some path among `rels` has MIME type `m`.
pub open spec fn some_mime(rels: Seq<Seq<char>>, m: Seq<char>) -> bool {
    exists|i: int| 0 <= i < rels.len() && mime_type_spec(#[trigger] rels[i]) == Some(m)
}

/// The MIME types of a grouping.
pub open spec fn group_keys(groups: Seq<(String, Vec<String>)>) -> Seq<String> {
    groups.map_values(|g: (String, Vec<String>)| g.0)
}

/// The new and changed paths grouped by the MIME type `svn:mime-type` gets,
/// one `propset` per type: types in ascending order, each with its paths in
/// order (new ones first). Paths with no such type are left out.
pub fn mime_groups(added: &[String], modified: &[String]) -> (groups: Vec<(String, Vec<String>)>)
    ensures
        texts_ascending(group_keys(groups@)),
        forall|m: Seq<char>|
            has_text(group_keys(groups@), m) <==> some_mime(texts(added@) + texts(modified@), m),
        forall|k: int|
            0 <= k < groups@.len() ==> texts((#[trigger] groups@[k]).1@) == with_mime(
                texts(added@) + texts(modified@),
                groups@[k].0@,
            ),
{
    let ghost rels = texts(added@) + texts(modified@);
    let mut all: Vec<String> = Vec::new();
    let mut i: usize = 0;
    while i < added.len()
        invariant
            i <= added@.len(),
            all@.len() == i,
            texts(all@) == texts(added@).subrange(0, i as int),
        decreases added@.len() - i,
    {
        let ghost before = all@;
        all.push(added[i].clone());
        proof {
            assert(all@ == before.push(added@[i as int]));
            assert forall|q: int| 0 <= q <= i implies #[trigger] texts(all@)[q] == texts(added@).subrange(0, i + 1)[q] by {
                if q < i {
                    assert(texts(before)[q] == texts(added@).subrange(0, i as int)[q]);
                }
            }
            assert(texts(all@) =~= texts(added@).subrange(0, i + 1));
        }
        i = i + 1;
    }
    let mut j: usize = 0;
    while j < modified.len()
        invariant
            j <= modified@.len(),
            all@.len() == added@.len() + j,
            texts(all@) == texts(added@) + texts(modified@).subrange(0, j as int),
        decreases modified@.len() - j,
    {
        let ghost before = all@;
        all.push(modified[j].clone());
        proof {
            let want = texts(added@) + texts(modified@).subrange(0, j + 1);
            let had = texts(added@) + texts(modified@).subrange(0, j as int);
            assert(all@ == before.push(modified@[j as int]));
            assert forall|q: int| 0 <= q < want.len() implies #[trigger] texts(all@)[q] == want[q] by {
                if q < want.len() - 1 {
                    assert(texts(before)[q] == had[q]);
                }
            }
            assert(texts(all@) =~= want);
        }
        j = j + 1;
    }
    proof {
        assert(texts(all@) =~= rels);
    }
    let mut mimes: Vec<String> = Vec::new();
    let mut k: usize = 0;
    while k < all.len()
        invariant
            k <= all@.len(),
            texts(all@) == rels,
            forall|m: Seq<char>| has_text(mimes@, m) <==> some_mime(rels.subrange(0, k as int), m),
        decreases all@.len() - k,
    {
        let ghost before = mimes@;
        let found = mime_type(all[k].as_str());
        match found {
            Some(m) => {
                mimes.push(m.to_owned());
            },
            None => {},
        }
        proof {
            assert(mimes@.len() >= before.len());
            assert(forall|a: int| 0 <= a < before.len() ==> mimes@[a] == before[a]);
            let sub = rels.subrange(0, k + 1);
            assert(sub[k as int] == all@[k as int]@);
            assert forall|m: Seq<char>| has_text(mimes@, m) <==> some_mime(sub, m) by {
                if has_text(mimes@, m) {
                    let a = choose|a: int| 0 <= a < mimes@.len() && (#[trigger] mimes@[a])@ == m;
                    if a < before.len() {
                        assert(before[a]@ == m);
                        assert(has_text(before, m));
                        let b = choose|b: int| 0 <= b < k && mime_type_spec(#[trigger] rels.subrange(0, k as int)[b]) == Some(m);
                        assert(sub[b] == rels.subrange(0, k as int)[b]);
                    } else {
                        assert(mime_type_spec(sub[k as int]) == Some(m));
                    }
                }
                if some_mime(sub, m) {
                    let b = choose|b: int| 0 <= b < sub.len() && mime_type_spec(#[trigger] sub[b]) == Some(m);
                    if b < k {
                        assert(rels.subrange(0, k as int)[b] == sub[b]);
                        assert(some_mime(rels.subrange(0, k as int), m));
                        assert(has_text(before, m));
                        let a = choose|a: int| 0 <= a < before.len() && (#[trigger] before[a])@ == m;
                        assert(mimes@[a]@ == m);
                    } else {
                        assert(mimes@.last()@ == m);
                        assert(mimes@[mimes@.len() - 1]@ == m);
                    }
                }
            }
        }
        k = k + 1;
    }
    proof {
        assert(rels.subrange(0, rels.len() as int) =~= rels);
    }
    let keys = sort_unique(mimes);
    let mut groups: Vec<(String, Vec<String>)> = Vec::new();
    let mut g: usize = 0;
    while g < keys.len()
        invariant
            g <= keys@.len(),
            texts(all@) == rels,
            texts_ascending(keys@),
            groups@.len() == g,
            group_keys(groups@) == keys@.subrange(0, g as int),
            forall|q: int| 0 <= q < groups@.len() ==> texts((#[trigger] groups@[q]).1@) == with_mime(rels, groups@[q].0@),
        decreases keys@.len() - g,
    {
        let key = keys[g].clone();
        let mut paths: Vec<String> = Vec::new();
        let mut n: usize = 0;
        while n < all.len()
            invariant
                n <= all@.len(),
                texts(all@) == rels,
                texts(paths@) == with_mime(rels.subrange(0, n as int), key@),
            decreases all@.len() - n,
        {
            let ghost sub = rels.subrange(0, n + 1);
            proof {
                assert(sub.drop_last() =~= rels.subrange(0, n as int));
                assert(sub.last() == all@[n as int]@);
            }
            let found = mime_type(all[n].as_str());
            match found {
                Some(m) => {
                    if same_text(m, key.as_str()) {
                        paths.push(all[n].clone());
                    }
                },
                None => {},
            }
            proof {
                assert(texts(paths@) =~= with_mime(sub, key@));
            }
            n = n + 1;
        }
        proof {
            assert(rels.subrange(0, rels.len() as int) =~= rels);
        }
        let ghost had = groups@;
        groups.push((key, paths));
        proof {
            assert(groups@ == had.push((keys@[g as int], paths)));
            assert forall|q: int| 0 <= q <= g implies #[trigger] group_keys(groups@)[q] == keys@.subrange(0, g + 1)[q] by {
                if q < g {
                    assert(group_keys(had)[q] == keys@.subrange(0, g as int)[q]);
                }
            }
            assert(group_keys(groups@) =~= keys@.subrange(0, g + 1));
        }
        g = g + 1;
    }
    proof {
        assert(keys@.subrange(0, keys@.len() as int) =~= keys@);
    }
    groups
}

/// `paths` as folders: each with a `/` at its end.
pub open spec fn as_folders(paths: Seq<Seq<char>>) -> Seq<Seq<char>> {
    paths.map_values(|p: Seq<char>| p + "/"@)
}

/// The final change lists: each sorted, the emptied folders (paths relative
/// to the target) deleted as well, with a `/` at their end.
pub fn settle_delta(added: Vec<String>, modified: Vec<String>, deleted: Vec<String>, emptied: &[String]) -> (d: Delta)
    ensures
        texts_sorted(d.added@),
        texts(d.added@).to_multiset() == texts(added@).to_multiset(),
        texts_sorted(d.modified@),
        texts(d.modified@).to_multiset() == texts(modified@).to_multiset(),
        texts_sorted(d.deleted@),
        texts(d.deleted@).to_multiset() == (texts(deleted@) + as_folders(texts(emptied@))).to_multiset(),
{
    let mut gone = deleted;
    let ghost start = texts(gone@);
    assert(start.len() == gone@.len());
    let mut i: usize = 0;
    while i < emptied.len()
        invariant
            i <= emptied@.len(),
            gone@.len() == start.len() + i,
            texts(gone@) == start + as_folders(texts(emptied@)).subrange(0, i as int),
        decreases emptied@.len() - i,
    {
        let mut folder = emptied[i].clone();
        folder.append("/");
        let ghost before = gone@;
        gone.push(folder);
        proof {
            let want = start + as_folders(texts(emptied@)).subrange(0, i + 1);
            let had = start + as_folders(texts(emptied@)).subrange(0, i as int);
            assert(gone@ == before.push(folder));
            assert forall|q: int| 0 <= q < want.len() implies #[trigger] texts(gone@)[q] == want[q] by {
                if q < want.len() - 1 {
                    assert(texts(before)[q] == had[q]);
                }
            }
            assert(texts(gone@) =~= want);
        }
        i = i + 1;
    }
    proof {
        assert(as_folders(texts(emptied@)).subrange(0, emptied@.len() as int) =~= as_folders(texts(emptied@)));
    }
    Delta { added: sort_texts(added), modified: sort_texts(modified), deleted: sort_texts(gone) }
}

/// Whether an existing file is at `rel`.
pub open spec fn present(existing: Seq<ExistingFile>, rel: Seq<char>) -> bool {
    exists|j: int| 0 <= j < existing.len() && (#[trigger] existing[j]).rel@ == rel
}

/// Whether the existing file at `rel` has a hash other than `hash`.
pub open spec fn other_hash(existing: Seq<ExistingFile>, rel: Seq<char>, hash: Seq<char>) -> bool {
    hash_at(existing, rel) matches Some(h) && h != hash
}

/// Whether a source at `rel` differs from the existing file there.
pub open spec fn differs(sources: Seq<SourceFile>, existing: Seq<ExistingFile>, rel: Seq<char>) -> bool {
    exists|i: int|
        0 <= i < sources.len() && (#[trigger] sources[i]).rel@ == rel && other_hash(existing, rel, sources[i].hash@)
}

proof fn lemma_hash_at_present(existing: Seq<ExistingFile>, rel: Seq<char>)
    ensures
        hash_at(existing, rel) is Some <==> present(existing, rel),
    decreases existing.len(),
{
    if existing.len() > 0 {
        lemma_hash_at_present(existing.drop_first(), rel);
        if present(existing, rel) && existing[0].rel@ != rel {
            let j = choose|j: int| 0 <= j < existing.len() && (#[trigger] existing[j]).rel@ == rel;
            assert(existing.drop_first()[j - 1].rel@ == rel);
        }
        if hash_at(existing.drop_first(), rel) is Some && existing[0].rel@ != rel {
            let j = choose|j: int| 0 <= j < existing.len() - 1 && (#[trigger] existing.drop_first()[j]).rel@ == rel;
            assert(existing[j + 1].rel@ == rel);
        }
    }
}

proof fn lemma_added_has(sources: Seq<SourceFile>, existing: Seq<ExistingFile>, rel: Seq<char>)
    ensures
        added_rels(sources, existing).contains(rel) <==> wanted(sources, rel) && hash_at(existing, rel) is None,
    decreases sources.len(),
{
    broadcast use vstd::seq_lib::group_seq_properties;

    if sources.len() > 0 {
        let rest = sources.drop_last();
        lemma_added_has(rest, existing, rel);
        if wanted(sources, rel) && sources.last().rel@ != rel {
            let i = choose|i: int| 0 <= i < sources.len() && (#[trigger] sources[i]).rel@ == rel;
            assert(rest[i].rel@ == rel);
        }
        if wanted(rest, rel) {
            let i = choose|i: int| 0 <= i < rest.len() && (#[trigger] rest[i]).rel@ == rel;
            assert(sources[i].rel@ == rel);
        }
        if sources.last().rel@ == rel {
            assert(sources[sources.len() - 1].rel@ == rel);
        }
    }
}

proof fn lemma_modified_has(sources: Seq<SourceFile>, existing: Seq<ExistingFile>, rel: Seq<char>)
    ensures
        modified_rels(sources, existing).contains(rel) <==> differs(sources, existing, rel),
    decreases sources.len(),
{
    broadcast use vstd::seq_lib::group_seq_properties;

    if sources.len() > 0 {
        let rest = sources.drop_last();
        lemma_modified_has(rest, existing, rel);
        if differs(sources, existing, rel) {
            let i = choose|i: int|
                0 <= i < sources.len() && (#[trigger] sources[i]).rel@ == rel && other_hash(existing, rel, sources[i].hash@);
            if i < rest.len() {
                assert(rest[i] == sources[i]);
            }
        }
        if differs(rest, existing, rel) {
            let i = choose|i: int|
                0 <= i < rest.len() && (#[trigger] rest[i]).rel@ == rel && other_hash(existing, rel, rest[i].hash@);
            assert(sources[i] == rest[i]);
        }
        let last = sources.last();
        if last.rel@ == rel && other_hash(existing, rel, last.hash@) {
            assert(sources[sources.len() - 1] == last);
        }
    }
}

proof fn lemma_copied_is_added_or_modified(sources: Seq<SourceFile>, existing: Seq<ExistingFile>, rel: Seq<char>)
    ensures
        copied_rels(sources, existing).contains(rel) <==> added_rels(sources, existing).contains(rel)
            || modified_rels(sources, existing).contains(rel),
    decreases sources.len(),
{
    broadcast use vstd::seq_lib::group_seq_properties;

    if sources.len() > 0 {
        lemma_copied_is_added_or_modified(sources.drop_last(), existing, rel);
    }
}

proof fn lemma_deleted_has(sources: Seq<SourceFile>, existing: Seq<ExistingFile>, rel: Seq<char>)
    ensures
        deleted_rels(sources, existing).contains(rel) <==> present(existing, rel) && !wanted(sources, rel),
    decreases existing.len(),
{
    broadcast use vstd::seq_lib::group_seq_properties;

    if existing.len() > 0 {
        let rest = existing.drop_last();
        lemma_deleted_has(sources, rest, rel);
        if present(existing, rel) && existing.last().rel@ != rel {
            let j = choose|j: int| 0 <= j < existing.len() && (#[trigger] existing[j]).rel@ == rel;
            assert(rest[j].rel@ == rel);
        }
        if present(rest, rel) {
            let j = choose|j: int| 0 <= j < rest.len() && (#[trigger] rest[j]).rel@ == rel;
            assert(existing[j].rel@ == rel);
        }
        if existing.last().rel@ == rel {
            assert(existing[existing.len() - 1].rel@ == rel);
        }
    }
}

/// Mirroring sorts every path into one place: a source path the target
/// lacks is added; one whose file there has another hash is modified; a
/// path is never both; what is copied is exactly what is added or modified;
/// a target path no source keeps is deleted, and a source path never is.
pub proof fn lemma_mirror_classifies(sources: Seq<SourceFile>, existing: Seq<ExistingFile>, rel: Seq<char>)
    ensures
        added_rels(sources, existing).contains(rel) <==> wanted(sources, rel) && !present(existing, rel),
        modified_rels(sources, existing).contains(rel) <==> differs(sources, existing, rel),
        !(added_rels(sources, existing).contains(rel) && modified_rels(sources, existing).contains(rel)),
        copied_rels(sources, existing).contains(rel) <==> added_rels(sources, existing).contains(rel)
            || modified_rels(sources, existing).contains(rel),
        deleted_rels(sources, existing).contains(rel) <==> present(existing, rel) && !wanted(sources, rel),
{
    lemma_hash_at_present(existing, rel);
    lemma_added_has(sources, existing, rel);
    lemma_modified_has(sources, existing, rel);
    lemma_copied_is_added_or_modified(sources, existing, rel);
    lemma_deleted_has(sources, existing, rel);
}

/// Whether a relative path lies in SVN's metadata (a `.svn` component).
pub open spec fn in_svn_metadata(path: Seq<char>) -> bool {
    path == ".svn"@ || starts_with(path, ".svn/"@) || ends_with(path, "/.svn"@) || contains(path, "/.svn/"@)
}

/// Whether `path` is `folder` or lies below it (path components).
pub open spec fn within(path: Seq<char>, folder: Seq<char>) -> bool {
    path == folder || starts_with(path, folder + "/"@)
}

fn is_metadata(path: &str) -> (b: bool)
    ensures
        b == in_svn_metadata(path@),
{
    let p = to_chars(path);
    let svn = to_chars(".svn");
    let head = to_chars(".svn/");
    let tail = to_chars("/.svn");
    let mid = to_chars("/.svn/");
    proof {
        reveal_strlit(".svn");
        reveal_strlit(".svn/");
        reveal_strlit("/.svn");
        reveal_strlit("/.svn/");
    }
    same_text(path, ".svn") || has_prefix(p.as_slice(), head.as_slice()) || has_suffix(p.as_slice(), tail.as_slice())
        || has_infix(p.as_slice(), mid.as_slice())
}

fn is_within(path: &str, folder: &str) -> (b: bool)
    ensures
        b == within(path@, folder@),
{
    if same_text(path, folder) {
        return true;
    }
    let mut prefix = to_chars(folder);
    prefix.push('/');
    proof {
        assert(prefix@ =~= folder@ + "/"@) by {
            reveal_strlit("/");
        }
    }
    has_prefix(to_chars(path).as_slice(), prefix.as_slice())
}

/// The versioned files of a working-copy folder, from its walk: `entries`
/// holds each path below the folder (relative, `/`-separated) and whether it
/// is a file. Anything in SVN's metadata is skipped; the rest is sorted.
pub fn existing_files(entries: &[(String, bool)]) -> (r: Vec<String>)
    ensures
        texts_sorted(r@),
        texts(r@).to_multiset() == versioned_files(entries@, entries@.len() as int).to_multiset(),
{
    let mut files: Vec<String> = Vec::new();
    let mut i: usize = 0;
    while i < entries.len()
        invariant
            i <= entries@.len(),
            texts(files@) == versioned_files(entries@, i as int),
        decreases entries@.len() - i,
    {
        if entries[i].1 && !is_metadata(entries[i].0.as_str()) {
            let ghost before = texts(files@);
            files.push(entries[i].0.clone());
            proof {
                assert(texts(files@) =~= before.push(entries@[i as int].0@));
            }
        }
        i = i + 1;
    }
    let r = sort_texts(files);
    r
}

/// The files among the first `k` entries of a walk, outside SVN's metadata.
pub open spec fn versioned_files(entries: Seq<(String, bool)>, k: int) -> Seq<Seq<char>>
    decreases k,
{
    if k <= 0 {
        seq![]
    } else if entries[k - 1].1 && !in_svn_metadata(entries[k - 1].0@) {
        versioned_files(entries, k - 1).push(entries[k - 1].0@)
    } else {
        versioned_files(entries, k - 1)
    }
}

/// Whether some file of the walk, outside SVN's metadata, lies below `folder`.
pub open spec fn holds_files(entries: Seq<(String, bool)>, folder: Seq<char>) -> bool {
    exists|j: int|
        0 <= j < entries.len() && (#[trigger] entries[j]).1 && !in_svn_metadata(entries[j].0@) && within(
            entries[j].0@,
            folder,
        )
}

/// The emptied folders among the first `k` entries of a walk (in walk
/// order, a folder before what it holds): each folder outside SVN's
/// metadata that holds no file and lies in no folder found before it.
pub open spec fn emptied_in(entries: Seq<(String, bool)>, k: int) -> Seq<Seq<char>>
    decreases k,
{
    if k <= 0 {
        seq![]
    } else {
        let found = emptied_in(entries, k - 1);
        let path = entries[k - 1].0@;
        if !entries[k - 1].1 && !in_svn_metadata(path) && !(exists|f: int|
            0 <= f < found.len() && within(path, #[trigger] found[f])) && !holds_files(entries, path) {
            found.push(path)
        } else {
            found
        }
    }
}

fn holds_any_file(entries: &[(String, bool)], folder: &str) -> (b: bool)
    ensures
        b == holds_files(entries@, folder@),
{
    let mut j: usize = 0;
    while j < entries.len()
        invariant
            j <= entries@.len(),
            forall|k: int|
                0 <= k < j ==> !((#[trigger] entries@[k]).1 && !in_svn_metadata(entries@[k].0@) && within(
                    entries@[k].0@,
                    folder@,
                )),
        decreases entries@.len() - j,
    {
        if entries[j].1 && !is_metadata(entries[j].0.as_str()) && is_within(entries[j].0.as_str(), folder) {
            return true;
        }
        j = j + 1;
    }
    false
}

/// The folders of a working-copy folder that no longer hold any file,
/// outermost only, from its walk: `entries` holds each path below the
/// folder (relative, `/`-separated, a folder before its contents) and
/// whether it is a file; a path that is not a file is a folder.
pub fn empty_folders(entries: &[(String, bool)]) -> (r: Vec<String>)
    ensures
        texts(r@) == emptied_in(entries@, entries@.len() as int),
{
    let mut out: Vec<String> = Vec::new();
    let mut i: usize = 0;
    while i < entries.len()
        invariant
            i <= entries@.len(),
            texts(out@) == emptied_in(entries@, i as int),
        decreases entries@.len() - i,
    {
        let path = entries[i].0.as_str();
        if !entries[i].1 && !is_metadata(path) {
            let ghost found = texts(out@);
            let mut inside = false;
            let mut f: usize = 0;
            while f < out.len()
                invariant
                    f <= out@.len(),
                    found == texts(out@),
                    path@ == entries@[i as int].0@,
                    inside <==> exists|g: int| 0 <= g < f && within(path@, #[trigger] found[g]),
                decreases out@.len() - f,
            {
                if is_within(path, out[f].as_str()) {
                    proof {
                        assert(found[f as int] == out@[f as int]@);
                    }
                    inside = true;
                }
                proof {
                    if !inside {
                        assert forall|g: int| 0 <= g < f + 1 implies !within(path@, #[trigger] found[g]) by {
                            if g == f {
                                assert(found[f as int] == out@[f as int]@);
                            }
                        }
                    }
                }
                f = f + 1;
            }
            if !inside && !holds_any_file(entries, path) {
                out.push(path.to_owned());
                proof {
                    assert(texts(out@) =~= found.push(path@));
                }
            }
        }
        i = i + 1;
    }
    out
}

/// The notice for a case-only rename, which is a delete plus an add.
pub fn rename_notice(old: &str, new: &str) -> (s: String)
    ensures
        s@ == "Case-only rename: "@ + old@ + " → "@ + new@ + "."@,
{
    let mut s = "Case-only rename: ".to_owned();
    s.append(old);
    s.append(" → ");
    s.append(new);
    s.append(".");
    s
}

/// The progress line before vanished files are deleted.
pub fn deleting_notice(files: usize) -> (s: String)
    ensures
        s@ == "Deleting "@ + decimal(files as nat) + " file(s) no longer in the package."@,
{
    let mut s = "Deleting ".to_owned();
    s.append(decimal_string(files as u64).as_str());
    s.append(" file(s) no longer in the package.");
    s
}

/// The progress line before new files are added.
pub fn adding_notice(files: usize) -> (s: String)
    ensures
        s@ == "Adding "@ + decimal(files as nat) + " new file(s)."@,
{
    let mut s = "Adding ".to_owned();
    s.append(decimal_string(files as u64).as_str());
    s.append(" new file(s).");
    s
}

} // verus!
