//! Step 5's file review: what is released, what is left out, and the
//! `.distignore` text saved for it.

use vstd::prelude::*;

use crate::sorting::{has_text, same_text, sort_unique, texts_ascending};
use crate::strings::{
    first_index, from_chars, index_of, replace_all, replace_chars, slice_chars, to_chars, trim, trim_end,
    trim_end_space, trim_space,
};
use crate::verify::texts;

verus! {

broadcast use vstd::string::group_string_axioms;

/// Why SVNpush asks the developer to check the files.
#[derive(Debug, Clone, Copy, PartialEq, Eq, Structural)]
pub enum ReviewReason {
    /// The plugin has no `.distignore`; SVNpush proposes one.
    NoDistignore,
    /// Trunk on the server is empty: everything is new.
    FirstRelease,
    /// Top-level files or folders that are not in trunk yet.
    NewItems,
}

/// One file that will be released.
pub struct ReviewFile {
    /// Path relative to the package root.
    pub path: String,
    /// Size in bytes.
    pub size: u64,
}

/// What a set of rules releases and leaves out.
pub struct FilePreview {
    /// Files that will be released.
    pub files: Vec<ReviewFile>,
    /// Left-out paths; a left-out folder appears once, ending with `/`.
    pub excluded: Vec<String>,
    /// How many left-out paths there are in total.
    pub excluded_total: u32,
}

/// The file check shown in Step 5.
pub struct FileReview {
    /// Why it is shown.
    pub reasons: Vec<ReviewReason>,
    /// Whether the rules can be edited here.
    pub editable: bool,
    /// Whether `.distignore` already exists.
    pub distignore_exists: bool,
    /// The current `.distignore`, or the one SVNpush proposes.
    pub distignore: String,
    /// What those rules release and leave out.
    pub preview: FilePreview,
    /// Top-level files and folders that are not in trunk yet (folders end with `/`).
    pub new_items: Vec<String>,
}

/// Saved text: `\n` line ends and exactly one final newline.
pub open spec fn normalised(text: Seq<char>) -> Seq<char> {
    trim_end(replace_all(text, seq!['\r', '\n'], seq!['\n'])) + seq!['\n']
}

/// Normalises saved text: `\n` line ends and one final newline.
pub fn normalise(text: &str) -> (r: String)
    ensures
        r@ == normalised(text@),
{
    let chars = to_chars(text);
    let crlf = vec!['\r', '\n'];
    let lf = vec!['\n'];
    proof {
        assert(crlf@ =~= seq!['\r', '\n']);
        assert(lf@ =~= seq!['\n']);
    }
    let unified = replace_chars(chars.as_slice(), crlf.as_slice(), lf.as_slice());
    let mut out = trim_end_space(unified.as_slice());
    out.push('\n');
    from_chars(out.as_slice())
}

/// Whether `.distignore` can be edited in the review: no pre-build command
/// creates the package root, or the package root is the project folder.
pub open spec fn editable_spec(pre_build: Option<Seq<char>>, at_project_root: bool) -> bool {
    (match pre_build {
        Some(c) => trim(c).len() == 0,
        None => true,
    }) || at_project_root
}

/// Whether `.distignore` can be edited in the review.
pub fn review_editable(pre_build: Option<&str>, at_project_root: bool) -> (b: bool)
    ensures
        b == editable_spec(match pre_build {
            Some(c) => Some(c@),
            None => None,
        }, at_project_root),
{
    let blank = match pre_build {
        Some(c) => trim_space(to_chars(c).as_slice()).len() == 0,
        None => true,
    };
    blank || at_project_root
}

/// The top-level entry a released path lives in: its first folder with a
/// `/`, or the path itself when it is at the top.
pub open spec fn top_entry(path: Seq<char>) -> Seq<char> {
    match first_index(path, '/') {
        Some(k) => path.take(k) + seq!['/'],
        None => path,
    }
}

/// Whether some released file lives in the top-level entry `x`.
pub open spec fn in_top_level(files: Seq<ReviewFile>, x: Seq<char>) -> bool {
    exists|i: int| 0 <= i < files.len() && top_entry((#[trigger] files[i]).path@) == x
}

/// The top-level entry of one path.
fn top_entry_of(path: &str) -> (r: String)
    ensures
        r@ == top_entry(path@),
{
    let chars = to_chars(path);
    match index_of(chars.as_slice(), '/') {
        Some(k) => {
            let mut head = slice_chars(chars.as_slice(), 0, k);
            head.push('/');
            proof {
                assert(head@ =~= path@.take(k as int) + seq!['/']);
            }
            from_chars(head.as_slice())
        },
        None => path.to_owned(),
    }
}

/// The top-level entries the files live in (`plugin.php`, `includes/`), in ascending order.
pub fn top_level(files: &[ReviewFile]) -> (r: Vec<String>)
    ensures
        texts_ascending(r@),
        forall|x: Seq<char>| has_text(r@, x) <==> in_top_level(files@, x),
{
    let mut entries: Vec<String> = Vec::new();
    let mut i: usize = 0;
    while i < files.len()
        invariant
            i <= files@.len(),
            entries@.len() == i,
            forall|k: int| 0 <= k < i ==> (#[trigger] entries@[k])@ == top_entry(files@[k].path@),
        decreases files@.len() - i,
    {
        entries.push(top_entry_of(files[i].path.as_str()));
        i = i + 1;
    }
    let ghost listed = entries@;
    let r = sort_unique(entries);
    proof {
        assert forall|x: Seq<char>| has_text(listed, x) <==> in_top_level(files@, x) by {
            if has_text(listed, x) {
                let k = choose|k: int| 0 <= k < listed.len() && (#[trigger] listed[k])@ == x;
                assert(top_entry(files@[k].path@) == x);
            }
            if in_top_level(files@, x) {
                let k = choose|k: int| 0 <= k < files@.len() && top_entry((#[trigger] files@[k]).path@) == x;
                assert(listed[k]@ == x);
            }
        }
    }
    r
}

/// The review's reasons and the top-level entries new to trunk. `on_server`
/// is trunk's top-level listing, or `None` when it could not be read (the
/// comparison is then skipped). A missing `.distignore` is a reason only
/// when it can be edited here; an empty trunk is a first release; entries
/// trunk lacks are new, in ascending order.
pub fn review_reasons(
    distignore_exists: bool,
    editable: bool,
    on_server: Option<&[String]>,
    files: &[ReviewFile],
) -> (r: (Vec<ReviewReason>, Vec<String>))
    ensures
        ({
            let no_file = !distignore_exists && editable;
            match on_server {
                None => r.0@ == (if no_file {
                    seq![ReviewReason::NoDistignore]
                } else {
                    seq![]
                }) && r.1@.len() == 0,
                Some(listing) => if listing@.len() == 0 {
                    r.0@ == (if no_file {
                        seq![ReviewReason::NoDistignore, ReviewReason::FirstRelease]
                    } else {
                        seq![ReviewReason::FirstRelease]
                    }) && r.1@.len() == 0
                } else {
                    &&& texts_ascending(r.1@)
                    &&& forall|x: Seq<char>|
                        has_text(r.1@, x) <==> in_top_level(files@, x) && !has_text(listing@, x)
                    &&& r.0@ == (if no_file {
                        seq![ReviewReason::NoDistignore]
                    } else {
                        seq![]
                    }) + (if r.1@.len() > 0 {
                        seq![ReviewReason::NewItems]
                    } else {
                        seq![]
                    })
                },
            }
        }),
{
    let mut reasons: Vec<ReviewReason> = Vec::new();
    if !distignore_exists && editable {
        reasons.push(ReviewReason::NoDistignore);
    }
    let mut new_items: Vec<String> = Vec::new();
    match on_server {
        None => {},
        Some(listing) => {
            if listing.len() == 0 {
                reasons.push(ReviewReason::FirstRelease);
            } else {
                let top = top_level(files);
                let mut k: usize = 0;
                while k < top.len()
                    invariant
                        k <= top@.len(),
                        texts_ascending(top@),
                        forall|x: Seq<char>| has_text(top@, x) <==> in_top_level(files@, x),
                        forall|p: int, q: int| 0 <= p < q < new_items@.len() ==> crate::version::precedence::text_order(#[trigger] new_items@[p]@, #[trigger] new_items@[q]@) < 0,
                        forall|x: Seq<char>| has_text(new_items@, x) <==> has_text(top@.subrange(0, k as int), x) && !has_text(listing@, x),
                        forall|q: int| 0 <= q < new_items@.len() ==> has_text(top@.subrange(0, k as int), #[trigger] new_items@[q]@),
                    decreases top@.len() - k,
                {
                    let mut on: bool = false;
                    let mut j: usize = 0;
                    while j < listing.len()
                        invariant
                            j <= listing@.len(),
                            k < top@.len(),
                            on <==> exists|q: int| 0 <= q < j && (#[trigger] listing@[q])@ == top@[k as int]@,
                        decreases listing@.len() - j,
                    {
                        if same_text(listing[j].as_str(), top[k].as_str()) {
                            on = true;
                        }
                        j = j + 1;
                    }
                    let ghost before = new_items@;
                    if !on {
                        new_items.push(top[k].clone());
                    }
                    proof {
                        let sub = top@.subrange(0, k + 1);
                        assert(sub.drop_last() =~= top@.subrange(0, k as int));
                        assert(on <==> has_text(listing@, top@[k as int]@));
                        assert forall|x: Seq<char>| has_text(new_items@, x) <==> has_text(sub, x) && !has_text(listing@, x) by {
                            if has_text(sub, x) {
                                let p = choose|p: int| 0 <= p < sub.len() && (#[trigger] sub[p])@ == x;
                                if p < k {
                                    assert(top@.subrange(0, k as int)[p]@ == x);
                                    assert(has_text(top@.subrange(0, k as int), x));
                                    if !has_text(listing@, x) {
                                        assert(has_text(before, x));
                                        let q = choose|q: int| 0 <= q < before.len() && (#[trigger] before[q])@ == x;
                                        assert(new_items@[q]@ == x);
                                    }
                                } else {
                                    if !has_text(listing@, x) {
                                        assert(new_items@[new_items@.len() - 1]@ == x);
                                    }
                                }
                            }
                            if has_text(new_items@, x) {
                                let q = choose|q: int| 0 <= q < new_items@.len() && (#[trigger] new_items@[q])@ == x;
                                if q < before.len() {
                                    assert(before[q]@ == x);
                                    assert(has_text(before, x));
                                    assert(has_text(top@.subrange(0, k as int), x));
                                    let p = choose|p: int| 0 <= p < k && (#[trigger] top@.subrange(0, k as int)[p])@ == x;
                                    assert(sub[p]@ == x);
                                } else {
                                    assert(sub[k as int]@ == x);
                                }
                            }
                        }
                        assert forall|p: int, q: int| 0 <= p < q < new_items@.len() implies crate::version::precedence::text_order(
                            #[trigger] new_items@[p]@,
                            #[trigger] new_items@[q]@,
                        ) < 0 by {
                            if q == before.len() {
                                assert(has_text(top@.subrange(0, k as int), new_items@[p]@));
                                let a = choose|a: int| 0 <= a < k && (#[trigger] top@.subrange(0, k as int)[a])@ == new_items@[p]@;
                                assert(top@[a]@ == new_items@[p]@);
                                assert(crate::version::precedence::text_order(top@[a]@, top@[k as int]@) < 0);
                            } else {
                                assert(new_items@[p] == before[p] && new_items@[q] == before[q]);
                            }
                        }
                        assert forall|q: int| 0 <= q < new_items@.len() implies has_text(sub, #[trigger] new_items@[q]@) by {
                            if q < before.len() {
                                assert(new_items@[q] == before[q]);
                                let a = choose|a: int| 0 <= a < k && (#[trigger] top@.subrange(0, k as int)[a])@ == before[q]@;
                                assert(sub[a]@ == before[q]@);
                            } else {
                                assert(sub[k as int]@ == new_items@[q]@);
                            }
                        }
                    }
                    k = k + 1;
                }
                proof {
                    assert(top@.subrange(0, top@.len() as int) =~= top@);
                }
                if new_items.len() > 0 {
                    reasons.push(ReviewReason::NewItems);
                }
            }
        },
    }
    proof {
        let no_file = !distignore_exists && editable;
        if no_file {
            assert(reasons@.len() >= 1);
        }
    }
    (reasons, new_items)
}

/// The file that holds the release rules.
pub const DISTIGNORE_FILE: &'static str = ".distignore";

/// The `.distignore` text to save after the review: the confirmed text,
/// normalised, when the rules can be edited here and it differs from the
/// file as it is (or there is no file).
pub fn distignore_to_save(editable: bool, answer: Option<&str>, existing: Option<&str>) -> (r: Option<String>)
    ensures
        match answer {
            Some(a) if editable => {
                let text = normalised(a@);
                if existing matches Some(e) && e@ == text {
                    r is None
                } else {
                    r matches Some(t) && t@ == text
                }
            },
            _ => r is None,
        },
{
    if !editable {
        return None;
    }
    match answer {
        None => None,
        Some(a) => {
            let text = normalise(a);
            let same = match existing {
                Some(e) => same_text(e, text.as_str()),
                None => false,
            };
            if same {
                None
            } else {
                Some(text)
            }
        },
    }
}

/// The notice after saving `.distignore` in the folder shown as `root`.
pub open spec fn saved_notice_text(root: Seq<char>) -> Seq<char> {
    "Saved "@ + DISTIGNORE_FILE@ + " in "@ + root + ". Commit it with your plugin so every release uses the same rules."@
}

/// The notice after saving `.distignore` in the folder shown as `root`.
pub fn saved_notice(root: &str) -> (s: String)
    ensures
        s@ == saved_notice_text(root@),
{
    let mut s = "Saved ".to_owned();
    s.append(DISTIGNORE_FILE);
    s.append(" in ");
    s.append(root);
    s.append(". Commit it with your plugin so every release uses the same rules.");
    s
}

} // verus!
