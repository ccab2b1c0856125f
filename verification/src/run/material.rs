//! What the AI sees of the changes: the per-file diffs a prompt is written
//! from, and which files never reach a prompt.

use vstd::prelude::*;

use crate::plugin::{same_name, README_FILE};
use crate::strings::{
    decimal, decimal_string, ends_with, is_match_at, join, last_index, last_index_of, lower, matches_at,
    slice_chars, starts_with, to_chars, from_chars, has_prefix, index_of, trim, trim_end,
};
use crate::version::precedence::{lemma_text_order, lemma_text_order_transitive, text_order};

use super::changes::{change_view, ChangeKind, ChangeSet, ChangeSource, ChangedFile};
use crate::svn::{inclusive_lines, inclusive_lines_of, pair_texts};
use crate::verify::{join_texts, texts};

verus! {

broadcast use vstd::string::group_string_axioms;

/// At most this many files are summarised one by one when the diff is too large.
pub const MAX_SUMMARISED_FILES: usize = 25;

/// What the AI sees of the changes.
pub struct Material {
    /// One line per changed file.
    pub stat: String,
    /// Per-file diffs, most important first.
    pub diffs: Vec<(String, String)>,
    /// Changed files kept out of the prompt.
    pub withheld: Vec<String>,
}

/// The characters of every diff added up.
pub open spec fn diff_total(diffs: Seq<(String, String)>) -> nat
    decreases diffs.len(),
{
    if diffs.len() == 0 {
        0
    } else {
        diff_total(diffs.drop_last()) + diffs.last().1@.len()
    }
}

/// The diffs' texts, in order.
pub open spec fn diff_texts(diffs: Seq<(String, String)>) -> Seq<Seq<char>> {
    diffs.map_values(|d: (String, String)| d.1@)
}

proof fn lemma_diff_total_prefix(diffs: Seq<(String, String)>, i: int)
    requires
        0 <= i <= diffs.len(),
    ensures
        diff_total(diffs.take(i)) <= diff_total(diffs),
    decreases diffs.len() - i,
{
    if i < diffs.len() {
        lemma_diff_total_prefix(diffs, i + 1);
        assert(diffs.take(i + 1).drop_last() =~= diffs.take(i));
    } else {
        assert(diffs.take(i) =~= diffs);
    }
}

impl Material {
    /// Characters of diff in total.
    pub fn diff_chars(&self) -> (n: usize)
        requires
            diff_total(self.diffs@) <= usize::MAX,
        ensures
            n == diff_total(self.diffs@),
    {
        let mut n: usize = 0;
        let mut i: usize = 0;
        while i < self.diffs.len()
            invariant
                i <= self.diffs@.len(),
                diff_total(self.diffs@) <= usize::MAX,
                n == diff_total(self.diffs@.take(i as int)),
            decreases self.diffs@.len() - i,
        {
            proof {
                assert(self.diffs@.take(i + 1).drop_last() =~= self.diffs@.take(i as int));
                lemma_diff_total_prefix(self.diffs@, i + 1);
            }
            n = n + to_chars(self.diffs[i].1.as_str()).len();
            i = i + 1;
        }
        proof {
            assert(self.diffs@.take(self.diffs@.len() as int) =~= self.diffs@);
        }
        n
    }

    /// Whether the diff is longer than `budget` characters and must be
    /// summarised per file first.
    pub fn needs_summaries(&self, budget: usize) -> (b: bool)
        requires
            diff_total(self.diffs@) <= usize::MAX,
        ensures
            b == (diff_total(self.diffs@) > budget),
    {
        self.diff_chars() > budget
    }

    /// Every diff joined with newlines, for a prompt that fits the budget.
    pub fn joined(&self) -> (s: String)
        ensures
            self.diffs@.len() == 0 ==> s@ == "No text diff is available for these files."@,
            self.diffs@.len() > 0 ==> s@ == join(diff_texts(self.diffs@), "\n"@),
    {
        if self.diffs.len() == 0 {
            return "No text diff is available for these files.".to_owned();
        }
        let mut parts: Vec<String> = Vec::new();
        let mut i: usize = 0;
        while i < self.diffs.len()
            invariant
                i <= self.diffs@.len(),
                texts(parts@) == diff_texts(self.diffs@.take(i as int)),
            decreases self.diffs@.len() - i,
        {
            parts.push(self.diffs[i].1.clone());
            proof {
                assert(diff_texts(self.diffs@.take(i + 1)) =~= diff_texts(self.diffs@.take(i as int)).push(
                    self.diffs@[i as int].1@,
                ));
            }
            i = i + 1;
        }
        proof {
            assert(self.diffs@.take(self.diffs@.len() as int) =~= self.diffs@);
        }
        join_texts(parts.as_slice(), "\n")
    }
}

/// The last `/`-separated part of `path`.
pub open spec fn base_name(path: Seq<char>) -> Seq<char> {
    match last_index(path, '/') {
        Some(k) => path.skip(k + 1),
        None => path,
    }
}

/// The extension of `path` as `Path::extension` gives it: the text after the
/// last `.` of the file name, unless that `.` starts the name.
pub open spec fn extension(path: Seq<char>) -> Option<Seq<char>> {
    let name = base_name(path);
    match last_index(name, '.') {
        Some(k) => if k > 0 {
            Some(name.skip(k + 1))
        } else {
            None
        },
        None => None,
    }
}

/// Whether the extension of `path` is one of `wanted`, ignoring ASCII case.
pub open spec fn extension_in(path: Seq<char>, wanted: Seq<Seq<char>>) -> bool {
    match extension(path) {
        Some(e) => exists|k: int| 0 <= k < wanted.len() && same_name(e, #[trigger] wanted[k]),
        None => false,
    }
}

fn base_name_of(path: &[char]) -> (r: Vec<char>)
    ensures
        r@ == base_name(path@),
{
    match last_index_of(path, '/') {
        Some(k) => {
            let n = path.len();
            assert(k < n);
            let r = slice_chars(path, k + 1, n);
            assert(r@ =~= path@.skip(k + 1));
            r
        },
        None => slice_chars(path, 0, path.len()),
    }
}

fn extension_is(path: &str, wanted: &[&str]) -> (b: bool)
    ensures
        b == extension_in(path@, wanted@.map_values(|w: &str| w@)),
{
    let name = base_name_of(to_chars(path).as_slice());
    let k = match last_index_of(name.as_slice(), '.') {
        Some(k) => k,
        None => return false,
    };
    if k == 0 {
        return false;
    }
    let n = name.len();
    assert(k < n);
    let ext_chars = slice_chars(name.as_slice(), k + 1, n);
    assert(ext_chars@ =~= name@.skip(k + 1));
    let ext = from_chars(ext_chars.as_slice());
    let ghost ws = wanted@.map_values(|w: &str| w@);
    let mut i: usize = 0;
    while i < wanted.len()
        invariant
            i <= wanted@.len(),
            ws == wanted@.map_values(|w: &str| w@),
            extension(path@) == Some(ext@),
            forall|j: int| 0 <= j < i ==> !same_name(ext@, #[trigger] ws[j]),
        decreases wanted@.len() - i,
    {
        proof {
            assert(ws[i as int] == wanted@[i as int]@);
        }
        if crate::plugin::eq_ignore_case(ext.as_str(), wanted[i]) {
            return true;
        }
        i = i + 1;
    }
    false
}

/// Whether a path looks like it holds a secret: `.env*`, `*.pem`, `*.key` or
/// `wp-config.php`, by its file name, ignoring ASCII case.
pub open spec fn secret_like(path: Seq<char>) -> bool {
    let name = lower(base_name(path));
    starts_with(name, ".env"@) || extension_in(name, seq!["pem"@, "key"@]) || name == "wp-config.php"@
}

/// Files that look like secrets never reach a prompt, whatever the settings say.
pub fn looks_secret(path: &str) -> (b: bool)
    ensures
        b == secret_like(path@),
{
    let name_chars = crate::strings::to_lower(base_name_of(to_chars(path).as_slice()).as_slice());
    let name = from_chars(name_chars.as_slice());
    let env = to_chars(".env");
    if has_prefix(name_chars.as_slice(), env.as_slice()) {
        return true;
    }
    let exts = vec!["pem", "key"];
    proof {
        assert(exts@.map_values(|w: &str| w@) =~= seq!["pem"@, "key"@]);
    }
    if extension_is(name.as_str(), exts.as_slice()) {
        return true;
    }
    name == "wp-config.php".to_owned()
}

#[verifier::external_type_specification]
#[verifier::external_body]
pub struct ExGitignoreBuilder(ignore::gitignore::GitignoreBuilder);

#[verifier::external_type_specification]
#[verifier::external_body]
pub struct ExGitignore(ignore::gitignore::Gitignore);

/// The lines of the globs a builder holds (each as `add_line` stored it), in order.
pub uninterp spec fn builder_lines(b: ignore::gitignore::GitignoreBuilder) -> Seq<Seq<char>>;

/// The lines of the globs a matcher was built from, in order.
pub uninterp spec fn matcher_lines(g: ignore::gitignore::Gitignore) -> Seq<Seq<char>>;

/// Whether `GitignoreBuilder::add_line` accepts a line (a comment or blank
/// line always; otherwise when it parses as a glob).
pub uninterp spec fn gitignore_line_ok(line: Seq<char>) -> bool;

/// Whether `GitignoreBuilder::build` succeeds on the accepted lines.
pub uninterp spec fn gitignore_builds(lines: Seq<Seq<char>>) -> bool;

/// Whether a matcher built from `lines` ignores `path` (a path below the
/// matcher's root `/`) or one of its parent folders.
pub uninterp spec fn gitignore_ignores(lines: Seq<Seq<char>>, path: Seq<char>) -> bool;

/// `GitignoreBuilder::new("/")`: a builder rooted at `/` with no lines yet.
#[verifier::external_body]
fn gitignore_builder() -> (b: ignore::gitignore::GitignoreBuilder)
    ensures
        builder_lines(b) == Seq::<Seq<char>>::empty(),
{
    ignore::gitignore::GitignoreBuilder::new("/")
}

/// The glob line `GitignoreBuilder::add_line` stores for `line`: nothing
/// for a comment (`#` first) or a line that is blank once trailing white
/// space is trimmed (kept when the line ends in an escaped space `\ `);
/// else the trimmed line.
pub open spec fn stored_line(line: Seq<char>) -> Option<Seq<char>> {
    if starts_with(line, "#"@) {
        None
    } else {
        let t = if ends_with(line, "\\ "@) {
            line
        } else {
            trim_end(line)
        };
        if t.len() == 0 {
            None
        } else {
            Some(t)
        }
    }
}

/// `GitignoreBuilder::add_line(None, line)`: a comment or blank line is
/// accepted and changes nothing; any other line is stored (trimmed) when it
/// parses as a glob, and leaves the builder as it was when it does not.
#[verifier::external_body]
fn add_gitignore_line(b: &mut ignore::gitignore::GitignoreBuilder, line: &str) -> (ok: bool)
    ensures
        ok == gitignore_line_ok(line@),
        stored_line(line@) is None ==> ok,
        (match stored_line(line@) {
            Some(l) => if ok {
                builder_lines(*final(b)) == builder_lines(*old(b)).push(l)
            } else {
                builder_lines(*final(b)) == builder_lines(*old(b))
            },
            None => builder_lines(*final(b)) == builder_lines(*old(b)),
        }),
{
    b.add_line(None, line).is_ok()
}

/// `GitignoreBuilder::build`: the matcher of the accepted lines, when the
/// glob set builds.
#[verifier::external_body]
fn build_gitignore(b: &ignore::gitignore::GitignoreBuilder) -> (r: Option<ignore::gitignore::Gitignore>)
    ensures
        r is Some <==> gitignore_builds(builder_lines(*b)),
        r matches Some(g) ==> matcher_lines(g) == builder_lines(*b),
{
    b.build().ok()
}

/// `Gitignore::empty()`: the matcher with no lines.
#[verifier::external_body]
fn empty_gitignore() -> (g: ignore::gitignore::Gitignore)
    ensures
        matcher_lines(g) == Seq::<Seq<char>>::empty(),
{
    ignore::gitignore::Gitignore::empty()
}

/// `Gitignore::matched_path_or_any_parents("/" joined with path, false)
/// .is_ignore()`: whether the matcher ignores the file or a folder above it.
/// The call panics on a path that stays rooted after the matcher strips
/// its root: one that starts with three slashes, or (on Windows) a drive or
/// UNC prefix; `matchable_path` keeps all of those out.
#[verifier::external_body]
fn gitignore_match(g: &ignore::gitignore::Gitignore, path: &str) -> (b: bool)
    requires
        matchable_path(path@),
    ensures
        b == gitignore_ignores(matcher_lines(*g), path@),
{
    g.matched_path_or_any_parents(std::path::Path::new("/").join(path), false).is_ignore()
}

/// The glob lines a builder keeps from `patterns`, in order: comments and
/// blank lines add nothing, lines that do not parse are dropped.
pub open spec fn accepted_lines(patterns: Seq<Seq<char>>) -> Seq<Seq<char>>
    decreases patterns.len(),
{
    if patterns.len() == 0 {
        seq![]
    } else {
        match stored_line(patterns.last()) {
            Some(l) => if gitignore_line_ok(patterns.last()) {
                accepted_lines(patterns.drop_last()).push(l)
            } else {
                accepted_lines(patterns.drop_last())
            },
            None => accepted_lines(patterns.drop_last()),
        }
    }
}

/// A path the matcher can take: relative, `/`-separated, with no drive or
/// UNC prefix (no `:` or `\\`, and no leading `//`). A filter keeps any
/// other path out of a prompt.
pub open spec fn matchable_path(path: Seq<char>) -> bool {
    !starts_with(path, "//"@) && !path.contains(':') && !path.contains('\\')
}

/// Whether the matcher can take `path`.
pub fn is_matchable(path: &str) -> (b: bool)
    ensures
        b == matchable_path(path@),
{
    let chars = to_chars(path);
    let slashes = to_chars("//");
    proof {
        reveal_strlit("//");
    }
    let lead = has_prefix(chars.as_slice(), slashes.as_slice());
    let colon = index_of(chars.as_slice(), ':');
    let back = index_of(chars.as_slice(), '\\');
    proof {
        if colon is None {
            assert(!path@.contains(':'));
        } else {
            assert(path@.contains(':'));
        }
        if back is None {
            assert(!path@.contains('\\'));
        } else {
            assert(path@.contains('\\'));
        }
    }
    !lead && colon.is_none() && back.is_none()
}

/// The lines a filter built from `patterns` matches with: the accepted
/// ones, or none when they do not build.
pub open spec fn filter_lines(patterns: Seq<Seq<char>>) -> Seq<Seq<char>> {
    if gitignore_builds(accepted_lines(patterns)) {
        accepted_lines(patterns)
    } else {
        seq![]
    }
}

/// Whether a filter with these lines keeps `path` out of a prompt: secrets
/// and paths the matcher cannot take always, and whatever the exclude
/// patterns ignore.
pub open spec fn excluded_by(lines: Seq<Seq<char>>, path: Seq<char>) -> bool {
    secret_like(path) || !matchable_path(path) || gitignore_ignores(lines, path)
}

/// The project's AI exclude patterns.
pub struct Filter {
    rules: ignore::gitignore::Gitignore,
}

impl Filter {
    /// The lines the filter matches with.
    pub closed spec fn lines(&self) -> Seq<Seq<char>> {
        matcher_lines(self.rules)
    }

    /// Builds the matcher; invalid patterns are ignored, and patterns that
    /// do not build together exclude nothing.
    pub fn new(patterns: &[String]) -> (f: Filter)
        ensures
            f.lines() == filter_lines(texts(patterns@)),
    {
        let ghost all = texts(patterns@);
        let mut builder = gitignore_builder();
        let mut i: usize = 0;
        while i < patterns.len()
            invariant
                i <= patterns@.len(),
                all == texts(patterns@),
                builder_lines(builder) == accepted_lines(all.take(i as int)),
            decreases patterns@.len() - i,
        {
            // A malformed pattern excludes nothing rather than failing the draft.
            let _ = add_gitignore_line(&mut builder, patterns[i].as_str());
            proof {
                assert(all.take(i + 1).drop_last() =~= all.take(i as int));
                assert(all.take(i + 1).last() == patterns@[i as int]@);
            }
            i = i + 1;
        }
        proof {
            assert(all.take(patterns@.len() as int) =~= all);
        }
        let rules = match build_gitignore(&builder) {
            Some(g) => g,
            None => empty_gitignore(),
        };
        Filter { rules }
    }

    /// Whether `path` stays out of the prompt.
    pub fn excludes(&self, path: &str) -> (b: bool)
        ensures
            b == excluded_by(self.lines(), path@),
    {
        looks_secret(path) || !is_matchable(path) || gitignore_match(&self.rules, path)
    }
}

/// Readme and PHP first (0), then scripts and styles (1), then everything else (2).
pub open spec fn priority_of(path: Seq<char>) -> u8 {
    if same_name(base_name(path), README_FILE@) || extension_in(path, seq!["php"@]) {
        0
    } else if extension_in(path, seq!["js"@, "jsx"@, "ts"@, "tsx"@, "css"@, "scss"@]) {
        1
    } else {
        2
    }
}

/// Readme and PHP first, then scripts and styles, then everything else.
pub fn priority(path: &str) -> (p: u8)
    ensures
        p == priority_of(path@),
{
    let name = from_chars(base_name_of(to_chars(path).as_slice()).as_slice());
    let php = vec!["php"];
    proof {
        assert(php@.map_values(|w: &str| w@) =~= seq!["php"@]);
    }
    if crate::plugin::eq_ignore_case(name.as_str(), README_FILE) || extension_is(path, php.as_slice()) {
        return 0;
    }
    let code = vec!["js", "jsx", "ts", "tsx", "css", "scss"];
    proof {
        assert(code@.map_values(|w: &str| w@) =~= seq!["js"@, "jsx"@, "ts"@, "tsx"@, "css"@, "scss"@]);
    }
    if extension_is(path, code.as_slice()) {
        1
    } else {
        2
    }
}

/// The last position where a non-empty `p` occurs in `s`.
pub open spec fn rfind(s: Seq<char>, p: Seq<char>) -> Option<int>
    decreases s.len(),
{
    if p.len() == 0 || s.len() < p.len() {
        None
    } else if matches_at(s, p, s.len() - p.len()) {
        Some(s.len() - p.len())
    } else {
        rfind(s.drop_last(), p)
    }
}

proof fn lemma_matches_prefix(s: Seq<char>, p: Seq<char>, i: int, m: int)
    requires
        i + p.len() <= m <= s.len(),
    ensures
        matches_at(s, p, i) == matches_at(s.take(m), p, i),
{
    if 0 <= i {
        assert(s.subrange(i, i + p.len()) =~= s.take(m).subrange(i, i + p.len()));
    }
}

fn rfind_chars(s: &[char], p: &[char]) -> (r: Option<usize>)
    requires
        p@.len() > 0,
    ensures
        r matches Some(k) ==> rfind(s@, p@) == Some(k as int) && matches_at(s@, p@, k as int),
        r is None ==> rfind(s@, p@) is None,
{
    if p.len() > s.len() {
        return None;
    }
    let mut end: usize = s.len();
    proof {
        assert(s@.take(end as int) =~= s@);
    }
    while end >= p.len()
        invariant
            p@.len() > 0,
            p@.len() <= s@.len(),
            end <= s@.len(),
            rfind(s@, p@) == rfind(s@.take(end as int), p@),
        decreases end,
    {
        let start = end - p.len();
        proof {
            lemma_matches_prefix(s@, p@, start as int, end as int);
            assert(s@.take(end as int).len() == end);
        }
        if is_match_at(s, p, start) {
            return Some(start);
        }
        proof {
            assert(s@.take(end as int).drop_last() =~= s@.take(end - 1));
        }
        end = end - 1;
    }
    None
}

/// The path a `diff --git a/<x> b/<y>` line names: what follows its last ` b/`.
pub open spec fn git_diff_path(rest: Seq<char>) -> Seq<char> {
    let t = trim_end(rest);
    match rfind(t, " b/"@) {
        Some(k) => t.skip(k + 3),
        None => Seq::empty(),
    }
}

/// The index of the first file named `path`.
pub open spec fn diff_index(files: Seq<(Seq<char>, Seq<char>)>, path: Seq<char>) -> Option<int>
    decreases files.len(),
{
    if files.len() == 0 {
        None
    } else if files[0].0 == path {
        Some(0)
    } else {
        match diff_index(files.skip(1), path) {
            Some(k) => Some(k + 1),
            None => None,
        }
    }
}

proof fn lemma_diff_index_at(files: Seq<(Seq<char>, Seq<char>)>, path: Seq<char>, k: int)
    requires
        0 <= k < files.len(),
        files[k].0 == path,
        forall|j: int| 0 <= j < k ==> (#[trigger] files[j]).0 != path,
    ensures
        diff_index(files, path) == Some(k),
    decreases k,
{
    if k > 0 {
        assert forall|j: int| 0 <= j < k - 1 implies (#[trigger] files.skip(1)[j]).0 != path by {
            assert(files.skip(1)[j] == files[j + 1]);
        }
        lemma_diff_index_at(files.skip(1), path, k - 1);
    }
}

proof fn lemma_diff_index_none(files: Seq<(Seq<char>, Seq<char>)>, path: Seq<char>)
    requires
        forall|j: int| 0 <= j < files.len() ==> (#[trigger] files[j]).0 != path,
    ensures
        diff_index(files, path) is None,
    decreases files.len(),
{
    if files.len() > 0 {
        assert forall|j: int| 0 <= j < files.len() - 1 implies (#[trigger] files.skip(1)[j]).0 != path by {
            assert(files.skip(1)[j] == files[j + 1]);
        }
        lemma_diff_index_none(files.skip(1), path);
    }
}

/// `files` with `(path, diff)` put in: replacing the diff of the same path, or appended.
pub open spec fn put_diff(files: Seq<(Seq<char>, Seq<char>)>, path: Seq<char>, diff: Seq<char>) -> Seq<(Seq<char>, Seq<char>)> {
    match diff_index(files, path) {
        Some(k) => files.update(k, (path, diff)),
        None => files.push((path, diff)),
    }
}

/// The state of splitting `git diff` output after some lines: the finished
/// files, and the file being read.
pub open spec fn git_split(ls: Seq<Seq<char>>) -> (Seq<(Seq<char>, Seq<char>)>, Option<(Seq<char>, Seq<char>)>)
    decreases ls.len(),
{
    if ls.len() == 0 {
        (Seq::empty(), None)
    } else {
        let (done, current) = git_split(ls.drop_last());
        let l = ls.last();
        let (done2, current2) = if starts_with(l, "diff --git "@) {
            let done_next = match current {
                Some((p, d)) => put_diff(done, p, d),
                None => done,
            };
            (done_next, Some((git_diff_path(l.skip(11)), Seq::<char>::empty())))
        } else {
            (done, current)
        };
        match current2 {
            Some((p, d)) => (done2, Some((p, d + l))),
            None => (done2, None),
        }
    }
}

/// `git diff` output split into one diff per file, each path once.
pub open spec fn git_diffs(output: Seq<char>) -> Seq<(Seq<char>, Seq<char>)> {
    let (done, current) = git_split(inclusive_lines(output));
    match current {
        Some((p, d)) => put_diff(done, p, d),
        None => done,
    }
}

/// Whether no path has two entries in `files`.
pub open spec fn distinct_paths(files: Seq<(Seq<char>, Seq<char>)>) -> bool {
    forall|i: int, j: int| 0 <= i < j < files.len() ==> (#[trigger] files[i]).0 != (#[trigger] files[j]).0
}

fn put(files: &mut Vec<(String, String)>, path: String, diff: String)
    requires
        distinct_paths(pair_texts(old(files)@)),
    ensures
        pair_texts(final(files)@) == put_diff(pair_texts(old(files)@), path@, diff@),
        distinct_paths(pair_texts(final(files)@)),
{
    let ghost before = pair_texts(files@);
    let mut i: usize = 0;
    while i < files.len()
        invariant
            i <= files@.len(),
            files@ == old(files)@,
            before == pair_texts(files@),
            distinct_paths(before),
            forall|j: int| 0 <= j < i ==> (#[trigger] before[j]).0 != path@,
        decreases files@.len() - i,
    {
        if files[i].0 == path {
            proof {
                lemma_diff_index_at(before, path@, i as int);
            }
            files.set(i, (path, diff));
            proof {
                assert(pair_texts(files@) =~= before.update(i as int, (path@, diff@)));
                let after = pair_texts(files@);
                assert forall|a: int, c: int| 0 <= a < c < after.len() implies (#[trigger] after[a]).0 != (
                #[trigger] after[c]).0 by {
                    assert(after[a].0 == before[a].0);
                    assert(after[c].0 == before[c].0);
                }
            }
            return;
        }
        i = i + 1;
    }
    proof {
        lemma_diff_index_none(before, path@);
    }
    files.push((path, diff));
    proof {
        assert(pair_texts(files@) =~= before.push((path@, diff@)));
        let after = pair_texts(files@);
        assert forall|a: int, c: int| 0 <= a < c < after.len() implies (#[trigger] after[a]).0 != (
        #[trigger] after[c]).0 by {
            if c == before.len() {
                assert(before[a].0 != path@);
            } else {
                assert(after[a] == before[a]);
                assert(after[c] == before[c]);
            }
        }
    }
}

/// Splits `git diff` output into one diff per file, in the order the paths
/// first appear; a path that appears twice keeps its later diff, so no path
/// has two entries.
pub fn split_git_diff(output: &str) -> (files: Vec<(String, String)>)
    ensures
        pair_texts(files@) == git_diffs(output@),
        distinct_paths(pair_texts(files@)),
{
    let ls = inclusive_lines_of(to_chars(output).as_slice());
    let ghost lv = inclusive_lines(output@);
    let marker = to_chars("diff --git ");
    let b = to_chars(" b/");
    proof {
        reveal_strlit("diff --git ");
        reveal_strlit(" b/");
    }
    let mut files: Vec<(String, String)> = Vec::new();
    let mut current: Option<(String, String)> = None;
    let mut i: usize = 0;
    while i < ls.len()
        invariant
            i <= ls@.len(),
            ls@.map_values(|v: Vec<char>| v@) == lv,
            marker@ == "diff --git "@,
            marker@.len() == 11,
            b@ == " b/"@,
            b@.len() == 3,
            (pair_texts(files@), match current {
                Some((p, d)) => Some((p@, d@)),
                None => None,
            }) == git_split(lv.take(i as int)),
            distinct_paths(pair_texts(files@)),
        decreases ls@.len() - i,
    {
        proof {
            assert(lv.take(i + 1).drop_last() =~= lv.take(i as int));
            assert(lv.take(i + 1).last() == ls@[i as int]@);
        }
        let line = &ls[i];
        if has_prefix(line.as_slice(), marker.as_slice()) {
            match current {
                Some((p, d)) => put(&mut files, p, d),
                None => {},
            }
            let rest = slice_chars(line.as_slice(), 11, line.len());
            proof {
                assert(rest@ =~= line@.skip(11));
            }
            let t = crate::strings::trim_end_space(rest.as_slice());
            let path = match rfind_chars(t.as_slice(), b.as_slice()) {
                Some(k) => {
                    let n = t.len();
                    assert(k + 3 <= n);
                    let tail = slice_chars(t.as_slice(), k + 3, n);
                    assert(tail@ =~= t@.skip(k + 3));
                    from_chars(tail.as_slice())
                },
                None => String::new(),
            };
            current = Some((path, String::new()));
        }
        current = match current {
            Some((p, mut d)) => {
                d.append(from_chars(line.as_slice()).as_str());
                Some((p, d))
            },
            None => None,
        };
        i = i + 1;
    }
    proof {
        assert(lv.take(ls@.len() as int) =~= lv);
    }
    match current {
        Some((p, d)) => put(&mut files, p, d),
        None => {},
    }
    files
}

/// A stat line: what happened to the file, and its path.
pub open spec fn stat_text(kind: ChangeKind, path: Seq<char>) -> Seq<char> {
    (match kind {
        ChangeKind::Added => "added"@,
        ChangeKind::Modified => "modified"@,
        ChangeKind::Deleted => "deleted"@,
    }) + ": "@ + path
}

fn stat_line(kind: ChangeKind, path: &str) -> (s: String)
    ensures
        s@ == stat_text(kind, path@),
{
    let mut s = match kind {
        ChangeKind::Added => "added".to_owned(),
        ChangeKind::Modified => "modified".to_owned(),
        ChangeKind::Deleted => "deleted".to_owned(),
    };
    s.append(": ");
    s.append(path);
    s
}

/// The stat line that counts the withheld files.
pub open spec fn withheld_text(n: nat) -> Seq<char> {
    "("@ + decimal(n) + " file(s) withheld from the AI by the exclude patterns)"@
}

/// The first `n` characters of `text` (all of it when it is shorter).
pub open spec fn first_chars(text: Seq<char>, n: nat) -> Seq<char> {
    if text.len() <= n {
        text
    } else {
        text.take(n as int)
    }
}

/// The diff text `diffs` holds for `path` (the first pair with that path).
pub open spec fn diff_for(diffs: Seq<(Seq<char>, Seq<char>)>, path: Seq<char>) -> Option<Seq<char>>
    decreases diffs.len(),
{
    if diffs.len() == 0 {
        None
    } else if diffs[0].0 == path {
        Some(diffs[0].1)
    } else {
        diff_for(diffs.skip(1), path)
    }
}

/// Whether the file at `i` is the first in `order` with its path.
pub open spec fn first_with_path(order: Seq<(Seq<char>, ChangeKind)>, i: int) -> bool {
    forall|j: int| 0 <= j < i ==> (#[trigger] order[j]).0 != order[i].0
}

/// The stat lines, diffs and withheld paths of the first `k` files of
/// `order`: a file the filter excludes is withheld; any other gets a stat
/// line, and its diff (cut to `budget` characters) unless it has none, the
/// diff is blank, or an earlier file had the same path.
pub open spec fn material_parts(
    order: Seq<(Seq<char>, ChangeKind)>,
    lines: Seq<Seq<char>>,
    diffs: Seq<(Seq<char>, Seq<char>)>,
    budget: nat,
    k: int,
) -> (Seq<Seq<char>>, Seq<(Seq<char>, Seq<char>)>, Seq<Seq<char>>)
    decreases k,
{
    if k <= 0 {
        (seq![], seq![], seq![])
    } else {
        let (stat, kept, withheld) = material_parts(order, lines, diffs, budget, k - 1);
        let (path, kind) = order[k - 1];
        if excluded_by(lines, path) {
            (stat, kept, withheld.push(path))
        } else {
            (
                stat.push(stat_text(kind, path)),
                match diff_for(diffs, path) {
                    Some(d) => if first_with_path(order, k - 1) && trim(d).len() > 0 {
                        kept.push((path, first_chars(d, budget)))
                    } else {
                        kept
                    },
                    None => kept,
                },
                withheld,
            )
        }
    }
}

/// The material from files in their final order: the stat (one line per
/// file sent, then a count of the withheld ones, if any, joined by
/// newlines), the diffs sent, and the withheld paths.
pub open spec fn material_spec(
    order: Seq<(Seq<char>, ChangeKind)>,
    lines: Seq<Seq<char>>,
    diffs: Seq<(Seq<char>, Seq<char>)>,
    budget: nat,
) -> (Seq<char>, Seq<(Seq<char>, Seq<char>)>, Seq<Seq<char>>) {
    let (stat, kept, withheld) = material_parts(order, lines, diffs, budget, order.len() as int);
    (
        join(
            if withheld.len() > 0 {
                stat.push(withheld_text(withheld.len()))
            } else {
                stat
            },
            "\n"@,
        ),
        kept,
        withheld,
    )
}

/// A material's plain values.
pub open spec fn material_view(m: Material) -> (Seq<char>, Seq<(Seq<char>, Seq<char>)>, Seq<Seq<char>>) {
    (m.stat@, pair_texts(m.diffs@), texts(m.withheld@))
}

/// Whether files come readme and PHP first, then scripts and styles, then
/// the rest, each group by path.
pub open spec fn by_priority(order: Seq<(Seq<char>, ChangeKind)>) -> bool {
    forall|i: int, j: int| 0 <= i < j < order.len() ==> key_le(#[trigger] order[i], #[trigger] order[j])
}

/// Whether `a` may come before `b`: lower priority number, then path order.
pub open spec fn key_le(a: (Seq<char>, ChangeKind), b: (Seq<char>, ChangeKind)) -> bool {
    priority_of(a.0) < priority_of(b.0) || (priority_of(a.0) == priority_of(b.0) && text_order(a.0, b.0) <= 0)
}

/// Whether `a` must come before `b`.
pub open spec fn key_lt(a: (Seq<char>, ChangeKind), b: (Seq<char>, ChangeKind)) -> bool {
    priority_of(a.0) < priority_of(b.0) || (priority_of(a.0) == priority_of(b.0) && text_order(a.0, b.0) < 0)
}

proof fn lemma_key_order(a: (Seq<char>, ChangeKind), b: (Seq<char>, ChangeKind), c: (Seq<char>, ChangeKind))
    ensures
        !key_lt(a, b) ==> key_le(b, a),
        key_lt(a, b) && key_le(b, c) ==> key_lt(a, c),
{
    lemma_text_order(a.0, b.0);
    lemma_text_order(b.0, c.0);
    if text_order(a.0, b.0) <= 0 && text_order(b.0, c.0) <= 0 {
        lemma_text_order_transitive(a.0, b.0, c.0);
    }
}

/// The changed files, readme and PHP first, then scripts and styles, then
/// the rest, each group by path.
fn prioritised(files: &[ChangedFile]) -> (r: Vec<ChangedFile>)
    ensures
        by_priority(r@.map_values(|f: ChangedFile| change_view(f))),
        r@.map_values(|f: ChangedFile| change_view(f)).to_multiset() == files@.map_values(
            |f: ChangedFile| change_view(f),
        ).to_multiset(),
{
    broadcast use {vstd::seq_lib::group_to_multiset_ensures, vstd::multiset::group_multiset_axioms};

    let ghost all = files@.map_values(|f: ChangedFile| change_view(f));
    let mut out: Vec<ChangedFile> = Vec::new();
    let mut keys: Vec<u8> = Vec::new();
    let mut i: usize = 0;
    proof {
        assert(out@.map_values(|f: ChangedFile| change_view(f)).to_multiset() =~= vstd::multiset::Multiset::empty());
        assert(all.take(0) =~= Seq::<(Seq<char>, ChangeKind)>::empty());
    }
    while i < files.len()
        invariant
            i <= files@.len(),
            all == files@.map_values(|f: ChangedFile| change_view(f)),
            keys@.len() == out@.len(),
            forall|k: int| 0 <= k < out@.len() ==> #[trigger] keys@[k] == priority_of(out@[k].path@),
            by_priority(out@.map_values(|f: ChangedFile| change_view(f))),
            out@.map_values(|f: ChangedFile| change_view(f)).to_multiset() == all.take(i as int).to_multiset(),
        decreases files@.len() - i,
    {
        let x = ChangedFile { path: files[i].path.clone(), kind: files[i].kind };
        let xk = priority(x.path.as_str());
        let ghost xv = change_view(x);
        proof {
            assert(xv == all[i as int]);
        }
        let ghost ov = out@.map_values(|f: ChangedFile| change_view(f));
        let mut p: usize = 0;
        while p < out.len()
            invariant
                p <= out@.len(),
                keys@.len() == out@.len(),
                forall|k: int| 0 <= k < out@.len() ==> #[trigger] keys@[k] == priority_of(out@[k].path@),
                ov == out@.map_values(|f: ChangedFile| change_view(f)),
                xk == priority_of(x.path@),
                xv == change_view(x),
                forall|k: int| 0 <= k < p ==> key_le(#[trigger] ov[k], xv),
            ensures
                p <= out@.len(),
                forall|k: int| 0 <= k < p ==> key_le(#[trigger] ov[k], xv),
                p < out@.len() ==> key_lt(xv, ov[p as int]),
            decreases out@.len() - p,
        {
            let kp = keys[p];
            proof {
                assert(kp == priority_of(ov[p as int].0));
            }
            if xk < kp || (xk == kp && crate::sorting::compare_text(x.path.as_str(), out[p].path.as_str()) < 0) {
                break;
            }
            proof {
                lemma_key_order(xv, ov[p as int], xv);
            }
            p = p + 1;
        }
        proof {
            if p < out@.len() {
                assert forall|k: int| p <= k < ov.len() implies key_lt(xv, #[trigger] ov[k]) by {
                    if k > p {
                        lemma_key_order(xv, ov[p as int], ov[k]);
                    }
                }
            }
        }
        let ghost before = out@;
        out.insert(p, x);
        keys.insert(p, xk);
        proof {
            let s2 = out@.map_values(|f: ChangedFile| change_view(f));
            assert(s2 =~= ov.insert(p as int, xv));
            vstd::seq_lib::to_multiset_insert(ov, p as int, xv);
            assert(all.take(i + 1) =~= all.take(i as int).insert(i as int, xv));
            vstd::seq_lib::to_multiset_insert(all.take(i as int), i as int, xv);
            assert forall|k: int| 0 <= k < out@.len() implies #[trigger] keys@[k] == priority_of(out@[k].path@) by {
                if k < p {
                    assert(out@[k] == before[k]);
                } else if k > p {
                    assert(out@[k] == before[k - 1]);
                }
            }
            assert forall|a: int, b: int| 0 <= a < b < s2.len() implies key_le(#[trigger] s2[a], #[trigger] s2[b]) by {
                if b < p {
                    assert(s2[a] == ov[a] && s2[b] == ov[b]);
                } else if b == p {
                    assert(s2[a] == ov[a]);
                } else if a == p {
                    assert(s2[b] == ov[b - 1]);
                    lemma_key_order(xv, ov[b - 1], xv);
                } else if a < p {
                    assert(s2[a] == ov[a] && s2[b] == ov[b - 1]);
                } else {
                    assert(s2[a] == ov[a - 1] && s2[b] == ov[b - 1]);
                }
            }
        }
        i = i + 1;
    }
    proof {
        assert(all.take(files@.len() as int) =~= all);
    }
    out
}

fn diff_text_for(diffs: &[(String, String)], path: &str) -> (r: Option<String>)
    ensures
        crate::tools::opt_view(r) == diff_for(pair_texts(diffs@), path@),
{
    let ghost dv = pair_texts(diffs@);
    let mut i: usize = 0;
    proof {
        assert(dv.skip(0) =~= dv);
    }
    while i < diffs.len()
        invariant
            i <= diffs@.len(),
            dv == pair_texts(diffs@),
            diff_for(dv, path@) == diff_for(dv.skip(i as int), path@),
        decreases diffs@.len() - i,
    {
        proof {
            assert(dv.skip(i as int)[0] == dv[i as int]);
            assert(dv.skip(i as int).skip(1) =~= dv.skip(i + 1));
        }
        if crate::sorting::same_text(diffs[i].0.as_str(), path) {
            return Some(diffs[i].1.clone());
        }
        i = i + 1;
    }
    None
}

/// The first `budget` characters of `text`.
pub fn cut_text(text: &str, budget: usize) -> (r: String)
    ensures
        r@ == first_chars(text@, budget as nat),
{
    let chars = to_chars(text);
    if chars.len() <= budget {
        text.to_owned()
    } else {
        let head = slice_chars(chars.as_slice(), 0, budget);
        proof {
            assert(head@ =~= text@.take(budget as int));
        }
        from_chars(head.as_slice())
    }
}

fn seen_before(order: &[ChangedFile], i: usize) -> (b: bool)
    requires
        i < order@.len(),
    ensures
        b == !first_with_path(order@.map_values(|f: ChangedFile| change_view(f)), i as int),
{
    let ghost ov = order@.map_values(|f: ChangedFile| change_view(f));
    let mut j: usize = 0;
    while j < i
        invariant
            j <= i,
            i < order@.len(),
            ov == order@.map_values(|f: ChangedFile| change_view(f)),
            forall|k: int| 0 <= k < j ==> (#[trigger] ov[k]).0 != ov[i as int].0,
        decreases i - j,
    {
        if crate::sorting::same_text(order[j].path.as_str(), order[i].path.as_str()) {
            proof {
                assert(ov[j as int].0 == ov[i as int].0);
            }
            return true;
        }
        j = j + 1;
    }
    false
}

/// The material from files already in their final order: excluded files
/// are withheld, the others get a stat line and their diff, cut to
/// `budget` characters.
pub fn material_from(order: &[ChangedFile], filter: &Filter, diffs: &[(String, String)], budget: usize) -> (m: Material)
    ensures
        material_view(m) == material_spec(
            order@.map_values(|f: ChangedFile| change_view(f)),
            filter.lines(),
            pair_texts(diffs@),
            budget as nat,
        ),
{
    let ghost ov = order@.map_values(|f: ChangedFile| change_view(f));
    let ghost dv = pair_texts(diffs@);
    let mut stat: Vec<String> = Vec::new();
    let mut kept: Vec<(String, String)> = Vec::new();
    let mut withheld: Vec<String> = Vec::new();
    let mut i: usize = 0;
    while i < order.len()
        invariant
            i <= order@.len(),
            ov == order@.map_values(|f: ChangedFile| change_view(f)),
            dv == pair_texts(diffs@),
            (texts(stat@), pair_texts(kept@), texts(withheld@)) == material_parts(
                ov,
                filter.lines(),
                dv,
                budget as nat,
                i as int,
            ),
        decreases order@.len() - i,
    {
        let file = &order[i];
        proof {
            assert(ov[i as int] == (file.path@, file.kind));
        }
        let ghost st0 = stat@;
        let ghost kp0 = kept@;
        let ghost wh0 = withheld@;
        if filter.excludes(file.path.as_str()) {
            withheld.push(file.path.clone());
            proof {
                assert(texts(withheld@) =~= texts(wh0).push(file.path@));
            }
        } else {
            stat.push(stat_line(file.kind, file.path.as_str()));
            proof {
                assert(texts(stat@) =~= texts(st0).push(stat_text(file.kind, file.path@)));
            }
            match diff_text_for(diffs, file.path.as_str()) {
                Some(d) => {
                    let blank = crate::strings::trim_space(to_chars(d.as_str()).as_slice()).len() == 0;
                    if !seen_before(order, i) && !blank {
                        kept.push((file.path.clone(), cut_text(d.as_str(), budget)));
                        proof {
                            assert(pair_texts(kept@) =~= pair_texts(kp0).push((file.path@, first_chars(d@, budget as nat))));
                        }
                    }
                },
                None => {},
            }
        }
        i = i + 1;
    }
    let ghost st = texts(stat@);
    let mut lines = stat;
    if withheld.len() > 0 {
        let mut note = "(".to_owned();
        note.append(decimal_string(withheld.len() as u64).as_str());
        note.append(" file(s) withheld from the AI by the exclude patterns)");
        lines.push(note);
        proof {
            assert(texts(lines@) =~= st.push(withheld_text(texts(withheld@).len())));
        }
    }
    proof {
        assert(texts(withheld@).len() == withheld@.len());
    }
    Material { stat: join_texts(lines.as_slice(), "\n"), diffs: kept, withheld }
}

/// Whether a material is the one its files, in some order readme and PHP
/// first, then scripts and styles, then the rest (each group by path),
/// give with these diffs.
pub open spec fn finished(
    m: Material,
    files: Seq<ChangedFile>,
    lines: Seq<Seq<char>>,
    diffs: Seq<(Seq<char>, Seq<char>)>,
    budget: nat,
) -> bool {
    exists|o: Seq<(Seq<char>, ChangeKind)>|
        o.to_multiset() == files.map_values(|f: ChangedFile| change_view(f)).to_multiset() && by_priority(o)
            && material_view(m) == material_spec(o, lines, diffs, budget)
}

/// Sorts by priority, filters, and cuts each diff to `budget` characters.
fn finish(changes: &ChangeSet, filter: &Filter, diffs: &[(String, String)], budget: usize) -> (m: Material)
    ensures
        finished(m, changes.files@, filter.lines(), pair_texts(diffs@), budget as nat),
{
    broadcast use vstd::seq_lib::group_to_multiset_ensures;

    let order = prioritised(changes.files.as_slice());
    let ghost ov = order@.map_values(|f: ChangedFile| change_view(f));
    let ghost fv = changes.files@.map_values(|f: ChangedFile| change_view(f));
    let m = material_from(order.as_slice(), filter, diffs, budget);
    proof {
        assert(ov.to_multiset() == fv.to_multiset());
        assert(by_priority(ov));
    }
    m
}

/// The diffs with the added files git's diff lacks: for each added file
/// among the first `k` that the filter keeps and whose text could be read
/// (and holds no NUL), its whole text as a diff against nothing.
pub open spec fn with_new_files(
    diffs: Seq<(Seq<char>, Seq<char>)>,
    files: Seq<(Seq<char>, ChangeKind)>,
    lines: Seq<Seq<char>>,
    added: Seq<(Seq<char>, Seq<char>)>,
    k: int,
) -> Seq<(Seq<char>, Seq<char>)>
    decreases k,
{
    if k <= 0 {
        diffs
    } else {
        let d = with_new_files(diffs, files, lines, added, k - 1);
        let (path, kind) = files[k - 1];
        match diff_for(added, path) {
            Some(t) => if kind == ChangeKind::Added && diff_for(d, path) is None && !excluded_by(lines, path)
                && !t.contains('\0') {
                put_diff(d, path, crate::run::steps::unified_diff_text(path, ""@, t))
            } else {
                d
            },
            None => d,
        }
    }
}

/// The material from git: `output` is `git diff -M` against the base tag;
/// `added` holds the texts of added files that could be read, by path.
pub fn from_git(output: &str, changes: &ChangeSet, filter: &Filter, added: &[(String, String)], budget: usize) -> (m:
    Material)
    ensures
        finished(
            m,
            changes.files@,
            filter.lines(),
            with_new_files(
                git_diffs(output@),
                changes.files@.map_values(|f: ChangedFile| change_view(f)),
                filter.lines(),
                pair_texts(added@),
                changes.files@.len() as int,
            ),
            budget as nat,
        ),
{
    let mut diffs = split_git_diff(output);
    let ghost fv = changes.files@.map_values(|f: ChangedFile| change_view(f));
    let ghost av = pair_texts(added@);
    let mut i: usize = 0;
    while i < changes.files.len()
        invariant
            i <= changes.files@.len(),
            fv == changes.files@.map_values(|f: ChangedFile| change_view(f)),
            av == pair_texts(added@),
            pair_texts(diffs@) == with_new_files(git_diffs(output@), fv, filter.lines(), av, i as int),
            distinct_paths(pair_texts(diffs@)),
        decreases changes.files@.len() - i,
    {
        let file = &changes.files[i];
        proof {
            assert(fv[i as int] == (file.path@, file.kind));
        }
        match diff_text_for(added, file.path.as_str()) {
            Some(text) => {
                if file.kind == ChangeKind::Added && diff_text_for(diffs.as_slice(), file.path.as_str()).is_none()
                    && !filter.excludes(file.path.as_str()) && index_of(to_chars(text.as_str()).as_slice(), '\0').is_none() {
                    let d = crate::run::steps::unified_diff(file.path.as_str(), "", text.as_str());
                    put(&mut diffs, file.path.clone(), d);
                }
            },
            None => {},
        }
        i = i + 1;
    }
    finish(changes, filter, diffs.as_slice(), budget)
}

/// The text a side holds for a path, unless it could not be read or holds a NUL.
pub open spec fn readable(texts: Seq<(Seq<char>, Seq<char>)>, path: Seq<char>) -> Option<Seq<char>> {
    match diff_for(texts, path) {
        Some(t) => if t.contains('\0') {
            None
        } else {
            Some(t)
        },
        None => None,
    }
}

/// The diffs from comparing the package root with trunk, over the first `k`
/// files: each file the filter keeps is diffed from its trunk text (empty
/// when added) to its package text (empty when deleted), when both can be
/// read; a later file with the same path replaces the diff.
pub open spec fn trunk_diffs(
    files: Seq<(Seq<char>, ChangeKind)>,
    lines: Seq<Seq<char>>,
    trunk: Seq<(Seq<char>, Seq<char>)>,
    package: Seq<(Seq<char>, Seq<char>)>,
    k: int,
) -> Seq<(Seq<char>, Seq<char>)>
    decreases k,
{
    if k <= 0 {
        seq![]
    } else {
        let d = trunk_diffs(files, lines, trunk, package, k - 1);
        let (path, kind) = files[k - 1];
        let before = if kind == ChangeKind::Added {
            Some(Seq::<char>::empty())
        } else {
            readable(trunk, path)
        };
        let after = if kind == ChangeKind::Deleted {
            Some(Seq::<char>::empty())
        } else {
            readable(package, path)
        };
        if excluded_by(lines, path) {
            d
        } else {
            match (before, after) {
                (Some(b), Some(a)) => put_diff(d, path, crate::run::steps::unified_diff_text(path, b, a)),
                _ => d,
            }
        }
    }
}

fn readable_text(texts: &[(String, String)], path: &str) -> (r: Option<String>)
    ensures
        crate::tools::opt_view(r) == readable(pair_texts(texts@), path@),
{
    match diff_text_for(texts, path) {
        Some(t) => {
            if index_of(to_chars(t.as_str()).as_slice(), '\0').is_none() {
                Some(t)
            } else {
                None
            }
        },
        None => None,
    }
}

/// The material from comparing the package root with the trunk working
/// copy: `trunk` and `package` hold the texts of the changed files that
/// could be read on each side, by path. With an unknown change set there
/// are no diffs.
pub fn from_trunk(
    changes: &ChangeSet,
    filter: &Filter,
    trunk: &[(String, String)],
    package: &[(String, String)],
    budget: usize,
) -> (m: Material)
    ensures
        finished(
            m,
            changes.files@,
            filter.lines(),
            if changes.source == ChangeSource::Unknown {
                seq![]
            } else {
                trunk_diffs(
                    changes.files@.map_values(|f: ChangedFile| change_view(f)),
                    filter.lines(),
                    pair_texts(trunk@),
                    pair_texts(package@),
                    changes.files@.len() as int,
                )
            },
            budget as nat,
        ),
{
    let mut diffs: Vec<(String, String)> = Vec::new();
    let ghost fv = changes.files@.map_values(|f: ChangedFile| change_view(f));
    proof {
        assert(pair_texts(diffs@) =~= Seq::<(Seq<char>, Seq<char>)>::empty());
    }
    if changes.source != ChangeSource::Unknown {
        let mut i: usize = 0;
        while i < changes.files.len()
            invariant
                i <= changes.files@.len(),
                fv == changes.files@.map_values(|f: ChangedFile| change_view(f)),
                    pair_texts(diffs@) == trunk_diffs(fv, filter.lines(), pair_texts(trunk@), pair_texts(package@), i as int),
                distinct_paths(pair_texts(diffs@)),
            decreases changes.files@.len() - i,
        {
            let file = &changes.files[i];
            proof {
                assert(fv[i as int] == (file.path@, file.kind));
            }
            if !filter.excludes(file.path.as_str()) {
                let before = if file.kind == ChangeKind::Added {
                    Some(String::new())
                } else {
                    readable_text(trunk, file.path.as_str())
                };
                let after = if file.kind == ChangeKind::Deleted {
                    Some(String::new())
                } else {
                    readable_text(package, file.path.as_str())
                };
                match (before, after) {
                    (Some(b), Some(a)) => {
                        let d = crate::run::steps::unified_diff(file.path.as_str(), b.as_str(), a.as_str());
                        put(&mut diffs, file.path.clone(), d);
                    },
                    _ => {},
                }
            }
            i = i + 1;
        }
    }
    finish(changes, filter, diffs.as_slice(), budget)
}

/// Files that look like secrets never reach a prompt, whatever the exclude
/// patterns say: every filter excludes them.
pub proof fn lemma_secrets_always_excluded(lines: Seq<Seq<char>>, path: Seq<char>)
    requires
        secret_like(path),
    ensures
        excluded_by(lines, path),
{
}

/// What the material sends never names an excluded file (so never a
/// secret), every diff it sends is cut to the budget, and every excluded
/// file is counted among the withheld.
pub proof fn lemma_material_respects_the_filter(
    order: Seq<(Seq<char>, ChangeKind)>,
    lines: Seq<Seq<char>>,
    diffs: Seq<(Seq<char>, Seq<char>)>,
    budget: nat,
    k: int,
)
    requires
        0 <= k <= order.len(),
    ensures
        ({
            let (stat, kept, withheld) = material_parts(order, lines, diffs, budget, k);
            &&& forall|i: int| 0 <= i < kept.len() ==> !excluded_by(lines, (#[trigger] kept[i]).0)
            &&& forall|i: int| 0 <= i < kept.len() ==> (#[trigger] kept[i]).1.len() <= budget
            &&& forall|i: int| 0 <= i < withheld.len() ==> excluded_by(lines, #[trigger] withheld[i])
            &&& forall|j: int| 0 <= j < k && excluded_by(lines, (#[trigger] order[j]).0) ==> withheld.contains(order[j].0)
        }),
    decreases k,
{
    if k > 0 {
        lemma_material_respects_the_filter(order, lines, diffs, budget, k - 1);
        let (stat, kept, withheld) = material_parts(order, lines, diffs, budget, k - 1);
        let (path, kind) = order[k - 1];
        if excluded_by(lines, path) {
            let w2 = withheld.push(path);
            assert(w2[w2.len() - 1] == path);
            assert forall|j: int| 0 <= j < k && excluded_by(lines, (#[trigger] order[j]).0) implies w2.contains(
                order[j].0,
            ) by {
                if j < k - 1 {
                    assert(withheld.contains(order[j].0));
                    let x = choose|x: int| 0 <= x < withheld.len() && withheld[x] == order[j].0;
                    assert(w2[x] == order[j].0);
                } else {
                    assert(w2[w2.len() - 1] == order[j].0);
                }
            }
        } else {
            match diff_for(diffs, path) {
                Some(d) => {
                    if first_with_path(order, k - 1) && trim(d).len() > 0 {
                        let k2 = kept.push((path, first_chars(d, budget)));
                        assert(k2[k2.len() - 1].1.len() <= budget);
                    }
                },
                None => {},
            }
        }
    }
}

} // verus!
