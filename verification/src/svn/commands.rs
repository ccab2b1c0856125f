//! The `svn` command lines the engine runs, and what it reads back from
//! `svn info`, `list`, `commit` and `copy`, and from each try at verifying a
//! tag. Running `svn` is the app's.

use vstd::prelude::*;

use crate::strings::{
    decimal, decimal_string, from_chars, has_suffix, lines, lines_of, to_chars, trim, trim_end_char, trim_end_of,
    trim_space,
};
use crate::sorting::same_text;
use crate::verify::texts;

use super::{committed_revision, join_url, join_url_spec, last_revision, message_of, SvnError, TagVerification};

verus! {

broadcast use vstd::string::group_string_axioms;

/// How many paths one `svn` call names at most.
pub const TARGETS_PER_CALL: usize = 100;

/// What every command that talks to the server gets: a 60 s HTTP timeout,
/// no cached credentials, and, with credentials, the username while the
/// password is read from stdin.
pub open spec fn network_tail(username: Option<Seq<char>>) -> Seq<Seq<char>> {
    seq!["--config-option"@, "servers:global:http-timeout=60"@, "--no-auth-cache"@] + match username {
        Some(u) => seq!["--username"@, u, "--password-from-stdin"@],
        None => seq![],
    }
}

fn push_str(v: &mut Vec<String>, s: &str)
    ensures
        texts(final(v)@) == texts(old(v)@).push(s@),
{
    let ghost before = v@;
    v.push(s.to_owned());
    proof {
        assert(texts(v@) =~= texts(before).push(s@));
    }
}

/// The folders kept at full depth in the sparse working copy; `tags/` and
/// `branches/` stay empty.
pub open spec fn deep_folder_names() -> Seq<Seq<char>> {
    seq!["trunk"@, "assets"@]
}

/// The folders kept at full depth in the sparse working copy.
pub fn deep_folders() -> (r: Vec<&'static str>)
    ensures
        r@.map_values(|f: &str| f@) == deep_folder_names(),
{
    let r = vec!["trunk", "assets"];
    proof {
        assert(r@.map_values(|f: &str| f@) =~= deep_folder_names());
    }
    r
}

/// The arguments of a command that talks to the server.
pub fn network_args(args: Vec<String>, username: Option<&str>) -> (r: Vec<String>)
    ensures
        texts(r@) == texts(args@) + network_tail(match username {
            Some(u) => Some(u@),
            None => None,
        }),
{
    let mut r = args;
    let ghost start = texts(r@);
    push_str(&mut r, "--config-option");
    push_str(&mut r, "servers:global:http-timeout=60");
    push_str(&mut r, "--no-auth-cache");
    match username {
        Some(u) => {
            push_str(&mut r, "--username");
            push_str(&mut r, u);
            push_str(&mut r, "--password-from-stdin");
        },
        None => {},
    }
    proof {
        assert(texts(r@) =~= start + network_tail(match username {
            Some(u) => Some(u@),
            None => None,
        }));
    }
    r
}

/// The command a failure is reported under (the first argument), and the
/// final arguments: `svn` never prompts.
pub fn command_line(args: Vec<String>) -> (r: (String, Vec<String>))
    ensures
        r.0@ == (if args@.len() > 0 {
            args@[0]@
        } else {
            Seq::empty()
        }),
        texts(r.1@) == texts(args@).push("--non-interactive"@),
{
    let command = if args.len() > 0 {
        args[0].clone()
    } else {
        String::new()
    };
    let mut all = args;
    push_str(&mut all, "--non-interactive");
    (command, all)
}

/// The `k`-th call of a batched command: the command's words, then at most
/// a hundred of the paths.
pub open spec fn batch(command: Seq<Seq<char>>, paths: Seq<Seq<char>>, k: int) -> Seq<Seq<char>> {
    let start = k * 100;
    let end = if start + 100 < paths.len() {
        start + 100
    } else {
        paths.len() as int
    };
    command + paths.subrange(start, end)
}

/// A command over many paths, split into calls of at most a hundred paths.
pub fn batches(command: &[&str], paths: &[String]) -> (r: Vec<Vec<String>>)
    ensures
        r@.len() == (paths@.len() + 99) / 100,
        forall|k: int|
            0 <= k < r@.len() ==> texts((#[trigger] r@[k])@) == batch(
                command@.map_values(|c: &str| c@),
                texts(paths@),
                k,
            ),
{
    let ghost words = command@.map_values(|c: &str| c@);
    let len = paths.len();
    let mut r: Vec<Vec<String>> = Vec::new();
    let mut start: usize = 0;
    let mut more = len > 0;
    while more
        invariant
            len == paths@.len(),
            words == command@.map_values(|c: &str| c@),
            more ==> start == r@.len() * 100 && start < len,
            !more ==> (len == 0 && r@.len() == 0) || (r@.len() >= 1 && (r@.len() - 1) * 100 < len && len
                <= r@.len() * 100),
            forall|k: int| 0 <= k < r@.len() ==> texts((#[trigger] r@[k])@) == batch(words, texts(paths@), k),
        decreases len - start + (if more { 1int } else { 0int }),
    {
        let mut call: Vec<String> = Vec::new();
        let mut w: usize = 0;
        while w < command.len()
            invariant
                w <= command@.len(),
                texts(call@) == words.subrange(0, w as int),
                words == command@.map_values(|c: &str| c@),
            decreases command@.len() - w,
        {
            push_str(&mut call, command[w]);
            proof {
                assert(words.subrange(0, w + 1) =~= words.subrange(0, w as int).push(command@[w as int]@));
            }
            w = w + 1;
        }
        let end = if len - start > 100 {
            start + 100
        } else {
            len
        };
        let mut i: usize = start;
        while i < end
            invariant
                start <= i <= end,
                end <= paths@.len(),
                texts(call@) == words + texts(paths@).subrange(start as int, i as int),
            decreases end - i,
        {
            push_str(&mut call, paths[i].as_str());
            proof {
                assert(texts(paths@).subrange(start as int, i + 1) =~= texts(paths@).subrange(start as int, i as int).push(
                    paths@[i as int]@,
                ));
            }
            i = i + 1;
        }
        proof {
            assert(words.subrange(0, words.len() as int) =~= words);
            let k = r@.len() as int;
            assert(texts(call@) =~= batch(words, texts(paths@), k));
        }
        let ghost before = r@;
        r.push(call);
        proof {
            assert forall|k: int| 0 <= k < r@.len() implies texts((#[trigger] r@[k])@) == batch(words, texts(paths@), k) by {
                if k < before.len() {
                    assert(r@[k] == before[k]);
                }
            }
        }
        if end == len {
            more = false;
        } else {
            start = end;
        }
    }
    proof {
        let n = r@.len() as int;
        let l = len as int;
        if l > 0 {
            assert((n - 1) * 100 < l && l <= n * 100);
            assert(n == (l + 99) / 100) by (nonlinear_arith)
                requires
                    (n - 1) * 100 < l,
                    l <= n * 100,
            ;
        }
    }
    r
}

/// Whether `svn info --show-item url` output names `url`: trailing slashes
/// do not count.
pub open spec fn same_repository(info: Seq<char>, url: Seq<char>) -> bool {
    trim_end_char(trim(info), '/') == trim_end_char(url, '/')
}

/// Whether an existing working copy (its `svn info` output) checks out `url`.
pub fn is_same_repository(info: &str, url: &str) -> (b: bool)
    ensures
        b == same_repository(info@, url@),
{
    let found = trim_end_of(trim_space(to_chars(info).as_slice()).as_slice(), '/');
    let wanted = trim_end_of(to_chars(url).as_slice(), '/');
    let a = from_chars(found.as_slice());
    let b = from_chars(wanted.as_slice());
    same_text(a.as_str(), b.as_str())
}

/// The non-blank lines of `svn list` output, trimmed.
pub open spec fn listed(ls: Seq<Seq<char>>) -> Seq<Seq<char>>
    decreases ls.len(),
{
    if ls.len() == 0 {
        seq![]
    } else if trim(ls.last()).len() == 0 {
        listed(ls.drop_last())
    } else {
        listed(ls.drop_last()).push(trim(ls.last()))
    }
}

/// The entries `svn list` printed.
pub fn listing(stdout: &str) -> (r: Vec<String>)
    ensures
        texts(r@) == listed(lines(stdout@)),
{
    let ls = lines_of(to_chars(stdout).as_slice());
    let ghost lv = lines(stdout@);
    let mut r: Vec<String> = Vec::new();
    let mut i: usize = 0;
    while i < ls.len()
        invariant
            i <= ls@.len(),
            ls@.len() == lv.len(),
            forall|j: int| 0 <= j < ls@.len() ==> #[trigger] ls@[j]@ == lv[j],
            texts(r@) == listed(lv.subrange(0, i as int)),
        decreases ls@.len() - i,
    {
        proof {
            let sub = lv.subrange(0, i + 1);
            assert(sub.drop_last() =~= lv.subrange(0, i as int));
            assert(sub.last() == ls@[i as int]@);
        }
        let t = trim_space(ls[i].as_slice());
        if t.len() > 0 {
            let ghost before = r@;
            r.push(from_chars(t.as_slice()));
            proof {
                assert(texts(r@) =~= texts(before).push(t@));
            }
        }
        i = i + 1;
    }
    proof {
        assert(lv.subrange(0, lv.len() as int) =~= lv);
    }
    r
}

/// The folders among `svn list` entries (they end with `/`), without their
/// trailing slashes: the tag names.
pub open spec fn folder_names(entries: Seq<Seq<char>>) -> Seq<Seq<char>>
    decreases entries.len(),
{
    if entries.len() == 0 {
        seq![]
    } else {
        let e = entries.last();
        if e.len() > 0 && e.last() == '/' {
            folder_names(entries.drop_last()).push(trim_end_char(e, '/'))
        } else {
            folder_names(entries.drop_last())
        }
    }
}

/// The tag names in a listing of `tags/`.
pub fn tag_names(entries: &[String]) -> (r: Vec<String>)
    ensures
        texts(r@) == folder_names(texts(entries@)),
{
    let mut r: Vec<String> = Vec::new();
    let mut i: usize = 0;
    while i < entries.len()
        invariant
            i <= entries@.len(),
            texts(r@) == folder_names(texts(entries@).subrange(0, i as int)),
        decreases entries@.len() - i,
    {
        proof {
            let sub = texts(entries@).subrange(0, i + 1);
            assert(sub.drop_last() =~= texts(entries@).subrange(0, i as int));
            assert(sub.last() == entries@[i as int]@);
        }
        let chars = to_chars(entries[i].as_str());
        if chars.len() > 0 && chars[chars.len() - 1] == '/' {
            let name = trim_end_of(chars.as_slice(), '/');
            let ghost before = r@;
            r.push(from_chars(name.as_slice()));
            proof {
                assert(texts(r@) =~= texts(before).push(name@));
            }
        }
        i = i + 1;
    }
    proof {
        assert(texts(entries@).subrange(0, entries@.len() as int) =~= texts(entries@));
    }
    r
}

/// Whether `version` is among the tags.
pub fn tag_exists(tags: &[String], version: &str) -> (b: bool)
    ensures
        b == exists|i: int| 0 <= i < tags@.len() && (#[trigger] tags@[i])@ == version@,
{
    let mut i: usize = 0;
    while i < tags.len()
        invariant
            i <= tags@.len(),
            forall|j: int| 0 <= j < i ==> (#[trigger] tags@[j])@ != version@,
        decreases tags@.len() - i,
    {
        if same_text(tags[i].as_str(), version) {
            return true;
        }
        i = i + 1;
    }
    false
}

/// Where a tag is copied from: trunk, pinned to the committed revision when
/// there is one.
pub open spec fn tag_source_spec(url: Seq<char>, revision: Option<u64>) -> Seq<char> {
    match revision {
        Some(rev) => join_url_spec(url, "trunk"@) + "@"@ + decimal(rev as nat),
        None => join_url_spec(url, "trunk"@),
    }
}

/// `svn copy` creating `tags/<version>` from trunk with `message`.
pub fn tag_args(url: &str, version: &str, revision: Option<u64>, message: &str) -> (r: Vec<String>)
    ensures
        texts(r@) == seq![
            "copy"@,
            tag_source_spec(url@, revision),
            join_url_spec(url@, "tags/"@ + version@),
            "--message"@,
            message@,
        ],
{
    let mut source = join_url(url, "trunk");
    match revision {
        Some(rev) => {
            source.append("@");
            let number = decimal_string(rev);
            source.append(number.as_str());
        },
        None => {},
    }
    let mut tag_path = "tags/".to_owned();
    tag_path.append(version);
    let target = join_url(url, tag_path.as_str());
    let mut r: Vec<String> = Vec::new();
    push_str(&mut r, "copy");
    push_str(&mut r, source.as_str());
    push_str(&mut r, target.as_str());
    push_str(&mut r, "--message");
    push_str(&mut r, message);
    proof {
        assert(texts(r@) =~= seq![
            "copy"@,
            tag_source_spec(url@, revision),
            join_url_spec(url@, "tags/"@ + version@),
            "--message"@,
            message@,
        ]);
    }
    r
}

/// `svn commit` of `paths` with `message`.
pub fn commit_args(message: &str, paths: &[String]) -> (r: Vec<String>)
    ensures
        texts(r@) == seq!["commit"@, "--message"@, message@] + texts(paths@),
{
    let mut r: Vec<String> = Vec::new();
    push_str(&mut r, "commit");
    push_str(&mut r, "--message");
    push_str(&mut r, message);
    let ghost head = texts(r@);
    let mut i: usize = 0;
    while i < paths.len()
        invariant
            i <= paths@.len(),
            texts(r@) == head + texts(paths@).subrange(0, i as int),
        decreases paths@.len() - i,
    {
        push_str(&mut r, paths[i].as_str());
        proof {
            assert(texts(paths@).subrange(0, i + 1) =~= texts(paths@).subrange(0, i as int).push(paths@[i as int]@));
        }
        i = i + 1;
    }
    proof {
        assert(texts(paths@).subrange(0, paths@.len() as int) =~= texts(paths@));
    }
    r
}

/// What a commit's output says: nothing was committed (no output), the new
/// revision, or output without a revision, which is an error.
pub fn commit_result(stdout: &str) -> (r: Result<Option<u64>, SvnError>)
    ensures
        trim(stdout@).len() == 0 ==> r == Ok::<Option<u64>, SvnError>(None),
        trim(stdout@).len() > 0 ==> match last_revision(lines(stdout@)) {
            Some(v) => r matches Ok(Some(n)) && n == v,
            None => r matches Err(SvnError::Parse { detail }) && detail@ == "no revision in commit output"@,
        },
{
    if trim_space(to_chars(stdout).as_slice()).len() == 0 {
        return Ok(None);
    }
    match committed_revision(stdout) {
        Some(v) => Ok(Some(v)),
        None => Err(SvnError::Parse { detail: "no revision in commit output".to_owned() }),
    }
}

/// The revision an `svn copy` created, or an error when its output names none.
pub fn copy_result(stdout: &str) -> (r: Result<u64, SvnError>)
    ensures
        match last_revision(lines(stdout@)) {
            Some(v) => r matches Ok(n) && n == v,
            None => r matches Err(SvnError::Parse { detail }) && detail@ == "no revision in copy output"@,
        },
{
    match committed_revision(stdout) {
        Some(v) => Ok(v),
        None => Err(SvnError::Parse { detail: "no revision in copy output".to_owned() }),
    }
}

/// `args` followed by the paths.
fn with_paths(words: &[&str], paths: &[String]) -> (r: Vec<String>)
    ensures
        texts(r@) == words@.map_values(|w: &str| w@) + texts(paths@),
{
    let mut r: Vec<String> = Vec::new();
    let mut w: usize = 0;
    while w < words.len()
        invariant
            w <= words@.len(),
            texts(r@) == words@.map_values(|x: &str| x@).subrange(0, w as int),
        decreases words@.len() - w,
    {
        push_str(&mut r, words[w]);
        proof {
            assert(words@.map_values(|x: &str| x@).subrange(0, w + 1) =~= words@.map_values(|x: &str| x@).subrange(
                0,
                w as int,
            ).push(words@[w as int]@));
        }
        w = w + 1;
    }
    let ghost head = texts(r@);
    let mut i: usize = 0;
    while i < paths.len()
        invariant
            i <= paths@.len(),
            texts(r@) == head + texts(paths@).subrange(0, i as int),
        decreases paths@.len() - i,
    {
        push_str(&mut r, paths[i].as_str());
        proof {
            assert(texts(paths@).subrange(0, i + 1) =~= texts(paths@).subrange(0, i as int).push(paths@[i as int]@));
        }
        i = i + 1;
    }
    proof {
        assert(words@.map_values(|x: &str| x@).subrange(0, words@.len() as int) =~= words@.map_values(|x: &str| x@));
        assert(texts(paths@).subrange(0, paths@.len() as int) =~= texts(paths@));
    }
    r
}

/// `svn info` asking for the working copy's repository URL.
pub fn info_url_args(wc: &str) -> (r: Vec<String>)
    ensures
        texts(r@) == seq!["info"@, "--show-item"@, "url"@, wc@],
{
    let words = ["info", "--show-item", "url"];
    let paths = [wc.to_owned()];
    let r = with_paths(&words, &paths);
    proof {
        assert(words@.map_values(|w: &str| w@) =~= seq!["info"@, "--show-item"@, "url"@]);
        assert(texts(paths@) =~= seq![wc@]);
    }
    r
}

/// A sparse checkout: the top folders only.
pub fn checkout_args(url: &str, wc: &str) -> (r: Vec<String>)
    ensures
        texts(r@) == seq!["checkout"@, "--depth"@, "immediates"@, url@, wc@],
{
    let words = ["checkout", "--depth", "immediates"];
    let paths = [url.to_owned(), wc.to_owned()];
    let r = with_paths(&words, &paths);
    proof {
        assert(words@.map_values(|w: &str| w@) =~= seq!["checkout"@, "--depth"@, "immediates"@]);
        assert(texts(paths@) =~= seq![url@, wc@]);
    }
    r
}

/// An update of the top folders only.
pub fn update_args(wc: &str) -> (r: Vec<String>)
    ensures
        texts(r@) == seq!["update"@, "--depth"@, "immediates"@, wc@],
{
    let words = ["update", "--depth", "immediates"];
    let paths = [wc.to_owned()];
    let r = with_paths(&words, &paths);
    proof {
        assert(words@.map_values(|w: &str| w@) =~= seq!["update"@, "--depth"@, "immediates"@]);
        assert(texts(paths@) =~= seq![wc@]);
    }
    r
}

/// Fetching the deep folders (`trunk`, `assets`) in full.
pub fn deepen_args(folders: &[String]) -> (r: Vec<String>)
    ensures
        texts(r@) == seq!["update"@, "--set-depth"@, "infinity"@] + texts(folders@),
{
    let words = ["update", "--set-depth", "infinity"];
    let r = with_paths(&words, folders);
    proof {
        assert(words@.map_values(|w: &str| w@) =~= seq!["update"@, "--set-depth"@, "infinity"@]);
    }
    r
}

/// `svn cleanup` of the working copy.
pub fn cleanup_args(wc: &str) -> (r: Vec<String>)
    ensures
        texts(r@) == seq!["cleanup"@, wc@],
{
    let words = ["cleanup"];
    let paths = [wc.to_owned()];
    let r = with_paths(&words, &paths);
    proof {
        assert(words@.map_values(|w: &str| w@) =~= seq!["cleanup"@]);
        assert(texts(paths@) =~= seq![wc@]);
    }
    r
}

/// `svn status --xml` of the deep folders, asking the server for newer
/// revisions when `remote`; no call when there are no deep folders.
pub fn status_args(folders: &[String], remote: bool) -> (r: Option<Vec<String>>)
    ensures
        folders@.len() == 0 ==> r is None,
        folders@.len() > 0 ==> (r matches Some(a) && texts(a@) == seq!["status"@, "--xml"@] + (if remote {
            seq!["--show-updates"@]
        } else {
            seq![]
        }) + texts(folders@)),
{
    if folders.len() == 0 {
        return None;
    }
    let r = if remote {
        let words = ["status", "--xml", "--show-updates"];
        let r = with_paths(&words, folders);
        proof {
            assert(words@.map_values(|w: &str| w@) =~= seq!["status"@, "--xml"@] + seq!["--show-updates"@]);
        }
        r
    } else {
        let words = ["status", "--xml"];
        let r = with_paths(&words, folders);
        proof {
            assert(words@.map_values(|w: &str| w@) =~= seq!["status"@, "--xml"@] + seq![]);
        }
        r
    };
    Some(r)
}

/// `svn revert` of the deep folders; no call when there are none.
pub fn revert_args(folders: &[String]) -> (r: Option<Vec<String>>)
    ensures
        folders@.len() == 0 ==> r is None,
        folders@.len() > 0 ==> (r matches Some(a) && texts(a@) == seq!["revert"@, "--recursive"@] + texts(folders@)),
{
    if folders.len() == 0 {
        return None;
    }
    let words = ["revert", "--recursive"];
    let r = with_paths(&words, folders);
    proof {
        assert(words@.map_values(|w: &str| w@) =~= seq!["revert"@, "--recursive"@]);
    }
    Some(r)
}

/// The per-file diff of a working-copy folder, with `svn`'s own diff.
pub fn diff_args(folder: &str) -> (r: Vec<String>)
    ensures
        texts(r@) == seq!["diff"@, "--internal-diff"@, folder@],
{
    let words = ["diff", "--internal-diff"];
    let paths = [folder.to_owned()];
    let r = with_paths(&words, &paths);
    proof {
        assert(words@.map_values(|w: &str| w@) =~= seq!["diff"@, "--internal-diff"@]);
        assert(texts(paths@) =~= seq![folder@]);
    }
    r
}

/// What one try at verifying a tag leads to.
pub enum VerifyStep {
    /// Verification is over with this result.
    Done(TagVerification),
    /// Wait and try again; this is why the tag is not confirmed yet.
    Retry(String),
    /// Stop with this error (the developer cancelled).
    Stop(SvnError),
}

/// The reason a try failed: the check's own reason, or the error's message.
pub open spec fn try_reason(check: Result<Option<String>, SvnError>) -> Seq<char> {
    match check {
        Ok(Some(why)) => why@,
        Err(e) => message_of(e),
        Ok(None) => Seq::empty(),
    }
}

/// Decides after try `attempt` (1-based) of checking a tag: confirmed ends
/// it verified; a cancellation stops it; otherwise it is tried again, up to
/// three tries, after which the tag is unverified with the last reason.
pub fn verify_step(attempt: u32, check: Result<Option<String>, SvnError>) -> (s: VerifyStep)
    ensures
        match check {
            Ok(None) => s == VerifyStep::Done(TagVerification::Verified),
            Err(SvnError::Cancelled) => s == VerifyStep::Stop(SvnError::Cancelled),
            _ => if attempt < 3 {
                s matches VerifyStep::Retry(why) && why@ == try_reason(check)
            } else {
                s matches VerifyStep::Done(TagVerification::Unverified(why)) && why@ == try_reason(check)
            },
        },
{
    let reason = match check {
        Ok(None) => {
            return VerifyStep::Done(TagVerification::Verified);
        },
        Err(SvnError::Cancelled) => {
            return VerifyStep::Stop(SvnError::Cancelled);
        },
        Ok(Some(why)) => why,
        Err(e) => e.message(),
    };
    if attempt < 3 {
        VerifyStep::Retry(reason)
    } else {
        VerifyStep::Done(TagVerification::Unverified(reason))
    }
}

/// The notice before try `attempt` of verifying a tag.
pub fn retry_notice(attempt: u32) -> (s: String)
    ensures
        s@ == "Verifying the tag again ("@ + decimal(attempt as nat) + " of 3)."@,
{
    let mut s = "Verifying the tag again (".to_owned();
    let number = decimal_string(attempt as u64);
    s.append(number.as_str());
    s.append(" of 3).");
    s
}

} // verus!
