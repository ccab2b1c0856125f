//! Where a plugin declares its version, and checking a configured location.

use vstd::prelude::*;

use crate::strings::{decimal, decimal_string};
use crate::text::{line_number, min};
use vstd::string::StringSliceAdditionalSpecFns;
use vstd::utf8::{encode_utf8, is_char_boundary};

use super::VersionError;

verus! {

broadcast use vstd::string::group_string_axioms;

/// Where a version value was read from.
#[derive(Debug, Clone, Copy, PartialEq, Eq, Structural)]
pub enum VersionSourceKind {
    /// The `Version:` line of the main plugin file header.
    Header,
    /// The readme `Stable tag:` header.
    StableTag,
    /// The newest `= x.y.z =` entry under `== Changelog ==`.
    Changelog,
    /// A project-configured location (file plus regex).
    Custom,
}

/// One version value and where it came from.
pub struct VersionSource {
    /// Human label, for example `Plugin header` or `plugin.php (match 2)`.
    pub label: String,
    /// Path relative to the package root, with `/` separators.
    pub path: String,
    /// The value found; empty when the source exists but holds no version.
    pub value: String,
    /// What kind of source this is.
    pub kind: VersionSourceKind,
    /// 1-based line number, when known.
    pub line: Option<u32>,
}

/// An extra version location configured for a project: a file and a regex
/// with exactly one capture group around the version.
pub struct VersionLocation {
    /// Path relative to the package root, with `/` separators.
    pub path: String,
    /// Regular expression with one capture group.
    pub pattern: String,
}

#[verifier::external_type_specification]
#[verifier::external_body]
pub struct ExRegex(regex::Regex);

/// The message `regex::Regex::new` fails with for `pattern`, `None` when it compiles.
pub uninterp spec fn regex_compile_error(pattern: Seq<char>) -> Option<Seq<char>>;

/// `regex::Regex::new`, with the error turned into its message. Compilation
/// depends on the pattern alone (the default size limit included).
#[verifier::external_body]
fn compile_regex(pattern: &str) -> (r: Result<regex::Regex, String>)
    ensures
        r is Ok <==> regex_compile_error(pattern@) is None,
        r matches Err(e) ==> regex_compile_error(pattern@) == Some(e@),
{
    regex::Regex::new(pattern).map_err(|e| e.to_string())
}

/// How many groups `regex::Regex::captures_len` counts for a pattern that
/// compiles, the implicit whole-match group included.
pub uninterp spec fn regex_group_count(pattern: Seq<char>) -> nat;

/// Compiles `pattern` with `regex::Regex::new` and returns
/// `captures_len`: the number of groups including the implicit whole-match
/// group, so never zero (as its documentation guarantees). The count
/// depends on the pattern alone.
#[verifier::external_body]
fn group_count(pattern: &str) -> (n: usize)
    requires
        regex_compile_error(pattern@) is None,
    ensures
        n == regex_group_count(pattern@),
        n >= 1,
{
    regex::Regex::new(pattern).map_or(1, |re| re.captures_len())
}

/// The reason a pattern with `groups` capture groups is refused, if it is.
pub open spec fn groups_problem(groups: nat) -> Option<Seq<char>> {
    if groups == 1 {
        None
    } else {
        Some("it has "@ + decimal(groups) + " capture groups, expected 1"@)
    }
}

/// The verdict on a compiled pattern with `captures_len` groups (the implicit
/// one included): `Ok` for exactly one explicit group, else `BadPattern` naming
/// how many there are.
pub fn check_groups(path: &str, captures_len: usize) -> (r: Result<(), VersionError>)
    requires
        captures_len >= 1,
    ensures
        r is Ok <==> groups_problem((captures_len - 1) as nat) is None,
        r matches Err(e) ==> e matches VersionError::BadPattern { path: p, reason } && p@ == path@
            && Some(reason@) == groups_problem((captures_len - 1) as nat),
{
    let groups = captures_len - 1;
    if groups == 1 {
        return Ok(());
    }
    let mut reason = "it has ".to_owned();
    let count = crate::strings::decimal_string(groups as u64);
    reason.append(count.as_str());
    reason.append(" capture groups, expected 1");
    Err(VersionError::BadPattern { path: path.to_owned(), reason })
}

/// Why a location's pattern is refused: the compiler's message, or how
/// many capture groups it has when that is not exactly one; `None` when it
/// is accepted.
pub open spec fn location_problem(pattern: Seq<char>) -> Option<Seq<char>> {
    match regex_compile_error(pattern) {
        Some(msg) => Some(msg),
        None => groups_problem((regex_group_count(pattern) - 1) as nat),
    }
}

/// Compiles a location's pattern, requiring exactly one capture group.
pub fn validate_location(location: &VersionLocation) -> (r: Result<regex::Regex, VersionError>)
    ensures
        location_problem(location.pattern@) is None <==> r is Ok,
        location_problem(location.pattern@) matches Some(reason) ==> r matches Err(e)
            && e matches VersionError::BadPattern { path, reason: why } && path@ == location.path@ && why@ == reason,
{
    let regex = match compile_regex(location.pattern.as_str()) {
        Ok(re) => re,
        Err(reason) => {
            return Err(VersionError::BadPattern { path: location.path.clone(), reason });
        },
    };
    let n = group_count(location.pattern.as_str());
    match check_groups(location.path.as_str(), n) {
        Ok(()) => Ok(regex),
        Err(e) => Err(e),
    }
}

/// What `regex::Regex::captures_iter` finds for `pattern` in `content`: for
/// each match in turn, where its first capture group starts (a byte offset)
/// and the text it captured, or `None` when that group took no part.
pub uninterp spec fn group_one_matches(pattern: Seq<char>, content: Seq<char>) -> Seq<Option<(usize, Seq<char>)>>;

/// Whether a captured group sits in `bytes` as `regex` reports groups: its
/// text is the bytes from its start, and both its ends are character
/// boundaries.
pub open spec fn group_in(bytes: Seq<u8>, start: usize, text: Seq<char>) -> bool {
    let end = start + encode_utf8(text).len();
    &&& end <= bytes.len()
    &&& bytes.subrange(start as int, end) == encode_utf8(text)
    &&& is_char_boundary(bytes, start as int)
    &&& is_char_boundary(bytes, end)
}

/// The first capture group of each match of `pattern` in `content`, as
/// `regex::Regex::new` and `captures_iter` give them (the pattern compiles,
/// or nothing is found). As the crate documents, each group is the text of
/// `content` between two byte offsets on character boundaries
/// (`regex::Match::start`, `end`, `as_str`), and successive matches do not
/// overlap, so each group ends before the next one starts.
#[verifier::external_body]
fn group_one(pattern: &str, content: &str) -> (r: Vec<Option<(usize, String)>>)
    ensures
        regex_compile_error(pattern@) is None ==> r@.len() == group_one_matches(pattern@, content@).len() && forall|k: int|
            0 <= k < r@.len() ==> (match #[trigger] r@[k] {
                Some((start, text)) => Some((start, text@)),
                None => None,
            }) == group_one_matches(pattern@, content@)[k],
        forall|k: int|
            0 <= k < r@.len() ==> (#[trigger] r@[k] matches Some((start, text)) ==> group_in(
                content.spec_bytes(),
                start,
                text@,
            )),
        forall|k: int, j: int|
            0 <= k < j < r@.len() ==> (#[trigger] r@[k] matches Some((s1, t1)) ==> (#[trigger] r@[j] matches Some((s2, _))
                ==> s1 + encode_utf8(t1@).len() <= s2)),
{
    match regex::Regex::new(pattern) {
        Ok(re) => re.captures_iter(content).map(|c| c.get(1).map(|m| (m.start(), m.as_str().to_owned()))).collect(),
        Err(_) => Vec::new(),
    }
}

/// How many newline bytes come before byte `offset` of `bytes`.
pub open spec fn newlines_before(bytes: Seq<u8>, offset: int) -> nat
    decreases offset,
{
    if offset <= 0 || bytes.len() == 0 {
        0
    } else if offset > bytes.len() {
        newlines_before(bytes, bytes.len() as int)
    } else {
        newlines_before(bytes, offset - 1) + if bytes[offset - 1] == 10u8 {
            1nat
        } else {
            0nat
        }
    }
}

/// The captured values of the matches, in order (groups that took no part skipped).
pub open spec fn captured(found: Seq<Option<(usize, Seq<char>)>>) -> Seq<(usize, Seq<char>)>
    decreases found.len(),
{
    if found.len() == 0 {
        seq![]
    } else {
        match found.last() {
            Some(m) => captured(found.drop_last()).push(m),
            None => captured(found.drop_last()),
        }
    }
}

/// The label of match `index` (0-based) in `path`: the path, with the match
/// number when there are several.
pub open spec fn match_label(path: Seq<char>, index: nat, many: bool) -> Seq<char> {
    if many {
        path + " (match "@ + decimal(index + 1) + ")"@
    } else {
        path
    }
}

/// Whether `sources` are what a custom location gives for these captures:
/// one empty source when nothing was captured, else one per captured value,
/// labelled by match number when there are several, with its 1-based line.
pub open spec fn custom_sources_spec(path: Seq<char>, bytes: Seq<u8>, caps: Seq<(usize, Seq<char>)>, sources: Seq<VersionSource>) -> bool {
    if caps.len() == 0 {
        sources.len() == 1 && sources[0].label@ == path && sources[0].path@ == path && sources[0].value@.len() == 0
            && sources[0].kind == VersionSourceKind::Custom && sources[0].line is None
    } else {
        &&& sources.len() == caps.len()
        &&& forall|k: int|
            0 <= k < caps.len() ==> {
                let s = #[trigger] sources[k];
                &&& s.label@ == match_label(path, k as nat, caps.len() > 1)
                &&& s.path@ == path
                &&& s.value@ == caps[k].1
                &&& s.kind == VersionSourceKind::Custom
                &&& s.line == Some(min((newlines_before(bytes, caps[k].0 as int) + 1) as int, u32::MAX as int) as u32)
            }
    }
}

/// Counts the newline bytes before `offset`.
fn count_newlines(bytes: &[u8], offset: usize) -> (n: usize)
    requires
        offset <= bytes@.len(),
    ensures
        n == newlines_before(bytes@, offset as int),
{
    let mut n: usize = 0;
    let mut i: usize = 0;
    while i < offset
        invariant
            i <= offset,
            offset <= bytes@.len(),
            n == newlines_before(bytes@, i as int),
            n <= i,
        decreases offset - i,
    {
        if bytes[i] == 10u8 {
            n = n + 1;
        }
        i = i + 1;
    }
    n
}

/// The version values a configured location holds in `content` (its
/// file's text): the pattern is checked first (a bad one is an error);
/// with no match, one empty value stands for the location so that the
/// version checks can name it.
pub fn custom_sources(location: &VersionLocation, content: &str) -> (r: Result<Vec<VersionSource>, VersionError>)
    ensures
        location_problem(location.pattern@) is None <==> r is Ok,
        location_problem(location.pattern@) matches Some(why) ==> r matches Err(e)
            && e matches VersionError::BadPattern { path, reason } && path@ == location.path@ && reason@ == why,
        r matches Ok(sources) ==> custom_sources_spec(
            location.path@,
            content.spec_bytes(),
            captured(group_one_matches(location.pattern@, content@)),
            sources@,
        ),
{
    match validate_location(location) {
        Err(e) => {
            return Err(e);
        },
        Ok(_) => {},
    }
    let found = group_one(location.pattern.as_str(), content);
    let bytes = content.as_bytes();
    let ghost all = group_one_matches(location.pattern@, content@);
    let mut caps: Vec<(usize, String)> = Vec::new();
    let mut i: usize = 0;
    while i < found.len()
        invariant
            i <= found@.len(),
            found@.len() == all.len(),
            forall|k: int| 0 <= k < found@.len() ==> (match #[trigger] found@[k] {
                Some((start, text)) => Some((start, text@)),
                None => None,
            }) == all[k],
            forall|k: int|
                0 <= k < found@.len() ==> (#[trigger] found@[k] matches Some((start, text)) ==> group_in(
                    content.spec_bytes(),
                    start,
                    text@,
                )),
            bytes@ == content.spec_bytes(),
            caps@.map_values(|c: (usize, String)| (c.0, c.1@)) == captured(all.subrange(0, i as int)),
            forall|k: int| 0 <= k < caps@.len() ==> (#[trigger] caps@[k]).0 <= bytes@.len(),
        decreases found@.len() - i,
    {
        let ghost sub = all.subrange(0, i + 1);
        proof {
            assert(sub.drop_last() =~= all.subrange(0, i as int));
            assert(sub.last() == all[i as int]);
        }
        match &found[i] {
            Some((start, text)) => {
                caps.push((*start, text.clone()));
            },
            None => {},
        }
        proof {
            assert(caps@.map_values(|c: (usize, String)| (c.0, c.1@)) =~= captured(sub));
        }
        i = i + 1;
    }
    proof {
        assert(all.subrange(0, all.len() as int) =~= all);
    }
    let ghost caps_view = caps@.map_values(|c: (usize, String)| (c.0, c.1@));
    let mut sources: Vec<VersionSource> = Vec::new();
    if caps.len() == 0 {
        sources.push(
            VersionSource {
                label: location.path.clone(),
                path: location.path.clone(),
                value: String::new(),
                kind: VersionSourceKind::Custom,
                line: None,
            },
        );
        return Ok(sources);
    }
    let many = caps.len() > 1;
    let mut k: usize = 0;
    while k < caps.len()
        invariant
            k <= caps@.len(),
            many == (caps@.len() > 1),
            caps_view == caps@.map_values(|c: (usize, String)| (c.0, c.1@)),
            bytes@ == content.spec_bytes(),
            forall|q: int| 0 <= q < caps@.len() ==> (#[trigger] caps@[q]).0 <= bytes@.len(),
            sources@.len() == k,
            forall|q: int|
                0 <= q < k ==> {
                    let s = #[trigger] sources@[q];
                    &&& s.label@ == match_label(location.path@, q as nat, many)
                    &&& s.path@ == location.path@
                    &&& s.value@ == caps_view[q].1
                    &&& s.kind == VersionSourceKind::Custom
                    &&& s.line == Some(min((newlines_before(bytes@, caps_view[q].0 as int) + 1) as int, u32::MAX as int) as u32)
                },
        decreases caps@.len() - k,
    {
        let label = if many {
            let mut l = location.path.clone();
            l.append(" (match ");
            let number = decimal_string((k as u64) + 1);
            l.append(number.as_str());
            l.append(")");
            l
        } else {
            location.path.clone()
        };
        let start = caps[k].0;
        let lines = count_newlines(bytes, start);
        let line = line_number(lines);
        sources.push(
            VersionSource {
                label,
                path: location.path.clone(),
                value: caps[k].1.clone(),
                kind: VersionSourceKind::Custom,
                line: Some(line),
            },
        );
        k = k + 1;
    }
    Ok(sources)
}

/// The main file's version source: the `Version:` header value found on
/// 0-based line `line_index` of `main_file`, or an empty value when the
/// header has none.
pub fn header_source(main_file: &str, found: Option<(String, usize)>) -> (s: VersionSource)
    ensures
        s.label@ == "Plugin header"@,
        s.path@ == main_file@,
        s.kind == VersionSourceKind::Header,
        match found {
            Some((value, index)) => s.value == value && s.line == Some(min(index + 1, u32::MAX as int) as u32),
            None => s.value@.len() == 0 && s.line is None,
        },
{
    let (value, line) = match found {
        Some((value, index)) => (value, Some(line_number(index))),
        None => (String::new(), None),
    };
    VersionSource { label: "Plugin header".to_owned(), path: main_file.to_owned(), value, kind: VersionSourceKind::Header, line }
}

/// The readme's version sources: its `Stable tag:` value and the newest
/// changelog entry's version, each with its 1-based line; a missing one
/// contributes an empty value.
pub fn readme_sources(stable: Option<(String, u32)>, newest: Option<(Option<String>, u32)>) -> (v: Vec<VersionSource>)
    ensures
        v@.len() == 2,
        v@[0].label@ == "Readme stable tag"@ && v@[0].path@ == "readme.txt"@ && v@[0].kind == VersionSourceKind::StableTag,
        match stable {
            Some((value, line)) => v@[0].value == value && v@[0].line == Some(line),
            None => v@[0].value@.len() == 0 && v@[0].line is None,
        },
        v@[1].label@ == "Readme changelog"@ && v@[1].path@ == "readme.txt"@ && v@[1].kind == VersionSourceKind::Changelog,
        match newest {
            Some((version, line)) => v@[1].line == Some(line) && match version {
                Some(x) => v@[1].value == x,
                None => v@[1].value@.len() == 0,
            },
            None => v@[1].value@.len() == 0 && v@[1].line is None,
        },
{
    let (stable_value, stable_line) = match stable {
        Some((value, line)) => (value, Some(line)),
        None => (String::new(), None),
    };
    let (newest_value, newest_line) = match newest {
        Some((version, line)) => (
            match version {
                Some(x) => x,
                None => String::new(),
            },
            Some(line),
        ),
        None => (String::new(), None),
    };
    let mut v: Vec<VersionSource> = Vec::new();
    v.push(
        VersionSource {
            label: "Readme stable tag".to_owned(),
            path: crate::plugin::README_FILE.to_owned(),
            value: stable_value,
            kind: VersionSourceKind::StableTag,
            line: stable_line,
        },
    );
    v.push(
        VersionSource {
            label: "Readme changelog".to_owned(),
            path: crate::plugin::README_FILE.to_owned(),
            value: newest_value,
            kind: VersionSourceKind::Changelog,
            line: newest_line,
        },
    );
    v
}

/// Where the last of `caps` ends (0 before the first).
pub open spec fn caps_end(caps: Seq<(usize, Seq<char>)>) -> int {
    if caps.len() == 0 {
        0
    } else {
        caps.last().0 + encode_utf8(caps.last().1).len()
    }
}

/// `bytes` up to the end of the last of `caps`, each captured group
/// replaced by `version`.
pub open spec fn replaced_prefix(bytes: Seq<u8>, caps: Seq<(usize, Seq<char>)>, version: Seq<u8>) -> Seq<u8>
    decreases caps.len(),
{
    if caps.len() == 0 {
        seq![]
    } else {
        replaced_prefix(bytes, caps.drop_last(), version) + bytes.subrange(
            caps_end(caps.drop_last()),
            caps.last().0 as int,
        ) + version
    }
}

/// `bytes` with every captured group replaced by `version`.
pub open spec fn replaced(bytes: Seq<u8>, caps: Seq<(usize, Seq<char>)>, version: Seq<u8>) -> Seq<u8> {
    replaced_prefix(bytes, caps, version) + bytes.subrange(caps_end(caps), bytes.len() as int)
}

/// A boundary of `bytes` at or after `from` is a boundary of the bytes from `from` on.
proof fn lemma_boundary_in_suffix(bytes: Seq<u8>, from: int, k: int)
    requires
        vstd::utf8::valid_utf8(bytes),
        is_char_boundary(bytes, from),
        0 <= k,
        from + k <= bytes.len(),
        is_char_boundary(bytes, from + k),
    ensures
        is_char_boundary(bytes.subrange(from, bytes.len() as int), k),
{
    broadcast use vstd::utf8::group_utf8_lib;

    let tail = bytes.subrange(from, bytes.len() as int);
    vstd::utf8::valid_utf8_split(bytes, from);
    if from + k == bytes.len() {
        vstd::utf8::is_char_boundary_start_end_of_seq(tail);
        assert(tail.len() == k);
    } else {
        vstd::utf8::is_char_boundary_iff_not_is_continuation_byte(bytes, from + k);
        vstd::utf8::is_char_boundary_iff_not_is_continuation_byte(tail, k);
        assert(tail[k] == bytes[from + k]);
    }
}

/// Writes `version` into a configured location's text: every captured
/// value is replaced. A bad pattern is refused; a location where the
/// pattern captures nothing is an error, as nothing could be written.
pub fn rewrite_location(location: &VersionLocation, content: &str, version: &str) -> (r: Result<String, VersionError>)
    ensures
        location_problem(location.pattern@) matches Some(why) ==> r matches Err(e)
            && e matches VersionError::BadPattern { path, reason } && path@ == location.path@ && reason@ == why,
        location_problem(location.pattern@) is None ==> (r is Err <==> captured(
            group_one_matches(location.pattern@, content@),
        ).len() == 0),
        location_problem(location.pattern@) is None && r is Err ==> (r matches Err(e)
            && e matches VersionError::NotFound { path } && path@ == location.path@),
        r matches Ok(out) ==> ({
            let caps = captured(group_one_matches(location.pattern@, content@));
            caps.len() > 0 && encode_utf8(out@) == replaced(content.spec_bytes(), caps, encode_utf8(version@))
        }),
{
    broadcast use vstd::utf8::group_utf8_lib;

    match validate_location(location) {
        Err(e) => {
            return Err(e);
        },
        Ok(_) => {},
    }
    let found = group_one(location.pattern.as_str(), content);
    let ghost bytes = content.spec_bytes();
    let ghost all = group_one_matches(location.pattern@, content@);
    let ghost v = encode_utf8(version@);
    let total = content.as_bytes().len();
    let mut out = String::new();
    let mut rest: &str = content;
    let mut last: usize = 0;
    let mut replaced_any = false;
    let mut i: usize = 0;
    proof {
        assert(bytes.subrange(0, bytes.len() as int) =~= bytes);
        vstd::utf8::encode_utf8_valid_utf8(content@);
        vstd::utf8::is_char_boundary_start_end_of_seq(bytes);
        assert(all.subrange(0, 0) =~= Seq::<Option<(usize, Seq<char>)>>::empty());
    }
    while i < found.len()
        invariant
            i <= found@.len(),
            found@.len() == all.len(),
            bytes == content.spec_bytes(),
            bytes.len() == total,
            vstd::utf8::valid_utf8(bytes),
            v == encode_utf8(version@),
            replaced_any == (captured(all.subrange(0, i as int)).len() > 0),
            forall|k: int| 0 <= k < found@.len() ==> (match #[trigger] found@[k] {
                Some((start, text)) => Some((start, text@)),
                None => None,
            }) == all[k],
            forall|k: int|
                0 <= k < found@.len() ==> (#[trigger] found@[k] matches Some((start, text)) ==> group_in(bytes, start, text@)),
            forall|k: int, j: int|
                0 <= k < j < found@.len() ==> (#[trigger] found@[k] matches Some((s1, t1)) ==> (
                #[trigger] found@[j] matches Some((s2, _)) ==> s1 + encode_utf8(t1@).len() <= s2)),
            last == caps_end(captured(all.subrange(0, i as int))),
            last <= bytes.len(),
            is_char_boundary(bytes, last as int),
            forall|j: int| i <= j < found@.len() ==> (#[trigger] found@[j] matches Some((s, _)) ==> last <= s),
            rest.spec_bytes() == bytes.subrange(last as int, bytes.len() as int),
            encode_utf8(out@) == replaced_prefix(bytes, captured(all.subrange(0, i as int)), v),
        decreases found@.len() - i,
    {
        let ghost sub = all.subrange(0, i + 1);
        proof {
            assert(sub.drop_last() =~= all.subrange(0, i as int));
            assert(sub.last() == all[i as int]);
        }
        match &found[i] {
            Some((start, text)) => {
                let start = *start;
                proof {
                    assert(group_in(bytes, start, text@));
                    lemma_boundary_in_suffix(bytes, last as int, start - last);
                    assert(rest.spec_bytes().subrange(0, start - last) =~= bytes.subrange(last as int, start as int));
                }
                let (piece, after) = rest.split_at(start - last);
                let n = text.as_str().as_bytes().len();
                proof {
                    assert(after.spec_bytes() =~= bytes.subrange(start as int, bytes.len() as int));
                    lemma_boundary_in_suffix(bytes, start as int, n as int);
                }
                let (_, tail) = after.split_at(n);
                proof {
                    assert(tail.spec_bytes() =~= bytes.subrange(start + n, bytes.len() as int));
                    crate::text::lemma_encode_concat(out@, piece@);
                    crate::text::lemma_encode_concat(out@ + piece@, version@);
                }
                let ghost before = out@;
                out.append(piece);
                out.append(version);
                proof {
                    assert(out@ == before + piece@ + version@);
                    assert(piece.spec_bytes() == bytes.subrange(last as int, start as int));
                    assert(encode_utf8(out@) == encode_utf8(before) + piece.spec_bytes() + v);
                    let prev = captured(all.subrange(0, i as int));
                    assert(captured(sub) == prev.push((start, text@)));
                    assert(prev.push((start, text@)).drop_last() =~= prev);
                    assert(caps_end(prev) == last);
                    assert(replaced_prefix(bytes, prev.push((start, text@)), v) == replaced_prefix(bytes, prev, v)
                        + bytes.subrange(last as int, start as int) + v);
                }
                rest = tail;
                last = start + n;
                replaced_any = true;
                proof {
                    assert forall|j: int| i + 1 <= j < found@.len() implies (#[trigger] found@[j] matches Some((s, _))
                        ==> last <= s) by {
                        match found@[j] {
                            Some((s, _)) => {
                                assert(start + n <= s);
                            },
                            None => {},
                        }
                    }
                }
            },
            None => {
                proof {
                    assert(captured(sub) == captured(all.subrange(0, i as int)));
                }
            },
        }
        i = i + 1;
    }
    proof {
        assert(all.subrange(0, all.len() as int) =~= all);
    }
    if !replaced_any {
        return Err(VersionError::NotFound { path: location.path.clone() });
    }
    let ghost before = out@;
    out.append(rest);
    proof {
        crate::text::lemma_encode_concat(before, rest@);
        assert(encode_utf8(out@) == replaced(bytes, captured(all), v));
    }
    Ok(out)
}

} // verus!
