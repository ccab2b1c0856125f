//! Blocking checks V01–V17.

use vstd::prelude::*;

use crate::plugin::{
    field_index, header_value, required_header_names, required_headers, same_name, README_FILE,
    ChangelogEntry, Readme,
};
use crate::strings::{
    contains, decimal, decimal_string, ends_with, has_infix, has_prefix, has_suffix, is_space,
    join, last_index, last_index_of, lower, parse_unsigned, parse_unsigned_chars, slice_chars,
    split_char, split_on, starts_with, to_chars, to_lower, trim, trim_end_char, trim_end_of,
    trim_space, trim_start, trim_start_of,
};
use crate::version::{
    is_version, newest, newest_of, next_patch_of, parse_version, same_release, version_order, Version,
    VersionSource, VersionView,
};

use super::{
    failed, fresh, join_texts, passed, skipped, texts, views, with_paths, CheckResult, CheckStatus, CheckView,
    FileRef, Severity, VerifyInput, WorkingCopyState,
};

verus! {

broadcast use vstd::string::group_string_axioms;

/// The longest short description WordPress.org shows in full.
pub const SHORT_DESCRIPTION_LIMIT: usize = 150;

/// The oldest Subversion with `--password-from-stdin`: major part.
pub const MIN_SVN_MAJOR: u64 = 1;

/// The oldest Subversion with `--password-from-stdin`: minor part.
pub const MIN_SVN_MINOR: u64 = 10;

/// A blocking check that has not run.
pub open spec fn block(id: Seq<char>, title: Seq<char>) -> CheckView {
    fresh(id, Severity::Block, title)
}

fn check(id: &str, title: &str) -> (r: CheckResult)
    ensures
        r@ == block(id@, title@),
{
    CheckResult::new(id, Severity::Block, title)
}

/// The message for a missing readme.
pub open spec fn readme_missing() -> Seq<char> {
    "readme.txt is missing from the package root."@
}

/// The fix for a missing readme.
pub open spec fn readme_fix() -> Seq<char> {
    "Add a readme.txt that follows the WordPress.org readme standard."@
}

/// The one path `readme.txt`.
pub open spec fn readme_path() -> Seq<Seq<char>> {
    seq![README_FILE@]
}

fn readme_paths() -> (v: Vec<String>)
    ensures
        texts(v@) == readme_path(),
{
    let v = vec![README_FILE.to_owned()];
    assert(texts(v@) =~= readme_path());
    v
}

fn one_path(p: String) -> (v: Vec<String>)
    ensures
        texts(v@) == seq![p@],
{
    let v = vec![p];
    assert(texts(v@) =~= seq![v@[0]@]);
    v
}

/// Two version texts name the same release: compared as versions when both
/// parse, as text otherwise.
pub open spec fn same_version(a: Seq<char>, b: Seq<char>) -> bool {
    match (parse_version(a), parse_version(b)) {
        (Some(x), Some(y)) => same_release(x, y),
        _ => a == b,
    }
}

fn same_version_exec(a: &str, b: &str) -> (r: bool)
    ensures
        r == same_version(a@, b@),
{
    match (Version::parse(a), Version::parse(b)) {
        (Ok(x), Ok(y)) => x.equals(&y),
        _ => a.to_owned() == b.to_owned(),
    }
}

// ---------------------------------------------------------------------------
// V01
// ---------------------------------------------------------------------------

/// `label: value` for one version source, `missing` for an empty value.
pub open spec fn source_line(s: VersionSource) -> Seq<char> {
    s.label@ + ": "@ + (if s.value@.len() == 0 {
        "missing"@
    } else {
        s.value@
    })
}

/// Every source's line.
pub open spec fn source_lines(ss: Seq<VersionSource>) -> Seq<Seq<char>> {
    ss.map_values(|s: VersionSource| source_line(s))
}

/// The paths of the sources whose value differs from `version`.
pub open spec fn mismatched(ss: Seq<VersionSource>, version: Seq<char>) -> Seq<Seq<char>>
    decreases ss.len(),
{
    if ss.len() == 0 {
        Seq::empty()
    } else if ss.last().value@ != version {
        mismatched(ss.drop_last(), version).push(ss.last().path@)
    } else {
        mismatched(ss.drop_last(), version)
    }
}

/// V01: every version source holds the version being released.
pub open spec fn v01_spec(input: VerifyInput) -> CheckView {
    let c = block("V01"@, "Every version source holds the same value"@);
    let v = input.version@;
    let m = mismatched(input.facts.versions@, v);
    if m.len() == 0 {
        passed(c, "All sources read "@ + v + "."@)
    } else {
        with_paths(
            failed(
                c,
                "Expected "@ + v + " everywhere. Found "@ + join(source_lines(input.facts.versions@), "; "@) + "."@,
                "Set every source to "@ + v + "."@,
            ),
            m,
        )
    }
}

fn v01(input: &VerifyInput<'_>) -> (r: CheckResult)
    ensures
        r@ == v01_spec(*input),
{
    let c = check("V01", "Every version source holds the same value");
    let sources = &input.facts.versions;
    let version = input.version.to_owned();
    let mut lines: Vec<String> = Vec::new();
    let mut paths: Vec<String> = Vec::new();
    let mut i: usize = 0;
    while i < sources.len()
        invariant
            i <= sources@.len(),
            sources@ == input.facts.versions@,
            version@ == input.version@,
            texts(lines@) == source_lines(sources@.take(i as int)),
            texts(paths@) == mismatched(sources@.take(i as int), version@),
        decreases sources@.len() - i,
    {
        let s = &sources[i];
        proof {
            assert(sources@.take(i + 1).drop_last() =~= sources@.take(i as int));
            assert(sources@.take(i + 1).last() == sources@[i as int]);
            assert(source_lines(sources@.take(i + 1)) =~= source_lines(sources@.take(i as int)).push(
                source_line(sources@[i as int]),
            ));
        }
        let mut line = s.label.clone();
        line.append(": ");
        if s.value.as_str().is_empty() {
            line.append("missing");
        } else {
            line.append(s.value.as_str());
        }
        lines.push(line);
        if !(s.value == version) {
            paths.push(s.path.clone());
        }
        i = i + 1;
    }
    proof {
        assert(sources@.take(sources@.len() as int) =~= sources@);
    }
    if paths.len() == 0 {
        let mut m = "All sources read ".to_owned();
        m.append(input.version);
        m.append(".");
        c.pass(m)
    } else {
        let listing = join_texts(lines.as_slice(), "; ");
        let mut m = "Expected ".to_owned();
        m.append(input.version);
        m.append(" everywhere. Found ");
        m.append(listing.as_str());
        m.append(".");
        let mut f = "Set every source to ".to_owned();
        f.append(input.version);
        f.append(".");
        c.fail(m, f).with_paths(paths)
    }
}

// ---------------------------------------------------------------------------
// V02
// ---------------------------------------------------------------------------

/// V02: the version is valid.
pub open spec fn v02_spec(input: VerifyInput) -> CheckView {
    let c = block("V02"@, "Version is valid"@);
    if parse_version(input.version@) is Some {
        passed(c, input.version@ + " is a valid version."@)
    } else {
        failed(
            c,
            "\""@ + input.version@ + "\" is not a valid version."@,
            "Use x.y or x.y.z, optionally followed by a pre-release suffix such as -beta1."@,
        )
    }
}

fn v02(input: &VerifyInput<'_>) -> (r: CheckResult)
    ensures
        r@ == v02_spec(*input),
{
    let c = check("V02", "Version is valid");
    match Version::parse(input.version) {
        Ok(_) => {
            let mut m = input.version.to_owned();
            m.append(" is a valid version.");
            c.pass(m)
        },
        Err(_) => {
            let mut m = "\"".to_owned();
            m.append(input.version);
            m.append("\" is not a valid version.");
            c.fail(m, "Use x.y or x.y.z, optionally followed by a pre-release suffix such as -beta1.".to_owned())
        },
    }
}

// ---------------------------------------------------------------------------
// V03
// ---------------------------------------------------------------------------

/// The previous release: the newer of the given previous version and the
/// newest tag, the tag when they rank equal.
pub open spec fn previous_release(input: VerifyInput) -> Option<VersionView> {
    let p = match input.previous {
        Some(t) => parse_version(t@),
        None => None,
    };
    let n = newest_of(texts(input.server_tags@));
    match p {
        Some(a) => match n {
            Some(b) => if version_order(a, b) <= 0 {
                Some(b)
            } else {
                Some(a)
            },
            None => Some(a),
        },
        None => n,
    }
}

/// V03 needs the next patch of the previous release to fit a `u64`.
pub open spec fn v03_ready(input: VerifyInput) -> bool {
    previous_release(input) matches Some(p) ==> (p.pre.len() > 0 || p.patch < u64::MAX)
}

/// The first tag (trailing `/` removed) naming the same release as `version`.
pub open spec fn first_same_tag(tags: Seq<Seq<char>>, version: Seq<char>) -> Option<Seq<char>>
    decreases tags.len(),
{
    if tags.len() == 0 {
        None
    } else if same_version(trim_end_char(tags[0], '/'), version) {
        Some(trim_end_char(tags[0], '/'))
    } else {
        first_same_tag(tags.skip(1), version)
    }
}

proof fn lemma_first_same_tag_at(tags: Seq<Seq<char>>, version: Seq<char>, k: int)
    requires
        0 <= k < tags.len(),
        same_version(trim_end_char(tags[k], '/'), version),
        forall|j: int| 0 <= j < k ==> !same_version(trim_end_char(#[trigger] tags[j], '/'), version),
    ensures
        first_same_tag(tags, version) == Some(trim_end_char(tags[k], '/')),
    decreases k,
{
    if k > 0 {
        assert forall|j: int| 0 <= j < k - 1 implies !same_version(trim_end_char(#[trigger] tags.skip(1)[j], '/'), version) by {
            assert(tags.skip(1)[j] == tags[j + 1]);
        }
        lemma_first_same_tag_at(tags.skip(1), version, k - 1);
    }
}

proof fn lemma_first_same_tag_none(tags: Seq<Seq<char>>, version: Seq<char>)
    requires
        forall|j: int| 0 <= j < tags.len() ==> !same_version(trim_end_char(#[trigger] tags[j], '/'), version),
    ensures
        first_same_tag(tags, version) is None,
    decreases tags.len(),
{
    if tags.len() > 0 {
        assert forall|j: int| 0 <= j < tags.len() - 1 implies !same_version(trim_end_char(#[trigger] tags.skip(1)[j], '/'), version) by {
            assert(tags.skip(1)[j] == tags[j + 1]);
        }
        lemma_first_same_tag_none(tags.skip(1), version);
    }
}

/// V03: the version is newer than the previous release and not yet tagged.
pub open spec fn v03_spec(input: VerifyInput) -> CheckView {
    let c = block("V03"@, "Version is newer than the previous release and not yet tagged"@);
    match parse_version(input.version@) {
        None => failed(c, "The version cannot be compared because it is invalid."@, "Fix V02 first."@),
        Some(version) => {
            let previous = previous_release(input);
            let suggestion = match previous {
                Some(p) => next_patch_of(p).raw,
                None => "1.0.0"@,
            };
            match first_same_tag(texts(input.server_tags@), input.version@) {
                Some(tag) => with_paths(
                    failed(
                        c,
                        "tags/"@ + tag + " already exists on the server."@,
                        "Release a new version, for example "@ + suggestion + "."@,
                    ),
                    seq!["tags/"@ + tag],
                ),
                None => match previous {
                    Some(p) => if version_order(version, p) <= 0 {
                        failed(
                            c,
                            version.raw + " is not newer than the previous release "@ + p.raw + "."@,
                            "Use a newer version, for example "@ + suggestion + "."@,
                        )
                    } else {
                        passed(c, version.raw + " is newer than "@ + p.raw + "."@)
                    },
                    None => passed(c, "This is the first release."@),
                },
            }
        },
    }
}

fn v03(input: &VerifyInput<'_>) -> (r: CheckResult)
    requires
        v03_ready(*input),
    ensures
        r@ == v03_spec(*input),
{
    let c = check("V03", "Version is newer than the previous release and not yet tagged");
    let version = match Version::parse(input.version) {
        Ok(v) => v,
        Err(_) => {
            return c.fail(
                "The version cannot be compared because it is invalid.".to_owned(),
                "Fix V02 first.".to_owned(),
            );
        },
    };
    let tags_in = input.server_tags;
    let mut tags: Vec<&str> = Vec::new();
    let mut i: usize = 0;
    while i < tags_in.len()
        invariant
            i <= tags_in@.len(),
            tags_in@ == input.server_tags@,
            tags@.map_values(|t: &str| t@) == texts(tags_in@.take(i as int)),
        decreases tags_in@.len() - i,
    {
        tags.push(tags_in[i].as_str());
        proof {
            assert(texts(tags_in@.take(i + 1)) =~= texts(tags_in@.take(i as int)).push(tags_in@[i as int]@));
        }
        i = i + 1;
    }
    proof {
        assert(tags_in@.take(tags_in@.len() as int) =~= tags_in@);
    }
    let newest_tag = newest(tags.as_slice());
    let given = match input.previous {
        Some(p) => match Version::parse(p) {
            Ok(v) => Some(v),
            Err(_) => None,
        },
        None => None,
    };
    let previous: Option<Version> = match given {
        Some(a) => match newest_tag {
            Some(b) => if a.order(&b) <= 0 {
                Some(b)
            } else {
                Some(a)
            },
            None => Some(a),
        },
        None => newest_tag,
    };
    let suggestion: String = match &previous {
        Some(p) => p.next_patch().as_str().to_owned(),
        None => "1.0.0".to_owned(),
    };
    let ghost tag_views = texts(input.server_tags@);
    let mut k: usize = 0;
    while k < tags.len()
        invariant
            k <= tags@.len(),
            tags@.map_values(|t: &str| t@) == tag_views,
            tag_views == texts(input.server_tags@),
            forall|j: int| 0 <= j < k ==> !same_version(trim_end_char(#[trigger] tag_views[j], '/'), input.version@),
            c@ == block("V03"@, "Version is newer than the previous release and not yet tagged"@),
            parse_version(input.version@) == Some(version@),
            suggestion@ == (match previous_release(*input) {
                Some(p) => next_patch_of(p).raw,
                None => "1.0.0"@,
            }),
        decreases tags@.len() - k,
    {
        let chars = to_chars(tags[k]);
        let trimmed = trim_end_of(chars.as_slice(), '/');
        let tag = crate::strings::from_chars(trimmed.as_slice());
        proof {
            assert(tag_views[k as int] == tags@[k as int]@);
        }
        if same_version_exec(tag.as_str(), input.version) {
            proof {
                lemma_first_same_tag_at(tag_views, input.version@, k as int);
            }
            let mut m = "tags/".to_owned();
            m.append(tag.as_str());
            m.append(" already exists on the server.");
            let mut f = "Release a new version, for example ".to_owned();
            f.append(suggestion.as_str());
            f.append(".");
            let mut p = "tags/".to_owned();
            p.append(tag.as_str());
            return c.fail(m, f).with_paths(one_path(p));
        }
        k = k + 1;
    }
    proof {
        lemma_first_same_tag_none(tag_views, input.version@);
    }
    match previous {
        Some(p) => {
            if version.order(&p) <= 0 {
                let mut m = version.as_str().to_owned();
                m.append(" is not newer than the previous release ");
                m.append(p.as_str());
                m.append(".");
                let mut f = "Use a newer version, for example ".to_owned();
                f.append(suggestion.as_str());
                f.append(".");
                c.fail(m, f)
            } else {
                let mut m = version.as_str().to_owned();
                m.append(" is newer than ");
                m.append(p.as_str());
                m.append(".");
                c.pass(m)
            }
        },
        None => c.pass("This is the first release.".to_owned()),
    }
}

// ---------------------------------------------------------------------------
// V04 – V07: the readme
// ---------------------------------------------------------------------------

/// Whether a changelog entry names `version`.
pub open spec fn entry_names(entry: ChangelogEntry, version: Seq<char>) -> bool {
    entry.version matches Some(v) && same_version(v@, version)
}

/// V04: the newest changelog entry is this version.
pub open spec fn v04_spec(input: VerifyInput) -> CheckView {
    let c = block("V04"@, "Readme changelog names this version first"@);
    match input.facts.readme {
        None => failed(c, readme_missing(), readme_fix()),
        Some(readme) => if readme.changelog@.len() == 0 {
            with_paths(
                failed(
                    c,
                    "The readme has no changelog entries."@,
                    "Insert a \"= "@ + input.version@ + " =\" entry under == Changelog ==."@,
                ),
                readme_path(),
            )
        } else if entry_names(readme.changelog@[0], input.version@) {
            passed(c, "The newest changelog entry is "@ + readme.changelog@[0].title@ + "."@)
        } else {
            with_paths(
                failed(
                    c,
                    "The newest changelog entry is \""@ + readme.changelog@[0].title@ + "\"."@,
                    "Insert a \"= "@ + input.version@ + " =\" entry at the top of == Changelog ==."@,
                ),
                readme_path(),
            )
        },
    }
}

fn v04(input: &VerifyInput<'_>) -> (r: CheckResult)
    ensures
        r@ == v04_spec(*input),
{
    let c = check("V04", "Readme changelog names this version first");
    let readme = match &input.facts.readme {
        None => return c.fail(
            "readme.txt is missing from the package root.".to_owned(),
            "Add a readme.txt that follows the WordPress.org readme standard.".to_owned(),
        ),
        Some(r) => r,
    };
    if readme.changelog.len() == 0 {
        let mut f = "Insert a \"= ".to_owned();
        f.append(input.version);
        f.append(" =\" entry under == Changelog ==.");
        return c.fail("The readme has no changelog entries.".to_owned(), f).with_paths(readme_paths());
    }
    let entry = &readme.changelog[0];
    let names = match &entry.version {
        Some(v) => same_version_exec(v.as_str(), input.version),
        None => false,
    };
    if names {
        let mut m = "The newest changelog entry is ".to_owned();
        m.append(entry.title.as_str());
        m.append(".");
        c.pass(m)
    } else {
        let mut m = "The newest changelog entry is \"".to_owned();
        m.append(entry.title.as_str());
        m.append("\".");
        let mut f = "Insert a \"= ".to_owned();
        f.append(input.version);
        f.append(" =\" entry at the top of == Changelog ==.");
        c.fail(m, f).with_paths(readme_paths())
    }
}

/// Whether the readme header `name` is missing or empty.
pub open spec fn header_missing(readme: Readme, name: Seq<char>) -> bool {
    match header_value(readme, name) {
        Some(v) => v.len() == 0,
        None => true,
    }
}

/// The required headers that are missing or empty, in order.
pub open spec fn missing_headers(readme: Readme, names: Seq<Seq<char>>) -> Seq<Seq<char>>
    decreases names.len(),
{
    if names.len() == 0 {
        Seq::empty()
    } else if header_missing(readme, names.last()) {
        missing_headers(readme, names.drop_last()).push(names.last())
    } else {
        missing_headers(readme, names.drop_last())
    }
}

/// Everything V05 finds missing: the plugin name line, then the headers.
pub open spec fn v05_missing(readme: Readme) -> Seq<Seq<char>> {
    let name: Seq<Seq<char>> = if readme.name is None {
        seq!["=== Plugin Name ==="@]
    } else {
        Seq::empty()
    };
    name + missing_headers(readme, required_header_names())
}

/// V05: the readme has every required header.
pub open spec fn v05_spec(input: VerifyInput) -> CheckView {
    let c = block("V05"@, "Readme has every required header"@);
    match input.facts.readme {
        None => failed(c, readme_missing(), readme_fix()),
        Some(readme) => {
            let missing = v05_missing(readme);
            if missing.len() == 0 {
                passed(c, "All required headers are present."@)
            } else {
                with_paths(
                    failed(
                        c,
                        "Missing: "@ + join(missing, ", "@) + "."@,
                        "Add the missing lines to the header block at the top of readme.txt."@,
                    ),
                    readme_path(),
                )
            }
        },
    }
}

fn v05(input: &VerifyInput<'_>) -> (r: CheckResult)
    ensures
        r@ == v05_spec(*input),
{
    let c = check("V05", "Readme has every required header");
    let readme = match &input.facts.readme {
        None => return c.fail(
            "readme.txt is missing from the package root.".to_owned(),
            "Add a readme.txt that follows the WordPress.org readme standard.".to_owned(),
        ),
        Some(r) => r,
    };
    let mut missing: Vec<String> = Vec::new();
    if readme.name.is_none() {
        missing.push("=== Plugin Name ===".to_owned());
    }
    let ghost start = texts(missing@);
    let names = required_headers();
    let ghost name_views = names@.map_values(|s: &str| s@);
    let mut i: usize = 0;
    while i < names.len()
        invariant
            i <= names@.len(),
            name_views == names@.map_values(|s: &str| s@),
            name_views == required_header_names(),
            texts(missing@) == start + missing_headers(*readme, name_views.take(i as int)),
        decreases names@.len() - i,
    {
        proof {
            assert(name_views.take(i + 1).drop_last() =~= name_views.take(i as int));
            assert(name_views.take(i + 1).last() == names@[i as int]@);
        }
        let absent = match readme.header(names[i]) {
            Some(h) => h.value.as_str().is_empty(),
            None => true,
        };
        proof {
            assert(absent == header_missing(*readme, names@[i as int]@));
        }
        let ghost before = texts(missing@);
        if absent {
            missing.push(names[i].to_owned());
            proof {
                assert(texts(missing@) =~= before.push(names@[i as int]@));
            }
        }
        proof {
            assert(texts(missing@) =~= start + missing_headers(*readme, name_views.take(i + 1)));
        }
        i = i + 1;
    }
    proof {
        assert(name_views.take(names@.len() as int) =~= name_views);
        assert(texts(missing@) =~= v05_missing(*readme));
    }
    if missing.len() == 0 {
        c.pass("All required headers are present.".to_owned())
    } else {
        let list = join_texts(missing.as_slice(), ", ");
        let mut m = "Missing: ".to_owned();
        m.append(list.as_str());
        m.append(".");
        c.fail(m, "Add the missing lines to the header block at the top of readme.txt.".to_owned())
            .with_paths(readme_paths())
    }
}

/// V06: the stable tag is this version.
pub open spec fn v06_spec(input: VerifyInput) -> CheckView {
    let c = block("V06"@, "Stable tag is this version"@);
    let fix = "Set \"Stable tag: "@ + input.version@ + "\" in readme.txt."@;
    match input.facts.readme {
        None => failed(c, readme_missing(), readme_fix()),
        Some(readme) => match header_value(readme, "Stable tag"@) {
            Some(tag) => if same_name(tag, "trunk"@) {
                with_paths(
                    failed(
                        c,
                        "Stable tag is trunk. WordPress.org would serve unreleased trunk code instead of the tag."@,
                        fix,
                    ),
                    readme_path(),
                )
            } else if tag == input.version@ {
                passed(c, "Stable tag is "@ + tag + "."@)
            } else {
                with_paths(failed(c, "Stable tag is "@ + tag + "."@, fix), readme_path())
            },
            None => with_paths(failed(c, "readme.txt has no Stable tag header."@, fix), readme_path()),
        },
    }
}

fn v06(input: &VerifyInput<'_>) -> (r: CheckResult)
    ensures
        r@ == v06_spec(*input),
{
    let c = check("V06", "Stable tag is this version");
    let readme = match &input.facts.readme {
        None => return c.fail(
            "readme.txt is missing from the package root.".to_owned(),
            "Add a readme.txt that follows the WordPress.org readme standard.".to_owned(),
        ),
        Some(r) => r,
    };
    let mut fix = "Set \"Stable tag: ".to_owned();
    fix.append(input.version);
    fix.append("\" in readme.txt.");
    match readme.header("Stable tag") {
        Some(h) => {
            let tag = h.value.as_str();
            if crate::plugin::eq_ignore_case(tag, "trunk") {
                c.fail(
                    "Stable tag is trunk. WordPress.org would serve unreleased trunk code instead of the tag.".to_owned(),
                    fix,
                ).with_paths(readme_paths())
            } else if h.value == input.version.to_owned() {
                let mut m = "Stable tag is ".to_owned();
                m.append(tag);
                m.append(".");
                c.pass(m)
            } else {
                let mut m = "Stable tag is ".to_owned();
                m.append(tag);
                m.append(".");
                c.fail(m, fix).with_paths(readme_paths())
            }
        },
        None => c.fail("readme.txt has no Stable tag header.".to_owned(), fix).with_paths(readme_paths()),
    }
}

/// V07: the short description is 150 characters or fewer.
pub open spec fn v07_spec(input: VerifyInput) -> CheckView {
    let c = block("V07"@, "Short description is 150 characters or fewer"@);
    match input.facts.readme {
        None => failed(c, readme_missing(), readme_fix()),
        Some(readme) => {
            let count = readme.short_description@.len();
            if count == 0 {
                with_paths(
                    failed(
                        c,
                        "The short description is empty."@,
                        "Add one sentence under the readme headers describing the plugin."@,
                    ),
                    readme_path(),
                )
            } else if count > SHORT_DESCRIPTION_LIMIT {
                with_paths(
                    failed(
                        c,
                        "The short description is "@ + decimal(count) + " characters."@,
                        "Shorten it by "@ + decimal((count - SHORT_DESCRIPTION_LIMIT) as nat) + " characters."@,
                    ),
                    readme_path(),
                )
            } else {
                passed(c, decimal(count) + " characters."@)
            }
        },
    }
}

fn v07(input: &VerifyInput<'_>) -> (r: CheckResult)
    ensures
        r@ == v07_spec(*input),
{
    let c = check("V07", "Short description is 150 characters or fewer");
    let readme = match &input.facts.readme {
        None => return c.fail(
            "readme.txt is missing from the package root.".to_owned(),
            "Add a readme.txt that follows the WordPress.org readme standard.".to_owned(),
        ),
        Some(r) => r,
    };
    let chars = to_chars(readme.short_description.as_str());
    let count = chars.len();
    if count == 0 {
        c.fail(
            "The short description is empty.".to_owned(),
            "Add one sentence under the readme headers describing the plugin.".to_owned(),
        ).with_paths(readme_paths())
    } else if count > SHORT_DESCRIPTION_LIMIT {
        let mut m = "The short description is ".to_owned();
        m.append(decimal_string(count as u64).as_str());
        m.append(" characters.");
        let mut f = "Shorten it by ".to_owned();
        f.append(decimal_string((count - SHORT_DESCRIPTION_LIMIT) as u64).as_str());
        f.append(" characters.");
        c.fail(m, f).with_paths(readme_paths())
    } else {
        let mut m = decimal_string(count as u64);
        m.append(" characters.");
        c.pass(m)
    }
}

// ---------------------------------------------------------------------------
// V08 – V09: the main file
// ---------------------------------------------------------------------------

/// V08: the text domain is the slug.
pub open spec fn v08_spec(input: VerifyInput) -> CheckView {
    let c = block("V08"@, "Text Domain equals the slug"@);
    let slug = input.facts.slug@;
    let fix = "Set \"Text Domain: "@ + slug + "\" in the plugin header."@;
    match input.facts.header.text_domain {
        Some(d) => if d@ == slug {
            passed(c, "Text Domain is "@ + d@ + "."@)
        } else {
            with_paths(
                failed(c, "Text Domain is "@ + d@ + ", the slug is "@ + slug + "."@, fix),
                seq![input.facts.main_file@],
            )
        },
        None => with_paths(failed(c, "The plugin header has no Text Domain."@, fix), seq![input.facts.main_file@]),
    }
}

fn v08(input: &VerifyInput<'_>) -> (r: CheckResult)
    ensures
        r@ == v08_spec(*input),
{
    let c = check("V08", "Text Domain equals the slug");
    let slug = &input.facts.slug;
    let mut fix = "Set \"Text Domain: ".to_owned();
    fix.append(slug.as_str());
    fix.append("\" in the plugin header.");
    match &input.facts.header.text_domain {
        Some(d) => {
            if *d == *slug {
                let mut m = "Text Domain is ".to_owned();
                m.append(d.as_str());
                m.append(".");
                c.pass(m)
            } else {
                let mut m = "Text Domain is ".to_owned();
                m.append(d.as_str());
                m.append(", the slug is ");
                m.append(slug.as_str());
                m.append(".");
                c.fail(m, fix).with_paths(one_path(input.facts.main_file.clone()))
            }
        },
        None => c.fail("The plugin header has no Text Domain.".to_owned(), fix).with_paths(
            one_path(input.facts.main_file.clone()),
        ),
    }
}

/// `s` without any whitespace.
pub open spec fn without_space(s: Seq<char>) -> Seq<char> {
    s.filter(|c: char| !is_space(c))
}

/// The guards V09 accepts, with spaces removed.
pub open spec fn guards() -> Seq<Seq<char>> {
    seq![
        "defined('ABSPATH')"@,
        "defined(\"ABSPATH\")"@,
        "defined('WPINC')"@,
        "defined(\"WPINC\")"@,
    ]
}

/// Whether the main file checks `ABSPATH` or `WPINC` before running.
pub open spec fn guarded(text: Seq<char>) -> bool {
    exists|k: int| 0 <= k < guards().len() && contains(without_space(text), #[trigger] guards()[k])
}

/// V09: the main file blocks direct access.
pub open spec fn v09_spec(input: VerifyInput) -> CheckView {
    let c = block("V09"@, "Main plugin file blocks direct access"@);
    if guarded(input.main_file_text@) {
        passed(c, "The file checks ABSPATH before running."@)
    } else {
        with_paths(
            failed(
                c,
                "The main plugin file does not check ABSPATH."@,
                "Add near the top: if ( ! defined( 'ABSPATH' ) ) { exit; }"@,
            ),
            seq![input.facts.main_file@],
        )
    }
}

fn compact(text: &str) -> (r: Vec<char>)
    ensures
        r@ == without_space(text@),
{
    let chars = to_chars(text);
    let mut out: Vec<char> = Vec::new();
    let mut i: usize = 0;
    while i < chars.len()
        invariant
            i <= chars@.len(),
            chars@ == text@,
            out@ == chars@.take(i as int).filter(|c: char| !is_space(c)),
        decreases chars@.len() - i,
    {
        proof {
            reveal(Seq::filter);
            assert(chars@.take(i + 1).drop_last() =~= chars@.take(i as int));
        }
        if !crate::strings::space(chars[i]) {
            out.push(chars[i]);
        }
        i = i + 1;
    }
    proof {
        assert(chars@.take(chars@.len() as int) =~= chars@);
    }
    out
}

fn v09(input: &VerifyInput<'_>) -> (r: CheckResult)
    ensures
        r@ == v09_spec(*input),
{
    let c = check("V09", "Main plugin file blocks direct access");
    let text = compact(input.main_file_text);
    let candidates = vec!["defined('ABSPATH')", "defined(\"ABSPATH\")", "defined('WPINC')", "defined(\"WPINC\")"];
    proof {
        assert(candidates@.map_values(|s: &str| s@) =~= guards());
    }
    let mut found = false;
    let mut k: usize = 0;
    while k < candidates.len()
        invariant
            k <= candidates@.len(),
            candidates@.map_values(|s: &str| s@) == guards(),
            text@ == without_space(input.main_file_text@),
            found == exists|j: int| 0 <= j < k && contains(text@, #[trigger] guards()[j]),
        decreases candidates@.len() - k,
    {
        let g = to_chars(candidates[k]);
        proof {
            assert(guards()[k as int] == candidates@[k as int]@);
        }
        if has_infix(text.as_slice(), g.as_slice()) {
            found = true;
        }
        k = k + 1;
    }
    if found {
        c.pass("The file checks ABSPATH before running.".to_owned())
    } else {
        c.fail(
            "The main plugin file does not check ABSPATH.".to_owned(),
            "Add near the top: if ( ! defined( 'ABSPATH' ) ) { exit; }".to_owned(),
        ).with_paths(one_path(input.facts.main_file.clone()))
    }
}

// ---------------------------------------------------------------------------
// V10 – V13: the package
// ---------------------------------------------------------------------------

/// `s` with `c` removed from both ends (`trim_matches(c)`).
pub open spec fn trim_char(s: Seq<char>, c: char) -> Seq<char> {
    trim_end_char(crate::strings::trim_start_char(s, c), c)
}

/// `s` without consecutive repeats (`Vec::dedup`).
pub open spec fn dedup(s: Seq<Seq<char>>) -> Seq<Seq<char>>
    decreases s.len(),
{
    if s.len() <= 1 {
        s
    } else if s.last() == s[s.len() - 2] {
        dedup(s.drop_last())
    } else {
        dedup(s.drop_last()).push(s.last())
    }
}

proof fn lemma_dedup_last(s: Seq<Seq<char>>)
    requires
        s.len() > 0,
    ensures
        dedup(s).len() > 0,
        dedup(s).last() == s.last(),
    decreases s.len(),
{
    if s.len() > 1 {
        lemma_dedup_last(s.drop_last());
    }
}

/// The paths V10 requires: the main file, the readme, then the project's own,
/// without surrounding `/`, consecutive repeats removed.
pub open spec fn required_list(input: VerifyInput) -> Seq<Seq<char>> {
    dedup(
        seq![input.facts.main_file@, README_FILE@] + texts(input.required_paths@).map_values(
            |p: Seq<char>| trim_char(p, '/'),
        ),
    )
}

/// Whether a package file is `path` or lies under it.
pub open spec fn covers(rel: Seq<char>, path: Seq<char>) -> bool {
    rel == path || starts_with(rel, path + seq!['/'])
}

/// Whether some package file is `path` or lies under it.
pub open spec fn packaged(files: Seq<FileRef>, path: Seq<char>) -> bool {
    exists|i: int| 0 <= i < files.len() && covers((#[trigger] files[i]).rel@, path)
}

/// The required paths no package file covers.
pub open spec fn missing_paths(files: Seq<FileRef>, required: Seq<Seq<char>>) -> Seq<Seq<char>>
    decreases required.len(),
{
    if required.len() == 0 {
        Seq::empty()
    } else if !packaged(files, required.last()) {
        missing_paths(files, required.drop_last()).push(required.last())
    } else {
        missing_paths(files, required.drop_last())
    }
}

/// V10: the package contains every required path.
pub open spec fn v10_spec(input: VerifyInput) -> CheckView {
    let c = block("V10"@, "Package contains every required path"@);
    let missing = missing_paths(input.files@, required_list(input));
    if missing.len() == 0 {
        passed(c, "All required paths are in the package."@)
    } else {
        with_paths(
            failed(
                c,
                "Missing from the package: "@ + join(missing, ", "@) + "."@,
                "Add the files, or remove the rule in .distignore that excludes them."@,
            ),
            missing,
        )
    }
}

fn is_packaged(files: &[FileRef<'_>], path: &str) -> (b: bool)
    ensures
        b == packaged(files@, path@),
{
    let p = to_chars(path);
    let mut under = to_chars(path);
    under.push('/');
    let mut i: usize = 0;
    while i < files.len()
        invariant
            i <= files@.len(),
            p@ == path@,
            under@ == path@ + seq!['/'],
            forall|j: int| 0 <= j < i ==> !covers((#[trigger] files@[j]).rel@, path@),
        decreases files@.len() - i,
    {
        let rel = to_chars(files[i].rel);
        let same = files[i].rel.to_owned() == path.to_owned();
        if same || has_prefix(rel.as_slice(), under.as_slice()) {
            assert(covers(files@[i as int].rel@, path@));
            return true;
        }
        i = i + 1;
    }
    false
}

fn v10(input: &VerifyInput<'_>) -> (r: CheckResult)
    ensures
        r@ == v10_spec(*input),
{
    let c = check("V10", "Package contains every required path");
    let mut all: Vec<String> = Vec::new();
    all.push(input.facts.main_file.clone());
    all.push(README_FILE.to_owned());
    let extra = input.required_paths;
    let ghost first = texts(all@);
    let mut i: usize = 0;
    while i < extra.len()
        invariant
            i <= extra@.len(),
            extra@ == input.required_paths@,
            first == seq![input.facts.main_file@, README_FILE@],
            texts(all@) == first + texts(extra@.take(i as int)).map_values(|p: Seq<char>| trim_char(p, '/')),
        decreases extra@.len() - i,
    {
        let chars = to_chars(extra[i].as_str());
        let a = trim_start_of(chars.as_slice(), '/');
        let b = trim_end_of(a.as_slice(), '/');
        let ghost before = texts(all@);
        all.push(crate::strings::from_chars(b.as_slice()));
        proof {
            assert(texts(extra@.take(i + 1)).map_values(|p: Seq<char>| trim_char(p, '/')) =~= texts(
                extra@.take(i as int),
            ).map_values(|p: Seq<char>| trim_char(p, '/')).push(trim_char(extra@[i as int]@, '/')));
            assert(texts(all@) =~= before.push(trim_char(extra@[i as int]@, '/')));
            assert(texts(all@) =~= first + texts(extra@.take(i + 1)).map_values(|p: Seq<char>| trim_char(p, '/')));
        }
        i = i + 1;
    }
    proof {
        assert(extra@.take(extra@.len() as int) =~= extra@);
    }
    let ghost listed = texts(all@);
    // Remove consecutive repeats.
    let mut required: Vec<String> = Vec::new();
    let mut k: usize = 0;
    while k < all.len()
        invariant
            k <= all@.len(),
            texts(all@) == listed,
            texts(required@) == dedup(listed.take(k as int)),
            k > 0 ==> required@.len() > 0 && required@.last()@ == listed[k - 1],
        decreases all@.len() - k,
    {
        proof {
            assert(listed.take(k + 1).drop_last() =~= listed.take(k as int));
            if k > 0 {
                assert(listed.take(k + 1)[k - 1] == listed[k - 1]);
            }
        }
        let keep = required.len() == 0 || !(required[required.len() - 1] == all[k]);
        if keep {
            required.push(all[k].clone());
        }
        proof {
            if k == 0 {
                assert(listed.take(1) =~= seq![listed[0]]);
            }
            lemma_dedup_last(listed.take(k + 1));
        }
        k = k + 1;
    }
    proof {
        assert(listed.take(all@.len() as int) =~= listed);
    }
    let ghost req = texts(required@);
    let mut missing: Vec<String> = Vec::new();
    let mut j: usize = 0;
    while j < required.len()
        invariant
            j <= required@.len(),
            req == texts(required@),
            req == required_list(*input),
            texts(missing@) == missing_paths(input.files@, req.take(j as int)),
        decreases required@.len() - j,
    {
        proof {
            assert(req.take(j + 1).drop_last() =~= req.take(j as int));
            assert(req.take(j + 1).last() == required@[j as int]@);
        }
        if !is_packaged(input.files, required[j].as_str()) {
            missing.push(required[j].clone());
        }
        j = j + 1;
    }
    proof {
        assert(req.take(required@.len() as int) =~= req);
    }
    if missing.len() == 0 {
        c.pass("All required paths are in the package.".to_owned())
    } else {
        let list = join_texts(missing.as_slice(), ", ");
        let mut m = "Missing from the package: ".to_owned();
        m.append(list.as_str());
        m.append(".");
        c.fail(m, "Add the files, or remove the rule in .distignore that excludes them.".to_owned())
            .with_paths(missing)
    }
}

/// The part of `rel` after its last `/`.
pub open spec fn file_name(rel: Seq<char>) -> Seq<char> {
    match last_index(rel, '/') {
        Some(k) => rel.skip(k + 1),
        None => rel,
    }
}

/// Whether the lowercased file name of `rel` ends with one of `extensions`.
pub open spec fn has_extension(rel: Seq<char>, extensions: Seq<Seq<char>>) -> bool {
    exists|k: int| 0 <= k < extensions.len() && ends_with(lower(file_name(rel)), #[trigger] extensions[k])
}

fn file_name_of(rel: &[char]) -> (r: Vec<char>)
    ensures
        r@ == file_name(rel@),
{
    match last_index_of(rel, '/') {
        Some(k) => {
            let n = rel.len();
            assert(k < n);
            let r = slice_chars(rel, k + 1, n);
            assert(r@ =~= rel@.skip(k + 1));
            r
        },
        None => slice_chars(rel, 0, rel.len()),
    }
}

fn has_extension_exec(rel: &str, extensions: &[&str]) -> (b: bool)
    ensures
        b == has_extension(rel@, extensions@.map_values(|e: &str| e@)),
{
    let chars = to_chars(rel);
    let name = file_name_of(chars.as_slice());
    let lowered = to_lower(name.as_slice());
    let ghost exts = extensions@.map_values(|e: &str| e@);
    let mut k: usize = 0;
    while k < extensions.len()
        invariant
            k <= extensions@.len(),
            exts == extensions@.map_values(|e: &str| e@),
            lowered@ == lower(file_name(rel@)),
            forall|j: int| 0 <= j < k ==> !ends_with(lower(file_name(rel@)), #[trigger] exts[j]),
        decreases extensions@.len() - k,
    {
        let e = to_chars(extensions[k]);
        proof {
            assert(exts[k as int] == extensions@[k as int]@);
        }
        if has_suffix(lowered.as_slice(), e.as_slice()) {
            return true;
        }
        k = k + 1;
    }
    false
}

/// Names that never belong in a package, lowercased.
pub open spec fn forbidden_names() -> Seq<Seq<char>> {
    seq![".git"@, ".svn"@, ".hg"@, ".svnpush.json"@, ".distignore"@, ".ds_store"@, "thumbs.db"@]
}

/// Whether some `/`-separated part of `rel` is a forbidden name, ignoring ASCII case.
pub open spec fn has_forbidden_part(rel: Seq<char>) -> bool {
    exists|i: int, k: int|
        0 <= i < split_char(rel, '/').len() && 0 <= k < forbidden_names().len() && lower(
            #[trigger] split_char(rel, '/')[i],
        ) == #[trigger] forbidden_names()[k]
}

/// Whether V11 refuses `rel`.
pub open spec fn forbidden_path(rel: Seq<char>) -> bool {
    has_forbidden_part(rel) || has_extension(rel, seq![".zip"@, ".tar.gz"@]) || secret_file(rel)
}

/// Whether a file holds a secret: what never reaches an AI prompt (`.env*`,
/// `*.pem`, `*.key`, `wp-config.php`), or a private SSH key (`id_rsa`,
/// `id_dsa`, `id_ecdsa`, `id_ed25519`), by file name, ignoring ASCII case.
pub open spec fn secret_file(rel: Seq<char>) -> bool {
    crate::run::material::secret_like(rel) || ssh_key_names().contains(
        lower(crate::run::material::base_name(rel)),
    )
}

/// The file names of private SSH keys.
pub open spec fn ssh_key_names() -> Seq<Seq<char>> {
    seq!["id_rsa"@, "id_dsa"@, "id_ecdsa"@, "id_ed25519"@]
}

fn is_secret_file(rel: &str) -> (b: bool)
    ensures
        b == secret_file(rel@),
{
    if crate::run::material::looks_secret(rel) {
        return true;
    }
    let chars = to_chars(rel);
    let n = chars.len();
    let start = match last_index_of(chars.as_slice(), '/') {
        Some(k) => {
            assert(k < n);
            k + 1
        },
        None => 0,
    };
    let base = slice_chars(chars.as_slice(), start, n);
    proof {
        assert(base@ =~= crate::run::material::base_name(rel@));
    }
    let name = crate::strings::from_chars(to_lower(base.as_slice()).as_slice());
    let keys = vec!["id_rsa", "id_dsa", "id_ecdsa", "id_ed25519"];
    proof {
        assert(keys@.map_values(|s: &str| s@) =~= ssh_key_names());
    }
    let mut i: usize = 0;
    while i < keys.len()
        invariant
            i <= keys@.len(),
            keys@.map_values(|s: &str| s@) == ssh_key_names(),
            name@ == lower(crate::run::material::base_name(rel@)),
            forall|j: int| 0 <= j < i ==> ssh_key_names()[j] != name@,
        decreases keys@.len() - i,
    {
        proof {
            assert(ssh_key_names()[i as int] == keys@[i as int]@);
        }
        if crate::sorting::same_text(name.as_str(), keys[i]) {
            proof {
                assert(ssh_key_names()[i as int] == name@);
            }
            return true;
        }
        i = i + 1;
    }
    false
}

/// The package files `pred` holds of, in order.
pub open spec fn files_where(files: Seq<FileRef>, pred: spec_fn(Seq<char>) -> bool) -> Seq<Seq<char>>
    decreases files.len(),
{
    if files.len() == 0 {
        Seq::empty()
    } else if pred(files.last().rel@) {
        files_where(files.drop_last(), pred).push(files.last().rel@)
    } else {
        files_where(files.drop_last(), pred)
    }
}

/// V11: the package contains no forbidden path.
pub open spec fn v11_spec(input: VerifyInput) -> CheckView {
    let c = block("V11"@, "Package contains no forbidden path"@);
    let offending = files_where(input.files@, |r: Seq<char>| forbidden_path(r));
    if offending.len() == 0 {
        passed(c, "No forbidden paths."@)
    } else {
        with_paths(
            failed(
                c,
                decimal(offending.len()) + " forbidden path(s) in the package."@,
                "These are always excluded; remove them from the package root."@,
            ),
            offending,
        )
    }
}

fn is_forbidden_path(rel: &str) -> (b: bool)
    ensures
        b == forbidden_path(rel@),
{
    if is_secret_file(rel) {
        return true;
    }
    let names = vec![".git", ".svn", ".hg", ".svnpush.json", ".distignore", ".ds_store", "thumbs.db"];
    proof {
        assert(names@.map_values(|s: &str| s@) =~= forbidden_names());
    }
    let chars = to_chars(rel);
    let parts = split_on(chars.as_slice(), '/');
    let mut i: usize = 0;
    while i < parts.len()
        invariant
            i <= parts@.len(),
            chars@ == rel@,
            names@.map_values(|s: &str| s@) == forbidden_names(),
            parts@.len() == split_char(rel@, '/').len(),
            forall|j: int| 0 <= j < parts@.len() ==> #[trigger] parts@[j]@ == split_char(rel@, '/')[j],
            forall|j: int, k: int|
                0 <= j < i && 0 <= k < forbidden_names().len() ==> lower(#[trigger] split_char(rel@, '/')[j])
                    != #[trigger] forbidden_names()[k],
        decreases parts@.len() - i,
    {
        let lowered = to_lower(parts[i].as_slice());
        let text = crate::strings::from_chars(lowered.as_slice());
        let mut k: usize = 0;
        while k < names.len()
            invariant
                k <= names@.len(),
                names@.map_values(|s: &str| s@) == forbidden_names(),
                i < parts@.len(),
                parts@.len() == split_char(rel@, '/').len(),
                text@ == lower(split_char(rel@, '/')[i as int]),
                forall|m: int| 0 <= m < k ==> text@ != #[trigger] forbidden_names()[m],
            decreases names@.len() - k,
        {
            proof {
                assert(forbidden_names()[k as int] == names@[k as int]@);
            }
            if text == names[k].to_owned() {
                proof {
                    assert(lower(split_char(rel@, '/')[i as int]) == forbidden_names()[k as int]);
                }
                return true;
            }
            k = k + 1;
        }
        i = i + 1;
    }
    let exts = vec![".zip", ".tar.gz"];
    proof {
        assert(exts@.map_values(|e: &str| e@) =~= seq![".zip"@, ".tar.gz"@]);
    }
    has_extension_exec(rel, exts.as_slice())
}

/// The package files that `pred` holds of, for a predicate computed by `test`.
fn offending_files(files: &[FileRef<'_>], allow_phar: bool, which: u8) -> (out: Vec<String>)
    requires
        which <= 1,
    ensures
        which == 0 ==> texts(out@) == files_where(files@, |r: Seq<char>| forbidden_path(r)),
        which == 1 ==> texts(out@) == files_where(files@, |r: Seq<char>| refused_path(r, allow_phar)),
{
    let mut out: Vec<String> = Vec::new();
    let mut i: usize = 0;
    while i < files.len()
        invariant
            i <= files@.len(),
            which <= 1,
            which == 0 ==> texts(out@) == files_where(files@.take(i as int), |r: Seq<char>| forbidden_path(r)),
            which == 1 ==> texts(out@) == files_where(files@.take(i as int), |r: Seq<char>| refused_path(r, allow_phar)),
        decreases files@.len() - i,
    {
        proof {
            assert(files@.take(i + 1).drop_last() =~= files@.take(i as int));
            assert(files@.take(i + 1).last() == files@[i as int]);
        }
        let hit = if which == 0 {
            is_forbidden_path(files[i].rel)
        } else {
            is_refused_path(files[i].rel, allow_phar)
        };
        if hit {
            out.push(files[i].rel.to_owned());
        }
        i = i + 1;
    }
    proof {
        assert(files@.take(files@.len() as int) =~= files@);
    }
    out
}

fn v11(input: &VerifyInput<'_>) -> (r: CheckResult)
    ensures
        r@ == v11_spec(*input),
{
    let c = check("V11", "Package contains no forbidden path");
    let offending = offending_files(input.files, input.allow_phar, 0);
    if offending.len() == 0 {
        c.pass("No forbidden paths.".to_owned())
    } else {
        let mut m = decimal_string(offending.len() as u64);
        m.append(" forbidden path(s) in the package.");
        c.fail(m, "These are always excluded; remove them from the package root.".to_owned()).with_paths(
            offending,
        )
    }
}

/// The extensions V12 refuses.
pub open spec fn refused_extensions(allow_phar: bool) -> Seq<Seq<char>> {
    let base = seq![".zip"@, ".tar"@, ".gz"@, ".tgz"@, ".rar"@, ".7z"@, ".exe"@, ".dll"@, ".msi"@];
    if allow_phar {
        base
    } else {
        base.push(".phar"@)
    }
}

/// Whether some folder of `rel` (every part but the last) is `.git` or `.svn`.
pub open spec fn in_vcs_folder(rel: Seq<char>) -> bool {
    exists|i: int|
        0 <= i < split_char(rel, '/').len() - 1 && (#[trigger] split_char(rel, '/')[i] == ".git"@
            || split_char(rel, '/')[i] == ".svn"@)
}

/// Whether V12 refuses `rel`.
pub open spec fn refused_path(rel: Seq<char>, allow_phar: bool) -> bool {
    has_extension(rel, refused_extensions(allow_phar)) || in_vcs_folder(rel)
}

fn is_refused_path(rel: &str, allow_phar: bool) -> (b: bool)
    ensures
        b == refused_path(rel@, allow_phar),
{
    let mut exts = vec![".zip", ".tar", ".gz", ".tgz", ".rar", ".7z", ".exe", ".dll", ".msi"];
    if !allow_phar {
        exts.push(".phar");
    }
    proof {
        assert(exts@.map_values(|e: &str| e@) =~= refused_extensions(allow_phar));
    }
    if has_extension_exec(rel, exts.as_slice()) {
        return true;
    }
    let chars = to_chars(rel);
    let parts = split_on(chars.as_slice(), '/');
    proof {
        crate::strings::lemma_split_char_len(rel@, '/');
    }
    let git = ".git".to_owned();
    let svn = ".svn".to_owned();
    let mut i: usize = 0;
    while i < parts.len() - 1
        invariant
            i <= parts@.len(),
            parts@.len() >= 1,
            parts@.len() == split_char(rel@, '/').len(),
            forall|j: int| 0 <= j < parts@.len() ==> #[trigger] parts@[j]@ == split_char(rel@, '/')[j],
            git@ == ".git"@,
            svn@ == ".svn"@,
            forall|j: int| 0 <= j < i ==> !(#[trigger] split_char(rel@, '/')[j] == ".git"@ || split_char(rel@, '/')[j] == ".svn"@),
        decreases parts@.len() - i,
    {
        let part = crate::strings::from_chars(parts[i].as_slice());
        if part == git || part == svn {
            assert(split_char(rel@, '/')[i as int] == ".git"@ || split_char(rel@, '/')[i as int] == ".svn"@);
            return true;
        }
        i = i + 1;
    }
    false
}

/// V12: no archive, executable or version-control folder.
pub open spec fn v12_spec(input: VerifyInput) -> CheckView {
    let c = block("V12"@, "Package contains no archive, executable or version-control folder"@);
    let offending = files_where(input.files@, |r: Seq<char>| refused_path(r, input.allow_phar));
    if offending.len() == 0 {
        passed(c, "No archives, executables or version-control folders."@)
    } else {
        with_paths(
            failed(
                c,
                decimal(offending.len()) + " file(s) WordPress.org does not accept."@,
                "Exclude them in .distignore. A .phar can be allowed in project settings."@,
            ),
            offending,
        )
    }
}

fn v12(input: &VerifyInput<'_>) -> (r: CheckResult)
    ensures
        r@ == v12_spec(*input),
{
    let c = check("V12", "Package contains no archive, executable or version-control folder");
    let offending = offending_files(input.files, input.allow_phar, 1);
    if offending.len() == 0 {
        c.pass("No archives, executables or version-control folders.".to_owned())
    } else {
        let mut m = decimal_string(offending.len() as u64);
        m.append(" file(s) WordPress.org does not accept.");
        c.fail(m, "Exclude them in .distignore. A .phar can be allowed in project settings.".to_owned())
            .with_paths(offending)
    }
}

/// Zip entries that use `\` or sit outside `prefix`, in order.
pub open spec fn bad_entries(entries: Seq<Seq<char>>, prefix: Seq<char>) -> Seq<Seq<char>>
    decreases entries.len(),
{
    if entries.len() == 0 {
        Seq::empty()
    } else if contains(entries.last(), seq!['\\']) || !starts_with(entries.last(), prefix) {
        bad_entries(entries.drop_last(), prefix).push(entries.last())
    } else {
        bad_entries(entries.drop_last(), prefix)
    }
}

/// V13: zip entries use `/` and sit under the slug folder.
pub open spec fn v13_spec(input: VerifyInput) -> CheckView {
    let c = block("V13"@, "Zip entries use / and sit under the slug folder"@);
    match input.zip_entries {
        None => skipped(c, "Runs after Build creates the zip."@),
        Some(entries) => {
            let prefix = input.facts.slug@ + "/"@;
            let offending = bad_entries(texts(entries@), prefix);
            if entries@.len() == 0 {
                failed(c, "The zip is empty."@, "Rebuild the package."@)
            } else if offending.len() == 0 {
                passed(c, decimal(entries@.len()) + " entries under "@ + prefix + "."@)
            } else {
                with_paths(
                    failed(
                        c,
                        decimal(offending.len()) + " entries are outside "@ + prefix + " or use \\."@,
                        "Rebuild the package."@,
                    ),
                    offending,
                )
            }
        },
    }
}

fn v13(input: &VerifyInput<'_>) -> (r: CheckResult)
    ensures
        r@ == v13_spec(*input),
{
    let c = check("V13", "Zip entries use / and sit under the slug folder");
    let entries = match input.zip_entries {
        None => return c.skip("Runs after Build creates the zip.".to_owned()),
        Some(e) => e,
    };
    let mut prefix = input.facts.slug.clone();
    prefix.append("/");
    let p = to_chars(prefix.as_str());
    let backslash = vec!['\\'];
    let mut offending: Vec<String> = Vec::new();
    let mut i: usize = 0;
    while i < entries.len()
        invariant
            i <= entries@.len(),
            p@ == prefix@,
            prefix@ == input.facts.slug@ + "/"@,
            backslash@ == seq!['\\'],
            texts(offending@) == bad_entries(texts(entries@.take(i as int)), prefix@),
        decreases entries@.len() - i,
    {
        proof {
            assert(texts(entries@.take(i + 1)).drop_last() =~= texts(entries@.take(i as int)));
            assert(texts(entries@.take(i + 1)).last() == entries@[i as int]@);
        }
        let e = to_chars(entries[i].as_str());
        if has_infix(e.as_slice(), backslash.as_slice()) || !has_prefix(e.as_slice(), p.as_slice()) {
            offending.push(entries[i].clone());
        }
        i = i + 1;
    }
    proof {
        assert(entries@.take(entries@.len() as int) =~= entries@);
    }
    if entries.len() == 0 {
        c.fail("The zip is empty.".to_owned(), "Rebuild the package.".to_owned())
    } else if offending.len() == 0 {
        let mut m = decimal_string(entries.len() as u64);
        m.append(" entries under ");
        m.append(prefix.as_str());
        m.append(".");
        c.pass(m)
    } else {
        let mut m = decimal_string(offending.len() as u64);
        m.append(" entries are outside ");
        m.append(prefix.as_str());
        m.append(" or use \\.");
        c.fail(m, "Rebuild the package.".to_owned()).with_paths(offending)
    }
}

// ---------------------------------------------------------------------------
// V14 – V16: tools, working copy, credentials
// ---------------------------------------------------------------------------

/// The length of the run of non-whitespace characters at the start of `s`.
pub open spec fn word_len(s: Seq<char>) -> nat
    decreases s.len(),
{
    if s.len() > 0 && !is_space(s[0]) {
        1 + word_len(s.skip(1))
    } else {
        0
    }
}

/// The first whitespace-separated word of `s`, `None` when there is none.
pub open spec fn first_word(s: Seq<char>) -> Option<Seq<char>> {
    let t = trim_start(s);
    if t.len() == 0 {
        None
    } else {
        Some(t.take(word_len(t) as int))
    }
}

/// `major.minor` from `svn --version --quiet` output such as `1.14.5 (r1922182)`.
pub open spec fn svn_major_minor_spec(output: Seq<char>) -> Option<(nat, nat)> {
    match first_word(output) {
        None => None,
        Some(token) => {
            let parts = split_char(token, '.');
            if parts.len() < 2 {
                None
            } else {
                match (parse_unsigned(parts[0], u64::MAX as nat), parse_unsigned(parts[1], u64::MAX as nat)) {
                    (Some(a), Some(b)) => Some((a, b)),
                    _ => None,
                }
            }
        },
    }
}

proof fn lemma_word_len(s: Seq<char>)
    ensures
        word_len(s) <= s.len(),
        forall|j: int| 0 <= j < word_len(s) ==> !is_space(#[trigger] s[j]),
        word_len(s) < s.len() ==> is_space(s[word_len(s) as int]),
    decreases s.len(),
{
    if s.len() > 0 && !is_space(s[0]) {
        lemma_word_len(s.skip(1));
        assert forall|j: int| 0 <= j < word_len(s) implies !is_space(#[trigger] s[j]) by {
            if j > 0 {
                assert(s[j] == s.skip(1)[j - 1]);
            }
        }
    }
}

proof fn lemma_word_len_at(s: Seq<char>, k: int)
    requires
        0 <= k <= s.len(),
        forall|j: int| 0 <= j < k ==> !is_space(#[trigger] s[j]),
        k < s.len() ==> is_space(s[k]),
    ensures
        word_len(s) == k,
    decreases k,
{
    if k > 0 {
        assert forall|j: int| 0 <= j < k - 1 implies !is_space(#[trigger] s.skip(1)[j]) by {
            assert(s.skip(1)[j] == s[j + 1]);
        }
        lemma_word_len_at(s.skip(1), k - 1);
    }
}

/// Parses `major.minor` from `svn --version --quiet` output such as `1.14.5 (r1922182)`.
pub fn svn_major_minor(output: &str) -> (r: Option<(u64, u64)>)
    ensures
        r matches Some((a, b)) ==> svn_major_minor_spec(output@) == Some((a as nat, b as nat)),
        r is None ==> svn_major_minor_spec(output@) is None,
{
    let chars = to_chars(output);
    let t = crate::strings::trim_start_space(chars.as_slice());
    if t.len() == 0 {
        return None;
    }
    let mut n: usize = 0;
    while n < t.len() && !crate::strings::space(t[n])
        invariant
            n <= t@.len(),
            forall|j: int| 0 <= j < n ==> !is_space(#[trigger] t@[j]),
        decreases t@.len() - n,
    {
        n = n + 1;
    }
    proof {
        lemma_word_len_at(t@, n as int);
    }
    let token = slice_chars(t.as_slice(), 0, n);
    proof {
        assert(token@ =~= t@.take(n as int));
    }
    let parts = split_on(token.as_slice(), '.');
    if parts.len() < 2 {
        return None;
    }
    let major = parse_unsigned_chars(parts[0].as_slice(), u64::MAX);
    let minor = parse_unsigned_chars(parts[1].as_slice(), u64::MAX);
    match (major, minor) {
        (Some(a), Some(b)) => Some((a, b)),
        _ => None,
    }
}

/// Whether `(major, minor)` is at least 1.10.
pub open spec fn new_enough(found: (nat, nat)) -> bool {
    found.0 > MIN_SVN_MAJOR || (found.0 == MIN_SVN_MAJOR && found.1 >= MIN_SVN_MINOR)
}

/// How to install Subversion, in V14's words.
pub open spec fn svn_install_text() -> Seq<char> {
    "Install Subversion: on Windows TortoiseSVN with command-line tools, choco install svn, or SlikSVN; on macOS brew install subversion; on Linux apt install subversion."@
}

/// V14: Subversion 1.10 or newer is available.
pub open spec fn v14_spec(input: VerifyInput) -> CheckView {
    let c = block("V14"@, "Subversion 1.10 or newer is available"@);
    match input.svn_version {
        None => failed(c, "Subversion was not found."@, svn_install_text()),
        Some(raw) => match svn_major_minor_spec(raw@) {
            Some(found) if new_enough(found) => passed(c, "svn "@ + trim(raw@)),
            _ => failed(c, "svn "@ + trim(raw@) + " is older than 1.10."@, svn_install_text()),
        },
    }
}

fn v14(input: &VerifyInput<'_>) -> (r: CheckResult)
    ensures
        r@ == v14_spec(*input),
{
    let c = check("V14", "Subversion 1.10 or newer is available");
    let install = "Install Subversion: on Windows TortoiseSVN with command-line tools, choco install svn, or SlikSVN; on macOS brew install subversion; on Linux apt install subversion.";
    match input.svn_version {
        None => c.fail("Subversion was not found.".to_owned(), install.to_owned()),
        Some(raw) => {
            let chars = to_chars(raw);
            let trimmed = crate::strings::from_chars(trim_space(chars.as_slice()).as_slice());
            let mut shown = "svn ".to_owned();
            shown.append(trimmed.as_str());
            match svn_major_minor(raw) {
                Some((a, b)) if a > MIN_SVN_MAJOR || (a == MIN_SVN_MAJOR && b >= MIN_SVN_MINOR) => c.pass(shown),
                _ => {
                    shown.append(" is older than 1.10.");
                    c.fail(shown, install.to_owned())
                },
            }
        },
    }
}

/// V15: the SVN working copy is conflict-free and up to date.
pub open spec fn v15_spec(working_copy: WorkingCopyState) -> CheckView {
    let c = block("V15"@, "SVN working copy is conflict-free and up to date"@);
    match working_copy {
        WorkingCopyState::NotCreated => skipped(c, "The working copy is created and updated in Preview SVN."@),
        WorkingCopyState::Clean => passed(c, "No conflicts, nothing newer on the server."@),
        WorkingCopyState::Conflicts(paths) => with_paths(
            failed(c, decimal(paths@.len()) + " conflicted path(s)."@, "Reset the working copy."@),
            texts(paths@),
        ),
        WorkingCopyState::OutOfDate(paths) => with_paths(
            failed(
                c,
                decimal(paths@.len()) + " path(s) changed on the server."@,
                "Update the working copy, or reset it."@,
            ),
            texts(paths@),
        ),
    }
}

fn copy_texts(v: &Vec<String>) -> (r: Vec<String>)
    ensures
        texts(r@) == texts(v@),
{
    let mut r: Vec<String> = Vec::new();
    let mut i: usize = 0;
    while i < v.len()
        invariant
            i <= v@.len(),
            texts(r@) == texts(v@.take(i as int)),
        decreases v@.len() - i,
    {
        r.push(v[i].clone());
        proof {
            assert(texts(v@.take(i + 1)) =~= texts(v@.take(i as int)).push(v@[i as int]@));
        }
        i = i + 1;
    }
    proof {
        assert(v@.take(v@.len() as int) =~= v@);
    }
    r
}

/// V15 on its own, for Preview SVN to repeat after updating the working copy.
pub fn v15(working_copy: &WorkingCopyState) -> (r: CheckResult)
    ensures
        r@ == v15_spec(*working_copy),
{
    let c = check("V15", "SVN working copy is conflict-free and up to date");
    match working_copy {
        WorkingCopyState::NotCreated => c.skip("The working copy is created and updated in Preview SVN.".to_owned()),
        WorkingCopyState::Clean => c.pass("No conflicts, nothing newer on the server.".to_owned()),
        WorkingCopyState::Conflicts(paths) => {
            let mut m = decimal_string(paths.len() as u64);
            m.append(" conflicted path(s).");
            c.fail(m, "Reset the working copy.".to_owned()).with_paths(copy_texts(paths))
        },
        WorkingCopyState::OutOfDate(paths) => {
            let mut m = decimal_string(paths.len() as u64);
            m.append(" path(s) changed on the server.");
            c.fail(m, "Update the working copy, or reset it.".to_owned()).with_paths(copy_texts(paths))
        },
    }
}

/// V16: SVN credentials are in the vault.
pub open spec fn v16_spec(input: VerifyInput) -> CheckView {
    let c = block("V16"@, "SVN credentials are in the vault"@);
    match input.has_credentials {
        None => skipped(c, "Dry run: credentials are needed only to publish."@),
        Some(true) => passed(c, "Credentials found."@),
        Some(false) => failed(
            c,
            "No SVN password is stored for this project's account."@,
            "Open Vault and add the account's SVN password."@,
        ),
    }
}

fn v16(input: &VerifyInput<'_>) -> (r: CheckResult)
    ensures
        r@ == v16_spec(*input),
{
    let c = check("V16", "SVN credentials are in the vault");
    match input.has_credentials {
        None => c.skip("Dry run: credentials are needed only to publish.".to_owned()),
        Some(true) => c.pass("Credentials found.".to_owned()),
        Some(false) => c.fail(
            "No SVN password is stored for this project's account.".to_owned(),
            "Open Vault and add the account's SVN password.".to_owned(),
        ),
    }
}

/// The licence names the readme's License field may contain, lowercase:
/// GPL-compatible licences, as WordPress.org requires.
pub open spec fn licence_names() -> Seq<Seq<char>> {
    seq![
        "gpl"@,
        "mit"@,
        "apache"@,
        "bsd"@,
        "mpl"@,
        "mozilla"@,
        "expat"@,
        "isc"@,
        "zlib"@,
        "artistic"@,
        "cc0"@,
        "public domain"@,
        "unlicense"@,
    ]
}

/// Whether a License field names a licence WordPress.org accepts: it
/// contains one of the known names, ignoring ASCII case.
pub open spec fn known_licence(text: Seq<char>) -> bool {
    exists|k: int| 0 <= k < licence_names().len() && contains(lower(text), #[trigger] licence_names()[k])
}

/// V17: the readme's License field names a GPL-compatible licence.
pub open spec fn v17_spec(input: VerifyInput) -> CheckView {
    let c = block("V17"@, "Readme License field is valid"@);
    match input.facts.readme {
        None => skipped(c, "No readme.txt to read a License field from."@),
        Some(readme) => match header_value(readme, "License"@) {
            None => skipped(c, "readme.txt has no License field."@),
            Some(l) => if known_licence(l) {
                passed(c, "License: "@ + l + "."@)
            } else {
                with_paths(
                    failed(
                        c,
                        "The License field appears to be invalid: "@ + l
                            + ". WordPress.org accepts only GPL-compatible licences."@,
                        "Set \"License: GPLv2 or later\" (or another GPL-compatible licence) in readme.txt."@,
                    ),
                    readme_path(),
                )
            },
        },
    }
}

fn is_known_licence(text: &str) -> (b: bool)
    ensures
        b == known_licence(text@),
{
    let lowered = to_lower(to_chars(text).as_slice());
    let names = vec![
        "gpl", "mit", "apache", "bsd", "mpl", "mozilla", "expat", "isc", "zlib", "artistic", "cc0", "public domain",
        "unlicense",
    ];
    proof {
        assert(names@.map_values(|s: &str| s@) =~= licence_names());
    }
    let mut k: usize = 0;
    while k < names.len()
        invariant
            k <= names@.len(),
            names@.map_values(|s: &str| s@) == licence_names(),
            lowered@ == lower(text@),
            forall|j: int| 0 <= j < k ==> !contains(lower(text@), #[trigger] licence_names()[j]),
        decreases names@.len() - k,
    {
        proof {
            assert(licence_names()[k as int] == names@[k as int]@);
        }
        let name = to_chars(names[k]);
        if has_infix(lowered.as_slice(), name.as_slice()) {
            return true;
        }
        k = k + 1;
    }
    false
}

fn v17(input: &VerifyInput<'_>) -> (r: CheckResult)
    ensures
        r@ == v17_spec(*input),
{
    let c = check("V17", "Readme License field is valid");
    let readme = match &input.facts.readme {
        None => return c.skip("No readme.txt to read a License field from.".to_owned()),
        Some(r) => r,
    };
    match readme.header("License") {
        None => c.skip("readme.txt has no License field.".to_owned()),
        Some(h) => {
            let l = h.value.as_str();
            if is_known_licence(l) {
                let mut m = "License: ".to_owned();
                m.append(l);
                m.append(".");
                c.pass(m)
            } else {
                let mut m = "The License field appears to be invalid: ".to_owned();
                m.append(l);
                m.append(". WordPress.org accepts only GPL-compatible licences.");
                c.fail(
                    m,
                    "Set \"License: GPLv2 or later\" (or another GPL-compatible licence) in readme.txt.".to_owned(),
                ).with_paths(readme_paths())
            }
        },
    }
}

// ---------------------------------------------------------------------------
// All of them
// ---------------------------------------------------------------------------

/// V10–V13, the checks Build repeats.
pub open spec fn package_spec(input: VerifyInput) -> Seq<CheckView> {
    seq![v10_spec(input), v11_spec(input), v12_spec(input), v13_spec(input)]
}

/// V01–V17 in order.
pub open spec fn blocking_checks(input: VerifyInput) -> Seq<CheckView> {
    seq![
        v01_spec(input),
        v02_spec(input),
        v03_spec(input),
        v04_spec(input),
        v05_spec(input),
        v06_spec(input),
        v07_spec(input),
        v08_spec(input),
        v09_spec(input),
    ] + package_spec(input) + seq![v14_spec(input), v15_spec(*input.working_copy), v16_spec(input), v17_spec(input)]
}

/// V10–V13.
pub fn package(input: &VerifyInput<'_>) -> (r: Vec<CheckResult>)
    ensures
        views(r@) == package_spec(*input),
{
    let r = vec![v10(input), v11(input), v12(input), v13(input)];
    assert(views(r@) =~= package_spec(*input));
    r
}

/// V01–V17.
pub fn all(input: &VerifyInput<'_>) -> (r: Vec<CheckResult>)
    requires
        v03_ready(*input),
    ensures
        views(r@) == blocking_checks(*input),
{
    let mut out = vec![v01(input), v02(input), v03(input), v04(input), v05(input), v06(input), v07(input), v08(input), v09(input)];
    let ghost first = views(out@);
    let mut pack = package(input);
    out.append(&mut pack);
    let ghost second = views(out@);
    assert(second =~= first + package_spec(*input));
    out.push(v14(input));
    out.push(v15(input.working_copy));
    out.push(v16(input));
    out.push(v17(input));
    assert(views(out@) =~= blocking_checks(*input));
    out
}

/// Every blocking check that fails says what to do about it.
#[verifier::spinoff_prover]
#[verifier::rlimit(50)]
pub proof fn lemma_blocking_failures_carry_a_fix(input: VerifyInput)
    ensures
        forall|i: int|
            0 <= i < blocking_checks(input).len() && (#[trigger] blocking_checks(input)[i]).status == CheckStatus::Fail
                ==> blocking_checks(input)[i].fix is Some,
{
    reveal_strlit("Add a readme.txt that follows the WordPress.org readme standard.");
    reveal_strlit("Set every source to ");
    reveal_strlit("Use x.y or x.y.z, optionally followed by a pre-release suffix such as -beta1.");
    reveal_strlit("Fix V02 first.");
    reveal_strlit("Release a new version, for example ");
    reveal_strlit("Use a newer version, for example ");
    reveal_strlit("Insert a \"= ");
    reveal_strlit("Add the missing lines to the header block at the top of readme.txt.");
    reveal_strlit("Add one sentence under the readme headers describing the plugin.");
    reveal_strlit("Shorten it by ");
    reveal_strlit("Add near the top: if ( ! defined( 'ABSPATH' ) ) { exit; }");
    reveal_strlit("Add the files, or remove the rule in .distignore that excludes them.");
    reveal_strlit("These are always excluded; remove them from the package root.");
    reveal_strlit("Exclude them in .distignore. A .phar can be allowed in project settings.");
    reveal_strlit("Rebuild the package.");
    reveal_strlit("Reset the working copy.");
    reveal_strlit("Update the working copy, or reset it.");
    reveal_strlit("Open Vault and add the account's SVN password.");
    reveal_strlit("Set \"License: GPLv2 or later\" (or another GPL-compatible licence) in readme.txt.");
    reveal_strlit("Set \"Stable tag: ");
    reveal_strlit("Set \"Text Domain: ");
    reveal_strlit("Install Subversion: on Windows TortoiseSVN with command-line tools, choco install svn, or SlikSVN; on macOS brew install subversion; on Linux apt install subversion.");
    assert(blocking_checks(input).len() == 17);
}

/// V07 passes exactly when the readme exists and its short description is
/// one to 150 characters long. A readme whose short description is empty
/// fails it, naming `readme.txt` and saying to add a sentence; one that is
/// too long fails it too, naming `readme.txt`.
pub proof fn lemma_v07_passes_on_a_short_description(input: VerifyInput)
    ensures
        v07_spec(input).status == CheckStatus::Pass <==> (input.facts.readme matches Some(r) && 0
            < r.short_description@.len() <= 150),
        v07_spec(input).status != CheckStatus::Skip,
        v07_spec(input).severity == Severity::Block,
        v07_spec(input).id == "V07"@,
        (input.facts.readme matches Some(r) && r.short_description@.len() == 0) ==> v07_spec(input).paths == seq![
            README_FILE@,
        ] && v07_spec(input).fix == Some(
            "Add one sentence under the readme headers describing the plugin."@,
        ),
        (input.facts.readme matches Some(r) && r.short_description@.len() > 150)
            ==> v07_spec(input).paths == seq![README_FILE@] && v07_spec(input).fix is Some,
{
    reveal_strlit("Add one sentence under the readme headers describing the plugin.");
    reveal_strlit("Shorten it by ");
}

/// V06 passes exactly when the readme's Stable tag is the version being
/// released and is not `trunk`; otherwise it fails, naming `readme.txt`
/// when there is one.
pub proof fn lemma_v06_passes_on_this_version(input: VerifyInput)
    ensures
        v06_spec(input).status == CheckStatus::Pass <==> (input.facts.readme matches Some(r) && header_value(
            r,
            "Stable tag"@,
        ) == Some(input.version@) && !same_name(input.version@, "trunk"@)),
        v06_spec(input).status != CheckStatus::Skip,
        input.facts.readme is Some && v06_spec(input).status == CheckStatus::Fail ==> v06_spec(input).paths
            == seq![README_FILE@],
{
}

/// V08 passes exactly when the plugin header's Text Domain is the slug;
/// otherwise it fails, naming the main file.
pub proof fn lemma_v08_passes_on_the_slug(input: VerifyInput)
    ensures
        v08_spec(input).status == CheckStatus::Pass <==> (input.facts.header.text_domain matches Some(d) && d@
            == input.facts.slug@),
        v08_spec(input).status != CheckStatus::Skip,
        v08_spec(input).status == CheckStatus::Fail ==> v08_spec(input).paths == seq![input.facts.main_file@],
{
}

/// V14 passes exactly when `svn --version` reports Subversion 1.10 or
/// newer; a missing or older `svn` fails it.
pub proof fn lemma_v14_passes_on_svn_1_10(input: VerifyInput)
    ensures
        v14_spec(input).status == CheckStatus::Pass <==> (input.svn_version matches Some(raw)
            && svn_major_minor_spec(raw@) matches Some((a, b)) && (a > 1 || (a == 1 && b >= 10))),
        v14_spec(input).status != CheckStatus::Skip,
{
}

/// V16 passes when the vault holds the password, fails when it does not,
/// and is skipped on a dry run, which needs no credentials.
pub proof fn lemma_v16_follows_the_vault(input: VerifyInput)
    ensures
        v16_spec(input).status == CheckStatus::Pass <==> input.has_credentials == Some(true),
        v16_spec(input).status == CheckStatus::Fail <==> input.has_credentials == Some(false),
        v16_spec(input).status == CheckStatus::Skip <==> input.has_credentials is None,
{
}

/// V17 fails exactly when the readme has a License field that names no
/// GPL-compatible licence; a field that mentions GPL, in any case, passes;
/// without a readme or a License field it is skipped.
pub proof fn lemma_v17_judges_the_licence_field(input: VerifyInput)
    ensures
        v17_spec(input).status == CheckStatus::Skip <==> (input.facts.readme is None || (input.facts.readme matches Some(
            r,
        ) && header_value(r, "License"@) is None)),
        (input.facts.readme matches Some(r) && header_value(r, "License"@) matches Some(l) && contains(
            lower(l),
            "gpl"@,
        )) ==> v17_spec(input).status == CheckStatus::Pass,
        v17_spec(input).status == CheckStatus::Fail ==> v17_spec(input).paths == seq![README_FILE@],
{
    assert(licence_names()[0] == "gpl"@);
}

proof fn lemma_first_same_tag_none_means(tags: Seq<Seq<char>>, version: Seq<char>)
    requires
        first_same_tag(tags, version) is None,
    ensures
        forall|j: int| 0 <= j < tags.len() ==> !same_version(trim_end_char(#[trigger] tags[j], '/'), version),
    decreases tags.len(),
{
    if tags.len() > 0 {
        lemma_first_same_tag_none_means(tags.skip(1), version);
        assert forall|j: int| 0 <= j < tags.len() implies !same_version(trim_end_char(#[trigger] tags[j], '/'), version) by {
            if j > 0 {
                assert(tags[j] == tags.skip(1)[j - 1]);
            }
        }
    }
}

/// V02 passes exactly when the version parses.
pub proof fn lemma_v02_passes_on_a_valid_version(input: VerifyInput)
    ensures
        v02_spec(input).status == CheckStatus::Pass <==> is_version(input.version@),
        v02_spec(input).status != CheckStatus::Skip,
{
}

/// V03 blocks a version that is invalid or already tagged on the server
/// (as `x.y` or `x.y.0` alike); an untagged valid version passes exactly
/// when it is newer than the previous release, or there is none.
pub proof fn lemma_v03_wants_a_new_untagged_version(input: VerifyInput)
    ensures
        v03_spec(input).status != CheckStatus::Skip,
        v03_spec(input).status == CheckStatus::Pass ==> is_version(input.version@),
        (exists|k: int|
            0 <= k < input.server_tags@.len() && same_version(
                trim_end_char(#[trigger] texts(input.server_tags@)[k], '/'),
                input.version@,
            )) ==> v03_spec(input).status == CheckStatus::Fail,
        match parse_version(input.version@) {
            Some(v) => (forall|k: int|
                0 <= k < input.server_tags@.len() ==> !same_version(
                    trim_end_char(#[trigger] texts(input.server_tags@)[k], '/'),
                    input.version@,
                )) ==> (v03_spec(input).status == CheckStatus::Pass <==> match previous_release(input) {
                Some(p) => version_order(v, p) > 0,
                None => true,
            }),
            None => true,
        },
{
    let tags = texts(input.server_tags@);
    if first_same_tag(tags, input.version@) is None {
        lemma_first_same_tag_none_means(tags, input.version@);
    }
    if forall|k: int| 0 <= k < tags.len() ==> !same_version(trim_end_char(#[trigger] tags[k], '/'), input.version@) {
        lemma_first_same_tag_none(tags, input.version@);
    }
}

/// V15 passes on a clean working copy, fails on conflicts or on paths the
/// server has newer, naming them, and is skipped before the working copy
/// exists.
pub proof fn lemma_v15_follows_the_working_copy(working_copy: WorkingCopyState)
    ensures
        v15_spec(working_copy).status == CheckStatus::Pass <==> working_copy is Clean,
        v15_spec(working_copy).status == CheckStatus::Skip <==> working_copy is NotCreated,
        match working_copy {
            WorkingCopyState::Conflicts(p) => v15_spec(working_copy).status == CheckStatus::Fail
                && v15_spec(working_copy).paths == texts(p@),
            WorkingCopyState::OutOfDate(p) => v15_spec(working_copy).status == CheckStatus::Fail
                && v15_spec(working_copy).paths == texts(p@),
            _ => true,
        },
{
}

proof fn lemma_files_where_holds(files: Seq<FileRef>, pred: spec_fn(Seq<char>) -> bool)
    ensures
        forall|i: int|
            0 <= i < files.len() && pred((#[trigger] files[i]).rel@) ==> files_where(files, pred).contains(files[i].rel@),
        files_where(files, pred).len() == 0 <==> forall|i: int| 0 <= i < files.len() ==> !pred((#[trigger] files[i]).rel@),
    decreases files.len(),
{
    if files.len() > 0 {
        let rest = files.drop_last();
        lemma_files_where_holds(rest, pred);
        assert forall|i: int|
            0 <= i < files.len() && pred((#[trigger] files[i]).rel@) implies files_where(files, pred).contains(
                files[i].rel@,
            ) by {
            if i < files.len() - 1 {
                assert(files[i] == rest[i]);
                let k = choose|k: int| 0 <= k < files_where(rest, pred).len() && files_where(rest, pred)[k] == rest[i].rel@;
                if pred(files.last().rel@) {
                    assert(files_where(files, pred)[k] == rest[i].rel@);
                }
            } else {
                assert(files_where(files, pred).last() == files[i].rel@);
            }
        }
        if files_where(files, pred).len() == 0 {
            assert forall|i: int| 0 <= i < files.len() implies !pred((#[trigger] files[i]).rel@) by {
                if i < files.len() - 1 {
                    assert(files[i] == rest[i]);
                }
            }
        }
        if forall|i: int| 0 <= i < files.len() ==> !pred((#[trigger] files[i]).rel@) {
            assert(!pred(files[files.len() - 1].rel@));
            assert forall|i: int| 0 <= i < rest.len() implies !pred((#[trigger] rest[i]).rel@) by {
                assert(rest[i] == files[i]);
            }
        }
    }
}

/// Files that hold secrets never ship: by file name, ignoring ASCII case,
/// `.env` and its variants, `wp-config.php`, anything with a `.pem` or `.key`
/// extension, and the private SSH keys `id_rsa`, `id_dsa`, `id_ecdsa` and
/// `id_ed25519`, in any folder, are forbidden paths.
pub proof fn lemma_secret_files_are_forbidden(rel: Seq<char>)
    ensures
        starts_with(lower(crate::run::material::base_name(rel)), ".env"@) ==> forbidden_path(rel),
        lower(crate::run::material::base_name(rel)) == "wp-config.php"@ ==> forbidden_path(rel),
        (crate::run::material::extension(lower(crate::run::material::base_name(rel))) matches Some(e) && (e
            == "pem"@ || e == "key"@)) ==> forbidden_path(rel),
        (lower(crate::run::material::base_name(rel)) == "id_rsa"@ || lower(crate::run::material::base_name(rel))
            == "id_dsa"@ || lower(crate::run::material::base_name(rel)) == "id_ecdsa"@ || lower(
            crate::run::material::base_name(rel),
        ) == "id_ed25519"@) ==> forbidden_path(rel),
{
    reveal_strlit("pem");
    reveal_strlit("key");
    let name = lower(crate::run::material::base_name(rel));
    match crate::run::material::extension(name) {
        Some(e) => {
            if e == "pem"@ {
                assert(lower(e) =~= e);
                assert(same_name(e, seq!["pem"@, "key"@][0]));
            } else if e == "key"@ {
                assert(lower(e) =~= e);
                assert(same_name(e, seq!["pem"@, "key"@][1]));
            }
        },
        None => {},
    }
    let k = ssh_key_names();
    assert(k[0] == "id_rsa"@ && k[1] == "id_dsa"@ && k[2] == "id_ecdsa"@ && k[3] == "id_ed25519"@);
}

/// V11 fails exactly when some packaged path is forbidden, and names every
/// such path.
pub proof fn lemma_v11_names_every_forbidden_path(input: VerifyInput)
    ensures
        v11_spec(input).status == CheckStatus::Pass <==> forall|i: int|
            0 <= i < input.files@.len() ==> !forbidden_path((#[trigger] input.files@[i]).rel@),
        v11_spec(input).status != CheckStatus::Skip,
        forall|i: int|
            0 <= i < input.files@.len() && forbidden_path((#[trigger] input.files@[i]).rel@) ==> v11_spec(
                input,
            ).paths.contains(input.files@[i].rel@),
{
    let pred = |r: Seq<char>| forbidden_path(r);
    lemma_files_where_holds(input.files@, pred);
    assert forall|i: int| 0 <= i < input.files@.len() implies pred((#[trigger] input.files@[i]).rel@) == forbidden_path(
        input.files@[i].rel@,
    ) by {}
}

/// V09 passes exactly when the main file, read without white space, checks
/// `defined('ABSPATH')` or `defined('WPINC')`, with single or double quotes.
pub proof fn lemma_v09_wants_a_direct_access_guard(input: VerifyInput)
    ensures
        v09_spec(input).status == CheckStatus::Pass <==> (contains(
            without_space(input.main_file_text@),
            "defined('ABSPATH')"@,
        ) || contains(without_space(input.main_file_text@), "defined(\"ABSPATH\")"@) || contains(
            without_space(input.main_file_text@),
            "defined('WPINC')"@,
        ) || contains(without_space(input.main_file_text@), "defined(\"WPINC\")"@)),
        v09_spec(input).status != CheckStatus::Skip,
        v09_spec(input).status == CheckStatus::Fail ==> v09_spec(input).paths == seq![input.facts.main_file@],
{
    let t = without_space(input.main_file_text@);
    let g = guards();
    if contains(t, "defined('ABSPATH')"@) {
        assert(contains(t, g[0]));
    }
    if contains(t, "defined(\"ABSPATH\")"@) {
        assert(contains(t, g[1]));
    }
    if contains(t, "defined('WPINC')"@) {
        assert(contains(t, g[2]));
    }
    if contains(t, "defined(\"WPINC\")"@) {
        assert(contains(t, g[3]));
    }
}

/// Archives and executables are refused by file name, ignoring ASCII case
/// (`.zip`, `.tar`, `.gz`, `.tgz`, `.rar`, `.7z`, `.exe`, `.dll`, `.msi`),
/// and so is a `.phar` unless the project allows it.
pub proof fn lemma_refused_extensions(rel: Seq<char>, allow_phar: bool)
    ensures
        ends_with(lower(file_name(rel)), ".zip"@) ==> refused_path(rel, allow_phar),
        ends_with(lower(file_name(rel)), ".tar"@) ==> refused_path(rel, allow_phar),
        ends_with(lower(file_name(rel)), ".gz"@) ==> refused_path(rel, allow_phar),
        ends_with(lower(file_name(rel)), ".tgz"@) ==> refused_path(rel, allow_phar),
        ends_with(lower(file_name(rel)), ".rar"@) ==> refused_path(rel, allow_phar),
        ends_with(lower(file_name(rel)), ".7z"@) ==> refused_path(rel, allow_phar),
        ends_with(lower(file_name(rel)), ".exe"@) ==> refused_path(rel, allow_phar),
        ends_with(lower(file_name(rel)), ".dll"@) ==> refused_path(rel, allow_phar),
        ends_with(lower(file_name(rel)), ".msi"@) ==> refused_path(rel, allow_phar),
        ends_with(lower(file_name(rel)), ".phar"@) && !allow_phar ==> refused_path(rel, allow_phar),
{
    assert(refused_extensions(allow_phar)[0] == ".zip"@);
    assert(refused_extensions(allow_phar)[1] == ".tar"@);
    assert(refused_extensions(allow_phar)[2] == ".gz"@);
    assert(refused_extensions(allow_phar)[3] == ".tgz"@);
    assert(refused_extensions(allow_phar)[4] == ".rar"@);
    assert(refused_extensions(allow_phar)[5] == ".7z"@);
    assert(refused_extensions(allow_phar)[6] == ".exe"@);
    assert(refused_extensions(allow_phar)[7] == ".dll"@);
    assert(refused_extensions(allow_phar)[8] == ".msi"@);
    if !allow_phar {
        assert(refused_extensions(allow_phar)[9] == ".phar"@);
    }
}

/// V12 fails exactly when some packaged file is refused, and names every
/// such file.
pub proof fn lemma_v12_names_every_refused_file(input: VerifyInput)
    ensures
        v12_spec(input).status == CheckStatus::Pass <==> forall|i: int|
            0 <= i < input.files@.len() ==> !refused_path((#[trigger] input.files@[i]).rel@, input.allow_phar),
        v12_spec(input).status != CheckStatus::Skip,
        forall|i: int|
            0 <= i < input.files@.len() && refused_path((#[trigger] input.files@[i]).rel@, input.allow_phar)
                ==> v12_spec(input).paths.contains(input.files@[i].rel@),
{
    let pred = |r: Seq<char>| refused_path(r, input.allow_phar);
    lemma_files_where_holds(input.files@, pred);
    assert forall|i: int| 0 <= i < input.files@.len() implies pred((#[trigger] input.files@[i]).rel@) == refused_path(
        input.files@[i].rel@,
        input.allow_phar,
    ) by {}
}

proof fn lemma_mismatched_holds(ss: Seq<VersionSource>, version: Seq<char>)
    ensures
        mismatched(ss, version).len() == 0 <==> forall|i: int| 0 <= i < ss.len() ==> (#[trigger] ss[i]).value@ == version,
        forall|i: int|
            0 <= i < ss.len() && (#[trigger] ss[i]).value@ != version ==> mismatched(ss, version).contains(ss[i].path@),
    decreases ss.len(),
{
    if ss.len() > 0 {
        let rest = ss.drop_last();
        lemma_mismatched_holds(rest, version);
        assert forall|i: int|
            0 <= i < ss.len() && (#[trigger] ss[i]).value@ != version implies mismatched(ss, version).contains(
                ss[i].path@,
            ) by {
            if i < ss.len() - 1 {
                assert(ss[i] == rest[i]);
                let k = choose|k: int| 0 <= k < mismatched(rest, version).len() && mismatched(rest, version)[k]
                    == rest[i].path@;
                if ss.last().value@ != version {
                    assert(mismatched(ss, version)[k] == rest[i].path@);
                }
            } else {
                assert(mismatched(ss, version).last() == ss[i].path@);
            }
        }
        if mismatched(ss, version).len() == 0 {
            assert forall|i: int| 0 <= i < ss.len() implies (#[trigger] ss[i]).value@ == version by {
                if i < ss.len() - 1 {
                    assert(ss[i] == rest[i]);
                }
            }
        }
        if forall|i: int| 0 <= i < ss.len() ==> (#[trigger] ss[i]).value@ == version {
            assert(ss[ss.len() - 1].value@ == version);
            assert forall|i: int| 0 <= i < rest.len() implies (#[trigger] rest[i]).value@ == version by {
                assert(rest[i] == ss[i]);
            }
        }
    }
}

/// V01 passes exactly when every version source holds the version being
/// released, and otherwise names the file of every source that differs.
pub proof fn lemma_v01_wants_one_version_everywhere(input: VerifyInput)
    ensures
        v01_spec(input).status == CheckStatus::Pass <==> forall|i: int|
            0 <= i < input.facts.versions@.len() ==> (#[trigger] input.facts.versions@[i]).value@ == input.version@,
        v01_spec(input).status != CheckStatus::Skip,
        forall|i: int|
            0 <= i < input.facts.versions@.len() && (#[trigger] input.facts.versions@[i]).value@ != input.version@
                ==> v01_spec(input).paths.contains(input.facts.versions@[i].path@),
{
    lemma_mismatched_holds(input.facts.versions@, input.version@);
}

/// V05 passes exactly when the readme has its plugin name line and each of
/// the headers `Contributors`, `Tested up to`, `Stable tag` and `License`.
pub proof fn lemma_v05_wants_every_required_header(input: VerifyInput)
    ensures
        v05_spec(input).status == CheckStatus::Pass <==> (input.facts.readme matches Some(r) && r.name is Some
            && !header_missing(r, "Contributors"@) && !header_missing(r, "Tested up to"@) && !header_missing(
            r,
            "Stable tag"@,
        ) && !header_missing(r, "License"@)),
        v05_spec(input).status != CheckStatus::Skip,
{
    match input.facts.readme {
        Some(r) => {
            let n = required_header_names();
            assert(n.drop_last().drop_last().drop_last().drop_last() =~= Seq::<Seq<char>>::empty());
            assert(n.last() == "License"@);
            assert(n.drop_last().last() == "Stable tag"@);
            assert(n.drop_last().drop_last().last() == "Tested up to"@);
            assert(n.drop_last().drop_last().drop_last().last() == "Contributors"@);
            reveal_with_fuel(missing_headers, 5);
            let m = missing_headers(r, n);
            assert(m.len() == 0 <==> (!header_missing(r, "Contributors"@) && !header_missing(r, "Tested up to"@)
                && !header_missing(r, "Stable tag"@) && !header_missing(r, "License"@)));
        },
        None => {},
    }
}

proof fn lemma_dedup_keeps_every_path(s: Seq<Seq<char>>)
    ensures
        forall|k: int| 0 <= k < s.len() ==> dedup(s).contains(#[trigger] s[k]),
        forall|x: Seq<char>| dedup(s).contains(x) ==> s.contains(x),
    decreases s.len(),
{
    if s.len() > 1 {
        let rest = s.drop_last();
        lemma_dedup_keeps_every_path(rest);
        assert forall|k: int| 0 <= k < s.len() implies dedup(s).contains(#[trigger] s[k]) by {
            if k < s.len() - 1 {
                assert(s[k] == rest[k]);
                let j = choose|j: int| 0 <= j < dedup(rest).len() && dedup(rest)[j] == rest[k];
                if s.last() != s[s.len() - 2] {
                    assert(dedup(s)[j] == rest[k]);
                }
            } else if s.last() == s[s.len() - 2] {
                assert(rest[s.len() - 2] == s[k]);
            } else {
                assert(dedup(s).last() == s[k]);
            }
        }
        assert forall|x: Seq<char>| dedup(s).contains(x) implies s.contains(x) by {
            let j = choose|j: int| 0 <= j < dedup(s).len() && dedup(s)[j] == x;
            if s.last() != s[s.len() - 2] && j == dedup(s).len() - 1 {
                assert(s[s.len() - 1] == x);
            } else {
                assert(dedup(rest)[j] == x);
                assert(dedup(rest).contains(x));
                assert(rest.contains(x));
                let i = choose|i: int| 0 <= i < rest.len() && rest[i] == x;
                assert(rest[i] == s[i]);
            }
        }
    }
}

proof fn lemma_missing_paths_hold(files: Seq<FileRef>, required: Seq<Seq<char>>)
    ensures
        missing_paths(files, required).len() == 0 <==> forall|k: int| 0 <= k < required.len() ==> packaged(files, #[trigger] required[k]),
        forall|k: int|
            0 <= k < required.len() && !packaged(files, #[trigger] required[k]) ==> missing_paths(files, required).contains(
                required[k],
            ),
    decreases required.len(),
{
    if required.len() > 0 {
        let rest = required.drop_last();
        lemma_missing_paths_hold(files, rest);
        assert forall|k: int|
            0 <= k < required.len() && !packaged(files, #[trigger] required[k]) implies missing_paths(
                files,
                required,
            ).contains(required[k]) by {
            if k < required.len() - 1 {
                assert(required[k] == rest[k]);
                let j = choose|j: int| 0 <= j < missing_paths(files, rest).len() && missing_paths(files, rest)[j]
                    == rest[k];
                if !packaged(files, required.last()) {
                    assert(missing_paths(files, required)[j] == rest[k]);
                }
            } else {
                assert(missing_paths(files, required).last() == required[k]);
            }
        }
        if missing_paths(files, required).len() == 0 {
            assert forall|k: int| 0 <= k < required.len() implies packaged(files, #[trigger] required[k]) by {
                if k < required.len() - 1 {
                    assert(required[k] == rest[k]);
                }
            }
        }
        if forall|k: int| 0 <= k < required.len() ==> packaged(files, #[trigger] required[k]) {
            assert(packaged(files, required[required.len() - 1]));
            assert forall|k: int| 0 <= k < rest.len() implies packaged(files, #[trigger] rest[k]) by {
                assert(rest[k] == required[k]);
            }
        }
    }
}

/// V10 requires the main file, readme.txt and the project's own required
/// paths (with surrounding `/` trimmed), each as a packaged file or a folder
/// holding one: it fails exactly when one of them is not packaged, and
/// names every such path.
pub proof fn lemma_v10_wants_every_required_path(input: VerifyInput)
    ensures
        v10_spec(input).status != CheckStatus::Skip,
        !packaged(input.files@, input.facts.main_file@) ==> v10_spec(input).status == CheckStatus::Fail
            && v10_spec(input).paths.contains(input.facts.main_file@),
        !packaged(input.files@, README_FILE@) ==> v10_spec(input).status == CheckStatus::Fail && v10_spec(
            input,
        ).paths.contains(README_FILE@),
        forall|k: int|
            0 <= k < input.required_paths@.len() && !packaged(
                input.files@,
                trim_char(#[trigger] input.required_paths@[k]@, '/'),
            ) ==> v10_spec(input).status == CheckStatus::Fail && v10_spec(input).paths.contains(
                trim_char(input.required_paths@[k]@, '/'),
            ),
        v10_spec(input).status == CheckStatus::Pass <==> (packaged(input.files@, input.facts.main_file@) && packaged(
            input.files@,
            README_FILE@,
        ) && forall|k: int|
            0 <= k < input.required_paths@.len() ==> packaged(
                input.files@,
                trim_char(#[trigger] input.required_paths@[k]@, '/'),
            )),
{
    let own = texts(input.required_paths@).map_values(|p: Seq<char>| trim_char(p, '/'));
    let all = seq![input.facts.main_file@, README_FILE@] + own;
    lemma_dedup_keeps_every_path(all);
    let req = required_list(input);
    lemma_missing_paths_hold(input.files@, req);
    assert(all[0] == input.facts.main_file@);
    assert(all[1] == README_FILE@);
    assert(req.contains(all[0]));
    assert(req.contains(all[1]));
    assert forall|k: int| 0 <= k < input.required_paths@.len() implies req.contains(
        trim_char(#[trigger] input.required_paths@[k]@, '/'),
    ) by {
        assert(all[k + 2] == own[k]);
        assert(own[k] == trim_char(input.required_paths@[k]@, '/'));
        assert(req.contains(all[k + 2]));
    }
    if packaged(input.files@, input.facts.main_file@) && packaged(input.files@, README_FILE@) && forall|k: int|
        0 <= k < input.required_paths@.len() ==> packaged(input.files@, trim_char(#[trigger] input.required_paths@[k]@, '/')) {
        assert forall|j: int| 0 <= j < req.len() implies packaged(input.files@, #[trigger] req[j]) by {
            assert(req.contains(req[j]));
            assert(all.contains(req[j]));
            let i = choose|i: int| 0 <= i < all.len() && all[i] == req[j];
            if i >= 2 {
                assert(all[i] == own[i - 2]);
                assert(own[i - 2] == trim_char(input.required_paths@[i - 2]@, '/'));
            }
        }
    }
    assert forall|x: Seq<char>| req.contains(x) && !packaged(input.files@, x) implies v10_spec(input).paths.contains(x) by {
        let j = choose|j: int| 0 <= j < req.len() && req[j] == x;
        assert(!packaged(input.files@, req[j]));
    }
}

/// V04 passes exactly when the readme's newest changelog entry names this
/// version (`1.2` and `1.2.0` name the same release); a readme without
/// changelog entries fails it, naming `readme.txt`.
pub proof fn lemma_v04_wants_this_version_first(input: VerifyInput)
    ensures
        v04_spec(input).status == CheckStatus::Pass <==> (input.facts.readme matches Some(r) && r.changelog@.len()
            > 0 && (r.changelog@[0].version matches Some(v) && same_version(v@, input.version@))),
        v04_spec(input).status != CheckStatus::Skip,
        (input.facts.readme matches Some(r) && r.changelog@.len() == 0) ==> v04_spec(input).status
            == CheckStatus::Fail && v04_spec(input).paths == seq![README_FILE@],
{
}

} // verus!
