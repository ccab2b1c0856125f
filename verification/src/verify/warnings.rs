//! Warnings W01–W11. They are shown and never block.

use vstd::prelude::*;

use crate::plugin::{header_value, same_name, Readme, Section, README_FILE};
use crate::strings::{
    decimal, decimal_string, first_index, index_of, join, lines, lines_of, lower, parse_unsigned,
    parse_unsigned_chars, slice_chars, split_char, split_on, starts_with, to_chars, to_lower, trim,
    trim_space,
};
use crate::strings::count_matches;
use crate::text::{crlf, eol_report, lf, BOM};
use crate::version::{parse_version, Version};

use super::{
    failed, fresh, join_texts, passed, skipped, texts, views, with_paths, CheckResult, CheckStatus, CheckView,
    FileRef, Severity, VerifyInput,
};

verus! {

broadcast use vstd::string::group_string_axioms;

/// Packages above this size warn (W05).
pub const PACKAGE_WARN_BYTES: u64 = 10485760;

/// Single files above this size warn (W05).
pub const FILE_WARN_BYTES: u64 = 2097152;

/// A `vendor/` folder above this size warns (W10).
pub const VENDOR_WARN_BYTES: u64 = 5242880;

/// WordPress.org shows at most this many tags (W03).
pub const MAX_TAGS: usize = 5;

/// Bytes in a megabyte.
pub const MEGABYTE: u64 = 1048576;

/// A warning that has not run.
pub open spec fn warn(id: Seq<char>, title: Seq<char>) -> CheckView {
    fresh(id, Severity::Warn, title)
}

fn check(id: &str, title: &str) -> (r: CheckResult)
    ensures
        r@ == warn(id@, title@),
{
    CheckResult::new(id, Severity::Warn, title)
}

fn readme_paths() -> (v: Vec<String>)
    ensures
        texts(v@) == seq![README_FILE@],
{
    let v = vec![README_FILE.to_owned()];
    assert(texts(v@) =~= seq![README_FILE@]);
    v
}

/// `q` rounded to a whole number after adding the fraction `r / d`, ties to even.
pub open spec fn round_half_even(q: nat, r: nat, d: nat) -> nat {
    if 2 * r > d || (2 * r == d && q % 2 == 1) {
        q + 1
    } else {
        q
    }
}

/// `bytes` in tenths of a megabyte, rounded to nearest, ties to even.
pub open spec fn megabyte_tenths(bytes: nat) -> nat {
    round_half_even((bytes * 10) / (MEGABYTE as nat), (bytes * 10) % (MEGABYTE as nat), MEGABYTE as nat)
}

/// A count of tenths written with one decimal place.
pub open spec fn one_decimal(tenths: nat) -> Seq<char> {
    decimal(tenths / 10) + "."@ + decimal(tenths % 10)
}

/// `bytes` as megabytes with one decimal place, such as `1.5 MB`.
pub open spec fn megabytes_text(bytes: nat) -> Seq<char> {
    one_decimal(megabyte_tenths(bytes)) + " MB"@
}

/// `bytes` as megabytes with one decimal place, such as `1.5 MB`.
pub fn megabytes(bytes: u64) -> (s: String)
    ensures
        s@ == megabytes_text(bytes as nat),
{
    let n: u128 = (bytes as u128) * 10;
    let q: u128 = n / (MEGABYTE as u128);
    let r: u128 = n % (MEGABYTE as u128);
    let t: u128 = if 2 * r > (MEGABYTE as u128) || (2 * r == (MEGABYTE as u128) && q % 2 == 1) {
        q + 1
    } else {
        q
    };
    assert(t == megabyte_tenths(bytes as nat));
    assert(t <= u64::MAX) by (nonlinear_arith)
        requires
            t <= q + 1,
            q == n / 1048576,
            n == bytes * 10,
            bytes <= u64::MAX,
    ;
    let t64 = t as u64;
    let mut s = decimal_string(t64 / 10);
    s.append(".");
    s.append(decimal_string(t64 % 10).as_str());
    s.append(" MB");
    s
}

/// W01: the git working tree is clean.
pub open spec fn w01_spec(input: VerifyInput) -> CheckView {
    let c = warn("W01"@, "Git working tree is clean"@);
    match input.git_dirty {
        None => skipped(c, "Git is not available for this project."@),
        Some(paths) => if paths@.len() == 0 {
            passed(c, "No uncommitted changes."@)
        } else {
            with_paths(
                failed(
                    c,
                    decimal(paths@.len()) + " uncommitted change(s): the release will not match any commit."@,
                    "Commit or stash your changes before releasing."@,
                ),
                texts(paths@),
            )
        },
    }
}

fn copy_all(v: &[String]) -> (r: Vec<String>)
    ensures
        texts(r@) == texts(v@),
{
    let mut r: Vec<String> = Vec::new();
    let mut i: usize = 0;
    while i < v.len()
        invariant
            i <= v@.len(),
            texts(r@) == texts(v@.take(i as int)),
        decreases v@.len() - i,
    {
        r.push(v[i].clone());
        proof {
            assert(texts(v@.take(i + 1)) =~= texts(v@.take(i as int)).push(v@[i as int]@));
        }
        i = i + 1;
    }
    proof {
        assert(v@.take(v@.len() as int) =~= v@);
    }
    r
}

fn w01(input: &VerifyInput<'_>) -> (r: CheckResult)
    ensures
        r@ == w01_spec(*input),
{
    let c = check("W01", "Git working tree is clean");
    match input.git_dirty {
        None => c.skip("Git is not available for this project.".to_owned()),
        Some(paths) => {
            if paths.len() == 0 {
                c.pass("No uncommitted changes.".to_owned())
            } else {
                let mut m = decimal_string(paths.len() as u64);
                m.append(" uncommitted change(s): the release will not match any commit.");
                c.fail(m, "Commit or stash your changes before releasing.".to_owned()).with_paths(
                    copy_all(paths),
                )
            }
        },
    }
}

/// `s` with every `-` turned into `.`.
pub open spec fn dashes_as_dots(s: Seq<char>) -> Seq<char> {
    s.map_values(|c: char| if c == '-' { '.' } else { c })
}

/// `major.minor` of a WordPress version such as `6.8.2` or `6.9-RC1`.
pub open spec fn major_minor(version: Seq<char>) -> Option<(nat, nat)> {
    let parts = split_char(dashes_as_dots(trim(version)), '.');
    if parts.len() < 2 {
        None
    } else {
        match (parse_unsigned(parts[0], u64::MAX as nat), parse_unsigned(parts[1], u64::MAX as nat)) {
            (Some(a), Some(b)) => Some((a, b)),
            _ => None,
        }
    }
}

fn major_minor_exec(version: &str) -> (r: Option<(u64, u64)>)
    ensures
        r matches Some((a, b)) ==> major_minor(version@) == Some((a as nat, b as nat)),
        r is None ==> major_minor(version@) is None,
{
    let chars = to_chars(version);
    let t = trim_space(chars.as_slice());
    let mut mapped: Vec<char> = Vec::new();
    let mut i: usize = 0;
    while i < t.len()
        invariant
            i <= t@.len(),
            t@ == trim(version@),
            mapped@ == dashes_as_dots(t@.take(i as int)),
        decreases t@.len() - i,
    {
        mapped.push(if t[i] == '-' { '.' } else { t[i] });
        proof {
            assert(dashes_as_dots(t@.take(i + 1)) =~= dashes_as_dots(t@.take(i as int)).push(
                if t@[i as int] == '-' { '.' } else { t@[i as int] },
            ));
        }
        i = i + 1;
    }
    proof {
        assert(t@.take(t@.len() as int) =~= t@);
    }
    let parts = split_on(mapped.as_slice(), '.');
    if parts.len() < 2 {
        return None;
    }
    let a = parse_unsigned_chars(parts[0].as_slice(), u64::MAX);
    let b = parse_unsigned_chars(parts[1].as_slice(), u64::MAX);
    match (a, b) {
        (Some(a), Some(b)) => Some((a, b)),
        _ => None,
    }
}

/// Whether `(a, b)` comes before `(c, d)` in tuple order.
pub open spec fn pair_less(x: (nat, nat), y: (nat, nat)) -> bool {
    x.0 < y.0 || (x.0 == y.0 && x.1 < y.1)
}

/// W02: "Tested up to" is the current WordPress version.
pub open spec fn w02_spec(input: VerifyInput) -> CheckView {
    let c = warn("W02"@, "Tested up to is the current WordPress version"@);
    match input.current_wordpress {
        None => skipped(c, "The WordPress version lookup is off or unavailable."@),
        Some(current) => {
            let tested = match input.facts.readme {
                Some(r) => header_value(r, "Tested up to"@),
                None => None,
            };
            match tested {
                None => skipped(c, "readme.txt has no Tested up to header."@),
                Some(t) => match (major_minor(t), major_minor(current@)) {
                    (Some(tv), Some(cur)) => if pair_less(tv, cur) {
                        with_paths(
                            failed(
                                c,
                                "Tested up to is "@ + t + ", WordPress "@ + current@ + " is current."@,
                                "Test with WordPress "@ + current@ + ", then set \"Tested up to: "@ + decimal(cur.0)
                                    + "."@ + decimal(cur.1) + "\"."@,
                            ),
                            seq![README_FILE@],
                        )
                    } else {
                        passed(c, "Tested up to "@ + t + "."@)
                    },
                    _ => skipped(c, "The versions could not be compared."@),
                },
            }
        },
    }
}

fn w02(input: &VerifyInput<'_>) -> (r: CheckResult)
    ensures
        r@ == w02_spec(*input),
{
    let c = check("W02", "Tested up to is the current WordPress version");
    let current = match input.current_wordpress {
        None => return c.skip("The WordPress version lookup is off or unavailable.".to_owned()),
        Some(v) => v,
    };
    let tested = match &input.facts.readme {
        Some(r) => r.header("Tested up to"),
        None => None,
    };
    let tested = match tested {
        None => return c.skip("readme.txt has no Tested up to header.".to_owned()),
        Some(h) => h,
    };
    match (major_minor_exec(tested.value.as_str()), major_minor_exec(current)) {
        (Some(t), Some(cur)) => {
            if t.0 < cur.0 || (t.0 == cur.0 && t.1 < cur.1) {
                let mut m = "Tested up to is ".to_owned();
                m.append(tested.value.as_str());
                m.append(", WordPress ");
                m.append(current);
                m.append(" is current.");
                let mut f = "Test with WordPress ".to_owned();
                f.append(current);
                f.append(", then set \"Tested up to: ");
                f.append(decimal_string(cur.0).as_str());
                f.append(".");
                f.append(decimal_string(cur.1).as_str());
                f.append("\".");
                c.fail(m, f).with_paths(readme_paths())
            } else {
                let mut m = "Tested up to ".to_owned();
                m.append(tested.value.as_str());
                m.append(".");
                c.pass(m)
            }
        },
        _ => c.skip("The versions could not be compared.".to_owned()),
    }
}

/// How many of `pieces` are not blank.
pub open spec fn count_nonblank(pieces: Seq<Seq<char>>) -> nat
    decreases pieces.len(),
{
    if pieces.len() == 0 {
        0
    } else {
        count_nonblank(pieces.drop_last()) + if trim(pieces.last()).len() > 0 {
            1nat
        } else {
            0nat
        }
    }
}

/// W03: the readme has five tags or fewer.
pub open spec fn w03_spec(input: VerifyInput) -> CheckView {
    let c = warn("W03"@, "Readme has five tags or fewer"@);
    let tags = match input.facts.readme {
        Some(r) => header_value(r, "Tags"@),
        None => None,
    };
    match tags {
        None => skipped(c, "readme.txt has no Tags header."@),
        Some(value) => {
            let count = count_nonblank(split_char(value, ','));
            if count > MAX_TAGS {
                with_paths(
                    failed(
                        c,
                        decimal(count) + " tags. WordPress.org shows only the first five."@,
                        "Keep the five tags that matter most."@,
                    ),
                    seq![README_FILE@],
                )
            } else {
                passed(c, decimal(count) + " tag(s)."@)
            }
        },
    }
}

fn w03(input: &VerifyInput<'_>) -> (r: CheckResult)
    ensures
        r@ == w03_spec(*input),
{
    let c = check("W03", "Readme has five tags or fewer");
    let tags = match &input.facts.readme {
        Some(r) => r.header("Tags"),
        None => None,
    };
    let tags = match tags {
        None => return c.skip("readme.txt has no Tags header.".to_owned()),
        Some(h) => h,
    };
    let chars = to_chars(tags.value.as_str());
    let pieces = split_on(chars.as_slice(), ',');
    let ghost views = split_char(tags.value@, ',');
    let mut count: usize = 0;
    let mut i: usize = 0;
    while i < pieces.len()
        invariant
            i <= pieces@.len(),
            pieces@.len() == views.len(),
            forall|j: int| 0 <= j < pieces@.len() ==> #[trigger] pieces@[j]@ == views[j],
            count == count_nonblank(views.take(i as int)),
            count <= i,
        decreases pieces@.len() - i,
    {
        proof {
            assert(views.take(i + 1).drop_last() =~= views.take(i as int));
        }
        let t = trim_space(pieces[i].as_slice());
        if t.len() > 0 {
            count = count + 1;
        }
        i = i + 1;
    }
    proof {
        assert(views.take(pieces@.len() as int) =~= views);
    }
    if count > MAX_TAGS {
        let mut m = decimal_string(count as u64);
        m.append(" tags. WordPress.org shows only the first five.");
        c.fail(m, "Keep the five tags that matter most.".to_owned()).with_paths(readme_paths())
    } else {
        let mut m = decimal_string(count as u64);
        m.append(" tag(s).");
        c.pass(m)
    }
}

// ---------------------------------------------------------------------------
// W04: screenshots
// ---------------------------------------------------------------------------

/// Whether `s` is strictly increasing.
pub open spec fn ascending(s: Seq<u32>) -> bool {
    forall|i: int, j: int| 0 <= i < j < s.len() ==> s[i] < s[j]
}

/// The numbers `p` holds of, in increasing order.
pub open spec fn enumeration(p: spec_fn(u32) -> bool) -> Seq<u32> {
    choose|s: Seq<u32>| ascending(s) && forall|n: u32| s.contains(n) <==> #[trigger] p(n)
}

/// Two increasing sequences with the same members are equal.
pub proof fn lemma_ascending_unique(a: Seq<u32>, b: Seq<u32>)
    requires
        ascending(a),
        ascending(b),
        forall|n: u32| a.contains(n) <==> b.contains(n),
    ensures
        a == b,
    decreases a.len(),
{
    if a.len() == 0 {
        if b.len() > 0 {
            assert(b.contains(b[0]));
        }
        assert(a =~= b);
    } else {
        assert(a.contains(a[0]));
        assert(b.len() > 0);
        assert(b.contains(b[0]));
        let i = choose|i: int| 0 <= i < a.len() && a[i] == b[0];
        let j = choose|j: int| 0 <= j < b.len() && b[j] == a[0];
        assert(a[0] <= a[i]);
        assert(b[0] <= b[j]);
        assert(a[0] == b[0]);
        assert forall|n: u32| a.skip(1).contains(n) <==> b.skip(1).contains(n) by {
            if a.skip(1).contains(n) {
                let k = choose|k: int| 0 <= k < a.skip(1).len() && a.skip(1)[k] == n;
                assert(a[k + 1] == n);
                assert(b.contains(n));
                let m = choose|m: int| 0 <= m < b.len() && b[m] == n;
                assert(m != 0);
                assert(b.skip(1)[m - 1] == n);
            }
            if b.skip(1).contains(n) {
                let k = choose|k: int| 0 <= k < b.skip(1).len() && b.skip(1)[k] == n;
                assert(b[k + 1] == n);
                assert(a.contains(n));
                let m = choose|m: int| 0 <= m < a.len() && a[m] == n;
                assert(m != 0);
                assert(a.skip(1)[m - 1] == n);
            }
        }
        lemma_ascending_unique(a.skip(1), b.skip(1));
        assert(a =~= seq![a[0]] + a.skip(1));
        assert(b =~= seq![b[0]] + b.skip(1));
    }
}

/// The number a caption line starts with: the text before its first `.`,
/// after trimming, parsed as a `u32`.
pub open spec fn caption_number(line: Seq<char>) -> Option<nat> {
    let t = trim(line);
    match first_index(t, '.') {
        Some(k) => parse_unsigned(t.take(k), u32::MAX as nat),
        None => None,
    }
}

/// The index of the first section titled `Screenshots`, ignoring ASCII case.
pub open spec fn screenshots_index(sections: Seq<Section>) -> Option<int>
    decreases sections.len(),
{
    if sections.len() == 0 {
        None
    } else if same_name(sections[0].title@, "Screenshots"@) {
        Some(0)
    } else {
        match screenshots_index(sections.skip(1)) {
            Some(k) => Some(k + 1),
            None => None,
        }
    }
}

/// Whether the readme's screenshot list numbers a caption `n`.
pub open spec fn listed(readme: Readme, n: u32) -> bool {
    match screenshots_index(readme.sections@) {
        Some(k) => {
            let ls = lines(readme.sections@[k].body@);
            exists|i: int| 0 <= i < ls.len() && caption_number(#[trigger] ls[i]) == Some(n as nat)
        },
        None => false,
    }
}

/// Whether `e` names an image format WordPress.org shows.
pub open spec fn image_extension(e: Seq<char>) -> bool {
    e == "png"@ || e == "jpg"@ || e == "jpeg"@ || e == "gif"@ || e == "webp"@
}

/// The `N` of an image named `screenshot-N.ext`, ignoring ASCII case.
pub open spec fn screenshot_number(name: Seq<char>) -> Option<nat> {
    let l = lower(name);
    let p = "screenshot-"@;
    if starts_with(l, p) {
        let rest = l.skip(p.len() as int);
        match first_index(rest, '.') {
            Some(k) => if image_extension(rest.skip(k + 1)) {
                parse_unsigned(rest.take(k), u32::MAX as nat)
            } else {
                None
            },
            None => None,
        }
    } else {
        None
    }
}

/// Whether the assets folder holds an image for screenshot `n`.
pub open spec fn has_image(assets: Seq<Seq<char>>, n: u32) -> bool {
    exists|i: int| 0 <= i < assets.len() && screenshot_number(#[trigger] assets[i]) == Some(n as nat)
}

/// The numbers the readme lists.
pub open spec fn listed_pred(readme: Readme) -> spec_fn(u32) -> bool {
    |n: u32| listed(readme, n)
}

/// The numbers the readme lists without an image.
pub open spec fn no_file_pred(readme: Readme, names: Seq<Seq<char>>) -> spec_fn(u32) -> bool {
    |n: u32| listed(readme, n) && !has_image(names, n)
}

/// The numbers with an image but no caption.
pub open spec fn no_caption_pred(readme: Readme, names: Seq<Seq<char>>) -> spec_fn(u32) -> bool {
    |n: u32| has_image(names, n) && !listed(readme, n)
}

proof fn lemma_enumeration(s: Seq<u32>, p: spec_fn(u32) -> bool)
    requires
        ascending(s),
        forall|n: u32| s.contains(n) <==> #[trigger] p(n),
    ensures
        enumeration(p) == s,
{
    assert(exists|t: Seq<u32>| ascending(t) && forall|n: u32| t.contains(n) <==> #[trigger] p(n));
    let e = enumeration(p);
    assert(ascending(e) && forall|n: u32| e.contains(n) <==> #[trigger] p(n));
    assert forall|n: u32| e.contains(n) <==> s.contains(n) by {
        let b = p(n);
        assert(e.contains(n) == b);
        assert(s.contains(n) == b);
    }
    lemma_ascending_unique(e, s);
}

/// `screenshot-N` for each number.
pub open spec fn screenshot_labels(ns: Seq<u32>) -> Seq<Seq<char>> {
    ns.map_values(|n: u32| "screenshot-"@ + decimal(n as nat))
}

/// W04: the readme screenshots match the assets folder.
pub open spec fn w04_spec(input: VerifyInput) -> CheckView {
    let c = warn("W04"@, "Readme screenshots match the assets folder"@);
    match input.assets {
        None => skipped(c, "No assets folder is configured."@),
        Some(assets) => match input.facts.readme {
            None => skipped(c, "readme.txt is missing."@),
            Some(readme) => {
                let names = texts(assets@);
                let all_listed = enumeration(listed_pred(readme));
                let no_file = screenshot_labels(enumeration(no_file_pred(readme, names)));
                let no_caption = screenshot_labels(enumeration(no_caption_pred(readme, names)));
                if no_file.len() == 0 && no_caption.len() == 0 {
                    passed(c, decimal(all_listed.len()) + " screenshot(s) match."@)
                } else {
                    let first: Seq<Seq<char>> = if no_file.len() > 0 {
                        seq!["captions without an image: "@ + join(no_file, ", "@)]
                    } else {
                        Seq::empty()
                    };
                    let second: Seq<Seq<char>> = if no_caption.len() > 0 {
                        seq!["images without a caption: "@ + join(no_caption, ", "@)]
                    } else {
                        Seq::empty()
                    };
                    with_paths(
                        failed(
                            c,
                            "Screenshots differ, "@ + join(first + second, "; "@) + "."@,
                            "Number the == Screenshots == list to match screenshot-N files in the assets folder."@,
                        ),
                        no_file + no_caption,
                    )
                }
            },
        },
    }
}

/// Adds `x` to an increasing sequence, keeping it increasing.
fn insert_sorted(v: &mut Vec<u32>, x: u32)
    requires
        ascending(old(v)@),
    ensures
        ascending(final(v)@),
        forall|n: u32| final(v)@.contains(n) <==> (old(v)@.contains(n) || n == x),
{
    let mut i: usize = 0;
    while i < v.len() && v[i] < x
        invariant
            v@ == old(v)@,
            i <= v@.len(),
            forall|j: int| 0 <= j < i ==> v@[j] < x,
        decreases v@.len() - i,
    {
        i = i + 1;
    }
    if i < v.len() && v[i] == x {
        assert(v@[i as int] == x);
        assert(v@.contains(x));
        return;
    }
    let ghost before = v@;
    v.insert(i, x);
    proof {
        assert(v@ == before.insert(i as int, x));
        assert forall|a: int, b: int| 0 <= a < b < v@.len() implies v@[a] < v@[b] by {
            if b < i {
            } else if a < i && b == i {
            } else if a < i {
                assert(v@[b] == before[b - 1]);
            } else if a == i {
                assert(v@[b] == before[b - 1]);
                assert(before[i as int] > x);
                assert(before[i as int] <= before[b - 1]);
            } else {
                assert(v@[a] == before[a - 1]);
                assert(v@[b] == before[b - 1]);
            }
        }
        assert forall|n: u32| #[trigger] v@.contains(n) <==> (before.contains(n) || n == x) by {
            if v@.contains(n) {
                let k = choose|k: int| 0 <= k < v@.len() && v@[k] == n;
                if k < i {
                    assert(before[k] == n);
                } else if k > i {
                    assert(before[k - 1] == n);
                }
            }
            if before.contains(n) {
                let k = choose|k: int| 0 <= k < before.len() && before[k] == n;
                if k < i {
                    assert(v@[k] == n);
                } else {
                    assert(v@[k + 1] == n);
                }
            }
            if n == x {
                assert(v@[i as int] == x);
            }
        }
    }
}

proof fn lemma_push_contains(s: Seq<u32>, x: u32, n: u32)
    ensures
        s.push(x).contains(n) <==> (s.contains(n) || n == x),
{
    if s.push(x).contains(n) {
        let k = choose|k: int| 0 <= k < s.push(x).len() && #[trigger] s.push(x)[k] == n;
        if k < s.len() {
            assert(s[k] == n);
        }
    }
    if s.contains(n) {
        let k = choose|k: int| 0 <= k < s.len() && #[trigger] s[k] == n;
        assert(s.push(x)[k] == n);
    }
    if n == x {
        assert(s.push(x)[s.len() as int] == n);
    }
}

/// The members of increasing `a` that `b` lacks, increasing.
fn difference(a: &Vec<u32>, b: &Vec<u32>) -> (out: Vec<u32>)
    requires
        ascending(a@),
    ensures
        ascending(out@),
        forall|n: u32| out@.contains(n) <==> (a@.contains(n) && !b@.contains(n)),
{
    let mut out: Vec<u32> = Vec::new();
    let mut i: usize = 0;
    while i < a.len()
        invariant
            i <= a@.len(),
            ascending(a@),
            ascending(out@),
            forall|k: int, m: int| 0 <= k < out@.len() && i <= m < a@.len() ==> out@[k] < a@[m],
            forall|n: u32| out@.contains(n) <==> (a@.take(i as int).contains(n) && !b@.contains(n)),
        decreases a@.len() - i,
    {
        let x = a[i];
        let mut found = false;
        let mut k: usize = 0;
        while k < b.len()
            invariant
                k <= b@.len(),
                found <==> exists|j: int| 0 <= j < k && b@[j] == x,
            decreases b@.len() - k,
        {
            if b[k] == x {
                found = true;
            }
            k = k + 1;
        }
        proof {
            assert(found <==> b@.contains(x));
            assert(a@.take(i + 1) =~= a@.take(i as int).push(x));
        }
        let ghost prev = out@;
        if !found {
            out.push(x);
        }
        proof {
            assert(!a@.take(i as int).contains(x)) by {
                if a@.take(i as int).contains(x) {
                    let k = choose|k: int| 0 <= k < a@.take(i as int).len() && #[trigger] a@.take(i as int)[k] == x;
                    assert(a@[k] < a@[i as int]);
                }
            }
            assert forall|n: u32| out@.contains(n) <==> (a@.take(i + 1).contains(n) && !b@.contains(n)) by {
                lemma_push_contains(a@.take(i as int), x, n);
                if !found {
                    lemma_push_contains(prev, x, n);
                }
            }
        }
        i = i + 1;
    }
    proof {
        assert(a@.take(a@.len() as int) =~= a@);
    }
    out
}

fn labels(ns: &Vec<u32>) -> (out: Vec<String>)
    ensures
        texts(out@) == screenshot_labels(ns@),
{
    let mut out: Vec<String> = Vec::new();
    let mut i: usize = 0;
    while i < ns.len()
        invariant
            i <= ns@.len(),
            texts(out@) == screenshot_labels(ns@.take(i as int)),
        decreases ns@.len() - i,
    {
        let mut s = "screenshot-".to_owned();
        s.append(decimal_string(ns[i] as u64).as_str());
        out.push(s);
        proof {
            assert(screenshot_labels(ns@.take(i + 1)) =~= screenshot_labels(ns@.take(i as int)).push(
                "screenshot-"@ + decimal(ns@[i as int] as nat),
            ));
        }
        i = i + 1;
    }
    proof {
        assert(ns@.take(ns@.len() as int) =~= ns@);
    }
    out
}

fn caption_number_exec(line: &[char]) -> (r: Option<u32>)
    ensures
        r matches Some(n) ==> caption_number(line@) == Some(n as nat),
        r is None ==> caption_number(line@) is None,
{
    let t = trim_space(line);
    match index_of(t.as_slice(), '.') {
        Some(k) => {
            let head = slice_chars(t.as_slice(), 0, k);
            proof {
                assert(head@ =~= t@.take(k as int));
            }
            match parse_unsigned_chars(head.as_slice(), 0xffff_ffffu64) {
                Some(v) => Some(v as u32),
                None => None,
            }
        },
        None => None,
    }
}

fn screenshot_number_exec(name: &str) -> (r: Option<u32>)
    ensures
        r matches Some(n) ==> screenshot_number(name@) == Some(n as nat),
        r is None ==> screenshot_number(name@) is None,
{
    let chars = to_chars(name);
    let l = to_lower(chars.as_slice());
    let p = to_chars("screenshot-");
    if !crate::strings::has_prefix(l.as_slice(), p.as_slice()) {
        return None;
    }
    let rest = slice_chars(l.as_slice(), p.len(), l.len());
    proof {
        assert(rest@ =~= l@.skip(p@.len() as int));
    }
    match index_of(rest.as_slice(), '.') {
        Some(k) => {
            let ext = crate::strings::from_chars(slice_chars(rest.as_slice(), k + 1, rest.len()).as_slice());
            proof {
                assert(ext@ =~= rest@.skip(k + 1));
            }
            let image = ext == "png".to_owned() || ext == "jpg".to_owned() || ext == "jpeg".to_owned()
                || ext == "gif".to_owned() || ext == "webp".to_owned();
            if !image {
                return None;
            }
            let head = slice_chars(rest.as_slice(), 0, k);
            proof {
                assert(head@ =~= rest@.take(k as int));
            }
            match parse_unsigned_chars(head.as_slice(), 0xffff_ffffu64) {
                Some(v) => Some(v as u32),
                None => None,
            }
        },
        None => None,
    }
}

proof fn lemma_screenshots_index_at(sections: Seq<Section>, k: int)
    requires
        0 <= k < sections.len(),
        same_name(sections[k].title@, "Screenshots"@),
        forall|j: int| 0 <= j < k ==> !same_name(#[trigger] sections[j].title@, "Screenshots"@),
    ensures
        screenshots_index(sections) == Some(k),
    decreases k,
{
    if k > 0 {
        assert forall|j: int| 0 <= j < k - 1 implies !same_name(#[trigger] sections.skip(1)[j].title@, "Screenshots"@) by {
            assert(sections.skip(1)[j] == sections[j + 1]);
        }
        lemma_screenshots_index_at(sections.skip(1), k - 1);
    }
}

proof fn lemma_screenshots_index_none(sections: Seq<Section>)
    requires
        forall|j: int| 0 <= j < sections.len() ==> !same_name(#[trigger] sections[j].title@, "Screenshots"@),
    ensures
        screenshots_index(sections) is None,
    decreases sections.len(),
{
    if sections.len() > 0 {
        assert forall|j: int| 0 <= j < sections.len() - 1 implies !same_name(#[trigger] sections.skip(1)[j].title@, "Screenshots"@) by {
            assert(sections.skip(1)[j] == sections[j + 1]);
        }
        lemma_screenshots_index_none(sections.skip(1));
    }
}

/// The caption numbers of the readme's screenshot list, increasing.
fn listed_numbers(readme: &Readme) -> (v: Vec<u32>)
    ensures
        ascending(v@),
        forall|n: u32| v@.contains(n) <==> listed(*readme, n),
{
    let mut v: Vec<u32> = Vec::new();
    let mut s: usize = 0;
    while s < readme.sections.len()
        invariant
            v@.len() == 0,
            s <= readme.sections@.len(),
            forall|j: int| 0 <= j < s ==> !same_name(#[trigger] readme.sections@[j].title@, "Screenshots"@),
        decreases readme.sections@.len() - s,
    {
        if crate::plugin::eq_ignore_case(readme.sections[s].title.as_str(), "Screenshots") {
            proof {
                lemma_screenshots_index_at(readme.sections@, s as int);
            }
            let body = to_chars(readme.sections[s].body.as_str());
            let ls = lines_of(body.as_slice());
            let ghost lv = lines(readme.sections@[s as int].body@);
            let mut i: usize = 0;
            while i < ls.len()
                invariant
                    i <= ls@.len(),
                    ls@.len() == lv.len(),
                    forall|j: int| 0 <= j < ls@.len() ==> #[trigger] ls@[j]@ == lv[j],
                    ascending(v@),
                    forall|n: u32| v@.contains(n) <==> exists|j: int| 0 <= j < i && caption_number(#[trigger] lv[j]) == Some(n as nat),
                decreases ls@.len() - i,
            {
                match caption_number_exec(ls[i].as_slice()) {
                    Some(n) => {
                        let ghost before = v@;
                        insert_sorted(&mut v, n);
                        proof {
                            assert forall|m: u32| v@.contains(m) <==> exists|j: int| 0 <= j < i + 1 && caption_number(#[trigger] lv[j]) == Some(m as nat) by {
                                if m == n {
                                    assert(caption_number(lv[i as int]) == Some(m as nat));
                                }
                                if exists|j: int| 0 <= j < i + 1 && caption_number(#[trigger] lv[j]) == Some(m as nat) {
                                    let j = choose|j: int| 0 <= j < i + 1 && caption_number(#[trigger] lv[j]) == Some(m as nat);
                                    if j == i {
                                        assert(m as nat == n as nat);
                                    }
                                }
                            }
                        }
                    },
                    None => {
                        proof {
                            assert forall|m: u32| v@.contains(m) <==> exists|j: int| 0 <= j < i + 1 && caption_number(#[trigger] lv[j]) == Some(m as nat) by {
                                if exists|j: int| 0 <= j < i + 1 && caption_number(#[trigger] lv[j]) == Some(m as nat) {
                                    let j = choose|j: int| 0 <= j < i + 1 && caption_number(#[trigger] lv[j]) == Some(m as nat);
                                    assert(j != i);
                                }
                            }
                        }
                    },
                }
                i = i + 1;
            }
            return v;
        }
        s = s + 1;
    }
    proof {
        lemma_screenshots_index_none(readme.sections@);
    }
    v
}

/// The screenshot numbers of the asset images, increasing.
fn image_numbers(assets: &[String]) -> (v: Vec<u32>)
    ensures
        ascending(v@),
        forall|n: u32| v@.contains(n) <==> has_image(texts(assets@), n),
{
    let ghost names = texts(assets@);
    let mut v: Vec<u32> = Vec::new();
    let mut i: usize = 0;
    while i < assets.len()
        invariant
            i <= assets@.len(),
            names == texts(assets@),
            ascending(v@),
            forall|n: u32| v@.contains(n) <==> exists|j: int| 0 <= j < i && screenshot_number(#[trigger] names[j]) == Some(n as nat),
        decreases assets@.len() - i,
    {
        proof {
            assert(names[i as int] == assets@[i as int]@);
        }
        match screenshot_number_exec(assets[i].as_str()) {
            Some(n) => {
                insert_sorted(&mut v, n);
                proof {
                    assert forall|m: u32| v@.contains(m) <==> exists|j: int| 0 <= j < i + 1 && screenshot_number(#[trigger] names[j]) == Some(m as nat) by {
                        if m == n {
                            assert(screenshot_number(names[i as int]) == Some(m as nat));
                        }
                        if exists|j: int| 0 <= j < i + 1 && screenshot_number(#[trigger] names[j]) == Some(m as nat) {
                            let j = choose|j: int| 0 <= j < i + 1 && screenshot_number(#[trigger] names[j]) == Some(m as nat);
                            if j == i {
                                assert(m as nat == n as nat);
                            }
                        }
                    }
                }
            },
            None => {
                proof {
                    assert forall|m: u32| v@.contains(m) <==> exists|j: int| 0 <= j < i + 1 && screenshot_number(#[trigger] names[j]) == Some(m as nat) by {
                        if exists|j: int| 0 <= j < i + 1 && screenshot_number(#[trigger] names[j]) == Some(m as nat) {
                            let j = choose|j: int| 0 <= j < i + 1 && screenshot_number(#[trigger] names[j]) == Some(m as nat);
                            assert(j != i);
                        }
                    }
                }
            },
        }
        i = i + 1;
    }
    v
}

fn w04(input: &VerifyInput<'_>) -> (r: CheckResult)
    ensures
        r@ == w04_spec(*input),
{
    let c = check("W04", "Readme screenshots match the assets folder");
    let assets = match input.assets {
        None => return c.skip("No assets folder is configured.".to_owned()),
        Some(a) => a,
    };
    let readme = match &input.facts.readme {
        None => return c.skip("readme.txt is missing.".to_owned()),
        Some(r) => r,
    };
    let ghost names = texts(assets@);
    let listed_v = listed_numbers(readme);
    let files_v = image_numbers(assets);
    let no_file_v = difference(&listed_v, &files_v);
    let no_caption_v = difference(&files_v, &listed_v);
    proof {
        lemma_enumeration(listed_v@, listed_pred(*readme));
        lemma_enumeration(no_file_v@, no_file_pred(*readme, names));
        lemma_enumeration(no_caption_v@, no_caption_pred(*readme, names));
    }
    let no_file = labels(&no_file_v);
    let no_caption = labels(&no_caption_v);
    if no_file.len() == 0 && no_caption.len() == 0 {
        let mut m = decimal_string(listed_v.len() as u64);
        m.append(" screenshot(s) match.");
        return c.pass(m);
    }
    let mut parts: Vec<String> = Vec::new();
    if no_file.len() > 0 {
        let mut p = "captions without an image: ".to_owned();
        p.append(join_texts(no_file.as_slice(), ", ").as_str());
        parts.push(p);
    }
    let ghost first = texts(parts@);
    if no_caption.len() > 0 {
        let mut p = "images without a caption: ".to_owned();
        p.append(join_texts(no_caption.as_slice(), ", ").as_str());
        parts.push(p);
    }
    proof {
        let nf = screenshot_labels(no_file_v@);
        let nc = screenshot_labels(no_caption_v@);
        let f: Seq<Seq<char>> = if nf.len() > 0 {
            seq!["captions without an image: "@ + join(nf, ", "@)]
        } else {
            Seq::empty()
        };
        let g: Seq<Seq<char>> = if nc.len() > 0 {
            seq!["images without a caption: "@ + join(nc, ", "@)]
        } else {
            Seq::empty()
        };
        assert(texts(parts@) =~= f + g);
    }
    let mut m = "Screenshots differ, ".to_owned();
    m.append(join_texts(parts.as_slice(), "; ").as_str());
    m.append(".");
    let mut paths = no_file;
    let ghost a = texts(paths@);
    let mut rest = no_caption;
    let ghost b = texts(rest@);
    paths.append(&mut rest);
    proof {
        assert(texts(paths@) =~= a + b);
    }
    c.fail(m, "Number the == Screenshots == list to match screenshot-N files in the assets folder.".to_owned())
        .with_paths(paths)
}

// ---------------------------------------------------------------------------
// W05 – W10
// ---------------------------------------------------------------------------

/// The sizes of `files` added up.
pub open spec fn total_size(files: Seq<FileRef>) -> nat
    decreases files.len(),
{
    if files.len() == 0 {
        0
    } else {
        total_size(files.drop_last()) + (files.last().size as nat)
    }
}

/// The sizes of the files under `vendor/` added up.
pub open spec fn vendor_size(files: Seq<FileRef>) -> nat
    decreases files.len(),
{
    if files.len() == 0 {
        0
    } else {
        vendor_size(files.drop_last()) + if starts_with(files.last().rel@, "vendor/"@) {
            files.last().size as nat
        } else {
            0nat
        }
    }
}

/// The package size fits a `u64`, as adding it up requires.
pub open spec fn sizes_fit(files: Seq<FileRef>) -> bool {
    total_size(files) <= u64::MAX
}

proof fn lemma_total_size_prefix(files: Seq<FileRef>, i: int)
    requires
        0 <= i <= files.len(),
    ensures
        total_size(files.take(i)) <= total_size(files),
        vendor_size(files.take(i)) <= total_size(files.take(i)),
    decreases files.len() - i,
{
    if i < files.len() {
        lemma_total_size_prefix(files, i + 1);
        assert(files.take(i + 1).drop_last() =~= files.take(i));
    } else {
        assert(files.take(i) =~= files);
    }
    lemma_vendor_le_total(files.take(i));
}

proof fn lemma_vendor_le_total(files: Seq<FileRef>)
    ensures
        vendor_size(files) <= total_size(files),
    decreases files.len(),
{
    if files.len() > 0 {
        lemma_vendor_le_total(files.drop_last());
    }
}

/// The files larger than 2 MB, in order.
pub open spec fn large_files(files: Seq<FileRef>) -> Seq<Seq<char>>
    decreases files.len(),
{
    if files.len() == 0 {
        Seq::empty()
    } else if files.last().size > FILE_WARN_BYTES {
        large_files(files.drop_last()).push(files.last().rel@)
    } else {
        large_files(files.drop_last())
    }
}

/// W05: the package and its files are a reasonable size.
pub open spec fn w05_spec(input: VerifyInput) -> CheckView {
    let c = warn("W05"@, "Package and files are a reasonable size"@);
    let total = total_size(input.files@);
    let large = large_files(input.files@);
    if total <= PACKAGE_WARN_BYTES && large.len() == 0 {
        passed(c, megabytes_text(total) + " in total."@)
    } else {
        let first: Seq<Seq<char>> = if total > PACKAGE_WARN_BYTES {
            seq!["the package is "@ + megabytes_text(total)]
        } else {
            Seq::empty()
        };
        let second: Seq<Seq<char>> = if large.len() > 0 {
            seq![decimal(large.len()) + " file(s) are over 2 MB"@]
        } else {
            Seq::empty()
        };
        with_paths(
            failed(
                c,
                "Large package: "@ + join(first + second, ", "@) + "."@,
                "Check that nothing belongs in .distignore."@,
            ),
            large,
        )
    }
}

fn w05(input: &VerifyInput<'_>) -> (r: CheckResult)
    requires
        sizes_fit(input.files@),
    ensures
        r@ == w05_spec(*input),
{
    let c = check("W05", "Package and files are a reasonable size");
    let files = input.files;
    let mut total: u64 = 0;
    let mut large: Vec<String> = Vec::new();
    let mut i: usize = 0;
    while i < files.len()
        invariant
            i <= files@.len(),
            files@ == input.files@,
            sizes_fit(files@),
            total == total_size(files@.take(i as int)),
            texts(large@) == large_files(files@.take(i as int)),
        decreases files@.len() - i,
    {
        proof {
            assert(files@.take(i + 1).drop_last() =~= files@.take(i as int));
            lemma_total_size_prefix(files@, i + 1);
        }
        total = total + files[i].size;
        if files[i].size > FILE_WARN_BYTES {
            large.push(files[i].rel.to_owned());
        }
        i = i + 1;
    }
    proof {
        assert(files@.take(files@.len() as int) =~= files@);
    }
    if total <= PACKAGE_WARN_BYTES && large.len() == 0 {
        let mut m = megabytes(total);
        m.append(" in total.");
        return c.pass(m);
    }
    let mut parts: Vec<String> = Vec::new();
    if total > PACKAGE_WARN_BYTES {
        let mut p = "the package is ".to_owned();
        p.append(megabytes(total).as_str());
        parts.push(p);
    }
    if large.len() > 0 {
        let mut p = decimal_string(large.len() as u64);
        p.append(" file(s) are over 2 MB");
        parts.push(p);
    }
    proof {
        let t = total as nat;
        let f: Seq<Seq<char>> = if t > PACKAGE_WARN_BYTES {
            seq!["the package is "@ + megabytes_text(t)]
        } else {
            Seq::empty()
        };
        let g: Seq<Seq<char>> = if large@.len() > 0 {
            seq![decimal(large@.len() as nat) + " file(s) are over 2 MB"@]
        } else {
            Seq::empty()
        };
        assert(texts(parts@) =~= f + g);
    }
    let mut m = "Large package: ".to_owned();
    m.append(join_texts(parts.as_slice(), ", ").as_str());
    m.append(".");
    c.fail(m, "Check that nothing belongs in .distignore.".to_owned()).with_paths(large)
}

/// W06: the version is not a pre-release.
pub open spec fn w06_spec(input: VerifyInput) -> CheckView {
    let c = warn("W06"@, "Version is not a pre-release"@);
    match parse_version(input.version@) {
        Some(v) => if v.pre.len() > 0 {
            failed(
                c,
                v.raw + " is a pre-release. WordPress.org serves it to everyone once the stable tag points to it."@,
                "Release it only if you mean every site to receive it."@,
            )
        } else {
            passed(c, v.raw + " is a final release."@)
        },
        None => skipped(c, "The version is invalid (V02)."@),
    }
}

fn w06(input: &VerifyInput<'_>) -> (r: CheckResult)
    ensures
        r@ == w06_spec(*input),
{
    let c = check("W06", "Version is not a pre-release");
    match Version::parse(input.version) {
        Ok(v) => {
            if v.is_prerelease() {
                let mut m = v.as_str().to_owned();
                m.append(" is a pre-release. WordPress.org serves it to everyone once the stable tag points to it.");
                c.fail(m, "Release it only if you mean every site to receive it.".to_owned())
            } else {
                let mut m = v.as_str().to_owned();
                m.append(" is a final release.");
                c.pass(m)
            }
        },
        Err(_) => c.skip("The version is invalid (V02).".to_owned()),
    }
}

/// The difference W07 reports for one requirement, if any.
pub open spec fn requirement_difference(readme: Readme, name: Seq<char>, in_header: Option<String>) -> Option<Seq<char>> {
    match (header_value(readme, name), in_header) {
        (Some(r), Some(h)) => if r != h@ {
            Some(name + " is "@ + r + " in readme.txt and "@ + h@ + " in the header"@)
        } else {
            None
        },
        _ => None,
    }
}

/// The differences W07 reports, in order.
pub open spec fn requirement_differences(readme: Readme, input: VerifyInput) -> Seq<Seq<char>> {
    let a: Seq<Seq<char>> = match requirement_difference(readme, "Requires PHP"@, input.facts.header.requires_php) {
        Some(d) => seq![d],
        None => Seq::empty(),
    };
    let b: Seq<Seq<char>> = match requirement_difference(readme, "Requires at least"@, input.facts.header.requires_at_least) {
        Some(d) => seq![d],
        None => Seq::empty(),
    };
    a + b
}

/// W07: the readme requirements match the plugin header.
pub open spec fn w07_spec(input: VerifyInput) -> CheckView {
    let c = warn("W07"@, "Readme requirements match the plugin header"@);
    match input.facts.readme {
        None => skipped(c, "readme.txt is missing."@),
        Some(readme) => {
            let diffs = requirement_differences(readme, input);
            if diffs.len() == 0 {
                passed(c, "Requirements agree."@)
            } else {
                with_paths(
                    failed(
                        c,
                        join(diffs, "; "@) + "."@,
                        "Use the same values in readme.txt and the plugin header."@,
                    ),
                    seq![README_FILE@, input.facts.main_file@],
                )
            }
        },
    }
}

fn difference_line(readme: &Readme, name: &str, in_header: &Option<String>) -> (r: Option<String>)
    ensures
        r matches Some(s) ==> requirement_difference(*readme, name@, *in_header) == Some(s@),
        r is None ==> requirement_difference(*readme, name@, *in_header) is None,
{
    let found = match readme.header(name) {
        Some(f) => f,
        None => return None,
    };
    let h = match in_header {
        Some(h) => h,
        None => return None,
    };
    if found.value == *h {
        return None;
    }
    let mut s = name.to_owned();
    s.append(" is ");
    s.append(found.value.as_str());
    s.append(" in readme.txt and ");
    s.append(h.as_str());
    s.append(" in the header");
    Some(s)
}

fn w07(input: &VerifyInput<'_>) -> (r: CheckResult)
    ensures
        r@ == w07_spec(*input),
{
    let c = check("W07", "Readme requirements match the plugin header");
    let readme = match &input.facts.readme {
        None => return c.skip("readme.txt is missing.".to_owned()),
        Some(r) => r,
    };
    let mut diffs: Vec<String> = Vec::new();
    match difference_line(readme, "Requires PHP", &input.facts.header.requires_php) {
        Some(d) => diffs.push(d),
        None => {},
    }
    let ghost first = texts(diffs@);
    match difference_line(readme, "Requires at least", &input.facts.header.requires_at_least) {
        Some(d) => diffs.push(d),
        None => {},
    }
    proof {
        assert(texts(diffs@) =~= requirement_differences(*readme, *input));
    }
    if diffs.len() == 0 {
        c.pass("Requirements agree.".to_owned())
    } else {
        let mut m = join_texts(diffs.as_slice(), "; ");
        m.append(".");
        let paths = vec![README_FILE.to_owned(), input.facts.main_file.clone()];
        assert(texts(paths@) =~= seq![README_FILE@, input.facts.main_file@]);
        c.fail(m, "Use the same values in readme.txt and the plugin header.".to_owned()).with_paths(paths)
    }
}

/// W08: no packaged file is ignored by `.gitignore`.
pub open spec fn w08_spec(input: VerifyInput) -> CheckView {
    let c = warn("W08"@, "No packaged file is ignored by .gitignore"@);
    if input.gitignored@.len() == 0 {
        passed(c, "Nothing in the package is git-ignored."@)
    } else {
        with_paths(
            failed(
                c,
                decimal(input.gitignored@.len()) + " packaged file(s) are git-ignored, probably build output."@,
                "If they are needed, keep them; otherwise add them to .distignore."@,
            ),
            texts(input.gitignored@),
        )
    }
}

fn w08(input: &VerifyInput<'_>) -> (r: CheckResult)
    ensures
        r@ == w08_spec(*input),
{
    let c = check("W08", "No packaged file is ignored by .gitignore");
    if input.gitignored.len() == 0 {
        c.pass("Nothing in the package is git-ignored.".to_owned())
    } else {
        let mut m = decimal_string(input.gitignored.len() as u64);
        m.append(" packaged file(s) are git-ignored, probably build output.");
        c.fail(m, "If they are needed, keep them; otherwise add them to .distignore.".to_owned()).with_paths(
            copy_all(input.gitignored),
        )
    }
}

/// W09: `readme.txt` has consistent line endings and no BOM.
pub open spec fn w09_spec(input: VerifyInput) -> CheckView {
    let c = warn("W09"@, "readme.txt has consistent line endings and no BOM"@);
    match input.readme_text {
        None => skipped(c, "readme.txt is missing."@),
        Some(text) => {
            let crlf_n = count_matches(text@, crlf());
            let lf_n = count_matches(text@, lf()) - crlf_n;
            let bom = text@.len() > 0 && text@[0] == BOM;
            let first: Seq<Seq<char>> = if crlf_n > 0 && lf_n > 0 {
                seq!["mixed line endings ("@ + decimal(crlf_n) + " CRLF, "@ + decimal(lf_n as nat) + " LF)"@]
            } else {
                Seq::empty()
            };
            let second: Seq<Seq<char>> = if bom {
                seq!["a UTF-8 byte order mark"@]
            } else {
                Seq::empty()
            };
            if first.len() == 0 && second.len() == 0 {
                passed(c, "Line endings are consistent."@)
            } else {
                with_paths(
                    failed(
                        c,
                        "readme.txt has "@ + join(first + second, " and "@) + "."@,
                        "Save readme.txt as UTF-8 without BOM, with one line-ending style."@,
                    ),
                    seq![README_FILE@],
                )
            }
        },
    }
}

fn w09(input: &VerifyInput<'_>) -> (r: CheckResult)
    ensures
        r@ == w09_spec(*input),
{
    let c = check("W09", "readme.txt has consistent line endings and no BOM");
    let text = match input.readme_text {
        None => return c.skip("readme.txt is missing.".to_owned()),
        Some(t) => t,
    };
    let report = eol_report(text);
    let mut problems: Vec<String> = Vec::new();
    if report.is_mixed() {
        let mut p = "mixed line endings (".to_owned();
        p.append(decimal_string(report.crlf as u64).as_str());
        p.append(" CRLF, ");
        p.append(decimal_string(report.lf as u64).as_str());
        p.append(" LF)");
        problems.push(p);
    }
    let ghost first = texts(problems@);
    if report.has_bom {
        problems.push("a UTF-8 byte order mark".to_owned());
    }
    proof {
        let crlf_n = count_matches(text@, crlf());
        let lf_n = count_matches(text@, lf()) - crlf_n;
        let f: Seq<Seq<char>> = if crlf_n > 0 && lf_n > 0 {
            seq!["mixed line endings ("@ + decimal(crlf_n) + " CRLF, "@ + decimal(lf_n as nat) + " LF)"@]
        } else {
            Seq::empty()
        };
        let g: Seq<Seq<char>> = if text@.len() > 0 && text@[0] == BOM {
            seq!["a UTF-8 byte order mark"@]
        } else {
            Seq::empty()
        };
        assert(texts(problems@) =~= f + g);
    }
    if problems.len() == 0 {
        c.pass("Line endings are consistent.".to_owned())
    } else {
        let mut m = "readme.txt has ".to_owned();
        m.append(join_texts(problems.as_slice(), " and ").as_str());
        m.append(".");
        c.fail(m, "Save readme.txt as UTF-8 without BOM, with one line-ending style.".to_owned()).with_paths(
            readme_paths(),
        )
    }
}

/// W10: `vendor/` is not oversized.
pub open spec fn w10_spec(input: VerifyInput) -> CheckView {
    let c = warn("W10"@, "vendor/ is not oversized"@);
    let vendor = vendor_size(input.files@);
    if vendor > VENDOR_WARN_BYTES {
        with_paths(
            failed(
                c,
                "vendor/ is "@ + megabytes_text(vendor) + "."@,
                "Install with composer install --no-dev --optimize-autoloader before releasing."@,
            ),
            seq!["vendor/"@],
        )
    } else if vendor == 0 {
        passed(c, "No vendor/ folder is packaged."@)
    } else {
        passed(c, "vendor/ is "@ + megabytes_text(vendor) + "."@)
    }
}

fn w10(input: &VerifyInput<'_>) -> (r: CheckResult)
    requires
        sizes_fit(input.files@),
    ensures
        r@ == w10_spec(*input),
{
    let c = check("W10", "vendor/ is not oversized");
    let files = input.files;
    let prefix = to_chars("vendor/");
    let mut vendor: u64 = 0;
    let mut i: usize = 0;
    while i < files.len()
        invariant
            i <= files@.len(),
            files@ == input.files@,
            sizes_fit(files@),
            prefix@ == "vendor/"@,
            vendor == vendor_size(files@.take(i as int)),
        decreases files@.len() - i,
    {
        proof {
            assert(files@.take(i + 1).drop_last() =~= files@.take(i as int));
            lemma_total_size_prefix(files@, i + 1);
        }
        let rel = to_chars(files[i].rel);
        if crate::strings::has_prefix(rel.as_slice(), prefix.as_slice()) {
            vendor = vendor + files[i].size;
        }
        i = i + 1;
    }
    proof {
        assert(files@.take(files@.len() as int) =~= files@);
    }
    if vendor > VENDOR_WARN_BYTES {
        let mut m = "vendor/ is ".to_owned();
        m.append(megabytes(vendor).as_str());
        m.append(".");
        let paths = vec!["vendor/".to_owned()];
        assert(texts(paths@) =~= seq!["vendor/"@]);
        c.fail(m, "Install with composer install --no-dev --optimize-autoloader before releasing.".to_owned())
            .with_paths(paths)
    } else if vendor == 0 {
        c.pass("No vendor/ folder is packaged.".to_owned())
    } else {
        let mut m = "vendor/ is ".to_owned();
        m.append(megabytes(vendor).as_str());
        m.append(".");
        c.pass(m)
    }
}

/// W11: what the WordPress.org readme validator warns about: a Stable tag
/// of `trunk`, and a readme with no Contributors field.
pub open spec fn w11_spec(input: VerifyInput) -> CheckView {
    let c = warn("W11"@, "Readme passes the WordPress.org readme validator"@);
    match input.facts.readme {
        None => skipped(c, "No readme.txt to validate."@),
        Some(readme) => match header_value(readme, "Stable tag"@) {
            Some(tag) if same_name(tag, "trunk"@) => with_paths(
                failed(
                    c,
                    "Stable tag: trunk. The readme validator asks for the version number of a tag."@,
                    "Set the Stable tag to the version you release."@,
                ),
                seq![README_FILE@],
            ),
            _ => if header_value(readme, "Contributors"@) is None {
                with_paths(
                    failed(
                        c,
                        "readme.txt has no Contributors field."@,
                        "Add \"Contributors:\" with your WordPress.org username."@,
                    ),
                    seq![README_FILE@],
                )
            } else {
                passed(c, "The readme validator has nothing to report."@)
            },
        },
    }
}

fn w11(input: &VerifyInput<'_>) -> (r: CheckResult)
    ensures
        r@ == w11_spec(*input),
{
    let c = check("W11", "Readme passes the WordPress.org readme validator");
    let readme = match &input.facts.readme {
        None => return c.skip("No readme.txt to validate.".to_owned()),
        Some(r) => r,
    };
    let trunk = match readme.header("Stable tag") {
        Some(h) => crate::plugin::eq_ignore_case(h.value.as_str(), "trunk"),
        None => false,
    };
    if trunk {
        return c.fail(
            "Stable tag: trunk. The readme validator asks for the version number of a tag.".to_owned(),
            "Set the Stable tag to the version you release.".to_owned(),
        ).with_paths(readme_paths());
    }
    if readme.header("Contributors").is_none() {
        return c.fail(
            "readme.txt has no Contributors field.".to_owned(),
            "Add \"Contributors:\" with your WordPress.org username.".to_owned(),
        ).with_paths(readme_paths());
    }
    c.pass("The readme validator has nothing to report.".to_owned())
}

/// W01–W11 in order.
pub open spec fn warning_checks(input: VerifyInput) -> Seq<CheckView> {
    seq![
        w01_spec(input),
        w02_spec(input),
        w03_spec(input),
        w04_spec(input),
        w05_spec(input),
        w06_spec(input),
        w07_spec(input),
        w08_spec(input),
        w09_spec(input),
        w10_spec(input),
        w11_spec(input),
    ]
}

/// W01–W11.
pub fn all(input: &VerifyInput<'_>) -> (r: Vec<CheckResult>)
    requires
        sizes_fit(input.files@),
    ensures
        views(r@) == warning_checks(*input),
{
    let r = vec![
        w01(input),
        w02(input),
        w03(input),
        w04(input),
        w05(input),
        w06(input),
        w07(input),
        w08(input),
        w09(input),
        w10(input),
        w11(input),
    ];
    assert(views(r@) =~= warning_checks(*input));
    r
}

/// Every warning that fails says what to do about it.
#[verifier::spinoff_prover]
#[verifier::rlimit(50)]
pub proof fn lemma_warning_failures_carry_a_fix(input: VerifyInput)
    ensures
        forall|i: int|
            0 <= i < warning_checks(input).len() && (#[trigger] warning_checks(input)[i]).status == CheckStatus::Fail
                ==> warning_checks(input)[i].fix is Some,
{
    reveal_strlit("Commit or stash your changes before releasing.");
    reveal_strlit("Test with WordPress ");
    reveal_strlit("Keep the five tags that matter most.");
    reveal_strlit("Number the == Screenshots == list to match screenshot-N files in the assets folder.");
    reveal_strlit("Check that nothing belongs in .distignore.");
    reveal_strlit("Release it only if you mean every site to receive it.");
    reveal_strlit("Use the same values in readme.txt and the plugin header.");
    reveal_strlit("If they are needed, keep them; otherwise add them to .distignore.");
    reveal_strlit("Save readme.txt as UTF-8 without BOM, with one line-ending style.");
    reveal_strlit("Install with composer install --no-dev --optimize-autoloader before releasing.");
    reveal_strlit("Set the Stable tag to the version you release.");
    reveal_strlit("Add \"Contributors:\" with your WordPress.org username.");
    assert(warning_checks(input).len() == 11);
}

/// W01 warns exactly when git reports uncommitted changes, naming each of
/// them; without git it is skipped.
pub proof fn lemma_w01_warns_on_uncommitted_changes(input: VerifyInput)
    ensures
        w01_spec(input).status == CheckStatus::Skip <==> input.git_dirty is None,
        w01_spec(input).status == CheckStatus::Fail <==> (input.git_dirty matches Some(p) && p@.len() > 0),
        match input.git_dirty {
            Some(p) => p@.len() > 0 ==> w01_spec(input).paths == texts(p@),
            None => true,
        },
{
}

/// W06 warns exactly when the version is valid and carries a pre-release
/// suffix (text after a `-`); an invalid version is left to V02.
pub proof fn lemma_w06_warns_on_a_pre_release(input: VerifyInput)
    ensures
        w06_spec(input).status == CheckStatus::Skip <==> parse_version(input.version@) is None,
        w06_spec(input).status == CheckStatus::Fail <==> (parse_version(input.version@) matches Some(v)
            && v.pre.len() > 0),
{
}

/// W08 warns exactly when some packaged file is git-ignored, naming them all.
pub proof fn lemma_w08_warns_on_ignored_files(input: VerifyInput)
    ensures
        w08_spec(input).status == CheckStatus::Fail <==> input.gitignored@.len() > 0,
        w08_spec(input).status != CheckStatus::Skip,
        input.gitignored@.len() > 0 ==> w08_spec(input).paths == texts(input.gitignored@),
{
}

/// W11 warns exactly when the readme's Stable tag is `trunk` or it has no
/// Contributors field; without a readme it is skipped.
pub proof fn lemma_w11_warns_like_the_readme_validator(input: VerifyInput)
    ensures
        w11_spec(input).status == CheckStatus::Skip <==> input.facts.readme is None,
        w11_spec(input).status == CheckStatus::Fail <==> (input.facts.readme matches Some(r) && ((header_value(
            r,
            "Stable tag"@,
        ) matches Some(t) && same_name(t, "trunk"@)) || header_value(r, "Contributors"@) is None)),
{
}

proof fn lemma_large_files_hold(files: Seq<FileRef>)
    ensures
        forall|i: int|
            0 <= i < files.len() && (#[trigger] files[i]).size > 2097152 ==> large_files(files).contains(files[i].rel@),
        large_files(files).len() == 0 <==> forall|i: int| 0 <= i < files.len() ==> (#[trigger] files[i]).size <= 2097152,
    decreases files.len(),
{
    if files.len() > 0 {
        let rest = files.drop_last();
        lemma_large_files_hold(rest);
        assert forall|i: int|
            0 <= i < files.len() && (#[trigger] files[i]).size > 2097152 implies large_files(files).contains(
                files[i].rel@,
            ) by {
            if i < files.len() - 1 {
                assert(files[i] == rest[i]);
                let k = choose|k: int| 0 <= k < large_files(rest).len() && large_files(rest)[k] == rest[i].rel@;
                if files.last().size > FILE_WARN_BYTES {
                    assert(large_files(files)[k] == rest[i].rel@);
                }
            } else {
                assert(large_files(files).last() == files[i].rel@);
            }
        }
        if large_files(files).len() == 0 {
            assert forall|i: int| 0 <= i < files.len() implies (#[trigger] files[i]).size <= 2097152 by {
                if i < files.len() - 1 {
                    assert(files[i] == rest[i]);
                }
            }
        }
        if forall|i: int| 0 <= i < files.len() ==> (#[trigger] files[i]).size <= 2097152 {
            assert(files[files.len() - 1].size <= 2097152);
            assert forall|i: int| 0 <= i < rest.len() implies (#[trigger] rest[i]).size <= 2097152 by {
                assert(rest[i] == files[i]);
            }
        }
    }
}

/// W05 warns exactly when the package is over 10 MiB in total or some file
/// is over 2 MiB, naming every such file.
pub proof fn lemma_w05_warns_on_large_packages(input: VerifyInput)
    ensures
        w05_spec(input).status == CheckStatus::Fail <==> (total_size(input.files@) > 10485760 || exists|i: int|
            0 <= i < input.files@.len() && (#[trigger] input.files@[i]).size > 2097152),
        w05_spec(input).status != CheckStatus::Skip,
        forall|i: int|
            0 <= i < input.files@.len() && (#[trigger] input.files@[i]).size > 2097152 ==> w05_spec(
                input,
            ).paths.contains(input.files@[i].rel@),
{
    lemma_large_files_hold(input.files@);
}

/// W10 warns exactly when the files under `vendor/` add up to more than
/// 5 MiB.
pub proof fn lemma_w10_warns_on_a_large_vendor_folder(input: VerifyInput)
    ensures
        w10_spec(input).status == CheckStatus::Fail <==> vendor_size(input.files@) > 5242880,
        w10_spec(input).status != CheckStatus::Skip,
{
}

/// W02 warns exactly when the readme's Tested up to is an older major.minor
/// than the current WordPress release; it is skipped when either is
/// unknown or unreadable.
pub proof fn lemma_w02_warns_when_tested_up_to_is_behind(input: VerifyInput)
    ensures
        w02_spec(input).status == CheckStatus::Fail <==> (input.current_wordpress matches Some(cur)
            && input.facts.readme matches Some(r) && header_value(r, "Tested up to"@) matches Some(t)
            && major_minor(t) matches Some(tv) && major_minor(cur@) matches Some(cv) && (tv.0 < cv.0 || (tv.0
            == cv.0 && tv.1 < cv.1))),
{
}

/// W03 warns exactly when the readme's Tags header names more than five
/// tags (blank pieces between commas do not count); without the header it
/// is skipped.
pub proof fn lemma_w03_warns_on_more_than_five_tags(input: VerifyInput)
    ensures
        w03_spec(input).status == CheckStatus::Skip <==> !(input.facts.readme matches Some(r) && header_value(
            r,
            "Tags"@,
        ) is Some),
        w03_spec(input).status == CheckStatus::Fail <==> (input.facts.readme matches Some(r) && header_value(
            r,
            "Tags"@,
        ) matches Some(v) && count_nonblank(split_char(v, ',')) > 5),
{
}

/// W07 warns exactly when the readme and the plugin header both give
/// `Requires PHP`, or both give `Requires at least`, with different values;
/// without a readme it is skipped.
pub proof fn lemma_w07_warns_on_differing_requirements(input: VerifyInput)
    ensures
        w07_spec(input).status == CheckStatus::Skip <==> input.facts.readme is None,
        w07_spec(input).status == CheckStatus::Fail <==> (input.facts.readme matches Some(r) && ((header_value(
            r,
            "Requires PHP"@,
        ) matches Some(a) && input.facts.header.requires_php matches Some(b) && a != b@) || (header_value(
            r,
            "Requires at least"@,
        ) matches Some(c) && input.facts.header.requires_at_least matches Some(d) && c != d@))),
{
}

/// W09 warns exactly when readme.txt mixes CRLF and bare LF line endings or
/// starts with a byte order mark; without readme text it is skipped.
pub proof fn lemma_w09_warns_on_mixed_endings_or_a_bom(input: VerifyInput)
    ensures
        w09_spec(input).status == CheckStatus::Skip <==> input.readme_text is None,
        w09_spec(input).status == CheckStatus::Fail <==> (input.readme_text matches Some(t) && ((count_matches(
            t@,
            crlf(),
        ) > 0 && count_matches(t@, lf()) - count_matches(t@, crlf()) > 0) || (t@.len() > 0 && t@[0] == BOM))),
{
}

} // verus!
