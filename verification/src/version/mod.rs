//! Plugin versions: `x.y` or `x.y.z` with an optional pre-release suffix.
//!
//! Comparison normalises `1.0` to `1.0.0`; the text is kept exactly as
//! written because it names the tag folder.

use vstd::prelude::*;

pub mod precedence;
mod semver_calls;
pub mod sources;

use crate::strings::{
    all_digits, decimal, decimal_chars, digit_char, digit_value, digits_value, extend_chars, extend_str, first_index,
    from_chars, index_of, is_alnum, is_digit, lemma_first_index_at, lemma_first_index_none, parse_unsigned_chars, slice_chars, split_char,
    split_on, to_chars, trim, trim_end_char, trim_end_of, trim_space,
};
use precedence::{is_sign, lemma_pre_order, lemma_pre_order_transitive, pre_order};
use semver_calls::{prerelease_accepted, prerelease_precedence};

pub use sources::{VersionLocation, VersionSource, VersionSourceKind};

verus! {

broadcast use vstd::string::group_string_axioms;

/// What a [`Version`] stands for.
pub struct VersionView {
    /// The text exactly as written.
    pub raw: Seq<char>,
    /// Major number.
    pub major: nat,
    /// Minor number.
    pub minor: nat,
    /// Patch number; `0` when the text has only two parts.
    pub patch: nat,
    /// The pre-release suffix after the first `-`; empty for none.
    pub pre: Seq<char>,
}

/// A number part: one or more ASCII digits that fit a `u64`.
pub open spec fn number_part(p: Seq<char>) -> bool {
    p.len() > 0 && all_digits(p) && digits_value(p) <= u64::MAX
}

/// The text before the first `-`.
pub open spec fn core_of(raw: Seq<char>) -> Seq<char> {
    match first_index(raw, '-') {
        Some(i) => raw.take(i),
        None => raw,
    }
}

/// The text after the first `-`, when there is one.
pub open spec fn suffix_of(raw: Seq<char>) -> Option<Seq<char>> {
    match first_index(raw, '-') {
        Some(i) => Some(raw.skip(i + 1)),
        None => None,
    }
}

/// A non-empty identifier of ASCII letters and digits.
pub open spec fn alnum_word(id: Seq<char>) -> bool {
    id.len() > 0 && forall|j: int| 0 <= j < id.len() ==> is_alnum(#[trigger] id[j])
}

/// Dot-separated, non-empty ASCII alphanumeric identifiers.
pub open spec fn well_formed_suffix(p: Seq<char>) -> bool {
    forall|i: int| 0 <= i < split_char(p, '.').len() ==> alnum_word(#[trigger] split_char(p, '.')[i])
}

/// An all-digit identifier longer than one character does not start with `0`.
pub open spec fn no_leading_zero_word(id: Seq<char>) -> bool {
    all_digits(id) && id.len() > 1 ==> id[0] != '0'
}

/// No numeric identifier of `p` has a leading zero.
pub open spec fn no_leading_zero(p: Seq<char>) -> bool {
    forall|i: int| 0 <= i < split_char(p, '.').len() ==> no_leading_zero_word(#[trigger] split_char(p, '.')[i])
}

/// A pre-release suffix as a stored version holds it: empty, or accepted.
pub open spec fn suffix_ok(p: Seq<char>) -> bool {
    p.len() == 0 || (well_formed_suffix(p) && no_leading_zero(p))
}

/// The number parts hold: two or three of them.
pub open spec fn core_ok(parts: Seq<Seq<char>>) -> bool {
    &&& 2 <= parts.len() <= 3
    &&& forall|i: int| 0 <= i < parts.len() ==> number_part(#[trigger] parts[i])
}

/// What `Version::parse` makes of `raw`.
pub open spec fn parse_version(raw: Seq<char>) -> Option<VersionView> {
    let parts = split_char(core_of(raw), '.');
    let pre = match suffix_of(raw) {
        Some(p) => p,
        None => Seq::empty(),
    };
    let pre_ok = match suffix_of(raw) {
        Some(p) => well_formed_suffix(p) && no_leading_zero(p),
        None => true,
    };
    if core_ok(parts) && pre_ok {
        Some(
            VersionView {
                raw,
                major: digits_value(parts[0]),
                minor: digits_value(parts[1]),
                patch: if parts.len() == 3 {
                    digits_value(parts[2])
                } else {
                    0
                },
                pre,
            },
        )
    } else {
        None
    }
}

/// A version keeps its text exactly as written.
pub proof fn lemma_version_keeps_its_text(raw: Seq<char>)
    requires
        is_version(raw),
    ensures
        parse_version(raw) matches Some(v) && v.raw == raw,
{
}

/// Whether `raw` is a valid version.
pub open spec fn is_version(raw: Seq<char>) -> bool {
    parse_version(raw) is Some
}

/// Precedence of two versions: numbers first, then the pre-release suffix.
pub open spec fn version_order(a: VersionView, b: VersionView) -> int {
    if a.major != b.major {
        if a.major < b.major {
            -1
        } else {
            1
        }
    } else if a.minor != b.minor {
        if a.minor < b.minor {
            -1
        } else {
            1
        }
    } else if a.patch != b.patch {
        if a.patch < b.patch {
            -1
        } else {
            1
        }
    } else {
        pre_order(a.pre, b.pre)
    }
}

/// Whether two versions are the same release (`1.0` and `1.0.0` are).
pub open spec fn same_release(a: VersionView, b: VersionView) -> bool {
    a.major == b.major && a.minor == b.minor && a.patch == b.patch && a.pre == b.pre
}

/// `major.minor.patch` in decimal.
pub open spec fn numbered(major: nat, minor: nat, patch: nat) -> Seq<char> {
    decimal(major) + seq!['.'] + decimal(minor) + seq!['.'] + decimal(patch)
}

/// The next patch release of `v`.
pub open spec fn next_patch_of(v: VersionView) -> VersionView {
    let patch = if v.pre.len() > 0 {
        v.patch
    } else {
        v.patch + 1
    };
    VersionView { raw: numbered(v.major, v.minor, patch), major: v.major, minor: v.minor, patch, pre: Seq::empty() }
}

/// The next patch release is newer than the version it follows.
pub proof fn lemma_next_patch_is_newer(v: VersionView)
    ensures
        version_order(next_patch_of(v), v) > 0,
{
}

/// Version precedence is a three-way comparison: antisymmetric and reflexive.
pub proof fn lemma_version_order(a: VersionView, b: VersionView)
    ensures
        is_sign(version_order(a, b)),
        version_order(a, b) == -version_order(b, a),
        version_order(a, a) == 0,
        same_release(a, b) ==> version_order(a, b) == 0,
{
    lemma_pre_order(a.pre, b.pre);
    lemma_pre_order(a.pre, a.pre);
}

/// Version precedence is transitive, strictly so when either step is strict.
pub proof fn lemma_version_order_transitive(a: VersionView, b: VersionView, c: VersionView)
    requires
        version_order(a, b) <= 0,
        version_order(b, c) <= 0,
    ensures
        version_order(a, c) <= 0,
        version_order(a, b) < 0 || version_order(b, c) < 0 ==> version_order(a, c) < 0,
{
    lemma_pre_order(a.pre, b.pre);
    lemma_pre_order(b.pre, c.pre);
    if a.major == b.major && b.major == c.major && a.minor == b.minor && b.minor == c.minor
        && a.patch == b.patch && b.patch == c.patch {
        lemma_pre_order_transitive(a.pre, b.pre, c.pre);
    }
}

/// A plugin version. Comparison normalises `1.0` to `1.0.0`; [`Version::as_str`]
/// gives the text exactly as written.
pub struct Version {
    raw: String,
    major: u64,
    minor: u64,
    patch: u64,
    pre: String,
}

impl View for Version {
    type V = VersionView;

    closed spec fn view(&self) -> VersionView {
        VersionView {
            raw: self.raw@,
            major: self.major as nat,
            minor: self.minor as nat,
            patch: self.patch as nat,
            pre: self.pre@,
        }
    }
}

/// A version problem.
pub enum VersionError {
    /// The text is not a valid plugin version.
    Invalid { value: String },
    /// A custom version location's pattern is unusable.
    BadPattern { path: String, reason: String },
    /// A version location matched nothing.
    NotFound { path: String },
}

/// One or more ASCII digits that fit a `u64`, and their value.
fn number(part: &[char]) -> (r: Option<u64>)
    ensures
        r is Some <==> number_part(part@),
        r matches Some(v) ==> v == digits_value(part@),
{
    if part.len() == 0 {
        return None;
    }
    let mut i: usize = 0;
    while i < part.len()
        invariant
            i <= part@.len(),
            forall|j: int| 0 <= j < i ==> is_digit(#[trigger] part@[j]),
        decreases part@.len() - i,
    {
        if !('0' <= part[i] && part[i] <= '9') {
            return None;
        }
        i = i + 1;
    }
    parse_unsigned_chars(part, u64::MAX)
}

/// Whether `id` is a non-empty run of ASCII letters and digits.
fn is_alnum_word(id: &[char]) -> (b: bool)
    ensures
        b == alnum_word(id@),
{
    if id.len() == 0 {
        return false;
    }
    let mut i: usize = 0;
    while i < id.len()
        invariant
            i <= id@.len(),
            forall|j: int| 0 <= j < i ==> is_alnum(#[trigger] id@[j]),
        decreases id@.len() - i,
    {
        let c = id[i];
        if !(('0' <= c && c <= '9') || ('a' <= c && c <= 'z') || ('A' <= c && c <= 'Z')) {
            return false;
        }
        i = i + 1;
    }
    true
}

/// Whether every dot-separated identifier of `p` is a non-empty alphanumeric word.
fn is_well_formed_suffix(p: &[char]) -> (b: bool)
    ensures
        b == well_formed_suffix(p@),
{
    let ids = split_on(p, '.');
    let mut i: usize = 0;
    while i < ids.len()
        invariant
            i <= ids@.len(),
            ids@.len() == split_char(p@, '.').len(),
            forall|k: int| 0 <= k < ids@.len() ==> #[trigger] ids@[k]@ == split_char(p@, '.')[k],
            forall|k: int| 0 <= k < i ==> alnum_word(#[trigger] split_char(p@, '.')[k]),
        decreases ids@.len() - i,
    {
        if !is_alnum_word(ids[i].as_slice()) {
            assert(!alnum_word(split_char(p@, '.')[i as int]));
            return false;
        }
        i = i + 1;
    }
    true
}

impl Version {
    #[verifier::type_invariant]
    spec fn suffix_is_accepted(self) -> bool {
        suffix_ok(self.pre@)
    }

    /// Parses a version in the format check V02 accepts.
    pub fn parse(raw: &str) -> (r: Result<Version, VersionError>)
        ensures
            r matches Ok(v) ==> parse_version(raw@) == Some(v@),
            r matches Err(e) ==> parse_version(raw@) is None && e is Invalid && e->value@ == raw@,
            r is Ok <==> is_version(raw@),
    {
        let chars = to_chars(raw);
        let n = chars.len();
        let dash = index_of(chars.as_slice(), '-');
        let core: Vec<char>;
        let suffix: Option<Vec<char>>;
        match dash {
            Some(i) => {
                core = slice_chars(chars.as_slice(), 0, i);
                suffix = Some(slice_chars(chars.as_slice(), i + 1, n));
                proof {
                    assert(core@ =~= raw@.take(i as int));
                    assert(suffix->0@ =~= raw@.skip(i + 1));
                }
            },
            None => {
                core = slice_chars(chars.as_slice(), 0, n);
                suffix = None;
                proof {
                    assert(core@ =~= raw@);
                }
            },
        }
        let ghost parts_spec = split_char(core@, '.');
        let parts = split_on(core.as_slice(), '.');
        if parts.len() < 2 || parts.len() > 3 {
            return Err(VersionError::Invalid { value: raw.to_owned() });
        }
        let major = number(parts[0].as_slice());
        let minor = number(parts[1].as_slice());
        let patch = if parts.len() == 3 {
            number(parts[2].as_slice())
        } else {
            Some(0u64)
        };
        let (a, b, c) = match (major, minor, patch) {
            (Some(a), Some(b), Some(c)) => (a, b, c),
            _ => {
                proof {
                    if parts@.len() == 3 {
                        assert(!number_part(parts_spec[0]) || !number_part(parts_spec[1]) || !number_part(parts_spec[2]));
                    } else {
                        assert(!number_part(parts_spec[0]) || !number_part(parts_spec[1]));
                    }
                    assert(!core_ok(parts_spec));
                }
                return Err(VersionError::Invalid { value: raw.to_owned() });
            },
        };
        proof {
            assert forall|i: int| 0 <= i < parts_spec.len() implies number_part(#[trigger] parts_spec[i]) by {
                assert(i == 0 || i == 1 || i == 2);
            }
            assert(core_ok(parts_spec));
        }
        let pre: String = match suffix {
            None => String::new(),
            Some(p) => {
                if !is_well_formed_suffix(p.as_slice()) {
                    return Err(VersionError::Invalid { value: raw.to_owned() });
                }
                let text = from_chars(p.as_slice());
                if !prerelease_accepted(text.as_str()) {
                    return Err(VersionError::Invalid { value: raw.to_owned() });
                }
                text
            },
        };
        let v = Version { raw: raw.to_owned(), major: a, minor: b, patch: c, pre };
        Ok(v)
    }

    /// The version exactly as written.
    pub fn as_str(&self) -> (s: &str)
        ensures
            s@ == self@.raw,
    {
        self.raw.as_str()
    }

    /// The version exactly as written, as an owned string.
    pub fn to_string(&self) -> (s: String)
        ensures
            s@ == self@.raw,
    {
        self.raw.clone()
    }

    /// Whether the version carries a pre-release suffix (warning W06).
    pub fn is_prerelease(&self) -> (b: bool)
        ensures
            b == (self@.pre.len() > 0),
    {
        !self.pre.as_str().is_empty()
    }

    /// The next patch release: `1.2` → `1.2.1`, `1.2.3` → `1.2.4`,
    /// `1.3.0-beta1` → `1.3.0`.
    pub fn next_patch(&self) -> (v: Version)
        requires
            self@.pre.len() > 0 || self@.patch < u64::MAX,
        ensures
            v@ == next_patch_of(self@),
    {
        let patch = if self.is_prerelease() {
            self.patch
        } else {
            self.patch + 1
        };
        let mut text = decimal_chars(self.major);
        text.push('.');
        let minor = decimal_chars(self.minor);
        extend_chars(&mut text, minor.as_slice());
        text.push('.');
        let p = decimal_chars(patch);
        extend_chars(&mut text, p.as_slice());
        let raw = from_chars(text.as_slice());
        proof {
            assert(raw@ =~= numbered(self.major as nat, self.minor as nat, patch as nat));
        }
        Version { raw, major: self.major, minor: self.minor, patch, pre: String::new() }
    }

    /// Precedence against `other`: `-1` lower, `0` equal, `1` higher.
    pub fn order(&self, other: &Version) -> (o: i8)
        ensures
            o == version_order(self@, other@),
    {
        if self.major != other.major {
            if self.major < other.major {
                -1
            } else {
                1
            }
        } else if self.minor != other.minor {
            if self.minor < other.minor {
                -1
            } else {
                1
            }
        } else if self.patch != other.patch {
            if self.patch < other.patch {
                -1
            } else {
                1
            }
        } else {
            proof {
                use_type_invariant(self);
                use_type_invariant(other);
            }
            prerelease_precedence(self.pre.as_str(), other.pre.as_str())
        }
    }

    /// Whether `self` ranks above `other` (`>`).
    pub fn is_newer_than(&self, other: &Version) -> (b: bool)
        ensures
            b == (version_order(self@, other@) > 0),
    {
        self.order(other) > 0
    }

    /// Whether both name the same release (`==`): `1.0` equals `1.0.0`.
    pub fn equals(&self, other: &Version) -> (b: bool)
        ensures
            b == same_release(self@, other@),
    {
        self.major == other.major && self.minor == other.minor && self.patch == other.patch
            && self.pre == other.pre
    }
}

/// The newest valid version among `candidates` with trailing `/` removed,
/// the last one of equal precedence; `None` when none is valid.
pub open spec fn newest_spec_holds(candidates: Seq<Seq<char>>, r: Option<VersionView>) -> bool {
    match r {
        None => forall|i: int| 0 <= i < candidates.len() ==> !is_version(trim_end_char(#[trigger] candidates[i], '/')),
        Some(v) => exists|k: int| {
            &&& 0 <= k < candidates.len()
            &&& parse_version(trim_end_char(#[trigger] candidates[k], '/')) == Some(v)
            &&& forall|i: int| 0 <= i < candidates.len() && is_version(trim_end_char(#[trigger] candidates[i], '/')) ==> {
                &&& version_order(parse_version(trim_end_char(candidates[i], '/'))->0, v) <= 0
                &&& i > k ==> version_order(parse_version(trim_end_char(candidates[i], '/'))->0, v) < 0
            }
        },
    }
}

/// The newest valid version among `candidates` (trailing `/` removed), the
/// last one when several rank equal; `None` when none is valid.
pub open spec fn newest_of(candidates: Seq<Seq<char>>) -> Option<VersionView>
    decreases candidates.len(),
{
    if candidates.len() == 0 {
        None
    } else {
        let best = newest_of(candidates.drop_last());
        match parse_version(trim_end_char(candidates.last(), '/')) {
            Some(v) => match best {
                Some(b) => if version_order(v, b) >= 0 {
                    Some(v)
                } else {
                    Some(b)
                },
                None => Some(v),
            },
            None => best,
        }
    }
}

/// The newest valid version in `candidates`, for example tag folder names.
pub fn newest(candidates: &[&str]) -> (r: Option<Version>)
    ensures
        (match r {
            Some(v) => Some(v@),
            None => None,
        }) == newest_of(candidates@.map_values(|c: &str| c@)),
        newest_spec_holds(candidates@.map_values(|c: &str| c@), match r {
            Some(v) => Some(v@),
            None => None,
        }),
{
    let ghost views = candidates@.map_values(|c: &str| c@);
    let mut best: Option<Version> = None;
    let ghost mut best_at: int = 0;
    let mut i: usize = 0;
    while i < candidates.len()
        invariant
            i <= candidates@.len(),
            views == candidates@.map_values(|c: &str| c@),
            (match best {
                Some(b) => Some(b@),
                None => None,
            }) == newest_of(views.take(i as int)),
            best is None ==> forall|j: int| 0 <= j < i ==> !is_version(trim_end_char(#[trigger] views[j], '/')),
            best matches Some(b) ==> {
                &&& 0 <= best_at < i
                &&& parse_version(trim_end_char(views[best_at], '/')) == Some(b@)
                &&& forall|j: int| 0 <= j < i && is_version(trim_end_char(#[trigger] views[j], '/')) ==> {
                    &&& version_order(parse_version(trim_end_char(views[j], '/'))->0, b@) <= 0
                    &&& j > best_at ==> version_order(parse_version(trim_end_char(views[j], '/'))->0, b@) < 0
                }
            },
        decreases candidates@.len() - i,
    {
        let chars = to_chars(candidates[i]);
        let trimmed = trim_end_of(chars.as_slice(), '/');
        let text = from_chars(trimmed.as_slice());
        proof {
            assert(views[i as int] == candidates@[i as int]@);
            assert(views.take(i + 1).drop_last() =~= views.take(i as int));
            assert(views.take(i + 1).last() == views[i as int]);
        }
        match Version::parse(text.as_str()) {
            Ok(v) => {
                let replace = match &best {
                    None => true,
                    Some(b) => v.order(b) >= 0,
                };
                if replace {
                    proof {
                        if best is Some {
                            let b = best->0;
                            lemma_version_order(v@, b@);
                            assert forall|j: int| 0 <= j < i + 1 && is_version(trim_end_char(#[trigger] views[j], '/')) implies {
                                &&& version_order(parse_version(trim_end_char(views[j], '/'))->0, v@) <= 0
                                &&& j > i ==> version_order(parse_version(trim_end_char(views[j], '/'))->0, v@) < 0
                            } by {
                                if j < i {
                                    lemma_version_order_transitive(parse_version(trim_end_char(views[j], '/'))->0, b@, v@);
                                } else {
                                    lemma_version_order(v@, v@);
                                }
                            }
                        } else {
                            lemma_version_order(v@, v@);
                        }
                        best_at = i as int;
                    }
                    best = Some(v);
                } else {
                    proof {
                        let b = best->0;
                        lemma_version_order(v@, b@);
                    }
                }
            },
            Err(_) => {},
        }
        i = i + 1;
    }
    proof {
        assert(views.take(candidates@.len() as int) =~= views);
        if best is Some {
            let b = best->0;
            assert(parse_version(trim_end_char(views[best_at], '/')) == Some(b@));
        }
    }
    best
}

/// The length of the longest prefix of `s` made of ASCII digits and `.`.
pub open spec fn number_span(s: Seq<char>) -> nat
    decreases s.len(),
{
    if s.len() > 0 && (is_digit(s[0]) || s[0] == '.') {
        1 + number_span(s.skip(1))
    } else {
        0
    }
}

/// The length of the longest prefix of `s` made of ASCII letters, digits and `.`.
pub open spec fn suffix_span(s: Seq<char>) -> nat
    decreases s.len(),
{
    if s.len() > 0 && (is_alnum(s[0]) || s[0] == '.') {
        1 + suffix_span(s.skip(1))
    } else {
        0
    }
}

/// `t` without one leading `v` or `V`.
pub open spec fn without_v(t: Seq<char>) -> Seq<char> {
    if t.len() > 0 && (t[0] == 'v' || t[0] == 'V') {
        t.skip(1)
    } else {
        t
    }
}

/// The text a changelog title's version is read from: after an optional `v`,
/// the leading digits and dots, then a `-` and a suffix when one follows,
/// without trailing dots.
pub open spec fn leading_candidate(title: Seq<char>) -> Seq<char> {
    let rest = without_v(trim(title));
    let core = number_span(rest);
    let tail = rest.skip(core as int);
    let end = if tail.len() > 0 && tail[0] == '-' && suffix_span(tail.skip(1)) > 0 {
        (core + 1 + suffix_span(tail.skip(1))) as int
    } else {
        core as int
    };
    trim_end_char(rest.take(end), '.')
}

proof fn lemma_number_span(s: Seq<char>)
    ensures
        number_span(s) <= s.len(),
        forall|j: int| 0 <= j < number_span(s) ==> (is_digit(#[trigger] s[j]) || s[j] == '.'),
        number_span(s) < s.len() ==> !(is_digit(s[number_span(s) as int]) || s[number_span(s) as int] == '.'),
    decreases s.len(),
{
    if s.len() > 0 && (is_digit(s[0]) || s[0] == '.') {
        lemma_number_span(s.skip(1));
        assert forall|j: int| 0 <= j < number_span(s) implies (is_digit(#[trigger] s[j]) || s[j] == '.') by {
            if j > 0 {
                assert(s[j] == s.skip(1)[j - 1]);
            }
        }
    }
}

proof fn lemma_suffix_span(s: Seq<char>)
    ensures
        suffix_span(s) <= s.len(),
        forall|j: int| 0 <= j < suffix_span(s) ==> (is_alnum(#[trigger] s[j]) || s[j] == '.'),
        suffix_span(s) < s.len() ==> !(is_alnum(s[suffix_span(s) as int]) || s[suffix_span(s) as int] == '.'),
    decreases s.len(),
{
    if s.len() > 0 && (is_alnum(s[0]) || s[0] == '.') {
        lemma_suffix_span(s.skip(1));
        assert forall|j: int| 0 <= j < suffix_span(s) implies (is_alnum(#[trigger] s[j]) || s[j] == '.') by {
            if j > 0 {
                assert(s[j] == s.skip(1)[j - 1]);
            }
        }
    }
}

proof fn lemma_number_span_at(s: Seq<char>, k: int)
    requires
        0 <= k <= s.len(),
        forall|j: int| 0 <= j < k ==> (is_digit(#[trigger] s[j]) || s[j] == '.'),
        k < s.len() ==> !(is_digit(s[k]) || s[k] == '.'),
    ensures
        number_span(s) == k,
    decreases k,
{
    if k > 0 {
        assert forall|j: int| 0 <= j < k - 1 implies (is_digit(#[trigger] s.skip(1)[j]) || s.skip(1)[j] == '.') by {
            assert(s.skip(1)[j] == s[j + 1]);
        }
        lemma_number_span_at(s.skip(1), k - 1);
    }
}

proof fn lemma_suffix_span_at(s: Seq<char>, k: int)
    requires
        0 <= k <= s.len(),
        forall|j: int| 0 <= j < k ==> (is_alnum(#[trigger] s[j]) || s[j] == '.'),
        k < s.len() ==> !(is_alnum(s[k]) || s[k] == '.'),
    ensures
        suffix_span(s) == k,
    decreases k,
{
    if k > 0 {
        assert forall|j: int| 0 <= j < k - 1 implies (is_alnum(#[trigger] s.skip(1)[j]) || s.skip(1)[j] == '.') by {
            assert(s.skip(1)[j] == s[j + 1]);
        }
        lemma_suffix_span_at(s.skip(1), k - 1);
    }
}

/// The version a changelog title starts with, such as `1.2.3` in `v1.2.3 - 2026-09-01`.
pub fn extract_leading(title: &str) -> (r: Option<String>)
    ensures
        r is Some <==> is_version(leading_candidate(title@)),
        r matches Some(s) ==> s@ == leading_candidate(title@),
{
    let all = to_chars(title);
    let trimmed = trim_space(all.as_slice());
    let rest: Vec<char> = if trimmed.len() > 0 && (trimmed[0] == 'v' || trimmed[0] == 'V') {
        slice_chars(trimmed.as_slice(), 1, trimmed.len())
    } else {
        slice_chars(trimmed.as_slice(), 0, trimmed.len())
    };
    proof {
        assert(rest@ =~= without_v(trim(title@)));
    }
    let mut core: usize = 0;
    while core < rest.len() && (('0' <= rest[core] && rest[core] <= '9') || rest[core] == '.')
        invariant
            core <= rest@.len(),
            forall|j: int| 0 <= j < core ==> (is_digit(#[trigger] rest@[j]) || rest@[j] == '.'),
        decreases rest@.len() - core,
    {
        core = core + 1;
    }
    proof {
        lemma_number_span_at(rest@, core as int);
    }
    let mut end = core;
    if core < rest.len() && rest[core] == '-' {
        let mut k: usize = core + 1;
        while k < rest.len() && (('0' <= rest[k] && rest[k] <= '9') || ('a' <= rest[k] && rest[k] <= 'z') || ('A' <= rest[k] && rest[k] <= 'Z') || rest[k] == '.')
            invariant
                core + 1 <= k <= rest@.len(),
                forall|j: int| core + 1 <= j < k ==> (is_alnum(#[trigger] rest@[j]) || rest@[j] == '.'),
            decreases rest@.len() - k,
        {
            k = k + 1;
        }
        proof {
            let tail = rest@.skip(core as int).skip(1);
            assert forall|j: int| 0 <= j < k - core - 1 implies (is_alnum(#[trigger] tail[j]) || tail[j] == '.') by {
                assert(tail[j] == rest@[j + core + 1]);
            }
            if k < rest@.len() {
                assert(tail[k - core - 1] == rest@[k as int]);
            }
            lemma_suffix_span_at(tail, k - core - 1);
        }
        if k > core + 1 {
            end = k;
        }
    }
    let head = slice_chars(rest.as_slice(), 0, end);
    let candidate = trim_end_of(head.as_slice(), '.');
    proof {
        assert(head@ =~= rest@.take(end as int));
        assert(candidate@ == leading_candidate(title@));
    }
    let text = from_chars(candidate.as_slice());
    match Version::parse(text.as_str()) {
        Ok(v) => Some(text),
        Err(_) => None,
    }
}

impl VersionError {
    /// The stable error code.
    pub fn code(&self) -> (c: &'static str)
        ensures
            self is Invalid ==> c@ == "VERSION_INVALID"@,
            self is BadPattern ==> c@ == "VERSION_BAD_PATTERN"@,
            self is NotFound ==> c@ == "VERSION_NOT_FOUND"@,
    {
        match self {
            VersionError::Invalid { .. } => "VERSION_INVALID",
            VersionError::BadPattern { .. } => "VERSION_BAD_PATTERN",
            VersionError::NotFound { .. } => "VERSION_NOT_FOUND",
        }
    }

    /// What to do about it.
    pub fn fix(&self) -> (f: String)
        ensures
            self is Invalid ==> f@ == "Use x.y or x.y.z, optionally followed by a pre-release suffix such as -beta1."@,
            self is BadPattern ==> f@ == "Use a regular expression with exactly one capture group around the version."@,
            self matches VersionError::NotFound { path } ==> f@ == "Check that "@ + path@
                + " still contains the version, or update the pattern in project settings."@,
    {
        match self {
            VersionError::Invalid { .. } => "Use x.y or x.y.z, optionally followed by a pre-release suffix such as -beta1.".to_owned(),
            VersionError::BadPattern { .. } => "Use a regular expression with exactly one capture group around the version.".to_owned(),
            VersionError::NotFound { path } => {
                let mut f = "Check that ".to_owned();
                f.append(path.as_str());
                f.append(" still contains the version, or update the pattern in project settings.");
                f
            },
        }
    }

    /// What went wrong, in one sentence.
    pub fn message(&self) -> (m: String)
        ensures
            self matches VersionError::Invalid { value } ==> m@ == "\""@ + value@ + "\" is not a valid version"@,
            self matches VersionError::BadPattern { path, reason } ==> m@ == "the pattern for "@ + path@
                + " is invalid: "@ + reason@,
            self matches VersionError::NotFound { path } ==> m@ == "no version found in "@ + path@,
    {
        match self {
            VersionError::Invalid { value } => {
                let mut m = "\"".to_owned();
                m.append(value.as_str());
                m.append("\" is not a valid version");
                m
            },
            VersionError::BadPattern { path, reason } => {
                let mut m = "the pattern for ".to_owned();
                m.append(path.as_str());
                m.append(" is invalid: ");
                m.append(reason.as_str());
                m
            },
            VersionError::NotFound { path } => {
                let mut m = "no version found in ".to_owned();
                m.append(path.as_str());
                m
            },
        }
    }
}

/// The text of a version put together from its numbers and suffix:
/// `a.b`, then `.c` when there is a patch, then `-p` when there is a suffix.
pub open spec fn version_text(a: nat, b: nat, c: Option<nat>, p: Option<Seq<char>>) -> Seq<char> {
    let core = decimal(a) + seq!['.'] + decimal(b) + match c {
        Some(c) => seq!['.'] + decimal(c),
        None => Seq::empty(),
    };
    match p {
        Some(p) => core + seq!['-'] + p,
        None => core,
    }
}

proof fn lemma_digit_char_value(d: nat)
    requires
        d < 10,
    ensures
        is_digit(digit_char(d)),
        digit_value(digit_char(d)) == d,
{
}

proof fn lemma_decimal_digits(n: nat)
    ensures
        decimal(n).len() > 0,
        all_digits(decimal(n)),
        digits_value(decimal(n)) == n,
    decreases n,
{
    lemma_digit_char_value(n % 10);
    if n < 10 {
        let d = decimal(n);
        assert(d.drop_last() =~= Seq::<char>::empty());
        assert(digits_value(Seq::<char>::empty()) == 0);
        assert(d.last() == digit_char(n));
        assert(digits_value(d) == digits_value(d.drop_last()) * 10 + digit_value(d.last()));
    } else {
        lemma_decimal_digits(n / 10);
        let d = decimal(n);
        assert(d.drop_last() =~= decimal(n / 10));
        assert(d.last() == digit_char(n % 10));
        assert forall|i: int| 0 <= i < d.len() implies is_digit(#[trigger] d[i]) by {
            if i < d.len() - 1 {
                assert(d[i] == decimal(n / 10)[i]);
            }
        }
        assert(digits_value(d) == digits_value(d.drop_last()) * 10 + digit_value(d.last()));
        assert(n == (n / 10) * 10 + n % 10);
    }
}

pub proof fn lemma_split_without_separator(s: Seq<char>, c: char)
    requires
        forall|i: int| 0 <= i < s.len() ==> s[i] != c,
    ensures
        split_char(s, c) == seq![s],
    decreases s.len(),
{
    if s.len() > 0 {
        lemma_split_without_separator(s.skip(1), c);
        assert(s[0] != c);
        let rest = split_char(s.skip(1), c);
        assert(rest == seq![s.skip(1)]);
        assert(seq![s[0]] + s.skip(1) =~= s);
        assert(split_char(s, c) == rest.update(0, seq![s[0]] + rest[0]));
        assert(split_char(s, c) =~= seq![s]);
    } else {
        assert(s =~= Seq::<char>::empty());
    }
}

pub proof fn lemma_split_after_piece(x: Seq<char>, c: char, y: Seq<char>)
    requires
        forall|i: int| 0 <= i < x.len() ==> x[i] != c,
    ensures
        split_char(x + seq![c] + y, c) == seq![x] + split_char(y, c),
    decreases x.len(),
{
    let s = x + seq![c] + y;
    if x.len() == 0 {
        assert(s.skip(1) =~= y);
        assert(x =~= Seq::<char>::empty());
    } else {
        lemma_split_after_piece(x.skip(1), c, y);
        assert(s.skip(1) =~= x.skip(1) + seq![c] + y);
        assert(seq![x[0]] + x.skip(1) =~= x);
        assert(split_char(s, c) =~= seq![x] + split_char(y, c));
    }
}

proof fn lemma_digits_have_no(s: Seq<char>, c: char)
    requires
        all_digits(s),
        !is_digit(c),
    ensures
        forall|i: int| 0 <= i < s.len() ==> s[i] != c,
{
    assert forall|i: int| 0 <= i < s.len() implies s[i] != c by {
        assert(is_digit(s[i]));
    }
}

/// Every version text put together from numbers that fit a `u64` and an
/// optional suffix of one ASCII alphanumeric identifier without a leading
/// zero parses, with those numbers and that suffix, and keeps its text:
/// `Version::parse` accepts every `a.b`, `a.b.c`, `a.b-p` and `a.b.c-p`
/// of that shape, and `as_str` and `to_string` give the text back.
pub proof fn lemma_version_text_parses(a: nat, b: nat, c: Option<nat>, p: Option<Seq<char>>)
    requires
        a <= u64::MAX,
        b <= u64::MAX,
        c matches Some(n) ==> n <= u64::MAX,
        p matches Some(w) ==> alnum_word(w) && no_leading_zero_word(w),
    ensures
        is_version(version_text(a, b, c, p)),
        parse_version(version_text(a, b, c, p)) == Some(
            VersionView {
                raw: version_text(a, b, c, p),
                major: a,
                minor: b,
                patch: match c {
                    Some(n) => n,
                    None => 0,
                },
                pre: match p {
                    Some(w) => w,
                    None => Seq::empty(),
                },
            },
        ),
{
    let raw = version_text(a, b, c, p);
    let da = decimal(a);
    let db = decimal(b);
    lemma_decimal_digits(a);
    lemma_decimal_digits(b);
    lemma_digits_have_no(da, '.');
    lemma_digits_have_no(db, '.');
    lemma_digits_have_no(da, '-');
    lemma_digits_have_no(db, '-');
    let tail = match c {
        Some(n) => seq!['.'] + decimal(n),
        None => Seq::<char>::empty(),
    };
    let core = da + seq!['.'] + db + tail;
    let parts = match c {
        Some(n) => seq![da, db, decimal(n)],
        None => seq![da, db],
    };
    match c {
        Some(n) => {
            lemma_decimal_digits(n);
            lemma_digits_have_no(decimal(n), '.');
            lemma_digits_have_no(decimal(n), '-');
            lemma_split_without_separator(decimal(n), '.');
            lemma_split_after_piece(db, '.', decimal(n));
            assert(core =~= da + seq!['.'] + (db + seq!['.'] + decimal(n)));
            lemma_split_after_piece(da, '.', db + seq!['.'] + decimal(n));
            assert(split_char(core, '.') =~= parts);
        },
        None => {
            lemma_split_without_separator(db, '.');
            assert(core =~= da + seq!['.'] + db);
            lemma_split_after_piece(da, '.', db);
            assert(split_char(core, '.') =~= parts);
        },
    }
    assert forall|i: int| 0 <= i < core.len() implies core[i] != '-' by {
        if i < da.len() {
            assert(core[i] == da[i]);
        } else if i == da.len() {
        } else if i < da.len() + 1 + db.len() {
            assert(core[i] == db[i - da.len() - 1]);
        } else {
            match c {
                Some(n) => {
                    let k = i - da.len() - 1 - db.len();
                    assert(core[i] == tail[k]);
                    if k > 0 {
                        assert(tail[k] == decimal(n)[k - 1]);
                    }
                },
                None => {},
            }
        }
    }
    assert forall|i: int| 0 <= i < parts.len() implies number_part(#[trigger] parts[i]) by {}
    match p {
        Some(w) => {
            assert(raw =~= core + seq!['-'] + w);
            assert(raw[core.len() as int] == '-');
            assert forall|j: int| 0 <= j < core.len() implies raw[j] != '-' by {
                assert(raw[j] == core[j]);
            }
            lemma_first_index_at(raw, '-', core.len() as int);
            assert(raw.take(core.len() as int) =~= core);
            assert(raw.skip(core.len() as int + 1) =~= w);
            assert forall|j: int| 0 <= j < w.len() implies w[j] != '.' by {
                assert(is_alnum(w[j]));
            }
            lemma_split_without_separator(w, '.');
            assert(well_formed_suffix(w));
            assert(no_leading_zero(w));
        },
        None => {
            assert(raw =~= core);
            lemma_first_index_none(raw, '-');
        },
    }
}

/// The numbers of a valid version fit a `u64`.
pub proof fn lemma_number_parts_fit(raw: Seq<char>)
    ensures
        parse_version(raw) matches Some(v) ==> v.major <= u64::MAX && v.minor <= u64::MAX && v.patch <= u64::MAX,
{
    let parts = split_char(core_of(raw), '.');
    if parse_version(raw) is Some {
        assert(number_part(parts[0]));
        assert(number_part(parts[1]));
        if parts.len() == 3 {
            assert(number_part(parts[2]));
        }
    }
}

/// `0` and `1` in decimal.
pub proof fn lemma_decimal_small()
    ensures
        decimal(0) == seq!['0'],
        decimal(1) == seq!['1'],
{
}

} // verus!
