//! Character-level text operations shared by the whole library, each with
//! the meaning of the `str` method it stands for written as a spec function.

use vstd::prelude::*;

verus! {

broadcast use vstd::string::group_string_axioms;

// ---------------------------------------------------------------------------
// Meaning
// ---------------------------------------------------------------------------

/// `s` begins with `p`.
pub open spec fn starts_with(s: Seq<char>, p: Seq<char>) -> bool {
    p.len() <= s.len() && s.take(p.len() as int) == p
}

/// `s` ends with `p`.
pub open spec fn ends_with(s: Seq<char>, p: Seq<char>) -> bool {
    p.len() <= s.len() && s.skip(s.len() - p.len()) == p
}

/// `p` occurs in `s` starting at index `i`.
pub open spec fn matches_at(s: Seq<char>, p: Seq<char>, i: int) -> bool {
    0 <= i && i + p.len() <= s.len() && s.subrange(i, i + p.len()) == p
}

/// `p` occurs somewhere in `s`.
pub open spec fn contains(s: Seq<char>, p: Seq<char>) -> bool {
    exists|i: int| matches_at(s, p, i)
}

/// The number of non-overlapping occurrences of a non-empty `p`, found left
/// to right (`str::matches(..).count()`).
pub open spec fn count_matches(s: Seq<char>, p: Seq<char>) -> nat
    decreases s.len(),
{
    if p.len() == 0 || s.len() < p.len() {
        0
    } else if starts_with(s, p) {
        1 + count_matches(s.skip(p.len() as int), p)
    } else {
        count_matches(s.skip(1), p)
    }
}

/// Every non-overlapping occurrence of a non-empty `p`, found left to right,
/// replaced by `r` (`str::replace`).
pub open spec fn replace_all(s: Seq<char>, p: Seq<char>, r: Seq<char>) -> Seq<char>
    decreases s.len(),
{
    if p.len() == 0 || s.len() < p.len() {
        s
    } else if starts_with(s, p) {
        r + replace_all(s.skip(p.len() as int), p, r)
    } else {
        seq![s[0]] + replace_all(s.skip(1), p, r)
    }
}

/// The first occurrence of a non-empty `p` replaced by `r` (`str::replacen(p, r, 1)`).
pub open spec fn replace_first(s: Seq<char>, p: Seq<char>, r: Seq<char>) -> Seq<char>
    decreases s.len(),
{
    if p.len() == 0 || s.len() < p.len() {
        s
    } else if starts_with(s, p) {
        r + s.skip(p.len() as int)
    } else {
        seq![s[0]] + replace_first(s.skip(1), p, r)
    }
}

/// The index of the first `c` in `s`, or `None`.
pub open spec fn first_index(s: Seq<char>, c: char) -> Option<int>
    decreases s.len(),
{
    if s.len() == 0 {
        None
    } else if s[0] == c {
        Some(0)
    } else {
        match first_index(s.skip(1), c) {
            Some(k) => Some(k + 1),
            None => None,
        }
    }
}

/// The index of the last `c` in `s`, or `None`.
pub open spec fn last_index(s: Seq<char>, c: char) -> Option<int>
    decreases s.len(),
{
    if s.len() == 0 {
        None
    } else if s.last() == c {
        Some(s.len() - 1)
    } else {
        last_index(s.drop_last(), c)
    }
}

/// The index of the first occurrence of a non-empty `p` in `s`, or `None` (`str::find`).
pub open spec fn find(s: Seq<char>, p: Seq<char>) -> Option<int>
    decreases s.len(),
{
    if p.len() == 0 || s.len() < p.len() {
        None
    } else if starts_with(s, p) {
        Some(0)
    } else {
        match find(s.skip(1), p) {
            Some(k) => Some(k + 1),
            None => None,
        }
    }
}

/// The pieces of `s` between occurrences of `c` (`str::split(c)`): always at least one piece.
pub open spec fn split_char(s: Seq<char>, c: char) -> Seq<Seq<char>>
    decreases s.len(),
{
    if s.len() == 0 {
        seq![Seq::<char>::empty()]
    } else {
        let rest = split_char(s.skip(1), c);
        if s[0] == c {
            seq![Seq::<char>::empty()] + rest
        } else {
            rest.update(0, seq![s[0]] + rest[0])
        }
    }
}

/// `s` with `c` removed from the end as often as it appears there (`trim_end_matches(c)`).
pub open spec fn trim_end_char(s: Seq<char>, c: char) -> Seq<char>
    decreases s.len(),
{
    if s.len() > 0 && s.last() == c {
        trim_end_char(s.drop_last(), c)
    } else {
        s
    }
}

/// `s` with `c` removed from the start as often as it appears there (`trim_start_matches(c)`).
pub open spec fn trim_start_char(s: Seq<char>, c: char) -> Seq<char>
    decreases s.len(),
{
    if s.len() > 0 && s[0] == c {
        trim_start_char(s.skip(1), c)
    } else {
        s
    }
}

/// Unicode `White_Space`, the property `char::is_whitespace` and `str::trim` use.
pub open spec fn is_space(c: char) -> bool {
    ||| ('\u{9}' <= c && c <= '\u{d}')
    ||| c == ' '
    ||| c == '\u{85}'
    ||| c == '\u{a0}'
    ||| c == '\u{1680}'
    ||| ('\u{2000}' <= c && c <= '\u{200a}')
    ||| c == '\u{2028}'
    ||| c == '\u{2029}'
    ||| c == '\u{202f}'
    ||| c == '\u{205f}'
    ||| c == '\u{3000}'
}

/// `s` without trailing whitespace (`str::trim_end`).
pub open spec fn trim_end(s: Seq<char>) -> Seq<char>
    decreases s.len(),
{
    if s.len() > 0 && is_space(s.last()) {
        trim_end(s.drop_last())
    } else {
        s
    }
}

/// `s` without leading whitespace (`str::trim_start`).
pub open spec fn trim_start(s: Seq<char>) -> Seq<char>
    decreases s.len(),
{
    if s.len() > 0 && is_space(s[0]) {
        trim_start(s.skip(1))
    } else {
        s
    }
}

/// `s` without leading or trailing whitespace (`str::trim`).
pub open spec fn trim(s: Seq<char>) -> Seq<char> {
    trim_end(trim_start(s))
}

/// ASCII letters lowered, everything else kept (`char::to_ascii_lowercase`).
pub open spec fn lower_char(c: char) -> char {
    if 'A' <= c && c <= 'Z' {
        ((c as u32) + 32) as char
    } else {
        c
    }
}

/// `s` with ASCII letters lowered (`str::to_ascii_lowercase`).
pub open spec fn lower(s: Seq<char>) -> Seq<char> {
    s.map_values(|c: char| lower_char(c))
}

/// `c` is an ASCII digit.
pub open spec fn is_digit(c: char) -> bool {
    '0' <= c && c <= '9'
}

/// `c` is an ASCII letter or digit.
pub open spec fn is_alnum(c: char) -> bool {
    is_digit(c) || ('a' <= c && c <= 'z') || ('A' <= c && c <= 'Z')
}

/// The pieces of `s` joined with `sep` between them (`[..].join(sep)`).
pub open spec fn join(pieces: Seq<Seq<char>>, sep: Seq<char>) -> Seq<char>
    decreases pieces.len(),
{
    if pieces.len() == 0 {
        Seq::empty()
    } else if pieces.len() == 1 {
        pieces[0]
    } else {
        join(pieces.drop_last(), sep) + sep + pieces.last()
    }
}

// ---------------------------------------------------------------------------
// Facts
// ---------------------------------------------------------------------------

/// Starting with `p` after `i` characters is matching `p` at `i`.
pub proof fn lemma_skip_starts_with(s: Seq<char>, p: Seq<char>, i: int)
    requires
        0 <= i <= s.len(),
    ensures
        starts_with(s.skip(i), p) == matches_at(s, p, i),
{
    if p.len() <= s.len() - i {
        assert(s.skip(i).take(p.len() as int) =~= s.subrange(i, i + p.len()));
    }
}

/// `split_char` always yields at least one piece.
pub proof fn lemma_split_char_nonempty(s: Seq<char>, c: char)
    ensures
        split_char(s, c).len() >= 1,
    decreases s.len(),
{
    if s.len() > 0 {
        lemma_split_char_nonempty(s.skip(1), c);
    }
}

// ---------------------------------------------------------------------------
// Conversions
// ---------------------------------------------------------------------------

/// Appends one character to a `String` (`String::push`).
#[verifier::external_body]
pub(crate) fn push_char(s: &mut String, c: char)
    ensures
        final(s)@ == old(s)@.push(c),
{
    s.push(c);
}

/// The characters of `s`, in order.
pub fn to_chars(s: &str) -> (v: Vec<char>)
    ensures
        v@ == s@,
{
    let mut v: Vec<char> = Vec::new();
    for c in it: s.chars()
        invariant
            it.seq() == s@,
            v@ == s@.take(it.index()),
    {
        v.push(c);
    }
    v
}

/// A `String` holding exactly the characters of `chars`.
pub fn from_chars(chars: &[char]) -> (s: String)
    ensures
        s@ == chars@,
{
    let mut s = String::new();
    let mut i: usize = 0;
    while i < chars.len()
        invariant
            i <= chars@.len(),
            s@ == chars@.take(i as int),
        decreases chars@.len() - i,
    {
        push_char(&mut s, chars[i]);
        assert(chars@.take(i + 1) =~= chars@.take(i as int).push(chars@[i as int]));
        i = i + 1;
    }
    assert(chars@.take(chars@.len() as int) =~= chars@);
    s
}

/// Appends every character of `extra` to `v`.
pub fn extend_chars(v: &mut Vec<char>, extra: &[char])
    ensures
        final(v)@ == old(v)@ + extra@,
{
    let mut i: usize = 0;
    while i < extra.len()
        invariant
            i <= extra@.len(),
            v@ == old(v)@ + extra@.take(i as int),
        decreases extra@.len() - i,
    {
        v.push(extra[i]);
        assert(extra@.take(i + 1) =~= extra@.take(i as int).push(extra@[i as int]));
        i = i + 1;
    }
    assert(extra@.take(extra@.len() as int) =~= extra@);
}

/// Appends every character of `extra` to `v`.
pub fn extend_str(v: &mut Vec<char>, extra: &str)
    ensures
        final(v)@ == old(v)@ + extra@,
{
    let chars = to_chars(extra);
    extend_chars(v, chars.as_slice());
}

/// A copy of `s[from..to]`.
pub fn slice_chars(s: &[char], from: usize, to: usize) -> (r: Vec<char>)
    requires
        from <= to <= s@.len(),
    ensures
        r@ == s@.subrange(from as int, to as int),
{
    let mut r: Vec<char> = Vec::new();
    let mut i = from;
    while i < to
        invariant
            from <= i <= to <= s@.len(),
            r@ == s@.subrange(from as int, i as int),
        decreases to - i,
    {
        r.push(s[i]);
        assert(s@.subrange(from as int, i + 1) =~= s@.subrange(from as int, i as int).push(s@[i as int]));
        i = i + 1;
    }
    r
}

// ---------------------------------------------------------------------------
// Searching
// ---------------------------------------------------------------------------

/// Whether `p` occurs in `s` at index `i`.
pub fn is_match_at(s: &[char], p: &[char], i: usize) -> (b: bool)
    ensures
        b == matches_at(s@, p@, i as int),
{
    if i > s.len() || p.len() > s.len() - i {
        return false;
    }
    let mut k: usize = 0;
    while k < p.len()
        invariant
            i + p@.len() <= s@.len(),
            s@.len() <= usize::MAX,
            k <= p@.len(),
            forall|j: int| 0 <= j < k ==> s@[i + j] == p@[j],
        decreases p@.len() - k,
    {
        if s[i + k] != p[k] {
            assert(s@.subrange(i as int, i + p@.len())[k as int] != p@[k as int]);
            return false;
        }
        k = k + 1;
    }
    assert(s@.subrange(i as int, i + p@.len()) =~= p@);
    true
}

/// Whether `s` begins with `p`.
pub fn has_prefix(s: &[char], p: &[char]) -> (b: bool)
    ensures
        b == starts_with(s@, p@),
{
    let b = is_match_at(s, p, 0);
    proof {
        if p@.len() <= s@.len() {
            assert(s@.take(p@.len() as int) =~= s@.subrange(0, p@.len() as int));
        }
    }
    b
}

/// Whether `s` ends with `p`.
pub fn has_suffix(s: &[char], p: &[char]) -> (b: bool)
    ensures
        b == ends_with(s@, p@),
{
    if p.len() > s.len() {
        return false;
    }
    let b = is_match_at(s, p, s.len() - p.len());
    proof {
        assert(s@.skip(s@.len() - p@.len()) =~= s@.subrange(
            s@.len() - p@.len(),
            s@.len() as int,
        ));
    }
    b
}

/// Whether `p` occurs anywhere in `s`.
pub fn has_infix(s: &[char], p: &[char]) -> (b: bool)
    ensures
        b == contains(s@, p@),
{
    if p.len() > s.len() {
        proof {
            assert forall|i: int| !matches_at(s@, p@, i) by {}
        }
        return false;
    }
    let mut i: usize = 0;
    while i <= s.len() - p.len()
        invariant
            p@.len() <= s@.len(),
            i <= s@.len() - p@.len() + 1,
            forall|j: int| 0 <= j < i ==> !matches_at(s@, p@, j),
        decreases s@.len() - p@.len() + 1 - i,
    {
        if i == s.len() - p.len() {
            if is_match_at(s, p, i) {
                return true;
            }
            proof {
                assert forall|j: int| !matches_at(s@, p@, j) by {
                    if 0 <= j && j < i {
                    }
                }
            }
            return false;
        }
        if is_match_at(s, p, i) {
            return true;
        }
        i = i + 1;
    }
    proof {
        assert forall|j: int| !matches_at(s@, p@, j) by {
            if 0 <= j && j < i {
            }
        }
    }
    false
}

/// The number of non-overlapping occurrences of a non-empty `p` in `s`.
pub fn count_of(s: &[char], p: &[char]) -> (n: usize)
    requires
        p@.len() > 0,
    ensures
        n == count_matches(s@, p@),
{
    let mut n: usize = 0;
    let mut i: usize = 0;
    proof {
        assert(s@.skip(0) =~= s@);
    }
    while i < s.len()
        invariant
            i <= s@.len(),
            p@.len() > 0,
            n <= i,
            count_matches(s@, p@) == n + count_matches(s@.skip(i as int), p@),
        decreases s@.len() - i,
    {
        let ghost rest = s@.skip(i as int);
        proof {
            lemma_skip_starts_with(s@, p@, i as int);
        }
        if is_match_at(s, p, i) {
            proof {
                assert(rest.skip(p@.len() as int) =~= s@.skip(i + p@.len()));
            }
            n = n + 1;
            i = i + p.len();
        } else {
            proof {
                if rest.len() >= p@.len() {
                    assert(rest.skip(1) =~= s@.skip(i + 1));
                } else {
                    assert(count_matches(rest, p@) == 0);
                    assert(count_matches(s@.skip(i + 1), p@) == 0);
                }
            }
            i = i + 1;
        }
    }
    proof {
        assert(count_matches(s@.skip(i as int), p@) == 0);
    }
    n
}

/// `s` with every non-overlapping occurrence of a non-empty `p` replaced by `r`.
pub fn replace_chars(s: &[char], p: &[char], r: &[char]) -> (out: Vec<char>)
    requires
        p@.len() > 0,
    ensures
        out@ == replace_all(s@, p@, r@),
{
    let mut out: Vec<char> = Vec::new();
    let mut i: usize = 0;
    proof {
        assert(s@.skip(0) =~= s@);
    }
    while i < s.len()
        invariant
            i <= s@.len(),
            p@.len() > 0,
            replace_all(s@, p@, r@) == out@ + replace_all(s@.skip(i as int), p@, r@),
        decreases s@.len() - i,
    {
        let ghost rest = s@.skip(i as int);
        proof {
            lemma_skip_starts_with(s@, p@, i as int);
        }
        if is_match_at(s, p, i) {
            proof {
                assert(rest.skip(p@.len() as int) =~= s@.skip(i + p@.len()));
            }
            extend_chars(&mut out, r);
            i = i + p.len();
        } else {
            let ghost before = out@;
            out.push(s[i]);
            proof {
                if rest.len() >= p@.len() {
                    assert(rest.skip(1) =~= s@.skip(i + 1));
                    assert(before + (seq![rest[0]] + replace_all(rest.skip(1), p@, r@))
                        =~= out@ + replace_all(s@.skip(i + 1), p@, r@));
                } else {
                    assert(replace_all(rest, p@, r@) == rest);
                    lemma_replace_short(s@.skip(i + 1), p@, r@);
                    assert(rest =~= seq![s@[i as int]] + s@.skip(i + 1));
                    assert(before + rest =~= out@ + s@.skip(i + 1));
                }
            }
            i = i + 1;
        }
    }
    proof {
        assert(s@.skip(i as int).len() == 0);
        assert(out@ + replace_all(s@.skip(i as int), p@, r@) =~= out@);
    }
    out
}

proof fn lemma_replace_short(s: Seq<char>, p: Seq<char>, r: Seq<char>)
    requires
        s.len() < p.len(),
    ensures
        replace_all(s, p, r) == s,
{
}


// ---------------------------------------------------------------------------
// More meaning
// ---------------------------------------------------------------------------

/// `l` without one trailing carriage return.
pub open spec fn strip_cr(l: Seq<char>) -> Seq<char> {
    if l.len() > 0 && l.last() == '\r' {
        l.drop_last()
    } else {
        l
    }
}

/// The lines of `s` (`str::lines`): split at `\n`, a `\r` right before a
/// `\n` dropped, and no empty line after a final `\n`.
pub open spec fn lines(s: Seq<char>) -> Seq<Seq<char>> {
    let pieces = split_char(s, '\n');
    let n = pieces.len();
    let kept = if s.len() == 0 || s.last() == '\n' {
        n - 1
    } else {
        n as int
    };
    Seq::new(kept as nat, |i: int| if i < n - 1 { strip_cr(pieces[i]) } else { pieces[i] })
}

/// The value of a decimal digit character.
pub open spec fn digit_value(c: char) -> nat {
    ((c as u32) - ('0' as u32)) as nat
}

/// The character for a decimal digit.
pub open spec fn digit_char(d: nat) -> char {
    if d == 0 {
        '0'
    } else if d == 1 {
        '1'
    } else if d == 2 {
        '2'
    } else if d == 3 {
        '3'
    } else if d == 4 {
        '4'
    } else if d == 5 {
        '5'
    } else if d == 6 {
        '6'
    } else if d == 7 {
        '7'
    } else if d == 8 {
        '8'
    } else {
        '9'
    }
}

/// Every character of `s` is an ASCII digit.
pub open spec fn all_digits(s: Seq<char>) -> bool {
    forall|i: int| 0 <= i < s.len() ==> is_digit(#[trigger] s[i])
}

/// The number an all-digit `s` spells in decimal.
pub open spec fn digits_value(s: Seq<char>) -> nat
    decreases s.len(),
{
    if s.len() == 0 {
        0
    } else {
        digits_value(s.drop_last()) * 10 + digit_value(s.last())
    }
}

/// Decimal text of `n`, without leading zeros (`n.to_string()`).
pub open spec fn decimal(n: nat) -> Seq<char>
    decreases n,
{
    if n < 10 {
        seq![digit_char(n)]
    } else {
        decimal(n / 10) + seq![digit_char(n % 10)]
    }
}

/// What `str::parse` gives for an unsigned integer type whose largest value is `max`:
/// an optional `+`, then one or more ASCII digits, within range.
pub open spec fn parse_unsigned(s: Seq<char>, max: nat) -> Option<nat> {
    let d = if s.len() > 0 && s[0] == '+' {
        s.skip(1)
    } else {
        s
    };
    if d.len() == 0 || !all_digits(d) || digits_value(d) > max {
        None
    } else {
        Some(digits_value(d))
    }
}

// ---------------------------------------------------------------------------
// More facts
// ---------------------------------------------------------------------------

/// A piece boundary: the first piece of `split_char` is everything before the first `c`.
pub proof fn lemma_split_char_len(s: Seq<char>, c: char)
    ensures
        split_char(s, c).len() >= 1,
        forall|i: int| 0 <= i < split_char(s, c).len() ==> #[trigger] split_char(s, c)[i].len() <= s.len(),
    decreases s.len(),
{
    if s.len() > 0 {
        lemma_split_char_len(s.skip(1), c);
    }
}

/// The last piece of splitting a text that ends with `c` is empty.
pub proof fn lemma_split_char_ends(s: Seq<char>, c: char)
    requires
        s.len() > 0,
        s.last() == c,
    ensures
        split_char(s, c).last() == Seq::<char>::empty(),
    decreases s.len(),
{
    lemma_split_char_len(s, c);
    if s.len() == 1 {
        assert(s.skip(1) =~= Seq::<char>::empty());
        assert(split_char(s.skip(1), c) == seq![Seq::<char>::empty()]);
        assert(split_char(s, c) == seq![Seq::<char>::empty()] + seq![Seq::<char>::empty()]);
        assert((seq![Seq::<char>::empty()] + seq![Seq::<char>::empty()]).last() == Seq::<char>::empty());
    } else {
        lemma_split_char_ends(s.skip(1), c);
        lemma_split_char_len(s.skip(1), c);
        let rest = split_char(s.skip(1), c);
        if s[0] == c {
        } else {
            assert(rest.len() >= 2 || rest.len() == 1);
            if rest.len() == 1 {
                // the only piece is empty but the text has a character other than c before c
                lemma_split_single_has_no_sep(s.skip(1), c);
                assert(s.skip(1).last() == c);
                assert(false);
            }
        }
    }
}

/// When splitting yields a single piece, the separator does not occur and the piece is the text.
pub proof fn lemma_split_single_has_no_sep(s: Seq<char>, c: char)
    requires
        split_char(s, c).len() == 1,
    ensures
        split_char(s, c)[0] == s,
        forall|i: int| 0 <= i < s.len() ==> s[i] != c,
    decreases s.len(),
{
    if s.len() > 0 {
        lemma_split_char_len(s.skip(1), c);
        let rest = split_char(s.skip(1), c);
        if s[0] == c {
            assert(split_char(s, c).len() == 1 + rest.len());
        } else {
            lemma_split_single_has_no_sep(s.skip(1), c);
            assert(seq![s[0]] + s.skip(1) =~= s);
            assert forall|i: int| 0 <= i < s.len() implies s[i] != c by {
                if i > 0 {
                    assert(s[i] == s.skip(1)[i - 1]);
                }
            }
        }
    }
}

// ---------------------------------------------------------------------------
// More operations
// ---------------------------------------------------------------------------

/// The index of the first `c` in `s`.
pub fn index_of(s: &[char], c: char) -> (r: Option<usize>)
    ensures
        r matches Some(k) ==> first_index(s@, c) == Some(k as int) && k < s@.len() && s@[k as int] == c,
        r is None ==> first_index(s@, c) is None,
        r is None <==> forall|j: int| 0 <= j < s@.len() ==> s@[j] != c,
        r matches Some(k) ==> forall|j: int| 0 <= j < k ==> s@[j] != c,
{
    let mut i: usize = 0;
    while i < s.len()
        invariant
            i <= s@.len(),
            forall|j: int| 0 <= j < i ==> s@[j] != c,
        decreases s@.len() - i,
    {
        if s[i] == c {
            proof {
                lemma_first_index_at(s@, c, i as int);
            }
            return Some(i);
        }
        i = i + 1;
    }
    proof {
        lemma_first_index_none(s@, c);
    }
    None
}

pub proof fn lemma_first_index_at(s: Seq<char>, c: char, k: int)
    requires
        0 <= k < s.len(),
        s[k] == c,
        forall|j: int| 0 <= j < k ==> s[j] != c,
    ensures
        first_index(s, c) == Some(k),
    decreases k,
{
    if k > 0 {
        lemma_first_index_at(s.skip(1), c, k - 1);
    }
}

pub proof fn lemma_first_index_none(s: Seq<char>, c: char)
    requires
        forall|j: int| 0 <= j < s.len() ==> s[j] != c,
    ensures
        first_index(s, c) is None,
    decreases s.len(),
{
    if s.len() > 0 {
        lemma_first_index_none(s.skip(1), c);
    }
}

/// The index of the last `c` in `s`.
pub fn last_index_of(s: &[char], c: char) -> (r: Option<usize>)
    ensures
        r matches Some(k) ==> last_index(s@, c) == Some(k as int) && k < s@.len() && s@[k as int] == c,
        r is None ==> last_index(s@, c) is None,
        r is None <==> forall|j: int| 0 <= j < s@.len() ==> s@[j] != c,
        r matches Some(k) ==> forall|j: int| k < j < s@.len() ==> s@[j] != c,
{
    let mut i: usize = s.len();
    while i > 0
        invariant
            i <= s@.len(),
            forall|j: int| i <= j < s@.len() ==> s@[j] != c,
        decreases i,
    {
        if s[i - 1] == c {
            proof {
                lemma_last_index_at(s@, c, i - 1);
            }
            return Some(i - 1);
        }
        i = i - 1;
    }
    proof {
        lemma_last_index_none(s@, c);
    }
    None
}

proof fn lemma_last_index_at(s: Seq<char>, c: char, k: int)
    requires
        0 <= k < s.len(),
        s[k] == c,
        forall|j: int| k < j < s.len() ==> s[j] != c,
    ensures
        last_index(s, c) == Some(k),
    decreases s.len(),
{
    if k < s.len() - 1 {
        lemma_last_index_at(s.drop_last(), c, k);
    }
}

proof fn lemma_last_index_none(s: Seq<char>, c: char)
    requires
        forall|j: int| 0 <= j < s.len() ==> s[j] != c,
    ensures
        last_index(s, c) is None,
    decreases s.len(),
{
    if s.len() > 0 {
        lemma_last_index_none(s.drop_last(), c);
    }
}

/// The index of the first occurrence of a non-empty `p` in `s`.
pub fn find_chars(s: &[char], p: &[char]) -> (r: Option<usize>)
    requires
        p@.len() > 0,
    ensures
        r matches Some(k) ==> find(s@, p@) == Some(k as int) && matches_at(s@, p@, k as int),
        r is None ==> find(s@, p@) is None && !contains(s@, p@),
{
    let mut i: usize = 0;
    while i < s.len()
        invariant
            i <= s@.len(),
            p@.len() > 0,
            forall|j: int| 0 <= j < i ==> !matches_at(s@, p@, j),
        decreases s@.len() - i,
    {
        if is_match_at(s, p, i) {
            proof {
                lemma_find_at(s@, p@, i as int);
            }
            return Some(i);
        }
        i = i + 1;
    }
    proof {
        lemma_find_none(s@, p@);
        assert forall|j: int| !matches_at(s@, p@, j) by {
            if 0 <= j && j < i {
            }
        }
    }
    None
}

proof fn lemma_find_at(s: Seq<char>, p: Seq<char>, k: int)
    requires
        p.len() > 0,
        matches_at(s, p, k),
        forall|j: int| 0 <= j < k ==> !matches_at(s, p, j),
    ensures
        find(s, p) == Some(k),
    decreases k,
{
    lemma_skip_starts_with(s, p, 0);
    assert(s.skip(0) =~= s);
    if k > 0 {
        assert forall|j: int| 0 <= j < k - 1 implies !matches_at(s.skip(1), p, j) by {
            assert(!matches_at(s, p, j + 1));
            if matches_at(s.skip(1), p, j) {
                assert(s.skip(1).subrange(j, j + p.len()) =~= s.subrange(j + 1, j + 1 + p.len()));
            }
        }
        assert(s.skip(1).subrange(k - 1, k - 1 + p.len()) =~= s.subrange(k, k + p.len()));
        lemma_find_at(s.skip(1), p, k - 1);
    }
}

proof fn lemma_find_none(s: Seq<char>, p: Seq<char>)
    requires
        p.len() > 0,
        forall|j: int| 0 <= j < s.len() ==> !matches_at(s, p, j),
    ensures
        find(s, p) is None,
    decreases s.len(),
{
    if s.len() >= p.len() {
        lemma_skip_starts_with(s, p, 0);
        assert(s.skip(0) =~= s);
        assert forall|j: int| 0 <= j < s.skip(1).len() implies !matches_at(s.skip(1), p, j) by {
            assert(!matches_at(s, p, j + 1));
            if matches_at(s.skip(1), p, j) {
                assert(s.skip(1).subrange(j, j + p.len()) =~= s.subrange(j + 1, j + 1 + p.len()));
            }
        }
        lemma_find_none(s.skip(1), p);
    }
}

/// The pieces of `s` between occurrences of `c`.
pub fn split_on(s: &[char], c: char) -> (pieces: Vec<Vec<char>>)
    ensures
        pieces@.len() == split_char(s@, c).len(),
        forall|i: int| 0 <= i < pieces@.len() ==> #[trigger] pieces@[i]@ == split_char(s@, c)[i],
{
    let mut pieces: Vec<Vec<char>> = Vec::new();
    let mut i: usize = s.len();
    let mut current: Vec<char> = Vec::new();
    // Built from the end: `pieces` holds the later pieces in reverse order.
    proof {
        assert(s@.skip(s@.len() as int) =~= Seq::<char>::empty());
    }
    while i > 0
        invariant
            i <= s@.len(),
            split_char(s@.skip(i as int), c).len() == pieces@.len() + 1,
            split_char(s@.skip(i as int), c)[0] == current@,
            forall|j: int| 0 <= j < pieces@.len() ==> #[trigger] pieces@[j]@ == split_char(s@.skip(i as int), c)[split_char(s@.skip(i as int), c).len() - 1 - j],
        decreases i,
    {
        let ch = s[i - 1];
        proof {
            assert(s@.skip(i - 1).skip(1) =~= s@.skip(i as int));
            assert(s@.skip(i - 1)[0] == ch);
        }
        if ch == c {
            let done = current;
            pieces.push(done);
            current = Vec::new();
        } else {
            let mut next: Vec<char> = Vec::new();
            next.push(ch);
            extend_chars(&mut next, current.as_slice());
            current = next;
        }
        i = i - 1;
    }
    pieces.push(current);
    let n = pieces.len();
    let mut out: Vec<Vec<char>> = Vec::new();
    let mut k: usize = n;
    proof {
        assert(s@.skip(0) =~= s@);
    }
    while k > 0
        invariant
            k <= n == pieces@.len(),
            n == split_char(s@, c).len(),
            out@.len() == n - k,
            forall|j: int| 0 <= j < n ==> #[trigger] pieces@[j]@ == split_char(s@, c)[n - 1 - j],
            forall|j: int| 0 <= j < out@.len() ==> #[trigger] out@[j]@ == split_char(s@, c)[j],
        decreases k,
    {
        let piece = slice_chars(pieces[k - 1].as_slice(), 0, pieces[k - 1].len());
        proof {
            assert(pieces@[k - 1]@.subrange(0, pieces@[k - 1]@.len() as int) =~= pieces@[k - 1]@);
        }
        out.push(piece);
        k = k - 1;
    }
    out
}


/// The lines of `s`, as `str::lines` yields them.
pub fn lines_of(s: &[char]) -> (out: Vec<Vec<char>>)
    ensures
        out@.len() == lines(s@).len(),
        forall|i: int| 0 <= i < out@.len() ==> #[trigger] out@[i]@ == lines(s@)[i],
{
    let pieces = split_on(s, '\n');
    proof {
        lemma_split_char_len(s@, '\n');
        if s@.len() > 0 && s@.last() == '\n' {
            lemma_split_char_ends(s@, '\n');
        }
    }
    let n = pieces.len();
    let kept = if s.len() == 0 || s[s.len() - 1] == '\n' {
        n - 1
    } else {
        n
    };
    let mut out: Vec<Vec<char>> = Vec::new();
    let mut i: usize = 0;
    while i < kept
        invariant
            kept <= n == pieces@.len() == split_char(s@, '\n').len(),
            kept == lines(s@).len(),
            i <= kept,
            forall|j: int| 0 <= j < n ==> #[trigger] pieces@[j]@ == split_char(s@, '\n')[j],
            out@.len() == i,
            forall|j: int| 0 <= j < i ==> #[trigger] out@[j]@ == lines(s@)[j],
        decreases kept - i,
    {
        let piece = &pieces[i];
        let m = piece.len();
        let line = if i + 1 < n && m > 0 && piece[m - 1] == '\r' {
            slice_chars(piece.as_slice(), 0, m - 1)
        } else {
            slice_chars(piece.as_slice(), 0, m)
        };
        proof {
            assert(piece@.subrange(0, m as int) =~= piece@);
            if m > 0 {
                assert(piece@.subrange(0, m - 1) =~= piece@.drop_last());
            }
        }
        out.push(line);
        i = i + 1;
    }
    out
}

/// `s` without the characters `c` at its end.
pub fn trim_end_of(s: &[char], c: char) -> (r: Vec<char>)
    ensures
        r@ == trim_end_char(s@, c),
{
    let mut end = s.len();
    proof {
        assert(s@.subrange(0, end as int) =~= s@);
    }
    while end > 0 && s[end - 1] == c
        invariant
            end <= s@.len(),
            trim_end_char(s@, c) == trim_end_char(s@.subrange(0, end as int), c),
        decreases end,
    {
        proof {
            assert(s@.subrange(0, end as int).drop_last() =~= s@.subrange(0, end - 1));
        }
        end = end - 1;
    }
    slice_chars(s, 0, end)
}

/// `s` without the characters `c` at its start.
pub fn trim_start_of(s: &[char], c: char) -> (r: Vec<char>)
    ensures
        r@ == trim_start_char(s@, c),
{
    let mut start: usize = 0;
    proof {
        assert(s@.subrange(0, s@.len() as int) =~= s@);
    }
    while start < s.len() && s[start] == c
        invariant
            start <= s@.len(),
            trim_start_char(s@, c) == trim_start_char(s@.subrange(start as int, s@.len() as int), c),
        decreases s@.len() - start,
    {
        proof {
            assert(s@.subrange(start as int, s@.len() as int).skip(1) =~= s@.subrange(start + 1, s@.len() as int));
        }
        start = start + 1;
    }
    slice_chars(s, start, s.len())
}

/// Whether `c` is Unicode white space.
pub fn space(c: char) -> (b: bool)
    ensures
        b == is_space(c),
{
    ('\u{9}' <= c && c <= '\u{d}') || c == ' ' || c == '\u{85}' || c == '\u{a0}'
        || c == '\u{1680}' || ('\u{2000}' <= c && c <= '\u{200a}') || c == '\u{2028}'
        || c == '\u{2029}' || c == '\u{202f}' || c == '\u{205f}' || c == '\u{3000}'
}

/// `s` without trailing white space.
pub fn trim_end_space(s: &[char]) -> (r: Vec<char>)
    ensures
        r@ == trim_end(s@),
{
    let mut end = s.len();
    proof {
        assert(s@.subrange(0, end as int) =~= s@);
    }
    while end > 0 && space(s[end - 1])
        invariant
            end <= s@.len(),
            trim_end(s@) == trim_end(s@.subrange(0, end as int)),
        decreases end,
    {
        proof {
            assert(s@.subrange(0, end as int).drop_last() =~= s@.subrange(0, end - 1));
        }
        end = end - 1;
    }
    slice_chars(s, 0, end)
}

/// `s` without leading white space.
pub fn trim_start_space(s: &[char]) -> (r: Vec<char>)
    ensures
        r@ == trim_start(s@),
{
    let mut start: usize = 0;
    proof {
        assert(s@.subrange(0, s@.len() as int) =~= s@);
    }
    while start < s.len() && space(s[start])
        invariant
            start <= s@.len(),
            trim_start(s@) == trim_start(s@.subrange(start as int, s@.len() as int)),
        decreases s@.len() - start,
    {
        proof {
            assert(s@.subrange(start as int, s@.len() as int).skip(1) =~= s@.subrange(start + 1, s@.len() as int));
        }
        start = start + 1;
    }
    slice_chars(s, start, s.len())
}

/// `s` without leading or trailing white space.
pub fn trim_space(s: &[char]) -> (r: Vec<char>)
    ensures
        r@ == trim(s@),
{
    let a = trim_start_space(s);
    trim_end_space(a.as_slice())
}

/// `c` with an ASCII capital lowered.
pub fn lower_one(c: char) -> (r: char)
    ensures
        r == lower_char(c),
{
    if 'A' <= c && c <= 'Z' {
        ((c as u8) + 32) as char
    } else {
        c
    }
}

/// `s` with ASCII capitals lowered.
pub fn to_lower(s: &[char]) -> (r: Vec<char>)
    ensures
        r@ == lower(s@),
{
    let mut r: Vec<char> = Vec::new();
    let mut i: usize = 0;
    while i < s.len()
        invariant
            i <= s@.len(),
            r@ == lower(s@.take(i as int)),
        decreases s@.len() - i,
    {
        r.push(lower_one(s[i]));
        assert(lower(s@.take(i + 1)) =~= lower(s@.take(i as int)).push(lower_char(s@[i as int])));
        i = i + 1;
    }
    assert(s@.take(s@.len() as int) =~= s@);
    r
}

/// `pieces` joined with `sep` between neighbours.
pub fn join_with(pieces: &[Vec<char>], sep: &[char]) -> (r: Vec<char>)
    ensures
        r@ == join(pieces@.map_values(|p: Vec<char>| p@), sep@),
{
    let ghost views = pieces@.map_values(|p: Vec<char>| p@);
    let mut r: Vec<char> = Vec::new();
    let mut i: usize = 0;
    while i < pieces.len()
        invariant
            i <= pieces@.len(),
            views == pieces@.map_values(|p: Vec<char>| p@),
            r@ == join(views.take(i as int), sep@),
        decreases pieces@.len() - i,
    {
        if i > 0 {
            extend_chars(&mut r, sep);
        }
        extend_chars(&mut r, pieces[i].as_slice());
        proof {
            assert(views.take(i + 1).drop_last() =~= views.take(i as int));
            if i == 0 {
                assert(views.take(1) =~= seq![pieces@[0]@]);
            }
        }
        i = i + 1;
    }
    assert(views.take(pieces@.len() as int) =~= views);
    r
}

/// The character for decimal digit `d`.
pub fn digit_of(d: u64) -> (c: char)
    requires
        d < 10,
    ensures
        c == digit_char(d as nat),
{
    if d == 0 {
        '0'
    } else if d == 1 {
        '1'
    } else if d == 2 {
        '2'
    } else if d == 3 {
        '3'
    } else if d == 4 {
        '4'
    } else if d == 5 {
        '5'
    } else if d == 6 {
        '6'
    } else if d == 7 {
        '7'
    } else if d == 8 {
        '8'
    } else {
        '9'
    }
}

/// Decimal text of `n`.
pub fn decimal_chars(n: u64) -> (r: Vec<char>)
    ensures
        r@ == decimal(n as nat),
    decreases n,
{
    if n < 10 {
        let mut r: Vec<char> = Vec::new();
        r.push(digit_of(n));
        r
    } else {
        let mut r = decimal_chars(n / 10);
        r.push(digit_of(n % 10));
        r
    }
}

/// Decimal text of `n` (`n.to_string()`).
pub fn decimal_string(n: u64) -> (r: String)
    ensures
        r@ == decimal(n as nat),
{
    let v = decimal_chars(n);
    from_chars(v.as_slice())
}

/// What `str::parse` gives for an unsigned integer no larger than `max`.
pub fn parse_unsigned_chars(s: &[char], max: u64) -> (r: Option<u64>)
    ensures
        r matches Some(v) ==> parse_unsigned(s@, max as nat) == Some(v as nat),
        r is None ==> parse_unsigned(s@, max as nat) is None,
{
    let start: usize = if s.len() > 0 && s[0] == '+' {
        1
    } else {
        0
    };
    let ghost d = s@.subrange(start as int, s@.len() as int);
    proof {
        if start == 1 {
            assert(d =~= s@.skip(1));
        } else {
            assert(d =~= s@);
        }
    }
    if start == s.len() {
        return None;
    }
    let mut value: u64 = 0;
    let mut i = start;
    while i < s.len()
        invariant
            start <= i <= s@.len(),
            d == s@.subrange(start as int, s@.len() as int),
            start == 1 ==> d == s@.skip(1) && s@.len() > 0 && s@[0] == '+',
            start == 0 ==> d == s@ && !(s@.len() > 0 && s@[0] == '+'),
            start <= 1,
            all_digits(s@.subrange(start as int, i as int)),
            value as nat == digits_value(s@.subrange(start as int, i as int)),
            value <= max,
        decreases s@.len() - i,
    {
        let c = s[i];
        proof {
            assert(s@.subrange(start as int, i + 1).drop_last() =~= s@.subrange(start as int, i as int));
        }
        if !('0' <= c && c <= '9') {
            proof {
                assert(!is_digit(d[i - start]));
            }
            return None;
        }
        let digit = ((c as u32) - ('0' as u32)) as u64;
        if digit > max || value > (max - digit) / 10 {
            proof {
                assert(all_digits(s@.subrange(start as int, i + 1)));
                assert(digits_value(s@.subrange(start as int, i + 1)) == value * 10 + digit);
                if digit <= max {
                    assert(value * 10 + digit > max) by (nonlinear_arith)
                        requires
                            value > (max - digit) / 10,
                            digit <= max,
                    ;
                }
                if all_digits(d) {
                    lemma_digits_value_prefix(d, (i + 1 - start) as int);
                    assert(d.take((i + 1 - start) as int) =~= s@.subrange(start as int, i + 1));
                }
            }
            return None;
        }
        value = value * 10 + digit;
        i = i + 1;
    }
    proof {
        assert(s@.subrange(start as int, s@.len() as int) =~= d);
    }
    Some(value)
}

/// A number spelt by all digits never shrinks when more digits follow.
proof fn lemma_digits_value_prefix(d: Seq<char>, k: int)
    requires
        0 <= k <= d.len(),
        all_digits(d),
    ensures
        digits_value(d) >= digits_value(d.take(k)),
    decreases d.len(),
{
    if k < d.len() {
        assert(d.drop_last().take(k) =~= d.take(k));
        assert(all_digits(d.drop_last()));
        lemma_digits_value_prefix(d.drop_last(), k);
    } else {
        assert(d.take(k) =~= d);
    }
}


/// Where piece `k` of a split starts in the text: the lengths of the
/// earlier pieces plus one separator after each.
#[verifier::opaque]
pub open spec fn piece_offset(pieces: Seq<Seq<char>>, k: int) -> int
    decreases k,
{
    if k <= 0 {
        0
    } else {
        piece_offset(pieces, k - 1) + pieces[k - 1].len() + 1
    }
}

pub proof fn lemma_offset_zero(p: Seq<Seq<char>>)
    ensures
        piece_offset(p, 0) == 0,
{
    reveal(piece_offset);
}

/// The layout of a split: each piece is the text between separators, a
/// separator follows every piece but the last, and the last reaches the end.
pub open spec fn split_layout(s: Seq<char>, c: char, pieces: Seq<Seq<char>>) -> bool {
    &&& pieces.len() >= 1
    &&& forall|k: int| 0 <= k < pieces.len() ==> #[trigger] piece_fits(s, pieces, k)
    &&& forall|k: int| 0 <= k < pieces.len() - 1 ==> #[trigger] separated(s, c, pieces, k)
    &&& piece_offset(pieces, pieces.len() - 1) + pieces[pieces.len() - 1].len() == s.len()
}

/// A separator `c` follows piece `k`.
pub open spec fn separated(s: Seq<char>, c: char, pieces: Seq<Seq<char>>, k: int) -> bool {
    piece_offset(pieces, k) + pieces[k].len() < s.len() && s[piece_offset(pieces, k) + pieces[k].len()] == c
}

/// Piece `k` is the text at its offset.
pub open spec fn piece_fits(s: Seq<char>, pieces: Seq<Seq<char>>, k: int) -> bool {
    &&& 0 <= piece_offset(pieces, k)
    &&& piece_offset(pieces, k) + pieces[k].len() <= s.len()
    &&& s.subrange(piece_offset(pieces, k), piece_offset(pieces, k) + pieces[k].len()) == pieces[k]
}

proof fn lemma_offset_after_separator(r: Seq<Seq<char>>, k: int)
    requires
        0 <= k <= r.len(),
    ensures
        piece_offset(seq![Seq::<char>::empty()] + r, k) == if k == 0 {
            0
        } else {
            1 + piece_offset(r, k - 1)
        },
    decreases k,
{
    reveal(piece_offset);
    let p = seq![Seq::<char>::empty()] + r;
    if k > 1 {
        lemma_offset_after_separator(r, k - 1);
        assert(p[k - 1] == r[k - 2]);
        assert(piece_offset(p, k) == piece_offset(p, k - 1) + p[k - 1].len() + 1);
        assert(piece_offset(r, k - 1) == piece_offset(r, k - 2) + r[k - 2].len() + 1);
    } else if k == 1 {
        assert(p[0] == Seq::<char>::empty());
        assert(piece_offset(p, 1) == piece_offset(p, 0) + p[0].len() + 1);
        assert(piece_offset(r, 0) == 0);
    }
}

proof fn lemma_offset_after_char(r: Seq<Seq<char>>, x: char, k: int)
    requires
        r.len() >= 1,
        0 <= k <= r.len(),
    ensures
        piece_offset(r.update(0, seq![x] + r[0]), k) == if k == 0 {
            0
        } else {
            1 + piece_offset(r, k)
        },
    decreases k,
{
    reveal(piece_offset);
    let p = r.update(0, seq![x] + r[0]);
    if k > 1 {
        lemma_offset_after_char(r, x, k - 1);
        assert(p[k - 1] == r[k - 1]);
        assert(piece_offset(p, k) == piece_offset(p, k - 1) + p[k - 1].len() + 1);
        assert(piece_offset(r, k) == piece_offset(r, k - 1) + r[k - 1].len() + 1);
    } else if k == 1 {
        assert(p[0] == seq![x] + r[0]);
        assert(piece_offset(p, 1) == piece_offset(p, 0) + p[0].len() + 1);
        assert(piece_offset(r, 1) == piece_offset(r, 0) + r[0].len() + 1);
    }
}

#[verifier::rlimit(60)]
proof fn lemma_sep_piece(s: Seq<char>, c: char, k: int)
    requires
        s.len() > 0,
        s[0] == c,
        split_layout(s.skip(1), c, split_char(s.skip(1), c)),
        0 <= k < split_char(s, c).len(),
    ensures
        ({
            let p = split_char(s, c);
            &&& 0 <= piece_offset(p, k)
            &&& piece_offset(p, k) + p[k].len() <= s.len()
            &&& s.subrange(piece_offset(p, k), piece_offset(p, k) + p[k].len()) == p[k]
            &&& k < p.len() - 1 ==> piece_offset(p, k) + p[k].len() < s.len() && s[piece_offset(p, k) + p[k].len()] == c
        }),
{
    let p = split_char(s, c);
    let t = s.skip(1);
    let r = split_char(t, c);
    assert(p == seq![Seq::<char>::empty()] + r);
    lemma_offset_after_separator(r, k);
    if k == 0 {
        assert(s.subrange(0, 0) =~= Seq::<char>::empty());
    } else {
        let o = piece_offset(r, k - 1);
        assert(r[k - 1] == p[k]);
        assert(piece_fits(t, r, k - 1));
        if k < p.len() - 1 {
            assert(separated(t, c, r, k - 1));
        }
        assert(t.subrange(o, o + r[k - 1].len()) == r[k - 1]);
        assert(s.subrange(1 + o, 1 + o + p[k].len()) =~= t.subrange(o, o + r[k - 1].len()));
        if k < p.len() - 1 {
            assert(t[o + r[k - 1].len()] == c);
        }
    }
}

#[verifier::rlimit(60)]
proof fn lemma_char_piece(s: Seq<char>, c: char, k: int)
    requires
        s.len() > 0,
        s[0] != c,
        split_layout(s.skip(1), c, split_char(s.skip(1), c)),
        0 <= k < split_char(s, c).len(),
    ensures
        ({
            let p = split_char(s, c);
            &&& 0 <= piece_offset(p, k)
            &&& piece_offset(p, k) + p[k].len() <= s.len()
            &&& s.subrange(piece_offset(p, k), piece_offset(p, k) + p[k].len()) == p[k]
            &&& k < p.len() - 1 ==> piece_offset(p, k) + p[k].len() < s.len() && s[piece_offset(p, k) + p[k].len()] == c
        }),
{
    let p = split_char(s, c);
    let t = s.skip(1);
    let r = split_char(t, c);
    let x = s[0];
    assert(p == r.update(0, seq![x] + r[0]));
    lemma_offset_after_char(r, x, k);
    lemma_offset_zero(r);
    let o = piece_offset(r, k);
    assert(piece_fits(t, r, k));
    if k < p.len() - 1 {
        assert(separated(t, c, r, k));
    }
    assert(t.subrange(o, o + r[k].len()) == r[k]);
    if k < p.len() - 1 {
        assert(t[o + r[k].len()] == c);
    }
    if k == 0 {
        assert(o == 0);
        assert(p[0].len() == 1 + r[0].len());
        assert(s.subrange(0, 1 + r[0].len() as int) =~= seq![x] + t.subrange(0, r[0].len() as int));
    } else {
        assert(p[k] == r[k]);
        assert(s.subrange(1 + o, 1 + o + r[k].len()) =~= t.subrange(o, o + r[k].len()));
    }
}

proof fn lemma_layout_after_separator(s: Seq<char>, c: char)
    requires
        s.len() > 0,
        s[0] == c,
        split_layout(s.skip(1), c, split_char(s.skip(1), c)),
    ensures
        split_layout(s, c, split_char(s, c)),
{
    let p = split_char(s, c);
    let r = split_char(s.skip(1), c);
    assert(p == seq![Seq::<char>::empty()] + r);
    assert forall|k: int| 0 <= k < p.len() implies #[trigger] piece_fits(s, p, k) by {
        lemma_sep_piece(s, c, k);
        assert(0 <= piece_offset(p, k));
    }
    assert forall|k: int| 0 <= k < p.len() - 1 implies #[trigger] separated(s, c, p, k) by {
        lemma_sep_piece(s, c, k);
    }
    lemma_offset_after_separator(r, p.len() - 1);
    assert(p[p.len() - 1] == r[r.len() - 1]);
}

proof fn lemma_layout_after_char(s: Seq<char>, c: char)
    requires
        s.len() > 0,
        s[0] != c,
        split_layout(s.skip(1), c, split_char(s.skip(1), c)),
    ensures
        split_layout(s, c, split_char(s, c)),
{
    let p = split_char(s, c);
    let r = split_char(s.skip(1), c);
    let x = s[0];
    assert(p == r.update(0, seq![x] + r[0]));
    assert forall|k: int| 0 <= k < p.len() implies #[trigger] piece_fits(s, p, k) by {
        lemma_char_piece(s, c, k);
        assert(0 <= piece_offset(p, k));
    }
    assert forall|k: int| 0 <= k < p.len() - 1 implies #[trigger] separated(s, c, p, k) by {
        lemma_char_piece(s, c, k);
    }
    lemma_offset_after_char(r, x, p.len() - 1);
    lemma_offset_zero(r);
    if p.len() == 1 {
        assert(p[0].len() == 1 + r[0].len());
    } else {
        assert(p[p.len() - 1] == r[r.len() - 1]);
    }
}

/// `split_char` lays its pieces out over the text.
pub proof fn lemma_split_layout(s: Seq<char>, c: char)
    ensures
        split_layout(s, c, split_char(s, c)),
    decreases s.len(),
{
    if s.len() == 0 {
        let p = split_char(s, c);
        assert(p == seq![Seq::<char>::empty()]);
        assert(s.subrange(0, 0) =~= Seq::<char>::empty());
        reveal(piece_offset);
    } else {
        lemma_split_layout(s.skip(1), c);
        lemma_split_char_len(s.skip(1), c);
        if s[0] == c {
            lemma_layout_after_separator(s, c);
        } else {
            lemma_layout_after_char(s, c);
        }
    }
}


/// What `replace_first` does, by where `find` finds the pattern.
pub proof fn lemma_replace_first_found(s: Seq<char>, p: Seq<char>, r: Seq<char>)
    requires
        p.len() > 0,
    ensures
        match find(s, p) {
            Some(k) => 0 <= k && k + p.len() <= s.len() && replace_first(s, p, r) == s.take(k) + r + s.skip(k + p.len()),
            None => replace_first(s, p, r) == s,
        },
    decreases s.len(),
{
    if s.len() < p.len() {
    } else if starts_with(s, p) {
        assert(s.take(0) + r + s.skip(p.len() as int) =~= r + s.skip(p.len() as int));
    } else {
        lemma_replace_first_found(s.skip(1), p, r);
        match find(s.skip(1), p) {
            Some(k) => {
                assert(seq![s[0]] + (s.skip(1).take(k) + r + s.skip(1).skip(k + p.len())) =~= s.take(k + 1) + r
                    + s.skip(k + 1 + p.len()));
            },
            None => {
                assert(seq![s[0]] + s.skip(1) =~= s);
            },
        }
    }
}

/// `s` with the first occurrence of `p` replaced by `r` (`str::replacen(p, r, 1)`).
pub fn replace_first_chars(s: &[char], p: &[char], r: &[char]) -> (out: Vec<char>)
    requires
        p@.len() > 0,
    ensures
        out@ == replace_first(s@, p@, r@),
{
    proof {
        lemma_replace_first_found(s@, p@, r@);
    }
    match find_chars(s, p) {
        Some(k) => {
            let n = s.len();
            assert(k + p@.len() <= n);
            let mut out = slice_chars(s, 0, k);
            extend_chars(&mut out, r);
            let rest = slice_chars(s, k + p.len(), n);
            extend_chars(&mut out, rest.as_slice());
            assert(out@ =~= s@.take(k as int) + r@ + s@.skip(k + p@.len()));
            out
        },
        None => slice_chars(s, 0, s.len()),
    }
}

} // verus!
