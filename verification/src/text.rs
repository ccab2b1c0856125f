//! Byte-preserving text helpers shared by the header and readme editors.

use vstd::prelude::*;
use vstd::utf8::{encode_scalar, encode_utf8};

use crate::strings::{
    self, count_matches, count_of, from_chars, lemma_split_char_ends, lemma_split_char_len,
    lemma_split_layout, piece_fits, piece_offset, replace_all, replace_chars, separated,
    split_char, split_on, to_chars,
};

verus! {

broadcast use vstd::string::group_string_axioms;

/// The UTF-8 byte order mark.
pub const BOM: char = '\u{feff}';

/// One line of a text with its byte offsets.
#[derive(Debug, Clone, Copy, PartialEq, Eq)]
pub struct Line<'a> {
    /// Byte offset of the first character of the line.
    pub start: usize,
    /// Byte offset just past the line content, before the line ending.
    pub content_end: usize,
    /// Byte offset just past the line ending (equals `content_end` on the last line).
    pub end: usize,
    /// The line content without its line ending.
    pub content: &'a str,
}

/// The number of bytes `s` takes in UTF-8.
pub open spec fn utf8_len(s: Seq<char>) -> nat {
    encode_utf8(s).len()
}

/// The smaller of two integers.
pub open spec fn min(a: int, b: int) -> int {
    if a <= b {
        a
    } else {
        b
    }
}

/// Line `i` of `text` as [`lines`] reports it: its content is the `i`-th of
/// `str::lines`, and its offsets are the UTF-8 byte positions of where the
/// line starts, where its content ends and where its ending ends.
pub open spec fn line_at(text: Seq<char>, i: int, line: (usize, usize, usize, Seq<char>)) -> bool {
    let p = split_char(text, '\n');
    let cs = piece_offset(p, i);
    let content = strings::lines(text)[i];
    &&& line.3 == content
    &&& line.0 == utf8_len(text.take(cs))
    &&& line.1 == utf8_len(text.take(cs + content.len()))
    &&& line.2 == utf8_len(text.take(min(cs + p[i].len() + 1, text.len() as int)))
}

/// UTF-8 encoding distributes over concatenation.
pub proof fn lemma_encode_concat(a: Seq<char>, b: Seq<char>)
    ensures
        encode_utf8(a + b) == encode_utf8(a) + encode_utf8(b),
    decreases a.len(),
{
    if a.len() == 0 {
        assert(a + b =~= b);
        assert(encode_utf8(a) =~= Seq::<u8>::empty());
        assert(encode_utf8(a) + encode_utf8(b) =~= encode_utf8(b));
    } else {
        lemma_encode_concat(a.drop_first(), b);
        assert((a + b).drop_first() =~= a.drop_first() + b);
        assert((a + b)[0] == a[0]);
    }
}

/// A prefix never takes more bytes than the whole.
pub proof fn lemma_utf8_prefix_le(s: Seq<char>, k: int)
    requires
        0 <= k <= s.len(),
    ensures
        utf8_len(s.take(k)) <= utf8_len(s),
{
    lemma_encode_concat(s.take(k), s.skip(k));
    assert(s.take(k) + s.skip(k) =~= s);
}

/// Line endings are one byte per character.
proof fn reveal_encode_small(t: Seq<char>)
    requires
        t == seq!['\r', '\n'] || t == seq!['\n'],
    ensures
        encode_utf8(t).len() == t.len(),
{
    reveal_with_fuel(encode_utf8, 3);
    if t.len() == 2 {
        assert(t.drop_first() =~= seq!['\n']);
        assert(t.drop_first().drop_first() =~= Seq::<char>::empty());
    } else {
        assert(t.drop_first() =~= Seq::<char>::empty());
    }
}

/// The byte length of one character.
pub fn char_width(c: char) -> (w: usize)
    ensures
        w == encode_scalar(c as u32).len(),
        1 <= w <= 4,
{
    proof {
        vstd::utf8::char_is_scalar(c);
    }
    let v = c as u32;
    if v <= 0x7f {
        1
    } else if v <= 0x7ff {
        2
    } else if v <= 0xffff {
        3
    } else {
        4
    }
}

/// The byte length of `s[from..to]`.
fn width_of(s: &[char], from: usize, to: usize) -> (w: usize)
    requires
        from <= to <= s@.len(),
        utf8_len(s@.subrange(from as int, to as int)) <= usize::MAX,
    ensures
        w == utf8_len(s@.subrange(from as int, to as int)),
{
    let mut w: usize = 0;
    let mut i = from;
    while i < to
        invariant
            from <= i <= to <= s@.len(),
            w == utf8_len(s@.subrange(from as int, i as int)),
            utf8_len(s@.subrange(from as int, to as int)) <= usize::MAX,
        decreases to - i,
    {
        proof {
            let a = s@.subrange(from as int, i as int);
            let b = seq![s@[i as int]];
            lemma_encode_concat(a, b);
            assert(a + b =~= s@.subrange(from as int, i + 1));
            assert(encode_utf8(b) =~= encode_scalar(s@[i as int] as u32)) by {
                assert(b.drop_first() =~= Seq::<char>::empty());
                assert(b[0] == s@[i as int]);
                assert(encode_utf8(b.drop_first()) =~= Seq::<u8>::empty());
            }
            lemma_encode_concat(s@.subrange(from as int, i + 1), s@.subrange(i + 1, to as int));
            assert(s@.subrange(from as int, i + 1) + s@.subrange(i + 1, to as int) =~= s@.subrange(from as int, to as int));
        }
        w = w + char_width(s[i]);
        i = i + 1;
    }
    w
}

/// Splits `text` into lines, keeping exact offsets so edits can splice bytes.
///
/// The contents are the lines `str::lines` yields; `start`, `content_end`
/// and `end` are byte offsets, and consecutive lines share a boundary, so
/// the lines tile the text.
pub fn lines(text: &str) -> (out: Vec<Line<'_>>)
    requires
        utf8_len(text@) <= usize::MAX,
    ensures
        out@.len() == strings::lines(text@).len(),
        forall|i: int|
            0 <= i < out@.len() ==> line_at(
                text@,
                i,
                (out@[i].start, out@[i].content_end, out@[i].end, out@[i].content@),
            ),
{
    let chars = to_chars(text);
    let pieces = split_on(chars.as_slice(), '\n');
    let ghost p = split_char(text@, '\n');
    proof {
        lemma_split_layout(text@, '\n');
        lemma_split_char_len(text@, '\n');
        if text@.len() > 0 && text@.last() == '\n' {
            lemma_split_char_ends(text@, '\n');
        }
    }
    let n = pieces.len();
    let kept = if chars.len() == 0 || chars[chars.len() - 1] == '\n' {
        n - 1
    } else {
        n
    };
    let mut out: Vec<Line<'_>> = Vec::new();
    let mut i: usize = 0;
    let mut cs: usize = 0;
    let mut bs: usize = 0;
    let total = chars.len();
    proof {
        crate::strings::lemma_offset_zero(p);
        assert(text@.take(0) =~= Seq::<char>::empty());
    }
    while i < kept
        invariant
            chars@ == text@,
            total == text@.len(),
            kept <= n == pieces@.len() == p.len(),
            p == split_char(text@, '\n'),
            kept == strings::lines(text@).len(),
            forall|j: int| 0 <= j < n ==> #[trigger] pieces@[j]@ == p[j],
            crate::strings::split_layout(text@, '\n', p),
            i <= kept,
            i < kept ==> cs == piece_offset(p, i as int),
            i < kept ==> cs <= text@.len(),
            i < kept ==> bs == utf8_len(text@.take(cs as int)),
            utf8_len(text@) <= usize::MAX,
            out@.len() == i,
            forall|j: int|
                0 <= j < i ==> line_at(
                    text@,
                    j,
                    (out@[j].start, out@[j].content_end, out@[j].end, out@[j].content@),
                ),
        decreases kept - i,
    {
        assert(piece_fits(text@, p, i as int));
        let m = pieces[i].len();
        let strip = i + 1 < n && m > 0 && pieces[i][m - 1] == '\r';
        let lm = if strip {
            m - 1
        } else {
            m
        };
        proof {
            lemma_encode_concat(text@.take(cs as int), text@.subrange(cs as int, cs + lm));
            assert(text@.take(cs as int) + text@.subrange(cs as int, cs + lm) =~= text@.take(cs + lm));
            lemma_utf8_prefix_le(text@, cs + lm);
        }
        let wl = width_of(chars.as_slice(), cs, cs + lm);
        let content_end = bs + wl;
        let content = text.substring_char(cs, cs + lm);
        let (end, next_cs) = if i + 1 < n {
            assert(separated(text@, '\n', p, i as int));
            proof {
                let tail = if strip { seq!['\r', '\n'] } else { seq!['\n'] };
                assert(text@.subrange(cs + lm, cs + m + 1) =~= tail);
                lemma_encode_concat(text@.take(cs + lm), tail);
                assert(text@.take(cs + lm) + tail =~= text@.take(cs + m + 1));
                lemma_utf8_prefix_le(text@, cs + m + 1);
                reveal_encode_small(tail);
            }
            let extra: usize = if strip { 2 } else { 1 };
            (content_end + extra, cs + m + 1)
        } else {
            (content_end, cs + m)
        };
        proof {
            assert(text@.subrange(cs as int, cs + m) == p[i as int]);
            assert(content@ == text@.subrange(cs as int, cs + lm));
            assert(content@ =~= strings::lines(text@)[i as int]);
            reveal(piece_offset);
        }
        out.push(Line { start: bs, content_end, end, content });
        i = i + 1;
        cs = next_cs;
        bs = end;
    }
    out
}


/// CRLF written as characters.
pub open spec fn crlf() -> Seq<char> {
    seq!['\r', '\n']
}

/// LF written as characters.
pub open spec fn lf() -> Seq<char> {
    seq!['\n']
}

/// Every CRLF also holds an LF, so there are never more CRLFs than LFs.
pub proof fn lemma_crlf_le_lf(s: Seq<char>)
    ensures
        count_matches(s, crlf()) <= count_matches(s, lf()),
    decreases s.len(),
{
    if s.len() >= 2 {
        let t = s.skip(1);
        if strings::starts_with(s, crlf()) {
            assert(s.take(2)[0] == '\r');
            assert(s[0] == '\r');
            assert(!strings::starts_with(s, lf())) by {
                assert(s.take(1)[0] == '\r');
            }
            assert(t.take(1) =~= lf()) by {
                assert(t[0] == s[1]);
                assert(s.take(2)[1] == s[1]);
            }
            assert(t.skip(1) =~= s.skip(2));
            assert(count_matches(s, crlf()) == 1 + count_matches(s.skip(2), crlf()));
            assert(count_matches(s, lf()) == count_matches(t, lf()));
            assert(count_matches(t, lf()) == 1 + count_matches(t.skip(1), lf()));
            lemma_crlf_le_lf(s.skip(2));
        } else {
            lemma_crlf_le_lf(t);
            assert(count_matches(s, crlf()) == count_matches(t, crlf()));
            if strings::starts_with(s, lf()) {
                assert(count_matches(s, lf()) == 1 + count_matches(s.skip(1), lf()));
            } else {
                assert(count_matches(s, lf()) == count_matches(s.skip(1), lf()));
            }
        }
    }
}

/// The line ending used most in `text`: `"\r\n"` when CRLF outnumbers bare LF.
pub fn dominant_eol(text: &str) -> (eol: &'static str)
    ensures
        eol@ == (if count_matches(text@, crlf()) > count_matches(text@, lf()) - count_matches(text@, crlf()) {
            crlf()
        } else {
            lf()
        }),
{
    let chars = to_chars(text);
    let crlf_chars = vec!['\r', '\n'];
    let lf_chars = vec!['\n'];
    proof {
        assert(crlf_chars@ =~= crlf());
        assert(lf_chars@ =~= lf());
        lemma_crlf_le_lf(text@);
    }
    let crlf_count = count_of(chars.as_slice(), crlf_chars.as_slice());
    let lf_count = count_of(chars.as_slice(), lf_chars.as_slice()) - crlf_count;
    proof {
        reveal_strlit("\r\n");
        reveal_strlit("\n");
    }
    if crlf_count > lf_count {
        "\r\n"
    } else {
        "\n"
    }
}

/// Rewrites every line ending in `text` to `eol`: CRLF first becomes LF,
/// then every LF becomes `eol`.
pub fn with_eol(text: &str, eol: &str) -> (out: String)
    ensures
        out@ == replace_all(replace_all(text@, crlf(), lf()), lf(), eol@),
{
    let chars = to_chars(text);
    let crlf_chars = vec!['\r', '\n'];
    let lf_chars = vec!['\n'];
    proof {
        assert(crlf_chars@ =~= crlf());
        assert(lf_chars@ =~= lf());
    }
    let unified = replace_chars(chars.as_slice(), crlf_chars.as_slice(), lf_chars.as_slice());
    let eol_chars = to_chars(eol);
    let rewritten = replace_chars(unified.as_slice(), lf_chars.as_slice(), eol_chars.as_slice());
    from_chars(rewritten.as_slice())
}

/// Line-ending facts about a text, used by warning W09.
#[derive(Debug, Clone, Copy, PartialEq, Eq)]
pub struct EolReport {
    /// Number of CRLF line endings.
    pub crlf: usize,
    /// Number of bare LF line endings.
    pub lf: usize,
    /// Whether the text starts with a UTF-8 byte order mark.
    pub has_bom: bool,
}

impl EolReport {
    /// Whether both CRLF and LF line endings appear.
    pub fn is_mixed(&self) -> (b: bool)
        ensures
            b == (self.crlf > 0 && self.lf > 0),
    {
        self.crlf > 0 && self.lf > 0
    }
}

/// Counts line endings and detects a byte order mark.
pub fn eol_report(text: &str) -> (r: EolReport)
    ensures
        r.crlf == count_matches(text@, crlf()),
        r.lf == count_matches(text@, lf()) - count_matches(text@, crlf()),
        r.has_bom == (text@.len() > 0 && text@[0] == BOM),
{
    let chars = to_chars(text);
    let crlf_chars = vec!['\r', '\n'];
    let lf_chars = vec!['\n'];
    proof {
        assert(crlf_chars@ =~= crlf());
        assert(lf_chars@ =~= lf());
        lemma_crlf_le_lf(text@);
    }
    let crlf_count = count_of(chars.as_slice(), crlf_chars.as_slice());
    let lf_count = count_of(chars.as_slice(), lf_chars.as_slice()) - crlf_count;
    EolReport { crlf: crlf_count, lf: lf_count, has_bom: chars.len() > 0 && chars[0] == BOM }
}

/// Converts a 0-based line index into the 1-based number shown to people,
/// saturating at `u32::MAX`.
pub fn line_number(index: usize) -> (n: u32)
    ensures
        n == min(index + 1, u32::MAX as int),
{
    if index < 0xffff_ffffusize {
        (index + 1) as u32
    } else {
        u32::MAX
    }
}

} // verus!
