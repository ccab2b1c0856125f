//! SemVer precedence of pre-release suffixes, as a total preorder with its laws.
//!
//! Results are `-1` (lower), `0` (equal precedence) or `1` (higher).

use vstd::prelude::*;

use crate::strings::{all_digits, split_char};

verus! {

/// Lexicographic order of two character sequences, by code point.
pub open spec fn text_order(a: Seq<char>, b: Seq<char>) -> int
    decreases a.len(),
{
    if a.len() == 0 {
        if b.len() == 0 {
            0
        } else {
            -1
        }
    } else if b.len() == 0 {
        1
    } else if a[0] < b[0] {
        -1
    } else if a[0] > b[0] {
        1
    } else {
        text_order(a.skip(1), b.skip(1))
    }
}

/// Order of two pre-release identifiers: numeric ones by length, then text
/// (numerically, as they carry no leading zeros), numeric below alphanumeric,
/// alphanumeric ones by text.
pub open spec fn identifier_order(a: Seq<char>, b: Seq<char>) -> int {
    if all_digits(a) && all_digits(b) {
        if a.len() < b.len() {
            -1
        } else if a.len() > b.len() {
            1
        } else {
            text_order(a, b)
        }
    } else if all_digits(a) {
        -1
    } else if all_digits(b) {
        1
    } else {
        text_order(a, b)
    }
}

/// Identifier lists compared left to right; a longer list wins a tie.
pub open spec fn identifiers_order(xs: Seq<Seq<char>>, ys: Seq<Seq<char>>) -> int
    decreases xs.len(),
{
    if xs.len() == 0 {
        if ys.len() == 0 {
            0
        } else {
            -1
        }
    } else if ys.len() == 0 {
        1
    } else if identifier_order(xs[0], ys[0]) != 0 {
        identifier_order(xs[0], ys[0])
    } else {
        identifiers_order(xs.skip(1), ys.skip(1))
    }
}

/// Precedence of two pre-release suffixes; no suffix ranks above any suffix.
pub open spec fn pre_order(a: Seq<char>, b: Seq<char>) -> int {
    if a.len() == 0 && b.len() == 0 {
        0
    } else if a.len() == 0 {
        1
    } else if b.len() == 0 {
        -1
    } else {
        identifiers_order(split_char(a, '.'), split_char(b, '.'))
    }
}

/// A three-way result: `-1`, `0` or `1`.
pub open spec fn is_sign(o: int) -> bool {
    o == -1 || o == 0 || o == 1
}

pub proof fn lemma_text_order(a: Seq<char>, b: Seq<char>)
    ensures
        is_sign(text_order(a, b)),
        text_order(a, b) == -text_order(b, a),
        text_order(a, b) == 0 ==> a == b,
    decreases a.len(),
{
    if a.len() > 0 && b.len() > 0 && a[0] == b[0] {
        lemma_text_order(a.skip(1), b.skip(1));
        if text_order(a, b) == 0 {
            assert(a =~= seq![a[0]] + a.skip(1));
            assert(b =~= seq![b[0]] + b.skip(1));
        }
    }
}

pub proof fn lemma_text_order_self(a: Seq<char>)
    ensures
        text_order(a, a) == 0,
    decreases a.len(),
{
    if a.len() > 0 {
        lemma_text_order_self(a.skip(1));
    }
}

pub proof fn lemma_text_order_transitive(a: Seq<char>, b: Seq<char>, c: Seq<char>)
    requires
        text_order(a, b) <= 0,
        text_order(b, c) <= 0,
    ensures
        text_order(a, c) <= 0,
        text_order(a, b) < 0 || text_order(b, c) < 0 ==> text_order(a, c) < 0,
    decreases a.len(),
{
    lemma_text_order(a, b);
    lemma_text_order(b, c);
    lemma_text_order(a, c);
    if a.len() > 0 && b.len() > 0 && c.len() > 0 && a[0] == b[0] && b[0] == c[0] {
        lemma_text_order_transitive(a.skip(1), b.skip(1), c.skip(1));
    }
}

proof fn lemma_identifier_order(a: Seq<char>, b: Seq<char>)
    ensures
        is_sign(identifier_order(a, b)),
        identifier_order(a, b) == -identifier_order(b, a),
        identifier_order(a, b) == 0 ==> a == b,
{
    lemma_text_order(a, b);
}

proof fn lemma_identifier_order_transitive(a: Seq<char>, b: Seq<char>, c: Seq<char>)
    requires
        identifier_order(a, b) <= 0,
        identifier_order(b, c) <= 0,
    ensures
        identifier_order(a, c) <= 0,
        identifier_order(a, b) < 0 || identifier_order(b, c) < 0 ==> identifier_order(a, c) < 0,
{
    lemma_identifier_order(a, b);
    lemma_identifier_order(b, c);
    lemma_identifier_order(a, c);
    if identifier_order(a, b) == 0 {
        assert(a == b);
    } else if identifier_order(b, c) == 0 {
        assert(b == c);
    } else if all_digits(a) && all_digits(b) && all_digits(c) {
        if a.len() == b.len() && b.len() == c.len() {
            lemma_text_order_transitive(a, b, c);
        }
    } else if !all_digits(a) && !all_digits(b) && !all_digits(c) {
        lemma_text_order_transitive(a, b, c);
    }
}

proof fn lemma_identifiers_order(xs: Seq<Seq<char>>, ys: Seq<Seq<char>>)
    ensures
        is_sign(identifiers_order(xs, ys)),
        identifiers_order(xs, ys) == -identifiers_order(ys, xs),
        identifiers_order(xs, ys) == 0 ==> xs == ys,
    decreases xs.len(),
{
    if xs.len() > 0 && ys.len() > 0 {
        lemma_identifier_order(xs[0], ys[0]);
        lemma_identifiers_order(xs.skip(1), ys.skip(1));
        if identifiers_order(xs, ys) == 0 {
            assert(xs =~= seq![xs[0]] + xs.skip(1));
            assert(ys =~= seq![ys[0]] + ys.skip(1));
        }
    }
}

proof fn lemma_identifiers_order_self(xs: Seq<Seq<char>>)
    ensures
        identifiers_order(xs, xs) == 0,
    decreases xs.len(),
{
    if xs.len() > 0 {
        lemma_text_order_self(xs[0]);
        lemma_identifiers_order_self(xs.skip(1));
    }
}

proof fn lemma_identifiers_order_transitive(xs: Seq<Seq<char>>, ys: Seq<Seq<char>>, zs: Seq<Seq<char>>)
    requires
        identifiers_order(xs, ys) <= 0,
        identifiers_order(ys, zs) <= 0,
    ensures
        identifiers_order(xs, zs) <= 0,
        identifiers_order(xs, ys) < 0 || identifiers_order(ys, zs) < 0 ==> identifiers_order(xs, zs) < 0,
    decreases xs.len(),
{
    lemma_identifiers_order(xs, ys);
    lemma_identifiers_order(ys, zs);
    lemma_identifiers_order(xs, zs);
    if identifiers_order(xs, ys) == 0 {
        assert(xs == ys);
    } else if identifiers_order(ys, zs) == 0 {
        assert(ys == zs);
    } else if xs.len() > 0 && ys.len() > 0 && zs.len() > 0 {
        lemma_identifier_order(xs[0], ys[0]);
        lemma_identifier_order(ys[0], zs[0]);
        lemma_identifier_order(xs[0], zs[0]);
        let o1 = identifier_order(xs[0], ys[0]);
        let o2 = identifier_order(ys[0], zs[0]);
        if o1 == 0 && o2 == 0 {
            lemma_identifiers_order_transitive(xs.skip(1), ys.skip(1), zs.skip(1));
        } else if o1 == 0 {
            assert(xs[0] == ys[0]);
        } else if o2 == 0 {
            assert(ys[0] == zs[0]);
        } else {
            lemma_identifier_order_transitive(xs[0], ys[0], zs[0]);
        }
    }
}

/// `pre_order` is a three-way comparison: antisymmetric and reflexive.
pub proof fn lemma_pre_order(a: Seq<char>, b: Seq<char>)
    ensures
        is_sign(pre_order(a, b)),
        pre_order(a, b) == -pre_order(b, a),
        pre_order(a, a) == 0,
{
    if a.len() > 0 && b.len() > 0 {
        lemma_identifiers_order(split_char(a, '.'), split_char(b, '.'));
    }
    if a.len() > 0 {
        lemma_identifiers_order_self(split_char(a, '.'));
    }
}

/// `pre_order` is transitive, strictly so when either step is strict.
pub proof fn lemma_pre_order_transitive(a: Seq<char>, b: Seq<char>, c: Seq<char>)
    requires
        pre_order(a, b) <= 0,
        pre_order(b, c) <= 0,
    ensures
        pre_order(a, c) <= 0,
        pre_order(a, b) < 0 || pre_order(b, c) < 0 ==> pre_order(a, c) < 0,
{
    lemma_pre_order(a, b);
    lemma_pre_order(b, c);
    lemma_pre_order(a, c);
    if a.len() > 0 && b.len() > 0 && c.len() > 0 {
        lemma_identifiers_order_transitive(split_char(a, '.'), split_char(b, '.'), split_char(c, '.'));
    }
}

} // verus!
