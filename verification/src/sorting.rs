//! Ordering texts as `String`'s `Ord` does: by code point, left to right
//! (UTF-8 byte order is code point order).

use vstd::prelude::*;

use crate::strings::to_chars;
use crate::verify::texts;
use crate::version::precedence::{lemma_text_order, lemma_text_order_self, lemma_text_order_transitive, text_order};

verus! {

broadcast use vstd::string::group_string_axioms;

/// Whether texts are in ascending order.
pub open spec fn texts_sorted(s: Seq<String>) -> bool {
    forall|i: int, j: int| 0 <= i < j < s.len() ==> text_order(#[trigger] s[i]@, #[trigger] s[j]@) <= 0
}

/// Whether no text occurs twice.
pub open spec fn texts_distinct(s: Seq<String>) -> bool {
    forall|i: int, j: int| 0 <= i < j < s.len() ==> #[trigger] s[i]@ != #[trigger] s[j]@
}

/// Compares two texts by code point: `-1`, `0` or `1`.
pub fn compare_text(a: &str, b: &str) -> (o: i8)
    ensures
        o == text_order(a@, b@),
{
    let x = to_chars(a);
    let y = to_chars(b);
    let mut i: usize = 0;
    proof {
        assert(a@.skip(0) =~= a@);
        assert(b@.skip(0) =~= b@);
    }
    while i < x.len() && i < y.len()
        invariant
            x@ == a@,
            y@ == b@,
            i <= x@.len(),
            i <= y@.len(),
            text_order(a@, b@) == text_order(a@.skip(i as int), b@.skip(i as int)),
        decreases x@.len() - i,
    {
        proof {
            assert(a@.skip(i as int)[0] == x@[i as int]);
            assert(b@.skip(i as int)[0] == y@[i as int]);
        }
        if x[i] < y[i] {
            return -1;
        }
        if x[i] > y[i] {
            return 1;
        }
        proof {
            assert(a@.skip(i as int).skip(1) =~= a@.skip(i + 1));
            assert(b@.skip(i as int).skip(1) =~= b@.skip(i + 1));
        }
        i = i + 1;
    }
    proof {
        assert(a@.skip(i as int).len() == a@.len() - i);
        assert(b@.skip(i as int).len() == b@.len() - i);
    }
    if i < x.len() {
        1
    } else if i < y.len() {
        -1
    } else {
        0
    }
}

/// Whether two texts are equal.
pub fn same_text(a: &str, b: &str) -> (r: bool)
    ensures
        r == (a@ == b@),
{
    proof {
        lemma_text_order(a@, b@);
        lemma_text_order_self(a@);
    }
    compare_text(a, b) == 0
}

/// The texts in ascending order.
pub fn sort_texts(v: Vec<String>) -> (r: Vec<String>)
    ensures
        texts_sorted(r@),
        r@.to_multiset() == v@.to_multiset(),
        texts(r@).to_multiset() == texts(v@).to_multiset(),
{
    broadcast use vstd::seq_lib::group_to_multiset_ensures;

    let mut out: Vec<String> = Vec::new();
    let mut i: usize = 0;
    while i < v.len()
        invariant
            i <= v@.len(),
            texts_sorted(out@),
            out@.to_multiset() == v@.subrange(0, i as int).to_multiset(),
            texts(out@).to_multiset() == texts(v@.subrange(0, i as int)).to_multiset(),
        decreases v@.len() - i,
    {
        let x = v[i].clone();
        let mut p: usize = 0;
        while p < out.len()
            invariant
                p <= out@.len(),
                texts_sorted(out@),
                forall|k: int| 0 <= k < p ==> text_order(#[trigger] out@[k]@, x@) <= 0,
            ensures
                p <= out@.len(),
                forall|k: int| 0 <= k < p ==> text_order(#[trigger] out@[k]@, x@) <= 0,
                p < out@.len() ==> text_order(x@, out@[p as int]@) < 0,
            decreases out@.len() - p,
        {
            if compare_text(x.as_str(), out[p].as_str()) < 0 {
                break;
            }
            proof {
                lemma_text_order(x@, out@[p as int]@);
            }
            p = p + 1;
        }
        proof {
            if p < out@.len() {
                assert(text_order(x@, out@[p as int]@) < 0);
                assert forall|k: int| p <= k < out@.len() implies text_order(x@, #[trigger] out@[k]@) < 0 by {
                    if k > p {
                        lemma_text_order_transitive(x@, out@[p as int]@, out@[k]@);
                    }
                }
            }
        }
        let ghost before = out@;
        assert(x == v@[i as int]);
        out.insert(p, x);
        proof {
            let s = out@;
            assert(s == before.insert(p as int, x));
            vstd::seq_lib::to_multiset_insert(before, p as int, x);
            vstd::seq_lib::to_multiset_build(v@.subrange(0, i as int), v@[i as int]);
            assert(texts(s) =~= texts(before).insert(p as int, x@));
            vstd::seq_lib::to_multiset_insert(texts(before), p as int, x@);
            assert(texts(v@.subrange(0, i + 1)) =~= texts(v@.subrange(0, i as int)).push(x@));
            vstd::seq_lib::to_multiset_build(texts(v@.subrange(0, i as int)), x@);
            assert forall|a: int, b: int| 0 <= a < b < s.len() implies text_order(#[trigger] s[a]@, #[trigger] s[b]@)
                <= 0 by {
                if b < p {
                    assert(s[a] == before[a] && s[b] == before[b]);
                } else if b == p {
                    assert(s[a] == before[a]);
                } else if a == p {
                    assert(s[b] == before[b - 1]);
                } else if a < p {
                    assert(s[a] == before[a] && s[b] == before[b - 1]);
                } else {
                    assert(s[a] == before[a - 1] && s[b] == before[b - 1]);
                }
            }
            assert(v@.subrange(0, i + 1) =~= v@.subrange(0, i as int).push(v@[i as int]));
        }
        i = i + 1;
    }
    proof {
        assert(v@.subrange(0, v@.len() as int) =~= v@);
    }
    out
}

/// Whether texts are in strictly ascending order (so none occurs twice).
pub open spec fn texts_ascending(s: Seq<String>) -> bool {
    forall|i: int, j: int| 0 <= i < j < s.len() ==> text_order(#[trigger] s[i]@, #[trigger] s[j]@) < 0
}

/// Whether `x` is the text of an element of `s`.
pub open spec fn has_text(s: Seq<String>, x: Seq<char>) -> bool {
    exists|i: int| 0 <= i < s.len() && (#[trigger] s[i])@ == x
}

/// The distinct texts, in ascending order: the order of a `BTreeSet<String>`.
pub fn sort_unique(v: Vec<String>) -> (r: Vec<String>)
    ensures
        texts_ascending(r@),
        forall|x: Seq<char>| has_text(r@, x) <==> has_text(v@, x),
{
    let ghost original = v@;
    let sorted = sort_texts(v);
    proof {
        assert forall|x: Seq<char>| has_text(sorted@, x) <==> has_text(original, x) by {
            if has_text(sorted@, x) {
                let i = choose|i: int| 0 <= i < sorted@.len() && (#[trigger] sorted@[i])@ == x;
                vstd::seq_lib::to_multiset_contains(sorted@, sorted@[i]);
                vstd::seq_lib::to_multiset_contains(original, sorted@[i]);
                assert(sorted@.contains(sorted@[i]));
                let j = choose|j: int| 0 <= j < original.len() && original[j] == sorted@[i];
                assert(original[j]@ == x);
            }
            if has_text(original, x) {
                let j = choose|j: int| 0 <= j < original.len() && (#[trigger] original[j])@ == x;
                vstd::seq_lib::to_multiset_contains(sorted@, original[j]);
                vstd::seq_lib::to_multiset_contains(original, original[j]);
                assert(original.contains(original[j]));
                let i = choose|i: int| 0 <= i < sorted@.len() && sorted@[i] == original[j];
                assert(sorted@[i]@ == x);
            }
        }
    }
    let mut out: Vec<String> = Vec::new();
    let mut k: usize = 0;
    while k < sorted.len()
        invariant
            k <= sorted@.len(),
            texts_sorted(sorted@),
            texts_ascending(out@),
            k == 0 <==> out@.len() == 0,
            k > 0 ==> out@.last()@ == sorted@[k - 1]@,
            forall|x: Seq<char>| has_text(out@, x) <==> has_text(sorted@.subrange(0, k as int), x),
        decreases sorted@.len() - k,
    {
        let fresh = if out.len() == 0 {
            true
        } else {
            compare_text(out[out.len() - 1].as_str(), sorted[k].as_str()) != 0
        };
        let ghost before = out@;
        if fresh {
            proof {
                if k > 0 {
                    assert(text_order(sorted@[k - 1]@, sorted@[k as int]@) <= 0);
                    assert(text_order(before.last()@, sorted@[k as int]@) < 0);
                    assert forall|i: int| 0 <= i < before.len() implies text_order(
                        #[trigger] before[i]@,
                        sorted@[k as int]@,
                    ) < 0 by {
                        if i < before.len() - 1 {
                            lemma_text_order_transitive(before[i]@, before.last()@, sorted@[k as int]@);
                        }
                    }
                }
            }
            out.push(sorted[k].clone());
        } else {
            proof {
                lemma_text_order(out@.last()@, sorted@[k as int]@);
            }
        }
        proof {
            let sub = sorted@.subrange(0, k + 1);
            assert(sub =~= sorted@.subrange(0, k as int).push(sorted@[k as int]));
            assert forall|x: Seq<char>| has_text(out@, x) <==> has_text(sub, x) by {
                if has_text(sub, x) {
                    let i = choose|i: int| 0 <= i < sub.len() && (#[trigger] sub[i])@ == x;
                    if i < k {
                        assert(sorted@.subrange(0, k as int)[i]@ == x);
                        assert(has_text(before, x));
                        let j = choose|j: int| 0 <= j < before.len() && (#[trigger] before[j])@ == x;
                        assert(out@[j]@ == x);
                    } else {
                        assert(out@.last()@ == x);
                        assert(out@[out@.len() - 1]@ == x);
                    }
                }
                if has_text(out@, x) {
                    let j = choose|j: int| 0 <= j < out@.len() && (#[trigger] out@[j])@ == x;
                    if j < before.len() {
                        assert(before[j]@ == x);
                        assert(has_text(before, x));
                        assert(has_text(sorted@.subrange(0, k as int), x));
                        let i = choose|i: int| 0 <= i < k && (#[trigger] sorted@.subrange(0, k as int)[i])@ == x;
                        assert(sub[i]@ == x);
                    } else {
                        assert(sub[k as int]@ == x);
                    }
                }
            }
        }
        k = k + 1;
    }
    proof {
        assert(sorted@.subrange(0, sorted@.len() as int) =~= sorted@);
    }
    out
}

} // verus!
