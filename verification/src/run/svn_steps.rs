//! Preview and Publish texts: sizes, delta counts, commit messages, and
//! merging repeated checks into the table.

use vstd::prelude::*;

use crate::strings::{decimal, decimal_string, from_chars, to_chars, trim_end_char, trim_end_of};
use crate::svn::Delta;
use crate::verify::warnings::{megabyte_tenths, megabytes, one_decimal, round_half_even};
use crate::verify::{texts, views, CheckResult, CheckView};

verus! {

broadcast use vstd::string::group_string_axioms;

/// `bytes` for people: `1.4 MB`, `820 KB`, `12 B`, rounded to nearest, ties to even.
pub open spec fn human_size_text(bytes: nat) -> Seq<char> {
    if bytes >= 1048576 {
        one_decimal(megabyte_tenths(bytes)) + " MB"@
    } else if bytes >= 1024 {
        decimal(round_half_even(bytes / 1024, bytes % 1024, 1024)) + " KB"@
    } else {
        decimal(bytes) + " B"@
    }
}

/// `1.4 MB`, `820 KB`, `12 B`.
pub fn human_size(bytes: u64) -> (s: String)
    ensures
        s@ == human_size_text(bytes as nat),
{
    if bytes >= 1048576 {
        megabytes(bytes)
    } else if bytes >= 1024 {
        let q = bytes / 1024;
        let r = bytes % 1024;
        let n = if 2 * r > 1024 || (2 * r == 1024 && q % 2 == 1) {
            q + 1
        } else {
            q
        };
        let mut s = decimal_string(n);
        s.append(" KB");
        s
    } else {
        let mut s = decimal_string(bytes);
        s.append(" B");
        s
    }
}

/// `+added ~modified −deleted`.
pub open spec fn delta_text(d: Delta) -> Seq<char> {
    "+"@ + decimal(d.added@.len()) + " ~"@ + decimal(d.modified@.len()) + " \u{2212}"@ + decimal(d.deleted@.len())
}

/// `+added ~modified −deleted`.
pub fn delta_counts(delta: &Delta) -> (s: String)
    ensures
        s@ == delta_text(*delta),
{
    let mut s = "+".to_owned();
    s.append(decimal_string(delta.added.len() as u64).as_str());
    s.append(" ~");
    s.append(decimal_string(delta.modified.len() as u64).as_str());
    s.append(" \u{2212}");
    s.append(decimal_string(delta.deleted.len() as u64).as_str());
    s
}

/// The tag URL for `version` under the SVN URL `url`.
pub open spec fn tag_url_text(url: Seq<char>, version: Seq<char>) -> Seq<char> {
    trim_end_char(url, '/') + "/tags/"@ + version
}

/// The default trunk and tag commit messages and the tag URL of a release.
pub fn preview_texts(url: &str, version: &str) -> (r: (String, String, String))
    ensures
        r.0@ == "Release "@ + version@,
        r.1@ == "Tag "@ + version@,
        r.2@ == tag_url_text(url@, version@),
{
    let mut trunk = "Release ".to_owned();
    trunk.append(version);
    let mut tag = "Tag ".to_owned();
    tag.append(version);
    let mut tag_url = from_chars(trim_end_of(to_chars(url).as_slice(), '/').as_slice());
    tag_url.append("/tags/");
    tag_url.append(version);
    (trunk, tag, tag_url)
}

/// The index of the first row with id `id`.
pub open spec fn row_index(rows: Seq<CheckView>, id: Seq<char>) -> Option<int>
    decreases rows.len(),
{
    if rows.len() == 0 {
        None
    } else if rows[0].id == id {
        Some(0)
    } else {
        match row_index(rows.skip(1), id) {
            Some(k) => Some(k + 1),
            None => None,
        }
    }
}

/// `table` with `row` in place of its first row of the same id, or appended.
pub open spec fn put_row(table: Seq<CheckView>, row: CheckView) -> Seq<CheckView> {
    match row_index(table, row.id) {
        Some(k) => table.update(k, row),
        None => table.push(row),
    }
}

/// `table` with every one of `rows` put in, in order.
pub open spec fn put_rows(table: Seq<CheckView>, rows: Seq<CheckView>) -> Seq<CheckView>
    decreases rows.len(),
{
    if rows.len() == 0 {
        table
    } else {
        put_row(put_rows(table, rows.drop_last()), rows.last())
    }
}

proof fn lemma_row_index_at(rows: Seq<CheckView>, id: Seq<char>, k: int)
    requires
        0 <= k < rows.len(),
        rows[k].id == id,
        forall|j: int| 0 <= j < k ==> (#[trigger] rows[j]).id != id,
    ensures
        row_index(rows, id) == Some(k),
    decreases k,
{
    if k > 0 {
        assert forall|j: int| 0 <= j < k - 1 implies (#[trigger] rows.skip(1)[j]).id != id by {
            assert(rows.skip(1)[j] == rows[j + 1]);
        }
        lemma_row_index_at(rows.skip(1), id, k - 1);
    }
}

proof fn lemma_row_index_none(rows: Seq<CheckView>, id: Seq<char>)
    requires
        forall|j: int| 0 <= j < rows.len() ==> (#[trigger] rows[j]).id != id,
    ensures
        row_index(rows, id) is None,
    decreases rows.len(),
{
    if rows.len() > 0 {
        assert forall|j: int| 0 <= j < rows.len() - 1 implies (#[trigger] rows.skip(1)[j]).id != id by {
            assert(rows.skip(1)[j] == rows[j + 1]);
        }
        lemma_row_index_none(rows.skip(1), id);
    }
}

/// Replaces rows in the check table by id, appending rows with a new id.
pub fn replace_checks(table: &mut Vec<CheckResult>, rows: Vec<CheckResult>)
    ensures
        views(final(table)@) == put_rows(views(old(table)@), views(rows@)),
{
    let mut rows = rows;
    let ghost all = views(rows@);
    let n = rows.len();
    let mut taken: usize = 0;
    while rows.len() > 0
        invariant
            taken + rows@.len() == n,
            all.len() == n,
            views(rows@) == all.skip(taken as int),
            views(table@) == put_rows(views(old(table)@), all.take(taken as int)),
        decreases rows@.len(),
    {
        let ghost before_rows = views(rows@);
        let row = rows.remove(0);
        proof {
            assert(row@ == before_rows[0]);
            assert(before_rows[0] == all[taken as int]);
            assert(views(rows@) =~= before_rows.skip(1));
            assert(before_rows.skip(1) =~= all.skip(taken + 1));
            assert(all.take(taken + 1).drop_last() =~= all.take(taken as int));
            assert(all.take(taken + 1).last() == all[taken as int]);
        }
        let ghost t = views(table@);
        let mut k: usize = 0;
        while k < table.len() && !(table[k].id == row.id)
            invariant
                k <= table@.len(),
                views(table@) == t,
                forall|j: int| 0 <= j < k ==> (#[trigger] t[j]).id != row@.id,
            decreases table@.len() - k,
        {
            k = k + 1;
        }
        if k < table.len() {
            proof {
                lemma_row_index_at(t, row@.id, k as int);
            }
            table.set(k, row);
            proof {
                assert(views(table@) =~= t.update(k as int, all[taken as int]));
            }
        } else {
            proof {
                lemma_row_index_none(t, row@.id);
            }
            table.push(row);
            proof {
                assert(views(table@) =~= t.push(all[taken as int]));
            }
        }
        taken = taken + 1;
    }
    proof {
        assert(all.take(n as int) =~= all);
    }
}

} // verus!
