//! Step 4 after a blocking failure: suggested readme edits, checked so that
//! only `readme.txt`, and only text that occurs exactly once, is replaced.

use vstd::prelude::*;

use crate::plugin::README_FILE;
use crate::strings::{count_matches, count_of, from_chars, replace_first, replace_first_chars, to_chars};

use super::ai_view::FixView;
use super::steps::{unified_diff, unified_diff_text};

verus! {

broadcast use vstd::string::group_string_axioms;

/// One readme edit the AI suggests.
pub struct SuggestedFix {
    /// The check it fixes.
    pub check_id: String,
    /// The file to edit.
    pub path: String,
    /// Text to replace.
    pub original: String,
    /// Replacement text.
    pub replacement: String,
}

/// Why a suggested fix cannot be applied, if it cannot; and the diff it would
/// make when it can.
pub open spec fn fix_check(path: Seq<char>, original: Seq<char>, replacement: Seq<char>, readme: Option<Seq<char>>) -> (Option<Seq<char>>, Seq<char>) {
    if path != README_FILE@ {
        (Some("Only readme.txt edits can be applied. Make this change yourself."@), Seq::empty())
    } else if original.len() == 0 || original == replacement {
        (Some("The suggestion does not change anything."@), Seq::empty())
    } else {
        match readme {
            None => (Some("There is no readme.txt to edit."@), Seq::empty()),
            Some(text) => {
                let n = count_matches(text, original);
                if n == 1 {
                    (None, unified_diff_text(README_FILE@, text, replace_first(text, original, replacement)))
                } else if n == 0 {
                    (Some("The text to replace is not in readme.txt."@), Seq::empty())
                } else {
                    (Some("The text to replace appears more than once in readme.txt."@), Seq::empty())
                }
            },
        }
    }
}

/// Checks a suggested fix against the current readme.
pub fn fix_view(fix: SuggestedFix, readme: Option<&str>) -> (v: FixView)
    ensures
        v.check_id == fix.check_id,
        v.path == fix.path,
        v.original == fix.original,
        v.replacement == fix.replacement,
        (crate::tools::opt_view(v.problem), v.diff@) == fix_check(fix.path@, fix.original@, fix.replacement@, match readme {
            Some(t) => Some(t@),
            None => None,
        }),
{
    let mut diff = String::new();
    let problem: Option<&str> = if !(fix.path == README_FILE.to_owned()) {
        Some("Only readme.txt edits can be applied. Make this change yourself.")
    } else if fix.original.as_str().is_empty() || fix.original == fix.replacement {
        Some("The suggestion does not change anything.")
    } else {
        match readme {
            None => Some("There is no readme.txt to edit."),
            Some(text) => {
                let chars = to_chars(text);
                let pattern = to_chars(fix.original.as_str());
                let n = count_of(chars.as_slice(), pattern.as_slice());
                if n == 1 {
                    let after = from_chars(
                        replace_first_chars(chars.as_slice(), pattern.as_slice(), to_chars(fix.replacement.as_str()).as_slice()).as_slice(),
                    );
                    diff = unified_diff(README_FILE, text, after.as_str());
                    None
                } else if n == 0 {
                    Some("The text to replace is not in readme.txt.")
                } else {
                    Some("The text to replace appears more than once in readme.txt.")
                }
            },
        }
    };
    let problem = match problem {
        Some(p) => Some(p.to_owned()),
        None => None,
    };
    FixView {
        check_id: fix.check_id,
        path: fix.path,
        original: fix.original,
        replacement: fix.replacement,
        diff,
        problem,
    }
}

/// Only readme text that occurs exactly once is ever replaced: a fix with
/// no problem edits `readme.txt`, changes something, and its text occurs
/// once in the readme; its diff is that one replacement.
pub proof fn lemma_applicable_fix_is_unique_readme_text(
    path: Seq<char>,
    original: Seq<char>,
    replacement: Seq<char>,
    readme: Option<Seq<char>>,
)
    ensures
        fix_check(path, original, replacement, readme).0 is None ==> {
            &&& path == README_FILE@
            &&& original.len() > 0
            &&& original != replacement
            &&& readme matches Some(text) && count_matches(text, original) == 1 && fix_check(
                path,
                original,
                replacement,
                readme,
            ).1 == unified_diff_text(README_FILE@, text, replace_first(text, original, replacement))
        },
{
}

} // verus!
