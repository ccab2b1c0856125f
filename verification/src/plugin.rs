//! What the checks know about a plugin: its header, its parsed readme and
//! its version sources.

use vstd::prelude::*;

use crate::strings::{lower, lower_char, to_chars};
use crate::version::VersionSource;

verus! {

broadcast use vstd::string::group_string_axioms;

/// The readme file name at the package root.
pub const README_FILE: &'static str = "readme.txt";

/// The readme headers WordPress.org requires, besides the plugin name line.
pub open spec fn required_header_names() -> Seq<Seq<char>> {
    seq!["Contributors"@, "Tested up to"@, "Stable tag"@, "License"@]
}

/// The readme headers WordPress.org requires, besides the plugin name line.
pub fn required_headers() -> (v: Vec<&'static str>)
    ensures
        v@.map_values(|s: &str| s@) == required_header_names(),
{
    let v = vec!["Contributors", "Tested up to", "Stable tag", "License"];
    assert(v@.map_values(|s: &str| s@) =~= required_header_names());
    v
}

/// The main plugin file header.
pub struct Header {
    /// `Plugin Name:`.
    pub name: Option<String>,
    /// `Version:`.
    pub version: Option<String>,
    /// `Text Domain:`.
    pub text_domain: Option<String>,
    /// `Requires at least:`.
    pub requires_at_least: Option<String>,
    /// `Requires PHP:`.
    pub requires_php: Option<String>,
    /// `License:`.
    pub license: Option<String>,
}

/// One `Name: value` line of the readme header block.
pub struct ReadmeField {
    /// The header name as written.
    pub name: String,
    /// The value, trimmed.
    pub value: String,
}

/// One `= title =` entry of the changelog or the upgrade notice.
pub struct ChangelogEntry {
    /// The title between the `=` marks.
    pub title: String,
    /// The version the title starts with, when it starts with one.
    pub version: Option<String>,
    /// The text below the title.
    pub body: String,
}

/// One `== title ==` section.
pub struct Section {
    /// The title between the `==` marks.
    pub title: String,
    /// The text of the section.
    pub body: String,
}

/// A parsed `readme.txt`.
pub struct Readme {
    /// The `=== Plugin Name ===` line, when present.
    pub name: Option<String>,
    /// The header block, in order.
    pub headers: Vec<ReadmeField>,
    /// The short description below the headers.
    pub short_description: String,
    /// Every `== title ==` section, in order.
    pub sections: Vec<Section>,
    /// Entries under `== Changelog ==`, newest first.
    pub changelog: Vec<ChangelogEntry>,
    /// Entries under `== Upgrade Notice ==`.
    pub upgrade_notice: Vec<ChangelogEntry>,
}

/// Detected plugin facts.
pub struct PluginFacts {
    /// Plugin name.
    pub name: String,
    /// The plugin slug.
    pub slug: String,
    /// The main plugin file, relative to the package root.
    pub main_file: String,
    /// The main file's header.
    pub header: Header,
    /// The readme, when there is one.
    pub readme: Option<Readme>,
    /// Every version source.
    pub versions: Vec<VersionSource>,
    /// Whether the folder name is the slug.
    pub folder_matches_slug: bool,
    /// Whether a `.distignore` exists.
    pub has_distignore: bool,
    /// Whether the project has a configuration file.
    pub has_project_config: bool,
}

/// Whether two names are equal ignoring ASCII case (`eq_ignore_ascii_case`).
pub open spec fn same_name(a: Seq<char>, b: Seq<char>) -> bool {
    lower(a) == lower(b)
}

/// The index of the first header named `name` (ignoring ASCII case) among `fields`.
pub open spec fn field_index(fields: Seq<ReadmeField>, name: Seq<char>) -> Option<int>
    decreases fields.len(),
{
    if fields.len() == 0 {
        None
    } else if same_name(fields[0].name@, name) {
        Some(0)
    } else {
        match field_index(fields.skip(1), name) {
            Some(k) => Some(k + 1),
            None => None,
        }
    }
}

/// The value of the readme header `name`, when there is one.
pub open spec fn header_value(readme: Readme, name: Seq<char>) -> Option<Seq<char>> {
    match field_index(readme.headers@, name) {
        Some(k) => Some(readme.headers@[k].value@),
        None => None,
    }
}

/// Whether `a` and `b` are equal ignoring ASCII case.
pub fn eq_ignore_case(a: &str, b: &str) -> (r: bool)
    ensures
        r == same_name(a@, b@),
{
    let x = to_chars(a);
    let y = to_chars(b);
    if x.len() != y.len() {
        proof {
            assert(lower(a@).len() != lower(b@).len());
        }
        return false;
    }
    let mut i: usize = 0;
    while i < x.len()
        invariant
            i <= x@.len() == y@.len(),
            x@ == a@,
            y@ == b@,
            forall|j: int| 0 <= j < i ==> lower_char(#[trigger] x@[j]) == lower_char(y@[j]),
        decreases x@.len() - i,
    {
        let l = crate::strings::lower_one(x[i]);
        let r = crate::strings::lower_one(y[i]);
        if l != r {
            proof {
                assert(lower(a@)[i as int] != lower(b@)[i as int]);
            }
            return false;
        }
        i = i + 1;
    }
    proof {
        assert(lower(a@) =~= lower(b@));
    }
    true
}

impl Readme {
    /// The first header named `name`, ignoring ASCII case.
    pub fn header(&self, name: &str) -> (r: Option<&ReadmeField>)
        ensures
            r is Some <==> field_index(self.headers@, name@) is Some,
            r matches Some(f) ==> *f == self.headers@[field_index(self.headers@, name@)->0],
    {
        let mut i: usize = 0;
        while i < self.headers.len()
            invariant
                i <= self.headers@.len(),
                forall|j: int| 0 <= j < i ==> !same_name(#[trigger] self.headers@[j].name@, name@),
            decreases self.headers@.len() - i,
        {
            if eq_ignore_case(self.headers[i].name.as_str(), name) {
                proof {
                    lemma_field_index_at(self.headers@, name@, i as int);
                }
                return Some(&self.headers[i]);
            }
            i = i + 1;
        }
        proof {
            lemma_field_index_none(self.headers@, name@);
        }
        None
    }

    /// An empty readme: no name, headers, sections or entries.
    pub fn empty() -> (r: Readme)
        ensures
            r.name is None,
            r.headers@.len() == 0,
            r.short_description@.len() == 0,
            r.sections@.len() == 0,
            r.changelog@.len() == 0,
            r.upgrade_notice@.len() == 0,
    {
        Readme {
            name: None,
            headers: Vec::new(),
            short_description: String::new(),
            sections: Vec::new(),
            changelog: Vec::new(),
            upgrade_notice: Vec::new(),
        }
    }
}

proof fn lemma_field_index_at(fields: Seq<ReadmeField>, name: Seq<char>, k: int)
    requires
        0 <= k < fields.len(),
        same_name(fields[k].name@, name),
        forall|j: int| 0 <= j < k ==> !same_name(#[trigger] fields[j].name@, name),
    ensures
        field_index(fields, name) == Some(k),
    decreases k,
{
    if k > 0 {
        assert forall|j: int| 0 <= j < k - 1 implies !same_name(#[trigger] fields.skip(1)[j].name@, name) by {
            assert(fields.skip(1)[j] == fields[j + 1]);
        }
        lemma_field_index_at(fields.skip(1), name, k - 1);
    }
}

proof fn lemma_field_index_none(fields: Seq<ReadmeField>, name: Seq<char>)
    requires
        forall|j: int| 0 <= j < fields.len() ==> !same_name(#[trigger] fields[j].name@, name),
    ensures
        field_index(fields, name) is None,
    decreases fields.len(),
{
    if fields.len() > 0 {
        assert forall|j: int| 0 <= j < fields.len() - 1 implies !same_name(#[trigger] fields.skip(1)[j].name@, name) by {
            assert(fields.skip(1)[j] == fields[j + 1]);
        }
        lemma_field_index_none(fields.skip(1), name);
    }
}

} // verus!
