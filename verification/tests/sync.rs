use svnpush_core::sorting::{compare_text, same_text, sort_texts, sort_unique};
use svnpush_core::svn::sync::{
    empty_folders, existing_files, mime_groups, mirror_plan, settle_delta, ExistingFile, SourceFile,
};

fn strings(items: &[&str]) -> Vec<String> {
    items.iter().map(|s| s.to_string()).collect()
}

fn source(rel: &str, hash: &str) -> SourceFile {
    SourceFile { rel: rel.into(), hash: hash.into() }
}

fn existing(rel: &str, hash: &str) -> ExistingFile {
    ExistingFile { rel: rel.into(), hash: hash.into() }
}

#[test]
fn texts_compare_by_code_point() {
    assert_eq!(compare_text("a", "b"), -1);
    assert_eq!(compare_text("b", "a"), 1);
    assert_eq!(compare_text("font/woff", "font/woff2"), -1);
    assert_eq!(compare_text("Zeta", "alpha"), -1);
    assert_eq!(compare_text("é", "z"), 1);
    assert_eq!(compare_text("same", "same"), 0);
    assert!(same_text("readme.txt", "readme.txt"));
    assert!(!same_text("readme.txt", "Readme.txt"));
}

#[test]
fn sorting_matches_string_order() {
    let input = strings(&["inc/b.php", "a.php", "Inc/a.php", "inc/a.php", "a.php", "é.txt", "z.txt"]);
    let mut expected = input.clone();
    expected.sort();
    assert_eq!(sort_texts(input.clone()), expected);
    let mut unique = expected.clone();
    unique.dedup();
    assert_eq!(sort_unique(input), unique);
    assert!(sort_texts(Vec::new()).is_empty());
}

#[test]
fn mirroring_compares_by_hash() {
    let sources = [
        source("plugin.php", "h1"),
        source("inc/new.php", "h2"),
        source("readme.txt", "h3-new"),
        source("assets/icon.PNG", "h4"),
    ];
    let target = [
        existing("gone.php", "x"),
        existing("plugin.php", "h1"),
        existing("readme.txt", "h3-old"),
    ];
    let plan = mirror_plan(&sources, &target);
    assert_eq!(plan.added, ["inc/new.php", "assets/icon.PNG"]);
    assert_eq!(plan.modified, ["readme.txt"]);
    assert_eq!(plan.copies, ["inc/new.php", "readme.txt", "assets/icon.PNG"]);
    assert_eq!(plan.deleted, ["gone.php"]);
    assert!(plan.renames.is_empty());
}

#[test]
fn a_case_only_rename_is_a_delete_plus_an_add() {
    let sources = [source("foo.php", "h")];
    let target = [existing("Foo.php", "h")];
    let plan = mirror_plan(&sources, &target);
    assert_eq!(plan.added, ["foo.php"]);
    assert_eq!(plan.deleted, ["Foo.php"]);
    assert_eq!(plan.renames, [("Foo.php".to_string(), "foo.php".to_string())]);
}

#[test]
fn identical_folders_change_nothing() {
    let sources = [source("a.php", "1"), source("b/c.php", "2")];
    let target = [existing("a.php", "1"), existing("b/c.php", "2")];
    let plan = mirror_plan(&sources, &target);
    assert!(plan.added.is_empty() && plan.modified.is_empty() && plan.deleted.is_empty() && plan.copies.is_empty());
    let delta = settle_delta(plan.added, plan.modified, plan.deleted, &[]);
    assert!(delta.is_empty());
}

#[test]
fn mime_types_are_set_per_type_in_order() {
    let added = strings(&["assets/banner.png", "fonts/a.woff2", "readme.txt", "docs/guide.pdf"]);
    let modified = strings(&["assets/icon.PNG", "fonts/b.woff"]);
    let groups = mime_groups(&added, &modified);
    let keys: Vec<&str> = groups.iter().map(|g| g.0.as_str()).collect();
    assert_eq!(keys, ["application/pdf", "font/woff", "font/woff2", "image/png"]);
    assert_eq!(groups[3].1, ["assets/banner.png", "assets/icon.PNG"]);
    assert_eq!(groups[0].1, ["docs/guide.pdf"]);
    assert!(mime_groups(&strings(&["readme.txt"]), &[]).is_empty());
}

#[test]
fn the_final_delta_is_sorted_with_emptied_folders() {
    let delta = settle_delta(
        strings(&["b.php", "a.php"]),
        strings(&["z.txt", "m.txt"]),
        strings(&["old/x.php", "gone.php"]),
        &strings(&["old", "empty/deeper"]),
    );
    assert_eq!(delta.added, ["a.php", "b.php"]);
    assert_eq!(delta.modified, ["m.txt", "z.txt"]);
    assert_eq!(delta.deleted, ["empty/deeper/", "gone.php", "old/", "old/x.php"]);
}

fn walk(entries: &[(&str, bool)]) -> Vec<(String, bool)> {
    entries.iter().map(|(p, f)| ((*p).to_owned(), *f)).collect()
}

#[test]
fn existing_files_skip_svn_metadata() {
    let entries = walk(&[
        (".svn", false),
        (".svn/pristine", false),
        (".svn/wc.db", true),
        ("inc", false),
        ("inc/a.php", true),
    ]);
    assert_eq!(existing_files(&entries), ["inc/a.php"]);
    let nested = walk(&[("z.php", true), ("lib/.svn/x", true), ("a.php", true)]);
    assert_eq!(existing_files(&nested), ["a.php", "z.php"]);
}

#[test]
fn empty_folders_are_outermost_and_ignore_svn() {
    let entries = walk(&[
        ("gone", false),
        ("gone/deeper", false),
        ("kept", false),
        ("kept/a.php", true),
        (".svn", false),
    ]);
    assert_eq!(empty_folders(&entries), ["gone"]);
    let only_metadata = walk(&[("lib", false), ("lib/.svn", false), ("lib/.svn/entries", true), ("libs", false)]);
    assert_eq!(empty_folders(&only_metadata), ["lib", "libs"]);
}
