use svnpush_core::run::changes::{ChangeKind, ChangeSet, ChangeSource, ChangedFile};
use svnpush_core::run::ai_flow::{explanation_excerpts, summarised_changes};
use svnpush_core::run::material::{from_git, from_trunk, Filter, Material};

// The exclude patterns a project starts with: dependencies, minified
// bundles and lock files.
fn default_patterns() -> Vec<String> {
    vec!["vendor/".into(), "node_modules/".into(), "*.min.js".into(), "*.min.css".into(), "composer.lock".into()]
}

fn set(files: &[(&str, ChangeKind)]) -> ChangeSet {
    ChangeSet {
        source: ChangeSource::Trunk,
        base: None,
        files: files.iter().map(|(p, k)| ChangedFile { path: (*p).into(), kind: *k }).collect(),
        commits: vec![],
    }
}

fn texts(pairs: &[(&str, &str)]) -> Vec<(String, String)> {
    pairs.iter().map(|(p, t)| ((*p).to_owned(), (*t).to_owned())).collect()
}

#[test]
fn secrets_are_always_withheld_and_patterns_apply() {
    let filter = Filter::new(&default_patterns());
    for secret in [".env", "config/.env.local", "certs/site.pem", "private.key", "wp-config.php"] {
        assert!(filter.excludes(secret), "{secret}");
    }
    for excluded in ["vendor/autoload.php", "assets/app.min.js", "composer.lock", "inc/vendor/x.php"] {
        assert!(filter.excludes(excluded), "{excluded}");
    }
    for kept in ["plugin.php", "readme.txt", "assets/app.js", "inc/vendors.php"] {
        assert!(!filter.excludes(kept), "{kept}");
    }
    assert!(!Filter::new(&[]).excludes("vendor/a.php"));
}

#[test]
fn trunk_material_is_prioritised_filtered_and_budgeted() {
    let changes = set(&[
        (".env", ChangeKind::Added),
        ("old.txt", ChangeKind::Deleted),
        ("plugin.php", ChangeKind::Modified),
        ("style.css", ChangeKind::Added),
        ("vendor/lib.php", ChangeKind::Added),
    ]);
    let package = texts(&[
        ("style.css", "a {}\n"),
        ("plugin.php", "<?php\n// new\n"),
        ("vendor/lib.php", "<?php\n"),
        (".env", "SECRET=1\n"),
    ]);
    let trunk = texts(&[("plugin.php", "<?php\n"), ("old.txt", "bye\n")]);
    let filter = Filter::new(&default_patterns());
    let material = from_trunk(&changes, &filter, &trunk, &package, 8000);
    let order: Vec<&str> = material.diffs.iter().map(|(p, _)| p.as_str()).collect();
    assert_eq!(order, ["plugin.php", "style.css", "old.txt"]);
    assert!(material.diffs[0].1.contains("+// new"));
    assert_eq!(material.withheld, ["vendor/lib.php", ".env"], "priority order");
    assert!(!material.joined().contains("SECRET"));
    assert!(material.stat.starts_with("modified: plugin.php\nadded: style.css\ndeleted: old.txt"));
    assert!(material.stat.ends_with("(2 file(s) withheld from the AI by the exclude patterns)"));
    assert!(!material.needs_summaries(60000));

    let big = Material { stat: String::new(), diffs: vec![("a".into(), "x".repeat(60001))], withheld: vec![] };
    assert!(big.needs_summaries(60000));
}

#[test]
fn diffs_are_cut_to_the_file_budget_and_blank_ones_dropped() {
    let changes = set(&[("a.php", ChangeKind::Modified), ("b.php", ChangeKind::Modified)]);
    let output = "diff --git a/a.php b/a.php\n--- a/a.php\n+++ b/a.php\n@@ -1 +1 @@\n-x\n+y\n";
    let material = from_git(output, &changes, &Filter::new(&[]), &[], 10);
    assert_eq!(material.diffs, vec![("a.php".to_string(), "diff --git".to_string())]);
    assert_eq!(material.stat, "modified: a.php\nmodified: b.php");
    assert!(material.withheld.is_empty());
}

#[test]
fn new_files_git_lacks_are_diffed_against_nothing() {
    let changes = set(&[("new.php", ChangeKind::Added), ("bin.dat", ChangeKind::Added), ("a.php", ChangeKind::Modified)]);
    let output = "diff --git a/a.php b/a.php\n+z\n";
    let added = texts(&[("new.php", "<?php\necho 1;\n"), ("bin.dat", "a\0b")]);
    let material = from_git(output, &changes, &Filter::new(&[]), &added, 8000);
    let order: Vec<&str> = material.diffs.iter().map(|(p, _)| p.as_str()).collect();
    assert_eq!(order, ["a.php", "new.php"]);
    assert!(material.diffs[1].1.contains("+echo 1;"));
    assert_eq!(material.stat, "modified: a.php\nadded: new.php\nadded: bin.dat");
}

#[test]
fn an_unknown_change_set_has_no_diffs() {
    let mut changes = set(&[("a.php", ChangeKind::Modified)]);
    changes.source = ChangeSource::Unknown;
    let material = from_trunk(&changes, &Filter::new(&[]), &texts(&[("a.php", "1\n")]), &texts(&[("a.php", "2\n")]), 8000);
    assert!(material.diffs.is_empty());
    assert_eq!(material.joined(), "No text diff is available for these files.");
}

#[test]
fn a_summarised_draft_notes_the_files_past_the_limit() {
    let paths: Vec<String> = (0..27).map(|i| format!("f{i}.php")).collect();
    let summaries: Vec<String> = (0..25).map(|i| format!("change {i}")).collect();
    let text = summarised_changes(&paths, &summaries);
    let lines: Vec<&str> = text.split('\n').collect();
    assert_eq!(lines.len(), 27);
    assert_eq!(lines[0], "f0.php: change 0");
    assert_eq!(lines[24], "f24.php: change 24");
    assert_eq!(lines[25], "f25.php: not summarised (file limit reached)");
    assert_eq!(summarised_changes(&["a".into()], &["x".into()]), "a: x");
}

#[test]
fn explanation_excerpts_respect_the_exclude_patterns() {
    let filter = Filter::new(&default_patterns());
    let r = explanation_excerpts(
        &filter,
        Some("=== Demo ===".into()),
        Some("demo.php".into()),
        Some("<?php // long main file".into()),
        5,
    );
    assert_eq!(r, vec![("readme.txt".to_string(), "=== Demo ===".to_string()), ("demo.php".to_string(), "<?php".to_string())]);
    let r = explanation_excerpts(&filter, None, Some("vendor/x.php".into()), Some("x".into()), 5);
    assert!(r.is_empty());
}

#[test]
fn comments_blank_lines_and_trailing_spaces_in_patterns() {
    let patterns = vec!["# dependencies".to_string(), "".to_string(), "vendor/   ".to_string(), "[".to_string()];
    let filter = Filter::new(&patterns);
    assert!(filter.excludes("vendor/autoload.php"));
    assert!(!filter.excludes("dependencies"));
    assert!(!filter.excludes("plugin.php"));
    assert!(!Filter::new(&["# only a comment".to_string()]).excludes("vendor/a.php"));
}

#[test]
fn the_unified_diff_names_both_sides() {
    let d = svnpush_core::run::steps::unified_diff("inc/a.php", "a\nb\n", "a\nc\n");
    assert!(d.starts_with("--- a/inc/a.php\n+++ b/inc/a.php\n"), "{d}");
    assert!(d.contains("-b\n+c\n"));
}

#[test]
fn paths_the_matcher_cannot_take_stay_out_of_the_prompt() {
    let filter = Filter::new(&[]);
    for odd in ["C:/plugin/a.php", "inc\\a.php", "//server/share/a.php", "///a.php"] {
        assert!(filter.excludes(odd), "{odd}");
    }
    assert!(!filter.excludes("/inc/a.php"));
}
