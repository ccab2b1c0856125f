use svnpush_core::run::files::{
    distignore_to_save, review_editable, review_reasons, saved_notice, top_level, ReviewFile, ReviewReason,
};
use svnpush_core::run::staging::{
    area_diff, build_summary, build_verdict, build_version, long_path_notice, missing_package_root, pre_build,
    verify_verdict,
};
use svnpush_core::verify::{CheckResult, CheckStatus, Severity};

fn file(path: &str) -> ReviewFile {
    ReviewFile { path: path.into(), size: 1 }
}

fn strings(items: &[&str]) -> Vec<String> {
    items.iter().map(|s| s.to_string()).collect()
}

#[test]
fn top_level_names_folders_and_top_files() {
    let files = [file("plugin.php"), file("includes/a.php"), file("includes/b/c.php"), file("assets/x.png")];
    assert_eq!(top_level(&files), ["assets/", "includes/", "plugin.php"]);
    assert!(top_level(&[]).is_empty());
}

#[test]
fn rules_are_editable_without_a_pre_build_command() {
    assert!(review_editable(None, false));
    assert!(review_editable(Some("   "), false));
    assert!(!review_editable(Some("npm run build"), false));
    assert!(review_editable(Some("npm run build"), true));
}

#[test]
fn review_reasons_follow_the_server() {
    let files = [file("plugin.php"), file("includes/a.php"), file("vendor/x.php")];
    let (reasons, items) = review_reasons(false, true, Some(Vec::<String>::new().as_slice()), &files);
    assert_eq!(reasons, [ReviewReason::NoDistignore, ReviewReason::FirstRelease]);
    assert!(items.is_empty());

    let server = strings(&["plugin.php", "includes/"]);
    let (reasons, items) = review_reasons(true, true, Some(server.as_slice()), &files);
    assert_eq!(reasons, [ReviewReason::NewItems]);
    assert_eq!(items, ["vendor/"]);

    let server = strings(&["plugin.php", "includes/", "vendor/"]);
    let (reasons, items) = review_reasons(true, true, Some(server.as_slice()), &files);
    assert!(reasons.is_empty() && items.is_empty());

    let (reasons, _) = review_reasons(false, false, None, &files);
    assert!(reasons.is_empty());
    let (reasons, _) = review_reasons(false, true, None, &files);
    assert_eq!(reasons, [ReviewReason::NoDistignore]);
}

#[test]
fn only_changed_rules_are_saved() {
    assert_eq!(distignore_to_save(true, Some("/docs\r\n.*\r\n\r\n"), None).as_deref(), Some("/docs\n.*\n"));
    assert!(distignore_to_save(true, Some("/docs\n"), Some("/docs\n")).is_none());
    assert!(distignore_to_save(false, Some("/docs\n"), None).is_none());
    assert!(distignore_to_save(true, None, None).is_none());
    assert_eq!(
        saved_notice("/work/demo"),
        "Saved .distignore in /work/demo. Commit it with your plugin so every release uses the same rules."
    );
}

fn row(id: &str, severity: Severity, status: CheckStatus) -> CheckResult {
    let mut r = CheckResult::new(id, severity, "Title");
    r.status = status;
    r
}

#[test]
fn the_verify_verdict_counts_warnings() {
    let rows = [
        row("V01", Severity::Block, CheckStatus::Pass),
        row("W01", Severity::Warn, CheckStatus::Fail),
        row("W02", Severity::Warn, CheckStatus::Fail),
        row("W03", Severity::Warn, CheckStatus::Skip),
    ];
    assert_eq!(verify_verdict(&rows).as_deref(), Some("All blocking checks passed · 2 warning(s)"));
    assert!(build_verdict(&rows).is_ok());
    let blocked = [row("V02", Severity::Block, CheckStatus::Fail)];
    assert!(verify_verdict(&blocked).is_none());
    let failure = build_verdict(&blocked).unwrap_err();
    assert_eq!(failure.error.code, "CHECKS_FAILED");
    assert_eq!(failure.error.message, "The staged package failed a blocking check.");
}

#[test]
fn build_texts() {
    assert_eq!(pre_build(Some(" npm run build ")).as_deref(), Some(" npm run build "));
    assert!(pre_build(Some("  ")).is_none());
    assert!(pre_build(None).is_none());
    let failure = missing_package_root("/work/demo/build");
    assert_eq!(failure.error.code, "PACKAGE_ROOT_MISSING");
    assert_eq!(failure.error.message, "The package root /work/demo/build does not exist.");
    assert_eq!(
        long_path_notice("a/b.php"),
        "a/b.php is longer than 260 characters; some tools reject long paths."
    );
    assert_eq!(
        build_summary(12, 3 * 1024 * 1024 / 2, "0123456789abcdef0123"),
        "12 file(s) · 1.5 MB · SHA-256 0123456789ab"
    );
}

#[test]
fn diffs_are_cut_at_the_budget_on_a_character_boundary() {
    let (d, left) = area_diff("trunk", "a.php", "+hello\n".into(), 100);
    assert_eq!(d.path, "trunk/a.php");
    assert_eq!(d.diff, "+hello\n");
    assert_eq!(left, 93);

    let (d, left) = area_diff("assets", "b.txt", "ééé".into(), 3);
    assert_eq!(d.diff, "é\n[diff cut short]\n");
    assert_eq!(left, 0);

    let (d, left) = area_diff("trunk", "c", "abc".into(), 0);
    assert_eq!(d.diff, "\n[diff cut short]\n");
    assert_eq!(left, 0);
}

#[test]
fn a_package_build_needs_a_version_header() {
    assert_eq!(build_version(Some("1.4.0".into())).unwrap(), "1.4.0");
    let f = build_version(None).unwrap_err();
    assert_eq!(f.error.code, "BUILD_NO_VERSION");
    assert_eq!(f.error.message, "The main plugin file has no Version header.");
    assert_eq!(f.error.fix.as_deref(), Some("Add \"Version: 1.0.0\" to the plugin header."));
}
