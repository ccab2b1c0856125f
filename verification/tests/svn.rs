use svnpush_core::svn::status_xml::parse_status;
use svnpush_core::svn::{
    classify, committed_revision, item, join_url, mime_type, split_diff, status_entries,
    tag_problem, unversioned, working_copy_state, Delta, RawStatus, StatusEntry, StatusItem,
    SvnError,
};
use svnpush_core::tools::Platform;
use svnpush_core::verify::WorkingCopyState;

#[test]
fn classifies_by_error_code() {
    let e = classify("commit", "svn: E170001: Authorization failed\n", "bob".into());
    assert_eq!(e.code(), "SVN_CREDENTIALS_REJECTED");
    assert!(e.fix(Platform::Linux).unwrap().contains("WordPress.org profile"));

    let e = classify("commit", "svn: E175013: Access to '/x' forbidden\n", "bob".into());
    assert_eq!(e.code(), "SVN_FORBIDDEN");
    assert!(e.fix(Platform::Linux).unwrap().contains("bob"));

    let e = classify("commit", "svn: E155011: File 'a' is out of date\n", String::new());
    assert_eq!(e.code(), "SVN_OUT_OF_DATE");

    let e = classify(
        "ls",
        "svn: E170013: Unable to connect\nsvn: E731001: No such host is known.\n",
        String::new(),
    );
    assert_eq!(e.code(), "SVN_NETWORK");

    let e = classify(
        "ls",
        "svn: warning: W160013: path not found\nsvn: E200009: Could not list\n",
        String::new(),
    );
    assert_eq!(e.code(), "SVN_NOT_FOUND");

    let e = classify("update", "svn: E155004: Working copy locked\n", String::new());
    assert_eq!(e.code(), "SVN_WORKING_COPY");

    let e = classify("x", "svn: E999999: odd\n", String::new());
    assert_eq!(e.code(), "SVN_FAILED");
}

#[test]
fn classified_errors_carry_the_error_lines() {
    let e = classify("ls", "noise\nsvn: E170013: Unable to connect\n  more noise\n", String::new());
    assert_eq!(e.message(), "could not reach the SVN server: svn: E170013: Unable to connect");
    let e = classify("cat", "  plain failure  \n", String::new());
    match &e {
        SvnError::Failed { command, detail } => {
            assert_eq!(command, "cat");
            assert_eq!(detail, "plain failure");
        }
        _ => panic!("expected a plain failure"),
    }
    assert_eq!(e.message(), "svn cat failed: plain failure");
    assert!(e.fix(Platform::Linux).is_none());
    let e = classify("commit", "403 Forbidden", "ann".into());
    assert_eq!(e.message(), "ann is not a committer for this plugin");
    let p = SvnError::Process { detail: "could not start svn".into() };
    assert_eq!(p.code(), "SVN_NOT_RUNNABLE");
    assert_eq!(p.fix(Platform::MacOs).unwrap(), "Run brew install subversion. Xcode no longer ships it.");
}

#[test]
fn reads_committed_revision() {
    let out = "Sending        trunk/a.php\nTransmitting file data .done\nCommitting transaction...\nCommitted revision 42.\n";
    assert_eq!(committed_revision(out), Some(42));
    assert_eq!(committed_revision("nothing"), None);
}

#[test]
fn joins_urls() {
    assert_eq!(join_url("https://x/p/", "/tags/1.0"), "https://x/p/tags/1.0");
    assert_eq!(join_url("https://x/p", "tags"), "https://x/p/tags");
}

#[test]
fn mime_types_for_binaries_only() {
    assert_eq!(mime_type("assets/icon-256x256.PNG"), Some("image/png"));
    assert_eq!(mime_type("fonts/a.woff2"), Some("font/woff2"));
    assert_eq!(mime_type("readme.txt"), None);
    assert_eq!(mime_type("Makefile"), None);
}

#[test]
fn splits_diff_output_per_file() {
    let output = "Index: C:\\wc\\trunk\\a.php\n===\n--- a\n+++ a\n@@ -1 +1 @@\n-x\n+y\nIndex: C:\\wc\\trunk\\img\\b.png\n===\nCannot display: file marked as a binary type.\n";
    let files = split_diff(output, r"C:\wc\trunk");
    assert_eq!(files.len(), 2);
    assert_eq!(files[0].0, "a.php");
    assert!(files[0].1.contains("+y\n"));
    assert_eq!(files[1].0, "img/b.png");
    assert!(files[1].1.contains("binary"));
}

fn raw(path: &str, item: Option<&str>, props: Option<&str>, tree: Option<&str>, repos: Option<&str>) -> RawStatus {
    RawStatus {
        path: path.into(),
        wc_item: item.map(str::to_owned),
        wc_props: props.map(str::to_owned),
        tree_conflicted: tree.map(str::to_owned),
        repos_item: repos.map(str::to_owned),
        repos_props: repos.map(|_| "none".to_owned()),
    }
}

const XML: &str = r#"<?xml version="1.0" encoding="UTF-8"?>
<status>
<target path="C:\wc\trunk">
<entry path="C:\wc\trunk\a.php">
<wc-status item="modified" props="none" revision="3"><commit revision="3"/></wc-status>
</entry>
<entry path="C:\wc\trunk\img\b.png">
<wc-status item="added" props="modified" revision="-1"></wc-status>
</entry>
<entry path="C:\wc\trunk\c.php">
<wc-status item="normal" props="modified" revision="3"></wc-status>
<repos-status item="modified" props="none"/>
</entry>
<entry path="C:\wc\trunk\d.php">
<wc-status item="conflicted" props="none" tree-conflicted="true" revision="3"></wc-status>
</entry>
<entry path="C:\wc\trunk\new.txt">
<wc-status item="unversioned" props="none"></wc-status>
</entry>
</target>
</status>"#;

#[test]
fn parses_items_props_and_remote_state() {
    let entries = parse_status(XML, r"C:\wc").unwrap();
    assert_eq!(entries.len(), 5);
    assert_eq!(entries[0].path, "trunk/a.php");
    assert_eq!(entries[0].item, StatusItem::Modified);
    assert_eq!(entries[1].path, "trunk/img/b.png");
    assert_eq!(entries[1].item, StatusItem::Added);
    assert!(!entries[1].props_only);
    assert!(entries[2].props_only);
    assert!(entries[2].out_of_date);
    assert!(entries[3].tree_conflict);
    assert_eq!(entries[3].item, StatusItem::Conflicted);
    assert_eq!(entries[4].item, StatusItem::Unversioned);
    assert_eq!(item("whatever"), StatusItem::Normal);

    assert!(matches!(working_copy_state(true, &entries), WorkingCopyState::Conflicts(ref p) if p == &["trunk/d.php"]));
    assert_eq!(unversioned(&entries), ["trunk/new.txt"]);
}

#[test]
fn bad_xml_is_a_parse_error() {
    assert!(matches!(parse_status("<status", "/wc"), Err(SvnError::Parse { .. })));
}

#[test]
fn raw_entries_read_the_same_as_their_xml() {
    let entries = status_entries(
        &[
            raw(r"C:\wc\trunk\a.php", Some("modified"), Some("none"), None, None),
            raw(r"C:\wc\trunk\c.php", Some("normal"), Some("modified"), None, Some("modified")),
        ],
        r"C:\wc",
    );
    assert_eq!(entries[0].path, "trunk/a.php");
    assert_eq!(entries[0].item, StatusItem::Modified);
    assert!(entries[1].props_only && entries[1].out_of_date);
}

#[test]
fn an_entry_without_a_path_is_skipped_and_paths_outside_the_root_stay_whole() {
    let xml = r#"<status><target path="/wc"><entry><wc-status item="added"/></entry><entry path="/elsewhere/x.php"><wc-status item="missing" props="none"/></entry></target></status>"#;
    let entries = parse_status(xml, "/wc/").unwrap();
    assert_eq!(entries.len(), 1);
    assert_eq!(entries[0].path, "/elsewhere/x.php");
    assert_eq!(entries[0].item, StatusItem::Missing);
    assert!(!entries[0].out_of_date);
}

fn entry(path: &str, item: StatusItem, out_of_date: bool) -> StatusEntry {
    StatusEntry { path: path.into(), item, props_only: false, tree_conflict: false, out_of_date }
}

#[test]
fn working_copy_state_prefers_conflicts_then_staleness() {
    assert!(matches!(working_copy_state(false, &[]), WorkingCopyState::NotCreated));
    assert!(matches!(working_copy_state(true, &[]), WorkingCopyState::Clean));
    let stale = [entry("trunk/a.php", StatusItem::Normal, true), entry("trunk/b.php", StatusItem::Normal, false)];
    assert!(matches!(working_copy_state(true, &stale), WorkingCopyState::OutOfDate(ref p) if p == &["trunk/a.php"]));
}

#[test]
fn tag_verification_problems() {
    let entries = vec!["demo.php".to_owned(), "readme.txt".to_owned()];
    assert_eq!(tag_problem(&entries, "demo.php", Some("1.2.0"), "1.2.0"), None);
    assert_eq!(tag_problem(&entries, "other.php", Some("1.2.0"), "1.2.0").as_deref(), Some("other.php is not listed in the tag yet."));
    assert_eq!(tag_problem(&entries, "demo.php", Some("1.1.0"), "1.2.0").as_deref(), Some("The tagged readme says Stable tag: 1.1.0."));
    assert_eq!(tag_problem(&entries, "demo.php", None, "1.2.0").as_deref(), Some("The tagged readme has no Stable tag."));
}

#[test]
fn empty_delta() {
    let d = Delta { added: vec![], modified: vec![], deleted: vec![] };
    assert!(d.is_empty());
    let d = Delta { added: vec![], modified: vec!["a".into()], deleted: vec![] };
    assert!(!d.is_empty());
}
