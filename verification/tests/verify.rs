use svnpush_core::plugin::{ChangelogEntry, Header, PluginFacts, Readme, ReadmeField, Section};
use svnpush_core::verify::{
    self, svn_major_minor, v15, CheckResult, CheckStatus, FileRef, Severity, VerifyInput, WorkingCopyState,
};
use svnpush_core::version::{VersionSource, VersionSourceKind};

const README: &str = "=== Demo ===\nContributors: someone\nTags: release, svn\nRequires at least: 6.0\nTested up to: 6.8\nRequires PHP: 7.4\nStable tag: 1.2.0\nLicense: GPLv2 or later\n\nShort and sweet.\n";

const MAIN: &str = "<?php\n/**\n * Plugin Name: Demo\n * Version: 1.2.0\n * Text Domain: demo\n */\nif ( ! defined( 'ABSPATH' ) ) {\n\texit;\n}\n";

fn field(name: &str, value: &str) -> ReadmeField {
    ReadmeField { name: name.into(), value: value.into() }
}

fn readme() -> Readme {
    let mut r = Readme::empty();
    r.name = Some("Demo".into());
    r.headers = vec![
        field("Contributors", "someone"),
        field("Tags", "release, svn"),
        field("Requires at least", "6.0"),
        field("Tested up to", "6.8"),
        field("Requires PHP", "7.4"),
        field("Stable tag", "1.2.0"),
        field("License", "GPLv2 or later"),
    ];
    r.short_description = "Short and sweet.".into();
    r.sections = vec![Section { title: "Screenshots".into(), body: "1. The screen.\n2. Another screen.\n".into() }];
    r.changelog = vec![
        ChangelogEntry { title: "1.2.0".into(), version: Some("1.2.0".into()), body: "* New.".into() },
        ChangelogEntry { title: "1.1.0".into(), version: Some("1.1.0".into()), body: "* Old.".into() },
    ];
    r
}

fn source(label: &str, path: &str, kind: VersionSourceKind) -> VersionSource {
    VersionSource { label: label.into(), path: path.into(), value: "1.2.0".into(), kind, line: Some(1) }
}

struct Case {
    facts: PluginFacts,
    version: String,
    previous: Option<String>,
    tags: Vec<String>,
    readme_text: Option<String>,
    main_text: String,
    files: Vec<(String, u64)>,
    zip: Option<Vec<String>>,
    required: Vec<String>,
    allow_phar: bool,
    svn: Option<String>,
    wc: WorkingCopyState,
    credentials: Option<bool>,
    dirty: Option<Vec<String>>,
    wordpress: Option<String>,
    assets: Option<Vec<String>>,
    gitignored: Vec<String>,
}

impl Case {
    fn passing() -> Self {
        Self {
            facts: PluginFacts {
                name: "Demo".into(),
                slug: "demo".into(),
                main_file: "demo.php".into(),
                header: Header {
                    name: Some("Demo".into()),
                    version: Some("1.2.0".into()),
                    text_domain: Some("demo".into()),
                    requires_at_least: Some("6.0".into()),
                    requires_php: Some("7.4".into()),
                    license: None,
                },
                readme: Some(readme()),
                versions: vec![
                    source("Plugin header", "demo.php", VersionSourceKind::Header),
                    source("Readme stable tag", "readme.txt", VersionSourceKind::StableTag),
                    source("Readme changelog", "readme.txt", VersionSourceKind::Changelog),
                ],
                folder_matches_slug: true,
                has_distignore: false,
                has_project_config: false,
            },
            version: "1.2.0".into(),
            previous: Some("1.1.0".into()),
            tags: vec!["1.0.0".into(), "1.1.0".into()],
            readme_text: Some(README.into()),
            main_text: MAIN.into(),
            files: vec![("demo.php".into(), 400), ("includes/class-demo.php".into(), 2_000), ("readme.txt".into(), 600)],
            zip: Some(vec![
                "demo/".into(),
                "demo/demo.php".into(),
                "demo/includes/".into(),
                "demo/includes/class-demo.php".into(),
                "demo/readme.txt".into(),
            ]),
            required: vec!["includes".into()],
            allow_phar: false,
            svn: Some("1.14.5 (r1922182)".into()),
            wc: WorkingCopyState::Clean,
            credentials: Some(true),
            dirty: Some(Vec::new()),
            wordpress: Some("6.8.2".into()),
            assets: Some(vec!["banner-772x250.png".into(), "screenshot-1.png".into(), "screenshot-2.jpg".into()]),
            gitignored: Vec::new(),
        }
    }

    fn results(&self) -> Vec<CheckResult> {
        let files: Vec<FileRef<'_>> = self.files.iter().map(|(rel, size)| FileRef { rel, size: *size }).collect();
        let input = VerifyInput {
            facts: &self.facts,
            version: &self.version,
            previous: self.previous.as_deref(),
            server_tags: &self.tags,
            readme_text: self.readme_text.as_deref(),
            main_file_text: &self.main_text,
            files: &files,
            zip_entries: self.zip.as_deref(),
            required_paths: &self.required,
            allow_phar: self.allow_phar,
            svn_version: self.svn.as_deref(),
            working_copy: &self.wc,
            has_credentials: self.credentials,
            git_dirty: self.dirty.as_deref(),
            current_wordpress: self.wordpress.as_deref(),
            assets: self.assets.as_deref(),
            gitignored: &self.gitignored,
        };
        verify::run(&input)
    }

    fn status(&self, id: &str) -> CheckResult {
        self.results().into_iter().find(|r| r.id == id).unwrap_or_else(|| panic!("no check {id}"))
    }

    fn readme_mut(&mut self) -> &mut Readme {
        self.facts.readme.as_mut().unwrap()
    }

    fn set_header(&mut self, name: &str, value: Option<&str>) {
        let r = self.readme_mut();
        r.headers.retain(|h| h.name != name);
        if let Some(v) = value {
            r.headers.push(field(name, v));
        }
    }
}

fn assert_fails(case: &Case, id: &str) -> CheckResult {
    let result = case.status(id);
    assert_eq!(result.status, CheckStatus::Fail, "{id}: {}", result.message);
    assert!(result.fix.is_some(), "{id} has no fix");
    result
}

#[test]
fn the_baseline_passes_every_check() {
    let results = Case::passing().results();
    assert_eq!(results.len(), 28);
    for r in &results {
        assert_eq!(r.status, CheckStatus::Pass, "{} {}: {}", r.id, r.title, r.message);
    }
    assert!(!verify::is_blocked(&results));
    assert!(verify::failed_ids(&results).is_empty());
    let ids: Vec<&str> = results.iter().map(|r| r.id.as_str()).collect();
    assert_eq!(ids[0], "V01");
    assert_eq!(ids[15], "V16");
    assert_eq!(ids[16], "V17");
    assert_eq!(ids[27], "W11");
    assert!(results[17..].iter().all(|r| r.severity == Severity::Warn));
}

#[test]
fn v01_fails_on_a_mismatched_source() {
    let mut case = Case::passing();
    case.facts.versions[1].value = "1.1.0".into();
    let r = assert_fails(&case, "V01");
    assert_eq!(r.paths, ["readme.txt"]);
    assert!(r.message.contains("Readme stable tag: 1.1.0"));
    assert!(verify::is_blocked(&case.results()));
    assert_eq!(verify::failed_ids(&case.results()), ["V01"]);
}

#[test]
fn v02_fails_on_an_invalid_version() {
    let mut case = Case::passing();
    case.version = "1.2.0.1".into();
    assert_fails(&case, "V02");
}

#[test]
fn v03_fails_when_not_newer() {
    let mut case = Case::passing();
    case.version = "1.1".into();
    case.tags = vec!["1.0.0".into()];
    let r = assert_fails(&case, "V03");
    assert!(r.fix.unwrap().contains("1.1.1"));
}

#[test]
fn v03_fails_when_the_tag_exists_even_if_written_differently() {
    let mut case = Case::passing();
    case.tags.push("1.2".into());
    let r = assert_fails(&case, "V03");
    assert_eq!(r.paths, ["tags/1.2"]);
}

#[test]
fn v03_passes_on_a_first_release() {
    let mut case = Case::passing();
    case.previous = None;
    case.tags.clear();
    assert_eq!(case.status("V03").status, CheckStatus::Pass);
    assert_eq!(case.status("V03").message, "This is the first release.");
}

#[test]
fn v04_fails_when_the_newest_entry_is_another_version() {
    let mut case = Case::passing();
    case.readme_mut().changelog.remove(0);
    assert_fails(&case, "V04");
}

#[test]
fn v05_fails_on_missing_headers() {
    let mut case = Case::passing();
    case.set_header("Tested up to", None);
    case.readme_mut().name = None;
    let r = assert_fails(&case, "V05");
    assert!(r.message.contains("Tested up to"));
    assert!(r.message.contains("=== Plugin Name ==="));
}

#[test]
fn v05_fails_without_a_readme() {
    let mut case = Case::passing();
    case.facts.readme = None;
    case.readme_text = None;
    assert_fails(&case, "V05");
}

#[test]
fn v06_fails_on_trunk() {
    let mut case = Case::passing();
    case.set_header("Stable tag", Some("trunk"));
    let r = assert_fails(&case, "V06");
    assert!(r.message.contains("trunk"));
}

#[test]
fn v07_fails_on_a_long_short_description() {
    let mut case = Case::passing();
    case.readme_mut().short_description = "word ".repeat(40).trim_end().to_owned();
    let r = assert_fails(&case, "V07");
    assert!(r.message.contains("199 characters"));
}

#[test]
fn v08_fails_on_another_text_domain() {
    let mut case = Case::passing();
    case.facts.header.text_domain = Some("demo-plugin".into());
    assert_fails(&case, "V08");
}

#[test]
fn v09_fails_without_an_abspath_guard() {
    let mut case = Case::passing();
    case.main_text = "<?php\n/* Plugin Name: Demo */\nadd_action( 'init', 'demo' );\n".into();
    assert_fails(&case, "V09");
    case.main_text = "<?php\ndefined(\"WPINC\") || die;\n".into();
    assert_eq!(case.status("V09").status, CheckStatus::Pass);
}

#[test]
fn v10_fails_on_a_missing_required_path() {
    let mut case = Case::passing();
    case.files.retain(|(rel, _)| rel != "readme.txt");
    case.required.push("assets/app.js".into());
    let r = assert_fails(&case, "V10");
    assert_eq!(r.paths, ["readme.txt", "assets/app.js"]);
}

#[test]
fn v11_fails_on_a_forbidden_path() {
    let mut case = Case::passing();
    case.files.push(("sub/.DS_Store".into(), 10));
    case.files.push(("old.tar.gz".into(), 10));
    let r = assert_fails(&case, "V11");
    assert_eq!(r.paths.len(), 2);
}

#[test]
fn v12_fails_on_executables_and_phar_unless_allowed() {
    let mut case = Case::passing();
    case.files.push(("bin/tool.phar".into(), 10));
    assert_fails(&case, "V12");
    case.allow_phar = true;
    assert_eq!(case.status("V12").status, CheckStatus::Pass);
    case.files.push(("lib/native.DLL".into(), 10));
    assert_fails(&case, "V12");
    case.files.pop();
    case.files.push((".svn/entries".into(), 10));
    assert_fails(&case, "V12");
}

#[test]
fn v13_fails_on_entries_outside_the_slug_and_skips_before_build() {
    let mut case = Case::passing();
    case.zip = Some(vec!["demo/demo.php".into(), "other\\readme.txt".into()]);
    let r = assert_fails(&case, "V13");
    assert_eq!(r.paths, ["other\\readme.txt"]);
    case.zip = None;
    assert_eq!(case.status("V13").status, CheckStatus::Skip);
}

#[test]
fn v14_fails_when_svn_is_missing_or_old() {
    let mut case = Case::passing();
    case.svn = None;
    assert_fails(&case, "V14");
    case.svn = Some("1.9.7".into());
    assert_fails(&case, "V14");
    case.svn = Some("1.10.0".into());
    assert_eq!(case.status("V14").status, CheckStatus::Pass);
    assert_eq!(svn_major_minor("1.14.5 (r1922182)"), Some((1, 14)));
    assert_eq!(svn_major_minor("  2.0"), Some((2, 0)));
    assert_eq!(svn_major_minor("abc"), None);
}

#[test]
fn v15_fails_on_conflicts_and_skips_before_checkout() {
    let mut case = Case::passing();
    case.wc = WorkingCopyState::Conflicts(vec!["trunk/demo.php".into()]);
    assert_fails(&case, "V15");
    case.wc = WorkingCopyState::OutOfDate(vec!["trunk/readme.txt".into()]);
    assert_fails(&case, "V15");
    case.wc = WorkingCopyState::NotCreated;
    assert_eq!(case.status("V15").status, CheckStatus::Skip);
    assert_eq!(v15(&WorkingCopyState::Clean).status, CheckStatus::Pass);
}

#[test]
fn v16_fails_without_credentials_and_skips_in_a_dry_run() {
    let mut case = Case::passing();
    case.credentials = Some(false);
    assert_fails(&case, "V16");
    case.credentials = None;
    assert_eq!(case.status("V16").status, CheckStatus::Skip);
}

#[test]
fn w01_warns_on_a_dirty_tree_and_skips_without_git() {
    let mut case = Case::passing();
    case.dirty = Some(vec!["demo.php".into()]);
    assert_fails(&case, "W01");
    assert!(!verify::is_blocked(&case.results()));
    case.dirty = None;
    assert_eq!(case.status("W01").status, CheckStatus::Skip);
}

#[test]
fn w02_warns_when_tested_up_to_is_old() {
    let mut case = Case::passing();
    case.wordpress = Some("6.9".into());
    let r = assert_fails(&case, "W02");
    assert_eq!(r.fix.as_deref(), Some("Test with WordPress 6.9, then set \"Tested up to: 6.9\"."));
    case.wordpress = None;
    assert_eq!(case.status("W02").status, CheckStatus::Skip);
}

#[test]
fn w03_warns_on_too_many_tags() {
    let mut case = Case::passing();
    case.set_header("Tags", Some("a, b, c, d, e, f"));
    assert_fails(&case, "W03");
}

#[test]
fn w04_warns_on_mismatched_screenshots() {
    let mut case = Case::passing();
    case.assets = Some(vec!["screenshot-1.png".into(), "screenshot-3.png".into()]);
    let r = assert_fails(&case, "W04");
    assert_eq!(r.paths, ["screenshot-2", "screenshot-3"]);
    assert_eq!(
        r.message,
        "Screenshots differ, captions without an image: screenshot-2; images without a caption: screenshot-3."
    );
}

#[test]
fn w05_warns_on_large_files() {
    let mut case = Case::passing();
    case.files.push(("assets/video.mp4".into(), 3 * 1024 * 1024));
    let r = assert_fails(&case, "W05");
    assert_eq!(r.message, "Large package: 1 file(s) are over 2 MB.");
    assert_eq!(case.status("W05").paths, ["assets/video.mp4"]);
}

#[test]
fn w06_warns_on_pre_release() {
    let mut case = Case::passing();
    case.version = "1.3.0-beta1".into();
    assert_fails(&case, "W06");
}

#[test]
fn w07_warns_when_requirements_differ() {
    let mut case = Case::passing();
    case.facts.header.requires_php = Some("8.0".into());
    let r = assert_fails(&case, "W07");
    assert_eq!(r.message, "Requires PHP is 7.4 in readme.txt and 8.0 in the header.");
}

#[test]
fn w08_warns_on_git_ignored_files() {
    let mut case = Case::passing();
    case.gitignored = vec!["build/index.js".into()];
    assert_fails(&case, "W08");
}

#[test]
fn w09_warns_on_mixed_endings_or_bom() {
    let mut case = Case::passing();
    case.readme_text = Some(README.replacen('\n', "\r\n", 3));
    let r = assert_fails(&case, "W09");
    assert_eq!(r.message, "readme.txt has mixed line endings (3 CRLF, 7 LF).");
    case.readme_text = Some(format!("\u{feff}{README}"));
    assert_fails(&case, "W09");
}

#[test]
fn w10_warns_on_a_large_vendor_folder() {
    let mut case = Case::passing();
    case.files.push(("vendor/a.php".into(), 3 * 1024 * 1024));
    case.files.push(("vendor/b.php".into(), 3 * 1024 * 1024));
    let r = assert_fails(&case, "W10");
    assert_eq!(r.message, "vendor/ is 6.0 MB.");
}

#[test]
fn package_checks_are_v10_to_v13() {
    let case = Case::passing();
    let files: Vec<FileRef<'_>> = case.files.iter().map(|(rel, size)| FileRef { rel, size: *size }).collect();
    let input = VerifyInput {
        facts: &case.facts,
        version: &case.version,
        previous: None,
        server_tags: &[],
        readme_text: None,
        main_file_text: "",
        files: &files,
        zip_entries: case.zip.as_deref(),
        required_paths: &case.required,
        allow_phar: false,
        svn_version: None,
        working_copy: &WorkingCopyState::NotCreated,
        has_credentials: Some(false),
        git_dirty: None,
        current_wordpress: None,
        assets: None,
        gitignored: &[],
    };
    let ids: Vec<String> = verify::package_checks(&input).into_iter().map(|r| r.id).collect();
    assert_eq!(ids, ["V10", "V11", "V12", "V13"]);
}

#[test]
fn readme_default_is_usable_in_checks() {
    let mut case = Case::passing();
    case.facts.readme = Some(Readme::empty());
    assert_fails(&case, "V04");
    assert_fails(&case, "V05");
}

#[test]
fn v11_fails_on_files_that_hold_secrets() {
    for secret in [".env", "config/.env.production", "certs/site.PEM", "deploy.key", "wp-config.php", "keys/id_rsa"] {
        let mut case = Case::passing();
        case.files.push((secret.into(), 10));
        let r = assert_fails(&case, "V11");
        assert_eq!(r.paths, [secret]);
    }
    let mut case = Case::passing();
    case.files.push(("includes/class-keyring.php".into(), 10));
    case.files.push(("assets/environment.js".into(), 10));
    assert_eq!(case.status("V11").status, CheckStatus::Pass);
}

#[test]
fn v17_and_w11_report_the_readme_validator() {
    let mut case = Case::passing();
    case.set_header("License", Some("Proprietary"));
    assert!(assert_fails(&case, "V17").message.contains("License field appears to be invalid"));
    let mut case = Case::passing();
    case.set_header("Stable tag", Some("trunk"));
    let w = case.status("W11");
    assert!(w.status == CheckStatus::Fail && w.message.contains("Stable tag"), "{}", w.message);
}

#[test]
fn w11_warns_without_contributors_and_v17_skips_without_a_licence() {
    let mut case = Case::passing();
    case.set_header("Contributors", None);
    assert!(assert_fails(&case, "W11").message.contains("Contributors"));
    let mut case = Case::passing();
    case.set_header("License", None);
    assert_eq!(case.status("V17").status, CheckStatus::Skip);
    let mut case = Case::passing();
    case.set_header("License", Some("MIT"));
    assert_eq!(case.status("V17").status, CheckStatus::Pass);
}

#[test]
fn blocking_rows_block_warning_rows_warn_and_failures_say_what_to_do() {
    let mut case = Case::passing();
    case.facts.readme = None;
    case.readme_text = None;
    case.svn = None;
    case.credentials = Some(false);
    case.files.push((".env".into(), 10));
    let results = case.results();
    assert_eq!(results.len(), 28);
    for (i, r) in results.iter().enumerate() {
        let expected = if i < 17 { Severity::Block } else { Severity::Warn };
        assert_eq!(r.severity, expected, "{}", r.id);
        if r.status == CheckStatus::Fail {
            assert!(r.fix.as_deref().is_some_and(|f| !f.is_empty()), "{} has no fix", r.id);
        }
    }
    assert!(results.iter().filter(|r| r.status == CheckStatus::Fail).count() >= 3);
}
