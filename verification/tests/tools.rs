use svnpush_core::tools::{
    command_log_line, executable, git_report, install_plan, known_svn_locations, locate, output_line, quote, svn_install_instructions,
    svn_report, tail, version_line, winget_args, InstallMethod, Platform, ProcessError,
    ProcessOutput, WINGET_PACKAGE,
};

#[test]
fn the_plan_always_names_a_command() {
    for platform in [Platform::Windows, Platform::MacOs, Platform::Linux] {
        for found in [true, false] {
            let plan = install_plan(platform, found);
            assert!(!plan.command.is_empty());
            if platform == Platform::Windows {
                assert!(plan.command.contains(WINGET_PACKAGE));
            }
        }
    }
    assert_eq!(install_plan(Platform::Linux, false).method, InstallMethod::Manual);
    assert_eq!(install_plan(Platform::MacOs, true).method, InstallMethod::Homebrew);
    assert_eq!(install_plan(Platform::Windows, true).method, InstallMethod::Winget);
}

#[test]
fn winget_installs_the_exact_package_from_the_official_source() {
    let args = winget_args().join(" ");
    assert!(args.contains("--id Slik.Subversion --exact --source winget"));
}

#[test]
fn tail_keeps_the_last_non_empty_lines() {
    assert_eq!(tail("a\n\nb\nc\n  \nd\n", 2), "c\nd");
    assert_eq!(tail("", 3), "");
    assert_eq!(tail("x  \ny\n", 5), "x\ny");
}

#[test]
fn platforms_name_their_tools() {
    assert_eq!(executable("svn", Platform::Windows), "svn.exe");
    assert_eq!(executable("svn", Platform::Linux), "svn");
    assert_eq!(known_svn_locations(Platform::Linux), ["/usr/bin/svn", "/usr/local/bin/svn"]);
    assert!(svn_install_instructions(Platform::Windows).contains("TortoiseSVN"));
}

#[test]
fn doctor_rows_report_versions() {
    let ok = svn_report(Some("/usr/bin/svn".into()), Some("1.14.5".into()), Platform::Linux);
    assert!(ok.ok);
    assert_eq!(ok.message, "Subversion 1.14.5 at /usr/bin/svn.");
    assert!(ok.fix.is_none());
    let old = svn_report(Some("/usr/bin/svn".into()), Some("1.9.7".into()), Platform::Linux);
    assert!(!old.ok);
    assert_eq!(old.message, "Subversion 1.9.7 is older than 1.10.");
    let silent = svn_report(Some("/x/svn".into()), None, Platform::Linux);
    assert_eq!(silent.message, "/x/svn did not report a version.");
    let none = svn_report(None, None, Platform::MacOs);
    assert_eq!(none.message, "Subversion was not found.");
    let git = git_report(Some("/usr/bin/git".into()), Some("git version 2.45.0".into()), Platform::Linux);
    assert!(git.ok);
    assert_eq!(git.message, "git version 2.45.0 at /usr/bin/git.");
    let missing = git_report(None, None, Platform::Linux);
    assert!(!missing.ok);
}

#[test]
fn process_outputs() {
    let out = ProcessOutput { code: Some(0), stdout: "  1.14.5 (r1)  \nmore\n".into(), stderr: String::new() };
    assert!(out.success());
    assert_eq!(version_line(&out).as_deref(), Some("1.14.5 (r1)"));
    let failed = ProcessOutput { code: Some(1), stdout: String::new(), stderr: String::new() };
    assert!(version_line(&failed).is_none());
    let killed = ProcessOutput { code: None, stdout: String::new(), stderr: String::new() };
    assert!(!killed.success());
    let e = ProcessError::Spawn { program: "svn".into(), detail: "not found".into() };
    assert_eq!(e.message(), "could not start svn: not found");
}

#[test]
fn missing_configured_path_falls_back() {
    // The configured file does not exist and no such tool is on PATH.
    let missing = ("/definitely/not/here/svn".to_string(), false);
    let found = locate(Some(missing), None, &[]);
    assert!(found.is_none());
}

#[test]
fn configured_path_wins_when_it_exists() {
    let fake = format!("/tmp/tools/{}", executable("svn", Platform::Linux));
    let found = locate(Some((fake.clone(), true)), Some("/usr/bin/svn".into()), &[]);
    assert_eq!(found, Some(fake));
    let known = [("/usr/bin/svn".to_string(), false), ("/usr/local/bin/svn".to_string(), true)];
    assert_eq!(locate(None, None, &known).as_deref(), Some("/usr/local/bin/svn"));
    assert_eq!(locate(None, Some("/bin/svn".into()), &known).as_deref(), Some("/bin/svn"));
}

#[test]
fn output_lines_are_redacted_before_logging_and_returning() {
    let secret = svnpush_core::secret::Secret::new("s3cret-pw");
    let mut all = String::new();
    let mut logged = Vec::new();
    for line in ["Authentication with s3cret-pw failed\r\n", "second line\n"] {
        let (kept, shown) = output_line(line, Some(&secret), true);
        all.push_str(&kept);
        logged.extend(shown);
    }
    assert!(!all.contains("s3cret-pw"));
    assert_eq!(logged.len(), 2);
    assert_eq!(logged[0], "Authentication with [redacted] failed");
    assert_eq!(output_line("\r\n", None, true), ("\r\n".to_string(), None));
    assert_eq!(output_line("x\n", None, false), ("x\n".to_string(), None));
}

#[test]
fn commands_are_logged_with_quoted_arguments() {
    assert_eq!(quote("a b"), "\"a b\"");
    assert_eq!(quote("ab"), "ab");
    let args = vec!["commit".to_string(), "-m".to_string(), "Release 1.0".to_string()];
    assert_eq!(command_log_line(Some("svn.exe"), "C:/svn/svn.exe", &args), "svn commit -m \"Release 1.0\"");
    assert_eq!(command_log_line(None, "svn", &[]), "svn ");
}
