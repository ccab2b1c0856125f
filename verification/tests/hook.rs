use svnpush_core::run::hook::{pre_build_notice, pre_build_verdict, shell_command};
use svnpush_core::tools::{Platform, ProcessError, ProcessOutput};

fn exited(code: Option<i32>) -> ProcessOutput {
    ProcessOutput { code, stdout: String::new(), stderr: String::new() }
}

#[test]
fn success_and_failure_exit_codes() {
    assert!(pre_build_verdict(Ok(exited(Some(0)))).is_ok());
    let err = pre_build_verdict(Ok(exited(Some(3)))).unwrap_err();
    assert_eq!(err.error.code, "HOOK_FAILED");
    assert!(err.error.message.contains("code 3"));
    let err = pre_build_verdict(Ok(exited(None))).unwrap_err();
    assert_eq!(err.error.message, "The pre-build command exited with a signal.");
    let err = pre_build_verdict(Ok(exited(Some(-1073741510)))).unwrap_err();
    assert_eq!(err.error.message, "The pre-build command exited with code -1073741510.");
}

#[test]
fn a_command_that_cannot_start_or_is_cancelled() {
    let err = pre_build_verdict(Err(ProcessError::Spawn { program: "/bin/sh".into(), detail: "not found".into() }))
        .unwrap_err();
    assert_eq!(err.error.code, "HOOK_NOT_RUNNABLE");
    assert_eq!(err.error.message, "The pre-build command could not start: could not start /bin/sh: not found");
    assert_eq!(err.error.fix.as_deref(), Some("Check the command in project settings."));
    assert!(pre_build_verdict(Err(ProcessError::Cancelled)).unwrap_err().cancelled);
}

#[test]
fn the_platform_shell_runs_the_command() {
    let (program, args) = shell_command(Platform::Linux, None, "npm run build");
    assert_eq!(program, "/bin/sh");
    assert_eq!(args, ["-c", "npm run build"]);
    let (program, args) = shell_command(Platform::Windows, None, "build.cmd");
    assert_eq!(program, "cmd.exe");
    assert_eq!(args, ["/D", "/S", "/C", "build.cmd"]);
    let (program, _) = shell_command(Platform::Windows, Some(r"C:\Windows\system32\cmd.exe".into()), "x");
    assert_eq!(program, r"C:\Windows\system32\cmd.exe");
    assert_eq!(pre_build_notice("make"), "Running the pre-build command: make");
}
