//! The project's pre-build command, run through the platform shell: which
//! shell runs it, and what its exit means for the release. Starting the
//! process and streaming its output are the app's.

use vstd::prelude::*;

use crate::strings::{decimal, decimal_string};
use crate::tools::{ProcessError, ProcessOutput, Platform};
use crate::verify::texts;

use super::RunFailure;

verus! {

broadcast use vstd::string::group_string_axioms;

/// The shell and its arguments before the command: `cmd.exe` (or
/// `ComSpec`) with `/D /S /C` on Windows, `/bin/sh -c` elsewhere.
pub open spec fn shell_spec(platform: Platform, comspec: Option<Seq<char>>) -> (Seq<char>, Seq<Seq<char>>) {
    if platform == Platform::Windows {
        (
            match comspec {
                Some(c) => c,
                None => "cmd.exe"@,
            },
            seq!["/D"@, "/S"@, "/C"@],
        )
    } else {
        ("/bin/sh"@, seq!["-c"@])
    }
}

/// The program and arguments that run `command` through the platform
/// shell; `comspec` is the `ComSpec` variable on Windows.
pub fn shell_command(platform: Platform, comspec: Option<String>, command: &str) -> (r: (String, Vec<String>))
    ensures
        r.0@ == shell_spec(platform, crate::tools::opt_view(comspec)).0,
        texts(r.1@) == shell_spec(platform, crate::tools::opt_view(comspec)).1.push(command@),
{
    let (program, mut args) = if platform == Platform::Windows {
        let program = match comspec {
            Some(c) => c,
            None => "cmd.exe".to_owned(),
        };
        (program, vec!["/D".to_owned(), "/S".to_owned(), "/C".to_owned()])
    } else {
        ("/bin/sh".to_owned(), vec!["-c".to_owned()])
    };
    args.push(command.to_owned());
    proof {
        assert(texts(args@) =~= shell_spec(platform, crate::tools::opt_view(comspec)).1.push(command@));
    }
    (program, args)
}

/// The log line before the command runs.
pub fn pre_build_notice(command: &str) -> (s: String)
    ensures
        s@ == "Running the pre-build command: "@ + command@,
{
    let mut s = "Running the pre-build command: ".to_owned();
    s.append(command);
    s
}

/// An exit code as text: `-` before a negative one.
pub open spec fn signed_text(c: i32) -> Seq<char> {
    if c < 0 {
        "-"@ + decimal((-c) as nat)
    } else {
        decimal(c as nat)
    }
}

fn signed_string(c: i32) -> (s: String)
    ensures
        s@ == signed_text(c),
{
    if c < 0 {
        let magnitude: u64 = (0i64 - (c as i64)) as u64;
        let mut s = "-".to_owned();
        s.append(decimal_string(magnitude).as_str());
        s
    } else {
        decimal_string(c as u64)
    }
}

/// How the command ended, for the failure message: `code N`, or `a signal`.
pub open spec fn exit_text(code: Option<i32>) -> Seq<char> {
    match code {
        Some(c) => "code "@ + signed_text(c),
        None => "a signal"@,
    }
}

/// What the pre-build command's run means for the release: a zero exit
/// goes on; a cancellation cancels; a command that could not start, or
/// exited otherwise, stops the release with the reason.
pub fn pre_build_verdict(run: Result<ProcessOutput, ProcessError>) -> (r: Result<(), RunFailure>)
    ensures
        match run {
            Ok(out) => if out.code == Some(0i32) {
                r is Ok
            } else {
                r matches Err(f) && !f.cancelled && f.error.code@ == "HOOK_FAILED"@ && f.error.message@
                    == "The pre-build command exited with "@ + exit_text(out.code) + "."@ && (f.error.fix matches Some(
                    x,
                ) && x@ == "Read the log, fix the build, and release again."@)
            },
            Err(ProcessError::Cancelled) => r matches Err(f) && f.cancelled,
            Err(ProcessError::Spawn { program, detail }) => r matches Err(f) && !f.cancelled && f.error.code@
                == "HOOK_NOT_RUNNABLE"@ && f.error.message@ == "The pre-build command could not start: "@
                + ("could not start "@ + program@ + ": "@ + detail@) && (f.error.fix matches Some(x) && x@
                == "Check the command in project settings."@),
            Err(ProcessError::Io { program, detail }) => r matches Err(f) && !f.cancelled && f.error.code@
                == "HOOK_NOT_RUNNABLE"@ && f.error.message@ == "The pre-build command could not start: "@ + (program@
                + " I/O failed: "@ + detail@) && (f.error.fix matches Some(x) && x@
                == "Check the command in project settings."@),
        },
{
    match run {
        Err(ProcessError::Cancelled) => Err(RunFailure::cancelled()),
        Err(e) => {
            let mut m = "The pre-build command could not start: ".to_owned();
            m.append(e.message().as_str());
            Err(RunFailure::new("HOOK_NOT_RUNNABLE", m, Some("Check the command in project settings.".to_owned())))
        },
        Ok(out) => {
            if out.success() {
                Ok(())
            } else {
                let how = match out.code {
                    Some(c) => {
                        let mut t = "code ".to_owned();
                        t.append(signed_string(c).as_str());
                        t
                    },
                    None => "a signal".to_owned(),
                };
                let mut m = "The pre-build command exited with ".to_owned();
                m.append(how.as_str());
                m.append(".");
                Err(RunFailure::new("HOOK_FAILED", m, Some("Read the log, fix the build, and release again.".to_owned())))
            }
        },
    }
}

} // verus!
