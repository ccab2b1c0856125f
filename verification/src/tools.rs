//! Finding `svn` and `git`, installing Subversion, and what a finished
//! process reports. The operating system is passed in as a [`Platform`].

use vstd::prelude::*;

use crate::strings::{join, lines, lines_of, to_chars, trim, trim_end, trim_end_space, trim_space};
use crate::verify::blocking::{new_enough, svn_major_minor_spec};
use crate::verify::{svn_major_minor, texts, join_texts};

verus! {

broadcast use vstd::string::group_string_axioms;

/// The operating system the tools run on.
#[derive(Debug, Clone, Copy, PartialEq, Eq, Structural)]
pub enum Platform {
    /// Windows.
    Windows,
    /// macOS.
    MacOs,
    /// Linux and other Unix systems.
    Linux,
}

/// The winget package: the Apache Subversion command-line tools (the `SlikSvn`
/// build), installed to `C:\Program Files\SlikSvn\bin`.
pub const WINGET_PACKAGE: &'static str = "Slik.Subversion";

/// Which tool.
#[derive(Debug, Clone, Copy, PartialEq, Eq, Structural)]
pub enum ToolKind {
    /// Subversion.
    Svn,
    /// Git.
    Git,
}

/// What discovery found for one tool (the Doctor report row).
pub struct ToolReport {
    /// The tool.
    pub kind: ToolKind,
    /// Absolute path, when found.
    pub path: Option<String>,
    /// Version text, when it ran.
    pub version: Option<String>,
    /// Found and new enough.
    pub ok: bool,
    /// One sentence for the Doctor row.
    pub message: String,
    /// Install instructions for this platform, when not ok.
    pub fix: Option<String>,
}

/// `name`, with `.exe` on Windows.
pub open spec fn executable_name(name: Seq<char>, platform: Platform) -> Seq<char> {
    if platform == Platform::Windows {
        name + ".exe"@
    } else {
        name
    }
}

/// The executable file name for `name` on `platform`.
pub fn executable(name: &str, platform: Platform) -> (r: String)
    ensures
        r@ == executable_name(name@, platform),
{
    let mut r = name.to_owned();
    if platform == Platform::Windows {
        r.append(".exe");
    }
    r
}

/// The places Subversion is usually installed, beyond `PATH`.
pub open spec fn svn_locations(platform: Platform) -> Seq<Seq<char>> {
    match platform {
        Platform::Windows => seq![
            "C:\\Program Files\\TortoiseSVN\\bin\\svn.exe"@,
            "C:\\Program Files\\SlikSvn\\bin\\svn.exe"@,
        ],
        Platform::MacOs => seq!["/opt/homebrew/bin/svn"@, "/usr/local/bin/svn"@],
        Platform::Linux => seq!["/usr/bin/svn"@, "/usr/local/bin/svn"@],
    }
}

/// The places Subversion is usually installed, beyond `PATH`.
pub fn known_svn_locations(platform: Platform) -> (v: Vec<String>)
    ensures
        texts(v@) == svn_locations(platform),
{
    let v = match platform {
        Platform::Windows => vec![
            "C:\\Program Files\\TortoiseSVN\\bin\\svn.exe".to_owned(),
            "C:\\Program Files\\SlikSvn\\bin\\svn.exe".to_owned(),
        ],
        Platform::MacOs => vec!["/opt/homebrew/bin/svn".to_owned(), "/usr/local/bin/svn".to_owned()],
        Platform::Linux => vec!["/usr/bin/svn".to_owned(), "/usr/local/bin/svn".to_owned()],
    };
    assert(texts(v@) =~= svn_locations(platform));
    v
}

/// The first candidate that is a file.
pub open spec fn first_file(candidates: Seq<(String, bool)>) -> Option<Seq<char>>
    decreases candidates.len(),
{
    if candidates.len() == 0 {
        None
    } else if candidates[0].1 {
        Some(candidates[0].0@)
    } else {
        first_file(candidates.skip(1))
    }
}

/// Where a tool is: the configured path when it is a file; else the first
/// match on `PATH`; else the first known location that is a file.
pub open spec fn located(
    configured: Option<(String, bool)>,
    on_path: Option<String>,
    known: Seq<(String, bool)>,
) -> Option<Seq<char>> {
    match configured {
        Some((p, true)) => Some(p@),
        _ => match on_path {
            Some(p) => Some(p@),
            None => first_file(known),
        },
    }
}

/// Finds a tool: `configured` is the path from the settings and whether it
/// is a file, `on_path` the first file of that name on `PATH`, `known` the
/// usual locations, each with whether it is a file.
pub fn locate(configured: Option<(String, bool)>, on_path: Option<String>, known: &[(String, bool)]) -> (r: Option<String>)
    ensures
        opt_view(r) == located(configured, on_path, known@),
{
    match configured {
        Some((p, true)) => return Some(p),
        _ => {},
    }
    match on_path {
        Some(p) => return Some(p),
        None => {},
    }
    let mut i: usize = 0;
    proof {
        assert(known@.skip(0) =~= known@);
    }
    let ghost want = located(configured, on_path, known@);
    assert(want == first_file(known@));
    while i < known.len()
        invariant
            i <= known@.len(),
            want == first_file(known@),
            want == located(configured, on_path, known@),
            first_file(known@) == first_file(known@.skip(i as int)),
        decreases known@.len() - i,
    {
        proof {
            assert(known@.skip(i as int)[0] == known@[i as int]);
            assert(known@.skip(i as int).skip(1) =~= known@.skip(i + 1));
        }
        if known[i].1 {
            return Some(known[i].0.clone());
        }
        i = i + 1;
    }
    None
}

proof fn lemma_first_file_is_first(known: Seq<(String, bool)>)
    ensures
        first_file(known) is Some <==> exists|k: int| 0 <= k < known.len() && (#[trigger] known[k]).1,
        first_file(known) matches Some(p) ==> exists|k: int|
            0 <= k < known.len() && (#[trigger] known[k]).1 && known[k].0@ == p && forall|j: int| 0 <= j < k ==> !known[j].1,
    decreases known.len(),
{
    if known.len() > 0 {
        let rest = known.skip(1);
        lemma_first_file_is_first(rest);
        if !known[0].1 {
            if exists|k: int| 0 <= k < known.len() && (#[trigger] known[k]).1 {
                let k = choose|k: int| 0 <= k < known.len() && (#[trigger] known[k]).1;
                assert(rest[k - 1] == known[k]);
            }
            if exists|k: int| 0 <= k < rest.len() && (#[trigger] rest[k]).1 {
                let k = choose|k: int| 0 <= k < rest.len() && (#[trigger] rest[k]).1;
                assert(known[k + 1] == rest[k]);
            }
            if first_file(known) is Some {
                let k = choose|k: int|
                    0 <= k < rest.len() && (#[trigger] rest[k]).1 && rest[k].0@ == first_file(known)->0 && forall|j: int|
                        0 <= j < k ==> !rest[j].1;
                assert(known[k + 1] == rest[k]);
                assert forall|j: int| 0 <= j < k + 1 implies !known[j].1 by {
                    if j > 0 {
                        assert(known[j] == rest[j - 1]);
                    }
                }
            }
        }
    }
}

/// A tool is found where it really is: the configured path when it is a
/// file; else the match on `PATH`; else the first usual location that is a
/// file. Nothing is found only when none of these holds a file.
pub proof fn lemma_locate_prefers_configured_then_path(
    configured: Option<(String, bool)>,
    on_path: Option<String>,
    known: Seq<(String, bool)>,
)
    ensures
        (configured matches Some((c, true))) ==> located(configured, on_path, known) == Some((configured->0).0@),
        !(configured matches Some((_, true))) && on_path is Some ==> located(configured, on_path, known) == Some(
            on_path->0@,
        ),
        !(configured matches Some((_, true))) && on_path is None ==> (located(configured, on_path, known) is Some
            <==> exists|k: int| 0 <= k < known.len() && (#[trigger] known[k]).1),
        !(configured matches Some((_, true))) && on_path is None ==> (located(configured, on_path, known) matches Some(
            p,
        ) ==> exists|k: int|
            0 <= k < known.len() && (#[trigger] known[k]).1 && known[k].0@ == p && forall|j: int|
                0 <= j < k ==> !known[j].1),
{
    lemma_first_file_is_first(known);
}

/// The places Git is usually installed, beyond `PATH`.
pub open spec fn git_locations(platform: Platform) -> Seq<Seq<char>> {
    match platform {
        Platform::Windows => seq!["C:\\Program Files\\Git\\cmd\\git.exe"@],
        Platform::MacOs => seq!["/opt/homebrew/bin/git"@, "/usr/bin/git"@],
        Platform::Linux => seq!["/usr/bin/git"@],
    }
}

/// The places Git is usually installed, beyond `PATH`.
pub fn known_git_locations(platform: Platform) -> (v: Vec<String>)
    ensures
        texts(v@) == git_locations(platform),
{
    let v = match platform {
        Platform::Windows => vec!["C:\\Program Files\\Git\\cmd\\git.exe".to_owned()],
        Platform::MacOs => vec!["/opt/homebrew/bin/git".to_owned(), "/usr/bin/git".to_owned()],
        Platform::Linux => vec!["/usr/bin/git".to_owned()],
    };
    assert(texts(v@) =~= git_locations(platform));
    v
}

/// Platform install instructions for Subversion.
pub open spec fn svn_instructions(platform: Platform) -> Seq<char> {
    match platform {
        Platform::Windows => "Install TortoiseSVN with the command-line tools, run choco install svn, or install SlikSVN."@,
        Platform::MacOs => "Run brew install subversion. Xcode no longer ships it."@,
        Platform::Linux => "Run apt install subversion, or your distribution's equivalent."@,
    }
}

/// Platform install instructions for Subversion.
pub fn svn_install_instructions(platform: Platform) -> (s: &'static str)
    ensures
        s@ == svn_instructions(platform),
{
    match platform {
        Platform::Windows => "Install TortoiseSVN with the command-line tools, run choco install svn, or install SlikSVN.",
        Platform::MacOs => "Run brew install subversion. Xcode no longer ships it.",
        Platform::Linux => "Run apt install subversion, or your distribution's equivalent.",
    }
}

/// Platform install instructions for Git.
pub open spec fn git_instructions(platform: Platform) -> Seq<char> {
    match platform {
        Platform::Windows => "Install Git for Windows from git-scm.com, or run winget install Git.Git."@,
        Platform::MacOs => "Run xcode-select --install or brew install git."@,
        Platform::Linux => "Run apt install git, or your distribution's equivalent."@,
    }
}

/// Platform install instructions for Git.
pub fn git_install_instructions(platform: Platform) -> (s: &'static str)
    ensures
        s@ == git_instructions(platform),
{
    match platform {
        Platform::Windows => "Install Git for Windows from git-scm.com, or run winget install Git.Git.",
        Platform::MacOs => "Run xcode-select --install or brew install git.",
        Platform::Linux => "Run apt install git, or your distribution's equivalent.",
    }
}

/// The Doctor row for Subversion found at `path` (as shown) that reported
/// `version` (`None` when it did not run or said nothing).
pub open spec fn svn_report_spec(path: Option<Seq<char>>, version: Option<Seq<char>>, platform: Platform) -> (bool, Seq<char>, Option<Seq<char>>) {
    match path {
        None => (false, "Subversion was not found."@, Some(svn_instructions(platform))),
        Some(shown) => {
            let found = match version {
                Some(v) => svn_major_minor_spec(v),
                None => None,
            };
            let text = match version {
                Some(v) => v,
                None => Seq::empty(),
            };
            let (ok, message) = match found {
                Some(f) => if new_enough(f) {
                    (true, "Subversion "@ + text + " at "@ + shown + "."@)
                } else {
                    (false, "Subversion "@ + text + " is older than 1.10."@)
                },
                None => (false, shown + " did not report a version."@),
            };
            (ok, message, if ok { None } else { Some(svn_instructions(platform)) })
        },
    }
}

/// What a string option holds, as text.
pub open spec fn opt_view(o: Option<String>) -> Option<Seq<char>> {
    match o {
        Some(s) => Some(s@),
        None => None,
    }
}

/// The Doctor row for Subversion: `path` is where it was found (as shown),
/// `version` the first line it printed for `--version --quiet`.
pub fn svn_report(path: Option<String>, version: Option<String>, platform: Platform) -> (r: ToolReport)
    ensures
        r.kind == ToolKind::Svn,
        opt_view(r.path) == opt_view(path),
        opt_view(r.version) == (if path is Some { opt_view(version) } else { None }),
        (r.ok, r.message@, opt_view(r.fix)) == svn_report_spec(opt_view(path), opt_view(version), platform),
{
    let install = svn_install_instructions(platform).to_owned();
    let shown = match path {
        None => {
            return ToolReport {
                kind: ToolKind::Svn,
                path: None,
                version: None,
                ok: false,
                message: "Subversion was not found.".to_owned(),
                fix: Some(install),
            };
        },
        Some(p) => p,
    };
    let found = match &version {
        Some(v) => svn_major_minor(v.as_str()),
        None => None,
    };
    let text = match &version {
        Some(v) => v.clone(),
        None => String::new(),
    };
    let (ok, message) = match found {
        Some((a, b)) => {
            if a > 1 || (a == 1 && b >= 10) {
                let mut m = "Subversion ".to_owned();
                m.append(text.as_str());
                m.append(" at ");
                m.append(shown.as_str());
                m.append(".");
                (true, m)
            } else {
                let mut m = "Subversion ".to_owned();
                m.append(text.as_str());
                m.append(" is older than 1.10.");
                (false, m)
            }
        },
        None => {
            let mut m = shown.clone();
            m.append(" did not report a version.");
            (false, m)
        },
    };
    ToolReport {
        kind: ToolKind::Svn,
        path: Some(shown),
        version,
        ok,
        message,
        fix: if ok {
            None
        } else {
            Some(install)
        },
    }
}

/// The Doctor row for Git found at `path` (as shown) that reported `version`.
pub open spec fn git_report_spec(path: Option<Seq<char>>, version: Option<Seq<char>>, platform: Platform) -> (bool, Seq<char>, Option<Seq<char>>) {
    match path {
        None => (
            false,
            "Git was not found. Changelog drafts will compare against trunk instead of your commits."@,
            Some(git_instructions(platform)),
        ),
        Some(shown) => match version {
            Some(v) => (true, v + " at "@ + shown + "."@, None),
            None => (false, shown + " did not report a version."@, Some(git_instructions(platform))),
        },
    }
}

/// The Doctor row for Git. Git is optional; a missing Git is reported but never blocks.
pub fn git_report(path: Option<String>, version: Option<String>, platform: Platform) -> (r: ToolReport)
    ensures
        r.kind == ToolKind::Git,
        opt_view(r.path) == opt_view(path),
        opt_view(r.version) == (if path is Some { opt_view(version) } else { None }),
        (r.ok, r.message@, opt_view(r.fix)) == git_report_spec(opt_view(path), opt_view(version), platform),
{
    let shown = match path {
        None => {
            return ToolReport {
                kind: ToolKind::Git,
                path: None,
                version: None,
                ok: false,
                message: "Git was not found. Changelog drafts will compare against trunk instead of your commits.".to_owned(),
                fix: Some(git_install_instructions(platform).to_owned()),
            };
        },
        Some(p) => p,
    };
    let (ok, message) = match &version {
        Some(v) => {
            let mut m = v.clone();
            m.append(" at ");
            m.append(shown.as_str());
            m.append(".");
            (true, m)
        },
        None => {
            let mut m = shown.clone();
            m.append(" did not report a version.");
            (false, m)
        },
    };
    ToolReport {
        kind: ToolKind::Git,
        path: Some(shown),
        version,
        ok,
        message,
        fix: if ok {
            None
        } else {
            Some(git_install_instructions(platform).to_owned())
        },
    }
}

/// The first line of a version command's output, trimmed; `None` when the
/// command failed.
pub open spec fn version_line_spec(success: bool, stdout: Seq<char>) -> Option<Seq<char>> {
    if !success {
        None
    } else if lines(stdout).len() == 0 {
        Some(Seq::empty())
    } else {
        Some(trim(lines(stdout)[0]))
    }
}

/// The first line of a version command's output, trimmed; `None` when the
/// command failed.
pub fn version_line(output: &ProcessOutput) -> (r: Option<String>)
    ensures
        opt_view(r) == version_line_spec(output.code == Some(0i32), output.stdout@),
{
    if !output.success() {
        return None;
    }
    let chars = to_chars(output.stdout.as_str());
    let ls = lines_of(chars.as_slice());
    if ls.len() == 0 {
        return Some(String::new());
    }
    let first = trim_space(ls[0].as_slice());
    Some(crate::strings::from_chars(first.as_slice()))
}

// ---------------------------------------------------------------------------
// Installing Subversion
// ---------------------------------------------------------------------------

/// How Subversion can be installed on this computer.
#[derive(Debug, Clone, Copy, PartialEq, Eq, Structural)]
pub enum InstallMethod {
    /// Windows Package Manager.
    Winget,
    /// Homebrew on macOS.
    Homebrew,
    /// The developer runs the command shown.
    Manual,
}

/// What the Install button will do, or what the developer should run.
pub struct InstallPlan {
    /// How.
    pub method: InstallMethod,
    /// The command, shown to the developer before anything runs.
    pub command: String,
}

/// The result of an install attempt.
pub struct InstallOutcome {
    /// Whether the package manager reported success.
    pub ok: bool,
    /// The last lines of its output, for the developer.
    pub detail: String,
}

/// The winget arguments: the exact package, from the official source.
pub open spec fn winget_arguments() -> Seq<Seq<char>> {
    seq![
        "install"@,
        "--id"@,
        WINGET_PACKAGE@,
        "--exact"@,
        "--source"@,
        "winget"@,
        "--accept-package-agreements"@,
        "--accept-source-agreements"@,
    ]
}

/// The winget arguments: the exact package, from the official source.
pub fn winget_args() -> (v: Vec<&'static str>)
    ensures
        v@.map_values(|s: &str| s@) == winget_arguments(),
{
    let v = vec![
        "install",
        "--id",
        WINGET_PACKAGE,
        "--exact",
        "--source",
        "winget",
        "--accept-package-agreements",
        "--accept-source-agreements",
    ];
    assert(v@.map_values(|s: &str| s@) =~= winget_arguments());
    v
}

/// The arguments for the package manager that installs Subversion on `platform`.
pub open spec fn installer_arguments(platform: Platform) -> Option<Seq<Seq<char>>> {
    match platform {
        Platform::Windows => Some(winget_arguments()),
        Platform::MacOs => Some(seq!["install"@, "subversion"@]),
        Platform::Linux => None,
    }
}

/// The arguments for the package manager that installs Subversion on `platform`.
pub fn installer_args(platform: Platform) -> (v: Option<Vec<&'static str>>)
    ensures
        (match v {
            Some(a) => Some(a@.map_values(|s: &str| s@)),
            None => None,
        }) == installer_arguments(platform),
{
    match platform {
        Platform::Windows => Some(winget_args()),
        Platform::MacOs => {
            let v = vec!["install", "subversion"];
            assert(v@.map_values(|s: &str| s@) =~= seq!["install"@, "subversion"@]);
            Some(v)
        },
        Platform::Linux => None,
    }
}

/// The install plan on `platform`, where `runner_found` says whether its
/// package manager (winget or Homebrew) is on this computer.
pub open spec fn install_plan_spec(platform: Platform, runner_found: bool) -> (InstallMethod, Seq<char>) {
    match platform {
        Platform::Windows => if runner_found {
            (InstallMethod::Winget, "winget "@ + join(winget_arguments(), " "@))
        } else {
            (InstallMethod::Manual, "winget install --id "@ + WINGET_PACKAGE@ + " --exact"@)
        },
        Platform::MacOs => if runner_found {
            (InstallMethod::Homebrew, "brew install subversion"@)
        } else {
            (InstallMethod::Manual, "brew install subversion"@)
        },
        Platform::Linux => (InstallMethod::Manual, "sudo apt install subversion"@),
    }
}

/// How Subversion would be installed on `platform`.
pub fn install_plan(platform: Platform, runner_found: bool) -> (p: InstallPlan)
    ensures
        (p.method, p.command@) == install_plan_spec(platform, runner_found),
{
    match platform {
        Platform::Windows => {
            if runner_found {
                let args = winget_args();
                let mut owned: Vec<String> = Vec::new();
                let mut i: usize = 0;
                while i < args.len()
                    invariant
                        i <= args@.len(),
                        texts(owned@) == args@.map_values(|s: &str| s@).take(i as int),
                    decreases args@.len() - i,
                {
                    owned.push(args[i].to_owned());
                    proof {
                        assert(args@.map_values(|s: &str| s@).take(i + 1) =~= args@.map_values(|s: &str| s@).take(
                            i as int,
                        ).push(args@[i as int]@));
                    }
                    i = i + 1;
                }
                proof {
                    assert(args@.map_values(|s: &str| s@).take(args@.len() as int) =~= args@.map_values(|s: &str| s@));
                }
                let mut command = "winget ".to_owned();
                command.append(join_texts(owned.as_slice(), " ").as_str());
                InstallPlan { method: InstallMethod::Winget, command }
            } else {
                let mut command = "winget install --id ".to_owned();
                command.append(WINGET_PACKAGE);
                command.append(" --exact");
                InstallPlan { method: InstallMethod::Manual, command }
            }
        },
        Platform::MacOs => {
            if runner_found {
                InstallPlan { method: InstallMethod::Homebrew, command: "brew install subversion".to_owned() }
            } else {
                InstallPlan { method: InstallMethod::Manual, command: "brew install subversion".to_owned() }
            }
        },
        Platform::Linux => InstallPlan { method: InstallMethod::Manual, command: "sudo apt install subversion".to_owned() },
    }
}

/// Every plan names a command, whatever the platform and whether its package
/// manager was found; on Windows the command names the winget package.
pub proof fn lemma_plan_names_a_command(platform: Platform, runner_found: bool)
    ensures
        install_plan_spec(platform, runner_found).1.len() > 0,
        platform == Platform::Windows ==> crate::strings::contains(install_plan_spec(platform, runner_found).1, WINGET_PACKAGE@),
{
    let cmd = install_plan_spec(platform, runner_found).1;
    reveal_strlit("winget ");
    reveal_strlit("winget install --id ");
    reveal_strlit("brew install subversion");
    reveal_strlit("sudo apt install subversion");
    if platform == Platform::Windows {
        if runner_found {
            let rest = join(winget_arguments(), " "@);
            assert(join(winget_arguments(), " "@) == join(winget_arguments().drop_last(), " "@) + " "@ + winget_arguments().last());
            lemma_join_contains(winget_arguments(), " "@, 2);
            let k = choose|k: int| crate::strings::matches_at(rest, WINGET_PACKAGE@, k);
            assert(crate::strings::matches_at(cmd, WINGET_PACKAGE@, k + "winget "@.len()) ) by {
                assert(cmd.subrange(k + 7, k + 7 + WINGET_PACKAGE@.len()) =~= rest.subrange(k, k + WINGET_PACKAGE@.len()));
            }
        } else {
            assert(crate::strings::matches_at(cmd, WINGET_PACKAGE@, "winget install --id "@.len() as int)) by {
                assert(cmd.subrange(20, 20 + WINGET_PACKAGE@.len() as int) =~= WINGET_PACKAGE@);
            }
        }
    }
}

/// A piece of a joined sequence occurs in the joined text.
proof fn lemma_join_contains(pieces: Seq<Seq<char>>, sep: Seq<char>, k: int)
    requires
        0 <= k < pieces.len(),
    ensures
        crate::strings::contains(join(pieces, sep), pieces[k]),
    decreases pieces.len(),
{
    let j = join(pieces, sep);
    if pieces.len() == 1 {
        assert(crate::strings::matches_at(j, pieces[k], 0)) by {
            assert(j.subrange(0, pieces[0].len() as int) =~= pieces[0]);
        }
    } else if k == pieces.len() - 1 {
        let head = join(pieces.drop_last(), sep) + sep;
        assert(crate::strings::matches_at(j, pieces[k], head.len() as int)) by {
            assert(j.subrange(head.len() as int, (head.len() + pieces[k].len()) as int) =~= pieces[k]);
        }
    } else {
        lemma_join_contains(pieces.drop_last(), sep, k);
        let inner = join(pieces.drop_last(), sep);
        let m = choose|m: int| crate::strings::matches_at(inner, pieces[k], m);
        assert(crate::strings::matches_at(j, pieces[k], m)) by {
            assert(j.subrange(m, m + pieces[k].len()) =~= inner.subrange(m, m + pieces[k].len()));
        }
    }
}

/// The non-blank lines of `text`, each without trailing whitespace.
pub open spec fn kept_lines(ls: Seq<Seq<char>>) -> Seq<Seq<char>>
    decreases ls.len(),
{
    if ls.len() == 0 {
        Seq::empty()
    } else if trim(ls.last()).len() > 0 {
        kept_lines(ls.drop_last()).push(trim_end(ls.last()))
    } else {
        kept_lines(ls.drop_last())
    }
}

/// The last `n` non-blank lines of `text`, without trailing whitespace, joined with `\n`.
pub open spec fn tail_spec(text: Seq<char>, n: nat) -> Seq<char> {
    let all = kept_lines(lines(text));
    let start = if all.len() >= n {
        all.len() - n
    } else {
        0
    };
    join(all.skip(start as int), "\n"@)
}

/// The last `n` non-blank lines of `text`, for the developer.
pub fn tail(text: &str, n: usize) -> (r: String)
    ensures
        r@ == tail_spec(text@, n as nat),
{
    let chars = to_chars(text);
    let ls = lines_of(chars.as_slice());
    let ghost lv = lines(text@);
    let mut all: Vec<String> = Vec::new();
    let mut i: usize = 0;
    while i < ls.len()
        invariant
            i <= ls@.len(),
            ls@.len() == lv.len(),
            forall|j: int| 0 <= j < ls@.len() ==> #[trigger] ls@[j]@ == lv[j],
            texts(all@) == kept_lines(lv.take(i as int)),
        decreases ls@.len() - i,
    {
        proof {
            assert(lv.take(i + 1).drop_last() =~= lv.take(i as int));
        }
        let t = trim_space(ls[i].as_slice());
        if t.len() > 0 {
            let e = trim_end_space(ls[i].as_slice());
            all.push(crate::strings::from_chars(e.as_slice()));
        }
        i = i + 1;
    }
    proof {
        assert(lv.take(ls@.len() as int) =~= lv);
    }
    let start: usize = if all.len() >= n {
        all.len() - n
    } else {
        0
    };
    let mut kept: Vec<String> = Vec::new();
    let mut k: usize = start;
    while k < all.len()
        invariant
            start <= k <= all@.len(),
            texts(kept@) == texts(all@).subrange(start as int, k as int),
        decreases all@.len() - k,
    {
        kept.push(all[k].clone());
        proof {
            assert(texts(all@).subrange(start as int, k + 1) =~= texts(all@).subrange(start as int, k as int).push(
                all@[k as int]@,
            ));
        }
        k = k + 1;
    }
    proof {
        assert(texts(all@).subrange(start as int, all@.len() as int) =~= texts(all@).skip(start as int));
    }
    join_texts(kept.as_slice(), "\n")
}

// ---------------------------------------------------------------------------
// Processes
// ---------------------------------------------------------------------------

/// A finished process.
pub struct ProcessOutput {
    /// Exit code; `None` when killed by a signal.
    pub code: Option<i32>,
    /// Standard output, lossily decoded.
    pub stdout: String,
    /// Standard error, lossily decoded.
    pub stderr: String,
}

impl ProcessOutput {
    /// Whether the process exited with code 0.
    pub fn success(&self) -> (b: bool)
        ensures
            b == (self.code == Some(0i32)),
    {
        match self.code {
            Some(c) => c == 0,
            None => false,
        }
    }
}

/// Why a process could not run to completion.
pub enum ProcessError {
    /// The executable could not be started.
    Spawn { program: String, detail: String },
    /// Reading output or writing input failed.
    Io { program: String, detail: String },
    /// The operation was cancelled and the process killed.
    Cancelled,
}

impl ProcessError {
    /// What went wrong, in one sentence.
    pub fn message(&self) -> (m: String)
        ensures
            self matches ProcessError::Spawn { program, detail } ==> m@ == "could not start "@ + program@ + ": "@ + detail@,
            self matches ProcessError::Io { program, detail } ==> m@ == program@ + " I/O failed: "@ + detail@,
            self is Cancelled ==> m@ == "cancelled"@,
    {
        match self {
            ProcessError::Spawn { program, detail } => {
                let mut m = "could not start ".to_owned();
                m.append(program.as_str());
                m.append(": ");
                m.append(detail.as_str());
                m
            },
            ProcessError::Io { program, detail } => {
                let mut m = program.clone();
                m.append(" I/O failed: ");
                m.append(detail.as_str());
                m
            },
            ProcessError::Cancelled => "cancelled".to_owned(),
        }
    }
}

/// An argument as the log shows it: in double quotes when it holds a space.
pub open spec fn quoted(arg: Seq<char>) -> Seq<char> {
    if arg.contains(' ') {
        "\""@ + arg + "\""@
    } else {
        arg
    }
}

/// An argument as the log shows it.
pub fn quote(arg: &str) -> (r: String)
    ensures
        r@ == quoted(arg@),
{
    let chars = to_chars(arg);
    match crate::strings::index_of(chars.as_slice(), ' ') {
        Some(_) => {
            let mut r = "\"".to_owned();
            r.append(arg);
            r.append("\"");
            r
        },
        None => arg.to_owned(),
    }
}

/// `s` without any trailing occurrences of `suffix` (`str::trim_end_matches`).
pub open spec fn trim_suffixes(s: Seq<char>, suffix: Seq<char>) -> Seq<char>
    decreases s.len(),
{
    if suffix.len() > 0 && crate::strings::ends_with(s, suffix) {
        trim_suffixes(s.take(s.len() - suffix.len()), suffix)
    } else {
        s
    }
}

/// The name a program is logged under: its file name without `.exe`, or
/// the whole program path when it has no file name.
pub open spec fn program_label(file_name: Option<Seq<char>>, program: Seq<char>) -> Seq<char> {
    match file_name {
        Some(n) => trim_suffixes(n, ".exe"@),
        None => program,
    }
}

/// The log line a command is shown as: its program's name, then each
/// argument as the log shows it, separated by spaces.
pub fn command_log_line(file_name: Option<&str>, program: &str, args: &[String]) -> (r: String)
    ensures
        r@ == program_label(
            match file_name {
                Some(n) => Some(n@),
                None => None,
            },
            program@,
        ) + " "@ + join(args@.map_values(|a: String| quoted(a@)), " "@),
{
    let mut label = match file_name {
        Some(n) => to_chars(n),
        None => to_chars(program),
    };
    let ghost start = label@;
    if file_name.is_some() {
        let exe = to_chars(".exe");
        proof {
            reveal_strlit(".exe");
        }
        while crate::strings::has_suffix(label.as_slice(), exe.as_slice())
            invariant
                exe@ == ".exe"@,
                exe@.len() == 4,
                trim_suffixes(label@, ".exe"@) == trim_suffixes(start, ".exe"@),
            decreases label@.len(),
        {
            let n = label.len();
            let ghost before = label@;
            label = crate::strings::slice_chars(label.as_slice(), 0, n - 4);
            proof {
                assert(label@ =~= before.take(before.len() - 4));
            }
        }
    }
    let mut shown: Vec<String> = Vec::new();
    let mut i: usize = 0;
    while i < args.len()
        invariant
            i <= args@.len(),
            texts(shown@) == args@.map_values(|a: String| quoted(a@)).take(i as int),
        decreases args@.len() - i,
    {
        let ghost before = texts(shown@);
        shown.push(quote(args[i].as_str()));
        proof {
            assert(texts(shown@) =~= before.push(quoted(args@[i as int]@)));
            assert(args@.map_values(|a: String| quoted(a@)).take(i + 1) =~= args@.map_values(|a: String| quoted(a@)).take(
                i as int,
            ).push(quoted(args@[i as int]@)));
        }
        i = i + 1;
    }
    proof {
        assert(args@.map_values(|a: String| quoted(a@)).take(args@.len() as int) =~= args@.map_values(
            |a: String| quoted(a@),
        ));
    }
    let mut r = crate::strings::from_chars(label.as_slice());
    r.append(" ");
    r.append(join_texts(shown.as_slice(), " ").as_str());
    r
}

/// `s` without trailing `\r` and `\n` characters.
pub open spec fn trim_line_end(s: Seq<char>) -> Seq<char>
    decreases s.len(),
{
    if s.len() > 0 && (s.last() == '\r' || s.last() == '\n') {
        trim_line_end(s.drop_last())
    } else {
        s
    }
}

/// One line of a process's output: the text kept (the secret, if any,
/// redacted), and what the log shows of it (the line without its line
/// end, `None` when logging is off or nothing is left).
pub fn output_line(line: &str, secret: Option<&crate::secret::Secret>, log: bool) -> (r: (String, Option<String>))
    ensures
        r.0@ == (match secret {
            Some(s) => crate::secret::redact_spec(s@, line@),
            None => line@,
        }),
        r.1 is Some <==> log && trim_line_end(r.0@).len() > 0,
        r.1 matches Some(t) ==> t@ == trim_line_end(r.0@),
{
    let kept = match secret {
        Some(s) => s.redact(line),
        None => line.to_owned(),
    };
    if !log {
        return (kept, None);
    }
    let mut text = to_chars(kept.as_str());
    while text.len() > 0 && (text[text.len() - 1] == '\r' || text[text.len() - 1] == '\n')
        invariant
            trim_line_end(text@) == trim_line_end(kept@),
        decreases text@.len(),
    {
        text.pop();
        proof {
            assert(text@ =~= text@);
        }
    }
    if text.len() == 0 {
        (kept, None)
    } else {
        let t = crate::strings::from_chars(text.as_slice());
        (kept, Some(t))
    }
}

} // verus!
