//! The SVN engine's decisions: what an `svn` failure means, what its output
//! says, and what the working copy's state is. Running `svn` is the app's.

use vstd::prelude::*;

use crate::secret::Secret;
use crate::strings::{
    contains, find, find_chars, from_chars, has_infix, has_prefix, join, last_index, last_index_of,
    lines, lines_of, lower, parse_unsigned, parse_unsigned_chars, slice_chars, split_char,
    split_on, starts_with, to_chars, to_lower, trim, trim_end, trim_end_char, trim_end_of,
    trim_space, trim_start_char, trim_start_of,
};
use crate::tools::{opt_view, svn_install_instructions, svn_instructions, Platform};
use crate::verify::{join_texts, texts, WorkingCopyState};

pub mod commands;
pub mod status_xml;
pub mod sync;

verus! {

broadcast use vstd::string::group_string_axioms;

/// Seconds `svn` waits on a silent network connection before giving up.
pub const NETWORK_TIMEOUT_SECONDS: u32 = 60;

/// How often tag verification is tried.
pub const VERIFY_ATTEMPTS: u32 = 3;

/// Seconds between tag verification attempts.
pub const VERIFY_DELAY_SECONDS: u64 = 10;

/// An SVN account's credentials. The password travels only over stdin.
pub struct Credentials {
    /// The WordPress.org username.
    pub username: String,
    /// The SVN password (the application password from the WordPress.org profile).
    pub password: Secret,
}

/// What a sync would add, change and delete.
pub struct Delta {
    /// New paths, relative to the synced folder.
    pub added: Vec<String>,
    /// Changed files.
    pub modified: Vec<String>,
    /// Removed paths; folders end with `/`.
    pub deleted: Vec<String>,
}

impl Delta {
    /// Whether nothing changes.
    pub fn is_empty(&self) -> (b: bool)
        ensures
            b == (self.added@.len() == 0 && self.modified@.len() == 0 && self.deleted@.len() == 0),
    {
        self.added.len() == 0 && self.modified.len() == 0 && self.deleted.len() == 0
    }
}

/// An SVN failure.
#[derive(Debug)]
pub enum SvnError {
    /// The server rejected the username or password (401).
    CredentialsRejected { username: String },
    /// The account may not commit to this plugin (403).
    Forbidden { username: String },
    /// The server could not be reached.
    Network { detail: String },
    /// Something changed on the server since the last update.
    OutOfDate { detail: String },
    /// The working copy is locked or conflicted.
    WorkingCopy { detail: String },
    /// A URL does not exist on the server.
    NotFound { detail: String },
    /// `tags/<version>` already exists.
    TagExists { version: String },
    /// Any other failed `svn` invocation.
    Failed { command: String, detail: String },
    /// The operation was cancelled.
    Cancelled,
    /// `svn` could not be run.
    Process { detail: String },
    /// A local filesystem operation failed.
    Io { action: String, path: String, detail: String },
    /// Output could not be understood.
    Parse { detail: String },
}

/// The error codes of each class, in the order they are tried.
pub open spec fn credential_codes() -> Seq<Seq<char>> {
    seq!["E170001"@, "E215004"@]
}

/// Codes meaning the account may not commit.
pub open spec fn forbidden_codes() -> Seq<Seq<char>> {
    seq!["E175013"@, "E220004"@, "E170011"@, "403 Forbidden"@]
}

/// Codes meaning the working copy is behind the server.
pub open spec fn out_of_date_codes() -> Seq<Seq<char>> {
    seq!["E155011"@, "E160028"@, "E160024"@, "E170004"@, "E155035"@]
}

/// Codes meaning the working copy needs attention.
pub open spec fn working_copy_codes() -> Seq<Seq<char>> {
    seq!["E155004"@, "E155037"@, "E155015"@, "E155007"@, "E155016"@]
}

/// Codes meaning a URL does not exist.
pub open spec fn not_found_codes() -> Seq<Seq<char>> {
    seq!["E160013"@, "E170000"@, "E200009"@, "E180001"@]
}

/// Codes meaning the server could not be reached.
pub open spec fn network_codes() -> Seq<Seq<char>> {
    seq!["E170013"@, "E175002"@, "E670002"@, "E670008"@, "E731001"@, "E730"@, "E120"@, "E175012"@]
}

/// Whether `text` contains one of `codes`.
pub open spec fn mentions_any(text: Seq<char>, codes: Seq<Seq<char>>) -> bool {
    exists|k: int| 0 <= k < codes.len() && contains(text, #[trigger] codes[k])
}

/// Which error `stderr` is: 0 credentials, 1 forbidden, 2 out of date,
/// 3 working copy, 4 not found, 5 network, 6 any other failure.
pub open spec fn classification(stderr: Seq<char>) -> int {
    if mentions_any(stderr, credential_codes()) {
        0
    } else if mentions_any(stderr, forbidden_codes()) {
        1
    } else if mentions_any(stderr, out_of_date_codes()) {
        2
    } else if mentions_any(stderr, working_copy_codes()) {
        3
    } else if mentions_any(stderr, not_found_codes()) {
        4
    } else if mentions_any(stderr, network_codes()) {
        5
    } else {
        6
    }
}

/// The error lines of `stderr` (those with `: E` or starting `svn:`), trimmed.
pub open spec fn error_lines(ls: Seq<Seq<char>>) -> Seq<Seq<char>>
    decreases ls.len(),
{
    if ls.len() == 0 {
        Seq::empty()
    } else if contains(ls.last(), ": E"@) || starts_with(ls.last(), "svn:"@) {
        error_lines(ls.drop_last()).push(trim(ls.last()))
    } else {
        error_lines(ls.drop_last())
    }
}

/// The detail an error carries: its error lines joined with spaces, or all of
/// `stderr` trimmed when it has none.
pub open spec fn detail_of(stderr: Seq<char>) -> Seq<char> {
    let d = join(error_lines(lines(stderr)), " "@);
    if d.len() == 0 {
        trim(stderr)
    } else {
        d
    }
}

/// The class index of an error, matching [`classification`] for the classes it names.
pub open spec fn kind_of(e: SvnError) -> int {
    match e {
        SvnError::CredentialsRejected { .. } => 0,
        SvnError::Forbidden { .. } => 1,
        SvnError::OutOfDate { .. } => 2,
        SvnError::WorkingCopy { .. } => 3,
        SvnError::NotFound { .. } => 4,
        SvnError::Network { .. } => 5,
        SvnError::Failed { .. } => 6,
        _ => 7,
    }
}

/// The detail text an error carries, when it carries one.
pub open spec fn detail_text(e: SvnError) -> Option<Seq<char>> {
    match e {
        SvnError::OutOfDate { detail } => Some(detail@),
        SvnError::WorkingCopy { detail } => Some(detail@),
        SvnError::NotFound { detail } => Some(detail@),
        SvnError::Network { detail } => Some(detail@),
        SvnError::Failed { detail, .. } => Some(detail@),
        _ => None,
    }
}

fn mentions(text: &[char], codes: &[&str]) -> (b: bool)
    requires
        forall|k: int| 0 <= k < codes@.len() ==> (#[trigger] codes@[k])@.len() > 0,
    ensures
        b == mentions_any(text@, codes@.map_values(|c: &str| c@)),
{
    let ghost cs = codes@.map_values(|c: &str| c@);
    let mut k: usize = 0;
    while k < codes.len()
        invariant
            k <= codes@.len(),
            cs == codes@.map_values(|c: &str| c@),
            forall|j: int| 0 <= j < codes@.len() ==> (#[trigger] codes@[j])@.len() > 0,
            forall|j: int| 0 <= j < k ==> !contains(text@, #[trigger] cs[j]),
        decreases codes@.len() - k,
    {
        let c = to_chars(codes[k]);
        proof {
            assert(cs[k as int] == codes@[k as int]@);
        }
        if has_infix(text, c.as_slice()) {
            return true;
        }
        k = k + 1;
    }
    false
}

// ---------------------------------------------------------------------------
// Laws
// ---------------------------------------------------------------------------

/// Whether `stderr` carries one of the codes for rejected credentials.
pub open spec fn says_credentials_rejected(stderr: Seq<char>) -> bool {
    contains(stderr, "E170001"@) || contains(stderr, "E215004"@)
}

/// Whether `stderr` carries one of the codes for a forbidden commit.
pub open spec fn says_forbidden(stderr: Seq<char>) -> bool {
    contains(stderr, "E175013"@) || contains(stderr, "E220004"@) || contains(stderr, "E170011"@) || contains(
        stderr,
        "403 Forbidden"@,
    )
}

/// Whether `stderr` carries one of the codes for an out-of-date working copy.
pub open spec fn says_out_of_date(stderr: Seq<char>) -> bool {
    contains(stderr, "E155011"@) || contains(stderr, "E160028"@) || contains(stderr, "E160024"@) || contains(
        stderr,
        "E170004"@,
    ) || contains(stderr, "E155035"@)
}

/// Whether `stderr` carries one of the codes for a working copy that needs attention.
pub open spec fn says_working_copy(stderr: Seq<char>) -> bool {
    contains(stderr, "E155004"@) || contains(stderr, "E155037"@) || contains(stderr, "E155015"@) || contains(
        stderr,
        "E155007"@,
    ) || contains(stderr, "E155016"@)
}

/// Whether `stderr` carries one of the codes for a missing URL.
pub open spec fn says_not_found(stderr: Seq<char>) -> bool {
    contains(stderr, "E160013"@) || contains(stderr, "E170000"@) || contains(stderr, "E200009"@) || contains(
        stderr,
        "E180001"@,
    )
}

/// Whether `stderr` carries one of the codes for an unreachable server.
pub open spec fn says_network(stderr: Seq<char>) -> bool {
    contains(stderr, "E170013"@) || contains(stderr, "E175002"@) || contains(stderr, "E670002"@) || contains(
        stderr,
        "E670008"@,
    ) || contains(stderr, "E731001"@) || contains(stderr, "E730"@) || contains(stderr, "E120"@) || contains(
        stderr,
        "E175012"@,
    )
}

/// `svn` failures are told apart by their error codes, whatever the
/// language of the message: a rejected username or password (`E170001`,
/// `E215004`) wins over everything else; then a forbidden commit, an
/// out-of-date working copy, a working copy that needs attention, a missing
/// URL and an unreachable server, in that order; anything else is a plain
/// failure. [`classify`] gives exactly this class, carrying the username for
/// the first two and the error detail for the rest.
pub proof fn lemma_failures_classified_by_code(stderr: Seq<char>)
    ensures
        classification(stderr) == 0 <==> says_credentials_rejected(stderr),
        !says_credentials_rejected(stderr) && says_forbidden(stderr) ==> classification(stderr) == 1,
        !says_credentials_rejected(stderr) && !says_forbidden(stderr) && says_out_of_date(stderr)
            ==> classification(stderr) == 2,
        !says_credentials_rejected(stderr) && !says_forbidden(stderr) && !says_out_of_date(stderr)
            && says_working_copy(stderr) ==> classification(stderr) == 3,
        !says_credentials_rejected(stderr) && !says_forbidden(stderr) && !says_out_of_date(stderr)
            && !says_working_copy(stderr) && says_not_found(stderr) ==> classification(stderr) == 4,
        !says_credentials_rejected(stderr) && !says_forbidden(stderr) && !says_out_of_date(stderr)
            && !says_working_copy(stderr) && !says_not_found(stderr) && says_network(stderr)
            ==> classification(stderr) == 5,
        !says_credentials_rejected(stderr) && !says_forbidden(stderr) && !says_out_of_date(stderr)
            && !says_working_copy(stderr) && !says_not_found(stderr) && !says_network(stderr)
            ==> classification(stderr) == 6,
{
    let c = credential_codes();
    let f = forbidden_codes();
    let o = out_of_date_codes();
    let w = working_copy_codes();
    let n = not_found_codes();
    let k = network_codes();
    assert(mentions_any(stderr, c) <==> says_credentials_rejected(stderr)) by {
        if says_credentials_rejected(stderr) {
            if contains(stderr, "E170001"@) {
                assert(contains(stderr, c[0]));
            } else {
                assert(contains(stderr, c[1]));
            }
        }
    }
    assert(mentions_any(stderr, f) <==> says_forbidden(stderr)) by {
        if says_forbidden(stderr) {
            if contains(stderr, f[0]) {
            } else if contains(stderr, f[1]) {
            } else if contains(stderr, f[2]) {
            } else {
                assert(contains(stderr, f[3]));
            }
        }
    }
    assert(mentions_any(stderr, o) <==> says_out_of_date(stderr)) by {
        if says_out_of_date(stderr) {
            if contains(stderr, o[0]) {
            } else if contains(stderr, o[1]) {
            } else if contains(stderr, o[2]) {
            } else if contains(stderr, o[3]) {
            } else {
                assert(contains(stderr, o[4]));
            }
        }
    }
    assert(mentions_any(stderr, w) <==> says_working_copy(stderr)) by {
        if says_working_copy(stderr) {
            if contains(stderr, w[0]) {
            } else if contains(stderr, w[1]) {
            } else if contains(stderr, w[2]) {
            } else if contains(stderr, w[3]) {
            } else {
                assert(contains(stderr, w[4]));
            }
        }
    }
    assert(mentions_any(stderr, n) <==> says_not_found(stderr)) by {
        if says_not_found(stderr) {
            if contains(stderr, n[0]) {
            } else if contains(stderr, n[1]) {
            } else if contains(stderr, n[2]) {
            } else {
                assert(contains(stderr, n[3]));
            }
        }
    }
    assert(mentions_any(stderr, k) <==> says_network(stderr)) by {
        if says_network(stderr) {
            if contains(stderr, k[0]) {
            } else if contains(stderr, k[1]) {
            } else if contains(stderr, k[2]) {
            } else if contains(stderr, k[3]) {
            } else if contains(stderr, k[4]) {
            } else if contains(stderr, k[5]) {
            } else if contains(stderr, k[6]) {
            } else {
                assert(contains(stderr, k[7]));
            }
        }
    }
}

/// The class [`classify`] reports is carried by the error's variant: class
/// 0 is rejected credentials, 1 a forbidden commit, 2 an out-of-date
/// working copy, 3 a working copy that needs attention, 4 a missing URL,
/// 5 an unreachable server and 6 a plain failed command.
pub proof fn lemma_classes_are_variants(e: SvnError)
    ensures
        kind_of(e) == 0 <==> e is CredentialsRejected,
        kind_of(e) == 1 <==> e is Forbidden,
        kind_of(e) == 2 <==> e is OutOfDate,
        kind_of(e) == 3 <==> e is WorkingCopy,
        kind_of(e) == 4 <==> e is NotFound,
        kind_of(e) == 5 <==> e is Network,
        kind_of(e) == 6 <==> e is Failed,
{
}

/// Maps `svn` error codes (locale-independent) to typed errors.
pub fn classify(command: &str, stderr: &str, username: String) -> (e: SvnError)
    ensures
        kind_of(e) == classification(stderr@),
        kind_of(e) == 0 ==> e->CredentialsRejected_username@ == username@,
        kind_of(e) == 1 ==> e->Forbidden_username@ == username@,
        2 <= kind_of(e) <= 6 ==> detail_text(e) == Some(detail_of(stderr@)),
        kind_of(e) == 6 ==> e->Failed_command@ == command@,
{
    let text = to_chars(stderr);
    let ls = lines_of(text.as_slice());
    let ghost lv = lines(stderr@);
    let colon_e = to_chars(": E");
    let svn_prefix = to_chars("svn:");
    let mut kept: Vec<String> = Vec::new();
    let mut i: usize = 0;
    while i < ls.len()
        invariant
            i <= ls@.len(),
            ls@.len() == lv.len(),
            forall|j: int| 0 <= j < ls@.len() ==> #[trigger] ls@[j]@ == lv[j],
            colon_e@ == ": E"@,
            svn_prefix@ == "svn:"@,
            texts(kept@) == error_lines(lv.take(i as int)),
        decreases ls@.len() - i,
    {
        proof {
            assert(lv.take(i + 1).drop_last() =~= lv.take(i as int));
            assert(lv.take(i + 1).last() == lv[i as int]);
        }
        if has_infix(ls[i].as_slice(), colon_e.as_slice()) || has_prefix(ls[i].as_slice(), svn_prefix.as_slice()) {
            let t = trim_space(ls[i].as_slice());
            kept.push(from_chars(t.as_slice()));
        }
        i = i + 1;
    }
    proof {
        assert(lv.take(ls@.len() as int) =~= lv);
    }
    let joined = join_texts(kept.as_slice(), " ");
    let detail = if joined.as_str().is_empty() {
        from_chars(trim_space(text.as_slice()).as_slice())
    } else {
        joined
    };
    proof {
        reveal_strlit("E170001");
        reveal_strlit("E215004");
        reveal_strlit("E175013");
        reveal_strlit("E220004");
        reveal_strlit("E170011");
        reveal_strlit("403 Forbidden");
        reveal_strlit("E155011");
        reveal_strlit("E160028");
        reveal_strlit("E160024");
        reveal_strlit("E170004");
        reveal_strlit("E155035");
        reveal_strlit("E155004");
        reveal_strlit("E155037");
        reveal_strlit("E155015");
        reveal_strlit("E155007");
        reveal_strlit("E155016");
        reveal_strlit("E160013");
        reveal_strlit("E170000");
        reveal_strlit("E200009");
        reveal_strlit("E180001");
        reveal_strlit("E170013");
        reveal_strlit("E175002");
        reveal_strlit("E670002");
        reveal_strlit("E670008");
        reveal_strlit("E731001");
        reveal_strlit("E730");
        reveal_strlit("E120");
        reveal_strlit("E175012");
    }
    let credentials = vec!["E170001", "E215004"];
    assert(credentials@.map_values(|c: &str| c@) =~= credential_codes());
    if mentions(text.as_slice(), credentials.as_slice()) {
        return SvnError::CredentialsRejected { username };
    }
    let forbidden = vec!["E175013", "E220004", "E170011", "403 Forbidden"];
    assert(forbidden@.map_values(|c: &str| c@) =~= forbidden_codes());
    if mentions(text.as_slice(), forbidden.as_slice()) {
        return SvnError::Forbidden { username };
    }
    let stale = vec!["E155011", "E160028", "E160024", "E170004", "E155035"];
    assert(stale@.map_values(|c: &str| c@) =~= out_of_date_codes());
    if mentions(text.as_slice(), stale.as_slice()) {
        return SvnError::OutOfDate { detail };
    }
    let local = vec!["E155004", "E155037", "E155015", "E155007", "E155016"];
    assert(local@.map_values(|c: &str| c@) =~= working_copy_codes());
    if mentions(text.as_slice(), local.as_slice()) {
        return SvnError::WorkingCopy { detail };
    }
    let missing = vec!["E160013", "E170000", "E200009", "E180001"];
    assert(missing@.map_values(|c: &str| c@) =~= not_found_codes());
    if mentions(text.as_slice(), missing.as_slice()) {
        return SvnError::NotFound { detail };
    }
    let network = vec!["E170013", "E175002", "E670002", "E670008", "E731001", "E730", "E120", "E175012"];
    assert(network@.map_values(|c: &str| c@) =~= network_codes());
    if mentions(text.as_slice(), network.as_slice()) {
        return SvnError::Network { detail };
    }
    SvnError::Failed { command: command.to_owned(), detail }
}

/// The stable code of each error.
pub open spec fn code_of(e: SvnError) -> Seq<char> {
    match e {
        SvnError::CredentialsRejected { .. } => "SVN_CREDENTIALS_REJECTED"@,
        SvnError::Forbidden { .. } => "SVN_FORBIDDEN"@,
        SvnError::Network { .. } => "SVN_NETWORK"@,
        SvnError::OutOfDate { .. } => "SVN_OUT_OF_DATE"@,
        SvnError::WorkingCopy { .. } => "SVN_WORKING_COPY"@,
        SvnError::NotFound { .. } => "SVN_NOT_FOUND"@,
        SvnError::TagExists { .. } => "SVN_TAG_EXISTS"@,
        SvnError::Failed { .. } => "SVN_FAILED"@,
        SvnError::Cancelled => "CANCELLED"@,
        SvnError::Process { .. } => "SVN_NOT_RUNNABLE"@,
        SvnError::Io { .. } => "SVN_IO"@,
        SvnError::Parse { .. } => "SVN_PARSE"@,
    }
}

/// What to do about each error, on `platform`.
pub open spec fn fix_of(e: SvnError, platform: Platform) -> Option<Seq<char>> {
    match e {
        SvnError::CredentialsRejected { .. } => Some(
            "Use the SVN password from your WordPress.org profile (Account & Security), not your account password, and update it in Vault."@,
        ),
        SvnError::Forbidden { username } => Some(
            "Ask a plugin owner to add "@ + username@ + " as a committer on the plugin's Advanced View page."@,
        ),
        SvnError::Network { .. } => Some("Check your connection and try again."@),
        SvnError::OutOfDate { .. } => Some("Reset the working copy and run the release again."@),
        SvnError::WorkingCopy { .. } => Some("Reset the working copy and run the release again."@),
        SvnError::NotFound { .. } => Some("Check the project's SVN URL."@),
        SvnError::TagExists { .. } => Some("Release a new version number."@),
        SvnError::Process { .. } => Some(svn_instructions(platform)),
        _ => None,
    }
}

/// What went wrong, in one sentence.
pub open spec fn message_of(e: SvnError) -> Seq<char> {
    match e {
        SvnError::CredentialsRejected { username } => "the SVN server rejected the credentials for "@ + username@,
        SvnError::Forbidden { username } => username@ + " is not a committer for this plugin"@,
        SvnError::Network { detail } => "could not reach the SVN server: "@ + detail@,
        SvnError::OutOfDate { detail } => "the working copy is out of date: "@ + detail@,
        SvnError::WorkingCopy { detail } => "the working copy needs attention: "@ + detail@,
        SvnError::NotFound { detail } => "not found on the server: "@ + detail@,
        SvnError::TagExists { version } => "tags/"@ + version@ + " already exists on the server"@,
        SvnError::Failed { command, detail } => "svn "@ + command@ + " failed: "@ + detail@,
        SvnError::Cancelled => "cancelled"@,
        SvnError::Process { detail } => detail@,
        SvnError::Io { action, path, detail } => action@ + " "@ + path@ + ": "@ + detail@,
        SvnError::Parse { detail } => "could not read svn output: "@ + detail@,
    }
}

fn with_detail(prefix: &str, detail: &String) -> (s: String)
    ensures
        s@ == prefix@ + detail@,
{
    let mut s = prefix.to_owned();
    s.append(detail.as_str());
    s
}

impl SvnError {
    /// The stable error code.
    pub fn code(&self) -> (c: &'static str)
        ensures
            c@ == code_of(*self),
    {
        match self {
            SvnError::CredentialsRejected { .. } => "SVN_CREDENTIALS_REJECTED",
            SvnError::Forbidden { .. } => "SVN_FORBIDDEN",
            SvnError::Network { .. } => "SVN_NETWORK",
            SvnError::OutOfDate { .. } => "SVN_OUT_OF_DATE",
            SvnError::WorkingCopy { .. } => "SVN_WORKING_COPY",
            SvnError::NotFound { .. } => "SVN_NOT_FOUND",
            SvnError::TagExists { .. } => "SVN_TAG_EXISTS",
            SvnError::Failed { .. } => "SVN_FAILED",
            SvnError::Cancelled => "CANCELLED",
            SvnError::Process { .. } => "SVN_NOT_RUNNABLE",
            SvnError::Io { .. } => "SVN_IO",
            SvnError::Parse { .. } => "SVN_PARSE",
        }
    }

    /// What to do about it, on `platform`.
    pub fn fix(&self, platform: Platform) -> (f: Option<String>)
        ensures
            crate::tools::opt_view(f) == fix_of(*self, platform),
    {
        match self {
            SvnError::CredentialsRejected { .. } => Some(
                "Use the SVN password from your WordPress.org profile (Account & Security), not your account password, and update it in Vault.".to_owned(),
            ),
            SvnError::Forbidden { username } => {
                let mut f = with_detail("Ask a plugin owner to add ", username);
                f.append(" as a committer on the plugin's Advanced View page.");
                Some(f)
            },
            SvnError::Network { .. } => Some("Check your connection and try again.".to_owned()),
            SvnError::OutOfDate { .. } => Some("Reset the working copy and run the release again.".to_owned()),
            SvnError::WorkingCopy { .. } => Some("Reset the working copy and run the release again.".to_owned()),
            SvnError::NotFound { .. } => Some("Check the project's SVN URL.".to_owned()),
            SvnError::TagExists { .. } => Some("Release a new version number.".to_owned()),
            SvnError::Process { .. } => Some(svn_install_instructions(platform).to_owned()),
            _ => None,
        }
    }

    /// What went wrong, in one sentence.
    pub fn message(&self) -> (m: String)
        ensures
            m@ == message_of(*self),
    {
        match self {
            SvnError::CredentialsRejected { username } => with_detail("the SVN server rejected the credentials for ", username),
            SvnError::Forbidden { username } => {
                let mut m = username.clone();
                m.append(" is not a committer for this plugin");
                m
            },
            SvnError::Network { detail } => with_detail("could not reach the SVN server: ", detail),
            SvnError::OutOfDate { detail } => with_detail("the working copy is out of date: ", detail),
            SvnError::WorkingCopy { detail } => with_detail("the working copy needs attention: ", detail),
            SvnError::NotFound { detail } => with_detail("not found on the server: ", detail),
            SvnError::TagExists { version } => {
                let mut m = with_detail("tags/", version);
                m.append(" already exists on the server");
                m
            },
            SvnError::Failed { command, detail } => {
                let mut m = with_detail("svn ", command);
                m.append(" failed: ");
                m.append(detail.as_str());
                m
            },
            SvnError::Cancelled => "cancelled".to_owned(),
            SvnError::Process { detail } => detail.clone(),
            SvnError::Io { action, path, detail } => {
                let mut m = action.clone();
                m.append(" ");
                m.append(path.as_str());
                m.append(": ");
                m.append(detail.as_str());
                m
            },
            SvnError::Parse { detail } => with_detail("could not read svn output: ", detail),
        }
    }
}

// ---------------------------------------------------------------------------
// Server output
// ---------------------------------------------------------------------------

/// The result of checking a freshly created tag.
#[derive(Debug, PartialEq, Eq)]
pub enum TagVerification {
    /// The tag lists the main file and its readme carries the right stable tag.
    Verified,
    /// The tag exists but could not be confirmed; the plugin page should be checked.
    Unverified(String),
}

/// The revision number a line of `svn commit` output reports, if any.
pub open spec fn revision_in(line: Seq<char>) -> Option<nat> {
    let l = lower(line);
    match find(l, "committed revision"@) {
        Some(i) => parse_unsigned(trim_end_char(trim(l.skip(i + 18)), '.'), u64::MAX as nat),
        None => None,
    }
}

/// The revision the last line that reports one reports.
pub open spec fn last_revision(ls: Seq<Seq<char>>) -> Option<nat>
    decreases ls.len(),
{
    if ls.len() == 0 {
        None
    } else {
        match revision_in(ls.last()) {
            Some(v) => Some(v),
            None => last_revision(ls.drop_last()),
        }
    }
}

fn revision_in_line(line: &[char]) -> (r: Option<u64>)
    ensures
        r matches Some(v) ==> revision_in(line@) == Some(v as nat),
        r is None ==> revision_in(line@) is None,
{
    let l = to_lower(line);
    let marker = to_chars("committed revision");
    proof {
        reveal_strlit("committed revision");
    }
    match find_chars(l.as_slice(), marker.as_slice()) {
        Some(i) => {
            let n = l.len();
            let rest = slice_chars(l.as_slice(), i + 18, n);
            proof {
                assert(rest@ =~= l@.skip(i + 18));
            }
            let t = trim_space(rest.as_slice());
            let number = trim_end_of(t.as_slice(), '.');
            parse_unsigned_chars(number.as_slice(), u64::MAX)
        },
        None => None,
    }
}

/// The revision number in `Committed revision N.`
pub fn committed_revision(stdout: &str) -> (r: Option<u64>)
    ensures
        r matches Some(v) ==> last_revision(lines(stdout@)) == Some(v as nat),
        r is None ==> last_revision(lines(stdout@)) is None,
{
    let chars = to_chars(stdout);
    let ls = lines_of(chars.as_slice());
    let ghost lv = lines(stdout@);
    let mut i: usize = ls.len();
    proof {
        assert(lv.take(ls@.len() as int) =~= lv);
    }
    while i > 0
        invariant
            i <= ls@.len(),
            ls@.len() == lv.len(),
            forall|j: int| 0 <= j < ls@.len() ==> #[trigger] ls@[j]@ == lv[j],
            lv == lines(stdout@),
            last_revision(lv) == last_revision(lv.take(i as int)),
        decreases i,
    {
        proof {
            assert(lv.take(i as int).drop_last() =~= lv.take(i - 1));
            assert(lv.take(i as int).last() == lv[i - 1]);
        }
        match revision_in_line(ls[i - 1].as_slice()) {
            Some(v) => {
                proof {
                    assert(revision_in(lv[i - 1]) == Some(v as nat));
                    assert(last_revision(lv.take(i as int)) == Some(v as nat));
                }
                return Some(v);
            },
            None => {},
        }
        i = i - 1;
    }
    proof {
        assert(lv.take(0) =~= Seq::<Seq<char>>::empty());
    }
    None
}

/// `base` and `path` joined with exactly one `/` between them.
pub open spec fn join_url_spec(base: Seq<char>, path: Seq<char>) -> Seq<char> {
    trim_end_char(base, '/') + "/"@ + trim_start_char(path, '/')
}

/// Joins a URL and a path with exactly one `/`.
pub fn join_url(base: &str, path: &str) -> (r: String)
    ensures
        r@ == join_url_spec(base@, path@),
{
    let b = trim_end_of(to_chars(base).as_slice(), '/');
    let p = trim_start_of(to_chars(path).as_slice(), '/');
    let mut r = from_chars(b.as_slice());
    r.append("/");
    r.append(from_chars(p.as_slice()).as_str());
    r
}

/// Why a freshly created tag is not confirmed yet, `None` when it is: the tag
/// must list the main file, and its readme's stable tag must be the version.
pub open spec fn tag_problem_spec(entries: Seq<Seq<char>>, main_file: Seq<char>, stable_tag: Option<Seq<char>>, version: Seq<char>) -> Option<Seq<char>> {
    if !entries.contains(main_file) {
        Some(main_file + " is not listed in the tag yet."@)
    } else {
        match stable_tag {
            Some(tag) => if tag == version {
                None
            } else {
                Some("The tagged readme says Stable tag: "@ + tag + "."@)
            },
            None => Some("The tagged readme has no Stable tag."@),
        }
    }
}

/// The kind of an error, by its variant alone.
pub open spec fn variant_of(e: SvnError) -> int {
    match e {
        SvnError::CredentialsRejected { .. } => 0,
        SvnError::Forbidden { .. } => 1,
        SvnError::Network { .. } => 2,
        SvnError::OutOfDate { .. } => 3,
        SvnError::WorkingCopy { .. } => 4,
        SvnError::NotFound { .. } => 5,
        SvnError::TagExists { .. } => 6,
        SvnError::Failed { .. } => 7,
        SvnError::Cancelled => 8,
        SvnError::Process { .. } => 9,
        SvnError::Io { .. } => 10,
        SvnError::Parse { .. } => 11,
    }
}

/// Each kind of SVN error has its own stable code: two errors share a code
/// exactly when they are of the same kind. Rejected credentials are
/// `SVN_CREDENTIALS_REJECTED` and say to use the SVN password from the
/// WordPress.org profile; a plain failed command is `SVN_FAILED`. Every
/// error the user can act on carries a fix; a plain failure, a cancelled
/// run, a local I/O error and unreadable output carry none.
pub proof fn lemma_error_codes_tell_kinds_apart(a: SvnError, b: SvnError, platform: Platform)
    ensures
        code_of(a) == code_of(b) <==> variant_of(a) == variant_of(b),
        a is CredentialsRejected ==> code_of(a) == "SVN_CREDENTIALS_REJECTED"@ && fix_of(a, platform) is Some
            && contains(fix_of(a, platform)->0, "WordPress.org profile"@),
        a is Failed ==> code_of(a) == "SVN_FAILED"@,
        fix_of(a, platform) is None <==> (a is Failed || a is Cancelled || a is Io || a is Parse),
{
    reveal_strlit("SVN_CREDENTIALS_REJECTED");
    reveal_strlit("SVN_FORBIDDEN");
    reveal_strlit("SVN_NETWORK");
    reveal_strlit("SVN_OUT_OF_DATE");
    reveal_strlit("SVN_WORKING_COPY");
    reveal_strlit("SVN_NOT_FOUND");
    reveal_strlit("SVN_TAG_EXISTS");
    reveal_strlit("SVN_FAILED");
    reveal_strlit("CANCELLED");
    reveal_strlit("SVN_NOT_RUNNABLE");
    reveal_strlit("SVN_IO");
    reveal_strlit("SVN_PARSE");
    assert("SVN_CREDENTIALS_REJECTED"@.len() != "SVN_FORBIDDEN"@.len());
    assert("SVN_CREDENTIALS_REJECTED"@.len() != "SVN_NETWORK"@.len());
    assert("SVN_CREDENTIALS_REJECTED"@.len() != "SVN_OUT_OF_DATE"@.len());
    assert("SVN_CREDENTIALS_REJECTED"@.len() != "SVN_WORKING_COPY"@.len());
    assert("SVN_CREDENTIALS_REJECTED"@.len() != "SVN_NOT_FOUND"@.len());
    assert("SVN_CREDENTIALS_REJECTED"@.len() != "SVN_TAG_EXISTS"@.len());
    assert("SVN_CREDENTIALS_REJECTED"@.len() != "SVN_FAILED"@.len());
    assert("SVN_CREDENTIALS_REJECTED"@.len() != "CANCELLED"@.len());
    assert("SVN_CREDENTIALS_REJECTED"@.len() != "SVN_NOT_RUNNABLE"@.len());
    assert("SVN_CREDENTIALS_REJECTED"@.len() != "SVN_IO"@.len());
    assert("SVN_CREDENTIALS_REJECTED"@.len() != "SVN_PARSE"@.len());
    assert("SVN_FORBIDDEN"@.len() != "SVN_NETWORK"@.len());
    assert("SVN_FORBIDDEN"@.len() != "SVN_OUT_OF_DATE"@.len());
    assert("SVN_FORBIDDEN"@.len() != "SVN_WORKING_COPY"@.len());
    assert("SVN_FORBIDDEN"@[4] != "SVN_NOT_FOUND"@[4]);
    assert("SVN_FORBIDDEN"@.len() != "SVN_TAG_EXISTS"@.len());
    assert("SVN_FORBIDDEN"@.len() != "SVN_FAILED"@.len());
    assert("SVN_FORBIDDEN"@.len() != "CANCELLED"@.len());
    assert("SVN_FORBIDDEN"@.len() != "SVN_NOT_RUNNABLE"@.len());
    assert("SVN_FORBIDDEN"@.len() != "SVN_IO"@.len());
    assert("SVN_FORBIDDEN"@.len() != "SVN_PARSE"@.len());
    assert("SVN_NETWORK"@.len() != "SVN_OUT_OF_DATE"@.len());
    assert("SVN_NETWORK"@.len() != "SVN_WORKING_COPY"@.len());
    assert("SVN_NETWORK"@.len() != "SVN_NOT_FOUND"@.len());
    assert("SVN_NETWORK"@.len() != "SVN_TAG_EXISTS"@.len());
    assert("SVN_NETWORK"@.len() != "SVN_FAILED"@.len());
    assert("SVN_NETWORK"@.len() != "CANCELLED"@.len());
    assert("SVN_NETWORK"@.len() != "SVN_NOT_RUNNABLE"@.len());
    assert("SVN_NETWORK"@.len() != "SVN_IO"@.len());
    assert("SVN_NETWORK"@.len() != "SVN_PARSE"@.len());
    assert("SVN_OUT_OF_DATE"@.len() != "SVN_WORKING_COPY"@.len());
    assert("SVN_OUT_OF_DATE"@.len() != "SVN_NOT_FOUND"@.len());
    assert("SVN_OUT_OF_DATE"@.len() != "SVN_TAG_EXISTS"@.len());
    assert("SVN_OUT_OF_DATE"@.len() != "SVN_FAILED"@.len());
    assert("SVN_OUT_OF_DATE"@.len() != "CANCELLED"@.len());
    assert("SVN_OUT_OF_DATE"@.len() != "SVN_NOT_RUNNABLE"@.len());
    assert("SVN_OUT_OF_DATE"@.len() != "SVN_IO"@.len());
    assert("SVN_OUT_OF_DATE"@.len() != "SVN_PARSE"@.len());
    assert("SVN_WORKING_COPY"@.len() != "SVN_NOT_FOUND"@.len());
    assert("SVN_WORKING_COPY"@.len() != "SVN_TAG_EXISTS"@.len());
    assert("SVN_WORKING_COPY"@.len() != "SVN_FAILED"@.len());
    assert("SVN_WORKING_COPY"@.len() != "CANCELLED"@.len());
    assert("SVN_WORKING_COPY"@[4] != "SVN_NOT_RUNNABLE"@[4]);
    assert("SVN_WORKING_COPY"@.len() != "SVN_IO"@.len());
    assert("SVN_WORKING_COPY"@.len() != "SVN_PARSE"@.len());
    assert("SVN_NOT_FOUND"@.len() != "SVN_TAG_EXISTS"@.len());
    assert("SVN_NOT_FOUND"@.len() != "SVN_FAILED"@.len());
    assert("SVN_NOT_FOUND"@.len() != "CANCELLED"@.len());
    assert("SVN_NOT_FOUND"@.len() != "SVN_NOT_RUNNABLE"@.len());
    assert("SVN_NOT_FOUND"@.len() != "SVN_IO"@.len());
    assert("SVN_NOT_FOUND"@.len() != "SVN_PARSE"@.len());
    assert("SVN_TAG_EXISTS"@.len() != "SVN_FAILED"@.len());
    assert("SVN_TAG_EXISTS"@.len() != "CANCELLED"@.len());
    assert("SVN_TAG_EXISTS"@.len() != "SVN_NOT_RUNNABLE"@.len());
    assert("SVN_TAG_EXISTS"@.len() != "SVN_IO"@.len());
    assert("SVN_TAG_EXISTS"@.len() != "SVN_PARSE"@.len());
    assert("SVN_FAILED"@.len() != "CANCELLED"@.len());
    assert("SVN_FAILED"@.len() != "SVN_NOT_RUNNABLE"@.len());
    assert("SVN_FAILED"@.len() != "SVN_IO"@.len());
    assert("SVN_FAILED"@.len() != "SVN_PARSE"@.len());
    assert("CANCELLED"@.len() != "SVN_NOT_RUNNABLE"@.len());
    assert("CANCELLED"@.len() != "SVN_IO"@.len());
    assert("CANCELLED"@[0] != "SVN_PARSE"@[0]);
    assert("SVN_NOT_RUNNABLE"@.len() != "SVN_IO"@.len());
    assert("SVN_NOT_RUNNABLE"@.len() != "SVN_PARSE"@.len());
    assert("SVN_IO"@.len() != "SVN_PARSE"@.len());
    reveal_strlit("WordPress.org profile");
    reveal_strlit("Use the SVN password from your WordPress.org profile (Account & Security), not your account password, and update it in Vault.");
    if a is CredentialsRejected {
        let f = "Use the SVN password from your WordPress.org profile (Account & Security), not your account password, and update it in Vault."@;
        assert(f.subrange(31, 52) =~= "WordPress.org profile"@);
        assert(crate::strings::matches_at(f, "WordPress.org profile"@, 31));
    }
}

/// URLs join with exactly one `/`: slashes at the end of the base or the
/// start of the path do not change the result, and a base without a
/// trailing `/` and a path without a leading one are joined by one `/`.
pub proof fn lemma_join_url_one_slash(base: Seq<char>, path: Seq<char>)
    ensures
        join_url_spec(base + seq!['/'], path) == join_url_spec(base, path),
        join_url_spec(base, seq!['/'] + path) == join_url_spec(base, path),
        (base.len() == 0 || base.last() != '/') && (path.len() == 0 || path[0] != '/') ==> join_url_spec(base, path)
            == base + seq!['/'] + path,
{
    reveal_strlit("/");
    let b = base + seq!['/'];
    assert(b.drop_last() =~= base);
    let p = seq!['/'] + path;
    assert(p.skip(1) =~= path);
}

/// A new tag is confirmed exactly when its listing holds the main file and
/// its readme's Stable tag is the version.
pub proof fn lemma_tag_confirmed(entries: Seq<Seq<char>>, main_file: Seq<char>, stable_tag: Option<Seq<char>>, version: Seq<char>)
    ensures
        tag_problem_spec(entries, main_file, stable_tag, version) is None <==> entries.contains(main_file)
            && stable_tag == Some(version),
{
}

/// Why a freshly created tag is not confirmed yet, from its listing and the
/// stable tag of its readme; `None` when it is confirmed.
pub fn tag_problem(entries: &[String], main_file: &str, stable_tag: Option<&str>, version: &str) -> (r: Option<String>)
    ensures
        crate::tools::opt_view(r) == tag_problem_spec(texts(entries@), main_file@, match stable_tag {
            Some(t) => Some(t@),
            None => None,
        }, version@),
{
    let wanted = main_file.to_owned();
    let mut listed = false;
    let mut i: usize = 0;
    while i < entries.len()
        invariant
            i <= entries@.len(),
            wanted@ == main_file@,
            listed == exists|j: int| 0 <= j < i && texts(entries@)[j] == main_file@,
        decreases entries@.len() - i,
    {
        proof {
            assert(texts(entries@)[i as int] == entries@[i as int]@);
        }
        if entries[i] == wanted {
            listed = true;
        }
        i = i + 1;
    }
    proof {
        if listed {
            let j = choose|j: int| 0 <= j < entries@.len() && texts(entries@)[j] == main_file@;
            assert(texts(entries@).contains(main_file@));
        } else {
            assert(!texts(entries@).contains(main_file@));
        }
    }
    if !listed {
        let mut m = wanted;
        m.append(" is not listed in the tag yet.");
        return Some(m);
    }
    match stable_tag {
        Some(tag) => {
            if tag.to_owned() == version.to_owned() {
                None
            } else {
                let mut m = "The tagged readme says Stable tag: ".to_owned();
                m.append(tag);
                m.append(".");
                Some(m)
            }
        },
        None => Some("The tagged readme has no Stable tag.".to_owned()),
    }
}

// ---------------------------------------------------------------------------
// svn status
// ---------------------------------------------------------------------------

/// The state of one path, from the `item` attribute of `wc-status`.
#[derive(Debug, Clone, Copy, PartialEq, Eq, Structural)]
pub enum StatusItem {
    /// Scheduled for addition.
    Added,
    /// Content or properties changed.
    Modified,
    /// Scheduled for deletion.
    Deleted,
    /// Deleted and re-added.
    Replaced,
    /// In conflict.
    Conflicted,
    /// Not under version control.
    Unversioned,
    /// Versioned but missing from disk.
    Missing,
    /// Unchanged, or anything else `svn` reports.
    Normal,
}

/// One row of `svn status`.
#[derive(Debug)]
pub struct StatusEntry {
    /// Path relative to the working copy root, with `/` separators.
    pub path: String,
    /// Local state.
    pub item: StatusItem,
    /// Whether only properties changed.
    pub props_only: bool,
    /// Whether a tree conflict is recorded.
    pub tree_conflict: bool,
    /// Whether the server has a newer version (only with `-u`).
    pub out_of_date: bool,
}

/// The state an `item` attribute names.
pub open spec fn item_of(value: Seq<char>) -> StatusItem {
    if value == "added"@ {
        StatusItem::Added
    } else if value == "modified"@ {
        StatusItem::Modified
    } else if value == "deleted"@ {
        StatusItem::Deleted
    } else if value == "replaced"@ {
        StatusItem::Replaced
    } else if value == "conflicted"@ {
        StatusItem::Conflicted
    } else if value == "unversioned"@ {
        StatusItem::Unversioned
    } else if value == "missing"@ {
        StatusItem::Missing
    } else {
        StatusItem::Normal
    }
}

/// Every `item` value that `svn status --xml` documents names its own state,
/// and only that value names it; any other value reads as unchanged. So a
/// file scheduled for deletion (`deleted`) reads as [`StatusItem::Deleted`],
/// never as unchanged.
pub proof fn lemma_item_values_name_their_state(value: Seq<char>)
    ensures
        item_of(value) == StatusItem::Added <==> value == "added"@,
        item_of(value) == StatusItem::Modified <==> value == "modified"@,
        item_of(value) == StatusItem::Deleted <==> value == "deleted"@,
        item_of(value) == StatusItem::Replaced <==> value == "replaced"@,
        item_of(value) == StatusItem::Conflicted <==> value == "conflicted"@,
        item_of(value) == StatusItem::Unversioned <==> value == "unversioned"@,
        item_of(value) == StatusItem::Missing <==> value == "missing"@,
        item_of(value) == StatusItem::Normal <==> (value != "added"@ && value != "modified"@ && value
            != "deleted"@ && value != "replaced"@ && value != "conflicted"@ && value != "unversioned"@ && value
            != "missing"@),
{
    reveal_strlit("added");
    reveal_strlit("modified");
    reveal_strlit("deleted");
    reveal_strlit("replaced");
    reveal_strlit("conflicted");
    reveal_strlit("unversioned");
    reveal_strlit("missing");
    assert("added"@ != "modified"@ && "added"@ != "deleted"@ && "added"@ != "replaced"@ && "added"@
        != "conflicted"@ && "added"@ != "unversioned"@ && "added"@ != "missing"@) by {
        assert("added"@[0] != "modified"@[0]);
        assert("added"@[0] != "deleted"@[0]);
        assert("added"@[0] != "replaced"@[0]);
        assert("added"@[0] != "conflicted"@[0]);
        assert("added"@[0] != "unversioned"@[0]);
        assert("added"@[0] != "missing"@[0]);
    }
    assert("modified"@ != "deleted"@ && "modified"@ != "replaced"@ && "modified"@ != "conflicted"@
        && "modified"@ != "unversioned"@ && "modified"@ != "missing"@) by {
        assert("modified"@[0] != "deleted"@[0]);
        assert("modified"@[0] != "replaced"@[0]);
        assert("modified"@[0] != "conflicted"@[0]);
        assert("modified"@[0] != "unversioned"@[0]);
        assert("modified"@[1] != "missing"@[1]);
    }
    assert("deleted"@ != "replaced"@ && "deleted"@ != "conflicted"@ && "deleted"@ != "unversioned"@
        && "deleted"@ != "missing"@) by {
        assert("deleted"@[0] != "replaced"@[0]);
        assert("deleted"@[0] != "conflicted"@[0]);
        assert("deleted"@[0] != "unversioned"@[0]);
        assert("deleted"@[0] != "missing"@[0]);
    }
    assert("replaced"@ != "conflicted"@ && "replaced"@ != "unversioned"@ && "replaced"@ != "missing"@) by {
        assert("replaced"@[0] != "conflicted"@[0]);
        assert("replaced"@[0] != "unversioned"@[0]);
        assert("replaced"@[0] != "missing"@[0]);
    }
    assert("conflicted"@ != "unversioned"@ && "conflicted"@ != "missing"@) by {
        assert("conflicted"@[0] != "unversioned"@[0]);
        assert("conflicted"@[0] != "missing"@[0]);
    }
    assert("unversioned"@ != "missing"@) by {
        assert("unversioned"@[0] != "missing"@[0]);
    }
}

/// The state an `item` attribute names.
pub fn item(value: &str) -> (r: StatusItem)
    ensures
        r == item_of(value@),
{
    let v = value.to_owned();
    if v == "added".to_owned() {
        StatusItem::Added
    } else if v == "modified".to_owned() {
        StatusItem::Modified
    } else if v == "deleted".to_owned() {
        StatusItem::Deleted
    } else if v == "replaced".to_owned() {
        StatusItem::Replaced
    } else if v == "conflicted".to_owned() {
        StatusItem::Conflicted
    } else if v == "unversioned".to_owned() {
        StatusItem::Unversioned
    } else if v == "missing".to_owned() {
        StatusItem::Missing
    } else {
        StatusItem::Normal
    }
}

/// `path` with `\` turned into `/`, relative to `root` (itself `/`-separated,
/// without a trailing `/`) when it lies under it.
pub open spec fn relative_to(path: Seq<char>, root: Seq<char>) -> Seq<char> {
    let full = path.map_values(|c: char| if c == '\\' { '/' } else { c });
    if starts_with(full, root) {
        trim_start_char(full.skip(root.len() as int), '/')
    } else {
        full
    }
}

/// `s` with `\` turned into `/`.
pub open spec fn slashed(s: Seq<char>) -> Seq<char> {
    s.map_values(|c: char| if c == '\\' { '/' } else { c })
}

fn slashed_chars(s: &[char]) -> (r: Vec<char>)
    ensures
        r@ == slashed(s@),
{
    let mut r: Vec<char> = Vec::new();
    let mut i: usize = 0;
    while i < s.len()
        invariant
            i <= s@.len(),
            r@ == slashed(s@.take(i as int)),
        decreases s@.len() - i,
    {
        r.push(if s[i] == '\\' { '/' } else { s[i] });
        proof {
            assert(slashed(s@.take(i + 1)) =~= slashed(s@.take(i as int)).push(
                if s@[i as int] == '\\' { '/' } else { s@[i as int] },
            ));
        }
        i = i + 1;
    }
    proof {
        assert(s@.take(s@.len() as int) =~= s@);
    }
    r
}

/// `text` with `\` turned into `/`.
pub fn slashed_text(text: &str) -> (r: String)
    ensures
        r@ == slashed(text@),
{
    from_chars(slashed_chars(to_chars(text).as_slice()).as_slice())
}

/// The working-copy root as status paths are compared with it: `/`-separated,
/// without trailing `/`.
pub open spec fn root_key(wc_root: Seq<char>) -> Seq<char> {
    trim_end_char(slashed(wc_root), '/')
}

fn relative_path(raw: &str, root: &[char]) -> (r: String)
    ensures
        r@ == relative_to(raw@, root@),
{
    let full = slashed_chars(to_chars(raw).as_slice());
    if has_prefix(full.as_slice(), root) {
        let rest = slice_chars(full.as_slice(), root.len(), full.len());
        proof {
            assert(rest@ =~= full@.skip(root@.len() as int));
        }
        from_chars(trim_start_of(rest.as_slice(), '/').as_slice())
    } else {
        from_chars(full.as_slice())
    }
}

/// What one `<entry>` of `svn status --xml` says, from its attributes: the
/// `path`, and the `item`, `props` and `tree-conflicted` attributes of its
/// `wc-status` and the `item` and `props` attributes of its `repos-status`
/// (`None` where absent).
pub struct RawStatus {
    pub path: String,
    pub wc_item: Option<String>,
    pub wc_props: Option<String>,
    pub tree_conflicted: Option<String>,
    pub repos_item: Option<String>,
    pub repos_props: Option<String>,
}

/// A raw entry's texts: the path, then the `wc-status` item, props and
/// tree-conflicted attributes and the `repos-status` item and props.
pub open spec fn raw_view(raw: RawStatus) -> (
    Seq<char>,
    Option<Seq<char>>,
    Option<Seq<char>>,
    Option<Seq<char>>,
    Option<Seq<char>>,
    Option<Seq<char>>,
) {
    (
        raw.path@,
        opt_view(raw.wc_item),
        opt_view(raw.wc_props),
        opt_view(raw.tree_conflicted),
        opt_view(raw.repos_item),
        opt_view(raw.repos_props),
    )
}

/// The status entry raw `<entry>` texts stand for, with the path relative
/// to `wc_root`.
pub open spec fn status_entry_of(
    raw: (Seq<char>, Option<Seq<char>>, Option<Seq<char>>, Option<Seq<char>>, Option<Seq<char>>, Option<Seq<char>>),
    wc_root: Seq<char>,
) -> (Seq<char>, StatusItem, bool, bool, bool) {
    let local = match raw.1 {
        Some(i) => item_of(i),
        None => StatusItem::Normal,
    };
    let props = match raw.2 {
        Some(p) => p,
        None => "none"@,
    };
    let props_only = local == StatusItem::Normal && props == "modified"@;
    (
        relative_to(raw.0, root_key(wc_root)),
        if props_only { StatusItem::Modified } else { local },
        props_only,
        raw.3 == Some("true"@),
        (raw.4 matches Some(i) && i != "none"@) || (raw.5 matches Some(p) && p != "none"@),
    )
}

/// A `/`-separated text without backslashes is left as it is by `slashed`.
proof fn lemma_slashed_keeps(s: Seq<char>)
    requires
        forall|i: int| 0 <= i < s.len() ==> s[i] != '\\',
    ensures
        slashed(s) == s,
{
    assert(slashed(s) =~= s);
}

/// What `svn status --xml` says of one `<entry>`: its path relative to the
/// working copy root; the state its `wc-status` item names (a deleted file
/// reads as deleted); a file whose only change is to its properties reads
/// as modified, marked props-only; a tree conflict when `tree-conflicted`
/// is `true`; and out of date when the `repos-status` item or props say
/// anything but `none`.
pub proof fn lemma_status_entry_reads_the_entry(
    raw: (Seq<char>, Option<Seq<char>>, Option<Seq<char>>, Option<Seq<char>>, Option<Seq<char>>, Option<Seq<char>>),
    wc_root: Seq<char>,
    rel: Seq<char>,
)
    ensures
        (forall|i: int| 0 <= i < wc_root.len() ==> wc_root[i] != '\\') && (forall|i: int|
            0 <= i < rel.len() ==> rel[i] != '\\') && (wc_root.len() == 0 || wc_root.last() != '/') && (rel.len()
            == 0 || rel[0] != '/') && raw.0 == wc_root + seq!['/'] + rel ==> status_entry_of(raw, wc_root).0 == rel,
        (raw.1 matches Some(v) && item_of(v) != StatusItem::Normal) ==> status_entry_of(raw, wc_root).1 == item_of(
            raw.1->0,
        ) && !status_entry_of(raw, wc_root).2,
        (raw.1 is None || raw.1 == Some("normal"@)) && raw.2 == Some("modified"@) ==> status_entry_of(raw, wc_root).1
            == StatusItem::Modified && status_entry_of(raw, wc_root).2,
        status_entry_of(raw, wc_root).3 <==> raw.3 == Some("true"@),
        status_entry_of(raw, wc_root).4 <==> ((raw.4 matches Some(v) && v != "none"@) || (raw.5 matches Some(p) && p
            != "none"@)),
{
    lemma_item_values_name_their_state("normal"@);
    reveal_strlit("normal");
    reveal_strlit("added");
    reveal_strlit("modified");
    reveal_strlit("deleted");
    reveal_strlit("replaced");
    reveal_strlit("conflicted");
    reveal_strlit("unversioned");
    reveal_strlit("missing");
    assert("normal"@ != "added"@ && "normal"@ != "modified"@ && "normal"@ != "deleted"@ && "normal"@
        != "replaced"@ && "normal"@ != "conflicted"@ && "normal"@ != "unversioned"@ && "normal"@ != "missing"@) by {
        assert("normal"@[0] != "added"@[0]);
        assert("normal"@[0] != "modified"@[0]);
        assert("normal"@[0] != "deleted"@[0]);
        assert("normal"@[0] != "replaced"@[0]);
        assert("normal"@[0] != "conflicted"@[0]);
        assert("normal"@[0] != "unversioned"@[0]);
        assert("normal"@[0] != "missing"@[0]);
    }
    if (forall|i: int| 0 <= i < wc_root.len() ==> wc_root[i] != '\\') && (forall|i: int|
        0 <= i < rel.len() ==> rel[i] != '\\') && (wc_root.len() == 0 || wc_root.last() != '/') && (rel.len() == 0
        || rel[0] != '/') && raw.0 == wc_root + seq!['/'] + rel {
        lemma_slashed_keeps(wc_root);
        assert(root_key(wc_root) == wc_root);
        let full = raw.0;
        assert forall|i: int| 0 <= i < full.len() implies full[i] != '\\' by {
            if i < wc_root.len() {
                assert(full[i] == wc_root[i]);
            } else if i > wc_root.len() {
                assert(full[i] == rel[i - wc_root.len() - 1]);
            }
        }
        lemma_slashed_keeps(full);
        assert(full.take(wc_root.len() as int) =~= wc_root);
        assert(full.skip(wc_root.len() as int) =~= seq!['/'] + rel);
        assert((seq!['/'] + rel).skip(1) =~= rel);
        assert(trim_start_char(rel, '/') == rel);
    }
}

/// The status entry a raw `<entry>` stands for, with its path relative to `wc_root`.
pub open spec fn status_entry_spec(raw: RawStatus, wc_root: Seq<char>) -> (Seq<char>, StatusItem, bool, bool, bool) {
    status_entry_of(raw_view(raw), wc_root)
}

fn is_text(o: &Option<String>, text: &str) -> (b: bool)
    ensures
        b == (*o matches Some(s) && s@ == text@),
{
    match o {
        Some(s) => *s == text.to_owned(),
        None => false,
    }
}

fn is_other_than(o: &Option<String>, text: &str) -> (b: bool)
    ensures
        b == (*o matches Some(s) && s@ != text@),
{
    match o {
        Some(s) => !(*s == text.to_owned()),
        None => false,
    }
}

/// Reads the status of each `<entry>` of `svn status --xml`, with paths
/// relative to `wc_root`.
pub fn status_entries(raw: &[RawStatus], wc_root: &str) -> (out: Vec<StatusEntry>)
    ensures
        out@.len() == raw@.len(),
        forall|i: int| 0 <= i < raw@.len() ==> ((#[trigger] out@[i]).path@, out@[i].item, out@[i].props_only,
            out@[i].tree_conflict, out@[i].out_of_date) == status_entry_spec(raw@[i], wc_root@),
{
    let root = trim_end_of(slashed_chars(to_chars(wc_root).as_slice()).as_slice(), '/');
    let mut out: Vec<StatusEntry> = Vec::new();
    let mut i: usize = 0;
    while i < raw.len()
        invariant
            i <= raw@.len(),
            root@ == root_key(wc_root@),
            out@.len() == i,
            forall|k: int| 0 <= k < i ==> ((#[trigger] out@[k]).path@, out@[k].item, out@[k].props_only,
                out@[k].tree_conflict, out@[k].out_of_date) == status_entry_spec(raw@[k], wc_root@),
        decreases raw@.len() - i,
    {
        let r = &raw[i];
        let local = match &r.wc_item {
            Some(v) => item(v.as_str()),
            None => StatusItem::Normal,
        };
        let props_modified = is_text(&r.wc_props, "modified");
        proof {
            reveal_strlit("none");
            reveal_strlit("modified");
            let spec_props = match raw@[i as int].wc_props {
                Some(p) => p@,
                None => "none"@,
            };
            assert(*r == raw@[i as int]);
            if raw@[i as int].wc_props is None {
                assert("none"@.len() != "modified"@.len());
                assert("none"@ != "modified"@);
                assert(!props_modified);
            }
            assert(props_modified == (spec_props == "modified"@));
            assert(local == match raw@[i as int].wc_item {
                Some(v) => item_of(v@),
                None => StatusItem::Normal,
            });
        }
        let props_only = local == StatusItem::Normal && props_modified;
        let entry = StatusEntry {
            path: relative_path(r.path.as_str(), root.as_slice()),
            item: if props_only {
                StatusItem::Modified
            } else {
                local
            },
            props_only,
            tree_conflict: is_text(&r.tree_conflicted, "true"),
            out_of_date: is_other_than(&r.repos_item, "none") || is_other_than(&r.repos_props, "none"),
        };
        proof {
            assert((entry.path@, entry.item, entry.props_only, entry.tree_conflict, entry.out_of_date)
                == status_entry_spec(raw@[i as int], wc_root@));
        }
        let ghost before = out@;
        out.push(entry);
        proof {
            assert forall|k: int| 0 <= k < i + 1 implies ((#[trigger] out@[k]).path@, out@[k].item, out@[k].props_only,
                out@[k].tree_conflict, out@[k].out_of_date) == status_entry_spec(raw@[k], wc_root@) by {
                if k < i {
                    assert(out@[k] == before[k]);
                }
            }
        }
        i = i + 1;
    }
    out
}

/// The paths `pred` selects among `entries`, in order.
pub open spec fn conflicted_paths(entries: Seq<StatusEntry>) -> Seq<Seq<char>>
    decreases entries.len(),
{
    if entries.len() == 0 {
        Seq::empty()
    } else if entries.last().item == StatusItem::Conflicted || entries.last().tree_conflict {
        conflicted_paths(entries.drop_last()).push(entries.last().path@)
    } else {
        conflicted_paths(entries.drop_last())
    }
}

/// The paths the server has newer versions of, in order.
pub open spec fn stale_paths(entries: Seq<StatusEntry>) -> Seq<Seq<char>>
    decreases entries.len(),
{
    if entries.len() == 0 {
        Seq::empty()
    } else if entries.last().out_of_date {
        stale_paths(entries.drop_last()).push(entries.last().path@)
    } else {
        stale_paths(entries.drop_last())
    }
}

/// What check V15 makes of a working copy: not created, or its conflicts,
/// else what changed on the server, else clean.
pub open spec fn working_copy_spec(exists: bool, entries: Seq<StatusEntry>) -> (int, Seq<Seq<char>>) {
    if !exists {
        (0, Seq::empty())
    } else if conflicted_paths(entries).len() > 0 {
        (2, conflicted_paths(entries))
    } else if stale_paths(entries).len() > 0 {
        (3, stale_paths(entries))
    } else {
        (1, Seq::empty())
    }
}

/// The kind and paths of a working-copy state: 0 not created, 1 clean,
/// 2 conflicts, 3 out of date.
pub open spec fn state_view(s: WorkingCopyState) -> (int, Seq<Seq<char>>) {
    match s {
        WorkingCopyState::NotCreated => (0, Seq::empty()),
        WorkingCopyState::Clean => (1, Seq::empty()),
        WorkingCopyState::Conflicts(p) => (2, texts(p@)),
        WorkingCopyState::OutOfDate(p) => (3, texts(p@)),
    }
}

/// Whether `svn status` reports the entry in conflict (text, property or tree).
pub open spec fn in_conflict(e: StatusEntry) -> bool {
    e.item == StatusItem::Conflicted || e.tree_conflict
}

proof fn lemma_conflicted_paths_hold(entries: Seq<StatusEntry>)
    ensures
        forall|i: int|
            0 <= i < entries.len() && in_conflict(#[trigger] entries[i]) ==> conflicted_paths(entries).contains(
                entries[i].path@,
            ),
        conflicted_paths(entries).len() == 0 <==> forall|i: int| 0 <= i < entries.len() ==> !in_conflict(#[trigger] entries[i]),
        stale_paths(entries).len() == 0 <==> forall|i: int| 0 <= i < entries.len() ==> !(#[trigger] entries[i]).out_of_date,
        forall|i: int|
            0 <= i < entries.len() && (#[trigger] entries[i]).out_of_date ==> stale_paths(entries).contains(
                entries[i].path@,
            ),
    decreases entries.len(),
{
    if entries.len() > 0 {
        let rest = entries.drop_last();
        lemma_conflicted_paths_hold(rest);
        assert forall|i: int|
            0 <= i < entries.len() && in_conflict(#[trigger] entries[i]) implies conflicted_paths(entries).contains(
                entries[i].path@,
            ) by {
            if i < entries.len() - 1 {
                assert(entries[i] == rest[i]);
                let k = choose|k: int| 0 <= k < conflicted_paths(rest).len() && conflicted_paths(rest)[k] == rest[i].path@;
                if in_conflict(entries.last()) {
                    assert(conflicted_paths(entries)[k] == rest[i].path@);
                }
            } else {
                assert(conflicted_paths(entries).last() == entries[i].path@);
            }
        }
        assert forall|i: int|
            0 <= i < entries.len() && (#[trigger] entries[i]).out_of_date implies stale_paths(entries).contains(
                entries[i].path@,
            ) by {
            if i < entries.len() - 1 {
                assert(entries[i] == rest[i]);
                let k = choose|k: int| 0 <= k < stale_paths(rest).len() && stale_paths(rest)[k] == rest[i].path@;
                if entries.last().out_of_date {
                    assert(stale_paths(entries)[k] == rest[i].path@);
                }
            } else {
                assert(stale_paths(entries).last() == entries[i].path@);
            }
        }
        if forall|i: int| 0 <= i < entries.len() ==> !in_conflict(#[trigger] entries[i]) {
            assert(!in_conflict(entries[entries.len() - 1]));
            assert forall|i: int| 0 <= i < rest.len() implies !in_conflict(#[trigger] rest[i]) by {
                assert(rest[i] == entries[i]);
            }
        }
        if forall|i: int| 0 <= i < entries.len() ==> !(#[trigger] entries[i]).out_of_date {
            assert(!entries[entries.len() - 1].out_of_date);
            assert forall|i: int| 0 <= i < rest.len() implies !(#[trigger] rest[i]).out_of_date by {
                assert(rest[i] == entries[i]);
            }
        }
        if conflicted_paths(entries).len() == 0 {
            assert forall|i: int| 0 <= i < entries.len() implies !in_conflict(#[trigger] entries[i]) by {
                if i < entries.len() - 1 {
                    assert(entries[i] == rest[i]);
                }
            }
        }
        if stale_paths(entries).len() == 0 {
            assert forall|i: int| 0 <= i < entries.len() implies !(#[trigger] entries[i]).out_of_date by {
                if i < entries.len() - 1 {
                    assert(entries[i] == rest[i]);
                }
            }
        }
    }
}

/// What `svn status -u` says of the working copy: not created when `.svn`
/// is missing; otherwise any entry in conflict makes it conflicted, listing
/// that entry's path; else any entry the server has newer makes it out of
/// date, listing that path; else it is clean.
pub proof fn lemma_working_copy_state_from_status(exists: bool, entries: Seq<StatusEntry>)
    ensures
        working_copy_spec(exists, entries).0 == 0 <==> !exists,
        working_copy_spec(exists, entries).0 == 2 <==> exists && exists|i: int|
            0 <= i < entries.len() && in_conflict(#[trigger] entries[i]),
        forall|i: int|
            exists && 0 <= i < entries.len() && in_conflict(#[trigger] entries[i]) ==> working_copy_spec(
                exists,
                entries,
            ).1.contains(entries[i].path@),
        working_copy_spec(exists, entries).0 == 3 ==> forall|i: int|
            0 <= i < entries.len() && (#[trigger] entries[i]).out_of_date ==> working_copy_spec(exists, entries).1.contains(
                entries[i].path@,
            ),
        working_copy_spec(exists, entries).0 == 1 <==> exists && forall|i: int|
            0 <= i < entries.len() ==> !in_conflict(#[trigger] entries[i]) && !entries[i].out_of_date,
{
    lemma_conflicted_paths_hold(entries);
}

/// The working-copy state from whether `.svn` exists and `svn status -u`.
pub fn working_copy_state(exists: bool, entries: &[StatusEntry]) -> (s: WorkingCopyState)
    ensures
        state_view(s) == working_copy_spec(exists, entries@),
{
    if !exists {
        return WorkingCopyState::NotCreated;
    }
    let mut conflicts: Vec<String> = Vec::new();
    let mut stale: Vec<String> = Vec::new();
    let mut i: usize = 0;
    while i < entries.len()
        invariant
            i <= entries@.len(),
            texts(conflicts@) == conflicted_paths(entries@.take(i as int)),
            texts(stale@) == stale_paths(entries@.take(i as int)),
        decreases entries@.len() - i,
    {
        proof {
            assert(entries@.take(i + 1).drop_last() =~= entries@.take(i as int));
            assert(entries@.take(i + 1).last() == entries@[i as int]);
        }
        if entries[i].item == StatusItem::Conflicted || entries[i].tree_conflict {
            conflicts.push(entries[i].path.clone());
        }
        if entries[i].out_of_date {
            stale.push(entries[i].path.clone());
        }
        i = i + 1;
    }
    proof {
        assert(entries@.take(entries@.len() as int) =~= entries@);
    }
    if conflicts.len() > 0 {
        WorkingCopyState::Conflicts(conflicts)
    } else if stale.len() > 0 {
        WorkingCopyState::OutOfDate(stale)
    } else {
        WorkingCopyState::Clean
    }
}

/// The unversioned paths, which a revert removes from disk.
pub open spec fn unversioned_paths(entries: Seq<StatusEntry>) -> Seq<Seq<char>>
    decreases entries.len(),
{
    if entries.len() == 0 {
        Seq::empty()
    } else if entries.last().item == StatusItem::Unversioned {
        unversioned_paths(entries.drop_last()).push(entries.last().path@)
    } else {
        unversioned_paths(entries.drop_last())
    }
}

/// The paths a revert removes from disk: those `svn status` calls unversioned.
pub fn unversioned(entries: &[StatusEntry]) -> (out: Vec<String>)
    ensures
        texts(out@) == unversioned_paths(entries@),
{
    let mut out: Vec<String> = Vec::new();
    let mut i: usize = 0;
    while i < entries.len()
        invariant
            i <= entries@.len(),
            texts(out@) == unversioned_paths(entries@.take(i as int)),
        decreases entries@.len() - i,
    {
        proof {
            assert(entries@.take(i + 1).drop_last() =~= entries@.take(i as int));
            assert(entries@.take(i + 1).last() == entries@[i as int]);
        }
        if entries[i].item == StatusItem::Unversioned {
            out.push(entries[i].path.clone());
        }
        i = i + 1;
    }
    proof {
        assert(entries@.take(entries@.len() as int) =~= entries@);
    }
    out
}

// ---------------------------------------------------------------------------
// Mirroring and diffs
// ---------------------------------------------------------------------------

/// The `svn:mime-type` of a lowercased extension, for the binary types marked.
pub open spec fn mime_of(ext: Seq<char>) -> Option<Seq<char>> {
    if ext == "png"@ {
        Some("image/png"@)
    } else if ext == "jpg"@ || ext == "jpeg"@ {
        Some("image/jpeg"@)
    } else if ext == "gif"@ {
        Some("image/gif"@)
    } else if ext == "webp"@ {
        Some("image/webp"@)
    } else if ext == "svg"@ {
        Some("image/svg+xml"@)
    } else if ext == "ico"@ {
        Some("image/x-icon"@)
    } else if ext == "woff"@ {
        Some("font/woff"@)
    } else if ext == "woff2"@ {
        Some("font/woff2"@)
    } else if ext == "ttf"@ {
        Some("font/ttf"@)
    } else if ext == "eot"@ {
        Some("application/vnd.ms-fontobject"@)
    } else if ext == "pdf"@ {
        Some("application/pdf"@)
    } else if ext == "mp3"@ {
        Some("audio/mpeg"@)
    } else if ext == "mp4"@ {
        Some("video/mp4"@)
    } else {
        None
    }
}

/// The `svn:mime-type` for `rel`: by the lowercased text after its last `.`.
pub open spec fn mime_type_spec(rel: Seq<char>) -> Option<Seq<char>> {
    match last_index(rel, '.') {
        Some(k) => mime_of(lower(rel.skip(k + 1))),
        None => None,
    }
}

/// The last `.` of `stem.ext`, where `ext` has none, is the one before `ext`.
proof fn lemma_last_dot(stem: Seq<char>, ext: Seq<char>)
    requires
        forall|i: int| 0 <= i < ext.len() ==> ext[i] != '.',
    ensures
        last_index(stem + seq!['.'] + ext, '.') == Some(stem.len() as int),
    decreases ext.len(),
{
    let p = stem + seq!['.'] + ext;
    if ext.len() == 0 {
        assert(p.last() == '.');
    } else {
        lemma_last_dot(stem, ext.drop_last());
        assert(p.drop_last() =~= stem + seq!['.'] + ext.drop_last());
        assert(p.last() == ext.last());
    }
}

/// A path's `svn:mime-type` goes by its extension, the text after its last
/// `.`, in any letter case: images, fonts, PDF, MP3 and MP4 get their
/// media type (JPEG files `image/jpeg`, whether named `.jpg` or `.jpeg`),
/// and every other extension gets none.
pub proof fn lemma_mime_type_by_extension(stem: Seq<char>, ext: Seq<char>)
    requires
        forall|i: int| 0 <= i < ext.len() ==> ext[i] != '.',
    ensures
        lower(ext) == "png"@ ==> mime_type_spec(stem + seq!['.'] + ext) == Some("image/png"@),
        lower(ext) == "jpg"@ ==> mime_type_spec(stem + seq!['.'] + ext) == Some("image/jpeg"@),
        lower(ext) == "jpeg"@ ==> mime_type_spec(stem + seq!['.'] + ext) == Some("image/jpeg"@),
        lower(ext) == "gif"@ ==> mime_type_spec(stem + seq!['.'] + ext) == Some("image/gif"@),
        lower(ext) == "webp"@ ==> mime_type_spec(stem + seq!['.'] + ext) == Some("image/webp"@),
        lower(ext) == "svg"@ ==> mime_type_spec(stem + seq!['.'] + ext) == Some("image/svg+xml"@),
        lower(ext) == "ico"@ ==> mime_type_spec(stem + seq!['.'] + ext) == Some("image/x-icon"@),
        lower(ext) == "woff"@ ==> mime_type_spec(stem + seq!['.'] + ext) == Some("font/woff"@),
        lower(ext) == "woff2"@ ==> mime_type_spec(stem + seq!['.'] + ext) == Some("font/woff2"@),
        lower(ext) == "ttf"@ ==> mime_type_spec(stem + seq!['.'] + ext) == Some("font/ttf"@),
        lower(ext) == "eot"@ ==> mime_type_spec(stem + seq!['.'] + ext) == Some("application/vnd.ms-fontobject"@),
        lower(ext) == "pdf"@ ==> mime_type_spec(stem + seq!['.'] + ext) == Some("application/pdf"@),
        lower(ext) == "mp3"@ ==> mime_type_spec(stem + seq!['.'] + ext) == Some("audio/mpeg"@),
        lower(ext) == "mp4"@ ==> mime_type_spec(stem + seq!['.'] + ext) == Some("video/mp4"@),
        lower(ext) != "png"@ && lower(ext) != "jpg"@ && lower(ext) != "jpeg"@ && lower(ext) != "gif"@ && lower(ext) != "webp"@ && lower(ext) != "svg"@ && lower(ext) != "ico"@ && lower(ext) != "woff"@ && lower(ext) != "woff2"@ && lower(ext) != "ttf"@ && lower(ext) != "eot"@ && lower(ext) != "pdf"@ && lower(ext) != "mp3"@ && lower(ext) != "mp4"@ ==> mime_type_spec(stem + seq!['.'] + ext) is None,
{
    lemma_last_dot(stem, ext);
    assert((stem + seq!['.'] + ext).skip(stem.len() as int + 1) =~= ext);
    reveal_strlit("png");
    reveal_strlit("jpg");
    reveal_strlit("jpeg");
    reveal_strlit("gif");
    reveal_strlit("webp");
    reveal_strlit("svg");
    reveal_strlit("ico");
    reveal_strlit("woff");
    reveal_strlit("woff2");
    reveal_strlit("ttf");
    reveal_strlit("eot");
    reveal_strlit("pdf");
    reveal_strlit("mp3");
    reveal_strlit("mp4");
    assert("png"@[0] != "jpg"@[0]);
    assert("png"@.len() != "jpeg"@.len());
    assert("png"@[0] != "gif"@[0]);
    assert("png"@.len() != "webp"@.len());
    assert("png"@[0] != "svg"@[0]);
    assert("png"@[0] != "ico"@[0]);
    assert("png"@.len() != "woff"@.len());
    assert("png"@.len() != "woff2"@.len());
    assert("png"@[0] != "ttf"@[0]);
    assert("png"@[0] != "eot"@[0]);
    assert("png"@[1] != "pdf"@[1]);
    assert("png"@[0] != "mp3"@[0]);
    assert("png"@[0] != "mp4"@[0]);
    assert("jpg"@.len() != "jpeg"@.len());
    assert("jpg"@[0] != "gif"@[0]);
    assert("jpg"@.len() != "webp"@.len());
    assert("jpg"@[0] != "svg"@[0]);
    assert("jpg"@[0] != "ico"@[0]);
    assert("jpg"@.len() != "woff"@.len());
    assert("jpg"@.len() != "woff2"@.len());
    assert("jpg"@[0] != "ttf"@[0]);
    assert("jpg"@[0] != "eot"@[0]);
    assert("jpg"@[0] != "pdf"@[0]);
    assert("jpg"@[0] != "mp3"@[0]);
    assert("jpg"@[0] != "mp4"@[0]);
    assert("jpeg"@.len() != "gif"@.len());
    assert("jpeg"@[0] != "webp"@[0]);
    assert("jpeg"@.len() != "svg"@.len());
    assert("jpeg"@.len() != "ico"@.len());
    assert("jpeg"@[0] != "woff"@[0]);
    assert("jpeg"@.len() != "woff2"@.len());
    assert("jpeg"@.len() != "ttf"@.len());
    assert("jpeg"@.len() != "eot"@.len());
    assert("jpeg"@.len() != "pdf"@.len());
    assert("jpeg"@.len() != "mp3"@.len());
    assert("jpeg"@.len() != "mp4"@.len());
    assert("gif"@.len() != "webp"@.len());
    assert("gif"@[0] != "svg"@[0]);
    assert("gif"@[0] != "ico"@[0]);
    assert("gif"@.len() != "woff"@.len());
    assert("gif"@.len() != "woff2"@.len());
    assert("gif"@[0] != "ttf"@[0]);
    assert("gif"@[0] != "eot"@[0]);
    assert("gif"@[0] != "pdf"@[0]);
    assert("gif"@[0] != "mp3"@[0]);
    assert("gif"@[0] != "mp4"@[0]);
    assert("webp"@.len() != "svg"@.len());
    assert("webp"@.len() != "ico"@.len());
    assert("webp"@[1] != "woff"@[1]);
    assert("webp"@.len() != "woff2"@.len());
    assert("webp"@.len() != "ttf"@.len());
    assert("webp"@.len() != "eot"@.len());
    assert("webp"@.len() != "pdf"@.len());
    assert("webp"@.len() != "mp3"@.len());
    assert("webp"@.len() != "mp4"@.len());
    assert("svg"@[0] != "ico"@[0]);
    assert("svg"@.len() != "woff"@.len());
    assert("svg"@.len() != "woff2"@.len());
    assert("svg"@[0] != "ttf"@[0]);
    assert("svg"@[0] != "eot"@[0]);
    assert("svg"@[0] != "pdf"@[0]);
    assert("svg"@[0] != "mp3"@[0]);
    assert("svg"@[0] != "mp4"@[0]);
    assert("ico"@.len() != "woff"@.len());
    assert("ico"@.len() != "woff2"@.len());
    assert("ico"@[0] != "ttf"@[0]);
    assert("ico"@[0] != "eot"@[0]);
    assert("ico"@[0] != "pdf"@[0]);
    assert("ico"@[0] != "mp3"@[0]);
    assert("ico"@[0] != "mp4"@[0]);
    assert("woff"@.len() != "woff2"@.len());
    assert("woff"@.len() != "ttf"@.len());
    assert("woff"@.len() != "eot"@.len());
    assert("woff"@.len() != "pdf"@.len());
    assert("woff"@.len() != "mp3"@.len());
    assert("woff"@.len() != "mp4"@.len());
    assert("woff2"@.len() != "ttf"@.len());
    assert("woff2"@.len() != "eot"@.len());
    assert("woff2"@.len() != "pdf"@.len());
    assert("woff2"@.len() != "mp3"@.len());
    assert("woff2"@.len() != "mp4"@.len());
    assert("ttf"@[0] != "eot"@[0]);
    assert("ttf"@[0] != "pdf"@[0]);
    assert("ttf"@[0] != "mp3"@[0]);
    assert("ttf"@[0] != "mp4"@[0]);
    assert("eot"@[0] != "pdf"@[0]);
    assert("eot"@[0] != "mp3"@[0]);
    assert("eot"@[0] != "mp4"@[0]);
    assert("pdf"@[0] != "mp3"@[0]);
    assert("pdf"@[0] != "mp4"@[0]);
    assert("mp3"@[2] != "mp4"@[2]);
}

/// A path without a `.` has no extension, and gets no `svn:mime-type`.
pub proof fn lemma_no_extension_no_mime_type(rel: Seq<char>)
    requires
        forall|i: int| 0 <= i < rel.len() ==> rel[i] != '.',
    ensures
        mime_type_spec(rel) is None,
{
    lemma_no_dot(rel);
}

proof fn lemma_no_dot(rel: Seq<char>)
    requires
        forall|i: int| 0 <= i < rel.len() ==> rel[i] != '.',
    ensures
        last_index(rel, '.') is None,
    decreases rel.len(),
{
    if rel.len() > 0 {
        assert(rel.last() != '.');
        lemma_no_dot(rel.drop_last());
    }
}

/// The `svn:mime-type` for binary extensions SVNpush marks.
pub fn mime_type(rel: &str) -> (r: Option<&'static str>)
    ensures
        (match r {
            Some(m) => Some(m@),
            None => None,
        }) == mime_type_spec(rel@),
{
    let chars = to_chars(rel);
    let k = match last_index_of(chars.as_slice(), '.') {
        Some(k) => k,
        None => return None,
    };
    let n = chars.len();
    let ext_chars = to_lower(slice_chars(chars.as_slice(), k + 1, n).as_slice());
    proof {
        assert(slice_chars_view(chars@, k as int) =~= chars@.skip(k + 1));
    }
    let ext = from_chars(ext_chars.as_slice());
    if ext == "png".to_owned() {
        Some("image/png")
    } else if ext == "jpg".to_owned() || ext == "jpeg".to_owned() {
        Some("image/jpeg")
    } else if ext == "gif".to_owned() {
        Some("image/gif")
    } else if ext == "webp".to_owned() {
        Some("image/webp")
    } else if ext == "svg".to_owned() {
        Some("image/svg+xml")
    } else if ext == "ico".to_owned() {
        Some("image/x-icon")
    } else if ext == "woff".to_owned() {
        Some("font/woff")
    } else if ext == "woff2".to_owned() {
        Some("font/woff2")
    } else if ext == "ttf".to_owned() {
        Some("font/ttf")
    } else if ext == "eot".to_owned() {
        Some("application/vnd.ms-fontobject")
    } else if ext == "pdf".to_owned() {
        Some("application/pdf")
    } else if ext == "mp3".to_owned() {
        Some("audio/mpeg")
    } else if ext == "mp4".to_owned() {
        Some("video/mp4")
    } else {
        None
    }
}

/// The characters after position `k`.
pub open spec fn slice_chars_view(s: Seq<char>, k: int) -> Seq<char> {
    s.subrange(k + 1, s.len() as int)
}

/// The pieces `str::split_inclusive('\n')` yields: every line with its `\n`,
/// and the text after the last `\n` when it is not empty.
pub open spec fn inclusive_lines(s: Seq<char>) -> Seq<Seq<char>> {
    let p = split_char(s, '\n');
    let n = p.len();
    let full = Seq::new((n - 1) as nat, |i: int| p[i] + seq!['\n']);
    if p[n - 1].len() > 0 {
        full.push(p[n - 1])
    } else {
        full
    }
}

/// `svn diff` output split at its `Index: <path>` lines into (path, text)
/// pairs; paths relative to `root`, lines before the first index dropped.
pub open spec fn diff_pieces(ls: Seq<Seq<char>>, root: Seq<char>) -> Seq<(Seq<char>, Seq<char>)>
    decreases ls.len(),
{
    if ls.len() == 0 {
        Seq::empty()
    } else {
        let prev = diff_pieces(ls.drop_last(), root);
        let l = ls.last();
        if starts_with(l, "Index: "@) {
            prev.push((relative_to(trim_end(l.skip(7)), root), Seq::empty()))
        } else if prev.len() > 0 {
            prev.update(prev.len() - 1, (prev.last().0, prev.last().1 + l))
        } else {
            prev
        }
    }
}

/// The pairs of texts of a list of string pairs.
pub open spec fn pair_texts(v: Seq<(String, String)>) -> Seq<(Seq<char>, Seq<char>)> {
    v.map_values(|p: (String, String)| (p.0@, p.1@))
}

/// The lines of `s` as `split_inclusive('\n')` yields them.
pub fn inclusive_lines_of(s: &[char]) -> (out: Vec<Vec<char>>)
    ensures
        out@.map_values(|v: Vec<char>| v@) == inclusive_lines(s@),
{
    let pieces = split_on(s, '\n');
    proof {
        crate::strings::lemma_split_char_len(s@, '\n');
    }
    let n = pieces.len();
    let mut out: Vec<Vec<char>> = Vec::new();
    let mut i: usize = 0;
    while i + 1 < n
        invariant
            n == pieces@.len() == split_char(s@, '\n').len(),
            n >= 1,
            i < n,
            forall|j: int| 0 <= j < n ==> #[trigger] pieces@[j]@ == split_char(s@, '\n')[j],
            out@.len() == i,
            forall|j: int| 0 <= j < i ==> #[trigger] out@[j]@ == split_char(s@, '\n')[j] + seq!['\n'],
        decreases n - i,
    {
        let mut line = slice_chars(pieces[i].as_slice(), 0, pieces[i].len());
        proof {
            assert(line@ =~= pieces@[i as int]@);
        }
        line.push('\n');
        out.push(line);
        i = i + 1;
    }
    if pieces[n - 1].len() > 0 {
        let last = slice_chars(pieces[n - 1].as_slice(), 0, pieces[n - 1].len());
        proof {
            assert(last@ =~= pieces@[n - 1]@);
        }
        out.push(last);
    }
    proof {
        assert(out@.map_values(|v: Vec<char>| v@) =~= inclusive_lines(s@));
    }
    out
}

/// Splits `svn diff` output at its `Index: <path>` lines. Keys are paths
/// relative to `folder` with `/` separators.
pub fn split_diff(output: &str, folder: &str) -> (files: Vec<(String, String)>)
    ensures
        pair_texts(files@) == diff_pieces(inclusive_lines(output@), root_key(folder@)),
{
    let root = trim_end_of(slashed_chars(to_chars(folder).as_slice()).as_slice(), '/');
    let chars = to_chars(output);
    let ls = inclusive_lines_of(chars.as_slice());
    let ghost lv = inclusive_lines(output@);
    let marker = to_chars("Index: ");
    proof {
        reveal_strlit("Index: ");
    }
    let mut files: Vec<(String, String)> = Vec::new();
    let mut i: usize = 0;
    while i < ls.len()
        invariant
            i <= ls@.len(),
            ls@.map_values(|v: Vec<char>| v@) == lv,
            root@ == root_key(folder@),
            marker@ == "Index: "@,
            marker@.len() == 7,
            pair_texts(files@) == diff_pieces(lv.take(i as int), root@),
        decreases ls@.len() - i,
    {
        proof {
            assert(lv.take(i + 1).drop_last() =~= lv.take(i as int));
            assert(lv.take(i + 1).last() == ls@[i as int]@);
        }
        let line = &ls[i];
        if has_prefix(line.as_slice(), marker.as_slice()) {
            let rest = slice_chars(line.as_slice(), 7, line.len());
            let trimmed = crate::strings::trim_end_space(rest.as_slice());
            proof {
                assert(rest@ =~= line@.skip(7));
            }
            let path = relative_path(from_chars(trimmed.as_slice()).as_str(), root.as_slice());
            files.push((path, String::new()));
            proof {
                assert(pair_texts(files@) =~= diff_pieces(lv.take(i + 1), root@));
            }
        } else if files.len() > 0 {
            let last = files.len() - 1;
            let ghost before = pair_texts(files@);
            let (path, mut text) = files.remove(last);
            text.append(from_chars(line.as_slice()).as_str());
            files.push((path, text));
            proof {
                assert(pair_texts(files@) =~= before.update(before.len() - 1, (before.last().0, before.last().1 + line@)));
            }
        }
        i = i + 1;
    }
    proof {
        assert(lv.take(ls@.len() as int) =~= lv);
    }
    files
}

} // verus!
