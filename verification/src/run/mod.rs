//! The release run's decisions: its model, journal, change set, draft, AI
//! material and check-table updates. Running the steps is the app's.

use vstd::prelude::*;

pub mod ai_flow;
pub mod ai_view;
pub mod assets_only;
pub mod assist;
pub mod staging;
pub mod changes;
pub mod draft;
pub mod explain;
pub mod files;
pub mod flow;
pub mod hook;
pub mod journal;
pub mod material;
pub mod model;
pub mod snapshot;
pub mod steps;
pub mod svn_steps;

use model::{capitalised, ErrorView};

verus! {

broadcast use vstd::string::group_string_axioms;

/// Why a run stopped early.
#[derive(Debug)]
pub struct RunFailure {
    /// The error to show.
    pub error: ErrorView,
    /// Whether the developer cancelled.
    pub cancelled: bool,
}

impl RunFailure {
    /// A failure with a fixed code.
    pub fn new(code: &str, message: String, fix: Option<String>) -> (f: RunFailure)
        ensures
            f.error.code@ == code@,
            f.error.message == message,
            f.error.fix == fix,
            !f.cancelled,
    {
        RunFailure { error: ErrorView::new(code, message, fix), cancelled: false }
    }

    /// The developer cancelled.
    pub fn cancelled() -> (f: RunFailure)
        ensures
            f.error.code@ == "CANCELLED"@,
            f.error.message@ == "The release was cancelled."@,
            f.error.fix is None,
            f.cancelled,
    {
        RunFailure {
            error: ErrorView::new("CANCELLED", "The release was cancelled.".to_owned(), None),
            cancelled: true,
        }
    }

    /// The failure when another run already holds the plugin's lock.
    pub fn locked() -> (f: RunFailure)
        ensures
            f.error.code@ == "RUN_LOCKED"@,
            f.error.message@ == "Another SVNpush window is already releasing this plugin."@,
            f.error.fix matches Some(x) && x@ == "Wait for that release to finish, or close the other window."@,
            !f.cancelled,
    {
        RunFailure::new(
            "RUN_LOCKED",
            "Another SVNpush window is already releasing this plugin.".to_owned(),
            Some("Wait for that release to finish, or close the other window.".to_owned()),
        )
    }

    /// A filesystem failure: `action` on `path` failed with `detail`.
    pub fn io(action: &str, path: &str, detail: &str) -> (f: RunFailure)
        ensures
            f.error.code@ == "RUN_IO"@,
            f.error.message@ == "Could not "@ + action@ + " "@ + path@ + ": "@ + detail@,
            f.error.fix is None,
            !f.cancelled,
    {
        let mut m = "Could not ".to_owned();
        m.append(action);
        m.append(" ");
        m.append(path);
        m.append(": ");
        m.append(detail);
        RunFailure::new("RUN_IO", m, None)
    }

    /// From a coded error's code, message and fix: a cancellation when the
    /// code is `CANCELLED`, else the error with its message capitalised.
    pub fn from_coded(code: &str, message: &str, fix: Option<String>) -> (f: RunFailure)
        ensures
            code@ == "CANCELLED"@ ==> f.cancelled && f.error.code@ == "CANCELLED"@
                && f.error.message@ == "The release was cancelled."@ && f.error.fix is None,
            code@ != "CANCELLED"@ ==> !f.cancelled && f.error.code@ == code@ && f.error.message@ == capitalised(message@)
                && f.error.fix == fix,
    {
        if code.to_owned() == "CANCELLED".to_owned() {
            RunFailure::cancelled()
        } else {
            RunFailure { error: ErrorView::from_coded(code, message, fix), cancelled: false }
        }
    }
}

} // verus!
