//! Application error messages.
use vstd::prelude::*;

use crate::{BUILD_INFO, ISSUE_TRACKER};

verus! {

/// Placeholder error type of the application.
pub struct Error;

/// The text shown to the user when an internal error `err` happened.
pub open spec fn bug_report_text(err: Seq<char>) -> Seq<char> {
    "Application error: "@ + err
        + "\n\nIf you wish to report this bug to <"@ + ISSUE_TRACKER@
        + ">, you can include the following build info string:\n\n"@ + BUILD_INFO@
}

impl Error {
    /// Wraps an error message into a text that invites the user to report the bug.
    pub fn suggest_bug_report(err: &str) -> (ret: String)
        ensures
            ret@ == bug_report_text(err@),
    {
        let mut ret = String::from_str("Application error: ");
        ret.append(err);
        ret.append("\n\nIf you wish to report this bug to <");
        ret.append(ISSUE_TRACKER);
        ret.append(">, you can include the following build info string:\n\n");
        ret.append(BUILD_INFO);
        ret
    }
}

} // verus!
