//! The command surface: the parsed command-line shapes the router works on,
//! and the state-filter selection rule.

use vstd::prelude::*;

verus! {

/// The parsed top-level invocation.
#[derive(Debug)]
pub struct Cli {
    /// Profile to use, overriding the default.
    pub profile: Option<String>,
    /// Output in JSON format.
    pub json: bool,
    pub command: Commands,
}

/// The top-level verbs.
#[derive(Debug)]
pub enum Commands {
    /// Initialize configuration.
    Init,
    /// Issue operations.
    Issue(IssueCommand),
    /// Repository operations.
    Repo(RepoCommand),
}

/// The issue verbs.
#[derive(Debug)]
pub enum IssueCommand {
    /// List issues, from one repository or across all of them.
    List { all: bool, open: bool, closed: bool, repo: Option<String>, label: Vec<String> },
    /// Show one issue with its comments.
    Show { number: i64, repo: Option<String> },
    /// Create a new issue.
    Create { title: String, repo: Option<String>, body: Option<String>, label: Vec<String> },
    /// Add a comment to an issue.
    Comment { number: i64, text: String, repo: Option<String> },
    /// Close an issue.
    Close { number: i64, repo: Option<String> },
    /// Reopen an issue.
    Reopen { number: i64, repo: Option<String> },
    /// Add a label to an issue.
    Label { number: i64, label: String, repo: Option<String> },
    /// Remove a label from an issue.
    Unlabel { number: i64, label: String, repo: Option<String> },
}

/// The repository verbs.
#[derive(Debug)]
pub enum RepoCommand {
    /// List repositories accessible to the current profile.
    List,
}

/// The state filter a listing resolves to: `closed` when asked for, `open`
/// otherwise — also when neither flag is given.
pub fn select_state(open: bool, closed: bool) -> (r: &'static str)
    ensures
        closed ==> r@ == "closed"@,
        !closed ==> r@ == "open"@,
{
    let _ = open;
    if closed {
        "closed"
    } else {
        "open"
    }
}

} // verus!
