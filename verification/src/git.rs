//! What the repository says, and what follows from it. Asking the
//! repository is the caller's part; what is here judges the answers.

use crate::text::{same_text, slice_text, text_of};
use vstd::prelude::*;
use vstd::string::StringExecFns;

verus! {

/// Why a question to the repository has no answer.
#[derive(Clone, Copy, Debug, PartialEq, Eq, Structural)]
pub enum GitError {
    /// `HEAD` has no name that could be shown.
    NoBranchName,
    /// The local branch points at no commit.
    NoLocalCommit,
    /// The remote branch points at no commit.
    NoRemoteCommit,
}

impl GitError {
    /// The sentence that tells the user what went wrong.
    pub open spec fn text(self) -> Seq<char> {
        match self {
            GitError::NoBranchName => "couldn't get branch name"@,
            GitError::NoLocalCommit => "no local commit"@,
            GitError::NoRemoteCommit => "no remote commit"@,
        }
    }

    /// The sentence that tells the user what went wrong.
    pub fn message(&self) -> (s: &'static str)
        ensures
            s@ == self.text(),
    {
        match self {
            GitError::NoBranchName => "couldn't get branch name",
            GitError::NoLocalCommit => "no local commit",
            GitError::NoRemoteCommit => "no remote commit",
        }
    }
}

/// The name under which the remote's copy of `branch` is tracked.
pub open spec fn remote_name(branch: Seq<char>) -> Seq<char> {
    "origin/"@ + branch
}

/// The name under which the remote's copy of `branch` is tracked.
pub fn remote_branch_name(branch: &str) -> (name: String)
    ensures
        name@ == remote_name(branch@),
{
    let mut name = String::from_str("origin/");
    name.append(branch);
    name
}

/// The current branch, from the short name of `HEAD`: an error where it has
/// none.
pub fn get_current_branch(shorthand: Option<String>) -> (branch: Result<String, GitError>)
    ensures
        match text_of(shorthand) {
            Some(name) => branch matches Ok(b) && b@ == name,
            None => branch == Err::<String, GitError>(GitError::NoBranchName),
        },
{
    match shorthand {
        Some(name) => Ok(name),
        None => Err(GitError::NoBranchName),
    }
}

/// Whether the working tree holds uncommitted changes, from the number of
/// entries its status lists.
pub fn has_unstaged_changes(status_entries: usize) -> (dirty: bool)
    ensures
        dirty == (status_entries > 0),
{
    status_entries > 0
}

/// What is known of the remote's copy of a branch: `None` where there is no
/// such copy, else the commit it points at, if any.
pub open spec fn remote_text(remote: Option<Option<&str>>) -> Option<Option<Seq<char>>> {
    match remote {
        Some(commit) => Some(slice_text(commit)),
        None => None,
    }
}

/// Whether a branch holds commits that its remote lacks.
///
/// A local branch that points at no commit is an error. A branch whose
/// remote copy does not exist needs a push. A remote copy that points at no
/// commit is an error. Else the branch needs a push exactly where the two
/// point at different commits.
pub open spec fn push_needed(local: Option<Seq<char>>, remote: Option<Option<Seq<char>>>) -> Result<
    bool,
    GitError,
> {
    match local {
        None => Err(GitError::NoLocalCommit),
        Some(ours) => match remote {
            None => Ok(true),
            Some(None) => Err(GitError::NoRemoteCommit),
            Some(Some(theirs)) => Ok(ours != theirs),
        },
    }
}

/// Whether a branch needs a push, from the commit it points at and what is
/// known of its remote copy.
pub fn needs_push(local: Option<&str>, remote: Option<Option<&str>>) -> (needed: Result<
    bool,
    GitError,
>)
    ensures
        needed == push_needed(slice_text(local), remote_text(remote)),
{
    match local {
        None => Err(GitError::NoLocalCommit),
        Some(ours) => match remote {
            None => Ok(true),
            Some(None) => Err(GitError::NoRemoteCommit),
            Some(Some(theirs)) => Ok(!same_text(ours, theirs)),
        },
    }
}

/// A branch whose remote copy points at the same commit needs no push;
/// one whose remote copy points elsewhere, or is missing, needs one.
pub proof fn law_push_needed_exactly_when_behind(local: Seq<char>, remote: Option<Seq<char>>)
    ensures
        push_needed(Some(local), Some(Some(local))) == Ok::<bool, GitError>(false),
        remote matches Some(theirs) && theirs != local ==> push_needed(Some(local), Some(remote))
            == Ok::<bool, GitError>(true),
        push_needed(Some(local), None) == Ok::<bool, GitError>(true),
{
}

} // verus!
