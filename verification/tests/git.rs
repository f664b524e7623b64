use git_delayed::git::{
    get_current_branch, has_unstaged_changes, needs_push, remote_branch_name, GitError,
};

#[test]
fn a_branch_needs_a_push_when_its_remote_differs_or_is_missing() {
    assert_eq!(needs_push(Some("abc"), Some(Some("abc"))), Ok(false));
    assert_eq!(needs_push(Some("abc"), Some(Some("abd"))), Ok(true));
    assert_eq!(needs_push(Some("abc"), None), Ok(true));
    assert_eq!(needs_push(Some("abc"), Some(None)), Err(GitError::NoRemoteCommit));
    assert_eq!(needs_push(None, Some(Some("abc"))), Err(GitError::NoLocalCommit));
    assert_eq!(needs_push(None, None), Err(GitError::NoLocalCommit));
    assert_eq!(needs_push(None, Some(None)), Err(GitError::NoLocalCommit));
    assert_eq!(GitError::NoLocalCommit.message(), "no local commit");
    assert_eq!(GitError::NoRemoteCommit.message(), "no remote commit");
    assert_eq!(GitError::NoBranchName.message(), "couldn't get branch name");
}

#[test]
fn git_answers() {
    assert_eq!(remote_branch_name("main"), "origin/main");
    assert_eq!(remote_branch_name("feature/x"), "origin/feature/x");
    assert_eq!(get_current_branch(Some("main".to_string())), Ok("main".to_string()));
    assert_eq!(get_current_branch(None), Err(GitError::NoBranchName));
    assert!(has_unstaged_changes(1));
    assert!(has_unstaged_changes(usize::MAX));
    assert!(!has_unstaged_changes(0));
}
