use git_delayed::executor::{
    begin_push, execute_commit, execute_push, execute_push_with_branch, CommandOutput, GitAction,
    GitEvent, PushResult, PushState,
};

fn output(success: bool, stdout: &str, stderr: &str) -> CommandOutput {
    CommandOutput { success, stdout: stdout.to_string(), stderr: stderr.to_string() }
}

fn ok() -> GitEvent {
    GitEvent::Command(Ok(output(true, "", "")))
}

fn failed(stderr: &str) -> GitEvent {
    GitEvent::Command(Ok(output(false, "", stderr)))
}

/// A repository as the push sees it, with a script of which commands fail.
struct Repository {
    branch: String,
    dirty: bool,
    stashes: usize,
    needs_push: bool,
    fail_checkout_of: Option<String>,
    fail_push: bool,
    fail_stash: bool,
    fail_pop: bool,
    log: Vec<String>,
    warnings: Vec<String>,
}

impl Repository {
    fn new(branch: &str, dirty: bool) -> Repository {
        Repository {
            branch: branch.to_string(),
            dirty,
            stashes: 0,
            needs_push: true,
            fail_checkout_of: None,
            fail_push: false,
            fail_stash: false,
            fail_pop: false,
            log: Vec::new(),
            warnings: Vec::new(),
        }
    }

    fn answer(&mut self, action: &GitAction) -> GitEvent {
        match action {
            GitAction::CurrentBranch => GitEvent::CurrentBranch(Ok(self.branch.clone())),
            GitAction::NeedsPush { branch } => {
                self.log.push(format!("needs-push {}", branch));
                GitEvent::NeedsPush(Ok(self.needs_push))
            }
            GitAction::Status => GitEvent::Status(Ok(self.dirty)),
            GitAction::Stash => {
                self.log.push("stash".to_string());
                if self.fail_stash {
                    return failed("cannot stash");
                }
                self.dirty = false;
                self.stashes += 1;
                ok()
            }
            GitAction::Checkout { branch } => {
                self.log.push(format!("checkout {}", branch));
                if self.fail_checkout_of.as_deref() == Some(branch.as_str()) {
                    return failed("pathspec did not match");
                }
                self.branch = branch.clone();
                ok()
            }
            GitAction::Push => {
                self.log.push(format!("push {}", self.branch));
                if self.fail_push {
                    failed("rejected")
                } else {
                    GitEvent::Command(Ok(output(true, "out", "To origin")))
                }
            }
            GitAction::StashPop => {
                self.log.push("pop".to_string());
                assert!(self.stashes > 0);
                if self.fail_pop {
                    return failed("conflict");
                }
                self.stashes -= 1;
                self.dirty = true;
                ok()
            }
            GitAction::Finish => unreachable!(),
        }
    }

    fn push(&mut self, branch: Option<&str>) -> Result<PushResult, String> {
        let (mut state, mut action) = begin_push(branch.map(|b| b.to_string()));
        for _ in 0..20 {
            if let GitAction::Finish = action {
                match state {
                    PushState::Done { result, warnings } => {
                        self.warnings = warnings;
                        return result;
                    }
                    other => panic!("finished in {:?}", other),
                }
            }
            let event = self.answer(&action);
            let next = execute_push_with_branch(state, event);
            state = next.0;
            action = next.1;
        }
        panic!("the push did not end");
    }
}

fn text(result: Result<PushResult, String>) -> String {
    match result {
        Ok(PushResult::Success(output)) => format!("pushed: {}", output),
        Ok(PushResult::NothingToPush) => "nothing".to_string(),
        Err(error) => format!("error: {}", error),
    }
}

#[test]
fn commit_success_gives_the_output() {
    assert_eq!(execute_commit(output(true, "[main 1a2b3c] msg\n", "warn")), Ok("[main 1a2b3c] msg\n".to_string()));
    assert_eq!(execute_commit(output(true, "", "")), Ok(String::new()));
}

#[test]
fn commit_failure_quotes_stderr() {
    assert_eq!(
        execute_commit(output(false, "On branch main", "nothing to commit")),
        Err("commit failed: nothing to commit".to_string())
    );
    assert_eq!(execute_commit(output(false, "x", "")), Err("commit failed: ".to_string()));
}

#[test]
fn push_report_maps_the_result() {
    assert_eq!(execute_push(Ok(PushResult::Success("done".to_string()))), Ok("done".to_string()));
    assert_eq!(execute_push(Ok(PushResult::NothingToPush)), Ok("nothing to push".to_string()));
    assert_eq!(execute_push(Err("push failed: no".to_string())), Err("push failed: no".to_string()));
}

#[test]
fn nothing_to_push_touches_nothing() {
    let mut repository = Repository::new("main", true);
    repository.needs_push = false;
    let result = repository.push(Some("feature"));
    assert_eq!(text(result), "nothing");
    assert_eq!(repository.log, ["needs-push feature"]);
    assert_eq!(repository.branch, "main");
    assert!(repository.dirty);
    assert_eq!(repository.stashes, 0);
}

#[test]
fn nothing_to_push_stays_done_whatever_follows() {
    let (state, action) = begin_push(None);
    assert!(matches!(action, GitAction::CurrentBranch));
    let (state, action) = execute_push_with_branch(state, GitEvent::CurrentBranch(Ok("main".to_string())));
    assert!(matches!(&action, GitAction::NeedsPush { branch } if branch == "main"));
    let (state, action) = execute_push_with_branch(state, GitEvent::NeedsPush(Ok(false)));
    assert!(matches!(action, GitAction::Finish));
    assert!(matches!(&state, PushState::Done { result: Ok(PushResult::NothingToPush), warnings } if warnings.is_empty()));
    let (state, action) = execute_push_with_branch(state, ok());
    assert!(matches!(action, GitAction::Finish));
    let (state, action) = execute_push_with_branch(state, GitEvent::Status(Ok(true)));
    assert!(matches!(action, GitAction::Finish));
    assert!(matches!(state, PushState::Done { result: Ok(PushResult::NothingToPush), warnings } if warnings.is_empty()));
}

#[test]
fn push_of_other_branch_when_all_succeeds() {
    let mut repository = Repository::new("A", true);
    let result = repository.push(Some("B"));
    assert_eq!(text(result), "pushed: outTo origin");
    assert_eq!(
        repository.log,
        ["needs-push B", "stash", "checkout B", "push B", "checkout A", "pop"]
    );
    assert_eq!(repository.branch, "A");
    assert!(repository.dirty);
    assert_eq!(repository.stashes, 0);
}

#[test]
fn push_of_other_branch_when_the_push_fails() {
    let mut repository = Repository::new("A", true);
    repository.fail_push = true;
    let result = repository.push(Some("B"));
    assert_eq!(text(result), "error: push failed: rejected");
    assert_eq!(
        repository.log,
        ["needs-push B", "stash", "checkout B", "push B", "checkout A", "pop"]
    );
    assert_eq!(repository.branch, "A");
    assert!(repository.dirty);
    assert_eq!(repository.stashes, 0);
}

#[test]
fn push_of_other_branch_when_the_checkout_fails() {
    let mut repository = Repository::new("A", true);
    repository.fail_checkout_of = Some("B".to_string());
    let result = repository.push(Some("B"));
    assert_eq!(text(result), "error: couldn't switch to branch B: pathspec did not match");
    assert_eq!(repository.log, ["needs-push B", "stash", "checkout B", "pop"]);
    assert_eq!(repository.branch, "A");
    assert!(repository.dirty);
    assert_eq!(repository.stashes, 0);
}

#[test]
fn push_of_other_branch_with_a_clean_tree() {
    let mut repository = Repository::new("A", false);
    let result = repository.push(Some("B"));
    assert_eq!(text(result), "pushed: outTo origin");
    assert_eq!(repository.log, ["needs-push B", "checkout B", "push B", "checkout A"]);
    assert_eq!(repository.branch, "A");

    let mut repository = Repository::new("A", false);
    repository.fail_checkout_of = Some("B".to_string());
    let result = repository.push(Some("B"));
    assert_eq!(text(result), "error: couldn't switch to branch B: pathspec did not match");
    assert_eq!(repository.log, ["needs-push B", "checkout B"]);
}

#[test]
fn push_of_the_current_branch() {
    for branch in [None, Some("A")] {
        let mut repository = Repository::new("A", true);
        let result = repository.push(branch);
        assert_eq!(text(result), "pushed: outTo origin");
        assert_eq!(repository.log, ["needs-push A", "stash", "push A", "pop"]);
        assert!(repository.dirty);
        assert_eq!(repository.stashes, 0);
    }
    let mut repository = Repository::new("A", false);
    repository.fail_push = true;
    assert_eq!(text(repository.push(None)), "error: push failed: rejected");
    assert_eq!(repository.log, ["needs-push A", "push A"]);
}

#[test]
fn a_stash_that_fails_is_not_popped() {
    let mut repository = Repository::new("A", true);
    repository.fail_stash = true;
    let result = repository.push(Some("B"));
    assert_eq!(text(result), "pushed: outTo origin");
    assert_eq!(repository.log, ["needs-push B", "stash", "checkout B", "push B", "checkout A"]);
    assert_eq!(repository.branch, "A");
    assert!(repository.dirty);
}

#[test]
fn errors_before_anything_changed_end_the_push() {
    let (state, _) = begin_push(Some("B".to_string()));
    let (state, action) = execute_push_with_branch(state, GitEvent::CurrentBranch(Err("no HEAD".to_string())));
    assert!(matches!(action, GitAction::Finish));
    assert!(matches!(&state, PushState::Done { result: Err(e), .. } if e == "no HEAD"));

    let (state, _) = begin_push(Some("B".to_string()));
    let (state, _) = execute_push_with_branch(state, GitEvent::CurrentBranch(Ok("A".to_string())));
    let (state, action) = execute_push_with_branch(state, GitEvent::NeedsPush(Err("no branch".to_string())));
    assert!(matches!(action, GitAction::Finish));
    assert!(matches!(&state, PushState::Done { result: Err(e), .. } if e == "no branch"));

    let (state, _) = begin_push(Some("B".to_string()));
    let (state, _) = execute_push_with_branch(state, GitEvent::CurrentBranch(Ok("A".to_string())));
    let (state, action) = execute_push_with_branch(state, GitEvent::NeedsPush(Ok(true)));
    assert!(matches!(action, GitAction::Status));
    let (state, action) = execute_push_with_branch(state, GitEvent::Status(Err("index locked".to_string())));
    assert!(matches!(action, GitAction::Finish));
    assert!(matches!(&state, PushState::Done { result: Err(e), .. } if e == "index locked"));

    let (state, _) = begin_push(Some("B".to_string()));
    let (state, _) = execute_push_with_branch(state, GitEvent::CurrentBranch(Ok("A".to_string())));
    let (state, _) = execute_push_with_branch(state, GitEvent::NeedsPush(Ok(true)));
    let (state, action) = execute_push_with_branch(state, GitEvent::Status(Ok(true)));
    assert!(matches!(action, GitAction::Stash));
    let (state, action) = execute_push_with_branch(state, GitEvent::Command(Err("git not found".to_string())));
    assert!(matches!(action, GitAction::Finish));
    assert!(matches!(&state, PushState::Done { result: Err(e), .. } if e == "git not found"));
}

#[test]
fn commands_that_cannot_be_run_still_lead_back() {
    // The checkout cannot be run: the stash is popped, the error is the
    // command's own.
    let (state, _) = begin_push(Some("B".to_string()));
    let (state, _) = execute_push_with_branch(state, GitEvent::CurrentBranch(Ok("A".to_string())));
    let (state, _) = execute_push_with_branch(state, GitEvent::NeedsPush(Ok(true)));
    let (state, _) = execute_push_with_branch(state, GitEvent::Status(Ok(true)));
    let (state, action) = execute_push_with_branch(state, ok());
    assert!(matches!(&action, GitAction::Checkout { branch } if branch == "B"));
    let (state, action) = execute_push_with_branch(state, GitEvent::Command(Err("spawn failed".to_string())));
    assert!(matches!(action, GitAction::StashPop));
    let (state, action) = execute_push_with_branch(state, failed("pop failed too"));
    assert!(matches!(action, GitAction::Finish));
    assert!(matches!(&state, PushState::Done { result: Err(e), warnings }
        if e == "spawn failed" && warnings == &["couldn't pop the stash: pop failed too"]));

    // The push cannot be run: the branch and the stash are still put back,
    // and how that goes changes nothing.
    let (state, _) = begin_push(Some("B".to_string()));
    let (state, _) = execute_push_with_branch(state, GitEvent::CurrentBranch(Ok("A".to_string())));
    let (state, _) = execute_push_with_branch(state, GitEvent::NeedsPush(Ok(true)));
    let (state, _) = execute_push_with_branch(state, GitEvent::Status(Ok(true)));
    let (state, _) = execute_push_with_branch(state, ok());
    let (state, action) = execute_push_with_branch(state, ok());
    assert!(matches!(action, GitAction::Push));
    let (state, action) = execute_push_with_branch(state, GitEvent::Command(Err("no git".to_string())));
    assert!(matches!(&action, GitAction::Checkout { branch } if branch == "A"));
    let (state, action) = execute_push_with_branch(state, failed("cannot go back"));
    assert!(matches!(action, GitAction::StashPop));
    let (state, action) = execute_push_with_branch(state, GitEvent::Command(Err("no git".to_string())));
    assert!(matches!(action, GitAction::Finish));
    assert!(matches!(&state, PushState::Done { result: Err(e), warnings } if e == "no git"
        && warnings == &["couldn't switch back: cannot go back", "couldn't pop the stash: no git"]));
}

#[test]
fn an_answer_that_does_not_fit_ends_the_push() {
    let (state, _) = begin_push(None);
    let (state, action) = execute_push_with_branch(state, GitEvent::Status(Ok(true)));
    assert!(matches!(action, GitAction::Finish));
    assert!(matches!(&state, PushState::Done { result: Err(e), .. } if e == "unexpected answer from git"));

    let (state, _) = begin_push(None);
    let (state, _) = execute_push_with_branch(state, GitEvent::CurrentBranch(Ok("A".to_string())));
    let (state, action) = execute_push_with_branch(state, ok());
    assert!(matches!(action, GitAction::Finish));
    assert!(matches!(&state, PushState::Done { result: Err(e), .. } if e == "unexpected answer from git"));
}

#[test]
fn eight_answers_end_any_push() {
    fn event(kind: usize) -> GitEvent {
        match kind {
            0 => GitEvent::CurrentBranch(Ok("A".to_string())),
            1 => GitEvent::NeedsPush(Ok(true)),
            2 => GitEvent::Status(Ok(true)),
            3 => ok(),
            4 => failed("no"),
            5 => GitEvent::Command(Err("cannot run".to_string())),
            6 => GitEvent::Status(Ok(false)),
            _ => GitEvent::NeedsPush(Err("no".to_string())),
        }
    }
    // Every run that follows the asking, and a good many that do not.
    let mut seed: u64 = 7;
    for round in 0..4000 {
        let (mut state, _) = begin_push(if round % 2 == 0 { Some("B".to_string()) } else { None });
        for step in 0..8 {
            seed = seed.wrapping_mul(6364136223846793005).wrapping_add(1442695040888963407);
            let kind = if round % 3 == 0 {
                [0, 1, 2, 3, 3, 3, 3, 3][step]
            } else {
                (seed >> 33) as usize % 8
            };
            let next = execute_push_with_branch(state, event(kind));
            state = next.0;
            if step == 7 {
                assert!(matches!(next.1, GitAction::Finish));
            }
        }
        assert!(matches!(state, PushState::Done { .. }));
    }
}

#[test]
fn a_clean_way_back_leaves_no_warnings() {
    for (fail_checkout, fail_push) in [(false, false), (false, true), (true, false)] {
        let mut repository = Repository::new("A", true);
        repository.fail_push = fail_push;
        if fail_checkout {
            repository.fail_checkout_of = Some("B".to_string());
        }
        let _ = repository.push(Some("B"));
        assert!(repository.warnings.is_empty());
    }
}

#[test]
fn a_pop_that_fails_is_a_warning_and_not_the_result() {
    let mut repository = Repository::new("A", true);
    repository.fail_pop = true;
    let result = repository.push(Some("B"));
    assert_eq!(text(result), "pushed: outTo origin");
    assert_eq!(repository.warnings, ["couldn't pop the stash: conflict"]);
    assert_eq!(repository.branch, "A");

    let mut repository = Repository::new("A", true);
    repository.fail_pop = true;
    repository.fail_checkout_of = Some("B".to_string());
    let result = repository.push(Some("B"));
    assert_eq!(text(result), "error: couldn't switch to branch B: pathspec did not match");
    assert_eq!(repository.warnings, ["couldn't pop the stash: conflict"]);

    let mut repository = Repository::new("A", true);
    repository.fail_push = true;
    repository.fail_checkout_of = Some("A".to_string());
    let result = repository.push(Some("B"));
    assert_eq!(text(result), "error: push failed: rejected");
    assert_eq!(repository.warnings, ["couldn't switch back: pathspec did not match"]);
    assert_eq!(repository.branch, "B");
}
