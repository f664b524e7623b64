//! Running one operation against its repository.
//!
//! A commit is one command. A push is an exchange: the branch to push may
//! not be the one checked out and the working tree may hold changes, so the
//! push is wrapped in a stash and a checkout, both undone whatever the push
//! came to. The exchange is a function from where it stands and what git
//! just answered to where it stands next and what to ask git for; whoever
//! drives it runs git and reports back.

use crate::text::text_of;
use vstd::prelude::*;
use vstd::string::StringExecFns;

verus! {

/// What a push came to when nothing failed.
#[derive(Clone, Debug)]
pub enum PushResult {
    /// The branch was pushed; what git printed.
    Success(String),
    /// The branch held nothing its remote lacks.
    NothingToPush,
}

/// A [`PushResult`] as mathematical values.
pub enum PushResultView {
    Success(Seq<char>),
    NothingToPush,
}

impl View for PushResult {
    type V = PushResultView;

    open spec fn view(&self) -> PushResultView {
        match self {
            PushResult::Success(output) => PushResultView::Success(output@),
            PushResult::NothingToPush => PushResultView::NothingToPush,
        }
    }
}

/// What a git command left behind: whether it succeeded, and what it wrote.
#[derive(Clone, Debug)]
pub struct CommandOutput {
    pub success: bool,
    pub stdout: String,
    pub stderr: String,
}

/// A [`CommandOutput`] as mathematical values.
pub struct CommandOutputView {
    pub success: bool,
    pub stdout: Seq<char>,
    pub stderr: Seq<char>,
}

impl View for CommandOutput {
    type V = CommandOutputView;

    open spec fn view(&self) -> CommandOutputView {
        CommandOutputView { success: self.success, stdout: self.stdout@, stderr: self.stderr@ }
    }
}

/// The text of a result that holds text either way.
pub open spec fn text_result(result: Result<String, String>) -> Result<Seq<char>, Seq<char>> {
    match result {
        Ok(text) => Ok(text@),
        Err(error) => Err(error@),
    }
}

/// What a push came to, as mathematical values.
pub open spec fn push_outcome(result: Result<PushResult, String>) -> Result<
    PushResultView,
    Seq<char>,
> {
    match result {
        Ok(pushed) => Ok(pushed@),
        Err(error) => Err(error@),
    }
}

/// What a git command came to, as mathematical values; an error where the
/// command could not be run at all.
pub open spec fn command_reply(reply: Result<CommandOutput, String>) -> Result<
    CommandOutputView,
    Seq<char>,
> {
    match reply {
        Ok(output) => Ok(output@),
        Err(error) => Err(error@),
    }
}

/// What a commit came to: what git printed, or why it failed.
pub open spec fn commit_outcome(output: CommandOutputView) -> Result<Seq<char>, Seq<char>> {
    if output.success {
        Ok(output.stdout)
    } else {
        Err("commit failed: "@ + output.stderr)
    }
}

/// Judges the `git commit` that was run for an operation: its output where
/// it succeeded, else an error that quotes what git complained of.
pub fn execute_commit(output: CommandOutput) -> (result: Result<String, String>)
    ensures
        text_result(result) == commit_outcome(output@),
{
    if output.success {
        Ok(output.stdout)
    } else {
        let mut error = String::from_str("commit failed: ");
        error.append(output.stderr.as_str());
        Err(error)
    }
}

/// What a push without a branch of its own reports: git's output, or a
/// note that there was nothing to push.
pub open spec fn push_report(result: Result<PushResultView, Seq<char>>) -> Result<
    Seq<char>,
    Seq<char>,
> {
    match result {
        Ok(PushResultView::Success(output)) => Ok(output),
        Ok(PushResultView::NothingToPush) => Ok("nothing to push"@),
        Err(error) => Err(error),
    }
}

/// Turns what a push of the current branch came to into plain text.
pub fn execute_push(result: Result<PushResult, String>) -> (report: Result<String, String>)
    ensures
        text_result(report) == push_report(push_outcome(result)),
{
    match result {
        Ok(PushResult::Success(output)) => Ok(output),
        Ok(PushResult::NothingToPush) => Ok(String::from_str("nothing to push")),
        Err(error) => Err(error),
    }
}

/// What git is asked for.
#[derive(Clone, Debug)]
pub enum GitAction {
    /// Name the branch that is checked out.
    CurrentBranch,
    /// Say whether `branch` holds commits that `origin/<branch>` lacks; a
    /// branch without that remote counterpart does.
    NeedsPush { branch: String },
    /// Say whether the working tree holds uncommitted changes.
    Status,
    /// Stash the changes, untracked files included.
    Stash,
    /// Check out `branch`.
    Checkout { branch: String },
    /// Push.
    Push,
    /// Pop the stash.
    StashPop,
    /// Nothing more: the state holds what the push came to.
    Finish,
}

/// A [`GitAction`] as mathematical values.
pub enum GitActionView {
    CurrentBranch,
    NeedsPush { branch: Seq<char> },
    Status,
    Stash,
    Checkout { branch: Seq<char> },
    Push,
    StashPop,
    Finish,
}

impl View for GitAction {
    type V = GitActionView;

    open spec fn view(&self) -> GitActionView {
        match self {
            GitAction::CurrentBranch => GitActionView::CurrentBranch,
            GitAction::NeedsPush { branch } => GitActionView::NeedsPush { branch: branch@ },
            GitAction::Status => GitActionView::Status,
            GitAction::Stash => GitActionView::Stash,
            GitAction::Checkout { branch } => GitActionView::Checkout { branch: branch@ },
            GitAction::Push => GitActionView::Push,
            GitAction::StashPop => GitActionView::StashPop,
            GitAction::Finish => GitActionView::Finish,
        }
    }
}

/// What git answered.
#[derive(Debug)]
pub enum GitEvent {
    /// The branch that is checked out.
    CurrentBranch(Result<String, String>),
    /// Whether the branch asked about needs a push.
    NeedsPush(Result<bool, String>),
    /// Whether the working tree holds uncommitted changes.
    Status(Result<bool, String>),
    /// How a stash, checkout, push or pop went; an error where the command
    /// could not be run at all.
    Command(Result<CommandOutput, String>),
}

/// A [`GitEvent`] as mathematical values.
pub enum GitEventView {
    CurrentBranch(Result<Seq<char>, Seq<char>>),
    NeedsPush(Result<bool, Seq<char>>),
    Status(Result<bool, Seq<char>>),
    Command(Result<CommandOutputView, Seq<char>>),
}

/// A yes or no, or an error, as mathematical values.
pub open spec fn flag_result(result: Result<bool, String>) -> Result<bool, Seq<char>> {
    match result {
        Ok(flag) => Ok(flag),
        Err(error) => Err(error@),
    }
}

impl View for GitEvent {
    type V = GitEventView;

    open spec fn view(&self) -> GitEventView {
        match self {
            GitEvent::CurrentBranch(result) => GitEventView::CurrentBranch(text_result(*result)),
            GitEvent::NeedsPush(result) => GitEventView::NeedsPush(flag_result(*result)),
            GitEvent::Status(result) => GitEventView::Status(flag_result(*result)),
            GitEvent::Command(reply) => GitEventView::Command(command_reply(*reply)),
        }
    }
}

/// Where a push stands.
#[derive(Debug)]
pub enum PushState {
    /// Asked for the current branch. `branch` is what the push was
    /// scheduled for.
    AwaitBranch { branch: Option<String> },
    /// Asked whether `target` needs a push.
    AwaitNeedsPush { current: String, target: String },
    /// Asked whether the working tree holds changes.
    AwaitStatus { current: String, target: String },
    /// Asked for the changes to be stashed.
    AwaitStash { current: String, target: String },
    /// Asked for `target` to be checked out.
    AwaitCheckout { current: String, target: String, stashed: bool },
    /// The checkout failed; asked for the stash to be popped before the
    /// push is given up with `error`.
    AwaitUnstash { error: String },
    /// Asked for the push itself.
    AwaitPush { current: String, stashed: bool, switched: bool },
    /// The push is over; asked for the first branch to be checked out again.
    AwaitCheckoutBack { stashed: bool, result: Result<PushResult, String> },
    /// The push is over; asked for the stash to be popped.
    AwaitPop { result: Result<PushResult, String>, warnings: Vec<String> },
    /// Over, with what the push came to, and with what went wrong while the
    /// repository was put back: that is worth telling and changes nothing
    /// of the result.
    Done { result: Result<PushResult, String>, warnings: Vec<String> },
}

/// A [`PushState`] as mathematical values.
pub enum PushStateView {
    AwaitBranch { branch: Option<Seq<char>> },
    AwaitNeedsPush { current: Seq<char>, target: Seq<char> },
    AwaitStatus { current: Seq<char>, target: Seq<char> },
    AwaitStash { current: Seq<char>, target: Seq<char> },
    AwaitCheckout { current: Seq<char>, target: Seq<char>, stashed: bool },
    AwaitUnstash { error: Seq<char> },
    AwaitPush { current: Seq<char>, stashed: bool, switched: bool },
    AwaitCheckoutBack { stashed: bool, result: Result<PushResultView, Seq<char>> },
    AwaitPop { result: Result<PushResultView, Seq<char>>, warnings: Seq<Seq<char>> },
    Done { result: Result<PushResultView, Seq<char>>, warnings: Seq<Seq<char>> },
}

/// The texts of a list of strings.
pub open spec fn texts(list: Seq<String>) -> Seq<Seq<char>> {
    Seq::new(list.len(), |i: int| list[i]@)
}

impl View for PushState {
    type V = PushStateView;

    open spec fn view(&self) -> PushStateView {
        match self {
            PushState::AwaitBranch { branch } => PushStateView::AwaitBranch {
                branch: text_of(*branch),
            },
            PushState::AwaitNeedsPush { current, target } => PushStateView::AwaitNeedsPush {
                current: current@,
                target: target@,
            },
            PushState::AwaitStatus { current, target } => PushStateView::AwaitStatus {
                current: current@,
                target: target@,
            },
            PushState::AwaitStash { current, target } => PushStateView::AwaitStash {
                current: current@,
                target: target@,
            },
            PushState::AwaitCheckout { current, target, stashed } => PushStateView::AwaitCheckout {
                current: current@,
                target: target@,
                stashed: *stashed,
            },
            PushState::AwaitUnstash { error } => PushStateView::AwaitUnstash { error: error@ },
            PushState::AwaitPush { current, stashed, switched } => PushStateView::AwaitPush {
                current: current@,
                stashed: *stashed,
                switched: *switched,
            },
            PushState::AwaitCheckoutBack { stashed, result } => PushStateView::AwaitCheckoutBack {
                stashed: *stashed,
                result: push_outcome(*result),
            },
            PushState::AwaitPop { result, warnings } => PushStateView::AwaitPop {
                result: push_outcome(*result),
                warnings: texts(warnings@),
            },
            PushState::Done { result, warnings } => PushStateView::Done {
                result: push_outcome(*result),
                warnings: texts(warnings@),
            },
        }
    }
}

/// The branch to push: the one the push was scheduled for, or the current
/// one where none was.
pub open spec fn target_branch(branch: Option<Seq<char>>, current: Seq<char>) -> Seq<char> {
    match branch {
        Some(branch) => branch,
        None => current,
    }
}

/// The error a failed checkout of `target` ends the push with.
pub open spec fn checkout_error(target: Seq<char>, reply: Result<CommandOutputView, Seq<char>>) -> Seq<
    char,
> {
    match reply {
        Ok(output) => "couldn't switch to branch "@ + target + ": "@ + output.stderr,
        Err(error) => error,
    }
}

/// Whether a command was run and succeeded.
pub open spec fn succeeded(reply: Result<CommandOutputView, Seq<char>>) -> bool {
    reply matches Ok(output) && output.success
}

/// What the push came to, from git's answer to it.
pub open spec fn pushed(reply: Result<CommandOutputView, Seq<char>>) -> Result<
    PushResultView,
    Seq<char>,
> {
    match reply {
        Ok(output) => if output.success {
            Ok(PushResultView::Success(output.stdout + output.stderr))
        } else {
            Err("push failed: "@ + output.stderr)
        },
        Err(error) => Err(error),
    }
}

/// The error that ends a push where git's answer is not to what was asked.
pub open spec fn unexpected() -> Seq<char> {
    "unexpected answer from git"@
}

/// The step after the working tree is dealt with: the checkout of the
/// target where it is not the current branch, else the push.
pub open spec fn after_stash(current: Seq<char>, target: Seq<char>, stashed: bool) -> (
    PushStateView,
    GitActionView,
) {
    if target != current {
        (
            PushStateView::AwaitCheckout { current, target, stashed },
            GitActionView::Checkout { branch: target },
        )
    } else {
        (PushStateView::AwaitPush { current, stashed, switched: false }, GitActionView::Push)
    }
}

/// What a command that failed said, or why it could not be run.
pub open spec fn failure_text(reply: Result<CommandOutputView, Seq<char>>) -> Seq<char> {
    match reply {
        Ok(output) => output.stderr,
        Err(error) => error,
    }
}

/// The warnings after one more step of putting the repository back: one
/// more where the step failed, made of the step's name and what the
/// command said.
pub open spec fn noted(
    warnings: Seq<Seq<char>>,
    step: Seq<char>,
    reply: Result<CommandOutputView, Seq<char>>,
) -> Seq<Seq<char>> {
    if succeeded(reply) {
        warnings
    } else {
        warnings.push(step + failure_text(reply))
    }
}

/// What a warning about the checkout of the first branch begins with.
pub open spec fn back_step() -> Seq<char> {
    "couldn't switch back: "@
}

/// What a warning about the pop of the stash begins with.
pub open spec fn pop_step() -> Seq<char> {
    "couldn't pop the stash: "@
}

/// A push that is over with `result` and nothing to warn of.
pub open spec fn done(result: Result<PushResultView, Seq<char>>) -> PushStateView {
    PushStateView::Done { result, warnings: Seq::empty() }
}

/// The step after the first branch is back, or was never left: the pop of
/// the stash where one was made, else the end.
pub open spec fn after_return(
    stashed: bool,
    result: Result<PushResultView, Seq<char>>,
    warnings: Seq<Seq<char>>,
) -> (PushStateView, GitActionView) {
    if stashed {
        (PushStateView::AwaitPop { result, warnings }, GitActionView::StashPop)
    } else {
        (PushStateView::Done { result, warnings }, GitActionView::Finish)
    }
}

/// How a push starts: by asking for the current branch.
pub open spec fn push_start(branch: Option<Seq<char>>) -> (PushStateView, GitActionView) {
    (PushStateView::AwaitBranch { branch }, GitActionView::CurrentBranch)
}

/// One step of a push.
///
/// - The target is the branch the push was scheduled for, or the current
///   one. An error in finding the current branch ends the push.
/// - A target that needs no push ends it with `NothingToPush`; an error in
///   finding out ends it too.
/// - Changes in the working tree are stashed; a stash that fails leaves
///   them where they are, and one that cannot be run ends the push.
/// - A target other than the current branch is checked out. Where that
///   fails, the stash is popped if one was made, and the push ends with
///   the checkout's error.
/// - The push is run.
/// - Whatever it came to, the first branch is checked out again if it was
///   left, and then the stash is popped if one was made.
/// - The push ends with what the push command came to; how the two steps
///   after it went changes nothing of that. Where one of them fails, or
///   the pop after a failed checkout does, the end carries a warning.
///
/// An answer that does not fit what was asked ends the push with an error.
pub open spec fn push_step(state: PushStateView, event: GitEventView) -> (
    PushStateView,
    GitActionView,
) {
    let stop = |error: Seq<char>| (done(Err(error)), GitActionView::Finish);
    match (state, event) {
        (PushStateView::AwaitBranch { branch }, GitEventView::CurrentBranch(Ok(current))) => (
            PushStateView::AwaitNeedsPush { current, target: target_branch(branch, current) },
            GitActionView::NeedsPush { branch: target_branch(branch, current) },
        ),
        (PushStateView::AwaitBranch { .. }, GitEventView::CurrentBranch(Err(error))) => stop(error),
        (PushStateView::AwaitNeedsPush { current, target }, GitEventView::NeedsPush(Ok(needed))) => {
            if needed {
                (PushStateView::AwaitStatus { current, target }, GitActionView::Status)
            } else {
                (done(Ok(PushResultView::NothingToPush)), GitActionView::Finish)
            }
        },
        (PushStateView::AwaitNeedsPush { .. }, GitEventView::NeedsPush(Err(error))) => stop(error),
        (PushStateView::AwaitStatus { current, target }, GitEventView::Status(Ok(dirty))) => {
            if dirty {
                (PushStateView::AwaitStash { current, target }, GitActionView::Stash)
            } else {
                after_stash(current, target, false)
            }
        },
        (PushStateView::AwaitStatus { .. }, GitEventView::Status(Err(error))) => stop(error),
        (PushStateView::AwaitStash { current, target }, GitEventView::Command(Ok(output))) => {
            after_stash(current, target, output.success)
        },
        (PushStateView::AwaitStash { .. }, GitEventView::Command(Err(error))) => stop(error),
        (
            PushStateView::AwaitCheckout { current, target, stashed },
            GitEventView::Command(reply),
        ) => {
            if succeeded(reply) {
                (PushStateView::AwaitPush { current, stashed, switched: true }, GitActionView::Push)
            } else if stashed {
                (
                    PushStateView::AwaitUnstash { error: checkout_error(target, reply) },
                    GitActionView::StashPop,
                )
            } else {
                stop(checkout_error(target, reply))
            }
        },
        (PushStateView::AwaitUnstash { error }, GitEventView::Command(reply)) => (
            PushStateView::Done {
                result: Err(error),
                warnings: noted(Seq::empty(), pop_step(), reply),
            },
            GitActionView::Finish,
        ),
        (PushStateView::AwaitPush { current, stashed, switched }, GitEventView::Command(reply)) => {
            if switched {
                (
                    PushStateView::AwaitCheckoutBack { stashed, result: pushed(reply) },
                    GitActionView::Checkout { branch: current },
                )
            } else {
                after_return(stashed, pushed(reply), Seq::empty())
            }
        },
        (PushStateView::AwaitCheckoutBack { stashed, result }, GitEventView::Command(reply)) => {
            after_return(stashed, result, noted(Seq::empty(), back_step(), reply))
        },
        (PushStateView::AwaitPop { result, warnings }, GitEventView::Command(reply)) => (
            PushStateView::Done { result, warnings: noted(warnings, pop_step(), reply) },
            GitActionView::Finish,
        ),
        (PushStateView::Done { result, warnings }, _) => (
            PushStateView::Done { result, warnings },
            GitActionView::Finish,
        ),
        _ => stop(unexpected()),
    }
}

/// The error that ends a push where git's answer is not to what was asked.
fn unexpected_answer() -> (next: (PushState, GitAction))
    ensures
        next.0@ == done(Err(unexpected())),
        next.1@ == GitActionView::Finish,
{
    finish(Err(String::from_str("unexpected answer from git")))
}

/// No warnings.
fn no_warnings() -> (warnings: Vec<String>)
    ensures
        texts(warnings@) == Seq::<Seq<char>>::empty(),
{
    let warnings: Vec<String> = Vec::new();
    assert(texts(warnings@) =~= Seq::<Seq<char>>::empty());
    warnings
}

/// The end of a push with `result` and nothing to warn of.
fn finish(result: Result<PushResult, String>) -> (next: (PushState, GitAction))
    ensures
        next.0@ == done(push_outcome(result)),
        next.1@ == GitActionView::Finish,
{
    (PushState::Done { result, warnings: no_warnings() }, GitAction::Finish)
}

/// The warnings after one more step of putting the repository back.
fn note(warnings: Vec<String>, step: &str, reply: Result<CommandOutput, String>) -> (after: Vec<
    String,
>)
    ensures
        texts(after@) == noted(texts(warnings@), step@, command_reply(reply)),
{
    let mut warnings = warnings;
    let ghost before = texts(warnings@);
    match reply {
        Ok(output) => {
            if !output.success {
                let mut warning = String::from_str(step);
                warning.append(output.stderr.as_str());
                warnings.push(warning);
                assert(texts(warnings@) =~= before.push(step@ + output.stderr@));
            }
        },
        Err(error) => {
            let mut warning = String::from_str(step);
            warning.append(error.as_str());
            warnings.push(warning);
            assert(texts(warnings@) =~= before.push(step@ + error@));
        },
    }
    warnings
}

/// The step after the working tree is dealt with.
fn continue_after_stash(current: String, target: String, stashed: bool) -> (next: (
    PushState,
    GitAction,
))
    ensures
        (next.0@, next.1@) == after_stash(current@, target@, stashed),
{
    if target == current {
        (PushState::AwaitPush { current, stashed, switched: false }, GitAction::Push)
    } else {
        let branch = target.clone();
        (PushState::AwaitCheckout { current, target, stashed }, GitAction::Checkout { branch })
    }
}

/// The step after the first branch is back, or was never left.
fn continue_after_return(
    stashed: bool,
    result: Result<PushResult, String>,
    warnings: Vec<String>,
) -> (next: (PushState, GitAction))
    ensures
        (next.0@, next.1@) == after_return(stashed, push_outcome(result), texts(warnings@)),
{
    if stashed {
        (PushState::AwaitPop { result, warnings }, GitAction::StashPop)
    } else {
        (PushState::Done { result, warnings }, GitAction::Finish)
    }
}

/// The error a failed checkout of `target` ends the push with.
fn checkout_failure(target: &String, reply: Result<CommandOutput, String>) -> (error: String)
    ensures
        error@ == checkout_error(target@, command_reply(reply)),
{
    match reply {
        Ok(output) => {
            let mut error = String::from_str("couldn't switch to branch ");
            error.append(target.as_str());
            error.append(": ");
            error.append(output.stderr.as_str());
            assert(error@ =~= checkout_error(target@, command_reply(reply)));
            error
        },
        Err(error) => error,
    }
}

/// What the push came to, from git's answer to it.
fn push_result(reply: Result<CommandOutput, String>) -> (result: Result<PushResult, String>)
    ensures
        push_outcome(result) == pushed(command_reply(reply)),
{
    match reply {
        Ok(output) => {
            if output.success {
                let mut text = output.stdout;
                text.append(output.stderr.as_str());
                Ok(PushResult::Success(text))
            } else {
                let mut error = String::from_str("push failed: ");
                error.append(output.stderr.as_str());
                Err(error)
            }
        },
        Err(error) => Err(error),
    }
}

/// Whether a command was run and succeeded.
fn command_succeeded(reply: &Result<CommandOutput, String>) -> (yes: bool)
    ensures
        yes == succeeded(command_reply(*reply)),
{
    match reply {
        Ok(output) => output.success,
        Err(_) => false,
    }
}

/// Starts the push of `branch`, or of the current branch where it is
/// `None`: the state to begin with, and the first thing to ask git.
pub fn begin_push(branch: Option<String>) -> (next: (PushState, GitAction))
    ensures
        (next.0@, next.1@) == push_start(text_of(branch)),
{
    (PushState::AwaitBranch { branch }, GitAction::CurrentBranch)
}

/// One step of a push: from where it stands and what git answered to where
/// it stands next and what to ask git for. Once the request is
/// [`GitAction::Finish`] the state is [`PushState::Done`] and holds what the
/// push came to, with a warning for each step of the way back that failed.
pub fn execute_push_with_branch(state: PushState, event: GitEvent) -> (next: (PushState, GitAction))
    ensures
        (next.0@, next.1@) == push_step(state@, event@),
{
    match state {
        PushState::AwaitBranch { branch } => match event {
            GitEvent::CurrentBranch(Ok(current)) => {
                let target = match branch {
                    Some(branch) => branch,
                    None => current.clone(),
                };
                let asked = target.clone();
                (PushState::AwaitNeedsPush { current, target }, GitAction::NeedsPush { branch: asked })
            },
            GitEvent::CurrentBranch(Err(error)) => finish(Err(error)),
            _ => unexpected_answer(),
        },
        PushState::AwaitNeedsPush { current, target } => match event {
            GitEvent::NeedsPush(Ok(needed)) => {
                if needed {
                    (PushState::AwaitStatus { current, target }, GitAction::Status)
                } else {
                    finish(Ok(PushResult::NothingToPush))
                }
            },
            GitEvent::NeedsPush(Err(error)) => finish(Err(error)),
            _ => unexpected_answer(),
        },
        PushState::AwaitStatus { current, target } => match event {
            GitEvent::Status(Ok(dirty)) => {
                if dirty {
                    (PushState::AwaitStash { current, target }, GitAction::Stash)
                } else {
                    continue_after_stash(current, target, false)
                }
            },
            GitEvent::Status(Err(error)) => finish(Err(error)),
            _ => unexpected_answer(),
        },
        PushState::AwaitStash { current, target } => match event {
            GitEvent::Command(Ok(output)) => continue_after_stash(current, target, output.success),
            GitEvent::Command(Err(error)) => finish(Err(error)),
            _ => unexpected_answer(),
        },
        PushState::AwaitCheckout { current, target, stashed } => match event {
            GitEvent::Command(reply) => {
                if command_succeeded(&reply) {
                    (PushState::AwaitPush { current, stashed, switched: true }, GitAction::Push)
                } else {
                    let error = checkout_failure(&target, reply);
                    if stashed {
                        (PushState::AwaitUnstash { error }, GitAction::StashPop)
                    } else {
                        finish(Err(error))
                    }
                }
            },
            _ => unexpected_answer(),
        },
        PushState::AwaitUnstash { error } => match event {
            GitEvent::Command(reply) => {
                let warnings = note(no_warnings(), "couldn't pop the stash: ", reply);
                (PushState::Done { result: Err(error), warnings }, GitAction::Finish)
            },
            _ => unexpected_answer(),
        },
        PushState::AwaitPush { current, stashed, switched } => match event {
            GitEvent::Command(reply) => {
                let result = push_result(reply);
                if switched {
                    (
                        PushState::AwaitCheckoutBack { stashed, result },
                        GitAction::Checkout { branch: current },
                    )
                } else {
                    continue_after_return(stashed, result, no_warnings())
                }
            },
            _ => unexpected_answer(),
        },
        PushState::AwaitCheckoutBack { stashed, result } => match event {
            GitEvent::Command(reply) => {
                let warnings = note(no_warnings(), "couldn't switch back: ", reply);
                continue_after_return(stashed, result, warnings)
            },
            _ => unexpected_answer(),
        },
        PushState::AwaitPop { result, warnings } => match event {
            GitEvent::Command(reply) => {
                let warnings = note(warnings, "couldn't pop the stash: ", reply);
                (PushState::Done { result, warnings }, GitAction::Finish)
            },
            _ => unexpected_answer(),
        },
        PushState::Done { result, warnings } => (
            PushState::Done { result, warnings },
            GitAction::Finish,
        ),
    }
}

/// Whether carrying out `action` can change the repository: its branch, its
/// working tree, its stash or its remote.
pub open spec fn touches_repository(action: GitActionView) -> bool {
    action is Stash || action is Checkout || action is Push || action is StashPop
}

/// The requests a push makes when it is told `events` one after the other,
/// starting in `state`.
pub open spec fn push_requests(state: PushStateView, events: Seq<GitEventView>) -> Seq<
    GitActionView,
>
    decreases events.len(),
{
    if events.len() == 0 {
        Seq::empty()
    } else {
        let next = push_step(state, events[0]);
        seq![next.1] + push_requests(next.0, events.drop_first())
    }
}

/// Where a push stands after it was told `events` one after the other,
/// starting in `state`.
pub open spec fn push_end(state: PushStateView, events: Seq<GitEventView>) -> PushStateView
    decreases events.len(),
{
    if events.len() == 0 {
        state
    } else {
        push_end(push_step(state, events[0]).0, events.drop_first())
    }
}

/// A push that is over stays over: whatever it is told, it asks for
/// nothing more and keeps its result and its warnings.
pub proof fn law_done_is_final(
    result: Result<PushResultView, Seq<char>>,
    warnings: Seq<Seq<char>>,
    events: Seq<GitEventView>,
)
    ensures
        push_end(PushStateView::Done { result, warnings }, events) == (PushStateView::Done {
            result,
            warnings,
        }),
        forall|i: int|
            0 <= i < events.len() ==> (#[trigger] push_requests(
                PushStateView::Done { result, warnings },
                events,
            )[i]) == GitActionView::Finish,
        push_requests(PushStateView::Done { result, warnings }, events).len() == events.len(),
    decreases events.len(),
{
    if events.len() > 0 {
        law_done_is_final(result, warnings, events.drop_first());
        let state = PushStateView::Done { result, warnings };
        let rest = push_requests(state, events.drop_first());
        assert forall|i: int| 0 <= i < events.len() implies (#[trigger] push_requests(
            state,
            events,
        )[i]) == GitActionView::Finish by {
            if i > 0 {
                assert(push_requests(state, events)[i] == rest[i - 1]);
            }
        }
    }
}

/// How many answers a push can still take in before it is over.
spec fn steps_left(state: PushStateView) -> nat {
    match state {
        PushStateView::AwaitBranch { .. } => 8,
        PushStateView::AwaitNeedsPush { .. } => 7,
        PushStateView::AwaitStatus { .. } => 6,
        PushStateView::AwaitStash { .. } => 5,
        PushStateView::AwaitCheckout { .. } => 4,
        PushStateView::AwaitPush { .. } => 3,
        PushStateView::AwaitCheckoutBack { .. } => 2,
        PushStateView::AwaitUnstash { .. } => 1,
        PushStateView::AwaitPop { .. } => 1,
        PushStateView::Done { .. } => 0,
    }
}

/// Each answer brings the push closer to its end.
proof fn lemma_push_runs_down(state: PushStateView, events: Seq<GitEventView>)
    ensures
        events.len() >= steps_left(state) ==> push_end(state, events) is Done,
        push_requests(state, events).len() == events.len(),
        forall|i: int|
            0 <= i < events.len() && steps_left(state) <= i + 1 ==> #[trigger] push_requests(
                state,
                events,
            )[i] == GitActionView::Finish,
    decreases events.len(),
{
    if events.len() > 0 {
        let next = push_step(state, events[0]);
        lemma_push_runs_down(next.0, events.drop_first());
        let rest = push_requests(next.0, events.drop_first());
        assert forall|i: int|
            0 <= i < events.len() && steps_left(state) <= i + 1 implies #[trigger] push_requests(
            state,
            events,
        )[i] == GitActionView::Finish by {
            if i > 0 {
                assert(push_requests(state, events)[i] == rest[i - 1]);
            }
        }
    }
}

/// A push comes to its end.
///
/// Whatever git answers, and whether or not the answers fit what was
/// asked: after eight answers at the latest the push is over, and from
/// the eighth answer on it asks for nothing more.
pub proof fn law_push_ends(branch: Option<Seq<char>>, events: Seq<GitEventView>)
    requires
        events.len() >= 8,
    ensures
        push_end(push_start(branch).0, events) is Done,
        forall|i: int|
            7 <= i < events.len() ==> #[trigger] push_requests(push_start(branch).0, events)[i]
                == GitActionView::Finish,
{
    lemma_push_runs_down(push_start(branch).0, events);
}

/// Nothing to push, nothing done.
///
/// Where git says that the target needs no push, the push ends with
/// `NothingToPush` and, whatever it is told afterwards, never asks for a
/// stash, a checkout, a push or a pop.
pub proof fn law_nothing_to_push(
    branch: Option<Seq<char>>,
    current: Seq<char>,
    later: Seq<GitEventView>,
)
    ensures
        ({
            let events = seq![
                GitEventView::CurrentBranch(Ok(current)),
                GitEventView::NeedsPush(Ok(false)),
            ] + later;
            let start = push_start(branch);
            let requests = seq![start.1] + push_requests(start.0, events);
            &&& push_end(start.0, events) == done(Ok(PushResultView::NothingToPush))
            &&& requests.len() == later.len() + 3
            &&& requests[0] == GitActionView::CurrentBranch
            &&& requests[1] == GitActionView::NeedsPush { branch: target_branch(branch, current) }
            &&& forall|i: int| 2 <= i < requests.len() ==> #[trigger] requests[i] == GitActionView::Finish
            &&& forall|i: int| 0 <= i < requests.len() ==> !touches_repository(#[trigger] requests[i])
        }),
{
    let events = seq![GitEventView::CurrentBranch(Ok(current)), GitEventView::NeedsPush(Ok(false))]
        + later;
    let start = push_start(branch);
    let first = push_step(start.0, events[0]);
    let rest = events.drop_first();
    let second = push_step(first.0, rest[0]);
    assert(rest.drop_first() =~= later);
    let nothing = Ok::<PushResultView, Seq<char>>(PushResultView::NothingToPush);
    assert(second.0 == done(nothing));
    law_done_is_final(nothing, Seq::empty(), later);
    let tail = push_requests(second.0, later);
    assert(push_requests(first.0, rest) == seq![second.1] + tail);
    assert(push_requests(start.0, events) == seq![first.1] + (seq![second.1] + tail));
    let requests = seq![start.1] + push_requests(start.0, events);
    assert(push_end(start.0, events) == push_end(first.0, rest));
    assert(push_end(first.0, rest) == push_end(second.0, later));
    assert(requests.len() == later.len() + 3);
    assert(requests[0] == GitActionView::CurrentBranch);
    assert(requests[1] == first.1);
    assert(requests[2] == second.1);
    assert forall|i: int| 2 <= i < requests.len() implies #[trigger] requests[i]
        == GitActionView::Finish by {
        if i > 2 {
            assert(requests[i] == tail[i - 3]);
        }
    }
    assert forall|i: int| 0 <= i < requests.len() implies !touches_repository(
        #[trigger] requests[i],
    ) by {
        if i >= 2 {
            assert(requests[i] == GitActionView::Finish);
        }
    }
}

/// What a push can change of a repository: the branch that is checked out,
/// whether the working tree holds changes, and how many stashes there are.
pub struct Repository {
    pub branch: Seq<char>,
    pub dirty: bool,
    pub stashes: nat,
}

/// The repository after git was asked for `action` and answered `event`.
/// A stash that succeeds takes the changes out of the working tree and
/// onto the stack of stashes; a pop that succeeds brings them back; a
/// checkout that succeeds changes the branch. Nothing else changes it.
pub open spec fn repository_after(
    repository: Repository,
    action: GitActionView,
    event: GitEventView,
) -> Repository {
    match (action, event) {
        (GitActionView::Stash, GitEventView::Command(reply)) => if succeeded(reply) {
            Repository { dirty: false, stashes: repository.stashes + 1, ..repository }
        } else {
            repository
        },
        (GitActionView::StashPop, GitEventView::Command(reply)) => if succeeded(reply)
            && repository.stashes > 0 {
            Repository { dirty: true, stashes: (repository.stashes - 1) as nat, ..repository }
        } else {
            repository
        },
        (GitActionView::Checkout { branch }, GitEventView::Command(reply)) => if succeeded(reply) {
            Repository { branch, ..repository }
        } else {
            repository
        },
        _ => repository,
    }
}

/// Whether `event` is an answer that git can give to `action` in
/// `repository` while the way back stays open: it tells the truth about
/// the current branch and the working tree where it tells anything, and the
/// checkout of `home` and the pop of the stash succeed. The stash, the
/// checkout of any other branch and the push may go either way.
pub open spec fn answers(
    repository: Repository,
    home: Seq<char>,
    action: GitActionView,
    event: GitEventView,
) -> bool {
    match action {
        GitActionView::CurrentBranch => event matches GitEventView::CurrentBranch(result)
            && (result matches Ok(name) ==> name == repository.branch),
        GitActionView::NeedsPush { .. } => event is NeedsPush,
        GitActionView::Status => event matches GitEventView::Status(result) && (result matches Ok(
            dirty,
        ) ==> dirty == repository.dirty),
        GitActionView::Stash => event is Command,
        GitActionView::Checkout { branch } => event matches GitEventView::Command(reply) && (branch
            == home ==> succeeded(reply)),
        GitActionView::Push => event is Command,
        GitActionView::StashPop => event matches GitEventView::Command(reply) && succeeded(reply),
        GitActionView::Finish => true,
    }
}

/// Whether `events` are, one after the other, answers to what the push
/// asks, starting in `state` with the request `action` open.
pub open spec fn answered(
    state: PushStateView,
    action: GitActionView,
    repository: Repository,
    home: Seq<char>,
    events: Seq<GitEventView>,
) -> bool
    decreases events.len(),
{
    events.len() > 0 ==> {
        let next = push_step(state, events[0]);
        &&& answers(repository, home, action, events[0])
        &&& answered(
            next.0,
            next.1,
            repository_after(repository, action, events[0]),
            home,
            events.drop_first(),
        )
    }
}

/// The last request and the repository after the push was told `events`.
pub open spec fn push_leaves(
    state: PushStateView,
    action: GitActionView,
    repository: Repository,
    events: Seq<GitEventView>,
) -> (PushStateView, GitActionView, Repository)
    decreases events.len(),
{
    if events.len() == 0 {
        (state, action, repository)
    } else {
        let next = push_step(state, events[0]);
        push_leaves(
            next.0,
            next.1,
            repository_after(repository, action, events[0]),
            events.drop_first(),
        )
    }
}

/// Whether the working tree and the stashes are as a push leaves them in
/// between: as they were, or with the changes on the stack.
spec fn shelved(repository: Repository, first: Repository, stashed: bool) -> bool {
    if stashed {
        first.dirty && !repository.dirty && repository.stashes == first.stashes + 1
    } else {
        repository.dirty == first.dirty && repository.stashes == first.stashes
    }
}

/// How the repository relates to the one the push began with, at each
/// point of the exchange.
spec fn on_course(
    state: PushStateView,
    action: GitActionView,
    repository: Repository,
    first: Repository,
) -> bool {
    match state {
        PushStateView::AwaitBranch { .. } => action is CurrentBranch && repository == first,
        PushStateView::AwaitNeedsPush { current, .. } => action is NeedsPush && repository == first
            && current == first.branch,
        PushStateView::AwaitStatus { current, .. } => action is Status && repository == first
            && current == first.branch,
        PushStateView::AwaitStash { current, .. } => action is Stash && repository == first
            && current == first.branch && first.dirty,
        PushStateView::AwaitCheckout { current, target, stashed } => {
            &&& action == GitActionView::Checkout { branch: target }
            &&& current == first.branch
            &&& target != current
            &&& repository.branch == first.branch
            &&& shelved(repository, first, stashed)
        },
        PushStateView::AwaitUnstash { .. } => {
            &&& action is StashPop
            &&& repository.branch == first.branch
            &&& shelved(repository, first, true)
        },
        PushStateView::AwaitPush { current, stashed, switched } => {
            &&& action is Push
            &&& current == first.branch
            &&& !switched ==> repository.branch == first.branch
            &&& shelved(repository, first, stashed)
        },
        PushStateView::AwaitCheckoutBack { stashed, .. } => {
            &&& action == GitActionView::Checkout { branch: first.branch }
            &&& shelved(repository, first, stashed)
        },
        PushStateView::AwaitPop { .. } => {
            &&& action is StashPop
            &&& repository.branch == first.branch
            &&& shelved(repository, first, true)
        },
        PushStateView::Done { .. } => action is Finish && repository == first,
    }
}

/// One answered step keeps the push on course.
proof fn lemma_step_on_course(
    state: PushStateView,
    action: GitActionView,
    repository: Repository,
    first: Repository,
    event: GitEventView,
)
    requires
        on_course(state, action, repository, first),
        answers(repository, first.branch, action, event),
    ensures
        on_course(
            push_step(state, event).0,
            push_step(state, event).1,
            repository_after(repository, action, event),
            first,
        ),
{
}

/// Answered steps keep the push on course.
proof fn lemma_run_on_course(
    state: PushStateView,
    action: GitActionView,
    repository: Repository,
    first: Repository,
    events: Seq<GitEventView>,
)
    requires
        on_course(state, action, repository, first),
        answered(state, action, repository, first.branch, events),
    ensures
        on_course(
            push_leaves(state, action, repository, events).0,
            push_leaves(state, action, repository, events).1,
            push_leaves(state, action, repository, events).2,
            first,
        ),
    decreases events.len(),
{
    if events.len() > 0 {
        let next = push_step(state, events[0]);
        lemma_step_on_course(state, action, repository, first, events[0]);
        lemma_run_on_course(
            next.0,
            next.1,
            repository_after(repository, action, events[0]),
            first,
            events.drop_first(),
        );
    }
}

/// A push leaves the repository as it found it.
///
/// Whatever branch is pushed, and however the stash, the checkout of the
/// target and the push itself go: where git answers what it is asked, and
/// the checkout of the first branch and the pop of the stash succeed, then
/// once the push asks for nothing more the first branch is checked out
/// again, the working tree holds its changes again, and no stash is left
/// over.
pub proof fn law_push_restores_repository(
    branch: Option<Seq<char>>,
    repository: Repository,
    events: Seq<GitEventView>,
)
    requires
        answered(
            push_start(branch).0,
            push_start(branch).1,
            repository,
            repository.branch,
            events,
        ),
        push_leaves(push_start(branch).0, push_start(branch).1, repository, events).1 is Finish,
    ensures
        push_leaves(push_start(branch).0, push_start(branch).1, repository, events).2
            == repository,
        push_leaves(push_start(branch).0, push_start(branch).1, repository, events).0 is Done,
{
    let start = push_start(branch);
    lemma_run_on_course(start.0, start.1, repository, repository, events);
}

/// Telling a push `event` and then `rest` is one step followed by the run
/// on `rest`.
proof fn lemma_first_step(state: PushStateView, event: GitEventView, rest: Seq<GitEventView>)
    ensures
        push_requests(state, seq![event] + rest) == seq![push_step(state, event).1]
            + push_requests(push_step(state, event).0, rest),
        push_end(state, seq![event] + rest) == push_end(push_step(state, event).0, rest),
{
    let events = seq![event] + rest;
    assert(events[0] == event);
    assert(events.drop_first() =~= rest);
}

/// The push of another branch, step by step.
///
/// From a branch `home` with changes in the working tree that git stashes,
/// the push of another branch `target` goes one of two ways. Where the
/// checkout of `target` fails, the stash is popped and the push ends with
/// the checkout's error; no push is run. Where it succeeds, the push is
/// run, `home` is checked out again, the stash is popped, and the push ends
/// with what the push command came to, success or failure. How the way
/// back went changes nothing of that: it shows in the warnings only.
pub proof fn law_push_of_other_branch(
    home: Seq<char>,
    target: Seq<char>,
    stash: CommandOutputView,
    checkout: Result<CommandOutputView, Seq<char>>,
    push: Result<CommandOutputView, Seq<char>>,
    back: Result<CommandOutputView, Seq<char>>,
    pop: Result<CommandOutputView, Seq<char>>,
)
    requires
        home != target,
        stash.success,
    ensures
        ({
            let start = push_start(Some(target));
            let opening = seq![
                GitEventView::CurrentBranch(Ok(home)),
                GitEventView::NeedsPush(Ok(true)),
                GitEventView::Status(Ok(true)),
                GitEventView::Command(Ok(stash)),
                GitEventView::Command(checkout),
            ];
            let asked = seq![
                GitActionView::NeedsPush { branch: target },
                GitActionView::Status,
                GitActionView::Stash,
                GitActionView::Checkout { branch: target },
            ];
            if succeeded(checkout) {
                let events = opening + seq![
                    GitEventView::Command(push),
                    GitEventView::Command(back),
                    GitEventView::Command(pop),
                ];
                &&& push_requests(start.0, events) == asked + seq![
                    GitActionView::Push,
                    GitActionView::Checkout { branch: home },
                    GitActionView::StashPop,
                    GitActionView::Finish,
                ]
                &&& push_end(start.0, events) == (PushStateView::Done {
                    result: pushed(push),
                    warnings: noted(noted(Seq::empty(), back_step(), back), pop_step(), pop),
                })
            } else {
                let events = opening + seq![GitEventView::Command(pop)];
                &&& push_requests(start.0, events) == asked + seq![
                    GitActionView::StashPop,
                    GitActionView::Finish,
                ]
                &&& push_end(start.0, events) == (PushStateView::Done {
                    result: Err(checkout_error(target, checkout)),
                    warnings: noted(Seq::empty(), pop_step(), pop),
                })
            }
        }),
{
    let start = push_start(Some(target));
    let e0 = GitEventView::CurrentBranch(Ok(home));
    let e1 = GitEventView::NeedsPush(Ok(true));
    let e2 = GitEventView::Status(Ok(true));
    let e3 = GitEventView::Command(Ok(stash));
    let e4 = GitEventView::Command(checkout);
    let opening = seq![e0, e1, e2, e3, e4];
    let asked = seq![
        GitActionView::NeedsPush { branch: target },
        GitActionView::Status,
        GitActionView::Stash,
        GitActionView::Checkout { branch: target },
    ];
    let s1 = push_step(start.0, e0);
    let s2 = push_step(s1.0, e1);
    let s3 = push_step(s2.0, e2);
    let s4 = push_step(s3.0, e3);
    let s5 = push_step(s4.0, e4);
    if succeeded(checkout) {
        let e5 = GitEventView::Command(push);
        let e6 = GitEventView::Command(back);
        let e7 = GitEventView::Command(pop);
        let events = opening + seq![e5, e6, e7];
        let s6 = push_step(s5.0, e5);
        let s7 = push_step(s6.0, e6);
        let s8 = push_step(s7.0, e7);
        assert(events =~= seq![e0] + seq![e1, e2, e3, e4, e5, e6, e7]);
        lemma_first_step(start.0, e0, seq![e1, e2, e3, e4, e5, e6, e7]);
        assert(seq![e1, e2, e3, e4, e5, e6, e7] =~= seq![e1] + seq![e2, e3, e4, e5, e6, e7]);
        lemma_first_step(s1.0, e1, seq![e2, e3, e4, e5, e6, e7]);
        assert(seq![e2, e3, e4, e5, e6, e7] =~= seq![e2] + seq![e3, e4, e5, e6, e7]);
        lemma_first_step(s2.0, e2, seq![e3, e4, e5, e6, e7]);
        assert(seq![e3, e4, e5, e6, e7] =~= seq![e3] + seq![e4, e5, e6, e7]);
        lemma_first_step(s3.0, e3, seq![e4, e5, e6, e7]);
        assert(seq![e4, e5, e6, e7] =~= seq![e4] + seq![e5, e6, e7]);
        lemma_first_step(s4.0, e4, seq![e5, e6, e7]);
        assert(seq![e5, e6, e7] =~= seq![e5] + seq![e6, e7]);
        lemma_first_step(s5.0, e5, seq![e6, e7]);
        assert(seq![e6, e7] =~= seq![e6] + seq![e7]);
        lemma_first_step(s6.0, e6, seq![e7]);
        assert(seq![e7] =~= seq![e7] + Seq::<GitEventView>::empty());
        lemma_first_step(s7.0, e7, Seq::empty());
        assert(push_requests(s8.0, Seq::empty()) =~= Seq::<GitActionView>::empty());
        assert(push_requests(start.0, events) =~= asked + seq![
            GitActionView::Push,
            GitActionView::Checkout { branch: home },
            GitActionView::StashPop,
            GitActionView::Finish,
        ]);
    } else {
        let e5 = GitEventView::Command(pop);
        let events = opening + seq![e5];
        let s6 = push_step(s5.0, e5);
        assert(events =~= seq![e0] + seq![e1, e2, e3, e4, e5]);
        lemma_first_step(start.0, e0, seq![e1, e2, e3, e4, e5]);
        assert(seq![e1, e2, e3, e4, e5] =~= seq![e1] + seq![e2, e3, e4, e5]);
        lemma_first_step(s1.0, e1, seq![e2, e3, e4, e5]);
        assert(seq![e2, e3, e4, e5] =~= seq![e2] + seq![e3, e4, e5]);
        lemma_first_step(s2.0, e2, seq![e3, e4, e5]);
        assert(seq![e3, e4, e5] =~= seq![e3] + seq![e4, e5]);
        lemma_first_step(s3.0, e3, seq![e4, e5]);
        assert(seq![e4, e5] =~= seq![e4] + seq![e5]);
        lemma_first_step(s4.0, e4, seq![e5]);
        assert(seq![e5] =~= seq![e5] + Seq::<GitEventView>::empty());
        lemma_first_step(s5.0, e5, Seq::empty());
        assert(push_requests(s6.0, Seq::empty()) =~= Seq::<GitActionView>::empty());
        assert(push_requests(start.0, events) =~= asked + seq![
            GitActionView::StashPop,
            GitActionView::Finish,
        ]);
    }
}

/// Telling a push `event` and then `rest`, with the repository looked at,
/// is one step followed by the run on `rest`.
proof fn lemma_first_step_leaves(
    state: PushStateView,
    action: GitActionView,
    repository: Repository,
    event: GitEventView,
    rest: Seq<GitEventView>,
)
    ensures
        push_leaves(state, action, repository, seq![event] + rest) == push_leaves(
            push_step(state, event).0,
            push_step(state, event).1,
            repository_after(repository, action, event),
            rest,
        ),
{
    let events = seq![event] + rest;
    assert(events[0] == event);
    assert(events.drop_first() =~= rest);
}

/// The push of another branch leaves the repository as it found it.
///
/// From a branch `home` with changes in the working tree, the push of
/// another branch `target` ends with `home` checked out again, the changes
/// back in the working tree and no stash left over, whether the checkout
/// of `target` fails, or it succeeds and the push fails, or both succeed;
/// provided that the stash, the checkout of `home` and the pop of the stash
/// succeed where they are run.
pub proof fn law_push_rolls_back(
    home: Seq<char>,
    target: Seq<char>,
    stashes: nat,
    stash: CommandOutputView,
    checkout: Result<CommandOutputView, Seq<char>>,
    push: Result<CommandOutputView, Seq<char>>,
    back: CommandOutputView,
    pop: CommandOutputView,
)
    requires
        home != target,
        stash.success,
        back.success,
        pop.success,
    ensures
        ({
            let start = push_start(Some(target));
            let repository = Repository { branch: home, dirty: true, stashes };
            let opening = seq![
                GitEventView::CurrentBranch(Ok(home)),
                GitEventView::NeedsPush(Ok(true)),
                GitEventView::Status(Ok(true)),
                GitEventView::Command(Ok(stash)),
                GitEventView::Command(checkout),
            ];
            let events = if succeeded(checkout) {
                opening + seq![
                    GitEventView::Command(push),
                    GitEventView::Command(Ok(back)),
                    GitEventView::Command(Ok(pop)),
                ]
            } else {
                opening + seq![GitEventView::Command(Ok(pop))]
            };
            let result = if succeeded(checkout) {
                pushed(push)
            } else {
                Err(checkout_error(target, checkout))
            };
            push_leaves(start.0, start.1, repository, events) == (
                done(result),
                GitActionView::Finish,
                repository,
            )
        }),
{
    let start = push_start(Some(target));
    let r0 = Repository { branch: home, dirty: true, stashes };
    let e0 = GitEventView::CurrentBranch(Ok(home));
    let e1 = GitEventView::NeedsPush(Ok(true));
    let e2 = GitEventView::Status(Ok(true));
    let e3 = GitEventView::Command(Ok(stash));
    let e4 = GitEventView::Command(checkout);
    let opening = seq![e0, e1, e2, e3, e4];
    let s1 = push_step(start.0, e0);
    let r1 = repository_after(r0, start.1, e0);
    let s2 = push_step(s1.0, e1);
    let r2 = repository_after(r1, s1.1, e1);
    let s3 = push_step(s2.0, e2);
    let r3 = repository_after(r2, s2.1, e2);
    let s4 = push_step(s3.0, e3);
    let r4 = repository_after(r3, s3.1, e3);
    let s5 = push_step(s4.0, e4);
    let r5 = repository_after(r4, s4.1, e4);
    let none = Seq::<GitEventView>::empty();
    if succeeded(checkout) {
        let e5 = GitEventView::Command(push);
        let e6 = GitEventView::Command(Ok(back));
        let e7 = GitEventView::Command(Ok(pop));
        let events = opening + seq![e5, e6, e7];
        let s6 = push_step(s5.0, e5);
        let r6 = repository_after(r5, s5.1, e5);
        let s7 = push_step(s6.0, e6);
        let r7 = repository_after(r6, s6.1, e6);
        let s8 = push_step(s7.0, e7);
        let r8 = repository_after(r7, s7.1, e7);
        assert(events =~= seq![e0] + seq![e1, e2, e3, e4, e5, e6, e7]);
        lemma_first_step_leaves(start.0, start.1, r0, e0, seq![e1, e2, e3, e4, e5, e6, e7]);
        assert(seq![e1, e2, e3, e4, e5, e6, e7] =~= seq![e1] + seq![e2, e3, e4, e5, e6, e7]);
        lemma_first_step_leaves(s1.0, s1.1, r1, e1, seq![e2, e3, e4, e5, e6, e7]);
        assert(seq![e2, e3, e4, e5, e6, e7] =~= seq![e2] + seq![e3, e4, e5, e6, e7]);
        lemma_first_step_leaves(s2.0, s2.1, r2, e2, seq![e3, e4, e5, e6, e7]);
        assert(seq![e3, e4, e5, e6, e7] =~= seq![e3] + seq![e4, e5, e6, e7]);
        lemma_first_step_leaves(s3.0, s3.1, r3, e3, seq![e4, e5, e6, e7]);
        assert(seq![e4, e5, e6, e7] =~= seq![e4] + seq![e5, e6, e7]);
        lemma_first_step_leaves(s4.0, s4.1, r4, e4, seq![e5, e6, e7]);
        assert(seq![e5, e6, e7] =~= seq![e5] + seq![e6, e7]);
        lemma_first_step_leaves(s5.0, s5.1, r5, e5, seq![e6, e7]);
        assert(seq![e6, e7] =~= seq![e6] + seq![e7]);
        lemma_first_step_leaves(s6.0, s6.1, r6, e6, seq![e7]);
        assert(seq![e7] =~= seq![e7] + none);
        lemma_first_step_leaves(s7.0, s7.1, r7, e7, none);
        assert(push_leaves(s8.0, s8.1, r8, none) == (s8.0, s8.1, r8));
        assert(r8 == r0);
        assert(s8.0 == done(pushed(push)));
    } else {
        let e5 = GitEventView::Command(Ok(pop));
        let events = opening + seq![e5];
        let s6 = push_step(s5.0, e5);
        let r6 = repository_after(r5, s5.1, e5);
        assert(events =~= seq![e0] + seq![e1, e2, e3, e4, e5]);
        lemma_first_step_leaves(start.0, start.1, r0, e0, seq![e1, e2, e3, e4, e5]);
        assert(seq![e1, e2, e3, e4, e5] =~= seq![e1] + seq![e2, e3, e4, e5]);
        lemma_first_step_leaves(s1.0, s1.1, r1, e1, seq![e2, e3, e4, e5]);
        assert(seq![e2, e3, e4, e5] =~= seq![e2] + seq![e3, e4, e5]);
        lemma_first_step_leaves(s2.0, s2.1, r2, e2, seq![e3, e4, e5]);
        assert(seq![e3, e4, e5] =~= seq![e3] + seq![e4, e5]);
        lemma_first_step_leaves(s3.0, s3.1, r3, e3, seq![e4, e5]);
        assert(seq![e4, e5] =~= seq![e4] + seq![e5]);
        lemma_first_step_leaves(s4.0, s4.1, r4, e4, seq![e5]);
        assert(seq![e5] =~= seq![e5] + none);
        lemma_first_step_leaves(s5.0, s5.1, r5, e5, none);
        assert(push_leaves(s6.0, s6.1, r6, none) == (s6.0, s6.1, r6));
        assert(r6 == r0);
        assert(s6.0 == done(Err(checkout_error(target, checkout))));
    }
}

} // verus!
