//! Scheduled operations, log entries, and the two collections that persist.

use crate::text::text_of;
use crate::time::Timestamp;
use vstd::prelude::*;
use vstd::string::StringExecFns;

verus! {

/// What a scheduled operation does when its time has come.
#[derive(Clone, Copy, Debug, PartialEq, Eq, Structural)]
pub enum OperationType {
    Commit,
    Push,
}

impl OperationType {
    /// The word this kind of operation is shown as.
    pub open spec fn label(self) -> Seq<char> {
        match self {
            OperationType::Commit => "commit"@,
            OperationType::Push => "push"@,
        }
    }

    /// The word this kind of operation is shown as.
    pub fn as_str(&self) -> (s: &'static str)
        ensures
            s@ == self.label(),
    {
        match self {
            OperationType::Commit => "commit",
            OperationType::Push => "push",
        }
    }
}

/// Whether an operation has failed before. It never gates execution.
#[derive(Clone, Copy, Debug, PartialEq, Eq, Structural)]
pub enum OperationState {
    Pending,
    Failing,
}

impl OperationState {
    /// The word this state is shown as.
    pub open spec fn label(self) -> Seq<char> {
        match self {
            OperationState::Pending => "pending"@,
            OperationState::Failing => "failing"@,
        }
    }

    /// The word this state is shown as.
    pub fn as_str(&self) -> (s: &'static str)
        ensures
            s@ == self.label(),
    {
        match self {
            OperationState::Pending => "pending",
            OperationState::Failing => "failing",
        }
    }
}

impl Default for OperationState {
    fn default() -> (state: Self)
        ensures
            state == OperationState::Pending,
    {
        OperationState::Pending
    }
}

/// How an attempt ended.
#[derive(Clone, Copy, Debug, PartialEq, Eq, Structural)]
pub enum ExecutionStatus {
    Success,
    Failure,
    Cancelled,
    Skipped,
}

impl ExecutionStatus {
    /// The word this status is shown as.
    pub open spec fn label(self) -> Seq<char> {
        match self {
            ExecutionStatus::Success => "Success"@,
            ExecutionStatus::Failure => "Failure"@,
            ExecutionStatus::Cancelled => "Cancelled"@,
            ExecutionStatus::Skipped => "Skipped"@,
        }
    }

    /// The word this status is shown as.
    pub fn as_str(&self) -> (s: &'static str)
        ensures
            s@ == self.label(),
    {
        match self {
            ExecutionStatus::Success => "Success",
            ExecutionStatus::Failure => "Failure",
            ExecutionStatus::Cancelled => "Cancelled",
            ExecutionStatus::Skipped => "Skipped",
        }
    }
}

/// A commit or push that waits for its time.
#[derive(Clone, Debug)]
pub struct ScheduledOperation {
    /// Unique among the operations of a queue; never changes.
    pub id: String,
    /// Working directory of the repository the operation runs in.
    pub repository_path: String,
    pub operation_type: OperationType,
    /// The commit message; for a push it is kept for display only.
    pub commit_message: String,
    /// The branch a push was scheduled for.
    pub branch: Option<String>,
    /// The operation is due once the clock reaches this time.
    pub scheduled_time: Timestamp,
    pub created_at: Timestamp,
    /// The number of attempts that have failed.
    pub retry_count: u32,
    pub state: OperationState,
}

/// What a [`ScheduledOperation`] holds, as mathematical values.
pub struct OperationView {
    pub id: Seq<char>,
    pub repository_path: Seq<char>,
    pub operation_type: OperationType,
    pub commit_message: Seq<char>,
    pub branch: Option<Seq<char>>,
    pub scheduled_time: Timestamp,
    pub created_at: Timestamp,
    pub retry_count: u32,
    pub state: OperationState,
}

/// A copy of an optional string.
pub fn copy_text(s: &Option<String>) -> (r: Option<String>)
    ensures
        text_of(r) == text_of(*s),
{
    match s {
        Some(s) => Some(s.clone()),
        None => None,
    }
}

impl View for ScheduledOperation {
    type V = OperationView;

    open spec fn view(&self) -> OperationView {
        OperationView {
            id: self.id@,
            repository_path: self.repository_path@,
            operation_type: self.operation_type,
            commit_message: self.commit_message@,
            branch: text_of(self.branch),
            scheduled_time: self.scheduled_time,
            created_at: self.created_at,
            retry_count: self.retry_count,
            state: self.state,
        }
    }
}

impl ScheduledOperation {
    /// A copy that holds the same values.
    pub fn duplicate(&self) -> (op: ScheduledOperation)
        ensures
            op@ == self@,
    {
        ScheduledOperation {
            id: self.id.clone(),
            repository_path: self.repository_path.clone(),
            operation_type: self.operation_type,
            commit_message: self.commit_message.clone(),
            branch: copy_text(&self.branch),
            scheduled_time: self.scheduled_time,
            created_at: self.created_at,
            retry_count: self.retry_count,
            state: self.state,
        }
    }
}

impl OperationView {
    /// The line an operation is shown as: its id, the time it is scheduled
    /// for, its kind, its repository and its message.
    pub open spec fn line(self) -> Seq<char> {
        self.id + " | "@ + self.scheduled_time.text() + " | "@ + self.operation_type.label()
            + " | "@ + self.repository_path + " | "@ + self.commit_message
    }
}

impl ScheduledOperation {
    /// The line the operation is shown as.
    pub fn describe(&self) -> (s: String)
        ensures
            s@ == self@.line(),
    {
        let mut s = self.id.clone();
        s.append(" | ");
        s.append(self.scheduled_time.display().as_str());
        s.append(" | ");
        s.append(self.operation_type.as_str());
        s.append(" | ");
        s.append(self.repository_path.as_str());
        s.append(" | ");
        s.append(self.commit_message.as_str());
        s
    }
}

/// The record of one attempt, or of a cancellation. Once written it never
/// changes.
#[derive(Clone, Debug)]
pub struct LogEntry {
    pub id: String,
    pub repository_path: String,
    pub operation_type: OperationType,
    pub commit_message: String,
    pub scheduled_time: Timestamp,
    pub executed_at: Timestamp,
    pub status: ExecutionStatus,
    pub error_message: Option<String>,
}

/// What a [`LogEntry`] holds, as mathematical values.
pub struct LogEntryView {
    pub id: Seq<char>,
    pub repository_path: Seq<char>,
    pub operation_type: OperationType,
    pub commit_message: Seq<char>,
    pub scheduled_time: Timestamp,
    pub executed_at: Timestamp,
    pub status: ExecutionStatus,
    pub error_message: Option<Seq<char>>,
}

impl View for LogEntry {
    type V = LogEntryView;

    open spec fn view(&self) -> LogEntryView {
        LogEntryView {
            id: self.id@,
            repository_path: self.repository_path@,
            operation_type: self.operation_type,
            commit_message: self.commit_message@,
            scheduled_time: self.scheduled_time,
            executed_at: self.executed_at,
            status: self.status,
            error_message: text_of(self.error_message),
        }
    }
}

impl LogEntry {
    /// A copy that holds the same values.
    pub fn duplicate(&self) -> (entry: LogEntry)
        ensures
            entry@ == self@,
    {
        LogEntry {
            id: self.id.clone(),
            repository_path: self.repository_path.clone(),
            operation_type: self.operation_type,
            commit_message: self.commit_message.clone(),
            scheduled_time: self.scheduled_time,
            executed_at: self.executed_at,
            status: self.status,
            error_message: copy_text(&self.error_message),
        }
    }
}

impl LogEntryView {
    /// What a line of the log says of the error, if there was one.
    pub open spec fn error_text(self) -> Seq<char> {
        match self.error_message {
            Some(error) => " | Error: "@ + error,
            None => Seq::empty(),
        }
    }

    /// The line an entry is shown as: the time it was written at, its
    /// status, its repository, its message and its id, and the error if
    /// there was one.
    pub open spec fn line(self) -> Seq<char> {
        self.executed_at.text() + " | "@ + self.status.label() + " | "@ + self.repository_path
            + " | "@ + self.commit_message + " | "@ + self.id + self.error_text()
    }
}

impl LogEntry {
    /// The line the entry is shown as.
    pub fn describe(&self) -> (s: String)
        ensures
            s@ == self@.line(),
    {
        let mut s = self.executed_at.display();
        s.append(" | ");
        s.append(self.status.as_str());
        s.append(" | ");
        s.append(self.repository_path.as_str());
        s.append(" | ");
        s.append(self.commit_message.as_str());
        s.append(" | ");
        s.append(self.id.as_str());
        match &self.error_message {
            Some(error) => {
                s.append(" | Error: ");
                s.append(error.as_str());
            },
            None => {
                assert(s@ + Seq::<char>::empty() =~= s@);
            },
        }
        s
    }
}

/// The log entry for `op` with the given status and error, written at `now`.
pub open spec fn entry_for(
    op: OperationView,
    status: ExecutionStatus,
    error_message: Option<Seq<char>>,
    now: Timestamp,
) -> LogEntryView {
    LogEntryView {
        id: op.id,
        repository_path: op.repository_path,
        operation_type: op.operation_type,
        commit_message: op.commit_message,
        scheduled_time: op.scheduled_time,
        executed_at: now,
        status,
        error_message,
    }
}

/// The log entry for `op` with the given status and error, written at `now`.
pub fn log_entry(
    op: &ScheduledOperation,
    status: ExecutionStatus,
    error_message: Option<String>,
    now: Timestamp,
) -> (entry: LogEntry)
    ensures
        entry@ == entry_for(op@, status, text_of(error_message), now),
{
    LogEntry {
        id: op.id.clone(),
        repository_path: op.repository_path.clone(),
        operation_type: op.operation_type,
        commit_message: op.commit_message.clone(),
        scheduled_time: op.scheduled_time,
        executed_at: now,
        status,
        error_message,
    }
}

/// The queue of operations that wait, in the order they were added.
#[derive(Clone, Debug)]
pub struct ScheduledOperations {
    pub operations: Vec<ScheduledOperation>,
}

/// The operations of a sequence, each as mathematical values.
pub open spec fn operation_views(operations: Seq<ScheduledOperation>) -> Seq<OperationView> {
    Seq::new(operations.len(), |i: int| operations[i]@)
}

impl View for ScheduledOperations {
    type V = Seq<OperationView>;

    open spec fn view(&self) -> Seq<OperationView> {
        operation_views(self.operations@)
    }
}

impl Default for ScheduledOperations {
    fn default() -> (queue: Self)
        ensures
            queue@ == Seq::<OperationView>::empty(),
    {
        let queue = ScheduledOperations { operations: Vec::new() };
        assert(queue@ =~= Seq::<OperationView>::empty());
        queue
    }
}

/// The log of attempts, oldest first. Entries are only ever added.
#[derive(Clone, Debug)]
pub struct OperationLogs {
    pub entries: Vec<LogEntry>,
}

/// The entries of a sequence, each as mathematical values.
pub open spec fn entry_views(entries: Seq<LogEntry>) -> Seq<LogEntryView> {
    Seq::new(entries.len(), |i: int| entries[i]@)
}

impl View for OperationLogs {
    type V = Seq<LogEntryView>;

    open spec fn view(&self) -> Seq<LogEntryView> {
        entry_views(self.entries@)
    }
}

impl Default for OperationLogs {
    fn default() -> (logs: Self)
        ensures
            logs@ == Seq::<LogEntryView>::empty(),
    {
        let logs = OperationLogs { entries: Vec::new() };
        assert(logs@ =~= Seq::<LogEntryView>::empty());
        logs
    }
}

} // verus!
