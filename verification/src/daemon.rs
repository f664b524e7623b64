//! The scheduler. It wakes, picks the operation that is due first, has it
//! run, and writes down how the attempt ended. An attempt that failed goes
//! back into the queue, to be tried again later.
//!
//! Running a command and sleeping are not done here. The loop is a function
//! from the scheduler's state and what just happened to the next state and
//! what to do next; whoever drives it carries that out and reports back.

use crate::error::{ValidationError, ValidationErrorView};
use crate::models::{
    ExecutionStatus, LogEntry, LogEntryView, OperationLogs, OperationState, OperationView,
    ScheduledOperation, ScheduledOperations, entry_for, log_entry,
};
use crate::storage::{
    add_scheduled_operation, append_log_entry, has_unique_ids, holds_id,
    law_add_keeps_ids_unique, law_remove_keeps_ids_unique, lemma_without_id,
    remove_scheduled_operation, without_id,
};
use crate::text::{
    all_digits, chars_of, decimal, decimal_digits, decimal_value, is_digit,
    lemma_decimal_round_trip, lemma_trimmed_is_whole, parse_digits, trim_bounds, trimmed,
};
use crate::time::Timestamp;
use vstd::prelude::*;
use vstd::string::StringExecFns;

verus! {

/// Seconds the scheduler sleeps between two looks at the queue.
pub const POLL_INTERVAL_SECONDS: u64 = 60;

/// Seconds after a failed attempt before the operation is due again.
pub const RETRY_DELAY_SECONDS: i64 = 600;

/// How running an operation ended.
#[derive(Clone, Debug)]
pub enum Outcome {
    /// The commit or push went through.
    Success,
    /// The branch held nothing its remote lacks.
    NothingToPush,
    /// The command failed, with what it said.
    Failure(String),
}

/// An [`Outcome`] as mathematical values.
pub enum OutcomeView {
    Success,
    NothingToPush,
    Failure(Seq<char>),
}

impl View for Outcome {
    type V = OutcomeView;

    open spec fn view(&self) -> OutcomeView {
        match self {
            Outcome::Success => OutcomeView::Success,
            Outcome::NothingToPush => OutcomeView::NothingToPush,
            Outcome::Failure(error) => OutcomeView::Failure(error@),
        }
    }
}

/// What the scheduler is in the middle of.
#[derive(Clone, Debug)]
pub enum DaemonState {
    /// Nothing runs.
    Idle,
    /// This operation has left the queue and runs.
    Executing(ScheduledOperation),
}

/// A [`DaemonState`] as mathematical values.
pub enum DaemonStateView {
    Idle,
    Executing(OperationView),
}

impl View for DaemonState {
    type V = DaemonStateView;

    open spec fn view(&self) -> DaemonStateView {
        match self {
            DaemonState::Idle => DaemonStateView::Idle,
            DaemonState::Executing(operation) => DaemonStateView::Executing(operation@),
        }
    }
}

/// What the scheduler is told.
#[derive(Clone, Debug)]
pub enum DaemonEvent {
    /// The sleep is over; the clock shows `now`.
    Wake { now: Timestamp },
    /// The operation that ran has ended; the clock shows `now`.
    Finished { outcome: Outcome, now: Timestamp },
}

/// A [`DaemonEvent`] as mathematical values.
pub enum DaemonEventView {
    Wake { now: Timestamp },
    Finished { outcome: OutcomeView, now: Timestamp },
}

impl View for DaemonEvent {
    type V = DaemonEventView;

    open spec fn view(&self) -> DaemonEventView {
        match self {
            DaemonEvent::Wake { now } => DaemonEventView::Wake { now: *now },
            DaemonEvent::Finished { outcome, now } => DaemonEventView::Finished {
                outcome: outcome@,
                now: *now,
            },
        }
    }
}

/// What the scheduler asks for next.
#[derive(Clone, Copy, Debug, PartialEq, Eq, Structural)]
pub enum DaemonAction {
    /// Run the operation the state holds, then report how it ended.
    Execute,
    /// Sleep for so many seconds, then report the time.
    Sleep { seconds: u64 },
}

/// Whether `op` may run at `now`: its time has come or passed.
pub open spec fn is_due(op: OperationView, now: Timestamp) -> bool {
    op.scheduled_time.secs <= now.secs
}

/// Whether some operation of the queue is due at `now`.
pub open spec fn has_due(queue: Seq<OperationView>, now: Timestamp) -> bool {
    exists|i: int| 0 <= i < queue.len() && is_due(#[trigger] queue[i], now)
}

/// Whether the operation at `i` is the one to run at `now`: it is due, none
/// is scheduled earlier, and of those scheduled for the same time it stands
/// first in the queue.
pub open spec fn is_next_due(queue: Seq<OperationView>, now: Timestamp, i: int) -> bool {
    &&& 0 <= i < queue.len()
    &&& is_due(queue[i], now)
    &&& forall|j: int|
        0 <= j < queue.len() ==> queue[i].scheduled_time.secs <= (
        #[trigger] queue[j]).scheduled_time.secs
    &&& forall|j: int|
        0 <= j < i ==> (#[trigger] queue[j]).scheduled_time.secs != queue[i].scheduled_time.secs
}

/// The position of the operation to run at `now`, if one is due.
pub open spec fn due_position(queue: Seq<OperationView>, now: Timestamp) -> Option<int> {
    if has_due(queue, now) {
        Some(choose|i: int| is_next_due(queue, now, i))
    } else {
        None
    }
}

/// At most one position holds the operation to run.
pub proof fn lemma_next_due_unique(queue: Seq<OperationView>, now: Timestamp, i: int, j: int)
    requires
        is_next_due(queue, now, i),
        is_next_due(queue, now, j),
    ensures
        i == j,
{
    if i < j {
        assert(queue[i].scheduled_time.secs != queue[j].scheduled_time.secs);
        assert(queue[j].scheduled_time.secs <= queue[i].scheduled_time.secs);
    }
    if j < i {
        assert(queue[j].scheduled_time.secs != queue[i].scheduled_time.secs);
        assert(queue[i].scheduled_time.secs <= queue[j].scheduled_time.secs);
    }
}

/// The time a failed operation is due again: [`RETRY_DELAY_SECONDS`] after
/// `now`, or the last moment the clock can show if that lies beyond it.
pub open spec fn retry_time(now: Timestamp) -> Timestamp {
    if now.secs + RETRY_DELAY_SECONDS <= i64::MAX {
        Timestamp { secs: (now.secs + RETRY_DELAY_SECONDS) as i64 }
    } else {
        Timestamp { secs: i64::MAX }
    }
}

/// The count of failures after one more; it stops at the largest number
/// the counter holds.
pub open spec fn next_retry_count(count: u32) -> u32 {
    if count < u32::MAX {
        (count + 1) as u32
    } else {
        count
    }
}

/// `op` after an attempt that failed at `now`: one more failure counted,
/// marked as failing, due again after the retry delay.
pub open spec fn retried(op: OperationView, now: Timestamp) -> OperationView {
    OperationView {
        retry_count: next_retry_count(op.retry_count),
        state: OperationState::Failing,
        scheduled_time: retry_time(now),
        ..op
    }
}

/// The message a failure is logged under.
pub open spec fn retry_message(message: Seq<char>, count: u32) -> Seq<char> {
    message + " (retry "@ + decimal_digits(count as nat) + ")"@
}

/// The error text a failure is logged with.
pub open spec fn retry_error(count: u32, error: Seq<char>) -> Seq<char> {
    "retry "@ + decimal_digits(count as nat) + ": "@ + error
}

/// The log entry for an attempt at `op` that ended with `outcome` at `now`.
/// A failure is logged with the count of failures so far and with the time
/// of the next attempt.
pub open spec fn entry_after(op: OperationView, outcome: OutcomeView, now: Timestamp) -> LogEntryView {
    match outcome {
        OutcomeView::Success => entry_for(op, ExecutionStatus::Success, None, now),
        OutcomeView::NothingToPush => entry_for(
            op,
            ExecutionStatus::Skipped,
            Some("nothing to push"@),
            now,
        ),
        OutcomeView::Failure(error) => {
            let again = retried(op, now);
            LogEntryView {
                commit_message: retry_message(op.commit_message, again.retry_count),
                ..entry_for(
                    again,
                    ExecutionStatus::Failure,
                    Some(retry_error(again.retry_count, error)),
                    now,
                )
            }
        },
    }
}

/// The queue after an attempt at `op`, which had left it, ended with
/// `outcome` at `now`: a failed operation is back, at the end.
pub open spec fn queue_after(
    queue: Seq<OperationView>,
    op: OperationView,
    outcome: OutcomeView,
    now: Timestamp,
) -> Seq<OperationView> {
    match outcome {
        OutcomeView::Failure(_) => queue.push(retried(op, now)),
        _ => queue,
    }
}

/// The position of the operation to run at `now`, if one is due.
pub fn next_due(queue: &ScheduledOperations, now: Timestamp) -> (position: Option<usize>)
    ensures
        match position {
            Some(i) => due_position(queue@, now) == Some(i as int) && is_next_due(
                queue@,
                now,
                i as int,
            ),
            None => due_position(queue@, now).is_none(),
        },
{
    let n = queue.operations.len();
    if n == 0 {
        return None;
    }
    let mut best: usize = 0;
    let mut i: usize = 1;
    while i < n
        invariant
            n == queue.operations.len(),
            n == queue@.len(),
            0 <= best < i <= n,
            forall|j: int|
                0 <= j < i ==> queue@[best as int].scheduled_time.secs <= (
                #[trigger] queue@[j]).scheduled_time.secs,
            forall|j: int|
                0 <= j < best ==> (#[trigger] queue@[j]).scheduled_time.secs
                    != queue@[best as int].scheduled_time.secs,
        decreases n - i,
    {
        assert(queue@[i as int] == queue.operations@[i as int]@);
        assert(queue@[best as int] == queue.operations@[best as int]@);
        if queue.operations[i].scheduled_time.secs < queue.operations[best].scheduled_time.secs {
            best = i;
        }
        i += 1;
    }
    assert(queue@[best as int] == queue.operations@[best as int]@);
    if queue.operations[best].scheduled_time.secs <= now.secs {
        proof {
            assert(is_due(queue@[best as int], now));
            assert(is_next_due(queue@, now, best as int));
            let chosen = choose|k: int| is_next_due(queue@, now, k);
            lemma_next_due_unique(queue@, now, chosen, best as int);
        }
        Some(best)
    } else {
        proof {
            if has_due(queue@, now) {
                let k = choose|k: int| 0 <= k < queue@.len() && is_due(#[trigger] queue@[k], now);
                assert(queue@[best as int].scheduled_time.secs <= queue@[k].scheduled_time.secs);
            }
        }
        None
    }
}

/// `op` after an attempt that failed at `now`.
pub fn requeue(op: ScheduledOperation, now: Timestamp) -> (again: ScheduledOperation)
    ensures
        again@ == retried(op@, now),
{
    let retry_count = if op.retry_count < u32::MAX {
        op.retry_count + 1
    } else {
        op.retry_count
    };
    let secs = if now.secs <= i64::MAX - RETRY_DELAY_SECONDS {
        now.secs + RETRY_DELAY_SECONDS
    } else {
        i64::MAX
    };
    ScheduledOperation {
        id: op.id,
        repository_path: op.repository_path,
        operation_type: op.operation_type,
        commit_message: op.commit_message,
        branch: op.branch,
        scheduled_time: Timestamp { secs },
        created_at: op.created_at,
        retry_count,
        state: OperationState::Failing,
    }
}

/// Writes down how the attempt at `operation` ended: one entry more in the
/// log, and the operation back in the queue if it failed.
pub fn record_outcome(
    queue: &mut ScheduledOperations,
    logs: &mut OperationLogs,
    operation: ScheduledOperation,
    outcome: Outcome,
    now: Timestamp,
)
    ensures
        final(queue)@ == queue_after(old(queue)@, operation@, outcome@, now),
        final(logs)@ == old(logs)@.push(entry_after(operation@, outcome@, now)),
{
    match outcome {
        Outcome::Success => {
            let entry = log_entry(&operation, ExecutionStatus::Success, None, now);
            append_log_entry(logs, entry);
        },
        Outcome::NothingToPush => {
            let entry = log_entry(
                &operation,
                ExecutionStatus::Skipped,
                Some(String::from_str("nothing to push")),
                now,
            );
            append_log_entry(logs, entry);
        },
        Outcome::Failure(error) => {
            let ghost before = operation@;
            let again = requeue(operation, now);
            let count = decimal(again.retry_count as u64);
            let mut message = again.commit_message.clone();
            message.append(" (retry ");
            message.append(count.as_str());
            message.append(")");
            let mut text = String::from_str("retry ");
            text.append(count.as_str());
            text.append(": ");
            text.append(error.as_str());
            let entry = LogEntry {
                id: again.id.clone(),
                repository_path: again.repository_path.clone(),
                operation_type: again.operation_type,
                commit_message: message,
                scheduled_time: again.scheduled_time,
                executed_at: now,
                status: ExecutionStatus::Failure,
                error_message: Some(text),
            };
            assert(entry@.commit_message =~= retry_message(
                before.commit_message,
                again.retry_count,
            ));
            assert(entry@.error_message == Some(retry_error(again.retry_count, error@)));
            append_log_entry(logs, entry);
            add_scheduled_operation(queue, again);
        },
    }
}

/// What one step of the scheduler comes to.
pub struct DaemonStep {
    pub state: DaemonStateView,
    pub action: DaemonAction,
    pub queue: Seq<OperationView>,
    pub logs: Seq<LogEntryView>,
}

/// One step of the scheduler.
///
/// Woken while idle, it takes the operation that is due first out of the
/// queue, with every other operation of the same id, and asks for it to be
/// run; with nothing due it sleeps. Told how the run ended, it records that
/// and sleeps. Woken while an operation runs, it asks for that run again;
/// told of a run it never asked for, it sleeps.
pub open spec fn daemon_step(
    state: DaemonStateView,
    event: DaemonEventView,
    queue: Seq<OperationView>,
    logs: Seq<LogEntryView>,
) -> DaemonStep {
    let sleep = DaemonAction::Sleep { seconds: POLL_INTERVAL_SECONDS };
    match (state, event) {
        (DaemonStateView::Idle, DaemonEventView::Wake { now }) => match due_position(queue, now) {
            Some(i) => DaemonStep {
                state: DaemonStateView::Executing(queue[i]),
                action: DaemonAction::Execute,
                queue: without_id(queue, queue[i].id),
                logs,
            },
            None => DaemonStep { state: DaemonStateView::Idle, action: sleep, queue, logs },
        },
        (DaemonStateView::Executing(op), DaemonEventView::Finished { outcome, now }) => DaemonStep {
            state: DaemonStateView::Idle,
            action: sleep,
            queue: queue_after(queue, op, outcome, now),
            logs: logs.push(entry_after(op, outcome, now)),
        },
        (DaemonStateView::Executing(op), DaemonEventView::Wake { .. }) => DaemonStep {
            state: DaemonStateView::Executing(op),
            action: DaemonAction::Execute,
            queue,
            logs,
        },
        (DaemonStateView::Idle, DaemonEventView::Finished { .. }) => DaemonStep {
            state: DaemonStateView::Idle,
            action: sleep,
            queue,
            logs,
        },
    }
}

/// One step of the scheduler's loop: from its state and what just happened
/// to its next state and what to do next. The queue and the log are changed
/// in place and need writing back after each step.
pub fn run_daemon_loop(
    state: DaemonState,
    event: DaemonEvent,
    queue: &mut ScheduledOperations,
    logs: &mut OperationLogs,
) -> (next: (DaemonState, DaemonAction))
    ensures
        next.0@ == daemon_step(state@, event@, old(queue)@, old(logs)@).state,
        next.1 == daemon_step(state@, event@, old(queue)@, old(logs)@).action,
        final(queue)@ == daemon_step(state@, event@, old(queue)@, old(logs)@).queue,
        final(logs)@ == daemon_step(state@, event@, old(queue)@, old(logs)@).logs,
{
    let sleep = DaemonAction::Sleep { seconds: POLL_INTERVAL_SECONDS };
    match state {
        DaemonState::Idle => match event {
            DaemonEvent::Wake { now } => match next_due(queue, now) {
                Some(i) => {
                    let operation = queue.operations[i].duplicate();
                    assert(operation@ == queue@[i as int]);
                    remove_scheduled_operation(queue, operation.id.as_str());
                    (DaemonState::Executing(operation), DaemonAction::Execute)
                },
                None => (DaemonState::Idle, sleep),
            },
            DaemonEvent::Finished { .. } => (DaemonState::Idle, sleep),
        },
        DaemonState::Executing(operation) => match event {
            DaemonEvent::Wake { .. } => (DaemonState::Executing(operation), DaemonAction::Execute),
            DaemonEvent::Finished { outcome, now } => {
                record_outcome(queue, logs, operation, outcome, now);
                (DaemonState::Idle, sleep)
            },
        },
    }
}

/// A failed attempt puts the operation back.
///
/// Where an operation that was due at `now` fails then, it is in the queue
/// again under its id, with one more failure counted and a scheduled time
/// later than the one it had; the log has grown by one entry, a failure
/// under that id, which names the count and carries the new time.
pub proof fn law_failure_requeues(
    queue: Seq<OperationView>,
    logs: Seq<LogEntryView>,
    op: OperationView,
    error: Seq<char>,
    now: Timestamp,
)
    requires
        is_due(op, now),
        now.secs + RETRY_DELAY_SECONDS <= i64::MAX,
        op.retry_count < u32::MAX,
    ensures
        ({
            let step = daemon_step(
                DaemonStateView::Executing(op),
                DaemonEventView::Finished { outcome: OutcomeView::Failure(error), now },
                queue,
                logs,
            );
            let again = retried(op, now);
            &&& step.state == DaemonStateView::Idle
            &&& step.queue == queue.push(again)
            &&& holds_id(step.queue, op.id)
            &&& again.id == op.id
            &&& again.retry_count == op.retry_count + 1
            &&& again.state == OperationState::Failing
            &&& again.scheduled_time.secs == now.secs + RETRY_DELAY_SECONDS
            &&& again.scheduled_time.secs > op.scheduled_time.secs
            &&& step.logs == logs.push(entry_after(op, OutcomeView::Failure(error), now))
            &&& step.logs.last().id == op.id
            &&& step.logs.last().status == ExecutionStatus::Failure
            &&& step.logs.last().scheduled_time == again.scheduled_time
            &&& step.logs.last().executed_at == now
            &&& step.logs.last().error_message == Some(retry_error(again.retry_count, error))
        }),
{
    let again = retried(op, now);
    let after = queue.push(again);
    assert(after[queue.len() as int].id == op.id);
}

/// Failures add up.
///
/// Where a new operation fails three times in a row, each time when it was
/// due, the three log entries count 1, 2 and 3 failures, each names a
/// scheduled time later than the one before, and after each failure the
/// operation is in the queue under its id.
pub proof fn law_three_failures(
    op: OperationView,
    errors: (Seq<char>, Seq<char>, Seq<char>),
    times: (Timestamp, Timestamp, Timestamp),
    queues: (Seq<OperationView>, Seq<OperationView>, Seq<OperationView>),
)
    requires
        op.retry_count == 0,
        is_due(op, times.0),
        is_due(retried(op, times.0), times.1),
        is_due(retried(retried(op, times.0), times.1), times.2),
        times.2.secs + RETRY_DELAY_SECONDS <= i64::MAX,
    ensures
        ({
            let first = retried(op, times.0);
            let second = retried(first, times.1);
            let third = retried(second, times.2);
            let entry1 = entry_after(op, OutcomeView::Failure(errors.0), times.0);
            let entry2 = entry_after(first, OutcomeView::Failure(errors.1), times.1);
            let entry3 = entry_after(second, OutcomeView::Failure(errors.2), times.2);
            &&& first.retry_count == 1 && second.retry_count == 2 && third.retry_count == 3
            &&& first.id == op.id && second.id == op.id && third.id == op.id
            &&& entry1.id == op.id && entry2.id == op.id && entry3.id == op.id
            &&& entry1.status == ExecutionStatus::Failure
            &&& entry2.status == ExecutionStatus::Failure
            &&& entry3.status == ExecutionStatus::Failure
            &&& entry1.error_message == Some(retry_error(1, errors.0))
            &&& entry2.error_message == Some(retry_error(2, errors.1))
            &&& entry3.error_message == Some(retry_error(3, errors.2))
            &&& entry1.commit_message == retry_message(op.commit_message, 1)
            &&& entry2.commit_message == retry_message(op.commit_message, 2)
            &&& entry3.commit_message == retry_message(op.commit_message, 3)
            &&& op.scheduled_time.secs < entry1.scheduled_time.secs
            &&& entry1.scheduled_time.secs < entry2.scheduled_time.secs
            &&& entry2.scheduled_time.secs < entry3.scheduled_time.secs
            &&& holds_id(queue_after(queues.0, op, OutcomeView::Failure(errors.0), times.0), op.id)
            &&& holds_id(
                queue_after(queues.1, first, OutcomeView::Failure(errors.1), times.1),
                op.id,
            )
            &&& holds_id(
                queue_after(queues.2, second, OutcomeView::Failure(errors.2), times.2),
                op.id,
            )
        }),
{
    let first = retried(op, times.0);
    let second = retried(first, times.1);
    law_failure_requeues(queues.0, Seq::empty(), op, errors.0, times.0);
    law_failure_requeues(queues.1, Seq::empty(), first, errors.1, times.1);
    law_failure_requeues(queues.2, Seq::empty(), second, errors.2, times.2);
}

/// Whether the scheduler and the queue fit together: no two operations of
/// the queue share an id, and none has the id of the operation that runs.
pub open spec fn is_consistent(state: DaemonStateView, queue: Seq<OperationView>) -> bool {
    &&& has_unique_ids(queue)
    &&& state matches DaemonStateView::Executing(op) ==> !holds_id(queue, op.id)
}

/// The scheduler keeps the ids apart and the log growing.
///
/// Whatever the scheduler is told: where no two operations shared an id
/// and none had the id of the one that ran, that is so after the step; and
/// the log after the step begins with the log before it and is at most one
/// entry longer.
pub proof fn law_step_keeps_order(
    state: DaemonStateView,
    event: DaemonEventView,
    queue: Seq<OperationView>,
    logs: Seq<LogEntryView>,
)
    ensures
        is_consistent(state, queue) ==> is_consistent(
            daemon_step(state, event, queue, logs).state,
            daemon_step(state, event, queue, logs).queue,
        ),
        logs.is_prefix_of(daemon_step(state, event, queue, logs).logs),
        daemon_step(state, event, queue, logs).logs.len() <= logs.len() + 1,
{
    let step = daemon_step(state, event, queue, logs);
    match (state, event) {
        (DaemonStateView::Idle, DaemonEventView::Wake { now }) => {
            if has_due(queue, now) {
                lemma_some_is_next_due(queue, now);
                let i = choose|i: int| is_next_due(queue, now, i);
                lemma_without_id(queue, queue[i].id);
                if has_unique_ids(queue) {
                    law_remove_keeps_ids_unique(queue, queue[i].id);
                }
            }
        },
        (DaemonStateView::Executing(op), DaemonEventView::Finished { outcome, now }) => {
            if is_consistent(state, queue) {
                if outcome is Failure {
                    law_add_keeps_ids_unique(queue, retried(op, now));
                }
            }
        },
        _ => {},
    }
}

/// Taking the due operation out leaves none of its id behind.
///
/// Where the scheduler wakes with an operation due, that operation is what
/// it runs, and the queue it leaves holds no operation of that id; with
/// nothing due it changes nothing and sleeps.
pub proof fn law_wake_takes_the_due_operation(
    queue: Seq<OperationView>,
    logs: Seq<LogEntryView>,
    now: Timestamp,
)
    ensures
        ({
            let step = daemon_step(
                DaemonStateView::Idle,
                DaemonEventView::Wake { now },
                queue,
                logs,
            );
            &&& step.logs == logs
            &&& has_due(queue, now) ==> exists|i: int|
                {
                    &&& is_next_due(queue, now, i)
                    &&& step.state == DaemonStateView::Executing(queue[i])
                    &&& step.action == DaemonAction::Execute
                    &&& !holds_id(step.queue, queue[i].id)
                    &&& step.queue.len() < queue.len()
                }
            &&& !has_due(queue, now) ==> {
                &&& step.state == DaemonStateView::Idle
                &&& step.action == DaemonAction::Sleep { seconds: POLL_INTERVAL_SECONDS }
                &&& step.queue == queue
            }
        }),
{
    if has_due(queue, now) {
        lemma_some_is_next_due(queue, now);
        let i = choose|i: int| is_next_due(queue, now, i);
        lemma_without_id(queue, queue[i].id);
        assert(queue[i].id == queue[i].id);
        assert(holds_id(queue, queue[i].id));
    }
}

/// Where an operation is due, one position holds the operation to run.
pub proof fn lemma_some_is_next_due(queue: Seq<OperationView>, now: Timestamp)
    requires
        has_due(queue, now),
    ensures
        exists|i: int| is_next_due(queue, now, i),
    decreases queue.len(),
{
    let k = choose|k: int| 0 <= k < queue.len() && is_due(#[trigger] queue[k], now);
    let front = queue.drop_last();
    let last = queue.len() - 1;
    if has_due(front, now) {
        lemma_some_is_next_due(front, now);
        let b = choose|b: int| is_next_due(front, now, b);
        assert(queue[b] == front[b]);
        if queue[last].scheduled_time.secs < queue[b].scheduled_time.secs {
            assert forall|j: int| 0 <= j < last implies (#[trigger] queue[j]).scheduled_time.secs
                != queue[last].scheduled_time.secs by {
                assert(front[j] == queue[j]);
                assert(front[b].scheduled_time.secs <= front[j].scheduled_time.secs);
            }
            assert forall|j: int| 0 <= j < queue.len() implies queue[last].scheduled_time.secs <= (
            #[trigger] queue[j]).scheduled_time.secs by {
                if j < last {
                    assert(front[j] == queue[j]);
                    assert(front[b].scheduled_time.secs <= front[j].scheduled_time.secs);
                }
            }
            assert(is_next_due(queue, now, last));
        } else {
            assert forall|j: int| 0 <= j < queue.len() implies queue[b].scheduled_time.secs <= (
            #[trigger] queue[j]).scheduled_time.secs by {
                if j < last {
                    assert(front[j] == queue[j]);
                    assert(front[b].scheduled_time.secs <= front[j].scheduled_time.secs);
                }
            }
            assert forall|j: int| 0 <= j < b implies (#[trigger] queue[j]).scheduled_time.secs
                != queue[b].scheduled_time.secs by {
                assert(front[j] == queue[j]);
            }
            assert(is_next_due(queue, now, b));
        }
    } else {
        if k < last {
            assert(front[k] == queue[k]);
            assert(is_due(front[k], now));
            assert(false);
        }
        assert forall|j: int| 0 <= j < queue.len() implies queue[last].scheduled_time.secs <= (
        #[trigger] queue[j]).scheduled_time.secs by {
            if j < last {
                assert(front[j] == queue[j]);
                assert(!is_due(front[j], now));
            }
        }
        assert forall|j: int| 0 <= j < last implies (#[trigger] queue[j]).scheduled_time.secs
            != queue[last].scheduled_time.secs by {
            assert(front[j] == queue[j]);
            assert(!is_due(front[j], now));
        }
        assert(is_next_due(queue, now, last));
    }
}

/// The process id that the content of the daemon's pid file holds: a
/// number written in digits, with a `+` before it or not, with white space
/// around it or not, and no larger than a process id can be.
pub open spec fn pid_in(content: Seq<char>) -> Option<u32> {
    let text = trimmed(content);
    let digits = if text.len() > 0 && text[0] == '+' {
        text.drop_first()
    } else {
        text
    };
    if digits.len() > 0 && all_digits(digits) && decimal_value(digits) <= u32::MAX {
        Some(decimal_value(digits) as u32)
    } else {
        None
    }
}

/// Reads the process id out of the content of the daemon's pid file;
/// `None` where the content is not a process id.
pub fn read_pid_file(content: &str) -> (pid: Option<u32>)
    ensures
        pid == pid_in(content@),
{
    let v = chars_of(content);
    let (start, end) = trim_bounds(&v);
    let ghost text = trimmed(v@);
    let from = if start < end && v[start] == '+' {
        start + 1
    } else {
        start
    };
    let ghost digits = v@.subrange(from as int, end as int);
    proof {
        if start < end {
            assert(text[0] == v@[start as int]);
        }
        if from > start {
            assert(digits =~= text.drop_first());
        } else {
            assert(digits == text);
        }
    }
    if from == end {
        return None;
    }
    match parse_digits(&v, from, end, 0xffff_ffff) {
        Some(pid) => Some(pid as u32),
        None => None,
    }
}

/// The content of the daemon's pid file for the process id `pid`: the
/// number in digits.
pub fn write_pid_file(pid: u32) -> (content: String)
    ensures
        content@ == decimal_digits(pid as nat),
{
    decimal(pid as u64)
}

/// What is written as a process id is read back as that process id.
pub proof fn law_pid_round_trip(pid: u32)
    ensures
        pid_in(decimal_digits(pid as nat)) == Some(pid),
{
    let s = decimal_digits(pid as nat);
    lemma_decimal_round_trip(pid as nat);
    assert(is_digit(s[0]));
    assert(is_digit(s.last()));
    lemma_trimmed_is_whole(s);
}

/// Whether the daemon runs: its pid file holds a process id, and the
/// process of that id is alive.
pub fn is_daemon_running(pid: Option<u32>, alive: bool) -> (running: bool)
    ensures
        running == (pid is Some && alive),
{
    pid.is_some() && alive
}

/// Whether the daemon may be started: not while one runs already. `pid`
/// and `alive` are as for [`is_daemon_running`].
pub fn start_daemon(pid: Option<u32>, alive: bool) -> (result: Result<(), ValidationError>)
    ensures
        match pid {
            Some(id) if alive => result matches Err(e) && e@
                == ValidationErrorView::AlreadyRunning(id),
            _ => result is Ok,
        },
{
    match pid {
        Some(id) => {
            if alive {
                Err(ValidationError::AlreadyRunning(id))
            } else {
                Ok(())
            }
        },
        None => Ok(()),
    }
}

/// How often the daemon is looked at after it was told to stop.
pub const STOP_LOOKS: u32 = 10;

/// Milliseconds between two looks at a daemon that was told to stop.
pub const STOP_WAIT_MILLIS: u64 = 500;

/// How far the stopping of the daemon has come.
#[derive(Clone, Copy, Debug, PartialEq, Eq, Structural)]
pub enum StopState {
    /// Nothing was done yet.
    Start,
    /// The daemon was told to stop and has been found alive so many times
    /// since.
    Signalled { looks: u32 },
}

/// What to do next to stop the daemon.
#[derive(Clone, Copy, Debug, PartialEq, Eq, Structural)]
pub enum StopAction {
    /// Tell the daemon to terminate, wait, and report whether it is alive.
    Terminate { wait_millis: u64 },
    /// Wait, and report whether it is alive.
    Wait { millis: u64 },
    /// It is gone: delete the pid file. The command has succeeded.
    RemovePidFile,
    /// The daemon did not run in the first place. The command has failed.
    FailNotRunning,
    /// The daemon is still alive after the last look. The command has
    /// failed.
    FailDidNotStop,
}

/// One step of stopping the daemon, from how far it has come and whether
/// the daemon runs.
///
/// A daemon that does not run cannot be stopped. One that runs is told to
/// terminate and then looked at every half second, ten times at most: once
/// it is gone the pid file goes too; if it outlives the last look the
/// command fails.
pub open spec fn stop_step(state: StopState, running: bool) -> (StopState, StopAction) {
    match state {
        StopState::Start => if running {
            (
                StopState::Signalled { looks: 0 },
                StopAction::Terminate { wait_millis: STOP_WAIT_MILLIS },
            )
        } else {
            (StopState::Start, StopAction::FailNotRunning)
        },
        StopState::Signalled { looks } => if !running {
            (state, StopAction::RemovePidFile)
        } else if looks + 1 < STOP_LOOKS {
            (
                StopState::Signalled { looks: (looks + 1) as u32 },
                StopAction::Wait { millis: STOP_WAIT_MILLIS },
            )
        } else {
            (state, StopAction::FailDidNotStop)
        },
    }
}

/// One step of stopping the daemon: from how far it has come and whether
/// the daemon runs to what to do next.
pub fn stop_daemon(state: StopState, running: bool) -> (next: (StopState, StopAction))
    ensures
        next == stop_step(state, running),
{
    match state {
        StopState::Start => {
            if running {
                (
                    StopState::Signalled { looks: 0 },
                    StopAction::Terminate { wait_millis: STOP_WAIT_MILLIS },
                )
            } else {
                (StopState::Start, StopAction::FailNotRunning)
            }
        },
        StopState::Signalled { looks } => {
            if !running {
                (state, StopAction::RemovePidFile)
            } else if looks < STOP_LOOKS - 1 {
                (
                    StopState::Signalled { looks: looks + 1 },
                    StopAction::Wait { millis: STOP_WAIT_MILLIS },
                )
            } else {
                (state, StopAction::FailDidNotStop)
            }
        },
    }
}

} // verus!
