//! What the commands do to the queue and the log: scheduling, cancelling,
//! and the order in which the two are listed.

use crate::error::{ValidationError, ValidationErrorView};
use crate::models::{
    ExecutionStatus, LogEntry, LogEntryView, OperationLogs, OperationState, OperationType,
    OperationView, ScheduledOperation, ScheduledOperations, entry_for, entry_views, log_entry,
    operation_views,
};
use crate::order::{law_stable_order_exists, stable_order, stable_order_of};
use crate::schedule::{ParseError, parse_time_spec_at, time_spec};
use crate::storage::{
    add_scheduled_operation, append_log_entry, holds_id, lemma_without_id, lemma_without_id_push,
    remove_scheduled_operation, without_id,
};
use crate::text::text_of;
use crate::time::{Timestamp, current_time};
use vstd::prelude::*;
use vstd::string::StringExecFns;

verus! {

/// What is to be scheduled.
#[derive(Clone, Debug)]
pub enum ScheduleAction {
    /// A commit with this message.
    Commit { message: String },
    /// A push of the current branch.
    Push,
}

/// The message a scheduled operation is kept under: the commit's own, or
/// the word `push`.
pub open spec fn action_message(action: ScheduleAction) -> Seq<char> {
    match action {
        ScheduleAction::Commit { message } => message@,
        ScheduleAction::Push => "push"@,
    }
}

/// The kind of operation an action schedules.
pub open spec fn action_type(action: ScheduleAction) -> OperationType {
    match action {
        ScheduleAction::Commit { .. } => OperationType::Commit,
        ScheduleAction::Push => OperationType::Push,
    }
}

/// The kind of operation and the message that an action is scheduled as.
pub fn schedule_request(action: ScheduleAction) -> (request: (OperationType, String))
    ensures
        request.0 == action_type(action),
        request.1@ == action_message(action),
{
    match action {
        ScheduleAction::Commit { message } => (OperationType::Commit, message),
        ScheduleAction::Push => (OperationType::Push, String::from_str("push")),
    }
}

/// The operation that scheduling creates: new, never tried, with the
/// branch kept for a push only.
pub open spec fn new_operation(
    id: Seq<char>,
    repository_path: Seq<char>,
    operation_type: OperationType,
    message: Seq<char>,
    branch: Option<Seq<char>>,
    scheduled_time: Timestamp,
    now: Timestamp,
) -> OperationView {
    OperationView {
        id,
        repository_path,
        operation_type,
        commit_message: message,
        branch: if operation_type == OperationType::Push {
            branch
        } else {
            None
        },
        scheduled_time,
        created_at: now,
        retry_count: 0,
        state: OperationState::Pending,
    }
}

/// The text of what scheduling hands back.
pub open spec fn scheduled_view(result: Result<ScheduledOperation, ParseError>) -> Result<
    OperationView,
    ParseError,
> {
    match result {
        Ok(operation) => Ok(operation@),
        Err(error) => Err(error),
    }
}

/// Whether scheduling under the id `id` at `now` turns the queue `before`
/// into the queue `after` and hands back `result`: where the expression
/// names a time, the new operation is handed back and stands last in the
/// queue; where it names none, the error is handed back and the queue is as
/// it was.
pub open spec fn schedules(
    before: Seq<OperationView>,
    after: Seq<OperationView>,
    result: Result<OperationView, ParseError>,
    id: Seq<char>,
    repository_path: Seq<char>,
    operation_type: OperationType,
    message: Seq<char>,
    branch: Option<Seq<char>>,
    expression: Seq<char>,
    now: Timestamp,
) -> bool {
    match time_spec(expression, now) {
        Ok(time) => {
            let operation = new_operation(
                id,
                repository_path,
                operation_type,
                message,
                branch,
                time,
                now,
            );
            result == Ok::<OperationView, ParseError>(operation) && after == before.push(operation)
        },
        Err(error) => result == Err::<OperationView, ParseError>(error) && after == before,
    }
}

/// Schedules an operation for the time that `expression` names as seen from
/// `now`, under the id `id`: the new operation goes to the end of the
/// queue, and a copy of it is handed back. An expression that names no
/// time leaves the queue as it is.
pub fn schedule_operation_at(
    queue: &mut ScheduledOperations,
    id: String,
    repository_path: String,
    operation_type: OperationType,
    message: String,
    branch: Option<String>,
    expression: &str,
    now: Timestamp,
) -> (result: Result<ScheduledOperation, ParseError>)
    ensures
        schedules(
            old(queue)@,
            final(queue)@,
            scheduled_view(result),
            id@,
            repository_path@,
            operation_type,
            message@,
            text_of(branch),
            expression@,
            now,
        ),
{
    let scheduled_time = match parse_time_spec_at(expression, now) {
        Ok(time) => time,
        Err(error) => {
            return Err(error);
        },
    };
    let branch = match operation_type {
        OperationType::Push => branch,
        OperationType::Commit => None,
    };
    let operation = ScheduledOperation {
        id,
        repository_path,
        operation_type,
        commit_message: message,
        branch,
        scheduled_time,
        created_at: now,
        retry_count: 0,
        state: OperationState::Pending,
    };
    let copy = operation.duplicate();
    add_scheduled_operation(queue, operation);
    Ok(copy)
}

/// A new id for an operation: a random UUID from `uuid::Uuid::new_v4`,
/// written out. Nothing is claimed of it; that two ids differ is a matter
/// of chance.
#[verifier::external_body]
fn new_operation_id() -> (id: String) {
    uuid::Uuid::new_v4().to_string()
}

/// Schedules an operation for the time that `expression` names, under a
/// new id and against the clock. The new operation goes to the end of the
/// queue, and a copy of it is handed back; an expression that names no time
/// leaves the queue as it is.
pub fn schedule_operation(
    queue: &mut ScheduledOperations,
    repository_path: String,
    operation_type: OperationType,
    message: String,
    branch: Option<String>,
    expression: &str,
) -> (result: Result<ScheduledOperation, ParseError>)
    ensures
        exists|id: Seq<char>, now: Timestamp| #[trigger]
            schedules(
                old(queue)@,
                final(queue)@,
                scheduled_view(result),
                id,
                repository_path@,
                operation_type,
                message@,
                text_of(branch),
                expression@,
                now,
            ),
{
    let now = current_time();
    let id = new_operation_id();
    let ghost id_text = id@;
    let result = schedule_operation_at(
        queue,
        id,
        repository_path,
        operation_type,
        message,
        branch,
        expression,
        now,
    );
    assert(schedules(
        old(queue)@,
        queue@,
        scheduled_view(result),
        id_text,
        repository_path@,
        operation_type,
        message@,
        text_of(branch),
        expression@,
        now,
    ));
    result
}

/// Whether the operation at `i` is the first of the queue with the id `id`.
pub open spec fn is_first_with_id(queue: Seq<OperationView>, id: Seq<char>, i: int) -> bool {
    &&& 0 <= i < queue.len()
    &&& queue[i].id == id
    &&& forall|j: int| 0 <= j < i ==> (#[trigger] queue[j]).id != id
}

/// The position of the first operation of the queue with the id `id`.
pub open spec fn position_of(queue: Seq<OperationView>, id: Seq<char>) -> Option<int> {
    if holds_id(queue, id) {
        Some(choose|i: int| is_first_with_id(queue, id, i))
    } else {
        None
    }
}

/// At most one position holds the first operation with an id.
pub proof fn lemma_first_with_id_unique(queue: Seq<OperationView>, id: Seq<char>, i: int, j: int)
    requires
        is_first_with_id(queue, id, i),
        is_first_with_id(queue, id, j),
    ensures
        i == j,
{
    if i < j {
        assert(queue[i].id != id);
    }
    if j < i {
        assert(queue[j].id != id);
    }
}

/// The position of the first operation of the queue with the id `id`.
pub fn find_operation(queue: &ScheduledOperations, operation_id: &str) -> (position: Option<usize>)
    ensures
        match position {
            Some(i) => position_of(queue@, operation_id@) == Some(i as int) && is_first_with_id(
                queue@,
                operation_id@,
                i as int,
            ),
            None => position_of(queue@, operation_id@).is_none() && !holds_id(
                queue@,
                operation_id@,
            ),
        },
{
    let wanted = operation_id.to_owned();
    let n = queue.operations.len();
    let mut i: usize = 0;
    while i < n
        invariant
            n == queue.operations.len(),
            n == queue@.len(),
            i <= n,
            wanted@ == operation_id@,
            forall|j: int| 0 <= j < i ==> (#[trigger] queue@[j]).id != operation_id@,
        decreases n - i,
    {
        assert(queue@[i as int] == queue.operations@[i as int]@);
        if queue.operations[i].id == wanted {
            proof {
                assert(is_first_with_id(queue@, operation_id@, i as int));
                assert(holds_id(queue@, operation_id@));
                let chosen = choose|k: int| is_first_with_id(queue@, operation_id@, k);
                lemma_first_with_id_unique(queue@, operation_id@, chosen, i as int);
            }
            return Some(i);
        }
        i += 1;
    }
    None
}

/// What cancelling comes to.
pub struct Cancelled {
    pub queue: Seq<OperationView>,
    pub logs: Seq<LogEntryView>,
}

/// The queue and the log after the operation with the id `id` was
/// cancelled at `now`: every operation of that id is gone from the queue,
/// and the log has one entry more, which records the first of them as
/// cancelled. `None` where the queue holds no such operation.
pub open spec fn cancelled(
    queue: Seq<OperationView>,
    logs: Seq<LogEntryView>,
    id: Seq<char>,
    now: Timestamp,
) -> Option<Cancelled> {
    match position_of(queue, id) {
        Some(i) => Some(
            Cancelled {
                queue: without_id(queue, id),
                logs: logs.push(entry_for(queue[i], ExecutionStatus::Cancelled, None, now)),
            },
        ),
        None => None,
    }
}

/// Cancels the operation with the id `operation_id`: it leaves the queue,
/// and the log records it as cancelled at `now`. Where the queue holds no
/// such operation nothing changes and the call fails.
pub fn cancel_operation(
    queue: &mut ScheduledOperations,
    logs: &mut OperationLogs,
    operation_id: &str,
    now: Timestamp,
) -> (result: Result<(), ValidationError>)
    ensures
        match cancelled(old(queue)@, old(logs)@, operation_id@, now) {
            Some(after) => {
                &&& result is Ok
                &&& final(queue)@ == after.queue
                &&& final(logs)@ == after.logs
            },
            None => {
                &&& result matches Err(error)
                &&& error@ == ValidationErrorView::OperationNotFound(operation_id@)
                &&& final(queue)@ == old(queue)@
                &&& final(logs)@ == old(logs)@
            },
        },
{
    match find_operation(queue, operation_id) {
        None => Err(ValidationError::OperationNotFound(operation_id.to_owned())),
        Some(i) => {
            assert(queue@[i as int] == queue.operations@[i as int]@);
            let entry = log_entry(&queue.operations[i], ExecutionStatus::Cancelled, None, now);
            remove_scheduled_operation(queue, operation_id);
            append_log_entry(logs, entry);
            Ok(())
        },
    }
}

/// What is scheduled is in the queue, and cancelling takes it out again.
///
/// Where an operation is added to a queue that does not hold its id, the
/// queue holds it, last, with the id, kind, message and scheduled time it
/// was given. Cancelling that id then gives back the queue as it was before,
/// which holds no operation of that id, and adds exactly one entry to the
/// log: the operation, cancelled.
pub proof fn law_schedule_then_cancel(
    queue: Seq<OperationView>,
    logs: Seq<LogEntryView>,
    op: OperationView,
    now: Timestamp,
)
    requires
        !holds_id(queue, op.id),
    ensures
        ({
            let scheduled = queue.push(op);
            let entry = entry_for(op, ExecutionStatus::Cancelled, None, now);
            &&& holds_id(scheduled, op.id)
            &&& scheduled.last() == op
            &&& position_of(scheduled, op.id) == Some(queue.len() as int)
            &&& cancelled(scheduled, logs, op.id, now) == Some(
                Cancelled { queue, logs: logs.push(entry) },
            )
            &&& !holds_id(queue, op.id)
            &&& entry.id == op.id
            &&& entry.status == ExecutionStatus::Cancelled
            &&& entry.operation_type == op.operation_type
            &&& entry.commit_message == op.commit_message
            &&& entry.scheduled_time == op.scheduled_time
        }),
{
    let scheduled = queue.push(op);
    let last = queue.len() as int;
    assert(scheduled[last] == op);
    assert(holds_id(scheduled, op.id));
    assert forall|j: int| 0 <= j < last implies (#[trigger] scheduled[j]).id != op.id by {
        assert(scheduled[j] == queue[j]);
    }
    assert(is_first_with_id(scheduled, op.id, last));
    let chosen = choose|k: int| is_first_with_id(scheduled, op.id, k);
    lemma_first_with_id_unique(scheduled, op.id, chosen, last);
    lemma_without_id_push(queue, op, op.id);
    lemma_without_id(queue, op.id);
}

/// How many characters of a message a row of the log shows at most.
pub const MESSAGE_WIDTH: usize = 30;

/// A message as a row of the log shows it: whole while it has no more than
/// [`MESSAGE_WIDTH`] characters, else cut down to three less than that
/// and followed by three dots.
pub open spec fn shortened(message: Seq<char>) -> Seq<char> {
    if message.len() > MESSAGE_WIDTH {
        message.subrange(0, MESSAGE_WIDTH - 3) + "..."@
    } else {
        message
    }
}

/// A message as a row of the log shows it.
pub fn shorten_message(message: &str) -> (shown: String)
    ensures
        shown@ == shortened(message@),
{
    if message.unicode_len() > MESSAGE_WIDTH {
        let mut shown = String::from_str(message.substring_char(0, MESSAGE_WIDTH - 3));
        shown.append("...");
        shown
    } else {
        String::from_str(message)
    }
}

/// The terminal code that sets the colour a status is shown in: green for
/// a success, red for a failure, yellow for a cancellation, cyan for an
/// operation that was skipped.
pub open spec fn status_colour(status: ExecutionStatus) -> Seq<char> {
    match status {
        ExecutionStatus::Success => "\x1b[32m"@,
        ExecutionStatus::Failure => "\x1b[31m"@,
        ExecutionStatus::Cancelled => "\x1b[33m"@,
        ExecutionStatus::Skipped => "\x1b[36m"@,
    }
}

/// A status as a row of the log shows it: its word between the code for
/// its colour and the code that ends the colour.
pub open spec fn status_shown(status: ExecutionStatus) -> Seq<char> {
    status_colour(status) + status.label() + "\x1b[0m"@
}

/// A status as a row of the log shows it, in its colour.
pub fn coloured_status(status: ExecutionStatus) -> (shown: String)
    ensures
        shown@ == status_shown(status),
{
    let mut shown = match status {
        ExecutionStatus::Success => String::from_str("\x1b[32m"),
        ExecutionStatus::Failure => String::from_str("\x1b[31m"),
        ExecutionStatus::Cancelled => String::from_str("\x1b[33m"),
        ExecutionStatus::Skipped => String::from_str("\x1b[36m"),
    };
    shown.append(status.as_str());
    shown.append("\x1b[0m");
    shown
}

/// The times the operations of a queue are scheduled for, in seconds.
pub open spec fn scheduled_times(queue: Seq<OperationView>) -> Seq<i64> {
    Seq::new(queue.len(), |i: int| queue[i].scheduled_time.secs)
}

/// The times the entries of a log were written at, in seconds.
pub open spec fn execution_times(logs: Seq<LogEntryView>) -> Seq<i64> {
    Seq::new(logs.len(), |i: int| logs[i].executed_at.secs)
}

/// The items at the positions that `order` lists, in that order.
pub open spec fn arranged<T>(items: Seq<T>, order: Seq<usize>) -> Seq<T> {
    Seq::new(order.len(), |k: int| items[order[k] as int])
}

/// The queue as it is listed: the operation that is due first comes first,
/// and operations due at the same time keep the order they have in the
/// queue.
pub open spec fn operations_listed(queue: Seq<OperationView>) -> Seq<OperationView> {
    arranged(queue, stable_order_of(scheduled_times(queue), false))
}

/// The log as it is listed: the entry written last comes first, and
/// entries written at the same time keep the order they have in the log.
pub open spec fn logs_listed(logs: Seq<LogEntryView>) -> Seq<LogEntryView> {
    arranged(logs, stable_order_of(execution_times(logs), true))
}

/// The operations of the queue in the order they are listed in: by
/// scheduled time, the earliest first.
pub fn list_operations(queue: &ScheduledOperations) -> (listed: Vec<ScheduledOperation>)
    ensures
        operation_views(listed@) == operations_listed(queue@),
{
    let n = queue.operations.len();
    let mut keys: Vec<i64> = Vec::new();
    let mut i: usize = 0;
    while i < n
        invariant
            n == queue.operations.len(),
            i <= n,
            keys@ == scheduled_times(queue@).subrange(0, i as int),
        decreases n - i,
    {
        keys.push(queue.operations[i].scheduled_time.secs);
        i += 1;
        assert(keys@ =~= scheduled_times(queue@).subrange(0, i as int));
    }
    assert(keys@ =~= scheduled_times(queue@));
    let order = stable_order(&keys, false);
    let mut listed: Vec<ScheduledOperation> = Vec::new();
    let mut k: usize = 0;
    while k < n
        invariant
            n == queue.operations.len(),
            n == order.len(),
            k <= n,
            forall|a: int| 0 <= a < order.len() ==> (#[trigger] order@[a]) < n,
            operation_views(listed@) == arranged(queue@, order@).subrange(0, k as int),
        decreases n - k,
    {
        let ghost before = operation_views(listed@);
        let position = order[k];
        assert(order@[k as int] < n);
        assert(queue@[position as int] == queue.operations@[position as int]@);
        listed.push(queue.operations[position].duplicate());
        assert(operation_views(listed@) =~= before.push(queue@[position as int]));
        k += 1;
        assert(operation_views(listed@) =~= arranged(queue@, order@).subrange(0, k as int));
    }
    assert(operation_views(listed@) =~= arranged(queue@, order@));
    listed
}

/// The entries of the log in the order they are listed in: by the time
/// they were written at, the latest first.
pub fn list_logs(logs: &OperationLogs) -> (listed: Vec<LogEntry>)
    ensures
        entry_views(listed@) == logs_listed(logs@),
{
    let n = logs.entries.len();
    let mut keys: Vec<i64> = Vec::new();
    let mut i: usize = 0;
    while i < n
        invariant
            n == logs.entries.len(),
            i <= n,
            keys@ == execution_times(logs@).subrange(0, i as int),
        decreases n - i,
    {
        keys.push(logs.entries[i].executed_at.secs);
        i += 1;
        assert(keys@ =~= execution_times(logs@).subrange(0, i as int));
    }
    assert(keys@ =~= execution_times(logs@));
    let order = stable_order(&keys, true);
    let mut listed: Vec<LogEntry> = Vec::new();
    let mut k: usize = 0;
    while k < n
        invariant
            n == logs.entries.len(),
            n == order.len(),
            k <= n,
            forall|a: int| 0 <= a < order.len() ==> (#[trigger] order@[a]) < n,
            entry_views(listed@) == arranged(logs@, order@).subrange(0, k as int),
        decreases n - k,
    {
        let ghost before = entry_views(listed@);
        let position = order[k];
        assert(order@[k as int] < n);
        assert(logs@[position as int] == logs.entries@[position as int]@);
        listed.push(logs.entries[position].duplicate());
        assert(entry_views(listed@) =~= before.push(logs@[position as int]));
        k += 1;
        assert(entry_views(listed@) =~= arranged(logs@, order@).subrange(0, k as int));
    }
    assert(entry_views(listed@) =~= arranged(logs@, order@));
    listed
}

/// The listing shows the whole queue, in the order of the scheduled times.
///
/// The queue as listed is as long as the queue, holds each of its
/// operations, and no operation in it is scheduled later than one that
/// comes after it.
pub proof fn law_operations_listed_in_order(queue: Seq<OperationView>)
    requires
        queue.len() <= usize::MAX,
    ensures
        operations_listed(queue).len() == queue.len(),
        forall|i: int| 0 <= i < queue.len() ==> operations_listed(queue).contains(#[trigger] queue[i]),
        forall|a: int, b: int|
            0 <= a < b < queue.len() ==> (#[trigger] operations_listed(queue)[a]).scheduled_time.secs
                <= (#[trigger] operations_listed(queue)[b]).scheduled_time.secs,
{
    let keys = scheduled_times(queue);
    let order = stable_order_of(keys, false);
    let listed = operations_listed(queue);
    law_stable_order_exists(keys, false);
    assert forall|i: int| 0 <= i < queue.len() implies listed.contains(#[trigger] queue[i]) by {
        assert(order.contains(i as usize));
        let a = choose|a: int| 0 <= a < order.len() && order[a] == i as usize;
        assert(listed[a] == queue[i]);
    }
    assert forall|a: int, b: int| 0 <= a < b < queue.len() implies (
    #[trigger] listed[a]).scheduled_time.secs <= (#[trigger] listed[b]).scheduled_time.secs by {
        assert(!crate::order::goes_before(keys[order[b] as int], keys[order[a] as int], false));
    }
}

/// The listing shows the whole log, the latest entry first.
///
/// The log as listed is as long as the log, holds each of its entries, and
/// no entry in it was written earlier than one that comes after it.
pub proof fn law_logs_listed_in_order(logs: Seq<LogEntryView>)
    requires
        logs.len() <= usize::MAX,
    ensures
        logs_listed(logs).len() == logs.len(),
        forall|i: int| 0 <= i < logs.len() ==> logs_listed(logs).contains(#[trigger] logs[i]),
        forall|a: int, b: int|
            0 <= a < b < logs.len() ==> (#[trigger] logs_listed(logs)[a]).executed_at.secs >= (
            #[trigger] logs_listed(logs)[b]).executed_at.secs,
{
    let keys = execution_times(logs);
    let order = stable_order_of(keys, true);
    let listed = logs_listed(logs);
    law_stable_order_exists(keys, true);
    assert forall|i: int| 0 <= i < logs.len() implies listed.contains(#[trigger] logs[i]) by {
        assert(order.contains(i as usize));
        let a = choose|a: int| 0 <= a < order.len() && order[a] == i as usize;
        assert(listed[a] == logs[i]);
    }
    assert forall|a: int, b: int| 0 <= a < b < logs.len() implies (
    #[trigger] listed[a]).executed_at.secs >= (#[trigger] listed[b]).executed_at.secs by {
        assert(!crate::order::goes_before(keys[order[b] as int], keys[order[a] as int], true));
    }
}

} // verus!
