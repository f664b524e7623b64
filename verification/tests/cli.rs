use git_delayed::cli::{
    cancel_operation, coloured_status, find_operation, list_logs, list_operations,
    schedule_operation, schedule_operation_at, schedule_request, shorten_message, ScheduleAction,
};
use git_delayed::error::ValidationError;
use git_delayed::models::{
    ExecutionStatus, LogEntry, OperationLogs, OperationState, OperationType, ScheduledOperation,
    ScheduledOperations,
};
use git_delayed::order::stable_order;
use git_delayed::schedule::ParseError;
use git_delayed::time::Timestamp;

fn at(secs: i64) -> Timestamp {
    Timestamp::from_secs(secs)
}

fn operation(id: &str, secs: i64) -> ScheduledOperation {
    ScheduledOperation {
        id: id.to_string(),
        repository_path: "/repo".to_string(),
        operation_type: OperationType::Commit,
        commit_message: format!("message of {}", id),
        branch: None,
        scheduled_time: at(secs),
        created_at: at(0),
        retry_count: 0,
        state: OperationState::Pending,
    }
}

fn entry(id: &str, executed: i64) -> LogEntry {
    LogEntry {
        id: id.to_string(),
        repository_path: "/repo".to_string(),
        operation_type: OperationType::Commit,
        commit_message: "m".to_string(),
        scheduled_time: at(0),
        executed_at: at(executed),
        status: ExecutionStatus::Success,
        error_message: None,
    }
}

fn ids(ops: &[ScheduledOperation]) -> Vec<String> {
    ops.iter().map(|op| op.id.clone()).collect()
}

#[test]
fn schedule_request_of_commit_and_push() {
    let (kind, message) = schedule_request(ScheduleAction::Commit { message: "fix".to_string() });
    assert_eq!(kind, OperationType::Commit);
    assert_eq!(message, "fix");
    let (kind, message) = schedule_request(ScheduleAction::Push);
    assert_eq!(kind, OperationType::Push);
    assert_eq!(message, "push");
}

#[test]
fn scheduled_operation_appears_in_the_queue() {
    let mut queue = ScheduledOperations { operations: vec![operation("old", 5)] };
    let scheduled = schedule_operation_at(
        &mut queue,
        "new-id".to_string(),
        "/work/repo".to_string(),
        OperationType::Commit,
        "the message".to_string(),
        Some("ignored".to_string()),
        "+2 hours",
        at(1000),
    )
    .unwrap();
    assert_eq!(queue.operations.len(), 2);
    let queued = &queue.operations[1];
    for op in [&scheduled, queued] {
        assert_eq!(op.id, "new-id");
        assert_eq!(op.repository_path, "/work/repo");
        assert_eq!(op.operation_type, OperationType::Commit);
        assert_eq!(op.commit_message, "the message");
        assert_eq!(op.branch, None);
        assert_eq!(op.scheduled_time, at(8200));
        assert_eq!(op.created_at, at(1000));
        assert_eq!(op.retry_count, 0);
        assert_eq!(op.state, OperationState::Pending);
    }
    let listed = list_operations(&queue);
    assert_eq!(ids(&listed), ["old", "new-id"]);
}

#[test]
fn scheduled_push_keeps_its_branch() {
    let mut queue = ScheduledOperations::default();
    let scheduled = schedule_operation_at(
        &mut queue,
        "p".to_string(),
        "/r".to_string(),
        OperationType::Push,
        "push".to_string(),
        Some("feature".to_string()),
        "2025-11-04 09:00",
        at(0),
    )
    .unwrap();
    assert_eq!(scheduled.branch.as_deref(), Some("feature"));
    assert_eq!(queue.operations[0].branch.as_deref(), Some("feature"));
    assert_eq!(queue.operations[0].scheduled_time, at(1762246800));
}

#[test]
fn a_bad_expression_schedules_nothing() {
    let mut queue = ScheduledOperations { operations: vec![operation("old", 5)] };
    for (expression, error) in [
        ("+0 days", ParseError::AmountNotPositive),
        ("+1 week", ParseError::BadRelativeFormat),
        ("someday", ParseError::Unrecognized),
        ("1999-01-01 00:00", ParseError::InPast),
    ] {
        let result = schedule_operation_at(
            &mut queue,
            "id".to_string(),
            "/r".to_string(),
            OperationType::Commit,
            "m".to_string(),
            None,
            expression,
            at(1762344000),
        );
        assert_eq!(result.unwrap_err(), error);
        assert_eq!(ids(&queue.operations), ["old"]);
    }
}

#[test]
fn scheduling_against_the_clock_gives_new_ids() {
    let mut queue = ScheduledOperations::default();
    let first = schedule_operation(
        &mut queue,
        "/r".to_string(),
        OperationType::Commit,
        "m".to_string(),
        None,
        "+1 hour",
    )
    .unwrap();
    let second = schedule_operation(
        &mut queue,
        "/r".to_string(),
        OperationType::Push,
        "push".to_string(),
        Some("main".to_string()),
        "+1 hour",
    )
    .unwrap();
    assert_eq!(queue.operations.len(), 2);
    assert_eq!(queue.operations[0].id, first.id);
    assert_eq!(queue.operations[1].id, second.id);
    assert_ne!(first.id, second.id);
    assert_eq!(first.id.len(), 36);
    assert_eq!(first.scheduled_time.secs - first.created_at.secs, 3600);
    assert!(first.created_at.secs > 1577836800);
    assert!(schedule_operation(
        &mut queue,
        "/r".to_string(),
        OperationType::Commit,
        "m".to_string(),
        None,
        "never"
    )
    .is_err());
    assert_eq!(queue.operations.len(), 2);
}

#[test]
fn cancel_removes_and_logs_once() {
    let mut queue = ScheduledOperations { operations: vec![operation("a", 10), operation("b", 20)] };
    let mut logs = OperationLogs { entries: vec![entry("earlier", 1)] };
    assert!(cancel_operation(&mut queue, &mut logs, "b", at(15)).is_ok());
    assert_eq!(ids(&queue.operations), ["a"]);
    assert_eq!(logs.entries.len(), 2);
    let written = &logs.entries[1];
    assert_eq!(written.id, "b");
    assert_eq!(written.status, ExecutionStatus::Cancelled);
    assert_eq!(written.commit_message, "message of b");
    assert_eq!(written.repository_path, "/repo");
    assert_eq!(written.operation_type, OperationType::Commit);
    assert_eq!(written.scheduled_time, at(20));
    assert_eq!(written.executed_at, at(15));
    assert_eq!(written.error_message, None);
    assert_eq!(
        logs.entries.iter().filter(|e| e.id == "b" && e.status == ExecutionStatus::Cancelled).count(),
        1
    );
}

#[test]
fn cancel_of_an_unknown_id_changes_nothing() {
    let mut queue = ScheduledOperations { operations: vec![operation("a", 10)] };
    let mut logs = OperationLogs::default();
    let error = cancel_operation(&mut queue, &mut logs, "zz", at(15)).unwrap_err();
    assert!(matches!(&error, ValidationError::OperationNotFound(id) if id == "zz"));
    assert_eq!(error.message(), "Operation not found: zz");
    assert_eq!(ids(&queue.operations), ["a"]);
    assert!(logs.entries.is_empty());
    // A second cancel of the same operation fails too.
    assert!(cancel_operation(&mut queue, &mut logs, "a", at(15)).is_ok());
    assert!(cancel_operation(&mut queue, &mut logs, "a", at(16)).is_err());
    assert_eq!(logs.entries.len(), 1);
}

#[test]
fn cancel_logs_the_first_of_an_id_and_removes_all() {
    let mut first = operation("dup", 10);
    first.commit_message = "first".to_string();
    let mut queue =
        ScheduledOperations { operations: vec![operation("a", 1), first, operation("dup", 30)] };
    let mut logs = OperationLogs::default();
    assert_eq!(find_operation(&queue, "dup"), Some(1));
    assert_eq!(find_operation(&queue, "none"), None);
    cancel_operation(&mut queue, &mut logs, "dup", at(0)).unwrap();
    assert_eq!(ids(&queue.operations), ["a"]);
    assert_eq!(logs.entries.len(), 1);
    assert_eq!(logs.entries[0].commit_message, "first");
}

#[test]
fn schedule_then_cancel_round_trip() {
    let mut queue = ScheduledOperations { operations: vec![operation("a", 10)] };
    let mut logs = OperationLogs::default();
    let scheduled = schedule_operation_at(
        &mut queue,
        "fresh".to_string(),
        "/r".to_string(),
        OperationType::Commit,
        "wip".to_string(),
        None,
        "+30 minutes",
        at(100),
    )
    .unwrap();
    let listed = list_operations(&queue);
    let shown = listed.iter().find(|op| op.id == "fresh").unwrap();
    assert_eq!(shown.operation_type, scheduled.operation_type);
    assert_eq!(shown.commit_message, "wip");
    assert_eq!(shown.scheduled_time, at(1900));
    cancel_operation(&mut queue, &mut logs, "fresh", at(200)).unwrap();
    assert_eq!(ids(&queue.operations), ["a"]);
    assert_eq!(logs.entries.len(), 1);
    assert_eq!(logs.entries[0].id, "fresh");
    assert_eq!(logs.entries[0].status, ExecutionStatus::Cancelled);
}

#[test]
fn operations_are_listed_by_time_and_stay_in_order_among_equals() {
    let queue = ScheduledOperations {
        operations: vec![
            operation("c1", 30),
            operation("a1", 10),
            operation("b", 20),
            operation("a2", 10),
            operation("c2", 30),
            operation("z", -5),
            operation("a3", 10),
        ],
    };
    let listed = list_operations(&queue);
    assert_eq!(ids(&listed), ["z", "a1", "a2", "a3", "b", "c1", "c2"]);
    assert_eq!(listed[1].commit_message, "message of a1");
    assert_eq!(queue.operations.len(), 7);
    assert!(list_operations(&ScheduledOperations::default()).is_empty());
}

#[test]
fn logs_are_listed_latest_first_and_stay_in_order_among_equals() {
    let logs = OperationLogs {
        entries: vec![entry("a", 10), entry("b1", 20), entry("c", 5), entry("b2", 20), entry("d", 30)],
    };
    let listed: Vec<String> = list_logs(&logs).iter().map(|e| e.id.clone()).collect();
    assert_eq!(listed, ["d", "b1", "b2", "a", "c"]);
    assert!(list_logs(&OperationLogs::default()).is_empty());
}

#[test]
fn stable_order_of_keys() {
    assert_eq!(stable_order(&vec![], false), Vec::<usize>::new());
    assert_eq!(stable_order(&vec![7], true), [0]);
    assert_eq!(stable_order(&vec![3, 1, 2, 1, 3], false), [1, 3, 2, 0, 4]);
    assert_eq!(stable_order(&vec![3, 1, 2, 1, 3], true), [0, 4, 2, 1, 3]);
    assert_eq!(stable_order(&vec![i64::MAX, i64::MIN, 0], false), [1, 2, 0]);
    assert_eq!(stable_order(&vec![i64::MAX, i64::MIN, 0], true), [0, 2, 1]);
    assert_eq!(stable_order(&vec![5, 5, 5], false), [0, 1, 2]);
    assert_eq!(stable_order(&vec![5, 5, 5], true), [0, 1, 2]);
}

#[test]
fn long_messages_are_cut_to_thirty() {
    assert_eq!(shorten_message(""), "");
    assert_eq!(shorten_message("short"), "short");
    let thirty = "123456789012345678901234567890";
    assert_eq!(shorten_message(thirty), thirty);
    assert_eq!(
        shorten_message("1234567890123456789012345678901"),
        "123456789012345678901234567..."
    );
    // Counted in characters, not in bytes.
    let umlauts = "ääääääääääääääääääääääääääääää";
    assert_eq!(shorten_message(umlauts), umlauts);
    assert_eq!(
        shorten_message("äääääääääääääääääääääääääääääääää"),
        "äääääääääääääääääääääääääää..."
    );
}

#[test]
fn statuses_have_their_colours() {
    assert_eq!(coloured_status(ExecutionStatus::Success), "\x1b[32mSuccess\x1b[0m");
    assert_eq!(coloured_status(ExecutionStatus::Failure), "\x1b[31mFailure\x1b[0m");
    assert_eq!(coloured_status(ExecutionStatus::Cancelled), "\x1b[33mCancelled\x1b[0m");
    assert_eq!(coloured_status(ExecutionStatus::Skipped), "\x1b[36mSkipped\x1b[0m");
}
