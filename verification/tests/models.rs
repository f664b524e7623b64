use git_delayed::models::{
    log_entry, ExecutionStatus, LogEntry, OperationLogs, OperationState, OperationType,
    ScheduledOperation, ScheduledOperations,
};
use git_delayed::time::{shown_time, Timestamp, Weekday};

fn at(secs: i64) -> Timestamp {
    Timestamp::from_secs(secs)
}

fn operation() -> ScheduledOperation {
    ScheduledOperation {
        id: "7f3c".to_string(),
        repository_path: "/home/u/repo".to_string(),
        operation_type: OperationType::Push,
        commit_message: "push".to_string(),
        branch: Some("main".to_string()),
        scheduled_time: at(1762246800),
        created_at: at(1762240000),
        retry_count: 2,
        state: OperationState::Failing,
    }
}

#[test]
fn labels() {
    assert_eq!(OperationType::Commit.as_str(), "commit");
    assert_eq!(OperationType::Push.as_str(), "push");
    assert_eq!(OperationState::Pending.as_str(), "pending");
    assert_eq!(OperationState::Failing.as_str(), "failing");
    assert_eq!(ExecutionStatus::Success.as_str(), "Success");
    assert_eq!(ExecutionStatus::Failure.as_str(), "Failure");
    assert_eq!(ExecutionStatus::Cancelled.as_str(), "Cancelled");
    assert_eq!(ExecutionStatus::Skipped.as_str(), "Skipped");
}

#[test]
fn defaults() {
    assert_eq!(OperationState::default(), OperationState::Pending);
    assert!(ScheduledOperations::default().operations.is_empty());
    assert!(OperationLogs::default().entries.is_empty());
}

#[test]
fn duplicate_copies_every_field() {
    let op = operation();
    let copy = op.duplicate();
    assert_eq!(copy.id, op.id);
    assert_eq!(copy.repository_path, op.repository_path);
    assert_eq!(copy.operation_type, op.operation_type);
    assert_eq!(copy.commit_message, op.commit_message);
    assert_eq!(copy.branch, op.branch);
    assert_eq!(copy.scheduled_time, op.scheduled_time);
    assert_eq!(copy.created_at, op.created_at);
    assert_eq!(copy.retry_count, op.retry_count);
    assert_eq!(copy.state, op.state);
    let entry = log_entry(&op, ExecutionStatus::Failure, Some("why".to_string()), at(5));
    let copy = entry.duplicate();
    assert_eq!(copy.id, "7f3c");
    assert_eq!(copy.status, ExecutionStatus::Failure);
    assert_eq!(copy.error_message.as_deref(), Some("why"));
    assert_eq!(copy.executed_at, at(5));
    assert_eq!(copy.scheduled_time, at(1762246800));
    assert_eq!(copy.commit_message, "push");
    assert_eq!(copy.repository_path, "/home/u/repo");
    assert_eq!(copy.operation_type, OperationType::Push);
}

#[test]
fn operation_is_described_in_one_line() {
    assert_eq!(
        operation().describe(),
        "7f3c | 2025-11-04 09:00:00 | push | /home/u/repo | push"
    );
}

#[test]
fn log_entry_is_described_in_one_line() {
    let mut entry = LogEntry {
        id: "7f3c".to_string(),
        repository_path: "/home/u/repo".to_string(),
        operation_type: OperationType::Commit,
        commit_message: "fix".to_string(),
        scheduled_time: at(0),
        executed_at: at(1762246805),
        status: ExecutionStatus::Success,
        error_message: None,
    };
    assert_eq!(entry.describe(), "2025-11-04 09:00:05 | Success | /home/u/repo | fix | 7f3c");
    entry.status = ExecutionStatus::Failure;
    entry.error_message = Some("retry 1: boom".to_string());
    assert_eq!(
        entry.describe(),
        "2025-11-04 09:00:05 | Failure | /home/u/repo | fix | 7f3c | Error: retry 1: boom"
    );
}

#[test]
fn timestamps_are_shown_as_date_and_time() {
    assert_eq!(at(0).display(), "1970-01-01 00:00:00");
    assert_eq!(at(-1).display(), "1969-12-31 23:59:59");
    assert_eq!(at(1766653200).display(), "2025-12-25 09:00:00");
    assert_eq!(at(i64::MAX).display(), "(beyond the calendar)");
    assert_eq!(at(i64::MIN).display(), "(beyond the calendar)");
    assert_eq!(shown_time(Some("2025-11-04 09:00:00".to_string())), "2025-11-04 09:00:00");
    assert_eq!(shown_time(Some(String::new())), "");
    assert_eq!(shown_time(None), "(beyond the calendar)");
}

#[test]
fn timestamp_parts() {
    let t = at(1762162200); // Monday 3 November 2025, 09:30:00
    assert_eq!(t.weekday(), Weekday::Mon);
    assert_eq!(t.hour(), 9);
    assert_eq!(t.seconds_from_midnight(), 9 * 3600 + 1800);
    assert_eq!(t.day_number(), 20395);
    assert_eq!(at(0).weekday(), Weekday::Thu);
    assert_eq!(at(0).day_number(), 0);
    assert_eq!(at(-1).day_number(), -1);
    assert_eq!(at(-86400).day_number(), -1);
    assert_eq!(at(-86401).day_number(), -2);
    assert_eq!(at(-86401).seconds_from_midnight(), 86399);
    assert_eq!(at(-86401).hour(), 23);
    assert_eq!(at(-86401).weekday(), Weekday::Tue);
    assert_eq!(at(i64::MIN).seconds_from_midnight() as i64, i64::MIN.rem_euclid(86400));
    assert_eq!(at(i64::MIN).day_number(), i64::MIN.div_euclid(86400));
    assert_eq!(at(i64::MAX).day_number(), i64::MAX / 86400);
    let days = [
        Weekday::Thu, Weekday::Fri, Weekday::Sat, Weekday::Sun, Weekday::Mon, Weekday::Tue,
        Weekday::Wed,
    ];
    for day in -20i64..20 {
        assert_eq!(at(day * 86400 + 5).weekday(), days[day.rem_euclid(7) as usize]);
    }
    assert_eq!(Weekday::Mon.num_days_from_monday(), 0);
    assert_eq!(Weekday::Sun.num_days_from_monday(), 6);
}
