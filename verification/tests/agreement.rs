//! The library's own arithmetic and grammars, held against the crates and
//! the parts of std that do the same.

use chrono::{DateTime, Datelike, Duration, NaiveDateTime, Timelike};
use git_delayed::cli::list_operations;
use git_delayed::daemon::{read_pid_file, write_pid_file};
use git_delayed::models::{OperationState, OperationType, ScheduledOperation, ScheduledOperations};
use git_delayed::order::stable_order;
use git_delayed::schedule::{parse_named_day_at, parse_relative_time_at, weekday_from_name};
use git_delayed::storage::{get_scheduled_file_path, is_blank};
use git_delayed::text::{decimal, is_decimal_digit, is_whitespace, to_lower};
use git_delayed::time::Timestamp;
use regex::Regex;
use std::path::Path;

/// A small generator of numbers, the same on every run.
struct Numbers(u64);

impl Numbers {
    fn next(&mut self) -> u64 {
        self.0 = self.0.wrapping_mul(6364136223846793005).wrapping_add(1442695040888963407);
        self.0 >> 33
    }

    fn below(&mut self, n: usize) -> usize {
        self.next() as usize % n
    }
}

fn naive(secs: i64) -> NaiveDateTime {
    DateTime::from_timestamp(secs, 0).unwrap().naive_utc()
}

fn seconds(time: NaiveDateTime) -> i64 {
    time.and_utc().timestamp()
}

#[test]
fn calendar_parts_agree_with_chrono() {
    let mut numbers = Numbers(1);
    let mut samples: Vec<i64> = vec![0, -1, 1, 86399, 86400, -86400, -86401, 1762344000];
    for _ in 0..20000 {
        // Some 5000 years either side of 1970.
        samples.push(numbers.next() as i64 % 160_000_000_000 * if numbers.below(2) == 0 { 1 } else { -1 });
    }
    for secs in samples {
        let ours = Timestamp::from_secs(secs);
        let theirs = naive(secs);
        assert_eq!(ours.weekday().num_days_from_monday(), theirs.weekday().num_days_from_monday());
        assert_eq!(ours.hour(), theirs.hour());
        assert_eq!(ours.seconds_from_midnight(), theirs.num_seconds_from_midnight());
        assert_eq!(ours.day_number(), secs.div_euclid(86400));
        assert_eq!(ours.display(), theirs.format("%Y-%m-%d %H:%M:%S").to_string());
    }
}

/// The day nine o'clock is looked for on, worked out with chrono's calendar.
fn named_day_by_chrono(target: chrono::Weekday, now: NaiveDateTime) -> NaiveDateTime {
    let current = now.weekday();
    let days_ahead = if current == target {
        if now.hour() >= 9 {
            7
        } else {
            0
        }
    } else {
        let curr = current.num_days_from_monday();
        let targ = target.num_days_from_monday();
        if targ > curr {
            targ - curr
        } else {
            7 - (curr - targ)
        }
    };
    (now.date() + Duration::days(days_ahead as i64)).and_hms_opt(9, 0, 0).unwrap()
}

#[test]
fn named_days_agree_with_chrono() {
    let names = [
        ("monday", chrono::Weekday::Mon),
        ("tuesday", chrono::Weekday::Tue),
        ("wednesday", chrono::Weekday::Wed),
        ("thursday", chrono::Weekday::Thu),
        ("friday", chrono::Weekday::Fri),
        ("saturday", chrono::Weekday::Sat),
        ("sunday", chrono::Weekday::Sun),
    ];
    let mut numbers = Numbers(2);
    for _ in 0..5000 {
        let secs = numbers.next() as i64 % 8_000_000_000 - 2_000_000_000;
        for (name, weekday) in names {
            let ours = parse_named_day_at(name, Timestamp::from_secs(secs)).unwrap();
            assert_eq!(ours.secs, seconds(named_day_by_chrono(weekday, naive(secs))));
            assert_eq!(
                weekday_from_name(name).unwrap().num_days_from_monday(),
                weekday.num_days_from_monday()
            );
        }
    }
}

#[test]
fn relative_grammar_agrees_with_the_pattern() {
    // The pattern describes the lower-case half of the grammar.
    let pattern = Regex::new(r"^\+(\d+)\s*(hours?|days?|minutes?)$").unwrap();
    let signs = ["+", "+", "+", "+", "", "-", "++", " +"];
    let counts = [
        "1", "7", "42", "007", "10", "365", "0", "00", "9223372036854775807",
        "9223372036854775808", "106751991167300", "", "1.5", "-3", "٣", "1 2",
    ];
    let gaps = ["", " ", " ", "  ", "\t", "\n", "\u{a0}", "\u{2003} ", "_", "\u{200b}"];
    let units = [
        "hour", "hours", "day", "days", "minute", "minutes", "hourss", "week", "h", "", "hours ",
        "seconds", "dayz", "minute\n",
    ];
    let now = Timestamp::from_secs(1_000);
    let mut numbers = Numbers(3);
    let mut accepted = 0;
    for _ in 0..200000 {
        let mut text = String::new();
        text.push_str(signs[numbers.below(signs.len())]);
        text.push_str(counts[numbers.below(counts.len())]);
        text.push_str(gaps[numbers.below(gaps.len())]);
        text.push_str(units[numbers.below(units.len())]);
        let expected = pattern.captures(&text).and_then(|found| {
            let amount: i64 = found[1].parse().ok()?;
            if amount <= 0 {
                return None;
            }
            let unit = &found[2];
            let length = if unit.starts_with("hour") {
                3600
            } else if unit.starts_with("day") {
                86400
            } else {
                60
            };
            amount.checked_mul(length)?.checked_add(now.secs)
        });
        let ours = parse_relative_time_at(&text, now).ok().map(|time| time.secs);
        assert_eq!(ours, expected, "{:?}", text);
        if ours.is_some() {
            accepted += 1;
        }
    }
    assert!(accepted > 10000);
}

#[test]
fn characters_agree_with_std() {
    for code in 0u32..=0x10ffff {
        if let Some(c) = char::from_u32(code) {
            assert_eq!(is_whitespace(c), c.is_whitespace(), "{:?}", c);
            assert_eq!(is_decimal_digit(c), c.is_ascii_digit(), "{:?}", c);
            assert_eq!(to_lower(c), c.to_ascii_lowercase(), "{:?}", c);
        }
    }
}

#[test]
fn day_names_agree_with_lower_casing() {
    let names = ["monday", "tuesday", "wednesday", "thursday", "friday", "saturday", "sunday"];
    let mut numbers = Numbers(4);
    for _ in 0..20000 {
        let name = names[numbers.below(7)];
        let mut text = String::new();
        for c in name.chars() {
            match numbers.below(12) {
                0 => text.push('K'),
                1 => text.push('\u{212a}'),
                2 => text.push('\u{130}'),
                3 => text.push('\u{17f}'),
                4 | 5 | 6 => text.push(c.to_ascii_uppercase()),
                _ => text.push(c),
            }
        }
        let expected = names.contains(&text.to_lowercase().as_str());
        assert_eq!(weekday_from_name(&text).is_some(), expected, "{:?}", text);
    }
}

#[test]
fn pid_reading_agrees_with_std() {
    let pieces = [
        "0", "1", "12", "4294967295", "4294967296", "99999999999", "+", "-", " ", "\n", "\t",
        "\u{a0}", "a", "", "007", ".",
    ];
    let mut numbers = Numbers(5);
    for _ in 0..100000 {
        let mut text = String::new();
        for _ in 0..numbers.below(5) {
            text.push_str(pieces[numbers.below(pieces.len())]);
        }
        assert_eq!(read_pid_file(&text), text.trim().parse::<u32>().ok(), "{:?}", text);
        assert_eq!(is_blank(&text), text.trim().is_empty(), "{:?}", text);
    }
    for _ in 0..10000 {
        let pid = numbers.next() as u32;
        assert_eq!(write_pid_file(pid), pid.to_string());
        assert_eq!(decimal(pid as u64 * 4294967296 + 17), (pid as u64 * 4294967296 + 17).to_string());
    }
}

#[test]
fn paths_agree_with_std() {
    for dir in ["", "/", "/a", "/a/", "a", "a/b", "a/b/", "/home/u/.config/git-delayed", "/x//"] {
        let joined = Path::new(dir).join("scheduled.json");
        assert_eq!(get_scheduled_file_path(dir), joined.to_str().unwrap(), "{:?}", dir);
    }
}

#[test]
fn orders_agree_with_std() {
    let mut numbers = Numbers(6);
    for round in 0..2000 {
        let keys: Vec<i64> = (0..numbers.below(12)).map(|_| numbers.below(5) as i64 - 2).collect();
        let mut ascending: Vec<usize> = (0..keys.len()).collect();
        ascending.sort_by_key(|&i| keys[i]);
        assert_eq!(stable_order(&keys, false), ascending);
        let mut descending: Vec<usize> = (0..keys.len()).collect();
        descending.sort_by(|&a, &b| keys[b].cmp(&keys[a]));
        assert_eq!(stable_order(&keys, true), descending);

        if round % 10 == 0 {
            let queue = ScheduledOperations {
                operations: keys
                    .iter()
                    .enumerate()
                    .map(|(i, key)| ScheduledOperation {
                        id: i.to_string(),
                        repository_path: String::new(),
                        operation_type: OperationType::Commit,
                        commit_message: String::new(),
                        branch: None,
                        scheduled_time: Timestamp::from_secs(*key),
                        created_at: Timestamp::from_secs(0),
                        retry_count: 0,
                        state: OperationState::Pending,
                    })
                    .collect(),
            };
            let listed: Vec<String> = list_operations(&queue).into_iter().map(|op| op.id).collect();
            let expected: Vec<String> = ascending.iter().map(|i| i.to_string()).collect();
            assert_eq!(listed, expected);
        }
    }
}
