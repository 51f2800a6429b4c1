use sup_rs::config::config::Log;
use sup_rs::rotater::error::RotaterErr;
use sup_rs::rotater::rotater::{
    clean_extra_backups, days_in_month, format_path_by_time, now_timestamp, parse_path_to_time,
    quick_select, rotation_deadline, timestamp_sub_days, top_k, RotationGuard, Rotater, Timestamp,
};

fn ts(year: u64, month: u64, day: u64, hour: u64, minute: u64, second: u64) -> Timestamp {
    Timestamp { year, month, day, hour, minute, second }
}

fn log_conf(path: &str) -> Log {
    Log {
        path: path.to_string(),
        max_size: 128,
        max_days: 30,
        max_backups: 16,
        compress: false,
        merge_compressed: false,
    }
}

#[test]
fn quick_select_test() {
    let mut v: Vec<u64> = vec![1, 4, 8, 3, 2, 5];
    let lenv = v.len() - 1;
    assert_eq!(quick_select(&mut v, 0, lenv, 1), 1);
    assert_eq!(quick_select(&mut v, 0, lenv, 2), 2);
    assert_eq!(quick_select(&mut v, 0, lenv, 3), 3);
    assert_eq!(quick_select(&mut v, 0, lenv, 4), 4);
    assert_eq!(quick_select(&mut v, 0, lenv, 5), 5);
    assert_eq!(quick_select(&mut v, 0, lenv, 6), 8);
    assert_eq!(quick_select(&mut v, 0, lenv, 7), 8);
}

#[test]
fn quick_select_matches_full_sort() {
    // Rank statements checked against a reference sort, duplicates included
    // and ranks at both boundaries.
    let cases: Vec<Vec<u64>> = vec![
        vec![7],
        vec![2, 2],
        vec![9, 1, 9, 1, 5],
        vec![3, 14, 1, 5, 9, 2, 6, 5, 3, 5],
        vec![10, 9, 8, 7, 6, 5, 4, 3, 2, 1],
        vec![1, 1, 1, 1],
    ];
    for case in cases {
        let mut sorted = case.clone();
        sorted.sort();
        for k in 1..=case.len() {
            let mut v = case.clone();
            assert_eq!(top_k(&mut v, k), sorted[k - 1], "k={} in {:?}", k, case);
            let mut multiset_check = v.clone();
            multiset_check.sort();
            assert_eq!(multiset_check, sorted, "selection must keep the elements");
        }
    }
}

#[test]
fn parse_and_format_time_roundtrip() {
    let t = ts(2023, 3, 17, 20, 7, 0);
    let path = format_path_by_time("test.log", &t);
    assert_eq!(path, "test-20230317200700.log");
    assert_eq!(parse_path_to_time(&path).unwrap(), t);
}

#[test]
fn format_uses_the_file_name_part() {
    let t = ts(2023, 3, 17, 20, 7, 0);
    assert_eq!(
        format_path_by_time("/var/log/app/run.log", &t),
        "run-20230317200700.log"
    );
    // Without an extension the dash and dot are still inserted.
    assert_eq!(format_path_by_time("/var/log/run", &t), "run-20230317200700.");
}

#[test]
fn parse_handles_compressed_backups() {
    let t = ts(2023, 3, 17, 20, 7, 0);
    assert_eq!(
        parse_path_to_time("test-20230317200700.log.gz").unwrap(),
        t
    );
}

#[test]
fn parse_rejects_names_without_a_timestamp() {
    for bad in ["notes.txt", "run.log", "run-2023031720070.log", "run-abcdefgh123456.log",
        "run-20231317200700.log", "run-20230230200700.log"] {
        match parse_path_to_time(bad) {
            Err(RotaterErr::PathInvalid { .. }) => {}
            other => panic!("{} must not parse, got {:?}", bad, other),
        }
    }
}

#[test]
fn timestamp_key_is_packed_decimal() {
    assert_eq!(ts(2023, 3, 17, 20, 7, 0).key(), 20230317200700);
    assert_eq!(ts(9999, 12, 31, 23, 59, 59).key(), 99991231235959);
    // The packed form orders chronologically.
    assert!(ts(2023, 3, 17, 20, 7, 0).key() < ts(2023, 3, 18, 0, 0, 0).key());
}

#[test]
fn month_lengths_and_leap_years() {
    assert_eq!(days_in_month(2023, 2), 28);
    assert_eq!(days_in_month(2024, 2), 29);
    assert_eq!(days_in_month(2000, 2), 29);
    assert_eq!(days_in_month(1900, 2), 28);
    assert_eq!(days_in_month(2023, 4), 30);
    assert_eq!(days_in_month(2023, 12), 31);
}

#[test]
fn clock_and_calendar_arithmetic() {
    let now = now_timestamp().expect("the clock reads a four-digit year");
    assert!((1..=12).contains(&now.month));
    assert!((1..=31).contains(&now.day));
    assert!(now.hour <= 23 && now.minute <= 59 && now.second <= 59);

    let t = ts(2023, 3, 17, 20, 7, 0);
    let back = timestamp_sub_days(&t, 30).unwrap();
    assert_eq!(back, ts(2023, 2, 15, 20, 7, 0));
    // Subtracting zero days is the identity; the deadline for max_days = 0
    // is "now", so every existing backup is older than it.
    assert_eq!(rotation_deadline(&t, 0).unwrap(), t);
    // Day arithmetic crosses a leap day correctly.
    assert_eq!(
        timestamp_sub_days(&ts(2024, 3, 1, 0, 0, 0), 1).unwrap(),
        ts(2024, 2, 29, 0, 0, 0)
    );
}

#[test]
fn rotation_coalescing() {
    // M concurrent requests for one path: one active rotation at most.
    let mut rot = Rotater::new(16).unwrap();
    let mut started = 0;
    for _ in 0..5 {
        if rot.on_request(log_conf("/var/log/run.log")).is_some() {
            started += 1;
        }
        assert_eq!(rot.active_count(), 1);
    }
    assert_eq!(started, 1);
    assert!(rot.rotation_active(&"/var/log/run.log".to_string()));

    // A different path rotates in parallel.
    assert!(rot.on_request(log_conf("/var/log/other.log")).is_some());
    assert_eq!(rot.active_count(), 2);

    // Once the task finishes, the next request starts a new rotation.
    rot.on_finished(&"/var/log/run.log".to_string());
    assert!(!rot.rotation_active(&"/var/log/run.log".to_string()));
    assert_eq!(rot.active_count(), 1);
    assert!(rot.on_request(log_conf("/var/log/run.log")).is_some());
}

#[test]
fn guard_membership_brackets_a_rotation() {
    let mut guard = RotationGuard::new();
    let p = "/var/log/run.log".to_string();
    assert_eq!(guard.len(), 0);
    assert!(guard.try_acquire(&p));
    assert!(guard.contains(&p));
    assert_eq!(guard.len(), 1);
    assert!(!guard.try_acquire(&p));
    assert_eq!(guard.len(), 1);
    guard.release(&p);
    assert!(!guard.contains(&p));
    assert_eq!(guard.len(), 0);
    assert!(guard.try_acquire(&p));
}

#[test]
fn retention_keeps_the_newest_backup() {
    // Two backups, max_backups = 1: exactly the older one is deleted, so
    // exactly one file (the most recent) remains; a compressed backup
    // counts like any other.
    let names = vec![
        "run-20230317200700.log.gz".to_string(),
        "run-20230318200700.log".to_string(),
        "run.log".to_string(),
    ];
    let del = clean_extra_backups(&names, &"run.log".to_string(), 0, 1).unwrap();
    assert_eq!(del, vec!["run-20230317200700.log.gz".to_string()]);
}

#[test]
fn retention_expires_backups_older_than_the_deadline() {
    let names = vec![
        "run-20230317200700.log".to_string(),
        "run-20230318200700.log".to_string(),
        "run-20230319200700.log".to_string(),
        "run.log".to_string(),
    ];
    // Deadline after the first two: they expire regardless of max_backups.
    let deadline = ts(2023, 3, 19, 0, 0, 0).key();
    let del = clean_extra_backups(&names, &"run.log".to_string(), deadline, 16).unwrap();
    assert_eq!(
        del,
        vec!["run-20230317200700.log".to_string(), "run-20230318200700.log".to_string()]
    );
}

#[test]
fn retention_within_budget_deletes_nothing() {
    let names = vec![
        "run-20230317200700.log".to_string(),
        "run-20230318200700.log".to_string(),
        "run.log".to_string(),
    ];
    let del = clean_extra_backups(&names, &"run.log".to_string(), 0, 2).unwrap();
    assert!(del.is_empty());
}

#[test]
fn retention_combines_age_and_count() {
    let names = vec![
        "run-20230310000000.log".to_string(),
        "run-20230315000000.log".to_string(),
        "run-20230316000000.log".to_string(),
        "run-20230317000000.log".to_string(),
    ];
    // The first expires by age; of the three survivors only the newest may
    // stay (max_backups = 1).
    let deadline = ts(2023, 3, 14, 0, 0, 0).key();
    let del = clean_extra_backups(&names, &"run.log".to_string(), deadline, 1).unwrap();
    assert_eq!(
        del,
        vec![
            "run-20230310000000.log".to_string(),
            "run-20230315000000.log".to_string(),
            "run-20230316000000.log".to_string(),
        ]
    );
}

#[test]
fn retention_fails_on_a_foreign_file() {
    let names = vec!["run-20230317200700.log".to_string(), "notes.txt".to_string()];
    match clean_extra_backups(&names, &"run.log".to_string(), 0, 1) {
        Err(RotaterErr::PathInvalid { .. }) => {}
        other => panic!("a foreign file must fail the pass, got {:?}", other),
    }
}

#[test]
fn retention_keeps_ties_with_the_cutoff() {
    // Two backups share the cutoff timestamp: both rank as "newest", so
    // only the strictly older one goes.
    let names = vec![
        "run-20230317000000.log".to_string(),
        "run-20230318000000.log".to_string(),
        "other-20230318000000.log".to_string(),
    ];
    let del = clean_extra_backups(&names, &"run.log".to_string(), 0, 1).unwrap();
    assert_eq!(del, vec!["run-20230317000000.log".to_string()]);
}

#[test]
fn retention_keeps_the_compressed_newest() {
    // With compression on, the newest backup is the `.gz` artifact of the
    // latest rotation and it is the one that survives.
    let names = vec![
        "run-20230317200700.log.gz".to_string(),
        "run-20230318200700.log.gz".to_string(),
        "run.log".to_string(),
    ];
    let del = clean_extra_backups(&names, &"run.log".to_string(), 0, 1).unwrap();
    assert_eq!(del, vec!["run-20230317200700.log.gz".to_string()]);
}
