use lumora::clock::Moment;
use lumora::images::Removal;
use lumora::retention::usage::{summarize_usage, DailySummary, UsageRow};
use lumora::retention::{
    archive_name, cleanup_task_directories, cutoffs, direct_child, expired_backups, finish_run,
    log_report, next_run_delay, remove_expired_backups, retention_backup_name, retention_error,
    run_once, task_directories, BackupFile, RetentionAction, RetentionPolicy, RetentionReport,
};

/// 2026-08-05, four o'clock in the morning.
const FOUR: i64 = 1_785_902_400;

#[test]
fn task_directory_must_be_a_direct_child() {
    let base = "tasks";
    assert_eq!(direct_child(base, "task-1"), Some("tasks/task-1".to_string()));
    assert_eq!(direct_child(base, "../outside"), None);
    assert_eq!(direct_child(base, "nested/task"), None);
    assert_eq!(direct_child(base, ""), None);
}

#[test]
fn names_that_lead_elsewhere_are_no_children() {
    assert_eq!(direct_child("tasks", "."), None);
    assert_eq!(direct_child("tasks", ".."), None);
    assert_eq!(direct_child("tasks", "/etc"), None);
    assert_eq!(direct_child("tasks", "a/.."), None);
    assert_eq!(direct_child("tasks", "a/"), Some("tasks/a/".to_string()));
    assert_eq!(direct_child("tasks", "a/."), Some("tasks/a/.".to_string()));
    assert_eq!(direct_child("tasks", "..a"), Some("tasks/..a".to_string()));
}

#[test]
fn schedules_live_retention_at_three_utc() {
    let before = Moment { secs: FOUR - 2 * 3600, nanos: 0 };
    assert_eq!(next_run_delay(before), 60 * 60 * 1_000_000_000);

    let after = Moment { secs: FOUR, nanos: 0 };
    assert_eq!(next_run_delay(after), 23 * 60 * 60 * 1_000_000_000);
}

#[test]
fn upkeep_at_its_hour_waits_for_the_next_day() {
    let due = Moment { secs: FOUR - 3600, nanos: 0 };
    assert_eq!(next_run_delay(due), 24 * 60 * 60 * 1_000_000_000);
    let just_before = Moment { secs: FOUR - 3601, nanos: 999_999_999 };
    assert_eq!(next_run_delay(just_before), 1);
    let early = Moment { secs: -3600, nanos: 0 };
    assert_eq!(next_run_delay(early), 4 * 60 * 60 * 1_000_000_000);
}

fn report() -> RetentionReport {
    RetentionReport {
        usage_logs: 1,
        tasks: 1,
        sessions: 1,
        ip_locations: 1,
        audit_logs: 1,
        backups: 2,
    }
}

#[test]
fn dry_run_reports_without_deleting() {
    assert_eq!(run_once(&report(), true), vec![RetentionAction::Report]);
    assert!(RetentionPolicy::default().dry_run);
}

#[test]
fn live_runs_save_before_they_delete() {
    assert_eq!(report().database_changes(), 5);
    assert_eq!(
        run_once(&report(), false),
        vec![RetentionAction::Backup, RetentionAction::Archive, RetentionAction::CleanTasks]
    );
    let (updated, steps) = finish_run(&report(), 0);
    assert_eq!(updated.tasks, 0);
    assert_eq!(
        steps,
        vec![RetentionAction::Apply, RetentionAction::PruneBackups, RetentionAction::Report]
    );
    let nothing = RetentionReport {
        usage_logs: 0,
        tasks: 0,
        sessions: 0,
        ip_locations: 0,
        audit_logs: 0,
        backups: 0,
    };
    assert!(!nothing.has_database_changes());
    assert_eq!(run_once(&nothing, false), vec![RetentionAction::CleanTasks]);
    assert_eq!(
        finish_run(&nothing, 0).1,
        vec![RetentionAction::PruneBackups, RetentionAction::Report]
    );
}

fn row(created_at: &str, status: &str, duration_ms: i64, credits_used: i64) -> UsageRow {
    UsageRow {
        created_at: created_at.into(),
        user_id: "user-1".into(),
        provider_id: None,
        endpoint: "/v1/images/generations".into(),
        model: "test-model".into(),
        status: status.into(),
        duration_ms,
        credits_used,
    }
}

#[test]
fn live_run_aggregates_archives_and_deletes_only_expired_data() {
    let logs = vec![
        row("2025-01-01T10:00:00+00:00", "success", 25, 2),
        row("2026-08-05T10:00:00+00:00", "success", 25, 2),
    ];
    let sums = summarize_usage(Vec::new(), &logs, "2026-05-07T00:00:00+00:00").unwrap();
    assert_eq!(sums.len(), 1);
    assert_eq!(
        (sums[0].request_count, sums[0].total_duration_ms, sums[0].total_credits_used),
        (1, 25, 2)
    );
    assert_eq!(sums[0].summary_date, "2025-01-01");
    assert_eq!(sums[0].provider_id, "");

    let backups: Vec<BackupFile> = (0..8)
        .map(|index| BackupFile {
            name: format!("lumora-test-{index}.db"),
            modified: 7,
            is_file: true,
        })
        .collect();
    let gone = expired_backups(&backups, 5);
    assert_eq!(
        gone,
        vec![
            "lumora-test-2.db".to_string(),
            "lumora-test-1.db".to_string(),
            "lumora-test-0.db".to_string()
        ]
    );
}

#[test]
fn sums_grow_by_day_and_kind() {
    let first = vec![
        row("2025-01-01T10:00:00+00:00", "success", 25, 2),
        row("2025-01-01T11:00:00+00:00", "success", 30, 3),
        row("2025-01-01T12:00:00+00:00", "error", 5, 0),
        row("2025-01-02T10:00:00+00:00", "success", 1, 1),
    ];
    let cutoff = "2026-01-01T00:00:00+00:00";
    let sums = summarize_usage(Vec::new(), &first, cutoff).unwrap();
    assert_eq!(sums.len(), 3);
    assert_eq!(
        (sums[0].request_count, sums[0].total_duration_ms, sums[0].total_credits_used),
        (2, 55, 5)
    );
    let again = summarize_usage(sums, &first[0..1], cutoff).unwrap();
    assert_eq!(again.len(), 3);
    assert_eq!(again[0].request_count, 3);
    let calls: i64 = again.iter().map(|sum| sum.request_count).sum();
    let credits: i64 = again.iter().map(|sum| sum.total_credits_used).sum();
    assert_eq!((calls, credits), (5, 8));
}

#[test]
fn sums_that_grow_too_large_are_not_stored() {
    let full = DailySummary {
        summary_date: "2025-01-01".into(),
        user_id: "user-1".into(),
        provider_id: "".into(),
        endpoint: "/v1/images/generations".into(),
        model: "test-model".into(),
        status: "success".into(),
        request_count: 1,
        total_duration_ms: i64::MAX,
        total_credits_used: 1,
    };
    let logs = vec![row("2025-01-01T10:00:00+00:00", "success", 1, 1)];
    assert!(summarize_usage(vec![full], &logs, "2026").is_none());
}

#[test]
fn old_backups_go_by_age_first() {
    let file = |name: &str, modified: u128, is_file: bool| BackupFile {
        name: name.into(),
        modified,
        is_file,
    };
    let files = vec![
        file("lumora-b.db", 1, true),
        file("lumora-a.db", 3, true),
        file("notes.txt", 0, true),
        file("lumora-dir.db", 0, false),
        file("lumora-c.db", 2, true),
    ];
    assert_eq!(
        expired_backups(&files, 1),
        vec!["lumora-c.db".to_string(), "lumora-b.db".to_string()]
    );
    assert!(expired_backups(&files, 3).is_empty());
    assert!(expired_backups(&files, usize::MAX).is_empty());
    assert_eq!(
        remove_expired_backups(&[Removal::Removed, Removal::Missing, Removal::Failed]),
        1
    );
}

#[test]
fn tasks_whose_directories_stay_are_kept() {
    let ids = vec!["task-1".to_string(), "../x".to_string(), "task-2".to_string()];
    let directories = task_directories("tasks", &ids);
    assert_eq!(directories.len(), 2);
    assert_eq!(directories[1], ("task-2".to_string(), "tasks/task-2".to_string()));
    let gone = cleanup_task_directories(&[
        ("task-1".to_string(), Removal::Failed),
        ("task-2".to_string(), Removal::Missing),
        ("task-3".to_string(), Removal::Removed),
    ]);
    assert_eq!(gone, vec!["task-2".to_string(), "task-3".to_string()]);
}

#[test]
fn cutoffs_follow_the_policy() {
    let now = Moment { secs: FOUR, nanos: 0 };
    let found = cutoffs(now, &RetentionPolicy::default()).unwrap();
    assert_eq!(found.usage, "2026-05-07T04:00:00+00:00");
    assert_eq!(found.task, "2026-07-29T04:00:00+00:00");
    assert_eq!(found.ip_location, "2026-07-06T04:00:00+00:00");
    assert_eq!(found.audit, "2025-08-05T04:00:00+00:00");
    assert_eq!(found.now, "2026-08-05T04:00:00+00:00");
    let endless = RetentionPolicy { audit_days: i64::MAX, ..RetentionPolicy::default() };
    assert!(cutoffs(now, &endless).is_none());
}

#[test]
fn upkeep_names_its_files() {
    let now = Moment { secs: FOUR, nanos: 0 };
    assert_eq!(
        retention_backup_name(now, "t").as_deref(),
        Some("lumora-retention-20260805040000-t.db")
    );
    assert_eq!(
        archive_name(now, "t").as_deref(),
        Some("admin-audit-before-20260805040000-t.jsonl")
    );
    assert_eq!(retention_backup_name(Moment { secs: i64::MAX, nanos: 0 }, "t"), None);
    assert_eq!(retention_error().0, 500);
    let line = log_report(&report(), false);
    assert_eq!(line.counts[0], ("usage_logs", 1));
    assert_eq!(line.counts[5], ("backups", 2));
    assert!(!line.dry_run);
}
