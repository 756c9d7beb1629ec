//! Upkeep: what is old enough to go, and in which order it goes.

use vstd::prelude::*;

pub mod usage;

use crate::clock;
use crate::clock::Moment;
use crate::config;
use crate::db;
use crate::images::Removal;
use crate::model::{AppError, INTERNAL_SERVER_ERROR};
use crate::text;

verus! {

/// The hour, in UTC, at which upkeep runs.
pub const RETENTION_HOUR_UTC: i64 = 3;

/// How long data is kept.
#[derive(Clone, Copy, Debug, PartialEq, Eq, Structural)]
pub struct RetentionPolicy {
    pub dry_run: bool,
    pub usage_days: i64,
    pub task_days: i64,
    pub ip_location_days: i64,
    pub audit_days: i64,
    pub backup_count: usize,
}

impl Default for RetentionPolicy {
    /// A first run only reports; what would go is to be looked at before.
    fn default() -> (r: Self)
        ensures
            r == (RetentionPolicy {
                dry_run: true,
                usage_days: 90,
                task_days: 7,
                ip_location_days: 30,
                audit_days: 365,
                backup_count: 5,
            }),
    {
        RetentionPolicy {
            dry_run: true,
            usage_days: 90,
            task_days: 7,
            ip_location_days: 30,
            audit_days: 365,
            backup_count: 5,
        }
    }
}

/// How much is old enough to go.
#[derive(Clone, Copy, Debug, PartialEq, Eq, Structural)]
pub struct RetentionReport {
    pub usage_logs: usize,
    pub tasks: usize,
    pub sessions: usize,
    pub ip_locations: usize,
    pub audit_logs: usize,
    pub backups: usize,
}

impl RetentionReport {
    /// How many rows of the database go.
    pub open spec fn rows(self) -> int {
        self.usage_logs + self.tasks + self.sessions + self.ip_locations + self.audit_logs
    }

    /// How many rows of the database go.
    pub fn database_changes(&self) -> (r: usize)
        requires
            self.rows() <= usize::MAX,
        ensures
            r == self.rows(),
    {
        self.usage_logs + self.tasks + self.sessions + self.ip_locations + self.audit_logs
    }

    /// Whether any row of the database goes.
    pub fn has_database_changes(&self) -> (r: bool)
        ensures
            r == (self.rows() > 0),
    {
        self.usage_logs > 0 || self.tasks > 0 || self.sessions > 0 || self.ip_locations > 0
            || self.audit_logs > 0
    }
}

/// The texts before which data is old.
#[derive(Debug, PartialEq, Eq)]
pub struct Cutoffs {
    pub usage: String,
    pub task: String,
    pub ip_location: String,
    pub audit: String,
    pub now: String,
}

/// Whether the calendar has a date some days before a moment.
pub open spec fn has_cutoff(now: Moment, days: i64) -> bool {
    &&& now.nanos < 1_000_000_000
    &&& clock::FIRST_SECOND <= now.secs - days * 86_400 <= clock::LAST_SECOND
}

/// The text of the moment some days before.
pub open spec fn cutoff_text(now: Moment, days: i64) -> Seq<char> {
    clock::rfc3339_text(now.secs - days * 86_400, now.nanos as int)
}

/// The moment some days before, in text.
fn cutoff(now: Moment, days: i64) -> (r: Option<String>)
    ensures
        r is Some <==> has_cutoff(now, days),
        r matches Some(held) ==> held@ == cutoff_text(now, days),
{
    let secs: i128 = now.secs as i128 - days as i128 * 86_400;
    if now.nanos < 1_000_000_000 && clock::FIRST_SECOND as i128 <= secs && secs
        <= clock::LAST_SECOND as i128 {
        Some(clock::rfc3339(Moment { secs: secs as i64, nanos: now.nanos }))
    } else {
        None
    }
}

/// The texts before which data is old; `None` where the calendar has no date for one of them.
pub fn cutoffs(now: Moment, policy: &RetentionPolicy) -> (r: Option<Cutoffs>)
    ensures
        r is Some <==> {
            &&& now.representable()
            &&& has_cutoff(now, policy.usage_days)
            &&& has_cutoff(now, policy.task_days)
            &&& has_cutoff(now, policy.ip_location_days)
            &&& has_cutoff(now, policy.audit_days)
        },
        r matches Some(held) ==> {
            &&& held.usage@ == cutoff_text(now, policy.usage_days)
            &&& held.task@ == cutoff_text(now, policy.task_days)
            &&& held.ip_location@ == cutoff_text(now, policy.ip_location_days)
            &&& held.audit@ == cutoff_text(now, policy.audit_days)
            &&& held.now@ == clock::rfc3339_text(now.secs as int, now.nanos as int)
        },
{
    if !now.is_representable() {
        return None;
    }
    let usage = match cutoff(now, policy.usage_days) {
        Some(held) => held,
        None => {
            return None;
        },
    };
    let task = match cutoff(now, policy.task_days) {
        Some(held) => held,
        None => {
            return None;
        },
    };
    let ip_location = match cutoff(now, policy.ip_location_days) {
        Some(held) => held,
        None => {
            return None;
        },
    };
    let audit = match cutoff(now, policy.audit_days) {
        Some(held) => held,
        None => {
            return None;
        },
    };
    Some(Cutoffs { usage, task, ip_location, audit, now: clock::rfc3339(now) })
}

/// A moment in nanoseconds since the Unix epoch.
pub open spec fn nanos_of(now: Moment) -> int {
    now.secs * 1_000_000_000 + now.nanos
}

/// The nanoseconds of a day.
pub const DAY_NANOS: u64 = 86_400_000_000_000;

/// The nanoseconds until upkeep runs next: until the hour of upkeep comes round, for a whole day
/// if it is just that hour.
pub fn next_run_delay(now: Moment) -> (r: u64)
    requires
        now.representable(),
    ensures
        0 < r <= DAY_NANOS,
        (nanos_of(now) + r) % (DAY_NANOS as int) == RETENTION_HOUR_UTC * 3_600_000_000_000,
{
    let midnight = now.midnight();
    let into_day: u64 = (now.secs - midnight.secs) as u64;
    assert(into_day == now.secs as int % 86_400);
    let spent: u64 = into_day * 1_000_000_000 + now.nanos as u64;
    let due: u64 = 10_800_000_000_000;
    let delay: u64 = if due > spent {
        due - spent
    } else {
        due + DAY_NANOS - spent
    };
    proof {
        let days = midnight.secs as int / 86_400;
        assert(midnight.secs == days * 86_400) by {
            assert(now.day_start() % 86_400 == 0) by (nonlinear_arith)
                requires
                    now.day_start() == now.secs - now.secs as int % 86_400,
            ;
        }
        let whole = if due > spent {
            days
        } else {
            days + 1
        };
        assert(nanos_of(now) + delay == whole * 86_400_000_000_000 + 10_800_000_000_000);
        assert((whole * 86_400_000_000_000 + 10_800_000_000_000) % 86_400_000_000_000
            == 10_800_000_000_000) by (nonlinear_arith);
    }
    delay
}

/// A step of upkeep.
#[derive(Clone, Copy, Debug, PartialEq, Eq, Structural)]
pub enum RetentionAction {
    Backup,
    Archive,
    CleanTasks,
    Apply,
    PruneBackups,
    Report,
}

/// The steps that come before the rows are deleted: none but a report in a dry run.
pub open spec fn first_steps(report: RetentionReport, dry_run: bool) -> Seq<RetentionAction> {
    if dry_run {
        seq![RetentionAction::Report]
    } else {
        (if report.rows() > 0 {
            seq![RetentionAction::Backup]
        } else {
            Seq::empty()
        }) + (if report.audit_logs > 0 {
            seq![RetentionAction::Archive]
        } else {
            Seq::empty()
        }) + seq![RetentionAction::CleanTasks]
    }
}

/// The steps once the tasks' directories are gone.
pub open spec fn last_steps(report: RetentionReport) -> Seq<RetentionAction> {
    (if report.rows() > 0 {
        seq![RetentionAction::Apply]
    } else {
        Seq::empty()
    }) + seq![RetentionAction::PruneBackups, RetentionAction::Report]
}

/// The steps that come before the rows are deleted: a copy of the database if any go, an archive
/// of the audit log if some of it goes, and the directories of the tasks.
pub fn run_once(report: &RetentionReport, dry_run: bool) -> (r: Vec<RetentionAction>)
    ensures
        r@ == first_steps(*report, dry_run),
{
    let mut steps: Vec<RetentionAction> = Vec::new();
    if dry_run {
        steps.push(RetentionAction::Report);
        assert(steps@ == first_steps(*report, dry_run));
        return steps;
    }
    if report.has_database_changes() {
        steps.push(RetentionAction::Backup);
    }
    if report.audit_logs > 0 {
        steps.push(RetentionAction::Archive);
    }
    steps.push(RetentionAction::CleanTasks);
    assert(steps@ == first_steps(*report, dry_run));
    steps
}

/// The report once the tasks whose directories are gone are known, and the steps that remain.
pub fn finish_run(report: &RetentionReport, removed_tasks: usize) -> (r: (
    RetentionReport,
    Vec<RetentionAction>,
))
    ensures
        r.0 == (RetentionReport { tasks: removed_tasks, ..*report }),
        r.1@ == last_steps(r.0),
{
    let mut updated = *report;
    updated.tasks = removed_tasks;
    let mut steps: Vec<RetentionAction> = Vec::new();
    if updated.has_database_changes() {
        steps.push(RetentionAction::Apply);
    }
    steps.push(RetentionAction::PruneBackups);
    steps.push(RetentionAction::Report);
    assert(steps@ == last_steps(updated));
    (updated, steps)
}

/// Whether a name is that of an entry right inside a directory: one proper part, and beside it
/// nothing but empty parts and dots at its end.
pub open spec fn is_direct_child(name: Seq<char>) -> bool {
    let parts = text::split_on(name, '/');
    &&& parts[0] != ""@
    &&& parts[0] != "."@
    &&& parts[0] != ".."@
    &&& forall|i: int| 1 <= i < parts.len() ==> (#[trigger] parts[i]) == ""@ || parts[i] == "."@
}

/// The path of an entry right inside a directory; none for names that lead elsewhere.
pub fn direct_child(base: &str, name: &str) -> (r: Option<String>)
    ensures
        r is Some <==> is_direct_child(name@),
        r matches Some(path) ==> path@ == config::path_below(base@, name@),
{
    let parts = text::split(name, '/');
    let ghost all = text::split_on(name@, '/');
    proof {
        text::split_is_never_empty(name@, '/');
        assert(all[0] == parts@[0]@);
    }
    let first = parts[0].as_str();
    if text::same(first, "") || text::same(first, ".") || text::same(first, "..") {
        return None;
    }
    let mut i: usize = 1;
    while i < parts.len()
        invariant
            all == text::split_on(name@, '/'),
            text::views(parts@) == all,
            1 <= i <= parts@.len(),
            forall|j: int| 1 <= j < i ==> (#[trigger] all[j]) == ""@ || all[j] == "."@,
        decreases parts@.len() - i,
    {
        assert(all[i as int] == parts@[i as int]@);
        if !text::same(parts[i].as_str(), "") && !text::same(parts[i].as_str(), ".") {
            return None;
        }
        i += 1;
    }
    Some(config::join_path(base, name))
}

/// The tasks, below a count, whose names lead right inside the directory.
pub open spec fn safe_tasks(ids: Seq<String>, count: int) -> Seq<Seq<char>>
    decreases count,
{
    if count <= 0 {
        Seq::empty()
    } else if is_direct_child(ids[count - 1]@) {
        safe_tasks(ids, count - 1).push(ids[count - 1]@)
    } else {
        safe_tasks(ids, count - 1)
    }
}

/// The tasks whose directories are to be removed, with their paths; names that lead elsewhere
/// are left out.
pub fn task_directories(base: &str, ids: &[String]) -> (r: Vec<(String, String)>)
    ensures
        r@.len() == safe_tasks(ids@, ids@.len() as int).len(),
        forall|i: int|
            0 <= i < r@.len() ==> (#[trigger] r@[i]).0@ == safe_tasks(
                ids@,
                ids@.len() as int,
            )[i] && r@[i].1@ == config::path_below(base@, r@[i].0@),
{
    let mut directories: Vec<(String, String)> = Vec::new();
    let mut i: usize = 0;
    while i < ids.len()
        invariant
            i <= ids@.len(),
            directories@.len() == safe_tasks(ids@, i as int).len(),
            forall|j: int|
                0 <= j < directories@.len() ==> (#[trigger] directories@[j]).0@ == safe_tasks(
                    ids@,
                    i as int,
                )[j] && directories@[j].1@ == config::path_below(base@, directories@[j].0@),
        decreases ids@.len() - i,
    {
        match direct_child(base, ids[i].as_str()) {
            Some(path) => {
                directories.push((ids[i].clone(), path));
            },
            None => {},
        }
        i += 1;
    }
    directories
}

/// The tasks, below a count, whose directories are gone.
pub open spec fn gone_tasks(outcomes: Seq<(String, Removal)>, count: int) -> Seq<Seq<char>>
    decreases count,
{
    if count <= 0 {
        Seq::empty()
    } else if outcomes[count - 1].1 == Removal::Failed {
        gone_tasks(outcomes, count - 1)
    } else {
        gone_tasks(outcomes, count - 1).push(outcomes[count - 1].0@)
    }
}

/// The tasks whose rows may go: their directories were removed, or were not there.
pub fn cleanup_task_directories(outcomes: &[(String, Removal)]) -> (r: Vec<String>)
    ensures
        text::views(r@) == gone_tasks(outcomes@, outcomes@.len() as int),
{
    let mut gone: Vec<String> = Vec::new();
    let mut i: usize = 0;
    assert(text::views(gone@) == gone_tasks(outcomes@, 0));
    while i < outcomes.len()
        invariant
            i <= outcomes@.len(),
            text::views(gone@) == gone_tasks(outcomes@, i as int),
        decreases outcomes@.len() - i,
    {
        let ghost before = text::views(gone@);
        let failed = match outcomes[i].1 {
            Removal::Failed => true,
            _ => false,
        };
        if !failed {
            gone.push(outcomes[i].0.clone());
            assert(text::views(gone@) == before.push(outcomes@[i as int].0@));
        }
        i += 1;
    }
    gone
}

/// A file in the directory of backups; `modified` counts nanoseconds since the Unix epoch.
#[derive(Debug, PartialEq, Eq)]
pub struct BackupFile {
    pub name: String,
    pub modified: u128,
    pub is_file: bool,
}

/// Whether a file is a backup of the database.
pub open spec fn is_backup(file: BackupFile) -> bool {
    &&& file.is_file
    &&& "lumora-"@.is_prefix_of(file.name@)
    &&& ".db"@.is_suffix_of(file.name@)
}

/// Age and name of the backups among the first `count` files.
pub open spec fn backups_among(files: Seq<BackupFile>, count: int) -> Seq<(nat, Seq<char>)>
    decreases count,
{
    if count <= 0 {
        Seq::empty()
    } else if is_backup(files[count - 1]) {
        backups_among(files, count - 1).push(
            (files[count - 1].modified as nat, files[count - 1].name@),
        )
    } else {
        backups_among(files, count - 1)
    }
}

/// Whether one backup is newer than another: written later, or at the same time with a name
/// that stands behind.
pub open spec fn is_newer(a: (nat, Seq<char>), b: (nat, Seq<char>)) -> bool {
    a.0 > b.0 || (a.0 == b.0 && text::precedes(b.1, a.1))
}

/// Whether no backup is newer than one before it.
pub open spec fn newest_first(list: Seq<(nat, Seq<char>)>) -> bool {
    forall|i: int, j: int|
        0 <= i < j < list.len() ==> !is_newer(#[trigger] list[j], #[trigger] list[i])
}

/// The names of a list of backups.
pub open spec fn names_of(list: Seq<(nat, Seq<char>)>) -> Seq<Seq<char>> {
    Seq::new(list.len(), |i: int| list[i].1)
}

/// Whether names are those of all backups but the newest ones, `keep` of them, newest first.
pub open spec fn are_expired(files: Seq<BackupFile>, keep: int, names: Seq<Seq<char>>) -> bool {
    exists|sorted: Seq<(nat, Seq<char>)>|
        {
            &&& newest_first(sorted)
            &&& #[trigger] sorted.to_multiset() == backups_among(
                files,
                files.len() as int,
            ).to_multiset()
            &&& names == names_of(
                if sorted.len() <= keep {
                    Seq::empty()
                } else {
                    sorted.skip(keep)
                },
            )
        }
}

/// Age and name of entries.
pub open spec fn entry_views(entries: Seq<(u128, String)>) -> Seq<(nat, Seq<char>)> {
    Seq::new(entries.len(), |i: int| (entries[i].0 as nat, entries[i].1@))
}

/// Puts a backup into its place among those that stand newest first.
fn insert_backup(sorted: &mut Vec<(u128, String)>, modified: u128, name: String)
    requires
        newest_first(entry_views(old(sorted)@)),
    ensures
        newest_first(entry_views(final(sorted)@)),
        entry_views(final(sorted)@).to_multiset() == entry_views(old(sorted)@).to_multiset().insert(
            (modified as nat, name@),
        ),
{
    let ghost before = entry_views(sorted@);
    let ghost item = (modified as nat, name@);
    let mut i: usize = 0;
    while i < sorted.len() && !(modified > sorted[i].0 || (modified == sorted[i].0 && text::before(
        sorted[i].1.as_str(),
        name.as_str(),
    )))
        invariant
            entry_views(sorted@) == before,
            item == (modified as nat, name@),
            i <= sorted@.len(),
            forall|j: int| 0 <= j < i ==> !is_newer(item, #[trigger] before[j]),
        decreases sorted@.len() - i,
    {
        assert(before[i as int] == (sorted@[i as int].0 as nat, sorted@[i as int].1@));
        i += 1;
    }
    let ghost n = before.len() as int;
    proof {
        if i < n {
            assert(before[i as int] == (sorted@[i as int].0 as nat, sorted@[i as int].1@));
            assert(is_newer(item, before[i as int]));
        }
    }
    sorted.insert(i, (modified, name));
    proof {
        let after = entry_views(sorted@);
        assert(after == before.insert(i as int, item));
        assert forall|j: int| i <= j < n implies !is_newer(#[trigger] before[j], item) by {
            if is_newer(before[j], item) {
                if j == i {
                    lemma_newer_is_strict(item, before[j]);
                } else {
                    lemma_newer_is_transitive(before[j], item, before[i as int]);
                    assert(!is_newer(before[j], before[i as int]));
                }
            }
        }
        assert forall|a: int, b: int| 0 <= a < b < after.len() implies !is_newer(
            #[trigger] after[b],
            #[trigger] after[a],
        ) by {
            let x = if a < i { a } else { a - 1 };
            let y = if b < i { b } else { b - 1 };
            if a == i {
                assert(after[b] == before[y]);
            } else if b == i {
                assert(after[a] == before[x]);
            } else {
                assert(after[a] == before[x]);
                assert(after[b] == before[y]);
            }
        }
        after.to_multiset_ensures();
        before.to_multiset_ensures();
        assert(after.remove(i as int) == before);
        assert(after.contains(after[i as int]));
        assert(after.to_multiset() =~= before.to_multiset().insert(item));
    }
}

proof fn lemma_newer_is_strict(a: (nat, Seq<char>), b: (nat, Seq<char>))
    requires
        is_newer(a, b),
    ensures
        !is_newer(b, a),
{
    if is_newer(b, a) {
        text::order_is_transitive(a.1, b.1, a.1);
        text::order_is_irreflexive(a.1);
    }
}

proof fn lemma_newer_is_transitive(a: (nat, Seq<char>), b: (nat, Seq<char>), c: (nat, Seq<char>))
    requires
        is_newer(a, b),
        is_newer(b, c),
    ensures
        is_newer(a, c),
{
    if a.0 == b.0 && b.0 == c.0 {
        text::order_is_transitive(c.1, b.1, a.1);
    }
}

/// The backups that are to go: all but the newest ones, `keep` of them.
pub fn expired_backups(files: &[BackupFile], keep: usize) -> (r: Vec<String>)
    ensures
        are_expired(files@, keep as int, text::views(r@)),
        r@.len() == if backups_among(files@, files@.len() as int).len() > keep {
            backups_among(files@, files@.len() as int).len() - keep
        } else {
            0
        },
{
    let mut sorted: Vec<(u128, String)> = Vec::new();
    let mut i: usize = 0;
    assert(entry_views(sorted@) =~= backups_among(files@, 0));
    while i < files.len()
        invariant
            i <= files@.len(),
            newest_first(entry_views(sorted@)),
            entry_views(sorted@).to_multiset() == backups_among(files@, i as int).to_multiset(),
        decreases files@.len() - i,
    {
        let file = &files[i];
        let ghost found = backups_among(files@, i as int);
        if file.is_file && text::starts_with(file.name.as_str(), "lumora-") && text::ends_with(
            file.name.as_str(),
            ".db",
        ) {
            insert_backup(&mut sorted, file.modified, file.name.clone());
            proof {
                found.to_multiset_ensures();
            }
        }
        i += 1;
    }
    let ghost all = entry_views(sorted@);
    let ghost found = backups_among(files@, files@.len() as int);
    proof {
        all.to_multiset_ensures();
        found.to_multiset_ensures();
        assert(all.len() == all.to_multiset().len());
        assert(found.len() == found.to_multiset().len());
    }
    let mut names: Vec<String> = Vec::new();
    let mut k: usize = keep;
    while k < sorted.len()
        invariant
            entry_views(sorted@) == all,
            keep <= k,
            keep <= sorted@.len() ==> k <= sorted@.len(),
            names@.len() == if k <= sorted@.len() {
                k - keep
            } else {
                0
            },
            forall|j: int| 0 <= j < names@.len() ==> (#[trigger] names@[j])@ == all[keep + j].1,
        decreases sorted@.len() - k,
    {
        assert(all[k as int].1 == sorted@[k as int].1@);
        names.push(sorted[k].1.clone());
        k += 1;
    }
    proof {
        let rest = if all.len() <= keep {
            Seq::empty()
        } else {
            all.skip(keep as int)
        };
        assert(text::views(names@) =~= names_of(rest));
        assert(newest_first(all) && all.to_multiset() == found.to_multiset());
        assert(are_expired(files@, keep as int, text::views(names@)));
    }
    names
}

/// How many backups are gone, by how removing each of them ended: those that were not there any
/// more do not count.
pub open spec fn removed_count(outcomes: Seq<Removal>, count: int) -> int
    decreases count,
{
    if count <= 0 {
        0
    } else {
        removed_count(outcomes, count - 1) + if outcomes[count - 1] == Removal::Removed {
            1int
        } else {
            0int
        }
    }
}

/// How many backups are gone.
pub fn remove_expired_backups(outcomes: &[Removal]) -> (r: usize)
    ensures
        r == removed_count(outcomes@, outcomes@.len() as int),
{
    let mut removed: usize = 0;
    let mut i: usize = 0;
    while i < outcomes.len()
        invariant
            i <= outcomes@.len(),
            removed <= i,
            removed == removed_count(outcomes@, i as int),
        decreases outcomes@.len() - i,
    {
        match outcomes[i] {
            Removal::Removed => {
                removed += 1;
            },
            _ => {},
        }
        i += 1;
    }
    removed
}

/// The file name of a copy of the database that upkeep makes.
pub open spec fn backup_text(time: Seq<char>, backup_token: Seq<char>) -> Seq<char> {
    "lumora-retention-"@ + time + "-"@ + backup_token + ".db"@
}

/// The file name of an archive of the audit log.
pub open spec fn archive_text(time: Seq<char>, archive_token: Seq<char>) -> Seq<char> {
    "admin-audit-before-"@ + time + "-"@ + archive_token + ".jsonl"@
}

/// The file name of a copy of the database that upkeep makes; `None` where the calendar has no
/// date for it.
pub fn retention_backup_name(now: Moment, backup_token: &str) -> (r: Option<String>)
    ensures
        r is Some <==> now.representable(),
        r matches Some(name) ==> name@ == backup_text(
            db::stamp_text(now.secs as int, now.nanos as int),
            backup_token@,
        ),
{
    if !now.is_representable() {
        return None;
    }
    let time = db::stamp(now);
    let stem = text::concat3("lumora-retention-", time.as_str(), "-");
    Some(text::concat3(stem.as_str(), backup_token, ".db"))
}

/// The file name of an archive of the audit log; `None` where the calendar has no date for it.
pub fn archive_name(now: Moment, archive_token: &str) -> (r: Option<String>)
    ensures
        r is Some <==> now.representable(),
        r matches Some(name) ==> name@ == archive_text(
            db::stamp_text(now.secs as int, now.nanos as int),
            archive_token@,
        ),
{
    if !now.is_representable() {
        return None;
    }
    let time = db::stamp(now);
    let stem = text::concat3("admin-audit-before-", time.as_str(), "-");
    Some(text::concat3(stem.as_str(), archive_token, ".jsonl"))
}

/// The line that reports an upkeep run: whether nothing was deleted, and the counts by name.
#[derive(Debug, PartialEq, Eq)]
pub struct ReportLine {
    pub dry_run: bool,
    pub counts: Vec<(&'static str, usize)>,
    pub message: &'static str,
}

/// The line that reports an upkeep run.
pub fn log_report(report: &RetentionReport, dry_run: bool) -> (r: ReportLine)
    ensures
        r.dry_run == dry_run,
        r.counts@ == seq![
            ("usage_logs", report.usage_logs),
            ("tasks", report.tasks),
            ("sessions", report.sessions),
            ("ip_locations", report.ip_locations),
            ("audit_logs", report.audit_logs),
            ("backups", report.backups),
        ],
        r.message == "data retention completed",
{
    let mut counts: Vec<(&'static str, usize)> = Vec::new();
    counts.push(("usage_logs", report.usage_logs));
    counts.push(("tasks", report.tasks));
    counts.push(("sessions", report.sessions));
    counts.push(("ip_locations", report.ip_locations));
    counts.push(("audit_logs", report.audit_logs));
    counts.push(("backups", report.backups));
    ReportLine { dry_run, counts, message: "data retention completed" }
}

/// What is reported of an upkeep step that failed.
pub fn retention_error() -> (r: AppError)
    ensures
        r.0 == INTERNAL_SERVER_ERROR,
        r.1@ == "数据保留任务失败"@,
{
    AppError(INTERNAL_SERVER_ERROR, "数据保留任务失败".to_owned())
}

/// A dry run deletes nothing, and changes nothing else.
pub proof fn dry_runs_only_report(report: RetentionReport, action: RetentionAction)
    ensures
        first_steps(report, true).contains(action) ==> action == RetentionAction::Report,
{
}

/// Rows are deleted only after the database was copied, and audit rows only after they were
/// archived.
pub proof fn rows_go_only_after_a_backup(report: RetentionReport, removed_tasks: usize)
    requires
        removed_tasks <= report.tasks,
        last_steps((RetentionReport { tasks: removed_tasks, ..report })).contains(
            RetentionAction::Apply,
        ),
    ensures
        first_steps(report, false).contains(RetentionAction::Backup),
        report.audit_logs > 0 ==> first_steps(report, false).contains(RetentionAction::Archive),
{
    let after = RetentionReport { tasks: removed_tasks, ..report };
    if after.rows() <= 0 {
        let steps = last_steps(after);
        assert(steps == seq![RetentionAction::PruneBackups, RetentionAction::Report]);
        assert(!steps.contains(RetentionAction::Apply));
    }
    let steps = first_steps(report, false);
    assert(steps[0] == RetentionAction::Backup);
    if report.audit_logs > 0 {
        assert(steps[1] == RetentionAction::Archive);
    }
}

/// The copies that upkeep makes are themselves counted as backups, so that old ones go in turn.
pub proof fn copies_count_as_backups(time: Seq<char>, backup_token: Seq<char>, file: BackupFile)
    requires
        file.is_file,
        file.name@ == backup_text(time, backup_token),
    ensures
        is_backup(file),
{
    reveal_strlit("lumora-");
    reveal_strlit("lumora-retention-");
    let name = file.name@;
    assert("lumora-"@ == name.subrange(0, "lumora-"@.len() as int));
    assert(".db"@ == name.subrange(name.len() - ".db"@.len(), name.len() as int));
}

/// Cleaning up never leaves the directory of tasks: no part of an accepted name leads upwards.
pub proof fn cleanup_stays_inside(name: Seq<char>, part: int)
    requires
        is_direct_child(name),
        0 <= part < text::split_on(name, '/').len(),
    ensures
        text::split_on(name, '/')[part] != ".."@,
{
    reveal_strlit("..");
    reveal_strlit(".");
    reveal_strlit("");
    if part > 0 {
        assert(""@.len() == 0);
        assert("."@.len() == 1);
        assert(".."@.len() == 2);
    }
}

/// Every kind of old row counts, and some go exactly where one of the kinds has any.
pub proof fn every_kind_of_row_counts(report: RetentionReport, some: bool, r: usize)
    requires
        report.usage_logs + report.tasks + report.sessions + report.ip_locations
            + report.audit_logs <= usize::MAX,
        call_ensures(RetentionReport::database_changes, (&report,), r),
        call_ensures(RetentionReport::has_database_changes, (&report,), some),
    ensures
        r == report.usage_logs + report.tasks + report.sessions + report.ip_locations
            + report.audit_logs,
        some <==> r > 0,
{
}

/// Each kind of data is old as many days after it was written as the policy says.
pub proof fn data_is_old_after_its_days(
    now: Moment,
    policy: &RetentionPolicy,
    usage: Option<Moment>,
    task: Option<Moment>,
    ip_location: Option<Moment>,
    audit: Option<Moment>,
    r: Option<Cutoffs>,
)
    requires
        now.representable(),
        i64::MIN < policy.usage_days,
        i64::MIN < policy.task_days,
        i64::MIN < policy.ip_location_days,
        i64::MIN < policy.audit_days,
        call_ensures(Moment::checked_plus_days, (&now, (-policy.usage_days) as i64), usage),
        call_ensures(Moment::checked_plus_days, (&now, (-policy.task_days) as i64), task),
        call_ensures(
            Moment::checked_plus_days,
            (&now, (-policy.ip_location_days) as i64),
            ip_location,
        ),
        call_ensures(Moment::checked_plus_days, (&now, (-policy.audit_days) as i64), audit),
        call_ensures(cutoffs, (now, policy), r),
    ensures
        r is Some <==> usage is Some && task is Some && ip_location is Some && audit is Some,
        r matches Some(held) ==> {
            &&& held.usage@ == clock::rfc3339_text(usage->0.secs as int, usage->0.nanos as int)
            &&& held.task@ == clock::rfc3339_text(task->0.secs as int, task->0.nanos as int)
            &&& held.ip_location@ == clock::rfc3339_text(
                ip_location->0.secs as int,
                ip_location->0.nanos as int,
            )
            &&& held.audit@ == clock::rfc3339_text(audit->0.secs as int, audit->0.nanos as int)
            &&& held.now@ == clock::rfc3339_text(now.secs as int, now.nanos as int)
        },
{
}

/// Upkeep runs next within a day, at three o'clock.
pub proof fn upkeep_runs_at_three(now: Moment, r: u64)
    requires
        now.representable(),
        call_ensures(next_run_delay, (now,), r),
    ensures
        0 < r <= 24 * 60 * 60 * 1_000_000_000,
        (now.secs * 1_000_000_000 + now.nanos + r) % 86_400_000_000_000 == 3 * 3_600_000_000_000,
{
}

/// The first steps of a run: a dry run reports and does nothing else. Any other run copies the
/// database before all else exactly where rows go, archives the audit log exactly where some of it
/// goes, removes the directories of tasks at last, and deletes no rows yet.
pub proof fn runs_begin_with_care(report: &RetentionReport, dry_run: bool, r: Vec<RetentionAction>)
    requires
        call_ensures(run_once, (report, dry_run), r),
    ensures
        dry_run ==> r@ == seq![RetentionAction::Report],
        !r@.contains(RetentionAction::Apply),
        !r@.contains(RetentionAction::PruneBackups),
        !dry_run ==> {
            let rows = report.usage_logs > 0 || report.tasks > 0 || report.sessions > 0
                || report.ip_locations > 0 || report.audit_logs > 0;
            &&& r@.len() == 1 + (if rows { 1int } else { 0 }) + (if report.audit_logs > 0 {
                1int
            } else {
                0
            })
            &&& rows ==> r@[0] == RetentionAction::Backup
            &&& report.audit_logs > 0 ==> r@[1] == RetentionAction::Archive
            &&& r@.last() == RetentionAction::CleanTasks
        },
{
}

/// The last steps of a run: rows are deleted exactly where some go, with the tasks counted whose
/// directories are gone; then old copies go, and the run is reported.
pub proof fn runs_end_with_a_report(
    report: &RetentionReport,
    removed_tasks: usize,
    r: (RetentionReport, Vec<RetentionAction>),
)
    requires
        call_ensures(finish_run, (report, removed_tasks), r),
    ensures
        r.0.tasks == removed_tasks,
        r.0.usage_logs == report.usage_logs,
        r.0.sessions == report.sessions,
        r.0.ip_locations == report.ip_locations,
        r.0.audit_logs == report.audit_logs,
        r.0.backups == report.backups,
        r.1@.last() == RetentionAction::Report,
        r.1@[r.1@.len() - 2] == RetentionAction::PruneBackups,
        ({
            let rows = report.usage_logs > 0 || removed_tasks > 0 || report.sessions > 0
                || report.ip_locations > 0 || report.audit_logs > 0;
            &&& rows ==> r.1@.len() == 3 && r.1@[0] == RetentionAction::Apply
            &&& !rows ==> r.1@.len() == 2
        }),
{
}

/// A plain name leads right inside its directory; a name with a part that leads elsewhere is
/// refused.
pub proof fn only_plain_names_lead_inside(base: &str, name: &str, path: String, r: Option<String>)
    requires
        call_ensures(direct_child, (base, name), r),
        call_ensures(config::join_path, (base, name), path),
    ensures
        !name@.contains('/') && name@.len() > 0 && name@ != "."@ && name@ != ".."@ ==> r is Some,
        r is Some ==> r->0@ == path@,
        name@.len() == 0 || name@ == "."@ || name@ == ".."@ || name@[0] == '/' ==> r is None,
        r is Some ==> forall|i: int|
            0 <= i < text::split_on(name@, '/').len() ==> #[trigger] text::split_on(name@, '/')[i]
                != ".."@,
        r is Some ==> forall|i: int|
            1 <= i < text::split_on(name@, '/').len() ==> (#[trigger] text::split_on(
                name@,
                '/',
            )[i]).len() == 0 || text::split_on(name@, '/')[i] == "."@,
{
    reveal_strlit("");
    reveal_strlit(".");
    reveal_strlit("..");
    let parts = text::split_on(name@, '/');
    if !name@.contains('/') {
        assert(name@.take(name@.len() as int) =~= name@);
        text::the_first_part_ends_at_the_first_separator(name@, '/', name@.len() as int);
        assert(parts.len() == 1);
        assert(parts[0] == name@);
        if name@.len() == 0 {
            assert(name@ =~= ""@);
        }
    } else if name@[0] == '/' {
        assert(name@.take(0) =~= Seq::<char>::empty());
        text::the_first_part_ends_at_the_first_separator(name@, '/', 0);
        assert(parts[0] =~= ""@);
    }
    if name@ == "."@ {
        assert(!name@.contains('/'));
    }
    if name@ == ".."@ {
        assert(!name@.contains('/'));
    }
    if r is Some {
        assert forall|i: int| 0 <= i < parts.len() implies #[trigger] parts[i] != ".."@ by {
            cleanup_stays_inside(name@, i);
        }
    }
}

proof fn lemma_safe_prefix(ids: Seq<String>, more: Seq<String>, count: int)
    requires
        count <= ids.len() <= more.len(),
        forall|i: int| 0 <= i < ids.len() ==> ids[i] == more[i],
    ensures
        safe_tasks(ids, count) == safe_tasks(more, count),
    decreases count,
{
    if count > 0 {
        lemma_safe_prefix(ids, more, count - 1);
    }
}

/// One more task adds its directory behind the others, unless its name leads elsewhere.
pub proof fn every_safe_task_is_cleaned(
    base: &str,
    ids: &[String],
    more: &[String],
    id: String,
    name: &str,
    path: Option<String>,
    r: Vec<(String, String)>,
    s: Vec<(String, String)>,
)
    requires
        more@ == ids@.push(id),
        name@ == id@,
        call_ensures(direct_child, (base, name), path),
        call_ensures(task_directories, (base, ids), r),
        call_ensures(task_directories, (base, more), s),
    ensures
        ids@.len() == 0 ==> r@.len() == 0,
        s@.len() == r@.len() + (if path is Some { 1int } else { 0 }),
        forall|i: int|
            0 <= i < r@.len() ==> (#[trigger] s@[i]).0@ == r@[i].0@ && s@[i].1@ == r@[i].1@,
        path is Some ==> s@.last().0@ == id@ && s@.last().1@ == path->0@,
{
    let n = ids@.len() as int;
    lemma_safe_prefix(ids@, more@, n);
    assert(more@[n] == id);
    let before = safe_tasks(ids@, n);
    let after = safe_tasks(more@, n + 1);
    assert forall|i: int| 0 <= i < r@.len() implies (#[trigger] s@[i]).0@ == r@[i].0@ && s@[i].1@
        == r@[i].1@ by {
        assert(after[i] == before[i]);
        assert(r@[i].0@ == before[i]);
    }
    if path is Some {
        assert(s@[s@.len() - 1].0@ == after[s@.len() - 1]);
    }
}

proof fn lemma_gone_prefix(
    outcomes: Seq<(String, Removal)>,
    more: Seq<(String, Removal)>,
    count: int,
)
    requires
        count <= outcomes.len() <= more.len(),
        forall|i: int| 0 <= i < outcomes.len() ==> outcomes[i] == more[i],
    ensures
        gone_tasks(outcomes, count) == gone_tasks(more, count),
    decreases count,
{
    if count > 0 {
        lemma_gone_prefix(outcomes, more, count - 1);
    }
}

/// A task's row may go exactly where its directory is not there any more.
pub proof fn rows_go_with_their_directories(
    outcomes: &[(String, Removal)],
    more: &[(String, Removal)],
    outcome: (String, Removal),
    r: Vec<String>,
    s: Vec<String>,
)
    requires
        more@ == outcomes@.push(outcome),
        call_ensures(cleanup_task_directories, (outcomes,), r),
        call_ensures(cleanup_task_directories, (more,), s),
    ensures
        outcomes@.len() == 0 ==> r@.len() == 0,
        outcome.1 is Failed ==> text::views(s@) == text::views(r@),
        outcome.1 is Removed || outcome.1 is Missing ==> text::views(s@) == text::views(r@).push(
            outcome.0@,
        ),
{
    let n = outcomes@.len() as int;
    lemma_gone_prefix(outcomes@, more@, n);
    assert(more@[n] == outcome);
    assert(text::views(r@).len() == r@.len());
}

/// A file is among the backups exactly where it is one.
proof fn lemma_backups_among(files: Seq<BackupFile>, count: int, entry: (nat, Seq<char>))
    requires
        0 <= count <= files.len(),
    ensures
        backups_among(files, count).contains(entry) <==> exists|i: int|
            0 <= i < count && is_backup(#[trigger] files[i]) && entry == (
                files[i].modified as nat,
                files[i].name@,
            ),
    decreases count,
{
    if count > 0 {
        lemma_backups_among(files, count - 1, entry);
        let before = backups_among(files, count - 1);
        let after = backups_among(files, count);
        let file = files[count - 1];
        if is_backup(file) {
            let new = (file.modified as nat, file.name@);
            assert(after == before.push(new));
            if after.contains(entry) {
                let k = choose|k: int| 0 <= k < after.len() && after[k] == entry;
                if k < before.len() {
                    assert(before[k] == entry);
                } else {
                    assert(is_backup(files[count - 1]));
                }
            }
            if before.contains(entry) {
                let k = choose|k: int| 0 <= k < before.len() && before[k] == entry;
                assert(after[k] == entry);
            }
            if entry == new {
                assert(after[after.len() - 1] == entry);
            }
        }
    }
}

/// Whether a file is a copy of the database, by its name.
pub open spec fn looks_like_a_backup(file: BackupFile) -> bool {
    &&& file.is_file
    &&& exists|rest: Seq<char>| file.name@ == #[trigger] ("lumora-"@ + rest)
    &&& exists|rest: Seq<char>| file.name@ == #[trigger] (rest + ".db"@)
}

proof fn lemma_looks_like_a_backup(file: BackupFile)
    ensures
        looks_like_a_backup(file) == is_backup(file),
{
    let name = file.name@;
    if is_backup(file) {
        assert(name =~= "lumora-"@ + name.skip("lumora-"@.len() as int));
        assert(name =~= name.take(name.len() - ".db"@.len()) + ".db"@);
    }
    if looks_like_a_backup(file) {
        let a = choose|rest: Seq<char>| name == #[trigger] ("lumora-"@ + rest);
        let b = choose|rest: Seq<char>| name == #[trigger] (rest + ".db"@);
        assert(name.subrange(0, "lumora-"@.len() as int) =~= "lumora-"@);
        assert(name.subrange(name.len() - ".db"@.len(), name.len() as int) =~= ".db"@);
    }
}

/// Only backups go, and where none is to be kept, all of them.
pub proof fn only_backups_go(files: &[BackupFile], keep: usize, r: Vec<String>, k: int, i: int)
    requires
        call_ensures(expired_backups, (files, keep), r),
    ensures
        0 <= k < r@.len() ==> exists|j: int|
            0 <= j < files@.len() && looks_like_a_backup(#[trigger] files@[j]) && files@[j].name@
                == r@[k]@,
        0 <= i < files@.len() && keep == 0 && looks_like_a_backup(files@[i]) ==> text::views(
            r@,
        ).contains(files@[i].name@),
{
    let n = files@.len() as int;
    let found = backups_among(files@, n);
    let names = text::views(r@);
    let sorted = choose|sorted: Seq<(nat, Seq<char>)>|
        {
            &&& newest_first(sorted)
            &&& #[trigger] sorted.to_multiset() == found.to_multiset()
            &&& names == names_of(
                if sorted.len() <= keep {
                    Seq::empty()
                } else {
                    sorted.skip(keep as int)
                },
            )
        };
    assert(names.len() == r@.len());
    sorted.to_multiset_ensures();
    found.to_multiset_ensures();
    if 0 <= k < r@.len() {
        assert(names[k] == r@[k]@);
        let entry = sorted[keep + k];
        assert(names[k] == entry.1);
        assert(sorted.contains(entry));
        assert(sorted.to_multiset().count(entry) > 0);
        assert(found.contains(entry));
        lemma_backups_among(files@, n, entry);
        let j = choose|j: int|
            0 <= j < n && is_backup(#[trigger] files@[j]) && entry == (
                files@[j].modified as nat,
                files@[j].name@,
            );
        lemma_looks_like_a_backup(files@[j]);
        assert(looks_like_a_backup(files@[j]) && files@[j].name@ == r@[k]@);
    }
    if 0 <= i < n && keep == 0 && looks_like_a_backup(files@[i]) {
        lemma_looks_like_a_backup(files@[i]);
        let own = (files@[i].modified as nat, files@[i].name@);
        lemma_backups_among(files@, n, own);
        assert(found.contains(own));
        assert(found.to_multiset().count(own) > 0);
        assert(sorted.contains(own));
        let p = choose|p: int| 0 <= p < sorted.len() && sorted[p] == own;
        assert(sorted.skip(0)[p] == own);
        assert(names[p] == own.1);
    }
}

/// Keeping one backup more lets one less go, as long as any go.
pub proof fn as_many_are_kept_as_wanted(
    files: &[BackupFile],
    keep: usize,
    more: usize,
    r: Vec<String>,
    s: Vec<String>,
)
    requires
        more == keep + 1,
        call_ensures(expired_backups, (files, keep), r),
        call_ensures(expired_backups, (files, more), s),
    ensures
        r@.len() > 0 ==> s@.len() == r@.len() - 1,
        r@.len() == 0 ==> s@.len() == 0,
{
}

/// Where a backup goes, every older one goes with it; of two from the same moment the one whose
/// name stands behind is the newer.
pub proof fn the_newest_backups_stay(
    files: &[BackupFile],
    keep: usize,
    r: Vec<String>,
    a: int,
    b: int,
)
    requires
        call_ensures(expired_backups, (files, keep), r),
        0 <= a < files@.len(),
        0 <= b < files@.len(),
        forall|x: int, y: int|
            0 <= x < y < files@.len() ==> (#[trigger] files@[x]).name@ != (
            #[trigger] files@[y]).name@,
        looks_like_a_backup(files@[b]),
        files@[b].modified < files@[a].modified || (files@[b].modified == files@[a].modified
            && text::precedes(files@[b].name@, files@[a].name@)),
        text::views(r@).contains(files@[a].name@),
    ensures
        text::views(r@).contains(files@[b].name@),
{
    let n = files@.len() as int;
    let found = backups_among(files@, n);
    let names = text::views(r@);
    let sorted = choose|sorted: Seq<(nat, Seq<char>)>|
        {
            &&& newest_first(sorted)
            &&& #[trigger] sorted.to_multiset() == found.to_multiset()
            &&& names == names_of(
                if sorted.len() <= keep {
                    Seq::empty()
                } else {
                    sorted.skip(keep as int)
                },
            )
        };
    sorted.to_multiset_ensures();
    found.to_multiset_ensures();
    let k = choose|k: int| 0 <= k < names.len() && names[k] == files@[a].name@;
    let entry = sorted[keep + k];
    assert(names[k] == entry.1);
    assert(sorted.contains(entry));
    assert(sorted.to_multiset().count(entry) > 0);
    assert(found.contains(entry));
    lemma_backups_among(files@, n, entry);
    let j = choose|j: int|
        0 <= j < n && is_backup(#[trigger] files@[j]) && entry == (
            files@[j].modified as nat,
            files@[j].name@,
        );
    if j < a {
        assert(files@[j].name@ != files@[a].name@);
    } else if a < j {
        assert(files@[a].name@ != files@[j].name@);
    }
    assert(entry == (files@[a].modified as nat, files@[a].name@));
    lemma_looks_like_a_backup(files@[b]);
    let older = (files@[b].modified as nat, files@[b].name@);
    lemma_backups_among(files@, n, older);
    assert(found.to_multiset().count(older) > 0);
    assert(sorted.contains(older));
    let p = choose|p: int| 0 <= p < sorted.len() && sorted[p] == older;
    assert(is_newer(entry, older));
    if p < keep + k {
        assert(!is_newer(sorted[keep + k], sorted[p]));
    }
    assert(sorted.skip(keep as int)[p - keep] == older);
    assert(names[p - keep] == older.1);
}

proof fn lemma_removed_prefix(outcomes: Seq<Removal>, more: Seq<Removal>, count: int)
    requires
        count <= outcomes.len() <= more.len(),
        forall|i: int| 0 <= i < outcomes.len() ==> outcomes[i] == more[i],
    ensures
        removed_count(outcomes, count) == removed_count(more, count),
    decreases count,
{
    if count > 0 {
        lemma_removed_prefix(outcomes, more, count - 1);
    }
}

/// A backup counts as gone exactly where it was removed.
pub proof fn removed_backups_count(
    outcomes: &[Removal],
    more: &[Removal],
    outcome: Removal,
    r: usize,
    s: usize,
)
    requires
        more@ == outcomes@.push(outcome),
        call_ensures(remove_expired_backups, (outcomes,), r),
        call_ensures(remove_expired_backups, (more,), s),
    ensures
        outcomes@.len() == 0 ==> r == 0,
        outcome is Removed ==> s == r + 1,
        outcome is Missing || outcome is Failed ==> s == r,
{
    let n = outcomes@.len() as int;
    lemma_removed_prefix(outcomes@, more@, n);
    assert(more@[n] == outcome);
}

/// Copies and archives carry the time and a token of their own in their names.
pub proof fn copies_carry_time_and_token(
    now: Moment,
    own_token: &str,
    backup: Option<String>,
    archive: Option<String>,
)
    requires
        call_ensures(retention_backup_name, (now, own_token), backup),
        call_ensures(archive_name, (now, own_token), archive),
    ensures
        backup is Some <==> now.representable(),
        archive is Some <==> now.representable(),
        backup is Some ==> backup->0@ == "lumora-retention-"@ + db::stamp_text(
            now.secs as int,
            now.nanos as int,
        ) + "-"@ + own_token@ + ".db"@,
        archive is Some ==> archive->0@ == "admin-audit-before-"@ + db::stamp_text(
            now.secs as int,
            now.nanos as int,
        ) + "-"@ + own_token@ + ".jsonl"@,
{
}

/// A run reports every count under its name.
pub proof fn reports_name_every_count(report: &RetentionReport, dry_run: bool, r: ReportLine)
    requires
        call_ensures(log_report, (report, dry_run), r),
    ensures
        r.dry_run == dry_run,
        r.counts@.len() == 6,
        r.counts@[0] == ("usage_logs", report.usage_logs),
        r.counts@[1] == ("tasks", report.tasks),
        r.counts@[2] == ("sessions", report.sessions),
        r.counts@[3] == ("ip_locations", report.ip_locations),
        r.counts@[4] == ("audit_logs", report.audit_logs),
        r.counts@[5] == ("backups", report.backups),
{
}

/// Unless it is told otherwise, upkeep only reports, and keeps calls for ninety days, tasks for
/// seven, whereabouts for thirty, the audit log for a year, and five copies of the database.
pub proof fn upkeep_is_careful_by_default(r: RetentionPolicy)
    requires
        call_ensures(RetentionPolicy::default, (), r),
    ensures
        r.dry_run,
        r.usage_days == 90,
        r.task_days == 7,
        r.ip_location_days == 30,
        r.audit_days == 365,
        r.backup_count == 5,
{
}

/// A failed upkeep step is the server's own error.
pub proof fn upkeep_errors_are_internal(r: AppError)
    requires
        call_ensures(retention_error, (), r),
    ensures
        r.0 == 500,
{
}

} // verus!
