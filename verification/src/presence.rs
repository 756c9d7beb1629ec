//! Throttling the writes that record who is present.

use vstd::prelude::*;

use crate::table::Table;
use crate::text;

verus! {

/// How long, in nanoseconds, a recorded presence needs no new record.
pub const PRESENCE_WINDOW: u64 = 60_000_000_000;

/// Beyond this many entries, the stale ones are dropped.
pub const PRUNE_THRESHOLD: usize = 4096;

/// `std::time::Instant`, a reading of the monotonic clock.
#[verifier::external_type_specification]
#[verifier::external_body]
pub struct ExInstant(std::time::Instant);

/// Calls `std::time::Instant::now`; nothing is promised of the reading.
#[verifier::external_body]
pub(crate) fn clock_start() -> std::time::Instant {
    std::time::Instant::now()
}

/// Calls `std::time::Instant::elapsed` and counts it in nanoseconds; nothing is promised of the
/// count.
#[verifier::external_body]
pub(crate) fn nanos_since(start: &std::time::Instant) -> u64 {
    start.elapsed().as_nanos() as u64
}

/// Whether a record made at `recorded` still stands at `now`.
pub open spec fn is_fresh(recorded: u64, now: u64) -> bool {
    now - recorded < PRESENCE_WINDOW
}

/// Whether a record is due for the key.
pub open spec fn is_due(records: Map<Seq<char>, u64>, key: Seq<char>, now: u64) -> bool {
    !(records.contains_key(key) && is_fresh(records[key], now))
}

/// The records that still stand at `now`.
pub open spec fn fresh_records(records: Map<Seq<char>, u64>, now: u64) -> Map<Seq<char>, u64> {
    records.restrict(Set::new(|key: Seq<char>| records.contains_key(key) && is_fresh(records[key], now)))
}

/// The records after a due one was made: without the stale ones where there are too many.
pub open spec fn recorded(before: Table<u64>, key: Seq<char>, now: u64) -> Map<Seq<char>, u64> {
    let all = before.view().insert(key, now);
    let count = before.count() + if before.view().contains_key(key) {
        0int
    } else {
        1int
    };
    if count > PRUNE_THRESHOLD {
        fresh_records(all, now)
    } else {
        all
    }
}

/// Asks whether a record is due for the key, and makes it if so.
fn touch(records: &mut Table<u64>, key: &str, now: u64) -> (r: bool)
    requires
        old(records).wf(),
    ensures
        final(records).wf(),
        r == is_due(old(records).view(), key@, now),
        !r ==> *final(records) == *old(records),
        r ==> final(records).view() == recorded(*old(records), key@, now),
{
    match records.get(key) {
        Some(recorded) => {
            if now < *recorded || now - *recorded < PRESENCE_WINDOW {
                return false;
            }
        },
        None => {},
    }
    records.insert(key, now);
    let ghost all = records.view();
    if records.len() > PRUNE_THRESHOLD {
        let least: u64 = if now >= PRESENCE_WINDOW {
            now - PRESENCE_WINDOW + 1
        } else {
            0
        };
        records.retain_from(least);
        assert(records.view() =~= fresh_records(all, now));
    }
    true
}

/// The two kinds of records that a window throttles.
#[derive(Clone, Copy, Debug, PartialEq, Eq, Structural)]
pub enum Window {
    LastSeen,
    ApiKeyUse,
}

/// What was last written about users and API keys, so that it is not written again too soon.
#[derive(Debug)]
pub struct PresenceThrottle {
    last_seen: Table<u64>,
    activity_day: Table<String>,
    api_key_used: Table<u64>,
    started: std::time::Instant,
}

impl PresenceThrottle {
    pub closed spec fn wf(self) -> bool {
        &&& self.last_seen.wf()
        &&& self.activity_day.wf()
        &&& self.api_key_used.wf()
    }

    /// The records of one kind: when each key was last written.
    pub closed spec fn records(self, window: Window) -> Table<u64> {
        match window {
            Window::LastSeen => self.last_seen,
            Window::ApiKeyUse => self.api_key_used,
        }
    }

    /// The day that was last written for each user.
    pub closed spec fn days(self) -> Table<String> {
        self.activity_day
    }

    /// Whether both hold the same records of one kind, and the same days.
    pub open spec fn same_but(self, other: Self, window: Window) -> bool {
        &&& self.days() == other.days()
        &&& forall|kind: Window| kind != window ==> #[trigger] self.records(kind) == other.records(
            kind,
        )
    }

    /// The tables are well-formed: of each kind there are as many records as keys that have one,
    /// and as many days as users.
    pub proof fn counts_are_sizes(self)
        requires
            self.wf(),
        ensures
            forall|window: Window| (#[trigger] self.records(window)).wf(),
            self.days().wf(),
            forall|window: Window| #[trigger]
                self.records(window).count() == self.records(window).view().dom().len(),
            forall|window: Window| (#[trigger] self.records(window)).view().dom().finite(),
            self.days().count() == self.days().view().dom().len(),
            self.days().view().dom().finite(),
    {
        self.last_seen.count_is_size();
        self.api_key_used.count_is_size();
        self.activity_day.count_is_size();
    }

    pub fn new() -> (r: Self)
        ensures
            r.wf(),
            forall|window: Window| #[trigger]
                r.records(window).view() == Map::<Seq<char>, u64>::empty(),
            forall|window: Window| #[trigger] r.records(window).count() == 0,
            r.days().view() == Map::<Seq<char>, String>::empty(),
            r.days().count() == 0,
    {
        PresenceThrottle {
            last_seen: Table::new(),
            activity_day: Table::new(),
            api_key_used: Table::new(),
            started: clock_start(),
        }
    }

    /// How many users have a record of when they were last seen.
    pub fn last_seen_count(&self) -> (r: usize)
        ensures
            r == self.records(Window::LastSeen).count(),
    {
        self.last_seen.len()
    }

    /// How many users have a record of an active day.
    pub fn activity_day_count(&self) -> (r: usize)
        ensures
            r == self.days().count(),
    {
        self.activity_day.len()
    }

    /// Whether a record of the given kind is due for the key at `now`; if so it counts as made.
    pub fn check_window(&mut self, key: &str, now: u64, window: Window) -> (r: bool)
        requires
            old(self).wf(),
        ensures
            final(self).wf(),
            final(self).same_but(*old(self), window),
            r == is_due(old(self).records(window).view(), key@, now),
            !r ==> final(self).records(window) == old(self).records(window),
            r ==> final(self).records(window).view() == recorded(
                old(self).records(window),
                key@,
                now,
            ),
            final(self).records(window).count() == final(self).records(window).view().dom().len(),
    {
        let r = match window {
            Window::LastSeen => touch(&mut self.last_seen, key, now),
            Window::ApiKeyUse => touch(&mut self.api_key_used, key, now),
        };
        proof {
            self.counts_are_sizes();
        }
        r
    }

    /// Whether the user's `last_seen_at` is to be written now. The clock decides whether an
    /// earlier record still stands.
    pub fn should_record_last_seen(&mut self, user_id: &str) -> (r: bool)
        requires
            old(self).wf(),
        ensures
            final(self).wf(),
            final(self).same_but(*old(self), Window::LastSeen),
            !old(self).records(Window::LastSeen).view().contains_key(user_id@) ==> r,
            exists|now: u64|
                {
                    &&& r == #[trigger] is_due(
                        old(self).records(Window::LastSeen).view(),
                        user_id@,
                        now,
                    )
                    &&& r ==> final(self).records(Window::LastSeen).view() == recorded(
                        old(self).records(Window::LastSeen),
                        user_id@,
                        now,
                    )
                },
            !r ==> final(self).records(Window::LastSeen) == old(self).records(Window::LastSeen),
            final(self).records(Window::LastSeen).count() == final(self).records(
                Window::LastSeen,
            ).view().dom().len(),
    {
        let now: u64 = nanos_since(&self.started);
        self.check_window(user_id, now, Window::LastSeen)
    }

    /// Whether the user's activity on a day is to be written: once for each day.
    pub fn should_record_activity_day(&mut self, user_id: &str, date: &str) -> (r: bool)
        requires
            old(self).wf(),
        ensures
            final(self).wf(),
            forall|window: Window| #[trigger]
                final(self).records(window) == old(self).records(window),
            r == !(old(self).days().view().contains_key(user_id@) && old(
                self,
            ).days().view()[user_id@]@ == date@),
            !r ==> final(self).days() == old(self).days(),
            r ==> final(self).days().view().remove(user_id@) == old(self).days().view().remove(
                user_id@,
            ),
            final(self).days().view().contains_key(user_id@),
            final(self).days().view()[user_id@]@ == date@,
            final(self).days().count() == old(self).days().count() + if old(
                self,
            ).days().view().contains_key(user_id@) {
                0int
            } else {
                1int
            },
    {
        match self.activity_day.get(user_id) {
            Some(recorded) => {
                if text::same(recorded.as_str(), date) {
                    return false;
                }
            },
            None => {},
        }
        let ghost before = self.activity_day.view();
        self.activity_day.insert(user_id, date.to_owned());
        assert(self.activity_day.view().remove(user_id@) =~= before.remove(user_id@));
        true
    }

    /// Whether the key's `last_used` is to be written now. The clock decides whether an earlier
    /// record still stands.
    pub fn should_record_api_key_use(&mut self, key_hash: &str) -> (r: bool)
        requires
            old(self).wf(),
        ensures
            final(self).wf(),
            final(self).same_but(*old(self), Window::ApiKeyUse),
            !old(self).records(Window::ApiKeyUse).view().contains_key(key_hash@) ==> r,
            exists|now: u64|
                {
                    &&& r == #[trigger] is_due(
                        old(self).records(Window::ApiKeyUse).view(),
                        key_hash@,
                        now,
                    )
                    &&& r ==> final(self).records(Window::ApiKeyUse).view() == recorded(
                        old(self).records(Window::ApiKeyUse),
                        key_hash@,
                        now,
                    )
                },
            !r ==> final(self).records(Window::ApiKeyUse) == old(self).records(Window::ApiKeyUse),
            final(self).records(Window::ApiKeyUse).count() == final(self).records(
                Window::ApiKeyUse,
            ).view().dom().len(),
    {
        let now: u64 = nanos_since(&self.started);
        self.check_window(key_hash, now, Window::ApiKeyUse)
    }

    /// Forgets when the user was last seen, so that the next sight is written.
    pub fn forget_last_seen(&mut self, user_id: &str)
        requires
            old(self).wf(),
        ensures
            final(self).wf(),
            final(self).same_but(*old(self), Window::LastSeen),
            final(self).records(Window::LastSeen).view() == old(self).records(
                Window::LastSeen,
            ).view().remove(user_id@),
            final(self).records(Window::LastSeen).count() == final(self).records(
                Window::LastSeen,
            ).view().dom().len(),
    {
        let _ = self.last_seen.remove(user_id);
        proof {
            self.counts_are_sizes();
        }
    }

    /// Forgets the user's active day, if it is this one.
    pub fn forget_activity_day(&mut self, user_id: &str, date: &str)
        requires
            old(self).wf(),
        ensures
            final(self).wf(),
            forall|window: Window| #[trigger]
                final(self).records(window) == old(self).records(window),
            final(self).days().view() == if old(self).days().view().contains_key(user_id@) && old(
                self,
            ).days().view()[user_id@]@ == date@ {
                old(self).days().view().remove(user_id@)
            } else {
                old(self).days().view()
            },
            final(self).days().count() == final(self).days().view().dom().len(),
    {
        let matching = match self.activity_day.get(user_id) {
            Some(recorded) => text::same(recorded.as_str(), date),
            None => false,
        };
        if matching {
            let _ = self.activity_day.remove(user_id);
        }
        proof {
            self.counts_are_sizes();
        }
    }

    /// Forgets when the key was last used, so that the next use is written.
    pub fn forget_api_key_use(&mut self, key_hash: &str)
        requires
            old(self).wf(),
        ensures
            final(self).wf(),
            final(self).same_but(*old(self), Window::ApiKeyUse),
            final(self).records(Window::ApiKeyUse).view() == old(self).records(
                Window::ApiKeyUse,
            ).view().remove(key_hash@),
            final(self).records(Window::ApiKeyUse).count() == final(self).records(
                Window::ApiKeyUse,
            ).view().dom().len(),
    {
        let _ = self.api_key_used.remove(key_hash);
        proof {
            self.counts_are_sizes();
        }
    }
}

impl Default for PresenceThrottle {
    fn default() -> (r: Self)
        ensures
            r.wf(),
            forall|window: Window| #[trigger]
                r.records(window).view() == Map::<Seq<char>, u64>::empty(),
            forall|window: Window| #[trigger] r.records(window).count() == 0,
            r.days().view() == Map::<Seq<char>, String>::empty(),
            r.days().count() == 0,
    {
        PresenceThrottle::new()
    }
}

/// A record that was made stands until the window has passed, and is due again from then on.
pub proof fn recorded_once_per_window(records: Table<u64>, key: Seq<char>, now: u64, later: u64)
    requires
        is_due(records.view(), key, now),
        now <= later,
    ensures
        is_due(recorded(records, key, now), key, later) == (later - now >= PRESENCE_WINDOW),
{
    assert(is_fresh(now, now));
    assert(recorded(records, key, now).contains_key(key));
    assert(recorded(records, key, now)[key] == now);
}

/// A record of one key leaves it open, from then on, whether another key's is due.
pub proof fn keys_are_independent(
    records: Table<u64>,
    key: Seq<char>,
    other: Seq<char>,
    now: u64,
    later: u64,
)
    requires
        key != other,
        now <= later,
    ensures
        is_due(recorded(records, key, now), other, later) == is_due(records.view(), other, later),
{
    let all = records.view().insert(key, now);
    assert(all.contains_key(other) == records.view().contains_key(other));
}

/// Once there are too many records, only fresh ones remain.
pub proof fn stale_records_are_dropped(
    records: Table<u64>,
    key: Seq<char>,
    other: Seq<char>,
    now: u64,
)
    requires
        records.count() >= PRUNE_THRESHOLD,
        !records.view().contains_key(key),
        recorded(records, key, now).contains_key(other),
    ensures
        is_fresh(recorded(records, key, now)[other], now),
{
}

/// Fresh records are never dropped: while all are, every new key adds one.
pub proof fn fresh_records_are_kept(records: Table<u64>, key: Seq<char>, now: u64)
    requires
        records.wf(),
        !records.view().contains_key(key),
        forall|other: Seq<char>| #[trigger]
            records.view().contains_key(other) ==> is_fresh(records.view()[other], now),
    ensures
        recorded(records, key, now) == records.view().insert(key, now),
        recorded(records, key, now).dom().len() == records.count() + 1,
{
    let all = records.view().insert(key, now);
    assert(is_fresh(now, now));
    assert(fresh_records(all, now) =~= all);
    records.count_is_size();
    assert(all.dom() =~= records.view().dom().insert(key));
}

/// Once there are too many records and the window of all has passed, a new one stands alone.
pub proof fn stale_windows_are_emptied(records: Table<u64>, key: Seq<char>, now: u64)
    requires
        records.count() >= PRUNE_THRESHOLD,
        !records.view().contains_key(key),
        forall|other: Seq<char>| #[trigger]
            records.view().contains_key(other) ==> !is_fresh(records.view()[other], now),
    ensures
        recorded(records, key, now) == Map::<Seq<char>, u64>::empty().insert(key, now),
        recorded(records, key, now).dom().len() == 1,
{
    let all = records.view().insert(key, now);
    assert(is_fresh(now, now));
    let alone = Map::<Seq<char>, u64>::empty().insert(key, now);
    assert(fresh_records(all, now) =~= alone);
    assert(alone.dom() =~= Set::<Seq<char>>::empty().insert(key));
}

/// A forgotten record is due at once.
pub proof fn forgotten_is_due(records: Map<Seq<char>, u64>, key: Seq<char>, now: u64)
    ensures
        is_due(records.remove(key), key, now),
{
}

/// A record is due exactly where there is none, or where the last one is a minute old.
pub proof fn records_are_due_after_a_minute(
    throttle: &mut PresenceThrottle,
    key: &str,
    now: u64,
    window: Window,
    r: bool,
)
    requires
        old(throttle).wf(),
        call_ensures(PresenceThrottle::check_window, (throttle, key, now, window), r),
    ensures
        !old(throttle).records(window).view().contains_key(key@) ==> r,
        old(throttle).records(window).view().contains_key(key@) ==> (r <==> now - old(
            throttle,
        ).records(window).view()[key@] >= 60 * 1_000_000_000),
        r ==> final(throttle).records(window).view().contains_key(key@) && final(throttle).records(
            window,
        ).view()[key@] == now,
        !r ==> final(throttle).records(window) == old(throttle).records(window),
        final(throttle).days() == old(throttle).days(),
        window is LastSeen ==> final(throttle).records(Window::ApiKeyUse) == old(throttle).records(
            Window::ApiKeyUse,
        ),
        window is ApiKeyUse ==> final(throttle).records(Window::LastSeen) == old(throttle).records(
            Window::LastSeen,
        ),
{
    assert(is_fresh(now, now));
}

/// Asked twice within a minute, a record is due once; a minute later it is due again.
pub proof fn one_record_a_minute(
    first: &mut PresenceThrottle,
    second: &mut PresenceThrottle,
    key: &str,
    now: u64,
    later: u64,
    window: Window,
    r: bool,
    s: bool,
)
    requires
        old(first).wf(),
        call_ensures(PresenceThrottle::check_window, (first, key, now, window), r),
        r,
        *old(second) == *final(first),
        now <= later,
        call_ensures(PresenceThrottle::check_window, (second, key, later, window), s),
    ensures
        s <==> later - now >= 60_000_000_000,
{
    assert(is_fresh(now, now));
}

/// Records of other keys stand as they are as long as there are not too many.
pub proof fn other_records_stand(
    throttle: &mut PresenceThrottle,
    key: &str,
    other: Seq<char>,
    now: u64,
    window: Window,
    r: bool,
)
    requires
        old(throttle).wf(),
        other != key@,
        call_ensures(PresenceThrottle::check_window, (throttle, key, now, window), r),
    ensures
        old(throttle).records(window).count() < 4096 ==> (final(throttle).records(
            window,
        ).view().contains_key(other) <==> old(throttle).records(window).view().contains_key(other)),
        final(throttle).records(window).view().contains_key(other) ==> old(throttle).records(
            window,
        ).view().contains_key(other) && final(throttle).records(window).view()[other] == old(
            throttle,
        ).records(window).view()[other],
        old(throttle).records(window).view().contains_key(other) && now - old(throttle).records(
            window,
        ).view()[other] < 60_000_000_000 ==> final(throttle).records(window).view().contains_key(
            other,
        ),
{
}

/// A user's activity is written once for each day.
pub proof fn days_are_written_once(
    first: &mut PresenceThrottle,
    second: &mut PresenceThrottle,
    user_id: &str,
    date: &str,
    other: &str,
    r: bool,
    s: bool,
)
    requires
        old(first).wf(),
        call_ensures(PresenceThrottle::should_record_activity_day, (first, user_id, date), r),
        *old(second) == *final(first),
        call_ensures(PresenceThrottle::should_record_activity_day, (second, user_id, other), s),
    ensures
        !old(first).days().view().contains_key(user_id@) ==> r,
        s <==> other@ != date@,
{
}

/// What was forgotten is written at the next occasion.
pub proof fn forgotten_sights_are_written_again(
    forgotten: &mut PresenceThrottle,
    next: &mut PresenceThrottle,
    user_id: &str,
    r: bool,
)
    requires
        old(forgotten).wf(),
        call_ensures(PresenceThrottle::forget_last_seen, (forgotten, user_id), ()),
        *old(next) == *final(forgotten),
        call_ensures(PresenceThrottle::should_record_last_seen, (next, user_id), r),
    ensures
        r,
{
}

/// What was forgotten of a key is written at its next use.
pub proof fn forgotten_uses_are_written_again(
    forgotten: &mut PresenceThrottle,
    next: &mut PresenceThrottle,
    key_hash: &str,
    r: bool,
)
    requires
        old(forgotten).wf(),
        call_ensures(PresenceThrottle::forget_api_key_use, (forgotten, key_hash), ()),
        *old(next) == *final(forgotten),
        call_ensures(PresenceThrottle::should_record_api_key_use, (next, key_hash), r),
    ensures
        r,
{
}

/// A day that was forgotten is written again; one that was not the recorded one is not forgotten.
pub proof fn forgotten_days_are_written_again(
    forgotten: &mut PresenceThrottle,
    next: &mut PresenceThrottle,
    user_id: &str,
    date: &str,
    other: &str,
    r: bool,
)
    requires
        old(forgotten).wf(),
        old(forgotten).days().view().contains_key(user_id@),
        old(forgotten).days().view()[user_id@]@ == date@,
        call_ensures(PresenceThrottle::forget_activity_day, (forgotten, user_id, other), ()),
        *old(next) == *final(forgotten),
        call_ensures(PresenceThrottle::should_record_activity_day, (next, user_id, date), r),
    ensures
        r <==> other@ == date@,
{
}

/// Forgetting one user leaves the others alone.
pub proof fn forgetting_leaves_others_alone(
    throttle: &mut PresenceThrottle,
    user_id: &str,
    other: Seq<char>,
)
    requires
        old(throttle).wf(),
        other != user_id@,
        call_ensures(PresenceThrottle::forget_last_seen, (throttle, user_id), ()),
    ensures
        final(throttle).records(Window::LastSeen).view().contains_key(other) == old(
            throttle,
        ).records(Window::LastSeen).view().contains_key(other),
        old(throttle).records(Window::LastSeen).view().contains_key(other) ==> final(throttle).records(Window::LastSeen).view()[other] == old(throttle).records(
            Window::LastSeen,
        ).view()[other],
        final(throttle).records(Window::ApiKeyUse) == old(throttle).records(Window::ApiKeyUse),
        final(throttle).days() == old(throttle).days(),
{
}

/// Once there are more than 4096 records, none of those that remain is older than a minute.
pub proof fn old_records_go_when_there_are_many(
    throttle: &mut PresenceThrottle,
    key: &str,
    other: Seq<char>,
    now: u64,
    window: Window,
    r: bool,
)
    requires
        old(throttle).wf(),
        old(throttle).records(window).count() >= 4096,
        !old(throttle).records(window).view().contains_key(key@),
        call_ensures(PresenceThrottle::check_window, (throttle, key, now, window), r),
    ensures
        r,
        final(throttle).records(window).view().contains_key(other) ==> now - final(
            throttle).records(window).view()[other] < 60_000_000_000,
{
}

/// The counts are those of the users who have a record.
pub proof fn records_are_counted(throttle: PresenceThrottle, seen: usize, days: usize)
    requires
        throttle.wf(),
        call_ensures(PresenceThrottle::last_seen_count, (&throttle,), seen),
        call_ensures(PresenceThrottle::activity_day_count, (&throttle,), days),
    ensures
        seen == throttle.records(Window::LastSeen).view().dom().len(),
        days == throttle.days().view().dom().len(),
{
    throttle.counts_are_sizes();
}

} // verus!
