//! Daily sums of the calls that are too old to be kept one by one.

use vstd::prelude::*;

use crate::text;

verus! {

/// What is stored of a call, as far as the sums need it.
#[derive(Debug, PartialEq, Eq)]
pub struct UsageRow {
    pub created_at: String,
    pub user_id: String,
    pub provider_id: Option<String>,
    pub endpoint: String,
    pub model: String,
    pub status: String,
    pub duration_ms: i64,
    pub credits_used: i64,
}

/// The sums of the calls of one day that agree in all but the time.
#[derive(Debug, PartialEq, Eq)]
pub struct DailySummary {
    pub summary_date: String,
    pub user_id: String,
    pub provider_id: String,
    pub endpoint: String,
    pub model: String,
    pub status: String,
    pub request_count: i64,
    pub total_duration_ms: i64,
    pub total_credits_used: i64,
}

/// How many calls, how long they took together, and what they cost.
pub type Totals = (int, int, int);

/// What the calls of one sum agree in.
pub type Key = (Seq<char>, Seq<char>, Seq<char>, Seq<char>, Seq<char>, Seq<char>);

/// Two totals taken together.
pub open spec fn plus(a: Totals, b: Totals) -> Totals {
    (a.0 + b.0, a.1 + b.1, a.2 + b.2)
}

/// Whether totals can be stored.
pub open spec fn fits(a: Totals) -> bool {
    &&& i64::MIN <= a.0 <= i64::MAX
    &&& i64::MIN <= a.1 <= i64::MAX
    &&& i64::MIN <= a.2 <= i64::MAX
}

impl UsageRow {
    /// The sum that a call belongs to.
    pub open spec fn key(self) -> Key {
        (
            text::shortened(self.created_at@, 10),
            self.user_id@,
            text::or_text(text::opt(self.provider_id), ""@),
            self.endpoint@,
            self.model@,
            self.status@,
        )
    }

    /// What a call adds to its sum.
    pub open spec fn totals(self) -> Totals {
        (1, self.duration_ms as int, self.credits_used as int)
    }

    /// Whether a call is too old to be kept.
    pub open spec fn is_expired(self, cutoff: Seq<char>) -> bool {
        text::precedes(self.created_at@, cutoff)
    }
}

impl DailySummary {
    /// What the calls agree in.
    pub open spec fn key(self) -> Key {
        (
            self.summary_date@,
            self.user_id@,
            self.provider_id@,
            self.endpoint@,
            self.model@,
            self.status@,
        )
    }

    /// The sums.
    pub open spec fn totals(self) -> Totals {
        (
            self.request_count as int,
            self.total_duration_ms as int,
            self.total_credits_used as int,
        )
    }
}

/// Whether no two sums are of the same calls.
pub open spec fn are_distinct(list: Seq<DailySummary>) -> bool {
    forall|i: int, j: int|
        0 <= i < j < list.len() ==> (#[trigger] list[i]).key() != (#[trigger] list[j]).key()
}

/// What the first `count` sums say of the calls that agree in `key`.
pub open spec fn summed(list: Seq<DailySummary>, key: Key, count: int) -> Totals
    decreases count,
{
    if count <= 0 {
        (0, 0, 0)
    } else if list[count - 1].key() == key {
        plus(summed(list, key, count - 1), list[count - 1].totals())
    } else {
        summed(list, key, count - 1)
    }
}

/// What the old ones among the first `count` calls add to the sum of those that agree in `key`.
pub open spec fn expired(logs: Seq<UsageRow>, cutoff: Seq<char>, key: Key, count: int) -> Totals
    decreases count,
{
    if count <= 0 {
        (0, 0, 0)
    } else if logs[count - 1].is_expired(cutoff) && logs[count - 1].key() == key {
        plus(expired(logs, cutoff, key, count - 1), logs[count - 1].totals())
    } else {
        expired(logs, cutoff, key, count - 1)
    }
}

/// What the first `count` sums say of all calls.
pub open spec fn summed_in_all(list: Seq<DailySummary>, count: int) -> Totals
    decreases count,
{
    if count <= 0 {
        (0, 0, 0)
    } else {
        plus(summed_in_all(list, count - 1), list[count - 1].totals())
    }
}

/// What the first `count` calls come to, those that are kept and those that are not.
pub open spec fn logged_in_all(logs: Seq<UsageRow>, count: int) -> Totals
    decreases count,
{
    if count <= 0 {
        (0, 0, 0)
    } else {
        plus(logged_in_all(logs, count - 1), logs[count - 1].totals())
    }
}

/// What those of the first `count` calls that agree in `key` come to, kept or not.
pub open spec fn logged(logs: Seq<UsageRow>, key: Key, count: int) -> Totals
    decreases count,
{
    if count <= 0 {
        (0, 0, 0)
    } else if logs[count - 1].key() == key {
        plus(logged(logs, key, count - 1), logs[count - 1].totals())
    } else {
        logged(logs, key, count - 1)
    }
}

/// What the old ones among the first `count` calls come to.
pub open spec fn expired_in_all(logs: Seq<UsageRow>, cutoff: Seq<char>, count: int) -> Totals
    decreases count,
{
    if count <= 0 {
        (0, 0, 0)
    } else if logs[count - 1].is_expired(cutoff) {
        plus(expired_in_all(logs, cutoff, count - 1), logs[count - 1].totals())
    } else {
        expired_in_all(logs, cutoff, count - 1)
    }
}

/// The sum of a key once the old ones among the first `count` calls are added.
pub open spec fn grown(
    list: Seq<DailySummary>,
    logs: Seq<UsageRow>,
    cutoff: Seq<char>,
    key: Key,
    count: int,
) -> Totals {
    plus(summed(list, key, list.len() as int), expired(logs, cutoff, key, count))
}

/// Whether the second list holds the sums of the first and of the old calls.
pub open spec fn are_summaries(
    before: Seq<DailySummary>,
    after: Seq<DailySummary>,
    logs: Seq<UsageRow>,
    cutoff: Seq<char>,
) -> bool {
    &&& are_distinct(after)
    &&& forall|key: Key| #[trigger]
        summed(after, key, after.len() as int) == grown(
            before,
            logs,
            cutoff,
            key,
            logs.len() as int,
        )
    &&& summed_in_all(after, after.len() as int) == plus(
        summed_in_all(before, before.len() as int),
        expired_in_all(logs, cutoff, logs.len() as int),
    )
}

/// Sums that are not of a key add nothing to it.
proof fn lemma_absent(list: Seq<DailySummary>, key: Key, count: int)
    requires
        0 <= count <= list.len(),
        forall|i: int| 0 <= i < count ==> (#[trigger] list[i]).key() != key,
    ensures
        summed(list, key, count) == (0int, 0int, 0int),
    decreases count,
{
    if count > 0 {
        lemma_absent(list, key, count - 1);
    }
}

/// The sum of a key is the one entry of it.
proof fn lemma_present(list: Seq<DailySummary>, at: int, count: int)
    requires
        0 <= at < count <= list.len(),
        are_distinct(list),
    ensures
        summed(list, list[at].key(), count) == list[at].totals(),
    decreases count,
{
    if at == count - 1 {
        lemma_absent(list, list[at].key(), count - 1);
    } else {
        lemma_present(list, at, count - 1);
        assert(list[at].key() != list[count - 1].key());
    }
}

/// Growing one sum adds to the sum of its key, to that of all calls, and to no other.
proof fn lemma_update(
    list: Seq<DailySummary>,
    at: int,
    grown_entry: DailySummary,
    gain: Totals,
    key: Key,
    count: int,
)
    requires
        0 <= count <= list.len(),
        0 <= at < list.len(),
        grown_entry.key() == list[at].key(),
        grown_entry.totals() == plus(list[at].totals(), gain),
    ensures
        summed(list.update(at, grown_entry), key, count) == if at < count && key == list[at].key() {
            plus(summed(list, key, count), gain)
        } else {
            summed(list, key, count)
        },
        summed_in_all(list.update(at, grown_entry), count) == if at < count {
            plus(summed_in_all(list, count), gain)
        } else {
            summed_in_all(list, count)
        },
    decreases count,
{
    if count > 0 {
        lemma_update(list, at, grown_entry, gain, key, count - 1);
    }
}

/// A further sum leaves those before it as they are.
proof fn lemma_push(list: Seq<DailySummary>, new: DailySummary, key: Key, count: int)
    requires
        0 <= count <= list.len(),
    ensures
        summed(list.push(new), key, count) == summed(list, key, count),
        summed_in_all(list.push(new), count) == summed_in_all(list, count),
    decreases count,
{
    if count > 0 {
        lemma_push(list, new, key, count - 1);
    }
}

/// The place of the sum that a call belongs to, if it is there.
fn find_summary(list: &[DailySummary], date: &str, row: &UsageRow) -> (r: Option<usize>)
    requires
        date@ == text::shortened(row.created_at@, 10),
    ensures
        match r {
            Some(at) => at < list@.len() && list@[at as int].key() == row.key(),
            None => forall|i: int| 0 <= i < list@.len() ==> (#[trigger] list@[i]).key() != row.key(),
        },
{
    let provider = match &row.provider_id {
        Some(given) => given.as_str(),
        None => "",
    };
    let mut i: usize = 0;
    while i < list.len()
        invariant
            i <= list@.len(),
            date@ == text::shortened(row.created_at@, 10),
            provider@ == text::or_text(text::opt(row.provider_id), ""@),
            forall|j: int| 0 <= j < i ==> (#[trigger] list@[j]).key() != row.key(),
        decreases list@.len() - i,
    {
        let entry = &list[i];
        if text::same(entry.summary_date.as_str(), date) && text::same(
            entry.user_id.as_str(),
            row.user_id.as_str(),
        ) && text::same(entry.provider_id.as_str(), provider) && text::same(
            entry.endpoint.as_str(),
            row.endpoint.as_str(),
        ) && text::same(entry.model.as_str(), row.model.as_str()) && text::same(
            entry.status.as_str(),
            row.status.as_str(),
        ) {
            return Some(i);
        }
        i += 1;
    }
    None
}

/// A sum with a call added, where it can be stored.
fn add_call(entry: &DailySummary, row: &UsageRow) -> (r: Option<DailySummary>)
    ensures
        r is Some <==> fits(plus(entry.totals(), row.totals())),
        r matches Some(sum) ==> sum.key() == entry.key() && sum.totals() == plus(
            entry.totals(),
            row.totals(),
        ),
{
    let request_count: i64 = match entry.request_count.checked_add(1) {
        Some(sum) => sum,
        None => {
            return None;
        },
    };
    let total_duration_ms: i64 = match entry.total_duration_ms.checked_add(row.duration_ms) {
        Some(sum) => sum,
        None => {
            return None;
        },
    };
    let total_credits_used: i64 = match entry.total_credits_used.checked_add(row.credits_used) {
        Some(sum) => sum,
        None => {
            return None;
        },
    };
    Some(
        DailySummary {
            summary_date: entry.summary_date.clone(),
            user_id: entry.user_id.clone(),
            provider_id: entry.provider_id.clone(),
            endpoint: entry.endpoint.clone(),
            model: entry.model.clone(),
            status: entry.status.clone(),
            request_count,
            total_duration_ms,
            total_credits_used,
        },
    )
}

/// The sum of a single call.
fn first_call(date: String, row: &UsageRow) -> (r: DailySummary)
    requires
        date@ == text::shortened(row.created_at@, 10),
    ensures
        r.key() == row.key(),
        r.totals() == row.totals(),
{
    let provider_id = match &row.provider_id {
        Some(given) => given.clone(),
        None => "".to_owned(),
    };
    DailySummary {
        summary_date: date,
        user_id: row.user_id.clone(),
        provider_id,
        endpoint: row.endpoint.clone(),
        model: row.model.clone(),
        status: row.status.clone(),
        request_count: 1,
        total_duration_ms: row.duration_ms,
        total_credits_used: row.credits_used,
    }
}

/// Adds the calls from before the cutoff to the daily sums; nothing where a sum grows too large
/// to be stored on the way.
pub fn summarize_usage(before: Vec<DailySummary>, logs: &[UsageRow], cutoff: &str) -> (r: Option<
    Vec<DailySummary>,
>)
    requires
        are_distinct(before@),
    ensures
        r is Some <==> forall|key: Key, count: int|
            0 <= count <= logs@.len() ==> fits(#[trigger] grown(before@, logs@, cutoff@, key, count)),
        r matches Some(after) ==> are_summaries(before@, after@, logs@, cutoff@),
{
    let ghost old_list = before@;
    let mut list = before;
    let mut i: usize = 0;
    proof {
        assert forall|key: Key, count: int| 0 <= count <= 0 implies fits(
            #[trigger] grown(old_list, logs@, cutoff@, key, count),
        ) by {
            lemma_sums_fit(old_list, key);
        }
    }
    while i < logs.len()
        invariant
            i <= logs@.len(),
            old_list == before@,
            are_distinct(list@),
            forall|key: Key, count: int|
                0 <= count <= i ==> fits(#[trigger] grown(old_list, logs@, cutoff@, key, count)),
            forall|key: Key| #[trigger]
                summed(list@, key, list@.len() as int) == grown(
                    old_list,
                    logs@,
                    cutoff@,
                    key,
                    i as int,
                ),
            summed_in_all(list@, list@.len() as int) == plus(
                summed_in_all(old_list, old_list.len() as int),
                expired_in_all(logs@, cutoff@, i as int),
            ),
        decreases logs@.len() - i,
    {
        let row = &logs[i];
        let ghost held = list@;
        let ghost n = held.len() as int;
        if text::before(row.created_at.as_str(), cutoff) {
            let date = text::take(row.created_at.as_str(), 10);
            match find_summary(&list, date.as_str(), row) {
                Some(at) => {
                    proof {
                        lemma_present(held, at as int, n);
                        assert(summed(held, row.key(), n) == held[at as int].totals());
                        assert(grown(old_list, logs@, cutoff@, row.key(), i + 1) == plus(
                            held[at as int].totals(),
                            row.totals(),
                        ));
                    }
                    match add_call(&list[at], row) {
                        Some(sum) => {
                            let ghost entry = sum;
                            list.set(at, sum);
                            proof {
                                assert(list@ == held.update(at as int, entry));
                                assert forall|key: Key| #[trigger]
                                    summed(list@, key, list@.len() as int) == grown(
                                        old_list,
                                        logs@,
                                        cutoff@,
                                        key,
                                        i + 1,
                                    ) by {
                                    lemma_update(held, at as int, entry, row.totals(), key, n);
                                    assert(summed(held, key, n) == grown(
                                        old_list,
                                        logs@,
                                        cutoff@,
                                        key,
                                        i as int,
                                    ));
                                }
                                lemma_update(held, at as int, entry, row.totals(), row.key(), n);
                                assert forall|a: int, b: int|
                                    0 <= a < b < list@.len() implies (#[trigger] list@[a]).key()
                                    != (#[trigger] list@[b]).key() by {
                                    assert(held[a].key() != held[b].key());
                                }
                            }
                        },
                        None => {
                            return None;
                        },
                    }
                },
                None => {
                    let sum = first_call(date, row);
                    let ghost entry = sum;
                    list.push(sum);
                    proof {
                        assert(list@ == held.push(entry));
                        assert forall|key: Key| #[trigger]
                            summed(list@, key, list@.len() as int) == grown(
                                old_list,
                                logs@,
                                cutoff@,
                                key,
                                i + 1,
                            ) by {
                            lemma_push(held, entry, key, n);
                            assert(summed(held, key, n) == grown(
                                old_list,
                                logs@,
                                cutoff@,
                                key,
                                i as int,
                            ));
                        }
                        lemma_push(held, entry, row.key(), n);
                    }
                },
            }
        } else {
            proof {
                assert forall|key: Key| #[trigger]
                    summed(list@, key, list@.len() as int) == grown(
                        old_list,
                        logs@,
                        cutoff@,
                        key,
                        i + 1,
                    ) by {
                    assert(summed(held, key, n) == grown(old_list, logs@, cutoff@, key, i as int));
                }
            }
        }
        proof {
            assert forall|key: Key, count: int| 0 <= count <= i + 1 implies fits(
                #[trigger] grown(old_list, logs@, cutoff@, key, count),
            ) by {
                if count == i + 1 {
                    lemma_sums_fit(list@, key);
                    assert(summed(list@, key, list@.len() as int) == grown(
                        old_list,
                        logs@,
                        cutoff@,
                        key,
                        i + 1,
                    ));
                }
            }
        }
        i += 1;
    }
    Some(list)
}

/// What the sums say of a key can be stored.
proof fn lemma_sums_fit(list: Seq<DailySummary>, key: Key)
    requires
        are_distinct(list),
    ensures
        fits(summed(list, key, list.len() as int)),
{
    if exists|i: int| 0 <= i < list.len() && (#[trigger] list[i]).key() == key {
        let i = choose|i: int| 0 <= i < list.len() && (#[trigger] list[i]).key() == key;
        lemma_present(list, i, list.len() as int);
    } else {
        lemma_absent(list, key, list.len() as int);
    }
}

/// The calls that are kept one by one.
pub open spec fn kept(logs: Seq<UsageRow>, cutoff: Seq<char>, count: int) -> Seq<UsageRow>
    decreases count,
{
    if count <= 0 {
        Seq::empty()
    } else if logs[count - 1].is_expired(cutoff) {
        kept(logs, cutoff, count - 1)
    } else {
        kept(logs, cutoff, count - 1).push(logs[count - 1])
    }
}

/// Upkeep loses no call: before and after it, the sums and the calls that are kept one by one
/// come to the same number of calls, the same time and the same credits, for each day, user,
/// provider, endpoint, model and status, and in all.
pub proof fn upkeep_keeps_the_totals(
    before: Seq<DailySummary>,
    after: Seq<DailySummary>,
    logs: Seq<UsageRow>,
    cutoff: Seq<char>,
)
    requires
        are_summaries(before, after, logs, cutoff),
    ensures
        ({
            let rest = kept(logs, cutoff, logs.len() as int);
            &&& forall|key: Key| #[trigger]
                plus(
                    summed(after, key, after.len() as int),
                    logged(rest, key, rest.len() as int),
                ) == plus(
                    summed(before, key, before.len() as int),
                    logged(logs, key, logs.len() as int),
                )
            &&& plus(
                summed_in_all(after, after.len() as int),
                logged_in_all(rest, rest.len() as int),
            ) == plus(
                summed_in_all(before, before.len() as int),
                logged_in_all(logs, logs.len() as int),
            )
        }),
{
    let rest = kept(logs, cutoff, logs.len() as int);
    lemma_kept(logs, cutoff, logs.len() as int);
    assert forall|key: Key| #[trigger]
        plus(summed(after, key, after.len() as int), logged(rest, key, rest.len() as int)) == plus(
            summed(before, key, before.len() as int),
            logged(logs, key, logs.len() as int),
        ) by {
        lemma_kept_of(logs, cutoff, key, logs.len() as int);
    }
}

/// Of each key, the old calls and those that are kept come to all of them.
proof fn lemma_kept_of(logs: Seq<UsageRow>, cutoff: Seq<char>, key: Key, count: int)
    requires
        0 <= count <= logs.len(),
    ensures
        plus(
            expired(logs, cutoff, key, count),
            logged(kept(logs, cutoff, count), key, kept(logs, cutoff, count).len() as int),
        ) == logged(logs, key, count),
    decreases count,
{
    if count > 0 {
        lemma_kept_of(logs, cutoff, key, count - 1);
        let earlier = kept(logs, cutoff, count - 1);
        if !logs[count - 1].is_expired(cutoff) {
            lemma_logged_of_push(earlier, logs[count - 1], key, earlier.len() as int);
        }
    }
}

/// A further call leaves what those before it come to for a key as it is.
proof fn lemma_logged_of_push(list: Seq<UsageRow>, new: UsageRow, key: Key, count: int)
    requires
        0 <= count <= list.len(),
    ensures
        logged(list.push(new), key, count) == logged(list, key, count),
    decreases count,
{
    if count > 0 {
        lemma_logged_of_push(list, new, key, count - 1);
    }
}

/// The old calls and those that are kept come to all of them.
proof fn lemma_kept(logs: Seq<UsageRow>, cutoff: Seq<char>, count: int)
    requires
        0 <= count <= logs.len(),
    ensures
        plus(
            expired_in_all(logs, cutoff, count),
            logged_in_all(kept(logs, cutoff, count), kept(logs, cutoff, count).len() as int),
        ) == logged_in_all(logs, count),
    decreases count,
{
    if count > 0 {
        lemma_kept(logs, cutoff, count - 1);
        let earlier = kept(logs, cutoff, count - 1);
        if !logs[count - 1].is_expired(cutoff) {
            lemma_logged_push(earlier, logs[count - 1], earlier.len() as int);
        }
    }
}

/// A further call leaves what those before it come to as it is.
proof fn lemma_logged_push(list: Seq<UsageRow>, new: UsageRow, count: int)
    requires
        0 <= count <= list.len(),
    ensures
        logged_in_all(list.push(new), count) == logged_in_all(list, count),
    decreases count,
{
    if count > 0 {
        lemma_logged_push(list, new, count - 1);
    }
}

/// A call counts as one, with the time that it took and what it cost, among the calls of its day,
/// user, provider, endpoint, model and outcome.
pub proof fn calls_count_as_one(row: UsageRow)
    ensures
        row.totals() == (1int, row.duration_ms as int, row.credits_used as int),
        row.created_at@.len() >= 10 ==> row.key().0 == row.created_at@.take(10),
        row.key().1 == row.user_id@,
        row.provider_id is Some ==> row.key().2 == row.provider_id->0@,
        row.provider_id is None ==> row.key().2.len() == 0,
        row.key().3 == row.endpoint@,
        row.key().4 == row.model@,
        row.key().5 == row.status@,
{
    reveal_strlit("");
    if row.created_at@.len() >= 10 {
        assert(text::shortened(row.created_at@, 10) =~= row.created_at@.take(10));
    }
}

/// Whether a sum is of the calls of one day, user, provider, endpoint, model and outcome that
/// another call belongs to.
pub open spec fn counts(sum: DailySummary, row: UsageRow) -> bool {
    &&& sum.summary_date@ == (if row.created_at@.len() < 10 {
        row.created_at@
    } else {
        row.created_at@.take(10)
    })
    &&& sum.user_id@ == row.user_id@
    &&& row.provider_id is Some ==> sum.provider_id@ == row.provider_id->0@
    &&& row.provider_id is None ==> sum.provider_id@.len() == 0
    &&& sum.endpoint@ == row.endpoint@
    &&& sum.model@ == row.model@
    &&& sum.status@ == row.status@
}

proof fn lemma_counts(sum: DailySummary, row: UsageRow)
    ensures
        counts(sum, row) == (sum.key() == row.key()),
{
    reveal_strlit("");
    assert(text::shortened(row.created_at@, 10) =~= if row.created_at@.len() < 10 {
        row.created_at@
    } else {
        row.created_at@.take(10)
    });
    if sum.provider_id@.len() == 0 {
        assert(sum.provider_id@ =~= ""@);
    }
}

/// One old call adds itself to the sum that counts it: one call, its time and its cost. It leaves
/// every other sum alone, and so does a call that is not old.
pub proof fn one_old_call_adds_itself(
    before: Vec<DailySummary>,
    logs: &[UsageRow],
    cutoff: &str,
    at: int,
    i: int,
    r: Option<Vec<DailySummary>>,
)
    requires
        are_distinct(before@),
        logs@.len() == 1,
        call_ensures(summarize_usage, (before, logs, cutoff), r),
        r is Some,
        0 <= i < r->0@.len(),
        0 <= at < before@.len(),
        before@[at].key() == r->0@[i].key(),
    ensures
        ({
            let row = logs@[0];
            let old_sum = before@[at];
            let new_sum = r->0@[i];
            if text::precedes(row.created_at@, cutoff@) && counts(old_sum, row) {
                &&& new_sum.request_count == old_sum.request_count + 1
                &&& new_sum.total_duration_ms == old_sum.total_duration_ms + row.duration_ms
                &&& new_sum.total_credits_used == old_sum.total_credits_used + row.credits_used
            } else {
                &&& new_sum.request_count == old_sum.request_count
                &&& new_sum.total_duration_ms == old_sum.total_duration_ms
                &&& new_sum.total_credits_used == old_sum.total_credits_used
            }
        }),
{
    let after = r->0@;
    let key = after[i].key();
    lemma_present(after, i, after.len() as int);
    lemma_present(before@, at, before@.len() as int);
    lemma_counts(before@[at], logs@[0]);
    reveal_with_fuel(expired, 2);
    assert(summed(after, key, after.len() as int) == grown(before@, logs@, cutoff@, key, 1));
}

/// An old call that no sum counts yet becomes a sum of its own.
pub proof fn first_old_calls_become_sums(
    before: Vec<DailySummary>,
    logs: &[UsageRow],
    cutoff: &str,
    r: Option<Vec<DailySummary>>,
)
    requires
        are_distinct(before@),
        logs@.len() == 1,
        text::precedes(logs@[0].created_at@, cutoff@),
        forall|j: int| 0 <= j < before@.len() ==> !counts(#[trigger] before@[j], logs@[0]),
        call_ensures(summarize_usage, (before, logs, cutoff), r),
    ensures
        r is Some,
        exists|i: int|
            {
                &&& 0 <= i < r->0@.len()
                &&& counts(#[trigger] r->0@[i], logs@[0])
                &&& r->0@[i].request_count == 1
                &&& r->0@[i].total_duration_ms == logs@[0].duration_ms
                &&& r->0@[i].total_credits_used == logs@[0].credits_used
            },
{
    let row = logs@[0];
    let key = row.key();
    assert forall|j: int| 0 <= j < before@.len() implies (#[trigger] before@[j]).key() != key by {
        lemma_counts(before@[j], row);
    }
    lemma_absent(before@, key, before@.len() as int);
    reveal_with_fuel(expired, 2);
    assert forall|k: Key, count: int| 0 <= count <= logs@.len() implies fits(
        #[trigger] grown(before@, logs@, cutoff@, k, count),
    ) by {
        lemma_sums_fit(before@, k);
    }
    let after = r->0@;
    assert(summed(after, key, after.len() as int) == grown(before@, logs@, cutoff@, key, 1));
    if forall|i: int| 0 <= i < after.len() ==> (#[trigger] after[i]).key() != key {
        lemma_absent(after, key, after.len() as int);
    }
    let i = choose|i: int| 0 <= i < after.len() && (#[trigger] after[i]).key() == key;
    lemma_present(after, i, after.len() as int);
    lemma_counts(after[i], row);
    assert(counts(after[i], row));
}

/// Adding old calls in two goes comes to the same sums as adding them at once.
pub proof fn sums_can_be_made_in_two_goes(
    before: Vec<DailySummary>,
    first: &[UsageRow],
    rest: &[UsageRow],
    all: &[UsageRow],
    cutoff: &str,
    once: Option<Vec<DailySummary>>,
    halfway: Option<Vec<DailySummary>>,
    twice: Option<Vec<DailySummary>>,
    key: Key,
)
    requires
        are_distinct(before@),
        all@ == first@ + rest@,
        call_ensures(summarize_usage, (before, all, cutoff), once),
        call_ensures(summarize_usage, (before, first, cutoff), halfway),
        halfway is Some,
        call_ensures(summarize_usage, (halfway->0, rest, cutoff), twice),
        once is Some,
        twice is Some,
    ensures
        summed(once->0@, key, once->0@.len() as int) == summed(
            twice->0@,
            key,
            twice->0@.len() as int,
        ),
{
    lemma_expired_in_parts(first@, rest@, cutoff@, key, rest@.len() as int);
    assert(summed(once->0@, key, once->0@.len() as int) == grown(
        before@,
        all@,
        cutoff@,
        key,
        all@.len() as int,
    ));
    assert(summed(halfway->0@, key, halfway->0@.len() as int) == grown(
        before@,
        first@,
        cutoff@,
        key,
        first@.len() as int,
    ));
    assert(summed(twice->0@, key, twice->0@.len() as int) == grown(
        halfway->0@,
        rest@,
        cutoff@,
        key,
        rest@.len() as int,
    ));
}

proof fn lemma_expired_in_parts(
    first: Seq<UsageRow>,
    rest: Seq<UsageRow>,
    cutoff: Seq<char>,
    key: Key,
    count: int,
)
    requires
        0 <= count <= rest.len(),
    ensures
        expired(first + rest, cutoff, key, first.len() + count) == plus(
            expired(first, cutoff, key, first.len() as int),
            expired(rest, cutoff, key, count),
        ),
    decreases count,
{
    if count > 0 {
        lemma_expired_in_parts(first, rest, cutoff, key, count - 1);
        assert((first + rest)[first.len() + count - 1] == rest[count - 1]);
    } else {
        lemma_expired_prefix(first, rest, cutoff, key, first.len() as int);
    }
}

proof fn lemma_expired_prefix(
    first: Seq<UsageRow>,
    rest: Seq<UsageRow>,
    cutoff: Seq<char>,
    key: Key,
    count: int,
)
    requires
        0 <= count <= first.len(),
    ensures
        expired(first + rest, cutoff, key, count) == expired(first, cutoff, key, count),
    decreases count,
{
    if count > 0 {
        lemma_expired_prefix(first, rest, cutoff, key, count - 1);
        assert((first + rest)[count - 1] == first[count - 1]);
    }
}

/// One call can be added wherever the sum that counts it, if there is one, can hold it.
pub proof fn sums_that_fit_are_stored(
    before: Vec<DailySummary>,
    logs: &[UsageRow],
    cutoff: &str,
    r: Option<Vec<DailySummary>>,
)
    requires
        are_distinct(before@),
        logs@.len() == 1,
        call_ensures(summarize_usage, (before, logs, cutoff), r),
        forall|j: int|
            0 <= j < before@.len() && counts(#[trigger] before@[j], logs@[0]) ==> {
                &&& before@[j].request_count < i64::MAX
                &&& i64::MIN <= before@[j].total_duration_ms + logs@[0].duration_ms <= i64::MAX
                &&& i64::MIN <= before@[j].total_credits_used + logs@[0].credits_used <= i64::MAX
            },
    ensures
        r is Some,
{
    reveal_with_fuel(expired, 2);
    assert forall|key: Key, count: int| 0 <= count <= logs@.len() implies fits(
        #[trigger] grown(before@, logs@, cutoff@, key, count),
    ) by {
        lemma_sums_fit(before@, key);
        if key == logs@[0].key() {
            if exists|j: int| 0 <= j < before@.len() && (#[trigger] before@[j]).key() == key {
                let j = choose|j: int| 0 <= j < before@.len() && (#[trigger] before@[j]).key() == key;
                lemma_present(before@, j, before@.len() as int);
                lemma_counts(before@[j], logs@[0]);
            } else {
                lemma_absent(before@, key, before@.len() as int);
            }
        }
    }
}

} // verus!
