//! Credits: what a user may spend, what is set aside, and how it is settled.

use vstd::prelude::*;

use crate::clock;
use crate::clock::Moment;
use crate::images::RequestMetadata;
use crate::model;
use crate::model::{refuse, AppResult, CONFLICT, FORBIDDEN, MODEL, TOO_MANY_REQUESTS};
use crate::text;
use crate::token;

verus! {

/// A user's credits: all of them, those set aside for running work, and the daily call limit.
#[derive(Clone, Copy, Debug, PartialEq, Eq, Structural)]
pub struct Account {
    pub credits: i64,
    pub reserved: i64,
    pub daily_limit: i64,
}

impl Account {
    /// What every operation keeps: what is set aside is covered by what is there.
    pub open spec fn covered(self) -> bool {
        0 <= self.reserved <= self.credits
    }

    /// Why credits cannot be set aside, if they cannot.
    pub open spec fn reserve_refusal(self, today_calls: i64, amount: i64) -> Option<
        (u16, Seq<char>),
    > {
        if today_calls + amount > self.daily_limit {
            Some((TOO_MANY_REQUESTS, "今日调用次数已达上限"@))
        } else if self.credits - self.reserved < amount {
            Some((FORBIDDEN, "积分不足"@))
        } else {
            None
        }
    }

    /// The account after `amount` more credits were set aside.
    pub open spec fn with_reserved(self, amount: int) -> Account {
        Account { reserved: (self.reserved + amount) as i64, ..self }
    }

    /// The account after `amount` reserved credits were given back.
    pub open spec fn with_released(self, amount: int) -> Account {
        Account {
            reserved: if self.reserved - amount > 0 {
                (self.reserved - amount) as i64
            } else {
                0
            },
            ..self
        }
    }

    /// Whether the account still holds what a success is to take from it.
    pub open spec fn can_settle(self, used: int, amount: int) -> bool {
        self.credits >= used && self.reserved >= amount
    }

    /// The account after `used` credits were spent out of `amount` reserved ones.
    pub open spec fn with_spent(self, used: int, amount: int) -> Account {
        Account {
            credits: (self.credits - used) as i64,
            reserved: (self.reserved - amount) as i64,
            ..self
        }
    }

    /// Sets `amount` credits aside, where today's calls and the free credits allow it.
    pub fn reserve(&mut self, today_calls: i64, amount: i64) -> (r: AppResult<()>)
        requires
            amount >= 0,
        ensures
            model::answers(r, old(self).reserve_refusal(today_calls, amount)),
            r is Ok ==> *final(self) == old(self).with_reserved(amount as int),
            r is Ok ==> final(self).reserved == old(self).reserved + amount,
            r is Err ==> *final(self) == *old(self),
    {
        if today_calls as i128 + amount as i128 > self.daily_limit as i128 {
            return refuse(TOO_MANY_REQUESTS, "今日调用次数已达上限");
        }
        if (self.credits as i128 - self.reserved as i128) < amount as i128 {
            return refuse(FORBIDDEN, "积分不足");
        }
        self.reserved = self.reserved + amount;
        Ok(())
    }

    /// Gives `amount` reserved credits back; never below none.
    pub fn release(&mut self, amount: i64)
        requires
            amount >= 0,
        ensures
            *final(self) == old(self).with_released(amount as int),
    {
        let rest: i128 = self.reserved as i128 - amount as i128;
        self.reserved = if rest > 0 {
            rest as i64
        } else {
            0
        };
    }

    /// Spends `used` credits out of `amount` reserved ones, where the account holds both.
    pub fn spend(&mut self, used: i64, amount: i64) -> (r: AppResult<()>)
        requires
            used >= 0,
            amount >= 0,
        ensures
            if old(self).can_settle(used as int, amount as int) {
                r is Ok && *final(self) == old(self).with_spent(used as int, amount as int)
            } else {
                model::refused(r, CONFLICT, "积分结算状态冲突"@) && *final(self) == *old(self)
            },
            r is Ok ==> final(self).credits == old(self).credits - used,
    {
        if self.credits >= used && self.reserved >= amount {
            self.credits = self.credits - used;
            self.reserved = self.reserved - amount;
            Ok(())
        } else {
            refuse(CONFLICT, "积分结算状态冲突")
        }
    }
}

/// What a usage log keeps of one call.
#[derive(Debug, PartialEq, Eq)]
pub struct UsageLog {
    pub id: String,
    pub user_id: String,
    pub provider_id: Option<String>,
    pub endpoint: String,
    pub model: String,
    pub status: String,
    pub duration_ms: i64,
    pub credits_used: i64,
    pub ip_address: String,
    pub device_id: String,
    pub platform: String,
    pub app_version: String,
    pub user_agent: String,
    pub prompt: String,
    pub error: String,
    pub created_at: String,
}

/// A change of a task's row. `image_id` is `None` where the row keeps its own.
#[derive(Debug, PartialEq, Eq)]
pub struct TaskUpdate {
    pub id: String,
    pub user_id: String,
    pub status: String,
    pub image_id: Option<String>,
    pub error: Option<String>,
    pub credits_used: i64,
    pub updated_at: String,
}

/// A line of the credit ledger.
#[derive(Debug, PartialEq, Eq)]
pub struct LedgerEntry {
    pub id: String,
    pub user_id: String,
    pub delta: i64,
    pub balance_after: i64,
    pub reason: String,
    pub reference_id: String,
    pub operator_user_id: Option<String>,
    pub created_at: String,
}

/// What is written when a call has failed.
#[derive(Debug, PartialEq, Eq)]
pub struct FailureRecords {
    pub log: UsageLog,
    pub task: Option<TaskUpdate>,
}

/// Who made a call, through which provider, and from where.
#[derive(Debug)]
pub struct CallContext<'a> {
    pub user_id: &'a str,
    pub provider_id: Option<&'a str>,
    pub metadata: &'a RequestMetadata,
    pub endpoint: &'a str,
    pub duration_ms: i64,
    pub task_id: Option<&'a str>,
    pub prompt: &'a str,
}

/// Whether a log names the call's user, provider, endpoint, duration, origin and prompt.
pub open spec fn logs_call(log: UsageLog, call: CallContext<'_>) -> bool {
    &&& log.user_id@ == call.user_id@
    &&& text::opt(log.provider_id) == text::opt_str(call.provider_id)
    &&& log.endpoint@ == call.endpoint@
    &&& log.model@ == MODEL@
    &&& log.duration_ms == call.duration_ms
    &&& log.ip_address@ == call.metadata.ip_address@
    &&& log.device_id@ == call.metadata.device_id@
    &&& log.platform@ == call.metadata.platform@
    &&& log.app_version@ == call.metadata.app_version@
    &&& log.user_agent@ == call.metadata.user_agent@
    &&& log.prompt@ == call.prompt@
}

/// Whether the records are those of a failed call with this message, written at this time.
pub open spec fn records_failure(
    records: FailureRecords,
    call: CallContext<'_>,
    message: Seq<char>,
    created_at: Seq<char>,
) -> bool {
    &&& logs_call(records.log, call)
    &&& records.log.status@ == "error"@
    &&& records.log.credits_used == 0
    &&& records.log.error@ == message
    &&& records.log.created_at@ == created_at
    &&& match call.task_id {
        Some(id) => {
            &&& records.task matches Some(task)
            &&& task.id@ == id@
            &&& task.user_id@ == call.user_id@
            &&& task.status@ == "error"@
            &&& task.image_id is None
            &&& text::opt(task.error) == Some(message)
            &&& task.credits_used == 0
            &&& task.updated_at@ == created_at
        },
        None => records.task is None,
    }
}

/// The log of a call with its outcome.
pub fn call_log(
    call: &CallContext<'_>,
    id: String,
    status: &str,
    credits_used: i64,
    error: &str,
    created_at: &str,
) -> (r: UsageLog)
    ensures
        logs_call(r, *call),
        r.id == id,
        r.status@ == status@,
        r.credits_used == credits_used,
        r.error@ == error@,
        r.created_at@ == created_at@,
{
    UsageLog {
        id,
        user_id: call.user_id.to_owned(),
        provider_id: text::owned(call.provider_id),
        endpoint: call.endpoint.to_owned(),
        model: MODEL.to_owned(),
        status: status.to_owned(),
        duration_ms: call.duration_ms,
        credits_used,
        ip_address: call.metadata.ip_address.clone(),
        device_id: call.metadata.device_id.clone(),
        platform: call.metadata.platform.clone(),
        app_version: call.metadata.app_version.clone(),
        user_agent: call.metadata.user_agent.clone(),
        prompt: call.prompt.to_owned(),
        error: error.to_owned(),
        created_at: created_at.to_owned(),
    }
}

/// Whether the records are those of a call that failed at a moment of the calendar.
pub open spec fn failed_at(
    records: FailureRecords,
    call: CallContext<'_>,
    message: Seq<char>,
    now: Moment,
) -> bool {
    &&& now.representable()
    &&& records_failure(
        records,
        call,
        message,
        clock::rfc3339_text(now.secs as int, now.nanos as int),
    )
}

/// What is written when a call has failed: a log, and the end of its task if it had one.
pub fn failure_records(call: &CallContext<'_>, message: &str, log_token: &str, now: Moment) -> (r:
    FailureRecords)
    requires
        now.representable(),
    ensures
        r.log.id@ == "log-"@ + log_token@,
        records_failure(
            r,
            *call,
            message@,
            clock::rfc3339_text(now.secs as int, now.nanos as int),
        ),
{
    let created_at = clock::rfc3339(now);
    let log = call_log(
        call,
        token::identifier("log-", log_token),
        "error",
        0,
        message,
        created_at.as_str(),
    );
    let task = match call.task_id {
        Some(id) => Some(
            TaskUpdate {
                id: id.to_owned(),
                user_id: call.user_id.to_owned(),
                status: "error".to_owned(),
                image_id: None,
                error: Some(message.to_owned()),
                credits_used: 0,
                updated_at: created_at,
            },
        ),
        None => None,
    };
    FailureRecords { log, task }
}

/// Ends a failed call: gives its reserved credits back, and writes down what happened.
pub fn settle_failure(
    account: &mut Account,
    call: &CallContext<'_>,
    reserved: i64,
    message: &str,
) -> (r: FailureRecords)
    requires
        reserved >= 0,
    ensures
        *final(account) == old(account).with_released(reserved as int),
        token::is_identifier(r.log.id@, "log-"@),
        exists|now: Moment| #[trigger] failed_at(r, *call, message@, now),
{
    account.release(reserved);
    let log_token = token::unique_token();
    let now = clock::utc_now();
    let r = failure_records(call, message, log_token.as_str(), now);
    assert(r.log.id@.skip("log-"@.len() as int) == log_token@);
    assert(failed_at(r, *call, message@, now));
    r
}

/// Sets credits aside for a user whose calls of the day were counted.
pub fn reserve_credits(account: &mut Account, today_calls: i64, amount: i64) -> (r: AppResult<()>)
    requires
        amount >= 0,
    ensures
        model::answers(r, old(account).reserve_refusal(today_calls, amount)),
        r is Ok ==> *final(account) == old(account).with_reserved(amount as int),
        r is Err ==> *final(account) == *old(account),
{
    account.reserve(today_calls, amount)
}

/// What the metrics count of one call.
#[derive(Debug, PartialEq, Eq)]
pub struct GenerationMetrics {
    pub endpoint: String,
    pub status: &'static str,
    pub duration_ms: u64,
    pub credits: Option<u64>,
}

/// What the metrics count of one call: its duration, never negative, and the credits it used, if
/// it used any.
pub fn record_generation_metrics(
    endpoint: &str,
    status: &'static str,
    duration_ms: i64,
    credits: i64,
) -> (r: GenerationMetrics)
    ensures
        r.endpoint@ == endpoint@,
        r.status@ == status@,
        r.duration_ms == if duration_ms > 0 {
            duration_ms as int
        } else {
            0
        },
        r.credits is Some <==> credits > 0,
        r.credits is Some ==> r.credits->0 == credits,
{
    GenerationMetrics {
        endpoint: endpoint.to_owned(),
        status,
        duration_ms: if duration_ms > 0 {
            duration_ms as u64
        } else {
            0
        },
        credits: if credits > 0 {
            Some(credits as u64)
        } else {
            None
        },
    }
}

impl Account {
    /// The account after a series of attempts to set credits aside, each of which is granted or
    /// refused on the state that the one before it left.
    pub open spec fn after_attempts(self, attempts: Seq<(i64, i64)>) -> Account
        decreases attempts.len(),
    {
        if attempts.len() == 0 {
            self
        } else {
            let before = self.after_attempts(attempts.drop_last());
            let (today_calls, amount) = attempts.last();
            if before.reserve_refusal(today_calls, amount) is None {
                before.with_reserved(amount as int)
            } else {
                before
            }
        }
    }
}

/// Setting aside, giving back and spending keep what is set aside covered.
pub proof fn operations_keep_accounts_covered(
    account: Account,
    today_calls: i64,
    amount: i64,
    used: int,
)
    requires
        account.covered(),
        amount >= 0,
        0 <= used <= amount,
    ensures
        account.reserve_refusal(today_calls, amount) is None ==> account.with_reserved(
            amount as int,
        ).covered(),
        account.with_released(amount as int).covered(),
        account.can_settle(used, amount as int) ==> account.with_spent(
            used,
            amount as int,
        ).covered(),
{
}

/// However often credits are set aside, never more is set aside than is there.
pub proof fn reservations_never_overdraw(account: Account, attempts: Seq<(i64, i64)>)
    requires
        account.covered(),
        forall|i: int| 0 <= i < attempts.len() ==> (#[trigger] attempts[i]).1 >= 0,
    ensures
        account.after_attempts(attempts).covered(),
        account.after_attempts(attempts).credits == account.credits,
        account.after_attempts(attempts).reserved >= account.reserved,
    decreases attempts.len(),
{
    if attempts.len() > 0 {
        let earlier = attempts.drop_last();
        assert(forall|i: int| 0 <= i < earlier.len() ==> earlier[i] == attempts[i]);
        reservations_never_overdraw(account, earlier);
        assert(attempts.last() == attempts[attempts.len() - 1]);
    }
}

/// A failed call leaves the account as it was before its credits were set aside.
pub proof fn failure_restores_the_account(account: Account, today_calls: i64, amount: i64)
    requires
        account.covered(),
        amount >= 0,
        account.reserve_refusal(today_calls, amount) is None,
    ensures
        account.with_reserved(amount as int).with_released(amount as int) == account,
{
}

/// A call whose credits were set aside can always be settled, costs exactly what it used, and
/// leaves nothing set aside.
pub proof fn success_costs_what_it_used(account: Account, today_calls: i64, amount: i64, used: int)
    requires
        account.covered(),
        amount >= 0,
        0 <= used <= amount,
        account.reserve_refusal(today_calls, amount) is None,
    ensures
        account.with_reserved(amount as int).can_settle(used, amount as int),
        account.with_reserved(amount as int).with_spent(used, amount as int).credits
            == account.credits - used,
        account.with_reserved(amount as int).with_spent(used, amount as int).reserved
            == account.reserved,
{
}

/// Whoever has the credits free and the calls left gets what they ask for, and nobody else does:
/// exactly the amount is set aside, and nothing else changes.
pub proof fn free_credits_can_be_set_aside(
    account: &mut Account,
    today_calls: i64,
    amount: i64,
    r: AppResult<()>,
)
    requires
        amount >= 0,
        call_ensures(Account::reserve, (account, today_calls, amount), r),
    ensures
        r is Ok <==> today_calls + amount <= old(account).daily_limit && amount <= old(
            account,
        ).credits - old(account).reserved,
        r is Ok ==> final(account).reserved == old(account).reserved + amount,
        r is Err ==> final(account).reserved == old(account).reserved,
        final(account).credits == old(account).credits,
        final(account).daily_limit == old(account).daily_limit,
        r matches Err(error) ==> error.0 == (if today_calls + amount > old(account).daily_limit {
            429u16
        } else {
            403u16
        }),
{
}

/// Setting aside for a user whose calls were counted is setting aside on the account.
pub proof fn reservations_follow_the_account(
    account: &mut Account,
    today_calls: i64,
    amount: i64,
    r: AppResult<()>,
)
    requires
        amount >= 0,
        call_ensures(reserve_credits, (account, today_calls, amount), r),
    ensures
        r is Ok <==> today_calls + amount <= old(account).daily_limit && amount <= old(
            account,
        ).credits - old(account).reserved,
        r is Ok ==> final(account).reserved == old(account).reserved + amount,
        r is Err ==> *final(account) == *old(account),
        final(account).credits == old(account).credits,
        final(account).daily_limit == old(account).daily_limit,
{
}

/// Two reservations that fit together both succeed, in either order, and set aside their sum.
pub proof fn reservations_add_up(
    first: &mut Account,
    second: &mut Account,
    today_calls: i64,
    one: i64,
    other: i64,
    r: AppResult<()>,
    s: AppResult<()>,
)
    requires
        one >= 0,
        other >= 0,
        call_ensures(Account::reserve, (first, today_calls, one), r),
        *old(second) == *final(first),
        call_ensures(Account::reserve, (second, today_calls, other), s),
        today_calls + one <= old(first).daily_limit,
        today_calls + other <= old(first).daily_limit,
        one + other <= old(first).credits - old(first).reserved,
    ensures
        r is Ok,
        s is Ok,
        final(second).reserved == old(first).reserved + one + other,
        final(second).credits == old(first).credits,
{
}

/// Giving credits back takes them out of what is set aside, as far as there is any, and leaves
/// the credits themselves alone.
pub proof fn giving_back_frees_credits(account: &mut Account, amount: i64)
    requires
        amount >= 0,
        call_ensures(Account::release, (account, amount), ()),
    ensures
        amount <= old(account).reserved ==> final(account).reserved == old(account).reserved
            - amount,
        amount > old(account).reserved ==> final(account).reserved == 0,
        final(account).credits == old(account).credits,
        final(account).daily_limit == old(account).daily_limit,
{
}

/// What was set aside and given back leaves the account as it was.
pub proof fn giving_back_undoes_setting_aside(
    before: &mut Account,
    held: &mut Account,
    today_calls: i64,
    amount: i64,
    r: AppResult<()>,
)
    requires
        amount >= 0,
        old(before).reserved >= 0,
        call_ensures(Account::reserve, (before, today_calls, amount), r),
        r is Ok,
        *old(held) == *final(before),
        call_ensures(Account::release, (held, amount), ()),
    ensures
        final(held).credits == old(before).credits,
        final(held).reserved == old(before).reserved,
        final(held).daily_limit == old(before).daily_limit,
{
}

/// Settling takes exactly what was used out of the credits and all that was set aside for it, and
/// is refused, with nothing changed, where the account does not hold both.
pub proof fn settling_takes_what_was_used(
    account: &mut Account,
    used: i64,
    amount: i64,
    r: AppResult<()>,
)
    requires
        used >= 0,
        amount >= 0,
        call_ensures(Account::spend, (account, used, amount), r),
    ensures
        r is Ok <==> used <= old(account).credits && amount <= old(account).reserved,
        r is Ok ==> final(account).credits == old(account).credits - used,
        r is Ok ==> final(account).reserved == old(account).reserved - amount,
        r is Err ==> *final(account) == *old(account),
        final(account).daily_limit == old(account).daily_limit,
{
}

/// A failed call gives its credits back, costs nothing, and is written down as what it was: whose
/// it was, through which provider, where from, and what went wrong; and its task ends with it.
pub proof fn failures_are_written_down(
    account: &mut Account,
    call: &CallContext<'_>,
    reserved: i64,
    message: &str,
    r: FailureRecords,
)
    requires
        reserved >= 0,
        call_ensures(settle_failure, (account, call, reserved, message), r),
    ensures
        final(account).credits == old(account).credits,
        reserved <= old(account).reserved ==> final(account).reserved == old(account).reserved
            - reserved,
        reserved > old(account).reserved ==> final(account).reserved == 0,
        r.log.user_id@ == call.user_id@,
        text::opt(r.log.provider_id) == text::opt_str(call.provider_id),
        r.log.endpoint@ == call.endpoint@,
        r.log.model@ == "gpt-image-2"@,
        r.log.duration_ms == call.duration_ms,
        r.log.prompt@ == call.prompt@,
        r.log.ip_address@ == call.metadata.ip_address@,
        r.log.device_id@ == call.metadata.device_id@,
        r.log.platform@ == call.metadata.platform@,
        r.log.app_version@ == call.metadata.app_version@,
        r.log.user_agent@ == call.metadata.user_agent@,
        r.log.status@ == "error"@,
        r.log.error@ == message@,
        r.log.credits_used == 0,
        r.task is Some <==> call.task_id is Some,
        r.task matches Some(task) ==> {
            &&& task.id@ == call.task_id->0@
            &&& task.user_id@ == call.user_id@
            &&& task.status@ == "error"@
            &&& task.image_id is None
            &&& text::opt(task.error) == Some(message@)
            &&& task.credits_used == 0
            &&& task.updated_at@ == r.log.created_at@
        },
{
}

/// The metrics count what a call took and used: never less than nothing, and no credits where it
/// used none.
pub proof fn metrics_count_what_was_used(
    endpoint: &str,
    status: &'static str,
    duration_ms: i64,
    credits: i64,
    r: GenerationMetrics,
)
    requires
        call_ensures(record_generation_metrics, (endpoint, status, duration_ms, credits), r),
    ensures
        r.endpoint@ == endpoint@,
        r.status@ == status@,
        duration_ms >= 0 ==> r.duration_ms == duration_ms,
        duration_ms < 0 ==> r.duration_ms == 0,
        credits > 0 ==> r.credits == Some(credits as u64),
        credits <= 0 ==> r.credits is None,
{
}

/// A call that would exceed the day's limit and one that is not covered are told apart.
pub proof fn refused_reservations_name_their_reason(
    account: &mut Account,
    today_calls: i64,
    amount: i64,
    r: AppResult<()>,
)
    requires
        amount >= 0,
        call_ensures(Account::reserve, (account, today_calls, amount), r),
        r is Err,
    ensures
        today_calls + amount > old(account).daily_limit ==> r->Err_0.1@
            == "今日调用次数已达上限"@,
        today_calls + amount <= old(account).daily_limit ==> r->Err_0.1@ == "积分不足"@,
{
}

/// A log holds what it is given of a call and its outcome.
pub proof fn logs_hold_what_they_are_given(
    call: &CallContext<'_>,
    id: String,
    status: &str,
    credits_used: i64,
    error: &str,
    created_at: &str,
    r: UsageLog,
)
    requires
        call_ensures(call_log, (call, id, status, credits_used, error, created_at), r),
    ensures
        r.id@ == id@,
        r.user_id@ == call.user_id@,
        text::opt(r.provider_id) == text::opt_str(call.provider_id),
        r.endpoint@ == call.endpoint@,
        r.status@ == status@,
        r.duration_ms == call.duration_ms,
        r.credits_used == credits_used,
        r.prompt@ == call.prompt@,
        r.error@ == error@,
        r.created_at@ == created_at@,
{
}

/// The records of a failure carry the moment that they were written at.
pub proof fn failures_carry_their_moment(
    call: &CallContext<'_>,
    message: &str,
    log_token: &str,
    now: Moment,
    r: FailureRecords,
)
    requires
        now.representable(),
        call_ensures(failure_records, (call, message, log_token, now), r),
    ensures
        r.log.id@ == "log-"@ + log_token@,
        r.log.created_at@ == clock::rfc3339_text(now.secs as int, now.nanos as int),
        r.log.error@ == message@,
        r.log.status@ == "error"@,
        r.log.credits_used == 0,
        r.task is Some <==> call.task_id is Some,
        r.task matches Some(task) ==> task.id@ == call.task_id->0@ && task.updated_at@
            == r.log.created_at@,
{
}

} // verus!
