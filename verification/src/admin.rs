//! What administrators may see and change.

use vstd::prelude::*;

use crate::account;
use crate::account::{NewProvider, ProviderSlot};
use crate::clock;
use crate::clock::Moment;
use crate::db;
use crate::images::credits::LedgerEntry;
use crate::images::files;
use crate::images::files::ServePlan;
use crate::model;
use crate::model::{
    refuse, AppError, AppResult, CreateProviderRequest, UserResponse, BAD_GATEWAY,
    BAD_REQUEST, CONFLICT, FORBIDDEN, GATEWAY_TIMEOUT, NOT_FOUND,
};
use crate::paging;
use crate::paging::Page;
use crate::text;
use crate::token;

verus! {

/// Whether a text is that of some moment.
pub open spec fn is_timestamp(value: Seq<char>) -> bool {
    exists|now: Moment|
        now.representable() && value == #[trigger] clock::rfc3339_text(
            now.secs as int,
            now.nanos as int,
        )
}

/// The present moment, in text.
fn present() -> (r: String)
    ensures
        is_timestamp(r@),
{
    let now = clock::utc_now();
    clock::rfc3339(now)
}

/// The user, if an administrator: an account that is gone or not active is none.
pub fn admin_user(user: UserResponse, is_admin: Option<bool>) -> (r: AppResult<UserResponse>)
    ensures
        if is_admin == Some(true) {
            r == Ok::<UserResponse, AppError>(user)
        } else {
            model::refused(r, FORBIDDEN, "需要管理员权限"@)
        },
{
    match is_admin {
        Some(true) => Ok(user),
        _ => refuse(FORBIDDEN, "需要管理员权限"),
    }
}

/// What an administrator did.
#[derive(Debug, PartialEq, Eq)]
pub enum AuditDetail {
    UserUpdated { status: String, plan: String, daily_limit: i64, is_admin: bool },
    CreditsAdjusted { delta: i64, balance: i64, reason: String },
    CreditsSet { user_ids: Vec<String>, credits: i64, reason: String },
    LegacyKeysRevoked { revoked: usize },
    SettingsUpdated { registration_credits: i64, default_daily_limit: i64 },
    ProviderCreated { name: String, base_url: String },
    Announced { title: String },
    Plain,
}

/// A line of the audit log.
#[derive(Debug, PartialEq, Eq)]
pub struct AuditEntry {
    pub id: String,
    pub admin_user_id: String,
    pub action: String,
    pub target_type: String,
    pub target_id: String,
    pub detail: AuditDetail,
    pub created_at: String,
}

/// Whether a line of the audit log is that of an action on a target, whatever its detail.
pub open spec fn audits(
    entry: AuditEntry,
    admin_id: Seq<char>,
    action: Seq<char>,
    target_type: Seq<char>,
    target_id: Seq<char>,
) -> bool {
    &&& token::is_identifier(entry.id@, "audit-"@)
    &&& entry.admin_user_id@ == admin_id
    &&& entry.action@ == action
    &&& entry.target_type@ == target_type
    &&& entry.target_id@ == target_id
    &&& is_timestamp(entry.created_at@)
}

/// The line of the audit log that an action leaves.
pub fn write_audit(
    admin_id: &str,
    action: &str,
    target_type: &str,
    target_id: &str,
    detail: AuditDetail,
) -> (r: AuditEntry)
    ensures
        audits(r, admin_id@, action@, target_type@, target_id@),
        r.detail == detail,
{
    AuditEntry {
        id: token::fresh_identifier("audit-"),
        admin_user_id: admin_id.to_owned(),
        action: action.to_owned(),
        target_type: target_type.to_owned(),
        target_id: target_id.to_owned(),
        detail,
        created_at: present(),
    }
}

/// A day: its date, and the bounds of its moments.
#[derive(Debug, PartialEq, Eq)]
pub struct DayWindow {
    pub date: String,
    pub start: String,
    pub end: String,
}

/// Whether a window is that of the day some days before a moment.
pub open spec fn is_day_before(window: DayWindow, now: Moment, days: int) -> bool {
    let secs = now.secs - days * 86_400;
    &&& window.date@ == clock::date_text(secs, now.nanos as int)
    &&& window.start@ == clock::rfc3339_text(secs - secs % 86_400, 0)
    &&& window.end@ == clock::rfc3339_text(secs - secs % 86_400 + 86_400, 0)
}

/// The times that the overview counts from.
#[derive(Debug, PartialEq, Eq)]
pub struct OverviewTimes {
    pub month_start: String,
    pub online_cutoff: String,
    pub days: Vec<DayWindow>,
}

/// How many days the overview shows one by one.
pub const OVERVIEW_DAYS: usize = 14;

/// Whether the calendar reaches around a moment as far as the overview looks.
pub open spec fn has_overview(now: Moment) -> bool {
    &&& now.representable()
    &&& clock::FIRST_SECOND <= now.secs - 29 * 86_400
    &&& now.day_start() + 86_400 <= clock::LAST_SECOND
}

/// The times that the overview counts from: users are active in a month if they came within 30
/// days, and online if they were seen within five minutes; the last of the days is today. `None`
/// where the calendar does not reach that far.
pub fn overview(now: Moment) -> (r: Option<OverviewTimes>)
    ensures
        r is Some <==> has_overview(now),
        r matches Some(times) ==> {
            &&& times.month_start@ == clock::date_text(now.secs - 29 * 86_400, now.nanos as int)
            &&& times.online_cutoff@ == clock::rfc3339_text(now.secs - 300, now.nanos as int)
            &&& times.days@.len() == OVERVIEW_DAYS
            &&& forall|i: int|
                0 <= i < OVERVIEW_DAYS ==> is_day_before(
                    #[trigger] times.days@[i],
                    now,
                    OVERVIEW_DAYS - 1 - i,
                )
        },
{
    if !now.is_representable() {
        return None;
    }
    let month = match now.checked_plus_days(-29) {
        Some(found) => found,
        None => {
            return None;
        },
    };
    if now.midnight().checked_plus_days(1).is_none() {
        return None;
    }
    let online = Moment { secs: now.secs - 300, nanos: now.nanos };
    let mut days: Vec<DayWindow> = Vec::new();
    let mut i: usize = 0;
    while i < OVERVIEW_DAYS
        invariant
            i <= OVERVIEW_DAYS,
            has_overview(now),
            days@.len() == i,
            forall|j: int|
                0 <= j < i ==> is_day_before(#[trigger] days@[j], now, OVERVIEW_DAYS - 1 - j),
        decreases OVERVIEW_DAYS - i,
    {
        let back: i64 = (OVERVIEW_DAYS - 1 - i) as i64;
        let day = Moment { secs: now.secs - back * 86_400, nanos: now.nanos };
        assert(day.day_start() == now.day_start() - back * 86_400) by (nonlinear_arith)
            requires
                day.day_start() == day.secs - day.secs as int % 86_400,
                now.day_start() == now.secs - now.secs as int % 86_400,
                day.secs == now.secs - back * 86_400,
        ;
        match db::utc_day_bounds(day) {
            Some((start, end)) => {
                days.push(DayWindow { date: clock::date(day), start, end });
            },
            None => {
                return None;
            },
        }
        i += 1;
    }
    Some(
        OverviewTimes {
            month_start: clock::date(month),
            online_cutoff: clock::rfc3339(online),
            days,
        },
    )
}

/// Which users an administrator asks for.
#[derive(Debug, PartialEq, Eq)]
pub struct UserQuery {
    pub page: Option<u32>,
    pub page_size: Option<u32>,
    pub q: Option<String>,
    pub status: Option<String>,
}

/// Which calls an administrator asks for.
#[derive(Debug, PartialEq, Eq)]
pub struct UsageLogQuery {
    pub page: Option<u32>,
    pub page_size: Option<u32>,
    pub q: Option<String>,
    pub status: Option<String>,
}

/// Which part of the credit ledger an administrator asks for.
#[derive(Debug, PartialEq, Eq)]
pub struct LedgerQuery {
    pub page: Option<u32>,
    pub page_size: Option<u32>,
    pub user_id: Option<String>,
}

/// A search: the text looked for, as it is and as a pattern, and the status, empty for any.
#[derive(Debug, PartialEq, Eq)]
pub struct Search {
    pub search: String,
    pub pattern: String,
    pub status: String,
    pub page: Page,
}

/// A text that may be missing.
pub open spec fn given_text(value: Option<String>) -> Seq<char> {
    text::or_text(text::opt(value), ""@)
}

/// Whether a status that is asked for is neither empty nor one of two.
pub open spec fn strange_status(
    status: Option<String>,
    first: Seq<char>,
    second: Seq<char>,
) -> bool {
    let asked = given_text(status);
    asked.len() > 0 && asked != first && asked != second
}

/// Whether a search is for a text, without regard to case, and a status.
pub open spec fn searches(found: Search, q: Option<String>, status: Option<String>) -> bool {
    &&& found.search@ == text::lowercase(text::trimmed(given_text(q)))
    &&& found.pattern@ == "%"@ + found.search@ + "%"@
    &&& found.status@ == given_text(status)
}

/// The search for a text and a status, which must be empty or one of two.
fn search_for(
    q: &Option<String>,
    status: &Option<String>,
    allowed: (&str, &str),
    page: Page,
    message: &str,
) -> (r: AppResult<Search>)
    ensures
        if strange_status(*status, allowed.0@, allowed.1@) {
            model::refused(r, BAD_REQUEST, message@)
        } else {
            r matches Ok(found) && searches(found, *q, *status) && found.page == page
        },
{
    let wanted = match q {
        Some(given) => given.as_str(),
        None => "",
    };
    let asked = match status {
        Some(given) => given.as_str(),
        None => "",
    };
    let search = text::to_lowercase(text::trim(wanted));
    let pattern = text::concat3("%", search.as_str(), "%");
    if text::characters(asked).len() > 0 && !text::same(asked, allowed.0) && !text::same(
        asked,
        allowed.1,
    ) {
        return refuse(BAD_REQUEST, message);
    }
    Ok(Search { search, pattern, status: asked.to_owned(), page })
}

/// The users that a query asks for, 20 on a page unless it says otherwise.
pub fn list_users(query: &UserQuery) -> (r: AppResult<Search>)
    ensures
        if strange_status(query.status, "active"@, "disabled"@) {
            model::refused(r, BAD_REQUEST, "用户状态无效"@)
        } else {
            r matches Ok(found) && searches(found, query.q, query.status) && paging::is_page(
                found.page,
                query.page,
                query.page_size,
                20,
            )
        },
{
    let page = paging::page_of(query.page, query.page_size, 20);
    search_for(&query.q, &query.status, ("active", "disabled"), page, "用户状态无效")
}

/// The calls that a query asks for, 30 on a page unless it says otherwise.
pub fn list_usage_logs(query: &UsageLogQuery) -> (r: AppResult<Search>)
    ensures
        if strange_status(query.status, "success"@, "error"@) {
            model::refused(r, BAD_REQUEST, "调用状态无效"@)
        } else {
            r matches Ok(found) && searches(found, query.q, query.status) && paging::is_page(
                found.page,
                query.page,
                query.page_size,
                30,
            )
        },
{
    let page = paging::page_of(query.page, query.page_size, 30);
    search_for(&query.q, &query.status, ("success", "error"), page, "调用状态无效")
}

/// A part of the credit ledger: that of one user, or of all where there is no identifier.
#[derive(Debug, PartialEq, Eq)]
pub struct LedgerSearch {
    pub user_id: String,
    pub page: Page,
}

/// The part of the ledger that a query asks for, 30 lines on a page unless it says otherwise.
pub fn list_credit_ledger(query: &LedgerQuery) -> (r: LedgerSearch)
    ensures
        r.user_id@ == given_text(query.user_id),
        paging::is_page(r.page, query.page, query.page_size, 30),
{
    let user_id = match &query.user_id {
        Some(given) => given.clone(),
        None => "".to_owned(),
    };
    LedgerSearch { user_id, page: paging::page_of(query.page, query.page_size, 30) }
}

/// Where an administrator finds the image of a call.
pub fn usage_image_url(image_id: &Option<String>) -> (r: Option<String>)
    ensures
        text::opt(r) == match *image_id {
            Some(id) => Some("/api/admin/images/"@ + id@ + "/file"@),
            None => None,
        },
{
    match image_id {
        Some(id) => Some(text::concat3("/api/admin/images/", id.as_str(), "/file")),
        None => None,
    }
}

/// How the file of an image is handed to an administrator, who may see every image.
pub fn image_file(file_name: Option<String>) -> (r: AppResult<ServePlan>)
    ensures
        match file_name {
            Some(name) => {
                &&& r matches Ok(plan)
                &&& plan.source@ == name@
                &&& plan.thumbnail is None
                &&& plan.etag_key@ == name@
                &&& plan.cache_control@ == files::PRIVATE_CACHE@
                &&& plan.missing@ == "图片文件不存在"@
            },
            None => model::refused(r, NOT_FOUND, "图片不存在"@),
        },
{
    match file_name {
        Some(name) => Ok(
            ServePlan {
                etag_key: name.clone(),
                source: name,
                thumbnail: None,
                cache_control: files::PRIVATE_CACHE,
                missing: "图片文件不存在",
            },
        ),
        None => refuse(NOT_FOUND, "图片不存在"),
    }
}

/// What an administrator sees of a user.
#[derive(Debug, PartialEq, Eq)]
pub struct UserRecord {
    pub id: String,
    pub name: String,
    pub email: String,
    pub avatar: String,
    pub plan: String,
    pub credits: i64,
    pub credits_reserved: i64,
    pub daily_limit: i64,
    pub status: String,
    pub is_admin: bool,
    pub created_at: String,
    pub last_login_at: Option<String>,
    pub last_seen_at: Option<String>,
    pub password_configured: bool,
}

/// The credits that are not reserved.
pub fn available_credits(credits: i64, reserved: i64) -> (r: i64)
    requires
        i64::MIN <= credits - reserved <= i64::MAX,
    ensures
        r == credits - reserved,
{
    credits - reserved
}

/// The user that an administrator asks for.
pub fn get_user(record: Option<UserRecord>) -> (r: AppResult<UserRecord>)
    ensures
        match record {
            Some(user) => r == Ok::<UserRecord, AppError>(user),
            None => model::refused(r, NOT_FOUND, "用户不存在"@),
        },
{
    match record {
        Some(user) => Ok(user),
        None => refuse(NOT_FOUND, "用户不存在"),
    }
}

/// Whose provider it is: the system's, or the user's own.
pub fn provider_source(is_global: bool) -> (r: &'static str)
    ensures
        r == if is_global {
            "system"
        } else {
            "user"
        },
{
    if is_global {
        "system"
    } else {
        "user"
    }
}

/// What an administrator asks to change of a user.
#[derive(Debug, PartialEq, Eq)]
pub struct UpdateUserRequest {
    pub status: Option<String>,
    pub plan: Option<String>,
    pub daily_limit: Option<i64>,
    pub is_admin: Option<bool>,
}

/// What an administrator may change of a user.
#[derive(Debug, PartialEq, Eq)]
pub struct UserSettings {
    pub status: String,
    pub plan: String,
    pub daily_limit: i64,
    pub is_admin: bool,
}

impl UserSettings {
    /// The status after a change.
    pub open spec fn new_status(self, request: UpdateUserRequest) -> Seq<char> {
        text::or_text(text::opt(request.status), self.status@)
    }

    /// The plan after a change.
    pub open spec fn new_plan(self, request: UpdateUserRequest) -> Seq<char> {
        text::trimmed(text::or_text(text::opt(request.plan), self.plan@))
    }

    /// The daily limit after a change.
    pub open spec fn new_limit(self, request: UpdateUserRequest) -> i64 {
        match request.daily_limit {
            Some(limit) => limit,
            None => self.daily_limit,
        }
    }

    /// Whether the user is an administrator after a change.
    pub open spec fn new_admin(self, request: UpdateUserRequest) -> bool {
        match request.is_admin {
            Some(is_admin) => is_admin,
            None => self.is_admin,
        }
    }

    /// Whether the settings after a change are out of bounds.
    pub open spec fn bad_change(self, request: UpdateUserRequest) -> bool {
        ||| self.new_status(request) != "active"@ && self.new_status(request) != "disabled"@
        ||| self.new_plan(request).len() == 0
        ||| vstd::utf8::encode_utf8(self.new_plan(request)).len() > 40
        ||| !(1 <= self.new_limit(request) <= 1_000_000)
    }

    /// Whether a change takes its power, or the account, from the user.
    pub open spec fn disempowers(self, request: UpdateUserRequest) -> bool {
        self.new_status(request) != "active"@ || !self.new_admin(request)
    }
}

/// Why a change of a user is refused, if it is: nobody may shut themselves out.
pub open spec fn update_refusal(
    admin_id: Seq<char>,
    id: Seq<char>,
    current: Option<UserSettings>,
    request: UpdateUserRequest,
) -> Option<(u16, Seq<char>)> {
    match current {
        None => Some((NOT_FOUND, "用户不存在"@)),
        Some(held) => if held.bad_change(request) {
            Some((BAD_REQUEST, "用户参数无效"@))
        } else if id == admin_id && held.disempowers(request) {
            Some((CONFLICT, "不能停用自己的管理员权限"@))
        } else {
            None
        },
    }
}

/// Whether settings and their audit are those of a change.
pub open spec fn is_update(
    settings: UserSettings,
    audit: AuditEntry,
    held: UserSettings,
    request: UpdateUserRequest,
) -> bool {
    &&& settings.status@ == held.new_status(request)
    &&& settings.plan@ == held.new_plan(request)
    &&& settings.daily_limit == held.new_limit(request)
    &&& settings.is_admin == held.new_admin(request)
    &&& audit.detail matches AuditDetail::UserUpdated { status, plan, daily_limit, is_admin }
    &&& status@ == settings.status@
    &&& plan@ == settings.plan@
    &&& daily_limit == settings.daily_limit
    &&& is_admin == settings.is_admin
}

/// The settings of a user after a change, with the line of the audit log.
pub fn update_user(
    admin_id: &str,
    id: &str,
    current: Option<UserSettings>,
    request: UpdateUserRequest,
) -> (r: AppResult<(UserSettings, AuditEntry)>)
    ensures
        model::answers(r, update_refusal(admin_id@, id@, current, request)),
        r matches Ok(change) ==> {
            &&& current matches Some(held)
            &&& is_update(change.0, change.1, held, request)
            &&& audits(change.1, admin_id@, "update_user"@, "user"@, id@)
        },
{
    let held = match current {
        Some(held) => held,
        None => {
            return refuse(NOT_FOUND, "用户不存在");
        },
    };
    let status = match &request.status {
        Some(given) => given.clone(),
        None => held.status.clone(),
    };
    let plan = match &request.plan {
        Some(given) => text::trim(given.as_str()).to_owned(),
        None => text::trim(held.plan.as_str()).to_owned(),
    };
    let daily_limit: i64 = match request.daily_limit {
        Some(limit) => limit,
        None => held.daily_limit,
    };
    let is_admin = match request.is_admin {
        Some(given) => given,
        None => held.is_admin,
    };
    let active = text::same(status.as_str(), "active");
    if (!active && !text::same(status.as_str(), "disabled")) || text::characters(
        plan.as_str(),
    ).len() == 0 || text::byte_len(plan.as_str()) > 40 || daily_limit < 1 || daily_limit
        > 1_000_000 {
        return refuse(BAD_REQUEST, "用户参数无效");
    }
    if text::same(id, admin_id) && (!active || !is_admin) {
        return refuse(CONFLICT, "不能停用自己的管理员权限");
    }
    let detail = AuditDetail::UserUpdated {
        status: status.clone(),
        plan: plan.clone(),
        daily_limit,
        is_admin,
    };
    let audit = write_audit(admin_id, "update_user", "user", id, detail);
    Ok((UserSettings { status, plan, daily_limit, is_admin }, audit))
}

/// Administrators cannot shut themselves out: after any change that goes through, whoever made
/// it on themselves is active and an administrator still.
pub proof fn administrators_keep_their_access(
    id: Seq<char>,
    held: UserSettings,
    request: UpdateUserRequest,
)
    requires
        update_refusal(id, id, Some(held), request) is None,
    ensures
        held.new_status(request) == "active"@,
        held.new_admin(request),
{
}

/// What an administrator asks to add to a user's credits, or to take from them.
#[derive(Debug, PartialEq, Eq)]
pub struct CreditAdjustmentRequest {
    pub delta: i64,
    pub reason: String,
    pub request_id: String,
}

/// Whether reason and number of a request are too short or too long.
pub open spec fn bad_request_texts(reason: Seq<char>, request_id: Seq<char>) -> bool {
    ||| vstd::utf8::encode_utf8(text::trimmed(reason)).len() < 2
    ||| vstd::utf8::encode_utf8(text::trimmed(reason)).len() > 200
    ||| vstd::utf8::encode_utf8(text::trimmed(request_id)).len() < 8
    ||| vstd::utf8::encode_utf8(text::trimmed(request_id)).len() > 128
}

/// Whether reason and number of a request are too short or too long.
fn has_bad_texts(reason: &str, request_id: &str) -> (r: bool)
    ensures
        r == bad_request_texts(reason@, request_id@),
{
    let reason_len: usize = text::byte_len(text::trim(reason));
    let id_len: usize = text::byte_len(text::trim(request_id));
    reason_len < 2 || reason_len > 200 || id_len < 8 || id_len > 128
}

/// Whether an adjustment is out of bounds.
pub open spec fn bad_adjustment(request: CreditAdjustmentRequest) -> bool {
    ||| request.delta == 0
    ||| request.delta > 1_000_000_000
    ||| request.delta < -1_000_000_000
    ||| bad_request_texts(request.reason@, request.request_id@)
}

/// A ledger line that is there already under the same reference.
#[derive(Debug, PartialEq, Eq)]
pub struct EarlierEntry {
    pub user_id: String,
    pub delta: i64,
    pub balance_after: i64,
}

/// A user's credits, and how many of them are reserved.
#[derive(Clone, Copy, Debug, PartialEq, Eq, Structural)]
pub struct Balance {
    pub credits: i64,
    pub reserved: i64,
}

impl Balance {
    /// Whether the credits cover what is reserved.
    pub open spec fn covered(self) -> bool {
        0 <= self.reserved <= self.credits
    }
}

/// How a request to change credits ends: it was carried out before, or its changes.
#[derive(Debug, PartialEq, Eq)]
pub enum Adjustment {
    Repeated(i64),
    Changed { credits: i64, entry: LedgerEntry, audit: AuditEntry },
}

impl Adjustment {
    /// The credits that the answer shows.
    pub open spec fn shown(self) -> i64 {
        match self {
            Adjustment::Repeated(credits) => credits,
            Adjustment::Changed { credits, .. } => credits,
        }
    }

    /// The credits that the answer shows.
    pub fn credits(&self) -> (r: i64)
        ensures
            r == self.shown(),
    {
        match self {
            Adjustment::Repeated(credits) => *credits,
            Adjustment::Changed { credits, .. } => *credits,
        }
    }
}

/// Why an adjustment is refused, if it is. Where it was carried out before under the same
/// number, it must have been the same.
pub open spec fn adjustment_refusal(
    id: Seq<char>,
    request: CreditAdjustmentRequest,
    earlier: Option<EarlierEntry>,
    balance: Option<Balance>,
) -> Option<(u16, Seq<char>)> {
    if bad_adjustment(request) {
        Some((BAD_REQUEST, "积分调整参数无效"@))
    } else {
        match (earlier, balance) {
            (Some(entry), _) => if entry.user_id@ != id || entry.delta != request.delta {
                Some((CONFLICT, "请求流水号已被使用"@))
            } else {
                None
            },
            (None, None) => Some((NOT_FOUND, "用户不存在"@)),
            (None, Some(held)) => if held.credits + request.delta > i64::MAX || held.credits
                + request.delta < held.reserved || held.credits + request.delta < 0 {
                Some((CONFLICT, "积分余额不能低于已预扣积分"@))
            } else {
                None
            },
        }
    }
}

/// Whether a ledger line is that of a change which an administrator made.
pub open spec fn is_change_entry(
    entry: LedgerEntry,
    id: Seq<char>,
    delta: int,
    balance: i64,
    reason: Seq<char>,
    reference: Seq<char>,
    admin_id: Seq<char>,
) -> bool {
    &&& token::is_identifier(entry.id@, "credit-"@)
    &&& entry.user_id@ == id
    &&& entry.delta == delta
    &&& entry.balance_after == balance
    &&& entry.reason@ == reason
    &&& entry.reference_id@ == reference
    &&& text::opt(entry.operator_user_id) == Some(admin_id)
    &&& is_timestamp(entry.created_at@)
}

/// The ledger line of a change which an administrator made.
fn change_entry(
    id: &str,
    delta: i64,
    balance: i64,
    reason: &str,
    reference: String,
    admin_id: &str,
) -> (r: LedgerEntry)
    ensures
        is_change_entry(r, id@, delta as int, balance, reason@, reference@, admin_id@),
{
    LedgerEntry {
        id: token::fresh_identifier("credit-"),
        user_id: id.to_owned(),
        delta,
        balance_after: balance,
        reason: reason.to_owned(),
        reference_id: reference,
        operator_user_id: Some(admin_id.to_owned()),
        created_at: present(),
    }
}

/// The reference under which an adjustment stands in the ledger.
pub open spec fn adjustment_reference_text(request_id: Seq<char>) -> Seq<char> {
    "admin:"@ + text::trimmed(request_id)
}

/// The reference under which an adjustment stands in the ledger.
pub fn adjustment_reference(request_id: &str) -> (r: String)
    ensures
        r@ == adjustment_reference_text(request_id@),
{
    text::concat("admin:", text::trim(request_id))
}

/// Whether an outcome is that of an adjustment that goes through.
pub open spec fn is_adjusted(
    outcome: Adjustment,
    admin_id: Seq<char>,
    id: Seq<char>,
    request: CreditAdjustmentRequest,
    earlier: Option<EarlierEntry>,
    balance: Option<Balance>,
) -> bool {
    match outcome {
        Adjustment::Repeated(credits) => {
            &&& earlier matches Some(entry)
            &&& credits == entry.balance_after
        },
        Adjustment::Changed { credits, entry, audit } => {
            &&& earlier is None
            &&& balance matches Some(held)
            &&& credits == held.credits + request.delta
            &&& is_change_entry(
                entry,
                id,
                request.delta as int,
                credits,
                text::trimmed(request.reason@),
                adjustment_reference_text(request.request_id@),
                admin_id,
            )
            &&& audits(audit, admin_id, "adjust_credits"@, "user"@, id)
            &&& audit.detail matches AuditDetail::CreditsAdjusted { delta, balance, reason }
            &&& delta == request.delta
            &&& balance == credits
            &&& reason@ == text::trimmed(request.reason@)
        },
    }
}

/// Adds to a user's credits, or takes from them, down to what is reserved. A request that was
/// carried out before is not carried out again.
pub fn adjust_credits(
    admin_id: &str,
    id: &str,
    request: &CreditAdjustmentRequest,
    earlier: Option<EarlierEntry>,
    balance: Option<Balance>,
) -> (r: AppResult<Adjustment>)
    ensures
        model::answers(r, adjustment_refusal(id@, *request, earlier, balance)),
        r matches Ok(outcome) ==> is_adjusted(outcome, admin_id@, id@, *request, earlier, balance),
{
    if request.delta == 0 || request.delta > 1_000_000_000 || request.delta < -1_000_000_000
        || has_bad_texts(request.reason.as_str(), request.request_id.as_str()) {
        return refuse(BAD_REQUEST, "积分调整参数无效");
    }
    match earlier {
        Some(entry) => {
            if !text::same(entry.user_id.as_str(), id) || entry.delta != request.delta {
                return refuse(CONFLICT, "请求流水号已被使用");
            }
            return Ok(Adjustment::Repeated(entry.balance_after));
        },
        None => {},
    }
    let held = match balance {
        Some(held) => held,
        None => {
            return refuse(NOT_FOUND, "用户不存在");
        },
    };
    let credits: i64 = match held.credits.checked_add(request.delta) {
        Some(sum) => if sum >= held.reserved && sum >= 0 {
            sum
        } else {
            return refuse(CONFLICT, "积分余额不能低于已预扣积分");
        },
        None => {
            return refuse(CONFLICT, "积分余额不能低于已预扣积分");
        },
    };
    let reason = text::trim(request.reason.as_str());
    let entry = change_entry(
        id,
        request.delta,
        credits,
        reason,
        adjustment_reference(request.request_id.as_str()),
        admin_id,
    );
    let detail = AuditDetail::CreditsAdjusted {
        delta: request.delta,
        balance: credits,
        reason: reason.to_owned(),
    };
    let audit = write_audit(admin_id, "adjust_credits", "user", id, detail);
    Ok(Adjustment::Changed { credits, entry, audit })
}

/// An adjustment that is asked for twice is carried out once: with its ledger line in place the
/// second request is answered with the same credits, and changes nothing.
pub proof fn adjustments_happen_once(
    admin_id: Seq<char>,
    id: Seq<char>,
    request: CreditAdjustmentRequest,
    balance: Option<Balance>,
    first: Adjustment,
    later: Option<Balance>,
    second: Adjustment,
    entry: EarlierEntry,
)
    requires
        adjustment_refusal(id, request, None, balance) is None,
        is_adjusted(first, admin_id, id, request, None, balance),
        entry.user_id@ == id,
        entry.delta == request.delta,
        entry.balance_after == first.shown(),
        is_adjusted(second, admin_id, id, request, Some(entry), later),
    ensures
        adjustment_refusal(id, request, Some(entry), later) is None,
        second is Repeated,
        second.shown() == first.shown(),
{
}

/// An adjustment that goes through leaves what is reserved covered.
pub proof fn adjustments_keep_balances_covered(
    admin_id: Seq<char>,
    id: Seq<char>,
    request: CreditAdjustmentRequest,
    held: Balance,
    outcome: Adjustment,
)
    requires
        held.covered(),
        adjustment_refusal(id, request, None, Some(held)) is None,
        is_adjusted(outcome, admin_id, id, request, None, Some(held)),
    ensures
        (Balance { credits: outcome.shown(), reserved: held.reserved }).covered(),
{
}

/// What an administrator asks to set the credits of many users to.
#[derive(Debug, PartialEq, Eq)]
pub struct BulkCreditSetRequest {
    pub user_ids: Vec<String>,
    pub credits: i64,
    pub reason: String,
    pub request_id: String,
}

/// The users, each once, in order, whose credits are set, and what they are set to.
#[derive(Debug, PartialEq, Eq)]
pub struct BulkPlan {
    pub user_ids: Vec<String>,
    pub credits: i64,
    pub reason: String,
    pub request_id: String,
}

/// The identifiers that a request names, without the space around them.
pub open spec fn named_ids(user_ids: Seq<String>) -> Set<Seq<char>> {
    Seq::new(user_ids.len(), |i: int| text::trimmed(user_ids[i]@)).to_set()
}

/// Whether an identifier is empty or too long.
pub open spec fn bad_id(id: Seq<char>) -> bool {
    id.len() == 0 || vstd::utf8::encode_utf8(id).len() > 128
}

/// Whether a request to set the credits of many users is out of bounds.
pub open spec fn bad_bulk(request: BulkCreditSetRequest) -> bool {
    let ids = named_ids(request.user_ids@);
    ||| ids.len() == 0
    ||| ids.len() > 100
    ||| exists|id: Seq<char>| ids.contains(id) && #[trigger] bad_id(id)
    ||| !(0 <= request.credits <= 1_000_000_000)
    ||| bad_request_texts(request.reason@, request.request_id@)
}

/// Whether a plan is that of a request.
pub open spec fn is_plan(plan: BulkPlan, request: BulkCreditSetRequest) -> bool {
    &&& text::is_ordered(text::views(plan.user_ids@))
    &&& text::views(plan.user_ids@).to_set() == named_ids(request.user_ids@)
    &&& plan.credits == request.credits
    &&& plan.reason@ == text::trimmed(request.reason@)
    &&& plan.request_id@ == text::trimmed(request.request_id@)
}

/// Whether one of the identifiers is empty or too long.
fn has_bad_id(ids: &[String]) -> (r: bool)
    ensures
        r == exists|id: Seq<char>| text::views(ids@).contains(id) && #[trigger] bad_id(id),
{
    let mut i: usize = 0;
    while i < ids.len()
        invariant
            i <= ids@.len(),
            forall|j: int| 0 <= j < i ==> !bad_id((#[trigger] ids@[j])@),
        decreases ids@.len() - i,
    {
        if text::characters(ids[i].as_str()).len() == 0 || text::byte_len(ids[i].as_str()) > 128 {
            assert(text::views(ids@)[i as int] == ids@[i as int]@);
            assert(text::views(ids@).contains(ids@[i as int]@) && bad_id(ids@[i as int]@));
            return true;
        }
        i += 1;
    }
    assert forall|id: Seq<char>| text::views(ids@).contains(id) implies !#[trigger] bad_id(id) by {
        let j = choose|j: int| 0 <= j < ids@.len() && text::views(ids@)[j] == id;
        assert(ids@[j]@ == id);
    }
    false
}

/// Ordered texts are as many as they are different ones.
proof fn lemma_ordered_count(list: Seq<Seq<char>>)
    requires
        text::is_ordered(list),
    ensures
        list.to_set().len() == list.len(),
{
    assert forall|i: int, j: int| 0 <= i < list.len() && 0 <= j < list.len() && i != j implies
        list[i] != list[j] by {
        if i < j {
            assert(text::precedes(list[i], list[j]));
            text::order_is_irreflexive(list[i]);
        } else {
            assert(text::precedes(list[j], list[i]));
            text::order_is_irreflexive(list[i]);
        }
    }
    list.unique_seq_to_set();
}

/// The users, each once, in order, whose credits are set.
pub fn bulk_plan(request: &BulkCreditSetRequest) -> (r: AppResult<BulkPlan>)
    ensures
        if bad_bulk(*request) {
            model::refused(r, BAD_REQUEST, "批量积分参数无效"@)
        } else {
            r matches Ok(plan) && is_plan(plan, *request)
        },
{
    let user_ids = text::ordered_trimmed(&request.user_ids);
    proof {
        let named = Seq::new(
            request.user_ids@.len(),
            |i: int| text::trimmed(request.user_ids@[i]@),
        );
        let kept = text::views(user_ids@);
        assert forall|t: Seq<char>| #[trigger] kept.contains(t) <==> named.contains(t) by {
            if kept.contains(t) {
                let i = choose|i: int|
                    0 <= i < request.user_ids@.len() && text::trimmed(
                        (#[trigger] request.user_ids@[i])@,
                    ) == t;
                assert(named[i] == t);
            }
            if named.contains(t) {
                let i = choose|i: int| 0 <= i < named.len() && named[i] == t;
                assert(text::trimmed(request.user_ids@[i]@) == t);
            }
        }
        assert(kept.to_set() =~= named.to_set());
        lemma_ordered_count(kept);
        assert(kept.len() == user_ids@.len());
        assert forall|id: Seq<char>| kept.contains(id) <==> #[trigger] named_ids(
            request.user_ids@,
        ).contains(id) by {
            assert(kept.to_set().contains(id) <==> kept.contains(id));
        }
    }
    let too_many = user_ids.len() == 0 || user_ids.len() > 100;
    let strange = has_bad_id(&user_ids);
    if too_many || strange || request.credits < 0 || request.credits > 1_000_000_000
        || has_bad_texts(request.reason.as_str(), request.request_id.as_str()) {
        assert(strange ==> exists|id: Seq<char>|
            named_ids(request.user_ids@).contains(id) && #[trigger] bad_id(id)) by {
            if strange {
                let id = choose|id: Seq<char>|
                    text::views(user_ids@).contains(id) && #[trigger] bad_id(id);
                assert(named_ids(request.user_ids@).contains(id) && bad_id(id));
            }
        }
        return refuse(BAD_REQUEST, "批量积分参数无效");
    }
    Ok(
        BulkPlan {
            user_ids,
            credits: request.credits,
            reason: text::trim(request.reason.as_str()).to_owned(),
            request_id: text::trim(request.request_id.as_str()).to_owned(),
        },
    )
}

/// The reference under which a user's line of a request stands in the ledger.
pub open spec fn bulk_reference_text(request_id: Seq<char>, id: Seq<char>) -> Seq<char> {
    "admin-bulk:"@ + request_id + ":"@ + id
}

/// The reference under which a user's line of a request stands in the ledger.
pub fn bulk_reference(request_id: &str, id: &str) -> (r: String)
    ensures
        r@ == bulk_reference_text(request_id@, id@),
{
    let stem = text::concat3("admin-bulk:", request_id, ":");
    text::concat(stem.as_str(), id)
}

/// What is stored of one of the users: the ledger line that the request left before, as user and
/// balance, and the credits.
#[derive(Debug, PartialEq, Eq)]
pub struct BulkRow {
    pub user_id: String,
    pub earlier: Option<(String, i64)>,
    pub balance: Option<Balance>,
}

/// Why a user's credits cannot be set, if they cannot.
pub open spec fn row_refusal(row: BulkRow, credits: i64) -> Option<(u16, Seq<char>)> {
    match (row.earlier, row.balance) {
        (Some(entry), _) => if entry.0@ != row.user_id@ || entry.1 != credits {
            Some((CONFLICT, "请求流水号已被使用"@))
        } else {
            None
        },
        (None, None) => Some((NOT_FOUND, "用户不存在"@)),
        (None, Some(held)) => if credits < held.reserved {
            Some((CONFLICT, "统一积分不能低于用户已预扣积分"@))
        } else {
            None
        },
    }
}

/// Why the first of some users is refused, if any is: then nobody's credits are set.
pub open spec fn first_refusal(rows: Seq<BulkRow>, credits: i64, count: int) -> Option<
    (u16, Seq<char>),
>
    decreases count,
{
    if count <= 0 {
        None
    } else {
        match first_refusal(rows, credits, count - 1) {
            Some(refusal) => Some(refusal),
            None => row_refusal(rows[count - 1], credits),
        }
    }
}

/// The places, below a count, of the users for whom the request was not carried out before.
pub open spec fn fresh_places(rows: Seq<BulkRow>, count: int) -> Seq<int>
    decreases count,
{
    if count <= 0 {
        Seq::empty()
    } else if rows[count - 1].earlier is None {
        fresh_places(rows, count - 1).push(count - 1)
    } else {
        fresh_places(rows, count - 1)
    }
}

/// Whether a ledger line sets a user's credits to those of a plan.
pub open spec fn sets_credits(
    entry: LedgerEntry,
    row: BulkRow,
    plan: BulkPlan,
    admin_id: Seq<char>,
) -> bool {
    &&& row.balance matches Some(held)
    &&& is_change_entry(
        entry,
        row.user_id@,
        plan.credits - held.credits,
        plan.credits,
        plan.reason@,
        bulk_reference_text(plan.request_id@, row.user_id@),
        admin_id,
    )
}

/// Whether an audit is that of a plan.
pub open spec fn audits_plan(audit: AuditEntry, plan: BulkPlan, admin_id: Seq<char>) -> bool {
    &&& audits(audit, admin_id, "bulk_set_credits"@, "users"@, plan.request_id@)
    &&& audit.detail matches AuditDetail::CreditsSet { user_ids, credits, reason }
    &&& text::views(user_ids@) == text::views(plan.user_ids@)
    &&& credits == plan.credits
    &&& reason@ == plan.reason@
}

/// What changes when the credits of many users are set: the ledger lines, each of which says
/// whose credits change to which balance, and the audit, if anything changes.
#[derive(Debug, PartialEq, Eq)]
pub struct BulkChange {
    pub entries: Vec<LedgerEntry>,
    pub audit: Option<AuditEntry>,
}

/// Whether a change is that of a plan.
pub open spec fn is_bulk_change(
    change: BulkChange,
    rows: Seq<BulkRow>,
    plan: BulkPlan,
    admin_id: Seq<char>,
) -> bool {
    let places = fresh_places(rows, rows.len() as int);
    &&& change.entries@.len() == places.len()
    &&& forall|i: int|
        0 <= i < places.len() ==> sets_credits(
            #[trigger] change.entries@[i],
            rows[places[i]],
            plan,
            admin_id,
        )
    &&& match change.audit {
        Some(audit) => places.len() > 0 && audits_plan(audit, plan, admin_id),
        None => places.len() == 0,
    }
}

/// Whether a user's credits are to be changed, and the change is too large for a ledger line.
pub open spec fn delta_overflows(row: BulkRow, credits: i64) -> bool {
    &&& row.earlier is None
    &&& row.balance matches Some(held) && credits >= held.reserved && !(i64::MIN <= credits
        - held.credits <= i64::MAX)
}

/// Whether no change of credits that comes before a refusal is too large for a ledger line.
pub open spec fn deltas_fit(rows: Seq<BulkRow>, credits: i64) -> bool {
    forall|i: int|
        0 <= i < rows.len() && #[trigger] first_refusal(rows, credits, i) is None
            ==> !delta_overflows(rows[i], credits)
}

/// Sets the credits of many users, all or none. A user for whom the request was carried out
/// before is passed over.
pub fn bulk_set_credits(admin_id: &str, plan: &BulkPlan, rows: &[BulkRow]) -> (r: AppResult<
    BulkChange,
>)
    requires
        deltas_fit(rows@, plan.credits),
    ensures
        model::answers(r, first_refusal(rows@, plan.credits, rows@.len() as int)),
        r matches Ok(change) ==> is_bulk_change(change, rows@, *plan, admin_id@),
{
    let mut entries: Vec<LedgerEntry> = Vec::new();
    let mut i: usize = 0;
    while i < rows.len()
        invariant
            i <= rows@.len(),
            deltas_fit(rows@, plan.credits),
            first_refusal(rows@, plan.credits, i as int) is None,
            entries@.len() == fresh_places(rows@, i as int).len(),
            forall|j: int|
                0 <= j < entries@.len() ==> sets_credits(
                    #[trigger] entries@[j],
                    rows@[fresh_places(rows@, i as int)[j]],
                    *plan,
                    admin_id@,
                ),
        decreases rows@.len() - i,
    {
        let row = &rows[i];
        let refused: Option<(u16, &str)> = match (&row.earlier, &row.balance) {
            (Some(entry), _) => if !text::same(entry.0.as_str(), row.user_id.as_str()) || entry.1
                != plan.credits {
                Some((CONFLICT, "请求流水号已被使用"))
            } else {
                None
            },
            (None, None) => Some((NOT_FOUND, "用户不存在")),
            (None, Some(held)) => if plan.credits < held.reserved {
                Some((CONFLICT, "统一积分不能低于用户已预扣积分"))
            } else {
                entries.push(
                    change_entry(
                        row.user_id.as_str(),
                        plan.credits - held.credits,
                        plan.credits,
                        plan.reason.as_str(),
                        bulk_reference(plan.request_id.as_str(), row.user_id.as_str()),
                        admin_id,
                    ),
                );
                None
            },
        };
        match refused {
            Some((status, message)) => {
                proof {
                    lemma_refusal_stays(rows@, plan.credits, i + 1, rows@.len() as int);
                }
                return refuse(status, message);
            },
            None => {},
        }
        i += 1;
    }
    let audit = if entries.len() > 0 {
        let detail = AuditDetail::CreditsSet {
            user_ids: text::copies(&plan.user_ids),
            credits: plan.credits,
            reason: plan.reason.clone(),
        };
        Some(
            write_audit(admin_id, "bulk_set_credits", "users", plan.request_id.as_str(), detail),
        )
    } else {
        None
    };
    Ok(BulkChange { entries, audit })
}

/// A refusal among the first users stays the first among more of them.
proof fn lemma_refusal_stays(rows: Seq<BulkRow>, credits: i64, count: int, more: int)
    requires
        count <= more,
        first_refusal(rows, credits, count) is Some,
    ensures
        first_refusal(rows, credits, more) == first_refusal(rows, credits, count),
    decreases more - count,
{
    if count < more {
        lemma_refusal_stays(rows, credits, count, more - 1);
    }
}

/// Setting the credits of many users twice under one number changes nothing the second time:
/// with the ledger lines of the first time in place no user is refused and none changes.
pub proof fn bulk_changes_happen_once(after: Seq<BulkRow>, credits: i64, count: int)
    requires
        0 <= count <= after.len(),
        forall|i: int|
            0 <= i < after.len() ==> ((#[trigger] after[i]).earlier matches Some(entry) && entry.0@
                == after[i].user_id@ && entry.1 == credits),
    ensures
        first_refusal(after, credits, count) is None,
        fresh_places(after, count) == Seq::<int>::empty(),
    decreases count,
{
    if count > 0 {
        bulk_changes_happen_once(after, credits, count - 1);
        assert(after[count - 1].earlier is Some);
    }
}

/// Setting the credits of many users leaves what each of them has reserved covered.
pub proof fn bulk_changes_keep_balances_covered(
    rows: Seq<BulkRow>,
    credits: i64,
    count: int,
    i: int,
)
    requires
        0 <= i < count <= rows.len(),
        first_refusal(rows, credits, count) is None,
        rows[i].earlier is None,
    ensures
        rows[i].balance matches Some(held) && (held.covered() ==> (Balance {
            credits,
            reserved: held.reserved,
        }).covered()),
    decreases count,
{
    if i < count - 1 {
        bulk_changes_keep_balances_covered(rows, credits, count - 1, i);
    }
}

/// Whose whereabouts an administrator asks for.
#[derive(Debug, PartialEq, Eq)]
pub struct IpLocationQuery {
    pub ip: String,
}

/// The address that is looked up, where the text that was given is one.
pub fn looked_up_ip(address: Option<String>) -> (r: AppResult<String>)
    ensures
        match address {
            Some(ip) => r == Ok::<String, AppError>(ip),
            None => model::refused(r, BAD_REQUEST, "IP 地址无效"@),
        },
{
    match address {
        Some(ip) => Ok(ip),
        None => refuse(BAD_REQUEST, "IP 地址无效"),
    }
}

/// Where the whereabouts of an address are asked for.
pub fn lookup_url(ip: &str) -> (r: String)
    ensures
        r@ == "https://ipwho.is/"@ + ip@,
{
    text::concat("https://ipwho.is/", ip)
}

/// What the lookup service says of an address.
#[derive(Debug, PartialEq, Eq)]
pub struct IpWhoResponse {
    pub success: bool,
    pub message: String,
    pub country: String,
    pub region: String,
    pub city: String,
    pub isp: Option<String>,
}

/// How a lookup ended.
#[derive(Debug, PartialEq, Eq)]
pub enum Lookup {
    TimedOut,
    Failed,
    Answered(IpWhoResponse),
}

/// Where an address is, and who runs its network.
#[derive(Debug, PartialEq, Eq)]
pub struct IpLocation {
    pub location: String,
    pub isp: String,
}

/// The first `count` parts, without the empty ones and without those that came before.
pub open spec fn distinct_parts(parts: Seq<Seq<char>>, count: int) -> Seq<Seq<char>>
    decreases count,
{
    if count <= 0 {
        Seq::empty()
    } else {
        let before = distinct_parts(parts, count - 1);
        let part = parts[count - 1];
        if part.len() == 0 || before.contains(part) {
            before
        } else {
            before.push(part)
        }
    }
}

/// The parts of a place, from the largest to the smallest.
pub open spec fn place_of(found: IpWhoResponse) -> Seq<Seq<char>> {
    distinct_parts(seq![found.country@, found.region@, found.city@], 3)
}

/// Why a lookup gives no place, if it gives none.
pub open spec fn lookup_refusal(outcome: Lookup) -> Option<(u16, Seq<char>)> {
    match outcome {
        Lookup::TimedOut => Some((GATEWAY_TIMEOUT, "IP 地区查询超时"@)),
        Lookup::Failed => Some((BAD_GATEWAY, "IP 地区查询失败"@)),
        Lookup::Answered(found) => if !found.success {
            Some(
                (
                    BAD_GATEWAY,
                    if found.message@.len() == 0 {
                        "IP 地区查询失败"@
                    } else {
                        found.message@
                    },
                ),
            )
        } else if place_of(found).len() == 0 {
            Some((BAD_GATEWAY, "未查询到 IP 地区"@))
        } else {
            None
        },
    }
}

/// Adds a part of a place, unless it is empty or there already.
fn add_part(parts: &mut Vec<String>, part: String)
    ensures
        text::views(final(parts)@) == if part@.len() == 0 || text::views(old(parts)@).contains(
            part@,
        ) {
            text::views(old(parts)@)
        } else {
            text::views(old(parts)@).push(part@)
        },
{
    if text::characters(part.as_str()).len() == 0 {
        return;
    }
    let mut i: usize = 0;
    while i < parts.len()
        invariant
            i <= parts@.len(),
            parts@ == old(parts)@,
            part@.len() > 0,
            forall|j: int| 0 <= j < i ==> text::views(parts@)[j] != part@,
        decreases parts@.len() - i,
    {
        if text::same(parts[i].as_str(), part.as_str()) {
            assert(text::views(parts@)[i as int] == part@);
            return;
        }
        i += 1;
    }
    assert(!text::views(parts@).contains(part@));
    parts.push(part);
    assert(text::views(parts@) == text::views(old(parts)@).push(part@));
}

/// Where an address is, by what a lookup gave.
pub fn ip_location(outcome: Lookup) -> (r: AppResult<IpLocation>)
    ensures
        model::answers(r, lookup_refusal(outcome)),
        r matches Ok(place) ==> {
            &&& outcome matches Lookup::Answered(found)
            &&& place.location@ == text::joined(place_of(found), " · "@)
            &&& place.isp@ == given_text(found.isp)
        },
{
    let found = match outcome {
        Lookup::TimedOut => {
            return refuse(GATEWAY_TIMEOUT, "IP 地区查询超时");
        },
        Lookup::Failed => {
            return refuse(BAD_GATEWAY, "IP 地区查询失败");
        },
        Lookup::Answered(found) => found,
    };
    if !found.success {
        if text::characters(found.message.as_str()).len() == 0 {
            return refuse(BAD_GATEWAY, "IP 地区查询失败");
        }
        return Err(AppError(BAD_GATEWAY, found.message));
    }
    let ghost all = seq![found.country@, found.region@, found.city@];
    let mut parts: Vec<String> = Vec::new();
    proof {
        reveal_with_fuel(distinct_parts, 4);
        assert(text::views(parts@) =~= distinct_parts(all, 0));
    }
    add_part(&mut parts, found.country);
    assert(text::views(parts@) == distinct_parts(all, 1));
    add_part(&mut parts, found.region);
    assert(text::views(parts@) == distinct_parts(all, 2));
    add_part(&mut parts, found.city);
    assert(text::views(parts@) == distinct_parts(all, 3));
    if parts.len() == 0 {
        return refuse(BAD_GATEWAY, "未查询到 IP 地区");
    }
    let isp = match found.isp {
        Some(given) => given,
        None => "".to_owned(),
    };
    Ok(IpLocation { location: text::join(&parts, " · "), isp })
}

/// What an administrator sets for the whole system.
#[derive(Clone, Copy, Debug, PartialEq, Eq, Structural)]
pub struct UpdateSettingsRequest {
    pub registration_credits: i64,
    pub default_daily_limit: i64,
}

/// The settings of the whole system, when they were changed, and the audit of it.
#[derive(Debug, PartialEq, Eq)]
pub struct SettingsChange {
    pub settings: UpdateSettingsRequest,
    pub updated_at: String,
    pub audit: AuditEntry,
}

/// Whether settings are within their bounds.
pub open spec fn settings_allowed(request: UpdateSettingsRequest) -> bool {
    &&& 0 <= request.registration_credits <= 1_000_000
    &&& 1 <= request.default_daily_limit <= 1_000_000
}

/// Changes the settings of the whole system.
pub fn update_settings(admin_id: &str, request: UpdateSettingsRequest) -> (r: AppResult<
    SettingsChange,
>)
    ensures
        if settings_allowed(request) {
            &&& r matches Ok(change)
            &&& change.settings == request
            &&& is_timestamp(change.updated_at@)
            &&& audits(
                change.audit,
                admin_id@,
                "update_settings"@,
                "system_settings"@,
                "global"@,
            )
            &&& change.audit.detail == (AuditDetail::SettingsUpdated {
                registration_credits: request.registration_credits,
                default_daily_limit: request.default_daily_limit,
            })
        } else {
            model::refused(r, BAD_REQUEST, "系统配置无效"@)
        },
{
    if request.registration_credits < 0 || request.registration_credits > 1_000_000
        || request.default_daily_limit < 1 || request.default_daily_limit > 1_000_000 {
        return refuse(BAD_REQUEST, "系统配置无效");
    }
    let updated_at = present();
    let detail = AuditDetail::SettingsUpdated {
        registration_credits: request.registration_credits,
        default_daily_limit: request.default_daily_limit,
    };
    let audit = write_audit(admin_id, "update_settings", "system_settings", "global", detail);
    Ok(SettingsChange { settings: request, updated_at, audit })
}

/// What tells whether an API key is kept as plain text and still works.
#[derive(Debug, PartialEq, Eq)]
pub struct KeyStatus {
    pub id: String,
    pub is_legacy: bool,
    pub status: String,
}

/// Whether a key is kept as plain text and still works.
pub open spec fn is_exposed(key: KeyStatus) -> bool {
    key.is_legacy && key.status@ == "active"@
}

/// How many of the first `count` keys are exposed.
pub open spec fn exposed_count(keys: Seq<KeyStatus>, count: int) -> int
    decreases count,
{
    if count <= 0 {
        0
    } else {
        exposed_count(keys, count - 1) + if is_exposed(keys[count - 1]) {
            1int
        } else {
            0int
        }
    }
}

/// How many keys are kept as plain text and still work.
pub fn legacy_api_keys(keys: &[KeyStatus]) -> (r: usize)
    ensures
        r == exposed_count(keys@, keys@.len() as int),
{
    let mut exposed: usize = 0;
    let mut i: usize = 0;
    while i < keys.len()
        invariant
            i <= keys@.len(),
            exposed <= i,
            exposed == exposed_count(keys@, i as int),
        decreases keys@.len() - i,
    {
        if keys[i].is_legacy && text::same(keys[i].status.as_str(), "active") {
            exposed += 1;
        }
        i += 1;
    }
    exposed
}

/// Whether a key is what revoking the exposed keys leaves of another.
pub open spec fn is_after_revocation(after: KeyStatus, before: KeyStatus) -> bool {
    if is_exposed(before) {
        &&& after.id@ == before.id@
        &&& after.is_legacy
        &&& after.status@ == "revoked"@
    } else {
        after == before
    }
}

/// Revokes every key that is kept as plain text: whoever reads the database, or an old copy of
/// it, could use such a key. Gives the keys, how many were revoked, and the audit of it.
pub fn revoke_legacy_api_keys(admin_id: &str, keys: Vec<KeyStatus>) -> (r: (
    Vec<KeyStatus>,
    usize,
    AuditEntry,
))
    ensures
        r.0@.len() == keys@.len(),
        forall|i: int|
            0 <= i < keys@.len() ==> is_after_revocation(#[trigger] r.0@[i], keys@[i]),
        r.1 == exposed_count(keys@, keys@.len() as int),
        audits(r.2, admin_id@, "revoke_legacy_api_keys"@, "api_keys"@, "legacy"@),
        r.2.detail == (AuditDetail::LegacyKeysRevoked { revoked: r.1 }),
{
    let revoked: usize = legacy_api_keys(&keys);
    let mut after: Vec<KeyStatus> = Vec::new();
    for key in iter: keys
        invariant
            iter.seq() == keys@,
            after@.len() == iter.index(),
            forall|j: int|
                0 <= j < iter.index() ==> is_after_revocation(#[trigger] after@[j], keys@[j]),
    {
        if key.is_legacy && text::same(key.status.as_str(), "active") {
            after.push(KeyStatus { id: key.id, is_legacy: true, status: "revoked".to_owned() });
        } else {
            after.push(key);
        }
    }
    let detail = AuditDetail::LegacyKeysRevoked { revoked };
    let audit = write_audit(admin_id, "revoke_legacy_api_keys", "api_keys", "legacy", detail);
    (after, revoked, audit)
}

/// After the exposed keys were revoked none is left, so that doing it again revokes none.
pub proof fn revocation_leaves_no_exposed_keys(
    before: Seq<KeyStatus>,
    after: Seq<KeyStatus>,
    count: int,
)
    requires
        0 <= count <= before.len(),
        before.len() == after.len(),
        forall|i: int|
            0 <= i < before.len() ==> is_after_revocation(#[trigger] after[i], before[i]),
    ensures
        exposed_count(after, count) == 0,
    decreases count,
{
    if count > 0 {
        revocation_leaves_no_exposed_keys(before, after, count - 1);
        let key = after[count - 1];
        assert(is_after_revocation(key, before[count - 1]));
        reveal_strlit("active");
        reveal_strlit("revoked");
        assert("active"@.len() != "revoked"@.len());
    }
}

/// A new provider of the system, active if it is the first, with the audit of it.
pub fn create_provider(
    admin_id: &str,
    request: &CreateProviderRequest,
    master_key: &[u8; 32],
    is_first: bool,
) -> (r: AppResult<(NewProvider, AuditEntry)>)
    ensures
        model::answers(r, account::provider_refusal(*request)),
        r matches Ok(made) ==> {
            &&& account::is_new_provider(made.0, *request, master_key@, is_first)
            &&& audits(made.1, admin_id@, "create_provider"@, "provider"@, made.0.provider.id@)
            &&& made.1.detail matches AuditDetail::ProviderCreated { name, base_url }
            &&& name@ == made.0.provider.name@
            &&& base_url@ == made.0.provider.base_url@
        },
{
    let new = match account::create_provider(request, master_key, is_first) {
        Ok(new) => new,
        Err(error) => {
            return Err(error);
        },
    };
    let detail = AuditDetail::ProviderCreated {
        name: new.provider.name.clone(),
        base_url: new.provider.base_url.clone(),
    };
    let audit = write_audit(
        admin_id,
        "create_provider",
        "provider",
        new.provider.id.as_str(),
        detail,
    );
    Ok((new, audit))
}

/// Makes a provider of the system the active one, with the audit of it.
pub fn activate_provider(admin_id: &str, slots: Vec<ProviderSlot>, id: &str) -> (r: AppResult<
    (Vec<ProviderSlot>, AuditEntry),
>)
    ensures
        if account::has_provider(slots@, id@) {
            &&& r matches Ok(change)
            &&& account::is_activated(slots@, change.0@, id@)
            &&& account::one_active(change.0@)
            &&& audits(change.1, admin_id@, "activate_provider"@, "provider"@, id@)
            &&& change.1.detail == AuditDetail::Plain
        } else {
            model::refused(r, NOT_FOUND, "调用方不存在"@)
        },
{
    match account::activate_provider(slots, id) {
        Ok(after) => {
            let audit = write_audit(
                admin_id,
                "activate_provider",
                "provider",
                id,
                AuditDetail::Plain,
            );
            Ok((after, audit))
        },
        Err(error) => Err(error),
    }
}

/// Takes a provider of the system out, with the audit of it.
pub fn delete_provider(admin_id: &str, slots: Vec<ProviderSlot>, id: &str) -> (r: AppResult<
    (Vec<ProviderSlot>, AuditEntry),
>)
    ensures
        if account::has_provider(slots@, id@) {
            &&& r matches Ok(change)
            &&& account::is_deleted(slots@, change.0@, id@)
            &&& audits(change.1, admin_id@, "delete_provider"@, "provider"@, id@)
            &&& change.1.detail == AuditDetail::Plain
        } else {
            model::refused(r, NOT_FOUND, "调用方不存在"@)
        },
{
    match account::delete_provider(slots, id) {
        Ok(after) => {
            let audit = write_audit(
                admin_id,
                "delete_provider",
                "provider",
                id,
                AuditDetail::Plain,
            );
            Ok((after, audit))
        },
        Err(error) => Err(error),
    }
}

/// What an administrator announces.
#[derive(Debug, PartialEq, Eq)]
pub struct AnnouncementRequest {
    pub title: String,
    pub content: String,
    pub date: Option<String>,
    pub kind: String,
    pub is_new: Option<bool>,
}

/// Whether an announcement is refused.
pub open spec fn bad_announcement(request: AnnouncementRequest) -> bool {
    ||| text::trimmed(request.title@).len() == 0
    ||| vstd::utf8::encode_utf8(request.title@).len() > 120
    ||| text::trimmed(request.content@).len() == 0
    ||| vstd::utf8::encode_utf8(request.content@).len() > 5000
    ||| request.kind@ != "feature"@ && request.kind@ != "system"@ && request.kind@ != "update"@
    ||| (request.date matches Some(date) && vstd::utf8::encode_utf8(date@).len() != 10)
}

/// Whether what is announced is in order.
pub fn validate_announcement(request: &AnnouncementRequest) -> (r: AppResult<()>)
    ensures
        if bad_announcement(*request) {
            model::refused(r, BAD_REQUEST, "公告参数无效"@)
        } else {
            r is Ok
        },
{
    let kind = request.kind.as_str();
    let strange_date = match &request.date {
        Some(date) => text::byte_len(date.as_str()) != 10,
        None => false,
    };
    if text::characters(text::trim(request.title.as_str())).len() == 0 || text::byte_len(
        request.title.as_str(),
    ) > 120 || text::characters(text::trim(request.content.as_str())).len() == 0 || text::byte_len(
        request.content.as_str(),
    ) > 5000 || !(text::same(kind, "feature") || text::same(kind, "system") || text::same(
        kind,
        "update",
    )) || strange_date {
        return refuse(BAD_REQUEST, "公告参数无效");
    }
    Ok(())
}

/// A stored announcement.
#[derive(Debug, PartialEq, Eq)]
pub struct Announcement {
    pub id: String,
    pub title: String,
    pub content: String,
    pub date: String,
    pub kind: String,
    pub is_new: bool,
}

/// Whether a text is the date of some moment.
pub open spec fn is_date(value: Seq<char>) -> bool {
    exists|now: Moment|
        now.representable() && value == #[trigger] clock::date_text(
            now.secs as int,
            now.nanos as int,
        )
}

/// Whether an announcement is what was asked for: dated today and marked as new unless the
/// request says otherwise.
pub open spec fn is_announcement(stored: Announcement, request: AnnouncementRequest) -> bool {
    &&& stored.title@ == text::trimmed(request.title@)
    &&& stored.content@ == text::trimmed(request.content@)
    &&& stored.kind@ == request.kind@
    &&& stored.is_new == match request.is_new {
        Some(is_new) => is_new,
        None => true,
    }
    &&& match request.date {
        Some(date) => stored.date@ == date@,
        None => is_date(stored.date@),
    }
}

/// The announcement that was asked for, under an identifier.
fn announcement(id: String, request: &AnnouncementRequest) -> (r: Announcement)
    ensures
        r.id == id,
        is_announcement(r, *request),
{
    let date = match &request.date {
        Some(given) => given.clone(),
        None => clock::date(clock::utc_now()),
    };
    let is_new = match request.is_new {
        Some(given) => given,
        None => true,
    };
    Announcement {
        id,
        title: text::trim(request.title.as_str()).to_owned(),
        content: text::trim(request.content.as_str()).to_owned(),
        date,
        kind: request.kind.clone(),
        is_new,
    }
}

/// Whether an audit is that of an announcement.
pub open spec fn audits_announcement(
    audit: AuditEntry,
    admin_id: Seq<char>,
    action: Seq<char>,
    stored: Announcement,
) -> bool {
    &&& audits(audit, admin_id, action, "announcement"@, stored.id@)
    &&& audit.detail matches AuditDetail::Announced { title }
    &&& title@ == stored.title@
}

/// A new announcement, with the audit of it.
pub fn create_announcement(admin_id: &str, request: &AnnouncementRequest) -> (r: AppResult<
    (Announcement, AuditEntry),
>)
    ensures
        if bad_announcement(*request) {
            model::refused(r, BAD_REQUEST, "公告参数无效"@)
        } else {
            &&& r matches Ok(made)
            &&& token::is_identifier(made.0.id@, "ann-"@)
            &&& is_announcement(made.0, *request)
            &&& audits_announcement(made.1, admin_id@, "create_announcement"@, made.0)
        },
{
    match validate_announcement(request) {
        Ok(()) => {},
        Err(error) => {
            return Err(error);
        },
    }
    let stored = announcement(token::fresh_identifier("ann-"), request);
    let detail = AuditDetail::Announced { title: stored.title.clone() };
    let audit = write_audit(
        admin_id,
        "create_announcement",
        "announcement",
        stored.id.as_str(),
        detail,
    );
    Ok((stored, audit))
}

/// An announcement as it is after a change, with the audit of it; `found` says whether there is
/// one under the identifier.
pub fn update_announcement(
    admin_id: &str,
    id: &str,
    request: &AnnouncementRequest,
    found: bool,
) -> (r: AppResult<(Announcement, AuditEntry)>)
    ensures
        if bad_announcement(*request) {
            model::refused(r, BAD_REQUEST, "公告参数无效"@)
        } else if !found {
            model::refused(r, NOT_FOUND, "公告不存在"@)
        } else {
            &&& r matches Ok(made)
            &&& made.0.id@ == id@
            &&& is_announcement(made.0, *request)
            &&& audits_announcement(made.1, admin_id@, "update_announcement"@, made.0)
        },
{
    match validate_announcement(request) {
        Ok(()) => {},
        Err(error) => {
            return Err(error);
        },
    }
    if !found {
        return refuse(NOT_FOUND, "公告不存在");
    }
    let stored = announcement(id.to_owned(), request);
    let detail = AuditDetail::Announced { title: stored.title.clone() };
    let audit = write_audit(admin_id, "update_announcement", "announcement", id, detail);
    Ok((stored, audit))
}

/// The audit of deleting an announcement; `changed` says how many were deleted.
pub fn delete_announcement(admin_id: &str, id: &str, changed: usize) -> (r: AppResult<AuditEntry>)
    ensures
        if changed == 0 {
            model::refused(r, NOT_FOUND, "公告不存在"@)
        } else {
            &&& r matches Ok(audit)
            &&& audits(audit, admin_id@, "delete_announcement"@, "announcement"@, id@)
            &&& audit.detail == AuditDetail::Plain
        },
{
    if changed == 0 {
        return refuse(NOT_FOUND, "公告不存在");
    }
    Ok(write_audit(admin_id, "delete_announcement", "announcement", id, AuditDetail::Plain))
}

/// Only administrators are let in, and as themselves.
pub proof fn only_administrators_are_let_in(
    user: UserResponse,
    is_admin: Option<bool>,
    r: AppResult<UserResponse>,
)
    requires
        call_ensures(admin_user, (user, is_admin), r),
    ensures
        r is Ok <==> is_admin is Some && is_admin->0,
        r is Ok ==> r->Ok_0 == user,
        r matches Err(error) ==> error.0 == 403,
{
}

/// An action is written down with who did it, what it was, and to what.
pub proof fn actions_are_written_down(
    admin_id: &str,
    action: &str,
    target_type: &str,
    target_id: &str,
    detail: AuditDetail,
    r: AuditEntry,
)
    requires
        call_ensures(write_audit, (admin_id, action, target_type, target_id, detail), r),
    ensures
        r.admin_user_id@ == admin_id@,
        r.action@ == action@,
        r.target_type@ == target_type@,
        r.target_id@ == target_id@,
        r.detail == detail,
        token::is_identifier(r.id@, "audit-"@),
{
}

/// The overview shows the last fourteen days, each from midnight to midnight, up to today; it
/// counts a month back and five minutes back.
pub proof fn overviews_look_back(now: Moment, r: Option<OverviewTimes>, i: int)
    requires
        call_ensures(overview, (now,), r),
        r is Some,
        0 <= i < 14,
    ensures
        r->0.days@.len() == 14,
        r->0.month_start@ == clock::date_text(now.secs - 29 * 24 * 60 * 60, now.nanos as int),
        r->0.online_cutoff@ == clock::rfc3339_text(now.secs - 5 * 60, now.nanos as int),
        exists|start: int|
            {
                &&& r->0.days@[i].start@ == #[trigger] clock::rfc3339_text(start, 0)
                &&& r->0.days@[i].end@ == clock::rfc3339_text(start + 24 * 60 * 60, 0)
                &&& start % 86_400 == 0
                &&& start <= now.secs - (13 - i) * 86_400 < start + 86_400
            },
        r->0.days@[i].date@ == clock::date_text(now.secs - (13 - i) * 86_400, now.nanos as int),
{
    let secs = now.secs - (13 - i) * 86_400;
    let start = secs - secs % 86_400;
    assert(is_day_before(r->0.days@[i], now, 13 - i));
    assert(start % 86_400 == 0) by (nonlinear_arith)
        requires
            start == secs - secs % 86_400,
    ;
    assert(r->0.days@[i].start@ == clock::rfc3339_text(start, 0));
}

/// Whether a search looks for a text, whatever the case of its letters, anywhere in a line.
pub open spec fn looks_for(found: Search, q: Option<String>, status: Option<String>) -> bool {
    &&& q is Some ==> found.search@ == text::lowercase(text::trimmed(q->0@))
    &&& found.pattern@ == "%"@ + found.search@ + "%"@
    &&& status is Some ==> found.status@ == status->0@
    &&& status is None ==> found.status@.len() == 0
}

/// Users are searched by text and by one of their two states, twenty on a page.
pub proof fn users_are_searched_as_asked(query: &UserQuery, page: Page, r: AppResult<Search>)
    requires
        call_ensures(paging::page_of, (query.page, query.page_size, 20), page),
        call_ensures(list_users, (query,), r),
    ensures
        r is Ok <==> query.status is None || query.status->0@.len() == 0 || query.status->0@
            == "active"@ || query.status->0@ == "disabled"@,
        r matches Err(error) ==> error.0 == 400,
        r matches Ok(found) ==> looks_for(found, query.q, query.status) && found.page == page,
{
    reveal_strlit("");
}

/// Calls are searched by text and by one of their two outcomes, thirty on a page.
pub proof fn calls_are_searched_as_asked(query: &UsageLogQuery, page: Page, r: AppResult<Search>)
    requires
        call_ensures(paging::page_of, (query.page, query.page_size, 30), page),
        call_ensures(list_usage_logs, (query,), r),
    ensures
        r is Ok <==> query.status is None || query.status->0@.len() == 0 || query.status->0@
            == "success"@ || query.status->0@ == "error"@,
        r matches Err(error) ==> error.0 == 400,
        r matches Ok(found) ==> looks_for(found, query.q, query.status) && found.page == page,
{
    reveal_strlit("");
}

/// The ledger is shown of the user who is named, or of all, thirty lines on a page.
pub proof fn ledgers_are_shown_as_asked(query: &LedgerQuery, page: Page, r: LedgerSearch)
    requires
        call_ensures(paging::page_of, (query.page, query.page_size, 30), page),
        call_ensures(list_credit_ledger, (query,), r),
    ensures
        query.user_id is Some ==> r.user_id@ == query.user_id->0@,
        query.user_id is None ==> r.user_id@.len() == 0,
        r.page == page,
{
    reveal_strlit("");
}

/// The image of a call is found under its identifier.
pub proof fn images_of_calls_are_found(image_id: &Option<String>, r: Option<String>)
    requires
        call_ensures(usage_image_url, (image_id,), r),
    ensures
        r is Some <==> *image_id is Some,
        r is Some ==> r->0@ == "/api/admin/images/"@ + (*image_id)->0@ + "/file"@,
{
}

/// An administrator is handed any image that is there, and no cache keeps it.
pub proof fn administrators_see_every_image(file_name: Option<String>, r: AppResult<ServePlan>)
    requires
        call_ensures(image_file, (file_name,), r),
    ensures
        r is Ok <==> file_name is Some,
        r matches Err(error) ==> error.0 == 404,
        r matches Ok(plan) ==> plan.source@ == file_name->0@ && plan.etag_key@ == file_name->0@
            && plan.thumbnail is None && plan.cache_control@
            == "private, max-age=0, must-revalidate"@,
{
}

/// Available is what is not reserved: both together are all the credits.
pub proof fn available_and_reserved_are_all(credits: i64, reserved: i64, r: i64)
    requires
        i64::MIN <= credits - reserved <= i64::MAX,
        call_ensures(available_credits, (credits, reserved), r),
    ensures
        r + reserved == credits,
{
}

/// A user is shown where there is one.
pub proof fn users_are_shown_as_stored(record: Option<UserRecord>, r: AppResult<UserRecord>)
    requires
        call_ensures(get_user, (record,), r),
    ensures
        r is Ok <==> record is Some,
        r is Ok ==> r->Ok_0 == record->0,
        r matches Err(error) ==> error.0 == 404,
{
}

/// A provider is the system's or its user's.
pub proof fn providers_have_a_source(is_global: bool, r: &'static str)
    requires
        call_ensures(provider_source, (is_global,), r),
    ensures
        is_global ==> r@ == "system"@,
        !is_global ==> r@ == "user"@,
{
}

/// A user's settings become what is asked for, and stay what they were where nothing is asked;
/// they are refused exactly where they are out of bounds or where administrators would shut
/// themselves out.
pub proof fn users_become_what_is_asked(
    admin_id: &str,
    id: &str,
    held: UserSettings,
    request: UpdateUserRequest,
    r: AppResult<(UserSettings, AuditEntry)>,
)
    requires
        call_ensures(update_user, (admin_id, id, Some(held), request), r),
    ensures
        ({
            let status = if request.status is Some { request.status->0@ } else { held.status@ };
            let plan = text::trimmed(
                if request.plan is Some {
                    request.plan->0@
                } else {
                    held.plan@
                },
            );
            let limit = if request.daily_limit is Some {
                request.daily_limit->0
            } else {
                held.daily_limit
            };
            let is_admin = if request.is_admin is Some {
                request.is_admin->0
            } else {
                held.is_admin
            };
            let proper = {
                &&& status == "active"@ || status == "disabled"@
                &&& plan.len() > 0
                &&& vstd::utf8::encode_utf8(plan).len() <= 40
                &&& 1 <= limit <= 1_000_000
            };
            &&& r is Ok <==> proper && (id@ == admin_id@ ==> status == "active"@ && is_admin)
            &&& r is Err && !proper ==> r->Err_0.0 == 400
            &&& r is Err && proper ==> r->Err_0.0 == 409
            &&& r matches Ok(change) ==> {
                &&& change.0.status@ == status
                &&& change.0.plan@ == plan
                &&& change.0.daily_limit == limit
                &&& change.0.is_admin == is_admin
                &&& change.1.admin_user_id@ == admin_id@
                &&& change.1.action@ == "update_user"@
                &&& change.1.target_type@ == "user"@
                &&& change.1.target_id@ == id@
            }
        }),
{
}

/// A user who is not there cannot be changed.
pub proof fn strangers_cannot_be_changed(
    admin_id: &str,
    id: &str,
    request: UpdateUserRequest,
    r: AppResult<(UserSettings, AuditEntry)>,
)
    requires
        call_ensures(update_user, (admin_id, id, None, request), r),
    ensures
        r is Err,
        r->Err_0.0 == 404,
{
}

/// Whether the reason and the number of a request have a proper length.
pub open spec fn has_proper_texts(reason: Seq<char>, request_id: Seq<char>) -> bool {
    &&& 2 <= vstd::utf8::encode_utf8(text::trimmed(reason)).len() <= 200
    &&& 8 <= vstd::utf8::encode_utf8(text::trimmed(request_id)).len() <= 128
}

/// A first adjustment goes through exactly where it is within bounds, the user is there, and the
/// balance stays whole and covers what is reserved; the ledger and the audit log say so.
pub proof fn credits_change_by_what_is_asked(
    admin_id: &str,
    id: &str,
    request: &CreditAdjustmentRequest,
    balance: Option<Balance>,
    r: AppResult<Adjustment>,
)
    requires
        call_ensures(adjust_credits, (admin_id, id, request, None, balance), r),
    ensures
        r is Ok <==> {
            &&& request.delta != 0
            &&& -1_000_000_000 <= request.delta <= 1_000_000_000
            &&& has_proper_texts(request.reason@, request.request_id@)
            &&& balance is Some
            &&& balance->0.credits + request.delta <= i64::MAX
            &&& balance->0.credits + request.delta >= balance->0.reserved
            &&& balance->0.credits + request.delta >= 0
        },
        r matches Ok(outcome) ==> match outcome {
            Adjustment::Repeated(_) => false,
            Adjustment::Changed { credits, entry, audit } => {
                &&& credits == balance->0.credits + request.delta
                &&& entry.user_id@ == id@
                &&& entry.delta == request.delta
                &&& entry.balance_after == credits
                &&& entry.reason@ == text::trimmed(request.reason@)
                &&& entry.reference_id@ == "admin:"@ + text::trimmed(request.request_id@)
                &&& text::opt(entry.operator_user_id) == Some(admin_id@)
                &&& audit.admin_user_id@ == admin_id@
                &&& audit.action@ == "adjust_credits"@
                &&& audit.target_id@ == id@
            },
        },
        r matches Err(error) ==> error.0 == 400 || error.0 == 404 || error.0 == 409,
{
}

/// An adjustment that was carried out before changes nothing more; under the number of another
/// one it is refused.
pub proof fn repeated_adjustments_change_nothing(
    admin_id: &str,
    id: &str,
    request: &CreditAdjustmentRequest,
    entry: EarlierEntry,
    balance: Option<Balance>,
    r: AppResult<Adjustment>,
)
    requires
        call_ensures(adjust_credits, (admin_id, id, request, Some(entry), balance), r),
        request.delta != 0,
        -1_000_000_000 <= request.delta <= 1_000_000_000,
        has_proper_texts(request.reason@, request.request_id@),
    ensures
        r is Ok <==> entry.user_id@ == id@ && entry.delta == request.delta,
        r matches Ok(outcome) ==> outcome == Adjustment::Repeated(entry.balance_after),
        r matches Err(error) ==> error.0 == 409,
{
}

/// The answer to an adjustment shows the credits after it.
pub proof fn answers_show_the_credits(outcome: Adjustment, r: i64)
    requires
        call_ensures(Adjustment::credits, (&outcome,), r),
    ensures
        outcome matches Adjustment::Repeated(credits) ==> r == credits,
        outcome matches Adjustment::Changed { credits, entry, audit } ==> r == credits,
{
}

/// References in the ledger hold the number of the request, and for many users the user too.
pub proof fn references_hold_the_number(
    request_id: &str,
    id: &str,
    one: String,
    many: String,
)
    requires
        call_ensures(adjustment_reference, (request_id,), one),
        call_ensures(bulk_reference, (request_id, id), many),
    ensures
        one@ == "admin:"@ + text::trimmed(request_id@),
        many@ == "admin-bulk:"@ + request_id@ + ":"@ + id@,
{
}

/// A plan names every user of the request once, in order, without the white space around the
/// names, and nobody else.
pub proof fn plans_name_every_user_once(
    request: &BulkCreditSetRequest,
    r: AppResult<BulkPlan>,
    i: int,
    k: int,
)
    requires
        call_ensures(bulk_plan, (request,), r),
        r is Ok,
    ensures
        1 <= r->Ok_0.user_ids@.len() <= 100,
        0 <= request.credits <= 1_000_000_000,
        has_proper_texts(request.reason@, request.request_id@),
        r->Ok_0.credits == request.credits,
        r->Ok_0.reason@ == text::trimmed(request.reason@),
        r->Ok_0.request_id@ == text::trimmed(request.request_id@),
        0 <= i < request.user_ids@.len() ==> text::views(r->Ok_0.user_ids@).contains(
            text::trimmed(request.user_ids@[i]@),
        ),
        0 <= k < r->Ok_0.user_ids@.len() ==> r->Ok_0.user_ids@[k]@.len() > 0
            && vstd::utf8::encode_utf8(r->Ok_0.user_ids@[k]@).len() <= 128 && exists|j: int|
            0 <= j < request.user_ids@.len() && text::trimmed((#[trigger] request.user_ids@[j])@)
                == r->Ok_0.user_ids@[k]@,
        0 <= k < r->Ok_0.user_ids@.len() - 1 ==> text::precedes(
            r->Ok_0.user_ids@[k]@,
            r->Ok_0.user_ids@[k + 1]@,
        ),
{
    let kept = text::views(r->Ok_0.user_ids@);
    let named = Seq::new(request.user_ids@.len(), |j: int| text::trimmed(request.user_ids@[j]@));
    let ids = named_ids(request.user_ids@);
    lemma_ordered_count(kept);
    assert(kept.len() == r->Ok_0.user_ids@.len());
    if 0 <= i < request.user_ids@.len() {
        assert(named[i] == text::trimmed(request.user_ids@[i]@));
        assert(named.contains(named[i]));
        assert(ids.contains(named[i]));
        assert(kept.to_set().contains(named[i]));
    }
    if 0 <= k < kept.len() {
        assert(kept[k] == r->Ok_0.user_ids@[k]@);
        assert(kept.contains(kept[k]));
        assert(kept.to_set().contains(kept[k]));
        assert(ids.contains(kept[k]));
        assert(!bad_id(kept[k]));
        assert(named.contains(kept[k]));
        let j = choose|j: int| 0 <= j < named.len() && named[j] == kept[k];
        assert(text::trimmed(request.user_ids@[j]@) == kept[k]);
        if k < kept.len() - 1 {
            assert(kept[k + 1] == r->Ok_0.user_ids@[k + 1]@);
        }
    }
}

/// A request within its bounds gets a plan: one that names at most a hundred users, all of them
/// properly, and sets their credits to an amount in range.
pub proof fn proper_bulk_requests_are_planned(
    request: &BulkCreditSetRequest,
    r: AppResult<BulkPlan>,
)
    requires
        call_ensures(bulk_plan, (request,), r),
        1 <= request.user_ids@.len() <= 100,
        forall|i: int|
            0 <= i < request.user_ids@.len() ==> text::trimmed(
                (#[trigger] request.user_ids@[i])@,
            ).len() > 0 && vstd::utf8::encode_utf8(text::trimmed(request.user_ids@[i]@)).len()
                <= 128,
        0 <= request.credits <= 1_000_000_000,
        has_proper_texts(request.reason@, request.request_id@),
    ensures
        r is Ok,
{
    let named = Seq::new(request.user_ids@.len(), |j: int| text::trimmed(request.user_ids@[j]@));
    let ids = named_ids(request.user_ids@);
    assert(ids == named.to_set());
    named.lemma_cardinality_of_set();
    assert(named.contains(named[0]));
    assert(ids.contains(named[0]));
    assert(ids.len() > 0) by {
        if ids.len() == 0 {
            assert(ids =~= Set::<Seq<char>>::empty());
        }
    }
    assert forall|id: Seq<char>| ids.contains(id) implies !#[trigger] bad_id(id) by {
        assert(named.contains(id));
        let j = choose|j: int| 0 <= j < named.len() && named[j] == id;
        assert(text::trimmed(request.user_ids@[j]@) == id);
    }
}

/// Whether the credits of a user can be set: they were set to the same by the same request before,
/// or the user is there and what is reserved is covered.
pub open spec fn can_be_set(row: BulkRow, credits: i64) -> bool {
    &&& row.earlier is Some ==> (row.earlier->0).0@ == row.user_id@ && (row.earlier->0).1 == credits
    &&& row.earlier is None ==> row.balance is Some && row.balance->0.reserved <= credits
}

proof fn lemma_first_refusal(rows: Seq<BulkRow>, credits: i64, count: int)
    requires
        0 <= count <= rows.len(),
    ensures
        first_refusal(rows, credits, count) is None <==> forall|i: int|
            0 <= i < count ==> can_be_set(#[trigger] rows[i], credits),
        first_refusal(rows, credits, count) matches Some(refusal) ==> refusal.0 == 404 || refusal.0
            == 409,
    decreases count,
{
    if count > 0 {
        lemma_first_refusal(rows, credits, count - 1);
    }
}

proof fn lemma_fresh_place(rows: Seq<BulkRow>, count: int, i: int) -> (k: int)
    requires
        0 <= i < count <= rows.len(),
        rows[i].earlier is None,
    ensures
        0 <= k < fresh_places(rows, count).len(),
        fresh_places(rows, count)[k] == i,
    decreases count,
{
    if i == count - 1 {
        fresh_places(rows, count).len() - 1
    } else {
        lemma_fresh_place(rows, count - 1, i)
    }
}

/// The credits of many users are set for all or for none: exactly where they can be set for each.
/// Every user for whom that was not done before gets a ledger line from the old balance to the new
/// one.
pub proof fn credits_are_set_for_all_or_none(
    admin_id: &str,
    plan: &BulkPlan,
    rows: &[BulkRow],
    r: AppResult<BulkChange>,
    i: int,
)
    requires
        deltas_fit(rows@, plan.credits),
        call_ensures(bulk_set_credits, (admin_id, plan, rows), r),
    ensures
        r is Ok <==> forall|j: int|
            0 <= j < rows@.len() ==> can_be_set(#[trigger] rows@[j], plan.credits),
        r matches Err(error) ==> error.0 == 404 || error.0 == 409,
        r is Ok && 0 <= i < rows@.len() && rows@[i].earlier is None ==> exists|k: int|
            {
                &&& 0 <= k < r->Ok_0.entries@.len()
                &&& (#[trigger] r->Ok_0.entries@[k]).user_id@ == rows@[i].user_id@
                &&& r->Ok_0.entries@[k].balance_after == plan.credits
                &&& rows@[i].balance->0.credits + r->Ok_0.entries@[k].delta == plan.credits
                &&& r->Ok_0.entries@[k].reason@ == plan.reason@
                &&& text::opt(r->Ok_0.entries@[k].operator_user_id) == Some(admin_id@)
                &&& r->Ok_0.entries@[k].reference_id@ == "admin-bulk:"@ + plan.request_id@ + ":"@
                    + rows@[i].user_id@
            },
        r is Ok ==> (r->Ok_0.audit is Some <==> r->Ok_0.entries@.len() > 0),
        r is Ok && r->Ok_0.audit is Some ==> r->Ok_0.audit->0.admin_user_id@ == admin_id@
            && r->Ok_0.audit->0.action@ == "bulk_set_credits"@ && r->Ok_0.audit->0.target_id@
            == plan.request_id@,
{
    let n = rows@.len() as int;
    lemma_first_refusal(rows@, plan.credits, n);
    if r is Ok && 0 <= i < n && rows@[i].earlier is None {
        let k = lemma_fresh_place(rows@, n, i);
        let change = r->Ok_0;
        assert(sets_credits(
            change.entries@[k],
            rows@[fresh_places(rows@, n)[k]],
            *plan,
            admin_id@,
        ));
        assert(change.entries@[k].user_id@ == rows@[i].user_id@);
    }
}

proof fn lemma_fresh_prefix(rows: Seq<BulkRow>, more: Seq<BulkRow>, count: int)
    requires
        count <= rows.len() <= more.len(),
        forall|i: int| 0 <= i < rows.len() ==> rows[i] == more[i],
    ensures
        fresh_places(rows, count) == fresh_places(more, count),
    decreases count,
{
    if count > 0 {
        lemma_fresh_prefix(rows, more, count - 1);
    }
}

/// One more user takes one more ledger line, unless the request was carried out for that user
/// before.
pub proof fn every_user_takes_one_line(
    admin_id: &str,
    plan: &BulkPlan,
    rows: &[BulkRow],
    more: &[BulkRow],
    row: BulkRow,
    r: AppResult<BulkChange>,
    s: AppResult<BulkChange>,
)
    requires
        more@ == rows@.push(row),
        deltas_fit(rows@, plan.credits),
        deltas_fit(more@, plan.credits),
        call_ensures(bulk_set_credits, (admin_id, plan, rows), r),
        call_ensures(bulk_set_credits, (admin_id, plan, more), s),
        r is Ok,
        s is Ok,
    ensures
        rows@.len() == 0 ==> r->Ok_0.entries@.len() == 0,
        row.earlier is None ==> s->Ok_0.entries@.len() == r->Ok_0.entries@.len() + 1,
        row.earlier is Some ==> s->Ok_0.entries@.len() == r->Ok_0.entries@.len(),
{
    let n = rows@.len() as int;
    lemma_fresh_prefix(rows@, more@, n);
    assert(more@[n] == row);
}

/// An address is looked up under its own text, where it is one.
pub proof fn addresses_are_looked_up(address: Option<String>, ip: &str, r: AppResult<String>, url: String)
    requires
        call_ensures(looked_up_ip, (address,), r),
        call_ensures(lookup_url, (ip,), url),
    ensures
        r is Ok <==> address is Some,
        r is Ok ==> r->Ok_0@ == address->0@,
        r matches Err(error) ==> error.0 == 400,
        url@ == "https://ipwho.is/"@ + ip@,
{
}

/// The parts of a place: country, region and city, without those that are empty or were named
/// before.
pub open spec fn place_parts(country: Seq<char>, region: Seq<char>, city: Seq<char>) -> Seq<
    Seq<char>,
> {
    (if country.len() > 0 {
        seq![country]
    } else {
        Seq::empty()
    }) + (if region.len() > 0 && region != country {
        seq![region]
    } else {
        Seq::empty()
    }) + (if city.len() > 0 && city != country && city != region {
        seq![city]
    } else {
        Seq::empty()
    })
}

/// A place is shown from the largest part to the smallest, each once; where a lookup gives none,
/// the reason is told.
pub proof fn places_are_shown_part_by_part(outcome: Lookup, r: AppResult<IpLocation>)
    requires
        call_ensures(ip_location, (outcome,), r),
    ensures
        outcome is TimedOut ==> r is Err && r->Err_0.0 == 504,
        outcome is Failed ==> r is Err && r->Err_0.0 == 502,
        outcome matches Lookup::Answered(found) ==> {
            &&& r is Ok <==> found.success && (found.country@.len() > 0 || found.region@.len() > 0
                || found.city@.len() > 0)
            &&& r is Err ==> r->Err_0.0 == 502
            &&& !found.success && found.message@.len() > 0 ==> r->Err_0.1@ == found.message@
            &&& r is Ok ==> r->Ok_0.location@ == text::joined(
                place_parts(found.country@, found.region@, found.city@),
                " · "@,
            )
            &&& r is Ok && found.isp is Some ==> r->Ok_0.isp@ == found.isp->0@
            &&& r is Ok && found.isp is None ==> r->Ok_0.isp@.len() == 0
        },
{
    reveal_strlit("");
    if outcome is Answered {
        let found = outcome->Answered_0;
        let a = found.country@;
        let b = found.region@;
        let c = found.city@;
        let all = seq![a, b, c];
        reveal_with_fuel(distinct_parts, 4);
        let none = Seq::<Seq<char>>::empty();
        let one = distinct_parts(all, 1);
        assert(one =~= if a.len() > 0 { seq![a] } else { none });
        let two = distinct_parts(all, 2);
        assert(one.contains(b) <==> a.len() > 0 && b == a) by {
            if a.len() > 0 {
                assert(one[0] == a);
            }
        }
        assert(two =~= one + if b.len() > 0 && b != a { seq![b] } else { none });
        assert(two.contains(c) <==> (a.len() > 0 && c == a) || (b.len() > 0 && b != a && c == b)) by {
            if a.len() > 0 {
                assert(two[0] == a);
            }
            if b.len() > 0 && b != a {
                assert(two[two.len() - 1] == b);
            }
        }
        assert(place_of(found) =~= place_parts(a, b, c));
    }
}

/// The settings of the system become what is asked for, exactly where that is within bounds.
pub proof fn settings_become_what_is_asked(
    admin_id: &str,
    request: UpdateSettingsRequest,
    r: AppResult<SettingsChange>,
)
    requires
        call_ensures(update_settings, (admin_id, request), r),
    ensures
        r is Ok <==> 0 <= request.registration_credits <= 1_000_000 && 1
            <= request.default_daily_limit <= 1_000_000,
        r matches Err(error) ==> error.0 == 400,
        r matches Ok(change) ==> {
            &&& change.settings.registration_credits == request.registration_credits
            &&& change.settings.default_daily_limit == request.default_daily_limit
            &&& change.audit.admin_user_id@ == admin_id@
            &&& change.audit.action@ == "update_settings"@
        },
{
}

proof fn lemma_exposed_prefix(keys: Seq<KeyStatus>, more: Seq<KeyStatus>, count: int)
    requires
        count <= keys.len() <= more.len(),
        forall|i: int| 0 <= i < keys.len() ==> keys[i] == more[i],
    ensures
        exposed_count(keys, count) == exposed_count(more, count),
    decreases count,
{
    if count > 0 {
        lemma_exposed_prefix(keys, more, count - 1);
    }
}

/// A key counts as exposed exactly where it is kept as plain text and active.
pub proof fn exposed_keys_are_counted(
    keys: &[KeyStatus],
    more: &[KeyStatus],
    key: KeyStatus,
    r: usize,
    s: usize,
)
    requires
        more@ == keys@.push(key),
        call_ensures(legacy_api_keys, (keys,), r),
        call_ensures(legacy_api_keys, (more,), s),
    ensures
        keys@.len() == 0 ==> r == 0,
        key.is_legacy && key.status@ == "active"@ ==> s == r + 1,
        !key.is_legacy || key.status@ != "active"@ ==> s == r,
{
    let n = keys@.len() as int;
    lemma_exposed_prefix(keys@, more@, n);
    assert(more@[n] == key);
}

/// Revoking takes every key that is kept as plain text and active out of use, leaves all others
/// as they were, and counts what it did.
pub proof fn exposed_keys_are_revoked(
    admin_id: &str,
    keys: Vec<KeyStatus>,
    slice: &[KeyStatus],
    exposed: usize,
    r: (Vec<KeyStatus>, usize, AuditEntry),
    i: int,
)
    requires
        slice@ == keys@,
        call_ensures(legacy_api_keys, (slice,), exposed),
        call_ensures(revoke_legacy_api_keys, (admin_id, keys), r),
        0 <= i < keys@.len(),
    ensures
        r.0@.len() == keys@.len(),
        r.0@[i].id@ == keys@[i].id@,
        r.0@[i].is_legacy == keys@[i].is_legacy,
        keys@[i].is_legacy && keys@[i].status@ == "active"@ ==> r.0@[i].status@ == "revoked"@,
        !keys@[i].is_legacy || keys@[i].status@ != "active"@ ==> r.0@[i].status@ == keys@[i].status@,
        r.1 == exposed,
        r.2.admin_user_id@ == admin_id@,
        r.2.detail == (AuditDetail::LegacyKeysRevoked { revoked: exposed }),
{
    assert(is_after_revocation(r.0@[i], keys@[i]));
}

/// A provider of the system is made exactly where a user's own would be, and written down.
pub proof fn providers_of_the_system_are_made_alike(
    admin_id: &str,
    request: &CreateProviderRequest,
    master_key: &[u8; 32],
    is_first: bool,
    own: AppResult<NewProvider>,
    r: AppResult<(NewProvider, AuditEntry)>,
)
    requires
        call_ensures(account::create_provider, (request, master_key, is_first), own),
        call_ensures(create_provider, (admin_id, request, master_key, is_first), r),
    ensures
        r is Ok <==> own is Ok,
        r is Err ==> r->Err_0.0 == own->Err_0.0 && r->Err_0.1@ == own->Err_0.1@,
        r matches Ok(made) ==> {
            &&& made.0.provider.name@ == own->Ok_0.provider.name@
            &&& made.0.provider.base_url@ == own->Ok_0.provider.base_url@
            &&& made.0.provider.is_active == is_first
            &&& made.0.provider.masked_api_key@ == own->Ok_0.provider.masked_api_key@
            &&& made.1.admin_user_id@ == admin_id@
            &&& made.1.action@ == "create_provider"@
            &&& made.1.target_id@ == made.0.provider.id@
        },
{
}

/// Providers of the system are activated and deleted exactly where they are there, and it is
/// written down by whom.
pub proof fn changes_of_providers_are_written_down(
    admin_id: &str,
    slots: Vec<ProviderSlot>,
    id: &str,
    activated: AppResult<(Vec<ProviderSlot>, AuditEntry)>,
    deleted: AppResult<(Vec<ProviderSlot>, AuditEntry)>,
)
    requires
        call_ensures(activate_provider, (admin_id, slots, id), activated),
        call_ensures(delete_provider, (admin_id, slots, id), deleted),
    ensures
        activated is Ok <==> exists|i: int|
            0 <= i < slots@.len() && (#[trigger] slots@[i]).id@ == id@,
        deleted is Ok <==> activated is Ok,
        activated matches Ok(change) ==> {
            &&& change.0@.len() == slots@.len()
            &&& exists|i: int|
                0 <= i < slots@.len() && (#[trigger] slots@[i]).id@ == id@ && change.0@[i].is_active
            &&& change.1.admin_user_id@ == admin_id@
            &&& change.1.action@ == "activate_provider"@
            &&& change.1.target_id@ == id@
        },
        deleted matches Ok(change) ==> {
            &&& change.0@.len() == slots@.len() - 1
            &&& change.1.admin_user_id@ == admin_id@
            &&& change.1.action@ == "delete_provider"@
            &&& change.1.target_id@ == id@
        },
{
    assert(account::has_provider(slots@, id@) <==> exists|i: int|
        0 <= i < slots@.len() && (#[trigger] slots@[i]).id@ == id@);
    if activated is Ok {
        let after = activated->Ok_0.0@;
        let i = choose|i: int|
            slots@[i].id@ == id@ && #[trigger] account::activated(slots@, after, i);
        assert(account::only_active(after, i));
        assert(slots@[i].id@ == id@ && after[i].is_active);
    }
    if deleted is Ok {
        let after = deleted->Ok_0.0@;
        let i = choose|i: int|
            0 <= i < slots@.len() && slots@[i].id@ == id@ && #[trigger] account::removed(
                slots@,
                after,
                i,
            );
        assert(account::removed(slots@, after, i));
    }
}

/// An announcement is in order exactly where title and content are there and not too long, the
/// kind is a known one, and the date, if there is one, has ten bytes.
pub proof fn announcements_are_judged_by_form(request: &AnnouncementRequest, r: AppResult<()>)
    requires
        call_ensures(validate_announcement, (request,), r),
    ensures
        r is Ok <==> {
            &&& text::trimmed(request.title@).len() > 0
            &&& vstd::utf8::encode_utf8(request.title@).len() <= 120
            &&& text::trimmed(request.content@).len() > 0
            &&& vstd::utf8::encode_utf8(request.content@).len() <= 5000
            &&& request.kind@ == "feature"@ || request.kind@ == "system"@ || request.kind@
                == "update"@
            &&& request.date is None || vstd::utf8::encode_utf8(request.date->0@).len() == 10
        },
        r matches Err(error) ==> error.0 == 400,
{
}

/// Whether an announcement says what a request asks for.
pub open spec fn says_what_is_asked(stored: Announcement, request: AnnouncementRequest) -> bool {
    &&& stored.title@ == text::trimmed(request.title@)
    &&& stored.content@ == text::trimmed(request.content@)
    &&& stored.kind@ == request.kind@
    &&& request.is_new is Some ==> stored.is_new == request.is_new->0
    &&& request.is_new is None ==> stored.is_new
    &&& request.date is Some ==> stored.date@ == request.date->0@
}

/// What is in order is announced as it is asked for, under a new identifier, and written down.
pub proof fn announcements_say_what_is_asked(
    admin_id: &str,
    request: &AnnouncementRequest,
    proper: AppResult<()>,
    r: AppResult<(Announcement, AuditEntry)>,
)
    requires
        call_ensures(validate_announcement, (request,), proper),
        call_ensures(create_announcement, (admin_id, request), r),
    ensures
        r is Ok <==> proper is Ok,
        r matches Ok(made) ==> {
            &&& says_what_is_asked(made.0, *request)
            &&& token::is_identifier(made.0.id@, "ann-"@)
            &&& made.1.admin_user_id@ == admin_id@
            &&& made.1.action@ == "create_announcement"@
            &&& made.1.target_id@ == made.0.id@
        },
{
}

/// An announcement that is there becomes what is asked for, under its own identifier.
pub proof fn announcements_become_what_is_asked(
    admin_id: &str,
    id: &str,
    request: &AnnouncementRequest,
    found: bool,
    proper: AppResult<()>,
    r: AppResult<(Announcement, AuditEntry)>,
)
    requires
        call_ensures(validate_announcement, (request,), proper),
        call_ensures(update_announcement, (admin_id, id, request, found), r),
    ensures
        r is Ok <==> proper is Ok && found,
        proper is Ok && !found ==> r->Err_0.0 == 404,
        r matches Ok(made) ==> {
            &&& says_what_is_asked(made.0, *request)
            &&& made.0.id@ == id@
            &&& made.1.admin_user_id@ == admin_id@
            &&& made.1.action@ == "update_announcement"@
            &&& made.1.target_id@ == id@
        },
{
}

/// Deleting an announcement is written down where there was one, and else refused.
pub proof fn deleted_announcements_are_written_down(
    admin_id: &str,
    id: &str,
    changed: usize,
    r: AppResult<AuditEntry>,
)
    requires
        call_ensures(delete_announcement, (admin_id, id, changed), r),
    ensures
        r is Ok <==> changed > 0,
        r matches Err(error) ==> error.0 == 404,
        r matches Ok(audit) ==> audit.admin_user_id@ == admin_id@ && audit.target_id@ == id@
            && audit.action@ == "delete_announcement"@,
{
}

/// There is an overview wherever the calendar reaches a month back and to the end of the day.
pub proof fn overviews_are_there(now: Moment, r: Option<OverviewTimes>)
    requires
        call_ensures(overview, (now,), r),
    ensures
        now.representable() && now.secs - 29 * 86_400 >= -8_334_601_228_800 && now.secs + 86_400
            <= 8_210_266_876_799 ==> r is Some,
        !now.representable() ==> r is None,
{
}

/// The first user whose credits cannot be set is the one that is told of.
pub proof fn the_first_obstacle_is_told(
    admin_id: &str,
    plan: &BulkPlan,
    rows: &[BulkRow],
    i: int,
    r: AppResult<BulkChange>,
)
    requires
        deltas_fit(rows@, plan.credits),
        call_ensures(bulk_set_credits, (admin_id, plan, rows), r),
        0 <= i < rows@.len(),
        forall|j: int| 0 <= j < i ==> can_be_set(#[trigger] rows@[j], plan.credits),
        !can_be_set(rows@[i], plan.credits),
    ensures
        r is Err,
        r->Err_0.0 == if rows@[i].earlier is None && rows@[i].balance is None {
            404u16
        } else {
            409u16
        },
{
    lemma_first_refusal(rows@, plan.credits, i);
    lemma_refusal_stays(rows@, plan.credits, i + 1, rows@.len() as int);
}

} // verus!
