//! The database: its readers, its columns, and what old data becomes.

use vstd::prelude::*;

use crate::classification;
use crate::classification::CATEGORY_VERSION;
use crate::clock;
use crate::clock::Moment;
use crate::images::credits::LedgerEntry;
use crate::model;
use crate::model::{AppError, AppResult, INTERNAL_SERVER_ERROR};
use crate::security;
use crate::text;

verus! {

pub const SCHEMA_VERSION: i64 = 11;

pub const MIN_READERS: usize = 2;

pub const MAX_READERS: usize = 8;

/// How many readers a machine gets.
pub open spec fn readers_for(parallelism: Option<usize>) -> usize {
    match parallelism {
        Some(count) => if count < MIN_READERS {
            MIN_READERS
        } else if count > MAX_READERS {
            MAX_READERS
        } else {
            count
        },
        None => MIN_READERS,
    }
}

/// How many readers a machine gets: as many as it runs in parallel, if it says, within limits.
pub fn reader_count(parallelism: Option<usize>) -> (r: usize)
    ensures
        r == readers_for(parallelism),
        MIN_READERS <= r <= MAX_READERS,
{
    let count: usize = match parallelism {
        Some(given) => given,
        None => MIN_READERS,
    };
    if count < MIN_READERS {
        MIN_READERS
    } else if count > MAX_READERS {
        MAX_READERS
    } else {
        count
    }
}

/// What somebody who wants a reader is to do.
#[derive(Clone, Copy, Debug, PartialEq, Eq, Structural)]
pub enum ReaderStep {
    Reuse,
    Open,
    Wait,
}

/// The readers: how many lie idle, how many are open in all, and how many may be.
#[derive(Clone, Copy, Debug, PartialEq, Eq, Structural)]
pub struct ReaderPool {
    pub idle: usize,
    pub open: usize,
    pub max: usize,
}

impl ReaderPool {
    /// What every step keeps: idle readers are open ones, and never too many are open.
    pub open spec fn wf(self) -> bool {
        self.idle <= self.open <= self.max
    }

    /// How many readers are in use.
    pub open spec fn lent(self) -> int {
        self.open - self.idle
    }

    pub fn new(max: usize) -> (r: Self)
        ensures
            r.wf(),
            r.lent() == 0,
            r.open == 0,
            r.max == max,
    {
        ReaderPool { idle: 0, open: 0, max }
    }

    /// Asks for a reader: an idle one is reused; else one more may be opened; else all are in
    /// use, and it is to be waited for.
    pub fn acquire(&mut self) -> (r: ReaderStep)
        requires
            old(self).wf(),
        ensures
            final(self).wf(),
            final(self).max == old(self).max,
            match r {
                ReaderStep::Reuse => {
                    &&& old(self).idle > 0
                    &&& final(self).idle == old(self).idle - 1
                    &&& final(self).open == old(self).open
                },
                ReaderStep::Open => {
                    &&& old(self).idle == 0
                    &&& old(self).open < old(self).max
                    &&& final(self).idle == 0
                    &&& final(self).open == old(self).open + 1
                },
                ReaderStep::Wait => {
                    &&& old(self).idle == 0
                    &&& old(self).open == old(self).max
                    &&& *final(self) == *old(self)
                },
            },
            r != ReaderStep::Wait ==> final(self).lent() == old(self).lent() + 1,
    {
        if self.idle > 0 {
            self.idle = self.idle - 1;
            return ReaderStep::Reuse;
        }
        if self.open < self.max {
            self.open = self.open + 1;
            return ReaderStep::Open;
        }
        ReaderStep::Wait
    }

    /// Gives a reader back, which then lies idle.
    pub fn release(&mut self)
        requires
            old(self).wf(),
            old(self).lent() > 0,
        ensures
            final(self).wf(),
            final(self).max == old(self).max,
            final(self).open == old(self).open,
            final(self).lent() == old(self).lent() - 1,
    {
        self.idle = self.idle + 1;
    }

    /// Gives up a reader that could not be opened.
    pub fn open_failed(&mut self)
        requires
            old(self).wf(),
            old(self).lent() > 0,
        ensures
            final(self).wf(),
            final(self).max == old(self).max,
            final(self).idle == old(self).idle,
            final(self).open == old(self).open - 1,
    {
        self.open = self.open - 1;
    }
}

/// What clients are told of a database error.
pub fn internal_error() -> (r: AppError)
    ensures
        r.0 == INTERNAL_SERVER_ERROR,
        r.1@ == "数据库操作失败"@,
{
    AppError(INTERNAL_SERVER_ERROR, "数据库操作失败".to_owned())
}

/// What clients are told where the database cannot be reached.
pub fn unavailable() -> (r: AppError)
    ensures
        r.0 == INTERNAL_SERVER_ERROR,
        r.1@ == "数据库不可用"@,
{
    AppError(INTERNAL_SERVER_ERROR, "数据库不可用".to_owned())
}

/// Whether a database is to be copied before it is brought up to date.
pub fn needs_backup(exists: bool, version: i64) -> (r: bool)
    ensures
        r == (exists && version < SCHEMA_VERSION),
{
    exists && version < SCHEMA_VERSION
}

/// What `DateTime::format` makes of a UTC moment with the pattern `%Y%m%d%H%M%S`.
pub uninterp spec fn stamp_text(secs: int, nanos: int) -> Seq<char>;

/// Calls `chrono::DateTime::format` on the moment with the pattern `%Y%m%d%H%M%S`; the moment
/// alone decides the text.
#[verifier::external_body]
pub(crate) fn stamp(moment: Moment) -> (text: String)
    requires
        moment.representable(),
    ensures
        text@ == stamp_text(moment.secs as int, moment.nanos as int),
{
    chrono::DateTime::<chrono::Utc>::from_timestamp(moment.secs, moment.nanos).expect("a moment of the calendar").format("%Y%m%d%H%M%S").to_string()
}

/// The file name of a copy of the database; `None` where the calendar has no date for it.
pub fn backup_name(now: Moment) -> (r: Option<String>)
    ensures
        r is Some <==> now.representable(),
        r matches Some(name) ==> name@ == "lumora-"@ + stamp_text(
            now.secs as int,
            now.nanos as int,
        ) + ".db"@,
{
    if now.is_representable() {
        let time = stamp(now);
        Some(text::concat3("lumora-", time.as_str(), ".db"))
    } else {
        None
    }
}

/// The first and the last bound of a moment's day; `None` where the calendar ends before.
pub fn utc_day_bounds(now: Moment) -> (r: Option<(String, String)>)
    ensures
        r is Some <==> now.representable() && now.day_start() + 86_400 <= clock::LAST_SECOND,
        r matches Some(bounds) ==> {
            &&& bounds.0@ == clock::rfc3339_text(now.day_start(), 0)
            &&& bounds.1@ == clock::rfc3339_text(now.day_start() + 86_400, 0)
        },
{
    if !now.is_representable() {
        return None;
    }
    let start = now.midnight();
    match start.checked_plus_days(1) {
        Some(end) => Some((clock::rfc3339(start), clock::rfc3339(end))),
        None => None,
    }
}

/// The columns that were added to the tables over time: table, column and definition.
pub const COLUMNS: [(&'static str, &'static str, &'static str); 31] = [
    ("users", "credits_reserved", "INTEGER NOT NULL DEFAULT 0"),
    ("users", "daily_limit", "INTEGER NOT NULL DEFAULT 10000"),
    ("users", "status", "TEXT NOT NULL DEFAULT 'active'"),
    ("users", "is_admin", "INTEGER NOT NULL DEFAULT 0"),
    ("users", "last_login_at", "TEXT"),
    ("users", "last_seen_at", "TEXT"),
    ("sessions", "expires_at", "TEXT"),
    ("api_keys", "key_hash", "TEXT"),
    ("api_keys", "key_prefix", "TEXT"),
    ("api_keys", "key_suffix", "TEXT"),
    ("api_keys", "is_legacy", "INTEGER NOT NULL DEFAULT 1"),
    ("providers", "api_key_cipher", "TEXT"),
    ("providers", "key_prefix", "TEXT"),
    ("providers", "key_suffix", "TEXT"),
    ("providers", "encryption_version", "INTEGER NOT NULL DEFAULT 0"),
    ("providers", "is_global", "INTEGER NOT NULL DEFAULT 0"),
    ("images", "visibility", "TEXT NOT NULL DEFAULT 'private'"),
    ("images", "format", "TEXT NOT NULL DEFAULT 'png'"),
    ("images", "category", "TEXT NOT NULL DEFAULT '其他'"),
    ("images", "category_version", "INTEGER NOT NULL DEFAULT 0"),
    ("images", "storage", "TEXT NOT NULL DEFAULT 'server'"),
    ("images", "device_id", "TEXT NOT NULL DEFAULT ''"),
    ("images", "reference_files", "TEXT NOT NULL DEFAULT '[]'"),
    ("images", "usage_log_id", "TEXT NOT NULL DEFAULT ''"),
    ("usage_logs", "ip_address", "TEXT NOT NULL DEFAULT ''"),
    ("usage_logs", "device_id", "TEXT NOT NULL DEFAULT ''"),
    ("usage_logs", "platform", "TEXT NOT NULL DEFAULT ''"),
    ("usage_logs", "app_version", "TEXT NOT NULL DEFAULT ''"),
    ("usage_logs", "user_agent", "TEXT NOT NULL DEFAULT ''"),
    ("usage_logs", "prompt", "TEXT NOT NULL DEFAULT ''"),
    ("usage_logs", "error", "TEXT NOT NULL DEFAULT ''"),
];

/// The columns that tables have: pairs of table and column.
pub open spec fn has_column(existing: Seq<(String, String)>, table: Seq<char>, name: Seq<char>) -> bool {
    exists|i: int|
        0 <= i < existing.len() && (#[trigger] existing[i]).0@ == table && existing[i].1@ == name
}

/// The places, below a count, of the columns that are missing.
pub open spec fn missing_places(existing: Seq<(String, String)>, count: int) -> Seq<int>
    decreases count,
{
    if count <= 0 {
        Seq::empty()
    } else {
        let before = missing_places(existing, count - 1);
        let column = COLUMNS@[count - 1];
        if has_column(existing, column.0@, column.1@) {
            before
        } else {
            before.push(count - 1)
        }
    }
}

/// Whether a table has a column.
fn column_exists(existing: &[(String, String)], table: &str, name: &str) -> (r: bool)
    ensures
        r == has_column(existing@, table@, name@),
{
    let mut i: usize = 0;
    while i < existing.len()
        invariant
            i <= existing@.len(),
            forall|j: int|
                0 <= j < i ==> !((#[trigger] existing@[j]).0@ == table@ && existing@[j].1@
                    == name@),
        decreases existing@.len() - i,
    {
        if text::same(existing[i].0.as_str(), table) && text::same(existing[i].1.as_str(), name) {
            assert(existing@[i as int].0@ == table@ && existing@[i as int].1@ == name@);
            return true;
        }
        i += 1;
    }
    false
}

/// The statement that adds a column.
pub open spec fn alteration(table: Seq<char>, name: Seq<char>, definition: Seq<char>) -> Seq<char> {
    "ALTER TABLE "@ + table + " ADD COLUMN "@ + name + " "@ + definition
}

/// The statement that adds a column.
pub fn add_column(table: &str, name: &str, definition: &str) -> (r: String)
    ensures
        r@ == alteration(table@, name@, definition@),
{
    let head = text::concat3("ALTER TABLE ", table, " ADD COLUMN ");
    let mut statement = text::concat3(head.as_str(), name, " ");
    statement.append(definition);
    statement
}

/// The statements that add the columns that are missing, in order; none where all are there.
pub fn missing_columns(existing: &[(String, String)]) -> (r: Vec<String>)
    ensures
        text::views(r@) == Seq::new(
            missing_places(existing@, COLUMNS@.len() as int).len(),
            |i: int| column_alteration(missing_places(existing@, COLUMNS@.len() as int)[i]),
        ),
{
    let mut statements: Vec<String> = Vec::new();
    let mut i: usize = 0;
    while i < 31
        invariant
            i <= 31,
            COLUMNS@.len() == 31,
            statements@.len() == missing_places(existing@, i as int).len(),
            forall|j: int|
                0 <= j < statements@.len() ==> (#[trigger] statements@[j])@ == column_alteration(
                    missing_places(existing@, i as int)[j],
                ),
        decreases 31 - i,
    {
        let (table, name, definition) = COLUMNS[i];
        if !column_exists(existing, table, name) {
            statements.push(add_column(table, name, definition));
        }
        i += 1;
    }
    assert(text::views(statements@) == Seq::new(
        missing_places(existing@, COLUMNS@.len() as int).len(),
        |i: int| column_alteration(missing_places(existing@, COLUMNS@.len() as int)[i]),
    ));
    statements
}

/// The statement that adds the column at a place.
pub open spec fn column_alteration(place: int) -> Seq<char> {
    alteration(COLUMNS@[place].0@, COLUMNS@[place].1@, COLUMNS@[place].2@)
}

/// A user with the credits that were there before the ledger was kept.
#[derive(Debug, PartialEq, Eq)]
pub struct OpeningBalance {
    pub user_id: String,
    pub credits: i64,
    pub created_at: String,
    pub has_entries: bool,
}

/// Whether a ledger entry opens the ledger of a user.
pub open spec fn opens_ledger(entry: LedgerEntry, user: OpeningBalance) -> bool {
    &&& entry.id@ == "opening-"@ + user.user_id@
    &&& entry.user_id@ == user.user_id@
    &&& entry.delta == user.credits
    &&& entry.balance_after == user.credits
    &&& entry.reason@ == "opening_balance"@
    &&& entry.reference_id@ == "opening:"@ + user.user_id@
    &&& entry.operator_user_id is None
    &&& entry.created_at@ == user.created_at@
}

/// The places, below a count, of the users who have no ledger entry yet.
pub open spec fn unopened(users: Seq<OpeningBalance>, count: int) -> Seq<int>
    decreases count,
{
    if count <= 0 {
        Seq::empty()
    } else if users[count - 1].has_entries {
        unopened(users, count - 1)
    } else {
        unopened(users, count - 1).push(count - 1)
    }
}

/// The entries that open the ledgers of the users who have none yet; nobody's is opened twice.
pub fn opening_entries(users: &[OpeningBalance]) -> (r: Vec<LedgerEntry>)
    ensures
        r@.len() == unopened(users@, users@.len() as int).len(),
        forall|i: int|
            0 <= i < r@.len() ==> opens_ledger(
                #[trigger] r@[i],
                users@[unopened(users@, users@.len() as int)[i]],
            ),
{
    let mut entries: Vec<LedgerEntry> = Vec::new();
    let mut i: usize = 0;
    while i < users.len()
        invariant
            i <= users@.len(),
            entries@.len() == unopened(users@, i as int).len(),
            forall|j: int|
                0 <= j < entries@.len() ==> opens_ledger(
                    #[trigger] entries@[j],
                    users@[unopened(users@, i as int)[j]],
                ),
        decreases users@.len() - i,
    {
        let user = &users[i];
        if !user.has_entries {
            entries.push(
                LedgerEntry {
                    id: text::concat("opening-", user.user_id.as_str()),
                    user_id: user.user_id.clone(),
                    delta: user.credits,
                    balance_after: user.credits,
                    reason: "opening_balance".to_owned(),
                    reference_id: text::concat("opening:", user.user_id.as_str()),
                    operator_user_id: None,
                    created_at: user.created_at.clone(),
                },
            );
        }
        i += 1;
    }
    entries
}

/// An image whose category was given by an older version of the rules, if its version is lower.
#[derive(Debug, PartialEq, Eq)]
pub struct Classified {
    pub id: String,
    pub prompt: String,
    pub category_version: i64,
}

/// A new category of an image.
#[derive(Debug, PartialEq, Eq)]
pub struct CategoryUpdate {
    pub id: String,
    pub category: &'static str,
    pub category_version: i64,
}

/// The places, below a count, of the images that are to be classified again.
pub open spec fn outdated(images: Seq<Classified>, count: int) -> Seq<int>
    decreases count,
{
    if count <= 0 {
        Seq::empty()
    } else if images[count - 1].category_version < CATEGORY_VERSION {
        outdated(images, count - 1).push(count - 1)
    } else {
        outdated(images, count - 1)
    }
}

/// The new categories of the images that an older version of the rules classified.
pub fn reclassify_images(images: &[Classified]) -> (r: Vec<CategoryUpdate>)
    ensures
        r@.len() == outdated(images@, images@.len() as int).len(),
        forall|i: int|
            0 <= i < r@.len() ==> reclassifies(
                #[trigger] r@[i],
                images@[outdated(images@, images@.len() as int)[i]],
            ),
{
    let mut updates: Vec<CategoryUpdate> = Vec::new();
    let mut i: usize = 0;
    while i < images.len()
        invariant
            i <= images@.len(),
            updates@.len() == outdated(images@, i as int).len(),
            forall|j: int|
                0 <= j < updates@.len() ==> reclassifies(
                    #[trigger] updates@[j],
                    images@[outdated(images@, i as int)[j]],
                ),
        decreases images@.len() - i,
    {
        let image = &images[i];
        if image.category_version < CATEGORY_VERSION {
            updates.push(
                CategoryUpdate {
                    id: image.id.clone(),
                    category: classification::classify_prompt(image.prompt.as_str()),
                    category_version: CATEGORY_VERSION,
                },
            );
        }
        i += 1;
    }
    updates
}

/// Whether an update gives an image the category of its prompt, by the present rules.
pub open spec fn reclassifies(update: CategoryUpdate, image: Classified) -> bool {
    &&& update.id@ == image.id@
    &&& update.category@ == classification::category_of(text::lowercase(image.prompt@))
    &&& update.category_version == CATEGORY_VERSION
}

/// A provider as an old database has it.
#[derive(Debug, PartialEq, Eq)]
pub struct PlainProvider {
    pub id: String,
    pub api_key: String,
    pub encryption_version: i64,
}

/// The sealed key of a provider, with what may be shown of it; the key itself is emptied.
#[derive(Debug, PartialEq, Eq)]
pub struct SealedProvider {
    pub id: String,
    pub api_key: String,
    pub api_key_cipher: String,
    pub key_prefix: String,
    pub key_suffix: String,
    pub encryption_version: i64,
}

/// Whether a provider's key is kept in the clear.
pub open spec fn is_plain(provider: PlainProvider) -> bool {
    provider.encryption_version == 0 && provider.api_key@.len() > 0
}

/// Whether a provider's key was sealed: it can be read again under the master key.
pub open spec fn seals(sealed: SealedProvider, plain: PlainProvider, master_key: Seq<u8>) -> bool {
    let shown = security::shown_lengths(plain.api_key@.len() as int);
    &&& sealed.id@ == plain.id@
    &&& sealed.api_key@ == ""@
    &&& security::secret_of(master_key, sealed.api_key_cipher@) == Ok::<Seq<char>, Seq<char>>(
        plain.api_key@,
    )
    &&& sealed.key_prefix@ == plain.api_key@.take(shown.0)
    &&& sealed.key_suffix@ == plain.api_key@.skip(plain.api_key@.len() - shown.1)
    &&& sealed.encryption_version == 1
}

/// Whether a key is short enough to be sealed.
pub open spec fn sealable(key: Seq<char>) -> bool {
    vstd::utf8::encode_utf8(key).len() <= security::SEAL_LIMIT
}

/// The places, below a count, of the providers whose keys are kept in the clear.
pub open spec fn plain_places(providers: Seq<PlainProvider>, count: int) -> Seq<int>
    decreases count,
{
    if count <= 0 {
        Seq::empty()
    } else if is_plain(providers[count - 1]) {
        plain_places(providers, count - 1).push(count - 1)
    } else {
        plain_places(providers, count - 1)
    }
}

/// Seals the keys that are kept in the clear.
pub fn migrate_provider_secrets(providers: &[PlainProvider], master_key: &[u8; 32]) -> (r: AppResult<
    Vec<SealedProvider>,
>)
    ensures
        if forall|i: int|
            0 <= i < providers@.len() && is_plain(#[trigger] providers@[i]) ==> sealable(
                providers@[i].api_key@,
            ) {
            &&& r matches Ok(sealed)
            &&& sealed@.len() == plain_places(providers@, providers@.len() as int).len()
            &&& forall|i: int|
                0 <= i < sealed@.len() ==> seals(
                    #[trigger] sealed@[i],
                    providers@[plain_places(providers@, providers@.len() as int)[i]],
                    master_key@,
                )
        } else {
            model::refused(r, INTERNAL_SERVER_ERROR, "凭证加密失败"@)
        },
{
    let mut sealed: Vec<SealedProvider> = Vec::new();
    let mut i: usize = 0;
    while i < providers.len()
        invariant
            i <= providers@.len(),
            forall|j: int|
                0 <= j < i && is_plain(#[trigger] providers@[j]) ==> sealable(
                    providers@[j].api_key@,
                ),
            sealed@.len() == plain_places(providers@, i as int).len(),
            forall|j: int|
                0 <= j < sealed@.len() ==> seals(
                    #[trigger] sealed@[j],
                    providers@[plain_places(providers@, i as int)[j]],
                    master_key@,
                ),
        decreases providers@.len() - i,
    {
        let provider = &providers[i];
        if provider.encryption_version == 0 && text::characters(provider.api_key.as_str()).len()
            > 0 {
            assert(is_plain(providers@[i as int]));
            match security::encrypt_secret(master_key, provider.api_key.as_str()) {
                Ok(cipher) => {
                    let (prefix, suffix) = security::key_parts(provider.api_key.as_str());
                    sealed.push(
                        SealedProvider {
                            id: provider.id.clone(),
                            api_key: "".to_owned(),
                            api_key_cipher: cipher,
                            key_prefix: prefix,
                            key_suffix: suffix,
                            encryption_version: 1,
                        },
                    );
                },
                Err(error) => {
                    return Err(error);
                },
            }
        }
        i += 1;
    }
    Ok(sealed)
}

/// Once all columns are there, nothing is added; so bringing a database up to date twice is the
/// same as once.
pub proof fn complete_tables_stay_as_they_are(existing: Seq<(String, String)>, count: int)
    requires
        0 <= count <= COLUMNS@.len(),
        forall|i: int|
            0 <= i < COLUMNS@.len() ==> has_column(
                existing,
                (#[trigger] COLUMNS@[i]).0@,
                COLUMNS@[i].1@,
            ),
    ensures
        missing_places(existing, count).len() == 0,
    decreases count,
{
    if count > 0 {
        complete_tables_stay_as_they_are(existing, count - 1);
        assert(has_column(existing, COLUMNS@[count - 1].0@, COLUMNS@[count - 1].1@));
    }
}

/// A ledger that was opened is not opened again.
pub proof fn opened_ledgers_stay_as_they_are(users: Seq<OpeningBalance>, count: int)
    requires
        0 <= count <= users.len(),
        forall|i: int| 0 <= i < users.len() ==> (#[trigger] users[i]).has_entries,
    ensures
        unopened(users, count).len() == 0,
    decreases count,
{
    if count > 0 {
        opened_ledgers_stay_as_they_are(users, count - 1);
        assert(users[count - 1].has_entries);
    }
}

/// A sealed provider is not sealed again.
pub proof fn sealed_keys_stay_as_they_are(plain: PlainProvider, sealed: SealedProvider, key: Seq<u8>)
    requires
        seals(sealed, plain, key),
    ensures
        !is_plain(
            (PlainProvider {
                id: sealed.id,
                api_key: sealed.api_key,
                encryption_version: sealed.encryption_version,
            }),
        ),
{
}

/// A machine gets as many readers as it runs in parallel, but no fewer than two and no more than
/// eight.
pub proof fn readers_follow_the_machine(parallelism: Option<usize>, r: usize)
    requires
        call_ensures(reader_count, (parallelism,), r),
    ensures
        parallelism is None ==> r == 2,
        parallelism is Some && 2 <= parallelism->0 <= 8 ==> r == parallelism->0,
        parallelism is Some && parallelism->0 < 2 ==> r == 2,
        parallelism is Some && parallelism->0 > 8 ==> r == 8,
{
}

/// Whoever asks for a reader gets one as long as one is idle or may be opened; an idle one comes
/// first.
pub proof fn readers_are_lent_while_there_are_any(pool: &mut ReaderPool, r: ReaderStep)
    requires
        old(pool).wf(),
        call_ensures(ReaderPool::acquire, (pool,), r),
    ensures
        r is Reuse <==> old(pool).idle > 0,
        r is Open <==> old(pool).idle == 0 && old(pool).open < old(pool).max,
        r is Wait <==> old(pool).idle == 0 && old(pool).open == old(pool).max,
        r is Wait ==> *final(pool) == *old(pool),
        !(r is Wait) ==> final(pool).open - final(pool).idle == old(pool).open - old(pool).idle + 1,
        final(pool).idle <= final(pool).open <= final(pool).max,
        final(pool).max == old(pool).max,
{
}

/// A reader that is given back can be lent again at once, without opening one more.
pub proof fn returned_readers_are_lent_again(
    pool: &mut ReaderPool,
    next: &mut ReaderPool,
    r: ReaderStep,
)
    requires
        old(pool).wf(),
        old(pool).open > old(pool).idle,
        call_ensures(ReaderPool::release, (pool,), ()),
        *old(next) == *final(pool),
        call_ensures(ReaderPool::acquire, (next,), r),
    ensures
        r is Reuse,
        final(pool).idle == old(pool).idle + 1,
        final(next).open == old(pool).open,
        final(next).idle == old(pool).idle,
{
}

/// A reader that could not be opened makes room for another.
pub proof fn failed_readers_make_room(
    pool: &mut ReaderPool,
    failed: &mut ReaderPool,
    r: ReaderStep,
)
    requires
        old(pool).wf(),
        call_ensures(ReaderPool::acquire, (pool,), r),
        r is Open,
        *old(failed) == *final(pool),
        call_ensures(ReaderPool::open_failed, (failed,), ()),
    ensures
        *final(failed) == *old(pool),
{
}

/// A pool starts with no reader open.
pub proof fn pools_start_empty(max: usize, r: ReaderPool)
    requires
        call_ensures(ReaderPool::new, (max,), r),
    ensures
        r.idle == 0,
        r.open == 0,
        r.max == max,
{
}

/// A database is copied before it is brought up to date, and only then.
pub proof fn old_databases_are_copied(exists: bool, version: i64, r: bool)
    requires
        call_ensures(needs_backup, (exists, version), r),
    ensures
        r <==> exists && version < 11,
{
}

/// A copy of the database carries its time in its name.
pub proof fn copies_carry_their_time(now: Moment, r: Option<String>)
    requires
        call_ensures(backup_name, (now,), r),
    ensures
        r is Some <==> now.representable(),
        r is Some ==> r->0@ == "lumora-"@ + stamp_text(now.secs as int, now.nanos as int) + ".db"@,
{
}

/// A day runs from its midnight to the next.
pub proof fn days_run_from_midnight(
    now: Moment,
    start: Moment,
    end: Option<Moment>,
    r: Option<(String, String)>,
)
    requires
        now.representable(),
        call_ensures(Moment::midnight, (&now,), start),
        call_ensures(Moment::checked_plus_days, (&start, 1), end),
        call_ensures(utc_day_bounds, (now,), r),
    ensures
        r is Some <==> end is Some,
        r is Some ==> (r->0).0@ == clock::rfc3339_text(start.secs as int, 0) && (r->0).1@
            == clock::rfc3339_text(end->0.secs as int, 0),
{
}

/// A column is added with its name and definition to its table.
pub proof fn columns_are_added_to_their_table(
    table: &str,
    name: &str,
    definition: &str,
    r: String,
)
    requires
        call_ensures(add_column, (table, name, definition), r),
    ensures
        r@ == "ALTER TABLE "@ + table@ + " ADD COLUMN "@ + name@ + " "@ + definition@,
{
}

proof fn lemma_missing_place(existing: Seq<(String, String)>, count: int, i: int) -> (k: int)
    requires
        0 <= i < count <= COLUMNS@.len(),
        !has_column(existing, COLUMNS@[i].0@, COLUMNS@[i].1@),
    ensures
        0 <= k < missing_places(existing, count).len(),
        missing_places(existing, count)[k] == i,
    decreases count,
{
    if i == count - 1 {
        missing_places(existing, count).len() - 1
    } else {
        lemma_missing_place(existing, count - 1, i)
    }
}

proof fn lemma_missing_are_missing(existing: Seq<(String, String)>, count: int, k: int)
    requires
        0 <= count <= COLUMNS@.len(),
        0 <= k < missing_places(existing, count).len(),
    ensures
        ({
            let i = missing_places(existing, count)[k];
            0 <= i < count && !has_column(existing, COLUMNS@[i].0@, COLUMNS@[i].1@)
        }),
    decreases count,
{
    if count > 0 {
        let before = missing_places(existing, count - 1);
        if k < before.len() {
            lemma_missing_are_missing(existing, count - 1, k);
        }
    }
}

/// Every column that a table lacks is added, and none that it has.
pub proof fn missing_columns_are_added(
    existing: &[(String, String)],
    r: Vec<String>,
    i: int,
    k: int,
)
    requires
        call_ensures(missing_columns, (existing,), r),
        0 <= i < COLUMNS@.len(),
    ensures
        (forall|j: int|
            0 <= j < existing@.len() ==> !((#[trigger] existing@[j]).0@ == COLUMNS@[i].0@
                && existing@[j].1@ == COLUMNS@[i].1@)) ==> text::views(r@).contains(
            "ALTER TABLE "@ + COLUMNS@[i].0@ + " ADD COLUMN "@ + COLUMNS@[i].1@ + " "@
                + COLUMNS@[i].2@,
        ),
        0 <= k < r@.len() ==> exists|c: int|
            {
                &&& 0 <= c < COLUMNS@.len()
                &&& r@[k]@ == "ALTER TABLE "@ + (#[trigger] COLUMNS@[c]).0@ + " ADD COLUMN "@
                    + COLUMNS@[c].1@ + " "@ + COLUMNS@[c].2@
                &&& !has_column(existing@, COLUMNS@[c].0@, COLUMNS@[c].1@)
            },
{
    let n = COLUMNS@.len() as int;
    let places = missing_places(existing@, n);
    let statements = text::views(r@);
    assert(statements.len() == r@.len());
    if forall|j: int|
        0 <= j < existing@.len() ==> !((#[trigger] existing@[j]).0@ == COLUMNS@[i].0@
            && existing@[j].1@ == COLUMNS@[i].1@) {
        assert(!has_column(existing@, COLUMNS@[i].0@, COLUMNS@[i].1@));
        let p = lemma_missing_place(existing@, n, i);
        assert(statements[p] == column_alteration(i));
    }
    if 0 <= k < r@.len() {
        assert(statements[k] == r@[k]@);
        lemma_missing_are_missing(existing@, n, k);
        let c = places[k];
        assert(r@[k]@ == column_alteration(c));
        assert(COLUMNS@[c].0@ == COLUMNS@[c].0@);
    }
}

proof fn lemma_unopened_prefix(
    users: Seq<OpeningBalance>,
    more: Seq<OpeningBalance>,
    count: int,
)
    requires
        count <= users.len() <= more.len(),
        forall|i: int| 0 <= i < users.len() ==> users[i] == more[i],
    ensures
        unopened(users, count) == unopened(more, count),
        forall|k: int| 0 <= k < unopened(users, count).len() ==> 0 <= #[trigger] unopened(
            users,
            count,
        )[k] < count,
    decreases count,
{
    if count > 0 {
        lemma_unopened_prefix(users, more, count - 1);
    }
}

/// A user without a ledger gets one line that opens it with the credits that are there; a user
/// with one gets none.
pub proof fn ledgers_open_with_the_credits(
    users: &[OpeningBalance],
    more: &[OpeningBalance],
    user: OpeningBalance,
    r: Vec<LedgerEntry>,
    s: Vec<LedgerEntry>,
)
    requires
        more@ == users@.push(user),
        call_ensures(opening_entries, (users,), r),
        call_ensures(opening_entries, (more,), s),
    ensures
        users@.len() == 0 ==> r@.len() == 0,
        user.has_entries ==> s@.len() == r@.len(),
        !user.has_entries ==> {
            let entry = s@.last();
            &&& s@.len() == r@.len() + 1
            &&& entry.user_id@ == user.user_id@
            &&& entry.delta == user.credits
            &&& entry.balance_after == user.credits
            &&& entry.reason@ == "opening_balance"@
            &&& entry.reference_id@ == "opening:"@ + user.user_id@
            &&& entry.id@ == "opening-"@ + user.user_id@
            &&& entry.created_at@ == user.created_at@
            &&& entry.operator_user_id is None
        },
        forall|k: int|
            0 <= k < r@.len() ==> (#[trigger] s@[k]).user_id@ == r@[k].user_id@ && s@[k].delta
                == r@[k].delta && s@[k].balance_after == r@[k].balance_after,
{
    let n = users@.len() as int;
    lemma_unopened_prefix(users@, more@, n);
    assert(more@[n] == user);
    let before = unopened(users@, n);
    let after = unopened(more@, n + 1);
    if !user.has_entries {
        assert(after.last() == n);
        assert(opens_ledger(s@[s@.len() - 1], more@[after[s@.len() - 1]]));
    }
    assert forall|k: int| 0 <= k < r@.len() implies (#[trigger] s@[k]).user_id@ == r@[k].user_id@
        && s@[k].delta == r@[k].delta && s@[k].balance_after == r@[k].balance_after by {
        assert(after[k] == before[k]);
        assert(opens_ledger(s@[k], more@[after[k]]));
        assert(opens_ledger(r@[k], users@[before[k]]));
    }
}

proof fn lemma_outdated_prefix(images: Seq<Classified>, more: Seq<Classified>, count: int)
    requires
        count <= images.len() <= more.len(),
        forall|i: int| 0 <= i < images.len() ==> images[i] == more[i],
    ensures
        outdated(images, count) == outdated(more, count),
        forall|k: int| 0 <= k < outdated(images, count).len() ==> 0 <= #[trigger] outdated(
            images,
            count,
        )[k] < count,
    decreases count,
{
    if count > 0 {
        lemma_outdated_prefix(images, more, count - 1);
    }
}

/// An image that older rules classified gets the category that its prompt has by the present
/// ones; all others keep theirs.
pub proof fn old_images_are_classified_again(
    images: &[Classified],
    more: &[Classified],
    image: Classified,
    prompt: &str,
    category: &'static str,
    r: Vec<CategoryUpdate>,
    s: Vec<CategoryUpdate>,
)
    requires
        more@ == images@.push(image),
        prompt@ == image.prompt@,
        call_ensures(classification::classify_prompt, (prompt,), category),
        call_ensures(reclassify_images, (images,), r),
        call_ensures(reclassify_images, (more,), s),
    ensures
        images@.len() == 0 ==> r@.len() == 0,
        image.category_version >= CATEGORY_VERSION ==> s@.len() == r@.len(),
        image.category_version < CATEGORY_VERSION ==> s@.len() == r@.len() + 1 && s@.last().id@
            == image.id@ && s@.last().category@ == category@ && s@.last().category_version
            == CATEGORY_VERSION,
        forall|k: int|
            0 <= k < r@.len() ==> (#[trigger] s@[k]).id@ == r@[k].id@ && s@[k].category@
                == r@[k].category@,
{
    let n = images@.len() as int;
    lemma_outdated_prefix(images@, more@, n);
    assert(more@[n] == image);
    let before = outdated(images@, n);
    let after = outdated(more@, n + 1);
    if image.category_version < CATEGORY_VERSION {
        assert(after.last() == n);
        assert(reclassifies(s@[s@.len() - 1], more@[after[s@.len() - 1]]));
    }
    assert forall|k: int| 0 <= k < r@.len() implies (#[trigger] s@[k]).id@ == r@[k].id@
        && s@[k].category@ == r@[k].category@ by {
        assert(after[k] == before[k]);
        assert(reclassifies(s@[k], more@[after[k]]));
        assert(reclassifies(r@[k], images@[before[k]]));
    }
}

proof fn lemma_plain_place(providers: Seq<PlainProvider>, count: int, i: int) -> (k: int)
    requires
        0 <= i < count <= providers.len(),
        is_plain(providers[i]),
    ensures
        0 <= k < plain_places(providers, count).len(),
        plain_places(providers, count)[k] == i,
    decreases count,
{
    if i == count - 1 {
        plain_places(providers, count).len() - 1
    } else {
        lemma_plain_place(providers, count - 1, i)
    }
}

proof fn lemma_plain_are_plain(providers: Seq<PlainProvider>, count: int, k: int)
    requires
        0 <= count <= providers.len(),
        0 <= k < plain_places(providers, count).len(),
    ensures
        0 <= plain_places(providers, count)[k] < count,
        is_plain(providers[plain_places(providers, count)[k]]),
    decreases count,
{
    if count > 0 && k < plain_places(providers, count - 1).len() {
        lemma_plain_are_plain(providers, count - 1, k);
    }
}

/// Every key that is kept in the clear is sealed: it is emptied, and what is stored of it can be
/// opened again under the master key.
pub proof fn clear_keys_are_sealed(
    providers: &[PlainProvider],
    master_key: &[u8; 32],
    r: AppResult<Vec<SealedProvider>>,
    i: int,
)
    requires
        call_ensures(migrate_provider_secrets, (providers, master_key), r),
        r is Ok,
        0 <= i < providers@.len(),
        providers@[i].encryption_version == 0,
        providers@[i].api_key@.len() > 0,
    ensures
        exists|k: int|
            {
                &&& 0 <= k < r->Ok_0@.len()
                &&& (#[trigger] r->Ok_0@[k]).id@ == providers@[i].id@
                &&& r->Ok_0@[k].api_key@.len() == 0
                &&& r->Ok_0@[k].encryption_version == 1
                &&& security::secret_of(master_key@, r->Ok_0@[k].api_key_cipher@) == Ok::<
                    Seq<char>,
                    Seq<char>,
                >(providers@[i].api_key@)
                &&& r->Ok_0@[k].key_prefix@.is_prefix_of(providers@[i].api_key@)
                &&& r->Ok_0@[k].key_suffix@.is_suffix_of(providers@[i].api_key@)
                &&& r->Ok_0@[k].key_prefix@.len() + r->Ok_0@[k].key_suffix@.len()
                    < providers@[i].api_key@.len()
            },
{
    reveal_strlit("");
    let n = providers@.len() as int;
    assert(is_plain(providers@[i]));
    let k = lemma_plain_place(providers@, n, i);
    let sealed = r->Ok_0@[k];
    let key = providers@[i].api_key@;
    assert(seals(sealed, providers@[plain_places(providers@, n)[k]], master_key@));
    assert(key.subrange(0, sealed.key_prefix@.len() as int) =~= sealed.key_prefix@);
    assert(key.subrange(key.len() - sealed.key_suffix@.len(), key.len() as int)
        =~= sealed.key_suffix@);
    assert(r->Ok_0@[k].id@ == providers@[i].id@);
}

/// Only keys that are kept in the clear are sealed.
pub proof fn sealed_keys_are_left_alone(
    providers: &[PlainProvider],
    master_key: &[u8; 32],
    r: AppResult<Vec<SealedProvider>>,
    k: int,
)
    requires
        call_ensures(migrate_provider_secrets, (providers, master_key), r),
        r is Ok,
        0 <= k < r->Ok_0@.len(),
    ensures
        exists|i: int|
            {
                &&& 0 <= i < providers@.len()
                &&& (#[trigger] providers@[i]).id@ == r->Ok_0@[k].id@
                &&& providers@[i].encryption_version == 0
                &&& providers@[i].api_key@.len() > 0
            },
{
    let n = providers@.len() as int;
    lemma_plain_are_plain(providers@, n, k);
    let i = plain_places(providers@, n)[k];
    assert(seals(r->Ok_0@[k], providers@[i], master_key@));
    assert(providers@[i].id@ == r->Ok_0@[k].id@);
}

/// Sealing fails only where a key in the clear is too long to be sealed.
pub proof fn sealing_fails_for_endless_keys_only(
    providers: &[PlainProvider],
    master_key: &[u8; 32],
    r: AppResult<Vec<SealedProvider>>,
)
    requires
        call_ensures(migrate_provider_secrets, (providers, master_key), r),
        forall|i: int|
            0 <= i < providers@.len() ==> vstd::utf8::encode_utf8(
                (#[trigger] providers@[i]).api_key@,
            ).len() <= 68_719_476_736,
    ensures
        r is Ok,
{
}

/// Errors of the database are the server's own.
pub proof fn database_errors_are_internal(failed: AppError, unreachable: AppError)
    requires
        call_ensures(internal_error, (), failed),
        call_ensures(unavailable, (), unreachable),
    ensures
        failed.0 == 500,
        unreachable.0 == 500,
{
}

} // verus!
