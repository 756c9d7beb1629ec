//! Users' own settings: their providers, their profile and their usage.

use vstd::prelude::*;

use crate::auth;
use crate::clock;
use crate::clock::Moment;
use crate::model;
use crate::model::{
    refuse, AppError, AppResult, CreateProviderRequest, ProviderConfiguration, ProviderResponse,
    UpdateProfileRequest, UserResponse, BAD_REQUEST, CONFLICT, INTERNAL_SERVER_ERROR, MODEL,
    NOT_FOUND, SERVICE_UNAVAILABLE,
};
use crate::security;
use crate::text;
use crate::token;

verus! {

/// What is read of a URL.
#[derive(Debug, PartialEq, Eq)]
pub struct UrlParts {
    pub scheme: String,
    pub host: Option<String>,
    pub username: String,
    pub has_password: bool,
    pub has_query: bool,
    pub has_fragment: bool,
}

impl UrlParts {
    /// The parts as texts: scheme, host, user name, and whether there are a password, a query
    /// and a fragment.
    pub open spec fn as_texts(self) -> (Seq<char>, Option<Seq<char>>, Seq<char>, bool, bool, bool) {
        (
            self.scheme@,
            text::opt(self.host),
            self.username@,
            self.has_password,
            self.has_query,
            self.has_fragment,
        )
    }
}

/// What `reqwest::Url::parse` reads in a text: scheme, host, user name, and whether there are a
/// password, a query and a fragment; nothing where the text is no URL.
pub uninterp spec fn parsed_url(value: Seq<char>) -> Option<
    (Seq<char>, Option<Seq<char>>, Seq<char>, bool, bool, bool),
>;

/// Calls `reqwest::Url::parse` and takes the parts of the URL apart; the text alone decides
/// whether it is one, and which parts it has.
#[verifier::external_body]
pub(crate) fn parse_url(value: &str) -> (parts: Option<UrlParts>)
    ensures
        match parts {
            Some(read) => parsed_url(value@) == Some(read.as_texts()),
            None => parsed_url(value@) is None,
        },
{
    let url = reqwest::Url::parse(value).ok()?;
    Some(UrlParts {
        scheme: url.scheme().to_owned(),
        host: url.host_str().map(str::to_owned),
        username: url.username().to_owned(),
        has_password: url.password().is_some(),
        has_query: url.query().is_some(),
        has_fragment: url.fragment().is_some(),
    })
}

/// Why a base URL with these parts is refused, if it is.
pub open spec fn url_refusal(
    parts: Option<(Seq<char>, Option<Seq<char>>, Seq<char>, bool, bool, bool)>,
) -> Option<(u16, Seq<char>)> {
    match parts {
        None => Some((BAD_REQUEST, "Base URL 无效"@)),
        Some(url) => {
            let local = url.1 == Some("127.0.0.1"@) || url.1 == Some("localhost"@);
            if url.0 != "https"@ && !local {
                Some((BAD_REQUEST, "Base URL 必须使用 HTTPS"@))
            } else if url.2.len() > 0 || url.3 || url.4 || url.5 {
                Some((BAD_REQUEST, "Base URL 无效"@))
            } else {
                None
            }
        },
    }
}

/// The text of a base URL as it is kept: trimmed, and without slashes at its end.
pub open spec fn base_url_text(value: Seq<char>) -> Seq<char> {
    text::trimmed_end(text::trimmed(value), '/')
}

/// Accepts the parts of a base URL: HTTPS, unless it is on this host, and neither user, query
/// nor fragment.
pub fn check_url(parts: &Option<UrlParts>) -> (r: AppResult<()>)
    ensures
        model::answers(
            r,
            url_refusal(
                match *parts {
                    Some(url) => Some(url.as_texts()),
                    None => None,
                },
            ),
        ),
{
    let url = match parts {
        Some(url) => url,
        None => {
            return refuse(BAD_REQUEST, "Base URL 无效");
        },
    };
    let local = match &url.host {
        Some(host) => text::same(host.as_str(), "127.0.0.1") || text::same(
            host.as_str(),
            "localhost",
        ),
        None => false,
    };
    if !text::same(url.scheme.as_str(), "https") && !local {
        return refuse(BAD_REQUEST, "Base URL 必须使用 HTTPS");
    }
    if text::characters(url.username.as_str()).len() > 0 || url.has_password || url.has_query
        || url.has_fragment {
        return refuse(BAD_REQUEST, "Base URL 无效");
    }
    Ok(())
}

/// The text of a base URL as it is kept, if the URL is accepted.
pub fn normalize_base_url(value: &str) -> (r: AppResult<String>)
    ensures
        model::answers(r, url_refusal(parsed_url(base_url_text(value@)))),
        r matches Ok(kept) ==> kept@ == base_url_text(value@),
{
    let trimmed = text::trim_end_matches(text::trim(value), '/');
    let parts = parse_url(trimmed);
    match check_url(&parts) {
        Ok(()) => Ok(trimmed.to_owned()),
        Err(error) => Err(error),
    }
}

/// Whether name and key of a new provider are refused.
pub open spec fn provider_texts_refused(name: Seq<char>, api_key: Seq<char>) -> bool {
    ||| name.len() == 0
    ||| vstd::utf8::encode_utf8(name).len() > 80
    ||| api_key.len() == 0
    ||| vstd::utf8::encode_utf8(api_key).len() > 500
}

/// Why a new provider is refused, if it is.
pub open spec fn provider_refusal(request: CreateProviderRequest) -> Option<(u16, Seq<char>)> {
    if provider_texts_refused(text::trimmed(request.name@), text::trimmed(request.api_key@)) {
        Some((BAD_REQUEST, "调用方参数无效"@))
    } else {
        url_refusal(parsed_url(base_url_text(request.base_url@)))
    }
}

/// A new provider: what the user sees of it, and the sealed key.
#[derive(Debug, PartialEq, Eq)]
pub struct NewProvider {
    pub provider: ProviderResponse,
    pub api_key_cipher: String,
    pub key_prefix: String,
    pub key_suffix: String,
}

/// Whether a new provider is that of a request: its key is kept sealed, and can be read again.
pub open spec fn is_new_provider(
    new: NewProvider,
    request: CreateProviderRequest,
    master_key: Seq<u8>,
    is_first: bool,
) -> bool {
    let key = text::trimmed(request.api_key@);
    let shown = security::shown_lengths(key.len() as int);
    &&& token::is_identifier(new.provider.id@, "provider-"@)
    &&& new.provider.name@ == text::trimmed(request.name@)
    &&& new.provider.base_url@ == base_url_text(request.base_url@)
    &&& new.key_prefix@ == key.take(shown.0)
    &&& new.key_suffix@ == key.skip(key.len() - shown.1)
    &&& new.provider.masked_api_key@ == security::masked(new.key_prefix@, new.key_suffix@)
    &&& new.provider.model@ == MODEL@
    &&& new.provider.is_active == is_first
    &&& !new.provider.needs_rotation
    &&& security::secret_of(master_key, new.api_key_cipher@) == Ok::<Seq<char>, Seq<char>>(key)
}

/// A new provider, active if it is the first; its key is sealed under the master key.
pub fn create_provider(request: &CreateProviderRequest, master_key: &[u8; 32], is_first: bool) -> (r:
    AppResult<NewProvider>)
    ensures
        model::answers(r, provider_refusal(*request)),
        r matches Ok(new) ==> is_new_provider(new, *request, master_key@, is_first),
        r matches Ok(new) ==> exists|now: Moment|
            now.representable() && new.provider.created_at@ == #[trigger] clock::rfc3339_text(
                now.secs as int,
                now.nanos as int,
            ),
{
    let name = text::trim(request.name.as_str());
    let api_key = text::trim(request.api_key.as_str());
    if text::characters(name).len() == 0 || text::byte_len(name) > 80 || text::characters(
        api_key,
    ).len() == 0 || text::byte_len(api_key) > 500 {
        return refuse(BAD_REQUEST, "调用方参数无效");
    }
    let base_url = match normalize_base_url(request.base_url.as_str()) {
        Ok(kept) => kept,
        Err(error) => {
            return Err(error);
        },
    };
    let id = token::fresh_identifier("provider-");
    let created_at = clock::rfc3339(clock::utc_now());
    let cipher = match security::encrypt_secret(master_key, api_key) {
        Ok(cipher) => cipher,
        Err(error) => {
            return Err(error);
        },
    };
    let (prefix, suffix) = security::key_parts(api_key);
    Ok(
        NewProvider {
            provider: ProviderResponse {
                id,
                name: name.to_owned(),
                base_url,
                masked_api_key: security::mask_key(prefix.as_str(), suffix.as_str()),
                model: MODEL.to_owned(),
                is_active: is_first,
                created_at,
                needs_rotation: false,
            },
            api_key_cipher: cipher,
            key_prefix: prefix,
            key_suffix: suffix,
        },
    )
}

/// One of the providers among which one is active.
#[derive(Debug, PartialEq, Eq)]
pub struct ProviderSlot {
    pub id: String,
    pub created_at: String,
    pub is_active: bool,
}

/// Whether exactly one provider is active, or there is none at all.
pub open spec fn one_active(slots: Seq<ProviderSlot>) -> bool {
    slots.len() > 0 ==> exists|i: int| #[trigger] only_active(slots, i)
}

/// Whether provider `i` is active, and no other.
pub open spec fn only_active(slots: Seq<ProviderSlot>, i: int) -> bool {
    &&& 0 <= i < slots.len()
    &&& forall|j: int| 0 <= j < slots.len() ==> (#[trigger] slots[j]).is_active == (j == i)
}

/// Whether some provider has the identifier.
pub open spec fn has_provider(slots: Seq<ProviderSlot>, id: Seq<char>) -> bool {
    exists|i: int| 0 <= i < slots.len() && (#[trigger] slots[i]).id@ == id
}

/// The place of the provider with the identifier.
fn find_provider(slots: &[ProviderSlot], id: &str) -> (r: Option<usize>)
    ensures
        match r {
            Some(i) => i < slots@.len() && slots@[i as int].id@ == id@,
            None => !has_provider(slots@, id@),
        },
{
    let mut i: usize = 0;
    while i < slots.len()
        invariant
            i <= slots@.len(),
            forall|j: int| 0 <= j < i ==> (#[trigger] slots@[j]).id@ != id@,
        decreases slots@.len() - i,
    {
        if text::same(slots[i].id.as_str(), id) {
            return Some(i);
        }
        i += 1;
    }
    None
}

/// Whether the second list is the first with provider `i` active, and no other.
pub open spec fn activated(before: Seq<ProviderSlot>, after: Seq<ProviderSlot>, i: int) -> bool {
    &&& after.len() == before.len()
    &&& forall|j: int|
        0 <= j < after.len() ==> (#[trigger] after[j]).id == before[j].id && after[j].created_at
            == before[j].created_at
    &&& only_active(after, i)
}

/// The providers with provider `chosen` active, and no other.
fn with_active(slots: Vec<ProviderSlot>, chosen: usize) -> (r: Vec<ProviderSlot>)
    requires
        chosen < slots@.len(),
    ensures
        activated(slots@, r@, chosen as int),
{
    let mut out: Vec<ProviderSlot> = Vec::new();
    let ghost all = slots@;
    for slot in iter: slots
        invariant
            iter.seq() == all,
            out@.len() == iter.index(),
            forall|j: int|
                0 <= j < out@.len() ==> (#[trigger] out@[j]).id == all[j].id && out@[j].created_at
                    == all[j].created_at && out@[j].is_active == (j == chosen),
    {
        let is_active = out.len() == chosen;
        out.push(ProviderSlot { id: slot.id, created_at: slot.created_at, is_active });
    }
    out
}

/// Makes a provider the active one: it must be among them.
pub fn activate_provider(slots: Vec<ProviderSlot>, id: &str) -> (r: AppResult<Vec<ProviderSlot>>)
    ensures
        if has_provider(slots@, id@) {
            &&& r matches Ok(after)
            &&& is_activated(slots@, after@, id@)
            &&& one_active(after@)
        } else {
            model::refused(r, NOT_FOUND, "调用方不存在"@)
        },
{
    match find_provider(&slots, id) {
        Some(i) => {
            assert(has_provider(slots@, id@));
            let ghost all = slots@;
            let after = with_active(slots, i);
            proof {
                assert(all[i as int].id@ == id@ && activated(all, after@, i as int));
                assert(is_activated(all, after@, id@));
                assert(only_active(after@, i as int));
                assert(one_active(after@));
            }
            Ok(after)
        },
        None => refuse(NOT_FOUND, "调用方不存在"),
    }
}

/// Whether no provider is newer than provider `i`.
pub open spec fn is_newest(slots: Seq<ProviderSlot>, i: int) -> bool {
    &&& 0 <= i < slots.len()
    &&& forall|j: int|
        0 <= j < slots.len() ==> !text::precedes(slots[i].created_at@, (
        #[trigger] slots[j]).created_at@)
}

/// The place of a newest provider.
fn newest(slots: &[ProviderSlot]) -> (r: usize)
    requires
        slots@.len() > 0,
    ensures
        is_newest(slots@, r as int),
{
    let mut best: usize = 0;
    let mut i: usize = 1;
    proof {
        text::order_is_irreflexive(slots@[0].created_at@);
    }
    while i < slots.len()
        invariant
            best < i <= slots@.len(),
            forall|j: int|
                0 <= j < i ==> !text::precedes(slots@[best as int].created_at@, (
                #[trigger] slots@[j]).created_at@),
        decreases slots@.len() - i,
    {
        let ghost previous = slots@[best as int].created_at@;
        let ghost candidate = slots@[i as int].created_at@;
        if text::before(slots[best].created_at.as_str(), slots[i].created_at.as_str()) {
            best = i;
            proof {
                text::order_is_irreflexive(candidate);
                assert forall|j: int| 0 <= j < i + 1 implies !text::precedes(candidate, (
                #[trigger] slots@[j]).created_at@) by {
                    if j < i && text::precedes(candidate, slots@[j].created_at@) {
                        text::order_is_transitive(previous, candidate, slots@[j].created_at@);
                    }
                }
            }
        }
        i += 1;
    }
    best
}

/// Takes a provider out: it must be among them. Where it was active, a newest of the others
/// becomes active, and the rest stay as they were.
pub fn delete_provider(slots: Vec<ProviderSlot>, id: &str) -> (r: AppResult<Vec<ProviderSlot>>)
    ensures
        if has_provider(slots@, id@) {
            r matches Ok(after) && is_deleted(slots@, after@, id@)
        } else {
            model::refused(r, NOT_FOUND, "调用方不存在"@)
        },
{
    let at: usize = match find_provider(&slots, id) {
        Some(i) => i,
        None => {
            return refuse(NOT_FOUND, "调用方不存在");
        },
    };
    assert(has_provider(slots@, id@));
    let mut rest = slots;
    let ghost all = rest@;
    let gone = rest.remove(at);
    if gone.is_active && rest.len() > 0 {
        let next: usize = newest(&rest);
        rest[next].is_active = true;
        assert(is_newest(all.remove(at as int), next as int) && switched_on(
            all.remove(at as int),
            rest@,
            next as int,
        ));
    }
    assert(all[at as int].id@ == id@ && removed(all, rest@, at as int));
    assert(is_deleted(all, rest@, id@));
    Ok(rest)
}

/// Whether the second list is the first with provider `i` made active and the others left as they
/// were.
pub open spec fn switched_on(before: Seq<ProviderSlot>, after: Seq<ProviderSlot>, i: int) -> bool {
    after == before.update(i, ProviderSlot { is_active: true, ..before[i] })
}

/// Whether the second list is the first without provider `i`, with a newest of the others made
/// active where `i` was.
pub open spec fn removed(before: Seq<ProviderSlot>, after: Seq<ProviderSlot>, i: int) -> bool {
    let rest = before.remove(i);
    if before[i].is_active && rest.len() > 0 {
        exists|k: int| is_newest(rest, k) && #[trigger] switched_on(rest, after, k)
    } else {
        after == rest
    }
}

/// Whether the second list is the first with a provider of this identifier active, and no other.
pub open spec fn is_activated(
    before: Seq<ProviderSlot>,
    after: Seq<ProviderSlot>,
    id: Seq<char>,
) -> bool {
    exists|i: int| before[i].id@ == id && #[trigger] activated(before, after, i)
}

/// Whether the second list is the first without a provider of this identifier.
pub open spec fn is_deleted(
    before: Seq<ProviderSlot>,
    after: Seq<ProviderSlot>,
    id: Seq<char>,
) -> bool {
    exists|i: int|
        0 <= i < before.len() && before[i].id@ == id && #[trigger] removed(before, after, i)
}

/// Deleting a provider keeps exactly one of the others active.
pub proof fn one_provider_stays_active(
    before: Seq<ProviderSlot>,
    after: Seq<ProviderSlot>,
    id: Seq<char>,
)
    requires
        one_active(before),
        is_deleted(before, after, id),
    ensures
        one_active(after),
{
    let i = choose|i: int|
        0 <= i < before.len() && before[i].id@ == id && #[trigger] removed(before, after, i);
    let rest = before.remove(i);
    let active = choose|k: int| #[trigger] only_active(before, k);
    assert(only_active(before, active));
    if before[i].is_active && rest.len() > 0 {
        let k = choose|k: int| is_newest(rest, k) && #[trigger] switched_on(rest, after, k);
        assert forall|j: int| 0 <= j < rest.len() implies !(#[trigger] rest[j]).is_active by {
            let x = if j < i { j } else { j + 1 };
            assert(rest[j] == before[x]);
        }
        assert(only_active(after, k));
    } else if rest.len() > 0 {
        assert(before[i].is_active == (i == active));
        let moved = if active < i { active } else { active - 1 };
        assert forall|j: int| 0 <= j < rest.len() implies (#[trigger] rest[j]).is_active == (j
            == moved) by {
            let x = if j < i { j } else { j + 1 };
            assert(rest[j] == before[x]);
        }
        assert(only_active(rest, moved));
    }
}

/// The first provider of a user is active, later ones are not: exactly one stays active.
pub proof fn a_new_provider_keeps_one_active(before: Seq<ProviderSlot>, new: ProviderSlot)
    requires
        one_active(before),
        new.is_active == (before.len() == 0),
    ensures
        one_active(before.push(new)),
{
    let after = before.push(new);
    if before.len() == 0 {
        assert(only_active(after, 0));
    } else {
        let active = choose|k: int| #[trigger] only_active(before, k);
        assert(only_active(before, active));
        assert forall|j: int| 0 <= j < after.len() implies (#[trigger] after[j]).is_active == (j
            == active) by {
            if j < before.len() {
                assert(after[j] == before[j]);
            }
        }
        assert(only_active(after, active));
    }
}

/// The stored form of a provider's key: an old one in the clear, or a sealed one.
#[derive(Debug, PartialEq, Eq)]
pub struct StoredProvider {
    pub id: String,
    pub base_url: String,
    pub api_key: String,
    pub api_key_cipher: Option<String>,
    pub encryption_version: i64,
    pub model: String,
}

/// The key of a stored provider, or why it cannot be had.
pub open spec fn provider_key(row: StoredProvider, master_key: Seq<u8>) -> Result<
    Seq<char>,
    Seq<char>,
> {
    if row.encryption_version == 1 {
        match row.api_key_cipher {
            Some(cipher) => security::secret_of(master_key, cipher@),
            None => Err("调用方凭证无效"@),
        }
    } else {
        Ok(row.api_key@)
    }
}

/// The provider that serves a user's calls: there must be an active one with a readable key.
pub fn active_provider(row: Option<StoredProvider>, master_key: &[u8; 32]) -> (r: AppResult<
    ProviderConfiguration,
>)
    ensures
        match row {
            None => model::refused(r, SERVICE_UNAVAILABLE, "请先配置并启用生图调用方"@),
            Some(found) => match provider_key(found, master_key@) {
                Ok(key) => {
                    &&& r matches Ok(provider)
                    &&& provider.id == found.id
                    &&& provider.base_url == found.base_url
                    &&& provider.api_key@ == key
                    &&& provider.model == found.model
                },
                Err(message) => model::refused(r, INTERNAL_SERVER_ERROR, message),
            },
        },
{
    let found = match row {
        Some(found) => found,
        None => {
            return refuse(SERVICE_UNAVAILABLE, "请先配置并启用生图调用方");
        },
    };
    let api_key = if found.encryption_version == 1 {
        match &found.api_key_cipher {
            Some(cipher) => match security::decrypt_secret(master_key, cipher.as_str()) {
                Ok(key) => key,
                Err(error) => {
                    return Err(error);
                },
            },
            None => {
                return refuse(INTERNAL_SERVER_ERROR, "调用方凭证无效");
            },
        }
    } else {
        found.api_key
    };
    Ok(
        ProviderConfiguration {
            id: found.id,
            base_url: found.base_url,
            api_key,
            model: found.model,
        },
    )
}

/// What is stored of a provider, as far as lists show it.
#[derive(Debug, PartialEq, Eq)]
pub struct ProviderRecord {
    pub id: String,
    pub name: String,
    pub base_url: String,
    pub prefix: String,
    pub suffix: String,
    pub model: String,
    pub is_active: bool,
    pub created_at: String,
    pub encryption_version: i64,
}

/// The list entry of a provider: keys that are not sealed yet are due to be replaced.
pub fn provider_item(record: ProviderRecord) -> (r: ProviderResponse)
    ensures
        r.id == record.id,
        r.name == record.name,
        r.base_url == record.base_url,
        r.masked_api_key@ == security::masked(record.prefix@, record.suffix@),
        r.model == record.model,
        r.is_active == record.is_active,
        r.created_at == record.created_at,
        r.needs_rotation == (record.encryption_version == 0),
{
    ProviderResponse {
        masked_api_key: security::mask_key(record.prefix.as_str(), record.suffix.as_str()),
        id: record.id,
        name: record.name,
        base_url: record.base_url,
        model: record.model,
        is_active: record.is_active,
        created_at: record.created_at,
        needs_rotation: record.encryption_version == 0,
    }
}

/// What changes in a profile; the password's hash only where there is a new password.
#[derive(Debug, PartialEq, Eq)]
pub struct ProfileChange {
    pub user: UserResponse,
    pub password_hash: Option<String>,
}

/// The new email address of a profile, in lower case: the given one, or the old one.
pub open spec fn profile_email(user: UserResponse, given: Option<Seq<char>>) -> Seq<char> {
    match given {
        Some(email) => email,
        None => user.email@,
    }
}

/// The email address, in lower case, that a request gives.
pub open spec fn requested_email(request: UpdateProfileRequest) -> Option<Seq<char>> {
    match request.email {
        Some(email) => Some(text::lowercase(text::trimmed(email@))),
        None => None,
    }
}

/// Why a change of a profile is refused, if it is: `taken` tells whether another user has the
/// new email address.
pub open spec fn profile_refusal(
    user: UserResponse,
    request: UpdateProfileRequest,
    email: Option<Seq<char>>,
    taken: bool,
) -> Option<(u16, Seq<char>)> {
    if email is Some && auth::bad_email(email->0) {
        Some((BAD_REQUEST, "邮箱格式无效"@))
    } else if email is Some && email->0 != user.email@ && taken {
        Some((CONFLICT, "该邮箱已被使用"@))
    } else if request.name is Some && (text::trimmed(request.name->0@).len() == 0
        || vstd::utf8::encode_utf8(text::trimmed(request.name->0@)).len() > 80) {
        Some((BAD_REQUEST, "昵称长度无效"@))
    } else if request.password is Some && auth::bad_password(request.password->0@) {
        Some((BAD_REQUEST, "密码长度需为 8-128 位"@))
    } else {
        None
    }
}

/// Whether a changed user is the old one with what the request gives.
pub open spec fn is_changed_user(
    changed: UserResponse,
    user: UserResponse,
    request: UpdateProfileRequest,
    email: Option<Seq<char>>,
) -> bool {
    &&& changed.id@ == user.id@
    &&& changed.name@ == match request.name {
        Some(name) => text::trimmed(name@),
        None => user.name@,
    }
    &&& changed.email@ == profile_email(user, email)
    &&& changed.avatar@ == match request.avatar {
        Some(avatar) => text::trimmed(avatar@),
        None => user.avatar@,
    }
    &&& changed.plan@ == user.plan@
    &&& changed.credits == user.credits
    &&& changed.credits_reserved == user.credits_reserved
}

/// The email address, in lower case, that a request gives, if it is one that differs from the
/// user's and so has to be looked up among the other users.
pub fn email_to_look_up(user: &UserResponse, email: &Option<String>) -> (r: Option<String>)
    ensures
        text::opt(r) == if *email is Some && !auth::bad_email((*email)->0@) && (*email)->0@
            != user.email@ {
            Some((*email)->0@)
        } else {
            None
        },
{
    match email {
        Some(given) => if auth::email_is_valid(given.as_str()) && !text::same(
            given.as_str(),
            user.email.as_str(),
        ) {
            Some(given.clone())
        } else {
            None
        },
        None => None,
    }
}

/// The email address that a request gives, trimmed and in lower case.
pub fn new_email(request: &UpdateProfileRequest) -> (r: Option<String>)
    ensures
        text::opt(r) == requested_email(*request),
{
    match &request.email {
        Some(email) => Some(text::to_lowercase(text::trim(email.as_str()))),
        None => None,
    }
}

/// Changes a profile. The email address was put in lower case before, and looked up where
/// needed; a new password is kept as a hash that it fits.
pub fn update_profile(
    user: &UserResponse,
    request: &UpdateProfileRequest,
    email: Option<String>,
    taken: bool,
) -> (r: AppResult<ProfileChange>)
    ensures
        match profile_refusal(*user, *request, text::opt(email), taken) {
            Some(refusal) => model::refused(r, refusal.0, refusal.1),
            None => {
                &&& r matches Ok(change)
                &&& is_changed_user(change.user, *user, *request, text::opt(email))
                &&& match request.password {
                    Some(password) => change.password_hash matches Some(hash) && auth::is_hash_of(
                        hash@,
                        password@,
                    ),
                    None => change.password_hash is None,
                }
            },
        },
{
    let mut changed = user.clone();
    match email {
        Some(given) => {
            if !auth::email_is_valid(given.as_str()) {
                return refuse(BAD_REQUEST, "邮箱格式无效");
            }
            if !text::same(given.as_str(), user.email.as_str()) {
                if taken {
                    return refuse(CONFLICT, "该邮箱已被使用");
                }
                changed.email = given;
            }
        },
        None => {},
    }
    match &request.name {
        Some(name) => {
            let trimmed = text::trim(name.as_str());
            if text::characters(trimmed).len() == 0 || text::byte_len(trimmed) > 80 {
                return refuse(BAD_REQUEST, "昵称长度无效");
            }
            changed.name = trimmed.to_owned();
        },
        None => {},
    }
    match &request.avatar {
        Some(avatar) => {
            changed.avatar = text::trim(avatar.as_str()).to_owned();
        },
        None => {},
    }
    let password_hash = match &request.password {
        Some(password) => {
            if !auth::password_is_valid(password.as_str()) {
                return refuse(BAD_REQUEST, "密码长度需为 8-128 位");
            }
            match auth::hash_password(password.as_str()) {
                Ok(hash) => Some(hash),
                Err(error) => {
                    return Err(error);
                },
            }
        },
        None => None,
    };
    Ok(ProfileChange { user: changed, password_hash })
}

/// The answer to requests for an interface that does not exist.
pub fn api_not_found() -> (r: AppError)
    ensures
        r.0 == NOT_FOUND,
        r.1@ == "接口不存在"@,
{
    AppError(NOT_FOUND, "接口不存在".to_owned())
}

/// The date by which the images of the day are counted, where the calendar has one.
pub fn stats_date(now: Moment) -> (r: Option<String>)
    ensures
        r is Some <==> now.representable(),
        r matches Some(date) ==> date@ == clock::date_text(now.secs as int, now.nanos as int),
{
    if now.is_representable() {
        Some(clock::date(now))
    } else {
        None
    }
}

/// A base URL is accepted exactly where it is one, is encrypted or on this host, and has neither
/// user, password, query nor fragment.
pub proof fn base_urls_are_judged_by_their_parts(parts: &Option<UrlParts>, r: AppResult<()>)
    requires
        call_ensures(check_url, (parts,), r),
    ensures
        r is Ok <==> {
            &&& *parts is Some
            &&& (*parts)->0.scheme@ == "https"@ || ((*parts)->0.host is Some && ((*parts)->0.host->0@
                == "localhost"@ || (*parts)->0.host->0@ == "127.0.0.1"@))
            &&& (*parts)->0.username@.len() == 0
            &&& !(*parts)->0.has_password
            &&& !(*parts)->0.has_query
            &&& !(*parts)->0.has_fragment
        },
        r matches Err(error) ==> error.0 == 400,
{
}

/// A base URL is kept without white space around it and without slashes at its end, and what is
/// kept is what was judged.
pub proof fn base_urls_are_kept_without_ends(
    value: &str,
    url: UrlParts,
    judged: AppResult<()>,
    r: AppResult<String>,
) -> (bounds: (int, int))
    requires
        call_ensures(normalize_base_url, (value,), r),
        parsed_url(base_url_text(value@)) is None || parsed_url(base_url_text(value@)) == Some(
            url.as_texts(),
        ),
        call_ensures(
            check_url,
            (
                &(if parsed_url(base_url_text(value@)) is Some {
                    Some(url)
                } else {
                    None
                }),
            ),
            judged,
        ),
    ensures
        r is Ok <==> judged is Ok,
        r matches Err(error) ==> error.0 == 400,
        0 <= bounds.0 <= bounds.1 <= value@.len(),
        r is Ok ==> r->Ok_0@ == value@.subrange(bounds.0, bounds.1),
        r is Ok && r->Ok_0@.len() > 0 ==> r->Ok_0@.last() != '/' && !text::is_space(r->Ok_0@[0]),
        forall|i: int| 0 <= i < bounds.0 ==> text::is_space(#[trigger] value@[i]),
        forall|i: int|
            bounds.1 <= i < value@.len() ==> text::is_space(#[trigger] value@[i]) || value@[i]
                == '/',
{
    let outer = text::trimmed_is_what_lies_between(value@);
    let inner = value@.subrange(outer.0, outer.1);
    let to = text::trimmed_end_is_what_lies_before(inner, '/');
    assert(inner.take(to) =~= value@.subrange(outer.0, outer.0 + to));
    assert forall|i: int| outer.0 + to <= i < value@.len() implies text::is_space(
        #[trigger] value@[i],
    ) || value@[i] == '/' by {
        if i < outer.1 {
            assert(inner[i - outer.0] == value@[i]);
        }
    }
    (outer.0, outer.0 + to)
}

/// A provider is made exactly where its name and key are there and not too long and its base URL
/// is accepted; its key is sealed so that it can be read again, and shown by its ends only.
pub proof fn providers_are_made_with_sealed_keys(
    request: &CreateProviderRequest,
    master_key: &[u8; 32],
    is_first: bool,
    url: &str,
    kept_url: AppResult<String>,
    key: &str,
    parts: (String, String),
    cipher: &str,
    opened: AppResult<String>,
    r: AppResult<NewProvider>,
)
    requires
        call_ensures(create_provider, (request, master_key, is_first), r),
        url@ == request.base_url@,
        call_ensures(normalize_base_url, (url,), kept_url),
        key@ == text::trimmed(request.api_key@),
        call_ensures(security::key_parts, (key,), parts),
        r is Ok ==> cipher@ == r->Ok_0.api_key_cipher@,
        call_ensures(security::decrypt_secret, (master_key, cipher), opened),
    ensures
        r is Ok <==> {
            &&& text::trimmed(request.name@).len() > 0
            &&& vstd::utf8::encode_utf8(text::trimmed(request.name@)).len() <= 80
            &&& key@.len() > 0
            &&& vstd::utf8::encode_utf8(key@).len() <= 500
            &&& kept_url is Ok
        },
        r matches Err(error) ==> error.0 == 400,
        r matches Ok(new) ==> {
            &&& new.provider.name@ == text::trimmed(request.name@)
            &&& new.provider.base_url@ == kept_url->Ok_0@
            &&& new.provider.model@ == "gpt-image-2"@
            &&& new.provider.is_active == is_first
            &&& !new.provider.needs_rotation
            &&& new.key_prefix@ == parts.0@
            &&& new.key_suffix@ == parts.1@
            &&& new.provider.masked_api_key@ == parts.0@ + "••••••••••••"@ + parts.1@
            &&& opened is Ok
            &&& opened->Ok_0@ == key@
        },
{
}

/// Activating a provider makes it, and no other, the active one, and changes nothing else.
pub proof fn activating_makes_one_active(
    slots: Vec<ProviderSlot>,
    id: &str,
    r: AppResult<Vec<ProviderSlot>>,
    j: int,
)
    requires
        call_ensures(activate_provider, (slots, id), r),
        forall|a: int, b: int|
            0 <= a < b < slots@.len() ==> (#[trigger] slots@[a]).id@ != (
            #[trigger] slots@[b]).id@,
        0 <= j < slots@.len(),
    ensures
        slots@[j].id@ == id@ ==> r is Ok,
        r matches Ok(after) ==> {
            &&& after@.len() == slots@.len()
            &&& after@[j].id@ == slots@[j].id@
            &&& after@[j].created_at@ == slots@[j].created_at@
            &&& after@[j].is_active <==> slots@[j].id@ == id@
        },
        r matches Err(error) ==> error.0 == 404 && slots@[j].id@ != id@,
{
    if r is Ok {
        let after = r->Ok_0@;
        let i = choose|i: int| slots@[i].id@ == id@ && #[trigger] activated(slots@, after, i);
        assert(activated(slots@, after, i));
        assert(after[j].is_active == (j == i));
        if slots@[j].id@ == id@ && j != i {
            if j < i {
                assert(slots@[j].id@ != slots@[i].id@);
            } else {
                assert(slots@[i].id@ != slots@[j].id@);
            }
        }
    }
}

/// Deleting a provider takes it out and keeps all others, in order and as they were; only where it
/// was the active one, one of the newest others becomes active.
pub proof fn deleting_keeps_the_others(
    slots: Vec<ProviderSlot>,
    id: &str,
    r: AppResult<Vec<ProviderSlot>>,
    at: int,
    j: int,
)
    requires
        call_ensures(delete_provider, (slots, id), r),
        forall|a: int, b: int|
            0 <= a < b < slots@.len() ==> (#[trigger] slots@[a]).id@ != (
            #[trigger] slots@[b]).id@,
        0 <= at < slots@.len(),
        slots@[at].id@ == id@,
        0 <= j < slots@.len() - 1,
    ensures
        r is Ok,
        r->Ok_0@.len() == slots@.len() - 1,
        ({
            let kept = if j < at { slots@[j] } else { slots@[j + 1] };
            let shown = r->Ok_0@[j];
            &&& shown.id@ == kept.id@
            &&& shown.created_at@ == kept.created_at@
            &&& !slots@[at].is_active ==> shown.is_active == kept.is_active
            &&& slots@[at].is_active && !kept.is_active && shown.is_active ==> forall|m: int|
                0 <= m < r->Ok_0@.len() ==> !text::precedes(
                    shown.created_at@,
                    (#[trigger] r->Ok_0@[m]).created_at@,
                )
        }),
        slots@[at].is_active ==> exists|k: int|
            0 <= k < r->Ok_0@.len() && (#[trigger] r->Ok_0@[k]).is_active,
{
    assert(has_provider(slots@, id@));
    let after = r->Ok_0@;
    let i = choose|i: int|
        0 <= i < slots@.len() && slots@[i].id@ == id@ && #[trigger] removed(slots@, after, i);
    assert(removed(slots@, after, i));
    if i < at {
        assert(slots@[i].id@ != slots@[at].id@);
    } else if at < i {
        assert(slots@[at].id@ != slots@[i].id@);
    }
    let rest = slots@.remove(at);
    assert(rest[j] == if j < at { slots@[j] } else { slots@[j + 1] });
    if slots@[at].is_active {
        let k = choose|k: int| is_newest(rest, k) && #[trigger] switched_on(rest, after, k);
        assert(after[k].is_active);
        if j == k {
            assert forall|m: int| 0 <= m < after.len() implies !text::precedes(
                after[j].created_at@,
                (#[trigger] after[m]).created_at@,
            ) by {
                assert(after[m].created_at == rest[m].created_at);
                assert(!text::precedes(rest[k].created_at@, rest[m].created_at@));
            }
        }
    }
}

/// Deleting a provider that is not there changes nothing.
pub proof fn only_own_providers_can_be_deleted(
    slots: Vec<ProviderSlot>,
    id: &str,
    r: AppResult<Vec<ProviderSlot>>,
)
    requires
        call_ensures(delete_provider, (slots, id), r),
    ensures
        r is Err <==> forall|i: int| 0 <= i < slots@.len() ==> (#[trigger] slots@[i]).id@ != id@,
        r matches Err(error) ==> error.0 == 404,
{
    if r is Ok {
        assert(has_provider(slots@, id@));
    }
}

/// The active provider serves with its own address and model, and with the key that was sealed, or
/// with an old key as it is; where there is none, or its key cannot be opened, no call is served.
pub proof fn active_providers_serve_with_their_key(
    row: Option<StoredProvider>,
    master_key: &[u8; 32],
    cipher: &str,
    opened: AppResult<String>,
    r: AppResult<ProviderConfiguration>,
)
    requires
        call_ensures(active_provider, (row, master_key), r),
        row is Some && row->0.api_key_cipher is Some ==> cipher@ == row->0.api_key_cipher->0@,
        call_ensures(security::decrypt_secret, (master_key, cipher), opened),
    ensures
        r is Ok <==> row is Some && (row->0.encryption_version == 1 ==> row->0.api_key_cipher is Some
            && opened is Ok),
        row is None ==> r->Err_0.0 == 503,
        row is Some && r is Err ==> r->Err_0.0 == 500,
        r matches Ok(provider) ==> {
            &&& provider.id@ == row->0.id@
            &&& provider.base_url@ == row->0.base_url@
            &&& provider.model@ == row->0.model@
            &&& row->0.encryption_version == 1 ==> provider.api_key@ == opened->Ok_0@
            &&& row->0.encryption_version != 1 ==> provider.api_key@ == row->0.api_key@
        },
{
}

/// A provider that was just made serves with the key that it was made with.
pub proof fn made_providers_serve_with_the_key_given(
    request: &CreateProviderRequest,
    master_key: &[u8; 32],
    is_first: bool,
    new: AppResult<NewProvider>,
    row: StoredProvider,
    r: AppResult<ProviderConfiguration>,
)
    requires
        call_ensures(create_provider, (request, master_key, is_first), new),
        new is Ok,
        row.encryption_version == 1,
        text::opt(row.api_key_cipher) == Some(new->Ok_0.api_key_cipher@),
        call_ensures(active_provider, (Some(row), master_key), r),
    ensures
        r is Ok,
        r->Ok_0.api_key@ == text::trimmed(request.api_key@),
{
}

/// A list shows of a provider what is stored of it, with its key hidden but for the ends, and
/// tells which keys are not sealed yet.
pub proof fn lists_show_providers(record: ProviderRecord, r: ProviderResponse)
    requires
        call_ensures(provider_item, (record,), r),
    ensures
        r.id@ == record.id@,
        r.name@ == record.name@,
        r.base_url@ == record.base_url@,
        r.masked_api_key@ == record.prefix@ + "••••••••••••"@ + record.suffix@,
        r.model@ == record.model@,
        r.is_active == record.is_active,
        r.created_at@ == record.created_at@,
        r.needs_rotation <==> record.encryption_version == 0,
{
}

/// An address is looked up among the other users exactly where it is a proper one and not the
/// user's own.
pub proof fn new_addresses_are_looked_up(
    user: &UserResponse,
    email: &Option<String>,
    given: &str,
    proper: bool,
    r: Option<String>,
)
    requires
        *email is Some ==> given@ == (*email)->0@,
        call_ensures(auth::email_is_valid, (given,), proper),
        call_ensures(email_to_look_up, (user, email), r),
    ensures
        r is Some <==> *email is Some && proper && given@ != user.email@,
        r is Some ==> r->0@ == given@,
{
}

/// The address of a request is read in lower case, without the white space around it.
pub proof fn new_addresses_are_put_in_lower_case(request: &UpdateProfileRequest, r: Option<String>)
    requires
        call_ensures(new_email, (request,), r),
    ensures
        r is Some <==> request.email is Some,
        r is Some ==> r->0@ == text::lowercase(text::trimmed(request.email->0@)),
{
}

/// A profile takes over what is given, as far as it is proper, and keeps all the rest: in
/// particular its credits.
pub proof fn profiles_take_over_what_is_given(
    user: &UserResponse,
    request: &UpdateProfileRequest,
    email: Option<String>,
    taken: bool,
    r: AppResult<ProfileChange>,
)
    requires
        call_ensures(update_profile, (user, request, email, taken), r),
    ensures
        r is Ok <==> {
            &&& email is Some ==> !auth::bad_email(email->0@) && (email->0@ == user.email@
                || !taken)
            &&& request.name is Some ==> text::trimmed(request.name->0@).len() > 0
                && vstd::utf8::encode_utf8(text::trimmed(request.name->0@)).len() <= 80
            &&& request.password is Some ==> 8 <= vstd::utf8::encode_utf8(
                request.password->0@,
            ).len() <= 128
        },
        r matches Err(error) ==> error.0 == 400 || (error.0 == 409 && taken),
        r matches Ok(change) ==> {
            &&& change.user.id@ == user.id@
            &&& change.user.plan@ == user.plan@
            &&& change.user.credits == user.credits
            &&& change.user.credits_reserved == user.credits_reserved
            &&& email is Some ==> change.user.email@ == email->0@
            &&& email is None ==> change.user.email@ == user.email@
            &&& request.name is Some ==> change.user.name@ == text::trimmed(request.name->0@)
            &&& request.name is None ==> change.user.name@ == user.name@
            &&& request.avatar is Some ==> change.user.avatar@ == text::trimmed(request.avatar->0@)
            &&& request.avatar is None ==> change.user.avatar@ == user.avatar@
            &&& change.password_hash is Some <==> request.password is Some
        },
{
}

/// A new password lets its user in.
pub proof fn new_passwords_let_in(
    user: &UserResponse,
    request: &UpdateProfileRequest,
    email: Option<String>,
    taken: bool,
    change: AppResult<ProfileChange>,
    found: auth::LoginRecord,
    password: &str,
    r: AppResult<UserResponse>,
)
    requires
        call_ensures(update_profile, (user, request, email, taken), change),
        change is Ok,
        request.password is Some,
        password@ == request.password->0@,
        found.password_hash@ == change->Ok_0.password_hash->0@,
        call_ensures(auth::login, (Some(found), password), r),
    ensures
        r is Ok,
        r->Ok_0 == found.user,
{
}

/// The images of the day are counted by the day's date.
pub proof fn days_are_counted_by_date(now: Moment, r: Option<String>)
    requires
        call_ensures(stats_date, (now,), r),
    ensures
        r is Some <==> now.representable(),
        r is Some ==> r->0@ == clock::date_text(now.secs as int, now.nanos as int),
{
}

/// What does not exist is not found.
pub proof fn unknown_interfaces_are_not_found(r: AppError)
    requires
        call_ensures(api_not_found, (), r),
    ensures
        r.0 == 404,
{
}

} // verus!
