//! Signing in: passwords, sessions and API keys.

use argon2::password_hash::{PasswordHash, PasswordHasher, PasswordVerifier, SaltString};
use axum::http::{HeaderMap, HeaderValue};
use vstd::prelude::*;

use crate::clock;
use crate::clock::Moment;
use crate::encoding;
use crate::model;
use crate::model::{
    refuse, ApiKeyItemResponse, ApiPrincipal, AppError, AppResult, AuthRequest,
    CreateApiKeyRequest, CreatedApiKeyResponse, UserResponse, BAD_REQUEST, CONFLICT, FORBIDDEN,
    INTERNAL_SERVER_ERROR, NOT_FOUND, SESSION_COOKIE, UNAUTHORIZED,
};
use crate::request;
use crate::security;
use crate::text;
use crate::token;

verus! {

/// The days that a session lasts.
pub const SESSION_DAYS: i64 = 30;

/// The seconds that a session cookie lasts.
pub const SESSION_COOKIE_AGE: i64 = 2_592_000;

/// The credits that a new user gets.
pub const REGISTRATION_CREDITS: i64 = 3000;

/// The daily call limit of a new user.
pub const REGISTRATION_DAILY_LIMIT: i64 = 10_000;

/// The hash that the `argon2` crate makes of a password and a salt, if it makes one.
pub uninterp spec fn password_hash(password: Seq<u8>, salt: Seq<char>) -> Option<Seq<char>>;

/// Whether a password fits a hash by the `argon2` crate; nothing where the text is no hash.
pub uninterp spec fn password_check(hash: Seq<char>, password: Seq<u8>) -> Option<bool>;

/// A character of the base64 alphabet.
pub open spec fn is_base64(c: char) -> bool {
    ('A' <= c && c <= 'Z') || ('a' <= c && c <= 'z') || ('0' <= c && c <= '9') || c == '+' || c
        == '/'
}

/// Whether a text is the base64 form, without padding, of sixteen bytes: two bits of the last
/// byte are left for the last character.
pub open spec fn is_salt(salt: Seq<char>) -> bool {
    &&& salt.len() == 22
    &&& forall|i: int| 0 <= i < 22 ==> is_base64(#[trigger] salt[i])
    &&& salt[21] == 'A' || salt[21] == 'Q' || salt[21] == 'g' || salt[21] == 'w'
}

/// Calls `SaltString::generate` with the system's randomness: sixteen bytes in base64, which
/// chance picks.
#[verifier::external_body]
pub(crate) fn random_salt() -> (salt: String)
    ensures
        is_salt(salt@),
{
    SaltString::generate(&mut rand_core::OsRng).as_str().to_owned()
}

/// Calls `PasswordHasher::hash_password` of `argon2::Argon2` in its default setting. Password and
/// salt alone decide the hash, and the same password fits it. With a salt of sixteen bytes it
/// refuses only passwords whose length does not fit into 32 bits.
#[verifier::external_body]
pub(crate) fn hash_with_salt(password: &[u8], salt: &str) -> (hash: Option<String>)
    ensures
        text::opt(hash) == password_hash(password@, salt@),
        is_salt(salt@) ==> (hash is Some <==> password@.len() <= u32::MAX),
        hash matches Some(made) ==> password_check(made@, password@) == Some(true),
{
    let salt = SaltString::from_b64(salt).ok()?;
    Some(argon2::Argon2::default().hash_password(password, &salt).ok()?.to_string())
}

/// Calls `PasswordHash::new` and `PasswordVerifier::verify_password` of `argon2::Argon2`; hash and
/// password alone decide whether the text is a hash, and whether the password fits.
#[verifier::external_body]
pub(crate) fn check_password(hash: &str, password: &[u8]) -> (fits: Option<bool>)
    ensures
        fits == password_check(hash@, password@),
{
    let parsed = PasswordHash::new(hash).ok()?;
    Some(argon2::Argon2::default().verify_password(password, &parsed).is_ok())
}

/// Whether a text is the hash of a password under some salt, and the password fits it.
pub open spec fn is_hash_of(hash: Seq<char>, password: Seq<char>) -> bool {
    let bytes = vstd::utf8::encode_utf8(password);
    &&& exists|salt: Seq<char>| is_salt(salt) && #[trigger] password_hash(bytes, salt) == Some(hash)
    &&& password_check(hash, bytes) == Some(true)
}

/// The hash under which a password is kept, with a fresh salt. The password fits its hash. There
/// is none only for passwords whose length does not fit into 32 bits.
pub fn hash_password(password: &str) -> (r: AppResult<String>)
    ensures
        if vstd::utf8::encode_utf8(password@).len() <= u32::MAX {
            r matches Ok(hash) && is_hash_of(hash@, password@)
        } else {
            model::refused(r, INTERNAL_SERVER_ERROR, "密码处理失败"@)
        },
{
    let salt = random_salt();
    match hash_with_salt(password.as_bytes(), salt.as_str()) {
        Some(hash) => {
            assert(password_hash(vstd::utf8::encode_utf8(password@), salt@) == Some(hash@));
            Ok(hash)
        },
        None => refuse(INTERNAL_SERVER_ERROR, "密码处理失败"),
    }
}

/// The first of the cookies, from an index on, that begins with a prefix: what follows it.
pub open spec fn first_cookie(cookies: Seq<Seq<char>>, prefix: Seq<char>, from: int) -> Option<
    Seq<char>,
>
    decreases cookies.len() - from,
{
    if from < 0 || from >= cookies.len() {
        None
    } else if prefix.is_prefix_of(text::trimmed(cookies[from])) {
        Some(text::trimmed(cookies[from]).skip(prefix.len() as int))
    } else {
        first_cookie(cookies, prefix, from + 1)
    }
}

/// The value of a cookie in the first `Cookie` header.
pub open spec fn cookie_of(contents: Map<Seq<char>, Seq<Seq<u8>>>, name: Seq<char>) -> Option<
    Seq<char>,
> {
    match request::header_value(contents, "cookie"@) {
        Some(header) => first_cookie(text::split_on(header, ';'), name + "="@, 0),
        None => None,
    }
}

/// The value of a cookie.
pub fn cookie_value(headers: &HeaderMap<HeaderValue>, name: &str) -> (r: Option<String>)
    ensures
        text::opt(r) == cookie_of(request::header_contents(*headers), name@),
{
    let header = match request::header_string(headers, "cookie") {
        Some(header) => header,
        None => {
            return None;
        },
    };
    let prefix = text::concat(name, "=");
    let cookies = text::split(header, ';');
    let ghost all = text::split_on(header@, ';');
    let mut i: usize = 0;
    while i < cookies.len()
        invariant
            text::views(cookies@) == all,
            i <= cookies@.len(),
            first_cookie(all, prefix@, 0) == first_cookie(all, prefix@, i as int),
            prefix@ == name@ + "="@,
            Some(header@) == request::header_value(
                request::header_contents(*headers),
                "cookie"@,
            ),
            all == text::split_on(header@, ';'),
        decreases cookies@.len() - i,
    {
        assert(all[i as int] == cookies@[i as int]@);
        match text::strip_prefix(text::trim(cookies[i].as_str()), prefix.as_str()) {
            Some(value) => {
                return Some(value.to_owned());
            },
            None => {},
        }
        i += 1;
    }
    None
}

/// The session token that a request brings; without one it is refused.
pub fn session_token(headers: &HeaderMap<HeaderValue>) -> (r: AppResult<String>)
    ensures
        match cookie_of(request::header_contents(*headers), SESSION_COOKIE@) {
            Some(value) => r matches Ok(held) && held@ == value,
            None => model::refused(r, UNAUTHORIZED, "请先登录"@),
        },
{
    match cookie_value(headers, SESSION_COOKIE) {
        Some(value) => Ok(value),
        None => refuse(UNAUTHORIZED, "请先登录"),
    }
}

/// A session that was looked up: whose it is, and when it ends, if it does.
#[derive(Debug, PartialEq, Eq)]
pub struct StoredSession {
    pub user: UserResponse,
    pub expires_at: Option<String>,
}

/// Whether a session has not ended yet.
pub open spec fn is_live(session: StoredSession, now: Seq<char>) -> bool {
    match session.expires_at {
        Some(end) => text::precedes(now, end@),
        None => true,
    }
}

/// The user of a session that was looked up; there is none where the session has ended.
pub fn user_from_session(session: Option<StoredSession>, now: &str) -> (r: AppResult<UserResponse>)
    ensures
        match session {
            Some(found) => if is_live(found, now@) {
                r == Ok::<UserResponse, AppError>(found.user)
            } else {
                model::refused(r, UNAUTHORIZED, "登录状态已失效"@)
            },
            None => model::refused(r, UNAUTHORIZED, "登录状态已失效"@),
        },
{
    match session {
        Some(found) => {
            let live = match &found.expires_at {
                Some(end) => text::before(now, end.as_str()),
                None => true,
            };
            if live {
                Ok(found.user)
            } else {
                refuse(UNAUTHORIZED, "登录状态已失效")
            }
        },
        None => refuse(UNAUTHORIZED, "登录状态已失效"),
    }
}

/// The API key that a request brings after `Bearer `.
pub open spec fn bearer_of(contents: Map<Seq<char>, Seq<Seq<u8>>>) -> Option<Seq<char>> {
    match request::header_value(contents, "authorization"@) {
        Some(value) => if "Bearer "@.is_prefix_of(value) && value.len() > "Bearer "@.len() {
            Some(value.skip("Bearer "@.len() as int))
        } else {
            None
        },
        None => None,
    }
}

/// What stands in the database for an API key: the hash of a key, or an old key as it is.
#[derive(Debug, PartialEq, Eq)]
pub struct KeyLookup {
    pub key_hash: String,
    pub api_key: String,
}

/// How the API key of a request is looked up; without one the request is refused.
pub fn api_key_lookup(headers: &HeaderMap<HeaderValue>) -> (r: AppResult<KeyLookup>)
    ensures
        match bearer_of(request::header_contents(*headers)) {
            Some(key) => r matches Ok(lookup) && lookup.api_key@ == key && lookup.key_hash@
                == encoding::digest_text(key),
            None => model::refused(r, UNAUTHORIZED, "API Key 无效或缺失"@),
        },
{
    match request::header_string(headers, "authorization") {
        Some(value) => match text::strip_prefix(value, "Bearer ") {
            Some(key) => {
                if text::characters(key).len() == 0 {
                    return refuse(UNAUTHORIZED, "API Key 无效或缺失");
                }
                Ok(KeyLookup { key_hash: security::hash_api_key(key), api_key: key.to_owned() })
            },
            None => refuse(UNAUTHORIZED, "API Key 无效或缺失"),
        },
        None => refuse(UNAUTHORIZED, "API Key 无效或缺失"),
    }
}

/// What is stored of an API key, and whose it is.
#[derive(Debug, PartialEq, Eq)]
pub struct StoredKey {
    pub principal: ApiPrincipal,
    pub is_legacy: bool,
    pub status: String,
    pub key_hash: Option<String>,
    pub key_value: String,
}

/// Whether a stored key is the one that is looked up, and works: old keys are kept as they are,
/// all others as a hash.
pub open spec fn is_accepted(stored: StoredKey, lookup: KeyLookup) -> bool {
    &&& stored.status@ == "active"@
    &&& if stored.is_legacy {
        stored.key_value@ == lookup.api_key@
    } else {
        text::opt(stored.key_hash) == Some(lookup.key_hash@)
    }
}

/// The first of the keys, from an index on, that is accepted.
pub open spec fn first_accepted(keys: Seq<StoredKey>, lookup: KeyLookup, from: int) -> Option<
    ApiPrincipal,
>
    decreases keys.len() - from,
{
    if from < 0 || from >= keys.len() {
        None
    } else if is_accepted(keys[from], lookup) {
        Some(keys[from].principal)
    } else {
        first_accepted(keys, lookup, from + 1)
    }
}

/// Whose the key is that is looked up, if it works.
pub fn accepted_key(keys: Vec<StoredKey>, lookup: &KeyLookup) -> (r: Option<ApiPrincipal>)
    ensures
        r == first_accepted(keys@, *lookup, 0),
{
    let ghost all = keys@;
    for key in iter: keys
        invariant
            iter.seq() == all,
            first_accepted(all, *lookup, 0) == first_accepted(all, *lookup, iter.index() as int),
    {
        let works = text::same(key.status.as_str(), "active");
        let fits = if key.is_legacy {
            text::same(key.key_value.as_str(), lookup.api_key.as_str())
        } else {
            match &key.key_hash {
                Some(hash) => text::same(hash.as_str(), lookup.key_hash.as_str()),
                None => false,
            }
        };
        if works && fits {
            return Some(key.principal);
        }
    }
    None
}

/// A key that was revoked lets nobody in, whatever a request brings.
pub proof fn revoked_keys_let_nobody_in(keys: Seq<StoredKey>, lookup: KeyLookup, from: int)
    requires
        0 <= from,
        forall|i: int| 0 <= i < keys.len() ==> (#[trigger] keys[i]).status@ != "active"@,
    ensures
        first_accepted(keys, lookup, from) is None,
    decreases keys.len() - from,
{
    if from < keys.len() {
        revoked_keys_let_nobody_in(keys, lookup, from + 1);
    }
}

/// Whether a scope is among the allowed ones.
pub open spec fn is_allowed(scope: Seq<char>, allowed: Seq<&str>) -> bool {
    exists|i: int| 0 <= i < allowed.len() && (#[trigger] allowed[i])@ == scope
}

/// The user behind an API key that was looked up; the key's scope must be an allowed one.
pub fn user_from_api_key(principal: Option<ApiPrincipal>, allowed_scopes: &[&str]) -> (r: AppResult<
    ApiPrincipal,
>)
    ensures
        match principal {
            Some(found) => if is_allowed(found.scope@, allowed_scopes@) {
                r == Ok::<ApiPrincipal, AppError>(found)
            } else {
                model::refused(r, FORBIDDEN, "API Key 权限不足"@)
            },
            None => model::refused(r, UNAUTHORIZED, "API Key 无效或缺失"@),
        },
{
    let found = match principal {
        Some(found) => found,
        None => {
            return refuse(UNAUTHORIZED, "API Key 无效或缺失");
        },
    };
    let mut i: usize = 0;
    while i < allowed_scopes.len()
        invariant
            principal == Some(found),
            i <= allowed_scopes@.len(),
            forall|j: int| 0 <= j < i ==> (#[trigger] allowed_scopes@[j])@ != found.scope@,
        decreases allowed_scopes@.len() - i,
    {
        if text::same(allowed_scopes[i], found.scope.as_str()) {
            assert(allowed_scopes@[i as int]@ == found.scope@);
            return Ok(found);
        }
        i += 1;
    }
    refuse(FORBIDDEN, "API Key 权限不足")
}

/// Whether an email address in lower case is refused.
pub open spec fn bad_email(email: Seq<char>) -> bool {
    vstd::utf8::encode_utf8(email).len() > 254 || !email.contains('@')
}

/// Whether a password is too short or too long.
pub open spec fn bad_password(password: Seq<char>) -> bool {
    let length = vstd::utf8::encode_utf8(password).len();
    length < 8 || length > 128
}

/// Why an email address in lower case and a password are refused, if they are.
pub open spec fn credentials_refusal(email: Seq<char>, password: Seq<char>) -> Option<
    (u16, Seq<char>),
> {
    if bad_email(email) {
        Some((BAD_REQUEST, "邮箱格式无效"@))
    } else if bad_password(password) {
        Some((BAD_REQUEST, "密码长度需为 8-128 位"@))
    } else {
        None
    }
}

/// Whether a text holds a character.
fn has_character(value: &str, c: char) -> (r: bool)
    ensures
        r == value@.contains(c),
{
    let chars = text::characters(value);
    let mut i: usize = 0;
    while i < chars.len()
        invariant
            chars@ == value@,
            i <= chars@.len(),
            forall|j: int| 0 <= j < i ==> value@[j] != c,
        decreases chars@.len() - i,
    {
        if chars[i] == c {
            assert(value@[i as int] == c);
            return true;
        }
        i += 1;
    }
    false
}

/// Accepts an email address in lower case.
pub fn email_is_valid(email: &str) -> (r: bool)
    ensures
        r == !bad_email(email@),
{
    text::byte_len(email) <= 254 && has_character(email, '@')
}

/// Accepts a password of 8 to 128 bytes.
pub fn password_is_valid(password: &str) -> (r: bool)
    ensures
        r == !bad_password(password@),
{
    let length: usize = text::byte_len(password);
    8 <= length && length <= 128
}

/// Accepts an email address in lower case and a password.
pub fn check_credentials(email: &str, password: &str) -> (r: AppResult<()>)
    ensures
        model::answers(r, credentials_refusal(email@, password@)),
{
    if !email_is_valid(email) {
        return refuse(BAD_REQUEST, "邮箱格式无效");
    }
    if !password_is_valid(password) {
        return refuse(BAD_REQUEST, "密码长度需为 8-128 位");
    }
    Ok(())
}

/// The email address, trimmed and in lower case, and the password of a request.
pub fn validate_auth(request: &AuthRequest) -> (r: AppResult<(String, String)>)
    ensures
        ({
            let email = text::lowercase(text::trimmed(request.email@));
            &&& model::answers(r, credentials_refusal(email, request.password@))
            &&& r matches Ok(held) ==> held.0@ == email && held.1@ == request.password@
        }),
{
    let email = text::to_lowercase(text::trim(request.email.as_str()));
    match check_credentials(email.as_str(), request.password.as_str()) {
        Ok(()) => Ok((email, request.password.clone())),
        Err(error) => Err(error),
    }
}

/// The row of a session.
#[derive(Debug, PartialEq, Eq)]
pub struct SessionRow {
    pub token: String,
    pub user_id: String,
    pub created_at: String,
    pub expires_at: String,
}

/// The row of a session that begins now, under a given token; `None` where the calendar has no
/// date for its end.
pub fn session_row(user_id: &str, session_token: String, now: Moment) -> (r: Option<SessionRow>)
    requires
        now.representable(),
    ensures
        r is Some <==> now.secs + SESSION_DAYS * 86_400 <= clock::LAST_SECOND,
        r matches Some(row) ==> {
            &&& row.token == session_token
            &&& row.user_id@ == user_id@
            &&& row.created_at@ == clock::rfc3339_text(now.secs as int, now.nanos as int)
            &&& row.expires_at@ == clock::rfc3339_text(
                now.secs + SESSION_DAYS * 86_400,
                now.nanos as int,
            )
        },
{
    match now.checked_plus_days(SESSION_DAYS) {
        Some(end) => Some(
            SessionRow {
                token: session_token,
                user_id: user_id.to_owned(),
                created_at: clock::rfc3339(now),
                expires_at: clock::rfc3339(end),
            },
        ),
        None => None,
    }
}

/// Whether this is what comes of a session that a user begins at a moment of the system clock: a
/// row with a fresh token that lasts for thirty days, and nothing where the calendar has no date
/// for its end.
pub open spec fn begun_at(r: Option<SessionRow>, user_id: Seq<char>, now: Moment) -> bool {
    &&& now.representable()
    &&& now.secs >= 0
    &&& r is Some <==> now.secs + SESSION_DAYS * 86_400 <= clock::LAST_SECOND
    &&& r matches Some(row) ==> {
        &&& token::is_token(row.token@)
        &&& row.user_id@ == user_id
        &&& row.created_at@ == clock::rfc3339_text(now.secs as int, now.nanos as int)
        &&& row.expires_at@ == clock::rfc3339_text(
            now.secs + SESSION_DAYS * 86_400,
            now.nanos as int,
        )
    }
}

/// A new session of a user, with a fresh token, that lasts for thirty days from now. The system
/// clock says when now is; `None` comes only where the calendar ends within those days.
pub fn create_session(user_id: &str) -> (r: Option<SessionRow>)
    ensures
        exists|now: Moment| #[trigger] begun_at(r, user_id@, now),
{
    let session_token = token::unique_token();
    let now = clock::utc_now();
    let r = session_row(user_id, session_token, now);
    assert(begun_at(r, user_id@, now));
    r
}

/// The header that sets the session cookie.
pub open spec fn session_cookie_text(production: bool, token: Seq<char>, max_age: int) -> Seq<char> {
    SESSION_COOKIE@ + "="@ + token + "; HttpOnly; Path=/; SameSite="@ + (if production {
        "None"@
    } else {
        "Lax"@
    }) + "; Max-Age="@ + text::signed_digits(max_age) + (if production {
        "; Secure"@
    } else {
        ""@
    })
}

/// The header that sets the session cookie. In production the desktop client, which has another
/// origin, sends the cookie too, and only encrypted connections carry it.
pub fn session_cookie(production: bool, session_token: &str, max_age: i64) -> (r: String)
    ensures
        r@ == session_cookie_text(production, session_token@, max_age as int),
{
    let mut cookie = text::concat3(SESSION_COOKIE, "=", session_token);
    cookie.append("; HttpOnly; Path=/; SameSite=");
    cookie.append(if production {
        "None"
    } else {
        "Lax"
    });
    cookie.append("; Max-Age=");
    let age = text::signed_decimal(max_age);
    cookie.append(age.as_str());
    cookie.append(if production {
        "; Secure"
    } else {
        ""
    });
    cookie
}

/// A user who registers.
#[derive(Debug, PartialEq, Eq)]
pub struct NewUser {
    pub user: UserResponse,
    pub password_hash: String,
    pub daily_limit: i64,
}

/// Whether a new user has this email address, the name before its `@`, and what every new user
/// gets.
pub open spec fn is_new_user(new: NewUser, email: Seq<char>) -> bool {
    &&& token::is_identifier(new.user.id@, "usr-"@)
    &&& new.user.name@ == text::split_on(email, '@')[0]
    &&& new.user.email@ == email
    &&& new.user.avatar@ == ""@
    &&& new.user.plan@ == "Free"@
    &&& new.user.credits == REGISTRATION_CREDITS
    &&& new.user.credits_reserved == 0
    &&& new.daily_limit == REGISTRATION_DAILY_LIMIT
}

/// The user that an email address, in lower case, and a hashed password make up.
pub fn new_user(email: String, password_hash: String) -> (r: NewUser)
    ensures
        is_new_user(r, email@),
        r.password_hash == password_hash,
{
    let parts = text::split(email.as_str(), '@');
    proof {
        text::split_is_never_empty(email@, '@');
        assert(text::views(parts@)[0] == parts@[0]@);
    }
    let name = parts[0].clone();
    NewUser {
        user: UserResponse {
            id: token::fresh_identifier("usr-"),
            name,
            email,
            avatar: "".to_owned(),
            plan: "Free".to_owned(),
            credits: REGISTRATION_CREDITS,
            credits_reserved: 0,
        },
        password_hash,
        daily_limit: REGISTRATION_DAILY_LIMIT,
    }
}

/// Registers a user: the credentials must be proper ones, and the password is kept as a hash
/// that it fits.
pub fn register(request: &AuthRequest) -> (r: AppResult<NewUser>)
    ensures
        ({
            let email = text::lowercase(text::trimmed(request.email@));
            match credentials_refusal(email, request.password@) {
                Some(refusal) => model::refused(r, refusal.0, refusal.1),
                None => r matches Ok(new) && is_new_user(new, email) && is_hash_of(
                    new.password_hash@,
                    request.password@,
                ),
            }
        }),
{
    let (email, password) = match validate_auth(request) {
        Ok(held) => held,
        Err(error) => {
            return Err(error);
        },
    };
    let hash = match hash_password(password.as_str()) {
        Ok(hash) => hash,
        Err(error) => {
            return Err(error);
        },
    };
    Ok(new_user(email, hash))
}

/// The refusal of an email address that another user has.
pub fn email_taken() -> (r: AppError)
    ensures
        r.0 == CONFLICT,
        r.1@ == "该邮箱已注册"@,
{
    AppError(CONFLICT, "该邮箱已注册".to_owned())
}

/// What is stored of a user who signs in.
#[derive(Debug, PartialEq, Eq)]
pub struct LoginRecord {
    pub user: UserResponse,
    pub password_hash: String,
}

/// The user who signs in, once the password was checked. The answer does not tell an unknown
/// address from a wrong password.
pub fn login_result(user: UserResponse, fits: Option<bool>) -> (r: AppResult<UserResponse>)
    ensures
        match fits {
            None => model::refused(r, INTERNAL_SERVER_ERROR, "密码数据无效"@),
            Some(false) => model::refused(r, UNAUTHORIZED, "邮箱或密码错误"@),
            Some(true) => r == Ok::<UserResponse, AppError>(user),
        },
{
    match fits {
        None => refuse(INTERNAL_SERVER_ERROR, "密码数据无效"),
        Some(true) => Ok(user),
        Some(false) => refuse(UNAUTHORIZED, "邮箱或密码错误"),
    }
}

/// The user who signs in: the record that was found for the address must have a hash that the
/// password fits.
pub fn login(record: Option<LoginRecord>, password: &str) -> (r: AppResult<UserResponse>)
    ensures
        match record {
            None => model::refused(r, UNAUTHORIZED, "邮箱或密码错误"@),
            Some(found) => match password_check(
                found.password_hash@,
                vstd::utf8::encode_utf8(password@),
            ) {
                None => model::refused(r, INTERNAL_SERVER_ERROR, "密码数据无效"@),
                Some(false) => model::refused(r, UNAUTHORIZED, "邮箱或密码错误"@),
                Some(true) => r == Ok::<UserResponse, AppError>(found.user),
            },
        },
{
    match record {
        None => refuse(UNAUTHORIZED, "邮箱或密码错误"),
        Some(found) => {
            let fits = check_password(found.password_hash.as_str(), password.as_bytes());
            login_result(found.user, fits)
        },
    }
}

/// What is stored of an API key, as far as lists show it.
#[derive(Debug, PartialEq, Eq)]
pub struct ApiKeyRecord {
    pub id: String,
    pub name: String,
    pub prefix: String,
    pub suffix: String,
    pub created_at: String,
    pub last_used: String,
    pub status: String,
    pub scope: String,
    pub is_legacy: bool,
}

/// The list entry of an API key: old keys are due to be replaced.
pub fn api_key_item(record: ApiKeyRecord) -> (r: ApiKeyItemResponse)
    ensures
        r.id == record.id,
        r.name == record.name,
        r.masked_key@ == security::masked(record.prefix@, record.suffix@),
        r.created_at == record.created_at,
        r.last_used == record.last_used,
        r.status == record.status,
        r.scope == record.scope,
        r.needs_rotation == record.is_legacy,
{
    ApiKeyItemResponse {
        masked_key: security::mask_key(record.prefix.as_str(), record.suffix.as_str()),
        id: record.id,
        name: record.name,
        created_at: record.created_at,
        last_used: record.last_used,
        status: record.status,
        scope: record.scope,
        needs_rotation: record.is_legacy,
    }
}

/// Whether a request for an API key is proper: a name of 1 to 80 bytes and a known scope.
pub open spec fn key_request_allowed(request: CreateApiKeyRequest) -> bool {
    let name = text::trimmed(request.name@);
    &&& name.len() > 0
    &&& vstd::utf8::encode_utf8(name).len() <= 80
    &&& request.scope@ == "full"@ || request.scope@ == "read"@ || request.scope@ == "generate"@
}

/// A new API key: what the user sees, once with the secret, and what is stored of it.
#[derive(Debug, PartialEq, Eq)]
pub struct NewApiKey {
    pub created: CreatedApiKeyResponse,
    pub key_value: String,
    pub key_hash: String,
    pub key_prefix: String,
    pub key_suffix: String,
}

/// Whether a new key is that of a request: the secret itself is not stored, only its hash and
/// what may be shown of it.
pub open spec fn is_new_key(
    new: NewApiKey,
    request: CreateApiKeyRequest,
    id: Seq<char>,
    secret: Seq<char>,
    created_at: Seq<char>,
) -> bool {
    let shown = security::shown_lengths(secret.len() as int);
    &&& new.created.secret@ == secret
    &&& new.created.item.id@ == id
    &&& new.created.item.name@ == text::trimmed(request.name@)
    &&& new.created.item.masked_key@ == security::masked(
        secret.take(shown.0),
        secret.skip(secret.len() - shown.1),
    )
    &&& new.created.item.created_at@ == created_at
    &&& new.created.item.last_used@ == "未调用"@
    &&& new.created.item.status@ == "active"@
    &&& new.created.item.scope@ == request.scope@
    &&& !new.created.item.needs_rotation
    &&& new.key_value@ == "hashed:"@ + id
    &&& new.key_hash@ == encoding::digest_text(secret)
    &&& new.key_prefix@ == secret.take(shown.0)
    &&& new.key_suffix@ == secret.skip(secret.len() - shown.1)
}

/// The key that a request, two given tokens and a moment make up.
pub fn api_key_from(
    request: &CreateApiKeyRequest,
    id_token: &str,
    secret_token: &str,
    now: Moment,
) -> (r: AppResult<NewApiKey>)
    requires
        now.representable(),
    ensures
        if key_request_allowed(*request) {
            r matches Ok(new) && is_new_key(
                new,
                *request,
                "key-"@ + id_token@,
                "lum-live-"@ + secret_token@,
                clock::rfc3339_text(now.secs as int, now.nanos as int),
            )
        } else {
            model::refused(r, BAD_REQUEST, "API Key 参数无效"@)
        },
{
    let name = text::trim(request.name.as_str());
    let scope = request.scope.as_str();
    if text::characters(name).len() == 0 || text::byte_len(name) > 80 || !(text::same(scope, "full")
        || text::same(scope, "read") || text::same(scope, "generate")) {
        return refuse(BAD_REQUEST, "API Key 参数无效");
    }
    let id = text::concat("key-", id_token);
    let secret = text::concat("lum-live-", secret_token);
    let (prefix, suffix) = security::key_parts(secret.as_str());
    let item = ApiKeyItemResponse {
        id: id.clone(),
        name: name.to_owned(),
        masked_key: security::mask_key(prefix.as_str(), suffix.as_str()),
        created_at: clock::rfc3339(now),
        last_used: "未调用".to_owned(),
        status: "active".to_owned(),
        scope: request.scope.clone(),
        needs_rotation: false,
    };
    Ok(
        NewApiKey {
            key_value: text::concat("hashed:", id.as_str()),
            key_hash: security::hash_api_key(secret.as_str()),
            key_prefix: prefix,
            key_suffix: suffix,
            created: CreatedApiKeyResponse { item, secret },
        },
    )
}

/// A new API key for a proper request, with a fresh secret.
pub fn create_api_key(request: &CreateApiKeyRequest) -> (r: AppResult<NewApiKey>)
    ensures
        if key_request_allowed(*request) {
            &&& r matches Ok(new)
            &&& token::is_identifier(new.created.item.id@, "key-"@)
            &&& token::is_identifier(new.created.secret@, "lum-live-"@)
            &&& exists|now: Moment|
                now.representable() && #[trigger] is_new_key(
                    new,
                    *request,
                    new.created.item.id@,
                    new.created.secret@,
                    clock::rfc3339_text(now.secs as int, now.nanos as int),
                )
        } else {
            model::refused(r, BAD_REQUEST, "API Key 参数无效"@)
        },
{
    let id_token = token::unique_token();
    let secret_token = token::unique_token();
    let now = clock::utc_now();
    let r = api_key_from(request, id_token.as_str(), secret_token.as_str(), now);
    proof {
        if r is Ok {
            let new = r->Ok_0;
            assert(new.created.item.id@.skip("key-"@.len() as int) == id_token@);
            assert(new.created.secret@.skip("lum-live-"@.len() as int) == secret_token@);
        }
    }
    r
}

/// The end of revoking a key: there must have been one.
pub fn revoke_api_key(changed: usize) -> (r: AppResult<()>)
    ensures
        if changed == 0 {
            model::refused(r, NOT_FOUND, "API Key 不存在"@)
        } else {
            r is Ok
        },
{
    if changed == 0 {
        return refuse(NOT_FOUND, "API Key 不存在");
    }
    Ok(())
}

/// Where the search for a cookie ends.
proof fn lemma_first_cookie(cookies: Seq<Seq<char>>, prefix: Seq<char>, from: int, i: int)
    requires
        0 <= from <= i < cookies.len(),
        prefix.is_prefix_of(text::trimmed(cookies[i])),
        forall|j: int|
            from <= j < i ==> !prefix.is_prefix_of(text::trimmed(#[trigger] cookies[j])),
    ensures
        first_cookie(cookies, prefix, from) == Some(
            text::trimmed(cookies[i]).skip(prefix.len() as int),
        ),
    decreases i - from,
{
    if from < i {
        assert(!prefix.is_prefix_of(text::trimmed(cookies[from])));
        lemma_first_cookie(cookies, prefix, from + 1, i);
    }
}

proof fn lemma_no_cookie(cookies: Seq<Seq<char>>, prefix: Seq<char>, from: int)
    requires
        0 <= from,
        forall|j: int|
            from <= j < cookies.len() ==> !prefix.is_prefix_of(
                text::trimmed(#[trigger] cookies[j]),
            ),
    ensures
        first_cookie(cookies, prefix, from) is None,
    decreases cookies.len() - from,
{
    if from < cookies.len() {
        assert(!prefix.is_prefix_of(text::trimmed(cookies[from])));
        lemma_no_cookie(cookies, prefix, from + 1);
    }
}

/// A cookie's value is what stands behind its name and the equals sign in the first of the
/// semicolon-separated parts that begins so.
pub proof fn cookies_are_found_by_name(
    headers: &HeaderMap<HeaderValue>,
    name: &str,
    header_name: &str,
    header: Option<&str>,
    value: Seq<char>,
    i: int,
    r: Option<String>,
)
    requires
        header_name@ == "cookie"@,
        call_ensures(request::header_string, (headers, header_name), header),
        call_ensures(cookie_value, (headers, name), r),
    ensures
        header is None ==> r is None,
        header is Some ==> {
            let parts = text::split_on(header->0@, ';');
            &&& 0 <= i < parts.len() && text::trimmed(parts[i]) == name@ + "="@ + value
                && begins_no_part(parts.take(i), name@ + "="@) ==> r is Some && r->0@ == value
            &&& begins_no_part(parts, name@ + "="@) ==> r is None
        },
{
    if header is Some {
        let parts = text::split_on(header->0@, ';');
        let prefix = name@ + "="@;
        if 0 <= i < parts.len() && text::trimmed(parts[i]) == name@ + "="@ + value
            && begins_no_part(parts.take(i), prefix) {
            let held = text::trimmed(parts[i]);
            assert(held.subrange(0, prefix.len() as int) =~= prefix);
            assert(held.skip(prefix.len() as int) =~= value);
            assert forall|j: int| 0 <= j < i implies !prefix.is_prefix_of(
                text::trimmed(#[trigger] parts[j]),
            ) by {
                assert(parts.take(i)[j] == parts[j]);
            }
            lemma_first_cookie(parts, prefix, 0, i);
        }
        if begins_no_part(parts, prefix) {
            lemma_no_cookie(parts, prefix, 0);
        }
    }
}

/// Whether none of the parts, without the white space around it, begins with a prefix.
pub open spec fn begins_no_part(parts: Seq<Seq<char>>, prefix: Seq<char>) -> bool {
    forall|j: int| 0 <= j < parts.len() ==> !prefix.is_prefix_of(text::trimmed(#[trigger] parts[j]))
}

/// The session token is the cookie `lumora_session`; a request without it has to sign in.
pub proof fn sessions_come_in_their_cookie(
    headers: &HeaderMap<HeaderValue>,
    name: &str,
    cookie: Option<String>,
    r: AppResult<String>,
)
    requires
        name@ == "lumora_session"@,
        call_ensures(cookie_value, (headers, name), cookie),
        call_ensures(session_token, (headers,), r),
    ensures
        r is Ok <==> cookie is Some,
        r is Ok ==> r->Ok_0@ == cookie->0@,
        r matches Err(error) ==> error.0 == 401,
{
}

/// A session lets its user in until it ends, and nobody after.
pub proof fn sessions_let_their_user_in(
    session: Option<StoredSession>,
    now: &str,
    end: &str,
    in_time: bool,
    r: AppResult<UserResponse>,
)
    requires
        session is Some && session->0.expires_at is Some ==> end@ == session->0.expires_at->0@,
        call_ensures(text::before, (now, end), in_time),
        call_ensures(user_from_session, (session, now), r),
    ensures
        r is Ok <==> session is Some && (session->0.expires_at is None || in_time),
        r is Ok ==> r->Ok_0 == session->0.user,
        r matches Err(error) ==> error.0 == 401,
{
}

/// An API key is looked up as what stands behind `Bearer `, by itself and by its digest; without
/// one a request is refused.
pub proof fn keys_are_looked_up_by_their_digest(
    headers: &HeaderMap<HeaderValue>,
    name: &str,
    header: Option<&str>,
    key: &str,
    digest: String,
    r: AppResult<KeyLookup>,
)
    requires
        name@ == "authorization"@,
        call_ensures(request::header_string, (headers, name), header),
        call_ensures(security::hash_api_key, (key,), digest),
        call_ensures(api_key_lookup, (headers,), r),
    ensures
        header is Some && header->0@ == "Bearer "@ + key@ && key@.len() > 0 ==> r is Ok
            && r->Ok_0.api_key@ == key@ && r->Ok_0.key_hash@ == digest@,
        header is None || !"Bearer "@.is_prefix_of(header->0@) || header->0@ == "Bearer "@
            ==> r is Err,
        r matches Err(error) ==> error.0 == 401,
{
    if header is Some && header->0@ == "Bearer "@ + key@ {
        let value = header->0@;
        assert(value.subrange(0, "Bearer "@.len() as int) =~= "Bearer "@);
        assert(value.skip("Bearer "@.len() as int) =~= key@);
    }
}

/// Where the search for a key ends.
proof fn lemma_first_accepted(keys: Seq<StoredKey>, lookup: KeyLookup, from: int, i: int)
    requires
        0 <= from <= i < keys.len(),
        is_accepted(keys[i], lookup),
        forall|j: int| from <= j < i ==> !is_accepted(#[trigger] keys[j], lookup),
    ensures
        first_accepted(keys, lookup, from) == Some(keys[i].principal),
    decreases i - from,
{
    if from < i {
        assert(!is_accepted(keys[from], lookup));
        lemma_first_accepted(keys, lookup, from + 1, i);
    }
}

proof fn lemma_accepted_from(keys: Seq<StoredKey>, lookup: KeyLookup, from: int)
    requires
        0 <= from,
        first_accepted(keys, lookup, from) is Some,
    ensures
        exists|i: int|
            from <= i < keys.len() && is_accepted(#[trigger] keys[i], lookup)
                && keys[i].principal == first_accepted(keys, lookup, from)->0,
    decreases keys.len() - from,
{
    if from < keys.len() && !is_accepted(keys[from], lookup) {
        lemma_accepted_from(keys, lookup, from + 1);
    }
}

/// Whether a stored key works and is the one that is looked up: an old key by itself, any other by
/// its digest.
pub open spec fn lets_in(key: StoredKey, lookup: KeyLookup) -> bool {
    &&& key.status@ == "active"@
    &&& key.is_legacy ==> key.key_value@ == lookup.api_key@
    &&& !key.is_legacy ==> key.key_hash is Some && key.key_hash->0@ == lookup.key_hash@
}

/// A request is let in exactly where an active key is the one that is looked up, and then as the
/// user whose key that is.
pub proof fn active_keys_let_their_user_in(
    keys: Vec<StoredKey>,
    lookup: &KeyLookup,
    r: Option<ApiPrincipal>,
)
    requires
        call_ensures(accepted_key, (keys, lookup), r),
    ensures
        r is Some <==> exists|i: int|
            0 <= i < keys@.len() && lets_in(#[trigger] keys@[i], *lookup),
        r is Some ==> exists|i: int|
            0 <= i < keys@.len() && lets_in(#[trigger] keys@[i], *lookup) && r->0
                == keys@[i].principal,
{
    assert forall|i: int| 0 <= i < keys@.len() implies lets_in(#[trigger] keys@[i], *lookup)
        == is_accepted(keys@[i], *lookup) by {}
    if r is Some {
        lemma_accepted_from(keys@, *lookup, 0);
        let i = choose|i: int|
            0 <= i < keys@.len() && is_accepted(#[trigger] keys@[i], *lookup) && keys@[i].principal
                == r->0;
        assert(lets_in(keys@[i], *lookup));
    }
    if exists|i: int| 0 <= i < keys@.len() && lets_in(#[trigger] keys@[i], *lookup) {
        let i = choose|i: int| 0 <= i < keys@.len() && lets_in(#[trigger] keys@[i], *lookup);
        lemma_some_accepted(keys@, *lookup, 0, i);
    }
}

proof fn lemma_some_accepted(keys: Seq<StoredKey>, lookup: KeyLookup, from: int, i: int)
    requires
        0 <= from <= i < keys.len(),
        is_accepted(keys[i], lookup),
    ensures
        first_accepted(keys, lookup, from) is Some,
    decreases i - from,
{
    if from < i && !is_accepted(keys[from], lookup) {
        lemma_some_accepted(keys, lookup, from + 1, i);
    }
}

/// A user is let in through a key whose scope is allowed, and through no other.
pub proof fn scopes_decide_what_keys_may_do(
    principal: Option<ApiPrincipal>,
    allowed_scopes: &[&str],
    r: AppResult<ApiPrincipal>,
)
    requires
        call_ensures(user_from_api_key, (principal, allowed_scopes), r),
    ensures
        r is Ok <==> principal is Some && exists|i: int|
            0 <= i < allowed_scopes@.len() && (#[trigger] allowed_scopes@[i])@
                == principal->0.scope@,
        r is Ok ==> r->Ok_0 == principal->0,
        principal is None ==> r->Err_0.0 == 401,
        principal is Some && r is Err ==> r->Err_0.0 == 403,
{
}

/// An email address needs an at sign and fits into 254 bytes; a password has 8 to 128 bytes.
pub proof fn credentials_are_judged_by_form(email: &str, password: &str, r: AppResult<()>)
    requires
        call_ensures(check_credentials, (email, password), r),
    ensures
        r is Ok <==> {
            &&& vstd::utf8::encode_utf8(email@).len() <= 254
            &&& exists|i: int| 0 <= i < email@.len() && #[trigger] email@[i] == '@'
            &&& 8 <= vstd::utf8::encode_utf8(password@).len() <= 128
        },
        r matches Err(error) ==> error.0 == 400,
{
    if email@.contains('@') {
        let i = choose|i: int| 0 <= i < email@.len() && email@[i] == '@';
        assert(email@[i] == '@');
    }
}

/// Addresses and passwords alone are judged by the same form.
pub proof fn parts_of_credentials_are_judged_alike(
    email: &str,
    password: &str,
    proper_email: bool,
    proper_password: bool,
    r: AppResult<()>,
)
    requires
        call_ensures(email_is_valid, (email,), proper_email),
        call_ensures(password_is_valid, (password,), proper_password),
        call_ensures(check_credentials, (email, password), r),
    ensures
        r is Ok <==> proper_email && proper_password,
{
}

/// Users are known by their address in lower case, without the white space around it, and by
/// their password as it is.
pub proof fn addresses_are_put_in_lower_case(
    request: &AuthRequest,
    email: &str,
    password: &str,
    proper: AppResult<()>,
    r: AppResult<(String, String)>,
)
    requires
        email@ == text::lowercase(text::trimmed(request.email@)),
        password@ == request.password@,
        call_ensures(check_credentials, (email, password), proper),
        call_ensures(validate_auth, (request,), r),
    ensures
        r is Ok <==> proper is Ok,
        r is Ok ==> r->Ok_0.0@ == email@ && r->Ok_0.1@ == password@,
        r matches Err(error) ==> error.0 == 400,
{
}

/// A session belongs to its user, has the token given, and ends thirty days after it begins.
pub proof fn sessions_last_thirty_days(
    user_id: &str,
    session_token: String,
    now: Moment,
    end: Moment,
    r: Option<SessionRow>,
)
    requires
        now.representable(),
        end.secs == now.secs + 30 * 24 * 60 * 60,
        end.nanos == now.nanos,
        call_ensures(session_row, (user_id, session_token, now), r),
    ensures
        r is Some <==> end.representable(),
        r matches Some(row) ==> {
            &&& row.token@ == session_token@
            &&& row.user_id@ == user_id@
            &&& row.created_at@ == clock::rfc3339_text(now.secs as int, now.nanos as int)
            &&& row.expires_at@ == clock::rfc3339_text(end.secs as int, end.nanos as int)
        },
{
}

/// A session that is begun belongs to the user who begins it.
pub proof fn begun_sessions_belong_to_their_user(user_id: &str, r: Option<SessionRow>)
    requires
        call_ensures(create_session, (user_id,), r),
    ensures
        r matches Some(row) ==> row.user_id@ == user_id@ && token::is_token(row.token@) && exists|
            secs: int,
            nanos: int,
        |
            row.created_at@ == #[trigger] clock::rfc3339_text(secs, nanos) && row.expires_at@
                == clock::rfc3339_text(secs + 2_592_000, nanos),
        r is None ==> exists|now: Moment|
            now.representable() && #[trigger] now.secs > 8_210_266_876_799 - 2_592_000,
{
    let now = choose|now: Moment| #[trigger] begun_at(r, user_id@, now);
    if r is Some {
        assert(r->0.created_at@ == clock::rfc3339_text(now.secs as int, now.nanos as int));
    } else {
        assert(now.representable() && now.secs > 8_210_266_876_799 - 2_592_000);
    }
}

/// The session cookie carries the token under its name, keeps it from scripts, and lasts as long
/// as it is told; in production only encrypted connections carry it.
pub proof fn session_cookies_are_guarded(
    production: bool,
    session_token: &str,
    max_age: i64,
    r: String,
)
    requires
        call_ensures(session_cookie, (production, session_token, max_age), r),
    ensures
        ({
            let start = "lumora_session"@ + "="@ + session_token@ + "; HttpOnly; Path=/; SameSite="@;
            let age = text::signed_digits(max_age as int);
            &&& production ==> r@ == start + "None"@ + "; Max-Age="@ + age + "; Secure"@
            &&& !production ==> r@ == start + "Lax"@ + "; Max-Age="@ + age
        }),
{
    reveal_strlit("");
    let start = "lumora_session"@ + "="@ + session_token@ + "; HttpOnly; Path=/; SameSite="@;
    let age = text::signed_digits(max_age as int);
    assert(start + "Lax"@ + "; Max-Age="@ + age + ""@ =~= start + "Lax"@ + "; Max-Age="@ + age);
}

/// A new user has the address, the name that stands before its at sign, three thousand credits of
/// which none is set aside, and ten thousand calls a day.
pub proof fn new_users_start_alike(email: String, password_hash: String, r: NewUser, i: int)
    requires
        call_ensures(new_user, (email, password_hash), r),
    ensures
        r.user.email@ == email@,
        r.user.plan@ == "Free"@,
        r.user.avatar@.len() == 0,
        r.user.credits == 3000,
        r.user.credits_reserved == 0,
        r.daily_limit == 10_000,
        r.password_hash@ == password_hash@,
        token::is_identifier(r.user.id@, "usr-"@),
        0 <= i < email@.len() && email@[i] == '@' && !email@.take(i).contains('@')
            ==> r.user.name@ == email@.take(i),
{
    reveal_strlit("");
    if 0 <= i < email@.len() && email@[i] == '@' && !email@.take(i).contains('@') {
        text::the_first_part_ends_at_the_first_separator(email@, '@', i);
    }
}

/// Who registers with proper credentials is let in with them later, and as nobody else.
pub proof fn registered_users_can_sign_in(
    request: &AuthRequest,
    credentials: AppResult<(String, String)>,
    new: AppResult<NewUser>,
    user: UserResponse,
    password_hash: String,
    password: &str,
    r: AppResult<UserResponse>,
)
    requires
        call_ensures(validate_auth, (request,), credentials),
        call_ensures(register, (request,), new),
        new is Ok ==> password_hash@ == new->Ok_0.password_hash@,
        password@ == request.password@,
        call_ensures(login, (Some(LoginRecord { user, password_hash }), password), r),
    ensures
        new is Ok <==> credentials is Ok,
        new is Ok ==> new->Ok_0.user.email@ == credentials->Ok_0.0@ && new->Ok_0.user.credits
            == 3000,
        new is Ok ==> r is Ok && r->Ok_0 == user,
        new matches Err(error) ==> error.0 == 400,
{
}

/// Nobody signs in without a record, or with a password that does not fit its hash.
pub proof fn only_fitting_passwords_let_in(
    record: Option<LoginRecord>,
    password: &str,
    r: AppResult<UserResponse>,
)
    requires
        call_ensures(login, (record, password), r),
    ensures
        r is Ok <==> record is Some && password_check(
            record->0.password_hash@,
            vstd::utf8::encode_utf8(password@),
        ) == Some(true),
        r is Ok ==> r->Ok_0 == record->0.user,
        record is None ==> r->Err_0.0 == 401,
        record is Some && password_check(
            record->0.password_hash@,
            vstd::utf8::encode_utf8(password@),
        ) == Some(false) ==> r->Err_0.0 == 401,
{
}

/// An unknown address and a wrong password are answered in the same words.
pub proof fn strangers_learn_nothing(
    found: LoginRecord,
    password: &str,
    unknown: AppResult<UserResponse>,
    wrong: AppResult<UserResponse>,
)
    requires
        password_check(found.password_hash@, vstd::utf8::encode_utf8(password@)) == Some(false),
        call_ensures(login, (None, password), unknown),
        call_ensures(login, (Some(found), password), wrong),
    ensures
        unknown is Err,
        wrong is Err,
        unknown->Err_0.0 == wrong->Err_0.0,
        unknown->Err_0.1@ == wrong->Err_0.1@,
{
}

/// A list shows of a key what is stored of it, with its middle hidden, and tells which are old.
pub proof fn lists_hide_the_middle_of_keys(
    record: ApiKeyRecord,
    prefix: &str,
    suffix: &str,
    masked: String,
    r: ApiKeyItemResponse,
)
    requires
        prefix@ == record.prefix@,
        suffix@ == record.suffix@,
        call_ensures(security::mask_key, (prefix, suffix), masked),
        call_ensures(api_key_item, (record,), r),
    ensures
        r.masked_key@ == masked@,
        r.id@ == record.id@,
        r.name@ == record.name@,
        r.created_at@ == record.created_at@,
        r.last_used@ == record.last_used@,
        r.status@ == record.status@,
        r.scope@ == record.scope@,
        r.needs_rotation == record.is_legacy,
{
}

/// A key is made exactly for a name of 1 to 80 bytes and one of the three scopes.
pub proof fn keys_are_made_for_proper_requests(
    request: &CreateApiKeyRequest,
    r: AppResult<NewApiKey>,
)
    requires
        call_ensures(create_api_key, (request,), r),
    ensures
        r is Ok <==> {
            &&& text::trimmed(request.name@).len() > 0
            &&& vstd::utf8::encode_utf8(text::trimmed(request.name@)).len() <= 80
            &&& request.scope@ == "full"@ || request.scope@ == "read"@ || request.scope@
                == "generate"@
        },
        r matches Err(error) ==> error.0 == 400,
        r matches Ok(new) ==> {
            &&& new.created.item.name@ == text::trimmed(request.name@)
            &&& new.created.item.scope@ == request.scope@
            &&& new.created.item.status@ == "active"@
            &&& !new.created.item.needs_rotation
            &&& "lum-live-"@.is_prefix_of(new.created.secret@)
            &&& new.created.secret@.len() == "lum-live-"@.len() + 32
        },
{
}

/// A new key lets its user in: what is stored of it is found by the secret that was handed out,
/// and the secret itself is not stored.
pub proof fn new_keys_let_their_user_in(
    request: &CreateApiKeyRequest,
    headers: &HeaderMap<HeaderValue>,
    name: &str,
    header: Option<&str>,
    new: AppResult<NewApiKey>,
    lookup: AppResult<KeyLookup>,
    keys: Vec<StoredKey>,
    r: Option<ApiPrincipal>,
)
    requires
        call_ensures(create_api_key, (request,), new),
        new is Ok,
        name@ == "authorization"@,
        call_ensures(request::header_string, (headers, name), header),
        header is Some,
        header->0@ == "Bearer "@ + new->Ok_0.created.secret@,
        call_ensures(api_key_lookup, (headers,), lookup),
        keys@.len() == 1,
        keys@[0].status@ == new->Ok_0.created.item.status@,
        !keys@[0].is_legacy,
        text::opt(keys@[0].key_hash) == Some(new->Ok_0.key_hash@),
        lookup is Ok ==> call_ensures(accepted_key, (keys, &lookup->Ok_0), r),
    ensures
        lookup is Ok,
        r is Some,
        r->0 == keys@[0].principal,
        new->Ok_0.key_value@ != new->Ok_0.created.secret@,
        new->Ok_0.key_prefix@.len() + new->Ok_0.key_suffix@.len()
            < new->Ok_0.created.secret@.len(),
{
    let secret = new->Ok_0.created.secret@;
    let value = header->0@;
    assert(value.subrange(0, "Bearer "@.len() as int) =~= "Bearer "@);
    assert(value.skip("Bearer "@.len() as int) =~= secret);
    reveal_strlit("lum-live-");
    reveal_strlit("hashed:");
    assert(secret[0] == "lum-live-"@[0]);
    assert(new->Ok_0.key_value@[0] == "hashed:"@[0]);
    assert(is_accepted(keys@[0], lookup->Ok_0));
    lemma_first_accepted(keys@, lookup->Ok_0, 0, 0);
}

/// What is stored and shown of a key are its ends, its digest and its identifier.
pub proof fn keys_are_stored_without_their_secret(
    request: &CreateApiKeyRequest,
    id_token: &str,
    secret_token: &str,
    now: Moment,
    secret: &str,
    parts: (String, String),
    digest: String,
    r: AppResult<NewApiKey>,
)
    requires
        now.representable(),
        call_ensures(api_key_from, (request, id_token, secret_token, now), r),
        secret@ == "lum-live-"@ + secret_token@,
        call_ensures(security::key_parts, (secret,), parts),
        call_ensures(security::hash_api_key, (secret,), digest),
        r is Ok,
    ensures
        r->Ok_0.created.secret@ == secret@,
        r->Ok_0.key_prefix@ == parts.0@,
        r->Ok_0.key_suffix@ == parts.1@,
        r->Ok_0.key_hash@ == digest@,
        r->Ok_0.created.item.id@ == "key-"@ + id_token@,
        r->Ok_0.key_value@ == "hashed:"@ + r->Ok_0.created.item.id@,
        r->Ok_0.created.item.created_at@ == clock::rfc3339_text(
            now.secs as int,
            now.nanos as int,
        ),
{
}

/// Revoking a key fails only where there was none.
pub proof fn keys_can_be_revoked(changed: usize, r: AppResult<()>)
    requires
        call_ensures(revoke_api_key, (changed,), r),
    ensures
        r is Ok <==> changed > 0,
        r matches Err(error) ==> error.0 == 404,
{
}

/// Every password of a proper length gets a hash, and that password fits it.
pub proof fn passwords_fit_their_hash(
    password: &str,
    hash: AppResult<String>,
    found: LoginRecord,
    r: AppResult<UserResponse>,
)
    requires
        call_ensures(hash_password, (password,), hash),
        hash is Ok ==> found.password_hash@ == hash->Ok_0@,
        call_ensures(login, (Some(found), password), r),
    ensures
        vstd::utf8::encode_utf8(password@).len() <= 0xffff_ffff ==> hash is Ok,
        hash is Ok ==> r is Ok && r->Ok_0 == found.user,
{
}

/// A checked password lets its user in exactly where it fits; a broken hash is told apart from a
/// wrong password.
pub proof fn checked_passwords_decide(
    user: UserResponse,
    fits: Option<bool>,
    r: AppResult<UserResponse>,
)
    requires
        call_ensures(login_result, (user, fits), r),
    ensures
        r is Ok <==> fits == Some(true),
        r is Ok ==> r->Ok_0 == user,
        fits == Some(false) ==> r->Err_0.0 == 401,
        fits is None ==> r->Err_0.0 == 500,
{
}

/// An address that another user has is a conflict.
pub proof fn taken_addresses_conflict(r: AppError)
    requires
        call_ensures(email_taken, (), r),
    ensures
        r.0 == 409,
{
}

} // verus!
