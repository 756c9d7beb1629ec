use axum::http::{HeaderMap, HeaderValue};
use lumora::auth::{
    accepted_key, api_key_from, api_key_item, api_key_lookup, cookie_value, create_api_key, create_session,
    email_taken, hash_password, login, login_result, new_user, register, revoke_api_key,
    session_cookie, session_row, session_token, user_from_api_key, user_from_session,
    validate_auth, ApiKeyRecord, LoginRecord, StoredKey, StoredSession, REGISTRATION_CREDITS,
};
use lumora::clock::Moment;
use lumora::model::{
    ApiPrincipal, AuthRequest, CreateApiKeyRequest, UserResponse, BAD_REQUEST, CONFLICT,
    FORBIDDEN, NOT_FOUND, UNAUTHORIZED,
};
use lumora::observability::{bearer_token, constant_time_eq, metrics, metrics_access, token_digest};
use lumora::security::{
    decrypt_secret, encrypt_secret, hash_api_key, key_parts, mask_key, seal_secret, MASK,
};

fn user() -> UserResponse {
    UserResponse {
        id: "user-1".into(),
        name: "Test".into(),
        email: "test@example.test".into(),
        avatar: String::new(),
        plan: "Free".into(),
        credits: 10,
        credits_reserved: 0,
    }
}

fn headers_with(name: &'static str, value: &'static str) -> HeaderMap {
    let mut headers = HeaderMap::new();
    headers.insert(name, HeaderValue::from_static(value));
    headers
}

#[test]
fn encrypts_and_hashes_credentials() {
    let key = [9_u8; 32];
    let encrypted = encrypt_secret(&key, "test-secret").unwrap();
    assert_ne!(encrypted, "test-secret");
    assert_eq!(decrypt_secret(&key, &encrypted).unwrap(), "test-secret");
    assert_eq!(hash_api_key("same"), hash_api_key("same"));
    assert_ne!(hash_api_key("same"), hash_api_key("different"));
    let (prefix, suffix) = key_parts("test-key");
    assert_eq!((prefix.as_str(), suffix.as_str()), ("te", "ey"));
    assert!(!mask_key(&prefix, &suffix).contains("test-key"));
}

#[test]
fn token_digest_comparison_checks_all_bytes() {
    let expected = [7_u8; 32];
    assert!(constant_time_eq(&expected, &[7_u8; 32]));
    assert!(!constant_time_eq(&expected, &[8_u8; 32]));
}

#[test]
fn one_differing_byte_is_enough() {
    for place in 0..32 {
        let mut other = [7_u8; 32];
        other[place] = 6;
        assert!(!constant_time_eq(&[7_u8; 32], &other));
    }
}

#[test]
fn hashes_are_hexadecimal_digests() {
    assert_eq!(
        hash_api_key("abc"),
        "ba7816bf8f01cfea414140de5dae2223b00361a396177a9cb410ff61f20015ad"
    );
    assert_eq!(token_digest("abc")[0], 0xba);
    assert_eq!(token_digest("abc")[31], 0xad);
}

#[test]
fn sealed_secrets_open_under_their_key_alone() {
    let key = [1_u8; 32];
    let sealed = seal_secret(&key, "秘密", &[3_u8; 12]).unwrap();
    assert_eq!(decrypt_secret(&key, &sealed).unwrap(), "秘密");
    assert!(decrypt_secret(&[2_u8; 32], &sealed).is_err());
    assert!(decrypt_secret(&key, "not base64!").is_err());
    assert!(decrypt_secret(&key, "AAAA").is_err());
    assert_eq!(seal_secret(&key, "秘密", &[3_u8; 12]).unwrap(), sealed);
    assert_ne!(encrypt_secret(&key, "秘密").unwrap(), encrypt_secret(&key, "秘密").unwrap());
}

#[test]
fn keys_show_less_the_shorter_they_are() {
    assert_eq!(key_parts("abcd"), (String::new(), String::new()));
    assert_eq!(key_parts("abcde"), ("ab".to_string(), "de".to_string()));
    assert_eq!(
        key_parts("legacy-provider-key"),
        ("legacy-pr".to_string(), "-key".to_string())
    );
    assert_eq!(mask_key("sk-admin-", "tail"), format!("sk-admin-{MASK}tail"));
}

#[test]
fn enforces_key_scopes_and_accepts_legacy_keys() {
    let key = "lum-live-test-key";
    let keys = || {
        vec![
            StoredKey {
                principal: ApiPrincipal { user: user(), scope: "read".into() },
                is_legacy: false,
                status: "active".into(),
                key_hash: Some(hash_api_key(key)),
                key_value: "hashed:key-1".into(),
            },
            StoredKey {
                principal: ApiPrincipal { user: user(), scope: "full".into() },
                is_legacy: true,
                status: "active".into(),
                key_hash: None,
                key_value: "legacy-key".into(),
            },
        ]
    };
    let headers = headers_with("authorization", "Bearer lum-live-test-key");
    let lookup = api_key_lookup(&headers).unwrap();
    assert!(user_from_api_key(accepted_key(keys(), &lookup), &["read"]).is_ok());
    match user_from_api_key(accepted_key(keys(), &lookup), &["generate"]) {
        Err(error) => assert_eq!(error.0, FORBIDDEN),
        Ok(_) => panic!("read key unexpectedly allowed generation"),
    }
    let headers = headers_with("authorization", "Bearer legacy-key");
    let lookup = api_key_lookup(&headers).unwrap();
    assert!(user_from_api_key(accepted_key(keys(), &lookup), &["full"]).is_ok());
    let headers = headers_with("authorization", "Bearer hashed:key-1");
    let lookup = api_key_lookup(&headers).unwrap();
    assert_eq!(accepted_key(keys(), &lookup), None);
    let headers = headers_with("authorization", "Bearer legacy-key");
    let lookup = api_key_lookup(&headers).unwrap();
    let revoked: Vec<StoredKey> = keys()
        .into_iter()
        .map(|key| StoredKey { status: "revoked".into(), ..key })
        .collect();
    assert_eq!(accepted_key(revoked, &lookup), None);
}

#[test]
fn unknown_keys_are_not_let_in() {
    assert_eq!(api_key_lookup(&HeaderMap::new()).err().unwrap().0, UNAUTHORIZED);
    let basic = headers_with("authorization", "Basic abc");
    assert_eq!(api_key_lookup(&basic).err().unwrap().0, UNAUTHORIZED);
    assert_eq!(user_from_api_key(None, &["read"]).err().unwrap().0, UNAUTHORIZED);
}

#[test]
fn expires_sessions_and_stores_new_keys_as_hashes() {
    let headers = headers_with("cookie", "lumora_session=expired");
    assert_eq!(session_token(&headers).unwrap(), "expired");
    let session = |expires_at: &str| StoredSession {
        user: user(),
        expires_at: Some(expires_at.into()),
    };
    let now = "2026-08-05T04:00:00+00:00";
    match user_from_session(Some(session("2020-01-01T00:00:00Z")), now) {
        Err(error) => assert_eq!(error.0, UNAUTHORIZED),
        Ok(_) => panic!("expired session unexpectedly authenticated"),
    }
    assert_eq!(
        user_from_session(Some(session("2099-01-01T00:00:00Z")), now).unwrap().id,
        "user-1"
    );
    assert!(user_from_session(Some(session(now)), now).is_err());
    let endless = StoredSession { user: user(), expires_at: None };
    assert!(user_from_session(Some(endless), now).is_ok());
    assert_eq!(user_from_session(None, now).err().unwrap().0, UNAUTHORIZED);

    let created = create_api_key(&CreateApiKeyRequest {
        name: "Test key".into(),
        scope: "generate".into(),
    })
    .unwrap();
    assert_ne!(created.key_value, created.created.secret);
    assert_eq!(created.key_hash, hash_api_key(&created.created.secret));
    assert!(!created.created.item.needs_rotation);
}

#[test]
fn sessions_last_thirty_days() {
    let row = session_row("user-1", "token".into(), Moment { secs: 0, nanos: 0 }).unwrap();
    assert_eq!(row.created_at, "1970-01-01T00:00:00+00:00");
    assert_eq!(row.expires_at, "1970-01-31T00:00:00+00:00");
    assert!(session_row("user-1", "token".into(), Moment { secs: i64::MAX, nanos: 0 }).is_none());
    let fresh = create_session("user-1").unwrap();
    assert_eq!(fresh.user_id, "user-1");
    assert_ne!(fresh.token, create_session("user-1").unwrap().token);
}

#[test]
fn cookies_are_found_among_others() {
    let headers = headers_with("cookie", "theme=dark; lumora_session=abc; other=1");
    assert_eq!(cookie_value(&headers, "lumora_session").as_deref(), Some("abc"));
    assert_eq!(cookie_value(&headers, "session"), None);
    assert_eq!(session_token(&HeaderMap::new()).err().unwrap().0, UNAUTHORIZED);
}

#[test]
fn session_cookies_are_for_the_server_alone() {
    assert_eq!(
        session_cookie(true, "abc", 60),
        "lumora_session=abc; HttpOnly; Path=/; SameSite=None; Max-Age=60; Secure"
    );
    assert_eq!(
        session_cookie(false, "", 0),
        "lumora_session=; HttpOnly; Path=/; SameSite=Lax; Max-Age=0"
    );
}

#[test]
fn passwords_are_hashed_and_checked() {
    let hash = hash_password("correct horse").unwrap();
    assert!(hash.starts_with("$argon2id$"));
    assert_ne!(hash, hash_password("correct horse").unwrap());
    let record = |hash: &str| LoginRecord { user: user(), password_hash: hash.into() };
    assert_eq!(login(Some(record(&hash)), "correct horse").unwrap().id, "user-1");
    assert_eq!(login(Some(record(&hash)), "wrong").err().unwrap().0, UNAUTHORIZED);
    assert_eq!(login(None, "correct horse").err().unwrap().0, UNAUTHORIZED);
    assert!(login(Some(record("not a hash")), "correct horse").is_err());
    assert!(login_result(user(), Some(true)).is_ok());
    assert!(login_result(user(), Some(false)).is_err());
}

#[test]
fn registration_checks_its_texts() {
    let request = |email: &str, password: &str| AuthRequest {
        email: email.into(),
        password: password.into(),
        verification_code: None,
    };
    let new = register(&request(" New@Example.Test ", "long enough 1")).unwrap();
    assert_eq!(new.user.email, "new@example.test");
    assert_eq!(new.user.credits, REGISTRATION_CREDITS);
    assert_eq!(register(&request("nowhere", "long enough 1")).err().unwrap().0, BAD_REQUEST);
    assert_eq!(register(&request("a@b.test", "short")).err().unwrap().0, BAD_REQUEST);
    assert_eq!(email_taken().0, CONFLICT);
    assert_eq!(
        validate_auth(&request("A@B.test", "long enough 1")).unwrap().0,
        "a@b.test"
    );
    assert_eq!(new_user("x@y.test".into(), "hash".into()).password_hash, "hash");
}

#[test]
fn api_keys_are_shown_once() {
    let request = CreateApiKeyRequest { name: " Key ".into(), scope: "read".into() };
    let token = "0123456789abcdef0123456789abcdef";
    let made = api_key_from(&request, token, token, Moment { secs: 0, nanos: 0 }).unwrap();
    assert!(made.created.secret.contains(token));
    assert!(!made.created.item.masked_key.contains(token));
    assert_eq!(made.created.item.name, "Key");
    let strange = CreateApiKeyRequest { name: "Key".into(), scope: "root".into() };
    assert_eq!(create_api_key(&strange).err().unwrap().0, BAD_REQUEST);
    let nameless = CreateApiKeyRequest { name: "  ".into(), scope: "read".into() };
    assert_eq!(create_api_key(&nameless).err().unwrap().0, BAD_REQUEST);
    assert_eq!(revoke_api_key(0).err().unwrap().0, NOT_FOUND);
    assert!(revoke_api_key(1).is_ok());
}

#[test]
fn plain_keys_are_due_for_rotation() {
    let item = api_key_item(ApiKeyRecord {
        id: "key-1".into(),
        name: "Key".into(),
        prefix: "lum-live-".into(),
        suffix: "tail".into(),
        created_at: "2026-01-01".into(),
        last_used: "未调用".into(),
        status: "active".into(),
        scope: "full".into(),
        is_legacy: true,
    });
    assert!(item.needs_rotation);
    assert_eq!(item.masked_key, format!("lum-live-{MASK}tail"));
}

#[test]
fn metrics_need_their_token() {
    let expected = Some(token_digest("metrics-token"));
    let right = headers_with("authorization", "Bearer metrics-token");
    assert_eq!(bearer_token(&right), Some("metrics-token"));
    assert!(metrics_access(&expected, &right).is_ok());
    let wrong = headers_with("authorization", "Bearer other");
    assert!(metrics_access(&expected, &wrong).is_err());
    assert!(metrics_access(&expected, &HeaderMap::new()).is_err());
    assert!(metrics_access(&None, &right).is_err());
    assert_eq!(metrics(Some("up 1".into())).unwrap(), "up 1");
    assert!(metrics(None).is_err());
}

#[test]
fn what_is_stored_is_not_the_secret() {
    let key = [9; 32];
    for secret in ["", "a", "test-secret", "秘密"] {
        let stored = encrypt_secret(&key, secret).unwrap();
        assert_ne!(stored, secret);
        assert_eq!(stored.len(), (secret.len() + 28 + 2) / 3 * 4);
        assert_eq!(decrypt_secret(&key, &stored).unwrap(), secret);
    }
}
