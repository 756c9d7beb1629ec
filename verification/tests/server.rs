use base64::Engine;
use lumora::account::{
    active_provider, api_not_found, check_url, create_provider, delete_provider,
    normalize_base_url, stats_date, update_profile, ProviderSlot, StoredProvider,
};
use lumora::clock::{now, timestamp, Moment};
use lumora::config::{
    decode_master_key, fresh_master_key, is_production, join_path, key_source, non_empty,
    worker_concurrency, Config, ConfigError, Environment, KeySource,
};
use lumora::db::{
    add_column, backup_name, missing_columns, migrate_provider_secrets, needs_backup,
    opening_entries, reader_count, reclassify_images, utc_day_bounds, Classified, OpeningBalance,
    PlainProvider, ReaderPool, ReaderStep, COLUMNS, SCHEMA_VERSION,
};
use lumora::encoding::Base64Error;
use lumora::model::{
    api_json, api_query, api_success, error_envelope, refuse, AppError, CreateProviderRequest,
    OpenAiError, UpdateProfileRequest, UserResponse, BAD_REQUEST, CONFLICT, NOT_FOUND,
    PAYLOAD_TOO_LARGE, SERVICE_UNAVAILABLE, UNPROCESSABLE_ENTITY,
};
use lumora::paging::page_of;
use lumora::security::decrypt_secret;
use lumora::table::Table;
use lumora::text::{
    decimal, ordered_trimmed, parse_within, signed_decimal, split, split_once, take, trim,
};
use lumora::token::{fresh_token, identifier};

#[test]
fn serializes_success_envelope() {
    let body = api_success(1);
    assert_eq!(body.code, 0);
    assert_eq!(body.message, "success");
    assert_eq!(body.data, 1);
    assert!(body.timestamp > 0);
}

#[test]
fn serializes_error_envelope() {
    let error = AppError(CONFLICT, "冲突".into());
    let body = error_envelope(&error, None::<u8>, Moment { secs: 2, nanos: 3_000_000 });
    assert_eq!(body.code, 409);
    assert_eq!(body.message, "冲突");
    assert_eq!(body.data, None);
    assert_eq!(body.timestamp, 2003);
}

#[test]
fn payloads_that_cannot_be_read_are_refused() {
    assert_eq!(api_json::<u8>(Ok(3)).unwrap(), 3);
    assert_eq!(api_json::<u8>(Err(UNPROCESSABLE_ENTITY)).err().unwrap().0, BAD_REQUEST);
    assert_eq!(api_json::<u8>(Err(PAYLOAD_TOO_LARGE)).err().unwrap().0, PAYLOAD_TOO_LARGE);
    assert_eq!(api_query::<u8>(None).err().unwrap().0, BAD_REQUEST);
    assert_eq!(refuse::<u8>(404, "x").err().unwrap(), AppError(404, "x".into()));
}

#[test]
fn returns_openai_error_for_invalid_generation_json() {
    let kind = |status: u16| OpenAiError::from(AppError(status, "x".into())).error_type();
    assert_eq!(kind(400), "invalid_request_error");
    assert_eq!(kind(401), "authentication_error");
    assert_eq!(kind(403), "permission_error");
    assert_eq!(kind(429), "rate_limit_error");
    assert_eq!(kind(502), "api_error");
}

#[test]
fn serves_concurrent_readers_alongside_a_writer() {
    let max = reader_count(Some(4));
    let mut pool = ReaderPool::new(max);
    for _ in 0..max {
        assert_eq!(pool.acquire(), ReaderStep::Open);
    }
    assert_eq!(pool.acquire(), ReaderStep::Wait);
    for _ in 0..max {
        pool.release();
    }
    assert_eq!(pool.idle, max);
    assert_eq!(pool.acquire(), ReaderStep::Reuse);
    assert_eq!(pool.idle, max - 1);
    pool.release();
    assert_eq!(pool.idle, max);
}

#[test]
fn readers_are_bounded() {
    assert_eq!(reader_count(None), 2);
    assert_eq!(reader_count(Some(1)), 2);
    assert_eq!(reader_count(Some(100)), 8);
    let mut pool = ReaderPool::new(2);
    assert_eq!(pool.acquire(), ReaderStep::Open);
    pool.open_failed();
    assert_eq!(pool.open, 0);
}

#[test]
fn migrates_and_backs_up_legacy_database() {
    assert!(needs_backup(true, 0));
    assert!(!needs_backup(false, 0));
    assert!(!needs_backup(true, SCHEMA_VERSION));
    let master_key = [7_u8; 32];
    let plain = PlainProvider {
        id: "legacy-provider".into(),
        api_key: "legacy-provider-key".into(),
        encryption_version: 0,
    };
    let sealed = migrate_provider_secrets(&[plain], &master_key).unwrap();
    assert!(sealed[0].api_key.is_empty());
    assert_eq!(
        decrypt_secret(&master_key, &sealed[0].api_key_cipher).unwrap(),
        "legacy-provider-key"
    );
    assert_eq!(
        (sealed[0].key_prefix.as_str(), sealed[0].key_suffix.as_str()),
        ("legacy-pr", "-key")
    );
    assert_eq!(sealed[0].encryption_version, 1);
    let again = PlainProvider {
        id: "legacy-provider".into(),
        api_key: sealed[0].api_key.clone(),
        encryption_version: 1,
    };
    assert!(migrate_provider_secrets(&[again], &master_key).unwrap().is_empty());
    let opened = opening_entries(&[OpeningBalance {
        user_id: "legacy-user".into(),
        credits: 12,
        created_at: "2026-01-01T00:00:00Z".into(),
        has_entries: false,
    }]);
    assert_eq!((opened[0].delta, opened[0].balance_after), (12, 12));
}

#[test]
fn does_not_duplicate_registration_credits_on_restart() {
    let user = OpeningBalance {
        user_id: "registered-user".into(),
        credits: 3000,
        created_at: "2026-01-01T00:00:00Z".into(),
        has_entries: true,
    };
    assert!(opening_entries(&[user]).is_empty());
}

#[test]
fn reclassifies_existing_images_after_rule_upgrade() {
    let image = Classified {
        id: "category-image".into(),
        prompt: "一只在咖啡杯旁打盹的橘猫".into(),
        category_version: 0,
    };
    let updates = reclassify_images(&[image]);
    assert_eq!(updates.len(), 1);
    assert_eq!(updates[0].category, "动物宠物");
    let current = Classified {
        id: "category-image".into(),
        prompt: "一只在咖啡杯旁打盹的橘猫".into(),
        category_version: updates[0].category_version,
    };
    assert!(reclassify_images(&[current]).is_empty());
}

#[test]
fn missing_columns_are_added_once() {
    let all: Vec<(String, String)> =
        COLUMNS.iter().map(|column| (column.0.to_string(), column.1.to_string())).collect();
    assert!(missing_columns(&all).is_empty());
    let added = missing_columns(&all[1..]);
    assert_eq!(added.len(), 1);
    assert_eq!(added[0], add_column(COLUMNS[0].0, COLUMNS[0].1, COLUMNS[0].2));
    assert_eq!(
        added[0],
        "ALTER TABLE users ADD COLUMN credits_reserved INTEGER NOT NULL DEFAULT 0"
    );
}

#[test]
fn moments_are_written_as_dates_and_times() {
    let moment = Moment { secs: 1_785_902_400, nanos: 123_456_789 };
    assert_eq!(timestamp(moment).unwrap(), "2026-08-05T04:00:00.123456789+00:00");
    assert_eq!(backup_name(moment).unwrap(), "lumora-20260805040000.db");
    assert_eq!(stats_date(moment).unwrap(), "2026-08-05");
    assert_eq!(
        utc_day_bounds(moment).unwrap(),
        ("2026-08-05T00:00:00+00:00".to_string(), "2026-08-06T00:00:00+00:00".to_string())
    );
    assert!(timestamp(Moment { secs: i64::MAX, nanos: 0 }).is_none());
    assert!(now().secs > 1_700_000_000);
    assert_eq!(Moment { secs: -1, nanos: 0 }.midnight(), Moment { secs: -86_400, nanos: 0 });
    assert_eq!(Moment { secs: -1, nanos: 500_000_000 }.millis(), -500);
}

#[test]
fn calendars_end_where_they_end() {
    let last = Moment { secs: 8_210_266_876_799, nanos: 0 };
    assert!(timestamp(last).is_some());
    assert!(timestamp(Moment { secs: last.secs + 1, nanos: 0 }).is_none());
    let first = Moment { secs: -8_334_601_228_800, nanos: 0 };
    assert!(timestamp(first).is_some());
    assert!(timestamp(Moment { secs: first.secs - 1, nanos: 0 }).is_none());
}

#[test]
fn base_urls_are_checked() {
    assert_eq!(normalize_base_url(" https://example.test/v1/ ").unwrap(), "https://example.test/v1");
    assert_eq!(normalize_base_url("ftp://example.test").err().unwrap().0, BAD_REQUEST);
    assert!(normalize_base_url("not a url").is_err());
    assert!(normalize_base_url("https://user:pw@example.test").is_err());
    assert!(normalize_base_url("https://example.test/?q=1").is_err());
    assert!(normalize_base_url("https://example.test/#top").is_err());
    assert!(check_url(&None).is_err());
}

#[test]
fn providers_keep_their_keys_sealed() {
    let key = [4_u8; 32];
    let request = CreateProviderRequest {
        name: "Mine".into(),
        base_url: "https://example.test".into(),
        api_key: "sk-mine-secret-key".into(),
    };
    let made = create_provider(&request, &key, false).unwrap();
    assert!(!made.provider.is_active);
    assert!(!made.api_key_cipher.contains("secret"));
    let stored = |cipher: Option<String>, version: i64| {
        Some(StoredProvider {
            id: "provider-1".into(),
            base_url: "https://example.test".into(),
            api_key: "plain-key".into(),
            api_key_cipher: cipher,
            encryption_version: version,
            model: "m".into(),
        })
    };
    let sealed = active_provider(stored(Some(made.api_key_cipher), 1), &key).unwrap();
    assert_eq!(sealed.api_key, "sk-mine-secret-key");
    assert_eq!(active_provider(stored(None, 0), &key).unwrap().api_key, "plain-key");
    assert_eq!(active_provider(None, &key).err().unwrap().0, SERVICE_UNAVAILABLE);
    assert!(active_provider(stored(None, 1), &key).is_err());
    let nameless = CreateProviderRequest {
        name: " ".into(),
        base_url: "https://example.test".into(),
        api_key: "k".into(),
    };
    assert_eq!(create_provider(&nameless, &key, false).err().unwrap().0, BAD_REQUEST);
    let last = vec![ProviderSlot { id: "a".into(), created_at: "1".into(), is_active: true }];
    assert!(delete_provider(last, "a").unwrap().is_empty());
}

#[test]
fn profiles_change_in_part() {
    let user = || UserResponse {
        id: "user-1".into(),
        name: "Test".into(),
        email: "test@example.test".into(),
        avatar: String::new(),
        plan: "Free".into(),
        credits: 10,
        credits_reserved: 0,
    };
    let request = UpdateProfileRequest {
        email: None,
        name: Some(" New ".into()),
        password: None,
        avatar: None,
    };
    let change = update_profile(&user(), &request, None, false).unwrap();
    assert_eq!(change.user.name, "New");
    assert_eq!(change.user.email, "test@example.test");
    assert!(change.password_hash.is_none());
    let other = UpdateProfileRequest {
        email: Some("other@example.test".into()),
        name: None,
        password: None,
        avatar: None,
    };
    let taken = update_profile(&user(), &other, Some("other@example.test".into()), true);
    assert_eq!(taken.err().unwrap().0, CONFLICT);
    assert_eq!(api_not_found().0, NOT_FOUND);
}

#[test]
fn configurations_have_defaults() {
    let environment = Environment {
        env: None,
        data_dir: None,
        bind: None,
        static_dir: None,
        worker_concurrency: Some("99".into()),
        support_email: Some(" ".into()),
        support_wechat: Some("id".into()),
    };
    let config = Config::load(&environment, "/srv", [1_u8; 32]);
    assert!(!config.production);
    assert_eq!(config.worker_concurrency, 2);
    assert_eq!(config.support_email, None);
    assert_eq!(config.support_wechat.as_deref(), Some("id"));
    assert_eq!(config.data_directory, "/srv/data");
    assert!(is_production(&Some("production".into())));
    assert_eq!(worker_concurrency(Some("16")), 16);
    assert_eq!(worker_concurrency(Some("0")), 2);
    assert_eq!(worker_concurrency(None), 2);
    assert_eq!(non_empty(Some(" a ")).as_deref(), Some("a"));
    assert_eq!(join_path("/srv", "data"), "/srv/data");
    assert_eq!(join_path("/srv", "/data"), "/data");
}

#[test]
fn master_keys_are_thirty_two_bytes() {
    let fresh = fresh_master_key();
    assert!(decode_master_key(&fresh).is_ok());
    assert_ne!(fresh, fresh_master_key());
    assert_eq!(decode_master_key("AAAA"), Err(ConfigError::KeyLength));
    let not_base64 = |text: &str| decode_master_key(text).unwrap_err();
    assert_eq!(not_base64("@AAA"), ConfigError::KeyNotBase64(Base64Error::InvalidByte(0, 64)));
    for text in ["@AAA", "AAAA=AAA", "A", "AAAAA", "AB==", "AAB=", "AA", "AA=", "AAA", "秘密"] {
        let error = base64::engine::general_purpose::STANDARD.decode(text).unwrap_err();
        assert_eq!(not_base64(text).message(), error.to_string());
    }
    assert_eq!(key_source(None, true, true), Err(ConfigError::KeyMissing));
    assert_eq!(key_source(None, false, true), Ok(KeySource::Stored));
    assert_eq!(key_source(None, false, false), Ok(KeySource::Fresh));
    assert_eq!(key_source(Some("k"), true, false), Ok(KeySource::Given("k".into())));
    assert!(ConfigError::KeyMissing.message().contains("LUMORA_MASTER_KEY"));
}

#[test]
fn pages_follow_each_other() {
    let page = page_of(Some(3), Some(10), 24);
    assert_eq!((page.page, page.page_size, page.offset), (3, 10, 20));
    assert_eq!(page_of(Some(4), Some(10), 24).offset, page.offset + 10);
    let first = page_of(Some(0), Some(0), 24);
    assert_eq!((first.page, first.page_size, first.offset), (1, 1, 0));
    let far = page_of(Some(u32::MAX), Some(100), 24);
    assert_eq!(far.offset, 429_496_729_400);
}

#[test]
fn texts_are_taken_apart() {
    assert_eq!(trim("\u{3000} a b \t"), "a b");
    assert_eq!(split("a,,b", ','), vec!["a".to_string(), String::new(), "b".to_string()]);
    assert_eq!(split_once("a=b=c", '='), Some(("a".to_string(), "b=c".to_string())));
    assert_eq!(take("海报设计", 2), "海报");
    assert_eq!(decimal(u128::MAX), u128::MAX.to_string());
    assert_eq!(signed_decimal(i64::MIN), i64::MIN.to_string());
    assert_eq!(signed_decimal(0), "0");
    assert_eq!(parse_within("+16", 16), Some(16));
    assert_eq!(parse_within("17", 16), None);
    assert_eq!(parse_within("-1", 16), None);
    assert_eq!(parse_within("99999999999999999999999", 16), None);
    assert_eq!(
        ordered_trimmed(&[" b".to_string(), "a".to_string(), "b".to_string()]),
        vec!["a".to_string(), "b".to_string()]
    );
}

#[test]
fn tokens_are_random() {
    let token = fresh_token();
    assert_eq!(token.len(), 32);
    assert!(token.bytes().all(|byte| byte.is_ascii_hexdigit()));
    assert_ne!(token, fresh_token());
    assert_eq!(identifier("task-", "x"), "task-x");
}

#[test]
fn tables_hold_one_value_for_a_key() {
    let mut table: Table<u64> = Table::new();
    table.insert("a", 1);
    table.insert("a", 2);
    table.insert("b", 5);
    assert_eq!(table.len(), 2);
    assert_eq!(table.get("a"), Some(&2));
    table.retain_from(3);
    assert_eq!(table.get("a"), None);
    assert_eq!(table.remove("b"), Some(5));
    assert_eq!(table.remove("b"), None);
}
