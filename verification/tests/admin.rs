use lumora::account::{provider_item, ProviderRecord, ProviderSlot};
use lumora::admin::{
    activate_provider, adjust_credits, adjustment_reference, admin_user, available_credits,
    bulk_plan, bulk_reference, bulk_set_credits, create_announcement, create_provider,
    delete_announcement, delete_provider, get_user, image_file, ip_location, legacy_api_keys,
    list_credit_ledger, list_usage_logs, list_users, looked_up_ip, lookup_url, overview,
    provider_source, revoke_legacy_api_keys, update_announcement, update_settings, update_user,
    usage_image_url, Adjustment, AnnouncementRequest, AuditDetail, Balance, BulkCreditSetRequest,
    BulkRow, CreditAdjustmentRequest, EarlierEntry, IpWhoResponse, KeyStatus, LedgerQuery, Lookup,
    UpdateSettingsRequest, UpdateUserRequest, UsageLogQuery, UserQuery, UserRecord, UserSettings,
};
use lumora::clock::Moment;
use lumora::model::{
    CreateProviderRequest, UserResponse, BAD_GATEWAY, BAD_REQUEST, CONFLICT, FORBIDDEN,
    GATEWAY_TIMEOUT, NOT_FOUND,
};
use lumora::security::decrypt_secret;

fn keys() -> Vec<KeyStatus> {
    let key = |id: &str, is_legacy: bool, status: &str| KeyStatus {
        id: id.into(),
        is_legacy,
        status: status.into(),
    };
    vec![
        key("key-legacy-active", true, "active"),
        key("key-legacy-revoked", true, "revoked"),
        key("key-hashed-active", false, "active"),
    ]
}

#[test]
fn revokes_only_active_legacy_api_keys() {
    let (after, revoked, audit) = revoke_legacy_api_keys("admin-1", keys());
    assert_eq!(revoked, 1);
    let statuses = |id: &str| after.iter().find(|key| key.id == id).unwrap().status.clone();
    assert_eq!(statuses("key-legacy-active"), "revoked");
    assert_eq!(statuses("key-legacy-revoked"), "revoked");
    assert_eq!(statuses("key-hashed-active"), "active");
    assert_eq!(audit.action, "revoke_legacy_api_keys");
    assert_eq!(audit.detail, AuditDetail::LegacyKeysRevoked { revoked: 1 });
    assert!(audit.id.starts_with("audit-"));

    let (_, again, _) = revoke_legacy_api_keys("admin-1", after);
    assert_eq!(again, 0);
}

#[test]
fn reports_legacy_key_exposure_in_settings() {
    assert_eq!(legacy_api_keys(&keys()), 1);
}

fn bulk_request() -> BulkCreditSetRequest {
    BulkCreditSetRequest {
        user_ids: vec!["user-3".into(), " user-2 ".into(), "user-3".into()],
        credits: 80,
        reason: "统一发放".into(),
        request_id: "bulk-request-1".into(),
    }
}

#[test]
fn bulk_sets_user_credits_idempotently() {
    let plan = bulk_plan(&bulk_request()).unwrap();
    assert_eq!(plan.user_ids, vec!["user-2".to_string(), "user-3".to_string()]);
    let row = |id: &str, credits: i64, reserved: i64| BulkRow {
        user_id: id.into(),
        earlier: None,
        balance: Some(Balance { credits, reserved }),
    };
    let rows = vec![row("user-2", 10, 2), row("user-3", 20, 0)];
    let change = bulk_set_credits("admin-1", &plan, &rows).unwrap();
    assert_eq!(change.entries.len(), 2);
    assert_eq!(change.entries[0].balance_after, 80);
    assert_eq!(change.entries[0].delta, 70);
    assert_eq!(change.entries[1].balance_after, 80);
    assert_eq!(change.entries[1].reference_id, "admin-bulk:bulk-request-1:user-3");
    assert_eq!(bulk_reference("bulk-request-1", "user-3"), change.entries[1].reference_id);
    assert!(change.audit.is_some());

    let done = |id: &str| BulkRow {
        user_id: id.into(),
        earlier: Some((id.into(), 80)),
        balance: Some(Balance { credits: 80, reserved: 0 }),
    };
    let repeated = bulk_set_credits("admin-1", &plan, &[done("user-2"), done("user-3")]).unwrap();
    assert_eq!(repeated.entries.len(), 0);
    assert!(repeated.audit.is_none());
}

#[test]
fn bulk_changes_are_refused_as_a_whole() {
    let plan = bulk_plan(&bulk_request()).unwrap();
    let fine = || BulkRow {
        user_id: "user-2".into(),
        earlier: None,
        balance: Some(Balance { credits: 10, reserved: 2 }),
    };
    let reserved = BulkRow {
        user_id: "user-3".into(),
        earlier: None,
        balance: Some(Balance { credits: 100, reserved: 81 }),
    };
    let error = bulk_set_credits("admin-1", &plan, &[fine(), reserved]).err().unwrap();
    assert_eq!((error.0, error.1.as_str()), (CONFLICT, "统一积分不能低于用户已预扣积分"));
    let missing = BulkRow { user_id: "user-3".into(), earlier: None, balance: None };
    assert_eq!(bulk_set_credits("admin-1", &plan, &[fine(), missing]).err().unwrap().0, NOT_FOUND);
    let other = BulkRow {
        user_id: "user-3".into(),
        earlier: Some(("user-3".into(), 70)),
        balance: None,
    };
    assert_eq!(bulk_set_credits("admin-1", &plan, &[fine(), other]).err().unwrap().0, CONFLICT);
}

#[test]
fn balances_that_stay_as_they_are_may_be_extreme() {
    let plan = bulk_plan(&bulk_request()).unwrap();
    let passed_over = || BulkRow {
        user_id: "user-2".into(),
        earlier: Some(("user-2".into(), 80)),
        balance: Some(Balance { credits: i64::MIN, reserved: 0 }),
    };
    let change = bulk_set_credits("admin-1", &plan, &[passed_over()]).unwrap();
    assert!(change.entries.is_empty());
    let reserved = BulkRow {
        user_id: "user-3".into(),
        earlier: None,
        balance: Some(Balance { credits: i64::MIN, reserved: 81 }),
    };
    let error = bulk_set_credits("admin-1", &plan, &[passed_over(), reserved]).err().unwrap();
    assert_eq!(error.0, CONFLICT);
}

#[test]
fn bulk_requests_have_bounds() {
    assert_eq!(
        bulk_plan(&BulkCreditSetRequest { user_ids: vec![], ..bulk_request() }).err().unwrap().0,
        BAD_REQUEST
    );
    let many: Vec<String> = (0..101).map(|index| format!("user-{index}")).collect();
    assert!(bulk_plan(&BulkCreditSetRequest { user_ids: many, ..bulk_request() }).is_err());
    assert!(bulk_plan(&BulkCreditSetRequest { user_ids: vec![" ".into()], ..bulk_request() })
        .is_err());
    assert!(bulk_plan(&BulkCreditSetRequest { credits: -1, ..bulk_request() }).is_err());
    assert!(bulk_plan(&BulkCreditSetRequest { credits: 1_000_000_001, ..bulk_request() }).is_err());
    assert!(bulk_plan(&BulkCreditSetRequest { reason: "x".into(), ..bulk_request() }).is_err());
    assert!(bulk_plan(&BulkCreditSetRequest { request_id: "short".into(), ..bulk_request() })
        .is_err());
}

fn adjustment(delta: i64) -> CreditAdjustmentRequest {
    CreditAdjustmentRequest {
        delta,
        reason: " 补偿 ".into(),
        request_id: " request-1 ".into(),
    }
}

#[test]
fn adjustments_are_carried_out_once() {
    let held = Some(Balance { credits: 10, reserved: 4 });
    let first = adjust_credits("admin-1", "user-2", &adjustment(-6), None, held).unwrap();
    assert_eq!(first.credits(), 4);
    match &first {
        Adjustment::Changed { entry, audit, .. } => {
            assert_eq!(entry.delta, -6);
            assert_eq!(entry.balance_after, 4);
            assert_eq!(entry.reason, "补偿");
            assert_eq!(entry.reference_id, "admin:request-1");
            assert_eq!(entry.reference_id, adjustment_reference(" request-1 "));
            assert_eq!(entry.operator_user_id.as_deref(), Some("admin-1"));
            assert_eq!(
                audit.detail,
                AuditDetail::CreditsAdjusted { delta: -6, balance: 4, reason: "补偿".into() }
            );
        }
        Adjustment::Repeated(_) => panic!("the first request was taken for a repeated one"),
    }
    let earlier = || EarlierEntry { user_id: "user-2".into(), delta: -6, balance_after: 4 };
    let second =
        adjust_credits("admin-1", "user-2", &adjustment(-6), Some(earlier()), None).unwrap();
    assert_eq!(second, Adjustment::Repeated(4));
    let error =
        adjust_credits("admin-1", "user-3", &adjustment(-6), Some(earlier()), None).err().unwrap();
    assert_eq!((error.0, error.1.as_str()), (CONFLICT, "请求流水号已被使用"));
    assert!(adjust_credits("admin-1", "user-2", &adjustment(-5), Some(earlier()), None).is_err());
}

#[test]
fn adjustments_have_bounds() {
    let held = Some(Balance { credits: 10, reserved: 4 });
    let status = |delta: i64, balance: Option<Balance>| {
        adjust_credits("admin-1", "user-2", &adjustment(delta), None, balance).err().unwrap().0
    };
    assert_eq!(status(0, held), BAD_REQUEST);
    assert_eq!(status(1_000_000_001, held), BAD_REQUEST);
    assert_eq!(status(i64::MIN, held), BAD_REQUEST);
    assert_eq!(status(-7, held), CONFLICT);
    assert_eq!(status(1, Some(Balance { credits: i64::MAX, reserved: 0 })), CONFLICT);
    assert_eq!(status(-1, Some(Balance { credits: 0, reserved: -5 })), CONFLICT);
    assert_eq!(status(1, None), NOT_FOUND);
}

#[test]
fn returns_user_details_with_masked_providers() {
    let record = UserRecord {
        id: "admin-1".into(),
        name: "Admin".into(),
        email: "admin@example.test".into(),
        avatar: String::new(),
        plan: "Free".into(),
        credits: 10,
        credits_reserved: 3,
        daily_limit: 100,
        status: "active".into(),
        is_admin: true,
        created_at: "2026-01-01T00:00:00Z".into(),
        last_login_at: None,
        last_seen_at: None,
        password_configured: true,
    };
    let user = get_user(Some(record)).unwrap();
    assert_eq!(user.email, "admin@example.test");
    assert!(user.password_configured);
    assert_eq!(available_credits(user.credits, user.credits_reserved), 7);
    assert_eq!(get_user(None).err().unwrap().0, NOT_FOUND);

    let provider = provider_item(ProviderRecord {
        id: "provider-user".into(),
        name: "User Provider".into(),
        base_url: "https://example.test".into(),
        prefix: "sk-admin-".into(),
        suffix: "tail".into(),
        model: "test-model".into(),
        is_active: true,
        created_at: "2026-01-01T00:00:00Z".into(),
        encryption_version: 1,
    });
    assert_eq!(provider.name, "User Provider");
    assert_eq!(provider.masked_api_key, "sk-admin-••••••••••••tail");
    assert!(!provider.needs_rotation);
    assert_eq!(provider_source(true), "system");
    assert_eq!(provider_source(false), "user");
}

#[test]
fn rejects_non_admin_callers() {
    let user = || UserResponse {
        id: "admin-1".into(),
        name: "Admin".into(),
        email: "admin@example.test".into(),
        avatar: String::new(),
        plan: "Free".into(),
        credits: 0,
        credits_reserved: 0,
    };
    match admin_user(user(), Some(false)) {
        Err(error) => assert_eq!(error.0, FORBIDDEN),
        Ok(_) => panic!("非管理员账号仍能吊销遗留 Key"),
    }
    assert_eq!(admin_user(user(), None).err().unwrap().0, FORBIDDEN);
    assert_eq!(admin_user(user(), Some(true)).unwrap().id, "admin-1");
}

#[test]
fn searches_ignore_case_and_check_the_status() {
    let query = |q: Option<&str>, status: Option<&str>| UserQuery {
        page: Some(3),
        page_size: None,
        q: q.map(String::from),
        status: status.map(String::from),
    };
    let found = list_users(&query(Some(" ADMIN "), Some("active"))).unwrap();
    assert_eq!(found.search, "admin");
    assert_eq!(found.pattern, "%admin%");
    assert_eq!(found.status, "active");
    assert_eq!((found.page.page, found.page.page_size, found.page.offset), (3, 20, 40));
    assert_eq!(list_users(&query(None, None)).unwrap().pattern, "%%");
    assert_eq!(list_users(&query(None, Some("error"))).err().unwrap().0, BAD_REQUEST);

    let calls = |status: &str| UsageLogQuery {
        page: Some(1),
        page_size: Some(20),
        q: None,
        status: Some(status.into()),
    };
    assert_eq!(list_usage_logs(&calls("error")).unwrap().status, "error");
    assert_eq!(list_usage_logs(&calls("active")).err().unwrap().1, "调用状态无效");
    let ledger =
        list_credit_ledger(&LedgerQuery { page: None, page_size: Some(500), user_id: None });
    assert_eq!((ledger.user_id.as_str(), ledger.page.page_size), ("", 100));
}

#[test]
fn images_of_calls_are_found_by_administrators() {
    assert_eq!(
        usage_image_url(&Some("image-1".into())).as_deref(),
        Some("/api/admin/images/image-1/file")
    );
    assert_eq!(usage_image_url(&None), None);
    let plan = image_file(Some("one.png".into())).unwrap();
    assert_eq!(plan.source, "one.png");
    assert_eq!(plan.cache_control, "private, max-age=0, must-revalidate");
    assert_eq!(image_file(None).err().unwrap().0, NOT_FOUND);
}

fn settings() -> Option<UserSettings> {
    Some(UserSettings {
        status: "active".into(),
        plan: "Free".into(),
        daily_limit: 100,
        is_admin: true,
    })
}

fn no_change() -> UpdateUserRequest {
    UpdateUserRequest { status: None, plan: None, daily_limit: None, is_admin: None }
}

#[test]
fn administrators_cannot_shut_themselves_out() {
    let disabled = UpdateUserRequest { status: Some("disabled".into()), ..no_change() };
    assert_eq!(update_user("admin-1", "admin-1", settings(), disabled).err().unwrap().0, CONFLICT);
    let demoted = UpdateUserRequest { is_admin: Some(false), ..no_change() };
    assert_eq!(update_user("admin-1", "admin-1", settings(), demoted).err().unwrap().0, CONFLICT);
    let other = UpdateUserRequest { status: Some("disabled".into()), ..no_change() };
    let (changed, audit) = update_user("admin-1", "user-2", settings(), other).unwrap();
    assert_eq!(changed.status, "disabled");
    assert_eq!(changed.plan, "Free");
    assert_eq!((audit.action.as_str(), audit.target_id.as_str()), ("update_user", "user-2"));
}

#[test]
fn user_settings_have_bounds() {
    let status = |request: UpdateUserRequest| {
        update_user("admin-1", "user-2", settings(), request).err().unwrap().0
    };
    assert_eq!(status(UpdateUserRequest { status: Some("gone".into()), ..no_change() }), BAD_REQUEST);
    assert_eq!(status(UpdateUserRequest { plan: Some(" ".into()), ..no_change() }), BAD_REQUEST);
    assert_eq!(status(UpdateUserRequest { plan: Some("x".repeat(41)), ..no_change() }), BAD_REQUEST);
    assert_eq!(status(UpdateUserRequest { daily_limit: Some(0), ..no_change() }), BAD_REQUEST);
    assert_eq!(update_user("admin-1", "user-2", None, no_change()).err().unwrap().0, NOT_FOUND);
}

fn place(country: &str, region: &str, city: &str) -> IpWhoResponse {
    IpWhoResponse {
        success: true,
        message: String::new(),
        country: country.into(),
        region: region.into(),
        city: city.into(),
        isp: None,
    }
}

#[test]
fn places_name_each_part_once() {
    let found = ip_location(Lookup::Answered(place("中国", "上海", "上海"))).unwrap();
    assert_eq!(found.location, "中国 · 上海");
    assert_eq!(found.isp, "");
    let found = ip_location(Lookup::Answered(IpWhoResponse {
        isp: Some("ISP".into()),
        ..place("中国", "", "北京")
    }))
    .unwrap();
    assert_eq!((found.location.as_str(), found.isp.as_str()), ("中国 · 北京", "ISP"));
    assert_eq!(ip_location(Lookup::TimedOut).err().unwrap().0, GATEWAY_TIMEOUT);
    assert_eq!(ip_location(Lookup::Failed).err().unwrap().0, BAD_GATEWAY);
    assert_eq!(
        ip_location(Lookup::Answered(place("", "", ""))).err().unwrap().1,
        "未查询到 IP 地区"
    );
    let failed = |message: &str| IpWhoResponse {
        success: false,
        message: message.into(),
        ..place("中国", "", "")
    };
    assert_eq!(ip_location(Lookup::Answered(failed("reserved"))).err().unwrap().1, "reserved");
    assert_eq!(ip_location(Lookup::Answered(failed(""))).err().unwrap().1, "IP 地区查询失败");
    assert_eq!(lookup_url("203.0.113.1"), "https://ipwho.is/203.0.113.1");
    assert_eq!(looked_up_ip(None).err().unwrap().0, BAD_REQUEST);
    assert_eq!(looked_up_ip(Some("::1".into())).unwrap(), "::1");
}

#[test]
fn system_settings_have_bounds() {
    let request = |registration_credits: i64, default_daily_limit: i64| UpdateSettingsRequest {
        registration_credits,
        default_daily_limit,
    };
    let change = update_settings("admin-1", request(0, 1)).unwrap();
    assert_eq!(change.settings, request(0, 1));
    assert_eq!(change.audit.target_id, "global");
    assert_eq!(update_settings("admin-1", request(-1, 1)).err().unwrap().0, BAD_REQUEST);
    assert!(update_settings("admin-1", request(0, 0)).is_err());
    assert!(update_settings("admin-1", request(1_000_001, 1)).is_err());
    assert!(update_settings("admin-1", request(1_000_000, 1_000_001)).is_err());
}

#[test]
fn providers_of_the_system_are_audited() {
    let request = CreateProviderRequest {
        name: " System ".into(),
        base_url: "https://example.test/v1/".into(),
        api_key: " sk-system-secret-1 ".into(),
    };
    let key = [4_u8; 32];
    let (made, audit) = create_provider("admin-1", &request, &key, true).unwrap();
    assert_eq!(made.provider.name, "System");
    assert!(made.provider.is_active);
    assert_eq!(decrypt_secret(&key, &made.api_key_cipher).unwrap(), "sk-system-secret-1");
    assert_eq!(audit.target_id, made.provider.id);
    assert_eq!(
        audit.detail,
        AuditDetail::ProviderCreated {
            name: "System".into(),
            base_url: made.provider.base_url.clone()
        }
    );
    let slots = || {
        vec![
            ProviderSlot { id: "a".into(), created_at: "2026-01-01".into(), is_active: true },
            ProviderSlot { id: "b".into(), created_at: "2026-01-02".into(), is_active: false },
            ProviderSlot { id: "c".into(), created_at: "2026-01-03".into(), is_active: false },
        ]
    };
    let (after, audit) = activate_provider("admin-1", slots(), "b").unwrap();
    let active: Vec<bool> = after.iter().map(|slot| slot.is_active).collect();
    assert_eq!(active, vec![false, true, false]);
    assert_eq!(audit.action, "activate_provider");
    let (after, _) = delete_provider("admin-1", slots(), "a").unwrap();
    assert_eq!(after.len(), 2);
    assert!(!after[0].is_active);
    assert!(after[1].is_active);
    let mut several = slots();
    several[1].is_active = true;
    let (after, _) = delete_provider("admin-1", several, "a").unwrap();
    assert!(after[0].is_active && after[1].is_active);
    assert_eq!(activate_provider("admin-1", slots(), "x").err().unwrap().0, NOT_FOUND);
    assert_eq!(delete_provider("admin-1", slots(), "x").err().unwrap().0, NOT_FOUND);
}

fn announcement() -> AnnouncementRequest {
    AnnouncementRequest {
        title: " 标题 ".into(),
        content: " 内容 ".into(),
        date: Some("2026-08-05".into()),
        kind: "feature".into(),
        is_new: None,
    }
}

#[test]
fn announcements_are_checked_and_trimmed() {
    let (made, audit) = create_announcement("admin-1", &announcement()).unwrap();
    assert!(made.id.starts_with("ann-"));
    assert_eq!((made.title.as_str(), made.content.as_str()), ("标题", "内容"));
    assert_eq!(made.date, "2026-08-05");
    assert!(made.is_new);
    assert_eq!(audit.detail, AuditDetail::Announced { title: "标题".into() });
    let today = create_announcement("admin-1", &AnnouncementRequest { date: None, ..announcement() })
        .unwrap()
        .0;
    assert_eq!(today.date.len(), 10);
    let refused = |request: AnnouncementRequest| {
        create_announcement("admin-1", &request).err().unwrap().0
    };
    assert_eq!(refused(AnnouncementRequest { title: " ".into(), ..announcement() }), BAD_REQUEST);
    assert_eq!(refused(AnnouncementRequest { title: "x".repeat(121), ..announcement() }), BAD_REQUEST);
    assert_eq!(refused(AnnouncementRequest { content: "".into(), ..announcement() }), BAD_REQUEST);
    assert_eq!(refused(AnnouncementRequest { kind: "news".into(), ..announcement() }), BAD_REQUEST);
    assert_eq!(
        refused(AnnouncementRequest { date: Some("2026".into()), ..announcement() }),
        BAD_REQUEST
    );
    let (changed, _) = update_announcement("admin-1", "ann-1", &announcement(), true).unwrap();
    assert_eq!(changed.id, "ann-1");
    assert_eq!(
        update_announcement("admin-1", "ann-1", &announcement(), false).err().unwrap().0,
        NOT_FOUND
    );
    assert_eq!(delete_announcement("admin-1", "ann-1", 0).err().unwrap().0, NOT_FOUND);
    assert_eq!(delete_announcement("admin-1", "ann-1", 1).unwrap().detail, AuditDetail::Plain);
}

#[test]
fn the_overview_looks_back_from_today() {
    let times = overview(Moment { secs: 1_785_902_400, nanos: 0 }).unwrap();
    assert_eq!(times.days.len(), 14);
    assert_eq!(times.days[13].date, "2026-08-05");
    assert_eq!(times.days[13].start, "2026-08-05T00:00:00+00:00");
    assert_eq!(times.days[13].end, "2026-08-06T00:00:00+00:00");
    assert_eq!(times.days[0].date, "2026-07-23");
    assert_eq!(times.month_start, "2026-07-07");
    assert_eq!(times.online_cutoff, "2026-08-05T03:55:00+00:00");
    assert!(overview(Moment { secs: i64::MAX, nanos: 0 }).is_none());
}
