use axum::http::{HeaderMap, HeaderValue};
use base64::Engine;
use image::{DynamicImage, GenericImageView, ImageFormat, RgbImage};
use lumora::clock::Moment;
use lumora::images::credits::{
    failure_records, record_generation_metrics, reserve_credits, settle_failure, Account,
    CallContext,
};
use lumora::images::files::{
    ensure_thumbnail, etag, if_none_match_matches, needs_resize, reference_file, render_thumbnail,
    serve_image, task_reference_file, thumbnail_file_name, thumbnail_from, thumbnail_published,
    ImageFile, ThumbnailStep,
};
use lumora::images::parse::{
    detect_image_format, edit_body, edit_from_json, field_role, image_extension,
    image_input_from_json, input_from_upload, validate_edit_inputs, validate_generation,
    validate_size, EditBody, EditForm, FieldRole, MAX_IMAGE_BYTES,
};
use lumora::images::storage::{
    abandon_store, abandon_write, generation_result, plan_output, plan_outputs, reference_urls,
    store_outputs, GeneratedOutput, OutputRollback, StoreContext, IMAGE_WRITE_FAILED,
    RECORD_WRITE_FAILED,
};
use lumora::images::upstream::{
    call_inputs, collect_replies, edit_calls, edit_cost, parse_upstream_response,
    provider_endpoint, single_request, upstream_fields, UpstreamReply, REQUEST_CRASHED,
};
use lumora::images::{
    clear_images, cleanup_result, conclude_call, delete_image, gallery_search, image_from_row,
    localize_image, openai_response, perform_edit, perform_generation, publish_local_image,
    restore_moves, trash_name, update_image_visibility, GalleryQuery, ImageRecord, LocalRecord,
    PublishRecord, Removal, RequestMetadata,
};
use lumora::json::Json;
use lumora::model::{
    default_quality, default_size, AppError, EditJsonRequest, EditRequest, GenerateRequest,
    ImageInput, ProviderConfiguration, UpstreamError, UpstreamImage, UpstreamResponse,
    BAD_GATEWAY, BAD_REQUEST, CONFLICT, INTERNAL_SERVER_ERROR, MODEL, NOT_FOUND,
    PAYLOAD_TOO_LARGE, SERVICE_UNAVAILABLE, TOO_MANY_REQUESTS, UNSUPPORTED_MEDIA_TYPE,
};

fn png_bytes() -> Vec<u8> {
    vec![0x89, b'P', b'N', b'G', 0x0d, 0x0a, 0x1a, 0x0a]
}

fn encode(bytes: &[u8]) -> String {
    base64::engine::general_purpose::STANDARD.encode(bytes)
}

fn generation_request(n: u8) -> GenerateRequest {
    GenerateRequest {
        prompt: "A test image".into(),
        size: default_size(),
        quality: default_quality(),
        n,
        is_public: true,
        output_format: "png".into(),
        model: Some(MODEL.into()),
    }
}

fn provider() -> ProviderConfiguration {
    ProviderConfiguration {
        id: "provider-1".into(),
        base_url: "https://example.test/v1/".into(),
        api_key: "test-key".into(),
        model: MODEL.into(),
    }
}

fn account(credits: i64) -> Account {
    Account { credits, reserved: 0, daily_limit: 100 }
}

fn metadata() -> RequestMetadata {
    RequestMetadata {
        request_id: "test-request".into(),
        ip_address: "203.0.113.10".into(),
        device_id: "device-test".into(),
        platform: "Windows".into(),
        app_version: "1.0.9".into(),
        user_agent: "Lumora Test".into(),
        desktop: false,
    }
}

fn input(name: &str) -> ImageInput {
    ImageInput { bytes: png_bytes(), file_name: name.into(), mime_type: "image/png".into() }
}

fn output() -> GeneratedOutput {
    GeneratedOutput { encoded: encode(&png_bytes()), bytes: png_bytes(), format: "png".into() }
}

fn edit(n: u8, batch: bool) -> EditRequest {
    EditRequest {
        generation: generation_request(n),
        images: vec![input("one.png"), input("two.png")],
        mask: None,
        batch,
    }
}

#[test]
fn rejects_remote_json_images_and_invalid_parameters() {
    assert!(
        image_input_from_json(&Json::Text("https://example.test/image.png".into()), "image")
            .is_err()
    );
    assert!(validate_size("4096x6144").is_ok());
    assert!(validate_size("8192x4096").is_err());
    assert!(validate_generation(&generation_request(0)).is_err());
    assert!(validate_generation(&generation_request(5)).is_err());
}

#[test]
fn generates_and_batch_edits_with_mock_upstream() {
    let metadata = metadata();
    let provider = provider();
    let mut held = account(10);
    let request = generation_request(2);
    perform_generation(&request, Ok(provider.clone()), &mut held, 0, false).unwrap();
    assert_eq!((held.credits, held.reserved), (10, 2));
    let replies = vec![
        UpstreamReply::Generated(vec![output()], None::<u8>),
        UpstreamReply::Generated(vec![output()], Some(7)),
    ];
    let collected = collect_replies(replies, &[]);
    let context = StoreContext {
        user_id: "user-1",
        provider: &provider,
        request: &request,
        metadata: &metadata,
        reserved: 2,
        endpoint: "/api/images/generate",
        duration_ms: 25,
        task_id: None,
    };
    let brought = conclude_call(&context, &mut held, collected).unwrap();
    assert_eq!(brought.usage, Some(7));
    let plan = plan_outputs(brought.outputs, &brought.references);
    assert_eq!(plan.writes.len(), 2);
    let records = store_outputs(&context, &mut held, &plan.stored, &brought.errors, "now").unwrap();
    assert_eq!((held.credits, held.reserved), (8, 0));
    assert_eq!(records.images.len(), 2);
    assert_eq!(records.ledger.delta, -2);
    assert_eq!(records.ledger.balance_after, 8);
    let result =
        generation_result(&context, plan.stored, "now", held.credits, brought.usage, brought.errors);
    assert_eq!(result.images.len(), 2);
    assert!(result.images.iter().all(|image| image.is_public));
    let answer = openai_response(result, 12);
    assert_eq!(answer.created, 12);
    assert_eq!(answer.data[0].b64_json, encode(&png_bytes()));

    let batch = edit(4, true);
    perform_edit(&batch, Ok(provider.clone()), &mut held, 0, false).unwrap();
    assert_eq!(edit_cost(&batch), 2);
    assert_eq!(held.reserved, 2);
    let calls = edit_calls(&batch);
    let inputs = call_inputs(&calls);
    let replies = vec![
        UpstreamReply::Generated(vec![output()], None::<u8>),
        UpstreamReply::Generated(vec![output()], None),
    ];
    let collected = collect_replies(replies, &inputs);
    let context = StoreContext {
        request: &batch.generation,
        endpoint: "/api/images/edit",
        ..context
    };
    let brought = conclude_call(&context, &mut held, collected).unwrap();
    let plan = plan_outputs(brought.outputs, &brought.references);
    let records = store_outputs(&context, &mut held, &plan.stored, &brought.errors, "now").unwrap();
    let result =
        generation_result(&context, plan.stored, "now", held.credits, brought.usage, brought.errors);
    assert_eq!(result.images.len(), 2);
    assert!(result.images.iter().all(|image| image.reference_images.len() == 1));
    assert_eq!((held.credits, held.reserved), (6, 0));
    let log = records.log;
    assert_eq!(
        (log.ip_address, log.device_id, log.platform, log.app_version, log.user_agent),
        (
            "203.0.113.10".to_string(),
            "device-test".to_string(),
            "Windows".to_string(),
            "1.0.9".to_string(),
            "Lumora Test".to_string()
        )
    );
}

#[test]
fn prevents_concurrent_credit_overdraft() {
    let mut held = account(1);
    let mut successes = 0;
    for _ in 0..8 {
        successes += i32::from(reserve_credits(&mut held, 0, 1).is_ok());
    }
    assert_eq!(successes, 1);
    assert_eq!(held.reserved, 1);
}

#[test]
fn rolls_back_credits_and_files_when_image_transaction_fails() {
    let metadata = RequestMetadata::default();
    let provider = provider();
    let request = generation_request(1);
    let mut held = account(3);
    perform_generation(&request, Ok(provider.clone()), &mut held, 0, false).unwrap();
    let context = StoreContext {
        user_id: "user-1",
        provider: &provider,
        request: &request,
        metadata: &metadata,
        reserved: 1,
        endpoint: "/api/images/generate",
        duration_ms: 5,
        task_id: None,
    };
    let mut rollback = OutputRollback::default();
    let plan = plan_outputs(vec![output()], &[]);
    for write in &plan.writes {
        rollback.track(&write.name);
    }
    let mut settled = held;
    store_outputs(&context, &mut settled, &plan.stored, &[], "now").unwrap();
    let rejected = AppError(INTERNAL_SERVER_ERROR, "test rollback".into());
    let (records, error) = abandon_store(&context, &mut held, RECORD_WRITE_FAILED, rejected);
    assert_eq!((held.credits, held.reserved), (3, 0));
    assert_eq!((error.0, error.1.as_str()), (INTERNAL_SERVER_ERROR, "test rollback"));
    assert_eq!((records.log.status.as_str(), records.log.error.as_str()), ("error", RECORD_WRITE_FAILED));
    assert!(records.task.is_none());
    let written: Vec<String> = plan.writes.iter().map(|write| write.name.clone()).collect();
    assert_eq!(rollback.removals(), written);
}

#[test]
fn rolls_back_credits_when_a_file_cannot_be_written() {
    let metadata = RequestMetadata::default();
    let provider = provider();
    let request = generation_request(1);
    let mut held = account(3);
    perform_generation(&request, Ok(provider.clone()), &mut held, 0, false).unwrap();
    let context = StoreContext {
        user_id: "user-1",
        provider: &provider,
        request: &request,
        metadata: &metadata,
        reserved: 1,
        endpoint: "/api/images/generate",
        duration_ms: 5,
        task_id: Some("task-1"),
    };
    let (records, error) = abandon_write(&context, &mut held, IMAGE_WRITE_FAILED);
    assert_eq!((held.credits, held.reserved), (3, 0));
    assert_eq!((error.0, error.1.as_str()), (INTERNAL_SERVER_ERROR, IMAGE_WRITE_FAILED));
    assert_eq!(records.log.status, "error");
    assert_eq!(records.task.unwrap().status, "error");
}

#[test]
fn rollback_removes_tracked_files() {
    let mut rollback = OutputRollback::default();
    rollback.track("output.png");
    assert_eq!(rollback.removals(), vec!["output.png".to_string()]);
}

#[test]
fn committed_rollback_keeps_files() {
    let mut rollback = OutputRollback::new();
    rollback.track("output.png");
    rollback.commit();
    assert!(rollback.removals().is_empty());
}

#[test]
fn preserves_non_json_upstream_errors() {
    let error = parse_upstream_response::<u8>(
        400,
        "400 Bad Request",
        "unsupported parameter",
        None,
        1,
    )
    .err()
    .unwrap();
    assert_eq!(error.0, BAD_GATEWAY);
    assert!(error.1.contains("unsupported parameter"));
}

fn answered(images: Vec<Option<String>>) -> Option<UpstreamResponse<u8>> {
    let data = images.into_iter().map(|b64_json| UpstreamImage { b64_json }).collect();
    Some(UpstreamResponse { data: Some(data), error: None, usage: Some(3) })
}

#[test]
fn upstream_answers_are_checked() {
    let fine = answered(vec![Some(encode(&png_bytes()))]);
    let (outputs, usage) = parse_upstream_response(200, "200 OK", "{}", fine, 1).unwrap();
    assert_eq!(outputs[0].bytes, png_bytes());
    assert_eq!(outputs[0].format, "png");
    assert_eq!(usage, Some(3));
    let garbled = answered(vec![Some("not base64!".into())]);
    assert!(parse_upstream_response(200, "200 OK", "{}", garbled, 1).is_err());
    let no_image = answered(vec![Some(encode(b"plain text"))]);
    assert!(parse_upstream_response(200, "200 OK", "{}", no_image, 1).is_err());
    assert!(parse_upstream_response(200, "200 OK", "{}", answered(vec![]), 1).is_err());
    let told = UpstreamResponse::<u8> {
        data: None,
        error: Some(UpstreamError { message: Some("quota".into()) }),
        usage: None,
    };
    let error =
        parse_upstream_response(429, "429 Too Many Requests", "{}", Some(told), 1).err().unwrap();
    assert!(error.1.contains("quota"));
}

#[test]
fn failed_replies_are_told_of() {
    let replies = vec![
        UpstreamReply::<u8>::Failed(AppError(BAD_GATEWAY, "first".into())),
        UpstreamReply::Crashed,
    ];
    let collected = collect_replies(replies, &[]);
    assert_eq!(collected.errors, vec!["first".to_string(), REQUEST_CRASHED.to_string()]);
    let metadata = metadata();
    let provider = provider();
    let request = generation_request(2);
    let context = StoreContext {
        user_id: "user-1",
        provider: &provider,
        request: &request,
        metadata: &metadata,
        reserved: 2,
        endpoint: "/api/images/generate",
        duration_ms: 1,
        task_id: None,
    };
    let mut held = Account { credits: 5, reserved: 2, daily_limit: 100 };
    let (records, error) = conclude_call(&context, &mut held, collected).err().unwrap();
    assert_eq!(error.1, "first");
    assert_eq!(records.log.error, "first");
    assert_eq!(held.reserved, 0);
}

#[test]
fn calls_begin_only_with_a_provider_and_credits() {
    let mut held = account(1);
    let none = || AppError(SERVICE_UNAVAILABLE, "none".into());
    assert_eq!(
        perform_generation(&generation_request(1), Err(none()), &mut held, 0, false)
            .err()
            .unwrap()
            .0,
        SERVICE_UNAVAILABLE
    );
    assert!(perform_generation(&generation_request(2), Ok(provider()), &mut held, 0, false).is_err());
    assert_eq!(held.reserved, 0);
    assert!(perform_generation(&generation_request(2), Ok(provider()), &mut held, 0, true).is_ok());
    assert_eq!(held.reserved, 0);
    let mut busy = Account { credits: 10, reserved: 0, daily_limit: 3 };
    assert_eq!(reserve_credits(&mut busy, 3, 1).err().unwrap().0, TOO_MANY_REQUESTS);
    assert!(reserve_credits(&mut busy, 2, 1).is_ok());
    let mut poor = account(0);
    assert!(reserve_credits(&mut poor, 0, 1).is_err());
}

#[test]
fn accounts_are_settled_exactly() {
    let mut held = account(5);
    held.reserve(0, 3).unwrap();
    held.spend(2, 3).unwrap();
    assert_eq!(held, Account { credits: 3, reserved: 0, daily_limit: 100 });
    assert!(held.spend(4, 3).is_err());
    held.reserve(0, 3).unwrap();
    held.release(3);
    assert_eq!(held, Account { credits: 3, reserved: 0, daily_limit: 100 });
}

#[test]
fn failures_are_logged_with_prompt_and_message() {
    let metadata = metadata();
    let call = CallContext {
        user_id: "user-1",
        provider_id: None,
        metadata: &metadata,
        endpoint: "/api/images/generate",
        duration_ms: 25,
        task_id: None,
        prompt: "测试提示词",
    };
    let mut held = Account { credits: 5, reserved: 2, daily_limit: 100 };
    let records = settle_failure(&mut held, &call, 2, "上游请求失败");
    assert_eq!(held.reserved, 0);
    assert_eq!(records.log.prompt, "测试提示词");
    assert_eq!(records.log.error, "上游请求失败");
    assert!(records.task.is_none());
    let fixed = failure_records(&call, "x", "token", Moment { secs: 0, nanos: 0 });
    assert_eq!(fixed.log.id, "log-token");
    assert_eq!(fixed.log.created_at, "1970-01-01T00:00:00+00:00");
}

#[test]
fn metrics_count_credits_only_where_some_were_used() {
    let failed = record_generation_metrics("/api/images/generate", "error", -3, 0);
    assert_eq!((failed.duration_ms, failed.credits), (0, None));
    let fine = record_generation_metrics("/api/images/generate", "success", 25, 2);
    assert_eq!((fine.duration_ms, fine.credits), (25, Some(2)));
}

#[test]
fn creates_and_reuses_resized_jpeg_thumbnail() {
    let mut source = std::io::Cursor::new(Vec::new());
    DynamicImage::ImageRgb8(RgbImage::new(1200, 800))
        .write_to(&mut source, ImageFormat::Png)
        .unwrap();
    assert_eq!(ensure_thumbnail(false, true).unwrap(), ThumbnailStep::Render);
    let rendered = render_thumbnail(source.get_ref(), "source.png").unwrap();
    let thumbnail = image::load_from_memory(&rendered).unwrap();
    assert_eq!(thumbnail.dimensions(), (640, 427));
    assert_eq!(image_extension(&rendered), "jpeg");
    assert_eq!(ensure_thumbnail(true, true).unwrap(), ThumbnailStep::Serve);
    assert_eq!(
        thumbnail_file_name("image-1"),
        "thumbnail-0cf457e24a479f02fd4d34540389f720f0807dcff92a7562108165b2637ea82f.jpg"
    );
}

#[test]
fn small_images_keep_their_size() {
    let mut source = std::io::Cursor::new(Vec::new());
    DynamicImage::ImageRgb8(RgbImage::new(12, 8))
        .write_to(&mut source, ImageFormat::Png)
        .unwrap();
    let rendered = render_thumbnail(source.get_ref(), "small.png").unwrap();
    assert_eq!(image::load_from_memory(&rendered).unwrap().dimensions(), (12, 8));
    assert!(render_thumbnail(b"no image", "small.png").is_err());
    assert!(needs_resize(641, 1));
    assert!(needs_resize(1, 641));
    assert!(!needs_resize(640, 640));
    assert!(ensure_thumbnail(false, false).is_err());
    assert!(thumbnail_published(false, true).is_ok());
    assert!(thumbnail_published(false, false).is_err());
}

#[test]
fn streams_images_with_etag_range_and_ownership_checks() {
    let file = || {
        Some(ImageFile {
            file_name: "stream.png".into(),
            user_id: "owner".into(),
            visibility: "private".into(),
        })
    };
    assert_eq!(
        serve_image("stream-image", file(), Some("other"), false, false).err().unwrap().0,
        NOT_FOUND
    );
    let own = serve_image("stream-image", file(), Some("owner"), false, false).unwrap();
    assert_eq!(own.cache_control, "private, max-age=0, must-revalidate");
    assert_eq!(own.source, "stream.png");
    assert!(serve_image("stream-image", file(), None, true, false).is_err());
    let public = ImageFile { visibility: "public".into(), ..file().unwrap() };
    let shown = serve_image("stream-image", Some(public), None, true, false).unwrap();
    assert_eq!(shown.cache_control, "public, max-age=86400");

    let tag = etag("stream.png", 20, 7);
    assert_ne!(tag, etag("stream.png", 20, 8));
    let mut headers = HeaderMap::new();
    assert!(!if_none_match_matches(&headers, &tag));
    headers.insert("if-none-match", HeaderValue::from_str(&format!("\"x\", W/{tag}")).unwrap());
    assert!(if_none_match_matches(&headers, &tag));
    headers.insert("if-none-match", HeaderValue::from_static("\"x\""));
    headers.append("if-none-match", HeaderValue::from_static("*"));
    assert!(if_none_match_matches(&headers, &tag));
}

#[test]
fn tags_are_digests() {
    assert_eq!(
        etag("a", 1, 2),
        "\"f2bc49642ad56138f050f0b76be074c976da5e4a153e1bb0cfd3e586b6450a02\""
    );
}

#[test]
fn references_are_found_by_index() {
    assert_eq!(reference_file(Some("[\"a.png\",\"b.png\"]"), 1).unwrap(), "b.png");
    assert_eq!(reference_file(Some("[\"a.png\"]"), 1).err().unwrap().0, NOT_FOUND);
    assert!(reference_file(Some("not json"), 0).is_err());
    assert!(reference_file(None, 0).is_err());
    let files = vec!["input-0.png".to_string()];
    assert_eq!(
        task_reference_file("task-1", Some(&files), 0).unwrap(),
        ("input-0.png".to_string(), "task-1/input-0.png".to_string())
    );
    assert!(task_reference_file("task-1", Some(&files), 1).is_err());
    assert_eq!(
        reference_urls("image-1", 2),
        vec![
            "/api/images/image-1/references/0".to_string(),
            "/api/images/image-1/references/1".to_string()
        ]
    );
}

#[test]
fn updates_image_visibility_for_its_owner() {
    let record = |storage: &str| Some(("private.png".to_string(), storage.to_string()));
    let shown = update_image_visibility(record("server"), true).unwrap();
    assert_eq!((shown.visibility, shown.remove_file), ("public", None));
    let hidden = update_image_visibility(record("server"), false).unwrap();
    assert_eq!((hidden.visibility, hidden.remove_file), ("private", None));
    let local = update_image_visibility(record("local"), false).unwrap();
    assert_eq!(local.remove_file.as_deref(), Some("private.png"));
    assert_eq!(update_image_visibility(None, true).err().unwrap().0, NOT_FOUND);
    assert!(cleanup_result(Removal::Missing).is_ok());
    assert_eq!(cleanup_result(Removal::Failed).err().unwrap().0, INTERNAL_SERVER_ERROR);
}

#[test]
fn localizes_desktop_images_and_only_keeps_public_server_copy() {
    let record = |storage: &str, visibility: &str| {
        Some(LocalRecord {
            file_name: "pending.png".into(),
            storage: storage.into(),
            device_id: "device-test".into(),
            visibility: visibility.into(),
        })
    };
    let device = || Some("device-test".to_string());
    let public = localize_image(device(), record("pending", "public")).unwrap();
    assert!(public.is_public);
    assert_eq!(public.remove_file, None);
    let private = localize_image(device(), record("server", "private")).unwrap();
    assert_eq!(private.remove_file.as_deref(), Some("pending.png"));
    assert_eq!(private.device_id, "device-test");
    assert_eq!(localize_image(None, record("server", "private")).err().unwrap().0, BAD_REQUEST);
    assert_eq!(localize_image(device(), None).err().unwrap().0, NOT_FOUND);
    assert_eq!(
        localize_image(Some("other".into()), record("pending", "private")).err().unwrap().0,
        CONFLICT
    );
}

#[test]
fn publishes_a_local_desktop_image_to_server_storage() {
    let record = |format: &str, storage: &str| {
        Some(PublishRecord {
            file_name: "local.png".into(),
            format: format.into(),
            storage: storage.into(),
        })
    };
    let (name, bytes) = publish_local_image(Some(input("x.png")), record("png", "local")).unwrap();
    assert_eq!((name.as_str(), bytes), ("local.png", png_bytes()));
    let refused = |image: Option<ImageInput>, found: Option<PublishRecord>| {
        publish_local_image(image, found).err().unwrap().0
    };
    assert_eq!(refused(None, record("png", "local")), BAD_REQUEST);
    assert_eq!(refused(Some(input("x.png")), None), NOT_FOUND);
    assert_eq!(refused(Some(input("x.png")), record("png", "server")), CONFLICT);
    assert_eq!(refused(Some(input("x.png")), record("webp", "local")), BAD_REQUEST);
}

#[test]
fn excludes_private_images_from_public_endpoints() {
    let image = |visibility: &str| {
        Some(ImageFile {
            file_name: "image.png".into(),
            user_id: "owner".into(),
            visibility: visibility.into(),
        })
    };
    assert_eq!(
        serve_image("private-image", image("private"), None, true, false).err().unwrap().0,
        NOT_FOUND
    );
    assert!(serve_image("public-image", image("public"), None, true, false).is_ok());
    assert!(serve_image("public-image", image("public"), None, true, true).is_ok());
}

#[test]
fn galleries_are_searched_by_page() {
    let found = gallery_search(&GalleryQuery {
        q: Some(" 猫 ".into()),
        category: None,
        page: Some(2),
        page_size: None,
    });
    assert_eq!((found.search.as_str(), found.category.as_str()), ("猫", ""));
    assert_eq!((found.page.page_size, found.page.offset), (24, 24));
}

#[test]
fn public_lists_keep_references_to_themselves() {
    let record = || ImageRecord {
        id: "image-1".into(),
        prompt: "p".into(),
        size: "1024x1024".into(),
        model: MODEL.into(),
        created_at: "now".into(),
        format: "png".into(),
        visibility: "public".into(),
        category: "其他".into(),
        storage: "server".into(),
        reference_files: "[\"a.png\",\"b.png\"]".into(),
    };
    let own = image_from_row(record(), false, None);
    assert_eq!(own.reference_images.len(), 2);
    assert_eq!(own.url, "/api/images/image-1/file");
    let shown = image_from_row(record(), true, Some("Author".into()));
    assert!(shown.reference_images.is_empty());
    assert_eq!(shown.url, "/public/images/image-1");
    assert_eq!(shown.author.as_deref(), Some("Author"));
}

#[test]
fn deleted_images_take_their_references_along() {
    let record = ("a.png".to_string(), "[\"r.png\"]".to_string());
    assert_eq!(
        delete_image(Some(record.clone())).unwrap(),
        vec!["r.png".to_string(), "a.png".to_string()]
    );
    assert_eq!(delete_image(None).err().unwrap().0, NOT_FOUND);
    assert_eq!(clear_images(&[record]), vec!["a.png".to_string(), "r.png".to_string()]);
    assert!(trash_name().starts_with(".deleting-"));
    assert_eq!(
        restore_moves(&[("from".to_string(), "to".to_string())]),
        vec![("to".to_string(), "from".to_string())]
    );
}

#[test]
fn formats_are_told_by_their_first_bytes() {
    assert_eq!(detect_image_format(&png_bytes()), Some(("png", "image/png")));
    assert_eq!(detect_image_format(&[0xff, 0xd8, 0xff, 0xe0]), Some(("jpeg", "image/jpeg")));
    assert_eq!(detect_image_format(b"RIFF\0\0\0\0WEBPVP8 "), Some(("webp", "image/webp")));
    assert_eq!(detect_image_format(b"GIF89a"), None);
    assert_eq!(detect_image_format(b""), None);
    assert_eq!(image_extension(b"GIF89a"), "png");
}

#[test]
fn sizes_have_bounds() {
    assert!(validate_size("auto").is_ok());
    assert!(validate_size("1024x1024").is_ok());
    assert_eq!(validate_size("1024").err().unwrap().0, BAD_REQUEST);
    assert!(validate_size("1024xwide").is_err());
    assert!(validate_size("0x1024").is_err());
    assert!(validate_size("99999x16").is_err());
}

#[test]
fn generations_are_checked() {
    assert!(validate_generation(&generation_request(4)).is_ok());
    let blank = GenerateRequest { prompt: " ".into(), ..generation_request(1) };
    assert_eq!(validate_generation(&blank).err().unwrap().0, BAD_REQUEST);
    let strange = GenerateRequest { quality: "best".into(), ..generation_request(1) };
    assert!(validate_generation(&strange).is_err());
    let format = GenerateRequest { output_format: "gif".into(), ..generation_request(1) };
    assert!(validate_generation(&format).is_err());
    let other = GenerateRequest { model: Some("other".into()), ..generation_request(1) };
    assert!(validate_generation(&other).is_err());
}

#[test]
fn edits_are_checked() {
    assert!(validate_edit_inputs(&edit(1, false)).is_ok());
    let none = EditRequest { images: vec![], ..edit(1, false) };
    assert_eq!(validate_edit_inputs(&none).err().unwrap().0, BAD_REQUEST);
    assert_eq!(edit_cost(&edit(3, false)), 3);
    let calls = edit_calls(&edit(3, false));
    assert_eq!(calls.len(), 3);
    assert!(calls.iter().all(|call| call.generation.n == 1 && call.images.len() == 2));
    assert_eq!(single_request(&generation_request(4)).n, 1);
}

#[test]
fn forms_describe_edits() {
    let mut form = EditForm::new();
    form.add_text("prompt", "draw".into());
    form.add_text("n", "2".into());
    form.add_text("batch", "true".into());
    form.add_image(input("a.png"));
    form.set_mask(input("m.png"));
    let request = form.finish();
    assert_eq!((request.generation.prompt.as_str(), request.generation.n), ("draw", 2));
    assert_eq!(request.images[0].file_name, "a.png");
    assert!(request.mask.is_some());
    assert!(request.batch);
    assert_eq!(field_role("image[]"), FieldRole::Image);
    assert_eq!(field_role("mask"), FieldRole::Mask);
    assert_eq!(field_role("prompt"), FieldRole::Text);
    assert_eq!(edit_body("application/json; charset=utf-8").unwrap(), EditBody::Json);
    assert_eq!(edit_body("multipart/form-data; boundary=x").unwrap(), EditBody::Multipart);
    assert_eq!(edit_body("text/plain").err().unwrap().0, UNSUPPORTED_MEDIA_TYPE);
}

#[test]
fn uploads_must_be_images() {
    let kept = input_from_upload(Some("a.png"), Some("image/png"), png_bytes()).unwrap();
    assert_eq!((kept.file_name.as_str(), kept.mime_type.as_str()), ("a.png", "image/png"));
    assert!(input_from_upload(None, Some("image/png"), b"text".to_vec()).is_err());
    let huge = vec![0_u8; MAX_IMAGE_BYTES + 1];
    assert_eq!(
        input_from_upload(None, Some("image/png"), huge).err().unwrap().0,
        PAYLOAD_TOO_LARGE
    );
}

#[test]
fn json_images_are_decoded() {
    let url = format!("data:image/png;base64,{}", encode(&png_bytes()));
    let kept = image_input_from_json(&Json::Text(url.clone()), "image").unwrap();
    assert_eq!(kept.bytes, png_bytes());
    assert_eq!(kept.file_name, "image");
    let message = |text: &str| {
        image_input_from_json(&Json::Text(text.into()), "image").err().unwrap().1
    };
    assert_eq!(message("data:image/png;base64"), "data URL 无效");
    assert_eq!(message("data:image/png,abc"), "data URL 必须使用 base64");
    assert_eq!(message("data:image/png;base64,@@"), "图片 base64 无效");
    let request = EditJsonRequest {
        prompt: "draw".into(),
        images: vec![Json::Text(url), Json::Null],
        mask: None,
        size: default_size(),
        quality: default_quality(),
        n: 1,
        is_public: false,
        output_format: "png".into(),
        model: None,
        batch: false,
    };
    assert!(edit_from_json(request).is_err());
}

#[test]
fn endpoints_are_not_doubled() {
    assert_eq!(
        provider_endpoint("https://example.test", "/images/generations"),
        "https://example.test/v1/images/generations"
    );
    assert_eq!(
        provider_endpoint("https://example.test/v1", "/images/generations"),
        "https://example.test/v1/images/generations"
    );
    let fields = upstream_fields(&provider(), &generation_request(1));
    assert!(fields.iter().any(|field| field.name == "prompt" && field.value == "A test image"));
    assert!(fields.iter().any(|field| field.name == "model" && field.value == MODEL));
}

#[test]
fn outputs_are_stored_with_their_references() {
    let (stored, writes) = plan_output(output(), &[input("r.png")], "image", "file");
    assert_eq!(stored.id, "img-image");
    assert_eq!(stored.reference_files.len(), 1);
    assert_eq!(writes.len(), 2);
    assert_eq!(writes[0].name, stored.file_name);
    assert_eq!(writes[0].bytes, png_bytes());
}

#[test]
fn thumbnails_are_made_of_what_was_read() {
    assert_eq!(thumbnail_from(None).unwrap_err().1, "缩略图生成失败");
    let longer = RgbImage::from_raw(2, 2, vec![7; 20]).unwrap();
    let rendered = thumbnail_from(Some(DynamicImage::ImageRgb8(longer))).unwrap();
    assert_eq!(image::load_from_memory(&rendered).unwrap().dimensions(), (2, 2));
    let empty = DynamicImage::ImageRgb8(RgbImage::new(0, 0));
    assert_eq!(thumbnail_from(Some(empty)).unwrap_err().0, 500);
}
