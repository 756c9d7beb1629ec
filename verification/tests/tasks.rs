use lumora::images::credits::Account;
use lumora::images::tasks::{
    abandon_tasks, confirm_tasks, create_tasks, is_runnable, load_task_input, load_task_inputs,
    plan_task, queued_row, recovered_status, settle_task, task_count, task_data, task_ids,
    task_origin, task_summary, task_work, TaskPayload, TaskRecord, TaskWork,
};
use lumora::images::RequestMetadata;
use lumora::model::{
    default_quality, default_size, EditRequest, GenerateRequest, ImageInput, BAD_REQUEST,
    CONFLICT, INTERNAL_SERVER_ERROR, NOT_FOUND,
};

fn png_bytes() -> Vec<u8> {
    vec![0x89, b'P', b'N', b'G', 0x0d, 0x0a, 0x1a, 0x0a]
}

fn generation(n: u8) -> GenerateRequest {
    GenerateRequest {
        prompt: "A test image".into(),
        size: default_size(),
        quality: default_quality(),
        n,
        is_public: false,
        output_format: "png".into(),
        model: None,
    }
}

fn input(name: &str) -> ImageInput {
    ImageInput { bytes: png_bytes(), file_name: name.into(), mime_type: "image/png".into() }
}

fn payload() -> TaskPayload {
    TaskPayload {
        generation: generation(1),
        input_files: vec!["input-0.png".into()],
        mask_file: None,
        request_metadata: RequestMetadata::default(),
    }
}

#[test]
fn recovers_queued_tasks_and_refunds_invalid_tasks() {
    assert!(is_runnable("queued"));
    assert_eq!(recovered_status("running"), "queued");
    assert_eq!(recovered_status("success"), "success");
    assert!(matches!(task_work("generation", Some(payload())), Ok(TaskWork::Generate(_))));
    let error = task_work("generation", None).err().unwrap();
    assert_eq!((error.0, error.1.as_str()), (INTERNAL_SERVER_ERROR, "任务数据无效"));
    let mut held = Account { credits: 20, reserved: 1, daily_limit: 100 };
    let (metadata, prompt) = task_origin(&None);
    let records = settle_task(
        &mut held,
        Some("running"),
        "user-1",
        &metadata,
        "task-invalid",
        &prompt,
        &error.1,
    )
    .unwrap();
    assert_eq!((held.credits, held.reserved), (20, 0));
    assert_eq!(records.task.unwrap().status, "error");
}

#[test]
fn tasks_that_ended_are_not_settled_again() {
    let metadata = RequestMetadata::default();
    let mut held = Account { credits: 20, reserved: 1, daily_limit: 100 };
    let again = settle_task(&mut held, Some("success"), "user-1", &metadata, "task", "", "x");
    assert!(again.is_none());
    assert_eq!(held.reserved, 1);
    assert!(settle_task(&mut held, None, "user-1", &metadata, "task", "", "x").is_none());
}

#[test]
fn reloads_active_and_requested_image_tasks() {
    let record = || TaskRecord {
        id: "task-active".into(),
        status: "running".into(),
        image_id: None,
        error: None,
        created_at: "then".into(),
        updated_at: "now".into(),
    };
    let summary = task_summary(record(), Some(payload())).unwrap();
    assert_eq!(summary.prompt, "A test image");
    assert_eq!(
        summary.reference_images,
        vec!["/api/image-tasks/task-active/references/0".to_string()]
    );
    assert_eq!(summary.created_at, "then");
    assert_eq!(task_summary(record(), None).err().unwrap().0, INTERNAL_SERVER_ERROR);
    assert_eq!(
        task_ids("task-active,task-done").unwrap(),
        vec!["task-active".to_string(), "task-done".to_string()]
    );
    assert_eq!(task_ids("").err().unwrap().0, BAD_REQUEST);
}

#[test]
fn tasks_are_planned_one_by_one() {
    let metadata = RequestMetadata::default();
    assert_eq!(task_count(&generation(3), &None), 3);
    let plans = create_tasks(&generation(3), &None, &metadata);
    assert_eq!(plans.len(), 3);
    assert!(plans.iter().all(|plan| plan.payload.generation.n == 1 && plan.files.is_empty()));
    assert_ne!(plans[0].id, plans[1].id);
    let edit = Some(EditRequest {
        generation: generation(1),
        images: vec![input("a.png"), input("b.png")],
        mask: None,
        batch: true,
    });
    assert_eq!(task_count(&generation(1), &edit), 2);
    let plan = plan_task(&generation(1), &edit, &metadata, 1, "token");
    assert_eq!(plan.payload.input_files.len(), 1);
    assert_eq!(plan.files.len(), 1);
    assert_eq!(plan.files[0].bytes, png_bytes());
    let row = queued_row("task-1", "user-1", "edit", "{}".into(), "now");
    assert_eq!((row.status.as_str(), row.credits_reserved, row.credits_used), ("queued", 1, 0));
}

#[test]
fn abandoned_tasks_give_their_credits_back() {
    let mut held = Account { credits: 5, reserved: 3, daily_limit: 100 };
    let records = abandon_tasks(&mut held, "user-1", &RequestMetadata::default(), "p", 3);
    assert_eq!(held.reserved, 0);
    assert_eq!(records.log.status, "error");
    assert_eq!(records.log.prompt, "p");
}

#[test]
fn kinds_of_tasks_have_their_endpoints() {
    let made = task_work("generation", Some(payload())).unwrap();
    assert_eq!(made.endpoint(), "/v1/images/generations/async");
    let edited = task_work("edit", Some(payload())).unwrap();
    assert_eq!(edited.endpoint(), "/v1/images/edits/async");
}

#[test]
fn stored_inputs_are_read_again() {
    let read = load_task_input("input-0.png", Some(png_bytes())).unwrap();
    assert_eq!((read.file_name.as_str(), read.mime_type.as_str()), ("input-0.png", "image/png"));
    assert!(load_task_input("input-0.png", None).is_err());
    assert!(load_task_input("input-0.png", Some(b"text".to_vec())).is_err());
    let both = load_task_inputs(vec![
        ("a".to_string(), Some(png_bytes())),
        ("b".to_string(), None),
    ]);
    assert!(both.is_err());
}

#[test]
fn finished_tasks_bring_their_image() {
    let id = Some("image-1".to_string());
    let name = Some("a.png".to_string());
    assert_eq!(task_data(&id, &name, Some(b"abc".to_vec())).unwrap(), vec!["YWJj".to_string()]);
    assert!(task_data(&None, &None, None).unwrap().is_empty());
}

#[test]
fn confirmations_count_what_ended() {
    let record = |status: &str, used: i64| Some((status.to_string(), used));
    let sums = confirm_tasks(&[record("success", 1), record("error", 0), record("success", 1)])
        .unwrap();
    assert_eq!((sums.success_count, sums.fail_count, sums.credits_used), (2, 1, 2));
    assert_eq!(confirm_tasks(&[record("running", 0)]).err().unwrap().0, CONFLICT);
    assert_eq!(confirm_tasks(&[None]).err().unwrap().0, NOT_FOUND);
    assert_eq!(confirm_tasks(&[]).err().unwrap().0, BAD_REQUEST);
}
