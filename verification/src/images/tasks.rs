//! Tasks: work that is queued, run later, and settled when it ends.

use vstd::prelude::*;

use crate::clock::Moment;
use crate::encoding;
use crate::images::credits;
use crate::images::credits::{settle_failure, Account, CallContext, FailureRecords};
use crate::images::parse;
use crate::images::storage;
use crate::images::storage::FileWrite;
use crate::images::upstream;
use crate::images::upstream::single_request;
use crate::images::RequestMetadata;
use crate::model;
use crate::model::{
    refuse, AppError, AppResult, EditRequest, GenerateRequest, ImageInput, BAD_REQUEST, CONFLICT,
    INTERNAL_SERVER_ERROR, NOT_FOUND,
};
use crate::text;
use crate::token;

verus! {

/// What a task needs to run: the request for one image, and the files it starts from.
#[derive(Debug, PartialEq, Eq)]
pub struct TaskPayload {
    pub generation: GenerateRequest,
    pub input_files: Vec<String>,
    pub mask_file: Option<String>,
    pub request_metadata: RequestMetadata,
}

/// A task to create: its identifier, the files of its directory, and what it needs to run.
#[derive(Debug)]
pub struct TaskPlan {
    pub id: String,
    pub files: Vec<FileWrite>,
    pub payload: TaskPayload,
}

/// The row of a new task.
#[derive(Debug, PartialEq, Eq)]
pub struct TaskRow {
    pub id: String,
    pub user_id: String,
    pub kind: String,
    pub status: String,
    pub request_json: String,
    pub credits_reserved: i64,
    pub credits_used: i64,
    pub created_at: String,
    pub updated_at: String,
}

/// What the client is told if a task's file cannot be written.
pub const TASK_FILE_FAILED: &'static str = "任务文件保存失败";

/// What the log says of tasks that could not be created.
pub const TASK_CREATION_FAILED: &'static str = "任务创建失败";

/// How many tasks a request takes: one for each image of a batch edit, else one for each result.
pub open spec fn task_count_of(generation: GenerateRequest, edit: Option<EditRequest>) -> int {
    match edit {
        Some(request) => if request.batch {
            request.images@.len() as int
        } else {
            generation.n as int
        },
        None => generation.n as int,
    }
}

/// How many tasks a request takes.
pub fn task_count(generation: &GenerateRequest, edit: &Option<EditRequest>) -> (r: usize)
    ensures
        r == task_count_of(*generation, *edit),
{
    match edit {
        Some(request) => if request.batch {
            request.images.len()
        } else {
            generation.n as usize
        },
        None => generation.n as usize,
    }
}

/// The images that task number `index` of an edit starts from.
pub open spec fn selected_inputs(edit: EditRequest, index: int) -> Seq<ImageInput> {
    if edit.batch {
        seq![edit.images@[index]]
    } else {
        edit.images@
    }
}

/// The images that task number `index` of a request starts from: none, unless it edits.
pub open spec fn inputs_for(edit: Option<EditRequest>, index: int) -> Seq<ImageInput> {
    match edit {
        Some(request) => selected_inputs(request, index),
        None => Seq::empty(),
    }
}

/// The file name of a task's input.
pub open spec fn input_name(index: int, bytes: Seq<u8>) -> Seq<char> {
    "input-"@ + text::digits(index as nat) + "."@ + parse::extension_of(bytes)
}

/// The file name of a task's mask.
pub open spec fn mask_name(bytes: Seq<u8>) -> Seq<char> {
    "mask."@ + parse::extension_of(bytes)
}

/// The files of a task: its inputs in order, then its mask.
pub open spec fn task_files(inputs: Seq<ImageInput>, mask: Option<ImageInput>) -> Seq<
    (Seq<char>, Seq<u8>, Seq<char>),
> {
    let files = Seq::new(
        inputs.len(),
        |i: int| (input_name(i, inputs[i].bytes@), inputs[i].bytes@, TASK_FILE_FAILED@),
    );
    match mask {
        Some(held) => files.push((mask_name(held.bytes@), held.bytes@, TASK_FILE_FAILED@)),
        None => files,
    }
}

/// Whether a plan is that of task number `index` of a request.
pub open spec fn is_task_plan(
    plan: TaskPlan,
    generation: GenerateRequest,
    edit: Option<EditRequest>,
    metadata: RequestMetadata,
    index: int,
) -> bool {
    let inputs = inputs_for(edit, index);
    let mask = match edit {
        Some(request) => request.mask,
        None => None,
    };
    &&& plan.payload.generation == (GenerateRequest { n: 1, ..generation })
    &&& plan.payload.request_metadata == metadata
    &&& text::views(plan.payload.input_files@) == Seq::new(
        inputs.len(),
        |i: int| input_name(i, inputs[i].bytes@),
    )
    &&& text::opt(plan.payload.mask_file) == match mask {
        Some(held) => Some(mask_name(held.bytes@)),
        None => None,
    }
    &&& storage::write_views(plan.files@) == task_files(inputs, mask)
}

/// The plan of task number `index` of a request, under a given token.
pub fn plan_task(
    generation: &GenerateRequest,
    edit: &Option<EditRequest>,
    metadata: &RequestMetadata,
    index: usize,
    task_token: &str,
) -> (r: TaskPlan)
    requires
        index < task_count_of(*generation, *edit),
    ensures
        r.id@ == "task-"@ + task_token@,
        is_task_plan(r, *generation, *edit, *metadata, index as int),
{
    let mut files: Vec<FileWrite> = Vec::new();
    let mut input_files: Vec<String> = Vec::new();
    let mut mask_file: Option<String> = None;
    let ghost inputs = inputs_for(*edit, index as int);
    match edit {
        Some(request) => {
            let first: usize = if request.batch {
                index
            } else {
                0
            };
            let count: usize = if request.batch {
                1
            } else {
                request.images.len()
            };
            let total: usize = request.images.len();
            let mut i: usize = 0;
            while i < count
                invariant
                    i <= count,
                    total == request.images@.len(),
                    first + count <= total,
                    inputs.len() == count,
                    forall|k: int| 0 <= k < count ==> inputs[k] == request.images@[first + k],
                    files@.len() == i,
                    input_files@.len() == i,
                    forall|k: int|
                        0 <= k < i ==> (#[trigger] input_files@[k])@ == input_name(
                            k,
                            inputs[k].bytes@,
                        ),
                    forall|k: int|
                        0 <= k < i ==> storage::write_view(#[trigger] files@[k]) == (
                            input_name(k, inputs[k].bytes@),
                            inputs[k].bytes@,
                            TASK_FILE_FAILED@,
                        ),
                decreases count - i,
            {
                let input = &request.images[first + i];
                assert(*input == inputs[i as int]);
                let number = text::decimal(i as u128);
                let stem = text::concat("input-", number.as_str());
                let name = text::concat3(stem.as_str(), ".", parse::image_extension(&input.bytes));
                files.push(
                    FileWrite {
                        name: name.clone(),
                        bytes: input.bytes.clone(),
                        failure: TASK_FILE_FAILED,
                    },
                );
                input_files.push(name);
                i += 1;
            }
            match &request.mask {
                Some(mask) => {
                    let name = text::concat("mask.", parse::image_extension(&mask.bytes));
                    files.push(
                        FileWrite {
                            name: name.clone(),
                            bytes: mask.bytes.clone(),
                            failure: TASK_FILE_FAILED,
                        },
                    );
                    mask_file = Some(name);
                },
                None => {},
            }
            assert(storage::write_views(files@) == task_files(inputs, request.mask));
        },
        None => {
            assert(storage::write_views(files@) == task_files(inputs, None));
        },
    }
    assert(text::views(input_files@) == Seq::new(
        inputs.len(),
        |i: int| input_name(i, inputs[i].bytes@),
    ));
    TaskPlan {
        id: token::identifier("task-", task_token),
        files,
        payload: TaskPayload {
            generation: single_request(generation),
            input_files,
            mask_file,
            request_metadata: metadata.clone(),
        },
    }
}

/// The plans of all tasks of a request, under fresh identifiers.
pub fn create_tasks(
    generation: &GenerateRequest,
    edit: &Option<EditRequest>,
    metadata: &RequestMetadata,
) -> (r: Vec<TaskPlan>)
    ensures
        r@.len() == task_count_of(*generation, *edit),
        forall|i: int|
            0 <= i < r@.len() ==> token::is_identifier((#[trigger] r@[i]).id@, "task-"@)
                && is_task_plan(r@[i], *generation, *edit, *metadata, i),
{
    let count: usize = task_count(generation, edit);
    let mut plans: Vec<TaskPlan> = Vec::new();
    let mut i: usize = 0;
    while i < count
        invariant
            count == task_count_of(*generation, *edit),
            i <= count,
            plans@.len() == i,
            forall|k: int|
                0 <= k < i ==> token::is_identifier((#[trigger] plans@[k]).id@, "task-"@)
                    && is_task_plan(plans@[k], *generation, *edit, *metadata, k),
        decreases count - i,
    {
        let task_token = token::unique_token();
        let plan = plan_task(generation, edit, metadata, i, task_token.as_str());
        assert(plan.id@.skip("task-"@.len() as int) == task_token@);
        plans.push(plan);
        i += 1;
    }
    plans
}

/// The row of a new task: queued, with one credit set aside.
pub fn queued_row(id: &str, user_id: &str, kind: &str, request_json: String, now: &str) -> (r:
    TaskRow)
    ensures
        r.id@ == id@,
        r.user_id@ == user_id@,
        r.kind@ == kind@,
        r.status@ == "queued"@,
        r.request_json == request_json,
        r.credits_reserved == 1,
        r.credits_used == 0,
        r.created_at@ == now@,
        r.updated_at@ == now@,
{
    TaskRow {
        id: id.to_owned(),
        user_id: user_id.to_owned(),
        kind: kind.to_owned(),
        status: "queued".to_owned(),
        request_json,
        credits_reserved: 1,
        credits_used: 0,
        created_at: now.to_owned(),
        updated_at: now.to_owned(),
    }
}

/// Ends a request whose tasks could not be created: gives all its credits back and logs it.
pub fn abandon_tasks(
    account: &mut Account,
    user_id: &str,
    metadata: &RequestMetadata,
    prompt: &str,
    count: i64,
) -> (r: FailureRecords)
    requires
        count >= 0,
    ensures
        *final(account) == old(account).with_released(count as int),
        token::is_identifier(r.log.id@, "log-"@),
        exists|call: CallContext<'_>, now: Moment|
            is_task_call(call, user_id@, *metadata, None, prompt@)
                && #[trigger] credits::failed_at(
                r,
                call,
                TASK_CREATION_FAILED@,
                now,
            ),
{
    let call = CallContext {
        user_id,
        provider_id: None,
        metadata,
        endpoint: "/v1/tasks",
        duration_ms: 0,
        task_id: None,
        prompt: text::trim(prompt),
    };
    assert(is_task_call(call, user_id@, *metadata, None, prompt@));
    settle_failure(account, &call, count, TASK_CREATION_FAILED)
}

/// Whether a call is that of the task endpoint, for a user, a task and a prompt.
pub open spec fn is_task_call(
    call: CallContext<'_>,
    user_id: Seq<char>,
    metadata: RequestMetadata,
    task_id: Option<Seq<char>>,
    prompt: Seq<char>,
) -> bool {
    &&& call.user_id@ == user_id
    &&& call.provider_id is None
    &&& *call.metadata == metadata
    &&& call.endpoint@ == "/v1/tasks"@
    &&& call.duration_ms == 0
    &&& text::opt_str(call.task_id) == task_id
    &&& call.prompt@ == text::trimmed(prompt)
}

/// What a task does when it runs.
#[derive(Debug)]
pub enum TaskWork {
    Generate(GenerateRequest),
    Edit(GenerateRequest, Vec<String>, Option<String>),
}

/// The endpoint under which a task's work is logged.
pub open spec fn work_endpoint(work: TaskWork) -> Seq<char> {
    match work {
        TaskWork::Generate(_) => "/v1/images/generations/async"@,
        TaskWork::Edit(_, _, _) => "/v1/images/edits/async"@,
    }
}

impl TaskWork {
    /// The endpoint under which the work is logged.
    pub fn endpoint(&self) -> (r: &'static str)
        ensures
            r@ == work_endpoint(*self),
    {
        match self {
            TaskWork::Generate(_) => "/v1/images/generations/async",
            TaskWork::Edit(_, _, _) => "/v1/images/edits/async",
        }
    }
}

/// Whether a task with this status is still to be run.
pub open spec fn is_open(status: Seq<char>) -> bool {
    status == "queued"@ || status == "running"@
}

/// Whether a task with this status is still to be run.
pub fn is_runnable(status: &str) -> (r: bool)
    ensures
        r == is_open(status@),
{
    text::same(status, "queued") || text::same(status, "running")
}

/// The status that a task has after a restart: what was running is queued again.
pub fn recovered_status(status: &str) -> (r: String)
    ensures
        r@ == if status@ == "running"@ {
            "queued"@
        } else {
            status@
        },
        is_open(status@) ==> r@ == "queued"@,
{
    if text::same(status, "running") {
        "queued".to_owned()
    } else {
        status.to_owned()
    }
}

/// What a task does when it runs, by its kind; its data may be unreadable.
pub fn task_work(kind: &str, payload: Option<TaskPayload>) -> (r: AppResult<TaskWork>)
    ensures
        match payload {
            None => model::refused(r, INTERNAL_SERVER_ERROR, "任务数据无效"@),
            Some(data) => r matches Ok(work) && work == if kind@ == "generation"@ {
                TaskWork::Generate(data.generation)
            } else {
                TaskWork::Edit(data.generation, data.input_files, data.mask_file)
            },
        },
{
    match payload {
        None => refuse(INTERNAL_SERVER_ERROR, "任务数据无效"),
        Some(data) => if text::same(kind, "generation") {
            Ok(TaskWork::Generate(data.generation))
        } else {
            Ok(TaskWork::Edit(data.generation, data.input_files, data.mask_file))
        },
    }
}

/// Where a task's request came from, and its prompt; both empty where its data is unreadable.
pub fn task_origin(payload: &Option<TaskPayload>) -> (r: (RequestMetadata, String))
    ensures
        match payload {
            Some(data) => r.0 == data.request_metadata && r.1 == data.generation.prompt,
            None => {
                &&& r.0.device_id@ == ""@
                &&& r.0.request_id@ == ""@
                &&& r.0.ip_address@ == ""@
                &&& r.0.platform@ == ""@
                &&& r.0.app_version@ == ""@
                &&& r.0.user_agent@ == ""@
                &&& !r.0.desktop
                &&& r.1@ == ""@
            },
        },
{
    match payload {
        Some(data) => (data.request_metadata.clone(), data.generation.prompt.clone()),
        None => (RequestMetadata::default(), "".to_owned()),
    }
}

/// Why a task's stored image is refused, if it is.
pub open spec fn stored_input_refusal(bytes: Option<Vec<u8>>) -> Option<(u16, Seq<char>)> {
    match bytes {
        None => Some((INTERNAL_SERVER_ERROR, "任务图片不存在"@)),
        Some(read) => if parse::format_of(read@) is None {
            Some((INTERNAL_SERVER_ERROR, "任务图片无效"@))
        } else {
            None
        },
    }
}

/// The image that a task's file holds; the bytes are missing where the file could not be read.
pub fn load_task_input(file: &str, bytes: Option<Vec<u8>>) -> (r: AppResult<ImageInput>)
    ensures
        model::answers(r, stored_input_refusal(bytes)),
        r matches Ok(input) ==> input.bytes@ == bytes->0@ && input.file_name@ == file@ && Some(
            input.mime_type@,
        ) == parse::mime_of(bytes->0@),
{
    match bytes {
        None => refuse(INTERNAL_SERVER_ERROR, "任务图片不存在"),
        Some(read) => match parse::detect_image_format(&read) {
            None => refuse(INTERNAL_SERVER_ERROR, "任务图片无效"),
            Some(found) => Ok(
                ImageInput {
                    bytes: read,
                    file_name: file.to_owned(),
                    mime_type: found.1.to_owned(),
                },
            ),
        },
    }
}

/// The refusal of the first of a task's stored images, from an index on, that is refused.
pub open spec fn stored_inputs_refusal(contents: Seq<(String, Option<Vec<u8>>)>, from: int) -> Option<
    (u16, Seq<char>),
>
    decreases contents.len() - from,
{
    if from < 0 || from >= contents.len() {
        None
    } else {
        match stored_input_refusal(contents[from].1) {
            Some(refusal) => Some(refusal),
            None => stored_inputs_refusal(contents, from + 1),
        }
    }
}

/// Whether an image is what a task's file holds.
pub open spec fn is_loaded(input: ImageInput, content: (String, Option<Vec<u8>>)) -> bool {
    match content.1 {
        Some(bytes) => {
            &&& input.bytes@ == bytes@
            &&& input.file_name@ == content.0@
            &&& Some(input.mime_type@) == parse::mime_of(bytes@)
        },
        None => false,
    }
}

/// The images that a task's files hold, in order.
pub fn load_task_inputs(contents: Vec<(String, Option<Vec<u8>>)>) -> (r: AppResult<Vec<ImageInput>>)
    ensures
        model::answers(r, stored_inputs_refusal(contents@, 0)),
        r matches Ok(inputs) ==> {
            &&& inputs@.len() == contents@.len()
            &&& forall|i: int|
                0 <= i < inputs@.len() ==> is_loaded(#[trigger] inputs@[i], contents@[i])
        },
{
    let mut inputs: Vec<ImageInput> = Vec::new();
    let ghost all = contents@;
    for item in iter: contents
        invariant
            iter.seq() == all,
            inputs@.len() == iter.index(),
            stored_inputs_refusal(all, 0) == stored_inputs_refusal(all, inputs@.len() as int),
            forall|i: int|
                0 <= i < inputs@.len() ==> is_loaded(#[trigger] inputs@[i], all[i]),
    {
        let (file, bytes) = item;
        match load_task_input(file.as_str(), bytes) {
            Ok(input) => {
                inputs.push(input);
            },
            Err(error) => {
                return Err(error);
            },
        }
    }
    Ok(inputs)
}

/// Ends a task that failed. Where its own work has not settled it yet, so that it still runs,
/// its one credit goes back and the failure is logged; else there is nothing left to do.
pub fn settle_task(
    account: &mut Account,
    status: Option<&str>,
    user_id: &str,
    metadata: &RequestMetadata,
    id: &str,
    prompt: &str,
    message: &str,
) -> (r: Option<FailureRecords>)
    ensures
        r is Some <==> text::opt_str(status) == Some("running"@),
        match r {
            Some(records) => {
                &&& *final(account) == old(account).with_released(1)
                &&& token::is_identifier(records.log.id@, "log-"@)
                &&& exists|call: CallContext<'_>, now: Moment|
                    is_task_call(call, user_id@, *metadata, Some(id@), prompt@)
                        && #[trigger] credits::failed_at(
                        records,
                        call,
                        message@,
                        now,
                    )
            },
            None => *final(account) == *old(account),
        },
{
    let running = match status {
        Some(word) => text::same(word, "running"),
        None => false,
    };
    if !running {
        return None;
    }
    let call = CallContext {
        user_id,
        provider_id: None,
        metadata,
        endpoint: "/v1/tasks",
        duration_ms: 0,
        task_id: Some(id),
        prompt: text::trim(prompt),
    };
    assert(is_task_call(call, user_id@, *metadata, Some(id@), prompt@));
    Some(settle_failure(account, &call, 1, message))
}

/// The parts of a list of identifiers that are not empty, trimmed.
pub open spec fn identifiers(parts: Seq<Seq<char>>) -> Seq<Seq<char>>
    decreases parts.len(),
{
    if parts.len() == 0 {
        Seq::empty()
    } else {
        let before = identifiers(parts.drop_last());
        let part = text::trimmed(parts.last());
        if part.len() == 0 {
            before
        } else {
            before.push(part)
        }
    }
}

/// The identifiers in a comma-separated list; there must be one to a hundred.
pub fn task_ids(value: &str) -> (r: AppResult<Vec<String>>)
    ensures
        ({
            let ids = identifiers(text::split_on(value@, ','));
            if 1 <= ids.len() <= 100 {
                r matches Ok(list) && text::views(list@) == ids
            } else {
                model::refused(r, BAD_REQUEST, "任务 ID 无效"@)
            }
        }),
{
    let parts = text::split(value, ',');
    let mut ids: Vec<String> = Vec::new();
    let mut i: usize = 0;
    let ghost all = text::views(parts@);
    assert(text::views(ids@) == identifiers(all.take(0)));
    while i < parts.len()
        invariant
            all == text::views(parts@),
            i <= parts@.len(),
            text::views(ids@) == identifiers(all.take(i as int)),
        decreases parts@.len() - i,
    {
        assert(all.take(i + 1).drop_last() == all.take(i as int));
        assert(all.take(i + 1).last() == parts@[i as int]@);
        let part = text::trim(parts[i].as_str());
        if text::characters(part).len() > 0 {
            let ghost before = text::views(ids@);
            ids.push(part.to_owned());
            assert(text::views(ids@) == before.push(part@));
        }
        i += 1;
    }
    assert(all.take(all.len() as int) == all);
    assert(text::views(ids@).len() == ids@.len());
    if ids.len() == 0 || ids.len() > 100 {
        return refuse(BAD_REQUEST, "任务 ID 无效");
    }
    Ok(ids)
}

/// What is stored of a task.
#[derive(Debug)]
pub struct TaskRecord {
    pub id: String,
    pub status: String,
    pub image_id: Option<String>,
    pub error: Option<String>,
    pub created_at: String,
    pub updated_at: String,
}

/// What a client sees of a task.
#[derive(Debug, PartialEq, Eq)]
pub struct TaskSummary {
    pub id: String,
    pub status: String,
    pub prompt: String,
    pub reference_images: Vec<String>,
    pub image_id: Option<String>,
    pub error: Option<String>,
    pub created_at: String,
    pub updated_at: String,
}

/// The address of a task's input.
pub open spec fn task_reference_url(id: Seq<char>, index: int) -> Seq<char> {
    "/api/image-tasks/"@ + id + "/references/"@ + text::digits(index as nat)
}

/// Whether a summary is that of a task.
pub open spec fn summarises(summary: TaskSummary, record: TaskRecord, payload: TaskPayload) -> bool {
    &&& summary.id == record.id
    &&& summary.status == record.status
    &&& summary.prompt == payload.generation.prompt
    &&& text::views(summary.reference_images@) == Seq::new(
        payload.input_files@.len(),
        |i: int| task_reference_url(record.id@, i),
    )
    &&& summary.image_id == record.image_id
    &&& summary.error == record.error
    &&& summary.created_at == record.created_at
    &&& summary.updated_at == record.updated_at
}

/// What a client sees of a task, where its data can be read.
pub fn task_summary(record: TaskRecord, payload: Option<TaskPayload>) -> (r: AppResult<TaskSummary>)
    ensures
        match payload {
            Some(data) => r matches Ok(summary) && summarises(summary, record, data),
            None => model::refused(r, INTERNAL_SERVER_ERROR, "任务数据无效"@),
        },
{
    let data = match payload {
        Some(data) => data,
        None => {
            return refuse(INTERNAL_SERVER_ERROR, "任务数据无效");
        },
    };
    let mut urls: Vec<String> = Vec::new();
    let count: usize = data.input_files.len();
    let mut i: usize = 0;
    while i < count
        invariant
            i <= count,
            urls@.len() == i,
            forall|j: int|
                0 <= j < i ==> (#[trigger] urls@[j])@ == task_reference_url(record.id@, j),
        decreases count - i,
    {
        let number = text::decimal(i as u128);
        let stem = text::concat3("/api/image-tasks/", record.id.as_str(), "/references/");
        urls.push(text::concat(stem.as_str(), number.as_str()));
        i += 1;
    }
    assert(text::views(urls@) == Seq::new(
        count as nat,
        |i: int| task_reference_url(record.id@, i),
    ));
    Ok(
        TaskSummary {
            id: record.id,
            status: record.status,
            prompt: data.generation.prompt,
            reference_images: urls,
            image_id: record.image_id,
            error: record.error,
            created_at: record.created_at,
            updated_at: record.updated_at,
        },
    )
}

/// The images, in base64, that an API client gets of a task: none before it has one. The bytes
/// are missing where the file could not be read.
pub fn task_data(
    image_id: &Option<String>,
    file_name: &Option<String>,
    bytes: Option<Vec<u8>>,
) -> (r: AppResult<Vec<String>>)
    ensures
        if *image_id is Some && *file_name is Some {
            match bytes {
                Some(read) => r matches Ok(data) && text::views(data@) == seq![
                    encoding::base64_text(read@),
                ],
                None => model::refused(r, INTERNAL_SERVER_ERROR, "任务结果不存在"@),
            }
        } else {
            r matches Ok(data) && data@.len() == 0
        },
{
    let mut data: Vec<String> = Vec::new();
    if image_id.is_some() && file_name.is_some() {
        match bytes {
            Some(read) => {
                data.push(encoding::base64_encode(&read));
                assert(text::views(data@) == seq![encoding::base64_text(read@)]);
            },
            None => {
                return refuse(INTERNAL_SERVER_ERROR, "任务结果不存在");
            },
        }
    }
    Ok(data)
}

/// How the tasks that a client confirms have ended.
#[derive(Clone, Copy, Debug, PartialEq, Eq, Structural)]
pub struct Confirmation {
    pub success_count: i64,
    pub fail_count: i64,
    pub credits_used: i64,
}

/// Why the first `count` tasks cannot be confirmed, if they cannot: the first reason counts.
pub open spec fn confirm_refusal(records: Seq<Option<(String, i64)>>, count: int) -> Option<
    (u16, Seq<char>),
>
    decreases count,
{
    if count <= 0 {
        None
    } else {
        match confirm_refusal(records, count - 1) {
            Some(refusal) => Some(refusal),
            None => match records[count - 1] {
                None => Some((NOT_FOUND, "任务不存在"@)),
                Some(record) => if record.0@ == "success"@ || record.0@ == "error"@ {
                    None
                } else {
                    Some((CONFLICT, "任务尚未完成"@))
                },
            },
        }
    }
}

/// How many of the first `count` tasks have a status.
pub open spec fn count_with(records: Seq<Option<(String, i64)>>, status: Seq<char>, count: int) -> int
    decreases count,
{
    if count <= 0 {
        0
    } else {
        count_with(records, status, count - 1) + if records[count - 1] is Some
            && records[count - 1]->0 .0@ == status {
            1int
        } else {
            0int
        }
    }
}

/// How many credits the successes among the first `count` tasks used.
pub open spec fn credits_of(records: Seq<Option<(String, i64)>>, count: int) -> int
    decreases count,
{
    if count <= 0 {
        0
    } else {
        credits_of(records, count - 1) + if records[count - 1] is Some && records[count - 1]->0 .0@
            == "success"@ {
            records[count - 1]->0 .1 as int
        } else {
            0
        }
    }
}

/// Sums up the tasks that a client confirms: all must exist and have ended.
pub fn confirm_tasks(records: &[Option<(String, i64)>]) -> (r: AppResult<Confirmation>)
    requires
        i64::MIN <= credits_of(records@, records@.len() as int) <= i64::MAX,
        records@.len() <= i64::MAX,
    ensures
        if records@.len() == 0 || records@.len() > 100 {
            model::refused(r, BAD_REQUEST, "taskIds 无效"@)
        } else {
            &&& model::answers(r, confirm_refusal(records@, records@.len() as int))
            &&& r matches Ok(sums) ==> {
                &&& sums.success_count == count_with(
                    records@,
                    "success"@,
                    records@.len() as int,
                )
                &&& sums.fail_count == count_with(records@, "error"@, records@.len() as int)
                &&& sums.credits_used == credits_of(records@, records@.len() as int)
                &&& sums.success_count + sums.fail_count == records@.len()
            }
        },
{
    if records.len() == 0 || records.len() > 100 {
        return refuse(BAD_REQUEST, "taskIds 无效");
    }
    let mut success_count: i64 = 0;
    let mut fail_count: i64 = 0;
    let mut credits_used: i128 = 0;
    let mut i: usize = 0;
    proof {
        reveal_strlit("success");
        reveal_strlit("error");
        assert("success"@.len() != "error"@.len());
    }
    while i < records.len()
        invariant
            0 < records@.len() <= 100,
            "success"@ != "error"@,
            i <= records@.len(),
            confirm_refusal(records@, i as int) is None,
            success_count == count_with(records@, "success"@, i as int),
            fail_count == count_with(records@, "error"@, i as int),
            success_count + fail_count == i,
            0 <= success_count <= i,
            0 <= fail_count <= i,
            credits_used == credits_of(records@, i as int),
            -(i * 0x1_0000_0000_0000_0000) <= credits_used <= i * 0x1_0000_0000_0000_0000,
        decreases records@.len() - i,
    {
        match &records[i] {
            None => {
                proof {
                    lemma_refusal_stays(records@, i + 1, records@.len() as int);
                }
                return refuse(NOT_FOUND, "任务不存在");
            },
            Some(record) => {
                if text::same(record.0.as_str(), "success") {
                    success_count += 1;
                    credits_used += record.1 as i128;
                } else if text::same(record.0.as_str(), "error") {
                    fail_count += 1;
                } else {
                    proof {
                        lemma_refusal_stays(records@, i + 1, records@.len() as int);
                    }
                    return refuse(CONFLICT, "任务尚未完成");
                }
            },
        }
        i += 1;
    }
    Ok(Confirmation { success_count, fail_count, credits_used: credits_used as i64 })
}

/// Once some of the tasks are refused, all of them are, for the same reason.
proof fn lemma_refusal_stays(records: Seq<Option<(String, i64)>>, count: int, total: int)
    requires
        0 <= count <= total,
        confirm_refusal(records, count) is Some,
    ensures
        confirm_refusal(records, total) == confirm_refusal(records, count),
    decreases total - count,
{
    if count < total {
        lemma_refusal_stays(records, count + 1, total);
    }
}

/// A restart leaves no task running, and what was open stays open.
pub proof fn restart_keeps_open_tasks(status: Seq<char>)
    ensures
        ({
            let after = if status == "running"@ {
                "queued"@
            } else {
                status
            };
            after != "running"@ && is_open(after) == is_open(status)
        }),
{
    reveal_strlit("running");
    reveal_strlit("queued");
    assert("running"@.len() != "queued"@.len());
}

/// An edit is charged for exactly the calls to the upstream that it takes.
pub proof fn edits_cost_their_calls(edit: EditRequest)
    ensures
        task_count_of(edit.generation, Some(edit)) == upstream::edit_price(edit),
{
}

/// A batch edit is queued as one task for each of its images, every other request as one task for
/// each image that is asked for.
pub proof fn requests_take_as_many_tasks_as_images(
    generation: &GenerateRequest,
    edit: &Option<EditRequest>,
    metadata: &RequestMetadata,
    count: usize,
    r: Vec<TaskPlan>,
)
    requires
        call_ensures(task_count, (generation, edit), count),
        call_ensures(create_tasks, (generation, edit, metadata), r),
    ensures
        r@.len() == count,
        edit is None ==> count == generation.n,
        edit is Some && !edit->0.batch ==> count == generation.n,
        edit is Some && edit->0.batch ==> count == edit->0.images@.len(),
        forall|i: int|
            0 <= i < r@.len() ==> "task-"@.is_prefix_of((#[trigger] r@[i]).id@) && r@[i].id@.len()
                == "task-"@.len() + 32,
{
    assert forall|i: int| 0 <= i < r@.len() implies "task-"@.is_prefix_of(
        (#[trigger] r@[i]).id@,
    ) && r@[i].id@.len() == "task-"@.len() + 32 by {
        assert(token::is_identifier(r@[i].id@, "task-"@));
    }
}

/// A batch edit is queued as one task for each image, in order: task `i` stores the bytes of
/// image `i`, and of no other, as its one input.
pub proof fn batch_tasks_share_out_the_images(
    generation: &GenerateRequest,
    edit: &Option<EditRequest>,
    metadata: &RequestMetadata,
    r: Vec<TaskPlan>,
    i: int,
)
    requires
        call_ensures(create_tasks, (generation, edit, metadata), r),
        edit is Some,
        edit->0.batch,
        0 <= i < r@.len(),
    ensures
        r@.len() == edit->0.images@.len(),
        r@[i].payload.input_files@.len() == 1,
        r@[i].files@.len() == if edit->0.mask is Some { 2int } else { 1 },
        r@[i].files@[0].name@ == r@[i].payload.input_files@[0]@,
        r@[i].files@[0].bytes@ == edit->0.images@[i].bytes@,
{
    assert(is_task_plan(r@[i], *generation, *edit, *metadata, i));
    lemma_plan_files(r@[i], *generation, *edit, *metadata, i);
}

/// Two images of a batch that differ are stored by two tasks whose inputs differ: none is edited
/// twice in place of another.
pub proof fn batch_tasks_differ_as_the_images_do(
    generation: &GenerateRequest,
    edit: &Option<EditRequest>,
    metadata: &RequestMetadata,
    r: Vec<TaskPlan>,
    i: int,
    j: int,
)
    requires
        call_ensures(create_tasks, (generation, edit, metadata), r),
        edit is Some,
        edit->0.batch,
        0 <= i < r@.len(),
        0 <= j < r@.len(),
        edit->0.images@[i].bytes@ != edit->0.images@[j].bytes@,
    ensures
        r@[i].files@[0].bytes@ != r@[j].files@[0].bytes@,
{
    batch_tasks_share_out_the_images(generation, edit, metadata, r, i);
    batch_tasks_share_out_the_images(generation, edit, metadata, r, j);
}

/// An edit that is no batch is queued as one task for each result, and each stores all the
/// images, in order.
pub proof fn edit_tasks_store_all_images(
    generation: &GenerateRequest,
    edit: &Option<EditRequest>,
    metadata: &RequestMetadata,
    r: Vec<TaskPlan>,
    i: int,
)
    requires
        call_ensures(create_tasks, (generation, edit, metadata), r),
        edit is Some,
        !edit->0.batch,
        0 <= i < r@.len(),
    ensures
        r@.len() == generation.n,
        r@[i].payload.input_files@.len() == edit->0.images@.len(),
        r@[i].files@.len() == edit->0.images@.len() + if edit->0.mask is Some { 1int } else { 0 },
        forall|k: int|
            0 <= k < edit->0.images@.len() ==> (#[trigger] r@[i].files@[k]).bytes@
                == edit->0.images@[k].bytes@ && r@[i].files@[k].name@
                == r@[i].payload.input_files@[k]@,
{
    assert(is_task_plan(r@[i], *generation, *edit, *metadata, i));
    lemma_plan_files(r@[i], *generation, *edit, *metadata, i);
}

/// The mask of an edit is stored by each of its tasks, byte by byte and under the name that the
/// task knows it by; where there is none, none is stored.
pub proof fn edit_tasks_store_the_mask(
    generation: &GenerateRequest,
    edit: &Option<EditRequest>,
    metadata: &RequestMetadata,
    r: Vec<TaskPlan>,
    i: int,
)
    requires
        call_ensures(create_tasks, (generation, edit, metadata), r),
        edit is Some,
        0 <= i < r@.len(),
    ensures
        r@[i].payload.mask_file is Some <==> edit->0.mask is Some,
        edit->0.mask matches Some(mask) ==> {
            let last = r@[i].files@.last();
            &&& r@[i].files@.len() > 0
            &&& last.bytes@ == mask.bytes@
            &&& text::opt(r@[i].payload.mask_file) == Some(last.name@)
        },
{
    assert(is_task_plan(r@[i], *generation, *edit, *metadata, i));
    lemma_plan_files(r@[i], *generation, *edit, *metadata, i);
}

/// Every task asks for one image in the user's words and with the user's choices, and knows where
/// the request came from. A request that is no edit stores no files.
pub proof fn tasks_ask_as_the_user_did(
    generation: &GenerateRequest,
    edit: &Option<EditRequest>,
    metadata: &RequestMetadata,
    r: Vec<TaskPlan>,
    i: int,
)
    requires
        call_ensures(create_tasks, (generation, edit, metadata), r),
        0 <= i < r@.len(),
    ensures
        r@[i].payload.generation.n == 1,
        r@[i].payload.generation.prompt@ == generation.prompt@,
        r@[i].payload.generation.size@ == generation.size@,
        r@[i].payload.generation.quality@ == generation.quality@,
        r@[i].payload.generation.output_format@ == generation.output_format@,
        r@[i].payload.generation.is_public == generation.is_public,
        r@[i].payload.generation.model == generation.model,
        r@[i].payload.request_metadata == *metadata,
        edit is None ==> r@.len() == generation.n && r@[i].files@.len() == 0
            && r@[i].payload.input_files@.len() == 0 && r@[i].payload.mask_file is None,
{
    assert(is_task_plan(r@[i], *generation, *edit, *metadata, i));
    lemma_plan_files(r@[i], *generation, *edit, *metadata, i);
}

/// What a plan's files and their names are, one by one.
proof fn lemma_plan_files(
    plan: TaskPlan,
    generation: GenerateRequest,
    edit: Option<EditRequest>,
    metadata: RequestMetadata,
    index: int,
)
    requires
        is_task_plan(plan, generation, edit, metadata, index),
    ensures
        ({
            let inputs = inputs_for(edit, index);
            let mask = match edit {
                Some(request) => request.mask,
                None => None,
            };
            &&& plan.payload.input_files@.len() == inputs.len()
            &&& plan.files@.len() == inputs.len() + if mask is Some { 1int } else { 0 }
            &&& forall|k: int|
                0 <= k < inputs.len() ==> (#[trigger] plan.files@[k]).bytes@ == inputs[k].bytes@
                    && plan.files@[k].name@ == plan.payload.input_files@[k]@
            &&& mask matches Some(held) ==> plan.files@.last().bytes@ == held.bytes@ && text::opt(
                plan.payload.mask_file,
            ) == Some(plan.files@.last().name@)
        }),
{
    let inputs = inputs_for(edit, index);
    let mask = match edit {
        Some(request) => request.mask,
        None => None,
    };
    let wanted = task_files(inputs, mask);
    let views = storage::write_views(plan.files@);
    let names = text::views(plan.payload.input_files@);
    assert(views.len() == plan.files@.len());
    assert(names.len() == plan.payload.input_files@.len());
    assert forall|k: int| 0 <= k < inputs.len() implies (#[trigger] plan.files@[k]).bytes@
        == inputs[k].bytes@ && plan.files@[k].name@ == plan.payload.input_files@[k]@ by {
        assert(views[k] == wanted[k]);
        assert(names[k] == input_name(k, inputs[k].bytes@));
    }
    if mask is Some {
        assert(views.last() == wanted.last());
    }
}

/// A new task is queued for its user, with one credit set aside and none used.
pub proof fn new_tasks_are_queued(
    id: &str,
    user_id: &str,
    kind: &str,
    request_json: String,
    now: &str,
    r: TaskRow,
    status: &str,
    runs: bool,
)
    requires
        call_ensures(queued_row, (id, user_id, kind, request_json, now), r),
        status@ == r.status@,
        call_ensures(is_runnable, (status,), runs),
    ensures
        runs,
        r.id@ == id@,
        r.user_id@ == user_id@,
        r.kind@ == kind@,
        r.request_json@ == request_json@,
        r.credits_reserved == 1,
        r.credits_used == 0,
        r.created_at@ == now@,
        r.updated_at@ == now@,
{
}

/// A task is still to be run while it is queued or running, and in no other state.
pub proof fn queued_and_running_tasks_are_open(status: &str, r: bool)
    requires
        call_ensures(is_runnable, (status,), r),
    ensures
        r <==> status@ == "queued"@ || status@ == "running"@,
{
}

/// After a restart no task runs; the open ones are queued and the others are as they were.
pub proof fn restarts_queue_what_was_running(
    status: &str,
    after: &str,
    r: String,
    before_runs: bool,
    after_runs: bool,
)
    requires
        call_ensures(recovered_status, (status,), r),
        after@ == r@,
        call_ensures(is_runnable, (status,), before_runs),
        call_ensures(is_runnable, (after,), after_runs),
    ensures
        r@ != "running"@,
        before_runs == after_runs,
        before_runs ==> r@ == "queued"@,
        !before_runs ==> r@ == status@,
{
    reveal_strlit("running");
    reveal_strlit("queued");
    assert("running"@.len() != "queued"@.len());
}

/// A task does what its kind says, with the request and the files that were stored for it.
pub proof fn tasks_do_what_was_stored(
    kind: &str,
    payload: Option<TaskPayload>,
    r: AppResult<TaskWork>,
)
    requires
        call_ensures(task_work, (kind, payload), r),
    ensures
        r is Ok <==> payload is Some,
        r matches Err(error) ==> error.0 == 500,
        r matches Ok(work) ==> match work {
            TaskWork::Generate(generation) => kind@ == "generation"@ && generation
                == payload->0.generation,
            TaskWork::Edit(generation, files, mask) => {
                &&& kind@ != "generation"@
                &&& generation == payload->0.generation
                &&& files == payload->0.input_files
                &&& mask == payload->0.mask_file
            },
        },
{
}

/// Generations and edits are logged under endpoints of their own.
pub proof fn work_is_logged_by_its_kind(work: TaskWork, r: &'static str)
    requires
        call_ensures(TaskWork::endpoint, (&work,), r),
    ensures
        work is Generate ==> r@ == "/v1/images/generations/async"@,
        work is Edit ==> r@ == "/v1/images/edits/async"@,
{
}

/// A task keeps where its request came from, and its prompt.
pub proof fn tasks_remember_their_origin(
    payload: &Option<TaskPayload>,
    r: (RequestMetadata, String),
)
    requires
        call_ensures(task_origin, (payload,), r),
    ensures
        payload matches Some(data) ==> r.0.ip_address@ == data.request_metadata.ip_address@
            && r.0.device_id@ == data.request_metadata.device_id@ && r.0.platform@
            == data.request_metadata.platform@ && r.0.user_agent@
            == data.request_metadata.user_agent@ && r.0.app_version@
            == data.request_metadata.app_version@ && r.0.request_id@
            == data.request_metadata.request_id@ && r.0.desktop == data.request_metadata.desktop
            && r.1@ == data.generation.prompt@,
        payload is None ==> r.1@.len() == 0 && r.0.ip_address@.len() == 0 && r.0.device_id@.len()
            == 0 && !r.0.desktop,
{
    reveal_strlit("");
}

/// Where the search for a refused file ends.
proof fn lemma_stored_inputs_refusal(contents: Seq<(String, Option<Vec<u8>>)>, from: int)
    requires
        0 <= from <= contents.len(),
    ensures
        stored_inputs_refusal(contents, from) is None <==> forall|i: int|
            from <= i < contents.len() ==> (#[trigger] contents[i]).1 is Some && parse::format_of(
                contents[i].1->0@,
            ) is Some,
        stored_inputs_refusal(contents, from) matches Some(refusal) ==> refusal.0 == 500,
    decreases contents.len() - from,
{
    if from < contents.len() {
        lemma_stored_inputs_refusal(contents, from + 1);
    }
}

/// A task gets back, in order, the bytes of every one of its files, under the file's name; it is
/// refused exactly where one is missing or is no image.
pub proof fn tasks_get_back_their_files(
    contents: Vec<(String, Option<Vec<u8>>)>,
    r: AppResult<Vec<ImageInput>>,
)
    requires
        call_ensures(load_task_inputs, (contents,), r),
    ensures
        r is Ok <==> forall|i: int|
            0 <= i < contents@.len() ==> (#[trigger] contents@[i]).1 is Some && parse::format_of(
                contents@[i].1->0@,
            ) is Some,
        r matches Err(error) ==> error.0 == 500,
        r matches Ok(inputs) ==> inputs@.len() == contents@.len() && forall|i: int|
            0 <= i < inputs@.len() ==> (#[trigger] inputs@[i]).bytes@ == contents@[i].1->0@
                && inputs@[i].file_name@ == contents@[i].0@ && Some(inputs@[i].mime_type@)
                == parse::mime_of(contents@[i].1->0@),
{
    lemma_stored_inputs_refusal(contents@, 0);
    if r is Ok {
        let inputs = r->Ok_0;
        assert forall|i: int| 0 <= i < inputs@.len() implies (#[trigger] inputs@[i]).bytes@
            == contents@[i].1->0@ && inputs@[i].file_name@ == contents@[i].0@ && Some(
            inputs@[i].mime_type@,
        ) == parse::mime_of(contents@[i].1->0@) by {
            assert(is_loaded(inputs@[i], contents@[i]));
        }
    }
}

/// One file gives the image that its bytes are.
pub proof fn one_file_gives_its_image(
    file: &str,
    bytes: Option<Vec<u8>>,
    r: AppResult<ImageInput>,
)
    requires
        call_ensures(load_task_input, (file, bytes), r),
    ensures
        r is Ok <==> bytes is Some && parse::format_of(bytes->0@) is Some,
        r matches Err(error) ==> error.0 == 500,
        r matches Ok(input) ==> input.bytes@ == bytes->0@ && input.file_name@ == file@ && Some(
            input.mime_type@,
        ) == parse::mime_of(bytes->0@),
{
}

/// A task that failed while it ran gives its one credit back and is written down with its message;
/// one that was settled before is left alone.
pub proof fn failed_tasks_are_settled_once(
    account: &mut Account,
    status: Option<&str>,
    user_id: &str,
    metadata: &RequestMetadata,
    id: &str,
    prompt: &str,
    message: &str,
    r: Option<FailureRecords>,
)
    requires
        call_ensures(settle_task, (account, status, user_id, metadata, id, prompt, message), r),
    ensures
        r is Some <==> status is Some && status->0@ == "running"@,
        r is None ==> *final(account) == *old(account),
        final(account).credits == old(account).credits,
        r is Some && old(account).reserved > 0 ==> final(account).reserved == old(account).reserved
            - 1,
        r is Some && old(account).reserved <= 0 ==> final(account).reserved == 0,
        r matches Some(records) ==> {
            &&& records.log.user_id@ == user_id@
            &&& records.log.status@ == "error"@
            &&& records.log.error@ == message@
            &&& records.log.credits_used == 0
            &&& records.log.endpoint@ == "/v1/tasks"@
            &&& records.log.ip_address@ == metadata.ip_address@
            &&& records.log.prompt@ == text::trimmed(prompt@)
            &&& records.task is Some
            &&& records.task->0.id@ == id@
            &&& records.task->0.user_id@ == user_id@
            &&& records.task->0.status@ == "error"@
            &&& text::opt(records.task->0.error) == Some(message@)
            &&& records.task->0.credits_used == 0
        },
{
}

/// Tasks that could not be created cost nothing: all that was set aside for them goes back, and
/// the failure is logged without a task.
pub proof fn abandoned_tasks_cost_nothing(
    account: &mut Account,
    user_id: &str,
    metadata: &RequestMetadata,
    prompt: &str,
    count: i64,
    r: FailureRecords,
)
    requires
        count >= 0,
        call_ensures(abandon_tasks, (account, user_id, metadata, prompt, count), r),
    ensures
        final(account).credits == old(account).credits,
        count <= old(account).reserved ==> final(account).reserved == old(account).reserved - count,
        count > old(account).reserved ==> final(account).reserved == 0,
        r.log.user_id@ == user_id@,
        r.log.status@ == "error"@,
        r.log.error@ == TASK_CREATION_FAILED@,
        r.log.credits_used == 0,
        r.log.prompt@ == text::trimmed(prompt@),
        r.log.ip_address@ == metadata.ip_address@,
        r.task is None,
{
}

/// Behind a separator a new part begins.
proof fn lemma_split_behind(s: Seq<char>, c: char, part: Seq<char>)
    requires
        !part.contains(c),
    ensures
        text::split_on(s + seq![c] + part, c) == text::split_on(s, c).push(part),
    decreases part.len(),
{
    let all = s + seq![c] + part;
    if part.len() == 0 {
        assert(all.drop_last() =~= s);
        assert(all.last() == c);
        assert(part =~= Seq::<char>::empty());
        assert(text::split_on(all, c) =~= text::split_on(s, c).push(part));
    } else {
        let shorter = part.drop_last();
        assert(all.drop_last() =~= s + seq![c] + shorter);
        assert(all.last() == part.last());
        assert(part[part.len() - 1] != c);
        if shorter.contains(c) {
            let i = choose|i: int| 0 <= i < shorter.len() && shorter[i] == c;
            assert(part[i] == c);
        }
        lemma_split_behind(s, c, shorter);
        let before = text::split_on(s, c).push(shorter);
        assert(before.last() == shorter);
        assert(before.drop_last() =~= text::split_on(s, c));
        assert(shorter.push(part.last()) =~= part);
        assert(text::split_on(all.drop_last(), c) == before);
        assert(text::split_on(all, c) == before.drop_last().push(before.last().push(all.last())));
    }
}

/// A text without the separator is one part.
proof fn lemma_split_whole(s: Seq<char>, c: char)
    requires
        !s.contains(c),
    ensures
        text::split_on(s, c) == seq![s],
    decreases s.len(),
{
    if s.len() > 0 {
        assert(s[s.len() - 1] == s.last());
        let shorter = s.drop_last();
        if shorter.contains(c) {
            let i = choose|i: int| 0 <= i < shorter.len() && shorter[i] == c;
            assert(s[i] == c);
        }
        lemma_split_whole(shorter, c);
        assert(shorter.push(s.last()) =~= s);
        let before = seq![shorter];
        assert(text::split_on(s, c) == before.drop_last().push(before.last().push(s.last())));
        assert(before.drop_last() =~= Seq::<Seq<char>>::empty());
        assert(text::split_on(s, c) =~= seq![s]);
    } else {
        assert(s =~= Seq::<char>::empty());
    }
}

/// A list without a comma names one task, unless it is blank.
pub proof fn single_identifiers_are_read(value: &str, r: AppResult<Vec<String>>)
    requires
        call_ensures(task_ids, (value,), r),
        !value@.contains(','),
    ensures
        r is Ok <==> text::trimmed(value@).len() > 0,
        r matches Ok(ids) ==> ids@.len() == 1 && ids@[0]@ == text::trimmed(value@),
        r matches Err(error) ==> error.0 == 400,
{
    lemma_split_whole(value@, ',');
    let parts = text::split_on(value@, ',');
    assert(parts.drop_last() =~= Seq::<Seq<char>>::empty());
    reveal_with_fuel(identifiers, 2);
    if r is Ok {
        assert(text::views(r->Ok_0@).len() == 1);
        assert(text::views(r->Ok_0@)[0] == r->Ok_0@[0]@);
    }
}

/// One more part behind a comma names one more task, unless it is blank; more than a hundred
/// tasks are refused.
pub proof fn lists_of_identifiers_grow(
    value: &str,
    longer: &str,
    part: Seq<char>,
    r: AppResult<Vec<String>>,
    s: AppResult<Vec<String>>,
)
    requires
        call_ensures(task_ids, (value,), r),
        call_ensures(task_ids, (longer,), s),
        longer@ == value@ + seq![','] + part,
        !part.contains(','),
        r is Ok,
    ensures
        text::trimmed(part).len() == 0 ==> s is Ok && text::views(s->Ok_0@) == text::views(
            r->Ok_0@,
        ),
        text::trimmed(part).len() > 0 ==> (s is Ok <==> r->Ok_0@.len() < 100),
        text::trimmed(part).len() > 0 && s is Ok ==> text::views(s->Ok_0@) == text::views(
            r->Ok_0@,
        ).push(text::trimmed(part)),
        s matches Err(error) ==> error.0 == 400,
{
    lemma_split_behind(value@, ',', part);
    let before = text::split_on(value@, ',');
    assert(before.push(part).drop_last() =~= before);
    assert(text::views(r->Ok_0@).len() == r->Ok_0@.len());
}

/// A client sees of a task what is stored of it, its prompt, and an address for each input.
pub proof fn summaries_show_the_task(
    record: TaskRecord,
    payload: Option<TaskPayload>,
    r: AppResult<TaskSummary>,
)
    requires
        call_ensures(task_summary, (record, payload), r),
    ensures
        r is Ok <==> payload is Some,
        r matches Err(error) ==> error.0 == 500,
        r matches Ok(summary) ==> {
            &&& summary.id@ == record.id@
            &&& summary.status@ == record.status@
            &&& summary.prompt@ == payload->0.generation.prompt@
            &&& summary.image_id == record.image_id
            &&& summary.error == record.error
            &&& summary.created_at@ == record.created_at@
            &&& summary.updated_at@ == record.updated_at@
            &&& summary.reference_images@.len() == payload->0.input_files@.len()
            &&& forall|i: int|
                0 <= i < summary.reference_images@.len() ==> (
                #[trigger] summary.reference_images@[i])@ == "/api/image-tasks/"@ + record.id@
                    + "/references/"@ + text::digits(i as nat)
        },
{
    if r is Ok {
        let urls = r->Ok_0.reference_images@;
        assert(text::views(urls).len() == payload->0.input_files@.len());
        assert forall|i: int| 0 <= i < urls.len() implies (#[trigger] urls[i])@
            == "/api/image-tasks/"@ + record.id@ + "/references/"@ + text::digits(i as nat) by {
            assert(text::views(urls)[i] == urls[i]@);
        }
    }
}

/// A finished task hands out its one image, encoded; one without an image hands out none.
pub proof fn task_data_is_the_image(
    image_id: &Option<String>,
    file_name: &Option<String>,
    bytes: Option<Vec<u8>>,
    r: AppResult<Vec<String>>,
)
    requires
        call_ensures(task_data, (image_id, file_name, bytes), r),
    ensures
        r is Err <==> *image_id is Some && *file_name is Some && bytes is None,
        r matches Err(error) ==> error.0 == 500,
        r matches Ok(data) ==> if *image_id is Some && *file_name is Some {
            data@.len() == 1 && data@[0]@ == encoding::base64_text(bytes->0@)
        } else {
            data@.len() == 0
        },
{
    if r is Ok && *image_id is Some && *file_name is Some {
        let data = r->Ok_0;
        assert(text::views(data@).len() == 1);
        assert(text::views(data@)[0] == data@[0]@);
    }
}

/// Where tasks can be confirmed.
proof fn lemma_confirm_refusal(records: Seq<Option<(String, i64)>>, count: int)
    requires
        count <= records.len(),
    ensures
        confirm_refusal(records, count) is None <==> forall|i: int|
            0 <= i < count ==> (#[trigger] records[i]) is Some && (records[i]->0 .0@ == "success"@
                || records[i]->0 .0@ == "error"@),
        confirm_refusal(records, count) matches Some(refusal) ==> refusal.0 == 404 || refusal.0
            == 409,
    decreases count,
{
    if count > 0 {
        lemma_confirm_refusal(records, count - 1);
    }
}

/// Sums over the first tasks do not hang on those behind them.
proof fn lemma_sums_prefix(
    records: Seq<Option<(String, i64)>>,
    more: Seq<Option<(String, i64)>>,
    status: Seq<char>,
    count: int,
)
    requires
        count <= records.len() <= more.len(),
        forall|i: int| 0 <= i < records.len() ==> records[i] == more[i],
    ensures
        count_with(records, status, count) == count_with(more, status, count),
        credits_of(records, count) == credits_of(more, count),
    decreases count,
{
    if count > 0 {
        lemma_sums_prefix(records, more, status, count - 1);
    }
}

/// Tasks can be confirmed exactly where there are one to a hundred and each of them exists and has
/// ended.
pub proof fn ended_tasks_can_be_confirmed(
    records: &[Option<(String, i64)>],
    r: AppResult<Confirmation>,
)
    requires
        records@.len() <= i64::MAX,
        i64::MIN <= credits_of(records@, records@.len() as int) <= i64::MAX,
        call_ensures(confirm_tasks, (records,), r),
    ensures
        r is Ok <==> 1 <= records@.len() <= 100 && forall|i: int|
            0 <= i < records@.len() ==> (#[trigger] records@[i]) is Some && (records@[i]->0 .0@
                == "success"@ || records@[i]->0 .0@ == "error"@),
        r matches Err(error) ==> error.0 == 400 || error.0 == 404 || error.0 == 409,
        r matches Ok(sums) ==> sums.success_count + sums.fail_count == records@.len(),
{
    lemma_confirm_refusal(records@, records@.len() as int);
}

/// One more success counts as one, with its credits; one more failure counts as one, without.
pub proof fn every_task_is_counted(
    records: &[Option<(String, i64)>],
    more: &[Option<(String, i64)>],
    status: String,
    credits: i64,
    r: AppResult<Confirmation>,
    s: AppResult<Confirmation>,
)
    requires
        more@ == records@.push(Some((status, credits))),
        more@.len() <= i64::MAX,
        i64::MIN <= credits_of(records@, records@.len() as int) <= i64::MAX,
        i64::MIN <= credits_of(more@, more@.len() as int) <= i64::MAX,
        call_ensures(confirm_tasks, (records,), r),
        call_ensures(confirm_tasks, (more,), s),
        r is Ok,
        s is Ok,
    ensures
        status@ == "success"@ ==> s->Ok_0.success_count == r->Ok_0.success_count + 1
            && s->Ok_0.fail_count == r->Ok_0.fail_count && s->Ok_0.credits_used
            == r->Ok_0.credits_used + credits,
        status@ == "error"@ ==> s->Ok_0.fail_count == r->Ok_0.fail_count + 1
            && s->Ok_0.success_count == r->Ok_0.success_count && s->Ok_0.credits_used
            == r->Ok_0.credits_used,
{
    reveal_strlit("success");
    reveal_strlit("error");
    assert("success"@.len() != "error"@.len());
    let n = records@.len() as int;
    lemma_sums_prefix(records@, more@, "success"@, n);
    lemma_sums_prefix(records@, more@, "error"@, n);
    assert(more@[n] == Some((status, credits)));
}

/// The one task that is confirmed counts alone.
pub proof fn one_task_counts_alone(
    records: &[Option<(String, i64)>],
    status: String,
    credits: i64,
    r: AppResult<Confirmation>,
)
    requires
        records@ == seq![Some((status, credits))],
        call_ensures(confirm_tasks, (records,), r),
    ensures
        status@ == "success"@ ==> r is Ok && r->Ok_0.success_count == 1 && r->Ok_0.fail_count == 0
            && r->Ok_0.credits_used == credits,
        status@ == "error"@ ==> r is Ok && r->Ok_0.fail_count == 1 && r->Ok_0.success_count == 0
            && r->Ok_0.credits_used == 0,
{
    reveal_strlit("success");
    reveal_strlit("error");
    assert("success"@.len() != "error"@.len());
    reveal_with_fuel(credits_of, 2);
    reveal_with_fuel(count_with, 2);
    reveal_with_fuel(confirm_refusal, 2);
    assert(records@[0] == Some((status, credits)));
}

/// One task is planned under its own identifier, with the files that its request brings.
pub proof fn tasks_are_planned_one_by_one(
    generation: &GenerateRequest,
    edit: &Option<EditRequest>,
    metadata: &RequestMetadata,
    index: usize,
    task_token: &str,
    r: TaskPlan,
)
    requires
        edit is None ==> index < generation.n,
        edit is Some && !edit->0.batch ==> index < generation.n,
        edit is Some && edit->0.batch ==> index < edit->0.images@.len(),
        call_ensures(plan_task, (generation, edit, metadata, index, task_token), r),
    ensures
        r.id@ == "task-"@ + task_token@,
        r.payload.generation.n == 1,
        r.payload.generation.prompt@ == generation.prompt@,
        edit is None ==> r.files@.len() == 0,
        edit is Some && edit->0.batch ==> r.payload.input_files@.len() == 1 && r.files@[0].bytes@
            == edit->0.images@[index as int].bytes@,
        edit is Some && !edit->0.batch ==> r.payload.input_files@.len() == edit->0.images@.len()
            && forall|k: int|
            0 <= k < edit->0.images@.len() ==> (#[trigger] r.files@[k]).bytes@
                == edit->0.images@[k].bytes@,
{
    lemma_plan_files(r, *generation, *edit, *metadata, index as int);
}

/// The files of a task have names of their own, which end in the format that their bytes show: no
/// file is written in place of another.
pub proof fn task_files_have_names_of_their_own(
    generation: &GenerateRequest,
    edit: &Option<EditRequest>,
    metadata: &RequestMetadata,
    r: Vec<TaskPlan>,
    i: int,
    a: int,
    b: int,
    bytes: &[u8],
    extension: &'static str,
)
    requires
        call_ensures(create_tasks, (generation, edit, metadata), r),
        0 <= i < r@.len(),
        0 <= a < b < r@[i].files@.len(),
        bytes@ == r@[i].files@[a].bytes@,
        call_ensures(parse::image_extension, (bytes,), extension),
    ensures
        r@[i].files@[a].name@ != r@[i].files@[b].name@,
        ("."@ + extension@).is_suffix_of(r@[i].files@[a].name@),
{
    let plan = r@[i];
    assert(is_task_plan(plan, *generation, *edit, *metadata, i));
    lemma_plan_files(plan, *generation, *edit, *metadata, i);
    let inputs = inputs_for(*edit, i);
    let names = text::views(plan.payload.input_files@);
    reveal_strlit("input-");
    reveal_strlit("mask.");
    reveal_strlit(".");
    let x = text::digits(a as nat);
    let y = text::digits(b as nat);
    text::digits_stand_for_their_number(a as nat);
    text::digits_stand_for_their_number(b as nat);
    let first = plan.files@[a].name@;
    let second = plan.files@[b].name@;
    assert(names[a] == plan.payload.input_files@[a]@);
    let tail = "."@ + parse::extension_of(inputs[a].bytes@);
    assert(first =~= "input-"@ + (x + tail));
    assert(first.subrange(first.len() - tail.len(), first.len() as int) =~= tail);
    assert(first[0] == 'i');
    if b < inputs.len() {
        assert(names[b] == plan.payload.input_files@[b]@);
        let other = "."@ + parse::extension_of(inputs[b].bytes@);
        assert(second =~= "input-"@ + (y + other));
        if first == second {
            assert(x + tail =~= first.skip(6));
            assert(y + other =~= second.skip(6));
            assert((x + tail)[x.len() as int] == '.');
            assert((y + other)[y.len() as int] == '.');
            if x.len() < y.len() {
                assert((y + other)[x.len() as int] == y[x.len() as int]);
                assert(text::is_digit(y[x.len() as int]));
            } else if y.len() < x.len() {
                assert((x + tail)[y.len() as int] == x[y.len() as int]);
                assert(text::is_digit(x[y.len() as int]));
            } else {
                assert(x =~= (x + tail).take(x.len() as int));
                assert(y =~= (y + other).take(y.len() as int));
            }
        }
    } else {
        assert(text::opt(plan.payload.mask_file) == Some(second));
        assert(second[0] == 'm');
    }
}

proof fn lemma_blank_parts(parts: Seq<Seq<char>>)
    requires
        forall|i: int| 0 <= i < parts.len() ==> text::trimmed(#[trigger] parts[i]).len() == 0,
    ensures
        identifiers(parts).len() == 0,
    decreases parts.len(),
{
    if parts.len() > 0 {
        let before = parts.drop_last();
        assert forall|i: int| 0 <= i < before.len() implies text::trimmed(
            #[trigger] before[i],
        ).len() == 0 by {
            assert(before[i] == parts[i]);
        }
        lemma_blank_parts(before);
        assert(parts.last() == parts[parts.len() - 1]);
    }
}

/// Blank parts before the first identifier are passed over.
pub proof fn blank_parts_are_passed_over(
    value: &str,
    longer: &str,
    part: Seq<char>,
    r: AppResult<Vec<String>>,
    s: AppResult<Vec<String>>,
)
    requires
        call_ensures(task_ids, (value,), r),
        call_ensures(task_ids, (longer,), s),
        forall|i: int|
            0 <= i < text::split_on(value@, ',').len() ==> text::trimmed(
                #[trigger] text::split_on(value@, ',')[i],
            ).len() == 0,
        longer@ == value@ + seq![','] + part,
        !part.contains(','),
    ensures
        r is Err,
        s is Ok <==> text::trimmed(part).len() > 0,
        s is Ok ==> s->Ok_0@.len() == 1 && s->Ok_0@[0]@ == text::trimmed(part),
{
    let before = text::split_on(value@, ',');
    lemma_blank_parts(before);
    lemma_split_behind(value@, ',', part);
    assert(before.push(part).drop_last() =~= before);
    if s is Ok {
        assert(text::views(s->Ok_0@).len() == 1);
        assert(text::views(s->Ok_0@)[0] == s->Ok_0@[0]@);
    }
}

/// The first task that cannot be confirmed is the one that is told of: that it is not there, or
/// that it has not ended.
pub proof fn the_first_open_task_is_told(
    records: &[Option<(String, i64)>],
    i: int,
    r: AppResult<Confirmation>,
)
    requires
        1 <= records@.len() <= 100,
        i64::MIN <= credits_of(records@, records@.len() as int) <= i64::MAX,
        call_ensures(confirm_tasks, (records,), r),
        0 <= i < records@.len(),
        forall|j: int|
            0 <= j < i ==> (#[trigger] records@[j]) is Some && (records@[j]->0 .0@ == "success"@
                || records@[j]->0 .0@ == "error"@),
    ensures
        records@[i] is None ==> r is Err && r->Err_0.0 == 404,
        records@[i] is Some && records@[i]->0 .0@ != "success"@ && records@[i]->0 .0@ != "error"@
            ==> r is Err && r->Err_0.0 == 409,
{
    lemma_confirm_refusal(records@, i);
    if confirm_refusal(records@, i + 1) is Some {
        lemma_refusal_stays(records@, i + 1, records@.len() as int);
    }
}

} // verus!
