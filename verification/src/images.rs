//! Image generation: requests, credits, tasks, storage and delivery.

use vstd::prelude::*;

use crate::clock::Moment;
use crate::images::credits::{Account, FailureRecords};
use crate::images::storage::{abandon_store, StoreContext};
use crate::images::upstream::Collected;
use crate::json;
use crate::model;
use crate::model::{
    refuse, AppError, AppResult, EditRequest, GenerateRequest, ImageInput, ImageResponse,
    OpenAiImageData, OpenAiImagesResponse, ProviderConfiguration, BAD_REQUEST, CONFLICT,
    INTERNAL_SERVER_ERROR, NOT_FOUND,
};
use crate::paging;
use crate::paging::Page;
use crate::text;
use crate::token;

pub mod credits;
pub mod files;
pub mod parse;
pub mod storage;
pub mod tasks;
pub mod upstream;

verus! {

/// What a generation brought; `U` is what the upstream reported about its usage.
#[derive(Debug, PartialEq, Eq)]
pub struct GenerationResult<U> {
    pub images: Vec<ImageResponse>,
    pub encoded: Vec<String>,
    pub credits: i64,
    pub usage: Option<U>,
    pub errors: Vec<String>,
}

/// Where a request came from.
#[derive(Debug, PartialEq, Eq)]
pub struct RequestMetadata {
    pub request_id: String,
    pub ip_address: String,
    pub device_id: String,
    pub platform: String,
    pub app_version: String,
    pub user_agent: String,
    pub desktop: bool,
}

impl Clone for RequestMetadata {
    fn clone(&self) -> (r: Self)
        ensures
            r == *self,
    {
        RequestMetadata {
            request_id: self.request_id.clone(),
            ip_address: self.ip_address.clone(),
            device_id: self.device_id.clone(),
            platform: self.platform.clone(),
            app_version: self.app_version.clone(),
            user_agent: self.user_agent.clone(),
            desktop: self.desktop,
        }
    }
}

impl Default for RequestMetadata {
    fn default() -> (r: Self)
        ensures
            r.request_id@ == ""@,
            r.ip_address@ == ""@,
            r.device_id@ == ""@,
            r.platform@ == ""@,
            r.app_version@ == ""@,
            r.user_agent@ == ""@,
            !r.desktop,
    {
        RequestMetadata {
            request_id: "".to_owned(),
            ip_address: "".to_owned(),
            device_id: "".to_owned(),
            platform: "".to_owned(),
            app_version: "".to_owned(),
            user_agent: "".to_owned(),
            desktop: false,
        }
    }
}

/// What a visitor of the gallery asks for.
#[derive(Debug, PartialEq, Eq)]
pub struct GalleryQuery {
    pub q: Option<String>,
    pub category: Option<String>,
    pub page: Option<u32>,
    pub page_size: Option<u32>,
}

/// A search in the gallery.
#[derive(Debug, PartialEq, Eq)]
pub struct GallerySearch {
    pub search: String,
    pub category: String,
    pub page: Page,
}

/// The text of an optional string, or none.
pub open spec fn text_or_empty(value: Option<String>) -> Seq<char> {
    text::or_text(text::opt(value), ""@)
}

/// The search that a query asks for: texts trimmed, pages of 24 unless it says otherwise.
pub fn gallery_search(query: &GalleryQuery) -> (r: GallerySearch)
    ensures
        r.search@ == text::trimmed(text_or_empty(query.q)),
        r.category@ == text::trimmed(text_or_empty(query.category)),
        r.page.page == paging::page_number(query.page),
        r.page.page_size == paging::page_length(query.page_size, 24),
        r.page.offset == (r.page.page - 1) * r.page.page_size,
{
    let search = match &query.q {
        Some(given) => text::trim(given.as_str()).to_owned(),
        None => text::trim("").to_owned(),
    };
    let category = match &query.category {
        Some(given) => text::trim(given.as_str()).to_owned(),
        None => text::trim("").to_owned(),
    };
    GallerySearch { search, category, page: paging::page_of(query.page, query.page_size, 24) }
}

/// What is stored of an image, as far as lists show it.
#[derive(Debug)]
pub struct ImageRecord {
    pub id: String,
    pub prompt: String,
    pub size: String,
    pub model: String,
    pub created_at: String,
    pub format: String,
    pub visibility: String,
    pub category: String,
    pub storage: String,
    pub reference_files: String,
}

/// Whether a list entry shows a stored image: in public without its references.
pub open spec fn shows_record(
    shown: ImageResponse,
    record: ImageRecord,
    public: bool,
    author: Option<String>,
) -> bool {
    &&& shown.id == record.id
    &&& shown.url@ == if public {
        "/public/images/"@ + record.id@
    } else {
        "/api/images/"@ + record.id@ + "/file"@
    }
    &&& shown.thumbnail_url@ == if public {
        "/public/images/"@ + record.id@ + "/thumbnail"@
    } else {
        "/api/images/"@ + record.id@ + "/thumbnail"@
    }
    &&& shown.prompt == record.prompt
    &&& shown.size == record.size
    &&& shown.model == record.model
    &&& shown.created_at == record.created_at
    &&& shown.source@ == "generated"@
    &&& shown.format == record.format
    &&& shown.is_public == (record.visibility@ == "public"@)
    &&& shown.category == record.category
    &&& shown.storage == record.storage
    &&& shown.author == author
    &&& text::views(shown.reference_images@) == if public {
        Seq::empty()
    } else {
        Seq::new(
            json::listed(record.reference_files@).len(),
            |i: int| storage::reference_url(record.id@, i),
        )
    }
}

/// The list entry of a stored image.
pub fn image_from_row(record: ImageRecord, public: bool, author: Option<String>) -> (r:
    ImageResponse)
    ensures
        shows_record(r, record, public, author),
{
    let id = record.id.as_str();
    let reference_images = if public {
        let none: Vec<String> = Vec::new();
        assert(text::views(none@) == Seq::<Seq<char>>::empty());
        none
    } else {
        let files = json::file_list(record.reference_files.as_str());
        assert(text::views(files@).len() == files@.len());
        storage::reference_urls(id, files.len())
    };
    let url = if public {
        text::concat("/public/images/", id)
    } else {
        text::concat3("/api/images/", id, "/file")
    };
    let thumbnail_url = if public {
        text::concat3("/public/images/", id, "/thumbnail")
    } else {
        text::concat3("/api/images/", id, "/thumbnail")
    };
    let is_public = text::same(record.visibility.as_str(), "public");
    ImageResponse {
        id: record.id,
        url,
        thumbnail_url,
        prompt: record.prompt,
        size: record.size,
        model: record.model,
        created_at: record.created_at,
        source: "generated",
        format: record.format,
        is_public,
        category: record.category,
        storage: record.storage,
        author,
        reference_images,
    }
}

/// How removing a file ended.
#[derive(Clone, Copy, Debug, PartialEq, Eq, Structural)]
pub enum Removal {
    Removed,
    Missing,
    Failed,
}

/// The end of a change that a file had to go for: it fails only where the file is still there,
/// and then the change is to be taken back.
pub fn cleanup_result(removal: Removal) -> (r: AppResult<()>)
    ensures
        if removal == Removal::Failed {
            model::refused(r, INTERNAL_SERVER_ERROR, "服务器图片清理失败"@)
        } else {
            r is Ok
        },
{
    match removal {
        Removal::Failed => refuse(INTERNAL_SERVER_ERROR, "服务器图片清理失败"),
        _ => Ok(()),
    }
}

/// A change of an image's visibility, and the file that has to go for it.
#[derive(Debug, PartialEq, Eq)]
pub struct VisibilityChange {
    pub visibility: &'static str,
    pub remove_file: Option<String>,
}

/// Publishes an image or takes it back; the server's copy of a local image goes when it becomes
/// private. The record holds file name and storage.
pub fn update_image_visibility(record: Option<(String, String)>, is_public: bool) -> (r: AppResult<
    VisibilityChange,
>)
    ensures
        match record {
            Some(found) => {
                &&& r matches Ok(change)
                &&& change.visibility@ == storage::visibility(is_public)
                &&& text::opt(change.remove_file) == if !is_public && found.1@ == "local"@ {
                    Some(found.0@)
                } else {
                    None
                }
            },
            None => model::refused(r, NOT_FOUND, "图片不存在"@),
        },
{
    match record {
        Some(found) => {
            let goes = !is_public && text::same(found.1.as_str(), "local");
            Ok(
                VisibilityChange {
                    visibility: storage::visibility_word(is_public),
                    remove_file: if goes {
                        Some(found.0)
                    } else {
                        None
                    },
                },
            )
        },
        None => refuse(NOT_FOUND, "图片不存在"),
    }
}

/// Refuses a second image in an upload of one.
pub fn accept_upload(already_there: bool) -> (r: AppResult<()>)
    ensures
        if already_there {
            model::refused(r, BAD_REQUEST, "只能上传一张图片"@)
        } else {
            r is Ok
        },
{
    if already_there {
        return refuse(BAD_REQUEST, "只能上传一张图片");
    }
    Ok(())
}

/// A stored image that its owner publishes: its file, its format and where it is kept.
#[derive(Debug, PartialEq, Eq)]
pub struct PublishRecord {
    pub file_name: String,
    pub format: String,
    pub storage: String,
}

/// Why a local image cannot be published, if it cannot.
pub open spec fn publish_refusal(image: Option<ImageInput>, record: Option<PublishRecord>) -> Option<
    (u16, Seq<char>),
> {
    match image {
        None => Some((BAD_REQUEST, "图片文件缺失"@)),
        Some(input) => match record {
            None => Some((NOT_FOUND, "图片不存在"@)),
            Some(found) => if found.storage@ != "local"@ {
                Some((CONFLICT, "该图片不是本地图片"@))
            } else {
                match parse::format_of(input.bytes@) {
                    Some(shown) => if shown.0 == found.format@ {
                        None
                    } else {
                        Some((BAD_REQUEST, "图片格式不匹配"@))
                    },
                    None => Some((BAD_REQUEST, "图片格式不匹配"@)),
                }
            },
        },
    }
}

/// The file to write for a local image that its owner publishes: the upload must have the
/// format of the image.
pub fn publish_local_image(image: Option<ImageInput>, record: Option<PublishRecord>) -> (r: AppResult<
    (String, Vec<u8>),
>)
    ensures
        model::answers(r, publish_refusal(image, record)),
        r matches Ok(file) ==> file.0 == record->0.file_name && file.1 == image->0.bytes,
{
    let input = match image {
        Some(input) => input,
        None => {
            return refuse(BAD_REQUEST, "图片文件缺失");
        },
    };
    let found = match record {
        Some(found) => found,
        None => {
            return refuse(NOT_FOUND, "图片不存在");
        },
    };
    if !text::same(found.storage.as_str(), "local") {
        return refuse(CONFLICT, "该图片不是本地图片");
    }
    match parse::detect_image_format(&input.bytes) {
        Some(shown) => {
            if !text::same(shown.0, found.format.as_str()) {
                return refuse(BAD_REQUEST, "图片格式不匹配");
            }
        },
        None => {
            return refuse(BAD_REQUEST, "图片格式不匹配");
        },
    }
    Ok((found.file_name, input.bytes))
}

/// A stored image that a device takes over.
#[derive(Debug, PartialEq, Eq)]
pub struct LocalRecord {
    pub file_name: String,
    pub storage: String,
    pub device_id: String,
    pub visibility: String,
}

/// What changes when a device takes an image over: the device it belongs to, the file that has
/// to go, and what is put back if that fails.
#[derive(Debug, PartialEq, Eq)]
pub struct Localization {
    pub device_id: String,
    pub remove_file: Option<String>,
    pub is_public: bool,
    pub previous_storage: String,
    pub previous_device: String,
}

/// Why a device cannot take an image over, if it cannot.
pub open spec fn localize_refusal(device_id: Option<String>, record: Option<LocalRecord>) -> Option<
    (u16, Seq<char>),
> {
    match device_id {
        None => Some((BAD_REQUEST, "设备 ID 缺失"@)),
        Some(device) => match record {
            None => Some((NOT_FOUND, "图片不存在"@)),
            Some(found) => if found.storage@ != "server"@ && found.device_id@ != device@ {
                Some((CONFLICT, "图片不属于当前设备"@))
            } else if found.storage@ != "server"@ && found.storage@ != "pending"@
                && found.storage@ != "local"@ {
                Some((CONFLICT, "该图片不是桌面端待转存图片"@))
            } else {
                None
            },
        },
    }
}

/// Lets a device take an image over; only a public image keeps its copy on the server.
pub fn localize_image(device_id: Option<String>, record: Option<LocalRecord>) -> (r: AppResult<
    Localization,
>)
    ensures
        model::answers(r, localize_refusal(device_id, record)),
        r matches Ok(change) ==> {
            &&& change.device_id == device_id->0
            &&& change.is_public == (record->0.visibility@ == "public"@)
            &&& text::opt(change.remove_file) == if change.is_public {
                None
            } else {
                Some(record->0.file_name@)
            }
            &&& change.previous_storage == record->0.storage
            &&& change.previous_device == record->0.device_id
        },
{
    let device = match device_id {
        Some(device) => device,
        None => {
            return refuse(BAD_REQUEST, "设备 ID 缺失");
        },
    };
    let found = match record {
        Some(found) => found,
        None => {
            return refuse(NOT_FOUND, "图片不存在");
        },
    };
    let kept = found.storage.as_str();
    if !text::same(kept, "server") && !text::same(found.device_id.as_str(), device.as_str()) {
        return refuse(CONFLICT, "图片不属于当前设备");
    }
    if !text::same(kept, "server") && !text::same(kept, "pending") && !text::same(kept, "local") {
        return refuse(CONFLICT, "该图片不是桌面端待转存图片");
    }
    let is_public = text::same(found.visibility.as_str(), "public");
    Ok(
        Localization {
            device_id: device,
            remove_file: if is_public {
                None
            } else {
                Some(found.file_name)
            },
            is_public,
            previous_storage: found.storage,
            previous_device: found.device_id,
        },
    )
}

/// The files of an image that is deleted: its references, then its own.
pub fn delete_image(record: Option<(String, String)>) -> (r: AppResult<Vec<String>>)
    ensures
        match record {
            Some(found) => r matches Ok(files) && text::views(files@) == json::listed(
                found.1@,
            ).push(found.0@),
            None => model::refused(r, NOT_FOUND, "图片不存在"@),
        },
{
    match record {
        Some(found) => {
            let mut files = json::file_list(found.1.as_str());
            let ghost before = text::views(files@);
            files.push(found.0);
            assert(text::views(files@) == before.push(found.0@));
            Ok(files)
        },
        None => refuse(NOT_FOUND, "图片不存在"),
    }
}

/// The files of the first `count` images: of each its own, then its references.
pub open spec fn cleared_files(records: Seq<(String, String)>, count: int) -> Seq<Seq<char>>
    decreases count,
{
    if count <= 0 {
        Seq::empty()
    } else {
        cleared_files(records, count - 1).push(records[count - 1].0@) + json::listed(
            records[count - 1].1@,
        )
    }
}

/// The files of all images that are deleted together.
pub fn clear_images(records: &[(String, String)]) -> (r: Vec<String>)
    ensures
        text::views(r@) == cleared_files(records@, records@.len() as int),
{
    let mut files: Vec<String> = Vec::new();
    let mut i: usize = 0;
    assert(text::views(files@) == cleared_files(records@, 0));
    while i < records.len()
        invariant
            i <= records@.len(),
            text::views(files@) == cleared_files(records@, i as int),
        decreases records@.len() - i,
    {
        let ghost before = text::views(files@);
        let mut references = json::file_list(records[i].1.as_str());
        let ghost listed = text::views(references@);
        files.push(records[i].0.clone());
        assert(text::views(files@) == before.push(records@[i as int].0@));
        files.append(&mut references);
        assert(text::views(files@) == before.push(records@[i as int].0@) + listed);
        i += 1;
    }
    files
}

/// The name under which a file waits to be deleted.
pub fn trash_name() -> (r: String)
    ensures
        token::is_identifier(r@, ".deleting-"@),
{
    token::fresh_identifier(".deleting-")
}

/// The moves that put files back whose deletion is given up: of each, where it went and where
/// it came from.
pub fn restore_moves(moved: &[(String, String)]) -> (r: Vec<(String, String)>)
    ensures
        r@.len() == moved@.len(),
        forall|i: int|
            0 <= i < r@.len() ==> (#[trigger] r@[i]).0@ == moved@[i].1@ && r@[i].1@
                == moved@[i].0@,
{
    let mut moves: Vec<(String, String)> = Vec::new();
    let mut i: usize = 0;
    while i < moved.len()
        invariant
            i <= moved@.len(),
            moves@.len() == i,
            forall|j: int|
                0 <= j < i ==> (#[trigger] moves@[j]).0@ == moved@[j].1@ && moves@[j].1@
                    == moved@[j].0@,
        decreases moved@.len() - i,
    {
        moves.push((moved[i].1.clone(), moved[i].0.clone()));
        i += 1;
    }
    moves
}

/// Why a call cannot begin, if it cannot: the request comes first, then the provider, then the
/// credits.
pub open spec fn begin_refusal(
    request_refusal: Option<(u16, Seq<char>)>,
    provider: AppResult<ProviderConfiguration>,
    account: Account,
    today_calls: i64,
    cost: i64,
    already_reserved: bool,
) -> Option<(u16, Seq<char>)> {
    match request_refusal {
        Some(refusal) => Some(refusal),
        None => match provider {
            Err(error) => Some((error.0, error.1@)),
            Ok(_) => if already_reserved {
                None
            } else {
                account.reserve_refusal(today_calls, cost)
            },
        },
    }
}

/// Sets the credits of a call aside once its provider is known, unless that was done before.
fn begin_call(
    provider: AppResult<ProviderConfiguration>,
    account: &mut Account,
    today_calls: i64,
    cost: i64,
    already_reserved: bool,
) -> (r: AppResult<ProviderConfiguration>)
    requires
        cost >= 0,
    ensures
        model::answers(
            r,
            begin_refusal(None, provider, *old(account), today_calls, cost, already_reserved),
        ),
        r is Ok ==> r == provider,
        *final(account) == if r is Ok && !already_reserved {
            old(account).with_reserved(cost as int)
        } else {
            *old(account)
        },
{
    let chosen = match provider {
        Ok(chosen) => chosen,
        Err(error) => {
            return Err(error);
        },
    };
    if !already_reserved {
        match account.reserve(today_calls, cost) {
            Ok(()) => {},
            Err(error) => {
                return Err(error);
            },
        }
    }
    Ok(chosen)
}

/// Begins a generation: checks the request and sets one credit aside for each image.
pub fn perform_generation(
    request: &GenerateRequest,
    provider: AppResult<ProviderConfiguration>,
    account: &mut Account,
    today_calls: i64,
    already_reserved: bool,
) -> (r: AppResult<ProviderConfiguration>)
    ensures
        model::answers(
            r,
            begin_refusal(
                parse::generation_refusal(*request),
                provider,
                *old(account),
                today_calls,
                request.n as i64,
                already_reserved,
            ),
        ),
        r is Ok ==> r == provider,
        *final(account) == if r is Ok && !already_reserved {
            old(account).with_reserved(request.n as int)
        } else {
            *old(account)
        },
{
    match parse::validate_generation(request) {
        Ok(()) => {},
        Err(error) => {
            return Err(error);
        },
    }
    begin_call(provider, account, today_calls, request.n as i64, already_reserved)
}

/// Begins an edit: checks the request and its images, and sets its credits aside.
pub fn perform_edit(
    request: &EditRequest,
    provider: AppResult<ProviderConfiguration>,
    account: &mut Account,
    today_calls: i64,
    already_reserved: bool,
) -> (r: AppResult<ProviderConfiguration>)
    ensures
        model::answers(
            r,
            begin_refusal(
                match parse::generation_refusal(request.generation) {
                    Some(refusal) => Some(refusal),
                    None => parse::edit_refusal(*request),
                },
                provider,
                *old(account),
                today_calls,
                upstream::edit_price(*request) as i64,
                already_reserved,
            ),
        ),
        r is Ok ==> r == provider,
        r is Ok ==> 1 <= upstream::edit_price(*request) <= 4,
        *final(account) == if r is Ok && !already_reserved {
            old(account).with_reserved(upstream::edit_price(*request))
        } else {
            *old(account)
        },
{
    match parse::validate_generation(&request.generation) {
        Ok(()) => {},
        Err(error) => {
            return Err(error);
        },
    }
    match parse::validate_edit_inputs(request) {
        Ok(()) => {},
        Err(error) => {
            return Err(error);
        },
    }
    let cost: usize = upstream::edit_cost(request);
    begin_call(provider, account, today_calls, cost as i64, already_reserved)
}

/// Ends a call whose replies are in: where no image came back its credits go back, the failure
/// is logged, and the client is told the first thing that went wrong.
pub fn conclude_call<U>(
    context: &StoreContext<'_>,
    account: &mut Account,
    collected: Collected<U>,
) -> (r: Result<Collected<U>, (FailureRecords, AppError)>)
    requires
        context.reserved >= 0,
    ensures
        r is Ok <==> collected.outputs@.len() > 0,
        match r {
            Ok(brought) => brought == collected && *final(account) == *old(account),
            Err((records, error)) => {
                &&& *final(account) == old(account).with_released(context.reserved as int)
                &&& error.0 == model::BAD_GATEWAY
                &&& error.1@ == upstream::empty_message(text::views(collected.errors@))
                &&& token::is_identifier(records.log.id@, "log-"@)
                &&& exists|call: credits::CallContext<'_>, now: Moment|
                    context.is_call(call) && #[trigger] credits::failed_at(
                        records,
                        call,
                        error.1@,
                        now,
                    )
            },
        },
{
    match upstream::empty_failure(&collected) {
        Some(error) => {
            let message = error.1.clone();
            Err(abandon_store(context, account, message.as_str(), error))
        },
        None => Ok(collected),
    }
}

/// The answer in OpenAI's format: the images in base64, and the usage.
pub fn openai_response<U>(result: GenerationResult<U>, created: i64) -> (r: OpenAiImagesResponse<U>)
    ensures
        r.created == created,
        r.data@.len() == result.encoded@.len(),
        forall|i: int|
            0 <= i < r.data@.len() ==> (#[trigger] r.data@[i]).b64_json == result.encoded@[i],
        r.usage == result.usage,
{
    let mut data: Vec<OpenAiImageData> = Vec::new();
    let encoded = result.encoded;
    let ghost all = encoded@;
    for b64_json in iter: encoded
        invariant
            iter.seq() == all,
            data@.len() == iter.index(),
            forall|i: int| 0 <= i < data@.len() ==> (#[trigger] data@[i]).b64_json == all[i],
    {
        data.push(OpenAiImageData { b64_json });
    }
    OpenAiImagesResponse { created, data, usage: result.usage }
}

/// Where each call brings at most one image, no more images come back than credits were set
/// aside, so that a success can always be paid for.
pub proof fn images_stay_within_the_reservation<U>(
    account: Account,
    today_calls: i64,
    replies: Seq<upstream::UpstreamReply<U>>,
    cost: i64,
)
    requires
        account.covered(),
        cost >= 0,
        replies.len() == cost,
        forall|i: int|
            0 <= i < replies.len() ==> match #[trigger] replies[i] {
                upstream::UpstreamReply::Generated(outputs, _) => outputs@.len() <= 1,
                _ => true,
            },
        account.reserve_refusal(today_calls, cost) is None,
    ensures
        upstream::reply_outputs(replies, cost as int).len() <= cost,
        account.with_reserved(cost as int).can_settle(
            upstream::reply_outputs(replies, cost as int).len() as int,
            cost as int,
        ),
        account.with_reserved(cost as int).with_spent(
            upstream::reply_outputs(replies, cost as int).len() as int,
            cost as int,
        ).covered(),
{
    lemma_outputs_bounded(replies, cost as int);
}

proof fn lemma_outputs_bounded<U>(replies: Seq<upstream::UpstreamReply<U>>, count: int)
    requires
        0 <= count <= replies.len(),
        forall|i: int|
            0 <= i < replies.len() ==> match #[trigger] replies[i] {
                upstream::UpstreamReply::Generated(outputs, _) => outputs@.len() <= 1,
                _ => true,
            },
    ensures
        upstream::reply_outputs(replies, count).len() <= count,
    decreases count,
{
    if count > 0 {
        lemma_outputs_bounded(replies, count - 1);
        assert(match replies[count - 1] {
            upstream::UpstreamReply::Generated(outputs, _) => outputs@.len() <= 1,
            _ => true,
        });
    }
}

/// A search keeps the words and the category of the query, without the white space around them,
/// and pages of 24 unless the query says otherwise.
pub proof fn searches_ask_as_the_query_does(query: &GalleryQuery, r: GallerySearch)
    requires
        call_ensures(gallery_search, (query,), r),
    ensures
        query.q matches Some(words) ==> r.search@ == text::trimmed(words@),
        query.q is None ==> r.search@.len() == 0,
        query.category matches Some(name) ==> r.category@ == text::trimmed(name@),
        query.category is None ==> r.category@.len() == 0,
        query.page is None ==> r.page.page == 1 && r.page.offset == 0,
        query.page_size is None ==> r.page.page_size == 24,
        r.page.page >= 1,
        r.page.page_size >= 1,
{
    reveal_strlit("");
    assert(text::trimmed(""@).len() == 0) by {
        let bounds = text::trimmed_is_what_lies_between(""@);
    }
}

/// A list shows of an image what is stored of it; addresses, and whether the references are shown,
/// go by whether the list is public.
pub proof fn lists_show_what_is_stored(
    record: ImageRecord,
    public: bool,
    author: Option<String>,
    r: ImageResponse,
)
    requires
        call_ensures(image_from_row, (record, public, author), r),
    ensures
        r.id@ == record.id@,
        r.prompt@ == record.prompt@,
        r.size@ == record.size@,
        r.model@ == record.model@,
        r.created_at@ == record.created_at@,
        r.format@ == record.format@,
        r.category@ == record.category@,
        r.storage@ == record.storage@,
        r.author == author,
        r.source@ == "generated"@,
        r.is_public <==> record.visibility@ == "public"@,
        public ==> r.url@ == "/public/images/"@ + record.id@ && r.thumbnail_url@
            == "/public/images/"@ + record.id@ + "/thumbnail"@ && r.reference_images@.len() == 0,
        !public ==> r.url@ == "/api/images/"@ + record.id@ + "/file"@ && r.thumbnail_url@
            == "/api/images/"@ + record.id@ + "/thumbnail"@,
        !public ==> match json::string_list(record.reference_files@) {
            Some(files) => r.reference_images@.len() == files.len(),
            None => r.reference_images@.len() == 0,
        },
        forall|i: int|
            0 <= i < r.reference_images@.len() ==> (#[trigger] r.reference_images@[i])@
                == "/api/images/"@ + record.id@ + "/references/"@ + text::digits(i as nat),
{
    assert(text::views(r.reference_images@).len() == r.reference_images@.len());
    assert forall|i: int| 0 <= i < r.reference_images@.len() implies (
    #[trigger] r.reference_images@[i])@ == "/api/images/"@ + record.id@ + "/references/"@
        + text::digits(i as nat) by {
        assert(text::views(r.reference_images@)[i] == r.reference_images@[i]@);
    }
}

/// A change stands unless the file that had to go is still there.
pub proof fn only_files_left_behind_undo_a_change(removal: Removal, r: AppResult<()>)
    requires
        call_ensures(cleanup_result, (removal,), r),
    ensures
        r is Err <==> removal is Failed,
        r matches Err(error) ==> error.0 == 500,
{
}

/// An image becomes as visible as its owner says, and loses the server's copy exactly where it is
/// kept on a device and becomes private.
pub proof fn visibility_follows_the_owner(
    record: Option<(String, String)>,
    is_public: bool,
    r: AppResult<VisibilityChange>,
)
    requires
        call_ensures(update_image_visibility, (record, is_public), r),
    ensures
        r is Ok <==> record is Some,
        r matches Err(error) ==> error.0 == 404,
        r matches Ok(change) ==> {
            &&& is_public ==> change.visibility@ == "public"@
            &&& !is_public ==> change.visibility@ == "private"@
            &&& change.remove_file is Some <==> !is_public && record->0 .1@ == "local"@
            &&& change.remove_file is Some ==> change.remove_file->0@ == record->0 .0@
        },
{
}

/// An upload brings one image and no second.
pub proof fn uploads_bring_one_image(already_there: bool, r: AppResult<()>)
    requires
        call_ensures(accept_upload, (already_there,), r),
    ensures
        r is Ok <==> !already_there,
        r matches Err(error) ==> error.0 == 400,
{
}

/// A local image is published exactly where it is there, is kept on a device, and the upload has
/// its format; then the upload's bytes are written under the image's name.
pub proof fn local_images_are_published_as_uploaded(
    image: Option<ImageInput>,
    record: Option<PublishRecord>,
    bytes: &[u8],
    found: Option<(&'static str, &'static str)>,
    r: AppResult<(String, Vec<u8>)>,
)
    requires
        call_ensures(publish_local_image, (image, record), r),
        image is Some ==> bytes@ == image->0.bytes@,
        call_ensures(parse::detect_image_format, (bytes,), found),
    ensures
        r is Ok <==> {
            &&& image is Some
            &&& record is Some
            &&& record->0.storage@ == "local"@
            &&& found is Some
            &&& found->0 .0@ == record->0.format@
        },
        r matches Ok(file) ==> file.0@ == record->0.file_name@ && file.1@ == image->0.bytes@,
        image is Some && record is None ==> r->Err_0.0 == 404,
        image is Some && record is Some && record->0.storage@ != "local"@ ==> r->Err_0.0 == 409,
        image is None ==> r->Err_0.0 == 400,
{
}

/// A device takes over images of the server and its own, but none of another device; only public
/// ones keep their copy on the server, and what was there before can be put back.
pub proof fn devices_take_over_their_own_images(
    device_id: Option<String>,
    record: Option<LocalRecord>,
    r: AppResult<Localization>,
)
    requires
        call_ensures(localize_image, (device_id, record), r),
    ensures
        r is Ok <==> {
            &&& device_id is Some
            &&& record is Some
            &&& record->0.storage@ == "server"@ || ((record->0.storage@ == "pending"@
                || record->0.storage@ == "local"@) && record->0.device_id@ == device_id->0@)
        },
        r matches Ok(change) ==> {
            &&& change.device_id@ == device_id->0@
            &&& change.is_public <==> record->0.visibility@ == "public"@
            &&& change.remove_file is None <==> record->0.visibility@ == "public"@
            &&& change.remove_file is Some ==> change.remove_file->0@ == record->0.file_name@
            &&& change.previous_storage@ == record->0.storage@
            &&& change.previous_device@ == record->0.device_id@
        },
        device_id is None ==> r->Err_0.0 == 400,
        device_id is Some && record is None ==> r->Err_0.0 == 404,
{
}

/// With an image all of its files go: its own, and every reference that it lists.
pub proof fn deleted_images_lose_all_their_files(
    record: Option<(String, String)>,
    r: AppResult<Vec<String>>,
)
    requires
        call_ensures(delete_image, (record,), r),
    ensures
        r is Ok <==> record is Some,
        r matches Err(error) ==> error.0 == 404,
        r matches Ok(files) ==> files@.last()@ == record->0 .0@ && files@.len() == 1 + (
        match json::string_list(record->0 .1@) {
            Some(list) => list.len() as int,
            None => 0,
        }),
        r is Ok && json::string_list(record->0 .1@) is Some ==> forall|i: int|
            0 <= i < json::string_list(record->0 .1@)->0.len() ==> (#[trigger] r->Ok_0@[i])@
                == json::string_list(record->0 .1@)->0[i],
{
    if r is Ok {
        let files = r->Ok_0@;
        let names = text::views(files);
        assert(names.len() == files.len());
        assert(names.last() == files.last()@);
        assert forall|i: int| 0 <= i < files.len() - 1 implies (#[trigger] files[i])@
            == json::listed(record->0 .1@)[i] by {
            assert(names[i] == files[i]@);
        }
    }
}

/// Clearing one more image clears its file and its references behind those of the others.
pub proof fn clearing_takes_every_image(
    records: &[(String, String)],
    more: &[(String, String)],
    record: (String, String),
    r: Vec<String>,
    s: Vec<String>,
)
    requires
        more@ == records@.push(record),
        call_ensures(clear_images, (records,), r),
        call_ensures(clear_images, (more,), s),
    ensures
        records@.len() == 0 ==> r@.len() == 0,
        text::views(s@) == text::views(r@).push(record.0@) + (match json::string_list(record.1@) {
            Some(list) => list,
            None => Seq::empty(),
        }),
{
    let n = records@.len() as int;
    lemma_cleared_prefix(records@, more@, n);
    assert(more@[n] == record);
    assert(text::views(r@).len() == r@.len());
}

proof fn lemma_cleared_prefix(
    records: Seq<(String, String)>,
    more: Seq<(String, String)>,
    count: int,
)
    requires
        count <= records.len() <= more.len(),
        forall|i: int| 0 <= i < records.len() ==> records[i] == more[i],
    ensures
        cleared_files(records, count) == cleared_files(more, count),
    decreases count,
{
    if count > 0 {
        lemma_cleared_prefix(records, more, count - 1);
    }
}

/// Every file that was moved away is moved back to where it was, in order.
pub proof fn moves_are_taken_back(moved: &[(String, String)], r: Vec<(String, String)>)
    requires
        call_ensures(restore_moves, (moved,), r),
    ensures
        r@.len() == moved@.len(),
        forall|i: int|
            0 <= i < moved@.len() ==> (#[trigger] r@[i]).0@ == moved@[i].1@ && r@[i].1@
                == moved@[i].0@,
{
}

/// Taking moves back twice gives the moves.
pub proof fn taking_back_twice_changes_nothing(
    moved: &[(String, String)],
    back: Vec<(String, String)>,
    slice: &[(String, String)],
    again: Vec<(String, String)>,
)
    requires
        call_ensures(restore_moves, (moved,), back),
        slice@ == back@,
        call_ensures(restore_moves, (slice,), again),
    ensures
        again@.len() == moved@.len(),
        forall|i: int|
            0 <= i < moved@.len() ==> (#[trigger] again@[i]).0@ == moved@[i].0@ && again@[i].1@
                == moved@[i].1@,
{
}

/// A generation begins exactly where its request is accepted, its provider is known, and its
/// images can be paid for: one credit is set aside for each, unless that was done before.
pub proof fn generations_begin_when_they_can_be_paid(
    request: &GenerateRequest,
    provider: AppResult<ProviderConfiguration>,
    account: &mut Account,
    today_calls: i64,
    already_reserved: bool,
    valid: AppResult<()>,
    r: AppResult<ProviderConfiguration>,
)
    requires
        call_ensures(parse::validate_generation, (request,), valid),
        call_ensures(
            perform_generation,
            (request, provider, account, today_calls, already_reserved),
            r,
        ),
    ensures
        r is Ok <==> {
            &&& valid is Ok
            &&& provider is Ok
            &&& already_reserved || (today_calls + request.n <= old(account).daily_limit
                && request.n <= old(account).credits - old(account).reserved)
        },
        r is Ok ==> r == provider,
        r is Ok && !already_reserved ==> final(account).reserved == old(account).reserved
            + request.n,
        r is Err || already_reserved ==> final(account).reserved == old(account).reserved,
        final(account).credits == old(account).credits,
        final(account).daily_limit == old(account).daily_limit,
        valid is Err ==> r->Err_0.0 == valid->Err_0.0 && r->Err_0.1@ == valid->Err_0.1@,
        valid is Ok && provider is Err ==> r->Err_0.0 == provider->Err_0.0 && r->Err_0.1@
            == provider->Err_0.1@,
{
}

/// An edit begins exactly where its request and its images are accepted, its provider is known,
/// and it can be paid for: a batch takes one credit for each image, any other edit one for each
/// result.
pub proof fn edits_begin_when_they_can_be_paid(
    request: &EditRequest,
    generation: &GenerateRequest,
    provider: AppResult<ProviderConfiguration>,
    account: &mut Account,
    today_calls: i64,
    already_reserved: bool,
    valid: AppResult<()>,
    usable: AppResult<()>,
    r: AppResult<ProviderConfiguration>,
)
    requires
        *generation == request.generation,
        call_ensures(parse::validate_generation, (generation,), valid),
        call_ensures(parse::validate_edit_inputs, (request,), usable),
        call_ensures(perform_edit, (request, provider, account, today_calls, already_reserved), r),
    ensures
        ({
            let cost = if request.batch {
                request.images@.len() as int
            } else {
                request.generation.n as int
            };
            &&& r is Ok <==> {
                &&& valid is Ok
                &&& usable is Ok
                &&& provider is Ok
                &&& already_reserved || (today_calls + cost <= old(account).daily_limit && cost
                    <= old(account).credits - old(account).reserved)
            }
            &&& r is Ok && !already_reserved ==> final(account).reserved == old(account).reserved
                + cost
        }),
        r is Ok ==> r == provider,
        r is Err || already_reserved ==> final(account).reserved == old(account).reserved,
        final(account).credits == old(account).credits,
        final(account).daily_limit == old(account).daily_limit,
{
}

/// A call that brought an image goes on with everything that it brought; one that brought none
/// costs nothing, and its first error is told and logged.
pub proof fn calls_without_images_cost_nothing<U>(
    context: &StoreContext<'_>,
    account: &mut Account,
    collected: Collected<U>,
    r: Result<Collected<U>, (FailureRecords, AppError)>,
)
    requires
        context.reserved >= 0,
        call_ensures(conclude_call::<U>, (context, account, collected), r),
    ensures
        r is Ok <==> collected.outputs@.len() > 0,
        r matches Ok(brought) ==> brought == collected && *final(account) == *old(account),
        final(account).credits == old(account).credits,
        r is Err && context.reserved <= old(account).reserved ==> final(account).reserved == old(
            account,
        ).reserved - context.reserved,
        r is Err && context.reserved > old(account).reserved ==> final(account).reserved == 0,
        r matches Err(failed) ==> {
            &&& failed.1.0 == 502
            &&& collected.errors@.len() > 0 ==> failed.1.1@ == collected.errors@[0]@
            &&& failed.0.log.error@ == failed.1.1@
            &&& failed.0.log.status@ == "error"@
            &&& failed.0.log.credits_used == 0
            &&& failed.0.log.user_id@ == context.user_id@
            &&& failed.0.log.endpoint@ == context.endpoint@
            &&& failed.0.task is Some <==> context.task_id is Some
        },
{
    assert(text::views(collected.errors@).len() == collected.errors@.len());
    if collected.errors@.len() > 0 {
        assert(text::views(collected.errors@)[0] == collected.errors@[0]@);
    }
}

/// The answer in OpenAI's format holds every image, in order, as the upstream encoded it.
pub proof fn answers_hold_every_image<U>(
    result: GenerationResult<U>,
    created: i64,
    r: OpenAiImagesResponse<U>,
)
    requires
        call_ensures(openai_response::<U>, (result, created), r),
    ensures
        r.created == created,
        r.usage == result.usage,
        r.data@.len() == result.encoded@.len(),
        forall|i: int|
            0 <= i < r.data@.len() ==> (#[trigger] r.data@[i]).b64_json@ == result.encoded@[i]@,
{
}

} // verus!
