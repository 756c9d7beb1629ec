//! What requests and responses hold.

use vstd::prelude::*;

use crate::clock;
use crate::json::Json;

verus! {

pub const MODEL: &'static str = "gpt-image-2";

pub const SESSION_COOKIE: &'static str = "lumora_session";

pub const BAD_REQUEST: u16 = 400;

pub const UNAUTHORIZED: u16 = 401;

pub const FORBIDDEN: u16 = 403;

pub const NOT_FOUND: u16 = 404;

pub const CONFLICT: u16 = 409;

pub const PAYLOAD_TOO_LARGE: u16 = 413;

pub const UNSUPPORTED_MEDIA_TYPE: u16 = 415;

pub const UNPROCESSABLE_ENTITY: u16 = 422;

pub const TOO_MANY_REQUESTS: u16 = 429;

pub const INTERNAL_SERVER_ERROR: u16 = 500;

pub const BAD_GATEWAY: u16 = 502;

pub const SERVICE_UNAVAILABLE: u16 = 503;

pub const GATEWAY_TIMEOUT: u16 = 504;

/// A refusal: the HTTP status and the message that the client sees.
#[derive(Debug, PartialEq, Eq)]
pub struct AppError(pub u16, pub String);

pub type AppResult<T> = Result<T, AppError>;

/// A refusal of the endpoints that answer in OpenAI's format.
#[derive(Debug, PartialEq, Eq)]
pub struct OpenAiError(pub AppError);

pub type OpenAiResult<T> = Result<T, OpenAiError>;

/// Whether a result is the refusal with this status and message.
pub open spec fn refused<T>(result: AppResult<T>, status: u16, message: Seq<char>) -> bool {
    result matches Err(error) && error.0 == status && error.1@ == message
}

/// Whether a result is the given refusal, or a success where there is none.
pub open spec fn answers<T>(result: AppResult<T>, refusal: Option<(u16, Seq<char>)>) -> bool {
    match refusal {
        Some(expected) => refused(result, expected.0, expected.1),
        None => result is Ok,
    }
}

/// The refusal with this status and message.
pub fn refuse<T>(status: u16, message: &str) -> (result: AppResult<T>)
    ensures
        refused(result, status, message@),
{
    Err(AppError(status, message.to_owned()))
}

impl Clone for AppError {
    fn clone(&self) -> (r: Self)
        ensures
            r == *self,
    {
        AppError(self.0, self.1.clone())
    }
}

impl From<AppError> for OpenAiError {
    fn from(error: AppError) -> (r: Self) {
        OpenAiError(error)
    }
}

impl vstd::std_specs::convert::FromSpecImpl<AppError> for OpenAiError {
    open spec fn obeys_from_spec() -> bool {
        true
    }

    open spec fn from_spec(error: AppError) -> Self {
        OpenAiError(error)
    }
}

/// The envelope of every answer of the site's own endpoints.
#[derive(Debug, PartialEq, Eq)]
pub struct ApiResponse<T> {
    pub code: i32,
    pub message: String,
    pub data: T,
    pub timestamp: i64,
}

/// The envelope of a success, stamped with the present time in milliseconds.
pub fn api_success<T>(data: T) -> (r: ApiResponse<T>)
    ensures
        r.code == 0,
        r.message@ == "success"@,
        r.data == data,
        0 <= r.timestamp <= clock::LAST_SECOND * 1000 + 999,
{
    let now = clock::utc_now();
    ApiResponse { code: 0, message: "success".to_owned(), data, timestamp: now.millis() }
}

/// The envelope of a refusal: its code is the HTTP status.
pub fn error_envelope<T>(error: &AppError, data: T, now: clock::Moment) -> (r: ApiResponse<T>)
    requires
        now.representable(),
    ensures
        r.code == error.0,
        r.message@ == error.1@,
        r.data == data,
        r.timestamp == now.secs * 1000 + now.nanos as int / 1_000_000,
{
    ApiResponse { code: error.0 as i32, message: error.1.clone(), data, timestamp: now.millis() }
}

/// The status of the refusal that answers a rejected JSON body.
pub open spec fn json_rejection_status(status: u16) -> u16 {
    if status == UNPROCESSABLE_ENTITY {
        BAD_REQUEST
    } else {
        status
    }
}

/// The body's value, or the refusal of a body that was rejected with the given status.
pub fn api_json<T>(payload: Result<T, u16>) -> (r: AppResult<T>)
    ensures
        match payload {
            Ok(value) => r == Ok::<T, AppError>(value),
            Err(status) => refused(r, json_rejection_status(status), "JSON 参数无效"@),
        },
{
    match payload {
        Ok(value) => Ok(value),
        Err(status) => {
            let answered: u16 = if status == UNPROCESSABLE_ENTITY {
                BAD_REQUEST
            } else {
                status
            };
            refuse(answered, "JSON 参数无效")
        },
    }
}

/// The query's value, or the refusal of a query that was rejected.
pub fn api_query<T>(payload: Option<T>) -> (r: AppResult<T>)
    ensures
        match payload {
            Some(value) => r == Ok::<T, AppError>(value),
            None => refused(r, BAD_REQUEST, "查询参数无效"@),
        },
{
    match payload {
        Some(value) => Ok(value),
        None => refuse(BAD_REQUEST, "查询参数无效"),
    }
}

impl OpenAiError {
    /// The error type that OpenAI's format gives a status.
    pub open spec fn type_of(status: u16) -> Seq<char> {
        if status == UNAUTHORIZED {
            "authentication_error"@
        } else if status == FORBIDDEN {
            "permission_error"@
        } else if status == TOO_MANY_REQUESTS {
            "rate_limit_error"@
        } else if 400 <= status < 500 {
            "invalid_request_error"@
        } else {
            "api_error"@
        }
    }

    /// The error type that the answer carries.
    pub fn error_type(&self) -> (r: &'static str)
        ensures
            r@ == Self::type_of(self.0.0),
    {
        let status: u16 = self.0.0;
        if status == UNAUTHORIZED {
            "authentication_error"
        } else if status == FORBIDDEN {
            "permission_error"
        } else if status == TOO_MANY_REQUESTS {
            "rate_limit_error"
        } else if 400 <= status && status < 500 {
            "invalid_request_error"
        } else {
            "api_error"
        }
    }
}

#[derive(Debug, PartialEq, Eq)]
pub struct UserResponse {
    pub id: String,
    pub name: String,
    pub email: String,
    pub avatar: String,
    pub plan: String,
    pub credits: i64,
    pub credits_reserved: i64,
}

impl Clone for UserResponse {
    fn clone(&self) -> (r: Self)
        ensures
            r == *self,
    {
        UserResponse {
            id: self.id.clone(),
            name: self.name.clone(),
            email: self.email.clone(),
            avatar: self.avatar.clone(),
            plan: self.plan.clone(),
            credits: self.credits,
            credits_reserved: self.credits_reserved,
        }
    }
}

#[derive(Debug, PartialEq, Eq)]
pub struct ImageResponse {
    pub id: String,
    pub url: String,
    pub thumbnail_url: String,
    pub prompt: String,
    pub size: String,
    pub model: String,
    pub created_at: String,
    pub source: &'static str,
    pub format: String,
    pub is_public: bool,
    pub category: String,
    pub storage: String,
    pub author: Option<String>,
    pub reference_images: Vec<String>,
}

#[derive(Debug, PartialEq, Eq)]
pub struct ApiKeyItemResponse {
    pub id: String,
    pub name: String,
    pub masked_key: String,
    pub created_at: String,
    pub last_used: String,
    pub status: String,
    pub scope: String,
    pub needs_rotation: bool,
}

#[derive(Debug, PartialEq, Eq)]
pub struct CreatedApiKeyResponse {
    pub item: ApiKeyItemResponse,
    pub secret: String,
}

#[derive(Debug, PartialEq, Eq)]
pub struct ProviderResponse {
    pub id: String,
    pub name: String,
    pub base_url: String,
    pub masked_api_key: String,
    pub model: String,
    pub is_active: bool,
    pub created_at: String,
    pub needs_rotation: bool,
}

#[derive(Debug, PartialEq, Eq)]
pub struct AnnouncementResponse {
    pub id: String,
    pub title: String,
    pub content: String,
    pub date: String,
    pub kind: String,
    pub is_new: bool,
}

#[derive(Debug, PartialEq, Eq)]
pub struct UsageItemResponse {
    pub id: String,
    pub endpoint: String,
    pub model: String,
    pub status: String,
    pub duration_ms: i64,
    pub credits_used: i64,
    pub created_at: String,
}

#[derive(Debug, PartialEq, Eq)]
pub struct UsageResponse {
    pub today_calls: i64,
    pub daily_limit: i64,
    pub average_latency_ms: i64,
    pub items: Vec<UsageItemResponse>,
}

#[derive(Debug, PartialEq, Eq)]
pub struct AuthRequest {
    pub email: String,
    pub password: String,
    pub verification_code: Option<String>,
}

#[derive(Debug, PartialEq, Eq)]
pub struct EmailCodeRequest {
    pub email: String,
}

#[derive(Debug, PartialEq, Eq)]
pub struct UpdateProfileRequest {
    pub email: Option<String>,
    pub name: Option<String>,
    pub password: Option<String>,
    pub avatar: Option<String>,
}

#[derive(Debug, PartialEq, Eq)]
pub struct CreateApiKeyRequest {
    pub name: String,
    pub scope: String,
}

#[derive(Debug, PartialEq, Eq)]
pub struct CreateProviderRequest {
    pub name: String,
    pub base_url: String,
    pub api_key: String,
}

#[derive(Debug, PartialEq, Eq)]
pub struct GenerateRequest {
    pub prompt: String,
    pub size: String,
    pub quality: String,
    pub n: u8,
    pub is_public: bool,
    pub output_format: String,
    pub model: Option<String>,
}

impl Clone for GenerateRequest {
    fn clone(&self) -> (r: Self)
        ensures
            r == *self,
    {
        GenerateRequest {
            prompt: self.prompt.clone(),
            size: self.size.clone(),
            quality: self.quality.clone(),
            n: self.n,
            is_public: self.is_public,
            output_format: self.output_format.clone(),
            model: match &self.model {
                Some(model) => Some(model.clone()),
                None => None,
            },
        }
    }
}

#[derive(Debug, PartialEq, Eq)]
pub struct UpdateImageVisibilityRequest {
    pub is_public: bool,
}

/// An edit request whose images are JSON values.
#[derive(Debug)]
pub struct EditJsonRequest {
    pub prompt: String,
    pub images: Vec<Json>,
    pub mask: Option<Json>,
    pub size: String,
    pub quality: String,
    pub n: u8,
    pub is_public: bool,
    pub output_format: String,
    pub model: Option<String>,
    pub batch: bool,
}

#[derive(Debug, PartialEq, Eq)]
pub struct ImageInput {
    pub bytes: Vec<u8>,
    pub file_name: String,
    pub mime_type: String,
}

impl ImageInput {
    /// Whether two inputs hold the same file.
    pub open spec fn same_as(self, other: ImageInput) -> bool {
        &&& self.bytes@ == other.bytes@
        &&& self.file_name@ == other.file_name@
        &&& self.mime_type@ == other.mime_type@
    }
}

impl Clone for ImageInput {
    fn clone(&self) -> (r: Self)
        ensures
            r.same_as(*self),
    {
        ImageInput {
            bytes: self.bytes.clone(),
            file_name: self.file_name.clone(),
            mime_type: self.mime_type.clone(),
        }
    }
}

#[derive(Debug, PartialEq, Eq)]
pub struct EditRequest {
    pub generation: GenerateRequest,
    pub images: Vec<ImageInput>,
    pub mask: Option<ImageInput>,
    pub batch: bool,
}

#[derive(Debug, PartialEq, Eq)]
pub struct ConfirmTasksRequest {
    pub task_ids: Vec<String>,
}

/// An upstream answer; `U` is what it reports about its own usage.
#[derive(Debug, PartialEq, Eq)]
pub struct UpstreamResponse<U> {
    pub data: Option<Vec<UpstreamImage>>,
    pub error: Option<UpstreamError>,
    pub usage: Option<U>,
}

#[derive(Debug, PartialEq, Eq)]
pub struct UpstreamImage {
    pub b64_json: Option<String>,
}

#[derive(Debug, PartialEq, Eq)]
pub struct UpstreamError {
    pub message: Option<String>,
}

#[derive(Debug, PartialEq, Eq)]
pub struct ProviderConfiguration {
    pub id: String,
    pub base_url: String,
    pub api_key: String,
    pub model: String,
}

impl Clone for ProviderConfiguration {
    fn clone(&self) -> (r: Self)
        ensures
            r == *self,
    {
        ProviderConfiguration {
            id: self.id.clone(),
            base_url: self.base_url.clone(),
            api_key: self.api_key.clone(),
            model: self.model.clone(),
        }
    }
}

#[derive(Debug, PartialEq, Eq)]
pub struct ApiPrincipal {
    pub user: UserResponse,
    pub scope: String,
}

#[derive(Debug, PartialEq, Eq)]
pub struct OpenAiImageData {
    pub b64_json: String,
}

/// An answer in OpenAI's format; `U` is what the upstream reported about its usage.
#[derive(Debug, PartialEq, Eq)]
pub struct OpenAiImagesResponse<U> {
    pub created: i64,
    pub data: Vec<OpenAiImageData>,
    pub usage: Option<U>,
}

pub fn default_size() -> (r: String)
    ensures
        r@ == "1024x1024"@,
{
    "1024x1024".to_owned()
}

pub fn default_quality() -> (r: String)
    ensures
        r@ == "auto"@,
{
    "auto".to_owned()
}

pub fn default_count() -> (r: u8)
    ensures
        r == 1,
{
    1
}

pub fn default_output_format() -> (r: String)
    ensures
        r@ == "png"@,
{
    "png".to_owned()
}

/// A success carries its data, under the code zero.
pub proof fn successes_carry_their_data<T>(data: T, r: ApiResponse<T>)
    requires
        call_ensures(api_success::<T>, (data,), r),
    ensures
        r.code == 0,
        r.message@ == "success"@,
        r.data == data,
        r.timestamp >= 0,
{
}

/// A refusal is told with its own status and message, stamped in milliseconds.
pub proof fn refusals_are_told_as_they_are<T>(
    error: &AppError,
    data: T,
    now: clock::Moment,
    millis: i64,
    r: ApiResponse<T>,
)
    requires
        now.representable(),
        call_ensures(clock::Moment::millis, (&now,), millis),
        call_ensures(error_envelope::<T>, (error, data, now), r),
    ensures
        r.code == error.0,
        r.message@ == error.1@,
        r.data == data,
        r.timestamp == millis,
{
}

/// A body that was read is handed on; a rejected one is refused with its status, but as a bad
/// request where it was merely unprocessable.
pub proof fn bodies_are_handed_on<T>(payload: Result<T, u16>, r: AppResult<T>)
    requires
        call_ensures(api_json::<T>, (payload,), r),
    ensures
        payload matches Ok(value) ==> r is Ok && r->Ok_0 == value,
        payload matches Err(status) ==> r is Err && r->Err_0.0 == if status == 422 {
            400
        } else {
            status
        },
{
}

/// A query that was read is handed on; a rejected one is a bad request.
pub proof fn queries_are_handed_on<T>(payload: Option<T>, r: AppResult<T>)
    requires
        call_ensures(api_query::<T>, (payload,), r),
    ensures
        payload matches Some(value) ==> r is Ok && r->Ok_0 == value,
        payload is None ==> r is Err && r->Err_0.0 == 400,
{
}

/// Errors in OpenAI's format have a type by their status.
pub proof fn error_types_follow_the_status(error: OpenAiError, r: &'static str)
    requires
        call_ensures(OpenAiError::error_type, (&error,), r),
    ensures
        error.0.0 == 401 ==> r@ == "authentication_error"@,
        error.0.0 == 403 ==> r@ == "permission_error"@,
        error.0.0 == 429 ==> r@ == "rate_limit_error"@,
        400 <= error.0.0 <= 499 && error.0.0 != 401 && error.0.0 != 403 && error.0.0 != 429 ==> r@
            == "invalid_request_error"@,
        error.0.0 < 400 || error.0.0 > 499 ==> r@ == "api_error"@,
{
}

/// Requests that leave something out ask for one square image of the usual quality and format.
pub proof fn defaults_are_offered(size: String, quality: String, count: u8, format: String)
    requires
        call_ensures(default_size, (), size),
        call_ensures(default_quality, (), quality),
        call_ensures(default_count, (), count),
        call_ensures(default_output_format, (), format),
    ensures
        size@ == "1024x1024"@,
        quality@ == "auto"@,
        count == 1,
        format@ == "png"@,
{
}

/// A refusal carries the status and the message that it is given.
pub proof fn refusals_carry_what_they_are_given<T>(status: u16, message: &str, r: AppResult<T>)
    requires
        call_ensures(refuse::<T>, (status, message), r),
    ensures
        r is Err,
        r->Err_0.0 == status,
        r->Err_0.1@ == message@,
{
}

} // verus!
