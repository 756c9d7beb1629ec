//! Reading and checking what a client asks for.

use vstd::prelude::*;

use crate::encoding;
use crate::encoding::Base64Error;
use crate::json::Json;
use crate::model;
use crate::model::{
    default_output_format, default_quality, default_size, refuse, AppError, AppResult, EditJsonRequest,
    EditRequest, GenerateRequest, ImageInput, BAD_REQUEST, MODEL, PAYLOAD_TOO_LARGE, UNSUPPORTED_MEDIA_TYPE,
};
use crate::table::Table;
use crate::text;

verus! {

/// The most bytes of an edit request.
pub const MAX_EDIT_BODY: usize = 104_857_600;

/// The most bytes of one image.
pub const MAX_IMAGE_BYTES: usize = 52_428_800;

/// The format and MIME type that the first bytes of a file show.
pub open spec fn format_of(bytes: Seq<u8>) -> Option<(Seq<char>, Seq<char>)> {
    if is_png(bytes) {
        Some(("png"@, "image/png"@))
    } else if is_jpeg(bytes) {
        Some(("jpeg"@, "image/jpeg"@))
    } else if is_webp(bytes) {
        Some(("webp"@, "image/webp"@))
    } else {
        None
    }
}

/// The signature `\x89PNG\r\n\x1a\n`.
pub open spec fn is_png(bytes: Seq<u8>) -> bool {
    seq![0x89u8, 0x50, 0x4E, 0x47, 0x0D, 0x0A, 0x1A, 0x0A].is_prefix_of(bytes)
}

/// The start of a JPEG stream.
pub open spec fn is_jpeg(bytes: Seq<u8>) -> bool {
    seq![0xFFu8, 0xD8, 0xFF].is_prefix_of(bytes)
}

/// A RIFF container that holds WebP.
pub open spec fn is_webp(bytes: Seq<u8>) -> bool {
    &&& bytes.len() >= 12
    &&& bytes.subrange(0, 4) == seq![0x52u8, 0x49, 0x46, 0x46]
    &&& bytes.subrange(8, 12) == seq![0x57u8, 0x45, 0x42, 0x50]
}

/// The file extension of an image: its format, or `png` where the bytes show none.
pub open spec fn extension_of(bytes: Seq<u8>) -> Seq<char> {
    match format_of(bytes) {
        Some(found) => found.0,
        None => "png"@,
    }
}

/// What `detect_image_format` hands out, as texts.
pub open spec fn format_view(found: Option<(&'static str, &'static str)>) -> Option<
    (Seq<char>, Seq<char>),
> {
    match found {
        Some(pair) => Some((pair.0@, pair.1@)),
        None => None,
    }
}

/// The format and MIME type that the first bytes of a file show.
pub fn detect_image_format(bytes: &[u8]) -> (r: Option<(&'static str, &'static str)>)
    ensures
        format_view(r) == format_of(bytes@),
{
    let n: usize = bytes.len();
    let png = n >= 8 && bytes[0] == 0x89 && bytes[1] == 0x50 && bytes[2] == 0x4E && bytes[3] == 0x47
        && bytes[4] == 0x0D && bytes[5] == 0x0A && bytes[6] == 0x1A && bytes[7] == 0x0A;
    proof {
        let signature = seq![0x89u8, 0x50, 0x4E, 0x47, 0x0D, 0x0A, 0x1A, 0x0A];
        if png {
            assert(bytes@.subrange(0, 8) =~= signature);
        }
        if is_png(bytes@) {
            assert(signature[0] == bytes@[0] && signature[1] == bytes@[1] && signature[2] == bytes@[2]
                && signature[3] == bytes@[3] && signature[4] == bytes@[4] && signature[5]
                == bytes@[5] && signature[6] == bytes@[6] && signature[7] == bytes@[7]);
        }
        assert(png == is_png(bytes@));
    }
    let jpeg = n >= 3 && bytes[0] == 0xFF && bytes[1] == 0xD8 && bytes[2] == 0xFF;
    proof {
        let signature = seq![0xFFu8, 0xD8, 0xFF];
        if jpeg {
            assert(bytes@.subrange(0, 3) =~= signature);
        }
        if is_jpeg(bytes@) {
            assert(signature[0] == bytes@[0] && signature[1] == bytes@[1] && signature[2]
                == bytes@[2]);
        }
        assert(jpeg == is_jpeg(bytes@));
    }
    let webp = n >= 12 && bytes[0] == 0x52 && bytes[1] == 0x49 && bytes[2] == 0x46 && bytes[3]
        == 0x46 && bytes[8] == 0x57 && bytes[9] == 0x45 && bytes[10] == 0x42 && bytes[11] == 0x50;
    proof {
        let head = seq![0x52u8, 0x49, 0x46, 0x46];
        let tail = seq![0x57u8, 0x45, 0x42, 0x50];
        if webp {
            assert(bytes@.subrange(0, 4) =~= head);
            assert(bytes@.subrange(8, 12) =~= tail);
        }
        if is_webp(bytes@) {
            let first = bytes@.subrange(0, 4);
            let second = bytes@.subrange(8, 12);
            assert(first[0] == head[0] && first[1] == head[1] && first[2] == head[2] && first[3]
                == head[3]);
            assert(second[0] == tail[0] && second[1] == tail[1] && second[2] == tail[2] && second[3]
                == tail[3]);
        }
        assert(webp == is_webp(bytes@));
    }
    if png {
        Some(("png", "image/png"))
    } else if jpeg {
        Some(("jpeg", "image/jpeg"))
    } else if webp {
        Some(("webp", "image/webp"))
    } else {
        None
    }
}

/// The file extension of an image: its format, or `png` where the bytes show none.
pub fn image_extension(bytes: &[u8]) -> (r: &'static str)
    ensures
        r@ == extension_of(bytes@),
{
    match detect_image_format(bytes) {
        Some(found) => found.0,
        None => "png",
    }
}

/// The sides and areas that the upstream draws.
pub open spec fn dimensions_allowed(width: int, height: int) -> bool {
    let long = if width > height {
        width
    } else {
        height
    };
    let short = if width > height {
        height
    } else {
        width
    };
    &&& width > 0
    &&& height > 0
    &&& long <= 7168
    &&& width % 16 == 0
    &&& height % 16 == 0
    &&& long <= 3 * short
    &&& 655_360 <= width * height <= 29_360_128
}

/// Whether a text is `auto` or names an allowed size, as in `1024x1024`.
pub open spec fn size_allowed(size: Seq<char>) -> bool {
    ||| size == "auto"@
    ||| match text::cut_at(size, 'x') {
        Some((width, height)) => match (
            text::parsed_within(width, u64::MAX as nat),
            text::parsed_within(height, u64::MAX as nat),
        ) {
            (Some(w), Some(h)) => dimensions_allowed(w as int, h as int),
            _ => false,
        },
        None => false,
    }
}

/// Why a size is refused, if it is.
pub open spec fn size_refusal(size: Seq<char>) -> Option<(u16, Seq<char>)> {
    if size_allowed(size) {
        None
    } else {
        Some((BAD_REQUEST, "图片尺寸无效"@))
    }
}

/// Whether the upstream draws images with these sides.
fn check_dimensions(width: u64, height: u64) -> (r: bool)
    ensures
        r == dimensions_allowed(width as int, height as int),
{
    let long: u64 = if width > height {
        width
    } else {
        height
    };
    let short: u64 = if width > height {
        height
    } else {
        width
    };
    if width == 0 || height == 0 || long > 7168 || width % 16 != 0 || height % 16 != 0 {
        return false;
    }
    assert(width * height <= 7168 * 7168) by (nonlinear_arith)
        requires
            width <= 7168,
            height <= 7168,
    ;
    let pixels: u64 = width * height;
    long <= short * 3 && 655_360 <= pixels && pixels <= 29_360_128
}

/// Accepts `auto` and the sizes that the upstream draws.
pub fn validate_size(size: &str) -> (r: AppResult<()>)
    ensures
        model::answers(r, size_refusal(size@)),
{
    if text::same(size, "auto") {
        return Ok(());
    }
    match text::split_once(size, 'x') {
        Some((width_text, height_text)) => {
            let width = text::parse_within(width_text.as_str(), u64::MAX);
            let height = text::parse_within(height_text.as_str(), u64::MAX);
            match (width, height) {
                (Some(w), Some(h)) => {
                    if check_dimensions(w, h) {
                        return Ok(());
                    }
                },
                _ => {},
            }
        },
        None => {},
    }
    refuse(BAD_REQUEST, "图片尺寸无效")
}

/// Why a generation request is refused, if it is; the first reason counts.
pub open spec fn generation_refusal(request: GenerateRequest) -> Option<(u16, Seq<char>)> {
    let prompt = text::trimmed(request.prompt@);
    if prompt.len() == 0 || vstd::utf8::encode_utf8(prompt).len() > 32_000 {
        Some((BAD_REQUEST, "提示词长度无效"@))
    } else if request.model is Some && request.model->0@ != MODEL@ {
        Some((BAD_REQUEST, "模型不受支持"@))
    } else if !(1 <= request.n <= 4) {
        Some((BAD_REQUEST, "n 必须为 1-4"@))
    } else if !quality_allowed(request.quality@) {
        Some((BAD_REQUEST, "图片质量无效"@))
    } else if !output_format_allowed(request.output_format@) {
        Some((BAD_REQUEST, "输出格式无效"@))
    } else {
        size_refusal(request.size@)
    }
}

pub open spec fn quality_allowed(quality: Seq<char>) -> bool {
    quality == "auto"@ || quality == "low"@ || quality == "medium"@ || quality == "high"@
}

pub open spec fn output_format_allowed(format: Seq<char>) -> bool {
    format == "png"@ || format == "jpeg"@ || format == "webp"@
}

/// Accepts the generation requests that the upstream can serve.
pub fn validate_generation(request: &GenerateRequest) -> (r: AppResult<()>)
    ensures
        model::answers(r, generation_refusal(*request)),
{
    let prompt = text::trim(request.prompt.as_str());
    if text::characters(prompt).len() == 0 || text::byte_len(prompt) > 32_000 {
        return refuse(BAD_REQUEST, "提示词长度无效");
    }
    match &request.model {
        Some(model) => {
            if !text::same(model.as_str(), MODEL) {
                return refuse(BAD_REQUEST, "模型不受支持");
            }
        },
        None => {},
    }
    if request.n < 1 || request.n > 4 {
        return refuse(BAD_REQUEST, "n 必须为 1-4");
    }
    let quality = request.quality.as_str();
    if !(text::same(quality, "auto") || text::same(quality, "low") || text::same(quality, "medium")
        || text::same(quality, "high")) {
        return refuse(BAD_REQUEST, "图片质量无效");
    }
    let format = request.output_format.as_str();
    if !(text::same(format, "png") || text::same(format, "jpeg") || text::same(format, "webp")) {
        return refuse(BAD_REQUEST, "输出格式无效");
    }
    validate_size(request.size.as_str())
}

/// Why one input image is refused, if it is.
pub open spec fn input_refusal(bytes: Seq<u8>) -> Option<(u16, Seq<char>)> {
    if bytes.len() == 0 || bytes.len() > MAX_IMAGE_BYTES {
        Some((PAYLOAD_TOO_LARGE, "图片文件过大"@))
    } else if format_of(bytes) is None {
        Some((BAD_REQUEST, "仅支持 PNG、JPEG 和 WebP 图片"@))
    } else {
        None
    }
}

/// The refusal of the first input that is refused.
pub open spec fn first_input_refusal(inputs: Seq<ImageInput>) -> Option<(u16, Seq<char>)>
    decreases inputs.len(),
{
    if inputs.len() == 0 {
        None
    } else {
        match input_refusal(inputs[0].bytes@) {
            Some(refusal) => Some(refusal),
            None => first_input_refusal(inputs.skip(1)),
        }
    }
}

/// The images of an edit, then its mask.
pub open spec fn edit_inputs(request: EditRequest) -> Seq<ImageInput> {
    match request.mask {
        Some(mask) => request.images@.push(mask),
        None => request.images@,
    }
}

/// Why the images of an edit are refused, if they are.
pub open spec fn edit_refusal(request: EditRequest) -> Option<(u16, Seq<char>)> {
    if request.images@.len() == 0 || request.images@.len() > 4 {
        Some((BAD_REQUEST, "参考图片数量必须为 1-4"@))
    } else {
        first_input_refusal(edit_inputs(request))
    }
}

fn validate_input(input: &ImageInput) -> (r: AppResult<()>)
    ensures
        model::answers(r, input_refusal(input.bytes@)),
{
    if input.bytes.len() == 0 || input.bytes.len() > MAX_IMAGE_BYTES {
        return refuse(PAYLOAD_TOO_LARGE, "图片文件过大");
    }
    if detect_image_format(&input.bytes).is_none() {
        return refuse(BAD_REQUEST, "仅支持 PNG、JPEG 和 WebP 图片");
    }
    Ok(())
}

/// Accepts one to four images of a known format, and a mask of one.
pub fn validate_edit_inputs(request: &EditRequest) -> (r: AppResult<()>)
    ensures
        model::answers(r, edit_refusal(*request)),
{
    if request.images.len() == 0 || request.images.len() > 4 {
        return refuse(BAD_REQUEST, "参考图片数量必须为 1-4");
    }
    let ghost all = edit_inputs(*request);
    let mut i: usize = 0;
    assert(all.skip(0) == all);
    while i < request.images.len()
        invariant
            i <= request.images@.len(),
            all == edit_inputs(*request),
            first_input_refusal(all) == first_input_refusal(all.skip(i as int)),
            0 < request.images@.len() <= 4,
        decreases request.images@.len() - i,
    {
        assert(all.skip(i as int)[0] == request.images@[i as int]);
        assert(all.skip(i as int).skip(1) == all.skip(i + 1));
        match validate_input(&request.images[i]) {
            Ok(()) => {},
            Err(error) => {
                return Err(error);
            },
        }
        i += 1;
    }
    match &request.mask {
        Some(mask) => {
            assert(all.skip(i as int)[0] == *mask);
            assert(all.skip(i as int).skip(1) == Seq::<ImageInput>::empty());
            proof {
                reveal_with_fuel(first_input_refusal, 2);
            }
            validate_input(mask)
        },
        None => {
            assert(all.skip(i as int) == Seq::<ImageInput>::empty());
            Ok(())
        },
    }
}

/// How the body of an edit request is written.
#[derive(Clone, Copy, Debug, PartialEq, Eq, Structural)]
pub enum EditBody {
    Json,
    Multipart,
}

/// The body that a content type announces.
pub open spec fn body_of(content_type: Seq<char>) -> Option<EditBody> {
    if "application/json"@.is_prefix_of(content_type) {
        Some(EditBody::Json)
    } else if "multipart/form-data"@.is_prefix_of(content_type) {
        Some(EditBody::Multipart)
    } else {
        None
    }
}

/// The body that a content type announces; any other content type is refused.
pub fn edit_body(content_type: &str) -> (r: AppResult<EditBody>)
    ensures
        match body_of(content_type@) {
            Some(body) => r == Ok::<EditBody, AppError>(body),
            None => model::refused(
                r,
                UNSUPPORTED_MEDIA_TYPE,
                "编辑请求必须使用 multipart/form-data 或 application/json"@,
            ),
        },
{
    if text::starts_with(content_type, "application/json") {
        return Ok(EditBody::Json);
    }
    if text::starts_with(content_type, "multipart/form-data") {
        return Ok(EditBody::Multipart);
    }
    refuse(
        UNSUPPORTED_MEDIA_TYPE,
        "编辑请求必须使用 multipart/form-data 或 application/json",
    )
}

/// What a form field stands for.
#[derive(Clone, Copy, Debug, PartialEq, Eq, Structural)]
pub enum FieldRole {
    Image,
    Mask,
    Text,
}

/// What the form field with this name stands for.
pub open spec fn role_of(name: Seq<char>) -> FieldRole {
    if name == "image"@ || name == "image[]"@ || name == "images"@ {
        FieldRole::Image
    } else if name == "mask"@ {
        FieldRole::Mask
    } else {
        FieldRole::Text
    }
}

/// What the form field with this name stands for.
pub fn field_role(name: &str) -> (r: FieldRole)
    ensures
        r == role_of(name@),
{
    if text::same(name, "image") || text::same(name, "image[]") || text::same(name, "images") {
        FieldRole::Image
    } else if text::same(name, "mask") {
        FieldRole::Mask
    } else {
        FieldRole::Text
    }
}

/// What an edit form has brought so far.
#[derive(Debug)]
pub struct EditForm {
    pub fields: Table<String>,
    pub images: Vec<ImageInput>,
    pub mask: Option<ImageInput>,
}

/// The text of a form field, if it is there.
pub open spec fn field(fields: Map<Seq<char>, String>, name: Seq<char>) -> Option<Seq<char>> {
    if fields.contains_key(name) {
        Some(fields[name]@)
    } else {
        None
    }
}

/// The text of a form field, or of another where the first is not there.
pub open spec fn either_field(
    fields: Map<Seq<char>, String>,
    name: Seq<char>,
    other: Seq<char>,
) -> Option<Seq<char>> {
    if fields.contains_key(name) {
        Some(fields[name]@)
    } else {
        field(fields, other)
    }
}

/// The request that the texts of a form describe.
pub open spec fn describes_generation(
    fields: Map<Seq<char>, String>,
    request: GenerateRequest,
) -> bool {
    &&& request.prompt@ == text::or_text(field(fields, "prompt"@), ""@)
    &&& request.size@ == text::or_text(field(fields, "size"@), "1024x1024"@)
    &&& request.quality@ == text::or_text(field(fields, "quality"@), "auto"@)
    &&& request.n as nat == match field(fields, "n"@) {
        Some(value) => match text::parsed_within(value, 255) {
            Some(count) => count,
            None => 1,
        },
        None => 1,
    }
    &&& request.is_public == (either_field(fields, "isPublic"@, "is_public"@) == Some("true"@))
    &&& request.output_format@ == text::or_text(
        either_field(fields, "output_format"@, "outputFormat"@),
        "png"@,
    )
    &&& text::opt(request.model) == field(fields, "model"@)
}

/// The text of a field, or another text.
fn field_or(fields: &Table<String>, name: &str, fallback: String) -> (r: String)
    requires
        fields.wf(),
    ensures
        r@ == text::or_text(field(fields.view(), name@), fallback@),
{
    match fields.get(name) {
        Some(value) => value.clone(),
        None => fallback,
    }
}

/// Whether a field says `true`.
fn says_true(value: Option<&String>) -> (r: bool)
    ensures
        r == (value is Some && value->0@ == "true"@),
{
    match value {
        Some(held) => text::same(held.as_str(), "true"),
        None => false,
    }
}

impl EditForm {
    pub open spec fn wf(self) -> bool {
        self.fields.wf()
    }

    /// The form before its first field.
    pub fn new() -> (r: Self)
        ensures
            r.wf(),
            r.fields.view() == Map::<Seq<char>, String>::empty(),
            r.images@ == Seq::<ImageInput>::empty(),
            r.mask is None,
    {
        EditForm { fields: Table::new(), images: Vec::new(), mask: None }
    }

    /// Takes a text field in; a later one of the same name replaces an earlier one.
    pub fn add_text(&mut self, name: &str, value: String)
        requires
            old(self).wf(),
        ensures
            final(self).wf(),
            final(self).fields.view() == old(self).fields.view().insert(name@, value),
            final(self).images == old(self).images,
            final(self).mask == old(self).mask,
    {
        self.fields.insert(name, value);
    }

    /// Takes an image in, behind those that are there.
    pub fn add_image(&mut self, image: ImageInput)
        requires
            old(self).wf(),
        ensures
            final(self).wf(),
            final(self).fields == old(self).fields,
            final(self).images@ == old(self).images@.push(image),
            final(self).mask == old(self).mask,
    {
        self.images.push(image);
    }

    /// Takes a mask in; a later one replaces an earlier one.
    pub fn set_mask(&mut self, mask: ImageInput)
        requires
            old(self).wf(),
        ensures
            final(self).wf(),
            final(self).fields == old(self).fields,
            final(self).images == old(self).images,
            final(self).mask == Some(mask),
    {
        self.mask = Some(mask);
    }

    /// The request that the form describes.
    pub fn finish(self) -> (r: EditRequest)
        requires
            self.wf(),
        ensures
            describes_generation(self.fields.view(), r.generation),
            r.images == self.images,
            r.mask == self.mask,
            r.batch == (field(self.fields.view(), "batch"@) == Some("true"@)),
    {
        let count: u8 = match self.fields.get("n") {
            Some(value) => match text::parse_within(value.as_str(), 255) {
                Some(parsed) => parsed as u8,
                None => 1,
            },
            None => 1,
        };
        let is_public = match self.fields.get("isPublic") {
            Some(value) => text::same(value.as_str(), "true"),
            None => says_true(self.fields.get("is_public")),
        };
        let output_format = match self.fields.get("output_format") {
            Some(value) => value.clone(),
            None => field_or(&self.fields, "outputFormat", default_output_format()),
        };
        let model = match self.fields.get("model") {
            Some(value) => Some(value.clone()),
            None => None,
        };
        let generation = GenerateRequest {
            prompt: field_or(&self.fields, "prompt", "".to_owned()),
            size: field_or(&self.fields, "size", default_size()),
            quality: field_or(&self.fields, "quality", default_quality()),
            n: count,
            is_public,
            output_format,
            model,
        };
        let batch = says_true(self.fields.get("batch"));
        EditRequest { generation, images: self.images, mask: self.mask, batch }
    }
}

/// Why an uploaded file is refused, if it is.
pub open spec fn upload_refusal(declared_type: Seq<char>, bytes: Seq<u8>) -> Option<
    (u16, Seq<char>),
> {
    if bytes.len() > MAX_IMAGE_BYTES {
        Some((PAYLOAD_TOO_LARGE, "图片文件过大"@))
    } else if format_of(bytes) is None {
        Some((BAD_REQUEST, "图片格式无效"@))
    } else if declared_type.len() > 0 && !"image/"@.is_prefix_of(declared_type) {
        Some((BAD_REQUEST, "图片类型无效"@))
    } else {
        None
    }
}

/// The image that an uploaded file is: its type is what its bytes show, whatever was declared.
pub fn input_from_upload(
    file_name: Option<&str>,
    declared_type: Option<&str>,
    bytes: Vec<u8>,
) -> (r: AppResult<ImageInput>)
    ensures
        model::answers(
            r,
            upload_refusal(text::or_text(text::opt_str(declared_type), ""@), bytes@),
        ),
        r matches Ok(input) ==> input.bytes@ == bytes@ && input.file_name@ == text::or_text(
            text::opt_str(file_name),
            "image"@,
        ) && Some(input.mime_type@) == mime_of(bytes@),
{
    let name = match file_name {
        Some(given) => given.to_owned(),
        None => "image".to_owned(),
    };
    let declared = match declared_type {
        Some(given) => given,
        None => "",
    };
    if bytes.len() > MAX_IMAGE_BYTES {
        return refuse(PAYLOAD_TOO_LARGE, "图片文件过大");
    }
    match detect_image_format(&bytes) {
        Some(found) => {
            if text::characters(declared).len() > 0 && !text::starts_with(declared, "image/") {
                return refuse(BAD_REQUEST, "图片类型无效");
            }
            Ok(ImageInput { bytes, file_name: name, mime_type: found.1.to_owned() })
        },
        None => refuse(BAD_REQUEST, "图片格式无效"),
    }
}

/// The MIME type that the first bytes of a file show.
pub open spec fn mime_of(bytes: Seq<u8>) -> Option<Seq<char>> {
    match format_of(bytes) {
        Some(found) => Some(found.1),
        None => None,
    }
}

/// What a `data:` URL holds: the encoded bytes and the declared type; or why it is refused.
pub open spec fn data_url(value: Seq<char>) -> Result<(Seq<char>, Seq<char>), Seq<char>> {
    if !"data:"@.is_prefix_of(value) {
        Err("仅支持 data URL 或 base64 图片，不支持远程 URL"@)
    } else {
        match text::cut_at(value.skip("data:"@.len() as int), ',') {
            None => Err("data URL 无效"@),
            Some((metadata, encoded)) => if ";base64"@.is_suffix_of(metadata) {
                Ok((encoded, metadata.take(metadata.len() - ";base64"@.len())))
            } else {
                Err("data URL 必须使用 base64"@)
            },
        }
    }
}

/// The encoded bytes and the declared type of a `data:` URL.
pub fn parse_data_url(value: &str) -> (r: AppResult<(String, String)>)
    ensures
        match data_url(value@) {
            Ok(parts) => r matches Ok(held) && held.0@ == parts.0 && held.1@ == parts.1,
            Err(message) => model::refused(r, BAD_REQUEST, message),
        },
{
    match text::strip_prefix(value, "data:") {
        None => refuse(
            BAD_REQUEST,
            "仅支持 data URL 或 base64 图片，不支持远程 URL",
        ),
        Some(rest) => match text::split_once(rest, ',') {
            None => refuse(BAD_REQUEST, "data URL 无效"),
            Some((metadata, encoded)) => match text::strip_suffix(metadata.as_str(), ";base64") {
                None => refuse(BAD_REQUEST, "data URL 必须使用 base64"),
                Some(mime_type) => Ok((encoded, mime_type.to_owned())),
            },
        },
    }
}

/// Where a JSON image names its bytes: encoded bytes, declared type and file name; or why it is
/// refused.
pub open spec fn json_image(value: Json, fallback_name: Seq<char>) -> Result<
    (Seq<char>, Seq<char>, Seq<char>),
    Seq<char>,
> {
    if value is Text {
        with_name(data_url(value->Text_0@), fallback_name)
    } else if value is Object {
        match value.member_text("b64_json"@) {
            Some(encoded) => Ok(
                (
                    encoded,
                    text::or_text(value.member_text("mime_type"@), "image/png"@),
                    text::or_text(value.member_text("filename"@), fallback_name),
                ),
            ),
            None => match value.member("image_url"@) {
                None => Err("图片 JSON 格式无效"@),
                Some(url) => match url_text(url) {
                    Some(address) => with_name(data_url(address), fallback_name),
                    None => Err("image_url 无效"@),
                },
            },
        }
    } else {
        Err("图片 JSON 格式无效"@)
    }
}

/// The address in an `image_url` member: the text itself, or that of its member `url`.
pub open spec fn url_text(url: Json) -> Option<Seq<char>> {
    match url.text() {
        Some(address) => Some(address),
        None => url.member_text("url"@),
    }
}

/// The parts of a `data:` URL together with a file name.
pub open spec fn with_name(
    parts: Result<(Seq<char>, Seq<char>), Seq<char>>,
    name: Seq<char>,
) -> Result<(Seq<char>, Seq<char>, Seq<char>), Seq<char>> {
    match parts {
        Ok(held) => Ok((held.0, held.1, name)),
        Err(message) => Err(message),
    }
}

/// Why decoded bytes with a declared type are refused, if they are.
pub open spec fn decoded_refusal(declared_type: Seq<char>, bytes: Seq<u8>) -> Option<
    (u16, Seq<char>),
> {
    if bytes.len() > MAX_IMAGE_BYTES {
        Some((PAYLOAD_TOO_LARGE, "图片文件过大"@))
    } else if format_of(bytes) is None {
        Some((BAD_REQUEST, "图片格式无效"@))
    } else if !"image/"@.is_prefix_of(declared_type) {
        Some((BAD_REQUEST, "图片类型无效"@))
    } else {
        None
    }
}

/// Why a JSON image is refused, if it is.
pub open spec fn json_image_refusal(value: Json, fallback_name: Seq<char>) -> Option<
    (u16, Seq<char>),
> {
    match json_image(value, fallback_name) {
        Err(message) => Some((BAD_REQUEST, message)),
        Ok(parts) => match encoding::base64_bytes(parts.0) {
            Err(_) => Some((BAD_REQUEST, "图片 base64 无效"@)),
            Ok(bytes) => decoded_refusal(parts.1, bytes),
        },
    }
}

/// Whether an input is the one that a JSON image describes.
pub open spec fn json_image_is(value: Json, fallback_name: Seq<char>, input: ImageInput) -> bool {
    match json_image(value, fallback_name) {
        Err(_) => false,
        Ok(parts) => {
            &&& encoding::base64_bytes(parts.0) == Ok::<Seq<u8>, Base64Error>(input.bytes@)
            &&& input.file_name@ == parts.2
            &&& Some(input.mime_type@) == mime_of(input.bytes@)
        },
    }
}

/// Where a JSON image names its bytes.
fn json_image_parts(value: &Json, fallback_name: &str) -> (r: AppResult<(String, String, String)>)
    ensures
        match json_image(*value, fallback_name@) {
            Ok(parts) => r matches Ok(held) && held.0@ == parts.0 && held.1@ == parts.1 && held.2@
                == parts.2,
            Err(message) => model::refused(r, BAD_REQUEST, message),
        },
{
    match value {
        Json::Text(address) => match parse_data_url(address.as_str()) {
            Ok((encoded, declared)) => Ok((encoded, declared, fallback_name.to_owned())),
            Err(error) => Err(error),
        },
        Json::Object(_) => match value.get_str("b64_json") {
            Some(encoded) => {
                let declared = match value.get_str("mime_type") {
                    Some(given) => given.to_owned(),
                    None => "image/png".to_owned(),
                };
                let name = match value.get_str("filename") {
                    Some(given) => given.to_owned(),
                    None => fallback_name.to_owned(),
                };
                Ok((encoded.to_owned(), declared, name))
            },
            None => match value.get("image_url") {
                None => refuse(BAD_REQUEST, "图片 JSON 格式无效"),
                Some(url) => {
                    let address = match url.as_str() {
                        Some(given) => Some(given),
                        None => url.get_str("url"),
                    };
                    match address {
                        None => refuse(BAD_REQUEST, "image_url 无效"),
                        Some(given) => match parse_data_url(given) {
                            Ok((encoded, declared)) => Ok(
                                (encoded, declared, fallback_name.to_owned()),
                            ),
                            Err(error) => Err(error),
                        },
                    }
                },
            },
        },
        _ => refuse(BAD_REQUEST, "图片 JSON 格式无效"),
    }
}

/// The image that decoded bytes are, with the declared type and file name given.
pub fn input_from_decoded(bytes: Vec<u8>, declared_type: &str, file_name: String) -> (r: AppResult<
    ImageInput,
>)
    ensures
        model::answers(r, decoded_refusal(declared_type@, bytes@)),
        r matches Ok(input) ==> input.bytes@ == bytes@ && input.file_name@ == file_name@ && Some(
            input.mime_type@,
        ) == mime_of(bytes@),
{
    if bytes.len() > MAX_IMAGE_BYTES {
        return refuse(PAYLOAD_TOO_LARGE, "图片文件过大");
    }
    match detect_image_format(&bytes) {
        Some(found) => {
            if !text::starts_with(declared_type, "image/") {
                return refuse(BAD_REQUEST, "图片类型无效");
            }
            Ok(ImageInput { bytes, file_name, mime_type: found.1.to_owned() })
        },
        None => refuse(BAD_REQUEST, "图片格式无效"),
    }
}

/// The image that a JSON value holds: a `data:` URL, or an object with base64 or such a URL.
pub fn image_input_from_json(value: &Json, fallback_name: &str) -> (r: AppResult<ImageInput>)
    ensures
        model::answers(r, json_image_refusal(*value, fallback_name@)),
        r matches Ok(input) ==> json_image_is(*value, fallback_name@, input),
{
    match json_image_parts(value, fallback_name) {
        Err(error) => Err(error),
        Ok((encoded, declared, name)) => match encoding::base64_decode(encoded.as_str()) {
            Err(_) => refuse(BAD_REQUEST, "图片 base64 无效"),
            Ok(bytes) => input_from_decoded(bytes, declared.as_str(), name),
        },
    }
}

/// The file name of the image at an index that brings none of its own.
pub open spec fn default_name(index: int) -> Seq<char> {
    "image-"@ + text::digits(index as nat)
}

/// The refusal of the first JSON image, from an index on, that is refused.
pub open spec fn json_images_refusal(images: Seq<Json>, from: int) -> Option<(u16, Seq<char>)>
    decreases images.len() - from,
{
    if from < 0 || from >= images.len() {
        None
    } else {
        match json_image_refusal(images[from], default_name(from)) {
            Some(refusal) => Some(refusal),
            None => json_images_refusal(images, from + 1),
        }
    }
}

/// Why a JSON edit request is refused, if it is: its images come first, then the mask.
pub open spec fn edit_json_refusal(request: EditJsonRequest) -> Option<(u16, Seq<char>)> {
    match json_images_refusal(request.images@, 0) {
        Some(refusal) => Some(refusal),
        None => match request.mask {
            Some(mask) => json_image_refusal(mask, "mask"@),
            None => None,
        },
    }
}

/// Whether an edit request is the one that a JSON request describes.
pub open spec fn edit_json_is(request: EditJsonRequest, edit: EditRequest) -> bool {
    &&& edit.generation == (GenerateRequest {
        prompt: request.prompt,
        size: request.size,
        quality: request.quality,
        n: request.n,
        is_public: request.is_public,
        output_format: request.output_format,
        model: request.model,
    })
    &&& edit.images@.len() == request.images@.len()
    &&& forall|i: int|
        0 <= i < edit.images@.len() ==> json_image_is(
            request.images@[i],
            default_name(i),
            #[trigger] edit.images@[i],
        )
    &&& match request.mask {
        Some(mask) => edit.mask is Some && json_image_is(mask, "mask"@, edit.mask->0),
        None => edit.mask is None,
    }
    &&& edit.batch == request.batch
}

/// The edit request that a JSON request describes.
pub fn edit_from_json(request: EditJsonRequest) -> (r: AppResult<EditRequest>)
    ensures
        model::answers(r, edit_json_refusal(request)),
        r matches Ok(edit) ==> edit_json_is(request, edit),
{
    let mut images: Vec<ImageInput> = Vec::new();
    let mut i: usize = 0;
    while i < request.images.len()
        invariant
            i <= request.images@.len(),
            images@.len() == i,
            json_images_refusal(request.images@, 0) == json_images_refusal(
                request.images@,
                i as int,
            ),
            forall|j: int|
                0 <= j < i ==> json_image_is(
                    request.images@[j],
                    default_name(j),
                    #[trigger] images@[j],
                ),
        decreases request.images@.len() - i,
    {
        let mut name = "image-".to_owned();
        let number = text::decimal(i as u128);
        name.append(number.as_str());
        match image_input_from_json(&request.images[i], name.as_str()) {
            Ok(input) => images.push(input),
            Err(error) => {
                return Err(error);
            },
        }
        i += 1;
    }
    let mask = match &request.mask {
        Some(value) => match image_input_from_json(value, "mask") {
            Ok(input) => Some(input),
            Err(error) => {
                return Err(error);
            },
        },
        None => None,
    };
    Ok(
        EditRequest {
            generation: GenerateRequest {
                prompt: request.prompt,
                size: request.size,
                quality: request.quality,
                n: request.n,
                is_public: request.is_public,
                output_format: request.output_format,
                model: request.model,
            },
            images,
            mask,
            batch: request.batch,
        },
    )
}

/// The digits of a number are read as that number.
proof fn lemma_digits_read(n: nat, max: nat)
    requires
        n <= max,
    ensures
        text::parsed_within(text::digits(n), max) == Some(n),
        !text::digits(n).contains('x'),
{
    text::digits_stand_for_their_number(n);
    assert(text::is_digit(text::digits(n)[0]));
    assert(text::unsigned_part(text::digits(n)) == text::digits(n));
    if text::digits(n).contains('x') {
        let i = choose|i: int| 0 <= i < text::digits(n).len() && text::digits(n)[i] == 'x';
        assert(text::is_digit(text::digits(n)[i]));
    }
}

/// A text is cut where its first part, free of the separator, ends.
proof fn lemma_cut(head: Seq<char>, c: char, tail: Seq<char>)
    requires
        !head.contains(c),
    ensures
        text::cut_at(head + seq![c] + tail, c) == Some((head, tail)),
{
    let s = head + seq![c] + tail;
    s.index_of_first_ensures(c);
    assert(s[head.len() as int] == c);
    let i = s.index_of_first(c)->0;
    if i < head.len() {
        assert(head[i] == c);
    }
    assert(s.take(i) =~= head);
    assert(s.skip(i + 1) =~= tail);
}

/// A size that is written as its two sides is accepted exactly where both are multiples of
/// sixteen of at most 7168, neither is more than three times the other, and the area is one that
/// is drawn.
pub proof fn sizes_are_judged_by_their_sides(size: &str, width: u64, height: u64, r: AppResult<()>)
    requires
        call_ensures(validate_size, (size,), r),
        size@ == text::digits(width as nat) + seq!['x'] + text::digits(height as nat),
    ensures
        r is Ok <==> {
            &&& width % 16 == 0
            &&& height % 16 == 0
            &&& width <= 7168
            &&& height <= 7168
            &&& width <= 3 * height
            &&& height <= 3 * width
            &&& 655_360 <= width * height
            &&& width * height <= 29_360_128
        },
        r matches Err(error) ==> error.0 == 400,
{
    lemma_digits_read(width as nat, u64::MAX as nat);
    lemma_digits_read(height as nat, u64::MAX as nat);
    lemma_cut(text::digits(width as nat), 'x', text::digits(height as nat));
    reveal_strlit("auto");
    text::digits_stand_for_their_number(width as nat);
    assert(text::is_digit(size@[0])) by {
        assert(size@[0] == text::digits(width as nat)[0]);
    }
    assert("auto"@[0] == 'a');
    assert(size@ != "auto"@);
    assert(width == 0 ==> width * height == 0);
    assert(height == 0 ==> width * height == 0);
}

/// `auto` is a size; every other one is two numbers with an `x` between them.
pub proof fn sizes_have_two_sides(size: &str, r: AppResult<()>)
    requires
        call_ensures(validate_size, (size,), r),
    ensures
        size@ == "auto"@ ==> r is Ok,
        r is Ok && size@ != "auto"@ ==> exists|i: int|
            {
                &&& 0 < i < size@.len() - 1
                &&& #[trigger] size@[i] == 'x'
                &&& forall|j: int| 0 <= j < i ==> #[trigger] size@[j] != 'x'
                &&& text::is_digit(size@[i - 1])
                &&& text::is_digit(size@.last())
            },
{
    if r is Ok && size@ != "auto"@ {
        size@.index_of_first_ensures('x');
        let i = size@.index_of_first('x')->0;
        let head = size@.take(i);
        let tail = size@.skip(i + 1);
        assert(text::parsed(head) is Some);
        assert(text::parsed(tail) is Some);
        let a = text::unsigned_part(head);
        let b = text::unsigned_part(tail);
        assert(text::is_digit(a[a.len() - 1]));
        assert(text::is_digit(b[b.len() - 1]));
        assert(a[a.len() - 1] == size@[i - 1]);
        assert(b[b.len() - 1] == size@.last());
        assert(size@[i] == 'x');
    }
}

/// A generation request is accepted exactly where its prompt is neither blank nor too long, its
/// model, count, quality and format are among those offered, and its size is accepted; every
/// refusal says that the request is bad.
pub proof fn requests_are_judged_by_every_choice(
    request: &GenerateRequest,
    size: &str,
    s: AppResult<()>,
    r: AppResult<()>,
)
    requires
        call_ensures(validate_generation, (request,), r),
        size@ == request.size@,
        call_ensures(validate_size, (size,), s),
    ensures
        r is Ok <==> {
            &&& text::trimmed(request.prompt@).len() > 0
            &&& vstd::utf8::encode_utf8(text::trimmed(request.prompt@)).len() <= 32_000
            &&& request.model is None || request.model->0@ == "gpt-image-2"@
            &&& request.n == 1 || request.n == 2 || request.n == 3 || request.n == 4
            &&& request.quality@ == "auto"@ || request.quality@ == "low"@ || request.quality@
                == "medium"@ || request.quality@ == "high"@
            &&& request.output_format@ == "png"@ || request.output_format@ == "jpeg"@
                || request.output_format@ == "webp"@
            &&& s is Ok
        },
        r matches Err(error) ==> error.0 == 400,
{
}

/// A request that says nothing but its prompt is accepted, in every output format and quality and
/// for every count on offer.
pub proof fn usual_requests_are_accepted(request: &GenerateRequest, r: AppResult<()>)
    requires
        call_ensures(validate_generation, (request,), r),
        text::trimmed(request.prompt@).len() > 0,
        vstd::utf8::encode_utf8(text::trimmed(request.prompt@)).len() <= 32_000,
        request.model is None,
        1 <= request.n <= 4,
        request.size@ == "1024x1024"@,
        request.quality@ == "auto"@,
        request.output_format@ == "png"@ || request.output_format@ == "jpeg"@
            || request.output_format@ == "webp"@,
    ensures
        r is Ok,
{
    reveal_strlit("1024x1024");
    reveal_with_fuel(text::digits, 5);
    assert("1024x1024"@ =~= text::digits(1024) + seq!['x'] + text::digits(1024));
    lemma_digits_read(1024, u64::MAX as nat);
    lemma_cut(text::digits(1024), 'x', text::digits(1024));
}

/// An image is known by its first bytes, whatever follows.
pub proof fn images_are_known_by_their_first_bytes(
    bytes: &[u8],
    r: Option<(&'static str, &'static str)>,
)
    requires
        call_ensures(detect_image_format, (bytes,), r),
    ensures
        ({
            let b = bytes@;
            let png = b.len() >= 8 && b[0] == 137 && b[1] == 80 && b[2] == 78 && b[3] == 71 && b[4]
                == 13 && b[5] == 10 && b[6] == 26 && b[7] == 10;
            let jpeg = b.len() >= 3 && b[0] == 255 && b[1] == 216 && b[2] == 255;
            let webp = b.len() >= 12 && b[0] == 82 && b[1] == 73 && b[2] == 70 && b[3] == 70 && b[8]
                == 87 && b[9] == 69 && b[10] == 66 && b[11] == 80;
            &&& r is Some <==> png || jpeg || webp
            &&& png ==> (r->0).0@ == "png"@ && (r->0).1@ == "image/png"@
            &&& jpeg ==> (r->0).0@ == "jpeg"@ && (r->0).1@ == "image/jpeg"@
            &&& webp ==> (r->0).0@ == "webp"@ && (r->0).1@ == "image/webp"@
        }),
{
    let b = bytes@;
    let png = seq![0x89u8, 0x50, 0x4E, 0x47, 0x0D, 0x0A, 0x1A, 0x0A];
    let jpeg = seq![0xFFu8, 0xD8, 0xFF];
    let head = seq![0x52u8, 0x49, 0x46, 0x46];
    let tail = seq![0x57u8, 0x45, 0x42, 0x50];
    if b.len() >= 8 && b[0] == 137 && b[1] == 80 && b[2] == 78 && b[3] == 71 && b[4] == 13 && b[5]
        == 10 && b[6] == 26 && b[7] == 10 {
        assert(b.subrange(0, 8) =~= png);
    }
    if is_png(b) {
        assert(png[0] == b[0] && png[1] == b[1] && png[2] == b[2] && png[3] == b[3] && png[4]
            == b[4] && png[5] == b[5] && png[6] == b[6] && png[7] == b[7]);
    }
    if b.len() >= 3 && b[0] == 255 && b[1] == 216 && b[2] == 255 {
        assert(b.subrange(0, 3) =~= jpeg);
    }
    if is_jpeg(b) {
        assert(jpeg[0] == b[0] && jpeg[1] == b[1] && jpeg[2] == b[2]);
    }
    if b.len() >= 12 && b[0] == 82 && b[1] == 73 && b[2] == 70 && b[3] == 70 && b[8] == 87 && b[9]
        == 69 && b[10] == 66 && b[11] == 80 {
        assert(b.subrange(0, 4) =~= head);
        assert(b.subrange(8, 12) =~= tail);
    }
    if is_webp(b) {
        let first = b.subrange(0, 4);
        let second = b.subrange(8, 12);
        assert(first[0] == head[0] && first[1] == head[1] && first[2] == head[2] && first[3]
            == head[3]);
        assert(second[0] == tail[0] && second[1] == tail[1] && second[2] == tail[2] && second[3]
            == tail[3]);
    }
}

/// A file is named after the format that its bytes show; `png` where they show none.
pub proof fn extensions_follow_the_bytes(
    bytes: &[u8],
    found: Option<(&'static str, &'static str)>,
    r: &'static str,
)
    requires
        call_ensures(detect_image_format, (bytes,), found),
        call_ensures(image_extension, (bytes,), r),
    ensures
        found is Some ==> r@ == (found->0).0@,
        found is None ==> r@ == "png"@,
{
}

/// An input refused before another is the one whose refusal is reported.
proof fn lemma_first_input_refusal(inputs: Seq<ImageInput>)
    ensures
        first_input_refusal(inputs) is None <==> forall|i: int|
            0 <= i < inputs.len() ==> input_refusal((#[trigger] inputs[i]).bytes@) is None,
        first_input_refusal(inputs) matches Some(refusal) ==> refusal.0 == 400 || refusal.0 == 413,
    decreases inputs.len(),
{
    if inputs.len() > 0 {
        lemma_first_input_refusal(inputs.skip(1));
        if first_input_refusal(inputs) is None {
            assert forall|i: int| 0 <= i < inputs.len() implies input_refusal(
                (#[trigger] inputs[i]).bytes@,
            ) is None by {
                if i > 0 {
                    assert(inputs.skip(1)[i - 1] == inputs[i]);
                }
            }
        }
        if forall|i: int|
            0 <= i < inputs.len() ==> input_refusal((#[trigger] inputs[i]).bytes@) is None {
            assert forall|i: int| 0 <= i < inputs.skip(1).len() implies input_refusal(
                (#[trigger] inputs.skip(1)[i]).bytes@,
            ) is None by {
                assert(inputs.skip(1)[i] == inputs[i + 1]);
            }
        }
    }
}

/// Whether bytes are an image that an edit takes: not empty, not too large, of a known format.
pub open spec fn is_usable(bytes: Seq<u8>) -> bool {
    0 < bytes.len() <= 52_428_800 && format_of(bytes) is Some
}

/// An edit is accepted exactly where it brings one to four images and each of them, and the mask
/// if there is one, is usable.
pub proof fn edits_are_judged_by_every_image(request: &EditRequest, r: AppResult<()>)
    requires
        call_ensures(validate_edit_inputs, (request,), r),
    ensures
        r is Ok <==> {
            &&& 1 <= request.images@.len() <= 4
            &&& forall|i: int|
                0 <= i < request.images@.len() ==> is_usable((#[trigger] request.images@[i]).bytes@)
            &&& request.mask matches Some(mask) ==> is_usable(mask.bytes@)
        },
        r matches Err(error) ==> error.0 == 400 || error.0 == 413,
{
    let all = edit_inputs(*request);
    lemma_first_input_refusal(all);
    if forall|i: int| 0 <= i < all.len() ==> input_refusal((#[trigger] all[i]).bytes@) is None {
        assert forall|i: int| 0 <= i < request.images@.len() implies is_usable(
            (#[trigger] request.images@[i]).bytes@,
        ) by {
            assert(all[i] == request.images@[i]);
        }
        if request.mask is Some {
            assert(all[request.images@.len() as int] == request.mask->0);
        }
    }
}

/// An edit's body is read as what its content type says it is.
pub proof fn bodies_are_read_as_announced(content_type: &str, r: AppResult<EditBody>)
    requires
        call_ensures(edit_body, (content_type,), r),
    ensures
        r is Ok && r->Ok_0 is Json <==> "application/json"@.is_prefix_of(content_type@),
        "multipart/form-data"@.is_prefix_of(content_type@) ==> r is Ok && r->Ok_0 is Multipart,
        r is Err <==> !"application/json"@.is_prefix_of(content_type@)
            && !"multipart/form-data"@.is_prefix_of(content_type@),
        r matches Err(error) ==> error.0 == 415,
{
    reveal_strlit("application/json");
    reveal_strlit("multipart/form-data");
    if "application/json"@.is_prefix_of(content_type@) {
        assert(content_type@[0] == "application/json"@[0]);
    }
    if "multipart/form-data"@.is_prefix_of(content_type@) {
        assert(content_type@[0] == "multipart/form-data"@[0]);
    }
}

/// Form fields are images, the mask or texts by their names.
pub proof fn fields_are_known_by_their_names(name: &str, r: FieldRole)
    requires
        call_ensures(field_role, (name,), r),
    ensures
        r is Image <==> name@ == "image"@ || name@ == "image[]"@ || name@ == "images"@,
        r is Mask <==> name@ == "mask"@,
        r is Text <==> name@ != "image"@ && name@ != "image[]"@ && name@ != "images"@ && name@
            != "mask"@,
{
    reveal_strlit("image");
    reveal_strlit("image[]");
    reveal_strlit("images");
    reveal_strlit("mask");
    assert("mask"@.len() == 4);
}

/// A form without fields describes a request of defaults.
pub proof fn empty_forms_describe_defaults(form: EditForm, r: EditRequest)
    requires
        call_ensures(EditForm::new, (), form),
        call_ensures(EditForm::finish, (form,), r),
    ensures
        r.generation.prompt@.len() == 0,
        r.generation.size@ == "1024x1024"@,
        r.generation.quality@ == "auto"@,
        r.generation.n == 1,
        !r.generation.is_public,
        r.generation.output_format@ == "png"@,
        r.generation.model is None,
        r.images@.len() == 0,
        r.mask is None,
        !r.batch,
{
    reveal_strlit("");
}

/// A text field sets the choice that it names, whatever was set before, and no other.
pub proof fn text_fields_set_what_they_name(
    form: &mut EditForm,
    name: &str,
    value: String,
    without: EditRequest,
    with: EditRequest,
)
    requires
        old(form).wf(),
        call_ensures(EditForm::add_text, (form, name, value), ()),
        call_ensures(EditForm::finish, (*old(form),), without),
        call_ensures(EditForm::finish, (*final(form),), with),
    ensures
        name@ == "prompt"@ ==> with.generation.prompt@ == value@,
        name@ != "prompt"@ ==> with.generation.prompt@ == without.generation.prompt@,
        name@ == "size"@ ==> with.generation.size@ == value@,
        name@ != "size"@ ==> with.generation.size@ == without.generation.size@,
        name@ == "quality"@ ==> with.generation.quality@ == value@,
        name@ != "quality"@ ==> with.generation.quality@ == without.generation.quality@,
        name@ == "model"@ ==> text::opt(with.generation.model) == Some(value@),
        name@ != "model"@ ==> text::opt(with.generation.model) == text::opt(
            without.generation.model,
        ),
        name@ == "batch"@ ==> with.batch == (value@ == "true"@),
        name@ != "batch"@ ==> with.batch == without.batch,
        name@ == "isPublic"@ ==> with.generation.is_public == (value@ == "true"@),
        name@ == "is_public"@ && !old(form).fields.view().contains_key("isPublic"@)
            ==> with.generation.is_public == (value@ == "true"@),
        name@ != "isPublic"@ && name@ != "is_public"@ ==> with.generation.is_public
            == without.generation.is_public,
        name@ == "output_format"@ ==> with.generation.output_format@ == value@,
        name@ == "outputFormat"@ && !old(form).fields.view().contains_key("output_format"@)
            ==> with.generation.output_format@ == value@,
        name@ != "output_format"@ && name@ != "outputFormat"@ ==> with.generation.output_format@
            == without.generation.output_format@,
        name@ != "n"@ ==> with.generation.n == without.generation.n,
        with.images == without.images,
        with.mask == without.mask,
{
    reveal_strlit("isPublic");
    reveal_strlit("is_public");
    reveal_strlit("output_format");
    reveal_strlit("outputFormat");
    assert("isPublic"@.len() != "is_public"@.len());
    assert("output_format"@.len() != "outputFormat"@.len());
}

/// The field `n` sets the count where it is a number that fits; else one image is asked for.
pub proof fn counts_are_read_from_their_field(
    form: &mut EditForm,
    name: &str,
    value: String,
    count: u8,
    r: EditRequest,
)
    requires
        old(form).wf(),
        name@ == "n"@,
        call_ensures(EditForm::add_text, (form, name, value), ()),
        call_ensures(EditForm::finish, (*final(form),), r),
    ensures
        value@ == text::digits(count as nat) ==> r.generation.n == count,
        text::parsed(value@) is None ==> r.generation.n == 1,
        text::parsed(value@) matches Some(read) ==> r.generation.n as nat == if read <= 255 {
            read
        } else {
            1
        },
{
    lemma_digits_read(count as nat, 255);
}

/// An image of a form comes behind those that it brought before; a mask takes the place of an
/// earlier one; neither changes anything else.
pub proof fn images_and_masks_are_taken_in(
    form: &mut EditForm,
    masked: &mut EditForm,
    image: ImageInput,
    mask: ImageInput,
    without: EditRequest,
    with: EditRequest,
    r: EditRequest,
)
    requires
        old(form).wf(),
        call_ensures(EditForm::finish, (*old(form),), without),
        call_ensures(EditForm::add_image, (form, image), ()),
        call_ensures(EditForm::finish, (*final(form),), with),
        *old(masked) == *final(form),
        call_ensures(EditForm::set_mask, (masked, mask), ()),
        call_ensures(EditForm::finish, (*final(masked),), r),
    ensures
        with.images@ == without.images@.push(image),
        with.mask == without.mask,
        with.batch == without.batch,
        with.generation.prompt@ == without.generation.prompt@,
        r.images@ == with.images@,
        r.mask == Some(mask),
        r.batch == with.batch,
        r.generation.prompt@ == with.generation.prompt@,
{
}

/// An uploaded file is taken exactly where it is not too large, its bytes show a known format, and
/// what was declared, if anything, is an image; it keeps its bytes and its name, and its type is
/// what the bytes show.
pub proof fn uploads_are_judged_by_their_bytes(
    file_name: Option<&str>,
    declared_type: Option<&str>,
    bytes: Vec<u8>,
    slice: &[u8],
    found: Option<(&'static str, &'static str)>,
    r: AppResult<ImageInput>,
)
    requires
        call_ensures(input_from_upload, (file_name, declared_type, bytes), r),
        slice@ == bytes@,
        call_ensures(detect_image_format, (slice,), found),
    ensures
        r is Ok <==> {
            &&& bytes@.len() <= 52_428_800
            &&& found is Some
            &&& declared_type is None || declared_type->0@.len() == 0
                || "image/"@.is_prefix_of(declared_type->0@)
        },
        r matches Err(error) ==> error.0 == if bytes@.len() > 52_428_800 { 413u16 } else { 400u16 },
        r matches Ok(input) ==> {
            &&& input.bytes@ == bytes@
            &&& input.mime_type@ == (found->0).1@
            &&& file_name is Some ==> input.file_name@ == file_name->0@
            &&& file_name is None ==> input.file_name@ == "image"@
        },
{
    reveal_strlit("");
}

/// Decoded bytes are taken exactly where they are not too large, show a known format, and were
/// declared as an image.
pub proof fn decoded_images_are_judged_by_their_bytes(
    bytes: Vec<u8>,
    declared_type: &str,
    file_name: String,
    slice: &[u8],
    found: Option<(&'static str, &'static str)>,
    r: AppResult<ImageInput>,
)
    requires
        call_ensures(input_from_decoded, (bytes, declared_type, file_name), r),
        slice@ == bytes@,
        call_ensures(detect_image_format, (slice,), found),
    ensures
        r is Ok <==> bytes@.len() <= 52_428_800 && found is Some && "image/"@.is_prefix_of(
            declared_type@,
        ),
        r matches Err(error) ==> error.0 == if bytes@.len() > 52_428_800 { 413u16 } else { 400u16 },
        r matches Ok(input) ==> input.bytes@ == bytes@ && input.file_name@ == file_name@
            && input.mime_type@ == (found->0).1@,
{
}

/// A data URL gives back the type and the encoded bytes that it was made of.
pub proof fn data_urls_give_back_their_parts(
    value: &str,
    mime_type: Seq<char>,
    encoded: Seq<char>,
    r: AppResult<(String, String)>,
)
    requires
        call_ensures(parse_data_url, (value,), r),
        value@ == "data:"@ + (mime_type + ";base64"@ + seq![','] + encoded),
        !mime_type.contains(','),
    ensures
        r is Ok,
        r->Ok_0.0@ == encoded,
        r->Ok_0.1@ == mime_type,
{
    reveal_strlit(";base64");
    reveal_strlit("data:");
    let metadata = mime_type + ";base64"@;
    let rest = metadata + seq![','] + encoded;
    assert(value@.subrange(0, "data:"@.len() as int) =~= "data:"@);
    assert(value@.skip("data:"@.len() as int) =~= rest);
    if metadata.contains(',') {
        let i = choose|i: int| 0 <= i < metadata.len() && metadata[i] == ',';
        if i < mime_type.len() {
            assert(mime_type[i] == ',');
        } else {
            assert(";base64"@[i - mime_type.len()] == ',');
        }
    }
    lemma_cut(metadata, ',', encoded);
    assert(metadata.subrange(metadata.len() - ";base64"@.len(), metadata.len() as int)
        =~= ";base64"@);
    assert(metadata.take(metadata.len() - ";base64"@.len()) =~= mime_type);
}

/// Only data URLs in base64 are read; every other text is a bad request.
pub proof fn only_data_urls_are_read(value: &str, r: AppResult<(String, String)>)
    requires
        call_ensures(parse_data_url, (value,), r),
    ensures
        r matches Ok(held) ==> value@ == "data:"@ + (held.1@ + ";base64"@ + seq![','] + held.0@)
            && !held.1@.contains(','),
        r matches Err(error) ==> error.0 == 400,
{
    if r is Ok {
        let rest = value@.skip("data:"@.len() as int);
        let held = r->Ok_0;
        rest.index_of_first_ensures(',');
        let i = rest.index_of_first(',')->0;
        let metadata = rest.take(i);
        assert(metadata =~= held.1@ + ";base64"@);
        assert(rest =~= metadata + seq![','] + rest.skip(i + 1));
        assert(value@ =~= "data:"@ + rest);
        if held.1@.contains(',') {
            let k = choose|k: int| 0 <= k < held.1@.len() && held.1@[k] == ',';
            assert(rest[k] == ',');
        }
    }
}

/// An image that is given as a data URL is the bytes that the URL encodes.
pub proof fn json_texts_are_data_urls(
    value: &Json,
    address: &str,
    fallback_name: &str,
    parts: AppResult<(String, String)>,
    r: AppResult<ImageInput>,
)
    requires
        value is Text,
        address@ == value->Text_0@,
        call_ensures(parse_data_url, (address,), parts),
        call_ensures(image_input_from_json, (value, fallback_name), r),
    ensures
        r is Ok <==> {
            &&& parts is Ok
            &&& encoding::base64_bytes(parts->Ok_0.0@) is Ok
            &&& encoding::base64_bytes(parts->Ok_0.0@)->Ok_0.len() <= 52_428_800
            &&& format_of(encoding::base64_bytes(parts->Ok_0.0@)->Ok_0) is Some
            &&& "image/"@.is_prefix_of(parts->Ok_0.1@)
        },
        r matches Ok(input) ==> {
            &&& encoding::base64_bytes(parts->Ok_0.0@) == Ok::<Seq<u8>, Base64Error>(input.bytes@)
            &&& input.file_name@ == fallback_name@
            &&& Some(input.mime_type@) == mime_of(input.bytes@)
        },
{
}

/// An object with base64 is the bytes that it encodes, under the name and type that it gives.
pub proof fn json_objects_hold_base64(
    value: &Json,
    fallback_name: &str,
    encoded: Seq<char>,
    r: AppResult<ImageInput>,
)
    requires
        value is Object,
        value.member_text("b64_json"@) == Some(encoded),
        call_ensures(image_input_from_json, (value, fallback_name), r),
    ensures
        r is Ok <==> {
            &&& encoding::base64_bytes(encoded) is Ok
            &&& encoding::base64_bytes(encoded)->Ok_0.len() <= 52_428_800
            &&& format_of(encoding::base64_bytes(encoded)->Ok_0) is Some
            &&& value.member_text("mime_type"@) is None || "image/"@.is_prefix_of(
                value.member_text("mime_type"@)->0,
            )
        },
        r matches Ok(input) ==> {
            &&& encoding::base64_bytes(encoded) == Ok::<Seq<u8>, Base64Error>(input.bytes@)
            &&& Some(input.mime_type@) == mime_of(input.bytes@)
            &&& value.member_text("filename"@) is None ==> input.file_name@ == fallback_name@
            &&& value.member_text("filename"@) matches Some(name) ==> input.file_name@ == name
        },
{
    reveal_strlit("image/png");
    reveal_strlit("image/");
    assert("image/png"@.subrange(0, 6) =~= "image/"@);
}

/// An object without base64 is read as the data URL that it names, itself or in a member `url`.
pub proof fn json_objects_name_data_urls(
    value: &Json,
    url: Json,
    fallback_name: &str,
    address: &str,
    parts: AppResult<(String, String)>,
    r: AppResult<ImageInput>,
)
    requires
        value is Object,
        value.member_text("b64_json"@) is None,
        value.member("image_url"@) == Some(url),
        url.text() == Some(address@) || (url.text() is None && url.member_text("url"@) == Some(
            address@,
        )),
        call_ensures(parse_data_url, (address,), parts),
        call_ensures(image_input_from_json, (value, fallback_name), r),
    ensures
        parts is Err ==> r is Err,
        r matches Ok(input) ==> encoding::base64_bytes(parts->Ok_0.0@) == Ok::<
            Seq<u8>,
            Base64Error,
        >(input.bytes@) && input.file_name@ == fallback_name@,
        parts is Ok && r is Err ==> encoding::base64_bytes(parts->Ok_0.0@) is Err
            || encoding::base64_bytes(parts->Ok_0.0@)->Ok_0.len() > 52_428_800 || format_of(
            encoding::base64_bytes(parts->Ok_0.0@)->Ok_0,
        ) is None || !"image/"@.is_prefix_of(parts->Ok_0.1@),
{
}

/// What is neither a text nor an object is no image, nor is an object that holds none.
pub proof fn other_json_is_no_image(value: &Json, fallback_name: &str, r: AppResult<ImageInput>)
    requires
        call_ensures(image_input_from_json, (value, fallback_name), r),
        !(value is Text),
        value is Object ==> value.member_text("b64_json"@) is None && value.member("image_url"@)
            is None,
    ensures
        r is Err,
        r->Err_0.0 == 400,
{
}

/// A JSON edit asks for what its members say, with its images in order.
pub proof fn json_edits_ask_as_they_say(request: EditJsonRequest, r: AppResult<EditRequest>)
    requires
        call_ensures(edit_from_json, (request,), r),
        r is Ok,
    ensures
        r->Ok_0.generation.prompt@ == request.prompt@,
        r->Ok_0.generation.size@ == request.size@,
        r->Ok_0.generation.quality@ == request.quality@,
        r->Ok_0.generation.n == request.n,
        r->Ok_0.generation.is_public == request.is_public,
        r->Ok_0.generation.output_format@ == request.output_format@,
        r->Ok_0.generation.model == request.model,
        r->Ok_0.batch == request.batch,
        r->Ok_0.images@.len() == request.images@.len(),
        r->Ok_0.mask is Some <==> request.mask is Some,
{
}

/// Where the search for a refused image ends.
proof fn lemma_json_images_refusal(images: Seq<Json>, from: int)
    requires
        0 <= from <= images.len(),
    ensures
        json_images_refusal(images, from) is None <==> forall|i: int|
            from <= i < images.len() ==> json_image_refusal(
                #[trigger] images[i],
                default_name(i),
            ) is None,
    decreases images.len() - from,
{
    if from < images.len() {
        lemma_json_images_refusal(images, from + 1);
    }
}

/// Each image of a JSON edit is what that image alone is read as, and one that cannot be read is
/// enough to refuse the edit.
pub proof fn json_edits_read_every_image(
    request: EditJsonRequest,
    value: &Json,
    name: &str,
    i: int,
    one: AppResult<ImageInput>,
    r: AppResult<EditRequest>,
)
    requires
        call_ensures(edit_from_json, (request,), r),
        0 <= i < request.images@.len(),
        *value == request.images@[i],
        name@ == "image-"@ + text::digits(i as nat),
        call_ensures(image_input_from_json, (value, name), one),
    ensures
        one is Err ==> r is Err,
        r is Ok ==> one is Ok && r->Ok_0.images@[i].bytes@ == one->Ok_0.bytes@
            && r->Ok_0.images@[i].file_name@ == one->Ok_0.file_name@
            && r->Ok_0.images@[i].mime_type@ == one->Ok_0.mime_type@,
{
    lemma_json_images_refusal(request.images@, 0);
    if r is Ok {
        assert(json_image_refusal(request.images@[i], default_name(i)) is None);
        assert(json_image_is(request.images@[i], default_name(i), r->Ok_0.images@[i]));
    }
}

/// The mask of a JSON edit is what it alone is read as; a mask that cannot be read refuses the
/// edit.
pub proof fn json_edits_read_their_mask(
    request: EditJsonRequest,
    value: &Json,
    name: &str,
    one: AppResult<ImageInput>,
    r: AppResult<EditRequest>,
)
    requires
        call_ensures(edit_from_json, (request,), r),
        request.mask == Some(*value),
        name@ == "mask"@,
        call_ensures(image_input_from_json, (value, name), one),
    ensures
        one is Err ==> r is Err,
        r is Ok ==> one is Ok && r->Ok_0.mask->0.bytes@ == one->Ok_0.bytes@
            && r->Ok_0.mask->0.file_name@ == one->Ok_0.file_name@,
{
}

/// A JSON edit whose images and mask can all be read is accepted.
pub proof fn readable_json_edits_are_accepted(request: EditJsonRequest, r: AppResult<EditRequest>)
    requires
        call_ensures(edit_from_json, (request,), r),
        forall|i: int|
            0 <= i < request.images@.len() ==> json_image_refusal(
                #[trigger] request.images@[i],
                "image-"@ + text::digits(i as nat),
            ) is None,
        request.mask matches Some(mask) ==> json_image_refusal(mask, "mask"@) is None,
    ensures
        r is Ok,
{
    lemma_json_images_refusal(request.images@, 0);
    assert forall|i: int| 0 <= i < request.images@.len() implies json_image_refusal(
        #[trigger] request.images@[i],
        default_name(i),
    ) is None by {
        assert(json_image_refusal(request.images@[i], "image-"@ + text::digits(i as nat)) is None);
    }
}

/// A refused request is told the first thing that is wrong with it.
pub proof fn refused_requests_name_the_first_reason(
    request: &GenerateRequest,
    size: &str,
    s: AppResult<()>,
    r: AppResult<()>,
)
    requires
        call_ensures(validate_generation, (request,), r),
        size@ == request.size@,
        call_ensures(validate_size, (size,), s),
    ensures
        ({
            let length = vstd::utf8::encode_utf8(text::trimmed(request.prompt@)).len();
            let prompt = text::trimmed(request.prompt@).len() > 0 && length <= 32_000;
            let model = request.model is None || request.model->0@ == "gpt-image-2"@;
            let count = 1 <= request.n <= 4;
            let quality = request.quality@ == "auto"@ || request.quality@ == "low"@
                || request.quality@ == "medium"@ || request.quality@ == "high"@;
            let format = request.output_format@ == "png"@ || request.output_format@ == "jpeg"@
                || request.output_format@ == "webp"@;
            &&& !prompt ==> r is Err && r->Err_0.1@ == "提示词长度无效"@
            &&& prompt && !model ==> r is Err && r->Err_0.1@ == "模型不受支持"@
            &&& prompt && model && !count ==> r is Err && r->Err_0.1@ == "n 必须为 1-4"@
            &&& prompt && model && count && !quality ==> r is Err && r->Err_0.1@
                == "图片质量无效"@
            &&& prompt && model && count && quality && !format ==> r is Err && r->Err_0.1@
                == "输出格式无效"@
            &&& prompt && model && count && quality && format && s is Err ==> r is Err
                && r->Err_0.1@ == "图片尺寸无效"@
        }),
{
}

/// An edit is told of its images one after the other, the mask last: the first that cannot be
/// used is named by what is wrong with it.
pub proof fn refused_edits_name_the_first_image(request: &EditRequest, i: int, r: AppResult<()>)
    requires
        call_ensures(validate_edit_inputs, (request,), r),
        1 <= request.images@.len() <= 4,
        0 <= i < request.images@.len(),
        forall|j: int| 0 <= j < i ==> is_usable((#[trigger] request.images@[j]).bytes@),
        !is_usable(request.images@[i].bytes@),
    ensures
        r is Err,
        r->Err_0.0 == if 0 < request.images@[i].bytes@.len() <= 52_428_800 {
            400u16
        } else {
            413u16
        },
{
    let all = edit_inputs(*request);
    assert forall|j: int| 0 <= j < i implies input_refusal((#[trigger] all[j]).bytes@) is None by {
        assert(all[j] == request.images@[j]);
        assert(is_usable(request.images@[j].bytes@));
    }
    assert(all[i] == request.images@[i]);
    lemma_refusal_at(all, i);
}

proof fn lemma_refusal_at(inputs: Seq<ImageInput>, i: int)
    requires
        0 <= i < inputs.len(),
        forall|j: int| 0 <= j < i ==> input_refusal((#[trigger] inputs[j]).bytes@) is None,
        input_refusal(inputs[i].bytes@) is Some,
    ensures
        first_input_refusal(inputs) == input_refusal(inputs[i].bytes@),
    decreases inputs.len(),
{
    if i > 0 {
        let rest = inputs.skip(1);
        assert(input_refusal(inputs[0].bytes@) is None);
        assert(rest[i - 1] == inputs[i]);
        assert forall|j: int| 0 <= j < i - 1 implies input_refusal(
            (#[trigger] rest[j]).bytes@,
        ) is None by {
            assert(rest[j] == inputs[j + 1]);
        }
        lemma_refusal_at(rest, i - 1);
    }
}

} // verus!
