//! Handing out stored files: who may see them, under which tag, and how small.

use axum::http::{HeaderMap, HeaderValue};
use image::{DynamicImage, GenericImageView};
use vstd::prelude::*;

use crate::encoding;
use crate::json;
use crate::model;
use crate::model::{refuse, AppError, AppResult, INTERNAL_SERVER_ERROR, NOT_FOUND};
use crate::request;
use crate::text;

verus! {

/// The longest side of a thumbnail.
pub const THUMBNAIL_SIDE: u32 = 640;

/// The JPEG quality of a thumbnail.
pub const THUMBNAIL_QUALITY: u8 = 78;

/// How long files that everybody may see may be kept by caches.
pub const PUBLIC_CACHE: &'static str = "public, max-age=86400";

/// Files of one user are asked for again every time.
pub const PRIVATE_CACHE: &'static str = "private, max-age=0, must-revalidate";

/// A stored image: its file, its owner and its visibility.
#[derive(Debug, PartialEq, Eq)]
pub struct ImageFile {
    pub file_name: String,
    pub user_id: String,
    pub visibility: String,
}

/// What is to be served: the stored file, the thumbnail to make of it if one is asked for, the
/// key of the tag, how caches may keep it, and what is said if the file is missing.
#[derive(Debug, PartialEq, Eq)]
pub struct ServePlan {
    pub source: String,
    pub thumbnail: Option<String>,
    pub etag_key: String,
    pub cache_control: &'static str,
    pub missing: &'static str,
}

/// Whether an image may be seen: in public where it is public, else by its owner.
pub open spec fn may_see(file: ImageFile, user_id: Option<&str>, public: bool) -> bool {
    if public {
        file.visibility@ == "public"@
    } else {
        text::opt_str(user_id) == Some(file.user_id@)
    }
}

/// The file name of an image's thumbnail.
pub open spec fn thumbnail_name(id: Seq<char>) -> Seq<char> {
    "thumbnail-"@ + encoding::digest_text(id) + ".jpg"@
}

/// The file name of an image's thumbnail.
pub fn thumbnail_file_name(id: &str) -> (r: String)
    ensures
        r@ == thumbnail_name(id@),
{
    let digest = encoding::digest_of(id);
    text::concat3("thumbnail-", digest.as_str(), ".jpg")
}

/// What is served of an image: nothing, as if it were not there, to those who may not see it.
pub fn serve_image(
    id: &str,
    record: Option<ImageFile>,
    user_id: Option<&str>,
    public: bool,
    thumbnail: bool,
) -> (r: AppResult<ServePlan>)
    ensures
        match record {
            Some(file) => if may_see(file, user_id, public) {
                &&& r matches Ok(plan)
                &&& plan.source@ == file.file_name@
                &&& plan.cache_control@ == if public {
                    PUBLIC_CACHE@
                } else {
                    PRIVATE_CACHE@
                }
                &&& if thumbnail {
                    &&& text::opt(plan.thumbnail) == Some(thumbnail_name(id@))
                    &&& plan.etag_key@ == thumbnail_name(id@)
                    &&& plan.missing@ == "缩略图文件不存在"@
                } else {
                    &&& plan.thumbnail is None
                    &&& plan.etag_key@ == file.file_name@
                    &&& plan.missing@ == "图片文件不存在"@
                }
            } else {
                model::refused(r, NOT_FOUND, "图片不存在"@)
            },
            None => model::refused(r, NOT_FOUND, "图片不存在"@),
        },
{
    let file = match record {
        Some(file) => file,
        None => {
            return refuse(NOT_FOUND, "图片不存在");
        },
    };
    let allowed = if public {
        text::same(file.visibility.as_str(), "public")
    } else {
        match user_id {
            Some(id) => text::same(id, file.user_id.as_str()),
            None => false,
        }
    };
    if !allowed {
        return refuse(NOT_FOUND, "图片不存在");
    }
    let cache_control = if public {
        PUBLIC_CACHE
    } else {
        PRIVATE_CACHE
    };
    if thumbnail {
        let name = thumbnail_file_name(id);
        return Ok(
            ServePlan {
                source: file.file_name,
                thumbnail: Some(name.clone()),
                etag_key: name,
                cache_control,
                missing: "缩略图文件不存在",
            },
        );
    }
    let etag_key = file.file_name.clone();
    Ok(
        ServePlan {
            source: file.file_name,
            thumbnail: None,
            etag_key,
            cache_control,
            missing: "图片文件不存在",
        },
    )
}

/// The file of one of an image's references, by the stored list of them.
pub fn reference_file(reference_files: Option<&str>, index: usize) -> (r: AppResult<String>)
    ensures
        match reference_files {
            Some(list) => if index < json::listed(list@).len() {
                r matches Ok(name) && name@ == json::listed(list@)[index as int]
            } else {
                model::refused(r, NOT_FOUND, "参考图不存在"@)
            },
            None => model::refused(r, NOT_FOUND, "参考图不存在"@),
        },
{
    match reference_files {
        Some(list) => {
            let names = json::file_list(list);
            if index < names.len() {
                assert(text::views(names@)[index as int] == names@[index as int]@);
                Ok(names[index].clone())
            } else {
                refuse(NOT_FOUND, "参考图不存在")
            }
        },
        None => refuse(NOT_FOUND, "参考图不存在"),
    }
}

/// The file of one of a task's inputs, and the key of its tag. The inputs are not known where
/// the task is not, or where its data cannot be read.
pub fn task_reference_file(id: &str, input_files: Option<&Vec<String>>, index: usize) -> (r:
    AppResult<(String, String)>)
    ensures
        match input_files {
            Some(files) => if index < files@.len() {
                &&& r matches Ok(found)
                &&& found.0@ == files@[index as int]@
                &&& found.1@ == id@ + "/"@ + files@[index as int]@
            } else {
                model::refused(r, NOT_FOUND, "参考图不存在"@)
            },
            None => model::refused(r, NOT_FOUND, "参考图不存在"@),
        },
{
    match input_files {
        Some(files) => {
            if index < files.len() {
                let name = files[index].clone();
                let key = text::concat3(id, "/", name.as_str());
                Ok((name, key))
            } else {
                refuse(NOT_FOUND, "参考图不存在")
            }
        },
        None => refuse(NOT_FOUND, "参考图不存在"),
    }
}

/// What the tag of a stored file is made from: its key, its length and when it was written.
pub open spec fn etag_source(key: Seq<char>, length: nat, modified: nat) -> Seq<char> {
    key + ":"@ + text::digits(length) + ":"@ + text::digits(modified)
}

/// The tag of a stored file.
pub open spec fn etag_of(key: Seq<char>, length: nat, modified: nat) -> Seq<char> {
    "\""@ + encoding::digest_text(etag_source(key, length, modified)) + "\""@
}

/// The tag of a stored file: it changes with the key, the length and the time of writing.
pub fn etag(key: &str, length: u64, modified: u128) -> (r: String)
    ensures
        r@ == etag_of(key@, length as nat, modified as nat),
{
    let size = text::decimal(length as u128);
    let time = text::decimal(modified);
    let stem = text::concat3(key, ":", size.as_str());
    let source = text::concat3(stem.as_str(), ":", time.as_str());
    let digest = encoding::digest_of(source.as_str());
    text::concat3("\"", digest.as_str(), "\"")
}

/// Whether one candidate of `If-None-Match` stands for the tag.
pub open spec fn candidate_matches(candidate: Seq<char>, tag: Seq<char>) -> bool {
    ||| candidate == "*"@
    ||| candidate == tag
    ||| "W/"@.is_prefix_of(candidate) && candidate.skip("W/"@.len() as int) == tag
}

/// Whether one of the comma-separated candidates stands for the tag.
pub open spec fn list_matches(list: Seq<char>, tag: Seq<char>) -> bool {
    exists|i: int|
        0 <= i < text::split_on(list, ',').len() && candidate_matches(
            text::trimmed(#[trigger] text::split_on(list, ',')[i]),
            tag,
        )
}

/// Whether a header value is a text one of whose candidates stands for the tag.
pub open spec fn value_matches(bytes: Seq<u8>, tag: Seq<char>) -> bool {
    request::value_text(bytes) matches Some(list) && list_matches(list, tag)
}

/// Whether a request already has the file with the tag.
pub open spec fn already_has(contents: Map<Seq<char>, Seq<Seq<u8>>>, tag: Seq<char>) -> bool {
    exists|i: int|
        0 <= i < request::values_of(contents, "if-none-match"@).len() && value_matches(
            #[trigger] request::values_of(contents, "if-none-match"@)[i],
            tag,
        )
}

fn candidate_is(candidate: &str, tag: &str) -> (r: bool)
    ensures
        r == candidate_matches(candidate@, tag@),
{
    if text::same(candidate, "*") || text::same(candidate, tag) {
        return true;
    }
    match text::strip_prefix(candidate, "W/") {
        Some(value) => text::same(value, tag),
        None => false,
    }
}

fn list_has(list: &str, tag: &str) -> (r: bool)
    ensures
        r == list_matches(list@, tag@),
{
    let parts = text::split(list, ',');
    let mut i: usize = 0;
    while i < parts.len()
        invariant
            text::views(parts@) == text::split_on(list@, ','),
            i <= parts@.len(),
            forall|j: int|
                0 <= j < i ==> !candidate_matches(
                    text::trimmed(#[trigger] text::split_on(list@, ',')[j]),
                    tag@,
                ),
        decreases parts@.len() - i,
    {
        assert(text::split_on(list@, ',')[i as int] == parts@[i as int]@);
        if candidate_is(text::trim(parts[i].as_str()), tag) {
            return true;
        }
        i += 1;
    }
    false
}

/// Whether a request already has the file with the tag, so that it need not be sent.
pub fn if_none_match_matches(headers: &HeaderMap<HeaderValue>, tag: &str) -> (r: bool)
    ensures
        r == already_has(request::header_contents(*headers), tag@),
{
    let values = request::header_get_all(headers, "if-none-match");
    let ghost all = request::values_of(request::header_contents(*headers), "if-none-match"@);
    let mut i: usize = 0;
    while i < values.len()
        invariant
            all == request::values_of(request::header_contents(*headers), "if-none-match"@),
            values@.len() == all.len(),
            forall|j: int|
                0 <= j < values@.len() ==> request::value_bytes(*#[trigger] values@[j]) == all[j],
            i <= values@.len(),
            forall|j: int| 0 <= j < i ==> !value_matches(#[trigger] all[j], tag@),
        decreases values@.len() - i,
    {
        let value = values[i];
        assert(request::value_bytes(*values@[i as int]) == all[i as int]);
        match request::header_to_str(value) {
            Some(list) => {
                if list_has(list, tag) {
                    assert(value_matches(all[i as int], tag@));
                    return true;
                }
            },
            None => {},
        }
        i += 1;
    }
    false
}

/// `image::DynamicImage`, an image in memory.
#[verifier::external_type_specification]
#[verifier::external_body]
pub struct ExDynamicImage(image::DynamicImage);

/// All that an image in memory holds, written as bytes.
pub uninterp spec fn image_contents(image: DynamicImage) -> Seq<u8>;

/// Whether the `image` crate, on some machine, may read an image with these contents out of a
/// file with this name, or may read none.
pub uninterp spec fn may_decode(
    bytes: Seq<u8>,
    file_name: Seq<char>,
    contents: Option<Seq<u8>>,
) -> bool;

/// The contents of an image, if there is one.
pub open spec fn opt_contents(image: Option<DynamicImage>) -> Option<Seq<u8>> {
    match image {
        Some(read) => Some(image_contents(read)),
        None => None,
    }
}

/// The width and height of an image with these contents.
pub uninterp spec fn contents_size(contents: Seq<u8>) -> (u32, u32);

/// What `DynamicImage::resize` makes of an image within a width and a height.
pub uninterp spec fn resized_contents(contents: Seq<u8>, width: u32, height: u32) -> Seq<u8>;

/// What the `image` crate's JPEG encoder makes of an image in a quality, if it makes a file.
pub uninterp spec fn jpeg_file(contents: Seq<u8>, quality: u8) -> Option<Seq<u8>>;

/// Calls `ImageReader::decode` with the format that the file name's extension stands for. The
/// outcome is one of those that the file may have. It is left open which: decoders pick their
/// routines by the processor, so that pixels may differ between machines. It is also left open
/// which files are refused, and whether a malformed one can make a decoder panic.
#[verifier::external_body]
pub(crate) fn decode_image(bytes: &[u8], file_name: &str) -> (image: Option<DynamicImage>)
    ensures
        may_decode(bytes@, file_name@, opt_contents(image)),
{
    let format = image::ImageFormat::from_path(file_name).ok()?;
    image::ImageReader::with_format(std::io::Cursor::new(bytes), format).decode().ok()
}

/// Calls `GenericImageView::dimensions`: the width and the height of the image.
#[verifier::external_body]
pub(crate) fn image_size(image: &DynamicImage) -> (size: (u32, u32))
    ensures
        size == contents_size(image_contents(*image)),
{
    image.dimensions()
}

/// Calls `DynamicImage::resize` with the triangle filter. Image and bounds alone decide the new
/// image, and it fits within the bounds.
#[verifier::external_body]
pub(crate) fn resize_image(image: &DynamicImage, width: u32, height: u32) -> (smaller: DynamicImage)
    requires
        width > 0,
        height > 0,
    ensures
        image_contents(smaller) == resized_contents(image_contents(*image), width, height),
        contents_size(image_contents(smaller)).0 <= width,
        contents_size(image_contents(smaller)).1 <= height,
{
    image.resize(width, height, image::imageops::FilterType::Triangle)
}

/// Calls `JpegEncoder::encode_image` on the image's RGB pixels; image and quality alone decide whether
/// there is a file, and which.
#[verifier::external_body]
pub(crate) fn encode_jpeg(image: &DynamicImage, quality: u8) -> (file: Option<Vec<u8>>)
    requires
        1 <= quality <= 100,
    ensures
        match file {
            Some(bytes) => jpeg_file(image_contents(*image), quality) == Some(bytes@),
            None => jpeg_file(image_contents(*image), quality) is None,
        },
{
    let rgb = image.to_rgb8();
    let mut encoded = Vec::new();
    image::codecs::jpeg::JpegEncoder::new_with_quality(&mut encoded, quality)
        .encode_image(&rgb)
        .ok()?;
    Some(encoded)
}

/// Whether an image is larger than a thumbnail may be.
pub open spec fn too_large(size: (u32, u32)) -> bool {
    size.0 > THUMBNAIL_SIDE || size.1 > THUMBNAIL_SIDE
}

/// The contents that a thumbnail shows: the image itself, or a smaller one where it is too large.
pub open spec fn thumbnail_contents(contents: Seq<u8>) -> Seq<u8> {
    if too_large(contents_size(contents)) {
        resized_contents(contents, THUMBNAIL_SIDE, THUMBNAIL_SIDE)
    } else {
        contents
    }
}

/// The thumbnail of an image, if there is one and it can be written.
pub open spec fn thumbnail_of(contents: Option<Seq<u8>>) -> Option<Seq<u8>> {
    match contents {
        Some(held) => jpeg_file(thumbnail_contents(held), THUMBNAIL_QUALITY),
        None => None,
    }
}

/// Whether an answer is the thumbnail of an image: a JPEG whose sides do not exceed the limit, or
/// a refusal where there is none.
pub open spec fn answers_thumbnail(r: AppResult<Vec<u8>>, contents: Option<Seq<u8>>) -> bool {
    match thumbnail_of(contents) {
        Some(file) => {
            &&& r matches Ok(thumbnail)
            &&& thumbnail@ == file
            &&& !too_large(contents_size(thumbnail_contents(contents->0)))
        },
        None => model::refused(r, INTERNAL_SERVER_ERROR, "缩略图生成失败"@),
    }
}

/// Whether an image with this size is to be made smaller for a thumbnail.
pub fn needs_resize(width: u32, height: u32) -> (r: bool)
    ensures
        r == too_large((width, height)),
{
    width > THUMBNAIL_SIDE || height > THUMBNAIL_SIDE
}

/// The thumbnail of an image that was read, if one was.
pub fn thumbnail_from(image: Option<DynamicImage>) -> (r: AppResult<Vec<u8>>)
    ensures
        answers_thumbnail(r, opt_contents(image)),
{
    let image = match image {
        Some(image) => image,
        None => {
            return refuse(INTERNAL_SERVER_ERROR, "缩略图生成失败");
        },
    };
    let (width, height) = image_size(&image);
    let small = if needs_resize(width, height) {
        resize_image(&image, THUMBNAIL_SIDE, THUMBNAIL_SIDE)
    } else {
        image
    };
    match encode_jpeg(&small, THUMBNAIL_QUALITY) {
        Some(file) => Ok(file),
        None => refuse(INTERNAL_SERVER_ERROR, "缩略图生成失败"),
    }
}

/// The thumbnail of an image file. What is read out of the file decides it.
pub fn render_thumbnail(bytes: &[u8], file_name: &str) -> (r: AppResult<Vec<u8>>)
    ensures
        exists|contents: Option<Seq<u8>>| #[trigger]
            may_decode(bytes@, file_name@, contents) && answers_thumbnail(r, contents),
{
    let image = decode_image(bytes, file_name);
    let ghost contents = opt_contents(image);
    let r = thumbnail_from(image);
    assert(may_decode(bytes@, file_name@, contents) && answers_thumbnail(r, contents));
    r
}

/// What to do for a thumbnail that is asked for.
#[derive(Clone, Copy, Debug, PartialEq, Eq, Structural)]
pub enum ThumbnailStep {
    Serve,
    Render,
}

/// What to do for a thumbnail: serve it where it exists, else make it where the image exists.
pub fn ensure_thumbnail(target_exists: bool, source_exists: bool) -> (r: AppResult<ThumbnailStep>)
    ensures
        if target_exists {
            r == Ok::<ThumbnailStep, AppError>(ThumbnailStep::Serve)
        } else if source_exists {
            r == Ok::<ThumbnailStep, AppError>(ThumbnailStep::Render)
        } else {
            model::refused(r, NOT_FOUND, "图片文件不存在"@)
        },
{
    if target_exists {
        return Ok(ThumbnailStep::Serve);
    }
    if !source_exists {
        return refuse(NOT_FOUND, "图片文件不存在");
    }
    Ok(ThumbnailStep::Render)
}

/// How making a thumbnail ends once its file was moved into place, or not: it is an error only
/// where no other request has put the file there meanwhile.
pub fn thumbnail_published(moved: bool, target_exists: bool) -> (r: AppResult<()>)
    ensures
        if moved || target_exists {
            r is Ok
        } else {
            model::refused(r, INTERNAL_SERVER_ERROR, "缩略图保存失败"@)
        },
{
    if moved || target_exists {
        return Ok(());
    }
    refuse(INTERNAL_SERVER_ERROR, "缩略图保存失败")
}

/// A private image is served to its owner alone, and to nobody in public.
pub proof fn private_images_stay_private(file: ImageFile, user_id: Option<&str>)
    requires
        file.visibility@ != "public"@,
        text::opt_str(user_id) != Some(file.user_id@),
    ensures
        !may_see(file, user_id, true),
        !may_see(file, user_id, false),
{
}

/// An image is served to everybody where it is public and asked for in public, else to its owner
/// alone; to all others it is not there. What is served is its own file, or its thumbnail.
pub proof fn images_are_served_to_those_who_may_see_them(
    id: &str,
    record: Option<ImageFile>,
    user_id: Option<&str>,
    public: bool,
    thumbnail: bool,
    r: AppResult<ServePlan>,
)
    requires
        call_ensures(serve_image, (id, record, user_id, public, thumbnail), r),
    ensures
        r is Ok <==> {
            &&& record is Some
            &&& public ==> record->0.visibility@ == "public"@
            &&& !public ==> user_id is Some && user_id->0@ == record->0.user_id@
        },
        r matches Err(error) ==> error.0 == 404,
        r matches Ok(plan) ==> {
            &&& plan.source@ == record->0.file_name@
            &&& public ==> plan.cache_control@ == "public, max-age=86400"@
            &&& !public ==> plan.cache_control@ == "private, max-age=0, must-revalidate"@
            &&& plan.thumbnail is Some <==> thumbnail
            &&& plan.thumbnail is Some ==> plan.etag_key@ == plan.thumbnail->0@
            &&& plan.thumbnail is None ==> plan.etag_key@ == record->0.file_name@
        },
{
}

/// The thumbnail that is served is the one that is stored for the image.
pub proof fn thumbnails_are_found_where_they_are_stored(
    id: &str,
    record: Option<ImageFile>,
    user_id: Option<&str>,
    public: bool,
    name: String,
    r: AppResult<ServePlan>,
)
    requires
        call_ensures(thumbnail_file_name, (id,), name),
        call_ensures(serve_image, (id, record, user_id, public, true), r),
        r is Ok,
    ensures
        r->Ok_0.thumbnail is Some,
        r->Ok_0.thumbnail->0@ == name@,
        name@ == "thumbnail-"@ + encoding::hex_text(
            encoding::sha256_digest(vstd::utf8::encode_utf8(id@)),
        ) + ".jpg"@,
{
}

/// A reference is found under its place in the stored list, and nowhere else.
pub proof fn references_are_found_by_their_place(
    reference_files: Option<&str>,
    index: usize,
    r: AppResult<String>,
)
    requires
        call_ensures(reference_file, (reference_files, index), r),
    ensures
        r is Ok <==> {
            &&& reference_files is Some
            &&& json::string_list(reference_files->0@) is Some
            &&& index < json::string_list(reference_files->0@)->0.len()
        },
        r matches Ok(name) ==> name@ == json::string_list(reference_files->0@)->0[index as int],
        r matches Err(error) ==> error.0 == 404,
{
}

/// A task's input is found under its place among the inputs, with a tag of its own.
pub proof fn task_inputs_are_found_by_their_place(
    id: &str,
    input_files: Option<&Vec<String>>,
    index: usize,
    r: AppResult<(String, String)>,
)
    requires
        call_ensures(task_reference_file, (id, input_files, index), r),
    ensures
        r is Ok <==> input_files is Some && index < input_files->0@.len(),
        r matches Ok(found) ==> found.0@ == input_files->0@[index as int]@ && found.1@ == id@
            + "/"@ + input_files->0@[index as int]@,
        r matches Err(error) ==> error.0 == 404,
{
}

/// A tag is the digest of the key, the length and the time of writing, in quotes.
pub proof fn tags_are_digests(key: &str, length: u64, modified: u128, r: String)
    requires
        call_ensures(etag, (key, length, modified), r),
    ensures
        r@ == "\""@ + encoding::hex_text(
            encoding::sha256_digest(
                vstd::utf8::encode_utf8(
                    key@ + ":"@ + text::digits(length as nat) + ":"@ + text::digits(
                        modified as nat,
                    ),
                ),
            ),
        ) + "\""@,
{
}

/// What the tag of a file is made from changes whenever its length or its time of writing does.
pub proof fn tags_tell_versions_apart(
    key: Seq<char>,
    length: nat,
    modified: nat,
    other_length: nat,
    other_modified: nat,
)
    requires
        etag_source(key, length, modified) == etag_source(key, other_length, other_modified),
    ensures
        length == other_length,
        modified == other_modified,
{
    reveal_strlit(":");
    let a = text::digits(length);
    let b = text::digits(modified);
    let c = text::digits(other_length);
    let d = text::digits(other_modified);
    text::digits_stand_for_their_number(length);
    text::digits_stand_for_their_number(modified);
    text::digits_stand_for_their_number(other_length);
    text::digits_stand_for_their_number(other_modified);
    let from = (key.len() + 1) as int;
    let left = a + ":"@ + b;
    let right = c + ":"@ + d;
    assert(etag_source(key, length, modified) =~= (key + ":"@) + left);
    assert(etag_source(key, other_length, other_modified) =~= (key + ":"@) + right);
    assert(left =~= etag_source(key, length, modified).skip(from));
    assert(right =~= etag_source(key, other_length, other_modified).skip(from));
    assert(left[a.len() as int] == ':');
    assert(right[c.len() as int] == ':');
    if a.len() < c.len() {
        assert(right[a.len() as int] == c[a.len() as int]);
        assert(text::is_digit(c[a.len() as int]));
    } else if c.len() < a.len() {
        assert(left[c.len() as int] == a[c.len() as int]);
        assert(text::is_digit(a[c.len() as int]));
    }
    assert(a =~= left.take(a.len() as int));
    assert(c =~= right.take(c.len() as int));
    assert(b =~= left.skip((a.len() + 1) as int));
    assert(d =~= right.skip((c.len() + 1) as int));
}

/// Whether a header value names a tag among its comma-separated parts: as it is, as a weak one, or
/// by a star.
pub open spec fn names_tag(bytes: Seq<u8>, tag: Seq<char>) -> bool {
    &&& request::value_text(bytes) is Some
    &&& parts_name_tag(text::split_on(request::value_text(bytes)->0, ','), tag)
}

/// Whether one of the parts of a header value stands for a tag.
pub open spec fn parts_name_tag(parts: Seq<Seq<char>>, tag: Seq<char>) -> bool {
    exists|i: int|
        {
            &&& 0 <= i < parts.len()
            &&& text::trimmed(#[trigger] parts[i]) == tag || text::trimmed(parts[i]) == "W/"@ + tag
                || text::trimmed(parts[i]) == "*"@
        }
}

/// Whether one of some header values names a tag.
pub open spec fn values_name_tag(values: Seq<Seq<u8>>, tag: Seq<char>) -> bool {
    exists|i: int| 0 <= i < values.len() && names_tag(#[trigger] values[i], tag)
}

/// A file need not be sent exactly where one of the request's `If-None-Match` values names its tag.
pub proof fn known_tags_need_no_sending(headers: &HeaderMap<HeaderValue>, tag: &str, r: bool)
    requires
        call_ensures(if_none_match_matches, (headers, tag), r),
    ensures
        r <==> values_name_tag(
            request::values_of(request::header_contents(*headers), "if-none-match"@),
            tag@,
        ),
{
    let values = request::values_of(request::header_contents(*headers), "if-none-match"@);
    assert forall|i: int| 0 <= i < values.len() implies names_tag(#[trigger] values[i], tag@)
        == value_matches(values[i], tag@) by {
        lemma_names_tag(values[i], tag@);
    }
    if r {
        let i = choose|i: int| 0 <= i < values.len() && value_matches(#[trigger] values[i], tag@);
        assert(names_tag(values[i], tag@));
    }
}

proof fn lemma_names_tag(bytes: Seq<u8>, tag: Seq<char>)
    ensures
        names_tag(bytes, tag) == value_matches(bytes, tag),
{
    if request::value_text(bytes) is Some {
        let parts = text::split_on(request::value_text(bytes)->0, ',');
        assert forall|i: int| 0 <= i < parts.len() implies candidate_matches(
            text::trimmed(#[trigger] parts[i]),
            tag,
        ) == (text::trimmed(parts[i]) == tag || text::trimmed(parts[i]) == "W/"@ + tag
            || text::trimmed(parts[i]) == "*"@) by {
            let candidate = text::trimmed(parts[i]);
            if "W/"@.is_prefix_of(candidate) && candidate.skip("W/"@.len() as int) == tag {
                assert(candidate =~= "W/"@ + tag);
            }
            if candidate == "W/"@ + tag {
                assert(candidate.subrange(0, "W/"@.len() as int) =~= "W/"@);
                assert(candidate.skip("W/"@.len() as int) =~= tag);
            }
        }
        if names_tag(bytes, tag) {
            let i = choose|i: int|
                0 <= i < parts.len() && (text::trimmed(#[trigger] parts[i]) == tag || text::trimmed(
                    parts[i],
                ) == "W/"@ + tag || text::trimmed(parts[i]) == "*"@);
            assert(candidate_matches(text::trimmed(parts[i]), tag));
        }
        if value_matches(bytes, tag) {
            let i = choose|i: int|
                0 <= i < parts.len() && candidate_matches(text::trimmed(#[trigger] parts[i]), tag);
            assert(text::trimmed(parts[i]) == tag || text::trimmed(parts[i]) == "W/"@ + tag
                || text::trimmed(parts[i]) == "*"@);
        }
    }
}

/// An image is made smaller exactly where one of its sides is longer than 640.
pub proof fn long_sides_are_made_smaller(width: u32, height: u32, r: bool)
    requires
        call_ensures(needs_resize, (width, height), r),
    ensures
        r <==> width > 640 || height > 640,
{
}

/// The thumbnail of an image that fits is the image itself as a JPEG; that of a larger one is a
/// JPEG of the image fitted into a square of 640.
pub proof fn thumbnails_show_the_image(image: Option<DynamicImage>, r: AppResult<Vec<u8>>)
    requires
        call_ensures(thumbnail_from, (image,), r),
    ensures
        image is None ==> r is Err,
        image is Some ==> ({
            let contents = image_contents(image->0);
            let size = contents_size(contents);
            let shown = if size.0 > 640 || size.1 > 640 {
                resized_contents(contents, 640, 640)
            } else {
                contents
            };
            &&& r is Ok <==> jpeg_file(shown, 78) is Some
            &&& r is Ok ==> Some(r->Ok_0@) == jpeg_file(shown, 78)
            &&& r is Ok ==> contents_size(shown).0 <= 640 && contents_size(shown).1 <= 640
        }),
        r matches Err(error) ==> error.0 == 500,
{
}

/// A thumbnail is made only where there is none yet and there is an image to make it of.
pub proof fn thumbnails_are_made_once(
    target_exists: bool,
    source_exists: bool,
    r: AppResult<ThumbnailStep>,
)
    requires
        call_ensures(ensure_thumbnail, (target_exists, source_exists), r),
    ensures
        r is Ok && r->Ok_0 is Serve <==> target_exists,
        r is Ok && r->Ok_0 is Render <==> !target_exists && source_exists,
        r matches Err(error) ==> error.0 == 404,
{
}

/// Making a thumbnail fails only where neither this nor another request put it into place.
pub proof fn thumbnails_may_be_made_by_another(moved: bool, target_exists: bool, r: AppResult<()>)
    requires
        call_ensures(thumbnail_published, (moved, target_exists), r),
    ensures
        r is Err <==> !moved && !target_exists,
        r matches Err(error) ==> error.0 == 500,
{
}

/// The thumbnail of a file is a JPEG of an image that may be read out of it, or of one that was
/// made smaller; where none is read, there is no thumbnail.
pub proof fn thumbnails_are_made_of_the_file(
    bytes: &[u8],
    file_name: &str,
    r: AppResult<Vec<u8>>,
)
    requires
        call_ensures(render_thumbnail, (bytes, file_name), r),
    ensures
        r is Ok ==> exists|contents: Seq<u8>|
            {
                &&& #[trigger] may_decode(bytes@, file_name@, Some(contents))
                &&& Some(r->Ok_0@) == jpeg_file(contents, 78) || Some(r->Ok_0@) == jpeg_file(
                    resized_contents(contents, 640, 640),
                    78,
                )
            },
        r matches Err(error) ==> error.0 == 500,
        r is Err ==> may_decode(bytes@, file_name@, None) || exists|contents: Seq<u8>|
            {
                &&& #[trigger] may_decode(bytes@, file_name@, Some(contents))
                &&& jpeg_file(contents, 78) is None || jpeg_file(
                    resized_contents(contents, 640, 640),
                    78,
                ) is None
            },
{
    let contents = choose|contents: Option<Seq<u8>>| #[trigger]
        may_decode(bytes@, file_name@, contents) && answers_thumbnail(r, contents);
    assert(may_decode(bytes@, file_name@, contents) && answers_thumbnail(r, contents));
    if contents is Some {
        assert(may_decode(bytes@, file_name@, Some(contents->0)));
    }
}

} // verus!
