//! Asking the upstream for images, and reading what it answers.

use vstd::prelude::*;

use crate::encoding;
use crate::encoding::Base64Error;
use crate::images::parse;
use crate::images::storage::GeneratedOutput;
use crate::model;
use crate::model::{
    refuse, AppError, AppResult, EditRequest, GenerateRequest, ImageInput, ProviderConfiguration,
    UpstreamImage, UpstreamResponse, BAD_GATEWAY,
};
use crate::text;

verus! {

/// The address of an upstream endpoint: below `/v1`, which the base may already end with.
pub open spec fn endpoint_of(base_url: Seq<char>, suffix: Seq<char>) -> Seq<char> {
    let base = text::trimmed_end(base_url, '/');
    if "/v1"@.is_suffix_of(base) {
        base + suffix
    } else {
        base + "/v1"@ + suffix
    }
}

/// The address of an upstream endpoint.
pub fn provider_endpoint(base_url: &str, suffix: &str) -> (r: String)
    ensures
        r@ == endpoint_of(base_url@, suffix@),
{
    let base = text::trim_end_matches(base_url, '/');
    if text::ends_with(base, "/v1") {
        text::concat(base, suffix)
    } else {
        text::concat3(base, "/v1", suffix)
    }
}

/// A named text of a request to the upstream.
#[derive(Debug, PartialEq, Eq)]
pub struct Field {
    pub name: &'static str,
    pub value: String,
}

/// The names and texts of fields.
pub open spec fn field_views(fields: Seq<Field>) -> Seq<(Seq<char>, Seq<char>)> {
    Seq::new(fields.len(), |i: int| (fields[i].name@, fields[i].value@))
}

/// One field, unless its text is the default, which goes without saying.
pub open spec fn unless_default(
    name: Seq<char>,
    value: Seq<char>,
    default: Seq<char>,
) -> Seq<(Seq<char>, Seq<char>)> {
    if value == default {
        Seq::empty()
    } else {
        seq![(name, value)]
    }
}

/// The fields of a request to the upstream: model and prompt, and what differs from the defaults.
pub open spec fn request_fields(provider: ProviderConfiguration, request: GenerateRequest) -> Seq<
    (Seq<char>, Seq<char>),
> {
    seq![("model"@, provider.model@), ("prompt"@, text::trimmed(request.prompt@))]
        + unless_default("size"@, request.size@, "auto"@) + unless_default(
        "quality"@,
        request.quality@,
        "auto"@,
    ) + unless_default("output_format"@, request.output_format@, "png"@)
}

/// Adds a field, unless its text is the default.
fn add_unless_default(fields: &mut Vec<Field>, name: &'static str, value: &String, default: &str)
    ensures
        field_views(final(fields)@) == field_views(old(fields)@) + unless_default(
            name@,
            value@,
            default@,
        ),
{
    let ghost before = field_views(fields@);
    if !text::same(value.as_str(), default) {
        fields.push(Field { name, value: value.clone() });
    }
    assert(field_views(fields@) == before + unless_default(name@, value@, default@));
}

/// The fields of a request to the upstream.
pub fn upstream_fields(provider: &ProviderConfiguration, request: &GenerateRequest) -> (r: Vec<
    Field,
>)
    ensures
        field_views(r@) == request_fields(*provider, *request),
{
    let mut fields: Vec<Field> = Vec::new();
    fields.push(Field { name: "model", value: provider.model.clone() });
    fields.push(
        Field { name: "prompt", value: text::trim(request.prompt.as_str()).to_owned() },
    );
    assert(field_views(fields@) == seq![
        ("model"@, provider.model@),
        ("prompt"@, text::trimmed(request.prompt@)),
    ]);
    add_unless_default(&mut fields, "size", &request.size, "auto");
    add_unless_default(&mut fields, "quality", &request.quality, "auto");
    add_unless_default(&mut fields, "output_format", &request.output_format, "png");
    fields
}

/// What the client is told of an upstream answer that is no success.
pub open spec fn status_message<U>(
    parsed: Option<UpstreamResponse<U>>,
    status_text: Seq<char>,
    body: Seq<char>,
) -> Seq<char> {
    let told = match parsed {
        Some(response) => match response.error {
            Some(error) => text::opt(error.message),
            None => None,
        },
        None => None,
    };
    let fallback = text::trimmed(body);
    match told {
        Some(message) => message,
        None => if fallback.len() == 0 {
            "上游返回 "@ + status_text
        } else {
            "上游返回 "@ + status_text + ": "@ + text::shortened(fallback, 500)
        },
    }
}

/// What the client is told of an answer that cannot be read.
pub open spec fn unreadable_message(body: Seq<char>) -> Seq<char> {
    let preview = text::shortened(text::trimmed(body), 500);
    if preview.len() == 0 {
        "上游响应为空"@
    } else {
        "上游响应无效: "@ + preview
    }
}

/// Why one returned image is refused, if it is.
pub open spec fn image_refusal(item: UpstreamImage) -> Option<Seq<char>> {
    match item.b64_json {
        None => Some("上游响应缺少图片数据"@),
        Some(encoded) => match encoding::base64_bytes(encoded@) {
            Err(_) => Some("上游图片数据无法解码"@),
            Ok(bytes) => if parse::format_of(bytes) is None {
                Some("上游返回的图片格式无效"@)
            } else {
                None
            },
        },
    }
}

/// Whether an output is the image that the upstream returned.
pub open spec fn is_output(item: UpstreamImage, output: GeneratedOutput) -> bool {
    &&& text::opt(item.b64_json) == Some(output.encoded@)
    &&& encoding::base64_bytes(output.encoded@) == Ok::<Seq<u8>, Base64Error>(output.bytes@)
    &&& parse::format_of(output.bytes@) matches Some(found) && found.0 == output.format@
}

/// The refusal of the first returned image, from an index on and up to a count, that is refused.
pub open spec fn images_refusal(items: Seq<UpstreamImage>, from: int, count: int) -> Option<
    Seq<char>,
>
    decreases count - from,
{
    if from < 0 || from >= count || from >= items.len() {
        None
    } else {
        match image_refusal(items[from]) {
            Some(message) => Some(message),
            None => images_refusal(items, from + 1, count),
        }
    }
}

/// The images that an answer brought, as far as they are wanted.
pub open spec fn answered_images<U>(response: UpstreamResponse<U>) -> Seq<UpstreamImage> {
    match response.data {
        Some(items) => items@,
        None => Seq::empty(),
    }
}

/// What the client is told of an answer that is not good, if it is not.
pub open spec fn upstream_refusal<U>(
    status: u16,
    status_text: Seq<char>,
    body: Seq<char>,
    parsed: Option<UpstreamResponse<U>>,
    expected: int,
) -> Option<Seq<char>> {
    if !(200 <= status < 300) {
        Some(status_message(parsed, status_text, body))
    } else {
        match parsed {
            None => Some(unreadable_message(body)),
            Some(response) => match images_refusal(answered_images(response), 0, expected) {
                Some(message) => Some(message),
                None => if answered_images(response).len() == 0 || expected <= 0 {
                    Some("上游未返回图片"@)
                } else {
                    None
                },
            },
        }
    }
}

/// The image that the upstream returned, decoded and of a known format.
fn output_from(item: UpstreamImage) -> (r: AppResult<GeneratedOutput>)
    ensures
        match image_refusal(item) {
            Some(message) => model::refused(r, BAD_GATEWAY, message),
            None => r matches Ok(output) && is_output(item, output),
        },
{
    match item.b64_json {
        None => refuse(BAD_GATEWAY, "上游响应缺少图片数据"),
        Some(encoded) => match encoding::base64_decode(encoded.as_str()) {
            Err(_) => refuse(BAD_GATEWAY, "上游图片数据无法解码"),
            Ok(bytes) => match parse::detect_image_format(&bytes) {
                None => refuse(BAD_GATEWAY, "上游返回的图片格式无效"),
                Some(found) => Ok(
                    GeneratedOutput { encoded, bytes, format: found.0.to_owned() },
                ),
            },
        },
    }
}

/// The images that the upstream returned, at most as many as were asked for.
fn outputs_from(items: Vec<UpstreamImage>, expected: usize) -> (r: AppResult<Vec<GeneratedOutput>>)
    ensures
        match images_refusal(items@, 0, expected as int) {
            Some(message) => model::refused(r, BAD_GATEWAY, message),
            None => {
                &&& r matches Ok(outputs)
                &&& outputs@.len() == if items@.len() < expected {
                    items@.len() as int
                } else {
                    expected as int
                }
                &&& forall|i: int|
                    0 <= i < outputs@.len() ==> is_output(items@[i], #[trigger] outputs@[i])
            },
        },
{
    let mut outputs: Vec<GeneratedOutput> = Vec::new();
    let ghost all = items@;
    let total: usize = items.len();
    let wanted: usize = if total < expected {
        total
    } else {
        expected
    };
    for item in iter: items
        invariant
            iter.seq() == all,
            all.len() == total,
            wanted == if total < expected {
                total
            } else {
                expected
            },
            outputs@.len() == if iter.index() < wanted {
                iter.index() as int
            } else {
                wanted as int
            },
            images_refusal(all, 0, expected as int) == images_refusal(
                all,
                outputs@.len() as int,
                expected as int,
            ),
            forall|i: int|
                0 <= i < outputs@.len() ==> is_output(all[i], #[trigger] outputs@[i]),
    {
        if outputs.len() < wanted {
            match output_from(item) {
                Ok(output) => {
                    outputs.push(output);
                },
                Err(error) => {
                    return Err(error);
                },
            }
        }
    }
    Ok(outputs)
}

/// The images and the usage that an upstream answer brings, or what is wrong with it. The body
/// was read as JSON before, where it is JSON.
pub fn parse_upstream_response<U>(
    status: u16,
    status_text: &str,
    body: &str,
    parsed: Option<UpstreamResponse<U>>,
    expected: usize,
) -> (r: AppResult<(Vec<GeneratedOutput>, Option<U>)>)
    ensures
        match upstream_refusal(status, status_text@, body@, parsed, expected as int) {
            Some(message) => model::refused(r, BAD_GATEWAY, message),
            None => {
                &&& r matches Ok(answer)
                &&& answer.1 == parsed->0.usage
                &&& 0 < answer.0@.len() <= expected
                &&& answer.0@.len() <= answered_images(parsed->0).len()
                &&& answer.0@.len() == expected || answer.0@.len() == answered_images(
                    parsed->0,
                ).len()
                &&& forall|i: int|
                    0 <= i < answer.0@.len() ==> is_output(
                        answered_images(parsed->0)[i],
                        #[trigger] answer.0@[i],
                    )
            },
        },
{
    let trimmed = text::trim(body);
    if status < 200 || status >= 300 {
        let told = match parsed {
            Some(response) => match response.error {
                Some(error) => error.message,
                None => None,
            },
            None => None,
        };
        let message = match told {
            Some(given) => given,
            None => {
                let start = text::concat("上游返回 ", status_text);
                if text::characters(trimmed).len() == 0 {
                    start
                } else {
                    let preview = text::take(trimmed, 500);
                    text::concat3(start.as_str(), ": ", preview.as_str())
                }
            },
        };
        return Err(AppError(BAD_GATEWAY, message));
    }
    match parsed {
        None => {
            let preview = text::take(trimmed, 500);
            if text::characters(preview.as_str()).len() == 0 {
                refuse(BAD_GATEWAY, "上游响应为空")
            } else {
                Err(AppError(BAD_GATEWAY, text::concat("上游响应无效: ", preview.as_str())))
            }
        },
        Some(response) => {
            let items = match response.data {
                Some(items) => items,
                None => Vec::new(),
            };
            assert(items@ == answered_images(parsed->0));
            match outputs_from(items, expected) {
                Err(error) => Err(error),
                Ok(outputs) => {
                    if outputs.len() == 0 {
                        return refuse(BAD_GATEWAY, "上游未返回图片");
                    }
                    Ok((outputs, response.usage))
                },
            }
        },
    }
}

/// How one request to the upstream ended.
#[derive(Debug)]
pub enum UpstreamReply<U> {
    Generated(Vec<GeneratedOutput>, Option<U>),
    Failed(AppError),
    Crashed,
}

/// What is noted of a request whose own work broke down.
pub const REQUEST_CRASHED: &'static str = "上游任务执行失败";

/// What the replies brought together: images, each with the images that it was made from, the
/// last usage that was reported, and what went wrong.
#[derive(Debug)]
pub struct Collected<U> {
    pub outputs: Vec<GeneratedOutput>,
    pub references: Vec<Vec<ImageInput>>,
    pub usage: Option<U>,
    pub errors: Vec<String>,
}

/// The images of the first `count` replies, in order.
pub open spec fn reply_outputs<U>(replies: Seq<UpstreamReply<U>>, count: int) -> Seq<
    GeneratedOutput,
>
    decreases count,
{
    if count <= 0 {
        Seq::empty()
    } else {
        reply_outputs(replies, count - 1) + match replies[count - 1] {
            UpstreamReply::Generated(outputs, _) => outputs@,
            _ => Seq::empty(),
        }
    }
}

/// For each image of the first `count` replies, which reply brought it.
pub open spec fn reply_sources<U>(replies: Seq<UpstreamReply<U>>, count: int) -> Seq<int>
    decreases count,
{
    if count <= 0 {
        Seq::empty()
    } else {
        reply_sources(replies, count - 1) + match replies[count - 1] {
            UpstreamReply::Generated(outputs, _) => Seq::new(outputs@.len(), |i: int| count - 1),
            _ => Seq::empty(),
        }
    }
}

/// What went wrong in the first `count` replies, in order.
pub open spec fn reply_errors<U>(replies: Seq<UpstreamReply<U>>, count: int) -> Seq<Seq<char>>
    decreases count,
{
    if count <= 0 {
        Seq::empty()
    } else {
        match replies[count - 1] {
            UpstreamReply::Generated(_, _) => reply_errors(replies, count - 1),
            UpstreamReply::Failed(error) => reply_errors(replies, count - 1).push(error.1@),
            UpstreamReply::Crashed => reply_errors(replies, count - 1).push(REQUEST_CRASHED@),
        }
    }
}

/// The last usage that the first `count` replies reported.
pub open spec fn reply_usage<U>(replies: Seq<UpstreamReply<U>>, count: int) -> Option<U>
    decreases count,
{
    if count <= 0 {
        None
    } else {
        match replies[count - 1] {
            UpstreamReply::Generated(_, Some(usage)) => Some(usage),
            _ => reply_usage(replies, count - 1),
        }
    }
}

/// Whether two lists of inputs hold the same files.
pub open spec fn same_inputs(left: Seq<ImageInput>, right: Seq<ImageInput>) -> bool {
    &&& left.len() == right.len()
    &&& forall|i: int| 0 <= i < left.len() ==> (#[trigger] left[i]).same_as(right[i])
}

/// The images that the request behind a reply was made from.
pub open spec fn inputs_behind(inputs: Seq<Vec<ImageInput>>, reply: int) -> Seq<ImageInput> {
    if 0 <= reply < inputs.len() {
        inputs[reply]@
    } else {
        Seq::empty()
    }
}

/// A copy of a list of inputs.
pub fn copy_inputs(list: &[ImageInput]) -> (r: Vec<ImageInput>)
    ensures
        same_inputs(r@, list@),
{
    let mut out: Vec<ImageInput> = Vec::new();
    let mut i: usize = 0;
    while i < list.len()
        invariant
            i <= list@.len(),
            out@.len() == i,
            forall|j: int| 0 <= j < i ==> (#[trigger] out@[j]).same_as(list@[j]),
        decreases list@.len() - i,
    {
        out.push(list[i].clone());
        i += 1;
    }
    out
}

/// Gathers the replies. `inputs` holds, for each reply, the images that its request was made
/// from; for a generation it is empty.
pub fn collect_replies<U>(replies: Vec<UpstreamReply<U>>, inputs: &[Vec<ImageInput>]) -> (r:
    Collected<U>)
    ensures
        r.outputs@ == reply_outputs(replies@, replies@.len() as int),
        text::views(r.errors@) == reply_errors(replies@, replies@.len() as int),
        r.usage == reply_usage(replies@, replies@.len() as int),
        r.references@.len() == r.outputs@.len(),
        forall|i: int|
            0 <= i < r.references@.len() ==> same_inputs(
                (#[trigger] r.references@[i])@,
                inputs_behind(
                    inputs@,
                    reply_sources(replies@, replies@.len() as int)[i],
                ),
            ),
        reply_sources(replies@, replies@.len() as int).len() == r.outputs@.len(),
{
    let mut outputs: Vec<GeneratedOutput> = Vec::new();
    let mut references: Vec<Vec<ImageInput>> = Vec::new();
    let mut usage: Option<U> = None;
    let mut errors: Vec<String> = Vec::new();
    let none: Vec<ImageInput> = Vec::new();
    let mut index: usize = 0;
    let ghost all = replies@;
    let total: usize = replies.len();
    assert(text::views(errors@) == reply_errors(all, 0));
    for reply in iter: replies
        invariant
            iter.seq() == all,
            index == iter.index(),
            total == all.len(),
            none@ == Seq::<ImageInput>::empty(),
            outputs@ == reply_outputs(all, index as int),
            text::views(errors@) == reply_errors(all, index as int),
            usage == reply_usage(all, index as int),
            references@.len() == outputs@.len(),
            reply_sources(all, index as int).len() == outputs@.len(),
            forall|i: int|
                0 <= i < references@.len() ==> same_inputs(
                    (#[trigger] references@[i])@,
                    inputs_behind(inputs@, reply_sources(all, index as int)[i]),
                ),
    {
        let ghost noted = text::views(errors@);
        let ghost sources = reply_sources(all, index as int);
        match reply {
            UpstreamReply::Generated(mut generated, reported) => {
                let behind: &[ImageInput] = if index < inputs.len() {
                    &inputs[index]
                } else {
                    &none
                };
                let count: usize = generated.len();
                let ghost earlier = references@.len();
                let ghost brought = generated@;
                let mut i: usize = 0;
                while i < count
                    invariant
                        i <= count,
                        references@.len() == earlier + i,
                        behind@ == inputs_behind(inputs@, index as int),
                        sources.len() == earlier,
                        forall|j: int|
                            0 <= j < earlier ==> same_inputs(
                                (#[trigger] references@[j])@,
                                inputs_behind(inputs@, sources[j]),
                            ),
                        forall|j: int|
                            earlier <= j < references@.len() ==> same_inputs(
                                (#[trigger] references@[j])@,
                                behind@,
                            ),
                    decreases count - i,
                {
                    references.push(copy_inputs(behind));
                    i += 1;
                }
                outputs.append(&mut generated);
                match reported {
                    Some(value) => {
                        usage = Some(value);
                    },
                    None => {},
                }
                proof {
                    let next = reply_sources(all, index + 1);
                    assert(next == sources + Seq::new(brought.len(), |k: int| index as int));
                    assert forall|j: int| 0 <= j < references@.len() implies same_inputs(
                        (#[trigger] references@[j])@,
                        inputs_behind(inputs@, next[j]),
                    ) by {
                        if j < earlier {
                            assert(next[j] == sources[j]);
                        } else {
                            assert(next[j] == index);
                        }
                    }
                }
            },
            UpstreamReply::Failed(error) => {
                errors.push(error.1);
                assert(text::views(errors@) == noted.push(error.1@));
                assert(reply_outputs(all, index + 1) == reply_outputs(all, index as int));
                assert(reply_sources(all, index + 1) == sources);
            },
            UpstreamReply::Crashed => {
                errors.push(REQUEST_CRASHED.to_owned());
                assert(text::views(errors@) == noted.push(REQUEST_CRASHED@));
                assert(reply_outputs(all, index + 1) == reply_outputs(all, index as int));
                assert(reply_sources(all, index + 1) == sources);
            },
        }
        index += 1;
    }
    Collected { outputs, references, usage, errors }
}

/// What the client is told where no image came back: the first thing that went wrong.
pub open spec fn empty_message(errors: Seq<Seq<char>>) -> Seq<char> {
    if errors.len() > 0 {
        errors[0]
    } else {
        "上游未返回图片"@
    }
}

/// What the client is told where no image came back; `None` where some did.
pub fn empty_failure<U>(collected: &Collected<U>) -> (r: Option<AppError>)
    ensures
        r is Some <==> collected.outputs@.len() == 0,
        r matches Some(error) ==> error.0 == BAD_GATEWAY && error.1@ == empty_message(
            text::views(collected.errors@),
        ),
{
    if collected.outputs.len() > 0 {
        return None;
    }
    let message = if collected.errors.len() > 0 {
        collected.errors[0].clone()
    } else {
        "上游未返回图片".to_owned()
    };
    Some(AppError(BAD_GATEWAY, message))
}

/// The request for one image out of a request for several.
pub fn single_request(request: &GenerateRequest) -> (r: GenerateRequest)
    ensures
        r == (GenerateRequest { n: 1, ..*request }),
{
    let mut one = request.clone();
    one.n = 1;
    one
}

/// How many credits an edit needs: one for each image of a batch, else one for each result.
pub open spec fn edit_price(request: EditRequest) -> int {
    if request.batch {
        request.images@.len() as int
    } else {
        request.generation.n as int
    }
}

/// How many credits an edit needs.
pub fn edit_cost(request: &EditRequest) -> (r: usize)
    ensures
        r == edit_price(*request),
{
    if request.batch {
        request.images.len()
    } else {
        request.generation.n as usize
    }
}

/// Whether an edit is the request, to the upstream, number `index` of an edit.
pub open spec fn is_edit_call(request: EditRequest, one: EditRequest, index: int) -> bool {
    &&& one.generation == (GenerateRequest { n: 1, ..request.generation })
    &&& same_inputs(
        one.images@,
        if request.batch {
            seq![request.images@[index]]
        } else {
            request.images@
        },
    )
    &&& if request.batch {
        one.mask is None && !one.batch
    } else {
        &&& one.batch == request.batch
        &&& match request.mask {
            Some(mask) => one.mask matches Some(copy) && copy.same_as(mask),
            None => one.mask is None,
        }
    }
}

/// The requests to the upstream that an edit takes: for a batch one for each image and without
/// the mask, else one for each result.
pub fn edit_calls(request: &EditRequest) -> (r: Vec<EditRequest>)
    ensures
        r@.len() == edit_price(*request),
        forall|i: int| 0 <= i < r@.len() ==> is_edit_call(*request, #[trigger] r@[i], i),
{
    let count: usize = edit_cost(request);
    let mut calls: Vec<EditRequest> = Vec::new();
    let mut i: usize = 0;
    while i < count
        invariant
            count == edit_price(*request),
            i <= count,
            calls@.len() == i,
            forall|j: int| 0 <= j < i ==> is_edit_call(*request, #[trigger] calls@[j], j),
        decreases count - i,
    {
        let generation = single_request(&request.generation);
        if request.batch {
            let mut images: Vec<ImageInput> = Vec::new();
            images.push(request.images[i].clone());
            calls.push(EditRequest { generation, images, mask: None, batch: false });
        } else {
            let mask = match &request.mask {
                Some(held) => Some(held.clone()),
                None => None,
            };
            calls.push(
                EditRequest { generation, images: copy_inputs(&request.images), mask, batch: false },
            );
        }
        i += 1;
    }
    calls
}

/// For each request to the upstream, the images that it was made from.
pub fn call_inputs(calls: &[EditRequest]) -> (r: Vec<Vec<ImageInput>>)
    ensures
        r@.len() == calls@.len(),
        forall|i: int|
            0 <= i < r@.len() ==> same_inputs((#[trigger] r@[i])@, calls@[i].images@),
{
    let mut inputs: Vec<Vec<ImageInput>> = Vec::new();
    let mut i: usize = 0;
    while i < calls.len()
        invariant
            i <= calls@.len(),
            inputs@.len() == i,
            forall|j: int|
                0 <= j < i ==> same_inputs((#[trigger] inputs@[j])@, calls@[j].images@),
        decreases calls@.len() - i,
    {
        inputs.push(copy_inputs(&calls[i].images));
        i += 1;
    }
    inputs
}

/// Whether exactly one field has a name, and what it says.
pub open spec fn says_once(fields: Seq<Field>, name: Seq<char>, value: Seq<char>) -> bool {
    exists|i: int|
        {
            &&& 0 <= i < fields.len()
            &&& (#[trigger] fields[i]).name@ == name
            &&& fields[i].value@ == value
            &&& forall|j: int|
                0 <= j < fields.len() && j != i ==> (#[trigger] fields[j]).name@ != name
        }
}

/// Whether no field has a name.
pub open spec fn keeps_silent(fields: Seq<Field>, name: Seq<char>) -> bool {
    forall|i: int| 0 <= i < fields.len() ==> (#[trigger] fields[i]).name@ != name
}

/// The upstream hears, once each, of the provider's model, the prompt, and every choice of the
/// user that is not what it does anyway; and of nothing else.
pub proof fn choices_reach_the_upstream(
    provider: &ProviderConfiguration,
    request: &GenerateRequest,
    r: Vec<Field>,
)
    requires
        call_ensures(upstream_fields, (provider, request), r),
    ensures
        says_once(r@, "model"@, provider.model@),
        says_once(r@, "prompt"@, text::trimmed(request.prompt@)),
        request.size@ != "auto"@ ==> says_once(r@, "size"@, request.size@),
        request.size@ == "auto"@ ==> keeps_silent(r@, "size"@),
        request.quality@ != "auto"@ ==> says_once(r@, "quality"@, request.quality@),
        request.quality@ == "auto"@ ==> keeps_silent(r@, "quality"@),
        request.output_format@ != "png"@ ==> says_once(
            r@,
            "output_format"@,
            request.output_format@,
        ),
        request.output_format@ == "png"@ ==> keeps_silent(r@, "output_format"@),
        r@.len() == 2 + (if request.size@ != "auto"@ { 1int } else { 0 }) + (if request.quality@
            != "auto"@ { 1int } else { 0 }) + (if request.output_format@ != "png"@ {
            1int
        } else {
            0
        }),
{
    reveal_strlit("model");
    reveal_strlit("prompt");
    reveal_strlit("size");
    reveal_strlit("quality");
    reveal_strlit("output_format");
    assert("model"@.len() == 5 && "prompt"@.len() == 6 && "size"@.len() == 4 && "quality"@.len()
        == 7 && "output_format"@.len() == 13);
    let views = field_views(r@);
    assert(views.len() == r@.len());
    assert forall|i: int| 0 <= i < r@.len() implies (#[trigger] r@[i]).name@ == views[i].0
        && r@[i].value@ == views[i].1 by {}
    assert(r@[0].name@ == "model"@ && r@[1].name@ == "prompt"@);
    let a: int = if request.size@ != "auto"@ { 1 } else { 0 };
    let b: int = if request.quality@ != "auto"@ { 1 } else { 0 };
    if request.size@ != "auto"@ {
        assert(r@[2].name@ == "size"@);
    }
    if request.quality@ != "auto"@ {
        assert(r@[2 + a].name@ == "quality"@);
    }
    if request.output_format@ != "png"@ {
        assert(r@[2 + a + b].name@ == "output_format"@);
    }
    assert forall|i: int| 0 <= i < r@.len() implies {
        let length = (#[trigger] r@[i]).name@.len();
        &&& length == 4 <==> a == 1 && i == 2
        &&& length == 7 <==> b == 1 && i == 2 + a
        &&& length == 13 <==> i == 2 + a + b
    } by {
        assert(i == 0 || i == 1 || i == 2 || i == 3 || i == 4);
    }
}

/// Every call of an edit asks for one image with the user's own words and choices. Where the
/// edit is no batch, each of its calls carries all the images, in order, and the mask, if there
/// is one, byte by byte; there are as many calls as results.
pub proof fn edits_carry_images_and_mask(request: &EditRequest, r: Vec<EditRequest>, i: int)
    requires
        call_ensures(edit_calls, (request,), r),
        !request.batch,
        0 <= i < r@.len(),
    ensures
        r@.len() == request.generation.n,
        r@[i].images@.len() == request.images@.len(),
        forall|k: int|
            0 <= k < request.images@.len() ==> (#[trigger] r@[i].images@[k]).bytes@
                == request.images@[k].bytes@ && r@[i].images@[k].file_name@
                == request.images@[k].file_name@ && r@[i].images@[k].mime_type@
                == request.images@[k].mime_type@,
        r@[i].mask is Some <==> request.mask is Some,
        r@[i].mask matches Some(mask) ==> {
            &&& mask.bytes@ == request.mask->0.bytes@
            &&& mask.file_name@ == request.mask->0.file_name@
            &&& mask.mime_type@ == request.mask->0.mime_type@
        },
{
    assert(is_edit_call(*request, r@[i], i));
}

/// A batch sends every image in a call of its own, in order, and no mask with any of them.
pub proof fn batches_send_every_image_once(request: &EditRequest, r: Vec<EditRequest>, i: int)
    requires
        call_ensures(edit_calls, (request,), r),
        request.batch,
        0 <= i < r@.len(),
    ensures
        r@.len() == request.images@.len(),
        r@[i].images@.len() == 1,
        r@[i].images@[0].bytes@ == request.images@[i].bytes@,
        r@[i].images@[0].file_name@ == request.images@[i].file_name@,
        r@[i].images@[0].mime_type@ == request.images@[i].mime_type@,
        r@[i].mask is None,
{
    assert(is_edit_call(*request, r@[i], i));
    assert(r@[i].images@[0].same_as(seq![request.images@[i]][0]));
}

/// Every call of an edit asks for one image, in the user's words and with the user's choices.
pub proof fn edit_calls_ask_as_the_user_did(request: &EditRequest, r: Vec<EditRequest>, i: int)
    requires
        call_ensures(edit_calls, (request,), r),
        0 <= i < r@.len(),
    ensures
        r@[i].generation.n == 1,
        !r@[i].batch,
        r@[i].generation.prompt@ == request.generation.prompt@,
        r@[i].generation.size@ == request.generation.size@,
        r@[i].generation.quality@ == request.generation.quality@,
        r@[i].generation.output_format@ == request.generation.output_format@,
        r@[i].generation.is_public == request.generation.is_public,
        r@[i].generation.model == request.generation.model,
{
    assert(is_edit_call(*request, r@[i], i));
}

/// One image out of several is asked for in the same words and with the same choices.
pub proof fn single_requests_ask_for_one(request: &GenerateRequest, r: GenerateRequest)
    requires
        call_ensures(single_request, (request,), r),
    ensures
        r.n == 1,
        r.prompt@ == request.prompt@,
        r.size@ == request.size@,
        r.quality@ == request.quality@,
        r.output_format@ == request.output_format@,
        r.is_public == request.is_public,
        r.model == request.model,
{
}

/// An edit costs one credit for each image that it can bring.
pub proof fn edits_cost_one_credit_each(request: &EditRequest, cost: usize, calls: Vec<EditRequest>)
    requires
        call_ensures(edit_cost, (request,), cost),
        call_ensures(edit_calls, (request,), calls),
    ensures
        cost == calls@.len(),
        request.batch ==> cost == request.images@.len(),
        !request.batch ==> cost == request.generation.n,
{
}

/// An endpoint stands under the provider's `/v1`, which is written once: what is cut from the
/// base are slashes at its end, and what is added is `/v1`, unless it is there, and the suffix.
pub proof fn endpoints_stand_under_one_version(base_url: &str, suffix: &str, r: String) -> (to: int)
    requires
        call_ensures(provider_endpoint, (base_url, suffix), r),
    ensures
        0 <= to <= base_url@.len(),
        forall|i: int| to <= i < base_url@.len() ==> #[trigger] base_url@[i] == '/',
        to > 0 ==> base_url@[to - 1] != '/',
        "/v1"@.is_suffix_of(base_url@.take(to)) ==> r@ == base_url@.take(to) + suffix@,
        !"/v1"@.is_suffix_of(base_url@.take(to)) ==> r@ == base_url@.take(to) + "/v1"@ + suffix@,
{
    text::trimmed_end_is_what_lies_before(base_url@, '/')
}

/// With or without its version and a slash at its end, a base leads to the same endpoint.
pub proof fn version_and_slash_make_no_difference(
    plain: &str,
    slashed: &str,
    versioned: &str,
    suffix: &str,
    r: String,
    s: String,
    v: String,
)
    requires
        call_ensures(provider_endpoint, (plain, suffix), r),
        call_ensures(provider_endpoint, (slashed, suffix), s),
        call_ensures(provider_endpoint, (versioned, suffix), v),
        slashed@ == plain@.push('/'),
        versioned@ == plain@ + "/v1"@,
        plain@.len() > 0,
        plain@.last() != '/',
        !"/v1"@.is_suffix_of(plain@),
    ensures
        s@ == r@,
        v@ == r@,
        suffix@.is_suffix_of(r@),
        plain@.is_prefix_of(r@),
{
    reveal_strlit("/v1");
    assert(slashed@.drop_last() == plain@);
    assert(text::trimmed_end(slashed@, '/') == text::trimmed_end(plain@, '/'));
    assert(text::trimmed_end(plain@, '/') == plain@);
    assert(versioned@.last() == "/v1"@.last());
    assert(text::trimmed_end(versioned@, '/') == versioned@);
    assert(versioned@.subrange(versioned@.len() - 3, versioned@.len() as int) =~= "/v1"@);
    assert(r@.subrange(r@.len() - suffix@.len(), r@.len() as int) =~= suffix@);
    assert(r@.subrange(0, plain@.len() as int) =~= plain@);
}

/// Whether a returned image can be used: it is there, in base64, and of a known format.
pub open spec fn is_readable(item: UpstreamImage) -> bool {
    &&& item.b64_json is Some
    &&& encoding::base64_bytes(item.b64_json->0@) is Ok
    &&& parse::format_of(encoding::base64_bytes(item.b64_json->0@)->Ok_0) is Some
}

/// Where the search for a refused image ends.
proof fn lemma_images_refusal(items: Seq<UpstreamImage>, from: int, count: int)
    requires
        0 <= from,
    ensures
        images_refusal(items, from, count) is None <==> forall|i: int|
            from <= i < items.len() && i < count ==> is_readable(#[trigger] items[i]),
    decreases count - from,
{
    if from < count && from < items.len() {
        lemma_images_refusal(items, from + 1, count);
    }
}

/// An upstream answer is good exactly where it is a success that can be read, brings an image, and
/// every image that is wanted is readable; every other one is a bad gateway.
pub proof fn answers_are_judged_by_status_and_images<U>(
    status: u16,
    status_text: &str,
    body: &str,
    parsed: Option<UpstreamResponse<U>>,
    expected: usize,
    r: AppResult<(Vec<GeneratedOutput>, Option<U>)>,
)
    requires
        call_ensures(
            parse_upstream_response::<U>,
            (status, status_text, body, parsed, expected),
            r,
        ),
    ensures
        r is Ok <==> {
            &&& 200 <= status <= 299
            &&& expected > 0
            &&& parsed is Some
            &&& parsed->0.data is Some
            &&& parsed->0.data->0@.len() > 0
            &&& forall|i: int|
                0 <= i < parsed->0.data->0@.len() && i < expected ==> is_readable(
                    #[trigger] parsed->0.data->0@[i],
                )
        },
        r matches Err(error) ==> error.0 == 502,
{
    if parsed is Some {
        lemma_images_refusal(answered_images(parsed->0), 0, expected as int);
    }
}

/// A good answer brings its images in order, as they were sent and as many as were asked for, and
/// the usage that it reports.
pub proof fn good_answers_bring_their_images<U>(
    status: u16,
    status_text: &str,
    body: &str,
    parsed: Option<UpstreamResponse<U>>,
    expected: usize,
    r: AppResult<(Vec<GeneratedOutput>, Option<U>)>,
    i: int,
)
    requires
        call_ensures(
            parse_upstream_response::<U>,
            (status, status_text, body, parsed, expected),
            r,
        ),
        r is Ok,
        0 <= i < expected,
        i < parsed->0.data->0@.len(),
    ensures
        parsed->0.data->0@.len() <= expected ==> r->Ok_0.0@.len() == parsed->0.data->0@.len(),
        parsed->0.data->0@.len() > expected ==> r->Ok_0.0@.len() == expected,
        r->Ok_0.0@[i].encoded@ == parsed->0.data->0@[i].b64_json->0@,
        encoding::base64_bytes(r->Ok_0.0@[i].encoded@) == Ok::<Seq<u8>, Base64Error>(
            r->Ok_0.0@[i].bytes@,
        ),
        Some(r->Ok_0.0@[i].format@) == (match parse::format_of(r->Ok_0.0@[i].bytes@) {
            Some(found) => Some(found.0),
            None => None,
        }),
        r->Ok_0.1 == parsed->0.usage,
{
    assert(is_output(answered_images(parsed->0)[i], r->Ok_0.0@[i]));
}

/// A failed answer is told in the upstream's own words where it has any, and else by its status.
pub proof fn failed_answers_are_told<U>(
    status: u16,
    status_text: &str,
    body: &str,
    parsed: Option<UpstreamResponse<U>>,
    expected: usize,
    r: AppResult<(Vec<GeneratedOutput>, Option<U>)>,
)
    requires
        call_ensures(
            parse_upstream_response::<U>,
            (status, status_text, body, parsed, expected),
            r,
        ),
        status < 200 || status > 299,
    ensures
        r is Err,
        parsed is Some && parsed->0.error is Some && parsed->0.error->0.message is Some
            ==> r->Err_0.1@ == parsed->0.error->0.message->0@,
        parsed is None || parsed->0.error is None || parsed->0.error->0.message is None ==> (
        "上游返回 "@ + status_text@).is_prefix_of(r->Err_0.1@),
        parsed is None && 0 < text::trimmed(body@).len() <= 500 ==> text::trimmed(
            body@,
        ).is_suffix_of(r->Err_0.1@),
{
    let told = r->Err_0.1@;
    let start = "上游返回 "@ + status_text@;
    if parsed is None || parsed->0.error is None || parsed->0.error->0.message is None {
        assert(told.subrange(0, start.len() as int) =~= start);
    }
    let rest = text::trimmed(body@);
    if parsed is None && 0 < rest.len() <= 500 {
        assert(text::shortened(rest, 500) =~= rest);
        assert(told.subrange(told.len() - rest.len(), told.len() as int) =~= rest);
    }
}

/// Whether two images are the same file.
pub open spec fn is_copy(copy: ImageInput, original: ImageInput) -> bool {
    &&& copy.bytes@ == original.bytes@
    &&& copy.file_name@ == original.file_name@
    &&& copy.mime_type@ == original.mime_type@
}

/// A copied list holds the same files in the same order.
pub proof fn copied_inputs_are_the_same(list: &[ImageInput], r: Vec<ImageInput>)
    requires
        call_ensures(copy_inputs, (list,), r),
    ensures
        r@.len() == list@.len(),
        forall|i: int| 0 <= i < list@.len() ==> is_copy(#[trigger] r@[i], list@[i]),
{
}

/// One more reply adds its images behind the others, or else its error behind the others, and
/// counts its usage where it reports one; nothing that came before is lost.
pub proof fn every_reply_counts<U>(
    replies: Vec<UpstreamReply<U>>,
    more: Vec<UpstreamReply<U>>,
    reply: UpstreamReply<U>,
    inputs: &[Vec<ImageInput>],
    r: Collected<U>,
    s: Collected<U>,
)
    requires
        more@ == replies@.push(reply),
        call_ensures(collect_replies::<U>, (replies, inputs), r),
        call_ensures(collect_replies::<U>, (more, inputs), s),
    ensures
        replies@.len() == 0 ==> r.outputs@.len() == 0 && r.errors@.len() == 0 && r.usage is None,
        match reply {
            UpstreamReply::Generated(outputs, usage) => {
                &&& s.outputs@ == r.outputs@ + outputs@
                &&& text::views(s.errors@) == text::views(r.errors@)
                &&& usage is Some ==> s.usage == usage
                &&& usage is None ==> s.usage == r.usage
            },
            UpstreamReply::Failed(error) => {
                &&& s.outputs@ == r.outputs@
                &&& text::views(s.errors@) == text::views(r.errors@).push(error.1@)
                &&& s.usage == r.usage
            },
            UpstreamReply::Crashed => {
                &&& s.outputs@ == r.outputs@
                &&& s.errors@.len() == r.errors@.len() + 1
                &&& s.usage == r.usage
            },
        },
        s.references@.len() == s.outputs@.len(),
{
    let n = replies@.len() as int;
    lemma_replies_prefix(replies@, more@, n);
    assert(more@[n] == reply);
    assert(text::views(s.errors@).len() == s.errors@.len());
    assert(text::views(r.errors@).len() == r.errors@.len());
    assert(s.outputs@ =~= s.outputs@ + Seq::<GeneratedOutput>::empty());
}

/// What the first replies brought does not hang on those behind them.
proof fn lemma_replies_prefix<U>(
    replies: Seq<UpstreamReply<U>>,
    more: Seq<UpstreamReply<U>>,
    count: int,
)
    requires
        count <= replies.len() <= more.len(),
        forall|i: int| 0 <= i < replies.len() ==> replies[i] == more[i],
    ensures
        reply_outputs(replies, count) == reply_outputs(more, count),
        reply_errors(replies, count) == reply_errors(more, count),
        reply_usage(replies, count) == reply_usage(more, count),
        reply_sources(replies, count) == reply_sources(more, count),
    decreases count,
{
    if count > 0 {
        lemma_replies_prefix(replies, more, count - 1);
    }
}

/// The images that a reply brought are kept with the images that its request was made from, and
/// those that came before with theirs.
pub proof fn images_keep_what_they_were_made_from<U>(
    replies: Vec<UpstreamReply<U>>,
    more: Vec<UpstreamReply<U>>,
    outputs: Vec<GeneratedOutput>,
    usage: Option<U>,
    inputs: &[Vec<ImageInput>],
    r: Collected<U>,
    s: Collected<U>,
    i: int,
)
    requires
        more@ == replies@.push(UpstreamReply::Generated(outputs, usage)),
        call_ensures(collect_replies::<U>, (replies, inputs), r),
        call_ensures(collect_replies::<U>, (more, inputs), s),
        0 <= i < s.outputs@.len(),
    ensures
        ({
            let kept = s.references@[i]@;
            &&& i < r.outputs@.len() ==> kept.len() == r.references@[i]@.len() && forall|k: int|
                0 <= k < kept.len() ==> is_copy(#[trigger] kept[k], r.references@[i]@[k])
            &&& i >= r.outputs@.len() && replies@.len() < inputs@.len() ==> kept.len()
                == inputs@[replies@.len() as int]@.len() && forall|k: int|
                0 <= k < kept.len() ==> is_copy(
                    #[trigger] kept[k],
                    inputs@[replies@.len() as int]@[k],
                )
            &&& i >= r.outputs@.len() && replies@.len() >= inputs@.len() ==> kept.len() == 0
        }),
{
    let n = replies@.len() as int;
    lemma_replies_prefix(replies@, more@, n);
    assert(more@[n] == UpstreamReply::Generated(outputs, usage));
    let before = reply_sources(replies@, n);
    let after = reply_sources(more@, n + 1);
    assert(after == before + Seq::new(outputs@.len(), |k: int| n));
    assert(reply_outputs(more@, n + 1) == reply_outputs(replies@, n) + outputs@);
    let kept = s.references@[i]@;
    assert(same_inputs(kept, inputs_behind(inputs@, after[i])));
    if i < r.outputs@.len() {
        assert(after[i] == before[i]);
        assert(same_inputs(r.references@[i]@, inputs_behind(inputs@, before[i])));
        assert forall|k: int| 0 <= k < kept.len() implies is_copy(
            #[trigger] kept[k],
            r.references@[i]@[k],
        ) by {
            assert(r.references@[i]@[k].same_as(inputs_behind(inputs@, before[i])[k]));
        }
    } else {
        assert(after[i] == n);
    }
}

/// Where no image came back the client is told the first thing that went wrong; where one did,
/// nothing.
pub proof fn the_first_error_is_told<U>(collected: &Collected<U>, r: Option<AppError>)
    requires
        call_ensures(empty_failure::<U>, (collected,), r),
    ensures
        r is None <==> collected.outputs@.len() > 0,
        r matches Some(error) ==> error.0 == 502,
        r is Some && collected.errors@.len() > 0 ==> r->0 .1@ == collected.errors@[0]@,
        r is Some && collected.errors@.len() == 0 ==> r->0 .1@.len() > 0,
{
    reveal_strlit("上游未返回图片");
    if collected.errors@.len() > 0 {
        assert(text::views(collected.errors@)[0] == collected.errors@[0]@);
    } else {
        assert(text::views(collected.errors@).len() == 0);
    }
}

/// With each call goes a copy of the images that it was made from.
pub proof fn calls_keep_their_inputs(calls: &[EditRequest], r: Vec<Vec<ImageInput>>, i: int)
    requires
        call_ensures(call_inputs, (calls,), r),
        0 <= i < calls@.len(),
    ensures
        r@.len() == calls@.len(),
        r@[i]@.len() == calls@[i].images@.len(),
        forall|k: int|
            0 <= k < calls@[i].images@.len() ==> is_copy(
                #[trigger] r@[i]@[k],
                calls@[i].images@[k],
            ),
{
    assert(same_inputs(r@[i]@, calls@[i].images@));
}

/// A success that cannot be read is told with how its body begins, as far as 500 characters go, or
/// as empty where there is none.
pub proof fn unreadable_answers_are_told<U>(
    status: u16,
    status_text: &str,
    body: &str,
    expected: usize,
    shown: String,
    trimmed: &str,
    r: AppResult<(Vec<GeneratedOutput>, Option<U>)>,
)
    requires
        call_ensures(
            parse_upstream_response::<U>,
            (status, status_text, body, None, expected),
            r,
        ),
        200 <= status <= 299,
        call_ensures(text::trim, (body,), trimmed),
        call_ensures(text::take, (trimmed, 500), shown),
    ensures
        r is Err,
        trimmed@.len() == 0 ==> r->Err_0.1@ == "上游响应为空"@,
        trimmed@.len() > 0 ==> r->Err_0.1@ == "上游响应无效: "@ + shown@,
{
}

/// The first returned image that cannot be used is told by what is wrong with it.
pub proof fn unusable_images_are_told<U>(
    status: u16,
    status_text: &str,
    body: &str,
    parsed: Option<UpstreamResponse<U>>,
    expected: usize,
    i: int,
    r: AppResult<(Vec<GeneratedOutput>, Option<U>)>,
)
    requires
        call_ensures(
            parse_upstream_response::<U>,
            (status, status_text, body, parsed, expected),
            r,
        ),
        200 <= status <= 299,
        parsed is Some,
        parsed->0.data is Some,
        0 <= i < parsed->0.data->0@.len(),
        i < expected,
        forall|j: int| 0 <= j < i ==> is_readable(#[trigger] parsed->0.data->0@[j]),
    ensures
        ({
            let item = parsed->0.data->0@[i];
            &&& item.b64_json is None ==> r is Err && r->Err_0.1@ == "上游响应缺少图片数据"@
            &&& item.b64_json is Some && encoding::base64_bytes(item.b64_json->0@) is Err ==> r is Err
                && r->Err_0.1@ == "上游图片数据无法解码"@
            &&& item.b64_json is Some && encoding::base64_bytes(item.b64_json->0@) is Ok
                && parse::format_of(encoding::base64_bytes(item.b64_json->0@)->Ok_0) is None
                ==> r is Err && r->Err_0.1@ == "上游返回的图片格式无效"@
        }),
{
    let items = parsed->0.data->0@;
    if image_refusal(items[i]) is Some {
        lemma_refused_at(items, 0, expected as int, i);
    }
}

proof fn lemma_refused_at(items: Seq<UpstreamImage>, from: int, count: int, at: int)
    requires
        0 <= from <= at < items.len(),
        at < count,
        forall|j: int| from <= j < at ==> is_readable(#[trigger] items[j]),
        image_refusal(items[at]) is Some,
    ensures
        images_refusal(items, from, count) == image_refusal(items[at]),
    decreases at - from,
{
    if from < at {
        assert(is_readable(items[from]));
        lemma_refused_at(items, from + 1, count, at);
    }
}

} // verus!
