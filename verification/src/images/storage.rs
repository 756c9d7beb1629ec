//! Storing generated images: their files, their rows and their price.

use vstd::prelude::*;

use crate::classification;
use crate::classification::CATEGORY_VERSION;
use crate::clock::Moment;
use crate::images::credits;
use crate::images::credits::{
    call_log, settle_failure, Account, CallContext, FailureRecords, LedgerEntry, TaskUpdate,
    UsageLog,
};
use crate::images::parse;
use crate::images::{GenerationResult, RequestMetadata};
use crate::json;
use crate::model;
use crate::model::{
    refuse, AppError, AppResult, GenerateRequest, ImageInput, ImageResponse, ProviderConfiguration,
    CONFLICT, INTERNAL_SERVER_ERROR,
};
use crate::text;
use crate::token;

verus! {

/// An image as the upstream returned it.
#[derive(Debug, PartialEq, Eq)]
pub struct GeneratedOutput {
    pub encoded: String,
    pub bytes: Vec<u8>,
    pub format: String,
}

/// An image with the files under which it is stored.
#[derive(Debug, PartialEq, Eq)]
pub struct StoredOutput {
    pub id: String,
    pub file_name: String,
    pub encoded: String,
    pub format: String,
    pub reference_files: Vec<String>,
}

/// A file to write, and what the client is told if that fails.
#[derive(Debug, PartialEq, Eq)]
pub struct FileWrite {
    pub name: String,
    pub bytes: Vec<u8>,
    pub failure: &'static str,
}

/// What the client is told if an image cannot be written.
pub const IMAGE_WRITE_FAILED: &'static str = "图片保存失败";

/// What the client is told if a reference image cannot be written.
pub const REFERENCE_WRITE_FAILED: &'static str = "参考图保存失败";

/// What the log says if the rows cannot be written.
pub const RECORD_WRITE_FAILED: &'static str = "图片记录保存失败";

/// The file name of an image's reference.
pub open spec fn reference_name(id: Seq<char>, index: int, bytes: Seq<u8>) -> Seq<char> {
    id + "-reference-"@ + text::digits(index as nat) + "."@ + parse::extension_of(bytes)
}

/// The files of an image, its own and those of its references, for two given tokens.
pub open spec fn stores(
    stored: StoredOutput,
    output: GeneratedOutput,
    references: Seq<ImageInput>,
    image_token: Seq<char>,
    file_token: Seq<char>,
) -> bool {
    &&& stored.id@ == "img-"@ + image_token
    &&& stored.file_name@ == file_token + "."@ + output.format@
    &&& stored.encoded@ == output.encoded@
    &&& stored.format@ == output.format@
    &&& text::views(stored.reference_files@) == Seq::new(
        references.len(),
        |j: int| reference_name(stored.id@, j, references[j].bytes@),
    )
}

/// What a write puts where, and what is said if it fails.
pub open spec fn write_view(write: FileWrite) -> (Seq<char>, Seq<u8>, Seq<char>) {
    (write.name@, write.bytes@, write.failure@)
}

pub open spec fn write_views(writes: Seq<FileWrite>) -> Seq<(Seq<char>, Seq<u8>, Seq<char>)> {
    Seq::new(writes.len(), |i: int| write_view(writes[i]))
}

/// The writes that store one image: its own file, then its references.
pub open spec fn output_writes(
    stored: StoredOutput,
    output: GeneratedOutput,
    references: Seq<ImageInput>,
) -> Seq<(Seq<char>, Seq<u8>, Seq<char>)> {
    seq![(stored.file_name@, output.bytes@, IMAGE_WRITE_FAILED@)] + Seq::new(
        references.len(),
        |j: int|
            (
                reference_name(stored.id@, j, references[j].bytes@),
                references[j].bytes@,
                REFERENCE_WRITE_FAILED@,
            ),
    )
}

/// The file name of an image's reference.
fn reference_file_name(id: &str, index: usize, bytes: &[u8]) -> (r: String)
    ensures
        r@ == reference_name(id@, index as int, bytes@),
{
    let number = text::decimal(index as u128);
    let stem = text::concat3(id, "-reference-", number.as_str());
    text::concat3(stem.as_str(), ".", parse::image_extension(bytes))
}

/// The files of one image, for two given tokens, and the writes that store them.
pub fn plan_output(
    output: GeneratedOutput,
    references: &[ImageInput],
    image_token: &str,
    file_token: &str,
) -> (r: (StoredOutput, Vec<FileWrite>))
    ensures
        stores(r.0, output, references@, image_token@, file_token@),
        write_views(r.1@) == output_writes(r.0, output, references@),
{
    let id = text::concat("img-", image_token);
    let file_name = text::concat3(file_token, ".", output.format.as_str());
    let mut writes: Vec<FileWrite> = Vec::new();
    let mut reference_files: Vec<String> = Vec::new();
    writes.push(
        FileWrite { name: file_name.clone(), bytes: output.bytes, failure: IMAGE_WRITE_FAILED },
    );
    let mut j: usize = 0;
    while j < references.len()
        invariant
            j <= references@.len(),
            writes@.len() == j + 1,
            reference_files@.len() == j,
            write_view(writes@[0]) == (file_name@, output.bytes@, IMAGE_WRITE_FAILED@),
            forall|k: int|
                0 <= k < j ==> (#[trigger] reference_files@[k])@ == reference_name(
                    id@,
                    k,
                    references@[k].bytes@,
                ),
            forall|k: int|
                0 <= k < j ==> write_view(#[trigger] writes@[k + 1]) == (
                    reference_name(id@, k, references@[k].bytes@),
                    references@[k].bytes@,
                    REFERENCE_WRITE_FAILED@,
                ),
        decreases references@.len() - j,
    {
        let name = reference_file_name(id.as_str(), j, &references[j].bytes);
        writes.push(
            FileWrite {
                name: name.clone(),
                bytes: references[j].bytes.clone(),
                failure: REFERENCE_WRITE_FAILED,
            },
        );
        reference_files.push(name);
        j += 1;
    }
    let stored = StoredOutput {
        id,
        file_name,
        encoded: output.encoded,
        format: output.format,
        reference_files,
    };
    proof {
        assert(text::views(stored.reference_files@) == Seq::new(
            references@.len(),
            |j: int| reference_name(stored.id@, j, references@[j].bytes@),
        ));
        let wanted = output_writes(stored, output, references@);
        assert forall|i: int| 0 <= i < wanted.len() implies write_views(writes@)[i] == wanted[i] by {
            if i > 0 {
                assert(write_view(writes@[(i - 1) + 1]) == wanted[i]);
            }
        }
        assert(write_views(writes@) == wanted);
    }
    (stored, writes)
}

/// The images to store and the files to write, in order.
#[derive(Debug)]
pub struct StoragePlan {
    pub stored: Vec<StoredOutput>,
    pub writes: Vec<FileWrite>,
}

/// The references of the image at an index; none beyond the list.
pub open spec fn references_of(all: Seq<Vec<ImageInput>>, index: int) -> Seq<ImageInput> {
    if 0 <= index < all.len() {
        all[index]@
    } else {
        Seq::empty()
    }
}

/// Whether an image got files of its own, under some tokens.
pub open spec fn is_stored(
    stored: StoredOutput,
    output: GeneratedOutput,
    references: Seq<ImageInput>,
) -> bool {
    exists|image_token: Seq<char>, file_token: Seq<char>|
        {
            &&& token::is_token(image_token)
            &&& token::is_token(file_token)
            &&& #[trigger] stores(stored, output, references, image_token, file_token)
        }
}

/// The writes that store the first `count` images, in order.
pub open spec fn all_writes(
    stored: Seq<StoredOutput>,
    outputs: Seq<GeneratedOutput>,
    references: Seq<Vec<ImageInput>>,
    count: int,
) -> Seq<(Seq<char>, Seq<u8>, Seq<char>)>
    decreases count,
{
    if count <= 0 {
        Seq::empty()
    } else {
        all_writes(stored, outputs, references, count - 1) + output_writes(
            stored[count - 1],
            outputs[count - 1],
            references_of(references, count - 1),
        )
    }
}

proof fn lemma_writes_prefix(
    stored: Seq<StoredOutput>,
    more: Seq<StoredOutput>,
    outputs: Seq<GeneratedOutput>,
    references: Seq<Vec<ImageInput>>,
    count: int,
)
    requires
        0 <= count <= stored.len() <= more.len(),
        forall|i: int| 0 <= i < stored.len() ==> stored[i] == more[i],
    ensures
        all_writes(stored, outputs, references, count) == all_writes(
            more,
            outputs,
            references,
            count,
        ),
    decreases count,
{
    if count > 0 {
        lemma_writes_prefix(stored, more, outputs, references, count - 1);
    }
}

/// Gives every image files under fresh tokens, and lists the writes that store them.
pub fn plan_outputs(outputs: Vec<GeneratedOutput>, output_references: &[Vec<ImageInput>]) -> (r:
    StoragePlan)
    ensures
        r.stored@.len() == outputs@.len(),
        forall|i: int|
            0 <= i < outputs@.len() ==> is_stored(
                #[trigger] r.stored@[i],
                outputs@[i],
                references_of(output_references@, i),
            ),
        write_views(r.writes@) == all_writes(
            r.stored@,
            outputs@,
            output_references@,
            outputs@.len() as int,
        ),
{
    let mut stored: Vec<StoredOutput> = Vec::new();
    let mut writes: Vec<FileWrite> = Vec::new();
    let no_references: Vec<ImageInput> = Vec::new();
    let ghost all = outputs@;
    assert(write_views(writes@) == all_writes(stored@, all, output_references@, 0));
    for output in iter: outputs
        invariant
            iter.seq() == all,
            stored@.len() == iter.index(),
            no_references@ == Seq::<ImageInput>::empty(),
            forall|i: int|
                0 <= i < stored@.len() ==> is_stored(
                    #[trigger] stored@[i],
                    all[i],
                    references_of(output_references@, i),
                ),
            write_views(writes@) == all_writes(
                stored@,
                all,
                output_references@,
                stored@.len() as int,
            ),
    {
        let index: usize = stored.len();
        let image_token = token::unique_token();
        let file_token = token::unique_token();
        let references: &[ImageInput] = if index < output_references.len() {
            &output_references[index]
        } else {
            &no_references
        };
        let (item, mut item_writes) = plan_output(
            output,
            references,
            image_token.as_str(),
            file_token.as_str(),
        );
        let ghost before = stored@;
        let ghost earlier = writes@;
        let ghost later = item_writes@;
        stored.push(item);
        writes.append(&mut item_writes);
        proof {
            lemma_writes_prefix(before, stored@, all, output_references@, index as int);
            assert(write_views(writes@) == write_views(earlier) + write_views(later));
        }
    }
    StoragePlan { stored, writes }
}

/// The files that were written so far; they go again unless the work is committed.
#[derive(Debug)]
pub struct OutputRollback {
    pub paths: Vec<String>,
    pub committed: bool,
}

impl OutputRollback {
    pub fn new() -> (r: Self)
        ensures
            r.paths@ == Seq::<String>::empty(),
            !r.committed,
    {
        OutputRollback { paths: Vec::new(), committed: false }
    }

    /// Takes down a file, before it is written.
    pub fn track(&mut self, path: &str)
        ensures
            text::views(final(self).paths@) == text::views(old(self).paths@).push(path@),
            final(self).committed == old(self).committed,
    {
        let ghost before = text::views(self.paths@);
        self.paths.push(path.to_owned());
        assert(text::views(self.paths@) == before.push(path@));
    }

    /// Keeps the files.
    pub fn commit(&mut self)
        ensures
            final(self).paths == old(self).paths,
            final(self).committed,
    {
        self.committed = true;
    }

    /// The files to remove when the work ends: none where it was committed, else all.
    pub fn removals(&self) -> (r: Vec<String>)
        ensures
            r@ == if self.committed {
                Seq::<String>::empty()
            } else {
                self.paths@
            },
    {
        if self.committed {
            Vec::new()
        } else {
            text::copies(&self.paths)
        }
    }
}

impl Default for OutputRollback {
    fn default() -> (r: Self)
        ensures
            r.paths@ == Seq::<String>::empty(),
            !r.committed,
    {
        OutputRollback::new()
    }
}

/// Whose images are stored, for which request, and what was set aside for it.
#[derive(Debug)]
pub struct StoreContext<'a> {
    pub user_id: &'a str,
    pub provider: &'a ProviderConfiguration,
    pub request: &'a GenerateRequest,
    pub metadata: &'a RequestMetadata,
    pub reserved: i64,
    pub endpoint: &'a str,
    pub duration_ms: i64,
    pub task_id: Option<&'a str>,
}

impl<'a> StoreContext<'a> {
    /// The call that the context is of: its prompt is the request's, trimmed.
    pub open spec fn is_call(self, call: CallContext<'_>) -> bool {
        &&& call.user_id@ == self.user_id@
        &&& text::opt_str(call.provider_id) == Some(self.provider.id@)
        &&& call.metadata == self.metadata
        &&& call.endpoint@ == self.endpoint@
        &&& call.duration_ms == self.duration_ms
        &&& text::opt_str(call.task_id) == text::opt_str(self.task_id)
        &&& call.prompt@ == text::trimmed(self.request.prompt@)
    }

    /// Whether the images wait on a desktop client to fetch them.
    pub open spec fn pending(self) -> bool {
        self.metadata.desktop && self.metadata.device_id@.len() > 0
    }

    /// Where the images are kept.
    pub open spec fn storage(self) -> Seq<char> {
        if self.pending() {
            "pending"@
        } else {
            "server"@
        }
    }

    /// The device that the images are bound to.
    pub open spec fn device(self) -> Seq<char> {
        if self.pending() {
            self.metadata.device_id@
        } else {
            ""@
        }
    }

    /// The call that the context is of.
    pub fn call(&self) -> (r: CallContext<'_>)
        ensures
            self.is_call(r),
    {
        CallContext {
            user_id: self.user_id,
            provider_id: Some(self.provider.id.as_str()),
            metadata: self.metadata,
            endpoint: self.endpoint,
            duration_ms: self.duration_ms,
            task_id: self.task_id,
            prompt: text::trim(self.request.prompt.as_str()),
        }
    }

    fn is_pending(&self) -> (r: bool)
        ensures
            r == self.pending(),
    {
        self.metadata.desktop && text::characters(self.metadata.device_id.as_str()).len() > 0
    }
}

/// The visibility of an image.
pub open spec fn visibility(is_public: bool) -> Seq<char> {
    if is_public {
        "public"@
    } else {
        "private"@
    }
}

/// The word for the visibility of an image.
pub fn visibility_word(is_public: bool) -> (r: &'static str)
    ensures
        r@ == visibility(is_public),
{
    if is_public {
        "public"
    } else {
        "private"
    }
}

/// The row of a stored image.
#[derive(Debug, PartialEq, Eq)]
pub struct ImageRow {
    pub id: String,
    pub user_id: String,
    pub file_name: String,
    pub prompt: String,
    pub size: String,
    pub model: String,
    pub created_at: String,
    pub visibility: String,
    pub format: String,
    pub category: String,
    pub storage: String,
    pub device_id: String,
    pub reference_files: String,
    pub usage_log_id: String,
    pub category_version: i64,
}

/// What is written when images were stored.
#[derive(Debug, PartialEq, Eq)]
pub struct StoreRecords {
    pub ledger: LedgerEntry,
    pub images: Vec<ImageRow>,
    pub log: UsageLog,
    pub task: Option<TaskUpdate>,
}

/// Whether a row is that of a stored image.
pub open spec fn is_image_row(
    row: ImageRow,
    context: StoreContext<'_>,
    stored: StoredOutput,
    log_id: Seq<char>,
    created_at: Seq<char>,
) -> bool {
    &&& row.id@ == stored.id@
    &&& row.user_id@ == context.user_id@
    &&& row.file_name@ == stored.file_name@
    &&& row.prompt@ == text::trimmed(context.request.prompt@)
    &&& row.size@ == context.request.size@
    &&& row.model@ == context.provider.model@
    &&& row.created_at@ == created_at
    &&& row.visibility@ == visibility(context.request.is_public)
    &&& row.format@ == stored.format@
    &&& row.category@ == classification::category_of(text::lowercase(context.request.prompt@))
    &&& row.storage@ == context.storage()
    &&& row.device_id@ == context.device()
    &&& row.reference_files@ == json::string_list_text(text::views(stored.reference_files@))
    &&& json::string_list(row.reference_files@) == Some(text::views(stored.reference_files@))
    &&& row.usage_log_id@ == log_id
    &&& row.category_version == CATEGORY_VERSION
}

/// Why the images cannot be paid for, if they cannot.
pub open spec fn store_refusal(
    account: Account,
    context: StoreContext<'_>,
    stored: Seq<StoredOutput>,
) -> Option<(u16, Seq<char>)> {
    if !account.can_settle(stored.len() as int, context.reserved as int) {
        Some((CONFLICT, "积分结算状态冲突"@))
    } else {
        None
    }
}

/// What the ledger refers to: the task, or the log where there is none.
pub open spec fn credit_reference(task_id: Option<&str>, log_id: Seq<char>) -> Seq<char> {
    "generation:"@ + text::or_text(text::opt_str(task_id), log_id)
}

/// Whether the records are those of stored images: one credit for each.
pub open spec fn records_success(
    records: StoreRecords,
    context: StoreContext<'_>,
    stored: Seq<StoredOutput>,
    errors: Seq<String>,
    balance: int,
    created_at: Seq<char>,
) -> bool {
    &&& records.ledger.user_id@ == context.user_id@
    &&& records.ledger.delta == -(stored.len() as int)
    &&& records.ledger.balance_after == balance
    &&& records.ledger.reason@ == "image_generation"@
    &&& records.ledger.reference_id@ == credit_reference(context.task_id, records.log.id@)
    &&& records.ledger.operator_user_id is None
    &&& records.ledger.created_at@ == created_at
    &&& records.images@.len() == stored.len()
    &&& forall|i: int|
        0 <= i < stored.len() ==> is_image_row(
            #[trigger] records.images@[i],
            context,
            stored[i],
            records.log.id@,
            created_at,
        )
    &&& exists|call: CallContext<'_>|
        context.is_call(call) && #[trigger] credits::logs_call(records.log, call)
    &&& records.log.status@ == "success"@
    &&& records.log.credits_used == stored.len()
    &&& records.log.error@ == text::joined(text::views(errors), "；"@)
    &&& records.log.created_at@ == created_at
    &&& match context.task_id {
        Some(id) => {
            &&& records.task matches Some(task)
            &&& task.id@ == id@
            &&& task.user_id@ == context.user_id@
            &&& task.status@ == "success"@
            &&& text::opt(task.image_id) == Some(stored[0].id@)
            &&& task.error is None
            &&& task.credits_used == stored.len()
            &&& task.updated_at@ == created_at
        },
        None => records.task is None,
    }
}

/// The rows of the stored images.
fn image_rows(
    context: &StoreContext<'_>,
    stored: &[StoredOutput],
    log_id: &str,
    created_at: &str,
) -> (r: AppResult<Vec<ImageRow>>)
    ensures
        r matches Ok(rows) && rows@.len() == stored@.len() && forall|i: int|
            0 <= i < stored@.len() ==> is_image_row(
                #[trigger] rows@[i],
                *context,
                stored@[i],
                log_id@,
                created_at@,
            ),
{
    let category = classification::classify_prompt(context.request.prompt.as_str());
    let pending = context.is_pending();
    let mut rows: Vec<ImageRow> = Vec::new();
    let mut i: usize = 0;
    while i < stored.len()
        invariant
            i <= stored@.len(),
            rows@.len() == i,
            pending == context.pending(),
            category@ == classification::category_of(text::lowercase(context.request.prompt@)),
            forall|j: int|
                0 <= j < i ==> is_image_row(
                    #[trigger] rows@[j],
                    *context,
                    stored@[j],
                    log_id@,
                    created_at@,
                ),
        decreases stored@.len() - i,
    {
        match json::write_string_list(&stored[i].reference_files) {
            Some(reference_files) => {
                rows.push(
                    ImageRow {
                        id: stored[i].id.clone(),
                        user_id: context.user_id.to_owned(),
                        file_name: stored[i].file_name.clone(),
                        prompt: text::trim(context.request.prompt.as_str()).to_owned(),
                        size: context.request.size.clone(),
                        model: context.provider.model.clone(),
                        created_at: created_at.to_owned(),
                        visibility: visibility_word(context.request.is_public).to_owned(),
                        format: stored[i].format.clone(),
                        category: category.to_owned(),
                        storage: if pending {
                            "pending".to_owned()
                        } else {
                            "server".to_owned()
                        },
                        device_id: if pending {
                            context.metadata.device_id.clone()
                        } else {
                            "".to_owned()
                        },
                        reference_files,
                        usage_log_id: log_id.to_owned(),
                        category_version: CATEGORY_VERSION,
                    },
                );
            },
            None => {
                return refuse(INTERNAL_SERVER_ERROR, "参考图记录无效");
            },
        }
        i += 1;
    }
    Ok(rows)
}

/// Pays for the stored images, one credit each, and writes them down. Where that is refused the
/// account stays as it was.
pub fn store_records(
    context: &StoreContext<'_>,
    account: &mut Account,
    stored: &[StoredOutput],
    errors: &[String],
    log_token: &str,
    ledger_token: &str,
    created_at: &str,
) -> (r: AppResult<StoreRecords>)
    requires
        0 < stored@.len() <= i64::MAX,
        context.reserved >= 0,
    ensures
        model::answers(r, store_refusal(*old(account), *context, stored@)),
        r is Err ==> *final(account) == *old(account),
        r matches Ok(records) ==> {
            &&& *final(account) == old(account).with_spent(
                stored@.len() as int,
                context.reserved as int,
            )
            &&& records.log.id@ == "log-"@ + log_token@
            &&& records.ledger.id@ == "credit-"@ + ledger_token@
            &&& records_success(
                records,
                *context,
                stored@,
                errors@,
                final(account).credits as int,
                created_at@,
            )
        },
{
    let used: i64 = stored.len() as i64;
    let mut settled = *account;
    match settled.spend(used, context.reserved) {
        Err(error) => {
            return Err(error);
        },
        Ok(()) => {},
    }
    let log_id = token::identifier("log-", log_token);
    let images = match image_rows(context, stored, log_id.as_str(), created_at) {
        Ok(rows) => rows,
        Err(error) => {
            return Err(error);
        },
    };
    let reference = match context.task_id {
        Some(id) => id,
        None => log_id.as_str(),
    };
    let ledger = LedgerEntry {
        id: token::identifier("credit-", ledger_token),
        user_id: context.user_id.to_owned(),
        delta: -used,
        balance_after: settled.credits,
        reason: "image_generation".to_owned(),
        reference_id: text::concat("generation:", reference),
        operator_user_id: None,
        created_at: created_at.to_owned(),
    };
    let task = match context.task_id {
        Some(id) => Some(
            TaskUpdate {
                id: id.to_owned(),
                user_id: context.user_id.to_owned(),
                status: "success".to_owned(),
                image_id: Some(stored[0].id.clone()),
                error: None,
                credits_used: used,
                updated_at: created_at.to_owned(),
            },
        ),
        None => None,
    };
    let error_text = text::join(errors, "；");
    let call = context.call();
    let log = call_log(&call, log_id, "success", used, error_text.as_str(), created_at);
    *account = settled;
    let records = StoreRecords { ledger, images, log, task };
    assert(context.is_call(call) && credits::logs_call(records.log, call));
    Ok(records)
}

/// Pays for the stored images and writes them down, under fresh identifiers.
pub fn store_outputs(
    context: &StoreContext<'_>,
    account: &mut Account,
    stored: &[StoredOutput],
    errors: &[String],
    created_at: &str,
) -> (r: AppResult<StoreRecords>)
    requires
        0 < stored@.len() <= i64::MAX,
        context.reserved >= 0,
    ensures
        model::answers(r, store_refusal(*old(account), *context, stored@)),
        r is Err ==> *final(account) == *old(account),
        r matches Ok(records) ==> {
            &&& *final(account) == old(account).with_spent(
                stored@.len() as int,
                context.reserved as int,
            )
            &&& token::is_identifier(records.log.id@, "log-"@)
            &&& token::is_identifier(records.ledger.id@, "credit-"@)
            &&& records_success(
                records,
                *context,
                stored@,
                errors@,
                final(account).credits as int,
                created_at@,
            )
        },
{
    let log_token = token::unique_token();
    let ledger_token = token::unique_token();
    let r = store_records(
        context,
        account,
        stored,
        errors,
        log_token.as_str(),
        ledger_token.as_str(),
        created_at,
    );
    proof {
        if r is Ok {
            assert(r->Ok_0.log.id@.skip("log-"@.len() as int) == log_token@);
            assert(r->Ok_0.ledger.id@.skip("credit-"@.len() as int) == ledger_token@);
        }
    }
    r
}

/// Ends a call whose images could not be stored: gives the reserved credits back, logs the
/// message, and hands the error on.
pub fn abandon_store(
    context: &StoreContext<'_>,
    account: &mut Account,
    message: &str,
    error: AppError,
) -> (r: (FailureRecords, AppError))
    requires
        context.reserved >= 0,
    ensures
        *final(account) == old(account).with_released(context.reserved as int),
        token::is_identifier(r.0.log.id@, "log-"@),
        exists|call: CallContext<'_>, now: Moment|
            context.is_call(call) && #[trigger] credits::failed_at(
                r.0,
                call,
                message@,
                now,
            ),
        r.1 == error,
{
    let call = context.call();
    let records = settle_failure(account, &call, context.reserved, message);
    (records, error)
}

/// Ends a call one of whose files could not be written; client and log get the same message.
pub fn abandon_write(context: &StoreContext<'_>, account: &mut Account, failure: &str) -> (r: (
    FailureRecords,
    AppError,
))
    requires
        context.reserved >= 0,
    ensures
        *final(account) == old(account).with_released(context.reserved as int),
        token::is_identifier(r.0.log.id@, "log-"@),
        exists|call: CallContext<'_>, now: Moment|
            context.is_call(call) && #[trigger] credits::failed_at(
                r.0,
                call,
                failure@,
                now,
            ),
        r.1.0 == INTERNAL_SERVER_ERROR,
        r.1.1@ == failure@,
{
    abandon_store(context, account, failure, AppError(INTERNAL_SERVER_ERROR, failure.to_owned()))
}

/// The address of an image's reference.
pub open spec fn reference_url(id: Seq<char>, index: int) -> Seq<char> {
    "/api/images/"@ + id + "/references/"@ + text::digits(index as nat)
}

/// The addresses of an image's references.
pub fn reference_urls(id: &str, count: usize) -> (r: Vec<String>)
    ensures
        text::views(r@) == Seq::new(count as nat, |i: int| reference_url(id@, i)),
{
    let mut urls: Vec<String> = Vec::new();
    let mut i: usize = 0;
    while i < count
        invariant
            i <= count,
            urls@.len() == i,
            forall|j: int| 0 <= j < i ==> (#[trigger] urls@[j])@ == reference_url(id@, j),
        decreases count - i,
    {
        let number = text::decimal(i as u128);
        let stem = text::concat3("/api/images/", id, "/references/");
        urls.push(text::concat(stem.as_str(), number.as_str()));
        i += 1;
    }
    assert(text::views(urls@) == Seq::new(count as nat, |i: int| reference_url(id@, i)));
    urls
}

/// Whether an answer describes a stored image.
pub open spec fn shows_image(
    shown: ImageResponse,
    context: StoreContext<'_>,
    stored: StoredOutput,
    created_at: Seq<char>,
) -> bool {
    &&& shown.id@ == stored.id@
    &&& shown.url@ == "/api/images/"@ + stored.id@ + "/file"@
    &&& shown.thumbnail_url@ == "/api/images/"@ + stored.id@ + "/thumbnail"@
    &&& shown.prompt@ == text::trimmed(context.request.prompt@)
    &&& shown.size@ == context.request.size@
    &&& shown.model@ == context.provider.model@
    &&& shown.created_at@ == created_at
    &&& shown.source@ == "generated"@
    &&& shown.format@ == stored.format@
    &&& shown.is_public == context.request.is_public
    &&& shown.category@ == classification::category_of(text::lowercase(context.request.prompt@))
    &&& shown.storage@ == context.storage()
    &&& shown.author is None
    &&& text::views(shown.reference_images@) == Seq::new(
        stored.reference_files@.len(),
        |i: int| reference_url(stored.id@, i),
    )
}

/// What the client gets for the stored images.
pub fn generation_result<U>(
    context: &StoreContext<'_>,
    stored: Vec<StoredOutput>,
    created_at: &str,
    credits: i64,
    usage: Option<U>,
    errors: Vec<String>,
) -> (r: GenerationResult<U>)
    ensures
        r.images@.len() == stored@.len(),
        forall|i: int|
            0 <= i < stored@.len() ==> shows_image(
                #[trigger] r.images@[i],
                *context,
                stored@[i],
                created_at@,
            ),
        r.encoded@.len() == stored@.len(),
        forall|i: int| 0 <= i < stored@.len() ==> #[trigger] r.encoded@[i] == stored@[i].encoded,
        r.credits == credits,
        r.usage == usage,
        r.errors == errors,
{
    let category = classification::classify_prompt(context.request.prompt.as_str());
    let pending = context.is_pending();
    let mut images: Vec<ImageResponse> = Vec::new();
    let mut encoded: Vec<String> = Vec::new();
    let ghost all = stored@;
    for file in iter: stored
        invariant
            iter.seq() == all,
            images@.len() == iter.index(),
            encoded@.len() == iter.index(),
            pending == context.pending(),
            category@ == classification::category_of(text::lowercase(context.request.prompt@)),
            forall|i: int|
                0 <= i < images@.len() ==> shows_image(
                    #[trigger] images@[i],
                    *context,
                    all[i],
                    created_at@,
                ),
            forall|i: int| 0 <= i < encoded@.len() ==> #[trigger] encoded@[i] == all[i].encoded,
    {
        let id = file.id.as_str();
        images.push(
            ImageResponse {
                id: file.id.clone(),
                url: text::concat3("/api/images/", id, "/file"),
                thumbnail_url: text::concat3("/api/images/", id, "/thumbnail"),
                prompt: text::trim(context.request.prompt.as_str()).to_owned(),
                size: context.request.size.clone(),
                model: context.provider.model.clone(),
                created_at: created_at.to_owned(),
                source: "generated",
                format: file.format.clone(),
                is_public: context.request.is_public,
                category: category.to_owned(),
                storage: if pending {
                    "pending".to_owned()
                } else {
                    "server".to_owned()
                },
                author: None,
                reference_images: reference_urls(id, file.reference_files.len()),
            },
        );
        encoded.push(file.encoded);
    }
    GenerationResult { images, encoded, credits, usage, errors }
}

/// An image's own file holds the image, and each reference's file that reference, under names that
/// the stored image lists; nothing else is written.
pub proof fn files_hold_what_was_given(
    output: GeneratedOutput,
    references: &[ImageInput],
    image_token: &str,
    file_token: &str,
    r: (StoredOutput, Vec<FileWrite>),
)
    requires
        call_ensures(plan_output, (output, references, image_token, file_token), r),
    ensures
        r.0.encoded@ == output.encoded@,
        r.0.format@ == output.format@,
        (file_token@ + "."@).is_prefix_of(r.0.file_name@),
        output.format@.is_suffix_of(r.0.file_name@),
        r.0.id@ == "img-"@ + image_token@,
        r.1@.len() == references@.len() + 1,
        r.0.reference_files@.len() == references@.len(),
        r.1@[0].name@ == r.0.file_name@,
        r.1@[0].bytes@ == output.bytes@,
        forall|j: int|
            0 <= j < references@.len() ==> (#[trigger] r.1@[j + 1]).bytes@ == references@[j].bytes@
                && r.1@[j + 1].name@ == r.0.reference_files@[j]@,
{
    assert(r.0.file_name@ =~= (file_token@ + "."@) + output.format@);
    assert(r.0.file_name@.subrange(
        r.0.file_name@.len() - output.format@.len(),
        r.0.file_name@.len() as int,
    ) =~= output.format@);
    assert(r.0.file_name@.subrange(0, (file_token@ + "."@).len() as int) =~= file_token@ + "."@);
    let wanted = output_writes(r.0, output, references@);
    assert(write_views(r.1@).len() == wanted.len());
    assert(write_views(r.1@)[0] == wanted[0]);
    assert(text::views(r.0.reference_files@).len() == references@.len());
    assert forall|j: int| 0 <= j < references@.len() implies (#[trigger] r.1@[j + 1]).bytes@
        == references@[j].bytes@ && r.1@[j + 1].name@ == r.0.reference_files@[j]@ by {
        assert(write_views(r.1@)[j + 1] == wanted[j + 1]);
        assert(text::views(r.0.reference_files@)[j] == r.0.reference_files@[j]@);
    }
}

/// No two references of an image share a file name.
pub proof fn references_have_names_of_their_own(
    output: GeneratedOutput,
    references: &[ImageInput],
    image_token: &str,
    file_token: &str,
    r: (StoredOutput, Vec<FileWrite>),
    i: int,
    j: int,
)
    requires
        call_ensures(plan_output, (output, references, image_token, file_token), r),
        0 <= i < j < references@.len(),
    ensures
        r.0.reference_files@[i]@ != r.0.reference_files@[j]@,
{
    let stem = r.0.id@ + "-reference-"@;
    let names = text::views(r.0.reference_files@);
    assert(names.len() == references@.len());
    assert(names[i] == r.0.reference_files@[i]@);
    assert(names[j] == r.0.reference_files@[j]@);
    let a = text::digits(i as nat);
    let b = text::digits(j as nat);
    text::digits_stand_for_their_number(i as nat);
    text::digits_stand_for_their_number(j as nat);
    reveal_strlit(".");
    let x = "."@ + parse::extension_of(references@[i].bytes@);
    let y = "."@ + parse::extension_of(references@[j].bytes@);
    assert(names[i] =~= stem + (a + x));
    assert(names[j] =~= stem + (b + y));
    if names[i] == names[j] {
        assert(a + x =~= names[i].skip(stem.len() as int));
        assert(b + y =~= names[j].skip(stem.len() as int));
        assert((a + x)[a.len() as int] == '.');
        assert((b + y)[b.len() as int] == '.');
        if a.len() < b.len() {
            assert((b + y)[a.len() as int] == b[a.len() as int]);
            assert(text::is_digit(b[a.len() as int]));
        } else if b.len() < a.len() {
            assert((a + x)[b.len() as int] == a[b.len() as int]);
            assert(text::is_digit(a[b.len() as int]));
        } else {
            assert(a =~= (a + x).take(a.len() as int));
            assert(b =~= (b + y).take(b.len() as int));
        }
    }
}

/// Where the writes of one image stand among all the writes.
proof fn lemma_writes_of(
    stored: Seq<StoredOutput>,
    outputs: Seq<GeneratedOutput>,
    references: Seq<Vec<ImageInput>>,
    count: int,
    index: int,
) -> (at: int)
    requires
        0 <= index < count,
    ensures
        0 <= at,
        at + 1 + references_of(references, index).len() <= all_writes(
            stored,
            outputs,
            references,
            count,
        ).len(),
        all_writes(stored, outputs, references, count).subrange(
            at,
            at + 1 + references_of(references, index).len() as int,
        ) == output_writes(stored[index], outputs[index], references_of(references, index)),
    decreases count,
{
    let before = all_writes(stored, outputs, references, count - 1);
    let all = all_writes(stored, outputs, references, count);
    let size = 1 + references_of(references, index).len() as int;
    if index == count - 1 {
        assert(all.subrange(before.len() as int, before.len() + size) =~= output_writes(
            stored[index],
            outputs[index],
            references_of(references, index),
        ));
        before.len() as int
    } else {
        let at = lemma_writes_of(stored, outputs, references, count - 1, index);
        assert(all.subrange(at, at + size) =~= before.subrange(at, at + size));
        at
    }
}

/// Every image is written to its own file, whichever image it is.
pub proof fn every_image_is_written(
    outputs: Vec<GeneratedOutput>,
    output_references: &[Vec<ImageInput>],
    r: StoragePlan,
    index: int,
)
    requires
        call_ensures(plan_outputs, (outputs, output_references), r),
        0 <= index < outputs@.len(),
    ensures
        r.stored@.len() == outputs@.len(),
        r.stored@[index].encoded@ == outputs@[index].encoded@,
        r.stored@[index].format@ == outputs@[index].format@,
        index < output_references@.len() ==> r.stored@[index].reference_files@.len()
            == output_references@[index]@.len(),
        index >= output_references@.len() ==> r.stored@[index].reference_files@.len() == 0,
        exists|k: int|
            {
                &&& 0 <= k < r.writes@.len()
                &&& (#[trigger] r.writes@[k]).name@ == r.stored@[index].file_name@
                &&& r.writes@[k].bytes@ == outputs@[index].bytes@
            },
{
    let references = references_of(output_references@, index);
    let stored = r.stored@[index];
    assert(is_stored(stored, outputs@[index], references));
    let at = lemma_writes_of(
        r.stored@,
        outputs@,
        output_references@,
        outputs@.len() as int,
        index,
    );
    let all = write_views(r.writes@);
    let own = output_writes(stored, outputs@[index], references);
    assert(text::views(stored.reference_files@).len() == references.len());
    assert(all.subrange(at, at + 1 + references.len() as int)[0] == own[0]);
    assert(all[at] == write_view(r.writes@[at]));
    assert(r.writes@[at].name@ == stored.file_name@);
}

/// Every reference of an image is written to the file that the image lists for it.
pub proof fn every_reference_is_written(
    outputs: Vec<GeneratedOutput>,
    output_references: &[Vec<ImageInput>],
    r: StoragePlan,
    index: int,
    j: int,
)
    requires
        call_ensures(plan_outputs, (outputs, output_references), r),
        0 <= index < outputs@.len(),
        index < output_references@.len(),
        0 <= j < output_references@[index]@.len(),
    ensures
        exists|k: int|
            {
                &&& 0 <= k < r.writes@.len()
                &&& (#[trigger] r.writes@[k]).name@ == r.stored@[index].reference_files@[j]@
                &&& r.writes@[k].bytes@ == output_references@[index]@[j].bytes@
            },
{
    let references = references_of(output_references@, index);
    let stored = r.stored@[index];
    assert(is_stored(stored, outputs@[index], references));
    let at = lemma_writes_of(
        r.stored@,
        outputs@,
        output_references@,
        outputs@.len() as int,
        index,
    );
    let all = write_views(r.writes@);
    let own = output_writes(stored, outputs@[index], references);
    let names = text::views(stored.reference_files@);
    let k = at + 1 + j;
    assert(names.len() == references.len());
    assert(names[j] == stored.reference_files@[j]@);
    assert(all.subrange(at, at + 1 + references.len() as int)[j + 1] == own[j + 1]);
    assert(all[k] == write_view(r.writes@[k]));
    assert(r.writes@[k].name@ == stored.reference_files@[j]@);
}

/// How many files the first `count` images need.
pub open spec fn files_needed(references: Seq<Vec<ImageInput>>, count: int) -> int
    decreases count,
{
    if count <= 0 {
        0
    } else {
        files_needed(references, count - 1) + 1 + (if count - 1 < references.len() {
            references[count - 1]@.len() as int
        } else {
            0
        })
    }
}

/// No file is written but those of the images and their references.
pub proof fn nothing_else_is_written(
    outputs: Vec<GeneratedOutput>,
    output_references: &[Vec<ImageInput>],
    r: StoragePlan,
)
    requires
        call_ensures(plan_outputs, (outputs, output_references), r),
    ensures
        r.writes@.len() == files_needed(output_references@, outputs@.len() as int),
{
    lemma_files_needed(r.stored@, outputs@, output_references@, outputs@.len() as int);
    assert(write_views(r.writes@).len() == r.writes@.len());
}

proof fn lemma_files_needed(
    stored: Seq<StoredOutput>,
    outputs: Seq<GeneratedOutput>,
    references: Seq<Vec<ImageInput>>,
    count: int,
)
    ensures
        all_writes(stored, outputs, references, count).len() == files_needed(references, count),
    decreases count,
{
    if count > 0 {
        lemma_files_needed(stored, outputs, references, count - 1);
    }
}

/// A file that was taken down is removed again when the work ends, together with those taken down
/// before it, unless the work was committed: then nothing is removed.
pub proof fn only_uncommitted_files_are_removed(
    noted: &mut OutputRollback,
    committed: &mut OutputRollback,
    path: &str,
    without: Vec<String>,
    with: Vec<String>,
)
    requires
        !old(noted).committed,
        call_ensures(OutputRollback::track, (noted, path), ()),
        call_ensures(OutputRollback::removals, (&*final(noted),), without),
        *old(committed) == *final(noted),
        call_ensures(OutputRollback::commit, (committed,), ()),
        call_ensures(OutputRollback::removals, (&*final(committed),), with),
    ensures
        without@.len() == old(noted).paths@.len() + 1,
        without@.last()@ == path@,
        forall|i: int|
            0 <= i < old(noted).paths@.len() ==> (#[trigger] without@[i])@ == old(
                noted,
            ).paths@[i]@,
        with@.len() == 0,
{
    let before = text::views(old(noted).paths@);
    let after = text::views(final(noted).paths@);
    assert(after.len() == before.len() + 1);
    assert(after.last() == path@);
    assert(after.last() == without@.last()@);
    assert forall|i: int| 0 <= i < old(noted).paths@.len() implies (#[trigger] without@[i])@
        == old(noted).paths@[i]@ by {
        assert(after[i] == without@[i]@);
        assert(before[i] == old(noted).paths@[i]@);
    }
}

/// Nothing is to be removed before a file was taken down.
pub proof fn new_rollbacks_remove_nothing(fresh: OutputRollback, r: Vec<String>)
    requires
        call_ensures(OutputRollback::new, (), fresh),
        call_ensures(OutputRollback::removals, (&fresh,), r),
    ensures
        r@.len() == 0,
        !fresh.committed,
{
}

/// Stored images cost one credit each and give back all that was set aside; the ledger says so.
/// They are refused, with nothing changed, where the account does not hold the price and the
/// reservation.
pub proof fn images_cost_one_credit_each(
    context: &StoreContext<'_>,
    account: &mut Account,
    stored: &[StoredOutput],
    errors: &[String],
    created_at: &str,
    r: AppResult<StoreRecords>,
)
    requires
        0 < stored@.len() <= i64::MAX,
        context.reserved >= 0,
        call_ensures(store_outputs, (context, account, stored, errors, created_at), r),
    ensures
        r is Ok <==> stored@.len() <= old(account).credits && context.reserved <= old(
            account,
        ).reserved,
        r matches Err(error) ==> error.0 == 409 && *final(account) == *old(account),
        r matches Ok(records) ==> {
            &&& final(account).credits == old(account).credits - stored@.len()
            &&& final(account).reserved == old(account).reserved - context.reserved
            &&& final(account).daily_limit == old(account).daily_limit
            &&& records.ledger.user_id@ == context.user_id@
            &&& records.ledger.delta == -(stored@.len() as int)
            &&& records.ledger.balance_after == final(account).credits
            &&& records.ledger.balance_after == old(account).credits + records.ledger.delta
            &&& records.ledger.reason@ == "image_generation"@
            &&& records.ledger.operator_user_id is None
            &&& records.ledger.created_at@ == created_at@
            &&& records.log.credits_used == stored@.len()
            &&& context.task_id matches Some(id) ==> records.ledger.reference_id@
                == "generation:"@ + id@
            &&& context.task_id is None ==> records.ledger.reference_id@ == "generation:"@
                + records.log.id@
        },
{
}

/// Every stored image gets a row, in order, which says whose it is, what was asked for, who may
/// see it, where it is kept and which log it belongs to.
pub proof fn images_are_written_down_as_asked(
    context: &StoreContext<'_>,
    account: &mut Account,
    stored: &[StoredOutput],
    errors: &[String],
    created_at: &str,
    prompt: &str,
    category: &'static str,
    r: AppResult<StoreRecords>,
    i: int,
)
    requires
        0 < stored@.len() <= i64::MAX,
        context.reserved >= 0,
        prompt@ == context.request.prompt@,
        call_ensures(classification::classify_prompt, (prompt,), category),
        call_ensures(store_outputs, (context, account, stored, errors, created_at), r),
        r is Ok,
        0 <= i < stored@.len(),
    ensures
        r->Ok_0.images@.len() == stored@.len(),
        ({
            let row = r->Ok_0.images@[i];
            let pending = context.metadata.desktop && context.metadata.device_id@.len() > 0;
            &&& row.id@ == stored@[i].id@
            &&& row.user_id@ == context.user_id@
            &&& row.file_name@ == stored@[i].file_name@
            &&& row.prompt@ == text::trimmed(context.request.prompt@)
            &&& row.size@ == context.request.size@
            &&& row.model@ == context.provider.model@
            &&& row.format@ == stored@[i].format@
            &&& row.created_at@ == created_at@
            &&& row.usage_log_id@ == r->Ok_0.log.id@
            &&& context.request.is_public ==> row.visibility@ == "public"@
            &&& !context.request.is_public ==> row.visibility@ == "private"@
            &&& pending ==> row.storage@ == "pending"@ && row.device_id@
                == context.metadata.device_id@
            &&& !pending ==> row.storage@ == "server"@ && row.device_id@.len() == 0
            &&& json::string_list(row.reference_files@) == Some(
                text::views(stored@[i].reference_files@),
            )
            &&& row.category@ == category@
            &&& row.category_version == 1
        }),
{
    reveal_strlit("");
    assert(is_image_row(
        r->Ok_0.images@[i],
        *context,
        stored@[i],
        r->Ok_0.log.id@,
        created_at@,
    ));
}

/// A success is logged as what it was: whose call, through which provider, where from, and what
/// went wrong on the way; and its task, if it had one, ends with the first image.
pub proof fn successes_are_written_down(
    context: &StoreContext<'_>,
    account: &mut Account,
    stored: &[StoredOutput],
    errors: &[String],
    created_at: &str,
    separator: &str,
    told: String,
    r: AppResult<StoreRecords>,
)
    requires
        separator@ == "；"@,
        call_ensures(text::join, (errors, separator), told),
        0 < stored@.len() <= i64::MAX,
        context.reserved >= 0,
        call_ensures(store_outputs, (context, account, stored, errors, created_at), r),
        r is Ok,
    ensures
        ({
            let log = r->Ok_0.log;
            &&& log.user_id@ == context.user_id@
            &&& text::opt(log.provider_id) == Some(context.provider.id@)
            &&& log.endpoint@ == context.endpoint@
            &&& log.model@ == "gpt-image-2"@
            &&& log.duration_ms == context.duration_ms
            &&& log.status@ == "success"@
            &&& log.prompt@ == text::trimmed(context.request.prompt@)
            &&& log.ip_address@ == context.metadata.ip_address@
            &&& log.device_id@ == context.metadata.device_id@
            &&& log.platform@ == context.metadata.platform@
            &&& log.app_version@ == context.metadata.app_version@
            &&& log.user_agent@ == context.metadata.user_agent@
            &&& log.created_at@ == created_at@
            &&& log.error@ == told@
            &&& errors@.len() == 0 ==> log.error@.len() == 0
            &&& errors@.len() == 1 ==> log.error@ == errors@[0]@
            &&& errors@.len() > 0 ==> errors@.last()@.is_suffix_of(log.error@)
        }),
        r->Ok_0.task is Some <==> context.task_id is Some,
        r->Ok_0.task matches Some(task) ==> {
            &&& task.id@ == context.task_id->0@
            &&& task.user_id@ == context.user_id@
            &&& task.status@ == "success"@
            &&& text::opt(task.image_id) == Some(stored@[0].id@)
            &&& task.error is None
            &&& task.credits_used == stored@.len()
            &&& task.updated_at@ == created_at@
        },
{
    let log = r->Ok_0.log;
    let parts = text::views(errors@);
    if errors@.len() > 0 {
        assert(parts.last() == errors@.last()@);
        assert(log.error@.subrange(
            log.error@.len() - parts.last().len(),
            log.error@.len() as int,
        ) =~= parts.last());
    }
}

/// Images that could not be stored cost nothing: what was set aside is given back, the log says
/// why, and the error is handed on unchanged.
pub proof fn abandoned_images_cost_nothing(
    context: &StoreContext<'_>,
    account: &mut Account,
    message: &str,
    error: AppError,
    r: (FailureRecords, AppError),
)
    requires
        context.reserved >= 0,
        call_ensures(abandon_store, (context, account, message, error), r),
    ensures
        final(account).credits == old(account).credits,
        final(account).daily_limit == old(account).daily_limit,
        context.reserved <= old(account).reserved ==> final(account).reserved == old(
            account,
        ).reserved - context.reserved,
        context.reserved > old(account).reserved ==> final(account).reserved == 0,
        r.0.log.status@ == "error"@,
        r.0.log.error@ == message@,
        r.0.log.credits_used == 0,
        r.0.log.user_id@ == context.user_id@,
        r.0.log.endpoint@ == context.endpoint@,
        r.0.log.prompt@ == text::trimmed(context.request.prompt@),
        text::opt(r.0.log.provider_id) == Some(context.provider.id@),
        r.0.task is Some <==> context.task_id is Some,
        r.0.task matches Some(task) ==> {
            &&& task.id@ == context.task_id->0@
            &&& task.status@ == "error"@
            &&& task.credits_used == 0
            &&& text::opt(task.error) == Some(message@)
        },
        r.1 == error,
{
}

/// A file that could not be written is reported in the same words to the client and to the log,
/// and costs nothing.
pub proof fn failed_writes_are_reported(
    context: &StoreContext<'_>,
    account: &mut Account,
    failure: &str,
    r: (FailureRecords, AppError),
)
    requires
        context.reserved >= 0,
        call_ensures(abandon_write, (context, account, failure), r),
    ensures
        final(account).credits == old(account).credits,
        context.reserved <= old(account).reserved ==> final(account).reserved == old(
            account,
        ).reserved - context.reserved,
        r.0.log.status@ == "error"@,
        r.0.log.error@ == failure@,
        r.0.log.credits_used == 0,
        r.0.log.user_id@ == context.user_id@,
        r.1.0 == 500,
        r.1.1@ == failure@,
{
}

/// The client sees each stored image once, in order, as it was asked for, with the addresses of
/// its file, its thumbnail and each of its references, and gets its encoded form with it.
pub proof fn stored_images_are_shown<U>(
    context: &StoreContext<'_>,
    stored: Vec<StoredOutput>,
    created_at: &str,
    credits: i64,
    usage: Option<U>,
    errors: Vec<String>,
    r: GenerationResult<U>,
    i: int,
)
    requires
        call_ensures(
            generation_result::<U>,
            (context, stored, created_at, credits, usage, errors),
            r,
        ),
        0 <= i < stored@.len(),
    ensures
        r.images@.len() == stored@.len(),
        r.encoded@.len() == stored@.len(),
        r.encoded@[i]@ == stored@[i].encoded@,
        r.credits == credits,
        r.usage == usage,
        r.errors == errors,
        ({
            let shown = r.images@[i];
            let pending = context.metadata.desktop && context.metadata.device_id@.len() > 0;
            &&& shown.id@ == stored@[i].id@
            &&& shown.url@ == "/api/images/"@ + stored@[i].id@ + "/file"@
            &&& shown.thumbnail_url@ == "/api/images/"@ + stored@[i].id@ + "/thumbnail"@
            &&& shown.prompt@ == text::trimmed(context.request.prompt@)
            &&& shown.size@ == context.request.size@
            &&& shown.model@ == context.provider.model@
            &&& shown.created_at@ == created_at@
            &&& shown.format@ == stored@[i].format@
            &&& shown.is_public == context.request.is_public
            &&& shown.storage@ == if pending { "pending"@ } else { "server"@ }
            &&& shown.author is None
            &&& shown.reference_images@.len() == stored@[i].reference_files@.len()
            &&& forall|j: int|
                0 <= j < shown.reference_images@.len() ==> (#[trigger] shown.reference_images@[j])@
                    == "/api/images/"@ + stored@[i].id@ + "/references/"@ + text::digits(j as nat)
        }),
{
    let shown = r.images@[i];
    assert(shows_image(shown, *context, stored@[i], created_at@));
    assert(text::views(shown.reference_images@).len() == stored@[i].reference_files@.len());
    assert forall|j: int| 0 <= j < shown.reference_images@.len() implies (
    #[trigger] shown.reference_images@[j])@ == "/api/images/"@ + stored@[i].id@ + "/references/"@
        + text::digits(j as nat) by {
        assert(text::views(shown.reference_images@)[j] == shown.reference_images@[j]@);
    }
}

/// What the client sees of an image agrees with its row.
pub proof fn rows_and_answers_agree<U>(
    context: &StoreContext<'_>,
    account: &mut Account,
    stored: Vec<StoredOutput>,
    slice: &[StoredOutput],
    errors: &[String],
    told: Vec<String>,
    created_at: &str,
    credits: i64,
    usage: Option<U>,
    kept: AppResult<StoreRecords>,
    shown: GenerationResult<U>,
    i: int,
)
    requires
        0 < stored@.len() <= i64::MAX,
        slice@ == stored@,
        context.reserved >= 0,
        call_ensures(store_outputs, (context, account, slice, errors, created_at), kept),
        call_ensures(
            generation_result::<U>,
            (context, stored, created_at, credits, usage, told),
            shown,
        ),
        kept is Ok,
        0 <= i < stored@.len(),
    ensures
        ({
            let row = kept->Ok_0.images@[i];
            let image = shown.images@[i];
            &&& row.id@ == image.id@
            &&& row.prompt@ == image.prompt@
            &&& row.size@ == image.size@
            &&& row.model@ == image.model@
            &&& row.format@ == image.format@
            &&& row.category@ == image.category@
            &&& row.storage@ == image.storage@
            &&& row.created_at@ == image.created_at@
            &&& image.is_public <==> row.visibility@ == "public"@
        }),
{
    reveal_strlit("public");
    reveal_strlit("private");
    assert("public"@.len() != "private"@.len());
    assert(is_image_row(
        kept->Ok_0.images@[i],
        *context,
        stored@[i],
        kept->Ok_0.log.id@,
        created_at@,
    ));
    assert(shows_image(shown.images@[i], *context, stored@[i], created_at@));
}

/// The file of a reference is named after its image and ends in the format that its bytes show.
pub proof fn references_are_named_after_their_image(
    output: GeneratedOutput,
    references: &[ImageInput],
    image_token: &str,
    file_token: &str,
    r: (StoredOutput, Vec<FileWrite>),
    i: int,
    bytes: &[u8],
    extension: &'static str,
)
    requires
        call_ensures(plan_output, (output, references, image_token, file_token), r),
        0 <= i < references@.len(),
        bytes@ == references@[i].bytes@,
        call_ensures(parse::image_extension, (bytes,), extension),
    ensures
        r.0.reference_files@[i]@ == r.0.id@ + "-reference-"@ + text::digits(i as nat) + "."@
            + extension@,
{
    assert(text::views(r.0.reference_files@).len() == references@.len());
    assert(text::views(r.0.reference_files@)[i] == r.0.reference_files@[i]@);
}

/// Records are kept under the tokens that they were given.
pub proof fn records_are_kept_under_their_tokens(
    context: &StoreContext<'_>,
    account: &mut Account,
    stored: &[StoredOutput],
    errors: &[String],
    log_token: &str,
    ledger_token: &str,
    created_at: &str,
    r: AppResult<StoreRecords>,
)
    requires
        0 < stored@.len() <= i64::MAX,
        context.reserved >= 0,
        call_ensures(
            store_records,
            (context, account, stored, errors, log_token, ledger_token, created_at),
            r,
        ),
    ensures
        r is Ok <==> stored@.len() <= old(account).credits && context.reserved <= old(
            account,
        ).reserved,
        r is Ok ==> final(account).credits == old(account).credits - stored@.len(),
        r is Ok ==> final(account).reserved == old(account).reserved - context.reserved,
        r matches Ok(records) ==> records.log.id@ == "log-"@ + log_token@ && records.ledger.id@
            == "credit-"@ + ledger_token@ && records.ledger.delta == -(stored@.len() as int),
{
}

/// The words for the visibility of an image.
pub proof fn images_are_public_or_private(is_public: bool, r: &'static str)
    requires
        call_ensures(visibility_word, (is_public,), r),
    ensures
        is_public ==> r@ == "public"@,
        !is_public ==> r@ == "private"@,
{
}

/// Each reference of an image has an address of its own, by its place.
pub proof fn references_have_addresses(id: &str, count: usize, r: Vec<String>, i: int)
    requires
        call_ensures(reference_urls, (id, count), r),
        0 <= i < count,
    ensures
        r@.len() == count,
        r@[i]@ == "/api/images/"@ + id@ + "/references/"@ + text::digits(i as nat),
{
    assert(text::views(r@).len() == count);
    assert(text::views(r@)[i] == r@[i]@);
}

/// The call of a context is its user's, through its provider, with its trimmed prompt.
pub proof fn calls_are_those_of_their_context(context: StoreContext<'_>, r: CallContext<'_>)
    requires
        call_ensures(StoreContext::call, (&context,), r),
    ensures
        r.user_id@ == context.user_id@,
        text::opt_str(r.provider_id) == Some(context.provider.id@),
        *r.metadata == *context.metadata,
        r.endpoint@ == context.endpoint@,
        r.duration_ms == context.duration_ms,
        text::opt_str(r.task_id) == text::opt_str(context.task_id),
        r.prompt@ == text::trimmed(context.request.prompt@),
{
}

/// A file that cannot be written is told apart: the image itself, or one of its references.
pub proof fn failed_files_are_told_apart(
    output: GeneratedOutput,
    references: &[ImageInput],
    image_token: &str,
    file_token: &str,
    r: (StoredOutput, Vec<FileWrite>),
    j: int,
)
    requires
        call_ensures(plan_output, (output, references, image_token, file_token), r),
    ensures
        r.1@[0].failure@ == "图片保存失败"@,
        0 <= j < references@.len() ==> r.1@[j + 1].failure@ == "参考图保存失败"@,
{
    let wanted = output_writes(r.0, output, references@);
    assert(write_views(r.1@).len() == wanted.len());
    assert(write_views(r.1@)[0] == wanted[0]);
    if 0 <= j < references@.len() {
        assert(write_views(r.1@)[j + 1] == wanted[j + 1]);
    }
}

} // verus!
