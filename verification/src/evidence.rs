//! Evidence of memory operations: references, hashes and lengths, never content.

use vstd::prelude::*;
use vstd::utf8::encode_utf8;
use sha2::Digest;
use crate::automatic::{failure_policy_name, policy_name, FailurePolicy};
use crate::error::{error_code_name, ErrorView};
use crate::in_memory::searchable_text;
use crate::json::{json_models, json_text, no_members, Json, JsonModel, JsonObject};
use crate::memory::{
    error_views, match_views, MatchView, MemoryContent, MemoryErrorCode, MemoryMatch,
    MemoryNamespace, MemoryOperationError, MemoryStoreDisposition, NamespaceView, Score,
};
use crate::text::{
    char_count, concat, from_chars, hex, hex_length, opt_text, texts, to_chars, to_hex,
};
use crate::wire::{opt_text_json, opt_text_model, texts_json, texts_model};
use crate::work::{job_state_name, MemoryJobState};

verus! {

/// Schema name used by automatic memory operation marks.
pub const MEMORY_OPERATION_SCHEMA: &'static str = "nemo.relay.memory.operation";

/// Initial automatic memory operation schema version.
pub const MEMORY_OPERATION_SCHEMA_VERSION: &'static str = "0.1";

/// The SHA-256 digest of bytes.
pub uninterp spec fn sha256(bytes: Seq<u8>) -> Seq<u8>;

/// `Sha256::digest` gives the 32 bytes of the SHA-256 digest, which depend on the input alone.
#[verifier::external_body]
fn sha256_digest(bytes: &[u8]) -> (r: Vec<u8>)
    ensures
        r@ == sha256(bytes@),
        r@.len() == 32,
{
    sha2::Sha256::digest(bytes).to_vec()
}

/// How many hexadecimal digits of a digest name a revision of a text.
pub const REVISION_DIGITS: usize = 12;

/// The revision of a text: the first digits of its digest.
pub open spec fn revision_of(text: Seq<char>) -> Seq<char> {
    hex(sha256(encode_utf8(text))).take(REVISION_DIGITS as int)
}

/// The revision of a text: the first digits of its digest.
pub fn text_revision(text: &str) -> (r: String)
    ensures
        r@ == revision_of(text@),
        r@.len() == REVISION_DIGITS,
{
    let digest = sha256_digest(text.as_bytes());
    proof {
        hex_length(digest@);
    }
    let digits = to_chars(to_hex(&digest).as_str());
    let r = from_chars(&digits, 0, REVISION_DIGITS);
    assert(r@ =~= revision_of(text@));
    r
}

/// The text that stands for bytes in evidence.
pub open spec fn hash_text(bytes: Seq<u8>) -> Seq<char> {
    "sha256:"@ + hex(sha256(bytes))
}

fn hash_bytes(bytes: &[u8]) -> (r: String)
    ensures
        r@ == hash_text(bytes@),
{
    let encoded = to_hex(&sha256_digest(bytes));
    concat("sha256:", encoded.as_str())
}

/// A member of a namespace on the wire, where it is present.
pub open spec fn optional_member(name: Seq<char>, value: Option<Seq<char>>) -> Seq<char> {
    match value {
        Some(value) => name + json_text(JsonModel::Text(value)),
        None => Seq::empty(),
    }
}

/// A namespace on the wire: a compact JSON object of the members that are present, in the order
/// tenant, subject, session, agent.
pub open spec fn namespace_wire(namespace: NamespaceView) -> Seq<char> {
    "{\"tenant_id\":"@ + json_text(JsonModel::Text(namespace.tenant_id)) + ",\"subject_id\":"@
        + json_text(JsonModel::Text(namespace.subject_id)) + optional_member(
        ",\"session_id\":"@,
        namespace.session_id,
    ) + optional_member(",\"agent_id\":"@, namespace.agent_id) + "}"@
}

fn append_member(out: &mut String, name: &str, value: &Option<String>)
    ensures
        final(out)@ == old(out)@ + optional_member(name@, opt_text(*value)),
{
    let ghost before = out@;
    if let Some(value) = value {
        out.append(name);
        out.append(Json::text(value.as_str()).to_text().as_str());
    }
    assert(out@ =~= before + optional_member(name@, opt_text(*value)));
}

fn namespace_text(namespace: &MemoryNamespace) -> (r: String)
    ensures
        r@ == namespace_wire(namespace@),
{
    let mut out = "{\"tenant_id\":".to_owned();
    out.append(Json::text(namespace.tenant_id.as_str()).to_text().as_str());
    out.append(",\"subject_id\":");
    out.append(Json::text(namespace.subject_id.as_str()).to_text().as_str());
    append_member(&mut out, ",\"session_id\":", &namespace.session_id);
    append_member(&mut out, ",\"agent_id\":", &namespace.agent_id);
    out.append("}");
    out
}

/// The reference to a namespace in evidence.
pub open spec fn namespace_ref(namespace: NamespaceView) -> Seq<char> {
    hash_text(encode_utf8(namespace_wire(namespace)))
}

/// The reference to a namespace in evidence: the hash of its wire form.
pub fn namespace_reference(namespace: &MemoryNamespace) -> (r: String)
    ensures
        r@ == namespace_ref(namespace@),
{
    let text = namespace_text(namespace);
    hash_bytes(text.as_str().as_bytes())
}

/// The text of a content: what a search looks into and a prompt shows.
pub fn render_content(content: &MemoryContent) -> (r: String)
    ensures
        r@ == searchable_text(content@),
{
    match content {
        MemoryContent::Text { text } => text.clone(),
        MemoryContent::Json { value } => value.to_text(),
        MemoryContent::Reference { reference, preview } => match preview {
            Some(preview) => preview.clone(),
            None => reference.clone(),
        },
    }
}

/// What evidence says of one match: references, its rank and score, and the hash and length of
/// its text.
#[derive(Debug, PartialEq)]
pub struct ItemEvidence {
    /// Record identifier.
    pub id: String,
    /// Provider of the record.
    pub provider: String,
    /// One-based rank.
    pub rank: usize,
    /// Relevance score.
    pub score: Score,
    /// Hash of the text.
    pub content_hash: String,
    /// Number of characters of the text.
    pub content_length: usize,
}

/// What evidence says of one match.
pub struct ItemEvidenceView {
    pub id: Seq<char>,
    pub provider: Seq<char>,
    pub rank: nat,
    pub score: Score,
    pub content_hash: Seq<char>,
    pub content_length: nat,
}

impl View for ItemEvidence {
    type V = ItemEvidenceView;

    open spec fn view(&self) -> ItemEvidenceView {
        ItemEvidenceView {
            id: self.id@,
            provider: self.provider@,
            rank: self.rank as nat,
            score: self.score,
            content_hash: self.content_hash@,
            content_length: self.content_length as nat,
        }
    }
}

/// The evidence of a match.
pub open spec fn item_evidence_of(item: MatchView) -> ItemEvidenceView {
    let text = searchable_text(item.record.content);
    ItemEvidenceView {
        id: item.record.id,
        provider: item.record.provider,
        rank: item.rank,
        score: item.score,
        content_hash: hash_text(encode_utf8(text)),
        content_length: text.len(),
    }
}

/// The evidence of a match.
pub fn item_evidence(memory_match: &MemoryMatch) -> (r: ItemEvidence)
    ensures
        r@ == item_evidence_of(memory_match@),
{
    let rendered = render_content(&memory_match.record.content);
    ItemEvidence {
        id: memory_match.record.id.clone(),
        provider: memory_match.record.provider.clone(),
        rank: memory_match.rank,
        score: memory_match.score,
        content_hash: hash_bytes(rendered.as_str().as_bytes()),
        content_length: char_count(rendered.as_str()),
    }
}

/// What evidence says of a failure. The message stays out.
#[derive(Debug, PartialEq, Eq)]
pub struct ErrorEvidence {
    /// Stable error classification.
    pub code: MemoryErrorCode,
    /// Whether a caller may retry.
    pub retryable: bool,
    /// Provider that produced the failure.
    pub provider: Option<String>,
    /// Correlation identifier.
    pub operation_id: Option<String>,
}

/// What evidence says of a failure.
pub struct ErrorEvidenceView {
    pub code: MemoryErrorCode,
    pub retryable: bool,
    pub provider: Option<Seq<char>>,
    pub operation_id: Option<Seq<char>>,
}

impl View for ErrorEvidence {
    type V = ErrorEvidenceView;

    open spec fn view(&self) -> ErrorEvidenceView {
        ErrorEvidenceView {
            code: self.code,
            retryable: self.retryable,
            provider: opt_text(self.provider),
            operation_id: opt_text(self.operation_id),
        }
    }
}

/// The evidence of a failure.
pub open spec fn error_evidence_of(error: ErrorView) -> ErrorEvidenceView {
    ErrorEvidenceView {
        code: error.code,
        retryable: error.retryable,
        provider: error.provider,
        operation_id: error.operation_id,
    }
}

/// The evidence of a failure.
pub fn error_evidence(error: &MemoryOperationError) -> (r: ErrorEvidence)
    ensures
        r@ == error_evidence_of(error@),
{
    ErrorEvidence {
        code: error.code,
        retryable: error.retryable,
        provider: error.provider.clone(),
        operation_id: error.operation_id.clone(),
    }
}

/// The evidence of matches.
pub open spec fn items_of(matches: Seq<MatchView>) -> Seq<ItemEvidenceView> {
    matches.map_values(|item: MatchView| item_evidence_of(item))
}

/// The evidence of failures.
pub open spec fn errors_of(errors: Seq<ErrorView>) -> Seq<ErrorEvidenceView> {
    errors.map_values(|error: ErrorView| error_evidence_of(error))
}

/// The views of item evidence.
pub open spec fn item_views(items: Seq<ItemEvidence>) -> Seq<ItemEvidenceView> {
    items.map_values(|item: ItemEvidence| item@)
}

/// The views of error evidence.
pub open spec fn error_evidence_views(errors: Seq<ErrorEvidence>) -> Seq<ErrorEvidenceView> {
    errors.map_values(|error: ErrorEvidence| error@)
}

/// The evidence of matches.
pub fn items_evidence(matches: &Vec<MemoryMatch>) -> (r: Vec<ItemEvidence>)
    ensures
        item_views(r@) == items_of(match_views(matches@)),
{
    let mut items: Vec<ItemEvidence> = Vec::new();
    let mut i: usize = 0;
    while i < matches.len()
        invariant
            i <= matches@.len(),
            items@.len() == i,
            forall|j: int| 0 <= j < i ==> (#[trigger] items@[j])@ == item_evidence_of(matches@[j]@),
        decreases matches@.len() - i,
    {
        items.push(item_evidence(&matches[i]));
        i += 1;
    }
    assert(item_views(items@) =~= items_of(match_views(matches@)));
    items
}

/// The evidence of failures.
pub fn errors_evidence(errors: &Vec<MemoryOperationError>) -> (r: Vec<ErrorEvidence>)
    ensures
        error_evidence_views(r@) == errors_of(error_views(errors@)),
{
    let mut items: Vec<ErrorEvidence> = Vec::new();
    let mut i: usize = 0;
    while i < errors.len()
        invariant
            i <= errors@.len(),
            items@.len() == i,
            forall|j: int| 0 <= j < i ==> (#[trigger] items@[j])@ == error_evidence_of(errors@[j]@),
        decreases errors@.len() - i,
    {
        items.push(error_evidence(&errors[i]));
        i += 1;
    }
    assert(error_evidence_views(items@) =~= errors_of(error_views(errors@)));
    items
}

/// What one memory operation came to.
#[derive(Debug, PartialEq)]
pub enum OperationData {
    /// A search.
    Retrieval {
        /// Reference to the namespace.
        namespace_ref: String,
        /// Whether the search failed.
        failed: bool,
        /// Failure policy of the stage.
        policy: FailurePolicy,
        /// How long the search took.
        latency_ms: u64,
        /// The candidates.
        items: Vec<ItemEvidence>,
        /// Failures that did not prevent all results.
        partial_errors: Vec<ErrorEvidence>,
    },
    /// An injection, skipped where there are no items.
    Injection {
        /// Reference to the namespace.
        namespace_ref: String,
        /// Failure policy of the stage.
        policy: FailurePolicy,
        /// The injected memories.
        items: Vec<ItemEvidence>,
        /// Their estimated number of tokens.
        estimated_tokens: usize,
    },
    /// A completed store.
    Stored {
        /// Reference to the namespace.
        namespace_ref: String,
        /// Failure policy of the stage.
        policy: FailurePolicy,
        /// How long the store took.
        latency_ms: u64,
        /// The stored record.
        memory_id: String,
        /// Whether the record was created or replayed.
        disposition: MemoryStoreDisposition,
    },
    /// A store that was not made.
    StorageSkipped {
        /// Why.
        reason: String,
    },
    /// A transition of a queued store.
    StorageJob {
        /// Reference to the namespace.
        namespace_ref: String,
        /// Failure policy of the stage.
        policy: FailurePolicy,
        /// The job.
        job_id: String,
        /// Its sequence, or zero where it was rejected.
        sequence: u64,
        /// The state that the job took.
        state: MemoryJobState,
        /// Attempts started so far.
        attempts: u32,
        /// Time since admission.
        latency_ms: u64,
        /// The stored records.
        memory_ids: Vec<String>,
        /// The failure of the transition.
        failure: Option<ErrorEvidence>,
    },
    /// A failed stage.
    Failure {
        /// The stage.
        stage: String,
        /// Failure policy of the stage.
        policy: FailurePolicy,
        /// The failure.
        error: ErrorEvidence,
    },
}

/// What one memory operation came to.
pub enum DataView {
    Retrieval {
        namespace_ref: Seq<char>,
        failed: bool,
        policy: FailurePolicy,
        latency_ms: nat,
        items: Seq<ItemEvidenceView>,
        partial_errors: Seq<ErrorEvidenceView>,
    },
    Injection {
        namespace_ref: Seq<char>,
        policy: FailurePolicy,
        items: Seq<ItemEvidenceView>,
        estimated_tokens: nat,
    },
    Stored {
        namespace_ref: Seq<char>,
        policy: FailurePolicy,
        latency_ms: nat,
        memory_id: Seq<char>,
        disposition: MemoryStoreDisposition,
    },
    StorageSkipped { reason: Seq<char> },
    StorageJob {
        namespace_ref: Seq<char>,
        policy: FailurePolicy,
        job_id: Seq<char>,
        sequence: nat,
        state: MemoryJobState,
        attempts: nat,
        latency_ms: nat,
        memory_ids: Seq<Seq<char>>,
        failure: Option<ErrorEvidenceView>,
    },
    Failure { stage: Seq<char>, policy: FailurePolicy, error: ErrorEvidenceView },
}

impl View for OperationData {
    type V = DataView;

    open spec fn view(&self) -> DataView {
        match self {
            OperationData::Retrieval {
                namespace_ref,
                failed,
                policy,
                latency_ms,
                items,
                partial_errors,
            } => DataView::Retrieval {
                namespace_ref: namespace_ref@,
                failed: *failed,
                policy: *policy,
                latency_ms: *latency_ms as nat,
                items: item_views(items@),
                partial_errors: error_evidence_views(partial_errors@),
            },
            OperationData::Injection { namespace_ref, policy, items, estimated_tokens } => DataView::Injection {
                namespace_ref: namespace_ref@,
                policy: *policy,
                items: item_views(items@),
                estimated_tokens: *estimated_tokens as nat,
            },
            OperationData::Stored { namespace_ref, policy, latency_ms, memory_id, disposition } => DataView::Stored {
                namespace_ref: namespace_ref@,
                policy: *policy,
                latency_ms: *latency_ms as nat,
                memory_id: memory_id@,
                disposition: *disposition,
            },
            OperationData::StorageSkipped { reason } => DataView::StorageSkipped {
                reason: reason@,
            },
            OperationData::StorageJob {
                namespace_ref,
                policy,
                job_id,
                sequence,
                state,
                attempts,
                latency_ms,
                memory_ids,
                failure,
            } => DataView::StorageJob {
                namespace_ref: namespace_ref@,
                policy: *policy,
                job_id: job_id@,
                sequence: *sequence as nat,
                state: *state,
                attempts: *attempts as nat,
                latency_ms: *latency_ms as nat,
                memory_ids: texts(memory_ids@),
                failure: match failure {
                    Some(failure) => Some(failure@),
                    None => None,
                },
            },
            OperationData::Failure { stage, policy, error } => DataView::Failure {
                stage: stage@,
                policy: *policy,
                error: error@,
            },
        }
    }
}

/// Evidence of one memory operation within a managed call.
#[derive(Debug, PartialEq)]
pub struct OperationEvidence {
    /// The operation.
    pub operation_id: String,
    /// The managed call.
    pub llm_id: String,
    /// The provider.
    pub provider: String,
    /// What the operation came to.
    pub data: OperationData,
}

/// Evidence of one memory operation within a managed call.
pub struct OperationView {
    pub operation_id: Seq<char>,
    pub llm_id: Seq<char>,
    pub provider: Seq<char>,
    pub data: DataView,
}

impl View for OperationEvidence {
    type V = OperationView;

    open spec fn view(&self) -> OperationView {
        OperationView {
            operation_id: self.operation_id@,
            llm_id: self.llm_id@,
            provider: self.provider@,
            data: self.data@,
        }
    }
}

/// The subtype of an operation.
pub open spec fn operation_subtype(data: DataView) -> Seq<char> {
    match data {
        DataView::Retrieval { .. } => "retrieval"@,
        DataView::Injection { .. } => "injection"@,
        DataView::Stored { .. } => "storage"@,
        DataView::StorageSkipped { .. } => "storage"@,
        DataView::StorageJob { .. } => "storage"@,
        DataView::Failure { .. } => "failure"@,
    }
}

/// The status of an operation. A queued store that succeeded is stored.
pub open spec fn operation_status(data: DataView) -> Seq<char> {
    match data {
        DataView::Retrieval { failed, .. } => if failed {
            "failed"@
        } else {
            "completed"@
        },
        DataView::Injection { items, .. } => if items.len() == 0 {
            "skipped"@
        } else {
            "injected"@
        },
        DataView::Stored { .. } => "stored"@,
        DataView::StorageSkipped { .. } => "skipped"@,
        DataView::StorageJob { state, .. } => if state is Succeeded {
            "stored"@
        } else {
            job_state_name(state)
        },
        DataView::Failure { .. } => "failed"@,
    }
}

impl OperationData {
    /// The subtype of the operation.
    pub fn subtype(&self) -> (r: &'static str)
        ensures
            r@ == operation_subtype(self@),
    {
        match self {
            OperationData::Retrieval { .. } => "retrieval",
            OperationData::Injection { .. } => "injection",
            OperationData::Stored { .. } => "storage",
            OperationData::StorageSkipped { .. } => "storage",
            OperationData::StorageJob { .. } => "storage",
            OperationData::Failure { .. } => "failure",
        }
    }

    /// The status of the operation.
    pub fn status(&self) -> (r: &'static str)
        ensures
            r@ == operation_status(self@),
    {
        match self {
            OperationData::Retrieval { failed, .. } => {
                if *failed {
                    "failed"
                } else {
                    "completed"
                }
            },
            OperationData::Injection { items, .. } => {
                if items.len() == 0 {
                    "skipped"
                } else {
                    "injected"
                }
            },
            OperationData::Stored { .. } => "stored",
            OperationData::StorageSkipped { .. } => "skipped",
            OperationData::StorageJob { state, .. } => {
                if matches!(state, MemoryJobState::Succeeded) {
                    "stored"
                } else {
                    state.name()
                }
            },
            OperationData::Failure { .. } => "failed",
        }
    }
}

/// The members of the evidence of a match in a mark, apart from its score.
pub open spec fn item_members(item: ItemEvidenceView) -> Map<Seq<char>, JsonModel> {
    no_members().insert("id"@, JsonModel::Text(item.id)).insert(
        "provider"@,
        JsonModel::Text(item.provider),
    ).insert("rank"@, JsonModel::Integer(item.rank as int)).insert(
        "content_hash"@,
        JsonModel::Text(item.content_hash),
    ).insert("content_length"@, JsonModel::Integer(item.content_length as int))
}

/// The evidence of matches in a mark.
pub open spec fn items_model(items: Seq<ItemEvidenceView>) -> JsonModel {
    JsonModel::Array(
        items.map_values(|item: ItemEvidenceView| JsonModel::Object(item_members(item))),
    )
}

/// The members of the evidence of a failure in a mark.
pub open spec fn error_members(error: ErrorEvidenceView) -> Map<Seq<char>, JsonModel> {
    no_members().insert("code"@, JsonModel::Text(error_code_name(error.code))).insert(
        "retryable"@,
        JsonModel::Bool(error.retryable),
    ).insert("provider"@, opt_text_model(error.provider)).insert(
        "operation_id"@,
        opt_text_model(error.operation_id),
    )
}

/// The evidence of failures in a mark.
pub open spec fn errors_model(errors: Seq<ErrorEvidenceView>) -> JsonModel {
    JsonModel::Array(
        errors.map_values(|error: ErrorEvidenceView| JsonModel::Object(error_members(error))),
    )
}

/// The name of a store disposition in a mark.
pub open spec fn disposition_name(disposition: MemoryStoreDisposition) -> Seq<char> {
    match disposition {
        MemoryStoreDisposition::Created => "created"@,
        MemoryStoreDisposition::Existing => "existing"@,
    }
}

/// The members of a mark that every operation has.
pub open spec fn common_members(operation: OperationView) -> Map<Seq<char>, JsonModel> {
    no_members().insert("operation_id"@, JsonModel::Text(operation.operation_id)).insert(
        "llm_uuid"@,
        JsonModel::Text(operation.llm_id),
    ).insert("provider"@, JsonModel::Text(operation.provider)).insert(
        "status"@,
        JsonModel::Text(operation_status(operation.data)),
    )
}

/// The members of the mark of an operation. Scores are not among them.
pub open spec fn operation_members(operation: OperationView) -> Map<Seq<char>, JsonModel> {
    let common = common_members(operation);
    match operation.data {
        DataView::Retrieval {
            namespace_ref,
            failed: _,
            policy,
            latency_ms,
            items,
            partial_errors,
        } => common.insert("namespace_ref"@, JsonModel::Text(namespace_ref)).insert(
            "policy"@,
            JsonModel::Text(failure_policy_name(policy)),
        ).insert("latency_ms"@, JsonModel::Integer(latency_ms as int)).insert(
            "items"@,
            items_model(items),
        ).insert("partial_errors"@, errors_model(partial_errors)),
        DataView::Injection { namespace_ref, policy, items, estimated_tokens } => common.insert(
            "namespace_ref"@,
            JsonModel::Text(namespace_ref),
        ).insert("policy"@, JsonModel::Text(failure_policy_name(policy))).insert(
            "items"@,
            items_model(items),
        ).insert("estimated_tokens"@, JsonModel::Integer(estimated_tokens as int)),
        DataView::Stored { namespace_ref, policy, latency_ms, memory_id, disposition } => common.insert(
            "namespace_ref"@,
            JsonModel::Text(namespace_ref),
        ).insert("policy"@, JsonModel::Text(failure_policy_name(policy))).insert(
            "latency_ms"@,
            JsonModel::Integer(latency_ms as int),
        ).insert("memory_id"@, JsonModel::Text(memory_id)).insert(
            "disposition"@,
            JsonModel::Text(disposition_name(disposition)),
        ),
        DataView::StorageSkipped { reason } => common.insert("reason"@, JsonModel::Text(reason)),
        DataView::StorageJob {
            namespace_ref,
            policy,
            job_id,
            sequence,
            state: _,
            attempts,
            latency_ms,
            memory_ids,
            failure,
        } => {
            let members = common.insert("namespace_ref"@, JsonModel::Text(namespace_ref)).insert(
                "policy"@,
                JsonModel::Text(failure_policy_name(policy)),
            ).insert("job_id"@, JsonModel::Text(job_id)).insert(
                "sequence"@,
                JsonModel::Integer(sequence as int),
            ).insert("attempts"@, JsonModel::Integer(attempts as int)).insert(
                "latency_ms"@,
                JsonModel::Integer(latency_ms as int),
            ).insert("memory_ids"@, texts_model(memory_ids));
            match failure {
                Some(error) => members.insert("error"@, JsonModel::Object(error_members(error))),
                None => members,
            }
        },
        DataView::Failure { stage, policy, error } => common.insert(
            "stage"@,
            JsonModel::Text(stage),
        ).insert("policy"@, JsonModel::Text(failure_policy_name(policy))).insert(
            "error"@,
            JsonModel::Object(error_members(error)),
        ),
    }
}

impl ItemEvidence {
    /// The evidence of the match in a mark, apart from its score.
    pub fn data(&self) -> (r: JsonObject)
        ensures
            r@ == item_members(self@),
    {
        let mut object = JsonObject::new();
        object.insert("id", Json::text(self.id.as_str()));
        object.insert("provider", Json::text(self.provider.as_str()));
        object.insert("rank", Json::unsigned(self.rank as u64));
        object.insert("content_hash", Json::text(self.content_hash.as_str()));
        object.insert("content_length", Json::unsigned(self.content_length as u64));
        object
    }
}

impl ErrorEvidence {
    /// The evidence of the failure in a mark.
    pub fn data(&self) -> (r: JsonObject)
        ensures
            r@ == error_members(self@),
    {
        let mut object = JsonObject::new();
        object.insert("code", Json::text(self.code.name()));
        object.insert("retryable", Json::boolean(self.retryable));
        object.insert("provider", opt_text_json(&self.provider));
        object.insert("operation_id", opt_text_json(&self.operation_id));
        object
    }
}

fn items_json(items: &Vec<ItemEvidence>) -> (r: Json)
    ensures
        r@ == items_model(item_views(items@)),
{
    let mut values: Vec<Json> = Vec::new();
    let mut i: usize = 0;
    while i < items.len()
        invariant
            i <= items@.len(),
            values@.len() == i,
            forall|j: int|
                0 <= j < i ==> (#[trigger] values@[j])@ == JsonModel::Object(
                    item_members(items@[j]@),
                ),
        decreases items@.len() - i,
    {
        values.push(Json::object(items[i].data()));
        i += 1;
    }
    assert(json_models(values@) =~= items_model(item_views(items@))->Array_0);
    Json::array(values)
}

fn errors_json(errors: &Vec<ErrorEvidence>) -> (r: Json)
    ensures
        r@ == errors_model(error_evidence_views(errors@)),
{
    let mut values: Vec<Json> = Vec::new();
    let mut i: usize = 0;
    while i < errors.len()
        invariant
            i <= errors@.len(),
            values@.len() == i,
            forall|j: int|
                0 <= j < i ==> (#[trigger] values@[j])@ == JsonModel::Object(
                    error_members(errors@[j]@),
                ),
        decreases errors@.len() - i,
    {
        values.push(Json::object(errors[i].data()));
        i += 1;
    }
    assert(json_models(values@) =~= errors_model(error_evidence_views(errors@))->Array_0);
    Json::array(values)
}

impl OperationEvidence {
    /// The members of the mark that the evidence is emitted as, apart from the scores of its
    /// items, which are floating point.
    pub fn data(&self) -> (r: JsonObject)
        ensures
            r@ == operation_members(self@),
    {
        let mut object = JsonObject::new();
        object.insert("operation_id", Json::text(self.operation_id.as_str()));
        object.insert("llm_uuid", Json::text(self.llm_id.as_str()));
        object.insert("provider", Json::text(self.provider.as_str()));
        object.insert("status", Json::text(self.data.status()));
        match &self.data {
            OperationData::Retrieval {
                namespace_ref,
                failed: _,
                policy,
                latency_ms,
                items,
                partial_errors,
            } => {
                object.insert("namespace_ref", Json::text(namespace_ref.as_str()));
                object.insert("policy", Json::text(policy_name(*policy)));
                object.insert("latency_ms", Json::unsigned(*latency_ms));
                object.insert("items", items_json(items));
                object.insert("partial_errors", errors_json(partial_errors));
            },
            OperationData::Injection { namespace_ref, policy, items, estimated_tokens } => {
                object.insert("namespace_ref", Json::text(namespace_ref.as_str()));
                object.insert("policy", Json::text(policy_name(*policy)));
                object.insert("items", items_json(items));
                object.insert("estimated_tokens", Json::unsigned(*estimated_tokens as u64));
            },
            OperationData::Stored { namespace_ref, policy, latency_ms, memory_id, disposition } => {
                let name = match disposition {
                    MemoryStoreDisposition::Created => "created",
                    MemoryStoreDisposition::Existing => "existing",
                };
                object.insert("namespace_ref", Json::text(namespace_ref.as_str()));
                object.insert("policy", Json::text(policy_name(*policy)));
                object.insert("latency_ms", Json::unsigned(*latency_ms));
                object.insert("memory_id", Json::text(memory_id.as_str()));
                object.insert("disposition", Json::text(name));
            },
            OperationData::StorageSkipped { reason } => {
                object.insert("reason", Json::text(reason.as_str()));
            },
            OperationData::StorageJob {
                namespace_ref,
                policy,
                job_id,
                sequence,
                state: _,
                attempts,
                latency_ms,
                memory_ids,
                failure,
            } => {
                object.insert("namespace_ref", Json::text(namespace_ref.as_str()));
                object.insert("policy", Json::text(policy_name(*policy)));
                object.insert("job_id", Json::text(job_id.as_str()));
                object.insert("sequence", Json::unsigned(*sequence));
                object.insert("attempts", Json::unsigned(*attempts as u64));
                object.insert("latency_ms", Json::unsigned(*latency_ms));
                object.insert("memory_ids", texts_json(memory_ids));
                if let Some(failure) = failure {
                    object.insert("error", Json::object(failure.data()));
                }
            },
            OperationData::Failure { stage, policy, error } => {
                object.insert("stage", Json::text(stage.as_str()));
                object.insert("policy", Json::text(policy_name(*policy)));
                object.insert("error", Json::object(error.data()));
            },
        }
        object
    }

    /// The name of the mark that the evidence is emitted as.
    pub fn mark_name(&self) -> (r: String)
        ensures
            r@ == "memory."@ + operation_subtype(self@.data),
    {
        concat("memory.", self.data.subtype())
    }
}

/// Evidence of a match says nothing of its content but the hash and length of its text, and
/// nothing of its namespace, provenance and metadata.
pub proof fn item_evidence_holds_no_content(left: MatchView, right: MatchView)
    requires
        left.rank == right.rank,
        left.score == right.score,
        left.record.id == right.record.id,
        left.record.provider == right.record.provider,
        searchable_text(left.record.content).len() == searchable_text(right.record.content).len(),
        sha256(encode_utf8(searchable_text(left.record.content))) == sha256(
            encode_utf8(searchable_text(right.record.content)),
        ),
    ensures
        item_evidence_of(left) == item_evidence_of(right),
{
}

/// Evidence of a failure says nothing of its message and details.
pub proof fn error_evidence_holds_no_message(left: ErrorView, right: ErrorView)
    requires
        left.code == right.code,
        left.retryable == right.retryable,
        left.provider == right.provider,
        left.operation_id == right.operation_id,
    ensures
        error_evidence_of(left) == error_evidence_of(right),
{
}

/// Evidence of a match names the record, its provider, rank and score, and the hash and the number of
/// characters of its text. Evidence of a failure names its code, whether to retry, its provider and
/// its operation.
pub proof fn evidence_names_references(item: MatchView, error: ErrorView)
    ensures
        ({
            let told = item_evidence_of(item);
            let text = searchable_text(item.record.content);
            &&& told.id == item.record.id
            &&& told.provider == item.record.provider
            &&& told.rank == item.rank
            &&& told.score == item.score
            &&& told.content_length == text.len()
            &&& told.content_hash == "sha256:"@ + hex(sha256(encode_utf8(text)))
        }),
        ({
            let told = error_evidence_of(error);
            &&& told.code == error.code
            &&& told.retryable == error.retryable
            &&& told.provider == error.provider
            &&& told.operation_id == error.operation_id
        }),
{
}

/// Evidence is told of every match and every failure, in their order.
pub proof fn evidence_is_told_of_each(matches: Seq<MatchView>, errors: Seq<ErrorView>, i: int)
    ensures
        items_of(matches).len() == matches.len(),
        errors_of(errors).len() == errors.len(),
        0 <= i < matches.len() ==> items_of(matches)[i] == item_evidence_of(matches[i]),
        0 <= i < errors.len() ==> errors_of(errors)[i] == error_evidence_of(errors[i]),
{
}

/// A namespace is referred to by the hash of its wire form, which holds its tenant and its subject
/// and those of session and agent that it has, in this order.
pub proof fn namespaces_are_referred_to_by_hash(
    tenant_id: Seq<char>,
    subject_id: Seq<char>,
    session: Seq<char>,
    agent: Seq<char>,
)
    ensures
        ({
            let quoted = |value: Seq<char>| json_text(JsonModel::Text(value));
            let base = "{\"tenant_id\":"@ + quoted(tenant_id) + ",\"subject_id\":"@ + quoted(
                subject_id,
            );
            let of = |session_id: Option<Seq<char>>, agent_id: Option<Seq<char>>|
                namespace_wire(NamespaceView { tenant_id, subject_id, session_id, agent_id });
            &&& of(None, None) == base + "}"@
            &&& of(Some(session), None) == base + ",\"session_id\":"@ + quoted(session) + "}"@
            &&& of(None, Some(agent)) == base + ",\"agent_id\":"@ + quoted(agent) + "}"@
            &&& of(Some(session), Some(agent)) == base + ",\"session_id\":"@ + quoted(session)
                + ",\"agent_id\":"@ + quoted(agent) + "}"@
            &&& namespace_ref(
                NamespaceView { tenant_id, subject_id, session_id: None, agent_id: None },
            ) == "sha256:"@ + hex(sha256(encode_utf8(of(None, None))))
        }),
{
    let quoted = |value: Seq<char>| json_text(JsonModel::Text(value));
    let base = "{\"tenant_id\":"@ + quoted(tenant_id) + ",\"subject_id\":"@ + quoted(subject_id);
    let of = |session_id: Option<Seq<char>>, agent_id: Option<Seq<char>>|
        namespace_wire(NamespaceView { tenant_id, subject_id, session_id, agent_id });
    assert(of(None, None) =~= base + "}"@);
    assert(of(Some(session), None) =~= base + ",\"session_id\":"@ + quoted(session) + "}"@);
    assert(of(None, Some(agent)) =~= base + ",\"agent_id\":"@ + quoted(agent) + "}"@);
    assert(of(Some(session), Some(agent)) =~= base + ",\"session_id\":"@ + quoted(session)
        + ",\"agent_id\":"@ + quoted(agent) + "}"@);
}

/// A revision is the first twelve digits of the hash of a text.
pub proof fn revisions_are_short_hashes(text: Seq<char>)
    ensures
        revision_of(text) == hex(sha256(encode_utf8(text))).subrange(0, 12),
{
}

/// What a mark says an operation came to.
pub proof fn statuses_tell_the_result(data: DataView)
    ensures
        match data {
            DataView::Retrieval { failed, .. } => operation_subtype(data) == "retrieval"@
                && operation_status(data) == if failed {
                "failed"@
            } else {
                "completed"@
            },
            DataView::Injection { items, .. } => operation_subtype(data) == "injection"@
                && operation_status(data) == if items.len() > 0 {
                "injected"@
            } else {
                "skipped"@
            },
            DataView::Stored { .. } => operation_subtype(data) == "storage"@ && operation_status(
                data,
            ) == "stored"@,
            DataView::StorageSkipped { .. } => operation_subtype(data) == "storage"@
                && operation_status(data) == "skipped"@,
            DataView::StorageJob { state, .. } => operation_subtype(data) == "storage"@
                && operation_status(data) == match state {
                MemoryJobState::Queued => "queued"@,
                MemoryJobState::Running => "running"@,
                MemoryJobState::Retrying => "retrying"@,
                MemoryJobState::Succeeded => "stored"@,
                MemoryJobState::Failed => "failed"@,
                MemoryJobState::Rejected => "rejected"@,
                MemoryJobState::Cancelled => "cancelled"@,
            },
            DataView::Failure { .. } => operation_subtype(data) == "failure"@ && operation_status(
                data,
            ) == "failed"@,
        },
{
}

proof fn member_names_differ()
    ensures
        "operation_id"@.len() == 12,
        "llm_uuid"@.len() == 8 && "llm_uuid"@[0] == 'l',
        "provider"@.len() == 8 && "provider"@[0] == 'p',
        "status"@.len() == 6 && "status"@[0] == 's',
        "policy"@.len() == 6 && "policy"@[0] == 'p',
        "reason"@.len() == 6 && "reason"@[0] == 'r',
        "job_id"@.len() == 6 && "job_id"@[0] == 'j',
        "namespace_ref"@.len() == 13,
        "latency_ms"@.len() == 10 && "latency_ms"@[0] == 'l',
        "memory_ids"@.len() == 10 && "memory_ids"@[0] == 'm',
        "items"@.len() == 5 && "items"@[0] == 'i',
        "stage"@.len() == 5 && "stage"@[0] == 's',
        "error"@.len() == 5 && "error"@[0] == 'e',
        "partial_errors"@.len() == 14,
        "estimated_tokens"@.len() == 16,
        "memory_id"@.len() == 9,
        "disposition"@.len() == 11,
        "sequence"@.len() == 8 && "sequence"@[0] == 's',
        "attempts"@.len() == 8 && "attempts"@[0] == 'a',
        "id"@.len() == 2,
        "rank"@.len() == 4 && "rank"@[0] == 'r',
        "code"@.len() == 4 && "code"@[0] == 'c',
        "content_hash"@.len() == 12,
        "content_length"@.len() == 14,
        "retryable"@.len() == 9,
{
    reveal_strlit("operation_id");
    reveal_strlit("llm_uuid");
    reveal_strlit("provider");
    reveal_strlit("status");
    reveal_strlit("policy");
    reveal_strlit("reason");
    reveal_strlit("job_id");
    reveal_strlit("namespace_ref");
    reveal_strlit("latency_ms");
    reveal_strlit("memory_ids");
    reveal_strlit("items");
    reveal_strlit("stage");
    reveal_strlit("error");
    reveal_strlit("partial_errors");
    reveal_strlit("estimated_tokens");
    reveal_strlit("memory_id");
    reveal_strlit("disposition");
    reveal_strlit("sequence");
    reveal_strlit("attempts");
    reveal_strlit("id");
    reveal_strlit("rank");
    reveal_strlit("code");
    reveal_strlit("content_hash");
    reveal_strlit("content_length");
    reveal_strlit("retryable");
}

/// Every mark names its operation, its call, its provider and its status, whatever it is about.
pub proof fn marks_name_their_operation(operation: OperationView)
    ensures
        ({
            let members = operation_members(operation);
            &&& members.dom().contains("operation_id"@) && members["operation_id"@]
                == JsonModel::Text(operation.operation_id)
            &&& members.dom().contains("llm_uuid"@) && members["llm_uuid"@] == JsonModel::Text(
                operation.llm_id,
            )
            &&& members.dom().contains("provider"@) && members["provider"@] == JsonModel::Text(
                operation.provider,
            )
            &&& members.dom().contains("status"@) && members["status"@] == JsonModel::Text(
                operation_status(operation.data),
            )
        }),
{
    member_names_differ();
}

/// Marks of searches and injections say where, under which policy and of which memories, and how
/// long or how much it took.
pub proof fn marks_of_reads_tell_their_data(operation: OperationView)
    ensures
        ({
            let members = operation_members(operation);
            match operation.data {
                DataView::Retrieval {
                    namespace_ref,
                    failed: _,
                    policy,
                    latency_ms,
                    items,
                    partial_errors,
                } => {
                    &&& members["namespace_ref"@] == JsonModel::Text(namespace_ref)
                    &&& members["policy"@] == JsonModel::Text(failure_policy_name(policy))
                    &&& members["latency_ms"@] == JsonModel::Integer(latency_ms as int)
                    &&& members["items"@] matches JsonModel::Array(listed) && listed.len()
                        == items.len() && forall|i: int|
                        0 <= i < listed.len() ==> #[trigger] listed[i] == JsonModel::Object(
                            item_members(items[i]),
                        )
                    &&& members["partial_errors"@] matches JsonModel::Array(listed) && listed.len()
                        == partial_errors.len() && forall|i: int|
                        0 <= i < listed.len() ==> #[trigger] listed[i] == JsonModel::Object(
                            error_members(partial_errors[i]),
                        )
                },
                DataView::Injection { namespace_ref, policy, items, estimated_tokens } => {
                    &&& members["namespace_ref"@] == JsonModel::Text(namespace_ref)
                    &&& members["policy"@] == JsonModel::Text(failure_policy_name(policy))
                    &&& members["estimated_tokens"@] == JsonModel::Integer(estimated_tokens as int)
                    &&& members["items"@] matches JsonModel::Array(listed) && listed.len()
                        == items.len() && forall|i: int|
                        0 <= i < listed.len() ==> #[trigger] listed[i] == JsonModel::Object(
                            item_members(items[i]),
                        )
                },
                DataView::Failure { stage, policy, error } => {
                    &&& members["stage"@] == JsonModel::Text(stage)
                    &&& members["policy"@] == JsonModel::Text(failure_policy_name(policy))
                    &&& members["error"@] == JsonModel::Object(error_members(error))
                },
                _ => true,
            }
        }),
{
    member_names_differ();
}

/// Marks of stores say where, under which policy, how long it took and which records they are about,
/// or why nothing was stored.
pub proof fn marks_of_writes_tell_their_data(operation: OperationView)
    ensures
        ({
            let members = operation_members(operation);
            match operation.data {
                DataView::Stored { namespace_ref, policy, latency_ms, memory_id, disposition } => {
                    &&& members["namespace_ref"@] == JsonModel::Text(namespace_ref)
                    &&& members["policy"@] == JsonModel::Text(failure_policy_name(policy))
                    &&& members["latency_ms"@] == JsonModel::Integer(latency_ms as int)
                    &&& members["memory_id"@] == JsonModel::Text(memory_id)
                    &&& members["disposition"@] == JsonModel::Text(
                        match disposition {
                            MemoryStoreDisposition::Created => "created"@,
                            MemoryStoreDisposition::Existing => "existing"@,
                        },
                    )
                },
                DataView::StorageSkipped { reason } => members["reason"@] == JsonModel::Text(reason),
                DataView::StorageJob {
                    namespace_ref,
                    policy,
                    job_id,
                    sequence,
                    state: _,
                    attempts,
                    latency_ms,
                    memory_ids,
                    failure,
                } => {
                    &&& members["namespace_ref"@] == JsonModel::Text(namespace_ref)
                    &&& members["policy"@] == JsonModel::Text(failure_policy_name(policy))
                    &&& members["job_id"@] == JsonModel::Text(job_id)
                    &&& members["sequence"@] == JsonModel::Integer(sequence as int)
                    &&& members["attempts"@] == JsonModel::Integer(attempts as int)
                    &&& members["latency_ms"@] == JsonModel::Integer(latency_ms as int)
                    &&& members["memory_ids"@] == texts_model(memory_ids)
                    &&& members.dom().contains("error"@) == (failure is Some)
                    &&& failure matches Some(error) ==> members["error"@] == JsonModel::Object(
                        error_members(error),
                    )
                },
                _ => true,
            }
        }),
{
    member_names_differ();
}

/// An item and a failure in a mark have their members and no others.
pub proof fn items_and_failures_have_their_members(
    item: ItemEvidenceView,
    error: ErrorEvidenceView,
)
    ensures
        ({
            let told = item_members(item);
            &&& told.dom() =~= set!["id"@, "provider"@, "rank"@, "content_hash"@, "content_length"@]
            &&& told["id"@] == JsonModel::Text(item.id)
            &&& told["provider"@] == JsonModel::Text(item.provider)
            &&& told["rank"@] == JsonModel::Integer(item.rank as int)
            &&& told["content_hash"@] == JsonModel::Text(item.content_hash)
            &&& told["content_length"@] == JsonModel::Integer(item.content_length as int)
        }),
        ({
            let told = error_members(error);
            &&& told.dom() =~= set!["code"@, "retryable"@, "provider"@, "operation_id"@]
            &&& told["code"@] == JsonModel::Text(error_code_name(error.code))
            &&& told["retryable"@] == JsonModel::Bool(error.retryable)
            &&& told["provider"@] == opt_text_model(error.provider)
            &&& told["operation_id"@] == opt_text_model(error.operation_id)
        }),
{
    member_names_differ();
}

} // verus!
