//! Deterministic, instance-local reference memory provider.
//!
//! Search tokenizes case-normalized alphanumeric words, removes duplicates, and scores each record
//! as the fraction of unique query tokens present in the searchable record content. Zero-overlap
//! records are omitted. Ties sort by stable record ID before one-based ranks are assigned.

use vstd::prelude::*;
use vstd::set_lib::{lemma_len_intersect, lemma_len_subset};
use crate::error::ErrorView;
use crate::json::{
    json_bytes, json_equal, json_text, no_members, object_contained, JsonModel, JsonObject,
};
use crate::memory::{
    match_views, outcome, record_views, search_fault, store_fault, ContentView, FilterView,
    MatchView, MemoryContent, MemoryErrorCode, MemoryMatch, MemoryNamespace, MemoryOperationError,
    MemoryRecord, MemorySearchRequest, MemorySearchResult, MemorySearchScope,
    MemoryStoreDisposition, MemoryStoreRequest, MemoryStoreResult, NamespaceView, RecordView, Score,
    SearchRequestView, SearchResultView, StoreRequestView, StoreResultView,
};
use crate::text::{
    all_ascii, alphanumeric, ascii_lower, concat, decimal, decimal_is_digits, decimal_value,
    decimal_is_exact, digits_order_as_numbers, from_chars, is_text_before, lower_case,
    padding_keeps_value, pow10, same_bytes, same_opt_text, splits, text_before, text_order_is_total,
    text_order_is_transitive, texts, to_chars, to_padded_decimal, zero_padded,
};
use crate::time::{earlier, Timestamp};
use crate::wire::{payload_json, payload_model, payload_model_is_injective};

verus! {

/// The name of the reference provider.
pub const IN_MEMORY_PROVIDER: &'static str = "in_memory";

/// `s[start..end]` is a longest run of alphanumeric characters.
pub open spec fn word_at(s: Seq<char>, start: int, end: int) -> bool {
    &&& 0 <= start < end <= s.len()
    &&& forall|i: int| start <= i < end ==> alphanumeric(#[trigger] s[i])
    &&& start == 0 || !alphanumeric(s[start - 1])
    &&& end == s.len() || !alphanumeric(s[end])
}

/// The lower-case words of the first `upto` characters of a text.
pub open spec fn tokens_upto(s: Seq<char>, upto: int) -> Set<Seq<char>> {
    Set::new(
        |token: Seq<char>|
            exists|start: int, end: int| #[trigger]
                word_at(s, start, end) && end <= upto && token == lower_case(s.subrange(start, end)),
    )
}

/// The lower-case words of a text.
pub open spec fn tokens(s: Seq<char>) -> Set<Seq<char>> {
    tokens_upto(s, s.len() as int)
}

/// The text of a content that a search looks into.
pub open spec fn searchable_text(content: ContentView) -> Seq<char> {
    match content {
        ContentView::Text { text } => text,
        ContentView::Json { value } => json_text(value),
        ContentView::Reference { reference, preview } => match preview {
            Some(preview) => preview,
            None => reference,
        },
    }
}

/// How many unique words of a query a content holds.
pub open spec fn overlap(query: Seq<char>, content: ContentView) -> nat {
    tokens(query).intersect(tokens(searchable_text(content))).len()
}

/// The namespace of a record lies in what a search asks for.
pub open spec fn namespace_selected(
    record: NamespaceView,
    query: NamespaceView,
    scope: MemorySearchScope,
) -> bool {
    &&& record.tenant_id == query.tenant_id
    &&& record.subject_id == query.subject_id
    &&& match scope {
        MemorySearchScope::Subject => true,
        MemorySearchScope::Agent => record.agent_id == query.agent_id,
        MemorySearchScope::Session => record.session_id == query.session_id,
        MemorySearchScope::Exact => {
            &&& query.session_id is Some ==> record.session_id == query.session_id
            &&& query.agent_id is Some ==> record.agent_id == query.agent_id
        },
    }
}

/// An instant lies in an inclusive range.
pub open spec fn in_range(
    at: Timestamp,
    after: Option<Timestamp>,
    before: Option<Timestamp>,
) -> bool {
    &&& after matches Some(after) ==> !earlier(at, after)
    &&& before matches Some(before) ==> !earlier(before, at)
}

/// A record passes a filter.
pub open spec fn filter_selected(record: RecordView, filter: FilterView) -> bool {
    &&& object_contained(filter.metadata, record.metadata)
    &&& in_range(record.event_timestamp, filter.event_after, filter.event_before)
    &&& in_range(record.ingested_at, filter.ingested_after, filter.ingested_before)
}

/// A record is a candidate for a search: it lies in the namespace, passes the filter and shares a
/// word with the query.
pub open spec fn candidate(record: RecordView, request: SearchRequestView) -> bool {
    &&& namespace_selected(record.namespace, request.namespace, request.scope)
    &&& filter_selected(record, request.filter)
    &&& overlap(request.query, record.content) > 0
}

/// One record ranks before another: by more words of the query, then by its identifier.
pub open spec fn ranks_before(query: Seq<char>, left: RecordView, right: RecordView) -> bool {
    let a = overlap(query, left.content);
    let b = overlap(query, right.content);
    a > b || (a == b && text_before(left.id, right.id))
}

/// How many of the records are candidates.
pub open spec fn candidate_count(records: Seq<RecordView>, request: SearchRequestView) -> nat {
    records.filter(|record: RecordView| candidate(record, request)).len()
}

/// `matches` are the best candidates among the records, at most as many as the limit, best first.
pub open spec fn best_matches(
    records: Seq<RecordView>,
    request: SearchRequestView,
    matches: Seq<MatchView>,
) -> bool {
    let count = candidate_count(records, request);
    &&& matches.len() == if count < request.limit { count } else { request.limit }
    &&& forall|i: int| 0 <= i < matches.len() ==> {
        &&& records.contains((#[trigger] matches[i]).record)
        &&& candidate(matches[i].record, request)
        &&& matches[i].score == (Score::Overlap {
            matched: overlap(request.query, matches[i].record.content) as usize,
            total: tokens(request.query).len() as usize,
        })
        &&& matches[i].rank == i + 1
    }
    &&& forall|i: int, j: int|
        0 <= i < j < matches.len() ==> ranks_before(
            request.query,
            (#[trigger] matches[i]).record,
            (#[trigger] matches[j]).record,
        )
    &&& forall|k: int, j: int|
        0 <= k < records.len() && candidate(#[trigger] records[k], request) && 0 <= j
            < matches.len() ==> ranks_before(request.query, (#[trigger] matches[j]).record, records[k])
            || exists|i: int| 0 <= i < matches.len() && (#[trigger] matches[i]).record == records[k]
}

/// Tells whether a list holds a text.
pub fn holds_text(values: &Vec<String>, value: &String) -> (r: bool)
    ensures
        r == texts(values@).contains(value@),
{
    let mut i: usize = 0;
    while i < values.len()
        invariant
            i <= values@.len(),
            forall|j: int| 0 <= j < i ==> texts(values@)[j] != value@,
        decreases values@.len() - i,
    {
        if values[i] == *value {
            assert(texts(values@)[i as int] == value@);
            return true;
        }
        i += 1;
    }
    false
}

/// The lower-case words of a text, each once. None of them is empty.
pub fn tokenize(value: &str) -> (r: Vec<String>)
    ensures
        texts(r@).no_duplicates(),
        texts(r@).to_set() == tokens(value@),
        forall|token: Seq<char>| #[trigger] tokens(value@).contains(token) ==> token.len() > 0,
{
    let chars = to_chars(value);
    let mut out: Vec<String> = Vec::new();
    let mut i: usize = 0;
    assert(texts(out@).to_set() =~= tokens_upto(chars@, 0));
    while i < chars.len()
        invariant
            i <= chars@.len(),
            i == 0 || i == chars@.len() || !alphanumeric(chars@[i - 1]) || !alphanumeric(
                chars@[i as int],
            ),
            texts(out@).no_duplicates(),
            texts(out@).to_set() == tokens_upto(chars@, i as int),
            forall|t: Seq<char>| #[trigger]
                tokens_upto(chars@, i as int).contains(t) ==> t.len() > 0,
        decreases chars@.len() - i,
    {
        if !chars[i].is_alphanumeric() {
            assert(tokens_upto(chars@, i as int) =~= tokens_upto(chars@, i + 1)) by {
                assert forall|start: int, end: int|
                    word_at(chars@, start, end) && end <= i + 1 implies end <= i by {
                    assert(alphanumeric(chars@[end - 1]));
                }
            }
            i += 1;
            continue ;
        }
        let start = i;
        while i < chars.len() && chars[i].is_alphanumeric()
            invariant
                start <= i <= chars@.len(),
                forall|k: int| start <= k < i ==> alphanumeric(#[trigger] chars@[k]),
            ensures
                i == chars@.len() || !alphanumeric(chars@[i as int]),
            decreases chars@.len() - i,
        {
            i += 1;
        }
        let token = from_chars(&chars, start, i).as_str().to_lowercase();
        let ghost before = texts(out@);
        proof {
            assert(word_at(chars@, start as int, i as int));
            assert forall|a: int, b: int| word_at(chars@, a, b) && start < b <= i implies a == start
                && b == i by {
                if b < i {
                    assert(alphanumeric(chars@[b]));
                }
                if a > start {
                    assert(alphanumeric(chars@[a - 1]));
                }
                if a < start {
                    assert(alphanumeric(chars@[start - 1]));
                }
            }
            assert(tokens_upto(chars@, i as int) =~= tokens_upto(chars@, start as int).insert(token@))
                by {
                assert forall|t: Seq<char>| tokens_upto(chars@, i as int).contains(t) implies tokens_upto(
                    chars@,
                    start as int,
                ).insert(token@).contains(t) by {
                    let (a, b) = choose|a: int, b: int| #[trigger]
                        word_at(chars@, a, b) && b <= i && t == lower_case(chars@.subrange(a, b));
                    if b <= start {
                        assert(tokens_upto(chars@, start as int).contains(t));
                    } else {
                        assert(a == start && b == i);
                    }
                }
            }
        }
        if !holds_text(&out, &token) {
            out.push(token);
            proof {
                assert(texts(out@) =~= before.push(token@));
                assert(before.push(token@).to_set() =~= before.to_set().insert(token@)) by {
                    assert forall|t: Seq<char>| before.to_set().insert(token@).contains(t) implies before.push(
                        token@,
                    ).to_set().contains(t) by {
                        if t == token@ {
                            assert(before.push(token@)[before.len() as int] == t);
                        } else {
                            let k = choose|k: int| 0 <= k < before.len() && before[k] == t;
                            assert(before.push(token@)[k] == t);
                        }
                    }
                }
            }
        } else {
            assert(before.to_set().insert(token@) =~= before.to_set());
        }
    }
    out
}

/// The words of a content that a search looks into, each once.
pub fn searchable_tokens(content: &MemoryContent) -> (r: Vec<String>)
    ensures
        texts(r@).no_duplicates(),
        texts(r@).to_set() == tokens(searchable_text(content@)),
        forall|token: Seq<char>| #[trigger]
            tokens(searchable_text(content@)).contains(token) ==> token.len() > 0,
{
    match content {
        MemoryContent::Text { text } => tokenize(text.as_str()),
        MemoryContent::Json { value } => tokenize(value.to_text().as_str()),
        MemoryContent::Reference { reference, preview } => match preview {
            Some(preview) => tokenize(preview.as_str()),
            None => tokenize(reference.as_str()),
        },
    }
}

/// How many of the query's words a content holds.
fn overlap_count(query: &Vec<String>, content: &Vec<String>) -> (r: usize)
    requires
        texts(query@).no_duplicates(),
    ensures
        r == texts(query@).to_set().intersect(texts(content@).to_set()).len(),
{
    let ghost words = texts(query@);
    let ghost held = texts(content@).to_set();
    let mut count: usize = 0;
    let mut i: usize = 0;
    assert(words.take(0).to_set().intersect(held) =~= Set::<Seq<char>>::empty());
    while i < query.len()
        invariant
            i <= query@.len(),
            words == texts(query@),
            words.no_duplicates(),
            held == texts(content@).to_set(),
            count <= i,
            words.take(i as int).to_set().intersect(held).finite(),
            count == words.take(i as int).to_set().intersect(held).len(),
        decreases query@.len() - i,
    {
        proof {
            let seen = words.take(i as int).to_set();
            let word = words[i as int];
            assert(words.take(i + 1) =~= words.take(i as int).push(word));
            assert(words.take(i + 1).to_set() =~= seen.insert(word)) by {
                assert forall|t: Seq<char>| seen.insert(word).contains(t) implies words.take(
                    i + 1,
                ).to_set().contains(t) by {
                    if t == word {
                        assert(words.take(i + 1)[i as int] == t);
                    } else {
                        let k = choose|k: int|
                            0 <= k < words.take(i as int).len() && words.take(i as int)[k] == t;
                        assert(words.take(i + 1)[k] == t);
                    }
                }
            }
            assert(!seen.contains(word));
            if held.contains(word) {
                assert(seen.insert(word).intersect(held) =~= seen.intersect(held).insert(word));
            } else {
                assert(seen.insert(word).intersect(held) =~= seen.intersect(held));
            }
            assert(texts(content@).contains(word) == held.contains(word));
        }
        if holds_text(content, &query[i]) {
            count += 1;
        }
        i += 1;
    }
    assert(words.take(query@.len() as int) =~= words);
    count
}

/// Tells whether the namespace of a record lies in what a search asks for.
pub fn namespace_matches(
    record: &MemoryNamespace,
    query: &MemoryNamespace,
    scope: MemorySearchScope,
) -> (r: bool)
    ensures
        r == namespace_selected(record@, query@, scope),
{
    if record.tenant_id != query.tenant_id || record.subject_id != query.subject_id {
        return false;
    }
    match scope {
        MemorySearchScope::Subject => true,
        MemorySearchScope::Agent => same_opt_text(&record.agent_id, &query.agent_id),
        MemorySearchScope::Session => same_opt_text(&record.session_id, &query.session_id),
        MemorySearchScope::Exact => {
            (query.session_id.is_none() || same_opt_text(&record.session_id, &query.session_id))
                && (query.agent_id.is_none() || same_opt_text(&record.agent_id, &query.agent_id))
        },
    }
}

fn range_matches(at: &Timestamp, after: &Option<Timestamp>, before: &Option<Timestamp>) -> (r: bool)
    ensures
        r == in_range(*at, *after, *before),
{
    if let Some(after) = after {
        if at.is_before(after) {
            return false;
        }
    }
    if let Some(before) = before {
        if before.is_before(at) {
            return false;
        }
    }
    true
}

/// Tells whether a record passes the filter of a search.
pub fn filter_matches(record: &MemoryRecord, request: &MemorySearchRequest) -> (r: bool)
    ensures
        r == filter_selected(record@, request@.filter),
{
    let filter = &request.filter;
    filter.metadata.contained_in(&record.metadata) && range_matches(
        &record.event_timestamp,
        &filter.event_after,
        &filter.event_before,
    ) && range_matches(&record.ingested_at, &filter.ingested_after, &filter.ingested_before)
}

/// The identifier of the record with a sequence number.
pub open spec fn record_id(sequence: nat) -> Seq<char> {
    "memory-"@ + zero_padded(decimal(sequence), 16)
}

/// A stored record that a caller key stands for.
pub struct ReplayView {
    pub namespace: NamespaceView,
    pub key: Seq<char>,
    pub record: RecordView,
}

/// What a provider holds: its last sequence number, its records in the order of storage, and the
/// caller keys that were used.
pub struct ProviderView {
    pub next_id: nat,
    pub records: Seq<RecordView>,
    pub replays: Seq<ReplayView>,
}

impl ProviderView {
    /// Every record has the identifier of its place, and every caller key, which is used once in
    /// its namespace, stands for one of the records.
    pub open spec fn inv(self) -> bool {
        &&& self.records.len() == self.next_id
        &&& self.next_id <= u64::MAX
        &&& forall|i: int|
            0 <= i < self.records.len() ==> (#[trigger] self.records[i]).id == record_id(
                (i + 1) as nat,
            ) && self.records[i].provider == IN_MEMORY_PROVIDER@
        &&& forall|i: int|
            0 <= i < self.replays.len() ==> self.records.contains((#[trigger] self.replays[i]).record)
                && self.replays[i].record.namespace == self.replays[i].namespace
        &&& forall|i: int, j: int|
            0 <= i < j < self.replays.len() ==> (#[trigger] self.replays[i]).namespace != (
            #[trigger] self.replays[j]).namespace || self.replays[i].key != self.replays[j].key
    }
}

/// The record that a caller key stands for in a namespace.
pub open spec fn replay_of(
    replays: Seq<ReplayView>,
    namespace: NamespaceView,
    key: Seq<char>,
) -> Option<RecordView>
    decreases replays.len(),
{
    if replays.len() == 0 {
        None
    } else if replays.last().namespace == namespace && replays.last().key == key {
        Some(replays.last().record)
    } else {
        replay_of(replays.drop_last(), namespace, key)
    }
}

/// A record holds what a request asks to store.
pub open spec fn same_payload(record: RecordView, request: StoreRequestView) -> bool {
    &&& record.content == request.content
    &&& record.event_timestamp == request.event_timestamp
    &&& record.provenance == request.provenance
    &&& record.metadata == request.metadata
}

/// The payload of a request as JSON.
pub open spec fn request_payload(request: StoreRequestView) -> JsonModel {
    payload_model(request.content, request.event_timestamp, request.provenance, request.metadata)
}

/// The record that a request makes.
pub open spec fn new_record(
    sequence: nat,
    request: StoreRequestView,
    now: Timestamp,
) -> RecordView {
    RecordView {
        id: record_id(sequence),
        provider: IN_MEMORY_PROVIDER@,
        namespace: request.namespace,
        content: request.content,
        event_timestamp: request.event_timestamp,
        ingested_at: now,
        provenance: request.provenance,
        metadata: request.metadata,
        provider_metadata: no_members(),
    }
}

/// What a provider holds after it has stored a new record.
pub open spec fn grown(
    state: ProviderView,
    request: StoreRequestView,
    now: Timestamp,
) -> ProviderView {
    let record = new_record(state.next_id + 1, request, now);
    ProviderView {
        next_id: state.next_id + 1,
        records: state.records.push(record),
        replays: match request.idempotency_key {
            Some(key) => state.replays.push(
                ReplayView { namespace: request.namespace, key, record },
            ),
            None => state.replays,
        },
    }
}

/// The record that the caller key of a request stands for.
pub open spec fn replayed(state: ProviderView, request: StoreRequestView) -> Option<RecordView> {
    match request.idempotency_key {
        Some(key) => replay_of(state.replays, request.namespace, key),
        None => None,
    }
}

/// What a store request comes to.
pub open spec fn store_outcome(
    state: ProviderView,
    request: StoreRequestView,
    now: Timestamp,
) -> Result<
    StoreResultView,
    ErrorView,
> {
    let of = |code: MemoryErrorCode, message: Seq<char>|
        ErrorView::new(code, message, false).of(
            request.context.operation_id,
            IN_MEMORY_PROVIDER@,
        );
    if store_fault(request) is Some {
        Err(ErrorView::invalid_request(store_fault(request)->0))
    } else if replayed(state, request) is Some {
        if same_payload(replayed(state, request)->0, request) {
            Ok(
                StoreResultView {
                    record: replayed(state, request)->0,
                    disposition: MemoryStoreDisposition::Existing,
                },
            )
        } else {
            Err(
                of(
                    MemoryErrorCode::Conflict,
                    "idempotency key was already used with a different memory payload"@,
                ),
            )
        }
    } else if state.next_id == u64::MAX {
        Err(
            of(
                MemoryErrorCode::Internal,
                "in-memory provider exhausted its record ID space"@,
            ),
        )
    } else {
        Ok(
            StoreResultView {
                record: new_record(state.next_id + 1, request, now),
                disposition: MemoryStoreDisposition::Created,
            },
        )
    }
}

/// A store creates a record.
pub open spec fn creates(result: Result<StoreResultView, ErrorView>) -> bool {
    result matches Ok(stored) && stored.disposition == MemoryStoreDisposition::Created
}

struct IdempotencyEntry {
    namespace: MemoryNamespace,
    key: String,
    fingerprint: Vec<u8>,
    record: MemoryRecord,
}

impl IdempotencyEntry {
    spec fn view(&self) -> ReplayView {
        ReplayView { namespace: self.namespace@, key: self.key@, record: self.record@ }
    }

    /// The fingerprint is that of the record's payload.
    spec fn wf(&self) -> bool {
        json_bytes(
            payload_model(
                self.record@.content,
                self.record@.event_timestamp,
                self.record@.provenance,
                self.record@.metadata,
            ),
        ) == self.fingerprint@
    }
}

/// Network-free reference provider with deterministic search and storage.
///
/// State is private to each provider instance; there is no process-global registry and no
/// background task.
pub struct InMemoryProvider {
    next_id: u64,
    records: Vec<MemoryRecord>,
    idempotency: Vec<IdempotencyEntry>,
}

impl View for InMemoryProvider {
    type V = ProviderView;

    closed spec fn view(&self) -> ProviderView {
        ProviderView {
            next_id: self.next_id as nat,
            records: record_views(self.records@),
            replays: self.idempotency@.map_values(|entry: IdempotencyEntry| entry.view()),
        }
    }
}

impl Default for InMemoryProvider {
    fn default() -> (r: Self)
        ensures
            r.wf(),
            r@ == (ProviderView { next_id: 0, records: Seq::empty(), replays: Seq::empty() }),
    {
        InMemoryProvider::new()
    }
}

/// The bytes are those of a request's payload, and of no other JSON value.
pub open spec fn identifies_payload(bytes: Seq<u8>, request: StoreRequestView) -> bool {
    &&& json_bytes(request_payload(request)) == bytes
    &&& forall|other: JsonModel| #[trigger]
        json_bytes(other) == bytes ==> other == request_payload(request)
}

/// The bytes that identify the payload of a request. Every payload has them.
pub fn fingerprint(request: &MemoryStoreRequest) -> (r: Result<Vec<u8>, MemoryOperationError>)
    ensures
        r matches Ok(bytes) && identifies_payload(bytes@, request@),
{
    let payload = payload_json(
        &request.content,
        &request.event_timestamp,
        &request.provenance,
        &request.metadata,
    );
    match payload.to_bytes() {
        Ok(bytes) => Ok(bytes),
        Err(text) => {
            let message = concat("failed to fingerprint memory payload: ", text.as_str());
            Err(
                MemoryOperationError::new(
                    MemoryErrorCode::Internal,
                    message.as_str(),
                    false,
                ).with_operation_id(request.context.operation_id.as_str()).with_provider(
                    IN_MEMORY_PROVIDER,
                ),
            )
        },
    }
}

impl InMemoryProvider {
    /// The contents are consistent, and every fingerprint is that of its record.
    pub closed spec fn wf(&self) -> bool {
        &&& self@.inv()
        &&& forall|i: int| 0 <= i < self.idempotency@.len() ==> (#[trigger] self.idempotency@[i]).wf()
    }

    /// The contents of a well-formed provider are consistent.
    pub proof fn wf_is_consistent(&self)
        requires
            self.wf(),
        ensures
            self@.inv(),
    {
    }

    /// Create an empty provider instance.
    pub fn new() -> (r: Self)
        ensures
            r.wf(),
            r@ == (ProviderView { next_id: 0, records: Seq::empty(), replays: Seq::empty() }),
    {
        let r = InMemoryProvider { next_id: 0, records: Vec::new(), idempotency: Vec::new() };
        assert(r@.records =~= Seq::empty());
        assert(r@.replays =~= Seq::empty());
        r
    }

    /// Stable provider identifier.
    pub fn name(&self) -> (r: &'static str)
        ensures
            r@ == IN_MEMORY_PROVIDER@,
    {
        IN_MEMORY_PROVIDER
    }

    /// Search the records. A valid request always succeeds, without partial failures.
    pub fn search(&self, request: &MemorySearchRequest) -> (r: Result<
        MemorySearchResult,
        MemoryOperationError,
    >)
        requires
            self.wf(),
        ensures
            match search_fault(request@) {
                Some(message) => outcome(r) == Err::<SearchResultView, ErrorView>(
                    ErrorView::invalid_request(message),
                ),
                None => r matches Ok(result) && best_matches(
                    self@.records,
                    request@,
                    result@.matches,
                ) && result@.partial_errors == Seq::<ErrorView>::empty(),
            },
    {
        request.validate()?;
        let query_tokens = tokenize(request.query.as_str());
        let ghost records = self@.records;
        let ghost eligible = |record: RecordView| candidate(record, request@);
        let mut found: Vec<MemoryMatch> = Vec::new();
        let mut k: usize = 0;
        while k < self.records.len()
            invariant
                k <= self.records@.len(),
                self.wf(),
                records == self@.records,
                eligible == (|record: RecordView| candidate(record, request@)),
                texts(query_tokens@).no_duplicates(),
                texts(query_tokens@).to_set() == tokens(request@.query),
                ordered_candidates(records.take(k as int), request@, match_views(found@)),
                found@.len() == records.take(k as int).filter(eligible).len(),
            decreases self.records@.len() - k,
        {
            let record = &self.records[k];
            let ghost prior = records.take(k as int);
            let ghost before = match_views(found@);
            assert(record@ == records[k as int]);
            assert(records.take(k + 1) =~= prior.push(record@));
            assert(prior.push(record@).filter(eligible) == if eligible(record@) {
                prior.filter(eligible).push(record@)
            } else {
                prior.filter(eligible)
            }) by {
                assert(prior.push(record@).drop_last() =~= prior);
                reveal(Seq::filter);
            }
            if namespace_matches(&record.namespace, &request.namespace, request.scope)
                && filter_matches(record, request) {
                let matched = overlap_count(&query_tokens, &searchable_tokens(&record.content));
                if matched > 0 {
                    let total = query_tokens.len();
                    proof {
                        texts(query_tokens@).unique_seq_to_set();
                        assert forall|content: ContentView| #[trigger]
                            overlap(request@.query, content) <= usize::MAX by {
                            lemma_len_intersect(
                                tokens(request@.query),
                                tokens(searchable_text(content)),
                            );
                        }
                    }
                    let mut at: usize = 0;
                    while at < found.len() && stands_before(&found[at], matched, record)
                        invariant
                            forall|content: ContentView| #[trigger]
                                overlap(request@.query, content) <= usize::MAX,
                            at <= found@.len(),
                            before == match_views(found@),
                            ordered_candidates(prior, request@, before),
                            matched == overlap(request@.query, record@.content),
                            forall|j: int|
                                0 <= j < at ==> ranks_before(
                                    request@.query,
                                    (#[trigger] before[j]).record,
                                    record@,
                                ),
                        ensures
                            at < found@.len() ==> !ranks_before(
                                request@.query,
                                before[at as int].record,
                                record@,
                            ),
                        decreases found@.len() - at,
                    {
                        at += 1;
                    }
                    let memory_match = MemoryMatch {
                        record: record.clone(),
                        score: Score::Overlap { matched, total },
                        rank: 0,
                    };
                    let ghost view = memory_match@;
                    found.insert(at, memory_match);
                    proof {
                        assert(match_views(found@) =~= before.insert(at as int, view));
                        self@.ids_are_distinct();
                        insertion_keeps_order(prior, request@, before, at as int, view);
                    }
                } else {
                    proof {
                        skipping_keeps_order(prior, request@, before, record@);
                    }
                }
            } else {
                proof {
                    skipping_keeps_order(prior, request@, before, record@);
                }
            }
            k += 1;
        }
        assert(records.take(records.len() as int) =~= records);
        let ghost all = match_views(found@);
        found.truncate(request.limit);
        let ghost cut = match_views(found@);
        assert(cut =~= all.take(cut.len() as int));
        let mut i: usize = 0;
        while i < found.len()
            invariant
                i <= found@.len(),
                found@.len() == cut.len(),
                forall|j: int|
                    0 <= j < cut.len() ==> (#[trigger] found@[j])@ == (MatchView {
                        rank: if j < i { (j + 1) as nat } else { cut[j].rank },
                        ..cut[j]
                    }),
            decreases found@.len() - i,
        {
            found[i].rank = i + 1;
            i += 1;
        }
        let result = MemorySearchResult { matches: found, partial_errors: Vec::new() };
        proof {
            let matches = result@.matches;
            assert(result@.partial_errors =~= Seq::empty());
            assert(forall|j: int| 0 <= j < matches.len() ==> (#[trigger] matches[j]).record
                == all[j].record && matches[j].score == all[j].score && matches[j].rank == j + 1);
            assert forall|n: int, j: int|
                0 <= n < records.len() && candidate(#[trigger] records[n], request@) && 0 <= j
                    < matches.len() implies ranks_before(
                request@.query,
                (#[trigger] matches[j]).record,
                records[n],
            ) || exists|i: int|
                0 <= i < matches.len() && (#[trigger] matches[i]).record == records[n] by {
                let place = choose|place: int|
                    0 <= place < all.len() && (#[trigger] all[place]).record == records[n];
                if place < matches.len() {
                    assert(matches[place].record == records[n]);
                } else {
                    assert(ranks_before(request@.query, all[j].record, all[place].record));
                }
            }
        }
        Ok(result)
    }

    /// Store one memory at the given instant. A request whose caller key was used before in its
    /// namespace creates nothing.
    pub fn store(&mut self, request: MemoryStoreRequest, now: Timestamp) -> (r: Result<
        MemoryStoreResult,
        MemoryOperationError,
    >)
        requires
            old(self).wf(),
        ensures
            final(self).wf(),
            outcome(r) == store_outcome(old(self)@, request@, now),
            final(self)@ == if creates(outcome(r)) {
                grown(old(self)@, request@, now)
            } else {
                old(self)@
            },
    {
        request.validate()?;
        let fingerprint = fingerprint(&request)?;
        if let Some(key) = &request.idempotency_key {
            let mut i: usize = self.idempotency.len();
            assert(self@.replays.take(i as int) =~= self@.replays);
            while i > 0
                invariant
                    i <= self.idempotency@.len(),
                    self.wf(),
                    *self == *old(self),
                    request.idempotency_key == Some(*key),
                    store_fault(request@) is None,
                    identifies_payload(fingerprint@, request@),
                    replay_of(self@.replays, request@.namespace, key@) == replay_of(
                        self@.replays.take(i as int),
                        request@.namespace,
                        key@,
                    ),
                decreases i,
            {
                let entry = &self.idempotency[i - 1];
                assert(self@.replays.take(i as int).last() == entry.view());
                assert(self@.replays.take(i as int).drop_last() =~= self@.replays.take(i - 1));
                if entry.namespace.same(&request.namespace) && entry.key == *key {
                    assert(entry.wf());
                    proof {
                        if entry.fingerprint@ == fingerprint@ {
                            payload_model_is_injective(
                                entry.record@.content,
                                entry.record@.event_timestamp,
                                entry.record@.provenance,
                                entry.record@.metadata,
                                request@.content,
                                request@.event_timestamp,
                                request@.provenance,
                                request@.metadata,
                            );
                        }
                    }
                    if same_bytes(&entry.fingerprint, &fingerprint) {
                        return Ok(
                            MemoryStoreResult {
                                record: entry.record.clone(),
                                disposition: MemoryStoreDisposition::Existing,
                            },
                        );
                    }
                    return Err(
                        MemoryOperationError::conflict(
                            "idempotency key was already used with a different memory payload",
                        ).with_operation_id(request.context.operation_id.as_str()).with_provider(
                            IN_MEMORY_PROVIDER,
                        ),
                    );
                }
                i -= 1;
            }
        }
        if self.next_id == u64::MAX {
            return Err(
                MemoryOperationError::new(
                    MemoryErrorCode::Internal,
                    "in-memory provider exhausted its record ID space",
                    false,
                ).with_operation_id(request.context.operation_id.as_str()).with_provider(
                    IN_MEMORY_PROVIDER,
                ),
            );
        }
        let ghost state = self@;
        let ghost entries = self.idempotency@;
        let sequence: u64 = self.next_id + 1;
        let number = to_padded_decimal(sequence, 16);
        let record = MemoryRecord {
            id: concat("memory-", number.as_str()),
            provider: IN_MEMORY_PROVIDER.to_owned(),
            namespace: request.namespace.clone(),
            content: request.content.clone(),
            event_timestamp: request.event_timestamp,
            ingested_at: now,
            provenance: request.provenance.clone(),
            metadata: request.metadata.clone(),
            provider_metadata: JsonObject::new(),
        };
        self.next_id = sequence;
        self.records.push(record.clone());
        if let Some(key) = &request.idempotency_key {
            self.idempotency.push(
                IdempotencyEntry {
                    namespace: request.namespace.clone(),
                    key: key.clone(),
                    fingerprint,
                    record: record.clone(),
                },
            );
        }
        proof {
            assert(self@.records =~= grown(state, request@, now).records);
            assert(self@.replays =~= grown(state, request@, now).replays);
            store_keeps_invariant(state, request@, now);
            assert forall|i: int| 0 <= i < self.idempotency@.len() implies (
            #[trigger] self.idempotency@[i]).wf() by {
                if i < entries.len() {
                    assert(self.idempotency@[i] == entries[i]);
                    assert(entries[i].wf());
                }
            }
        }
        Ok(MemoryStoreResult { record, disposition: MemoryStoreDisposition::Created })
    }
}

impl ProviderView {
    /// Distinct records have distinct identifiers.
    pub proof fn ids_are_distinct(self)
        requires
            self.inv(),
        ensures
            forall|i: int, j: int|
                0 <= i < self.records.len() && 0 <= j < self.records.len() && i != j ==> (
                #[trigger] self.records[i]).id != (#[trigger] self.records[j]).id,
    {
        assert forall|i: int, j: int|
            0 <= i < self.records.len() && 0 <= j < self.records.len() && i != j implies (
        #[trigger] self.records[i]).id != (#[trigger] self.records[j]).id by {
            record_ids_are_distinct((i + 1) as nat, (j + 1) as nat);
        }
    }
}

/// Distinct sequence numbers give distinct identifiers.
pub proof fn record_ids_are_distinct(left: nat, right: nat)
    requires
        left != right,
    ensures
        record_id(left) != record_id(right),
{
    let prefix = "memory-"@;
    let a = zero_padded(decimal(left), 16);
    let b = zero_padded(decimal(right), 16);
    decimal_is_exact(left);
    decimal_is_exact(right);
    padding_keeps_value(decimal(left), 16);
    padding_keeps_value(decimal(right), 16);
    if record_id(left) == record_id(right) {
        assert((prefix + a).skip(prefix.len() as int) =~= a);
        assert((prefix + b).skip(prefix.len() as int) =~= b);
    }
}

/// Identifiers ascend with their sequence numbers, as long as these have at most 16 digits.
pub proof fn record_ids_ascend(left: nat, right: nat)
    requires
        left < right < pow10(16),
    ensures
        text_before(record_id(left), record_id(right)),
{
    let prefix = "memory-"@;
    let a = zero_padded(decimal(left), 16);
    let b = zero_padded(decimal(right), 16);
    decimal_is_exact(left);
    decimal_is_exact(right);
    decimal_is_digits(left, 16);
    decimal_is_digits(right, 16);
    padding_keeps_value(decimal(left), 16);
    padding_keeps_value(decimal(right), 16);
    digits_order_as_numbers(a, b);
    let at = choose|at: int| #[trigger] splits(a, b, at);
    assert(splits(a, b, at));
    assert(splits(record_id(left), record_id(right), prefix.len() + at)) by {
        let x = record_id(left);
        let y = record_id(right);
        assert forall|i: int| 0 <= i < prefix.len() + at implies x[i] == y[i] by {
            if i >= prefix.len() {
                assert(x[i] == a[i - prefix.len()] && y[i] == b[i - prefix.len()]);
            }
        }
    }
}

/// The candidates among the records are found, each with its score, best first.
pub open spec fn ordered_candidates(
    records: Seq<RecordView>,
    request: SearchRequestView,
    found: Seq<MatchView>,
) -> bool {
    &&& forall|i: int| 0 <= i < found.len() ==> {
        &&& records.contains((#[trigger] found[i]).record)
        &&& candidate(found[i].record, request)
        &&& found[i].score == (Score::Overlap {
            matched: overlap(request.query, found[i].record.content) as usize,
            total: tokens(request.query).len() as usize,
        })
    }
    &&& forall|i: int, j: int|
        0 <= i < j < found.len() ==> ranks_before(
            request.query,
            (#[trigger] found[i]).record,
            (#[trigger] found[j]).record,
        )
    &&& forall|k: int|
        0 <= k < records.len() && candidate(#[trigger] records[k], request) ==> exists|i: int|
            0 <= i < found.len() && (#[trigger] found[i]).record == records[k]
}

/// Of two records with different identifiers one ranks before the other, and the ranking is
/// transitive.
pub proof fn ranking_is_an_order(query: Seq<char>, a: RecordView, b: RecordView, c: RecordView)
    ensures
        a.id != b.id ==> ranks_before(query, a, b) || ranks_before(query, b, a),
        !(ranks_before(query, a, b) && ranks_before(query, b, a)),
        !ranks_before(query, a, a),
        ranks_before(query, a, b) && ranks_before(query, b, c) ==> ranks_before(query, a, c),
{
    text_order_is_total(a.id, b.id);
    text_order_is_total(a.id, a.id);
    if text_before(a.id, b.id) && text_before(b.id, c.id) {
        text_order_is_transitive(a.id, b.id, c.id);
    }
}

proof fn insertion_keeps_order(
    records: Seq<RecordView>,
    request: SearchRequestView,
    found: Seq<MatchView>,
    at: int,
    new: MatchView,
)
    requires
        ordered_candidates(records, request, found),
        0 <= at <= found.len(),
        candidate(new.record, request),
        new.score == (Score::Overlap {
            matched: overlap(request.query, new.record.content) as usize,
            total: tokens(request.query).len() as usize,
        }),
        forall|k: int| 0 <= k < records.len() ==> (#[trigger] records[k]).id != new.record.id,
        forall|j: int|
            0 <= j < at ==> ranks_before(request.query, (#[trigger] found[j]).record, new.record),
        at < found.len() ==> !ranks_before(request.query, found[at].record, new.record),
    ensures
        ordered_candidates(records.push(new.record), request, found.insert(at, new)),
{
    let all = records.push(new.record);
    let next = found.insert(at, new);
    let query = request.query;
    assert forall|i: int| 0 <= i < next.len() implies all.contains((#[trigger] next[i]).record)
        && candidate(next[i].record, request) && next[i].score == (Score::Overlap {
        matched: overlap(request.query, next[i].record.content) as usize,
        total: tokens(request.query).len() as usize,
    }) by {
        if i == at {
            assert(all[records.len() as int] == new.record);
        } else {
            let old_i = if i < at { i } else { i - 1 };
            assert(next[i] == found[old_i]);
            let k = choose|k: int| 0 <= k < records.len() && records[k] == found[old_i].record;
            assert(all[k] == found[old_i].record);
        }
    }
    assert forall|j: int| at <= j < found.len() implies ranks_before(
        query,
        new.record,
        (#[trigger] found[j]).record,
    ) by {
        let first = found[at].record;
        let k = choose|k: int| 0 <= k < records.len() && records[k] == first;
        assert(records[k].id != new.record.id);
        ranking_is_an_order(query, first, new.record, new.record);
        assert(ranks_before(query, new.record, first));
        if j > at {
            assert(ranks_before(query, found[at].record, found[j].record));
            ranking_is_an_order(query, new.record, first, found[j].record);
        }
    }
    assert forall|i: int, j: int| 0 <= i < j < next.len() implies ranks_before(
        query,
        (#[trigger] next[i]).record,
        (#[trigger] next[j]).record,
    ) by {
        let a = if i < at { i } else { i - 1 };
        let b = if j < at { j } else { j - 1 };
        if i == at {
            assert(next[j] == found[b]);
        } else if j == at {
            assert(next[i] == found[a]);
        } else {
            assert(next[i] == found[a] && next[j] == found[b]);
        }
    }
    assert forall|k: int|
        0 <= k < all.len() && candidate(#[trigger] all[k], request) implies exists|i: int|
        0 <= i < next.len() && (#[trigger] next[i]).record == all[k] by {
        if k == records.len() {
            assert(next[at].record == all[k]);
        } else {
            assert(all[k] == records[k]);
            let i = choose|i: int| 0 <= i < found.len() && (#[trigger] found[i]).record == records[k];
            if i < at {
                assert(next[i] == found[i]);
            } else {
                assert(next[i + 1] == found[i]);
            }
        }
    }
}

proof fn skipping_keeps_order(
    records: Seq<RecordView>,
    request: SearchRequestView,
    found: Seq<MatchView>,
    skipped: RecordView,
)
    requires
        ordered_candidates(records, request, found),
        !candidate(skipped, request),
    ensures
        ordered_candidates(records.push(skipped), request, found),
{
    let all = records.push(skipped);
    assert forall|i: int| 0 <= i < found.len() implies all.contains((#[trigger] found[i]).record) by {
        let k = choose|k: int| 0 <= k < records.len() && records[k] == found[i].record;
        assert(all[k] == found[i].record);
    }
    assert forall|k: int|
        0 <= k < all.len() && candidate(#[trigger] all[k], request) implies exists|i: int|
        0 <= i < found.len() && (#[trigger] found[i]).record == all[k] by {
        assert(all[k] == records[k]);
    }
}

/// Tells whether a match ranks before a record that holds `matched` words of the query.
fn stands_before(item: &MemoryMatch, matched: usize, record: &MemoryRecord) -> (r: bool)
    ensures
        r == (item.score matches Score::Overlap { matched: own, .. } && (own > matched || (own
            == matched && text_before(item@.record.id, record@.id)))),
{
    match item.score {
        Score::Overlap { matched: own, .. } => own > matched || (own == matched && is_text_before(
            item.record.id.as_str(),
            record.id.as_str(),
        )),
        Score::Double { .. } => false,
    }
}

/// Storing keeps the contents of a provider consistent: identifiers stay those of their places,
/// and a caller key stays unique in its namespace.
pub proof fn store_keeps_invariant(state: ProviderView, request: StoreRequestView, now: Timestamp)
    requires
        state.inv(),
        creates(store_outcome(state, request, now)),
    ensures
        grown(state, request, now).inv(),
{
    let next = grown(state, request, now);
    let record = new_record(state.next_id + 1, request, now);
    assert forall|i: int| 0 <= i < next.replays.len() implies next.records.contains(
        (#[trigger] next.replays[i]).record,
    ) && next.replays[i].record.namespace == next.replays[i].namespace by {
        if i < state.replays.len() {
            assert(next.replays[i] == state.replays[i]);
            let k = choose|k: int|
                0 <= k < state.records.len() && state.records[k] == state.replays[i].record;
            assert(next.records[k] == state.replays[i].record);
        } else {
            assert(next.records[state.records.len() as int] == record);
        }
    }
    if request.idempotency_key is Some {
        replay_absent(state.replays, request.namespace, request.idempotency_key->0);
    }
}

/// No caller key is found only where none was used.
proof fn replay_absent(replays: Seq<ReplayView>, namespace: NamespaceView, key: Seq<char>)
    requires
        replay_of(replays, namespace, key) is None,
    ensures
        forall|i: int|
            0 <= i < replays.len() ==> (#[trigger] replays[i]).namespace != namespace
                || replays[i].key != key,
    decreases replays.len(),
{
    if replays.len() > 0 {
        replay_absent(replays.drop_last(), namespace, key);
        assert forall|i: int| 0 <= i < replays.len() implies (#[trigger] replays[i]).namespace
            != namespace || replays[i].key != key by {
            if i < replays.len() - 1 {
                assert(replays.drop_last()[i] == replays[i]);
            }
        }
    }
}

/// A text has at most as many words as characters.
pub proof fn words_are_few(s: Seq<char>, upto: nat)
    requires
        upto <= s.len(),
    ensures
        tokens_upto(s, upto as int).finite(),
        tokens_upto(s, upto as int).len() <= upto,
    decreases upto,
{
    if upto == 0 {
        assert(tokens_upto(s, 0) =~= Set::empty());
    } else {
        let n = upto as int;
        let before = tokens_upto(s, n - 1);
        words_are_few(s, (upto - 1) as nat);
        if exists|start: int| word_at(s, start, n) {
            let start = choose|start: int| word_at(s, start, n);
            let token = lower_case(s.subrange(start, n));
            assert forall|t: Seq<char>| tokens_upto(s, n).contains(t) implies before.insert(
                token,
            ).contains(t) by {
                let (a, b) = choose|a: int, b: int| #[trigger]
                    word_at(s, a, b) && b <= n && t == lower_case(s.subrange(a, b));
                if b == n {
                    if a < start {
                        assert(alphanumeric(s[start - 1]));
                    } else if start < a {
                        assert(alphanumeric(s[a - 1]));
                    }
                } else {
                    assert(before.contains(t));
                }
            }
            assert(tokens_upto(s, n) =~= before.insert(token));
        } else {
            assert forall|t: Seq<char>| tokens_upto(s, n).contains(t) implies before.contains(t) by {
                let (a, b) = choose|a: int, b: int| #[trigger]
                    word_at(s, a, b) && b <= n && t == lower_case(s.subrange(a, b));
                assert(b != n);
            }
            assert(tokens_upto(s, n) =~= before);
        }
    }
}

/// A text has no words exactly where it has no alphanumeric character.
pub proof fn words_come_from_alphanumerics(s: Seq<char>)
    ensures
        tokens(s) == Set::<Seq<char>>::empty() <==> forall|i: int|
            0 <= i < s.len() ==> !alphanumeric(#[trigger] s[i]),
{
    if forall|i: int| 0 <= i < s.len() ==> !alphanumeric(#[trigger] s[i]) {
        assert forall|start: int, end: int| !#[trigger] word_at(s, start, end) by {
            if word_at(s, start, end) {
                assert(alphanumeric(s[start]));
            }
        }
        assert(tokens(s) =~= Set::empty());
    } else {
        let i = choose|i: int| 0 <= i < s.len() && alphanumeric(#[trigger] s[i]);
        let start = run_start(s, i);
        let end = run_end(s, i);
        run_bounds(s, i);
        assert(word_at(s, start, end));
        assert(tokens(s).contains(lower_case(s.subrange(start, end))));
    }
}

/// Where the run of alphanumeric characters up to a place starts.
spec fn run_start(s: Seq<char>, i: int) -> int
    decreases i,
{
    if 0 < i <= s.len() && alphanumeric(s[i - 1]) {
        run_start(s, i - 1)
    } else {
        i
    }
}

/// Where the run of alphanumeric characters from a place ends.
spec fn run_end(s: Seq<char>, i: int) -> int
    decreases s.len() - i,
{
    if 0 <= i < s.len() && alphanumeric(s[i]) {
        run_end(s, i + 1)
    } else {
        i
    }
}

proof fn run_bounds(s: Seq<char>, i: int)
    requires
        0 <= i <= s.len(),
    ensures
        0 <= run_start(s, i) <= i <= run_end(s, i) <= s.len(),
        forall|k: int| run_start(s, i) <= k < run_end(s, i) ==> alphanumeric(#[trigger] s[k]),
        run_start(s, i) == 0 || !alphanumeric(s[run_start(s, i) - 1]),
        run_end(s, i) == s.len() || !alphanumeric(s[run_end(s, i)]),
        i < s.len() && alphanumeric(s[i]) ==> i < run_end(s, i),
{
    run_start_bounds(s, i);
    run_end_bounds(s, i);
}

proof fn run_start_bounds(s: Seq<char>, i: int)
    requires
        0 <= i <= s.len(),
    ensures
        0 <= run_start(s, i) <= i,
        forall|k: int| run_start(s, i) <= k < i ==> alphanumeric(#[trigger] s[k]),
        run_start(s, i) == 0 || !alphanumeric(s[run_start(s, i) - 1]),
    decreases i,
{
    if 0 < i && alphanumeric(s[i - 1]) {
        run_start_bounds(s, i - 1);
    }
}

proof fn run_end_bounds(s: Seq<char>, i: int)
    requires
        0 <= i <= s.len(),
    ensures
        i <= run_end(s, i) <= s.len(),
        forall|k: int| i <= k < run_end(s, i) ==> alphanumeric(#[trigger] s[k]),
        run_end(s, i) == s.len() || !alphanumeric(s[run_end(s, i)]),
        i < s.len() && alphanumeric(s[i]) ==> i < run_end(s, i),
    decreases s.len() - i,
{
    if i < s.len() && alphanumeric(s[i]) {
        run_end_bounds(s, i + 1);
    }
}

/// The words of two texts with a separator between them, such as a space, are those of either.
pub proof fn words_of_joined_texts(left: Seq<char>, separator: char, right: Seq<char>)
    requires
        !alphanumeric(separator),
    ensures
        tokens(left.push(separator) + right) == tokens(left).union(tokens(right)),
{
    let s = left.push(separator) + right;
    let n = left.len() as int;
    assert forall|k: int| 0 <= k < n implies #[trigger] s[k] == left[k] by {}
    assert(s[n] == separator);
    assert forall|k: int| 0 <= k < right.len() implies s[k + n + 1] == #[trigger] right[k] by {}
    assert forall|t: Seq<char>| tokens(s).contains(t) implies tokens(left).union(tokens(right)).contains(
        t,
    ) by {
        let (a, b) = choose|a: int, b: int| #[trigger]
            word_at(s, a, b) && b <= s.len() && t == lower_case(s.subrange(a, b));
        if a <= n && n < b {
            assert(alphanumeric(s[n]));
        }
        if b <= n {
            assert forall|k: int| a <= k < b implies alphanumeric(#[trigger] left[k]) by {
                assert(s[k] == left[k]);
            }
            assert(word_at(left, a, b));
            assert(s.subrange(a, b) =~= left.subrange(a, b));
            assert(tokens(left).contains(t));
        } else {
            let x = a - n - 1;
            let y = b - n - 1;
            assert forall|k: int| x <= k < y implies alphanumeric(#[trigger] right[k]) by {
                assert(s[k + n + 1] == right[k]);
            }
            assert(word_at(right, x, y)) by {
                if x > 0 {
                    assert(s[x - 1 + n + 1] == right[x - 1]);
                }
                if y < right.len() {
                    assert(s[y + n + 1] == right[y]);
                }
            }
            assert(s.subrange(a, b) =~= right.subrange(x, y));
            assert(tokens(right).contains(t));
        }
    }
    assert forall|t: Seq<char>| tokens(left).union(tokens(right)).contains(t) implies tokens(s).contains(
        t,
    ) by {
        if tokens(left).contains(t) {
            let (a, b) = choose|a: int, b: int| #[trigger]
                word_at(left, a, b) && b <= left.len() && t == lower_case(left.subrange(a, b));
            assert forall|k: int| a <= k < b implies alphanumeric(#[trigger] s[k]) by {
                assert(s[k] == left[k]);
            }
            assert(word_at(s, a, b));
            assert(s.subrange(a, b) =~= left.subrange(a, b));
        } else {
            let (x, y) = choose|x: int, y: int| #[trigger]
                word_at(right, x, y) && y <= right.len() && t == lower_case(right.subrange(x, y));
            let a = x + n + 1;
            let b = y + n + 1;
            assert forall|k: int| a <= k < b implies alphanumeric(#[trigger] s[k]) by {
                assert(s[(k - n - 1) + n + 1] == right[k - n - 1]);
            }
            assert(word_at(s, a, b)) by {
                if x > 0 {
                    assert(s[x - 1 + n + 1] == right[x - 1]);
                }
                if y < right.len() {
                    assert(s[y + n + 1] == right[y]);
                }
            }
            assert(s.subrange(a, b) =~= right.subrange(x, y));
        }
    }
    assert(tokens(s) =~= tokens(left).union(tokens(right)));
}

/// Case does not matter: an ASCII text has the same words as its lower-case form, and none of
/// them holds a capital.
pub proof fn words_ignore_case(s: Seq<char>)
    requires
        all_ascii(s),
    ensures
        tokens(lower_case(s)) == tokens(s),
        forall|token: Seq<char>, i: int| #[trigger]
            tokens(s).contains(token) && 0 <= i < token.len() ==> !('A' <= #[trigger] token[i]
                <= 'Z'),
{
    let low = lower_case(s);
    assert(low.len() == s.len());
    assert(forall|k: int| 0 <= k < s.len() ==> #[trigger] low[k] == ascii_lower(s[k]));
    assert forall|a: int, b: int| #[trigger] word_at(s, a, b) implies word_at(low, a, b) && lower_case(
        low.subrange(a, b),
    ) == lower_case(s.subrange(a, b)) by {
        assert forall|k: int| a <= k < b implies alphanumeric(#[trigger] low[k]) by {
            assert(alphanumeric(s[k]));
        }
        lower_case_of_part(s, a, b);
    }
    assert forall|a: int, b: int| #[trigger] word_at(low, a, b) implies word_at(s, a, b) && lower_case(
        low.subrange(a, b),
    ) == lower_case(s.subrange(a, b)) by {
        assert forall|k: int| a <= k < b implies alphanumeric(#[trigger] s[k]) by {
            assert(alphanumeric(low[k]));
        }
        lower_case_of_part(s, a, b);
    }
    assert forall|t: Seq<char>| tokens(s).contains(t) implies tokens(low).contains(t) by {
        let (a, b) = choose|a: int, b: int| #[trigger]
            word_at(s, a, b) && b <= s.len() && t == lower_case(s.subrange(a, b));
        assert(word_at(low, a, b));
    }
    assert forall|t: Seq<char>| tokens(low).contains(t) implies tokens(s).contains(t) by {
        let (a, b) = choose|a: int, b: int| #[trigger]
            word_at(low, a, b) && b <= low.len() && t == lower_case(low.subrange(a, b));
        assert(word_at(s, a, b));
    }
    assert(tokens(low) =~= tokens(s));
    assert forall|token: Seq<char>, i: int| #[trigger]
        tokens(s).contains(token) && 0 <= i < token.len() implies !('A' <= #[trigger] token[i]
        <= 'Z') by {
        let (a, b) = choose|a: int, b: int| #[trigger]
            word_at(s, a, b) && b <= s.len() && token == lower_case(s.subrange(a, b));
        let part = s.subrange(a, b);
        assert(all_ascii(part)) by {
            assert forall|k: int| 0 <= k < part.len() implies #[trigger] part[k] <= '\u{7f}' by {
                assert(part[k] == s[a + k]);
            }
        }
        assert(token[i] == ascii_lower(part[i]));
    }
}

proof fn lower_case_of_part(s: Seq<char>, a: int, b: int)
    requires
        all_ascii(s),
        0 <= a <= b <= s.len(),
    ensures
        lower_case(lower_case(s).subrange(a, b)) == lower_case(s.subrange(a, b)),
{
    let low = lower_case(s);
    let part = s.subrange(a, b);
    let low_part = low.subrange(a, b);
    assert(all_ascii(part)) by {
        assert forall|k: int| 0 <= k < part.len() implies #[trigger] part[k] <= '\u{7f}' by {
            assert(part[k] == s[a + k]);
        }
    }
    assert forall|k: int| 0 <= k < low_part.len() implies #[trigger] low_part[k] == ascii_lower(
        part[k],
    ) by {
        assert(low_part[k] == low[a + k]);
        assert(low[a + k] == ascii_lower(s[a + k]));
    }
    assert(all_ascii(low_part));
    assert(lower_case(low_part) =~= lower_case(part));
}

/// A content holds at most the unique words of a query, of which there are at most as many as the
/// query has characters.
pub proof fn overlap_is_bounded(query: Seq<char>, content: ContentView)
    ensures
        overlap(query, content) <= tokens(query).len() <= query.len(),
{
    words_are_few(query, query.len());
    lemma_len_intersect(tokens(query), tokens(searchable_text(content)));
}

/// A search sees one tenant and one subject only, whatever its scope.
pub proof fn search_stays_in_its_partition(
    records: Seq<RecordView>,
    request: SearchRequestView,
    matches: Seq<MatchView>,
)
    requires
        best_matches(records, request, matches),
    ensures
        forall|i: int|
            0 <= i < matches.len() ==> (#[trigger] matches[i]).record.namespace.tenant_id
                == request.namespace.tenant_id && matches[i].record.namespace.subject_id
                == request.namespace.subject_id,
{
}

/// Every scope selects a part of what the subject scope selects.
pub proof fn scopes_narrow_the_subject(
    record: NamespaceView,
    query: NamespaceView,
    scope: MemorySearchScope,
)
    requires
        namespace_selected(record, query, scope),
    ensures
        namespace_selected(record, query, MemorySearchScope::Subject),
{
}

/// Whether records are the best matches does not depend on one more record that is no candidate.
pub proof fn other_records_do_not_matter(
    records: Seq<RecordView>,
    other: RecordView,
    request: SearchRequestView,
    matches: Seq<MatchView>,
)
    requires
        !candidate(other, request),
    ensures
        best_matches(records.push(other), request, matches) == best_matches(
            records,
            request,
            matches,
        ),
{
    let all = records.push(other);
    let eligible = |record: RecordView| candidate(record, request);
    assert(all.drop_last() =~= records);
    assert(all.filter(eligible) == records.filter(eligible)) by {
        reveal(Seq::filter);
    }
    if best_matches(records, request, matches) {
        assert forall|i: int| 0 <= i < matches.len() implies all.contains(
            (#[trigger] matches[i]).record,
        ) by {
            let k = choose|k: int| 0 <= k < records.len() && records[k] == matches[i].record;
            assert(all[k] == matches[i].record);
        }
        assert forall|k: int, j: int|
            0 <= k < all.len() && candidate(#[trigger] all[k], request) && 0 <= j
                < matches.len() implies ranks_before(
            request.query,
            (#[trigger] matches[j]).record,
            all[k],
        ) || exists|i: int| 0 <= i < matches.len() && (#[trigger] matches[i]).record == all[k] by {
            assert(all[k] == records[k]);
        }
    }
    if best_matches(all, request, matches) {
        assert forall|i: int| 0 <= i < matches.len() implies records.contains(
            (#[trigger] matches[i]).record,
        ) by {
            let k = choose|k: int| 0 <= k < all.len() && all[k] == matches[i].record;
            assert(records[k] == matches[i].record);
        }
        assert forall|k: int, j: int|
            0 <= k < records.len() && candidate(#[trigger] records[k], request) && 0 <= j
                < matches.len() implies ranks_before(
            request.query,
            (#[trigger] matches[j]).record,
            records[k],
        ) || exists|i: int| 0 <= i < matches.len() && (#[trigger] matches[i]).record == records[k] by {
            assert(all[k] == records[k]);
        }
    }
}

/// What others store does not matter: a store under another tenant or subject leaves the result of
/// every search.
pub proof fn stores_do_not_interfere(
    state: ProviderView,
    stored: StoreRequestView,
    now: Timestamp,
    request: SearchRequestView,
    before: Seq<MatchView>,
    after: Seq<MatchView>,
)
    requires
        state.inv(),
        stored.namespace.tenant_id != request.namespace.tenant_id || stored.namespace.subject_id
            != request.namespace.subject_id,
        best_matches(state.records, request, before),
        best_matches(grown(state, stored, now).records, request, after),
    ensures
        after == before,
{
    let record = new_record(state.next_id + 1, stored, now);
    assert(!candidate(record, request));
    other_records_do_not_matter(state.records, record, request, after);
    search_is_deterministic(state, request, before, after);
}

/// The records of matches.
pub open spec fn matched_records(matches: Seq<MatchView>) -> Seq<RecordView> {
    matches.map_values(|item: MatchView| item.record)
}

/// Where the limit leaves room for every candidate, a search finds each of them.
pub proof fn every_candidate_is_found(
    state: ProviderView,
    request: SearchRequestView,
    matches: Seq<MatchView>,
)
    requires
        state.inv(),
        best_matches(state.records, request, matches),
        candidate_count(state.records, request) <= request.limit,
    ensures
        ordered_candidates(state.records, request, matches),
{
    let records = state.records;
    let eligible = |item: RecordView| candidate(item, request);
    let chosen = records.filter(eligible);
    let listed = matched_records(matches);
    assert forall|i: int, j: int| 0 <= i < j < listed.len() implies listed[i] != listed[j] by {
        ranking_is_an_order(
            request.query,
            matches[i].record,
            matches[j].record,
            matches[i].record,
        );
        assert(ranks_before(request.query, matches[i].record, matches[j].record));
    }
    assert(listed.no_duplicates());
    assert forall|k: int| 0 <= k < records.len() && candidate(#[trigger] records[k], request) implies exists|
        i: int,
    | 0 <= i < matches.len() && (#[trigger] matches[i]).record == records[k] by {
        broadcast use vstd::seq_lib::group_filter_ensures;

        let missing = records[k];
        if !exists|i: int| 0 <= i < matches.len() && (#[trigger] matches[i]).record == missing {
            let seen = listed.push(missing);
            assert forall|i: int, j: int| 0 <= i < j < seen.len() implies seen[i] != seen[j] by {
                if j == listed.len() {
                    assert(seen[i] == matches[i].record);
                } else {
                    assert(seen[i] == listed[i] && seen[j] == listed[j]);
                }
            }
            assert forall|item: RecordView| seen.to_set().contains(item) implies chosen.to_set().contains(
                item,
            ) by {
                let i = choose|i: int| 0 <= i < seen.len() && seen[i] == item;
                if i < listed.len() {
                    assert(matches[i].record == item);
                    let n = choose|n: int| 0 <= n < records.len() && records[n] == item;
                    assert(eligible(records[n]));
                    assert(chosen.contains(records[n]));
                } else {
                    assert(eligible(records[k]));
                    assert(chosen.contains(records[k]));
                }
            }
            seen.unique_seq_to_set();
            chosen.lemma_cardinality_of_set();
            assert(seen.to_set().subset_of(chosen.to_set()));
            lemma_len_subset(seen.to_set(), chosen.to_set());
            assert(false);
        }
    }
}

/// How many of the first matches rank before a record.
spec fn rank_place(query: Seq<char>, found: Seq<MatchView>, record: RecordView) -> nat
    decreases found.len(),
{
    if found.len() > 0 && ranks_before(query, found[0].record, record) {
        1 + rank_place(query, found.drop_first(), record)
    } else {
        0
    }
}

proof fn rank_place_bounds(query: Seq<char>, found: Seq<MatchView>, record: RecordView)
    ensures
        ({
            let at = rank_place(query, found, record);
            &&& at <= found.len()
            &&& forall|j: int| 0 <= j < at ==> ranks_before(query, (#[trigger] found[j]).record, record)
            &&& at < found.len() ==> !ranks_before(query, found[at as int].record, record)
        }),
    decreases found.len(),
{
    if found.len() > 0 && ranks_before(query, found[0].record, record) {
        let rest = found.drop_first();
        rank_place_bounds(query, rest, record);
        let at = rank_place(query, found, record);
        assert forall|j: int| 0 <= j < at implies ranks_before(
            query,
            (#[trigger] found[j]).record,
            record,
        ) by {
            if j > 0 {
                assert(rest[j - 1] == found[j]);
            }
        }
        if at < found.len() {
            assert(rest[at - 1] == found[at as int]);
        }
    }
}

/// A search after a store finds what it found before, with the new record in its place, where the
/// limit leaves room for every candidate.
pub proof fn search_grows_by_the_stored_record(
    state: ProviderView,
    stored: StoreRequestView,
    now: Timestamp,
    request: SearchRequestView,
    before: Seq<MatchView>,
    after: Seq<MatchView>,
)
    requires
        state.inv(),
        creates(store_outcome(state, stored, now)),
        candidate(new_record(state.next_id + 1, stored, now), request),
        candidate_count(grown(state, stored, now).records, request) <= request.limit,
        best_matches(state.records, request, before),
        best_matches(grown(state, stored, now).records, request, after),
    ensures
        exists|at: int|
            0 <= at <= before.len() && matched_records(after) == #[trigger] matched_records(
                before,
            ).insert(at, new_record(state.next_id + 1, stored, now)),
{
    let next = grown(state, stored, now);
    let record = new_record(state.next_id + 1, stored, now);
    let query = request.query;
    let eligible = |item: RecordView| candidate(item, request);
    store_keeps_invariant(state, stored, now);
    next.ids_are_distinct();
    assert(next.records.drop_last() =~= state.records);
    assert(next.records.filter(eligible) == state.records.filter(eligible).push(record)) by {
        reveal(Seq::filter);
    }
    every_candidate_is_found(state, request, before);
    rank_place_bounds(query, before, record);
    let at = rank_place(query, before, record) as int;
    let new = MatchView {
        record,
        score: Score::Overlap {
            matched: overlap(query, record.content) as usize,
            total: tokens(query).len() as usize,
        },
        rank: 0,
    };
    assert forall|k: int| 0 <= k < state.records.len() implies (#[trigger] state.records[k]).id
        != record.id by {
        assert(next.records[k] == state.records[k]);
        assert(next.records[state.records.len() as int] == record);
    }
    insertion_keeps_order(state.records, request, before, at, new);
    let found = before.insert(at, new);
    let ranked = Seq::new(
        found.len(),
        |i: int| MatchView { rank: (i + 1) as nat, ..found[i] },
    );
    assert(state.records.push(record) =~= next.records);
    assert(best_matches(next.records, request, ranked)) by {
        assert forall|i: int| 0 <= i < ranked.len() implies (#[trigger] ranked[i]).record
            == found[i].record by {}
        assert forall|k: int, j: int|
            0 <= k < next.records.len() && candidate(#[trigger] next.records[k], request) && 0 <= j
                < ranked.len() implies ranks_before(
            query,
            (#[trigger] ranked[j]).record,
            next.records[k],
        ) || exists|i: int|
            0 <= i < ranked.len() && (#[trigger] ranked[i]).record == next.records[k] by {
            let i = choose|i: int|
                0 <= i < found.len() && (#[trigger] found[i]).record == next.records[k];
            assert(ranked[i].record == next.records[k]);
        }
    }
    search_is_deterministic(next, request, after, ranked);
    assert(matched_records(after) =~= matched_records(before).insert(at, record));
}

/// Whether matches are the best does not depend on who asks and until when.
pub proof fn context_does_not_matter(
    records: Seq<RecordView>,
    left: SearchRequestView,
    right: SearchRequestView,
    matches: Seq<MatchView>,
)
    requires
        right == (SearchRequestView { context: right.context, ..left }),
    ensures
        best_matches(records, left, matches) == best_matches(records, right, matches),
        candidate_count(records, left) == candidate_count(records, right),
{
    let a = |record: RecordView| candidate(record, left);
    let b = |record: RecordView| candidate(record, right);
    assert forall|record: RecordView| #[trigger] candidate(record, left) == candidate(
        record,
        right,
    ) by {}
    assert(a =~= b);
}

/// A search has one answer: two lists of best matches of the same request over the same contents
/// are the same.
pub proof fn search_is_deterministic(
    state: ProviderView,
    request: SearchRequestView,
    left: Seq<MatchView>,
    right: Seq<MatchView>,
)
    requires
        state.inv(),
        best_matches(state.records, request, left),
        best_matches(state.records, request, right),
    ensures
        left == right,
{
    state.ids_are_distinct();
    assert forall|i: int| 0 <= i < left.len() implies left[i] == right[i] by {
        same_place(state, request, left, right, i);
    }
    assert(left =~= right);
}

/// Two lists of best matches hold the same record at a place.
proof fn same_place(
    state: ProviderView,
    request: SearchRequestView,
    left: Seq<MatchView>,
    right: Seq<MatchView>,
    i: int,
)
    requires
        state.inv(),
        best_matches(state.records, request, left),
        best_matches(state.records, request, right),
        0 <= i < left.len(),
    ensures
        left[i] == right[i],
    decreases i,
{
    let query = request.query;
    assert forall|m: int| 0 <= m < i implies left[m] == right[m] by {
        same_place(state, request, left, right, m);
    }
    let x = left[i].record;
    let y = right[i].record;
    if x != y {
        let k = choose|k: int| 0 <= k < state.records.len() && state.records[k] == x;
        let n = choose|n: int| 0 <= n < state.records.len() && state.records[n] == y;
        assert(candidate(state.records[k], request) && candidate(state.records[n], request));
        ranking_is_an_order(query, x, y, x);
        ranking_is_an_order(query, y, x, y);
        assert(ranks_before(query, y, x)) by {
            if !ranks_before(query, right[i].record, state.records[k]) {
                let m = choose|m: int| 0 <= m < right.len() && (#[trigger] right[m]).record == x;
                if m < i {
                    assert(left[m].record == x);
                    assert(ranks_before(query, left[m].record, left[i].record));
                }
            }
        }
        assert(ranks_before(query, x, y)) by {
            if !ranks_before(query, left[i].record, state.records[n]) {
                let m = choose|m: int| 0 <= m < left.len() && (#[trigger] left[m]).record == y;
                if m < i {
                    assert(right[m].record == y);
                    assert(ranks_before(query, right[m].record, right[i].record));
                }
            }
        }
    }
}

/// What was stored is recalled: a search whose namespace, filter and words fit a newly stored
/// record returns it, where the limit leaves room for every candidate.
pub proof fn stored_record_is_recalled(
    state: ProviderView,
    stored: StoreRequestView,
    now: Timestamp,
    request: SearchRequestView,
    matches: Seq<MatchView>,
)
    requires
        state.inv(),
        creates(store_outcome(state, stored, now)),
        candidate(new_record(state.next_id + 1, stored, now), request),
        candidate_count(grown(state, stored, now).records, request) <= request.limit,
        best_matches(grown(state, stored, now).records, request, matches),
    ensures
        exists|i: int|
            0 <= i < matches.len() && (#[trigger] matches[i]).record == new_record(
                state.next_id + 1,
                stored,
                now,
            ),
{
    let next = grown(state, stored, now);
    let record = new_record(state.next_id + 1, stored, now);
    store_keeps_invariant(state, stored, now);
    assert(next.records[state.records.len() as int] == record);
    every_candidate_is_found(next, request, matches);
}

/// A candidate is returned, or as many candidates as the limit allows rank before it.
pub proof fn candidate_is_returned_or_outranked(
    records: Seq<RecordView>,
    request: SearchRequestView,
    matches: Seq<MatchView>,
    k: int,
)
    requires
        best_matches(records, request, matches),
        0 <= k < records.len(),
        candidate(records[k], request),
    ensures
        (exists|i: int| 0 <= i < matches.len() && (#[trigger] matches[i]).record == records[k]) || (
        forall|j: int|
            0 <= j < matches.len() ==> ranks_before(
                request.query,
                (#[trigger] matches[j]).record,
                records[k],
            )),
        matches.len() == request.limit || matches.len() == candidate_count(records, request),
{
}

/// The failure of a request whose caller key stands for another payload.
pub open spec fn key_conflict(request: StoreRequestView) -> ErrorView {
    ErrorView {
        code: MemoryErrorCode::Conflict,
        message: "idempotency key was already used with a different memory payload"@,
        retryable: false,
        operation_id: Some(request.context.operation_id),
        provider: Some(IN_MEMORY_PROVIDER@),
        details: no_members(),
    }
}

/// A caller key that stands for a record is known in every state: a valid request under it is
/// answered with that record where it has the same payload, and else with a conflict. Neither
/// creates a record.
pub proof fn used_key_is_known(
    state: ProviderView,
    request: StoreRequestView,
    record: RecordView,
    now: Timestamp,
)
    requires
        store_fault(request) is None,
        replayed(state, request) == Some(record),
    ensures
        store_outcome(state, request, now) == if same_payload(record, request) {
            Ok::<StoreResultView, ErrorView>(
                StoreResultView { record, disposition: MemoryStoreDisposition::Existing },
            )
        } else {
            Err(key_conflict(request))
        },
        !creates(store_outcome(state, request, now)),
{
}

/// A caller key, once used, stands for the record that it made: the same payload is answered with
/// that record, and any other payload with a conflict. Neither creates a record.
pub proof fn caller_key_is_idempotent(
    state: ProviderView,
    first: StoreRequestView,
    first_now: Timestamp,
    second: StoreRequestView,
    second_now: Timestamp,
)
    requires
        state.inv(),
        creates(store_outcome(state, first, first_now)),
        first.idempotency_key is Some,
        store_fault(second) is None,
        second.namespace == first.namespace,
        second.idempotency_key == first.idempotency_key,
    ensures
        ({
            let record = new_record(state.next_id + 1, first, first_now);
            let answer = store_outcome(grown(state, first, first_now), second, second_now);
            if request_payload(second) == request_payload(first) {
                answer == Ok::<StoreResultView, ErrorView>(
                    StoreResultView { record, disposition: MemoryStoreDisposition::Existing },
                )
            } else {
                answer == Err::<StoreResultView, ErrorView>(key_conflict(second))
            }
        }),
{
    let next = grown(state, first, first_now);
    assert(next.replays.last().key == first.idempotency_key->0);
    if request_payload(second) == request_payload(first) {
        payload_model_is_injective(
            first.content,
            first.event_timestamp,
            first.provenance,
            first.metadata,
            second.content,
            second.event_timestamp,
            second.provenance,
            second.metadata,
        );
    }
}

/// A caller key keeps standing for its record whatever is stored afterwards.
pub proof fn caller_key_persists(
    state: ProviderView,
    namespace: NamespaceView,
    key: Seq<char>,
    later: StoreRequestView,
    now: Timestamp,
)
    requires
        state.inv(),
        creates(store_outcome(state, later, now)),
        replay_of(state.replays, namespace, key) is Some,
    ensures
        replay_of(grown(state, later, now).replays, namespace, key) == replay_of(
            state.replays,
            namespace,
            key,
        ),
{
    let next = grown(state, later, now);
    if later.idempotency_key is Some {
        assert(next.replays.drop_last() =~= state.replays);
    }
}

/// A caller key means something in its own namespace only: a request in a namespace without that
/// key creates a record.
pub proof fn caller_keys_are_scoped(
    state: ProviderView,
    first: StoreRequestView,
    first_now: Timestamp,
    second: StoreRequestView,
    second_now: Timestamp,
)
    requires
        state.inv(),
        creates(store_outcome(state, first, first_now)),
        creates(store_outcome(state, second, second_now)),
        second.namespace != first.namespace,
        state.next_id + 1 < u64::MAX,
    ensures
        creates(store_outcome(grown(state, first, first_now), second, second_now)),
{
    let next = grown(state, first, first_now);
    if first.idempotency_key is Some {
        assert(next.replays.drop_last() =~= state.replays);
    }
}

/// Stored records never change or leave.
pub proof fn stored_records_stay(
    state: ProviderView,
    request: StoreRequestView,
    now: Timestamp,
    i: int,
)
    requires
        0 <= i < state.records.len(),
    ensures
        grown(state, request, now).records[i] == state.records[i],
{
}

/// What a scope selects: every scope a record of the same tenant and subject only. The agent scope
/// asks for the same agent whatever the session, the session scope for the same session whatever
/// the agent, and the exact scope for both, as far as the request names them.
pub proof fn scopes_select_by_identifiers(record: NamespaceView, query: NamespaceView)
    ensures
        ({
            let subject = record.tenant_id == query.tenant_id && record.subject_id
                == query.subject_id;
            let agent = record.agent_id == query.agent_id;
            let session = record.session_id == query.session_id;
            &&& namespace_selected(record, query, MemorySearchScope::Subject) == subject
            &&& namespace_selected(record, query, MemorySearchScope::Agent) == (subject && agent)
            &&& namespace_selected(record, query, MemorySearchScope::Session) == (subject && session)
            &&& namespace_selected(record, query, MemorySearchScope::Exact) == (subject && (
            query.session_id is None || session) && (query.agent_id is None || agent))
        }),
{
}

/// Every match of a search has the identifiers that its scope asks for.
pub proof fn matches_lie_in_the_scope(
    records: Seq<RecordView>,
    request: SearchRequestView,
    matches: Seq<MatchView>,
    i: int,
)
    requires
        best_matches(records, request, matches),
        0 <= i < matches.len(),
    ensures
        ({
            let found = matches[i].record.namespace;
            &&& found.tenant_id == request.namespace.tenant_id
            &&& found.subject_id == request.namespace.subject_id
            &&& request.scope is Session ==> found.session_id == request.namespace.session_id
            &&& request.scope is Agent ==> found.agent_id == request.namespace.agent_id
            &&& request.scope is Exact && request.namespace.session_id is Some ==> found.session_id
                == request.namespace.session_id
            &&& request.scope is Exact && request.namespace.agent_id is Some ==> found.agent_id
                == request.namespace.agent_id
        }),
{
    assert(candidate(matches[i].record, request));
    scopes_select_by_identifiers(matches[i].record.namespace, request.namespace);
}

/// What a filter lets through: a record that has each asked member with an equal value, and whose
/// event and ingestion are neither earlier than the first nor later than the last accepted
/// instant, bounds included.
pub proof fn filters_select_by_bounds(record: RecordView, filter: FilterView)
    ensures
        filter_selected(record, filter) <==> {
            &&& forall|key: Seq<char>| #[trigger]
                filter.metadata.dom().contains(key) ==> record.metadata.dom().contains(key)
                    && json_equal(filter.metadata[key], record.metadata[key])
            &&& filter.event_after matches Some(after) ==> !earlier(record.event_timestamp, after)
            &&& filter.event_before matches Some(before) ==> !earlier(
                before,
                record.event_timestamp,
            )
            &&& filter.ingested_after matches Some(after) ==> !earlier(record.ingested_at, after)
            &&& filter.ingested_before matches Some(before) ==> !earlier(before, record.ingested_at)
        },
{
}

/// A record is a candidate exactly where it lies in the scope, passes the filter and has a word of
/// the query.
pub proof fn candidates_share_a_word(record: RecordView, request: SearchRequestView)
    ensures
        candidate(record, request) <==> {
            &&& namespace_selected(record.namespace, request.namespace, request.scope)
            &&& filter_selected(record, request.filter)
            &&& exists|word: Seq<char>| #[trigger]
                tokens(request.query).contains(word) && tokens(
                    searchable_text(record.content),
                ).contains(word)
        },
{
    let wanted = tokens(request.query);
    let held = tokens(searchable_text(record.content));
    let common = wanted.intersect(held);
    words_are_few(request.query, request.query.len());
    assert(common.finite());
    if common.len() > 0 {
        let word = common.choose();
        assert(common.contains(word));
        assert(wanted.contains(word) && held.contains(word));
    }
    if exists|word: Seq<char>| #[trigger] wanted.contains(word) && held.contains(word) {
        let word = choose|word: Seq<char>| #[trigger] wanted.contains(word) && held.contains(word);
        assert(common.contains(word));
        if common.len() == 0 {
            assert(common =~= Set::empty());
        }
    }
}

/// A record with more words of the query ranks before one with fewer, and of two with as many the
/// one with the earlier identifier.
pub proof fn more_words_rank_first(query: Seq<char>, left: RecordView, right: RecordView)
    ensures
        ({
            let wanted = tokens(query);
            let a = wanted.intersect(tokens(searchable_text(left.content))).len();
            let b = wanted.intersect(tokens(searchable_text(right.content))).len();
            &&& a > b ==> ranks_before(query, left, right) && !ranks_before(query, right, left)
            &&& a == b ==> ranks_before(query, left, right) == text_before(left.id, right.id)
        }),
{
}

/// The matches of a search: as many as there are candidates, up to the limit, numbered from one,
/// each with the share of the query's words that its record holds, better ones first, and none
/// left out that ranks before one of them.
pub proof fn matches_are_the_best(
    records: Seq<RecordView>,
    request: SearchRequestView,
    matches: Seq<MatchView>,
    i: int,
    k: int,
)
    requires
        best_matches(records, request, matches),
        0 <= i < matches.len(),
        0 <= k < records.len(),
    ensures
        matches.len() <= request.limit,
        matches.len() == request.limit || matches.len() == records.filter(
            |record: RecordView| candidate(record, request),
        ).len(),
        matches[i].rank == i + 1,
        records.contains(matches[i].record),
        candidate(matches[i].record, request),
        matches[i].score == (Score::Overlap {
            matched: tokens(request.query).intersect(
                tokens(searchable_text(matches[i].record.content)),
            ).len() as usize,
            total: tokens(request.query).len() as usize,
        }),
        i > 0 ==> ranks_before(request.query, matches[i - 1].record, matches[i].record),
        candidate(records[k], request) && ranks_before(
            request.query,
            records[k],
            matches[i].record,
        ) ==> exists|j: int| 0 <= j < i && (#[trigger] matches[j]).record == records[k],
{
    let query = request.query;
    let record = records[k];
    if candidate(record, request) && ranks_before(query, record, matches[i].record) {
        ranking_is_an_order(query, record, matches[i].record, record);
        assert(!ranks_before(query, matches[i].record, records[k]));
        let j = choose|j: int| 0 <= j < matches.len() && (#[trigger] matches[j]).record == records[k];
        if j > i {
            assert(ranks_before(query, matches[i].record, matches[j].record));
        }
    }
}

/// What a search looks into: a text, the JSON text of a value, and of a reference its preview or,
/// without one, the reference itself.
pub proof fn contents_are_searched_by_text(
    text: Seq<char>,
    value: JsonModel,
    reference: Seq<char>,
    preview: Seq<char>,
)
    ensures
        searchable_text(ContentView::Text { text }) == text,
        searchable_text(ContentView::Json { value }) == json_text(value),
        searchable_text(ContentView::Reference { reference, preview: Some(preview) }) == preview,
        searchable_text(ContentView::Reference { reference, preview: None }) == reference,
{
}

/// A text of alphanumeric characters is one word: itself in lower case.
pub proof fn a_word_is_itself(word: Seq<char>)
    requires
        word.len() > 0,
        forall|i: int| 0 <= i < word.len() ==> alphanumeric(#[trigger] word[i]),
    ensures
        tokens(word) == set![lower_case(word)],
{
    let n = word.len() as int;
    assert(word.subrange(0, n) =~= word);
    assert(word_at(word, 0, n));
    assert forall|token: Seq<char>| tokens(word).contains(token) implies token == lower_case(
        word,
    ) by {
        let (a, b) = choose|a: int, b: int| #[trigger]
            word_at(word, a, b) && b <= n && token == lower_case(word.subrange(a, b));
        if a > 0 {
            assert(alphanumeric(word[a - 1]));
        }
        if b < n {
            assert(alphanumeric(word[b]));
        }
    }
    assert(tokens(word) =~= set![lower_case(word)]);
}

/// A stored record holds what the request asked to store, and was ingested when it was stored. Its
/// identifier tells its sequence number.
pub proof fn stored_record_holds_the_request(
    sequence: nat,
    request: StoreRequestView,
    now: Timestamp,
)
    ensures
        ({
            let record = new_record(sequence, request, now);
            &&& record.namespace == request.namespace
            &&& record.content == request.content
            &&& record.event_timestamp == request.event_timestamp
            &&& record.ingested_at == now
            &&& record.provenance == request.provenance
            &&& record.metadata == request.metadata
            &&& record.provider == "in_memory"@
            &&& record.provider_metadata == Map::<Seq<char>, JsonModel>::empty()
            &&& record.id.take(7) == "memory-"@
            &&& decimal_value(record.id.skip(7)) == sequence
            &&& record.id.len() >= 23
        }),
{
    reveal_strlit("memory-");
    let digits = zero_padded(decimal(sequence), 16);
    decimal_is_exact(sequence);
    padding_keeps_value(decimal(sequence), 16);
    assert(record_id(sequence).take(7) =~= "memory-"@);
    assert(record_id(sequence).skip(7) =~= digits);
}

/// A valid request without a caller key, or with one that its namespace has not used, creates the
/// next record, as long as sequence numbers are left. An invalid one is refused before anything
/// else is looked at.
pub proof fn new_requests_create_a_record(
    state: ProviderView,
    request: StoreRequestView,
    now: Timestamp,
)
    ensures
        store_fault(request) matches Some(message) ==> store_outcome(state, request, now) == Err::<
            StoreResultView,
            ErrorView,
        >(ErrorView::invalid_request(message)),
        store_fault(request) is None && state.next_id < u64::MAX && (request.idempotency_key is None
            || forall|i: int|
            0 <= i < state.replays.len() ==> (#[trigger] state.replays[i]).namespace
                != request.namespace || Some(state.replays[i].key) != request.idempotency_key)
            ==> store_outcome(state, request, now) == Ok::<StoreResultView, ErrorView>(
            StoreResultView {
                record: new_record(state.next_id + 1, request, now),
                disposition: MemoryStoreDisposition::Created,
            },
        ),
        store_outcome(state, request, now) matches Err(error) ==> !error.retryable,
        grown(state, request, now).next_id == state.next_id + 1,
        grown(state, request, now).records == state.records.push(
            new_record(state.next_id + 1, request, now),
        ),
{
    if request.idempotency_key is Some && forall|i: int|
        0 <= i < state.replays.len() ==> (#[trigger] state.replays[i]).namespace
            != request.namespace || Some(state.replays[i].key) != request.idempotency_key {
        unused_key_has_no_replay(state.replays, request.namespace, request.idempotency_key->0);
    }
}

proof fn unused_key_has_no_replay(
    replays: Seq<ReplayView>,
    namespace: NamespaceView,
    key: Seq<char>,
)
    requires
        forall|i: int|
            0 <= i < replays.len() ==> (#[trigger] replays[i]).namespace != namespace
                || replays[i].key != key,
    ensures
        replay_of(replays, namespace, key) is None,
    decreases replays.len(),
{
    if replays.len() > 0 {
        let rest = replays.drop_last();
        assert(replays[replays.len() - 1] == replays.last());
        assert forall|i: int| 0 <= i < rest.len() implies (#[trigger] rest[i]).namespace != namespace
            || rest[i].key != key by {
            assert(rest[i] == replays[i]);
        }
        unused_key_has_no_replay(rest, namespace, key);
    }
}

/// The same payload is the same content, event, provenance and metadata. Who asks, until when and
/// under which key does not matter.
pub proof fn payloads_are_compared_in_full(record: RecordView, request: StoreRequestView)
    ensures
        same_payload(record, request) <==> record.content == request.content
            && record.event_timestamp == request.event_timestamp && record.provenance
            == request.provenance && record.metadata == request.metadata,
{
}

} // verus!
