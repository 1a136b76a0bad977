//! Equality of memory data, where JSON values count as equal when `serde_json` says so.

use vstd::prelude::*;
use crate::double::{double_equal, same_double};
use crate::error::{ErrorView, MemoryOperationError};
use crate::json::{json_equal, object_contained, JsonModel, JsonObject};
use crate::memory::{
    score_bits, ContentView, MatchView, MemoryContent, MemoryMatch, MemoryProvenance, MemoryRecord,
    MemorySearchResult, ProvenanceView, RecordView, Score, SearchResultView,
};
use crate::text::{same_opt_text, same_texts};
use crate::time::Timestamp;

verus! {

/// Two scores are equal: as doubles, whether they are fractions of query words or a provider's own.
pub open spec fn score_equal(left: Score, right: Score) -> bool {
    double_equal(score_bits(left), score_bits(right))
}

/// Two objects have the same members with equal values.
pub open spec fn object_equal(
    left: Map<Seq<char>, JsonModel>,
    right: Map<Seq<char>, JsonModel>,
) -> bool {
    object_contained(left, right) && right.dom().subset_of(left.dom())
}

/// Two contents are equal.
pub open spec fn content_equal(left: ContentView, right: ContentView) -> bool {
    match (left, right) {
        (ContentView::Json { value }, ContentView::Json { value: other }) => json_equal(
            value,
            other,
        ),
        _ => left == right,
    }
}

/// Two provenances are equal.
pub open spec fn provenance_equal(left: ProvenanceView, right: ProvenanceView) -> bool {
    &&& left.source == right.source
    &&& left.source_ids == right.source_ids
    &&& left.parent_memory_ids == right.parent_memory_ids
    &&& object_equal(left.metadata, right.metadata)
}

/// Two records are equal.
pub open spec fn record_equal(left: RecordView, right: RecordView) -> bool {
    &&& left.id == right.id
    &&& left.provider == right.provider
    &&& left.namespace == right.namespace
    &&& content_equal(left.content, right.content)
    &&& left.event_timestamp == right.event_timestamp
    &&& left.ingested_at == right.ingested_at
    &&& provenance_equal(left.provenance, right.provenance)
    &&& object_equal(left.metadata, right.metadata)
    &&& object_equal(left.provider_metadata, right.provider_metadata)
}

/// Two matches are equal.
pub open spec fn match_equal(left: MatchView, right: MatchView) -> bool {
    &&& record_equal(left.record, right.record)
    &&& score_equal(left.score, right.score)
    &&& left.rank == right.rank
}

/// Two failures are equal.
pub open spec fn failure_equal(left: ErrorView, right: ErrorView) -> bool {
    &&& left.code == right.code
    &&& left.message == right.message
    &&& left.retryable == right.retryable
    &&& left.operation_id == right.operation_id
    &&& left.provider == right.provider
    &&& object_equal(left.details, right.details)
}

/// Two search results are equal: the same matches and failures in the same order.
pub open spec fn result_equal(left: SearchResultView, right: SearchResultView) -> bool {
    &&& left.matches.len() == right.matches.len()
    &&& forall|i: int|
        0 <= i < left.matches.len() ==> match_equal(#[trigger] left.matches[i], right.matches[i])
    &&& left.partial_errors.len() == right.partial_errors.len()
    &&& forall|i: int|
        0 <= i < left.partial_errors.len() ==> failure_equal(
            #[trigger] left.partial_errors[i],
            right.partial_errors[i],
        )
}

/// Tells whether two scores are equal.
pub fn same_score(left: Score, right: Score) -> (r: bool)
    ensures
        r == score_equal(left, right),
{
    same_double(left.bits(), right.bits())
}

/// Tells whether two objects are equal.
pub fn same_object(left: &JsonObject, right: &JsonObject) -> (r: bool)
    ensures
        r == object_equal(left@, right@),
{
    if !left.contained_in(right) {
        return false;
    }
    let keys = right.keys();
    let mut i: usize = 0;
    while i < keys.len()
        invariant
            i <= keys@.len(),
            crate::text::texts(keys@).to_set() == right@.dom(),
            forall|j: int| 0 <= j < i ==> left@.dom().contains(#[trigger] keys@[j]@),
        decreases keys@.len() - i,
    {
        if left.get(keys[i].as_str()).is_none() {
            proof {
                assert(crate::text::texts(keys@)[i as int] == keys@[i as int]@);
                assert(right@.dom().contains(keys@[i as int]@));
            }
            return false;
        }
        i += 1;
    }
    proof {
        assert forall|key: Seq<char>| right@.dom().contains(key) implies left@.dom().contains(key) by {
            let names = crate::text::texts(keys@);
            assert(names.to_set().contains(key));
            let j = choose|j: int| 0 <= j < names.len() && names[j] == key;
            assert(keys@[j]@ == key);
        }
    }
    true
}

/// Tells whether two contents are equal.
pub fn same_content(left: &MemoryContent, right: &MemoryContent) -> (r: bool)
    ensures
        r == content_equal(left@, right@),
{
    match (left, right) {
        (MemoryContent::Text { text }, MemoryContent::Text { text: other }) => *text == *other,
        (MemoryContent::Json { value }, MemoryContent::Json { value: other }) => value.same(other),
        (
            MemoryContent::Reference { reference, preview },
            MemoryContent::Reference { reference: other_reference, preview: other_preview },
        ) => *reference == *other_reference && same_opt_text(preview, other_preview),
        _ => false,
    }
}

fn same_provenance(left: &MemoryProvenance, right: &MemoryProvenance) -> (r: bool)
    ensures
        r == provenance_equal(left@, right@),
{
    left.source == right.source && same_texts(&left.source_ids, &right.source_ids) && same_texts(
        &left.parent_memory_ids,
        &right.parent_memory_ids,
    ) && same_object(&left.metadata, &right.metadata)
}

fn same_timestamp(left: &Timestamp, right: &Timestamp) -> (r: bool)
    ensures
        r == (*left == *right),
{
    left.seconds == right.seconds && left.nanos == right.nanos
}

/// Tells whether two records are equal.
pub fn same_record(left: &MemoryRecord, right: &MemoryRecord) -> (r: bool)
    ensures
        r == record_equal(left@, right@),
{
    left.id == right.id && left.provider == right.provider && left.namespace.same(&right.namespace)
        && same_content(&left.content, &right.content) && same_timestamp(
        &left.event_timestamp,
        &right.event_timestamp,
    ) && same_timestamp(&left.ingested_at, &right.ingested_at) && same_provenance(
        &left.provenance,
        &right.provenance,
    ) && same_object(&left.metadata, &right.metadata) && same_object(
        &left.provider_metadata,
        &right.provider_metadata,
    )
}

fn same_match(left: &MemoryMatch, right: &MemoryMatch) -> (r: bool)
    ensures
        r == match_equal(left@, right@),
{
    same_record(&left.record, &right.record) && same_score(left.score, right.score) && left.rank
        == right.rank
}

fn same_error(left: &MemoryOperationError, right: &MemoryOperationError) -> (r: bool)
    ensures
        r == failure_equal(left@, right@),
{
    left.code == right.code && left.message == right.message && left.retryable == right.retryable
        && same_opt_text(&left.operation_id, &right.operation_id) && same_opt_text(
        &left.provider,
        &right.provider,
    ) && same_object(&left.details, &right.details)
}

/// Tells whether two search results are equal.
pub fn same_result(left: &MemorySearchResult, right: &MemorySearchResult) -> (r: bool)
    ensures
        r == result_equal(left@, right@),
{
    if left.matches.len() != right.matches.len() || left.partial_errors.len()
        != right.partial_errors.len() {
        return false;
    }
    let mut i: usize = 0;
    while i < left.matches.len()
        invariant
            i <= left.matches@.len(),
            left.matches@.len() == right.matches@.len(),
            forall|j: int|
                0 <= j < i ==> match_equal(#[trigger] left@.matches[j], right@.matches[j]),
        decreases left.matches@.len() - i,
    {
        if !same_match(&left.matches[i], &right.matches[i]) {
            assert(!match_equal(left@.matches[i as int], right@.matches[i as int]));
            return false;
        }
        i += 1;
    }
    let mut k: usize = 0;
    while k < left.partial_errors.len()
        invariant
            k <= left.partial_errors@.len(),
            left.partial_errors@.len() == right.partial_errors@.len(),
            forall|j: int|
                0 <= j < k ==> failure_equal(
                    #[trigger] left@.partial_errors[j],
                    right@.partial_errors[j],
                ),
        decreases left.partial_errors@.len() - k,
    {
        if !same_error(&left.partial_errors[k], &right.partial_errors[k]) {
            assert(!failure_equal(left@.partial_errors[k as int], right@.partial_errors[k as int]));
            return false;
        }
        k += 1;
    }
    true
}

/// Records are equal exactly where all of their fields are: identifiers, namespace and instants as
/// they are, and content, provenance and metadata as JSON values are equal.
pub proof fn records_are_compared_in_full(left: RecordView, right: RecordView)
    ensures
        record_equal(left, right) <==> {
            &&& left.id == right.id
            &&& left.provider == right.provider
            &&& left.namespace == right.namespace
            &&& left.event_timestamp == right.event_timestamp
            &&& left.ingested_at == right.ingested_at
            &&& left.provenance.source == right.provenance.source
            &&& left.provenance.source_ids == right.provenance.source_ids
            &&& left.provenance.parent_memory_ids == right.provenance.parent_memory_ids
            &&& object_equal(left.provenance.metadata, right.provenance.metadata)
            &&& object_equal(left.metadata, right.metadata)
            &&& object_equal(left.provider_metadata, right.provider_metadata)
            &&& match (left.content, right.content) {
                (ContentView::Text { text }, ContentView::Text { text: other }) => text == other,
                (ContentView::Json { value }, ContentView::Json { value: other }) => json_equal(
                    value,
                    other,
                ),
                (
                    ContentView::Reference { reference, preview },
                    ContentView::Reference { reference: other, preview: shown },
                ) => reference == other && preview == shown,
                _ => false,
            }
        },
{
}

/// Objects are equal exactly where they have the same names with equal values.
pub proof fn objects_are_compared_in_full(
    left: Map<Seq<char>, JsonModel>,
    right: Map<Seq<char>, JsonModel>,
)
    ensures
        object_equal(left, right) <==> left.dom() =~= right.dom() && forall|key: Seq<char>| #[trigger]
            left.dom().contains(key) ==> json_equal(left[key], right[key]),
{
    if object_equal(left, right) {
        assert forall|key: Seq<char>| left.dom().contains(key) == right.dom().contains(key) by {}
    }
}

/// Results are equal exactly where they have equal matches, with equal scores and ranks, and equal
/// failures, each in the same order.
pub proof fn results_are_compared_in_order(
    left: SearchResultView,
    right: SearchResultView,
    i: int,
)
    requires
        result_equal(left, right),
    ensures
        left.matches.len() == right.matches.len(),
        left.partial_errors.len() == right.partial_errors.len(),
        0 <= i < left.matches.len() ==> record_equal(
            left.matches[i].record,
            right.matches[i].record,
        ) && left.matches[i].rank == right.matches[i].rank && double_equal(
            score_bits(left.matches[i].score),
            score_bits(right.matches[i].score),
        ),
        0 <= i < left.partial_errors.len() ==> left.partial_errors[i].code
            == right.partial_errors[i].code && left.partial_errors[i].message
            == right.partial_errors[i].message && left.partial_errors[i].retryable
            == right.partial_errors[i].retryable && left.partial_errors[i].operation_id
            == right.partial_errors[i].operation_id && left.partial_errors[i].provider
            == right.partial_errors[i].provider && object_equal(
            left.partial_errors[i].details,
            right.partial_errors[i].details,
        ),
{
    if 0 <= i < left.matches.len() {
        assert(match_equal(left.matches[i], right.matches[i]));
    }
    if 0 <= i < left.partial_errors.len() {
        assert(failure_equal(left.partial_errors[i], right.partial_errors[i]));
    }
}

/// What is the same is equal, where its scores are numbers.
pub proof fn same_results_are_equal(left: SearchResultView, right: SearchResultView)
    requires
        left.matches.len() == right.matches.len(),
        left.partial_errors.len() == right.partial_errors.len(),
        forall|i: int|
            0 <= i < left.matches.len() ==> record_equal(
                (#[trigger] left.matches[i]).record,
                right.matches[i].record,
            ) && left.matches[i].rank == right.matches[i].rank && double_equal(
                score_bits(left.matches[i].score),
                score_bits(right.matches[i].score),
            ),
        forall|i: int|
            0 <= i < left.partial_errors.len() ==> failure_equal(
                #[trigger] left.partial_errors[i],
                right.partial_errors[i],
            ),
    ensures
        result_equal(left, right),
{
}

} // verus!
