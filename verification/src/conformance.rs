//! Reusable provider conformance coverage.
//!
//! A run decides which operation comes next and judges what came back; its owner executes the
//! operations.

use vstd::prelude::*;
use crate::equality::{record_equal, result_equal, same_record, same_result};
use crate::error::ErrorView;
use crate::json::{no_members, Json, JsonModel, JsonObject};
use crate::memory::{
    error_views, match_views, no_filter, outcome, positive_score, store_views, BatchRequestView,
    ContentView, ContextView, DeleteRequestView, FeedbackRequestView, HealthRequestView,
    MaintenanceRequestView, MatchView, MemoryBatchStoreRequest, MemoryCapabilities, MemoryContent,
    MemoryDeleteRequest, MemoryErrorCode, MemoryFeedbackKind, MemoryFeedbackRequest, MemoryFilter,
    MemoryHealthRequest, MemoryMaintenanceAction, MemoryMaintenanceRequest, MemoryMatch,
    MemoryNamespace, MemoryOperationError, MemoryProvenance, MemoryRequestContext,
    MemorySearchRequest, MemorySearchResult, MemorySearchScope, MemoryStoreDisposition,
    MemoryStoreRequest, MemoryStoreResult, MemoryUpdateRequest, NamespaceView, ProvenanceView,
    RecordView, SearchRequestView, SearchResultView, StoreRequestView, StoreResultView,
    UpdateRequestView,
};
use crate::metadata::{code_label, code_label_text};
use crate::text::{blank, concat, concat3, is_blank, opt_text, texts};
use crate::time::{later, representable, Timestamp};

verus! {

/// Result of one named provider conformance case.
#[derive(Debug, PartialEq, Eq)]
pub struct ConformanceCase {
    /// Stable case name suitable for test and CI output.
    pub name: &'static str,
    /// Whether every assertion in the case passed.
    pub passed: bool,
    /// Diagnostic summary when the case failed.
    pub message: Option<String>,
}

/// Result of one named provider conformance case.
pub struct CaseView {
    pub name: Seq<char>,
    pub passed: bool,
    pub message: Option<Seq<char>>,
}

impl View for ConformanceCase {
    type V = CaseView;

    open spec fn view(&self) -> CaseView {
        CaseView { name: self.name@, passed: self.passed, message: opt_text(self.message) }
    }
}

impl Clone for ConformanceCase {
    fn clone(&self) -> (r: Self)
        ensures
            r@ == self@,
    {
        ConformanceCase { name: self.name, passed: self.passed, message: self.message.clone() }
    }
}

/// The views of cases.
pub open spec fn case_views(cases: Seq<ConformanceCase>) -> Seq<CaseView> {
    cases.map_values(|case: ConformanceCase| case@)
}

/// Structured result of one provider conformance run.
#[derive(Debug, PartialEq, Eq)]
pub struct ConformanceReport {
    /// Provider identifier reported by the implementation.
    pub provider: String,
    /// Caller-supplied identifier used to isolate synthetic test data.
    pub run_id: String,
    /// Named cases in execution order.
    pub cases: Vec<ConformanceCase>,
}

impl Clone for ConformanceReport {
    fn clone(&self) -> (r: Self)
        ensures
            r.provider@ == self.provider@,
            r.run_id@ == self.run_id@,
            case_views(r.cases@) == case_views(self.cases@),
    {
        let cases = self.cases.clone();
        assert(case_views(cases@) =~= case_views(self.cases@));
        ConformanceReport { provider: self.provider.clone(), run_id: self.run_id.clone(), cases }
    }
}

/// The case that an objection makes: without a message it passed.
pub open spec fn case_of(name: Seq<char>, objection: Option<Seq<char>>) -> CaseView {
    CaseView { name, passed: objection is None, message: objection }
}

/// Every case passed.
pub open spec fn all_passed(cases: Seq<CaseView>) -> bool {
    forall|i: int| 0 <= i < cases.len() ==> (#[trigger] cases[i]).passed
}

/// The cases that failed, in their order.
pub open spec fn failed_cases(cases: Seq<CaseView>) -> Seq<CaseView>
    decreases cases.len(),
{
    if cases.len() == 0 {
        Seq::empty()
    } else if cases.last().passed {
        failed_cases(cases.drop_last())
    } else {
        failed_cases(cases.drop_last()).push(cases.last())
    }
}

impl ConformanceReport {
    /// Return `true` when every conformance case passed.
    pub fn passed(&self) -> (r: bool)
        ensures
            r == all_passed(case_views(self.cases@)),
    {
        let mut i: usize = 0;
        while i < self.cases.len()
            invariant
                i <= self.cases@.len(),
                forall|j: int| 0 <= j < i ==> (#[trigger] case_views(self.cases@)[j]).passed,
            decreases self.cases@.len() - i,
        {
            assert(case_views(self.cases@)[i as int] == self.cases@[i as int]@);
            if !self.cases[i].passed {
                return false;
            }
            i += 1;
        }
        true
    }

    /// Return only failed cases.
    pub fn failures(&self) -> (r: Vec<ConformanceCase>)
        ensures
            case_views(r@) == failed_cases(case_views(self.cases@)),
    {
        let ghost views = case_views(self.cases@);
        let mut failed: Vec<ConformanceCase> = Vec::new();
        let mut i: usize = 0;
        assert(case_views(failed@) =~= failed_cases(views.take(0)));
        while i < self.cases.len()
            invariant
                i <= self.cases@.len(),
                views == case_views(self.cases@),
                case_views(failed@) == failed_cases(views.take(i as int)),
            decreases self.cases@.len() - i,
        {
            let ghost before = case_views(failed@);
            proof {
                assert(views.take(i + 1).drop_last() =~= views.take(i as int));
                assert(views.take(i + 1).last() == self.cases@[i as int]@);
            }
            if !self.cases[i].passed {
                failed.push(self.cases[i].clone());
                assert(case_views(failed@) =~= before.push(self.cases@[i as int]@));
            }
            i += 1;
        }
        assert(views.take(i as int) =~= views);
        failed
    }

    fn record(&mut self, name: &'static str, objection: Option<String>)
        ensures
            final(self).provider == old(self).provider,
            final(self).run_id == old(self).run_id,
            case_views(final(self).cases@) == case_views(old(self).cases@).push(
                case_of(name@, opt_text(objection)),
            ),
    {
        let ghost before = case_views(self.cases@);
        self.cases.push(
            ConformanceCase { name, passed: objection.is_none(), message: objection },
        );
        assert(case_views(self.cases@) =~= before.push(case_of(name@, opt_text(objection))));
    }
}

/// No case failed exactly where the run passed.
pub proof fn passing_means_no_failures(cases: Seq<CaseView>)
    ensures
        all_passed(cases) <==> failed_cases(cases).len() == 0,
    decreases cases.len(),
{
    if cases.len() > 0 {
        let rest = cases.drop_last();
        passing_means_no_failures(rest);
        if all_passed(cases) {
            assert forall|i: int| 0 <= i < rest.len() implies (#[trigger] rest[i]).passed by {
                assert(rest[i] == cases[i]);
            }
            assert(cases[cases.len() - 1].passed);
        }
        if failed_cases(cases).len() == 0 {
            assert forall|i: int| 0 <= i < cases.len() implies (#[trigger] cases[i]).passed by {
                if i < rest.len() {
                    assert(rest[i] == cases[i]);
                }
            }
        }
    }
}

/// The synthetic namespace of a run.
pub open spec fn run_namespace(
    run_id: Seq<char>,
    subject: Seq<char>,
    session: Seq<char>,
    agent: Seq<char>,
) -> NamespaceView {
    NamespaceView {
        tenant_id: "conformance-"@ + run_id,
        subject_id: subject,
        session_id: Some(session),
        agent_id: Some(agent),
    }
}

fn namespace(run_id: &str, subject: &str, session: &str, agent: &str) -> (r: MemoryNamespace)
    ensures
        r@ == run_namespace(run_id@, subject@, session@, agent@),
{
    MemoryNamespace {
        tenant_id: concat("conformance-", run_id),
        subject_id: subject.to_owned(),
        session_id: Some(session.to_owned()),
        agent_id: Some(agent.to_owned()),
    }
}

/// The context of an operation of a run.
pub open spec fn run_context(run_id: Seq<char>, operation: Seq<char>) -> ContextView {
    ContextView { operation_id: run_id + "-"@ + operation, deadline: None }
}

fn context(run_id: &str, operation: &str) -> (r: MemoryRequestContext)
    ensures
        r@ == run_context(run_id@, operation@),
{
    MemoryRequestContext { operation_id: concat3(run_id, "-", operation), deadline: None }
}

/// A store of a run.
pub open spec fn run_store(
    run_id: Seq<char>,
    operation: Seq<char>,
    namespace: NamespaceView,
    text: Seq<char>,
    key: Seq<char>,
) -> StoreRequestView {
    StoreRequestView {
        context: run_context(run_id, operation),
        namespace,
        content: ContentView::Text { text },
        event_timestamp: Timestamp { seconds: 1_700_000_000, nanos: 0 },
        provenance: ProvenanceView {
            source: "conformance"@,
            source_ids: seq!["source-"@ + run_id + ("-"@ + operation)],
            parent_memory_ids: Seq::empty(),
            metadata: no_members(),
        },
        metadata: no_members().insert("suite"@, JsonModel::Text("memory"@)),
        idempotency_key: Some(run_id + "-"@ + key),
    }
}

fn store_request(
    run_id: &str,
    operation: &str,
    namespace: MemoryNamespace,
    text: &str,
    key: &str,
) -> (r: MemoryStoreRequest)
    ensures
        r@ == run_store(run_id@, operation@, namespace@, text@, key@),
{
    let mut metadata = JsonObject::new();
    metadata.insert("suite", Json::text("memory"));
    let tail = concat("-", operation);
    let source_ids: Vec<String> = vec![concat3("source-", run_id, tail.as_str())];
    let parent_memory_ids: Vec<String> = Vec::new();
    assert(texts(source_ids@) =~= seq!["source-"@ + run_id@ + ("-"@ + operation@)]);
    assert(texts(parent_memory_ids@) =~= Seq::empty());
    MemoryStoreRequest {
        context: context(run_id, operation),
        namespace,
        content: MemoryContent::Text { text: text.to_owned() },
        event_timestamp: Timestamp { seconds: 1_700_000_000, nanos: 0 },
        provenance: MemoryProvenance {
            source: "conformance".to_owned(),
            source_ids,
            parent_memory_ids,
            metadata: JsonObject::new(),
        },
        metadata,
        idempotency_key: Some(concat3(run_id, "-", key)),
    }
}

/// A search of a run.
pub open spec fn run_search(
    run_id: Seq<char>,
    operation: Seq<char>,
    namespace: NamespaceView,
    query: Seq<char>,
) -> SearchRequestView {
    SearchRequestView {
        context: run_context(run_id, operation),
        namespace,
        query,
        scope: MemorySearchScope::Subject,
        filter: no_filter(),
        limit: 10,
    }
}

fn search_request(run_id: &str, operation: &str, namespace: MemoryNamespace, query: &str) -> (r:
    MemorySearchRequest)
    ensures
        r@ == run_search(run_id@, operation@, namespace@, query@),
{
    MemorySearchRequest {
        context: context(run_id, operation),
        namespace,
        query: query.to_owned(),
        scope: MemorySearchScope::Subject,
        filter: MemoryFilter::default(),
        limit: 10,
    }
}

/// What is wrong: nothing where a condition holds, and else a message.
pub open spec fn required(condition: bool, message: Seq<char>) -> Option<Seq<char>> {
    if condition {
        None
    } else {
        Some(message)
    }
}

fn require(condition: bool, message: &str) -> (r: Option<String>)
    ensures
        opt_text(r) == required(condition, message@),
{
    if condition {
        None
    } else {
        Some(message.to_owned())
    }
}

/// The first store must create its record.
pub open spec fn store_objection(stored: Result<StoreResultView, ErrorView>) -> Option<Seq<char>> {
    match stored {
        Ok(result) => required(
            result.disposition == MemoryStoreDisposition::Created,
            "initial store did not report created"@,
        ),
        Err(error) => Some(error.message),
    }
}

/// A search for the stored record must find something.
pub open spec fn search_objection(found: Result<SearchResultView, ErrorView>) -> Option<Seq<char>> {
    match found {
        Ok(result) => required(result.matches.len() > 0, "search returned no matches"@),
        Err(error) => Some(error.message),
    }
}

/// The first match with a record identifier.
pub open spec fn match_with(matches: Seq<MatchView>, id: Seq<char>) -> Option<MatchView>
    decreases matches.len(),
{
    if matches.len() == 0 {
        None
    } else if matches[0].record.id == id {
        Some(matches[0])
    } else {
        match_with(matches.drop_first(), id)
    }
}

/// The stored record must come back unchanged, with a rank and a score.
pub open spec fn preservation_objection(
    found: Result<SearchResultView, ErrorView>,
    stored: RecordView,
) -> Option<Seq<char>> {
    match found {
        Ok(result) => match match_with(result.matches, stored.id) {
            Some(item) => required(
                record_equal(item.record, stored) && item.rank > 0 && positive_score(item.score),
                "record fields, rank, or score changed"@,
            ),
            None => Some("stored record was not returned"@),
        },
        Err(error) => Some(error.message),
    }
}

/// A subject must be found from another session, and not by another subject.
pub open spec fn isolation_objection(
    found: Result<SearchResultView, ErrorView>,
    isolated: Result<SearchResultView, ErrorView>,
    stored: RecordView,
) -> Option<Seq<char>> {
    match found {
        Err(error) => Some(error.message),
        Ok(result) => if match_with(result.matches, stored.id) is None {
            Some("subject-scope search did not cross sessions"@)
        } else {
            match isolated {
                Err(error) => Some(error.message),
                Ok(other) => required(
                    other.matches.len() == 0,
                    "search crossed subject boundary"@,
                ),
            }
        },
    }
}

/// The same search must give the same result.
pub open spec fn order_objection(
    first: Result<SearchResultView, ErrorView>,
    second: Result<SearchResultView, ErrorView>,
) -> Option<Seq<char>> {
    match (first, second) {
        (Ok(first), Ok(second)) => required(
            result_equal(first, second),
            "repeated search changed order"@,
        ),
        (Err(error), _) => Some(error.message),
        (_, Err(error)) => Some(error.message),
    }
}

/// A replay must return the original record, and a conflicting one must be refused as such.
pub open spec fn idempotency_objection(
    replay: Result<StoreResultView, ErrorView>,
    conflict: Result<StoreResultView, ErrorView>,
    stored: RecordView,
) -> Option<Seq<char>> {
    match replay {
        Err(error) => Some(error.message),
        Ok(result) => if !(result.disposition == MemoryStoreDisposition::Existing && record_equal(
            result.record,
            stored,
        )) {
            Some("idempotent replay did not return the original record"@)
        } else {
            match conflict {
                Err(error) => if error.code == MemoryErrorCode::Conflict {
                    None
                } else {
                    Some("expected conflict, got "@ + code_label(error.code))
                },
                Ok(_) => Some("conflicting replay unexpectedly succeeded"@),
            }
        },
    }
}

/// An operation must be refused as unsupported exactly where it is not advertised.
pub open spec fn agreement_objection(
    capability: Seq<char>,
    advertised: bool,
    failure: Option<ErrorView>,
) -> Option<Seq<char>> {
    match (advertised, failure) {
        (false, Some(error)) => if error.code == MemoryErrorCode::Unsupported {
            None
        } else {
            Some(capability + " is disabled but returned "@ + code_label(error.code))
        },
        (false, None) => Some(capability + " is disabled but succeeded"@),
        (true, Some(error)) => if error.code == MemoryErrorCode::Unsupported {
            Some(capability + " is advertised but returned unsupported"@)
        } else {
            None
        },
        (true, None) => None,
    }
}

/// A blocking operation must be given up at its deadline, having been started once.
pub open spec fn deadline_objection(
    failure: Option<ErrorView>,
    calls: nat,
    dropped: bool,
) -> Option<
    Seq<char>,
> {
    match failure {
        Some(error) => required(
            error.code == MemoryErrorCode::DeadlineExceeded && calls == 1 && dropped,
            "deadline did not drop exactly one provider future"@,
        ),
        None => Some("blocking provider completed before deadline"@),
    }
}

/// A partial result must come back unchanged.
pub open spec fn partial_objection(
    found: Result<SearchResultView, ErrorView>,
) -> Option<Seq<char>> {
    match found {
        Ok(result) => required(
            result_equal(result, partial_result()),
            "partial result changed"@,
        ),
        Err(error) => Some(error.message),
    }
}

/// The synthetic partial result: no matches and one failure.
pub open spec fn partial_result() -> SearchResultView {
    SearchResultView {
        matches: Seq::empty(),
        partial_errors: seq![
            ErrorView::new(
                MemoryErrorCode::ProviderUnavailable,
                "synthetic partial failure"@,
                true,
            ),
        ],
    }
}

/// The synthetic partial result.
pub fn synthetic_partial_result() -> (r: MemorySearchResult)
    ensures
        r@ == partial_result(),
{
    let matches: Vec<MemoryMatch> = Vec::new();
    let partial_errors: Vec<MemoryOperationError> = vec![
        MemoryOperationError::new(
            MemoryErrorCode::ProviderUnavailable,
            "synthetic partial failure",
            true,
        ),
    ];
    assert(match_views(matches@) =~= Seq::empty());
    assert(error_views(partial_errors@) =~= partial_result().partial_errors);
    MemorySearchResult { matches, partial_errors }
}

fn judge_store(stored: &Result<MemoryStoreResult, MemoryOperationError>) -> (r: Option<String>)
    ensures
        opt_text(r) == store_objection(outcome(*stored)),
{
    match stored {
        Ok(result) => require(
            matches!(result.disposition, MemoryStoreDisposition::Created),
            "initial store did not report created",
        ),
        Err(error) => Some(error.to_text()),
    }
}

fn judge_search(found: &Result<MemorySearchResult, MemoryOperationError>) -> (r: Option<String>)
    ensures
        opt_text(r) == search_objection(outcome(*found)),
{
    match found {
        Ok(result) => require(result.matches.len() > 0, "search returned no matches"),
        Err(error) => Some(error.to_text()),
    }
}

fn find_match<'a>(matches: &'a Vec<MemoryMatch>, id: &String) -> (r: Option<&'a MemoryMatch>)
    ensures
        match match_with(match_views(matches@), id@) {
            Some(item) => r matches Some(found) && found@ == item,
            None => r is None,
        },
{
    let ghost views = match_views(matches@);
    let mut i: usize = 0;
    assert(views.skip(0) =~= views);
    while i < matches.len()
        invariant
            i <= matches@.len(),
            views == match_views(matches@),
            match_with(views, id@) == match_with(views.skip(i as int), id@),
        decreases matches@.len() - i,
    {
        proof {
            assert(views.skip(i as int)[0] == matches@[i as int]@);
            assert(views.skip(i as int).drop_first() =~= views.skip(i + 1));
        }
        if matches[i].record.id == *id {
            return Some(&matches[i]);
        }
        i += 1;
    }
    None
}

fn judge_preservation(
    found: &Result<MemorySearchResult, MemoryOperationError>,
    stored: &MemoryStoreResult,
) -> (r: Option<String>)
    ensures
        opt_text(r) == preservation_objection(outcome(*found), stored@.record),
{
    match found {
        Ok(result) => match find_match(&result.matches, &stored.record.id) {
            Some(item) => require(
                same_record(&item.record, &stored.record) && item.rank > 0
                    && item.score.is_positive(),
                "record fields, rank, or score changed",
            ),
            None => Some("stored record was not returned".to_owned()),
        },
        Err(error) => Some(error.to_text()),
    }
}

fn judge_isolation(
    found: &Result<MemorySearchResult, MemoryOperationError>,
    isolated: &Result<MemorySearchResult, MemoryOperationError>,
    stored: &MemoryStoreResult,
) -> (r: Option<String>)
    ensures
        opt_text(r) == isolation_objection(outcome(*found), outcome(*isolated), stored@.record),
{
    match found {
        Err(error) => Some(error.to_text()),
        Ok(result) => match find_match(&result.matches, &stored.record.id) {
            None => Some("subject-scope search did not cross sessions".to_owned()),
            Some(_) => match isolated {
                Err(error) => Some(error.to_text()),
                Ok(other) => require(other.matches.len() == 0, "search crossed subject boundary"),
            },
        },
    }
}

fn judge_order(
    first: &Result<MemorySearchResult, MemoryOperationError>,
    second: &Result<MemorySearchResult, MemoryOperationError>,
) -> (r: Option<String>)
    ensures
        opt_text(r) == order_objection(outcome(*first), outcome(*second)),
{
    match (first, second) {
        (Ok(first), Ok(second)) => require(
            same_result(first, second),
            "repeated search changed order",
        ),
        (Err(error), _) => Some(error.to_text()),
        (_, Err(error)) => Some(error.to_text()),
    }
}

fn judge_idempotency(
    replay: &Result<MemoryStoreResult, MemoryOperationError>,
    conflict: &Result<MemoryStoreResult, MemoryOperationError>,
    stored: &MemoryStoreResult,
) -> (r: Option<String>)
    ensures
        opt_text(r) == idempotency_objection(outcome(*replay), outcome(*conflict), stored@.record),
{
    match replay {
        Err(error) => Some(error.to_text()),
        Ok(result) => {
            let existing = matches!(result.disposition, MemoryStoreDisposition::Existing);
            if !(existing && same_record(&result.record, &stored.record)) {
                return Some("idempotent replay did not return the original record".to_owned());
            }
            match conflict {
                Err(error) => {
                    if matches!(error.code, MemoryErrorCode::Conflict) {
                        None
                    } else {
                        Some(concat("expected conflict, got ", code_label_text(error.code)))
                    }
                },
                Ok(_) => Some("conflicting replay unexpectedly succeeded".to_owned()),
            }
        },
    }
}

/// The view of the failure of an operation.
pub open spec fn failure_of(result: Result<(), MemoryOperationError>) -> Option<ErrorView> {
    match result {
        Ok(_) => None,
        Err(error) => Some(error@),
    }
}

/// Judge whether an operation is refused as unsupported exactly where it is not advertised.
pub fn agreement(
    capability: &str,
    advertised: bool,
    result: &Result<(), MemoryOperationError>,
) -> (r: Option<String>)
    ensures
        opt_text(r) == agreement_objection(capability@, advertised, failure_of(*result)),
{
    match result {
        Err(error) => {
            let unsupported = matches!(error.code, MemoryErrorCode::Unsupported);
            if !advertised && !unsupported {
                Some(
                    concat3(
                        capability,
                        " is disabled but returned ",
                        code_label_text(error.code),
                    ),
                )
            } else if advertised && unsupported {
                Some(concat(capability, " is advertised but returned unsupported"))
            } else {
                None
            }
        },
        Ok(()) => {
            if advertised {
                None
            } else {
                Some(concat(capability, " is disabled but succeeded"))
            }
        },
    }
}

fn judge_deadline(result: &Result<(), MemoryOperationError>, calls: usize, dropped: bool) -> (r:
    Option<String>)
    ensures
        opt_text(r) == deadline_objection(failure_of(*result), calls as nat, dropped),
{
    match result {
        Err(error) => require(
            matches!(error.code, MemoryErrorCode::DeadlineExceeded) && calls == 1 && dropped,
            "deadline did not drop exactly one provider future",
        ),
        Ok(()) => Some("blocking provider completed before deadline".to_owned()),
    }
}

fn judge_partial(found: &Result<MemorySearchResult, MemoryOperationError>) -> (r: Option<String>)
    ensures
        opt_text(r) == partial_objection(outcome(*found)),
{
    match found {
        Ok(result) => require(
            same_result(result, &synthetic_partial_result()),
            "partial result changed",
        ),
        Err(error) => Some(error.to_text()),
    }
}

/// An optional operation.
#[derive(Debug, Clone, Copy, PartialEq, Eq, Structural)]
pub enum Capability {
    /// Update existing records.
    Update,
    /// Store a batch.
    BatchStore,
    /// Reflect or consolidate.
    Maintenance,
    /// Accept feedback.
    Feedback,
    /// Report health.
    Health,
    /// Delete records.
    Delete,
}

/// The name of an optional operation.
pub open spec fn capability_name(capability: Capability) -> Seq<char> {
    match capability {
        Capability::Update => "update"@,
        Capability::BatchStore => "batch_store"@,
        Capability::Maintenance => "maintenance"@,
        Capability::Feedback => "feedback"@,
        Capability::Health => "health"@,
        Capability::Delete => "delete"@,
    }
}

/// An optional operation is advertised.
pub open spec fn advertised(capabilities: MemoryCapabilities, capability: Capability) -> bool {
    match capability {
        Capability::Update => capabilities.update,
        Capability::BatchStore => capabilities.batch_store,
        Capability::Maintenance => capabilities.maintenance,
        Capability::Feedback => capabilities.feedback,
        Capability::Health => capabilities.health,
        Capability::Delete => capabilities.delete,
    }
}

/// The optional operation that is tried after another.
pub open spec fn tried_after(capability: Capability) -> Option<Capability> {
    match capability {
        Capability::Update => Some(Capability::BatchStore),
        Capability::BatchStore => Some(Capability::Maintenance),
        Capability::Maintenance => Some(Capability::Feedback),
        Capability::Feedback => Some(Capability::Health),
        Capability::Health => Some(Capability::Delete),
        Capability::Delete => None,
    }
}

impl Capability {
    /// The name of the operation.
    pub fn name(self) -> (r: &'static str)
        ensures
            r@ == capability_name(self),
    {
        match self {
            Capability::Update => "update",
            Capability::BatchStore => "batch_store",
            Capability::Maintenance => "maintenance",
            Capability::Feedback => "feedback",
            Capability::Health => "health",
            Capability::Delete => "delete",
        }
    }

    fn is_advertised(self, capabilities: MemoryCapabilities) -> (r: bool)
        ensures
            r == advertised(capabilities, self),
    {
        match self {
            Capability::Update => capabilities.update,
            Capability::BatchStore => capabilities.batch_store,
            Capability::Maintenance => capabilities.maintenance,
            Capability::Feedback => capabilities.feedback,
            Capability::Health => capabilities.health,
            Capability::Delete => capabilities.delete,
        }
    }

    fn next(self) -> (r: Option<Capability>)
        ensures
            r == tried_after(self),
    {
        match self {
            Capability::Update => Some(Capability::BatchStore),
            Capability::BatchStore => Some(Capability::Maintenance),
            Capability::Maintenance => Some(Capability::Feedback),
            Capability::Feedback => Some(Capability::Health),
            Capability::Health => Some(Capability::Delete),
            Capability::Delete => None,
        }
    }
}

/// The operation that a run asks for next.
#[derive(Debug, PartialEq)]
pub enum ConformanceAction {
    /// Store through the runtime.
    Store(MemoryStoreRequest),
    /// Search through the runtime.
    Search(MemorySearchRequest),
    /// Update through the runtime.
    Update(MemoryUpdateRequest),
    /// Store a batch through the runtime.
    BatchStore(MemoryBatchStoreRequest),
    /// Maintain through the runtime.
    Maintain(MemoryMaintenanceRequest),
    /// Give feedback through the runtime.
    Feedback(MemoryFeedbackRequest),
    /// Ask for health through the runtime.
    Health(MemoryHealthRequest),
    /// Delete through the runtime.
    Delete(MemoryDeleteRequest),
    /// Search a runtime over a provider that answers with the synthetic partial result.
    ProbePartial(MemorySearchRequest),
    /// Search a runtime over a provider that never answers.
    ProbeDeadline(MemorySearchRequest),
    /// Nothing: the report is complete.
    Finished,
}

/// The operation that a run asks for next.
pub enum RunActionView {
    Store(StoreRequestView),
    Search(SearchRequestView),
    Update(UpdateRequestView),
    BatchStore(BatchRequestView),
    Maintain(MaintenanceRequestView),
    Feedback(FeedbackRequestView),
    Health(HealthRequestView),
    Delete(DeleteRequestView),
    ProbePartial(SearchRequestView),
    ProbeDeadline(SearchRequestView),
    Finished,
}

impl View for ConformanceAction {
    type V = RunActionView;

    open spec fn view(&self) -> RunActionView {
        match self {
            ConformanceAction::Store(request) => RunActionView::Store(request@),
            ConformanceAction::Search(request) => RunActionView::Search(request@),
            ConformanceAction::Update(request) => RunActionView::Update(request@),
            ConformanceAction::BatchStore(request) => RunActionView::BatchStore(request@),
            ConformanceAction::Maintain(request) => RunActionView::Maintain(request@),
            ConformanceAction::Feedback(request) => RunActionView::Feedback(request@),
            ConformanceAction::Health(request) => RunActionView::Health(request@),
            ConformanceAction::Delete(request) => RunActionView::Delete(request@),
            ConformanceAction::ProbePartial(request) => RunActionView::ProbePartial(request@),
            ConformanceAction::ProbeDeadline(request) => RunActionView::ProbeDeadline(request@),
            ConformanceAction::Finished => RunActionView::Finished,
        }
    }
}

/// What an operation of a run came to.
#[derive(Debug, PartialEq)]
pub enum ConformanceEvent {
    /// A store, or a store that failed.
    Stored(Result<MemoryStoreResult, MemoryOperationError>),
    /// A search, or a search that failed.
    Searched(Result<MemorySearchResult, MemoryOperationError>),
    /// An optional operation.
    Answered(Result<(), MemoryOperationError>),
    /// A search of the provider that never answers.
    Expired {
        /// What the search came to.
        result: Result<(), MemoryOperationError>,
        /// How often the provider was called.
        calls: usize,
        /// Whether the provider's operation was dropped.
        dropped: bool,
    },
}

/// What an operation of a run came to.
pub enum EventView {
    Stored(Result<StoreResultView, ErrorView>),
    Searched(Result<SearchResultView, ErrorView>),
    Answered(Option<ErrorView>),
    Expired { failure: Option<ErrorView>, calls: nat, dropped: bool },
}

impl View for ConformanceEvent {
    type V = EventView;

    open spec fn view(&self) -> EventView {
        match self {
            ConformanceEvent::Stored(result) => EventView::Stored(outcome(*result)),
            ConformanceEvent::Searched(result) => EventView::Searched(outcome(*result)),
            ConformanceEvent::Answered(result) => EventView::Answered(failure_of(*result)),
            ConformanceEvent::Expired { result, calls, dropped } => EventView::Expired {
                failure: failure_of(*result),
                calls: *calls as nat,
                dropped: *dropped,
            },
        }
    }
}

#[derive(Debug, PartialEq)]
enum Progress {
    Seeding,
    Searching { stored: MemoryStoreResult },
    Isolating {
        stored: MemoryStoreResult,
        found: Result<MemorySearchResult, MemoryOperationError>,
    },
    Sorting { stored: MemoryStoreResult },
    Resorting {
        stored: MemoryStoreResult,
        first: Result<MemorySearchResult, MemoryOperationError>,
    },
    Replaying { stored: MemoryStoreResult },
    Conflicting {
        stored: MemoryStoreResult,
        replay: Result<MemoryStoreResult, MemoryOperationError>,
    },
    Trying { stored: MemoryStoreResult, capability: Capability },
    ProbingPartial,
    ProbingDeadline,
    Finished,
}

/// Where a run stands, with what it still needs to judge.
pub enum ProgressView {
    Seeding,
    Searching { stored: StoreResultView },
    Isolating { stored: StoreResultView, found: Result<SearchResultView, ErrorView> },
    Sorting { stored: StoreResultView },
    Resorting { stored: StoreResultView, first: Result<SearchResultView, ErrorView> },
    Replaying { stored: StoreResultView },
    Conflicting { stored: StoreResultView, replay: Result<StoreResultView, ErrorView> },
    Trying { stored: StoreResultView, capability: Capability },
    ProbingPartial,
    ProbingDeadline,
    Finished,
}

/// A conformance run over one provider.
#[derive(Debug, PartialEq)]
pub struct ConformanceRun {
    report: ConformanceReport,
    capabilities: MemoryCapabilities,
    progress: Progress,
}

/// A conformance run over one provider.
pub struct RunView {
    pub provider: Seq<char>,
    pub run_id: Seq<char>,
    pub capabilities: MemoryCapabilities,
    pub cases: Seq<CaseView>,
    pub progress: ProgressView,
}

impl View for ConformanceRun {
    type V = RunView;

    closed spec fn view(&self) -> RunView {
        RunView {
            provider: self.report.provider@,
            run_id: self.report.run_id@,
            capabilities: self.capabilities,
            cases: case_views(self.report.cases@),
            progress: match self.progress {
                Progress::Seeding => ProgressView::Seeding,
                Progress::Searching { stored } => ProgressView::Searching { stored: stored@ },
                Progress::Isolating { stored, found } => ProgressView::Isolating {
                    stored: stored@,
                    found: outcome(found),
                },
                Progress::Sorting { stored } => ProgressView::Sorting { stored: stored@ },
                Progress::Resorting { stored, first } => ProgressView::Resorting {
                    stored: stored@,
                    first: outcome(first),
                },
                Progress::Replaying { stored } => ProgressView::Replaying { stored: stored@ },
                Progress::Conflicting { stored, replay } => ProgressView::Conflicting {
                    stored: stored@,
                    replay: outcome(replay),
                },
                Progress::Trying { stored, capability } => ProgressView::Trying {
                    stored: stored@,
                    capability,
                },
                Progress::ProbingPartial => ProgressView::ProbingPartial,
                Progress::ProbingDeadline => ProgressView::ProbingDeadline,
                Progress::Finished => ProgressView::Finished,
            },
        }
    }
}

/// A run before its first operation. One without an identifier is finished, with one failed case.
pub open spec fn fresh_run(
    provider: Seq<char>,
    run_id: Seq<char>,
    capabilities: MemoryCapabilities,
) -> RunView {
    RunView {
        provider,
        run_id,
        capabilities,
        cases: if blank(run_id) {
            seq![case_of("valid_run_id"@, Some("run_id must not be empty"@))]
        } else {
            Seq::empty()
        },
        progress: if blank(run_id) {
            ProgressView::Finished
        } else {
            ProgressView::Seeding
        },
    }
}

impl RunView {
    /// The run with one more case, at another place.
    pub open spec fn judged(
        self,
        name: Seq<char>,
        objection: Option<Seq<char>>,
        progress: ProgressView,
    ) -> RunView {
        RunView { cases: self.cases.push(case_of(name, objection)), progress, ..self }
    }
}

/// The cases that cannot be judged without the first store.
pub open spec fn unseeded_cases(cases: Seq<CaseView>) -> Seq<CaseView> {
    let objection = Some("required seed store failed"@);
    cases.push(case_of("required_search"@, objection)).push(
        case_of("record_preservation"@, objection),
    ).push(case_of("subject_isolation_cross_session"@, objection)).push(
        case_of("deterministic_order"@, objection),
    ).push(case_of("idempotency"@, objection)).push(case_of("capability_agreement"@, objection))
}

/// A run after an operation. An event that the run did not ask for changes nothing.
pub open spec fn after_event(run: RunView, event: EventView) -> RunView {
    match (run.progress, event) {
        (ProgressView::Seeding, EventView::Stored(result)) => {
            let judged = run.judged(
                "required_store"@,
                store_objection(result),
                ProgressView::ProbingPartial,
            );
            match result {
                Ok(stored) => RunView { progress: ProgressView::Searching { stored }, ..judged },
                Err(_) => RunView { cases: unseeded_cases(judged.cases), ..judged },
            }
        },
        (ProgressView::Searching { stored }, EventView::Searched(found)) => run.judged(
            "required_search"@,
            search_objection(found),
            run.progress,
        ).judged(
            "record_preservation"@,
            preservation_objection(found, stored.record),
            ProgressView::Isolating { stored, found },
        ),
        (ProgressView::Isolating { stored, found }, EventView::Searched(isolated)) => run.judged(
            "subject_isolation_cross_session"@,
            isolation_objection(found, isolated, stored.record),
            ProgressView::Sorting { stored },
        ),
        (ProgressView::Sorting { stored }, EventView::Searched(first)) => RunView {
            progress: ProgressView::Resorting { stored, first },
            ..run
        },
        (ProgressView::Resorting { stored, first }, EventView::Searched(second)) => run.judged(
            "deterministic_order"@,
            order_objection(first, second),
            ProgressView::Replaying { stored },
        ),
        (ProgressView::Replaying { stored }, EventView::Stored(replay)) => RunView {
            progress: ProgressView::Conflicting { stored, replay },
            ..run
        },
        (ProgressView::Conflicting { stored, replay }, EventView::Stored(conflict)) => run.judged(
            "idempotency"@,
            idempotency_objection(replay, conflict, stored.record),
            ProgressView::Trying { stored, capability: Capability::Update },
        ),
        (ProgressView::Trying { stored, capability }, EventView::Answered(failure)) => {
            let objection = agreement_objection(
                capability_name(capability),
                advertised(run.capabilities, capability),
                failure,
            );
            match (objection, tried_after(capability)) {
                (None, Some(next)) => RunView {
                    progress: ProgressView::Trying { stored, capability: next },
                    ..run
                },
                _ => run.judged(
                    "capability_agreement"@,
                    objection,
                    ProgressView::ProbingPartial,
                ),
            }
        },
        (ProgressView::ProbingPartial, EventView::Searched(found)) => run.judged(
            "partial_result_preservation"@,
            partial_objection(found),
            ProgressView::ProbingDeadline,
        ),
        (ProgressView::ProbingDeadline, EventView::Expired { failure, calls, dropped }) => run.judged(
            "deadline_cancellation"@,
            deadline_objection(failure, calls, dropped),
            ProgressView::Finished,
        ),
        _ => run,
    }
}

/// The first store of a run.
pub open spec fn seed_store(run_id: Seq<char>) -> StoreRequestView {
    run_store(
        run_id,
        "required-store"@,
        run_namespace(run_id, "subject"@, "session-a"@, "assistant"@),
        "conformance solarized editor preference"@,
        "required-store-key"@,
    )
}

/// The operation that a run asks for next.
pub open spec fn next_operation(run: RunView, now: Timestamp) -> RunActionView {
    let id = run.run_id;
    let origin = run_namespace(id, "subject"@, "session-a"@, "assistant"@);
    let cross_session = run_namespace(id, "subject"@, "session-b"@, "assistant"@);
    let probe = run_namespace("runtime"@, "subject"@, "session"@, "agent"@);
    let query = "solarized editor preference"@;
    match run.progress {
        ProgressView::Seeding => RunActionView::Store(seed_store(id)),
        ProgressView::Searching { .. } => RunActionView::Search(
            run_search(id, "required-search"@, cross_session, query),
        ),
        ProgressView::Isolating { .. } => RunActionView::Search(
            run_search(
                id,
                "isolated-search"@,
                run_namespace(id, "other-subject"@, "session-b"@, "assistant"@),
                query,
            ),
        ),
        ProgressView::Sorting { .. } => RunActionView::Search(
            run_search(id, "deterministic-search"@, cross_session, query),
        ),
        ProgressView::Resorting { .. } => RunActionView::Search(
            run_search(id, "deterministic-search"@, cross_session, query),
        ),
        ProgressView::Replaying { .. } => RunActionView::Store(
            StoreRequestView { context: run_context(id, "idempotent-replay"@), ..seed_store(id) },
        ),
        ProgressView::Conflicting { .. } => RunActionView::Store(
            StoreRequestView {
                context: run_context(id, "idempotent-conflict"@),
                content: ContentView::Text { text: "different conformance payload"@ },
                ..seed_store(id)
            },
        ),
        ProgressView::Trying { stored, capability } => match capability {
            Capability::Update => RunActionView::Update(
                UpdateRequestView {
                    context: run_context(id, "capability-update"@),
                    namespace: origin,
                    id: stored.record.id,
                    content: None,
                    metadata: Some(no_members()),
                },
            ),
            Capability::BatchStore => RunActionView::BatchStore(
                BatchRequestView {
                    context: run_context(id, "capability-batch"@),
                    requests: seq![
                        run_store(
                            id,
                            "capability-batch-item"@,
                            origin,
                            "conformance batch item"@,
                            "capability-batch-key"@,
                        ),
                    ],
                },
            ),
            Capability::Maintenance => RunActionView::Maintain(
                MaintenanceRequestView {
                    context: run_context(id, "capability-maintenance"@),
                    namespace: origin,
                    action: MemoryMaintenanceAction::Reflect,
                    window: None,
                    parameters: no_members(),
                },
            ),
            Capability::Feedback => RunActionView::Feedback(
                FeedbackRequestView {
                    context: run_context(id, "capability-feedback"@),
                    namespace: origin,
                    id: stored.record.id,
                    kind: MemoryFeedbackKind::Relevant,
                    confidence_bits: Some(ONE_BITS),
                    metadata: no_members(),
                },
            ),
            Capability::Health => RunActionView::Health(
                HealthRequestView { context: run_context(id, "capability-health"@) },
            ),
            Capability::Delete => RunActionView::Delete(
                DeleteRequestView {
                    context: run_context(id, "capability-delete"@),
                    namespace: origin,
                    id: stored.record.id,
                },
            ),
        },
        ProgressView::ProbingPartial => RunActionView::ProbePartial(
            run_search("runtime"@, "partial"@, probe, "synthetic query"@),
        ),
        ProgressView::ProbingDeadline => {
            let request = run_search("runtime"@, "deadline"@, probe, "synthetic query"@);
            RunActionView::ProbeDeadline(
                SearchRequestView {
                    context: ContextView {
                        deadline: Some(later(now, DEADLINE_PROBE_MILLIS as nat)),
                        ..request.context
                    },
                    ..request
                },
            )
        },
        ProgressView::Finished => RunActionView::Finished,
    }
}

/// The bit pattern of one as an IEEE 754 double.
pub const ONE_BITS: u64 = 0x3ff0_0000_0000_0000;

/// The time that the operation of the deadline probe gets.
pub const DEADLINE_PROBE_MILLIS: u64 = 50;

impl ConformanceRun {
    /// Start a run. `run_id` must be unique for each run against a durable or shared backend.
    pub fn new(provider: &str, run_id: &str, capabilities: MemoryCapabilities) -> (r: Self)
        ensures
            r@ == fresh_run(provider@, run_id@, capabilities),
    {
        let mut report = ConformanceReport {
            provider: provider.to_owned(),
            run_id: run_id.to_owned(),
            cases: Vec::new(),
        };
        assert(case_views(report.cases@) =~= Seq::empty());
        if is_blank(run_id) {
            report.record("valid_run_id", Some("run_id must not be empty".to_owned()));
            let run = ConformanceRun { report, capabilities, progress: Progress::Finished };
            assert(run@.cases =~= fresh_run(provider@, run_id@, capabilities).cases);
            return run;
        }
        ConformanceRun { report, capabilities, progress: Progress::Seeding }
    }

    /// Tells whether the report is complete.
    pub fn is_finished(&self) -> (r: bool)
        ensures
            r == (self@.progress is Finished),
    {
        matches!(self.progress, Progress::Finished)
    }

    /// The report so far.
    pub fn into_report(self) -> (r: ConformanceReport)
        ensures
            r.provider@ == self@.provider,
            r.run_id@ == self@.run_id,
            case_views(r.cases@) == self@.cases,
    {
        self.report
    }

    /// The operation that the run asks for next, at an instant.
    pub fn next_action(&self, now: Timestamp) -> (r: ConformanceAction)
        requires
            representable(now, DEADLINE_PROBE_MILLIS as nat),
        ensures
            r@ == next_operation(self@, now),
    {
        let id = self.report.run_id.as_str();
        let query = "solarized editor preference";
        match &self.progress {
            Progress::Seeding => ConformanceAction::Store(self.seed_request()),
            Progress::Searching { .. } => ConformanceAction::Search(
                search_request(id, "required-search", self.cross_session(), query),
            ),
            Progress::Isolating { .. } => ConformanceAction::Search(
                search_request(
                    id,
                    "isolated-search",
                    namespace(id, "other-subject", "session-b", "assistant"),
                    query,
                ),
            ),
            Progress::Sorting { .. } => ConformanceAction::Search(
                search_request(id, "deterministic-search", self.cross_session(), query),
            ),
            Progress::Resorting { .. } => ConformanceAction::Search(
                search_request(id, "deterministic-search", self.cross_session(), query),
            ),
            Progress::Replaying { .. } => {
                let mut request = self.seed_request();
                request.context = context(id, "idempotent-replay");
                ConformanceAction::Store(request)
            },
            Progress::Conflicting { .. } => {
                let mut request = self.seed_request();
                request.context = context(id, "idempotent-conflict");
                request.content = MemoryContent::Text {
                    text: "different conformance payload".to_owned(),
                };
                ConformanceAction::Store(request)
            },
            Progress::Trying { stored, capability } => self.capability_action(
                &stored.record.id,
                *capability,
            ),
            Progress::ProbingPartial => ConformanceAction::ProbePartial(
                search_request(
                    "runtime",
                    "partial",
                    namespace("runtime", "subject", "session", "agent"),
                    "synthetic query",
                ),
            ),
            Progress::ProbingDeadline => {
                let mut request = search_request(
                    "runtime",
                    "deadline",
                    namespace("runtime", "subject", "session", "agent"),
                    "synthetic query",
                );
                request.context.deadline = Some(now.plus_millis(DEADLINE_PROBE_MILLIS));
                ConformanceAction::ProbeDeadline(request)
            },
            Progress::Finished => ConformanceAction::Finished,
        }
    }

    fn cross_session(&self) -> (r: MemoryNamespace)
        ensures
            r@ == run_namespace(self@.run_id, "subject"@, "session-b"@, "assistant"@),
    {
        namespace(self.report.run_id.as_str(), "subject", "session-b", "assistant")
    }

    fn origin(&self) -> (r: MemoryNamespace)
        ensures
            r@ == run_namespace(self@.run_id, "subject"@, "session-a"@, "assistant"@),
    {
        namespace(self.report.run_id.as_str(), "subject", "session-a", "assistant")
    }

    fn seed_request(&self) -> (r: MemoryStoreRequest)
        ensures
            r@ == seed_store(self@.run_id),
    {
        store_request(
            self.report.run_id.as_str(),
            "required-store",
            self.origin(),
            "conformance solarized editor preference",
            "required-store-key",
        )
    }

    fn capability_action(
        &self,
        record_id: &String,
        capability: Capability,
    ) -> (r: ConformanceAction)
        requires
            self@.progress matches ProgressView::Trying { stored, capability: tried }
                && stored.record.id == record_id@ && tried == capability,
        ensures
            forall|now: Timestamp| r@ == #[trigger] next_operation(self@, now),
    {
        let id = self.report.run_id.as_str();
        match capability {
            Capability::Update => ConformanceAction::Update(
                MemoryUpdateRequest {
                    context: context(id, "capability-update"),
                    namespace: self.origin(),
                    id: record_id.clone(),
                    content: None,
                    metadata: Some(JsonObject::new()),
                },
            ),
            Capability::BatchStore => {
                let requests: Vec<MemoryStoreRequest> = vec![
                    store_request(
                        id,
                        "capability-batch-item",
                        self.origin(),
                        "conformance batch item",
                        "capability-batch-key",
                    ),
                ];
                proof {
                    let item = run_store(
                        self@.run_id,
                        "capability-batch-item"@,
                        run_namespace(self@.run_id, "subject"@, "session-a"@, "assistant"@),
                        "conformance batch item"@,
                        "capability-batch-key"@,
                    );
                    assert(store_views(requests@) =~= seq![item]);
                }
                ConformanceAction::BatchStore(
                    MemoryBatchStoreRequest { context: context(id, "capability-batch"), requests },
                )
            },
            Capability::Maintenance => ConformanceAction::Maintain(
                MemoryMaintenanceRequest {
                    context: context(id, "capability-maintenance"),
                    namespace: self.origin(),
                    action: MemoryMaintenanceAction::Reflect,
                    window: None,
                    parameters: JsonObject::new(),
                },
            ),
            Capability::Feedback => ConformanceAction::Feedback(
                MemoryFeedbackRequest {
                    context: context(id, "capability-feedback"),
                    namespace: self.origin(),
                    id: record_id.clone(),
                    kind: MemoryFeedbackKind::Relevant,
                    confidence_bits: Some(ONE_BITS),
                    metadata: JsonObject::new(),
                },
            ),
            Capability::Health => ConformanceAction::Health(
                MemoryHealthRequest { context: context(id, "capability-health") },
            ),
            Capability::Delete => ConformanceAction::Delete(
                MemoryDeleteRequest {
                    context: context(id, "capability-delete"),
                    namespace: self.origin(),
                    id: record_id.clone(),
                },
            ),
        }
    }

    /// Go on with what the operation that the run asked for came to.
    pub fn advance(self, event: ConformanceEvent) -> (r: Self)
        ensures
            r@ == after_event(self@, event@),
    {
        let ConformanceRun { report, capabilities, progress } = self;
        let mut report = report;
        let progress = match (progress, event) {
            (Progress::Seeding, ConformanceEvent::Stored(result)) => {
                report.record("required_store", judge_store(&result));
                match result {
                    Ok(stored) => Progress::Searching { stored },
                    Err(_) => {
                        let reason = "required seed store failed";
                        report.record("required_search", Some(reason.to_owned()));
                        report.record("record_preservation", Some(reason.to_owned()));
                        report.record("subject_isolation_cross_session", Some(reason.to_owned()));
                        report.record("deterministic_order", Some(reason.to_owned()));
                        report.record("idempotency", Some(reason.to_owned()));
                        report.record("capability_agreement", Some(reason.to_owned()));
                        Progress::ProbingPartial
                    },
                }
            },
            (Progress::Searching { stored }, ConformanceEvent::Searched(found)) => {
                report.record("required_search", judge_search(&found));
                report.record("record_preservation", judge_preservation(&found, &stored));
                Progress::Isolating { stored, found }
            },
            (Progress::Isolating { stored, found }, ConformanceEvent::Searched(isolated)) => {
                report.record(
                    "subject_isolation_cross_session",
                    judge_isolation(&found, &isolated, &stored),
                );
                Progress::Sorting { stored }
            },
            (Progress::Sorting { stored }, ConformanceEvent::Searched(first)) => Progress::Resorting {
                stored,
                first,
            },
            (Progress::Resorting { stored, first }, ConformanceEvent::Searched(second)) => {
                report.record("deterministic_order", judge_order(&first, &second));
                Progress::Replaying { stored }
            },
            (Progress::Replaying { stored }, ConformanceEvent::Stored(replay)) => Progress::Conflicting {
                stored,
                replay,
            },
            (Progress::Conflicting { stored, replay }, ConformanceEvent::Stored(conflict)) => {
                report.record("idempotency", judge_idempotency(&replay, &conflict, &stored));
                Progress::Trying { stored, capability: Capability::Update }
            },
            (Progress::Trying { stored, capability }, ConformanceEvent::Answered(result)) => {
                let objection = agreement(
                    capability.name(),
                    capability.is_advertised(capabilities),
                    &result,
                );
                match (objection, capability.next()) {
                    (None, Some(next)) => Progress::Trying { stored, capability: next },
                    (objection, _) => {
                        report.record("capability_agreement", objection);
                        Progress::ProbingPartial
                    },
                }
            },
            (Progress::ProbingPartial, ConformanceEvent::Searched(found)) => {
                report.record("partial_result_preservation", judge_partial(&found));
                Progress::ProbingDeadline
            },
            (
                Progress::ProbingDeadline,
                ConformanceEvent::Expired { result, calls, dropped },
            ) => {
                report.record("deadline_cancellation", judge_deadline(&result, calls, dropped));
                Progress::Finished
            },
            (progress, _) => progress,
        };
        ConformanceRun { report, capabilities, progress }
    }
}

/// A run judges cases and takes none back.
pub proof fn cases_are_kept(run: RunView, event: EventView)
    ensures
        run.cases.is_prefix_of(after_event(run, event).cases),
        after_event(run, event).run_id == run.run_id,
        after_event(run, event).provider == run.provider,
{
    let next = after_event(run, event);
    assert(next.cases.take(run.cases.len() as int) =~= run.cases);
}

/// A finished run stays as it is.
pub proof fn finished_run_stays(run: RunView, event: EventView)
    requires
        run.progress is Finished,
    ensures
        after_event(run, event) == run,
{
}

/// How many cases a run has judged where it stands.
pub open spec fn judged_count(progress: ProgressView) -> nat {
    match progress {
        ProgressView::Seeding => 0,
        ProgressView::Searching { .. } => 1,
        ProgressView::Isolating { .. } => 3,
        ProgressView::Sorting { .. } => 4,
        ProgressView::Resorting { .. } => 4,
        ProgressView::Replaying { .. } => 5,
        ProgressView::Conflicting { .. } => 5,
        ProgressView::Trying { .. } => 6,
        ProgressView::ProbingPartial => 7,
        ProgressView::ProbingDeadline => 8,
        ProgressView::Finished => 9,
    }
}

/// A run with an identifier judges nine cases, whatever the provider does.
pub proof fn every_case_is_judged(run: RunView, event: EventView)
    requires
        run.cases.len() == judged_count(run.progress),
    ensures
        after_event(run, event).cases.len() == judged_count(after_event(run, event).progress),
{
}

/// The first match with an identifier: it has the identifier, and none before it does. There is none
/// exactly where no match has it.
pub proof fn matches_are_found_by_identifier(matches: Seq<MatchView>, id: Seq<char>)
    ensures
        match match_with(matches, id) {
            Some(item) => exists|at: int|
                0 <= at < matches.len() && #[trigger] matches[at] == item && item.record.id == id
                    && forall|i: int| 0 <= i < at ==> (#[trigger] matches[i]).record.id != id,
            None => forall|i: int|
                0 <= i < matches.len() ==> (#[trigger] matches[i]).record.id != id,
        },
    decreases matches.len(),
{
    if matches.len() > 0 {
        if matches[0].record.id == id {
            assert(matches[0] == match_with(matches, id)->0);
        } else {
            let rest = matches.drop_first();
            matches_are_found_by_identifier(rest, id);
            if match_with(matches, id) is Some {
                let item = match_with(matches, id)->0;
                let at = choose|at: int|
                    0 <= at < rest.len() && #[trigger] rest[at] == item && item.record.id == id
                        && forall|i: int| 0 <= i < at ==> (#[trigger] rest[i]).record.id != id;
                assert(matches[at + 1] == item);
                assert forall|i: int| 0 <= i < at + 1 implies (#[trigger] matches[i]).record.id
                    != id by {
                    if i > 0 {
                        assert(rest[i - 1] == matches[i]);
                    }
                }
            } else {
                assert forall|i: int| 0 <= i < matches.len() implies (
                #[trigger] matches[i]).record.id != id by {
                    if i > 0 {
                        assert(rest[i - 1] == matches[i]);
                    }
                }
            }
        }
    }
}

/// What a run demands of the first store and the search for it: the store creates its record, and
/// the search returns something, with that record unchanged under a rank and a score of its own.
pub proof fn storing_and_finding_are_demanded(
    stored: Result<StoreResultView, ErrorView>,
    found: Result<SearchResultView, ErrorView>,
    record: RecordView,
)
    ensures
        store_objection(stored) is None <==> (stored matches Ok(result) && result.disposition
            is Created),
        search_objection(found) is None <==> (found matches Ok(result) && result.matches.len() > 0),
        preservation_objection(found, record) is None <==> (found matches Ok(result) && match_with(
            result.matches,
            record.id,
        ) is Some && record_equal(match_with(result.matches, record.id)->0.record, record)
            && match_with(result.matches, record.id)->0.rank > 0 && positive_score(
            match_with(result.matches, record.id)->0.score,
        )),
        stored matches Err(error) ==> store_objection(stored) == Some(error.message),
        found matches Err(error) ==> search_objection(found) == Some(error.message)
            && preservation_objection(found, record) == Some(error.message),
{
}

/// What a run demands of isolation, order and caller keys: the record is found from another session
/// and by no other subject, a repeated search gives the same, a replay returns the record as
/// existing, and another payload under its key is a conflict.
pub proof fn isolation_order_and_keys_are_demanded(
    found: Result<SearchResultView, ErrorView>,
    isolated: Result<SearchResultView, ErrorView>,
    first: Result<SearchResultView, ErrorView>,
    second: Result<SearchResultView, ErrorView>,
    replay: Result<StoreResultView, ErrorView>,
    conflict: Result<StoreResultView, ErrorView>,
    record: RecordView,
)
    ensures
        isolation_objection(found, isolated, record) is None <==> (found matches Ok(result)
            && match_with(result.matches, record.id) is Some) && (isolated matches Ok(other)
            && other.matches.len() == 0),
        order_objection(first, second) is None <==> first is Ok && second is Ok && result_equal(
            first->Ok_0,
            second->Ok_0,
        ),
        idempotency_objection(replay, conflict, record) is None <==> (replay matches Ok(result)
            && result.disposition is Existing && record_equal(result.record, record)) && (
        conflict matches Err(error) && error.code is Conflict),
{
}

/// What a run demands of optional operations, of partial results and of deadlines: an operation is
/// refused as unsupported exactly where it is not advertised, a partial result comes back as it is,
/// and a blocking operation, started once, is given up at its deadline.
pub proof fn agreement_and_probes_are_demanded(
    capability: Seq<char>,
    advertised: bool,
    failure: Option<ErrorView>,
    found: Result<SearchResultView, ErrorView>,
    calls: nat,
    dropped: bool,
)
    ensures
        agreement_objection(capability, advertised, failure) is None <==> advertised != (
        failure matches Some(error) && error.code is Unsupported),
        partial_objection(found) is None <==> (found matches Ok(result) && result_equal(
            result,
            partial_result(),
        )),
        partial_result().matches.len() == 0,
        partial_result().partial_errors.len() == 1,
        deadline_objection(failure, calls, dropped) is None <==> (failure matches Some(error)
            && error.code is DeadlineExceeded) && calls == 1 && dropped,
{
}

/// Every optional operation is tried, each once, and compared with what is advertised of it.
pub proof fn every_capability_is_tried(capabilities: MemoryCapabilities)
    ensures
        tried_after(Capability::Update) == Some(Capability::BatchStore),
        tried_after(Capability::BatchStore) == Some(Capability::Maintenance),
        tried_after(Capability::Maintenance) == Some(Capability::Feedback),
        tried_after(Capability::Feedback) == Some(Capability::Health),
        tried_after(Capability::Health) == Some(Capability::Delete),
        tried_after(Capability::Delete) is None,
        advertised(capabilities, Capability::Update) == capabilities.update,
        advertised(capabilities, Capability::BatchStore) == capabilities.batch_store,
        advertised(capabilities, Capability::Maintenance) == capabilities.maintenance,
        advertised(capabilities, Capability::Feedback) == capabilities.feedback,
        advertised(capabilities, Capability::Health) == capabilities.health,
        advertised(capabilities, Capability::Delete) == capabilities.delete,
{
}

/// A case passed exactly where nothing is objected to, and keeps its name and its objection. The
/// failed cases of a report are those with an objection, in their order.
pub proof fn cases_fail_by_objection(
    name: Seq<char>,
    objection: Option<Seq<char>>,
    cases: Seq<CaseView>,
    case: CaseView,
)
    ensures
        case_of(name, objection).name == name,
        case_of(name, objection).passed == (objection is None),
        case_of(name, objection).message == objection,
        failed_cases(Seq::empty()).len() == 0,
        failed_cases(cases.push(case)) == if case.passed {
            failed_cases(cases)
        } else {
            failed_cases(cases).push(case)
        },
        all_passed(cases.push(case)) == (all_passed(cases) && case.passed),
{
    assert(cases.push(case).drop_last() =~= cases);
    let more = cases.push(case);
    if all_passed(more) {
        assert(more[cases.len() as int].passed);
        assert forall|i: int| 0 <= i < cases.len() implies (#[trigger] cases[i]).passed by {
            assert(more[i].passed);
        }
    }
}

/// A run starts with a store, or is over with one failed case where it has no identifier.
pub proof fn runs_start_with_a_store(
    provider: Seq<char>,
    run_id: Seq<char>,
    capabilities: MemoryCapabilities,
)
    ensures
        ({
            let run = fresh_run(provider, run_id, capabilities);
            &&& run.provider == provider
            &&& run.run_id == run_id
            &&& run.capabilities == capabilities
            &&& !blank(run_id) ==> run.cases.len() == 0 && run.progress is Seeding
            &&& blank(run_id) ==> run.cases.len() == 1 && !run.cases[0].passed && run.progress
                is Finished
        }),
{
}

/// A run stores a record for one subject in a tenant of its own, and looks for it from another
/// session of that subject, then by another subject, then twice in the same way. It repeats the
/// store under another operation, and then with another text under the same key.
pub proof fn runs_ask_what_they_judge(
    run: RunView,
    stored: StoreResultView,
    found: Result<SearchResultView, ErrorView>,
    replay: Result<StoreResultView, ErrorView>,
    now: Timestamp,
)
    ensures
        ({
            let id = run.run_id;
            let seed = seed_store(id);
            let at = |progress: ProgressView| next_operation(RunView { progress, ..run }, now);
            let search = at(ProgressView::Searching { stored });
            let isolated = at(ProgressView::Isolating { stored, found });
            let first = at(ProgressView::Sorting { stored });
            let second = at(ProgressView::Resorting { stored, first: found });
            let again = at(ProgressView::Replaying { stored });
            let other = at(ProgressView::Conflicting { stored, replay });
            &&& at(ProgressView::Seeding) == RunActionView::Store(seed)
            &&& seed.namespace.tenant_id == "conformance-"@ + id
            &&& seed.namespace.subject_id == "subject"@
            &&& seed.namespace.session_id == Some("session-a"@)
            &&& seed.idempotency_key is Some
            &&& seed.content == (ContentView::Text {
                text: "conformance solarized editor preference"@,
            })
            &&& search matches RunActionView::Search(request) && request.namespace.tenant_id
                == seed.namespace.tenant_id && request.namespace.subject_id
                == seed.namespace.subject_id && request.namespace.session_id == Some("session-b"@)
                && request.scope is Subject && request.query == "solarized editor preference"@
                && request.filter == no_filter()
            &&& isolated matches RunActionView::Search(request) && request.namespace.tenant_id
                == seed.namespace.tenant_id && request.namespace.subject_id == "other-subject"@
                && request.scope is Subject && request.query == "solarized editor preference"@
                && request.filter == no_filter()
            &&& first == second && first is Search
            &&& first->Search_0.query == search->Search_0.query && first->Search_0.namespace
                == search->Search_0.namespace
            &&& again matches RunActionView::Store(request) && request == (StoreRequestView {
                context: request.context,
                ..seed
            })
            &&& other matches RunActionView::Store(request) && request == (StoreRequestView {
                context: request.context,
                content: ContentView::Text { text: "different conformance payload"@ },
                ..seed
            })
        }),
{
}

/// A run goes on from each answer: it judges it under its name and remembers the record that the
/// later cases are about. After a failed first store only the probes are left.
pub proof fn runs_go_from_case_to_case(
    run: RunView,
    stored: StoreResultView,
    error: ErrorView,
    found: Result<SearchResultView, ErrorView>,
    other: Result<SearchResultView, ErrorView>,
    replay: Result<StoreResultView, ErrorView>,
    conflict: Result<StoreResultView, ErrorView>,
)
    ensures
        ({
            let at = |progress: ProgressView| RunView { progress, ..run };
            let after = |progress: ProgressView, event: EventView|
                after_event(RunView { progress, ..run }, event);
            &&& after(ProgressView::Seeding, EventView::Stored(Ok(stored))) == (RunView {
                progress: ProgressView::Searching { stored },
                cases: run.cases.push(case_of("required_store"@, store_objection(Ok(stored)))),
                ..run
            })
            &&& after(ProgressView::Seeding, EventView::Stored(Err(error))).progress
                is ProbingPartial
            &&& after(ProgressView::Seeding, EventView::Stored(Err(error))).cases.len()
                == run.cases.len() + 7
            &&& after(ProgressView::Searching { stored }, EventView::Searched(found)) == (RunView {
                progress: ProgressView::Isolating { stored, found },
                cases: run.cases.push(case_of("required_search"@, search_objection(found))).push(
                    case_of(
                        "record_preservation"@,
                        preservation_objection(found, stored.record),
                    ),
                ),
                ..run
            })
            &&& after(ProgressView::Isolating { stored, found }, EventView::Searched(other)) == (
            RunView {
                progress: ProgressView::Sorting { stored },
                cases: run.cases.push(
                    case_of(
                        "subject_isolation_cross_session"@,
                        isolation_objection(found, other, stored.record),
                    ),
                ),
                ..run
            })
            &&& after(ProgressView::Sorting { stored }, EventView::Searched(found)) == at(
                ProgressView::Resorting { stored, first: found },
            )
            &&& after(
                ProgressView::Resorting { stored, first: found },
                EventView::Searched(other),
            ) == (RunView {
                progress: ProgressView::Replaying { stored },
                cases: run.cases.push(
                    case_of("deterministic_order"@, order_objection(found, other)),
                ),
                ..run
            })
            &&& after(ProgressView::Replaying { stored }, EventView::Stored(replay)) == at(
                ProgressView::Conflicting { stored, replay },
            )
            &&& after(ProgressView::Conflicting { stored, replay }, EventView::Stored(conflict))
                == (RunView {
                progress: ProgressView::Trying { stored, capability: Capability::Update },
                cases: run.cases.push(
                    case_of("idempotency"@, idempotency_objection(replay, conflict, stored.record)),
                ),
                ..run
            })
            &&& after(ProgressView::ProbingPartial, EventView::Searched(found)) == (RunView {
                progress: ProgressView::ProbingDeadline,
                cases: run.cases.push(
                    case_of("partial_result_preservation"@, partial_objection(found)),
                ),
                ..run
            })
        }),
{
}

/// A run tries the optional operations in turn until one disagrees with what is advertised, and
/// judges them as one case.
pub proof fn runs_try_until_a_disagreement(
    run: RunView,
    stored: StoreResultView,
    capability: Capability,
    failure: Option<ErrorView>,
    calls: nat,
    dropped: bool,
)
    ensures
        ({
            let objection = agreement_objection(
                capability_name(capability),
                advertised(run.capabilities, capability),
                failure,
            );
            let next = after_event(
                RunView { progress: ProgressView::Trying { stored, capability }, ..run },
                EventView::Answered(failure),
            );
            &&& objection is None && tried_after(capability) is Some ==> next == (RunView {
                progress: ProgressView::Trying { stored, capability: tried_after(capability)->0 },
                ..run
            })
            &&& objection is Some || tried_after(capability) is None ==> next == (RunView {
                progress: ProgressView::ProbingPartial,
                cases: run.cases.push(case_of("capability_agreement"@, objection)),
                ..run
            })
        }),
        after_event(
            RunView { progress: ProgressView::ProbingDeadline, ..run },
            EventView::Expired { failure, calls, dropped },
        ) == (RunView {
            progress: ProgressView::Finished,
            cases: run.cases.push(
                case_of("deadline_cancellation"@, deadline_objection(failure, calls, dropped)),
            ),
            ..run
        }),
{
}

/// Optional operations are tried on the stored record, in its namespace, under names of their own.
pub proof fn optional_operations_are_tried_on_the_record(
    run: RunView,
    stored: StoreResultView,
    now: Timestamp,
)
    ensures
        ({
            let id = run.run_id;
            let origin = seed_store(id).namespace;
            let at = |capability: Capability|
                next_operation(
                    RunView { progress: ProgressView::Trying { stored, capability }, ..run },
                    now,
                );
            &&& at(Capability::Update) matches RunActionView::Update(request) && request.id
                == stored.record.id && request.namespace == origin && request.content is None
                && request.metadata == Some(no_members())
            &&& at(Capability::BatchStore) matches RunActionView::BatchStore(request)
                && request.requests.len() == 1 && request.requests[0].namespace == origin
            &&& at(Capability::Maintenance) matches RunActionView::Maintain(request)
                && request.namespace == origin && request.window is None
            &&& at(Capability::Feedback) matches RunActionView::Feedback(request) && request.id
                == stored.record.id && request.namespace == origin && request.kind is Relevant
            &&& at(Capability::Health) is Health
            &&& at(Capability::Delete) matches RunActionView::Delete(request) && request.id
                == stored.record.id && request.namespace == origin
            &&& next_operation(RunView { progress: ProgressView::Finished, ..run }, now) is Finished
        }),
{
}

/// The probes search under a namespace of their own, the last one with a deadline in the near future.
pub proof fn probes_have_their_own_namespace(run: RunView, now: Timestamp)
    ensures
        ({
            let partial = next_operation(
                RunView { progress: ProgressView::ProbingPartial, ..run },
                now,
            );
            let deadline = next_operation(
                RunView { progress: ProgressView::ProbingDeadline, ..run },
                now,
            );
            &&& partial matches RunActionView::ProbePartial(request) && request.context.deadline
                is None && request.namespace.tenant_id == "conformance-runtime"@ && request.limit
                == 10
            &&& deadline matches RunActionView::ProbeDeadline(request) && request.context.deadline
                == Some(later(now, 50)) && request.namespace.tenant_id == "conformance-runtime"@
        }),
{
    reveal_strlit("conformance-");
    reveal_strlit("runtime");
    reveal_strlit("conformance-runtime");
    assert("conformance-"@ + "runtime"@ =~= "conformance-runtime"@);
}

/// After a failed first store every case that needs it has failed.
pub proof fn unseeded_cases_have_failed(run: RunView, error: ErrorView, i: int)
    requires
        run.progress is Seeding,
        run.cases.len() <= i < run.cases.len() + 7,
    ensures
        !after_event(run, EventView::Stored(Err(error))).cases[i].passed,
{
}

/// Optional operations have names of their own, and the operations of a run carry its identifier.
pub proof fn operations_have_names(run_id: Seq<char>, operation: Seq<char>)
    ensures
        capability_name(Capability::Update) == "update"@,
        capability_name(Capability::BatchStore) == "batch_store"@,
        capability_name(Capability::Maintenance) == "maintenance"@,
        capability_name(Capability::Feedback) == "feedback"@,
        capability_name(Capability::Health) == "health"@,
        capability_name(Capability::Delete) == "delete"@,
        run_context(run_id, operation).operation_id == run_id + "-"@ + operation,
        run_context(run_id, operation).deadline is None,
{
}

} // verus!
