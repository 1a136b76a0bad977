//! Deterministic maintenance over the reference provider.

use nemo_relay_memory::maintainer::MaintenanceStep;
use nemo_relay_memory::memory::{
    MemoryContent, MemoryErrorCode, MemoryFilter, MemoryMaintenanceAction,
    MemoryMaintenanceRequest, MemoryMaintenanceResult, MemoryMaintenanceWindow, MemoryNamespace,
    MemoryOperationError, MemoryProvenance, MemoryRequestContext, MemorySearchRequest,
    MemorySearchScope, MemoryStoreRequest, MemoryStoreResult,
};
use nemo_relay_memory::{
    InMemoryProvider, Json, JsonObject, ReferenceMaintainer, Timestamp, REFERENCE_ARTIFACT_VERSION,
};
use serde_json::Value;

const NOW: Timestamp = Timestamp {
    seconds: 1_800_000_000,
    nanos: 0,
};

fn context(operation_id: &str) -> MemoryRequestContext {
    MemoryRequestContext::new(operation_id).expect("valid operation context")
}

fn namespace(subject: &str, session: &str) -> MemoryNamespace {
    MemoryNamespace {
        tenant_id: "tenant-a".to_string(),
        subject_id: subject.to_string(),
        session_id: Some(session.to_string()),
        agent_id: Some("agent-a".to_string()),
    }
}

fn seed(
    provider: &mut InMemoryProvider,
    operation_id: &str,
    namespace: MemoryNamespace,
    text: &str,
    seconds: i64,
) -> MemoryStoreResult {
    provider
        .store(
            MemoryStoreRequest {
                context: context(operation_id),
                namespace,
                content: MemoryContent::Text {
                    text: text.to_string(),
                },
                event_timestamp: Timestamp { seconds, nanos: 0 },
                provenance: MemoryProvenance {
                    source: "user".to_string(),
                    source_ids: vec![operation_id.to_string()],
                    parent_memory_ids: vec![],
                    metadata: JsonObject::new(),
                },
                metadata: JsonObject::new(),
                idempotency_key: Some(format!("seed:{operation_id}")),
            },
            NOW,
        )
        .expect("seed store succeeds")
}

fn maintenance_request(
    operation_id: &str,
    namespace: MemoryNamespace,
    query: &str,
) -> MemoryMaintenanceRequest {
    MemoryMaintenanceRequest {
        context: context(operation_id),
        namespace,
        action: MemoryMaintenanceAction::Consolidate,
        window: Some(MemoryMaintenanceWindow {
            checkpoint_id: "checkpoint-0002".to_string(),
            previous_checkpoint_id: Some("checkpoint-0001".to_string()),
            query: query.to_string(),
            scope: MemorySearchScope::Subject,
            filter: MemoryFilter::default(),
            limit: 10,
        }),
        parameters: JsonObject::new(),
    }
}

fn maintain(
    provider: &mut InMemoryProvider,
    request: MemoryMaintenanceRequest,
) -> Result<MemoryMaintenanceResult, MemoryOperationError> {
    let plan = ReferenceMaintainer.plan(request)?;
    match plan.go_on(provider.search(&plan.search_request()))? {
        MaintenanceStep::Finished(result) => Ok(result),
        MaintenanceStep::Store {
            request,
            partial_errors,
        } => {
            let stored = provider.store(request, NOW)?;
            Ok(ReferenceMaintainer.finish(stored, partial_errors))
        }
    }
}

fn object(members: Vec<(&str, Value)>) -> Value {
    Value::Object(
        members
            .into_iter()
            .map(|(key, value)| (key.to_string(), value))
            .collect(),
    )
}

fn text_content(text: &str) -> Value {
    object(vec![("kind", Value::from("text")), ("text", Value::from(text))])
}

#[test]
fn reference_maintainer_preserves_partition_parent_provenance_and_replay() {
    let mut provider = InMemoryProvider::new();
    let first = seed(
        &mut provider,
        "source-1",
        namespace("subject-a", "session-a"),
        "editor preference is solarized dark",
        20,
    );
    let second = seed(
        &mut provider,
        "source-2",
        namespace("subject-a", "session-b"),
        "editor preference includes a larger font",
        10,
    );
    seed(
        &mut provider,
        "source-other-subject",
        namespace("subject-b", "session-c"),
        "editor preference is a light theme",
        30,
    );
    let request = maintenance_request(
        "maintain-1",
        namespace("subject-a", "session-derived"),
        "editor preference",
    );

    let result = maintain(&mut provider, request.clone()).expect("maintenance succeeds");
    assert_eq!(result.records.len(), 1);
    assert!(result.partial_errors.is_empty());
    let derived = &result.records[0];
    assert_eq!(derived.namespace.tenant_id, "tenant-a");
    assert_eq!(derived.namespace.subject_id, "subject-a");
    assert_eq!(
        derived.namespace.session_id.as_deref(),
        Some("session-derived")
    );
    assert_eq!(derived.provenance.source, "maintenance");
    assert_eq!(derived.provenance.source_ids, ["checkpoint-0002"]);
    assert_eq!(
        derived.provenance.parent_memory_ids,
        [first.record.id.clone(), second.record.id.clone()]
    );
    assert_eq!(derived.event_timestamp.seconds, 20);
    assert_eq!(
        derived.provenance.metadata.get("artifact_version"),
        Some(Json::text(REFERENCE_ARTIFACT_VERSION))
    );
    assert_eq!(
        derived.provenance.metadata.get("previous_checkpoint_id"),
        Some(Json::text("checkpoint-0001"))
    );
    assert_eq!(
        derived.metadata.get("relay_derived"),
        Some(Json::boolean(true))
    );
    let source = |record: &str, text: &str| {
        object(vec![
            ("memory_id", Value::from(record)),
            ("content", text_content(text)),
        ])
    };
    let artifact = object(vec![
        ("kind", Value::from("derived_memory")),
        ("artifact_version", Value::from(REFERENCE_ARTIFACT_VERSION)),
        ("maintainer", Value::from("reference")),
        ("action", Value::from("consolidate")),
        ("checkpoint_id", Value::from("checkpoint-0002")),
        (
            "sources",
            Value::Array(vec![
                source(&first.record.id, "editor preference is solarized dark"),
                source(
                    &second.record.id,
                    "editor preference includes a larger font",
                ),
            ]),
        ),
    ]);
    assert_eq!(
        derived.content,
        MemoryContent::Json {
            value: Json { value: artifact },
        }
    );

    let replay = maintain(&mut provider, request).expect("maintenance replay succeeds");
    assert_eq!(replay.records, result.records);

    let stored = provider
        .search(&MemorySearchRequest {
            context: context("verify-derived"),
            namespace: namespace("subject-a", "session-derived"),
            query: "derived memory solarized".to_string(),
            scope: MemorySearchScope::Exact,
            filter: MemoryFilter::default(),
            limit: 10,
        })
        .expect("verification search succeeds");
    assert_eq!(
        stored
            .matches
            .iter()
            .filter(|item| item.record.provenance.source == "maintenance")
            .count(),
        1
    );
}

#[test]
fn empty_window_and_missing_window_do_not_fabricate_records() {
    let mut provider = InMemoryProvider::new();
    let empty = maintain(
        &mut provider,
        maintenance_request(
            "maintain-empty",
            namespace("subject-a", "session-a"),
            "nothing matches",
        ),
    )
    .expect("an empty source window is a valid outcome");
    assert!(empty.records.is_empty());

    let mut missing = maintenance_request(
        "maintain-missing-window",
        namespace("subject-a", "session-a"),
        "unused",
    );
    missing.window = None;
    let error = maintain(&mut provider, missing)
        .expect_err("reference maintenance requires a window");
    assert_eq!(error.code, MemoryErrorCode::InvalidRequest);
    assert_eq!(error.provider.as_deref(), Some("reference"));
    assert_eq!(
        error.operation_id.as_deref(),
        Some("maintain-missing-window")
    );
}

#[test]
fn maintenance_searches_and_stores_under_its_own_operations() {
    let plan = ReferenceMaintainer
        .plan(maintenance_request(
            "maintain-failure",
            namespace("subject-a", "session-a"),
            "editor preference",
        ))
        .expect("valid plan");
    let search = plan.search_request();
    assert_eq!(search.context.operation_id, "maintain-failure:search");
    assert_eq!(search.limit, 10);

    let mut provider = InMemoryProvider::new();
    seed(
        &mut provider,
        "source",
        namespace("subject-a", "session-a"),
        "editor preference",
        1,
    );
    let found = provider.search(&search).expect("search succeeds");
    match plan.derive(found) {
        MaintenanceStep::Store { request, .. } => {
            assert_eq!(request.context.operation_id, "maintain-failure:store");
            assert_eq!(
                request.idempotency_key.as_deref(),
                Some("maintenance:reference:consolidate:checkpoint-0002:0.1")
            );
        }
        MaintenanceStep::Finished(_) => panic!("a source must be derived from"),
    }
}

#[test]
fn derived_records_are_never_sources() {
    let mut provider = InMemoryProvider::new();
    let place = namespace("subject-a", "session-a");
    seed(&mut provider, "source", place.clone(), "editor preference", 1);
    let mut request = maintenance_request("one", place, "editor preference");
    maintain(&mut provider, request.clone()).expect("first derivation");
    let window = request.window.as_mut().expect("window is present");
    window.checkpoint_id = "checkpoint-0003".to_string();
    let second = maintain(&mut provider, request).expect("second derivation");
    assert_eq!(
        second.records[0].provenance.parent_memory_ids,
        ["memory-0000000000000001"]
    );
}

#[test]
fn maintenance_is_replayed_where_its_output_ranks_first() {
    let mut provider = InMemoryProvider::new();
    let place = namespace("subject-a", "session-a");
    seed(&mut provider, "one", place.clone(), "editor font", 1);
    seed(&mut provider, "two", place.clone(), "editor theme", 2);
    let query = "editor font theme sources";
    let first = maintain(
        &mut provider,
        maintenance_request("first", place.clone(), query),
    )
    .expect("first derivation");
    let derived = &first.records[0];

    let again = maintenance_request("second", place.clone(), query);
    let plan = ReferenceMaintainer.plan(again.clone()).expect("valid plan");
    let found = provider.search(&plan.search_request()).expect("search");
    assert_eq!(found.matches.len(), 3);
    assert_eq!(found.matches[0].record.id, derived.id);

    let second = maintain(&mut provider, again).expect("second derivation");
    assert_eq!(second.records, first.records);
    let plan = ReferenceMaintainer
        .plan(maintenance_request("third", place, query))
        .expect("valid plan");
    let found = provider.search(&plan.search_request()).expect("search");
    assert_eq!(found.matches.len(), 3);
}

#[test]
fn source_search_failure_is_preserved_without_a_partial_artifact() {
    let plan = ReferenceMaintainer
        .plan(maintenance_request(
            "maintain-failure",
            namespace("subject-a", "session-a"),
            "editor preference",
        ))
        .expect("valid plan");
    let request = plan.search_request();
    let failure = MemoryOperationError::new(
        MemoryErrorCode::ProviderUnavailable,
        "source index unavailable",
        true,
    )
    .with_operation_id(&request.context.operation_id)
    .with_provider("failing_search");
    let error = plan
        .go_on(Err(failure.clone()))
        .expect_err("source failure must propagate");

    assert_eq!(error.code, MemoryErrorCode::ProviderUnavailable);
    assert!(error.retryable);
    assert_eq!(error.provider.as_deref(), Some("failing_search"));
    assert_eq!(
        error.operation_id.as_deref(),
        Some("maintain-failure:search")
    );
    assert_eq!(error, failure);
}
