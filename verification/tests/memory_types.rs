//! Validation of the provider-neutral memory data.

use chrono::{DateTime, TimeZone, Utc};
use nemo_relay_memory::equality::same_score;
use nemo_relay_memory::memory::{
    MemoryBatchStoreRequest, MemoryBatchStoreResult, MemoryContent, MemoryDeleteResult,
    MemoryErrorCode, MemoryFilter, MemoryHealthResult, MemoryMaintenanceAction,
    MemoryMaintenanceRequest, MemoryMaintenanceResult, MemoryMaintenanceWindow, MemoryNamespace,
    MemoryOperationError, MemoryProvenance, MemoryRequestContext, MemorySearchRequest,
    MemorySearchResult, MemorySearchScope, MemoryStoreRequest, MemoryUpdateRequest, Score,
    MAX_SEARCH_LIMIT,
};
use nemo_relay_memory::wire::maintenance_request_json;
use nemo_relay_memory::{
    Json, JsonObject, MemoryWorkOutcome, MemoryWorkReceipt, ReferenceMaintainer, Timestamp,
};

fn timestamp(value: DateTime<Utc>) -> Timestamp {
    Timestamp {
        seconds: value.timestamp(),
        nanos: value.timestamp_subsec_nanos(),
    }
}

#[test]
fn namespace_rejects_empty_required_and_optional_identifiers() {
    let error = MemoryNamespace::new("", "subject").expect_err("tenant is required");
    assert_eq!(error.code, MemoryErrorCode::InvalidRequest);
    assert_eq!(error.message, "tenant_id must not be empty");

    let error = MemoryNamespace::new("tenant", " ").expect_err("subject is required");
    assert_eq!(error.code, MemoryErrorCode::InvalidRequest);
    assert_eq!(error.message, "subject_id must not be empty");

    let namespace = MemoryNamespace {
        tenant_id: "tenant".into(),
        subject_id: "subject".into(),
        session_id: Some("".into()),
        agent_id: None,
    };
    assert_eq!(
        namespace
            .validate()
            .expect_err("empty session is invalid")
            .code,
        MemoryErrorCode::InvalidRequest
    );
}

#[test]
fn identifiers_of_unicode_white_space_are_empty() {
    let blank = "\u{a0}\u{2003}\t\u{3000}\n\u{85}";
    let error = MemoryNamespace::new(blank, "subject").expect_err("tenant is blank");
    assert_eq!(error.message, "tenant_id must not be empty");
    assert!(MemoryNamespace::new("\u{200b}", "subject").is_ok());
}

#[test]
fn narrow_search_scopes_require_their_namespace_identifier() {
    let namespace = MemoryNamespace::new("tenant", "subject").expect("valid namespace");
    assert!(MemorySearchScope::Subject.validate(&namespace).is_ok());
    assert!(MemorySearchScope::Exact.validate(&namespace).is_ok());
    assert_eq!(
        MemorySearchScope::Agent
            .validate(&namespace)
            .expect_err("agent scope needs an agent")
            .code,
        MemoryErrorCode::InvalidRequest
    );
    assert_eq!(
        MemorySearchScope::Session
            .validate(&namespace)
            .expect_err("session scope needs a session")
            .code,
        MemoryErrorCode::InvalidRequest
    );
}

#[test]
fn search_validates_query_limit_and_filter_ranges() {
    let context = MemoryRequestContext::new("search").expect("valid context");
    let namespace = MemoryNamespace::new("tenant", "subject").expect("valid namespace");
    let mut request =
        MemorySearchRequest::new(context, namespace, "preference").expect("valid request");

    request.limit = 0;
    assert_eq!(
        request.validate().expect_err("zero limit is invalid").code,
        MemoryErrorCode::InvalidRequest
    );
    request.limit = MAX_SEARCH_LIMIT + 1;
    let error = request.validate().expect_err("oversized limit is invalid");
    assert_eq!(error.code, MemoryErrorCode::InvalidRequest);
    assert_eq!(error.message, "memory search limit must be in 1..=1000");

    request.limit = 1;
    request.query = " ".into();
    assert_eq!(
        request.validate().expect_err("empty query is invalid").code,
        MemoryErrorCode::InvalidRequest
    );

    request.query = "preference".into();
    request.filter = MemoryFilter {
        event_after: Some(timestamp(Utc.with_ymd_and_hms(2026, 2, 1, 0, 0, 0).unwrap())),
        event_before: Some(timestamp(Utc.with_ymd_and_hms(2026, 1, 1, 0, 0, 0).unwrap())),
        ..MemoryFilter::default()
    };
    let error = request
        .validate()
        .expect_err("reversed event range is invalid");
    assert_eq!(error.code, MemoryErrorCode::InvalidRequest);
    assert_eq!(
        error.message,
        "event_after must not be later than event_before"
    );
}

#[test]
fn content_and_provenance_validate_required_text() {
    assert_eq!(
        MemoryContent::Text { text: "".into() }
            .validate()
            .expect_err("empty text is invalid")
            .code,
        MemoryErrorCode::InvalidRequest
    );
    assert_eq!(
        MemoryContent::Reference {
            reference: " ".into(),
            preview: None,
        }
        .validate()
        .expect_err("empty reference is invalid")
        .code,
        MemoryErrorCode::InvalidRequest
    );
    assert_eq!(
        MemoryProvenance::default()
            .validate()
            .expect_err("source is required")
            .code,
        MemoryErrorCode::InvalidRequest
    );
}

#[test]
fn store_request_validates_the_optional_caller_key() {
    let mut request = MemoryStoreRequest {
        context: MemoryRequestContext::new("store").expect("valid context"),
        namespace: MemoryNamespace::new("tenant", "subject").expect("valid namespace"),
        content: MemoryContent::Text { text: "fact".into() },
        event_timestamp: Timestamp { seconds: 0, nanos: 0 },
        provenance: MemoryProvenance {
            source: "user".into(),
            ..MemoryProvenance::default()
        },
        metadata: JsonObject::new(),
        idempotency_key: None,
    };
    assert!(request.validate().is_ok());
    request.idempotency_key = Some("  ".into());
    assert_eq!(
        request.validate().expect_err("blank key is invalid").message,
        "idempotency_key must not be empty"
    );
}

#[test]
fn maintenance_window_round_trips_and_validates_bounds() {
    let namespace = MemoryNamespace {
        tenant_id: "tenant".into(),
        subject_id: "subject".into(),
        session_id: Some("session".into()),
        agent_id: None,
    };
    let mut request = MemoryMaintenanceRequest {
        context: MemoryRequestContext::new("maintenance-1").expect("valid context"),
        namespace,
        action: MemoryMaintenanceAction::Consolidate,
        window: Some(MemoryMaintenanceWindow {
            checkpoint_id: "checkpoint-2".into(),
            previous_checkpoint_id: Some("checkpoint-1".into()),
            query: "shared project preferences".into(),
            scope: MemorySearchScope::Session,
            filter: MemoryFilter::default(),
            limit: 25,
        }),
        parameters: Default::default(),
    };

    request.validate().expect("valid maintenance request");
    let encoded: serde_json::Value = serde_json::from_str(
        "[[\"maintenance-1\",null],[\"tenant\",\"subject\",\"session\",null],\"consolidate\",[\"checkpoint-2\",\"checkpoint-1\",\"shared project preferences\",\"session\",[{},null,null,null,null],\"25\"],{}]",
    )
    .expect("valid JSON");
    assert_eq!(maintenance_request_json(&request).value, encoded);

    let window = request.window.as_mut().expect("window is present");
    window.previous_checkpoint_id = Some("checkpoint-2".into());
    assert_eq!(
        request
            .validate()
            .expect_err("a checkpoint cannot advance from itself")
            .code,
        MemoryErrorCode::InvalidRequest
    );

    let window = request.window.as_mut().expect("window is present");
    window.previous_checkpoint_id = None;
    window.limit = MAX_SEARCH_LIMIT + 1;
    assert_eq!(
        request
            .validate()
            .expect_err("an oversized window is invalid")
            .code,
        MemoryErrorCode::InvalidRequest
    );

    let window = request.window.as_mut().expect("window is present");
    window.limit = 1;
    window.query.clear();
    assert_eq!(
        request
            .validate()
            .expect_err("an empty window query is invalid")
            .code,
        MemoryErrorCode::InvalidRequest
    );

    request.window = None;
    request.validate().expect("a window is optional");
}

#[test]
fn error_helpers_keep_stable_wire_codes() {
    let errors = [
        MemoryOperationError::invalid_request("bad request"),
        MemoryOperationError::unsupported("update"),
        MemoryOperationError::deadline_exceeded("late"),
        MemoryOperationError::conflict("duplicate"),
    ];
    let codes: Vec<_> = errors.iter().map(|error| error.code.name()).collect();
    assert_eq!(
        codes,
        [
            "invalid_request",
            "unsupported",
            "deadline_exceeded",
            "conflict"
        ]
    );
    assert_eq!(
        errors[1].message,
        "memory provider does not support update"
    );
    assert!(errors[2].retryable);
    assert!(!errors[3].retryable);
    assert_eq!(MemoryErrorCode::Cancelled.name(), "cancelled");
    assert_eq!(
        MemoryErrorCode::ProviderUnavailable.name(),
        "provider_unavailable"
    );
    assert_eq!(MemoryErrorCode::Internal.name(), "internal");
}

#[test]
fn errors_carry_their_operation_and_provider() {
    let error = MemoryOperationError::conflict("duplicate")
        .with_operation_id("operation-1")
        .with_provider("in_memory");
    assert_eq!(error.operation_id.as_deref(), Some("operation-1"));
    assert_eq!(error.provider.as_deref(), Some("in_memory"));
    assert_eq!(error.to_text(), "duplicate");
}

#[test]
fn positive_scores_are_told_apart_by_bit_pattern() {
    for positive in [1.0f64, f64::MIN_POSITIVE, f64::INFINITY, 5e-324] {
        assert!(Score::Double {
            bits: positive.to_bits()
        }
        .is_positive());
    }
    for other in [0.0f64, -0.0, -1.0, f64::NAN, f64::NEG_INFINITY] {
        assert!(!Score::Double {
            bits: other.to_bits()
        }
        .is_positive());
    }
    assert!(Score::Overlap {
        matched: 1,
        total: 3
    }
    .is_positive());
    assert!(!Score::Overlap {
        matched: 0,
        total: 3
    }
    .is_positive());
}

#[test]
fn timestamps_agree_with_the_calendar() {
    let noon = Utc.with_ymd_and_hms(2026, 6, 29, 12, 0, 0).unwrap();
    let later = timestamp(noon).plus_millis(1_500);
    assert_eq!(later, timestamp(noon + chrono::Duration::milliseconds(1_500)));
    assert!(timestamp(noon).is_before(&later));
    assert!(!later.is_before(&later));
    let before_epoch = Utc.with_ymd_and_hms(1969, 12, 31, 23, 59, 59).unwrap();
    assert_eq!(
        timestamp(before_epoch).plus_millis(2_250),
        timestamp(before_epoch + chrono::Duration::milliseconds(2_250))
    );
}

#[test]
fn scores_are_compared_as_fractions() {
    let overlap = |matched: usize, total: usize| Score::Overlap { matched, total };
    assert!(same_score(overlap(1, 2), overlap(2, 4)));
    assert!(same_score(overlap(3, 3), overlap(1, 1)));
    assert!(same_score(overlap(0, 0), overlap(0, 7)));
    assert!(same_score(overlap(usize::MAX, usize::MAX), overlap(1, 1)));
    assert!(!same_score(overlap(1, 2), overlap(2, 3)));
    assert!(!same_score(overlap(1, 1), overlap(0, 0)));
}

#[test]
fn fractions_and_doubles_are_compared_as_doubles() {
    let overlap = |matched: usize, total: usize| Score::Overlap { matched, total };
    let double = |value: f64| Score::Double {
        bits: value.to_bits(),
    };
    assert!(same_score(overlap(1, 1), double(1.0)));
    assert!(same_score(double(0.5), overlap(2, 4)));
    assert!(same_score(overlap(1, 3), double(1.0 / 3.0)));
    assert!(same_score(overlap(0, 3), double(-0.0)));
    assert!(!same_score(overlap(1, 3), double(0.333)));
    assert!(!same_score(overlap(1, 1), double(f64::NAN)));
    assert!(!same_score(double(f64::NAN), double(f64::NAN)));
    assert!(same_score(double(f64::INFINITY), double(f64::INFINITY)));
}

#[test]
fn fractions_are_rounded_as_doubles_are() {
    let exact = 1u64 << 53;
    let counts: Vec<u64> = (1..40)
        .chain([
            1_000,
            1_234_567,
            exact - 1,
            exact,
            exact + 1,
            exact + 2,
            exact + 3,
            (1 << 60) + (1 << 7),
            (1 << 60) + (3 << 7),
            u64::MAX - 1,
            u64::MAX,
        ])
        .collect();
    for &matched in &counts {
        for &total in &counts {
            let score = Score::Overlap {
                matched: matched as usize,
                total: total as usize,
            };
            let expected = matched as f64 / total as f64;
            assert_eq!(score.bits(), expected.to_bits(), "{matched} / {total}");
        }
    }
    for (matched, total) in [(0, 0), (0, 5), (5, 0)] {
        assert_eq!(Score::Overlap { matched, total }.bits(), 0);
    }
}

#[test]
fn json_equality_ignores_the_sign_of_zero_at_any_depth() {
    let json = |text: &str| Json {
        value: serde_json::from_str(text).unwrap(),
    };
    assert!(json("[0.0,{\"a\":-0.0}]").same(&json("[-0.0,{\"a\":0.0}]")));
    assert!(!json("[0]").same(&json("[0.0]")));
    assert!(!json("{\"a\":1.5}").same(&json("{\"a\":2.5}")));
    assert!(!json("{\"a\":1}").same(&json("{\"a\":1,\"b\":2}")));
}

#[test]
fn clones_are_equal_and_defaults_are_empty() {
    let failure = MemoryOperationError::invalid_request("bad");
    let mut found = MemorySearchResult::default();
    assert!(found.matches.is_empty() && found.partial_errors.is_empty());
    found.partial_errors.push(failure.clone());
    assert_eq!(found.clone(), found);

    let mut stored = MemoryBatchStoreResult::default();
    assert!(stored.results.is_empty() && stored.partial_errors.is_empty());
    stored.partial_errors.push(failure.clone());
    assert_eq!(stored.clone(), stored);

    let mut derived = MemoryMaintenanceResult::default();
    assert!(derived.job_id.is_none() && derived.records.is_empty());
    derived.job_id = Some("job".into());
    derived.partial_errors.push(failure);
    assert_eq!(derived.clone(), derived);

    let outcome = MemoryWorkOutcome::default();
    assert!(outcome.memory_ids.is_empty() && outcome.disposition.is_none());
    assert_eq!(outcome.partial_error_count, 0);
    assert_eq!(ReferenceMaintainer::default().name(), "reference");

    let deleted = MemoryDeleteResult {
        id: "memory-1".into(),
        deleted: true,
    };
    assert_eq!(deleted.clone(), deleted);
    let health = MemoryHealthResult {
        healthy: false,
        message: Some("down".into()),
    };
    assert_eq!(health.clone(), health);
    let receipt = MemoryWorkReceipt {
        job_id: "job".into(),
        sequence: 3,
        state: nemo_relay_memory::MemoryJobState::Queued,
    };
    assert_eq!(receipt.clone(), receipt);
    let update = MemoryUpdateRequest {
        context: MemoryRequestContext::new("update").expect("valid context"),
        namespace: MemoryNamespace::new("tenant", "subject").expect("valid namespace"),
        id: "memory-1".into(),
        content: Some(MemoryContent::Text { text: "x".into() }),
        metadata: Some(JsonObject::new()),
    };
    assert_eq!(update.clone(), update);
    let batch = MemoryBatchStoreRequest {
        context: MemoryRequestContext::new("batch").expect("valid context"),
        requests: vec![],
    };
    assert_eq!(batch.clone(), batch);
}
