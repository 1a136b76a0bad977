//! Behavior of the deterministic in-memory reference provider.

use nemo_relay_memory::in_memory::tokenize;
use nemo_relay_memory::memory::{
    MemoryContent, MemoryErrorCode, MemoryFilter, MemoryNamespace, MemoryProvenance,
    MemoryRequestContext, MemorySearchRequest, MemorySearchScope, MemoryStoreDisposition,
    MemoryStoreRequest, Score,
};
use nemo_relay_memory::{InMemoryProvider, Json, JsonObject, Timestamp};

const NOW: Timestamp = Timestamp {
    seconds: 1_800_000_000,
    nanos: 0,
};

fn timestamp(value: &str) -> Timestamp {
    let parsed = chrono::DateTime::parse_from_rfc3339(value).expect("valid timestamp");
    Timestamp {
        seconds: parsed.timestamp(),
        nanos: parsed.timestamp_subsec_nanos(),
    }
}

fn namespace(tenant: &str, subject: &str, session: &str, agent: &str) -> MemoryNamespace {
    MemoryNamespace {
        tenant_id: tenant.to_string(),
        subject_id: subject.to_string(),
        session_id: Some(session.to_string()),
        agent_id: Some(agent.to_string()),
    }
}

fn store_request(
    operation: &str,
    namespace: MemoryNamespace,
    text: &str,
    event_timestamp: &str,
    idempotency_key: Option<&str>,
) -> MemoryStoreRequest {
    let mut metadata = JsonObject::new();
    metadata.insert("category", Json::text("preference"));
    MemoryStoreRequest {
        context: MemoryRequestContext::new(operation).unwrap(),
        namespace,
        content: MemoryContent::Text {
            text: text.to_string(),
        },
        event_timestamp: timestamp(event_timestamp),
        provenance: MemoryProvenance {
            source: "test".to_string(),
            source_ids: vec![format!("event-{operation}")],
            ..MemoryProvenance::default()
        },
        metadata,
        idempotency_key: idempotency_key.map(str::to_string),
    }
}

fn search_request(
    operation: &str,
    namespace: MemoryNamespace,
    query: &str,
    scope: MemorySearchScope,
) -> MemorySearchRequest {
    MemorySearchRequest {
        context: MemoryRequestContext::new(operation).unwrap(),
        namespace,
        query: query.to_string(),
        scope,
        filter: MemoryFilter::default(),
        limit: 10,
    }
}

#[test]
fn subject_scope_crosses_sessions_without_crossing_subject_or_tenant() {
    let mut provider = InMemoryProvider::new();
    let origin = namespace("tenant-a", "alex", "session-a", "assistant");
    let stored = provider
        .store(
            store_request(
                "store-preference",
                origin.clone(),
                "Alex prefers solarized dark editor theme",
                "2026-01-02T00:00:00Z",
                None,
            ),
            NOW,
        )
        .unwrap();

    let recalled = provider
        .search(&search_request(
            "search-session-b",
            namespace("tenant-a", "alex", "session-b", "assistant"),
            "solarized editor theme",
            MemorySearchScope::Subject,
        ))
        .unwrap();
    assert_eq!(recalled.matches.len(), 1);
    assert_eq!(recalled.matches[0].record.id, stored.record.id);
    assert_eq!(recalled.matches[0].record.namespace, origin);
    assert_eq!(recalled.matches[0].record, stored.record);

    for isolated in [
        namespace("tenant-a", "blair", "session-b", "assistant"),
        namespace("tenant-b", "alex", "session-b", "assistant"),
    ] {
        let result = provider
            .search(&search_request(
                "isolated-search",
                isolated,
                "solarized editor theme",
                MemorySearchScope::Subject,
            ))
            .unwrap();
        assert!(result.matches.is_empty());
    }
}

#[test]
fn agent_session_and_exact_scopes_only_narrow_the_subject_partition() {
    let mut provider = InMemoryProvider::new();
    for (operation, session, agent, text) in [
        ("one", "session-a", "assistant", "shared alpha fact"),
        ("two", "session-b", "assistant", "shared beta fact"),
        ("three", "session-a", "researcher", "shared gamma fact"),
    ] {
        provider
            .store(
                store_request(
                    operation,
                    namespace("tenant", "subject", session, agent),
                    text,
                    "2026-01-02T00:00:00Z",
                    None,
                ),
                NOW,
            )
            .unwrap();
    }

    let cases = [
        (MemorySearchScope::Subject, "session-z", "assistant", 3),
        (MemorySearchScope::Agent, "session-z", "assistant", 2),
        (MemorySearchScope::Session, "session-a", "assistant", 2),
        (MemorySearchScope::Exact, "session-a", "assistant", 1),
    ];
    for (scope, session, agent, expected) in cases {
        let result = provider
            .search(&search_request(
                "scope-search",
                namespace("tenant", "subject", session, agent),
                "shared fact",
                scope,
            ))
            .unwrap();
        assert_eq!(result.matches.len(), expected, "scope {scope:?}");
    }
}

#[test]
fn exact_scope_leaves_absent_identifiers_open() {
    let mut provider = InMemoryProvider::new();
    provider
        .store(
            store_request(
                "one",
                namespace("tenant", "subject", "session-a", "assistant"),
                "shared fact",
                "2026-01-02T00:00:00Z",
                None,
            ),
            NOW,
        )
        .unwrap();
    let open = MemoryNamespace::new("tenant", "subject").unwrap();
    let result = provider
        .search(&search_request(
            "exact",
            open,
            "fact",
            MemorySearchScope::Exact,
        ))
        .unwrap();
    assert_eq!(result.matches.len(), 1);
}

#[test]
fn ranking_ties_limits_and_filters_are_deterministic() {
    let mut provider = InMemoryProvider::new();
    let namespace = namespace("tenant", "subject", "session", "assistant");
    for (operation, text, time) in [
        ("first", "alpha beta", "2026-01-01T00:00:00Z"),
        ("second", "alpha gamma", "2026-01-02T00:00:00Z"),
        ("third", "alpha beta gamma", "2026-01-03T00:00:00Z"),
    ] {
        provider
            .store(
                store_request(operation, namespace.clone(), text, time, None),
                NOW,
            )
            .unwrap();
    }

    let mut request = search_request(
        "rank-search",
        namespace.clone(),
        "alpha beta gamma",
        MemorySearchScope::Subject,
    );
    request.limit = 2;
    let first = provider.search(&request).unwrap();
    let second = provider.search(&request).unwrap();
    assert_eq!(first, second);
    assert_eq!(first.matches.len(), 2);
    assert_eq!(first.matches[0].rank, 1);
    assert_eq!(
        first.matches[0].score,
        Score::Overlap {
            matched: 3,
            total: 3
        }
    );
    assert_eq!(first.matches[1].rank, 2);
    assert_eq!(first.matches[1].record.id, "memory-0000000000000001");

    let mut filtered = search_request(
        "filtered-search",
        namespace,
        "alpha",
        MemorySearchScope::Subject,
    );
    filtered.filter.event_after = Some(timestamp("2026-01-02T00:00:00Z"));
    filtered.filter.event_before = Some(timestamp("2026-01-02T00:00:00Z"));
    filtered
        .filter
        .metadata
        .insert("category", Json::text("preference"));
    let result = provider.search(&filtered).unwrap();
    assert_eq!(result.matches.len(), 1);
    assert_eq!(result.matches[0].record.id, "memory-0000000000000002");

    filtered
        .filter
        .metadata
        .insert("category", Json::text("other"));
    assert!(provider.search(&filtered).unwrap().matches.is_empty());
    filtered.filter.metadata = JsonObject::new();
    filtered.filter.ingested_after = Some(NOW.plus_millis(1));
    assert!(provider.search(&filtered).unwrap().matches.is_empty());
}

#[test]
fn idempotency_replays_original_and_conflicts_without_mutating() {
    let mut provider = InMemoryProvider::new();
    let namespace = namespace("tenant", "subject", "session", "assistant");
    let original = store_request(
        "store-original",
        namespace.clone(),
        "durable preference",
        "2026-01-01T00:00:00Z",
        Some("turn-1"),
    );
    let created = provider.store(original.clone(), NOW).unwrap();
    let replayed = provider.store(original, NOW.plus_millis(5)).unwrap();
    assert_eq!(created.disposition, MemoryStoreDisposition::Created);
    assert_eq!(replayed.disposition, MemoryStoreDisposition::Existing);
    assert_eq!(created.record, replayed.record);

    let conflict = provider
        .store(
            store_request(
                "store-conflict",
                namespace.clone(),
                "different preference",
                "2026-01-01T00:00:00Z",
                Some("turn-1"),
            ),
            NOW,
        )
        .expect_err("different payload must conflict");
    assert_eq!(conflict.code, MemoryErrorCode::Conflict);
    assert_eq!(conflict.operation_id.as_deref(), Some("store-conflict"));
    assert_eq!(conflict.provider.as_deref(), Some("in_memory"));
    assert!(!conflict.retryable);
    assert_eq!(
        conflict.message,
        "idempotency key was already used with a different memory payload"
    );

    let result = provider
        .search(&search_request(
            "search-after-conflict",
            namespace,
            "preference",
            MemorySearchScope::Subject,
        ))
        .unwrap();
    assert_eq!(result.matches.len(), 1);
    assert_eq!(result.matches[0].record.id, created.record.id);
}

#[test]
fn a_caller_key_is_scoped_by_its_namespace() {
    let mut provider = InMemoryProvider::new();
    let here = namespace("tenant", "subject", "session", "assistant");
    let there = namespace("tenant", "subject", "session-b", "assistant");
    let first = provider
        .store(
            store_request("one", here, "same", "2026-01-01T00:00:00Z", Some("key")),
            NOW,
        )
        .unwrap();
    let second = provider
        .store(
            store_request("one", there, "other", "2026-01-01T00:00:00Z", Some("key")),
            NOW,
        )
        .unwrap();
    assert_eq!(second.disposition, MemoryStoreDisposition::Created);
    assert_ne!(first.record.id, second.record.id);
}

#[test]
fn concurrent_stores_get_unique_monotonic_ids() {
    let mut provider = InMemoryProvider::new();
    let mut ids = Vec::new();
    for index in 0..32 {
        let tenant = if index % 2 == 0 { "tenant" } else { "other" };
        ids.push(
            provider
                .store(
                    store_request(
                        &format!("store-{index}"),
                        namespace(tenant, "subject", "session", "assistant"),
                        &format!("shared concurrent item {index}"),
                        "2026-01-01T00:00:00Z",
                        None,
                    ),
                    NOW,
                )
                .unwrap()
                .record
                .id,
        );
    }
    let in_order = ids.clone();
    ids.sort();
    assert_eq!(ids, in_order);
    ids.dedup();
    assert_eq!(ids.len(), 32);

    let mut request = search_request(
        "concurrent-search",
        namespace("tenant", "subject", "different", "assistant"),
        "concurrent item",
        MemorySearchScope::Subject,
    );
    request.limit = 100;
    let result = provider.search(&request).unwrap();
    assert_eq!(result.matches.len(), 16);
    assert!(result
        .matches
        .iter()
        .all(|memory_match| memory_match.record.namespace.tenant_id == "tenant"));
    assert_eq!(result.matches[0].rank, 1);
}

#[test]
fn invalid_requests_are_refused_unchanged() {
    let mut provider = InMemoryProvider::new();
    let place = namespace("tenant", "subject", "session", "assistant");
    let mut request = store_request("one", place.clone(), " ", "2026-01-01T00:00:00Z", None);
    let error = provider.store(request.clone(), NOW).unwrap_err();
    assert_eq!(error.code, MemoryErrorCode::InvalidRequest);
    request.content = MemoryContent::Json {
        value: Json::text("recalled"),
    };
    provider.store(request, NOW).unwrap();
    let mut search = search_request("two", place, "recalled", MemorySearchScope::Subject);
    let found = provider.search(&search).unwrap();
    assert_eq!(found.matches.len(), 1);
    assert_eq!(found.matches[0].record.id, "memory-0000000000000001");
    search.limit = 0;
    assert_eq!(
        provider.search(&search).unwrap_err().code,
        MemoryErrorCode::InvalidRequest
    );
}

#[test]
fn tokens_are_unique_lower_case_alphanumeric_words() {
    assert_eq!(
        tokenize("Alpha, beta-ALPHA; 42 straße ΜΆΪΟΣ \u{a0}x_y"),
        ["alpha", "beta", "42", "straße", "μάϊος", "x", "y"]
    );
    assert!(tokenize(" .,;! ").is_empty());
}

#[test]
fn structured_content_and_previews_are_searchable() {
    let mut provider = InMemoryProvider::new();
    let place = namespace("tenant", "subject", "session", "assistant");
    let mut request = store_request("one", place.clone(), "x", "2026-01-01T00:00:00Z", None);
    request.content = MemoryContent::Reference {
        reference: "object://hidden".to_string(),
        preview: Some("visible summary".to_string()),
    };
    provider.store(request, NOW).unwrap();
    let find = |query: &str| {
        provider
            .search(&search_request(
                "two",
                place.clone(),
                query,
                MemorySearchScope::Subject,
            ))
            .unwrap()
            .matches
            .len()
    };
    assert_eq!(find("summary"), 1);
    assert_eq!(find("hidden"), 0);
}

#[test]
fn a_caller_key_outlives_later_stores() {
    let mut provider = InMemoryProvider::new();
    let place = namespace("tenant", "subject", "session", "assistant");
    let keyed = store_request(
        "one",
        place.clone(),
        "kept",
        "2026-01-01T00:00:00Z",
        Some("key-1"),
    );
    let first = provider.store(keyed.clone(), NOW).unwrap();
    for index in 0..5 {
        provider
            .store(
                store_request(
                    &format!("other-{index}"),
                    place.clone(),
                    "other",
                    "2026-01-01T00:00:00Z",
                    Some(&format!("other-{index}")),
                ),
                NOW,
            )
            .unwrap();
    }
    let mut retried = keyed;
    retried.context.operation_id = "two".to_string();
    retried.context.deadline = Some(NOW.plus_millis(10));
    let again = provider.store(retried, NOW.plus_millis(1)).unwrap();
    assert_eq!(again.disposition, MemoryStoreDisposition::Existing);
    assert_eq!(again.record, first.record);
}

#[test]
fn a_conflict_leaves_the_key_to_its_first_payload() {
    let mut provider = InMemoryProvider::new();
    let place = namespace("tenant", "subject", "session", "assistant");
    let at = "2026-01-01T00:00:00Z";
    let known = store_request("one", place.clone(), "first", at, Some("key"));
    let created = provider.store(known.clone(), NOW).unwrap();
    provider
        .store(store_request("two", place, "second", at, Some("key")), NOW)
        .expect_err("different payload must conflict");
    let again = provider.store(known, NOW).unwrap();
    assert_eq!(again.disposition, MemoryStoreDisposition::Existing);
    assert_eq!(again.record, created.record);
}

#[test]
fn stores_of_others_leave_every_search() {
    let mut provider = InMemoryProvider::new();
    let place = namespace("tenant", "subject", "session", "assistant");
    let at = "2026-01-01T00:00:00Z";
    for (operation, text) in [("one", "blue green"), ("two", "green")] {
        provider
            .store(store_request(operation, place.clone(), text, at, None), NOW)
            .unwrap();
    }
    let request = search_request("three", place, "blue green", MemorySearchScope::Subject);
    let before = provider.search(&request).unwrap();
    assert_eq!(before.matches.len(), 2);
    for other in [
        namespace("tenant", "other", "session", "assistant"),
        namespace("other", "subject", "session", "assistant"),
    ] {
        provider
            .store(store_request("four", other, "blue green", at, None), NOW)
            .unwrap();
        assert_eq!(provider.search(&request).unwrap(), before);
    }
}

#[test]
fn words_ignore_case_and_join() {
    let sorted = |text: &str| {
        let mut words = tokenize(text);
        words.sort();
        words
    };
    assert_eq!(sorted("Dark MODE"), sorted("dark mode"));
    assert_eq!(sorted("dark mode; light"), ["dark", "light", "mode"]);
    assert_eq!(sorted("dark mode; "), ["dark", "mode"]);
}
