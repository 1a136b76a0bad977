//! Automatic memory around managed calls: recall, injection, write-back and evidence.

use nemo_relay_memory::automatic::{
    escape_tag_delimiters, estimated_tokens, original_user_text, render_memory_block,
    select_matches, strip_memory_block, ContentPart, Message, MessageContent,
};
use nemo_relay_memory::component::{CallOutcome, CompleteAction, PrepareStep, RecallStep};
use nemo_relay_memory::evidence::{
    error_evidence, item_evidence, namespace_reference, ErrorEvidence, ItemEvidence, OperationData,
    OperationEvidence,
};
use nemo_relay_memory::memory::{
    MemoryContent, MemoryErrorCode, MemoryFilter, MemoryMatch, MemoryNamespace,
    MemoryOperationError, MemoryProvenance, MemoryRequestContext, MemorySearchRequest,
    MemorySearchScope, MemoryStoreDisposition, MemoryStoreRequest, MemoryStoreResult, Score,
};
use nemo_relay_memory::metadata::{
    declared_namespace, metadata_layers, resolve_enabled, FlowError,
};
use nemo_relay_memory::prompt::{user_message_blocks, ProvenanceLabel};
use nemo_relay_memory::work::WorkPayload;
use nemo_relay_memory::work_queue::{AttemptStep, SubmitStep, WorkItem};
use nemo_relay_memory::{
    AutomaticMemoryConfig, FailurePolicy, InMemoryProvider, Json, JsonObject, MemoryComponent,
    MemoryJobState, MemoryWorkOutcome, MemoryWorkQueue, MemoryWorkQueueConfig,
    MemoryWorkTransition, Timestamp, WriteDelivery, WriteProjection,
};
use serde_json::Value;

const NOW: Timestamp = Timestamp {
    seconds: 1_800_000_000,
    nanos: 0,
};

fn namespace(tenant: &str, subject: &str, session: &str) -> MemoryNamespace {
    MemoryNamespace {
        tenant_id: tenant.to_string(),
        subject_id: subject.to_string(),
        session_id: Some(session.to_string()),
        agent_id: Some("assistant".to_string()),
    }
}

fn json(text: &str) -> Json {
    Json {
        value: serde_json::from_str(text).expect("valid JSON"),
    }
}

fn memory_metadata(namespace: &MemoryNamespace) -> Json {
    json(&format!(
        "{{\"memory\":{{\"namespace\":{{\"tenant_id\":\"{}\",\"subject_id\":\"{}\",\"session_id\":\"{}\",\"agent_id\":\"{}\"}}}}}}",
        namespace.tenant_id,
        namespace.subject_id,
        namespace.session_id.as_deref().unwrap_or_default(),
        namespace.agent_id.as_deref().unwrap_or_default(),
    ))
}

fn decode(value: &Json) -> Result<MemoryNamespace, String> {
    let text = |key: &str| {
        value
            .value
            .get(key)
            .and_then(Value::as_str)
            .map(str::to_string)
    };
    Ok(MemoryNamespace {
        tenant_id: text("tenant_id").ok_or("missing field `tenant_id`")?,
        subject_id: text("subject_id").ok_or("missing field `subject_id`")?,
        session_id: text("session_id"),
        agent_id: text("agent_id"),
    })
}

fn user_message(text: &str) -> Vec<Message> {
    vec![
        Message::Other,
        Message::User {
            content: MessageContent::Text(text.to_string()),
        },
    ]
}

fn provider_failure(stage: &str) -> MemoryOperationError {
    MemoryOperationError::new(
        MemoryErrorCode::ProviderUnavailable,
        &format!("synthetic {stage} failure"),
        true,
    )
    .with_provider("controlled")
}

/// A managed call runner over one component and one provider.
struct Host {
    component: MemoryComponent,
    provider: InMemoryProvider,
    queue: Option<MemoryWorkQueue>,
    pending: Vec<(String, MemoryNamespace, WorkItem)>,
    fail_search: bool,
    fail_store: bool,
    callbacks: usize,
    seen: Vec<String>,
    evidence: Vec<OperationEvidence>,
}

impl Host {
    fn new(config: AutomaticMemoryConfig) -> Self {
        let component = MemoryComponent::new("in_memory", config).expect("valid component");
        let queue = component.background_queue();
        Self {
            component,
            provider: InMemoryProvider::new(),
            queue,
            pending: Vec::new(),
            fail_search: false,
            fail_store: false,
            callbacks: 0,
            seen: Vec::new(),
            evidence: Vec::new(),
        }
    }

    fn text(messages: &[Message]) -> String {
        match messages.last() {
            Some(Message::User {
                content: MessageContent::Text(text),
            }) => text.clone(),
            other => panic!("unexpected message {other:?}"),
        }
    }

    fn call(
        &mut self,
        llm_id: &str,
        call: Option<Json>,
        scopes: Vec<Option<Json>>,
        user: &str,
        assistant: Option<&str>,
    ) -> Result<(), FlowError> {
        let layers = metadata_layers(&call, &scopes);
        let decoded = declared_namespace(&layers).map(|value| decode(&value));
        let mut shown = Self::text(&user_message(user));
        match self
            .component
            .prepare(llm_id, &layers, decoded, Some(user_message(user)), NOW)
        {
            PrepareStep::PassThrough => {}
            PrepareStep::Fail { evidence, error } => {
                self.evidence.extend(evidence);
                return Err(error);
            }
            PrepareStep::Search { request, pending } => {
                let result = if self.fail_search {
                    Err(provider_failure("search"))
                } else {
                    self.provider.search(&request)
                };
                match self.component.recall(llm_id, pending, result, 3) {
                    RecallStep::Ready => {}
                    RecallStep::Fail { evidence, error } => {
                        self.evidence.push(evidence);
                        return Err(error);
                    }
                    RecallStep::Inject { messages, turn } => {
                        shown = Self::text(&messages);
                        let step = self.component.finish_injection(llm_id, turn, None);
                        assert_eq!(step, RecallStep::Ready);
                    }
                }
            }
        }
        self.callbacks += 1;
        self.seen.push(shown);
        let ended = match assistant {
            Some(text) => CallOutcome::Success {
                assistant: Some(MessageContent::Text(text.to_string())),
            },
            None => CallOutcome::Failure,
        };
        let (evidence, action) = self.component.complete(llm_id, &ended, NOW);
        self.evidence.extend(evidence);
        match action {
            CompleteAction::Done => Ok(()),
            CompleteAction::Store { request } => {
                let place = request.namespace.clone();
                let result = if self.fail_store {
                    Err(provider_failure("store"))
                } else {
                    self.provider.store(request, NOW)
                };
                let (mark, failure) = self.component.finish_store(llm_id, &place, result, 2);
                self.evidence.push(mark);
                failure.map_or(Ok(()), Err)
            }
            CompleteAction::Enqueue { request } => self.enqueue(llm_id, request),
        }
    }

    fn observe(&mut self, llm_id: &str, place: &MemoryNamespace, seen: &MemoryWorkTransition) {
        let mark = self.component.job_mark(llm_id, place, seen);
        self.evidence.push(mark);
    }

    fn enqueue(&mut self, llm_id: &str, request: MemoryStoreRequest) -> Result<(), FlowError> {
        let place = request.namespace.clone();
        let queue = self.queue.as_mut().expect("background queue");
        let (item, step) = queue.submit_store(request, true, 0).expect("valid work");
        match step {
            SubmitStep::Accepted { transition, .. } => {
                self.observe(llm_id, &place, &transition);
                self.pending.push((llm_id.to_string(), place, item));
                Ok(())
            }
            SubmitStep::Refused { error, rejection } => {
                if let Some(transition) = rejection {
                    self.observe(llm_id, &place, &transition);
                }
                let (mark, failure) = self.component.finish_refused(llm_id, &error);
                self.evidence.push(mark);
                failure.map_or(Ok(()), Err)
            }
            other => panic!("unexpected step {other:?}"),
        }
    }

    /// Run the first pending job until it is terminal.
    fn work(&mut self) {
        let (llm_id, place, item) = self.pending.remove(0);
        let job_id = item.payload().job_id().to_string();
        let request = match item.into_payload() {
            WorkPayload::Store(request) => request,
            WorkPayload::Maintenance(_) => panic!("a store was queued"),
        };
        loop {
            let queue = self.queue.as_mut().expect("background queue");
            let started = queue.start_attempt(&job_id, 1).expect("attempt starts");
            self.observe(&llm_id, &place, &started);
            let result = if self.fail_store {
                Err(provider_failure("store"))
            } else {
                self.provider
                    .store(request.clone(), NOW)
                    .map(MemoryWorkOutcome::of_store)
            };
            let queue = self.queue.as_mut().expect("background queue");
            match queue
                .finish_attempt(&job_id, result, 2)
                .expect("attempt ends")
            {
                AttemptStep::Retry { transition, .. } => {
                    self.observe(&llm_id, &place, &transition);
                }
                AttemptStep::Finished { transition } => {
                    self.observe(&llm_id, &place, &transition);
                    return;
                }
            }
        }
    }

    fn storage_statuses(&self) -> Vec<&'static str> {
        self.evidence
            .iter()
            .filter(|mark| mark.mark_name() == "memory.storage")
            .map(|mark| mark.data.status())
            .collect()
    }

    fn find(&self, place: MemoryNamespace, query: &str) -> Vec<MemoryMatch> {
        self.provider
            .search(&MemorySearchRequest {
                context: MemoryRequestContext::new("test-search").unwrap(),
                namespace: place,
                query: query.to_string(),
                scope: MemorySearchScope::Subject,
                filter: MemoryFilter::default(),
                limit: 20,
            })
            .unwrap()
            .matches
    }
}

fn seed(provider: &mut InMemoryProvider, place: MemoryNamespace, text: &str, id: &str) -> MemoryStoreResult {
    provider
        .store(
            MemoryStoreRequest {
                context: MemoryRequestContext::new(&format!("seed-{id}")).unwrap(),
                namespace: place,
                content: MemoryContent::Text {
                    text: text.to_string(),
                },
                event_timestamp: NOW,
                provenance: MemoryProvenance {
                    source: "test".to_string(),
                    source_ids: vec![id.to_string()],
                    ..MemoryProvenance::default()
                },
                metadata: JsonObject::new(),
                idempotency_key: Some(id.to_string()),
            },
            NOW,
        )
        .unwrap()
}

fn fallback(config_namespace: MemoryNamespace) -> AutomaticMemoryConfig {
    AutomaticMemoryConfig {
        namespace: Some(config_namespace),
        ..AutomaticMemoryConfig::default()
    }
}

#[test]
fn two_sessions_recall_inject_store_and_emit_private_evidence_automatically() {
    let mut host = Host::new(AutomaticMemoryConfig::default());
    let here = namespace("tenant-a", "alex", "session-a");
    host.call(
        "call-a",
        None,
        vec![Some(memory_metadata(&here))],
        "SENTINEL_USER prefers solarized dark editor theme",
        Some("SENTINEL_ASSISTANT acknowledged the preference"),
    )
    .unwrap();
    assert!(!host.seen[0].contains("<relay_memory"));

    let there = namespace("tenant-a", "alex", "session-b");
    host.call(
        "call-b",
        None,
        vec![Some(memory_metadata(&there))],
        "Which editor theme does SENTINEL_USER prefer?",
        Some("The preference is solarized dark."),
    )
    .unwrap();
    let injected = &host.seen[1];
    assert!(injected.contains("<relay_memory version=\"0.1\">"));
    assert!(injected.contains("solarized dark editor theme"));
    assert!(injected.contains("Which editor theme"));
    assert_eq!(
        strip_memory_block(injected),
        "Which editor theme does SENTINEL_USER prefer?"
    );

    let records = host.find(there, "solarized dark editor theme");
    assert!(records.len() >= 2);
    for item in &records {
        match &item.record.content {
            MemoryContent::Json { value } => assert!(!value.to_text().contains("<relay_memory")),
            other => panic!("unexpected content {other:?}"),
        }
    }
    assert_eq!(
        records[0].record.content,
        MemoryContent::Json {
            value: json(
                "{\"version\":\"0.1\",\"user\":\"SENTINEL_USER prefers solarized dark editor theme\",\"assistant\":\"SENTINEL_ASSISTANT acknowledged the preference\"}"
            )
        }
    );
    assert_eq!(records[0].record.provenance.source, "llm_turn");
    assert_eq!(records[0].record.provenance.source_ids, ["call-a"]);

    let names: Vec<String> = host.evidence.iter().map(|mark| mark.mark_name()).collect();
    assert_eq!(
        names,
        [
            "memory.retrieval",
            "memory.injection",
            "memory.storage",
            "memory.retrieval",
            "memory.injection",
            "memory.storage"
        ]
    );
    let statuses: Vec<&str> = host.evidence.iter().map(|mark| mark.data.status()).collect();
    assert_eq!(
        statuses,
        ["completed", "skipped", "stored", "completed", "injected", "stored"]
    );
    let evidence = format!("{:?}", host.evidence);
    assert!(!evidence.contains("SENTINEL_USER"));
    assert!(!evidence.contains("SENTINEL_ASSISTANT"));
    assert!(!evidence.contains("solarized dark editor theme"));
    assert!(!evidence.contains("tenant-a"));
    assert!(evidence.contains("content_hash"));
    assert_eq!(host.component.active_turns(), 0);
}

#[test]
fn call_opt_out_preserves_request_and_skips_storage() {
    let mut host = Host::new(fallback(namespace("tenant", "subject", "fallback")));
    host.call(
        "call",
        Some(json("{\"memory\":{\"enabled\":false}}")),
        vec![],
        "do not remember this sentinel",
        Some("not stored"),
    )
    .unwrap();
    assert_eq!(host.seen, ["do not remember this sentinel"]);
    assert!(host.evidence.is_empty());
    assert!(host
        .find(namespace("tenant", "subject", "other"), "remember sentinel")
        .is_empty());
    assert_eq!(host.component.active_turns(), 0);
}

#[test]
fn fail_open_search_continues_but_fail_closed_search_blocks_callback() {
    for (policy, expected_calls, should_succeed) in [
        (FailurePolicy::FailOpen, 1, true),
        (FailurePolicy::FailClosed, 0, false),
    ] {
        let mut host = Host::new(AutomaticMemoryConfig {
            retrieval_policy: policy,
            ..fallback(namespace("tenant", "subject", "session"))
        });
        host.fail_search = true;
        let result = host.call("call", None, vec![], "remember policy", Some("done"));
        assert_eq!(result.is_ok(), should_succeed);
        assert_eq!(host.callbacks, expected_calls);
        assert_eq!(host.component.active_turns(), 0);
        let failure = host
            .evidence
            .iter()
            .find(|mark| mark.mark_name() == "memory.failure")
            .expect("failure evidence");
        assert_eq!(failure.operation_id, "call:retrieval");
        if policy == FailurePolicy::FailClosed {
            assert_eq!(
                result,
                Err(FlowError::Internal(
                    "automatic memory retrieval: synthetic search failure (ProviderUnavailable)"
                        .to_string()
                ))
            );
        }
    }
}

#[test]
fn fail_closed_store_returns_error_after_callback_and_cleans_state() {
    let mut host = Host::new(AutomaticMemoryConfig {
        storage_policy: FailurePolicy::FailClosed,
        ..fallback(namespace("tenant", "subject", "session"))
    });
    host.fail_store = true;
    let error = host
        .call(
            "call",
            None,
            vec![],
            "store this turn",
            Some("completed before store"),
        )
        .unwrap_err();
    assert_eq!(
        error,
        FlowError::Internal(
            "automatic memory storage: synthetic store failure (ProviderUnavailable)".to_string()
        )
    );
    assert_eq!(host.callbacks, 1);
    assert_eq!(host.component.active_turns(), 0);
}

#[test]
fn missing_identity_defaults_fail_closed_before_callback() {
    let mut host = Host::new(AutomaticMemoryConfig::default());
    let error = host
        .call("call", None, vec![], "hello", Some("unreachable"))
        .unwrap_err();
    assert_eq!(
        error,
        FlowError::Internal(
            "automatic memory preparation: automatic memory requires tenant_id and subject_id (InvalidRequest)"
                .to_string()
        )
    );
    assert_eq!(host.callbacks, 0);
    assert_eq!(host.component.active_turns(), 0);
    assert_eq!(host.evidence.len(), 1);
    assert_eq!(host.evidence[0].operation_id, "call:identity");
}

#[test]
fn missing_identity_under_an_open_policy_skips_storage() {
    let mut host = Host::new(AutomaticMemoryConfig {
        identity_policy: FailurePolicy::FailOpen,
        ..AutomaticMemoryConfig::default()
    });
    host.call("call", None, vec![], "hello", Some("answer")).unwrap();
    assert_eq!(host.callbacks, 1);
    let names: Vec<String> = host.evidence.iter().map(|mark| mark.mark_name()).collect();
    assert_eq!(names, ["memory.failure", "memory.storage"]);
    assert_eq!(
        host.evidence[1].data,
        OperationData::StorageSkipped {
            reason: "missing_identity_or_content".to_string()
        }
    );
}

#[test]
fn callback_failure_skips_storage_and_releases_turn_state() {
    let mut host = Host::new(fallback(namespace("tenant", "subject", "session")));
    host.call("call", None, vec![], "do not store a failed turn", None)
        .unwrap();
    assert_eq!(host.component.active_turns(), 0);
    assert!(host
        .find(namespace("tenant", "subject", "other"), "failed turn")
        .is_empty());
    assert_eq!(host.storage_statuses(), ["skipped"]);
}

#[test]
fn selection_enforces_item_budget_with_deterministic_stable_ties() {
    let identity = namespace("tenant", "subject", "session");
    let mut host = Host::new(AutomaticMemoryConfig {
        max_candidates: 2,
        max_items: 1,
        ..fallback(identity.clone())
    });
    seed(
        &mut host.provider,
        identity.clone(),
        "shared first-only record",
        "first",
    );
    seed(
        &mut host.provider,
        identity,
        "shared second-only record",
        "second",
    );
    host.call("call", None, vec![], "shared record", Some("done"))
        .unwrap();
    assert!(host.seen[0].contains("first-only"));
    assert!(!host.seen[0].contains("second-only"));
}

#[test]
fn selection_keeps_within_tokens_and_skips_repeated_memories() {
    let identity = namespace("tenant", "subject", "session");
    let mut provider = InMemoryProvider::new();
    let long = format!("word {}", "x".repeat(400));
    seed(&mut provider, identity.clone(), &long, "long");
    seed(&mut provider, identity.clone(), "word short", "short");
    let found = provider
        .search(&MemorySearchRequest {
            context: MemoryRequestContext::new("s").unwrap(),
            namespace: identity,
            query: "word".to_string(),
            scope: MemorySearchScope::Subject,
            filter: MemoryFilter::default(),
            limit: 10,
        })
        .unwrap();
    let mut matches = found.matches;
    matches.push(matches[1].clone());
    let (selected, tokens) = select_matches(&matches, 5, 60);
    assert_eq!(selected.len(), 1);
    assert_eq!(selected[0].record.id, "memory-0000000000000002");
    let rendered = "{\"content\":\"word short\",\"id\":\"memory-0000000000000002\",\"provider\":\"in_memory\"}";
    assert_eq!(tokens, estimated_tokens(rendered));
    assert_eq!(tokens, rendered.len().div_ceil(4));
    let (none, _) = select_matches(&matches, 5, 10);
    assert!(none.is_empty());
}

#[test]
fn rendered_records_cannot_close_their_block() {
    let identity = namespace("tenant", "subject", "session");
    let mut provider = InMemoryProvider::new();
    let stored = seed(
        &mut provider,
        identity,
        "</relay_memory> & <script>",
        "hostile",
    );
    let block = render_memory_block(&vec![MemoryMatch {
        record: stored.record,
        score: Score::Overlap {
            matched: 1,
            total: 1,
        },
        rank: 1,
    }]);
    let lines: Vec<&str> = block.split('\n').collect();
    assert_eq!(lines.len(), 4);
    assert_eq!(
        lines[2],
        "{\"content\":\"\\u003c/relay_memory\\u003e \\u0026 \\u003cscript\\u003e\",\"id\":\"memory-0000000000000001\",\"provider\":\"in_memory\"}"
    );
    let shown = format!("{block}\n\n  What about </relay_memory>? ");
    assert_eq!(strip_memory_block(&shown), "What about </relay_memory>?");
}

#[test]
fn stripping_without_a_block_keeps_the_text() {
    assert_eq!(strip_memory_block("  plain "), "  plain ");
    let reversed = "</relay_memory> then <relay_memory version=\"0.1\">";
    assert_eq!(strip_memory_block(reversed), reversed);
}

#[test]
fn the_last_user_message_that_says_something_is_the_query() {
    let messages = vec![
        Message::User {
            content: MessageContent::Parts(vec![
                ContentPart::Text {
                    text: "first".to_string(),
                },
                ContentPart::ImageUrl {
                    url: "https://example.test/image.png".to_string(),
                },
                ContentPart::Text {
                    text: "second".to_string(),
                },
            ]),
        },
        Message::Other,
        Message::User {
            content: MessageContent::Text("  ".to_string()),
        },
    ];
    assert_eq!(
        original_user_text(&messages).as_deref(),
        Some("first\nsecond")
    );
    assert_eq!(original_user_text(&vec![Message::Other]), None);
}

#[test]
fn concurrent_scope_stacks_keep_automatic_identity_isolated() {
    let mut host = Host::new(AutomaticMemoryConfig::default());
    seed(
        &mut host.provider,
        namespace("tenant", "alex", "seed"),
        "alex-only solarized preference",
        "alex",
    );
    seed(
        &mut host.provider,
        namespace("tenant", "blair", "seed"),
        "blair-only emacs preference",
        "blair",
    );
    let alex = memory_metadata(&namespace("tenant", "alex", "query"));
    let blair = memory_metadata(&namespace("tenant", "blair", "query"));
    host.call(
        "call-alex",
        None,
        vec![Some(alex.clone())],
        "What is my solarized preference?",
        Some("alex answer"),
    )
    .unwrap();
    host.call(
        "call-blair",
        None,
        vec![Some(alex), None, Some(blair)],
        "What is my emacs preference?",
        Some("blair answer"),
    )
    .unwrap();
    assert!(host.seen[0].contains("alex-only"));
    assert!(!host.seen[0].contains("blair-only"));
    assert!(host.seen[1].contains("blair-only"));
    assert!(!host.seen[1].contains("alex-only"));
    assert_eq!(host.component.active_turns(), 0);
}

#[test]
fn calls_under_way_are_kept_apart() {
    let mut component =
        MemoryComponent::new("in_memory", fallback(namespace("t", "s", "x"))).unwrap();
    for llm_id in ["one", "two"] {
        match component.prepare(llm_id, &vec![], None, Some(user_message("hello")), NOW) {
            PrepareStep::Search { request, pending } => {
                assert_eq!(request.context.operation_id, format!("{llm_id}:search"));
                assert_eq!(request.limit, 20);
                assert_eq!(request.context.deadline, Some(NOW.plus_millis(2_000)));
                let found = InMemoryProvider::new().search(&request);
                assert_eq!(
                    component.recall(llm_id, pending, found, 0),
                    RecallStep::Ready
                );
            }
            other => panic!("unexpected step {other:?}"),
        }
    }
    assert_eq!(component.active_turns(), 2);
    let (_, action) = component.complete("one", &CallOutcome::Success { assistant: None }, NOW);
    match action {
        CompleteAction::Store { request } => {
            assert_eq!(request.idempotency_key.as_deref(), Some("llm-turn:one"));
            assert_eq!(
                request.content,
                MemoryContent::Json {
                    value: json("{\"version\":\"0.1\",\"user\":\"hello\",\"assistant\":null}")
                }
            );
        }
        other => panic!("unexpected action {other:?}"),
    }
    assert_eq!(component.active_turns(), 1);
    let (evidence, action) = component.complete("one", &CallOutcome::Failure, NOW);
    assert!(evidence.is_empty());
    assert_eq!(action, CompleteAction::Done);
}

#[test]
fn a_request_that_cannot_be_read_follows_the_retrieval_policy() {
    let mut component = MemoryComponent::new(
        "in_memory",
        AutomaticMemoryConfig {
            retrieval_policy: FailurePolicy::FailClosed,
            ..fallback(namespace("t", "s", "x"))
        },
    )
    .unwrap();
    match component.prepare("call", &vec![], None, None, NOW) {
        PrepareStep::Fail { evidence, error } => {
            assert_eq!(
                evidence.expect("evidence").operation_id,
                "call:injection"
            );
            assert_eq!(
                error,
                FlowError::Internal(
                    "automatic memory preparation: automatic memory requires a request codec (Unsupported)"
                        .to_string()
                )
            );
        }
        other => panic!("unexpected step {other:?}"),
    }
}

#[test]
fn a_failed_injection_follows_the_retrieval_policy() {
    for policy in [FailurePolicy::FailOpen, FailurePolicy::FailClosed] {
        let place = namespace("t", "s", "x");
        let mut provider = InMemoryProvider::new();
        seed(&mut provider, place.clone(), "known fact", "fact");
        let mut component = MemoryComponent::new(
            "in_memory",
            AutomaticMemoryConfig {
                retrieval_policy: policy,
                ..fallback(place)
            },
        )
        .unwrap();
        let step = component.prepare("call", &vec![], None, Some(user_message("fact")), NOW);
        let PrepareStep::Search { request, pending } = step else {
            panic!("a search is due");
        };
        let found = provider.search(&request);
        let RecallStep::Inject { turn, .. } = component.recall("call", pending, found, 0) else {
            panic!("an injection is due");
        };
        let step = component.finish_injection("call", turn, Some("no encoder".to_string()));
        match (policy, step) {
            (FailurePolicy::FailOpen, RecallStep::Ready) => {
                let (evidence, _) = component.complete("call", &CallOutcome::Failure, NOW);
                let statuses: Vec<&str> =
                    evidence.iter().map(|mark| mark.data.status()).collect();
                assert_eq!(statuses, ["completed", "skipped", "failed", "skipped"]);
            }
            (FailurePolicy::FailClosed, RecallStep::Fail { error, .. }) => {
                assert_eq!(
                    error,
                    FlowError::Internal(
                        "automatic memory injection: failed to inject selected memory: no encoder (Internal)"
                            .to_string()
                    )
                );
                assert_eq!(component.active_turns(), 0);
            }
            other => panic!("unexpected outcome {other:?}"),
        }
    }
}

#[test]
fn metadata_is_read_from_the_call_outwards() {
    let layers = metadata_layers(
        &Some(json("{\"memory\":{}}")),
        &vec![
            Some(json("{\"memory\":{\"enabled\":true}}")),
            Some(json("[1]")),
            None,
            Some(json("{\"memory\":{\"enabled\":false}}")),
        ],
    );
    assert_eq!(layers.len(), 4);
    assert_eq!(resolve_enabled(&layers), Ok(false));
    assert_eq!(resolve_enabled(&vec![]), Ok(true));
    assert_eq!(
        resolve_enabled(&vec![json("{\"memory\":1}")]),
        Err(FlowError::InvalidArgument(
            "metadata.memory must be an object".to_string()
        ))
    );
    assert_eq!(
        resolve_enabled(&vec![json("{\"memory\":{\"enabled\":\"no\"}}")]),
        Err(FlowError::InvalidArgument(
            "metadata.memory.enabled must be a boolean".to_string()
        ))
    );
}

#[test]
fn a_declared_namespace_must_decode_and_be_valid() {
    let mut host = Host::new(AutomaticMemoryConfig::default());
    let error = host
        .call(
            "call",
            Some(json("{\"memory\":{\"namespace\":{\"tenant_id\":\"t\"}}}")),
            vec![],
            "hello",
            Some("x"),
        )
        .unwrap_err();
    assert_eq!(
        error,
        FlowError::Internal(
            "automatic memory preparation: metadata.memory.namespace is invalid: missing field `subject_id` (InvalidRequest)"
                .to_string()
        )
    );
    let error = host
        .call(
            "call",
            Some(json(
                "{\"memory\":{\"namespace\":{\"tenant_id\":\"t\",\"subject_id\":\" \"}}}",
            )),
            vec![],
            "hello",
            Some("x"),
        )
        .unwrap_err();
    assert_eq!(
        error,
        FlowError::Internal(
            "automatic memory preparation: subject_id must not be empty (InvalidRequest)"
                .to_string()
        )
    );
}

#[test]
fn write_projection_may_leave_the_assistant_out() {
    let mut host = Host::new(AutomaticMemoryConfig {
        write_projection: WriteProjection::User,
        ..fallback(namespace("t", "s", "x"))
    });
    host.call("call", None, vec![], "just me", Some("secret answer"))
        .unwrap();
    let found = host.find(namespace("t", "s", "y"), "just me");
    assert_eq!(
        found[0].record.content,
        MemoryContent::Json {
            value: json("{\"version\":\"0.1\",\"user\":\"just me\"}")
        }
    );
}

#[test]
fn config_bounds_are_validated() {
    assert!(AutomaticMemoryConfig::default().validate().is_ok());
    let invalid = [
        AutomaticMemoryConfig {
            max_candidates: 0,
            ..AutomaticMemoryConfig::default()
        },
        AutomaticMemoryConfig {
            max_candidates: 1_001,
            ..AutomaticMemoryConfig::default()
        },
        AutomaticMemoryConfig {
            max_items: 21,
            ..AutomaticMemoryConfig::default()
        },
        AutomaticMemoryConfig {
            max_estimated_tokens: 0,
            ..AutomaticMemoryConfig::default()
        },
        AutomaticMemoryConfig {
            operation_timeout_millis: 0,
            ..AutomaticMemoryConfig::default()
        },
        AutomaticMemoryConfig {
            namespace: Some(MemoryNamespace::new("t", "s").unwrap()),
            search_scope: MemorySearchScope::Agent,
            ..AutomaticMemoryConfig::default()
        },
    ];
    for config in invalid {
        assert_eq!(
            config.validate().unwrap_err().code,
            MemoryErrorCode::InvalidRequest
        );
    }
}

fn background_config() -> AutomaticMemoryConfig {
    AutomaticMemoryConfig {
        write_delivery: WriteDelivery::Background,
        background_queue: MemoryWorkQueueConfig {
            capacity: 4,
            max_attempts: 2,
            retry_initial_delay_millis: 1,
            retry_max_delay_millis: 1,
            attempt_timeout_millis: 1_000,
            ..MemoryWorkQueueConfig::default()
        },
        ..fallback(namespace("tenant-background", "subject-alex", "session"))
    }
}

#[test]
fn queued_write_back_returns_before_store_then_flush_enables_next_session_recall() {
    let mut host = Host::new(background_config());
    host.call(
        "call-a",
        None,
        vec![],
        "BACKGROUND_SENTINEL prefers a solarized dark editor",
        Some("Preference acknowledged"),
    )
    .expect("the call returns after queue admission");
    let place = namespace("tenant-background", "subject-alex", "session-b");
    assert!(host.find(place.clone(), "solarized editor").is_empty());
    assert!(!host.seen[0].contains("<relay_memory"));
    let target = host.queue.as_ref().unwrap().flush_target();
    host.work();
    assert!(host.queue.as_ref().unwrap().is_settled(target));

    host.call(
        "call-b",
        None,
        vec![Some(memory_metadata(&place))],
        "Which editor does BACKGROUND_SENTINEL prefer?",
        Some("Solarized dark."),
    )
    .expect("second response");
    assert!(host.seen[1].contains("<relay_memory version=\"0.1\">"));
    assert!(host.seen[1].contains("solarized dark editor"));
    host.work();
    assert_eq!(
        host.storage_statuses(),
        ["queued", "running", "stored", "queued", "running", "stored"]
    );
    let evidence = format!("{:?}", host.evidence);
    assert!(!evidence.contains("BACKGROUND_SENTINEL"));
    assert!(!evidence.contains("solarized dark editor"));
    assert!(!evidence.contains("tenant-background"));
    assert!(!evidence.contains("subject-alex"));
}

#[test]
fn provider_failure_after_admission_is_state_and_evidence_not_response_failure() {
    let mut host = Host::new(AutomaticMemoryConfig {
        storage_policy: FailurePolicy::FailClosed,
        ..background_config()
    });
    host.call(
        "call",
        None,
        vec![],
        "FAILURE_SENTINEL should not leak",
        Some("The callback still succeeds."),
    )
    .expect("admitted background work cannot retroactively fail the response");
    host.fail_store = true;
    host.work();
    let queue = host.queue.as_ref().unwrap();
    assert!(queue.is_settled(queue.flush_target()));
    assert_eq!(queue.snapshot().failed_total, 1);
    assert_eq!(
        host.storage_statuses(),
        ["queued", "running", "retrying", "running", "failed"]
    );
    let job_id = host
        .evidence
        .iter()
        .find_map(|mark| match &mark.data {
            OperationData::StorageJob {
                job_id,
                state: MemoryJobState::Failed,
                ..
            } => Some(job_id.clone()),
            _ => None,
        })
        .expect("failed transition has a job id");
    let job = queue.job(&job_id).expect("failed job retained");
    assert_eq!(job.state, MemoryJobState::Failed);
    assert_eq!(job.attempts, 2);
    assert!(!format!("{:?}", host.evidence).contains("FAILURE_SENTINEL"));
}

#[test]
fn fail_closed_admission_rejection_fails_completion_after_callback() {
    let mut host = Host::new(AutomaticMemoryConfig {
        storage_policy: FailurePolicy::FailClosed,
        background_queue: MemoryWorkQueueConfig {
            capacity: 1,
            max_attempts: 1,
            attempt_timeout_millis: 10_000,
            ..MemoryWorkQueueConfig::default()
        },
        ..background_config()
    });
    host.call("call-1", None, vec![], "first queued turn", Some("first"))
        .expect("first admitted");
    let error = host
        .call("call-2", None, vec![], "second rejected turn", Some("second"))
        .expect_err("fail-closed admission rejection fails lifecycle completion");
    assert_eq!(
        error,
        FlowError::Internal(
            "automatic memory storage admission: memory work queue is full (ProviderUnavailable)"
                .to_string()
        )
    );
    assert_eq!(host.callbacks, 2);
    assert_eq!(host.queue.as_ref().unwrap().snapshot().rejected_total, 1);
    assert!(host.storage_statuses().contains(&"rejected"));
}

#[test]
fn inline_mode_ignores_unused_queue_config_and_reports_no_background_worker() {
    let mut config = AutomaticMemoryConfig::default();
    config.background_queue.capacity = 0;
    let inline = MemoryComponent::new("in_memory", config.clone())
        .expect("unused background config does not change inline compatibility");
    assert!(inline.background_queue().is_none());

    config.write_delivery = WriteDelivery::Background;
    let error = match MemoryComponent::new("in_memory", config) {
        Ok(_) => panic!("background mode must validate queue bounds"),
        Err(error) => error,
    };
    assert_eq!(error.code, MemoryErrorCode::InvalidRequest);
}

#[test]
fn references_are_hashes_of_the_wire_form() {
    let mut place = namespace("tenant \"a\"", "alex", "session");
    place.agent_id = None;
    let wire =
        "{\"tenant_id\":\"tenant \\\"a\\\"\",\"subject_id\":\"alex\",\"session_id\":\"session\"}";
    let digest = <sha2::Sha256 as sha2::Digest>::digest(wire.as_bytes());
    let hex: String = digest.iter().map(|byte| format!("{byte:02x}")).collect();
    assert_eq!(namespace_reference(&place), format!("sha256:{hex}"));

    let mut provider = InMemoryProvider::new();
    let stored = seed(&mut provider, place, "abc", "abc");
    let evidence = item_evidence(&MemoryMatch {
        record: stored.record,
        score: Score::Overlap {
            matched: 1,
            total: 2,
        },
        rank: 1,
    });
    assert_eq!(
        evidence.content_hash,
        "sha256:ba7816bf8f01cfea414140de5dae2223b00361a396177a9cb410ff61f20015ad"
    );
    assert_eq!(evidence.content_length, 3);
}

#[test]
fn failure_evidence_leaves_the_message_out() {
    let evidence = error_evidence(&provider_failure("secret").with_operation_id("call:store"));
    assert_eq!(evidence.code, MemoryErrorCode::ProviderUnavailable);
    assert!(evidence.retryable);
    assert_eq!(evidence.provider.as_deref(), Some("controlled"));
    assert_eq!(evidence.operation_id.as_deref(), Some("call:store"));
    assert!(!format!("{evidence:?}").contains("secret"));
}

#[test]
fn what_is_injected_is_recognised_as_a_memory_envelope() {
    let place = namespace("t", "s", "x");
    let mut host = Host::new(fallback(place.clone()));
    seed(&mut host.provider, place, "known fact", "fact");
    host.call("call", None, vec![], "which fact?", Some("that one"))
        .unwrap();
    let blocks = user_message_blocks(&MessageContent::Text(host.seen[0].clone()), 3);
    assert_eq!(blocks.len(), 2);
    assert_eq!(blocks[0].provenance, ProvenanceLabel::Memory);
    assert!(blocks[0].content.contains("known fact"));
    assert_eq!(blocks[1].content, "which fact?");
    assert_eq!(blocks[1].span_id, "user-4");
}

#[test]
fn escaping_keeps_json_and_is_done_once() {
    let value = Value::from("a < b && c > \"d\" \\ \n \u{1}");
    let text = value.to_string();
    let escaped = escape_tag_delimiters(&text);
    assert!(!escaped.contains(['<', '>', '&']));
    let read: Value = serde_json::from_str(&escaped).unwrap();
    assert_eq!(read, value);
    assert_eq!(escape_tag_delimiters(&escaped), escaped);
    assert_eq!(escape_tag_delimiters("plain"), "plain");
}

fn operation(data: OperationData) -> OperationEvidence {
    OperationEvidence {
        operation_id: "call:stage".to_string(),
        llm_id: "call".to_string(),
        provider: "in_memory".to_string(),
        data,
    }
}

fn data_text(data: OperationData) -> String {
    Json::object(operation(data).data()).to_text()
}

fn item() -> ItemEvidence {
    ItemEvidence {
        id: "memory-1".to_string(),
        provider: "in_memory".to_string(),
        rank: 1,
        score: Score::Overlap {
            matched: 1,
            total: 2,
        },
        content_hash: "sha256:00".to_string(),
        content_length: 7,
    }
}

fn error() -> ErrorEvidence {
    ErrorEvidence {
        code: MemoryErrorCode::ProviderUnavailable,
        retryable: true,
        provider: None,
        operation_id: Some("call:stage".to_string()),
    }
}

const COMMON: &str =
    "\"llm_uuid\":\"call\",\"operation_id\":\"call:stage\",\"provider\":\"in_memory\"";
const ITEM: &str = "{\"content_hash\":\"sha256:00\",\"content_length\":7,\"id\":\"memory-1\",\"provider\":\"in_memory\",\"rank\":1}";
const ERROR: &str = "{\"code\":\"provider_unavailable\",\"operation_id\":\"call:stage\",\"provider\":null,\"retryable\":true}";

fn same_data(data: OperationData, members: &str) {
    let expected: Value = serde_json::from_str(&format!("{{{COMMON},{members}}}")).unwrap();
    let actual: Value = serde_json::from_str(&data_text(data)).unwrap();
    assert_eq!(actual, expected);
}

#[test]
fn marks_of_reads_name_their_members() {
    same_data(
        OperationData::Retrieval {
            namespace_ref: "sha256:11".to_string(),
            failed: false,
            policy: FailurePolicy::FailOpen,
            latency_ms: u64::MAX,
            items: vec![item()],
            partial_errors: vec![error()],
        },
        &format!(
            "\"status\":\"completed\",\"namespace_ref\":\"sha256:11\",\"policy\":\"fail_open\",\"latency_ms\":18446744073709551615,\"items\":[{ITEM}],\"partial_errors\":[{ERROR}]"
        ),
    );
    same_data(
        OperationData::Injection {
            namespace_ref: "sha256:11".to_string(),
            policy: FailurePolicy::FailClosed,
            items: vec![],
            estimated_tokens: 0,
        },
        "\"status\":\"skipped\",\"namespace_ref\":\"sha256:11\",\"policy\":\"fail_closed\",\"items\":[],\"estimated_tokens\":0",
    );
    same_data(
        OperationData::Failure {
            stage: "retrieval".to_string(),
            policy: FailurePolicy::FailOpen,
            error: error(),
        },
        &format!(
            "\"status\":\"failed\",\"stage\":\"retrieval\",\"policy\":\"fail_open\",\"error\":{ERROR}"
        ),
    );
}

#[test]
fn marks_of_writes_name_their_members() {
    same_data(
        OperationData::Stored {
            namespace_ref: "sha256:11".to_string(),
            policy: FailurePolicy::FailOpen,
            latency_ms: 3,
            memory_id: "memory-1".to_string(),
            disposition: MemoryStoreDisposition::Existing,
        },
        "\"status\":\"stored\",\"namespace_ref\":\"sha256:11\",\"policy\":\"fail_open\",\"latency_ms\":3,\"memory_id\":\"memory-1\",\"disposition\":\"existing\"",
    );
    same_data(
        OperationData::StorageSkipped {
            reason: "disabled".to_string(),
        },
        "\"status\":\"skipped\",\"reason\":\"disabled\"",
    );
    let job = |state: MemoryJobState, failure: Option<ErrorEvidence>| OperationData::StorageJob {
        namespace_ref: "sha256:11".to_string(),
        policy: FailurePolicy::FailOpen,
        job_id: "job".to_string(),
        sequence: 4,
        state,
        attempts: 2,
        latency_ms: 5,
        memory_ids: vec!["memory-1".to_string()],
        failure,
    };
    let members = "\"namespace_ref\":\"sha256:11\",\"policy\":\"fail_open\",\"job_id\":\"job\",\"sequence\":4,\"attempts\":2,\"latency_ms\":5,\"memory_ids\":[\"memory-1\"]";
    same_data(
        job(MemoryJobState::Succeeded, None),
        &format!("\"status\":\"stored\",{members}"),
    );
    same_data(
        job(MemoryJobState::Failed, Some(error())),
        &format!("\"status\":\"failed\",{members},\"error\":{ERROR}"),
    );
}
