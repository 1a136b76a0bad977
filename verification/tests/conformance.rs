//! The reusable provider conformance run and the direct runtime.

use nemo_relay_memory::conformance::{
    synthetic_partial_result, Capability, ConformanceAction, ConformanceEvent,
};
use nemo_relay_memory::memory::{
    MemoryBatchStoreRequest, MemoryCapabilities, MemoryErrorCode, MemoryNamespace,
    MemoryOperationError, MemoryRequestContext, MemorySearchRequest, MemorySearchResult,
    MemoryStoreRequest, MemoryStoreResult,
};
use nemo_relay_memory::provider::unsupported;
use nemo_relay_memory::runtime::{Attempt, Budget};
use nemo_relay_memory::{
    ConformanceReport, ConformanceRun, InMemoryProvider, MemoryRuntime, Timestamp,
};

const NOW: Timestamp = Timestamp {
    seconds: 1_800_000_000,
    nanos: 0,
};
const NOW_MILLIS: u64 = 1_800_000_000_000;

trait Provider {
    fn name(&self) -> &'static str;
    fn search(
        &mut self,
        request: MemorySearchRequest,
    ) -> Result<MemorySearchResult, MemoryOperationError>;
    fn store(
        &mut self,
        request: MemoryStoreRequest,
    ) -> Result<MemoryStoreResult, MemoryOperationError>;
}

impl Provider for InMemoryProvider {
    fn name(&self) -> &'static str {
        InMemoryProvider::name(self)
    }

    fn search(
        &mut self,
        request: MemorySearchRequest,
    ) -> Result<MemorySearchResult, MemoryOperationError> {
        InMemoryProvider::search(self, &request)
    }

    fn store(
        &mut self,
        request: MemoryStoreRequest,
    ) -> Result<MemoryStoreResult, MemoryOperationError> {
        InMemoryProvider::store(self, request, NOW)
    }
}

fn run(
    provider: &mut dyn Provider,
    run_id: &str,
    capabilities: MemoryCapabilities,
) -> ConformanceReport {
    let runtime = MemoryRuntime::new(provider.name(), capabilities);
    let mut run = ConformanceRun::new(provider.name(), run_id, capabilities);
    let refuse = |capability: Capability, context: &MemoryRequestContext| {
        ConformanceEvent::Answered(Err(unsupported(
            "provider",
            capability,
            &context.operation_id,
        )))
    };
    while !run.is_finished() {
        let event = match run.next_action(NOW) {
            ConformanceAction::Store(request) => ConformanceEvent::Stored(
                runtime
                    .store(&request, NOW_MILLIS)
                    .and_then(|_| provider.store(request)),
            ),
            ConformanceAction::Search(request) => ConformanceEvent::Searched(
                runtime
                    .search(&request, NOW_MILLIS)
                    .and_then(|_| provider.search(request)),
            ),
            ConformanceAction::Update(request) => refuse(Capability::Update, &request.context),
            ConformanceAction::BatchStore(request) => {
                refuse(Capability::BatchStore, &request.context)
            }
            ConformanceAction::Maintain(request) => {
                runtime.maintain(&request, NOW_MILLIS).expect("valid");
                refuse(Capability::Maintenance, &request.context)
            }
            ConformanceAction::Feedback(request) => {
                assert_eq!(request.confidence_bits, Some(1.0f64.to_bits()));
                refuse(Capability::Feedback, &request.context)
            }
            ConformanceAction::Health(request) => refuse(Capability::Health, &request.context),
            ConformanceAction::Delete(request) => refuse(Capability::Delete, &request.context),
            ConformanceAction::ProbePartial(request) => ConformanceEvent::Searched(
                runtime
                    .search(&request, NOW_MILLIS)
                    .map(|_| synthetic_partial_result()),
            ),
            ConformanceAction::ProbeDeadline(request) => {
                assert_eq!(
                    runtime.search(&request, NOW_MILLIS).expect("in time"),
                    Budget::Millis(50)
                );
                ConformanceEvent::Expired {
                    result: runtime.settle(&request.context, Attempt::TimedOut),
                    calls: 1,
                    dropped: true,
                }
            }
            ConformanceAction::Finished => break,
        };
        run = run.advance(event);
    }
    run.into_report()
}

#[test]
fn in_memory_provider_passes_every_conformance_case() {
    let report = run(
        &mut InMemoryProvider::new(),
        "in-memory-1",
        MemoryCapabilities::default(),
    );

    assert!(
        report.passed(),
        "conformance failures: {:?}",
        report.failures()
    );
    assert_eq!(report.provider, "in_memory");
    assert_eq!(report.run_id, "in-memory-1");
    assert_eq!(report.cases.len(), 9);
    assert!(report.cases.iter().all(|case| case.message.is_none()));
}

#[test]
fn an_advertised_operation_that_is_unsupported_is_an_objection() {
    let report = run(
        &mut InMemoryProvider::new(),
        "in-memory-2",
        MemoryCapabilities {
            feedback: true,
            ..MemoryCapabilities::default()
        },
    );
    let failures = report.failures();
    assert_eq!(failures.len(), 1);
    assert_eq!(failures[0].name, "capability_agreement");
    assert_eq!(
        failures[0].message.as_deref(),
        Some("feedback is advertised but returned unsupported")
    );
    assert_eq!(report.cases.len(), 9);
}

struct FailingProvider;

impl Provider for FailingProvider {
    fn name(&self) -> &'static str {
        "failing"
    }

    fn search(
        &mut self,
        _request: MemorySearchRequest,
    ) -> Result<MemorySearchResult, MemoryOperationError> {
        Err(failure())
    }

    fn store(
        &mut self,
        _request: MemoryStoreRequest,
    ) -> Result<MemoryStoreResult, MemoryOperationError> {
        Err(failure())
    }
}

#[test]
fn harness_reports_provider_failures_as_named_data() {
    let report = run(
        &mut FailingProvider,
        "failure-1",
        MemoryCapabilities::default(),
    );

    assert!(!report.passed());
    assert!(report.cases.iter().any(|case| {
        case.name == "required_store"
            && !case.passed
            && case.message.as_deref() == Some("synthetic provider failure")
    }));
    assert!(report
        .cases
        .iter()
        .any(|case| case.name == "deadline_cancellation" && case.passed));
    assert_eq!(report.cases.len(), 9);
}

/// Forgets who may see a record, and what order it promised.
struct LeakyProvider {
    inner: InMemoryProvider,
    searches: usize,
}

impl Provider for LeakyProvider {
    fn name(&self) -> &'static str {
        "leaky"
    }

    fn search(
        &mut self,
        mut request: MemorySearchRequest,
    ) -> Result<MemorySearchResult, MemoryOperationError> {
        self.searches += 1;
        request.namespace.subject_id = "subject".to_string();
        let mut result = self.inner.search(&request)?;
        if self.searches == 4 {
            result.matches.clear();
        }
        Ok(result)
    }

    fn store(
        &mut self,
        mut request: MemoryStoreRequest,
    ) -> Result<MemoryStoreResult, MemoryOperationError> {
        request.idempotency_key = None;
        self.inner.store(request, NOW)
    }
}

#[test]
fn a_leaky_provider_fails_by_name() {
    let report = run(
        &mut LeakyProvider {
            inner: InMemoryProvider::new(),
            searches: 0,
        },
        "leaky-1",
        MemoryCapabilities::default(),
    );
    let failed: Vec<(&str, Option<String>)> = report
        .failures()
        .into_iter()
        .map(|case| (case.name, case.message))
        .collect();
    assert_eq!(
        failed,
        [
            (
                "subject_isolation_cross_session",
                Some("search crossed subject boundary".to_string())
            ),
            (
                "deterministic_order",
                Some("repeated search changed order".to_string())
            ),
            (
                "idempotency",
                Some("idempotent replay did not return the original record".to_string())
            ),
        ]
    );
}

#[test]
fn empty_run_id_is_a_structured_failure() {
    let report = run(
        &mut InMemoryProvider::new(),
        "  ",
        MemoryCapabilities::default(),
    );

    assert_eq!(report.cases.len(), 1);
    assert_eq!(report.cases[0].name, "valid_run_id");
    assert!(!report.cases[0].passed);
}

fn failure() -> MemoryOperationError {
    MemoryOperationError::new(
        MemoryErrorCode::ProviderUnavailable,
        "synthetic provider failure",
        true,
    )
}

fn search_request(deadline: Option<Timestamp>) -> MemorySearchRequest {
    let mut request = MemorySearchRequest::new(
        MemoryRequestContext::new("search-1").expect("valid context"),
        MemoryNamespace::new("tenant", "subject").expect("valid namespace"),
        "query",
    )
    .expect("valid request");
    request.context.deadline = deadline;
    request
}

#[test]
fn false_capabilities_return_typed_unsupported_errors() {
    for (capability, name) in [
        (Capability::Update, "update"),
        (Capability::Delete, "delete"),
        (Capability::BatchStore, "batch_store"),
        (Capability::Maintenance, "maintenance"),
        (Capability::Feedback, "feedback"),
        (Capability::Health, "health"),
    ] {
        let error = unsupported("minimal", capability, "operation");
        assert_eq!(error.code, MemoryErrorCode::Unsupported);
        assert_eq!(
            error.message,
            format!("memory provider does not support {name}")
        );
        assert_eq!(error.provider.as_deref(), Some("minimal"));
        assert_eq!(error.operation_id.as_deref(), Some("operation"));
        assert!(!error.retryable);
    }
}

#[test]
fn already_expired_deadline_never_calls_provider() {
    let runtime = MemoryRuntime::new("provider", MemoryCapabilities::default());
    for deadline in [NOW, Timestamp { seconds: 0, nanos: 0 }] {
        let error = runtime
            .search(&search_request(Some(deadline)), NOW_MILLIS)
            .expect_err("the deadline has passed");
        assert_eq!(error.code, MemoryErrorCode::DeadlineExceeded);
        assert!(error.retryable);
        assert_eq!(error.operation_id.as_deref(), Some("search-1"));
        assert_eq!(error.provider.as_deref(), Some("provider"));
    }
}

#[test]
fn deadlines_are_absolute_milliseconds() {
    let runtime = MemoryRuntime::new("provider", MemoryCapabilities::default());
    assert_eq!(
        runtime.search(&search_request(None), NOW_MILLIS).unwrap(),
        Budget::Unlimited
    );
    let deadline = Timestamp {
        seconds: 1_800_000_001,
        nanos: 250_999_999,
    };
    assert_eq!(
        runtime
            .search(&search_request(Some(deadline)), NOW_MILLIS)
            .unwrap(),
        Budget::Millis(1_250)
    );
    let far = Timestamp {
        seconds: i64::MAX,
        nanos: 0,
    };
    assert_eq!(
        runtime
            .search(&search_request(Some(far)), NOW_MILLIS)
            .unwrap(),
        Budget::Millis(u64::MAX)
    );
}

#[test]
fn validation_comes_before_the_deadline() {
    let runtime = MemoryRuntime::new("provider", MemoryCapabilities::default());
    let mut request = search_request(Some(Timestamp { seconds: 0, nanos: 0 }));
    request.limit = 0;
    assert_eq!(
        runtime.search(&request, NOW_MILLIS).unwrap_err().code,
        MemoryErrorCode::InvalidRequest
    );
    let batch = MemoryBatchStoreRequest {
        context: MemoryRequestContext::new("batch").unwrap(),
        requests: Vec::new(),
    };
    assert_eq!(
        runtime.batch_store(&batch, NOW_MILLIS).unwrap(),
        Budget::Unlimited
    );
}

#[test]
fn results_pass_through_as_they_came() {
    let runtime = MemoryRuntime::new("provider", MemoryCapabilities::default());
    let request = search_request(None);
    let answer = runtime
        .settle(
            &request.context,
            Attempt::Completed(Ok(synthetic_partial_result())),
        )
        .unwrap();
    assert_eq!(answer, synthetic_partial_result());
    let error = runtime
        .settle::<()>(&request.context, Attempt::Completed(Err(failure())))
        .unwrap_err();
    assert_eq!(error, failure());
}
