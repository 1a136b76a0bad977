//! Bounded queue: admission, retries, lifecycle and retained history.

use nemo_relay_memory::maintainer::MaintenanceStep;
use nemo_relay_memory::memory::{
    MemoryContent, MemoryErrorCode, MemoryFilter, MemoryMaintenanceAction,
    MemoryMaintenanceRequest, MemoryMaintenanceWindow, MemoryNamespace, MemoryOperationError,
    MemoryProvenance, MemoryRequestContext, MemorySearchScope, MemoryStoreDisposition,
    MemoryStoreRequest,
};
use nemo_relay_memory::work::WorkPayload;
use nemo_relay_memory::work_queue::{AttemptStep, SubmitEvent, SubmitStep, WorkItem};
use nemo_relay_memory::{
    InMemoryProvider, JsonObject, MemoryBackpressurePolicy, MemoryJobState, MemoryWorkKind,
    MemoryWorkOutcome, MemoryWorkQueue, MemoryWorkQueueConfig, MemoryWorkReceipt,
    MemoryWorkTransition, ReferenceMaintainer, Timestamp,
};

const NOW: Timestamp = Timestamp {
    seconds: 1_800_000_000,
    nanos: 0,
};

fn namespace(subject: &str) -> MemoryNamespace {
    MemoryNamespace {
        tenant_id: "tenant-a".to_string(),
        subject_id: subject.to_string(),
        session_id: Some("session-a".to_string()),
        agent_id: Some("agent-a".to_string()),
    }
}

fn store_request(job_id: &str, text: &str) -> MemoryStoreRequest {
    MemoryStoreRequest {
        context: MemoryRequestContext::new(job_id).expect("valid context"),
        namespace: namespace("subject-a"),
        content: MemoryContent::Text {
            text: text.to_string(),
        },
        event_timestamp: Timestamp {
            seconds: 1_782_734_400,
            nanos: 0,
        },
        provenance: MemoryProvenance {
            source: "test".to_string(),
            source_ids: vec![job_id.to_string()],
            parent_memory_ids: vec![],
            metadata: JsonObject::new(),
        },
        metadata: JsonObject::new(),
        idempotency_key: None,
    }
}

fn maintenance_request(job_id: &str, checkpoint: &str) -> MemoryMaintenanceRequest {
    MemoryMaintenanceRequest {
        context: MemoryRequestContext::new(job_id).expect("valid context"),
        namespace: namespace("subject-a"),
        action: MemoryMaintenanceAction::Reflect,
        window: Some(MemoryMaintenanceWindow {
            checkpoint_id: checkpoint.to_string(),
            previous_checkpoint_id: None,
            query: "editor preference".to_string(),
            scope: MemorySearchScope::Subject,
            filter: MemoryFilter::default(),
            limit: 10,
        }),
        parameters: JsonObject::new(),
    }
}

fn queue_config(capacity: usize) -> MemoryWorkQueueConfig {
    MemoryWorkQueueConfig {
        capacity,
        max_attempts: 1,
        attempt_timeout_millis: 10_000,
        ..MemoryWorkQueueConfig::default()
    }
}

/// A queue with its pending slots, and the transitions that an observer sees.
struct Harness {
    queue: MemoryWorkQueue,
    pending: Vec<WorkItem>,
    seen: Vec<MemoryWorkTransition>,
    now: u64,
}

impl Harness {
    fn new(config: MemoryWorkQueueConfig) -> Self {
        Self {
            queue: MemoryWorkQueue::new(config).expect("valid queue"),
            pending: Vec::new(),
            seen: Vec::new(),
            now: 0,
        }
    }

    fn submit(
        &mut self,
        request: MemoryStoreRequest,
    ) -> Result<MemoryWorkReceipt, MemoryOperationError> {
        let (item, step) = self.queue.submit_store(request, true, self.now)?;
        self.follow(item, step)
    }

    fn submit_maintenance(
        &mut self,
        request: MemoryMaintenanceRequest,
    ) -> Result<MemoryWorkReceipt, MemoryOperationError> {
        let (item, step) = self.queue.submit_maintenance(request, true, self.now)?;
        self.follow(item, step)
    }

    fn follow(
        &mut self,
        item: WorkItem,
        step: SubmitStep,
    ) -> Result<MemoryWorkReceipt, MemoryOperationError> {
        match step {
            SubmitStep::Existing(receipt) => Ok(receipt),
            SubmitStep::Refused { error, rejection } => {
                self.seen.extend(rejection);
                Err(error)
            }
            SubmitStep::Wait => {
                let resumed = self.queue.submit(&item, SubmitEvent::Resumed, self.now);
                assert_eq!(resumed, SubmitStep::Wait);
                let step = self.queue.submit(&item, SubmitEvent::TimedOut, self.now);
                self.follow(item, step)
            }
            SubmitStep::Accepted {
                receipt,
                transition,
                ..
            } => {
                self.seen.push(transition);
                self.pending.push(item);
                Ok(receipt)
            }
        }
    }

    fn receive(&mut self) -> WorkPayload {
        self.pending.remove(0).into_payload()
    }

    fn start(&mut self, job_id: &str) {
        let transition = self
            .queue
            .start_attempt(job_id, self.now)
            .expect("an attempt may start");
        self.seen.push(transition);
    }

    fn finish(
        &mut self,
        job_id: &str,
        result: Result<MemoryWorkOutcome, MemoryOperationError>,
    ) -> Option<u64> {
        let step = self
            .queue
            .finish_attempt(job_id, result, self.now)
            .expect("an attempt is running");
        match step {
            AttemptStep::Finished { transition } => {
                self.seen.push(transition);
                None
            }
            AttemptStep::Retry {
                transition,
                delay_millis,
            } => {
                self.seen.push(transition);
                Some(delay_millis)
            }
        }
    }

    fn state(&self, job_id: &str) -> MemoryJobState {
        self.queue.job(job_id).expect("job retained").state
    }
}

fn outcome(id: &str) -> MemoryWorkOutcome {
    MemoryWorkOutcome {
        memory_ids: vec![id.to_string()],
        disposition: Some(MemoryStoreDisposition::Created),
        partial_error_count: 0,
    }
}

fn failure(retryable: bool) -> MemoryOperationError {
    MemoryOperationError::new(
        if retryable {
            MemoryErrorCode::ProviderUnavailable
        } else {
            MemoryErrorCode::InvalidRequest
        },
        "controlled failure",
        retryable,
    )
}

#[test]
fn queue_config_rejects_unbounded_or_incoherent_values() {
    let invalid = [
        MemoryWorkQueueConfig {
            capacity: 0,
            ..MemoryWorkQueueConfig::default()
        },
        MemoryWorkQueueConfig {
            backpressure: MemoryBackpressurePolicy::Wait,
            enqueue_timeout_millis: 0,
            ..MemoryWorkQueueConfig::default()
        },
        MemoryWorkQueueConfig {
            max_attempts: 0,
            ..MemoryWorkQueueConfig::default()
        },
        MemoryWorkQueueConfig {
            attempt_timeout_millis: 0,
            ..MemoryWorkQueueConfig::default()
        },
        MemoryWorkQueueConfig {
            retry_initial_delay_millis: 2,
            retry_max_delay_millis: 1,
            ..MemoryWorkQueueConfig::default()
        },
        MemoryWorkQueueConfig {
            terminal_history_capacity: 0,
            ..MemoryWorkQueueConfig::default()
        },
    ];
    for config in invalid {
        let error = config.validate().expect_err("config must fail");
        assert_eq!(error.code, MemoryErrorCode::InvalidRequest);
        assert_eq!(error.provider.as_deref(), Some("memory_work_queue"));
        assert_eq!(error.operation_id.as_deref(), Some("configuration"));
        assert!(MemoryWorkQueue::new(config).is_err());
    }
    assert!(MemoryWorkQueueConfig::default().validate().is_ok());
}

#[test]
fn queue_construction_is_lazy_and_does_not_require_a_runtime() {
    let queue =
        MemoryWorkQueue::new(queue_config(1)).expect("queue construction is synchronous");
    let snapshot = queue.snapshot();
    assert!(snapshot.accepting);
    assert_eq!(snapshot.accepted_total, 0);
    assert_eq!(snapshot.queued, 0);
    assert_eq!(snapshot.running, 0);
}

#[test]
fn the_first_submission_starts_the_worker_once() {
    let mut queue = MemoryWorkQueue::new(queue_config(1)).expect("valid queue");
    let (_, step) = queue
        .submit_store(store_request("idle", "x"), false, 0)
        .expect("valid request");
    match step {
        SubmitStep::Refused { error, rejection } => {
            assert_eq!(error.code, MemoryErrorCode::InvalidRequest);
            assert_eq!(
                rejection.expect("counted").state,
                MemoryJobState::Rejected
            );
        }
        other => panic!("expected a refusal, got {other:?}"),
    }
    assert_eq!(queue.snapshot().rejected_total, 1);
    let (_, step) = queue
        .submit_store(store_request("first", "x"), true, 0)
        .expect("valid request");
    assert!(matches!(step, SubmitStep::Accepted { start: true, .. }));
    queue.start_attempt("first", 0).expect("attempt starts");
    let (_, step) = queue
        .submit_store(store_request("second", "x"), false, 0)
        .expect("valid request");
    assert!(matches!(step, SubmitStep::Accepted { start: false, .. }));
}

#[test]
fn first_submission_and_shutdown_race_cannot_restart_or_hang_the_queue() {
    let config = MemoryWorkQueueConfig {
        backpressure: MemoryBackpressurePolicy::Wait,
        ..queue_config(1)
    };
    let mut queue = MemoryWorkQueue::new(config).expect("valid queue");
    let (_, step) = queue
        .submit_store(store_request("first", "raced"), true, 0)
        .expect("valid request");
    assert!(matches!(step, SubmitStep::Accepted { start: true, .. }));
    let (item, step) = queue
        .submit_store(store_request("race", "raced"), true, 0)
        .expect("valid request");
    assert_eq!(step, SubmitStep::Wait);
    let target = queue.close_admission();
    queue.start_attempt("first", 0).expect("attempt starts");
    for event in [
        SubmitEvent::Resumed,
        SubmitEvent::Closed,
        SubmitEvent::Requested {
            runtime_active: true,
        },
    ] {
        match queue.submit(&item, event, 0) {
            SubmitStep::Refused { error, .. } => {
                assert_eq!(error.code, MemoryErrorCode::Cancelled);
            }
            other => panic!("expected a refusal, got {other:?}"),
        }
    }
    queue
        .finish_attempt("first", Ok(outcome("memory-1")), 0)
        .expect("attempt ends");
    assert!(queue.is_settled(target));
    assert!(!queue.snapshot().accepting);
    assert_eq!(queue.snapshot().accepted_total, 1);
}

#[test]
fn reject_backpressure_never_exceeds_pending_capacity() {
    let mut harness = Harness::new(queue_config(1));
    harness
        .submit(store_request("job-1", "first"))
        .expect("first accepted");
    harness.receive();
    harness.start("job-1");
    harness
        .submit(store_request("job-2", "second"))
        .expect("second fills pending capacity");
    let error = harness
        .submit(store_request("job-3", "third"))
        .expect_err("third must be rejected");
    assert_eq!(error.code, MemoryErrorCode::ProviderUnavailable);
    assert!(error.retryable);
    let snapshot = harness.queue.snapshot();
    assert_eq!(snapshot.running, 1);
    assert_eq!(snapshot.queued, 1);
    assert_eq!(snapshot.rejected_total, 1);
    assert_eq!(snapshot.accepted_total, 2);

    harness.finish("job-1", Ok(outcome("memory-1")));
    harness.receive();
    harness.start("job-2");
    harness.finish("job-2", Ok(outcome("memory-2")));
    assert_eq!(harness.queue.snapshot().succeeded_total, 2);
    assert!(harness.queue.job("job-3").is_none());
}

#[test]
fn identical_job_is_deduplicated_and_changed_payload_conflicts() {
    let mut harness = Harness::new(queue_config(2));
    let request = store_request("same-job", "original");
    let first = harness.submit(request.clone()).expect("first accepted");
    harness.receive();
    harness.start("same-job");
    let duplicate = harness
        .submit(request)
        .expect("identical replay returns retained receipt");
    assert_eq!(duplicate.sequence, first.sequence);
    assert_eq!(duplicate.state, MemoryJobState::Running);
    assert!(harness.pending.is_empty());

    let conflict = harness
        .submit(store_request("same-job", "changed"))
        .expect_err("changed payload must conflict");
    assert_eq!(conflict.code, MemoryErrorCode::Conflict);
    assert_eq!(harness.queue.snapshot().rejected_total, 0);
    let conflict = harness
        .submit_maintenance(maintenance_request("same-job", "checkpoint"))
        .expect_err("another kind must conflict");
    assert_eq!(conflict.code, MemoryErrorCode::Conflict);
}

#[test]
fn a_job_that_appears_while_waiting_is_not_accepted_twice() {
    let mut queue = MemoryWorkQueue::new(queue_config(2)).expect("valid queue");
    let item = WorkItem::store(store_request("twice", "x")).expect("valid work");
    let first = queue.submit(&item, SubmitEvent::Resumed, 0);
    let second = queue.submit(&item, SubmitEvent::Resumed, 0);
    match (first, second) {
        (SubmitStep::Accepted { receipt, .. }, SubmitStep::Existing(existing)) => {
            assert_eq!(receipt, existing);
        }
        other => panic!("unexpected steps {other:?}"),
    }
    assert_eq!(queue.snapshot().accepted_total, 1);
}

#[test]
fn wait_backpressure_has_a_deterministic_admission_deadline() {
    let mut harness = Harness::new(MemoryWorkQueueConfig {
        capacity: 1,
        backpressure: MemoryBackpressurePolicy::Wait,
        enqueue_timeout_millis: 100,
        max_attempts: 1,
        attempt_timeout_millis: 10_000,
        ..MemoryWorkQueueConfig::default()
    });
    harness
        .submit(store_request("wait-1", "first"))
        .expect("first accepted");
    harness.receive();
    harness.start("wait-1");
    harness
        .submit(store_request("wait-2", "second"))
        .expect("second queued");
    let error = harness
        .submit(store_request("wait-3", "third"))
        .expect_err("capacity wait times out");
    assert_eq!(error.code, MemoryErrorCode::DeadlineExceeded);
    assert_eq!(harness.queue.snapshot().rejected_total, 1);
}

#[test]
fn wait_backpressure_admits_after_capacity_and_drain_closes_the_queue() {
    let mut harness = Harness::new(MemoryWorkQueueConfig {
        capacity: 1,
        backpressure: MemoryBackpressurePolicy::Wait,
        enqueue_timeout_millis: 1_000,
        max_attempts: 1,
        attempt_timeout_millis: 10_000,
        ..MemoryWorkQueueConfig::default()
    });
    harness
        .submit(store_request("admit-1", "first"))
        .expect("first accepted");
    harness.receive();
    harness.start("admit-1");
    harness
        .submit(store_request("admit-2", "second"))
        .expect("second queued");
    let (third, step) = harness
        .queue
        .submit_store(store_request("admit-3", "third"), true, 0)
        .expect("valid request");
    assert_eq!(step, SubmitStep::Wait);
    harness.finish("admit-1", Ok(outcome("memory-1")));
    harness.receive();
    harness.start("admit-2");
    let step = harness.queue.submit(&third, SubmitEvent::Resumed, 0);
    let receipt = harness
        .follow(third, step)
        .expect("capacity release admits third job");
    assert_eq!(receipt.sequence, 3);

    let target = harness.queue.close_admission();
    assert!(!harness.queue.is_settled(target));
    harness.finish("admit-2", Ok(outcome("memory-2")));
    harness.start("admit-3");
    harness.finish("admit-3", Ok(outcome("memory-3")));
    assert!(harness.queue.is_settled(target));
    assert!(!harness.queue.snapshot().accepting);
    assert_eq!(harness.queue.snapshot().succeeded_total, 3);
    assert_eq!(
        harness
            .submit(store_request("after-drain", "closed"))
            .expect_err("drained queue is closed")
            .code,
        MemoryErrorCode::Cancelled
    );
}

#[test]
fn retries_only_retryable_errors_and_preserves_idempotency() {
    let mut harness = Harness::new(MemoryWorkQueueConfig {
        capacity: 2,
        max_attempts: 3,
        retry_initial_delay_millis: 10,
        retry_max_delay_millis: 20,
        attempt_timeout_millis: 1_000,
        ..MemoryWorkQueueConfig::default()
    });
    harness
        .submit(store_request("retry-job", "eventual"))
        .expect("job accepted");
    let payload = harness.receive();
    match &payload {
        WorkPayload::Store(request) => assert_eq!(
            request.idempotency_key.as_deref(),
            Some("memory-work:retry-job")
        ),
        WorkPayload::Maintenance(_) => panic!("a store was submitted"),
    }
    harness.start("retry-job");
    assert_eq!(harness.finish("retry-job", Err(failure(true))), Some(10));
    assert_eq!(harness.state("retry-job"), MemoryJobState::Retrying);
    assert_eq!(harness.queue.snapshot().retrying, 1);
    harness.now = 10;
    harness.start("retry-job");
    assert_eq!(harness.finish("retry-job", Err(failure(true))), Some(20));
    harness.now = 30;
    harness.start("retry-job");
    assert_eq!(harness.finish("retry-job", Ok(outcome("memory-1"))), None);

    let job = harness.queue.job("retry-job").expect("job retained");
    assert_eq!(job.attempts, 3);
    assert_eq!(job.outcome.expect("success outcome").memory_ids.len(), 1);
    let states = harness
        .seen
        .iter()
        .map(|transition| transition.state)
        .collect::<Vec<_>>();
    assert_eq!(
        states,
        [
            MemoryJobState::Queued,
            MemoryJobState::Running,
            MemoryJobState::Retrying,
            MemoryJobState::Running,
            MemoryJobState::Retrying,
            MemoryJobState::Running,
            MemoryJobState::Succeeded,
        ]
    );
    assert_eq!(harness.seen.last().expect("last").elapsed_millis, 30);
}

#[test]
fn retry_delays_double_up_to_their_maximum() {
    let config = MemoryWorkQueueConfig {
        retry_initial_delay_millis: 25,
        retry_max_delay_millis: 1_000,
        ..MemoryWorkQueueConfig::default()
    };
    let delays: Vec<u64> = (1..=8).map(|attempt| config.retry_delay_millis(attempt)).collect();
    assert_eq!(delays, [25, 50, 100, 200, 400, 800, 1_000, 1_000]);
    let extreme = MemoryWorkQueueConfig {
        retry_initial_delay_millis: u64::MAX,
        retry_max_delay_millis: u64::MAX,
        ..MemoryWorkQueueConfig::default()
    };
    assert_eq!(extreme.retry_delay_millis(2), u64::MAX);
}

#[test]
fn non_retryable_failure_is_terminal_after_one_attempt() {
    let mut harness = Harness::new(MemoryWorkQueueConfig {
        max_attempts: 5,
        ..queue_config(1)
    });
    harness
        .submit(store_request("no-retry", "invalid"))
        .expect("job accepted");
    harness.receive();
    harness.start("no-retry");
    assert_eq!(harness.finish("no-retry", Err(failure(false))), None);
    let target = harness.queue.flush_target();
    assert!(harness.queue.is_settled(target));
    let job = harness.queue.job("no-retry").expect("job retained");
    assert_eq!(job.state, MemoryJobState::Failed);
    assert_eq!(job.attempts, 1);
    assert_eq!(harness.queue.snapshot().failed_total, 1);
}

#[test]
fn attempt_timeout_retries_then_exhausts() {
    let mut harness = Harness::new(MemoryWorkQueueConfig {
        capacity: 1,
        max_attempts: 2,
        retry_initial_delay_millis: 5,
        retry_max_delay_millis: 5,
        attempt_timeout_millis: 10,
        ..MemoryWorkQueueConfig::default()
    });
    harness
        .submit(store_request("timeout-job", "blocked"))
        .expect("job accepted");
    harness.receive();
    harness.start("timeout-job");
    let timeout = MemoryWorkQueue::attempt_timeout_error("timeout-job");
    assert_eq!(harness.finish("timeout-job", Err(timeout.clone())), Some(5));
    harness.start("timeout-job");
    assert_eq!(harness.finish("timeout-job", Err(timeout)), None);
    let job = harness.queue.job("timeout-job").expect("job retained");
    assert_eq!(job.attempts, 2);
    assert_eq!(job.state, MemoryJobState::Failed);
    assert_eq!(
        job.error.expect("timeout error").code,
        MemoryErrorCode::DeadlineExceeded
    );
    assert!(harness.queue.start_attempt("timeout-job", 0).is_none());
}

#[test]
fn flush_uses_the_acceptance_watermark_and_ignores_later_work() {
    let mut harness = Harness::new(queue_config(2));
    harness
        .submit(store_request("watermark-1", "first"))
        .expect("first accepted");
    harness.receive();
    harness.start("watermark-1");
    let target = harness.queue.flush_target();
    assert!(!harness.queue.is_settled(target));
    harness
        .submit(store_request("watermark-2", "second"))
        .expect("later job accepted");
    harness.finish("watermark-1", Ok(outcome("memory-1")));
    assert!(harness.queue.is_settled(target));
    assert!(!harness.queue.is_settled(harness.queue.flush_target()));
    harness.receive();
    harness.start("watermark-2");
    assert_eq!(harness.state("watermark-2"), MemoryJobState::Running);
}

#[test]
fn the_watermark_waits_for_an_earlier_job_that_ends_later() {
    let mut harness = Harness::new(queue_config(2));
    harness.submit(store_request("early", "1")).expect("accepted");
    harness.submit(store_request("late", "2")).expect("accepted");
    harness.start("late");
    harness.finish("late", Ok(outcome("memory-2")));
    assert_eq!(harness.queue.snapshot().last_terminal_sequence, 0);
    harness.start("early");
    harness.finish("early", Ok(outcome("memory-1")));
    assert_eq!(harness.queue.snapshot().last_terminal_sequence, 2);
}

#[test]
fn flush_timeout_does_not_close_admission_or_abandon_work() {
    let mut harness = Harness::new(queue_config(1));
    harness
        .submit(store_request("flush-timeout", "blocked"))
        .expect("job accepted");
    harness.receive();
    harness.start("flush-timeout");
    assert!(!harness.queue.is_settled(harness.queue.flush_target()));
    let error = MemoryWorkQueue::wait_error("flush");
    assert_eq!(error.code, MemoryErrorCode::DeadlineExceeded);
    assert_eq!(error.message, "memory work queue flush deadline exceeded");
    assert!(harness.queue.snapshot().accepting);
    assert_eq!(harness.state("flush-timeout"), MemoryJobState::Running);
}

#[test]
fn maintenance_jobs_share_queue_lifecycle_and_return_derived_ids() {
    let mut provider = InMemoryProvider::new();
    provider
        .store(
            store_request("source-for-maintenance", "editor preference dark"),
            NOW,
        )
        .expect("source stored");
    let mut harness = Harness::new(queue_config(2));
    harness
        .submit_maintenance(maintenance_request("maintenance-job", "checkpoint-a"))
        .expect("maintenance accepted");
    let mut payload = harness.receive();
    assert_eq!(payload.kind(), MemoryWorkKind::Maintenance);
    harness.start("maintenance-job");
    payload.refresh_deadline(NOW, 2_500);
    let result = match payload {
        WorkPayload::Maintenance(request) => {
            assert_eq!(
                request.context.deadline,
                Some(Timestamp {
                    seconds: 1_800_000_002,
                    nanos: 500_000_000
                })
            );
            let plan = ReferenceMaintainer.plan(request).expect("valid plan");
            let found = provider.search(&plan.search_request()).expect("search");
            match plan.derive(found) {
                MaintenanceStep::Store {
                    request,
                    partial_errors,
                } => {
                    let stored = provider.store(request, NOW).expect("store");
                    ReferenceMaintainer.finish(stored, partial_errors)
                }
                MaintenanceStep::Finished(result) => result,
            }
        }
        WorkPayload::Store(_) => panic!("maintenance was submitted"),
    };
    harness.finish(
        "maintenance-job",
        Ok(MemoryWorkOutcome::of_maintenance(&result)),
    );
    let job = harness.queue.job("maintenance-job").expect("job retained");
    assert_eq!(job.state, MemoryJobState::Succeeded);
    assert_eq!(job.outcome.expect("outcome").memory_ids.len(), 1);
}

#[test]
fn terminal_history_is_bounded_without_losing_lifetime_counters() {
    let mut harness = Harness::new(MemoryWorkQueueConfig {
        terminal_history_capacity: 2,
        ..queue_config(2)
    });
    let mut provider = InMemoryProvider::new();
    for index in 1..=3 {
        let job_id = format!("history-{index}");
        harness
            .submit(store_request(&job_id, &format!("item {index}")))
            .expect("job accepted");
        harness.start(&job_id);
        let stored = match harness.receive() {
            WorkPayload::Store(request) => provider.store(request, NOW).expect("stored"),
            WorkPayload::Maintenance(_) => panic!("a store was submitted"),
        };
        harness.finish(&job_id, Ok(MemoryWorkOutcome::of_store(stored)));
    }
    assert!(harness.queue.job("history-1").is_none());
    assert!(harness.queue.job("history-2").is_some());
    assert!(harness.queue.job("history-3").is_some());
    let snapshot = harness.queue.snapshot();
    assert_eq!(snapshot.succeeded_total, 3);
    assert_eq!(snapshot.retained_terminal_jobs, 2);
    assert_eq!(snapshot.last_terminal_sequence, 3);
    let again = harness
        .submit(store_request("history-1", "item 1"))
        .expect("a forgotten job is new");
    assert_eq!(again.sequence, 4);
}

#[test]
fn shutdown_timeout_cancels_nonterminal_work_and_is_idempotent() {
    let mut harness = Harness::new(queue_config(1));
    harness
        .submit(store_request("cancelled-job", "blocked"))
        .expect("job accepted");
    harness.receive();
    harness.start("cancelled-job");
    let target = harness.queue.close_admission();
    assert!(!harness.queue.is_settled(target));
    harness.now = 10;
    let (ended, cancelled) = harness.queue.end_shutdown(false, harness.now);
    let error = ended.expect_err("work was left");
    assert_eq!(error.code, MemoryErrorCode::DeadlineExceeded);
    assert_eq!(error.message, "memory work queue shutdown deadline exceeded");
    assert_eq!(harness.state("cancelled-job"), MemoryJobState::Cancelled);
    assert!(!harness.queue.snapshot().accepting);
    assert_eq!(harness.queue.snapshot().cancelled_total, 1);
    assert_eq!(cancelled.len(), 1);
    assert_eq!(cancelled[0].state, MemoryJobState::Cancelled);
    assert_eq!(cancelled[0].elapsed_millis, 10);
    assert_eq!(
        cancelled[0].error.as_ref().expect("failure").message,
        "memory queue shutdown deadline exceeded"
    );
    assert_eq!(
        harness
            .submit(store_request("after-close", "rejected"))
            .expect_err("closed queue rejects")
            .code,
        MemoryErrorCode::Cancelled
    );
    let target = harness.queue.close_admission();
    assert!(harness.queue.is_settled(target));
    let (ended, cancelled) = harness.queue.end_shutdown(true, harness.now);
    assert_eq!(ended, Ok(()));
    assert!(cancelled.is_empty());
    assert!(harness
        .queue
        .cancel_nonterminal("again", harness.now)
        .is_empty());
    assert!(harness
        .queue
        .finish_attempt("cancelled-job", Ok(outcome("late")), 11)
        .is_none());
    assert_eq!(harness.queue.snapshot().succeeded_total, 0);
}

#[test]
fn invalid_work_is_refused_before_admission() {
    let mut queue = MemoryWorkQueue::new(queue_config(1)).expect("valid queue");
    let error = queue
        .submit_store(store_request("blank", " "), true, 0)
        .expect_err("blank text is invalid");
    assert_eq!(error.code, MemoryErrorCode::InvalidRequest);
    let mut request = maintenance_request("job", "checkpoint");
    request.window.as_mut().expect("window").limit = 0;
    let error = queue
        .submit_maintenance(request, true, 0)
        .expect_err("an empty window is invalid");
    assert_eq!(error.code, MemoryErrorCode::InvalidRequest);
    assert_eq!(queue.snapshot().rejected_total, 0);
}

#[test]
fn background_status_types_remain_serializable_for_bindings() {
    let status = MemoryJobState::Queued;
    assert_eq!(status.name(), "queued");
    assert_eq!(MemoryJobState::Retrying.name(), "retrying");
    assert!(MemoryJobState::Rejected.is_terminal());
    assert!(!MemoryJobState::Retrying.is_terminal());
}

#[test]
fn a_retried_store_creates_one_record() {
    let mut provider = InMemoryProvider::new();
    let item = WorkItem::store(store_request("retried", "fact")).expect("valid work");
    let mut payload = item.into_payload();
    let mut seen = Vec::new();
    for attempt in 1..=2 {
        payload.refresh_deadline(NOW.plus_millis(attempt), 1_000);
        if let WorkPayload::Store(request) = &payload {
            let stored = provider
                .store(request.clone(), NOW.plus_millis(attempt))
                .expect("stored");
            seen.push((stored.record.id.clone(), stored.disposition));
        }
    }
    assert_eq!(
        seen,
        [
            (
                "memory-0000000000000001".to_string(),
                MemoryStoreDisposition::Created
            ),
            (
                "memory-0000000000000001".to_string(),
                MemoryStoreDisposition::Existing
            ),
        ]
    );
}

#[test]
fn a_shutdown_that_settled_cancels_nothing() {
    let mut harness = Harness::new(queue_config(2));
    harness
        .submit(store_request("done", "x"))
        .expect("job accepted");
    harness.receive();
    harness.start("done");
    harness.finish("done", Ok(outcome("memory-1")));
    let target = harness.queue.close_admission();
    assert!(harness.queue.is_settled(target));
    let before = harness.queue.snapshot();
    let (ended, cancelled) = harness.queue.end_shutdown(true, 5);
    assert_eq!(ended, Ok(()));
    assert!(cancelled.is_empty());
    assert_eq!(harness.queue.snapshot(), before);
}

#[test]
fn cancelling_leaves_terminal_jobs() {
    let mut harness = Harness::new(queue_config(2));
    harness
        .submit(store_request("done", "x"))
        .expect("job accepted");
    harness
        .submit(store_request("left", "y"))
        .expect("job accepted");
    harness.receive();
    harness.start("done");
    harness.finish("done", Ok(outcome("memory-1")));
    let before = harness.queue.job("done").expect("job retained");
    harness.queue.close_admission();
    let (_, cancelled) = harness.queue.end_shutdown(false, 5);
    assert_eq!(cancelled.len(), 1);
    assert_eq!(cancelled[0].job_id, "left");
    assert_eq!(harness.queue.job("done"), Some(before));
    assert_eq!(harness.state("left"), MemoryJobState::Cancelled);
}

#[test]
fn a_closed_queue_still_knows_its_jobs() {
    let mut harness = Harness::new(queue_config(2));
    let request = store_request("known", "x");
    let first = harness.submit(request.clone()).expect("job accepted");
    harness.queue.close_admission();
    let again = harness.submit(request).expect("a retained job is known");
    assert_eq!(again.sequence, first.sequence);
    let conflict = harness
        .submit(store_request("known", "changed"))
        .expect_err("changed payload must conflict");
    assert_eq!(conflict.code, MemoryErrorCode::Conflict);
    assert_eq!(
        conflict.message,
        "memory work job ID was reused with a different payload"
    );
    assert!(!conflict.retryable);
    assert_eq!(conflict.operation_id.as_deref(), Some("known"));
    assert_eq!(harness.queue.snapshot().rejected_total, 0);
    assert_eq!(
        harness
            .submit(store_request("new", "x"))
            .expect_err("closed queue rejects")
            .code,
        MemoryErrorCode::Cancelled
    );
}

#[test]
fn the_queue_has_a_single_consumer() {
    let mut config = queue_config(3);
    config.max_attempts = 2;
    let mut harness = Harness::new(config);
    for job_id in ["one", "two"] {
        harness
            .submit(store_request(job_id, "x"))
            .expect("job accepted");
    }
    harness.start("one");
    assert!(harness.queue.start_attempt("two", 0).is_none());
    assert_eq!(harness.state("two"), MemoryJobState::Queued);
    assert!(harness.finish("one", Err(failure(true))).is_some());
    assert_eq!(harness.state("one"), MemoryJobState::Retrying);
    assert!(harness.queue.start_attempt("two", 0).is_none());
    harness.start("one");
    harness.finish("one", Ok(outcome("memory-1")));
    harness.start("two");
    let snapshot = harness.queue.snapshot();
    assert_eq!(snapshot.running + snapshot.retrying, 1);
    let seen = harness.seen.last().expect("a transition").clone();
    assert_eq!(seen.job_id, "two");
    assert_eq!(Some(&seen), harness.seen.last());
}
