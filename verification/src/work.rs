//! Work for the bounded queue: its configuration, its kinds and what becomes of a job.

use vstd::prelude::*;
use crate::error::ErrorView;
use crate::json::{json_bytes, Json, JsonModel};
use crate::memory::{
    MaintenanceRequestView, MemoryErrorCode, MemoryMaintenanceRequest, MemoryOperationError,
    MemoryStoreDisposition, MemoryStoreRequest, StoreRequestView,
};
use crate::text::{concat, texts};
use crate::wire::{
    maintenance_request_json, maintenance_request_model, maintenance_request_model_is_injective,
    store_request_json, store_request_model, store_request_model_is_injective,
};

verus! {

/// The provider name that failures of a queue carry.
pub const QUEUE_PROVIDER: &'static str = "memory_work_queue";

/// A failure of the queue itself.
pub open spec fn queue_failure(
    code: MemoryErrorCode,
    message: Seq<char>,
    retryable: bool,
    operation_id: Seq<char>,
) -> ErrorView {
    ErrorView::new(code, message, retryable).of(operation_id, QUEUE_PROVIDER@)
}

pub(crate) fn queue_error(
    code: MemoryErrorCode,
    message: &str,
    retryable: bool,
    operation_id: &str,
) -> (r:
    MemoryOperationError)
    ensures
        r@ == queue_failure(code, message@, retryable, operation_id@),
{
    MemoryOperationError::new(code, message, retryable).with_operation_id(
        operation_id,
    ).with_provider(QUEUE_PROVIDER)
}

/// A fault in a queue's configuration.
pub open spec fn config_failure(message: Seq<char>) -> ErrorView {
    queue_failure(MemoryErrorCode::InvalidRequest, message, false, "configuration"@)
}

pub(crate) fn invalid_config(message: &str) -> (r: MemoryOperationError)
    ensures
        r@ == config_failure(message@),
{
    queue_error(MemoryErrorCode::InvalidRequest, message, false, "configuration")
}

/// The failure of work that comes after admission has closed.
pub open spec fn closed_failure(operation_id: Seq<char>) -> ErrorView {
    queue_failure(
        MemoryErrorCode::Cancelled,
        "memory work queue is not accepting jobs"@,
        false,
        operation_id,
    )
}

pub(crate) fn closed_error(operation_id: &str) -> (r: MemoryOperationError)
    ensures
        r@ == closed_failure(operation_id@),
{
    queue_error(
        MemoryErrorCode::Cancelled,
        "memory work queue is not accepting jobs",
        false,
        operation_id,
    )
}

/// Admission behavior when the pending queue is full.
#[derive(Debug, Clone, Copy, PartialEq, Eq, Structural)]
pub enum MemoryBackpressurePolicy {
    /// Reject the new job immediately.
    Reject,
    /// Wait up to `enqueue_timeout_millis` for pending capacity.
    Wait,
}

impl Default for MemoryBackpressurePolicy {
    fn default() -> (r: Self)
        ensures
            r == MemoryBackpressurePolicy::Reject,
    {
        MemoryBackpressurePolicy::Reject
    }
}

/// Bounded local worker policy.
#[derive(Debug, Clone, Copy, PartialEq, Eq, Structural)]
pub struct MemoryWorkQueueConfig {
    /// Maximum pending jobs. The currently running job is not counted.
    pub capacity: usize,
    /// Behavior when all pending slots are occupied.
    pub backpressure: MemoryBackpressurePolicy,
    /// Maximum capacity wait for the `wait` policy.
    pub enqueue_timeout_millis: u64,
    /// Maximum executions of one job, including the first attempt.
    pub max_attempts: u32,
    /// Delay before the first retry.
    pub retry_initial_delay_millis: u64,
    /// Maximum delay between attempts.
    pub retry_max_delay_millis: u64,
    /// Fresh provider deadline assigned to each attempt.
    pub attempt_timeout_millis: u64,
    /// Maximum number of terminal jobs retained for inspection/deduplication.
    pub terminal_history_capacity: usize,
}

/// The configuration that a queue has where nothing else is said.
pub open spec fn default_queue_config() -> MemoryWorkQueueConfig {
    MemoryWorkQueueConfig {
        capacity: 64,
        backpressure: MemoryBackpressurePolicy::Reject,
        enqueue_timeout_millis: 250,
        max_attempts: 3,
        retry_initial_delay_millis: 25,
        retry_max_delay_millis: 1_000,
        attempt_timeout_millis: 2_000,
        terminal_history_capacity: 1_024,
    }
}

impl Default for MemoryWorkQueueConfig {
    fn default() -> (r: Self)
        ensures
            r == default_queue_config(),
    {
        MemoryWorkQueueConfig {
            capacity: 64,
            backpressure: MemoryBackpressurePolicy::Reject,
            enqueue_timeout_millis: 250,
            max_attempts: 3,
            retry_initial_delay_millis: 25,
            retry_max_delay_millis: 1_000,
            attempt_timeout_millis: 2_000,
            terminal_history_capacity: 1_024,
        }
    }
}

/// The first fault of a queue's configuration.
pub open spec fn queue_config_fault(config: MemoryWorkQueueConfig) -> Option<Seq<char>> {
    if config.capacity == 0 {
        Some("capacity must be positive"@)
    } else if config.backpressure == MemoryBackpressurePolicy::Wait && config.enqueue_timeout_millis
        == 0 {
        Some("enqueue_timeout_millis must be positive for wait backpressure"@)
    } else if config.max_attempts == 0 {
        Some("max_attempts must be positive"@)
    } else if config.attempt_timeout_millis == 0 {
        Some("attempt_timeout_millis must be positive"@)
    } else if config.retry_initial_delay_millis > config.retry_max_delay_millis {
        Some("retry_initial_delay_millis must not exceed retry_max_delay_millis"@)
    } else if config.terminal_history_capacity == 0 {
        Some("terminal_history_capacity must be positive"@)
    } else {
        None
    }
}

impl MemoryWorkQueueConfig {
    /// Validate queue bounds and timing policy.
    pub fn validate(&self) -> (r: Result<(), MemoryOperationError>)
        ensures
            match queue_config_fault(*self) {
                None => r is Ok,
                Some(message) => r matches Err(error) && error@ == config_failure(message),
            },
    {
        if self.capacity == 0 {
            return Err(invalid_config("capacity must be positive"));
        }
        if matches!(self.backpressure, MemoryBackpressurePolicy::Wait)
            && self.enqueue_timeout_millis == 0 {
            return Err(
                invalid_config("enqueue_timeout_millis must be positive for wait backpressure"),
            );
        }
        if self.max_attempts == 0 {
            return Err(invalid_config("max_attempts must be positive"));
        }
        if self.attempt_timeout_millis == 0 {
            return Err(invalid_config("attempt_timeout_millis must be positive"));
        }
        if self.retry_initial_delay_millis > self.retry_max_delay_millis {
            return Err(
                invalid_config("retry_initial_delay_millis must not exceed retry_max_delay_millis"),
            );
        }
        if self.terminal_history_capacity == 0 {
            return Err(invalid_config("terminal_history_capacity must be positive"));
        }
        Ok(())
    }
}

/// Kind of mutation executed by the local worker.
#[derive(Debug, Clone, Copy, PartialEq, Eq, Structural)]
pub enum MemoryWorkKind {
    /// Persist one memory record.
    Store,
    /// Derive memory through a maintainer.
    Maintenance,
}

/// Monotonic lifecycle state of one queued job.
#[derive(Debug, Clone, Copy, PartialEq, Eq, Structural)]
pub enum MemoryJobState {
    /// Accepted and waiting for the single consumer.
    Queued,
    /// One provider/maintainer attempt is running.
    Running,
    /// A retryable attempt failed and another attempt is scheduled.
    Retrying,
    /// Work completed successfully.
    Succeeded,
    /// Work reached a terminal execution failure.
    Failed,
    /// Admission failed before the job was accepted.
    Rejected,
    /// Shutdown timed out and cancelled accepted work.
    Cancelled,
}

/// No further transition is possible.
pub open spec fn terminal_state(state: MemoryJobState) -> bool {
    state is Succeeded || state is Failed || state is Rejected || state is Cancelled
}

/// The name of a job state on the wire.
pub open spec fn job_state_name(state: MemoryJobState) -> Seq<char> {
    match state {
        MemoryJobState::Queued => "queued"@,
        MemoryJobState::Running => "running"@,
        MemoryJobState::Retrying => "retrying"@,
        MemoryJobState::Succeeded => "succeeded"@,
        MemoryJobState::Failed => "failed"@,
        MemoryJobState::Rejected => "rejected"@,
        MemoryJobState::Cancelled => "cancelled"@,
    }
}

impl MemoryJobState {
    /// Return whether no further transition is possible.
    pub fn is_terminal(self) -> (r: bool)
        ensures
            r == terminal_state(self),
    {
        matches!(
            self,
            MemoryJobState::Succeeded | MemoryJobState::Failed | MemoryJobState::Rejected
                | MemoryJobState::Cancelled
        )
    }

    /// The name of the state on the wire.
    pub fn name(self) -> (r: &'static str)
        ensures
            r@ == job_state_name(self),
    {
        match self {
            MemoryJobState::Queued => "queued",
            MemoryJobState::Running => "running",
            MemoryJobState::Retrying => "retrying",
            MemoryJobState::Succeeded => "succeeded",
            MemoryJobState::Failed => "failed",
            MemoryJobState::Rejected => "rejected",
            MemoryJobState::Cancelled => "cancelled",
        }
    }
}

/// Successful mutation references retained in job status.
#[derive(Debug, PartialEq, Eq)]
pub struct MemoryWorkOutcome {
    /// Stable provider record IDs created or replayed by the job.
    pub memory_ids: Vec<String>,
    /// Store disposition for direct store work.
    pub disposition: Option<MemoryStoreDisposition>,
    /// Number of non-fatal provider errors returned with successful work.
    pub partial_error_count: usize,
}

/// What a successful job came to.
pub struct OutcomeView {
    pub memory_ids: Seq<Seq<char>>,
    pub disposition: Option<MemoryStoreDisposition>,
    pub partial_error_count: nat,
}

impl View for MemoryWorkOutcome {
    type V = OutcomeView;

    open spec fn view(&self) -> OutcomeView {
        OutcomeView {
            memory_ids: texts(self.memory_ids@),
            disposition: self.disposition,
            partial_error_count: self.partial_error_count as nat,
        }
    }
}

impl Clone for MemoryWorkOutcome {
    fn clone(&self) -> (r: Self)
        ensures
            r@ == self@,
    {
        let memory_ids = self.memory_ids.clone();
        assert(texts(memory_ids@) =~= texts(self.memory_ids@));
        MemoryWorkOutcome {
            memory_ids,
            disposition: self.disposition,
            partial_error_count: self.partial_error_count,
        }
    }
}

impl Default for MemoryWorkOutcome {
    fn default() -> (r: Self)
        ensures
            r@ == (OutcomeView {
                memory_ids: Seq::empty(),
                disposition: None,
                partial_error_count: 0,
            }),
    {
        let r = MemoryWorkOutcome {
            memory_ids: Vec::new(),
            disposition: None,
            partial_error_count: 0,
        };
        assert(r@.memory_ids =~= Seq::empty());
        r
    }
}

/// The view of an optional failure.
pub open spec fn opt_error(error: Option<MemoryOperationError>) -> Option<ErrorView> {
    match error {
        Some(error) => Some(error@),
        None => None,
    }
}

/// The view of an optional outcome.
pub open spec fn opt_outcome(outcome: Option<MemoryWorkOutcome>) -> Option<OutcomeView> {
    match outcome {
        Some(outcome) => Some(outcome@),
        None => None,
    }
}

pub(crate) fn clone_opt_error(
    error: &Option<MemoryOperationError>,
) -> (r: Option<MemoryOperationError>)
    ensures
        opt_error(r) == opt_error(*error),
{
    match error {
        Some(error) => Some(error.clone()),
        None => None,
    }
}

pub(crate) fn clone_opt_outcome(
    outcome: &Option<MemoryWorkOutcome>,
) -> (r: Option<MemoryWorkOutcome>)
    ensures
        opt_outcome(r) == opt_outcome(*outcome),
{
    match outcome {
        Some(outcome) => Some(outcome.clone()),
        None => None,
    }
}

/// Inspectable status for one accepted job.
#[derive(Debug, PartialEq)]
pub struct MemoryJobStatus {
    /// Immutable caller operation/job identifier.
    pub job_id: String,
    /// Monotonic accepted-job sequence.
    pub sequence: u64,
    /// Store or maintenance work.
    pub kind: MemoryWorkKind,
    /// Current lifecycle state.
    pub state: MemoryJobState,
    /// Attempts started so far.
    pub attempts: u32,
    /// Last or terminal typed failure.
    pub error: Option<MemoryOperationError>,
    /// Successful provider references.
    pub outcome: Option<MemoryWorkOutcome>,
}

/// What a job's status says.
pub struct StatusView {
    pub job_id: Seq<char>,
    pub sequence: nat,
    pub kind: MemoryWorkKind,
    pub state: MemoryJobState,
    pub attempts: nat,
    pub error: Option<ErrorView>,
    pub outcome: Option<OutcomeView>,
}

impl View for MemoryJobStatus {
    type V = StatusView;

    open spec fn view(&self) -> StatusView {
        StatusView {
            job_id: self.job_id@,
            sequence: self.sequence as nat,
            kind: self.kind,
            state: self.state,
            attempts: self.attempts as nat,
            error: opt_error(self.error),
            outcome: opt_outcome(self.outcome),
        }
    }
}

impl Clone for MemoryJobStatus {
    fn clone(&self) -> (r: Self)
        ensures
            r@ == self@,
    {
        MemoryJobStatus {
            job_id: self.job_id.clone(),
            sequence: self.sequence,
            kind: self.kind,
            state: self.state,
            attempts: self.attempts,
            error: clone_opt_error(&self.error),
            outcome: clone_opt_outcome(&self.outcome),
        }
    }
}

/// Receipt returned for accepted work or an identical retained replay.
#[derive(Debug, PartialEq, Eq)]
pub struct MemoryWorkReceipt {
    /// Immutable job identifier.
    pub job_id: String,
    /// Monotonic accepted-job sequence.
    pub sequence: u64,
    /// State observed when the receipt was returned.
    pub state: MemoryJobState,
}

/// What a receipt says.
pub struct ReceiptView {
    pub job_id: Seq<char>,
    pub sequence: nat,
    pub state: MemoryJobState,
}

impl View for MemoryWorkReceipt {
    type V = ReceiptView;

    open spec fn view(&self) -> ReceiptView {
        ReceiptView { job_id: self.job_id@, sequence: self.sequence as nat, state: self.state }
    }
}

impl Clone for MemoryWorkReceipt {
    fn clone(&self) -> (r: Self)
        ensures
            r@ == self@,
    {
        MemoryWorkReceipt {
            job_id: self.job_id.clone(),
            sequence: self.sequence,
            state: self.state,
        }
    }
}

/// Aggregate local queue state.
#[derive(Debug, Clone, Copy, PartialEq, Eq, Structural)]
pub struct MemoryWorkQueueSnapshot {
    /// Whether new jobs may still be admitted.
    pub accepting: bool,
    /// Configured pending capacity.
    pub capacity: usize,
    /// Jobs currently waiting.
    pub queued: usize,
    /// Jobs currently executing.
    pub running: usize,
    /// Jobs currently waiting for retry delay.
    pub retrying: usize,
    /// Total accepted jobs over this queue lifetime.
    pub accepted_total: u64,
    /// Total admission rejections over this queue lifetime.
    pub rejected_total: u64,
    /// Total successful jobs over this queue lifetime.
    pub succeeded_total: u64,
    /// Total execution failures over this queue lifetime.
    pub failed_total: u64,
    /// Total jobs cancelled by shutdown timeout.
    pub cancelled_total: u64,
    /// Most recent accepted sequence.
    pub last_accepted_sequence: u64,
    /// Highest contiguous terminal sequence.
    pub last_terminal_sequence: u64,
    /// Terminal jobs currently retained for inspection.
    pub retained_terminal_jobs: usize,
}

/// One state transition, for an observer.
#[derive(Debug, PartialEq)]
pub struct MemoryWorkTransition {
    /// Job identifier, even for rejected admission.
    pub job_id: String,
    /// Accepted sequence, or zero for rejected admission.
    pub sequence: u64,
    /// Store or maintenance work.
    pub kind: MemoryWorkKind,
    /// New state.
    pub state: MemoryJobState,
    /// Attempts started so far.
    pub attempts: u32,
    /// Time since admission for an accepted job.
    pub elapsed_millis: u64,
    /// Typed failure for retry, rejection, failure, or cancellation.
    pub error: Option<MemoryOperationError>,
    /// Successful provider references.
    pub outcome: Option<MemoryWorkOutcome>,
}

/// What a transition says: the status that the job took and how long after its admission.
pub struct TransitionView {
    pub status: StatusView,
    pub elapsed_millis: nat,
}

impl View for MemoryWorkTransition {
    type V = TransitionView;

    open spec fn view(&self) -> TransitionView {
        TransitionView {
            status: StatusView {
                job_id: self.job_id@,
                sequence: self.sequence as nat,
                kind: self.kind,
                state: self.state,
                attempts: self.attempts as nat,
                error: opt_error(self.error),
                outcome: opt_outcome(self.outcome),
            },
            elapsed_millis: self.elapsed_millis as nat,
        }
    }
}

impl Clone for MemoryWorkTransition {
    fn clone(&self) -> (r: Self)
        ensures
            r@ == self@,
    {
        MemoryWorkTransition {
            job_id: self.job_id.clone(),
            sequence: self.sequence,
            kind: self.kind,
            state: self.state,
            attempts: self.attempts,
            elapsed_millis: self.elapsed_millis,
            error: clone_opt_error(&self.error),
            outcome: clone_opt_outcome(&self.outcome),
        }
    }
}

/// Work for the queue.
#[derive(Debug, PartialEq)]
pub enum WorkPayload {
    /// Store one memory.
    Store(MemoryStoreRequest),
    /// Derive memory from a source window.
    Maintenance(MemoryMaintenanceRequest),
}

/// What a piece of work asks for.
pub enum PayloadView {
    Store(StoreRequestView),
    Maintenance(MaintenanceRequestView),
}

impl View for WorkPayload {
    type V = PayloadView;

    open spec fn view(&self) -> PayloadView {
        match self {
            WorkPayload::Store(request) => PayloadView::Store(request@),
            WorkPayload::Maintenance(request) => PayloadView::Maintenance(request@),
        }
    }
}

impl PayloadView {
    /// The operation identifier of the work, which is the job's.
    pub open spec fn job_id(self) -> Seq<char> {
        match self {
            PayloadView::Store(request) => request.context.operation_id,
            PayloadView::Maintenance(request) => request.context.operation_id,
        }
    }

    /// The kind of the work.
    pub open spec fn kind(self) -> MemoryWorkKind {
        match self {
            PayloadView::Store(_) => MemoryWorkKind::Store,
            PayloadView::Maintenance(_) => MemoryWorkKind::Maintenance,
        }
    }

    /// The work as JSON.
    pub open spec fn model(self) -> JsonModel {
        match self {
            PayloadView::Store(request) => JsonModel::Array(
                seq![JsonModel::Text("store"@), store_request_model(request)],
            ),
            PayloadView::Maintenance(request) => JsonModel::Array(
                seq![JsonModel::Text("maintenance"@), maintenance_request_model(request)],
            ),
        }
    }
}

/// Different work has different JSON.
pub proof fn work_model_is_injective(left: PayloadView, right: PayloadView)
    requires
        left.model() == right.model(),
    ensures
        left == right,
{
    reveal_strlit("store");
    reveal_strlit("maintenance");
    assert("store"@[0] != "maintenance"@[0]);
    let a = left.model()->Array_0;
    let b = right.model()->Array_0;
    assert(a[0] == b[0]);
    assert(a[1] == b[1]);
    match (left, right) {
        (PayloadView::Store(x), PayloadView::Store(y)) => {
            store_request_model_is_injective(x, y);
        },
        (PayloadView::Maintenance(x), PayloadView::Maintenance(y)) => {
            maintenance_request_model_is_injective(x, y);
        },
        _ => {},
    }
}

impl WorkPayload {
    /// The operation identifier of the work, which is the job's.
    pub fn job_id(&self) -> (r: &str)
        ensures
            r@ == self@.job_id(),
    {
        match self {
            WorkPayload::Store(request) => request.context.operation_id.as_str(),
            WorkPayload::Maintenance(request) => request.context.operation_id.as_str(),
        }
    }

    /// The kind of the work.
    pub fn kind(&self) -> (r: MemoryWorkKind)
        ensures
            r == self@.kind(),
    {
        match self {
            WorkPayload::Store(_) => MemoryWorkKind::Store,
            WorkPayload::Maintenance(_) => MemoryWorkKind::Maintenance,
        }
    }

    /// The bytes that identify the work. Every piece of work has them.
    pub fn fingerprint(&self) -> (r: Result<Vec<u8>, MemoryOperationError>)
        ensures
            r matches Ok(bytes) && identifies(bytes@, self@),
    {
        let (kind, request) = match self {
            WorkPayload::Store(request) => ("store", store_request_json(request)),
            WorkPayload::Maintenance(request) => ("maintenance", maintenance_request_json(request)),
        };
        let items: Vec<Json> = vec![Json::text(kind), request];
        let work = Json::array(items);
        assert(work@->Array_0 =~= self@.model()->Array_0);
        match work.to_bytes() {
            Ok(bytes) => Ok(bytes),
            Err(text) => {
                let message = concat("failed to fingerprint memory work: ", text.as_str());
                Err(
                    queue_error(
                        MemoryErrorCode::Internal,
                        message.as_str(),
                        false,
                        self.job_id(),
                    ),
                )
            },
        }
    }
}

/// The bytes are those of the work, and of no other JSON value.
pub open spec fn identifies(bytes: Seq<u8>, payload: PayloadView) -> bool {
    &&& json_bytes(payload.model()) == bytes
    &&& forall|other: JsonModel| #[trigger] json_bytes(other) == bytes ==> other == payload.model()
}

/// A queue's configuration is valid exactly where its bounds are positive, its delays do not shrink
/// and, where callers wait for a slot, they may wait at all.
pub proof fn queue_config_validity(config: MemoryWorkQueueConfig)
    ensures
        queue_config_fault(config) is None <==> {
            &&& config.capacity > 0
            &&& config.max_attempts > 0
            &&& config.attempt_timeout_millis > 0
            &&& config.terminal_history_capacity > 0
            &&& config.retry_initial_delay_millis <= config.retry_max_delay_millis
            &&& config.backpressure is Wait ==> config.enqueue_timeout_millis > 0
        },
        queue_config_fault(default_queue_config()) is None,
        default_queue_config().capacity == 64,
        default_queue_config().backpressure is Reject,
        default_queue_config().max_attempts == 3,
        default_queue_config().retry_initial_delay_millis == 25,
        default_queue_config().retry_max_delay_millis == 1_000,
        default_queue_config().attempt_timeout_millis == 2_000,
        default_queue_config().enqueue_timeout_millis == 250,
        default_queue_config().terminal_history_capacity == 1_024,
{
}

/// A failure of the queue names the queue, the operation, its code and whether to retry.
pub proof fn queue_failures_name_the_queue(
    code: MemoryErrorCode,
    message: Seq<char>,
    retryable: bool,
    operation_id: Seq<char>,
)
    ensures
        ({
            let error = queue_failure(code, message, retryable, operation_id);
            &&& error.code == code
            &&& error.message == message
            &&& error.retryable == retryable
            &&& error.operation_id == Some(operation_id)
            &&& error.provider == Some("memory_work_queue"@)
        }),
        closed_failure(operation_id).code is Cancelled,
        !closed_failure(operation_id).retryable,
        config_failure(message).code is InvalidRequest,
        !config_failure(message).retryable,
{
}

/// A job is known by the operation identifier of its request, and its kind is that of its request.
pub proof fn jobs_are_known_by_operation(
    store: StoreRequestView,
    maintenance: MaintenanceRequestView,
)
    ensures
        PayloadView::Store(store).job_id() == store.context.operation_id,
        PayloadView::Store(store).kind() is Store,
        PayloadView::Maintenance(maintenance).job_id() == maintenance.context.operation_id,
        PayloadView::Maintenance(maintenance).kind() is Maintenance,
{
}

/// A job is over once it succeeded, failed, was rejected or was cancelled, and not before.
pub proof fn terminal_states_are_four(state: MemoryJobState)
    ensures
        terminal_state(state) <==> !(state is Queued || state is Running || state is Retrying),
{
}

/// States of a job have names of their own.
pub proof fn job_states_have_names()
    ensures
        job_state_name(MemoryJobState::Queued) == "queued"@,
        job_state_name(MemoryJobState::Running) == "running"@,
        job_state_name(MemoryJobState::Retrying) == "retrying"@,
        job_state_name(MemoryJobState::Succeeded) == "succeeded"@,
        job_state_name(MemoryJobState::Failed) == "failed"@,
        job_state_name(MemoryJobState::Rejected) == "rejected"@,
        job_state_name(MemoryJobState::Cancelled) == "cancelled"@,
{
}

} // verus!
