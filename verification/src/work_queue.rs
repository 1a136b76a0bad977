//! Bounded process-local execution for memory writes and maintenance.
//!
//! The queue decides; its owner holds the channel, runs the attempts and keeps the clock. Instants
//! are milliseconds of a monotonic clock of the owner's choice.

use vstd::prelude::*;
use crate::error::ErrorView;
use crate::memory::{
    maintenance_fault, outcome, store_fault, ContextView, MaintenanceRequestView,
    MaintenanceResultView, MemoryErrorCode, MemoryMaintenanceRequest, MemoryMaintenanceResult,
    MemoryOperationError, MemoryStoreRequest, MemoryStoreResult, RecordView, StoreRequestView,
    StoreResultView,
};
use crate::text::{concat, concat3, same_bytes, texts};
use crate::time::{later, representable, Timestamp};
use crate::work::{
    clone_opt_error, clone_opt_outcome, closed_error, closed_failure, config_failure, identifies,
    invalid_config, queue_config_fault, queue_error, queue_failure, terminal_state,
    work_model_is_injective, MemoryBackpressurePolicy, MemoryJobState, MemoryJobStatus,
    MemoryWorkOutcome, MemoryWorkQueueConfig, MemoryWorkQueueSnapshot, MemoryWorkReceipt,
    MemoryWorkTransition, OutcomeView, PayloadView, ReceiptView, StatusView, TransitionView,
    WorkPayload,
};

verus! {

/// Work that is ready to be submitted: valid, with the bytes that identify it.
#[derive(Debug, PartialEq)]
pub struct WorkItem {
    payload: WorkPayload,
    fingerprint: Vec<u8>,
}

impl View for WorkItem {
    type V = PayloadView;

    closed spec fn view(&self) -> PayloadView {
        self.payload@
    }
}

/// The store request that is queued: without a caller key it gets the one of its job.
pub open spec fn queued_store(request: StoreRequestView) -> StoreRequestView {
    StoreRequestView {
        idempotency_key: match request.idempotency_key {
            Some(key) => Some(key),
            None => Some("memory-work:"@ + request.context.operation_id),
        },
        ..request
    }
}

impl WorkItem {
    #[verifier::type_invariant]
    spec fn identified(&self) -> bool {
        identifies(self.fingerprint@, self.payload@)
    }

    fn new(payload: WorkPayload) -> (r: Result<WorkItem, MemoryOperationError>)
        ensures
            outcome(r) == Ok::<PayloadView, ErrorView>(payload@),
    {
        match payload.fingerprint() {
            Ok(fingerprint) => Ok(WorkItem { payload, fingerprint }),
            Err(error) => Err(error),
        }
    }

    /// Validate one store, whose operation ID becomes the immutable job identity.
    pub fn store(request: MemoryStoreRequest) -> (r: Result<WorkItem, MemoryOperationError>)
        ensures
            outcome(r) == match store_fault(request@) {
                Some(message) => Err::<PayloadView, ErrorView>(ErrorView::invalid_request(message)),
                None => Ok(PayloadView::Store(queued_store(request@))),
            },
    {
        request.validate()?;
        let mut request = request;
        if request.idempotency_key.is_none() {
            let key = concat("memory-work:", request.context.operation_id.as_str());
            request.idempotency_key = Some(key);
        }
        WorkItem::new(WorkPayload::Store(request))
    }

    /// Validate one maintenance request, whose operation ID becomes the job identity.
    pub fn maintenance(request: MemoryMaintenanceRequest) -> (r: Result<
        WorkItem,
        MemoryOperationError,
    >)
        ensures
            outcome(r) == match maintenance_fault(request@) {
                Some(message) => Err::<PayloadView, ErrorView>(ErrorView::invalid_request(message)),
                None => Ok(PayloadView::Maintenance(request@)),
            },
    {
        request.validate()?;
        WorkItem::new(WorkPayload::Maintenance(request))
    }

    /// The work itself.
    pub fn payload(&self) -> (r: &WorkPayload)
        ensures
            r@ == self@,
    {
        &self.payload
    }

    /// Gives the work up for execution.
    pub fn into_payload(self) -> (r: WorkPayload)
        ensures
            r@ == self@,
    {
        self.payload
    }
}

/// A job that the queue retains.
pub struct JobView {
    pub payload: PayloadView,
    pub admitted_millis: nat,
    pub status: StatusView,
}

impl JobView {
    /// The job has not reached a terminal state.
    pub open spec fn active(self) -> bool {
        !terminal_state(self.status.state)
    }

    /// The consumer has taken the job up and not brought it to an end.
    pub open spec fn under_way(self) -> bool {
        self.status.state is Running || self.status.state is Retrying
    }

    /// The receipt for the job.
    pub open spec fn receipt(self) -> ReceiptView {
        ReceiptView {
            job_id: self.status.job_id,
            sequence: self.status.sequence,
            state: self.status.state,
        }
    }

    /// The job with another status.
    pub open spec fn with_status(self, status: StatusView) -> JobView {
        JobView { status, ..self }
    }

    /// The transition into the job's status, as of an instant.
    pub open spec fn transition(self, now_millis: nat) -> TransitionView {
        TransitionView { status: self.status, elapsed_millis: since(self.admitted_millis, now_millis) }
    }
}

/// The time from one instant to a later one, and none where the second is not later.
pub open spec fn since(start: nat, now: nat) -> nat {
    if now > start {
        (now - start) as nat
    } else {
        0
    }
}

/// What a queue holds. `jobs` are the retained jobs by ascending sequence, and `finished` the
/// identifiers of the terminal ones among them, in the order in which they became terminal.
pub struct QueueView {
    pub config: MemoryWorkQueueConfig,
    pub accepting: bool,
    pub started: bool,
    pub accepted: nat,
    pub rejected: nat,
    pub succeeded: nat,
    pub failed: nat,
    pub cancelled: nat,
    pub jobs: Seq<JobView>,
    pub finished: Seq<Seq<char>>,
}

/// A job with the identifier is retained.
pub open spec fn retains(jobs: Seq<JobView>, job_id: Seq<char>) -> bool {
    exists|i: int| 0 <= i < jobs.len() && (#[trigger] jobs[i]).status.job_id == job_id
}

/// The place of the job with an identifier.
pub open spec fn place(jobs: Seq<JobView>, job_id: Seq<char>) -> int {
    choose|i: int| 0 <= i < jobs.len() && (#[trigger] jobs[i]).status.job_id == job_id
}

/// The consumer is at work on a job with another identifier.
pub open spec fn busy_elsewhere(jobs: Seq<JobView>, job_id: Seq<char>) -> bool {
    exists|i: int|
        0 <= i < jobs.len() && (#[trigger] jobs[i]).under_way() && jobs[i].status.job_id != job_id
}

/// How many jobs are in a state.
pub open spec fn count_in(jobs: Seq<JobView>, state: MemoryJobState) -> nat
    decreases jobs.len(),
{
    if jobs.len() == 0 {
        0
    } else {
        count_in(jobs.drop_last(), state) + if jobs.last().status.state == state {
            1nat
        } else {
            0
        }
    }
}

/// How many jobs have not reached a terminal state.
pub open spec fn count_active(jobs: Seq<JobView>) -> nat
    decreases jobs.len(),
{
    if jobs.len() == 0 {
        0
    } else {
        count_active(jobs.drop_last()) + if jobs.last().active() {
            1nat
        } else {
            0
        }
    }
}

/// The highest contiguous terminal sequence: the one before the first active job's, or the last
/// accepted one where no job is active.
pub open spec fn settled_sequence(jobs: Seq<JobView>, accepted: nat) -> nat
    decreases jobs.len(),
{
    if jobs.len() == 0 {
        accepted
    } else if jobs[0].active() {
        (jobs[0].status.sequence - 1) as nat
    } else {
        settled_sequence(jobs.drop_first(), accepted)
    }
}

impl QueueView {
    /// No more jobs are pending than there are slots, the jobs have distinct identifiers and
    /// ascending sequences up to the last accepted one, the single consumer is at work on at most
    /// one of them, every accepted job is counted once, and `finished` lists the terminal jobs.
    pub open spec fn consistent(self) -> bool {
        &&& queue_config_fault(self.config) is None
        &&& self.accepted <= u64::MAX
        &&& self.rejected <= u64::MAX
        &&& self.accepting && self.accepted > 0 ==> self.started
        &&& count_in(self.jobs, MemoryJobState::Queued) <= self.config.capacity
        &&& self.accepted == self.succeeded + self.failed + self.cancelled + count_active(self.jobs)
        &&& forall|i: int|
            0 <= i < self.jobs.len() ==> 1 <= (#[trigger] self.jobs[i]).status.sequence
                <= self.accepted && self.jobs[i].status.attempts <= self.config.max_attempts
                && !(self.jobs[i].status.state is Rejected) && self.jobs[i].payload.job_id()
                == self.jobs[i].status.job_id
        &&& forall|i: int, j: int|
            0 <= i < j < self.jobs.len() ==> (#[trigger] self.jobs[i]).status.job_id != (
            #[trigger] self.jobs[j]).status.job_id && self.jobs[i].status.sequence
                < self.jobs[j].status.sequence && !(self.jobs[i].under_way()
                && self.jobs[j].under_way())
        &&& self.finished.no_duplicates()
        &&& forall|i: int|
            0 <= i < self.jobs.len() ==> self.finished.contains(
                (#[trigger] self.jobs[i]).status.job_id,
            ) == !self.jobs[i].active()
        &&& forall|k: int|
            0 <= k < self.finished.len() ==> retains(self.jobs, #[trigger] self.finished[k])
    }

    /// The contents are consistent and the history is within its capacity.
    pub open spec fn inv(self) -> bool {
        &&& self.consistent()
        &&& self.finished.len() <= self.config.terminal_history_capacity
    }

    /// The job with an identifier.
    pub open spec fn job(self, job_id: Seq<char>) -> Option<JobView> {
        if retains(self.jobs, job_id) {
            Some(self.jobs[place(self.jobs, job_id)])
        } else {
            None
        }
    }

    /// The highest contiguous terminal sequence.
    pub open spec fn settled(self) -> nat {
        settled_sequence(self.jobs, self.accepted)
    }

    /// The queue with another status for one job.
    pub open spec fn with_status(self, status: StatusView) -> QueueView {
        let at = place(self.jobs, status.job_id);
        QueueView { jobs: self.jobs.update(at, self.jobs[at].with_status(status)), ..self }
    }

    /// The queue without the job that became terminal first.
    pub open spec fn without_oldest(self) -> QueueView {
        QueueView {
            jobs: self.jobs.remove(place(self.jobs, self.finished[0])),
            finished: self.finished.drop_first(),
            ..self
        }
    }

    /// The queue with its history cut to its capacity, the oldest out first.
    pub open spec fn pruned(self) -> QueueView
        decreases self.finished.len(),
    {
        if self.finished.len() <= self.config.terminal_history_capacity {
            self
        } else {
            self.without_oldest().pruned()
        }
    }
}

/// One more or one fewer job is active when one job's status changes.
proof fn count_after_update(jobs: Seq<JobView>, at: int, job: JobView)
    requires
        0 <= at < jobs.len(),
    ensures
        count_active(jobs.update(at, job)) + (if jobs[at].active() { 1nat } else { 0 })
            == count_active(jobs) + (if job.active() { 1nat } else { 0 }),
    decreases jobs.len(),
{
    let next = jobs.update(at, job);
    if at == jobs.len() - 1 {
        assert(next.drop_last() =~= jobs.drop_last());
    } else {
        count_after_update(jobs.drop_last(), at, job);
        assert(next.drop_last() =~= jobs.drop_last().update(at, job));
    }
}

/// Removing a terminal job leaves the number of active ones.
pub(crate) proof fn count_after_remove(jobs: Seq<JobView>, at: int)
    requires
        0 <= at < jobs.len(),
        !jobs[at].active(),
    ensures
        count_active(jobs.remove(at)) == count_active(jobs),
    decreases jobs.len(),
{
    let next = jobs.remove(at);
    if at == jobs.len() - 1 {
        assert(next =~= jobs.drop_last());
    } else {
        count_after_remove(jobs.drop_last(), at);
        assert(next.drop_last() =~= jobs.drop_last().remove(at));
    }
}

/// How the number of jobs in a state changes when one job's status does.
proof fn count_in_after_update(jobs: Seq<JobView>, at: int, job: JobView, state: MemoryJobState)
    requires
        0 <= at < jobs.len(),
    ensures
        count_in(jobs.update(at, job), state) + (if jobs[at].status.state == state {
            1nat
        } else {
            0
        }) == count_in(jobs, state) + (if job.status.state == state {
            1nat
        } else {
            0
        }),
    decreases jobs.len(),
{
    let next = jobs.update(at, job);
    if at == jobs.len() - 1 {
        assert(next.drop_last() =~= jobs.drop_last());
    } else {
        count_in_after_update(jobs.drop_last(), at, job, state);
        assert(next.drop_last() =~= jobs.drop_last().update(at, job));
    }
}

/// Removing a job leaves the number of jobs in another state.
proof fn count_in_after_remove(jobs: Seq<JobView>, at: int, state: MemoryJobState)
    requires
        0 <= at < jobs.len(),
        jobs[at].status.state != state,
    ensures
        count_in(jobs.remove(at), state) == count_in(jobs, state),
    decreases jobs.len(),
{
    let next = jobs.remove(at);
    if at == jobs.len() - 1 {
        assert(next =~= jobs.drop_last());
    } else {
        count_in_after_remove(jobs.drop_last(), at, state);
        assert(next.drop_last() =~= jobs.drop_last().remove(at));
    }
}

/// Where a job is active, the count is positive.
pub(crate) proof fn active_is_counted(jobs: Seq<JobView>, at: int)
    requires
        0 <= at < jobs.len(),
        jobs[at].active(),
    ensures
        count_active(jobs) > 0,
    decreases jobs.len(),
{
    if at < jobs.len() - 1 {
        active_is_counted(jobs.drop_last(), at);
    }
}

/// Dropping the oldest terminal job keeps the contents consistent.
pub(crate) proof fn dropping_oldest_is_consistent(state: QueueView)
    requires
        state.consistent(),
        state.finished.len() > 0,
    ensures
        state.without_oldest().consistent(),
        retains(state.jobs, state.finished[0]),
        !state.jobs[place(state.jobs, state.finished[0])].active(),
{
    let id = state.finished[0];
    let at = place(state.jobs, id);
    let next = state.without_oldest();
    assert(retains(state.jobs, id));
    assert(state.finished.contains(state.jobs[at].status.job_id));
    count_after_remove(state.jobs, at);
    count_in_after_remove(state.jobs, at, MemoryJobState::Queued);
    assert forall|i: int| 0 <= i < next.jobs.len() implies next.finished.contains(
        (#[trigger] next.jobs[i]).status.job_id,
    ) == !next.jobs[i].active() by {
        let was = if i < at { i } else { i + 1 };
        let own = next.jobs[i].status.job_id;
        assert(next.jobs[i] == state.jobs[was]);
        assert(own != id);
        if state.finished.contains(own) {
            let k = choose|k: int| 0 <= k < state.finished.len() && state.finished[k] == own;
            assert(next.finished[k - 1] == own);
        }
        if next.finished.contains(own) {
            let k = choose|k: int| 0 <= k < next.finished.len() && next.finished[k] == own;
            assert(state.finished[k + 1] == own);
        }
    }
    assert forall|k: int| 0 <= k < next.finished.len() implies retains(
        next.jobs,
        #[trigger] next.finished[k],
    ) by {
        let own = next.finished[k];
        assert(state.finished[k + 1] == own);
        assert(own != id);
        let i = place(state.jobs, own);
        assert(state.jobs[i].status.job_id == own);
        if i < at {
            assert(next.jobs[i].status.job_id == own);
        } else {
            assert(next.jobs[i - 1].status.job_id == own);
        }
    }
    assert forall|i: int| 0 <= i < next.jobs.len() implies 1 <= (
    #[trigger] next.jobs[i]).status.sequence <= next.accepted && next.jobs[i].status.attempts
        <= next.config.max_attempts && !(next.jobs[i].status.state is Rejected)
        && next.jobs[i].payload.job_id() == next.jobs[i].status.job_id by {
        let was = if i < at { i } else { i + 1 };
        assert(next.jobs[i] == state.jobs[was]);
    }
    assert forall|i: int, j: int| 0 <= i < j < next.jobs.len() implies (
    #[trigger] next.jobs[i]).status.job_id != (#[trigger] next.jobs[j]).status.job_id
        && next.jobs[i].status.sequence < next.jobs[j].status.sequence by {
        let a = if i < at { i } else { i + 1 };
        let b = if j < at { j } else { j + 1 };
        assert(next.jobs[i] == state.jobs[a] && next.jobs[j] == state.jobs[b]);
    }
}

/// Cutting the history keeps the contents consistent, and every active job.
pub proof fn pruning_is_consistent(state: QueueView)
    requires
        state.consistent(),
    ensures
        state.pruned().inv(),
        state.pruned().config == state.config,
        state.pruned().accepted == state.accepted,
        state.pruned().rejected == state.rejected,
        state.pruned().succeeded == state.succeeded,
        state.pruned().failed == state.failed,
        state.pruned().cancelled == state.cancelled,
        state.pruned().accepting == state.accepting,
        count_active(state.pruned().jobs) == count_active(state.jobs),
    decreases state.finished.len(),
{
    if state.finished.len() > state.config.terminal_history_capacity {
        dropping_oldest_is_consistent(state);
        count_after_remove(state.jobs, place(state.jobs, state.finished[0]));
        pruning_is_consistent(state.without_oldest());
    }
}

/// What the owner of a queue learns while it submits work.
#[derive(Debug, Clone, Copy, PartialEq, Eq, Structural)]
pub enum SubmitEvent {
    /// A caller asks for admission.
    Requested {
        /// Whether a worker could be started now.
        runtime_active: bool,
    },
    /// A pending slot may have become free.
    Resumed,
    /// The worker takes no more work.
    Closed,
    /// No slot became free within the enqueue timeout.
    TimedOut,
}

/// What comes of submitting work.
#[derive(Debug, PartialEq)]
pub enum SubmitStep {
    /// The same work is retained already.
    Existing(MemoryWorkReceipt),
    /// The work is refused.
    Refused {
        /// Why.
        error: MemoryOperationError,
        /// The transition to observe, where the refusal counts as a rejection.
        rejection: Option<MemoryWorkTransition>,
    },
    /// All pending slots are occupied: the caller waits for one.
    Wait,
    /// The work is accepted and to be sent to the worker.
    Accepted {
        /// Whether the worker is to be started first.
        start: bool,
        /// The receipt for the caller.
        receipt: MemoryWorkReceipt,
        /// The transition to observe.
        transition: MemoryWorkTransition,
    },
}

/// What comes of submitting work.
pub enum SubmitView {
    Existing(ReceiptView),
    Refused { error: ErrorView, rejection: Option<TransitionView> },
    Wait,
    Accepted { start: bool, receipt: ReceiptView, transition: TransitionView },
}

impl View for SubmitStep {
    type V = SubmitView;

    open spec fn view(&self) -> SubmitView {
        match self {
            SubmitStep::Existing(receipt) => SubmitView::Existing(receipt@),
            SubmitStep::Refused { error, rejection } => SubmitView::Refused {
                error: error@,
                rejection: match rejection {
                    Some(transition) => Some(transition@),
                    None => None,
                },
            },
            SubmitStep::Wait => SubmitView::Wait,
            SubmitStep::Accepted { start, receipt, transition } => SubmitView::Accepted {
                start: *start,
                receipt: receipt@,
                transition: transition@,
            },
        }
    }
}

/// The answer to work whose job identifier is retained: the receipt of the same work, and a
/// conflict for any other.
pub open spec fn retained_answer(state: QueueView, payload: PayloadView) -> Option<SubmitView> {
    match state.job(payload.job_id()) {
        Some(job) => if job.payload == payload {
            Some(SubmitView::Existing(job.receipt()))
        } else {
            Some(
                SubmitView::Refused {
                    error: queue_failure(
                        MemoryErrorCode::Conflict,
                        "memory work job ID was reused with a different payload"@,
                        false,
                        payload.job_id(),
                    ),
                    rejection: None,
                },
            )
        },
        None => None,
    }
}

/// The answer to work that is rejected.
pub open spec fn rejection(payload: PayloadView, error: ErrorView) -> SubmitView {
    SubmitView::Refused {
        error,
        rejection: Some(
            TransitionView {
                status: StatusView {
                    job_id: payload.job_id(),
                    sequence: 0,
                    kind: payload.kind(),
                    state: MemoryJobState::Rejected,
                    attempts: 0,
                    error: Some(error),
                    outcome: None,
                },
                elapsed_millis: 0,
            },
        ),
    }
}

/// The job that accepted work becomes.
pub open spec fn accepted_job(state: QueueView, payload: PayloadView, now_millis: nat) -> JobView {
    JobView {
        payload,
        admitted_millis: now_millis,
        status: StatusView {
            job_id: payload.job_id(),
            sequence: state.accepted + 1,
            kind: payload.kind(),
            state: MemoryJobState::Queued,
            attempts: 0,
            error: None,
            outcome: None,
        },
    }
}

/// The answer to work that is new while admission is open: it is accepted where a pending slot is
/// free, and else rejected or made to wait, as the policy says.
pub open spec fn admission_answer(
    state: QueueView,
    payload: PayloadView,
    now_millis: nat,
) -> SubmitView {
    let id = payload.job_id();
    if count_in(state.jobs, MemoryJobState::Queued) >= state.config.capacity {
        match state.config.backpressure {
            MemoryBackpressurePolicy::Reject => rejection(
                payload,
                queue_failure(
                    MemoryErrorCode::ProviderUnavailable,
                    "memory work queue is full"@,
                    true,
                    id,
                ),
            ),
            MemoryBackpressurePolicy::Wait => SubmitView::Wait,
        }
    } else if state.accepted == u64::MAX {
        SubmitView::Refused {
            error: queue_failure(
                MemoryErrorCode::Internal,
                "memory work queue exhausted its sequence space"@,
                false,
                id,
            ),
            rejection: None,
        }
    } else {
        SubmitView::Accepted {
            start: !state.started,
            receipt: accepted_job(state, payload, now_millis).receipt(),
            transition: accepted_job(state, payload, now_millis).transition(now_millis),
        }
    }
}

/// What comes of submitting work, event by event.
pub open spec fn submit_answer(
    state: QueueView,
    payload: PayloadView,
    event: SubmitEvent,
    now_millis: nat,
) -> SubmitView {
    let id = payload.job_id();
    match event {
        SubmitEvent::Requested { runtime_active } => match retained_answer(state, payload) {
            Some(answer) => answer,
            None => if !state.accepting {
                rejection(payload, closed_failure("start"@))
            } else if state.started || runtime_active {
                admission_answer(state, payload, now_millis)
            } else {
                rejection(
                    payload,
                    config_failure(
                        "memory work queue submission requires an active Tokio runtime"@,
                    ),
                )
            },
        },
        SubmitEvent::Resumed => match retained_answer(state, payload) {
            Some(answer) => answer,
            None => if !state.accepting {
                rejection(payload, closed_failure(id))
            } else {
                admission_answer(state, payload, now_millis)
            },
        },
        SubmitEvent::Closed => rejection(payload, closed_failure(id)),
        SubmitEvent::TimedOut => rejection(
            payload,
            queue_failure(
                MemoryErrorCode::DeadlineExceeded,
                "memory work queue admission deadline exceeded"@,
                true,
                id,
            ),
        ),
    }
}

/// What a queue holds after an answer to submitted work.
pub open spec fn after_submit(
    state: QueueView,
    payload: PayloadView,
    answer: SubmitView,
    now_millis: nat,
) -> QueueView {
    match answer {
        SubmitView::Existing(_) => state,
        SubmitView::Refused { rejection: None, .. } => state,
        SubmitView::Refused { rejection: Some(_), .. } => QueueView {
            rejected: state.rejected + 1,
            ..state
        },
        SubmitView::Wait => state,
        SubmitView::Accepted { .. } => QueueView {
            started: true,
            accepted: state.accepted + 1,
            jobs: state.jobs.push(accepted_job(state, payload, now_millis)),
            ..state
        },
    }
}

/// An answer counts one more rejection.
pub open spec fn counts_rejection(answer: SubmitView) -> bool {
    answer matches SubmitView::Refused { error: _, rejection: Some(_) }
}

/// The count of rejections has room for an answer.
pub open spec fn room_for(state: QueueView, answer: SubmitView) -> bool {
    counts_rejection(answer) ==> state.rejected < u64::MAX
}

/// A valid request was submitted: it asks for admission.
pub open spec fn requested(
    before: QueueView,
    after: QueueView,
    payload: PayloadView,
    runtime_active: bool,
    now_millis: nat,
    result: Result<(WorkItem, SubmitStep), MemoryOperationError>,
) -> bool {
    let answer = submit_answer(
        before,
        payload,
        SubmitEvent::Requested { runtime_active },
        now_millis,
    );
    &&& result matches Ok(done) && done.0@ == payload && done.1@ == answer
    &&& after == after_submit(before, payload, answer, now_millis)
}

/// Accepting work keeps the contents consistent.
pub(crate) proof fn accepting_is_consistent(state: QueueView, payload: PayloadView, now_millis: nat)
    requires
        state.inv(),
        state.accepted < u64::MAX,
        count_in(state.jobs, MemoryJobState::Queued) < state.config.capacity,
        !retains(state.jobs, payload.job_id()),
    ensures
        (QueueView {
            started: true,
            accepted: state.accepted + 1,
            jobs: state.jobs.push(accepted_job(state, payload, now_millis)),
            ..state
        }).inv(),
{
    let job = accepted_job(state, payload, now_millis);
    let next = QueueView {
        started: true,
        accepted: state.accepted + 1,
        jobs: state.jobs.push(job),
        ..state
    };
    assert(next.jobs.drop_last() =~= state.jobs);
    assert(count_active(next.jobs) == count_active(state.jobs) + 1);
    assert forall|i: int| 0 <= i < next.jobs.len() implies next.finished.contains(
        (#[trigger] next.jobs[i]).status.job_id,
    ) == !next.jobs[i].active() by {
        if i < state.jobs.len() {
            assert(next.jobs[i] == state.jobs[i]);
        } else if next.finished.contains(job.status.job_id) {
            let k = choose|k: int|
                0 <= k < state.finished.len() && state.finished[k] == job.status.job_id;
            assert(retains(state.jobs, state.finished[k]));
        }
    }
    assert forall|k: int| 0 <= k < next.finished.len() implies retains(
        next.jobs,
        #[trigger] next.finished[k],
    ) by {
        let i = place(state.jobs, state.finished[k]);
        assert(retains(state.jobs, state.finished[k]));
        assert(next.jobs[i].status.job_id == next.finished[k]);
    }
    assert forall|i: int, j: int| 0 <= i < j < next.jobs.len() implies (
    #[trigger] next.jobs[i]).status.job_id != (#[trigger] next.jobs[j]).status.job_id
        && next.jobs[i].status.sequence < next.jobs[j].status.sequence by {
        if j == state.jobs.len() {
            assert(next.jobs[i] == state.jobs[i]);
        }
    }
}

struct JobEntry {
    fingerprint: Vec<u8>,
    payload: Ghost<PayloadView>,
    admitted_millis: u64,
    status: MemoryJobStatus,
}

impl JobEntry {
    spec fn view(&self) -> JobView {
        JobView {
            payload: self.payload@,
            admitted_millis: self.admitted_millis as nat,
            status: self.status@,
        }
    }

    spec fn wf(&self) -> bool {
        identifies(self.fingerprint@, self.payload@)
    }
}

spec fn job_views(jobs: Seq<JobEntry>) -> Seq<JobView> {
    jobs.map_values(|entry: JobEntry| entry.view())
}

/// Bounded process-local queue: which work is accepted, what becomes of it, and what is
/// remembered of it.
pub struct MemoryWorkQueue {
    config: MemoryWorkQueueConfig,
    accepting: bool,
    started: bool,
    accepted: u64,
    rejected: u64,
    succeeded: u64,
    failed: u64,
    cancelled: u64,
    jobs: Vec<JobEntry>,
    terminal_order: Vec<String>,
}

impl View for MemoryWorkQueue {
    type V = QueueView;

    closed spec fn view(&self) -> QueueView {
        QueueView {
            config: self.config,
            accepting: self.accepting,
            started: self.started,
            accepted: self.accepted as nat,
            rejected: self.rejected as nat,
            succeeded: self.succeeded as nat,
            failed: self.failed as nat,
            cancelled: self.cancelled as nat,
            jobs: job_views(self.jobs@),
            finished: texts(self.terminal_order@),
        }
    }
}

/// A queue that has seen no work.
pub open spec fn fresh_queue(config: MemoryWorkQueueConfig) -> QueueView {
    QueueView {
        config,
        accepting: true,
        started: false,
        accepted: 0,
        rejected: 0,
        succeeded: 0,
        failed: 0,
        cancelled: 0,
        jobs: Seq::empty(),
        finished: Seq::empty(),
    }
}

impl MemoryWorkQueue {
    spec fn entries_wf(&self) -> bool {
        forall|i: int| 0 <= i < self.jobs@.len() ==> (#[trigger] self.jobs@[i]).wf()
    }

    /// The contents are consistent, and every fingerprint is that of its work.
    pub closed spec fn wf(&self) -> bool {
        self@.inv() && self.entries_wf()
    }

    /// The contents of a well-formed queue are consistent.
    pub proof fn wf_is_consistent(&self)
        requires
            self.wf(),
        ensures
            self@.inv(),
    {
    }

    /// Create a queue. No worker is started before work is submitted.
    pub fn new(config: MemoryWorkQueueConfig) -> (r: Result<Self, MemoryOperationError>)
        ensures
            match queue_config_fault(config) {
                None => r matches Ok(queue) && queue.wf() && queue@ == fresh_queue(config),
                Some(message) => r matches Err(error) && error@ == config_failure(message),
            },
    {
        match config.validate() {
            Ok(()) => {},
            Err(error) => {
                return Err(error);
            },
        }
        let queue = MemoryWorkQueue {
            config,
            accepting: true,
            started: false,
            accepted: 0,
            rejected: 0,
            succeeded: 0,
            failed: 0,
            cancelled: 0,
            jobs: Vec::new(),
            terminal_order: Vec::new(),
        };
        assert(queue@.jobs =~= Seq::empty());
        assert(queue@.finished =~= Seq::empty());
        Ok(queue)
    }

    /// The configuration.
    pub fn config(&self) -> (r: MemoryWorkQueueConfig)
        ensures
            r == self@.config,
    {
        self.config
    }

    fn find(&self, job_id: &str) -> (r: Option<usize>)
        requires
            self@.consistent(),
        ensures
            match r {
                Some(i) => i < self.jobs@.len() && i == place(self@.jobs, job_id@) && retains(
                    self@.jobs,
                    job_id@,
                ) && self@.jobs[i as int].status.job_id == job_id@,
                None => !retains(self@.jobs, job_id@),
            },
    {
        let wanted = job_id.to_owned();
        let mut i: usize = 0;
        while i < self.jobs.len()
            invariant
                i <= self.jobs@.len(),
                wanted@ == job_id@,
                self@.consistent(),
                forall|j: int| 0 <= j < i ==> (#[trigger] self@.jobs[j]).status.job_id != job_id@,
            decreases self.jobs@.len() - i,
        {
            assert(self@.jobs[i as int] == self.jobs@[i as int].view());
            if self.jobs[i].status.job_id == wanted {
                proof {
                    let at = place(self@.jobs, job_id@);
                    assert(retains(self@.jobs, job_id@));
                    assert(self@.jobs[at].status.job_id == job_id@);
                    assert(at == i);
                }
                return Some(i);
            }
            i += 1;
        }
        None
    }

    /// Return retained state for one accepted job.
    pub fn job(&self, job_id: &str) -> (r: Option<MemoryJobStatus>)
        requires
            self.wf(),
        ensures
            match self@.job(job_id@) {
                Some(job) => r matches Some(status) && status@ == job.status,
                None => r is None,
            },
    {
        match self.find(job_id) {
            Some(i) => Some(self.jobs[i].status.clone()),
            None => None,
        }
    }

    fn existing_receipt(&self, item: &WorkItem) -> (r: Result<
        Option<MemoryWorkReceipt>,
        MemoryOperationError,
    >)
        requires
            self.wf(),
        ensures
            match r {
                Ok(Some(receipt)) => retained_answer(self@, item@) == Some(
                    SubmitView::Existing(receipt@),
                ),
                Ok(None) => retained_answer(self@, item@) is None && !retains(
                    self@.jobs,
                    item@.job_id(),
                ),
                Err(error) => retained_answer(self@, item@) == Some(
                    SubmitView::Refused { error: error@, rejection: None },
                ),
            },
    {
        proof {
            use_type_invariant(item);
        }
        let job_id = item.payload.job_id();
        match self.find(job_id) {
            None => Ok(None),
            Some(i) => {
                let existing = &self.jobs[i];
                assert(existing.wf());
                assert(self@.jobs[i as int] == existing.view());
                proof {
                    if existing.fingerprint@ == item.fingerprint@ {
                        work_model_is_injective(existing.payload@, item.payload@);
                    }
                }
                if !same_bytes(&existing.fingerprint, &item.fingerprint) {
                    return Err(
                        queue_error(
                            MemoryErrorCode::Conflict,
                            "memory work job ID was reused with a different payload",
                            false,
                            job_id,
                        ),
                    );
                }
                Ok(
                    Some(
                        MemoryWorkReceipt {
                            job_id: job_id.to_owned(),
                            sequence: existing.status.sequence,
                            state: existing.status.state,
                        },
                    ),
                )
            },
        }
    }

    fn reject(&mut self, item: &WorkItem, error: MemoryOperationError) -> (r: SubmitStep)
        requires
            old(self).wf(),
            old(self)@.rejected < u64::MAX,
        ensures
            final(self).wf(),
            r@ == rejection(item@, error@),
            final(self)@ == (QueueView { rejected: old(self)@.rejected + 1, ..old(self)@ }),
    {
        self.rejected = self.rejected + 1;
        SubmitStep::Refused {
            error: error.clone(),
            rejection: Some(
                MemoryWorkTransition {
                    job_id: item.payload.job_id().to_owned(),
                    sequence: 0,
                    kind: item.payload.kind(),
                    state: MemoryJobState::Rejected,
                    attempts: 0,
                    elapsed_millis: 0,
                    error: Some(error),
                    outcome: None,
                },
            ),
        }
    }

    fn refused_or_existing(existing: Result<Option<MemoryWorkReceipt>, MemoryOperationError>) -> (r:
        Option<SubmitStep>)
        ensures
            match existing {
                Ok(Some(receipt)) => r matches Some(step) && step@ == SubmitView::Existing(receipt@),
                Ok(None) => r is None,
                Err(error) => r matches Some(step) && step@ == (SubmitView::Refused {
                    error: error@,
                    rejection: None,
                }),
            },
    {
        match existing {
            Ok(Some(receipt)) => Some(SubmitStep::Existing(receipt)),
            Ok(None) => None,
            Err(error) => Some(SubmitStep::Refused { error, rejection: None }),
        }
    }

    /// Submit work, one event at a time: first the request, then, where it has to wait for a slot,
    /// what came of waiting.
    pub fn submit(
        &mut self,
        item: &WorkItem,
        event: SubmitEvent,
        now_millis: u64,
    ) -> (r: SubmitStep)
        requires
            old(self).wf(),
            room_for(old(self)@, submit_answer(old(self)@, item@, event, now_millis as nat)),
        ensures
            final(self).wf(),
            r@ == submit_answer(old(self)@, item@, event, now_millis as nat),
            final(self)@ == after_submit(old(self)@, item@, r@, now_millis as nat),
    {
        let job_id = item.payload.job_id();
        match event {
            SubmitEvent::Requested { runtime_active } => {
                if let Some(step) = Self::refused_or_existing(self.existing_receipt(item)) {
                    return step;
                }
                if !self.accepting {
                    return self.reject(item, closed_error("start"));
                }
                if !self.started && !runtime_active {
                    return self.reject(
                        item,
                        invalid_config(
                            "memory work queue submission requires an active Tokio runtime",
                        ),
                    );
                }
                self.take_slot(item, now_millis)
            },
            SubmitEvent::Resumed => {
                if let Some(step) = Self::refused_or_existing(self.existing_receipt(item)) {
                    return step;
                }
                if !self.accepting {
                    return self.reject(item, closed_error(job_id));
                }
                self.take_slot(item, now_millis)
            },
            SubmitEvent::Closed => self.reject(item, closed_error(job_id)),
            SubmitEvent::TimedOut => self.reject(
                item,
                queue_error(
                    MemoryErrorCode::DeadlineExceeded,
                    "memory work queue admission deadline exceeded",
                    true,
                    job_id,
                ),
            ),
        }
    }

    fn take_slot(&mut self, item: &WorkItem, now_millis: u64) -> (r: SubmitStep)
        requires
            old(self).wf(),
            room_for(old(self)@, admission_answer(old(self)@, item@, now_millis as nat)),
            !retains(old(self)@.jobs, item@.job_id()),
        ensures
            final(self).wf(),
            r@ == admission_answer(old(self)@, item@, now_millis as nat),
            final(self)@ == after_submit(old(self)@, item@, r@, now_millis as nat),
    {
        let job_id = item.payload.job_id();
        if self.count(MemoryJobState::Queued) >= self.config.capacity {
            return match self.config.backpressure {
                MemoryBackpressurePolicy::Reject => self.reject(
                    item,
                    queue_error(
                        MemoryErrorCode::ProviderUnavailable,
                        "memory work queue is full",
                        true,
                        job_id,
                    ),
                ),
                MemoryBackpressurePolicy::Wait => SubmitStep::Wait,
            };
        }
        if self.accepted == u64::MAX {
            return SubmitStep::Refused {
                error: queue_error(
                    MemoryErrorCode::Internal,
                    "memory work queue exhausted its sequence space",
                    false,
                    job_id,
                ),
                rejection: None,
            };
        }
        self.accept(item, now_millis)
    }

    /// Submit one store using its operation ID as immutable job identity. Hands the work back with
    /// what is to be done next.
    pub fn submit_store(
        &mut self,
        request: MemoryStoreRequest,
        runtime_active: bool,
        now_millis: u64,
    ) -> (r: Result<(WorkItem, SubmitStep), MemoryOperationError>)
        requires
            old(self).wf(),
            store_fault(request@) is None ==> room_for(
                old(self)@,
                submit_answer(
                    old(self)@,
                    PayloadView::Store(queued_store(request@)),
                    SubmitEvent::Requested { runtime_active },
                    now_millis as nat,
                ),
            ),
        ensures
            final(self).wf(),
            match store_fault(request@) {
                Some(message) => r matches Err(error) && error@ == ErrorView::invalid_request(
                    message,
                ) && final(self)@ == old(self)@,
                None => requested(
                    old(self)@,
                    final(self)@,
                    PayloadView::Store(queued_store(request@)),
                    runtime_active,
                    now_millis as nat,
                    r,
                ),
            },
    {
        match WorkItem::store(request) {
            Ok(item) => {
                let step = self.submit(
                    &item,
                    SubmitEvent::Requested { runtime_active },
                    now_millis,
                );
                Ok((item, step))
            },
            Err(error) => Err(error),
        }
    }

    /// Submit one maintenance request using its operation ID as job identity. Hands the work back
    /// with what is to be done next.
    pub fn submit_maintenance(
        &mut self,
        request: MemoryMaintenanceRequest,
        runtime_active: bool,
        now_millis: u64,
    ) -> (r: Result<(WorkItem, SubmitStep), MemoryOperationError>)
        requires
            old(self).wf(),
            maintenance_fault(request@) is None ==> room_for(
                old(self)@,
                submit_answer(
                    old(self)@,
                    PayloadView::Maintenance(request@),
                    SubmitEvent::Requested { runtime_active },
                    now_millis as nat,
                ),
            ),
        ensures
            final(self).wf(),
            match maintenance_fault(request@) {
                Some(message) => r matches Err(error) && error@ == ErrorView::invalid_request(
                    message,
                ) && final(self)@ == old(self)@,
                None => requested(
                    old(self)@,
                    final(self)@,
                    PayloadView::Maintenance(request@),
                    runtime_active,
                    now_millis as nat,
                    r,
                ),
            },
    {
        match WorkItem::maintenance(request) {
            Ok(item) => {
                let step = self.submit(
                    &item,
                    SubmitEvent::Requested { runtime_active },
                    now_millis,
                );
                Ok((item, step))
            },
            Err(error) => Err(error),
        }
    }

    fn accept(&mut self, item: &WorkItem, now_millis: u64) -> (r: SubmitStep)
        requires
            old(self).wf(),
            old(self)@.accepted < u64::MAX,
            count_in(old(self)@.jobs, MemoryJobState::Queued) < old(self)@.config.capacity,
            !retains(old(self)@.jobs, item@.job_id()),
        ensures
            final(self).wf(),
            r@ == (SubmitView::Accepted {
                start: !old(self)@.started,
                receipt: accepted_job(old(self)@, item@, now_millis as nat).receipt(),
                transition: accepted_job(old(self)@, item@, now_millis as nat).transition(
                    now_millis as nat,
                ),
            }),
            final(self)@ == after_submit(old(self)@, item@, r@, now_millis as nat),
    {
        proof {
            use_type_invariant(item);
            accepting_is_consistent(self@, item@, now_millis as nat);
        }
        let ghost state = self@;
        let ghost entries = self.jobs@;
        let job_id = item.payload.job_id();
        let kind = item.payload.kind();
        let sequence: u64 = self.accepted + 1;
        let mut fingerprint: Vec<u8> = Vec::new();
        let mut i: usize = 0;
        while i < item.fingerprint.len()
            invariant
                i <= item.fingerprint@.len(),
                fingerprint@ == item.fingerprint@.take(i as int),
            decreases item.fingerprint@.len() - i,
        {
            fingerprint.push(item.fingerprint[i]);
            i += 1;
            assert(fingerprint@ =~= item.fingerprint@.take(i as int));
        }
        assert(fingerprint@ =~= item.fingerprint@);
        let start = !self.started;
        self.started = true;
        self.accepted = sequence;
        self.jobs.push(
            JobEntry {
                fingerprint,
                payload: Ghost(item.payload@),
                admitted_millis: now_millis,
                status: MemoryJobStatus {
                    job_id: job_id.to_owned(),
                    sequence,
                    kind,
                    state: MemoryJobState::Queued,
                    attempts: 0,
                    error: None,
                    outcome: None,
                },
            },
        );
        proof {
            assert(self@.jobs =~= state.jobs.push(accepted_job(state, item@, now_millis as nat)));
            assert forall|k: int| 0 <= k < self.jobs@.len() implies (#[trigger] self.jobs@[k]).wf() by {
                if k < entries.len() {
                    assert(self.jobs@[k] == entries[k]);
                    assert(entries[k].wf());
                }
            }
        }
        SubmitStep::Accepted {
            start,
            receipt: MemoryWorkReceipt {
                job_id: job_id.to_owned(),
                sequence,
                state: MemoryJobState::Queued,
            },
            transition: MemoryWorkTransition {
                job_id: job_id.to_owned(),
                sequence,
                kind,
                state: MemoryJobState::Queued,
                attempts: 0,
                elapsed_millis: 0,
                error: None,
                outcome: None,
            },
        }
    }
}

/// The status of a job when its next attempt starts, where one may start: the job waits for it,
/// attempts are left, and the consumer is not at work on another job.
pub open spec fn attempt_start(state: QueueView, job_id: Seq<char>) -> Option<StatusView> {
    match state.job(job_id) {
        Some(job) if (job.status.state is Queued || job.status.state is Retrying)
            && job.status.attempts < state.config.max_attempts && !busy_elsewhere(
            state.jobs,
            job_id,
        ) => Some(
            StatusView {
                state: MemoryJobState::Running,
                attempts: job.status.attempts + 1,
                error: None,
                outcome: None,
                ..job.status
            },
        ),
        _ => None,
    }
}

/// The status of a running job when its attempt ends: it succeeds, it is retried where the
/// failure may be and attempts are left, or it fails.
pub open spec fn attempt_end(
    state: QueueView,
    job_id: Seq<char>,
    result: Result<OutcomeView, ErrorView>,
) -> Option<StatusView> {
    match state.job(job_id) {
        Some(job) if job.status.state is Running => Some(
            match result {
                Ok(outcome) => StatusView {
                    state: MemoryJobState::Succeeded,
                    error: None,
                    outcome: Some(outcome),
                    ..job.status
                },
                Err(error) => StatusView {
                    state: if error.retryable && job.status.attempts < state.config.max_attempts {
                        MemoryJobState::Retrying
                    } else {
                        MemoryJobState::Failed
                    },
                    error: Some(error),
                    outcome: None,
                    ..job.status
                },
            },
        ),
        _ => None,
    }
}

/// The delay after a failed attempt: it doubles from attempt to attempt up to its maximum.
pub open spec fn retry_delay(config: MemoryWorkQueueConfig, attempt: nat) -> nat
    decreases attempt,
{
    if attempt <= 1 {
        config.retry_initial_delay_millis as nat
    } else {
        let doubled = 2 * retry_delay(config, (attempt - 1) as nat);
        if doubled < config.retry_max_delay_millis {
            doubled
        } else {
            config.retry_max_delay_millis as nat
        }
    }
}

/// The queue after a job has become terminal, before its history is cut.
pub open spec fn terminated(state: QueueView, status: StatusView) -> QueueView {
    QueueView {
        succeeded: state.succeeded + if status.state is Succeeded { 1nat } else { 0 },
        failed: state.failed + if status.state is Failed { 1nat } else { 0 },
        cancelled: state.cancelled + if status.state is Cancelled { 1nat } else { 0 },
        finished: state.finished.push(status.job_id),
        ..state.with_status(status)
    }
}

/// The queue after a job has taken a status.
pub open spec fn after_status(state: QueueView, status: StatusView) -> QueueView {
    if terminal_state(status.state) {
        terminated(state, status).pruned()
    } else {
        state.with_status(status)
    }
}

/// The status of a cancelled job.
pub open spec fn cancelled_status(status: StatusView, message: Seq<char>) -> StatusView {
    StatusView {
        state: MemoryJobState::Cancelled,
        error: Some(
            queue_failure(MemoryErrorCode::Cancelled, message, false, status.job_id),
        ),
        ..status
    }
}

/// The queue after the active jobs among its first `n` are cancelled.
pub open spec fn cancelled_upto(state: QueueView, n: nat, message: Seq<char>) -> QueueView
    decreases n,
{
    if n == 0 {
        state
    } else {
        let before = cancelled_upto(state, (n - 1) as nat, message);
        let job = state.jobs[n - 1];
        if job.active() {
            terminated(before, cancelled_status(job.status, message))
        } else {
            before
        }
    }
}

/// The transitions of the active jobs among the first `n`, when they are cancelled.
pub open spec fn cancellations(jobs: Seq<JobView>, n: nat, message: Seq<char>, now: nat) -> Seq<
    TransitionView,
>
    decreases n,
{
    if n == 0 {
        Seq::empty()
    } else {
        let before = cancellations(jobs, (n - 1) as nat, message, now);
        let job = jobs[n - 1];
        if job.active() {
            before.push(
                TransitionView {
                    status: StatusView { outcome: None, ..cancelled_status(job.status, message) },
                    elapsed_millis: since(job.admitted_millis, now),
                },
            )
        } else {
            before
        }
    }
}

/// A status fits a job of the queue.
pub open spec fn fits(state: QueueView, status: StatusView) -> bool {
    &&& retains(state.jobs, status.job_id)
    &&& state.jobs[place(state.jobs, status.job_id)].active()
    &&& state.jobs[place(state.jobs, status.job_id)].status.sequence == status.sequence
    &&& status.attempts <= state.config.max_attempts
    &&& !(status.state is Rejected)
    &&& !(status.state is Queued)
    &&& !terminal_state(status.state) ==> !busy_elsewhere(state.jobs, status.job_id)
}

/// A change of an active job's status keeps the contents consistent.
pub proof fn status_change_is_consistent(state: QueueView, status: StatusView)
    requires
        state.consistent(),
        fits(state, status),
    ensures
        terminal_state(status.state) ==> terminated(state, status).consistent(),
        !terminal_state(status.state) ==> state.with_status(status).consistent(),
{
    let at = place(state.jobs, status.job_id);
    let id = status.job_id;
    assert(state.jobs[at].status.job_id == id);
    let job = state.jobs[at].with_status(status);
    count_after_update(state.jobs, at, job);
    count_in_after_update(state.jobs, at, job, MemoryJobState::Queued);
    let next = if terminal_state(status.state) {
        terminated(state, status)
    } else {
        state.with_status(status)
    };
    assert(next.jobs == state.jobs.update(at, job));
    assert(!state.finished.contains(id));
    assert forall|i: int| 0 <= i < next.jobs.len() implies next.finished.contains(
        (#[trigger] next.jobs[i]).status.job_id,
    ) == !next.jobs[i].active() by {
        let own = next.jobs[i].status.job_id;
        assert(own == state.jobs[i].status.job_id);
        if terminal_state(status.state) {
            if i == at {
                assert(next.finished[state.finished.len() as int] == id);
            } else {
                assert(own != id);
                assert(state.finished.contains(own) == next.finished.contains(own)) by {
                    if state.finished.contains(own) {
                        let k = choose|k: int|
                            0 <= k < state.finished.len() && state.finished[k] == own;
                        assert(next.finished[k] == own);
                    }
                    if next.finished.contains(own) {
                        let k = choose|k: int|
                            0 <= k < next.finished.len() && next.finished[k] == own;
                        assert(state.finished[k] == own);
                    }
                }
            }
        }
    }
    assert forall|k: int| 0 <= k < next.finished.len() implies retains(
        next.jobs,
        #[trigger] next.finished[k],
    ) by {
        let own = next.finished[k];
        if k < state.finished.len() {
            assert(own == state.finished[k]);
            let i = place(state.jobs, own);
            assert(retains(state.jobs, own));
            assert(next.jobs[i].status.job_id == own);
        } else {
            assert(next.jobs[at].status.job_id == own);
        }
    }
    assert(next.finished.no_duplicates());
    assert forall|i: int, j: int| 0 <= i < j < next.jobs.len() implies (
    #[trigger] next.jobs[i]).status.job_id != (#[trigger] next.jobs[j]).status.job_id
        && next.jobs[i].status.sequence < next.jobs[j].status.sequence && !(
    next.jobs[i].under_way() && next.jobs[j].under_way()) by {
        assert(next.jobs[i].status.job_id == state.jobs[i].status.job_id);
        assert(next.jobs[j].status.job_id == state.jobs[j].status.job_id);
        assert(next.jobs[i].status.sequence == state.jobs[i].status.sequence);
        assert(next.jobs[j].status.sequence == state.jobs[j].status.sequence);
    }
    assert forall|i: int| 0 <= i < next.jobs.len() implies 1 <= (
    #[trigger] next.jobs[i]).status.sequence <= next.accepted && next.jobs[i].status.attempts
        <= next.config.max_attempts && !(next.jobs[i].status.state is Rejected)
        && next.jobs[i].payload.job_id() == next.jobs[i].status.job_id by {
        if i != at {
            assert(next.jobs[i] == state.jobs[i]);
        }
        assert(state.jobs[i].status.sequence >= 1);
    }
}

/// Cancelling jobs keeps the contents consistent, leaves the other jobs and counts each.
pub proof fn cancelling_is_consistent(state: QueueView, n: nat, message: Seq<char>)
    requires
        state.consistent(),
        n <= state.jobs.len(),
    ensures
        ({
            let next = cancelled_upto(state, n, message);
            &&& next.consistent()
            &&& next.config == state.config
            &&& next.accepted == state.accepted
            &&& next.jobs.len() == state.jobs.len()
            &&& forall|i: int| n <= i < state.jobs.len() ==> next.jobs[i] == state.jobs[i]
            &&& forall|i: int| 0 <= i < n ==> !(#[trigger] next.jobs[i]).active()
            &&& forall|i: int|
                0 <= i < state.jobs.len() ==> (#[trigger] next.jobs[i]).status.job_id
                    == state.jobs[i].status.job_id && (!state.jobs[i].active() ==> next.jobs[i]
                    == state.jobs[i])
        }),
    decreases n,
{
    if n > 0 {
        cancelling_is_consistent(state, (n - 1) as nat, message);
        let before = cancelled_upto(state, (n - 1) as nat, message);
        let job = state.jobs[n - 1];
        assert(before.jobs[n - 1] == job);
        if job.active() {
            let status = cancelled_status(job.status, message);
            assert(retains(before.jobs, status.job_id));
            assert(place(before.jobs, status.job_id) == n - 1);
            status_change_is_consistent(before, status);
        }
    }
}

/// Where no job is active, the count is zero.
pub(crate) proof fn none_active(jobs: Seq<JobView>)
    requires
        forall|i: int| 0 <= i < jobs.len() ==> !(#[trigger] jobs[i]).active(),
    ensures
        count_active(jobs) == 0,
    decreases jobs.len(),
{
    if jobs.len() > 0 {
        assert forall|i: int| 0 <= i < jobs.drop_last().len() implies !(
        #[trigger] jobs.drop_last()[i]).active() by {
            assert(jobs.drop_last()[i] == jobs[i]);
        }
        none_active(jobs.drop_last());
    }
}

/// What the end of an attempt asks of the worker.
#[derive(Debug, PartialEq)]
pub enum AttemptStep {
    /// The job is terminal.
    Finished {
        /// The transition to observe.
        transition: MemoryWorkTransition,
    },
    /// The job is to be run again.
    Retry {
        /// The transition to observe.
        transition: MemoryWorkTransition,
        /// How long to wait before the next attempt.
        delay_millis: u64,
    },
}

/// The view of what a piece of work came to.
pub open spec fn work_result(result: Result<MemoryWorkOutcome, MemoryOperationError>) -> Result<
    OutcomeView,
    ErrorView,
> {
    outcome(result)
}

/// The views of a list of transitions.
pub open spec fn transition_views(transitions: Seq<MemoryWorkTransition>) -> Seq<TransitionView> {
    transitions.map_values(|transition: MemoryWorkTransition| transition@)
}

fn status_transition(status: &MemoryJobStatus, elapsed_millis: u64) -> (r: MemoryWorkTransition)
    ensures
        r@ == (TransitionView { status: status@, elapsed_millis: elapsed_millis as nat }),
{
    MemoryWorkTransition {
        job_id: status.job_id.clone(),
        sequence: status.sequence,
        kind: status.kind,
        state: status.state,
        attempts: status.attempts,
        elapsed_millis,
        error: clone_opt_error(&status.error),
        outcome: clone_opt_outcome(&status.outcome),
    }
}

fn elapsed(start: u64, now: u64) -> (r: u64)
    ensures
        r == since(start as nat, now as nat),
{
    if now > start {
        now - start
    } else {
        0
    }
}

impl MemoryWorkQueueConfig {
    /// The delay after a failed attempt.
    pub fn retry_delay_millis(&self, attempt: u32) -> (r: u64)
        ensures
            r == retry_delay(*self, attempt as nat),
    {
        let mut delay: u64 = self.retry_initial_delay_millis;
        let mut i: u32 = 1;
        while i < attempt
            invariant
                1 <= i,
                i <= attempt || i == 1,
                delay == retry_delay(*self, i as nat),
            decreases attempt - i,
        {
            if delay > self.retry_max_delay_millis / 2 {
                delay = self.retry_max_delay_millis;
            } else {
                delay = 2 * delay;
            }
            i += 1;
        }
        delay
    }
}

impl MemoryWorkQueue {
    fn set_status(&mut self, i: usize, status: MemoryJobStatus)
        requires
            old(self)@.consistent(),
            old(self).entries_wf(),
            i < old(self).jobs@.len(),
            old(self)@.jobs[i as int].status.job_id == status@.job_id,
        ensures
            final(self).entries_wf(),
            final(self)@ == old(self)@.with_status(status@),
    {
        let ghost state = self@;
        let ghost entries = self.jobs@;
        proof {
            let at = place(state.jobs, status@.job_id);
            assert(retains(state.jobs, status@.job_id));
            assert(state.jobs[at].status.job_id == status@.job_id);
            assert(at == i);
        }
        assert(entries[i as int].wf());
        self.jobs[i].status = status;
        proof {
            assert(self@.jobs =~= state.with_status(status@).jobs);
            assert forall|k: int| 0 <= k < self.jobs@.len() implies (#[trigger] self.jobs@[k]).wf() by {
                assert(entries[k].wf());
            }
        }
    }

    fn prune(&mut self)
        requires
            old(self)@.consistent(),
            old(self).entries_wf(),
        ensures
            final(self).wf(),
            final(self)@ == old(self)@.pruned(),
    {
        let ghost start = self@;
        while self.terminal_order.len() > self.config.terminal_history_capacity
            invariant
                self@.consistent(),
                self.entries_wf(),
                self@.pruned() == start.pruned(),
            decreases self.terminal_order@.len(),
        {
            let ghost state = self@;
            let ghost entries = self.jobs@;
            proof {
                dropping_oldest_is_consistent(state);
            }
            let id = self.terminal_order.remove(0);
            assert(id@ == state.finished[0]);
            assert(texts(self.terminal_order@) =~= state.finished.drop_first());
            let count = self.jobs.len();
            let mut i: usize = 0;
            while self.jobs[i].status.job_id != id
                invariant
                    i < count,
                    count == self.jobs@.len(),
                    state.finished.len() > 0,
                    self.jobs@ == entries,
                    state.jobs == job_views(entries),
                    state.consistent(),
                    id@ == state.finished[0],
                    retains(state.jobs, id@),
                    i <= place(state.jobs, id@),
                decreases self.jobs@.len() - i,
            {
                assert(state.jobs[i as int] == entries[i as int].view());
                let ghost at = place(state.jobs, id@);
                assert(state.jobs[at].status.job_id == id@);
                i += 1;
            }
            proof {
                let at = place(state.jobs, id@);
                assert(state.jobs[i as int] == entries[i as int].view());
                assert(state.jobs[at].status.job_id == id@);
                assert(at == i);
            }
            let _dropped = self.jobs.remove(i);
            proof {
                assert(job_views(self.jobs@) =~= state.jobs.remove(i as int));
                assert(self@ == state.without_oldest());
                assert forall|k: int| 0 <= k < self.jobs@.len() implies (
                #[trigger] self.jobs@[k]).wf() by {
                    let was = if k < i { k } else { k + 1 };
                    assert(self.jobs@[k] == entries[was]);
                    assert(entries[was].wf());
                }
            }
        }
        proof {
            pruning_is_consistent(start);
        }
    }

    fn is_busy_elsewhere(&self, job_id: &str) -> (r: bool)
        ensures
            r == busy_elsewhere(self@.jobs, job_id@),
    {
        let own = job_id.to_owned();
        let mut i: usize = 0;
        while i < self.jobs.len()
            invariant
                i <= self.jobs@.len(),
                own@ == job_id@,
                forall|j: int|
                    0 <= j < i ==> !((#[trigger] self@.jobs[j]).under_way()
                        && self@.jobs[j].status.job_id != job_id@),
            decreases self.jobs@.len() - i,
        {
            assert(self@.jobs[i as int] == self.jobs@[i as int].view());
            let status = &self.jobs[i].status;
            let under_way = matches!(
                status.state,
                MemoryJobState::Running | MemoryJobState::Retrying
            );
            if under_way && status.job_id != own {
                return true;
            }
            i += 1;
        }
        false
    }

    /// Start the next attempt of a job that waits for one. The queue has a single consumer: no
    /// attempt starts while another job is running or to be retried.
    pub fn start_attempt(
        &mut self,
        job_id: &str,
        now_millis: u64,
    ) -> (r: Option<MemoryWorkTransition>)
        requires
            old(self).wf(),
        ensures
            final(self).wf(),
            match attempt_start(old(self)@, job_id@) {
                Some(status) => r matches Some(transition) && final(self)@ == old(
                    self,
                )@.with_status(status) && transition@ == old(self)@.job(
                    job_id@,
                )->0.with_status(status).transition(now_millis as nat),
                None => r is None && final(self)@ == old(self)@,
            },
    {
        match self.find(job_id) {
            None => None,
            Some(i) => {
                let ghost state = self@;
                let status = &self.jobs[i].status;
                assert(self@.jobs[i as int] == self.jobs@[i as int].view());
                let waits = matches!(status.state, MemoryJobState::Queued | MemoryJobState::Retrying);
                if !waits || status.attempts >= self.config.max_attempts || self.is_busy_elsewhere(
                    job_id,
                ) {
                    return None;
                }
                let next = MemoryJobStatus {
                    job_id: status.job_id.clone(),
                    sequence: status.sequence,
                    kind: status.kind,
                    state: MemoryJobState::Running,
                    attempts: status.attempts + 1,
                    error: None,
                    outcome: None,
                };
                let transition = status_transition(
                    &next,
                    elapsed(self.jobs[i].admitted_millis, now_millis),
                );
                proof {
                    status_change_is_consistent(state, next@);
                }
                self.set_status(i, next);
                Some(transition)
            },
        }
    }

    /// End the running attempt of a job: it succeeds, is retried or fails.
    pub fn finish_attempt(
        &mut self,
        job_id: &str,
        result: Result<MemoryWorkOutcome, MemoryOperationError>,
        now_millis: u64,
    ) -> (r: Option<AttemptStep>)
        requires
            old(self).wf(),
        ensures
            final(self).wf(),
            match attempt_end(old(self)@, job_id@, work_result(result)) {
                Some(status) => {
                    let moved = old(self)@.job(job_id@)->0.with_status(status).transition(
                        now_millis as nat,
                    );
                    &&& final(self)@ == after_status(old(self)@, status)
                    &&& match r {
                        Some(AttemptStep::Retry { transition, delay_millis }) => status.state is Retrying
                            && transition@ == moved && delay_millis == retry_delay(
                            old(self)@.config,
                            status.attempts,
                        ),
                        Some(AttemptStep::Finished { transition }) => terminal_state(status.state)
                            && transition@ == moved,
                        None => false,
                    }
                },
                None => r is None && final(self)@ == old(self)@,
            },
    {
        match self.find(job_id) {
            None => None,
            Some(i) => {
                let ghost state = self@;
                assert(self@.jobs[i as int] == self.jobs@[i as int].view());
                if !matches!(self.jobs[i].status.state, MemoryJobState::Running) {
                    return None;
                }
                let status = &self.jobs[i].status;
                let attempts: u32 = status.attempts;
                let (next_state, error, outcome) = match result {
                    Ok(outcome) => (MemoryJobState::Succeeded, None, Some(outcome)),
                    Err(error) => {
                        if error.retryable && attempts < self.config.max_attempts {
                            (MemoryJobState::Retrying, Some(error), None)
                        } else {
                            (MemoryJobState::Failed, Some(error), None)
                        }
                    },
                };
                let next = MemoryJobStatus {
                    job_id: status.job_id.clone(),
                    sequence: status.sequence,
                    kind: status.kind,
                    state: next_state,
                    attempts,
                    error,
                    outcome,
                };
                let transition = status_transition(
                    &next,
                    elapsed(self.jobs[i].admitted_millis, now_millis),
                );
                let ghost view = next@;
                proof {
                    status_change_is_consistent(state, view);
                    count_after_update(
                        state.jobs,
                        i as int,
                        state.jobs[i as int].with_status(view),
                    );
                }
                self.set_status(i, next);
                if matches!(next_state, MemoryJobState::Retrying) {
                    let delay_millis = self.config.retry_delay_millis(attempts);
                    return Some(AttemptStep::Retry { transition, delay_millis });
                }
                if matches!(next_state, MemoryJobState::Succeeded) {
                    self.succeeded = self.succeeded + 1;
                } else {
                    self.failed = self.failed + 1;
                }
                self.terminal_order.push(transition.job_id.clone());
                assert(texts(self.terminal_order@) =~= state.finished.push(view.job_id));
                assert(self@ == terminated(state, view));
                self.prune();
                Some(AttemptStep::Finished { transition })
            },
        }
    }

    /// Cancel every job that is not terminal.
    pub fn cancel_nonterminal(&mut self, message: &str, now_millis: u64) -> (r: Vec<
        MemoryWorkTransition,
    >)
        requires
            old(self).wf(),
        ensures
            final(self).wf(),
            final(self)@ == cancelled_upto(
                old(self)@,
                old(self)@.jobs.len(),
                message@,
            ).pruned(),
            transition_views(r@) == cancellations(
                old(self)@.jobs,
                old(self)@.jobs.len(),
                message@,
                now_millis as nat,
            ),
            count_active(final(self)@.jobs) == 0,
    {
        let ghost start = self@;
        let mut transitions: Vec<MemoryWorkTransition> = Vec::new();
        let mut i: usize = 0;
        assert(transition_views(transitions@) =~= Seq::empty());
        while i < self.jobs.len()
            invariant
                i <= self.jobs@.len(),
                self.jobs@.len() == start.jobs.len(),
                start.consistent(),
                self.entries_wf(),
                self@ == cancelled_upto(start, i as nat, message@),
                transition_views(transitions@) == cancellations(
                    start.jobs,
                    i as nat,
                    message@,
                    now_millis as nat,
                ),
            decreases self.jobs@.len() - i,
        {
            let ghost state = self@;
            proof {
                cancelling_is_consistent(start, i as nat, message@);
                cancelling_is_consistent(start, (i + 1) as nat, message@);
                assert(state.jobs[i as int] == start.jobs[i as int]);
                assert(state.jobs[i as int] == self.jobs@[i as int].view());
            }
            if !self.jobs[i].status.state.is_terminal() {
                let status = &self.jobs[i].status;
                let error = queue_error(
                    MemoryErrorCode::Cancelled,
                    message,
                    false,
                    status.job_id.as_str(),
                );
                let next = MemoryJobStatus {
                    job_id: status.job_id.clone(),
                    sequence: status.sequence,
                    kind: status.kind,
                    state: MemoryJobState::Cancelled,
                    attempts: status.attempts,
                    error: Some(error),
                    outcome: clone_opt_outcome(&status.outcome),
                };
                let mut transition = status_transition(
                    &next,
                    elapsed(self.jobs[i].admitted_millis, now_millis),
                );
                transition.outcome = None;
                let ghost view = next@;
                proof {
                    assert(retains(state.jobs, view.job_id));
                    active_is_counted(state.jobs, i as int);
                }
                self.terminal_order.push(next.job_id.clone());
                self.cancelled = self.cancelled + 1;
                let ghost counted = self@;
                assert(texts(self.terminal_order@) =~= state.finished.push(view.job_id));
                let ghost before = transition_views(transitions@);
                transitions.push(transition);
                assert(transition_views(transitions@) =~= before.push(transition@));
                let ghost entries = self.jobs@;
                assert(entries[i as int].wf());
                self.jobs[i].status = next;
                proof {
                    let at = place(state.jobs, view.job_id);
                    assert(state.jobs[at].status.job_id == view.job_id);
                    assert(at == i);
                    assert(self@.jobs =~= terminated(state, view).jobs);
                    assert(self@ == terminated(state, view));
                    assert forall|k: int| 0 <= k < self.jobs@.len() implies (
                    #[trigger] self.jobs@[k]).wf() by {
                        assert(entries[k].wf());
                    }
                }
            }
            i += 1;
        }
        proof {
            cancelling_is_consistent(start, start.jobs.len(), message@);
            none_active(self@.jobs);
            pruning_is_consistent(self@);
        }
        self.prune();
        transitions
    }
}

/// The aggregate of what a queue holds.
pub open spec fn aggregate(state: QueueView) -> MemoryWorkQueueSnapshot {
    MemoryWorkQueueSnapshot {
        accepting: state.accepting,
        capacity: state.config.capacity,
        queued: count_in(state.jobs, MemoryJobState::Queued) as usize,
        running: count_in(state.jobs, MemoryJobState::Running) as usize,
        retrying: count_in(state.jobs, MemoryJobState::Retrying) as usize,
        accepted_total: state.accepted as u64,
        rejected_total: state.rejected as u64,
        succeeded_total: state.succeeded as u64,
        failed_total: state.failed as u64,
        cancelled_total: state.cancelled as u64,
        last_accepted_sequence: state.accepted as u64,
        last_terminal_sequence: state.settled() as u64,
        retained_terminal_jobs: (state.jobs.len() - count_active(state.jobs)) as usize,
    }
}

/// The settled sequence is at most the last accepted one, and every active job comes after it.
pub proof fn active_jobs_are_unsettled(state: QueueView)
    requires
        state.consistent(),
    ensures
        state.settled() <= state.accepted,
        forall|i: int|
            0 <= i < state.jobs.len() && (#[trigger] state.jobs[i]).active()
                ==> state.jobs[i].status.sequence > state.settled(),
        count_active(state.jobs) == 0 ==> state.settled() == state.accepted,
{
    settled_bounds(state.jobs, state.accepted);
    if count_active(state.jobs) == 0 {
        assert forall|i: int| 0 <= i < state.jobs.len() implies !(#[trigger] state.jobs[i]).active() by {
            if state.jobs[i].active() {
                active_is_counted(state.jobs, i);
            }
        }
        settled_without_active(state.jobs, state.accepted);
    }
}

proof fn settled_bounds(jobs: Seq<JobView>, accepted: nat)
    requires
        forall|i: int|
            0 <= i < jobs.len() ==> 1 <= (#[trigger] jobs[i]).status.sequence <= accepted,
        forall|i: int, j: int|
            0 <= i < j < jobs.len() ==> (#[trigger] jobs[i]).status.sequence < (
            #[trigger] jobs[j]).status.sequence,
    ensures
        settled_sequence(jobs, accepted) <= accepted,
        forall|i: int|
            0 <= i < jobs.len() && (#[trigger] jobs[i]).active() ==> jobs[i].status.sequence
                > settled_sequence(jobs, accepted),
    decreases jobs.len(),
{
    if jobs.len() > 0 {
        let rest = jobs.drop_first();
        assert forall|i: int, j: int| 0 <= i < j < rest.len() implies (
        #[trigger] rest[i]).status.sequence < (#[trigger] rest[j]).status.sequence by {
            assert(rest[i] == jobs[i + 1] && rest[j] == jobs[j + 1]);
        }
        settled_bounds(rest, accepted);
        assert forall|i: int| 0 <= i < jobs.len() && (#[trigger] jobs[i]).active() implies jobs[i].status.sequence
            > settled_sequence(jobs, accepted) by {
            if jobs[0].active() {
                if i > 0 {
                    assert(jobs[0].status.sequence < jobs[i].status.sequence);
                }
            } else {
                assert(rest[i - 1] == jobs[i]);
            }
        }
    }
}

proof fn settled_without_active(jobs: Seq<JobView>, accepted: nat)
    requires
        forall|i: int| 0 <= i < jobs.len() ==> !(#[trigger] jobs[i]).active(),
    ensures
        settled_sequence(jobs, accepted) == accepted,
    decreases jobs.len(),
{
    if jobs.len() > 0 {
        assert forall|i: int| 0 <= i < jobs.drop_first().len() implies !(
        #[trigger] jobs.drop_first()[i]).active() by {
            assert(jobs.drop_first()[i] == jobs[i + 1]);
        }
        settled_without_active(jobs.drop_first(), accepted);
    }
}

/// The failure of waiting too long for accepted work.
pub open spec fn wait_failure(operation: Seq<char>) -> ErrorView {
    queue_failure(
        MemoryErrorCode::DeadlineExceeded,
        "memory work queue "@ + operation + " deadline exceeded"@,
        true,
        operation,
    )
}

impl MemoryWorkQueue {
    fn count(&self, state: MemoryJobState) -> (r: usize)
        ensures
            r == count_in(self@.jobs, state),
    {
        let mut count: usize = 0;
        let mut i: usize = 0;
        assert(self@.jobs.take(0) =~= Seq::empty());
        while i < self.jobs.len()
            invariant
                i <= self.jobs@.len(),
                count <= i,
                count == count_in(self@.jobs.take(i as int), state),
            decreases self.jobs@.len() - i,
        {
            assert(self@.jobs.take(i + 1).drop_last() =~= self@.jobs.take(i as int));
            assert(self@.jobs.take(i + 1).last() == self.jobs@[i as int].view());
            if self.jobs[i].status.state == state {
                count += 1;
            }
            i += 1;
        }
        assert(self@.jobs.take(i as int) =~= self@.jobs);
        count
    }

    fn count_terminal(&self) -> (r: usize)
        ensures
            r == self@.jobs.len() - count_active(self@.jobs),
    {
        let mut count: usize = 0;
        let mut i: usize = 0;
        assert(self@.jobs.take(0) =~= Seq::empty());
        while i < self.jobs.len()
            invariant
                i <= self.jobs@.len(),
                count <= i,
                count == i - count_active(self@.jobs.take(i as int)),
            decreases self.jobs@.len() - i,
        {
            assert(self@.jobs.take(i + 1).drop_last() =~= self@.jobs.take(i as int));
            assert(self@.jobs.take(i + 1).last() == self.jobs@[i as int].view());
            if self.jobs[i].status.state.is_terminal() {
                count += 1;
            }
            i += 1;
        }
        assert(self@.jobs.take(i as int) =~= self@.jobs);
        count
    }

    /// Highest contiguous terminal sequence.
    pub fn last_terminal_sequence(&self) -> (r: u64)
        requires
            self.wf(),
        ensures
            r == self@.settled(),
    {
        let mut i: usize = 0;
        assert(self@.jobs.skip(0) =~= self@.jobs);
        while i < self.jobs.len()
            invariant
                i <= self.jobs@.len(),
                self.wf(),
                self@.settled() == settled_sequence(self@.jobs.skip(i as int), self@.accepted),
            decreases self.jobs@.len() - i,
        {
            let ghost rest = self@.jobs.skip(i as int);
            assert(rest[0] == self@.jobs[i as int]);
            assert(self@.jobs[i as int] == self.jobs@[i as int].view());
            assert(rest.drop_first() =~= self@.jobs.skip(i + 1));
            if !self.jobs[i].status.state.is_terminal() {
                return self.jobs[i].status.sequence - 1;
            }
            i += 1;
        }
        self.accepted
    }

    /// Return aggregate state without blocking on work.
    pub fn snapshot(&self) -> (r: MemoryWorkQueueSnapshot)
        requires
            self.wf(),
        ensures
            r == aggregate(self@),
    {
        MemoryWorkQueueSnapshot {
            accepting: self.accepting,
            capacity: self.config.capacity,
            queued: self.count(MemoryJobState::Queued),
            running: self.count(MemoryJobState::Running),
            retrying: self.count(MemoryJobState::Retrying),
            accepted_total: self.accepted,
            rejected_total: self.rejected,
            succeeded_total: self.succeeded,
            failed_total: self.failed,
            cancelled_total: self.cancelled,
            last_accepted_sequence: self.accepted,
            last_terminal_sequence: self.last_terminal_sequence(),
            retained_terminal_jobs: self.count_terminal(),
        }
    }

    /// The sequence up to which a flush waits: the last accepted one.
    pub fn flush_target(&self) -> (r: u64)
        ensures
            r == self@.accepted,
    {
        self.accepted
    }

    /// Tells whether every job accepted up to a sequence is terminal.
    pub fn is_settled(&self, target: u64) -> (r: bool)
        requires
            self.wf(),
        ensures
            r == (self@.settled() >= target),
    {
        self.last_terminal_sequence() >= target
    }

    /// The failure of a flush, drain or shutdown that waited too long.
    pub fn wait_error(operation: &str) -> (r: MemoryOperationError)
        ensures
            r@ == wait_failure(operation@),
    {
        let message = concat3("memory work queue ", operation, " deadline exceeded");
        queue_error(MemoryErrorCode::DeadlineExceeded, message.as_str(), true, operation)
    }

    /// The failure of an attempt that ran too long.
    pub fn attempt_timeout_error(job_id: &str) -> (r: MemoryOperationError)
        ensures
            r@ == queue_failure(
                MemoryErrorCode::DeadlineExceeded,
                "memory work attempt deadline exceeded"@,
                true,
                job_id@,
            ),
    {
        queue_error(
            MemoryErrorCode::DeadlineExceeded,
            "memory work attempt deadline exceeded",
            true,
            job_id,
        )
    }

    /// Stop admission. Returns the last accepted sequence.
    pub fn close_admission(&mut self) -> (r: u64)
        requires
            old(self).wf(),
        ensures
            final(self).wf(),
            final(self)@ == (QueueView { accepting: false, started: false, ..old(self)@ }),
            r == old(self)@.accepted,
    {
        self.accepting = false;
        self.started = false;
        self.accepted
    }
}

impl MemoryWorkQueue {
    /// End a shutdown that waited for accepted work. Where not all of it became terminal in time,
    /// what is left is cancelled.
    pub fn end_shutdown(&mut self, settled: bool, now_millis: u64) -> (r: (
        Result<(), MemoryOperationError>,
        Vec<MemoryWorkTransition>,
    ))
        requires
            old(self).wf(),
        ensures
            final(self).wf(),
            settled ==> r.0 is Ok && transition_views(r.1@) == Seq::<TransitionView>::empty()
                && final(self)@ == old(self)@,
            !settled ==> {
                let message = "memory queue shutdown deadline exceeded"@;
                let count = old(self)@.jobs.len();
                &&& r.0 matches Err(error) && error@ == wait_failure("shutdown"@)
                &&& transition_views(r.1@) == cancellations(
                    old(self)@.jobs,
                    count,
                    message,
                    now_millis as nat,
                )
                &&& final(self)@ == cancelled_upto(old(self)@, count, message).pruned()
                &&& count_active(final(self)@.jobs) == 0
            },
    {
        if settled {
            let none: Vec<MemoryWorkTransition> = Vec::new();
            assert(transition_views(none@) =~= Seq::empty());
            return (Ok(()), none);
        }
        let cancelled = self.cancel_nonterminal(
            "memory queue shutdown deadline exceeded",
            now_millis,
        );
        (Err(Self::wait_error("shutdown")), cancelled)
    }
}

/// What a completed store comes to.
pub open spec fn store_work_outcome(result: StoreResultView) -> OutcomeView {
    OutcomeView {
        memory_ids: seq![result.record.id],
        disposition: Some(result.disposition),
        partial_error_count: 0,
    }
}

/// What completed maintenance comes to.
pub open spec fn maintenance_work_outcome(result: MaintenanceResultView) -> OutcomeView {
    OutcomeView {
        memory_ids: result.records.map_values(|record: RecordView| record.id),
        disposition: None,
        partial_error_count: result.partial_errors.len(),
    }
}

impl MemoryWorkOutcome {
    /// The outcome of a completed store.
    pub fn of_store(result: MemoryStoreResult) -> (r: Self)
        ensures
            r@ == store_work_outcome(result@),
    {
        let disposition = Some(result.disposition);
        let memory_ids: Vec<String> = vec![result.record.id];
        assert(texts(memory_ids@) =~= seq![result@.record.id]);
        MemoryWorkOutcome { memory_ids, disposition, partial_error_count: 0 }
    }

    /// The outcome of completed maintenance.
    pub fn of_maintenance(result: &MemoryMaintenanceResult) -> (r: Self)
        ensures
            r@ == maintenance_work_outcome(result@),
    {
        let mut memory_ids: Vec<String> = Vec::new();
        let mut i: usize = 0;
        while i < result.records.len()
            invariant
                i <= result.records@.len(),
                memory_ids@.len() == i,
                forall|j: int| 0 <= j < i ==> (#[trigger] memory_ids@[j])@ == result.records@[j]@.id,
            decreases result.records@.len() - i,
        {
            memory_ids.push(result.records[i].id.clone());
            i += 1;
        }
        assert(texts(memory_ids@) =~= maintenance_work_outcome(result@).memory_ids);
        MemoryWorkOutcome {
            memory_ids,
            disposition: None,
            partial_error_count: result.partial_errors.len(),
        }
    }
}

/// Work with a new deadline.
pub open spec fn with_deadline(payload: PayloadView, deadline: Timestamp) -> PayloadView {
    match payload {
        PayloadView::Store(request) => PayloadView::Store(
            StoreRequestView {
                context: ContextView {
                    deadline: Some(deadline),
                    ..request.context
                },
                ..request
            },
        ),
        PayloadView::Maintenance(request) => PayloadView::Maintenance(
            MaintenanceRequestView {
                context: ContextView {
                    deadline: Some(deadline),
                    ..request.context
                },
                ..request
            },
        ),
    }
}

impl WorkPayload {
    /// Give the work the fresh deadline of an attempt that starts at an instant.
    pub fn refresh_deadline(&mut self, now: Timestamp, timeout_millis: u64)
        requires
            representable(now, timeout_millis as nat),
        ensures
            final(self)@ == with_deadline(old(self)@, later(now, timeout_millis as nat)),
    {
        let deadline = now.plus_millis(timeout_millis);
        match self {
            WorkPayload::Store(request) => {
                request.context.deadline = Some(deadline);
            },
            WorkPayload::Maintenance(request) => {
                request.context.deadline = Some(deadline);
            },
        }
    }
}

/// What came back of submitted work holds that work as it was, with the answer of the queue.
pub proof fn submitted_work_comes_back(
    before: QueueView,
    after: QueueView,
    payload: PayloadView,
    runtime_active: bool,
    now_millis: nat,
    result: Result<(WorkItem, SubmitStep), MemoryOperationError>,
)
    requires
        requested(before, after, payload, runtime_active, now_millis, result),
    ensures
        result is Ok,
        result->Ok_0.0@ == payload,
        result->Ok_0.1@ == submit_answer(
            before,
            payload,
            SubmitEvent::Requested { runtime_active },
            now_millis,
        ),
        result->Ok_0.1@ is Accepted ==> after.jobs.len() == before.jobs.len() + 1
            && after.jobs.last().payload == payload,
        !(result->Ok_0.1@ is Accepted) ==> after.jobs == before.jobs,
{
}

} // verus!
