//! What holds of the bounded queue, whatever happens to it.

use vstd::prelude::*;
use vstd::set_lib::lemma_len_subset;
use crate::error::ErrorView;
use crate::memory::{
    ContextView, MaintenanceRequestView, MaintenanceResultView, MemoryErrorCode, StoreRequestView,
    StoreResultView,
};
use crate::time::Timestamp;
use crate::work::{
    closed_failure, queue_config_fault, queue_failure, terminal_state, MemoryJobState,
    MemoryWorkQueueConfig, OutcomeView, PayloadView, StatusView,
};
use crate::work_queue::{
    accepted_job, accepting_is_consistent, active_jobs_are_unsettled, after_status, after_submit,
    aggregate, attempt_end, attempt_start, busy_elsewhere, cancellations, cancelled_status,
    cancelled_upto, cancelling_is_consistent, count_active, count_in, dropping_oldest_is_consistent,
    fits, fresh_queue, maintenance_work_outcome, none_active, place, pruning_is_consistent,
    queued_store, rejection, retains, retry_delay, settled_sequence, since,
    status_change_is_consistent, store_work_outcome, submit_answer, terminated, wait_failure,
    with_deadline, JobView, QueueView, SubmitEvent, SubmitView,
};

verus! {

/// A terminal job stays as it is: no attempt of it starts or ends, and cancelling leaves it.
pub proof fn terminal_jobs_never_move(
    state: QueueView,
    job_id: Seq<char>,
    result: Result<OutcomeView, ErrorView>,
    n: nat,
    message: Seq<char>,
)
    requires
        state.consistent(),
        state.job(job_id) matches Some(job) && !job.active(),
        n <= state.jobs.len(),
    ensures
        attempt_start(state, job_id) is None,
        attempt_end(state, job_id, result) is None,
        cancelled_upto(state, n, message).job(job_id) == state.job(job_id),
{
    cancelling_is_consistent(state, n, message);
    let next = cancelled_upto(state, n, message);
    let at = place(state.jobs, job_id);
    assert(state.jobs[at].status.job_id == job_id);
    assert(next.jobs[at] == state.jobs[at]);
    assert(retains(next.jobs, job_id));
    let now_at = place(next.jobs, job_id);
    assert(next.jobs[now_at].status.job_id == job_id);
    assert(now_at == at);
}

/// Cutting the history drops whole jobs and changes none.
pub proof fn history_is_never_rewritten(state: QueueView, job_id: Seq<char>)
    requires
        state.consistent(),
    ensures
        state.pruned().job(job_id) matches Some(job) ==> state.job(job_id) == Some(job),
    decreases state.finished.len(),
{
    if state.finished.len() > state.config.terminal_history_capacity {
        let next = state.without_oldest();
        dropping_oldest_is_consistent(state);
        history_is_never_rewritten(next, job_id);
        if next.job(job_id) is Some {
            let dropped = place(state.jobs, state.finished[0]);
            let i = place(next.jobs, job_id);
            assert(next.jobs[i].status.job_id == job_id);
            let was = if i < dropped { i } else { i + 1 };
            assert(next.jobs[i] == state.jobs[was]);
            assert(retains(state.jobs, job_id));
            let at = place(state.jobs, job_id);
            assert(state.jobs[at].status.job_id == job_id);
            assert(at == was);
        }
    }
}

/// Every job that an attempt moves was active, and it takes at most the configured attempts.
pub proof fn attempts_are_bounded(
    state: QueueView,
    job_id: Seq<char>,
    result: Result<OutcomeView, ErrorView>,
)
    requires
        state.consistent(),
    ensures
        attempt_start(state, job_id) matches Some(status) ==> fits(state, status)
            && status.attempts <= state.config.max_attempts,
        attempt_end(state, job_id, result) matches Some(status) ==> fits(state, status) && (
        status.state is Retrying ==> status.attempts < state.config.max_attempts),
{
}

/// The queue has a single consumer: at most one job is running or to be retried, and while one is,
/// no attempt of another job starts.
pub proof fn one_job_is_under_way(state: QueueView, job: JobView, other: Seq<char>)
    requires
        state.consistent(),
    ensures
        count_in(state.jobs, MemoryJobState::Running) + count_in(
            state.jobs,
            MemoryJobState::Retrying,
        ) <= 1,
        state.jobs.contains(job) && job.under_way() && job.status.job_id != other ==> attempt_start(
            state,
            other,
        ) is None,
{
    under_way_count(state.jobs);
    if state.jobs.contains(job) {
        let i = choose|i: int| 0 <= i < state.jobs.len() && state.jobs[i] == job;
        assert(state.jobs[i].under_way() == job.under_way());
    }
}

proof fn under_way_count(jobs: Seq<JobView>)
    requires
        forall|i: int, j: int|
            0 <= i < j < jobs.len() ==> !((#[trigger] jobs[i]).under_way() && (
            #[trigger] jobs[j]).under_way()),
    ensures
        count_in(jobs, MemoryJobState::Running) + count_in(jobs, MemoryJobState::Retrying) <= 1,
        (forall|i: int| 0 <= i < jobs.len() ==> !(#[trigger] jobs[i]).under_way()) ==> count_in(
            jobs,
            MemoryJobState::Running,
        ) + count_in(jobs, MemoryJobState::Retrying) == 0,
    decreases jobs.len(),
{
    if jobs.len() > 0 {
        let head = jobs.drop_last();
        assert forall|i: int, j: int| 0 <= i < j < head.len() implies !((
        #[trigger] head[i]).under_way() && (#[trigger] head[j]).under_way()) by {
            assert(head[i] == jobs[i] && head[j] == jobs[j]);
        }
        under_way_count(head);
        assert forall|i: int| 0 <= i < head.len() && jobs.last().under_way() implies !(
        #[trigger] head[i]).under_way() by {
            assert(head[i] == jobs[i]);
            assert(jobs[jobs.len() - 1] == jobs.last());
        }
        assert((forall|i: int| 0 <= i < jobs.len() ==> !(#[trigger] jobs[i]).under_way()) ==> (
        forall|i: int| 0 <= i < head.len() ==> !(#[trigger] head[i]).under_way())) by {
            assert(forall|i: int| 0 <= i < head.len() ==> #[trigger] head[i] == jobs[i]);
        }
    }
}

/// No delay between attempts is longer than the maximum, and a later one is not shorter.
pub proof fn retry_delays_are_bounded(config: MemoryWorkQueueConfig, attempt: nat)
    requires
        queue_config_fault(config) is None,
    ensures
        retry_delay(config, attempt) <= config.retry_max_delay_millis,
        retry_delay(config, attempt) <= retry_delay(config, attempt + 1),
    decreases attempt,
{
    if attempt > 1 {
        retry_delays_are_bounded(config, (attempt - 1) as nat);
    }
}

/// Retained work is known in every state, closed queues included: submitted again it is answered
/// with its receipt, and other work under its identifier with a conflict. Neither changes the
/// queue.
pub proof fn retained_work_is_known(
    state: QueueView,
    job: JobView,
    again: PayloadView,
    event: SubmitEvent,
    now: nat,
)
    requires
        state.job(again.job_id()) == Some(job),
        event is Requested || event is Resumed,
    ensures
        ({
            let answer = submit_answer(state, again, event, now);
            &&& again == job.payload ==> answer == SubmitView::Existing(job.receipt())
            &&& again != job.payload ==> answer == (SubmitView::Refused {
                error: queue_failure(
                    MemoryErrorCode::Conflict,
                    "memory work job ID was reused with a different payload"@,
                    false,
                    again.job_id(),
                ),
                rejection: None,
            })
            &&& after_submit(state, again, answer, now) == state
        }),
{
}

/// Work that was accepted is known afterwards: submitted again it is answered with its receipt,
/// and other work under its identifier with a conflict. Neither changes the queue.
pub proof fn accepted_work_is_known(
    state: QueueView,
    payload: PayloadView,
    now: nat,
    again: PayloadView,
    runtime_active: bool,
    later: nat,
)
    requires
        state.inv(),
        submit_answer(state, payload, SubmitEvent::Resumed, now) is Accepted,
        again.job_id() == payload.job_id(),
    ensures
        ({
            let next = after_submit(
                state,
                payload,
                submit_answer(state, payload, SubmitEvent::Resumed, now),
                now,
            );
            let event = SubmitEvent::Requested { runtime_active };
            let answer = submit_answer(next, again, event, later);
            &&& next.inv()
            &&& again == payload ==> answer == SubmitView::Existing(
                accepted_job(state, payload, now).receipt(),
            )
            &&& again != payload ==> (answer matches SubmitView::Refused { error, rejection: None }
                && error.code == MemoryErrorCode::Conflict)
            &&& after_submit(next, again, answer, later) == next
        }),
{
    accepting_is_consistent(state, payload, now);
    let next = after_submit(
        state,
        payload,
        submit_answer(state, payload, SubmitEvent::Resumed, now),
        now,
    );
    let job = accepted_job(state, payload, now);
    let end = state.jobs.len() as int;
    assert(next.jobs[end] == job);
    assert(retains(next.jobs, payload.job_id()));
    let at = place(next.jobs, payload.job_id());
    assert(next.jobs[at].status.job_id == payload.job_id());
    assert(at == end);
}

/// Accepted work gets the next sequence, which no retained job has.
pub proof fn sequences_grow(state: QueueView, payload: PayloadView, now: nat)
    requires
        state.inv(),
        submit_answer(state, payload, SubmitEvent::Resumed, now) is Accepted,
    ensures
        accepted_job(state, payload, now).status.sequence == state.accepted + 1,
        forall|i: int|
            0 <= i < state.jobs.len() ==> (#[trigger] state.jobs[i]).status.sequence
                < accepted_job(state, payload, now).status.sequence,
{
}

/// A queue whose admission is closed accepts no work, whatever happens. New work is refused for
/// good and counted as rejected, and nothing else changes: admission stays closed and no worker is
/// started.
pub proof fn closed_queue_accepts_nothing(
    state: QueueView,
    payload: PayloadView,
    event: SubmitEvent,
    now: nat,
)
    requires
        !state.accepting,
    ensures
        !(submit_answer(state, payload, event, now) is Accepted),
        !(submit_answer(state, payload, event, now) is Wait),
        !retains(state.jobs, payload.job_id()) ==> ({
            let answer = submit_answer(state, payload, event, now);
            &&& event is Requested ==> answer == rejection(payload, closed_failure("start"@))
            &&& event is Resumed || event is Closed ==> answer == rejection(
                payload,
                closed_failure(payload.job_id()),
            )
            &&& after_submit(state, payload, answer, now) == (QueueView {
                rejected: state.rejected + 1,
                ..state
            })
        }),
{
}

/// A flush that has reached its target has seen every job up to it become terminal.
pub proof fn settled_jobs_are_terminal(state: QueueView, target: nat)
    requires
        state.consistent(),
        state.settled() >= target,
    ensures
        forall|i: int|
            0 <= i < state.jobs.len() && (#[trigger] state.jobs[i]).status.sequence <= target
                ==> !state.jobs[i].active(),
{
    active_jobs_are_unsettled(state);
}

proof fn settled_after_push(jobs: Seq<JobView>, job: JobView, accepted: nat)
    requires
        job.active(),
        job.status.sequence == accepted + 1,
    ensures
        settled_sequence(jobs.push(job), accepted + 1) == settled_sequence(jobs, accepted),
    decreases jobs.len(),
{
    if jobs.len() > 0 {
        assert(jobs.push(job)[0] == jobs[0]);
        assert(jobs.push(job).drop_first() =~= jobs.drop_first().push(job));
        settled_after_push(jobs.drop_first(), job, accepted);
    } else {
        assert(jobs.push(job)[0] == job);
    }
}

proof fn settled_after_update(jobs: Seq<JobView>, at: int, job: JobView, accepted: nat)
    requires
        0 <= at < jobs.len(),
        jobs[at].active(),
        job.status.sequence == jobs[at].status.sequence,
        forall|i: int|
            0 <= i < jobs.len() ==> 1 <= (#[trigger] jobs[i]).status.sequence <= accepted,
        forall|i: int, j: int|
            0 <= i < j < jobs.len() ==> (#[trigger] jobs[i]).status.sequence < (
            #[trigger] jobs[j]).status.sequence,
    ensures
        settled_sequence(jobs, accepted) <= settled_sequence(jobs.update(at, job), accepted),
        job.active() ==> settled_sequence(jobs, accepted) == settled_sequence(
            jobs.update(at, job),
            accepted,
        ),
    decreases jobs.len(),
{
    let next = jobs.update(at, job);
    let rest = jobs.drop_first();
    assert forall|i: int, j: int| 0 <= i < j < rest.len() implies (#[trigger] rest[i]).status.sequence
        < (#[trigger] rest[j]).status.sequence by {
        assert(rest[i] == jobs[i + 1] && rest[j] == jobs[j + 1]);
    }
    if at > 0 {
        assert(next[0] == jobs[0]);
        assert(next.drop_first() =~= rest.update(at - 1, job));
        if !jobs[0].active() {
            settled_after_update(rest, at - 1, job, accepted);
        }
    } else {
        assert(next.drop_first() =~= rest);
        settled_lower_bound(rest, jobs[0].status.sequence, accepted);
    }
}

proof fn settled_lower_bound(jobs: Seq<JobView>, bound: nat, accepted: nat)
    requires
        bound <= accepted,
        forall|i: int| 0 <= i < jobs.len() ==> (#[trigger] jobs[i]).status.sequence > bound,
    ensures
        settled_sequence(jobs, accepted) >= bound,
    decreases jobs.len(),
{
    if jobs.len() > 0 {
        assert(jobs[0].status.sequence > bound);
        assert forall|i: int| 0 <= i < jobs.drop_first().len() implies (
        #[trigger] jobs.drop_first()[i]).status.sequence > bound by {
            assert(jobs.drop_first()[i] == jobs[i + 1]);
        }
        settled_lower_bound(jobs.drop_first(), bound, accepted);
    }
}

proof fn settled_after_remove(jobs: Seq<JobView>, at: int, accepted: nat)
    requires
        0 <= at < jobs.len(),
        !jobs[at].active(),
    ensures
        settled_sequence(jobs.remove(at), accepted) == settled_sequence(jobs, accepted),
    decreases jobs.len(),
{
    let next = jobs.remove(at);
    if at > 0 {
        assert(next[0] == jobs[0]);
        assert(next.drop_first() =~= jobs.drop_first().remove(at - 1));
        settled_after_remove(jobs.drop_first(), at - 1, accepted);
    } else {
        assert(next =~= jobs.drop_first());
    }
}

/// Cutting the history leaves the settled sequence.
pub proof fn pruning_keeps_settled(state: QueueView)
    requires
        state.consistent(),
    ensures
        state.pruned().settled() == state.settled(),
    decreases state.finished.len(),
{
    if state.finished.len() > state.config.terminal_history_capacity {
        dropping_oldest_is_consistent(state);
        settled_after_remove(state.jobs, place(state.jobs, state.finished[0]), state.accepted);
        pruning_keeps_settled(state.without_oldest());
    }
}

/// The settled sequence never falls: not when work is accepted, not when a job moves, not when
/// jobs are cancelled.
pub proof fn settled_never_falls(
    state: QueueView,
    payload: PayloadView,
    now: nat,
    status: StatusView,
    message: Seq<char>,
)
    requires
        state.inv(),
    ensures
        submit_answer(state, payload, SubmitEvent::Resumed, now) is Accepted ==> state.settled()
            <= after_submit(
            state,
            payload,
            submit_answer(state, payload, SubmitEvent::Resumed, now),
            now,
        ).settled(),
        fits(state, status) ==> state.settled() <= after_status(state, status).settled(),
        state.settled() <= cancelled_upto(state, state.jobs.len(), message).pruned().settled(),
{
    settled_after_push(state.jobs, accepted_job(state, payload, now), state.accepted);
    if fits(state, status) {
        let at = place(state.jobs, status.job_id);
        settled_after_update(
            state.jobs,
            at,
            state.jobs[at].with_status(status),
            state.accepted,
        );
        status_change_is_consistent(state, status);
        if terminal_state(status.state) {
            pruning_keeps_settled(terminated(state, status));
        }
    }
    let cancelled = cancelled_upto(state, state.jobs.len(), message);
    cancelling_is_consistent(state, state.jobs.len(), message);
    none_active(cancelled.jobs);
    pruning_is_consistent(cancelled);
    active_jobs_are_unsettled(cancelled.pruned());
    active_jobs_are_unsettled(state);
}

/// No more jobs are pending than there are slots.
pub proof fn pending_work_is_bounded(state: QueueView)
    requires
        state.consistent(),
    ensures
        aggregate(state).queued <= state.config.capacity,
        aggregate(state).queued == count_in(state.jobs, MemoryJobState::Queued),
{
}

/// Work is accepted exactly where a slot is free, as long as admission is open, a worker can run,
/// the job is new and sequences are left.
pub proof fn free_slot_admits(state: QueueView, payload: PayloadView, now: nat)
    requires
        state.inv(),
        state.accepting,
        !retains(state.jobs, payload.job_id()),
        state.accepted < u64::MAX,
    ensures
        submit_answer(
            state,
            payload,
            SubmitEvent::Requested { runtime_active: true },
            now,
        ) is Accepted <==> count_in(state.jobs, MemoryJobState::Queued) < state.config.capacity,
{
}

/// The identifiers of the terminal jobs among the first `n`.
spec fn terminal_ids(jobs: Seq<JobView>, n: nat) -> Set<Seq<char>>
    decreases n,
{
    if n == 0 {
        Set::empty()
    } else {
        let before = terminal_ids(jobs, (n - 1) as nat);
        if jobs[n - 1].active() {
            before
        } else {
            before.insert(jobs[n - 1].status.job_id)
        }
    }
}

proof fn terminal_ids_are_counted(state: QueueView, n: nat)
    requires
        state.consistent(),
        n <= state.jobs.len(),
    ensures
        terminal_ids(state.jobs, n).finite(),
        terminal_ids(state.jobs, n).len() + count_active(state.jobs.take(n as int)) == n,
        terminal_ids(state.jobs, n).subset_of(state.finished.to_set()),
        forall|id: Seq<char>| #[trigger]
            terminal_ids(state.jobs, n).contains(id) ==> exists|i: int|
                0 <= i < n && (#[trigger] state.jobs[i]).status.job_id == id,
    decreases n,
{
    if n > 0 {
        terminal_ids_are_counted(state, (n - 1) as nat);
        let before = terminal_ids(state.jobs, (n - 1) as nat);
        let job = state.jobs[n - 1];
        assert(state.jobs.take(n as int).drop_last() =~= state.jobs.take(n - 1));
        assert(state.jobs.take(n as int).last() == job);
        if !job.active() {
            if before.contains(job.status.job_id) {
                let i = choose|i: int|
                    0 <= i < n - 1 && (#[trigger] state.jobs[i]).status.job_id == job.status.job_id;
                assert(state.jobs[i].status.job_id != state.jobs[n - 1].status.job_id);
            }
            assert(state.finished.contains(state.jobs[n - 1].status.job_id));
        }
        assert forall|id: Seq<char>| #[trigger]
            terminal_ids(state.jobs, n).contains(id) implies exists|i: int|
            0 <= i < n && (#[trigger] state.jobs[i]).status.job_id == id by {
            if id == job.status.job_id {
                assert(state.jobs[n - 1].status.job_id == id);
            } else {
                assert(before.contains(id));
                let i = choose|i: int|
                    0 <= i < n - 1 && (#[trigger] state.jobs[i]).status.job_id == id;
                assert(state.jobs[i].status.job_id == id);
            }
        }
    } else {
        assert(state.jobs.take(0) =~= Seq::empty());
    }
}

/// No more terminal jobs are retained than the history holds, while every accepted job stays
/// counted.
pub proof fn history_is_bounded(state: QueueView)
    requires
        state.inv(),
    ensures
        state.jobs.len() - count_active(state.jobs) <= state.config.terminal_history_capacity,
        state.accepted == state.succeeded + state.failed + state.cancelled + count_active(
            state.jobs,
        ),
{
    terminal_ids_are_counted(state, state.jobs.len());
    assert(state.jobs.take(state.jobs.len() as int) =~= state.jobs);
    state.finished.unique_seq_to_set();
    lemma_len_subset(terminal_ids(state.jobs, state.jobs.len()), state.finished.to_set());
}

/// A store that brings a caller key is queued as it is. One without gets the key of its job, and
/// nothing else changes: different jobs get different keys.
pub proof fn queued_stores_keep_their_key(request: StoreRequestView, other: StoreRequestView)
    ensures
        request.idempotency_key is Some ==> queued_store(request) == request,
        request.idempotency_key is None ==> queued_store(request) == (StoreRequestView {
            idempotency_key: Some("memory-work:"@ + request.context.operation_id),
            ..request
        }),
        queued_store(request).context == request.context,
        queued_store(request).namespace == request.namespace,
        queued_store(request).content == request.content,
        queued_store(request).event_timestamp == request.event_timestamp,
        queued_store(request).provenance == request.provenance,
        queued_store(request).metadata == request.metadata,
        request.idempotency_key is None && other.idempotency_key is None
            && request.context.operation_id != other.context.operation_id ==> queued_store(
            request,
        ).idempotency_key != queued_store(other).idempotency_key,
{
    let prefix = "memory-work:"@;
    let n = prefix.len() as int;
    let a = prefix + request.context.operation_id;
    let b = prefix + other.context.operation_id;
    assert(a.skip(n) =~= request.context.operation_id);
    assert(b.skip(n) =~= other.context.operation_id);
}

/// A new queue is open, has no worker and has seen nothing.
pub proof fn new_queue_is_open(config: MemoryWorkQueueConfig)
    ensures
        ({
            let state = fresh_queue(config);
            &&& state.accepting && !state.started
            &&& state.config == config
            &&& state.accepted == 0 && state.rejected == 0
            &&& state.succeeded == 0 && state.failed == 0 && state.cancelled == 0
            &&& state.jobs.len() == 0 && state.finished.len() == 0
            &&& queue_config_fault(config) is None ==> state.inv()
        }),
{
}

/// New work on an open queue: with a free slot it becomes the last job, waiting, with the next
/// sequence and no attempts, and the worker is started where none runs. Without one it is refused
/// so that it may be tried again, or waits, as the policy says. Only waiting jobs take slots.
pub proof fn admission_follows_the_policy(state: QueueView, payload: PayloadView, now: nat)
    requires
        state.inv(),
        state.accepting,
        !retains(state.jobs, payload.job_id()),
        state.accepted < u64::MAX,
    ensures
        ({
            let answer = submit_answer(
                state,
                payload,
                SubmitEvent::Requested { runtime_active: true },
                now,
            );
            let next = after_submit(state, payload, answer, now);
            if count_in(state.jobs, MemoryJobState::Queued) < state.config.capacity {
                &&& answer matches SubmitView::Accepted { start, receipt, transition } && start
                    == !state.started && receipt.job_id == payload.job_id() && receipt.sequence
                    == state.accepted + 1 && receipt.state is Queued && transition.status
                    == next.jobs.last().status && transition.elapsed_millis == 0
                &&& next.jobs.len() == state.jobs.len() + 1
                &&& next.jobs.drop_last() == state.jobs
                &&& next.jobs.last().payload == payload
                &&& next.jobs.last().admitted_millis == now
                &&& next.jobs.last().status == (StatusView {
                    job_id: payload.job_id(),
                    sequence: state.accepted + 1,
                    kind: payload.kind(),
                    state: MemoryJobState::Queued,
                    attempts: 0,
                    error: None,
                    outcome: None,
                })
                &&& next.accepted == state.accepted + 1
                &&& next.started
                &&& next.accepting
                &&& next.rejected == state.rejected
                &&& next.finished == state.finished
            } else if state.config.backpressure is Reject {
                &&& answer matches SubmitView::Refused { error, rejection: Some(seen) }
                    && error.code is ProviderUnavailable && error.retryable && error.operation_id
                    == Some(payload.job_id()) && seen.status.state is Rejected
                    && seen.status.sequence == 0 && seen.status.job_id == payload.job_id()
                    && seen.status.error == Some(error)
                &&& next == (QueueView { rejected: state.rejected + 1, ..state })
            } else {
                &&& answer is Wait
                &&& next == state
            }
        }),
{
    assert(state.jobs.push(accepted_job(state, payload, now)).drop_last() =~= state.jobs);
}

/// Work that waited is treated as new work is, once a slot may be free.
pub proof fn waiting_work_is_tried_again(state: QueueView, payload: PayloadView, now: nat)
    requires
        state.accepting,
    ensures
        submit_answer(state, payload, SubmitEvent::Resumed, now) == submit_answer(
            state,
            payload,
            SubmitEvent::Requested { runtime_active: true },
            now,
        ),
{
}

/// New work is refused and counted where no worker can be started, where it waited too long and
/// where the worker takes no more. Only in the second case it may be tried again.
pub proof fn refusals_are_counted(state: QueueView, payload: PayloadView, now: nat)
    requires
        state.accepting,
        !state.started,
        !retains(state.jobs, payload.job_id()),
    ensures
        ({
            let idle = submit_answer(
                state,
                payload,
                SubmitEvent::Requested { runtime_active: false },
                now,
            );
            let late = submit_answer(state, payload, SubmitEvent::TimedOut, now);
            let gone = submit_answer(state, payload, SubmitEvent::Closed, now);
            &&& idle matches SubmitView::Refused { error, rejection: Some(_) } && error.code
                is InvalidRequest && !error.retryable
            &&& late matches SubmitView::Refused { error, rejection: Some(_) } && error.code
                is DeadlineExceeded && error.retryable && error.operation_id == Some(
                payload.job_id(),
            )
            &&& gone matches SubmitView::Refused { error, rejection: Some(_) } && error.code
                is Cancelled && !error.retryable && error.operation_id == Some(payload.job_id())
            &&& after_submit(state, payload, idle, now) == (QueueView {
                rejected: state.rejected + 1,
                ..state
            })
            &&& after_submit(state, payload, late, now) == (QueueView {
                rejected: state.rejected + 1,
                ..state
            })
            &&& after_submit(state, payload, gone, now) == (QueueView {
                rejected: state.rejected + 1,
                ..state
            })
        }),
{
}

/// An attempt starts exactly for a retained job that waits or is to be retried, has attempts left
/// and has the consumer to itself. It is counted, and nothing else of the job changes.
pub proof fn attempts_start_when_due(state: QueueView, job: JobView)
    requires
        state.job(job.status.job_id) == Some(job),
    ensures
        ({
            let due = (job.status.state is Queued || job.status.state is Retrying)
                && job.status.attempts < state.config.max_attempts && forall|i: int|
                0 <= i < state.jobs.len() && (#[trigger] state.jobs[i]).status.job_id
                    != job.status.job_id ==> !(state.jobs[i].status.state is Running)
                    && !(state.jobs[i].status.state is Retrying);
            &&& attempt_start(state, job.status.job_id) is Some <==> due
            &&& attempt_start(state, job.status.job_id) matches Some(status) ==> status == (
            StatusView {
                job_id: job.status.job_id,
                sequence: job.status.sequence,
                kind: job.status.kind,
                state: MemoryJobState::Running,
                attempts: job.status.attempts + 1,
                error: None,
                outcome: None,
            })
        }),
{
    if busy_elsewhere(state.jobs, job.status.job_id) {
        let i = choose|i: int|
            0 <= i < state.jobs.len() && (#[trigger] state.jobs[i]).under_way()
                && state.jobs[i].status.job_id != job.status.job_id;
        assert(state.jobs[i].under_way());
    } else {
        assert forall|i: int|
            0 <= i < state.jobs.len() && (#[trigger] state.jobs[i]).status.job_id
                != job.status.job_id implies !(state.jobs[i].status.state is Running)
            && !(state.jobs[i].status.state is Retrying) by {
            assert(!state.jobs[i].under_way());
        }
    }
}

/// An attempt ends for a running job only: in success with its outcome, in a retry where the failure
/// allows one and attempts are left, and else in failure. The failure is kept, and the job stays
/// the same in all else.
pub proof fn attempts_end_in_three_ways(
    state: QueueView,
    job: JobView,
    outcome: OutcomeView,
    error: ErrorView,
)
    requires
        state.job(job.status.job_id) == Some(job),
    ensures
        !(job.status.state is Running) ==> attempt_end(state, job.status.job_id, Ok(outcome)) is None
            && attempt_end(state, job.status.job_id, Err(error)) is None,
        job.status.state is Running ==> {
            &&& attempt_end(state, job.status.job_id, Ok(outcome)) == Some(
                StatusView {
                    job_id: job.status.job_id,
                    sequence: job.status.sequence,
                    kind: job.status.kind,
                    state: MemoryJobState::Succeeded,
                    attempts: job.status.attempts,
                    error: None,
                    outcome: Some(outcome),
                },
            )
            &&& attempt_end(state, job.status.job_id, Err(error)) == Some(
                StatusView {
                    job_id: job.status.job_id,
                    sequence: job.status.sequence,
                    kind: job.status.kind,
                    state: if error.retryable && job.status.attempts < state.config.max_attempts {
                        MemoryJobState::Retrying
                    } else {
                        MemoryJobState::Failed
                    },
                    attempts: job.status.attempts,
                    error: Some(error),
                    outcome: None,
                },
            )
        },
{
}

/// The delay after the first attempt is the initial one, and each further one twice the one before
/// it, up to the maximum.
pub proof fn retry_delays_double(config: MemoryWorkQueueConfig, attempt: nat)
    requires
        attempt >= 1,
    ensures
        retry_delay(config, 1) == config.retry_initial_delay_millis,
        retry_delay(config, attempt + 1) == if 2 * retry_delay(config, attempt)
            < config.retry_max_delay_millis {
            2 * retry_delay(config, attempt)
        } else {
            config.retry_max_delay_millis as nat
        },
{
}

/// When a job takes a status, it is the only one that changes, and a job that becomes terminal is
/// counted once, by how it ended, and joins the end of the history.
pub proof fn one_job_moves(state: QueueView, status: StatusView, i: int)
    requires
        state.consistent(),
        fits(state, status),
        0 <= i < state.jobs.len(),
    ensures
        ({
            let next = if terminal_state(status.state) {
                terminated(state, status)
            } else {
                after_status(state, status)
            };
            &&& next.jobs.len() == state.jobs.len()
            &&& state.jobs[i].status.job_id == status.job_id ==> next.jobs[i] == (JobView {
                status,
                ..state.jobs[i]
            })
            &&& state.jobs[i].status.job_id != status.job_id ==> next.jobs[i] == state.jobs[i]
            &&& next.succeeded - state.succeeded == if status.state is Succeeded { 1int } else { 0 }
            &&& next.failed - state.failed == if status.state is Failed { 1int } else { 0 }
            &&& next.cancelled - state.cancelled == if status.state is Cancelled { 1int } else { 0 }
            &&& next.accepted == state.accepted && next.rejected == state.rejected
            &&& next.accepting == state.accepting && next.config == state.config
            &&& next.finished == if terminal_state(status.state) {
                state.finished.push(status.job_id)
            } else {
                state.finished
            }
            &&& terminal_state(status.state) ==> after_status(state, status) == terminated(
                state,
                status,
            ).pruned()
        }),
{
    let at = place(state.jobs, status.job_id);
    assert(state.jobs[at].status.job_id == status.job_id);
    assert(state.jobs[i].status.job_id == status.job_id ==> i == at);
}

/// The history is cut from its oldest end: the latest terminal jobs stay, as many as it holds, and
/// jobs that are not terminal stay in any case. Nothing else changes.
pub proof fn oldest_history_leaves_first(state: QueueView, job_id: Seq<char>)
    requires
        state.consistent(),
    ensures
        ({
            let next = state.pruned();
            let n = state.finished.len();
            let capacity = state.config.terminal_history_capacity as nat;
            &&& next.finished == if n <= capacity {
                state.finished
            } else {
                state.finished.subrange(n - capacity, n as int)
            }
            &&& (state.job(job_id) matches Some(job) && job.active()) ==> next.job(job_id)
                == state.job(job_id)
            &&& next.finished.contains(job_id) ==> next.job(job_id) == state.job(job_id)
            &&& state.finished.contains(job_id) && !next.finished.contains(job_id) ==> next.job(
                job_id,
            ) is None
            &&& next == (QueueView { jobs: next.jobs, finished: next.finished, ..state })
        }),
    decreases state.finished.len(),
{
    let n = state.finished.len();
    let capacity = state.config.terminal_history_capacity as nat;
    if n > capacity {
        let next = state.without_oldest();
        dropping_oldest_is_consistent(state);
        let oldest = state.finished[0];
        let gone = place(state.jobs, oldest);
        assert(retains(state.jobs, oldest));
        assert(state.jobs[gone].status.job_id == oldest);
        oldest_history_leaves_first(next, job_id);
        let last = state.pruned();
        if next.finished.len() > capacity {
            assert(next.finished.subrange(next.finished.len() - capacity, next.finished.len() as int)
                =~= state.finished.subrange(n - capacity, n as int));
        } else {
            assert(next.finished =~= state.finished.subrange(n - capacity, n as int));
        }
        assert forall|k: int| 0 <= k < last.finished.len() implies next.finished.contains(
            #[trigger] last.finished[k],
        ) && last.finished[k] != oldest by {
            let from = n - last.finished.len() + k;
            assert(last.finished[k] == state.finished[from]);
            assert(next.finished[from - 1] == state.finished[from]);
            assert(state.finished[from] != state.finished[0]);
        }
        if job_id != oldest {
            other_jobs_stay(state, job_id);
            if state.finished.contains(job_id) {
                let k = choose|k: int| 0 <= k < n && state.finished[k] == job_id;
                assert(next.finished[k - 1] == job_id);
            }
        } else {
            assert(state.finished.contains(oldest));
            assert(state.job(oldest) == Some(state.jobs[gone]));
            assert(!state.jobs[gone].active());
            assert(!retains(next.jobs, oldest)) by {
                if retains(next.jobs, oldest) {
                    let i = place(next.jobs, oldest);
                    let was = if i < gone { i } else { i + 1 };
                    assert(next.jobs[i] == state.jobs[was]);
                    assert(state.jobs[was].status.job_id == oldest);
                }
            }
            history_is_never_rewritten(next, oldest);
        }
    }
}

proof fn other_jobs_stay(state: QueueView, job_id: Seq<char>)
    requires
        state.consistent(),
        state.finished.len() > 0,
        job_id != state.finished[0],
    ensures
        state.without_oldest().job(job_id) == state.job(job_id),
{
    let next = state.without_oldest();
    let oldest = state.finished[0];
    let gone = place(state.jobs, oldest);
    assert(retains(state.jobs, oldest));
    assert(state.jobs[gone].status.job_id == oldest);
    if retains(state.jobs, job_id) {
        let at = place(state.jobs, job_id);
        assert(state.jobs[at].status.job_id == job_id);
        let now_at = if at < gone { at } else { at - 1 };
        assert(next.jobs[now_at] == state.jobs[at]);
        assert(retains(next.jobs, job_id));
        let place_now = place(next.jobs, job_id);
        assert(next.jobs[place_now].status.job_id == job_id);
        let was = if place_now < gone { place_now } else { place_now + 1 };
        assert(next.jobs[place_now] == state.jobs[was]);
        assert(was == at);
    }
    if retains(next.jobs, job_id) {
        let i = place(next.jobs, job_id);
        let was = if i < gone { i } else { i + 1 };
        assert(next.jobs[i] == state.jobs[was]);
        assert(state.jobs[was].status.job_id == job_id);
    }
}

/// Cancelling ends every job that is not terminal, counts each, and tells of each once, in the order
/// of acceptance: with the given message, not to be retried.
pub proof fn cancelling_ends_all_work(
    state: QueueView,
    n: nat,
    message: Seq<char>,
    now: nat,
    i: int,
)
    requires
        state.consistent(),
        n <= state.jobs.len(),
        0 <= i < n,
        state.jobs[i].active(),
    ensures
        ({
            let next = cancelled_upto(state, n, message);
            let told = cancellations(state.jobs, n, message, now);
            let status = next.jobs[i].status;
            &&& status.state is Cancelled
            &&& status.job_id == state.jobs[i].status.job_id
            &&& status.sequence == state.jobs[i].status.sequence
            &&& status.attempts == state.jobs[i].status.attempts
            &&& status.error matches Some(error) && error.code is Cancelled && !error.retryable
                && error.message == message && error.operation_id == Some(status.job_id)
            &&& next.cancelled - state.cancelled == count_active(state.jobs.take(n as int))
            &&& next.succeeded == state.succeeded && next.failed == state.failed
            &&& told.len() == count_active(state.jobs.take(n as int))
            &&& exists|k: int|
                0 <= k < told.len() && (#[trigger] told[k]).status.job_id == status.job_id
                    && told[k].status.state is Cancelled && told[k].status.error == status.error
                    && told[k].elapsed_millis == since(state.jobs[i].admitted_millis, now)
        }),
    decreases n,
{
    let before = cancelled_upto(state, (n - 1) as nat, message);
    let job = state.jobs[n - 1];
    cancelling_is_consistent(state, (n - 1) as nat, message);
    cancelling_counts(state, n, message, now);
    assert(before.jobs[n - 1] == job);
    if job.active() {
        let status = cancelled_status(job.status, message);
        assert(retains(before.jobs, status.job_id));
        let at = place(before.jobs, status.job_id);
        assert(before.jobs[at].status.job_id == status.job_id);
        assert(at == n - 1);
    }
    let told = cancellations(state.jobs, n, message, now);
    if i == n - 1 {
        assert(told[told.len() - 1].status.job_id == job.status.job_id);
    } else {
        cancelling_ends_all_work(state, (n - 1) as nat, message, now, i);
        let earlier_told = cancellations(state.jobs, (n - 1) as nat, message, now);
        let status = before.jobs[i].status;
        let k = choose|k: int|
            0 <= k < earlier_told.len() && (#[trigger] earlier_told[k]).status.job_id
                == status.job_id && earlier_told[k].status.state is Cancelled
                && earlier_told[k].status.error == status.error && earlier_told[k].elapsed_millis
                == since(state.jobs[i].admitted_millis, now);
        assert(told[k] == earlier_told[k]);
        assert(cancelled_upto(state, n, message).jobs[i] == before.jobs[i]);
    }
}

proof fn cancelling_counts(state: QueueView, n: nat, message: Seq<char>, now: nat)
    requires
        state.consistent(),
        n <= state.jobs.len(),
    ensures
        cancelled_upto(state, n, message).cancelled - state.cancelled == count_active(
            state.jobs.take(n as int),
        ),
        cancelled_upto(state, n, message).succeeded == state.succeeded,
        cancelled_upto(state, n, message).failed == state.failed,
        cancellations(state.jobs, n, message, now).len() == count_active(state.jobs.take(n as int)),
    decreases n,
{
    if n > 0 {
        cancelling_counts(state, (n - 1) as nat, message, now);
        assert(state.jobs.take(n as int).drop_last() =~= state.jobs.take(n - 1));
        assert(state.jobs.take(n as int).last() == state.jobs[n - 1]);
    } else {
        assert(state.jobs.take(0) =~= Seq::empty());
    }
}

/// The settled sequence is the highest contiguous terminal one: the job right behind it, where there
/// is one, is active, and without active jobs it is the last accepted one.
pub proof fn settled_is_the_highest(state: QueueView)
    requires
        state.consistent(),
    ensures
        (forall|i: int| 0 <= i < state.jobs.len() ==> !(#[trigger] state.jobs[i]).active())
            ==> state.settled() == state.accepted,
        (exists|i: int| 0 <= i < state.jobs.len() && (#[trigger] state.jobs[i]).active())
            ==> exists|i: int|
            0 <= i < state.jobs.len() && (#[trigger] state.jobs[i]).active()
                && state.jobs[i].status.sequence == state.settled() + 1,
{
    settled_from(state.jobs, state.accepted);
}

proof fn settled_from(jobs: Seq<JobView>, accepted: nat)
    requires
        forall|i: int| 0 <= i < jobs.len() ==> 1 <= (#[trigger] jobs[i]).status.sequence,
    ensures
        (forall|i: int| 0 <= i < jobs.len() ==> !(#[trigger] jobs[i]).active())
            ==> settled_sequence(jobs, accepted) == accepted,
        (exists|i: int| 0 <= i < jobs.len() && (#[trigger] jobs[i]).active()) ==> exists|i: int|
            0 <= i < jobs.len() && (#[trigger] jobs[i]).active() && jobs[i].status.sequence
                == settled_sequence(jobs, accepted) + 1,
    decreases jobs.len(),
{
    if jobs.len() > 0 && !jobs[0].active() {
        let rest = jobs.drop_first();
        assert forall|i: int| 0 <= i < rest.len() implies 1 <= (#[trigger] rest[i]).status.sequence by {
            assert(rest[i] == jobs[i + 1]);
        }
        settled_from(rest, accepted);
        if exists|i: int| 0 <= i < jobs.len() && (#[trigger] jobs[i]).active() {
            let i = choose|i: int| 0 <= i < jobs.len() && (#[trigger] jobs[i]).active();
            assert(rest[i - 1] == jobs[i]);
            let k = choose|k: int|
                0 <= k < rest.len() && (#[trigger] rest[k]).active() && rest[k].status.sequence
                    == settled_sequence(rest, accepted) + 1;
            assert(jobs[k + 1] == rest[k]);
        } else {
            assert forall|i: int| 0 <= i < rest.len() implies !(#[trigger] rest[i]).active() by {
                assert(rest[i] == jobs[i + 1]);
            }
        }
    } else if jobs.len() > 0 {
        assert(jobs[0].active());
    }
}

/// Jobs are counted by their state, each once.
pub proof fn jobs_are_counted_by_state(
    jobs: Seq<JobView>,
    job: JobView,
    counted: MemoryJobState,
)
    ensures
        count_in(Seq::empty(), counted) == 0,
        count_in(jobs.push(job), counted) == count_in(jobs, counted) + if job.status.state
            == counted { 1nat } else { 0 },
        count_active(Seq::empty()) == 0,
        count_active(jobs.push(job)) == count_active(jobs) + if job.status.state is Queued
            || job.status.state is Running || job.status.state is Retrying { 1nat } else { 0 },
{
    assert(jobs.push(job).drop_last() =~= jobs);
    assert(jobs.push(job).last() == job);
}

/// A snapshot tells the counts of the queue, the jobs in each state, and how far it has come.
pub proof fn snapshots_tell_the_counts(state: QueueView)
    requires
        state.inv(),
        state.jobs.len() <= usize::MAX,
    ensures
        ({
            let told = aggregate(state);
            &&& told.accepting == state.accepting
            &&& told.capacity == state.config.capacity
            &&& told.queued == count_in(state.jobs, MemoryJobState::Queued)
            &&& told.running == count_in(state.jobs, MemoryJobState::Running)
            &&& told.retrying == count_in(state.jobs, MemoryJobState::Retrying)
            &&& told.accepted_total == state.accepted
            &&& told.rejected_total == state.rejected
            &&& told.succeeded_total == state.succeeded
            &&& told.failed_total == state.failed
            &&& told.cancelled_total == state.cancelled
            &&& told.last_accepted_sequence == state.accepted
            &&& told.last_terminal_sequence == state.settled()
            &&& told.retained_terminal_jobs == state.jobs.len() - count_active(state.jobs)
        }),
{
    counts_are_bounded(state.jobs, MemoryJobState::Queued);
    counts_are_bounded(state.jobs, MemoryJobState::Running);
    counts_are_bounded(state.jobs, MemoryJobState::Retrying);
    active_jobs_are_unsettled(state);
}

proof fn counts_are_bounded(jobs: Seq<JobView>, counted: MemoryJobState)
    ensures
        count_in(jobs, counted) <= jobs.len(),
        count_active(jobs) <= jobs.len(),
    decreases jobs.len(),
{
    if jobs.len() > 0 {
        counts_are_bounded(jobs.drop_last(), counted);
    }
}

/// An attempt gets a deadline of its own, and nothing else of the work changes.
pub proof fn fresh_deadline_changes_nothing_else(
    store: StoreRequestView,
    maintenance: MaintenanceRequestView,
    deadline: Timestamp,
)
    ensures
        with_deadline(PayloadView::Store(store), deadline) == PayloadView::Store(
            StoreRequestView {
                context: ContextView {
                    operation_id: store.context.operation_id,
                    deadline: Some(deadline),
                },
                ..store
            },
        ),
        with_deadline(PayloadView::Maintenance(maintenance), deadline) == PayloadView::Maintenance(
            MaintenanceRequestView {
                context: ContextView {
                    operation_id: maintenance.context.operation_id,
                    deadline: Some(deadline),
                },
                ..maintenance
            },
        ),
{
}

/// Completed work tells the records that it made or found: a store its one record and whether it is
/// new, maintenance its records in their order and how many failures did not stop it.
pub proof fn outcomes_name_their_records(
    stored: StoreResultView,
    derived: MaintenanceResultView,
    i: int,
)
    requires
        0 <= i < derived.records.len(),
    ensures
        store_work_outcome(stored).memory_ids == seq![stored.record.id],
        store_work_outcome(stored).disposition == Some(stored.disposition),
        store_work_outcome(stored).partial_error_count == 0,
        maintenance_work_outcome(derived).memory_ids.len() == derived.records.len(),
        maintenance_work_outcome(derived).memory_ids[i] == derived.records[i].id,
        maintenance_work_outcome(derived).disposition is None,
        maintenance_work_outcome(derived).partial_error_count == derived.partial_errors.len(),
{
}

/// Waiting too long for accepted work is a failure that may be tried again. Time since an instant
/// does not run backwards.
pub proof fn waiting_may_be_repeated(operation: Seq<char>, start: nat, now: nat)
    ensures
        wait_failure(operation).code is DeadlineExceeded,
        wait_failure(operation).retryable,
        wait_failure(operation).operation_id == Some(operation),
        since(start, start + now) == now,
        now <= start ==> since(start, now) == 0,
{
}

/// A receipt shows a job as it stands, and a transition the status that it took and the time since
/// its admission.
pub proof fn receipts_show_the_job(job: JobView, status: StatusView, now: nat)
    ensures
        job.receipt().job_id == job.status.job_id,
        job.receipt().sequence == job.status.sequence,
        job.receipt().state == job.status.state,
        job.transition(now).status == job.status,
        job.transition(now).elapsed_millis == if now > job.admitted_millis {
            now - job.admitted_millis
        } else {
            0
        },
        job.with_status(status).status == status,
        job.with_status(status).payload == job.payload,
        job.with_status(status).admitted_millis == job.admitted_millis,
        job.active() <==> job.status.state is Queued || job.status.state is Running
            || job.status.state is Retrying,
{
}

/// A job is retained under its identifier: it is found exactly where one of the jobs has it.
pub proof fn jobs_are_found_by_identifier(state: QueueView, i: int, job_id: Seq<char>)
    requires
        state.consistent(),
        0 <= i < state.jobs.len(),
    ensures
        state.job(state.jobs[i].status.job_id) == Some(state.jobs[i]),
        state.job(job_id) is None <==> forall|k: int|
            0 <= k < state.jobs.len() ==> (#[trigger] state.jobs[k]).status.job_id != job_id,
{
    let own = state.jobs[i].status.job_id;
    assert(retains(state.jobs, own));
    let at = place(state.jobs, own);
    assert(state.jobs[at].status.job_id == own);
    assert(at == i);
}

/// Every transition that is told of cancelled work is that of a job that was active: it keeps the
/// job's sequence, kind and attempts, says why it ended, and names no outcome.
pub proof fn cancellations_name_active_work(
    jobs: Seq<JobView>,
    n: nat,
    message: Seq<char>,
    now: nat,
    k: int,
)
    requires
        n <= jobs.len(),
        0 <= k < cancellations(jobs, n, message, now).len(),
    ensures
        ({
            let told = cancellations(jobs, n, message, now)[k];
            &&& told.status.state is Cancelled
            &&& told.status.outcome is None
            &&& told.status.error matches Some(error) && error.code is Cancelled && error.message
                == message && !error.retryable
            &&& exists|i: int|
                0 <= i < n && (#[trigger] jobs[i]).active() && told.status.job_id
                    == jobs[i].status.job_id && told.status.sequence == jobs[i].status.sequence
                    && told.status.kind == jobs[i].status.kind && told.status.attempts
                    == jobs[i].status.attempts
        }),
    decreases n,
{
    let before = cancellations(jobs, (n - 1) as nat, message, now);
    if k < before.len() {
        cancellations_name_active_work(jobs, (n - 1) as nat, message, now, k);
    } else {
        assert(jobs[n - 1].active());
    }
}

/// Cancelled work is told of in the order in which it was accepted.
pub proof fn cancellations_keep_the_order(
    state: QueueView,
    n: nat,
    message: Seq<char>,
    now: nat,
    k: int,
    l: int,
)
    requires
        state.consistent(),
        n <= state.jobs.len(),
        0 <= k < l < cancellations(state.jobs, n, message, now).len(),
    ensures
        cancellations(state.jobs, n, message, now)[k].status.sequence < cancellations(
            state.jobs,
            n,
            message,
            now,
        )[l].status.sequence,
    decreases n,
{
    let before = cancellations(state.jobs, (n - 1) as nat, message, now);
    if l < before.len() {
        cancellations_keep_the_order(state, (n - 1) as nat, message, now, k, l);
    } else {
        cancellations_name_active_work(state.jobs, (n - 1) as nat, message, now, k);
        let told = before[k];
        let i = choose|i: int|
            0 <= i < n - 1 && (#[trigger] state.jobs[i]).active() && told.status.job_id
                == state.jobs[i].status.job_id && told.status.sequence
                == state.jobs[i].status.sequence && told.status.kind == state.jobs[i].status.kind
                && told.status.attempts == state.jobs[i].status.attempts;
        assert(state.jobs[i].status.sequence < state.jobs[n - 1].status.sequence);
    }
}

} // verus!
