//! Direct provider facade with validation and deadline enforcement.
//!
//! The runtime says whether an operation may be started and for how long; its owner runs the
//! provider and hands back what came of it.

use vstd::prelude::*;
use crate::error::ErrorView;
use crate::memory::{
    context_fault, first_fault, maintenance_fault, namespace_fault, search_fault, store_fault,
    store_views, BatchRequestView, ContextView, MemoryBatchStoreRequest, MemoryCapabilities,
    MemoryDeleteRequest, MemoryErrorCode, MemoryFeedbackRequest, MemoryHealthRequest,
    MemoryMaintenanceRequest, MemoryOperationError, MemoryRequestContext, MemorySearchRequest,
    MemoryStoreRequest, MemoryUpdateRequest, NamespaceView, StoreRequestView,
};
use crate::time::Timestamp;

verus! {

/// How long an operation may run: without limit, or for a number of milliseconds.
#[derive(Debug, Clone, Copy, PartialEq, Eq, Structural)]
pub enum Budget {
    /// The operation has no deadline.
    Unlimited,
    /// The operation is to be given up after that time.
    Millis(u64),
}

/// What became of an operation that was started.
#[derive(Debug, PartialEq)]
pub enum Attempt<T> {
    /// The provider answered in time.
    Completed(Result<T, MemoryOperationError>),
    /// The time was up before the provider answered.
    TimedOut,
}

/// An instant in milliseconds since 1970, rounded down.
pub open spec fn in_millis(at: Timestamp) -> int {
    at.seconds * 1_000 + at.nanos as int / 1_000_000
}

/// The failure of an operation whose deadline has passed.
pub open spec fn deadline_failure(context: ContextView, provider: Seq<char>) -> ErrorView {
    ErrorView::new(
        MemoryErrorCode::DeadlineExceeded,
        "memory operation deadline exceeded"@,
        true,
    ).of(context.operation_id, provider)
}

/// How long an operation may run from an instant on. One whose deadline is not in the future may
/// not be started.
pub open spec fn budget(context: ContextView, provider: Seq<char>, now_millis: nat) -> Result<
    Budget,
    ErrorView,
> {
    match context.deadline {
        None => Ok(Budget::Unlimited),
        Some(deadline) => {
            let left = in_millis(deadline) - now_millis;
            if left <= 0 {
                Err(deadline_failure(context, provider))
            } else if left > u64::MAX {
                Ok(Budget::Millis(u64::MAX))
            } else {
                Ok(Budget::Millis(left as u64))
            }
        },
    }
}

/// Whether an operation may be started, and for how long: it must be valid and its deadline in the
/// future.
pub open spec fn admission(
    fault: Option<Seq<char>>,
    context: ContextView,
    provider: Seq<char>,
    now_millis: nat,
) -> Result<Budget, ErrorView> {
    match fault {
        Some(message) => Err(ErrorView::invalid_request(message)),
        None => budget(context, provider, now_millis),
    }
}

/// The view of a budget, or of the failure that takes its place.
pub open spec fn budget_view(result: Result<Budget, MemoryOperationError>) -> Result<
    Budget,
    ErrorView,
> {
    match result {
        Ok(budget) => Ok(budget),
        Err(error) => Err(error@),
    }
}

/// The first fault of what most optional operations share.
pub open spec fn scoped_fault(context: ContextView, namespace: NamespaceView) -> Option<Seq<char>> {
    first_fault(context_fault(context), namespace_fault(namespace))
}

/// The first fault among store requests.
pub open spec fn items_fault(requests: Seq<StoreRequestView>) -> Option<Seq<char>>
    decreases requests.len(),
{
    if requests.len() == 0 {
        None
    } else {
        first_fault(items_fault(requests.drop_last()), store_fault(requests.last()))
    }
}

/// The first fault of a batch store request.
pub open spec fn batch_fault(request: BatchRequestView) -> Option<Seq<char>> {
    first_fault(context_fault(request.context), items_fault(request.requests))
}

/// Direct facade around one memory provider.
///
/// The facade validates requests, enforces the absolute deadline carried by every operation
/// context, and returns provider results without retrying or rewriting them.
#[derive(Debug, PartialEq, Eq)]
pub struct MemoryRuntime {
    provider: String,
    capabilities: MemoryCapabilities,
}

/// What a runtime knows of its provider.
pub struct RuntimeView {
    pub provider: Seq<char>,
    pub capabilities: MemoryCapabilities,
}

impl View for MemoryRuntime {
    type V = RuntimeView;

    closed spec fn view(&self) -> RuntimeView {
        RuntimeView { provider: self.provider@, capabilities: self.capabilities }
    }
}

impl Clone for MemoryRuntime {
    fn clone(&self) -> (r: Self)
        ensures
            r@ == self@,
    {
        MemoryRuntime { provider: self.provider.clone(), capabilities: self.capabilities }
    }
}

impl MemoryRuntime {
    /// Create a runtime over a provider with a stable identifier and its advertised operations.
    pub fn new(provider: &str, capabilities: MemoryCapabilities) -> (r: Self)
        ensures
            r@ == (RuntimeView { provider: provider@, capabilities }),
    {
        MemoryRuntime { provider: provider.to_owned(), capabilities }
    }

    /// Return the provider's stable identifier.
    pub fn provider_name(&self) -> (r: &str)
        ensures
            r@ == self@.provider,
    {
        self.provider.as_str()
    }

    /// Return optional operations advertised by the provider.
    pub fn capabilities(&self) -> (r: MemoryCapabilities)
        ensures
            r == self@.capabilities,
    {
        self.capabilities
    }

    fn deadline_error(&self, context: &MemoryRequestContext) -> (r: MemoryOperationError)
        ensures
            r@ == deadline_failure(context@, self@.provider),
    {
        MemoryOperationError::deadline_exceeded(
            "memory operation deadline exceeded",
        ).with_operation_id(context.operation_id.as_str()).with_provider(self.provider.as_str())
    }

    /// How long an operation may run from an instant on, in milliseconds since 1970.
    pub fn remaining_time(&self, context: &MemoryRequestContext, now_millis: u64) -> (r: Result<
        Budget,
        MemoryOperationError,
    >)
        ensures
            budget_view(r) == budget(context@, self@.provider, now_millis as nat),
    {
        match &context.deadline {
            None => Ok(Budget::Unlimited),
            Some(deadline) => {
                let deadline_millis: i128 = deadline.seconds as i128 * 1_000 + (deadline.nanos
                    / 1_000_000) as i128;
                let left: i128 = deadline_millis - now_millis as i128;
                if left <= 0 {
                    return Err(self.deadline_error(context));
                }
                if left > u64::MAX as i128 {
                    return Ok(Budget::Millis(u64::MAX));
                }
                Ok(Budget::Millis(left as u64))
            },
        }
    }

    /// Admit a memory search.
    pub fn search(&self, request: &MemorySearchRequest, now_millis: u64) -> (r: Result<
        Budget,
        MemoryOperationError,
    >)
        ensures
            budget_view(r) == admission(
                search_fault(request@),
                request@.context,
                self@.provider,
                now_millis as nat,
            ),
    {
        request.validate()?;
        self.remaining_time(&request.context, now_millis)
    }

    /// Admit a memory store.
    pub fn store(&self, request: &MemoryStoreRequest, now_millis: u64) -> (r: Result<
        Budget,
        MemoryOperationError,
    >)
        ensures
            budget_view(r) == admission(
                store_fault(request@),
                request@.context,
                self@.provider,
                now_millis as nat,
            ),
    {
        request.validate()?;
        self.remaining_time(&request.context, now_millis)
    }

    /// Admit an update.
    pub fn update(&self, request: &MemoryUpdateRequest, now_millis: u64) -> (r: Result<
        Budget,
        MemoryOperationError,
    >)
        ensures
            budget_view(r) == admission(
                scoped_fault(request@.context, request@.namespace),
                request@.context,
                self@.provider,
                now_millis as nat,
            ),
    {
        request.context.validate()?;
        request.namespace.validate()?;
        self.remaining_time(&request.context, now_millis)
    }

    /// Admit a delete.
    pub fn delete(&self, request: &MemoryDeleteRequest, now_millis: u64) -> (r: Result<
        Budget,
        MemoryOperationError,
    >)
        ensures
            budget_view(r) == admission(
                scoped_fault(request@.context, request@.namespace),
                request@.context,
                self@.provider,
                now_millis as nat,
            ),
    {
        request.context.validate()?;
        request.namespace.validate()?;
        self.remaining_time(&request.context, now_millis)
    }

    /// Admit a batch store.
    pub fn batch_store(&self, request: &MemoryBatchStoreRequest, now_millis: u64) -> (r: Result<
        Budget,
        MemoryOperationError,
    >)
        ensures
            budget_view(r) == admission(
                batch_fault(request@),
                request@.context,
                self@.provider,
                now_millis as nat,
            ),
    {
        request.context.validate()?;
        let ghost views = store_views(request.requests@);
        let mut i: usize = 0;
        assert(views.take(0) =~= Seq::empty());
        while i < request.requests.len()
            invariant
                i <= request.requests@.len(),
                views == store_views(request.requests@),
                views == request@.requests,
                context_fault(request@.context) is None,
                items_fault(views.take(i as int)) is None,
            decreases request.requests@.len() - i,
        {
            assert(views.take(i + 1).drop_last() =~= views.take(i as int));
            assert(views.take(i + 1).last() == request.requests@[i as int]@);
            match request.requests[i].validate() {
                Ok(()) => {},
                Err(error) => {
                    proof {
                        first_item_fault(views, (i + 1) as nat);
                    }
                    return Err(error);
                },
            }
            i += 1;
        }
        assert(views.take(i as int) =~= views);
        self.remaining_time(&request.context, now_millis)
    }

    /// Admit maintenance.
    pub fn maintain(&self, request: &MemoryMaintenanceRequest, now_millis: u64) -> (r: Result<
        Budget,
        MemoryOperationError,
    >)
        ensures
            budget_view(r) == admission(
                maintenance_fault(request@),
                request@.context,
                self@.provider,
                now_millis as nat,
            ),
    {
        request.validate()?;
        self.remaining_time(&request.context, now_millis)
    }

    /// Admit feedback.
    pub fn feedback(&self, request: &MemoryFeedbackRequest, now_millis: u64) -> (r: Result<
        Budget,
        MemoryOperationError,
    >)
        ensures
            budget_view(r) == admission(
                scoped_fault(request@.context, request@.namespace),
                request@.context,
                self@.provider,
                now_millis as nat,
            ),
    {
        request.context.validate()?;
        request.namespace.validate()?;
        self.remaining_time(&request.context, now_millis)
    }

    /// Admit a health query.
    pub fn health(&self, request: &MemoryHealthRequest, now_millis: u64) -> (r: Result<
        Budget,
        MemoryOperationError,
    >)
        ensures
            budget_view(r) == admission(
                context_fault(request@.context),
                request@.context,
                self@.provider,
                now_millis as nat,
            ),
    {
        request.context.validate()?;
        self.remaining_time(&request.context, now_millis)
    }

    /// What an operation that was started comes to: what the provider answered, as it answered,
    /// or the failure of its deadline.
    pub fn settle<T>(&self, context: &MemoryRequestContext, attempt: Attempt<T>) -> (r: Result<
        T,
        MemoryOperationError,
    >)
        ensures
            match attempt {
                Attempt::Completed(result) => r == result,
                Attempt::TimedOut => r matches Err(error) && error@ == deadline_failure(
                    context@,
                    self@.provider,
                ),
            },
    {
        match attempt {
            Attempt::Completed(result) => result,
            Attempt::TimedOut => Err(self.deadline_error(context)),
        }
    }
}

/// The first fault of some items is that of all.
proof fn first_item_fault(requests: Seq<StoreRequestView>, n: nat)
    requires
        n <= requests.len(),
        items_fault(requests.take(n as int)) is Some,
    ensures
        items_fault(requests) == items_fault(requests.take(n as int)),
    decreases requests.len() - n,
{
    if n < requests.len() {
        assert(requests.take((n + 1) as int).drop_last() =~= requests.take(n as int));
        first_item_fault(requests, n + 1);
    } else {
        assert(requests.take(n as int) =~= requests);
    }
}

/// An operation whose deadline has passed is never started.
pub proof fn expired_operation_is_never_started(
    fault: Option<Seq<char>>,
    context: ContextView,
    provider: Seq<char>,
    now_millis: nat,
)
    requires
        context.deadline matches Some(deadline) && in_millis(deadline) <= now_millis,
    ensures
        admission(fault, context, provider, now_millis) is Err,
{
}

/// An operation is given up no later than its deadline.
pub proof fn budget_ends_at_the_deadline(
    context: ContextView,
    provider: Seq<char>,
    now_millis: nat,
    millis: u64,
)
    requires
        budget(context, provider, now_millis) == Ok::<Budget, ErrorView>(Budget::Millis(millis)),
    ensures
        context.deadline matches Some(deadline) && now_millis + millis <= in_millis(deadline)
            && millis > 0,
{
}

/// A valid operation without a deadline is started without a limit.
pub proof fn operation_without_deadline_is_unlimited(
    context: ContextView,
    provider: Seq<char>,
    now_millis: nat,
)
    requires
        context.deadline is None,
    ensures
        admission(None, context, provider, now_millis) == Ok::<Budget, ErrorView>(
            Budget::Unlimited,
        ),
{
}

/// A valid operation may run for what is left until its deadline, to the millisecond, and not at all
/// once nothing is left. An invalid one is refused as invalid, whatever its deadline.
pub proof fn operations_run_until_their_deadline(
    message: Seq<char>,
    context: ContextView,
    deadline: Timestamp,
    provider: Seq<char>,
    now_millis: nat,
)
    requires
        context.deadline == Some(deadline),
    ensures
        admission(Some(message), context, provider, now_millis) == Err::<Budget, ErrorView>(
            ErrorView::invalid_request(message),
        ),
        ({
            let left = deadline.seconds * 1_000 + deadline.nanos as int / 1_000_000 - now_millis;
            &&& 0 < left <= u64::MAX ==> admission(None, context, provider, now_millis) == Ok::<
                Budget,
                ErrorView,
            >(Budget::Millis(left as u64))
            &&& left > u64::MAX ==> admission(None, context, provider, now_millis) == Ok::<
                Budget,
                ErrorView,
            >(Budget::Millis(u64::MAX))
            &&& left <= 0 ==> (admission(None, context, provider, now_millis) matches Err(error)
                && error == deadline_failure(context, provider))
        }),
        deadline_failure(context, provider).code is DeadlineExceeded,
        deadline_failure(context, provider).retryable,
        deadline_failure(context, provider).operation_id == Some(context.operation_id),
        deadline_failure(context, provider).provider == Some(provider),
{
}

/// A batch is valid exactly where its operation and each of its stores are. The first fault is the
/// operation's, or else that of the first store that has one.
pub proof fn batch_validity(request: BatchRequestView, k: int)
    ensures
        batch_fault(request) is None <==> context_fault(request.context) is None && forall|i: int|
            0 <= i < request.requests.len() ==> store_fault(#[trigger] request.requests[i]) is None,
        context_fault(request.context) is Some ==> batch_fault(request) == context_fault(
            request.context,
        ),
        context_fault(request.context) is None && 0 <= k < request.requests.len() && store_fault(
            request.requests[k],
        ) is Some && (forall|i: int|
            0 <= i < k ==> store_fault(#[trigger] request.requests[i]) is None) ==> batch_fault(
            request,
        ) == store_fault(request.requests[k]),
{
    items_validity(request.requests);
    if 0 <= k < request.requests.len() && store_fault(request.requests[k]) is Some && (forall|i: int|
        0 <= i < k ==> store_fault(#[trigger] request.requests[i]) is None) {
        first_faulty_item(request.requests, k);
    }
}

proof fn items_validity(requests: Seq<StoreRequestView>)
    ensures
        items_fault(requests) is None <==> forall|i: int|
            0 <= i < requests.len() ==> store_fault(#[trigger] requests[i]) is None,
    decreases requests.len(),
{
    if requests.len() > 0 {
        let rest = requests.drop_last();
        items_validity(rest);
        assert(requests[requests.len() - 1] == requests.last());
        assert(forall|i: int| 0 <= i < rest.len() ==> rest[i] == requests[i]);
        if items_fault(requests) is None {
            assert forall|i: int| 0 <= i < requests.len() implies store_fault(
                #[trigger] requests[i],
            ) is None by {
                if i < rest.len() {
                    assert(store_fault(rest[i]) is None);
                }
            }
        }
    }
}

proof fn first_faulty_item(requests: Seq<StoreRequestView>, k: int)
    requires
        0 <= k < requests.len(),
        store_fault(requests[k]) is Some,
        forall|i: int| 0 <= i < k ==> store_fault(#[trigger] requests[i]) is None,
    ensures
        items_fault(requests) == store_fault(requests[k]),
    decreases requests.len(),
{
    let rest = requests.drop_last();
    assert(forall|i: int| 0 <= i < rest.len() ==> rest[i] == requests[i]);
    if k < rest.len() {
        first_faulty_item(rest, k);
    } else {
        items_validity(rest);
    }
}

/// The other operations are valid where their operation and their namespace are.
pub proof fn scoped_validity(context: ContextView, namespace: NamespaceView)
    ensures
        scoped_fault(context, namespace) is None <==> context_fault(context) is None
            && namespace_fault(namespace) is None,
        context_fault(context) is Some ==> scoped_fault(context, namespace) == context_fault(
            context,
        ),
{
}

} // verus!
