//! Failures of memory operations.

use vstd::prelude::*;
use crate::json::{no_members, JsonModel, JsonObject};
use crate::text::{concat, opt_text};

verus! {

/// Stable machine-readable memory operation error code.
#[derive(Debug, Clone, Copy, PartialEq, Eq, Structural)]
pub enum MemoryErrorCode {
    /// A request violates the provider-neutral contract.
    InvalidRequest,
    /// The provider does not implement the requested optional capability.
    Unsupported,
    /// The operation did not complete before its deadline.
    DeadlineExceeded,
    /// A caller or runtime cancelled the operation.
    Cancelled,
    /// The request conflicts with existing state, such as an idempotency key.
    Conflict,
    /// The provider or its backing service is unavailable.
    ProviderUnavailable,
    /// The provider failed for an implementation-specific reason.
    Internal,
}

/// The name of an error code on the wire.
pub open spec fn error_code_name(code: MemoryErrorCode) -> Seq<char> {
    match code {
        MemoryErrorCode::InvalidRequest => "invalid_request"@,
        MemoryErrorCode::Unsupported => "unsupported"@,
        MemoryErrorCode::DeadlineExceeded => "deadline_exceeded"@,
        MemoryErrorCode::Cancelled => "cancelled"@,
        MemoryErrorCode::Conflict => "conflict"@,
        MemoryErrorCode::ProviderUnavailable => "provider_unavailable"@,
        MemoryErrorCode::Internal => "internal"@,
    }
}

impl MemoryErrorCode {
    /// The name of the code on the wire.
    pub fn name(self) -> (r: &'static str)
        ensures
            r@ == error_code_name(self),
    {
        match self {
            MemoryErrorCode::InvalidRequest => "invalid_request",
            MemoryErrorCode::Unsupported => "unsupported",
            MemoryErrorCode::DeadlineExceeded => "deadline_exceeded",
            MemoryErrorCode::Cancelled => "cancelled",
            MemoryErrorCode::Conflict => "conflict",
            MemoryErrorCode::ProviderUnavailable => "provider_unavailable",
            MemoryErrorCode::Internal => "internal",
        }
    }
}

/// Provider or contract failure.
#[derive(Debug, PartialEq)]
pub struct MemoryOperationError {
    /// Stable error classification.
    pub code: MemoryErrorCode,
    /// Human-readable diagnostic message.
    pub message: String,
    /// Whether a caller may safely retry according to the provider.
    pub retryable: bool,
    /// Correlation identifier from the operation context, when available.
    pub operation_id: Option<String>,
    /// Provider that produced the failure, when known.
    pub provider: Option<String>,
    /// Provider-neutral structured diagnostic fields.
    pub details: JsonObject,
}

/// What a failure says.
pub struct ErrorView {
    pub code: MemoryErrorCode,
    pub message: Seq<char>,
    pub retryable: bool,
    pub operation_id: Option<Seq<char>>,
    pub provider: Option<Seq<char>>,
    pub details: Map<Seq<char>, JsonModel>,
}

impl View for MemoryOperationError {
    type V = ErrorView;

    open spec fn view(&self) -> ErrorView {
        ErrorView {
            code: self.code,
            message: self.message@,
            retryable: self.retryable,
            operation_id: opt_text(self.operation_id),
            provider: opt_text(self.provider),
            details: self.details@,
        }
    }
}

impl Clone for MemoryOperationError {
    fn clone(&self) -> (r: Self)
        ensures
            r@ == self@,
    {
        MemoryOperationError {
            code: self.code,
            message: self.message.clone(),
            retryable: self.retryable,
            operation_id: self.operation_id.clone(),
            provider: self.provider.clone(),
            details: self.details.clone(),
        }
    }
}

impl ErrorView {
    /// A failure with a code, a message and a retry policy, and nothing else.
    pub open spec fn new(code: MemoryErrorCode, message: Seq<char>, retryable: bool) -> ErrorView {
        ErrorView {
            code,
            message,
            retryable,
            operation_id: None,
            provider: None,
            details: no_members(),
        }
    }

    /// A violation of the provider-neutral contract.
    pub open spec fn invalid_request(message: Seq<char>) -> ErrorView {
        ErrorView::new(MemoryErrorCode::InvalidRequest, message, false)
    }

    /// The same failure with an operation identifier and a provider.
    pub open spec fn of(self, operation_id: Seq<char>, provider: Seq<char>) -> ErrorView {
        ErrorView { operation_id: Some(operation_id), provider: Some(provider), ..self }
    }
}

/// `result` is a success exactly where there is no fault, and else the invalid-request failure
/// with the fault's message.
pub open spec fn checked(
    result: Result<(), MemoryOperationError>,
    fault: Option<Seq<char>>,
) -> bool {
    match (result, fault) {
        (Ok(_), None) => true,
        (Err(error), Some(message)) => error@ == ErrorView::invalid_request(message),
        _ => false,
    }
}

impl MemoryOperationError {
    /// Create an invalid-request error.
    pub fn invalid_request(message: &str) -> (r: Self)
        ensures
            r@ == ErrorView::invalid_request(message@),
    {
        Self::new(MemoryErrorCode::InvalidRequest, message, false)
    }

    /// Create an unsupported-capability error.
    pub fn unsupported(capability: &str) -> (r: Self)
        ensures
            r@ == ErrorView::new(
                MemoryErrorCode::Unsupported,
                "memory provider does not support "@ + capability@,
                false,
            ),
    {
        let message = concat("memory provider does not support ", capability);
        Self::new(MemoryErrorCode::Unsupported, message.as_str(), false)
    }

    /// Create a deadline-exceeded error.
    pub fn deadline_exceeded(message: &str) -> (r: Self)
        ensures
            r@ == ErrorView::new(MemoryErrorCode::DeadlineExceeded, message@, true),
    {
        Self::new(MemoryErrorCode::DeadlineExceeded, message, true)
    }

    /// Create an idempotency or mutation conflict.
    pub fn conflict(message: &str) -> (r: Self)
        ensures
            r@ == ErrorView::new(MemoryErrorCode::Conflict, message@, false),
    {
        Self::new(MemoryErrorCode::Conflict, message, false)
    }

    /// Attach an operation correlation identifier.
    pub fn with_operation_id(self, operation_id: &str) -> (r: Self)
        ensures
            r@ == (ErrorView { operation_id: Some(operation_id@), ..self@ }),
    {
        MemoryOperationError { operation_id: Some(operation_id.to_owned()), ..self }
    }

    /// Attach the provider that produced the error.
    pub fn with_provider(self, provider: &str) -> (r: Self)
        ensures
            r@ == (ErrorView { provider: Some(provider@), ..self@ }),
    {
        MemoryOperationError { provider: Some(provider.to_owned()), ..self }
    }

    /// Create an error with an explicit code and retry policy.
    pub fn new(code: MemoryErrorCode, message: &str, retryable: bool) -> (r: Self)
        ensures
            r@ == ErrorView::new(code, message@, retryable),
    {
        MemoryOperationError {
            code,
            message: message.to_owned(),
            retryable,
            operation_id: None,
            provider: None,
            details: JsonObject::new(),
        }
    }

    /// The text of the failure: its message.
    pub fn to_text(&self) -> (r: String)
        ensures
            r@ == self@.message,
    {
        self.message.clone()
    }
}

/// A failure says its code, its message and whether to retry, and nothing else until it is told whose
/// it is. A violation of the contract is not to be retried.
pub proof fn failures_say_what_they_are_told(
    code: MemoryErrorCode,
    message: Seq<char>,
    retryable: bool,
    operation_id: Seq<char>,
    provider: Seq<char>,
)
    ensures
        ({
            let plain = ErrorView::new(code, message, retryable);
            let owned = plain.of(operation_id, provider);
            &&& plain.code == code && plain.message == message && plain.retryable == retryable
            &&& plain.operation_id is None && plain.provider is None && plain.details
                == no_members()
            &&& owned == (ErrorView {
                operation_id: Some(operation_id),
                provider: Some(provider),
                ..plain
            })
            &&& ErrorView::invalid_request(message).code is InvalidRequest
            &&& !ErrorView::invalid_request(message).retryable
            &&& ErrorView::invalid_request(message).message == message
        }),
{
}

/// Different codes have different names.
pub proof fn code_names_are_distinct(left: MemoryErrorCode, right: MemoryErrorCode)
    requires
        error_code_name(left) == error_code_name(right),
    ensures
        left == right,
{
    reveal_strlit("invalid_request");
    reveal_strlit("unsupported");
    reveal_strlit("deadline_exceeded");
    reveal_strlit("cancelled");
    reveal_strlit("conflict");
    reveal_strlit("provider_unavailable");
    reveal_strlit("internal");
    assert("invalid_request"@.len() == 15 && "unsupported"@.len() == 11 && "deadline_exceeded"@.len()
        == 17 && "cancelled"@.len() == 9 && "conflict"@.len() == 8 && "provider_unavailable"@.len()
        == 20 && "internal"@.len() == 8);
    assert("conflict"@[0] == 'c' && "internal"@[0] == 'i');
}

/// A checked result is a success where there is no fault, and else says the fault: the request is
/// invalid and is not to be made again.
pub proof fn faults_are_said(
    result: Result<(), MemoryOperationError>,
    fault: Option<Seq<char>>,
)
    requires
        checked(result, fault),
    ensures
        result is Ok <==> fault is None,
        result matches Err(error) ==> error@.code is InvalidRequest && Some(error@.message) == fault
            && !error@.retryable && error@.operation_id is None && error@.provider is None
            && error@.details == no_members(),
{
}

} // verus!
