//! What a provider answers to operations that it does not implement.

use vstd::prelude::*;
use crate::conformance::{capability_name, Capability};
use crate::error::{ErrorView, MemoryErrorCode, MemoryOperationError};

verus! {

/// The failure of an operation that a provider does not implement.
pub open spec fn unsupported_failure(
    provider: Seq<char>,
    capability: Capability,
    operation_id: Seq<char>,
) -> ErrorView {
    ErrorView::new(
        MemoryErrorCode::Unsupported,
        "memory provider does not support "@ + capability_name(capability),
        false,
    ).of(operation_id, provider)
}

/// The failure of an operation that a provider does not implement.
pub fn unsupported(provider: &str, capability: Capability, operation_id: &str) -> (r:
    MemoryOperationError)
    ensures
        r@ == unsupported_failure(provider@, capability, operation_id@),
{
    MemoryOperationError::unsupported(capability.name()).with_operation_id(
        operation_id,
    ).with_provider(provider)
}

/// An operation that a provider does not implement is refused for good, under its own name.
pub proof fn unsupported_operations_are_refused(
    provider: Seq<char>,
    capability: Capability,
    operation_id: Seq<char>,
)
    ensures
        ({
            let error = unsupported_failure(provider, capability, operation_id);
            &&& error.code is Unsupported
            &&& !error.retryable
            &&& error.operation_id == Some(operation_id)
            &&& error.provider == Some(provider)
            &&& error.message == "memory provider does not support "@ + capability_name(capability)
        }),
{
}

} // verus!
