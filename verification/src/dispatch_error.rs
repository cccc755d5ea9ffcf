//! The errors of synchronous dispatch.
//!
//! Synchronous dispatch fails in the ways concurrent dispatch does, except
//! for the failures that only the concurrent runtime produces: no executor,
//! a full dispatch queue, a refused lock.

use vstd::prelude::*;

use crate::errors::{ResourceCreationError, ResourceReceiveError, error_case, error_payload};
use crate::value::Value;

verus! {

/// Errors produced by synchronous dispatch.
#[derive(Debug)]
pub enum DispatchError {
    /// The interface path is unknown.
    InvalidInterfacePath(String),
    /// The function is unknown.
    InvalidFunction(String),
    /// A required return value was absent.
    MissingResponse,
    /// WebAssembly execution failed.
    RuntimeException(wasmtime::Error),
    /// Arguments did not match the function signature.
    InvalidArgumentList,
    /// The value uses an unsupported Component Model type.
    UnsupportedType(String),
    /// A resource handle could not be created.
    ResourceCreationError(ResourceCreationError),
    /// A resource handle could not be received.
    ResourceReceiveError(ResourceReceiveError),
}

/// Whether `error` is one that only concurrent dispatch produces.
pub open spec fn concurrent_only(error: crate::errors::DispatchError) -> bool {
    ||| error is ExecutorUnavailable
    ||| error is DispatchQueueFull
    ||| error is LockRejected
}

/// The error of concurrent dispatch that `error` is.
pub open spec fn as_concurrent(error: DispatchError) -> crate::errors::DispatchError {
    match error {
        DispatchError::InvalidInterfacePath(path) => crate::errors::DispatchError::InvalidInterfacePath(path),
        DispatchError::InvalidFunction(name) => crate::errors::DispatchError::InvalidFunction(name),
        DispatchError::MissingResponse => crate::errors::DispatchError::MissingResponse,
        DispatchError::RuntimeException(exception) => crate::errors::DispatchError::RuntimeException(exception),
        DispatchError::InvalidArgumentList => crate::errors::DispatchError::InvalidArgumentList,
        DispatchError::UnsupportedType(name) => crate::errors::DispatchError::UnsupportedType(name),
        DispatchError::ResourceCreationError(e) => crate::errors::DispatchError::ResourceCreationError(e),
        DispatchError::ResourceReceiveError(e) => crate::errors::DispatchError::ResourceReceiveError(e),
    }
}

impl DispatchError {
    /// The synchronous counterpart of an error of concurrent dispatch, which
    /// must not be one that only concurrent dispatch produces.
    pub fn from_concurrent(error: crate::errors::DispatchError) -> (converted: Self)
        requires
            !concurrent_only(error),
        ensures
            as_concurrent(converted) == error,
    {
        match error {
            crate::errors::DispatchError::InvalidInterfacePath(path) => DispatchError::InvalidInterfacePath(path),
            crate::errors::DispatchError::InvalidFunction(name) => DispatchError::InvalidFunction(name),
            crate::errors::DispatchError::MissingResponse => DispatchError::MissingResponse,
            crate::errors::DispatchError::RuntimeException(exception) => DispatchError::RuntimeException(exception),
            crate::errors::DispatchError::InvalidArgumentList => DispatchError::InvalidArgumentList,
            crate::errors::DispatchError::UnsupportedType(name) => DispatchError::UnsupportedType(name),
            crate::errors::DispatchError::ResourceCreationError(e) => DispatchError::ResourceCreationError(e),
            crate::errors::DispatchError::ResourceReceiveError(e) => DispatchError::ResourceReceiveError(e),
            crate::errors::DispatchError::LockRejected
            | crate::errors::DispatchError::ExecutorUnavailable
            | crate::errors::DispatchError::DispatchQueueFull => {
                proof {
                    assert(false);
                }
                DispatchError::MissingResponse
            },
        }
    }

    /// The error of concurrent dispatch that this error is.
    pub fn into_concurrent(self) -> (converted: crate::errors::DispatchError)
        ensures
            converted == as_concurrent(self),
            !concurrent_only(converted),
    {
        match self {
            DispatchError::InvalidInterfacePath(path) => crate::errors::DispatchError::InvalidInterfacePath(path),
            DispatchError::InvalidFunction(name) => crate::errors::DispatchError::InvalidFunction(name),
            DispatchError::MissingResponse => crate::errors::DispatchError::MissingResponse,
            DispatchError::RuntimeException(exception) => crate::errors::DispatchError::RuntimeException(exception),
            DispatchError::InvalidArgumentList => crate::errors::DispatchError::InvalidArgumentList,
            DispatchError::UnsupportedType(name) => crate::errors::DispatchError::UnsupportedType(name),
            DispatchError::ResourceCreationError(e) => crate::errors::DispatchError::ResourceCreationError(e),
            DispatchError::ResourceReceiveError(e) => crate::errors::DispatchError::ResourceReceiveError(e),
        }
    }

    /// The error as the variant value that plugins receive, as for the same
    /// error of concurrent dispatch.
    pub fn into_value(self) -> (value: Value)
        ensures
            value matches Value::Variant(name, payload) && name@ == error_case(as_concurrent(self))
                && error_payload(as_concurrent(self), payload),
    {
        self.into_concurrent().into_value()
    }
}

/// The errors of synchronous dispatch are exactly the errors of concurrent
/// dispatch that are not concurrent only, each once: distinct synchronous
/// errors stand for distinct concurrent ones, and every error that is not
/// concurrent only has a synchronous counterpart.
pub proof fn law_sync_errors_round_trip(
    error: DispatchError,
    other: DispatchError,
    concurrent: crate::errors::DispatchError,
)
    requires
        !concurrent_only(concurrent),
    ensures
        !concurrent_only(as_concurrent(error)),
        as_concurrent(error) == as_concurrent(other) ==> error == other,
        exists|back: DispatchError| as_concurrent(back) == concurrent,
{
    let back = match concurrent {
        crate::errors::DispatchError::InvalidInterfacePath(path) => DispatchError::InvalidInterfacePath(path),
        crate::errors::DispatchError::InvalidFunction(name) => DispatchError::InvalidFunction(name),
        crate::errors::DispatchError::MissingResponse => DispatchError::MissingResponse,
        crate::errors::DispatchError::RuntimeException(exception) => DispatchError::RuntimeException(exception),
        crate::errors::DispatchError::InvalidArgumentList => DispatchError::InvalidArgumentList,
        crate::errors::DispatchError::UnsupportedType(name) => DispatchError::UnsupportedType(name),
        crate::errors::DispatchError::ResourceCreationError(e) => DispatchError::ResourceCreationError(e),
        crate::errors::DispatchError::ResourceReceiveError(e) => DispatchError::ResourceReceiveError(e),
        _ => DispatchError::MissingResponse,
    };
    assert(as_concurrent(back) == concurrent);
}

} // verus!
