//! Errors of cross-plugin dispatch.

use vstd::prelude::*;

use crate::value::Value;

verus! {

/// Declares Wasmtime's `wasmtime::Error`, the error of the WebAssembly
/// runtime: a trap or a host failure raised while a plugin runs. Values of
/// it are opaque here and only carried.
#[verifier::external_type_specification]
#[verifier::external_body]
pub struct ExRuntimeError(wasmtime::Error);

/// Errors that occur when creating a resource handle for cross-plugin
/// transfer.
///
/// Resources are wrapped before being passed between plugins to track
/// ownership. These errors indicate failures in that wrapping process.
#[derive(Debug, Clone, Copy, PartialEq, Eq, Structural)]
pub enum ResourceCreationError {
    /// The resource table has reached capacity and cannot store more handles.
    ResourceTableFull,
}

/// Errors that occur when unwrapping a resource handle received from another
/// plugin.
#[derive(Debug, Clone, Copy, PartialEq, Eq, Structural)]
pub enum ResourceReceiveError {
    /// The handle doesn't correspond to any known resource (possibly already
    /// dropped or invalid).
    InvalidHandle,
}

/// Errors that can occur when dispatching a function call to plugins.
///
/// Returned inside a cardinality wrapper when a function call fails at
/// runtime.
#[derive(Debug)]
pub enum DispatchError {
    /// The specified interface path doesn't match any known interface.
    InvalidInterfacePath(String),
    /// The specified function doesn't exist on the interface.
    InvalidFunction(String),
    /// Function was expected to return a value but didn't.
    MissingResponse,
    /// The WASM function threw an exception during execution.
    RuntimeException(wasmtime::Error),
    /// The provided arguments don't match the function signature.
    InvalidArgumentList,
    /// Async types (`future`, `stream`, `error-context`) are not supported
    /// for cross-plugin transfer.
    UnsupportedType(String),
    /// Failed to create a resource handle for cross-plugin transfer.
    ResourceCreationError(ResourceCreationError),
    /// Failed to receive a resource handle from another plugin.
    ResourceReceiveError(ResourceReceiveError),
    /// The destination plugin was busy and the call could not wait for it.
    LockRejected,
    /// No executor was available to run the call.
    ExecutorUnavailable,
    /// The caller or the destination has too much outstanding work.
    DispatchQueueFull,
}

impl From<ResourceCreationError> for DispatchError {
    fn from(error: ResourceCreationError) -> (converted: DispatchError) {
        DispatchError::ResourceCreationError(error)
    }
}

impl vstd::std_specs::convert::FromSpecImpl<ResourceCreationError> for DispatchError {
    open spec fn obeys_from_spec() -> bool {
        true
    }

    open spec fn from_spec(error: ResourceCreationError) -> DispatchError {
        DispatchError::ResourceCreationError(error)
    }
}

impl From<ResourceReceiveError> for DispatchError {
    fn from(error: ResourceReceiveError) -> (converted: DispatchError) {
        DispatchError::ResourceReceiveError(error)
    }
}

impl vstd::std_specs::convert::FromSpecImpl<ResourceReceiveError> for DispatchError {
    open spec fn obeys_from_spec() -> bool {
        true
    }

    open spec fn from_spec(error: ResourceReceiveError) -> DispatchError {
        DispatchError::ResourceReceiveError(error)
    }
}


/// The text of a runtime error: calls `to_string` on a `wasmtime::Error`,
/// which writes it through the error's `Display` implementation. Nothing is
/// claimed of the text.
#[verifier::external_body]
fn runtime_error_message(error: &wasmtime::Error) -> String {
    error.to_string()
}

/// The case name under which plugins receive a dispatch error.
pub open spec fn error_case(error: DispatchError) -> Seq<char> {
    match error {
        DispatchError::InvalidInterfacePath(_) => "invalid-interface-path"@,
        DispatchError::InvalidFunction(_) => "invalid-function"@,
        DispatchError::MissingResponse => "missing-response"@,
        DispatchError::RuntimeException(_) => "runtime-exception"@,
        DispatchError::InvalidArgumentList => "invalid-argument-list"@,
        DispatchError::UnsupportedType(_) => "unsupported-type"@,
        DispatchError::ResourceCreationError(ResourceCreationError::ResourceTableFull) => "resource-table-full"@,
        DispatchError::ResourceReceiveError(ResourceReceiveError::InvalidHandle) => "invalid-resource-handle"@,
        DispatchError::LockRejected => "lock-rejected"@,
        DispatchError::ExecutorUnavailable => "executor-unavailable"@,
        DispatchError::DispatchQueueFull => "dispatch-queue-full"@,
    }
}

/// Whether two errors are of the same kind, whatever they carry.
pub open spec fn same_kind(a: DispatchError, b: DispatchError) -> bool {
    match (a, b) {
        (DispatchError::InvalidInterfacePath(_), DispatchError::InvalidInterfacePath(_)) => true,
        (DispatchError::InvalidFunction(_), DispatchError::InvalidFunction(_)) => true,
        (DispatchError::MissingResponse, DispatchError::MissingResponse) => true,
        (DispatchError::RuntimeException(_), DispatchError::RuntimeException(_)) => true,
        (DispatchError::InvalidArgumentList, DispatchError::InvalidArgumentList) => true,
        (DispatchError::UnsupportedType(_), DispatchError::UnsupportedType(_)) => true,
        (DispatchError::ResourceCreationError(_), DispatchError::ResourceCreationError(_)) => true,
        (DispatchError::ResourceReceiveError(_), DispatchError::ResourceReceiveError(_)) => true,
        (DispatchError::LockRejected, DispatchError::LockRejected) => true,
        (DispatchError::ExecutorUnavailable, DispatchError::ExecutorUnavailable) => true,
        (DispatchError::DispatchQueueFull, DispatchError::DispatchQueueFull) => true,
        _ => false,
    }
}

/// A plugin that receives a dispatch error can tell its kind from the case
/// name alone: errors of different kinds have different case names.
pub proof fn law_error_cases_are_distinct(a: DispatchError, b: DispatchError)
    requires
        error_case(a) == error_case(b),
    ensures
        same_kind(a, b),
{
    reveal_strlit("invalid-interface-path");
    reveal_strlit("invalid-function");
    reveal_strlit("missing-response");
    reveal_strlit("runtime-exception");
    reveal_strlit("invalid-argument-list");
    reveal_strlit("unsupported-type");
    reveal_strlit("resource-table-full");
    reveal_strlit("invalid-resource-handle");
    reveal_strlit("lock-rejected");
    reveal_strlit("executor-unavailable");
    reveal_strlit("dispatch-queue-full");
    let (x, y) = (error_case(a), error_case(b));
    assert(x.len() == y.len());
    assert(x[0] == y[0]);
    assert(x[1] == y[1]);
    assert(x[2] == y[2]);
    assert(x[8] == y[8]);
}

/// The text that a dispatch error carries to plugins, for the cases that
/// carry one: the interface path, the function name or the type name. A
/// runtime exception carries its message, which only the runtime knows.
pub open spec fn error_text(error: DispatchError) -> Option<Seq<char>> {
    match error {
        DispatchError::InvalidInterfacePath(path) => Some(path@),
        DispatchError::InvalidFunction(function) => Some(function@),
        DispatchError::UnsupportedType(name) => Some(name@),
        _ => None,
    }
}

/// Whether `payload` is what the variant for `error` carries: the string of
/// the error's text where it has one, a string for a runtime exception, and
/// nothing otherwise.
pub open spec fn error_payload(error: DispatchError, payload: Option<Box<Value>>) -> bool {
    match payload {
        Some(p) => match *p {
            Value::String(s) => match error_text(error) {
                Some(text) => s@ == text,
                None => error is RuntimeException,
            },
            _ => false,
        },
        None => error_text(error) is None && !(error is RuntimeException),
    }
}

/// A variant value without payload.
fn bare_variant(case: &str) -> (value: Value)
    ensures
        value matches Value::Variant(name, None) && name@ == case@,
{
    Value::Variant(String::from_str(case), None)
}

/// A variant value whose payload is a string.
fn text_variant(case: &str, text: String) -> (value: Value)
    ensures
        value matches Value::Variant(name, Some(payload)) && name@ == case@ && *payload
            == Value::String(text),
{
    Value::Variant(String::from_str(case), Some(Box::new(Value::String(text))))
}

/// The variant value that plugins receive for a runtime exception whose
/// message is `message`.
pub fn runtime_exception_value(message: String) -> (value: Value)
    ensures
        value matches Value::Variant(name, Some(payload)) && name@ == "runtime-exception"@
            && *payload == Value::String(message),
{
    text_variant("runtime-exception", message)
}

impl ResourceCreationError {
    /// The error as the variant value that plugins receive.
    pub fn into_value(self) -> (value: Value)
        ensures
            value matches Value::Variant(name, None) && name@ == error_case(
                DispatchError::ResourceCreationError(self),
            ),
    {
        match self {
            ResourceCreationError::ResourceTableFull => bare_variant("resource-table-full"),
        }
    }
}

impl ResourceReceiveError {
    /// The error as the variant value that plugins receive.
    pub fn into_value(self) -> (value: Value)
        ensures
            value matches Value::Variant(name, None) && name@ == error_case(
                DispatchError::ResourceReceiveError(self),
            ),
    {
        match self {
            ResourceReceiveError::InvalidHandle => bare_variant("invalid-resource-handle"),
        }
    }
}

impl DispatchError {
    /// The error as the variant value that plugins receive: its case name,
    /// and a string payload for the cases that carry text.
    pub fn into_value(self) -> (value: Value)
        ensures
            value matches Value::Variant(name, payload) && name@ == error_case(self)
                && error_payload(self, payload),
    {
        match self {
            DispatchError::InvalidInterfacePath(path) => text_variant("invalid-interface-path", path),
            DispatchError::InvalidFunction(function) => text_variant("invalid-function", function),
            DispatchError::MissingResponse => bare_variant("missing-response"),
            DispatchError::RuntimeException(exception) => runtime_exception_value(
                runtime_error_message(&exception),
            ),
            DispatchError::InvalidArgumentList => bare_variant("invalid-argument-list"),
            DispatchError::UnsupportedType(name) => text_variant("unsupported-type", name),
            DispatchError::ResourceCreationError(error) => error.into_value(),
            DispatchError::ResourceReceiveError(error) => error.into_value(),
            DispatchError::LockRejected => bare_variant("lock-rejected"),
            DispatchError::ExecutorUnavailable => bare_variant("executor-unavailable"),
            DispatchError::DispatchQueueFull => bare_variant("dispatch-queue-full"),
        }
    }
}

} // verus!
