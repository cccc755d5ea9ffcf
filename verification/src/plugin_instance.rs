//! One call into one plugin instance: checking the arguments, the buffer
//! that receives the result, reading the result back, and the limits on
//! outstanding work that admit a call.

use vstd::prelude::*;

use crate::errors::DispatchError;
use crate::interface::{FunctionMetadata, ReturnKind};
use crate::name_map::NameMap;
use crate::remap::{Remap, remaps_view, resolve_export, spec_resolve_export};
use crate::value::{Value, first_unsupported};

verus! {

/// The most calls that one caller may have outstanding.
pub const MAX_CALLER_CALLS: usize = 1024;

/// The most argument bytes that one caller may have outstanding (64 MiB).
pub const MAX_CALLER_BYTES: usize = 67108864;

/// The most calls that may wait for one destination plugin.
pub const MAX_DESTINATION_CALLS: usize = 4096;

/// The most argument bytes that may wait for one destination plugin
/// (256 MiB).
pub const MAX_DESTINATION_BYTES: usize = 268435456;

/// The placeholder that a call's result slot holds before the call.
pub open spec fn placeholder() -> Value {
    Value::Option(None)
}

/// The buffer that receives a call's results: one placeholder slot when the
/// function returns a value, none when it returns nothing.
pub fn call_buffer(function: &FunctionMetadata) -> (buffer: Vec<Value>)
    ensures
        function.spec_return_kind() != ReturnKind::Void ==> buffer@ == seq![placeholder()],
        function.spec_return_kind() == ReturnKind::Void ==> buffer@.len() == 0,
{
    if function.return_kind().has_return() {
        let mut buffer = Vec::new();
        buffer.push(Value::Option(None));
        buffer
    } else {
        Vec::new()
    }
}

/// What a finished call gives its caller, from the call's own outcome and
/// the results buffer it filled.
pub open spec fn call_outcome_matches(
    return_kind: ReturnKind,
    buffer: Seq<Value>,
    call_result: Result<(), wasmtime::Error>,
    outcome: Result<Value, DispatchError>,
) -> bool {
    match call_result {
        Err(error) => outcome == Err::<Value, DispatchError>(DispatchError::RuntimeException(error)),
        Ok(()) => if return_kind == ReturnKind::Void {
            outcome == Ok::<Value, DispatchError>(Value::Option(None))
        } else if buffer.len() == 0 {
            outcome matches Err(DispatchError::MissingResponse)
        } else {
            match first_unsupported(buffer.last()) {
                None => outcome == Ok::<Value, DispatchError>(buffer.last()),
                Some(kind) => outcome matches Err(DispatchError::UnsupportedType(name)) && name@
                    == kind,
            }
        },
    }
}

/// Reads the outcome of a finished call: the runtime's error if the call
/// failed, otherwise the last value of the results buffer, which must be
/// there when the function returns one and must not hold a value that
/// cannot cross between plugins. A function without return gives an empty
/// `option`.
pub fn finish_call(
    function: &FunctionMetadata,
    buffer: Vec<Value>,
    call_result: Result<(), wasmtime::Error>,
) -> (outcome: Result<Value, DispatchError>)
    ensures
        call_outcome_matches(function.spec_return_kind(), buffer@, call_result, outcome),
{
    if let Err(error) = call_result {
        return Err(DispatchError::RuntimeException(error));
    }
    let mut buffer = buffer;
    let result = if function.return_kind().has_return() {
        match buffer.pop() {
            Some(value) => value,
            None => {
                return Err(DispatchError::MissingResponse);
            },
        }
    } else {
        Value::Option(None)
    };
    match crate::value::ensure_supported_value(&result) {
        Ok(()) => Ok(result),
        Err(error) => Err(error),
    }
}

/// Whatever the function's return kind, a finished call never hands on a
/// value that cannot cross between plugins; what it hands on is the last
/// value of the buffer, or an empty `option` for a function without return.
/// A value that cannot cross is refused under the name of its first
/// asynchronous kind.
pub proof fn law_finished_calls_hand_on_only_what_crosses(
    return_kind: ReturnKind,
    buffer: Seq<Value>,
    call_result: Result<(), wasmtime::Error>,
    outcome: Result<Value, DispatchError>,
)
    requires
        call_outcome_matches(return_kind, buffer, call_result, outcome),
    ensures
        outcome matches Ok(value) ==> (first_unsupported(value) is None && call_result is Ok && (
        value == Value::Option(None) || (buffer.len() > 0 && value == buffer.last()))),
        call_result is Ok && return_kind != ReturnKind::Void && buffer.len() > 0
            && first_unsupported(buffer.last()) is Some ==> (outcome matches Err(
            DispatchError::UnsupportedType(name),
        ) && Some(name@) == first_unsupported(buffer.last())),
        call_result is Ok && return_kind != ReturnKind::Void && buffer.len() > 0
            && first_unsupported(buffer.last()) is None ==> outcome == Ok::<Value, DispatchError>(
            buffer.last(),
        ),
{
}

/// The error for an interface path that the plugin does not export.
pub fn missing_interface(interface_path: &str) -> (error: DispatchError)
    ensures
        error matches DispatchError::InvalidInterfacePath(path) && path@ == interface_path@,
{
    DispatchError::InvalidInterfacePath(String::from_str(interface_path))
}

/// The error for a function that the exported interface does not hold,
/// naming it as `interface-path:function`.
pub fn missing_function(interface_path: &str, function_name: &str) -> (error: DispatchError)
    ensures
        error matches DispatchError::InvalidFunction(name) && name@ == interface_path@ + ":"@
            + function_name@,
{
    let name = String::from_str(interface_path);
    let name = name.concat(":");
    DispatchError::InvalidFunction(name.concat(function_name))
}

/// Whether `exports` lists the export `(interface path, function name)`.
pub open spec fn lists_export(exports: Seq<(String, String)>, export: (Seq<char>, Seq<char>)) -> bool {
    exists|i: int| 0 <= i < exports.len() && (#[trigger] exports[i]).0@ == export.0 && exports[i].1@ == export.1
}

/// Whether the export that serves a requested function is one of the
/// plugin's WIT-async exports, which are listed as `(interface path,
/// function name)` pairs.
pub fn export_is_async(
    interface_remaps: &NameMap<Remap>,
    async_exports: &[(String, String)],
    package_name: &str,
    interface_name: &str,
    function_name: &str,
) -> (is_async: bool)
    ensures
        is_async == lists_export(
            async_exports@,
            spec_resolve_export(
                remaps_view(interface_remaps@),
                package_name@,
                interface_name@,
                function_name@,
            ),
        ),
{
    let (path, name) = resolve_export(interface_remaps, package_name, interface_name, function_name);
    let mut i: usize = 0;
    while i < async_exports.len()
        invariant
            i <= async_exports@.len(),
            (path@, name@) == spec_resolve_export(
                remaps_view(interface_remaps@),
                package_name@,
                interface_name@,
                function_name@,
            ),
            forall|j: int|
                0 <= j < i ==> !((#[trigger] async_exports@[j]).0@ == path@ && async_exports@[j].1@
                    == name@),
        decreases async_exports@.len() - i,
    {
        if async_exports[i].0 == path && async_exports[i].1 == name {
            assert(async_exports@[i as int].0@ == path@ && async_exports@[i as int].1@ == name@);
            return true;
        }
        i = i + 1;
    }
    false
}

/// The work that one caller has outstanding.
#[derive(Debug, Clone, Copy, PartialEq, Eq, Structural)]
pub struct Budget {
    /// Calls not yet answered.
    pub calls: usize,
    /// Argument bytes those calls retain.
    pub bytes: usize,
}

impl Default for Budget {
    fn default() -> (budget: Self)
        ensures
            budget.calls == 0 && budget.bytes == 0,
    {
        Budget { calls: 0, bytes: 0 }
    }
}

/// The work waiting for one destination plugin.
#[derive(Debug, Clone, Copy, PartialEq, Eq, Structural)]
pub struct DispatchQueue {
    /// Calls waiting or running.
    pub calls: usize,
    /// Argument bytes those calls retain.
    pub bytes: usize,
}

impl Default for DispatchQueue {
    fn default() -> (queue: Self)
        ensures
            queue.calls == 0 && queue.bytes == 0,
    {
        DispatchQueue { calls: 0, bytes: 0 }
    }
}

/// A new call retaining `bytes` argument bytes fits within the limits of
/// its caller and of its destination: each may take one more call, and
/// neither's bytes would exceed its limit with the new ones added.
pub open spec fn admits(caller: Budget, destination: DispatchQueue, bytes: usize) -> bool {
    &&& caller.calls < MAX_CALLER_CALLS
    &&& caller.bytes + bytes <= MAX_CALLER_BYTES
    &&& destination.calls < MAX_DESTINATION_CALLS
    &&& destination.bytes + bytes <= MAX_DESTINATION_BYTES
}

/// Whether a new call retaining `bytes` argument bytes may be queued; a
/// call that is refused is answered with
/// [`DispatchError::DispatchQueueFull`].
pub fn has_capacity(caller: &Budget, destination: &DispatchQueue, bytes: usize) -> (admitted: bool)
    ensures
        admitted == admits(*caller, *destination, bytes),
{
    if caller.calls >= MAX_CALLER_CALLS || destination.calls >= MAX_DESTINATION_CALLS {
        return false;
    }
    let caller_fits = match caller.bytes.checked_add(bytes) {
        Some(total) => total <= MAX_CALLER_BYTES,
        None => false,
    };
    let destination_fits = match destination.bytes.checked_add(bytes) {
        Some(total) => total <= MAX_DESTINATION_BYTES,
        None => false,
    };
    caller_fits && destination_fits
}

/// Less outstanding work is never refused where more was admitted: a call
/// admitted for some caller, destination and size is admitted for any
/// caller and destination with no more calls and bytes, and any smaller
/// size.
pub proof fn law_admission_monotone(
    caller: Budget,
    destination: DispatchQueue,
    bytes: usize,
    lighter_caller: Budget,
    lighter_destination: DispatchQueue,
    fewer_bytes: usize,
)
    requires
        admits(caller, destination, bytes),
        lighter_caller.calls <= caller.calls,
        lighter_caller.bytes <= caller.bytes,
        lighter_destination.calls <= destination.calls,
        lighter_destination.bytes <= destination.bytes,
        fewer_bytes <= bytes,
    ensures
        admits(lighter_caller, lighter_destination, fewer_bytes),
{
}


/// Admits a new call retaining `bytes` argument bytes from `caller` to
/// `destination`, or refuses it.
///
/// A call within the limits of both is admitted and counted against both;
/// any other call is refused with [`DispatchError::DispatchQueueFull`] and
/// changes nothing, so the destination is not called.
pub fn admit_call(caller: &mut Budget, destination: &mut DispatchQueue, bytes: usize) -> (admitted:
    Result<(), DispatchError>)
    ensures
        admitted is Ok <==> admits(*old(caller), *old(destination), bytes),
        match admitted {
            Ok(()) => {
                &&& final(caller).calls == old(caller).calls + 1
                &&& final(caller).bytes == old(caller).bytes + bytes
                &&& final(destination).calls == old(destination).calls + 1
                &&& final(destination).bytes == old(destination).bytes + bytes
            },
            Err(error) => {
                &&& error matches DispatchError::DispatchQueueFull
                &&& *final(caller) == *old(caller)
                &&& *final(destination) == *old(destination)
            },
        },
{
    if !has_capacity(caller, destination, bytes) {
        return Err(DispatchError::DispatchQueueFull);
    }
    caller.calls = caller.calls + 1;
    caller.bytes = caller.bytes + bytes;
    destination.calls = destination.calls + 1;
    destination.bytes = destination.bytes + bytes;
    Ok(())
}

/// Releases a call retaining `bytes` argument bytes once it is answered:
/// the caller and the destination each count one call and `bytes` bytes
/// less, never below zero.
pub fn release_call(caller: &mut Budget, destination: &mut DispatchQueue, bytes: usize)
    ensures
        final(caller).calls == if old(caller).calls > 0 { old(caller).calls - 1 } else { 0 },
        final(caller).bytes == if old(caller).bytes >= bytes { old(caller).bytes - bytes } else { 0 },
        final(destination).calls == if old(destination).calls > 0 {
            old(destination).calls - 1
        } else {
            0
        },
        final(destination).bytes == if old(destination).bytes >= bytes {
            old(destination).bytes - bytes
        } else {
            0
        },
{
    caller.calls = if caller.calls > 0 { caller.calls - 1 } else { 0 };
    caller.bytes = if caller.bytes >= bytes { caller.bytes - bytes } else { 0 };
    destination.calls = if destination.calls > 0 { destination.calls - 1 } else { 0 };
    destination.bytes = if destination.bytes >= bytes { destination.bytes - bytes } else { 0 };
}

/// Releasing an admitted call gives back the budgets it was admitted
/// against.
pub proof fn law_release_undoes_admission(
    caller: Budget,
    destination: DispatchQueue,
    bytes: usize,
    admitted_caller: Budget,
    admitted_destination: DispatchQueue,
)
    requires
        admits(caller, destination, bytes),
        admitted_caller.calls == caller.calls + 1,
        admitted_caller.bytes == caller.bytes + bytes,
        admitted_destination.calls == destination.calls + 1,
        admitted_destination.bytes == destination.bytes + bytes,
    ensures
        (if admitted_caller.calls > 0 { admitted_caller.calls - 1 } else { 0 }) == caller.calls,
        (if admitted_caller.bytes >= bytes { admitted_caller.bytes - bytes } else { 0 })
            == caller.bytes,
        (if admitted_destination.calls > 0 { admitted_destination.calls - 1 } else { 0 })
            == destination.calls,
        (if admitted_destination.bytes >= bytes { admitted_destination.bytes - bytes } else { 0 })
            == destination.bytes,
{
}


/// Admitted work never exceeds the limits: a call is admitted exactly when,
/// counted with it, its caller and its destination stay within their limits
/// on calls and on bytes.
pub proof fn law_admitted_work_stays_within_limits(
    caller: Budget,
    destination: DispatchQueue,
    bytes: usize,
)
    ensures
        admits(caller, destination, bytes) <==> (caller.calls + 1 <= MAX_CALLER_CALLS && caller.bytes
            + bytes <= MAX_CALLER_BYTES && destination.calls + 1 <= MAX_DESTINATION_CALLS
            && destination.bytes + bytes <= MAX_DESTINATION_BYTES),
{
}
} // verus!
