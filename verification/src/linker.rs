//! The host functions through which plugins call each other.
//!
//! A call from one plugin into a binding is broadcast to every plugin of
//! the binding when the function is freestanding, and routed to the plugin
//! that owns the receiver when it is a method. Each plugin's outcome reaches
//! the caller as a `result` value.

use vstd::prelude::*;

use crate::errors::{DispatchError, ResourceCreationError, ResourceReceiveError, error_case,
    error_payload};
use crate::id_map::PluginId;
use crate::interface::{FunctionMetadata, ReturnKind};
use crate::transfer::{empty_plan, follows_plan, name_view, plan_transfer, settle_transfer, settled,
    transfer_plan};
use crate::value::Value;

verus! {

/// Whether `arguments` start with a resource handle, the receiver of a
/// method call.
pub open spec fn has_receiver(arguments: Seq<Value>) -> bool {
    arguments.len() > 0 && arguments[0] is Resource
}

/// The handle that receives a method call: the first argument, which must
/// be a resource handle.
pub fn receiver_handle(arguments: &Vec<Value>) -> (handle: Result<
    wasmtime::component::ResourceAny,
    DispatchError,
>)
    ensures
        match handle {
            Ok(h) => has_receiver(arguments@) && arguments@[0] == Value::Resource(h),
            Err(error) => !has_receiver(arguments@) && error == DispatchError::InvalidArgumentList,
        },
{
    if arguments.len() == 0 {
        return Err(DispatchError::InvalidArgumentList);
    }
    match &arguments[0] {
        Value::Resource(handle) => Ok(*handle),
        _ => Err(DispatchError::InvalidArgumentList),
    }
}

/// Whether `id` names one of `plugin_ids`.
pub open spec fn names_one_of<Id: View>(plugin_ids: Seq<Id>, id: Id) -> bool {
    exists|i: int| 0 <= i < plugin_ids.len() && (#[trigger] plugin_ids[i])@ == id@
}

/// Whether `id` is among `plugin_ids`.
fn is_one_of<Id: PluginId>(plugin_ids: &[Id], id: &Id) -> (found: bool)
    ensures
        found == names_one_of(plugin_ids@, *id),
{
    let mut i: usize = 0;
    while i < plugin_ids.len()
        invariant
            i <= plugin_ids@.len(),
            forall|j: int| 0 <= j < i ==> (#[trigger] plugin_ids@[j])@ != id@,
        decreases plugin_ids@.len() - i,
    {
        if plugin_ids[i].same_id(id) {
            return true;
        }
        i = i + 1;
    }
    false
}

/// Routes a method call to the plugin that owns its receiver.
///
/// `owner` is what the resource table answered for the receiver's handle:
/// the owning plugin and the handle under which that plugin knows the
/// resource; `plugin_ids` are the plugins of the binding. The call goes to
/// the owner, with the receiver replaced by the owner's handle and every
/// other argument unchanged. An unknown handle is a
/// [`DispatchError::ResourceReceiveError`], and an owner that is not one of
/// the binding's plugins makes the argument list invalid.
pub fn route_to_owner<Id: PluginId>(
    arguments: Vec<Value>,
    owner: Result<(Id, wasmtime::component::ResourceAny), ResourceReceiveError>,
    plugin_ids: &[Id],
) -> (routed: Result<(Id, Vec<Value>), DispatchError>)
    requires
        has_receiver(arguments@),
    ensures
        match owner {
            Ok((id, handle)) => if names_one_of(plugin_ids@, id) {
                routed matches Ok((target, routed_arguments)) && target == id
                    && routed_arguments@ == arguments@.update(0, Value::Resource(handle))
            } else {
                routed matches Err(e) && e == DispatchError::InvalidArgumentList
            },
            Err(error) => routed matches Err(e) && e == DispatchError::ResourceReceiveError(error),
        },
{
    match owner {
        Ok((id, handle)) => {
            if !is_one_of(plugin_ids, &id) {
                return Err(DispatchError::InvalidArgumentList);
            }
            let mut routed = arguments;
            routed.set(0, Value::Resource(handle));
            Ok((id, routed))
        },
        Err(error) => Err(DispatchError::ResourceReceiveError(error)),
    }
}

/// The handles to wrap in a value that plugin returned from `function`, and
/// the kind that stops its transfer: the plan of the value when the
/// function's return may hold resources, nothing otherwise.
pub fn returned_transfer_plan(function: &FunctionMetadata, returned: &Value) -> (plan: (
    Vec<wasmtime::component::ResourceAny>,
    Option<String>,
))
    ensures
        plan.0@ == returned_plan(*function, *returned).0,
        name_view(plan.1) == returned_plan(*function, *returned).1,
{
    match function.return_kind() {
        ReturnKind::MayContainResources => plan_transfer(returned),
        ReturnKind::Void | ReturnKind::AssumeNoResources => (Vec::new(), None),
    }
}

/// What a transfer of a value returned from `function` has to do: the plan
/// of the value when the function's return may hold resources, nothing
/// otherwise.
pub open spec fn returned_plan(function: FunctionMetadata, returned: Value) -> (
    Seq<wasmtime::component::ResourceAny>,
    Option<Seq<char>>,
) {
    if function.spec_return_kind() == ReturnKind::MayContainResources {
        transfer_plan(returned)
    } else {
        empty_plan()
    }
}

/// Prepares the value that a plugin returned from `function` for its
/// caller, once the handles that [`returned_transfer_plan`] listed were
/// wrapped, in order, with `outcomes`.
///
/// When the function's return may hold resources, the value is settled as
/// any transfer ([`settle_transfer`]); otherwise it passes as it is.
pub fn settle_returned(
    function: &FunctionMetadata,
    returned: Value,
    outcomes: Vec<Result<wasmtime::component::ResourceAny, ResourceCreationError>>,
) -> (prepared: Result<Value, DispatchError>)
    requires
        function.spec_return_kind() == ReturnKind::MayContainResources ==> follows_plan(
            returned,
            outcomes@,
        ),
        function.spec_return_kind() != ReturnKind::MayContainResources ==> outcomes@.len() == 0,
    ensures
        function.spec_return_kind() != ReturnKind::MayContainResources ==> prepared == Ok::<
            Value,
            DispatchError,
        >(returned),
        function.spec_return_kind() == ReturnKind::MayContainResources ==> settled(
            returned,
            outcomes@,
            prepared,
        ),
        transfer_plan(returned).0.len() == 0 && transfer_plan(returned).1 is None ==> prepared
            == Ok::<Value, DispatchError>(returned),
{
    match function.return_kind() {
        ReturnKind::MayContainResources => settle_transfer(returned, outcomes),
        ReturnKind::Void | ReturnKind::AssumeNoResources => Ok(returned),
    }
}

/// One plugin's outcome as the `result` value its caller receives: the
/// returned value on success, the error's variant value on failure.
pub fn dispatch_result_value(outcome: Result<Value, DispatchError>) -> (value: Value)
    ensures
        match outcome {
            Ok(v) => value == Value::Result(Ok(Some(Box::new(v)))),
            Err(error) => value matches Value::Result(Err(Some(payload)))
                && *payload matches Value::Variant(name, detail) && name@ == error_case(error)
                && error_payload(error, detail),
        },
{
    match outcome {
        Ok(v) => Value::Result(Ok(Some(Box::new(v)))),
        Err(error) => Value::Result(Err(Some(Box::new(error.into_value())))),
    }
}

} // verus!
