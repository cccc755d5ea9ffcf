use wasm_link::linker::{dispatch_result_value, receiver_handle, returned_transfer_plan, route_to_owner, settle_returned};
use wasm_link::{DispatchError, FunctionKind, FunctionMetadata, ResourceCreationError, ResourceReceiveError, ReturnKind, Value};
use wasmtime::component::{Resource, ResourceAny};
use wasmtime::{Engine, Store};

fn two_handles() -> (ResourceAny, ResourceAny) {
	let mut store = Store::new(&Engine::default(), ());
	let owned = ResourceAny::try_from_resource(Resource::<u32>::new_own(1), &mut store).unwrap();
	let wrapped = ResourceAny::try_from_resource(Resource::<u32>::new_own(2), &mut store).unwrap();
	(owned, wrapped)
}

#[test]
fn routes_a_method_call_to_the_owner_of_its_receiver() {
	let (owned, wrapped) = two_handles();
	let arguments = vec![Value::Resource(wrapped), Value::U32(5)];
	assert_eq!(receiver_handle(&arguments).unwrap(), wrapped);
	let (plugin, routed) = route_to_owner(arguments, Ok(("owner".to_string(), owned)), &["other".to_string(), "owner".to_string()]).unwrap();
	assert_eq!(plugin, "owner");
	assert_eq!(routed, vec![Value::Resource(owned), Value::U32(5)]);
}

#[test]
fn a_method_call_needs_a_resource_receiver() {
	let (_, wrapped) = two_handles();
	assert!(matches!(receiver_handle(&vec![]), Err(DispatchError::InvalidArgumentList)));
	assert!(matches!(
		receiver_handle(&vec![Value::U32(5), Value::Resource(wrapped)]),
		Err(DispatchError::InvalidArgumentList)
	));
}

#[test]
fn an_unknown_receiver_is_an_invalid_handle() {
	let (_, wrapped) = two_handles();
	assert!(matches!(
		route_to_owner::<String>(vec![Value::Resource(wrapped)], Err(ResourceReceiveError::InvalidHandle), &["owner".to_string()]),
		Err(DispatchError::ResourceReceiveError(ResourceReceiveError::InvalidHandle))
	));
}

#[test]
fn returned_resources_are_wrapped_only_when_they_may_occur() {
	let (owned, wrapped) = two_handles();
	let returned = || Value::List(vec![Value::Resource(owned)]);
	let may = FunctionMetadata::new(FunctionKind::Freestanding, ReturnKind::MayContainResources);
	let without_resources = FunctionMetadata::new(FunctionKind::Freestanding, ReturnKind::AssumeNoResources);
	assert_eq!(returned_transfer_plan(&may, &returned()), (vec![owned], None));
	assert_eq!(returned_transfer_plan(&without_resources, &returned()), (vec![], None));
	assert_eq!(
		settle_returned(&may, returned(), vec![Ok(wrapped)]).unwrap(),
		Value::List(vec![Value::Resource(wrapped)])
	);
	assert_eq!(settle_returned(&without_resources, returned(), vec![]).unwrap(), returned());
	assert!(matches!(
		settle_returned(&may, returned(), vec![Err(ResourceCreationError::ResourceTableFull)]),
		Err(DispatchError::ResourceCreationError(ResourceCreationError::ResourceTableFull))
	));
}

#[test]
fn outcomes_become_result_values() {
	assert_eq!(
		dispatch_result_value(Ok(Value::U32(42))),
		Value::Result(Ok(Some(Box::new(Value::U32(42)))))
	);
	assert_eq!(
		dispatch_result_value(Err(DispatchError::InvalidFunction("f".to_string()))),
		Value::Result(Err(Some(Box::new(Value::Variant(
			"invalid-function".to_string(),
			Some(Box::new(Value::String("f".to_string()))),
		)))))
	);
	assert_eq!(
		dispatch_result_value(Err(DispatchError::LockRejected)),
		Value::Result(Err(Some(Box::new(Value::Variant("lock-rejected".to_string(), None)))))
	);
}

#[test]
fn an_owner_outside_the_binding_makes_the_arguments_invalid() {
	let (owned, wrapped) = two_handles();
	assert!(matches!(
		route_to_owner(vec![Value::Resource(wrapped)], Ok(("stranger".to_string(), owned)), &["owner".to_string()]),
		Err(DispatchError::InvalidArgumentList)
	));
	assert!(matches!(
		route_to_owner(vec![Value::Resource(wrapped)], Ok(("owner".to_string(), owned)), &[]),
		Err(DispatchError::InvalidArgumentList)
	));
}
