use std::sync::Arc;

use wasm_link::transfer::{plan_transfer, replace_resources, settle_transfer};
use wasm_link::wrapper_table::{attach, attach_all, detach, lookup, ResourceWrapper};
use wasm_link::{DispatchError, ResourceCreationError, ResourceReceiveError, Value};
use wasmtime::component::{Resource, ResourceAny, ResourceTable};
use wasmtime::{Engine, Store};

fn handles(store: &mut Store<()>, count: u32) -> Vec<ResourceAny> {
	(0..count)
		.map(|rep| ResourceAny::try_from_resource(Resource::<u32>::new_own(rep), &mut *store).unwrap())
		.collect()
}

/// Moves `value` out of plugin `plugin_id` as the runtime does: plan, wrap
/// each planned handle in `table`, hand the wrappers out as host resources,
/// and settle.
fn transfer(value: Value, plugin_id: &str, table: &mut ResourceTable, store: &mut Store<()>) -> Result<Value, DispatchError> {
	let (planned, _) = plan_transfer(&value);
	let keys = attach_all(table, &plugin_id.to_string(), &planned);
	let outcomes: Vec<Result<ResourceAny, ResourceCreationError>> = keys
		.into_iter()
		.map(|key| key.map(|key| {
			ResourceAny::try_from_resource(Resource::<Arc<ResourceWrapper>>::new_own(key), &mut *store).unwrap()
		}))
		.collect();
	settle_transfer(value, outcomes)
}

/// The plugin and handle that a wrapped handle stands for.
fn owner_of(handle: ResourceAny, table: &ResourceTable, store: &mut Store<()>) -> Result<(String, ResourceAny), ResourceReceiveError> {
	let resource = Resource::<Arc<ResourceWrapper>>::try_from_resource_any(handle, &mut *store)
		.map_err(|_| ResourceReceiveError::InvalidHandle)?;
	lookup(table, resource.rep())
}

fn resources_of(value: &Value) -> Vec<ResourceAny> {
	plan_transfer(value).0
}

#[test]
fn wraps_nested_component_values_without_resources() -> Result<(), DispatchError> {
	let values = || [
		Value::Bool(true),
		Value::List(vec![Value::U32(1)]),
		Value::Entries(vec![(Value::String("key".to_string()), Value::U32(2))]),
		Value::Record(vec![("field".to_string(), Value::U32(3))]),
		Value::Tuple(vec![Value::U32(4)]),
		Value::Variant("value".to_string(), Some(Box::new(Value::U32(5)))),
		Value::Option(Some(Box::new(Value::U32(6)))),
		Value::Result(Ok(Some(Box::new(Value::U32(7))))),
		Value::Result(Err(Some(Box::new(Value::U32(8))))),
	];
	let mut store = Store::new(&Engine::default(), ());
	let mut table = ResourceTable::new();
	for (value, expected) in values().into_iter().zip(values()) {
		let wrapped = transfer(value, "plugin", &mut table, &mut store)?;
		assert_eq!(wrapped, expected);
	}
	assert!(table.is_empty());
	Ok(())
}

#[test]
fn rejects_async_values_during_cross_plugin_transfer() {
	let mut store = Store::new(&Engine::default(), ());
	let mut table = ResourceTable::new();
	assert!(matches!(
		transfer(Value::Future, "plugin", &mut table, &mut store),
		Err(DispatchError::UnsupportedType(name)) if name == "future"
	));
	assert!(matches!(
		transfer(Value::Stream, "plugin", &mut table, &mut store),
		Err(DispatchError::UnsupportedType(name)) if name == "stream"
	));
}

#[test]
fn rejects_error_contexts_during_cross_plugin_transfer() {
	let mut store = Store::new(&Engine::default(), ());
	let mut table = ResourceTable::new();
	assert!(matches!(
		transfer(Value::ErrorContext, "plugin", &mut table, &mut store),
		Err(DispatchError::UnsupportedType(name)) if name == "error-context"
	));
}

#[test]
fn plans_every_resource_in_pre_order() {
	let mut store = Store::new(&Engine::default(), ());
	let handles = handles(&mut store, 4);
	let value = Value::Record(vec![
		("first".to_string(), Value::Resource(handles[0])),
		("nested".to_string(), Value::List(vec![
			Value::Option(Some(Box::new(Value::Resource(handles[1])))),
			Value::U8(9),
		])),
		("map".to_string(), Value::Entries(vec![(Value::Resource(handles[2]), Value::Resource(handles[3]))])),
	]);
	let (planned, stop) = plan_transfer(&value);
	assert_eq!(planned, handles);
	assert_eq!(stop, None);
}

#[test]
fn wrapped_resources_resolve_back_to_their_owner() {
	let mut store = Store::new(&Engine::default(), ());
	let handles = handles(&mut store, 3);
	let value = Value::Tuple(vec![
		Value::Resource(handles[0]),
		Value::Variant("v".to_string(), Some(Box::new(Value::Resource(handles[1])))),
		Value::Entries(vec![(Value::U8(1), Value::Resource(handles[2]))]),
	]);
	let mut table = ResourceTable::new();
	let moved = transfer(value, "owner", &mut table, &mut store).unwrap();
	let wrapped = resources_of(&moved);
	assert_eq!(wrapped.len(), 3);
	for (wrapper, original) in wrapped.iter().zip(handles.iter()) {
		assert_ne!(wrapper, original);
		assert_eq!(owner_of(*wrapper, &table, &mut store).unwrap(), ("owner".to_string(), *original));
	}
	assert!(matches!(&moved, Value::Tuple(items) if items.len() == 3 && items[0] == Value::Resource(wrapped[0])));
}

#[test]
fn a_full_resource_table_stops_the_transfer() {
	let mut store = Store::new(&Engine::default(), ());
	let handles = handles(&mut store, 2);
	let value = Value::Tuple(vec![Value::Resource(handles[0]), Value::Resource(handles[1]), Value::Future]);
	let mut table = ResourceTable::new();
	table.set_max_capacity(1);
	assert!(matches!(
		transfer(value, "plugin", &mut table, &mut store),
		Err(DispatchError::ResourceCreationError(ResourceCreationError::ResourceTableFull))
	));
	let keys = attach_all(&mut table, &"plugin".to_string(), &handles);
	assert_eq!(keys, vec![Err(ResourceCreationError::ResourceTableFull)]);
}

#[test]
fn an_unsupported_kind_before_any_resource_attaches_nothing() {
	let mut store = Store::new(&Engine::default(), ());
	let handles = handles(&mut store, 1);
	let value = Value::List(vec![Value::Stream, Value::Resource(handles[0])]);
	let (planned, stop) = plan_transfer(&value);
	assert!(planned.is_empty());
	assert_eq!(stop, Some("stream".to_string()));
	let mut table = ResourceTable::new();
	assert!(matches!(
		transfer(value, "plugin", &mut table, &mut store),
		Err(DispatchError::UnsupportedType(name)) if name == "stream"
	));
	assert!(table.is_empty());
}

#[test]
fn resources_before_an_unsupported_kind_are_attached_first() {
	let mut store = Store::new(&Engine::default(), ());
	let handles = handles(&mut store, 1);
	let value = Value::List(vec![Value::Resource(handles[0]), Value::ErrorContext]);
	let (planned, stop) = plan_transfer(&value);
	assert_eq!(planned, handles);
	assert_eq!(stop, Some("error-context".to_string()));
	let mut table = ResourceTable::new();
	assert!(matches!(
		transfer(value, "plugin", &mut table, &mut store),
		Err(DispatchError::UnsupportedType(name)) if name == "error-context"
	));
	assert!(!table.is_empty());
}

#[test]
fn replacing_resources_keeps_the_shape() {
	let mut store = Store::new(&Engine::default(), ());
	let handles = handles(&mut store, 4);
	let value = Value::Record(vec![
		("a".to_string(), Value::Resource(handles[0])),
		("b".to_string(), Value::Option(Some(Box::new(Value::Resource(handles[1]))))),
	]);
	let moved = replace_resources(value, vec![handles[2], handles[3]]);
	assert_eq!(moved, Value::Record(vec![
		("a".to_string(), Value::Resource(handles[2])),
		("b".to_string(), Value::Option(Some(Box::new(Value::Resource(handles[3]))))),
	]));
}

#[test]
fn moved_values_move_again() {
	let mut store = Store::new(&Engine::default(), ());
	let handles = handles(&mut store, 1);
	let value = Value::Variant("v".to_string(), Some(Box::new(Value::Tuple(vec![
		Value::Resource(handles[0]),
		Value::String("s".to_string()),
	]))));
	let mut table = ResourceTable::new();
	let moved = transfer(value, "first", &mut table, &mut store).unwrap();
	assert!(wasm_link::value::ensure_supported_value(&moved).is_ok());
	let first_wrapper = resources_of(&moved)[0];
	let moved_again = transfer(moved, "second", &mut table, &mut store).unwrap();
	let second_wrapper = resources_of(&moved_again)[0];
	assert_eq!(owner_of(second_wrapper, &table, &mut store).unwrap(), ("second".to_string(), first_wrapper));
	assert_eq!(owner_of(first_wrapper, &table, &mut store).unwrap(), ("first".to_string(), handles[0]));
}

#[test]
fn attached_wrapper_can_be_looked_up_and_dropped() {
	let mut store = Store::new(&Engine::default(), ());
	let handle = handles(&mut store, 1)[0];
	let mut table = ResourceTable::new();
	let key = attach(&mut table, &"plugin".to_string(), handle).unwrap();
	assert_eq!(lookup(&table, key).unwrap(), ("plugin".to_string(), handle));
	assert!(detach(&mut table, key).is_ok());
	assert_eq!(lookup(&table, key), Err(ResourceReceiveError::InvalidHandle));
	assert_eq!(detach(&mut table, key), Err(ResourceReceiveError::InvalidHandle));
}

#[test]
fn lookup_refuses_keys_that_hold_other_entries() {
	let mut table = ResourceTable::new();
	let other = table.push(5_u32).unwrap();
	assert_eq!(lookup(&table, other.rep()), Err(ResourceReceiveError::InvalidHandle));
	assert_eq!(lookup(&table, 99), Err(ResourceReceiveError::InvalidHandle));
}

#[test]
fn a_table_with_room_takes_every_handle() {
	let mut store = Store::new(&Engine::default(), ());
	let handles = handles(&mut store, 3);
	let mut table = ResourceTable::new();
	table.set_max_capacity(3);
	let keys = attach_all(&mut table, &"plugin".to_string(), &handles);
	assert_eq!(keys.len(), 3);
	for (key, handle) in keys.iter().zip(handles.iter()) {
		let key = key.unwrap();
		assert_eq!(lookup(&table, key).unwrap(), ("plugin".to_string(), *handle));
		assert!(detach(&mut table, key).is_ok());
	}
	assert!(table.is_empty());
}
