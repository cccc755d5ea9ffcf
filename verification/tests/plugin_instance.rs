use wasm_link::plugin_instance::{admit_call, release_call};
use wasm_link::retained::{retained_bytes, value_bytes, VALUE_BYTES};
use wasm_link::plugin_instance::{
	Budget, DispatchQueue, MAX_CALLER_BYTES, MAX_CALLER_CALLS, MAX_DESTINATION_BYTES,
	MAX_DESTINATION_CALLS, call_buffer, finish_call, has_capacity, missing_function,
	missing_interface,
};
use wasm_link::plugin_instance::export_is_async;
use wasm_link::{DispatchError, FunctionKind, FunctionMetadata, NameMap, Remap, ReturnKind, Value};

#[test]
fn enforces_caller_and_destination_count_and_byte_limits() {
	assert!(has_capacity(&Budget::default(), &DispatchQueue::default(), MAX_CALLER_BYTES));
	assert!(!has_capacity(
		&Budget { calls: MAX_CALLER_CALLS, bytes: 0 }, &DispatchQueue::default(), 0,
	));
	assert!(!has_capacity(
		&Budget { calls: 0, bytes: 1 }, &DispatchQueue::default(), MAX_CALLER_BYTES,
	));
	assert!(!has_capacity(
		&Budget::default(), &DispatchQueue { calls: MAX_DESTINATION_CALLS, ..DispatchQueue::default() }, 0,
	));
	assert!(!has_capacity(
		&Budget::default(),
		&DispatchQueue { bytes: MAX_DESTINATION_BYTES, ..DispatchQueue::default() },
		1,
	));
	assert!(!has_capacity(&Budget { calls: 0, bytes: usize::MAX }, &DispatchQueue::default(), 1));
	assert!(!has_capacity(
		&Budget::default(), &DispatchQueue { bytes: usize::MAX, ..DispatchQueue::default() }, 1,
	));
}

#[test]
fn limits_match_the_documented_figures() {
	assert_eq!(MAX_CALLER_CALLS, 1024);
	assert_eq!(MAX_CALLER_BYTES, 64 * 1024 * 1024);
	assert_eq!(MAX_DESTINATION_CALLS, 4096);
	assert_eq!(MAX_DESTINATION_BYTES, 256 * 1024 * 1024);
	assert!(has_capacity(
		&Budget { calls: MAX_CALLER_CALLS - 1, bytes: 0 },
		&DispatchQueue { calls: MAX_DESTINATION_CALLS - 1, bytes: MAX_DESTINATION_BYTES - 10 },
		10,
	));
	assert!(!has_capacity(
		&Budget::default(),
		&DispatchQueue { calls: 0, bytes: MAX_DESTINATION_BYTES - 10 },
		11,
	));
}

#[test]
fn a_returning_function_gets_one_placeholder_slot() {
	let returning = FunctionMetadata::new(FunctionKind::Freestanding, ReturnKind::AssumeNoResources);
	let void = FunctionMetadata::new(FunctionKind::Freestanding, ReturnKind::Void);
	assert_eq!(call_buffer(&returning), vec![Value::Option(None)]);
	assert!(call_buffer(&void).is_empty());
}

#[test]
fn a_finished_call_gives_its_last_result() {
	let returning = FunctionMetadata::new(FunctionKind::Freestanding, ReturnKind::MayContainResources);
	let void = FunctionMetadata::new(FunctionKind::Method, ReturnKind::Void);
	assert_eq!(finish_call(&returning, vec![Value::U8(1), Value::U8(2)], Ok(())).unwrap(), Value::U8(2));
	assert_eq!(finish_call(&void, vec![Value::U8(1)], Ok(())).unwrap(), Value::Option(None));
	assert!(matches!(finish_call(&returning, vec![], Ok(())), Err(DispatchError::MissingResponse)));
	assert!(matches!(
		finish_call(&returning, vec![Value::List(vec![Value::Future])], Ok(())),
		Err(DispatchError::UnsupportedType(name)) if name == "future"
	));
	match finish_call(&returning, vec![Value::U8(1)], Err(wasmtime::Error::msg("trap"))) {
		Err(DispatchError::RuntimeException(error)) => assert_eq!(error.to_string(), "trap"),
		other => panic!("expected a runtime exception, got {other:?}"),
	}
}

#[test]
fn missing_exports_are_named() {
	assert!(matches!(
		missing_interface("my:pkg/example"),
		DispatchError::InvalidInterfacePath(path) if path == "my:pkg/example"
	));
	assert!(matches!(
		missing_function("my:pkg/example", "get-value"),
		DispatchError::InvalidFunction(name) if name == "my:pkg/example:get-value"
	));
}

#[test]
fn async_exports_are_found_under_their_remapped_names() {
	let remaps = NameMap::from_pairs(vec![(
		"example".to_string(),
		Remap::found_as_with_item_resolution_table(
			"exported".to_string(),
			NameMap::from_pairs(vec![("get".to_string(), "fetch".to_string())]),
		),
	)]);
	let async_exports = vec![
		("my:pkg/exported".to_string(), "fetch".to_string()),
		("my:pkg/plain".to_string(), "run".to_string()),
	];
	assert!(export_is_async(&remaps, &async_exports, "my:pkg", "example", "get"));
	assert!(export_is_async(&remaps, &async_exports, "my:pkg", "example", "fetch"));
	assert!(!export_is_async(&remaps, &async_exports, "my:pkg", "example", "other"));
	assert!(export_is_async(&remaps, &async_exports, "my:pkg", "plain", "run"));
	assert!(!export_is_async(&remaps, &async_exports, "my:pkg", "plain", "walk"));
	assert!(!export_is_async(&NameMap::new(), &[], "my:pkg", "plain", "run"));
}

#[test]
fn less_outstanding_work_is_never_refused() {
	let heavy = Budget { calls: 1000, bytes: 1 << 20 };
	let busy = DispatchQueue { calls: 4000, bytes: 1 << 26 };
	assert!(has_capacity(&heavy, &busy, 1 << 10));
	assert!(has_capacity(&Budget { calls: 10, bytes: 0 }, &DispatchQueue { calls: 0, bytes: 1 << 20 }, 1));
	assert!(has_capacity(&Budget::default(), &DispatchQueue::default(), 0));
}

#[test]
fn admitted_calls_count_until_released() {
	let mut caller = Budget::default();
	let mut destination = DispatchQueue::default();
	assert!(admit_call(&mut caller, &mut destination, 100).is_ok());
	assert_eq!(caller, Budget { calls: 1, bytes: 100 });
	assert_eq!(destination, DispatchQueue { calls: 1, bytes: 100 });
	release_call(&mut caller, &mut destination, 100);
	assert_eq!(caller, Budget::default());
	assert_eq!(destination, DispatchQueue::default());
	release_call(&mut caller, &mut destination, 5);
	assert_eq!(caller, Budget::default());
}

#[test]
fn over_limit_calls_are_refused_and_change_nothing() {
	let mut caller = Budget { calls: MAX_CALLER_CALLS, bytes: 0 };
	let mut destination = DispatchQueue::default();
	assert!(matches!(admit_call(&mut caller, &mut destination, 0), Err(DispatchError::DispatchQueueFull)));
	assert_eq!(caller, Budget { calls: MAX_CALLER_CALLS, bytes: 0 });
	assert_eq!(destination, DispatchQueue::default());
	let mut caller = Budget::default();
	let mut destination = DispatchQueue { calls: 0, bytes: MAX_DESTINATION_BYTES };
	assert!(matches!(admit_call(&mut caller, &mut destination, 1), Err(DispatchError::DispatchQueueFull)));
	assert_eq!(caller, Budget::default());
	let mut destination = DispatchQueue::default();
	assert!(matches!(
		admit_call(&mut caller, &mut destination, MAX_CALLER_BYTES + 1),
		Err(DispatchError::DispatchQueueFull)
	));
	assert!(admit_call(&mut caller, &mut destination, MAX_CALLER_BYTES).is_ok());
}

#[test]
fn measures_nested_retained_argument_bytes() {
	let values = vec![
		Value::String("string".to_string()),
		Value::Enum("enum".to_string()),
		Value::List(vec![Value::U8(1)]),
		Value::Tuple(vec![Value::U16(2)]),
		Value::Entries(vec![(Value::String("key".to_string()), Value::U32(3))]),
		Value::Record(vec![("field".to_string(), Value::U64(4))]),
		Value::Variant("case".to_string(), Some(Box::new(Value::Bool(true)))),
		Value::Option(Some(Box::new(Value::Char('x')))),
		Value::Result(Ok(Some(Box::new(Value::S32(-1))))),
		Value::Flags(vec!["one".to_string(), "two".to_string()]),
	];
	assert!(retained_bytes(&values).is_some_and(|bytes| bytes > std::mem::size_of_val(values.as_slice())));
}

#[test]
fn retained_bytes_count_values_and_their_text() {
	assert_eq!(value_bytes(&Value::U8(1)), Some(VALUE_BYTES));
	assert_eq!(value_bytes(&Value::String("héllo".to_string())), Some(VALUE_BYTES + 6));
	assert_eq!(
		value_bytes(&Value::Record(vec![("ab".to_string(), Value::List(vec![Value::U8(1), Value::U8(2)]))])),
		Some(VALUE_BYTES + 2 + VALUE_BYTES + 2 * VALUE_BYTES)
	);
	assert_eq!(retained_bytes(&[]), Some(0));
	assert_eq!(retained_bytes(&[Value::Bool(true), Value::Flags(vec!["x".to_string()])]), Some(2 * VALUE_BYTES + 1));
}
