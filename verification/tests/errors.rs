use wasm_link::errors::runtime_exception_value;
use wasm_link::dispatch_error::DispatchError as SyncDispatchError;
use wasm_link::{DispatchError, ResourceCreationError, ResourceReceiveError, Value};

fn variant(name: &str, text: Option<&str>) -> Value {
	Value::Variant(name.to_string(), text.map(|text| Box::new(Value::String(text.to_string()))))
}

#[test]
fn every_dispatch_error_has_its_plugin_facing_variant() {
	let cases = vec![
		(DispatchError::InvalidInterfacePath("pkg/iface".to_string()), variant("invalid-interface-path", Some("pkg/iface"))),
		(DispatchError::InvalidFunction("pkg/iface:f".to_string()), variant("invalid-function", Some("pkg/iface:f"))),
		(DispatchError::MissingResponse, variant("missing-response", None)),
		(DispatchError::InvalidArgumentList, variant("invalid-argument-list", None)),
		(DispatchError::UnsupportedType("future".to_string()), variant("unsupported-type", Some("future"))),
		(DispatchError::ResourceCreationError(ResourceCreationError::ResourceTableFull), variant("resource-table-full", None)),
		(DispatchError::ResourceReceiveError(ResourceReceiveError::InvalidHandle), variant("invalid-resource-handle", None)),
		(DispatchError::LockRejected, variant("lock-rejected", None)),
		(DispatchError::ExecutorUnavailable, variant("executor-unavailable", None)),
		(DispatchError::DispatchQueueFull, variant("dispatch-queue-full", None)),
	];
	for (error, expected) in cases {
		assert_eq!(error.into_value(), expected);
	}
}

#[test]
fn a_runtime_exception_carries_its_message() {
	let error = DispatchError::RuntimeException(wasmtime::Error::msg("trap: unreachable"));
	assert_eq!(error.into_value(), variant("runtime-exception", Some("trap: unreachable")));
}

#[test]
fn resource_errors_convert_on_their_own() {
	assert_eq!(ResourceCreationError::ResourceTableFull.into_value(), variant("resource-table-full", None));
	assert_eq!(ResourceReceiveError::InvalidHandle.into_value(), variant("invalid-resource-handle", None));
	assert!(matches!(
		DispatchError::from(ResourceCreationError::ResourceTableFull),
		DispatchError::ResourceCreationError(ResourceCreationError::ResourceTableFull)
	));
	assert!(matches!(
		DispatchError::from(ResourceReceiveError::InvalidHandle),
		DispatchError::ResourceReceiveError(ResourceReceiveError::InvalidHandle)
	));
}

#[test]
fn error_case_names_are_distinct() {
	let names: Vec<String> = vec![
		DispatchError::InvalidInterfacePath(String::new()),
		DispatchError::InvalidFunction(String::new()),
		DispatchError::MissingResponse,
		DispatchError::RuntimeException(wasmtime::Error::msg("")),
		DispatchError::InvalidArgumentList,
		DispatchError::UnsupportedType(String::new()),
		DispatchError::ResourceCreationError(ResourceCreationError::ResourceTableFull),
		DispatchError::ResourceReceiveError(ResourceReceiveError::InvalidHandle),
		DispatchError::LockRejected,
		DispatchError::ExecutorUnavailable,
		DispatchError::DispatchQueueFull,
	]
	.into_iter()
	.map(|error| match error.into_value() {
		Value::Variant(name, _) => name,
		other => panic!("expected a variant, got {other:?}"),
	})
	.collect();
	let mut unique = names.clone();
	unique.sort();
	unique.dedup();
	assert_eq!(unique.len(), names.len());
}

#[test]
fn runtime_exceptions_carry_their_message() {
	assert_eq!(
		runtime_exception_value("trap".to_string()),
		Value::Variant("runtime-exception".to_string(), Some(Box::new(Value::String("trap".to_string()))))
	);
}

#[test]
fn synchronous_errors_convert_to_and_from_concurrent_ones() {
	let converted = SyncDispatchError::from_concurrent(DispatchError::InvalidFunction("f".to_string()));
	assert!(matches!(&converted, SyncDispatchError::InvalidFunction(name) if name == "f"));
	assert!(matches!(converted.into_concurrent(), DispatchError::InvalidFunction(name) if name == "f"));
	assert_eq!(
		SyncDispatchError::UnsupportedType("stream".to_string()).into_value(),
		Value::Variant("unsupported-type".to_string(), Some(Box::new(Value::String("stream".to_string()))))
	);
	assert_eq!(
		SyncDispatchError::ResourceReceiveError(wasm_link::ResourceReceiveError::InvalidHandle).into_value(),
		Value::Variant("invalid-resource-handle".to_string(), None)
	);
}
