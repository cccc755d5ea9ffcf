use wasm_link::{FunctionKind, ReturnKind};

#[test]
fn return_kinds_describe_their_resource_handling_contract() {
	assert_eq!(ReturnKind::Void.to_string(), "Function returns no data");
	assert_eq!(ReturnKind::MayContainResources.to_string(), "Return type may contain resources");
	assert_eq!(ReturnKind::AssumeNoResources.to_string(), "Function is assumed to not return any resources");
}

#[test]
fn function_metadata_has_matching_accessors() {
	let function = wasm_link::sync::Function::new(
		FunctionKind::Method,
		ReturnKind::MayContainResources,
	);
	assert_eq!(function.kind(), FunctionKind::Method);
	assert_eq!(function.return_kind(), ReturnKind::MayContainResources);
	assert!(!function.is_async());
}

#[test]
fn concurrent_functions_round_trip_through_metadata() {
	use_round_trip(wasm_link::concurrent::Function::new_async(FunctionKind::Freestanding, ReturnKind::Void));
	use_round_trip(wasm_link::concurrent::Function::new(FunctionKind::Method, ReturnKind::AssumeNoResources));
}

fn use_round_trip(function: wasm_link::concurrent::Function) {
	let (kind, return_kind, is_async) = (function.kind(), function.return_kind(), function.is_async());
	let metadata = function.into_metadata();
	assert_eq!((metadata.kind(), metadata.return_kind(), metadata.is_async()), (kind, return_kind, is_async));
	let back = wasm_link::concurrent::Function::from_metadata(&metadata);
	assert_eq!((back.kind(), back.return_kind(), back.is_async()), (kind, return_kind, is_async));
}

#[test]
fn only_void_functions_have_no_return() {
	assert!(!ReturnKind::Void.has_return());
	assert!(ReturnKind::MayContainResources.has_return());
	assert!(ReturnKind::AssumeNoResources.has_return());
	assert_eq!(ReturnKind::default(), ReturnKind::Void);
}
