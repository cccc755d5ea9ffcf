use wasm_link::cardinality::ExactlyOne;
use wasm_link::{Binding, DispatchError, FunctionKind, FunctionMetadata, Interface, NameMap, NameSet, ReturnKind};

fn example_binding() -> Binding<ExactlyOne<String, u32>> {
	let functions = NameMap::from_pairs(vec![(
		"get-value".to_string(),
		FunctionMetadata::new(FunctionKind::Freestanding, ReturnKind::MayContainResources),
	)]);
	let interfaces = NameMap::from_pairs(vec![(
		"example".to_string(),
		Interface::new(functions, NameSet::from_names(vec![])),
	)]);
	Binding::new("my:package".to_string(), interfaces, ExactlyOne("root".to_string(), 7))
}

#[test]
fn resolves_a_declared_function() {
	let binding = example_binding();
	let function = binding.resolve_function("example", "get-value").unwrap();
	assert_eq!(function.kind(), FunctionKind::Freestanding);
	assert_eq!(function.return_kind(), ReturnKind::MayContainResources);
	assert_eq!(binding.package_name(), "my:package");
	assert_eq!(binding.plugins().1, 7);
}

#[test]
fn an_unknown_interface_is_named_by_its_path() {
	let binding = example_binding();
	assert!(matches!(
		binding.resolve_function("missing", "get-value"),
		Err(DispatchError::InvalidInterfacePath(path)) if path == "my:package/missing"
	));
}

#[test]
fn an_unknown_function_is_named() {
	let binding = example_binding();
	assert!(matches!(
		binding.resolve_function("example", "set-value"),
		Err(DispatchError::InvalidFunction(name)) if name == "set-value"
	));
}
