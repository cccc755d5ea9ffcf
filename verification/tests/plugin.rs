use wasm_link::plugin::{ComponentShape, ItemShape, async_exports, component_contains_async, ensure_synchronous};

fn named(items: Vec<(&str, ItemShape)>) -> Vec<(String, ItemShape)> {
	items.into_iter().map(|(name, item)| (name.to_string(), item)).collect()
}

fn component(imports: Vec<(&str, ItemShape)>, exports: Vec<(&str, ItemShape)>) -> ComponentShape {
	ComponentShape { imports: named(imports), exports: named(exports) }
}

#[test]
fn a_component_without_async_functions_is_synchronous() {
	let shape = component(
		vec![("dep:pkg/api", ItemShape::Instance(named(vec![
			("get", ItemShape::Function { is_async: false }),
			("handle", ItemShape::Resource),
		])))],
		vec![
			("run", ItemShape::Function { is_async: false }),
			("t", ItemShape::Type),
			("m", ItemShape::Module),
			("f", ItemShape::CoreFunction),
		],
	);
	assert!(!component_contains_async(&shape));
	assert!(ensure_synchronous(&shape).is_ok());
	assert!(async_exports(&shape).is_empty());
}

#[test]
fn an_async_function_anywhere_is_found() {
	let imported = component(vec![("wait", ItemShape::Function { is_async: true })], vec![]);
	let in_instance = component(vec![], vec![("my:pkg/api", ItemShape::Instance(named(vec![
		("t", ItemShape::Type),
		("fetch", ItemShape::Function { is_async: true }),
	])))]);
	let in_nested = component(vec![], vec![("inner", ItemShape::Component(component(
		vec![],
		vec![("my:pkg/api", ItemShape::Instance(named(vec![("fetch", ItemShape::Function { is_async: true })])))],
	)))]);
	for shape in [imported, in_instance, in_nested] {
		assert!(component_contains_async(&shape));
		let error = ensure_synchronous(&shape).unwrap_err();
		assert_eq!(error.to_string(), "synchronous plugins cannot contain WIT-async functions");
	}
}

#[test]
fn lists_the_async_functions_of_exported_instances() {
	let shape = component(
		vec![("dep:pkg/api", ItemShape::Instance(named(vec![("pull", ItemShape::Function { is_async: true })])))],
		vec![
			("my:pkg/api", ItemShape::Instance(named(vec![
				("fetch", ItemShape::Function { is_async: true }),
				("get", ItemShape::Function { is_async: false }),
				("stream", ItemShape::Function { is_async: true }),
			]))),
			("top", ItemShape::Function { is_async: true }),
			("my:pkg/other", ItemShape::Instance(named(vec![("wait", ItemShape::Function { is_async: true })]))),
		],
	);
	assert_eq!(async_exports(&shape), vec![
		("my:pkg/api".to_string(), "fetch".to_string()),
		("my:pkg/api".to_string(), "stream".to_string()),
		("my:pkg/other".to_string(), "wait".to_string()),
	]);
}
