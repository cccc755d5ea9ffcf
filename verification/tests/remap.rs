use wasm_link::remap::{interface_path, resolve_export};
use wasm_link::{NameMap, Remap};

fn table(pairs: Vec<(&str, &str)>) -> NameMap<String> {
	NameMap::from_pairs(pairs.into_iter().map(|(a, b)| (a.to_string(), b.to_string())).collect())
}

#[test]
fn a_remap_names_the_exported_interface_and_items() {
	let found = Remap::found_as("exported".to_string());
	assert_eq!(found.interface_name("requested"), "exported");
	assert_eq!(found.item_name("get"), "get");

	let item = Remap::resolves_item("get".to_string(), "fetch".to_string());
	assert_eq!(item.interface_name("requested"), "requested");
	assert_eq!(item.item_name("get"), "fetch");
	assert_eq!(item.item_name("put"), "put");

	let both = Remap::found_as_with_item_resolution_table("exported".to_string(), table(vec![("a", "b")]));
	assert_eq!(both.interface_name("requested"), "exported");
	assert_eq!(both.item_name("a"), "b");

	let items = Remap::item_resolution_table(table(vec![("x", "y"), ("x", "z")]));
	assert_eq!(items.interface_name("requested"), "requested");
	assert_eq!(items.item_name("x"), "z");
}

#[test]
fn exports_are_resolved_through_the_remap_of_their_interface() {
	let remaps = NameMap::from_pairs(vec![
		("example".to_string(), Remap::found_as_with_item_resolution_table("impl".to_string(), table(vec![("get", "fetch")]))),
		("other".to_string(), Remap::resolves_item("run".to_string(), "start".to_string())),
	]);
	assert_eq!(resolve_export(&remaps, "my:pkg", "example", "get"), ("my:pkg/impl".to_string(), "fetch".to_string()));
	assert_eq!(resolve_export(&remaps, "my:pkg", "example", "put"), ("my:pkg/impl".to_string(), "put".to_string()));
	assert_eq!(resolve_export(&remaps, "my:pkg", "other", "run"), ("my:pkg/other".to_string(), "start".to_string()));
}

#[test]
fn unremapped_exports_keep_their_names() {
	let remaps = NameMap::from_pairs(vec![("other".to_string(), Remap::item_resolution_table(table(vec![])))]);
	assert_eq!(resolve_export(&remaps, "my:pkg", "example", "get"), ("my:pkg/example".to_string(), "get".to_string()));
	assert_eq!(resolve_export(&remaps, "my:pkg", "other", "get"), ("my:pkg/other".to_string(), "get".to_string()));
	assert_eq!(resolve_export(&NameMap::new(), "", "", ""), ("/".to_string(), String::new()));
	assert_eq!(interface_path("wasi:io", "streams"), "wasi:io/streams");
}

#[test]
fn remaps_compare_by_what_they_rename() {
	assert_eq!(Remap::default(), Remap::item_resolution_table(NameMap::new()));
	assert_eq!(Remap::found_as("exported".to_string()), Remap::found_as("exported".to_string()));
	assert_ne!(Remap::found_as("exported".to_string()), Remap::default());
	assert_eq!(
		Remap::item_resolution_table(table(vec![("a", "b"), ("c", "d")])),
		Remap::item_resolution_table(table(vec![("c", "d"), ("a", "b")]))
	);
	assert_ne!(
		Remap::item_resolution_table(table(vec![("a", "b")])),
		Remap::item_resolution_table(table(vec![("a", "c")]))
	);
	assert_ne!(
		Remap::item_resolution_table(table(vec![("a", "b")])),
		Remap::item_resolution_table(table(vec![("x", "b")]))
	);
	let remap = Remap::resolves_item("a".to_string(), "b".to_string());
	assert_eq!(remap.clone(), remap);
}
