use wasm_link::{IdMap, NameMap, NameSet};

#[test]
fn a_name_map_holds_the_last_value_of_each_name() {
	let mut map = NameMap::from_pairs(vec![("a".to_string(), 1), ("b".to_string(), 2), ("a".to_string(), 3)]);
	assert_eq!(map.len(), 2);
	assert_eq!(map.get("a"), Some(&3));
	assert_eq!(map.get("c"), None);
	assert_eq!(map.insert("c".to_string(), 4), None);
	assert_eq!(map.insert("b".to_string(), 5), Some(2));
	assert_eq!(map.get("b"), Some(&5));
	assert!(map.contains_key("c"));
	assert_eq!(map.len(), 3);
	let doubled = map.map_values(|v| v * 2);
	assert_eq!(doubled.get("c"), Some(&8));
	assert_eq!(doubled.len(), 3);
}

#[test]
fn a_name_set_keeps_each_name_once() {
	let set = NameSet::from_names(vec!["x".to_string(), "y".to_string(), "x".to_string()]);
	assert_eq!(set.len(), 2);
	assert!(set.contains_key("x") && set.contains_key("y") && !set.contains_key("z"));
}

#[test]
fn an_id_map_reads_back_what_was_written() {
	let mut map: IdMap<u64, &str> = IdMap::new();
	assert!(map.is_empty());
	assert_eq!(map.insert(7, "seven"), None);
	assert_eq!(map.insert(8, "eight"), None);
	assert_eq!(map.insert(7, "SEVEN"), Some("seven"));
	assert_eq!(map.get(&7), Some(&"SEVEN"));
	assert_eq!(map.get(&9), None);
	assert_eq!(map.len(), 2);
	let lengths = map.map_ref(|_, v| v.len());
	assert_eq!(lengths.get(&8), Some(&5));
	let mut pairs = map.into_pairs();
	pairs.sort();
	assert_eq!(pairs, vec![(7, "SEVEN"), (8, "eight")]);
}
