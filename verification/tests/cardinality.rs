use wasm_link::cardinality::{Any, AtLeastOne, AtMostOne, Cardinality, ExactlyOne};
use wasm_link::{IdMap, Value};

fn ids(pairs: Vec<(&str, u32)>) -> IdMap<String, u32> {
	IdMap::from_pairs(pairs.into_iter().map(|(id, value)| (id.to_string(), value)).collect())
}

#[test]
fn cardinality_exactly_one_maps_and_gets() {
	let value = ExactlyOne("plugin".to_string(), 10_u32);
	let mapped = value.map(|id, v| format!("{id}:{v}"));
	assert_eq!(mapped.0, "plugin");
	assert_eq!(mapped.1, "plugin:10");
	assert_eq!(mapped.get(&"plugin".to_string()), Some(&"plugin:10".to_string()));
}

#[test]
fn cardinality_at_most_one_maps_none_and_some() {
	let none: AtMostOne<String, u32> = AtMostOne(None);
	let mapped_none = none.map(|_, v| v + 1);
	assert!(mapped_none.0.is_none());

	let some = AtMostOne(Some(("plugin".to_string(), 3_u32)));
	let mapped_some = some.map(|_, v| v + 1);
	assert_eq!(mapped_some.0, Some(("plugin".to_string(), 4)));
}

#[test]
fn cardinality_at_least_one_maps_and_gets() {
	let values = AtLeastOne::try_new(ids(vec![("a", 1), ("b", 2)])).unwrap();
	let mapped = values.map(|_, v| v * 2);
	assert_eq!(mapped.get(&"a".to_string()), Some(&2));
	assert_eq!(mapped.get(&"b".to_string()), Some(&4));
}

#[test]
fn cardinality_any_maps_and_gets() {
	let values = Any(ids(vec![("a", 1), ("b", 2)]));
	let mapped = values.map(|_, v| v + 10);
	assert_eq!(mapped.get(&"a".to_string()), Some(&11));
	assert_eq!(mapped.get(&"b".to_string()), Some(&12));
}

#[test]
fn cardinality_tests_exactly_one_maps_and_gets() {
	let value = ExactlyOne("plugin".to_string(), 10_u32);
	let mapped = value.map(|id, value| format!("{id}:{value}"));
	assert_eq!(mapped.0, "plugin");
	assert_eq!(mapped.1, "plugin:10");
	assert_eq!(mapped.get(&"plugin".to_string()), Some(&"plugin:10".to_string()));
}

#[test]
fn cardinality_tests_at_most_one_maps_none_and_some() {
	let none: AtMostOne<String, u32> = AtMostOne(None);
	let mapped_none = none.map(|_, value| value + 1);
	assert!(mapped_none.0.is_none());
	assert_eq!(mapped_none.get(&"plugin".to_string()), None);

	let none: AtMostOne<String, u32> = AtMostOne(None);
	assert!(none.map_mut(|value| value + 1).0.is_none());

	let some = AtMostOne(Some(("plugin".to_string(), 3_u32)));
	let mapped_some = some.map(|_, value| value + 1);
	assert_eq!(mapped_some.0, Some(("plugin".to_string(), 4)));
	assert_eq!(mapped_some.get(&"plugin".to_string()), Some(&4));

	let some = AtMostOne(Some(("plugin".to_string(), 3_u32)));
	assert_eq!(some.map_mut(|value| value + 1).0, Some(("plugin".to_string(), 4)));
}

#[test]
fn cardinality_tests_at_least_one_maps_and_gets() {
	let values = AtLeastOne::try_new(ids(vec![("a", 1), ("b", 2)])).unwrap();
	let mapped = values.map(|_, value| value * 2);
	assert_eq!(mapped.get(&"a".to_string()), Some(&2));
	assert_eq!(mapped.get(&"b".to_string()), Some(&4));

	let values = AtLeastOne::try_new(ids(vec![("a", 1), ("b", 2)])).unwrap();
	let mapped = values.map_mut(|value| value * 2);
	assert_eq!(mapped.get(&"a".to_string()), Some(&2));
	assert_eq!(mapped.get(&"b".to_string()), Some(&4));
}

#[test]
fn cardinality_tests_any_maps_and_gets() {
	let values = Any(ids(vec![("a", 1), ("b", 2)]));
	let mapped = values.map(|_, value| value + 10);
	assert_eq!(mapped.get(&"a".to_string()), Some(&11));
	assert_eq!(mapped.get(&"b".to_string()), Some(&12));
}

#[test]
fn at_least_one_refuses_an_empty_map() {
	assert!(AtLeastOne::try_new(IdMap::<String, u32>::new()).is_none());
}

#[test]
fn any_map_mut_keeps_ids() {
	let values = Any(ids(vec![("a", 1), ("b", 2), ("a", 5)]));
	assert_eq!(values.0.len(), 2);
	let mapped = values.map_mut(|value| value * 3);
	assert_eq!(mapped.get(&"a".to_string()), Some(&15));
	assert_eq!(mapped.get(&"b".to_string()), Some(&6));
	assert_eq!(mapped.get(&"c".to_string()), None);
}

#[test]
fn cardinality_tests_exactly_one_into_val() {
	let val = ExactlyOne("id".to_string(), Value::U32(7)).into_value();
	assert!(matches!(val, Value::Tuple(items) if
		items.len() == 2
		&& matches!(&items[0], Value::String(id) if id == "id")
		&& matches!(&items[1], Value::U32(7))
	));
}

#[test]
fn cardinality_tests_at_most_one_into_val() {
	let none = AtMostOne::<String, Value>(None).into_value();
	assert!(matches!(none, Value::Option(None)));

	let some = AtMostOne(Some(("id".to_string(), Value::U32(1)))).into_value();
	assert!(matches!(some, Value::Option(Some(boxed)) if
		matches!(&*boxed, Value::Tuple(items) if
			items.len() == 2
			&& matches!(&items[0], Value::String(id) if id == "id")
			&& matches!(&items[1], Value::U32(1))
		)
	));
}

#[test]
fn cardinality_tests_at_least_one_into_val() {
	let val = AtLeastOne::try_new(IdMap::from_pairs(vec![("a".to_string(), Value::U32(1))])).unwrap().into_value();
	assert!(matches!(val, Value::Entries(items) if
		items.len() == 1
		&& matches!(&items[0], (Value::String(id), Value::U32(1)) if id == "a")
	));
}

#[test]
fn cardinality_tests_any_into_val() {
	let val = Any(IdMap::from_pairs(vec![
		("a".to_string(), Value::U32(1)),
		("b".to_string(), Value::U32(2)),
	])).into_value();
	assert!(matches!(val, Value::Entries(items) if
		items.len() == 2
		&& items.iter().any(|(key, value)|
			matches!((key, value), (Value::String(id), Value::U32(1)) if id == "a")
		)
		&& items.iter().any(|(key, value)|
			matches!((key, value), (Value::String(id), Value::U32(2)) if id == "b")
		)
	));
}

#[test]
fn cardinality_exactly_one_into_val() {
	let val = ExactlyOne("id".to_string(), Value::U32(7)).into_value();
	match val {
		Value::Tuple(items) => {
			assert_eq!(items.len(), 2);
			assert!(matches!(&items[0], Value::String(s) if s == "id"));
			assert!(matches!(&items[1], Value::U32(7)));
		}
		other => panic!("expected tuple, got {other:?}"),
	}
}

#[test]
fn cardinality_at_most_one_into_val() {
	let none = AtMostOne::<String, Value>(None).into_value();
	assert!(matches!(none, Value::Option(None)));

	let some = AtMostOne(Some(("id".to_string(), Value::U32(1)))).into_value();
	match some {
		Value::Option(Some(boxed)) => match *boxed {
			Value::Tuple(items) => {
				assert_eq!(items.len(), 2);
				assert!(matches!(&items[0], Value::String(s) if s == "id"));
				assert!(matches!(&items[1], Value::U32(1)));
			}
			other => panic!("expected tuple, got {other:?}"),
		},
		other => panic!("expected option, got {other:?}"),
	}
}

#[test]
fn an_empty_any_becomes_an_empty_map() {
	let val = Any::<String, Value>(IdMap::new()).into_value();
	assert_eq!(val, Value::Entries(vec![]));
}

#[test]
fn cloned_wrappers_hold_the_same_plugins() {
	let at_least_one = AtLeastOne::try_new(ids(vec![("a", 1), ("b", 2)])).unwrap();
	let copy = at_least_one.clone();
	assert_eq!(copy.get(&"a".to_string()), Some(&1));
	assert_eq!(copy.get(&"b".to_string()), Some(&2));
	let any = Any(ids(vec![("x", 7)]));
	assert_eq!(any.clone().get(&"x".to_string()), Some(&7));
	let one = ExactlyOne("p".to_string(), 3_u32);
	assert_eq!(one.clone().1, 3);
}

#[test]
fn integer_plugin_ids_key_the_maps_too() {
	let mut map: IdMap<u64, &str> = IdMap::new();
	map.insert(7, "seven");
	map.insert(9, "nine");
	map.insert(7, "again");
	let values = Any(map);
	assert_eq!(values.get(&7), Some(&"again"));
	assert_eq!(values.get(&9), Some(&"nine"));
	assert_eq!(values.get(&8), None);
}
