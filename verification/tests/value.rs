use wasm_link::value::{ensure_supported_value, ensure_supported_values};
use wasm_link::{DispatchError, Value};

fn nested_values() -> Value {
	Value::Record(vec![
		("list".to_string(), Value::List(vec![Value::U32(1)])),
		("tuple".to_string(), Value::Tuple(vec![Value::U32(2)])),
		("map".to_string(), Value::Entries(vec![(Value::String("key".to_string()), Value::U32(3))])),
		("variant".to_string(), Value::Variant("some".to_string(), Some(Box::new(Value::U32(4))))),
		("option".to_string(), Value::Option(Some(Box::new(Value::U32(5))))),
		("ok".to_string(), Value::Result(Ok(Some(Box::new(Value::U32(6)))))),
		("err".to_string(), Value::Result(Err(Some(Box::new(Value::U32(7)))))),
	])
}

#[test]
fn accepts_nested_component_values() -> Result<(), DispatchError> {
	ensure_supported_value(&nested_values())
}

#[test]
fn rejects_future_and_stream_values() {
	assert!(matches!(
		ensure_supported_value(&Value::Future),
		Err(DispatchError::UnsupportedType(name)) if name == "future"
	));
	assert!(matches!(
		ensure_supported_value(&Value::Stream),
		Err(DispatchError::UnsupportedType(name)) if name == "stream"
	));
}

#[test]
fn rejects_error_context_values() {
	assert!(matches!(
		ensure_supported_value(&Value::ErrorContext),
		Err(DispatchError::UnsupportedType(name)) if name == "error-context"
	));
}

#[test]
fn reports_the_first_unsupported_kind_in_pre_order() {
	let value = Value::Tuple(vec![
		Value::U8(1),
		Value::Option(Some(Box::new(Value::Stream))),
		Value::Future,
	]);
	assert!(matches!(
		ensure_supported_value(&value),
		Err(DispatchError::UnsupportedType(name)) if name == "stream"
	));
	let entries = Value::Entries(vec![
		(Value::String("key".to_string()), Value::Future),
		(Value::ErrorContext, Value::U8(0)),
	]);
	assert!(matches!(
		ensure_supported_value(&entries),
		Err(DispatchError::UnsupportedType(name)) if name == "future"
	));
	let key_first = Value::Entries(vec![(Value::ErrorContext, Value::Future)]);
	assert!(matches!(
		ensure_supported_value(&key_first),
		Err(DispatchError::UnsupportedType(name)) if name == "error-context"
	));
}

#[test]
fn checks_argument_lists_in_order() {
	assert!(ensure_supported_values(&[]).is_ok());
	assert!(ensure_supported_values(&[Value::Bool(true), nested_values()]).is_ok());
	assert!(matches!(
		ensure_supported_values(&[Value::Bool(true), Value::Stream, Value::Future]),
		Err(DispatchError::UnsupportedType(name)) if name == "stream"
	));
}

#[test]
fn payload_free_cases_are_supported() {
	assert!(ensure_supported_value(&Value::Variant("none".to_string(), None)).is_ok());
	assert!(ensure_supported_value(&Value::Option(None)).is_ok());
	assert!(ensure_supported_value(&Value::Result(Err(None))).is_ok());
	assert!(ensure_supported_value(&Value::Flags(vec!["a".to_string()])).is_ok());
	assert!(ensure_supported_value(&Value::Float64(0x4000_0000_0000_0000)).is_ok());
}
