//! Component values exchanged between plugins.
//!
//! A [`Value`] is one value of the component model, as it is passed to and
//! returned from plugin functions. Handles of the asynchronous kinds
//! (`future`, `stream`, `error-context`) cannot cross from one plugin to
//! another, so a value records only that such a handle stood there.

use vstd::prelude::*;

use crate::errors::DispatchError;

verus! {

/// Declares Wasmtime's `wasmtime::component::ResourceAny`, a handle to a
/// resource that lives in a component instance's store. Values of it are
/// opaque here: they are carried, compared and copied, never looked into.
#[verifier::external_type_specification]
#[verifier::external_body]
pub struct ExResourceAny(wasmtime::component::ResourceAny);

/// A dynamically typed component-model value.
///
/// Floating-point numbers are held by their bit patterns; the variant
/// `Entries` is the component model's `map`.
#[derive(Debug, PartialEq)]
pub enum Value {
    Bool(bool),
    S8(i8),
    S16(i16),
    S32(i32),
    S64(i64),
    U8(u8),
    U16(u16),
    U32(u32),
    U64(u64),
    /// A 32-bit float, by its bit pattern.
    Float32(u32),
    /// A 64-bit float, by its bit pattern.
    Float64(u64),
    Char(char),
    String(String),
    List(Vec<Value>),
    Record(Vec<(String, Value)>),
    Tuple(Vec<Value>),
    Variant(String, Option<Box<Value>>),
    Enum(String),
    Option(Option<Box<Value>>),
    Result(Result<Option<Box<Value>>, Option<Box<Value>>>),
    Flags(Vec<String>),
    Resource(wasmtime::component::ResourceAny),
    /// A `future` handle, recorded by its kind only.
    Future,
    /// A `stream` handle, recorded by its kind only.
    Stream,
    /// An `error-context` handle, recorded by its kind only.
    ErrorContext,
    /// A map, as its key-value entries in order.
    Entries(Vec<(Value, Value)>),
}

/// The name of the first value kind, in pre-order, that cannot cross
/// between plugins (`future`, `stream` or `error-context`), if any.
pub open spec fn first_unsupported(value: Value) -> Option<Seq<char>>
    decreases value,
{
    match value {
        Value::List(items) => first_unsupported_in(items@),
        Value::Tuple(items) => first_unsupported_in(items@),
        Value::Record(fields) => first_unsupported_in_fields(fields@),
        Value::Entries(entries) => first_unsupported_in_entries(entries@),
        Value::Variant(_, Some(payload)) => first_unsupported(*payload),
        Value::Option(Some(payload)) => first_unsupported(*payload),
        Value::Result(Ok(Some(payload))) => first_unsupported(*payload),
        Value::Result(Err(Some(payload))) => first_unsupported(*payload),
        Value::Future => Some("future"@),
        Value::Stream => Some("stream"@),
        Value::ErrorContext => Some("error-context"@),
        _ => None,
    }
}

/// The first unsupported kind among `items`, taken in order.
pub open spec fn first_unsupported_in(items: Seq<Value>) -> Option<Seq<char>>
    decreases items,
{
    if items.len() == 0 {
        None
    } else {
        match first_unsupported(items[0]) {
            Some(kind) => Some(kind),
            None => first_unsupported_in(items.subrange(1, items.len() as int)),
        }
    }
}

/// The first unsupported kind among the values of record `fields`.
pub open spec fn first_unsupported_in_fields(fields: Seq<(String, Value)>) -> Option<Seq<char>>
    decreases fields,
{
    if fields.len() == 0 {
        None
    } else {
        match first_unsupported(fields[0].1) {
            Some(kind) => Some(kind),
            None => first_unsupported_in_fields(fields.subrange(1, fields.len() as int)),
        }
    }
}

/// The first unsupported kind among map `entries`, each key before its value.
pub open spec fn first_unsupported_in_entries(entries: Seq<(Value, Value)>) -> Option<Seq<char>>
    decreases entries,
{
    if entries.len() == 0 {
        None
    } else {
        match first_unsupported(entries[0].0) {
            Some(kind) => Some(kind),
            None => match first_unsupported(entries[0].1) {
                Some(kind) => Some(kind),
                None => first_unsupported_in_entries(entries.subrange(1, entries.len() as int)),
            },
        }
    }
}


/// The error for a value kind that cannot cross between plugins.
pub(crate) fn unsupported(kind: &str) -> (error: DispatchError)
    ensures
        error matches DispatchError::UnsupportedType(name) && name@ == kind@,
{
    DispatchError::UnsupportedType(String::from_str(kind))
}

/// Checks that `value` can be passed from one plugin to another.
///
/// Fails with [`DispatchError::UnsupportedType`] naming the first
/// `future`, `stream` or `error-context` found in pre-order.
pub fn ensure_supported_value(value: &Value) -> (checked: Result<(), DispatchError>)
    ensures
        match first_unsupported(*value) {
            None => checked is Ok,
            Some(kind) => checked matches Err(DispatchError::UnsupportedType(name)) && name@
                == kind,
        },
    decreases value,
{
    match value {
        Value::List(items) => {
            proof {
                assert(decreases_to!(*value => items@));
            }
            ensure_supported_values(items.as_slice())
        },
        Value::Tuple(items) => {
            proof {
                assert(decreases_to!(*value => items@));
            }
            ensure_supported_values(items.as_slice())
        },
        Value::Record(fields) => {
            proof {
                assert(decreases_to!(*value => fields@));
            }
            ensure_supported_fields(fields.as_slice())
        },
        Value::Entries(entries) => {
            proof {
                assert(decreases_to!(*value => entries@));
            }
            ensure_supported_entries(entries.as_slice())
        },
        Value::Variant(_, Some(payload)) => ensure_supported_value(payload),
        Value::Option(Some(payload)) => ensure_supported_value(payload),
        Value::Result(Ok(Some(payload))) => ensure_supported_value(payload),
        Value::Result(Err(Some(payload))) => ensure_supported_value(payload),
        Value::Future => Err(unsupported("future")),
        Value::Stream => Err(unsupported("stream")),
        Value::ErrorContext => Err(unsupported("error-context")),
        _ => Ok(()),
    }
}

/// Checks every value of `values`, in order.
pub fn ensure_supported_values(values: &[Value]) -> (checked: Result<(), DispatchError>)
    ensures
        match first_unsupported_in(values@) {
            None => checked is Ok,
            Some(kind) => checked matches Err(DispatchError::UnsupportedType(name)) && name@
                == kind,
        },
    decreases values@,
{
    let mut i: usize = 0;
    proof {
        assert(values@.subrange(0, values@.len() as int) =~= values@);
    }
    while i < values.len()
        invariant
            i <= values.len(),
            first_unsupported_in(values@) == first_unsupported_in(
                values@.subrange(i as int, values@.len() as int),
            ),
        decreases values.len() - i,
    {
        let ghost rest = values@.subrange(i as int, values@.len() as int);
        proof {
            assert(decreases_to!(values@ => values@[i as int]));
            assert(rest[0] == values@[i as int]);
            assert(rest.subrange(1, rest.len() as int) =~= values@.subrange(
                i + 1,
                values@.len() as int,
            ));
        }
        let checked = ensure_supported_value(&values[i]);
        if checked.is_err() {
            return checked;
        }
        i = i + 1;
    }
    proof {
        assert(values@.subrange(i as int, values@.len() as int).len() == 0);
    }
    Ok(())
}

/// Checks the values of record `fields`, in order.
fn ensure_supported_fields(fields: &[(String, Value)]) -> (checked: Result<(), DispatchError>)
    ensures
        match first_unsupported_in_fields(fields@) {
            None => checked is Ok,
            Some(kind) => checked matches Err(DispatchError::UnsupportedType(name)) && name@
                == kind,
        },
    decreases fields@,
{
    let mut i: usize = 0;
    proof {
        assert(fields@.subrange(0, fields@.len() as int) =~= fields@);
    }
    while i < fields.len()
        invariant
            i <= fields.len(),
            first_unsupported_in_fields(fields@) == first_unsupported_in_fields(
                fields@.subrange(i as int, fields@.len() as int),
            ),
        decreases fields.len() - i,
    {
        let ghost rest = fields@.subrange(i as int, fields@.len() as int);
        proof {
            assert(decreases_to!(fields@ => fields@[i as int].1));
            assert(rest[0] == fields@[i as int]);
            assert(rest.subrange(1, rest.len() as int) =~= fields@.subrange(
                i + 1,
                fields@.len() as int,
            ));
        }
        let checked = ensure_supported_value(&fields[i].1);
        if checked.is_err() {
            return checked;
        }
        i = i + 1;
    }
    proof {
        assert(fields@.subrange(i as int, fields@.len() as int).len() == 0);
    }
    Ok(())
}

/// Checks map `entries` in order, each key before its value.
fn ensure_supported_entries(entries: &[(Value, Value)]) -> (checked: Result<(), DispatchError>)
    ensures
        match first_unsupported_in_entries(entries@) {
            None => checked is Ok,
            Some(kind) => checked matches Err(DispatchError::UnsupportedType(name)) && name@
                == kind,
        },
    decreases entries@,
{
    let mut i: usize = 0;
    proof {
        assert(entries@.subrange(0, entries@.len() as int) =~= entries@);
    }
    while i < entries.len()
        invariant
            i <= entries.len(),
            first_unsupported_in_entries(entries@) == first_unsupported_in_entries(
                entries@.subrange(i as int, entries@.len() as int),
            ),
        decreases entries.len() - i,
    {
        let ghost rest = entries@.subrange(i as int, entries@.len() as int);
        proof {
            assert(decreases_to!(entries@ => entries@[i as int].0));
            assert(decreases_to!(entries@ => entries@[i as int].1));
            assert(rest[0] == entries@[i as int]);
            assert(rest.subrange(1, rest.len() as int) =~= entries@.subrange(
                i + 1,
                entries@.len() as int,
            ));
        }
        let checked = ensure_supported_value(&entries[i].0);
        if checked.is_err() {
            return checked;
        }
        let checked = ensure_supported_value(&entries[i].1);
        if checked.is_err() {
            return checked;
        }
        i = i + 1;
    }
    proof {
        assert(entries@.subrange(i as int, entries@.len() as int).len() == 0);
    }
    Ok(())
}


/// A value that carries a payload refuses to cross exactly when its payload
/// does, naming the same kind: variants, options, and both sides of a
/// result are searched alike.
pub proof fn law_payloads_are_searched(name: String, payload: Value)
    ensures
        first_unsupported(Value::Variant(name, Some(Box::new(payload)))) == first_unsupported(payload),
        first_unsupported(Value::Option(Some(Box::new(payload)))) == first_unsupported(payload),
        first_unsupported(Value::Result(Ok(Some(Box::new(payload))))) == first_unsupported(payload),
        first_unsupported(Value::Result(Err(Some(Box::new(payload))))) == first_unsupported(payload),
{
}

/// The kinds that cannot cross between plugins are refused under their own
/// names, and no other value without contents is refused.
pub proof fn law_only_asynchronous_kinds_are_refused(value: Value)
    ensures
        first_unsupported(Value::Future) == Some("future"@),
        first_unsupported(Value::Stream) == Some("stream"@),
        first_unsupported(Value::ErrorContext) == Some("error-context"@),
        !(value is Future || value is Stream || value is ErrorContext || value is List
            || value is Tuple || value is Record || value is Entries || value is Variant
            || value is Option || value is Result) ==> first_unsupported(value) is None,
        value matches Value::Variant(_, None) ==> first_unsupported(value) is None,
        value matches Value::Option(None) ==> first_unsupported(value) is None,
        value matches Value::Result(Ok(None)) ==> first_unsupported(value) is None,
        value matches Value::Result(Err(None)) ==> first_unsupported(value) is None,
{
}

/// A list, tuple or record is refused exactly when one of its values is,
/// for the first such value; a list or tuple of one value is refused as that
/// value is.
pub proof fn law_contents_are_searched(items: Vec<Value>, fields: Vec<(String, Value)>)
    ensures
        first_unsupported(Value::List(items)) is None <==> forall|i: int|
            0 <= i < items@.len() ==> first_unsupported(#[trigger] items@[i]) is None,
        first_unsupported(Value::Tuple(items)) == first_unsupported(Value::List(items)),
        first_unsupported(Value::Record(fields)) is None <==> forall|i: int|
            0 <= i < fields@.len() ==> first_unsupported((#[trigger] fields@[i]).1) is None,
        items@.len() == 1 ==> first_unsupported(Value::List(items)) == first_unsupported(items@[0]),
{
    lemma_none_in_items(items@);
    lemma_none_in_fields(fields@);
    if items@.len() == 1 {
        assert(items@.subrange(1, 1) =~= Seq::<Value>::empty());
    }
}

/// No value of `items` is refused exactly when the list is not.
proof fn lemma_none_in_items(items: Seq<Value>)
    ensures
        first_unsupported_in(items) is None <==> forall|i: int|
            0 <= i < items.len() ==> first_unsupported(#[trigger] items[i]) is None,
    decreases items.len(),
{
    if items.len() > 0 {
        let rest = items.subrange(1, items.len() as int);
        lemma_none_in_items(rest);
        assert forall|i: int| 1 <= i < items.len() implies #[trigger] items[i] == rest[i - 1] by {}
        if forall|i: int| 0 <= i < rest.len() ==> first_unsupported(#[trigger] rest[i]) is None {
            assert forall|i: int| 0 <= i < items.len() implies first_unsupported(#[trigger] items[i]) is None
                || first_unsupported(items[0]) is Some by {
                if i > 0 {
                    assert(items[i] == rest[i - 1]);
                }
            }
        }
    }
}

/// No value of record `fields` is refused exactly when the record is not.
proof fn lemma_none_in_fields(fields: Seq<(String, Value)>)
    ensures
        first_unsupported_in_fields(fields) is None <==> forall|i: int|
            0 <= i < fields.len() ==> first_unsupported((#[trigger] fields[i]).1) is None,
    decreases fields.len(),
{
    if fields.len() > 0 {
        let rest = fields.subrange(1, fields.len() as int);
        lemma_none_in_fields(rest);
        assert forall|i: int| 1 <= i < fields.len() implies #[trigger] fields[i] == rest[i - 1] by {}
        if forall|i: int| 0 <= i < rest.len() ==> first_unsupported((#[trigger] rest[i]).1) is None {
            assert forall|i: int| 0 <= i < fields.len() implies first_unsupported((#[trigger] fields[i]).1) is None
                || first_unsupported(fields[0].1) is Some by {
                if i > 0 {
                    assert(fields[i] == rest[i - 1]);
                }
            }
        }
    }
}

} // verus!
