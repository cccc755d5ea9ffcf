//! How many bytes a call's arguments keep alive while it is outstanding.
//!
//! Each value counts [`VALUE_BYTES`] for itself, the UTF-8 bytes of the
//! strings and names it holds, and the bytes of the values it contains.

use vstd::prelude::*;

use crate::value::Value;

verus! {

/// The bytes counted for one value, whatever it holds.
pub const VALUE_BYTES: usize = 64;

/// The UTF-8 length of a string, as `str::len` gives it.
pub open spec fn text_bytes(text: String) -> nat {
    (vstd::utf8::encode_utf8(text@).len() as usize) as nat
}

/// The bytes that `value` retains.
pub open spec fn retained(value: Value) -> nat
    decreases value,
{
    VALUE_BYTES as nat + match value {
        Value::String(text) => text_bytes(text),
        Value::Enum(name) => text_bytes(name),
        Value::List(items) => retained_in(items@),
        Value::Tuple(items) => retained_in(items@),
        Value::Record(fields) => retained_in_fields(fields@),
        Value::Entries(entries) => retained_in_entries(entries@),
        Value::Variant(name, Some(payload)) => text_bytes(name) + retained(*payload),
        Value::Variant(name, None) => text_bytes(name),
        Value::Option(Some(payload)) => retained(*payload),
        Value::Result(Ok(Some(payload))) => retained(*payload),
        Value::Result(Err(Some(payload))) => retained(*payload),
        Value::Flags(names) => names_bytes(names@),
        _ => 0nat,
    }
}

/// The bytes that `items` retain together.
pub open spec fn retained_in(items: Seq<Value>) -> nat
    decreases items,
{
    if items.len() == 0 {
        0
    } else {
        retained(items[0]) + retained_in(items.subrange(1, items.len() as int))
    }
}

/// The bytes that record `fields` retain: each name and value.
pub open spec fn retained_in_fields(fields: Seq<(String, Value)>) -> nat
    decreases fields,
{
    if fields.len() == 0 {
        0
    } else {
        text_bytes(fields[0].0) + retained(fields[0].1) + retained_in_fields(
            fields.subrange(1, fields.len() as int),
        )
    }
}

/// The bytes that map `entries` retain: each key and value.
pub open spec fn retained_in_entries(entries: Seq<(Value, Value)>) -> nat
    decreases entries,
{
    if entries.len() == 0 {
        0
    } else {
        retained(entries[0].0) + retained(entries[0].1) + retained_in_entries(
            entries.subrange(1, entries.len() as int),
        )
    }
}

/// The UTF-8 bytes of `names` together.
pub open spec fn names_bytes(names: Seq<String>) -> nat
    decreases names.len(),
{
    if names.len() == 0 {
        0
    } else {
        text_bytes(names[0]) + names_bytes(names.subrange(1, names.len() as int))
    }
}

/// The UTF-8 length of `text`.
fn text_len(text: &String) -> (n: usize)
    ensures
        n == text_bytes(*text),
{
    text.as_str().len()
}

/// Adds two counts, or `None` past `usize::MAX`.
fn add_bytes(a: usize, b: usize) -> (sum: Option<usize>)
    ensures
        match sum {
            Some(s) => s == a + b,
            None => a + b > usize::MAX,
        },
{
    a.checked_add(b)
}

/// The bytes that `value` retains, or `None` when they exceed `usize::MAX`.
pub fn value_bytes(value: &Value) -> (bytes: Option<usize>)
    ensures
        match bytes {
            Some(n) => n == retained(*value),
            None => retained(*value) > usize::MAX,
        },
    decreases *value,
{
    let inner: Option<usize> = match value {
        Value::String(text) => Some(text_len(text)),
        Value::Enum(name) => Some(text_len(name)),
        Value::List(items) => {
            proof {
                assert(decreases_to!(*value => items@));
            }
            retained_bytes(items.as_slice())
        },
        Value::Tuple(items) => {
            proof {
                assert(decreases_to!(*value => items@));
            }
            retained_bytes(items.as_slice())
        },
        Value::Record(fields) => {
            proof {
                assert(decreases_to!(*value => fields@));
            }
            fields_bytes(fields.as_slice())
        },
        Value::Entries(entries) => {
            proof {
                assert(decreases_to!(*value => entries@));
            }
            entries_bytes(entries.as_slice())
        },
        Value::Variant(name, Some(payload)) => match value_bytes(payload) {
            Some(n) => add_bytes(text_len(name), n),
            None => None,
        },
        Value::Variant(name, None) => Some(text_len(name)),
        Value::Option(Some(payload)) => value_bytes(payload),
        Value::Result(Ok(Some(payload))) => value_bytes(payload),
        Value::Result(Err(Some(payload))) => value_bytes(payload),
        Value::Flags(names) => flags_bytes(names.as_slice()),
        _ => Some(0),
    };
    match inner {
        Some(n) => add_bytes(VALUE_BYTES, n),
        None => None,
    }
}

/// The bytes that `values` retain together, or `None` when they exceed
/// `usize::MAX`.
pub fn retained_bytes(values: &[Value]) -> (bytes: Option<usize>)
    ensures
        match bytes {
            Some(n) => n == retained_in(values@),
            None => retained_in(values@) > usize::MAX,
        },
    decreases values@,
{
    let mut total: usize = 0;
    let mut i: usize = 0;
    proof {
        assert(values@.subrange(0, values@.len() as int) =~= values@);
    }
    while i < values.len()
        invariant
            i <= values@.len(),
            total + retained_in(values@.subrange(i as int, values@.len() as int)) == retained_in(
                values@,
            ),
        decreases values@.len() - i,
    {
        let ghost rest = values@.subrange(i as int, values@.len() as int);
        proof {
            assert(decreases_to!(values@ => values@[i as int]));
            assert(rest[0] == values@[i as int]);
            assert(rest.subrange(1, rest.len() as int) =~= values@.subrange(i + 1, values@.len() as int));
        }
        let item = match value_bytes(&values[i]) {
            Some(n) => n,
            None => {
                return None;
            },
        };
        total = match add_bytes(total, item) {
            Some(sum) => sum,
            None => {
                return None;
            },
        };
        i = i + 1;
    }
    proof {
        assert(values@.subrange(i as int, values@.len() as int) =~= Seq::<Value>::empty());
    }
    Some(total)
}

/// The bytes that record `fields` retain, or `None` past `usize::MAX`.
fn fields_bytes(fields: &[(String, Value)]) -> (bytes: Option<usize>)
    ensures
        match bytes {
            Some(n) => n == retained_in_fields(fields@),
            None => retained_in_fields(fields@) > usize::MAX,
        },
    decreases fields@,
{
    let mut total: usize = 0;
    let mut i: usize = 0;
    proof {
        assert(fields@.subrange(0, fields@.len() as int) =~= fields@);
    }
    while i < fields.len()
        invariant
            i <= fields@.len(),
            total + retained_in_fields(fields@.subrange(i as int, fields@.len() as int))
                == retained_in_fields(fields@),
        decreases fields@.len() - i,
    {
        let ghost rest = fields@.subrange(i as int, fields@.len() as int);
        proof {
            assert(decreases_to!(fields@ => fields@[i as int]));
            assert(decreases_to!(fields@[i as int] => fields@[i as int].1));
            assert(rest[0] == fields@[i as int]);
            assert(rest.subrange(1, rest.len() as int) =~= fields@.subrange(i + 1, fields@.len() as int));
        }
        let item = match value_bytes(&fields[i].1) {
            Some(n) => n,
            None => {
                return None;
            },
        };
        total = match add_bytes(total, text_len(&fields[i].0)) {
            Some(sum) => sum,
            None => {
                return None;
            },
        };
        total = match add_bytes(total, item) {
            Some(sum) => sum,
            None => {
                return None;
            },
        };
        i = i + 1;
    }
    proof {
        assert(fields@.subrange(i as int, fields@.len() as int) =~= Seq::<(String, Value)>::empty());
    }
    Some(total)
}

/// The bytes that map `entries` retain, or `None` past `usize::MAX`.
fn entries_bytes(entries: &[(Value, Value)]) -> (bytes: Option<usize>)
    ensures
        match bytes {
            Some(n) => n == retained_in_entries(entries@),
            None => retained_in_entries(entries@) > usize::MAX,
        },
    decreases entries@,
{
    let mut total: usize = 0;
    let mut i: usize = 0;
    proof {
        assert(entries@.subrange(0, entries@.len() as int) =~= entries@);
    }
    while i < entries.len()
        invariant
            i <= entries@.len(),
            total + retained_in_entries(entries@.subrange(i as int, entries@.len() as int))
                == retained_in_entries(entries@),
        decreases entries@.len() - i,
    {
        let ghost rest = entries@.subrange(i as int, entries@.len() as int);
        proof {
            assert(decreases_to!(entries@ => entries@[i as int]));
            assert(decreases_to!(entries@[i as int] => entries@[i as int].0));
            assert(decreases_to!(entries@[i as int] => entries@[i as int].1));
            assert(rest[0] == entries@[i as int]);
            assert(rest.subrange(1, rest.len() as int) =~= entries@.subrange(
                i + 1,
                entries@.len() as int,
            ));
        }
        let key = match value_bytes(&entries[i].0) {
            Some(n) => n,
            None => {
                return None;
            },
        };
        let item = match value_bytes(&entries[i].1) {
            Some(n) => n,
            None => {
                return None;
            },
        };
        total = match add_bytes(total, key) {
            Some(sum) => sum,
            None => {
                return None;
            },
        };
        total = match add_bytes(total, item) {
            Some(sum) => sum,
            None => {
                return None;
            },
        };
        i = i + 1;
    }
    proof {
        assert(entries@.subrange(i as int, entries@.len() as int) =~= Seq::<(Value, Value)>::empty());
    }
    Some(total)
}

/// The UTF-8 bytes of flag `names`, or `None` past `usize::MAX`.
fn flags_bytes(names: &[String]) -> (bytes: Option<usize>)
    ensures
        match bytes {
            Some(n) => n == names_bytes(names@),
            None => names_bytes(names@) > usize::MAX,
        },
{
    let mut total: usize = 0;
    let mut i: usize = 0;
    proof {
        assert(names@.subrange(0, names@.len() as int) =~= names@);
    }
    while i < names.len()
        invariant
            i <= names@.len(),
            total + names_bytes(names@.subrange(i as int, names@.len() as int)) == names_bytes(
                names@,
            ),
        decreases names@.len() - i,
    {
        let ghost rest = names@.subrange(i as int, names@.len() as int);
        proof {
            assert(rest[0] == names@[i as int]);
            assert(rest.subrange(1, rest.len() as int) =~= names@.subrange(i + 1, names@.len() as int));
        }
        total = match add_bytes(total, text_len(&names[i])) {
            Some(sum) => sum,
            None => {
                return None;
            },
        };
        i = i + 1;
    }
    proof {
        assert(names@.subrange(i as int, names@.len() as int) =~= Seq::<String>::empty());
    }
    Some(total)
}


/// Every value retains at least [`VALUE_BYTES`], and a value that carries a
/// payload retains its own [`VALUE_BYTES`] on top of everything the payload
/// retains (and of its name, for a variant).
pub proof fn law_payloads_are_counted(name: String, payload: Value, value: Value)
    ensures
        retained(value) >= VALUE_BYTES,
        retained(Value::Option(Some(Box::new(payload)))) == VALUE_BYTES + retained(payload),
        retained(Value::Result(Ok(Some(Box::new(payload))))) == VALUE_BYTES + retained(payload),
        retained(Value::Result(Err(Some(Box::new(payload))))) == VALUE_BYTES + retained(payload),
        retained(Value::Variant(name, Some(Box::new(payload)))) == VALUE_BYTES + text_bytes(name)
            + retained(payload),
        retained(Value::String(name)) == VALUE_BYTES + text_bytes(name),
        retained(Value::Enum(name)) == VALUE_BYTES + text_bytes(name),
        retained(Value::Variant(name, None)) == VALUE_BYTES + text_bytes(name),
{
}

/// Flags retain their own [`VALUE_BYTES`] on top of the text of every name.
pub proof fn law_flag_names_are_counted(names: Vec<String>)
    ensures
        forall|i: int|
            0 <= i < names@.len() ==> retained(Value::Flags(names)) >= VALUE_BYTES + text_bytes(
                #[trigger] names@[i],
            ),
{
    lemma_names_count_each(names@);
}

proof fn lemma_names_count_each(names: Seq<String>)
    ensures
        forall|i: int| 0 <= i < names.len() ==> names_bytes(names) >= text_bytes(#[trigger] names[i]),
    decreases names.len(),
{
    if names.len() > 0 {
        let rest = names.subrange(1, names.len() as int);
        lemma_names_count_each(rest);
        assert forall|i: int| 0 <= i < names.len() implies names_bytes(names) >= text_bytes(
            #[trigger] names[i],
        ) by {
            if i > 0 {
                assert(names[i] == rest[i - 1]);
            }
        }
    }
}

/// A list, tuple, record or map retains its own [`VALUE_BYTES`] on top of
/// every value it holds: never less than any one of them, and, for a list
/// or tuple of one value, exactly that value's bytes more.
pub proof fn law_contents_are_counted(
    items: Vec<Value>,
    fields: Vec<(String, Value)>,
    entries: Vec<(Value, Value)>,
)
    ensures
        forall|i: int|
            0 <= i < items@.len() ==> retained(Value::List(items)) >= VALUE_BYTES + retained(
                #[trigger] items@[i],
            ),
        retained(Value::Tuple(items)) == retained(Value::List(items)),
        forall|i: int|
            0 <= i < fields@.len() ==> retained(Value::Record(fields)) >= VALUE_BYTES + text_bytes(
                (#[trigger] fields@[i]).0,
            ) + retained(fields@[i].1),
        forall|i: int|
            0 <= i < entries@.len() ==> retained(Value::Entries(entries)) >= VALUE_BYTES + retained(
                (#[trigger] entries@[i]).0,
            ) + retained(entries@[i].1),
        items@.len() == 1 ==> retained(Value::List(items)) == VALUE_BYTES + retained(items@[0]),
{
    lemma_items_count_each(items@);
    lemma_fields_count_each(fields@);
    lemma_entries_count_each(entries@);
    if items@.len() == 1 {
        assert(items@.subrange(1, 1) =~= Seq::<Value>::empty());
        assert(retained_in(Seq::<Value>::empty()) == 0);
        assert(retained_in(items@) == retained(items@[0]) + retained_in(items@.subrange(1, 1)));
    }
}

proof fn lemma_items_count_each(items: Seq<Value>)
    ensures
        forall|i: int| 0 <= i < items.len() ==> retained_in(items) >= retained(#[trigger] items[i]),
    decreases items.len(),
{
    if items.len() > 0 {
        let rest = items.subrange(1, items.len() as int);
        lemma_items_count_each(rest);
        assert forall|i: int| 0 <= i < items.len() implies retained_in(items) >= retained(
            #[trigger] items[i],
        ) by {
            if i > 0 {
                assert(items[i] == rest[i - 1]);
            }
        }
    }
}

proof fn lemma_fields_count_each(fields: Seq<(String, Value)>)
    ensures
        forall|i: int|
            0 <= i < fields.len() ==> retained_in_fields(fields) >= text_bytes(
                (#[trigger] fields[i]).0,
            ) + retained(fields[i].1),
    decreases fields.len(),
{
    if fields.len() > 0 {
        let rest = fields.subrange(1, fields.len() as int);
        lemma_fields_count_each(rest);
        assert forall|i: int| 0 <= i < fields.len() implies retained_in_fields(fields) >= text_bytes(
            (#[trigger] fields[i]).0,
        ) + retained(fields[i].1) by {
            if i > 0 {
                assert(fields[i] == rest[i - 1]);
            }
        }
    }
}

proof fn lemma_entries_count_each(entries: Seq<(Value, Value)>)
    ensures
        forall|i: int|
            0 <= i < entries.len() ==> retained_in_entries(entries) >= retained(
                (#[trigger] entries[i]).0,
            ) + retained(entries[i].1),
    decreases entries.len(),
{
    if entries.len() > 0 {
        let rest = entries.subrange(1, entries.len() as int);
        lemma_entries_count_each(rest);
        assert forall|i: int| 0 <= i < entries.len() implies retained_in_entries(entries) >= retained(
            (#[trigger] entries[i]).0,
        ) + retained(entries[i].1) by {
            if i > 0 {
                assert(entries[i] == rest[i - 1]);
            }
        }
    }
}

} // verus!
