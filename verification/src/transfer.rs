//! Moving values from one plugin to another.
//!
//! A resource handle is only meaningful inside the store of the plugin that
//! created it. When a value leaves a plugin, every resource handle in it is
//! wrapped in a new handle that remembers the owning plugin; values of the
//! asynchronous kinds cannot be moved at all.
//!
//! A transfer runs in three steps. [`plan_transfer`] lists, in pre-order,
//! the handles to wrap: those met before the first kind that cannot move,
//! and that kind. Each listed handle is then wrapped, in order, stopping at
//! the first refusal ([`crate::wrapper_table::attach_all`]).
//! [`settle_transfer`] takes the wrapped handles and gives the moved value,
//! with every handle replaced by its wrapper ([`replace_resources`]), or the
//! error that stopped the transfer.

use vstd::prelude::*;

use crate::errors::{DispatchError, ResourceCreationError};
use crate::value::{Value, first_unsupported, first_unsupported_in, first_unsupported_in_entries,
    first_unsupported_in_fields};

verus! {

/// The handles of `value` that a transfer wraps, in pre-order, and the kind
/// that stops it: the resource handles met before the first `future`,
/// `stream` or `error-context`, and the name of that kind if there is one.
pub open spec fn transfer_plan(value: Value) -> (Seq<wasmtime::component::ResourceAny>, Option<Seq<char>>)
    decreases value,
{
    match value {
        Value::List(items) => plan_in(items@),
        Value::Tuple(items) => plan_in(items@),
        Value::Record(fields) => plan_in_fields(fields@),
        Value::Entries(entries) => plan_in_entries(entries@),
        Value::Variant(_, Some(payload)) => transfer_plan(*payload),
        Value::Option(Some(payload)) => transfer_plan(*payload),
        Value::Result(Ok(Some(payload))) => transfer_plan(*payload),
        Value::Result(Err(Some(payload))) => transfer_plan(*payload),
        Value::Resource(handle) => (seq![handle], None),
        Value::Future => (Seq::empty(), Some("future"@)),
        Value::Stream => (Seq::empty(), Some("stream"@)),
        Value::ErrorContext => (Seq::empty(), Some("error-context"@)),
        _ => (Seq::empty(), None),
    }
}

/// The plan of `first` followed by the plan `rest` of what comes after it:
/// `rest` counts only when `first` does not stop the transfer.
pub open spec fn then_plan(
    first: (Seq<wasmtime::component::ResourceAny>, Option<Seq<char>>),
    rest: (Seq<wasmtime::component::ResourceAny>, Option<Seq<char>>),
) -> (Seq<wasmtime::component::ResourceAny>, Option<Seq<char>>) {
    if first.1 is Some {
        first
    } else {
        (first.0 + rest.0, rest.1)
    }
}

/// The transfer plan of the values of a list or tuple, taken in order.
pub open spec fn plan_in(items: Seq<Value>) -> (Seq<wasmtime::component::ResourceAny>, Option<Seq<char>>)
    decreases items,
{
    if items.len() == 0 {
        (Seq::empty(), None)
    } else {
        then_plan(transfer_plan(items[0]), plan_in(items.subrange(1, items.len() as int)))
    }
}

/// The transfer plan of the values of record `fields`, taken in order.
pub open spec fn plan_in_fields(fields: Seq<(String, Value)>) -> (Seq<wasmtime::component::ResourceAny>, Option<Seq<char>>)
    decreases fields,
{
    if fields.len() == 0 {
        (Seq::empty(), None)
    } else {
        then_plan(
            transfer_plan(fields[0].1),
            plan_in_fields(fields.subrange(1, fields.len() as int)),
        )
    }
}

/// The transfer plan of one map entry: its key, then its value.
pub open spec fn entry_plan(entry: (Value, Value)) -> (Seq<wasmtime::component::ResourceAny>, Option<Seq<char>>)
    decreases entry,
{
    then_plan(transfer_plan(entry.0), transfer_plan(entry.1))
}

/// The transfer plan of map `entries`, taken in order.
pub open spec fn plan_in_entries(entries: Seq<(Value, Value)>) -> (Seq<wasmtime::component::ResourceAny>, Option<Seq<char>>)
    decreases entries,
{
    if entries.len() == 0 {
        (Seq::empty(), None)
    } else {
        then_plan(entry_plan(entries[0]), plan_in_entries(entries.subrange(1, entries.len() as int)))
    }
}

/// The view of an optional name.
pub open spec fn name_view(name: Option<String>) -> Option<Seq<char>> {
    match name {
        Some(n) => Some(n@),
        None => None,
    }
}

/// A plan that stops nothing and lists no handle.
pub open spec fn empty_plan() -> (Seq<wasmtime::component::ResourceAny>, Option<Seq<char>>) {
    (Seq::empty(), None)
}

/// Following a plan by another is associative.
proof fn lemma_then_plan_assoc(
    a: (Seq<wasmtime::component::ResourceAny>, Option<Seq<char>>),
    b: (Seq<wasmtime::component::ResourceAny>, Option<Seq<char>>),
    c: (Seq<wasmtime::component::ResourceAny>, Option<Seq<char>>),
)
    ensures
        then_plan(a, then_plan(b, c)) == then_plan(then_plan(a, b), c),
{
    if a.1 is None && b.1 is None {
        assert(a.0 + (b.0 + c.0) =~= (a.0 + b.0) + c.0);
    }
}

/// The empty plan is a unit of [`then_plan`].
proof fn lemma_then_plan_unit(a: (Seq<wasmtime::component::ResourceAny>, Option<Seq<char>>))
    ensures
        then_plan(a, empty_plan()) == a,
        then_plan(empty_plan(), a) == a,
{
    assert(a.0 + Seq::<wasmtime::component::ResourceAny>::empty() =~= a.0);
    assert(Seq::<wasmtime::component::ResourceAny>::empty() + a.0 =~= a.0);
}

/// The plan of a list grown by one item.
proof fn lemma_plan_in_push(items: Seq<Value>, item: Value)
    ensures
        plan_in(items.push(item)) == then_plan(plan_in(items), transfer_plan(item)),
    decreases items.len(),
{
    let grown = items.push(item);
    assert(grown[0] == if items.len() == 0 { item } else { items[0] });
    if items.len() == 0 {
        assert(grown.subrange(1, grown.len() as int) =~= Seq::<Value>::empty());
        assert(plan_in(Seq::<Value>::empty()) == empty_plan());
        assert(plan_in(items) == empty_plan());
        lemma_then_plan_unit(transfer_plan(item));
        assert(plan_in(grown) == then_plan(transfer_plan(item), empty_plan()));
    } else {
        let tail = items.subrange(1, items.len() as int);
        assert(grown.subrange(1, grown.len() as int) =~= tail.push(item));
        lemma_plan_in_push(tail, item);
        lemma_then_plan_assoc(transfer_plan(items[0]), plan_in(tail), transfer_plan(item));
        assert(plan_in(grown) == then_plan(transfer_plan(items[0]), plan_in(tail.push(item))));
        assert(plan_in(items) == then_plan(transfer_plan(items[0]), plan_in(tail)));
    }
}

/// The plan of a list of record fields grown by one field.
proof fn lemma_plan_in_fields_push(fields: Seq<(String, Value)>, field: (String, Value))
    ensures
        plan_in_fields(fields.push(field)) == then_plan(plan_in_fields(fields), transfer_plan(field.1)),
    decreases fields.len(),
{
    let grown = fields.push(field);
    assert(grown[0] == if fields.len() == 0 { field } else { fields[0] });
    if fields.len() == 0 {
        assert(grown.subrange(1, grown.len() as int) =~= Seq::<(String, Value)>::empty());
        assert(plan_in_fields(Seq::<(String, Value)>::empty()) == empty_plan());
        assert(plan_in_fields(fields) == empty_plan());
        lemma_then_plan_unit(transfer_plan(field.1));
        assert(plan_in_fields(grown) == then_plan(transfer_plan(field.1), empty_plan()));
    } else {
        let tail = fields.subrange(1, fields.len() as int);
        assert(grown.subrange(1, grown.len() as int) =~= tail.push(field));
        lemma_plan_in_fields_push(tail, field);
        lemma_then_plan_assoc(transfer_plan(fields[0].1), plan_in_fields(tail), transfer_plan(field.1));
        assert(plan_in_fields(grown) == then_plan(transfer_plan(fields[0].1), plan_in_fields(tail.push(field))));
        assert(plan_in_fields(fields) == then_plan(transfer_plan(fields[0].1), plan_in_fields(tail)));
    }
}

/// The plan of a list of map entries grown by one entry.
proof fn lemma_plan_in_entries_push(entries: Seq<(Value, Value)>, entry: (Value, Value))
    ensures
        plan_in_entries(entries.push(entry)) == then_plan(plan_in_entries(entries), entry_plan(entry)),
    decreases entries.len(),
{
    let grown = entries.push(entry);
    assert(grown[0] == if entries.len() == 0 { entry } else { entries[0] });
    if entries.len() == 0 {
        assert(grown.subrange(1, grown.len() as int) =~= Seq::<(Value, Value)>::empty());
        assert(plan_in_entries(Seq::<(Value, Value)>::empty()) == empty_plan());
        assert(plan_in_entries(entries) == empty_plan());
        lemma_then_plan_unit(entry_plan(entry));
        assert(plan_in_entries(grown) == then_plan(entry_plan(entry), empty_plan()));
    } else {
        let tail = entries.subrange(1, entries.len() as int);
        assert(grown.subrange(1, grown.len() as int) =~= tail.push(entry));
        lemma_plan_in_entries_push(tail, entry);
        lemma_then_plan_assoc(entry_plan(entries[0]), plan_in_entries(tail), entry_plan(entry));
        assert(plan_in_entries(grown) == then_plan(entry_plan(entries[0]), plan_in_entries(tail.push(entry))));
        assert(plan_in_entries(entries) == then_plan(entry_plan(entries[0]), plan_in_entries(tail)));
    }
}

/// `moved` is `value` with every resource handle replaced by some handle,
/// and everything else unchanged.
pub open spec fn same_shape(value: Value, moved: Value) -> bool
    decreases value,
{
    match (value, moved) {
        (Value::List(a), Value::List(b)) => same_shape_items(a@, b@),
        (Value::Tuple(a), Value::Tuple(b)) => same_shape_items(a@, b@),
        (Value::Record(a), Value::Record(b)) => same_shape_fields(a@, b@),
        (Value::Entries(a), Value::Entries(b)) => same_shape_entries(a@, b@),
        (Value::Variant(n, Some(p)), Value::Variant(m, Some(q))) => n == m && same_shape(*p, *q),
        (Value::Option(Some(p)), Value::Option(Some(q))) => same_shape(*p, *q),
        (Value::Result(Ok(Some(p))), Value::Result(Ok(Some(q)))) => same_shape(*p, *q),
        (Value::Result(Err(Some(p))), Value::Result(Err(Some(q)))) => same_shape(*p, *q),
        (Value::Resource(_), Value::Resource(_)) => true,
        _ => value == moved,
    }
}

/// Every value has its own shape.
pub proof fn lemma_same_shape_reflexive(value: Value)
    ensures
        same_shape(value, value),
    decreases value,
{
    match value {
        Value::List(items) => {
            assert(decreases_to!(value => items@));
            lemma_same_shape_items_reflexive(items@);
        },
        Value::Tuple(items) => {
            assert(decreases_to!(value => items@));
            lemma_same_shape_items_reflexive(items@);
        },
        Value::Record(fields) => {
            assert(decreases_to!(value => fields@));
            lemma_same_shape_fields_reflexive(fields@);
        },
        Value::Entries(entries) => {
            assert(decreases_to!(value => entries@));
            lemma_same_shape_entries_reflexive(entries@);
        },
        Value::Variant(_, Some(payload)) => lemma_same_shape_reflexive(*payload),
        Value::Option(Some(payload)) => lemma_same_shape_reflexive(*payload),
        Value::Result(Ok(Some(payload))) => lemma_same_shape_reflexive(*payload),
        Value::Result(Err(Some(payload))) => lemma_same_shape_reflexive(*payload),
        _ => {},
    }
}

/// Every list has its own shape.
pub proof fn lemma_same_shape_items_reflexive(items: Seq<Value>)
    ensures
        same_shape_items(items, items),
    decreases items,
{
    assert forall|i: int| 0 <= i < items.len() implies same_shape(#[trigger] items[i], items[i]) by {
        assert(decreases_to!(items => items[i]));
        lemma_same_shape_reflexive(items[i]);
    }
}

/// Every list of record fields has its own shape.
pub proof fn lemma_same_shape_fields_reflexive(fields: Seq<(String, Value)>)
    ensures
        same_shape_fields(fields, fields),
    decreases fields,
{
    assert forall|i: int| 0 <= i < fields.len() implies (#[trigger] fields[i]).0 == fields[i].0
        && same_shape(fields[i].1, fields[i].1) by {
        assert(decreases_to!(fields => fields[i].1));
        lemma_same_shape_reflexive(fields[i].1);
    }
}

/// Every list of map entries has its own shape.
pub proof fn lemma_same_shape_entries_reflexive(entries: Seq<(Value, Value)>)
    ensures
        same_shape_entries(entries, entries),
    decreases entries,
{
    assert forall|i: int| 0 <= i < entries.len() implies same_shape((#[trigger] entries[i]).0, entries[i].0)
        && same_shape(entries[i].1, entries[i].1) by {
        assert(decreases_to!(entries => entries[i].0));
        assert(decreases_to!(entries => entries[i].1));
        lemma_same_shape_reflexive(entries[i].0);
        lemma_same_shape_reflexive(entries[i].1);
    }
}

/// Two lists agree element by element in the sense of [`same_shape`].
pub open spec fn same_shape_items(a: Seq<Value>, b: Seq<Value>) -> bool
    decreases a,
{
    a.len() == b.len() && forall|i: int| 0 <= i < a.len() ==> same_shape(#[trigger] a[i], b[i])
}

/// Two lists of record fields have the same names, in order, and values of
/// the same shape.
pub open spec fn same_shape_fields(a: Seq<(String, Value)>, b: Seq<(String, Value)>) -> bool
    decreases a,
{
    a.len() == b.len() && forall|i: int|
        0 <= i < a.len() ==> (#[trigger] a[i]).0 == b[i].0 && same_shape(a[i].1, b[i].1)
}

/// Two lists of map entries have keys and values of the same shape, in order.
pub open spec fn same_shape_entries(a: Seq<(Value, Value)>, b: Seq<(Value, Value)>) -> bool
    decreases a,
{
    a.len() == b.len() && forall|i: int|
        0 <= i < a.len() ==> same_shape((#[trigger] a[i]).0, b[i].0) && same_shape(a[i].1, b[i].1)
}

/// Appends the plan of `value` to `handles` and returns the kind that stops
/// it, if any.
fn plan_into(value: &Value, handles: &mut Vec<wasmtime::component::ResourceAny>) -> (stop: Option<String>)
    ensures
        final(handles)@ == old(handles)@ + transfer_plan(*value).0,
        name_view(stop) == transfer_plan(*value).1,
    decreases *value,
{
    let ghost start = handles@;
    match value {
        Value::List(items) => {
            proof {
                assert(decreases_to!(*value => items@));
            }
            plan_items_into(items, handles)
        },
        Value::Tuple(items) => {
            proof {
                assert(decreases_to!(*value => items@));
            }
            plan_items_into(items, handles)
        },
        Value::Record(fields) => {
            proof {
                assert(decreases_to!(*value => fields@));
            }
            plan_fields_into(fields, handles)
        },
        Value::Entries(entries) => {
            proof {
                assert(decreases_to!(*value => entries@));
            }
            plan_entries_into(entries, handles)
        },
        Value::Variant(_, Some(payload)) => plan_into(payload, handles),
        Value::Option(Some(payload)) => plan_into(payload, handles),
        Value::Result(Ok(Some(payload))) => plan_into(payload, handles),
        Value::Result(Err(Some(payload))) => plan_into(payload, handles),
        Value::Resource(handle) => {
            handles.push(*handle);
            None
        },
        Value::Future => {
            proof {
                assert(start + Seq::<wasmtime::component::ResourceAny>::empty() =~= start);
            }
            Some(String::from_str("future"))
        },
        Value::Stream => {
            proof {
                assert(start + Seq::<wasmtime::component::ResourceAny>::empty() =~= start);
            }
            Some(String::from_str("stream"))
        },
        Value::ErrorContext => {
            proof {
                assert(start + Seq::<wasmtime::component::ResourceAny>::empty() =~= start);
            }
            Some(String::from_str("error-context"))
        },
        _ => {
            proof {
                assert(start + Seq::<wasmtime::component::ResourceAny>::empty() =~= start);
            }
            None
        },
    }
}

/// Appends the plan of the values of a list or tuple to `handles`.
fn plan_items_into(items: &Vec<Value>, handles: &mut Vec<wasmtime::component::ResourceAny>) -> (stop:
    Option<String>)
    ensures
        final(handles)@ == old(handles)@ + plan_in(items@).0,
        name_view(stop) == plan_in(items@).1,
    decreases items@,
{
    let ghost start = handles@;
    let mut i: usize = 0;
    proof {
        assert(items@.subrange(0, items@.len() as int) =~= items@);
        assert(start + plan_in(items@).0 == handles@ + plan_in(items@).0);
    }
    while i < items.len()
        invariant
            start == old(handles)@,
            i <= items@.len(),
            handles@ + plan_in(items@.subrange(i as int, items@.len() as int)).0 == start + plan_in(
                items@,
            ).0,
            plan_in(items@.subrange(i as int, items@.len() as int)).1 == plan_in(items@).1,
        decreases items@.len() - i,
    {
        let ghost rest = items@.subrange(i as int, items@.len() as int);
        let ghost before = handles@;
        proof {
            assert(decreases_to!(items@ => items@[i as int]));
            assert(rest[0] == items@[i as int]);
            assert(rest.subrange(1, rest.len() as int) =~= items@.subrange(i + 1, items@.len() as int));
        }
        let stop = plan_into(&items[i], handles);
        let ghost first = transfer_plan(items@[i as int]);
        let ghost later = plan_in(items@.subrange(i + 1, items@.len() as int));
        proof {
            assert(plan_in(rest) == then_plan(first, later));
        }
        if stop.is_some() {
            proof {
                assert(plan_in(rest) == first);
                assert(handles@ == before + first.0);
            }
            return stop;
        }
        proof {
            assert(before + (first.0 + later.0) =~= (before + first.0) + later.0);
        }
        i = i + 1;
    }
    proof {
        assert(items@.subrange(i as int, items@.len() as int) =~= Seq::<Value>::empty());
        assert(handles@ + Seq::<wasmtime::component::ResourceAny>::empty() =~= handles@);
    }
    None
}

/// Appends the plan of the values of record `fields` to `handles`.
fn plan_fields_into(fields: &Vec<(String, Value)>, handles: &mut Vec<wasmtime::component::ResourceAny>) -> (stop:
    Option<String>)
    ensures
        final(handles)@ == old(handles)@ + plan_in_fields(fields@).0,
        name_view(stop) == plan_in_fields(fields@).1,
    decreases fields@,
{
    let ghost start = handles@;
    let mut i: usize = 0;
    proof {
        assert(fields@.subrange(0, fields@.len() as int) =~= fields@);
    }
    while i < fields.len()
        invariant
            start == old(handles)@,
            i <= fields@.len(),
            handles@ + plan_in_fields(fields@.subrange(i as int, fields@.len() as int)).0 == start
                + plan_in_fields(fields@).0,
            plan_in_fields(fields@.subrange(i as int, fields@.len() as int)).1 == plan_in_fields(
                fields@,
            ).1,
        decreases fields@.len() - i,
    {
        let ghost rest = fields@.subrange(i as int, fields@.len() as int);
        let ghost before = handles@;
        proof {
            assert(decreases_to!(fields@ => fields@[i as int]));
            assert(decreases_to!(fields@[i as int] => fields@[i as int].1));
            assert(rest[0] == fields@[i as int]);
            assert(rest.subrange(1, rest.len() as int) =~= fields@.subrange(
                i + 1,
                fields@.len() as int,
            ));
        }
        let stop = plan_into(&fields[i].1, handles);
        let ghost first = transfer_plan(fields@[i as int].1);
        let ghost later = plan_in_fields(fields@.subrange(i + 1, fields@.len() as int));
        proof {
            assert(plan_in_fields(rest) == then_plan(first, later));
        }
        if stop.is_some() {
            proof {
                assert(plan_in_fields(rest) == first);
            }
            return stop;
        }
        proof {
            assert(before + (first.0 + later.0) =~= (before + first.0) + later.0);
        }
        i = i + 1;
    }
    proof {
        assert(fields@.subrange(i as int, fields@.len() as int) =~= Seq::<(String, Value)>::empty());
        assert(handles@ + Seq::<wasmtime::component::ResourceAny>::empty() =~= handles@);
    }
    None
}

/// Appends the plan of map `entries` to `handles`.
fn plan_entries_into(entries: &Vec<(Value, Value)>, handles: &mut Vec<wasmtime::component::ResourceAny>) -> (stop:
    Option<String>)
    ensures
        final(handles)@ == old(handles)@ + plan_in_entries(entries@).0,
        name_view(stop) == plan_in_entries(entries@).1,
    decreases entries@,
{
    let ghost start = handles@;
    let mut i: usize = 0;
    proof {
        assert(entries@.subrange(0, entries@.len() as int) =~= entries@);
    }
    while i < entries.len()
        invariant
            start == old(handles)@,
            i <= entries@.len(),
            handles@ + plan_in_entries(entries@.subrange(i as int, entries@.len() as int)).0 == start
                + plan_in_entries(entries@).0,
            plan_in_entries(entries@.subrange(i as int, entries@.len() as int)).1 == plan_in_entries(
                entries@,
            ).1,
        decreases entries@.len() - i,
    {
        let ghost rest = entries@.subrange(i as int, entries@.len() as int);
        let ghost before = handles@;
        proof {
            assert(decreases_to!(entries@ => entries@[i as int]));
            assert(decreases_to!(entries@[i as int] => entries@[i as int].0));
            assert(decreases_to!(entries@[i as int] => entries@[i as int].1));
            assert(rest[0] == entries@[i as int]);
            assert(rest.subrange(1, rest.len() as int) =~= entries@.subrange(
                i + 1,
                entries@.len() as int,
            ));
        }
        let ghost key = transfer_plan(entries@[i as int].0);
        let ghost value = transfer_plan(entries@[i as int].1);
        let ghost later = plan_in_entries(entries@.subrange(i + 1, entries@.len() as int));
        proof {
            assert(entry_plan(entries@[i as int]) == then_plan(key, value));
            assert(plan_in_entries(rest) == then_plan(then_plan(key, value), later));
        }
        let stop = plan_into(&entries[i].0, handles);
        if stop.is_some() {
            proof {
                assert(plan_in_entries(rest) == key);
            }
            return stop;
        }
        let ghost middle = handles@;
        let stop = plan_into(&entries[i].1, handles);
        if stop.is_some() {
            proof {
                assert(plan_in_entries(rest) == (key.0 + value.0, value.1));
                assert(before + (key.0 + value.0) =~= (before + key.0) + value.0);
            }
            return stop;
        }
        proof {
            assert(before + ((key.0 + value.0) + later.0) =~= ((before + key.0) + value.0)
                + later.0);
        }
        i = i + 1;
    }
    proof {
        assert(entries@.subrange(i as int, entries@.len() as int) =~= Seq::<(Value, Value)>::empty());
        assert(handles@ + Seq::<wasmtime::component::ResourceAny>::empty() =~= handles@);
    }
    None
}

/// Plans the transfer of `value`: the resource handles to wrap, in
/// pre-order, up to the first `future`, `stream` or `error-context`, and the
/// name of that kind if there is one.
pub fn plan_transfer(value: &Value) -> (plan: (Vec<wasmtime::component::ResourceAny>, Option<String>))
    ensures
        plan.0@ == transfer_plan(*value).0,
        name_view(plan.1) == transfer_plan(*value).1,
{
    let mut handles: Vec<wasmtime::component::ResourceAny> = Vec::new();
    let stop = plan_into(value, &mut handles);
    proof {
        assert(Seq::<wasmtime::component::ResourceAny>::empty() + transfer_plan(*value).0 =~= transfer_plan(*value).0);
    }
    (handles, stop)
}


/// `value` with its resource handles replaced, in pre-order, by
/// `wrapped[next..]`; `next` advances past the handles used.
fn replace_into(value: Value, wrapped: &Vec<wasmtime::component::ResourceAny>, next: &mut usize) -> (moved:
    Value)
    requires
        transfer_plan(value).1 is None,
        *old(next) + transfer_plan(value).0.len() <= wrapped@.len(),
    ensures
        *final(next) == *old(next) + transfer_plan(value).0.len(),
        same_shape(value, moved),
        transfer_plan(moved) == (wrapped@.subrange(*old(next) as int, *final(next) as int), None::<
            Seq<char>,
        >),
    decreases value,
{
    let ghost input = value;
    let ghost start: int = *next as int;
    match value {
        Value::List(items) => {
            proof {
                assert(decreases_to!(input => items@));
            }
            Value::List(replace_items(items, wrapped, next))
        },
        Value::Tuple(items) => {
            proof {
                assert(decreases_to!(input => items@));
            }
            Value::Tuple(replace_items(items, wrapped, next))
        },
        Value::Record(fields) => {
            proof {
                assert(decreases_to!(input => fields@));
            }
            Value::Record(replace_fields(fields, wrapped, next))
        },
        Value::Entries(entries) => {
            proof {
                assert(decreases_to!(input => entries@));
            }
            Value::Entries(replace_entries(entries, wrapped, next))
        },
        Value::Variant(name, Some(payload)) => Value::Variant(
            name,
            Some(Box::new(replace_into(*payload, wrapped, next))),
        ),
        Value::Option(Some(payload)) => Value::Option(
            Some(Box::new(replace_into(*payload, wrapped, next))),
        ),
        Value::Result(Ok(Some(payload))) => Value::Result(
            Ok(Some(Box::new(replace_into(*payload, wrapped, next)))),
        ),
        Value::Result(Err(Some(payload))) => Value::Result(
            Err(Some(Box::new(replace_into(*payload, wrapped, next)))),
        ),
        Value::Resource(original) => {
            proof {
                assert(transfer_plan(input).0 =~= seq![original]);
            }
            let available = wrapped.len();
            let handle = wrapped[*next];
            *next = *next + 1;
            proof {
                assert(wrapped@.subrange(start, start + 1) =~= seq![handle]);
            }
            Value::Resource(handle)
        },
        other => {
            proof {
                assert(wrapped@.subrange(start, start) =~= Seq::<
                    wasmtime::component::ResourceAny,
                >::empty());
            }
            other
        },
    }
}

/// The values of a list or tuple with their resource handles replaced, in
/// order, by `wrapped[next..]`.
fn replace_items(items: Vec<Value>, wrapped: &Vec<wasmtime::component::ResourceAny>, next: &mut usize) -> (moved:
    Vec<Value>)
    requires
        plan_in(items@).1 is None,
        *old(next) + plan_in(items@).0.len() <= wrapped@.len(),
    ensures
        *final(next) == *old(next) + plan_in(items@).0.len(),
        same_shape_items(items@, moved@),
        plan_in(moved@) == (wrapped@.subrange(*old(next) as int, *final(next) as int), None::<
            Seq<char>,
        >),
    decreases items@,
{
    let ghost start: int = *next as int;
    let mut pending = items;
    let mut moved: Vec<Value> = Vec::new();
    let mut i: usize = 0;
    proof {
        assert(items@.subrange(0, items@.len() as int) =~= items@);
        assert(plan_in(moved@) == empty_plan());
        assert(wrapped@.subrange(start, start) =~= Seq::<wasmtime::component::ResourceAny>::empty());
    }
    while i < pending.len()
        invariant
            start == *old(next),
            pending@.len() == items@.len(),
            i <= items@.len(),
            forall|j: int| i <= j < items@.len() ==> pending@[j] == items@[j],
            moved@.len() == i,
            forall|j: int| 0 <= j < i ==> same_shape(#[trigger] items@[j], moved@[j]),
            start <= *next <= wrapped@.len(),
            plan_in(moved@) == (wrapped@.subrange(start, *next as int), None::<Seq<char>>),
            plan_in(items@.subrange(i as int, items@.len() as int)).1 is None,
            (*next - start) + plan_in(items@.subrange(i as int, items@.len() as int)).0.len()
                == plan_in(items@).0.len(),
            start + plan_in(items@).0.len() <= wrapped@.len(),
        decreases items@.len() - i,
    {
        let ghost rest = items@.subrange(i as int, items@.len() as int);
        let ghost later = items@.subrange(i + 1, items@.len() as int);
        proof {
            assert(decreases_to!(items@ => items@[i as int]));
            assert(rest[0] == items@[i as int]);
            assert(rest.subrange(1, rest.len() as int) =~= later);
            assert(plan_in(rest) == then_plan(transfer_plan(items@[i as int]), plan_in(later)));
        }
        let mut item = Value::Bool(false);
        std::mem::swap(&mut pending[i], &mut item);
        let ghost before: int = *next as int;
        let ghost done = moved@;
        let replaced = replace_into(item, wrapped, next);
        proof {
            lemma_plan_in_push(done, replaced);
            assert(wrapped@.subrange(start, before) + wrapped@.subrange(before, *next as int)
                =~= wrapped@.subrange(start, *next as int));
        }
        moved.push(replaced);
        i = i + 1;
    }
    proof {
        assert(items@.subrange(i as int, items@.len() as int) =~= Seq::<Value>::empty());
        assert(plan_in(Seq::<Value>::empty()) == empty_plan());
    }
    moved
}

/// The values of record `fields` with their resource handles replaced, in
/// order, by `wrapped[next..]`; the names are kept.
fn replace_fields(
    fields: Vec<(String, Value)>,
    wrapped: &Vec<wasmtime::component::ResourceAny>,
    next: &mut usize,
) -> (moved: Vec<(String, Value)>)
    requires
        plan_in_fields(fields@).1 is None,
        *old(next) + plan_in_fields(fields@).0.len() <= wrapped@.len(),
    ensures
        *final(next) == *old(next) + plan_in_fields(fields@).0.len(),
        same_shape_fields(fields@, moved@),
        plan_in_fields(moved@) == (wrapped@.subrange(*old(next) as int, *final(next) as int), None::<
            Seq<char>,
        >),
    decreases fields@,
{
    let ghost start: int = *next as int;
    let mut pending = fields;
    let mut moved: Vec<(String, Value)> = Vec::new();
    let mut i: usize = 0;
    proof {
        assert(fields@.subrange(0, fields@.len() as int) =~= fields@);
        assert(plan_in_fields(moved@) == empty_plan());
        assert(wrapped@.subrange(start, start) =~= Seq::<wasmtime::component::ResourceAny>::empty());
    }
    while i < pending.len()
        invariant
            start == *old(next),
            pending@.len() == fields@.len(),
            i <= fields@.len(),
            forall|j: int| i <= j < fields@.len() ==> pending@[j] == fields@[j],
            moved@.len() == i,
            forall|j: int|
                0 <= j < i ==> (#[trigger] fields@[j]).0 == moved@[j].0 && same_shape(
                    fields@[j].1,
                    moved@[j].1,
                ),
            start <= *next <= wrapped@.len(),
            plan_in_fields(moved@) == (wrapped@.subrange(start, *next as int), None::<Seq<char>>),
            plan_in_fields(fields@.subrange(i as int, fields@.len() as int)).1 is None,
            (*next - start) + plan_in_fields(fields@.subrange(i as int, fields@.len() as int)).0.len()
                == plan_in_fields(fields@).0.len(),
            start + plan_in_fields(fields@).0.len() <= wrapped@.len(),
        decreases fields@.len() - i,
    {
        let ghost rest = fields@.subrange(i as int, fields@.len() as int);
        let ghost later = fields@.subrange(i + 1, fields@.len() as int);
        proof {
            assert(decreases_to!(fields@ => fields@[i as int]));
            assert(decreases_to!(fields@[i as int] => fields@[i as int].1));
            assert(rest[0] == fields@[i as int]);
            assert(rest.subrange(1, rest.len() as int) =~= later);
            assert(plan_in_fields(rest) == then_plan(
                transfer_plan(fields@[i as int].1),
                plan_in_fields(later),
            ));
        }
        let mut field = (String::new(), Value::Bool(false));
        std::mem::swap(&mut pending[i], &mut field);
        let (name, item) = field;
        let ghost before: int = *next as int;
        let ghost done = moved@;
        let replaced = replace_into(item, wrapped, next);
        proof {
            lemma_plan_in_fields_push(done, (name, replaced));
            assert(wrapped@.subrange(start, before) + wrapped@.subrange(before, *next as int)
                =~= wrapped@.subrange(start, *next as int));
        }
        moved.push((name, replaced));
        i = i + 1;
    }
    proof {
        assert(fields@.subrange(i as int, fields@.len() as int) =~= Seq::<(String, Value)>::empty());
        assert(plan_in_fields(Seq::<(String, Value)>::empty()) == empty_plan());
    }
    moved
}

/// Map `entries` with the resource handles of their keys and values
/// replaced, in order, by `wrapped[next..]`.
fn replace_entries(
    entries: Vec<(Value, Value)>,
    wrapped: &Vec<wasmtime::component::ResourceAny>,
    next: &mut usize,
) -> (moved: Vec<(Value, Value)>)
    requires
        plan_in_entries(entries@).1 is None,
        *old(next) + plan_in_entries(entries@).0.len() <= wrapped@.len(),
    ensures
        *final(next) == *old(next) + plan_in_entries(entries@).0.len(),
        same_shape_entries(entries@, moved@),
        plan_in_entries(moved@) == (wrapped@.subrange(*old(next) as int, *final(next) as int), None::<
            Seq<char>,
        >),
    decreases entries@,
{
    let ghost start: int = *next as int;
    let mut pending = entries;
    let mut moved: Vec<(Value, Value)> = Vec::new();
    let mut i: usize = 0;
    proof {
        assert(entries@.subrange(0, entries@.len() as int) =~= entries@);
        assert(plan_in_entries(moved@) == empty_plan());
        assert(wrapped@.subrange(start, start) =~= Seq::<wasmtime::component::ResourceAny>::empty());
    }
    while i < pending.len()
        invariant
            start == *old(next),
            pending@.len() == entries@.len(),
            i <= entries@.len(),
            forall|j: int| i <= j < entries@.len() ==> pending@[j] == entries@[j],
            moved@.len() == i,
            forall|j: int|
                0 <= j < i ==> same_shape((#[trigger] entries@[j]).0, moved@[j].0) && same_shape(
                    entries@[j].1,
                    moved@[j].1,
                ),
            start <= *next <= wrapped@.len(),
            plan_in_entries(moved@) == (wrapped@.subrange(start, *next as int), None::<Seq<char>>),
            plan_in_entries(entries@.subrange(i as int, entries@.len() as int)).1 is None,
            (*next - start) + plan_in_entries(
                entries@.subrange(i as int, entries@.len() as int),
            ).0.len() == plan_in_entries(entries@).0.len(),
            start + plan_in_entries(entries@).0.len() <= wrapped@.len(),
        decreases entries@.len() - i,
    {
        let ghost rest = entries@.subrange(i as int, entries@.len() as int);
        let ghost later = entries@.subrange(i + 1, entries@.len() as int);
        let ghost entry = entries@[i as int];
        proof {
            assert(decreases_to!(entries@ => entries@[i as int]));
            assert(decreases_to!(entries@[i as int] => entries@[i as int].0));
            assert(decreases_to!(entries@[i as int] => entries@[i as int].1));
            assert(rest[0] == entry);
            assert(rest.subrange(1, rest.len() as int) =~= later);
            assert(plan_in_entries(rest) == then_plan(entry_plan(entry), plan_in_entries(later)));
            assert(entry_plan(entry) == then_plan(transfer_plan(entry.0), transfer_plan(entry.1)));
        }
        let mut pair = (Value::Bool(false), Value::Bool(false));
        std::mem::swap(&mut pending[i], &mut pair);
        let (key, item) = pair;
        let ghost before: int = *next as int;
        let ghost done = moved@;
        let replaced_key = replace_into(key, wrapped, next);
        let ghost middle: int = *next as int;
        let replaced_item = replace_into(item, wrapped, next);
        proof {
            assert(entry_plan((replaced_key, replaced_item)) == then_plan(
                transfer_plan(replaced_key),
                transfer_plan(replaced_item),
            ));
            lemma_plan_in_entries_push(done, (replaced_key, replaced_item));
            assert(wrapped@.subrange(before, middle) + wrapped@.subrange(middle, *next as int)
                =~= wrapped@.subrange(before, *next as int));
            assert(wrapped@.subrange(start, before) + wrapped@.subrange(before, *next as int)
                =~= wrapped@.subrange(start, *next as int));
        }
        moved.push((replaced_key, replaced_item));
        i = i + 1;
    }
    proof {
        assert(entries@.subrange(i as int, entries@.len() as int) =~= Seq::<(Value, Value)>::empty());
        assert(plan_in_entries(Seq::<(Value, Value)>::empty()) == empty_plan());
    }
    moved
}

/// Replaces the resource handles of `value`, in pre-order, by `wrapped`.
///
/// `value` holds no `future`, `stream` or `error-context`, and `wrapped`
/// has one handle for each of its resource handles. The result has the
/// shape of `value`, and its handles are those of `wrapped`, in order.
pub fn replace_resources(value: Value, wrapped: Vec<wasmtime::component::ResourceAny>) -> (moved: Value)
    requires
        transfer_plan(value).1 is None,
        wrapped@.len() == transfer_plan(value).0.len(),
    ensures
        same_shape(value, moved),
        transfer_plan(moved) == (wrapped@, None::<Seq<char>>),
{
    let mut next: usize = 0;
    let moved = replace_into(value, &wrapped, &mut next);
    proof {
        assert(wrapped@.subrange(0, next as int) =~= wrapped@);
    }
    moved
}


/// Whether the last attempt among `outcomes` to wrap a handle failed.
pub open spec fn attach_failed(outcomes: Seq<Result<wasmtime::component::ResourceAny, ResourceCreationError>>) -> bool {
    outcomes.len() > 0 && outcomes.last() is Err
}

/// The wrapped handles among `outcomes`, in order.
pub open spec fn attached_handles(outcomes: Seq<Result<wasmtime::component::ResourceAny, ResourceCreationError>>) -> Seq<
    wasmtime::component::ResourceAny,
> {
    Seq::new(outcomes.len(), |i: int| outcomes[i]->Ok_0)
}

/// `outcomes` answer the plan of `value`: one attempt per planned handle,
/// in order, stopping at the first failure.
pub open spec fn follows_plan(
    value: Value,
    outcomes: Seq<Result<wasmtime::component::ResourceAny, ResourceCreationError>>,
) -> bool {
    &&& outcomes.len() <= transfer_plan(value).0.len()
    &&& forall|i: int| 0 <= i < outcomes.len() - 1 ==> (#[trigger] outcomes[i]) is Ok
    &&& outcomes.len() < transfer_plan(value).0.len() ==> attach_failed(outcomes)
}

/// What a transfer of `value` gives once its planned handles were wrapped
/// with `outcomes`: the error of a failed wrap; else the kind that cannot
/// move; else `value` with its handles replaced by the wrapped ones.
pub open spec fn settled(
    value: Value,
    outcomes: Seq<Result<wasmtime::component::ResourceAny, ResourceCreationError>>,
    result: Result<Value, DispatchError>,
) -> bool {
    if attach_failed(outcomes) {
        result == Err::<Value, DispatchError>(
            DispatchError::ResourceCreationError(outcomes.last()->Err_0),
        )
    } else {
        match transfer_plan(value).1 {
            Some(kind) => result matches Err(DispatchError::UnsupportedType(name)) && name@ == kind,
            None => result matches Ok(moved) && same_shape(value, moved) && transfer_plan(moved) == (
                attached_handles(outcomes),
                None::<Seq<char>>,
            ),
        }
    }
}

/// Completes the transfer of `value` once its planned handles (see
/// [`plan_transfer`]) were wrapped, in order, with `outcomes`.
///
/// A failed wrap gives [`DispatchError::ResourceCreationError`]; else a
/// `future`, `stream` or `error-context` in `value` gives
/// [`DispatchError::UnsupportedType`] naming the first of them; else the
/// result is `value` with each resource handle replaced by its wrapper. A
/// value without resource handles comes back as it is.
pub fn settle_transfer(
    value: Value,
    outcomes: Vec<Result<wasmtime::component::ResourceAny, ResourceCreationError>>,
) -> (result: Result<Value, DispatchError>)
    requires
        follows_plan(value, outcomes@),
    ensures
        settled(value, outcomes@, result),
        transfer_plan(value).0.len() == 0 && transfer_plan(value).1 is None ==> result == Ok::<
            Value,
            DispatchError,
        >(value),
{
    let count = outcomes.len();
    if count > 0 {
        match &outcomes[count - 1] {
            Err(error) => {
                return Err(DispatchError::ResourceCreationError(*error));
            },
            Ok(_) => {},
        }
    }
    let (_, stop) = plan_transfer(&value);
    match stop {
        Some(kind) => {
            return Err(DispatchError::UnsupportedType(kind));
        },
        None => {},
    }
    if count == 0 {
        proof {
            lemma_same_shape_reflexive(value);
            assert(transfer_plan(value).0 =~= attached_handles(outcomes@));
        }
        return Ok(value);
    }
    let mut wrapped: Vec<wasmtime::component::ResourceAny> = Vec::new();
    let mut i: usize = 0;
    while i < count
        invariant
            count == outcomes@.len(),
            i <= count,
            forall|j: int| 0 <= j < count ==> (#[trigger] outcomes@[j]) is Ok,
            wrapped@ =~= attached_handles(outcomes@).subrange(0, i as int),
        decreases count - i,
    {
        match &outcomes[i] {
            Ok(handle) => {
                wrapped.push(*handle);
            },
            Err(_) => {},
        }
        i = i + 1;
    }
    proof {
        assert(attached_handles(outcomes@).subrange(0, count as int) =~= attached_handles(
            outcomes@,
        ));
    }
    Ok(replace_resources(value, wrapped))
}


/// A transfer stops exactly at the first kind that cannot cross between
/// plugins.
pub proof fn lemma_plan_stops_at_first_unsupported(value: Value)
    ensures
        transfer_plan(value).1 == first_unsupported(value),
    decreases value,
{
    match value {
        Value::List(items) => {
            assert(decreases_to!(value => items@));
            lemma_plan_in_stops_at_first_unsupported(items@);
        },
        Value::Tuple(items) => {
            assert(decreases_to!(value => items@));
            lemma_plan_in_stops_at_first_unsupported(items@);
        },
        Value::Record(fields) => {
            assert(decreases_to!(value => fields@));
            lemma_plan_in_fields_stops_at_first_unsupported(fields@);
        },
        Value::Entries(entries) => {
            assert(decreases_to!(value => entries@));
            lemma_plan_in_entries_stops_at_first_unsupported(entries@);
        },
        Value::Variant(_, Some(payload)) => lemma_plan_stops_at_first_unsupported(*payload),
        Value::Option(Some(payload)) => lemma_plan_stops_at_first_unsupported(*payload),
        Value::Result(Ok(Some(payload))) => lemma_plan_stops_at_first_unsupported(*payload),
        Value::Result(Err(Some(payload))) => lemma_plan_stops_at_first_unsupported(*payload),
        _ => {},
    }
}

/// [`lemma_plan_stops_at_first_unsupported`] for the values of a list.
proof fn lemma_plan_in_stops_at_first_unsupported(items: Seq<Value>)
    ensures
        plan_in(items).1 == first_unsupported_in(items),
    decreases items,
{
    if items.len() > 0 {
        assert(decreases_to!(items => items[0]));
        lemma_plan_stops_at_first_unsupported(items[0]);
        lemma_plan_in_stops_at_first_unsupported(items.subrange(1, items.len() as int));
    }
}

/// [`lemma_plan_stops_at_first_unsupported`] for the values of record fields.
proof fn lemma_plan_in_fields_stops_at_first_unsupported(fields: Seq<(String, Value)>)
    ensures
        plan_in_fields(fields).1 == first_unsupported_in_fields(fields),
    decreases fields,
{
    if fields.len() > 0 {
        assert(decreases_to!(fields => fields[0]));
        assert(decreases_to!(fields[0] => fields[0].1));
        lemma_plan_stops_at_first_unsupported(fields[0].1);
        lemma_plan_in_fields_stops_at_first_unsupported(fields.subrange(1, fields.len() as int));
    }
}

/// [`lemma_plan_stops_at_first_unsupported`] for map entries.
proof fn lemma_plan_in_entries_stops_at_first_unsupported(entries: Seq<(Value, Value)>)
    ensures
        plan_in_entries(entries).1 == first_unsupported_in_entries(entries),
    decreases entries,
{
    if entries.len() > 0 {
        assert(decreases_to!(entries => entries[0]));
        assert(decreases_to!(entries[0] => entries[0].0));
        assert(decreases_to!(entries[0] => entries[0].1));
        lemma_plan_stops_at_first_unsupported(entries[0].0);
        lemma_plan_stops_at_first_unsupported(entries[0].1);
        lemma_plan_in_entries_stops_at_first_unsupported(
            entries.subrange(1, entries.len() as int),
        );
        assert(entry_plan(entries[0]) == then_plan(
            transfer_plan(entries[0].0),
            transfer_plan(entries[0].1),
        ));
        assert(plan_in_entries(entries) == then_plan(
            entry_plan(entries[0]),
            plan_in_entries(entries.subrange(1, entries.len() as int)),
        ));
    }
}

/// A value that a transfer moved can move again: it holds no kind that
/// cannot cross between plugins, and its resource handles are exactly the
/// wrappers that the transfer put in place, in order.
pub proof fn law_moved_values_move_again(
    value: Value,
    outcomes: Seq<Result<wasmtime::component::ResourceAny, ResourceCreationError>>,
    moved: Value,
)
    requires
        settled(value, outcomes, Ok(moved)),
    ensures
        first_unsupported(moved) is None,
        first_unsupported(value) is None,
        transfer_plan(moved).0 == attached_handles(outcomes),
{
    lemma_plan_stops_at_first_unsupported(value);
    lemma_plan_stops_at_first_unsupported(moved);
}


/// A value that carries a payload moves as its payload does: the same
/// handles are wrapped and the same kind stops the transfer, for variants,
/// options, and both sides of a result.
pub proof fn law_payloads_move_as_they_are(name: String, payload: Value)
    ensures
        transfer_plan(Value::Variant(name, Some(Box::new(payload)))) == transfer_plan(payload),
        transfer_plan(Value::Option(Some(Box::new(payload)))) == transfer_plan(payload),
        transfer_plan(Value::Result(Ok(Some(Box::new(payload))))) == transfer_plan(payload),
        transfer_plan(Value::Result(Err(Some(Box::new(payload))))) == transfer_plan(payload),
{
}

/// A resource handle is wrapped, and a value without contents other than a
/// resource handle or an asynchronous kind wraps nothing and moves.
pub proof fn law_handles_are_wrapped(handle: wasmtime::component::ResourceAny, value: Value)
    ensures
        transfer_plan(Value::Resource(handle)) == (seq![handle], None::<Seq<char>>),
        !(value is Resource || value is Future || value is Stream || value is ErrorContext
            || value is List || value is Tuple || value is Record || value is Entries
            || value is Variant || value is Option || value is Result) ==> transfer_plan(value)
            == empty_plan(),
{
}

/// A list or tuple of one value moves as that value does, and a list grown
/// by one value wraps the handles of the shorter list and then, unless the
/// shorter list stops the transfer, those of the new value.
pub proof fn law_lists_move_in_order(shorter: Vec<Value>, longer: Vec<Value>, item: Value)
    ensures
        longer@ == shorter@.push(item) ==> transfer_plan(Value::List(longer)) == then_plan(
            transfer_plan(Value::List(shorter)),
            transfer_plan(item),
        ),
        longer@ == shorter@.push(item) ==> transfer_plan(Value::Tuple(longer)) == then_plan(
            transfer_plan(Value::Tuple(shorter)),
            transfer_plan(item),
        ),
        shorter@.len() == 0 ==> transfer_plan(Value::List(shorter)) == empty_plan(),
{
    lemma_plan_in_push(shorter@, item);
    if shorter@.len() == 0 {
        assert(shorter@ =~= Seq::<Value>::empty());
    }
}

/// A value that holds a resource handle anywhere, and nothing that cannot
/// move, wraps at least one handle: the handle is found whatever holds it.
pub proof fn law_held_handles_are_found(value: Value)
    requires
        holds_resource(value),
        first_unsupported(value) is None,
    ensures
        transfer_plan(value).0.len() > 0,
    decreases value,
{
    lemma_plan_stops_at_first_unsupported(value);
    match value {
        Value::List(items) => {
            assert(decreases_to!(value => items@));
            lemma_held_handles_in_items(items@);
        },
        Value::Tuple(items) => {
            assert(decreases_to!(value => items@));
            lemma_held_handles_in_items(items@);
        },
        Value::Record(fields) => {
            assert(decreases_to!(value => fields@));
            lemma_held_handles_in_fields(fields@);
        },
        Value::Entries(entries) => {
            assert(decreases_to!(value => entries@));
            lemma_held_handles_in_entries(entries@);
        },
        Value::Variant(_, Some(payload)) => law_held_handles_are_found(*payload),
        Value::Option(Some(payload)) => law_held_handles_are_found(*payload),
        Value::Result(Ok(Some(payload))) => law_held_handles_are_found(*payload),
        Value::Result(Err(Some(payload))) => law_held_handles_are_found(*payload),
        _ => {},
    }
}

/// Whether `value` is, or holds at any depth, a resource handle.
pub open spec fn holds_resource(value: Value) -> bool
    decreases value,
{
    match value {
        Value::Resource(_) => true,
        Value::List(items) => exists|i: int| 0 <= i < items@.len() && holds_resource(#[trigger] items@[i]),
        Value::Tuple(items) => exists|i: int| 0 <= i < items@.len() && holds_resource(#[trigger] items@[i]),
        Value::Record(fields) => exists|i: int|
            0 <= i < fields@.len() && holds_resource((#[trigger] fields@[i]).1),
        Value::Entries(entries) => exists|i: int|
            0 <= i < entries@.len() && (holds_resource((#[trigger] entries@[i]).0) || holds_resource(
                entries@[i].1,
            )),
        Value::Variant(_, Some(payload)) => holds_resource(*payload),
        Value::Option(Some(payload)) => holds_resource(*payload),
        Value::Result(Ok(Some(payload))) => holds_resource(*payload),
        Value::Result(Err(Some(payload))) => holds_resource(*payload),
        _ => false,
    }
}

proof fn lemma_held_handles_in_items(items: Seq<Value>)
    requires
        exists|i: int| 0 <= i < items.len() && holds_resource(#[trigger] items[i]),
        plan_in(items).1 is None,
    ensures
        plan_in(items).0.len() > 0,
    decreases items,
{
    let rest = items.subrange(1, items.len() as int);
    assert(plan_in(items) == then_plan(transfer_plan(items[0]), plan_in(rest)));
    assert(decreases_to!(items => items[0]));
    lemma_plan_stops_at_first_unsupported(items[0]);
    if holds_resource(items[0]) {
        law_held_handles_are_found(items[0]);
    } else {
        let i = choose|i: int| 0 <= i < items.len() && holds_resource(#[trigger] items[i]);
        assert(rest[i - 1] == items[i]);
        lemma_held_handles_in_items(rest);
    }
}

proof fn lemma_held_handles_in_fields(fields: Seq<(String, Value)>)
    requires
        exists|i: int| 0 <= i < fields.len() && holds_resource((#[trigger] fields[i]).1),
        plan_in_fields(fields).1 is None,
    ensures
        plan_in_fields(fields).0.len() > 0,
    decreases fields,
{
    let rest = fields.subrange(1, fields.len() as int);
    assert(plan_in_fields(fields) == then_plan(transfer_plan(fields[0].1), plan_in_fields(rest)));
    assert(decreases_to!(fields => fields[0]));
    assert(decreases_to!(fields[0] => fields[0].1));
    lemma_plan_stops_at_first_unsupported(fields[0].1);
    if holds_resource(fields[0].1) {
        law_held_handles_are_found(fields[0].1);
    } else {
        let i = choose|i: int| 0 <= i < fields.len() && holds_resource((#[trigger] fields[i]).1);
        assert(rest[i - 1] == fields[i]);
        lemma_held_handles_in_fields(rest);
    }
}

proof fn lemma_held_handles_in_entries(entries: Seq<(Value, Value)>)
    requires
        exists|i: int|
            0 <= i < entries.len() && (holds_resource((#[trigger] entries[i]).0) || holds_resource(
                entries[i].1,
            )),
        plan_in_entries(entries).1 is None,
    ensures
        plan_in_entries(entries).0.len() > 0,
    decreases entries,
{
    let rest = entries.subrange(1, entries.len() as int);
    let key = transfer_plan(entries[0].0);
    let item = transfer_plan(entries[0].1);
    assert(entry_plan(entries[0]) == then_plan(key, item));
    assert(plan_in_entries(entries) == then_plan(entry_plan(entries[0]), plan_in_entries(rest)));
    assert(decreases_to!(entries => entries[0]));
    assert(decreases_to!(entries[0] => entries[0].0));
    assert(decreases_to!(entries[0] => entries[0].1));
    lemma_plan_stops_at_first_unsupported(entries[0].0);
    lemma_plan_stops_at_first_unsupported(entries[0].1);
    if holds_resource(entries[0].0) {
        law_held_handles_are_found(entries[0].0);
    } else if holds_resource(entries[0].1) {
        law_held_handles_are_found(entries[0].1);
    } else {
        let i = choose|i: int|
            0 <= i < entries.len() && (holds_resource((#[trigger] entries[i]).0) || holds_resource(
                entries[i].1,
            ));
        assert(rest[i - 1] == entries[i]);
        lemma_held_handles_in_entries(rest);
    }
}

} // verus!
