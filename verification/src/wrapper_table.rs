//! The table of wrapped resource handles.
//!
//! When a resource handle leaves the plugin that owns it, the receiving
//! store keeps a [`ResourceWrapper`] for it in Wasmtime's
//! `ResourceTable`: the owning plugin and the handle under which that plugin
//! knows the resource. The receiving plugin sees only the key of that entry,
//! and every later use of the key is resolved back through the table.

use std::sync::Arc;

use vstd::prelude::*;

use crate::errors::{ResourceCreationError, ResourceReceiveError};

verus! {

/// Declares Wasmtime's `wasmtime::component::ResourceTable`, the table of
/// host-side resources in a store's data.
#[verifier::external_type_specification]
#[verifier::external_body]
pub struct ExResourceTable(wasmtime::component::ResourceTable);

/// Declares Wasmtime's `wasmtime::component::ResourceTableError`, the
/// error of a table operation.
#[verifier::external_type_specification]
#[verifier::external_body]
pub struct ExResourceTableError(wasmtime::component::ResourceTableError);

/// A resource handle of one plugin, held in another plugin's store.
#[derive(Debug)]
pub struct ResourceWrapper {
    /// The plugin that owns the resource.
    pub plugin_id: String,
    /// The handle in the owning plugin's store.
    pub resource_handle: wasmtime::component::ResourceAny,
}

/// What `table` holds, by key: for an entry that is a resource wrapper, the
/// owning plugin and its handle; for an entry of another type, `None`. A key
/// that is not in the map has no entry.
pub uninterp spec fn wrapper_entries(table: wasmtime::component::ResourceTable) -> Map<
    u32,
    Option<(Seq<char>, wasmtime::component::ResourceAny)>,
>;

/// How many entries `table` holds at most: its configured maximum capacity.
pub uninterp spec fn table_capacity(table: wasmtime::component::ResourceTable) -> nat;

/// Whether the entry under `key` in `table` has child entries, which keep it
/// from being deleted.
pub uninterp spec fn entry_has_children(table: wasmtime::component::ResourceTable, key: u32) -> bool;

/// The largest number of entries that the table's 32-bit keys can name.
pub open spec fn key_space() -> nat {
    0x1_0000_0000
}

/// Whether `table` takes `count` more entries: it holds that many fewer
/// than both its capacity and the number of keys.
pub open spec fn has_room(table: wasmtime::component::ResourceTable, count: nat) -> bool {
    &&& wrapper_entries(table).dom().len() + count <= table_capacity(table)
    &&& wrapper_entries(table).dom().len() + count <= key_space()
}

/// What `key` resolves to in `entries`: the wrapper's plugin and handle, if
/// the key holds a wrapper.
pub open spec fn resolves(
    entries: Map<u32, Option<(Seq<char>, wasmtime::component::ResourceAny)>>,
    key: u32,
) -> Option<(Seq<char>, wasmtime::component::ResourceAny)> {
    if entries.contains_key(key) {
        entries[key]
    } else {
        None
    }
}

/// `ResourceTable::push` of a shared wrapper. The table takes a free key, one
/// that holds no entry, and stores the wrapper under it, with no parent and
/// no children; it answers an error, and changes nothing, when it is full.
/// It is never full while it holds fewer entries than its capacity and than
/// its keys can name: a freed slot is reused, and otherwise a new slot is
/// added below both limits. Its capacity and the children of other entries
/// do not change.
#[verifier::external_body]
fn table_push(table: &mut wasmtime::component::ResourceTable, wrapper: ResourceWrapper) -> (key:
    Result<u32, wasmtime::component::ResourceTableError>)
    ensures
        wrapper_entries(*old(table)).dom().finite(),
        wrapper_entries(*final(table)).dom().finite(),
        table_capacity(*final(table)) == table_capacity(*old(table)),
        has_room(*old(table), 1) ==> key is Ok,
        match key {
            Ok(k) => !entry_has_children(*final(table), k),
            Err(_) => true,
        },
        forall|j: u32|
            (key is Err || key != Ok::<u32, wasmtime::component::ResourceTableError>(j)) ==> (
            #[trigger] entry_has_children(*final(table), j) == entry_has_children(*old(table), j)),
        match key {
            Ok(k) => !wrapper_entries(*old(table)).contains_key(k) && wrapper_entries(*final(table))
                == wrapper_entries(*old(table)).insert(
                k,
                Some((wrapper.plugin_id@, wrapper.resource_handle)),
            ),
            Err(_) => wrapper_entries(*final(table)) == wrapper_entries(*old(table)),
        },
{
    match table.push(Arc::new(wrapper)) {
        Ok(resource) => Ok(resource.rep()),
        Err(error) => Err(error),
    }
}

/// `ResourceTable::get` of the wrapper under `key`. It answers the entry when
/// the key holds a wrapper, and an error when the key holds nothing or an
/// entry of another type.
#[verifier::external_body]
fn table_get(table: &wasmtime::component::ResourceTable, key: u32) -> (found: Result<
    (String, wasmtime::component::ResourceAny),
    wasmtime::component::ResourceTableError,
>)
    ensures
        match found {
            Ok((plugin_id, handle)) => resolves(wrapper_entries(*table), key) == Some(
                (plugin_id@, handle),
            ),
            Err(_) => resolves(wrapper_entries(*table), key) is None,
        },
{
    match table.get(&wasmtime::component::Resource::<Arc<ResourceWrapper>>::new_own(key)) {
        Ok(wrapper) => Ok((wrapper.plugin_id.clone(), wrapper.resource_handle)),
        Err(error) => Err(error),
    }
}

/// `ResourceTable::delete` of the wrapper under `key`. On success the key held
/// a wrapper and is now free. On failure the table is unchanged, except that
/// an entry of another type under the key is removed before the type check
/// refuses it; a key that holds nothing always fails. A key that holds a
/// wrapper without children is always deleted. Deleting an entry takes it
/// off its parent's children, so no entry gains children; the capacity does
/// not change.
#[verifier::external_body]
fn table_delete(table: &mut wasmtime::component::ResourceTable, key: u32) -> (deleted: Result<
    (),
    wasmtime::component::ResourceTableError,
>)
    ensures
        wrapper_entries(*old(table)).dom().finite(),
        wrapper_entries(*final(table)).dom().finite(),
        table_capacity(*final(table)) == table_capacity(*old(table)),
        resolves(wrapper_entries(*old(table)), key) is Some && !entry_has_children(*old(table), key)
            ==> deleted is Ok,
        forall|j: u32|
            !entry_has_children(*old(table), j) ==> !#[trigger] entry_has_children(*final(table), j),
        match deleted {
            Ok(()) => resolves(wrapper_entries(*old(table)), key) is Some && wrapper_entries(
                *final(table),
            ) == wrapper_entries(*old(table)).remove(key),
            Err(_) => wrapper_entries(*final(table)) == wrapper_entries(*old(table)) || (
            wrapper_entries(*old(table)).contains_key(key) && wrapper_entries(*old(table))[key]
                is None && wrapper_entries(*final(table)) == wrapper_entries(*old(table)).remove(
                key,
            )),
        },
        !wrapper_entries(*old(table)).contains_key(key) ==> deleted is Err,
{
    match table.delete(wasmtime::component::Resource::<Arc<ResourceWrapper>>::new_own(key)) {
        Ok(_) => Ok(()),
        Err(error) => Err(error),
    }
}

/// Wraps `handle`, owned by plugin `plugin_id`, in a new entry of `table`,
/// and returns the entry's key.
///
/// Fails with [`ResourceCreationError::ResourceTableFull`], leaving the table
/// as it was, when the table takes no more entries; a table with room for
/// one more entry always takes it. The new entry has no children, and the
/// children of other entries do not change.
pub fn attach(
    table: &mut wasmtime::component::ResourceTable,
    plugin_id: &String,
    handle: wasmtime::component::ResourceAny,
) -> (key: Result<u32, ResourceCreationError>)
    ensures
        wrapper_entries(*old(table)).dom().finite(),
        table_capacity(*final(table)) == table_capacity(*old(table)),
        has_room(*old(table), 1) ==> key is Ok,
        key matches Ok(k) ==> !entry_has_children(*final(table), k),
        forall|j: u32|
            key != Ok::<u32, ResourceCreationError>(j) ==> #[trigger] entry_has_children(
                *final(table),
                j,
            ) == entry_has_children(*old(table), j),
        match key {
            Ok(k) => !wrapper_entries(*old(table)).contains_key(k) && wrapper_entries(*final(table))
                == wrapper_entries(*old(table)).insert(k, Some((plugin_id@, handle))),
            Err(error) => error == ResourceCreationError::ResourceTableFull && wrapper_entries(
                *final(table),
            ) == wrapper_entries(*old(table)),
        },
{
    let wrapper = ResourceWrapper { plugin_id: plugin_id.clone(), resource_handle: handle };
    match table_push(table, wrapper) {
        Ok(key) => Ok(key),
        Err(_) => Err(ResourceCreationError::ResourceTableFull),
    }
}

/// `after` is `before` with each of `handles` attached for `plugin_id`, in
/// order, one attempt per handle until the first failure: `keys` holds the
/// outcomes. Each key is new and resolves to its handle; every other entry
/// is kept as it was.
pub open spec fn attached_all(
    before: Map<u32, Option<(Seq<char>, wasmtime::component::ResourceAny)>>,
    after: Map<u32, Option<(Seq<char>, wasmtime::component::ResourceAny)>>,
    plugin_id: Seq<char>,
    handles: Seq<wasmtime::component::ResourceAny>,
    keys: Seq<Result<u32, ResourceCreationError>>,
) -> bool {
    &&& keys.len() <= handles.len()
    &&& forall|i: int| 0 <= i < keys.len() - 1 ==> (#[trigger] keys[i]) is Ok
    &&& keys.len() < handles.len() ==> keys.len() > 0 && keys.last() is Err
    &&& forall|i: int|
        0 <= i < keys.len() && #[trigger] keys[i] is Ok ==> !before.contains_key(keys[i]->Ok_0)
            && resolves(after, keys[i]->Ok_0) == Some((plugin_id, handles[i]))
    &&& forall|k: u32| #[trigger]
        before.contains_key(k) ==> after.contains_key(k) && after[k] == before[k]
    &&& forall|k: u32| #[trigger]
        after.contains_key(k) ==> before.contains_key(k) || exists|i: int|
            0 <= i < keys.len() && keys[i] == Ok::<u32, ResourceCreationError>(k)
}

/// Attaches each of `handles`, owned by `plugin_id`, in order, and stops at
/// the first one that the table refuses: one outcome per attempt.
pub fn attach_all(
    table: &mut wasmtime::component::ResourceTable,
    plugin_id: &String,
    handles: &Vec<wasmtime::component::ResourceAny>,
) -> (keys: Vec<Result<u32, ResourceCreationError>>)
    ensures
        attached_all(
            wrapper_entries(*old(table)),
            wrapper_entries(*final(table)),
            plugin_id@,
            handles@,
            keys@,
        ),
        handles@.len() == 0 ==> wrapper_entries(*final(table)) == wrapper_entries(*old(table)),
        has_room(*old(table), handles@.len()) ==> keys@.len() == handles@.len() && forall|i: int|
            0 <= i < keys@.len() ==> (#[trigger] keys@[i]) is Ok,
        forall|i: int|
            0 <= i < keys@.len() && #[trigger] keys@[i] is Ok ==> !entry_has_children(
                *final(table),
                keys@[i]->Ok_0,
            ),
        forall|j: u32|
            !entry_has_children(*old(table), j) ==> !#[trigger] entry_has_children(*final(table), j),
        table_capacity(*final(table)) == table_capacity(*old(table)),
{
    let ghost before = wrapper_entries(*table);
    let ghost room = has_room(*table, handles@.len());
    let mut keys: Vec<Result<u32, ResourceCreationError>> = Vec::new();
    let mut i: usize = 0;
    while i < handles.len()
        invariant
            before == wrapper_entries(*old(table)),
            room == has_room(*old(table), handles@.len()),
            table_capacity(*table) == table_capacity(*old(table)),
            wrapper_entries(*table).dom().len() == before.dom().len() + i,
            forall|j: int|
                0 <= j < i ==> !entry_has_children(*table, (#[trigger] keys@[j])->Ok_0),
            forall|k: u32|
                !entry_has_children(*old(table), k) ==> !#[trigger] entry_has_children(*table, k),
            i <= handles@.len(),
            keys@.len() == i,
            forall|j: int| 0 <= j < i ==> (#[trigger] keys@[j]) is Ok,
            forall|j: int|
                0 <= j < i ==> !before.contains_key(#[trigger] keys@[j]->Ok_0) && resolves(
                    wrapper_entries(*table),
                    keys@[j]->Ok_0,
                ) == Some((plugin_id@, handles@[j])),
            forall|k: u32| #[trigger]
                before.contains_key(k) ==> wrapper_entries(*table).contains_key(k)
                    && wrapper_entries(*table)[k] == before[k],
            forall|k: u32| #[trigger]
                wrapper_entries(*table).contains_key(k) ==> before.contains_key(k) || exists|j: int|
                    0 <= j < keys@.len() && keys@[j] == Ok::<u32, ResourceCreationError>(k),
        decreases handles@.len() - i,
    {
        let ghost current = wrapper_entries(*table);
        let ghost earlier = keys@;
        let ghost table_before = *table;
        proof {
            if room {
                assert(has_room(*table, 1));
            }
        }
        let outcome = attach(table, plugin_id, handles[i]);
        keys.push(outcome);
        match outcome {
            Ok(key) => {
                proof {
                    assert(keys@[i as int] == Ok::<u32, ResourceCreationError>(key));
                    assert forall|k: u32| #[trigger]
                        wrapper_entries(*table).contains_key(k) implies before.contains_key(k)
                        || exists|j: int|
                        0 <= j < keys@.len() && keys@[j] == Ok::<u32, ResourceCreationError>(
                            k,
                        ) by {
                        if k != key {
                            assert(current.contains_key(k));
                            if !before.contains_key(k) {
                                let j = choose|j: int|
                                    0 <= j < earlier.len() && earlier[j] == Ok::<u32, ResourceCreationError>(k);
                                assert(keys@[j] == earlier[j]);
                            }
                        }
                    }
                }
            },
            Err(_) => {
                proof {
                    assert forall|k: u32| #[trigger]
                        wrapper_entries(*table).contains_key(k) implies before.contains_key(k)
                        || exists|j: int|
                        0 <= j < keys@.len() && keys@[j] == Ok::<u32, ResourceCreationError>(
                            k,
                        ) by {
                        if !before.contains_key(k) {
                            let j = choose|j: int|
                                0 <= j < earlier.len() && earlier[j] == Ok::<u32, ResourceCreationError>(k);
                            assert(keys@[j] == earlier[j]);
                        }
                    }
                }
                return keys;
            },
        }
        i = i + 1;
    }
    proof {
        if handles@.len() == 0 {
            assert(wrapper_entries(*table) =~= before);
        }
    }
    keys
}

/// Resolves the key of a wrapped handle: the plugin that owns the resource
/// and the handle under which that plugin knows it.
///
/// Fails with [`ResourceReceiveError::InvalidHandle`] when the key holds no
/// wrapper.
pub fn lookup(table: &wasmtime::component::ResourceTable, key: u32) -> (owner: Result<
    (String, wasmtime::component::ResourceAny),
    ResourceReceiveError,
>)
    ensures
        match owner {
            Ok((plugin_id, handle)) => resolves(wrapper_entries(*table), key) == Some(
                (plugin_id@, handle),
            ),
            Err(error) => error == ResourceReceiveError::InvalidHandle && resolves(
                wrapper_entries(*table),
                key,
            ) is None,
        },
{
    match table_get(table, key) {
        Ok(found) => Ok(found),
        Err(_) => Err(ResourceReceiveError::InvalidHandle),
    }
}

/// Drops the wrapper under `key`, when the plugin that held it lets the
/// handle go.
///
/// Fails with [`ResourceReceiveError::InvalidHandle`] when the key holds no
/// wrapper, as for a handle dropped twice; a wrapper without children is
/// always dropped.
pub fn detach(table: &mut wasmtime::component::ResourceTable, key: u32) -> (dropped: Result<
    (),
    ResourceReceiveError,
>)
    ensures
        match dropped {
            Ok(()) => resolves(wrapper_entries(*old(table)), key) is Some && wrapper_entries(
                *final(table),
            ) == wrapper_entries(*old(table)).remove(key),
            Err(error) => error == ResourceReceiveError::InvalidHandle,
        },
        resolves(wrapper_entries(*old(table)), key) is None ==> dropped is Err,
        resolves(wrapper_entries(*old(table)), key) is Some && !entry_has_children(*old(table), key)
            ==> dropped is Ok,
        forall|j: u32|
            !entry_has_children(*old(table), j) ==> !#[trigger] entry_has_children(*final(table), j),
        table_capacity(*final(table)) == table_capacity(*old(table)),
        resolves(wrapper_entries(*final(table)), key) is None || dropped is Err,
{
    match table_delete(table, key) {
        Ok(()) => Ok(()),
        Err(_) => Err(ResourceReceiveError::InvalidHandle),
    }
}

/// Every handle wrapped for a plugin resolves, through the key it was given,
/// back to that plugin and that handle; entries that were there before stay
/// as they were.
pub proof fn law_wrapped_handles_resolve_back(
    before: Map<u32, Option<(Seq<char>, wasmtime::component::ResourceAny)>>,
    after: Map<u32, Option<(Seq<char>, wasmtime::component::ResourceAny)>>,
    plugin_id: Seq<char>,
    handles: Seq<wasmtime::component::ResourceAny>,
    keys: Seq<Result<u32, ResourceCreationError>>,
)
    requires
        attached_all(before, after, plugin_id, handles, keys),
    ensures
        forall|i: int|
            0 <= i < keys.len() && #[trigger] keys[i] is Ok ==> resolves(after, keys[i]->Ok_0)
                == Some((plugin_id, handles[i])),
        forall|k: u32| #[trigger] before.contains_key(k) ==> resolves(after, k) == resolves(before, k),
{
}

/// Once the wrapper under a key is dropped, the key no longer resolves, so
/// dropping it again fails; every other key resolves as before.
pub proof fn law_dropped_handles_no_longer_resolve(
    before: Map<u32, Option<(Seq<char>, wasmtime::component::ResourceAny)>>,
    after: Map<u32, Option<(Seq<char>, wasmtime::component::ResourceAny)>>,
    key: u32,
)
    requires
        after == before.remove(key),
    ensures
        resolves(after, key) is None,
        forall|k: u32| k != key ==> #[trigger] resolves(after, k) == resolves(before, k),
{
}

} // verus!
