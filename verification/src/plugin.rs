//! Plugins before instantiation.
//!
//! A synchronously instantiated plugin cannot serve WIT-async functions, so
//! its component's type is searched for them before it is instantiated:
//! every import and export, and recursively the items of nested components
//! and instances.

use vstd::prelude::*;

verus! {

/// The items that a component's type imports and exports, as far as the
/// search for WIT-async functions needs them.
pub struct ComponentShape {
    /// The imported items, by name.
    pub imports: Vec<(String, ItemShape)>,
    /// The exported items, by name.
    pub exports: Vec<(String, ItemShape)>,
}

/// One item of a component's type.
pub enum ItemShape {
    /// A nested component.
    Component(ComponentShape),
    /// A component function, which may carry the WIT `async` effect.
    Function { is_async: bool },
    /// A component instance, by its exported items and their names.
    Instance(Vec<(String, ItemShape)>),
    /// A core function.
    CoreFunction,
    /// A core module.
    Module,
    /// A type.
    Type,
    /// A resource type.
    Resource,
}

/// Whether the component imports or exports a WIT-async function anywhere.
pub open spec fn component_has_async(component: ComponentShape) -> bool
    decreases component,
{
    items_have_async(component.imports@) || items_have_async(component.exports@)
}

/// Whether some item of `items` holds a WIT-async function.
pub open spec fn items_have_async(items: Seq<(String, ItemShape)>) -> bool
    decreases items,
{
    exists|i: int| 0 <= i < items.len() && item_has_async((#[trigger] items[i]).1)
}

/// Whether the item is, or holds, a WIT-async function.
pub open spec fn item_has_async(item: ItemShape) -> bool
    decreases item,
{
    match item {
        ItemShape::Component(component) => component_has_async(component),
        ItemShape::Function { is_async } => is_async,
        ItemShape::Instance(exports) => items_have_async(exports@),
        _ => false,
    }
}

/// Whether the component imports or exports a WIT-async function anywhere.
pub fn component_contains_async(component: &ComponentShape) -> (found: bool)
    ensures
        found == component_has_async(*component),
    decreases component,
{
    proof {
        assert(decreases_to!(*component => component.imports@));
        assert(decreases_to!(*component => component.exports@));
    }
    items_contain_async(component.imports.as_slice()) || items_contain_async(
        component.exports.as_slice(),
    )
}

/// Whether some item of `items` holds a WIT-async function.
fn items_contain_async(items: &[(String, ItemShape)]) -> (found: bool)
    ensures
        found == items_have_async(items@),
    decreases items@,
{
    let mut i: usize = 0;
    while i < items.len()
        invariant
            i <= items@.len(),
            forall|j: int| 0 <= j < i ==> !item_has_async((#[trigger] items@[j]).1),
        decreases items@.len() - i,
    {
        proof {
            assert(decreases_to!(items@ => items@[i as int].1));
        }
        if item_contains_async(&items[i].1) {
            assert(item_has_async(items@[i as int].1));
            return true;
        }
        i = i + 1;
    }
    false
}

/// Whether the item is, or holds, a WIT-async function.
pub fn item_contains_async(item: &ItemShape) -> (found: bool)
    ensures
        found == item_has_async(*item),
    decreases item,
{
    match item {
        ItemShape::Component(component) => component_contains_async(component),
        ItemShape::Function { is_async } => *is_async,
        ItemShape::Instance(exports) => {
            proof {
                assert(decreases_to!(*item => exports@));
            }
            items_contain_async(exports.as_slice())
        },
        _ => false,
    }
}

/// Imports and exports are searched alike: swapping a component's imports
/// with its exports never changes whether it holds a WIT-async function.
pub proof fn law_imports_and_exports_are_searched_alike(a: ComponentShape, b: ComponentShape)
    requires
        a.imports@ == b.exports@,
        a.exports@ == b.imports@,
    ensures
        component_has_async(a) == component_has_async(b),
{
}

/// A component holds a WIT-async function exactly when one of its imported
/// or exported items is or holds one.
pub proof fn law_components_hold_what_their_items_hold(component: ComponentShape)
    ensures
        component_has_async(component) <==> (exists|i: int|
            0 <= i < component.imports@.len() && item_has_async((#[trigger] component.imports@[i]).1))
            || (exists|i: int|
            0 <= i < component.exports@.len() && item_has_async((#[trigger] component.exports@[i]).1)),
{
}

/// A component with a single item, imported or exported, holds a WIT-async
/// function exactly when that item does, whatever the item is: a function,
/// an instance or a nested component.
pub proof fn law_a_single_item_decides(component: ComponentShape, item: (String, ItemShape))
    requires
        (component.imports@ == seq![item] && component.exports@.len() == 0) || (
        component.exports@ == seq![item] && component.imports@.len() == 0),
    ensures
        component_has_async(component) == item_has_async(item.1),
{
    if component.imports@ == seq![item] {
        assert(component.imports@[0] == item);
    } else {
        assert(component.exports@[0] == item);
    }
}

/// Items are searched at every depth: a function is WIT-async as declared,
/// an instance holds one when one of its items does, a nested component when
/// it holds one itself, and no other kind of item ever does.
pub proof fn law_items_are_searched_at_every_depth(
    is_async: bool,
    exports: Vec<(String, ItemShape)>,
    nested: ComponentShape,
)
    ensures
        item_has_async(ItemShape::Function { is_async }) == is_async,
        item_has_async(ItemShape::Instance(exports)) <==> exists|i: int|
            0 <= i < exports@.len() && item_has_async((#[trigger] exports@[i]).1),
        item_has_async(ItemShape::Component(nested)) == component_has_async(nested),
        !item_has_async(ItemShape::CoreFunction),
        !item_has_async(ItemShape::Module),
        !item_has_async(ItemShape::Type),
        !item_has_async(ItemShape::Resource),
{
}

/// Whether one of the first `n` of `functions` is a WIT-async function
/// named `function`.
pub open spec fn async_function_among(
    functions: Seq<(String, ItemShape)>,
    function: Seq<char>,
    n: int,
) -> bool {
    exists|b: int|
        0 <= b < n && (#[trigger] functions[b]).0@ == function && functions[b].1 matches ItemShape::Function {
            is_async: true,
        }
}

/// Whether `item` is an instance that exports a WIT-async function named
/// `function`.
pub open spec fn instance_exports_async(item: ItemShape, function: Seq<char>) -> bool {
    match item {
        ItemShape::Instance(functions) => async_function_among(
            functions@,
            function,
            functions@.len() as int,
        ),
        _ => false,
    }
}

/// Whether one of the first `n` exports of the component is an instance
/// named `instance` that exports a WIT-async function named `function`.
pub open spec fn exports_async_among(
    exports: Seq<(String, ItemShape)>,
    instance: Seq<char>,
    function: Seq<char>,
    n: int,
) -> bool {
    exists|a: int|
        0 <= a < n && (#[trigger] exports[a]).0@ == instance && instance_exports_async(
            exports[a].1,
            function,
        )
}

/// Whether the component exports, under `instance`, an instance whose
/// export `function` is a WIT-async function.
pub open spec fn exports_async_function(
    component: ComponentShape,
    instance: Seq<char>,
    function: Seq<char>,
) -> bool {
    exports_async_among(component.exports@, instance, function, component.exports@.len() as int)
}

/// Whether `pairs` lists `(instance, function)`.
pub open spec fn lists_pair(pairs: Seq<(String, String)>, instance: Seq<char>, function: Seq<char>) -> bool {
    exists|k: int| 0 <= k < pairs.len() && (#[trigger] pairs[k]).0@ == instance && pairs[k].1@ == function
}

/// A component that exports a WIT-async function through one of its
/// instances holds a WIT-async function, so it is refused for synchronous
/// instantiation: every pair that [`async_exports`] lists is a reason for
/// [`ensure_synchronous`] to fail.
pub proof fn law_async_exports_are_refused_synchronously(
    component: ComponentShape,
    instance: Seq<char>,
    function: Seq<char>,
)
    requires
        exports_async_function(component, instance, function),
    ensures
        component_has_async(component),
{
    let exports = component.exports@;
    let a = choose|a: int|
        0 <= a < exports.len() && (#[trigger] exports[a]).0@ == instance && instance_exports_async(
            exports[a].1,
            function,
        );
    match exports[a].1 {
        ItemShape::Instance(functions) => {
            let b = choose|b: int|
                0 <= b < functions@.len() && (#[trigger] functions@[b]).0@ == function
                    && functions@[b].1 matches ItemShape::Function { is_async: true };
            assert(item_has_async(functions@[b].1));
            assert(items_have_async(functions@));
            assert(item_has_async(exports[a].1));
        },
        _ => {},
    }
}

/// The WIT-async functions that the component exports, each as the pair of
/// the exporting instance's name and the function's name.
pub fn async_exports(component: &ComponentShape) -> (pairs: Vec<(String, String)>)
    ensures
        forall|instance: Seq<char>, function: Seq<char>|
            lists_pair(pairs@, instance, function) <==> exports_async_function(
                *component,
                instance,
                function,
            ),
{
    let exports = &component.exports;
    let mut pairs: Vec<(String, String)> = Vec::new();
    let mut i: usize = 0;
    while i < exports.len()
        invariant
            i <= exports@.len(),
            forall|instance: Seq<char>, function: Seq<char>|
                lists_pair(pairs@, instance, function) <==> exports_async_among(
                    exports@,
                    instance,
                    function,
                    i as int,
                ),
        decreases exports@.len() - i,
    {
        if let ItemShape::Instance(functions) = &exports[i].1 {
            let mut j: usize = 0;
            while j < functions.len()
                invariant
                    i < exports@.len(),
                    exports@[i as int].1 == ItemShape::Instance(*functions),
                    j <= functions@.len(),
                    forall|instance: Seq<char>, function: Seq<char>|
                        lists_pair(pairs@, instance, function) <==> (exports_async_among(
                            exports@,
                            instance,
                            function,
                            i as int,
                        ) || (exports@[i as int].0@ == instance && async_function_among(
                            functions@,
                            function,
                            j as int,
                        ))),
                decreases functions@.len() - j,
            {
                if let ItemShape::Function { is_async: true } = &functions[j].1 {
                    let ghost before = pairs@;
                    pairs.push((copy_name(&exports[i].0), copy_name(&functions[j].0)));
                    proof {
                        assert forall|instance: Seq<char>, function: Seq<char>|
                            lists_pair(pairs@, instance, function) <==> (lists_pair(
                                before,
                                instance,
                                function,
                            ) || (instance == exports@[i as int].0@ && function
                                == functions@[j as int].0@)) by {
                            if lists_pair(pairs@, instance, function) {
                                let k = choose|k: int|
                                    0 <= k < pairs@.len() && (#[trigger] pairs@[k]).0@ == instance
                                        && pairs@[k].1@ == function;
                                if k < before.len() {
                                    assert(before[k] == pairs@[k]);
                                }
                            }
                            if lists_pair(before, instance, function) {
                                let k = choose|k: int|
                                    0 <= k < before.len() && (#[trigger] before[k]).0@ == instance
                                        && before[k].1@ == function;
                                assert(pairs@[k] == before[k]);
                            }
                            if instance == exports@[i as int].0@ && function
                                == functions@[j as int].0@ {
                                assert(pairs@[before.len() as int].0@ == instance);
                            }
                        }
                        assert forall|function: Seq<char>|
                            #[trigger] async_function_among(functions@, function, j + 1) <==> (
                            async_function_among(functions@, function, j as int) || function
                                == functions@[j as int].0@) by {
                            if function == functions@[j as int].0@ {
                                assert(functions@[j as int].0@ == function);
                            }
                        }
                        assert forall|instance: Seq<char>, function: Seq<char>|
                            lists_pair(pairs@, instance, function) <==> (exports_async_among(
                                exports@,
                                instance,
                                function,
                                i as int,
                            ) || (exports@[i as int].0@ == instance && async_function_among(
                                functions@,
                                function,
                                j + 1,
                            ))) by {
                            assert(lists_pair(before, instance, function) <==> (exports_async_among(
                                exports@,
                                instance,
                                function,
                                i as int,
                            ) || (exports@[i as int].0@ == instance && async_function_among(
                                functions@,
                                function,
                                j as int,
                            ))));
                            assert(async_function_among(functions@, function, j + 1) <==> (
                            async_function_among(functions@, function, j as int) || function
                                == functions@[j as int].0@));
                        }
                    }
                } else {
                    proof {
                        assert forall|function: Seq<char>|
                            async_function_among(functions@, function, j + 1)
                                == async_function_among(functions@, function, j as int) by {
                            if async_function_among(functions@, function, j + 1) {
                                let b = choose|b: int|
                                    0 <= b < j + 1 && (#[trigger] functions@[b]).0@ == function
                                        && functions@[b].1 matches ItemShape::Function {
                                        is_async: true,
                                    };
                                assert(b != j);
                            }
                        }
                    }
                }
                j = j + 1;
            }
            proof {
                assert forall|instance: Seq<char>, function: Seq<char>|
                    exports_async_among(exports@, instance, function, i + 1) <==> (
                    exports_async_among(exports@, instance, function, i as int) || (exports@[i as int].0@
                        == instance && async_function_among(
                        functions@,
                        function,
                        functions@.len() as int,
                    ))) by {
                    if exports_async_among(exports@, instance, function, i + 1) {
                        let a = choose|a: int|
                            0 <= a < i + 1 && (#[trigger] exports@[a]).0@ == instance
                                && instance_exports_async(exports@[a].1, function);
                        if a == i {
                            assert(exports@[i as int].0@ == instance);
                        }
                    }
                    if exports@[i as int].0@ == instance && async_function_among(
                        functions@,
                        function,
                        functions@.len() as int,
                    ) {
                        assert(exports@[i as int].0@ == instance);
                        assert(instance_exports_async(exports@[i as int].1, function));
                    }
                }
            }
        } else {
            proof {
                assert forall|instance: Seq<char>, function: Seq<char>|
                    exports_async_among(exports@, instance, function, i + 1)
                        == exports_async_among(exports@, instance, function, i as int) by {
                    if exports_async_among(exports@, instance, function, i + 1) {
                        let a = choose|a: int|
                            0 <= a < i + 1 && (#[trigger] exports@[a]).0@ == instance
                                && instance_exports_async(exports@[a].1, function);
                        assert(a != i);
                    }
                }
            }
        }
        i = i + 1;
    }
    pairs
}

/// A copy of a name.
fn copy_name(name: &String) -> (copy: String)
    ensures
        copy@ == name@,
{
    String::from_str(name.as_str())
}

/// Checks that a component may be instantiated synchronously: it must not
/// import or export a WIT-async function anywhere.
///
/// The error is the message with which instantiation is refused.
pub fn ensure_synchronous(component: &ComponentShape) -> (checked: Result<(), String>)
    ensures
        checked is Err <==> component_has_async(*component),
        checked matches Err(message) ==> message@
            == "synchronous plugins cannot contain WIT-async functions"@,
{
    if component_contains_async(component) {
        Err(String::from_str("synchronous plugins cannot contain WIT-async functions"))
    } else {
        Ok(())
    }
}

} // verus!
