//! Export name remapping for plugin implementations.
//!
//! Remaps are per-plugin lookup tables. They let a plugin satisfy a canonical
//! binding even when the plugin exports matching interfaces or functions
//! under different names. Every table maps a requested name to an exported
//! name.

use vstd::prelude::*;

use crate::name_map::NameMap;

verus! {

/// Maps requested item names to the item names exported by a plugin.
pub type ItemResolutionTable = NameMap<String>;

/// Describes where a requested interface is found in a plugin's exports: the
/// exported interface name, if it differs, and the exported names of items
/// that differ.
#[derive(Debug, Clone)]
pub struct Remap {
    interface: Option<String>,
    item_resolution_table: ItemResolutionTable,
}

/// The name under which an item or interface is exported: the remapped
/// name where the table holds one, the requested name otherwise.
pub open spec fn resolved_name(table: Map<Seq<char>, Seq<char>>, requested: Seq<char>) -> Seq<char> {
    if table.contains_key(requested) {
        table[requested]
    } else {
        requested
    }
}

impl Remap {
    /// The exported interface name, if the remap renames the interface.
    pub closed spec fn spec_interface(&self) -> Option<Seq<char>> {
        match self.interface {
            Some(name) => Some(name@),
            None => None,
        }
    }

    /// The item table, from requested to exported names.
    pub closed spec fn spec_items(&self) -> Map<Seq<char>, Seq<char>> {
        self.item_resolution_table@.map_values(|name: String| name@)
    }

    /// Creates a remap where the requested interface is found under another exported name.
    pub fn found_as(interface: String) -> (remap: Self)
        ensures
            remap.spec_interface() == Some(interface@),
            remap.spec_items() == Map::<Seq<char>, Seq<char>>::empty(),
    {
        let remap = Remap { interface: Some(interface), item_resolution_table: NameMap::new() };
        proof {
            assert(remap.spec_items() =~= Map::<Seq<char>, Seq<char>>::empty());
        }
        remap
    }

    /// Creates a remap where one requested item resolves to another exported
    /// item name. The first argument is the requested name, the second the
    /// exported one.
    pub fn resolves_item(requested_item: String, exported_item: String) -> (remap: Self)
        ensures
            remap.spec_interface() == None::<Seq<char>>,
            remap.spec_items() == map![requested_item@ => exported_item@],
    {
        let ghost requested = requested_item@;
        let ghost exported = exported_item@;
        let mut table = NameMap::new();
        table.insert(requested_item, exported_item);
        let remap = Remap { interface: None, item_resolution_table: table };
        proof {
            assert(remap.spec_items() =~= map![requested => exported]);
        }
        remap
    }

    /// Creates a remap from an item resolution table.
    pub fn item_resolution_table(item_resolution_table: ItemResolutionTable) -> (remap: Self)
        ensures
            remap.spec_interface() == None::<Seq<char>>,
            remap.spec_items() == item_resolution_table@.map_values(|name: String| name@),
    {
        Remap { interface: None, item_resolution_table }
    }

    /// Creates a remap for both the interface name and its item names.
    pub fn found_as_with_item_resolution_table(
        interface: String,
        item_resolution_table: ItemResolutionTable,
    ) -> (remap: Self)
        ensures
            remap.spec_interface() == Some(interface@),
            remap.spec_items() == item_resolution_table@.map_values(|name: String| name@),
    {
        Remap { interface: Some(interface), item_resolution_table }
    }

    /// The exported name of the requested interface.
    pub fn interface_name<'a>(&'a self, requested_interface: &'a str) -> (name: &'a str)
        ensures
            name@ == match self.spec_interface() {
                Some(exported) => exported,
                None => requested_interface@,
            },
    {
        match &self.interface {
            Some(exported) => exported.as_str(),
            None => requested_interface,
        }
    }

    /// The exported name of the requested item.
    pub fn item_name<'a>(&'a self, requested_item: &'a str) -> (name: &'a str)
        ensures
            name@ == resolved_name(self.spec_items(), requested_item@),
    {
        match self.item_resolution_table.get(requested_item) {
            Some(exported) => exported.as_str(),
            None => requested_item,
        }
    }
}

/// Joins a package name and an interface name into an interface path.
pub fn interface_path(package_name: &str, interface_name: &str) -> (path: String)
    ensures
        path@ == package_name@ + "/"@ + interface_name@,
{
    let path = String::from_str(package_name);
    let path = path.concat("/");
    path.concat(interface_name)
}

/// The exported interface path and function name under which a plugin with
/// `interface_remaps` serves the requested function.
pub open spec fn spec_resolve_export(
    interface_remaps: Map<Seq<char>, (Option<Seq<char>>, Map<Seq<char>, Seq<char>>)>,
    package_name: Seq<char>,
    interface_name: Seq<char>,
    function_name: Seq<char>,
) -> (Seq<char>, Seq<char>) {
    if interface_remaps.contains_key(interface_name) {
        let (exported_interface, items) = interface_remaps[interface_name];
        let interface = match exported_interface {
            Some(name) => name,
            None => interface_name,
        };
        (package_name + "/"@ + interface, resolved_name(items, function_name))
    } else {
        (package_name + "/"@ + interface_name, function_name)
    }
}

/// A plugin serves a requested function under its own name, at the path
/// `package/interface`, unless it remaps the interface; and a remap that
/// renames neither the interface nor the function leaves that path and name
/// as they were.
pub proof fn law_unremapped_exports_keep_their_names(
    interface_remaps: Map<Seq<char>, (Option<Seq<char>>, Map<Seq<char>, Seq<char>>)>,
    package_name: Seq<char>,
    interface_name: Seq<char>,
    function_name: Seq<char>,
)
    requires
        interface_remaps.contains_key(interface_name) ==> {
            &&& interface_remaps[interface_name].0 is None
            &&& !interface_remaps[interface_name].1.contains_key(function_name)
        },
    ensures
        spec_resolve_export(interface_remaps, package_name, interface_name, function_name) == (
            package_name + "/"@ + interface_name,
            function_name,
        ),
{
}

/// The abstract content of a table of remaps: for each requested interface,
/// its exported name, if renamed, and its item table.
pub open spec fn remaps_view(remaps: Map<Seq<char>, Remap>) -> Map<
    Seq<char>,
    (Option<Seq<char>>, Map<Seq<char>, Seq<char>>),
> {
    remaps.map_values(|remap: Remap| (remap.spec_interface(), remap.spec_items()))
}

/// Resolves the export that serves a requested function of a plugin.
///
/// Returns the full exported interface path (`package/interface`) and the
/// exported function name.
pub fn resolve_export(
    interface_remaps: &NameMap<Remap>,
    package_name: &str,
    interface_name: &str,
    function_name: &str,
) -> (export: (String, String))
    ensures
        (export.0@, export.1@) == spec_resolve_export(
            remaps_view(interface_remaps@),
            package_name@,
            interface_name@,
            function_name@,
        ),
{
    match interface_remaps.get(interface_name) {
        Some(remap) => {
            let path = interface_path(package_name, remap.interface_name(interface_name));
            let item = String::from_str(remap.item_name(function_name));
            (path, item)
        },
        None => (interface_path(package_name, interface_name), String::from_str(function_name)),
    }
}

impl Default for Remap {
    /// A remap that renames nothing.
    fn default() -> (remap: Self)
        ensures
            remap.spec_interface() == None::<Seq<char>>,
            remap.spec_items() == Map::<Seq<char>, Seq<char>>::empty(),
    {
        let remap = Remap { interface: None, item_resolution_table: NameMap::new() };
        proof {
            assert(remap.spec_items() =~= Map::<Seq<char>, Seq<char>>::empty());
        }
        remap
    }
}

impl PartialEq for Remap {
    fn eq(&self, other: &Self) -> (equal: bool) {
        let same_interface = match (&self.interface, &other.interface) {
            (None, None) => true,
            (Some(a), Some(b)) => *a == *b,
            _ => false,
        };
        same_interface && self.item_resolution_table.same_names(&other.item_resolution_table)
    }
}

impl Eq for Remap {

}

impl vstd::std_specs::cmp::PartialEqSpecImpl for Remap {
    open spec fn obeys_eq_spec() -> bool {
        true
    }

    /// Two remaps are equal when they rename the interface alike and map the
    /// same items to the same names.
    open spec fn eq_spec(&self, other: &Self) -> bool {
        self.spec_interface() == other.spec_interface() && self.spec_items() == other.spec_items()
    }
}

} // verus!
