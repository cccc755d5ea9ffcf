//! Bindings: the contract between plugins and the plugins that implement it.
//!
//! A binding bundles the interfaces of one package under a single
//! identifier, together with the plugins that implement them, held in one of
//! the cardinality wrappers. Calling a function of a binding first resolves
//! the interface and the function by name.

use vstd::prelude::*;

use crate::errors::DispatchError;
use crate::interface::{FunctionMetadata, Interface};
use crate::name_map::NameMap;
use crate::remap::interface_path;

verus! {

/// A package's interfaces and the plugins that implement them.
pub struct Binding<Plugins> {
    package_name: String,
    interfaces: NameMap<Interface>,
    plugins: Plugins,
}

/// What resolving `interface_name` and `function_name` in a package with
/// `interfaces` gives: the function's metadata, or the error naming what is
/// missing, the interface by its full path `package/interface` or the
/// function by its name.
pub open spec fn resolution_matches(
    package_name: Seq<char>,
    interfaces: Map<Seq<char>, Interface>,
    interface_name: Seq<char>,
    function_name: Seq<char>,
    resolved: Result<FunctionMetadata, DispatchError>,
) -> bool {
    if !interfaces.contains_key(interface_name) {
        resolved matches Err(DispatchError::InvalidInterfacePath(path)) && path@ == package_name
            + "/"@ + interface_name
    } else if !interfaces[interface_name].spec_functions().contains_key(function_name) {
        resolved matches Err(DispatchError::InvalidFunction(name)) && name@ == function_name
    } else {
        resolved == Ok::<FunctionMetadata, DispatchError>(
            interfaces[interface_name].spec_functions()[function_name],
        )
    }
}

impl<Plugins> Binding<Plugins> {
    /// The package name.
    pub closed spec fn spec_package_name(&self) -> Seq<char> {
        self.package_name@
    }

    /// The interfaces, by name.
    pub closed spec fn spec_interfaces(&self) -> Map<Seq<char>, Interface> {
        self.interfaces@
    }

    /// The plugins that implement the binding.
    pub closed spec fn spec_plugins(&self) -> Plugins {
        self.plugins
    }

    /// Creates a binding of `package_name`'s `interfaces`, implemented by
    /// `plugins`.
    pub fn new(package_name: String, interfaces: NameMap<Interface>, plugins: Plugins) -> (binding:
        Self)
        ensures
            binding.spec_package_name() == package_name@,
            binding.spec_interfaces() == interfaces@,
            binding.spec_plugins() == plugins,
    {
        Binding { package_name, interfaces, plugins }
    }

    /// The package name.
    pub fn package_name(&self) -> (name: &str)
        ensures
            name@ == self.spec_package_name(),
    {
        self.package_name.as_str()
    }

    /// The interfaces, by name.
    pub fn interfaces(&self) -> (interfaces: &NameMap<Interface>)
        ensures
            interfaces@ == self.spec_interfaces(),
    {
        &self.interfaces
    }

    /// The plugins that implement the binding.
    pub fn plugins(&self) -> (plugins: &Plugins)
        ensures
            *plugins == self.spec_plugins(),
    {
        &self.plugins
    }

    /// Resolves a function of one of the binding's interfaces.
    ///
    /// Fails with [`DispatchError::InvalidInterfacePath`], naming the path
    /// `package/interface`, when the binding has no such interface, and with
    /// [`DispatchError::InvalidFunction`], naming the function, when the
    /// interface has no such function.
    pub fn resolve_function(&self, interface_name: &str, function_name: &str) -> (resolved: Result<
        &FunctionMetadata,
        DispatchError,
    >)
        ensures
            resolution_matches(
                self.spec_package_name(),
                self.spec_interfaces(),
                interface_name@,
                function_name@,
                match resolved {
                    Ok(f) => Ok(*f),
                    Err(e) => Err(e),
                },
            ),
    {
        let interface = match self.interfaces.get(interface_name) {
            Some(interface) => interface,
            None => {
                return Err(
                    DispatchError::InvalidInterfacePath(
                        interface_path(self.package_name.as_str(), interface_name),
                    ),
                );
            },
        };
        match interface.function(function_name) {
            Some(function) => Ok(function),
            None => Err(DispatchError::InvalidFunction(String::from_str(function_name))),
        }
    }
}

} // verus!
