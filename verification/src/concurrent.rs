//! Declarations for the concurrent, async-capable runtime.
//!
//! Functions may carry the WIT `async` effect here; the declarations are
//! lowered to the shared [`crate::interface`] metadata before linking.

use vstd::prelude::*;

use crate::interface::{FunctionKind, FunctionMetadata, Interface as InterfaceMetadata, ReturnKind};
use crate::name_map::{NameMap, NameSet};

verus! {

/// Metadata for a WIT function in the concurrent runtime.
#[derive(Debug, Clone, Copy, PartialEq, Eq, Structural)]
pub struct Function {
    kind: FunctionKind,
    return_kind: ReturnKind,
    is_async: bool,
}

impl Function {
    /// The function's kind.
    pub closed spec fn spec_kind(self) -> FunctionKind {
        self.kind
    }

    /// The function's return kind.
    pub closed spec fn spec_return_kind(self) -> ReturnKind {
        self.return_kind
    }

    /// Whether the function carries the WIT `async` effect.
    pub closed spec fn spec_is_async(self) -> bool {
        self.is_async
    }

    /// A function is determined by its kind, return kind and effect.
    pub proof fn lemma_determined(a: Self, b: Self)
        requires
            a.spec_kind() == b.spec_kind(),
            a.spec_return_kind() == b.spec_return_kind(),
            a.spec_is_async() == b.spec_is_async(),
        ensures
            a == b,
    {
    }

    /// Creates metadata for a synchronous WIT function.
    pub fn new(kind: FunctionKind, return_kind: ReturnKind) -> (function: Self)
        ensures
            function.spec_kind() == kind,
            function.spec_return_kind() == return_kind,
            !function.spec_is_async(),
    {
        Function { kind, return_kind, is_async: false }
    }

    /// Creates metadata for a WIT function declared with the `async` effect.
    pub fn new_async(kind: FunctionKind, return_kind: ReturnKind) -> (function: Self)
        ensures
            function.spec_kind() == kind,
            function.spec_return_kind() == return_kind,
            function.spec_is_async(),
    {
        Function { kind, return_kind, is_async: true }
    }

    /// Returns whether the function is freestanding or a resource method.
    pub fn kind(&self) -> (kind: FunctionKind)
        ensures
            kind == self.spec_kind(),
    {
        self.kind
    }

    /// Returns how dispatch handles the function's return value.
    pub fn return_kind(&self) -> (return_kind: ReturnKind)
        ensures
            return_kind == self.spec_return_kind(),
    {
        self.return_kind
    }

    /// Returns whether the WIT function has the `async` effect.
    pub fn is_async(&self) -> (is_async: bool)
        ensures
            is_async == self.spec_is_async(),
    {
        self.is_async
    }

    /// Lowers this declaration to the shared function metadata.
    pub fn into_metadata(self) -> (metadata: FunctionMetadata)
        ensures
            metadata.spec_kind() == self.spec_kind(),
            metadata.spec_return_kind() == self.spec_return_kind(),
            metadata.spec_is_async() == self.spec_is_async(),
    {
        match self.is_async {
            true => FunctionMetadata::new_async(self.kind, self.return_kind),
            false => FunctionMetadata::new(self.kind, self.return_kind),
        }
    }

    /// Reads a declaration back from the shared function metadata.
    pub fn from_metadata(metadata: &FunctionMetadata) -> (function: Self)
        ensures
            function.spec_kind() == metadata.spec_kind(),
            function.spec_return_kind() == metadata.spec_return_kind(),
            function.spec_is_async() == metadata.spec_is_async(),
    {
        Function {
            kind: metadata.kind(),
            return_kind: metadata.return_kind(),
            is_async: metadata.is_async(),
        }
    }
}

/// Lowers a borrowed declaration to the shared function metadata.
fn lower_function(function: &Function) -> (metadata: FunctionMetadata)
    ensures
        metadata.spec_kind() == function.spec_kind(),
        metadata.spec_return_kind() == function.spec_return_kind(),
        metadata.spec_is_async() == function.spec_is_async(),
{
    function.into_metadata()
}

/// A WIT interface declaration in the concurrent runtime.
pub struct Interface {
    functions: NameMap<Function>,
    resources: NameSet,
}

impl Interface {
    /// The declared functions, by name.
    pub closed spec fn spec_functions(&self) -> Map<Seq<char>, Function> {
        self.functions@
    }

    /// The declared resource type names.
    pub closed spec fn spec_resources(&self) -> Set<Seq<char>> {
        self.resources@.dom()
    }

    /// Creates an interface containing synchronous or asynchronous functions.
    pub fn new(functions: NameMap<Function>, resources: NameSet) -> (interface: Self)
        ensures
            interface.spec_functions() == functions@,
            interface.spec_resources() == resources@.dom(),
    {
        Interface { functions, resources }
    }

    /// Lowers this declaration to the shared interface metadata, keeping
    /// every function name, kind, return kind and effect.
    pub fn into_metadata(self) -> (metadata: InterfaceMetadata)
        ensures
            metadata.spec_functions().dom() == self.spec_functions().dom(),
            forall|name: Seq<char>|
                #[trigger] self.spec_functions().contains_key(name) ==> {
                    let f = self.spec_functions()[name];
                    let m = metadata.spec_functions()[name];
                    &&& m.spec_kind() == f.spec_kind()
                    &&& m.spec_return_kind() == f.spec_return_kind()
                    &&& m.spec_is_async() == f.spec_is_async()
                },
            metadata.spec_resources() == self.spec_resources(),
    {
        let functions = self.functions.map_values(lower_function);
        InterfaceMetadata::new(functions, self.resources)
    }
}

/// Lowering a function to metadata and reading it back gives the same
/// function.
pub proof fn law_function_metadata_round_trip(function: Function, metadata: FunctionMetadata)
    requires
        metadata.spec_kind() == function.spec_kind(),
        metadata.spec_return_kind() == function.spec_return_kind(),
        metadata.spec_is_async() == function.spec_is_async(),
    ensures
        forall|back: Function|
            back.spec_kind() == metadata.spec_kind() && back.spec_return_kind()
                == metadata.spec_return_kind() && back.spec_is_async() == metadata.spec_is_async()
                ==> back == function,
{
}

} // verus!
