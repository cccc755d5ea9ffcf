//! Interface declarations shared by both runtimes.
//!
//! An [`Interface`] declares the functions and resources that implementers of a
//! binding must export. The interface name is not part of the struct but the key
//! under which the binding stores it, so no two interfaces share a name.

use vstd::prelude::*;

use crate::name_map::{NameMap, NameSet};

verus! {

/// Denotes whether a function is freestanding or a resource method.
/// Constructors are treated as freestanding functions.
///
/// Freestanding functions are dispatched to all plugins, while methods are
/// routed to the specific plugin that owns the resource.
#[derive(Debug, Clone, Copy, PartialEq, Eq, Structural)]
pub enum FunctionKind {
    /// A freestanding function, dispatched to all plugins.
    Freestanding,
    /// A resource method (has a `self` parameter), routed to the plugin that owns the resource.
    Method,
}

/// Categorizes a function's return for dispatch handling.
///
/// Resources require wrapping to track ownership across plugin boundaries,
/// while plain data is passed through directly. When uncertain, use
/// [`MayContainResources`](Self::MayContainResources);
/// [`AssumeNoResources`](Self::AssumeNoResources) skips the wrapping and is
/// only correct when the return type holds no resource handle anywhere.
#[derive(Debug, Clone, Copy, PartialEq, Eq, Hash, Structural)]
pub enum ReturnKind {
    /// Function returns nothing (void).
    Void,
    /// Function may return resource handles; always wraps them.
    MayContainResources,
    /// Assumes no resource handles are present and skips wrapping.
    AssumeNoResources,
}

impl Default for ReturnKind {
    fn default() -> (kind: Self)
        ensures
            kind == ReturnKind::Void,
    {
        ReturnKind::Void
    }
}

/// The sentence that describes how a return kind is handled.
pub open spec fn return_kind_text(kind: ReturnKind) -> Seq<char> {
    match kind {
        ReturnKind::Void => "Function returns no data"@,
        ReturnKind::MayContainResources => "Return type may contain resources"@,
        ReturnKind::AssumeNoResources => "Function is assumed to not return any resources"@,
    }
}

impl ReturnKind {
    /// Describes how the return value is handled during dispatch.
    pub fn to_string(&self) -> (text: String)
        ensures
            text@ == return_kind_text(*self),
    {
        match self {
            ReturnKind::Void => String::from_str("Function returns no data"),
            ReturnKind::MayContainResources => String::from_str(
                "Return type may contain resources",
            ),
            ReturnKind::AssumeNoResources => String::from_str(
                "Function is assumed to not return any resources",
            ),
        }
    }

    /// Whether a call to a function of this kind produces a value that the
    /// caller reads back.
    pub fn has_return(&self) -> (has: bool)
        ensures
            has == (*self != ReturnKind::Void),
    {
        !matches!(self, ReturnKind::Void)
    }
}

/// Metadata about a function declared by an interface.
#[derive(Debug, Clone, Copy, PartialEq, Eq, Structural)]
pub struct FunctionMetadata {
    kind: FunctionKind,
    return_kind: ReturnKind,
    is_async: bool,
}

impl FunctionMetadata {
    /// The function's kind.
    pub closed spec fn spec_kind(self) -> FunctionKind {
        self.kind
    }

    /// The function's return kind.
    pub closed spec fn spec_return_kind(self) -> ReturnKind {
        self.return_kind
    }

    /// Whether the function carries the WIT `async` effect.
    pub closed spec fn spec_is_async(self) -> bool {
        self.is_async
    }

    /// Metadata is determined by its kind, return kind and effect.
    pub proof fn lemma_determined(a: Self, b: Self)
        requires
            a.spec_kind() == b.spec_kind(),
            a.spec_return_kind() == b.spec_return_kind(),
            a.spec_is_async() == b.spec_is_async(),
        ensures
            a == b,
    {
    }

    /// Creates a new function metadata entry.
    pub fn new(kind: FunctionKind, return_kind: ReturnKind) -> (function: Self)
        ensures
            function.spec_kind() == kind,
            function.spec_return_kind() == return_kind,
            !function.spec_is_async(),
    {
        FunctionMetadata { kind, return_kind, is_async: false }
    }

    /// Creates metadata for a WIT function declared with the `async` effect.
    pub fn new_async(kind: FunctionKind, return_kind: ReturnKind) -> (function: Self)
        ensures
            function.spec_kind() == kind,
            function.spec_return_kind() == return_kind,
            function.spec_is_async(),
    {
        FunctionMetadata { kind, return_kind, is_async: true }
    }

    /// The function's return kind for dispatch handling.
    pub fn return_kind(&self) -> (return_kind: ReturnKind)
        ensures
            return_kind == self.spec_return_kind(),
    {
        self.return_kind
    }

    /// Whether this function is freestanding or a resource method.
    pub fn kind(&self) -> (kind: FunctionKind)
        ensures
            kind == self.spec_kind(),
    {
        self.kind
    }

    /// Whether the WIT function is declared with the `async` effect.
    pub fn is_async(&self) -> (is_async: bool)
        ensures
            is_async == self.spec_is_async(),
    {
        self.is_async
    }
}

/// A single WIT interface within a binding: the functions and resource types
/// that implementers must export.
#[derive(Debug, Clone)]
pub struct Interface {
    functions: NameMap<FunctionMetadata>,
    resources: NameSet,
}

impl Interface {
    /// The declared functions, by name.
    pub closed spec fn spec_functions(&self) -> Map<Seq<char>, FunctionMetadata> {
        self.functions@
    }

    /// The declared resource type names.
    pub closed spec fn spec_resources(&self) -> Set<Seq<char>> {
        self.resources@.dom()
    }

    /// Creates a new interface declaration.
    pub fn new(functions: NameMap<FunctionMetadata>, resources: NameSet) -> (interface: Self)
        ensures
            interface.spec_functions() == functions@,
            interface.spec_resources() == resources@.dom(),
    {
        Interface { functions, resources }
    }

    /// The declared function called `name`, if any.
    pub fn function(&self, name: &str) -> (function: Option<&FunctionMetadata>)
        ensures
            match function {
                Some(f) => self.spec_functions().contains_key(name@) && *f
                    == self.spec_functions()[name@],
                None => !self.spec_functions().contains_key(name@),
            },
    {
        self.functions.get(name)
    }

    /// The declared functions.
    pub fn functions(&self) -> (functions: &NameMap<FunctionMetadata>)
        ensures
            functions@ == self.spec_functions(),
    {
        &self.functions
    }

    /// The declared resource type names.
    pub fn resources(&self) -> (resources: &NameSet)
        ensures
            resources@.dom() == self.spec_resources(),
    {
        &self.resources
    }
}

impl Default for Interface {
    /// An interface that declares no function and no resource.
    fn default() -> (interface: Self)
        ensures
            interface.spec_functions() == Map::<Seq<char>, FunctionMetadata>::empty(),
            interface.spec_resources() == Set::<Seq<char>>::empty(),
    {
        let interface = Interface { functions: NameMap::new(), resources: NameMap::new() };
        proof {
            assert(interface.spec_resources() =~= Set::<Seq<char>>::empty());
        }
        interface
    }
}

} // verus!
