//! A WebAssembly plugin runtime for building modular applications: the
//! verified core that decides how calls are routed between plugins.

pub mod binding;
pub mod cardinality;
pub mod concurrent;
pub mod dispatch_error;
pub mod errors;
pub mod id_map;
pub mod interface;
pub mod linker;
pub mod name_map;
pub mod plugin;
pub mod plugin_instance;
pub mod remap;
pub mod retained;
pub mod sync;
pub mod transfer;
pub mod turns;
pub mod value;
pub mod wrapper_table;

pub use interface::{FunctionKind, FunctionMetadata, Interface, ReturnKind};
pub use name_map::{NameMap, NameSet};
pub use remap::{ItemResolutionTable, Remap};
pub use id_map::{IdMap, PluginId};
pub use errors::{DispatchError, ResourceCreationError, ResourceReceiveError};
pub use value::Value;
pub use binding::Binding;
