//! Declarations for the synchronous runtime.
//!
//! Synchronous plugins cannot contain WIT-async functions, so the shared
//! metadata types serve directly as this runtime's declarations.

pub use crate::interface::FunctionMetadata as Function;
pub use crate::interface::Interface;
