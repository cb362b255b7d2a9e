//! Finds the documentation attached to a declaration inside a package's
//! sources, addressed by a path such as `package::module::Type::field`.
//!
//! The library reads no file. A caller builds the registry of package roots
//! (`CrateRoots`), keeps the source files that it has read in a store
//! (`Sources`), and runs `find_doc_for_item` until it asks for no further
//! file.

pub mod directive;
pub mod docs;
pub mod laws;
pub mod path;
pub mod registry;
pub mod resolver;
pub mod source;
pub mod syntax;
pub mod tree;

pub use crate::docs::MalformedDocAttribute;
pub use crate::path::{PathError, RustPath};
pub use crate::registry::{
    CrateRoots, ManifestReading, RegistryError, RegistryFailure, RegistryProgress, RootEntry,
};
pub use crate::resolver::{find_doc_for_item, FailureKind, Progress, ResolveError};
pub use crate::source::{Loaded, SourceFile, Sources};
