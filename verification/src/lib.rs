//! Core of a document/markup compiler's syntax tree: span-tagged nodes, an
//! open extension point for submodels behind a type-erased value with checked
//! downcasting, structural equality and deep cloning, and a layout capability
//! that turns models into renderable commands plus accumulated diagnostics.
//!
//! - [`span`]: source ranges and the wrapper pairing a value with one.
//! - [`feedback`]: diagnostics bundles and the result-plus-feedback pair.
//! - [`layout`]: the layout engine's context and the commands emitted to it.
//! - [`model`]: the model capability, the erasure bounds and the erased value.
//! - [`syntax`]: the node kinds, the tree container and the decoration tags.
//! - [`codec`]: the tree's own erasure bounds, so trees nest inside trees.
//! - [`ext`]: extension model types bundled with the core.

pub mod codec;
pub mod ext;
pub mod feedback;
pub mod layout;
pub mod model;
pub mod span;
pub mod syntax;
