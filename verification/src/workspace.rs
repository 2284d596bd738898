//! Staging of an amended copy of a build manifest tree: the manifest path
//! handle, the manifest document editor, the synthesized driver package, and
//! the scratch-directory lifecycle.

pub mod manifest;
pub mod metadata;
pub mod rewrite;
pub mod staging;
