//! Extraction of a machine-readable interface description from a compiled
//! library unit: a manifest document editor, a workspace staging planner, a
//! structural type registry, and the merge of the emitted interface with the
//! crate's own packaging facts.

pub mod abi;
pub mod cli;
pub mod cargo_manifest;
pub mod errors;
pub mod metadata;
pub mod paths;
pub mod registry;
pub mod sdk_metadata;
pub mod toml_doc;
pub mod util;
pub mod workspace;

use vstd::prelude::*;

verus! {

} // verus!
