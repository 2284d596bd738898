//! The command surface: one subcommand taking an optional manifest path.

use crate::errors::Error;
use crate::workspace::manifest::{manifest_file_name, path_names_manifest, ManifestPath};
use vstd::prelude::*;

verus! {

/// The metadata subcommand's arguments: an optional path to the manifest
/// of the contract to build; absent, the manifest in the current directory.
pub struct MetadataCommand {
    pub manifest_path: Option<String>,
}

impl MetadataCommand {
    /// The manifest path the command works on: the given path, validated,
    /// or the default.
    pub fn resolve_manifest_path(&self) -> (r: Result<ManifestPath, Error>)
        ensures
            match self.manifest_path {
                Some(p) => (r matches Ok(m) ==> m@ == p@ && path_names_manifest(p@)) && (r
                    matches Err(e) ==> e is NotAManifest && !path_names_manifest(p@)),
                None => r matches Ok(m) && m@ == manifest_file_name(),
            },
    {
        match &self.manifest_path {
            Some(p) => ManifestPath::new(p.clone()),
            None => Ok(ManifestPath::new_default()),
        }
    }
}

} // verus!
