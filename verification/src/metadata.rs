//! The merge of the structural interface description with the crate's own
//! packaging facts, into the one artifact the tool persists.

use crate::abi::{Abi, AbiRoot};
use crate::paths::{join_path, path_join};
use vstd::prelude::*;
use vstd::string::*;

verus! {

/// The file name of the persisted artifact, inside the target directory.
pub open spec fn metadata_file_name() -> Seq<char> {
    "abi.json"@
}

/// Packaging facts of one package, as the build tool's metadata reports
/// them: name, version rendered as text, and authors.
pub struct PackageMeta {
    pub name: String,
    pub version: String,
    pub authors: Vec<String>,
}

/// What one extraction run knows of the crate graph it works on: the root
/// package's facts and the build tool's target directory.
pub struct CrateMetadata {
    pub root_package: PackageMeta,
    pub target_directory: String,
}

/// Metadata generation result: where the artifact was written.
pub struct MetadataResult {
    pub dest_metadata: String,
}

/// Smart contract meta information, sourced from the crate's own package
/// metadata rather than from the compiled artifact.
#[derive(Clone, Debug, PartialEq)]
pub struct ContractMetaInfo {
    pub name: String,
    pub version: String,
    pub authors: Vec<String>,
}

/// The persisted artifact: the schema format version, the meta information,
/// and the structural interface description.
#[derive(Clone, Debug, PartialEq)]
pub struct ContractMetadata {
    pub abi_schema_version: String,
    pub metainfo: ContractMetaInfo,
    pub abi: Abi,
}

impl ContractMetadata {
    /// Merge the description the driver emitted with the independently
    /// sourced meta information; the schema version is carried over
    /// unchanged from the description.
    pub fn new(abi_root: AbiRoot, metainfo: ContractMetaInfo) -> (r: Self)
        ensures
            r.abi_schema_version == abi_root.abi_schema_version,
            r.metainfo == metainfo,
            r.abi == abi_root.abi,
    {
        ContractMetadata {
            abi_schema_version: abi_root.abi_schema_version,
            metainfo,
            abi: abi_root.abi,
        }
    }
}

/// Each string of the list, copied.
fn clone_strings(v: &Vec<String>) -> (r: Vec<String>)
    ensures
        r@.len() == v@.len(),
        forall|i: int| 0 <= i < v@.len() ==> (#[trigger] r@[i])@ == v@[i]@,
{
    let n = v.len();
    let mut out: Vec<String> = Vec::new();
    let mut i: usize = 0;
    while i < n
        invariant
            i <= n,
            n == v@.len(),
            out@.len() == i,
            forall|j: int| 0 <= j < i ==> (#[trigger] out@[j])@ == v@[j]@,
        decreases n - i,
    {
        out.push(v[i].clone());
        i = i + 1;
    }
    out
}

/// The meta information of the crate's root package: its name, version and
/// authors, taken from the build tool's metadata and not from the compiled
/// artifact.
pub fn extract_metainfo(crate_metadata: &CrateMetadata) -> (r: ContractMetaInfo)
    ensures
        r.name@ == crate_metadata.root_package.name@,
        r.version@ == crate_metadata.root_package.version@,
        r.authors@.len() == crate_metadata.root_package.authors@.len(),
        forall|i: int|
            0 <= i < r.authors@.len() ==> (#[trigger] r.authors@[i])@
                == crate_metadata.root_package.authors@[i]@,
{
    ContractMetaInfo {
        name: crate_metadata.root_package.name.clone(),
        version: crate_metadata.root_package.version.clone(),
        authors: clone_strings(&crate_metadata.root_package.authors),
    }
}

/// Where the artifact is written: the metadata file inside the target
/// directory.
pub fn metadata_output_path(target_directory: &str) -> (r: String)
    ensures
        r@ == join_path(target_directory@, metadata_file_name()),
{
    path_join(target_directory, "abi.json")
}

} // verus!
