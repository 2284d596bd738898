//! The older, method-table shape of the interface description, with the
//! metadata format version folded into the record itself.

use crate::abi::TypeDef;
use vstd::prelude::*;
use vstd::string::*;

verus! {

/// Version of the metadata format.
pub open spec fn metadata_semver() -> Seq<char> {
    "0.0.1"@
}

/// Metadata of a single method: registry identifiers of its arguments,
/// callbacks, vector callbacks and result.
#[derive(Clone, Debug, PartialEq)]
pub struct MethodMetadata {
    pub name: String,
    pub is_view: bool,
    pub is_init: bool,
    pub args: Vec<u32>,
    pub callbacks: Vec<u32>,
    pub callbacks_vec: Vec<u32>,
    pub result: Option<u32>,
}

/// Metadata of the contract: the format version, all methods, and the type
/// registry's table.
#[derive(Clone, Debug, PartialEq)]
pub struct Metadata {
    pub schema_version: String,
    pub methods: Vec<MethodMetadata>,
    pub types: Vec<TypeDef>,
}

impl Metadata {
    /// Pack the method table and type table under the format's own version.
    pub fn new(methods: Vec<MethodMetadata>, types: Vec<TypeDef>) -> (r: Self)
        ensures
            r.schema_version@ == metadata_semver(),
            r.methods == methods,
            r.types == types,
    {
        Metadata { schema_version: "0.0.1".to_owned(), methods, types }
    }
}

} // verus!
