//! A handle to a build manifest file location, without validation.

use crate::errors::Error;
use crate::paths::{
    all_separators, canonicalize_path, is_absolute_path, parent_dir, path_is_root_or_empty,
    path_parent_dir,
};
use vstd::prelude::*;
use vstd::string::*;

verus! {

/// The prefix of the argument that points an external tool invocation at a
/// manifest.
pub open spec fn manifest_arg_prefix() -> Seq<char> {
    "--manifest-path="@
}

/// Format the argument that points an external tool invocation at the given
/// manifest path.
pub fn manifest_path_arg(path: &str) -> (r: String)
    ensures
        r@ == manifest_arg_prefix() + path@,
{
    let mut s: String = "--manifest-path=".to_owned();
    s.append(path);
    s
}

/// Path to a build manifest file.
#[derive(Clone, Debug)]
pub struct CargoManifest {
    path: String,
}

impl View for CargoManifest {
    type V = Seq<char>;

    closed spec fn view(&self) -> Seq<char> {
        self.path@
    }
}

impl CargoManifest {
    /// Wrap a path, as given.
    pub fn new(path: String) -> (r: Self)
        ensures
            r@ == path@,
    {
        CargoManifest { path }
    }

    /// The manifest-path argument for the external tool, over the
    /// canonicalized form of this path; an error carrying the path when the
    /// filesystem cannot canonicalize it.
    pub fn cargo_arg(&self) -> (r: Result<String, Error>)
        ensures
            r matches Ok(s) ==> exists|c: Seq<char>|
                #[trigger] is_absolute_path(c) && s@ == manifest_arg_prefix() + c,
            r matches Err(e) ==> e matches Error::Canonicalize(p) && p@ == self@,
    {
        match canonicalize_path(self.path.as_str()) {
            Some(c) => Ok(manifest_path_arg(c.as_str())),
            None => Err(Error::Canonicalize(self.path.clone())),
        }
    }

    /// The directory part of the path; nothing when the path has no parent
    /// (it is empty or the root itself).
    pub fn directory(&self) -> (r: Option<String>)
        ensures
            match r {
                Some(d) => d@ == parent_dir(self@) && !all_separators(self@),
                None => all_separators(self@),
            },
    {
        if path_is_root_or_empty(self.path.as_str()) {
            None
        } else {
            Some(path_parent_dir(self.path.as_str()))
        }
    }

    /// The canonicalized directory of the manifest: its parent when it has
    /// one, the current directory otherwise. On success the result is
    /// absolute; an error carrying the path when canonicalization fails.
    pub fn absolute_directory(&self) -> (r: Result<String, Error>)
        ensures
            r matches Ok(s) ==> is_absolute_path(s@),
            r matches Err(e) ==> e matches Error::Canonicalize(p) && p@ == self@,
    {
        let dir: String = match self.directory() {
            Some(d) => d,
            None => "./".to_owned(),
        };
        match canonicalize_path(dir.as_str()) {
            Some(c) => Ok(c),
            None => Err(Error::Canonicalize(self.path.clone())),
        }
    }
}

} // verus!
