//! The decisions around one external build-tool invocation: which program
//! to run, with which arguments, and what its exit means. Spawning the
//! process and capturing its output happen outside the library; the
//! functions here fix what is handed to it and what is made of what comes
//! back.

use crate::errors::Error;
use crate::paths::{join_path, path_join};
use vstd::prelude::*;
use vstd::string::*;

verus! {

/// The program to invoke: the value of the overriding environment
/// variable when one is set, the default program name otherwise.
pub fn cargo_program(env_override: Option<String>) -> (r: String)
    ensures
        match env_override {
            Some(c) => r@ == c@,
            None => r@ == "cargo"@,
        },
{
    match env_override {
        Some(c) => c,
        None => "cargo".to_owned(),
    }
}

/// The argument that points the tool's build at its own target directory,
/// kept distinct from the caller's.
pub fn target_dir_arg(target_directory: &str) -> (r: String)
    ensures
        r@ == "--target-dir="@ + target_directory@,
{
    let mut s: String = "--target-dir=".to_owned();
    s.append(target_directory);
    s
}

/// The dedicated target directory of one extraction run: a directory of
/// its own inside the caller's target directory, distinct from that
/// directory itself, so the driver build does not interfere with the
/// caller's own or concurrent builds.
pub fn metadata_build_dir(target_directory: &str) -> (r: String)
    ensures
        r@ == join_path(target_directory@, "metadata-build"@),
        r@ != target_directory@,
{
    let d = path_join(target_directory, "metadata-build");
    proof {
        reveal_strlit("metadata-build");
        assert(d@.len() > target_directory@.len());
    }
    d
}

/// The full argument list of the one tool invocation: run the driver
/// package, against the mirrored manifest, into the dedicated target
/// directory, under the release profile.
pub fn metadata_run_args(manifest_arg: String, target_directory: &str) -> (r: Vec<String>)
    ensures
        r@.len() == 6,
        r@[0]@ == "run"@,
        r@[1]@ == "--package"@,
        r@[2]@ == "metadata-gen"@,
        r@[3]@ == manifest_arg@,
        r@[4]@ == "--target-dir="@ + target_directory@,
        r@[5]@ == "--release"@,
{
    let mut args: Vec<String> = Vec::new();
    args.push("run".to_owned());
    args.push("--package".to_owned());
    args.push("metadata-gen".to_owned());
    args.push(manifest_arg);
    args.push(target_dir_arg(target_directory));
    args.push("--release".to_owned());
    args
}

/// What the tool's exit means: a successful exit hands back the captured
/// bytes; a non-zero exit is fatal and reports the exit code.
pub fn tool_outcome(exit_success: bool, exit_code: Option<i64>, stdout: Vec<u8>) -> (r: Result<
    Vec<u8>,
    Error,
>)
    ensures
        r is Ok <==> exit_success,
        r matches Ok(b) ==> b == stdout,
        r matches Err(e) ==> e matches Error::ToolFailed(c) && c == exit_code,
{
    if exit_success {
        Ok(stdout)
    } else {
        Err(Error::ToolFailed(exit_code))
    }
}

} // verus!
