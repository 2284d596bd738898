use cargo_near::cargo_manifest::CargoManifest;
use cargo_near::errors::Error;
use cargo_near::paths::{path_file_part, path_is_absolute, path_join, path_parent_dir, str_eq};
use cargo_near::workspace::manifest::ManifestPath;

#[test]
fn join_inserts_separator() {
    assert_eq!(path_join("/a", "b"), "/a/b");
    assert_eq!(path_join("/a/", "b"), "/a/b");
    assert_eq!(path_join("", "b"), "/b");
}

#[test]
fn absolute_paths_start_at_root() {
    assert!(path_is_absolute("/work"));
    assert!(!path_is_absolute("work"));
    assert!(!path_is_absolute(""));
}

#[test]
fn file_part_is_after_last_separator() {
    assert_eq!(path_file_part("foo/Cargo.toml"), "Cargo.toml");
    assert_eq!(path_file_part("Cargo.toml"), "Cargo.toml");
    assert_eq!(path_file_part("foo/"), "");
}

#[test]
fn parent_dir_drops_file_part() {
    assert_eq!(path_parent_dir("foo/Cargo.toml"), "foo");
    assert_eq!(path_parent_dir("/Cargo.toml"), "/");
    assert_eq!(path_parent_dir("Cargo.toml"), "");
    assert_eq!(path_parent_dir("a/b/c"), "a/b");
}

#[test]
fn str_eq_compares_contents() {
    assert!(str_eq("abc", "abc"));
    assert!(!str_eq("abc", "abd"));
    assert!(!str_eq("abc", "ab"));
}

#[test]
fn manifest_path_accepts_manifest_file() {
    let m = ManifestPath::new("sub/Cargo.toml".to_string()).unwrap();
    assert_eq!(m.as_str(), "sub/Cargo.toml");
    assert_eq!(m.directory(), Some("sub".to_string()));
}

#[test]
fn manifest_path_rejects_other_file() {
    let r = ManifestPath::new("sub/other.toml".to_string());
    assert!(matches!(r, Err(Error::NotAManifest)));
}

#[test]
fn manifest_path_default_has_no_directory() {
    let m = ManifestPath::new_default();
    assert_eq!(m.as_str(), "Cargo.toml");
    assert!(m.directory().is_none());
}

#[test]
fn manifest_path_cargo_arg_is_canonical() {
    // the root directory exists everywhere and canonicalizes to itself
    let m = ManifestPath::new("/".to_string()).unwrap();
    let arg = m.cargo_arg().unwrap();
    assert_eq!(arg, "--manifest-path=/");
}

#[test]
fn manifest_path_absolute_directory_is_absolute() {
    let m = ManifestPath::new_default();
    let d = m.absolute_directory().unwrap();
    assert!(d.starts_with('/'));
}

#[test]
fn manifest_path_cargo_arg_missing_file_fails() {
    let m = ManifestPath::new("no/such/dir/Cargo.toml".to_string()).unwrap();
    match m.cargo_arg() {
        Err(Error::Canonicalize(p)) => assert_eq!(p, "no/such/dir/Cargo.toml"),
        other => panic!("expected a canonicalization failure, got {:?}", other),
    }
}

#[test]
fn cargo_manifest_wraps_any_path() {
    let m = CargoManifest::new("sub/whatever.toml".to_string());
    assert_eq!(m.directory(), Some("sub".to_string()));
}

#[test]
fn error_describe_names_subject() {
    let e = Error::SectionNotFound("lib".to_string());
    assert_eq!(e.describe(), "section not found: lib");
    let e2 = Error::NotAManifest;
    assert_eq!(e2.describe(), "Manifest file must be a Cargo.toml");
}

#[test]
fn manifest_path_rejects_trailing_separator_paths() {
    // `foo/` and `foo/.` both name the file `foo`, which is no manifest
    assert!(matches!(
        ManifestPath::new("foo/".to_string()),
        Err(Error::NotAManifest)
    ));
    assert!(matches!(
        ManifestPath::new("foo/.".to_string()),
        Err(Error::NotAManifest)
    ));
}

#[test]
fn manifest_path_accepts_paths_without_file_name() {
    // `a/..`, `.` and `/` have no file name component, as the original accepts
    assert!(ManifestPath::new("a/..".to_string()).is_ok());
    assert!(ManifestPath::new(".".to_string()).is_ok());
    assert!(ManifestPath::new("/".to_string()).is_ok());
    // a trailing separator after the manifest file name still names it
    assert!(ManifestPath::new("sub/Cargo.toml/".to_string()).is_ok());
}

#[test]
fn parent_dir_ignores_trailing_separators() {
    assert_eq!(path_parent_dir("foo/"), "");
    assert_eq!(path_parent_dir("a/b/"), "a");
    assert_eq!(path_parent_dir("a/b/."), "a");
}

#[test]
fn cargo_manifest_directory_of_root_is_none() {
    assert!(CargoManifest::new("".to_string()).directory().is_none());
    assert!(CargoManifest::new("/".to_string()).directory().is_none());
    assert_eq!(
        CargoManifest::new("foo/".to_string()).directory(),
        Some("".to_string())
    );
}

#[test]
fn manifest_path_directory_ignores_trailing_separator() {
    let m = ManifestPath::new("Cargo.toml/".to_string()).unwrap();
    assert!(m.directory().is_none());
}
