use cargo_near::errors::Error;
use cargo_near::toml_doc::duplicate_table;
use cargo_near::toml_doc::TomlValue;
use cargo_near::workspace::manifest::{Manifest, ManifestPath};

fn s(x: &str) -> TomlValue {
    TomlValue::Str(x.to_string())
}

fn entry(k: &str, v: TomlValue) -> (String, TomlValue) {
    (k.to_string(), v)
}

fn manifest_of(doc: Vec<(String, TomlValue)>) -> Manifest {
    Manifest::new(ManifestPath::new_default(), doc)
}

#[test]
fn add_crate_type_without_lib_section_fails() {
    let mut m = manifest_of(vec![entry("package", TomlValue::Tbl(vec![]))]);
    let r = m.with_added_crate_type("rlib");
    match r {
        Err(Error::SectionNotFound(sec)) => assert_eq!(sec, "lib"),
        other => panic!("expected a missing-section error, got {:?}", other),
    }
    // the document is left exactly as it was
    assert_eq!(m.document(), &vec![entry("package", TomlValue::Tbl(vec![]))]);
}

#[test]
fn add_crate_type_without_crate_type_field_fails() {
    let mut m = manifest_of(vec![entry("lib", TomlValue::Tbl(vec![]))]);
    match m.with_added_crate_type("rlib") {
        Err(Error::SectionNotFound(sec)) => assert_eq!(sec, "crate-type"),
        other => panic!("expected a missing-section error, got {:?}", other),
    }
}

#[test]
fn add_crate_type_on_non_array_fails() {
    let mut m = manifest_of(vec![entry(
        "lib",
        TomlValue::Tbl(vec![entry("crate-type", s("cdylib"))]),
    )]);
    match m.with_added_crate_type("rlib") {
        Err(Error::NotAnArray(sec)) => assert_eq!(sec, "crate-type"),
        other => panic!("expected a non-array error, got {:?}", other),
    }
}

#[test]
fn add_crate_type_appends_once() {
    let mut m = manifest_of(vec![entry(
        "lib",
        TomlValue::Tbl(vec![entry("crate-type", TomlValue::Arr(vec![s("cdylib")]))]),
    )]);
    m.with_added_crate_type("rlib").unwrap();
    let expected = vec![entry(
        "lib",
        TomlValue::Tbl(vec![entry(
            "crate-type",
            TomlValue::Arr(vec![s("cdylib"), s("rlib")]),
        )]),
    )];
    assert_eq!(m.document(), &expected);
    // adding the same kind again changes nothing
    m.with_added_crate_type("rlib").unwrap();
    assert_eq!(m.document(), &expected);
}

#[test]
fn profile_release_lto_is_created_when_absent() {
    let mut m = manifest_of(vec![]);
    m.with_profile_release_lto(false).unwrap();
    let expected = vec![entry(
        "profile",
        TomlValue::Tbl(vec![entry(
            "release",
            TomlValue::Tbl(vec![entry("lto", TomlValue::Bool(false))]),
        )]),
    )];
    assert_eq!(m.document(), &expected);
}

#[test]
fn profile_release_lto_overwrites_existing_flag() {
    let mut m = manifest_of(vec![entry(
        "profile",
        TomlValue::Tbl(vec![entry(
            "release",
            TomlValue::Tbl(vec![entry("lto", TomlValue::Bool(true))]),
        )]),
    )]);
    m.with_profile_release_lto(false).unwrap();
    let expected = vec![entry(
        "profile",
        TomlValue::Tbl(vec![entry(
            "release",
            TomlValue::Tbl(vec![entry("lto", TomlValue::Bool(false))]),
        )]),
    )];
    assert_eq!(m.document(), &expected);
}

#[test]
fn profile_must_be_a_table() {
    let mut m = manifest_of(vec![entry("profile", s("fast"))]);
    match m.with_profile_release_lto(false) {
        Err(Error::NotATable(sec)) => assert_eq!(sec, "profile"),
        other => panic!("expected a non-table error, got {:?}", other),
    }
}

#[test]
fn metadata_package_registers_member_and_flag() {
    let mut m = manifest_of(vec![]);
    assert!(!m.needs_metadata_package());
    m.with_metadata_package().unwrap();
    let expected = vec![entry(
        "workspace",
        TomlValue::Tbl(vec![entry(
            "members",
            TomlValue::Arr(vec![s(".near/metadata_gen")]),
        )]),
    )];
    assert_eq!(m.document(), &expected);
    assert!(m.needs_metadata_package());
}

fn sample_doc() -> Vec<(String, TomlValue)> {
    vec![
        entry(
            "lib",
            TomlValue::Tbl(vec![entry("path", s("src/lib.rs"))]),
        ),
        entry(
            "bin",
            TomlValue::Arr(vec![TomlValue::Tbl(vec![entry("path", s("src/main.rs"))])]),
        ),
        entry(
            "dependencies",
            TomlValue::Tbl(vec![
                entry("dep1", TomlValue::Tbl(vec![entry("path", s("../dep1"))])),
                entry(
                    "dep2",
                    TomlValue::Tbl(vec![
                        entry("path", s("../dep2")),
                        entry("package", s("other")),
                    ]),
                ),
                entry("plain", s("1.0")),
            ]),
        ),
    ]
}

#[test]
fn rewrite_makes_paths_absolute_and_keeps_excluded() {
    let mut m = manifest_of(sample_doc());
    let exclude = vec!["other".to_string()];
    m.rewrite_relative_paths("/work", &exclude, true, true).unwrap();
    let expected = vec![
        entry(
            "lib",
            TomlValue::Tbl(vec![entry("path", s("/work/src/lib.rs"))]),
        ),
        entry(
            "bin",
            TomlValue::Arr(vec![TomlValue::Tbl(vec![entry(
                "path",
                s("/work/src/main.rs"),
            )])]),
        ),
        entry(
            "dependencies",
            TomlValue::Tbl(vec![
                entry(
                    "dep1",
                    TomlValue::Tbl(vec![entry("path", s("/work/../dep1"))]),
                ),
                entry(
                    "dep2",
                    TomlValue::Tbl(vec![
                        entry("path", s("../dep2")),
                        entry("package", s("other")),
                    ]),
                ),
                entry("plain", s("1.0")),
            ]),
        ),
    ];
    assert_eq!(m.document(), &expected);
}

#[test]
fn rewrite_twice_equals_rewrite_once() {
    let exclude = vec!["other".to_string()];
    let mut once = manifest_of(sample_doc());
    once.rewrite_relative_paths("/work", &exclude, true, true).unwrap();
    let mut twice = manifest_of(sample_doc());
    twice.rewrite_relative_paths("/work", &exclude, true, true).unwrap();
    twice.rewrite_relative_paths("/work", &exclude, true, true).unwrap();
    assert_eq!(once.document(), twice.document());
}

#[test]
fn rewrite_supplies_default_lib_path() {
    let mut m = manifest_of(vec![entry("lib", TomlValue::Tbl(vec![]))]);
    m.rewrite_relative_paths("/work", &vec![], true, true).unwrap();
    let expected = vec![entry(
        "lib",
        TomlValue::Tbl(vec![entry("path", s("/work/src/lib.rs"))]),
    )];
    assert_eq!(m.document(), &expected);
}

#[test]
fn rewrite_fails_when_default_source_missing() {
    let mut m = manifest_of(vec![entry("lib", TomlValue::Tbl(vec![]))]);
    match m.rewrite_relative_paths("/work", &vec![], false, true) {
        Err(Error::DefaultSourceMissing(d)) => assert_eq!(d, "src/lib.rs"),
        other => panic!("expected a missing-default error, got {:?}", other),
    }
}

#[test]
fn rewrite_keeps_absolute_paths() {
    let mut m = manifest_of(vec![entry(
        "lib",
        TomlValue::Tbl(vec![entry("path", s("/already/abs.rs"))]),
    )]);
    m.rewrite_relative_paths("/work", &vec![], true, true).unwrap();
    let expected = vec![entry(
        "lib",
        TomlValue::Tbl(vec![entry("path", s("/already/abs.rs"))]),
    )];
    assert_eq!(m.document(), &expected);
}

#[test]
fn contract_package_name_reads_the_package_section() {
    let m = manifest_of(vec![entry(
        "package",
        TomlValue::Tbl(vec![entry("name", s("adder"))]),
    )]);
    assert_eq!(m.contract_package_name().unwrap(), "adder");
    let empty = manifest_of(vec![]);
    assert!(matches!(
        empty.contract_package_name(),
        Err(Error::SectionNotFound(sec)) if sec == "package"
    ));
}

#[test]
fn sdk_dependency_must_be_a_table() {
    let m = manifest_of(vec![entry(
        "dependencies",
        TomlValue::Tbl(vec![entry("near-sdk", s("4.0.0"))]),
    )]);
    assert!(matches!(
        m.sdk_dependency(),
        Err(Error::NotATable(sec)) if sec == "near-sdk"
    ));
    let t = manifest_of(vec![entry(
        "dependencies",
        TomlValue::Tbl(vec![entry(
            "near-sdk",
            TomlValue::Tbl(vec![entry("version", s("4.0.0"))]),
        )]),
    )]);
    assert_eq!(
        t.sdk_dependency().unwrap(),
        &vec![entry("version", s("4.0.0"))]
    );
}

#[test]
fn duplicate_copies_values_deeply() {
    let original = vec![entry(
        "a",
        TomlValue::Arr(vec![s("x"), TomlValue::Tbl(vec![entry("b", TomlValue::Int(7))])]),
    )];
    let copy = duplicate_table(&original);
    assert_eq!(copy, original);
}

#[test]
fn rewrite_rejects_non_string_lib_path() {
    let mut m = manifest_of(vec![entry(
        "lib",
        TomlValue::Tbl(vec![entry("path", TomlValue::Bool(true))]),
    )]);
    match m.rewrite_relative_paths("/work", &vec![], true, true) {
        Err(Error::NotAString(sec)) => assert_eq!(sec, "path"),
        other => panic!("expected a non-string error, got {:?}", other),
    }
}

#[test]
fn rewrite_rejects_non_string_dependency_path() {
    let mut m = manifest_of(vec![entry(
        "dependencies",
        TomlValue::Tbl(vec![entry(
            "dep1",
            TomlValue::Tbl(vec![entry("path", TomlValue::Int(3))]),
        )]),
    )]);
    // the error names the dependency's resolved package name
    match m.rewrite_relative_paths("/work", &vec![], true, true) {
        Err(Error::NotAString(pkg)) => assert_eq!(pkg, "dep1"),
        other => panic!("expected a non-string error, got {:?}", other),
    }
}

#[test]
fn rewrite_rejects_non_array_bin_section() {
    let mut m = manifest_of(vec![entry("bin", TomlValue::Tbl(vec![]))]);
    match m.rewrite_relative_paths("/work", &vec![], true, true) {
        Err(Error::NotAnArray(sec)) => assert_eq!(sec, "bin"),
        other => panic!("expected a non-array error, got {:?}", other),
    }
}

#[test]
fn rewrite_leaves_dependency_without_path_alone() {
    let mut m = manifest_of(vec![entry(
        "dependencies",
        TomlValue::Tbl(vec![entry(
            "dep1",
            TomlValue::Tbl(vec![entry("version", s("1.0"))]),
        )]),
    )]);
    m.rewrite_relative_paths("/work", &vec![], true, true).unwrap();
    let expected = vec![entry(
        "dependencies",
        TomlValue::Tbl(vec![entry(
            "dep1",
            TomlValue::Tbl(vec![entry("version", s("1.0"))]),
        )]),
    )];
    assert_eq!(m.document(), &expected);
}
