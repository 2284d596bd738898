use cargo_near::abi::{Abi, AbiRoot};
use cargo_near::cli::MetadataCommand;
use cargo_near::errors::Error;
use cargo_near::metadata::{
    extract_metainfo, metadata_output_path, ContractMetaInfo, ContractMetadata, CrateMetadata,
    PackageMeta,
};
use cargo_near::sdk_metadata::Metadata;
use cargo_near::toml_doc::TomlValue;
use cargo_near::util::{cargo_program, metadata_build_dir, metadata_run_args, tool_outcome};
use cargo_near::workspace::metadata::generate_package_manifest;
use cargo_near::workspace::staging::{advance, step_of, ScratchPhase, ScratchStep};

fn entry(k: &str, v: TomlValue) -> (String, TomlValue) {
    (k.to_string(), v)
}

#[test]
fn merge_keeps_metainfo_and_schema_version() {
    let abi_root = AbiRoot {
        abi_schema_version: "0.0.1".to_string(),
        abi: Abi { functions: vec![], types: vec![] },
    };
    let metainfo = ContractMetaInfo {
        name: "adder".to_string(),
        version: "0.1.0".to_string(),
        authors: vec!["a".to_string()],
    };
    let merged = ContractMetadata::new(abi_root, metainfo);
    assert_eq!(merged.abi_schema_version, "0.0.1");
    assert_eq!(merged.metainfo.name, "adder");
    assert_eq!(merged.metainfo.version, "0.1.0");
    assert_eq!(merged.metainfo.authors, vec!["a".to_string()]);
    assert!(merged.abi.functions.is_empty());
    assert!(merged.abi.types.is_empty());
}

#[test]
fn extract_metainfo_copies_the_root_package() {
    let cm = CrateMetadata {
        root_package: PackageMeta {
            name: "adder".to_string(),
            version: "0.1.0".to_string(),
            authors: vec!["a".to_string(), "b".to_string()],
        },
        target_directory: "/t".to_string(),
    };
    let mi = extract_metainfo(&cm);
    assert_eq!(mi.name, "adder");
    assert_eq!(mi.version, "0.1.0");
    assert_eq!(mi.authors, vec!["a".to_string(), "b".to_string()]);
}

#[test]
fn sdk_metadata_carries_its_own_version() {
    let m = Metadata::new(vec![], vec![]);
    assert_eq!(m.schema_version, "0.0.1");
    assert!(m.methods.is_empty());
    assert!(m.types.is_empty());
}

#[test]
fn artifact_is_written_inside_the_target_directory() {
    assert_eq!(metadata_output_path("/t/target"), "/t/target/abi.json");
}

#[test]
fn run_arguments_are_exact() {
    let args = metadata_run_args("--manifest-path=/m/Cargo.toml".to_string(), "/t/target");
    assert_eq!(
        args,
        vec![
            "run".to_string(),
            "--package".to_string(),
            "metadata-gen".to_string(),
            "--manifest-path=/m/Cargo.toml".to_string(),
            "--target-dir=/t/target".to_string(),
            "--release".to_string(),
        ]
    );
}

#[test]
fn tool_success_hands_back_stdout() {
    let r = tool_outcome(true, Some(0), vec![1, 2, 3]);
    assert_eq!(r.unwrap(), vec![1, 2, 3]);
}

#[test]
fn tool_failure_reports_exit_code() {
    match tool_outcome(false, Some(101), vec![]) {
        Err(Error::ToolFailed(code)) => assert_eq!(code, Some(101)),
        other => panic!("expected a tool failure, got {:?}", other),
    }
}

#[test]
fn cargo_program_prefers_override() {
    assert_eq!(cargo_program(None), "cargo");
    assert_eq!(cargo_program(Some("/opt/cargo".to_string())), "/opt/cargo");
}

#[test]
fn scratch_cleanup_runs_even_when_tool_fails() {
    let p = ScratchPhase::Staging;
    assert_eq!(step_of(p), ScratchStep::StageTree);
    let p = advance(p, true);
    assert_eq!(step_of(p), ScratchStep::RunTool);
    // the tool exits non-zero
    let p = advance(p, false);
    // the scratch directory is removed before anything is reported
    assert_eq!(step_of(p), ScratchStep::RemoveScratchDir);
    let p = advance(p, true);
    assert_eq!(step_of(p), ScratchStep::Report { ok: false });
}

#[test]
fn scratch_cleanup_runs_when_staging_fails() {
    let p = advance(ScratchPhase::Staging, false);
    assert_eq!(step_of(p), ScratchStep::RemoveScratchDir);
    let p = advance(p, true);
    assert_eq!(step_of(p), ScratchStep::Report { ok: false });
}

#[test]
fn driver_manifest_renames_and_strips() {
    let sdk = vec![
        entry("version", TomlValue::Str("4.0.0".to_string())),
        entry("default-features", TomlValue::Bool(false)),
        entry(
            "features",
            TomlValue::Arr(vec![TomlValue::Str("unstable".to_string())]),
        ),
        entry("optional", TomlValue::Bool(true)),
    ];
    let doc = generate_package_manifest("adder", "/work/adder", sdk);
    let expected = vec![
        entry(
            "package",
            TomlValue::Tbl(vec![
                entry("name", TomlValue::Str("metadata-gen".to_string())),
                entry("version", TomlValue::Str("0.1.0".to_string())),
                entry("edition", TomlValue::Str("2018".to_string())),
            ]),
        ),
        entry(
            "bin",
            TomlValue::Arr(vec![TomlValue::Tbl(vec![
                entry("name", TomlValue::Str("metadata-gen".to_string())),
                entry("path", TomlValue::Str("main.rs".to_string())),
            ])]),
        ),
        entry(
            "dependencies",
            TomlValue::Tbl(vec![
                entry(
                    "contract",
                    TomlValue::Tbl(vec![
                        entry("package", TomlValue::Str("adder".to_string())),
                        entry("path", TomlValue::Str("/work/adder".to_string())),
                    ]),
                ),
                entry(
                    "near-sdk",
                    TomlValue::Tbl(vec![entry("version", TomlValue::Str("4.0.0".to_string()))]),
                ),
                entry("serde_json", TomlValue::Str("1".to_string())),
            ]),
        ),
    ];
    assert_eq!(doc, expected);
}

#[test]
fn command_resolves_default_manifest_path() {
    let cmd = MetadataCommand { manifest_path: None };
    let m = cmd.resolve_manifest_path().unwrap();
    assert_eq!(m.as_str(), "Cargo.toml");
}

#[test]
fn command_rejects_non_manifest_path() {
    let cmd = MetadataCommand { manifest_path: Some("x/README.md".to_string()) };
    assert!(matches!(cmd.resolve_manifest_path(), Err(Error::NotAManifest)));
}

#[test]
fn error_labels_cover_the_taxonomy() {
    assert_eq!(
        Error::ToolFailed(Some(101)).describe(),
        "external tool failed: exit code 101"
    );
    assert_eq!(Error::ToolFailed(None).describe(), "external tool failed");
    assert_eq!(
        Error::MalformedAbi.describe(),
        "malformed interface description"
    );
    assert_eq!(
        Error::DuplicateCallbackVec("f".to_string()).describe(),
        "a function can only have one callback-vector parameter: f"
    );
}

#[test]
fn exit_codes_render_in_decimal() {
    assert_eq!(
        Error::ToolFailed(Some(0)).describe(),
        "external tool failed: exit code 0"
    );
    assert_eq!(
        Error::ToolFailed(Some(-5)).describe(),
        "external tool failed: exit code -5"
    );
    assert_eq!(
        Error::ToolFailed(Some(i64::MIN)).describe(),
        "external tool failed: exit code -9223372036854775808"
    );
}

#[test]
fn build_dir_is_distinct_from_the_target_directory() {
    let d = metadata_build_dir("/t/target");
    assert_eq!(d, "/t/target/metadata-build");
    assert_ne!(d, "/t/target");
}
