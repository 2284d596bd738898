//! The synthesized driver package: a throwaway build unit that depends on
//! the target crate under the fixed alias `contract`, and on the SDK crate
//! with the dependency specification copied from the target's own manifest,
//! stripped of its feature-selection keys so the driver always builds the
//! full default feature set.

use crate::toml_doc::{tbl_delete, tbl_remove, tbl_view, DocValue, TomlValue};
use vstd::prelude::*;
use vstd::string::*;

verus! {

/// An SDK dependency specification with its feature-selection keys
/// removed: `default-features`, `features` and `optional`.
pub open spec fn stripped_dep(d: Seq<(Seq<char>, DocValue)>) -> Seq<(Seq<char>, DocValue)> {
    tbl_remove(tbl_remove(tbl_remove(d, "default-features"@), "features"@), "optional"@)
}

/// The driver package's manifest: its own package section, its entry
/// point, and its two dependencies — the target crate aliased as
/// `contract` by a package rename, and the SDK crate with the stripped
/// specification.
pub open spec fn driver_manifest_spec(
    name: Seq<char>,
    dir: Seq<char>,
    sdk: Seq<(Seq<char>, DocValue)>,
) -> Seq<(Seq<char>, DocValue)> {
    seq![
        (
            "package"@,
            DocValue::Tbl(
                seq![
                    ("name"@, DocValue::Str("metadata-gen"@)),
                    ("version"@, DocValue::Str("0.1.0"@)),
                    ("edition"@, DocValue::Str("2018"@)),
                ],
            ),
        ),
        (
            "bin"@,
            DocValue::Arr(
                seq![
                    DocValue::Tbl(
                        seq![
                            ("name"@, DocValue::Str("metadata-gen"@)),
                            ("path"@, DocValue::Str("main.rs"@)),
                        ],
                    ),
                ],
            ),
        ),
        (
            "dependencies"@,
            DocValue::Tbl(
                seq![
                    (
                        "contract"@,
                        DocValue::Tbl(
                            seq![("package"@, DocValue::Str(name)), ("path"@, DocValue::Str(dir))],
                        ),
                    ),
                    ("near-sdk"@, DocValue::Tbl(stripped_dep(sdk))),
                    ("serde_json"@, DocValue::Str("1"@)),
                ],
            ),
        ),
    ]
}

/// Build the driver package's manifest document for the given target crate
/// name and directory, copying and stripping the SDK dependency taken from
/// the target's own manifest.
pub fn generate_package_manifest(
    contract_package_name: &str,
    contract_dir: &str,
    near_sdk_dep: Vec<(String, TomlValue)>,
) -> (r: Vec<(String, TomlValue)>)
    ensures
        tbl_view(r@) == driver_manifest_spec(
            contract_package_name@,
            contract_dir@,
            tbl_view(near_sdk_dep@),
        ),
{
    let ghost sdk0 = tbl_view(near_sdk_dep@);
    let mut sdk = near_sdk_dep;
    tbl_delete(&mut sdk, "default-features");
    tbl_delete(&mut sdk, "features");
    tbl_delete(&mut sdk, "optional");
    proof {
        assert(tbl_view(sdk@) == stripped_dep(sdk0));
    }

    let mut package: Vec<(String, TomlValue)> = Vec::new();
    package.push(("name".to_owned(), TomlValue::Str("metadata-gen".to_owned())));
    package.push(("version".to_owned(), TomlValue::Str("0.1.0".to_owned())));
    package.push(("edition".to_owned(), TomlValue::Str("2018".to_owned())));

    proof {
        assert(tbl_view(package@) =~~= seq![
            ("name"@, DocValue::Str("metadata-gen"@)),
            ("version"@, DocValue::Str("0.1.0"@)),
            ("edition"@, DocValue::Str("2018"@)),
        ]);
    }

    let mut bin_entry: Vec<(String, TomlValue)> = Vec::new();
    bin_entry.push(("name".to_owned(), TomlValue::Str("metadata-gen".to_owned())));
    bin_entry.push(("path".to_owned(), TomlValue::Str("main.rs".to_owned())));
    proof {
        assert(tbl_view(bin_entry@) =~~= seq![
            ("name"@, DocValue::Str("metadata-gen"@)),
            ("path"@, DocValue::Str("main.rs"@)),
        ]);
    }
    let mut bins: Vec<TomlValue> = Vec::new();
    bins.push(TomlValue::Tbl(bin_entry));
    proof {
        assert(crate::toml_doc::arr_view(bins@) =~~= seq![
            DocValue::Tbl(
                seq![
                    ("name"@, DocValue::Str("metadata-gen"@)),
                    ("path"@, DocValue::Str("main.rs"@)),
                ],
            ),
        ]);
    }

    let mut contract: Vec<(String, TomlValue)> = Vec::new();
    contract.push(("package".to_owned(), TomlValue::Str(contract_package_name.to_owned())));
    contract.push(("path".to_owned(), TomlValue::Str(contract_dir.to_owned())));

    proof {
        assert(tbl_view(contract@) =~~= seq![
            ("package"@, DocValue::Str(contract_package_name@)),
            ("path"@, DocValue::Str(contract_dir@)),
        ]);
    }
    let mut deps: Vec<(String, TomlValue)> = Vec::new();
    deps.push(("contract".to_owned(), TomlValue::Tbl(contract)));
    deps.push(("near-sdk".to_owned(), TomlValue::Tbl(sdk)));
    deps.push(("serde_json".to_owned(), TomlValue::Str("1".to_owned())));

    proof {
        assert(tbl_view(deps@) =~~= seq![
            (
                "contract"@,
                DocValue::Tbl(
                    seq![
                        ("package"@, DocValue::Str(contract_package_name@)),
                        ("path"@, DocValue::Str(contract_dir@)),
                    ],
                ),
            ),
            ("near-sdk"@, DocValue::Tbl(stripped_dep(sdk0))),
            ("serde_json"@, DocValue::Str("1"@)),
        ]);
    }
    let mut doc: Vec<(String, TomlValue)> = Vec::new();
    doc.push(("package".to_owned(), TomlValue::Tbl(package)));
    doc.push(("bin".to_owned(), TomlValue::Arr(bins)));
    doc.push(("dependencies".to_owned(), TomlValue::Tbl(deps)));
    proof {
        assert(tbl_view(doc@) =~~= driver_manifest_spec(
            contract_package_name@,
            contract_dir@,
            sdk0,
        ));
    }
    doc
}

} // verus!
