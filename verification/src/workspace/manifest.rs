//! The manifest path handle and the manifest document editor.

use crate::cargo_manifest::{manifest_arg_prefix, manifest_path_arg};
use crate::errors::Error;
use crate::paths::{
    canonicalize_path, file_name_path, file_part, is_absolute_path, parent_dir, path_file_part,
    path_parent_dir, path_trimmed, str_eq,
};
use crate::toml_doc::{
    arr_view, lemma_arr_view_push, lemma_tbl_lookup_absent, lemma_tbl_lookup_at_first,
    lemma_tbl_update_at_first, lemma_tbl_view_push, tbl_find, tbl_get, tbl_insert, tbl_lookup,
    tbl_put, tbl_update, tbl_view, DocValue, TomlValue,
};
use vstd::prelude::*;
use vstd::string::*;

verus! {

/// The file name every build manifest must carry.
pub open spec fn manifest_file_name() -> Seq<char> {
    "Cargo.toml"@
}

/// The file name component of a path, as the standard library reads it:
/// the file part of the trimmed path (trailing separators and `.` segments
/// removed), unless that part is empty or the parent component.
pub open spec fn file_name_of(p: Seq<char>) -> Option<Seq<char>> {
    let f = file_part(file_name_path(p));
    if f.len() == 0 || f == ".."@ {
        None
    } else {
        Some(f)
    }
}

/// A path may name a manifest when its file name component, if it has one,
/// is the manifest file name.
pub open spec fn path_names_manifest(p: Seq<char>) -> bool {
    match file_name_of(p) {
        Some(f) => f == manifest_file_name(),
        None => true,
    }
}

/// Path to a build manifest file; construction refuses a path whose file
/// name is not the manifest file name.
#[derive(Clone, Debug)]
pub struct ManifestPath {
    path: String,
}

impl View for ManifestPath {
    type V = Seq<char>;

    closed spec fn view(&self) -> Seq<char> {
        self.path@
    }
}

impl ManifestPath {
    /// Wrap a path; an error unless the path may name a manifest.
    pub fn new(path: String) -> (r: Result<Self, Error>)
        ensures
            r matches Ok(m) ==> m@ == path@ && path_names_manifest(path@),
            r matches Err(e) ==> e is NotAManifest && !path_names_manifest(path@),
    {
        let q = path_trimmed(path.as_str());
        let f = path_file_part(q);
        if f.as_str().unicode_len() == 0 || str_eq(f.as_str(), "..") {
            Ok(ManifestPath { path })
        } else if str_eq(f.as_str(), "Cargo.toml") {
            Ok(ManifestPath { path })
        } else {
            Err(Error::NotAManifest)
        }
    }

    /// The default manifest path: the manifest file name in the current
    /// directory.
    pub fn new_default() -> (r: Self)
        ensures
            r@ == manifest_file_name(),
            path_names_manifest(r@),
    {
        let path: String = "Cargo.toml".to_owned();
        proof {
            reveal_strlit("Cargo.toml");
            reveal_strlit(".");
            reveal_strlit("..");
            assert(forall|j: int| 0 <= j < path@.len() ==> path@[j] != '/');
            crate::paths::lemma_file_part_no_slash(path@);
        }
        ManifestPath { path }
    }

    /// The manifest-path argument for the external tool, over the
    /// canonicalized form of this path; an error carrying the path when the
    /// filesystem cannot canonicalize it.
    pub fn cargo_arg(&self) -> (r: Result<String, Error>)
        ensures
            r matches Ok(s) ==> exists|c: Seq<char>|
                #[trigger] is_absolute_path(c) && s@ == manifest_arg_prefix() + c,
            r matches Err(e) ==> e matches Error::Canonicalize(p) && p@ == self@,
    {
        match canonicalize_path(self.path.as_str()) {
            Some(c) => Ok(manifest_path_arg(c.as_str())),
            None => Err(Error::Canonicalize(self.path.clone())),
        }
    }

    /// The directory part of the manifest path; nothing when the path, its
    /// trailing separators and `.` segments aside, is just the plain
    /// manifest file name.
    pub fn directory(&self) -> (r: Option<String>)
        ensures
            match r {
                Some(d) => d@ == parent_dir(self@) && file_name_path(self@)
                    != manifest_file_name(),
                None => file_name_path(self@) == manifest_file_name(),
            },
    {
        let q = path_trimmed(self.path.as_str());
        if str_eq(q, "Cargo.toml") {
            None
        } else {
            Some(path_parent_dir(self.path.as_str()))
        }
    }

    /// The canonicalized directory of the manifest: its parent when it has
    /// one, the current directory otherwise. On success the result is
    /// absolute; an error carrying the path when canonicalization fails.
    pub fn absolute_directory(&self) -> (r: Result<String, Error>)
        ensures
            r matches Ok(s) ==> is_absolute_path(s@),
            r matches Err(e) ==> e matches Error::Canonicalize(p) && p@ == self@,
    {
        let dir: String = match self.directory() {
            Some(d) => d,
            None => "./".to_owned(),
        };
        match canonicalize_path(dir.as_str()) {
            Some(c) => Ok(c),
            None => Err(Error::Canonicalize(self.path.clone())),
        }
    }

    /// The path itself, for callers that read or copy the manifest.
    pub fn as_str(&self) -> (r: &str)
        ensures
            r@ == self@,
    {
        self.path.as_str()
    }
}

/// Whether the document can take another library output kind: it has a
/// `lib` table whose `crate-type` field is an array.
pub open spec fn add_crate_type_ok(doc: Seq<(Seq<char>, DocValue)>) -> bool {
    tbl_lookup(doc, "lib"@) matches Some(DocValue::Tbl(lib)) && tbl_lookup(lib, "crate-type"@)
        matches Some(DocValue::Arr(_))
}

/// Whether the array holds the string.
pub open spec fn arr_has_str(a: Seq<DocValue>, s: Seq<char>) -> bool {
    exists|i: int| 0 <= i < a.len() && a[i] == DocValue::Str(s)
}

/// The array with the string appended, unless it is already there.
pub open spec fn added_str(a: Seq<DocValue>, s: Seq<char>) -> Seq<DocValue> {
    if arr_has_str(a, s) {
        a
    } else {
        a.push(DocValue::Str(s))
    }
}

/// The document with the output kind added to `lib.crate-type`.
pub open spec fn add_crate_type_doc(doc: Seq<(Seq<char>, DocValue)>, ct: Seq<char>) -> Seq<
    (Seq<char>, DocValue),
>
    recommends
        add_crate_type_ok(doc),
{
    let lib = tbl_lookup(doc, "lib"@)->Some_0->Tbl_0;
    let cts = tbl_lookup(lib, "crate-type"@)->Some_0->Arr_0;
    tbl_update(
        doc,
        "lib"@,
        DocValue::Tbl(tbl_update(lib, "crate-type"@, DocValue::Arr(added_str(cts, ct)))),
    )
}

/// Create, amend and save a copy of a build manifest document.
pub struct Manifest {
    path: ManifestPath,
    doc: Vec<(String, TomlValue)>,
    metadata_package: bool,
}

impl Manifest {
    /// The model of the document.
    pub closed spec fn doc_view(&self) -> Seq<(Seq<char>, DocValue)> {
        tbl_view(self.doc@)
    }

    /// The manifest path the document was loaded from.
    pub closed spec fn path_view(&self) -> Seq<char> {
        self.path@
    }

    /// Whether a driver package must be synthesized beside the document when
    /// it is written out.
    pub closed spec fn gen_package(&self) -> bool {
        self.metadata_package
    }

    /// Wrap a loaded document for the given manifest path.
    pub fn new(path: ManifestPath, doc: Vec<(String, TomlValue)>) -> (r: Manifest)
        ensures
            r.doc_view() == tbl_view(doc@),
            r.path_view() == path@,
            !r.gen_package(),
    {
        Manifest { path, doc, metadata_package: false }
    }

    /// The path of the manifest file.
    pub fn path(&self) -> (r: &ManifestPath)
        ensures
            r@ == self.path_view(),
    {
        &self.path
    }

    /// The document's entries, for writing the manifest out.
    pub fn document(&self) -> (r: &Vec<(String, TomlValue)>)
        ensures
            tbl_view(r@) == self.doc_view(),
    {
        &self.doc
    }

    /// Whether a driver package must be synthesized beside the manifest.
    pub fn needs_metadata_package(&self) -> (r: bool)
        ensures
            r == self.gen_package(),
    {
        self.metadata_package
    }

    /// Add a value to the `lib.crate-type` array; if the value is already
    /// there, the document is unchanged. Fails naming the section that is
    /// missing or malformed, leaving the document as it was.
    pub fn with_added_crate_type(&mut self, crate_type: &str) -> (r: Result<(), Error>)
        ensures
            final(self).path_view() == old(self).path_view(),
            final(self).gen_package() == old(self).gen_package(),
            r is Ok <==> add_crate_type_ok(old(self).doc_view()),
            r matches Ok(()) ==> final(self).doc_view() == add_crate_type_doc(
                old(self).doc_view(),
                crate_type@,
            ),
            r matches Err(e) ==> {
                &&& final(self).doc_view() == old(self).doc_view()
                &&& match e {
                    Error::SectionNotFound(s) => (s@ == "lib"@ && tbl_lookup(
                        old(self).doc_view(),
                        "lib"@,
                    ) is None) || (s@ == "crate-type"@ && match tbl_lookup(
                        old(self).doc_view(),
                        "lib"@,
                    ) {
                        Some(DocValue::Tbl(lib)) => tbl_lookup(lib, "crate-type"@) is None,
                        Some(_) => true,
                        None => false,
                    }),
                    Error::NotAnArray(s) => s@ == "crate-type"@ && match tbl_lookup(
                        old(self).doc_view(),
                        "lib"@,
                    ) {
                        Some(DocValue::Tbl(lib)) => match tbl_lookup(lib, "crate-type"@) {
                            Some(v) => !(v is Arr),
                            None => false,
                        },
                        _ => false,
                    },
                    _ => false,
                }
            },
    {
        let ghost doc0 = self.doc_view();
        let i = match tbl_find(&self.doc, "lib") {
            Some(i) => i,
            None => {
                proof {
                    lemma_tbl_lookup_absent(doc0, "lib"@);
                }
                return Err(Error::SectionNotFound("lib".to_owned()));
            },
        };
        proof {
            lemma_tbl_lookup_at_first(doc0, "lib"@, i as int);
        }
        let ghost docv0 = self.doc@;
        let entry = self.doc.remove(i);
        let lib_key = entry.0;
        let mut lib = match entry.1 {
            TomlValue::Tbl(lib) => lib,
            other => {
                self.doc.insert(i, (lib_key, other));
                proof {
                    assert(self.doc@ =~= docv0);
                }
                return Err(Error::SectionNotFound("crate-type".to_owned()));
            },
        };
        let ghost libv0 = lib@;
        let ghost lib0 = tbl_view(lib@);
        proof {
            assert(doc0[i as int].1 == DocValue::Tbl(lib0));
        }
        let j = match tbl_find(&lib, "crate-type") {
            Some(j) => j,
            None => {
                proof {
                    lemma_tbl_lookup_absent(lib0, "crate-type"@);
                }
                self.doc.insert(i, (lib_key, TomlValue::Tbl(lib)));
                proof {
                    assert(self.doc@ =~= docv0);
                }
                return Err(Error::SectionNotFound("crate-type".to_owned()));
            },
        };
        proof {
            lemma_tbl_lookup_at_first(lib0, "crate-type"@, j as int);
        }
        let ct_entry = lib.remove(j);
        let ct_key = ct_entry.0;
        let mut arr = match ct_entry.1 {
            TomlValue::Arr(a) => a,
            other => {
                lib.insert(j, (ct_key, other));
                self.doc.insert(i, (lib_key, TomlValue::Tbl(lib)));
                proof {
                    assert(lib@ =~= libv0);
                    assert(tbl_view(self.doc@) =~= doc0);
                }
                return Err(Error::NotAnArray("crate-type".to_owned()));
            },
        };
        let ghost cts0 = arr_view(arr@);
        proof {
            assert(lib0[j as int].1 == DocValue::Arr(cts0));
        }
        if !arr_contains_str(&arr, crate_type) {
            let ghost arrv0 = arr@;
            arr.push(TomlValue::Str(crate_type.to_owned()));
            proof {
                lemma_arr_view_push(arrv0, arr@.last());
                assert(arr@ == arrv0.push(arr@.last()));
                assert(arr_view(arr@) == added_str(cts0, crate_type@));
            }
        }
        proof {
            assert(arr_view(arr@) == added_str(cts0, crate_type@));
        }
        lib.insert(j, (ct_key, TomlValue::Arr(arr)));
        self.doc.insert(i, (lib_key, TomlValue::Tbl(lib)));
        proof {
            lemma_tbl_update_at_first(
                lib0,
                "crate-type"@,
                DocValue::Arr(added_str(cts0, crate_type@)),
                j as int,
            );
            assert(tbl_view(lib@) =~= lib0.update(
                j as int,
                ("crate-type"@, DocValue::Arr(added_str(cts0, crate_type@))),
            ));
            lemma_tbl_update_at_first(doc0, "lib"@, DocValue::Tbl(tbl_view(lib@)), i as int);
            assert(tbl_view(self.doc@) =~= doc0.update(
                i as int,
                ("lib"@, DocValue::Tbl(tbl_view(lib@))),
            ));
            assert(tbl_view(self.doc@) == add_crate_type_doc(doc0, crate_type@));
        }
        Ok(())
    }


    /// Rewrite the document's relative paths against the given absolute
    /// directory, as `rewrite_doc_spec` describes: `lib.path`, every `bin`
    /// entry's `path`, and the `path` of every dependency whose resolved
    /// package name is not excluded. The two flags say whether the
    /// conventional default source files exist on disk. On an error the
    /// document may be left partly rewritten; the error is fatal and the
    /// document is never written out.
    pub fn rewrite_relative_paths(
        &mut self,
        abs_dir: &str,
        exclude_deps: &Vec<String>,
        lib_default_exists: bool,
        bin_default_exists: bool,
    ) -> (r: Result<(), Error>)
        requires
            is_absolute_path(abs_dir@),
        ensures
            final(self).path_view() == old(self).path_view(),
            final(self).gen_package() == old(self).gen_package(),
            r is Ok <==> crate::workspace::rewrite::rewrite_doc_spec(
                abs_dir@,
                old(self).doc_view(),
                crate::workspace::rewrite::name_set(exclude_deps@),
                lib_default_exists,
                bin_default_exists,
            ) is Some,
            r matches Ok(()) ==> Some(final(self).doc_view())
                == crate::workspace::rewrite::rewrite_doc_spec(
                abs_dir@,
                old(self).doc_view(),
                crate::workspace::rewrite::name_set(exclude_deps@),
                lib_default_exists,
                bin_default_exists,
            ),
            r matches Err(e) ==> crate::workspace::rewrite::rewrite_error_describes(
                old(self).doc_view(),
                crate::workspace::rewrite::name_set(exclude_deps@),
                lib_default_exists,
                bin_default_exists,
                e,
            ),
    {
        crate::workspace::rewrite::rewrite_doc_entries(
            &mut self.doc,
            abs_dir,
            exclude_deps,
            lib_default_exists,
            bin_default_exists,
        )
    }


    /// The target crate's package name: `package.name`, required to be a
    /// string, as the driver package synthesis needs it.
    pub fn contract_package_name(&self) -> (r: Result<&String, Error>)
        ensures
            match tbl_lookup(self.doc_view(), "package"@) {
                Some(DocValue::Tbl(p)) => match tbl_lookup(p, "name"@) {
                    Some(DocValue::Str(n)) => r matches Ok(s) && s@ == n,
                    Some(_) => r matches Err(e) && (e matches Error::NotAString(x) && x@
                        == "name"@),
                    None => r matches Err(e) && (e matches Error::SectionNotFound(x) && x@
                        == "name"@),
                },
                Some(_) => r matches Err(e) && (e matches Error::SectionNotFound(x) && x@
                    == "name"@),
                None => r matches Err(e) && (e matches Error::SectionNotFound(x) && x@
                    == "package"@),
            },
    {
        match tbl_get(&self.doc, "package") {
            None => Err(Error::SectionNotFound("package".to_owned())),
            Some(pv) => match pv {
                TomlValue::Tbl(p) => match tbl_get(p, "name") {
                    None => Err(Error::SectionNotFound("name".to_owned())),
                    Some(nv) => match nv {
                        TomlValue::Str(n) => Ok(n),
                        _ => Err(Error::NotAString("name".to_owned())),
                    },
                },
                _ => Err(Error::SectionNotFound("name".to_owned())),
            },
        }
    }

    /// The SDK dependency's specification: `dependencies.near-sdk`,
    /// required to be a table, as the driver package synthesis needs it.
    pub fn sdk_dependency(&self) -> (r: Result<&Vec<(String, TomlValue)>, Error>)
        ensures
            match tbl_lookup(self.doc_view(), "dependencies"@) {
                Some(DocValue::Tbl(d)) => match tbl_lookup(d, "near-sdk"@) {
                    Some(DocValue::Tbl(t)) => r matches Ok(v) && tbl_view(v@) == t,
                    Some(_) => r matches Err(e) && (e matches Error::NotATable(x) && x@
                        == "near-sdk"@),
                    None => r matches Err(e) && (e matches Error::SectionNotFound(x) && x@
                        == "near-sdk"@),
                },
                Some(_) => r matches Err(e) && (e matches Error::SectionNotFound(x) && x@
                    == "near-sdk"@),
                None => r matches Err(e) && (e matches Error::SectionNotFound(x) && x@
                    == "dependencies"@),
            },
    {
        match tbl_get(&self.doc, "dependencies") {
            None => Err(Error::SectionNotFound("dependencies".to_owned())),
            Some(dv) => match dv {
                TomlValue::Tbl(d) => match tbl_get(d, "near-sdk") {
                    None => Err(Error::SectionNotFound("near-sdk".to_owned())),
                    Some(sv) => match sv {
                        TomlValue::Tbl(t) => Ok(t),
                        _ => Err(Error::NotATable("near-sdk".to_owned())),
                    },
                },
                _ => Err(Error::SectionNotFound("near-sdk".to_owned())),
            },
        }
    }

    /// Force the `profile.release.lto` flag to the given value, creating the
    /// `profile` and `release` tables when absent and overwriting any
    /// existing flag. Fails naming the section that is not a table, leaving
    /// the document as it was.
    pub fn with_profile_release_lto(&mut self, enabled: bool) -> (r: Result<(), Error>)
        ensures
            final(self).path_view() == old(self).path_view(),
            final(self).gen_package() == old(self).gen_package(),
            r is Ok <==> set_lto_ok(old(self).doc_view()),
            r matches Ok(()) ==> final(self).doc_view() == set_lto_doc(
                old(self).doc_view(),
                enabled,
            ),
            r matches Err(e) ==> {
                &&& final(self).doc_view() == old(self).doc_view()
                &&& match e {
                    Error::NotATable(s) => (s@ == "profile"@ && match tbl_lookup(
                        old(self).doc_view(),
                        "profile"@,
                    ) {
                        Some(v) => !(v is Tbl),
                        None => false,
                    }) || (s@ == "release"@ && match tbl_lookup(
                        old(self).doc_view(),
                        "profile"@,
                    ) {
                        Some(DocValue::Tbl(p)) => !release_ok(p),
                        _ => false,
                    }),
                    _ => false,
                }
            },
    {
        let ghost doc0 = self.doc_view();
        match tbl_find(&self.doc, "profile") {
            Some(i) => {
                proof {
                    lemma_tbl_lookup_at_first(doc0, "profile"@, i as int);
                }
                let ghost docv0 = self.doc@;
                let e = self.doc.remove(i);
                let pkey = e.0;
                let mut ptbl = match e.1 {
                    TomlValue::Tbl(t) => t,
                    other => {
                        self.doc.insert(i, (pkey, other));
                        proof {
                            assert(self.doc@ =~= docv0);
                        }
                        return Err(Error::NotATable("profile".to_owned()));
                    },
                };
                let ghost p0 = tbl_view(ptbl@);
                match set_release_lto(&mut ptbl, enabled) {
                    Ok(()) => {
                        self.doc.insert(i, (pkey, TomlValue::Tbl(ptbl)));
                        proof {
                            lemma_tbl_update_at_first(
                                doc0,
                                "profile"@,
                                DocValue::Tbl(tbl_view(ptbl@)),
                                i as int,
                            );
                            assert(tbl_view(self.doc@) =~= doc0.update(
                                i as int,
                                ("profile"@, DocValue::Tbl(tbl_view(ptbl@))),
                            ));
                            assert(profile_tbl(doc0) == p0);
                            assert(tbl_view(self.doc@) == set_lto_doc(doc0, enabled));
                        }
                        Ok(())
                    },
                    Err(err) => {
                        self.doc.insert(i, (pkey, TomlValue::Tbl(ptbl)));
                        proof {
                            assert(tbl_view(ptbl@) == p0);
                            assert(tbl_view(self.doc@) =~= doc0);
                        }
                        Err(err)
                    },
                }
            },
            None => {
                proof {
                    lemma_tbl_lookup_absent(doc0, "profile"@);
                }
                let mut ptbl: Vec<(String, TomlValue)> = Vec::new();
                proof {
                    assert(tbl_view(ptbl@) =~= Seq::<(Seq<char>, DocValue)>::empty());
                }
                match set_release_lto(&mut ptbl, enabled) {
                    Ok(()) => {
                        let ghost docv0 = self.doc@;
                        self.doc.push(("profile".to_owned(), TomlValue::Tbl(ptbl)));
                        proof {
                            lemma_tbl_view_push(docv0, self.doc@.last());
                            assert(profile_tbl(doc0) =~= Seq::<(Seq<char>, DocValue)>::empty());
                            assert(release_tbl(profile_tbl(doc0)) =~= Seq::<
                                (Seq<char>, DocValue),
                            >::empty());
                            assert(tbl_view(self.doc@) =~= set_lto_doc(doc0, enabled));
                        }
                        Ok(())
                    },
                    Err(err) => {
                        proof {
                            assert(false);
                        }
                        Err(err)
                    },
                }
            },
        }
    }

    /// Register the synthesized driver package as a workspace member,
    /// creating the `workspace` table and `members` array when absent, and
    /// mark that the package must be synthesized on write. Fails naming the
    /// section that is malformed, leaving the document as it was.
    pub fn with_metadata_package(&mut self) -> (r: Result<(), Error>)
        ensures
            final(self).path_view() == old(self).path_view(),
            r is Ok <==> add_member_ok(old(self).doc_view()),
            r matches Ok(()) ==> final(self).doc_view() == add_member_doc(old(self).doc_view())
                && final(self).gen_package(),
            r matches Err(e) ==> {
                &&& final(self).doc_view() == old(self).doc_view()
                &&& final(self).gen_package() == old(self).gen_package()
                &&& match e {
                    Error::NotATable(s) => s@ == "workspace"@ && match tbl_lookup(
                        old(self).doc_view(),
                        "workspace"@,
                    ) {
                        Some(v) => !(v is Tbl),
                        None => false,
                    },
                    Error::NotAnArray(s) => s@ == "members"@ && match tbl_lookup(
                        old(self).doc_view(),
                        "workspace"@,
                    ) {
                        Some(DocValue::Tbl(w)) => !members_ok(w),
                        _ => false,
                    },
                    _ => false,
                }
            },
    {
        let ghost doc0 = self.doc_view();
        match tbl_find(&self.doc, "workspace") {
            Some(i) => {
                proof {
                    lemma_tbl_lookup_at_first(doc0, "workspace"@, i as int);
                }
                let ghost docv0 = self.doc@;
                let e = self.doc.remove(i);
                let wkey = e.0;
                let mut wtbl = match e.1 {
                    TomlValue::Tbl(t) => t,
                    other => {
                        self.doc.insert(i, (wkey, other));
                        proof {
                            assert(self.doc@ =~= docv0);
                        }
                        return Err(Error::NotATable("workspace".to_owned()));
                    },
                };
                let ghost w0 = tbl_view(wtbl@);
                match push_member(&mut wtbl) {
                    Ok(()) => {
                        self.doc.insert(i, (wkey, TomlValue::Tbl(wtbl)));
                        self.metadata_package = true;
                        proof {
                            lemma_tbl_update_at_first(
                                doc0,
                                "workspace"@,
                                DocValue::Tbl(tbl_view(wtbl@)),
                                i as int,
                            );
                            assert(tbl_view(self.doc@) =~= doc0.update(
                                i as int,
                                ("workspace"@, DocValue::Tbl(tbl_view(wtbl@))),
                            ));
                            assert(workspace_tbl(doc0) == w0);
                            assert(tbl_view(self.doc@) == add_member_doc(doc0));
                        }
                        Ok(())
                    },
                    Err(err) => {
                        self.doc.insert(i, (wkey, TomlValue::Tbl(wtbl)));
                        proof {
                            assert(tbl_view(wtbl@) == w0);
                            assert(tbl_view(self.doc@) =~= doc0);
                        }
                        Err(err)
                    },
                }
            },
            None => {
                proof {
                    lemma_tbl_lookup_absent(doc0, "workspace"@);
                }
                let mut wtbl: Vec<(String, TomlValue)> = Vec::new();
                proof {
                    assert(tbl_view(wtbl@) =~= Seq::<(Seq<char>, DocValue)>::empty());
                }
                match push_member(&mut wtbl) {
                    Ok(()) => {
                        let ghost docv0 = self.doc@;
                        self.doc.push(("workspace".to_owned(), TomlValue::Tbl(wtbl)));
                        self.metadata_package = true;
                        proof {
                            lemma_tbl_view_push(docv0, self.doc@.last());
                            assert(workspace_tbl(doc0) =~= Seq::<(Seq<char>, DocValue)>::empty());
                            assert(members_arr(workspace_tbl(doc0)) =~= Seq::<DocValue>::empty());
                            assert(tbl_view(self.doc@) =~= add_member_doc(doc0));
                        }
                        Ok(())
                    },
                    Err(err) => {
                        proof {
                            assert(false);
                        }
                        Err(err)
                    },
                }
            },
        }
    }
}

/// Force `release.lto` inside a profile table, creating the `release` table
/// when absent.
fn set_release_lto(p: &mut Vec<(String, TomlValue)>, enabled: bool) -> (r: Result<(), Error>)
    ensures
        r is Ok <==> release_ok(tbl_view(old(p)@)),
        r matches Ok(()) ==> tbl_view(final(p)@) == tbl_insert(
            tbl_view(old(p)@),
            "release"@,
            DocValue::Tbl(
                tbl_insert(release_tbl(tbl_view(old(p)@)), "lto"@, DocValue::Bool(enabled)),
            ),
        ),
        r matches Err(e) ==> tbl_view(final(p)@) == tbl_view(old(p)@) && (e
            matches Error::NotATable(s) && s@ == "release"@),
{
    let ghost p0 = tbl_view(p@);
    match tbl_find(p, "release") {
        Some(j) => {
            proof {
                lemma_tbl_lookup_at_first(p0, "release"@, j as int);
            }
            let ghost pv0 = p@;
            let e = p.remove(j);
            let rkey = e.0;
            let mut rtbl = match e.1 {
                TomlValue::Tbl(t) => t,
                other => {
                    p.insert(j, (rkey, other));
                    proof {
                        assert(p@ =~= pv0);
                    }
                    return Err(Error::NotATable("release".to_owned()));
                },
            };
            let ghost r0 = tbl_view(rtbl@);
            tbl_put(&mut rtbl, "lto", TomlValue::Bool(enabled));
            p.insert(j, (rkey, TomlValue::Tbl(rtbl)));
            proof {
                lemma_tbl_update_at_first(
                    p0,
                    "release"@,
                    DocValue::Tbl(tbl_view(rtbl@)),
                    j as int,
                );
                assert(tbl_view(p@) =~= p0.update(
                    j as int,
                    ("release"@, DocValue::Tbl(tbl_view(rtbl@))),
                ));
                assert(release_tbl(p0) == r0);
                assert(tbl_view(p@) == tbl_insert(
                    p0,
                    "release"@,
                    DocValue::Tbl(tbl_insert(r0, "lto"@, DocValue::Bool(enabled))),
                ));
            }
            Ok(())
        },
        None => {
            proof {
                lemma_tbl_lookup_absent(p0, "release"@);
            }
            let mut rtbl: Vec<(String, TomlValue)> = Vec::new();
            proof {
                assert(tbl_view(rtbl@) =~= Seq::<(Seq<char>, DocValue)>::empty());
            }
            tbl_put(&mut rtbl, "lto", TomlValue::Bool(enabled));
            let ghost pv0 = p@;
            p.push(("release".to_owned(), TomlValue::Tbl(rtbl)));
            proof {
                lemma_tbl_view_push(pv0, p@.last());
                assert(release_tbl(p0) =~= Seq::<(Seq<char>, DocValue)>::empty());
                assert(tbl_view(p@) =~= tbl_insert(
                    p0,
                    "release"@,
                    DocValue::Tbl(
                        tbl_insert(release_tbl(p0), "lto"@, DocValue::Bool(enabled)),
                    ),
                ));
            }
            Ok(())
        },
    }
}

/// Append the driver package's relative path to a workspace table's
/// `members` array, creating the array when absent.
fn push_member(w: &mut Vec<(String, TomlValue)>) -> (r: Result<(), Error>)
    ensures
        r is Ok <==> members_ok(tbl_view(old(w)@)),
        r matches Ok(()) ==> tbl_view(final(w)@) == tbl_insert(
            tbl_view(old(w)@),
            "members"@,
            DocValue::Arr(
                members_arr(tbl_view(old(w)@)).push(DocValue::Str(metadata_package_rel_path())),
            ),
        ),
        r matches Err(e) ==> tbl_view(final(w)@) == tbl_view(old(w)@) && (e
            matches Error::NotAnArray(s) && s@ == "members"@),
{
    let ghost w0 = tbl_view(w@);
    match tbl_find(w, "members") {
        Some(j) => {
            proof {
                lemma_tbl_lookup_at_first(w0, "members"@, j as int);
            }
            let ghost wv0 = w@;
            let e = w.remove(j);
            let mkey = e.0;
            let mut arr = match e.1 {
                TomlValue::Arr(a) => a,
                other => {
                    w.insert(j, (mkey, other));
                    proof {
                        assert(w@ =~= wv0);
                    }
                    return Err(Error::NotAnArray("members".to_owned()));
                },
            };
            let ghost a0 = arr_view(arr@);
            let ghost av0 = arr@;
            arr.push(TomlValue::Str(".near/metadata_gen".to_owned()));
            w.insert(j, (mkey, TomlValue::Arr(arr)));
            proof {
                lemma_arr_view_push(av0, arr@.last());
                lemma_tbl_update_at_first(
                    w0,
                    "members"@,
                    DocValue::Arr(arr_view(arr@)),
                    j as int,
                );
                assert(tbl_view(w@) =~= w0.update(
                    j as int,
                    ("members"@, DocValue::Arr(arr_view(arr@))),
                ));
                assert(members_arr(w0) == a0);
                assert(tbl_view(w@) == tbl_insert(
                    w0,
                    "members"@,
                    DocValue::Arr(a0.push(DocValue::Str(metadata_package_rel_path()))),
                ));
            }
            Ok(())
        },
        None => {
            proof {
                lemma_tbl_lookup_absent(w0, "members"@);
            }
            let mut arr: Vec<TomlValue> = Vec::new();
            proof {
                assert(arr_view(arr@) =~= Seq::<DocValue>::empty());
            }
            let ghost av0 = arr@;
            arr.push(TomlValue::Str(".near/metadata_gen".to_owned()));
            let ghost wv0 = w@;
            w.push(("members".to_owned(), TomlValue::Arr(arr)));
            proof {
                lemma_arr_view_push(av0, arr@.last());
                lemma_tbl_view_push(wv0, w@.last());
                assert(members_arr(w0) =~= Seq::<DocValue>::empty());
                assert(tbl_view(w@) =~= tbl_insert(
                    w0,
                    "members"@,
                    DocValue::Arr(
                        members_arr(w0).push(DocValue::Str(metadata_package_rel_path())),
                    ),
                ));
            }
            Ok(())
        },
    }
}

/// Whether a profile table's `release` field, when present, is a table.
pub open spec fn release_ok(p: Seq<(Seq<char>, DocValue)>) -> bool {
    match tbl_lookup(p, "release"@) {
        None => true,
        Some(v) => v is Tbl,
    }
}

/// Whether a workspace table's `members` field, when present, is an array.
pub open spec fn members_ok(w: Seq<(Seq<char>, DocValue)>) -> bool {
    match tbl_lookup(w, "members"@) {
        None => true,
        Some(v) => v is Arr,
    }
}

/// Whether the release profile can be edited: `profile`, when present, is a
/// table, and `profile.release`, when present, is a table.
pub open spec fn set_lto_ok(doc: Seq<(Seq<char>, DocValue)>) -> bool {
    match tbl_lookup(doc, "profile"@) {
        None => true,
        Some(DocValue::Tbl(p)) => match tbl_lookup(p, "release"@) {
            None => true,
            Some(v) => v is Tbl,
        },
        Some(_) => false,
    }
}

/// The `profile` table of the document; empty when the section is absent.
pub open spec fn profile_tbl(doc: Seq<(Seq<char>, DocValue)>) -> Seq<(Seq<char>, DocValue)> {
    match tbl_lookup(doc, "profile"@) {
        Some(DocValue::Tbl(p)) => p,
        _ => Seq::empty(),
    }
}

/// The `release` table of a profile table; empty when absent.
pub open spec fn release_tbl(p: Seq<(Seq<char>, DocValue)>) -> Seq<(Seq<char>, DocValue)> {
    match tbl_lookup(p, "release"@) {
        Some(DocValue::Tbl(r)) => r,
        _ => Seq::empty(),
    }
}

/// The document with `profile.release.lto` forced to the given value.
pub open spec fn set_lto_doc(doc: Seq<(Seq<char>, DocValue)>, enabled: bool) -> Seq<
    (Seq<char>, DocValue),
> {
    tbl_insert(
        doc,
        "profile"@,
        DocValue::Tbl(
            tbl_insert(
                profile_tbl(doc),
                "release"@,
                DocValue::Tbl(
                    tbl_insert(release_tbl(profile_tbl(doc)), "lto"@, DocValue::Bool(enabled)),
                ),
            ),
        ),
    )
}

/// Whether the workspace members can be edited: `workspace`, when present,
/// is a table, and `workspace.members`, when present, is an array.
pub open spec fn add_member_ok(doc: Seq<(Seq<char>, DocValue)>) -> bool {
    match tbl_lookup(doc, "workspace"@) {
        None => true,
        Some(DocValue::Tbl(w)) => match tbl_lookup(w, "members"@) {
            None => true,
            Some(v) => v is Arr,
        },
        Some(_) => false,
    }
}

/// The `workspace` table of the document; empty when the section is absent.
pub open spec fn workspace_tbl(doc: Seq<(Seq<char>, DocValue)>) -> Seq<(Seq<char>, DocValue)> {
    match tbl_lookup(doc, "workspace"@) {
        Some(DocValue::Tbl(w)) => w,
        _ => Seq::empty(),
    }
}

/// The `members` array of a workspace table; empty when absent.
pub open spec fn members_arr(w: Seq<(Seq<char>, DocValue)>) -> Seq<DocValue> {
    match tbl_lookup(w, "members"@) {
        Some(DocValue::Arr(a)) => a,
        _ => Seq::empty(),
    }
}

/// The relative path, inside the workspace, of the synthesized driver
/// package.
pub open spec fn metadata_package_rel_path() -> Seq<char> {
    ".near/metadata_gen"@
}

/// The document with the driver package registered as a workspace member.
pub open spec fn add_member_doc(doc: Seq<(Seq<char>, DocValue)>) -> Seq<(Seq<char>, DocValue)> {
    tbl_insert(
        doc,
        "workspace"@,
        DocValue::Tbl(
            tbl_insert(
                workspace_tbl(doc),
                "members"@,
                DocValue::Arr(
                    members_arr(workspace_tbl(doc)).push(DocValue::Str(metadata_package_rel_path())),
                ),
            ),
        ),
    )
}

/// Whether the array holds the string, read element by element.
fn arr_contains_str(a: &Vec<TomlValue>, s: &str) -> (r: bool)
    ensures
        r == arr_has_str(arr_view(a@), s@),
{
    let n = a.len();
    let mut i: usize = 0;
    while i < n
        invariant
            n == a@.len(),
            i <= n,
            forall|j: int| 0 <= j < i ==> arr_view(a@)[j] != DocValue::Str(s@),
        decreases n - i,
    {
        let hit = match &a[i] {
            TomlValue::Str(x) => str_eq(x.as_str(), s),
            _ => false,
        };
        if hit {
            proof {
                assert(arr_view(a@)[i as int] == DocValue::Str(s@));
            }
            return true;
        }
        proof {
            assert(arr_view(a@)[i as int] != DocValue::Str(s@));
        }
        i = i + 1;
    }
    false
}

impl Default for ManifestPath {
    /// The default manifest path, as `new_default` describes it.
    fn default() -> (r: Self)
        ensures
            r@ == manifest_file_name(),
    {
        ManifestPath::new_default()
    }
}

} // verus!
