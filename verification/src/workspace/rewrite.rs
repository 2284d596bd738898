//! Rewriting of a manifest document's relative paths to absolute ones.
//!
//! The edited manifest is written to a different directory than the
//! original, so every relative path it holds would otherwise resolve against
//! the wrong base: `lib.path`, each `bin` entry's `path`, and the `path` of
//! every dependency not excluded by the caller are made absolute against the
//! manifest's own canonical directory. A `lib` or `bin` entry without a
//! `path` receives the conventional default, provided the caller saw that
//! default file on disk.

use crate::errors::Error;
use crate::paths::{is_absolute_path, is_relative_path, join_path, path_is_absolute, path_join, str_eq};
use crate::toml_doc::{
    arr_view, lemma_tbl_lookup_absent, lemma_tbl_lookup_at_first, lemma_tbl_lookup_update_other,
    lemma_tbl_lookup_update_same, lemma_tbl_update_at_first, lemma_tbl_update_same_value, tbl_find,
    tbl_get, tbl_lookup, tbl_update, tbl_view, DocValue, TomlValue,
};
use vstd::prelude::*;
use vstd::string::*;

verus! {

/// A path string made absolute: joined onto the directory when relative,
/// kept when already absolute.
pub open spec fn rw_path_str(dir: Seq<char>, p: Seq<char>) -> Seq<char> {
    if is_relative_path(p) {
        join_path(dir, p)
    } else {
        p
    }
}

/// A `lib` or `bin` section table with its `path` made absolute: a present
/// string path is rewritten; an absent path becomes the default joined onto
/// the directory, provided the default file exists; a non-string path is an
/// error.
pub open spec fn rw_section_tbl(
    dir: Seq<char>,
    t: Seq<(Seq<char>, DocValue)>,
    default_rel: Seq<char>,
    def_exists: bool,
) -> Option<Seq<(Seq<char>, DocValue)>> {
    match tbl_lookup(t, "path"@) {
        Some(DocValue::Str(p)) => Some(
            tbl_update(t, "path"@, DocValue::Str(rw_path_str(dir, p))),
        ),
        Some(_) => None,
        None => if def_exists {
            Some(t.push(("path"@, DocValue::Str(join_path(dir, default_rel)))))
        } else {
            None
        },
    }
}

/// A `lib` section or `bin` entry rewritten: it must be a table, and its
/// table must rewrite.
pub open spec fn rw_section_value(
    dir: Seq<char>,
    v: DocValue,
    default_rel: Seq<char>,
    def_exists: bool,
) -> Option<DocValue> {
    match v {
        DocValue::Tbl(t) => match rw_section_tbl(dir, t, default_rel, def_exists) {
            Some(t2) => Some(DocValue::Tbl(t2)),
            None => None,
        },
        _ => None,
    }
}

/// The conventional default source file of a library section.
pub open spec fn lib_default_rel() -> Seq<char> {
    "src/lib.rs"@
}

/// The conventional default source file of a binary entry.
pub open spec fn bin_default_rel() -> Seq<char> {
    "src/main.rs"@
}

/// Every `bin` entry rewritten, in order.
pub open spec fn rw_bin_arr(dir: Seq<char>, a: Seq<DocValue>, def_exists: bool) -> Option<
    Seq<DocValue>,
> {
    if forall|i: int|
        0 <= i < a.len() ==> #[trigger] rw_section_value(
            dir,
            a[i],
            bin_default_rel(),
            def_exists,
        ) is Some {
        Some(
            Seq::new(
                a.len(),
                |i: int| rw_section_value(dir, a[i], bin_default_rel(), def_exists)->Some_0,
            ),
        )
    } else {
        None
    }
}

/// The resolved package name of a dependency entry: its `package` rename
/// when the entry is a table carrying one as a string, its local alias
/// otherwise.
pub open spec fn dep_package_name(name: Seq<char>, v: DocValue) -> Seq<char> {
    match v {
        DocValue::Tbl(t) => match tbl_lookup(t, "package"@) {
            Some(DocValue::Str(p)) => p,
            _ => name,
        },
        _ => name,
    }
}

/// A dependency table with its `path`, when present, made absolute; a
/// non-string path is an error.
pub open spec fn rw_dep_tbl(dir: Seq<char>, t: Seq<(Seq<char>, DocValue)>) -> Option<
    Seq<(Seq<char>, DocValue)>,
> {
    match tbl_lookup(t, "path"@) {
        Some(DocValue::Str(p)) => Some(
            tbl_update(t, "path"@, DocValue::Str(rw_path_str(dir, p))),
        ),
        Some(_) => None,
        None => Some(t),
    }
}

/// A dependency entry rewritten: one whose resolved package name the caller
/// excluded is left untouched; otherwise a table's `path` is made absolute
/// and anything else is left untouched.
pub open spec fn rw_dep_value(
    dir: Seq<char>,
    exclude: Set<Seq<char>>,
    name: Seq<char>,
    v: DocValue,
) -> Option<DocValue> {
    if exclude.contains(dep_package_name(name, v)) {
        Some(v)
    } else {
        match v {
            DocValue::Tbl(t) => match rw_dep_tbl(dir, t) {
                Some(t2) => Some(DocValue::Tbl(t2)),
                None => None,
            },
            _ => Some(v),
        }
    }
}

/// Every dependency entry rewritten, keys kept, in order.
pub open spec fn rw_deps_tbl(
    dir: Seq<char>,
    exclude: Set<Seq<char>>,
    t: Seq<(Seq<char>, DocValue)>,
) -> Option<Seq<(Seq<char>, DocValue)>> {
    if forall|i: int|
        0 <= i < t.len() ==> #[trigger] rw_dep_value(dir, exclude, t[i].0, t[i].1) is Some {
        Some(
            Seq::new(
                t.len(),
                |i: int| (t[i].0, rw_dep_value(dir, exclude, t[i].0, t[i].1)->Some_0),
            ),
        )
    } else {
        None
    }
}

/// The document after the `lib` section's rewrite.
pub open spec fn rw_lib_step(dir: Seq<char>, doc: Seq<(Seq<char>, DocValue)>, lib_def: bool) -> Option<
    Seq<(Seq<char>, DocValue)>,
> {
    match tbl_lookup(doc, "lib"@) {
        None => Some(doc),
        Some(v) => match rw_section_value(dir, v, lib_default_rel(), lib_def) {
            Some(v2) => Some(tbl_update(doc, "lib"@, v2)),
            None => None,
        },
    }
}

/// The document after the `bin` entries' rewrite.
pub open spec fn rw_bin_step(dir: Seq<char>, doc: Seq<(Seq<char>, DocValue)>, bin_def: bool) -> Option<
    Seq<(Seq<char>, DocValue)>,
> {
    match tbl_lookup(doc, "bin"@) {
        None => Some(doc),
        Some(DocValue::Arr(a)) => match rw_bin_arr(dir, a, bin_def) {
            Some(a2) => Some(tbl_update(doc, "bin"@, DocValue::Arr(a2))),
            None => None,
        },
        Some(_) => None,
    }
}

/// The document after the dependencies' rewrite.
pub open spec fn rw_deps_step(
    dir: Seq<char>,
    doc: Seq<(Seq<char>, DocValue)>,
    exclude: Set<Seq<char>>,
) -> Option<Seq<(Seq<char>, DocValue)>> {
    match tbl_lookup(doc, "dependencies"@) {
        None => Some(doc),
        Some(DocValue::Tbl(t)) => match rw_deps_tbl(dir, exclude, t) {
            Some(t2) => Some(tbl_update(doc, "dependencies"@, DocValue::Tbl(t2))),
            None => None,
        },
        Some(_) => None,
    }
}

/// The whole rewrite: the `lib` section, then every `bin` entry, then every
/// dependency not excluded.
pub open spec fn rewrite_doc_spec(
    dir: Seq<char>,
    doc: Seq<(Seq<char>, DocValue)>,
    exclude: Set<Seq<char>>,
    lib_def: bool,
    bin_def: bool,
) -> Option<Seq<(Seq<char>, DocValue)>> {
    match rw_lib_step(dir, doc, lib_def) {
        Some(d1) => match rw_bin_step(dir, d1, bin_def) {
            Some(d2) => rw_deps_step(dir, d2, exclude),
            None => None,
        },
        None => None,
    }
}


/// A dependency value whose `path` field is present but not a string.
pub open spec fn dep_path_not_string(v: DocValue) -> bool {
    v matches DocValue::Tbl(t) && (tbl_lookup(t, "path"@) matches Some(pv) && !(pv is Str))
}

/// What a failed `lib` rewrite reports: exactly which part of the `lib`
/// section is malformed.
pub open spec fn lib_rewrite_error(doc: Seq<(Seq<char>, DocValue)>, lib_def: bool, e: Error) -> bool {
    match tbl_lookup(doc, "lib"@) {
        Some(DocValue::Tbl(t)) => match tbl_lookup(t, "path"@) {
            Some(v) => !(v is Str) && (e matches Error::NotAString(s) && s@ == "path"@),
            None => !lib_def && (e matches Error::DefaultSourceMissing(s) && s@
                == lib_default_rel()),
        },
        Some(_) => e matches Error::NotATable(s) && s@ == "lib"@,
        None => false,
    }
}

/// What a failed rewrite of one `bin` entry reports.
pub open spec fn bin_entry_error(v: DocValue, bin_def: bool, e: Error) -> bool {
    match v {
        DocValue::Tbl(t) => match tbl_lookup(t, "path"@) {
            Some(pv) => !(pv is Str) && (e matches Error::NotAString(s) && s@ == "path"@),
            None => !bin_def && (e matches Error::DefaultSourceMissing(s) && s@
                == bin_default_rel()),
        },
        _ => e matches Error::NotATable(s) && s@ == "bin"@,
    }
}

/// What a failed `bin` rewrite reports: the section is not an array, or
/// some entry is malformed.
pub open spec fn bin_rewrite_error(doc: Seq<(Seq<char>, DocValue)>, bin_def: bool, e: Error) -> bool {
    match tbl_lookup(doc, "bin"@) {
        Some(DocValue::Arr(a)) => exists|k: int|
            0 <= k < a.len() && bin_entry_error(#[trigger] a[k], bin_def, e),
        Some(_) => e matches Error::NotAnArray(s) && s@ == "bin"@,
        None => false,
    }
}

/// What a failed dependencies rewrite reports: the section is not a table,
/// or some non-excluded dependency carries a non-string `path`; the error
/// names that dependency's resolved package name.
pub open spec fn deps_rewrite_error(
    doc: Seq<(Seq<char>, DocValue)>,
    ex: Set<Seq<char>>,
    e: Error,
) -> bool {
    match tbl_lookup(doc, "dependencies"@) {
        Some(DocValue::Tbl(t)) => exists|k: int|
            #![trigger t[k]]
            0 <= k < t.len() && {
                &&& !ex.contains(dep_package_name(t[k].0, t[k].1))
                &&& dep_path_not_string(t[k].1)
                &&& (e matches Error::NotAString(s) && s@ == dep_package_name(t[k].0, t[k].1))
            },
        Some(_) => e matches Error::NotATable(s) && s@ == "dependencies"@,
        None => false,
    }
}

/// What a failed rewrite reports: each error names a section or dependency
/// of the document that is malformed in exactly that way.
pub open spec fn rewrite_error_describes(
    doc: Seq<(Seq<char>, DocValue)>,
    ex: Set<Seq<char>>,
    lib_def: bool,
    bin_def: bool,
    e: Error,
) -> bool {
    ||| lib_rewrite_error(doc, lib_def, e)
    ||| bin_rewrite_error(doc, bin_def, e)
    ||| deps_rewrite_error(doc, ex, e)
}

/// The names a caller's exclusion list holds.
pub open spec fn name_set(ex: Seq<String>) -> Set<Seq<char>> {
    Set::new(|s: Seq<char>| exists|i: int| 0 <= i < ex.len() && ex[i]@ == s)
}

/// Whether the exclusion list holds the name.
fn in_exclude(exclude: &Vec<String>, s: &str) -> (r: bool)
    ensures
        r == name_set(exclude@).contains(s@),
{
    let n = exclude.len();
    let mut i: usize = 0;
    while i < n
        invariant
            n == exclude@.len(),
            i <= n,
            forall|j: int| 0 <= j < i ==> exclude@[j]@ != s@,
        decreases n - i,
    {
        if str_eq(exclude[i].as_str(), s) {
            return true;
        }
        i = i + 1;
    }
    false
}

/// Make a string path absolute, as `rw_path_str` describes.
fn rw_path_string(dir: &str, p: &String) -> (r: String)
    ensures
        r@ == rw_path_str(dir@, p@),
{
    if path_is_absolute(p.as_str()) {
        p.clone()
    } else {
        path_join(dir, p.as_str())
    }
}

/// Rewrite the `path` field of a `lib` or `bin` section table in place, as
/// `rw_section_tbl` describes; the table is unchanged on an error.
fn rw_section_exec(
    t: &mut Vec<(String, TomlValue)>,
    dir: &str,
    default_rel: &str,
    def_exists: bool,
) -> (r: Result<(), Error>)
    ensures
        r is Ok <==> rw_section_tbl(dir@, tbl_view(old(t)@), default_rel@, def_exists) is Some,
        r matches Ok(()) ==> Some(tbl_view(final(t)@)) == rw_section_tbl(
            dir@,
            tbl_view(old(t)@),
            default_rel@,
            def_exists,
        ),
        r matches Err(e) ==> tbl_view(final(t)@) == tbl_view(old(t)@) && (match tbl_lookup(
            tbl_view(old(t)@),
            "path"@,
        ) {
            Some(v) => !(v is Str) && (e matches Error::NotAString(s) && s@ == "path"@),
            None => !def_exists && (e matches Error::DefaultSourceMissing(s) && s@
                == default_rel@),
        }),
{
    let ghost t0 = tbl_view(t@);
    match tbl_find(t, "path") {
        Some(j) => {
            proof {
                lemma_tbl_lookup_at_first(t0, "path"@, j as int);
            }
            let ghost tv0 = t@;
            let e = t.remove(j);
            let pkey = e.0;
            match e.1 {
                TomlValue::Str(p) => {
                    let p2 = rw_path_string(dir, &p);
                    t.insert(j, (pkey, TomlValue::Str(p2)));
                    proof {
                        lemma_tbl_update_at_first(
                            t0,
                            "path"@,
                            DocValue::Str(rw_path_str(dir@, p@)),
                            j as int,
                        );
                        assert(tbl_view(t@) =~= t0.update(
                            j as int,
                            ("path"@, DocValue::Str(rw_path_str(dir@, p@))),
                        ));
                    }
                    Ok(())
                },
                other => {
                    t.insert(j, (pkey, other));
                    proof {
                        assert(t@ =~= tv0);
                    }
                    Err(Error::NotAString("path".to_owned()))
                },
            }
        },
        None => {
            proof {
                lemma_tbl_lookup_absent(t0, "path"@);
            }
            if def_exists {
                let dp = path_join(dir, default_rel);
                let ghost tv0 = t@;
                t.push(("path".to_owned(), TomlValue::Str(dp)));
                proof {
                    crate::toml_doc::lemma_tbl_view_push(tv0, t@.last());
                    assert(tbl_view(t@) == t0.push(
                        ("path"@, DocValue::Str(join_path(dir@, default_rel@))),
                    ));
                }
                Ok(())
            } else {
                Err(Error::DefaultSourceMissing(default_rel.to_owned()))
            }
        },
    }
}

/// Rewrite the `path` field of a dependency table in place, as `rw_dep_tbl`
/// describes; the table is unchanged on an error. The error names the
/// dependency's resolved package name.
fn rw_dep_exec(t: &mut Vec<(String, TomlValue)>, dir: &str, pkg: &str) -> (r: Result<(), Error>)
    ensures
        r is Ok <==> rw_dep_tbl(dir@, tbl_view(old(t)@)) is Some,
        r matches Ok(()) ==> Some(tbl_view(final(t)@)) == rw_dep_tbl(dir@, tbl_view(old(t)@)),
        r matches Err(e) ==> tbl_view(final(t)@) == tbl_view(old(t)@) && (e
            matches Error::NotAString(s) && s@ == pkg@) && (tbl_lookup(
            tbl_view(old(t)@),
            "path"@,
        ) matches Some(pv) && !(pv is Str)),
{
    let ghost t0 = tbl_view(t@);
    match tbl_find(t, "path") {
        Some(j) => {
            proof {
                lemma_tbl_lookup_at_first(t0, "path"@, j as int);
            }
            let ghost tv0 = t@;
            let e = t.remove(j);
            let pkey = e.0;
            match e.1 {
                TomlValue::Str(p) => {
                    let p2 = rw_path_string(dir, &p);
                    t.insert(j, (pkey, TomlValue::Str(p2)));
                    proof {
                        lemma_tbl_update_at_first(
                            t0,
                            "path"@,
                            DocValue::Str(rw_path_str(dir@, p@)),
                            j as int,
                        );
                        assert(tbl_view(t@) =~= t0.update(
                            j as int,
                            ("path"@, DocValue::Str(rw_path_str(dir@, p@))),
                        ));
                    }
                    Ok(())
                },
                other => {
                    t.insert(j, (pkey, other));
                    proof {
                        assert(t@ =~= tv0);
                    }
                    Err(Error::NotAString(pkg.to_owned()))
                },
            }
        },
        None => {
            proof {
                lemma_tbl_lookup_absent(t0, "path"@);
            }
            Ok(())
        },
    }
}

/// The resolved package name of a dependency entry, as `dep_package_name`
/// describes it.
fn dep_pkg_name<'a>(name: &'a String, v: &'a TomlValue) -> (r: &'a String)
    ensures
        r@ == dep_package_name(name@, v@),
{
    match v {
        TomlValue::Tbl(tb) => match tbl_get(tb, "package") {
            Some(pv) => match pv {
                TomlValue::Str(p) => p,
                _ => name,
            },
            None => name,
        },
        _ => name,
    }
}

/// Rewrite the `lib` section of the document, as `rw_lib_step` describes.
#[verifier::rlimit(50)]
fn rw_lib_exec(doc: &mut Vec<(String, TomlValue)>, dir: &str, lib_default_exists: bool) -> (r:
    Result<(), Error>)
    requires
        is_absolute_path(dir@),
    ensures
        r is Ok <==> rw_lib_step(dir@, tbl_view(old(doc)@), lib_default_exists) is Some,
        r matches Ok(()) ==> Some(tbl_view(final(doc)@)) == rw_lib_step(
            dir@,
            tbl_view(old(doc)@),
            lib_default_exists,
        ),
        r matches Err(e) ==> lib_rewrite_error(tbl_view(old(doc)@), lib_default_exists, e),
{
    let ghost doc0 = tbl_view(doc@);
    match tbl_find(doc, "lib") {
        None => {
            proof {
                lemma_tbl_lookup_absent(doc0, "lib"@);
            }
        },
        Some(i) => {
            proof {
                lemma_tbl_lookup_at_first(doc0, "lib"@, i as int);
            }
            let e = doc.remove(i);
            let lkey = e.0;
            match e.1 {
                TomlValue::Tbl(mut t) => {
                    let ghost lt0 = tbl_view(t@);
                    match rw_section_exec(&mut t, dir, "src/lib.rs", lib_default_exists) {
                        Ok(()) => {
                            doc.insert(i, (lkey, TomlValue::Tbl(t)));
                            proof {
                                lemma_tbl_update_at_first(
                                    doc0,
                                    "lib"@,
                                    DocValue::Tbl(tbl_view(t@)),
                                    i as int,
                                );
                                assert(tbl_view(doc@) =~= tbl_update(
                                    doc0,
                                    "lib"@,
                                    DocValue::Tbl(tbl_view(t@)),
                                ));
                            }
                        },
                        Err(err) => {
                            doc.insert(i, (lkey, TomlValue::Tbl(t)));
                            proof {
                                assert(rw_section_value(
                                    dir@,
                                    DocValue::Tbl(lt0),
                                    lib_default_rel(),
                                    lib_default_exists,
                                ) is None);
                                assert(rw_lib_step(dir@, doc0, lib_default_exists) is None);
                            }
                            return Err(err);
                        },
                    }
                },
                other => {
                    proof {
                        assert(rw_section_value(
                            dir@,
                            doc0[i as int].1,
                            lib_default_rel(),
                            lib_default_exists,
                        ) is None);
                        assert(rw_lib_step(dir@, doc0, lib_default_exists) is None);
                    }
                    doc.insert(i, (lkey, other));
                    return Err(Error::NotATable("lib".to_owned()));
                },
            }
        },
    }
    proof {
        assert(rw_lib_step(dir@, doc0, lib_default_exists) == Some(tbl_view(doc@)));
    }
    Ok(())
}

/// Rewrite the `bin` entries of the document, as `rw_bin_step` describes.
#[verifier::rlimit(100)]
fn rw_bin_exec(doc: &mut Vec<(String, TomlValue)>, dir: &str, bin_default_exists: bool) -> (r:
    Result<(), Error>)
    requires
        is_absolute_path(dir@),
    ensures
        r is Ok <==> rw_bin_step(dir@, tbl_view(old(doc)@), bin_default_exists) is Some,
        r matches Ok(()) ==> Some(tbl_view(final(doc)@)) == rw_bin_step(
            dir@,
            tbl_view(old(doc)@),
            bin_default_exists,
        ),
        r matches Err(e) ==> bin_rewrite_error(tbl_view(old(doc)@), bin_default_exists, e),
{
    let ghost doc1 = tbl_view(doc@);
    match tbl_find(doc, "bin") {
        None => {
            proof {
                lemma_tbl_lookup_absent(doc1, "bin"@);
            }
        },
        Some(i) => {
            proof {
                lemma_tbl_lookup_at_first(doc1, "bin"@, i as int);
            }
            let e = doc.remove(i);
            let ghost docv_rm = doc@;
            let bkey = e.0;
            match e.1 {
                TomlValue::Arr(mut a) => {
                    let ghost av0 = a@;
                    let ghost a0 = arr_view(a@);
                    proof {
                        assert(tbl_lookup(doc1, "bin"@) == Some(DocValue::Arr(a0)));
                    }
                    let n = a.len();
                    let mut k: usize = 0;
                    while k < n
                        invariant
                            k <= n,
                            n == a@.len(),
                            a@.len() == av0.len(),
                            a0 == arr_view(av0),
                            is_absolute_path(dir@),
                            doc@ == docv_rm,
                            i <= docv_rm.len(),
                            doc1 == tbl_view(old(doc)@),
                            tbl_lookup(doc1, "bin"@) == Some(DocValue::Arr(a0)),
                            forall|j: int| k <= j < n ==> a@[j] == av0[j],
                            forall|j: int|
                                0 <= j < k ==> Some(#[trigger] arr_view(a@)[j]) == rw_section_value(
                                    dir@,
                                    a0[j],
                                    bin_default_rel(),
                                    bin_default_exists,
                                ),
                        decreases n - k,
                    {
                        let ghost ak = a@;
                        let e = a.remove(k);
                        proof {
                            assert(e == av0[k as int]);
                            assert(a0[k as int] == e@);
                        }
                        match e {
                            TomlValue::Tbl(mut t) => {
                                let ghost t_pre = tbl_view(t@);
                                match rw_section_exec(&mut t, dir, "src/main.rs", bin_default_exists) {
                                    Ok(()) => {
                                        a.insert(k, TomlValue::Tbl(t));
                                        proof {
                                            assert(a@ =~= ak.update(k as int, TomlValue::Tbl(t)));
                                            assert(forall|j: int|
                                                0 <= j < n && j != k ==> arr_view(a@)[j]
                                                    == arr_view(ak)[j]);
                                            assert(arr_view(a@)[k as int] == DocValue::Tbl(
                                                tbl_view(t@),
                                            ));
                                            assert(rw_section_value(
                                                dir@,
                                                a0[k as int],
                                                bin_default_rel(),
                                                bin_default_exists,
                                            ) == Some(DocValue::Tbl(tbl_view(t@))));
                                            assert forall|j: int|
                                                0 <= j < k + 1 implies Some(
                                                #[trigger] arr_view(a@)[j],
                                            ) == rw_section_value(
                                                dir@,
                                                a0[j],
                                                bin_default_rel(),
                                                bin_default_exists,
                                            ) by {
                                                if j < k {
                                                    assert(arr_view(a@)[j] == arr_view(ak)[j]);
                                                    assert(Some(arr_view(ak)[j])
                                                        == rw_section_value(
                                                        dir@,
                                                        a0[j],
                                                        bin_default_rel(),
                                                        bin_default_exists,
                                                    ));
                                                }
                                            }
                                        }
                                    },
                                    Err(err) => {
                                        a.insert(k, TomlValue::Tbl(t));
                                        doc.insert(i, (bkey, TomlValue::Arr(a)));
                                        proof {
                                            assert(rw_section_value(
                                                dir@,
                                                a0[k as int],
                                                bin_default_rel(),
                                                bin_default_exists,
                                            ) is None);
                                            assert(rw_bin_arr(dir@, a0, bin_default_exists)
                                                is None);
                                            assert(rw_bin_step(dir@, doc1, bin_default_exists)
                                                is None);
                                        }
                                        return Err(err);
                                    },
                                }
                            },
                            other => {
                                proof {
                                    assert(rw_section_value(
                                        dir@,
                                        a0[k as int],
                                        bin_default_rel(),
                                        bin_default_exists,
                                    ) is None);
                                    assert(rw_bin_arr(dir@, a0, bin_default_exists) is None);
                                    assert(rw_bin_step(dir@, doc1, bin_default_exists) is None);
                                }
                                a.insert(k, other);
                                doc.insert(i, (bkey, TomlValue::Arr(a)));
                                return Err(Error::NotATable("bin".to_owned()));
                            },
                        }
                        k = k + 1;
                    }
                    proof {
                        assert forall|j: int| 0 <= j < a0.len() implies #[trigger] rw_section_value(
                            dir@,
                            a0[j],
                            bin_default_rel(),
                            bin_default_exists,
                        ) is Some by {
                            assert(Some(arr_view(a@)[j]) == rw_section_value(
                                dir@,
                                a0[j],
                                bin_default_rel(),
                                bin_default_exists,
                            ));
                        }
                    }
                    doc.insert(i, (bkey, TomlValue::Arr(a)));
                    proof {
                        assert(arr_view(a@) =~= Seq::new(
                            a0.len(),
                            |j: int|
                                rw_section_value(
                                    dir@,
                                    a0[j],
                                    bin_default_rel(),
                                    bin_default_exists,
                                )->Some_0,
                        ));
                        assert(rw_bin_arr(dir@, a0, bin_default_exists) == Some(arr_view(a@)));
                        lemma_tbl_update_at_first(
                            doc1,
                            "bin"@,
                            DocValue::Arr(arr_view(a@)),
                            i as int,
                        );
                        assert(tbl_view(doc@) =~= tbl_update(
                            doc1,
                            "bin"@,
                            DocValue::Arr(arr_view(a@)),
                        ));
                    }
                },
                other => {
                    proof {
                        assert(rw_bin_step(dir@, doc1, bin_default_exists) is None);
                    }
                    doc.insert(i, (bkey, other));
                    return Err(Error::NotAnArray("bin".to_owned()));
                },
            }
        },
    }
    proof {
        assert(rw_bin_step(dir@, doc1, bin_default_exists) == Some(tbl_view(doc@)));
    }
    Ok(())
}

/// Rewrite one dependency entry in place, as `rw_dep_value` describes;
/// entries other than the one at `k` are untouched.
fn rw_dep_at(t: &mut Vec<(String, TomlValue)>, k: usize, dir: &str, exclude: &Vec<String>) -> (r:
    Result<(), Error>)
    requires
        is_absolute_path(dir@),
        k < old(t)@.len(),
    ensures
        final(t)@.len() == old(t)@.len(),
        forall|j: int| 0 <= j < old(t)@.len() && j != k ==> final(t)@[j] == old(t)@[j],
        r is Ok <==> rw_dep_value(
            dir@,
            name_set(exclude@),
            old(t)@[k as int].0@,
            old(t)@[k as int].1@,
        ) is Some,
        r matches Ok(()) ==> final(t)@[k as int].0@ == old(t)@[k as int].0@ && Some(
            final(t)@[k as int].1@,
        ) == rw_dep_value(dir@, name_set(exclude@), old(t)@[k as int].0@, old(t)@[k as int].1@),
        r matches Err(e) ==> (e matches Error::NotAString(s) && s@ == dep_package_name(
            old(t)@[k as int].0@,
            old(t)@[k as int].1@,
        )) && !name_set(exclude@).contains(
            dep_package_name(old(t)@[k as int].0@, old(t)@[k as int].1@),
        ) && dep_path_not_string(old(t)@[k as int].1@),
{
    let ghost ex = name_set(exclude@);
    let ghost tk = t@;
    let e = t.remove(k);
    proof {
        assert(e == tk[k as int]);
    }
    let name = e.0;
    let v = e.1;
    let excluded = in_exclude(exclude, dep_pkg_name(&name, &v).as_str());
    if excluded {
        t.insert(k, (name, v));
        proof {
            assert(t@ =~= tk);
        }
        Ok(())
    } else {
        match v {
            TomlValue::Tbl(mut dt) => {
                let ghost dt_pre = tbl_view(dt@);
                let pkg = dep_pkg_name_owned(&name, &dt);
                match rw_dep_exec(&mut dt, dir, pkg.as_str()) {
                    Ok(()) => {
                        t.insert(k, (name, TomlValue::Tbl(dt)));
                        proof {
                            assert(t@ =~= tk.update(k as int, (name, TomlValue::Tbl(dt))));
                            assert(rw_dep_value(dir@, ex, tk[k as int].0@, tk[k as int].1@)
                                == Some(DocValue::Tbl(tbl_view(dt@))));
                        }
                        Ok(())
                    },
                    Err(err) => {
                        t.insert(k, (name, TomlValue::Tbl(dt)));
                        proof {
                            assert(t@.len() == tk.len());
                            assert(rw_dep_value(dir@, ex, tk[k as int].0@, tk[k as int].1@)
                                is None);
                        }
                        Err(err)
                    },
                }
            },
            other => {
                t.insert(k, (name, other));
                proof {
                    assert(t@ =~= tk);
                    assert(rw_dep_value(dir@, ex, tk[k as int].0@, tk[k as int].1@) == Some(
                        tk[k as int].1@,
                    ));
                }
                Ok(())
            },
        }
    }
}

/// Rewrite the dependency entries of the document, as `rw_deps_step`
/// describes.
#[verifier::rlimit(100)]
fn rw_deps_exec(doc: &mut Vec<(String, TomlValue)>, dir: &str, exclude: &Vec<String>) -> (r:
    Result<(), Error>)
    requires
        is_absolute_path(dir@),
    ensures
        r is Ok <==> rw_deps_step(dir@, tbl_view(old(doc)@), name_set(exclude@)) is Some,
        r matches Ok(()) ==> Some(tbl_view(final(doc)@)) == rw_deps_step(
            dir@,
            tbl_view(old(doc)@),
            name_set(exclude@),
        ),
        r matches Err(e) ==> deps_rewrite_error(
            tbl_view(old(doc)@),
            name_set(exclude@),
            e,
        ),
{
    let ghost doc2 = tbl_view(doc@);
    let ghost ex = name_set(exclude@);
    match tbl_find(doc, "dependencies") {
        None => {
            proof {
                lemma_tbl_lookup_absent(doc2, "dependencies"@);
            }
        },
        Some(i) => {
            proof {
                lemma_tbl_lookup_at_first(doc2, "dependencies"@, i as int);
            }
            let e = doc.remove(i);
            let ghost docv_rm = doc@;
            let dkey = e.0;
            match e.1 {
                TomlValue::Tbl(mut t) => {
                    let ghost tv0 = t@;
                    let ghost dt0 = tbl_view(t@);
                    proof {
                        assert(tbl_lookup(doc2, "dependencies"@) == Some(DocValue::Tbl(dt0)));
                        assert(forall|j: int|
                            0 <= j < tv0.len() ==> dt0[j] == (
                                (#[trigger] tv0[j]).0@,
                                tv0[j].1@,
                            ));
                    }
                    let n = t.len();
                    let mut k: usize = 0;
                    while k < n
                        invariant
                            k <= n,
                            n == t@.len(),
                            t@.len() == tv0.len(),
                            dt0 == tbl_view(tv0),
                            is_absolute_path(dir@),
                            ex == name_set(exclude@),
                            doc@ == docv_rm,
                            i <= docv_rm.len(),
                            doc2 == tbl_view(old(doc)@),
                            tbl_lookup(doc2, "dependencies"@) == Some(DocValue::Tbl(dt0)),
                            forall|j: int|
                                0 <= j < tv0.len() ==> dt0[j] == (
                                    (#[trigger] tv0[j]).0@,
                                    tv0[j].1@,
                                ),
                            forall|j: int| k <= j < n ==> t@[j] == tv0[j],
                            forall|j: int|
                                0 <= j < k ==> (#[trigger] t@[j]).0@ == tv0[j].0@ && Some(
                                    t@[j].1@,
                                ) == rw_dep_value(dir@, ex, tv0[j].0@, tv0[j].1@),
                        decreases n - k,
                    {
                        let ghost tk = t@;
                        match rw_dep_at(&mut t, k, dir, exclude) {
                            Ok(()) => {},
                            Err(err) => {
                                doc.insert(i, (dkey, TomlValue::Tbl(t)));
                                proof {
                                    assert(rw_dep_value(dir@, ex, dt0[k as int].0, dt0[k as int].1)
                                        is None);
                                    assert(rw_deps_tbl(dir@, ex, dt0) is None);
                                    assert(rw_deps_step(dir@, doc2, ex) is None);
                                }
                                return Err(err);
                            },
                        }
                        k = k + 1;
                    }
                    proof {
                        assert forall|j: int| 0 <= j < dt0.len() implies #[trigger] rw_dep_value(
                            dir@,
                            ex,
                            dt0[j].0,
                            dt0[j].1,
                        ) is Some by {
                            assert(Some(t@[j].1@) == rw_dep_value(dir@, ex, tv0[j].0@, tv0[j].1@));
                            assert(dt0[j] == (tv0[j].0@, tv0[j].1@));
                        }
                    }
                    doc.insert(i, (dkey, TomlValue::Tbl(t)));
                    proof {
                        assert(tbl_view(t@) =~= Seq::new(
                            dt0.len(),
                            |j: int| (dt0[j].0, rw_dep_value(dir@, ex, dt0[j].0, dt0[j].1)->Some_0),
                        ));
                        assert(rw_deps_tbl(dir@, ex, dt0) == Some(tbl_view(t@)));
                        lemma_tbl_update_at_first(
                            doc2,
                            "dependencies"@,
                            DocValue::Tbl(tbl_view(t@)),
                            i as int,
                        );
                        assert(tbl_view(doc@) =~= tbl_update(
                            doc2,
                            "dependencies"@,
                            DocValue::Tbl(tbl_view(t@)),
                        ));
                    }
                },
                other => {
                    proof {
                        assert(rw_deps_step(dir@, doc2, ex) is None);
                    }
                    doc.insert(i, (dkey, other));
                    return Err(Error::NotATable("dependencies".to_owned()));
                },
            }
        },
    }
    proof {
        assert(rw_deps_step(dir@, doc2, ex) == Some(tbl_view(doc@)));
    }
    Ok(())
}

/// Rewrite every relative path of the document against the given absolute
/// directory, as `rewrite_doc_spec` describes: `lib.path`, every `bin`
/// entry's `path`, and the `path` of every dependency whose resolved package
/// name is not in the exclusion list. `lib_default_exists` and
/// `bin_default_exists` say whether the conventional default source files
/// are present on disk, for sections that carry no `path`. On an error the
/// document may be left partly rewritten; a failed rewrite is fatal to the
/// run and the document is never written out.
pub fn rewrite_doc_entries(
    doc: &mut Vec<(String, TomlValue)>,
    dir: &str,
    exclude: &Vec<String>,
    lib_default_exists: bool,
    bin_default_exists: bool,
) -> (r: Result<(), Error>)
    requires
        is_absolute_path(dir@),
    ensures
        r is Ok <==> rewrite_doc_spec(
            dir@,
            tbl_view(old(doc)@),
            name_set(exclude@),
            lib_default_exists,
            bin_default_exists,
        ) is Some,
        r matches Ok(()) ==> Some(tbl_view(final(doc)@)) == rewrite_doc_spec(
            dir@,
            tbl_view(old(doc)@),
            name_set(exclude@),
            lib_default_exists,
            bin_default_exists,
        ),
        r matches Err(e) ==> rewrite_error_describes(
            tbl_view(old(doc)@),
            name_set(exclude@),
            lib_default_exists,
            bin_default_exists,
            e,
        ),
{
    let ghost doc0 = tbl_view(doc@);
    match rw_lib_exec(doc, dir, lib_default_exists) {
        Ok(()) => {},
        Err(err) => {
            return Err(err);
        },
    }
    let ghost doc1 = tbl_view(doc@);
    proof {
        lemma_keys_distinct();
        match tbl_lookup(doc0, "lib"@) {
            None => {},
            Some(v) => {
                let v2 = rw_section_value(dir@, v, lib_default_rel(), lib_default_exists)->Some_0;
                lemma_tbl_lookup_update_other(doc0, "lib"@, v2, "bin"@);
                lemma_tbl_lookup_update_other(doc0, "lib"@, v2, "dependencies"@);
            },
        }
        assert(tbl_lookup(doc1, "bin"@) == tbl_lookup(doc0, "bin"@));
        assert(tbl_lookup(doc1, "dependencies"@) == tbl_lookup(doc0, "dependencies"@));
    }
    match rw_bin_exec(doc, dir, bin_default_exists) {
        Ok(()) => {},
        Err(err) => {
            proof {
                assert(bin_rewrite_error(doc0, bin_default_exists, err));
            }
            return Err(err);
        },
    }
    let ghost doc2 = tbl_view(doc@);
    proof {
        lemma_keys_distinct();
        match tbl_lookup(doc1, "bin"@) {
            None => {},
            Some(DocValue::Arr(a)) => {
                lemma_tbl_lookup_update_other(
                    doc1,
                    "bin"@,
                    DocValue::Arr(rw_bin_arr(dir@, a, bin_default_exists)->Some_0),
                    "dependencies"@,
                );
            },
            Some(_) => {},
        }
        assert(tbl_lookup(doc2, "dependencies"@) == tbl_lookup(doc0, "dependencies"@));
    }
    match rw_deps_exec(doc, dir, exclude) {
        Ok(()) => {},
        Err(err) => {
            proof {
                assert(deps_rewrite_error(doc0, name_set(exclude@), err));
            }
            return Err(err);
        },
    }
    Ok(())
}

/// The resolved package name of a dependency table, owned.
fn dep_pkg_name_owned(name: &String, dt: &Vec<(String, TomlValue)>) -> (r: String)
    ensures
        r@ == dep_package_name(name@, DocValue::Tbl(tbl_view(dt@))),
{
    match tbl_get(dt, "package") {
        Some(pv) => match pv {
            TomlValue::Str(p) => p.clone(),
            _ => name.clone(),
        },
        None => name.clone(),
    }
}


/// The four section keys the rewrite reads are pairwise distinct, and a
/// dependency's `path` key differs from its `package` key.
proof fn lemma_keys_distinct()
    ensures
        "lib"@ != "bin"@,
        "lib"@ != "dependencies"@,
        "bin"@ != "dependencies"@,
        "path"@ != "package"@,
{
    reveal_strlit("lib");
    reveal_strlit("bin");
    reveal_strlit("dependencies");
    reveal_strlit("path");
    reveal_strlit("package");
    assert("lib"@[0] == 'l');
    assert("bin"@[0] == 'b');
    assert("lib"@.len() == 3);
    assert("dependencies"@.len() == 12);
    assert("path"@.len() == 4);
    assert("package"@.len() == 7);
}

/// A rewritten path is absolute.
pub proof fn lemma_rw_path_absolute(dir: Seq<char>, p: Seq<char>)
    requires
        is_absolute_path(dir),
    ensures
        is_absolute_path(rw_path_str(dir, p)),
{
    if is_relative_path(p) {
        crate::paths::lemma_join_absolute(dir, p);
    }
}

/// A `lib` or `bin` section value in already-rewritten form: a table whose
/// `path` is an absolute string.
pub open spec fn section_rewritten(v: DocValue) -> bool {
    v matches DocValue::Tbl(t) && (tbl_lookup(t, "path"@) matches Some(DocValue::Str(p))
        && is_absolute_path(p))
}

/// A dependency entry in already-rewritten form: excluded, or without a
/// relative string path.
pub open spec fn dep_rewritten(exclude: Set<Seq<char>>, name: Seq<char>, v: DocValue) -> bool {
    exclude.contains(dep_package_name(name, v)) || (match v {
        DocValue::Tbl(t) => match tbl_lookup(t, "path"@) {
            Some(DocValue::Str(p)) => is_absolute_path(p),
            Some(_) => false,
            None => true,
        },
        _ => true,
    })
}

/// A document in already-rewritten form: its `lib` section, every `bin`
/// entry, and every dependency are in rewritten form.
pub open spec fn doc_rewritten(exclude: Set<Seq<char>>, doc: Seq<(Seq<char>, DocValue)>) -> bool {
    &&& match tbl_lookup(doc, "lib"@) {
        None => true,
        Some(v) => section_rewritten(v),
    }
    &&& match tbl_lookup(doc, "bin"@) {
        None => true,
        Some(DocValue::Arr(a)) => forall|i: int|
            0 <= i < a.len() ==> section_rewritten(#[trigger] a[i]),
        Some(_) => false,
    }
    &&& match tbl_lookup(doc, "dependencies"@) {
        None => true,
        Some(DocValue::Tbl(t)) => forall|i: int|
            0 <= i < t.len() ==> dep_rewritten(exclude, (#[trigger] t[i]).0, t[i].1),
        Some(_) => false,
    }
}

/// A section that rewrites successfully comes out in rewritten form.
proof fn lemma_rw_section_makes_rewritten(
    dir: Seq<char>,
    v: DocValue,
    default_rel: Seq<char>,
    def_exists: bool,
    v2: DocValue,
)
    requires
        is_absolute_path(dir),
        rw_section_value(dir, v, default_rel, def_exists) == Some(v2),
    ensures
        section_rewritten(v2),
{
    let t = v->Tbl_0;
    match tbl_lookup(t, "path"@) {
        Some(DocValue::Str(p)) => {
            lemma_rw_path_absolute(dir, p);
            lemma_tbl_lookup_update_same(t, "path"@, DocValue::Str(rw_path_str(dir, p)));
        },
        Some(_) => {},
        None => {
            crate::paths::lemma_join_absolute(dir, default_rel);
            crate::toml_doc::lemma_tbl_lookup_push_absent(
                t,
                "path"@,
                DocValue::Str(join_path(dir, default_rel)),
            );
        },
    }
}


/// A dependency entry that rewrites successfully comes out in rewritten
/// form.
proof fn lemma_rw_dep_makes_rewritten(
    dir: Seq<char>,
    exclude: Set<Seq<char>>,
    name: Seq<char>,
    v: DocValue,
    v2: DocValue,
)
    requires
        is_absolute_path(dir),
        rw_dep_value(dir, exclude, name, v) == Some(v2),
    ensures
        dep_rewritten(exclude, name, v2),
{
    lemma_keys_distinct();
    if exclude.contains(dep_package_name(name, v)) {
    } else {
        match v {
            DocValue::Tbl(t) => {
                match tbl_lookup(t, "path"@) {
                    Some(DocValue::Str(p)) => {
                        lemma_rw_path_absolute(dir, p);
                        lemma_tbl_lookup_update_same(
                            t,
                            "path"@,
                            DocValue::Str(rw_path_str(dir, p)),
                        );
                        lemma_tbl_lookup_update_other(
                            t,
                            "path"@,
                            DocValue::Str(rw_path_str(dir, p)),
                            "package"@,
                        );
                        assert(dep_package_name(name, v2) == dep_package_name(name, v));
                    },
                    _ => {},
                }
            },
            _ => {},
        }
    }
}

/// A successful rewrite leaves the document in rewritten form.
pub proof fn lemma_rewrite_makes_rewritten(
    dir: Seq<char>,
    doc: Seq<(Seq<char>, DocValue)>,
    exclude: Set<Seq<char>>,
    lib_def: bool,
    bin_def: bool,
    d1: Seq<(Seq<char>, DocValue)>,
)
    requires
        is_absolute_path(dir),
        rewrite_doc_spec(dir, doc, exclude, lib_def, bin_def) == Some(d1),
    ensures
        doc_rewritten(exclude, d1),
{
    lemma_keys_distinct();
    let dl = rw_lib_step(dir, doc, lib_def)->Some_0;
    let db = rw_bin_step(dir, dl, bin_def)->Some_0;

    // the lib section of the final document
    match tbl_lookup(doc, "lib"@) {
        None => {
            match tbl_lookup(dl, "bin"@) {
                Some(DocValue::Arr(a)) => {
                    lemma_tbl_lookup_update_other(
                        dl,
                        "bin"@,
                        DocValue::Arr(rw_bin_arr(dir, a, bin_def)->Some_0),
                        "lib"@,
                    );
                },
                _ => {},
            }
        },
        Some(v) => {
            let v2 = rw_section_value(dir, v, lib_default_rel(), lib_def)->Some_0;
            lemma_rw_section_makes_rewritten(dir, v, lib_default_rel(), lib_def, v2);
            lemma_tbl_lookup_update_same(doc, "lib"@, v2);
            match tbl_lookup(dl, "bin"@) {
                Some(DocValue::Arr(a)) => {
                    lemma_tbl_lookup_update_other(
                        dl,
                        "bin"@,
                        DocValue::Arr(rw_bin_arr(dir, a, bin_def)->Some_0),
                        "lib"@,
                    );
                },
                _ => {},
            }
        },
    }
    match tbl_lookup(db, "dependencies"@) {
        Some(DocValue::Tbl(t)) => {
            lemma_tbl_lookup_update_other(
                db,
                "dependencies"@,
                DocValue::Tbl(rw_deps_tbl(dir, exclude, t)->Some_0),
                "lib"@,
            );
        },
        _ => {},
    }

    // the bin entries of the final document
    match tbl_lookup(dl, "bin"@) {
        None => {},
        Some(DocValue::Arr(a)) => {
            let a2 = rw_bin_arr(dir, a, bin_def)->Some_0;
            assert forall|i: int| 0 <= i < a2.len() implies section_rewritten(#[trigger] a2[i]) by {
                assert(rw_section_value(dir, a[i], bin_default_rel(), bin_def) is Some);
                lemma_rw_section_makes_rewritten(
                    dir,
                    a[i],
                    bin_default_rel(),
                    bin_def,
                    a2[i],
                );
            }
            lemma_tbl_lookup_update_same(dl, "bin"@, DocValue::Arr(a2));
        },
        Some(_) => {},
    }
    match tbl_lookup(db, "dependencies"@) {
        Some(DocValue::Tbl(t)) => {
            lemma_tbl_lookup_update_other(
                db,
                "dependencies"@,
                DocValue::Tbl(rw_deps_tbl(dir, exclude, t)->Some_0),
                "bin"@,
            );
        },
        _ => {},
    }

    // the dependencies of the final document
    match tbl_lookup(db, "dependencies"@) {
        None => {},
        Some(DocValue::Tbl(t)) => {
            let t2 = rw_deps_tbl(dir, exclude, t)->Some_0;
            assert forall|i: int|
                0 <= i < t2.len() implies dep_rewritten(
                    exclude,
                    (#[trigger] t2[i]).0,
                    t2[i].1,
                ) by {
                assert(rw_dep_value(dir, exclude, t[i].0, t[i].1) is Some);
                assert(t2[i] == (t[i].0, rw_dep_value(dir, exclude, t[i].0, t[i].1)->Some_0));
                lemma_rw_dep_makes_rewritten(
                    dir,
                    exclude,
                    t[i].0,
                    t[i].1,
                    t2[i].1,
                );
            }
            lemma_tbl_lookup_update_same(db, "dependencies"@, DocValue::Tbl(t2));
        },
        Some(_) => {},
    }
}


/// A section already in rewritten form rewrites to itself.
proof fn lemma_rw_section_fixed(
    dir: Seq<char>,
    v: DocValue,
    default_rel: Seq<char>,
    def_exists: bool,
)
    requires
        section_rewritten(v),
    ensures
        rw_section_value(dir, v, default_rel, def_exists) == Some(v),
{
    let t = v->Tbl_0;
    let p = tbl_lookup(t, "path"@)->Some_0->Str_0;
    assert(rw_path_str(dir, p) == p);
    lemma_tbl_update_same_value(t, "path"@, DocValue::Str(p));
}

/// A dependency entry already in rewritten form rewrites to itself.
proof fn lemma_rw_dep_fixed(dir: Seq<char>, exclude: Set<Seq<char>>, name: Seq<char>, v: DocValue)
    requires
        dep_rewritten(exclude, name, v),
    ensures
        rw_dep_value(dir, exclude, name, v) == Some(v),
{
    if exclude.contains(dep_package_name(name, v)) {
    } else {
        match v {
            DocValue::Tbl(t) => {
                match tbl_lookup(t, "path"@) {
                    Some(DocValue::Str(p)) => {
                        assert(rw_path_str(dir, p) == p);
                        lemma_tbl_update_same_value(t, "path"@, DocValue::Str(p));
                    },
                    _ => {},
                }
            },
            _ => {},
        }
    }
}

/// A document already in rewritten form is a fixed point of the rewrite.
pub proof fn lemma_rewrite_fixed_point(
    dir: Seq<char>,
    d: Seq<(Seq<char>, DocValue)>,
    exclude: Set<Seq<char>>,
    lib_def: bool,
    bin_def: bool,
)
    requires
        doc_rewritten(exclude, d),
    ensures
        rewrite_doc_spec(dir, d, exclude, lib_def, bin_def) == Some(d),
{
    // the lib step changes nothing
    match tbl_lookup(d, "lib"@) {
        None => {},
        Some(v) => {
            lemma_rw_section_fixed(dir, v, lib_default_rel(), lib_def);
            lemma_tbl_update_same_value(d, "lib"@, v);
        },
    }
    assert(rw_lib_step(dir, d, lib_def) == Some(d));

    // the bin step changes nothing
    match tbl_lookup(d, "bin"@) {
        None => {},
        Some(DocValue::Arr(a)) => {
            assert forall|i: int|
                0 <= i < a.len() implies #[trigger] rw_section_value(
                dir,
                a[i],
                bin_default_rel(),
                bin_def,
            ) is Some by {
                lemma_rw_section_fixed(dir, a[i], bin_default_rel(), bin_def);
            }
            let a2 = rw_bin_arr(dir, a, bin_def)->Some_0;
            assert forall|i: int| 0 <= i < a.len() implies a2[i] == a[i] by {
                lemma_rw_section_fixed(dir, a[i], bin_default_rel(), bin_def);
            }
            assert(a2 =~= a);
            lemma_tbl_update_same_value(d, "bin"@, DocValue::Arr(a));
        },
        Some(_) => {},
    }
    assert(rw_bin_step(dir, d, bin_def) == Some(d));

    // the dependencies step changes nothing
    match tbl_lookup(d, "dependencies"@) {
        None => {},
        Some(DocValue::Tbl(t)) => {
            assert forall|i: int|
                0 <= i < t.len() implies #[trigger] rw_dep_value(
                dir,
                exclude,
                t[i].0,
                t[i].1,
            ) is Some by {
                lemma_rw_dep_fixed(dir, exclude, t[i].0, t[i].1);
            }
            let t2 = rw_deps_tbl(dir, exclude, t)->Some_0;
            assert forall|i: int| 0 <= i < t.len() implies t2[i] == t[i] by {
                lemma_rw_dep_fixed(dir, exclude, t[i].0, t[i].1);
                assert(t[i] == (t[i].0, t[i].1));
            }
            assert(t2 =~= t);
            lemma_tbl_update_same_value(d, "dependencies"@, DocValue::Tbl(t));
        },
        Some(_) => {},
    }
    assert(rw_deps_step(dir, d, exclude) == Some(d));
}

/// Rewriting relative paths is idempotent: a successful rewrite yields an
/// already-absolute document, and applying the rewrite to its result
/// changes nothing, so rewriting twice yields the same document as
/// rewriting once.
pub proof fn lemma_rewrite_idempotent(
    dir: Seq<char>,
    doc: Seq<(Seq<char>, DocValue)>,
    exclude: Set<Seq<char>>,
    lib_def: bool,
    bin_def: bool,
    d1: Seq<(Seq<char>, DocValue)>,
)
    requires
        is_absolute_path(dir),
        rewrite_doc_spec(dir, doc, exclude, lib_def, bin_def) == Some(d1),
    ensures
        rewrite_doc_spec(dir, d1, exclude, lib_def, bin_def) == Some(d1),
{
    lemma_rewrite_makes_rewritten(dir, doc, exclude, lib_def, bin_def, d1);
    lemma_rewrite_fixed_point(dir, d1, exclude, lib_def, bin_def);
}

/// A dependency excluded by the caller keeps its entry, `path` included,
/// untouched by a successful rewrite; every non-excluded dependency that
/// carried a string `path` comes out with an absolute one. Keys and order
/// are kept.
pub proof fn lemma_rewrite_dependencies(
    dir: Seq<char>,
    doc: Seq<(Seq<char>, DocValue)>,
    exclude: Set<Seq<char>>,
    lib_def: bool,
    bin_def: bool,
    d1: Seq<(Seq<char>, DocValue)>,
)
    requires
        is_absolute_path(dir),
        rewrite_doc_spec(dir, doc, exclude, lib_def, bin_def) == Some(d1),
        tbl_lookup(doc, "dependencies"@) matches Some(v) && v is Tbl,
    ensures
        tbl_lookup(d1, "dependencies"@) matches Some(v1) && (v1 matches DocValue::Tbl(t1) && {
            let t0 = tbl_lookup(doc, "dependencies"@)->Some_0->Tbl_0;
            &&& t1.len() == t0.len()
            &&& forall|i: int| 0 <= i < t0.len() ==> (#[trigger] t1[i]).0 == t0[i].0
            &&& forall|i: int|
                0 <= i < t0.len() && exclude.contains(
                    dep_package_name((#[trigger] t0[i]).0, t0[i].1),
                ) ==> t1[i].1 == t0[i].1
            &&& forall|i: int|
                0 <= i < t0.len() && !exclude.contains(
                    dep_package_name((#[trigger] t0[i]).0, t0[i].1),
                ) && (t0[i].1 matches DocValue::Tbl(dt) && tbl_lookup(dt, "path"@) matches Some(
                    pv,
                ) && pv is Str) ==> (t1[i].1 matches DocValue::Tbl(dt1) && tbl_lookup(
                    dt1,
                    "path"@,
                ) matches Some(DocValue::Str(p1)) && is_absolute_path(p1))
        }),
{
    lemma_keys_distinct();
    let dl = rw_lib_step(dir, doc, lib_def)->Some_0;
    let db = rw_bin_step(dir, dl, bin_def)->Some_0;
    let t0 = tbl_lookup(doc, "dependencies"@)->Some_0->Tbl_0;

    // the deps table is untouched by the lib and bin steps
    match tbl_lookup(doc, "lib"@) {
        None => {},
        Some(v) => {
            lemma_tbl_lookup_update_other(
                doc,
                "lib"@,
                rw_section_value(dir, v, lib_default_rel(), lib_def)->Some_0,
                "dependencies"@,
            );
        },
    }
    assert(tbl_lookup(dl, "dependencies"@) == tbl_lookup(doc, "dependencies"@));
    match tbl_lookup(dl, "bin"@) {
        None => {},
        Some(DocValue::Arr(a)) => {
            lemma_tbl_lookup_update_other(
                dl,
                "bin"@,
                DocValue::Arr(rw_bin_arr(dir, a, bin_def)->Some_0),
                "dependencies"@,
            );
        },
        Some(_) => {},
    }
    assert(tbl_lookup(db, "dependencies"@) == tbl_lookup(doc, "dependencies"@));

    let t1 = rw_deps_tbl(dir, exclude, t0)->Some_0;
    lemma_tbl_lookup_update_same(db, "dependencies"@, DocValue::Tbl(t1));
    assert(tbl_lookup(d1, "dependencies"@) == Some(DocValue::Tbl(t1)));

    assert forall|i: int|
        0 <= i < t0.len() && exclude.contains(
            dep_package_name((#[trigger] t0[i]).0, t0[i].1),
        ) implies t1[i].1 == t0[i].1 by {
        assert(rw_dep_value(dir, exclude, t0[i].0, t0[i].1) == Some(t0[i].1));
        assert(t1[i] == (t0[i].0, rw_dep_value(dir, exclude, t0[i].0, t0[i].1)->Some_0));
    }
    assert forall|i: int|
        0 <= i < t0.len() && !exclude.contains(
            dep_package_name((#[trigger] t0[i]).0, t0[i].1),
        ) && (t0[i].1 matches DocValue::Tbl(dt) && tbl_lookup(dt, "path"@) matches Some(pv)
            && pv is Str) implies (t1[i].1 matches DocValue::Tbl(dt1) && tbl_lookup(
            dt1,
            "path"@,
        ) matches Some(DocValue::Str(p1)) && is_absolute_path(p1)) by {
        let dt = t0[i].1->Tbl_0;
        let p = tbl_lookup(dt, "path"@)->Some_0->Str_0;
        assert(rw_dep_value(dir, exclude, t0[i].0, t0[i].1) is Some);
        assert(t1[i] == (t0[i].0, rw_dep_value(dir, exclude, t0[i].0, t0[i].1)->Some_0));
        lemma_rw_path_absolute(dir, p);
        lemma_tbl_lookup_update_same(dt, "path"@, DocValue::Str(rw_path_str(dir, p)));
    }
}

} // verus!
