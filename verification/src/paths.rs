//! A textual model of file system paths.
//!
//! Paths are strings whose components are separated by `/`. A path is
//! absolute when it begins at the root separator. The model keeps only what
//! the manifest tooling reads of a path: its file name component, its parent
//! directory, and whether it is absolute.

use vstd::prelude::*;
use vstd::string::*;

verus! {

/// A path is absolute when it starts at the filesystem root.
pub open spec fn is_absolute_path(p: Seq<char>) -> bool {
    p.len() > 0 && p[0] == '/'
}

/// A path that is not absolute is relative.
pub open spec fn is_relative_path(p: Seq<char>) -> bool {
    !is_absolute_path(p)
}

/// Join a directory path and a further path with a separator; a separator
/// already ending the directory is not doubled.
pub open spec fn join_path(dir: Seq<char>, rel: Seq<char>) -> Seq<char> {
    if dir.len() > 0 && dir[dir.len() - 1] == '/' {
        dir + rel
    } else {
        dir + seq!['/'] + rel
    }
}

/// Joining onto an absolute directory yields an absolute path.
pub proof fn lemma_join_absolute(dir: Seq<char>, rel: Seq<char>)
    requires
        is_absolute_path(dir),
    ensures
        is_absolute_path(join_path(dir, rel)),
{
}

/// Whether the string begins at the filesystem root.
pub fn path_is_absolute(p: &str) -> (r: bool)
    ensures
        r == is_absolute_path(p@),
{
    let n = p.unicode_len();
    if n == 0 {
        false
    } else {
        p.get_char(0) == '/'
    }
}

/// Equality of two string slices, stated over their character sequences.
pub fn str_eq(a: &str, b: &str) -> (r: bool)
    ensures
        r == (a@ == b@),
{
    let sa: String = a.to_owned();
    let sb: String = b.to_owned();
    sa == sb
}

/// Join two path strings as `join_path` describes.
pub fn path_join(dir: &str, rel: &str) -> (r: String)
    ensures
        r@ == join_path(dir@, rel@),
{
    let n = dir.unicode_len();
    let mut s: String = dir.to_owned();
    if n == 0 || dir.get_char(n - 1) != '/' {
        s.append("/");
        proof {
            reveal_strlit("/");
            assert(s@ =~= dir@ + seq!['/']);
        }
    }
    s.append(rel);
    s
}

/// The longest suffix of the path that carries no separator: the candidate
/// file name component.
pub open spec fn file_part(p: Seq<char>) -> Seq<char>
    decreases p.len(),
{
    if p.len() == 0 {
        p
    } else if p[p.len() - 1] == '/' {
        Seq::empty()
    } else {
        file_part(p.drop_last()).push(p.last())
    }
}

/// The file part never outgrows the path.
pub proof fn lemma_file_part_len(p: Seq<char>)
    ensures
        file_part(p).len() <= p.len(),
    decreases p.len(),
{
    if p.len() > 0 && p[p.len() - 1] != '/' {
        lemma_file_part_len(p.drop_last());
    }
}

/// Behind the last separator, the file part is the rest of the path.
pub proof fn lemma_file_part_after_slash(p: Seq<char>, i: int)
    requires
        0 <= i < p.len(),
        p[i] == '/',
        forall|j: int| i < j < p.len() ==> p[j] != '/',
    ensures
        file_part(p) == p.subrange(i + 1, p.len() as int),
    decreases p.len(),
{
    if i == p.len() - 1 {
        assert(file_part(p) =~= p.subrange(i + 1, p.len() as int));
    } else {
        lemma_file_part_after_slash(p.drop_last(), i);
        assert(p.drop_last().subrange(i + 1, p.len() - 1) =~= p.subrange(i + 1, p.len() - 1));
        assert(file_part(p) =~= p.subrange(i + 1, p.len() as int));
    }
}

/// A path without separators is all file part.
pub proof fn lemma_file_part_no_slash(p: Seq<char>)
    requires
        forall|j: int| 0 <= j < p.len() ==> p[j] != '/',
    ensures
        file_part(p) == p,
    decreases p.len(),
{
    if p.len() > 0 {
        lemma_file_part_no_slash(p.drop_last());
        assert(file_part(p) =~= p);
    }
}

/// The path with trailing separators and trailing `.` segments removed:
/// the prefix whose last component is the path's file name component, as the
/// standard library reads file names (`foo/` and `foo/.` both name `foo`).
pub open spec fn file_name_path(p: Seq<char>) -> Seq<char>
    decreases p.len(),
{
    if p.len() == 0 {
        p
    } else if p.last() == '/' {
        file_name_path(p.drop_last())
    } else if p.last() == '.' && (p.len() == 1 || p[p.len() - 2] == '/') {
        file_name_path(p.drop_last())
    } else {
        p
    }
}

/// Whether the path is empty or all separators: the root, which has no
/// parent and no file name.
pub open spec fn all_separators(p: Seq<char>) -> bool {
    forall|i: int| 0 <= i < p.len() ==> p[i] == '/'
}

/// The directory part of a trimmed path: what remains once the file part
/// goes, without its trailing separator unless that separator is the root.
pub open spec fn parent_dir_of(q: Seq<char>) -> Seq<char> {
    let d = q.take(q.len() - file_part(q).len());
    if d.len() > 1 {
        d.drop_last()
    } else {
        d
    }
}

/// The parent directory of a path: its trimmed form without the file name
/// component.
pub open spec fn parent_dir(p: Seq<char>) -> Seq<char> {
    parent_dir_of(file_name_path(p))
}

/// How many leading characters of the path remain once trailing separators
/// and trailing `.` segments go, as `file_name_path` describes.
fn trimmed_end(p: &str) -> (e: usize)
    ensures
        e <= p@.len(),
        p@.take(e as int) == file_name_path(p@),
{
    let n = p.unicode_len();
    let mut e: usize = n;
    proof {
        assert(p@.take(n as int) =~= p@);
    }
    while e > 0
        invariant
            e <= n,
            n == p@.len(),
            file_name_path(p@.take(e as int)) == file_name_path(p@),
        decreases e,
    {
        let c = p.get_char(e - 1);
        proof {
            assert(p@.take(e as int).len() == e);
            assert(p@.take(e as int).last() == p@[e - 1]);
            if e >= 2 {
                assert(p@.take(e as int)[e - 2] == p@[e - 2]);
            }
            assert(p@.take(e as int).drop_last() =~= p@.take(e - 1));
        }
        if c == '/' {
            e = e - 1;
        } else if c == '.' && (e == 1 || p.get_char(e - 2) == '/') {
            e = e - 1;
        } else {
            proof {
                assert(file_name_path(p@.take(e as int)) == p@.take(e as int));
            }
            return e;
        }
    }
    proof {
        assert(p@.take(0) =~= Seq::<char>::empty());
        assert(file_name_path(p@.take(0)) == p@.take(0));
    }
    0
}

/// Whether the path is empty or all separators, as `all_separators`
/// describes.
pub fn path_is_root_or_empty(p: &str) -> (r: bool)
    ensures
        r == all_separators(p@),
{
    let n = p.unicode_len();
    let mut i: usize = 0;
    while i < n
        invariant
            i <= n,
            n == p@.len(),
            forall|j: int| 0 <= j < i ==> p@[j] == '/',
        decreases n - i,
    {
        if p.get_char(i) != '/' {
            return false;
        }
        i = i + 1;
    }
    true
}

/// The trimmed form of the path, as `file_name_path` describes it.
pub fn path_trimmed<'a>(p: &'a str) -> (r: &'a str)
    ensures
        r@ == file_name_path(p@),
{
    let e = trimmed_end(p);
    let q = p.substring_char(0, e);
    proof {
        assert(p@.subrange(0, e as int) =~= p@.take(e as int));
    }
    q
}

/// The index of the last separator, if the path has one.
fn last_slash_index(p: &str) -> (r: Option<usize>)
    ensures
        match r {
            Some(i) => i < p@.len() && p@[i as int] == '/' && forall|j: int|
                i < j < p@.len() ==> p@[j] != '/',
            None => forall|j: int| 0 <= j < p@.len() ==> p@[j] != '/',
        },
{
    let n = p.unicode_len();
    let mut i: usize = n;
    while i > 0
        invariant
            i <= n,
            n == p@.len(),
            forall|j: int| i <= j < n ==> p@[j] != '/',
        decreases i,
    {
        if p.get_char(i - 1) == '/' {
            return Some(i - 1);
        }
        i = i - 1;
    }
    None
}

/// The file part of the path, as `file_part` describes it.
pub fn path_file_part(p: &str) -> (r: String)
    ensures
        r@ == file_part(p@),
{
    let n = p.unicode_len();
    match last_slash_index(p) {
        Some(i) => {
            proof {
                lemma_file_part_after_slash(p@, i as int);
            }
            let part = p.substring_char(i + 1, n);
            part.to_owned()
        },
        None => {
            proof {
                lemma_file_part_no_slash(p@);
            }
            p.to_owned()
        },
    }
}

/// The parent directory of the path, as `parent_dir` describes it.
pub fn path_parent_dir(p: &str) -> (r: String)
    ensures
        r@ == parent_dir(p@),
{
    let q = path_trimmed(p);
    parent_dir_exec(q)
}

/// The directory part of a trimmed path, as `parent_dir_of` describes it.
fn parent_dir_exec(p: &str) -> (r: String)
    ensures
        r@ == parent_dir_of(p@),
{
    let n = p.unicode_len();
    match last_slash_index(p) {
        Some(i) => {
            proof {
                lemma_file_part_after_slash(p@, i as int);
                lemma_file_part_len(p@);
            }
            if i == 0 {
                let d = p.substring_char(0, 1);
                proof {
                    assert(p@.take(1int) =~= p@.subrange(0, 1));
                }
                d.to_owned()
            } else {
                let d = p.substring_char(0, i);
                proof {
                    assert(p@.take(i + 1).drop_last() =~= p@.subrange(0, i as int));
                }
                d.to_owned()
            }
        },
        None => {
            proof {
                lemma_file_part_no_slash(p@);
                assert(p@.take(0) =~= Seq::<char>::empty());
            }
            String::new()
        },
    }
}

/// Relies on `std::path::Path::canonicalize`: on success the result is the
/// canonical, absolute form of the path, so it begins at the root
/// separator; what it resolves to depends on the filesystem, so nothing
/// more is stated. A path that does not exist is refused by the call.
#[verifier::external_body]
pub(crate) fn canonicalize_path(p: &str) -> (r: Option<String>)
    ensures
        r matches Some(s) ==> is_absolute_path(s@),
{
    match std::path::Path::new(p).canonicalize() {
        Ok(pb) => Some(pb.to_string_lossy().into_owned()),
        Err(_) => None,
    }
}

} // verus!
