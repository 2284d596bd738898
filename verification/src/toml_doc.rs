//! An owned structural document: a nested mapping of string keys to typed
//! values (strings, booleans, integers, arrays, tables), as a build manifest
//! holds them.
//!
//! `TomlValue` is the executable document; `DocValue` is its mathematical
//! model. A table is a sequence of key/value entries read through the first
//! occurrence of a key, and every operation below is stated over that first
//! entry.

use crate::paths::str_eq;
use vstd::prelude::*;

verus! {

/// Mathematical model of a document value.
#[verifier::ext_equal]
pub enum DocValue {
    Str(Seq<char>),
    Bool(bool),
    Int(int),
    Arr(Seq<DocValue>),
    Tbl(Seq<(Seq<char>, DocValue)>),
}

/// An owned document value.
#[derive(Debug, PartialEq)]
pub enum TomlValue {
    Str(String),
    Bool(bool),
    Int(i64),
    Arr(Vec<TomlValue>),
    Tbl(Vec<(String, TomlValue)>),
}

/// The model of a sequence of executable table entries.
pub open spec fn tbl_view(es: Seq<(String, TomlValue)>) -> Seq<(Seq<char>, DocValue)>
    decreases es,
{
    Seq::new(
        es.len(),
        |i: int|
            if 0 <= i < es.len() {
                (es[i].0@, es[i].1@)
            } else {
                (Seq::empty(), DocValue::Bool(false))
            },
    )
}

/// The model of a sequence of executable array elements.
pub open spec fn arr_view(vs: Seq<TomlValue>) -> Seq<DocValue>
    decreases vs,
{
    Seq::new(
        vs.len(),
        |i: int|
            if 0 <= i < vs.len() {
                vs[i]@
            } else {
                DocValue::Bool(false)
            },
    )
}

impl View for TomlValue {
    type V = DocValue;

    open spec fn view(&self) -> DocValue
        decreases self,
    {
        match self {
            TomlValue::Str(s) => DocValue::Str(s@),
            TomlValue::Bool(b) => DocValue::Bool(*b),
            TomlValue::Int(i) => DocValue::Int(*i as int),
            TomlValue::Arr(vs) => DocValue::Arr(arr_view(vs@)),
            TomlValue::Tbl(es) => DocValue::Tbl(tbl_view(es@)),
        }
    }
}




/// Entry views commute with appending an entry.
pub proof fn lemma_tbl_view_push(es: Seq<(String, TomlValue)>, e: (String, TomlValue))
    ensures
        tbl_view(es.push(e)) == tbl_view(es).push((e.0@, e.1@)),
{
    assert(tbl_view(es.push(e)) =~= tbl_view(es).push((e.0@, e.1@)));
}

/// Element views commute with appending an element.
pub proof fn lemma_arr_view_push(vs: Seq<TomlValue>, v: TomlValue)
    ensures
        arr_view(vs.push(v)) == arr_view(vs).push(v@),
{
    assert(arr_view(vs.push(v)) =~= arr_view(vs).push(v@));
}


/// The value at the first entry carrying the key, if any.
pub open spec fn tbl_lookup(t: Seq<(Seq<char>, DocValue)>, k: Seq<char>) -> Option<DocValue>
    decreases t.len(),
{
    if t.len() == 0 {
        None
    } else if t[0].0 == k {
        Some(t[0].1)
    } else {
        tbl_lookup(t.drop_first(), k)
    }
}

/// Whether some entry carries the key.
pub open spec fn tbl_has_key(t: Seq<(Seq<char>, DocValue)>, k: Seq<char>) -> bool {
    tbl_lookup(t, k) is Some
}

/// Replace the value at the first entry carrying the key; a table without
/// the key is returned unchanged.
pub open spec fn tbl_update(
    t: Seq<(Seq<char>, DocValue)>,
    k: Seq<char>,
    v: DocValue,
) -> Seq<(Seq<char>, DocValue)>
    decreases t.len(),
{
    if t.len() == 0 {
        t
    } else if t[0].0 == k {
        seq![(k, v)] + t.drop_first()
    } else {
        seq![t[0]] + tbl_update(t.drop_first(), k, v)
    }
}

/// Replace the value at the key, or append a new entry when the key is
/// absent.
pub open spec fn tbl_insert(
    t: Seq<(Seq<char>, DocValue)>,
    k: Seq<char>,
    v: DocValue,
) -> Seq<(Seq<char>, DocValue)> {
    if tbl_has_key(t, k) {
        tbl_update(t, k, v)
    } else {
        t.push((k, v))
    }
}

/// Drop the first entry carrying the key; a table without the key is
/// returned unchanged.
pub open spec fn tbl_remove(t: Seq<(Seq<char>, DocValue)>, k: Seq<char>) -> Seq<
    (Seq<char>, DocValue),
>
    decreases t.len(),
{
    if t.len() == 0 {
        t
    } else if t[0].0 == k {
        t.drop_first()
    } else {
        seq![t[0]] + tbl_remove(t.drop_first(), k)
    }
}

/// After an update, the key reads back the new value exactly when the key
/// was present.
pub proof fn lemma_tbl_lookup_update_same(t: Seq<(Seq<char>, DocValue)>, k: Seq<char>, v: DocValue)
    ensures
        tbl_lookup(tbl_update(t, k, v), k) == if tbl_has_key(t, k) {
            Some(v)
        } else {
            None::<DocValue>
        },
    decreases t.len(),
{
    if t.len() == 0 {
    } else if t[0].0 == k {
        assert((seq![(k, v)] + t.drop_first())[0] == (k, v));
    } else {
        lemma_tbl_lookup_update_same(t.drop_first(), k, v);
        assert((seq![t[0]] + tbl_update(t.drop_first(), k, v)).drop_first() =~= tbl_update(
            t.drop_first(),
            k,
            v,
        ));
    }
}

/// An update leaves every other key unchanged.
pub proof fn lemma_tbl_lookup_update_other(
    t: Seq<(Seq<char>, DocValue)>,
    k: Seq<char>,
    v: DocValue,
    k2: Seq<char>,
)
    requires
        k2 != k,
    ensures
        tbl_lookup(tbl_update(t, k, v), k2) == tbl_lookup(t, k2),
    decreases t.len(),
{
    if t.len() == 0 {
    } else if t[0].0 == k {
        assert((seq![(k, v)] + t.drop_first()).drop_first() =~= t.drop_first());
    } else {
        lemma_tbl_lookup_update_other(t.drop_first(), k, v, k2);
        assert((seq![t[0]] + tbl_update(t.drop_first(), k, v)).drop_first() =~= tbl_update(
            t.drop_first(),
            k,
            v,
        ));
    }
}

/// Updating a key with the value it already carries changes nothing.
pub proof fn lemma_tbl_update_same_value(t: Seq<(Seq<char>, DocValue)>, k: Seq<char>, v: DocValue)
    requires
        tbl_lookup(t, k) == Some(v),
    ensures
        tbl_update(t, k, v) == t,
    decreases t.len(),
{
    if t.len() == 0 {
    } else if t[0].0 == k {
        assert(tbl_update(t, k, v) =~= t);
    } else {
        lemma_tbl_update_same_value(t.drop_first(), k, v);
        assert(tbl_update(t, k, v) =~= t);
    }
}


/// Appending an entry for an absent key makes it readable.
pub proof fn lemma_tbl_lookup_push_absent(t: Seq<(Seq<char>, DocValue)>, k: Seq<char>, v: DocValue)
    requires
        !tbl_has_key(t, k),
    ensures
        tbl_lookup(t.push((k, v)), k) == Some(v),
    decreases t.len(),
{
    if t.len() == 0 {
        assert(t.push((k, v))[0] == (k, v));
    } else {
        assert(t[0].0 != k);
        lemma_tbl_lookup_push_absent(t.drop_first(), k, v);
        assert(t.push((k, v)).drop_first() =~= t.drop_first().push((k, v)));
    }
}



/// A lookup finds the value of the first entry whose key matches.
pub proof fn lemma_tbl_lookup_at_first(t: Seq<(Seq<char>, DocValue)>, k: Seq<char>, i: int)
    requires
        0 <= i < t.len(),
        t[i].0 == k,
        forall|j: int| 0 <= j < i ==> t[j].0 != k,
    ensures
        tbl_lookup(t, k) == Some(t[i].1),
    decreases i,
{
    if i == 0 {
    } else {
        lemma_tbl_lookup_at_first(t.drop_first(), k, i - 1);
    }
}

/// A key carried by no entry reads back nothing.
pub proof fn lemma_tbl_lookup_absent(t: Seq<(Seq<char>, DocValue)>, k: Seq<char>)
    requires
        forall|j: int| 0 <= j < t.len() ==> t[j].0 != k,
    ensures
        tbl_lookup(t, k) == None::<DocValue>,
    decreases t.len(),
{
    if t.len() > 0 {
        lemma_tbl_lookup_absent(t.drop_first(), k);
    }
}

/// An update rewrites exactly the first entry whose key matches.
pub proof fn lemma_tbl_update_at_first(
    t: Seq<(Seq<char>, DocValue)>,
    k: Seq<char>,
    v: DocValue,
    i: int,
)
    requires
        0 <= i < t.len(),
        t[i].0 == k,
        forall|j: int| 0 <= j < i ==> t[j].0 != k,
    ensures
        tbl_update(t, k, v) == t.update(i, (k, v)),
    decreases i,
{
    if i == 0 {
        assert(tbl_update(t, k, v) =~= t.update(0, (k, v)));
    } else {
        lemma_tbl_update_at_first(t.drop_first(), k, v, i - 1);
        assert(tbl_update(t, k, v) =~= t.update(i, (k, v)));
    }
}

/// The index of the first entry carrying the key, if any entry does.
pub fn tbl_find(t: &Vec<(String, TomlValue)>, k: &str) -> (r: Option<usize>)
    ensures
        match r {
            Some(i) => i < t@.len() && t@[i as int].0@ == k@ && forall|j: int|
                0 <= j < i ==> t@[j].0@ != k@,
            None => forall|j: int| 0 <= j < t@.len() ==> t@[j].0@ != k@,
        },
{
    let n = t.len();
    let mut i: usize = 0;
    while i < n
        invariant
            n == t@.len(),
            i <= n,
            forall|j: int| 0 <= j < i ==> t@[j].0@ != k@,
        decreases n - i,
    {
        if str_eq(t[i].0.as_str(), k) {
            return Some(i);
        }
        i = i + 1;
    }
    None
}

/// A borrow of the value at the key, as `tbl_lookup` describes it.
pub fn tbl_get<'a>(t: &'a Vec<(String, TomlValue)>, k: &str) -> (r: Option<&'a TomlValue>)
    ensures
        match r {
            Some(v) => tbl_lookup(tbl_view(t@), k@) == Some(v@),
            None => tbl_lookup(tbl_view(t@), k@) == None::<DocValue>,
        },
{
    match tbl_find(t, k) {
        Some(i) => {
            proof {
                lemma_tbl_lookup_at_first(tbl_view(t@), k@, i as int);
            }
            Some(&t[i].1)
        },
        None => {
            proof {
                lemma_tbl_lookup_absent(tbl_view(t@), k@);
            }
            None
        },
    }
}

/// Replace the value at the key, or append the entry when absent, as
/// `tbl_insert` describes.
pub fn tbl_put(t: &mut Vec<(String, TomlValue)>, k: &str, v: TomlValue)
    ensures
        tbl_view(final(t)@) == tbl_insert(tbl_view(old(t)@), k@, v@),
{
    let ghost t0 = tbl_view(old(t)@);
    match tbl_find(t, k) {
        Some(i) => {
            proof {
                lemma_tbl_lookup_at_first(t0, k@, i as int);
                lemma_tbl_update_at_first(t0, k@, v@, i as int);
            }
            let entry = t.remove(i);
            let key = entry.0;
            t.insert(i, (key, v));
            proof {
                assert(tbl_view(t@) =~= t0.update(i as int, (k@, v@)));
            }
        },
        None => {
            proof {
                lemma_tbl_lookup_absent(t0, k@);
            }
            let key = k.to_owned();
            t.push((key, v));
            proof {
                assert(tbl_view(t@) =~= t0.push((k@, v@)));
            }
        },
    }
}

/// Drop the first entry carrying the key, as `tbl_remove` describes.
pub fn tbl_delete(t: &mut Vec<(String, TomlValue)>, k: &str)
    ensures
        tbl_view(final(t)@) == tbl_remove(tbl_view(old(t)@), k@),
{
    let ghost t0 = tbl_view(old(t)@);
    match tbl_find(t, k) {
        Some(i) => {
            proof {
                lemma_tbl_remove_at_first(t0, k@, i as int);
            }
            let _ = t.remove(i);
            proof {
                assert(tbl_view(t@) =~= t0.remove(i as int));
            }
        },
        None => {
            proof {
                lemma_tbl_remove_absent(t0, k@);
            }
        },
    }
}

/// A removal drops exactly the first entry whose key matches.
pub proof fn lemma_tbl_remove_at_first(t: Seq<(Seq<char>, DocValue)>, k: Seq<char>, i: int)
    requires
        0 <= i < t.len(),
        t[i].0 == k,
        forall|j: int| 0 <= j < i ==> t[j].0 != k,
    ensures
        tbl_remove(t, k) == t.remove(i),
    decreases i,
{
    if i == 0 {
        assert(tbl_remove(t, k) =~= t.remove(0));
    } else {
        lemma_tbl_remove_at_first(t.drop_first(), k, i - 1);
        assert(tbl_remove(t, k) =~= t.remove(i));
    }
}

/// Removing an absent key changes nothing.
pub proof fn lemma_tbl_remove_absent(t: Seq<(Seq<char>, DocValue)>, k: Seq<char>)
    requires
        forall|j: int| 0 <= j < t.len() ==> t[j].0 != k,
    ensures
        tbl_remove(t, k) == t,
    decreases t.len(),
{
    if t.len() > 0 {
        lemma_tbl_remove_absent(t.drop_first(), k);
        assert(tbl_remove(t, k) =~= t);
    }
}


impl TomlValue {
    /// An owned copy of the value, equal to it in the model.
    pub fn duplicate(&self) -> (r: TomlValue)
        ensures
            r@ == self@,
        decreases self,
    {
        match self {
            TomlValue::Str(s) => TomlValue::Str(s.clone()),
            TomlValue::Bool(b) => TomlValue::Bool(*b),
            TomlValue::Int(i) => TomlValue::Int(*i),
            TomlValue::Arr(vs) => {
                let n = vs.len();
                let mut out: Vec<TomlValue> = Vec::new();
                let mut i: usize = 0;
                while i < n
                    invariant
                        *self == TomlValue::Arr(*vs),
                        i <= n,
                        n == vs@.len(),
                        out@.len() == i,
                        forall|j: int| 0 <= j < i ==> (#[trigger] out@[j])@ == vs@[j]@,
                    decreases n - i,
                {
                    proof {
                        assert(decreases_to!(*self => (*self)->Arr_0));
                        assert((*self)->Arr_0 == *vs);
                        assert(decreases_to!(*vs => vs@));
                        assert(decreases_to!(vs@ => vs@[i as int]));
                    }
                    out.push(vs[i].duplicate());
                    i = i + 1;
                }
                proof {
                    assert(arr_view(out@) =~= arr_view(vs@));
                }
                TomlValue::Arr(out)
            },
            TomlValue::Tbl(es) => {
                let n = es.len();
                let mut out: Vec<(String, TomlValue)> = Vec::new();
                let mut i: usize = 0;
                while i < n
                    invariant
                        *self == TomlValue::Tbl(*es),
                        i <= n,
                        n == es@.len(),
                        out@.len() == i,
                        forall|j: int|
                            0 <= j < i ==> (#[trigger] out@[j]).0@ == es@[j].0@ && out@[j].1@
                                == es@[j].1@,
                    decreases n - i,
                {
                    proof {
                        assert(decreases_to!(*self => (*self)->Tbl_0));
                        assert((*self)->Tbl_0 == *es);
                        assert(decreases_to!(*es => es@));
                        assert(decreases_to!(es@ => es@[i as int]));
                        assert(decreases_to!(es@[i as int] => es@[i as int].1));
                    }
                    out.push((es[i].0.clone(), es[i].1.duplicate()));
                    i = i + 1;
                }
                proof {
                    assert(tbl_view(out@) =~= tbl_view(es@));
                }
                TomlValue::Tbl(out)
            },
        }
    }
}

/// An owned copy of a table's entries, equal to them in the model.
pub fn duplicate_table(es: &Vec<(String, TomlValue)>) -> (r: Vec<(String, TomlValue)>)
    ensures
        tbl_view(r@) == tbl_view(es@),
{
    let n = es.len();
    let mut out: Vec<(String, TomlValue)> = Vec::new();
    let mut i: usize = 0;
    while i < n
        invariant
            i <= n,
            n == es@.len(),
            out@.len() == i,
            forall|j: int|
                0 <= j < i ==> (#[trigger] out@[j]).0@ == es@[j].0@ && out@[j].1@ == es@[j].1@,
        decreases n - i,
    {
        out.push((es[i].0.clone(), es[i].1.duplicate()));
        i = i + 1;
    }
    proof {
        assert(tbl_view(out@) =~= tbl_view(es@));
    }
    out
}

} // verus!
