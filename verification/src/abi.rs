//! The interface-description model: function records, parameter records,
//! the type table, and the walk of one declared method that registers its
//! types and produces its record.

use crate::errors::Error;
use crate::registry::{reg_id, reg_insert, TypeRegistry};
use vstd::prelude::*;
use vstd::string::*;

verus! {

/// How a parameter or result crosses the call boundary.
#[derive(Clone, Copy, Debug, PartialEq, Eq, Structural)]
pub enum SerializationFormat {
    Json,
    Borsh,
}

/// What a declared argument is to the calling convention.
#[derive(Clone, Copy, Debug, PartialEq, Eq, Structural)]
pub enum ArgKind {
    Regular,
    Callback,
    CallbackVec,
}

/// What a declared method is to the contract's state.
#[derive(Clone, Copy, Debug, PartialEq, Eq, Structural)]
pub enum MethodKind {
    Regular,
    View,
    Init,
    InitIgnoreState,
}

/// One declared argument: its structural schema text, its place in the
/// calling convention, and its serialization format.
pub struct ArgDecl {
    pub schema: String,
    pub kind: ArgKind,
    pub serializer: SerializationFormat,
}

/// One declared method of the walked interface, in declaration order:
/// name, kind, arguments, and the optional result schema.
pub struct MethodDecl {
    pub name: String,
    pub kind: MethodKind,
    pub args: Vec<ArgDecl>,
    pub result_schema: Option<String>,
    pub result_serializer: SerializationFormat,
}

/// One parameter record: a registry identifier and a serialization tag.
#[derive(Clone, Copy, Debug, PartialEq, Eq, Structural)]
pub struct AbiParameter {
    pub type_id: u32,
    pub serialization_type: SerializationFormat,
}

/// One function record of the interface description.
#[derive(Clone, Debug, PartialEq)]
pub struct AbiFunction {
    pub name: String,
    pub is_view: bool,
    pub is_init: bool,
    pub params: Vec<AbiParameter>,
    pub callbacks: Vec<AbiParameter>,
    pub callbacks_vec: Option<AbiParameter>,
    pub result: Option<AbiParameter>,
}

/// One entry of the emitted type table.
#[derive(Clone, Debug, PartialEq)]
pub struct TypeDef {
    pub id: u32,
    pub schema: String,
}

/// The structural interface description: functions in declaration order and
/// the type table in identifier order.
#[derive(Clone, Debug, PartialEq)]
pub struct Abi {
    pub functions: Vec<AbiFunction>,
    pub types: Vec<TypeDef>,
}

/// The description as the driver emits it: a schema format version and the
/// structural description.
#[derive(Clone, Debug, PartialEq)]
pub struct AbiRoot {
    pub abi_schema_version: String,
    pub abi: Abi,
}

/// The arguments of one kind, in declaration order.
pub open spec fn args_of_kind(args: Seq<ArgDecl>, k: ArgKind) -> Seq<ArgDecl>
    decreases args.len(),
{
    if args.len() == 0 {
        Seq::empty()
    } else {
        let pre = args_of_kind(args.drop_last(), k);
        if args.last().kind == k {
            pre.push(args.last())
        } else {
            pre
        }
    }
}

/// Every argument has exactly one kind, so the three runs partition the
/// argument list.
pub proof fn lemma_kind_partition(args: Seq<ArgDecl>)
    ensures
        args_of_kind(args, ArgKind::Regular).len() + args_of_kind(args, ArgKind::Callback).len()
            + args_of_kind(args, ArgKind::CallbackVec).len() == args.len(),
    decreases args.len(),
{
    if args.len() > 0 {
        lemma_kind_partition(args.drop_last());
    }
}

/// The schema texts of a run of arguments, in order.
pub open spec fn schemas_of(args: Seq<ArgDecl>) -> Seq<Seq<char>> {
    Seq::new(args.len(), |i: int| args[i].schema@)
}

/// The schema text of the result, as a run of zero or one schemas.
pub open spec fn result_schemas(decl: &MethodDecl) -> Seq<Seq<char>> {
    match decl.result_schema {
        Some(s) => seq![s@],
        None => Seq::empty(),
    }
}

/// The registry's content after registering a run of schemas in order.
pub open spec fn reg_insert_all(s: Seq<Seq<char>>, ts: Seq<Seq<char>>) -> Seq<Seq<char>>
    decreases ts.len(),
{
    if ts.len() == 0 {
        s
    } else {
        reg_insert_all(reg_insert(s, ts[0]), ts.drop_first())
    }
}

/// The identifiers a run of registrations yields, in order.
pub open spec fn ids_of(s: Seq<Seq<char>>, ts: Seq<Seq<char>>) -> Seq<int>
    decreases ts.len(),
{
    if ts.len() == 0 {
        Seq::empty()
    } else {
        seq![reg_id(s, ts[0])] + ids_of(reg_insert(s, ts[0]), ts.drop_first())
    }
}

/// A run of registrations yields one identifier per schema.
pub proof fn lemma_ids_of_len(s: Seq<Seq<char>>, ts: Seq<Seq<char>>)
    ensures
        ids_of(s, ts).len() == ts.len(),
    decreases ts.len(),
{
    if ts.len() > 0 {
        lemma_ids_of_len(reg_insert(s, ts[0]), ts.drop_first());
    }
}

/// Registering one more schema extends the fold by one step.
pub proof fn lemma_reg_insert_all_snoc(s: Seq<Seq<char>>, ts: Seq<Seq<char>>, m: int)
    requires
        0 <= m < ts.len(),
    ensures
        reg_insert_all(s, ts.take(m + 1)) == reg_insert(reg_insert_all(s, ts.take(m)), ts[m]),
        ids_of(s, ts.take(m + 1)) == ids_of(s, ts.take(m)).push(
            reg_id(reg_insert_all(s, ts.take(m)), ts[m]),
        ),
    decreases m,
{
    if m == 0 {
        assert(ts.take(0) =~= Seq::<Seq<char>>::empty());
        assert(ts.take(1) =~= seq![ts[0]]);
        assert(ts.take(1)[0] == ts[0]);
        assert(ts.take(1).drop_first() =~= Seq::<Seq<char>>::empty());
        assert(reg_insert_all(s, Seq::<Seq<char>>::empty()) == s);
        assert(reg_insert_all(reg_insert(s, ts[0]), Seq::<Seq<char>>::empty()) == reg_insert(
            s,
            ts[0],
        ));
        assert(ids_of(reg_insert(s, ts[0]), Seq::<Seq<char>>::empty()) == Seq::<int>::empty());
        assert(ids_of(s, ts.take(1)) =~= Seq::<int>::empty().push(reg_id(s, ts[0])));
        assert(ids_of(s, ts.take(0)) == Seq::<int>::empty());
    } else {
        lemma_reg_insert_all_snoc(reg_insert(s, ts[0]), ts.drop_first(), m - 1);
        assert(ts.take(m + 1).drop_first() =~= ts.drop_first().take(m));
        assert(ts.take(m).drop_first() =~= ts.drop_first().take(m - 1));
        assert(ts.drop_first()[m - 1] == ts[m]);
        assert(ts.take(m)[0] == ts[0]);
        assert(ts.take(m + 1)[0] == ts[0]);
        assert(ids_of(s, ts.take(m + 1)) =~= ids_of(s, ts.take(m)).push(
            reg_id(reg_insert_all(s, ts.take(m)), ts[m]),
        ));
    }
}

/// The fold grows the registry by at most one entry per schema.
pub proof fn lemma_reg_insert_all_len(s: Seq<Seq<char>>, ts: Seq<Seq<char>>)
    ensures
        s.len() <= reg_insert_all(s, ts).len() <= s.len() + ts.len(),
    decreases ts.len(),
{
    if ts.len() > 0 {
        lemma_reg_insert_all_len(reg_insert(s, ts[0]), ts.drop_first());
    }
}

/// Register a run of schemas in order, collecting one parameter record per
/// schema with the given serialization tags.
fn register_run(
    registry: &mut TypeRegistry,
    schemas: &Vec<String>,
    tags: &Vec<SerializationFormat>,
) -> (out: Vec<AbiParameter>)
    requires
        old(registry)@.len() + schemas@.len() < u32::MAX as int,
        schemas@.len() == tags@.len(),
    ensures
        final(registry)@ == reg_insert_all(
            old(registry)@,
            Seq::new(schemas@.len(), |i: int| schemas@[i]@),
        ),
        out@.len() == schemas@.len(),
        forall|i: int|
            0 <= i < out@.len() ==> (#[trigger] out@[i]).type_id as int == ids_of(
                old(registry)@,
                Seq::new(schemas@.len(), |j: int| schemas@[j]@),
            )[i] && out@[i].serialization_type == tags@[i],
{
    let ghost s0 = registry@;
    let ghost ts = Seq::new(schemas@.len(), |i: int| schemas@[i]@);
    let n = schemas.len();
    let mut out: Vec<AbiParameter> = Vec::new();
    let mut i: usize = 0;
    proof {
        assert(ts.take(0) =~= Seq::<Seq<char>>::empty());
        lemma_ids_of_len(s0, ts);
    }
    while i < n
        invariant
            i <= n,
            n == schemas@.len(),
            n == tags@.len(),
            ts == Seq::new(schemas@.len(), |j: int| schemas@[j]@),
            s0.len() + n < u32::MAX as int,
            ids_of(s0, ts).len() == n,
            registry@ == reg_insert_all(s0, ts.take(i as int)),
            out@.len() == i,
            forall|j: int|
                0 <= j < i ==> (#[trigger] out@[j]).type_id as int == ids_of(s0, ts)[j]
                    && out@[j].serialization_type == tags@[j],
        decreases n - i,
    {
        proof {
            lemma_reg_insert_all_len(s0, ts.take(i as int));
            assert(ts.take(i as int).len() == i);
        }
        let id = registry.register_type(schemas[i].clone());
        let ghost out_pre = out@;
        out.push(AbiParameter { type_id: id, serialization_type: tags[i] });
        proof {
            lemma_reg_insert_all_snoc(s0, ts, i as int);
            assert(ts[i as int] == schemas@[i as int]@);
            assert(ids_of(s0, ts.take(i as int + 1)) == ids_of(s0, ts.take(i as int)).push(
                id as int,
            ));
            lemma_ids_of_prefix(s0, ts, i as int);
            lemma_ids_of_prefix(s0, ts, i as int + 1);
            assert(ids_of(s0, ts)[i as int] == id as int) by {
                assert(ids_of(s0, ts).take(i as int + 1)[i as int] == ids_of(s0, ts)[i as int]);
            }
            assert forall|j: int|
                0 <= j < i + 1 implies (#[trigger] out@[j]).type_id as int == ids_of(s0, ts)[j]
                    && out@[j].serialization_type == tags@[j] by {
                if j < i {
                    assert(out@[j] == out_pre[j]);
                }
            }
        }
        i = i + 1;
    }
    proof {
        assert(ts.take(n as int) =~= ts);
    }
    out
}

/// The identifiers of a prefix of a run are a prefix of its identifiers.
pub proof fn lemma_ids_of_prefix(s: Seq<Seq<char>>, ts: Seq<Seq<char>>, m: int)
    requires
        0 <= m <= ts.len(),
    ensures
        ids_of(s, ts.take(m)) == ids_of(s, ts).take(m),
    decreases m,
{
    lemma_ids_of_len(s, ts);
    if m == 0 {
        assert(ts.take(0) =~= Seq::<Seq<char>>::empty());
        assert(ids_of(s, ts).take(0) =~= Seq::<int>::empty());
    } else {
        lemma_reg_insert_all_snoc(s, ts, m - 1);
        lemma_ids_of_prefix(s, ts, m - 1);
        lemma_ids_of_at(s, ts, m - 1);
        assert(ids_of(s, ts).take(m) =~= ids_of(s, ts).take(m - 1).push(ids_of(s, ts)[m - 1]));
    }
}

/// Each identifier of a run is the one its registration step yields.
pub proof fn lemma_ids_of_at(s: Seq<Seq<char>>, ts: Seq<Seq<char>>, m: int)
    requires
        0 <= m < ts.len(),
    ensures
        ids_of(s, ts)[m] == reg_id(reg_insert_all(s, ts.take(m)), ts[m]),
    decreases m,
{
    if m == 0 {
        assert(ts.take(0) =~= Seq::<Seq<char>>::empty());
    } else {
        lemma_ids_of_at(reg_insert(s, ts[0]), ts.drop_first(), m - 1);
        assert(ts.drop_first()[m - 1] == ts[m]);
        assert(ts.take(m).drop_first() =~= ts.drop_first().take(m - 1));
        assert(ts.take(m)[0] == ts[0]);
        lemma_ids_of_len(reg_insert(s, ts[0]), ts.drop_first());
    }
}


/// Whether a run of parameter records carries the identifiers and tags that
/// registering the run of arguments from the given registry state yields.
pub open spec fn params_match(
    out: Seq<AbiParameter>,
    s: Seq<Seq<char>>,
    group: Seq<ArgDecl>,
) -> bool {
    &&& out.len() == group.len()
    &&& forall|i: int|
        0 <= i < group.len() ==> (#[trigger] out[i]).type_id as int == ids_of(
            s,
            schemas_of(group),
        )[i] && out[i].serialization_type == group[i].serializer
}

/// The schema texts and serialization tags of the arguments of one kind, in
/// declaration order.
fn collect_kind(args: &Vec<ArgDecl>, k: ArgKind) -> (r: (Vec<String>, Vec<SerializationFormat>))
    ensures
        Seq::new(r.0@.len(), |i: int| r.0@[i]@) == schemas_of(args_of_kind(args@, k)),
        r.0@.len() == args_of_kind(args@, k).len(),
        r.1@.len() == args_of_kind(args@, k).len(),
        forall|i: int|
            0 <= i < r.1@.len() ==> r.1@[i] == args_of_kind(args@, k)[i].serializer,
{
    let n = args.len();
    let mut schemas: Vec<String> = Vec::new();
    let mut tags: Vec<SerializationFormat> = Vec::new();
    let mut i: usize = 0;
    proof {
        assert(args@.take(0) =~= Seq::<ArgDecl>::empty());
    }
    while i < n
        invariant
            i <= n,
            n == args@.len(),
            schemas@.len() == args_of_kind(args@.take(i as int), k).len(),
            tags@.len() == schemas@.len(),
            forall|j: int|
                0 <= j < schemas@.len() ==> (#[trigger] schemas@[j])@ == args_of_kind(
                    args@.take(i as int),
                    k,
                )[j].schema@,
            forall|j: int|
                0 <= j < tags@.len() ==> #[trigger] tags@[j] == args_of_kind(
                    args@.take(i as int),
                    k,
                )[j].serializer,
        decreases n - i,
    {
        proof {
            assert(args@.take(i as int + 1).drop_last() =~= args@.take(i as int));
            assert(args@.take(i as int + 1).last() == args@[i as int]);
        }
        if args[i].kind == k {
            schemas.push(args[i].schema.clone());
            tags.push(args[i].serializer);
        }
        i = i + 1;
    }
    proof {
        assert(args@.take(n as int) =~= args@);
        assert(Seq::new(schemas@.len(), |j: int| schemas@[j]@) =~= schemas_of(
            args_of_kind(args@, k),
        ));
    }
    (schemas, tags)
}

impl MethodDecl {
    /// Walk one declared method: register the types of its regular
    /// arguments, callback arguments, callback-vector argument and result,
    /// in that order, and produce its function record. A method declaring
    /// more than one callback-vector argument is rejected, naming the
    /// method, before anything is registered.
    pub fn metadata_struct(&self, registry: &mut TypeRegistry) -> (r: Result<AbiFunction, Error>)
        requires
            old(registry)@.len() + self.args@.len() + 1 < u32::MAX as int,
        ensures
            r is Ok <==> args_of_kind(self.args@, ArgKind::CallbackVec).len() <= 1,
            r matches Err(e) ==> final(registry)@ == old(registry)@ && (e
                matches Error::DuplicateCallbackVec(n) && n@ == self.name@),
            r matches Ok(f) ==> ({
                let regular = args_of_kind(self.args@, ArgKind::Regular);
                let cbs = args_of_kind(self.args@, ArgKind::Callback);
                let cbv = args_of_kind(self.args@, ArgKind::CallbackVec);
                let s1 = reg_insert_all(old(registry)@, schemas_of(regular));
                let s2 = reg_insert_all(s1, schemas_of(cbs));
                let s3 = reg_insert_all(s2, schemas_of(cbv));
                &&& f.name@ == self.name@
                &&& f.is_view == (self.kind is View)
                &&& f.is_init == (self.kind is Init || self.kind is InitIgnoreState)
                &&& params_match(f.params@, old(registry)@, regular)
                &&& params_match(f.callbacks@, s1, cbs)
                &&& (cbv.len() == 1 ==> (f.callbacks_vec matches Some(p) && p.type_id as int
                    == ids_of(s2, schemas_of(cbv))[0] && p.serialization_type
                    == cbv[0].serializer))
                &&& (cbv.len() == 0 ==> f.callbacks_vec is None)
                &&& match self.result_schema {
                    Some(s) => f.result matches Some(p) && p.type_id as int == reg_id(s3, s@)
                        && p.serialization_type == self.result_serializer,
                    None => f.result is None,
                }
                &&& final(registry)@ == reg_insert_all(s3, result_schemas(self))
            }),
    {
        let ghost s0 = registry@;
        let ghost regular = args_of_kind(self.args@, ArgKind::Regular);
        let ghost cbs = args_of_kind(self.args@, ArgKind::Callback);
        let ghost cbv = args_of_kind(self.args@, ArgKind::CallbackVec);
        let (cbv_schemas, cbv_tags) = collect_kind(&self.args, ArgKind::CallbackVec);
        if cbv_schemas.len() > 1 {
            return Err(Error::DuplicateCallbackVec(self.name.clone()));
        }
        let (reg_schemas, reg_tags) = collect_kind(&self.args, ArgKind::Regular);
        let (cb_schemas, cb_tags) = collect_kind(&self.args, ArgKind::Callback);
        proof {
            lemma_kind_partition(self.args@);
            lemma_reg_insert_all_len(s0, schemas_of(regular));
        }
        let params = register_run(registry, &reg_schemas, &reg_tags);
        let ghost s1g = registry@;
        proof {
            assert(s1g == reg_insert_all(s0, schemas_of(regular)));
            lemma_reg_insert_all_len(s1g, schemas_of(cbs));
        }
        let callbacks = register_run(registry, &cb_schemas, &cb_tags);
        let ghost s2g = registry@;
        proof {
            assert(s2g == reg_insert_all(s1g, schemas_of(cbs)));
            lemma_reg_insert_all_len(s2g, schemas_of(cbv));
        }
        let mut cbv_params = register_run(registry, &cbv_schemas, &cbv_tags);
        let ghost s3g = registry@;
        let ghost cbv_out = cbv_params@;
        let callbacks_vec = cbv_params.pop();
        proof {
            assert(s3g == reg_insert_all(s2g, schemas_of(cbv)));
            if cbv.len() == 1 {
                assert(callbacks_vec == Some(cbv_out[0]));
            }
            if cbv.len() == 0 {
                assert(callbacks_vec is None);
            }
        }
        let result = match &self.result_schema {
            Some(s) => {
                let id = registry.register_type(s.clone());
                proof {
                    assert(registry@ == reg_insert(s3g, s@));
                    assert(result_schemas(self) =~= seq![s@]);
                    assert(result_schemas(self)[0] == s@);
                    assert(result_schemas(self).drop_first() =~= Seq::<Seq<char>>::empty());
                    assert(reg_insert_all(reg_insert(s3g, s@), Seq::<Seq<char>>::empty())
                        == reg_insert(s3g, s@));
                    assert(reg_insert_all(s3g, result_schemas(self)) == reg_insert(s3g, s@));
                }
                Some(AbiParameter { type_id: id, serialization_type: self.result_serializer })
            },
            None => {
                proof {
                    assert(result_schemas(self) =~= Seq::<Seq<char>>::empty());
                    assert(reg_insert_all(s3g, result_schemas(self)) == s3g);
                }
                None
            },
        };
        Ok(
            AbiFunction {
                name: self.name.clone(),
                is_view: matches!(self.kind, MethodKind::View),
                is_init: matches!(self.kind, MethodKind::Init | MethodKind::InitIgnoreState),
                params,
                callbacks,
                callbacks_vec,
                result,
            },
        )
    }
}

} // verus!
