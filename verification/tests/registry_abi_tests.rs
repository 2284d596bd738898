use cargo_near::abi::{ArgDecl, ArgKind, MethodDecl, MethodKind, SerializationFormat};
use cargo_near::errors::Error;
use cargo_near::registry::TypeRegistry;

fn arg(schema: &str, kind: ArgKind) -> ArgDecl {
    ArgDecl { schema: schema.to_string(), kind, serializer: SerializationFormat::Json }
}

fn method(name: &str, kind: MethodKind, args: Vec<ArgDecl>, result: Option<&str>) -> MethodDecl {
    MethodDecl {
        name: name.to_string(),
        kind,
        args,
        result_schema: result.map(|s| s.to_string()),
        result_serializer: SerializationFormat::Json,
    }
}

#[test]
fn registering_same_schema_twice_gives_same_id() {
    let mut reg = TypeRegistry::new();
    let a = reg.register_type("Pair(u32,u32)".to_string());
    let b = reg.register_type("Pair(u32,u32)".to_string());
    assert_eq!(a, b);
    assert_eq!(reg.len(), 1);
}

#[test]
fn registering_distinct_schemas_gives_distinct_ids() {
    let mut reg = TypeRegistry::new();
    let a = reg.register_type("Pair(u32,u32)".to_string());
    let b = reg.register_type("u32".to_string());
    assert_ne!(a, b);
    assert_eq!(a, 0);
    assert_eq!(b, 1);
    assert_eq!(reg.schema_at(0), "Pair(u32,u32)");
    assert_eq!(reg.schema_at(1), "u32");
}

#[test]
fn walk_assigns_ids_in_declaration_order() {
    let mut reg = TypeRegistry::new();
    let m = method(
        "f3",
        MethodKind::Regular,
        vec![arg("FancyStruct", ArgKind::Regular), arg("u64", ArgKind::Regular)],
        Some("IsOk"),
    );
    let f = m.metadata_struct(&mut reg).unwrap();
    assert_eq!(f.name, "f3");
    assert!(!f.is_view);
    assert!(!f.is_init);
    assert_eq!(f.params.len(), 2);
    assert_eq!(f.params[0].type_id, 0);
    assert_eq!(f.params[1].type_id, 1);
    assert!(f.callbacks.is_empty());
    assert!(f.callbacks_vec.is_none());
    assert_eq!(f.result.unwrap().type_id, 2);
    assert_eq!(reg.len(), 3);
}

#[test]
fn walk_dedups_types_across_functions() {
    let mut reg = TypeRegistry::new();
    let m1 = method("f1", MethodKind::Regular, vec![arg("Pair(u32,u32)", ArgKind::Regular)], None);
    let m2 = method("f2", MethodKind::Regular, vec![arg("Pair(u32,u32)", ArgKind::Regular)], None);
    let f1 = m1.metadata_struct(&mut reg).unwrap();
    let f2 = m2.metadata_struct(&mut reg).unwrap();
    assert_eq!(f1.params[0].type_id, f2.params[0].type_id);
    assert_eq!(reg.len(), 1);
}

#[test]
fn walk_rejects_two_callback_vec_parameters() {
    let mut reg = TypeRegistry::new();
    let m = method(
        "bad",
        MethodKind::Regular,
        vec![
            arg("Vec<u8>", ArgKind::CallbackVec),
            arg("Vec<u64>", ArgKind::CallbackVec),
        ],
        None,
    );
    match m.metadata_struct(&mut reg) {
        Err(Error::DuplicateCallbackVec(name)) => assert_eq!(name, "bad"),
        other => panic!("expected a duplicate callback-vector error, got {:?}", other),
    }
    // rejected before any output: nothing was registered
    assert_eq!(reg.len(), 0);
}

#[test]
fn walk_accepts_single_callback_vec() {
    let mut reg = TypeRegistry::new();
    let m = method(
        "ok",
        MethodKind::Regular,
        vec![arg("u8", ArgKind::Regular), arg("Vec<u8>", ArgKind::CallbackVec)],
        None,
    );
    let f = m.metadata_struct(&mut reg).unwrap();
    assert_eq!(f.params.len(), 1);
    let cbv = f.callbacks_vec.unwrap();
    assert_eq!(cbv.type_id, 1);
    assert!(f.result.is_none());
}

#[test]
fn walk_orders_callbacks_after_params() {
    let mut reg = TypeRegistry::new();
    let m = method(
        "g",
        MethodKind::Regular,
        vec![
            arg("CbTy", ArgKind::Callback),
            arg("ArgTy", ArgKind::Regular),
        ],
        None,
    );
    let f = m.metadata_struct(&mut reg).unwrap();
    // the regular argument is registered first, the callback after it
    assert_eq!(f.params[0].type_id, 0);
    assert_eq!(reg.schema_at(0), "ArgTy");
    assert_eq!(f.callbacks[0].type_id, 1);
    assert_eq!(reg.schema_at(1), "CbTy");
}

#[test]
fn walk_sets_view_and_init_flags() {
    let mut reg = TypeRegistry::new();
    let v = method("v", MethodKind::View, vec![], None).metadata_struct(&mut reg).unwrap();
    assert!(v.is_view && !v.is_init);
    let i = method("i", MethodKind::Init, vec![], None).metadata_struct(&mut reg).unwrap();
    assert!(!i.is_view && i.is_init);
    let ii = method("ii", MethodKind::InitIgnoreState, vec![], None)
        .metadata_struct(&mut reg)
        .unwrap();
    assert!(ii.is_init);
}

#[test]
fn walk_tags_serialization_formats() {
    let mut reg = TypeRegistry::new();
    let m = MethodDecl {
        name: "b".to_string(),
        kind: MethodKind::Regular,
        args: vec![ArgDecl {
            schema: "u8".to_string(),
            kind: ArgKind::Regular,
            serializer: SerializationFormat::Borsh,
        }],
        result_schema: None,
        result_serializer: SerializationFormat::Json,
    };
    let f = m.metadata_struct(&mut reg).unwrap();
    assert_eq!(f.params[0].serialization_type, SerializationFormat::Borsh);
}
