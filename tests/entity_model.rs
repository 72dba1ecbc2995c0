use auburn::ast::{Expr, ExprKind, FunctionDecl, Item, ItemKind, Position, Visibility};
use auburn::entity::{
    Entity, EntityArena, EntityId, EntityInfo, IdAllocator, LocalInfo, Path, StructureInfo, Type,
    VariableInfo,
};

fn pos() -> Position {
    Position { line: 1, column: 1 }
}

fn raw_item(name: &str) -> Box<Item> {
    Box::new(Item {
        visibility: Visibility::Public,
        kind: ItemKind::Function(FunctionDecl {
            name: name.to_string(),
            params: vec![],
            ret: None,
            body: Expr { kind: ExprKind::Int(0), position: pos() },
        }),
        position: pos(),
    })
}

fn local(index: usize) -> LocalInfo {
    LocalInfo { index, spec: Some(Type::Int), default: None }
}

#[test]
fn ids_start_at_one_and_increase() {
    let mut ids = IdAllocator::new();
    let a = EntityId::next(&mut ids);
    let b = EntityId::next(&mut ids);
    let c = EntityId::next(&mut ids);
    assert_eq!(a, EntityId(1));
    assert_eq!(b, EntityId(2));
    assert_eq!(c, EntityId(3));
    assert!(a.0 < b.0 && b.0 < c.0);
}

#[test]
fn entities_created_in_turn_have_distinct_ids() {
    let mut ids = IdAllocator::new();
    let e1 = Entity::resolving(&mut ids, Visibility::Public, "a".to_string(), Type::Invalid);
    let e2 = Entity::unresolved(&mut ids, Visibility::Private, "b".to_string(), raw_item("b"), Type::Invalid);
    let e3 = Entity::new(&mut ids, Visibility::Public, "c".to_string(), Type::Int, EntityInfo::Primitive, Path::empty());
    assert_ne!(e1.id(), e2.id());
    assert_ne!(e2.id(), e3.id());
    assert!(e1.id().0 < e2.id().0 && e2.id().0 < e3.id().0);
}

#[test]
fn unresolved_entity_state() {
    let mut ids = IdAllocator::new();
    let e = Entity::unresolved(&mut ids, Visibility::Private, "f".to_string(), raw_item("f"), Type::Invalid);
    assert!(e.is_unresolved());
    assert!(!e.is_resolving());
    assert!(!e.is_resolved());
    assert_eq!(e.kind_name(), "unresolved");
    assert_eq!(e.ty(), Type::Invalid);
    assert_eq!(e.name(), "f");
    assert_eq!(e.visibility(), Visibility::Private);
    assert!(e.path().segments.is_empty());
}

#[test]
fn resolving_then_resolve() {
    let mut ids = IdAllocator::new();
    let mut e = Entity::resolving(&mut ids, Visibility::Public, "x".to_string(), Type::Invalid);
    assert!(e.is_resolving());
    assert_eq!(e.kind_name(), "resolving");
    let mut path = Path::empty();
    path.push_path("main");
    let info = VariableInfo { spec: None, mutable: true, global: true, default: None };
    e.resolve(Type::Int, EntityInfo::Variable(info), path);
    assert!(e.is_resolved());
    assert!(e.is_instance());
    assert_eq!(e.ty(), Type::Int);
    assert_eq!(e.kind_name(), "variable");
    assert_eq!(e.path().render(), "main");
    e.to_resolving();
    assert!(e.is_resolving());
    assert_eq!(e.ty(), Type::Int);
}

#[test]
fn set_visibility_changes_only_visibility() {
    let mut ids = IdAllocator::new();
    let mut e = Entity::new(&mut ids, Visibility::Public, "p".to_string(), Type::Int, EntityInfo::Primitive, Path::empty());
    e.set_visibility(Visibility::Private);
    assert_eq!(e.visibility(), Visibility::Private);
    assert_eq!(e.name(), "p");
    assert!(e.is_type());
}

#[test]
fn predicates_by_kind() {
    let mut ids = IdAllocator::new();
    let field = Entity::new(&mut ids, Visibility::Public, "f".to_string(), Type::Int, EntityInfo::Field(local(0)), Path::empty());
    assert!(field.is_field() && field.is_instance() && !field.is_type() && !field.is_function());
    assert_eq!(field.kind_name(), "field");
    let param = Entity::new(&mut ids, Visibility::Public, "a".to_string(), Type::Int, EntityInfo::Param(local(1)), Path::empty());
    assert!(!param.is_instance() && !param.is_field());
    assert_eq!(param.kind_name(), "param");
    let me = Entity::new(&mut ids, Visibility::Public, "self".to_string(), Type::Int, EntityInfo::SelfParam { mutable: false }, Path::empty());
    assert!(me.is_self() && me.is_instance());
    assert_eq!(me.kind_name(), "self");
    let st = Entity::new(
        &mut ids,
        Visibility::Public,
        "S".to_string(),
        Type::Invalid,
        EntityInfo::Structure(StructureInfo { fields: 1, methods: 2 }),
        Path::empty(),
    );
    assert!(st.is_struct() && st.is_type() && st.is_resolved() && !st.is_instance());
    assert_eq!(st.kind_name(), "structure");
    let prim = Entity::new(&mut ids, Visibility::Public, "int".to_string(), Type::Int, EntityInfo::Primitive, Path::empty());
    assert!(prim.is_type() && !prim.is_struct());
    assert_eq!(prim.kind_name(), "primitive");
}

#[test]
fn narrowing_accessors() {
    let mut ids = IdAllocator::new();
    let param = Entity::new(&mut ids, Visibility::Public, "a".to_string(), Type::Int, EntityInfo::Param(local(3)), Path::empty());
    assert_eq!(param.as_local().index, 3);
    let mut st = Entity::new(
        &mut ids,
        Visibility::Public,
        "S".to_string(),
        Type::Invalid,
        EntityInfo::Structure(StructureInfo { fields: 1, methods: 2 }),
        Path::empty(),
    );
    assert_eq!(st.as_struct().fields, 1);
    st.as_struct_mut().methods = 7;
    assert_eq!(st.as_struct().methods, 7);
    match st.kind_mut() {
        EntityInfo::Structure(info) => info.fields = 9,
        _ => panic!("not a structure"),
    }
    assert_eq!(st.as_struct().fields, 9);
    assert!(matches!(st.kind(), EntityInfo::Structure(_)));
}

#[test]
fn full_name_appends_object_segment() {
    let mut ids = IdAllocator::new();
    let mut path = Path::empty();
    path.push_path("main");
    path.push_path("geometry");
    let e = Entity::new(&mut ids, Visibility::Public, "Point".to_string(), Type::Invalid, EntityInfo::Primitive, path);
    let full = e.full_name();
    assert_eq!(full.segments.len(), 3);
    assert_eq!(full.render(), "main.geometry.Point");
    assert_eq!(e.path().render(), "main.geometry");
}

#[test]
fn empty_path_renders_empty() {
    assert_eq!(Path::empty().render(), "");
    let mut p = Path::empty();
    p.push_object("x");
    assert_eq!(p.render(), "x");
}

#[test]
fn arena_new_ref_keys_by_identity() {
    let mut arena = EntityArena::new();
    let a = Entity::new_ref(&mut arena, Visibility::Public, "a".to_string(), Type::Int, EntityInfo::Primitive, Path::empty());
    let b = Entity::new_ref(&mut arena, Visibility::Public, "b".to_string(), Type::Bool, EntityInfo::Primitive, Path::empty());
    assert_eq!(a, EntityId(1));
    assert_eq!(b, EntityId(2));
    assert_eq!(arena.len(), 2);
    assert_eq!(arena.get(b).name(), "b");
    assert_eq!(arena.get(a).ty(), Type::Int);
}
