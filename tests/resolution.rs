use auburn::ast::{
    AssignmentOp, Expr, ExprKind, FieldDecl, FunctionDecl, Item, ItemKind, MethodDecl, ParamDecl,
    Position, Stmt, StmtKind, TypeSpec, Visibility,
};
use auburn::entity::{EntityId, EntityInfo, Type};
use auburn::error::ErrorKind;
use auburn::mir::{MirStmtKind, TypedExprKind};
use auburn::typer::{Typer, ROOT_SCOPE};

fn pos() -> Position {
    Position { line: 1, column: 1 }
}

fn at(line: u32) -> Position {
    Position { line, column: 5 }
}

fn ts(name: &str) -> TypeSpec {
    TypeSpec { name: name.to_string(), position: pos() }
}

fn num(n: u64) -> Expr {
    Expr { kind: ExprKind::Int(n), position: pos() }
}

fn boolean(b: bool) -> Expr {
    Expr { kind: ExprKind::Bool(b), position: pos() }
}

fn name(n: &str) -> Expr {
    Expr { kind: ExprKind::Name(n.to_string()), position: pos() }
}

fn field(base: Expr, f: &str) -> Expr {
    Expr { kind: ExprKind::Field(Box::new(base), f.to_string()), position: pos() }
}

fn call(callee: &str, args: Vec<Expr>) -> Expr {
    Expr { kind: ExprKind::Call(Box::new(name(callee)), args), position: pos() }
}

fn func(n: &str, params: Vec<(&str, &str)>, ret: Option<&str>, body: Expr) -> FunctionDecl {
    FunctionDecl {
        name: n.to_string(),
        params: params.into_iter().map(|(p, t)| ParamDecl { name: p.to_string(), spec: ts(t) }).collect(),
        ret: ret.map(ts),
        body,
    }
}

fn item(kind: ItemKind) -> Item {
    Item { visibility: Visibility::Public, kind, position: pos() }
}

fn structure(n: &str, fields: Vec<(&str, &str)>, methods: Vec<MethodDecl>) -> Item {
    item(ItemKind::Structure {
        name: n.to_string(),
        fields: fields.into_iter().map(|(f, t)| FieldDecl { name: f.to_string(), spec: ts(t) }).collect(),
        methods,
    })
}

fn variable(n: &str, mutable: bool, spec: Option<&str>, default: Option<Expr>) -> Item {
    item(ItemKind::Variable { name: n.to_string(), mutable, spec: spec.map(ts), default })
}

fn let_stmt(n: &str, mutable: bool, spec: Option<&str>, default: Option<Expr>) -> Stmt {
    Stmt { kind: StmtKind::Item(Box::new(variable(n, mutable, spec, default))), position: pos() }
}

fn assign(op: AssignmentOp, lvalue: Expr, rhs: Expr) -> Stmt {
    Stmt { kind: StmtKind::Assignment { op, lvalue: Box::new(lvalue), rhs: Box::new(rhs) }, position: at(2) }
}

fn expr_stmt(e: Expr) -> Stmt {
    Stmt { kind: StmtKind::Expr(Box::new(e)), position: pos() }
}

fn root_binding(t: &Typer, n: &str) -> EntityId {
    t.lookup(ROOT_SCOPE, &n.to_string()).expect("bound")
}

#[test]
fn mutually_calling_functions_resolve() {
    let mut t = Typer::new("main");
    let f = item(ItemKind::Function(func("f", vec![], Some("int"), call("g", vec![]))));
    let g = item(ItemKind::Function(func("g", vec![], Some("int"), call("f", vec![]))));
    let (resolved, errors) = t.resolve_module(vec![f, g]);
    assert!(errors.is_empty());
    assert_eq!(resolved.len(), 2);
    for id in resolved {
        assert!(t.arena.get(id).is_function());
        assert!(t.arena.get(id).is_resolved());
    }
}

#[test]
fn structures_containing_each_other_are_circular() {
    let mut t = Typer::new("main");
    let a = structure("A", vec![("b", "B")], vec![]);
    let b = structure("B", vec![("a", "A")], vec![]);
    let (resolved, errors) = t.resolve_module(vec![a, b]);
    assert!(resolved.is_empty());
    assert_eq!(errors.len(), 2);
    for e in &errors {
        assert_eq!(e.kind, ErrorKind::CircularDefinition);
    }
    assert!(t.arena.get(root_binding(&t, "A")).is_resolving());
}

#[test]
fn reentering_resolving_entity_is_circular() {
    let mut t = Typer::new("main");
    let id = t.declare_top_level(Box::new(variable("v", false, Some("int"), None))).unwrap();
    t.begin_resolving(id);
    let err = t.resolve_entity(id).unwrap_err();
    assert_eq!(err.kind, ErrorKind::CircularDefinition);
    assert_eq!(err.name, "v");
}

#[test]
fn resolving_a_resolved_entity_changes_nothing() {
    let mut t = Typer::new("main");
    let id = t.declare_top_level(Box::new(variable("v", false, Some("int"), Some(num(4))))).unwrap();
    assert!(t.arena.get(id).is_unresolved());
    assert_eq!(t.resolve_entity(id).unwrap(), id);
    let count = t.arena.len();
    assert_eq!(t.arena.get(id).ty(), Type::Int);
    assert_eq!(t.resolve_entity(id).unwrap(), id);
    assert_eq!(t.arena.len(), count);
    assert_eq!(t.arena.get(id).ty(), Type::Int);
    assert_eq!(t.arena.get(id).kind_name(), "variable");
    assert_eq!(t.arena.get(id).path().render(), "main");
}

#[test]
fn let_then_assign() {
    let mut t = Typer::new("main");
    let decl = t.resolve_stmt(&let_stmt("x", true, None, Some(num(1)))).unwrap();
    assert_eq!(decl.ty, Type::Unit);
    let x = match decl.kind {
        MirStmtKind::Item(id) => id,
        _ => panic!("expected an item"),
    };
    match t.arena.get(x).kind() {
        EntityInfo::Variable(info) => {
            assert!(info.mutable);
            assert!(!info.global);
            assert!(matches!(info.default.as_ref().unwrap().kind, TypedExprKind::Int(1)));
        },
        _ => panic!("expected a variable"),
    }
    let s = t.resolve_stmt(&assign(AssignmentOp::Assign, name("x"), num(2))).unwrap();
    assert_eq!(s.ty, Type::Unit);
    assert_eq!(s.position, at(2));
    match s.kind {
        MirStmtKind::Assignment(a) => {
            assert_eq!(a.lvalue, x);
            assert_eq!(a.op, AssignmentOp::Assign);
            assert_eq!(a.rhs.ty, Type::Int);
            assert!(matches!(a.rhs.kind, TypedExprKind::Int(2)));
        },
        _ => panic!("expected an assignment"),
    }
}

#[test]
fn immutable_target_wins_over_bad_rhs() {
    let mut t = Typer::new("main");
    t.resolve_stmt(&let_stmt("x", false, None, Some(num(1)))).unwrap();
    let count = t.arena.len();
    let err = t.resolve_stmt(&assign(AssignmentOp::Assign, name("x"), name("nowhere"))).unwrap_err();
    assert_eq!(err.kind, ErrorKind::ImmutableTarget);
    assert_eq!(err.name, "x");
    assert_eq!(err.position, Some(pos()));
    assert_eq!(t.arena.len(), count);
}

#[test]
fn missing_field_of_int_is_unresolved() {
    let mut t = Typer::new("main");
    t.resolve_stmt(&let_stmt("x", true, None, Some(num(1)))).unwrap();
    let err = t.resolve_stmt(&assign(AssignmentOp::Assign, field(name("x"), "someField"), num(2))).unwrap_err();
    assert_eq!(err.kind, ErrorKind::UnresolvedDependency);
    assert_eq!(err.name, "someField");
}

#[test]
fn field_of_immutable_value_is_immutable() {
    let mut t = Typer::new("main");
    t.resolve_stmt(&Stmt {
        kind: StmtKind::Item(Box::new(structure("P", vec![("someField", "int")], vec![]))),
        position: pos(),
    })
    .unwrap();
    t.resolve_stmt(&let_stmt("p", false, Some("P"), None)).unwrap();
    t.resolve_stmt(&let_stmt("q", true, Some("P"), None)).unwrap();
    let err = t.resolve_stmt(&assign(AssignmentOp::Assign, field(name("p"), "someField"), num(2))).unwrap_err();
    assert_eq!(err.kind, ErrorKind::ImmutableTarget);
    let ok = t.resolve_stmt(&assign(AssignmentOp::Assign, field(name("q"), "someField"), num(2))).unwrap();
    assert_eq!(ok.ty, Type::Unit);
    let missing = t.resolve_stmt(&assign(AssignmentOp::Assign, field(name("q"), "other"), num(2))).unwrap_err();
    assert_eq!(missing.kind, ErrorKind::UnresolvedDependency);
}

#[test]
fn point_fields_take_slots_in_order() {
    let mut t = Typer::new("main");
    let (resolved, errors) = t.resolve_module(vec![structure("Point", vec![("x", "int"), ("y", "int")], vec![])]);
    assert!(errors.is_empty());
    let p = resolved[0];
    let fields = t.arena.get(p).as_struct().fields;
    let x = t.scopes[fields].lookup_local(&"x".to_string()).unwrap();
    let y = t.scopes[fields].lookup_local(&"y".to_string()).unwrap();
    assert!(t.arena.get(x).is_field());
    assert_eq!(t.arena.get(x).as_local().index, 0);
    assert_eq!(t.arena.get(y).as_local().index, 1);
    assert_eq!(t.arena.get(y).ty(), Type::Int);
}

#[test]
fn declared_locals_are_contiguous() {
    let mut t = Typer::new("main");
    let names = vec!["a".to_string(), "b".to_string(), "c".to_string()];
    let types = vec![Type::Int, Type::Bool, Type::Int];
    let s = t.declare_locals(&names, &types, None, false).unwrap();
    for (i, id) in t.scopes[s].entities.iter().enumerate() {
        let e = t.arena.get(*id);
        assert!(matches!(e.kind(), EntityInfo::Param(_)));
        assert_eq!(e.as_local().index, i);
        assert_eq!(e.ty(), types[i]);
        assert_eq!(e.name(), names[i]);
    }
}

#[test]
fn third_method_has_index_two() {
    let mut t = Typer::new("main");
    let self_method = |n: &str| MethodDecl {
        takes_self: true,
        mutable_self: false,
        function: func(n, vec![], Some("int"), field(name("self"), "v")),
    };
    let s = structure("S", vec![("v", "int")], vec![self_method("first"), self_method("second"), self_method("third")]);
    let (resolved, errors) = t.resolve_module(vec![s]);
    assert!(errors.is_empty(), "{:?}", errors);
    let methods = t.arena.get(resolved[0]).as_struct().methods;
    let third = t.scopes[methods].lookup_local(&"third".to_string()).unwrap();
    let info = t.arena.get(third).as_associated_function();
    assert_eq!(info.index, 2);
    assert!(info.takes_self);
    assert_eq!(info.entity, resolved[0]);
    assert_eq!(info.body.ty, Type::Int);
}

#[test]
fn method_with_wrong_body_type_fails() {
    let mut t = Typer::new("main");
    let m = MethodDecl { takes_self: false, mutable_self: false, function: func("m", vec![], Some("bool"), num(0)) };
    let (_, errors) = t.resolve_module(vec![structure("S", vec![], vec![m])]);
    assert_eq!(errors.len(), 1);
    assert_eq!(errors[0].kind, ErrorKind::TypeMismatch);
}

#[test]
fn declared_type_must_match_default() {
    let mut t = Typer::new("main");
    let err = t.resolve_stmt(&let_stmt("x", true, Some("bool"), Some(num(1)))).unwrap_err();
    assert_eq!(err.kind, ErrorKind::TypeMismatch);
}

#[test]
fn compound_assignment_is_unsupported() {
    let mut t = Typer::new("main");
    t.resolve_stmt(&let_stmt("x", true, None, Some(num(1)))).unwrap();
    let err = t.resolve_stmt(&assign(AssignmentOp::AddAssign, name("x"), num(1))).unwrap_err();
    assert_eq!(err.kind, ErrorKind::UnsupportedConstruct);
}

#[test]
fn unknown_names_are_unresolved() {
    let mut t = Typer::new("main");
    let err = t.resolve_stmt(&assign(AssignmentOp::Assign, name("y"), num(1))).unwrap_err();
    assert_eq!(err.kind, ErrorKind::UnresolvedDependency);
    assert_eq!(err.name, "y");
    let err = t.resolve_stmt(&let_stmt("z", true, Some("Nope"), None)).unwrap_err();
    assert_eq!(err.kind, ErrorKind::UnresolvedDependency);
    assert_eq!(err.name, "Nope");
}

#[test]
fn expression_statement_has_expression_type() {
    let mut t = Typer::new("main");
    let s = t.resolve_stmt(&expr_stmt(boolean(true))).unwrap();
    assert_eq!(s.ty, Type::Bool);
    assert_eq!(t.state, 0);
    let s = t.resolve_stmt(&expr_stmt(num(3))).unwrap();
    assert_eq!(s.ty, Type::Int);
}

#[test]
fn item_statement_is_unit_whatever_its_type() {
    let mut t = Typer::new("main");
    let s = t.resolve_stmt(&let_stmt("b", false, None, Some(boolean(false)))).unwrap();
    assert_eq!(s.ty, Type::Unit);
    let id = match s.kind {
        MirStmtKind::Item(id) => id,
        _ => panic!("expected an item"),
    };
    assert_eq!(t.arena.get(id).ty(), Type::Bool);
}

#[test]
fn calls_check_arguments() {
    let mut t = Typer::new("main");
    let h = item(ItemKind::Function(func("h", vec![("a", "int"), ("b", "bool")], Some("int"), name("a"))));
    let (_, errors) = t.resolve_module(vec![h]);
    assert!(errors.is_empty());
    let ok = t.resolve_stmt(&expr_stmt(call("h", vec![num(5), boolean(true)]))).unwrap();
    assert_eq!(ok.ty, Type::Int);
    let wrong = t.resolve_stmt(&expr_stmt(call("h", vec![boolean(true), boolean(true)]))).unwrap_err();
    assert_eq!(wrong.kind, ErrorKind::TypeMismatch);
    let arity = t.resolve_stmt(&expr_stmt(call("h", vec![num(5)]))).unwrap_err();
    assert_eq!(arity.kind, ErrorKind::TypeMismatch);
    let not_fn = t.resolve_stmt(&expr_stmt(Expr { kind: ExprKind::Call(Box::new(num(1)), vec![]), position: pos() })).unwrap_err();
    assert_eq!(not_fn.kind, ErrorKind::TypeMismatch);
}

#[test]
fn top_level_item_statement_uses_declared_entity() {
    let mut t = Typer::new("main");
    let id = t.declare_top_level(Box::new(variable("g", true, Some("int"), None))).unwrap();
    let s = t
        .resolve_stmt_inner(&Stmt { kind: StmtKind::Item(Box::new(variable("g", true, Some("int"), None))), position: pos() }, true)
        .unwrap();
    assert!(matches!(s.kind, MirStmtKind::Item(found) if found == id));
    match t.arena.get(id).kind() {
        EntityInfo::Variable(info) => assert!(info.global),
        _ => panic!("expected a variable"),
    }
}

#[test]
fn primitive_used_as_value_is_mismatch() {
    let mut t = Typer::new("main");
    let err = t.resolve_stmt(&assign(AssignmentOp::Assign, name("int"), num(1))).unwrap_err();
    assert_eq!(err.kind, ErrorKind::TypeMismatch);
}

#[test]
fn function_params_take_slots_in_order() {
    let mut t = Typer::new("main");
    let h = item(ItemKind::Function(func("h", vec![("a", "int"), ("b", "bool"), ("c", "int")], Some("bool"), name("b"))));
    let (resolved, errors) = t.resolve_module(vec![h]);
    assert!(errors.is_empty());
    let params = match t.arena.get(resolved[0]).kind() {
        EntityInfo::Function(info) => {
            assert_eq!(info.ret, Type::Bool);
            assert_eq!(info.body.ty, Type::Bool);
            info.params
        },
        _ => panic!("expected a function"),
    };
    let names: Vec<&str> = t.scopes[params].names.iter().map(|n| n.as_str()).collect();
    assert_eq!(names, vec!["a", "b", "c"]);
    for (i, id) in t.scopes[params].entities.iter().enumerate() {
        assert_eq!(t.arena.get(*id).as_local().index, i);
        assert!(matches!(t.arena.get(*id).kind(), EntityInfo::Param(_)));
    }
    assert_eq!(t.arena.get(resolved[0]).ty(), Type::Function(resolved[0]));
}

#[test]
fn forward_reference_to_later_structure() {
    let mut t = Typer::new("main");
    let v = variable("origin", false, Some("Point"), None);
    let p = structure("Point", vec![("x", "int"), ("y", "int")], vec![]);
    let (resolved, errors) = t.resolve_module(vec![v, p]);
    assert!(errors.is_empty());
    assert_eq!(resolved.len(), 2);
    let point = root_binding(&t, "Point");
    assert_eq!(t.arena.get(resolved[0]).ty(), Type::Structure(point));
    assert_eq!(t.arena.get(point).full_name().render(), "main.Point");
}

#[test]
fn method_path_names_its_structure() {
    let mut t = Typer::new("main");
    let m = MethodDecl { takes_self: false, mutable_self: false, function: func("make", vec![], Some("int"), num(0)) };
    let (resolved, errors) = t.resolve_module(vec![structure("S", vec![], vec![m])]);
    assert!(errors.is_empty());
    let methods = t.arena.get(resolved[0]).as_struct().methods;
    let make = t.scopes[methods].lookup_local(&"make".to_string()).unwrap();
    assert_eq!(t.arena.get(make).full_name().render(), "main.S.make");
    assert!(!t.arena.get(make).as_associated_function().takes_self);
}

#[test]
fn failed_function_body_leaves_entity_resolving() {
    let mut t = Typer::new("main");
    let f = item(ItemKind::Function(func("f", vec![("a", "int")], Some("int"), boolean(true))));
    let (resolved, errors) = t.resolve_module(vec![f]);
    assert!(resolved.is_empty());
    assert_eq!(errors.len(), 1);
    assert_eq!(errors[0].kind, ErrorKind::TypeMismatch);
    let id = root_binding(&t, "f");
    assert!(t.arena.get(id).is_resolving());
    assert!(!t.arena.get(id).is_resolved());
    let again = t.resolve_entity(id).unwrap_err();
    assert_eq!(again.kind, ErrorKind::CircularDefinition);
}

#[test]
fn failed_method_leaves_structure_resolving() {
    let mut t = Typer::new("main");
    let m = MethodDecl { takes_self: true, mutable_self: false, function: func("m", vec![], Some("int"), field(name("self"), "missing")) };
    let (_, errors) = t.resolve_module(vec![structure("S", vec![("v", "int")], vec![m])]);
    assert_eq!(errors.len(), 1);
    assert_eq!(errors[0].kind, ErrorKind::UnresolvedDependency);
    assert!(t.arena.get(root_binding(&t, "S")).is_resolving());
}

#[test]
fn nested_declaration_does_not_see_itself() {
    let mut t = Typer::new("main");
    let err = t.resolve_stmt(&let_stmt("y", true, None, Some(name("y")))).unwrap_err();
    assert_eq!(err.kind, ErrorKind::UnresolvedDependency);
    t.resolve_stmt(&let_stmt("y", true, None, Some(num(3)))).unwrap();
    let s = t.resolve_stmt(&let_stmt("z", false, None, Some(name("y")))).unwrap();
    let z = match s.kind {
        MirStmtKind::Item(id) => id,
        _ => panic!("expected an item"),
    };
    assert_eq!(t.arena.get(z).ty(), Type::Int);
}

#[test]
fn field_of_reads_the_structure_fields() {
    let mut t = Typer::new("main");
    let (resolved, _) = t.resolve_module(vec![structure("P", vec![("a", "bool")], vec![])]);
    let p = resolved[0];
    let base = auburn::mir::TypedExpr { kind: TypedExprKind::Entity(p), position: pos(), ty: Type::Structure(p), mutable: true };
    let (fid, te) = t.field_of(base, &"a".to_string(), at(3)).unwrap();
    assert!(t.arena.get(fid).is_field());
    assert_eq!(te.ty, Type::Bool);
    assert!(te.mutable);
    assert_eq!(te.position, at(3));
    let base = auburn::mir::TypedExpr { kind: TypedExprKind::Int(1), position: pos(), ty: Type::Int, mutable: true };
    let err = t.field_of(base, &"a".to_string(), at(3)).unwrap_err();
    assert_eq!(err.kind, ErrorKind::UnresolvedDependency);
}

#[test]
fn top_level_item_already_resolved_is_returned_unchanged() {
    let mut t = Typer::new("main");
    let id = t.declare_top_level(Box::new(variable("g", true, None, Some(num(1))))).unwrap();
    t.resolve_entity(id).unwrap();
    let count = t.arena.len();
    let stmt = Stmt { kind: StmtKind::Item(Box::new(variable("g", true, None, Some(num(1))))), position: at(9) };
    let s = t.resolve_stmt_inner(&stmt, true).unwrap();
    assert!(matches!(s.kind, MirStmtKind::Item(found) if found == id));
    assert_eq!(s.ty, Type::Unit);
    assert_eq!(s.position, pos());
    assert_eq!(t.arena.len(), count);
}
