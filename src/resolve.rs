use vstd::prelude::*;

use crate::ast::{Expr, ExprKind, FieldDecl, FunctionDecl, Item, ItemKind, ParamDecl, Position, TypeSpec, Visibility};
use crate::entity::{
    same_path, kind_is_resolved, kind_is_type, AssociatedFunctionInfo, EntityId, EntityInfo, FunctionInfo,
    LocalInfo, Path, ScopeRef, StructureInfo, Type, VariableInfo,
};
use crate::error::{Error, ErrorKind};
use crate::mir::{TypedExpr, TypedExprKind};
use crate::typer::{field_or_param, Typer, ROOT_SCOPE};

verus! {

broadcast use vstd::std_specs::vec::axiom_vec_index_decreases;

/// Whether an assignment may target a value entity of this kind.
pub open spec fn value_mutable(k: EntityInfo) -> bool {
    match k {
        EntityInfo::Variable(info) => info.mutable,
        EntityInfo::SelfParam { mutable } => mutable,
        _ => false,
    }
}

/// The terminal kind `k` is what the declaration `item` declares: a structure,
/// a function, or a variable with the declared mutability.
pub open spec fn kind_matches(item: Item, k: EntityInfo) -> bool {
    match item.kind {
        ItemKind::Structure { .. } => k is Structure,
        ItemKind::Function(_) => k is Function,
        ItemKind::Variable { mutable, .. } => k is Variable && k->Variable_0.mutable == mutable,
    }
}

/// The method that a function declaration stands for: its structure, whether
/// it takes `self`, whether that `self` may be changed, and its place among the methods.
pub type Owner = (EntityId, bool, bool, usize);

/// Scope `s` binds `names` in order, each to an entity of the matching type
/// that is a field (or a parameter) whose slot is its position.
pub open spec fn locals_laid_out(t: Typer, s: int, names: Seq<String>, types: Seq<Type>, as_fields: bool, n: int) -> bool {
    &&& 0 <= s < t.scopes@.len()
    &&& t.scopes@[s].names@.len() == n
    &&& t.scopes@[s].entities@.len() == n
    &&& forall|j: int| #![trigger t.scopes@[s].entities@[j]] 0 <= j < n ==> {
        let e = t.entity(t.scopes@[s].entities@[j]);
        &&& t.arena.contains(t.scopes@[s].entities@[j])
        &&& t.scopes@[s].names@[j]@ == names[j]@
        &&& e.name@ == names[j]@
        &&& e.ty == types[j]
        &&& (as_fields ==> e.kind is Field && e.kind->Field_0.index == j)
        &&& (!as_fields ==> e.kind is Param && e.kind->Param_0.index == j)
    }
}

/// The field names that a structure declaration lists, in order.
pub open spec fn declared_field_names(item: Item) -> Seq<Seq<char>> {
    match item.kind {
        ItemKind::Structure { fields, .. } => fields@.map_values(|f: FieldDecl| f.name@),
        _ => Seq::empty(),
    }
}

/// Scope `s` binds exactly `names`, in order, each to a field (or a
/// parameter) whose slot is its position.
pub open spec fn slots_in_order(t: Typer, s: int, names: Seq<Seq<char>>, as_fields: bool) -> bool {
    &&& 0 <= s < t.scopes@.len()
    &&& t.scopes@[s].names@.len() == names.len()
    &&& t.scopes@[s].entities@.len() == names.len()
    &&& forall|j: int| #![trigger t.scopes@[s].entities@[j]] 0 <= j < names.len() ==> {
        let k = t.entity(t.scopes@[s].entities@[j]).kind;
        &&& t.arena.contains(t.scopes@[s].entities@[j])
        &&& t.scopes@[s].names@[j]@ == names[j]
        &&& (as_fields ==> k is Field && k->Field_0.index == j)
        &&& (!as_fields ==> k is Param && k->Param_0.index == j)
    }
}

/// The parameter names of a function declaration, in order.
pub open spec fn declared_param_names(f: FunctionDecl) -> Seq<Seq<char>> {
    f.params@.map_values(|p: ParamDecl| p.name@)
}

/// The parameter scope of a function or method kind.
pub open spec fn params_of(k: EntityInfo) -> ScopeRef {
    match k {
        EntityInfo::Function(info) => info.params,
        EntityInfo::AssociatedFunction(info) => info.params,
        _ => 0,
    }
}

/// `name` is bound, from scope `s`, to a primitive type entity.
pub open spec fn primitive_named(t: Typer, s: int, name: Seq<char>) -> bool {
    &&& t.lookup_in(s, name) is Some
    &&& t.arena.contains(t.lookup_in(s, name)->Some_0)
    &&& t.entity(t.lookup_in(s, name)->Some_0).kind is Primitive
}

/// The type of the primitive that `name` is bound to from scope `s`.
pub open spec fn primitive_type(t: Typer, s: int, name: Seq<char>) -> Type {
    t.entity(t.lookup_in(s, name)->Some_0).ty
}

/// The default that a variable declaration gives, if any.
pub open spec fn item_default(item: Item) -> Option<Expr> {
    match item.kind {
        ItemKind::Variable { default, .. } => default,
        _ => None,
    }
}

/// `te` is the typed form of `e` where `e` is a literal.
pub open spec fn literal_typed(e: Expr, te: TypedExpr) -> bool {
    match e.kind {
        ExprKind::Int(n) => te.kind == TypedExprKind::Int(n),
        ExprKind::Bool(b) => te.kind == TypedExprKind::Bool(b),
        _ => true,
    }
}

/// The variable entity `e` records `d`, typed, as its default, of its own type.
pub open spec fn records_default(e: crate::entity::Entity, d: Expr) -> bool {
    &&& e.kind is Variable
    &&& e.kind->Variable_0.default is Some
    &&& e.kind->Variable_0.default->Some_0.ty == e.ty
    &&& literal_typed(d, e.kind->Variable_0.default->Some_0)
}

/// The entity that the type of a structure declaration's first field names
/// from scope `s`.
pub open spec fn first_field_target(t: Typer, s: int, item: Item) -> Option<EntityId> {
    match item.kind {
        ItemKind::Structure { fields, .. } => if fields@.len() > 0 {
            t.lookup_in(s, fields@[0].spec.name@)
        } else {
            None
        },
        _ => None,
    }
}

/// Entity `x` is a structure still to be resolved whose first field's type
/// names, from the module scope, an entity that is being resolved.
pub open spec fn closes_cycle(t: Typer, x: EntityId) -> bool {
    &&& t.arena.contains(x)
    &&& t.entity(x).kind is Unresolved
    &&& first_field_target(t, ROOT_SCOPE as int, *t.entity(x).kind->Unresolved_0) is Some
    &&& t.arena.contains(first_field_target(t, ROOT_SCOPE as int, *t.entity(x).kind->Unresolved_0)->Some_0)
    &&& t.entity(first_field_target(t, ROOT_SCOPE as int, *t.entity(x).kind->Unresolved_0)->Some_0).kind is Resolving
}

/// The first field's type of the structure declaration `item` names, from
/// scope `s`, an entity being resolved or one that closes a cycle.
pub open spec fn first_field_circular(t: Typer, s: int, item: Item) -> bool {
    let y = first_field_target(t, s, item);
    &&& y is Some
    &&& t.arena.contains(y->Some_0)
    &&& (t.entity(y->Some_0).kind is Resolving || closes_cycle(t, y->Some_0))
}

/// Entity `x` is a structure still to be resolved that holds itself by value
/// in its first field, or holds a structure still to be resolved that holds
/// `x` in its first field.
pub open spec fn in_field_cycle(t: Typer, x: EntityId) -> bool {
    let y = first_field_target(t, ROOT_SCOPE as int, *t.entity(x).kind->Unresolved_0);
    &&& t.arena.contains(x)
    &&& t.entity(x).kind is Unresolved
    &&& y is Some
    &&& t.arena.contains(y->Some_0)
    &&& (y->Some_0 == x || (t.entity(y->Some_0).kind is Unresolved
        && first_field_target(t, ROOT_SCOPE as int, *t.entity(y->Some_0).kind->Unresolved_0) == Some(x)))
}

/// The type of a literal expression.
pub open spec fn literal_type(e: Expr) -> Option<Type> {
    match e.kind {
        ExprKind::Int(_) => Some(Type::Int),
        ExprKind::Bool(_) => Some(Type::Bool),
        _ => None,
    }
}

/// A function that depends on no user declaration: its parameter and return
/// types name primitives and its body is a literal of its return type.
pub open spec fn function_resolvable(t: Typer, s: int, f: FunctionDecl) -> bool {
    &&& forall|i: int| 0 <= i < f.params@.len() ==> primitive_named(t, s, #[trigger] f.params@[i].spec.name@)
    &&& f.ret is Some
    &&& primitive_named(t, s, f.ret->Some_0.name@)
    &&& literal_type(f.body) == Some(primitive_type(t, s, f.ret->Some_0.name@))
}

/// A declaration that depends on no user declaration: a variable whose default
/// is a literal of its declared type (or of no declared type), a structure
/// without methods whose field types name primitives, or such a function.
pub open spec fn resolvable(t: Typer, s: int, item: Item) -> bool {
    match item.kind {
        ItemKind::Variable { spec, default, .. } => {
            &&& default is Some
            &&& literal_type(default->Some_0) is Some
            &&& (spec is Some ==> primitive_named(t, s, spec->Some_0.name@)
                && primitive_type(t, s, spec->Some_0.name@) == literal_type(default->Some_0)->Some_0)
        },
        ItemKind::Structure { fields, methods, .. } => {
            &&& methods@.len() == 0
            &&& forall|i: int| 0 <= i < fields@.len() ==> primitive_named(t, s, #[trigger] fields@[i].spec.name@)
        },
        ItemKind::Function(f) => function_resolvable(t, s, f),
    }
}

/// How many field or parameter entities resolving the declaration creates.
pub open spec fn local_count(item: Item) -> nat {
    match item.kind {
        ItemKind::Variable { .. } => 0,
        ItemKind::Structure { fields, .. } => fields@.len(),
        ItemKind::Function(f) => f.params@.len(),
    }
}

/// What `resolvable` asks of `a` holds of `b` too: the same scopes and the
/// same entities but for `id`, which was no primitive.
pub proof fn lemma_resolvable_frame(a: Typer, b: Typer, s: int, item: Item, id: EntityId)
    requires
        resolvable(a, s, item),
        a.scopes == b.scopes,
        b.arena.entities@.len() >= a.arena.entities@.len(),
        a.arena.contains(id) ==> !(a.entity(id).kind is Primitive),
        forall|x: EntityId| #[trigger] a.arena.contains(x) && x != id ==> b.entity(x) == a.entity(x),
    ensures
        resolvable(b, s, item),
{
    assert forall|name: Seq<char>| primitive_named(a, s, name) implies primitive_named(b, s, name)
        && primitive_type(b, s, name) == primitive_type(a, s, name) by {
        let x = a.lookup_in(s, name)->Some_0;
        assert(a.arena.contains(x) && x != id);
    }
    match item.kind {
        ItemKind::Structure { fields, .. } => {
            assert forall|i: int| 0 <= i < fields@.len() implies primitive_named(b, s, #[trigger] fields@[i].spec.name@) by {
                assert(primitive_named(a, s, fields@[i].spec.name@));
            }
        },
        ItemKind::Function(f) => {
            assert forall|i: int| 0 <= i < f.params@.len() implies primitive_named(b, s, #[trigger] f.params@[i].spec.name@) by {
                assert(primitive_named(a, s, f.params@[i].spec.name@));
            }
        },
        _ => {},
    }
}

/// The field `name` of values of type `ty`: bound in the fields scope of the
/// structure that `ty` names, to a field entity.
pub open spec fn field_in(t: Typer, ty: Type, name: Seq<char>) -> Option<EntityId> {
    match ty {
        Type::Structure(sid) => if t.arena.contains(sid) && t.entity(sid).kind is Structure
            && t.entity(sid).kind->Structure_0.fields < t.scopes@.len() {
            match t.scopes@[t.entity(sid).kind->Structure_0.fields as int].local(name) {
                Some(fid) => if t.entity(fid).kind is Field {
                    Some(fid)
                } else {
                    None
                },
                None => None,
            }
        } else {
            None
        },
        _ => None,
    }
}

/// Putting back to `Resolving` an entity that was not resolved when its
/// resolution began keeps what that resolution kept.
proof fn lemma_reset_keeps(start: Typer, mid: Typer, end: Typer, id: EntityId)
    requires
        start.wf(),
        start.arena.contains(id),
        !field_or_param(start.entity(id).kind),
        !kind_is_resolved(start.entity(id).kind),
        mid.keeps(start),
        mid.arena.entities@.len() >= start.arena.entities@.len(),
        mid.arena.wf(),
        end.arena.wf(),
        end.scopes == mid.scopes,
        end.arena.entities@.len() == mid.arena.entities@.len(),
        end.entity(id).kind is Resolving,
        forall|other: EntityId| #[trigger] mid.arena.contains(other) && other != id ==> end.entity(other) == mid.entity(other),
    ensures
        end.keeps(start),
{
    assert forall|i: int| #![trigger end.arena.entities@[i]] 0 <= i < start.arena.entities@.len() implies {
        &&& (field_or_param(start.arena.entities@[i].kind) ==> end.arena.entities@[i] == start.arena.entities@[i])
        &&& (!field_or_param(start.arena.entities@[i].kind) ==> !field_or_param(end.arena.entities@[i].kind))
        &&& (kind_is_resolved(start.arena.entities@[i].kind) ==> kind_is_resolved(end.arena.entities@[i].kind))
    } by {
        let x = EntityId((i + 1) as usize);
        assert(start.arena.entities@[i].id == x);
        assert(mid.arena.contains(x));
        if x != id {
            assert(end.entity(x) == mid.entity(x));
            assert(mid.arena.entities@[i] == mid.entity(x));
        }
    }
}

fn function_kind(owner: Option<Owner>, params: ScopeRef, body_scope: Option<ScopeRef>, body: TypedExpr, ret: Type) -> (r: EntityInfo)
    ensures
        kind_is_resolved(r),
        params_of(r) == params,
        owner is None ==> r is Function,
        owner is Some ==> r is AssociatedFunction && r->AssociatedFunction_0.index == owner->Some_0.3
            && r->AssociatedFunction_0.entity == owner->Some_0.0,
{
    match owner {
        Some((entity, takes_self, _, index)) => EntityInfo::AssociatedFunction(
            AssociatedFunctionInfo { entity, params, body_scope, body, takes_self, index, ret },
        ),
        None => EntityInfo::Function(FunctionInfo { params, body_scope, body, ret }),
    }
}

impl Typer {
    /// Creates one entity per name, in order, as fields or as parameters with
    /// slots `0..n`, and binds them in a new scope.
    pub fn declare_locals(&mut self, names: &Vec<String>, types: &Vec<Type>, parent: Option<ScopeRef>, as_fields: bool) -> (r: Result<ScopeRef, Error>)
        requires
            old(self).wf(),
            names@.len() == types@.len(),
            parent is Some ==> parent->Some_0 < old(self).scopes@.len(),
        ensures
            final(self).grows_from(*old(self)),
            final(self).keeps(*old(self)),
            final(self).count() == old(self).count(),
            r is Ok ==> locals_laid_out(*final(self), r->Ok_0 as int, names@, types@, as_fields, names@.len() as int),
            r is Ok ==> final(self).scopes@[r->Ok_0 as int].parent == parent,
            r is Err ==> r->Err_0.kind == ErrorKind::TooManyEntities,
            old(self).arena.entities@.len() + names@.len() + 2 < usize::MAX ==> r is Ok,
    {
        let s = self.new_scope(parent);
        let mut i: usize = 0;
        while i < names.len()
            invariant
                self.grows_from(*old(self)),
                self.keeps(*old(self)),
                self.count() == old(self).count(),
                i <= names@.len(),
                names@.len() == types@.len(),
                self.scopes@[s as int].parent == parent,
                s == old(self).scopes@.len(),
                self.arena.entities@.len() == old(self).arena.entities@.len() + i,
                locals_laid_out(*self, s as int, names@, types@, as_fields, i as int),
            decreases names@.len() - i,
        {
            let local = LocalInfo { index: i, spec: Some(types[i]), default: None };
            let kind = if as_fields {
                EntityInfo::Field(local)
            } else {
                EntityInfo::Param(local)
            };
            let ghost mid = *self;
            let id = self.add_entity(Visibility::Private, names[i].clone(), types[i], kind, Path::empty())?;
            proof {
                assert forall|j: int| 0 <= j < i implies #[trigger] self.arena.contains(self.scopes@[s as int].entities@[j])
                    && self.entity(self.scopes@[s as int].entities@[j]) == mid.entity(mid.scopes@[s as int].entities@[j]) by {
                    let x = mid.scopes@[s as int].entities@[j];
                    assert(mid.arena.contains(x));
                    assert(self.arena.entities@[x.0 - 1] == mid.arena.entities@[x.0 - 1]);
                }
            }
            self.bind(s, names[i].clone(), id);
            i = i + 1;
        }
        Ok(s)
    }

    /// Brings an entity to a terminal state, resolving what it depends on first.
    /// A resolved entity is handed back untouched; one that is being resolved
    /// is a circular definition. On an error the entity is left `Resolving`.
    pub fn resolve_entity(&mut self, id: EntityId) -> (r: Result<EntityId, Error>)
        requires
            old(self).wf(),
            old(self).arena.contains(id),
        ensures
            final(self).grows_from(*old(self)),
            final(self).keeps(*old(self)),
            kind_is_resolved(old(self).entity(id).kind) ==> r == Ok::<EntityId, Error>(id) && *final(self) == *old(self),
            old(self).entity(id).kind is Resolving ==> r is Err && r->Err_0.kind == ErrorKind::CircularDefinition
                && r->Err_0.name == old(self).entity(id).name && *final(self) == *old(self),
            r is Ok ==> r->Ok_0 == id && kind_is_resolved(final(self).entity(id).kind),
            r is Err ==> !kind_is_resolved(final(self).entity(id).kind),
            closes_cycle(*old(self), id) ==> r is Err && r->Err_0.kind == ErrorKind::CircularDefinition,
            in_field_cycle(*old(self), id) ==> r is Err && r->Err_0.kind == ErrorKind::CircularDefinition,
            old(self).entity(id).kind is Unresolved
                && resolvable(*old(self), ROOT_SCOPE as int, *old(self).entity(id).kind->Unresolved_0)
                && old(self).arena.entities@.len() + local_count(*old(self).entity(id).kind->Unresolved_0) + 3 < usize::MAX
                ==> r is Ok,
            r is Ok && old(self).entity(id).kind is Unresolved
                ==> kind_matches(*old(self).entity(id).kind->Unresolved_0, final(self).entity(id).kind),
            r is Ok && old(self).entity(id).kind is Unresolved ==> same_path(final(self).entity(id).path, old(self).root_path),
            r is Ok && old(self).entity(id).kind is Unresolved && old(self).entity(id).kind->Unresolved_0.kind is Structure
                ==> slots_in_order(*final(self), final(self).entity(id).kind->Structure_0.fields as int,
                    declared_field_names(*old(self).entity(id).kind->Unresolved_0), true),
        decreases old(self).count(), 0nat,
    {
        let e = self.arena.get(id);
        if e.is_resolved() {
            return Ok(id);
        }
        if e.is_resolving() {
            return Err(Error::new(ErrorKind::CircularDefinition, e.name.clone()));
        }
        let raw = self.begin_resolving(id);
        match raw {
            EntityInfo::Unresolved(item) => {
                proof {
                    if resolvable(*old(self), ROOT_SCOPE as int, *item) {
                        lemma_resolvable_frame(*old(self), *self, ROOT_SCOPE as int, *item, id);
                    }
                    let y = first_field_target(*old(self), ROOT_SCOPE as int, *item);
                    assert(first_field_target(*self, ROOT_SCOPE as int, *item) == y);
                    if y is Some && old(self).arena.contains(y->Some_0) && y->Some_0 != id {
                        assert(self.entity(y->Some_0) == old(self).entity(y->Some_0));
                        let z = y->Some_0;
                        if old(self).entity(z).kind is Unresolved {
                            let zi = *old(self).entity(z).kind->Unresolved_0;
                            assert(first_field_target(*self, ROOT_SCOPE as int, zi) == first_field_target(*old(self), ROOT_SCOPE as int, zi));
                        }
                    }
                }
                let path = self.root_path.duplicate();
                self.resolve_declared(id, &item, ROOT_SCOPE, path, true)?;
                Ok(id)
            },
            _ => unreached(),
        }
    }

    /// Resolves the declaration `item` into the terminal state of entity `id`.
    /// On an error the entity is left `Resolving`.
    pub fn resolve_declared(&mut self, id: EntityId, item: &Item, scope: ScopeRef, path: Path, global: bool) -> (r: Result<(), Error>)
        requires
            old(self).wf(),
            old(self).arena.contains(id),
            !field_or_param(old(self).entity(id).kind),
            !kind_is_resolved(old(self).entity(id).kind),
            scope < old(self).scopes@.len(),
        ensures
            final(self).grows_from(*old(self)),
            final(self).keeps(*old(self)),
            r is Ok ==> kind_is_resolved(final(self).entity(id).kind),
            r is Ok ==> kind_matches(*item, final(self).entity(id).kind),
            r is Ok && item.kind is Variable ==> final(self).entity(id).kind->Variable_0.global == global,
            r is Ok ==> final(self).entity(id).path == path,
            r is Ok && item_default(*item) is Some ==> records_default(final(self).entity(id), item_default(*item)->Some_0),
            first_field_circular(*old(self), scope as int, *item) ==> r is Err && r->Err_0.kind == ErrorKind::CircularDefinition,
            r is Ok && item.kind is Structure ==> final(self).entity(id).ty == Type::Structure(id),
            r is Ok && item.kind is Structure ==> slots_in_order(*final(self),
                final(self).entity(id).kind->Structure_0.fields as int, declared_field_names(*item), true),
            resolvable(*old(self), scope as int, *item)
                && old(self).arena.entities@.len() + local_count(*item) + 3 < usize::MAX ==> r is Ok,
            r is Err ==> final(self).entity(id).kind is Resolving,
        decreases old(self).count(), 6nat,
    {
        let r = self.declare_kind(id, item, scope, path, global);
        if r.is_err() {
            let ghost mid = *self;
            self.mark_resolving(id);
            proof {
                lemma_reset_keeps(*old(self), mid, *self, id);
            }
        }
        r
    }

    /// The work of `resolve_declared`, which leaves the entity in whatever
    /// state an error found it.
    fn declare_kind(&mut self, id: EntityId, item: &Item, scope: ScopeRef, path: Path, global: bool) -> (r: Result<(), Error>)
        requires
            old(self).wf(),
            old(self).arena.contains(id),
            !field_or_param(old(self).entity(id).kind),
            !kind_is_resolved(old(self).entity(id).kind),
            scope < old(self).scopes@.len(),
        ensures
            final(self).grows_from(*old(self)),
            final(self).keeps(*old(self)),
            r is Ok ==> kind_is_resolved(final(self).entity(id).kind),
            r is Ok ==> kind_matches(*item, final(self).entity(id).kind),
            r is Ok && item.kind is Variable ==> final(self).entity(id).kind->Variable_0.global == global,
            r is Ok ==> final(self).entity(id).path == path,
            r is Ok && item_default(*item) is Some ==> records_default(final(self).entity(id), item_default(*item)->Some_0),
            first_field_circular(*old(self), scope as int, *item) ==> r is Err && r->Err_0.kind == ErrorKind::CircularDefinition,
            r is Ok && item.kind is Structure ==> final(self).entity(id).ty == Type::Structure(id),
            r is Ok && item.kind is Structure ==> slots_in_order(*final(self),
                final(self).entity(id).kind->Structure_0.fields as int, declared_field_names(*item), true),
            resolvable(*old(self), scope as int, *item)
                && old(self).arena.entities@.len() + local_count(*item) + 3 < usize::MAX ==> r is Ok,
        decreases old(self).count(), 5nat,
    {
        match &item.kind {
            ItemKind::Variable { name, mutable, spec, default } => {
                let spec_ty = match spec {
                    Some(s) => Some(self.resolve_type_spec(scope, s)?),
                    None => None,
                };
                let default_expr = match default {
                    Some(d) => Some(self.resolve_expr(scope, d, spec_ty)?),
                    None => None,
                };
                let ty = match spec_ty {
                    Some(t) => t,
                    None => match &default_expr {
                        Some(d) => d.ty,
                        None => {
                            let err = Error::new(ErrorKind::TypeMismatch, name.clone());
                            return Err(err.with_position(item.position));
                        },
                    },
                };
                let info = VariableInfo { spec: spec_ty, mutable: *mutable, global, default: default_expr };
                self.install(id, ty, EntityInfo::Variable(info), path);
                Ok(())
            },
            ItemKind::Structure { name, fields, methods } => {
                let mut names: Vec<String> = Vec::new();
                let mut types: Vec<Type> = Vec::new();
                proof {
                    if resolvable(*old(self), scope as int, *item) {
                        assert(methods@.len() == 0);
                        assert(forall|j: int| 0 <= j < fields@.len() ==> primitive_named(*old(self), scope as int, #[trigger] fields@[j].spec.name@));
                    }
                }
                let mut i: usize = 0;
                while i < fields.len()
                    invariant
                        resolvable(*old(self), scope as int, *item) ==> *self == *old(self) && methods@.len() == 0
                            && forall|j: int| 0 <= j < fields@.len() ==> primitive_named(*old(self), scope as int, #[trigger] fields@[j].spec.name@),
                        local_count(*item) == fields@.len(),
                        i == 0 ==> *self == *old(self),
                        first_field_circular(*old(self), scope as int, *item) ==> i == 0,
                        first_field_target(*old(self), scope as int, *item) == (if fields@.len() > 0 {
                            old(self).lookup_in(scope as int, fields@[0].spec.name@)
                        } else {
                            None
                        }),
                        self.grows_from(*old(self)),
                        self.keeps(*old(self)),
                        scope < self.scopes@.len(),
                        self.arena.contains(id),
                        i <= fields@.len(),
                        names@.len() == i,
                        forall|j: int| 0 <= j < i ==> #[trigger] names@[j]@ == fields@[j].name@,
                        types@.len() == i,
                    decreases fields@.len() - i,
                {
                    let t = self.resolve_type_spec(scope, &fields[i].spec)?;
                    types.push(t);
                    names.push(fields[i].name.clone());
                    i = i + 1;
                }
                let fs = self.declare_locals(&names, &types, None, true)?;
                proof {
                    assert(names@.map_values(|n: String| n@) =~= declared_field_names(*item));
                }
                let ms = self.new_scope(None);
                let mut method_path = path.clone();
                method_path.push_path(name.as_str());
                proof {
                    assert(slots_in_order(*self, fs as int, declared_field_names(*item), true));
                }
                self.install(id, Type::Structure(id), EntityInfo::Structure(StructureInfo { fields: fs, methods: ms }), path.clone());
                let mut i: usize = 0;
                while i < methods.len()
                    invariant
                        self.grows_from(*old(self)),
                        self.keeps(*old(self)),
                        scope < self.scopes@.len(),
                        self.arena.contains(id),
                        old(self).scopes@.len() <= ms < self.scopes@.len(),
                        resolvable(*old(self), scope as int, *item) ==> methods@.len() == 0,
                        !first_field_circular(*old(self), scope as int, *item),
                        fs < ms,
                        slots_in_order(*self, fs as int, declared_field_names(*item), true),
                        i <= methods@.len(),
                    decreases methods@.len() - i,
                {
                    let f = &methods[i].function;
                    let mid = self.add_entity(Visibility::Public, f.name.clone(), Type::Invalid, EntityInfo::Resolving, Path::empty())?;
                    self.bind(ms, f.name.clone(), mid);
                    let owner: Owner = (id, methods[i].takes_self, methods[i].mutable_self, i);
                    self.resolve_function(mid, f, scope, Some(owner), method_path.clone())?;
                    i = i + 1;
                }
                self.install(id, Type::Structure(id), EntityInfo::Structure(StructureInfo { fields: fs, methods: ms }), path);
                Ok(())
            },
            ItemKind::Function(f) => self.resolve_function(id, f, scope, None, path),
        }
    }

    /// Resolves a function: its signature is installed before its body is
    /// resolved, so that calls within the body, to it or back to it, see it.
    /// On an error the entity is left `Resolving`.
    pub fn resolve_function(&mut self, id: EntityId, f: &FunctionDecl, scope: ScopeRef, owner: Option<Owner>, path: Path) -> (r: Result<(), Error>)
        requires
            old(self).wf(),
            old(self).arena.contains(id),
            !field_or_param(old(self).entity(id).kind),
            !kind_is_resolved(old(self).entity(id).kind),
            scope < old(self).scopes@.len(),
        ensures
            final(self).grows_from(*old(self)),
            final(self).keeps(*old(self)),
            r is Ok ==> kind_is_resolved(final(self).entity(id).kind),
            r is Ok && owner is None ==> final(self).entity(id).kind is Function,
            r is Ok && owner is Some ==> final(self).entity(id).kind is AssociatedFunction
                && final(self).entity(id).kind->AssociatedFunction_0.index == owner->Some_0.3,
            r is Ok ==> slots_in_order(*final(self), params_of(final(self).entity(id).kind) as int, declared_param_names(*f), false),
            r is Ok ==> final(self).entity(id).path == path,
            owner is None && function_resolvable(*old(self), scope as int, *f)
                && old(self).arena.entities@.len() + f.params@.len() + 3 < usize::MAX ==> r is Ok,
            r is Err ==> final(self).entity(id).kind is Resolving,
        decreases old(self).count(), 4nat,
    {
        let r = self.function_parts(id, f, scope, owner, path);
        if r.is_err() {
            let ghost mid = *self;
            self.mark_resolving(id);
            proof {
                lemma_reset_keeps(*old(self), mid, *self, id);
            }
        }
        r
    }

    /// The work of `resolve_function`, which leaves the entity in whatever
    /// state an error found it.
    fn function_parts(&mut self, id: EntityId, f: &FunctionDecl, scope: ScopeRef, owner: Option<Owner>, path: Path) -> (r: Result<(), Error>)
        requires
            old(self).wf(),
            old(self).arena.contains(id),
            !field_or_param(old(self).entity(id).kind),
            scope < old(self).scopes@.len(),
        ensures
            final(self).grows_from(*old(self)),
            final(self).keeps(*old(self)),
            r is Ok ==> kind_is_resolved(final(self).entity(id).kind),
            r is Ok && owner is None ==> final(self).entity(id).kind is Function,
            r is Ok && owner is Some ==> final(self).entity(id).kind is AssociatedFunction
                && final(self).entity(id).kind->AssociatedFunction_0.index == owner->Some_0.3,
            r is Ok ==> slots_in_order(*final(self), params_of(final(self).entity(id).kind) as int, declared_param_names(*f), false),
            r is Ok ==> final(self).entity(id).path == path,
            owner is None && function_resolvable(*old(self), scope as int, *f)
                && old(self).arena.entities@.len() + f.params@.len() + 3 < usize::MAX ==> r is Ok,
        decreases old(self).count(), 3nat,
    {
        let mut names: Vec<String> = Vec::new();
        let mut types: Vec<Type> = Vec::new();
        let mut i: usize = 0;
        while i < f.params.len()
            invariant
                owner is None && function_resolvable(*old(self), scope as int, *f) ==> *self == *old(self),
                self.grows_from(*old(self)),
                self.keeps(*old(self)),
                scope < self.scopes@.len(),
                self.arena.contains(id),
                i <= f.params@.len(),
                names@.len() == i,
                forall|j: int| 0 <= j < i ==> #[trigger] names@[j]@ == f.params@[j].name@,
                types@.len() == i,
            decreases f.params@.len() - i,
        {
            let t = self.resolve_type_spec(scope, &f.params[i].spec)?;
            types.push(t);
            names.push(f.params[i].name.clone());
            i = i + 1;
        }
        let ret = match &f.ret {
            Some(s) => self.resolve_type_spec(scope, s)?,
            None => Type::Unit,
        };
        let ps = self.declare_locals(&names, &types, Some(scope), false)?;
        proof {
            assert(names@.map_values(|n: String| n@) =~= declared_param_names(*f));
            assert(slots_in_order(*self, ps as int, declared_param_names(*f), false));
        }
        let (body_scope, inner) = match owner {
            Some((owner_id, true, mutable_self, _)) => {
                let bs = self.new_scope(Some(ps));
                let sid = self.add_entity(
                    Visibility::Private,
                    "self".to_string(),
                    Type::Structure(owner_id),
                    EntityInfo::SelfParam { mutable: mutable_self },
                    Path::empty(),
                )?;
                self.bind(bs, "self".to_string(), sid);
                (Some(bs), bs)
            },
            _ => (None, ps),
        };
        let placeholder = TypedExpr { kind: TypedExprKind::Unit, position: f.body.position, ty: Type::Unit, mutable: false };
        self.install(id, Type::Function(id), function_kind(owner, ps, body_scope, placeholder, ret), path.clone());
        let body = self.resolve_expr(inner, &f.body, Some(ret))?;
        self.install(id, Type::Function(id), function_kind(owner, ps, body_scope, body, ret), path);
        Ok(())
    }

    /// The type that a written type names: a primitive, or a structure, which
    /// is resolved first.
    pub fn resolve_type_spec(&mut self, scope: ScopeRef, spec: &TypeSpec) -> (r: Result<Type, Error>)
        requires
            old(self).wf(),
            scope < old(self).scopes@.len(),
        ensures
            final(self).grows_from(*old(self)),
            final(self).keeps(*old(self)),
            old(self).lookup_in(scope as int, spec.name@) is None ==> r is Err
                && r->Err_0.kind == ErrorKind::UnresolvedDependency && *final(self) == *old(self),
            primitive_named(*old(self), scope as int, spec.name@) ==> *final(self) == *old(self)
                && r == Ok::<Type, Error>(primitive_type(*old(self), scope as int, spec.name@)),
            old(self).lookup_in(scope as int, spec.name@) is Some
                && old(self).entity(old(self).lookup_in(scope as int, spec.name@)->Some_0).kind is Resolving
                ==> *final(self) == *old(self) && r is Err && r->Err_0.kind == ErrorKind::CircularDefinition
                && r->Err_0.name == old(self).entity(old(self).lookup_in(scope as int, spec.name@)->Some_0).name,
            old(self).lookup_in(scope as int, spec.name@) is Some
                && closes_cycle(*old(self), old(self).lookup_in(scope as int, spec.name@)->Some_0)
                ==> r is Err && r->Err_0.kind == ErrorKind::CircularDefinition,
            old(self).lookup_in(scope as int, spec.name@) is Some
                && old(self).entity(old(self).lookup_in(scope as int, spec.name@)->Some_0).kind is Structure
                ==> *final(self) == *old(self)
                && r == Ok::<Type, Error>(Type::Structure(old(self).lookup_in(scope as int, spec.name@)->Some_0)),
        decreases old(self).count(), 1nat,
    {
        let tid = match self.lookup(scope, &spec.name) {
            Some(tid) => tid,
            None => {
                let err = Error::new(ErrorKind::UnresolvedDependency, spec.name.clone());
                return Err(err.with_position(spec.position));
            },
        };
        if self.arena.get(tid).is_unresolved() {
            self.resolve_entity(tid)?;
        }
        let e = self.arena.get(tid);
        match &e.kind {
            EntityInfo::Primitive => Ok(e.ty),
            EntityInfo::Structure(_) => Ok(Type::Structure(tid)),
            EntityInfo::Resolving => {
                let err = Error::new(ErrorKind::CircularDefinition, e.name.clone());
                Err(err.with_position(spec.position))
            },
            _ => {
                let err = Error::new(ErrorKind::TypeMismatch, spec.name.clone());
                Err(err.with_position(spec.position))
            },
        }
    }

    /// A name used as a value: the entity it is bound to, resolved first, as a typed expression.
    pub fn resolve_name(&mut self, scope: ScopeRef, name: &String, position: Position) -> (r: Result<(EntityId, TypedExpr), Error>)
        requires
            old(self).wf(),
            scope < old(self).scopes@.len(),
        ensures
            final(self).grows_from(*old(self)),
            final(self).keeps(*old(self)),
            old(self).lookup_in(scope as int, name@) is None ==> r is Err
                && r->Err_0.kind == ErrorKind::UnresolvedDependency && *final(self) == *old(self),
            r is Ok ==> {
                &&& old(self).lookup_in(scope as int, name@) == Some(r->Ok_0.0)
                &&& final(self).arena.contains(r->Ok_0.0)
                &&& kind_is_resolved(final(self).entity(r->Ok_0.0).kind)
                &&& !kind_is_type(final(self).entity(r->Ok_0.0).kind)
                &&& r->Ok_0.1.ty == final(self).entity(r->Ok_0.0).ty
                &&& r->Ok_0.1.mutable == value_mutable(final(self).entity(r->Ok_0.0).kind)
                &&& r->Ok_0.1.position == position
            },
            forall|id: EntityId| old(self).lookup_in(scope as int, name@) == Some(id)
                && #[trigger] kind_is_resolved(old(self).entity(id).kind) ==> {
                &&& *final(self) == *old(self)
                &&& kind_is_type(old(self).entity(id).kind) ==> r is Err && r->Err_0.kind == ErrorKind::TypeMismatch
                &&& !kind_is_type(old(self).entity(id).kind) ==> r is Ok && r->Ok_0.0 == id
                    && r->Ok_0.1.mutable == value_mutable(old(self).entity(id).kind)
            },
        decreases old(self).count(), 1nat,
    {
        let id = match self.lookup(scope, name) {
            Some(id) => id,
            None => {
                let err = Error::new(ErrorKind::UnresolvedDependency, name.clone());
                return Err(err.with_position(position));
            },
        };
        if self.arena.get(id).is_unresolved() {
            self.resolve_entity(id)?;
        }
        let e = self.arena.get(id);
        let mutable = match &e.kind {
            EntityInfo::Variable(info) => info.mutable,
            EntityInfo::SelfParam { mutable } => *mutable,
            EntityInfo::Param(_) | EntityInfo::Field(_) | EntityInfo::Function(_) | EntityInfo::AssociatedFunction(_) => false,
            EntityInfo::Resolving => {
                let err = Error::new(ErrorKind::CircularDefinition, e.name.clone());
                return Err(err.with_position(position));
            },
            _ => {
                let err = Error::new(ErrorKind::TypeMismatch, name.clone());
                return Err(err.with_position(position));
            },
        };
        Ok((id, TypedExpr { kind: TypedExprKind::Entity(id), position, ty: e.ty, mutable }))
    }

    /// A field of a structure value: it may be assigned to when the value may.
    pub fn resolve_field(&mut self, scope: ScopeRef, base: &Expr, name: &String, position: Position) -> (r: Result<(EntityId, TypedExpr), Error>)
        requires
            old(self).wf(),
            scope < old(self).scopes@.len(),
        ensures
            final(self).grows_from(*old(self)),
            final(self).keeps(*old(self)),
            r is Ok ==> {
                &&& final(self).arena.contains(r->Ok_0.0)
                &&& final(self).entity(r->Ok_0.0).kind is Field
                &&& r->Ok_0.1.ty == final(self).entity(r->Ok_0.0).ty
                &&& r->Ok_0.1.position == position
            },
            base.kind is Name && old(self).lookup_in(scope as int, base.kind->Name_0@) is Some ==> {
                let id = old(self).lookup_in(scope as int, base.kind->Name_0@)->Some_0;
                kind_is_resolved(old(self).entity(id).kind) && !kind_is_type(old(self).entity(id).kind) ==> {
                    let found = field_in(*old(self), old(self).entity(id).ty, name@);
                    &&& *final(self) == *old(self)
                    &&& (r is Ok <==> found is Some)
                    &&& r is Ok ==> r->Ok_0.0 == found->Some_0 && r->Ok_0.1.mutable == value_mutable(old(self).entity(id).kind)
                    &&& r is Err ==> r->Err_0.kind == ErrorKind::UnresolvedDependency
                }
            },
        decreases old(self).count(), 2nat, base, 1nat,
    {
        let b = self.resolve_expr(scope, base, None)?;
        self.field_of(b, name, position)
    }

    /// The field `name` of the structure value `b`, or `UnresolvedDependency`
    /// when the type of `b` is no structure with such a field.
    pub fn field_of(&self, b: TypedExpr, name: &String, position: Position) -> (r: Result<(EntityId, TypedExpr), Error>)
        requires
            self.wf(),
        ensures
            r is Ok <==> field_in(*self, b.ty, name@) is Some,
            r is Ok ==> {
                &&& r->Ok_0.0 == field_in(*self, b.ty, name@)->Some_0
                &&& self.arena.contains(r->Ok_0.0)
                &&& self.entity(r->Ok_0.0).kind is Field
                &&& r->Ok_0.1.ty == self.entity(r->Ok_0.0).ty
                &&& r->Ok_0.1.mutable == b.mutable
                &&& r->Ok_0.1.position == position
            },
            r is Err ==> r->Err_0.kind == ErrorKind::UnresolvedDependency && r->Err_0.name == *name,
    {
        let missing = Error::new(ErrorKind::UnresolvedDependency, name.clone()).with_position(position);
        let sid = match b.ty {
            Type::Structure(sid) => sid,
            _ => return Err(missing),
        };
        if sid.0 == 0 || sid.0 > self.arena.len() {
            return Err(missing);
        }
        let fs = match &self.arena.get(sid).kind {
            EntityInfo::Structure(info) => info.fields,
            _ => return Err(missing),
        };
        if fs >= self.scopes.len() {
            return Err(missing);
        }
        let fid = match self.scopes[fs].lookup_local(name) {
            Some(fid) => fid,
            None => return Err(missing),
        };
        proof {
            let j = choose|j: int| 0 <= j < self.scopes@[fs as int].entities@.len() && self.scopes@[fs as int].entities@[j] == fid;
            assert(self.arena.contains(self.scopes@[fs as int].entities@[j]));
        }
        let f = self.arena.get(fid);
        if !f.is_field() {
            return Err(missing);
        }
        let mutable = b.mutable;
        Ok((fid, TypedExpr { kind: TypedExprKind::Field(Box::new(b), fid), position, ty: f.ty, mutable }))
    }

    /// Resolves an expression; where a type is expected, the result has it or
    /// the expression is a type mismatch.
    pub fn resolve_expr(&mut self, scope: ScopeRef, e: &Expr, expected: Option<Type>) -> (r: Result<TypedExpr, Error>)
        requires
            old(self).wf(),
            scope < old(self).scopes@.len(),
        ensures
            final(self).grows_from(*old(self)),
            final(self).keeps(*old(self)),
            r is Ok ==> r->Ok_0.position == e.position,
            r is Ok && expected is Some ==> r->Ok_0.ty == expected->Some_0,
            r is Ok ==> literal_typed(*e, r->Ok_0),
            e.kind is Int ==> *final(self) == *old(self) && (r is Ok <==> (expected is None || expected == Some(Type::Int)))
                && (r is Ok ==> r->Ok_0.ty == Type::Int && !r->Ok_0.mutable),
            e.kind is Bool ==> *final(self) == *old(self) && (r is Ok <==> (expected is None || expected == Some(Type::Bool)))
                && (r is Ok ==> r->Ok_0.ty == Type::Bool && !r->Ok_0.mutable),
            e.kind is Int || e.kind is Bool ==> (r is Err ==> r->Err_0.kind == ErrorKind::TypeMismatch),
            e.kind is Name && old(self).lookup_in(scope as int, e.kind->Name_0@) is None ==> r is Err
                && r->Err_0.kind == ErrorKind::UnresolvedDependency && *final(self) == *old(self),
            e.kind is Name && expected is None && old(self).lookup_in(scope as int, e.kind->Name_0@) is Some ==> {
                let id = old(self).lookup_in(scope as int, e.kind->Name_0@)->Some_0;
                kind_is_resolved(old(self).entity(id).kind) && !kind_is_type(old(self).entity(id).kind)
                    ==> *final(self) == *old(self) && r is Ok && r->Ok_0.ty == old(self).entity(id).ty
                    && r->Ok_0.mutable == value_mutable(old(self).entity(id).kind)
            },
        decreases old(self).count(), 2nat, e, 0nat,
    {
        let r = match &e.kind {
            ExprKind::Int(n) => TypedExpr { kind: TypedExprKind::Int(*n), position: e.position, ty: Type::Int, mutable: false },
            ExprKind::Bool(b) => TypedExpr { kind: TypedExprKind::Bool(*b), position: e.position, ty: Type::Bool, mutable: false },
            ExprKind::Name(n) => self.resolve_name(scope, n, e.position)?.1,
            ExprKind::Field(base, name) => self.resolve_field(scope, base, name, e.position)?.1,
            ExprKind::Call(callee, args) => {
                let c = self.resolve_expr(scope, callee, None)?;
                let fid = match c.ty {
                    Type::Function(fid) => fid,
                    _ => {
                        let err = Error::new(ErrorKind::TypeMismatch, String::new());
                        return Err(err.with_position(e.position));
                    },
                };
                if fid.0 == 0 || fid.0 > self.arena.len() {
                    let err = Error::new(ErrorKind::UnresolvedDependency, String::new());
                    return Err(err.with_position(e.position));
                }
                let (ps, ret) = match &self.arena.get(fid).kind {
                    EntityInfo::Function(info) => (info.params, info.ret),
                    EntityInfo::AssociatedFunction(info) => (info.params, info.ret),
                    _ => {
                        let err = Error::new(ErrorKind::TypeMismatch, self.arena.get(fid).name.clone());
                        return Err(err.with_position(e.position));
                    },
                };
                if ps >= self.scopes.len() || self.scopes[ps].entities.len() != args.len() {
                    let err = Error::new(ErrorKind::TypeMismatch, self.arena.get(fid).name.clone());
                    return Err(err.with_position(e.position));
                }
                let mut param_types: Vec<Type> = Vec::new();
                let mut i: usize = 0;
                while i < args.len()
                    invariant
                        self.wf(),
                        ps < self.scopes@.len(),
                        self.scopes@[ps as int].entities@.len() == args@.len(),
                        i <= args@.len(),
                        param_types@.len() == i,
                    decreases args@.len() - i,
                {
                    let pid = self.scopes[ps].entities[i];
                    param_types.push(self.arena.get(pid).ty);
                    i = i + 1;
                }
                let mut typed: Vec<TypedExpr> = Vec::new();
                let mut i: usize = 0;
                while i < args.len()
                    invariant
                        self.grows_from(*old(self)),
                        self.keeps(*old(self)),
                        scope < self.scopes@.len(),
                        param_types@.len() == args@.len(),
                        i <= args@.len(),
                        e.kind is Call && e.kind->Call_1 == *args,
                    decreases args@.len() - i,
                {
                    proof {
                        assert(decreases_to!(*e => e.kind));
                        assert(decreases_to!(e.kind => *args));
                        assert(decreases_to!(*args => args[i as int]));
                    }
                    let a = self.resolve_expr(scope, &args[i], Some(param_types[i]))?;
                    typed.push(a);
                    i = i + 1;
                }
                TypedExpr { kind: TypedExprKind::Call(Box::new(c), typed), position: e.position, ty: ret, mutable: false }
            },
        };
        match expected {
            Some(t) => {
                if r.ty != t {
                    let err = Error::new(ErrorKind::TypeMismatch, String::new());
                    return Err(err.with_position(e.position));
                }
            },
            None => {},
        }
        Ok(TypedExpr { kind: r.kind, position: e.position, ty: r.ty, mutable: r.mutable })
    }
}

} // verus!
