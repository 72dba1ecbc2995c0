use vstd::prelude::*;

use crate::ast::{item_name, AssignmentOp, Expr, ExprKind, Item, Stmt, StmtKind};
use crate::entity::{same_path, kind_is_resolved, kind_is_type, Entity, EntityId, EntityInfo, Type};
use crate::error::{Error, ErrorKind};
use crate::mir::{Assignment, MirStmt, MirStmtKind, TypedExpr};
use crate::resolve::{in_field_cycle, item_default, records_default, field_in, kind_matches, literal_type, local_count, resolvable, value_mutable};
use crate::typer::{Typer, EXPR_RESULT_USED, ROOT_SCOPE};

verus! {

pub open spec fn assign_op(stmt: Stmt) -> AssignmentOp {
    match stmt.kind {
        StmtKind::Assignment { op, .. } => op,
        _ => AssignmentOp::Assign,
    }
}

pub open spec fn assign_lvalue(stmt: Stmt) -> Expr {
    match stmt.kind {
        StmtKind::Assignment { lvalue, .. } => *lvalue,
        _ => arbitrary(),
    }
}

pub open spec fn assign_rhs(stmt: Stmt) -> Expr {
    match stmt.kind {
        StmtKind::Assignment { rhs, .. } => *rhs,
        _ => arbitrary(),
    }
}

impl Typer {
    /// The entity that `lvalue` names from the current scope, when it is a name.
    pub open spec fn target_of(&self, lvalue: Expr) -> Option<EntityId> {
        match lvalue.kind {
            ExprKind::Name(n) => self.lookup_in(self.scope as int, n@),
            _ => None,
        }
    }

    /// `e` is a name bound, from the current scope, to a resolved value entity.
    pub open spec fn resolved_value_target(&self, e: Expr) -> bool {
        self.target_of(e) is Some && self.resolved_value(self.target_of(e)->Some_0)
    }

    /// `id` is a resolved entity that denotes a value rather than a type.
    pub open spec fn resolved_value(&self, id: EntityId) -> bool {
        kind_is_resolved(self.entity(id).kind) && !kind_is_type(self.entity(id).kind)
    }

    /// `lvalue` is a name bound, from the current scope, to a resolved value
    /// entity that may not be assigned to.
    pub open spec fn immutable_target(&self, lvalue: Expr) -> bool {
        &&& self.target_of(lvalue) is Some
        &&& self.resolved_value(self.target_of(lvalue)->Some_0)
        &&& !value_mutable(self.entity(self.target_of(lvalue)->Some_0).kind)
    }

    /// `lvalue` is a name bound, from the current scope, to a resolved value
    /// entity that may be assigned to.
    pub open spec fn mutable_target(&self, lvalue: Expr) -> bool {
        &&& self.target_of(lvalue) is Some
        &&& self.resolved_value(self.target_of(lvalue)->Some_0)
        &&& value_mutable(self.entity(self.target_of(lvalue)->Some_0).kind)
    }

    /// `lvalue = rhs` where `lvalue` names a resolved variable that may be
    /// changed and `rhs` is a literal of that variable's type.
    pub open spec fn assigns_literal_to_mutable(&self, stmt: Stmt) -> bool {
        &&& stmt.kind is Assignment
        &&& assign_op(stmt) == AssignmentOp::Assign
        &&& self.mutable_target(assign_lvalue(stmt))
        &&& literal_type(assign_rhs(stmt)) == Some(self.entity(self.target_of(assign_lvalue(stmt))->Some_0).ty)
    }

    /// `lvalue` is `base.f` where `base` names a resolved value entity from the
    /// current scope: that entity.
    pub open spec fn field_target_base(&self, lvalue: Expr) -> Option<EntityId> {
        match lvalue.kind {
            ExprKind::Field(base, _) => match self.target_of(*base) {
                Some(id) => if self.resolved_value(id) {
                    Some(id)
                } else {
                    None
                },
                None => None,
            },
            _ => None,
        }
    }

    /// The statement assigns to a field of a value entity that may not be
    /// changed, and the value's structure has that field.
    pub open spec fn assigns_immutable_field(&self, stmt: Stmt) -> bool {
        let lvalue = assign_lvalue(stmt);
        &&& stmt.kind is Assignment
        &&& self.field_target_base(lvalue) is Some
        &&& !value_mutable(self.entity(self.field_target_base(lvalue)->Some_0).kind)
        &&& field_in(*self, self.entity(self.field_target_base(lvalue)->Some_0).ty, lvalue.kind->Field_1@) is Some
    }

    /// The statement assigns to a field that the value's type does not have.
    pub open spec fn assigns_missing_field(&self, stmt: Stmt) -> bool {
        let lvalue = assign_lvalue(stmt);
        &&& stmt.kind is Assignment
        &&& self.field_target_base(lvalue) is Some
        &&& field_in(*self, self.entity(self.field_target_base(lvalue)->Some_0).ty, lvalue.kind->Field_1@) is None
    }

    /// The statement assigns to an immutable target.
    pub open spec fn assigns_immutable(&self, stmt: Stmt) -> bool {
        stmt.kind is Assignment && self.immutable_target(assign_lvalue(stmt))
    }

    /// An assignable place: the entity it denotes and its typed form.
    pub fn resolve_expr_to_entity(&mut self, scope: usize, e: &Expr) -> (r: Result<(EntityId, TypedExpr), Error>)
        requires
            old(self).wf(),
            scope < old(self).scopes@.len(),
        ensures
            final(self).grows_from(*old(self)),
            r is Ok ==> final(self).arena.contains(r->Ok_0.0) && r->Ok_0.1.ty == final(self).entity(r->Ok_0.0).ty,
            e.kind is Name ==> forall|id: EntityId| old(self).lookup_in(scope as int, e.kind->Name_0@) == Some(id)
                && #[trigger] kind_is_resolved(old(self).entity(id).kind) && !kind_is_type(old(self).entity(id).kind)
                ==> *final(self) == *old(self) && r is Ok && r->Ok_0.0 == id
                    && r->Ok_0.1.mutable == value_mutable(old(self).entity(id).kind),
            e.kind is Name && r is Ok ==> old(self).lookup_in(scope as int, e.kind->Name_0@) == Some(r->Ok_0.0),
            !(e.kind is Name) && !(e.kind is Field) ==> r is Err && r->Err_0.kind == ErrorKind::UnsupportedConstruct
                && *final(self) == *old(self),
            e.kind is Field && e.kind->Field_0.kind is Name && old(self).lookup_in(scope as int, e.kind->Field_0.kind->Name_0@) is Some ==> {
                let id = old(self).lookup_in(scope as int, e.kind->Field_0.kind->Name_0@)->Some_0;
                kind_is_resolved(old(self).entity(id).kind) && !kind_is_type(old(self).entity(id).kind) ==> {
                    let found = field_in(*old(self), old(self).entity(id).ty, e.kind->Field_1@);
                    &&& *final(self) == *old(self)
                    &&& (r is Ok <==> found is Some)
                    &&& r is Ok ==> r->Ok_0.0 == found->Some_0 && r->Ok_0.1.mutable == value_mutable(old(self).entity(id).kind)
                    &&& r is Err ==> r->Err_0.kind == ErrorKind::UnresolvedDependency
                }
            },
            e.kind is Name && old(self).lookup_in(scope as int, e.kind->Name_0@) is None ==> r is Err
                && r->Err_0.kind == ErrorKind::UnresolvedDependency && *final(self) == *old(self),
    {
        match &e.kind {
            ExprKind::Name(n) => self.resolve_name(scope, n, e.position),
            ExprKind::Field(base, name) => self.resolve_field(scope, base, name, e.position),
            _ => {
                let err = Error::new(ErrorKind::UnsupportedConstruct, String::new());
                Err(err.with_position(e.position))
            },
        }
    }

    /// The entity that the module scope binds to the item's name, if any.
    pub open spec fn declared_for(&self, item: Item) -> Option<EntityId> {
        self.scopes@[ROOT_SCOPE as int].local(item_name(item))
    }

    /// Resolving `item` at module level is owed success: the entity declared
    /// for it is resolved already or resolvable, or none is declared and the
    /// item itself is resolvable.
    pub open spec fn top_level_resolvable(&self, item: Item) -> bool {
        match self.declared_for(item) {
            Some(id) => kind_is_resolved(self.entity(id).kind) || (self.entity(id).kind is Unresolved
                && resolvable(*self, ROOT_SCOPE as int, *self.entity(id).kind->Unresolved_0)
                && self.arena.entities@.len() + local_count(*self.entity(id).kind->Unresolved_0) + 3 < usize::MAX),
            None => resolvable(*self, ROOT_SCOPE as int, item) && self.arena.entities@.len() + local_count(item) + 4 < usize::MAX,
        }
    }

    /// A nested declaration: resolved first, then bound in `scope`, so that
    /// only earlier declarations are visible to it.
    pub fn resolve_item(&mut self, scope: usize, item: &Item) -> (r: Result<EntityId, Error>)
        requires
            old(self).wf(),
            scope < old(self).scopes@.len(),
        ensures
            final(self).grows_from(*old(self)),
            r is Ok ==> final(self).arena.contains(r->Ok_0) && kind_is_resolved(final(self).entity(r->Ok_0).kind),
            r is Ok ==> kind_matches(*item, final(self).entity(r->Ok_0).kind),
            r is Ok ==> final(self).scopes@[scope as int].local(item_name(*item)) == Some(r->Ok_0),
            r is Ok ==> same_path(final(self).entity(r->Ok_0).path, old(self).root_path),
            r is Ok && item_default(*item) is Some ==> records_default(final(self).entity(r->Ok_0), item_default(*item)->Some_0),
            resolvable(*old(self), scope as int, *item)
                && old(self).arena.entities@.len() + local_count(*item) + 4 < usize::MAX ==> r is Ok,
    {
        let name = item.name().clone();
        let id = self.add_entity(item.visibility, name.clone(), Type::Invalid, EntityInfo::Resolving, crate::entity::Path::empty())?;
        proof {
            if resolvable(*old(self), scope as int, *item) {
                assert forall|x: EntityId| #[trigger] old(self).arena.contains(x) && x != id
                    implies self.entity(x) == old(self).entity(x) by {
                    assert(self.arena.entities@.drop_last()[x.0 - 1] == old(self).arena.entities@[x.0 - 1]);
                }
                crate::resolve::lemma_resolvable_frame(*old(self), *self, scope as int, *item, id);
            }
        }
        let path = self.root_path.duplicate();
        self.resolve_declared(id, item, scope, path, false)?;
        self.bind(scope, name, id);
        proof {
            let sc = self.scopes@[scope as int];
            assert(sc.names@.last()@ == item_name(*item));
            assert(crate::scope::last_index_of(sc.names@, item_name(*item), sc.names@.len() as int) == sc.names@.len() - 1);
        }
        Ok(id)
    }

    /// A module-level declaration: the entity that the first pass declared
    /// for its name, resolved if it is not yet; otherwise resolved as a new one.
    pub fn resolve_top_level_item(&mut self, item: &Item) -> (r: Result<EntityId, Error>)
        requires
            old(self).wf(),
        ensures
            final(self).grows_from(*old(self)),
            r is Ok ==> final(self).arena.contains(r->Ok_0) && kind_is_resolved(final(self).entity(r->Ok_0).kind),
            old(self).top_level_resolvable(*item) ==> r is Ok,
            old(self).declared_for(*item) is Some ==> {
                let id = old(self).declared_for(*item)->Some_0;
                &&& r is Ok ==> r->Ok_0 == id
                &&& kind_is_resolved(old(self).entity(id).kind) ==> r == Ok::<EntityId, Error>(id) && *final(self) == *old(self)
                &&& old(self).entity(id).kind is Resolving ==> r is Err && r->Err_0.kind == ErrorKind::CircularDefinition
                    && r->Err_0.name == old(self).entity(id).name && *final(self) == *old(self)
                &&& old(self).entity(id).kind is Unresolved && r is Ok
                    ==> kind_matches(*old(self).entity(id).kind->Unresolved_0, final(self).entity(id).kind)
                    && same_path(final(self).entity(id).path, old(self).root_path)
                &&& r is Err ==> !kind_is_resolved(final(self).entity(id).kind)
                &&& in_field_cycle(*old(self), id) ==> r is Err && r->Err_0.kind == ErrorKind::CircularDefinition
            },
            old(self).declared_for(*item) is None && r is Ok ==> kind_matches(*item, final(self).entity(r->Ok_0).kind)
                && same_path(final(self).entity(r->Ok_0).path, old(self).root_path),
    {
        let found = self.scopes[ROOT_SCOPE].lookup_local(item.name());
        match found {
            Some(id) => {
                proof {
                    let j = choose|j: int| 0 <= j < self.scopes@[ROOT_SCOPE as int].entities@.len()
                        && self.scopes@[ROOT_SCOPE as int].entities@[j] == id;
                    assert(self.arena.contains(self.scopes@[ROOT_SCOPE as int].entities@[j]));
                }
                self.resolve_entity(id)
            },
            None => self.resolve_item(ROOT_SCOPE, item),
        }
    }

    /// First pass over a module: binds the declaration in the module scope as
    /// an `Unresolved` entity that keeps the raw item.
    pub fn declare_top_level(&mut self, item: Box<Item>) -> (r: Result<EntityId, Error>)
        requires
            old(self).wf(),
        ensures
            final(self).wf(),
            final(self).scope == old(self).scope,
            final(self).state == old(self).state,
            final(self).arena.entities@.len() >= old(self).arena.entities@.len(),
            r is Err ==> *final(self) == *old(self) && r->Err_0.kind == ErrorKind::TooManyEntities,
            old(self).arena.entities@.len() + 2 < usize::MAX ==> r is Ok,
            r is Ok ==> {
                &&& final(self).arena.contains(r->Ok_0)
                &&& final(self).entity(r->Ok_0).kind == EntityInfo::Unresolved(item)
                &&& final(self).scopes@[ROOT_SCOPE as int].local(crate::ast::item_name(*item)) == Some(r->Ok_0)
            },
    {
        if self.arena.len() >= usize::MAX - 2 {
            return Err(Error::new(ErrorKind::TooManyEntities, item.name().clone()));
        }
        let name = item.name().clone();
        let e = Entity::unresolved(&mut self.arena.ids, item.visibility, name.clone(), item, Type::Invalid);
        let id = e.id;
        let ghost before = self.arena.entities@;
        self.arena.entities.push(e);
        proof {
            assert forall|s: int, j: int| 0 <= s < self.scopes@.len() && 0 <= j < self.scopes@[s].entities@.len()
                implies self.arena.contains(#[trigger] self.scopes@[s].entities@[j]) by {
                assert(old(self).arena.contains(self.scopes@[s].entities@[j]));
            }
        }
        self.bind(ROOT_SCOPE, name, id);
        proof {
            let sc = self.scopes@[ROOT_SCOPE as int];
            assert(sc.names@.last()@ == crate::ast::item_name(*item));
        }
        Ok(id)
    }

    /// Resolves a module: declares every item first, so that items may refer
    /// to later ones, then resolves each; an item that fails does not stop the
    /// others, and every failure is reported.
    pub fn resolve_module(&mut self, items: Vec<Item>) -> (r: (Vec<EntityId>, Vec<Error>))
        requires
            old(self).wf(),
        ensures
            final(self).wf(),
            r.0@.len() + r.1@.len() == items@.len(),
            forall|i: int| 0 <= i < r.0@.len() ==> final(self).arena.contains(#[trigger] r.0@[i])
                && kind_is_resolved(final(self).entity(r.0@[i]).kind),
    {
        let mut declared: Vec<EntityId> = Vec::new();
        let mut errors: Vec<Error> = Vec::new();
        let n = items.len();
        let mut rest = items;
        while rest.len() > 0
            invariant
                self.wf(),
                declared@.len() + errors@.len() + rest@.len() == n,
                forall|i: int| 0 <= i < declared@.len() ==> self.arena.contains(#[trigger] declared@[i]),
            decreases rest@.len(),
        {
            let item = rest.remove(0);
            match self.declare_top_level(Box::new(item)) {
                Ok(id) => declared.push(id),
                Err(err) => errors.push(err),
            }
        }
        let mut resolved: Vec<EntityId> = Vec::new();
        let mut i: usize = 0;
        while i < declared.len()
            invariant
                self.wf(),
                i <= declared@.len(),
                resolved@.len() + (errors@.len() + declared@.len() - i) == n,
                forall|j: int| 0 <= j < declared@.len() ==> self.arena.contains(#[trigger] declared@[j]),
                forall|j: int| 0 <= j < resolved@.len() ==> self.arena.contains(#[trigger] resolved@[j])
                    && kind_is_resolved(self.entity(resolved@[j]).kind),
            decreases declared@.len() - i,
        {
            let ghost before = *self;
            match self.resolve_entity(declared[i]) {
                Ok(id) => resolved.push(id),
                Err(err) => errors.push(err),
            }
            proof {
                assert forall|j: int| 0 <= j < resolved@.len() implies self.arena.contains(#[trigger] resolved@[j])
                    && kind_is_resolved(self.entity(resolved@[j]).kind) by {
                    let x = resolved@[j];
                    assert(before.arena.entities@[x.0 - 1] == before.entity(x));
                }
            }
            i = i + 1;
        }
        (resolved, errors)
    }

    /// Resolves a statement nested in a block.
    pub fn resolve_stmt(&mut self, stmt: &Stmt) -> (r: Result<MirStmt, Error>)
        requires
            old(self).wf(),
            !(stmt.kind is Empty),
        ensures
            final(self).grows_from(*old(self)),
            r is Ok && (stmt.kind is Item || stmt.kind is Assignment) ==> r->Ok_0.ty == Type::Unit,
            r is Ok && stmt.kind is Item ==> r->Ok_0.position == stmt.kind->Item_0.position,
            r is Ok && stmt.kind is Expr ==> r->Ok_0.position == stmt.kind->Expr_0.position,
            r is Ok && stmt.kind is Assignment ==> r->Ok_0.position == stmt.position
                && r->Ok_0.kind->Assignment_0.rhs.position == assign_rhs(*stmt).position,
            r is Ok && stmt.kind is Assignment && assign_lvalue(*stmt).kind is Name
                ==> old(self).target_of(assign_lvalue(*stmt)) == Some(r->Ok_0.kind->Assignment_0.lvalue),
            old(self).assigns_immutable(*stmt) ==> r is Err && r->Err_0.kind == ErrorKind::ImmutableTarget
                && *final(self) == *old(self)
                && r->Err_0.name@ == old(self).entity(old(self).target_of(assign_lvalue(*stmt))->Some_0).name@
                && r->Err_0.position == Some(assign_lvalue(*stmt).position),
            stmt.kind is Assignment && assign_op(*stmt) != AssignmentOp::Assign && old(self).mutable_target(assign_lvalue(*stmt))
                ==> r is Err && r->Err_0.kind == ErrorKind::UnsupportedConstruct && *final(self) == *old(self),
            stmt.kind is Assignment && assign_lvalue(*stmt).kind is Name && old(self).target_of(assign_lvalue(*stmt)) is None
                ==> r is Err && r->Err_0.kind == ErrorKind::UnresolvedDependency && *final(self) == *old(self),
            old(self).assigns_literal_to_mutable(*stmt) ==> r is Ok && *final(self) == *old(self),
            r is Ok && stmt.kind is Assignment && old(self).resolved_value_target(assign_lvalue(*stmt))
                ==> r->Ok_0.kind->Assignment_0.rhs.ty == old(self).entity(old(self).target_of(assign_lvalue(*stmt))->Some_0).ty,
            stmt.kind is Assignment && !(assign_lvalue(*stmt).kind is Name) && !(assign_lvalue(*stmt).kind is Field)
                ==> r is Err && r->Err_0.kind == ErrorKind::UnsupportedConstruct && *final(self) == *old(self),
            stmt.kind is Assignment && assign_op(*stmt) == AssignmentOp::Assign && old(self).mutable_target(assign_lvalue(*stmt))
                && assign_rhs(*stmt).kind is Name && old(self).lookup_in(old(self).scope as int, assign_rhs(*stmt).kind->Name_0@) is None
                ==> r is Err && r->Err_0.kind == ErrorKind::UnresolvedDependency && *final(self) == *old(self),
            stmt.kind is Expr && stmt.kind->Expr_0.kind is Name
                && old(self).lookup_in(old(self).scope as int, stmt.kind->Expr_0.kind->Name_0@) is None
                ==> r is Err && r->Err_0.kind == ErrorKind::UnresolvedDependency,
            stmt.kind is Expr && stmt.kind->Expr_0.kind is Name && old(self).resolved_value_target(*stmt.kind->Expr_0)
                ==> r is Ok && r->Ok_0.ty == old(self).entity(old(self).target_of(*stmt.kind->Expr_0)->Some_0).ty,
            stmt.kind is Assignment && assign_op(*stmt) == AssignmentOp::Assign && old(self).mutable_target(assign_lvalue(*stmt))
                && literal_type(assign_rhs(*stmt)) is Some
                && literal_type(assign_rhs(*stmt)) != Some(old(self).entity(old(self).target_of(assign_lvalue(*stmt))->Some_0).ty)
                ==> r is Err && r->Err_0.kind == ErrorKind::TypeMismatch && *final(self) == *old(self),
            old(self).assigns_immutable_field(*stmt) ==> r is Err && r->Err_0.kind == ErrorKind::ImmutableTarget
                && *final(self) == *old(self) && r->Err_0.position == Some(assign_lvalue(*stmt).position),
            old(self).assigns_missing_field(*stmt) ==> r is Err && r->Err_0.kind == ErrorKind::UnresolvedDependency
                && *final(self) == *old(self),
            stmt.kind is Expr && stmt.kind->Expr_0.kind is Int ==> r is Ok && r->Ok_0.ty == Type::Int,
            stmt.kind is Expr && stmt.kind->Expr_0.kind is Bool ==> r is Ok && r->Ok_0.ty == Type::Bool,
            r is Ok && stmt.kind is Expr ==> r->Ok_0.kind is Expr && r->Ok_0.ty == r->Ok_0.kind->Expr_0.ty,
            r is Ok && stmt.kind is Item ==> r->Ok_0.kind is Item && final(self).arena.contains(r->Ok_0.kind->Item_0)
                && kind_is_resolved(final(self).entity(r->Ok_0.kind->Item_0).kind),
            r is Ok && stmt.kind is Assignment ==> r->Ok_0.kind is Assignment
                && r->Ok_0.kind->Assignment_0.op == AssignmentOp::Assign
                && final(self).arena.contains(r->Ok_0.kind->Assignment_0.lvalue),
            r is Ok && stmt.kind is Item ==> kind_matches(*stmt.kind->Item_0, final(self).entity(r->Ok_0.kind->Item_0).kind),
            r is Ok && stmt.kind is Item ==> final(self).scopes@[old(self).scope as int].local(item_name(*stmt.kind->Item_0))
                == Some(r->Ok_0.kind->Item_0),
            r is Ok && stmt.kind is Item
                ==> same_path(final(self).entity(r->Ok_0.kind->Item_0).path, old(self).root_path),
            r is Ok && stmt.kind is Item && item_default(*stmt.kind->Item_0) is Some
                ==> records_default(final(self).entity(r->Ok_0.kind->Item_0), item_default(*stmt.kind->Item_0)->Some_0),
            stmt.kind is Item && resolvable(*old(self), old(self).scope as int, *stmt.kind->Item_0)
                && old(self).arena.entities@.len() + local_count(*stmt.kind->Item_0) + 4 < usize::MAX ==> r is Ok,
    {
        self.resolve_stmt_inner(stmt, false)
    }

    /// Resolves a statement into typed IR. An item statement and an assignment
    /// have the unit type; an expression statement has its expression's type.
    /// An assignment to an immutable target fails before its right-hand side
    /// is looked at.
    pub fn resolve_stmt_inner(&mut self, stmt: &Stmt, top_level: bool) -> (r: Result<MirStmt, Error>)
        requires
            old(self).wf(),
            !(stmt.kind is Empty),
        ensures
            final(self).grows_from(*old(self)),
            r is Ok && (stmt.kind is Item || stmt.kind is Assignment) ==> r->Ok_0.ty == Type::Unit,
            r is Ok && stmt.kind is Item ==> r->Ok_0.position == stmt.kind->Item_0.position,
            r is Ok && stmt.kind is Expr ==> r->Ok_0.position == stmt.kind->Expr_0.position,
            r is Ok && stmt.kind is Assignment ==> r->Ok_0.position == stmt.position
                && r->Ok_0.kind->Assignment_0.rhs.position == assign_rhs(*stmt).position,
            r is Ok && stmt.kind is Assignment && assign_lvalue(*stmt).kind is Name
                ==> old(self).target_of(assign_lvalue(*stmt)) == Some(r->Ok_0.kind->Assignment_0.lvalue),
            old(self).assigns_immutable(*stmt) ==> r is Err && r->Err_0.kind == ErrorKind::ImmutableTarget
                && *final(self) == *old(self)
                && r->Err_0.name@ == old(self).entity(old(self).target_of(assign_lvalue(*stmt))->Some_0).name@
                && r->Err_0.position == Some(assign_lvalue(*stmt).position),
            stmt.kind is Assignment && assign_op(*stmt) != AssignmentOp::Assign && old(self).mutable_target(assign_lvalue(*stmt))
                ==> r is Err && r->Err_0.kind == ErrorKind::UnsupportedConstruct && *final(self) == *old(self),
            stmt.kind is Assignment && assign_lvalue(*stmt).kind is Name && old(self).target_of(assign_lvalue(*stmt)) is None
                ==> r is Err && r->Err_0.kind == ErrorKind::UnresolvedDependency && *final(self) == *old(self),
            old(self).assigns_literal_to_mutable(*stmt) ==> r is Ok && *final(self) == *old(self),
            r is Ok && stmt.kind is Assignment && old(self).resolved_value_target(assign_lvalue(*stmt))
                ==> r->Ok_0.kind->Assignment_0.rhs.ty == old(self).entity(old(self).target_of(assign_lvalue(*stmt))->Some_0).ty,
            stmt.kind is Assignment && !(assign_lvalue(*stmt).kind is Name) && !(assign_lvalue(*stmt).kind is Field)
                ==> r is Err && r->Err_0.kind == ErrorKind::UnsupportedConstruct && *final(self) == *old(self),
            stmt.kind is Assignment && assign_op(*stmt) == AssignmentOp::Assign && old(self).mutable_target(assign_lvalue(*stmt))
                && assign_rhs(*stmt).kind is Name && old(self).lookup_in(old(self).scope as int, assign_rhs(*stmt).kind->Name_0@) is None
                ==> r is Err && r->Err_0.kind == ErrorKind::UnresolvedDependency && *final(self) == *old(self),
            stmt.kind is Expr && stmt.kind->Expr_0.kind is Name
                && old(self).lookup_in(old(self).scope as int, stmt.kind->Expr_0.kind->Name_0@) is None
                ==> r is Err && r->Err_0.kind == ErrorKind::UnresolvedDependency,
            stmt.kind is Expr && stmt.kind->Expr_0.kind is Name && old(self).resolved_value_target(*stmt.kind->Expr_0)
                ==> r is Ok && r->Ok_0.ty == old(self).entity(old(self).target_of(*stmt.kind->Expr_0)->Some_0).ty,
            stmt.kind is Assignment && assign_op(*stmt) == AssignmentOp::Assign && old(self).mutable_target(assign_lvalue(*stmt))
                && literal_type(assign_rhs(*stmt)) is Some
                && literal_type(assign_rhs(*stmt)) != Some(old(self).entity(old(self).target_of(assign_lvalue(*stmt))->Some_0).ty)
                ==> r is Err && r->Err_0.kind == ErrorKind::TypeMismatch && *final(self) == *old(self),
            old(self).assigns_immutable_field(*stmt) ==> r is Err && r->Err_0.kind == ErrorKind::ImmutableTarget
                && *final(self) == *old(self) && r->Err_0.position == Some(assign_lvalue(*stmt).position),
            old(self).assigns_missing_field(*stmt) ==> r is Err && r->Err_0.kind == ErrorKind::UnresolvedDependency
                && *final(self) == *old(self),
            stmt.kind is Expr && stmt.kind->Expr_0.kind is Int ==> r is Ok && r->Ok_0.ty == Type::Int,
            stmt.kind is Expr && stmt.kind->Expr_0.kind is Bool ==> r is Ok && r->Ok_0.ty == Type::Bool,
            r is Ok && stmt.kind is Expr ==> r->Ok_0.kind is Expr && r->Ok_0.ty == r->Ok_0.kind->Expr_0.ty,
            r is Ok && stmt.kind is Item ==> r->Ok_0.kind is Item && final(self).arena.contains(r->Ok_0.kind->Item_0)
                && kind_is_resolved(final(self).entity(r->Ok_0.kind->Item_0).kind),
            r is Ok && stmt.kind is Assignment ==> r->Ok_0.kind is Assignment
                && r->Ok_0.kind->Assignment_0.op == AssignmentOp::Assign
                && final(self).arena.contains(r->Ok_0.kind->Assignment_0.lvalue),
            !top_level && r is Ok && stmt.kind is Item ==> kind_matches(*stmt.kind->Item_0, final(self).entity(r->Ok_0.kind->Item_0).kind),
            !top_level && r is Ok && stmt.kind is Item ==> final(self).scopes@[old(self).scope as int].local(item_name(*stmt.kind->Item_0))
                == Some(r->Ok_0.kind->Item_0),
            (!top_level || old(self).declared_for(*stmt.kind->Item_0) is None) && r is Ok && stmt.kind is Item
                ==> same_path(final(self).entity(r->Ok_0.kind->Item_0).path, old(self).root_path),
            !top_level && r is Ok && stmt.kind is Item && item_default(*stmt.kind->Item_0) is Some
                ==> records_default(final(self).entity(r->Ok_0.kind->Item_0), item_default(*stmt.kind->Item_0)->Some_0),
            !top_level && stmt.kind is Item && resolvable(*old(self), old(self).scope as int, *stmt.kind->Item_0)
                && old(self).arena.entities@.len() + local_count(*stmt.kind->Item_0) + 4 < usize::MAX ==> r is Ok,
            top_level && stmt.kind is Item && old(self).top_level_resolvable(*stmt.kind->Item_0) ==> r is Ok,
            top_level && stmt.kind is Item && old(self).declared_for(*stmt.kind->Item_0) is Some ==> {
                let id = old(self).declared_for(*stmt.kind->Item_0)->Some_0;
                &&& r is Ok ==> r->Ok_0.kind == MirStmtKind::Item(id)
                &&& kind_is_resolved(old(self).entity(id).kind) ==> r is Ok && *final(self) == *old(self)
                &&& old(self).entity(id).kind is Resolving ==> r is Err && r->Err_0.kind == ErrorKind::CircularDefinition
                    && r->Err_0.name == old(self).entity(id).name && *final(self) == *old(self)
                &&& old(self).entity(id).kind is Unresolved && r is Ok
                    ==> kind_matches(*old(self).entity(id).kind->Unresolved_0, final(self).entity(id).kind)
                    && same_path(final(self).entity(id).path, old(self).root_path)
                &&& r is Err ==> !kind_is_resolved(final(self).entity(id).kind)
                &&& in_field_cycle(*old(self), id) ==> r is Err && r->Err_0.kind == ErrorKind::CircularDefinition
            },
            top_level && stmt.kind is Item && old(self).declared_for(*stmt.kind->Item_0) is None && r is Ok
                ==> kind_matches(*stmt.kind->Item_0, final(self).entity(r->Ok_0.kind->Item_0).kind),
    {
        let scope = self.scope;
        match &stmt.kind {
            StmtKind::Expr(expr) => {
                let old_state = self.state;
                self.state = self.state & !EXPR_RESULT_USED;
                let res = self.resolve_expr(scope, expr, None);
                self.state = old_state;
                let expr = res?;
                let position = expr.position();
                let ty = expr.ty();
                Ok(MirStmt::new(MirStmtKind::Expr(expr), position, ty))
            },
            StmtKind::Item(item) => {
                let entity = if top_level {
                    self.resolve_top_level_item(item)?
                } else {
                    self.resolve_item(scope, item)?
                };
                Ok(MirStmt::new(MirStmtKind::Item(entity), item.position, Type::Unit))
            },
            StmtKind::Assignment { op, lvalue, rhs } => {
                let (entity, mir_lvalue) = self.resolve_expr_to_entity(scope, lvalue)?;
                if !mir_lvalue.mutable {
                    let err = Error::immutable_entity(self.arena.get(entity).name());
                    return Err(err.with_position(lvalue.position));
                }
                match op {
                    AssignmentOp::Assign => {
                        let lvalue_type = mir_lvalue.ty();
                        let rhs = self.resolve_expr(scope, rhs, Some(lvalue_type))?;
                        let assignment = Assignment { op: *op, lvalue: entity, rhs };
                        Ok(MirStmt::new(MirStmtKind::Assignment(assignment), stmt.position, Type::Unit))
                    },
                    _ => {
                        let err = Error::new(ErrorKind::UnsupportedConstruct, self.arena.get(entity).name.clone());
                        Err(err.with_position(stmt.position))
                    },
                }
            },
            StmtKind::Empty => unreached(),
        }
    }
}

} // verus!
