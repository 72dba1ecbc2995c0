use vstd::prelude::*;

use crate::ast::Visibility;
use crate::entity::{
    kind_is_resolved, Entity, EntityArena, EntityId, EntityInfo, Path, ScopeRef, Type,
};
use crate::error::{Error, ErrorKind};
use crate::scope::{lookup_spec, Scope};

verus! {

/// Set while the value of the expression being resolved is used.
pub const EXPR_RESULT_USED: u8 = 1;

/// The module scope: where top-level declarations are bound and resolved.
pub const ROOT_SCOPE: usize = 0;

/// How many entities still wait in the `Unresolved` state.
pub open spec fn unresolved_count(s: Seq<Entity>) -> nat
    decreases s.len(),
{
    if s.len() == 0 {
        0
    } else {
        unresolved_count(s.drop_last()) + if s.last().kind is Unresolved {
            1nat
        } else {
            0nat
        }
    }
}

proof fn lemma_count_update(s: Seq<Entity>, i: int, e: Entity)
    requires
        0 <= i < s.len(),
    ensures
        unresolved_count(s.update(i, e)) + (if s[i].kind is Unresolved { 1nat } else { 0nat })
            == unresolved_count(s) + (if e.kind is Unresolved { 1nat } else { 0nat }),
    decreases s.len(),
{
    let t = s.update(i, e);
    if i < s.len() - 1 {
        assert(t.drop_last() =~= s.drop_last().update(i, e));
        lemma_count_update(s.drop_last(), i, e);
    } else {
        assert(t.drop_last() =~= s.drop_last());
    }
}

proof fn lemma_count_push(s: Seq<Entity>, e: Entity)
    ensures
        unresolved_count(s.push(e)) == unresolved_count(s) + (if e.kind is Unresolved { 1nat } else { 0nat }),
{
    assert(s.push(e).drop_last() =~= s);
}

pub open spec fn field_or_param(k: EntityInfo) -> bool {
    k is Field || k is Param
}

/// `b` differs from `a` only in the entity `id`, which keeps its identity:
/// `b` is well-formed, every other entity is unchanged, and the count of
/// unresolved entities moves only by what `id` was and became.
proof fn lemma_update_one(a: Typer, b: Typer, id: EntityId)
    requires
        a.wf(),
        a.arena.contains(id),
        b.scopes == a.scopes,
        b.scope == a.scope,
        b.arena.ids == a.arena.ids,
        b.arena.entities@.len() == a.arena.entities@.len(),
        b.arena.entities@[id.0 - 1].id == id,
        forall|k: int| 0 <= k < a.arena.entities@.len() && k != id.0 - 1 ==> b.arena.entities@[k] == a.arena.entities@[k],
    ensures
        b.wf(),
        b.arena.entities@ == a.arena.entities@.update(id.0 - 1, b.arena.entities@[id.0 - 1]),
        unresolved_count(b.arena.entities@) + (if a.entity(id).kind is Unresolved { 1nat } else { 0nat })
            == unresolved_count(a.arena.entities@) + (if b.entity(id).kind is Unresolved { 1nat } else { 0nat }),
        forall|other: EntityId| #[trigger] a.arena.contains(other) && other != id ==> b.entity(other) == a.entity(other),
{
    let i = id.0 - 1;
    assert(b.arena.entities@ =~= a.arena.entities@.update(i, b.arena.entities@[i]));
    lemma_count_update(a.arena.entities@, i, b.arena.entities@[i]);
    assert forall|s: int, j: int| 0 <= s < b.scopes@.len() && 0 <= j < b.scopes@[s].entities@.len()
        implies b.arena.contains(#[trigger] b.scopes@[s].entities@[j]) by {
        assert(a.arena.contains(a.scopes@[s].entities@[j]));
    }
    assert forall|other: EntityId| #[trigger] a.arena.contains(other) && other != id
        implies b.entity(other) == a.entity(other) by {
        assert(other.0 - 1 != i);
    }
}

/// The resolution driver: every entity, every scope, and the scope that
/// statements are resolved in.
#[derive(Debug)]
pub struct Typer {
    pub arena: EntityArena,
    pub scopes: Vec<Scope>,
    pub scope: ScopeRef,
    pub state: u8,
    pub root_path: Path,
}

impl Typer {
    pub open spec fn wf(&self) -> bool {
        &&& self.arena.wf()
        &&& ROOT_SCOPE < self.scopes@.len()
        &&& self.scope < self.scopes@.len()
        &&& forall|s: int| 0 <= s < self.scopes@.len() ==> (#[trigger] self.scopes@[s]).wf()
        &&& forall|s: int| 0 <= s < self.scopes@.len() && (#[trigger] self.scopes@[s]).parent is Some
            ==> self.scopes@[s].parent->Some_0 < s
        &&& forall|s: int, j: int| 0 <= s < self.scopes@.len() && 0 <= j < self.scopes@[s].entities@.len()
            ==> self.arena.contains(#[trigger] self.scopes@[s].entities@[j])
    }

    pub open spec fn count(&self) -> nat {
        unresolved_count(self.arena.entities@)
    }

    pub open spec fn entity(&self, id: EntityId) -> Entity {
        self.arena.entity(id)
    }

    /// What every resolution step keeps: well-formedness, no entity or scope
    /// removed, no new `Unresolved` entity, and the current scope and flags.
    pub open spec fn grows_from(&self, old: Typer) -> bool {
        &&& self.wf()
        &&& self.count() <= old.count()
        &&& self.arena.entities@.len() >= old.arena.entities@.len()
        &&& self.scopes@.len() >= old.scopes@.len()
        &&& self.scope == old.scope
        &&& self.state == old.state
        &&& self.root_path == old.root_path
    }

    /// What resolution of a declaration keeps: every scope that existed stays
    /// as it was, every field or parameter entity stays as it was, no other
    /// entity becomes one, and a resolved entity stays resolved.
    pub open spec fn keeps(&self, old: Typer) -> bool {
        &&& forall|s: int| 0 <= s < old.scopes@.len() ==> #[trigger] self.scopes@[s] == old.scopes@[s]
        &&& forall|i: int| #![trigger self.arena.entities@[i]] 0 <= i < old.arena.entities@.len() ==> {
            &&& (field_or_param(old.arena.entities@[i].kind) ==> self.arena.entities@[i] == old.arena.entities@[i])
            &&& (!field_or_param(old.arena.entities@[i].kind) ==> !field_or_param(self.arena.entities@[i].kind))
            &&& (kind_is_resolved(old.arena.entities@[i].kind) ==> kind_is_resolved(self.arena.entities@[i].kind))
        }
    }

    /// The binding that `name` has from scope `s`.
    pub open spec fn lookup_in(&self, s: int, name: Seq<char>) -> Option<EntityId> {
        lookup_spec(self.scopes@, s, name)
    }

    /// A typer with the module scope holding the primitive types `int`, `bool` and `unit`.
    pub fn new(module_name: &str) -> (r: Typer)
        ensures
            r.wf(),
            r.scope == ROOT_SCOPE,
            r.state == 0,
            r.count() == 0,
            r.arena.entities@.len() == 3,
            r.root_path.segments@.len() == 1,
            crate::entity::segment_name(r.root_path.segments@[0]) == module_name@,
            crate::resolve::primitive_named(r, ROOT_SCOPE as int, "int"@)
                && crate::resolve::primitive_type(r, ROOT_SCOPE as int, "int"@) == Type::Int,
            crate::resolve::primitive_named(r, ROOT_SCOPE as int, "bool"@)
                && crate::resolve::primitive_type(r, ROOT_SCOPE as int, "bool"@) == Type::Bool,
            crate::resolve::primitive_named(r, ROOT_SCOPE as int, "unit"@)
                && crate::resolve::primitive_type(r, ROOT_SCOPE as int, "unit"@) == Type::Unit,
    {
        let mut root_path = Path::empty();
        root_path.push_path(module_name);
        let mut scopes: Vec<Scope> = Vec::new();
        scopes.push(Scope::new(None));
        let mut t = Typer { arena: EntityArena::new(), scopes, scope: ROOT_SCOPE, state: 0, root_path };
        proof {
            assert(t.arena.entities@ =~= Seq::<Entity>::empty());
        }
        t.add_primitive("int".to_string(), Type::Int);
        t.add_primitive("bool".to_string(), Type::Bool);
        t.add_primitive("unit".to_string(), Type::Unit);
        proof {
            reveal_strlit("int");
            reveal_strlit("bool");
            reveal_strlit("unit");
            let root = t.scopes@[ROOT_SCOPE as int];
            assert(root.names@.len() == 3);
            assert(root.names@[0]@ == "int"@ && root.names@[1]@ == "bool"@ && root.names@[2]@ == "unit"@);
            assert("int"@[0] == 'i' && "bool"@[0] == 'b' && "unit"@[0] == 'u');
            assert("int"@ != "bool"@ && "int"@ != "unit"@ && "bool"@ != "unit"@);
            assert(crate::scope::last_index_of(root.names@, "unit"@, 3) == 2);
            assert(crate::scope::last_index_of(root.names@, "bool"@, 0) == -1);
            assert(root.names@[0]@ != "bool"@);
            assert(crate::scope::last_index_of(root.names@, "bool"@, 1) == -1);
            assert(crate::scope::last_index_of(root.names@, "bool"@, 2) == 1);
            assert(root.names@[2]@ != "bool"@);
            assert(crate::scope::last_index_of(root.names@, "bool"@, 3) == 1);
            assert(crate::scope::last_index_of(root.names@, "int"@, 1) == 0);
            assert(crate::scope::last_index_of(root.names@, "int"@, 2) == 0);
            assert(crate::scope::last_index_of(root.names@, "int"@, 3) == 0);
        }
        t
    }

    fn add_primitive(&mut self, name: String, ty: Type)
        requires
            old(self).wf(),
            old(self).arena.entities@.len() < 3,
            old(self).count() == 0,
        ensures
            final(self).wf(),
            final(self).scope == old(self).scope,
            final(self).state == old(self).state,
            final(self).count() == 0,
            final(self).arena.entities@.len() == old(self).arena.entities@.len() + 1,
            final(self).root_path == old(self).root_path,
            final(self).scopes@.len() == old(self).scopes@.len(),
            final(self).scopes@[ROOT_SCOPE as int].names@ == old(self).scopes@[ROOT_SCOPE as int].names@.push(name),
            final(self).scopes@[ROOT_SCOPE as int].entities@
                == old(self).scopes@[ROOT_SCOPE as int].entities@.push(EntityId((old(self).arena.entities@.len() + 1) as usize)),
            final(self).scopes@[ROOT_SCOPE as int].parent == old(self).scopes@[ROOT_SCOPE as int].parent,
            final(self).arena.entities@.drop_last() == old(self).arena.entities@,
            final(self).arena.entities@.last().kind is Primitive,
            final(self).arena.entities@.last().ty == ty,
    {
        let path = Path::empty();
        let id = self.add_entity(Visibility::Public, name.clone(), ty, EntityInfo::Primitive, path).unwrap();
        self.bind(ROOT_SCOPE, name, id);
    }

    /// Places a new entity, in any state but `Unresolved`, in the arena.
    pub fn add_entity(&mut self, visibility: Visibility, name: String, ty: Type, kind: EntityInfo, path: Path) -> (r: Result<EntityId, Error>)
        requires
            old(self).wf(),
            !(kind is Unresolved),
        ensures
            final(self).grows_from(*old(self)),
            final(self).count() == old(self).count(),
            final(self).scopes == old(self).scopes,
            final(self).keeps(*old(self)),
            r is Err ==> *final(self) == *old(self) && r->Err_0.kind == ErrorKind::TooManyEntities,
            old(self).arena.entities@.len() + 2 < usize::MAX ==> r is Ok,
            r is Ok ==> {
                &&& r->Ok_0.0 == old(self).arena.entities@.len() + 1
                &&& final(self).arena.contains(r->Ok_0)
                &&& final(self).arena.entities@.drop_last() == old(self).arena.entities@
                &&& final(self).arena.entities@.len() == old(self).arena.entities@.len() + 1
                &&& final(self).entity(r->Ok_0).kind == kind
                &&& final(self).entity(r->Ok_0).ty == ty
                &&& final(self).entity(r->Ok_0).name == name
            },
    {
        if self.arena.len() >= usize::MAX - 2 {
            return Err(Error::new(ErrorKind::TooManyEntities, name));
        }
        let ghost before = self.arena.entities@;
        let id = Entity::new_ref(&mut self.arena, visibility, name, ty, kind, path);
        proof {
            assert(self.arena.entities@ =~= before.push(self.arena.entities@.last()));
            lemma_count_push(before, self.arena.entities@.last());
            assert forall|s: int, j: int| 0 <= s < self.scopes@.len() && 0 <= j < self.scopes@[s].entities@.len()
                implies self.arena.contains(#[trigger] self.scopes@[s].entities@[j]) by {
                assert(old(self).arena.contains(self.scopes@[s].entities@[j]));
            }
        }
        Ok(id)
    }

    /// Opens a new, empty scope.
    pub fn new_scope(&mut self, parent: Option<ScopeRef>) -> (r: ScopeRef)
        requires
            old(self).wf(),
            parent is Some ==> parent->Some_0 < old(self).scopes@.len(),
        ensures
            final(self).grows_from(*old(self)),
            final(self).count() == old(self).count(),
            final(self).arena == old(self).arena,
            final(self).keeps(*old(self)),
            r == old(self).scopes@.len(),
            final(self).scopes@.len() == old(self).scopes@.len() + 1,
            final(self).scopes@.drop_last() == old(self).scopes@,
            final(self).scopes@[r as int].names@.len() == 0,
            final(self).scopes@[r as int].parent == parent,
    {
        let r = self.scopes.len();
        self.scopes.push(Scope::new(parent));
        proof {
            assert(self.scopes@.drop_last() =~= old(self).scopes@);
        }
        r
    }

    /// Binds `name` to `id` in scope `s`.
    pub fn bind(&mut self, s: ScopeRef, name: String, id: EntityId)
        requires
            old(self).wf(),
            s < old(self).scopes@.len(),
            old(self).arena.contains(id),
        ensures
            final(self).grows_from(*old(self)),
            final(self).count() == old(self).count(),
            final(self).arena == old(self).arena,
            final(self).scopes@.len() == old(self).scopes@.len(),
            final(self).scopes@[s as int].names@ == old(self).scopes@[s as int].names@.push(name),
            final(self).scopes@[s as int].entities@ == old(self).scopes@[s as int].entities@.push(id),
            final(self).scopes@[s as int].parent == old(self).scopes@[s as int].parent,
            forall|t: int| 0 <= t < final(self).scopes@.len() && t != s ==> final(self).scopes@[t] == old(self).scopes@[t],
    {
        self.scopes[s].bind(name, id);
        proof {
            assert forall|t: int, j: int| 0 <= t < self.scopes@.len() && 0 <= j < self.scopes@[t].entities@.len()
                implies self.arena.contains(#[trigger] self.scopes@[t].entities@[j]) by {
                if t != s || j < old(self).scopes@[s as int].entities@.len() {
                    assert(old(self).arena.contains(old(self).scopes@[t].entities@[j]));
                }
            }
        }
    }

    /// Installs a terminal state on an entity.
    pub fn install(&mut self, id: EntityId, ty: Type, kind: EntityInfo, path: Path)
        requires
            old(self).wf(),
            old(self).arena.contains(id),
            kind_is_resolved(kind),
            !field_or_param(kind),
            !field_or_param(old(self).entity(id).kind),
        ensures
            final(self).grows_from(*old(self)),
            final(self).keeps(*old(self)),
            final(self).scopes == old(self).scopes,
            final(self).arena.entities@.len() == old(self).arena.entities@.len(),
            final(self).entity(id).kind == kind,
            final(self).entity(id).ty == ty,
            final(self).entity(id).path == path,
            final(self).entity(id).name == old(self).entity(id).name,
            forall|other: EntityId| #[trigger] old(self).arena.contains(other) && other != id
                ==> final(self).entity(other) == old(self).entity(other),
    {
        let i = id.0 - 1;
        self.arena.entities[i].resolve(ty, kind, path);
        proof {
            lemma_update_one(*old(self), *self, id);
        }
    }

    /// Marks an `Unresolved` entity as `Resolving` and hands back its detached raw state.
    pub fn begin_resolving(&mut self, id: EntityId) -> (r: EntityInfo)
        requires
            old(self).wf(),
            old(self).arena.contains(id),
            old(self).entity(id).kind is Unresolved,
        ensures
            final(self).grows_from(*old(self)),
            final(self).count() + 1 == old(self).count(),
            final(self).keeps(*old(self)),
            final(self).scopes == old(self).scopes,
            final(self).arena.entities@.len() == old(self).arena.entities@.len(),
            final(self).entity(id).kind is Resolving,
            final(self).entity(id).name == old(self).entity(id).name,
            r == old(self).entity(id).kind,
            forall|other: EntityId| #[trigger] old(self).arena.contains(other) && other != id
                ==> final(self).entity(other) == old(self).entity(other),
    {
        let i = id.0 - 1;
        let mut raw = EntityInfo::Resolving;
        std::mem::swap(&mut raw, &mut self.arena.entities[i].kind);
        proof {
            lemma_update_one(*old(self), *self, id);
        }
        raw
    }

    /// Puts an entity whose resolution failed back into the `Resolving` state.
    pub fn mark_resolving(&mut self, id: EntityId)
        requires
            old(self).wf(),
            old(self).arena.contains(id),
            !field_or_param(old(self).entity(id).kind),
        ensures
            final(self).grows_from(*old(self)),
            final(self).scopes == old(self).scopes,
            final(self).arena.entities@.len() == old(self).arena.entities@.len(),
            final(self).entity(id).kind is Resolving,
            final(self).entity(id).name == old(self).entity(id).name,
            forall|other: EntityId| #[trigger] old(self).arena.contains(other) && other != id
                ==> final(self).entity(other) == old(self).entity(other),
    {
        let i = id.0 - 1;
        self.arena.entities[i].to_resolving();
        proof {
            lemma_update_one(*old(self), *self, id);
        }
    }

    /// Lexical lookup of `name` from scope `s` outwards.
    pub fn lookup(&self, s: ScopeRef, name: &String) -> (r: Option<EntityId>)
        requires
            self.wf(),
            s < self.scopes@.len(),
        ensures
            r == self.lookup_in(s as int, name@),
            r is Some ==> self.arena.contains(r->Some_0),
    {
        let mut cur = s;
        loop
            invariant
                self.wf(),
                cur < self.scopes@.len(),
                self.lookup_in(s as int, name@) == self.lookup_in(cur as int, name@),
            decreases cur,
        {
            let local = self.scopes[cur].lookup_local(name);
            match local {
                Some(id) => {
                    proof {
                        let sc = self.scopes@[cur as int];
                        crate::scope::lemma_last_index_of_bounds(sc.names@, name@, sc.names@.len() as int);
                    }
                    return Some(id);
                },
                None => match self.scopes[cur].parent {
                    Some(p) => {
                        cur = p;
                    },
                    None => {
                        return None;
                    },
                },
            }
        }
    }
}

} // verus!
