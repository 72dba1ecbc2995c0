use vstd::prelude::*;

use itertools::Itertools;

use crate::ast::{Item, Visibility};
use crate::mir::TypedExpr;

verus! {

/// Index of a scope in the typer's scope table.
pub type ScopeRef = usize;

/// A process-unique identity of an entity.
#[derive(Debug, Clone, Copy, Hash, PartialEq, Eq, Structural)]
pub struct EntityId(pub usize);

/// The resolved type of a value or declaration.
#[derive(Debug, Clone, Copy, PartialEq, Eq, Structural)]
pub enum Type {
    /// The sentinel of an entity whose type is not known yet; it matches no other type.
    Invalid,
    Unit,
    Int,
    Bool,
    Structure(EntityId),
    Function(EntityId),
}

/// Hands out entity identities: strictly increasing, starting at 1, never
/// reused. `next` is the identity handed out next; it is never 0.
#[derive(Debug)]
pub struct IdAllocator {
    pub next: usize,
}

impl IdAllocator {
    pub fn new() -> (r: IdAllocator)
        ensures
            r.next == 1,
    {
        IdAllocator { next: 1 }
    }
}

impl EntityId {
    pub fn next(ids: &mut IdAllocator) -> (r: EntityId)
        requires
            1 <= old(ids).next < usize::MAX,
        ensures
            r.0 == old(ids).next,
            r.0 >= 1,
            final(ids).next == old(ids).next + 1,
    {
        let r = EntityId(ids.next);
        ids.next = ids.next + 1;
        r
    }
}

#[derive(Debug, Clone)]
pub struct StructureInfo {
    pub fields: ScopeRef,
    pub methods: ScopeRef,
}

#[derive(Debug)]
pub struct FunctionInfo {
    pub params: ScopeRef,
    pub body_scope: Option<ScopeRef>,
    pub body: TypedExpr,
    pub ret: Type,
}

#[derive(Debug)]
pub struct AssociatedFunctionInfo {
    pub entity: EntityId,
    pub params: ScopeRef,
    pub body_scope: Option<ScopeRef>,
    pub body: TypedExpr,
    pub takes_self: bool,
    pub index: usize,
    pub ret: Type,
}

#[derive(Debug)]
pub struct VariableInfo {
    pub spec: Option<Type>,
    pub mutable: bool,
    pub global: bool,
    pub default: Option<TypedExpr>,
}

#[derive(Debug)]
pub struct LocalInfo {
    pub index: usize,
    pub spec: Option<Type>,
    pub default: Option<TypedExpr>,
}

#[derive(Debug)]
pub enum EntityInfo {
    Unresolved(Box<Item>),
    Resolving,
    Primitive,
    Structure(StructureInfo),
    Function(FunctionInfo),
    AssociatedFunction(AssociatedFunctionInfo),
    Variable(VariableInfo),
    Param(LocalInfo),
    SelfParam { mutable: bool },
    Field(LocalInfo),
}

pub open spec fn kind_is_type(k: EntityInfo) -> bool {
    k is Primitive || k is Structure
}

pub open spec fn kind_is_function(k: EntityInfo) -> bool {
    k is Function || k is AssociatedFunction
}

pub open spec fn kind_is_instance(k: EntityInfo) -> bool {
    k is Variable || k is Field || k is SelfParam
}

/// Resolved means in a terminal kind: neither `Unresolved` nor `Resolving`.
pub open spec fn kind_is_resolved(k: EntityInfo) -> bool {
    !(k is Unresolved) && !(k is Resolving)
}

pub open spec fn kind_label(k: EntityInfo) -> Seq<char> {
    match k {
        EntityInfo::Unresolved(_) => "unresolved"@,
        EntityInfo::Resolving => "resolving"@,
        EntityInfo::Primitive => "primitive"@,
        EntityInfo::Structure(_) => "structure"@,
        EntityInfo::Function(_) => "function"@,
        EntityInfo::AssociatedFunction(_) => "associated function"@,
        EntityInfo::Variable(_) => "variable"@,
        EntityInfo::Param(_) => "param"@,
        EntityInfo::SelfParam { .. } => "self"@,
        EntityInfo::Field(_) => "field"@,
    }
}

#[derive(Debug, Clone)]
pub enum Segment {
    Path(String),
    Object(String),
}

pub open spec fn segment_name(s: Segment) -> Seq<char> {
    match s {
        Segment::Path(n) => n@,
        Segment::Object(n) => n@,
    }
}

/// Two segments with the same tag and the same text.
pub open spec fn same_segment(a: Segment, b: Segment) -> bool {
    (a is Path <==> b is Path) && segment_name(a) == segment_name(b)
}

impl Segment {
    /// The text of the segment.
    pub fn name(&self) -> (r: String)
        ensures
            r@ == segment_name(*self),
    {
        match self {
            Segment::Path(name) => name.clone(),
            Segment::Object(name) => name.clone(),
        }
    }
}

/// `parts` with `sep` between each two neighbours.
pub open spec fn joined(parts: Seq<Seq<char>>, sep: Seq<char>) -> Seq<char>
    decreases parts.len(),
{
    if parts.len() == 0 {
        Seq::empty()
    } else if parts.len() == 1 {
        parts[0]
    } else {
        joined(parts.drop_last(), sep) + sep + parts.last()
    }
}

/// Relies on itertools::Itertools::join: the items' text, with `sep` between each two.
#[verifier::external_body]
fn join_with(parts: &Vec<String>, sep: &str) -> (r: String)
    ensures
        r@ == joined(parts@.map_values(|p: String| p@), sep@),
{
    parts.iter().join(sep)
}

#[derive(Debug, Clone)]
pub struct Path {
    pub segments: Vec<Segment>,
}

pub open spec fn path_names(segments: Seq<Segment>) -> Seq<Seq<char>> {
    segments.map_values(|s: Segment| segment_name(s))
}

/// Two paths with the same segments, tag for tag and text for text.
pub open spec fn same_path(a: Path, b: Path) -> bool {
    &&& a.segments@.len() == b.segments@.len()
    &&& forall|j: int| 0 <= j < a.segments@.len() ==> same_segment(#[trigger] a.segments@[j], b.segments@[j])
}

impl Path {
    /// A copy of the path.
    pub fn duplicate(&self) -> (r: Path)
        ensures
            same_path(r, *self),
    {
        let mut path = Path { segments: Vec::new() };
        let mut i: usize = 0;
        while i < self.segments.len()
            invariant
                i <= self.segments@.len(),
                path.segments@.len() == i,
                forall|j: int| 0 <= j < i ==> same_segment(#[trigger] path.segments@[j], self.segments@[j]),
            decreases self.segments@.len() - i,
        {
            let seg = match &self.segments[i] {
                Segment::Path(n) => Segment::Path(n.clone()),
                Segment::Object(n) => Segment::Object(n.clone()),
            };
            path.segments.push(seg);
            i = i + 1;
        }
        path
    }

    pub fn empty() -> (r: Path)
        ensures
            r.segments@.len() == 0,
    {
        Path { segments: Vec::new() }
    }

    pub fn push_path(&mut self, name: &str)
        ensures
            final(self).segments@.len() == old(self).segments@.len() + 1,
            final(self).segments@.drop_last() == old(self).segments@,
            final(self).segments@.last() is Path,
            segment_name(final(self).segments@.last()) == name@,
    {
        self.segments.push(Segment::Path(name.to_string()));
    }

    pub fn push_object(&mut self, name: &str)
        ensures
            final(self).segments@.len() == old(self).segments@.len() + 1,
            final(self).segments@.drop_last() == old(self).segments@,
            final(self).segments@.last() is Object,
            segment_name(final(self).segments@.last()) == name@,
    {
        self.segments.push(Segment::Object(name.to_string()));
    }

    /// The segments joined with `.`; the empty path renders as the empty string.
    pub fn render(&self) -> (r: String)
        ensures
            r@ == joined(path_names(self.segments@), "."@),
    {
        let mut names: Vec<String> = Vec::new();
        let mut i: usize = 0;
        while i < self.segments.len()
            invariant
                i <= self.segments@.len(),
                names@.len() == i,
                forall|j: int| 0 <= j < i ==> names@[j]@ == segment_name(self.segments@[j]),
            decreases self.segments@.len() - i,
        {
            names.push(self.segments[i].name());
            i = i + 1;
        }
        let r = join_with(&names, ".");
        assert(names@.map_values(|p: String| p@) =~= path_names(self.segments@));
        r
    }
}

#[derive(Debug)]
pub struct Entity {
    pub id: EntityId,
    pub visibility: Visibility,
    pub name: String,
    pub ty: Type,
    pub kind: EntityInfo,
    pub path: Path,
}

impl Entity {
    pub fn id(&self) -> (r: EntityId)
        ensures
            r == self.id,
    {
        self.id
    }

    pub fn unresolved(ids: &mut IdAllocator, visibility: Visibility, name: String, item: Box<Item>, invalid_type: Type) -> (r: Entity)
        requires
            1 <= old(ids).next < usize::MAX,
        ensures
            r.id.0 == old(ids).next,
            final(ids).next == old(ids).next + 1,
            r.visibility == visibility,
            r.name == name,
            r.ty == invalid_type,
            r.kind == EntityInfo::Unresolved(item),
            r.path.segments@.len() == 0,
    {
        Entity {
            id: EntityId::next(ids),
            visibility,
            name,
            ty: invalid_type,
            kind: EntityInfo::Unresolved(item),
            path: Path::empty(),
        }
    }

    pub fn resolving(ids: &mut IdAllocator, visibility: Visibility, name: String, invalid_type: Type) -> (r: Entity)
        requires
            1 <= old(ids).next < usize::MAX,
        ensures
            r.id.0 == old(ids).next,
            final(ids).next == old(ids).next + 1,
            r.visibility == visibility,
            r.name == name,
            r.ty == invalid_type,
            r.kind is Resolving,
            r.path.segments@.len() == 0,
    {
        Entity {
            id: EntityId::next(ids),
            visibility,
            name,
            ty: invalid_type,
            kind: EntityInfo::Resolving,
            path: Path::empty(),
        }
    }

    /// Installs the terminal state: type, kind and path at once.
    pub fn resolve(&mut self, ty: Type, kind: EntityInfo, path: Path)
        ensures
            final(self).id == old(self).id,
            final(self).visibility == old(self).visibility,
            final(self).name == old(self).name,
            final(self).ty == ty,
            final(self).kind == kind,
            final(self).path == path,
    {
        self.ty = ty;
        self.kind = kind;
        self.path = path;
    }

    pub fn set_visibility(&mut self, visibility: Visibility)
        ensures
            final(self).id == old(self).id,
            final(self).visibility == visibility,
            final(self).name == old(self).name,
            final(self).ty == old(self).ty,
            final(self).kind == old(self).kind,
            final(self).path == old(self).path,
    {
        self.visibility = visibility;
    }

    pub fn to_resolving(&mut self)
        ensures
            final(self).id == old(self).id,
            final(self).visibility == old(self).visibility,
            final(self).name == old(self).name,
            final(self).ty == old(self).ty,
            final(self).kind is Resolving,
            final(self).path == old(self).path,
    {
        self.kind = EntityInfo::Resolving;
    }

    pub fn new(ids: &mut IdAllocator, visibility: Visibility, name: String, ty: Type, kind: EntityInfo, path: Path) -> (r: Entity)
        requires
            1 <= old(ids).next < usize::MAX,
        ensures
            r.id.0 == old(ids).next,
            final(ids).next == old(ids).next + 1,
            r.visibility == visibility,
            r.name == name,
            r.ty == ty,
            r.kind == kind,
            r.path == path,
    {
        Entity { id: EntityId::next(ids), visibility, name, ty, kind, path }
    }

    /// The declaring path followed by the entity's own name as an object segment.
    pub fn full_name(&self) -> (r: Path)
        ensures
            r.segments@.len() == self.path.segments@.len() + 1,
            forall|j: int| 0 <= j < self.path.segments@.len() ==> same_segment(#[trigger] r.segments@[j], self.path.segments@[j]),
            path_names(r.segments@) == path_names(self.path.segments@).push(self.name@),
            r.segments@.last() is Object,
    {
        let mut path = Path { segments: Vec::new() };
        let mut i: usize = 0;
        while i < self.path.segments.len()
            invariant
                i <= self.path.segments@.len(),
                path.segments@.len() == i,
                forall|j: int| 0 <= j < i ==> same_segment(#[trigger] path.segments@[j], self.path.segments@[j]),
            decreases self.path.segments@.len() - i,
        {
            let seg = match &self.path.segments[i] {
                Segment::Path(n) => Segment::Path(n.clone()),
                Segment::Object(n) => Segment::Object(n.clone()),
            };
            path.segments.push(seg);
            i = i + 1;
        }
        let ghost before = path.segments@;
        path.push_object(self.name());
        assert(path.segments@ =~= before.push(path.segments@.last()));
        assert forall|j: int| 0 <= j < path.segments@.len() implies path_names(path.segments@)[j]
            == path_names(self.path.segments@).push(self.name@)[j] by {
            if j < before.len() {
                assert(path.segments@[j] == before[j]);
                assert(same_segment(before[j], self.path.segments@[j]));
            }
        }
        assert(path_names(path.segments@) =~= path_names(self.path.segments@).push(self.name@));
        path
    }

    /// Creates the entity and places it in the arena, returning its identity.
    pub fn new_ref(arena: &mut EntityArena, visibility: Visibility, name: String, ty: Type, kind: EntityInfo, path: Path) -> (r: EntityId)
        requires
            old(arena).wf(),
            old(arena).entities@.len() + 2 < usize::MAX,
        ensures
            final(arena).wf(),
            r.0 == old(arena).entities@.len() + 1,
            final(arena).entities@.len() == old(arena).entities@.len() + 1,
            final(arena).entities@.drop_last() == old(arena).entities@,
            final(arena).entities@.last().visibility == visibility,
            final(arena).entities@.last().name == name,
            final(arena).entities@.last().ty == ty,
            final(arena).entities@.last().kind == kind,
            final(arena).entities@.last().path == path,
    {
        let e = Entity::new(&mut arena.ids, visibility, name, ty, kind, path);
        let id = e.id;
        arena.entities.push(e);
        assert(final(arena).entities@.drop_last() =~= old(arena).entities@);
        id
    }

    pub fn name(&self) -> (r: &str)
        ensures
            r@ == self.name@,
    {
        self.name.as_str()
    }

    pub fn path(&self) -> (r: &Path)
        ensures
            r == self.path,
    {
        &self.path
    }

    pub fn visibility(&self) -> (r: Visibility)
        ensures
            r == self.visibility,
    {
        self.visibility
    }

    pub fn ty(&self) -> (r: Type)
        ensures
            r == self.ty,
    {
        self.ty
    }

    pub fn kind(&self) -> (r: &EntityInfo)
        ensures
            r == self.kind,
    {
        &self.kind
    }

    pub fn kind_mut(&mut self) -> (r: &mut EntityInfo)
        ensures
            *r == old(self).kind,
            final(self).kind == *final(r),
            final(self).id == old(self).id,
            final(self).visibility == old(self).visibility,
            final(self).name == old(self).name,
            final(self).ty == old(self).ty,
            final(self).path == old(self).path,
    {
        &mut self.kind
    }

    pub fn as_struct(&self) -> (r: &StructureInfo)
        requires
            self.kind is Structure,
        ensures
            *r == self.kind->Structure_0,
    {
        match &self.kind {
            EntityInfo::Structure(info) => info,
            _ => unreached(),
        }
    }

    pub fn as_struct_mut(&mut self) -> (r: &mut StructureInfo)
        requires
            old(self).kind is Structure,
        ensures
            *r == old(self).kind->Structure_0,
            final(self).kind == EntityInfo::Structure(*final(r)),
            final(self).id == old(self).id,
            final(self).visibility == old(self).visibility,
            final(self).name == old(self).name,
            final(self).ty == old(self).ty,
            final(self).path == old(self).path,
    {
        match &mut self.kind {
            EntityInfo::Structure(info) => info,
            _ => unreached(),
        }
    }

    /// The slot information of a parameter or a field.
    pub fn as_local(&self) -> (r: &LocalInfo)
        requires
            self.kind is Param || self.kind is Field,
        ensures
            self.kind is Param ==> *r == self.kind->Param_0,
            self.kind is Field ==> *r == self.kind->Field_0,
    {
        match &self.kind {
            EntityInfo::Param(info) => info,
            EntityInfo::Field(info) => info,
            _ => unreached(),
        }
    }

    pub fn as_associated_function(&self) -> (r: &AssociatedFunctionInfo)
        requires
            self.kind is AssociatedFunction,
        ensures
            *r == self.kind->AssociatedFunction_0,
    {
        match &self.kind {
            EntityInfo::AssociatedFunction(info) => info,
            _ => unreached(),
        }
    }

    pub fn is_type(&self) -> (r: bool)
        ensures
            r == kind_is_type(self.kind),
    {
        match self.kind {
            EntityInfo::Primitive | EntityInfo::Structure(..) => true,
            _ => false,
        }
    }

    pub fn is_struct(&self) -> (r: bool)
        ensures
            r == self.kind is Structure,
    {
        match self.kind {
            EntityInfo::Structure(..) => true,
            _ => false,
        }
    }

    pub fn is_function(&self) -> (r: bool)
        ensures
            r == kind_is_function(self.kind),
    {
        match self.kind {
            EntityInfo::Function(..) | EntityInfo::AssociatedFunction(..) => true,
            _ => false,
        }
    }

    pub fn is_field(&self) -> (r: bool)
        ensures
            r == self.kind is Field,
    {
        match self.kind {
            EntityInfo::Field(..) => true,
            _ => false,
        }
    }

    /// Whether the entity denotes an addressable value: a variable, a field or `self`.
    pub fn is_instance(&self) -> (r: bool)
        ensures
            r == kind_is_instance(self.kind),
    {
        match self.kind {
            EntityInfo::Variable(..) | EntityInfo::Field(..) | EntityInfo::SelfParam { .. } => true,
            _ => false,
        }
    }

    pub fn is_self(&self) -> (r: bool)
        ensures
            r == self.kind is SelfParam,
    {
        match self.kind {
            EntityInfo::SelfParam { .. } => true,
            _ => false,
        }
    }

    pub fn is_resolved(&self) -> (r: bool)
        ensures
            r == kind_is_resolved(self.kind),
    {
        match self.kind {
            EntityInfo::Unresolved(_) | EntityInfo::Resolving => false,
            _ => true,
        }
    }

    pub fn is_resolving(&self) -> (r: bool)
        ensures
            r == self.kind is Resolving,
    {
        match self.kind {
            EntityInfo::Resolving => true,
            _ => false,
        }
    }

    pub fn is_unresolved(&self) -> (r: bool)
        ensures
            r == self.kind is Unresolved,
    {
        match self.kind {
            EntityInfo::Unresolved(_) => true,
            _ => false,
        }
    }

    /// A short label of the entity's kind, for diagnostics.
    pub fn kind_name(&self) -> (r: &'static str)
        ensures
            r@ == kind_label(self.kind),
    {
        match self.kind {
            EntityInfo::Unresolved(_) => "unresolved",
            EntityInfo::Resolving => "resolving",
            EntityInfo::Primitive => "primitive",
            EntityInfo::Structure(..) => "structure",
            EntityInfo::Function(..) => "function",
            EntityInfo::AssociatedFunction(..) => "associated function",
            EntityInfo::Variable(..) => "variable",
            EntityInfo::Param(..) => "param",
            EntityInfo::SelfParam { .. } => "self",
            EntityInfo::Field(..) => "field",
        }
    }
}

/// All entities of a compilation, addressed by identity: the entity with
/// identity `n` stands at index `n - 1`.
#[derive(Debug)]
pub struct EntityArena {
    pub entities: Vec<Entity>,
    pub ids: IdAllocator,
}

impl EntityArena {
    pub open spec fn wf(&self) -> bool {
        &&& self.ids.next == self.entities@.len() + 1
        &&& forall|i: int| 0 <= i < self.entities@.len() ==> (#[trigger] self.entities@[i]).id.0 == i + 1
    }

    pub open spec fn contains(&self, id: EntityId) -> bool {
        1 <= id.0 <= self.entities@.len()
    }

    pub open spec fn entity(&self, id: EntityId) -> Entity {
        self.entities@[id.0 - 1]
    }

    /// Identities are unique and follow creation order: of two entities in
    /// the arena, the one placed earlier has the smaller identity.
    pub proof fn lemma_ids_follow_creation_order(&self, i: int, j: int)
        requires
            self.wf(),
            0 <= i < j < self.entities@.len(),
        ensures
            self.entities@[i].id.0 < self.entities@[j].id.0,
            self.entities@[i].id != self.entities@[j].id,
    {
    }

    pub fn new() -> (r: EntityArena)
        ensures
            r.wf(),
            r.entities@.len() == 0,
    {
        EntityArena { entities: Vec::new(), ids: IdAllocator::new() }
    }

    pub fn len(&self) -> (r: usize)
        ensures
            r == self.entities@.len(),
    {
        self.entities.len()
    }

    pub fn get(&self, id: EntityId) -> (r: &Entity)
        requires
            self.contains(id),
        ensures
            *r == self.entity(id),
    {
        &self.entities[id.0 - 1]
    }
}

} // verus!
