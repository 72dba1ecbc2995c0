use vstd::prelude::*;

use crate::ast::Position;

verus! {

#[derive(Debug, Clone, Copy, PartialEq, Eq, Structural)]
pub enum ErrorKind {
    /// An entity was reached again while it was being resolved.
    CircularDefinition,
    /// An assignment targeted an entity that cannot be changed.
    ImmutableTarget,
    /// A name has no binding in any enclosing scope.
    UnresolvedDependency,
    /// An expression's type differs from the one its place asks for.
    TypeMismatch,
    /// A recognised form that has no resolution yet.
    UnsupportedConstruct,
    /// The identity counter has no identity left to hand out.
    TooManyEntities,
}

/// A resolution error: its kind, the name it concerns and, once known, where it arose.
#[derive(Debug)]
pub struct Error {
    pub kind: ErrorKind,
    pub name: String,
    pub position: Option<Position>,
}

impl Error {
    pub fn new(kind: ErrorKind, name: String) -> (r: Error)
        ensures
            r.kind == kind,
            r.name == name,
            r.position is None,
    {
        Error { kind, name, position: None }
    }

    pub fn immutable_entity(name: &str) -> (r: Error)
        ensures
            r.kind == ErrorKind::ImmutableTarget,
            r.name@ == name@,
            r.position is None,
    {
        Error { kind: ErrorKind::ImmutableTarget, name: name.to_string(), position: None }
    }

    /// Attaches a position unless one is already attached.
    pub fn with_position(self, position: Position) -> (r: Error)
        ensures
            r.kind == self.kind,
            r.name == self.name,
            self.position is None ==> r.position == Some(position),
            self.position is Some ==> r.position == self.position,
    {
        match self.position {
            Some(_) => self,
            None => Error { kind: self.kind, name: self.name, position: Some(position) },
        }
    }
}

} // verus!
