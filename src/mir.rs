use vstd::prelude::*;

use crate::ast::{AssignmentOp, Position};
use crate::entity::{EntityId, Type};

verus! {

#[derive(Debug)]
pub enum TypedExprKind {
    Unit,
    Int(u64),
    Bool(bool),
    Entity(EntityId),
    Field(Box<TypedExpr>, EntityId),
    Call(Box<TypedExpr>, Vec<TypedExpr>),
}

/// A resolved expression: its kind, where it was written, its type, and
/// whether it denotes a place that may be assigned to.
#[derive(Debug)]
pub struct TypedExpr {
    pub kind: TypedExprKind,
    pub position: Position,
    pub ty: Type,
    pub mutable: bool,
}

impl TypedExpr {
    pub fn position(&self) -> (r: Position)
        ensures
            r == self.position,
    {
        self.position
    }

    pub fn ty(&self) -> (r: Type)
        ensures
            r == self.ty,
    {
        self.ty
    }
}

#[derive(Debug)]
pub struct Assignment {
    pub op: AssignmentOp,
    pub lvalue: EntityId,
    pub rhs: TypedExpr,
}

#[derive(Debug)]
pub enum MirStmtKind {
    Expr(TypedExpr),
    Item(EntityId),
    Assignment(Assignment),
}

#[derive(Debug)]
pub struct MirStmt {
    pub kind: MirStmtKind,
    pub position: Position,
    pub ty: Type,
}

impl MirStmt {
    pub fn new(kind: MirStmtKind, position: Position, ty: Type) -> (r: MirStmt)
        ensures
            r.kind == kind,
            r.position == position,
            r.ty == ty,
    {
        MirStmt { kind, position, ty }
    }
}

} // verus!
