use vstd::prelude::*;

verus! {

/// An opaque source position attached to syntax and typed IR nodes.
#[derive(Debug, Clone, Copy, PartialEq, Eq, Structural)]
pub struct Position {
    pub line: u32,
    pub column: u32,
}

#[derive(Debug, Clone, Copy, PartialEq, Eq, Structural)]
pub enum Visibility {
    Public,
    Private,
}

/// A written type: the name of a primitive or of a structure.
#[derive(Debug, Clone)]
pub struct TypeSpec {
    pub name: String,
    pub position: Position,
}

#[derive(Debug)]
pub enum ExprKind {
    Int(u64),
    Bool(bool),
    Name(String),
    Field(Box<Expr>, String),
    Call(Box<Expr>, Vec<Expr>),
}

#[derive(Debug)]
pub struct Expr {
    pub kind: ExprKind,
    pub position: Position,
}

#[derive(Debug, Clone)]
pub struct FieldDecl {
    pub name: String,
    pub spec: TypeSpec,
}

#[derive(Debug, Clone)]
pub struct ParamDecl {
    pub name: String,
    pub spec: TypeSpec,
}

#[derive(Debug)]
pub struct FunctionDecl {
    pub name: String,
    pub params: Vec<ParamDecl>,
    pub ret: Option<TypeSpec>,
    pub body: Expr,
}

#[derive(Debug)]
pub struct MethodDecl {
    pub takes_self: bool,
    pub mutable_self: bool,
    pub function: FunctionDecl,
}

#[derive(Debug)]
pub enum ItemKind {
    Structure { name: String, fields: Vec<FieldDecl>, methods: Vec<MethodDecl> },
    Function(FunctionDecl),
    Variable { name: String, mutable: bool, spec: Option<TypeSpec>, default: Option<Expr> },
}

/// A raw declaration as the parser hands it over.
#[derive(Debug)]
pub struct Item {
    pub visibility: Visibility,
    pub kind: ItemKind,
    pub position: Position,
}

#[derive(Debug, Clone, Copy, PartialEq, Eq, Structural)]
pub enum AssignmentOp {
    Assign,
    AddAssign,
    SubAssign,
    MulAssign,
    DivAssign,
}

#[derive(Debug)]
pub enum StmtKind {
    Expr(Box<Expr>),
    Item(Box<Item>),
    Assignment { op: AssignmentOp, lvalue: Box<Expr>, rhs: Box<Expr> },
    Empty,
}

#[derive(Debug)]
pub struct Stmt {
    pub kind: StmtKind,
    pub position: Position,
}

pub open spec fn item_name(item: Item) -> Seq<char> {
    match item.kind {
        ItemKind::Structure { name, .. } => name@,
        ItemKind::Function(f) => f.name@,
        ItemKind::Variable { name, .. } => name@,
    }
}

impl Item {
    /// The declared name of the item.
    pub fn name(&self) -> (r: &String)
        ensures
            r@ == item_name(*self),
    {
        match &self.kind {
            ItemKind::Structure { name, .. } => name,
            ItemKind::Function(f) => &f.name,
            ItemKind::Variable { name, .. } => name,
        }
    }
}

} // verus!
