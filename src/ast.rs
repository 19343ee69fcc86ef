//! The abstract syntax tree that the checker and the evaluator consume.
use vstd::prelude::*;

verus! {

/// A source location: byte offset of the construct and its length.
pub type CLoc = (usize, usize);

/// A declared type. `Ref` stands for a one-dimensional array of its element type.
#[derive(Debug, PartialEq, Eq)]
pub enum CType {
    Char,
    Int,
    Float,
    Ref(Box<CType>),
}

/// Arithmetic, relational, logical and unary operators.
#[derive(Debug, PartialEq, Eq, Clone, Copy)]
pub enum COp {
    Mul,
    Div,
    Add,
    Sub,
    Neq,
    Eq,
    Lt,
    Lte,
    Gt,
    Gte,
    And,
    Or,
    Neg,
    Not,
}

/// A function signature: return type (`None` for `void`), name and parameters.
#[derive(Debug)]
pub struct CProto {
    pub ret: Option<CType>,
    pub name: String,
    pub params: Vec<(CType, String)>,
}

/// A function definition: its signature and the statements of its body.
#[derive(Debug)]
pub struct CFunc {
    pub proto: CProto,
    pub stmts: Vec<CStmt>,
}

/// A top-level element of a program.
#[derive(Debug)]
pub enum CProgElem {
    /// Global variable: type, name, optional array size.
    Decl(CLoc, CType, String, Option<usize>),
    /// Function prototype without a body.
    Proto(CLoc, CProto),
    /// Function definition.
    Func(CLoc, CFunc),
    /// What the parser left where it recovered from an error.
    Error,
}

/// A program: its top-level elements in source order.
pub type CProg = Vec<CProgElem>;

/// A statement.
#[derive(Debug)]
pub enum CStmt {
    /// Local declaration: type, name, optional array-size expression.
    Decl(CLoc, CType, String, Option<CExpr>),
    /// Assignment: name, optional index expression, value.
    Assign(CLoc, String, Option<CExpr>, CExpr),
    Return(CLoc, Option<CExpr>),
    Block(Vec<CStmt>),
    If(CLoc, CExpr, Box<CStmt>, Option<Box<CStmt>>),
    While(CLoc, CExpr, Box<CStmt>),
    /// A call made for its effects.
    Call(CLoc, String, Vec<CExpr>),
    Print(CLoc, CExpr),
    Error,
}

/// An expression. Float literals hold the IEEE-754 single-precision bit pattern.
#[derive(Debug)]
pub enum CExpr {
    Int(CLoc, i32),
    Float(CLoc, u32),
    Str(CLoc, Vec<char>),
    Char(CLoc, char),
    Ident(CLoc, String),
    UnOp(CLoc, COp, Box<CExpr>),
    BinOp(CLoc, COp, Box<CExpr>, Box<CExpr>),
    Call(CLoc, String, Vec<CExpr>),
    Index(CLoc, String, Box<CExpr>),
    Error,
}

/// The byte offset at which a statement stands, for those that carry one.
pub open spec fn stmt_loc(s: CStmt) -> Option<usize> {
    match s {
        CStmt::Decl(l, ..) => Some(l.0),
        CStmt::Assign(l, ..) => Some(l.0),
        CStmt::Return(l, ..) => Some(l.0),
        CStmt::If(l, ..) => Some(l.0),
        CStmt::While(l, ..) => Some(l.0),
        CStmt::Call(l, ..) => Some(l.0),
        CStmt::Print(l, ..) => Some(l.0),
        _ => None,
    }
}

/// The byte offset of a statement, if it carries a location.
pub fn loc_of_stmt(s: &CStmt) -> (r: Option<usize>)
    ensures
        r == stmt_loc(*s),
{
    match s {
        CStmt::Decl(l, ..) => Some(l.0),
        CStmt::Assign(l, ..) => Some(l.0),
        CStmt::Return(l, ..) => Some(l.0),
        CStmt::If(l, ..) => Some(l.0),
        CStmt::While(l, ..) => Some(l.0),
        CStmt::Call(l, ..) => Some(l.0),
        CStmt::Print(l, ..) => Some(l.0),
        _ => None,
    }
}

/// The byte offset at which an expression stands; `None` for an error placeholder.
pub open spec fn expr_loc(e: CExpr) -> Option<usize> {
    match e {
        CExpr::Int(l, ..) => Some(l.0),
        CExpr::Float(l, ..) => Some(l.0),
        CExpr::Str(l, ..) => Some(l.0),
        CExpr::Char(l, ..) => Some(l.0),
        CExpr::Ident(l, ..) => Some(l.0),
        CExpr::UnOp(l, ..) => Some(l.0),
        CExpr::BinOp(l, ..) => Some(l.0),
        CExpr::Call(l, ..) => Some(l.0),
        CExpr::Index(l, ..) => Some(l.0),
        CExpr::Error => None,
    }
}

/// The byte offset of an expression; `None` for an error placeholder.
pub fn loc_of_expr(e: &CExpr) -> (r: Option<usize>)
    ensures
        r == expr_loc(*e),
{
    match e {
        CExpr::Int(l, ..) => Some(l.0),
        CExpr::Float(l, ..) => Some(l.0),
        CExpr::Str(l, ..) => Some(l.0),
        CExpr::Char(l, ..) => Some(l.0),
        CExpr::Ident(l, ..) => Some(l.0),
        CExpr::UnOp(l, ..) => Some(l.0),
        CExpr::BinOp(l, ..) => Some(l.0),
        CExpr::Call(l, ..) => Some(l.0),
        CExpr::Index(l, ..) => Some(l.0),
        CExpr::Error => None,
    }
}

/// A copy of a declared type.
pub fn copy_type(t: &CType) -> (r: CType)
    ensures
        r == *t,
    decreases t,
{
    match t {
        CType::Char => CType::Char,
        CType::Int => CType::Int,
        CType::Float => CType::Float,
        CType::Ref(inner) => CType::Ref(Box::new(copy_type(inner))),
    }
}

} // verus!
