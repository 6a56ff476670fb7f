//! The abstract syntax tree produced by the parser.
//!
//! Identifiers and string literals are kept as byte strings; a float
//! literal carries the IEEE-754 binary64 bit pattern of its value.

use vstd::prelude::*;

use crate::location::Location;

verus! {

pub struct Program {
    pub top_levels: Vec<TopLevel>,
}

pub enum TopLevel {
    Import { module: Vec<u8>, name: Vec<u8> },
    FunctionDef(FunctionDef),
    ClassDef(ClassDef),
}

pub struct FunctionDef {
    pub name: Vec<u8>,
    pub parameters: Vec<Parameter>,
    pub result: Option<Expression>,
    pub body: Vec<Statement>,
}

/// Parsed but rejected during analysis.
pub struct ClassDef {
    pub name: Vec<u8>,
    pub location: Location,
    pub methods: Vec<FunctionDef>,
}

pub struct Parameter {
    pub name: Vec<u8>,
    pub typ: Expression,
}

pub enum Statement {
    Return(Expression),
    If { condition: Box<Expression>, suite: Vec<Statement>, else_suite: Vec<Statement> },
    While { condition: Box<Expression>, suite: Vec<Statement> },
    For { target: Vec<u8>, iter: Box<Expression>, suite: Vec<Statement> },
    Assignment { target: Vec<u8>, value: Box<Expression> },
    Expression(Expression),
    Break(Location),
    Continue(Location),
    Pass(Location),
}

pub struct Expression {
    pub location: Location,
    pub kind: ExpressionType,
}

pub enum ExpressionType {
    Number(i32),
    /// The IEEE-754 binary64 bit pattern of the literal's value.
    Float(u64),
    Str(Vec<u8>),
    Identifier(Vec<u8>),
    List { elements: Vec<Expression> },
    Comparison { a: Box<Expression>, op: Comparison, b: Box<Expression> },
    BinaryOperation { a: Box<Expression>, op: BinaryOperation, b: Box<Expression> },
    BoolOp { a: Box<Expression>, op: BooleanOperator, b: Box<Expression> },
    Call { callee: Box<Expression>, arguments: Vec<Expression> },
    Indexed { base: Box<Expression>, index: Box<Expression> },
}

#[derive(Clone, Copy, PartialEq, Eq, Structural, Debug)]
pub enum BooleanOperator {
    And,
    Or,
}

#[derive(Clone, Copy, PartialEq, Eq, Structural, Debug)]
pub enum BinaryOperation {
    Add,
    Sub,
    Mul,
    Div,
}

#[derive(Clone, Copy, PartialEq, Eq, Structural, Debug)]
pub enum Comparison {
    Lt,
    Gt,
    Le,
    Ge,
    Equal,
    NotEqual,
}

/// The names of the function definitions among the first `i` top-levels,
/// in source order.
pub open spec fn function_names_upto(tops: Seq<TopLevel>, i: int) -> Seq<Seq<u8>>
    decreases i,
{
    if i <= 0 {
        Seq::empty()
    } else {
        function_names_upto(tops, i - 1) + (match tops[i - 1] {
            TopLevel::FunctionDef(f) => seq![f.name@],
            _ => Seq::empty(),
        })
    }
}

/// The names of the function definitions of a program, in source order.
pub open spec fn function_names(p: Program) -> Seq<Seq<u8>> {
    function_names_upto(p.top_levels@, p.top_levels@.len() as int)
}

/// The function definitions among the first `i` top-levels, in source
/// order.
pub open spec fn function_defs_upto(tops: Seq<TopLevel>, i: int) -> Seq<FunctionDef>
    decreases i,
{
    if i <= 0 {
        Seq::empty()
    } else {
        function_defs_upto(tops, i - 1) + (match tops[i - 1] {
            TopLevel::FunctionDef(f) => seq![f],
            _ => Seq::empty(),
        })
    }
}

/// The function definitions of a program, in source order.
pub open spec fn function_defs(p: Program) -> Seq<FunctionDef> {
    function_defs_upto(p.top_levels@, p.top_levels@.len() as int)
}

/// The `(module, name)` pairs of the imports among the first `i`
/// top-levels, in source order.
pub open spec fn import_names_upto(tops: Seq<TopLevel>, i: int) -> Seq<(Seq<u8>, Seq<u8>)>
    decreases i,
{
    if i <= 0 {
        Seq::empty()
    } else {
        import_names_upto(tops, i - 1) + (match tops[i - 1] {
            TopLevel::Import { module, name } => seq![(module@, name@)],
            _ => Seq::empty(),
        })
    }
}

/// The `(module, name)` pairs of a program's imports, in source order.
pub open spec fn import_names(p: Program) -> Seq<(Seq<u8>, Seq<u8>)> {
    import_names_upto(p.top_levels@, p.top_levels@.len() as int)
}

} // verus!
