//! Semantic analysis: scope resolution, type checking, builtin lowering.
//!
//! The analyzer walks the parsed AST once and produces a typed program in
//! which every identifier is resolved to a [`Symbol`] carrying its
//! WebAssembly local index or its index in the function or import space.

use vstd::prelude::*;

use crate::ast;
use crate::error::CompilationError;
use crate::location::Location;
use crate::text::{bytes_eq, clone_bytes, message_join, message_with};

verus! {

/// The built-in functions available in every program.
#[derive(Clone, Copy, PartialEq, Eq, Structural, Debug)]
pub enum Builtin {
    Ord,
    Len,
}

/// The types of the source language.  Equality is structural.
pub enum Type {
    Integer,
    Float,
    Bool,
    Str,
    Bytes,
    List(Box<Type>),
    Tuple(Box<Type>),
}

/// A resolved name.  Parameters and locals carry the WebAssembly local
/// index; functions and extern functions carry their index in the function
/// or import space.
pub enum Symbol {
    Parameter { typ: Type, index: usize },
    Local { typ: Type, index: usize },
    Function { index: usize },
    ExternFunction { index: usize },
    Builtin(Builtin),
}

pub struct Parameter {
    pub name: Vec<u8>,
    pub typ: Type,
}

pub struct Local {
    pub typ: Type,
}

/// An imported function with its inferred signature.
pub struct Import {
    pub modname: Vec<u8>,
    pub name: Vec<u8>,
    pub parameter_types: Vec<Type>,
    pub return_type: Option<Type>,
}

/// A type-checked function: parameters first, then locals, in local-index
/// order.
pub struct Function {
    pub name: Vec<u8>,
    pub parameters: Vec<Parameter>,
    pub locals: Vec<Local>,
    pub body: Vec<Statement>,
    pub return_type: Option<Type>,
}

/// The typed program: imports in import order, functions in declaration
/// order.
pub struct Program {
    pub imports: Vec<Import>,
    pub functions: Vec<Function>,
}

pub enum Statement {
    Assignment { target: Symbol, value: Expression },
    Expression(Expression),
    If { condition: Expression, suite: Vec<Statement>, else_suite: Vec<Statement> },
    While { condition: Expression, suite: Vec<Statement> },
    For { loop_var: Symbol, iter_var: Symbol, target: Symbol, iter: Expression, suite: Vec<Statement> },
    Return { value: Expression },
}

pub enum Expression {
    Number(i32),
    /// The IEEE-754 binary64 bit pattern of the literal's value.
    Float(u64),
    String(Vec<u8>),
    List { elements: Vec<Expression>, typ: Type, helper_local: Symbol },
    Identifier(Symbol),
    BinaryOperation { a: Box<Expression>, op: BinaryOperation, b: Box<Expression>, typ: Type },
    Call { callee: Symbol, arguments: Vec<Expression>, typ: Type },
    Indexed { base: Box<Expression>, index: Box<Expression>, typ: Type },
}

/// The operator of a typed binary operation.
pub enum BinaryOperation {
    ArithmaticOperation(ast::BinaryOperation),
    Comparison(ast::Comparison),
    Boolean(ast::BooleanOperator),
}

impl Clone for Type {
    fn clone(&self) -> (r: Type)
        ensures
            r == *self,
        decreases self,
    {
        match self {
            Type::Integer => Type::Integer,
            Type::Float => Type::Float,
            Type::Bool => Type::Bool,
            Type::Str => Type::Str,
            Type::Bytes => Type::Bytes,
            Type::List(element) => Type::List(Box::new((**element).clone())),
            Type::Tuple(element) => Type::Tuple(Box::new((**element).clone())),
        }
    }
}

/// Structural equality of two types.
pub fn type_eq(a: &Type, b: &Type) -> (r: bool)
    ensures
        r == (a == b),
    decreases a,
{
    match (a, b) {
        (Type::Integer, Type::Integer) => true,
        (Type::Float, Type::Float) => true,
        (Type::Bool, Type::Bool) => true,
        (Type::Str, Type::Str) => true,
        (Type::Bytes, Type::Bytes) => true,
        (Type::List(x), Type::List(y)) => type_eq(x, y),
        (Type::Tuple(x), Type::Tuple(y)) => type_eq(x, y),
        _ => false,
    }
}

impl Clone for Symbol {
    fn clone(&self) -> (r: Symbol)
        ensures
            r == *self,
    {
        match self {
            Symbol::Parameter { typ, index } => Symbol::Parameter {
                typ: typ.clone(),
                index: *index,
            },
            Symbol::Local { typ, index } => Symbol::Local { typ: typ.clone(), index: *index },
            Symbol::Function { index } => Symbol::Function { index: *index },
            Symbol::ExternFunction { index } => Symbol::ExternFunction { index: *index },
            Symbol::Builtin(b) => Symbol::Builtin(*b),
        }
    }
}

/// The largest element count the code generator accepts in a list
/// literal, so that every address computed for the literal fits in a
/// 32-bit immediate.
pub const MAX_LIST_LENGTH: usize = 0x07ff_ffff;

/// Whether `s` denotes a parameter or local slot.
pub open spec fn is_slot(s: Symbol) -> bool {
    s is Parameter || s is Local
}

/// The local index of a parameter or local symbol.
pub open spec fn slot_index(s: Symbol) -> nat {
    match s {
        Symbol::Parameter { index, .. } => index as nat,
        Symbol::Local { index, .. } => index as nat,
        _ => 0,
    }
}

/// The declared type of a parameter or local symbol.
pub open spec fn slot_type(s: Symbol) -> Type {
    match s {
        Symbol::Parameter { typ, .. } => typ,
        Symbol::Local { typ, .. } => typ,
        _ => Type::Integer,
    }
}

/// Well-formedness of a typed expression with respect to a function with
/// `nlocals` slots in a program with `nfuncs` functions and `nimports`
/// imports: every slot index is in range, every callee index is in range,
/// identifiers denote slots, calls never name the `ord` builtin (it is
/// folded during analysis), and list literals are non-empty and no longer
/// than [`MAX_LIST_LENGTH`].
pub open spec fn expr_wf(e: Expression, nlocals: nat, nfuncs: nat, nimports: nat) -> bool
    decreases e,
{
    match e {
        Expression::Number(_) => true,
        Expression::Float(_) => true,
        Expression::String(_) => true,
        Expression::List { elements, typ, helper_local } => {
            &&& 1 <= elements@.len() <= MAX_LIST_LENGTH
            &&& is_slot(helper_local)
            &&& slot_index(helper_local) < nlocals
            &&& forall|i: int|
                0 <= i < elements@.len() ==> expr_wf(
                    #[trigger] elements@[i],
                    nlocals,
                    nfuncs,
                    nimports,
                )
        },
        Expression::Identifier(s) => is_slot(s) && slot_index(s) < nlocals,
        Expression::BinaryOperation { a, op, b, typ } => {
            &&& expr_wf(*a, nlocals, nfuncs, nimports)
            &&& expr_wf(*b, nlocals, nfuncs, nimports)
        },
        Expression::Call { callee, arguments, typ } => {
            &&& match callee {
                Symbol::Function { index } => index < nfuncs,
                Symbol::ExternFunction { index } => index < nimports,
                Symbol::Builtin(b) => b is Len,
                _ => false,
            }
            &&& forall|i: int|
                0 <= i < arguments@.len() ==> expr_wf(
                    #[trigger] arguments@[i],
                    nlocals,
                    nfuncs,
                    nimports,
                )
        },
        Expression::Indexed { base, index, typ } => {
            &&& expr_wf(*base, nlocals, nfuncs, nimports)
            &&& expr_wf(*index, nlocals, nfuncs, nimports)
        },
    }
}

/// Well-formedness of a typed statement; see [`expr_wf`].
pub open spec fn stmt_wf(s: Statement, nlocals: nat, nfuncs: nat, nimports: nat) -> bool
    decreases s,
{
    match s {
        Statement::Assignment { target, value } => {
            &&& is_slot(target)
            &&& slot_index(target) < nlocals
            &&& expr_wf(value, nlocals, nfuncs, nimports)
        },
        Statement::Expression(e) => expr_wf(e, nlocals, nfuncs, nimports),
        Statement::If { condition, suite, else_suite } => {
            &&& expr_wf(condition, nlocals, nfuncs, nimports)
            &&& forall|i: int|
                0 <= i < suite@.len() ==> stmt_wf(#[trigger] suite@[i], nlocals, nfuncs, nimports)
            &&& forall|i: int|
                0 <= i < else_suite@.len() ==> stmt_wf(
                    #[trigger] else_suite@[i],
                    nlocals,
                    nfuncs,
                    nimports,
                )
        },
        Statement::While { condition, suite } => {
            &&& expr_wf(condition, nlocals, nfuncs, nimports)
            &&& forall|i: int|
                0 <= i < suite@.len() ==> stmt_wf(#[trigger] suite@[i], nlocals, nfuncs, nimports)
        },
        Statement::For { loop_var, iter_var, target, iter, suite } => {
            &&& is_slot(loop_var) && slot_index(loop_var) < nlocals
            &&& is_slot(iter_var) && slot_index(iter_var) < nlocals
            &&& is_slot(target) && slot_index(target) < nlocals
            &&& expr_wf(iter, nlocals, nfuncs, nimports)
            &&& forall|i: int|
                0 <= i < suite@.len() ==> stmt_wf(#[trigger] suite@[i], nlocals, nfuncs, nimports)
        },
        Statement::Return { value } => expr_wf(value, nlocals, nfuncs, nimports),
    }
}

/// The number of local slots of a function: parameters first, locals after.
pub open spec fn function_slots(f: Function) -> nat {
    f.parameters@.len() + f.locals@.len()
}

/// Well-formedness of a typed function within a program.
pub open spec fn function_wf(f: Function, nfuncs: nat, nimports: nat) -> bool {
    forall|i: int|
        0 <= i < f.body@.len() ==> stmt_wf(
            #[trigger] f.body@[i],
            function_slots(f),
            nfuncs,
            nimports,
        )
}

/// Well-formedness of the whole typed program: every function body only
/// names local slots, functions and imports that exist.
pub open spec fn program_wf(p: Program) -> bool {
    forall|j: int|
        0 <= j < p.functions@.len() ==> function_wf(
            #[trigger] p.functions@[j],
            p.functions@.len(),
            p.imports@.len(),
        )
}

} // verus!

verus! {

/// Whether a symbol stays inside the index spaces: `nl` local slots, `nf`
/// functions, `ni` imports.
pub open spec fn sym_wf(s: Symbol, nl: nat, nf: nat, ni: nat) -> bool {
    match s {
        Symbol::Parameter { index, .. } => index < nl,
        Symbol::Local { index, .. } => index < nl,
        Symbol::Function { index } => index < nf,
        Symbol::ExternFunction { index } => index < ni,
        Symbol::Builtin(_) => true,
    }
}

/// Expression well-formedness is monotone in the index-space sizes.
pub proof fn lemma_expr_wf_mono(
    e: Expression,
    nl1: nat,
    nf1: nat,
    ni1: nat,
    nl2: nat,
    nf2: nat,
    ni2: nat,
)
    requires
        expr_wf(e, nl1, nf1, ni1),
        nl1 <= nl2,
        nf1 <= nf2,
        ni1 <= ni2,
    ensures
        expr_wf(e, nl2, nf2, ni2),
    decreases e,
{
    match e {
        Expression::List { elements, typ, helper_local } => {
            assert forall|i: int| 0 <= i < elements@.len() implies expr_wf(
                #[trigger] elements@[i],
                nl2,
                nf2,
                ni2,
            ) by {
                assert(decreases_to!(e => e->List_elements));
                assert(decreases_to!(e->List_elements => e->List_elements@));
                assert(decreases_to!(e->List_elements@ => e->List_elements@[i]));
                lemma_expr_wf_mono(elements@[i], nl1, nf1, ni1, nl2, nf2, ni2);
            }
        },
        Expression::BinaryOperation { a, op, b, typ } => {
            lemma_expr_wf_mono(*a, nl1, nf1, ni1, nl2, nf2, ni2);
            lemma_expr_wf_mono(*b, nl1, nf1, ni1, nl2, nf2, ni2);
        },
        Expression::Call { callee, arguments, typ } => {
            assert forall|i: int| 0 <= i < arguments@.len() implies expr_wf(
                #[trigger] arguments@[i],
                nl2,
                nf2,
                ni2,
            ) by {
                assert(decreases_to!(e => e->Call_arguments));
                assert(decreases_to!(e->Call_arguments => e->Call_arguments@));
                assert(decreases_to!(e->Call_arguments@ => e->Call_arguments@[i]));
                lemma_expr_wf_mono(arguments@[i], nl1, nf1, ni1, nl2, nf2, ni2);
            }
        },
        Expression::Indexed { base, index, typ } => {
            lemma_expr_wf_mono(*base, nl1, nf1, ni1, nl2, nf2, ni2);
            lemma_expr_wf_mono(*index, nl1, nf1, ni1, nl2, nf2, ni2);
        },
        _ => {},
    }
}

/// Statement well-formedness is monotone in the index-space sizes.
pub proof fn lemma_stmt_wf_mono(
    s: Statement,
    nl1: nat,
    nf1: nat,
    ni1: nat,
    nl2: nat,
    nf2: nat,
    ni2: nat,
)
    requires
        stmt_wf(s, nl1, nf1, ni1),
        nl1 <= nl2,
        nf1 <= nf2,
        ni1 <= ni2,
    ensures
        stmt_wf(s, nl2, nf2, ni2),
    decreases s,
{
    match s {
        Statement::Assignment { target, value } => {
            lemma_expr_wf_mono(value, nl1, nf1, ni1, nl2, nf2, ni2);
        },
        Statement::Expression(e) => {
            lemma_expr_wf_mono(e, nl1, nf1, ni1, nl2, nf2, ni2);
        },
        Statement::If { condition, suite, else_suite } => {
            lemma_expr_wf_mono(condition, nl1, nf1, ni1, nl2, nf2, ni2);
            assert forall|i: int| 0 <= i < suite@.len() implies stmt_wf(
                #[trigger] suite@[i],
                nl2,
                nf2,
                ni2,
            ) by {
                assert(decreases_to!(s => s->If_suite));
                assert(decreases_to!(s->If_suite => s->If_suite@));
                assert(decreases_to!(s->If_suite@ => s->If_suite@[i]));
                lemma_stmt_wf_mono(suite@[i], nl1, nf1, ni1, nl2, nf2, ni2);
            }
            assert forall|i: int| 0 <= i < else_suite@.len() implies stmt_wf(
                #[trigger] else_suite@[i],
                nl2,
                nf2,
                ni2,
            ) by {
                assert(decreases_to!(s => s->If_else_suite));
                assert(decreases_to!(s->If_else_suite => s->If_else_suite@));
                assert(decreases_to!(s->If_else_suite@ => s->If_else_suite@[i]));
                lemma_stmt_wf_mono(else_suite@[i], nl1, nf1, ni1, nl2, nf2, ni2);
            }
        },
        Statement::While { condition, suite } => {
            lemma_expr_wf_mono(condition, nl1, nf1, ni1, nl2, nf2, ni2);
            assert forall|i: int| 0 <= i < suite@.len() implies stmt_wf(
                #[trigger] suite@[i],
                nl2,
                nf2,
                ni2,
            ) by {
                assert(decreases_to!(s => s->While_suite));
                assert(decreases_to!(s->While_suite => s->While_suite@));
                assert(decreases_to!(s->While_suite@ => s->While_suite@[i]));
                lemma_stmt_wf_mono(suite@[i], nl1, nf1, ni1, nl2, nf2, ni2);
            }
        },
        Statement::For { loop_var, iter_var, target, iter, suite } => {
            lemma_expr_wf_mono(iter, nl1, nf1, ni1, nl2, nf2, ni2);
            assert forall|i: int| 0 <= i < suite@.len() implies stmt_wf(
                #[trigger] suite@[i],
                nl2,
                nf2,
                ni2,
            ) by {
                assert(decreases_to!(s => s->For_suite));
                assert(decreases_to!(s->For_suite => s->For_suite@));
                assert(decreases_to!(s->For_suite@ => s->For_suite@[i]));
                lemma_stmt_wf_mono(suite@[i], nl1, nf1, ni1, nl2, nf2, ni2);
            }
        },
        Statement::Return { value } => {
            lemma_expr_wf_mono(value, nl1, nf1, ni1, nl2, nf2, ni2);
        },
    }
}

/// A scope: the names defined in it, in definition order, and the locals
/// it introduced.
pub struct Scope {
    pub variables: Vec<(Vec<u8>, Symbol)>,
    pub locals: Vec<Local>,
}

/// The most recent binding of `name` among the first `i` entries.
pub open spec fn bindings_lookup(vars: Seq<(Vec<u8>, Symbol)>, name: Seq<u8>, i: int) -> Option<
    Symbol,
>
    decreases i,
{
    if i <= 0 {
        None
    } else if vars[i - 1].0@ == name {
        Some(vars[i - 1].1)
    } else {
        bindings_lookup(vars, name, i - 1)
    }
}

impl Scope {
    /// The most recent binding of `name` in this scope, if any.
    pub open spec fn spec_lookup(&self, name: Seq<u8>) -> Option<Symbol> {
        bindings_lookup(self.variables@, name, self.variables@.len() as int)
    }

    /// Whether `name` is bound in this scope.
    pub open spec fn spec_contains(&self, name: Seq<u8>) -> bool {
        self.spec_lookup(name) is Some
    }

    /// Every symbol bound in the scope is inside the index spaces.
    pub open spec fn wf(&self, nl: nat, nf: nat, ni: nat) -> bool {
        forall|i: int|
            0 <= i < self.variables@.len() ==> sym_wf(
                (#[trigger] self.variables@[i]).1,
                nl,
                nf,
                ni,
            )
    }

    /// Every symbol bound in the scope denotes a parameter or local slot.
    pub open spec fn slots_only(&self) -> bool {
        forall|i: int| 0 <= i < self.variables@.len() ==> is_slot((#[trigger] self.variables@[i]).1)
    }

    pub fn new() -> (s: Scope)
        ensures
            s.variables@ == Seq::<(Vec<u8>, Symbol)>::empty(),
            s.locals@ == Seq::<Local>::empty(),
    {
        Scope { variables: Vec::new(), locals: Vec::new() }
    }

    pub fn contains(&self, name: &[u8]) -> (r: bool)
        ensures
            r == self.spec_contains(name@),
    {
        match self.lookup(name) {
            Some(_) => true,
            None => false,
        }
    }

    pub fn lookup(&self, name: &[u8]) -> (r: Option<Symbol>)
        ensures
            r == self.spec_lookup(name@),
    {
        let n = self.variables.len();
        let mut i: usize = n;
        while i > 0
            invariant
                i <= n,
                n == self.variables@.len(),
                bindings_lookup(self.variables@, name@, n as int) == bindings_lookup(
                    self.variables@,
                    name@,
                    i as int,
                ),
            decreases i,
        {
            if crate::text::bytes_eq(self.variables[i - 1].0.as_slice(), name) {
                return Some(self.variables[i - 1].1.clone());
            }
            i = i - 1;
        }
        None
    }

    pub fn register(&mut self, name: &[u8], symbol: Symbol)
        ensures
            final(self).variables@ == old(self).variables@.push(
                (final(self).variables@.last().0, symbol),
            ),
            final(self).variables@.last().0@ == name@,
            final(self).variables@.last().1 == symbol,
            final(self).locals@ == old(self).locals@,
    {
        let mut owned: Vec<u8> = Vec::new();
        owned.extend_from_slice(name);
        proof {
            assert(owned@ =~= name@);
        }
        self.variables.push((owned, symbol));
    }
}

} // verus!

verus! {

/// The binding of `name` in the scope stack `scopes[..k]`, innermost
/// scope first.
pub open spec fn scopes_lookup(scopes: Seq<Scope>, name: Seq<u8>, k: int) -> Option<Symbol>
    decreases k,
{
    if k <= 0 {
        None
    } else {
        match scopes[k - 1].spec_lookup(name) {
            Some(s) => Some(s),
            None => scopes_lookup(scopes, name, k - 1),
        }
    }
}

/// A binding found in a scope is one of the scope's entries, so it
/// inherits the scope's well-formedness.
pub proof fn lemma_bindings_lookup_wf(
    vars: Seq<(Vec<u8>, Symbol)>,
    name: Seq<u8>,
    i: int,
    nl: nat,
    nf: nat,
    ni: nat,
)
    requires
        i <= vars.len(),
        forall|j: int| 0 <= j < vars.len() ==> sym_wf((#[trigger] vars[j]).1, nl, nf, ni),
        bindings_lookup(vars, name, i) is Some,
    ensures
        sym_wf(bindings_lookup(vars, name, i)->Some_0, nl, nf, ni),
    decreases i,
{
    if i > 0 && vars[i - 1].0@ != name {
        lemma_bindings_lookup_wf(vars, name, i - 1, nl, nf, ni);
    }
}

/// Walks the AST once, resolving names against a stack of scopes and
/// numbering the locals of the function under analysis.
struct Analyzer {
    scopes: Vec<Scope>,
    local_counter: usize,
    functions: Vec<Function>,
    imports: Vec<Import>,
}

impl Analyzer {
    /// All scopes hold symbols inside the current index spaces.
    spec fn wf(&self) -> bool {
        forall|k: int|
            0 <= k < self.scopes@.len() ==> (#[trigger] self.scopes@[k]).wf(
                self.local_counter as nat,
                self.functions@.len(),
                self.imports@.len(),
            )
    }

    /// What one analysis step may change: it may bind names and allocate
    /// locals in the innermost scope, but it leaves the outer scopes, the
    /// finished functions and the imports alone, and it allocates exactly
    /// one local slot per local it adds to the innermost scope.
    spec fn grows_to(&self, post: Analyzer) -> bool {
        &&& post.functions@ == self.functions@
        &&& post.imports@ == self.imports@
        &&& post.scopes@.len() == self.scopes@.len()
        &&& forall|k: int| 0 <= k < self.scopes@.len() - 1 ==> post.scopes@[k] == self.scopes@[k]
        &&& self.local_counter <= post.local_counter
        &&& self.scopes@.len() >= 1 ==> {
            &&& post.scopes@.last().locals@.len() - self.scopes@.last().locals@.len()
                == post.local_counter - self.local_counter
            &&& (self.scopes@.last().slots_only() ==> post.scopes@.last().slots_only())
        }
    }

    fn new() -> (a: Analyzer)
        ensures
            a.scopes@.len() == 0,
            a.local_counter == 0,
            a.functions@.len() == 0,
            a.imports@.len() == 0,
            a.wf(),
    {
        Analyzer { scopes: Vec::new(), local_counter: 0, functions: Vec::new(), imports: Vec::new() }
    }

    fn enter_scope(&mut self)
        ensures
            final(self).scopes@ == old(self).scopes@.push(
                Scope { variables: final(self).scopes@.last().variables, locals: final(self).scopes@.last().locals },
            ),
            final(self).scopes@.last().variables@.len() == 0,
            final(self).scopes@.last().locals@.len() == 0,
            final(self).local_counter == old(self).local_counter,
            final(self).functions@ == old(self).functions@,
            final(self).imports@ == old(self).imports@,
            old(self).wf() ==> final(self).wf(),
    {
        self.scopes.push(Scope::new());
    }

    fn leave_scope(&mut self) -> (r: Scope)
        requires
            old(self).scopes@.len() >= 1,
        ensures
            r == old(self).scopes@.last(),
            final(self).scopes@ == old(self).scopes@.drop_last(),
            final(self).local_counter == old(self).local_counter,
            final(self).functions@ == old(self).functions@,
            final(self).imports@ == old(self).imports@,
            old(self).wf() ==> final(self).wf(),
    {
        match self.scopes.pop() {
            Some(s) => s,
            None => Scope::new(),
        }
    }

    /// Bind `name` to `symbol` in the innermost scope.
    fn define(&mut self, name: &[u8], symbol: Symbol)
        requires
            old(self).scopes@.len() >= 1,
        ensures
            final(self).scopes@.len() == old(self).scopes@.len(),
            forall|k: int|
                0 <= k < old(self).scopes@.len() - 1 ==> final(self).scopes@[k] == old(self).scopes@[k],
            final(self).scopes@.last().locals@ == old(self).scopes@.last().locals@,
            final(self).scopes@.last().variables@.len() == old(self).scopes@.last().variables@.len() + 1,
            forall|j: int|
                0 <= j < old(self).scopes@.last().variables@.len() ==> final(self).scopes@.last().variables@[j] == old(self).scopes@.last().variables@[j],
            final(self).scopes@.last().variables@.last().0@ == name@,
            final(self).scopes@.last().variables@.last().1 == symbol,
            final(self).scopes@.last().spec_lookup(name@) == Some(symbol),
            final(self).local_counter == old(self).local_counter,
            final(self).functions@ == old(self).functions@,
            final(self).imports@ == old(self).imports@,
            (old(self).wf() && sym_wf(
                symbol,
                old(self).local_counter as nat,
                old(self).functions@.len(),
                old(self).imports@.len(),
            )) ==> final(self).wf(),
    {
        let mut top = match self.scopes.pop() {
            Some(s) => s,
            None => Scope::new(),
        };
        top.register(name, symbol);
        self.scopes.push(top);
        proof {
            if old(self).wf() && sym_wf(
                symbol,
                old(self).local_counter as nat,
                old(self).functions@.len(),
                old(self).imports@.len(),
            ) {
                assert forall|k: int| 0 <= k < self.scopes@.len() implies (
                #[trigger] self.scopes@[k]).wf(
                    self.local_counter as nat,
                    self.functions@.len(),
                    self.imports@.len(),
                ) by {
                    assert(old(self).scopes@[k].wf(
                        old(self).local_counter as nat,
                        old(self).functions@.len(),
                        old(self).imports@.len(),
                    ));
                    if k == self.scopes@.len() - 1 {
                        let vars = self.scopes@[k].variables@;
                        assert forall|i: int| 0 <= i < vars.len() implies sym_wf(
                            (#[trigger] vars[i]).1,
                            self.local_counter as nat,
                            self.functions@.len(),
                            self.imports@.len(),
                        ) by {
                            if i < vars.len() - 1 {
                                assert(vars[i] == old(self).scopes@[k].variables@[i]);
                            }
                        }
                    }
                }
            }
        }
    }

    /// Resolve `name` against the scope stack, innermost scope first.
    fn lookup(&self, name: &[u8]) -> (r: Option<Symbol>)
        ensures
            r == scopes_lookup(self.scopes@, name@, self.scopes@.len() as int),
            r matches Some(s) ==> (self.wf() ==> sym_wf(
                s,
                self.local_counter as nat,
                self.functions@.len(),
                self.imports@.len(),
            )),
    {
        let n = self.scopes.len();
        let mut k: usize = n;
        while k > 0
            invariant
                k <= n,
                n == self.scopes@.len(),
                scopes_lookup(self.scopes@, name@, n as int) == scopes_lookup(
                    self.scopes@,
                    name@,
                    k as int,
                ),
            decreases k,
        {
            match self.scopes[k - 1].lookup(name) {
                Some(symbol) => {
                    proof {
                        if self.wf() {
                            lemma_bindings_lookup_wf(
                                self.scopes@[k - 1].variables@,
                                name@,
                                self.scopes@[k - 1].variables@.len() as int,
                                self.local_counter as nat,
                                self.functions@.len(),
                                self.imports@.len(),
                            );
                        }
                    }
                    return Some(symbol);
                },
                None => {},
            }
            k = k - 1;
        }
        None
    }

    /// Whether `name` is defined in the innermost scope.
    fn is_defined(&self, name: &[u8]) -> (r: bool)
        requires
            self.scopes@.len() >= 1,
        ensures
            r == self.scopes@.last().spec_contains(name@),
    {
        let n = self.scopes.len();
        self.scopes[n - 1].contains(name)
    }

    /// The binding of `name` in the innermost scope.
    fn get_local(&self, name: &[u8]) -> (r: Symbol)
        requires
            self.scopes@.len() >= 1,
            self.scopes@.last().spec_contains(name@),
        ensures
            Some(r) == self.scopes@.last().spec_lookup(name@),
            self.wf() ==> sym_wf(
                r,
                self.local_counter as nat,
                self.functions@.len(),
                self.imports@.len(),
            ),
    {
        let n = self.scopes.len();
        proof {
            if self.wf() {
                lemma_bindings_lookup_wf(
                    self.scopes@.last().variables@,
                    name@,
                    self.scopes@.last().variables@.len() as int,
                    self.local_counter as nat,
                    self.functions@.len(),
                    self.imports@.len(),
                );
            }
        }
        match self.scopes[n - 1].lookup(name) {
            Some(symbol) => symbol,
            None => Symbol::Builtin(Builtin::Len),
        }
    }

    /// Allocate a fresh local of the given type, optionally binding it to
    /// a name in the innermost scope.
    fn new_local(&mut self, name: Option<&[u8]>, typ: Type) -> (r: Result<Symbol, CompilationError>)
        requires
            old(self).scopes@.len() >= 1,
            old(self).wf(),
        ensures
            final(self).scopes@.len() == old(self).scopes@.len(),
            final(self).functions@ == old(self).functions@,
            final(self).imports@ == old(self).imports@,
            final(self).wf(),
            r is Err ==> *final(self) == *old(self),
            r matches Ok(s) ==> {
                &&& s == (Symbol::Local { typ: typ, index: old(self).local_counter as usize })
                &&& final(self).local_counter == old(self).local_counter + 1
                &&& old(self).grows_to(*final(self))
                &&& name matches Some(n) ==> final(self).scopes@.last().spec_lookup(n@) == Some(s)
                &&& name is None ==> final(self).scopes@.last().variables@ == old(self).scopes@.last().variables@
            },
    {
        if self.local_counter == usize::MAX {
            return Err(
                CompilationError {
                    location: None,
                    message: "Too many locals in this function".to_owned(),
                },
            );
        }
        let index = self.local_counter;
        self.local_counter = self.local_counter + 1;
        let symbol = Symbol::Local { typ: typ.clone(), index };
        let mut top = match self.scopes.pop() {
            Some(s) => s,
            None => Scope::new(),
        };
        top.locals.push(Local { typ });
        match name {
            Some(n) => {
                top.register(n, symbol.clone());
            },
            None => {},
        }
        self.scopes.push(top);
        proof {
            assert forall|k: int| 0 <= k < self.scopes@.len() implies (
            #[trigger] self.scopes@[k]).wf(
                self.local_counter as nat,
                self.functions@.len(),
                self.imports@.len(),
            ) by {
                assert(old(self).scopes@[k].wf(
                    old(self).local_counter as nat,
                    old(self).functions@.len(),
                    old(self).imports@.len(),
                ));
                let vars = self.scopes@[k].variables@;
                assert forall|i: int| 0 <= i < vars.len() implies sym_wf(
                    (#[trigger] vars[i]).1,
                    self.local_counter as nat,
                    self.functions@.len(),
                    self.imports@.len(),
                ) by {
                    if k < self.scopes@.len() - 1 || i < old(self).scopes@[k].variables@.len() {
                        assert(vars[i] == old(self).scopes@[k].variables@[i]);
                        assert(sym_wf(
                            vars[i].1,
                            old(self).local_counter as nat,
                            old(self).functions@.len(),
                            old(self).imports@.len(),
                        ));
                    }
                }
            }
        }
        Ok(symbol)
    }
}

} // verus!

verus! {

/// An error at the location of the given expression.
fn new_error(expression: &ast::Expression, message: String) -> (r: CompilationError)
    ensures
        r.location == Some(expression.location),
{
    CompilationError::new(&expression.location, message)
}

/// Render a type the way it is written in source, as in `list[int]`.
fn type_text(typ: &Type) -> Vec<u8>
    decreases typ,
{
    match typ {
        Type::Float => vec![0x66, 0x6c, 0x6f, 0x61, 0x74],  // float
        Type::Integer => vec![0x69, 0x6e, 0x74],  // int
        Type::Bool => vec![0x62, 0x6f, 0x6f, 0x6c],  // bool
        Type::Str => vec![0x73, 0x74, 0x72],  // str
        Type::Bytes => vec![0x62, 0x79, 0x74, 0x65, 0x73],  // bytes
        Type::List(element) => {
            let mut text: Vec<u8> = vec![0x6c, 0x69, 0x73, 0x74, 0x5b];  // list[
            let mut inner = type_text(element);
            text.append(&mut inner);
            text.push(0x5d);  // ]
            text
        },
        Type::Tuple(element) => {
            let mut text: Vec<u8> = vec![0x74, 0x75, 0x70, 0x6c, 0x65, 0x5b];  // tuple[
            let mut inner = type_text(element);
            text.append(&mut inner);
            text.push(0x5d);  // ]
            text
        },
    }
}

/// The constructors of compound type expressions.
enum TypeConstructor {
    List,
    Tuple,
}

/// The constructor a type expression's head denotes, if any.
spec fn resolve_constructor(e: ast::Expression) -> Option<TypeConstructor> {
    match e.kind {
        ast::ExpressionType::Identifier(name) => {
            if name@ == seq![0x6cu8, 0x69u8, 0x73u8, 0x74u8] {
                Some(TypeConstructor::List)
            } else if name@ == seq![0x74u8, 0x75u8, 0x70u8, 0x6cu8, 0x65u8] {
                Some(TypeConstructor::Tuple)
            } else {
                None
            }
        },
        _ => None,
    }
}

/// Function well-formedness is monotone in the function and import
/// counts.
pub proof fn lemma_function_wf_mono(f: Function, nf1: nat, ni1: nat, nf2: nat, ni2: nat)
    requires
        function_wf(f, nf1, ni1),
        nf1 <= nf2,
        ni1 <= ni2,
    ensures
        function_wf(f, nf2, ni2),
{
    assert forall|i: int| 0 <= i < f.body@.len() implies stmt_wf(
        #[trigger] f.body@[i],
        function_slots(f),
        nf2,
        ni2,
    ) by {
        lemma_stmt_wf_mono(f.body@[i], function_slots(f), nf1, ni1, function_slots(f), nf2, ni2);
    }
}

/// The type a type expression denotes, when it denotes one: the five
/// base type names, and `list[T]` or `tuple[T]` over a nested type
/// expression.
pub open spec fn resolve_type(e: ast::Expression) -> Option<Type>
    decreases e,
{
    match e.kind {
        ast::ExpressionType::Identifier(name) => {
            if name@ == seq![0x66u8, 0x6cu8, 0x6fu8, 0x61u8, 0x74u8] {
                Some(Type::Float)
            } else if name@ == seq![0x69u8, 0x6eu8, 0x74u8] {
                Some(Type::Integer)
            } else if name@ == seq![0x62u8, 0x6fu8, 0x6fu8, 0x6cu8] {
                Some(Type::Bool)
            } else if name@ == seq![0x73u8, 0x74u8, 0x72u8] {
                Some(Type::Str)
            } else if name@ == seq![0x62u8, 0x79u8, 0x74u8, 0x65u8, 0x73u8] {
                Some(Type::Bytes)
            } else {
                None
            }
        },
        ast::ExpressionType::Indexed { base, index } => match base.kind {
            ast::ExpressionType::Identifier(name) => {
                if name@ == seq![0x6cu8, 0x69u8, 0x73u8, 0x74u8] {
                    match resolve_type(*index) {
                        Some(t) => Some(Type::List(Box::new(t))),
                        None => None,
                    }
                } else if name@ == seq![0x74u8, 0x75u8, 0x70u8, 0x6cu8, 0x65u8] {
                    match resolve_type(*index) {
                        Some(t) => Some(Type::Tuple(Box::new(t))),
                        None => None,
                    }
                } else {
                    None
                }
            },
            _ => None,
        },
        _ => None,
    }
}

impl Analyzer {
    /// Define the built-in functions `ord` and `len` in a scope of their
    /// own.
    fn define_intrinsics(&mut self)
        requires
            old(self).scopes@.len() == 0,
        ensures
            final(self).scopes@.len() == 1,
            final(self).local_counter == old(self).local_counter,
            final(self).functions@ == old(self).functions@,
            final(self).imports@ == old(self).imports@,
            final(self).wf(),
            forall|i: int|
                0 <= i < final(self).scopes@.last().variables@.len() ==> !is_slot(
                    (#[trigger] final(self).scopes@.last().variables@[i]).1,
                ),
            final(self).scopes@.last().spec_lookup(ord_name()) == Some(
                Symbol::Builtin(Builtin::Ord),
            ),
            final(self).scopes@.last().spec_lookup(len_name()) == Some(
                Symbol::Builtin(Builtin::Len),
            ),
    {
        self.enter_scope();
        let name_ord: Vec<u8> = vec![0x6f, 0x72, 0x64];  // ord
        self.define(name_ord.as_slice(), Symbol::Builtin(Builtin::Ord));
        let name_len: Vec<u8> = vec![0x6c, 0x65, 0x6e];  // len
        self.define(name_len.as_slice(), Symbol::Builtin(Builtin::Len));
        proof {
            assert(name_ord@ =~= ord_name());
            assert(name_len@ =~= len_name());
            assert(ord_name() != len_name()) by {
                assert(ord_name()[0] != len_name()[0]);
            }
            let vars = self.scopes@.last().variables@;
            assert(vars.len() == 2);
            assert(vars[1].0@ == len_name());
            assert(vars[0].0@ == ord_name());
            assert(vars[0].1 == Symbol::Builtin(Builtin::Ord));
            assert(bindings_lookup(vars, ord_name(), 1) == Some(Symbol::Builtin(Builtin::Ord)));
            assert(bindings_lookup(vars, ord_name(), 2) == Some(Symbol::Builtin(Builtin::Ord)));
            assert(bindings_lookup(vars, len_name(), 2) == Some(Symbol::Builtin(Builtin::Len)));
        }
    }

    /// Resolve a type expression such as `int` or `list[float]`.
    fn get_type(&self, typ: &ast::Expression) -> (r: Result<Type, CompilationError>)
        ensures
            r is Ok <==> resolve_type(*typ) is Some,
            r matches Ok(t) ==> Some(t) == resolve_type(*typ),
        decreases typ,
    {
        match &typ.kind {
            ast::ExpressionType::Identifier(name) => {
                if bytes_eq(name.as_slice(), vec![0x66, 0x6c, 0x6f, 0x61, 0x74].as_slice()) {
                    Ok(Type::Float)  // float
                } else if bytes_eq(name.as_slice(), vec![0x69, 0x6e, 0x74].as_slice()) {
                    Ok(Type::Integer)  // int
                } else if bytes_eq(name.as_slice(), vec![0x62, 0x6f, 0x6f, 0x6c].as_slice()) {
                    Ok(Type::Bool)  // bool
                } else if bytes_eq(name.as_slice(), vec![0x73, 0x74, 0x72].as_slice()) {
                    Ok(Type::Str)  // str
                } else if bytes_eq(name.as_slice(), vec![0x62, 0x79, 0x74, 0x65, 0x73].as_slice()) {
                    Ok(Type::Bytes)  // bytes
                } else {
                    Err(
                        new_error(
                            typ,
                            message_with("Invalid type identifier: ", name.as_slice()),
                        ),
                    )
                }
            },
            ast::ExpressionType::Indexed { base, index } => {
                let constructor = match self.get_type_constructor(base) {
                    Ok(c) => c,
                    Err(e) => {
                        return Err(e);
                    },
                };
                let index_type = match self.get_type(index) {
                    Ok(t) => t,
                    Err(e) => {
                        return Err(e);
                    },
                };
                Ok(self.apply(constructor, index_type))
            },
            _ => Err(new_error(typ, "Invalid type expression".to_owned())),
        }
    }

    /// Resolve the constructor of a compound type expression.
    fn get_type_constructor(&self, con: &ast::Expression) -> (r: Result<
        TypeConstructor,
        CompilationError,
    >)
        ensures
            r is Ok <==> resolve_constructor(*con) is Some,
            r matches Ok(c) ==> Some(c) == resolve_constructor(*con),
    {
        match &con.kind {
            ast::ExpressionType::Identifier(name) => {
                if bytes_eq(name.as_slice(), vec![0x6c, 0x69, 0x73, 0x74].as_slice()) {
                    Ok(TypeConstructor::List)  // list
                } else if bytes_eq(name.as_slice(), vec![0x74, 0x75, 0x70, 0x6c, 0x65].as_slice()) {
                    Ok(TypeConstructor::Tuple)  // tuple
                } else {
                    Err(
                        new_error(
                            con,
                            message_with("No such type constructor ", name.as_slice()),
                        ),
                    )
                }
            },
            _ => Err(new_error(con, "Invalid type constructor".to_owned())),
        }
    }

    fn apply(&self, con: TypeConstructor, arg: Type) -> (r: Type)
        ensures
            r == match con {
                TypeConstructor::List => Type::List(Box::new(arg)),
                TypeConstructor::Tuple => Type::Tuple(Box::new(arg)),
            },
    {
        match con {
            TypeConstructor::List => Type::List(Box::new(arg)),
            TypeConstructor::Tuple => Type::Tuple(Box::new(arg)),
        }
    }

    /// Check that two types are equal, as the operands of a binary
    /// operation must be.
    fn equal_types(&self, a_typ: &Type, b_typ: &Type, location: &Location) -> (r: Result<
        (),
        CompilationError,
    >)
        ensures
            r is Ok <==> a_typ == b_typ,
    {
        if type_eq(a_typ, b_typ) {
            Ok(())
        } else {
            let a_text = type_text(a_typ);
            let b_text = type_text(b_typ);
            Err(
                CompilationError::new(
                    location,
                    message_join("Type mismatch: '", a_text.as_slice(), "' is not '", b_text.as_slice(), "'"),
                ),
            )
        }
    }

    /// Check the arguments of a call against the callee's declared
    /// parameter types: same count, equal type at every position.
    fn check_arguments(
        &self,
        location: &Location,
        actual_args: &Vec<Expression>,
        expected_types: &Vec<Type>,
    ) -> (r: Result<(), CompilationError>)
        requires
            forall|i: int|
                0 <= i < actual_args@.len() ==> ((#[trigger] actual_args@[i]) matches
                    Expression::Identifier(s) ==> is_slot(s)),
        ensures
            r is Ok <==> (actual_args@.len() == expected_types@.len() && forall|i: int|
                0 <= i < actual_args@.len() ==> (#[trigger] actual_args@[i]).spec_type()
                    == expected_types@[i]),
    {
        let na = actual_args.len();
        let ne = expected_types.len();
        if na != ne {
            return Err(
                CompilationError::new(
                    location,
                    "Wrong number of arguments for this call".to_owned(),
                ),
            );
        }
        let mut i: usize = 0;
        while i < na
            invariant
                i <= na,
                na == actual_args@.len(),
                na == expected_types@.len(),
                forall|k: int|
                    0 <= k < actual_args@.len() ==> ((#[trigger] actual_args@[k]) matches
                        Expression::Identifier(s) ==> is_slot(s)),
                forall|k: int|
                    0 <= k < i ==> (#[trigger] actual_args@[k]).spec_type() == expected_types@[k],
            decreases na - i,
        {
            let arg_typ = actual_args[i].get_type();
            if !type_eq(&arg_typ, &expected_types[i]) {
                let e_text = type_text(&expected_types[i]);
                let a_text = type_text(&arg_typ);
                return Err(
                    CompilationError::new(
                        location,
                        message_join("Expected '", e_text.as_slice(), "' but got '", a_text.as_slice(), "'"),
                    ),
                );
            }
            i = i + 1;
        }
        Ok(())
    }
}

/// The name of the `ord` builtin, as bytes.
pub open spec fn ord_name() -> Seq<u8> {
    seq![0x6fu8, 0x72u8, 0x64u8]
}

/// The name of the `len` builtin, as bytes.
pub open spec fn len_name() -> Seq<u8> {
    seq![0x6cu8, 0x65u8, 0x6eu8]
}

} // verus!

verus! {

/// Whether an analyzed expression is a string literal of exactly one
/// byte, the shape that `ord` folds.
pub open spec fn one_char_string(e: Expression) -> bool {
    e matches Expression::String(sv) && sv@.len() == 1
}

/// The bytes of an analyzed string literal.
pub open spec fn string_value(e: Expression) -> Seq<u8> {
    match e {
        Expression::String(sv) => sv@,
        _ => Seq::empty(),
    }
}

/// The shape of an analyzed `len` call: the builtin callee, the original
/// argument list, and an integer result.
pub open spec fn len_call_result(e: Expression, callee: Symbol, args: Seq<Expression>) -> bool {
    &&& e matches Expression::Call { callee: c, arguments, typ } && c == callee && arguments@
        == args && typ == Type::Integer
}

/// Scope-stack lookup reads only the bindings, never the locals, so two
/// stacks with the same bindings resolve every name alike.
pub proof fn lemma_scopes_lookup_vars(s1: Seq<Scope>, s2: Seq<Scope>, name: Seq<u8>, k: int)
    requires
        s1.len() == s2.len(),
        forall|j: int| 0 <= j < s1.len() ==> (#[trigger] s2[j]).variables@ == s1[j].variables@,
        k <= s1.len(),
    ensures
        scopes_lookup(s1, name, k) == scopes_lookup(s2, name, k),
    decreases k,
{
    if k > 0 {
        assert(s2[k - 1].variables@ == s1[k - 1].variables@);
        lemma_scopes_lookup_vars(s1, s2, name, k - 1);
    }
}

impl Analyzer {
    /// Analyze a call of one of the builtins.  `len` accepts one list or
    /// tuple argument and yields an integer; `ord` folds a one-byte string
    /// literal to its code point at analysis time, and rejects everything
    /// else.
    fn analyze_builtin_call(
        &self,
        callee: &Symbol,
        location: &Location,
        builtin: Builtin,
        args: Vec<Expression>,
    ) -> (r: Result<Expression, CompilationError>)
        requires
            *callee == Symbol::Builtin(builtin),
            forall|i: int|
                0 <= i < args@.len() ==> ((#[trigger] args@[i]) matches Expression::Identifier(s)
                    ==> is_slot(s)),
        ensures
            builtin is Len ==> (r is Ok <==> (args@.len() == 1 && (args@[0].spec_type() is List
                || args@[0].spec_type() is Tuple))),
            r matches Ok(e) ==> (builtin is Len ==> len_call_result(e, *callee, args@)),
            builtin is Ord ==> (r is Ok <==> (args@.len() == 1 && one_char_string(args@[0]))),
            (builtin is Ord && args@.len() == 1 && one_char_string(args@[0])) ==> r
                == Ok::<Expression, CompilationError>(
                Expression::Number(string_value(args@[0])[0] as i32),
            ),
            r matches Ok(e) ==> forall|nl: nat, nf: nat, ni: nat|
                (forall|i: int|
                    0 <= i < args@.len() ==> expr_wf(#[trigger] args@[i], nl, nf, ni)) ==> expr_wf(
                    e,
                    nl,
                    nf,
                    ni,
                ),
    {
        match builtin {
            Builtin::Len => {
                if args.len() != 1 {
                    return Err(
                        CompilationError::new(location, "len takes a single argument".to_owned()),
                    );
                }
                let arg_typ = args[0].get_type();
                match arg_typ {
                    Type::List(_) | Type::Tuple(_) => {},
                    other => {
                        let text = type_text(&other);
                        return Err(
                            CompilationError::new(
                                location,
                                message_with("Cannot use this type as argument for len: ", text.as_slice()),
                            ),
                        );
                    },
                }
                Ok(Expression::Call { callee: callee.clone(), arguments: args, typ: Type::Integer })
            },
            Builtin::Ord => {
                if args.len() != 1 {
                    return Err(
                        CompilationError::new(location, "ord takes a single argument".to_owned()),
                    );
                }
                let arg_typ = args[0].get_type();
                match arg_typ {
                    Type::Str => {},
                    _ => {
                        return Err(
                            CompilationError::new(
                                location,
                                "ord takes a string argument".to_owned(),
                            ),
                        );
                    },
                }
                match &args[0] {
                    Expression::String(value) => {
                        if value.len() == 1 {
                            let code = value[0] as i32;
                            Ok(Expression::Number(code))
                        } else {
                            Err(
                                CompilationError::new(
                                    location,
                                    "String passed to ord must be a single character".to_owned(),
                                ),
                            )
                        }
                    },
                    _ => Err(
                        CompilationError::new(
                            location,
                            "ord expects a string literal".to_owned(),
                        ),
                    ),
                }
            },
        }
    }
}

} // verus!

verus! {

/// Whether a parsed expression is a string literal.
pub open spec fn ast_is_str(e: ast::Expression) -> bool {
    e.kind matches ast::ExpressionType::Str(s)
}

/// The bytes of a parsed string literal.
pub open spec fn ast_str_value(e: ast::Expression) -> Seq<u8> {
    match e.kind {
        ast::ExpressionType::Str(s) => s@,
        _ => Seq::empty(),
    }
}

/// Whether a parsed expression is a call of the `ord` builtin on a
/// one-byte string literal, which analysis folds to an integer literal.
pub open spec fn is_folded_ord_call(e: ast::Expression, scopes: Seq<Scope>) -> bool {
    &&& e.kind matches ast::ExpressionType::Call { callee, arguments }
    &&& callee.kind matches ast::ExpressionType::Identifier(nm)
    &&& scopes_lookup(scopes, nm@, scopes.len() as int) == Some(Symbol::Builtin(Builtin::Ord))
    &&& arguments@.len() == 1
    &&& arguments@[0].kind matches ast::ExpressionType::Str(sv)
    &&& sv@.len() == 1
}

/// The code point that such a call folds to.
pub open spec fn ord_fold_value(e: ast::Expression) -> int {
    match e.kind {
        ast::ExpressionType::Call { callee, arguments } => match arguments@[0].kind {
            ast::ExpressionType::Str(sv) => sv@[0] as int,
            _ => 0,
        },
        _ => 0,
    }
}

/// The result type of a typed function when used in a call: its declared
/// return type, or integer for a function without one.
pub open spec fn call_result_type(rt: Option<Type>) -> Type {
    match rt {
        Some(t) => t,
        None => Type::Integer,
    }
}

/// What analysis makes of a comparison: the same operator, operands of
/// one shared type, and a boolean result.
pub open spec fn comparison_result(src: ast::Expression, e: Expression) -> bool {
    match src.kind {
        ast::ExpressionType::Comparison { a: _, op, b: _ } => match e {
            Expression::BinaryOperation { a, op: iop, b, typ } => {
                &&& iop == BinaryOperation::Comparison(op)
                &&& typ == Type::Bool
                &&& a.spec_type() == b.spec_type()
            },
            _ => false,
        },
        _ => true,
    }
}

/// What analysis makes of an arithmetic operation: the same operator,
/// operands of one shared type, and that type as the result.
pub open spec fn arithmetic_result(src: ast::Expression, e: Expression) -> bool {
    match src.kind {
        ast::ExpressionType::BinaryOperation { a: _, op, b: _ } => match e {
            Expression::BinaryOperation { a, op: iop, b, typ } => {
                &&& iop == BinaryOperation::ArithmaticOperation(op)
                &&& a.spec_type() == b.spec_type()
                &&& typ == a.spec_type()
            },
            _ => false,
        },
        _ => true,
    }
}

/// What analysis makes of a boolean operation: the same operator,
/// operands of one shared type, and a boolean result.
pub open spec fn boolean_result(src: ast::Expression, e: Expression) -> bool {
    match src.kind {
        ast::ExpressionType::BoolOp { a: _, op, b: _ } => match e {
            Expression::BinaryOperation { a, op: iop, b, typ } => {
                &&& iop == BinaryOperation::Boolean(op)
                &&& typ == Type::Bool
                &&& a.spec_type() == b.spec_type()
            },
            _ => false,
        },
        _ => true,
    }
}

/// What analysis makes of an index expression: an integer index on a
/// list or tuple, with the element type as the result.
pub open spec fn indexed_result(src: ast::Expression, e: Expression) -> bool {
    match src.kind {
        ast::ExpressionType::Indexed { base: _, index: _ } => match e {
            Expression::Indexed { base, index, typ } => {
                &&& index.spec_type() == Type::Integer
                &&& match base.spec_type() {
                    Type::List(et) => typ == *et,
                    Type::Tuple(et) => typ == *et,
                    _ => false,
                }
            },
            _ => false,
        },
        _ => true,
    }
}

/// What analysis makes of a list literal: at least one element, all of
/// the first element's type, a list of that type, and an integer helper
/// local for the base pointer.
pub open spec fn list_result(src: ast::Expression, e: Expression) -> bool {
    match src.kind {
        ast::ExpressionType::List { elements: _ } => match e {
            Expression::List { elements, typ, helper_local } => {
                &&& elements@.len() >= 1
                &&& typ == Type::List(Box::new(elements@[0].spec_type()))
                &&& forall|k: int|
                    0 <= k < elements@.len() ==> (#[trigger] elements@[k]).spec_type()
                        == elements@[0].spec_type()
                &&& slot_type(helper_local) == Type::Integer
            },
            _ => false,
        },
        _ => true,
    }
}

/// What analysis makes of a call: `ord` folds to a number; every other
/// resolvable callee gives a call expression whose type is the callee's
/// declared result, taken from the function or import tables.
pub open spec fn call_result(
    src: ast::Expression,
    e: Expression,
    functions: Seq<Function>,
    imports: Seq<Import>,
) -> bool {
    match src.kind {
        ast::ExpressionType::Call { callee: _, arguments: _ } => match e {
            Expression::Number(_) => true,
            Expression::Call { callee, arguments, typ } => match callee {
                Symbol::Function { index } => index < functions.len() && typ == call_result_type(
                    functions[index as int].return_type,
                ),
                Symbol::ExternFunction { index } => index < imports.len() && typ
                    == call_result_type(imports[index as int].return_type),
                Symbol::Builtin(b) => b is Len && typ == Type::Integer,
                _ => false,
            },
            _ => false,
        },
        _ => true,
    }
}

impl Analyzer {
    /// What expression analysis may do to the analyzer: allocate helper
    /// locals in the innermost scope, but never bind a name.
    spec fn expr_step(pre: Analyzer, post: Analyzer) -> bool {
        &&& pre.grows_to(post)
        &&& pre.scopes@.len() >= 1 ==> post.scopes@.last().variables@
            == pre.scopes@.last().variables@
    }

    /// Analyze a list of expressions in order.
    fn analyze_expressions(&mut self, expressions: &Vec<ast::Expression>) -> (r: Result<
        Vec<Expression>,
        CompilationError,
    >)
        requires
            old(self).scopes@.len() >= 1,
            old(self).wf(),
        ensures
            final(self).wf(),
            Analyzer::expr_step(*old(self), *final(self)),
            (forall|i: int| 0 <= i < expressions@.len() ==> ast_is_str(#[trigger] expressions@[i]))
                ==> r is Ok,
            r matches Ok(es) ==> {
                &&& es@.len() == expressions@.len()
                &&& forall|i: int|
                    0 <= i < es@.len() ==> expr_wf(
                        #[trigger] es@[i],
                        final(self).local_counter as nat,
                        final(self).functions@.len(),
                        final(self).imports@.len(),
                    )
                &&& forall|i: int|
                    0 <= i < es@.len() ==> (ast_is_str(#[trigger] expressions@[i]) ==> (
                    es@[i] is String && string_value(es@[i]) == ast_str_value(expressions@[i])))
            },
        decreases expressions,
    {
        let n = expressions.len();
        let mut new_expressions: Vec<Expression> = Vec::new();
        let mut i: usize = 0;
        while i < n
            invariant
                i <= n,
                n == expressions@.len(),
                self.scopes@.len() >= 1,
                self.wf(),
                Analyzer::expr_step(*old(self), *self),
                new_expressions@.len() == i,
                forall|k: int|
                    0 <= k < i ==> expr_wf(
                        #[trigger] new_expressions@[k],
                        self.local_counter as nat,
                        self.functions@.len(),
                        self.imports@.len(),
                    ),
                forall|k: int|
                    0 <= k < i ==> (ast_is_str(#[trigger] expressions@[k]) ==> (
                    new_expressions@[k] is String && string_value(new_expressions@[k])
                        == ast_str_value(expressions@[k]))),
            decreases n - i,
        {
            proof {
                assert(decreases_to!(*expressions => expressions@));
                assert(decreases_to!(expressions@ => expressions@[i as int]));
            }
            let ghost pre = *self;
            let new_expr = match self.analyze_expression(&expressions[i]) {
                Ok(e) => e,
                Err(e) => {
                    return Err(e);
                },
            };
            new_expressions.push(new_expr);
            proof {
                assert forall|k: int| 0 <= k < i + 1 implies expr_wf(
                    #[trigger] new_expressions@[k],
                    self.local_counter as nat,
                    self.functions@.len(),
                    self.imports@.len(),
                ) by {
                    if k < i {
                        lemma_expr_wf_mono(
                            new_expressions@[k],
                            pre.local_counter as nat,
                            pre.functions@.len(),
                            pre.imports@.len(),
                            self.local_counter as nat,
                            self.functions@.len(),
                            self.imports@.len(),
                        );
                    }
                }
            }
            i = i + 1;
        }
        Ok(new_expressions)
    }

    /// Analyze one parsed expression: resolve identifiers, check operand
    /// and argument types, fold `ord` of one-byte string literals, and
    /// allocate a helper local for each list literal.
    fn analyze_expression(&mut self, expression: &ast::Expression) -> (r: Result<
        Expression,
        CompilationError,
    >)
        requires
            old(self).scopes@.len() >= 1,
            old(self).wf(),
        ensures
            final(self).wf(),
            Analyzer::expr_step(*old(self), *final(self)),
            r matches Ok(e) ==> expr_wf(
                e,
                final(self).local_counter as nat,
                final(self).functions@.len(),
                final(self).imports@.len(),
            ),
            ast_is_str(*expression) ==> r is Ok,
            r matches Ok(e) ==> (ast_is_str(*expression) ==> e is String && string_value(e)
                == ast_str_value(*expression)),
            expression.kind matches ast::ExpressionType::Number(v) ==> r == Ok::<
                Expression,
                CompilationError,
            >(Expression::Number(v)),
            expression.kind matches ast::ExpressionType::Float(b) ==> r == Ok::<
                Expression,
                CompilationError,
            >(Expression::Float(b)),
            expression.kind matches ast::ExpressionType::Identifier(nm) && scopes_lookup(
                old(self).scopes@,
                nm@,
                old(self).scopes@.len() as int,
            ) is None ==> r is Err,
            is_folded_ord_call(*expression, old(self).scopes@) ==> r == Ok::<
                Expression,
                CompilationError,
            >(Expression::Number(ord_fold_value(*expression) as i32)),
            r matches Ok(e) ==> {
                &&& comparison_result(*expression, e)
                &&& arithmetic_result(*expression, e)
                &&& boolean_result(*expression, e)
                &&& indexed_result(*expression, e)
                &&& list_result(*expression, e)
                &&& call_result(*expression, e, final(self).functions@, final(self).imports@)
            },
        decreases expression,
    {
        match &expression.kind {
            ast::ExpressionType::Number(value) => Ok(Expression::Number(*value)),
            ast::ExpressionType::Float(value) => Ok(Expression::Float(*value)),
            ast::ExpressionType::Str(value) => Ok(Expression::String(clone_bytes(value))),
            ast::ExpressionType::List { elements } => {
                proof {
                    let e = *expression;
                    assert(decreases_to!(e => e.kind));
                    assert(decreases_to!(e.kind => e.kind->List_elements));
                }
                let analyzed = match self.analyze_expressions(elements) {
                    Ok(es) => es,
                    Err(e) => {
                        return Err(e);
                    },
                };
                if analyzed.len() == 0 {
                    return Err(
                        new_error(expression, "List must contain at least 1 value".to_owned()),
                    );
                }
                if analyzed.len() > MAX_LIST_LENGTH {
                    return Err(
                        new_error(expression, "List has too many elements".to_owned()),
                    );
                }
                let element_typ = analyzed[0].get_type();
                let n = analyzed.len();
                let mut k: usize = 1;
                while k < n
                    invariant
                        1 <= k <= n,
                        n == analyzed@.len(),
                        self.scopes@.len() >= 1,
                        self.wf(),
                        Analyzer::expr_step(*old(self), *self),
                        expression.kind is List,
                        element_typ == analyzed@[0].spec_type(),
                        forall|j: int|
                            0 <= j < k ==> (#[trigger] analyzed@[j]).spec_type()
                                == analyzed@[0].spec_type(),
                        forall|j: int|
                            0 <= j < analyzed@.len() ==> ((#[trigger] analyzed@[j]) matches
                                Expression::Identifier(s) ==> is_slot(s)),
                    decreases n - k,
                {
                    let item_typ = analyzed[k].get_type();
                    if !type_eq(&element_typ, &item_typ) {
                        return Err(
                            new_error(
                                expression,
                                "All elements must be of the same type".to_owned(),
                            ),
                        );
                    }
                    k = k + 1;
                }
                let typ = Type::List(Box::new(element_typ));
                let ghost pre = *self;
                let helper_local = match self.new_local(None, Type::Integer) {
                    Ok(s) => s,
                    Err(e) => {
                        return Err(e);
                    },
                };
                proof {
                    assert forall|j: int| 0 <= j < analyzed@.len() implies expr_wf(
                        #[trigger] analyzed@[j],
                        self.local_counter as nat,
                        self.functions@.len(),
                        self.imports@.len(),
                    ) by {
                        lemma_expr_wf_mono(
                            analyzed@[j],
                            pre.local_counter as nat,
                            pre.functions@.len(),
                            pre.imports@.len(),
                            self.local_counter as nat,
                            self.functions@.len(),
                            self.imports@.len(),
                        );
                    }
                }
                Ok(Expression::List { elements: analyzed, typ, helper_local })
            },
            ast::ExpressionType::Identifier(value) => {
                match self.lookup(value.as_slice()) {
                    Some(symbol) => match symbol {
                        Symbol::Parameter { .. } | Symbol::Local { .. } => Ok(
                            Expression::Identifier(symbol),
                        ),
                        _ => Err(
                            new_error(
                                expression,
                                message_with("Cannot use as a value: ", value.as_slice()),
                            ),
                        ),
                    },
                    None => Err(
                        new_error(
                            expression,
                            message_with("Undefined: ", value.as_slice()),
                        ),
                    ),
                }
            },
            ast::ExpressionType::Comparison { a, op, b } => {
                proof {
                    let e = *expression;
                    assert(decreases_to!(e => e.kind));
                    assert(decreases_to!(e.kind => e.kind->Comparison_a));
                    assert(decreases_to!(e.kind => e.kind->Comparison_b));
                }
                let ea = match self.analyze_expression(a) {
                    Ok(x) => x,
                    Err(e) => {
                        return Err(e);
                    },
                };
                let ghost mid = *self;
                let eb = match self.analyze_expression(b) {
                    Ok(x) => x,
                    Err(e) => {
                        return Err(e);
                    },
                };
                proof {
                    lemma_expr_wf_mono(
                        ea,
                        mid.local_counter as nat,
                        mid.functions@.len(),
                        mid.imports@.len(),
                        self.local_counter as nat,
                        self.functions@.len(),
                        self.imports@.len(),
                    );
                }
                let ta = ea.get_type();
                let tb = eb.get_type();
                match self.equal_types(&ta, &tb, &expression.location) {
                    Ok(()) => {},
                    Err(e) => {
                        return Err(e);
                    },
                }
                Ok(
                    Expression::BinaryOperation {
                        a: Box::new(ea),
                        op: BinaryOperation::Comparison(*op),
                        b: Box::new(eb),
                        typ: Type::Bool,
                    },
                )
            },
            ast::ExpressionType::BinaryOperation { a, op, b } => {
                proof {
                    let e = *expression;
                    assert(decreases_to!(e => e.kind));
                    assert(decreases_to!(e.kind => e.kind->BinaryOperation_a));
                    assert(decreases_to!(e.kind => e.kind->BinaryOperation_b));
                }
                let ea = match self.analyze_expression(a) {
                    Ok(x) => x,
                    Err(e) => {
                        return Err(e);
                    },
                };
                let ghost mid = *self;
                let eb = match self.analyze_expression(b) {
                    Ok(x) => x,
                    Err(e) => {
                        return Err(e);
                    },
                };
                proof {
                    lemma_expr_wf_mono(
                        ea,
                        mid.local_counter as nat,
                        mid.functions@.len(),
                        mid.imports@.len(),
                        self.local_counter as nat,
                        self.functions@.len(),
                        self.imports@.len(),
                    );
                }
                let ta = ea.get_type();
                let tb = eb.get_type();
                match self.equal_types(&ta, &tb, &expression.location) {
                    Ok(()) => {},
                    Err(e) => {
                        return Err(e);
                    },
                }
                let typ = ea.get_type();
                Ok(
                    Expression::BinaryOperation {
                        a: Box::new(ea),
                        op: BinaryOperation::ArithmaticOperation(*op),
                        b: Box::new(eb),
                        typ,
                    },
                )
            },
            ast::ExpressionType::BoolOp { a, op, b } => {
                proof {
                    let e = *expression;
                    assert(decreases_to!(e => e.kind));
                    assert(decreases_to!(e.kind => e.kind->BoolOp_a));
                    assert(decreases_to!(e.kind => e.kind->BoolOp_b));
                }
                let ea = match self.analyze_expression(a) {
                    Ok(x) => x,
                    Err(e) => {
                        return Err(e);
                    },
                };
                let ghost mid = *self;
                let eb = match self.analyze_expression(b) {
                    Ok(x) => x,
                    Err(e) => {
                        return Err(e);
                    },
                };
                proof {
                    lemma_expr_wf_mono(
                        ea,
                        mid.local_counter as nat,
                        mid.functions@.len(),
                        mid.imports@.len(),
                        self.local_counter as nat,
                        self.functions@.len(),
                        self.imports@.len(),
                    );
                }
                let ta = ea.get_type();
                let tb = eb.get_type();
                match self.equal_types(&ta, &tb, &expression.location) {
                    Ok(()) => {},
                    Err(e) => {
                        return Err(e);
                    },
                }
                Ok(
                    Expression::BinaryOperation {
                        a: Box::new(ea),
                        op: BinaryOperation::Boolean(*op),
                        b: Box::new(eb),
                        typ: Type::Bool,
                    },
                )
            },
            ast::ExpressionType::Call { callee, arguments } => {
                proof {
                    let e = *expression;
                    assert(decreases_to!(e => e.kind));
                    assert(decreases_to!(e.kind => e.kind->Call_arguments));
                }
                let ghost folded = is_folded_ord_call(*expression, old(self).scopes@);
                let args = match self.analyze_expressions(arguments) {
                    Ok(es) => es,
                    Err(e) => {
                        proof {
                            if folded {
                                assert(ast_is_str(arguments@[0]));
                                assert(forall|i: int|
                                    0 <= i < arguments@.len() ==> ast_is_str(
                                        #[trigger] arguments@[i],
                                    ));
                                assert(false);
                            }
                        }
                        return Err(e);
                    },
                };
                proof {
                    if folded {
                        assert(ast_is_str(arguments@[0]));
                        assert(args@[0] is String);
                        assert(string_value(args@[0]) == ast_str_value(arguments@[0]));
                        assert(one_char_string(args@[0]));
                    }
                }
                match &callee.kind {
                    ast::ExpressionType::Identifier(name) => {
                        proof {
                            lemma_scopes_lookup_vars(
                                old(self).scopes@,
                                self.scopes@,
                                name@,
                                self.scopes@.len() as int,
                            );
                        }
                        match self.lookup(name.as_slice()) {
                            Some(symbol) => match &symbol {
                                Symbol::Function { index } => {
                                    let nf = self.functions.len();
                                    let npar = self.functions[*index].parameters.len();
                                    let mut expected: Vec<Type> = Vec::new();
                                    let mut k: usize = 0;
                                    while k < npar
                                        invariant
                                            k <= npar,
                                            *index < self.functions@.len(),
                                            npar == self.functions@[*index as int].parameters@.len(),
                                            expected@.len() == k,
                                        decreases npar - k,
                                    {
                                        expected.push(
                                            self.functions[*index].parameters[k].typ.clone(),
                                        );
                                        k = k + 1;
                                    }
                                    match self.check_arguments(
                                        &expression.location,
                                        &args,
                                        &expected,
                                    ) {
                                        Ok(()) => {},
                                        Err(e) => {
                                            return Err(e);
                                        },
                                    }
                                    // The result is the callee's declared
                                    // return type; a function without one is
                                    // treated as integer-valued.
                                    let typ = match &self.functions[*index].return_type {
                                        Some(t) => t.clone(),
                                        None => Type::Integer,
                                    };
                                    Ok(
                                        Expression::Call {
                                            callee: symbol.clone(),
                                            arguments: args,
                                            typ,
                                        },
                                    )
                                },
                                Symbol::ExternFunction { index } => {
                                    let npar = self.imports[*index].parameter_types.len();
                                    let mut expected: Vec<Type> = Vec::new();
                                    let mut k: usize = 0;
                                    while k < npar
                                        invariant
                                            k <= npar,
                                            *index < self.imports@.len(),
                                            npar == self.imports@[*index as int].parameter_types@.len(),
                                            expected@.len() == k,
                                        decreases npar - k,
                                    {
                                        expected.push(
                                            self.imports[*index].parameter_types[k].clone(),
                                        );
                                        k = k + 1;
                                    }
                                    match self.check_arguments(
                                        &expression.location,
                                        &args,
                                        &expected,
                                    ) {
                                        Ok(()) => {},
                                        Err(e) => {
                                            return Err(e);
                                        },
                                    }
                                    let typ = match &self.imports[*index].return_type {
                                        Some(t) => t.clone(),
                                        None => Type::Integer,
                                    };
                                    Ok(
                                        Expression::Call {
                                            callee: symbol.clone(),
                                            arguments: args,
                                            typ,
                                        },
                                    )
                                },
                                Symbol::Builtin(builtin) => {
                                    let b = *builtin;
                                    self.analyze_builtin_call(
                                        &symbol,
                                        &expression.location,
                                        b,
                                        args,
                                    )
                                },
                                Symbol::Local { .. } => Err(
                                    new_error(expression, "Cannot call local variable".to_owned()),
                                ),
                                Symbol::Parameter { .. } => Err(
                                    new_error(expression, "Cannot call parameter".to_owned()),
                                ),
                            },
                            None => Err(
                                new_error(
                                    callee,
                                    message_with("Undefined: ", name.as_slice()),
                                ),
                            ),
                        }
                    },
                    _ => Err(new_error(callee, "Cannot call".to_owned())),
                }
            },
            ast::ExpressionType::Indexed { base, index } => {
                proof {
                    let e = *expression;
                    assert(decreases_to!(e => e.kind));
                    assert(decreases_to!(e.kind => e.kind->Indexed_base));
                    assert(decreases_to!(e.kind => e.kind->Indexed_index));
                }
                let eb = match self.analyze_expression(base) {
                    Ok(x) => x,
                    Err(e) => {
                        return Err(e);
                    },
                };
                let base_typ = eb.get_type();
                let typ = match base_typ {
                    Type::List(element_typ) => *element_typ,
                    Type::Tuple(element_typ) => *element_typ,
                    other => {
                        let text = type_text(&other);
                        return Err(
                            CompilationError::new(
                                &expression.location,
                                message_with("Cannot index type: ", text.as_slice()),
                            ),
                        );
                    },
                };
                let ghost mid = *self;
                let ei = match self.analyze_expression(index) {
                    Ok(x) => x,
                    Err(e) => {
                        return Err(e);
                    },
                };
                proof {
                    lemma_expr_wf_mono(
                        eb,
                        mid.local_counter as nat,
                        mid.functions@.len(),
                        mid.imports@.len(),
                        self.local_counter as nat,
                        self.functions@.len(),
                        self.imports@.len(),
                    );
                }
                let index_typ = ei.get_type();
                match index_typ {
                    Type::Integer => {},
                    other => {
                        let text = type_text(&other);
                        return Err(
                            CompilationError::new(
                                &expression.location,
                                message_with("Cannot use as index: ", text.as_slice()),
                            ),
                        );
                    },
                }
                Ok(Expression::Indexed { base: Box::new(eb), index: Box::new(ei), typ })
            },
        }
    }
}

} // verus!

verus! {

/// What analysis makes of each statement form: the matching typed
/// statement; a `for` loop gets integer counter and iterator helpers.
pub open spec fn statement_result(src: ast::Statement, s: Statement) -> bool {
    match src {
        ast::Statement::Return(_) => s is Return,
        ast::Statement::If { condition: _, suite: _, else_suite: _ } => s is If,
        ast::Statement::While { condition: _, suite: _ } => s is While,
        ast::Statement::For { target: _, iter: _, suite: _ } => match s {
            Statement::For { loop_var, iter_var, target, iter, suite } => {
                &&& slot_type(loop_var) == Type::Integer
                &&& slot_type(iter_var) == Type::Integer
                &&& iter.spec_type() is List
            },
            _ => false,
        },
        ast::Statement::Assignment { target: _, value: _ } => s is Assignment,
        ast::Statement::Expression(_) => s is Expression,
        _ => true,
    }
}

/// What analysis makes of one function definition: the same name, one
/// parameter per source parameter with its resolved annotation, the
/// resolved result annotation, and one typed statement per source
/// statement of the body, of the matching form.
pub open spec fn function_matches_def(f: Function, fd: ast::FunctionDef) -> bool {
    &&& f.name@ == fd.name@
    &&& f.parameters@.len() == fd.parameters@.len()
    &&& forall|j: int|
        0 <= j < f.parameters@.len() ==> (#[trigger] f.parameters@[j]).name@
            == fd.parameters@[j].name@ && Some(f.parameters@[j].typ) == resolve_type(
            fd.parameters@[j].typ,
        )
    &&& match fd.result {
        Some(e) => f.return_type == resolve_type(e),
        None => f.return_type is None,
    }
    &&& f.body@.len() == fd.body@.len()
    &&& forall|i: int|
        0 <= i < f.body@.len() ==> statement_result(fd.body@[i], #[trigger] f.body@[i])
}

/// Every analyzed function mirrors its source definition.
pub open spec fn functions_match_defs(fs: Seq<Function>, defs: Seq<ast::FunctionDef>) -> bool {
    &&& fs.len() == defs.len()
    &&& forall|j: int| 0 <= j < fs.len() ==> function_matches_def(#[trigger] fs[j], defs[j])
}

/// A binding found in a scope whose entries all denote slots denotes a
/// slot itself.
pub proof fn lemma_bindings_lookup_slot(vars: Seq<(Vec<u8>, Symbol)>, name: Seq<u8>, i: int)
    requires
        i <= vars.len(),
        forall|j: int| 0 <= j < vars.len() ==> is_slot((#[trigger] vars[j]).1),
        bindings_lookup(vars, name, i) is Some,
    ensures
        is_slot(bindings_lookup(vars, name, i)->Some_0),
    decreases i,
{
    if i > 0 && vars[i - 1].0@ != name {
        lemma_bindings_lookup_slot(vars, name, i - 1);
    }
}

impl Analyzer {
    /// Bind `name` in the innermost scope, creating a fresh local of the
    /// given type when the name is not yet defined there, and return its
    /// slot.
    fn store_value(&mut self, name: &[u8], typ: &Type) -> (r: Result<Symbol, CompilationError>)
        requires
            old(self).scopes@.len() >= 1,
            old(self).wf(),
            old(self).scopes@.last().slots_only(),
        ensures
            final(self).wf(),
            old(self).grows_to(*final(self)),
            final(self).scopes@.last().slots_only(),
            r matches Ok(s) ==> is_slot(s) && sym_wf(
                s,
                final(self).local_counter as nat,
                final(self).functions@.len(),
                final(self).imports@.len(),
            ),
            r matches Ok(s) ==> (!old(self).scopes@.last().spec_contains(name@) ==> slot_type(s)
                == *typ),
    {
        if !self.is_defined(name) {
            match self.new_local(Some(name), typ.clone()) {
                Ok(_) => {},
                Err(e) => {
                    return Err(e);
                },
            }
        }
        proof {
            lemma_bindings_lookup_slot(
                self.scopes@.last().variables@,
                name@,
                self.scopes@.last().variables@.len() as int,
            );
        }
        Ok(self.get_local(name))
    }

    /// Analyze a list of statements in order.
    fn analyze_suite(&mut self, suite: &Vec<ast::Statement>) -> (r: Result<
        Vec<Statement>,
        CompilationError,
    >)
        requires
            old(self).scopes@.len() >= 1,
            old(self).wf(),
            old(self).scopes@.last().slots_only(),
        ensures
            final(self).wf(),
            old(self).grows_to(*final(self)),
            final(self).scopes@.last().slots_only(),
            r matches Ok(ss) ==> {
                &&& ss@.len() == suite@.len()
                &&& forall|i: int|
                    0 <= i < ss@.len() ==> stmt_wf(
                        #[trigger] ss@[i],
                        final(self).local_counter as nat,
                        final(self).functions@.len(),
                        final(self).imports@.len(),
                    )
                &&& forall|i: int|
                    0 <= i < ss@.len() ==> statement_result(suite@[i], #[trigger] ss@[i])
            },
        decreases suite,
    {
        let n = suite.len();
        let mut statements: Vec<Statement> = Vec::new();
        let mut i: usize = 0;
        while i < n
            invariant
                i <= n,
                n == suite@.len(),
                self.scopes@.len() >= 1,
                self.wf(),
                old(self).grows_to(*self),
                self.scopes@.last().slots_only(),
                statements@.len() == i,
                forall|k: int|
                    0 <= k < i ==> stmt_wf(
                        #[trigger] statements@[k],
                        self.local_counter as nat,
                        self.functions@.len(),
                        self.imports@.len(),
                    ),
                forall|k: int|
                    0 <= k < i ==> statement_result(suite@[k], #[trigger] statements@[k]),
            decreases n - i,
        {
            proof {
                assert(decreases_to!(*suite => suite@));
                assert(decreases_to!(suite@ => suite@[i as int]));
            }
            let ghost pre = *self;
            let statement = match self.analyze_statement(&suite[i]) {
                Ok(s) => s,
                Err(e) => {
                    return Err(e);
                },
            };
            statements.push(statement);
            proof {
                assert forall|k: int| 0 <= k < i + 1 implies stmt_wf(
                    #[trigger] statements@[k],
                    self.local_counter as nat,
                    self.functions@.len(),
                    self.imports@.len(),
                ) by {
                    if k < i {
                        lemma_stmt_wf_mono(
                            statements@[k],
                            pre.local_counter as nat,
                            pre.functions@.len(),
                            pre.imports@.len(),
                            self.local_counter as nat,
                            self.functions@.len(),
                            self.imports@.len(),
                        );
                    }
                }
            }
            i = i + 1;
        }
        Ok(statements)
    }

    /// Analyze one parsed statement.
    fn analyze_statement(&mut self, statement: &ast::Statement) -> (r: Result<
        Statement,
        CompilationError,
    >)
        requires
            old(self).scopes@.len() >= 1,
            old(self).wf(),
            old(self).scopes@.last().slots_only(),
        ensures
            final(self).wf(),
            old(self).grows_to(*final(self)),
            final(self).scopes@.last().slots_only(),
            r matches Ok(s) ==> stmt_wf(
                s,
                final(self).local_counter as nat,
                final(self).functions@.len(),
                final(self).imports@.len(),
            ),
            r matches Ok(s) ==> statement_result(*statement, s),
            statement matches ast::Statement::Pass(_) ==> r is Err,
            statement matches ast::Statement::Break(_) ==> r is Err,
            statement matches ast::Statement::Continue(_) ==> r is Err,
        decreases statement,
    {
        match statement {
            ast::Statement::Return(e) => {
                let value = match self.analyze_expression(e) {
                    Ok(v) => v,
                    Err(err) => {
                        return Err(err);
                    },
                };
                Ok(Statement::Return { value })
            },
            ast::Statement::If { condition, suite, else_suite } => {
                proof {
                    let s = *statement;
                    assert(decreases_to!(s => s->If_suite));
                    assert(decreases_to!(s => s->If_else_suite));
                }
                let cond = match self.analyze_expression(condition) {
                    Ok(v) => v,
                    Err(err) => {
                        return Err(err);
                    },
                };
                let ghost s1 = *self;
                let body = match self.analyze_suite(suite) {
                    Ok(v) => v,
                    Err(err) => {
                        return Err(err);
                    },
                };
                let ghost s2 = *self;
                let else_body = match self.analyze_suite(else_suite) {
                    Ok(v) => v,
                    Err(err) => {
                        return Err(err);
                    },
                };
                proof {
                    lemma_expr_wf_mono(
                        cond,
                        s1.local_counter as nat,
                        s1.functions@.len(),
                        s1.imports@.len(),
                        self.local_counter as nat,
                        self.functions@.len(),
                        self.imports@.len(),
                    );
                    assert forall|k: int| 0 <= k < body@.len() implies stmt_wf(
                        #[trigger] body@[k],
                        self.local_counter as nat,
                        self.functions@.len(),
                        self.imports@.len(),
                    ) by {
                        lemma_stmt_wf_mono(
                            body@[k],
                            s2.local_counter as nat,
                            s2.functions@.len(),
                            s2.imports@.len(),
                            self.local_counter as nat,
                            self.functions@.len(),
                            self.imports@.len(),
                        );
                    }
                }
                Ok(Statement::If { condition: cond, suite: body, else_suite: else_body })
            },
            ast::Statement::While { condition, suite } => {
                proof {
                    let s = *statement;
                    assert(decreases_to!(s => s->While_suite));
                }
                let cond = match self.analyze_expression(condition) {
                    Ok(v) => v,
                    Err(err) => {
                        return Err(err);
                    },
                };
                let ghost s1 = *self;
                let body = match self.analyze_suite(suite) {
                    Ok(v) => v,
                    Err(err) => {
                        return Err(err);
                    },
                };
                proof {
                    lemma_expr_wf_mono(
                        cond,
                        s1.local_counter as nat,
                        s1.functions@.len(),
                        s1.imports@.len(),
                        self.local_counter as nat,
                        self.functions@.len(),
                        self.imports@.len(),
                    );
                }
                Ok(Statement::While { condition: cond, suite: body })
            },
            ast::Statement::For { target, iter, suite } => {
                proof {
                    let s = *statement;
                    assert(decreases_to!(s => s->For_suite));
                }
                let loop_var = match self.new_local(None, Type::Integer) {
                    Ok(v) => v,
                    Err(err) => {
                        return Err(err);
                    },
                };
                let iter_var = match self.new_local(None, Type::Integer) {
                    Ok(v) => v,
                    Err(err) => {
                        return Err(err);
                    },
                };
                let iter_expr = match self.analyze_expression(iter) {
                    Ok(v) => v,
                    Err(err) => {
                        return Err(err);
                    },
                };
                let ghost s0 = *self;
                let iter_typ = iter_expr.get_type();
                let element_typ = match iter_typ {
                    Type::List(element_typ) => *element_typ,
                    other => {
                        let text = type_text(&other);
                        return Err(
                            CompilationError::new(
                                &iter.location,
                                message_with("Cannot iterate over this type: ", text.as_slice()),
                            ),
                        );
                    },
                };
                let target_sym = match self.store_value(target.as_slice(), &element_typ) {
                    Ok(v) => v,
                    Err(err) => {
                        return Err(err);
                    },
                };
                let ghost s1 = *self;
                let body = match self.analyze_suite(suite) {
                    Ok(v) => v,
                    Err(err) => {
                        return Err(err);
                    },
                };
                proof {
                    lemma_expr_wf_mono(
                        iter_expr,
                        s0.local_counter as nat,
                        s0.functions@.len(),
                        s0.imports@.len(),
                        self.local_counter as nat,
                        self.functions@.len(),
                        self.imports@.len(),
                    );
                }
                Ok(
                    Statement::For {
                        loop_var,
                        iter_var,
                        target: target_sym,
                        iter: iter_expr,
                        suite: body,
                    },
                )
            },
            ast::Statement::Pass(location) => Err(
                CompilationError::new(location, "Not implemented: pass".to_owned()),
            ),
            ast::Statement::Break(location) => Err(
                CompilationError::new(location, "Not implemented: break".to_owned()),
            ),
            ast::Statement::Continue(location) => Err(
                CompilationError::new(location, "Not implemented: continue".to_owned()),
            ),
            ast::Statement::Expression(expr) => {
                let e = match self.analyze_expression(expr) {
                    Ok(v) => v,
                    Err(err) => {
                        return Err(err);
                    },
                };
                Ok(Statement::Expression(e))
            },
            ast::Statement::Assignment { target, value } => {
                let value_expr = match self.analyze_expression(value) {
                    Ok(v) => v,
                    Err(err) => {
                        return Err(err);
                    },
                };
                let typ = value_expr.get_type();
                let ghost s1 = *self;
                let target_sym = match self.store_value(target.as_slice(), &typ) {
                    Ok(v) => v,
                    Err(err) => {
                        return Err(err);
                    },
                };
                proof {
                    lemma_expr_wf_mono(
                        value_expr,
                        s1.local_counter as nat,
                        s1.functions@.len(),
                        s1.imports@.len(),
                        self.local_counter as nat,
                        self.functions@.len(),
                        self.imports@.len(),
                    );
                }
                Ok(Statement::Assignment { target: target_sym, value: value_expr })
            },
        }
    }
}

} // verus!

verus! {

/// No scope on the stack binds a parameter or local slot.
pub open spec fn no_slots_anywhere(scopes: Seq<Scope>) -> bool {
    forall|k: int, i: int|
        0 <= k < scopes.len() && 0 <= i < scopes[k].variables@.len() ==> !is_slot(
            (#[trigger] scopes[k].variables@[i]).1,
        )
}

impl Analyzer {
    /// Analyze one function definition: number its parameters, resolve
    /// its signature, analyze its body in a fresh scope, and collect the
    /// locals that the body allocated.
    fn analyze_function_def(&mut self, function_def: &ast::FunctionDef) -> (r: Result<
        Function,
        CompilationError,
    >)
        requires
            old(self).scopes@.len() >= 1,
            old(self).wf(),
            no_slots_anywhere(old(self).scopes@),
        ensures
            final(self).functions@ == old(self).functions@,
            final(self).imports@ == old(self).imports@,
            r matches Ok(f) ==> {
                &&& final(self).scopes@ == old(self).scopes@
                &&& final(self).wf()
                &&& no_slots_anywhere(final(self).scopes@)
                &&& f.name@ == function_def.name@
                &&& function_wf(f, old(self).functions@.len(), old(self).imports@.len())
                &&& function_matches_def(f, *function_def)
            },
    {
        self.enter_scope();
        self.local_counter = 0;
        proof {
            assert forall|k: int| 0 <= k < self.scopes@.len() implies (
            #[trigger] self.scopes@[k]).wf(
                self.local_counter as nat,
                self.functions@.len(),
                self.imports@.len(),
            ) by {
                if k < self.scopes@.len() - 1 {
                    assert(self.scopes@[k] == old(self).scopes@[k]);
                    assert forall|i: int|
                        0 <= i < self.scopes@[k].variables@.len() implies sym_wf(
                        (#[trigger] self.scopes@[k].variables@[i]).1,
                        self.local_counter as nat,
                        self.functions@.len(),
                        self.imports@.len(),
                    ) by {
                        assert(!is_slot(old(self).scopes@[k].variables@[i].1));
                    }
                }
            }
        }
        let np = function_def.parameters.len();
        let mut parameters: Vec<Parameter> = Vec::new();
        let mut i: usize = 0;
        while i < np
            invariant
                i <= np,
                np == function_def.parameters@.len(),
                self.local_counter == i,
                self.scopes@.len() == old(self).scopes@.len() + 1,
                forall|k: int|
                    0 <= k < old(self).scopes@.len() ==> self.scopes@[k] == old(self).scopes@[k],
                self.scopes@.last().slots_only(),
                self.scopes@.last().locals@.len() == 0,
                self.functions@ == old(self).functions@,
                self.imports@ == old(self).imports@,
                self.wf(),
                no_slots_anywhere(old(self).scopes@),
                parameters@.len() == i,
                forall|j: int|
                    0 <= j < i ==> (#[trigger] parameters@[j]).name@
                        == function_def.parameters@[j].name@ && Some(parameters@[j].typ)
                        == resolve_type(function_def.parameters@[j].typ),
            decreases np - i,
        {
            let parameter = &function_def.parameters[i];
            let index = self.local_counter;
            self.local_counter = self.local_counter + 1;
            proof {
                assert forall|k: int| 0 <= k < self.scopes@.len() implies (
                #[trigger] self.scopes@[k]).wf(
                    self.local_counter as nat,
                    self.functions@.len(),
                    self.imports@.len(),
                ) by {}
            }
            let param_type = match self.get_type(&parameter.typ) {
                Ok(t) => t,
                Err(e) => {
                    return Err(e);
                },
            };
            let param = Parameter { name: clone_bytes(&parameter.name), typ: param_type.clone() };
            let symbol = Symbol::Parameter { typ: param_type, index };
            self.define(parameter.name.as_slice(), symbol);
            parameters.push(param);
            i = i + 1;
        }
        let return_type = match &function_def.result {
            Some(e) => {
                match self.get_type(e) {
                    Ok(t) => Some(t),
                    Err(err) => {
                        return Err(err);
                    },
                }
            },
            None => None,
        };
        let ghost pre_body = *self;
        let body = match self.analyze_suite(&function_def.body) {
            Ok(b) => b,
            Err(e) => {
                return Err(e);
            },
        };
        let scope = self.leave_scope();
        let locals = scope.locals;
        let f = Function {
            name: clone_bytes(&function_def.name),
            parameters,
            locals,
            body,
            return_type,
        };
        proof {
            assert(final(self).scopes@ =~= old(self).scopes@);
            assert(function_slots(f) == pre_body.local_counter + scope.locals@.len()
                - pre_body.scopes@.last().locals@.len());
            assert forall|k: int| 0 <= k < f.body@.len() implies stmt_wf(
                #[trigger] f.body@[k],
                function_slots(f),
                old(self).functions@.len(),
                old(self).imports@.len(),
            ) by {}
            assert forall|k: int| 0 <= k < self.scopes@.len() implies (
            #[trigger] self.scopes@[k]).wf(
                self.local_counter as nat,
                self.functions@.len(),
                self.imports@.len(),
            ) by {
                assert forall|i2: int|
                    0 <= i2 < self.scopes@[k].variables@.len() implies sym_wf(
                    (#[trigger] self.scopes@[k].variables@[i2]).1,
                    self.local_counter as nat,
                    self.functions@.len(),
                    self.imports@.len(),
                ) by {
                    assert(!is_slot(old(self).scopes@[k].variables@[i2].1));
                }
            }
        }
        Ok(f)
    }

    /// Analyze a whole program: process every top-level in source order,
    /// registering functions and imports in the module scope.
    fn analyze_program(self, prog: &ast::Program) -> (r: Result<Program, CompilationError>)
        requires
            self.scopes@.len() == 0,
            self.functions@.len() == 0,
            self.imports@.len() == 0,
        ensures
            prog.top_levels@.len() == 0 ==> r is Ok,
            (exists|j: int|
                0 <= j < prog.top_levels@.len() && (#[trigger] prog.top_levels@[j]) is ClassDef)
                ==> r is Err,
            r matches Ok(p) ==> {
                &&& program_wf(p)
                &&& p.functions@.map_values(|f: Function| f.name@) == crate::ast::function_names(
                    *prog,
                )
                &&& functions_match_defs(p.functions@, crate::ast::function_defs(*prog))
                &&& p.imports@.map_values(|im: Import| (im.modname@, im.name@))
                    == crate::ast::import_names(*prog)
                &&& p.functions@.len() + p.imports@.len() <= prog.top_levels@.len()
            },
    {
        let mut this = self;
        this.define_intrinsics();
        this.enter_scope();
        let n = prog.top_levels.len();
        let mut i: usize = 0;
        while i < n
            invariant
                i <= n,
                n == prog.top_levels@.len(),
                this.scopes@.len() == 2,
                this.wf(),
                no_slots_anywhere(this.scopes@),
                this.functions@.map_values(|f: Function| f.name@) == crate::ast::function_names_upto(
                    prog.top_levels@,
                    i as int,
                ),
                functions_match_defs(
                    this.functions@,
                    crate::ast::function_defs_upto(prog.top_levels@, i as int),
                ),
                this.imports@.map_values(|im: Import| (im.modname@, im.name@))
                    == crate::ast::import_names_upto(prog.top_levels@, i as int),
                forall|j: int|
                    0 <= j < this.functions@.len() ==> function_wf(
                        #[trigger] this.functions@[j],
                        this.functions@.len(),
                        this.imports@.len(),
                    ),
                this.functions@.len() + this.imports@.len() <= i,
                forall|j: int| 0 <= j < i ==> !((#[trigger] prog.top_levels@[j]) is ClassDef),
            decreases n - i,
        {
            let ghost pre = this;
            match &prog.top_levels[i] {
                ast::TopLevel::FunctionDef(function_def) => {
                    let function = match this.analyze_function_def(function_def) {
                        Ok(f) => f,
                        Err(e) => {
                            return Err(e);
                        },
                    };
                    let index = this.functions.len();
                    this.functions.push(function);
                    this.define(function_def.name.as_slice(), Symbol::Function { index });
                    proof {
                        assert forall|j: int| 0 <= j < this.functions@.len() implies function_wf(
                            #[trigger] this.functions@[j],
                            this.functions@.len(),
                            this.imports@.len(),
                        ) by {
                            if j < index {
                                lemma_function_wf_mono(
                                    this.functions@[j],
                                    pre.functions@.len(),
                                    pre.imports@.len(),
                                    this.functions@.len(),
                                    this.imports@.len(),
                                );
                            } else {
                                lemma_function_wf_mono(
                                    this.functions@[j],
                                    pre.functions@.len(),
                                    pre.imports@.len(),
                                    this.functions@.len(),
                                    this.imports@.len(),
                                );
                            }
                        }
                        assert(this.functions@.map_values(|f: Function| f.name@)
                            =~= crate::ast::function_names_upto(prog.top_levels@, i + 1));
                        assert(this.imports@.map_values(|im: Import| (im.modname@, im.name@))
                            =~= crate::ast::import_names_upto(prog.top_levels@, i + 1));
                        assert(crate::ast::function_defs_upto(prog.top_levels@, i + 1)
                            =~= crate::ast::function_defs_upto(prog.top_levels@, i as int)
                            + seq![*function_def]);
                        assert forall|k: int| 0 <= k < this.functions@.len() implies
                            function_matches_def(
                            #[trigger] this.functions@[k],
                            crate::ast::function_defs_upto(prog.top_levels@, i + 1)[k],
                        ) by {
                            if k < index {
                                assert(function_matches_def(
                                    pre.functions@[k],
                                    crate::ast::function_defs_upto(prog.top_levels@, i as int)[k],
                                ));
                            }
                        }
                    }
                },
                ast::TopLevel::Import { module, name } => {
                    let float_text: Vec<u8> = vec![0x66, 0x6c, 0x6f, 0x61, 0x74];  // float
                    let mut parameter_types: Vec<Type> = Vec::new();
                    if crate::text::bytes_contains(name.as_slice(), float_text.as_slice()) {
                        parameter_types.push(Type::Float);
                    } else {
                        parameter_types.push(Type::Integer);
                    }
                    let return_type = Some(Type::Integer);
                    let index = this.imports.len();
                    this.imports.push(
                        Import {
                            modname: clone_bytes(module),
                            name: clone_bytes(name),
                            parameter_types,
                            return_type,
                        },
                    );
                    this.define(name.as_slice(), Symbol::ExternFunction { index });
                    proof {
                        assert forall|j: int| 0 <= j < this.functions@.len() implies function_wf(
                            #[trigger] this.functions@[j],
                            this.functions@.len(),
                            this.imports@.len(),
                        ) by {
                            lemma_function_wf_mono(
                                this.functions@[j],
                                pre.functions@.len(),
                                pre.imports@.len(),
                                this.functions@.len(),
                                this.imports@.len(),
                            );
                        }
                        assert(this.functions@.map_values(|f: Function| f.name@)
                            =~= crate::ast::function_names_upto(prog.top_levels@, i + 1));
                        assert(this.imports@.map_values(|im: Import| (im.modname@, im.name@))
                            =~= crate::ast::import_names_upto(prog.top_levels@, i + 1));
                        assert(crate::ast::function_defs_upto(prog.top_levels@, i + 1)
                            =~= crate::ast::function_defs_upto(prog.top_levels@, i as int));
                    }
                },
                ast::TopLevel::ClassDef(class_def) => {
                    return Err(
                        CompilationError::new(
                            &class_def.location,
                            "Not implemented: class definitions".to_owned(),
                        ),
                    );
                },
            }
            i = i + 1;
        }
        let _ = this.leave_scope();
        proof {
            assert forall|j: int| 0 <= j < this.functions@.len() implies function_wf(
                #[trigger] this.functions@[j],
                this.functions@.len(),
                this.imports@.len(),
            ) by {}
        }
        Ok(Program { imports: this.imports, functions: this.functions })
    }
}

/// Analyze the given AST and construct a type checked and symbolically
/// resolved program from it.  On success the typed program is well formed
/// ([`program_wf`]), its functions carry the source function names in
/// source order, and its imports carry the source import names in source
/// order.
pub fn analyze(prog: &ast::Program) -> (r: Result<Program, CompilationError>)
    ensures
        prog.top_levels@.len() == 0 ==> r is Ok,
        (exists|j: int|
            0 <= j < prog.top_levels@.len() && (#[trigger] prog.top_levels@[j]) is ClassDef)
            ==> r is Err,
        r matches Ok(p) ==> {
            &&& program_wf(p)
            &&& p.functions@.map_values(|f: Function| f.name@) == crate::ast::function_names(*prog)
            &&& functions_match_defs(p.functions@, crate::ast::function_defs(*prog))
            &&& p.imports@.map_values(|im: Import| (im.modname@, im.name@))
                == crate::ast::import_names(*prog)
            &&& p.functions@.len() + p.imports@.len() <= prog.top_levels@.len()
        },
{
    let a = Analyzer::new();
    a.analyze_program(prog)
}

} // verus!
