//! Code generation: from the typed program to a [`wasm::WasmModule`].
//!
//! Every function body is compiled to a linear instruction buffer.  The
//! generated code is proved to respect the module's index spaces: every
//! `local.get`/`local.set` names a declared slot and every `call` names an
//! import or a function of the module (see [`module_code_bounded`]).

use vstd::prelude::*;

use crate::analyze;
use crate::analyze::{
    expr_wf, function_slots, function_wf, is_slot, program_wf, slot_index, slot_type, stmt_wf,
    Builtin, Symbol, MAX_LIST_LENGTH,
};
use crate::ast;
use crate::error::CompilationError;
use crate::text::clone_bytes;
use crate::wasm;
use crate::wasm::Instruction;

verus! {

broadcast use vstd::seq_lib::group_seq_properties;

/// Round `value` up to the next multiple of `alignment`.
pub open spec fn spec_round_to_multiple_of(value: int, alignment: int) -> int {
    if value % alignment == 0 {
        value
    } else {
        value + alignment - value % alignment
    }
}

/// Round `value` up to the next multiple of `alignment`.
pub fn round_to_multiple_of(value: usize, alignment: usize) -> (r: usize)
    requires
        alignment > 0,
        value + alignment <= usize::MAX,
    ensures
        r == spec_round_to_multiple_of(value as int, alignment as int),
        r % alignment == 0,
        value <= r < value + alignment,
{
    let remaining = value % alignment;
    if remaining > 0 {
        proof {
            let v = value as int;
            let a = alignment as int;
            vstd::arithmetic::div_mod::lemma_fundamental_div_mod(v, a);
            assert((v / a + 1) * a == a * (v / a) + a) by (nonlinear_arith);
            vstd::arithmetic::div_mod::lemma_mod_multiples_basic(v / a + 1, a);
            assert(v + a - v % a == (v / a + 1) * a);
        }
        value + alignment - remaining
    } else {
        value
    }
}

/// Whether one instruction respects a function with `nlocals` slots and a
/// module with `ncallees` callable functions (imports plus user functions).
pub open spec fn instr_ok(i: Instruction, nlocals: nat, ncallees: nat) -> bool {
    match i {
        Instruction::LocalGet(k) => k < nlocals,
        Instruction::LocalSet(k) => k < nlocals,
        Instruction::Call(k) => k < ncallees,
        _ => true,
    }
}

/// Whether every instruction of `code` respects the index spaces.
pub open spec fn instrs_ok(code: Seq<Instruction>, nlocals: nat, ncallees: nat) -> bool {
    forall|i: int| 0 <= i < code.len() ==> instr_ok(#[trigger] code[i], nlocals, ncallees)
}

/// Every function body of the module stays within the module's index
/// spaces: local indices are below the function's parameter-plus-local
/// count, and call indices are below the import-plus-function count.
pub open spec fn module_code_bounded(m: wasm::WasmModule) -> bool {
    forall|j: int|
        0 <= j < m.functions@.len() ==> instrs_ok(
            (#[trigger] m.functions@[j]).code@,
            m.types@[m.imports@.len() + j].0@.len() + m.functions@[j].locals@.len(),
            m.imports@.len() + m.functions@.len(),
        )
}

/// The WebAssembly value type that represents a source type; everything
/// but `float` is an `i32`, pointers included.
pub open spec fn spec_wasm_type(t: analyze::Type) -> wasm::Type {
    match t {
        analyze::Type::Float => wasm::Type::F64,
        _ => wasm::Type::I32,
    }
}

/// The byte size of a list element of type `t`, when lists of `t` are
/// supported.
pub open spec fn spec_sizeof(t: analyze::Type) -> Option<nat> {
    match t {
        analyze::Type::Integer => Some(4nat),
        analyze::Type::Float => Some(8nat),
        analyze::Type::List(_) => Some(4nat),
        _ => None,
    }
}

/// The WebAssembly types of a parameter list.
pub open spec fn map_param_types(ps: Seq<analyze::Parameter>) -> Seq<wasm::Type> {
    ps.map_values(|p: analyze::Parameter| spec_wasm_type(p.typ))
}

/// The WebAssembly types of a local list.
pub open spec fn map_local_types(ls: Seq<analyze::Local>) -> Seq<wasm::Type> {
    ls.map_values(|l: analyze::Local| spec_wasm_type(l.typ))
}

/// The WebAssembly types of an import's parameter types.
pub open spec fn map_types(ts: Seq<analyze::Type>) -> Seq<wasm::Type> {
    ts.map_values(|t: analyze::Type| spec_wasm_type(t))
}

/// The WebAssembly result types of an optional return type.
pub open spec fn map_result_types(rt: Option<analyze::Type>) -> Seq<wasm::Type> {
    match rt {
        Some(t) => seq![spec_wasm_type(t)],
        None => Seq::empty(),
    }
}

impl analyze::Expression {
    /// The type of a typed expression; identifiers must denote parameters
    /// or locals, which analysis guarantees.
    pub open spec fn spec_type(&self) -> analyze::Type {
        match self {
            analyze::Expression::Number(_) => analyze::Type::Integer,
            analyze::Expression::Float(_) => analyze::Type::Float,
            analyze::Expression::String(_) => analyze::Type::Str,
            analyze::Expression::List { typ, .. } => *typ,
            analyze::Expression::Identifier(symbol) => slot_type(*symbol),
            analyze::Expression::BinaryOperation { typ, .. } => *typ,
            analyze::Expression::Call { typ, .. } => *typ,
            analyze::Expression::Indexed { typ, .. } => *typ,
        }
    }

    /// The type of a typed expression.
    pub fn get_type(&self) -> (t: analyze::Type)
        requires
            self matches analyze::Expression::Identifier(s) ==> is_slot(*s),
        ensures
            t == self.spec_type(),
    {
        match self {
            analyze::Expression::Number(_) => analyze::Type::Integer,
            analyze::Expression::Float(_) => analyze::Type::Float,
            analyze::Expression::String(_) => analyze::Type::Str,
            analyze::Expression::List { typ, .. } => typ.clone(),
            analyze::Expression::Identifier(symbol) => match symbol {
                Symbol::Parameter { typ, .. } => typ.clone(),
                Symbol::Local { typ, .. } => typ.clone(),
                _ => analyze::Type::Integer,
            },
            analyze::Expression::BinaryOperation { typ, .. } => typ.clone(),
            analyze::Expression::Call { typ, .. } => typ.clone(),
            analyze::Expression::Indexed { typ, .. } => typ.clone(),
        }
    }
}


/// The comparison instruction for operands of the given WebAssembly type;
/// meaningful except for float equality and inequality, which code
/// generation rejects.
pub open spec fn comparison_instr(op: ast::Comparison, typ: wasm::Type) -> Instruction {
    match typ {
        wasm::Type::I32 => match op {
            ast::Comparison::Lt => Instruction::I32LtS,
            ast::Comparison::Gt => Instruction::I32GtS,
            ast::Comparison::Le => Instruction::I32LeS,
            ast::Comparison::Ge => Instruction::I32GeS,
            ast::Comparison::Equal => Instruction::I32Eq,
            ast::Comparison::NotEqual => Instruction::I32Ne,
        },
        wasm::Type::F64 => match op {
            ast::Comparison::Lt => Instruction::F64Lt,
            ast::Comparison::Gt => Instruction::F64Gt,
            ast::Comparison::Le => Instruction::F64Le,
            ast::Comparison::Ge => Instruction::F64Ge,
            ast::Comparison::Equal => Instruction::I32Eq,
            ast::Comparison::NotEqual => Instruction::I32Ne,
        },
    }
}

/// The arithmetic instruction for operands of the given WebAssembly type.
pub open spec fn arithmetic_instr(op: ast::BinaryOperation, typ: wasm::Type) -> Instruction {
    match typ {
        wasm::Type::I32 => match op {
            ast::BinaryOperation::Add => Instruction::I32Add,
            ast::BinaryOperation::Sub => Instruction::I32Sub,
            ast::BinaryOperation::Mul => Instruction::I32Mul,
            ast::BinaryOperation::Div => Instruction::I32DivS,
        },
        wasm::Type::F64 => match op {
            ast::BinaryOperation::Add => Instruction::F64Add,
            ast::BinaryOperation::Sub => Instruction::F64Sub,
            ast::BinaryOperation::Mul => Instruction::F64Mul,
            ast::BinaryOperation::Div => Instruction::F64Div,
        },
    }
}

/// The `local.set` instruction that stores into the slot of `s`.
pub open spec fn slot_set_instr(s: Symbol) -> Instruction {
    match s {
        Symbol::Parameter { index, .. } => Instruction::LocalSet(index),
        Symbol::Local { index, .. } => Instruction::LocalSet(index),
        _ => Instruction::LocalSet(0),
    }
}

/// The `local.get` instruction that loads the slot of `s`.
pub open spec fn slot_get_instr(s: Symbol) -> Instruction {
    match s {
        Symbol::Parameter { index, .. } => Instruction::LocalGet(index),
        Symbol::Local { index, .. } => Instruction::LocalGet(index),
        _ => Instruction::LocalGet(0),
    }
}

/// The instruction that applies a typed binary operator to operands of
/// the given WebAssembly type.
pub open spec fn binary_instr(op: analyze::BinaryOperation, typ: wasm::Type) -> Instruction {
    match op {
        analyze::BinaryOperation::ArithmaticOperation(o) => arithmetic_instr(o, typ),
        analyze::BinaryOperation::Comparison(o) => comparison_instr(o, typ),
        analyze::BinaryOperation::Boolean(o) => match o {
            ast::BooleanOperator::And => Instruction::I32And,
            ast::BooleanOperator::Or => Instruction::I32Or,
        },
    }
}

/// The instructions that turn a list pointer and an index on the stack
/// into the addressed element, for a supported element type: scale by the
/// element size, add, and load at the data offset.
pub open spec fn index_code(t: analyze::Type) -> Seq<Instruction> {
    let es = spec_sizeof(t)->Some_0 as int;
    let ds = spec_round_to_multiple_of(4, es);
    seq![
        Instruction::I32Const(es as i32),
        Instruction::I32Mul,
        Instruction::I32Add,
        match spec_wasm_type(t) {
            wasm::Type::F64 => Instruction::F64Load(3, ds as usize),
            wasm::Type::I32 => Instruction::I32Load(2, ds as usize),
        },
    ]
}

/// The inline bump allocation of `amount` bytes: read the cursor at
/// address 0, advance it by the rounded amount, and step past the
/// reserved eight-byte header.
pub open spec fn alloc_code(amount: int) -> Seq<Instruction> {
    seq![
        Instruction::I32Const(0),
        Instruction::I32Load(2, 0),
        Instruction::I32Const(0),
        Instruction::I32Const(0),
        Instruction::I32Load(2, 0),
        Instruction::I32Const(spec_round_to_multiple_of(amount, 8) as i32),
        Instruction::I32Add,
        Instruction::I32Store(2, 0),
        Instruction::I32Const(8),
        Instruction::I32Add,
    ]
}

/// Whether code generation succeeds for an expression: no string values,
/// no float equality or inequality, callees that are functions, imports
/// or the `len` builtin, and only sized element types in lists and
/// indexing.
pub open spec fn expr_compilable(e: analyze::Expression) -> bool
    decreases e, 0int,
{
    match e {
        analyze::Expression::Number(_) => true,
        analyze::Expression::Float(_) => true,
        analyze::Expression::String(_) => false,
        analyze::Expression::List { elements, typ, helper_local } => {
            &&& spec_sizeof(elements@[0].spec_type()) is Some
            &&& exprs_compilable(elements@, elements@.len() as int)
        },
        analyze::Expression::Identifier(_) => true,
        analyze::Expression::BinaryOperation { a, op, b, typ } => {
            &&& expr_compilable(*a)
            &&& expr_compilable(*b)
            &&& match op {
                analyze::BinaryOperation::Comparison(c) => !(spec_wasm_type(a.spec_type())
                    == wasm::Type::F64 && (c is Equal || c is NotEqual)),
                _ => true,
            }
        },
        analyze::Expression::Call { callee, arguments, typ } => {
            &&& exprs_compilable(arguments@, arguments@.len() as int)
            &&& match callee {
                Symbol::Function { .. } => true,
                Symbol::ExternFunction { .. } => true,
                Symbol::Builtin(b) => b is Len,
                _ => false,
            }
        },
        analyze::Expression::Indexed { base, index, typ } => {
            &&& expr_compilable(*base)
            &&& expr_compilable(*index)
            &&& spec_sizeof(typ) is Some
        },
    }
}

/// Whether code generation succeeds for the first `i` expressions.
pub open spec fn exprs_compilable(es: Seq<analyze::Expression>, i: int) -> bool
    decreases es, i,
{
    if i <= 0 || i > es.len() {
        true
    } else {
        exprs_compilable(es, i - 1) && expr_compilable(es[i - 1])
    }
}

/// The instructions emitted for an expression, in a module whose user
/// functions sit `off` places past the imports; meaningful when the
/// expression is compilable.
pub open spec fn expr_code(e: analyze::Expression, off: nat) -> Seq<Instruction>
    decreases e, 0int,
{
    match e {
        analyze::Expression::Number(v) => seq![Instruction::I32Const(v)],
        analyze::Expression::Float(b) => seq![Instruction::F64Const(b)],
        analyze::Expression::String(_) => Seq::empty(),
        analyze::Expression::List { elements, typ, helper_local } => {
            let et = elements@[0].spec_type();
            let es = spec_sizeof(et)->Some_0 as int;
            let ds = spec_round_to_multiple_of(4, es);
            let n = elements@.len() as int;
            alloc_code(es * n + ds) + seq![
                slot_set_instr(helper_local),
                slot_get_instr(helper_local),
                Instruction::I32Const(n as i32),
                Instruction::I32Store(2, 0),
            ] + list_elems_code(elements@, helper_local, spec_wasm_type(et), es, ds, n, off)
                + seq![slot_get_instr(helper_local)]
        },
        analyze::Expression::Identifier(s) => seq![slot_get_instr(s)],
        analyze::Expression::BinaryOperation { a, op, b, typ } => expr_code(*a, off) + expr_code(
            *b,
            off,
        ) + seq![binary_instr(op, spec_wasm_type(a.spec_type()))],
        analyze::Expression::Call { callee, arguments, typ } => exprs_code(
            arguments@,
            arguments@.len() as int,
            off,
        ) + (match callee {
            Symbol::Function { index } => seq![Instruction::Call((index + off) as usize)],
            Symbol::ExternFunction { index } => seq![Instruction::Call(index)],
            Symbol::Builtin(_) => seq![Instruction::I32Load(2, 0)],
            _ => Seq::empty(),
        }),
        analyze::Expression::Indexed { base, index, typ } => expr_code(*base, off) + expr_code(
            *index,
            off,
        ) + index_code(typ),
    }
}

/// The instructions emitted for the first `i` expressions, in order.
pub open spec fn exprs_code(es: Seq<analyze::Expression>, i: int, off: nat) -> Seq<Instruction>
    decreases es, i,
{
    if i <= 0 || i > es.len() {
        Seq::empty()
    } else {
        exprs_code(es, i - 1, off) + expr_code(es[i - 1], off)
    }
}

/// The instructions that fill the first `i` elements of a list literal:
/// for each element, reload the base pointer, evaluate the element, and
/// store it at its offset.
pub open spec fn list_elems_code(
    es: Seq<analyze::Expression>,
    helper: Symbol,
    wt: wasm::Type,
    element_size: int,
    data_start: int,
    i: int,
    off: nat,
) -> Seq<Instruction>
    decreases es, i,
{
    if i <= 0 || i > es.len() {
        Seq::empty()
    } else {
        list_elems_code(es, helper, wt, element_size, data_start, i - 1, off) + seq![
            slot_get_instr(helper),
        ] + expr_code(es[i - 1], off) + seq![
            match wt {
                wasm::Type::F64 => Instruction::F64Store(
                    3,
                    (data_start + element_size * (i - 1)) as usize,
                ),
                wasm::Type::I32 => Instruction::I32Store(
                    2,
                    (data_start + element_size * (i - 1)) as usize,
                ),
            },
        ]
    }
}

/// Whether code generation succeeds for a statement.
pub open spec fn stmt_compilable(s: analyze::Statement) -> bool
    decreases s, 0int,
{
    match s {
        analyze::Statement::Assignment { target, value } => expr_compilable(value),
        analyze::Statement::Expression(e) => expr_compilable(e),
        analyze::Statement::If { condition, suite, else_suite } => {
            &&& expr_compilable(condition)
            &&& suite_compilable(suite@, suite@.len() as int)
            &&& suite_compilable(else_suite@, else_suite@.len() as int)
        },
        analyze::Statement::While { condition, suite } => {
            &&& expr_compilable(condition)
            &&& suite_compilable(suite@, suite@.len() as int)
        },
        analyze::Statement::For { loop_var, iter_var, target, iter, suite } => {
            &&& expr_compilable(iter)
            &&& iter.spec_type() is List
            &&& spec_sizeof(for_element_type(iter)) is Some
            &&& suite_compilable(suite@, suite@.len() as int)
        },
        analyze::Statement::Return { value } => expr_compilable(value),
    }
}

/// Whether code generation succeeds for the first `i` statements.
pub open spec fn suite_compilable(ss: Seq<analyze::Statement>, i: int) -> bool
    decreases ss, i,
{
    if i <= 0 || i > ss.len() {
        true
    } else {
        suite_compilable(ss, i - 1) && stmt_compilable(ss[i - 1])
    }
}

/// The element type a `for` loop iterates over.
pub open spec fn for_element_type(iter: analyze::Expression) -> analyze::Type {
    match iter.spec_type() {
        analyze::Type::List(et) => *et,
        _ => analyze::Type::Integer,
    }
}

/// The instructions emitted for a statement.
pub open spec fn stmt_code(s: analyze::Statement, off: nat) -> Seq<Instruction>
    decreases s, 0int,
{
    match s {
        analyze::Statement::Assignment { target, value } => expr_code(value, off) + seq![
            slot_set_instr(target),
        ],
        analyze::Statement::Expression(e) => expr_code(e, off) + seq![Instruction::Drp],
        analyze::Statement::If { condition, suite, else_suite } => expr_code(condition, off)
            + seq![Instruction::If] + suite_code(suite@, suite@.len() as int, off) + seq![
            Instruction::Else,
        ] + suite_code(else_suite@, else_suite@.len() as int, off) + seq![Instruction::End],
        analyze::Statement::While { condition, suite } => seq![
            Instruction::Block,
            Instruction::Loop,
        ] + expr_code(condition, off) + seq![Instruction::I32Eqz, Instruction::BrIf(1)]
            + suite_code(suite@, suite@.len() as int, off) + seq![
            Instruction::Br(0),
            Instruction::End,
            Instruction::End,
        ],
        analyze::Statement::For { loop_var, iter_var, target, iter, suite } => expr_code(iter, off)
            + seq![
            slot_set_instr(iter_var),
            Instruction::I32Const(0),
            slot_set_instr(loop_var),
            Instruction::Loop,
            slot_get_instr(iter_var),
            slot_get_instr(loop_var),
        ] + index_code(for_element_type(iter)) + seq![slot_set_instr(target)] + suite_code(
            suite@,
            suite@.len() as int,
            off,
        ) + seq![
            slot_get_instr(loop_var),
            Instruction::I32Const(1),
            Instruction::I32Add,
            slot_set_instr(loop_var),
            slot_get_instr(loop_var),
            slot_get_instr(iter_var),
            Instruction::I32Load(2, 0),
            Instruction::I32LtS,
            Instruction::BrIf(0),
            Instruction::End,
        ],
        analyze::Statement::Return { value } => expr_code(value, off) + seq![Instruction::Return],
    }
}

/// The instructions emitted for the first `i` statements, in order.
pub open spec fn suite_code(ss: Seq<analyze::Statement>, i: int, off: nat) -> Seq<Instruction>
    decreases ss, i,
{
    if i <= 0 || i > ss.len() {
        Seq::empty()
    } else {
        suite_code(ss, i - 1, off) + stmt_code(ss[i - 1], off)
    }
}

/// Whether code generation succeeds for a whole function: its body
/// compiles and its return type, if any, has an implicit fallback value.
pub open spec fn function_compilable(f: analyze::Function) -> bool {
    &&& suite_compilable(f.body@, f.body@.len() as int)
    &&& match f.return_type {
        Some(analyze::Type::Str) => false,
        Some(analyze::Type::Bytes) => false,
        Some(analyze::Type::List(_)) => false,
        Some(analyze::Type::Tuple(_)) => false,
        _ => true,
    }
}

/// The implicit fallback value appended after a function body: zero for
/// integers and booleans, positive zero for floats.
pub open spec fn epilogue_code(rt: Option<analyze::Type>) -> Seq<Instruction> {
    match rt {
        Some(analyze::Type::Integer) => seq![Instruction::I32Const(0)],
        Some(analyze::Type::Bool) => seq![Instruction::I32Const(0)],
        Some(analyze::Type::Float) => seq![Instruction::F64Const(0)],
        _ => Seq::empty(),
    }
}

/// The full instruction stream of a compiled function.
pub open spec fn function_code(f: analyze::Function, off: nat) -> Seq<Instruction> {
    suite_code(f.body@, f.body@.len() as int, off) + epilogue_code(f.return_type)
}

/// Every expression of a compilable prefix is itself compilable.
pub proof fn lemma_exprs_compilable_at(es: Seq<analyze::Expression>, k: int, n: int)
    requires
        0 <= k < n <= es.len(),
        exprs_compilable(es, n),
    ensures
        expr_compilable(es[k]),
    decreases n,
{
    if k < n - 1 {
        lemma_exprs_compilable_at(es, k, n - 1);
    }
}

/// Every statement of a compilable prefix is itself compilable.
pub proof fn lemma_suite_compilable_at(ss: Seq<analyze::Statement>, k: int, n: int)
    requires
        0 <= k < n <= ss.len(),
        suite_compilable(ss, n),
    ensures
        stmt_compilable(ss[k]),
    decreases n,
{
    if k < n - 1 {
        lemma_suite_compilable_at(ss, k, n - 1);
    }
}

/// Compiles one typed program into a module.
struct Compiler {
    code: Vec<Instruction>,
    func_offset: usize,
    module: wasm::WasmModule,
}

impl Compiler {
    fn new() -> (c: Compiler)
        ensures
            c.code@ == Seq::<Instruction>::empty(),
            c.func_offset == 0,
            c.module.wf(),
            c.module.types@.len() == 0,
            c.module.imports@.len() == 0,
            c.module.exports@.len() == 0,
            c.module.functions@.len() == 0,
    {
        Compiler { code: Vec::new(), func_offset: 0, module: wasm::WasmModule::new() }
    }

    fn emit(&mut self, opcode: Instruction)
        ensures
            final(self).code@ == old(self).code@.push(opcode),
            final(self).module == old(self).module,
            final(self).func_offset == old(self).func_offset,
    {
        self.code.push(opcode);
    }

    /// Map a source type to its WebAssembly representation.
    fn get_type(&self, typ: &analyze::Type) -> (r: wasm::Type)
        ensures
            r == spec_wasm_type(*typ),
    {
        match typ {
            analyze::Type::Float => wasm::Type::F64,
            analyze::Type::Integer => wasm::Type::I32,
            analyze::Type::Str | analyze::Type::Bytes => wasm::Type::I32,
            analyze::Type::Bool => wasm::Type::I32,
            analyze::Type::List(_) | analyze::Type::Tuple(_) => wasm::Type::I32,
        }
    }

    /// The byte size of one element of the given type; element types
    /// without a size are not supported in lists or indexing.
    fn get_sizeof(&self, element_type: &analyze::Type) -> (r: Result<usize, CompilationError>)
        ensures
            r is Ok <==> spec_sizeof(*element_type) is Some,
            r matches Ok(v) ==> spec_sizeof(*element_type) == Some(v as nat),
    {
        match element_type {
            analyze::Type::Integer => Ok(4),
            analyze::Type::Float => Ok(8),
            analyze::Type::List(_) => Ok(4),
            _ => Err(
                CompilationError {
                    location: None,
                    message: "Cannot compute the size of elements of this type".to_owned(),
                },
            ),
        }
    }

    /// Given a list pointer on top of the stack, load its length from the
    /// header.
    fn builtin_list_len(&mut self)
        ensures
            final(self).code@ == old(self).code@.push(Instruction::I32Load(2, 0)),
            final(self).module == old(self).module,
            final(self).func_offset == old(self).func_offset,
    {
        self.emit(Instruction::I32Load(2, 0));
    }

    /// Given a list pointer and an index on top of the stack, load the
    /// addressed element.
    fn builtin_list_index(&mut self, element_type: &analyze::Type) -> (r: Result<
        (),
        CompilationError,
    >)
        ensures
            final(self).module == old(self).module,
            final(self).func_offset == old(self).func_offset,
            r is Ok <==> spec_sizeof(*element_type) is Some,
            r is Err ==> final(self).code@ == old(self).code@,
            r is Ok ==> final(self).code@ == old(self).code@ + index_code(*element_type),
    {
        let element_size = match self.get_sizeof(element_type) {
            Ok(v) => v,
            Err(e) => {
                return Err(e);
            },
        };
        let element_wasm_typ = self.get_type(element_type);
        let header_size: usize = 4;
        let data_start = round_to_multiple_of(header_size, element_size);
        self.emit(Instruction::I32Const(element_size as i32));
        self.emit(Instruction::I32Mul);
        self.emit(Instruction::I32Add);
        self.read_mem(data_start, &element_wasm_typ);
        proof {
            assert(final(self).code@ =~= old(self).code@ + index_code(*element_type));
        }
        Ok(())
    }

    /// Write the top of stack to memory at the address below it, at the
    /// given static offset.
    fn write_mem(&mut self, offset: usize, typ: &wasm::Type)
        ensures
            final(self).module == old(self).module,
            final(self).func_offset == old(self).func_offset,
            final(self).code@ == old(self).code@.push(
                match typ {
                    wasm::Type::F64 => Instruction::F64Store(3, offset),
                    wasm::Type::I32 => Instruction::I32Store(2, offset),
                },
            ),
    {
        match typ {
            wasm::Type::F64 => self.emit(Instruction::F64Store(3, offset)),
            wasm::Type::I32 => self.emit(Instruction::I32Store(2, offset)),
        }
    }

    /// Load from the address on top of the stack, at the given static
    /// offset.
    fn read_mem(&mut self, offset: usize, typ: &wasm::Type)
        ensures
            final(self).module == old(self).module,
            final(self).func_offset == old(self).func_offset,
            final(self).code@ == old(self).code@.push(
                match typ {
                    wasm::Type::F64 => Instruction::F64Load(3, offset),
                    wasm::Type::I32 => Instruction::I32Load(2, offset),
                },
            ),
    {
        match typ {
            wasm::Type::F64 => self.emit(Instruction::F64Load(3, offset)),
            wasm::Type::I32 => self.emit(Instruction::I32Load(2, offset)),
        }
    }

    /// Emit the inline bump allocation of `amount` bytes: the next-free
    /// cursor lives in an `i32` at linear address 0; the caller receives a
    /// pointer past the reserved eight-byte header.  None of the emitted
    /// instructions touches a local or calls a function.
    fn allocate(&mut self, amount: usize)
        requires
            amount + 8 <= i32::MAX,
        ensures
            final(self).module == old(self).module,
            final(self).func_offset == old(self).func_offset,
            final(self).code@ == old(self).code@ + alloc_code(amount as int),
    {
        let amount = round_to_multiple_of(amount, 8);
        self.emit(Instruction::I32Const(0));
        self.emit(Instruction::I32Load(2, 0));
        self.emit(Instruction::I32Const(0));
        self.emit(Instruction::I32Const(0));
        self.emit(Instruction::I32Load(2, 0));
        self.emit(Instruction::I32Const(amount as i32));
        self.emit(Instruction::I32Add);
        self.emit(Instruction::I32Store(2, 0));
        let header_size: usize = 4;
        let aligned_header = round_to_multiple_of(header_size, 8);
        self.emit(Instruction::I32Const(aligned_header as i32));
        self.emit(Instruction::I32Add);
        proof {
            assert(final(self).code@ =~= old(self).code@ + alloc_code(amount as int));
        }
    }

    /// Store the top of stack into the slot of `symbol`.
    fn store_value(&mut self, symbol: &Symbol)
        requires
            is_slot(*symbol),
        ensures
            final(self).module == old(self).module,
            final(self).func_offset == old(self).func_offset,
            final(self).code@ == old(self).code@.push(slot_set_instr(*symbol)),
    {
        match symbol {
            Symbol::Local { typ: _, index } => {
                self.emit(Instruction::LocalSet(*index));
            },
            Symbol::Parameter { typ: _, index } => {
                self.emit(Instruction::LocalSet(*index));
            },
            // Callers only store to parameter or local slots; the arm
            // mirrors slot_set_instr for the remaining symbols.
            _ => {
                self.emit(Instruction::LocalSet(0));
            },
        }
    }

    /// Push the slot of `symbol` onto the stack.
    fn get_local(&mut self, symbol: &Symbol)
        requires
            is_slot(*symbol),
        ensures
            final(self).module == old(self).module,
            final(self).func_offset == old(self).func_offset,
            final(self).code@ == old(self).code@.push(slot_get_instr(*symbol)),
    {
        match symbol {
            Symbol::Local { typ: _, index } => {
                self.emit(Instruction::LocalGet(*index));
            },
            Symbol::Parameter { typ: _, index } => {
                self.emit(Instruction::LocalGet(*index));
            },
            // Callers only load from parameter or local slots; the arm
            // mirrors slot_get_instr for the remaining symbols.
            _ => {
                self.emit(Instruction::LocalGet(0));
            },
        }
    }

    /// Emit a comparison on operands of the given WebAssembly type; float
    /// equality and inequality are rejected.
    fn emit_comparison(&mut self, op: &ast::Comparison, typ: wasm::Type) -> (r: Result<
        (),
        CompilationError,
    >)
        ensures
            final(self).module == old(self).module,
            final(self).func_offset == old(self).func_offset,
            r is Err <==> (typ == wasm::Type::F64 && (op is Equal || op is NotEqual)),
            r is Err ==> final(self).code@ == old(self).code@,
            r is Ok ==> final(self).code@ == old(self).code@.push(comparison_instr(*op, typ)),
    {
        match typ {
            wasm::Type::I32 => {
                match op {
                    ast::Comparison::Lt => self.emit(Instruction::I32LtS),
                    ast::Comparison::Gt => self.emit(Instruction::I32GtS),
                    ast::Comparison::Le => self.emit(Instruction::I32LeS),
                    ast::Comparison::Ge => self.emit(Instruction::I32GeS),
                    ast::Comparison::Equal => self.emit(Instruction::I32Eq),
                    ast::Comparison::NotEqual => self.emit(Instruction::I32Ne),
                }
                Ok(())
            },
            wasm::Type::F64 => {
                match op {
                    ast::Comparison::Lt => self.emit(Instruction::F64Lt),
                    ast::Comparison::Gt => self.emit(Instruction::F64Gt),
                    ast::Comparison::Le => self.emit(Instruction::F64Le),
                    ast::Comparison::Ge => self.emit(Instruction::F64Ge),
                    ast::Comparison::Equal | ast::Comparison::NotEqual => {
                        return Err(
                            CompilationError {
                                location: None,
                                message: "Equality of floating point values is not supported".to_owned(),
                            },
                        );
                    },
                }
                Ok(())
            },
        }
    }

    /// Emit an arithmetic operation on operands of the given WebAssembly
    /// type.
    fn emit_arithmatic_operator(&mut self, op: &ast::BinaryOperation, typ: wasm::Type)
        ensures
            final(self).module == old(self).module,
            final(self).func_offset == old(self).func_offset,
            final(self).code@ == old(self).code@.push(arithmetic_instr(*op, typ)),
    {
        match typ {
            wasm::Type::I32 => {
                match op {
                    ast::BinaryOperation::Add => self.emit(Instruction::I32Add),
                    ast::BinaryOperation::Sub => self.emit(Instruction::I32Sub),
                    ast::BinaryOperation::Mul => self.emit(Instruction::I32Mul),
                    ast::BinaryOperation::Div => self.emit(Instruction::I32DivS),
                }
            },
            wasm::Type::F64 => {
                match op {
                    ast::BinaryOperation::Add => self.emit(Instruction::F64Add),
                    ast::BinaryOperation::Sub => self.emit(Instruction::F64Sub),
                    ast::BinaryOperation::Mul => self.emit(Instruction::F64Mul),
                    ast::BinaryOperation::Div => self.emit(Instruction::F64Div),
                }
            },
        }
    }
}

} // verus!

verus! {

impl Compiler {
    /// Compile one typed expression; its value is left on the stack and
    /// the emitted instructions stay inside the index spaces.
    #[verifier::rlimit(100)]
    fn compile_expression(
        &mut self,
        expression: &analyze::Expression,
        Ghost(nl): Ghost<nat>,
        Ghost(nf): Ghost<nat>,
    ) -> (r: Result<(), CompilationError>)
        requires
            expr_wf(*expression, nl, nf, old(self).func_offset as nat),
            old(self).func_offset + nf <= usize::MAX,
            instrs_ok(old(self).code@, nl, (old(self).func_offset + nf) as nat),
        ensures
            final(self).module == old(self).module,
            final(self).func_offset == old(self).func_offset,
            instrs_ok(final(self).code@, nl, (old(self).func_offset + nf) as nat),
            r is Ok <==> expr_compilable(*expression),
            r is Ok ==> final(self).code@ == old(self).code@ + expr_code(
                *expression,
                old(self).func_offset as nat,
            ),
        decreases expression,
    {
        let ghost off = self.func_offset as nat;
        match expression {
            analyze::Expression::Number(value) => {
                self.emit(Instruction::I32Const(*value));
                proof {
                    assert(self.code@ =~= old(self).code@ + expr_code(*expression, off));
                }
                Ok(())
            },
            analyze::Expression::Float(bits) => {
                self.emit(Instruction::F64Const(*bits));
                proof {
                    assert(self.code@ =~= old(self).code@ + expr_code(*expression, off));
                }
                Ok(())
            },
            analyze::Expression::String(_) => Err(
                CompilationError {
                    location: None,
                    message: "Cannot generate code for string values yet".to_owned(),
                },
            ),
            analyze::Expression::List { elements, typ: _, helper_local } => {
                let n = elements.len();
                proof {
                    assert(expr_wf(elements@[0], nl, nf, old(self).func_offset as nat));
                }
                let element_typ = elements[0].get_type();
                let element_size = match self.get_sizeof(&element_typ) {
                    Ok(v) => v,
                    Err(e) => {
                        proof {
                            assert(!expr_compilable(*expression));
                        }
                        return Err(e);
                    },
                };
                let element_wasm_type = self.get_type(&element_typ);
                let header_size: usize = 4;
                let data_start = round_to_multiple_of(header_size, element_size);
                proof {
                    assert(element_size == 4 || element_size == 8);
                    if element_size == 4 {
                        assert(data_start == 4) by (nonlinear_arith)
                            requires
                                data_start % 4 == 0,
                                4 <= data_start < 8,
                        ;
                    } else {
                        assert(data_start == 8) by (nonlinear_arith)
                            requires
                                data_start % 8 == 0,
                                4 <= data_start < 12,
                        ;
                    }
                    assert(data_start == 4 || data_start == 8);
                    assert(element_size * n <= 8 * MAX_LIST_LENGTH) by (nonlinear_arith)
                        requires
                            element_size <= 8,
                            n <= MAX_LIST_LENGTH,
                    ;
                }
                let mem_size = element_size * n + data_start;
                self.allocate(mem_size);
                self.store_value(helper_local);
                self.get_local(helper_local);
                self.emit(Instruction::I32Const(n as i32));
                self.write_mem(0, &wasm::Type::I32);
                proof {
                    assert(self.code@ =~= old(self).code@ + alloc_code(mem_size as int) + seq![
                        slot_set_instr(*helper_local),
                        slot_get_instr(*helper_local),
                        Instruction::I32Const(n as i32),
                        Instruction::I32Store(2, 0),
                    ] + list_elems_code(
                        elements@,
                        *helper_local,
                        spec_wasm_type(elements@[0].spec_type()),
                        element_size as int,
                        data_start as int,
                        0,
                        off,
                    ));
                }
                let mut offset = data_start;
                let mut i: usize = 0;
                while i < n
                    invariant
                        i <= n,
                        n == elements@.len(),
                        1 <= n <= MAX_LIST_LENGTH,
                        element_size == 4 || element_size == 8,
                        data_start == 4 || data_start == 8,
                        element_size as nat == spec_sizeof(elements@[0].spec_type())->Some_0,
                        element_wasm_type == spec_wasm_type(elements@[0].spec_type()),
                        offset == data_start + element_size * i,
                        is_slot(*helper_local),
                        slot_index(*helper_local) < nl,
                        *expression is List,
                        expression->List_elements == *elements,
                        forall|k: int|
                            0 <= k < elements@.len() ==> expr_wf(
                                #[trigger] elements@[k],
                                nl,
                                nf,
                                old(self).func_offset as nat,
                            ),
                        self.module == old(self).module,
                        self.func_offset == old(self).func_offset,
                        off == old(self).func_offset as nat,
                        old(self).func_offset + nf <= usize::MAX,
                        instrs_ok(self.code@, nl, (old(self).func_offset + nf) as nat),
                        exprs_compilable(elements@, i as int),
                        self.code@ == old(self).code@ + alloc_code(mem_size as int) + seq![
                            slot_set_instr(*helper_local),
                            slot_get_instr(*helper_local),
                            Instruction::I32Const(n as i32),
                            Instruction::I32Store(2, 0),
                        ] + list_elems_code(
                            elements@,
                            *helper_local,
                            spec_wasm_type(elements@[0].spec_type()),
                            element_size as int,
                            data_start as int,
                            i as int,
                            off,
                        ),
                    decreases n - i,
                {
                    self.get_local(helper_local);
                    proof {
                        let e = *expression;
                        assert(decreases_to!(e => e->List_elements));
                        assert(decreases_to!(e->List_elements => e->List_elements@));
                        assert(decreases_to!(e->List_elements@ => e->List_elements@[i as int]));
                        assert(e->List_elements@[i as int] == elements@[i as int]);
                        assert(decreases_to!(*expression => elements@[i as int]));
                    }
                    match self.compile_expression(&elements[i], Ghost(nl), Ghost(nf)) {
                        Ok(()) => {},
                        Err(e) => {
                            proof {
                                if expr_compilable(*expression) {
                                    lemma_exprs_compilable_at(elements@, i as int, n as int);
                                }
                            }
                            return Err(e);
                        },
                    }
                    self.write_mem(offset, &element_wasm_type);
                    proof {
                        assert(element_size * (i + 1) == element_size * i + element_size)
                            by (nonlinear_arith);
                        assert(element_size * (i + 1) <= 8 * MAX_LIST_LENGTH) by (nonlinear_arith)
                            requires
                                element_size <= 8,
                                i + 1 <= MAX_LIST_LENGTH,
                        ;
                        assert(self.code@ =~= old(self).code@ + alloc_code(mem_size as int) + seq![
                            slot_set_instr(*helper_local),
                            slot_get_instr(*helper_local),
                            Instruction::I32Const(n as i32),
                            Instruction::I32Store(2, 0),
                        ] + list_elems_code(
                            elements@,
                            *helper_local,
                            spec_wasm_type(elements@[0].spec_type()),
                            element_size as int,
                            data_start as int,
                            i + 1,
                            off,
                        ));
                    }
                    offset = offset + element_size;
                    i = i + 1;
                }
                self.get_local(helper_local);
                proof {
                    assert(mem_size as int == element_size as int * (elements@.len() as int)
                        + data_start as int) by (nonlinear_arith)
                        requires
                            mem_size == element_size * n + data_start,
                            n == elements@.len(),
                    ;
                    assert(self.code@ =~= old(self).code@ + expr_code(*expression, off));
                    assert(expr_compilable(*expression));
                }
                Ok(())
            },
            analyze::Expression::Identifier(symbol) => {
                self.get_local(symbol);
                proof {
                    assert(self.code@ =~= old(self).code@ + expr_code(*expression, off));
                }
                Ok(())
            },
            analyze::Expression::BinaryOperation { a, op, b, typ: _ } => {
                proof {
                    assert(expr_wf(**a, nl, nf, old(self).func_offset as nat));
                    assert(expr_wf(**b, nl, nf, old(self).func_offset as nat));
                }
                match self.compile_expression(a, Ghost(nl), Ghost(nf)) {
                    Ok(()) => {},
                    Err(e) => {
                        return Err(e);
                    },
                }
                match self.compile_expression(b, Ghost(nl), Ghost(nf)) {
                    Ok(()) => {},
                    Err(e) => {
                        return Err(e);
                    },
                }
                let ghost code_operands = self.code@;
                proof {
                    assert(code_operands =~= old(self).code@ + expr_code(**a, off) + expr_code(
                        **b,
                        off,
                    ));
                }
                let operand_type = a.get_type();
                let typ = self.get_type(&operand_type);
                match op {
                    analyze::BinaryOperation::ArithmaticOperation(op) => {
                        self.emit_arithmatic_operator(op, typ);
                        proof {
                            assert(self.code@ =~= old(self).code@ + expr_code(*expression, off));
                        }
                        Ok(())
                    },
                    analyze::BinaryOperation::Comparison(op) => {
                        match self.emit_comparison(op, typ) {
                            Ok(()) => {
                                proof {
                                    assert(self.code@ =~= old(self).code@ + expr_code(
                                        *expression,
                                        off,
                                    ));
                                }
                                Ok(())
                            },
                            Err(e) => Err(e),
                        }
                    },
                    analyze::BinaryOperation::Boolean(op) => {
                        match op {
                            ast::BooleanOperator::And => self.emit(Instruction::I32And),
                            ast::BooleanOperator::Or => self.emit(Instruction::I32Or),
                        }
                        proof {
                            assert(self.code@ =~= old(self).code@ + expr_code(*expression, off));
                        }
                        Ok(())
                    },
                }
            },
            analyze::Expression::Call { callee, typ: _, arguments } => {
                let nargs = arguments.len();
                let mut i: usize = 0;
                while i < nargs
                    invariant
                        i <= nargs,
                        nargs == arguments@.len(),
                        *expression is Call,
                        expression->Call_arguments == *arguments,
                        forall|k: int|
                            0 <= k < arguments@.len() ==> expr_wf(
                                #[trigger] arguments@[k],
                                nl,
                                nf,
                                old(self).func_offset as nat,
                            ),
                        self.module == old(self).module,
                        self.func_offset == old(self).func_offset,
                        off == old(self).func_offset as nat,
                        old(self).func_offset + nf <= usize::MAX,
                        instrs_ok(self.code@, nl, (old(self).func_offset + nf) as nat),
                        exprs_compilable(arguments@, i as int),
                        self.code@ == old(self).code@ + exprs_code(arguments@, i as int, off),
                    decreases nargs - i,
                {
                    proof {
                        let e = *expression;
                        assert(decreases_to!(e => e->Call_arguments));
                        assert(decreases_to!(e->Call_arguments => e->Call_arguments@));
                        assert(decreases_to!(e->Call_arguments@ => e->Call_arguments@[i as int]));
                        assert(e->Call_arguments@[i as int] == arguments@[i as int]);
                        assert(decreases_to!(*expression => arguments@[i as int]));
                    }
                    match self.compile_expression(&arguments[i], Ghost(nl), Ghost(nf)) {
                        Ok(()) => {},
                        Err(e) => {
                            proof {
                                if expr_compilable(*expression) {
                                    lemma_exprs_compilable_at(arguments@, i as int, nargs as int);
                                }
                            }
                            return Err(e);
                        },
                    }
                    proof {
                        assert(self.code@ =~= old(self).code@ + exprs_code(
                            arguments@,
                            i + 1,
                            off,
                        ));
                    }
                    i = i + 1;
                }
                match callee {
                    Symbol::Function { index, .. } => {
                        let func = *index + self.func_offset;
                        self.emit(Instruction::Call(func));
                        proof {
                            assert(self.code@ =~= old(self).code@ + expr_code(*expression, off));
                        }
                        Ok(())
                    },
                    Symbol::ExternFunction { index, .. } => {
                        self.emit(Instruction::Call(*index));
                        proof {
                            assert(self.code@ =~= old(self).code@ + expr_code(*expression, off));
                        }
                        Ok(())
                    },
                    Symbol::Builtin(builtin) => match builtin {
                        Builtin::Ord => Err(
                            CompilationError {
                                location: None,
                                message: "ord is resolved during analysis".to_owned(),
                            },
                        ),
                        Builtin::Len => {
                            self.builtin_list_len();
                            proof {
                                assert(self.code@ =~= old(self).code@ + expr_code(
                                    *expression,
                                    off,
                                ));
                            }
                            Ok(())
                        },
                    },
                    _ => Err(
                        CompilationError {
                            location: None,
                            message: "Cannot call this".to_owned(),
                        },
                    ),
                }
            },
            analyze::Expression::Indexed { base, index, typ } => {
                proof {
                    assert(expr_wf(**base, nl, nf, old(self).func_offset as nat));
                    assert(expr_wf(**index, nl, nf, old(self).func_offset as nat));
                }
                match self.compile_expression(base, Ghost(nl), Ghost(nf)) {
                    Ok(()) => {},
                    Err(e) => {
                        return Err(e);
                    },
                }
                match self.compile_expression(index, Ghost(nl), Ghost(nf)) {
                    Ok(()) => {},
                    Err(e) => {
                        return Err(e);
                    },
                }
                match self.builtin_list_index(typ) {
                    Ok(()) => {
                        proof {
                            assert(self.code@ =~= old(self).code@ + expr_code(*expression, off));
                        }
                        Ok(())
                    },
                    Err(e) => Err(e),
                }
            },
        }
    }

}

} // verus!

verus! {

impl Compiler {
    /// Compile a list of statements in order.
    fn compile_suite(
        &mut self,
        suite: &Vec<analyze::Statement>,
        Ghost(nl): Ghost<nat>,
        Ghost(nf): Ghost<nat>,
    ) -> (r: Result<(), CompilationError>)
        requires
            forall|k: int|
                0 <= k < suite@.len() ==> stmt_wf(
                    #[trigger] suite@[k],
                    nl,
                    nf,
                    old(self).func_offset as nat,
                ),
            old(self).func_offset + nf <= usize::MAX,
            instrs_ok(old(self).code@, nl, (old(self).func_offset + nf) as nat),
        ensures
            final(self).module == old(self).module,
            final(self).func_offset == old(self).func_offset,
            instrs_ok(final(self).code@, nl, (old(self).func_offset + nf) as nat),
            r is Ok <==> suite_compilable(suite@, suite@.len() as int),
            r is Ok ==> final(self).code@ == old(self).code@ + suite_code(
                suite@,
                suite@.len() as int,
                old(self).func_offset as nat,
            ),
        decreases suite,
    {
        let ghost off = self.func_offset as nat;
        let n = suite.len();
        let mut i: usize = 0;
        while i < n
            invariant
                i <= n,
                n == suite@.len(),
                forall|k: int|
                    0 <= k < suite@.len() ==> stmt_wf(
                        #[trigger] suite@[k],
                        nl,
                        nf,
                        old(self).func_offset as nat,
                    ),
                self.module == old(self).module,
                self.func_offset == old(self).func_offset,
                off == old(self).func_offset as nat,
                old(self).func_offset + nf <= usize::MAX,
                instrs_ok(self.code@, nl, (old(self).func_offset + nf) as nat),
                suite_compilable(suite@, i as int),
                self.code@ == old(self).code@ + suite_code(suite@, i as int, off),
            decreases n - i,
        {
            proof {
                assert(decreases_to!(*suite => suite@));
                assert(decreases_to!(suite@ => suite@[i as int]));
                assert(decreases_to!(*suite => suite@[i as int]));
            }
            match self.compile_statement(&suite[i], Ghost(nl), Ghost(nf)) {
                Ok(()) => {},
                Err(e) => {
                    proof {
                        if suite_compilable(suite@, n as int) {
                            lemma_suite_compilable_at(suite@, i as int, n as int);
                        }
                    }
                    return Err(e);
                },
            }
            proof {
                assert(self.code@ =~= old(self).code@ + suite_code(suite@, i + 1, off));
            }
            i = i + 1;
        }
        Ok(())
    }

    /// Compile one typed statement.
    #[verifier::rlimit(100)]
    fn compile_statement(
        &mut self,
        statement: &analyze::Statement,
        Ghost(nl): Ghost<nat>,
        Ghost(nf): Ghost<nat>,
    ) -> (r: Result<(), CompilationError>)
        requires
            stmt_wf(*statement, nl, nf, old(self).func_offset as nat),
            old(self).func_offset + nf <= usize::MAX,
            instrs_ok(old(self).code@, nl, (old(self).func_offset + nf) as nat),
        ensures
            final(self).module == old(self).module,
            final(self).func_offset == old(self).func_offset,
            instrs_ok(final(self).code@, nl, (old(self).func_offset + nf) as nat),
            r is Ok <==> stmt_compilable(*statement),
            r is Ok ==> final(self).code@ == old(self).code@ + stmt_code(
                *statement,
                old(self).func_offset as nat,
            ),
        decreases statement,
    {
        let ghost off = self.func_offset as nat;
        match statement {
            analyze::Statement::Return { value } => {
                match self.compile_expression(value, Ghost(nl), Ghost(nf)) {
                    Ok(()) => {},
                    Err(e) => {
                        return Err(e);
                    },
                }
                self.emit(Instruction::Return);
                proof {
                    assert(self.code@ =~= old(self).code@ + stmt_code(*statement, off));
                }
                Ok(())
            },
            analyze::Statement::Expression(expr) => {
                match self.compile_expression(expr, Ghost(nl), Ghost(nf)) {
                    Ok(()) => {},
                    Err(e) => {
                        return Err(e);
                    },
                }
                self.emit(Instruction::Drp);
                proof {
                    assert(self.code@ =~= old(self).code@ + stmt_code(*statement, off));
                }
                Ok(())
            },
            analyze::Statement::If { condition, suite, else_suite } => {
                match self.compile_expression(condition, Ghost(nl), Ghost(nf)) {
                    Ok(()) => {},
                    Err(e) => {
                        return Err(e);
                    },
                }
                self.emit(Instruction::If);
                proof {
                    let s = *statement;
                    assert(decreases_to!(s => s->If_suite));
                    assert(s->If_suite == *suite);
                }
                match self.compile_suite(suite, Ghost(nl), Ghost(nf)) {
                    Ok(()) => {},
                    Err(e) => {
                        return Err(e);
                    },
                }
                self.emit(Instruction::Else);
                proof {
                    let s = *statement;
                    assert(decreases_to!(s => s->If_else_suite));
                    assert(s->If_else_suite == *else_suite);
                }
                match self.compile_suite(else_suite, Ghost(nl), Ghost(nf)) {
                    Ok(()) => {},
                    Err(e) => {
                        return Err(e);
                    },
                }
                self.emit(Instruction::End);
                proof {
                    assert(self.code@ =~= old(self).code@ + stmt_code(*statement, off));
                }
                Ok(())
            },
            analyze::Statement::While { condition, suite } => {
                self.emit(Instruction::Block);
                self.emit(Instruction::Loop);
                match self.compile_expression(condition, Ghost(nl), Ghost(nf)) {
                    Ok(()) => {},
                    Err(e) => {
                        return Err(e);
                    },
                }
                self.emit(Instruction::I32Eqz);
                self.emit(Instruction::BrIf(1));
                proof {
                    let s = *statement;
                    assert(decreases_to!(s => s->While_suite));
                    assert(s->While_suite == *suite);
                }
                match self.compile_suite(suite, Ghost(nl), Ghost(nf)) {
                    Ok(()) => {},
                    Err(e) => {
                        return Err(e);
                    },
                }
                self.emit(Instruction::Br(0));
                self.emit(Instruction::End);
                self.emit(Instruction::End);
                proof {
                    assert(self.code@ =~= old(self).code@ + stmt_code(*statement, off));
                }
                Ok(())
            },
            analyze::Statement::For { loop_var, iter_var, target, iter, suite } => {
                proof {
                    assert(expr_wf(*iter, nl, nf, old(self).func_offset as nat));
                }
                match self.compile_expression(iter, Ghost(nl), Ghost(nf)) {
                    Ok(()) => {},
                    Err(e) => {
                        return Err(e);
                    },
                }
                self.store_value(iter_var);
                self.emit(Instruction::I32Const(0));
                self.store_value(loop_var);
                self.emit(Instruction::Loop);
                let iter_type = iter.get_type();
                match iter_type {
                    analyze::Type::List(element_type) => {
                        self.get_local(iter_var);
                        self.get_local(loop_var);
                        match self.builtin_list_index(&element_type) {
                            Ok(()) => {},
                            Err(e) => {
                                return Err(e);
                            },
                        }
                        self.store_value(target);
                    },
                    _ => {
                        return Err(
                            CompilationError {
                                location: None,
                                message: "Cannot iterate over this type".to_owned(),
                            },
                        );
                    },
                }
                proof {
                    let s = *statement;
                    assert(decreases_to!(s => s->For_suite));
                    assert(s->For_suite == *suite);
                }
                match self.compile_suite(suite, Ghost(nl), Ghost(nf)) {
                    Ok(()) => {},
                    Err(e) => {
                        return Err(e);
                    },
                }
                self.get_local(loop_var);
                self.emit(Instruction::I32Const(1));
                self.emit(Instruction::I32Add);
                self.store_value(loop_var);
                self.get_local(loop_var);
                self.get_local(iter_var);
                self.builtin_list_len();
                self.emit(Instruction::I32LtS);
                self.emit(Instruction::BrIf(0));
                self.emit(Instruction::End);
                proof {
                    assert(self.code@ =~= old(self).code@ + stmt_code(*statement, off));
                }
                Ok(())
            },
            analyze::Statement::Assignment { target, value } => {
                match self.compile_expression(value, Ghost(nl), Ghost(nf)) {
                    Ok(()) => {},
                    Err(e) => {
                        return Err(e);
                    },
                }
                self.store_value(target);
                proof {
                    assert(self.code@ =~= old(self).code@ + stmt_code(*statement, off));
                }
                Ok(())
            },
        }
    }
}

} // verus!

verus! {

/// Import `j` of the module mirrors import `j` of the typed program:
/// same names, mapped signature.
pub open spec fn import_entry_ok(m: wasm::WasmModule, imps: Seq<analyze::Import>, j: int) -> bool {
    &&& m.imports@[j].modname@ == imps[j].modname@
    &&& m.imports@[j].name@ == imps[j].name@
    &&& m.types@[j].0@ == map_types(imps[j].parameter_types@)
    &&& m.types@[j].1@ == map_result_types(imps[j].return_type)
}

/// Function `j` of the module mirrors function `j` of the typed program:
/// exported under its name at index `j`, mapped signature and locals, and
/// code within the index spaces.
pub open spec fn func_entry_ok(
    m: wasm::WasmModule,
    fns: Seq<analyze::Function>,
    ni: int,
    nf_total: nat,
    j: int,
) -> bool {
    &&& m.exports@[j].name@ == fns[j].name@
    &&& m.exports@[j].index == j
    &&& m.types@[ni + j].0@ == map_param_types(fns[j].parameters@)
    &&& m.types@[ni + j].1@ == map_result_types(fns[j].return_type)
    &&& m.functions@[j].locals@ == map_local_types(fns[j].locals@)
    &&& m.functions@[j].code@ == function_code(fns[j], ni as nat)
    &&& instrs_ok(m.functions@[j].code@, function_slots(fns[j]), (ni + nf_total) as nat)
}

impl Compiler {
    /// Compile one function: signature, locals, body, implicit fallback
    /// return, and register it on the module.
    fn compile_function(&mut self, function: &analyze::Function, Ghost(nf): Ghost<nat>) -> (r:
        Result<(), CompilationError>)
        requires
            forall|k: int|
                0 <= k < function.body@.len() ==> stmt_wf(
                    #[trigger] function.body@[k],
                    function_slots(*function),
                    nf,
                    old(self).func_offset as nat,
                ),
            old(self).func_offset + nf <= usize::MAX,
            old(self).code@.len() == 0,
            old(self).module.wf(),
        ensures
            final(self).func_offset == old(self).func_offset,
            final(self).module.imports@ == old(self).module.imports@,
            r is Err ==> final(self).module == old(self).module,
            r is Ok <==> function_compilable(*function),
            r is Ok ==> {
                &&& final(self).code@.len() == 0
                &&& final(self).module.wf()
                &&& final(self).module.types@.len() == old(self).module.types@.len() + 1
                &&& forall|j: int|
                    0 <= j < old(self).module.types@.len() ==> final(self).module.types@[j]
                        == old(self).module.types@[j]
                &&& final(self).module.types@.last().0@ == map_param_types(function.parameters@)
                &&& final(self).module.types@.last().1@ == map_result_types(function.return_type)
                &&& final(self).module.exports@.len() == old(self).module.exports@.len() + 1
                &&& forall|j: int|
                    0 <= j < old(self).module.exports@.len() ==> final(self).module.exports@[j]
                        == old(self).module.exports@[j]
                &&& final(self).module.exports@.last().name@ == function.name@
                &&& final(self).module.exports@.last().index == old(self).module.functions@.len()
                &&& final(self).module.functions@.len() == old(self).module.functions@.len() + 1
                &&& forall|j: int|
                    0 <= j < old(self).module.functions@.len() ==> final(self).module.functions@[j]
                        == old(self).module.functions@[j]
                &&& final(self).module.functions@.last().locals@ == map_local_types(
                    function.locals@,
                )
                &&& final(self).module.functions@.last().code@ == function_code(
                    *function,
                    old(self).func_offset as nat,
                )
                &&& instrs_ok(
                    final(self).module.functions@.last().code@,
                    function_slots(*function),
                    (old(self).func_offset + nf) as nat,
                )
            },
    {
        let np = function.parameters.len();
        let mut params: Vec<wasm::Type> = Vec::new();
        let mut i: usize = 0;
        while i < np
            invariant
                i <= np,
                np == function.parameters@.len(),
                params@.len() == i,
                forall|j: int|
                    0 <= j < i ==> params@[j] == spec_wasm_type(
                        function.parameters@[j].typ,
                    ),
                self == old(self),
            decreases np - i,
        {
            let param_type = self.get_type(&function.parameters[i].typ);
            params.push(param_type);
            i = i + 1;
        }
        proof {
            assert(params@ =~= map_param_types(function.parameters@));
        }
        let mut results: Vec<wasm::Type> = Vec::new();
        match &function.return_type {
            Some(t) => {
                let rt = self.get_type(t);
                results.push(rt);
            },
            None => {},
        }
        proof {
            assert(results@ =~= map_result_types(function.return_type));
        }
        let nloc = function.locals.len();
        let mut locals: Vec<wasm::Type> = Vec::new();
        let mut i: usize = 0;
        while i < nloc
            invariant
                i <= nloc,
                nloc == function.locals@.len(),
                locals@.len() == i,
                forall|j: int|
                    0 <= j < i ==> locals@[j] == spec_wasm_type(function.locals@[j].typ),
                self == old(self),
            decreases nloc - i,
        {
            let local_type = self.get_type(&function.locals[i].typ);
            locals.push(local_type);
            i = i + 1;
        }
        proof {
            assert(locals@ =~= map_local_types(function.locals@));
        }
        match self.compile_suite(&function.body, Ghost(function_slots(*function)), Ghost(nf)) {
            Ok(()) => {},
            Err(e) => {
                return Err(e);
            },
        }
        match &function.return_type {
            Some(t) => {
                match t {
                    analyze::Type::Integer | analyze::Type::Bool => {
                        self.emit(Instruction::I32Const(0));
                    },
                    analyze::Type::Float => {
                        self.emit(Instruction::F64Const(0));
                    },
                    analyze::Type::Str | analyze::Type::Bytes => {
                        return Err(
                            CompilationError {
                                location: None,
                                message: "Cannot return strings or bytes yet".to_owned(),
                            },
                        );
                    },
                    analyze::Type::List(_) | analyze::Type::Tuple(_) => {
                        return Err(
                            CompilationError {
                                location: None,
                                message: "Cannot return lists or tuples yet".to_owned(),
                            },
                        );
                    },
                }
            },
            None => {},
        }
        proof {
            assert(self.code@ =~= function_code(*function, old(self).func_offset as nat));
        }
        let mut code: Vec<Instruction> = Vec::new();
        core::mem::swap(&mut self.code, &mut code);
        self.module.add_function(clone_bytes(&function.name), params, results, locals, code);
        Ok(())
    }

    /// Register the imports, then compile each function in declaration
    /// order.
    fn compile_prog(self, prog: &analyze::Program) -> (r: Result<
        wasm::WasmModule,
        CompilationError,
    >)
        requires
            program_wf(*prog),
            prog.imports@.len() + prog.functions@.len() <= usize::MAX,
            self.code@.len() == 0,
            self.func_offset == 0,
            self.module.wf(),
            self.module.types@.len() == 0,
            self.module.imports@.len() == 0,
            self.module.exports@.len() == 0,
            self.module.functions@.len() == 0,
        ensures
            (prog.imports@.len() == 0 && prog.functions@.len() == 0) ==> r is Ok,
            r is Ok <==> (forall|j: int|
                0 <= j < prog.functions@.len() ==> function_compilable(
                    #[trigger] prog.functions@[j],
                )),
            r matches Ok(m) ==> {
                &&& m.wf()
                &&& m.imports@.len() == prog.imports@.len()
                &&& m.functions@.len() == prog.functions@.len()
                &&& m.exports@.len() == prog.functions@.len()
                &&& m.types@.len() == prog.imports@.len() + prog.functions@.len()
                &&& forall|j: int|
                    0 <= j < prog.imports@.len() ==> #[trigger] import_entry_ok(
                        m,
                        prog.imports@,
                        j,
                    )
                &&& forall|j: int|
                    0 <= j < prog.functions@.len() ==> #[trigger] func_entry_ok(
                        m,
                        prog.functions@,
                        prog.imports@.len() as int,
                        prog.functions@.len(),
                        j,
                    )
                &&& module_code_bounded(m)
            },
    {
        let mut this = self;
        let ni = prog.imports.len();
        let mut i: usize = 0;
        while i < ni
            invariant
                i <= ni,
                ni == prog.imports@.len(),
                ni + prog.functions@.len() <= usize::MAX,
                this.code@.len() == 0,
                this.func_offset == 0,
                this.module.wf(),
                this.module.imports@.len() == i,
                this.module.types@.len() == i,
                this.module.exports@.len() == 0,
                this.module.functions@.len() == 0,
                forall|j: int|
                    0 <= j < i ==> #[trigger] import_entry_ok(this.module, prog.imports@, j),
            decreases ni - i,
        {
            let import = &prog.imports[i];
            let nt = import.parameter_types.len();
            let mut params: Vec<wasm::Type> = Vec::new();
            let mut k: usize = 0;
            while k < nt
                invariant
                    k <= nt,
                    nt == import.parameter_types@.len(),
                    params@.len() == k,
                    forall|j: int|
                        0 <= j < k ==> params@[j] == spec_wasm_type(
                            import.parameter_types@[j],
                        ),
                    import == &prog.imports@[i as int],
                    i < prog.imports@.len(),
                decreases nt - k,
            {
                let pt = match &import.parameter_types[k] {
                    analyze::Type::Float => wasm::Type::F64,
                    _ => wasm::Type::I32,
                };
                params.push(pt);
                k = k + 1;
            }
            proof {
                assert(params@ =~= map_types(import.parameter_types@));
            }
            let mut results: Vec<wasm::Type> = Vec::new();
            match &import.return_type {
                Some(t) => {
                    let rt = match t {
                        analyze::Type::Float => wasm::Type::F64,
                        _ => wasm::Type::I32,
                    };
                    results.push(rt);
                },
                None => {},
            }
            proof {
                assert(results@ =~= map_result_types(import.return_type));
            }
            let ghost m0 = this.module;
            this.module.add_import(
                clone_bytes(&import.modname),
                clone_bytes(&import.name),
                params,
                results,
            );
            proof {
                assert forall|j: int| 0 <= j < i + 1 implies #[trigger] import_entry_ok(
                    this.module,
                    prog.imports@,
                    j,
                ) by {
                    if j < i {
                        assert(import_entry_ok(m0, prog.imports@, j));
                        assert(this.module.imports@[j] == m0.imports@[j]);
                        assert(this.module.types@[j] == m0.types@[j]);
                    } else {
                        assert(this.module.imports@[j] == this.module.imports@.last());
                        assert(this.module.types@[j] == this.module.types@.last());
                    }
                }
            }
            i = i + 1;
        }
        this.func_offset = this.func_offset + ni;
        let nfn = prog.functions.len();
        let mut j: usize = 0;
        while j < nfn
            invariant
                j <= nfn,
                nfn == prog.functions@.len(),
                ni == prog.imports@.len(),
                ni + nfn <= usize::MAX,
                program_wf(*prog),
                this.code@.len() == 0,
                this.func_offset == ni,
                this.module.wf(),
                this.module.imports@.len() == ni,
                this.module.types@.len() == ni + j,
                this.module.exports@.len() == j,
                this.module.functions@.len() == j,
                forall|k: int|
                    0 <= k < ni ==> #[trigger] import_entry_ok(this.module, prog.imports@, k),
                forall|k: int|
                    0 <= k < j ==> #[trigger] func_entry_ok(
                        this.module,
                        prog.functions@,
                        ni as int,
                        nfn as nat,
                        k,
                    ),
                forall|k: int|
                    0 <= k < j ==> function_compilable(#[trigger] prog.functions@[k]),
            decreases nfn - j,
        {
            proof {
                assert(function_wf(prog.functions@[j as int], nfn as nat, ni as nat));
            }
            let ghost m0 = this.module;
            match this.compile_function(&prog.functions[j], Ghost(nfn as nat)) {
                Ok(()) => {},
                Err(e) => {
                    proof {
                        assert(!function_compilable(prog.functions@[j as int]));
                    }
                    return Err(e);
                },
            }
            proof {
                assert forall|k: int| 0 <= k < j + 1 implies #[trigger] func_entry_ok(
                    this.module,
                    prog.functions@,
                    ni as int,
                    nfn as nat,
                    k,
                ) by {
                    if k < j {
                        assert(func_entry_ok(m0, prog.functions@, ni as int, nfn as nat, k));
                        assert(this.module.exports@[k] == m0.exports@[k]);
                        assert(this.module.types@[ni + k] == m0.types@[ni + k]);
                        assert(this.module.functions@[k] == m0.functions@[k]);
                    } else {
                        assert(this.module.exports@[k] == this.module.exports@.last());
                        assert(this.module.types@[ni + k] == this.module.types@.last());
                        assert(this.module.functions@[k] == this.module.functions@.last());
                    }
                }
                assert forall|k: int| 0 <= k < ni implies #[trigger] import_entry_ok(
                    this.module,
                    prog.imports@,
                    k,
                ) by {
                    assert(import_entry_ok(m0, prog.imports@, k));
                    assert(this.module.imports@ == m0.imports@);
                    assert(this.module.types@[k] == m0.types@[k]);
                }
            }
            j = j + 1;
        }
        proof {
            assert forall|k: int| 0 <= k < this.module.functions@.len() implies instrs_ok(
                (#[trigger] this.module.functions@[k]).code@,
                this.module.types@[this.module.imports@.len() + k].0@.len()
                    + this.module.functions@[k].locals@.len(),
                this.module.imports@.len() + this.module.functions@.len(),
            ) by {
                assert(func_entry_ok(this.module, prog.functions@, ni as int, nfn as nat, k));
            }
        }
        Ok(this.module)
    }
}

} // verus!

verus! {

/// Compile a parsed program: analyze it, then generate the module.
///
/// On success the module is well formed, every function body respects the
/// module's index spaces ([`module_code_bounded`]), the exports carry the
/// source function names in source order, the imports carry the source
/// import names in source order, and every entry of the module is the
/// compilation ([`func_entry_ok`], [`import_entry_ok`]) of a well-formed
/// typed program with those names.
pub fn compile_ast(prog: ast::Program) -> (r: Result<wasm::WasmModule, CompilationError>)
    ensures
        prog.top_levels@.len() == 0 ==> r is Ok,
        r matches Ok(m) ==> {
            &&& m.wf()
            &&& module_code_bounded(m)
            &&& m.exports@.map_values(|e: wasm::Export| e.name@) == ast::function_names(prog)
            &&& m.imports@.map_values(|im: wasm::Import| (im.modname@, im.name@))
                == ast::import_names(prog)
            &&& m.functions@.len() == ast::function_names(prog).len()
            &&& m.imports@.len() == ast::import_names(prog).len()
            &&& m.imports@.len() + m.functions@.len() <= usize::MAX
            &&& exists|p: analyze::Program|
                {
                    &&& #[trigger] analyze::program_wf(p)
                    &&& p.functions@.map_values(|f: analyze::Function| f.name@)
                        == ast::function_names(prog)
                    &&& analyze::functions_match_defs(p.functions@, ast::function_defs(prog))
                    &&& p.imports@.map_values(|im: analyze::Import| (im.modname@, im.name@))
                        == ast::import_names(prog)
                    &&& m.functions@.len() == p.functions@.len()
                    &&& m.imports@.len() == p.imports@.len()
                    &&& forall|j: int|
                        0 <= j < p.functions@.len() ==> func_entry_ok(
                            m,
                            p.functions@,
                            p.imports@.len() as int,
                            p.functions@.len(),
                            j,
                        )
                    &&& forall|j: int|
                        0 <= j < p.imports@.len() ==> import_entry_ok(m, p.imports@, j)
                }
        },
{
    let ntops = prog.top_levels.len();
    let typed = match analyze::analyze(&prog) {
        Ok(t) => t,
        Err(e) => {
            return Err(e);
        },
    };
    let c = Compiler::new();
    let module = match c.compile_prog(&typed) {
        Ok(m) => m,
        Err(e) => {
            return Err(e);
        },
    };
    proof {
        assert(module.exports@.map_values(|e: wasm::Export| e.name@) =~= ast::function_names(
            prog,
        )) by {
            let names = ast::function_names(prog);
            assert(typed.functions@.map_values(|f: analyze::Function| f.name@) == names);
            assert forall|j: int| 0 <= j < module.exports@.len() implies module.exports@.map_values(
                |e: wasm::Export| e.name@,
            )[j] == names[j] by {
                assert(func_entry_ok(
                    module,
                    typed.functions@,
                    typed.imports@.len() as int,
                    typed.functions@.len(),
                    j,
                ));
            }
        }
        assert(module.imports@.map_values(|im: wasm::Import| (im.modname@, im.name@))
            =~= ast::import_names(prog)) by {
            let names = ast::import_names(prog);
            assert(typed.imports@.map_values(|im: analyze::Import| (im.modname@, im.name@))
                == names);
            assert forall|j: int| 0 <= j < module.imports@.len() implies module.imports@.map_values(
                |im: wasm::Import| (im.modname@, im.name@),
            )[j] == names[j] by {
                assert(import_entry_ok(module, typed.imports@, j));
            }
        }
        assert(analyze::program_wf(typed));
    }
    Ok(module)
}

} // verus!
