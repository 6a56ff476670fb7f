//! WebAssembly module representation and binary emission.
//!
//! A [`WasmModule`] gathers function types, imports, exports and function
//! bodies; [`write_wasm`] serializes it as a WebAssembly 1.0 binary.  The
//! byte-exact meaning of the emission is given by [`spec_module_bytes`].

use scroll::IOwrite;
use scroll::LE;
use vstd::prelude::*;

verus! {

broadcast use vstd::seq_lib::group_seq_properties;

/// WebAssembly value types used by the code generator.
#[derive(Clone, Copy, PartialEq, Eq, Structural, Debug)]
pub enum Type {
    I32,
    F64,
}

/// A WebAssembly instruction, restricted to the subset the code generator
/// emits.  `F64Const` carries the IEEE-754 binary64 bit pattern of its
/// immediate; the binary encoding of that immediate is byte-for-byte the
/// little-endian encoding of the bit pattern.
#[derive(Clone, PartialEq, Eq, Structural, Debug)]
pub enum Instruction {
    Block,
    Loop,
    If,
    Else,
    End,
    Br(usize),
    BrIf(usize),
    Call(usize),
    Drp,
    LocalGet(usize),
    LocalSet(usize),
    I32Load(usize, usize),
    F64Load(usize, usize),
    I32Store(usize, usize),
    F64Store(usize, usize),
    I32Const(i32),
    F64Const(u64),
    I32Eqz,
    I32Eq,
    I32Ne,
    I32LtS,
    I32GtS,
    I32LeS,
    I32GeS,
    F64Lt,
    F64Gt,
    F64Le,
    F64Ge,
    I32Add,
    I32Sub,
    I32Mul,
    I32DivS,
    I32And,
    I32Or,
    F64Add,
    F64Sub,
    F64Mul,
    F64Div,
    Return,
}

/// Unsigned LEB128 encoding of `n`.
pub open spec fn uleb(n: nat) -> Seq<u8>
    decreases n,
{
    if n < 128 {
        seq![n as u8]
    } else {
        seq![(n % 128 + 128) as u8] + uleb(n / 128)
    }
}

/// Signed LEB128 encoding of `v`.
pub open spec fn sleb(v: int) -> Seq<u8>
    decreases (if v < 0 { -v } else { v }),
{
    if -64 <= v < 64 {
        seq![(v % 128) as u8]
    } else {
        seq![(v % 128 + 128) as u8] + sleb(v / 128)
    }
}

/// The four bytes of `n` in little-endian order.
pub open spec fn le4(n: u32) -> Seq<u8> {
    seq![
        (n & 0xff) as u8,
        ((n >> 8) & 0xff) as u8,
        ((n >> 16) & 0xff) as u8,
        ((n >> 24) & 0xff) as u8,
    ]
}

/// The eight bytes of `n` in little-endian order.
pub open spec fn le8(n: u64) -> Seq<u8> {
    seq![
        (n & 0xff) as u8,
        ((n >> 8) & 0xff) as u8,
        ((n >> 16) & 0xff) as u8,
        ((n >> 24) & 0xff) as u8,
        ((n >> 32) & 0xff) as u8,
        ((n >> 40) & 0xff) as u8,
        ((n >> 48) & 0xff) as u8,
        ((n >> 56) & 0xff) as u8,
    ]
}

/// Encoding of a single value type.
pub open spec fn type_byte(t: Type) -> u8 {
    match t {
        Type::I32 => 0x7f,
        Type::F64 => 0x7c,
    }
}

/// The bytes of the first `i` entries of a value-type vector (without the
/// leading count).
pub open spec fn enc_types_upto(ts: Seq<Type>, i: int) -> Seq<u8>
    decreases i,
{
    if i <= 0 {
        Seq::empty()
    } else {
        enc_types_upto(ts, i - 1) + seq![type_byte(ts[i - 1])]
    }
}

/// A value-type vector: count followed by one byte per type.
pub open spec fn enc_type_vec(ts: Seq<Type>) -> Seq<u8> {
    uleb(ts.len()) + enc_types_upto(ts, ts.len() as int)
}

/// A function type: the `0x60` tag, parameter vector, result vector.
pub open spec fn enc_functype(params: Seq<Type>, results: Seq<Type>) -> Seq<u8> {
    seq![0x60u8] + enc_type_vec(params) + enc_type_vec(results)
}

/// A name: byte count followed by the bytes.
pub open spec fn enc_name(name: Seq<u8>) -> Seq<u8> {
    uleb(name.len()) + name
}

/// Encoding of one instruction.
pub open spec fn enc_instr(instr: Instruction) -> Seq<u8> {
    match instr {
        Instruction::Block => seq![0x02u8, 0x40u8],
        Instruction::Loop => seq![0x03u8, 0x40u8],
        Instruction::If => seq![0x04u8, 0x40u8],
        Instruction::Else => seq![0x05u8],
        Instruction::End => seq![0x0bu8],
        Instruction::Br(label) => seq![0x0cu8] + uleb(label as nat),
        Instruction::BrIf(label) => seq![0x0du8] + uleb(label as nat),
        Instruction::Return => seq![0x0fu8],
        Instruction::Call(func) => seq![0x10u8] + uleb(func as nat),
        Instruction::Drp => seq![0x1au8],
        Instruction::LocalGet(index) => seq![0x20u8] + uleb(index as nat),
        Instruction::LocalSet(index) => seq![0x21u8] + uleb(index as nat),
        Instruction::I32Load(align, offset) => seq![0x28u8] + uleb(align as nat) + uleb(
            offset as nat,
        ),
        Instruction::F64Load(align, offset) => seq![0x2bu8] + uleb(align as nat) + uleb(
            offset as nat,
        ),
        Instruction::I32Store(align, offset) => seq![0x36u8] + uleb(align as nat) + uleb(
            offset as nat,
        ),
        Instruction::F64Store(align, offset) => seq![0x39u8] + uleb(align as nat) + uleb(
            offset as nat,
        ),
        Instruction::I32Const(value) => seq![0x41u8] + sleb(value as int),
        Instruction::F64Const(bits) => seq![0x44u8] + le8(bits),
        Instruction::I32Eqz => seq![0x45u8],
        Instruction::I32Eq => seq![0x46u8],
        Instruction::I32Ne => seq![0x47u8],
        Instruction::I32LtS => seq![0x48u8],
        Instruction::I32GtS => seq![0x4au8],
        Instruction::I32LeS => seq![0x4cu8],
        Instruction::I32GeS => seq![0x4eu8],
        Instruction::F64Lt => seq![0x63u8],
        Instruction::F64Gt => seq![0x64u8],
        Instruction::F64Le => seq![0x65u8],
        Instruction::F64Ge => seq![0x66u8],
        Instruction::I32Add => seq![0x6au8],
        Instruction::I32Sub => seq![0x6bu8],
        Instruction::I32Mul => seq![0x6cu8],
        Instruction::I32DivS => seq![0x6du8],
        Instruction::I32And => seq![0x71u8],
        Instruction::I32Or => seq![0x72u8],
        Instruction::F64Add => seq![0xa0u8],
        Instruction::F64Sub => seq![0xa1u8],
        Instruction::F64Mul => seq![0xa2u8],
        Instruction::F64Div => seq![0xa3u8],
    }
}

/// The bytes of the first `i` instructions of a code buffer.
pub open spec fn enc_instrs_upto(code: Seq<Instruction>, i: int) -> Seq<u8>
    decreases i,
{
    if i <= 0 {
        Seq::empty()
    } else {
        enc_instrs_upto(code, i - 1) + enc_instr(code[i - 1])
    }
}

} // verus!

verus! {

/// Accumulates the bytes of one section payload or of the whole module.
pub struct Writer {
    pub buffer: Vec<u8>,
}

impl Writer {
    pub fn new() -> (w: Writer)
        ensures
            w.buffer@ == Seq::<u8>::empty(),
    {
        Writer { buffer: Vec::new() }
    }

    /// Relies on leb128::write::unsigned: it appends the unsigned LEB128
    /// encoding of `value` (low seven bits first, continuation bit on every
    /// byte but the last); writing into a byte vector cannot fail.
    #[verifier::external_body]
    fn write_varuint(&mut self, value: u64)
        ensures
            final(self).buffer@ == old(self).buffer@ + uleb(value as nat),
    {
        let _ = leb128::write::unsigned(&mut self.buffer, value);
    }

    /// Relies on leb128::write::signed: it appends the signed LEB128
    /// encoding of `value` (low seven bits first, sign-extended, continuation
    /// bit on every byte but the last); writing into a byte vector cannot
    /// fail.
    #[verifier::external_body]
    fn write_varint(&mut self, value: i64)
        ensures
            final(self).buffer@ == old(self).buffer@ + sleb(value as int),
    {
        let _ = leb128::write::signed(&mut self.buffer, value);
    }

    /// Relies on scroll's IOwrite with the little-endian context: it appends
    /// the four bytes of `value` in little-endian order.
    #[verifier::external_body]
    fn write_u32(&mut self, value: u32)
        ensures
            final(self).buffer@ == old(self).buffer@ + le4(value),
    {
        let _ = self.buffer.iowrite_with(value, LE);
    }

    /// Relies on scroll's IOwrite with the little-endian context: it appends
    /// the eight bytes of `bits` in little-endian order, which for an
    /// IEEE-754 binary64 bit pattern is exactly the binary encoding of the
    /// corresponding floating-point immediate.
    #[verifier::external_body]
    fn write_double_bits(&mut self, bits: u64)
        ensures
            final(self).buffer@ == old(self).buffer@ + le8(bits),
    {
        let _ = self.buffer.iowrite_with(bits, LE);
    }

    pub fn write_byte(&mut self, byte: u8)
        ensures
            final(self).buffer@ == old(self).buffer@ + seq![byte],
    {
        self.buffer.push(byte);
    }

    pub fn write_vu32(&mut self, value: u32)
        ensures
            final(self).buffer@ == old(self).buffer@ + uleb(value as nat),
    {
        self.write_varuint(value as u64);
    }

    pub fn write_vi32(&mut self, value: i32)
        ensures
            final(self).buffer@ == old(self).buffer@ + sleb(value as int),
    {
        self.write_varint(value as i64);
    }

    pub fn write_index(&mut self, index: usize)
        ensures
            final(self).buffer@ == old(self).buffer@ + uleb(index as nat),
    {
        self.write_varuint(index as u64);
    }

    pub fn write_blob(&mut self, buf: &[u8])
        ensures
            final(self).buffer@ == old(self).buffer@ + enc_name(buf@),
    {
        self.write_varuint(buf.len() as u64);
        self.buffer.extend_from_slice(buf);
    }

    pub fn write_str(&mut self, text: &Vec<u8>)
        ensures
            final(self).buffer@ == old(self).buffer@ + enc_name(text@),
    {
        self.write_blob(text.as_slice());
    }

    pub fn write_section(&mut self, id: u8, buf: &[u8])
        requires
            id < 128,
        ensures
            final(self).buffer@ == old(self).buffer@ + enc_section(id, buf@),
    {
        self.write_varuint(id as u64);
        self.write_blob(buf);
    }

    pub fn write_header(&mut self)
        ensures
            final(self).buffer@ == old(self).buffer@ + magic_bytes(),
    {
        self.write_byte(0x00);
        self.write_byte(0x61);
        self.write_byte(0x73);
        self.write_byte(0x6d);
        self.write_u32(1);
        proof {
            assert((1u32 & 0xff) as u8 == 1u8 && ((1u32 >> 8) & 0xff) as u8 == 0u8
                && ((1u32 >> 16) & 0xff) as u8 == 0u8 && ((1u32 >> 24) & 0xff) as u8 == 0u8)
                by (bit_vector);
            assert(le4(1) =~= seq![0x01u8, 0x00u8, 0x00u8, 0x00u8]);
            assert(self.buffer@ =~= old(self).buffer@ + magic_bytes());
        }
    }

    pub fn write_type(&mut self, typ: &Type)
        ensures
            final(self).buffer@ == old(self).buffer@ + seq![type_byte(*typ)],
    {
        match typ {
            Type::I32 => self.write_byte(0x7f),
            Type::F64 => self.write_byte(0x7c),
        }
    }

    pub fn write_instruction(&mut self, opcode: &Instruction)
        ensures
            final(self).buffer@ == old(self).buffer@ + enc_instr(*opcode),
    {
        match opcode {
            Instruction::Block => {
                self.write_byte(0x02);
                self.write_byte(0x40);
            }
            Instruction::Loop => {
                self.write_byte(0x03);
                self.write_byte(0x40);
            }
            Instruction::If => {
                self.write_byte(0x04);
                self.write_byte(0x40);
            }
            Instruction::Else => self.write_byte(0x05),
            Instruction::End => self.write_byte(0x0b),
            Instruction::Br(label) => {
                self.write_byte(0x0c);
                self.write_index(*label);
            }
            Instruction::BrIf(label) => {
                self.write_byte(0x0d);
                self.write_index(*label);
            }
            Instruction::Return => self.write_byte(0x0f),
            Instruction::Call(func) => {
                self.write_byte(0x10);
                self.write_index(*func);
            }
            Instruction::Drp => self.write_byte(0x1a),
            Instruction::LocalGet(index) => {
                self.write_byte(0x20);
                self.write_index(*index);
            }
            Instruction::LocalSet(index) => {
                self.write_byte(0x21);
                self.write_index(*index);
            }
            Instruction::I32Load(align, offset) => {
                self.write_byte(0x28);
                self.write_index(*align);
                self.write_index(*offset);
            }
            Instruction::F64Load(align, offset) => {
                self.write_byte(0x2b);
                self.write_index(*align);
                self.write_index(*offset);
            }
            Instruction::I32Store(align, offset) => {
                self.write_byte(0x36);
                self.write_index(*align);
                self.write_index(*offset);
            }
            Instruction::F64Store(align, offset) => {
                self.write_byte(0x39);
                self.write_index(*align);
                self.write_index(*offset);
            }
            Instruction::I32Const(value) => {
                self.write_byte(0x41);
                self.write_vi32(*value);
            }
            Instruction::F64Const(bits) => {
                self.write_byte(0x44);
                self.write_double_bits(*bits);
            }
            Instruction::I32Eqz => self.write_byte(0x45),
            Instruction::I32Eq => self.write_byte(0x46),
            Instruction::I32Ne => self.write_byte(0x47),
            Instruction::I32LtS => self.write_byte(0x48),
            Instruction::I32GtS => self.write_byte(0x4a),
            Instruction::I32LeS => self.write_byte(0x4c),
            Instruction::I32GeS => self.write_byte(0x4e),
            Instruction::F64Lt => self.write_byte(0x63),
            Instruction::F64Gt => self.write_byte(0x64),
            Instruction::F64Le => self.write_byte(0x65),
            Instruction::F64Ge => self.write_byte(0x66),
            Instruction::I32Add => self.write_byte(0x6a),
            Instruction::I32Sub => self.write_byte(0x6b),
            Instruction::I32Mul => self.write_byte(0x6c),
            Instruction::I32DivS => self.write_byte(0x6d),
            Instruction::I32And => self.write_byte(0x71),
            Instruction::I32Or => self.write_byte(0x72),
            Instruction::F64Add => self.write_byte(0xa0),
            Instruction::F64Sub => self.write_byte(0xa1),
            Instruction::F64Mul => self.write_byte(0xa2),
            Instruction::F64Div => self.write_byte(0xa3),
        }
        assert(self.buffer@ =~= old(self).buffer@ + enc_instr(*opcode));
    }
}

/// A section: its id byte, the payload length, the payload.
pub open spec fn enc_section(id: u8, payload: Seq<u8>) -> Seq<u8> {
    seq![id] + uleb(payload.len()) + payload
}

/// The module preamble: `\0asm` followed by version 1.
pub open spec fn magic_bytes() -> Seq<u8> {
    seq![0x00u8, 0x61u8, 0x73u8, 0x6du8, 0x01u8, 0x00u8, 0x00u8, 0x00u8]
}

} // verus!

verus! {

/// A function imported by the module, in import-section order.
pub struct Import {
    pub modname: Vec<u8>,
    pub name: Vec<u8>,
}

/// An exported function: its name and its index among the user functions.
pub struct Export {
    pub name: Vec<u8>,
    pub index: usize,
}

/// A user function body: its declared locals and its instructions.
pub struct Function {
    pub locals: Vec<Type>,
    pub code: Vec<Instruction>,
}

/// A WebAssembly module under construction.
///
/// Imports are registered first; each user function then contributes one
/// entry to `types`, `exports` and `functions`, so the type table holds the
/// import types followed by the user function types.
pub struct WasmModule {
    pub types: Vec<(Vec<Type>, Vec<Type>)>,
    pub imports: Vec<Import>,
    pub exports: Vec<Export>,
    pub functions: Vec<Function>,
}

impl WasmModule {
    /// The construction discipline that `new`, `add_import` and
    /// `add_function` maintain: one export per user function, exports in
    /// function order, and one type per import or function.
    pub open spec fn wf(&self) -> bool {
        &&& self.exports@.len() == self.functions@.len()
        &&& forall|j: int|
            0 <= j < self.exports@.len() ==> (#[trigger] self.exports@[j]).index == j
        &&& self.types@.len() == self.imports@.len() + self.functions@.len()
    }

    pub fn new() -> (m: WasmModule)
        ensures
            m.wf(),
            m.types@.len() == 0,
            m.imports@.len() == 0,
            m.exports@.len() == 0,
            m.functions@.len() == 0,
    {
        WasmModule { types: Vec::new(), imports: Vec::new(), exports: Vec::new(), functions: Vec::new() }
    }

    /// Register an imported function; all imports precede the first call of
    /// `add_function`, so that the type table stays in section order.
    pub fn add_import(
        &mut self,
        modname: Vec<u8>,
        name: Vec<u8>,
        params: Vec<Type>,
        results: Vec<Type>,
    )
        requires
            old(self).wf(),
            old(self).functions@.len() == 0,
        ensures
            final(self).wf(),
            final(self).imports@ == old(self).imports@ + seq![
                Import { modname: modname, name: name },
            ],
            final(self).types@.len() == old(self).types@.len() + 1,
            final(self).types@ == old(self).types@ + seq![(params, results)],
            final(self).exports@ == old(self).exports@,
            final(self).functions@ == old(self).functions@,
    {
        self.types.push((params, results));
        self.imports.push(Import { modname, name });
    }

    /// Register a user function: its type, its export under `name`, and its
    /// body.
    pub fn add_function(
        &mut self,
        name: Vec<u8>,
        params: Vec<Type>,
        results: Vec<Type>,
        locals: Vec<Type>,
        code: Vec<Instruction>,
    )
        requires
            old(self).wf(),
        ensures
            final(self).wf(),
            final(self).imports@ == old(self).imports@,
            final(self).types@ == old(self).types@ + seq![(params, results)],
            final(self).exports@.len() == old(self).exports@.len() + 1,
            final(self).exports@ == old(self).exports@ + seq![
                Export { name: name, index: old(self).functions@.len() as usize },
            ],
            final(self).functions@.len() == old(self).functions@.len() + 1,
            final(self).functions@ == old(self).functions@ + seq![
                Function { locals: locals, code: code },
            ],
    {
        self.types.push((params, results));
        let index = self.functions.len();
        self.exports.push(Export { name, index });
        self.functions.push(Function { locals, code });
    }
}

/// The bytes of the first `i` function types of the type section.
pub open spec fn enc_functypes_upto(ts: Seq<(Vec<Type>, Vec<Type>)>, i: int) -> Seq<u8>
    decreases i,
{
    if i <= 0 {
        Seq::empty()
    } else {
        enc_functypes_upto(ts, i - 1) + enc_functype(ts[i - 1].0@, ts[i - 1].1@)
    }
}

/// Type section payload: count, then each function type.
pub open spec fn type_section_payload(m: WasmModule) -> Seq<u8> {
    uleb(m.types@.len()) + enc_functypes_upto(m.types@, m.types@.len() as int)
}

/// One import entry: module name, field name, the function kind tag, and the
/// type index, which equals the entry's position.
pub open spec fn enc_import(imp: Import, typeidx: int) -> Seq<u8> {
    enc_name(imp.modname@) + enc_name(imp.name@) + seq![0x00u8] + uleb(typeidx as nat)
}

/// The bytes of the first `i` import entries.
pub open spec fn enc_imports_upto(imps: Seq<Import>, i: int) -> Seq<u8>
    decreases i,
{
    if i <= 0 {
        Seq::empty()
    } else {
        enc_imports_upto(imps, i - 1) + enc_import(imps[i - 1], i - 1)
    }
}

/// Import section payload: count, then each import entry.
pub open spec fn import_section_payload(m: WasmModule) -> Seq<u8> {
    uleb(m.imports@.len()) + enc_imports_upto(m.imports@, m.imports@.len() as int)
}

/// The type indices of the first `i` user functions; function `j` has type
/// `nimports + j` in the combined type table.
pub open spec fn enc_funcidx_upto(nimports: nat, i: int) -> Seq<u8>
    decreases i,
{
    if i <= 0 {
        Seq::empty()
    } else {
        enc_funcidx_upto(nimports, i - 1) + uleb((nimports + i - 1) as nat)
    }
}

/// Function section payload: count, then one type index per user function.
pub open spec fn function_section_payload(m: WasmModule) -> Seq<u8> {
    uleb(m.functions@.len()) + enc_funcidx_upto(
        m.imports@.len(),
        m.functions@.len() as int,
    )
}

/// Memory section payload: one memory with a minimum of one page and no
/// maximum.
pub open spec fn memory_section_payload() -> Seq<u8> {
    seq![0x01u8, 0x00u8, 0x01u8]
}

/// One export entry: name, the function kind tag, and the function index
/// offset by the import count.
pub open spec fn enc_export(exp: Export, nimports: nat) -> Seq<u8> {
    enc_name(exp.name@) + seq![0x00u8] + uleb((exp.index + nimports) as nat)
}

/// The bytes of the first `i` export entries.
pub open spec fn enc_exports_upto(exps: Seq<Export>, nimports: nat, i: int) -> Seq<u8>
    decreases i,
{
    if i <= 0 {
        Seq::empty()
    } else {
        enc_exports_upto(exps, nimports, i - 1) + enc_export(exps[i - 1], nimports)
    }
}

/// Export section payload: count, then each export entry.
pub open spec fn export_section_payload(m: WasmModule) -> Seq<u8> {
    uleb(m.exports@.len()) + enc_exports_upto(
        m.exports@,
        m.imports@.len(),
        m.exports@.len() as int,
    )
}

/// The local declarations of a function body: one group of count one per
/// declared local.
pub open spec fn enc_locals_upto(ls: Seq<Type>, i: int) -> Seq<u8>
    decreases i,
{
    if i <= 0 {
        Seq::empty()
    } else {
        enc_locals_upto(ls, i - 1) + seq![0x01u8, type_byte(ls[i - 1])]
    }
}

/// A function body: local groups, the instruction stream, and the closing
/// `end` byte.
pub open spec fn function_body_bytes(f: Function) -> Seq<u8> {
    uleb(f.locals@.len()) + enc_locals_upto(f.locals@, f.locals@.len() as int) + enc_instrs_upto(
        f.code@,
        f.code@.len() as int,
    ) + seq![0x0bu8]
}

/// The bytes of the first `i` size-prefixed function bodies.
pub open spec fn enc_bodies_upto(fs: Seq<Function>, i: int) -> Seq<u8>
    decreases i,
{
    if i <= 0 {
        Seq::empty()
    } else {
        enc_bodies_upto(fs, i - 1) + enc_name(function_body_bytes(fs[i - 1]))
    }
}

/// Code section payload: count, then each size-prefixed body.
pub open spec fn code_section_payload(m: WasmModule) -> Seq<u8> {
    uleb(m.functions@.len()) + enc_bodies_upto(m.functions@, m.functions@.len() as int)
}

/// Data section payload: one active segment at linear address 0 holding
/// the little-endian bytes of 8, which initializes the bump allocator's
/// next-free cursor so that no allocation overlaps the cursor cell.
pub open spec fn data_section_payload() -> Seq<u8> {
    seq![0x01u8, 0x00u8, 0x41u8, 0x00u8, 0x0bu8, 0x04u8, 0x08u8, 0x00u8, 0x00u8, 0x00u8]
}

/// In a well-formed module the sections agree on the counts: the type
/// table holds one entry per import plus one per function, and there is
/// exactly one export and one code body per function.  The encoded
/// sections write exactly these vectors, each behind its own count.
pub proof fn lemma_section_counts_agree(m: WasmModule)
    requires
        m.wf(),
    ensures
        m.types@.len() == m.imports@.len() + m.functions@.len(),
        m.types@.len() >= m.functions@.len(),
        m.exports@.len() == m.functions@.len(),
        type_section_payload(m) == uleb(m.types@.len()) + enc_functypes_upto(
            m.types@,
            m.types@.len() as int,
        ),
        function_section_payload(m) == uleb(m.functions@.len()) + enc_funcidx_upto(
            m.imports@.len(),
            m.functions@.len() as int,
        ),
        export_section_payload(m) == uleb(m.exports@.len()) + enc_exports_upto(
            m.exports@,
            m.imports@.len(),
            m.exports@.len() as int,
        ),
        code_section_payload(m) == uleb(m.functions@.len()) + enc_bodies_upto(
            m.functions@,
            m.functions@.len() as int,
        ),
{
}

/// The complete binary: magic and version, then the type, import (when any
/// import exists), function, memory, export, code and data sections.
pub open spec fn spec_module_bytes(m: WasmModule) -> Seq<u8> {
    magic_bytes() + enc_section(1, type_section_payload(m)) + (if m.imports@.len() > 0 {
        enc_section(2, import_section_payload(m))
    } else {
        Seq::empty()
    }) + enc_section(3, function_section_payload(m)) + enc_section(5, memory_section_payload())
        + enc_section(7, export_section_payload(m)) + enc_section(10, code_section_payload(m))
        + enc_section(11, data_section_payload())
}

} // verus!

verus! {

impl Writer {
    /// Write a vector of value types: count, then one byte per type.
    fn write_type_vec(&mut self, ts: &Vec<Type>)
        ensures
            final(self).buffer@ == old(self).buffer@ + enc_type_vec(ts@),
    {
        self.write_varuint(ts.len() as u64);
        let n = ts.len();
        let mut i: usize = 0;
        while i < n
            invariant
                i <= n,
                n == ts@.len(),
                self.buffer@ == old(self).buffer@ + uleb(ts@.len()) + enc_types_upto(ts@, i as int),
            decreases n - i,
        {
            self.write_type(&ts[i]);
            proof {
                assert(self.buffer@ =~= old(self).buffer@ + uleb(ts@.len()) + enc_types_upto(
                    ts@,
                    i + 1,
                ));
            }
            i = i + 1;
        }
    }

    /// Write the type section payload.
    fn write_type_signatures(&mut self, module: &WasmModule)
        ensures
            final(self).buffer@ == old(self).buffer@ + type_section_payload(*module),
    {
        self.write_varuint(module.types.len() as u64);
        let n = module.types.len();
        let mut i: usize = 0;
        while i < n
            invariant
                i <= n,
                n == module.types@.len(),
                self.buffer@ == old(self).buffer@ + uleb(module.types@.len()) + enc_functypes_upto(
                    module.types@,
                    i as int,
                ),
            decreases n - i,
        {
            let pair = &module.types[i];
            self.write_byte(0x60);
            self.write_type_vec(&pair.0);
            self.write_type_vec(&pair.1);
            proof {
                assert(self.buffer@ =~= old(self).buffer@ + uleb(module.types@.len())
                    + enc_functypes_upto(module.types@, i + 1));
            }
            i = i + 1;
        }
    }

    fn write_type_section(&mut self, module: &WasmModule)
        ensures
            final(self).buffer@ == old(self).buffer@ + enc_section(
                1,
                type_section_payload(*module),
            ),
    {
        let mut w2 = Writer::new();
        w2.write_type_signatures(module);
        self.write_section(1, w2.buffer.as_slice());
    }

    /// Write the import section payload.
    fn write_imports(&mut self, module: &WasmModule)
        ensures
            final(self).buffer@ == old(self).buffer@ + import_section_payload(*module),
    {
        self.write_varuint(module.imports.len() as u64);
        let n = module.imports.len();
        let mut i: usize = 0;
        while i < n
            invariant
                i <= n,
                n == module.imports@.len(),
                self.buffer@ == old(self).buffer@ + uleb(module.imports@.len()) + enc_imports_upto(
                    module.imports@,
                    i as int,
                ),
            decreases n - i,
        {
            let imp = &module.imports[i];
            self.write_str(&imp.modname);
            self.write_str(&imp.name);
            self.write_byte(0x00);
            self.write_index(i);
            proof {
                assert(self.buffer@ =~= old(self).buffer@ + uleb(module.imports@.len())
                    + enc_imports_upto(module.imports@, i + 1));
            }
            i = i + 1;
        }
    }

    fn write_import_section(&mut self, module: &WasmModule)
        ensures
            final(self).buffer@ == old(self).buffer@ + enc_section(
                2,
                import_section_payload(*module),
            ),
    {
        let mut w2 = Writer::new();
        w2.write_imports(module);
        self.write_section(2, w2.buffer.as_slice());
    }

    /// Write the function section payload: one type index per user function,
    /// offset past the import types.
    fn write_function_protos(&mut self, module: &WasmModule)
        requires
            module.imports@.len() + module.functions@.len() <= usize::MAX,
        ensures
            final(self).buffer@ == old(self).buffer@ + function_section_payload(*module),
    {
        self.write_varuint(module.functions.len() as u64);
        let nimports = module.imports.len();
        let n = module.functions.len();
        let mut i: usize = 0;
        while i < n
            invariant
                i <= n,
                n == module.functions@.len(),
                nimports == module.imports@.len(),
                nimports + n <= usize::MAX,
                self.buffer@ == old(self).buffer@ + uleb(module.functions@.len())
                    + enc_funcidx_upto(module.imports@.len(), i as int),
            decreases n - i,
        {
            self.write_index(nimports + i);
            proof {
                assert(self.buffer@ =~= old(self).buffer@ + uleb(module.functions@.len())
                    + enc_funcidx_upto(module.imports@.len(), i + 1));
            }
            i = i + 1;
        }
    }

    fn write_func_section(&mut self, module: &WasmModule)
        requires
            module.imports@.len() + module.functions@.len() <= usize::MAX,
        ensures
            final(self).buffer@ == old(self).buffer@ + enc_section(
                3,
                function_section_payload(*module),
            ),
    {
        let mut w2 = Writer::new();
        w2.write_function_protos(module);
        self.write_section(3, w2.buffer.as_slice());
    }

    fn write_memory_section(&mut self)
        ensures
            final(self).buffer@ == old(self).buffer@ + enc_section(5, memory_section_payload()),
    {
        let mut w2 = Writer::new();
        w2.write_varuint(1);
        w2.write_byte(0x00);
        w2.write_varuint(1);
        proof {
            assert(w2.buffer@ =~= memory_section_payload());
        }
        self.write_section(5, w2.buffer.as_slice());
    }

    /// Write the export section payload: function indices are offset by the
    /// import count.
    fn write_exports(&mut self, module: &WasmModule)
        requires
            forall|j: int|
                0 <= j < module.exports@.len() ==> (#[trigger] module.exports@[j]).index
                    + module.imports@.len() <= usize::MAX,
        ensures
            final(self).buffer@ == old(self).buffer@ + export_section_payload(*module),
    {
        self.write_varuint(module.exports.len() as u64);
        let nimports = module.imports.len();
        let n = module.exports.len();
        let mut i: usize = 0;
        while i < n
            invariant
                i <= n,
                n == module.exports@.len(),
                nimports == module.imports@.len(),
                forall|j: int|
                    0 <= j < module.exports@.len() ==> (#[trigger] module.exports@[j]).index
                        + module.imports@.len() <= usize::MAX,
                self.buffer@ == old(self).buffer@ + uleb(module.exports@.len()) + enc_exports_upto(
                    module.exports@,
                    module.imports@.len(),
                    i as int,
                ),
            decreases n - i,
        {
            let export = &module.exports[i];
            self.write_str(&export.name);
            self.write_byte(0x00);
            self.write_index(export.index + nimports);
            proof {
                assert(self.buffer@ =~= old(self).buffer@ + uleb(module.exports@.len())
                    + enc_exports_upto(module.exports@, module.imports@.len(), i + 1));
            }
            i = i + 1;
        }
    }

    fn write_export_section(&mut self, module: &WasmModule)
        requires
            forall|j: int|
                0 <= j < module.exports@.len() ==> (#[trigger] module.exports@[j]).index
                    + module.imports@.len() <= usize::MAX,
        ensures
            final(self).buffer@ == old(self).buffer@ + enc_section(
                7,
                export_section_payload(*module),
            ),
    {
        let mut w2 = Writer::new();
        w2.write_exports(module);
        self.write_section(7, w2.buffer.as_slice());
    }

    /// Write one function body: local groups, instructions, closing `end`.
    fn write_function_def(&mut self, function: &Function)
        ensures
            final(self).buffer@ == old(self).buffer@ + function_body_bytes(*function),
    {
        self.write_varuint(function.locals.len() as u64);
        let nlocals = function.locals.len();
        let mut i: usize = 0;
        while i < nlocals
            invariant
                i <= nlocals,
                nlocals == function.locals@.len(),
                self.buffer@ == old(self).buffer@ + uleb(function.locals@.len()) + enc_locals_upto(
                    function.locals@,
                    i as int,
                ),
            decreases nlocals - i,
        {
            self.write_varuint(1);
            self.write_type(&function.locals[i]);
            proof {
                assert(uleb(1nat) =~= seq![0x01u8]);
                assert(self.buffer@ =~= old(self).buffer@ + uleb(function.locals@.len())
                    + enc_locals_upto(function.locals@, i + 1));
            }
            i = i + 1;
        }
        let ncode = function.code.len();
        let mut j: usize = 0;
        while j < ncode
            invariant
                j <= ncode,
                ncode == function.code@.len(),
                nlocals == function.locals@.len(),
                self.buffer@ == old(self).buffer@ + uleb(function.locals@.len()) + enc_locals_upto(
                    function.locals@,
                    function.locals@.len() as int,
                ) + enc_instrs_upto(function.code@, j as int),
            decreases ncode - j,
        {
            self.write_instruction(&function.code[j]);
            proof {
                assert(self.buffer@ =~= old(self).buffer@ + uleb(function.locals@.len())
                    + enc_locals_upto(function.locals@, function.locals@.len() as int)
                    + enc_instrs_upto(function.code@, j + 1));
            }
            j = j + 1;
        }
        self.write_instruction(&Instruction::End);
        proof {
            assert(self.buffer@ =~= old(self).buffer@ + function_body_bytes(*function));
        }
    }

    /// Write the code section payload: each body is size-prefixed.
    fn write_function_defs(&mut self, module: &WasmModule)
        ensures
            final(self).buffer@ == old(self).buffer@ + code_section_payload(*module),
    {
        self.write_varuint(module.functions.len() as u64);
        let n = module.functions.len();
        let mut i: usize = 0;
        while i < n
            invariant
                i <= n,
                n == module.functions@.len(),
                self.buffer@ == old(self).buffer@ + uleb(module.functions@.len())
                    + enc_bodies_upto(module.functions@, i as int),
            decreases n - i,
        {
            let mut w2 = Writer::new();
            w2.write_function_def(&module.functions[i]);
            self.write_blob(w2.buffer.as_slice());
            proof {
                assert(self.buffer@ =~= old(self).buffer@ + uleb(module.functions@.len())
                    + enc_bodies_upto(module.functions@, i + 1));
            }
            i = i + 1;
        }
    }

    fn write_code_section(&mut self, module: &WasmModule)
        ensures
            final(self).buffer@ == old(self).buffer@ + enc_section(
                10,
                code_section_payload(*module),
            ),
    {
        let mut w2 = Writer::new();
        w2.write_function_defs(module);
        self.write_section(10, w2.buffer.as_slice());
    }

    /// Write the data section: it sets the bump allocator's next-free
    /// cursor at linear address 0 to 8, so the first allocation starts
    /// past the cursor cell.
    fn write_data_section(&mut self)
        ensures
            final(self).buffer@ == old(self).buffer@ + enc_section(11, data_section_payload()),
    {
        let mut w2 = Writer::new();
        w2.write_varuint(1);
        w2.write_byte(0x00);
        w2.write_instruction(&Instruction::I32Const(0));
        w2.write_instruction(&Instruction::End);
        w2.write_varuint(4);
        w2.write_byte(0x08);
        w2.write_byte(0x00);
        w2.write_byte(0x00);
        w2.write_byte(0x00);
        proof {
            assert(w2.buffer@ =~= data_section_payload());
        }
        self.write_section(11, w2.buffer.as_slice());
    }

    /// Write the whole module.
    fn write(&mut self, module: &WasmModule)
        requires
            module.wf(),
            module.imports@.len() + module.functions@.len() <= usize::MAX,
        ensures
            final(self).buffer@ == old(self).buffer@ + spec_module_bytes(*module),
    {
        self.write_header();
        self.write_type_section(module);
        if module.imports.len() > 0 {
            self.write_import_section(module);
        }
        self.write_func_section(module);
        self.write_memory_section();
        self.write_export_section(module);
        self.write_code_section(module);
        self.write_data_section();
        proof {
            assert(final(self).buffer@ =~= old(self).buffer@ + spec_module_bytes(*module));
        }
    }
}

/// Serialize `module` as a WebAssembly 1.0 binary.
///
/// The result is byte-for-byte the encoding given by [`spec_module_bytes`]:
/// magic and version, then the type, import (when any import exists),
/// function, memory, export, code and data sections.
pub fn write_wasm(module: &WasmModule) -> (r: Vec<u8>)
    requires
        module.wf(),
        module.imports@.len() + module.functions@.len() <= usize::MAX,
    ensures
        r@ == spec_module_bytes(*module),
{
    let mut writer = Writer::new();
    writer.write(module);
    writer.buffer
}

} // verus!
