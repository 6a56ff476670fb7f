//! A compiler for a small statically-typed, indentation-sensitive Python-like
//! language, emitting WebAssembly 1.0 module binaries.
//!
//! The pipeline is a straight line: the lexer turns bytes into tokens with
//! synthesized `INDENT`/`DEDENT`s, the parser builds an AST, the analyzer
//! resolves names and checks types, the code generator emits stack-machine
//! instructions, and the emitter serializes the module, LEB128 and all.

use vstd::prelude::*;

pub mod analyze;
pub mod ast;
pub mod compile;
pub mod error;
pub mod lexer;
pub mod location;
pub mod parser;
pub mod text;
pub mod token;
pub mod wasm;

verus! {

/// Compile source text to a WebAssembly 1.0 module binary.
///
/// On success the result is a complete module: it starts with the
/// `\0asm` magic and version 1, and its type, function, export and code
/// sections agree on the function counts, with one export per source
/// function under the source function's name.
pub fn python_to_wasm(source: &str) -> (r: Result<Vec<u8>, error::CompilationError>)
    ensures
        source@.len() == 0 ==> (r matches Ok(bytes) && exists|m: wasm::WasmModule|
            {
                &&& #[trigger] wasm::spec_module_bytes(m) == bytes@
                &&& m.wf()
                &&& m.functions@.len() == 0
                &&& m.imports@.len() == 0
            }),
        r matches Ok(bytes) ==> {
            &&& bytes@.len() >= 8
            &&& bytes@.subrange(0, 8) == wasm::magic_bytes()
            &&& exists|m: wasm::WasmModule|
                {
                    &&& #[trigger] wasm::spec_module_bytes(m) == bytes@
                    &&& m.wf()
                    &&& compile::module_code_bounded(m)
                }
        },
{
    let program = match parser::parse_python(source) {
        Ok(p) => p,
        Err(e) => {
            return Err(e);
        },
    };
    let module = match compile::compile_ast(program) {
        Ok(m) => m,
        Err(e) => {
            return Err(e);
        },
    };
    let bytes = wasm::write_wasm(&module);
    proof {
        assert(bytes@.len() >= 8);
        assert(bytes@.subrange(0, 8) =~= wasm::magic_bytes());
        assert(wasm::spec_module_bytes(module) == bytes@);
    }
    Ok(bytes)
}

} // verus!
