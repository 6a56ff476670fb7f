//! End-to-end scenarios: source text in, exact module bytes out.

use corepython::python_to_wasm;

const MAGIC: [u8; 8] = [0x00, 0x61, 0x73, 0x6d, 0x01, 0x00, 0x00, 0x00];

// The data section every module ends with: it sets the bump allocator's
// next-free cursor at address 0 to 8.
const DATA_SECTION: [u8; 12] =
    [0x0b, 0x0a, 0x01, 0x00, 0x41, 0x00, 0x0b, 0x04, 0x08, 0x00, 0x00, 0x00];

fn module(sections: &[&[u8]]) -> Vec<u8> {
    let mut bytes = MAGIC.to_vec();
    for section in sections {
        bytes.extend_from_slice(section);
    }
    bytes.extend_from_slice(&DATA_SECTION);
    bytes
}

#[test]
fn empty_source_compiles_to_an_empty_module() {
    let bytes = python_to_wasm("").expect("empty source compiles");
    let expected = module(&[
        &[0x01, 0x01, 0x00],  // type section: no types
        &[0x03, 0x01, 0x00],  // function section: no functions
        &[0x05, 0x03, 0x01, 0x00, 0x01],  // memory section: one page
        &[0x07, 0x01, 0x00],  // export section: no exports
        &[0x0a, 0x01, 0x00],  // code section: no bodies
    ]);
    assert_eq!(bytes, expected);
}

#[test]
fn identity_function() {
    let bytes = python_to_wasm("def id(x: int) -> int:\n    return x\n").expect("compiles");
    let expected = module(&[
        &[0x01, 0x06, 0x01, 0x60, 0x01, 0x7f, 0x01, 0x7f],
        &[0x03, 0x02, 0x01, 0x00],
        &[0x05, 0x03, 0x01, 0x00, 0x01],
        &[0x07, 0x06, 0x01, 0x02, 0x69, 0x64, 0x00, 0x00],
        // local.get 0; return; i32.const 0; end
        &[0x0a, 0x09, 0x01, 0x07, 0x00, 0x20, 0x00, 0x0f, 0x41, 0x00, 0x0b],
    ]);
    assert_eq!(bytes, expected);
}

#[test]
fn addition_function() {
    let bytes =
        python_to_wasm("def add(a: int, b: int) -> int:\n    return a + b\n").expect("compiles");
    let expected = module(&[
        &[0x01, 0x07, 0x01, 0x60, 0x02, 0x7f, 0x7f, 0x01, 0x7f],
        &[0x03, 0x02, 0x01, 0x00],
        &[0x05, 0x03, 0x01, 0x00, 0x01],
        &[0x07, 0x07, 0x01, 0x03, 0x61, 0x64, 0x64, 0x00, 0x00],
        // local.get 0; local.get 1; i32.add; return; i32.const 0; end
        &[0x0a, 0x0c, 0x01, 0x0a, 0x00, 0x20, 0x00, 0x20, 0x01, 0x6a, 0x0f, 0x41, 0x00, 0x0b],
    ]);
    assert_eq!(bytes, expected);
}

#[test]
fn while_loop_frame() {
    let source = "def count(n: int) -> int:\n    i = 0\n    while i < n:\n        i = i + 1\n    return i\n";
    let bytes = python_to_wasm(source).expect("compiles");
    let expected = module(&[
        &[0x01, 0x06, 0x01, 0x60, 0x01, 0x7f, 0x01, 0x7f],
        &[0x03, 0x02, 0x01, 0x00],
        &[0x05, 0x03, 0x01, 0x00, 0x01],
        &[0x07, 0x09, 0x01, 0x05, 0x63, 0x6f, 0x75, 0x6e, 0x74, 0x00, 0x00],
        &[
            0x0a, 0x26, 0x01, 0x24,
            0x01, 0x01, 0x7f,  // one local of type i32
            0x41, 0x00, 0x21, 0x01,  // i = 0
            0x02, 0x40, 0x03, 0x40,  // block; loop
            0x20, 0x01, 0x20, 0x00, 0x48,  // i < n
            0x45, 0x0d, 0x01,  // i32.eqz; br_if 1
            0x20, 0x01, 0x41, 0x01, 0x6a, 0x21, 0x01,  // i = i + 1
            0x0c, 0x00, 0x0b, 0x0b,  // br 0; end; end
            0x20, 0x01, 0x0f,  // return i
            0x41, 0x00, 0x0b,  // implicit 0; end
        ],
    ]);
    assert_eq!(bytes, expected);
}

#[test]
fn list_indexing_uses_element_size_four_and_offset_four() {
    let source = "def first(xs: list[int]) -> int:\n    return xs[0]\n";
    let bytes = python_to_wasm(source).expect("compiles");
    let expected = module(&[
        &[0x01, 0x06, 0x01, 0x60, 0x01, 0x7f, 0x01, 0x7f],
        &[0x03, 0x02, 0x01, 0x00],
        &[0x05, 0x03, 0x01, 0x00, 0x01],
        &[0x07, 0x09, 0x01, 0x05, 0x66, 0x69, 0x72, 0x73, 0x74, 0x00, 0x00],
        &[
            0x0a, 0x12, 0x01, 0x10, 0x00,
            0x20, 0x00,  // the list pointer
            0x41, 0x00,  // the index
            0x41, 0x04, 0x6c, 0x6a,  // scale by element size 4 and add
            0x28, 0x02, 0x04,  // i32.load align 2 offset 4
            0x0f, 0x41, 0x00, 0x0b,
        ],
    ]);
    assert_eq!(bytes, expected);
}

#[test]
fn imported_sink_is_function_index_zero() {
    let source = "from host import put\n\ndef main(x: int) -> int:\n    put(x)\n    return 0\n";
    let bytes = python_to_wasm(source).expect("compiles");
    let expected = module(&[
        &[
            0x01, 0x0b, 0x02,
            0x60, 0x01, 0x7f, 0x01, 0x7f,  // the import's type
            0x60, 0x01, 0x7f, 0x01, 0x7f,  // main's type
        ],
        &[
            0x02, 0x0c, 0x01,
            0x04, 0x68, 0x6f, 0x73, 0x74,  // "host"
            0x03, 0x70, 0x75, 0x74,  // "put"
            0x00, 0x00,  // a function of type 0
        ],
        &[0x03, 0x02, 0x01, 0x01],  // main uses type 1
        &[0x05, 0x03, 0x01, 0x00, 0x01],
        &[0x07, 0x08, 0x01, 0x04, 0x6d, 0x61, 0x69, 0x6e, 0x00, 0x01],  // export index 1
        &[
            0x0a, 0x0e, 0x01, 0x0c, 0x00,
            0x20, 0x00, 0x10, 0x00, 0x1a,  // put(x); drop
            0x41, 0x00, 0x0f,  // return 0
            0x41, 0x00, 0x0b,
        ],
    ]);
    assert_eq!(bytes, expected);
}

#[test]
fn ord_folds_to_the_code_point() {
    let bytes = python_to_wasm("def f() -> int:\n    return ord('C')\n").expect("compiles");
    let expected = module(&[
        &[0x01, 0x05, 0x01, 0x60, 0x00, 0x01, 0x7f],
        &[0x03, 0x02, 0x01, 0x00],
        &[0x05, 0x03, 0x01, 0x00, 0x01],
        &[0x07, 0x05, 0x01, 0x01, 0x66, 0x00, 0x00],
        // i32.const 67 is C3 00 in signed LEB128
        &[0x0a, 0x0a, 0x01, 0x08, 0x00, 0x41, 0xc3, 0x00, 0x0f, 0x41, 0x00, 0x0b],
    ]);
    assert_eq!(bytes, expected);
}

#[test]
fn hex_literals_are_integers() {
    let bytes = python_to_wasm("def h() -> int:\n    return 0x10\n").expect("compiles");
    let expected = module(&[
        &[0x01, 0x05, 0x01, 0x60, 0x00, 0x01, 0x7f],
        &[0x03, 0x02, 0x01, 0x00],
        &[0x05, 0x03, 0x01, 0x00, 0x01],
        &[0x07, 0x05, 0x01, 0x01, 0x68, 0x00, 0x00],
        &[0x0a, 0x09, 0x01, 0x07, 0x00, 0x41, 0x10, 0x0f, 0x41, 0x00, 0x0b],
    ]);
    assert_eq!(bytes, expected);
}

#[test]
fn float_literals_encode_ieee754_bytes() {
    let bytes = python_to_wasm("def one() -> float:\n    return 1.5\n").expect("compiles");
    let expected = module(&[
        &[0x01, 0x05, 0x01, 0x60, 0x00, 0x01, 0x7c],
        &[0x03, 0x02, 0x01, 0x00],
        &[0x05, 0x03, 0x01, 0x00, 0x01],
        &[0x07, 0x07, 0x01, 0x03, 0x6f, 0x6e, 0x65, 0x00, 0x00],
        &[
            0x0a, 0x17, 0x01, 0x15, 0x00,
            0x44, 0x00, 0x00, 0x00, 0x00, 0x00, 0x00, 0xf8, 0x3f,  // 1.5
            0x0f,
            0x44, 0x00, 0x00, 0x00, 0x00, 0x00, 0x00, 0x00, 0x00,  // implicit 0.0
            0x0b,
        ],
    ]);
    assert_eq!(bytes, expected);
}

#[test]
fn every_module_starts_with_the_magic() {
    let sources = [
        "",
        "def f() -> int:\n    return 1\n",
        "from host import put\n",
    ];
    for source in sources {
        let bytes = python_to_wasm(source).expect("compiles");
        assert_eq!(&bytes[0..8], &MAGIC);
    }
}

#[test]
fn user_calls_are_offset_by_the_import_count() {
    let source = "from host import put\n\ndef f() -> int:\n    return 1\n\ndef g() -> int:\n    return f()\n";
    let bytes = python_to_wasm(source).expect("compiles");
    // g calls f, which sits at function index 1: import 0, then f.
    let call = [0x10, 0x01, 0x0f];
    assert!(bytes.windows(call.len()).any(|w| w == call));
}

#[test]
fn boolean_operators_emit_bitwise_instructions() {
    let source = "def f(a: int, b: int) -> int:\n    if a < 1 and b < 2 or a < 3:\n        return 1\n    else:\n        return 0\n";
    let bytes = python_to_wasm(source).expect("compiles");
    assert!(bytes.contains(&0x71));  // i32.and
    assert!(bytes.contains(&0x72));  // i32.or
}

#[test]
fn arithmetic_operators_cover_the_integer_opcodes() {
    let source = "def f(a: int, b: int) -> int:\n    return a - b * a / b\n";
    let bytes = python_to_wasm(source).expect("compiles");
    assert!(bytes.contains(&0x6b));  // i32.sub
    assert!(bytes.contains(&0x6c));  // i32.mul
    assert!(bytes.contains(&0x6d));  // i32.div_s
}

#[test]
fn float_fractions_round_to_the_nearest_double() {
    let tenth = python_to_wasm("def f() -> float:\n    return 0.1\n").expect("compiles");
    let tenth_bits = [0x44, 0x9a, 0x99, 0x99, 0x99, 0x99, 0x99, 0xb9, 0x3f];
    assert!(tenth.windows(tenth_bits.len()).any(|w| w == tenth_bits));
    let pi_ish = python_to_wasm("def f() -> float:\n    return 3.14\n").expect("compiles");
    let pi_bits = [0x44, 0x1f, 0x85, 0xeb, 0x51, 0xb8, 0x1e, 0x09, 0x40];
    assert!(pi_ish.windows(pi_bits.len()).any(|w| w == pi_bits));
}

#[test]
fn integer_bounds_encode_and_overflow_rejects() {
    let max = python_to_wasm("def f() -> int:\n    return 0x7fffffff\n").expect("compiles");
    // i32.const 2147483647 in signed LEB128
    let imm = [0x41, 0xff, 0xff, 0xff, 0xff, 0x07];
    assert!(max.windows(imm.len()).any(|w| w == imm));
    let error = python_to_wasm("def f() -> int:\n    return 0x80000000\n")
        .expect_err("too large for i32");
    assert!(error.message.contains("too large"));
}

#[test]
fn nested_suites_compile() {
    let source = "def f(a: int, b: int) -> int:\n    t = 0\n    while a < b:\n        if a < 10:\n            t = t + a\n        else:\n            t = t - a\n        a = a + 1\n    return t\n";
    let bytes = python_to_wasm(source).expect("compiles");
    assert!(bytes.contains(&0x04));  // an if frame
}

#[test]
fn triple_quoted_strings_act_as_docstrings() {
    // A long string as an expression statement is analyzed as a string,
    // and string code generation is not implemented.
    let source = "def f() -> int:\n    \"\"\"doc\"\"\"\n    return 1\n";
    let error = python_to_wasm(source).expect_err("strings have no code generation");
    assert!(error.message.contains("string"));
}
