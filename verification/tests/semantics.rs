//! Tests for semantic analysis and the errors it reports.

use corepython::python_to_wasm;

#[test]
fn undefined_names_are_rejected() {
    let error =
        python_to_wasm("def f() -> int:\n    return y\n").expect_err("expected an error");
    assert!(error.message.contains("Undefined"));
    assert_eq!(error.location.unwrap().row, 2);
}

#[test]
fn operand_types_must_match() {
    let error = python_to_wasm("def f(a: int, b: float) -> int:\n    return a + b\n")
        .expect_err("expected an error");
    assert!(error.message.contains("Type mismatch"));
}

#[test]
fn argument_counts_are_checked() {
    let source = "def g(a: int) -> int:\n    return a\n\ndef f() -> int:\n    return g(1, 2)\n";
    let error = python_to_wasm(source).expect_err("expected an error");
    assert!(error.message.contains("number of arguments"));
}

#[test]
fn argument_types_are_checked() {
    let source = "def g(a: int) -> int:\n    return a\n\ndef f(x: float) -> int:\n    return g(x)\n";
    let error = python_to_wasm(source).expect_err("expected an error");
    assert!(error.message.contains("Expected"));
}

#[test]
fn calling_a_parameter_is_rejected() {
    let error = python_to_wasm("def f(a: int) -> int:\n    return a(1)\n")
        .expect_err("expected an error");
    assert!(error.message.contains("Cannot call parameter"));
}

#[test]
fn invalid_type_identifiers_are_rejected() {
    let error = python_to_wasm("def f(a: complex) -> int:\n    return 1\n")
        .expect_err("expected an error");
    assert!(error.message.contains("Invalid type identifier"));
}

#[test]
fn ord_requires_a_single_character() {
    let error = python_to_wasm("def f() -> int:\n    return ord('ab')\n")
        .expect_err("expected an error");
    assert!(error.message.contains("single character"));
}

#[test]
fn empty_list_literals_are_rejected() {
    let error =
        python_to_wasm("def f() -> int:\n    x = []\n    return 0\n").expect_err("expected an error");
    assert!(error.message.contains("at least 1"));
}

#[test]
fn list_elements_must_share_a_type() {
    let error = python_to_wasm("def f() -> int:\n    x = [1, 2.5]\n    return 0\n")
        .expect_err("expected an error");
    assert!(error.message.contains("same type"));
}

#[test]
fn iterating_over_an_integer_is_rejected() {
    let source = "def f(n: int) -> int:\n    for x in n:\n        n = x\n    return n\n";
    let error = python_to_wasm(source).expect_err("expected an error");
    assert!(error.message.contains("iterate"));
}

#[test]
fn indexing_needs_an_integer_index() {
    let source = "def f(xs: list[int], y: float) -> int:\n    return xs[y]\n";
    let error = python_to_wasm(source).expect_err("expected an error");
    assert!(error.message.contains("index"));
}

#[test]
fn len_takes_a_list_or_tuple() {
    let error = python_to_wasm("def f(a: int) -> int:\n    return len(a)\n")
        .expect_err("expected an error");
    assert!(error.message.contains("len"));
}

#[test]
fn len_of_a_list_reads_the_header() {
    let source = "def f(xs: list[int]) -> int:\n    return len(xs)\n";
    let bytes = python_to_wasm(source).expect("compiles");
    // local.get 0; i32.load align 2 offset 0; return
    let body = [0x20, 0x00, 0x28, 0x02, 0x00, 0x0f];
    assert!(bytes.windows(body.len()).any(|w| w == body));
}

#[test]
fn class_definitions_are_not_implemented() {
    let source = "class C:\n    def m(self: int) -> int:\n        return 1\n";
    let error = python_to_wasm(source).expect_err("expected an error");
    assert!(error.message.contains("class"));
    assert_eq!(error.location.unwrap().row, 1);
}

#[test]
fn pass_break_continue_are_not_implemented() {
    for (source, word) in [
        ("def f() -> int:\n    pass\n", "pass"),
        ("def f() -> int:\n    while 1 < 2:\n        break\n", "break"),
        ("def f() -> int:\n    while 1 < 2:\n        continue\n", "continue"),
    ] {
        let error = python_to_wasm(source).expect_err("expected an error");
        assert!(error.message.contains(word));
    }
}

#[test]
fn float_equality_is_rejected_at_code_generation() {
    let source = "def f(a: float, b: float) -> int:\n    if a == b:\n        return 1\n    else:\n        return 0\n";
    let error = python_to_wasm(source).expect_err("expected an error");
    assert!(error.message.contains("floating point"));
}

#[test]
fn float_ordering_comparisons_compile() {
    let source = "def f(a: float, b: float) -> int:\n    if a < b:\n        return 1\n    else:\n        return 0\n";
    let bytes = python_to_wasm(source).expect("compiles");
    assert!(bytes.contains(&0x63));  // f64.lt
}

#[test]
fn string_code_generation_is_not_implemented() {
    let source = "def f(s: str) -> int:\n    x = 'abc'\n    return 0\n";
    let error = python_to_wasm(source).expect_err("expected an error");
    assert!(error.message.contains("string"));
}

#[test]
fn imported_names_with_float_take_a_float_parameter() {
    // The import signature heuristic: a name containing "float" takes one
    // float parameter, every other import takes one integer.
    let source = "from host import putfloat\n\ndef f(x: float) -> int:\n    return putfloat(x)\n";
    python_to_wasm(source).expect("compiles");
    let bad = "from host import putfloat\n\ndef f(x: int) -> int:\n    return putfloat(x)\n";
    python_to_wasm(bad).expect_err("an integer argument no longer matches");
}

#[test]
fn forward_calls_are_undefined() {
    // Functions can only call what was defined before them.
    let source = "def f() -> int:\n    return g()\n\ndef g() -> int:\n    return 1\n";
    let error = python_to_wasm(source).expect_err("expected an error");
    assert!(error.message.contains("Undefined"));
}

#[test]
fn list_literals_allocate_and_store() {
    let source = "def f() -> int:\n    xs = [1, 2, 3]\n    return len(xs)\n";
    let bytes = python_to_wasm(source).expect("compiles");
    // The bump allocator advances the cursor at address zero by the
    // rounded size: a four-byte header plus 3 * 4 bytes of payload is 16.
    let advance = [0x41, 0x10, 0x6a, 0x36, 0x02, 0x00];
    assert!(bytes.windows(advance.len()).any(|w| w == advance));
}

#[test]
fn for_loops_over_lists_compile() {
    let source = "def f(xs: list[int]) -> int:\n    t = 0\n    for x in xs:\n        t = t + x\n    return t\n";
    let bytes = python_to_wasm(source).expect("compiles");
    // The loop reads each element with i32.load align 2 offset 4.
    let load = [0x28, 0x02, 0x04];
    assert!(bytes.windows(load.len()).any(|w| w == load));
    assert!(bytes.contains(&0x03));  // a loop frame
}

#[test]
fn for_over_a_list_literal_compiles() {
    let source = "def f() -> int:\n    t = 0\n    for x in [1, 2, 3]:\n        t = t + x\n    return t\n";
    python_to_wasm(source).expect("compiles");
}

#[test]
fn parentheses_group_before_multiplication() {
    let source = "def f(a: int) -> int:\n    return (a + 1) * 2\n";
    let bytes = python_to_wasm(source).expect("compiles");
    // local.get 0; i32.const 1; i32.add; i32.const 2; i32.mul
    let grouped = [0x20, 0x00, 0x41, 0x01, 0x6a, 0x41, 0x02, 0x6c];
    assert!(bytes.windows(grouped.len()).any(|w| w == grouped));
}

#[test]
fn boolean_operands_must_share_a_type() {
    let source = "def f(a: int, b: float) -> int:\n    if a and b:\n        return 1\n    else:\n        return 0\n";
    let error = python_to_wasm(source).expect_err("expected an error");
    assert!(error.message.contains("Type mismatch"));
}

#[test]
fn call_results_carry_the_declared_return_type() {
    // A float-returning function can be used where a float is expected.
    let source = "def half() -> float:\n    return 0.5\n\ndef f(x: float) -> float:\n    return x + half()\n";
    let bytes = python_to_wasm(source).expect("compiles");
    assert!(bytes.contains(&0xa0));  // f64.add
}
