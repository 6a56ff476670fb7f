//! Tests for parsing and the off-side rule.

use corepython::error::CompilationError;
use corepython::lexer::MyLexer;
use corepython::parser::parse_python;
use corepython::python_to_wasm;
use corepython::token::Token;

fn parse_error(source: &str) -> CompilationError {
    match parse_python(source) {
        Ok(_) => panic!("expected a parse error"),
        Err(e) => e,
    }
}

#[test]
fn test_parse_empty() {
    if let Err(e) = parse_python("") {
        panic!("Ok: {}", e.message);
    }
}

#[test]
fn test_bad_indentation() {
    let source = "\ndef foo():\n   pass\n    return 2\n        ";
    let error = parse_error(source);
    assert_eq!(error.location.unwrap().row, 4);
}

#[test]
fn dedent_between_levels_is_an_indentation_error() {
    // The body indents by four spaces, then a line indents by three:
    // three matches no level on the stack.
    let source = "def f() -> int:\n    x = 1\n   y = 2\n";
    let error = parse_error(source);
    assert_eq!(error.location.unwrap().row, 3);
    assert!(error.message.contains("Indentation"));
}

#[test]
fn unexpected_token_reports_its_location() {
    let error = parse_error("def f(:\n");
    let location = error.location.unwrap();
    assert_eq!(location.row, 1);
    assert_eq!(location.column, 7);
}

#[test]
fn unexpected_end_of_file_is_reported() {
    let error = parse_error("def f(");
    assert!(error.message.contains("end of file"));
}

#[test]
fn invalid_character_is_a_lexical_error() {
    let error = parse_error("def f$():\n    return 1\n");
    assert!(error.message.contains("Invalid character"));
    assert_eq!(error.location.unwrap().row, 1);
}

#[test]
fn comments_and_blank_lines_leave_indentation_alone() {
    // A comment line and a line holding only spaces behave like line
    // ends and do not open or close blocks.
    let plain = "def f() -> int:\n    x = 1\n    return x\n";
    let noisy = "# leading comment\ndef f() -> int:\n    x = 1\n  \n    return x\n";
    let a = python_to_wasm(plain).expect("plain compiles");
    let b = python_to_wasm(noisy).expect("noisy compiles");
    assert_eq!(a, b);
}

#[test]
fn spaces_only_line_emits_no_spurious_newline() {
    let source = "   \n";
    if parse_python(source).is_err() {
        panic!("a line of spaces must parse as an empty program");
    }
}

#[test]
fn reparsing_preserves_structure() {
    // Parsing the same tokens again gives the same module; shifting the
    // locations with leading blank lines changes nothing but locations.
    let source = "def f(a: int) -> int:\n    return a + 1\n";
    let shifted = "\n\ndef f(a: int) -> int:\n    return a + 1\n";
    let once = python_to_wasm(source).expect("compiles");
    let twice = python_to_wasm(source).expect("compiles");
    let moved = python_to_wasm(shifted).expect("compiles");
    assert_eq!(once, twice);
    assert_eq!(once, moved);
}

#[test]
fn line_continuation_joins_lines() {
    let source = "def f() -> int:\n    return 1 + \\\n2\n";
    python_to_wasm(source).expect("continuation compiles");
}

#[test]
fn numbers_too_large_for_i32_are_rejected() {
    let error = parse_error("def f() -> int:\n    return 2147483648\n");
    assert!(error.message.contains("Invalid character"));
}

#[test]
fn indent_and_dedent_tokens_balance() {
    let source = "def f(n: int) -> int:\n    if n < 1:\n        return 0\n    return n\n";
    let tokens = MyLexer::new(source).tokenize().unwrap_or_else(|e| panic!("{}", e.msg));
    let mut depth: i64 = 0;
    for spanned in &tokens {
        match spanned.token {
            Token::Indent => depth += 1,
            Token::Dedent => depth -= 1,
            _ => {}
        }
        assert!(depth >= 0, "a prefix closed more blocks than it opened");
    }
    assert_eq!(depth, 0, "every opened block must be closed at end of input");
}

#[test]
fn empty_comments_act_as_line_ends() {
    let source = "#\ndef f() -> int:  #\n    return 1\n";
    python_to_wasm(source).expect("empty comments compile");
}
