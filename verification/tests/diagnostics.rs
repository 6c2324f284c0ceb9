//! The guillemet-marked inputs delimit the span each expected diagnostic
//! must point at; the marks are stripped before compiling.

use astra::compilation_unit::CompilationUnit;
use astra::diagnostics::Diagnostic;

struct ExpectedDiagnostic {
    message: String,
    start: usize,
    end: usize,
    literal: String,
}

fn get_raw_text(input: &str) -> String {
    input.replace("«", "").replace("»", "")
}

fn parse_input(input: &str, messages: Vec<&str>) -> Vec<ExpectedDiagnostic> {
    let raw_text = get_raw_text(input);
    let mut start_index_stack = vec![];
    let mut current_position: usize = 0;
    let mut diagnostics: Vec<ExpectedDiagnostic> = vec![];
    for c in input.chars() {
        match c {
            '«' => {
                start_index_stack.push(current_position);
            }
            '»' => {
                let start_index = start_index_stack.pop().unwrap();
                let end_index = current_position;
                let literal = raw_text[start_index..end_index].to_string();
                let message = messages[diagnostics.len()].to_string();
                diagnostics.push(ExpectedDiagnostic {
                    message,
                    start: start_index,
                    end: end_index,
                    literal,
                });
            }
            _ => {
                current_position += 1;
            }
        }
    }
    diagnostics
}

fn compile_diagnostics(input: &str) -> Vec<Diagnostic> {
    let raw = get_raw_text(input);
    let compilation_unit = CompilationUnit::compile(&raw);
    compilation_unit.diagnostics_vector.diagnostics.clone()
}

fn verify_diagnostics(input: &str, messages: Vec<&str>) {
    let expected = parse_input(input, messages);
    let actual = compile_diagnostics(input);
    assert_eq!(
        actual.len(),
        expected.len(),
        "Expected {} diagnostics, found {}",
        expected.len(),
        actual.len()
    );
    for (actual, expected) in actual.iter().zip(expected.iter()) {
        assert_eq!(
            actual.message, expected.message,
            "Expected message '{}', found '{}'",
            expected.message, actual.message
        );
        assert_eq!(
            actual.span.start, expected.start,
            "Expected start index {}, found {}",
            expected.start, actual.span.start
        );
        assert_eq!(
            actual.span.end, expected.end,
            "Expected end index {}, found {}",
            expected.end, actual.span.end
        );
        assert_eq!(
            actual.span.literal, expected.literal,
            "Expected literal '{}', found '{}'",
            expected.literal, actual.span.literal
        );
    }
}

// Should report undeclared variable
#[test]
fn test1() {
    let input = "let a = «b»";
    let expected = vec!["Undeclared variable 'b'"];

    verify_diagnostics(input, expected);
}

// Should report expected expression
#[test]
fn test2() {
    let input = "let a = «+»";
    let expected = vec!["Expected expression, found <+>"];

    verify_diagnostics(input, expected);
}

// Should report invalid token
#[test]
fn test3() {
    let input = "let a = 8 «@» 2";
    let expected = vec!["Expected expression, found <INVALID>"];

    verify_diagnostics(input, expected);
}
