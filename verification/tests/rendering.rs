//! The source buffer's line arithmetic and the diagnostics renderer's
//! annotated snippets, checked against exact expected text.

use astra::code::source_code::SourceCode;
use astra::compilation_unit::CompilationUnit;
use astra::diagnostics::output::DiagnosticsPrinter;
use astra::syntax_tree::i64_to_string;
use astra::syntax_tree::lexer::TokenType;

#[test]
fn line_queries() {
    let code = SourceCode::new("ab\ncd\n".to_string());
    assert_eq!(code.line_index(0), 0);
    assert_eq!(code.line_index(2), 0);
    assert_eq!(code.line_index(3), 1);
    assert_eq!(code.line_index(4), 1);
    assert_eq!(code.line_index(6), 2);
    assert_eq!(code.line_start(0), 0);
    assert_eq!(code.line_start(1), 3);
    assert_eq!(code.line_start(2), 6);
    assert_eq!(code.get_line(0), "ab");
    assert_eq!(code.get_line(1), "cd");
    assert_eq!(code.get_line(2), "");
}

#[test]
fn rendered_snippet_points_at_span() {
    let input = "let a = b";
    let code = SourceCode::new(input.to_string());
    let unit = CompilationUnit::compile(input);
    assert_eq!(unit.diagnostics_vector.diagnostics.len(), 1);
    let printer = DiagnosticsPrinter::new(&code, &unit.diagnostics_vector.diagnostics);
    let rendered = printer.stringify_diagnostic(&unit.diagnostics_vector.diagnostics[0]);
    assert_eq!(
        rendered,
        "let a = b\n        ^\n        Undeclared variable 'b' at (0,8)"
    );
}

#[test]
fn rendered_snippet_clips_context_and_names_line() {
    let input = "let abcdefghij = 5\nabcdefghij+c";
    let code = SourceCode::new(input.to_string());
    let unit = CompilationUnit::compile(input);
    assert_eq!(unit.diagnostics_vector.diagnostics.len(), 1);
    let printer = DiagnosticsPrinter::new(&code, &unit.diagnostics_vector.diagnostics);
    let rendered = printer.stringify_diagnostic(&unit.diagnostics_vector.diagnostics[0]);
    assert_eq!(
        rendered,
        "defghij+c\n        ^\n        Undeclared variable 'c' at (1,11)"
    );
}

#[test]
fn decimal_rendering_of_extremes() {
    assert_eq!(i64_to_string(0), "0");
    assert_eq!(i64_to_string(-45), "-45");
    assert_eq!(i64_to_string(i64::MAX), "9223372036854775807");
    assert_eq!(i64_to_string(i64::MIN), "-9223372036854775808");
}

#[test]
fn token_kind_display_names() {
    assert_eq!(TokenType::POWER.text(), "**");
    assert_eq!(TokenType::EOF.text(), "EOF");
    assert_eq!(TokenType::NUMERAL(7).text(), "NUMERAL");
    assert_eq!(TokenType::RETURN.text(), "^");
}
