//! End-to-end scenarios: precedence, associativity, let bindings, error
//! recovery, evaluation faults, and pretty-printing round trips.

use astra::compilation_unit::CompilationUnit;
use astra::syntax_tree::evaluator::{ASTEvaluator, EvalFault};
use astra::syntax_tree::{ASTFlattener, ASTPrinter, FlatNode};

fn evaluate(input: &str) -> ASTEvaluator {
    let unit = CompilationUnit::compile(input);
    assert_eq!(
        unit.diagnostics_vector.diagnostics.len(),
        0,
        "expected a clean compilation of {:?}",
        input
    );
    unit.run_if_valid().expect("an empty diagnostics sink must open the evaluation gate")
}

fn eval_value(input: &str) -> i64 {
    let evaluator = evaluate(input);
    assert!(evaluator.fault.is_none(), "unexpected fault for {:?}", input);
    evaluator.last_value.expect("a result value")
}

#[test]
fn multiplication_binds_tighter_than_addition() {
    assert_eq!(eval_value("7+4*3"), 19);
}

#[test]
fn parenthesization_overrides_precedence() {
    assert_eq!(eval_value("(7+4)*32"), 352);
}

#[test]
fn subtraction_is_left_associative() {
    assert_eq!(eval_value("10-3-2"), 5);
}

#[test]
fn division_is_left_associative() {
    assert_eq!(eval_value("100/10/5"), 2);
}

#[test]
fn power_is_right_associative() {
    assert_eq!(eval_value("2**3**2"), 512);
}

#[test]
fn bitwise_precedence_and_xor_or() {
    assert_eq!(eval_value("12&10"), 8);
    assert_eq!(eval_value("12|10"), 14);
    assert_eq!(eval_value("12^10"), 6);
    assert_eq!(eval_value("1|2^4&5"), 7);
}

#[test]
fn unary_operators_apply_before_binary() {
    assert_eq!(eval_value("-5+8"), 3);
    assert_eq!(eval_value("~0"), -1);
    assert_eq!(eval_value("--3"), 3);
}

#[test]
fn division_truncates_toward_zero() {
    assert_eq!(eval_value("-7/2"), -3);
    assert_eq!(eval_value("7/-2"), -3);
}

#[test]
fn let_binding_is_visible_afterwards() {
    assert_eq!(eval_value("let a = 5\na+2"), 7);
}

#[test]
fn var_keyword_also_binds() {
    assert_eq!(eval_value("var a = 4\na"), 4);
}

#[test]
fn later_binding_shadows_earlier() {
    assert_eq!(eval_value("let a = 1\nlet a = 2\na"), 2);
}

#[test]
fn reference_before_declaration_reports_once_and_gates() {
    let unit = CompilationUnit::compile("a\nlet a = 5");
    assert_eq!(unit.diagnostics_vector.diagnostics.len(), 1);
    assert_eq!(
        unit.diagnostics_vector.diagnostics[0].message,
        "Undeclared variable 'a'"
    );
    assert_eq!(unit.diagnostics_vector.diagnostics[0].span.start, 0);
    assert_eq!(unit.diagnostics_vector.diagnostics[0].span.end, 1);
    assert!(unit.run_if_valid().is_none());
}

#[test]
fn operator_without_operand_recovers_with_one_diagnostic() {
    let unit = CompilationUnit::compile("let a = +");
    assert_eq!(unit.diagnostics_vector.diagnostics.len(), 1);
    let diagnostic = &unit.diagnostics_vector.diagnostics[0];
    assert_eq!(diagnostic.message, "Expected expression, found <+>");
    assert_eq!(diagnostic.span.start, 8);
    assert_eq!(diagnostic.span.end, 9);
    assert_eq!(diagnostic.span.literal, "+");
    assert_eq!(unit.ast.statements.len(), 1);
}

#[test]
fn missing_equals_recovers() {
    let unit = CompilationUnit::compile("let a 5");
    let messages: Vec<&str> = vec!["Expected <=>, found <NUMERAL>", "Expected expression, found <EOF>"];
    assert_eq!(unit.diagnostics_vector.diagnostics.len(), messages.len());
    for (diagnostic, message) in unit.diagnostics_vector.diagnostics.iter().zip(messages.iter()) {
        assert_eq!(diagnostic.message, *message);
    }
}

#[test]
fn missing_closing_parenthesis_recovers() {
    let unit = CompilationUnit::compile("(1+2");
    assert_eq!(unit.diagnostics_vector.diagnostics.len(), 1);
    assert_eq!(
        unit.diagnostics_vector.diagnostics[0].message,
        "Expected <)>, found <EOF>"
    );
}

#[test]
fn numeral_too_large_for_i64_lexes_invalid() {
    let unit = CompilationUnit::compile("99999999999999999999");
    assert_eq!(unit.diagnostics_vector.diagnostics.len(), 1);
    assert_eq!(
        unit.diagnostics_vector.diagnostics[0].message,
        "Expected expression, found <INVALID>"
    );
}

#[test]
fn largest_numeral_still_fits() {
    assert_eq!(eval_value("9223372036854775807"), i64::MAX);
}

#[test]
fn division_by_zero_faults() {
    let evaluator = evaluate("1/0");
    assert_eq!(evaluator.fault, Some(EvalFault::DivisionByZero));
}

#[test]
fn addition_overflow_faults() {
    let evaluator = evaluate("9223372036854775807+1");
    assert_eq!(evaluator.fault, Some(EvalFault::Overflow));
}

#[test]
fn negative_exponent_faults() {
    let evaluator = evaluate("2**-1");
    assert_eq!(evaluator.fault, Some(EvalFault::NegativeExponent));
}

#[test]
fn power_overflow_faults() {
    let evaluator = evaluate("2**64");
    assert_eq!(evaluator.fault, Some(EvalFault::Overflow));
}

#[test]
fn power_edge_cases() {
    assert_eq!(eval_value("5**0"), 1);
    assert_eq!(eval_value("0**0"), 1);
    assert_eq!(eval_value("0**5"), 0);
    assert_eq!(eval_value("2**62"), 4611686018427387904);
}

#[test]
fn empty_program_has_no_result_and_no_diagnostics() {
    let unit = CompilationUnit::compile("");
    assert_eq!(unit.diagnostics_vector.diagnostics.len(), 0);
    let evaluator = unit.run_if_valid().expect("evaluation must run for a clean program");
    assert!(evaluator.last_value.is_none());
    assert!(evaluator.fault.is_none());
}

#[test]
fn register_holds_last_statement_value() {
    assert_eq!(eval_value("1+1\n2*3"), 6);
    let evaluator = evaluate("let a = 5");
    assert_eq!(evaluator.last_value, Some(5));
}

#[test]
fn tabs_and_spaces_are_whitespace() {
    assert_eq!(eval_value("1\t+\t 2"), 3);
}

#[test]
fn identifiers_may_use_unicode_letters() {
    assert_eq!(eval_value("let é = 5\né+1"), 6);
}

#[test]
fn round_trip_pretty_printing() {
    let unit = CompilationUnit::compile("(7+4)*32");
    assert_eq!(unit.diagnostics_vector.diagnostics.len(), 0);
    let mut printer = ASTPrinter::new();
    unit.ast.visit(&mut printer);
    assert_eq!(printer.result, "(7 + 4) * 32\n");

    let reparsed = CompilationUnit::compile(&printer.result);
    assert_eq!(reparsed.diagnostics_vector.diagnostics.len(), 0);

    let mut original_nodes = ASTFlattener::new();
    unit.ast.visit(&mut original_nodes);
    let mut reparsed_nodes = ASTFlattener::new();
    reparsed.ast.visit(&mut reparsed_nodes);
    assert_eq!(original_nodes.nodes, reparsed_nodes.nodes);
    assert_eq!(
        original_nodes.nodes,
        vec![
            FlatNode::BINARY,
            FlatNode::PARENTHESIZED,
            FlatNode::BINARY,
            FlatNode::NUMBER(7),
            FlatNode::NUMBER(4),
            FlatNode::NUMBER(32),
        ]
    );
}

#[test]
fn printing_lets_and_variables_round_trips() {
    let unit = CompilationUnit::compile("let a = 5\na + -2");
    assert_eq!(unit.diagnostics_vector.diagnostics.len(), 0);
    let mut printer = ASTPrinter::new();
    unit.ast.visit(&mut printer);
    assert_eq!(printer.result, "let a = 5\na + -2\n");

    let reparsed = CompilationUnit::compile(&printer.result);
    assert_eq!(reparsed.diagnostics_vector.diagnostics.len(), 0);
    let mut original_nodes = ASTFlattener::new();
    unit.ast.visit(&mut original_nodes);
    let mut reparsed_nodes = ASTFlattener::new();
    reparsed.ast.visit(&mut reparsed_nodes);
    assert_eq!(original_nodes.nodes, reparsed_nodes.nodes);
}
