//! Component-level checks: the raw token stream (whitespace preserved,
//! end-of-file synthesized once), the diagnostics sink, the parser's
//! counter, and the evaluator's faults on trees built by hand.

use astra::diagnostics::{DiagnosticKind, DiagnosticsVector};
use astra::syntax_tree::evaluator::{ASTEvaluator, EvalFault};
use astra::syntax_tree::lexer::{Lexer, SourceCodeSpan, Token, TokenType};
use astra::syntax_tree::parser::CompileTimeCounter;
use astra::syntax_tree::{BinaryOperator, BinaryOperatorType, Expression};

fn collect_tokens(input: &str) -> Vec<Token> {
    let mut lexer = Lexer::new(input);
    let mut tokens = Vec::new();
    while let Some(token) = lexer.next_token() {
        tokens.push(token);
    }
    tokens
}

#[test]
fn raw_token_stream_preserves_whitespace() {
    let tokens = collect_tokens("1 + 23");
    let kinds: Vec<TokenType> = tokens.iter().map(|t| t.kind).collect();
    assert_eq!(
        kinds,
        vec![
            TokenType::NUMERAL(1),
            TokenType::WHITESPACE,
            TokenType::PLUS,
            TokenType::WHITESPACE,
            TokenType::NUMERAL(23),
            TokenType::EOF,
        ]
    );
    assert_eq!(tokens[0].span, SourceCodeSpan::new(0, 1, "1".to_string()));
    assert_eq!(tokens[2].span, SourceCodeSpan::new(2, 3, "+".to_string()));
    assert_eq!(tokens[4].span, SourceCodeSpan::new(4, 6, "23".to_string()));
    // The synthetic end-of-file token has its degenerate zero-length span.
    assert_eq!(tokens[5].span.start, 0);
    assert_eq!(tokens[5].span.end, 0);
}

#[test]
fn power_symbol_needs_two_asterisks() {
    let kinds: Vec<TokenType> = collect_tokens("***").iter().map(|t| t.kind).collect();
    assert_eq!(kinds, vec![TokenType::POWER, TokenType::ASTERISK, TokenType::EOF]);
}

#[test]
fn keywords_let_and_var_share_a_kind() {
    let kinds: Vec<TokenType> = collect_tokens("let var lot").iter().map(|t| t.kind).collect();
    assert_eq!(
        kinds,
        vec![
            TokenType::LET,
            TokenType::WHITESPACE,
            TokenType::LET,
            TokenType::WHITESPACE,
            TokenType::IDENTIFIER,
            TokenType::EOF,
        ]
    );
}

#[test]
fn diagnostics_sink_keeps_insertion_order_and_severity() {
    let mut sink = DiagnosticsVector::new();
    sink.report_error("first".to_string(), SourceCodeSpan::new(0, 1, "a".to_string()));
    sink.report_warning("second".to_string(), SourceCodeSpan::new(1, 2, "b".to_string()));
    assert_eq!(sink.diagnostics.len(), 2);
    assert_eq!(sink.diagnostics[0].message, "first");
    assert_eq!(sink.diagnostics[0].kind, DiagnosticKind::ERROR);
    assert_eq!(sink.diagnostics[1].message, "second");
    assert_eq!(sink.diagnostics[1].kind, DiagnosticKind::WARNING);
}

#[test]
fn counter_accumulates() {
    let mut counter = CompileTimeCounter::new();
    assert_eq!(counter.get_value(), 0);
    counter.add(2);
    counter.add(3);
    assert_eq!(counter.get_value(), 5);
}

#[test]
fn operator_precedence_table() {
    let token = Token::new(TokenType::PLUS, SourceCodeSpan::new(0, 1, "+".to_string()));
    assert_eq!(BinaryOperator::new(BinaryOperatorType::POWER, token.duplicate()).precedence(), 13);
    assert_eq!(
        BinaryOperator::new(BinaryOperatorType::MULTIPLY, token.duplicate()).precedence(),
        12
    );
    assert_eq!(BinaryOperator::new(BinaryOperatorType::DIVIDE, token.duplicate()).precedence(), 12);
    assert_eq!(BinaryOperator::new(BinaryOperatorType::PLUS, token.duplicate()).precedence(), 11);
    assert_eq!(BinaryOperator::new(BinaryOperatorType::MINUS, token.duplicate()).precedence(), 11);
    assert_eq!(BinaryOperator::new(BinaryOperatorType::AND, token.duplicate()).precedence(), 7);
    assert_eq!(BinaryOperator::new(BinaryOperatorType::XOR, token.duplicate()).precedence(), 6);
    assert_eq!(BinaryOperator::new(BinaryOperatorType::OR, token.duplicate()).precedence(), 5);
}

#[test]
fn evaluating_an_unbound_variable_faults() {
    let identifier = Token::new(
        TokenType::IDENTIFIER,
        SourceCodeSpan::new(0, 1, "x".to_string()),
    );
    let expression = Expression::identifier(identifier);
    let mut evaluator = ASTEvaluator::new();
    evaluator.eval_expression(&expression);
    assert_eq!(evaluator.fault, Some(EvalFault::UnboundVariable));
}

#[test]
fn evaluating_an_error_placeholder_faults() {
    let expression = Expression::error(SourceCodeSpan::new(0, 1, "@".to_string()));
    let mut evaluator = ASTEvaluator::new();
    evaluator.eval_expression(&expression);
    assert_eq!(evaluator.fault, Some(EvalFault::InvalidExpression));
}

#[test]
fn negating_the_minimum_faults() {
    // The tree `-(-9223372036854775807 - 1)` computes `-i64::MIN`.
    let min = Expression::binary(
        BinaryOperator::new(
            BinaryOperatorType::MINUS,
            Token::new(TokenType::MINUS, SourceCodeSpan::new(0, 1, "-".to_string())),
        ),
        Expression::number(-9223372036854775807),
        Expression::number(1),
    );
    let negated = Expression::unary(
        astra::syntax_tree::UnaryOperator::new(
            astra::syntax_tree::UnaryOperatorType::MINUS,
            Token::new(TokenType::MINUS, SourceCodeSpan::new(0, 1, "-".to_string())),
        ),
        min,
    );
    let mut evaluator = ASTEvaluator::new();
    evaluator.eval_expression(&negated);
    assert_eq!(evaluator.fault, Some(EvalFault::Overflow));
}
