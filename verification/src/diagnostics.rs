//! Diagnostics: structured, severity-tagged, span-located records, collected
//! in order during parsing and symbol checking.
//!
//! The sink is append-only: every `report_*` method pushes exactly one
//! record, whose message is pinned down character for character.

pub mod output;

use vstd::prelude::*;
use vstd::string::StringExecFns;

use crate::syntax_tree::lexer::{
    token_type_text, SourceCodeSpan, SpanModel, Token, TokenType,
};

verus! {

/// The severity of a diagnostic.
#[derive(Clone, Copy, Debug, PartialEq, Eq, Structural)]
pub enum DiagnosticKind {
    ERROR,
    WARNING,
    INFO,
}

/// Mathematical model of a diagnostic record.
pub ghost struct DiagModel {
    pub message: Seq<char>,
    pub span: SpanModel,
    pub kind: DiagnosticKind,
}

/// A diagnostic: a message, the source span it points at, and a severity.
/// Records are immutable once created.
#[derive(Debug, Clone)]
pub struct Diagnostic {
    pub message: String,
    pub span: SourceCodeSpan,
    pub kind: DiagnosticKind,
}

impl View for Diagnostic {
    type V = DiagModel;

    open spec fn view(&self) -> DiagModel {
        DiagModel { message: self.message@, span: self.span@, kind: self.kind }
    }
}

impl Diagnostic {
    pub fn new(message: String, span: SourceCodeSpan, kind: DiagnosticKind) -> (r: Self)
        ensures
            r@ == (DiagModel { message: message@, span: span@, kind: kind }),
    {
        Diagnostic { message, span, kind }
    }
}

/// The message reported when a specific token kind was required but another
/// was found.
pub open spec fn unexpected_token_message(expected: TokenType, found: TokenType) -> Seq<char> {
    "Expected <"@ + token_type_text(expected) + ">, found <"@ + token_type_text(found) + ">"@
}

/// The message reported where no primary-expression production matches.
pub open spec fn expected_expression_message(found: TokenType) -> Seq<char> {
    "Expected expression, found <"@ + token_type_text(found) + ">"@
}

/// The message reported for a variable reference with no preceding
/// declaration.
pub open spec fn undeclared_variable_message(name: Seq<char>) -> Seq<char> {
    "Undeclared variable '"@ + name + "'"@
}

/// The append-only collection of diagnostics of one compilation; rendering
/// order equals insertion order.
pub struct DiagnosticsVector {
    pub diagnostics: Vec<Diagnostic>,
}

impl View for DiagnosticsVector {
    type V = Seq<DiagModel>;

    open spec fn view(&self) -> Seq<DiagModel> {
        self.diagnostics@.map_values(|d: Diagnostic| d@)
    }
}

impl DiagnosticsVector {
    pub fn new() -> (r: Self)
        ensures
            r@ == Seq::<DiagModel>::empty(),
    {
        let r = DiagnosticsVector { diagnostics: Vec::new() };
        proof {
            assert(r@ =~= Seq::<DiagModel>::empty());
        }
        r
    }

    pub fn report_error(&mut self, message: String, span: SourceCodeSpan)
        ensures
            final(self)@ == old(self)@.push(
                DiagModel { message: message@, span: span@, kind: DiagnosticKind::ERROR },
            ),
    {
        let error = Diagnostic::new(message, span, DiagnosticKind::ERROR);
        self.diagnostics.push(error);
        proof {
            assert(self@ =~= old(self)@.push(
                DiagModel { message: message@, span: span@, kind: DiagnosticKind::ERROR },
            ));
        }
    }

    pub fn report_warning(&mut self, message: String, span: SourceCodeSpan)
        ensures
            final(self)@ == old(self)@.push(
                DiagModel { message: message@, span: span@, kind: DiagnosticKind::WARNING },
            ),
    {
        let warning = Diagnostic::new(message, span, DiagnosticKind::WARNING);
        self.diagnostics.push(warning);
        proof {
            assert(self@ =~= old(self)@.push(
                DiagModel { message: message@, span: span@, kind: DiagnosticKind::WARNING },
            ));
        }
    }

    pub fn report_unexpected_token(&mut self, expected: &TokenType, token: &Token)
        ensures
            final(self)@ == old(self)@.push(
                DiagModel {
                    message: unexpected_token_message(*expected, token@.kind),
                    span: token@.span,
                    kind: DiagnosticKind::ERROR,
                },
            ),
    {
        let mut message = String::from_str("Expected <");
        let expected_text = expected.text();
        message.append(expected_text.as_str());
        message.append(">, found <");
        let found_text = token.kind.text();
        message.append(found_text.as_str());
        message.append(">");
        self.report_error(message, token.span.duplicate());
    }

    pub fn report_expected_expression(&mut self, token: &Token)
        ensures
            final(self)@ == old(self)@.push(
                DiagModel {
                    message: expected_expression_message(token@.kind),
                    span: token@.span,
                    kind: DiagnosticKind::ERROR,
                },
            ),
    {
        let mut message = String::from_str("Expected expression, found <");
        let found_text = token.kind.text();
        message.append(found_text.as_str());
        message.append(">");
        self.report_error(message, token.span.duplicate());
    }

    pub fn report_undeclared_variable(&mut self, token: &Token)
        ensures
            final(self)@ == old(self)@.push(
                DiagModel {
                    message: undeclared_variable_message(token@.span.literal),
                    span: token@.span,
                    kind: DiagnosticKind::ERROR,
                },
            ),
    {
        let mut message = String::from_str("Undeclared variable '");
        message.append(token.span.literal.as_str());
        message.append("'");
        self.report_error(message, token.span.duplicate());
    }
}

} // verus!
