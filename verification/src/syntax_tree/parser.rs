//! The parser: a precedence-climbing recursive descent over the filtered
//! token sequence.
//!
//! The whole parse is specified by the pure functions `spec_parse_*`, which
//! map a token sequence and a cursor to the node built, the new cursor, and
//! the diagnostics reported.  The executable parser realizes exactly that
//! model.  Malformed input never aborts a parse: every error path yields a
//! placeholder node and a diagnostic, and parsing continues.

use vstd::prelude::*;

use crate::diagnostics::{
    expected_expression_message, unexpected_token_message, DiagModel, DiagnosticKind,
    DiagnosticsVector,
};
use crate::syntax_tree::lexer::{Token, TokenModel, TokenType};
use crate::syntax_tree::{
    precedence_of, ASTStatement, BinaryOperator, BinaryOperatorType, Expression, ExprModel,
    StmtModel, UnaryOperator, UnaryOperatorType,
};

verus! {

/// A well-formed token sequence for parsing: non-empty, ending with the
/// end-of-file token, with whitespace already filtered out.
pub open spec fn tokens_wf(tokens: Seq<TokenModel>) -> bool {
    &&& tokens.len() > 0
    &&& tokens.last().kind == TokenType::EOF
    &&& forall|i: int| 0 <= i < tokens.len() ==> tokens[i].kind != TokenType::WHITESPACE
}

/// The index the cursor reads through: past the end it clamps to the last
/// token, so reading never leaves the sequence.
pub open spec fn clamp_index(tokens: Seq<TokenModel>, pos: int) -> int {
    if pos < tokens.len() {
        pos
    } else {
        tokens.len() - 1
    }
}

/// The token under the (clamped) cursor.
pub open spec fn token_at(tokens: Seq<TokenModel>, pos: int) -> TokenModel {
    tokens[clamp_index(tokens, pos)]
}

/// The cursor after consuming one token; it saturates at the end of the
/// sequence.
pub open spec fn advance(tokens: Seq<TokenModel>, pos: int) -> int {
    if pos < tokens.len() {
        pos + 1
    } else {
        pos
    }
}

/// How many tokens remain ahead of the cursor.
pub open spec fn spec_avail(tokens: Seq<TokenModel>, pos: int) -> int {
    if pos < tokens.len() {
        tokens.len() - pos
    } else {
        0
    }
}

/// The larger of two cursors.  The parser's cursor only moves forward; the
/// spec functions state that fact definitionally so that their recursion
/// visibly terminates.
pub open spec fn at_least(pos: int, bound: int) -> int {
    if pos < bound {
        bound
    } else {
        pos
    }
}

/// The diagnostic for a required token kind that was not found.
pub open spec fn unexpected_token_diag(expected: TokenType, found: TokenModel) -> DiagModel {
    DiagModel {
        message: unexpected_token_message(expected, found.kind),
        span: found.span,
        kind: DiagnosticKind::ERROR,
    }
}

/// The diagnostic for a token where no primary-expression production
/// matches.
pub open spec fn expected_expression_diag(found: TokenModel) -> DiagModel {
    DiagModel {
        message: expected_expression_message(found.kind),
        span: found.span,
        kind: DiagnosticKind::ERROR,
    }
}

/// The unary operator the token under the cursor denotes, if any.
pub open spec fn spec_parse_unary_operator(tokens: Seq<TokenModel>, pos: int) -> Option<
    UnaryOperatorType,
> {
    match token_at(tokens, pos).kind {
        TokenType::MINUS => Some(UnaryOperatorType::MINUS),
        TokenType::NOT => Some(UnaryOperatorType::NOT),
        _ => None,
    }
}

/// The binary operator the token under the cursor denotes, if any.
pub open spec fn spec_parse_binary_operator(tokens: Seq<TokenModel>, pos: int) -> Option<
    BinaryOperatorType,
> {
    match token_at(tokens, pos).kind {
        TokenType::PLUS => Some(BinaryOperatorType::PLUS),
        TokenType::MINUS => Some(BinaryOperatorType::MINUS),
        TokenType::ASTERISK => Some(BinaryOperatorType::MULTIPLY),
        TokenType::SLASH => Some(BinaryOperatorType::DIVIDE),
        TokenType::AMPERSAND => Some(BinaryOperatorType::AND),
        TokenType::PIPE => Some(BinaryOperatorType::OR),
        TokenType::RETURN => Some(BinaryOperatorType::XOR),
        TokenType::POWER => Some(BinaryOperatorType::POWER),
        _ => None,
    }
}

/// Parses one primary expression: a numeral, a parenthesized expression
/// (requiring, but recovering without, the closing parenthesis), or a
/// variable; anything else is reported and becomes an error placeholder.
pub open spec fn spec_parse_primary(tokens: Seq<TokenModel>, pos: int) -> (
    ExprModel,
    int,
    Seq<DiagModel>,
)
    decreases spec_avail(tokens, pos), 1int,
    when tokens_wf(tokens) && 0 <= pos
{
    let tok = token_at(tokens, pos);
    let pos1 = advance(tokens, pos);
    match tok.kind {
        TokenType::NUMERAL(number) => (ExprModel::Number { value: number }, pos1, Seq::empty()),
        TokenType::LEFTPAR => {
            let (inner, pos2, diags) = spec_parse_expression(tokens, pos1);
            let pos2c = at_least(pos2, pos1);
            let closing = token_at(tokens, pos2c);
            let pos3 = advance(tokens, pos2c);
            let diags2 = if closing.kind == TokenType::RIGHTPAR {
                diags
            } else {
                diags.push(unexpected_token_diag(TokenType::RIGHTPAR, closing))
            };
            (ExprModel::Parenthesized { inner: Box::new(inner) }, pos3, diags2)
        },
        TokenType::IDENTIFIER => (ExprModel::Variable { token: tok }, pos1, Seq::empty()),
        _ => (ExprModel::Error { span: tok.span }, pos1, seq![expected_expression_diag(tok)]),
    }
}

/// Parses one unary expression: a run of prefix operators applied to a
/// primary expression.
pub open spec fn spec_parse_unary(tokens: Seq<TokenModel>, pos: int) -> (
    ExprModel,
    int,
    Seq<DiagModel>,
)
    decreases spec_avail(tokens, pos), 2int,
    when tokens_wf(tokens) && 0 <= pos
{
    match spec_parse_unary_operator(tokens, pos) {
        Some(op) => {
            let tok = token_at(tokens, pos);
            let (operand, pos2, diags) = spec_parse_unary(tokens, advance(tokens, pos));
            (
                ExprModel::Unary { op: op, token: tok, operand: Box::new(operand) },
                pos2,
                diags,
            )
        },
        None => spec_parse_primary(tokens, pos),
    }
}

/// The minimum precedence an operator demands of its right-hand side.
/// Every operator is left-associative — its right-hand side must bind one
/// step tighter — except the power operator, which right-associates by
/// parsing its right-hand side at its own precedence.
pub open spec fn right_precedence(op: BinaryOperatorType) -> u8 {
    if op == BinaryOperatorType::POWER {
        precedence_of(op)
    } else {
        (precedence_of(op) + 1) as u8
    }
}

/// After a left operand has been parsed: as long as the cursor offers a
/// binary operator whose precedence reaches `min_prec`, consumes it, parses
/// its right-hand side at the precedence the operator's associativity
/// demands, and folds the pair into a binary node.
pub open spec fn spec_parse_binary_rest(
    tokens: Seq<TokenModel>,
    pos: int,
    min_prec: u8,
    left: ExprModel,
) -> (ExprModel, int, Seq<DiagModel>)
    decreases spec_avail(tokens, pos), 3int,
    when tokens_wf(tokens) && 0 <= pos
{
    match spec_parse_binary_operator(tokens, pos) {
        Some(op) => {
            if precedence_of(op) < min_prec {
                (left, pos, Seq::empty())
            } else {
                let optok = token_at(tokens, pos);
                let (right, pos2, diags2) = spec_parse_binary(
                    tokens,
                    advance(tokens, pos),
                    right_precedence(op),
                );
                let pos2c = at_least(pos2, advance(tokens, pos));
                let combined = ExprModel::Binary {
                    op: op,
                    token: optok,
                    left: Box::new(left),
                    right: Box::new(right),
                };
                let (result, pos3, diags3) = spec_parse_binary_rest(
                    tokens,
                    pos2c,
                    min_prec,
                    combined,
                );
                (result, pos3, diags2 + diags3)
            }
        },
        None => (left, pos, Seq::empty()),
    }
}

/// Parses one binary expression at the given minimum precedence.
pub open spec fn spec_parse_binary(tokens: Seq<TokenModel>, pos: int, min_prec: u8) -> (
    ExprModel,
    int,
    Seq<DiagModel>,
)
    decreases spec_avail(tokens, pos), 4int,
    when tokens_wf(tokens) && 0 <= pos
{
    let (left, pos1, diags1) = spec_parse_unary(tokens, pos);
    let pos1c = at_least(pos1, pos);
    let (result, pos2, diags2) = spec_parse_binary_rest(tokens, pos1c, min_prec, left);
    (result, pos2, diags1 + diags2)
}

/// Parses one expression: a binary expression at minimum precedence zero.
pub open spec fn spec_parse_expression(tokens: Seq<TokenModel>, pos: int) -> (
    ExprModel,
    int,
    Seq<DiagModel>,
)
    decreases spec_avail(tokens, pos), 5int,
    when tokens_wf(tokens) && 0 <= pos
{
    spec_parse_binary(tokens, pos, 0)
}

/// Parses one let statement: the keyword, a required identifier, a required
/// equals sign (each reported but recovered from when absent), and the
/// initializer expression.
pub open spec fn spec_parse_let(tokens: Seq<TokenModel>, pos: int) -> (
    StmtModel,
    int,
    Seq<DiagModel>,
)
    decreases spec_avail(tokens, pos), 6int,
    when tokens_wf(tokens) && 0 <= pos
{
    let keyword = token_at(tokens, pos);
    let pos1 = advance(tokens, pos);
    let diags1: Seq<DiagModel> = if keyword.kind == TokenType::LET {
        Seq::empty()
    } else {
        seq![unexpected_token_diag(TokenType::LET, keyword)]
    };
    let identifier = token_at(tokens, pos1);
    let pos2 = advance(tokens, pos1);
    let diags2: Seq<DiagModel> = if identifier.kind == TokenType::IDENTIFIER {
        Seq::empty()
    } else {
        seq![unexpected_token_diag(TokenType::IDENTIFIER, identifier)]
    };
    let equals = token_at(tokens, pos2);
    let pos3 = advance(tokens, pos2);
    let diags3: Seq<DiagModel> = if equals.kind == TokenType::EQUALS {
        Seq::empty()
    } else {
        seq![unexpected_token_diag(TokenType::EQUALS, equals)]
    };
    let (initializer, pos4, diags4) = spec_parse_expression(tokens, pos3);
    (
        StmtModel::Let { identifier: identifier, initializer: initializer },
        pos4,
        diags1 + diags2 + diags3 + diags4,
    )
}

/// Parses one statement: a let statement when the cursor is at the keyword,
/// a bare expression statement otherwise.
pub open spec fn spec_parse_statement(tokens: Seq<TokenModel>, pos: int) -> (
    StmtModel,
    int,
    Seq<DiagModel>,
)
    decreases spec_avail(tokens, pos), 7int,
    when tokens_wf(tokens) && 0 <= pos
{
    if token_at(tokens, pos).kind == TokenType::LET {
        spec_parse_let(tokens, pos)
    } else {
        let (expr, pos1, diags) = spec_parse_expression(tokens, pos);
        (StmtModel::Expression { expr: expr }, pos1, diags)
    }
}

/// Parses every statement until the cursor reaches the end-of-file token.
pub open spec fn spec_parse_program(tokens: Seq<TokenModel>, pos: int) -> (
    Seq<StmtModel>,
    Seq<DiagModel>,
)
    decreases spec_avail(tokens, pos), 8int,
    when tokens_wf(tokens) && 0 <= pos
{
    if token_at(tokens, pos).kind == TokenType::EOF {
        (Seq::empty(), Seq::empty())
    } else {
        let (stmt, pos1, diags1) = spec_parse_statement(tokens, pos);
        let pos1c = at_least(pos1, advance(tokens, pos));
        let (stmts, diags2) = spec_parse_program(tokens, pos1c);
        (seq![stmt] + stmts, diags1 + diags2)
    }
}

/// A parse that reports nothing produces a primary expression free of
/// error placeholders.
pub proof fn lemma_parse_primary_clean(tokens: Seq<TokenModel>, pos: int)
    requires
        tokens_wf(tokens),
        0 <= pos,
    ensures
        spec_parse_primary(tokens, pos).2.len() == 0 ==> !crate::syntax_tree::expr_has_error(
            spec_parse_primary(tokens, pos).0,
        ),
    decreases spec_avail(tokens, pos), 1int,
{
    let tok = token_at(tokens, pos);
    if tok.kind == TokenType::LEFTPAR {
        lemma_parse_expression_clean(tokens, advance(tokens, pos));
    }
}

/// A parse that reports nothing produces a unary expression free of error
/// placeholders.
pub proof fn lemma_parse_unary_clean(tokens: Seq<TokenModel>, pos: int)
    requires
        tokens_wf(tokens),
        0 <= pos,
    ensures
        spec_parse_unary(tokens, pos).2.len() == 0 ==> !crate::syntax_tree::expr_has_error(
            spec_parse_unary(tokens, pos).0,
        ),
    decreases spec_avail(tokens, pos), 2int,
{
    match spec_parse_unary_operator(tokens, pos) {
        Some(op) => {
            lemma_parse_unary_clean(tokens, advance(tokens, pos));
        },
        None => {
            lemma_parse_primary_clean(tokens, pos);
        },
    }
}

/// Folding further operators into an error-free left operand, reporting
/// nothing, yields an error-free expression.
pub proof fn lemma_parse_binary_rest_clean(
    tokens: Seq<TokenModel>,
    pos: int,
    min_prec: u8,
    left: ExprModel,
)
    requires
        tokens_wf(tokens),
        0 <= pos,
    ensures
        spec_parse_binary_rest(tokens, pos, min_prec, left).2.len() == 0
            && !crate::syntax_tree::expr_has_error(left)
            ==> !crate::syntax_tree::expr_has_error(
            spec_parse_binary_rest(tokens, pos, min_prec, left).0,
        ),
    decreases spec_avail(tokens, pos), 3int,
{
    match spec_parse_binary_operator(tokens, pos) {
        Some(op) => {
            if precedence_of(op) >= min_prec {
                let optok = token_at(tokens, pos);
                let (right, pos2, diags2) = spec_parse_binary(
                    tokens,
                    advance(tokens, pos),
                    right_precedence(op),
                );
                lemma_parse_binary_clean(tokens, advance(tokens, pos), right_precedence(op));
                let pos2c = at_least(pos2, advance(tokens, pos));
                let combined = ExprModel::Binary {
                    op: op,
                    token: optok,
                    left: Box::new(left),
                    right: Box::new(right),
                };
                lemma_parse_binary_rest_clean(tokens, pos2c, min_prec, combined);
            }
        },
        None => {},
    }
}

/// A parse that reports nothing produces a binary expression free of error
/// placeholders.
pub proof fn lemma_parse_binary_clean(tokens: Seq<TokenModel>, pos: int, min_prec: u8)
    requires
        tokens_wf(tokens),
        0 <= pos,
    ensures
        spec_parse_binary(tokens, pos, min_prec).2.len() == 0
            ==> !crate::syntax_tree::expr_has_error(spec_parse_binary(tokens, pos, min_prec).0),
    decreases spec_avail(tokens, pos), 4int,
{
    let (left, pos1, diags1) = spec_parse_unary(tokens, pos);
    lemma_parse_unary_clean(tokens, pos);
    let pos1c = at_least(pos1, pos);
    lemma_parse_binary_rest_clean(tokens, pos1c, min_prec, left);
}

/// A parse that reports nothing produces an expression free of error
/// placeholders.
pub proof fn lemma_parse_expression_clean(tokens: Seq<TokenModel>, pos: int)
    requires
        tokens_wf(tokens),
        0 <= pos,
    ensures
        spec_parse_expression(tokens, pos).2.len() == 0 ==> !crate::syntax_tree::expr_has_error(
            spec_parse_expression(tokens, pos).0,
        ),
    decreases spec_avail(tokens, pos), 5int,
{
    lemma_parse_binary_clean(tokens, pos, 0);
}

/// A parse that reports nothing produces a statement free of error
/// placeholders.
pub proof fn lemma_parse_statement_clean(tokens: Seq<TokenModel>, pos: int)
    requires
        tokens_wf(tokens),
        0 <= pos,
    ensures
        spec_parse_statement(tokens, pos).2.len() == 0 ==> !crate::syntax_tree::stmt_has_error(
            spec_parse_statement(tokens, pos).0,
        ),
    decreases spec_avail(tokens, pos), 7int,
{
    if token_at(tokens, pos).kind == TokenType::LET {
        let pos3 = advance(tokens, advance(tokens, advance(tokens, pos)));
        lemma_parse_expression_clean(tokens, pos3);
    } else {
        lemma_parse_expression_clean(tokens, pos);
    }
}

/// A parse that reports nothing produces a program free of error
/// placeholders.
pub proof fn lemma_parse_program_clean(tokens: Seq<TokenModel>, pos: int)
    requires
        tokens_wf(tokens),
        0 <= pos,
    ensures
        spec_parse_program(tokens, pos).1.len() == 0 ==> forall|i: int|
            0 <= i < spec_parse_program(tokens, pos).0.len()
                ==> !crate::syntax_tree::stmt_has_error(#[trigger] spec_parse_program(
                tokens,
                pos,
            ).0[i]),
    decreases spec_avail(tokens, pos), 8int,
{
    if token_at(tokens, pos).kind != TokenType::EOF {
        let (stmt, pos1, diags1) = spec_parse_statement(tokens, pos);
        lemma_parse_statement_clean(tokens, pos);
        let pos1c = at_least(pos1, advance(tokens, pos));
        lemma_parse_program_clean(tokens, pos1c);
        let (stmts, diags2) = spec_parse_program(tokens, pos1c);
        if spec_parse_program(tokens, pos).1.len() == 0 {
            assert(diags1.len() == 0 && diags2.len() == 0);
            assert forall|i: int| 0 <= i < spec_parse_program(tokens, pos).0.len()
                implies !crate::syntax_tree::stmt_has_error(
                spec_parse_program(tokens, pos).0[i],
            ) by {
                if i > 0 {
                    assert(spec_parse_program(tokens, pos).0[i] == stmts[i - 1]);
                }
            }
        }
    }
}

/// The token sequence with the whitespace tokens removed.
pub open spec fn filter_whitespace(tokens: Seq<TokenModel>) -> Seq<TokenModel>
    decreases tokens.len(),
{
    if tokens.len() == 0 {
        Seq::empty()
    } else {
        let rest = filter_whitespace(tokens.drop_last());
        if tokens.last().kind == TokenType::WHITESPACE {
            rest
        } else {
            rest.push(tokens.last())
        }
    }
}

pub proof fn lemma_filter_whitespace_no_ws(tokens: Seq<TokenModel>)
    ensures
        forall|i: int|
            0 <= i < filter_whitespace(tokens).len() ==> filter_whitespace(tokens)[i].kind
                != TokenType::WHITESPACE,
    decreases tokens.len(),
{
    if tokens.len() > 0 {
        lemma_filter_whitespace_no_ws(tokens.drop_last());
    }
}

/// A forward-only counter: the parser's read cursor.
pub struct CompileTimeCounter {
    value: usize,
}

impl CompileTimeCounter {
    /// The counter's current value.
    pub closed spec fn spec_value(&self) -> int {
        self.value as int
    }

    pub fn new() -> (r: Self)
        ensures
            r.spec_value() == 0,
    {
        Self { value: 0 }
    }

    pub fn add(&mut self, x: usize)
        requires
            old(self).spec_value() + x <= usize::MAX,
        ensures
            final(self).spec_value() == old(self).spec_value() + x,
    {
        self.value = self.value + x;
    }

    pub fn get_value(&self) -> (r: usize)
        ensures
            r == self.spec_value(),
    {
        self.value
    }
}

/// The parser: the filtered token sequence, a forward-only read cursor, and
/// the diagnostics sink it reports into.
pub struct Parser {
    tokens: Vec<Token>,
    current: CompileTimeCounter,
    pub diagnostics_vec: DiagnosticsVector,
}

impl Parser {
    /// The models of the parser's tokens.
    pub closed spec fn toks(&self) -> Seq<TokenModel> {
        self.tokens@.map_values(|t: Token| t@)
    }

    /// The read cursor.
    pub closed spec fn pos(&self) -> int {
        self.current.spec_value()
    }

    /// The models of the diagnostics reported so far.
    pub closed spec fn diags(&self) -> Seq<DiagModel> {
        self.diagnostics_vec@
    }

    pub open spec fn wf(&self) -> bool {
        &&& tokens_wf(self.toks())
        &&& 0 <= self.pos() <= self.toks().len()
    }

    /// Builds a parser over `tokens` with the whitespace filtered out.  The
    /// sequence must end with the end-of-file token, as the lexer produces
    /// it.
    pub fn new(tokens: Vec<Token>, diagnostics_vec: DiagnosticsVector) -> (r: Self)
        requires
            tokens@.len() > 0,
            tokens@.map_values(|t: Token| t@).last().kind == TokenType::EOF,
        ensures
            r.wf(),
            r.toks() == filter_whitespace(tokens@.map_values(|t: Token| t@)),
            r.pos() == 0,
            r.diags() == diagnostics_vec@,
    {
        let ghost orig = tokens@.map_values(|t: Token| t@);
        let mut rest = tokens;
        let mut filtered: Vec<Token> = Vec::new();
        proof {
            assert(filtered@.map_values(|t: Token| t@) =~= Seq::<TokenModel>::empty());
        }
        loop
            invariant
                rest@.map_values(|t: Token| t@) == orig.subrange(0, rest@.len() as int),
                rest@.len() <= orig.len(),
                filter_whitespace(orig) == filter_whitespace(
                    rest@.map_values(|t: Token| t@),
                ) + filtered@.map_values(|t: Token| t@),
            ensures
                filtered@.map_values(|t: Token| t@) == filter_whitespace(orig),
            decreases rest@.len(),
        {
            let ghost rest_views = rest@.map_values(|t: Token| t@);
            match rest.pop() {
                Some(token) => {
                    proof {
                        assert(rest@.map_values(|t: Token| t@) =~= rest_views.drop_last());
                        assert(rest@.map_values(|t: Token| t@) =~= orig.subrange(
                            0,
                            rest@.len() as int,
                        ));
                        assert(token@ == rest_views.last());
                    }
                    if !(token.kind == TokenType::WHITESPACE) {
                        let ghost filtered_views = filtered@.map_values(|t: Token| t@);
                        filtered.insert(0, token);
                        proof {
                            assert(filtered@.map_values(|t: Token| t@) =~= seq![rest_views.last()]
                                + filtered_views);
                            assert(filter_whitespace(orig) =~= filter_whitespace(
                                rest_views.drop_last(),
                            ) + filtered@.map_values(|t: Token| t@));
                        }
                    } else {
                        proof {
                            assert(filter_whitespace(rest_views) == filter_whitespace(
                                rest_views.drop_last(),
                            ));
                        }
                    }
                },
                None => {
                    proof {
                        assert(rest_views =~= Seq::<TokenModel>::empty());
                        assert(filter_whitespace(rest_views) =~= Seq::<TokenModel>::empty());
                        assert(filter_whitespace(orig) =~= filtered@.map_values(|t: Token| t@));
                    }
                    break;
                },
            }
        }
        proof {
            assert(orig.drop_last() =~= orig.subrange(0, orig.len() - 1));
            assert(filter_whitespace(orig).last().kind == TokenType::EOF);
            assert(filter_whitespace(orig).len() > 0);
            lemma_filter_whitespace_no_ws(orig);
        }
        Self {
            tokens: filtered,
            current: CompileTimeCounter::new(),
            diagnostics_vec: diagnostics_vec,
        }
    }

    /// The token `offset` positions ahead of the cursor, clamped to the last
    /// token so that reading past the end never fails.
    fn peek(&self, offset: usize) -> (r: &Token)
        requires
            self.wf(),
            self.pos() + offset <= usize::MAX,
        ensures
            r@ == token_at(self.toks(), self.pos() + offset),
    {
        let mut index = self.current.get_value() + offset;
        if index >= self.tokens.len() {
            index = self.tokens.len() - 1;
        }
        &self.tokens[index]
    }

    /// The token under the cursor.
    fn current_token(&self) -> (r: &Token)
        requires
            self.wf(),
        ensures
            r@ == token_at(self.toks(), self.pos()),
    {
        self.peek(0)
    }

    /// Whether the cursor has reached the end-of-file token.
    fn is_at_end(&self) -> (r: bool)
        requires
            self.wf(),
        ensures
            r == (token_at(self.toks(), self.pos()).kind == TokenType::EOF),
    {
        self.current_token().kind == TokenType::EOF
    }

    /// Returns the token under the cursor and advances past it; the cursor
    /// saturates at the end of the sequence.
    fn consume(&mut self) -> (r: Token)
        requires
            old(self).wf(),
        ensures
            final(self).wf(),
            final(self).toks() == old(self).toks(),
            final(self).diags() == old(self).diags(),
            r@ == token_at(old(self).toks(), old(self).pos()),
            final(self).pos() == advance(old(self).toks(), old(self).pos()),
    {
        let len = self.tokens.len();
        let mut index = self.current.get_value();
        if index >= len {
            index = len - 1;
        }
        let token = self.tokens[index].duplicate();
        if self.current.get_value() < len {
            self.current.add(1);
        }
        token
    }

    /// Consumes one token, reporting an "unexpected token" diagnostic when
    /// its kind is not the required one; the token is returned either way.
    fn consume_with_check(&mut self, kind: TokenType) -> (r: Token)
        requires
            old(self).wf(),
        ensures
            final(self).wf(),
            final(self).toks() == old(self).toks(),
            r@ == token_at(old(self).toks(), old(self).pos()),
            final(self).pos() == advance(old(self).toks(), old(self).pos()),
            final(self).diags() == if token_at(old(self).toks(), old(self).pos()).kind == kind {
                old(self).diags()
            } else {
                old(self).diags().push(
                    unexpected_token_diag(kind, token_at(old(self).toks(), old(self).pos())),
                )
            },
    {
        let token = self.consume();
        if !(token.kind == kind) {
            self.diagnostics_vec.report_unexpected_token(&kind, &token);
        }
        token
    }

    /// The unary operator under the cursor, if any; the cursor is not moved.
    fn parse_unary_operator(&self) -> (r: Option<UnaryOperator>)
        requires
            self.wf(),
        ensures
            match spec_parse_unary_operator(self.toks(), self.pos()) {
                Some(kind) => r matches Some(op) && op.kind == kind && op.token@ == token_at(
                    self.toks(),
                    self.pos(),
                ),
                None => r is None,
            },
    {
        let token = self.current_token().duplicate();
        let kind = match token.kind {
            TokenType::MINUS => Some(UnaryOperatorType::MINUS),
            TokenType::NOT => Some(UnaryOperatorType::NOT),
            _ => None,
        };
        match kind {
            Some(kind) => Some(UnaryOperator::new(kind, token)),
            None => None,
        }
    }

    /// The binary operator under the cursor, if any; the cursor is not
    /// moved.
    fn parse_binary_operator(&self) -> (r: Option<BinaryOperator>)
        requires
            self.wf(),
        ensures
            match spec_parse_binary_operator(self.toks(), self.pos()) {
                Some(kind) => r matches Some(op) && op.kind == kind && op.token@ == token_at(
                    self.toks(),
                    self.pos(),
                ),
                None => r is None,
            },
    {
        let token = self.current_token().duplicate();
        let kind = match token.kind {
            TokenType::PLUS => Some(BinaryOperatorType::PLUS),
            TokenType::MINUS => Some(BinaryOperatorType::MINUS),
            TokenType::ASTERISK => Some(BinaryOperatorType::MULTIPLY),
            TokenType::SLASH => Some(BinaryOperatorType::DIVIDE),
            TokenType::AMPERSAND => Some(BinaryOperatorType::AND),
            TokenType::PIPE => Some(BinaryOperatorType::OR),
            TokenType::RETURN => Some(BinaryOperatorType::XOR),
            TokenType::POWER => Some(BinaryOperatorType::POWER),
            _ => None,
        };
        match kind {
            Some(kind) => Some(BinaryOperator::new(kind, token)),
            None => None,
        }
    }

    /// Parses one primary expression, as `spec_parse_primary` describes.
    fn parse_primary_expression(&mut self) -> (r: Expression)
        requires
            old(self).wf(),
        ensures
            final(self).wf(),
            final(self).toks() == old(self).toks(),
            ({
                let (expr, new_pos, diags) = spec_parse_primary(old(self).toks(), old(self).pos());
                &&& r@ == expr
                &&& final(self).pos() == new_pos
                &&& final(self).diags() == old(self).diags() + diags
            }),
            final(self).pos() >= old(self).pos(),
            old(self).pos() < old(self).toks().len() ==> final(self).pos() > old(self).pos(),
        decreases spec_avail(old(self).toks(), old(self).pos()), 1int,
    {
        let ghost toks = self.toks();
        let ghost pos0 = self.pos();
        let ghost diags0 = self.diags();
        let token = self.consume();
        match token.kind {
            TokenType::NUMERAL(number) => {
                let r = Expression::number(number);
                proof {
                    assert(self.diags() =~= diags0 + spec_parse_primary(toks, pos0).2);
                }
                r
            },
            TokenType::LEFTPAR => {
                proof {
                    assert(pos0 < toks.len());
                }
                let expr = self.parse_expression();
                self.consume_with_check(TokenType::RIGHTPAR);
                let r = Expression::parenthesized(expr);
                proof {
                    assert(self.diags() =~= diags0 + spec_parse_primary(toks, pos0).2);
                }
                r
            },
            TokenType::IDENTIFIER => {
                let r = Expression::identifier(token);
                proof {
                    assert(self.diags() =~= diags0 + spec_parse_primary(toks, pos0).2);
                }
                r
            },
            _ => {
                self.diagnostics_vec.report_expected_expression(&token);
                let r = Expression::error(token.span.duplicate());
                proof {
                    assert(self.diags() =~= diags0 + spec_parse_primary(toks, pos0).2);
                }
                r
            },
        }
    }

    /// Parses one unary expression, as `spec_parse_unary` describes.
    fn parse_unary_expression(&mut self) -> (r: Expression)
        requires
            old(self).wf(),
        ensures
            final(self).wf(),
            final(self).toks() == old(self).toks(),
            ({
                let (expr, new_pos, diags) = spec_parse_unary(old(self).toks(), old(self).pos());
                &&& r@ == expr
                &&& final(self).pos() == new_pos
                &&& final(self).diags() == old(self).diags() + diags
            }),
            final(self).pos() >= old(self).pos(),
            old(self).pos() < old(self).toks().len() ==> final(self).pos() > old(self).pos(),
        decreases spec_avail(old(self).toks(), old(self).pos()), 2int,
    {
        let ghost toks = self.toks();
        let ghost pos0 = self.pos();
        match self.parse_unary_operator() {
            Some(operator) => {
                proof {
                    assert(pos0 < toks.len());
                }
                self.consume();
                let operand = self.parse_unary_expression();
                Expression::unary(operator, operand)
            },
            None => self.parse_primary_expression(),
        }
    }

    /// Folds binary operators of sufficient precedence into `left`, as
    /// `spec_parse_binary_rest` describes.
    fn parse_binary_expression_rest(&mut self, min_precedence: u8, left: Expression) -> (r:
        Expression)
        requires
            old(self).wf(),
        ensures
            final(self).wf(),
            final(self).toks() == old(self).toks(),
            ({
                let (expr, new_pos, diags) = spec_parse_binary_rest(
                    old(self).toks(),
                    old(self).pos(),
                    min_precedence,
                    left@,
                );
                &&& r@ == expr
                &&& final(self).pos() == new_pos
                &&& final(self).diags() == old(self).diags() + diags
            }),
            final(self).pos() >= old(self).pos(),
        decreases spec_avail(old(self).toks(), old(self).pos()), 3int,
    {
        let ghost toks = self.toks();
        let ghost pos0 = self.pos();
        let ghost diags0 = self.diags();
        match self.parse_binary_operator() {
            Some(operator) => {
                let operator_precedence = operator.precedence();
                if operator_precedence < min_precedence {
                    proof {
                        assert(self.diags() =~= diags0 + Seq::<DiagModel>::empty());
                    }
                    left
                } else {
                    proof {
                        assert(pos0 < toks.len());
                    }
                    self.consume();
                    let right_precedence = if operator.kind == BinaryOperatorType::POWER {
                        operator_precedence
                    } else {
                        operator_precedence + 1
                    };
                    let right = self.parse_binary_expression(right_precedence);
                    let combined = Expression::binary(operator, left, right);
                    let r = self.parse_binary_expression_rest(min_precedence, combined);
                    proof {
                        assert(self.diags() =~= diags0 + spec_parse_binary_rest(
                            toks,
                            pos0,
                            min_precedence,
                            left@,
                        ).2);
                    }
                    r
                }
            },
            None => {
                proof {
                    assert(self.diags() =~= diags0 + Seq::<DiagModel>::empty());
                }
                left
            },
        }
    }

    /// Parses one binary expression at the given minimum precedence, as
    /// `spec_parse_binary` describes.
    fn parse_binary_expression(&mut self, precedence: u8) -> (r: Expression)
        requires
            old(self).wf(),
        ensures
            final(self).wf(),
            final(self).toks() == old(self).toks(),
            ({
                let (expr, new_pos, diags) = spec_parse_binary(
                    old(self).toks(),
                    old(self).pos(),
                    precedence,
                );
                &&& r@ == expr
                &&& final(self).pos() == new_pos
                &&& final(self).diags() == old(self).diags() + diags
            }),
            final(self).pos() >= old(self).pos(),
            old(self).pos() < old(self).toks().len() ==> final(self).pos() > old(self).pos(),
        decreases spec_avail(old(self).toks(), old(self).pos()), 4int,
    {
        let ghost toks = self.toks();
        let ghost pos0 = self.pos();
        let ghost diags0 = self.diags();
        let left = self.parse_unary_expression();
        let r = self.parse_binary_expression_rest(precedence, left);
        proof {
            assert(self.diags() =~= diags0 + spec_parse_binary(toks, pos0, precedence).2);
        }
        r
    }

    /// Parses one expression, as `spec_parse_expression` describes.
    fn parse_expression(&mut self) -> (r: Expression)
        requires
            old(self).wf(),
        ensures
            final(self).wf(),
            final(self).toks() == old(self).toks(),
            ({
                let (expr, new_pos, diags) = spec_parse_expression(
                    old(self).toks(),
                    old(self).pos(),
                );
                &&& r@ == expr
                &&& final(self).pos() == new_pos
                &&& final(self).diags() == old(self).diags() + diags
            }),
            final(self).pos() >= old(self).pos(),
            old(self).pos() < old(self).toks().len() ==> final(self).pos() > old(self).pos(),
        decreases spec_avail(old(self).toks(), old(self).pos()), 5int,
    {
        self.parse_binary_expression(0)
    }

    /// Parses one let statement, as `spec_parse_let` describes.
    fn parse_let_statement(&mut self) -> (r: ASTStatement)
        requires
            old(self).wf(),
        ensures
            final(self).wf(),
            final(self).toks() == old(self).toks(),
            ({
                let (stmt, new_pos, diags) = spec_parse_let(old(self).toks(), old(self).pos());
                &&& r@ == stmt
                &&& final(self).pos() == new_pos
                &&& final(self).diags() == old(self).diags() + diags
            }),
            final(self).pos() >= old(self).pos(),
            old(self).pos() < old(self).toks().len() ==> final(self).pos() > old(self).pos(),
        decreases spec_avail(old(self).toks(), old(self).pos()), 6int,
    {
        let ghost toks = self.toks();
        let ghost pos0 = self.pos();
        let ghost diags0 = self.diags();
        self.consume_with_check(TokenType::LET);
        let identifier = self.consume_with_check(TokenType::IDENTIFIER);
        self.consume_with_check(TokenType::EQUALS);
        let expr = self.parse_expression();
        let r = ASTStatement::let_statement(identifier, expr);
        proof {
            assert(self.diags() =~= diags0 + spec_parse_let(toks, pos0).2);
        }
        r
    }

    /// Parses one bare expression statement.
    fn parse_expression_statement(&mut self) -> (r: ASTStatement)
        requires
            old(self).wf(),
        ensures
            final(self).wf(),
            final(self).toks() == old(self).toks(),
            ({
                let (expr, new_pos, diags) = spec_parse_expression(
                    old(self).toks(),
                    old(self).pos(),
                );
                &&& r@ == (StmtModel::Expression { expr: expr })
                &&& final(self).pos() == new_pos
                &&& final(self).diags() == old(self).diags() + diags
            }),
            final(self).pos() >= old(self).pos(),
            old(self).pos() < old(self).toks().len() ==> final(self).pos() > old(self).pos(),
        decreases spec_avail(old(self).toks(), old(self).pos()), 6int,
    {
        let expr = self.parse_expression();
        ASTStatement::expression(expr)
    }

    /// Parses one statement, as `spec_parse_statement` describes.
    fn parse_statement(&mut self) -> (r: ASTStatement)
        requires
            old(self).wf(),
        ensures
            final(self).wf(),
            final(self).toks() == old(self).toks(),
            ({
                let (stmt, new_pos, diags) = spec_parse_statement(
                    old(self).toks(),
                    old(self).pos(),
                );
                &&& r@ == stmt
                &&& final(self).pos() == new_pos
                &&& final(self).diags() == old(self).diags() + diags
            }),
            final(self).pos() >= old(self).pos(),
            token_at(old(self).toks(), old(self).pos()).kind != TokenType::EOF
                ==> final(self).pos() > old(self).pos(),
        decreases spec_avail(old(self).toks(), old(self).pos()), 7int,
    {
        let ghost toks = self.toks();
        let ghost pos0 = self.pos();
        let is_let = self.current_token().kind == TokenType::LET;
        if is_let {
            proof {
                assert(pos0 < toks.len());
            }
            self.parse_let_statement()
        } else {
            proof {
                assert(token_at(toks, pos0).kind != TokenType::EOF ==> pos0 < toks.len());
            }
            self.parse_expression_statement()
        }
    }

    /// Parses the next statement of the program, or `None` once the cursor
    /// has reached the end-of-file token.
    pub fn next_statement(&mut self) -> (r: Option<ASTStatement>)
        requires
            old(self).wf(),
        ensures
            final(self).wf(),
            final(self).toks() == old(self).toks(),
            token_at(old(self).toks(), old(self).pos()).kind == TokenType::EOF ==> r is None
                && *final(self) == *old(self),
            token_at(old(self).toks(), old(self).pos()).kind != TokenType::EOF ==> ({
                let (stmt, new_pos, diags) = spec_parse_statement(
                    old(self).toks(),
                    old(self).pos(),
                );
                &&& r matches Some(s) && s@ == stmt
                &&& final(self).pos() == new_pos
                &&& final(self).diags() == old(self).diags() + diags
                &&& final(self).pos() > old(self).pos()
            }),
    {
        if self.is_at_end() {
            return None;
        }
        Some(self.parse_statement())
    }

    /// Hands the diagnostics sink back once parsing is finished.
    pub fn into_diagnostics(self) -> (r: DiagnosticsVector)
        ensures
            r@ == self.diags(),
    {
        self.diagnostics_vec
    }
}

} // verus!
