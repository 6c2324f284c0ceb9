//! The abstract syntax tree, its traversal protocol, and the pretty-printer.
//!
//! Statements and expressions are modelled by the ghost types `StmtModel`
//! and `ExprModel`; every consumer of the tree (printer, symbol checker,
//! evaluator) is specified as a pure transition function over its own model
//! state, and the `ASTTraverser` trait ties each executable visit method to
//! that transition.

pub mod evaluator;
pub mod lexer;
pub mod parser;

use vstd::prelude::*;
use vstd::string::StringExecFns;

use crate::syntax_tree::lexer::{SourceCodeSpan, SpanModel, Token, TokenModel};

verus! {

/// Mathematical model of an expression.
pub ghost enum ExprModel {
    Number { value: i64 },
    Binary { op: BinaryOperatorType, token: TokenModel, left: Box<ExprModel>, right: Box<ExprModel> },
    Unary { op: UnaryOperatorType, token: TokenModel, operand: Box<ExprModel> },
    Parenthesized { inner: Box<ExprModel> },
    Variable { token: TokenModel },
    Error { span: SpanModel },
}

/// Mathematical model of a statement.
pub ghost enum StmtModel {
    Expression { expr: ExprModel },
    Let { identifier: TokenModel, initializer: ExprModel },
}

/// The two unary operators: arithmetic negation and bitwise complement.
#[derive(Clone, Copy, Debug, PartialEq, Eq, Structural)]
pub enum UnaryOperatorType {
    MINUS,
    NOT,
}

/// A unary operator together with the token it was parsed from.
pub struct UnaryOperator {
    pub kind: UnaryOperatorType,
    pub token: Token,
}

impl UnaryOperator {
    pub fn new(kind: UnaryOperatorType, token: Token) -> (r: Self)
        ensures
            r.kind == kind,
            r.token == token,
    {
        UnaryOperator { kind, token }
    }
}

/// The binary operators of the language.
#[derive(Clone, Copy, Debug, PartialEq, Eq, Structural)]
pub enum BinaryOperatorType {
    PLUS,
    MINUS,
    MULTIPLY,
    DIVIDE,
    POWER,
    AND,
    OR,
    XOR,
}

/// The fixed precedence of each binary operator; a higher value binds
/// tighter.
pub open spec fn precedence_of(kind: BinaryOperatorType) -> u8 {
    match kind {
        BinaryOperatorType::POWER => 13,
        BinaryOperatorType::MULTIPLY => 12,
        BinaryOperatorType::DIVIDE => 12,
        BinaryOperatorType::PLUS => 11,
        BinaryOperatorType::MINUS => 11,
        BinaryOperatorType::AND => 7,
        BinaryOperatorType::XOR => 6,
        BinaryOperatorType::OR => 5,
    }
}

/// A binary operator together with the token it was parsed from.
pub struct BinaryOperator {
    pub kind: BinaryOperatorType,
    pub token: Token,
}

impl BinaryOperator {
    pub fn new(kind: BinaryOperatorType, token: Token) -> (r: Self)
        ensures
            r.kind == kind,
            r.token == token,
    {
        BinaryOperator { kind, token }
    }

    pub fn precedence(&self) -> (r: u8)
        ensures
            r == precedence_of(self.kind),
    {
        match self.kind {
            BinaryOperatorType::POWER => 13,
            BinaryOperatorType::MULTIPLY => 12,
            BinaryOperatorType::DIVIDE => 12,
            BinaryOperatorType::PLUS => 11,
            BinaryOperatorType::MINUS => 11,
            BinaryOperatorType::AND => 7,
            BinaryOperatorType::XOR => 6,
            BinaryOperatorType::OR => 5,
        }
    }
}

/// A binary node: left operand, operator, right operand.
pub struct BinaryExpression {
    pub left: Box<Expression>,
    pub operator: BinaryOperator,
    pub right: Box<Expression>,
}

/// A decoded integer literal.
pub struct NumberExpression {
    pub number: i64,
}

/// A parenthesized expression, kept as a distinct node so printing can
/// round-trip the parentheses.
pub struct ParenthesizedExpression {
    pub expression: Box<Expression>,
}

/// A unary node: operator and operand.
pub struct UnaryExpression {
    pub operator: UnaryOperator,
    pub operand: Box<Expression>,
}

/// A variable reference, holding the identifier token.
pub struct VariableExpression {
    pub identifier: Token,
}

impl VariableExpression {
    /// The referenced identifier's text.
    pub fn identifier(&self) -> (r: &str)
        ensures
            r@ == self.identifier@.span.literal,
    {
        self.identifier.span.literal.as_str()
    }
}

/// The variants of an expression.  `ERROR` is a first-class recoverable
/// placeholder carrying the span where no expression could be parsed.
pub enum ExpressionType {
    NUMBER(NumberExpression),
    BINARY(BinaryExpression),
    UNARY(UnaryExpression),
    PARENTHESIZED(ParenthesizedExpression),
    VARIABLE(VariableExpression),
    ERROR(SourceCodeSpan),
}

/// An expression node of the syntax tree.
pub struct Expression {
    pub kind: ExpressionType,
}

/// The model of an expression node.
pub open spec fn expr_model(e: Expression) -> ExprModel
    decreases e,
{
    match e.kind {
        ExpressionType::NUMBER(n) => ExprModel::Number { value: n.number },
        ExpressionType::BINARY(b) => ExprModel::Binary {
            op: b.operator.kind,
            token: b.operator.token@,
            left: Box::new(expr_model(*b.left)),
            right: Box::new(expr_model(*b.right)),
        },
        ExpressionType::UNARY(u) => ExprModel::Unary {
            op: u.operator.kind,
            token: u.operator.token@,
            operand: Box::new(expr_model(*u.operand)),
        },
        ExpressionType::PARENTHESIZED(p) => ExprModel::Parenthesized {
            inner: Box::new(expr_model(*p.expression)),
        },
        ExpressionType::VARIABLE(v) => ExprModel::Variable { token: v.identifier@ },
        ExpressionType::ERROR(span) => ExprModel::Error { span: span@ },
    }
}

impl View for Expression {
    type V = ExprModel;

    open spec fn view(&self) -> ExprModel {
        expr_model(*self)
    }
}

impl Expression {
    pub fn new(kind: ExpressionType) -> (r: Self)
        ensures
            r.kind == kind,
    {
        Self { kind }
    }

    pub fn number(number: i64) -> (r: Self)
        ensures
            r@ == (ExprModel::Number { value: number }),
    {
        Expression::new(ExpressionType::NUMBER(NumberExpression { number }))
    }

    pub fn binary(operator: BinaryOperator, left: Expression, right: Expression) -> (r: Self)
        ensures
            r@ == (ExprModel::Binary {
                op: operator.kind,
                token: operator.token@,
                left: Box::new(left@),
                right: Box::new(right@),
            }),
    {
        Expression::new(
            ExpressionType::BINARY(
                BinaryExpression { left: Box::new(left), operator, right: Box::new(right) },
            ),
        )
    }

    pub fn parenthesized(expression: Expression) -> (r: Self)
        ensures
            r@ == (ExprModel::Parenthesized { inner: Box::new(expression@) }),
    {
        Expression::new(
            ExpressionType::PARENTHESIZED(
                ParenthesizedExpression { expression: Box::new(expression) },
            ),
        )
    }

    pub fn identifier(identifier: Token) -> (r: Self)
        ensures
            r@ == (ExprModel::Variable { token: identifier@ }),
    {
        Expression::new(ExpressionType::VARIABLE(VariableExpression { identifier }))
    }

    pub fn unary(operator: UnaryOperator, operand: Expression) -> (r: Self)
        ensures
            r@ == (ExprModel::Unary {
                op: operator.kind,
                token: operator.token@,
                operand: Box::new(operand@),
            }),
    {
        Expression::new(
            ExpressionType::UNARY(UnaryExpression { operator, operand: Box::new(operand) }),
        )
    }

    pub fn error(span: SourceCodeSpan) -> (r: Self)
        ensures
            r@ == (ExprModel::Error { span: span@ }),
    {
        Expression::new(ExpressionType::ERROR(span))
    }
}

/// A let statement: the bound identifier's token and its initializer.
pub struct ASTLetStatement {
    pub identifier: Token,
    pub initializer: Expression,
}

/// The variants of a statement.
pub enum ASTStatementType {
    EXPRESSION(Expression),
    LETSTATEMENT(ASTLetStatement),
}

/// A statement node of the syntax tree.
pub struct ASTStatement {
    pub kind: ASTStatementType,
}

/// The model of a statement node.
pub open spec fn stmt_model(s: ASTStatement) -> StmtModel {
    match s.kind {
        ASTStatementType::EXPRESSION(e) => StmtModel::Expression { expr: e@ },
        ASTStatementType::LETSTATEMENT(l) => StmtModel::Let {
            identifier: l.identifier@,
            initializer: l.initializer@,
        },
    }
}

impl View for ASTStatement {
    type V = StmtModel;

    open spec fn view(&self) -> StmtModel {
        stmt_model(*self)
    }
}

impl ASTStatement {
    pub fn new(kind: ASTStatementType) -> (r: Self)
        ensures
            r.kind == kind,
    {
        ASTStatement { kind }
    }

    pub fn expression(expr: Expression) -> (r: Self)
        ensures
            r@ == (StmtModel::Expression { expr: expr@ }),
    {
        ASTStatement::new(ASTStatementType::EXPRESSION(expr))
    }

    pub fn let_statement(identifier: Token, initializer: Expression) -> (r: Self)
        ensures
            r@ == (StmtModel::Let { identifier: identifier@, initializer: initializer@ }),
    {
        ASTStatement::new(
            ASTStatementType::LETSTATEMENT(ASTLetStatement { identifier, initializer }),
        )
    }
}

/// The syntax tree of a whole program: its statements in source order.
pub struct AbstractSyntaxTree {
    pub statements: Vec<ASTStatement>,
}

impl View for AbstractSyntaxTree {
    type V = Seq<StmtModel>;

    open spec fn view(&self) -> Seq<StmtModel> {
        self.statements@.map_values(|s: ASTStatement| s@)
    }
}

impl AbstractSyntaxTree {
    pub fn new() -> (r: Self)
        ensures
            r@ == Seq::<StmtModel>::empty(),
    {
        Self { statements: Vec::new() }
    }

    pub fn add_statement(&mut self, statement: ASTStatement)
        ensures
            final(self)@ == old(self)@.push(statement@),
    {
        self.statements.push(statement);
        proof {
            assert(final(self)@ =~= old(self)@.push(statement@));
        }
    }

    /// Walks every statement in order, handing each to the visitor.  The
    /// visitor's final state is the fold of its per-statement transition
    /// over the whole program.
    pub fn visit<V: ASTTraverser>(&self, visitor: &mut V)
        ensures
            final(visitor)@ == visit_transition::<V>(old(visitor)@, self@),
    {
        let ghost pre = visitor@;
        let n = self.statements.len();
        let mut i: usize = 0;
        while i < n
            invariant
                i <= n,
                n == self.statements.len(),
                visitor@ == visit_transition::<V>(pre, self@.subrange(0, i as int)),
            decreases n - i,
        {
            proof {
                lemma_visit_transition_push::<V>(pre, self@.subrange(0, i as int), self@[i as int]);
                assert(self@.subrange(0, i as int).push(self@[i as int]) =~= self@.subrange(
                    0,
                    i as int + 1,
                ));
            }
            visitor.goto_statement(&self.statements[i]);
            i += 1;
        }
        proof {
            assert(self@.subrange(0, n as int) =~= self@);
        }
    }
}

/// The traversal protocol: a double-dispatch contract with one method per
/// node kind.  Each implementer describes itself by a ghost model (its
/// `View`) and by pure transition functions over that model; every visit
/// method must realize exactly its transition.
pub trait ASTTraverser: Sized + View {
    /// The visitor's state after a let statement.
    spec fn after_let_statement(
        pre: <Self as View>::V,
        identifier: TokenModel,
        initializer: ExprModel,
    ) -> <Self as View>::V;

    /// The visitor's state after a variable reference.
    spec fn after_variable_expression(
        pre: <Self as View>::V,
        identifier: TokenModel,
    ) -> <Self as View>::V;

    /// The visitor's state after a number.
    spec fn after_number_expression(pre: <Self as View>::V, value: i64) -> <Self as View>::V;

    /// The visitor's state after an error placeholder.
    spec fn after_error(pre: <Self as View>::V, span: SpanModel) -> <Self as View>::V;

    /// The visitor's state after a unary expression.
    spec fn after_unary_expression(
        pre: <Self as View>::V,
        op: UnaryOperatorType,
        token: TokenModel,
        operand: ExprModel,
    ) -> <Self as View>::V;

    /// The visitor's state after a binary expression.
    spec fn after_binary_expression(
        pre: <Self as View>::V,
        op: BinaryOperatorType,
        token: TokenModel,
        left: ExprModel,
        right: ExprModel,
    ) -> <Self as View>::V;

    /// The visitor's state after a parenthesized expression.
    spec fn after_parenthesized_expression(
        pre: <Self as View>::V,
        inner: ExprModel,
    ) -> <Self as View>::V;

    /// The visitor's state after a whole statement.  For most consumers this
    /// is exactly `statement_transition`; a consumer that overrides
    /// `goto_statement` (the printer ends every statement with a line break)
    /// says so here.
    spec fn after_statement(pre: <Self as View>::V, s: StmtModel) -> <Self as View>::V;

    /// The visitor's state after one expression: dispatch on the variant.
    open spec fn expression_transition(pre: <Self as View>::V, e: ExprModel) -> <Self as View>::V {
        match e {
            ExprModel::Number { value } => Self::after_number_expression(pre, value),
            ExprModel::Binary { op, token, left, right } => Self::after_binary_expression(
                pre,
                op,
                token,
                *left,
                *right,
            ),
            ExprModel::Unary { op, token, operand } => Self::after_unary_expression(
                pre,
                op,
                token,
                *operand,
            ),
            ExprModel::Parenthesized { inner } => Self::after_parenthesized_expression(pre, *inner),
            ExprModel::Variable { token } => Self::after_variable_expression(pre, token),
            ExprModel::Error { span } => Self::after_error(pre, span),
        }
    }

    /// The visitor's state after one statement: dispatch on the variant.
    open spec fn statement_transition(pre: <Self as View>::V, s: StmtModel) -> <Self as View>::V {
        match s {
            StmtModel::Expression { expr } => Self::expression_transition(pre, expr),
            StmtModel::Let { identifier, initializer } => Self::after_let_statement(
                pre,
                identifier,
                initializer,
            ),
        }
    }

    fn do_visit_statement(&mut self, statement: &ASTStatement)
        ensures
            final(self)@ == Self::statement_transition(old(self)@, statement@),
    ;

    fn goto_statement(&mut self, statement: &ASTStatement)
        ensures
            final(self)@ == Self::after_statement(old(self)@, statement@),
    ;

    fn expression_dispatch(&mut self, expression: &Expression)
        ensures
            final(self)@ == Self::expression_transition(old(self)@, expression@),
    ;

    fn goto_expression(&mut self, expression: &Expression)
        ensures
            final(self)@ == Self::expression_transition(old(self)@, expression@),
    ;

    fn goto_let_statement(&mut self, let_statement: &ASTLetStatement)
        ensures
            final(self)@ == Self::after_let_statement(
                old(self)@,
                let_statement.identifier@,
                let_statement.initializer@,
            ),
    ;

    fn goto_variable_expression(&mut self, variable_expression: &VariableExpression)
        ensures
            final(self)@ == Self::after_variable_expression(
                old(self)@,
                variable_expression.identifier@,
            ),
    ;

    fn goto_number_expression(&mut self, number: &NumberExpression)
        ensures
            final(self)@ == Self::after_number_expression(old(self)@, number.number),
    ;

    fn goto_error(&mut self, span: &SourceCodeSpan)
        ensures
            final(self)@ == Self::after_error(old(self)@, span@),
    ;

    fn goto_unary_expression(&mut self, unary_expression: &UnaryExpression)
        ensures
            final(self)@ == Self::after_unary_expression(
                old(self)@,
                unary_expression.operator.kind,
                unary_expression.operator.token@,
                unary_expression.operand@,
            ),
    ;

    fn goto_binary_expression(&mut self, binary_expression: &BinaryExpression)
        ensures
            final(self)@ == Self::after_binary_expression(
                old(self)@,
                binary_expression.operator.kind,
                binary_expression.operator.token@,
                binary_expression.left@,
                binary_expression.right@,
            ),
    ;

    fn goto_parenthesized_expression(&mut self, parenthesized_expression: &ParenthesizedExpression)
        ensures
            final(self)@ == Self::after_parenthesized_expression(
                old(self)@,
                parenthesized_expression.expression@,
            ),
    ;
}

/// The visitor's state after a whole program, statement by statement.
pub open spec fn visit_transition<V: ASTTraverser>(
    pre: <V as View>::V,
    stmts: Seq<StmtModel>,
) -> <V as View>::V
    decreases stmts.len(),
{
    if stmts.len() == 0 {
        pre
    } else {
        visit_transition::<V>(V::after_statement(pre, stmts[0]), stmts.drop_first())
    }
}

/// Whether an expression contains an error placeholder.
pub open spec fn expr_has_error(e: ExprModel) -> bool
    decreases e,
{
    match e {
        ExprModel::Number { value } => false,
        ExprModel::Binary { op, token, left, right } => expr_has_error(*left) || expr_has_error(
            *right,
        ),
        ExprModel::Unary { op, token, operand } => expr_has_error(*operand),
        ExprModel::Parenthesized { inner } => expr_has_error(*inner),
        ExprModel::Variable { token } => false,
        ExprModel::Error { span } => true,
    }
}

/// Whether a statement contains an error placeholder.
pub open spec fn stmt_has_error(s: StmtModel) -> bool {
    match s {
        StmtModel::Expression { expr } => expr_has_error(expr),
        StmtModel::Let { identifier, initializer } => expr_has_error(initializer),
    }
}

/// The decimal digit characters.
pub open spec fn char_of_digit(d: int) -> char {
    if d == 0 {
        '0'
    } else if d == 1 {
        '1'
    } else if d == 2 {
        '2'
    } else if d == 3 {
        '3'
    } else if d == 4 {
        '4'
    } else if d == 5 {
        '5'
    } else if d == 6 {
        '6'
    } else if d == 7 {
        '7'
    } else if d == 8 {
        '8'
    } else {
        '9'
    }
}

/// The decimal digits of a non-negative integer, most significant first.
pub open spec fn dec_digits(n: int) -> Seq<char>
    decreases n,
{
    if n < 0 {
        Seq::empty()
    } else if n < 10 {
        seq![char_of_digit(n)]
    } else {
        dec_digits(n / 10).push(char_of_digit(n % 10))
    }
}

/// The decimal rendering of an integer, with a leading minus sign when it is
/// negative.
pub open spec fn dec_string_i64(n: int) -> Seq<char> {
    if n < 0 {
        seq!['-'] + dec_digits(-n)
    } else {
        dec_digits(n)
    }
}

/// Appends one decimal digit character.
fn append_digit(s: &mut String, d: u64)
    requires
        d < 10,
    ensures
        final(s)@ == old(s)@ + seq![char_of_digit(d as int)],
{
    if d == 0 {
        s.append("0");
        proof {
            reveal_strlit("0");
            assert(s@ =~= old(s)@ + seq![char_of_digit(d as int)]);
        }
    } else if d == 1 {
        s.append("1");
        proof {
            reveal_strlit("1");
            assert(s@ =~= old(s)@ + seq![char_of_digit(d as int)]);
        }
    } else if d == 2 {
        s.append("2");
        proof {
            reveal_strlit("2");
            assert(s@ =~= old(s)@ + seq![char_of_digit(d as int)]);
        }
    } else if d == 3 {
        s.append("3");
        proof {
            reveal_strlit("3");
            assert(s@ =~= old(s)@ + seq![char_of_digit(d as int)]);
        }
    } else if d == 4 {
        s.append("4");
        proof {
            reveal_strlit("4");
            assert(s@ =~= old(s)@ + seq![char_of_digit(d as int)]);
        }
    } else if d == 5 {
        s.append("5");
        proof {
            reveal_strlit("5");
            assert(s@ =~= old(s)@ + seq![char_of_digit(d as int)]);
        }
    } else if d == 6 {
        s.append("6");
        proof {
            reveal_strlit("6");
            assert(s@ =~= old(s)@ + seq![char_of_digit(d as int)]);
        }
    } else if d == 7 {
        s.append("7");
        proof {
            reveal_strlit("7");
            assert(s@ =~= old(s)@ + seq![char_of_digit(d as int)]);
        }
    } else if d == 8 {
        s.append("8");
        proof {
            reveal_strlit("8");
            assert(s@ =~= old(s)@ + seq![char_of_digit(d as int)]);
        }
    } else {
        s.append("9");
        proof {
            reveal_strlit("9");
            assert(s@ =~= old(s)@ + seq![char_of_digit(d as int)]);
        }
    }
}

/// Appends the decimal digits of `m`, most significant first.
fn push_u64_digits(s: &mut String, m: u64)
    ensures
        final(s)@ == old(s)@ + dec_digits(m as int),
    decreases m,
{
    if m < 10 {
        append_digit(s, m);
    } else {
        push_u64_digits(s, m / 10);
        append_digit(s, m % 10);
        proof {
            assert((m / 10) as int == m as int / 10);
            assert((m % 10) as int == m as int % 10);
            assert(s@ =~= old(s)@ + dec_digits(m as int));
        }
    }
}

/// The decimal rendering of `n` as an owned string.
pub fn i64_to_string(n: i64) -> (r: String)
    ensures
        r@ == dec_string_i64(n as int),
{
    let mut s = String::new();
    if n >= 0 {
        push_u64_digits(&mut s, n as u64);
        proof {
            assert(s@ =~= dec_string_i64(n as int));
        }
    } else {
        s.append("-");
        let m = (-(n as i128)) as u64;
        push_u64_digits(&mut s, m);
        proof {
            reveal_strlit("-");
            assert(s@ =~= dec_string_i64(n as int));
        }
    }
    s
}

/// The decimal rendering of an unsigned size as an owned string.
pub fn usize_to_string(n: usize) -> (r: String)
    ensures
        r@ == dec_digits(n as int),
{
    let mut s = String::new();
    push_u64_digits(&mut s, n as u64);
    proof {
        assert(s@ =~= dec_digits(n as int));
    }
    s
}

/// The text the pretty-printer produces for one expression.
pub open spec fn print_expr(e: ExprModel) -> Seq<char>
    decreases e,
{
    match e {
        ExprModel::Number { value } => dec_string_i64(value as int),
        ExprModel::Binary { op, token, left, right } => print_expr(*left) + " "@
            + token.span.literal + " "@ + print_expr(*right),
        ExprModel::Unary { op, token, operand } => token.span.literal + print_expr(*operand),
        ExprModel::Parenthesized { inner } => "("@ + print_expr(*inner) + ")"@,
        ExprModel::Variable { token } => token.span.literal,
        ExprModel::Error { span } => span.literal,
    }
}

/// The text the pretty-printer produces for one statement (without the
/// closing line break).
pub open spec fn print_stmt(s: StmtModel) -> Seq<char> {
    match s {
        StmtModel::Expression { expr } => print_expr(expr),
        StmtModel::Let { identifier, initializer } => "let"@ + " "@ + identifier.span.literal
            + " "@ + "="@ + " "@ + print_expr(initializer),
    }
}

/// The text the pretty-printer produces for a whole program: each statement
/// followed by a line break.
pub open spec fn print_program(stmts: Seq<StmtModel>) -> Seq<char>
    decreases stmts.len(),
{
    if stmts.len() == 0 {
        Seq::empty()
    } else {
        print_stmt(stmts[0]) + "\n"@ + print_program(stmts.drop_first())
    }
}

/// Mathematical model of the printer's state.
pub ghost struct PrinterModel {
    pub indent: int,
    pub result: Seq<char>,
}

/// A traversal consumer that renders the tree back to source text.
pub struct ASTPrinter {
    pub indent: usize,
    pub result: String,
}

impl View for ASTPrinter {
    type V = PrinterModel;

    open spec fn view(&self) -> PrinterModel {
        PrinterModel { indent: self.indent as int, result: self.result@ }
    }
}

impl ASTPrinter {
    fn add_space(&mut self)
        ensures
            final(self)@.result == old(self)@.result + " "@,
            final(self)@.indent == old(self)@.indent,
    {
        self.result.append(" ");
    }

    fn add_newline(&mut self)
        ensures
            final(self)@.result == old(self)@.result + "\n"@,
            final(self)@.indent == old(self)@.indent,
    {
        self.result.append("\n");
    }

    pub fn new() -> (r: Self)
        ensures
            r@.result == Seq::<char>::empty(),
            r@.indent == 0,
    {
        Self { indent: 0, result: String::new() }
    }

    /// Appends the rendering of one expression to the output.
    pub fn print_expression(&mut self, expression: &Expression)
        ensures
            final(self)@.result == old(self)@.result + print_expr(expression@),
            final(self)@.indent == old(self)@.indent,
        decreases *expression,
    {
        match &expression.kind {
            ExpressionType::NUMBER(number) => {
                let text = i64_to_string(number.number);
                self.result.append(text.as_str());
            },
            ExpressionType::BINARY(binary) => {
                self.print_expression(&binary.left);
                self.add_space();
                self.result.append(binary.operator.token.span.literal.as_str());
                self.add_space();
                self.print_expression(&binary.right);
                proof {
                    assert(self@.result =~= old(self)@.result + print_expr(expression@));
                }
            },
            ExpressionType::UNARY(unary) => {
                self.result.append(unary.operator.token.span.literal.as_str());
                self.print_expression(&unary.operand);
                proof {
                    assert(self@.result =~= old(self)@.result + print_expr(expression@));
                }
            },
            ExpressionType::PARENTHESIZED(parenthesized) => {
                self.result.append("(");
                self.print_expression(&parenthesized.expression);
                self.result.append(")");
                proof {
                    assert(self@.result =~= old(self)@.result + print_expr(expression@));
                }
            },
            ExpressionType::VARIABLE(variable) => {
                self.result.append(variable.identifier.span.literal.as_str());
            },
            ExpressionType::ERROR(span) => {
                self.result.append(span.literal.as_str());
            },
        }
    }
}

impl ASTTraverser for ASTPrinter {
    open spec fn after_let_statement(
        pre: PrinterModel,
        identifier: TokenModel,
        initializer: ExprModel,
    ) -> PrinterModel {
        PrinterModel {
            indent: pre.indent,
            result: pre.result + print_stmt(
                StmtModel::Let { identifier: identifier, initializer: initializer },
            ),
        }
    }

    open spec fn after_variable_expression(pre: PrinterModel, identifier: TokenModel) -> PrinterModel {
        PrinterModel {
            indent: pre.indent,
            result: pre.result + print_expr(ExprModel::Variable { token: identifier }),
        }
    }

    open spec fn after_number_expression(pre: PrinterModel, value: i64) -> PrinterModel {
        PrinterModel {
            indent: pre.indent,
            result: pre.result + print_expr(ExprModel::Number { value: value }),
        }
    }

    open spec fn after_error(pre: PrinterModel, span: SpanModel) -> PrinterModel {
        PrinterModel {
            indent: pre.indent,
            result: pre.result + print_expr(ExprModel::Error { span: span }),
        }
    }

    open spec fn after_unary_expression(
        pre: PrinterModel,
        op: UnaryOperatorType,
        token: TokenModel,
        operand: ExprModel,
    ) -> PrinterModel {
        PrinterModel {
            indent: pre.indent,
            result: pre.result + print_expr(
                ExprModel::Unary { op: op, token: token, operand: Box::new(operand) },
            ),
        }
    }

    open spec fn after_binary_expression(
        pre: PrinterModel,
        op: BinaryOperatorType,
        token: TokenModel,
        left: ExprModel,
        right: ExprModel,
    ) -> PrinterModel {
        PrinterModel {
            indent: pre.indent,
            result: pre.result + print_expr(
                ExprModel::Binary {
                    op: op,
                    token: token,
                    left: Box::new(left),
                    right: Box::new(right),
                },
            ),
        }
    }

    open spec fn after_parenthesized_expression(pre: PrinterModel, inner: ExprModel) -> PrinterModel {
        PrinterModel {
            indent: pre.indent,
            result: pre.result + print_expr(ExprModel::Parenthesized { inner: Box::new(inner) }),
        }
    }

    open spec fn after_statement(pre: PrinterModel, s: StmtModel) -> PrinterModel {
        PrinterModel { indent: pre.indent, result: pre.result + print_stmt(s) + "\n"@ }
    }

    fn do_visit_statement(&mut self, statement: &ASTStatement) {
        match &statement.kind {
            ASTStatementType::EXPRESSION(expr) => {
                self.print_expression(expr);
            },
            ASTStatementType::LETSTATEMENT(let_statement) => {
                self.goto_let_statement(let_statement);
            },
        }
    }

    fn goto_statement(&mut self, statement: &ASTStatement) {
        self.do_visit_statement(statement);
        self.add_newline();
        proof {
            assert(self@.result =~= Self::after_statement(old(self)@, statement@).result);
        }
    }

    fn expression_dispatch(&mut self, expression: &Expression) {
        self.print_expression(expression);
    }

    fn goto_expression(&mut self, expression: &Expression) {
        self.print_expression(expression);
    }

    fn goto_let_statement(&mut self, let_statement: &ASTLetStatement) {
        self.result.append("let");
        self.add_space();
        self.result.append(let_statement.identifier.span.literal.as_str());
        self.add_space();
        self.result.append("=");
        self.add_space();
        self.print_expression(&let_statement.initializer);
        proof {
            assert(self@.result =~= Self::after_let_statement(
                old(self)@,
                let_statement.identifier@,
                let_statement.initializer@,
            ).result);
        }
    }

    fn goto_variable_expression(&mut self, variable_expression: &VariableExpression) {
        self.result.append(variable_expression.identifier.span.literal.as_str());
    }

    fn goto_number_expression(&mut self, number: &NumberExpression) {
        let text = i64_to_string(number.number);
        self.result.append(text.as_str());
    }

    fn goto_error(&mut self, span: &SourceCodeSpan) {
        self.result.append(span.literal.as_str());
    }

    fn goto_unary_expression(&mut self, unary_expression: &UnaryExpression) {
        self.result.append(unary_expression.operator.token.span.literal.as_str());
        self.print_expression(&unary_expression.operand);
        proof {
            assert(self@.result =~= Self::after_unary_expression(
                old(self)@,
                unary_expression.operator.kind,
                unary_expression.operator.token@,
                unary_expression.operand@,
            ).result);
        }
    }

    fn goto_binary_expression(&mut self, binary_expression: &BinaryExpression) {
        self.print_expression(&binary_expression.left);
        self.add_space();
        self.result.append(binary_expression.operator.token.span.literal.as_str());
        self.add_space();
        self.print_expression(&binary_expression.right);
        proof {
            assert(self@.result =~= Self::after_binary_expression(
                old(self)@,
                binary_expression.operator.kind,
                binary_expression.operator.token@,
                binary_expression.left@,
                binary_expression.right@,
            ).result);
        }
    }

    fn goto_parenthesized_expression(
        &mut self,
        parenthesized_expression: &ParenthesizedExpression,
    ) {
        self.result.append("(");
        self.print_expression(&parenthesized_expression.expression);
        self.result.append(")");
        proof {
            assert(self@.result =~= Self::after_parenthesized_expression(
                old(self)@,
                parenthesized_expression.expression@,
            ).result);
        }
    }
}

/// Mathematical model of one entry of a pre-order flattening: the node's
/// variant, keeping only the leaf values.
pub ghost enum FlatNodeModel {
    Number { value: i64 },
    Binary,
    Unary,
    Parenthesized,
    LetStatement,
    Variable { name: Seq<char> },
    Error,
}

/// One entry of a pre-order flattening of the tree, used to compare two
/// trees structurally while ignoring spans.
#[derive(Debug, Clone, PartialEq)]
pub enum FlatNode {
    NUMBER(i64),
    BINARY,
    UNARY,
    PARENTHESIZED,
    LETSTATEMENT,
    VAR(String),
    ERROR,
}

impl View for FlatNode {
    type V = FlatNodeModel;

    open spec fn view(&self) -> FlatNodeModel {
        match self {
            FlatNode::NUMBER(value) => FlatNodeModel::Number { value: *value },
            FlatNode::BINARY => FlatNodeModel::Binary,
            FlatNode::UNARY => FlatNodeModel::Unary,
            FlatNode::PARENTHESIZED => FlatNodeModel::Parenthesized,
            FlatNode::LETSTATEMENT => FlatNodeModel::LetStatement,
            FlatNode::VAR(name) => FlatNodeModel::Variable { name: name@ },
            FlatNode::ERROR => FlatNodeModel::Error,
        }
    }
}

/// The pre-order flattening of one expression.
pub open spec fn flatten_expr(e: ExprModel) -> Seq<FlatNodeModel>
    decreases e,
{
    match e {
        ExprModel::Number { value } => seq![FlatNodeModel::Number { value: value }],
        ExprModel::Binary { op, token, left, right } => seq![FlatNodeModel::Binary] + flatten_expr(
            *left,
        ) + flatten_expr(*right),
        ExprModel::Unary { op, token, operand } => seq![FlatNodeModel::Unary] + flatten_expr(
            *operand,
        ),
        ExprModel::Parenthesized { inner } => seq![FlatNodeModel::Parenthesized] + flatten_expr(
            *inner,
        ),
        ExprModel::Variable { token } => seq![
            FlatNodeModel::Variable { name: token.span.literal },
        ],
        ExprModel::Error { span } => seq![FlatNodeModel::Error],
    }
}

/// The pre-order flattening of one statement.
pub open spec fn flatten_stmt(s: StmtModel) -> Seq<FlatNodeModel> {
    match s {
        StmtModel::Expression { expr } => flatten_expr(expr),
        StmtModel::Let { identifier, initializer } => seq![FlatNodeModel::LetStatement]
            + flatten_expr(initializer),
    }
}

/// The pre-order flattening of a whole program.
pub open spec fn flatten_program(stmts: Seq<StmtModel>) -> Seq<FlatNodeModel>
    decreases stmts.len(),
{
    if stmts.len() == 0 {
        Seq::empty()
    } else {
        flatten_stmt(stmts[0]) + flatten_program(stmts.drop_first())
    }
}

/// A traversal consumer that records the pre-order variant sequence of the
/// tree, for structural comparison of two trees.
pub struct ASTFlattener {
    pub nodes: Vec<FlatNode>,
}

impl View for ASTFlattener {
    type V = Seq<FlatNodeModel>;

    open spec fn view(&self) -> Seq<FlatNodeModel> {
        self.nodes@.map_values(|n: FlatNode| n@)
    }
}

impl ASTFlattener {
    pub fn new() -> (r: Self)
        ensures
            r@ == Seq::<FlatNodeModel>::empty(),
    {
        let r = ASTFlattener { nodes: Vec::new() };
        proof {
            assert(r@ =~= Seq::<FlatNodeModel>::empty());
        }
        r
    }

    fn push_node(&mut self, node: FlatNode)
        ensures
            final(self)@ == old(self)@ + seq![node@],
    {
        self.nodes.push(node);
        proof {
            assert(self@ =~= old(self)@ + seq![node@]);
        }
    }

    /// Appends the pre-order flattening of one expression.
    pub fn flatten_expression(&mut self, expression: &Expression)
        ensures
            final(self)@ == old(self)@ + flatten_expr(expression@),
        decreases *expression,
    {
        match &expression.kind {
            ExpressionType::NUMBER(number) => {
                self.push_node(FlatNode::NUMBER(number.number));
                proof {
                    assert(self@ =~= old(self)@ + flatten_expr(expression@));
                }
            },
            ExpressionType::BINARY(binary) => {
                self.push_node(FlatNode::BINARY);
                self.flatten_expression(&binary.left);
                self.flatten_expression(&binary.right);
                proof {
                    assert(self@ =~= old(self)@ + flatten_expr(expression@));
                }
            },
            ExpressionType::UNARY(unary) => {
                self.push_node(FlatNode::UNARY);
                self.flatten_expression(&unary.operand);
                proof {
                    assert(self@ =~= old(self)@ + flatten_expr(expression@));
                }
            },
            ExpressionType::PARENTHESIZED(parenthesized) => {
                self.push_node(FlatNode::PARENTHESIZED);
                self.flatten_expression(&parenthesized.expression);
                proof {
                    assert(self@ =~= old(self)@ + flatten_expr(expression@));
                }
            },
            ExpressionType::VARIABLE(variable) => {
                self.push_node(FlatNode::VAR(variable.identifier.span.literal.clone()));
                proof {
                    assert(self@ =~= old(self)@ + flatten_expr(expression@));
                }
            },
            ExpressionType::ERROR(span) => {
                self.push_node(FlatNode::ERROR);
                proof {
                    assert(self@ =~= old(self)@ + flatten_expr(expression@));
                }
            },
        }
    }
}

impl ASTTraverser for ASTFlattener {
    open spec fn after_let_statement(
        pre: Seq<FlatNodeModel>,
        identifier: TokenModel,
        initializer: ExprModel,
    ) -> Seq<FlatNodeModel> {
        pre + flatten_stmt(StmtModel::Let { identifier: identifier, initializer: initializer })
    }

    open spec fn after_variable_expression(
        pre: Seq<FlatNodeModel>,
        identifier: TokenModel,
    ) -> Seq<FlatNodeModel> {
        pre + flatten_expr(ExprModel::Variable { token: identifier })
    }

    open spec fn after_number_expression(pre: Seq<FlatNodeModel>, value: i64) -> Seq<FlatNodeModel> {
        pre + flatten_expr(ExprModel::Number { value: value })
    }

    open spec fn after_error(pre: Seq<FlatNodeModel>, span: SpanModel) -> Seq<FlatNodeModel> {
        pre + flatten_expr(ExprModel::Error { span: span })
    }

    open spec fn after_unary_expression(
        pre: Seq<FlatNodeModel>,
        op: UnaryOperatorType,
        token: TokenModel,
        operand: ExprModel,
    ) -> Seq<FlatNodeModel> {
        pre + flatten_expr(ExprModel::Unary { op: op, token: token, operand: Box::new(operand) })
    }

    open spec fn after_binary_expression(
        pre: Seq<FlatNodeModel>,
        op: BinaryOperatorType,
        token: TokenModel,
        left: ExprModel,
        right: ExprModel,
    ) -> Seq<FlatNodeModel> {
        pre + flatten_expr(
            ExprModel::Binary { op: op, token: token, left: Box::new(left), right: Box::new(right) },
        )
    }

    open spec fn after_parenthesized_expression(
        pre: Seq<FlatNodeModel>,
        inner: ExprModel,
    ) -> Seq<FlatNodeModel> {
        pre + flatten_expr(ExprModel::Parenthesized { inner: Box::new(inner) })
    }

    open spec fn after_statement(pre: Seq<FlatNodeModel>, s: StmtModel) -> Seq<FlatNodeModel> {
        pre + flatten_stmt(s)
    }

    fn do_visit_statement(&mut self, statement: &ASTStatement) {
        match &statement.kind {
            ASTStatementType::EXPRESSION(expr) => {
                self.flatten_expression(expr);
            },
            ASTStatementType::LETSTATEMENT(let_statement) => {
                self.goto_let_statement(let_statement);
            },
        }
    }

    fn goto_statement(&mut self, statement: &ASTStatement) {
        self.do_visit_statement(statement);
    }

    fn expression_dispatch(&mut self, expression: &Expression) {
        self.flatten_expression(expression);
    }

    fn goto_expression(&mut self, expression: &Expression) {
        self.flatten_expression(expression);
    }

    fn goto_let_statement(&mut self, let_statement: &ASTLetStatement) {
        self.push_node(FlatNode::LETSTATEMENT);
        self.flatten_expression(&let_statement.initializer);
        proof {
            assert(self@ =~= Self::after_let_statement(
                old(self)@,
                let_statement.identifier@,
                let_statement.initializer@,
            ));
        }
    }

    fn goto_variable_expression(&mut self, variable_expression: &VariableExpression) {
        self.push_node(FlatNode::VAR(variable_expression.identifier.span.literal.clone()));
        proof {
            assert(self@ =~= Self::after_variable_expression(
                old(self)@,
                variable_expression.identifier@,
            ));
        }
    }

    fn goto_number_expression(&mut self, number: &NumberExpression) {
        self.push_node(FlatNode::NUMBER(number.number));
        proof {
            assert(self@ =~= Self::after_number_expression(old(self)@, number.number));
        }
    }

    fn goto_error(&mut self, span: &SourceCodeSpan) {
        self.push_node(FlatNode::ERROR);
        proof {
            assert(self@ =~= Self::after_error(old(self)@, span@));
        }
    }

    fn goto_unary_expression(&mut self, unary_expression: &UnaryExpression) {
        self.push_node(FlatNode::UNARY);
        self.flatten_expression(&unary_expression.operand);
        proof {
            assert(self@ =~= Self::after_unary_expression(
                old(self)@,
                unary_expression.operator.kind,
                unary_expression.operator.token@,
                unary_expression.operand@,
            ));
        }
    }

    fn goto_binary_expression(&mut self, binary_expression: &BinaryExpression) {
        self.push_node(FlatNode::BINARY);
        self.flatten_expression(&binary_expression.left);
        self.flatten_expression(&binary_expression.right);
        proof {
            assert(self@ =~= Self::after_binary_expression(
                old(self)@,
                binary_expression.operator.kind,
                binary_expression.operator.token@,
                binary_expression.left@,
                binary_expression.right@,
            ));
        }
    }

    fn goto_parenthesized_expression(
        &mut self,
        parenthesized_expression: &ParenthesizedExpression,
    ) {
        self.push_node(FlatNode::PARENTHESIZED);
        self.flatten_expression(&parenthesized_expression.expression);
        proof {
            assert(self@ =~= Self::after_parenthesized_expression(
                old(self)@,
                parenthesized_expression.expression@,
            ));
        }
    }
}

pub proof fn lemma_visit_transition_push<V: ASTTraverser>(
    pre: <V as View>::V,
    stmts: Seq<StmtModel>,
    s: StmtModel,
)
    ensures
        visit_transition::<V>(pre, stmts.push(s)) == V::after_statement(
            visit_transition::<V>(pre, stmts),
            s,
        ),
    decreases stmts.len(),
{
    if stmts.len() == 0 {
        assert(stmts.push(s)[0] == s);
        assert(stmts.push(s).drop_first() =~= Seq::<StmtModel>::empty());
        assert(visit_transition::<V>(
            V::after_statement(pre, s),
            stmts.push(s).drop_first(),
        ) == V::after_statement(pre, s));
    } else {
        assert(stmts.push(s).drop_first() =~= stmts.drop_first().push(s));
        assert(stmts.push(s)[0] == stmts[0]);
        lemma_visit_transition_push::<V>(
            V::after_statement(pre, stmts[0]),
            stmts.drop_first(),
            s,
        );
    }
}

} // verus!
