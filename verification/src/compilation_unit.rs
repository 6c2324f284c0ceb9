//! One compilation: lex, parse, check symbols, and gate evaluation on a
//! clean diagnostics sink.
//!
//! `compile_model` is the mathematical description of the whole pipeline:
//! the statements parsed from the text and the diagnostics collected, first
//! by the parser and then — only when parsing was clean — by the symbol
//! checker.  Evaluation runs only if the sink is empty after both passes.

use vstd::prelude::*;

use crate::diagnostics::{undeclared_variable_message, DiagModel, DiagnosticKind, DiagnosticsVector};
use crate::syntax_tree::evaluator::{
    eval_expr, eval_program, eval_stmt, eval_stmts, initial_eval_model, lemma_visit_is_eval,
    ASTEvaluator, EvalFault, EvalModel,
};
use crate::syntax_tree::lexer::{
    eof_token_model, lex_from, Lexer, SourceCodeSpan, SpanModel, Token, TokenModel, TokenType,
};
use crate::syntax_tree::parser::{
    filter_whitespace, lemma_filter_whitespace_no_ws, spec_parse_program, spec_parse_statement,
    advance, at_least, token_at, tokens_wf, Parser,
};
use crate::syntax_tree::{
    visit_transition, ASTLetStatement, ASTStatement, ASTStatementType, ASTTraverser,
    AbstractSyntaxTree, BinaryExpression, BinaryOperatorType, Expression, ExpressionType,
    ExprModel, NumberExpression, ParenthesizedExpression, StmtModel, UnaryExpression,
    UnaryOperatorType, VariableExpression,
};

verus! {

/// Mathematical model of the symbol checker's state: the names declared so
/// far and the diagnostics reported.
pub ghost struct CheckModel {
    pub declared: Set<Seq<char>>,
    pub diags: Seq<DiagModel>,
}

/// The diagnostic for a variable reference with no preceding declaration.
pub open spec fn undeclared_variable_diag(token: TokenModel) -> DiagModel {
    DiagModel {
        message: undeclared_variable_message(token.span.literal),
        span: token.span,
        kind: DiagnosticKind::ERROR,
    }
}

/// The checker's state after one expression: every variable reference whose
/// name is not yet declared is reported, in traversal order.
pub open spec fn check_expr(st: CheckModel, e: ExprModel) -> CheckModel
    decreases e,
{
    match e {
        ExprModel::Number { value } => st,
        ExprModel::Variable { token } => if st.declared.contains(token.span.literal) {
            st
        } else {
            CheckModel { declared: st.declared, diags: st.diags.push(undeclared_variable_diag(token)) }
        },
        ExprModel::Unary { op, token, operand } => check_expr(st, *operand),
        ExprModel::Binary { op, token, left, right } => check_expr(check_expr(st, *left), *right),
        ExprModel::Parenthesized { inner } => check_expr(st, *inner),
        ExprModel::Error { span } => st,
    }
}

/// The checker's state after one statement: a let statement checks its
/// initializer first (so a self-reference is caught), then declares its
/// identifier.
pub open spec fn check_stmt(st: CheckModel, s: StmtModel) -> CheckModel {
    match s {
        StmtModel::Expression { expr } => check_expr(st, expr),
        StmtModel::Let { identifier, initializer } => {
            let st1 = check_expr(st, initializer);
            CheckModel { declared: st1.declared.insert(identifier.span.literal), diags: st1.diags }
        },
    }
}

/// The checker's state after a sequence of statements, in order.
pub open spec fn check_stmts(st: CheckModel, stmts: Seq<StmtModel>) -> CheckModel
    decreases stmts.len(),
{
    if stmts.len() == 0 {
        st
    } else {
        check_stmts(check_stmt(st, stmts[0]), stmts.drop_first())
    }
}

/// The diagnostics the symbol checker reports for a whole program, starting
/// from an empty declared set.
pub open spec fn check_program(stmts: Seq<StmtModel>) -> Seq<DiagModel> {
    check_stmts(CheckModel { declared: Set::empty(), diags: Seq::empty() }, stmts).diags
}

/// A set of declared names, as a sequence of entries.
pub open spec fn symbols_model(entries: Seq<String>) -> Set<Seq<char>>
    decreases entries.len(),
{
    if entries.len() == 0 {
        Set::empty()
    } else {
        symbols_model(entries.drop_last()).insert(entries.last()@)
    }
}

proof fn lemma_symbols_model_contains(entries: Seq<String>, key: Seq<char>)
    ensures
        symbols_model(entries).contains(key) <==> exists|j: int|
            0 <= j < entries.len() && entries[j]@ == key,
    decreases entries.len(),
{
    if entries.len() > 0 {
        lemma_symbols_model_contains(entries.drop_last(), key);
        if symbols_model(entries).contains(key) && entries.last()@ != key {
            let j = choose|j: int| 0 <= j < entries.drop_last().len() && entries.drop_last()[j]@
                == key;
            assert(entries[j]@ == key);
        }
        if exists|j: int| 0 <= j < entries.len() && entries[j]@ == key {
            let j = choose|j: int| 0 <= j < entries.len() && entries[j]@ == key;
            if j < entries.len() - 1 {
                assert(entries.drop_last()[j]@ == key);
            }
        }
    }
}

/// A traversal consumer that validates every variable reference against the
/// declarations seen so far, reporting the rest.
pub struct SymbolChecker {
    pub symbols: Vec<String>,
    pub diagnostics: DiagnosticsVector,
}

impl View for SymbolChecker {
    type V = CheckModel;

    open spec fn view(&self) -> CheckModel {
        CheckModel { declared: symbols_model(self.symbols@), diags: self.diagnostics@ }
    }
}

impl SymbolChecker {
    pub fn new(diagnostics: DiagnosticsVector) -> (r: Self)
        ensures
            r@ == (CheckModel { declared: Set::<Seq<char>>::empty(), diags: diagnostics@ }),
    {
        let r = SymbolChecker { symbols: Vec::new(), diagnostics };
        proof {
            assert(r@.declared =~= Set::<Seq<char>>::empty());
        }
        r
    }

    /// Whether `name` has been declared.
    fn is_declared(&self, name: &String) -> (r: bool)
        ensures
            r == self@.declared.contains(name@),
    {
        let ghost entries = self.symbols@;
        proof {
            lemma_symbols_model_contains(entries, name@);
        }
        let mut i: usize = 0;
        while i < self.symbols.len()
            invariant
                i <= self.symbols.len(),
                entries == self.symbols@,
                forall|k: int| 0 <= k < i ==> entries[k]@ != name@,
            decreases self.symbols.len() - i,
        {
            if self.symbols[i] == *name {
                proof {
                    lemma_symbols_model_contains(entries, name@);
                }
                return true;
            }
            i = i + 1;
        }
        proof {
            lemma_symbols_model_contains(entries, name@);
        }
        false
    }

    /// Declares `name`.
    fn declare(&mut self, name: String)
        ensures
            final(self)@.declared == old(self)@.declared.insert(name@),
            final(self)@.diags == old(self)@.diags,
    {
        self.symbols.push(name);
        proof {
            assert(self.symbols@.drop_last() =~= old(self).symbols@);
        }
    }

    /// Checks one expression, as `check_expr` describes.
    pub fn check_expression(&mut self, expression: &Expression)
        ensures
            final(self)@ == check_expr(old(self)@, expression@),
        decreases *expression,
    {
        match &expression.kind {
            ExpressionType::NUMBER(number) => {},
            ExpressionType::VARIABLE(variable) => {
                if !self.is_declared(&variable.identifier.span.literal) {
                    self.diagnostics.report_undeclared_variable(&variable.identifier);
                }
            },
            ExpressionType::UNARY(unary) => {
                self.check_expression(&unary.operand);
            },
            ExpressionType::BINARY(binary) => {
                self.check_expression(&binary.left);
                self.check_expression(&binary.right);
            },
            ExpressionType::PARENTHESIZED(parenthesized) => {
                self.check_expression(&parenthesized.expression);
            },
            ExpressionType::ERROR(span) => {},
        }
    }

    /// Hands the diagnostics sink back once checking is finished.
    pub fn into_diagnostics(self) -> (r: DiagnosticsVector)
        ensures
            r@ == self@.diags,
    {
        self.diagnostics
    }
}

impl ASTTraverser for SymbolChecker {
    open spec fn after_let_statement(
        pre: CheckModel,
        identifier: TokenModel,
        initializer: ExprModel,
    ) -> CheckModel {
        check_stmt(pre, StmtModel::Let { identifier: identifier, initializer: initializer })
    }

    open spec fn after_variable_expression(pre: CheckModel, identifier: TokenModel) -> CheckModel {
        check_expr(pre, ExprModel::Variable { token: identifier })
    }

    open spec fn after_number_expression(pre: CheckModel, value: i64) -> CheckModel {
        check_expr(pre, ExprModel::Number { value: value })
    }

    open spec fn after_error(pre: CheckModel, span: SpanModel) -> CheckModel {
        check_expr(pre, ExprModel::Error { span: span })
    }

    open spec fn after_unary_expression(
        pre: CheckModel,
        op: UnaryOperatorType,
        token: TokenModel,
        operand: ExprModel,
    ) -> CheckModel {
        check_expr(pre, ExprModel::Unary { op: op, token: token, operand: Box::new(operand) })
    }

    open spec fn after_binary_expression(
        pre: CheckModel,
        op: BinaryOperatorType,
        token: TokenModel,
        left: ExprModel,
        right: ExprModel,
    ) -> CheckModel {
        check_expr(
            pre,
            ExprModel::Binary { op: op, token: token, left: Box::new(left), right: Box::new(right) },
        )
    }

    open spec fn after_parenthesized_expression(pre: CheckModel, inner: ExprModel) -> CheckModel {
        check_expr(pre, ExprModel::Parenthesized { inner: Box::new(inner) })
    }

    open spec fn after_statement(pre: CheckModel, s: StmtModel) -> CheckModel {
        check_stmt(pre, s)
    }

    fn do_visit_statement(&mut self, statement: &ASTStatement) {
        match &statement.kind {
            ASTStatementType::EXPRESSION(expr) => {
                self.check_expression(expr);
            },
            ASTStatementType::LETSTATEMENT(let_statement) => {
                self.goto_let_statement(let_statement);
            },
        }
    }

    fn goto_statement(&mut self, statement: &ASTStatement) {
        self.do_visit_statement(statement);
    }

    fn expression_dispatch(&mut self, expression: &Expression) {
        self.check_expression(expression);
    }

    fn goto_expression(&mut self, expression: &Expression) {
        self.check_expression(expression);
    }

    fn goto_let_statement(&mut self, let_statement: &ASTLetStatement) {
        self.check_expression(&let_statement.initializer);
        self.declare(let_statement.identifier.span.literal.clone());
    }

    fn goto_variable_expression(&mut self, variable_expression: &VariableExpression) {
        if !self.is_declared(&variable_expression.identifier.span.literal) {
            self.diagnostics.report_undeclared_variable(&variable_expression.identifier);
        }
    }

    fn goto_number_expression(&mut self, number: &NumberExpression) {
    }

    fn goto_error(&mut self, span: &SourceCodeSpan) {
    }

    fn goto_unary_expression(&mut self, unary_expression: &UnaryExpression) {
        self.check_expression(&unary_expression.operand);
    }

    fn goto_binary_expression(&mut self, binary_expression: &BinaryExpression) {
        self.check_expression(&binary_expression.left);
        self.check_expression(&binary_expression.right);
    }

    fn goto_parenthesized_expression(
        &mut self,
        parenthesized_expression: &ParenthesizedExpression,
    ) {
        self.check_expression(&parenthesized_expression.expression);
    }
}

/// Walking a tree with the symbol checker computes exactly `check_stmts`.
pub proof fn lemma_visit_is_check(st: CheckModel, stmts: Seq<StmtModel>)
    ensures
        visit_transition::<SymbolChecker>(st, stmts) == check_stmts(st, stmts),
    decreases stmts.len(),
{
    if stmts.len() > 0 {
        lemma_visit_is_check(check_stmt(st, stmts[0]), stmts.drop_first());
    }
}

/// The token sequence a program text lexes and filters to.
pub open spec fn program_tokens(text: Seq<char>) -> Seq<TokenModel> {
    filter_whitespace(lex_from(text, 0))
}

pub proof fn lemma_lex_ends_eof(text: Seq<char>, pos: int)
    requires
        0 <= pos,
    ensures
        lex_from(text, pos).len() > 0,
        lex_from(text, pos).last() == eof_token_model(),
    decreases text.len() - pos,
{
    if pos < text.len() {
        crate::syntax_tree::lexer::lemma_token_end_bounds(text, pos);
        lemma_lex_ends_eof(text, crate::syntax_tree::lexer::token_kind_end(text, pos).1);
    }
}

/// The filtered token sequence of any program text is fit for parsing.
pub proof fn lemma_program_tokens_wf(text: Seq<char>)
    ensures
        tokens_wf(program_tokens(text)),
{
    lemma_lex_ends_eof(text, 0);
    let lexed = lex_from(text, 0);
    lemma_filter_whitespace_no_ws(lexed);
    assert(filter_whitespace(lexed) == filter_whitespace(lexed.drop_last()).push(lexed.last()));
}

/// The statements and diagnostics one compilation of `text` produces: the
/// parse result, and — only when parsing was clean — the symbol checker's
/// findings appended.
pub open spec fn compile_model(text: Seq<char>) -> (Seq<StmtModel>, Seq<DiagModel>) {
    let tokens = program_tokens(text);
    let (stmts, parse_diags) = spec_parse_program(tokens, 0);
    if parse_diags.len() > 0 {
        (stmts, parse_diags)
    } else {
        (stmts, parse_diags + check_program(stmts))
    }
}

/// One compilation's results: the syntax tree and the diagnostics sink.
pub struct CompilationUnit {
    pub ast: AbstractSyntaxTree,
    pub diagnostics_vector: DiagnosticsVector,
}

impl CompilationUnit {
    /// Compiles `input`: lexes, parses, and — when parsing reported
    /// nothing — checks symbols.  The tree and the diagnostics are exactly
    /// `compile_model(input)`.
    pub fn compile(input: &str) -> (r: CompilationUnit)
        ensures
            r.ast@ == compile_model(input@).0,
            r.diagnostics_vector@ == compile_model(input@).1,
    {
        let ghost text = input@;
        let mut lexer = Lexer::new(input);
        let mut tokens: Vec<Token> = Vec::new();
        proof {
            assert(tokens@.map_values(|t: Token| t@) + lex_from(text, 0) =~= lex_from(text, 0));
        }
        loop
            invariant
                lexer.wf(),
                lexer.text() == text,
                if lexer.done() {
                    tokens@.map_values(|t: Token| t@) == lex_from(text, 0)
                } else {
                    lex_from(text, 0) == tokens@.map_values(|t: Token| t@) + lex_from(
                        text,
                        lexer.pos(),
                    )
                },
            ensures
                tokens@.map_values(|t: Token| t@) == lex_from(text, 0),
            decreases (if lexer.done() {
                0int
            } else {
                lexer.text().len() - lexer.pos() + 1
            }),
        {
            let ghost tokens_before = tokens@.map_values(|t: Token| t@);
            let ghost pos_before = lexer.pos();
            let ghost was_done = lexer.done();
            match lexer.next_token() {
                Some(token) => {
                    tokens.push(token);
                    proof {
                        assert(tokens@.map_values(|t: Token| t@) =~= tokens_before + seq![token@]);
                        if pos_before < text.len() {
                            crate::syntax_tree::lexer::lemma_token_end_bounds(text, pos_before);
                            assert(lex_from(text, pos_before) == seq![
                                crate::syntax_tree::lexer::token_model_at(text, pos_before),
                            ] + lex_from(
                                text,
                                crate::syntax_tree::lexer::token_kind_end(text, pos_before).1,
                            ));
                            assert(lex_from(text, 0) =~= tokens@.map_values(|t: Token| t@)
                                + lex_from(text, lexer.pos()));
                        } else {
                            assert(lex_from(text, pos_before) =~= seq![eof_token_model()]);
                            assert(tokens@.map_values(|t: Token| t@) =~= lex_from(text, 0));
                        }
                    }
                },
                None => {
                    break ;
                },
            }
        }
        let diagnostics_bag = DiagnosticsVector::new();
        let mut ast = AbstractSyntaxTree::new();
        proof {
            lemma_program_tokens_wf(text);
            lemma_lex_ends_eof(text, 0);
            assert(lex_from(text, 0).last() == eof_token_model());
        }
        let mut parser = Parser::new(tokens, diagnostics_bag);
        let ghost ftoks = program_tokens(text);
        let ghost program = spec_parse_program(ftoks, 0);
        proof {
            assert(ast@ + program.0 =~= program.0);
            assert(Seq::<DiagModel>::empty() + program.1 =~= program.1);
        }
        loop
            invariant
                parser.wf(),
                parser.toks() == ftoks,
                tokens_wf(ftoks),
                program == spec_parse_program(ftoks, 0),
                program.0 == ast@ + spec_parse_program(ftoks, parser.pos()).0,
                program.1 == parser.diags() + spec_parse_program(ftoks, parser.pos()).1,
            ensures
                ast@ == program.0,
                parser.diags() == program.1,
                parser.wf(),
            decreases crate::syntax_tree::parser::spec_avail(ftoks, parser.pos()),
        {
            let ghost pos_before = parser.pos();
            let ghost ast_before = ast@;
            let ghost diags_before = parser.diags();
            match parser.next_statement() {
                Some(stmt) => {
                    ast.add_statement(stmt);
                    proof {
                        let (s, new_pos, d) = spec_parse_statement(ftoks, pos_before);
                        assert(at_least(new_pos, advance(ftoks, pos_before)) == new_pos);
                        assert(program.0 =~= ast@ + spec_parse_program(ftoks, parser.pos()).0);
                        assert(program.1 =~= parser.diags() + spec_parse_program(
                            ftoks,
                            parser.pos(),
                        ).1);
                    }
                },
                None => {
                    proof {
                        assert(spec_parse_program(ftoks, pos_before).0 =~= Seq::<StmtModel>::empty());
                        assert(spec_parse_program(ftoks, pos_before).1 =~= Seq::<DiagModel>::empty());
                        assert(ast@ =~= program.0);
                        assert(parser.diags() =~= program.1);
                    }
                    break ;
                },
            }
        }
        let diagnostics_bag = parser.into_diagnostics();
        if CompilationUnit::check_diagnostics(&diagnostics_bag).is_err() {
            return CompilationUnit::init_compilation_unit(ast, diagnostics_bag);
        }
        proof {
            assert(program.1 =~= Seq::<DiagModel>::empty());
        }
        let mut symbol_checker = SymbolChecker::new(diagnostics_bag);
        ast.visit(&mut symbol_checker);
        proof {
            lemma_visit_is_check(
                CheckModel { declared: Set::empty(), diags: Seq::empty() },
                ast@,
            );
            assert(program.1 + check_program(program.0) =~= check_program(program.0));
        }
        let diagnostics_bag = symbol_checker.into_diagnostics();
        CompilationUnit::init_compilation_unit(ast, diagnostics_bag)
    }

    /// Runs the evaluator over the tree, but only when the diagnostics sink
    /// is empty after both passes; the evaluator's final state is returned.
    pub fn run_if_valid(&self) -> (r: Option<ASTEvaluator>)
        ensures
            r is Some <==> self.diagnostics_vector@.len() == 0,
            r matches Some(e) ==> e@ == eval_program(self.ast@),
    {
        if self.diagnostics_vector.diagnostics.len() > 0 {
            proof {
                assert(self.diagnostics_vector@.len() == self.diagnostics_vector.diagnostics@.len());
            }
            return None;
        }
        proof {
            assert(self.diagnostics_vector@.len() == self.diagnostics_vector.diagnostics@.len());
        }
        Some(self.run())
    }

    /// Evaluates the tree from a fresh environment.
    fn run(&self) -> (r: ASTEvaluator)
        ensures
            r@ == eval_program(self.ast@),
    {
        let mut eval = ASTEvaluator::new();
        self.ast.visit(&mut eval);
        proof {
            lemma_visit_is_eval(crate::syntax_tree::evaluator::initial_eval_model(), self.ast@);
        }
        eval
    }

    fn init_compilation_unit(
        ast: AbstractSyntaxTree,
        diagnostics_bag: DiagnosticsVector,
    ) -> (r: CompilationUnit)
        ensures
            r.ast == ast,
            r.diagnostics_vector == diagnostics_bag,
    {
        CompilationUnit { ast, diagnostics_vector: diagnostics_bag }
    }

    /// `Ok` exactly when the sink holds no diagnostic.
    fn check_diagnostics(diagnostics_bag: &DiagnosticsVector) -> (r: Result<(), ()>)
        ensures
            r is Ok <==> diagnostics_bag@.len() == 0,
    {
        if diagnostics_bag.diagnostics.len() > 0 {
            return Err(());
        }
        Ok(())
    }
}

proof fn lemma_check_expr_grows(st: CheckModel, e: ExprModel)
    ensures
        check_expr(st, e).declared == st.declared,
        check_expr(st, e).diags.len() >= st.diags.len(),
        check_expr(st, e).diags.subrange(0, st.diags.len() as int) == st.diags,
    decreases e,
{
    match e {
        ExprModel::Number { value } => {
            assert(st.diags.subrange(0, st.diags.len() as int) =~= st.diags);
        },
        ExprModel::Variable { token } => {
            if st.declared.contains(token.span.literal) {
                assert(st.diags.subrange(0, st.diags.len() as int) =~= st.diags);
            } else {
                assert(st.diags.push(undeclared_variable_diag(token)).subrange(
                    0,
                    st.diags.len() as int,
                ) =~= st.diags);
            }
        },
        ExprModel::Unary { op, token, operand } => {
            lemma_check_expr_grows(st, *operand);
        },
        ExprModel::Binary { op, token, left, right } => {
            lemma_check_expr_grows(st, *left);
            let mid = check_expr(st, *left);
            lemma_check_expr_grows(mid, *right);
            let fin = check_expr(mid, *right);
            assert forall|i: int| 0 <= i < st.diags.len() implies fin.diags.subrange(
                0,
                st.diags.len() as int,
            )[i] == st.diags[i] by {
                assert(fin.diags.subrange(0, mid.diags.len() as int)[i] == mid.diags[i]);
                assert(mid.diags.subrange(0, st.diags.len() as int)[i] == st.diags[i]);
            }
            assert(fin.diags.subrange(0, st.diags.len() as int) =~= st.diags);
        },
        ExprModel::Parenthesized { inner } => {
            lemma_check_expr_grows(st, *inner);
        },
        ExprModel::Error { span } => {
            assert(st.diags.subrange(0, st.diags.len() as int) =~= st.diags);
        },
    }
}

proof fn lemma_check_stmt_grows(st: CheckModel, s: StmtModel)
    ensures
        check_stmt(st, s).diags.len() >= st.diags.len(),
        check_stmt(st, s).diags.subrange(0, st.diags.len() as int) == st.diags,
{
    match s {
        StmtModel::Expression { expr } => {
            lemma_check_expr_grows(st, expr);
        },
        StmtModel::Let { identifier, initializer } => {
            lemma_check_expr_grows(st, initializer);
        },
    }
}

proof fn lemma_check_stmts_grows(st: CheckModel, stmts: Seq<StmtModel>)
    ensures
        check_stmts(st, stmts).diags.len() >= st.diags.len(),
        check_stmts(st, stmts).diags.subrange(0, st.diags.len() as int) == st.diags,
    decreases stmts.len(),
{
    if stmts.len() == 0 {
        assert(st.diags.subrange(0, st.diags.len() as int) =~= st.diags);
    } else {
        lemma_check_stmt_grows(st, stmts[0]);
        let mid = check_stmt(st, stmts[0]);
        lemma_check_stmts_grows(mid, stmts.drop_first());
        let fin = check_stmts(mid, stmts.drop_first());
        assert forall|i: int| 0 <= i < st.diags.len() implies fin.diags.subrange(
            0,
            st.diags.len() as int,
        )[i] == st.diags[i] by {
            assert(fin.diags.subrange(0, mid.diags.len() as int)[i] == mid.diags[i]);
            assert(mid.diags.subrange(0, st.diags.len() as int)[i] == st.diags[i]);
        }
        assert(fin.diags.subrange(0, st.diags.len() as int) =~= st.diags);
    }
}

/// When the checker, starting from `decl`, finds nothing to report in an
/// error-free expression, and every declared name is bound in the
/// evaluator's environment, then evaluating the expression cannot fault on
/// an unbound variable or an error placeholder; the environment is left
/// unchanged, and a fault-free evaluation always yields a value.
proof fn lemma_checked_eval_expr(decl: Set<Seq<char>>, d: Seq<DiagModel>, st: EvalModel, e: ExprModel)
    requires
        check_expr(CheckModel { declared: decl, diags: d }, e).diags == d,
        decl.subset_of(st.vars.dom()),
        st.fault is None,
        !crate::syntax_tree::expr_has_error(e),
    ensures
        eval_expr(st, e).vars == st.vars,
        eval_expr(st, e).fault != Some(EvalFault::UnboundVariable),
        eval_expr(st, e).fault != Some(EvalFault::InvalidExpression),
        eval_expr(st, e).fault is None ==> eval_expr(st, e).last is Some,
    decreases e,
{
    let c = CheckModel { declared: decl, diags: d };
    match e {
        ExprModel::Number { value } => {},
        ExprModel::Variable { token } => {
            if !decl.contains(token.span.literal) {
                assert(check_expr(c, e).diags.len() == d.len() + 1);
            }
            assert(st.vars.dom().contains(token.span.literal));
        },
        ExprModel::Unary { op, token, operand } => {
            lemma_checked_eval_expr(decl, d, st, *operand);
        },
        ExprModel::Binary { op, token, left, right } => {
            lemma_check_expr_grows(c, *left);
            let cmid = check_expr(c, *left);
            lemma_check_expr_grows(cmid, *right);
            assert(cmid.diags.len() == d.len());
            assert(cmid.diags =~= cmid.diags.subrange(0, d.len() as int));
            assert(cmid == c);
            lemma_checked_eval_expr(decl, d, st, *left);
            let st1 = eval_expr(st, *left);
            if st1.fault is None {
                lemma_checked_eval_expr(decl, d, st1, *right);
            }
        },
        ExprModel::Parenthesized { inner } => {
            lemma_checked_eval_expr(decl, d, st, *inner);
        },
        ExprModel::Error { span } => {},
    }
}

/// The statement-level counterpart: a cleanly checked, error-free
/// statement cannot fault on an unbound variable or an error placeholder,
/// and when it completes, every name the checker now counts as declared is
/// bound in the environment.
proof fn lemma_checked_eval_stmt(decl: Set<Seq<char>>, d: Seq<DiagModel>, st: EvalModel, s: StmtModel)
    requires
        check_stmt(CheckModel { declared: decl, diags: d }, s).diags == d,
        decl.subset_of(st.vars.dom()),
        st.fault is None,
        !crate::syntax_tree::stmt_has_error(s),
    ensures
        eval_stmt(st, s).fault != Some(EvalFault::UnboundVariable),
        eval_stmt(st, s).fault != Some(EvalFault::InvalidExpression),
        eval_stmt(st, s).fault is None ==> check_stmt(
            CheckModel { declared: decl, diags: d },
            s,
        ).declared.subset_of(eval_stmt(st, s).vars.dom()),
{
    let c = CheckModel { declared: decl, diags: d };
    match s {
        StmtModel::Expression { expr } => {
            lemma_check_expr_grows(c, expr);
            lemma_checked_eval_expr(decl, d, st, expr);
        },
        StmtModel::Let { identifier, initializer } => {
            lemma_check_expr_grows(c, initializer);
            lemma_checked_eval_expr(decl, d, st, initializer);
            let st1 = eval_expr(st, initializer);
            if st1.fault is None {
                let name = identifier.span.literal;
                let v = st1.last.unwrap();
                assert forall|x: Seq<char>| decl.insert(name).contains(x) implies st1.vars.insert(
                    name,
                    v,
                ).dom().contains(x) by {
                    if x == name {
                        assert(st1.vars.insert(name, v).contains_key(name));
                    } else {
                        assert(st.vars.dom().contains(x));
                        assert(st1.vars.insert(name, v).contains_key(x));
                    }
                }
            }
        },
    }
}

/// The program-level counterpart, statement by statement.
proof fn lemma_checked_eval_stmts(
    decl: Set<Seq<char>>,
    d: Seq<DiagModel>,
    st: EvalModel,
    stmts: Seq<StmtModel>,
)
    requires
        check_stmts(CheckModel { declared: decl, diags: d }, stmts).diags == d,
        decl.subset_of(st.vars.dom()),
        st.fault is None,
        forall|i: int| 0 <= i < stmts.len() ==> !crate::syntax_tree::stmt_has_error(#[trigger] stmts[i]),
    ensures
        eval_stmts(st, stmts).fault != Some(EvalFault::UnboundVariable),
        eval_stmts(st, stmts).fault != Some(EvalFault::InvalidExpression),
    decreases stmts.len(),
{
    if stmts.len() > 0 {
        let c = CheckModel { declared: decl, diags: d };
        lemma_check_stmt_grows(c, stmts[0]);
        let c1 = check_stmt(c, stmts[0]);
        lemma_check_stmts_grows(c1, stmts.drop_first());
        assert(c1.diags.len() == d.len());
        assert(c1.diags =~= c1.diags.subrange(0, d.len() as int));
        lemma_checked_eval_stmt(decl, d, st, stmts[0]);
        let st1 = eval_stmt(st, stmts[0]);
        if st1.fault is Some {
            crate::syntax_tree::evaluator::lemma_eval_stmts_sticky(st1, stmts.drop_first());
        } else {
            assert(c1 == (CheckModel { declared: c1.declared, diags: d }));
            assert forall|i: int| 0 <= i < stmts.drop_first().len()
                implies !crate::syntax_tree::stmt_has_error(#[trigger] stmts.drop_first()[i]) by {
                assert(stmts.drop_first()[i] == stmts[i + 1]);
            }
            lemma_checked_eval_stmts(c1.declared, d, st1, stmts.drop_first());
        }
    }
}

/// For every program with valid syntax (the parser reports nothing) and no
/// unresolved identifiers (the symbol checker reports nothing): compiling
/// yields zero diagnostics in either pass, so the evaluation gate opens;
/// and the evaluation that then runs can fault neither on an unbound
/// variable nor on an error placeholder — only an arithmetic fault can
/// stop it short of a result.
pub proof fn lemma_valid_program_evaluates(text: Seq<char>)
    requires
        spec_parse_program(program_tokens(text), 0).1.len() == 0,
        check_program(spec_parse_program(program_tokens(text), 0).0).len() == 0,
    ensures
        compile_model(text).1.len() == 0,
        compile_model(text).0 == spec_parse_program(program_tokens(text), 0).0,
        eval_program(compile_model(text).0).fault != Some(EvalFault::UnboundVariable),
        eval_program(compile_model(text).0).fault != Some(EvalFault::InvalidExpression),
{
    lemma_program_tokens_wf(text);
    let toks = program_tokens(text);
    let stmts = spec_parse_program(toks, 0).0;
    crate::syntax_tree::parser::lemma_parse_program_clean(toks, 0);
    assert(check_program(stmts) =~= Seq::<DiagModel>::empty());
    assert(Set::<Seq<char>>::empty().subset_of(initial_eval_model().vars.dom()));
    lemma_checked_eval_stmts(
        Set::<Seq<char>>::empty(),
        Seq::<DiagModel>::empty(),
        initial_eval_model(),
        stmts,
    );
}

} // verus!
