//! The evaluator: a traversal consumer that computes the integer value of
//! the program.
//!
//! Evaluation is specified by the pure functions `eval_expr`, `eval_stmt`
//! and `eval_program` over the model state `EvalModel`.  Division by zero,
//! arithmetic overflow, a negative exponent, an unbound variable and an
//! error placeholder are fatal faults: the fault is recorded and every
//! later step leaves the state unchanged, so evaluation never silently
//! produces a wrong numeric answer.

use vstd::prelude::*;

use crate::syntax_tree::lexer::{SourceCodeSpan, SpanModel, TokenModel};
use crate::syntax_tree::{
    ASTLetStatement, ASTStatement, ASTStatementType, ASTTraverser, BinaryExpression,
    BinaryOperatorType, Expression, ExpressionType, ExprModel, NumberExpression,
    ParenthesizedExpression, StmtModel, UnaryExpression, UnaryOperatorType, VariableExpression,
};

verus! {

/// The fatal evaluation faults.
#[derive(Clone, Copy, Debug, PartialEq, Eq, Structural)]
pub enum EvalFault {
    DivisionByZero,
    Overflow,
    NegativeExponent,
    UnboundVariable,
    InvalidExpression,
}

/// Mathematical model of the evaluator's state: the last computed value,
/// the variable bindings, and the fault, if one has occurred.
pub ghost struct EvalModel {
    pub last: Option<i64>,
    pub vars: Map<Seq<char>, i64>,
    pub fault: Option<EvalFault>,
}

/// Whether a mathematical integer fits in an `i64`.
pub open spec fn in_i64(n: int) -> bool {
    i64::MIN <= n <= i64::MAX
}

/// The left-to-right product `base * base * ...` (`exp` factors), checked
/// against the `i64` range at every step; `None` once any prefix product
/// leaves the range.
pub open spec fn spec_pow_checked(base: i64, exp: nat) -> Option<i64>
    decreases exp,
{
    if exp == 0 {
        Some(1i64)
    } else {
        match spec_pow_checked(base, (exp - 1) as nat) {
            Some(p) => if in_i64(p * base) {
                Some((p * base) as i64)
            } else {
                None
            },
            None => None,
        }
    }
}

/// The result of one unary operation: negation faults only on the minimum
/// value; bitwise complement never faults.
pub open spec fn eval_unary_op(op: UnaryOperatorType, operand: i64) -> Result<i64, EvalFault> {
    match op {
        UnaryOperatorType::MINUS => if operand == i64::MIN {
            Err(EvalFault::Overflow)
        } else {
            Ok((0 - operand) as i64)
        },
        UnaryOperatorType::NOT => Ok(!operand),
    }
}

/// The result of one binary operation.  `+ - *` are checked integer
/// arithmetic; `/` truncates toward zero and faults on a zero divisor;
/// `**` raises to a non-negative exponent and faults on a negative one;
/// `& | ^` are bitwise.
pub open spec fn eval_binary_op(op: BinaryOperatorType, left: i64, right: i64) -> Result<
    i64,
    EvalFault,
> {
    match op {
        BinaryOperatorType::PLUS => if in_i64(left + right) {
            Ok((left + right) as i64)
        } else {
            Err(EvalFault::Overflow)
        },
        BinaryOperatorType::MINUS => if in_i64(left - right) {
            Ok((left - right) as i64)
        } else {
            Err(EvalFault::Overflow)
        },
        BinaryOperatorType::MULTIPLY => if in_i64(left * right) {
            Ok((left * right) as i64)
        } else {
            Err(EvalFault::Overflow)
        },
        BinaryOperatorType::DIVIDE => if right == 0 {
            Err(EvalFault::DivisionByZero)
        } else {
            match left.checked_div(right) {
                Some(q) => Ok(q),
                None => Err(EvalFault::Overflow),
            }
        },
        BinaryOperatorType::POWER => if right < 0 {
            Err(EvalFault::NegativeExponent)
        } else {
            match spec_pow_checked(left, right as nat) {
                Some(v) => Ok(v),
                None => Err(EvalFault::Overflow),
            }
        },
        BinaryOperatorType::AND => Ok(left & right),
        BinaryOperatorType::OR => Ok(left | right),
        BinaryOperatorType::XOR => Ok(left ^ right),
    }
}

/// The evaluator's state after one expression.  A fault is sticky: once
/// set, nothing further is computed.  Left operands are evaluated strictly
/// before right operands.
pub open spec fn eval_expr(st: EvalModel, e: ExprModel) -> EvalModel
    decreases e,
{
    if st.fault is Some {
        st
    } else {
        match e {
            ExprModel::Number { value } => EvalModel {
                last: Some(value),
                vars: st.vars,
                fault: st.fault,
            },
            ExprModel::Variable { token } => if st.vars.contains_key(token.span.literal) {
                EvalModel {
                    last: Some(st.vars[token.span.literal]),
                    vars: st.vars,
                    fault: st.fault,
                }
            } else {
                EvalModel {
                    last: st.last,
                    vars: st.vars,
                    fault: Some(EvalFault::UnboundVariable),
                }
            },
            ExprModel::Unary { op, token, operand } => {
                let st1 = eval_expr(st, *operand);
                if st1.fault is Some {
                    st1
                } else {
                    match st1.last {
                        Some(v) => match eval_unary_op(op, v) {
                            Ok(r) => EvalModel { last: Some(r), vars: st1.vars, fault: st1.fault },
                            Err(f) => EvalModel {
                                last: st1.last,
                                vars: st1.vars,
                                fault: Some(f),
                            },
                        },
                        None => EvalModel {
                            last: st1.last,
                            vars: st1.vars,
                            fault: Some(EvalFault::InvalidExpression),
                        },
                    }
                }
            },
            ExprModel::Binary { op, token, left, right } => {
                let st1 = eval_expr(st, *left);
                if st1.fault is Some {
                    st1
                } else {
                    match st1.last {
                        Some(l) => {
                            let st2 = eval_expr(st1, *right);
                            if st2.fault is Some {
                                st2
                            } else {
                                match st2.last {
                                    Some(r) => match eval_binary_op(op, l, r) {
                                        Ok(v) => EvalModel {
                                            last: Some(v),
                                            vars: st2.vars,
                                            fault: st2.fault,
                                        },
                                        Err(f) => EvalModel {
                                            last: st2.last,
                                            vars: st2.vars,
                                            fault: Some(f),
                                        },
                                    },
                                    None => EvalModel {
                                        last: st2.last,
                                        vars: st2.vars,
                                        fault: Some(EvalFault::InvalidExpression),
                                    },
                                }
                            }
                        },
                        None => EvalModel {
                            last: st1.last,
                            vars: st1.vars,
                            fault: Some(EvalFault::InvalidExpression),
                        },
                    }
                }
            },
            ExprModel::Parenthesized { inner } => eval_expr(st, *inner),
            ExprModel::Error { span } => EvalModel {
                last: st.last,
                vars: st.vars,
                fault: Some(EvalFault::InvalidExpression),
            },
        }
    }
}

/// The evaluator's state after one statement: a let statement binds the
/// identifier to the initializer's value; a bare expression statement only
/// sets the value register.
pub open spec fn eval_stmt(st: EvalModel, s: StmtModel) -> EvalModel {
    match s {
        StmtModel::Expression { expr } => eval_expr(st, expr),
        StmtModel::Let { identifier, initializer } => {
            let st1 = eval_expr(st, initializer);
            if st1.fault is Some {
                st1
            } else {
                match st1.last {
                    Some(v) => EvalModel {
                        last: st1.last,
                        vars: st1.vars.insert(identifier.span.literal, v),
                        fault: st1.fault,
                    },
                    None => EvalModel {
                        last: st1.last,
                        vars: st1.vars,
                        fault: Some(EvalFault::InvalidExpression),
                    },
                }
            }
        },
    }
}

/// The evaluator's state after a sequence of statements, in order.
pub open spec fn eval_stmts(st: EvalModel, stmts: Seq<StmtModel>) -> EvalModel
    decreases stmts.len(),
{
    if stmts.len() == 0 {
        st
    } else {
        eval_stmts(eval_stmt(st, stmts[0]), stmts.drop_first())
    }
}

/// The evaluator's starting state: no value, no bindings, no fault.
pub open spec fn initial_eval_model() -> EvalModel {
    EvalModel { last: None, vars: Map::empty(), fault: None }
}

/// The result of evaluating a whole program from the starting state.
pub open spec fn eval_program(stmts: Seq<StmtModel>) -> EvalModel {
    eval_stmts(initial_eval_model(), stmts)
}

/// The bindings a sequence of `(name, value)` entries denotes: a later
/// entry for the same name shadows an earlier one.
pub open spec fn env_model(entries: Seq<(String, i64)>) -> Map<Seq<char>, i64>
    decreases entries.len(),
{
    if entries.len() == 0 {
        Map::empty()
    } else {
        env_model(entries.drop_last()).insert(entries.last().0@, entries.last().1)
    }
}

proof fn lemma_env_model_no_match(entries: Seq<(String, i64)>, key: Seq<char>)
    requires
        forall|k: int| 0 <= k < entries.len() ==> entries[k].0@ != key,
    ensures
        !env_model(entries).contains_key(key),
    decreases entries.len(),
{
    if entries.len() > 0 {
        lemma_env_model_no_match(entries.drop_last(), key);
    }
}

proof fn lemma_env_model_last_match(entries: Seq<(String, i64)>, key: Seq<char>, j: int)
    requires
        0 <= j < entries.len(),
        entries[j].0@ == key,
        forall|k: int| j < k < entries.len() ==> entries[k].0@ != key,
    ensures
        env_model(entries).contains_key(key),
        env_model(entries)[key] == entries[j].1,
    decreases entries.len(),
{
    if j < entries.len() - 1 {
        lemma_env_model_last_match(entries.drop_last(), key, j);
    }
}

/// The result of one unary operation, executably.
fn apply_unary_op(op: UnaryOperatorType, operand: i64) -> (r: Result<i64, EvalFault>)
    ensures
        r == eval_unary_op(op, operand),
{
    match op {
        UnaryOperatorType::MINUS => match (0i64).checked_sub(operand) {
            Some(v) => Ok(v),
            None => Err(EvalFault::Overflow),
        },
        UnaryOperatorType::NOT => Ok(!operand),
    }
}

proof fn lemma_pow_base_zero(exp: nat)
    requires
        exp > 0,
    ensures
        spec_pow_checked(0i64, exp) == Some(0i64),
    decreases exp,
{
    if exp > 1 {
        lemma_pow_base_zero((exp - 1) as nat);
    } else {
        assert(spec_pow_checked(0i64, 0) == Some(1i64));
    }
}

proof fn lemma_pow_base_one(exp: nat)
    ensures
        spec_pow_checked(1i64, exp) == Some(1i64),
    decreases exp,
{
    if exp > 0 {
        lemma_pow_base_one((exp - 1) as nat);
    }
}

proof fn lemma_pow_base_minus_one(exp: nat)
    ensures
        spec_pow_checked(-1i64, exp) == Some(
            if exp % 2 == 0 {
                1i64
            } else {
                -1i64
            },
        ),
    decreases exp,
{
    if exp > 0 {
        lemma_pow_base_minus_one((exp - 1) as nat);
    }
}

proof fn lemma_pow_none_absorbs(base: i64, e1: nat, e2: nat)
    requires
        e1 <= e2,
        spec_pow_checked(base, e1) is None,
    ensures
        spec_pow_checked(base, e2) is None,
    decreases e2,
{
    if e1 < e2 {
        lemma_pow_none_absorbs(base, e1, (e2 - 1) as nat);
    }
}

/// Raises `base` to the power `exp` with a range check at every step; the
/// bases whose powers stay bounded are answered directly, so the loop runs
/// at most once per bit of an `i64`.
fn pow_checked(base: i64, exp: u64) -> (r: Option<i64>)
    ensures
        r == spec_pow_checked(base, exp as nat),
{
    if base == 0 {
        if exp == 0 {
            Some(1)
        } else {
            proof {
                lemma_pow_base_zero(exp as nat);
            }
            Some(0)
        }
    } else if base == 1 {
        proof {
            lemma_pow_base_one(exp as nat);
        }
        Some(1)
    } else if base == -1 {
        proof {
            lemma_pow_base_minus_one(exp as nat);
        }
        if exp % 2 == 0 {
            Some(1)
        } else {
            Some(-1)
        }
    } else {
        let mut acc: i64 = 1;
        let mut i: u64 = 0;
        while i < exp
            invariant
                i <= exp,
                spec_pow_checked(base, i as nat) == Some(acc),
            decreases exp - i,
        {
            match acc.checked_mul(base) {
                Some(v) => {
                    acc = v;
                    i = i + 1;
                },
                None => {
                    proof {
                        lemma_pow_none_absorbs(base, (i + 1) as nat, exp as nat);
                    }
                    return None;
                },
            }
        }
        Some(acc)
    }
}

/// The result of one binary operation, executably.
fn apply_binary_op(op: BinaryOperatorType, left: i64, right: i64) -> (r: Result<i64, EvalFault>)
    ensures
        r == eval_binary_op(op, left, right),
{
    match op {
        BinaryOperatorType::PLUS => match left.checked_add(right) {
            Some(v) => Ok(v),
            None => Err(EvalFault::Overflow),
        },
        BinaryOperatorType::MINUS => match left.checked_sub(right) {
            Some(v) => Ok(v),
            None => Err(EvalFault::Overflow),
        },
        BinaryOperatorType::MULTIPLY => match left.checked_mul(right) {
            Some(v) => Ok(v),
            None => Err(EvalFault::Overflow),
        },
        BinaryOperatorType::DIVIDE => {
            if right == 0 {
                Err(EvalFault::DivisionByZero)
            } else {
                match left.checked_div(right) {
                    Some(q) => Ok(q),
                    None => Err(EvalFault::Overflow),
                }
            }
        },
        BinaryOperatorType::POWER => {
            if right < 0 {
                Err(EvalFault::NegativeExponent)
            } else {
                match pow_checked(left, right as u64) {
                    Some(v) => Ok(v),
                    None => Err(EvalFault::Overflow),
                }
            }
        },
        BinaryOperatorType::AND => Ok(left & right),
        BinaryOperatorType::OR => Ok(left | right),
        BinaryOperatorType::XOR => Ok(left ^ right),
    }
}

/// A traversal consumer that computes the integer value of the program,
/// maintaining the variable environment and a "last computed value"
/// register.
pub struct ASTEvaluator {
    pub last_value: Option<i64>,
    pub variables: Vec<(String, i64)>,
    pub fault: Option<EvalFault>,
}

impl View for ASTEvaluator {
    type V = EvalModel;

    open spec fn view(&self) -> EvalModel {
        EvalModel { last: self.last_value, vars: env_model(self.variables@), fault: self.fault }
    }
}

impl ASTEvaluator {
    pub fn new() -> (r: Self)
        ensures
            r@ == initial_eval_model(),
    {
        let r = ASTEvaluator { last_value: None, variables: Vec::new(), fault: None };
        proof {
            assert(r@.vars =~= Map::<Seq<char>, i64>::empty());
        }
        r
    }

    /// The value bound to `name`, following the latest binding.
    fn lookup_variable(&self, name: &String) -> (r: Option<i64>)
        ensures
            match r {
                Some(v) => self@.vars.contains_key(name@) && self@.vars[name@] == v,
                None => !self@.vars.contains_key(name@),
            },
    {
        let ghost entries = self.variables@;
        let mut i = self.variables.len();
        while i > 0
            invariant
                i <= self.variables.len(),
                entries == self.variables@,
                forall|k: int| i <= k < entries.len() ==> entries[k].0@ != name@,
            decreases i,
        {
            i = i - 1;
            let entry = &self.variables[i];
            if entry.0 == *name {
                proof {
                    lemma_env_model_last_match(entries, name@, i as int);
                }
                return Some(entry.1);
            }
        }
        proof {
            lemma_env_model_no_match(entries, name@);
        }
        None
    }

    /// Binds `name` to `value`; a later binding shadows an earlier one.
    fn bind_variable(&mut self, name: String, value: i64)
        ensures
            final(self)@.vars == old(self)@.vars.insert(name@, value),
            final(self)@.last == old(self)@.last,
            final(self)@.fault == old(self)@.fault,
    {
        self.variables.push((name, value));
        proof {
            assert(self.variables@.drop_last() =~= old(self).variables@);
        }
    }

    /// Evaluates one expression, as `eval_expr` describes.
    pub fn eval_expression(&mut self, expression: &Expression)
        ensures
            final(self)@ == eval_expr(old(self)@, expression@),
        decreases *expression,
    {
        if self.fault.is_some() {
            return ;
        }
        match &expression.kind {
            ExpressionType::NUMBER(number) => {
                self.last_value = Some(number.number);
            },
            ExpressionType::VARIABLE(variable) => {
                match self.lookup_variable(&variable.identifier.span.literal) {
                    Some(value) => {
                        self.last_value = Some(value);
                    },
                    None => {
                        self.fault = Some(EvalFault::UnboundVariable);
                    },
                }
            },
            ExpressionType::UNARY(unary) => {
                self.eval_expression(&unary.operand);
                if self.fault.is_some() {
                    return ;
                }
                match self.last_value {
                    Some(operand) => {
                        match apply_unary_op(unary.operator.kind, operand) {
                            Ok(v) => {
                                self.last_value = Some(v);
                            },
                            Err(f) => {
                                self.fault = Some(f);
                            },
                        }
                    },
                    None => {
                        self.fault = Some(EvalFault::InvalidExpression);
                    },
                }
            },
            ExpressionType::BINARY(binary) => {
                self.eval_expression(&binary.left);
                if self.fault.is_some() {
                    return ;
                }
                let left = match self.last_value {
                    Some(v) => v,
                    None => {
                        self.fault = Some(EvalFault::InvalidExpression);
                        return ;
                    },
                };
                self.eval_expression(&binary.right);
                if self.fault.is_some() {
                    return ;
                }
                let right = match self.last_value {
                    Some(v) => v,
                    None => {
                        self.fault = Some(EvalFault::InvalidExpression);
                        return ;
                    },
                };
                match apply_binary_op(binary.operator.kind, left, right) {
                    Ok(v) => {
                        self.last_value = Some(v);
                    },
                    Err(f) => {
                        self.fault = Some(f);
                    },
                }
            },
            ExpressionType::PARENTHESIZED(parenthesized) => {
                self.eval_expression(&parenthesized.expression);
            },
            ExpressionType::ERROR(span) => {
                self.fault = Some(EvalFault::InvalidExpression);
            },
        }
    }

    /// Evaluates one let statement: the initializer first, then the
    /// binding.
    pub fn eval_let_statement(&mut self, let_statement: &ASTLetStatement)
        ensures
            final(self)@ == eval_stmt(
                old(self)@,
                StmtModel::Let {
                    identifier: let_statement.identifier@,
                    initializer: let_statement.initializer@,
                },
            ),
    {
        if self.fault.is_some() {
            return ;
        }
        self.eval_expression(&let_statement.initializer);
        if self.fault.is_some() {
            return ;
        }
        match self.last_value {
            Some(value) => {
                self.bind_variable(let_statement.identifier.span.literal.clone(), value);
            },
            None => {
                self.fault = Some(EvalFault::InvalidExpression);
            },
        }
    }
}

impl ASTTraverser for ASTEvaluator {
    open spec fn after_let_statement(
        pre: EvalModel,
        identifier: TokenModel,
        initializer: ExprModel,
    ) -> EvalModel {
        eval_stmt(pre, StmtModel::Let { identifier: identifier, initializer: initializer })
    }

    open spec fn after_variable_expression(pre: EvalModel, identifier: TokenModel) -> EvalModel {
        eval_expr(pre, ExprModel::Variable { token: identifier })
    }

    open spec fn after_number_expression(pre: EvalModel, value: i64) -> EvalModel {
        eval_expr(pre, ExprModel::Number { value: value })
    }

    open spec fn after_error(pre: EvalModel, span: SpanModel) -> EvalModel {
        eval_expr(pre, ExprModel::Error { span: span })
    }

    open spec fn after_unary_expression(
        pre: EvalModel,
        op: UnaryOperatorType,
        token: TokenModel,
        operand: ExprModel,
    ) -> EvalModel {
        eval_expr(pre, ExprModel::Unary { op: op, token: token, operand: Box::new(operand) })
    }

    open spec fn after_binary_expression(
        pre: EvalModel,
        op: BinaryOperatorType,
        token: TokenModel,
        left: ExprModel,
        right: ExprModel,
    ) -> EvalModel {
        eval_expr(
            pre,
            ExprModel::Binary { op: op, token: token, left: Box::new(left), right: Box::new(right) },
        )
    }

    open spec fn after_parenthesized_expression(pre: EvalModel, inner: ExprModel) -> EvalModel {
        eval_expr(pre, ExprModel::Parenthesized { inner: Box::new(inner) })
    }

    open spec fn after_statement(pre: EvalModel, s: StmtModel) -> EvalModel {
        eval_stmt(pre, s)
    }

    fn do_visit_statement(&mut self, statement: &ASTStatement) {
        match &statement.kind {
            ASTStatementType::EXPRESSION(expr) => {
                self.eval_expression(expr);
            },
            ASTStatementType::LETSTATEMENT(let_statement) => {
                self.eval_let_statement(let_statement);
            },
        }
    }

    fn goto_statement(&mut self, statement: &ASTStatement) {
        self.do_visit_statement(statement);
    }

    fn expression_dispatch(&mut self, expression: &Expression) {
        self.eval_expression(expression);
    }

    fn goto_expression(&mut self, expression: &Expression) {
        self.eval_expression(expression);
    }

    fn goto_let_statement(&mut self, let_statement: &ASTLetStatement) {
        self.eval_let_statement(let_statement);
    }

    fn goto_variable_expression(&mut self, variable_expression: &VariableExpression) {
        if self.fault.is_some() {
            return ;
        }
        match self.lookup_variable(&variable_expression.identifier.span.literal) {
            Some(value) => {
                self.last_value = Some(value);
            },
            None => {
                self.fault = Some(EvalFault::UnboundVariable);
            },
        }
    }

    fn goto_number_expression(&mut self, number: &NumberExpression) {
        if self.fault.is_some() {
            return ;
        }
        self.last_value = Some(number.number);
    }

    fn goto_error(&mut self, span: &SourceCodeSpan) {
        if self.fault.is_some() {
            return ;
        }
        self.fault = Some(EvalFault::InvalidExpression);
    }

    fn goto_unary_expression(&mut self, unary_expression: &UnaryExpression) {
        if self.fault.is_some() {
            return ;
        }
        self.eval_expression(&unary_expression.operand);
        if self.fault.is_some() {
            return ;
        }
        match self.last_value {
            Some(operand) => {
                match apply_unary_op(unary_expression.operator.kind, operand) {
                    Ok(v) => {
                        self.last_value = Some(v);
                    },
                    Err(f) => {
                        self.fault = Some(f);
                    },
                }
            },
            None => {
                self.fault = Some(EvalFault::InvalidExpression);
            },
        }
    }

    fn goto_binary_expression(&mut self, binary_expression: &BinaryExpression) {
        if self.fault.is_some() {
            return ;
        }
        self.eval_expression(&binary_expression.left);
        if self.fault.is_some() {
            return ;
        }
        let left = match self.last_value {
            Some(v) => v,
            None => {
                self.fault = Some(EvalFault::InvalidExpression);
                return ;
            },
        };
        self.eval_expression(&binary_expression.right);
        if self.fault.is_some() {
            return ;
        }
        let right = match self.last_value {
            Some(v) => v,
            None => {
                self.fault = Some(EvalFault::InvalidExpression);
                return ;
            },
        };
        match apply_binary_op(binary_expression.operator.kind, left, right) {
            Ok(v) => {
                self.last_value = Some(v);
            },
            Err(f) => {
                self.fault = Some(f);
            },
        }
    }

    fn goto_parenthesized_expression(
        &mut self,
        parenthesized_expression: &ParenthesizedExpression,
    ) {
        self.eval_expression(&parenthesized_expression.expression);
    }
}

/// A fault is final: once the state carries one, evaluating further
/// statements leaves it untouched.
pub proof fn lemma_eval_stmts_sticky(st: EvalModel, stmts: Seq<StmtModel>)
    requires
        st.fault is Some,
    ensures
        eval_stmts(st, stmts) == st,
    decreases stmts.len(),
{
    if stmts.len() > 0 {
        match stmts[0] {
            StmtModel::Expression { expr } => {},
            StmtModel::Let { identifier, initializer } => {},
        }
        lemma_eval_stmts_sticky(eval_stmt(st, stmts[0]), stmts.drop_first());
    }
}

/// Walking a tree with the evaluator computes exactly `eval_stmts`.
pub proof fn lemma_visit_is_eval(st: EvalModel, stmts: Seq<StmtModel>)
    ensures
        crate::syntax_tree::visit_transition::<ASTEvaluator>(st, stmts) == eval_stmts(st, stmts),
    decreases stmts.len(),
{
    if stmts.len() > 0 {
        lemma_visit_is_eval(eval_stmt(st, stmts[0]), stmts.drop_first());
    }
}

} // verus!
