//! Evaluation of expressions and statements against a chain of scopes.

use crate::ast::{
    Expression, ExpressionView, Literal, LiteralView, Statement, StatementView, copy_names,
    copy_statements, expr_view, exprs_view, names_view, stmt_view, stmts_view,
};
use crate::environment::{
    Environment, FunctionExpression, Scope, Value, ValueView, define_in, lookup, value_text,
};
use crate::lexer::{TokenType, TokenTypeView};
use vstd::prelude::*;
use vstd::string::*;

verus! {

broadcast use vstd::std_specs::vec::axiom_vec_index_decreases;

/// Why a run stopped.
#[derive(Debug, PartialEq, Eq)]
pub enum RuntimeError {
    /// An operator that is not arithmetic, or an operand that is no number.
    InvalidBinaryOperation,
    /// A division or a remainder by zero.
    DivisionByZero,
    /// A call of a value that is no function, with the value as text.
    NotAFunction { callee: String },
    /// A `return` outside any function.
    UnknownStatement,
    /// An expression that cannot be evaluated.
    UnknownExpression,
    /// A constant declared without a value.
    MissingInitializer,
    /// A result that is no whole number of 64 signed bits, or a negative
    /// exponent.
    NumberOutOfRange,
    /// Expressions, statements and calls nested deeper than the limit.
    DepthExceeded,
    /// A loop that is still going on after the greatest number of rounds.
    LoopLimitExceeded,
}

pub enum RuntimeErrorView {
    InvalidBinaryOperation,
    DivisionByZero,
    NotAFunction { callee: Seq<char> },
    UnknownStatement,
    UnknownExpression,
    MissingInitializer,
    NumberOutOfRange,
    DepthExceeded,
    LoopLimitExceeded,
}

impl View for RuntimeError {
    type V = RuntimeErrorView;

    open spec fn view(&self) -> RuntimeErrorView {
        match self {
            RuntimeError::InvalidBinaryOperation => RuntimeErrorView::InvalidBinaryOperation,
            RuntimeError::DivisionByZero => RuntimeErrorView::DivisionByZero,
            RuntimeError::NotAFunction { callee } => RuntimeErrorView::NotAFunction {
                callee: callee@,
            },
            RuntimeError::UnknownStatement => RuntimeErrorView::UnknownStatement,
            RuntimeError::UnknownExpression => RuntimeErrorView::UnknownExpression,
            RuntimeError::MissingInitializer => RuntimeErrorView::MissingInitializer,
            RuntimeError::NumberOutOfRange => RuntimeErrorView::NumberOutOfRange,
            RuntimeError::DepthExceeded => RuntimeErrorView::DepthExceeded,
            RuntimeError::LoopLimitExceeded => RuntimeErrorView::LoopLimitExceeded,
        }
    }
}

/// The deepest nesting of expressions, statements and calls that
/// [`Interpreter::new`] allows.
pub const MAX_DEPTH: usize = 256;

/// The greatest number of rounds of one loop. A loop must be seen to end,
/// so its rounds are counted; the nesting depth is not used up by them.
pub const MAX_ROUNDS: usize = 1_000_000;

/// How a statement ends: with nothing, with the value of a `return` that
/// was reached, or with an error.
pub type Flow = Result<Option<ValueView>, RuntimeErrorView>;

/// The truth of a value: a positive number, a non-empty string, `true`, or
/// a function.
pub open spec fn truthy(v: ValueView) -> bool {
    match v {
        ValueView::Number(n) => n > 0,
        ValueView::String(s) => s.len() > 0,
        ValueView::Boolean(b) => b,
        ValueView::Null => false,
        ValueView::Function { .. } => true,
    }
}

pub fn is_truthy(value: &Value) -> (b: bool)
    ensures
        b == truthy(value@),
{
    match value {
        Value::Number(n) => *n > 0,
        Value::String(s) => s.as_str().unicode_len() > 0,
        Value::Boolean(b) => *b,
        Value::Null => false,
        Value::Function(_) => true,
    }
}

/// The value of a literal; the void literal counts as null.
pub open spec fn literal_value(l: LiteralView) -> ValueView {
    match l {
        LiteralView::Number(n) => ValueView::Number(n),
        LiteralView::String(s) => ValueView::String(s),
        LiteralView::Boolean(b) => ValueView::Boolean(b),
        LiteralView::Null => ValueView::Null,
        LiteralView::Void => ValueView::Null,
    }
}

/// The number `x` as a value, where it fits.
pub open spec fn number(x: int) -> Result<ValueView, RuntimeErrorView> {
    if i64::MIN <= x <= i64::MAX {
        Ok(ValueView::Number(x))
    } else {
        Err(RuntimeErrorView::NumberOutOfRange)
    }
}

pub open spec fn magnitude(x: int) -> int {
    if x >= 0 {
        x
    } else {
        -x
    }
}

/// The quotient of `a` by `b`, rounded towards zero.
pub open spec fn truncated_quotient(a: int, b: int) -> int {
    if (a >= 0) == (b >= 0) {
        magnitude(a) / magnitude(b)
    } else {
        -(magnitude(a) / magnitude(b))
    }
}

/// The remainder that goes with [`truncated_quotient`]: it has the sign of `a`.
pub open spec fn truncated_remainder(a: int, b: int) -> int {
    if a >= 0 {
        magnitude(a) % magnitude(b)
    } else {
        -(magnitude(a) % magnitude(b))
    }
}

/// `a` to the power `b` by repeated multiplication; nothing where a product
/// on the way does not fit.
pub open spec fn checked_power(a: int, b: nat) -> Option<int>
    decreases b,
{
    if b == 0 {
        Some(1)
    } else {
        match checked_power(a, (b - 1) as nat) {
            Some(p) => if i64::MIN <= p * a <= i64::MAX {
                Some(p * a)
            } else {
                None
            },
            None => None,
        }
    }
}

/// The power `a ** b`: for an exponent that is not negative, the power
/// where it fits.
pub open spec fn power_result(a: int, b: int) -> Result<ValueView, RuntimeErrorView> {
    if b < 0 {
        Err(RuntimeErrorView::NumberOutOfRange)
    } else {
        match checked_power(a, b as nat) {
            Some(p) => Ok(ValueView::Number(p)),
            None => Err(RuntimeErrorView::NumberOutOfRange),
        }
    }
}

/// The powers of -1, 0 and 1.
pub open spec fn unit_power(a: int, b: nat) -> int {
    if b == 0 {
        1
    } else if a == 0 {
        0
    } else if a == 1 || b % 2 == 0 {
        1
    } else {
        -1
    }
}

/// Two to the power `k`.
pub open spec fn doubling(k: nat) -> int
    decreases k,
{
    if k == 0 {
        1
    } else {
        2 * doubling((k - 1) as nat)
    }
}

/// The result of an arithmetic operator on two numbers.
pub open spec fn arithmetic(op: TokenTypeView, a: int, b: int) -> Result<ValueView, RuntimeErrorView> {
    match op {
        TokenTypeView::Plus => number(a + b),
        TokenTypeView::Minus => number(a - b),
        TokenTypeView::Star => number(a * b),
        TokenTypeView::Power => power_result(a, b),
        TokenTypeView::Percent => if b == 0 {
            Err(RuntimeErrorView::DivisionByZero)
        } else {
            number(truncated_remainder(a, b))
        },
        TokenTypeView::Slash => if b == 0 {
            Err(RuntimeErrorView::DivisionByZero)
        } else {
            number(truncated_quotient(a, b))
        },
        _ => Err(RuntimeErrorView::InvalidBinaryOperation),
    }
}

/// The result of a binary operator: both operands must be numbers.
pub open spec fn binary_result(op: TokenTypeView, left: ValueView, right: ValueView) -> Result<
    ValueView,
    RuntimeErrorView,
> {
    match (left, right) {
        (ValueView::Number(a), ValueView::Number(b)) => arithmetic(op, a, b),
        _ => Err(RuntimeErrorView::InvalidBinaryOperation),
    }
}

/// The result of a unary operator: `!` negates the truth of its operand;
/// any other negates a number, and gives -1 for what is no number.
pub open spec fn unary_result(operator: Seq<char>, v: ValueView) -> Result<ValueView, RuntimeErrorView> {
    if operator == "!"@ {
        Ok(ValueView::Boolean(!truthy(v)))
    } else {
        match v {
            ValueView::Number(n) => number(-n),
            _ => Ok(ValueView::Number(-1)),
        }
    }
}

/// The value of an expression in a chain of scopes, with `depth` levels of
/// nesting left.
pub open spec fn eval_expr(env: Seq<Scope>, e: ExpressionView, depth: nat) -> Result<
    ValueView,
    RuntimeErrorView,
>
    decreases depth, 0nat,
{
    if depth == 0 {
        Err(RuntimeErrorView::DepthExceeded)
    } else {
        let below = (depth - 1) as nat;
        match e {
            ExpressionView::Literal(l) => Ok(literal_value(l)),
            ExpressionView::Grouping(inner) => eval_expr(env, *inner, below),
            ExpressionView::Unary { operator, right } => match eval_expr(env, *right, below) {
                Err(x) => Err(x),
                Ok(v) => unary_result(operator, v),
            },
            ExpressionView::Binary { left, operator, right } => match eval_expr(env, *left, below) {
                Err(x) => Err(x),
                Ok(l) => match eval_expr(env, *right, below) {
                    Err(x) => Err(x),
                    Ok(r) => binary_result(operator, l, r),
                },
            },
            ExpressionView::Variable(name) => match lookup(env, name) {
                Some(v) => Ok(v),
                None => Ok(ValueView::Null),
            },
            ExpressionView::Call { callee, arguments } => match eval_expr(env, *callee, below) {
                Err(x) => Err(x),
                Ok(ValueView::Function { parameters, body }) => call_function(
                    env,
                    parameters,
                    body,
                    arguments,
                    below,
                ),
                Ok(other) => Err(RuntimeErrorView::NotAFunction { callee: value_text(other) }),
            },
            _ => Err(RuntimeErrorView::UnknownExpression),
        }
    }
}

/// The result of a call: in a new scope the arguments are evaluated and
/// bound, then the statements of the body run up to the first `return`
/// reached. Without one the call gives null.
pub open spec fn call_function(
    env: Seq<Scope>,
    parameters: Seq<Seq<char>>,
    body: Seq<StatementView>,
    arguments: Seq<ExpressionView>,
    depth: nat,
) -> Result<ValueView, RuntimeErrorView>
    decreases depth, arguments.len() + body.len() + 3,
{
    match bind_arguments(env.push(Map::empty()), parameters, arguments, 0, depth) {
        Err(x) => Err(x),
        Ok(inner) => match run_block(inner, body, 0, depth).1 {
            Err(x) => Err(x),
            Ok(Some(v)) => Ok(v),
            Ok(None) => Ok(ValueView::Null),
        },
    }
}

/// The scopes after the arguments from `i` on are evaluated, from left to
/// right, each in the scopes that the ones before it left, and bound to the
/// parameter at its place. An argument without a parameter is evaluated and
/// dropped.
pub open spec fn bind_arguments(
    env: Seq<Scope>,
    parameters: Seq<Seq<char>>,
    arguments: Seq<ExpressionView>,
    i: int,
    depth: nat,
) -> Result<Seq<Scope>, RuntimeErrorView>
    decreases depth, arguments.len() - i + 1,
{
    if i < 0 || i >= arguments.len() {
        Ok(env)
    } else {
        match eval_expr(env, arguments[i], depth) {
            Err(x) => Err(x),
            Ok(v) => bind_arguments(
                if i < parameters.len() {
                    define_in(env, parameters[i], v)
                } else {
                    env
                },
                parameters,
                arguments,
                i + 1,
                depth,
            ),
        }
    }
}

/// What a statement leaves: the scopes, whether it failed or not, and how
/// it ended. The value of a `return` ends every block and loop around the
/// statement, up to the body of the function that is being called. A
/// declaration that fails defines nothing.
pub open spec fn exec_stmt(env: Seq<Scope>, s: StatementView, depth: nat) -> (Seq<Scope>, Flow)
    decreases depth, 0nat,
{
    if depth == 0 {
        (env, Err(RuntimeErrorView::DepthExceeded))
    } else {
        let below = (depth - 1) as nat;
        match s {
            StatementView::Expression(e) => match eval_expr(env, e, below) {
                Err(x) => (env, Err(x)),
                Ok(_) => (env, Ok(None)),
            },
            StatementView::VariableDeclaration { name, initializer, can_reassign } => match initializer {
                Some(e) => match eval_expr(env, e, below) {
                    Err(x) => (env, Err(x)),
                    Ok(v) => (define_in(env, name, v), Ok(None)),
                },
                None => if can_reassign {
                    (define_in(env, name, ValueView::Null), Ok(None))
                } else {
                    (env, Err(RuntimeErrorView::MissingInitializer))
                },
            },
            StatementView::FunctionDeclaration { name, parameters, body } => (
                define_in(env, name, ValueView::Function { parameters, body }),
                Ok(None),
            ),
            StatementView::Block(statements) => {
                let inner = run_block(env.push(Map::empty()), statements, 0, below);
                (inner.0.drop_last(), inner.1)
            },
            StatementView::If { condition, then_branch, else_branch } => match eval_expr(
                env,
                condition,
                below,
            ) {
                Err(x) => (env, Err(x)),
                Ok(v) => if truthy(v) {
                    exec_stmt(env, *then_branch, below)
                } else {
                    match else_branch {
                        Some(otherwise) => exec_stmt(env, *otherwise, below),
                        None => (env, Ok(None)),
                    }
                },
            },
            StatementView::While { condition, body } => run_while(
                env,
                condition,
                *body,
                below,
                MAX_ROUNDS as nat,
            ),
            StatementView::Return(value) => match value {
                Some(e) => match eval_expr(env, e, below) {
                    Err(x) => (env, Err(x)),
                    Ok(v) => (env, Ok(Some(v))),
                },
                None => (env, Ok(Some(ValueView::Null))),
            },
        }
    }
}

/// What a loop leaves that may still run `rounds` rounds: the condition is
/// evaluated, and while it is true the body runs and the condition is
/// evaluated again. Every round has the same depth of nesting left.
pub open spec fn run_while(
    env: Seq<Scope>,
    condition: ExpressionView,
    body: StatementView,
    depth: nat,
    rounds: nat,
) -> (Seq<Scope>, Flow)
    decreases depth, rounds + 1,
{
    match eval_expr(env, condition, depth) {
        Err(x) => (env, Err(x)),
        Ok(v) => if !truthy(v) {
            (env, Ok(None))
        } else if rounds == 0 {
            (env, Err(RuntimeErrorView::LoopLimitExceeded))
        } else {
            let round = exec_stmt(env, body, depth);
            match round.1 {
                Ok(None) => run_while(round.0, condition, body, depth, (rounds - 1) as nat),
                _ => round,
            }
        },
    }
}

/// What the statements from `i` on leave, one after the other, up to the
/// first that fails or reaches a `return`.
pub open spec fn run_block(env: Seq<Scope>, statements: Seq<StatementView>, i: int, depth: nat) -> (
    Seq<Scope>,
    Flow,
)
    decreases depth, statements.len() - i + 1,
{
    if i < 0 || i >= statements.len() {
        (env, Ok(None))
    } else {
        let first = exec_stmt(env, statements[i], depth);
        match first.1 {
            Ok(None) => run_block(first.0, statements, i + 1, depth),
            _ => first,
        }
    }
}

/// The scopes after the statements of a program from `i` on, and its last
/// value or the error of the statement at which it stopped. An expression
/// statement gives the last value, but for the void literal, which leaves
/// it as it is. A `return` outside any function is an error. What the
/// statements before a failing one defined stays defined.
pub open spec fn run_program(
    env: Seq<Scope>,
    statements: Seq<StatementView>,
    i: int,
    last: Option<ValueView>,
    depth: nat,
) -> (Seq<Scope>, Flow)
    decreases statements.len() - i,
{
    if i < 0 || i >= statements.len() {
        (env, Ok(last))
    } else {
        match statements[i] {
            StatementView::Expression(ExpressionView::Literal(LiteralView::Void)) => run_program(
                env,
                statements,
                i + 1,
                last,
                depth,
            ),
            StatementView::Expression(e) => match eval_expr(env, e, depth) {
                Err(x) => (env, Err(x)),
                Ok(v) => run_program(env, statements, i + 1, Some(v), depth),
            },
            s => {
                let one = exec_stmt(env, s, depth);
                match one.1 {
                    Err(x) => (one.0, Err(x)),
                    Ok(Some(_)) => (one.0, Err(RuntimeErrorView::UnknownStatement)),
                    Ok(None) => run_program(one.0, statements, i + 1, last, depth),
                }
            },
        }
    }
}

/// A literal evaluates to its value, whatever the scopes hold and however
/// often it is evaluated.
pub proof fn lemma_literal_evaluation(
    first: Seq<Scope>,
    second: Seq<Scope>,
    literal: LiteralView,
    depth: nat,
    other_depth: nat,
)
    requires
        depth > 0,
        other_depth > 0,
    ensures
        eval_expr(first, ExpressionView::Literal(literal), depth) == Ok::<ValueView, RuntimeErrorView>(
            literal_value(literal),
        ),
        eval_expr(first, ExpressionView::Literal(literal), depth) == eval_expr(
            second,
            ExpressionView::Literal(literal),
            other_depth,
        ),
{
}

/// A statement changes no scope but the innermost, whether it fails or
/// not.
pub proof fn lemma_statement_keeps_outer_scopes(env: Seq<Scope>, s: StatementView, depth: nat)
    requires
        env.len() > 0,
    ensures
        exec_stmt(env, s, depth).0.len() == env.len(),
        exec_stmt(env, s, depth).0.drop_last() == env.drop_last(),
    decreases depth, 1nat,
{
    if depth > 0 {
        match s {
            StatementView::VariableDeclaration { name, initializer, can_reassign } => {
                assert(exec_stmt(env, s, depth).0.drop_last() =~= env.drop_last());
            },
            StatementView::FunctionDeclaration { name, parameters, body } => {
                assert(exec_stmt(env, s, depth).0.drop_last() =~= env.drop_last());
            },
            StatementView::Block(statements) => {
                lemma_block_restores_scopes(env, statements, depth);
            },
            StatementView::If { condition, then_branch, else_branch } => {
                lemma_statement_keeps_outer_scopes(env, *then_branch, (depth - 1) as nat);
                match else_branch {
                    Some(otherwise) => {
                        lemma_statement_keeps_outer_scopes(env, *otherwise, (depth - 1) as nat);
                    },
                    None => {},
                }
            },
            StatementView::While { condition, body } => {
                lemma_loop_keeps_outer_scopes(
                    env,
                    condition,
                    *body,
                    (depth - 1) as nat,
                    MAX_ROUNDS as nat,
                );
            },
            _ => {},
        }
    }
}

/// A loop changes no scope but the innermost.
pub proof fn lemma_loop_keeps_outer_scopes(
    env: Seq<Scope>,
    condition: ExpressionView,
    body: StatementView,
    depth: nat,
    rounds: nat,
)
    requires
        env.len() > 0,
    ensures
        run_while(env, condition, body, depth, rounds).0.len() == env.len(),
        run_while(env, condition, body, depth, rounds).0.drop_last() == env.drop_last(),
    decreases depth, rounds + 2,
{
    lemma_statement_keeps_outer_scopes(env, body, depth);
    if rounds > 0 {
        lemma_loop_keeps_outer_scopes(
            exec_stmt(env, body, depth).0,
            condition,
            body,
            depth,
            (rounds - 1) as nat,
        );
    }
}

/// The statements of a block change no scope but the innermost.
pub proof fn lemma_statements_keep_outer_scopes(
    env: Seq<Scope>,
    statements: Seq<StatementView>,
    i: int,
    depth: nat,
)
    requires
        env.len() > 0,
    ensures
        run_block(env, statements, i, depth).0.len() == env.len(),
        run_block(env, statements, i, depth).0.drop_last() == env.drop_last(),
    decreases depth, statements.len() - i + 2,
{
    if 0 <= i < statements.len() {
        lemma_statement_keeps_outer_scopes(env, statements[i], depth);
        lemma_statements_keep_outer_scopes(
            exec_stmt(env, statements[i], depth).0,
            statements,
            i + 1,
            depth,
        );
    }
}

/// A block leaves every scope as it found it, however it ends: what it
/// declares is gone, and what it shadows is back.
pub proof fn lemma_block_restores_scopes(
    env: Seq<Scope>,
    statements: Seq<StatementView>,
    depth: nat,
)
    requires
        env.len() > 0,
    ensures
        exec_stmt(env, StatementView::Block(statements), depth).0 == env,
    decreases depth, 0nat,
{
    if depth > 0 {
        let fresh = env.push(Map::<Seq<char>, ValueView>::empty());
        lemma_statements_keep_outer_scopes(fresh, statements, 0, (depth - 1) as nat);
        assert(fresh.drop_last() =~= env);
    }
}

/// A statement that fails leaves every scope as it found it, unless it is
/// a conditional or a loop, whose statements may have run before the
/// failure.
pub proof fn lemma_failure_changes_nothing(env: Seq<Scope>, s: StatementView, depth: nat)
    requires
        env.len() > 0,
        !(s is If),
        !(s is While),
        exec_stmt(env, s, depth).1 is Err,
    ensures
        exec_stmt(env, s, depth).0 == env,
{
    if depth > 0 {
        match s {
            StatementView::Block(statements) => {
                lemma_block_restores_scopes(env, statements, depth);
            },
            _ => {},
        }
    }
}

/// A constant declared without a value fails and defines nothing.
pub proof fn lemma_constant_needs_value(env: Seq<Scope>, name: Seq<char>, depth: nat)
    requires
        depth > 0,
    ensures
        exec_stmt(
            env,
            StatementView::VariableDeclaration { name, initializer: None, can_reassign: false },
            depth,
        ) == (env, Err::<Option<ValueView>, RuntimeErrorView>(RuntimeErrorView::MissingInitializer)),
{
}

/// Division fails exactly where the divisor is zero or the quotient does
/// not fit, which is for the least number divided by -1 alone. Else it
/// gives the quotient rounded towards zero.
pub proof fn lemma_division(a: int, b: int)
    requires
        i64::MIN <= a <= i64::MAX,
        i64::MIN <= b <= i64::MAX,
    ensures
        b == 0 <==> arithmetic(TokenTypeView::Slash, a, b) == Err::<ValueView, RuntimeErrorView>(
            RuntimeErrorView::DivisionByZero,
        ),
        (a == i64::MIN && b == -1) <==> arithmetic(TokenTypeView::Slash, a, b) == Err::<
            ValueView,
            RuntimeErrorView,
        >(RuntimeErrorView::NumberOutOfRange),
        b != 0 && !(a == i64::MIN && b == -1) ==> arithmetic(TokenTypeView::Slash, a, b) == Ok::<
            ValueView,
            RuntimeErrorView,
        >(ValueView::Number(truncated_quotient(a, b))),
        b != 0 ==> a == truncated_quotient(a, b) * b + truncated_remainder(a, b),
        b != 0 ==> magnitude(truncated_remainder(a, b)) < magnitude(b),
{
    if b != 0 {
        let m = magnitude(a);
        let n = magnitude(b);
        let q = m / n;
        assert(0 <= q <= m && m == q * n + m % n && 0 <= m % n < n && (n >= 2 && m > 0 ==> q < m)
            && (n == 1 ==> q == m)) by (nonlinear_arith)
            requires
                m >= 0,
                n >= 1,
                q == m / n,
        ;
        assert(a == truncated_quotient(a, b) * b + truncated_remainder(a, b)) by (nonlinear_arith)
            requires
                m == q * n + m % n,
                m == magnitude(a),
                n == magnitude(b),
                q == m / n,
                b != 0,
        ;
    }
}

/// The text of a result that a function of the interpreter gives.
pub open spec fn flow_view(r: Result<Option<Value>, RuntimeError>) -> Flow {
    match r {
        Ok(v) => Ok(optional_value_view(v)),
        Err(e) => Err(e@),
    }
}

pub open spec fn optional_value_view(v: Option<Value>) -> Option<ValueView> {
    match v {
        Some(v) => Some(v@),
        None => None,
    }
}


/// A number and its sign as an unsigned magnitude.
pub fn magnitude_of(x: i64) -> (m: u64)
    ensures
        m == magnitude(x as int),
{
    if x >= 0 {
        x as u64
    } else {
        (-(x + 1)) as u64 + 1
    }
}

/// The number with the magnitude `m` and the sign given, where it fits.
pub fn signed(m: u64, negative: bool) -> (r: Result<Value, RuntimeError>)
    ensures
        match r {
            Ok(v) => number(if negative { -(m as int) } else { m as int }) == Ok::<ValueView, RuntimeErrorView>(v@),
            Err(e) => number(if negative { -(m as int) } else { m as int }) == Err::<ValueView, RuntimeErrorView>(e@),
        },
{
    if negative {
        if m == 0 {
            Ok(Value::Number(0))
        } else if m <= 0x8000_0000_0000_0000u64 {
            Ok(Value::Number(-((m - 1) as i64) - 1))
        } else {
            Err(RuntimeError::NumberOutOfRange)
        }
    } else if m <= 0x7fff_ffff_ffff_ffffu64 {
        Ok(Value::Number(m as i64))
    } else {
        Err(RuntimeError::NumberOutOfRange)
    }
}

/// Once a power does not fit, no higher power does.
pub proof fn lemma_power_stays_none(a: int, k: nat, b: nat)
    requires
        k <= b,
        checked_power(a, k) is None,
    ensures
        checked_power(a, b) is None,
    decreases b,
{
    if k < b {
        lemma_power_stays_none(a, k, (b - 1) as nat);
    }
}

/// The powers of -1, 0 and 1 always fit.
pub proof fn lemma_unit_power(a: int, b: nat)
    requires
        -1 <= a <= 1,
    ensures
        checked_power(a, b) == Some(unit_power(a, b)),
    decreases b,
{
    if b > 0 {
        lemma_unit_power(a, (b - 1) as nat);
        let p = unit_power(a, (b - 1) as nat);
        assert(p * a == unit_power(a, b)) by (nonlinear_arith)
            requires
                -1 <= a <= 1,
                -1 <= p <= 1,
                p == unit_power(a, (b - 1) as nat),
                b > 0,
        ;
    }
}

/// A power of a number other than -1, 0 and 1 is at least as far from
/// zero as the same power of two.
pub proof fn lemma_power_grows(a: int, k: nat)
    requires
        a >= 2 || a <= -2,
    ensures
        match checked_power(a, k) {
            Some(p) => magnitude(p) >= doubling(k),
            None => true,
        },
    decreases k,
{
    if k > 0 {
        lemma_power_grows(a, (k - 1) as nat);
        match checked_power(a, (k - 1) as nat) {
            Some(p) => {
                let m = doubling((k - 1) as nat);
                assert(magnitude(p * a) >= 2 * m) by (nonlinear_arith)
                    requires
                        a >= 2 || a <= -2,
                        magnitude(p) >= m,
                ;
            },
            None => {},
        }
    }
}

/// No 64th or higher power of a number other than -1, 0 and 1 fits.
pub proof fn lemma_high_power_overflows(a: int, b: nat)
    requires
        a >= 2 || a <= -2,
        b >= 64,
    ensures
        checked_power(a, b) is None,
{
    lemma_power_grows(a, 64);
    assert(doubling(64) == 0x1_0000_0000_0000_0000) by {
        reveal_with_fuel(doubling, 65);
    }
    lemma_power_stays_none(a, 64, b);
}

/// The power `a ** b`.
pub fn power(a: i64, b: i64) -> (r: Result<Value, RuntimeError>)
    ensures
        match r {
            Ok(v) => power_result(a as int, b as int) == Ok::<ValueView, RuntimeErrorView>(v@),
            Err(e) => power_result(a as int, b as int) == Err::<ValueView, RuntimeErrorView>(e@),
        },
{
    if b < 0 {
        return Err(RuntimeError::NumberOutOfRange);
    }
    if a == 0 || a == 1 || a == -1 {
        proof {
            lemma_unit_power(a as int, b as nat);
        }
        let unit: i64 = if b == 0 {
            1
        } else if a == 0 {
            0
        } else if a == 1 || (b as u64) % 2 == 0 {
            1
        } else {
            -1
        };
        return Ok(Value::Number(unit));
    }
    if b > 63 {
        proof {
            lemma_high_power_overflows(a as int, b as nat);
        }
        return Err(RuntimeError::NumberOutOfRange);
    }
    let mut acc: i64 = 1;
    let mut k: i64 = 0;
    while k < b
        invariant
            0 <= k <= b <= 63,
            checked_power(a as int, k as nat) == Some(acc as int),
        decreases b - k,
    {
        match acc.checked_mul(a) {
            Some(next) => {
                acc = next;
            },
            None => {
                proof {
                    assert(checked_power(a as int, (k + 1) as nat) is None);
                    lemma_power_stays_none(a as int, (k + 1) as nat, b as nat);
                }
                return Err(RuntimeError::NumberOutOfRange);
            },
        }
        k += 1;
    }
    Ok(Value::Number(acc))
}

/// The value of a checked operation.
pub fn number_or_error(x: Option<i64>) -> (r: Result<Value, RuntimeError>)
    ensures
        match x {
            Some(n) => r == Ok::<Value, RuntimeError>(Value::Number(n)),
            None => r == Err::<Value, RuntimeError>(RuntimeError::NumberOutOfRange),
        },
{
    match x {
        Some(n) => Ok(Value::Number(n)),
        None => Err(RuntimeError::NumberOutOfRange),
    }
}

/// Applies a binary operator to two values.
pub fn apply_binary(operator: &TokenType, left: &Value, right: &Value) -> (r: Result<
    Value,
    RuntimeError,
>)
    ensures
        match r {
            Ok(v) => binary_result(operator@, left@, right@) == Ok::<ValueView, RuntimeErrorView>(v@),
            Err(e) => binary_result(operator@, left@, right@) == Err::<ValueView, RuntimeErrorView>(e@),
        },
{
    match (left, right) {
        (Value::Number(a), Value::Number(b)) => {
            let a: i64 = *a;
            let b: i64 = *b;
            match operator {
                TokenType::Plus => number_or_error(a.checked_add(b)),
                TokenType::Minus => number_or_error(a.checked_sub(b)),
                TokenType::Star => number_or_error(a.checked_mul(b)),
                TokenType::Power => power(a, b),
                TokenType::Percent => {
                    if b == 0 {
                        Err(RuntimeError::DivisionByZero)
                    } else {
                        signed(magnitude_of(a) % magnitude_of(b), a < 0)
                    }
                },
                TokenType::Slash => {
                    if b == 0 {
                        Err(RuntimeError::DivisionByZero)
                    } else {
                        signed(magnitude_of(a) / magnitude_of(b), (a >= 0) != (b >= 0))
                    }
                },
                _ => Err(RuntimeError::InvalidBinaryOperation),
            }
        },
        _ => Err(RuntimeError::InvalidBinaryOperation),
    }
}

/// Applies a unary operator to a value.
pub fn apply_unary(operator: &String, value: &Value) -> (r: Result<Value, RuntimeError>)
    ensures
        match r {
            Ok(v) => unary_result(operator@, value@) == Ok::<ValueView, RuntimeErrorView>(v@),
            Err(e) => unary_result(operator@, value@) == Err::<ValueView, RuntimeErrorView>(e@),
        },
{
    if operator.eq(&String::from_str("!")) {
        Ok(Value::Boolean(!is_truthy(value)))
    } else {
        match value {
            Value::Number(n) => number_or_error(0i64.checked_sub(*n)),
            _ => Ok(Value::Number(-1)),
        }
    }
}

/// The value of a literal.
pub fn literal_to_value(literal: &Literal) -> (v: Value)
    ensures
        v@ == literal_value(literal@),
{
    match literal {
        Literal::Number(n) => Value::Number(*n),
        Literal::String(s) => Value::String(s.clone()),
        Literal::Boolean(b) => Value::Boolean(*b),
        Literal::Null => Value::Null,
        Literal::Void => Value::Null,
    }
}

/// Evaluates statements against a chain of scopes that starts with the
/// global one.
pub struct Interpreter {
    environment: Environment,
    depth_limit: usize,
}

impl Interpreter {
    /// The chain of scopes, the global one first.
    pub closed spec fn scopes(&self) -> Seq<Scope> {
        self.environment.scopes()
    }

    /// The deepest nesting that a run may reach.
    pub closed spec fn depth_limit(&self) -> nat {
        self.depth_limit as nat
    }

    /// An interpreter always holds the global scope.
    pub proof fn lemma_scopes_nonempty(&self)
        ensures
            self.scopes().len() >= 1,
    {
        self.environment.lemma_scopes_nonempty();
    }

    pub fn new() -> (interpreter: Self)
        ensures
            interpreter.scopes() == seq![Map::<Seq<char>, ValueView>::empty()],
            interpreter.depth_limit() == MAX_DEPTH,
    {
        Self { environment: Environment::new(), depth_limit: MAX_DEPTH }
    }

    /// Runs a program. Gives the value of its last expression statement
    /// that is not the void literal, if there is one. The global scope
    /// keeps what the statements defined, also those before one that
    /// failed; the failing statement itself defines nothing.
    #[verifier::loop_isolation(false)]
    pub fn interpret(&mut self, statements: Vec<Statement>) -> (r: Result<
        Option<Value>,
        RuntimeError,
    >)
        ensures
            final(self).depth_limit() == old(self).depth_limit(),
            final(self).scopes().len() == old(self).scopes().len(),
            run_program(old(self).scopes(), stmts_view(statements@), 0, None, old(self).depth_limit())
                == (final(self).scopes(), flow_view(r)),
    {
        let ghost start = self.scopes();
        let ghost program = stmts_view(statements@);
        let depth = self.depth_limit;
        let mut last: Option<Value> = None;
        let mut i: usize = 0;
        while i < statements.len()
            invariant
                i <= statements.len(),
                self.depth_limit == depth,
                program == stmts_view(statements@),
                self.scopes().len() == start.len(),
                run_program(start, program, 0, None, depth as nat) == run_program(
                    self.scopes(),
                    program,
                    i as int,
                    optional_value_view(last),
                    depth as nat,
                ),
            decreases statements.len() - i,
        {
            let ghost before = self.scopes();
            let ghost earlier = optional_value_view(last);
            assert(program[i as int] == stmt_view(statements@[i as int]));
            match &statements[i] {
                Statement::Expression(Expression::Literal(Literal::Void)) => {
                    assert(expr_view(Expression::Literal(Literal::Void)) == ExpressionView::Literal(
                        LiteralView::Void,
                    ));
                    assert(program[i as int] == StatementView::Expression(
                        ExpressionView::Literal(LiteralView::Void),
                    ));
                },
                Statement::Expression(e) => match self.evaluate(e, depth) {
                    Err(x) => {
                        return Err(x);
                    },
                    Ok(v) => {
                        last = Some(v);
                    },
                },
                statement => {
                    let r = self.execute(statement, depth);
                    assert(exec_stmt(before, program[i as int], depth as nat) == (
                        self.scopes(),
                        flow_view(r),
                    ));
                    match r {
                        Err(x) => {
                            return Err(x);
                        },
                        Ok(Some(_)) => {
                            return Err(RuntimeError::UnknownStatement);
                        },
                        Ok(None) => {},
                    }
                },
            }
            assert(run_program(before, program, i as int, earlier, depth as nat) == run_program(
                self.scopes(),
                program,
                i + 1,
                optional_value_view(last),
                depth as nat,
            ));
            i += 1;
        }
        Ok(last)
    }

    /// Executes one statement with `depth` levels of nesting left, and gives
    /// the value to return where a `return` was reached. Only the innermost
    /// scope can change; a block leaves every scope as it was, and so does
    /// every statement that fails, but for what ran in a conditional or a
    /// loop before the failure.
    #[verifier::loop_isolation(false)]
    pub fn execute(&mut self, statement: &Statement, depth: usize) -> (r: Result<
        Option<Value>,
        RuntimeError,
    >)
        ensures
            final(self).depth_limit() == old(self).depth_limit(),
            final(self).scopes().len() == old(self).scopes().len(),
            final(self).scopes().drop_last() == old(self).scopes().drop_last(),
            statement is Block ==> final(self).scopes() == old(self).scopes(),
            r is Err && !(statement is If) && !(statement is While) ==> final(self).scopes() == old(
                self,
            ).scopes(),
            exec_stmt(old(self).scopes(), stmt_view(*statement), depth as nat) == (
                final(self).scopes(),
                flow_view(r),
            ),
        decreases depth, 0nat,
    {
        let ghost outer = self.scopes();
        proof {
            self.environment.lemma_scopes_nonempty();
        }
        if depth == 0 {
            return Err(RuntimeError::DepthExceeded);
        }
        match statement {
            Statement::Expression(e) => match self.evaluate(e, depth - 1) {
                Err(x) => Err(x),
                Ok(_) => Ok(None),
            },
            Statement::VariableDeclaration { name, initializer, can_reassign } => match initializer {
                Some(e) => match self.evaluate(e, depth - 1) {
                    Err(x) => Err(x),
                    Ok(v) => {
                        self.environment.define(name.clone(), v);
                        assert(self.scopes().drop_last() =~= outer.drop_last());
                        Ok(None)
                    },
                },
                None => {
                    if *can_reassign {
                        self.environment.define(name.clone(), Value::Null);
                        assert(self.scopes().drop_last() =~= outer.drop_last());
                        Ok(None)
                    } else {
                        Err(RuntimeError::MissingInitializer)
                    }
                },
            },
            Statement::FunctionDeclaration { name, parameters, body } => {
                let function = FunctionExpression::new(copy_names(parameters), copy_statements(body));
                let value = Value::Function(Box::new(function));
                assert(stmt_view(*statement)->FunctionDeclaration_body =~= stmts_view(body@));
                self.environment.define(name.clone(), value);
                assert(self.scopes().drop_last() =~= outer.drop_last());
                Ok(None)
            },
            Statement::Block(statements) => {
                let ghost items = stmts_view(statements@);
                assert(stmt_view(*statement)->Block_0 =~= items);
                self.environment.push_scope();
                assert(self.scopes().drop_last() =~= outer);
                let mut i: usize = 0;
                while i < statements.len()
                    invariant
                        i <= statements.len(),
                        self.depth_limit == old(self).depth_limit,
                        self.scopes().len() == outer.len() + 1,
                        self.scopes().drop_last() == outer,
                        run_block(
                            outer.push(Map::<Seq<char>, ValueView>::empty()),
                            items,
                            0,
                            (depth - 1) as nat,
                        ) == run_block(self.scopes(), items, i as int, (depth - 1) as nat),
                    decreases statements.len() - i,
                {
                    match self.execute(&statements[i], depth - 1) {
                        Err(x) => {
                            self.environment.pop_scope();
                            return Err(x);
                        },
                        Ok(Some(v)) => {
                            self.environment.pop_scope();
                            return Ok(Some(v));
                        },
                        Ok(None) => {},
                    }
                    i += 1;
                }
                self.environment.pop_scope();
                Ok(None)
            },
            Statement::If { condition, then_branch, else_branch } => {
                match self.evaluate(condition, depth - 1) {
                    Err(x) => Err(x),
                    Ok(v) => {
                        if is_truthy(&v) {
                            self.execute(then_branch, depth - 1)
                        } else {
                            match else_branch {
                                Some(otherwise) => self.execute(otherwise, depth - 1),
                                None => Ok(None),
                            }
                        }
                    },
                }
            },
            Statement::While { condition, body } => {
                let ghost test = expr_view(*condition);
                let ghost round = stmt_view(**body);
                let mut rounds: usize = MAX_ROUNDS;
                loop
                    invariant
                        depth > 0,
                        self.depth_limit == old(self).depth_limit,
                        self.scopes().len() == outer.len(),
                        self.scopes().drop_last() == outer.drop_last(),
                        run_while(outer, test, round, (depth - 1) as nat, MAX_ROUNDS as nat)
                            == run_while(
                            self.scopes(),
                            test,
                            round,
                            (depth - 1) as nat,
                            rounds as nat,
                        ),
                    decreases rounds,
                {
                    match self.evaluate(condition, depth - 1) {
                        Err(x) => {
                            return Err(x);
                        },
                        Ok(v) => {
                            if !is_truthy(&v) {
                                return Ok(None);
                            }
                        },
                    }
                    if rounds == 0 {
                        return Err(RuntimeError::LoopLimitExceeded);
                    }
                    match self.execute(body, depth - 1) {
                        Err(x) => {
                            return Err(x);
                        },
                        Ok(Some(v)) => {
                            return Ok(Some(v));
                        },
                        Ok(None) => {},
                    }
                    rounds -= 1;
                }
            },
            Statement::Return(value) => match value {
                Some(e) => match self.evaluate(e, depth - 1) {
                    Err(x) => Err(x),
                    Ok(v) => Ok(Some(v)),
                },
                None => Ok(Some(Value::Null)),
            },
        }
    }

    /// Evaluates an expression with `depth` levels of nesting left. The
    /// scopes are afterwards what they were: what a call binds or defines
    /// is gone when it returns.
    pub fn evaluate(&mut self, expr: &Expression, depth: usize) -> (r: Result<Value, RuntimeError>)
        ensures
            final(self).depth_limit() == old(self).depth_limit(),
            final(self).scopes() == old(self).scopes(),
            match r {
                Ok(v) => eval_expr(old(self).scopes(), expr_view(*expr), depth as nat) == Ok::<ValueView, RuntimeErrorView>(v@),
                Err(e) => eval_expr(old(self).scopes(), expr_view(*expr), depth as nat) == Err::<ValueView, RuntimeErrorView>(e@),
            },
        decreases depth, 0nat,
    {
        if depth == 0 {
            return Err(RuntimeError::DepthExceeded);
        }
        match expr {
            Expression::Literal(literal) => Ok(literal_to_value(literal)),
            Expression::Grouping(inner) => self.evaluate(inner, depth - 1),
            Expression::Unary { operator, right } => match self.evaluate(right, depth - 1) {
                Err(x) => Err(x),
                Ok(v) => apply_unary(operator, &v),
            },
            Expression::Binary { left, operator, right } => match self.evaluate(left, depth - 1) {
                Err(x) => Err(x),
                Ok(l) => match self.evaluate(right, depth - 1) {
                    Err(x) => Err(x),
                    Ok(r) => apply_binary(operator, &l, &r),
                },
            },
            Expression::Variable(name) => match self.environment.get(name) {
                Some(v) => Ok(v),
                None => Ok(Value::Null),
            },
            Expression::Call { callee, arguments } => match self.evaluate(callee, depth - 1) {
                Err(x) => Err(x),
                Ok(Value::Function(function)) => {
                    assert(expr_view(*expr)->Call_arguments =~= exprs_view(arguments@));
                    self.call(&function, arguments, depth - 1)
                },
                Ok(other) => Err(RuntimeError::NotAFunction { callee: other.to_text() }),
            },
            _ => Err(RuntimeError::UnknownExpression),
        }
    }

    /// Calls a function on arguments that are still to be evaluated.
    #[verifier::loop_isolation(false)]
    pub fn call(
        &mut self,
        function: &FunctionExpression,
        arguments: &Vec<Expression>,
        depth: usize,
    ) -> (r: Result<Value, RuntimeError>)
        ensures
            final(self).depth_limit() == old(self).depth_limit(),
            final(self).scopes() == old(self).scopes(),
            match r {
                Ok(v) => call_function(
                    old(self).scopes(),
                    names_view(function.parameters@),
                    stmts_view(function.body@),
                    exprs_view(arguments@),
                    depth as nat,
                ) == Ok::<ValueView, RuntimeErrorView>(v@),
                Err(e) => call_function(
                    old(self).scopes(),
                    names_view(function.parameters@),
                    stmts_view(function.body@),
                    exprs_view(arguments@),
                    depth as nat,
                ) == Err::<ValueView, RuntimeErrorView>(e@),
            },
        decreases depth, 1nat,
    {
        let ghost outer = self.scopes();
        let ghost names = names_view(function.parameters@);
        let ghost body = stmts_view(function.body@);
        let ghost values = exprs_view(arguments@);
        let ghost fresh = outer.push(Map::<Seq<char>, ValueView>::empty());
        proof {
            self.environment.lemma_scopes_nonempty();
        }
        self.environment.push_scope();
        assert(self.scopes().drop_last() =~= outer);
        let mut i: usize = 0;
        while i < arguments.len()
            invariant
                i <= arguments.len(),
                self.depth_limit == old(self).depth_limit,
                self.scopes().len() == outer.len() + 1,
                self.scopes().drop_last() == outer,
                bind_arguments(fresh, names, values, 0, depth as nat) == bind_arguments(
                    self.scopes(),
                    names,
                    values,
                    i as int,
                    depth as nat,
                ),
            decreases arguments.len() - i,
        {
            match self.evaluate(&arguments[i], depth) {
                Err(x) => {
                    self.environment.pop_scope();
                    return Err(x);
                },
                Ok(v) => {
                    if i < function.parameters.len() {
                        let ghost before = self.scopes();
                        self.environment.define(function.parameters[i].clone(), v);
                        assert(self.scopes().drop_last() =~= before.drop_last());
                    }
                },
            }
            i += 1;
        }
        let ghost inner = self.scopes();
        let mut j: usize = 0;
        while j < function.body.len()
            invariant
                j <= function.body.len(),
                self.depth_limit == old(self).depth_limit,
                self.scopes().len() == outer.len() + 1,
                self.scopes().drop_last() == outer,
                run_block(inner, body, 0, depth as nat) == run_block(
                    self.scopes(),
                    body,
                    j as int,
                    depth as nat,
                ),
            decreases function.body.len() - j,
        {
            match self.execute(&function.body[j], depth) {
                Err(x) => {
                    self.environment.pop_scope();
                    return Err(x);
                },
                Ok(Some(v)) => {
                    self.environment.pop_scope();
                    return Ok(v);
                },
                Ok(None) => {},
            }
            j += 1;
        }
        self.environment.pop_scope();
        Ok(Value::Null)
    }
}

} // verus!
