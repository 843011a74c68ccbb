//! The syntax tree: literals, expressions and statements, with their
//! mathematical views and verified copies.

use crate::lexer::{TokenType, TokenTypeView};
use vstd::prelude::*;

verus! {

broadcast use vstd::std_specs::vec::axiom_vec_index_decreases;

/// A literal of the language. `Void` stands for "no value": an empty
/// statement, or the place of an expression that the text does not hold.
#[derive(Debug, PartialEq)]
pub enum Literal {
    Number(i64),
    String(String),
    Boolean(bool),
    Null,
    Void,
}

pub enum LiteralView {
    Number(int),
    String(Seq<char>),
    Boolean(bool),
    Null,
    Void,
}

impl View for Literal {
    type V = LiteralView;

    open spec fn view(&self) -> LiteralView {
        match self {
            Literal::Number(n) => LiteralView::Number(*n as int),
            Literal::String(s) => LiteralView::String(s@),
            Literal::Boolean(b) => LiteralView::Boolean(*b),
            Literal::Null => LiteralView::Null,
            Literal::Void => LiteralView::Void,
        }
    }
}

impl Clone for Literal {
    fn clone(&self) -> (r: Self)
        ensures
            r@ == self@,
    {
        match self {
            Literal::Number(n) => Literal::Number(*n),
            Literal::String(s) => Literal::String(s.clone()),
            Literal::Boolean(b) => Literal::Boolean(*b),
            Literal::Null => Literal::Null,
            Literal::Void => Literal::Void,
        }
    }
}

#[derive(Debug, PartialEq)]
#[allow(inconsistent_fields)]
pub enum Expression {
    Literal(Literal),
    Unary { operator: String, right: Box<Expression> },
    Binary { left: Box<Expression>, operator: TokenType, right: Box<Expression> },
    Grouping(Box<Expression>),
    Variable(String),
    Assignment { name: String, value: Box<Expression> },
    Call { callee: Box<Expression>, arguments: Vec<Expression> },
    Member { object: Box<Expression>, property: String, computed: bool },
    ArrayLiteral(Vec<Expression>),
    ObjectLiteral(Vec<(String, Expression)>),
    /// A function written where an expression stands.
    Function { parameters: Vec<String>, body: Vec<Statement> },
}

#[allow(inconsistent_fields)]
pub enum ExpressionView {
    Literal(LiteralView),
    Unary { operator: Seq<char>, right: Box<ExpressionView> },
    Binary { left: Box<ExpressionView>, operator: TokenTypeView, right: Box<ExpressionView> },
    Grouping(Box<ExpressionView>),
    Variable(Seq<char>),
    Assignment { name: Seq<char>, value: Box<ExpressionView> },
    Call { callee: Box<ExpressionView>, arguments: Seq<ExpressionView> },
    Member { object: Box<ExpressionView>, property: Seq<char>, computed: bool },
    ArrayLiteral(Seq<ExpressionView>),
    ObjectLiteral(Seq<(Seq<char>, ExpressionView)>),
    Function { parameters: Seq<Seq<char>>, body: Seq<StatementView> },
}

/// The mathematical value of an expression tree.
pub open spec fn expr_view(e: Expression) -> ExpressionView
    decreases e,
{
    match e {
        Expression::Literal(l) => ExpressionView::Literal(l@),
        Expression::Unary { operator, right } => ExpressionView::Unary {
            operator: operator@,
            right: Box::new(expr_view(*right)),
        },
        Expression::Binary { left, operator, right } => ExpressionView::Binary {
            left: Box::new(expr_view(*left)),
            operator: operator@,
            right: Box::new(expr_view(*right)),
        },
        Expression::Grouping(inner) => ExpressionView::Grouping(Box::new(expr_view(*inner))),
        Expression::Variable(name) => ExpressionView::Variable(name@),
        Expression::Assignment { name, value } => ExpressionView::Assignment {
            name: name@,
            value: Box::new(expr_view(*value)),
        },
        Expression::Call { callee, arguments } => ExpressionView::Call {
            callee: Box::new(expr_view(*callee)),
            arguments: Seq::new(
                arguments@.len(),
                |i: int|
                    if 0 <= i < arguments@.len() {
                        expr_view(arguments@[i])
                    } else {
                        ExpressionView::Literal(LiteralView::Void)
                    },
            ),
        },
        Expression::Member { object, property, computed } => ExpressionView::Member {
            object: Box::new(expr_view(*object)),
            property: property@,
            computed,
        },
        Expression::ArrayLiteral(items) => ExpressionView::ArrayLiteral(
            Seq::new(
                items@.len(),
                |i: int|
                    if 0 <= i < items@.len() {
                        expr_view(items@[i])
                    } else {
                        ExpressionView::Literal(LiteralView::Void)
                    },
            ),
        ),
        Expression::ObjectLiteral(pairs) => ExpressionView::ObjectLiteral(
            Seq::new(
                pairs@.len(),
                |i: int|
                    if 0 <= i < pairs@.len() {
                        (pairs@[i].0@, expr_view(pairs@[i].1))
                    } else {
                        (Seq::empty(), ExpressionView::Literal(LiteralView::Void))
                    },
            ),
        ),
        Expression::Function { parameters, body } => ExpressionView::Function {
            parameters: names_view(parameters@),
            body: Seq::new(
                body@.len(),
                |i: int|
                    if 0 <= i < body@.len() {
                        stmt_view(body@[i])
                    } else {
                        StatementView::Return(None)
                    },
            ),
        },
    }
}

impl View for Expression {
    type V = ExpressionView;

    open spec fn view(&self) -> ExpressionView {
        expr_view(*self)
    }
}

/// The views of a sequence of expressions, in order.
pub open spec fn exprs_view(exprs: Seq<Expression>) -> Seq<ExpressionView> {
    Seq::new(exprs.len(), |i: int| expr_view(exprs[i]))
}

#[derive(Debug, PartialEq)]
#[allow(inconsistent_fields)]
pub enum Statement {
    Expression(Expression),
    VariableDeclaration { name: String, initializer: Option<Expression>, can_reassign: bool },
    FunctionDeclaration { name: String, parameters: Vec<String>, body: Vec<Statement> },
    Block(Vec<Statement>),
    If { condition: Expression, then_branch: Box<Statement>, else_branch: Option<Box<Statement>> },
    While { condition: Expression, body: Box<Statement> },
    Return(Option<Expression>),
}

#[allow(inconsistent_fields)]
pub enum StatementView {
    Expression(ExpressionView),
    VariableDeclaration { name: Seq<char>, initializer: Option<ExpressionView>, can_reassign: bool },
    FunctionDeclaration { name: Seq<char>, parameters: Seq<Seq<char>>, body: Seq<StatementView> },
    Block(Seq<StatementView>),
    If {
        condition: ExpressionView,
        then_branch: Box<StatementView>,
        else_branch: Option<Box<StatementView>>,
    },
    While { condition: ExpressionView, body: Box<StatementView> },
    Return(Option<ExpressionView>),
}

/// The views of a sequence of names, in order.
pub open spec fn names_view(names: Seq<String>) -> Seq<Seq<char>> {
    Seq::new(names.len(), |i: int| names[i]@)
}

pub open spec fn optional_expr_view(e: Option<Expression>) -> Option<ExpressionView> {
    match e {
        Some(e) => Some(expr_view(e)),
        None => None,
    }
}

/// The mathematical value of a statement tree.
pub open spec fn stmt_view(s: Statement) -> StatementView
    decreases s,
{
    match s {
        Statement::Expression(e) => StatementView::Expression(expr_view(e)),
        Statement::VariableDeclaration {
            name,
            initializer,
            can_reassign,
        } => StatementView::VariableDeclaration {
            name: name@,
            initializer: match initializer {
                Some(e) => Some(expr_view(e)),
                None => None,
            },
            can_reassign,
        },
        Statement::FunctionDeclaration {
            name,
            parameters,
            body,
        } => StatementView::FunctionDeclaration {
            name: name@,
            parameters: names_view(parameters@),
            body: Seq::new(
                body@.len(),
                |i: int|
                    if 0 <= i < body@.len() {
                        stmt_view(body@[i])
                    } else {
                        StatementView::Return(None)
                    },
            ),
        },
        Statement::Block(body) => StatementView::Block(
            Seq::new(
                body@.len(),
                |i: int|
                    if 0 <= i < body@.len() {
                        stmt_view(body@[i])
                    } else {
                        StatementView::Return(None)
                    },
            ),
        ),
        Statement::If { condition, then_branch, else_branch } => StatementView::If {
            condition: expr_view(condition),
            then_branch: Box::new(stmt_view(*then_branch)),
            else_branch: match else_branch {
                Some(b) => Some(Box::new(stmt_view(*b))),
                None => None,
            },
        },
        Statement::While { condition, body } => StatementView::While {
            condition: expr_view(condition),
            body: Box::new(stmt_view(*body)),
        },
        Statement::Return(value) => StatementView::Return(
            match value {
                Some(e) => Some(expr_view(e)),
                None => None,
            },
        ),
    }
}

impl View for Statement {
    type V = StatementView;

    open spec fn view(&self) -> StatementView {
        stmt_view(*self)
    }
}

/// The views of a sequence of statements, in order.
pub open spec fn stmts_view(stmts: Seq<Statement>) -> Seq<StatementView> {
    Seq::new(stmts.len(), |i: int| stmt_view(stmts[i]))
}

/// A copy of a list of names.
pub fn copy_names(names: &Vec<String>) -> (r: Vec<String>)
    ensures
        names_view(r@) == names_view(names@),
{
    let mut out: Vec<String> = Vec::new();
    let mut i: usize = 0;
    while i < names.len()
        invariant
            i <= names.len(),
            out@.len() == i,
            forall|k: int| 0 <= k < i ==> out@[k]@ == names@[k]@,
        decreases names.len() - i,
    {
        out.push(names[i].clone());
        i += 1;
    }
    assert(names_view(out@) =~= names_view(names@));
    out
}

/// A copy of a list of expressions.
#[verifier::loop_isolation(false)]
pub fn copy_expressions(exprs: &Vec<Expression>) -> (r: Vec<Expression>)
    ensures
        exprs_view(r@) == exprs_view(exprs@),
    decreases exprs, 1int,
{
    let mut out: Vec<Expression> = Vec::new();
    let mut i: usize = 0;
    while i < exprs.len()
        invariant
            i <= exprs.len(),
            out@.len() == i,
            forall|k: int| 0 <= k < i ==> expr_view(out@[k]) == expr_view(exprs@[k]),
        decreases exprs.len() - i,
    {
        out.push(copy_expression(&exprs[i]));
        i += 1;
    }
    assert(exprs_view(out@) =~= exprs_view(exprs@));
    out
}

/// A copy of an expression tree.
#[verifier::loop_isolation(false)]
pub fn copy_expression(e: &Expression) -> (r: Expression)
    ensures
        r@ == e@,
    decreases e, 0int,
{
    match e {
        Expression::Literal(l) => Expression::Literal(l.clone()),
        Expression::Unary { operator, right } => Expression::Unary {
            operator: operator.clone(),
            right: Box::new(copy_expression(right)),
        },
        Expression::Binary { left, operator, right } => Expression::Binary {
            left: Box::new(copy_expression(left)),
            operator: operator.clone(),
            right: Box::new(copy_expression(right)),
        },
        Expression::Grouping(inner) => Expression::Grouping(Box::new(copy_expression(inner))),
        Expression::Variable(name) => Expression::Variable(name.clone()),
        Expression::Assignment { name, value } => Expression::Assignment {
            name: name.clone(),
            value: Box::new(copy_expression(value)),
        },
        Expression::Call { callee, arguments } => {
            let out = copy_expressions(arguments);
            let r = Expression::Call { callee: Box::new(copy_expression(callee)), arguments: out };
            assert(r@->Call_arguments =~= exprs_view(out@));
            assert(e@->Call_arguments =~= exprs_view(arguments@));
            r
        },
        Expression::Member { object, property, computed } => Expression::Member {
            object: Box::new(copy_expression(object)),
            property: property.clone(),
            computed: *computed,
        },
        Expression::ArrayLiteral(items) => {
            let out = copy_expressions(items);
            let r = Expression::ArrayLiteral(out);
            assert(r@->ArrayLiteral_0 =~= exprs_view(out@));
            assert(e@->ArrayLiteral_0 =~= exprs_view(items@));
            r
        },
        Expression::ObjectLiteral(pairs) => {
            let mut out: Vec<(String, Expression)> = Vec::new();
            let mut i: usize = 0;
            while i < pairs.len()
                invariant
                    i <= pairs.len(),
                    out@.len() == i,
                    forall|k: int|
                        0 <= k < i ==> out@[k].0@ == pairs@[k].0@ && expr_view(out@[k].1)
                            == expr_view(pairs@[k].1),
                decreases pairs.len() - i,
            {
                let pair = &pairs[i];
                out.push((pair.0.clone(), copy_expression(&pair.1)));
                i += 1;
            }
            let r = Expression::ObjectLiteral(out);
            assert(r@->ObjectLiteral_0 =~= e@->ObjectLiteral_0);
            r
        },
        Expression::Function { parameters, body } => {
            let out = copy_statements(body);
            let r = Expression::Function { parameters: copy_names(parameters), body: out };
            assert(r@->Function_body =~= stmts_view(out@));
            assert(e@->Function_body =~= stmts_view(body@));
            r
        },
    }
}

/// A copy of an optional expression.
pub fn copy_optional(e: &Option<Expression>) -> (r: Option<Expression>)
    ensures
        optional_expr_view(r) == optional_expr_view(*e),
    decreases e, 1int,
{
    match e {
        Some(e) => Some(copy_expression(e)),
        None => None,
    }
}

/// A copy of a list of statements.
#[verifier::loop_isolation(false)]
pub fn copy_statements(stmts: &Vec<Statement>) -> (r: Vec<Statement>)
    ensures
        stmts_view(r@) == stmts_view(stmts@),
    decreases stmts, 1int,
{
    let mut out: Vec<Statement> = Vec::new();
    let mut i: usize = 0;
    while i < stmts.len()
        invariant
            i <= stmts.len(),
            out@.len() == i,
            forall|k: int| 0 <= k < i ==> stmt_view(out@[k]) == stmt_view(stmts@[k]),
        decreases stmts.len() - i,
    {
        out.push(copy_statement(&stmts[i]));
        i += 1;
    }
    assert(stmts_view(out@) =~= stmts_view(stmts@));
    out
}

/// A copy of a statement tree.
pub fn copy_statement(s: &Statement) -> (r: Statement)
    ensures
        r@ == s@,
    decreases s, 0int,
{
    match s {
        Statement::Expression(e) => Statement::Expression(copy_expression(e)),
        Statement::VariableDeclaration {
            name,
            initializer,
            can_reassign,
        } => Statement::VariableDeclaration {
            name: name.clone(),
            initializer: copy_optional(initializer),
            can_reassign: *can_reassign,
        },
        Statement::FunctionDeclaration { name, parameters, body } => {
            let out = copy_statements(body);
            let r = Statement::FunctionDeclaration {
                name: name.clone(),
                parameters: copy_names(parameters),
                body: out,
            };
            assert(r@->FunctionDeclaration_body =~= stmts_view(out@));
            assert(s@->FunctionDeclaration_body =~= stmts_view(body@));
            r
        },
        Statement::Block(body) => {
            let out = copy_statements(body);
            let r = Statement::Block(out);
            assert(r@->Block_0 =~= stmts_view(out@));
            assert(s@->Block_0 =~= stmts_view(body@));
            r
        },
        Statement::If { condition, then_branch, else_branch } => Statement::If {
            condition: copy_expression(condition),
            then_branch: Box::new(copy_statement(then_branch)),
            else_branch: match else_branch {
                Some(b) => Some(Box::new(copy_statement(b))),
                None => None,
            },
        },
        Statement::While { condition, body } => Statement::While {
            condition: copy_expression(condition),
            body: Box::new(copy_statement(body)),
        },
        Statement::Return(e) => Statement::Return(copy_optional(e)),
    }
}

impl Clone for Expression {
    fn clone(&self) -> (r: Self)
        ensures
            r@ == self@,
    {
        copy_expression(self)
    }
}

impl Clone for Statement {
    fn clone(&self) -> (r: Self)
        ensures
            r@ == self@,
    {
        copy_statement(self)
    }
}

} // verus!
