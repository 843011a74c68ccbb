//! The recursive-descent parser, stated as functions on token sequences
//! and implemented against them.

use crate::ast::{Expression, ExpressionView, Literal, LiteralView, Statement, StatementView, expr_view, exprs_view, names_view, stmt_view, stmts_view};
use crate::lexer::{Token, TokenType, TokenTypeView, TokenView, tokens_view};
use vstd::prelude::*;
use vstd::string::*;

verus! {

/// What the parser found wrong.
#[derive(Debug, PartialEq, Eq, Structural, Clone, Copy)]
pub enum ParseErrorKind {
    /// A declaration without an identifier for its name.
    InvalidName,
    /// A constant declared without a value.
    MissingInitializer,
    /// A function declaration without `(` behind its name.
    ExpectedParen,
    /// A block that does not start with `{`.
    ExpectedBrace,
    /// The input ends inside a block.
    UnterminatedBlock,
    /// Something other than a name, a comma or `)` in a parameter list.
    InvalidParameter,
    /// A parenthesised expression without its `)`.
    UnmatchedParen,
    /// The input ends inside the arguments of a call.
    UnterminatedCall,
    /// A token that starts no expression.
    UnexpectedToken,
}

/// A parse error: its kind, and the text, line and column of the token at
/// which it was found.
#[derive(Debug, PartialEq)]
pub struct ParseError {
    pub kind: ParseErrorKind,
    pub lexeme: String,
    pub line: usize,
    pub col: usize,
}

pub struct ParseErrorView {
    pub kind: ParseErrorKind,
    pub lexeme: Seq<char>,
    pub line: nat,
    pub col: nat,
}

impl View for ParseError {
    type V = ParseErrorView;

    open spec fn view(&self) -> ParseErrorView {
        ParseErrorView {
            kind: self.kind,
            lexeme: self.lexeme@,
            line: self.line as nat,
            col: self.col as nat,
        }
    }
}

impl Clone for ParseError {
    fn clone(&self) -> (r: Self)
        ensures
            r@ == self@,
    {
        ParseError {
            kind: self.kind,
            lexeme: self.lexeme.clone(),
            line: self.line,
            col: self.col,
        }
    }
}

/// The kind of the token at `i`; past the tokens, end-of-input.
pub open spec fn kind_at(ts: Seq<TokenView>, i: int) -> TokenTypeView {
    if 0 <= i < ts.len() {
        ts[i].ttype
    } else {
        TokenTypeView::Eof
    }
}

/// The position after `i`: the parser never moves past an end-of-input token.
pub open spec fn step(ts: Seq<TokenView>, i: int) -> int {
    if kind_at(ts, i) is Eof {
        i
    } else {
        i + 1
    }
}

/// How many tokens stand at `i` and behind it.
pub open spec fn remaining(ts: Seq<TokenView>, i: int) -> nat {
    if i < ts.len() {
        (ts.len() - i) as nat
    } else {
        0
    }
}

/// The error of kind `kind` at the token at `i`.
pub open spec fn error_at(ts: Seq<TokenView>, i: int, kind: ParseErrorKind) -> ParseErrorView {
    ParseErrorView { kind, lexeme: ts[i].lexeme, line: ts[i].line, col: ts[i].col }
}

/// The operators of each binary tier, from the tightest (0) to the loosest (3).
pub open spec fn in_tier(level: nat, kind: TokenTypeView) -> bool {
    if level == 0 {
        kind is Slash || kind is Star || kind is Power || kind is Percent
    } else if level == 1 {
        kind is Plus || kind is Minus
    } else if level == 2 {
        kind is Greater || kind is GreaterEqual || kind is Lesser || kind is LesserEqual
    } else {
        kind is EqualEqual || kind is BangEqual
    }
}

/// A primary expression that starts at `cur`, with the number of tokens the
/// parser moves forward: it stops on the last token of what it read.
pub open spec fn parse_primary(ts: Seq<TokenView>, cur: int) -> Result<
    (ExpressionView, nat),
    ParseErrorView,
>
    decreases remaining(ts, cur), 0nat,
{
    match kind_at(ts, cur) {
        TokenTypeView::Number(v) => Ok((ExpressionView::Literal(LiteralView::Number(v)), 0)),
        TokenTypeView::String(v) => Ok((ExpressionView::Literal(LiteralView::String(v)), 0)),
        TokenTypeView::Null => Ok((ExpressionView::Literal(LiteralView::Null), 0)),
        TokenTypeView::Boolean(v) => Ok((ExpressionView::Literal(LiteralView::Boolean(v)), 0)),
        TokenTypeView::LParen => match parse_expression(ts, cur + 1) {
            Err(e) => Err(e),
            Ok((inner, used)) => {
                let close = step(ts, cur + 1 + used);
                if kind_at(ts, close) is RParen {
                    Ok((ExpressionView::Grouping(Box::new(inner)), used + 2))
                } else {
                    Err(error_at(ts, close, ParseErrorKind::UnmatchedParen))
                }
            },
        },
        TokenTypeView::Identifier(name) => match kind_at(ts, cur + 1) {
            TokenTypeView::Equal => match parse_expression(ts, cur + 2) {
                Err(e) => Err(e),
                Ok((value, used)) => Ok(
                    (ExpressionView::Assignment { name, value: Box::new(value) }, used + 2),
                ),
            },
            TokenTypeView::LParen => match parse_arguments(ts, cur + 1, Seq::empty()) {
                Err(e) => Err(e),
                Ok((arguments, end)) => Ok(
                    (
                        ExpressionView::Call {
                            callee: Box::new(ExpressionView::Variable(name)),
                            arguments,
                        },
                        (end - cur) as nat,
                    ),
                ),
            },
            _ => Ok((ExpressionView::Variable(name), 0)),
        },
        TokenTypeView::Eof => Ok((ExpressionView::Literal(LiteralView::Void), 0)),
        _ => Err(error_at(ts, cur, ParseErrorKind::UnexpectedToken)),
    }
}

/// The arguments of a call, behind those in `done`. The parser stands on
/// the token at `at`: the `(` or the last token of an argument. Gives the
/// arguments and the position of the `)`.
pub open spec fn parse_arguments(ts: Seq<TokenView>, at: int, done: Seq<ExpressionView>) -> Result<
    (Seq<ExpressionView>, int),
    ParseErrorView,
>
    decreases remaining(ts, at), 0nat,
{
    if kind_at(ts, step(ts, at)) is RParen {
        Ok((done, step(ts, at)))
    } else {
        let next = step(ts, at);
        if !(kind_at(ts, next) is Comma) && kind_at(ts, next) is Eof {
            Err(error_at(ts, next, ParseErrorKind::UnterminatedCall))
        } else {
            let start = if kind_at(ts, next) is Comma {
                step(ts, next)
            } else {
                next
            };
            match parse_expression(ts, start) {
                Err(e) => Err(e),
                Ok((argument, used)) => parse_arguments(ts, start + used, done.push(argument)),
            }
        }
    }
}

/// A unary expression: `-` or `!` before an expression, or a primary one.
pub open spec fn parse_unary(ts: Seq<TokenView>, cur: int) -> Result<
    (ExpressionView, nat),
    ParseErrorView,
>
    decreases remaining(ts, cur), 1nat,
{
    match kind_at(ts, cur) {
        TokenTypeView::Minus => match parse_expression(ts, cur + 1) {
            Err(e) => Err(e),
            Ok((right, used)) => Ok(
                (ExpressionView::Unary { operator: "-"@, right: Box::new(right) }, used + 1),
            ),
        },
        TokenTypeView::Bang => match parse_expression(ts, cur + 1) {
            Err(e) => Err(e),
            Ok((right, used)) => Ok(
                (ExpressionView::Unary { operator: "!"@, right: Box::new(right) }, used + 1),
            ),
        },
        _ => parse_primary(ts, cur),
    }
}

/// The binary tier `level`: one operand of the tier below, then, while an
/// operator of the tier follows, the operator and a whole expression to its
/// right.
pub open spec fn parse_tier(ts: Seq<TokenView>, cur: int, level: nat) -> Result<
    (ExpressionView, nat),
    ParseErrorView,
>
    decreases remaining(ts, cur), 2 + level,
{
    let operand = if level == 0 {
        parse_unary(ts, cur)
    } else {
        parse_tier(ts, cur, (level - 1) as nat)
    };
    match operand {
        Err(e) => Err(e),
        Ok((left, used)) => match parse_tier_rest(ts, cur + used, left, level, true) {
            Err(e) => Err(e),
            Ok((whole, end)) => Ok((whole, (end - cur) as nat)),
        },
    }
}

/// The operators of tier `level` behind the operand `left`, whose last
/// token stands at `at`. The first operator is looked for behind that
/// token; a later one on the last token of the right operand. Gives the
/// expression and the position of its last token.
pub open spec fn parse_tier_rest(
    ts: Seq<TokenView>,
    at: int,
    left: ExpressionView,
    level: nat,
    first: bool,
) -> Result<(ExpressionView, int), ParseErrorView>
    decreases remaining(ts, at), 0nat,
{
    let look = if first {
        step(ts, at)
    } else {
        at
    };
    if in_tier(level, kind_at(ts, look)) {
        let operator_at = step(ts, at);
        let right_at = step(ts, operator_at);
        match parse_expression(ts, right_at) {
            Err(e) => Err(e),
            Ok((right, used)) => parse_tier_rest(
                ts,
                right_at + used,
                ExpressionView::Binary {
                    left: Box::new(left),
                    operator: kind_at(ts, operator_at),
                    right: Box::new(right),
                },
                level,
                false,
            ),
        }
    } else {
        Ok((left, at))
    }
}

/// An expression: the loosest binary tier.
pub open spec fn parse_expression(ts: Seq<TokenView>, cur: int) -> Result<
    (ExpressionView, nat),
    ParseErrorView,
>
    decreases remaining(ts, cur), 6nat,
{
    parse_tier(ts, cur, 3)
}

/// A variable declaration whose keyword stands at `cur`. A constant needs
/// a value.
pub open spec fn parse_variable(ts: Seq<TokenView>, cur: int, can_reassign: bool) -> Result<
    (StatementView, nat),
    ParseErrorView,
> {
    match kind_at(ts, cur + 1) {
        TokenTypeView::Identifier(name) => if kind_at(ts, cur + 2) is Equal {
            match parse_expression(ts, cur + 3) {
                Err(e) => Err(e),
                Ok((value, used)) => Ok(
                    (
                        StatementView::VariableDeclaration {
                            name,
                            initializer: Some(value),
                            can_reassign,
                        },
                        used + 3,
                    ),
                ),
            }
        } else if can_reassign {
            Ok(
                (
                    StatementView::VariableDeclaration { name, initializer: None, can_reassign },
                    2,
                ),
            )
        } else {
            Err(error_at(ts, cur + 2, ParseErrorKind::MissingInitializer))
        },
        _ => Err(error_at(ts, cur + 1, ParseErrorKind::InvalidName)),
    }
}

/// The names of a parameter list from `at` on, behind those in `done`, and
/// the number of tokens up to and with its `)`, `used` of them before `at`.
pub open spec fn parse_parameters(
    ts: Seq<TokenView>,
    at: int,
    done: Seq<Seq<char>>,
    used: nat,
) -> Result<(Seq<Seq<char>>, nat), ParseErrorView>
    decreases remaining(ts, at),
{
    match kind_at(ts, at) {
        TokenTypeView::Identifier(name) => parse_parameters(ts, at + 1, done.push(name), used + 1),
        TokenTypeView::Comma => parse_parameters(ts, at + 1, done, used + 1),
        TokenTypeView::RParen => Ok((done, used + 1)),
        _ => Err(error_at(ts, at, ParseErrorKind::InvalidParameter)),
    }
}

/// One statement that starts at `cur`, with the number of tokens the parser
/// moves forward.
pub open spec fn parse_statement(ts: Seq<TokenView>, cur: int) -> Result<
    (StatementView, nat),
    ParseErrorView,
>
    decreases remaining(ts, cur), 2nat,
{
    match kind_at(ts, cur) {
        TokenTypeView::Let => parse_variable(ts, cur, true),
        TokenTypeView::Var => parse_variable(ts, cur, true),
        TokenTypeView::Const => parse_variable(ts, cur, false),
        TokenTypeView::LBrace => match parse_block(ts, cur) {
            Err(e) => Err(e),
            Ok((body, used)) => Ok((StatementView::Block(body), used)),
        },
        TokenTypeView::Function => parse_function(ts, cur),
        TokenTypeView::Return => match kind_at(ts, cur + 1) {
            TokenTypeView::SemiColon => Ok((StatementView::Return(None), 1)),
            TokenTypeView::RBrace => Ok((StatementView::Return(None), 0)),
            _ => match parse_expression(ts, cur + 1) {
                Err(e) => Err(e),
                Ok((value, used)) => Ok((StatementView::Return(Some(value)), used + 1)),
            },
        },
        TokenTypeView::SemiColon => Ok(
            (StatementView::Expression(ExpressionView::Literal(LiteralView::Void)), 0),
        ),
        _ => match parse_expression(ts, cur) {
            Err(e) => Err(e),
            Ok((value, used)) => Ok((StatementView::Expression(value), used)),
        },
    }
}

/// A block whose `{` stands at `cur`: its statements, and the number of
/// tokens up to its `}`.
pub open spec fn parse_block(ts: Seq<TokenView>, cur: int) -> Result<
    (Seq<StatementView>, nat),
    ParseErrorView,
>
    decreases remaining(ts, cur), 1nat,
{
    if kind_at(ts, cur) is LBrace {
        match parse_block_items(ts, cur + 1, Seq::empty()) {
            Err(e) => Err(e),
            Ok((body, end)) => Ok((body, (end - cur) as nat)),
        }
    } else {
        Err(error_at(ts, cur, ParseErrorKind::ExpectedBrace))
    }
}

/// The statements of a block from `at` on, behind those in `done`, and the
/// position of the closing `}`. A block holds at least one statement.
pub open spec fn parse_block_items(ts: Seq<TokenView>, at: int, done: Seq<StatementView>) -> Result<
    (Seq<StatementView>, int),
    ParseErrorView,
>
    decreases remaining(ts, at), 3nat,
{
    if kind_at(ts, at) is Eof {
        Err(error_at(ts, at, ParseErrorKind::UnterminatedBlock))
    } else {
        match parse_statement(ts, at) {
            Err(e) => Err(e),
            Ok((statement, used)) => {
                let next = step(ts, at + used);
                if kind_at(ts, next) is RBrace {
                    Ok((done.push(statement), next))
                } else {
                    parse_block_items(ts, next, done.push(statement))
                }
            },
        }
    }
}

/// A function declaration whose keyword stands at `cur`.
pub open spec fn parse_function(ts: Seq<TokenView>, cur: int) -> Result<
    (StatementView, nat),
    ParseErrorView,
>
    decreases remaining(ts, cur), 1nat,
{
    match kind_at(ts, cur + 1) {
        TokenTypeView::Identifier(name) => if kind_at(ts, cur + 2) is LParen {
            match parse_parameters(ts, cur + 3, Seq::empty(), 0) {
                Err(e) => Err(e),
                Ok((parameters, used)) => match parse_block(ts, cur + 3 + used) {
                    Err(e) => Err(e),
                    Ok((body, more)) => Ok(
                        (
                            StatementView::FunctionDeclaration { name, parameters, body },
                            3 + used + more,
                        ),
                    ),
                },
            }
        } else {
            Err(error_at(ts, cur + 2, ParseErrorKind::ExpectedParen))
        },
        _ => Err(error_at(ts, cur + 1, ParseErrorKind::InvalidName)),
    }
}

/// The statements of a program from `at` on, behind those in `done`: one
/// statement after the other, each followed by one step forward, until the
/// end-of-input token.
pub open spec fn parse_program(ts: Seq<TokenView>, at: int, done: Seq<StatementView>) -> Result<
    Seq<StatementView>,
    ParseErrorView,
>
    decreases remaining(ts, at),
{
    if kind_at(ts, at) is Eof {
        Ok(done)
    } else {
        match parse_statement(ts, at) {
            Err(e) => Err(e),
            Ok((statement, used)) => parse_program(ts, step(ts, at + used), done.push(statement)),
        }
    }
}

/// A token sequence that the parser takes: it ends with the end-of-input
/// token.
pub open spec fn terminated(ts: Seq<TokenView>) -> bool {
    ts.len() > 0 && ts.last().ttype is Eof
}


/// Parses a token sequence by recursive descent.
pub struct Parser {
    tokens: Vec<Token>,
    current: usize,
}

/// What a parsing function owes: the tokens are untouched, and the result
/// and the distance moved are those that `expected` gives.
pub open spec fn expr_outcome(
    before: Parser,
    after: Parser,
    r: Result<Expression, ParseError>,
    expected: Result<(ExpressionView, nat), ParseErrorView>,
) -> bool {
    &&& after.wf()
    &&& after.token_views() == before.token_views()
    &&& match r {
        Ok(e) => after.position() >= before.position() && expected == Ok::<
            (ExpressionView, nat),
            ParseErrorView,
        >((expr_view(e), (after.position() - before.position()) as nat)),
        Err(x) => expected == Err::<(ExpressionView, nat), ParseErrorView>(x@),
    }
}

pub open spec fn stmt_outcome(
    before: Parser,
    after: Parser,
    r: Result<Statement, ParseError>,
    expected: Result<(StatementView, nat), ParseErrorView>,
) -> bool {
    &&& after.wf()
    &&& after.token_views() == before.token_views()
    &&& match r {
        Ok(s) => after.position() >= before.position() && expected == Ok::<
            (StatementView, nat),
            ParseErrorView,
        >((stmt_view(s), (after.position() - before.position()) as nat)),
        Err(x) => expected == Err::<(StatementView, nat), ParseErrorView>(x@),
    }
}

/// Tells whether `kind` is an operator of the tier `level`.
pub fn tier_has(level: u8, kind: &TokenType) -> (b: bool)
    ensures
        b == in_tier(level as nat, kind@),
{
    if level == 0 {
        matches!(kind, TokenType::Slash | TokenType::Star | TokenType::Power | TokenType::Percent)
    } else if level == 1 {
        matches!(kind, TokenType::Plus | TokenType::Minus)
    } else if level == 2 {
        matches!(
            kind,
            TokenType::Greater | TokenType::GreaterEqual | TokenType::Lesser | TokenType::LesserEqual
        )
    } else {
        matches!(kind, TokenType::EqualEqual | TokenType::BangEqual)
    }
}

impl Parser {
    /// The tokens, as mathematical values.
    pub closed spec fn token_views(&self) -> Seq<TokenView> {
        tokens_view(self.tokens@)
    }

    /// The index of the token on which the parser stands.
    pub closed spec fn position(&self) -> int {
        self.current as int
    }

    /// The tokens end with end-of-input, and the parser stands on one of them.
    pub closed spec fn wf(&self) -> bool {
        terminated(tokens_view(self.tokens@)) && self.current < self.tokens.len()
    }

    pub fn new(tokens: Vec<Token>) -> (parser: Self)
        requires
            terminated(tokens_view(tokens@)),
        ensures
            parser.wf(),
            parser.token_views() == tokens_view(tokens@),
            parser.position() == 0,
    {
        Parser { tokens, current: 0 }
    }

    /// The statements of the program that starts where the parser stands, or
    /// the first error.
    #[verifier::loop_isolation(false)]
    pub fn parse(&mut self) -> (r: Result<Vec<Statement>, ParseError>)
        requires
            old(self).wf(),
        ensures
            final(self).wf(),
            final(self).token_views() == old(self).token_views(),
            match r {
                Ok(statements) => parse_program(
                    old(self).token_views(),
                    old(self).position(),
                    Seq::empty(),
                ) == Ok::<Seq<StatementView>, ParseErrorView>(stmts_view(statements@)),
                Err(e) => parse_program(old(self).token_views(), old(self).position(), Seq::empty())
                    == Err::<Seq<StatementView>, ParseErrorView>(e@),
            },
    {
        let ghost before = *self;
        let ghost ts = self.token_views();
        let mut statements: Vec<Statement> = Vec::new();
        assert(stmts_view(statements@) =~= Seq::empty());
        while !self.is_at_end()
            invariant
                self.wf(),
                self.tokens == before.tokens,
                ts == tokens_view(self.tokens@),
                parse_program(ts, before.current as int, Seq::empty()) == parse_program(
                    ts,
                    self.current as int,
                    stmts_view(statements@),
                ),
            decreases self.tokens.len() - self.current,
        {
            let ghost done = stmts_view(statements@);
            match self.statement() {
                Err(e) => {
                    return Err(e);
                },
                Ok(statement) => {
                    statements.push(statement);
                    assert(stmts_view(statements@) =~= done.push(stmt_view(statement)));
                },
            }
            self.advance();
        }
        Ok(statements)
    }

    fn is_at_end(&self) -> (b: bool)
        requires
            self.wf(),
        ensures
            b == (kind_at(self.token_views(), self.current as int) is Eof),
    {
        matches!(self.tokens[self.current].ttype, TokenType::Eof)
    }

    fn next_index(&self) -> (i: usize)
        requires
            self.wf(),
        ensures
            i == step(self.token_views(), self.current as int),
            i < self.tokens.len(),
    {
        if self.is_at_end() {
            self.current
        } else {
            self.current + 1
        }
    }

    fn advance(&mut self)
        requires
            old(self).wf(),
        ensures
            final(self).wf(),
            final(self).tokens == old(self).tokens,
            final(self).current == step(old(self).token_views(), old(self).current as int),
    {
        self.current = self.next_index();
    }

    fn error_here(&self, at: usize, kind: ParseErrorKind) -> (e: ParseError)
        requires
            at < self.tokens.len(),
        ensures
            e@ == error_at(self.token_views(), at as int, kind),
    {
        let token = &self.tokens[at];
        ParseError { kind, lexeme: token.lexeme.clone(), line: token.line, col: token.col }
    }

    fn statement(&mut self) -> (r: Result<Statement, ParseError>)
        requires
            old(self).wf(),
        ensures
            final(self).tokens == old(self).tokens,
            stmt_outcome(
                *old(self),
                *final(self),
                r,
                parse_statement(old(self).token_views(), old(self).current as int),
            ),
        decreases old(self).tokens.len() - old(self).current, 2nat,
    {
        match &self.tokens[self.current].ttype {
            TokenType::Let | TokenType::Var => self.variable_declaration(true),
            TokenType::Const => self.variable_declaration(false),
            TokenType::LBrace => match self.block() {
                Err(e) => Err(e),
                Ok(body) => {
                    let r = Statement::Block(body);
                    assert(stmt_view(r)->Block_0 =~= stmts_view(body@));
                    Ok(r)
                },
            },
            TokenType::Function => self.function_declaration(),
            TokenType::Return => self.return_statement(),
            TokenType::SemiColon => {
                let nothing = Expression::Literal(Literal::Void);
                assert(expr_view(nothing) == ExpressionView::Literal(LiteralView::Void));
                Ok(Statement::Expression(nothing))
            },
            _ => match self.expression() {
                Err(e) => Err(e),
                Ok(value) => Ok(Statement::Expression(value)),
            },
        }
    }

    /// A `return`, on whose keyword the parser stands. Before `}` the parser
    /// stays on the keyword, so that the block sees its end.
    fn return_statement(&mut self) -> (r: Result<Statement, ParseError>)
        requires
            old(self).wf(),
            kind_at(old(self).token_views(), old(self).current as int) is Return,
        ensures
            final(self).tokens == old(self).tokens,
            stmt_outcome(
                *old(self),
                *final(self),
                r,
                parse_statement(old(self).token_views(), old(self).current as int),
            ),
        decreases old(self).tokens.len() - old(self).current, 1nat,
    {
        self.advance();
        if matches!(self.tokens[self.current].ttype, TokenType::SemiColon) {
            Ok(Statement::Return(None))
        } else if matches!(self.tokens[self.current].ttype, TokenType::RBrace) {
            self.current = self.current - 1;
            Ok(Statement::Return(None))
        } else {
            match self.expression() {
                Err(e) => Err(e),
                Ok(value) => Ok(Statement::Return(Some(value))),
            }
        }
    }

    fn variable_declaration(&mut self, can_reassign: bool) -> (r: Result<Statement, ParseError>)
        requires
            old(self).wf(),
            !(kind_at(old(self).token_views(), old(self).current as int) is Eof),
        ensures
            final(self).tokens == old(self).tokens,
            stmt_outcome(
                *old(self),
                *final(self),
                r,
                parse_variable(old(self).token_views(), old(self).current as int, can_reassign),
            ),
    {
        self.advance();
        let name = match &self.tokens[self.current].ttype {
            TokenType::Identifier(v) => v.clone(),
            _ => {
                return Err(self.error_here(self.current, ParseErrorKind::InvalidName));
            },
        };
        self.advance();
        if matches!(self.tokens[self.current].ttype, TokenType::Equal) {
            self.advance();
            match self.expression() {
                Err(e) => Err(e),
                Ok(value) => Ok(
                    Statement::VariableDeclaration { name, initializer: Some(value), can_reassign },
                ),
            }
        } else if can_reassign {
            Ok(Statement::VariableDeclaration { name, initializer: None, can_reassign })
        } else {
            Err(self.error_here(self.current, ParseErrorKind::MissingInitializer))
        }
    }

    #[verifier::loop_isolation(false)]
    fn block(&mut self) -> (r: Result<Vec<Statement>, ParseError>)
        requires
            old(self).wf(),
        ensures
            final(self).wf(),
            final(self).tokens == old(self).tokens,
            match r {
                Ok(body) => final(self).current >= old(self).current && parse_block(
                    old(self).token_views(),
                    old(self).current as int,
                ) == Ok::<(Seq<StatementView>, nat), ParseErrorView>(
                    (stmts_view(body@), (final(self).current - old(self).current) as nat),
                ),
                Err(e) => parse_block(old(self).token_views(), old(self).current as int) == Err::<
                    (Seq<StatementView>, nat),
                    ParseErrorView,
                >(e@),
            },
        decreases old(self).tokens.len() - old(self).current, 1nat,
    {
        let ghost before = *self;
        let ghost ts = self.token_views();
        if !matches!(self.tokens[self.current].ttype, TokenType::LBrace) {
            return Err(self.error_here(self.current, ParseErrorKind::ExpectedBrace));
        }
        self.advance();
        let mut statements: Vec<Statement> = Vec::new();
        assert(stmts_view(statements@) =~= Seq::empty());
        loop
            invariant
                self.wf(),
                self.tokens == before.tokens,
                self.current > before.current,
                parse_block_items(ts, before.current + 1, Seq::empty()) == parse_block_items(
                    ts,
                    self.current as int,
                    stmts_view(statements@),
                ),
            decreases self.tokens.len() - self.current,
        {
            if self.is_at_end() {
                return Err(self.error_here(self.current, ParseErrorKind::UnterminatedBlock));
            }
            let ghost done = stmts_view(statements@);
            match self.statement() {
                Err(e) => {
                    return Err(e);
                },
                Ok(statement) => {
                    statements.push(statement);
                    assert(stmts_view(statements@) =~= done.push(stmt_view(statement)));
                },
            }
            let next = self.next_index();
            if matches!(self.tokens[next].ttype, TokenType::RBrace) {
                self.advance();
                return Ok(statements);
            }
            self.advance();
        }
    }

    #[verifier::loop_isolation(false)]
    fn function_declaration(&mut self) -> (r: Result<Statement, ParseError>)
        requires
            old(self).wf(),
            !(kind_at(old(self).token_views(), old(self).current as int) is Eof),
        ensures
            final(self).tokens == old(self).tokens,
            stmt_outcome(
                *old(self),
                *final(self),
                r,
                parse_function(old(self).token_views(), old(self).current as int),
            ),
        decreases old(self).tokens.len() - old(self).current, 1nat,
    {
        let ghost before = *self;
        let ghost ts = self.token_views();
        self.advance();
        let name = match &self.tokens[self.current].ttype {
            TokenType::Identifier(v) => v.clone(),
            _ => {
                return Err(self.error_here(self.current, ParseErrorKind::InvalidName));
            },
        };
        self.advance();
        if !matches!(self.tokens[self.current].ttype, TokenType::LParen) {
            return Err(self.error_here(self.current, ParseErrorKind::ExpectedParen));
        }
        self.advance();
        let mut parameters: Vec<String> = Vec::new();
        let mut closed = false;
        assert(names_view(parameters@) =~= Seq::empty());
        while !closed
            invariant
                self.wf(),
                self.tokens == before.tokens,
                self.current >= before.current + 3,
                closed ==> parse_parameters(ts, before.current + 3, Seq::empty(), 0) == Ok::<
                    (Seq<Seq<char>>, nat),
                    ParseErrorView,
                >((names_view(parameters@), (self.current - before.current - 3) as nat)),
                !closed ==> parse_parameters(ts, before.current + 3, Seq::empty(), 0)
                    == parse_parameters(
                    ts,
                    self.current as int,
                    names_view(parameters@),
                    (self.current - before.current - 3) as nat,
                ),
            decreases self.tokens.len() - self.current + (if closed { 0int } else { 1int }),
        {
            let ghost done = names_view(parameters@);
            match &self.tokens[self.current].ttype {
                TokenType::Identifier(v) => {
                    parameters.push(v.clone());
                    assert(names_view(parameters@) =~= done.push(v@));
                },
                TokenType::RParen => {
                    closed = true;
                },
                TokenType::Comma => {},
                _ => {
                    return Err(self.error_here(self.current, ParseErrorKind::InvalidParameter));
                },
            }
            self.advance();
        }
        match self.block() {
            Err(e) => Err(e),
            Ok(body) => {
                let r = Statement::FunctionDeclaration { name, parameters, body };
                assert(stmt_view(r)->FunctionDeclaration_body =~= stmts_view(body@));
                Ok(r)
            },
        }
    }

    fn expression(&mut self) -> (r: Result<Expression, ParseError>)
        requires
            old(self).wf(),
        ensures
            final(self).tokens == old(self).tokens,
            expr_outcome(
                *old(self),
                *final(self),
                r,
                parse_expression(old(self).token_views(), old(self).current as int),
            ),
        decreases old(self).tokens.len() - old(self).current, 7nat,
    {
        self.binary_tier(3)
    }

    /// Tells whether an operator of the tier goes on: behind the current
    /// token for the first operator, on it for a later one.
    fn tier_follows(&self, level: u8, first: bool) -> (b: bool)
        requires
            self.wf(),
        ensures
            b == in_tier(
                level as nat,
                kind_at(
                    self.token_views(),
                    if first {
                        step(self.token_views(), self.current as int)
                    } else {
                        self.current as int
                    },
                ),
            ),
    {
        let look = if first {
            self.next_index()
        } else {
            self.current
        };
        tier_has(level, &self.tokens[look].ttype)
    }

    #[verifier::loop_isolation(false)]
    fn binary_tier(&mut self, level: u8) -> (r: Result<Expression, ParseError>)
        requires
            old(self).wf(),
            level <= 3,
        ensures
            final(self).tokens == old(self).tokens,
            expr_outcome(
                *old(self),
                *final(self),
                r,
                parse_tier(old(self).token_views(), old(self).current as int, level as nat),
            ),
        decreases old(self).tokens.len() - old(self).current, 3 + level,
    {
        let ghost before = *self;
        let ghost ts = self.token_views();
        let operand = if level == 0 {
            self.unary()
        } else {
            self.binary_tier(level - 1)
        };
        let mut expression = match operand {
            Err(e) => {
                return Err(e);
            },
            Ok(left) => left,
        };
        let ghost left_at = self.current as int;
        let ghost left = expr_view(expression);
        let mut first = true;
        while self.tier_follows(level, first)
            invariant
                self.wf(),
                self.tokens == before.tokens,
                self.current >= before.current,
                parse_tier_rest(ts, left_at, left, level as nat, true) == parse_tier_rest(
                    ts,
                    self.current as int,
                    expr_view(expression),
                    level as nat,
                    first,
                ),
            decreases self.tokens.len() - self.current,
        {
            self.advance();
            let operator = self.tokens[self.current].ttype.clone();
            self.advance();
            match self.expression() {
                Err(e) => {
                    return Err(e);
                },
                Ok(right) => {
                    expression =
                    Expression::Binary {
                        left: Box::new(expression),
                        operator,
                        right: Box::new(right),
                    };
                },
            }
            first = false;
        }
        Ok(expression)
    }

    fn unary(&mut self) -> (r: Result<Expression, ParseError>)
        requires
            old(self).wf(),
        ensures
            final(self).tokens == old(self).tokens,
            expr_outcome(
                *old(self),
                *final(self),
                r,
                parse_unary(old(self).token_views(), old(self).current as int),
            ),
        decreases old(self).tokens.len() - old(self).current, 2nat,
    {
        match &self.tokens[self.current].ttype {
            TokenType::Minus => {
                self.advance();
                match self.expression() {
                    Err(e) => Err(e),
                    Ok(right) => Ok(
                        Expression::Unary {
                            operator: String::from_str("-"),
                            right: Box::new(right),
                        },
                    ),
                }
            },
            TokenType::Bang => {
                self.advance();
                match self.expression() {
                    Err(e) => Err(e),
                    Ok(right) => Ok(
                        Expression::Unary {
                            operator: String::from_str("!"),
                            right: Box::new(right),
                        },
                    ),
                }
            },
            _ => self.primary(),
        }
    }

    #[verifier::loop_isolation(false)]
    fn arguments(&mut self) -> (r: Result<Vec<Expression>, ParseError>)
        requires
            old(self).wf(),
            !(kind_at(old(self).token_views(), old(self).current as int) is Eof),
        ensures
            final(self).wf(),
            final(self).tokens == old(self).tokens,
            match r {
                Ok(arguments) => final(self).current >= old(self).current && parse_arguments(
                    old(self).token_views(),
                    old(self).current as int,
                    Seq::empty(),
                ) == Ok::<(Seq<ExpressionView>, int), ParseErrorView>(
                    (exprs_view(arguments@), final(self).current as int),
                ),
                Err(e) => parse_arguments(
                    old(self).token_views(),
                    old(self).current as int,
                    Seq::empty(),
                ) == Err::<(Seq<ExpressionView>, int), ParseErrorView>(e@),
            },
        decreases old(self).tokens.len() - old(self).current, 0nat,
    {
        let ghost before = *self;
        let ghost ts = self.token_views();
        let mut arguments: Vec<Expression> = Vec::new();
        assert(exprs_view(arguments@) =~= Seq::empty());
        while !self.closes_next()
            invariant
                self.wf(),
                self.tokens == before.tokens,
                self.current >= before.current,
                parse_arguments(ts, before.current as int, Seq::empty()) == parse_arguments(
                    ts,
                    self.current as int,
                    exprs_view(arguments@),
                ),
            decreases self.tokens.len() - self.current,
        {
            self.advance();
            if matches!(self.tokens[self.current].ttype, TokenType::Comma) {
                self.advance();
            } else if self.is_at_end() {
                return Err(self.error_here(self.current, ParseErrorKind::UnterminatedCall));
            }
            let ghost done = exprs_view(arguments@);
            match self.expression() {
                Err(e) => {
                    return Err(e);
                },
                Ok(argument) => {
                    arguments.push(argument);
                    assert(exprs_view(arguments@) =~= done.push(expr_view(argument)));
                },
            }
        }
        self.advance();
        Ok(arguments)
    }

    /// Tells whether the token behind the current one is `)`.
    fn closes_next(&self) -> (b: bool)
        requires
            self.wf(),
        ensures
            b == (kind_at(self.token_views(), step(self.token_views(), self.current as int))
                is RParen),
    {
        let next = self.next_index();
        matches!(self.tokens[next].ttype, TokenType::RParen)
    }

    fn primary(&mut self) -> (r: Result<Expression, ParseError>)
        requires
            old(self).wf(),
        ensures
            final(self).tokens == old(self).tokens,
            expr_outcome(
                *old(self),
                *final(self),
                r,
                parse_primary(old(self).token_views(), old(self).current as int),
            ),
        decreases old(self).tokens.len() - old(self).current, 1nat,
    {
        match &self.tokens[self.current].ttype {
            TokenType::Number(v) => Ok(Expression::Literal(Literal::Number(*v))),
            TokenType::String(v) => Ok(Expression::Literal(Literal::String(v.clone()))),
            TokenType::Null => Ok(Expression::Literal(Literal::Null)),
            TokenType::Boolean(v) => Ok(Expression::Literal(Literal::Boolean(*v))),
            TokenType::LParen => self.grouping(),
            TokenType::Identifier(v) => {
                let name = v.clone();
                self.named(name)
            },
            TokenType::Eof => Ok(Expression::Literal(Literal::Void)),
            _ => Err(self.error_here(self.current, ParseErrorKind::UnexpectedToken)),
        }
    }

    /// A parenthesised expression; the parser stands on its `(`.
    fn grouping(&mut self) -> (r: Result<Expression, ParseError>)
        requires
            old(self).wf(),
            kind_at(old(self).token_views(), old(self).current as int) is LParen,
        ensures
            final(self).tokens == old(self).tokens,
            expr_outcome(
                *old(self),
                *final(self),
                r,
                parse_primary(old(self).token_views(), old(self).current as int),
            ),
        decreases old(self).tokens.len() - old(self).current, 0nat,
    {
        self.advance();
        match self.expression() {
            Err(e) => Err(e),
            Ok(inner) => {
                let close = self.next_index();
                if matches!(self.tokens[close].ttype, TokenType::RParen) {
                    self.advance();
                    Ok(Expression::Grouping(Box::new(inner)))
                } else {
                    Err(self.error_here(close, ParseErrorKind::UnmatchedParen))
                }
            },
        }
    }

    /// What starts with the identifier `name`, on which the parser stands:
    /// an assignment, a call or a variable.
    fn named(&mut self, name: String) -> (r: Result<Expression, ParseError>)
        requires
            old(self).wf(),
            kind_at(old(self).token_views(), old(self).current as int)
                == TokenTypeView::Identifier(name@),
        ensures
            final(self).tokens == old(self).tokens,
            expr_outcome(
                *old(self),
                *final(self),
                r,
                parse_primary(old(self).token_views(), old(self).current as int),
            ),
        decreases old(self).tokens.len() - old(self).current, 0nat,
    {
        let ghost ts = self.token_views();
        let ghost cur = self.current as int;
        let next = self.next_index();
        assert(next == cur + 1);
        if matches!(self.tokens[next].ttype, TokenType::Equal) {
            assert(kind_at(ts, cur + 1) is Equal);
            self.advance();
            self.advance();
            assert(self.current == cur + 2);
            match self.expression() {
                Err(e) => Err(e),
                Ok(value) => Ok(Expression::Assignment { name, value: Box::new(value) }),
            }
        } else if matches!(self.tokens[next].ttype, TokenType::LParen) {
            assert(kind_at(ts, cur + 1) is LParen);
            self.advance();
            assert(self.current == cur + 1);
            match self.arguments() {
                Err(e) => Err(e),
                Ok(arguments) => {
                    let callee = Expression::Variable(name);
                    assert(expr_view(callee) == ExpressionView::Variable(name@));
                    let r = Expression::Call { callee: Box::new(callee), arguments };
                    assert(expr_view(r)->Call_arguments =~= exprs_view(arguments@));
                    Ok(r)
                },
            }
        } else {
            Ok(Expression::Variable(name))
        }
    }
}

} // verus!
