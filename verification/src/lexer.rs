//! Tokens, and the scanner that splits a source text into them.

use vstd::prelude::*;
use vstd::string::*;

verus! {

/// The kind of a token, with the payload of literals, names and comments.
#[derive(Debug, PartialEq)]
pub enum TokenType {
    Number(i64),
    String(String),
    Boolean(bool),
    Identifier(String),
    LineComment(String),
    Null,
    Let,
    Const,
    Var,
    Function,
    Return,
    If,
    Else,
    For,
    While,
    Break,
    Continue,
    Throw,
    Typeof,
    Plus,
    Minus,
    Star,
    Slash,
    Percent,
    Power,
    Equal,
    EqualEqual,
    BangEqual,
    Bang,
    And,
    Or,
    Question,
    Lesser,
    LesserEqual,
    Greater,
    GreaterEqual,
    LParen,
    RParen,
    LBrace,
    RBrace,
    LBracket,
    RBracket,
    Comma,
    Dot,
    SemiColon,
    Colon,
    Eof,
}

/// The mathematical value of a [`TokenType`]: text as a sequence of characters.
pub enum TokenTypeView {
    Number(int),
    String(Seq<char>),
    Boolean(bool),
    Identifier(Seq<char>),
    LineComment(Seq<char>),
    Null,
    Let,
    Const,
    Var,
    Function,
    Return,
    If,
    Else,
    For,
    While,
    Break,
    Continue,
    Throw,
    Typeof,
    Plus,
    Minus,
    Star,
    Slash,
    Percent,
    Power,
    Equal,
    EqualEqual,
    BangEqual,
    Bang,
    And,
    Or,
    Question,
    Lesser,
    LesserEqual,
    Greater,
    GreaterEqual,
    LParen,
    RParen,
    LBrace,
    RBrace,
    LBracket,
    RBracket,
    Comma,
    Dot,
    SemiColon,
    Colon,
    Eof,
}

impl View for TokenType {
    type V = TokenTypeView;

    open spec fn view(&self) -> TokenTypeView {
        match self {
            TokenType::Number(n) => TokenTypeView::Number(*n as int),
            TokenType::String(s) => TokenTypeView::String(s@),
            TokenType::Boolean(b) => TokenTypeView::Boolean(*b),
            TokenType::Identifier(s) => TokenTypeView::Identifier(s@),
            TokenType::LineComment(s) => TokenTypeView::LineComment(s@),
            TokenType::Null => TokenTypeView::Null,
            TokenType::Let => TokenTypeView::Let,
            TokenType::Const => TokenTypeView::Const,
            TokenType::Var => TokenTypeView::Var,
            TokenType::Function => TokenTypeView::Function,
            TokenType::Return => TokenTypeView::Return,
            TokenType::If => TokenTypeView::If,
            TokenType::Else => TokenTypeView::Else,
            TokenType::For => TokenTypeView::For,
            TokenType::While => TokenTypeView::While,
            TokenType::Break => TokenTypeView::Break,
            TokenType::Continue => TokenTypeView::Continue,
            TokenType::Throw => TokenTypeView::Throw,
            TokenType::Typeof => TokenTypeView::Typeof,
            TokenType::Plus => TokenTypeView::Plus,
            TokenType::Minus => TokenTypeView::Minus,
            TokenType::Star => TokenTypeView::Star,
            TokenType::Slash => TokenTypeView::Slash,
            TokenType::Percent => TokenTypeView::Percent,
            TokenType::Power => TokenTypeView::Power,
            TokenType::Equal => TokenTypeView::Equal,
            TokenType::EqualEqual => TokenTypeView::EqualEqual,
            TokenType::BangEqual => TokenTypeView::BangEqual,
            TokenType::Bang => TokenTypeView::Bang,
            TokenType::And => TokenTypeView::And,
            TokenType::Or => TokenTypeView::Or,
            TokenType::Question => TokenTypeView::Question,
            TokenType::Lesser => TokenTypeView::Lesser,
            TokenType::LesserEqual => TokenTypeView::LesserEqual,
            TokenType::Greater => TokenTypeView::Greater,
            TokenType::GreaterEqual => TokenTypeView::GreaterEqual,
            TokenType::LParen => TokenTypeView::LParen,
            TokenType::RParen => TokenTypeView::RParen,
            TokenType::LBrace => TokenTypeView::LBrace,
            TokenType::RBrace => TokenTypeView::RBrace,
            TokenType::LBracket => TokenTypeView::LBracket,
            TokenType::RBracket => TokenTypeView::RBracket,
            TokenType::Comma => TokenTypeView::Comma,
            TokenType::Dot => TokenTypeView::Dot,
            TokenType::SemiColon => TokenTypeView::SemiColon,
            TokenType::Colon => TokenTypeView::Colon,
            TokenType::Eof => TokenTypeView::Eof,
        }
    }
}

impl Clone for TokenType {
    fn clone(&self) -> (r: Self)
        ensures
            r@ == self@,
    {
        match self {
            TokenType::Number(n) => TokenType::Number(*n),
            TokenType::String(s) => TokenType::String(s.clone()),
            TokenType::Boolean(b) => TokenType::Boolean(*b),
            TokenType::Identifier(s) => TokenType::Identifier(s.clone()),
            TokenType::LineComment(s) => TokenType::LineComment(s.clone()),
            TokenType::Null => TokenType::Null,
            TokenType::Let => TokenType::Let,
            TokenType::Const => TokenType::Const,
            TokenType::Var => TokenType::Var,
            TokenType::Function => TokenType::Function,
            TokenType::Return => TokenType::Return,
            TokenType::If => TokenType::If,
            TokenType::Else => TokenType::Else,
            TokenType::For => TokenType::For,
            TokenType::While => TokenType::While,
            TokenType::Break => TokenType::Break,
            TokenType::Continue => TokenType::Continue,
            TokenType::Throw => TokenType::Throw,
            TokenType::Typeof => TokenType::Typeof,
            TokenType::Plus => TokenType::Plus,
            TokenType::Minus => TokenType::Minus,
            TokenType::Star => TokenType::Star,
            TokenType::Slash => TokenType::Slash,
            TokenType::Percent => TokenType::Percent,
            TokenType::Power => TokenType::Power,
            TokenType::Equal => TokenType::Equal,
            TokenType::EqualEqual => TokenType::EqualEqual,
            TokenType::BangEqual => TokenType::BangEqual,
            TokenType::Bang => TokenType::Bang,
            TokenType::And => TokenType::And,
            TokenType::Or => TokenType::Or,
            TokenType::Question => TokenType::Question,
            TokenType::Lesser => TokenType::Lesser,
            TokenType::LesserEqual => TokenType::LesserEqual,
            TokenType::Greater => TokenType::Greater,
            TokenType::GreaterEqual => TokenType::GreaterEqual,
            TokenType::LParen => TokenType::LParen,
            TokenType::RParen => TokenType::RParen,
            TokenType::LBrace => TokenType::LBrace,
            TokenType::RBrace => TokenType::RBrace,
            TokenType::LBracket => TokenType::LBracket,
            TokenType::RBracket => TokenType::RBracket,
            TokenType::Comma => TokenType::Comma,
            TokenType::Dot => TokenType::Dot,
            TokenType::SemiColon => TokenType::SemiColon,
            TokenType::Colon => TokenType::Colon,
            TokenType::Eof => TokenType::Eof,
        }
    }
}

/// A token with its text and its place in the source. Offsets and columns
/// count characters; lines and columns start at one.
#[derive(Debug, PartialEq)]
pub struct Token {
    pub ttype: TokenType,
    pub lexeme: String,
    pub line: usize,
    pub col: usize,
    pub start_pos: usize,
    pub end_pos: usize,
}

pub struct TokenView {
    pub ttype: TokenTypeView,
    pub lexeme: Seq<char>,
    pub line: nat,
    pub col: nat,
    pub start_pos: nat,
    pub end_pos: nat,
}

impl View for Token {
    type V = TokenView;

    open spec fn view(&self) -> TokenView {
        TokenView {
            ttype: self.ttype@,
            lexeme: self.lexeme@,
            line: self.line as nat,
            col: self.col as nat,
            start_pos: self.start_pos as nat,
            end_pos: self.end_pos as nat,
        }
    }
}

impl Clone for Token {
    fn clone(&self) -> (r: Self)
        ensures
            r@ == self@,
    {
        Token {
            ttype: self.ttype.clone(),
            lexeme: self.lexeme.clone(),
            line: self.line,
            col: self.col,
            start_pos: self.start_pos,
            end_pos: self.end_pos,
        }
    }
}

/// The views of a sequence of tokens, in order.
pub open spec fn tokens_view(tokens: Seq<Token>) -> Seq<TokenView> {
    Seq::new(tokens.len(), |i: int| tokens[i]@)
}


/// Why tokenizing stopped, with the line and column of the offending text.
#[derive(Debug, PartialEq, Eq, Structural, Clone, Copy)]
pub enum LexError {
    /// A character that starts no token, such as a single `&` or `|`.
    InvalidCharacter { character: char, line: usize, col: usize },
    /// A string literal whose closing quote is missing.
    UnterminatedString { line: usize, col: usize },
    /// A run of digits and dots that is not a whole number of 64 signed
    /// bits: it has a fraction that is not zero, a second dot, or is too
    /// great.
    InvalidNumber { line: usize, col: usize },
}

/// The three ways in which one scanning step can fail.
#[derive(Clone, Copy)]
pub enum LexFault {
    InvalidCharacter,
    UnterminatedString,
    InvalidNumber,
}

/// Sets of characters that a token may run over.
#[derive(Clone, Copy)]
pub enum CharClass {
    /// Decimal digits and the dot.
    Numeric,
    /// Letters and digits of any script, and the underscore.
    Word,
    /// Everything but the double quote.
    StringBody,
    /// Everything but the line feed.
    CommentBody,
}

pub open spec fn is_digit(c: char) -> bool {
    '0' <= c <= '9'
}

pub open spec fn is_letter(c: char) -> bool {
    ('a' <= c <= 'z') || ('A' <= c <= 'Z') || c == '_'
}

/// Whether `c` is a letter or a digit of any script, as the standard
/// library's tables have it.
pub uninterp spec fn alphanumeric(c: char) -> bool;

/// `char::is_alphanumeric` of the standard library. Its result depends on
/// the character alone and is given the name [`alphanumeric`]; nothing else
/// is claimed of it.
pub assume_specification[ char::is_alphanumeric ](c: char) -> (b: bool)
    ensures
        b == alphanumeric(c),
;

pub open spec fn in_class(class: CharClass, c: char) -> bool {
    match class {
        CharClass::Numeric => is_digit(c) || c == '.',
        CharClass::Word => alphanumeric(c) || c == '_',
        CharClass::StringBody => c != '"',
        CharClass::CommentBody => c != '\n',
    }
}

/// How many characters of `class` stand in a row in `src` from `pos` on.
pub open spec fn run_len(src: Seq<char>, pos: int, class: CharClass) -> nat
    decreases src.len() - pos,
{
    if 0 <= pos < src.len() && in_class(class, src[pos]) {
        1 + run_len(src, pos + 1, class)
    } else {
        0
    }
}

/// The line of the character at `pos`: one more than the line feeds before it.
pub open spec fn line_at(src: Seq<char>, pos: int) -> nat
    decreases pos,
{
    if pos <= 0 || pos > src.len() {
        1
    } else if src[pos - 1] == '\n' {
        line_at(src, pos - 1) + 1
    } else {
        line_at(src, pos - 1)
    }
}

/// The column of the character at `pos`: one more than the characters
/// between it and the last line feed before it.
pub open spec fn col_at(src: Seq<char>, pos: int) -> nat
    decreases pos,
{
    if pos <= 0 || pos > src.len() {
        1
    } else if src[pos - 1] == '\n' {
        1
    } else {
        col_at(src, pos - 1) + 1
    }
}

/// The value of one decimal digit; zero for any other character.
pub open spec fn digit_value(c: char) -> nat {
    if is_digit(c) {
        (c as u32 - '0' as u32) as nat
    } else {
        0
    }
}

/// The decimal value of `src[lo..hi]`.
pub open spec fn decimal_value(src: Seq<char>, lo: int, hi: int) -> nat
    decreases hi - lo,
{
    if hi <= lo {
        0
    } else {
        decimal_value(src, lo, hi - 1) * 10 + digit_value(src[hi - 1])
    }
}

/// The place of the first dot in `src[lo..hi]`; `hi` where there is none.
pub open spec fn first_dot(src: Seq<char>, lo: int, hi: int) -> int
    decreases hi - lo,
{
    if lo >= hi {
        hi
    } else if src[lo] == '.' {
        lo
    } else {
        first_dot(src, lo + 1, hi)
    }
}

/// The number that the numeric run `src[lo..hi]` denotes: the decimal value
/// of the digits before its first dot, where all that follows the dot is
/// zeros and the value fits in 64 signed bits; else nothing. So `2`, `2.`
/// and `2.00` denote two, and `2.5` and `1.2.3` denote nothing.
pub open spec fn number_value(src: Seq<char>, lo: int, hi: int) -> Option<int> {
    let dot = first_dot(src, lo, hi);
    if (exists|k: int| dot < k < hi && src[k] != '0') || decimal_value(src, lo, dot) > i64::MAX {
        None
    } else {
        Some(decimal_value(src, lo, dot) as int)
    }
}

/// The first dot of a text lies in the text or at its end.
pub proof fn lemma_first_dot_bounds(src: Seq<char>, lo: int, hi: int)
    requires
        lo <= hi,
    ensures
        lo <= first_dot(src, lo, hi) <= hi,
    decreases hi - lo,
{
    if lo < hi && src[lo] != '.' {
        lemma_first_dot_bounds(src, lo + 1, hi);
    }
}

/// The kind of a word: a keyword where the table has it, else an identifier.
pub open spec fn word_kind(text: Seq<char>) -> TokenTypeView {
    if text == "function"@ {
        TokenTypeView::Function
    } else if text == "let"@ {
        TokenTypeView::Let
    } else if text == "const"@ {
        TokenTypeView::Const
    } else if text == "var"@ {
        TokenTypeView::Var
    } else if text == "return"@ {
        TokenTypeView::Return
    } else if text == "if"@ {
        TokenTypeView::If
    } else if text == "else"@ {
        TokenTypeView::Else
    } else if text == "for"@ {
        TokenTypeView::For
    } else if text == "while"@ {
        TokenTypeView::While
    } else if text == "break"@ {
        TokenTypeView::Break
    } else if text == "continue"@ {
        TokenTypeView::Continue
    } else if text == "throw"@ {
        TokenTypeView::Throw
    } else if text == "typeof"@ {
        TokenTypeView::Typeof
    } else if text == "null"@ {
        TokenTypeView::Null
    } else if text == "true"@ {
        TokenTypeView::Boolean(true)
    } else if text == "false"@ {
        TokenTypeView::Boolean(false)
    } else {
        TokenTypeView::Identifier(text)
    }
}

/// What one scanning step at a position gives.
pub enum Scan {
    /// Characters without a token; scanning goes on at the position given.
    Skip(int),
    /// A token of this kind, which ends before the position given.
    Emit(TokenTypeView, int),
    /// The text at the position is no token.
    Fail(LexFault),
}

/// A one-character token, or the two-character token that starts with the
/// same character where `second` follows it.
pub open spec fn scan_pair(
    src: Seq<char>,
    pos: int,
    second: char,
    long: TokenTypeView,
    short: TokenTypeView,
) -> Scan {
    if pos + 1 < src.len() && src[pos + 1] == second {
        Scan::Emit(long, pos + 2)
    } else {
        Scan::Emit(short, pos + 1)
    }
}

/// A two-character token made of the same character twice; a single one
/// is no token.
pub open spec fn scan_double(src: Seq<char>, pos: int, kind: TokenTypeView) -> Scan {
    if pos + 1 < src.len() && src[pos + 1] == src[pos] {
        Scan::Emit(kind, pos + 2)
    } else {
        Scan::Fail(LexFault::InvalidCharacter)
    }
}

/// The scanning step at `pos`, for `0 <= pos < src.len()`.
pub open spec fn scan_at(src: Seq<char>, pos: int) -> Scan {
    let c = src[pos];
    if c == '(' {
        Scan::Emit(TokenTypeView::LParen, pos + 1)
    } else if c == ')' {
        Scan::Emit(TokenTypeView::RParen, pos + 1)
    } else if c == '{' {
        Scan::Emit(TokenTypeView::LBrace, pos + 1)
    } else if c == '}' {
        Scan::Emit(TokenTypeView::RBrace, pos + 1)
    } else if c == '[' {
        Scan::Emit(TokenTypeView::LBracket, pos + 1)
    } else if c == ']' {
        Scan::Emit(TokenTypeView::RBracket, pos + 1)
    } else if c == '.' {
        Scan::Emit(TokenTypeView::Dot, pos + 1)
    } else if c == ',' {
        Scan::Emit(TokenTypeView::Comma, pos + 1)
    } else if c == ';' {
        Scan::Emit(TokenTypeView::SemiColon, pos + 1)
    } else if c == ':' {
        Scan::Emit(TokenTypeView::Colon, pos + 1)
    } else if c == '+' {
        Scan::Emit(TokenTypeView::Plus, pos + 1)
    } else if c == '-' {
        Scan::Emit(TokenTypeView::Minus, pos + 1)
    } else if c == '%' {
        Scan::Emit(TokenTypeView::Percent, pos + 1)
    } else if c == '?' {
        Scan::Emit(TokenTypeView::Question, pos + 1)
    } else if c == '*' {
        scan_pair(src, pos, '*', TokenTypeView::Power, TokenTypeView::Star)
    } else if c == '=' {
        scan_pair(src, pos, '=', TokenTypeView::EqualEqual, TokenTypeView::Equal)
    } else if c == '!' {
        scan_pair(src, pos, '=', TokenTypeView::BangEqual, TokenTypeView::Bang)
    } else if c == '<' {
        scan_pair(src, pos, '=', TokenTypeView::LesserEqual, TokenTypeView::Lesser)
    } else if c == '>' {
        scan_pair(src, pos, '=', TokenTypeView::GreaterEqual, TokenTypeView::Greater)
    } else if c == '&' {
        scan_double(src, pos, TokenTypeView::And)
    } else if c == '|' {
        scan_double(src, pos, TokenTypeView::Or)
    } else if c == '/' {
        if pos + 1 < src.len() && src[pos + 1] == '/' {
            let end = pos + 1 + run_len(src, pos + 1, CharClass::CommentBody);
            Scan::Emit(TokenTypeView::LineComment(src.subrange(pos, end)), end)
        } else {
            Scan::Emit(TokenTypeView::Slash, pos + 1)
        }
    } else if c == ' ' || c == '\r' || c == '\t' || c == '\n' {
        Scan::Skip(pos + 1)
    } else if is_digit(c) {
        let end = pos + 1 + run_len(src, pos + 1, CharClass::Numeric);
        match number_value(src, pos, end) {
            Some(n) => Scan::Emit(TokenTypeView::Number(n), end),
            None => Scan::Fail(LexFault::InvalidNumber),
        }
    } else if c == '"' {
        let close = pos + 1 + run_len(src, pos + 1, CharClass::StringBody);
        if close >= src.len() {
            Scan::Fail(LexFault::UnterminatedString)
        } else {
            Scan::Emit(TokenTypeView::String(src.subrange(pos + 1, close)), close + 1)
        }
    } else if is_letter(c) {
        let end = pos + 1 + run_len(src, pos + 1, CharClass::Word);
        Scan::Emit(word_kind(src.subrange(pos, end)), end)
    } else {
        Scan::Fail(LexFault::InvalidCharacter)
    }
}

/// The error for a fault found at `pos`.
pub open spec fn fault_at(src: Seq<char>, pos: int, fault: LexFault) -> LexError {
    let line = line_at(src, pos) as usize;
    let col = col_at(src, pos) as usize;
    match fault {
        LexFault::InvalidCharacter => LexError::InvalidCharacter { character: src[pos], line, col },
        LexFault::UnterminatedString => LexError::UnterminatedString { line, col },
        LexFault::InvalidNumber => LexError::InvalidNumber { line, col },
    }
}

/// The token of kind `kind` that spans `src[start..end]`.
pub open spec fn token_at(src: Seq<char>, kind: TokenTypeView, start: int, end: int) -> TokenView {
    TokenView {
        ttype: kind,
        lexeme: src.subrange(start, end),
        line: line_at(src, start),
        col: col_at(src, start),
        start_pos: start as nat,
        end_pos: end as nat,
    }
}

/// The tokens of `src` from `pos` on, behind those in `done`, closed by the
/// end-of-input token; or the first error. Every step moves forward (see
/// `lemma_scan_advances`), so the scan goes on to the end of the text.
pub open spec fn tokens_from(src: Seq<char>, pos: int, done: Seq<TokenView>) -> Result<
    Seq<TokenView>,
    LexError,
>
    decreases src.len() - pos,
{
    if pos < 0 || pos >= src.len() {
        Ok(done.push(token_at(src, TokenTypeView::Eof, src.len() as int, src.len() as int)))
    } else {
        match scan_at(src, pos) {
            Scan::Skip(next) => if pos < next <= src.len() {
                tokens_from(src, next, done)
            } else {
                Ok(done)
            },
            Scan::Emit(kind, next) => if pos < next <= src.len() {
                tokens_from(src, next, done.push(token_at(src, kind, pos, next)))
            } else {
                Ok(done)
            },
            Scan::Fail(fault) => Err(fault_at(src, pos, fault)),
        }
    }
}

/// The tokens of a whole source text.
pub open spec fn tokens_of(src: Seq<char>) -> Result<Seq<TokenView>, LexError> {
    tokens_from(src, 0, Seq::empty())
}

/// The lexeme of `t` is the text of `src` between the offsets of `t`.
pub open spec fn spans_source(src: Seq<char>, t: TokenView) -> bool {
    &&& t.start_pos <= t.end_pos <= src.len()
    &&& t.lexeme == src.subrange(t.start_pos as int, t.end_pos as int)
}

/// Where the tokens in `done` span the source, so do all that follow them.
pub proof fn lemma_tokens_span_source(src: Seq<char>, pos: int, done: Seq<TokenView>)
    requires
        0 <= pos,
        forall|i: int| 0 <= i < done.len() ==> spans_source(src, #[trigger] done[i]),
    ensures
        match tokens_from(src, pos, done) {
            Ok(tokens) => forall|i: int|
                0 <= i < tokens.len() ==> spans_source(src, #[trigger] tokens[i]),
            Err(_) => true,
        },
    decreases src.len() - pos,
{
    if pos < src.len() {
        lemma_scan_advances(src, pos);
        match scan_at(src, pos) {
            Scan::Skip(next) => {
                lemma_tokens_span_source(src, next, done);
            },
            Scan::Emit(kind, next) => {
                lemma_tokens_span_source(src, next, done.push(token_at(src, kind, pos, next)));
            },
            Scan::Fail(_) => {},
        }
    }
}

/// For every source text that has tokens, the lexeme of each token is the
/// text between its two offsets.
pub proof fn lemma_lexemes_are_source_text(src: Seq<char>)
    ensures
        match tokens_of(src) {
            Ok(tokens) => forall|i: int|
                0 <= i < tokens.len() ==> spans_source(src, #[trigger] tokens[i]),
            Err(_) => true,
        },
{
    lemma_tokens_span_source(src, 0, Seq::empty());
}

pub open spec fn is_space(c: char) -> bool {
    c == ' ' || c == '\t' || c == '\r' || c == '\n'
}

/// The character at `k` lies in the span of `t`.
pub open spec fn inside(t: TokenView, k: int) -> bool {
    t.start_pos <= k < t.end_pos
}

/// The character at `k` lies in the span of one of the tokens.
pub open spec fn covered(tokens: Seq<TokenView>, k: int) -> bool {
    exists|i: int| 0 <= i < tokens.len() && inside(#[trigger] tokens[i], k)
}

/// The tokens lie in `src[0..upto]` one behind the other, none is empty,
/// and every character before `upto` outside them is white space.
pub open spec fn tiles(src: Seq<char>, tokens: Seq<TokenView>, upto: int) -> bool {
    &&& forall|i: int|
        0 <= i < tokens.len() ==> (#[trigger] tokens[i]).start_pos < tokens[i].end_pos <= upto
    &&& forall|i: int, j: int|
        0 <= i < j < tokens.len() ==> (#[trigger] tokens[i]).end_pos <= (
        #[trigger] tokens[j]).start_pos
    &&& forall|k: int| 0 <= k < upto ==> is_space(#[trigger] src[k]) || covered(tokens, k)
}

/// Where the tokens in `done` tile the text before `pos`, all the tokens
/// but the closing one tile the whole text.
pub proof fn lemma_tokens_tile_from(src: Seq<char>, pos: int, done: Seq<TokenView>)
    requires
        0 <= pos <= src.len(),
        tiles(src, done, pos),
    ensures
        match tokens_from(src, pos, done) {
            Ok(tokens) => tokens.len() > 0 && tiles(src, tokens.drop_last(), src.len() as int),
            Err(_) => true,
        },
    decreases src.len() - pos,
{
    if pos < src.len() {
        lemma_scan_advances(src, pos);
        match scan_at(src, pos) {
            Scan::Skip(next) => {
                assert(next == pos + 1 && is_space(src[pos]));
                lemma_tokens_tile_from(src, next, done);
            },
            Scan::Emit(kind, next) => {
                let t = token_at(src, kind, pos, next);
                let more = done.push(t);
                assert forall|k: int| 0 <= k < next implies is_space(#[trigger] src[k]) || covered(
                    more,
                    k,
                ) by {
                    if k >= pos {
                        assert(inside(more[done.len() as int], k));
                    } else if !is_space(src[k]) {
                        let i = choose|i: int| 0 <= i < done.len() && inside(#[trigger] done[i], k);
                        assert(inside(more[i], k));
                    }
                }
                assert forall|i: int, j: int| 0 <= i < j < more.len() implies (
                #[trigger] more[i]).end_pos <= (#[trigger] more[j]).start_pos by {
                    if j < done.len() {
                        assert(done[i].end_pos <= done[j].start_pos);
                    } else {
                        assert(done[i].end_pos <= pos);
                    }
                }
                assert(tiles(src, more, next));
                lemma_tokens_tile_from(src, next, more);
            },
            Scan::Fail(_) => {},
        }
    } else {
        let eof = token_at(src, TokenTypeView::Eof, src.len() as int, src.len() as int);
        assert(done.push(eof).drop_last() =~= done);
    }
}

/// For every source text that has tokens: the tokens before the closing
/// one follow each other in the text, none is empty, and every character
/// outside them is white space.
pub proof fn lemma_tokens_tile_source(src: Seq<char>)
    ensures
        match tokens_of(src) {
            Ok(tokens) => tokens.len() > 0 && tiles(src, tokens.drop_last(), src.len() as int),
            Err(_) => true,
        },
{
    lemma_tokens_tile_from(src, 0, Seq::empty());
}

/// Every step of the scanner moves forward.
pub proof fn lemma_scan_advances(src: Seq<char>, pos: int)
    requires
        0 <= pos < src.len(),
    ensures
        match scan_at(src, pos) {
            Scan::Skip(next) => pos < next <= src.len(),
            Scan::Emit(_, next) => pos < next <= src.len(),
            Scan::Fail(_) => true,
        },
{
    lemma_run_bounded(src, pos + 1, CharClass::CommentBody);
    lemma_run_bounded(src, pos + 1, CharClass::Numeric);
    lemma_run_bounded(src, pos + 1, CharClass::StringBody);
    lemma_run_bounded(src, pos + 1, CharClass::Word);
}

/// A run ends inside the text.
pub proof fn lemma_run_bounded(src: Seq<char>, pos: int, class: CharClass)
    requires
        0 <= pos <= src.len(),
    ensures
        pos + run_len(src, pos, class) <= src.len(),
    decreases src.len() - pos,
{
    if pos < src.len() && in_class(class, src[pos]) {
        lemma_run_bounded(src, pos + 1, class);
    }
}


/// The decimal value of a text does not shrink when the text grows.
pub proof fn lemma_decimal_monotonic(src: Seq<char>, lo: int, mid: int, hi: int)
    requires
        lo <= mid <= hi,
    ensures
        decimal_value(src, lo, mid) <= decimal_value(src, lo, hi),
    decreases hi - mid,
{
    if mid < hi {
        lemma_decimal_monotonic(src, lo, mid, hi - 1);
    }
}

/// The outcome of one scanning step, as the scanner holds it.
pub enum Step {
    Skip(usize),
    Emit(TokenType, usize),
    Fail(LexFault),
}

impl View for Step {
    type V = Scan;

    open spec fn view(&self) -> Scan {
        match self {
            Step::Skip(next) => Scan::Skip(*next as int),
            Step::Emit(kind, next) => Scan::Emit(kind@, *next as int),
            Step::Fail(fault) => Scan::Fail(*fault),
        }
    }
}

/// Tells whether `c` belongs to `class`.
pub fn class_has(class: CharClass, c: char) -> (b: bool)
    ensures
        b == in_class(class, c),
{
    match class {
        CharClass::Numeric => (c >= '0' && c <= '9') || c == '.',
        CharClass::Word => c.is_alphanumeric() || c == '_',
        CharClass::StringBody => c != '"',
        CharClass::CommentBody => c != '\n',
    }
}

/// The position behind the run of `class` that starts at `pos`.
pub fn run_end(src: &str, len: usize, pos: usize, class: CharClass) -> (end: usize)
    requires
        len == src@.len(),
        pos <= len,
    ensures
        end == pos + run_len(src@, pos as int, class),
        pos <= end <= len,
{
    let mut i: usize = pos;
    while i < len && class_has(class, src.get_char(i))
        invariant
            len == src@.len(),
            pos <= i <= len,
            pos + run_len(src@, pos as int, class) == i + run_len(src@, i as int, class),
        decreases len - i,
    {
        i += 1;
    }
    i
}

/// The value of the numeric run `src[lo..hi]`, where it is a whole number
/// that fits.
#[verifier::loop_isolation(false)]
pub fn number_of(src: &str, lo: usize, hi: usize) -> (r: Option<i64>)
    requires
        lo <= hi <= src@.len(),
    ensures
        match r {
            Some(n) => number_value(src@, lo as int, hi as int) == Some(n as int),
            None => number_value(src@, lo as int, hi as int) == None::<int>,
        },
{
    let mut acc: i64 = 0;
    let mut i: usize = lo;
    while i < hi && src.get_char(i) != '.'
        invariant
            lo <= i <= hi <= src@.len(),
            0 <= acc,
            acc == decimal_value(src@, lo as int, i as int),
            first_dot(src@, lo as int, hi as int) == first_dot(src@, i as int, hi as int),
        decreases hi - i,
    {
        let c = src.get_char(i);
        let d: i64 = if c >= '0' && c <= '9' {
            (c as u32 - '0' as u32) as i64
        } else {
            0
        };
        if acc > (i64::MAX - d) / 10 {
            proof {
                lemma_first_dot_bounds(src@, i + 1, hi as int);
                lemma_decimal_monotonic(
                    src@,
                    lo as int,
                    i + 1,
                    first_dot(src@, lo as int, hi as int),
                );
            }
            return None;
        }
        acc = acc * 10 + d;
        i += 1;
    }
    let dot = i;
    assert(dot == first_dot(src@, lo as int, hi as int));
    if dot < hi {
        let mut k: usize = dot + 1;
        while k < hi
            invariant
                dot < k <= hi <= src@.len(),
                forall|j: int| dot < j < k ==> src@[j] == '0',
            decreases hi - k,
        {
            if src.get_char(k) != '0' {
                assert(dot < k < hi && src@[k as int] != '0');
                return None;
            }
            k += 1;
        }
    }
    Some(acc)
}

/// The kind of the word `text`.
pub fn word_type(text: String) -> (kind: TokenType)
    ensures
        kind@ == word_kind(text@),
{
    if text.eq(&String::from_str("function")) {
        TokenType::Function
    } else if text.eq(&String::from_str("let")) {
        TokenType::Let
    } else if text.eq(&String::from_str("const")) {
        TokenType::Const
    } else if text.eq(&String::from_str("var")) {
        TokenType::Var
    } else if text.eq(&String::from_str("return")) {
        TokenType::Return
    } else if text.eq(&String::from_str("if")) {
        TokenType::If
    } else if text.eq(&String::from_str("else")) {
        TokenType::Else
    } else if text.eq(&String::from_str("for")) {
        TokenType::For
    } else if text.eq(&String::from_str("while")) {
        TokenType::While
    } else if text.eq(&String::from_str("break")) {
        TokenType::Break
    } else if text.eq(&String::from_str("continue")) {
        TokenType::Continue
    } else if text.eq(&String::from_str("throw")) {
        TokenType::Throw
    } else if text.eq(&String::from_str("typeof")) {
        TokenType::Typeof
    } else if text.eq(&String::from_str("null")) {
        TokenType::Null
    } else if text.eq(&String::from_str("true")) {
        TokenType::Boolean(true)
    } else if text.eq(&String::from_str("false")) {
        TokenType::Boolean(false)
    } else {
        TokenType::Identifier(text)
    }
}

/// The text `src[from..to]` as a string of its own.
pub fn slice_of(src: &str, from: usize, to: usize) -> (text: String)
    requires
        from <= to <= src@.len(),
    ensures
        text@ == src@.subrange(from as int, to as int),
{
    String::from_str(src.substring_char(from, to))
}

/// One of the operators that are one character long or, with `second`
/// behind it, two.
pub fn pair_step(src: &str, len: usize, pos: usize, second: char, long: TokenType, short: TokenType) -> (step: Step)
    requires
        len == src@.len(),
        pos < len < usize::MAX,
    ensures
        step@ == scan_pair(src@, pos as int, second, long@, short@),
{
    if pos + 1 < len && src.get_char(pos + 1) == second {
        Step::Emit(long, pos + 2)
    } else {
        Step::Emit(short, pos + 1)
    }
}

/// One of the operators that are the same character twice.
pub fn double_step(src: &str, len: usize, pos: usize, kind: TokenType) -> (step: Step)
    requires
        len == src@.len(),
        pos < len < usize::MAX,
    ensures
        step@ == scan_double(src@, pos as int, kind@),
{
    if pos + 1 < len && src.get_char(pos + 1) == src.get_char(pos) {
        Step::Emit(kind, pos + 2)
    } else {
        Step::Fail(LexFault::InvalidCharacter)
    }
}

/// The scanning step at `pos`.
pub fn scan_step(src: &str, len: usize, pos: usize) -> (step: Step)
    requires
        len == src@.len(),
        pos < len < usize::MAX,
    ensures
        step@ == scan_at(src@, pos as int),
{
    let c = src.get_char(pos);
    if c == '(' {
        Step::Emit(TokenType::LParen, pos + 1)
    } else if c == ')' {
        Step::Emit(TokenType::RParen, pos + 1)
    } else if c == '{' {
        Step::Emit(TokenType::LBrace, pos + 1)
    } else if c == '}' {
        Step::Emit(TokenType::RBrace, pos + 1)
    } else if c == '[' {
        Step::Emit(TokenType::LBracket, pos + 1)
    } else if c == ']' {
        Step::Emit(TokenType::RBracket, pos + 1)
    } else if c == '.' {
        Step::Emit(TokenType::Dot, pos + 1)
    } else if c == ',' {
        Step::Emit(TokenType::Comma, pos + 1)
    } else if c == ';' {
        Step::Emit(TokenType::SemiColon, pos + 1)
    } else if c == ':' {
        Step::Emit(TokenType::Colon, pos + 1)
    } else if c == '+' {
        Step::Emit(TokenType::Plus, pos + 1)
    } else if c == '-' {
        Step::Emit(TokenType::Minus, pos + 1)
    } else if c == '%' {
        Step::Emit(TokenType::Percent, pos + 1)
    } else if c == '?' {
        Step::Emit(TokenType::Question, pos + 1)
    } else if c == '*' {
        pair_step(src, len, pos, '*', TokenType::Power, TokenType::Star)
    } else if c == '=' {
        pair_step(src, len, pos, '=', TokenType::EqualEqual, TokenType::Equal)
    } else if c == '!' {
        pair_step(src, len, pos, '=', TokenType::BangEqual, TokenType::Bang)
    } else if c == '<' {
        pair_step(src, len, pos, '=', TokenType::LesserEqual, TokenType::Lesser)
    } else if c == '>' {
        pair_step(src, len, pos, '=', TokenType::GreaterEqual, TokenType::Greater)
    } else if c == '&' {
        double_step(src, len, pos, TokenType::And)
    } else if c == '|' {
        double_step(src, len, pos, TokenType::Or)
    } else if c == '/' {
        if pos + 1 < len && src.get_char(pos + 1) == '/' {
            let end = run_end(src, len, pos + 1, CharClass::CommentBody);
            Step::Emit(TokenType::LineComment(slice_of(src, pos, end)), end)
        } else {
            Step::Emit(TokenType::Slash, pos + 1)
        }
    } else if c == ' ' || c == '\r' || c == '\t' || c == '\n' {
        Step::Skip(pos + 1)
    } else if c >= '0' && c <= '9' {
        let end = run_end(src, len, pos + 1, CharClass::Numeric);
        match number_of(src, pos, end) {
            Some(n) => Step::Emit(TokenType::Number(n), end),
            None => Step::Fail(LexFault::InvalidNumber),
        }
    } else if c == '"' {
        let close = run_end(src, len, pos + 1, CharClass::StringBody);
        if close >= len {
            Step::Fail(LexFault::UnterminatedString)
        } else {
            Step::Emit(TokenType::String(slice_of(src, pos + 1, close)), close + 1)
        }
    } else if (c >= 'a' && c <= 'z') || (c >= 'A' && c <= 'Z') || c == '_' {
        let end = run_end(src, len, pos + 1, CharClass::Word);
        Step::Emit(word_type(slice_of(src, pos, end)), end)
    } else {
        Step::Fail(LexFault::InvalidCharacter)
    }
}

/// The line and column of `to`, from those of `from`.
pub fn place_after(src: &str, from: usize, to: usize, line: usize, col: usize) -> (place: (usize, usize))
    requires
        from <= to <= src@.len(),
        src@.len() < usize::MAX,
        line == line_at(src@, from as int),
        col == col_at(src@, from as int),
        line <= from + 1,
        col <= from + 1,
    ensures
        place.0 == line_at(src@, to as int),
        place.1 == col_at(src@, to as int),
        place.0 <= to + 1,
        place.1 <= to + 1,
{
    let mut i: usize = from;
    let mut l: usize = line;
    let mut c: usize = col;
    while i < to
        invariant
            from <= i <= to <= src@.len(),
            src@.len() < usize::MAX,
            l == line_at(src@, i as int),
            c == col_at(src@, i as int),
            l <= i + 1,
            c <= i + 1,
        decreases to - i,
    {
        if src.get_char(i) == '\n' {
            l += 1;
            c = 1;
        } else {
            c += 1;
        }
        i += 1;
    }
    (l, c)
}

/// The error for `fault` at the character, line and column given.
pub fn error_at(fault: LexFault, character: char, line: usize, col: usize) -> (e: LexError)
    ensures
        e == (match fault {
            LexFault::InvalidCharacter => LexError::InvalidCharacter { character, line, col },
            LexFault::UnterminatedString => LexError::UnterminatedString { line, col },
            LexFault::InvalidNumber => LexError::InvalidNumber { line, col },
        }),
{
    match fault {
        LexFault::InvalidCharacter => LexError::InvalidCharacter { character, line, col },
        LexFault::UnterminatedString => LexError::UnterminatedString { line, col },
        LexFault::InvalidNumber => LexError::InvalidNumber { line, col },
    }
}

/// Splits a source text into tokens.
pub struct Lexer {
    source: String,
}

impl Lexer {
    /// The source text, as a sequence of characters.
    pub closed spec fn text(&self) -> Seq<char> {
        self.source@
    }

    pub fn new(source: String) -> (lexer: Self)
        ensures
            lexer.text() == source@,
    {
        Lexer { source }
    }

    /// The tokens of the source text, closed by the end-of-input token, or
    /// the first error. The lexeme of every token is the text between its
    /// two offsets.
    pub fn tokenize(&self) -> (r: Result<Vec<Token>, LexError>)
        requires
            self.text().len() < usize::MAX,
        ensures
            match r {
                Ok(tokens) => {
                    &&& tokens_of(self.text()) == Ok::<Seq<TokenView>, LexError>(
                        tokens_view(tokens@),
                    )
                    &&& tokens@.len() > 0
                    &&& tokens_view(tokens@).last().ttype is Eof
                    &&& forall|i: int|
                        0 <= i < tokens@.len() ==> {
                            &&& (#[trigger] tokens@[i]).start_pos <= tokens@[i].end_pos
                                <= self.text().len()
                            &&& tokens@[i].lexeme@ == self.text().subrange(
                                tokens@[i].start_pos as int,
                                tokens@[i].end_pos as int,
                            )
                        }
                },
                Err(e) => tokens_of(self.text()) == Err::<Seq<TokenView>, LexError>(e),
            },
    {
        let src = self.source.as_str();
        let len = src.unicode_len();
        let mut tokens: Vec<Token> = Vec::new();
        let mut pos: usize = 0;
        let mut line: usize = 1;
        let mut col: usize = 1;
        assert(tokens_view(tokens@) =~= Seq::empty());
        while pos < len
            invariant
                src@ == self.text(),
                len == src@.len(),
                len < usize::MAX,
                pos <= len,
                line == line_at(src@, pos as int),
                col == col_at(src@, pos as int),
                line <= pos + 1,
                col <= pos + 1,
                tokens_of(src@) == tokens_from(src@, pos as int, tokens_view(tokens@)),
                forall|i: int|
                    0 <= i < tokens@.len() ==> {
                        &&& (#[trigger] tokens@[i]).start_pos <= tokens@[i].end_pos <= len
                        &&& tokens@[i].lexeme@ == src@.subrange(
                            tokens@[i].start_pos as int,
                            tokens@[i].end_pos as int,
                        )
                    },
            decreases len - pos,
        {
            proof {
                lemma_scan_advances(src@, pos as int);
            }
            match scan_step(src, len, pos) {
                Step::Skip(next) => {
                    let place = place_after(src, pos, next, line, col);
                    line = place.0;
                    col = place.1;
                    pos = next;
                },
                Step::Emit(kind, next) => {
                    let ghost before = tokens_view(tokens@);
                    let token = Token {
                        ttype: kind,
                        lexeme: slice_of(src, pos, next),
                        line,
                        col,
                        start_pos: pos,
                        end_pos: next,
                    };
                    assert(token@ == token_at(src@, kind@, pos as int, next as int));
                    tokens.push(token);
                    assert(tokens_view(tokens@) =~= before.push(
                        token_at(src@, kind@, pos as int, next as int),
                    ));
                    let place = place_after(src, pos, next, line, col);
                    line = place.0;
                    col = place.1;
                    pos = next;
                },
                Step::Fail(fault) => {
                    return Err(error_at(fault, src.get_char(pos), line, col));
                },
            }
        }
        let ghost before = tokens_view(tokens@);
        let token = Token {
            ttype: TokenType::Eof,
            lexeme: slice_of(src, len, len),
            line,
            col,
            start_pos: len,
            end_pos: len,
        };
        tokens.push(token);
        assert(tokens_view(tokens@) =~= before.push(
            token_at(src@, TokenTypeView::Eof, len as int, len as int),
        ));
        Ok(tokens)
    }
}

} // verus!
