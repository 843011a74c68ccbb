use script_interpreter::ast::{Expression, Literal, Statement};
use script_interpreter::environment::{Environment, EnvironmentError, FunctionExpression, Value};
use script_interpreter::interpreter::{
    is_truthy, Interpreter, RuntimeError, MAX_DEPTH, MAX_ROUNDS,
};
use script_interpreter::lexer::{LexError, Lexer, Token, TokenType};
use script_interpreter::parser::{ParseError, ParseErrorKind, Parser};
use script_interpreter::{run as run_source, Failure};

fn lex(source: &str) -> Vec<Token> {
    Lexer::new(source.to_string()).tokenize().unwrap()
}

fn kinds(source: &str) -> Vec<TokenType> {
    lex(source).iter().map(|t| t.ttype.clone()).collect()
}

fn parse(source: &str) -> Result<Vec<Statement>, ParseError> {
    Parser::new(lex(source)).parse()
}

fn run(source: &str) -> Result<Option<Value>, RuntimeError> {
    Interpreter::new().interpret(parse(source).unwrap())
}

fn num(n: i64) -> Expression {
    Expression::Literal(Literal::Number(n))
}

fn binary(left: Expression, operator: TokenType, right: Expression) -> Expression {
    Expression::Binary { left: Box::new(left), operator, right: Box::new(right) }
}

#[test]
fn lexemes_are_the_text_between_the_offsets() {
    let source = "let total = (alpha + 42) ** 2; // sum\n\"text\" <= >= != == && || foo_1";
    let chars: Vec<char> = source.chars().collect();
    let tokens = lex(source);
    assert!(tokens.len() > 10);
    for token in &tokens {
        let slice: String = chars[token.start_pos..token.end_pos].iter().collect();
        assert_eq!(slice, token.lexeme);
    }
}

#[test]
fn empty_source_gives_only_end_of_input() {
    let tokens = lex("");
    assert_eq!(
        tokens,
        vec![Token {
            ttype: TokenType::Eof,
            lexeme: String::new(),
            line: 1,
            col: 1,
            start_pos: 0,
            end_pos: 0
        }]
    );
}

#[test]
fn punctuation_and_operators() {
    assert_eq!(
        kinds("( ) { } [ ] . , ; : + - % ? * / = ! < > x"),
        vec![
            TokenType::LParen,
            TokenType::RParen,
            TokenType::LBrace,
            TokenType::RBrace,
            TokenType::LBracket,
            TokenType::RBracket,
            TokenType::Dot,
            TokenType::Comma,
            TokenType::SemiColon,
            TokenType::Colon,
            TokenType::Plus,
            TokenType::Minus,
            TokenType::Percent,
            TokenType::Question,
            TokenType::Star,
            TokenType::Slash,
            TokenType::Equal,
            TokenType::Bang,
            TokenType::Lesser,
            TokenType::Greater,
            TokenType::Identifier("x".to_string()),
            TokenType::Eof,
        ]
    );
}

#[test]
fn two_character_operators() {
    assert_eq!(
        kinds("** == != && || <= >= 1"),
        vec![
            TokenType::Power,
            TokenType::EqualEqual,
            TokenType::BangEqual,
            TokenType::And,
            TokenType::Or,
            TokenType::LesserEqual,
            TokenType::GreaterEqual,
            TokenType::Number(1),
            TokenType::Eof,
        ]
    );
}

#[test]
fn operator_at_the_end_of_the_text_is_a_token() {
    assert_eq!(kinds("5 /"), vec![TokenType::Number(5), TokenType::Slash, TokenType::Eof]);
    assert_eq!(kinds("1 *"), vec![TokenType::Number(1), TokenType::Star, TokenType::Eof]);
    assert_eq!(kinds("/"), vec![TokenType::Slash, TokenType::Eof]);
    assert_eq!(kinds("="), vec![TokenType::Equal, TokenType::Eof]);
    assert_eq!(kinds("!"), vec![TokenType::Bang, TokenType::Eof]);
    assert_eq!(kinds("<"), vec![TokenType::Lesser, TokenType::Eof]);
    assert_eq!(kinds(">"), vec![TokenType::Greater, TokenType::Eof]);
    assert_eq!(kinds("**"), vec![TokenType::Power, TokenType::Eof]);
    assert_eq!(kinds("***"), vec![TokenType::Power, TokenType::Star, TokenType::Eof]);
    let last = &lex("a =")[1];
    assert_eq!((last.lexeme.as_str(), last.start_pos, last.end_pos, last.col), ("=", 2, 3, 3));
}

#[test]
fn single_ampersand_or_bar_is_no_token() {
    assert_eq!(
        Lexer::new("a & b".to_string()).tokenize(),
        Err(LexError::InvalidCharacter { character: '&', line: 1, col: 3 })
    );
    assert_eq!(
        Lexer::new("a |".to_string()).tokenize(),
        Err(LexError::InvalidCharacter { character: '|', line: 1, col: 3 })
    );
    assert_eq!(
        Lexer::new("&|".to_string()).tokenize(),
        Err(LexError::InvalidCharacter { character: '&', line: 1, col: 1 })
    );
}

#[test]
fn characters_outside_the_tokens_are_white_space() {
    let source = "let a = 1 ;\n\t{ f ( a , 2 ) }\r\n // c\n\"s t\" && || ! = < > * / %";
    let chars: Vec<char> = source.chars().collect();
    let tokens = lex(source);
    let mut at = 0;
    for token in &tokens[..tokens.len() - 1] {
        assert!(token.start_pos < token.end_pos && token.end_pos <= chars.len());
        assert!(at <= token.start_pos);
        for c in &chars[at..token.start_pos] {
            assert!(matches!(c, ' ' | '\t' | '\r' | '\n'));
        }
        at = token.end_pos;
    }
    for c in &chars[at..] {
        assert!(matches!(c, ' ' | '\t' | '\r' | '\n'));
    }
}

#[test]
fn keywords_and_identifiers() {
    assert_eq!(
        kinds("function let const var return if else for while break continue throw typeof null true false lets _x Let"),
        vec![
            TokenType::Function,
            TokenType::Let,
            TokenType::Const,
            TokenType::Var,
            TokenType::Return,
            TokenType::If,
            TokenType::Else,
            TokenType::For,
            TokenType::While,
            TokenType::Break,
            TokenType::Continue,
            TokenType::Throw,
            TokenType::Typeof,
            TokenType::Null,
            TokenType::Boolean(true),
            TokenType::Boolean(false),
            TokenType::Identifier("lets".to_string()),
            TokenType::Identifier("_x".to_string()),
            TokenType::Identifier("Let".to_string()),
            TokenType::Eof,
        ]
    );
}

#[test]
fn numbers_strings_and_comments() {
    assert_eq!(
        kinds("12 \"a b\" // rest of line\n007"),
        vec![
            TokenType::Number(12),
            TokenType::String("a b".to_string()),
            TokenType::LineComment("// rest of line".to_string()),
            TokenType::Number(7),
            TokenType::Eof,
        ]
    );
    assert_eq!(kinds("9223372036854775807")[0], TokenType::Number(i64::MAX));
}

#[test]
fn positions_count_lines_and_columns() {
    let tokens = lex("ab +\n  cd\n\"x\ny\" z");
    let places: Vec<(usize, usize, usize, usize)> =
        tokens.iter().map(|t| (t.line, t.col, t.start_pos, t.end_pos)).collect();
    assert_eq!(
        places,
        vec![(1, 1, 0, 2), (1, 4, 3, 4), (2, 3, 7, 9), (3, 1, 10, 15), (4, 4, 16, 17), (4, 5, 17, 17)]
    );
    assert_eq!(tokens[3].ttype, TokenType::String("x\ny".to_string()));
    assert_eq!(tokens[3].lexeme, "\"x\ny\"");
}

#[test]
fn invalid_character_is_an_error() {
    assert_eq!(
        Lexer::new("a\n  #".to_string()).tokenize(),
        Err(LexError::InvalidCharacter { character: '#', line: 2, col: 3 })
    );
}

#[test]
fn unterminated_string_is_an_error() {
    assert_eq!(
        Lexer::new("x \"abc".to_string()).tokenize(),
        Err(LexError::UnterminatedString { line: 1, col: 3 })
    );
}

#[test]
fn invalid_number_is_an_error() {
    assert_eq!(
        Lexer::new("1.2.3".to_string()).tokenize(),
        Err(LexError::InvalidNumber { line: 1, col: 1 })
    );
    assert_eq!(kinds("2. 1.0 3.000 0.0")[..4], [
        TokenType::Number(2),
        TokenType::Number(1),
        TokenType::Number(3),
        TokenType::Number(0),
    ]);
    assert_eq!(lex("12.00;")[0].lexeme, "12.00");
    assert_eq!(run("7.0 / 2."), Ok(Some(Value::Number(3))));
    assert_eq!(
        Lexer::new("1.05".to_string()).tokenize(),
        Err(LexError::InvalidNumber { line: 1, col: 1 })
    );
    assert_eq!(
        Lexer::new("1..".to_string()).tokenize(),
        Err(LexError::InvalidNumber { line: 1, col: 1 })
    );
    assert_eq!(
        Lexer::new("9223372036854775808.0".to_string()).tokenize(),
        Err(LexError::InvalidNumber { line: 1, col: 1 })
    );
    assert_eq!(
        Lexer::new(" 1.5".to_string()).tokenize(),
        Err(LexError::InvalidNumber { line: 1, col: 2 })
    );
    assert_eq!(
        Lexer::new("9223372036854775808".to_string()).tokenize(),
        Err(LexError::InvalidNumber { line: 1, col: 1 })
    );
}

#[test]
fn tokenize_twice_gives_the_same_tokens() {
    let lexer = Lexer::new("a + 1".to_string());
    assert_eq!(lexer.tokenize(), lexer.tokenize());
}

#[test]
fn multiplication_binds_tighter_on_the_right() {
    assert_eq!(
        parse("2 + 3 * 4").unwrap(),
        vec![Statement::Expression(binary(
            num(2),
            TokenType::Plus,
            binary(num(3), TokenType::Star, num(4))
        ))]
    );
}

#[test]
fn chains_lean_to_the_right() {
    assert_eq!(
        parse("1 - 2 - 3").unwrap(),
        vec![Statement::Expression(binary(
            num(1),
            TokenType::Minus,
            binary(num(2), TokenType::Minus, num(3))
        ))]
    );
    assert_eq!(
        parse("2 * 3 + 4").unwrap(),
        vec![Statement::Expression(binary(
            num(2),
            TokenType::Star,
            binary(num(3), TokenType::Plus, num(4))
        ))]
    );
}

#[test]
fn grouping_unary_and_comparison_parse() {
    assert_eq!(
        parse("(1) == -x").unwrap(),
        vec![Statement::Expression(binary(
            Expression::Grouping(Box::new(num(1))),
            TokenType::EqualEqual,
            Expression::Unary {
                operator: "-".to_string(),
                right: Box::new(Expression::Variable("x".to_string()))
            }
        ))]
    );
    assert_eq!(
        parse("!a < b").unwrap(),
        vec![Statement::Expression(Expression::Unary {
            operator: "!".to_string(),
            right: Box::new(binary(
                Expression::Variable("a".to_string()),
                TokenType::Lesser,
                Expression::Variable("b".to_string())
            ))
        })]
    );
}

#[test]
fn declarations_parse() {
    assert_eq!(
        parse("let x = 1; var y; const z = \"s\"").unwrap(),
        vec![
            Statement::VariableDeclaration {
                name: "x".to_string(),
                initializer: Some(num(1)),
                can_reassign: true
            },
            Statement::Expression(Expression::Literal(Literal::Void)),
            Statement::VariableDeclaration {
                name: "y".to_string(),
                initializer: None,
                can_reassign: true
            },
            Statement::VariableDeclaration {
                name: "z".to_string(),
                initializer: Some(Expression::Literal(Literal::String("s".to_string()))),
                can_reassign: false
            },
        ]
    );
}

#[test]
fn assignment_call_and_literals_parse() {
    assert_eq!(
        parse("x = f(1, true, null)").unwrap(),
        vec![Statement::Expression(Expression::Assignment {
            name: "x".to_string(),
            value: Box::new(Expression::Call {
                callee: Box::new(Expression::Variable("f".to_string())),
                arguments: vec![
                    num(1),
                    Expression::Literal(Literal::Boolean(true)),
                    Expression::Literal(Literal::Null)
                ],
            }),
        })]
    );
    assert_eq!(
        parse("f()").unwrap(),
        vec![Statement::Expression(Expression::Call {
            callee: Box::new(Expression::Variable("f".to_string())),
            arguments: vec![],
        })]
    );
}

#[test]
fn function_block_and_return_parse() {
    assert_eq!(
        parse("function f(a, b) { return } { return; 1 }").unwrap(),
        vec![
            Statement::FunctionDeclaration {
                name: "f".to_string(),
                parameters: vec!["a".to_string(), "b".to_string()],
                body: vec![Statement::Return(None)],
            },
            Statement::Block(vec![Statement::Return(None), Statement::Expression(num(1))]),
        ]
    );
}

#[test]
fn end_of_input_in_place_of_an_expression_is_void() {
    assert_eq!(
        parse("1 +").unwrap(),
        vec![Statement::Expression(binary(
            num(1),
            TokenType::Plus,
            Expression::Literal(Literal::Void)
        ))]
    );
    assert_eq!(parse("").unwrap(), vec![]);
}

fn error_kind(source: &str) -> (ParseErrorKind, String, usize, usize) {
    let e = parse(source).unwrap_err();
    (e.kind, e.lexeme, e.line, e.col)
}

#[test]
fn parse_errors_name_the_token() {
    assert_eq!(error_kind("const x;"), (ParseErrorKind::MissingInitializer, ";".to_string(), 1, 8));
    assert_eq!(error_kind("let 1"), (ParseErrorKind::InvalidName, "1".to_string(), 1, 5));
    assert_eq!(error_kind("function 1"), (ParseErrorKind::InvalidName, "1".to_string(), 1, 10));
    assert_eq!(error_kind("function f {"), (ParseErrorKind::ExpectedParen, "{".to_string(), 1, 12));
    assert_eq!(error_kind("function f(a 1)"), (ParseErrorKind::InvalidParameter, "1".to_string(), 1, 14));
    assert_eq!(error_kind("function f(a) 1"), (ParseErrorKind::ExpectedBrace, "1".to_string(), 1, 15));
    assert_eq!(error_kind("{ 1"), (ParseErrorKind::UnterminatedBlock, "".to_string(), 1, 4));
    assert_eq!(error_kind("(1 2"), (ParseErrorKind::UnmatchedParen, "2".to_string(), 1, 4));
    assert_eq!(error_kind("f(1"), (ParseErrorKind::UnterminatedCall, "".to_string(), 1, 4));
    assert_eq!(error_kind("+ 1"), (ParseErrorKind::UnexpectedToken, "+".to_string(), 1, 1));
    assert_eq!(error_kind("if"), (ParseErrorKind::UnexpectedToken, "if".to_string(), 1, 1));
}

#[test]
fn precedence_evaluates_to_fourteen() {
    assert_eq!(run("2 + 3 * 4"), Ok(Some(Value::Number(14))));
}

#[test]
fn grouping_evaluates_to_twenty() {
    assert_eq!(run("(2 + 3) * 4"), Ok(Some(Value::Number(20))));
}

#[test]
fn exponentiation_evaluates_to_eight() {
    assert_eq!(run("2 ** 3"), Ok(Some(Value::Number(8))));
    assert_eq!(run("7 ** 0"), Ok(Some(Value::Number(1))));
    assert_eq!(run("2 ** 62"), Ok(Some(Value::Number(4611686018427387904))));
    assert_eq!(run("2 ** 63"), Err(RuntimeError::NumberOutOfRange));
    assert_eq!(run("2 ** 64"), Err(RuntimeError::NumberOutOfRange));
    assert_eq!(run("(0 - 2) ** 63"), Ok(Some(Value::Number(i64::MIN))));
    assert_eq!(run("(0 - 2) ** 64"), Err(RuntimeError::NumberOutOfRange));
    assert_eq!(run("3 ** 1000"), Err(RuntimeError::NumberOutOfRange));
    assert_eq!(run("1 ** 9223372036854775807"), Ok(Some(Value::Number(1))));
    assert_eq!(run("0 ** 1000"), Ok(Some(Value::Number(0))));
    assert_eq!(run("0 ** 0"), Ok(Some(Value::Number(1))));
    assert_eq!(run("(0 - 1) ** 1001"), Ok(Some(Value::Number(-1))));
    assert_eq!(run("(0 - 1) ** 1000"), Ok(Some(Value::Number(1))));
    assert_eq!(run("2 ** (0 - 1)"), Err(RuntimeError::NumberOutOfRange));
}

#[test]
fn division_by_zero_is_an_error() {
    assert_eq!(run("5 / 0"), Err(RuntimeError::DivisionByZero));
    assert_eq!(run("5 % 0"), Err(RuntimeError::DivisionByZero));
}

#[test]
fn arithmetic_on_whole_numbers() {
    assert_eq!(run("7 - 10"), Ok(Some(Value::Number(-3))));
    assert_eq!(run("7 / 2"), Ok(Some(Value::Number(3))));
    assert_eq!(run("(0 - 7) / 2"), Ok(Some(Value::Number(-3))));
    assert_eq!(run("7 / (0 - 2)"), Ok(Some(Value::Number(-3))));
    assert_eq!(run("7 % 3"), Ok(Some(Value::Number(1))));
    assert_eq!(run("(0 - 7) % 3"), Ok(Some(Value::Number(-1))));
    assert_eq!(run("7 % (0 - 3)"), Ok(Some(Value::Number(1))));
    assert_eq!(run("9223372036854775807 + 1"), Err(RuntimeError::NumberOutOfRange));
    assert_eq!(run("4611686018427387904 * 2"), Err(RuntimeError::NumberOutOfRange));
    assert_eq!(run("0 - 9223372036854775807 - 1"), Ok(Some(Value::Number(-9223372036854775806))));
    assert_eq!(
        run("((0 - 9223372036854775807) - 1) / (0 - 1)"),
        Err(RuntimeError::NumberOutOfRange)
    );
    assert_eq!(run("((0 - 9223372036854775807) - 1) / 1"), Ok(Some(Value::Number(i64::MIN))));
    assert_eq!(run("((0 - 9223372036854775807) - 1) % (0 - 1)"), Ok(Some(Value::Number(0))));
    assert_eq!(run("-((0 - 9223372036854775807) - 1)"), Err(RuntimeError::NumberOutOfRange));
}

#[test]
fn operands_must_be_numbers() {
    assert_eq!(run("1 + \"a\""), Err(RuntimeError::InvalidBinaryOperation));
    assert_eq!(run("true * 2"), Err(RuntimeError::InvalidBinaryOperation));
    assert_eq!(run("1 < 2"), Err(RuntimeError::InvalidBinaryOperation));
    assert_eq!(run("1 == 1"), Err(RuntimeError::InvalidBinaryOperation));
}

#[test]
fn unary_operators() {
    assert_eq!(run("-5"), Ok(Some(Value::Number(-5))));
    assert_eq!(run("-\"a\""), Ok(Some(Value::Number(-1))));
    assert_eq!(run("!0"), Ok(Some(Value::Boolean(true))));
    assert_eq!(run("!1"), Ok(Some(Value::Boolean(false))));
    assert_eq!(run("!\"\""), Ok(Some(Value::Boolean(true))));
    assert_eq!(run("!null"), Ok(Some(Value::Boolean(true))));
}

#[test]
fn truthiness() {
    assert!(is_truthy(&Value::Number(1)));
    assert!(!is_truthy(&Value::Number(0)));
    assert!(!is_truthy(&Value::Number(-3)));
    assert!(is_truthy(&Value::String("a".to_string())));
    assert!(!is_truthy(&Value::String(String::new())));
    assert!(is_truthy(&Value::Boolean(true)));
    assert!(!is_truthy(&Value::Boolean(false)));
    assert!(!is_truthy(&Value::Null));
    assert!(is_truthy(&Value::Function(Box::new(FunctionExpression::new(vec![], vec![])))));
}

#[test]
fn block_scope_ends_with_the_block() {
    assert_eq!(run("{ let inner = 1 } inner"), Ok(Some(Value::Null)));
    assert_eq!(run("let x = 1; { let x = 2 } x"), Ok(Some(Value::Number(1))));
    assert_eq!(run("let x = 1; { let y = x + 1; { let z = y + 1 } } x"), Ok(Some(Value::Number(1))));
}

#[test]
fn parameters_do_not_leak() {
    assert_eq!(
        run("function f(a) { let local = a; return a } f(7); a"),
        Ok(Some(Value::Null))
    );
    assert_eq!(
        run("function f(a) { let local = a; return a } f(7); local"),
        Ok(Some(Value::Null))
    );
    assert_eq!(run("let a = 1; function f(a) { return a } f(2); a"), Ok(Some(Value::Number(1))));
}

#[test]
fn const_without_value_fails() {
    assert_eq!(parse("const x;").unwrap_err().kind, ParseErrorKind::MissingInitializer);
    let statement = Statement::VariableDeclaration {
        name: "x".to_string(),
        initializer: None,
        can_reassign: false,
    };
    assert_eq!(Interpreter::new().interpret(vec![statement]), Err(RuntimeError::MissingInitializer));
}

#[test]
fn literal_evaluates_the_same_every_time() {
    let mut interpreter = Interpreter::new();
    let literal = Expression::Literal(Literal::String("s".to_string()));
    let first = interpreter.evaluate(&literal, 1);
    let second = interpreter.evaluate(&literal, 5);
    assert_eq!(first, Ok(Value::String("s".to_string())));
    assert_eq!(first, second);
    assert_eq!(interpreter.evaluate(&Expression::Variable("s".to_string()), 1), Ok(Value::Null));
}

#[test]
fn end_to_end_function_call() {
    assert_eq!(
        run("function add(a, b) { return a + b } add(2, 3);"),
        Ok(Some(Value::Number(5)))
    );
    assert_eq!(
        run("function pow(a, b) {\n return a ** b\n }\n function add(a, b) {\n return a + b\n }\n add(pow(2, 3), 2);"),
        Ok(Some(Value::Number(10)))
    );
}

#[test]
fn calls_bind_by_position() {
    assert_eq!(run("function f(a, b) { return b } f(1)"), Ok(Some(Value::Null)));
    assert_eq!(run("function f(a) { return a } f(1, 2, 3)"), Ok(Some(Value::Number(1))));
    assert_eq!(run("function f(a) { return a } f(1, 2 / 0)"), Err(RuntimeError::DivisionByZero));
    assert_eq!(run("function f(a, b) { return b } f(4, a + 1)"), Ok(Some(Value::Number(5))));
    assert_eq!(run("function f() { 1 } f()"), Ok(Some(Value::Null)));
    assert_eq!(run("function f() { return 1; 2 / 0 } f()"), Ok(Some(Value::Number(1))));
    assert_eq!(run("function f() { return } f()"), Ok(Some(Value::Null)));
}

#[test]
fn call_of_what_is_no_function_fails() {
    assert_eq!(
        run("let x = 1; x(2)"),
        Err(RuntimeError::NotAFunction { callee: "1".to_string() })
    );
    assert_eq!(
        run("missing()"),
        Err(RuntimeError::NotAFunction { callee: "null".to_string() })
    );
    assert_eq!(
        run("let s = \"a\"; s()"),
        Err(RuntimeError::NotAFunction { callee: "\"a\"".to_string() })
    );
}

#[test]
fn last_value_skips_void_and_declarations() {
    assert_eq!(run("1; let x = 2;"), Ok(Some(Value::Number(1))));
    assert_eq!(run("let x = 2;"), Ok(None));
    assert_eq!(run(""), Ok(None));
    assert_eq!(run("let x; x"), Ok(Some(Value::Null)));
    assert_eq!(run("let x ="), Ok(None));
    assert_eq!(run("1 +"), Err(RuntimeError::InvalidBinaryOperation));
    assert_eq!(run("!"), Ok(Some(Value::Boolean(true))));
}

#[test]
fn errors_abort_the_run() {
    assert_eq!(run("1; 2 / 0; 3"), Err(RuntimeError::DivisionByZero));
    assert_eq!(run("{ 1 / 0 }"), Err(RuntimeError::DivisionByZero));
}

#[test]
fn forms_without_a_rule_fail() {
    assert_eq!(run("x = 1"), Err(RuntimeError::UnknownExpression));
    assert_eq!(run("return 1"), Err(RuntimeError::UnknownStatement));
    assert_eq!(run("{ return 1 }"), Err(RuntimeError::UnknownStatement));
    let mut interpreter = Interpreter::new();
    let array = Expression::ArrayLiteral(vec![num(1)]);
    assert_eq!(interpreter.evaluate(&array, 3), Err(RuntimeError::UnknownExpression));
    let inline = Expression::Function {
        parameters: vec!["a".to_string()],
        body: vec![Statement::Return(None)],
    };
    assert_eq!(inline.clone(), inline);
    assert_eq!(interpreter.evaluate(&inline, 3), Err(RuntimeError::UnknownExpression));
    let member = Expression::Member {
        object: Box::new(Expression::ObjectLiteral(vec![("k".to_string(), num(1))])),
        property: "k".to_string(),
        computed: false,
    };
    assert_eq!(member.clone(), member);
    assert_eq!(interpreter.evaluate(&member, 3), Err(RuntimeError::UnknownExpression));
}

#[test]
fn endless_recursion_stops_at_the_depth_limit() {
    assert_eq!(run("function f() { return f() } f()"), Err(RuntimeError::DepthExceeded));
    let mut interpreter = Interpreter::new();
    assert_eq!(interpreter.evaluate(&num(1), 0), Err(RuntimeError::DepthExceeded));
    assert_eq!(interpreter.evaluate(&binary(num(1), TokenType::Plus, num(2)), 1), Err(RuntimeError::DepthExceeded));
    assert_eq!(interpreter.evaluate(&binary(num(1), TokenType::Plus, num(2)), 2), Ok(Value::Number(3)));
    assert_eq!(MAX_DEPTH, 256);
}

#[test]
fn state_survives_between_runs() {
    let mut interpreter = Interpreter::new();
    assert_eq!(interpreter.interpret(parse("let x = 41").unwrap()), Ok(None));
    assert_eq!(interpreter.interpret(parse("x + 1").unwrap()), Ok(Some(Value::Number(42))));
}

#[test]
fn environment_lookup_walks_outward() {
    let mut global = Environment::new();
    global.define("a".to_string(), Value::Number(1));
    global.define("b".to_string(), Value::Number(2));
    let mut inner = Environment::with_parent(global);
    inner.define("a".to_string(), Value::Number(10));
    assert_eq!(inner.get(&"a".to_string()), Some(Value::Number(10)));
    assert_eq!(inner.get(&"b".to_string()), Some(Value::Number(2)));
    assert_eq!(inner.get(&"c".to_string()), None);
    inner.define("a".to_string(), Value::Number(11));
    assert_eq!(inner.get(&"a".to_string()), Some(Value::Number(11)));
    inner.push_scope();
    inner.define("b".to_string(), Value::Boolean(true));
    assert_eq!(inner.get(&"b".to_string()), Some(Value::Boolean(true)));
    inner.pop_scope();
    assert_eq!(inner.get(&"b".to_string()), Some(Value::Number(2)));
    inner.pop_scope();
    assert_eq!(inner.get(&"a".to_string()), Some(Value::Number(1)));
}

#[test]
fn run_reports_the_failing_stage() {
    assert_eq!(run_source("add(1".to_string()).map_err(|e| match e {
        Failure::Parse(p) => p.kind,
        _ => ParseErrorKind::UnexpectedToken,
    }), Err(ParseErrorKind::UnterminatedCall));
    assert_eq!(
        run_source("1 $".to_string()),
        Err(Failure::Lex(LexError::InvalidCharacter { character: '$', line: 1, col: 3 }))
    );
    assert_eq!(run_source("1 / 0".to_string()), Err(Failure::Runtime(RuntimeError::DivisionByZero)));
    assert_eq!(
        run_source("function add(a, b) { return a + b } add(2, 3);".to_string()),
        Ok(Some(Value::Number(5)))
    );
}

#[test]
fn assignment_reaches_the_defining_scope() {
    let mut global = Environment::new();
    global.define("a".to_string(), Value::Number(1));
    let mut inner = Environment::with_parent(global);
    inner.define("b".to_string(), Value::Number(2));
    assert!(inner.defines(&"b".to_string()));
    assert!(!inner.defines(&"a".to_string()));
    assert_eq!(inner.assign("a".to_string(), Value::Number(5)), Ok(()));
    assert_eq!(inner.assign("b".to_string(), Value::Number(6)), Ok(()));
    assert_eq!(inner.assign("c".to_string(), Value::Number(7)), Err(EnvironmentError::UndefinedName));
    assert!(!inner.defines(&"a".to_string()));
    assert_eq!(inner.get(&"a".to_string()), Some(Value::Number(5)));
    assert_eq!(inner.get(&"b".to_string()), Some(Value::Number(6)));
    assert_eq!(inner.get(&"c".to_string()), None);
    inner.pop_scope();
    assert_eq!(inner.get(&"a".to_string()), Some(Value::Number(5)));
    assert_eq!(inner.get(&"b".to_string()), None);
}

#[test]
fn copies_are_equal_to_what_they_copy() {
    let program = parse("function f(a) { return a + 1 } { let s = \"x\"; f(2, !s) }").unwrap();
    let copy = script_interpreter::ast::copy_statements(&program);
    assert_eq!(copy, program);
    assert_eq!(program[0].clone(), program[0]);
    let failure = parse("const x;").unwrap_err();
    assert_eq!(failure.clone(), failure);
    let value = Value::Function(Box::new(FunctionExpression::new(vec!["a".to_string()], copy)));
    assert_eq!(value.clone(), value);
    let tokens = lex("a + \"b\" // c");
    let cloned: Vec<Token> = tokens.iter().map(|t| t.clone()).collect();
    assert_eq!(cloned, tokens);
}

fn declare(name: &str, value: i64) -> Statement {
    Statement::VariableDeclaration {
        name: name.to_string(),
        initializer: Some(num(value)),
        can_reassign: true,
    }
}

fn read(interpreter: &mut Interpreter, name: &str) -> Value {
    interpreter.evaluate(&Expression::Variable(name.to_string()), 1).unwrap()
}

#[test]
fn conditional_takes_one_branch() {
    let mut interpreter = Interpreter::new();
    let choose = |condition: i64| Statement::If {
        condition: num(condition),
        then_branch: Box::new(declare("y", 1)),
        else_branch: Some(Box::new(declare("y", 2))),
    };
    assert_eq!(interpreter.interpret(vec![choose(1)]), Ok(None));
    assert_eq!(read(&mut interpreter, "y"), Value::Number(1));
    assert_eq!(interpreter.interpret(vec![choose(0)]), Ok(None));
    assert_eq!(read(&mut interpreter, "y"), Value::Number(2));
    let alone = Statement::If {
        condition: num(-1),
        then_branch: Box::new(declare("z", 1)),
        else_branch: None,
    };
    assert_eq!(interpreter.interpret(vec![alone]), Ok(None));
    assert_eq!(read(&mut interpreter, "z"), Value::Null);
    let failing = Statement::If {
        condition: binary(num(1), TokenType::Slash, num(0)),
        then_branch: Box::new(declare("z", 1)),
        else_branch: None,
    };
    assert_eq!(interpreter.interpret(vec![failing]), Err(RuntimeError::DivisionByZero));
}

#[test]
fn loop_runs_while_the_condition_holds() {
    let mut interpreter = Interpreter::new();
    let looped = Statement::While {
        condition: Expression::Variable("x".to_string()),
        body: Box::new(declare("x", 0)),
    };
    assert_eq!(interpreter.interpret(vec![declare("x", 1), declare("n", 7), looped]), Ok(None));
    assert_eq!(read(&mut interpreter, "x"), Value::Number(0));
    assert_eq!(read(&mut interpreter, "n"), Value::Number(7));
    let never = Statement::While { condition: num(0), body: Box::new(declare("n", 8)) };
    assert_eq!(interpreter.execute(&never, 3), Ok(None));
    assert_eq!(read(&mut interpreter, "n"), Value::Number(7));
    let endless = Statement::While {
        condition: num(1),
        body: Box::new(Statement::Expression(num(1))),
    };
    assert_eq!(interpreter.interpret(vec![endless]), Err(RuntimeError::LoopLimitExceeded));
    assert_eq!(MAX_ROUNDS, 1_000_000);
}

#[test]
fn return_ends_the_blocks_and_loops_around_it() {
    assert_eq!(run("function f() { { return 1 } 2 / 0 } f()"), Ok(Some(Value::Number(1))));
    assert_eq!(run("function f(a) { { let a = 2; { return a } } } f(1)"), Ok(Some(Value::Number(2))));
    let mut interpreter = Interpreter::new();
    let body = vec![
        Statement::While {
            condition: num(1),
            body: Box::new(Statement::If {
                condition: Expression::Variable("a".to_string()),
                then_branch: Box::new(Statement::Return(Some(num(7)))),
                else_branch: Some(Box::new(Statement::Return(None))),
            }),
        },
        Statement::Return(Some(num(9))),
    ];
    let function = FunctionExpression::new(vec!["a".to_string()], body);
    assert_eq!(interpreter.call(&function, &vec![num(1)], 10), Ok(Value::Number(7)));
    assert_eq!(interpreter.call(&function, &vec![num(0)], 10), Ok(Value::Null));
    assert_eq!(interpreter.execute(&Statement::Return(Some(num(3))), 2), Ok(Some(Value::Number(3))));
    assert_eq!(interpreter.execute(&Statement::Return(None), 1), Ok(Some(Value::Null)));
    assert_eq!(read(&mut interpreter, "a"), Value::Null);
}

#[test]
fn values_as_text() {
    assert_eq!(Value::Number(0).to_text(), "0");
    assert_eq!(Value::Number(7).to_text(), "7");
    assert_eq!(Value::Number(10).to_text(), "10");
    assert_eq!(Value::Number(-305).to_text(), "-305");
    assert_eq!(Value::Number(i64::MAX).to_text(), "9223372036854775807");
    assert_eq!(Value::Number(i64::MIN).to_text(), "-9223372036854775808");
    assert_eq!(Value::String("a b".to_string()).to_text(), "\"a b\"");
    assert_eq!(Value::String(String::new()).to_text(), "\"\"");
    assert_eq!(Value::Boolean(true).to_text(), "true");
    assert_eq!(Value::Boolean(false).to_text(), "false");
    assert_eq!(Value::Null.to_text(), "null");
    let function = Value::Function(Box::new(FunctionExpression::new(vec![], vec![])));
    assert_eq!(function.to_text(), "[Function]");
    assert_eq!(
        run("add(pow(2, 3), 2)"),
        Err(RuntimeError::NotAFunction { callee: "null".to_string() })
    );
}

#[test]
fn loop_runs_more_rounds_than_the_depth_limit() {
    let mut interpreter = Interpreter::new();
    let count_down = Statement::While {
        condition: Expression::Variable("x".to_string()),
        body: Box::new(Statement::Block(vec![Statement::Expression(num(1))])),
    };
    let step = Statement::VariableDeclaration {
        name: "x".to_string(),
        initializer: Some(binary(Expression::Variable("x".to_string()), TokenType::Minus, num(1))),
        can_reassign: true,
    };
    let looped = Statement::While {
        condition: Expression::Variable("x".to_string()),
        body: Box::new(step),
    };
    assert_eq!(interpreter.interpret(vec![declare("x", 5000), looped]), Ok(None));
    assert_eq!(read(&mut interpreter, "x"), Value::Number(0));
    assert_eq!(interpreter.interpret(vec![count_down]), Ok(None));
}

#[test]
fn failed_statement_defines_nothing() {
    let mut interpreter = Interpreter::new();
    let constant = Statement::VariableDeclaration {
        name: "x".to_string(),
        initializer: None,
        can_reassign: false,
    };
    assert_eq!(interpreter.execute(&constant, 5), Err(RuntimeError::MissingInitializer));
    assert_eq!(read(&mut interpreter, "x"), Value::Null);
    assert_eq!(
        interpreter.interpret(vec![declare("a", 1), constant, declare("b", 2)]),
        Err(RuntimeError::MissingInitializer)
    );
    assert_eq!(read(&mut interpreter, "a"), Value::Number(1));
    assert_eq!(read(&mut interpreter, "x"), Value::Null);
    assert_eq!(read(&mut interpreter, "b"), Value::Null);
    let failing = Statement::VariableDeclaration {
        name: "y".to_string(),
        initializer: Some(binary(num(1), TokenType::Slash, num(0))),
        can_reassign: true,
    };
    assert_eq!(interpreter.execute(&failing, 5), Err(RuntimeError::DivisionByZero));
    assert_eq!(read(&mut interpreter, "y"), Value::Null);
    let block = Statement::Block(vec![declare("z", 1), Statement::Expression(binary(num(1), TokenType::Percent, num(0)))]);
    assert_eq!(interpreter.execute(&block, 5), Err(RuntimeError::DivisionByZero));
    assert_eq!(read(&mut interpreter, "z"), Value::Null);
    let looped = Statement::While {
        condition: num(1),
        body: Box::new(Statement::If {
            condition: Expression::Variable("w".to_string()),
            then_branch: Box::new(Statement::Expression(binary(num(1), TokenType::Slash, num(0)))),
            else_branch: Some(Box::new(declare("w", 1))),
        }),
    };
    assert_eq!(interpreter.execute(&looped, 5), Err(RuntimeError::DivisionByZero));
    assert_eq!(read(&mut interpreter, "w"), Value::Number(1));
}

#[test]
fn division_fails_only_by_zero_or_out_of_range() {
    for (a, b, q) in [(0, 5, 0), (0, -5, 0), (9, 3, 3), (-9, 2, -4), (9, -2, -4), (-9, -2, 4), (1, 2, 0)] {
        let e = binary(num(a), TokenType::Slash, num(b));
        assert_eq!(Interpreter::new().evaluate(&e, 3), Ok(Value::Number(q)));
    }
    for a in [0, 1, -1, i64::MAX, i64::MIN] {
        let e = binary(num(a), TokenType::Slash, num(0));
        assert_eq!(Interpreter::new().evaluate(&e, 3), Err(RuntimeError::DivisionByZero));
    }
    let least = binary(num(i64::MIN), TokenType::Slash, num(-1));
    assert_eq!(Interpreter::new().evaluate(&least, 3), Err(RuntimeError::NumberOutOfRange));
    let most = binary(num(i64::MAX), TokenType::Slash, num(-1));
    assert_eq!(Interpreter::new().evaluate(&most, 3), Ok(Value::Number(-i64::MAX)));
}

#[test]
fn identifiers_go_on_over_letters_and_digits_of_any_script() {
    assert_eq!(
        kinds("caf\u{e9}_1 x\u{3b1}\u{663}+y"),
        vec![
            TokenType::Identifier("caf\u{e9}_1".to_string()),
            TokenType::Identifier("x\u{3b1}\u{663}".to_string()),
            TokenType::Plus,
            TokenType::Identifier("y".to_string()),
            TokenType::Eof,
        ]
    );
    assert_eq!(kinds("a-b"), vec![
        TokenType::Identifier("a".to_string()),
        TokenType::Minus,
        TokenType::Identifier("b".to_string()),
        TokenType::Eof,
    ]);
    assert_eq!(
        Lexer::new("\u{e9}a".to_string()).tokenize(),
        Err(LexError::InvalidCharacter { character: '\u{e9}', line: 1, col: 1 })
    );
    let tokens = lex("\u{3b1}".repeat(0).as_str());
    assert_eq!(tokens.len(), 1);
    let tokens = lex("a\u{e9} b");
    assert_eq!((tokens[0].start_pos, tokens[0].end_pos), (0, 2));
    assert_eq!((tokens[1].start_pos, tokens[1].end_pos, tokens[1].col), (3, 4, 4));
}
