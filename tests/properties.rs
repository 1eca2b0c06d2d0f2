use guedzlang::ast::{ExpressionNode, Node, StatementNode};
use guedzlang::evaluator::eval_program;
use guedzlang::lexer::Lexer;
use guedzlang::object::Object;
use guedzlang::parser::{literal_to_i64, Parser};
use guedzlang::repl::respond;
use guedzlang::token::{lookup_keywords, TokenKind};

fn parse(input: &str) -> (String, Vec<String>, usize) {
    let mut parser = Parser::new(Lexer::new(input));
    let program = parser.parse_program().unwrap();
    (program.print_string(), parser.errors().clone(), program.statements.len())
}

fn eval(input: &str) -> Object {
    let mut parser = Parser::new(Lexer::new(input));
    let program = parser.parse_program().unwrap();
    assert!(parser.errors().is_empty(), "errors: {:?}", parser.errors());
    eval_program(program)
}

#[test]
fn single_character_tokens_then_repeated_end() {
    let input = "=+-!*/<>(){},;";
    let kinds = [
        TokenKind::Assign,
        TokenKind::Plus,
        TokenKind::Minus,
        TokenKind::Bang,
        TokenKind::Asterisk,
        TokenKind::Slash,
        TokenKind::LT,
        TokenKind::GT,
        TokenKind::LParen,
        TokenKind::RParen,
        TokenKind::LBrace,
        TokenKind::RBrace,
        TokenKind::Comma,
        TokenKind::Semicolon,
    ];
    let mut lexer = Lexer::new(input);
    for (i, kind) in kinds.iter().enumerate() {
        let t = lexer.next_token();
        assert_eq!(t.kind, *kind);
        assert_eq!(t.literal, input[i..i + 1].to_string());
    }
    for _ in 0..3 {
        let t = lexer.next_token();
        assert_eq!(t.kind, TokenKind::EOF);
        assert_eq!(t.literal, "");
    }
}

#[test]
fn double_equals_is_two_assign_tokens() {
    let mut lexer = Lexer::new("==!=");
    assert_eq!(lexer.next_token().kind, TokenKind::Assign);
    assert_eq!(lexer.next_token().kind, TokenKind::Assign);
    assert_eq!(lexer.next_token().kind, TokenKind::Bang);
    assert_eq!(lexer.next_token().kind, TokenKind::Assign);
    assert_eq!(lexer.next_token().kind, TokenKind::EOF);
    let (_, errors, _) = parse("5 == 5;");
    assert!(!errors.is_empty());
}

#[test]
fn keywords_and_identifiers() {
    let cases = [
        ("fn", TokenKind::Function),
        ("let", TokenKind::Let),
        ("true", TokenKind::True),
        ("false", TokenKind::False),
        ("if", TokenKind::If),
        ("else", TokenKind::Else),
        ("return", TokenKind::Return),
        ("fnx", TokenKind::Ident),
        ("Let", TokenKind::Ident),
        ("_foo", TokenKind::Ident),
    ];
    for (word, kind) in cases {
        assert_eq!(lookup_keywords(word), kind);
        let t = Lexer::new(word).next_token();
        assert_eq!(t.kind, kind);
        assert_eq!(t.literal, word);
    }
}

#[test]
fn illegal_characters_and_runs() {
    let mut lexer = Lexer::new(" @x1\t\n");
    let t = lexer.next_token();
    assert_eq!((t.kind, t.literal.as_str()), (TokenKind::Illegal, "@"));
    let t = lexer.next_token();
    assert_eq!((t.kind, t.literal.as_str()), (TokenKind::Ident, "x"));
    let t = lexer.next_token();
    assert_eq!((t.kind, t.literal.as_str()), (TokenKind::Int, "1"));
    assert_eq!(lexer.next_token().kind, TokenKind::EOF);
    assert_eq!(Lexer::new("").next_token().kind, TokenKind::EOF);
}

#[test]
fn precedence_prints() {
    let cases = [
        ("-a * b", "((-a) * b)"),
        ("a + b + c", "((a + b) + c)"),
        ("a + b * c + d / e - f", "(((a + (b * c)) + (d / e)) - f)"),
        ("3 + 4; -5 * 5", "(3 + 4)((-5) * 5)"),
        ("a + add(b * c) + d", "((a + add((b * c))) + d)"),
    ];
    for (input, expected) in cases {
        let (printed, errors, _) = parse(input);
        assert!(errors.is_empty());
        assert_eq!(printed, expected);
    }
}

#[test]
fn if_and_function_prints() {
    let (printed, errors, _) = parse("if (x < y) { x } else { y }");
    assert!(errors.is_empty());
    assert_eq!(printed, "if(x < y) xelse y");
    let (printed, errors, _) = parse("fn(x, y) { x + y; }");
    assert!(errors.is_empty());
    assert_eq!(printed, "fn(x, y) (x + y)");
    let (printed, errors, _) = parse("return 5; let a = b;");
    assert!(errors.is_empty());
    assert_eq!(printed, "return 5;let a = b;");
}

#[test]
fn arithmetic_evaluation() {
    let cases = [
        ("5 + 5 + 5 + 5 - 10", 10),
        ("2 * (5 + 10)", 30),
        ("(5 + 10 * 2 + 15 / 3) * 2 + -10", 50),
        ("-5", -5),
        ("-50 + 100 + -50", 0),
        ("20 + 2 * -10", 0),
        ("50 / 2 * 2 + 10", 60),
        ("3 * (3 * 3) + 10", 37),
        ("7 / 2", 3),
        ("-7 / 2", -3),
    ];
    for (input, expected) in cases {
        match eval(input) {
            Object::Integer(v) => assert_eq!(v, expected, "input {}", input),
            other => panic!("{} gave {:?}", input, other),
        }
    }
}

#[test]
fn prefix_and_boolean_evaluation() {
    assert!(matches!(eval("!true"), Object::Boolean(false)));
    assert!(matches!(eval("!false"), Object::Boolean(true)));
    assert!(matches!(eval("!!5"), Object::Boolean(true)));
    assert!(matches!(eval("!5"), Object::Boolean(false)));
    assert!(matches!(eval("-5"), Object::Integer(-5)));
    assert!(matches!(eval("-true"), Object::Null));
    assert!(matches!(eval("true"), Object::Boolean(true)));
}

#[test]
fn degraded_evaluation_is_null() {
    assert!(matches!(eval("5 / 0"), Object::Null));
    assert!(matches!(eval("5 < 6"), Object::Null));
    assert!(matches!(eval("true + 1"), Object::Null));
    assert!(matches!(eval("x"), Object::Null));
    assert!(matches!(eval("let x = 5;"), Object::Null));
    assert!(matches!(eval("return 5;"), Object::Null));
    assert!(matches!(eval("9223372036854775807 + 1"), Object::Null));
    assert!(matches!(eval(""), Object::Null));
    assert!(matches!(eval("1; 2; 3"), Object::Integer(3)));
}

#[test]
fn missing_assign_is_reported_and_parsing_goes_on() {
    let mut parser = Parser::new(Lexer::new("let x 5; 7"));
    let program = parser.parse_program().unwrap();
    let errors = parser.errors();
    assert!(!errors.is_empty());
    assert_eq!(errors[0], "expected next token to be Assign, got Int instead");
    assert!(program
        .statements
        .iter()
        .all(|s| !matches!(s, StatementNode::Let(_))));
    match program.statements.last() {
        Some(StatementNode::Expression(e)) => {
            assert!(matches!(e.expression, Some(ExpressionNode::Integer(_))))
        }
        other => panic!("last statement {:?}", other),
    }
}

#[test]
fn diagnostics_texts() {
    let (_, errors, _) = parse(";");
    assert_eq!(errors, vec!["no prefix parse function for ';' found".to_string()]);
    let (_, errors, _) = parse("99999999999999999999");
    assert_eq!(errors, vec!["could not parse '99999999999999999999' as integer".to_string()]);
    let (_, errors, _) = parse("if x");
    assert_eq!(errors[0], "expected next token to be LParen, got Ident instead");
    let (_, errors, _) = parse("(1");
    assert_eq!(errors, vec!["expected next token to be RParen, got EOF instead".to_string()]);
    let (_, errors, n) = parse("");
    assert!(errors.is_empty());
    assert_eq!(n, 0);
}

#[test]
fn integer_literals() {
    assert_eq!(literal_to_i64(&"0".to_string()), Some(0));
    assert_eq!(literal_to_i64(&"838383".to_string()), Some(838383));
    assert_eq!(literal_to_i64(&"9223372036854775807".to_string()), Some(i64::MAX));
    assert_eq!(literal_to_i64(&"9223372036854775808".to_string()), None);
    assert_eq!(literal_to_i64(&"".to_string()), None);
    assert_eq!(literal_to_i64(&"12a".to_string()), None);
}

#[test]
fn object_texts() {
    assert_eq!(Object::Integer(5).object_type(), "INTEGER");
    assert_eq!(Object::Boolean(true).object_type(), "BOOLEAN");
    assert_eq!(Object::Null.object_type(), "NULL");
    assert_eq!(Object::Integer(-120).inspect(), "-120");
    assert_eq!(Object::Integer(i64::MIN).inspect(), "-9223372036854775808");
    assert_eq!(Object::Integer(0).inspect(), "0");
    assert_eq!(Object::Boolean(false).inspect(), "false");
    assert_eq!(Object::Null.inspect(), "null");
}

#[test]
fn reparse_of_printed_text_prints_the_same() {
    for input in [
        "-a * b",
        "a + add(b * c, 4) + d",
        "let x = -(5 + 5) * f(g(1), !true);",
        "return (1 + 2) / 3; let y = z;",
    ] {
        let (first, errors, _) = parse(input);
        assert!(errors.is_empty());
        let (second, errors, _) = parse(&first);
        assert!(errors.is_empty());
        assert_eq!(first, second);
    }
}

#[test]
fn token_kind_texts() {
    assert_eq!(TokenKind::Assign.text(), "=");
    assert_eq!(TokenKind::EOF.text(), "Eof");
    assert_eq!(TokenKind::LBrace.text(), "{");
}

#[test]
fn repl_responses() {
    assert_eq!(respond("a + b * c\n"), vec!["(a + (b * c))".to_string()]);
    assert_eq!(
        respond("let x 5;"),
        vec![
            "Oops! We ran into parser errors".to_string(),
            "expected next token to be Assign, got Int instead".to_string(),
        ]
    );
}

#[test]
fn return_without_value() {
    let (printed, errors, n) = parse("return;");
    assert!(errors.is_empty());
    assert_eq!(n, 1);
    assert_eq!(printed, "return ;");
    let (_, errors, _) = parse("return");
    assert!(errors.is_empty());
}

#[test]
fn parameters_must_be_identifiers() {
    let (_, errors, _) = parse("fn(1) { x }");
    assert_eq!(errors[0], "expected next token to be Ident, got Int instead");
    let (_, errors, _) = parse("fn(x, 2) { x }");
    assert_eq!(errors[0], "expected next token to be Ident, got Int instead");
    let (_, errors, _) = parse("fn(x { x }");
    assert_eq!(errors[0], "expected next token to be RParen, got LBrace instead");
}

#[test]
fn unterminated_block_is_reported() {
    let (_, errors, n) = parse("if (x) { y");
    assert_eq!(errors, vec!["expected next token to be RBrace, got EOF instead".to_string()]);
    assert_eq!(n, 1);
    let (_, errors, _) = parse("fn(x) { x");
    assert_eq!(errors, vec!["expected next token to be RBrace, got EOF instead".to_string()]);
    let (_, errors, _) = parse("add(1, 2");
    assert_eq!(errors, vec!["expected next token to be RParen, got EOF instead".to_string()]);
}
