use guedzlang::lexer::Lexer;
use guedzlang::token::{Token, TokenKind};

#[test]
fn test_next_token_simple() {
    let input: &str = "=+(){},;";

    let expected: Vec<Token> = vec![
        Token {
            kind: TokenKind::Assign,
            literal: "=".to_string(),
        },
        Token {
            kind: TokenKind::Plus,
            literal: "+".to_string(),
        },
        Token {
            kind: TokenKind::LParen,
            literal: "(".to_string(),
        },
        Token {
            kind: TokenKind::RParen,
            literal: ")".to_string(),
        },
        Token {
            kind: TokenKind::LBrace,
            literal: "{".to_string(),
        },
        Token {
            kind: TokenKind::RBrace,
            literal: "}".to_string(),
        },
        Token {
            kind: TokenKind::Comma,
            literal: ",".to_string(),
        },
    ];

    let mut lexer = Lexer::new(input);

    for (idx, token) in expected.into_iter().enumerate() {
        let received_token = lexer.next_token();
        assert_eq!(
            token.kind, received_token.kind,
            "tests[{}] - token type wrong. expected={:?}, got={:?}",
            idx, token.kind, received_token.kind
        );

        assert_eq!(
            token.literal, received_token.literal,
            "tests[{}] - literal wrong. expected={:?}, got={:?}",
            idx, token.literal, received_token.literal
        );
    }
}

#[test]
fn test_next_token_with_language() {
    let input: &str = r#"
            let five = 5;
            let ten = 10;

            let add = fn(x, y) {
                x + y;
            };

            let result = add(five, ten);
        "#;

    let expected: Vec<Token> = vec![
        Token {
            kind: TokenKind::Let,
            literal: "let".to_string(),
        },
        Token {
            kind: TokenKind::Ident,
            literal: "five".to_string(),
        },
        Token {
            kind: TokenKind::Assign,
            literal: "=".to_string(),
        },
        Token {
            kind: TokenKind::Int,
            literal: "5".to_string(),
        },
        Token {
            kind: TokenKind::Semicolon,
            literal: ";".to_string(),
        },
        Token {
            kind: TokenKind::Let,
            literal: "let".to_string(),
        },
        Token {
            kind: TokenKind::Ident,
            literal: "ten".to_string(),
        },
        Token {
            kind: TokenKind::Assign,
            literal: "=".to_string(),
        },
        Token {
            kind: TokenKind::Int,
            literal: "10".to_string(),
        },
        Token {
            kind: TokenKind::Semicolon,
            literal: ";".to_string(),
        },
        Token {
            kind: TokenKind::Let,
            literal: "let".to_string(),
        },
        Token {
            kind: TokenKind::Ident,
            literal: "add".to_string(),
        },
        Token {
            kind: TokenKind::Assign,
            literal: "=".to_string(),
        },
        Token {
            kind: TokenKind::Function,
            literal: "fn".to_string(),
        },
        Token {
            kind: TokenKind::LParen,
            literal: "(".to_string(),
        },
        Token {
            kind: TokenKind::Ident,
            literal: "x".to_string(),
        },
        Token {
            kind: TokenKind::Comma,
            literal: ",".to_string(),
        },
        Token {
            kind: TokenKind::Ident,
            literal: "y".to_string(),
        },
        Token {
            kind: TokenKind::RParen,
            literal: ")".to_string(),
        },
        Token {
            kind: TokenKind::LBrace,
            literal: "{".to_string(),
        },
        Token {
            kind: TokenKind::Ident,
            literal: "x".to_string(),
        },
        Token {
            kind: TokenKind::Plus,
            literal: "+".to_string(),
        },
        Token {
            kind: TokenKind::Ident,
            literal: "y".to_string(),
        },
        Token {
            kind: TokenKind::Semicolon,
            literal: ";".to_string(),
        },
        Token {
            kind: TokenKind::RBrace,
            literal: "}".to_string(),
        },
        Token {
            kind: TokenKind::Semicolon,
            literal: ";".to_string(),
        },
        Token {
            kind: TokenKind::Let,
            literal: "let".to_string(),
        },
        Token {
            kind: TokenKind::Ident,
            literal: "result".to_string(),
        },
        Token {
            kind: TokenKind::Assign,
            literal: "=".to_string(),
        },
        Token {
            kind: TokenKind::Ident,
            literal: "add".to_string(),
        },
        Token {
            kind: TokenKind::LParen,
            literal: "(".to_string(),
        },
        Token {
            kind: TokenKind::Ident,
            literal: "five".to_string(),
        },
        Token {
            kind: TokenKind::Comma,
            literal: ",".to_string(),
        },
        Token {
            kind: TokenKind::Ident,
            literal: "ten".to_string(),
        },
        Token {
            kind: TokenKind::RParen,
            literal: ")".to_string(),
        },
        Token {
            kind: TokenKind::Semicolon,
            literal: ";".to_string(),
        },
        Token {
            kind: TokenKind::EOF,
            literal: "".to_string(),
        },
    ];

    let mut lexer = Lexer::new(input);

    for (idx, token) in expected.into_iter().enumerate() {
        let received_token = lexer.next_token();
        assert_eq!(
            token.kind, received_token.kind,
            "tests[{}] - token type wrong. expected={:?}, got={:?}",
            idx, token.kind, received_token.kind
        );

        assert_eq!(
            token.literal, received_token.literal,
            "tests[{}] - literal wrong. expected={:?}, got={:?}",
            idx, token.literal, received_token.literal
        );
    }
}

#[test]
fn test_next_token_with_special_characters() {
    let input: &str = r#"
           !-/*5;
           5 < 10 > 5;
        "#;

    let expected: Vec<Token> = vec![
        Token {
            kind: TokenKind::Bang,
            literal: "!".to_string(),
        },
        Token {
            kind: TokenKind::Minus,
            literal: "-".to_string(),
        },
        Token {
            kind: TokenKind::Slash,
            literal: "/".to_string(),
        },
        Token {
            kind: TokenKind::Asterisk,
            literal: "*".to_string(),
        },
        Token {
            kind: TokenKind::Int,
            literal: "5".to_string(),
        },
        Token {
            kind: TokenKind::Semicolon,
            literal: ";".to_string(),
        },
        Token {
            kind: TokenKind::Int,
            literal: "5".to_string(),
        },
        Token {
            kind: TokenKind::LT,
            literal: "<".to_string(),
        },
        Token {
            kind: TokenKind::Int,
            literal: "10".to_string(),
        },
        Token {
            kind: TokenKind::GT,
            literal: ">".to_string(),
        },
        Token {
            kind: TokenKind::Int,
            literal: "5".to_string(),
        },
        Token {
            kind: TokenKind::Semicolon,
            literal: ";".to_string(),
        },
        Token {
            kind: TokenKind::EOF,
            literal: "".to_string(),
        },
    ];

    let mut lexer = Lexer::new(input);

    for (idx, token) in expected.into_iter().enumerate() {
        let received_token = lexer.next_token();
        assert_eq!(
            token.kind, received_token.kind,
            "tests[{}] - token type wrong. expected={:?}, got={:?}",
            idx, token.kind, received_token.kind
        );

        assert_eq!(
            token.literal, received_token.literal,
            "tests[{}] - literal wrong. expected={:?}, got={:?}",
            idx, token.literal, received_token.literal
        );
    }
}

#[test]
fn test_next_token_with_keywords() {
    let input: &str = r#"
          if (5 < 0) {
          return true;
          } else {
           return false;
           }
        "#;

    let expected: Vec<Token> = vec![
        Token {
            kind: TokenKind::If,
            literal: "if".to_string(),
        },
        Token {
            kind: TokenKind::LParen,
            literal: "(".to_string(),
        },
        Token {
            kind: TokenKind::Int,
            literal: "5".to_string(),
        },
        Token {
            kind: TokenKind::LT,
            literal: "<".to_string(),
        },
        Token {
            kind: TokenKind::Int,
            literal: "0".to_string(),
        },
        Token {
            kind: TokenKind::RParen,
            literal: ")".to_string(),
        },
        Token {
            kind: TokenKind::LBrace,
            literal: "{".to_string(),
        },
        Token {
            kind: TokenKind::Return,
            literal: "return".to_string(),
        },
        Token {
            kind: TokenKind::True,
            literal: "true".to_string(),
        },
        Token {
            kind: TokenKind::Semicolon,
            literal: ";".to_string(),
        },
        Token {
            kind: TokenKind::RBrace,
            literal: "}".to_string(),
        },
        Token {
            kind: TokenKind::Else,
            literal: "else".to_string(),
        },
        Token {
            kind: TokenKind::LBrace,
            literal: "{".to_string(),
        },
        Token {
            kind: TokenKind::Return,
            literal: "return".to_string(),
        },
        Token {
            kind: TokenKind::False,
            literal: "false".to_string(),
        },
        Token {
            kind: TokenKind::Semicolon,
            literal: ";".to_string(),
        },
        Token {
            kind: TokenKind::RBrace,
            literal: "}".to_string(),
        },
        Token {
            kind: TokenKind::EOF,
            literal: "".to_string(),
        },
       
    ];

    let mut lexer = Lexer::new(input);

    for (idx, token) in expected.into_iter().enumerate() {
        let received_token = lexer.next_token();
        assert_eq!(
            token.kind, received_token.kind,
            "tests[{}] - token type wrong. expected={:?}, got={:?}",
            idx, token.kind, received_token.kind
        );

        assert_eq!(
            token.literal, received_token.literal,
            "tests[{}] - literal wrong. expected={:?}, got={:?}",
            idx, token.literal, received_token.literal
        );
    }
}
