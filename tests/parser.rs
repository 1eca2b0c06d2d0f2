use std::any;

use guedzlang::ast::{ExpressionNode, Identifier, Node, StatementNode};
use guedzlang::lexer::Lexer;
use guedzlang::parser::Parser;
use guedzlang::token::TokenKind;

#[test]
fn test_let_statements() {
    let tests: Vec<(&str, &str, Box<dyn any::Any>)> = vec![
        ("let x = 5;", "x", Box::new(5)),
        ("let y = 10;", "y", Box::new(10)),
        ("let foobar = 838383;", "foobar", Box::new(838383)),
    ];

    for test in tests {
        let lexer = Lexer::new(test.0);
        let mut parser = Parser::new(lexer);

        let program = parser.parse_program().unwrap();

        check_parser_errors(&parser);

        assert_eq!(
            program.statements.len(),
            1,
            "program.statements does not contain 1 statements. got={}",
            program.statements.len()
        );

        let stmt = &program.statements[0];

        test_let_statement(stmt, test.1);

        match stmt {
            StatementNode::Let(let_stmt) => {
                test_literal_expression(
                    let_stmt
                        .value
                        .as_ref()
                        .expect("error parsing value of let statement"),
                    test.2,
                );
            }
            other => {
                panic!("stmt not LetStatement. got={:?}", other);
            }
        }
    }
}

#[test]
fn test_return_statement() {
    let tests: Vec<(&str, Box<dyn any::Any>)> = vec![
        ("return 5;", Box::new(5)),
        ("return 10;", Box::new(10)),
        ("return 838383;", Box::new(838383)),
    ];

    for test in tests {
        let lexer = Lexer::new(test.0);
        let mut parser = Parser::new(lexer);

        let program = parser.parse_program().unwrap();

        check_parser_errors(&parser);

        assert_eq!(
            program.statements.len(),
            1,
            "program.statements does not contain 1 statements. got={}",
            program.statements.len()
        );

        let stmt = &program.statements[0];

        match stmt {
            StatementNode::Return(return_stmt) => {
                assert_eq!(
                    return_stmt.token_literal(),
                    "return",
                    "token literal not `return`, got={}",
                    return_stmt.token_literal()
                );
                test_literal_expression(
                    return_stmt
                        .return_value
                        .as_ref()
                        .expect("error parsing return value"),
                    test.1,
                );
            }
            other => {
                panic!("stmt not ReturnStatement. got={:?}", other);
            }
        }
    }
}

#[test]
fn test_identifier_expression() {
    let input = "foobar;";

    let lexer = Lexer::new(input);
    let mut parser = Parser::new(lexer);

    let program = parser.parse_program();

    check_parser_errors(&parser);

    match program {
        Some(program) => {
            assert_eq!(
                program.statements.len(),
                1,
                "program has not enough statements. got={}",
                program.statements.len()
            );

            let stmt = &program.statements[0];
            match stmt {
                StatementNode::Expression(exp_stmt) => {
                    assert!(exp_stmt.expression.is_some(), "exp_stmt.expression is None");

                    match exp_stmt.expression.as_ref().unwrap() {
                        ExpressionNode::IdentifierNode(ident) => {
                            assert_eq!(
                                ident.value, "foobar",
                                "ident.value not 'foobar'. got={}",
                                ident.value
                            );

                            assert_eq!(
                                ident.token_literal(),
                                "foobar",
                                "ident.token_literal() not 'foobar'. got={}",
                                ident.token_literal()
                            );
                        }
                        other => {
                            panic!("exp not Identifier. got={:?}", other);
                        }
                    }
                }

                other => {
                    panic!("stmt not ExpressionStatement. got={:?}", other);
                }
            }
        }
        None => {
            panic!("parse_program() returned None")
        }
    };
}

#[test]
fn test_integer_literal_expression() {
    let input = "5;";

    let lexer = Lexer::new(input);
    let mut parser = Parser::new(lexer);

    let program = parser.parse_program();

    check_parser_errors(&parser);

    match program {
        Some(program) => {
            assert_eq!(
                program.statements.len(),
                1,
                "program has not enough statements. got={}",
                program.statements.len()
            );

            let stmt = &program.statements[0];
            match stmt {
                StatementNode::Expression(exp_stmt) => {
                    assert!(exp_stmt.expression.is_some(), "exp_stmt.expression is None");

                    match exp_stmt.expression.as_ref().unwrap() {
                        ExpressionNode::Integer(integer) => {
                            assert_eq!(
                                integer.value, 5,
                                "integer.value not 5. got={}",
                                integer.value
                            );

                            assert_eq!(
                                integer.token_literal(),
                                "5",
                                "integer.token_literal() not '5'. got={}",
                                integer.token_literal()
                            );
                        }
                        other => {
                            panic!("exp not IntegerLiteral. got={:?}", other);
                        }
                    }
                }

                other => {
                    panic!("stmt not ExpressionStatement. got={:?}", other);
                }
            }
        }
        None => {
            panic!("parse_program() returned None")
        }
    };
}

#[test]
fn test_parsing_prefix_expressions() {
    let prefix_tests: Vec<(&str, &str, Box<dyn any::Any>)> = vec![
        ("!5", "!", Box::new(5)),
        ("-15", "-", Box::new(15)),
        ("!true", "!", Box::new(true)),
        ("!false", "!", Box::new(false)),
    ];

    for test in prefix_tests {
        let lexer = Lexer::new(test.0);
        let mut parser = Parser::new(lexer);

        let program = parser.parse_program().unwrap();

        check_parser_errors(&parser);

        assert_eq!(
            program.statements.len(),
            1,
            "program.statements does not contain 1 statements. got={}",
            program.statements.len()
        );

        match &program.statements[0] {
            StatementNode::Expression(exp_stmt) => {
                assert!(exp_stmt.expression.is_some(), "exp_stmt.expression is None");

                match exp_stmt.expression.as_ref().unwrap() {
                    ExpressionNode::Prefix(prefix_exp) => {
                        assert_eq!(
                            prefix_exp.token_literal(),
                            test.1,
                            "prefix_exp
                            .token_literal() is not '{}'. got={}",
                            test.1,
                            prefix_exp.token_literal()
                        );

                        test_literal_expression(&prefix_exp.right, test.2);
                    }
                    other => {
                        panic!(
                            "prefix_exp
                         not Prefix. got={:?}",
                            other
                        );
                    }
                }
            }

            other => {
                panic!("stmt not ExpressionStatement. got={:?}", other);
            }
        }
    }
}

#[test]
fn test_parsing_infix_expressions() {
    // The cases with `==` and `!=` are not here: the tokenizer reads one
    // character at a time, so `==` is two `Assign` tokens and such inputs do
    // not parse (see `double_equals_is_two_assign_tokens`).
    let infix_tests: Vec<(&str, Box<dyn any::Any>, &str, Box<dyn any::Any>)> = vec![
        ("5 + 5;", Box::new(5), "+", Box::new(5)),
        ("5 - 5;", Box::new(5), "-", Box::new(5)),
        ("5 * 5;", Box::new(5), "*", Box::new(5)),
        ("5 / 5;", Box::new(5), "/", Box::new(5)),
        ("5 > 5;", Box::new(5), ">", Box::new(5)),
        ("5 < 5;", Box::new(5), "<", Box::new(5)),
    ];

    for test in infix_tests {
        let lexer = Lexer::new(test.0);
        let mut parser = Parser::new(lexer);

        let program = parser.parse_program().unwrap();

        check_parser_errors(&parser);

        assert_eq!(
            program.statements.len(),
            1,
            "program.statements does not contain 1 statements. got={}",
            program.statements.len()
        );

        match &program.statements[0] {
            StatementNode::Expression(exp_stmt) => {
                assert!(exp_stmt.expression.is_some(), "exp_stmt.expression is None");

                let expression = exp_stmt.expression.as_ref().unwrap();

                test_infix_expression(
                    &expression,
                    Box::new(test.1),
                    test.2.to_string(),
                    Box::new(test.3),
                );
            }

            other => {
                panic!("stmt not ExpressionStatement. got={:?}", other);
            }
        }
    }
}

#[test]
fn test_operator_precedence_parsing() {
    // The cases with `==` and `!=` are not here, for the reason given in
    // `test_parsing_infix_expressions`.
    let tests = vec![
        ("-a * b", "((-a) * b)"),
        ("!-a", "(!(-a))"),
        ("a + b + c", "((a + b) + c)"),
        ("a + b - c", "((a + b) - c)"),
        ("a * b * c", "((a * b) * c)"),
        ("a * b / c", "((a * b) / c)"),
        ("a + b / c", "(a + (b / c))"),
        ("a + b * c + d / e - f", "(((a + (b * c)) + (d / e)) - f)"),
        ("3 + 4; -5 * 5", "(3 + 4)((-5) * 5)"),
        ("true", "true"),
        ("false", "false"),
        ("1 + (2 + 3) + 4", "((1 + (2 + 3)) + 4)"),
        ("(5 + 5) * 2", "((5 + 5) * 2)"),
        ("2 / (5 + 5)", "(2 / (5 + 5))"),
        ("-(5 + 5)", "(-(5 + 5))"),
        ("a + add(b * c) + d", "((a + add((b * c))) + d)"),
        (
            "add(a, b, 1, 2 * 3, 4 + 5, add(6, 7 * 8))",
            "add(a, b, 1, (2 * 3), (4 + 5), add(6, (7 * 8)))",
        ),
        (
            "add(a + b + c * d / f + g)",
            "add((((a + b) + ((c * d) / f)) + g))",
        ),
    ];

    for test in tests {
        let lexer = Lexer::new(test.0);
        let mut parser = Parser::new(lexer);

        let program = parser.parse_program().unwrap();

        check_parser_errors(&parser);

        let actual = program.print_string();
        assert_eq!(actual, test.1, "expected={}, got={}", test.1, actual);
    }
}

#[test]
fn test_boolean_expression() {
    let input = r#"
    true;
    false;
    "#;

    let lexer = Lexer::new(input);
    let mut parser = Parser::new(lexer);

    let program = parser.parse_program().unwrap();

    check_parser_errors(&parser);

    assert_eq!(
        program.statements.len(),
        2,
        "program.statements does not contain 2 statements. got={}",
        program.statements.len()
    );

    let expected_values = vec![(TokenKind::True, "true"), (TokenKind::False, "false")];

    for (index, test) in expected_values.into_iter().enumerate() {
        match &program.statements[index] {
            StatementNode::Expression(exp_stmt) => {
                assert!(exp_stmt.expression.is_some(), "exp_stmt.expression is None");

                match exp_stmt.expression.as_ref().unwrap() {
                    ExpressionNode::BooleanNode(boolean) => {
                        assert_eq!(
                            boolean.token.kind,
                            test.0,
                            "boolean.kind not {:?}. got={:?}",
                            TokenKind::True,
                            boolean.token.kind
                        );

                        assert_eq!(
                            boolean.token_literal(),
                            test.1,
                            "boolean.token_literal() not '{}'. got={}",
                            test.1,
                            boolean.token_literal()
                        );
                    }
                    other => {
                        panic!("exp not Boolean. got={:?}", other);
                    }
                }
            }

            other => {
                panic!("stmt not ExpressionStatement. got={:?}", other);
            }
        }
    }
}

#[test]
fn test_if_expression() {
    let input = r#"
    if (x < y) { x }
    "#;

    let lexer = Lexer::new(input);
    let mut parser = Parser::new(lexer);

    let program = parser.parse_program().unwrap();

    check_parser_errors(&parser);

    assert_eq!(
        program.statements.len(),
        1,
        "program.statements does not contain 1 statements. got={}",
        program.statements.len()
    );

    match &program.statements[0] {
        StatementNode::Expression(exp_stmt) => {
            assert!(exp_stmt.expression.is_some(), "exp_stmt.expression is None");

            match exp_stmt.expression.as_ref().unwrap() {
                ExpressionNode::IfExpressionNode(if_exp) => {
                    test_infix_expression(
                        &if_exp.condition,
                        Box::new("x"),
                        String::from("<"),
                        Box::new("y"),
                    );

                    assert_eq!(
                        if_exp.consequence.statements.len(),
                        1,
                        "consequence is not 1 statements. got={}",
                        if_exp.consequence.statements.len()
                    );

                    match &if_exp.consequence.statements[0] {
                        StatementNode::Expression(consequence) => {
                            test_identifier(
                                consequence
                                    .expression
                                    .as_ref()
                                    .expect("Error parsing consequence"),
                                "x".to_string(),
                            );
                        }
                        other => {
                            panic!("stmt not ExpressionStatement. got={:?}", other);
                        }
                    }

                    assert!(if_exp.alternative.is_none(), "alternative is not None");
                }
                other => {
                    panic!("exp not IfExpression. got={:?}", other);
                }
            }
        }

        other => {
            panic!("stmt not ExpressionStatement. got={:?}", other);
        }
    }
}
#[test]
fn test_if_else_expression() {
    let input = r#"
    if (x < y) { x } else { y }
    "#;

    let lexer = Lexer::new(input);
    let mut parser = Parser::new(lexer);

    let program = parser.parse_program().unwrap();

    check_parser_errors(&parser);

    assert_eq!(
        program.statements.len(),
        1,
        "program.statements does not contain 1 statements. got={}",
        program.statements.len()
    );

    match &program.statements[0] {
        StatementNode::Expression(exp_stmt) => {
            assert!(exp_stmt.expression.is_some(), "exp_stmt.expression is None");

            match exp_stmt.expression.as_ref().unwrap() {
                ExpressionNode::IfExpressionNode(if_exp) => {
                    test_infix_expression(
                        &if_exp.condition,
                        Box::new("x"),
                        String::from("<"),
                        Box::new("y"),
                    );

                    assert_eq!(
                        if_exp.consequence.statements.len(),
                        1,
                        "consequence is not 1 statements. got={}",
                        if_exp.consequence.statements.len()
                    );

                    assert_eq!(
                        if_exp.alternative.as_ref().unwrap().statements.len(),
                        1,
                        "alternative is not 1 statements. got={}",
                        if_exp.alternative.as_ref().unwrap().statements.len()
                    );

                    match &if_exp.consequence.statements[0] {
                        StatementNode::Expression(consequence) => {
                            test_identifier(
                                consequence
                                    .expression
                                    .as_ref()
                                    .expect("Error parsing consequence"),
                                "x".to_string(),
                            );
                        }
                        other => {
                            panic!("stmt not ExpressionStatement. got={:?}", other);
                        }
                    }

                    match &if_exp.alternative.as_ref().unwrap().statements[0] {
                        StatementNode::Expression(alternative) => {
                            test_identifier(
                                alternative
                                    .expression
                                    .as_ref()
                                    .expect("Error parsing alternative"),
                                "y".to_string(),
                            );
                        }
                        other => {
                            panic!("stmt not ExpressionStatement. got={:?}", other);
                        }
                    }
                }
                other => {
                    panic!("exp not IfExpression. got={:?}", other);
                }
            }
        }

        other => {
            panic!("stmt not ExpressionStatement. got={:?}", other);
        }
    }
}

#[test]
fn test_function_literal_parsing() {
    let input = "fn(x, y) { x + y; }";

    let lexer = Lexer::new(input);
    let mut parser = Parser::new(lexer);

    let program = parser.parse_program().unwrap();

    check_parser_errors(&parser);

    assert_eq!(
        program.statements.len(),
        1,
        "program.statements does not contain 1 statements. got={}",
        program.statements.len()
    );

    match &program.statements[0] {
        StatementNode::Expression(exp_stmt) => {
            assert!(exp_stmt.expression.is_some(), "exp_stmt.expression is None");

            match exp_stmt.expression.as_ref().unwrap() {
                ExpressionNode::Function(function) => {
                    assert_eq!(
                        function.parameters.len(),
                        2,
                        "function literal parameters wrong. want 2. got={}",
                        function.parameters.len()
                    );

                    match &function.parameters[0] {
                        Identifier { token, value } => {
                            assert_eq!(
                                value, "x",
                                "function literal parameter is not 'x'. got={}",
                                value
                            );
                            assert_eq!(
                                token.literal, "x",
                                "function literal parameter is not 'x'. got={}",
                                token.literal
                            )
                        }
                    }

                    match &function.parameters[1] {
                        Identifier { token, value } => {
                            assert_eq!(
                                value, "y",
                                "function literal parameter is not 'y'. got={}",
                                value
                            );
                            assert_eq!(
                                token.literal, "y",
                                "function literal parameter is not 'y'. got={}",
                                token.literal
                            )
                        }
                    }

                    assert_eq!(
                        function.body.statements.len(),
                        1,
                        "function.body.statements has not 1 statements. got={}",
                        function.body.statements.len()
                    );

                    match &function.body.statements[0] {
                        StatementNode::Expression(body_exp) => {
                            test_infix_expression(
                                &body_exp.expression.as_ref().unwrap(),
                                Box::new("x"),
                                "+".to_string(),
                                Box::new("y"),
                            );
                        }
                        other => {
                            panic!(
                                "function body stmt is not ExpressionStatement. got={:?}",
                                other
                            );
                        }
                    }
                }
                other => {
                    panic!("exp not FunctionLiteral. got={:?}", other);
                }
            }
        }

        other => {
            panic!("stmt not ExpressionStatement. got={:?}", other);
        }
    }
}

#[test]
fn test_function_paramenter_parsing() {
    let tests = vec![
        ("fn() {};", vec![]),
        ("fn(x) {};", vec!["x"]),
        ("fn(x, y, z) {};", vec!["x", "y", "z"]),
    ];

    for test in tests {
        let lexer = Lexer::new(test.0);
        let mut parser = Parser::new(lexer);

        let program = parser.parse_program().unwrap();

        check_parser_errors(&parser);

        match &program.statements[0] {
            StatementNode::Expression(exp_stmt) => {
                assert!(exp_stmt.expression.is_some(), "exp_stmt.expression is None");

                match exp_stmt.expression.as_ref().unwrap() {
                    ExpressionNode::Function(function) => {
                        assert_eq!(
                            function.parameters.len(),
                            test.1.len(),
                            "length parameters wrong. want {}, got={}",
                            test.1.len(),
                            function.parameters.len()
                        );

                        for (i, param) in test.1.into_iter().enumerate() {
                            match &function.parameters[i] {
                                Identifier { token, value } => {
                                    assert_eq!(
                                        value, param,
                                        "function literal parameter is not '{}'. got={}",
                                        param, value
                                    );
                                    assert_eq!(
                                        token.literal, param,
                                        "function literal parameter is not '{}'. got={}",
                                        param, token.literal
                                    )
                                }
                            }
                        }
                    }
                    other => {
                        panic!("exp not FunctionLiteral. got={:?}", other);
                    }
                }
            }

            other => {
                panic!("stmt not ExpressionStatement. got={:?}", other);
            }
        }
    }
}

#[test]
fn test_call_expression_parsing() {
    let input = "add(1, 2 * 3, 4 + 5);";

    let lexer = Lexer::new(input);
    let mut parser = Parser::new(lexer);

    let program = parser.parse_program().unwrap();

    check_parser_errors(&parser);

    assert_eq!(
        program.statements.len(),
        1,
        "program.statements does not contain 1 statements. got={}",
        program.statements.len()
    );

    match &program.statements[0] {
        StatementNode::Expression(exp_stmt) => {
            assert!(exp_stmt.expression.is_some(), "exp_stmt.expression is None");

            match exp_stmt.expression.as_ref().unwrap() {
                ExpressionNode::Call(call_exp) => {
                    test_identifier(&call_exp.function, "add".to_string());

                    assert_eq!(
                        call_exp.arguments.len(),
                        3,
                        "wrong length of arguments. got={}",
                        call_exp.arguments.len()
                    );

                    test_literal_expression(&call_exp.arguments[0], Box::new(1));
                    test_infix_expression(
                        &call_exp.arguments[1],
                        Box::new(2),
                        "*".to_string(),
                        Box::new(3),
                    );
                    test_infix_expression(
                        &call_exp.arguments[2],
                        Box::new(4),
                        "+".to_string(),
                        Box::new(5),
                    );
                }
                other => {
                    panic!("exp not CallExpression. got={:?}", other);
                }
            }
        }

        other => {
            panic!("stmt not ExpressionStatement. got={:?}", other);
        }
    }
}

fn check_parser_errors(parser: &Parser) {
    let errors = parser.errors();
    if errors.len() == 0 {
        return;
    }

    println!("parser has {} errors", errors.len());
    for error in errors {
        println!("parser error: {}", error);
    }
    panic!("parser errors found");
}

fn test_integer_literal(exp: &ExpressionNode, value: i64) {
    match exp {
        ExpressionNode::Integer(integer) => {
            assert_eq!(
                integer.value, value,
                "integer.value not {}. got={}",
                value, integer.value
            );

            assert_eq!(
                integer.token_literal(),
                value.to_string(),
                "integer.token_literal() not '{}'. got={}",
                value,
                integer.token_literal()
            );
        }
        other => {
            panic!("exp not IntegerLiteral. got={:?}", other);
        }
    }
}

fn test_identifier(exp: &ExpressionNode, value: String) {
    match exp {
        ExpressionNode::IdentifierNode(identifier_exp) => {
            assert_eq!(
                identifier_exp.value, value,
                "identifier_exp.value not '{}'. got={}",
                value, identifier_exp.value
            );

            assert_eq!(
                identifier_exp.token_literal(),
                value,
                "identifier_exp.token_literal() not '{}'. got={}",
                value,
                identifier_exp.token_literal()
            );
        }
        other => {
            panic!("exp not Identifier. got={:?}", other);
        }
    }
}

fn test_literal_expression(exp: &ExpressionNode, expected: Box<dyn any::Any>) {
    match expected.downcast_ref::<String>() {
        Some(exp_string) => test_identifier(exp, exp_string.to_string()),
        None => match expected.downcast_ref::<i64>() {
            Some(int_exp) => {
                test_integer_literal(exp, *int_exp);
            }
            None => match expected.downcast_ref::<bool>() {
                Some(bool) => test_boolean_literal(exp, bool.to_owned()),
                None => (),
            },
        },
    }
}

fn test_infix_expression(
    exp: &ExpressionNode,
    left: Box<dyn any::Any>,
    operator: String,
    right: Box<dyn any::Any>,
) {
    match exp {
        ExpressionNode::Infix(infix_exp) => {
            test_literal_expression(&infix_exp.left, left);
            assert_eq!(
                infix_exp.operator, operator,
                "infix_exp.operator is not '{}'. got={}",
                operator, infix_exp.operator
            );
            test_literal_expression(&infix_exp.right, right);
        }
        other => {
            panic!("exp not Infix. got={:?}", other);
        }
    }
}

fn test_boolean_literal(exp: &ExpressionNode, value: bool) {
    match exp {
        ExpressionNode::BooleanNode(bool_exp) => {
            assert_eq!(
                bool_exp.value, value,
                "boolean.value not {}. got={}",
                value, bool_exp.value
            );

            assert_eq!(
                bool_exp.token_literal(),
                value.to_string(),
                "boolean.token_literal() not '{}'. got={}",
                value,
                bool_exp.token_literal()
            );
        }
        other => {
            panic!("exp not Boolean. got={:?}", other);
        }
    }
}

fn test_let_statement(stmt: &StatementNode, expected: &str) {
    assert_eq!(
        stmt.token_literal(),
        "let",
        "token literal not `let`. got={}",
        stmt.token_literal()
    );
    match stmt {
        StatementNode::Let(let_stmt) => {
            assert_eq!(
                let_stmt.name.value, expected,
                "LetStatement name value not {}. got {}",
                expected, let_stmt.name.value
            );
            assert_eq!(
                let_stmt.name.token_literal(),
                expected,
                "LetStatement name value not {}. got {}",
                expected,
                let_stmt.name.token_literal()
            );
        }
        other => panic!("not a Let Statement. got={:?}", other),
    }
}
