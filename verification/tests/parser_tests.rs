use monkey_front::ast::Statement;
use monkey_front::lexer::tokenize;
use monkey_front::parser::{ParseError, Parser};

#[test]
fn test_parser() {
    let input = r#"
        let x = 5;
        let y = 10;
        let foobar = 838383;
                "#;

    let lexer = tokenize(input);

    let mut parser = Parser::new(lexer);
    let program = parser.parse();

    for stmt in program.statements {
        assert_eq!(stmt.token_literal(), "let");
    }
}

#[test]
fn test_return_statement() {
    let input = r#"
        return 5;
        return 10;
        return 993322;
                "#;

    let lexer = tokenize(input);

    let mut parser = Parser::new(lexer);
    let program = parser.parse();

    for stmt in program.statements {
        assert_eq!(stmt.token_literal(), "return");
    }
}

#[test]
fn test_expression_statement() {
    let input = r#"
        hoge;
        fuga;
                "#;

    let lexer = tokenize(input);

    let mut parser = Parser::new(lexer);
    let program = parser.parse();

    assert_eq!(program.statements[0].token_literal(), "hoge");
    assert_eq!(program.statements[1].token_literal(), "fuga");
}

#[test]
fn test_integer_literal_expression() {
    let input = "5;";

    let lexer = tokenize(input);

    let mut parser = Parser::new(lexer);
    let program = parser.parse();

    assert_eq!(program.statements[0].token_literal(), "5");
}

#[test]
fn test_prefix_expression() {
    let input = r#"
    !5;
    -15;
            "#;

    let lexer = tokenize(input);

    let mut parser = Parser::new(lexer);
    let program = parser.parse();

    assert_eq!(program.statements[0].string(), "(!5)");
    assert_eq!(program.statements[1].string(), "(-15)");
}

#[test]
fn test_infix_expression() {
    let input = r#"
5 + 5;
5 - 5;
5 * 5;
5 / 5;
5 > 5;
5 < 5;
5 == 5;
5 != 5;
-a * b;
!-a;
a + b + c;
a + b - c;
a * b * c;
a * b / c;
a + b / c;
a + b * c + d / e - f;
3 + 4; -5 * 5;
5 > 4 == 3 < 4;
3 + 4 * 5 == 3 * 1 + 4 * 5;
"#;
    let lexer = tokenize(input);
    let mut parser = Parser::new(lexer);
    let program = parser.parse();

    assert_eq!(program.statements[0].string(), "(5 + 5)");
    assert_eq!(program.statements[1].string(), "(5 - 5)");
    assert_eq!(program.statements[2].string(), "(5 * 5)");
    assert_eq!(program.statements[3].string(), "(5 / 5)");
    assert_eq!(program.statements[4].string(), "(5 > 5)");
    assert_eq!(program.statements[5].string(), "(5 < 5)");
    assert_eq!(program.statements[6].string(), "(5 == 5)");
    assert_eq!(program.statements[7].string(), "(5 != 5)");
    assert_eq!(program.statements[8].string(), "((-a) * b)");
    assert_eq!(program.statements[9].string(), "(!(-a))");
    assert_eq!(program.statements[10].string(), "((a + b) + c)");
    assert_eq!(program.statements[11].string(), "((a + b) - c)");
    assert_eq!(program.statements[12].string(), "((a * b) * c)");
    assert_eq!(program.statements[13].string(), "((a * b) / c)");
    assert_eq!(program.statements[14].string(), "(a + (b / c))");
    assert_eq!(
        program.statements[15].string(),
        "(((a + (b * c)) + (d / e)) - f)"
    );
    assert_eq!(program.statements[16].string(), "(3 + 4)");
    assert_eq!(program.statements[17].string(), "((-5) * 5)");
    assert_eq!(program.statements[18].string(), "((5 > 4) == (3 < 4))");
    assert_eq!(
        program.statements[19].string(),
        "((3 + (4 * 5)) == ((3 * 1) + (4 * 5)))"
    );
}

#[test]
fn test_two_let_statements_shape() {
    let mut parser = Parser::new(tokenize("let x = 5; let y = 10;"));
    let program = parser.parse();
    assert_eq!(program.statements.len(), 2);
    for stmt in &program.statements {
        assert!(matches!(stmt, Statement::Let(_)));
        assert_eq!(stmt.token_literal(), "let");
    }
    assert!(parser.errors.is_empty());
}

#[test]
fn test_two_return_statements_shape() {
    let mut parser = Parser::new(tokenize("return 5; return 10;"));
    let program = parser.parse();
    assert_eq!(program.statements.len(), 2);
    for stmt in &program.statements {
        assert!(matches!(stmt, Statement::Return(_)));
        assert_eq!(stmt.token_literal(), "return");
    }
    assert!(parser.errors.is_empty());
}

#[test]
fn test_let_statement_records_value_expression() {
    let mut parser = Parser::new(tokenize("let x = 5 + 6;"));
    let program = parser.parse();
    assert_eq!(program.statements.len(), 1);
    match &program.statements[0] {
        Statement::Let(ls) => {
            assert_eq!(ls.name.value, "x");
            assert_eq!(ls.value.string(), "(5 + 6)");
            assert_eq!(ls.string(), "let x = (5 + 6);");
        }
        _ => panic!("expected a let statement"),
    }
}

#[test]
fn test_return_statement_records_value_expression() {
    let mut parser = Parser::new(tokenize("return a * 2;"));
    let program = parser.parse();
    assert_eq!(program.statements.len(), 1);
    match &program.statements[0] {
        Statement::Return(rs) => {
            assert_eq!(rs.return_value.string(), "(a * 2)");
            assert_eq!(rs.string(), "return (a * 2);");
        }
        _ => panic!("expected a return statement"),
    }
}

#[test]
fn test_integer_statement_renders_itself() {
    let mut parser = Parser::new(tokenize("5;"));
    let program = parser.parse();
    assert_eq!(program.statements.len(), 1);
    assert!(matches!(
        program.statements[0],
        Statement::Expression(_)
    ));
    assert_eq!(program.statements[0].string(), "5");
}

#[test]
fn test_let_missing_identifier_recovers() {
    let mut parser = Parser::new(tokenize("let = 5; let z = 3;"));
    let program = parser.parse();
    assert_eq!(program.statements.len(), 1);
    match &program.statements[0] {
        Statement::Let(ls) => assert_eq!(ls.name.value, "z"),
        _ => panic!("expected a let statement"),
    }
    assert_eq!(parser.errors.len(), 1);
    assert!(matches!(
        parser.errors[0],
        ParseError::UnexpectedToken(_)
    ));
}

#[test]
fn test_let_missing_identifier_yields_no_statement() {
    let mut parser = Parser::new(tokenize("let = 5;"));
    let program = parser.parse();
    assert_eq!(program.statements.len(), 0);
    assert_eq!(parser.errors.len(), 1);
}

#[test]
fn test_integer_overflow_is_conversion_error() {
    let mut parser = Parser::new(tokenize("92233720368547758079;"));
    let program = parser.parse();
    assert_eq!(program.statements.len(), 0);
    assert_eq!(parser.errors.len(), 1);
    assert!(matches!(
        parser.errors[0],
        ParseError::IntegerConversion(_)
    ));
}

#[test]
fn test_largest_integer_literal_parses() {
    let mut parser = Parser::new(tokenize("9223372036854775807;"));
    let program = parser.parse();
    assert_eq!(program.statements.len(), 1);
    assert_eq!(program.statements[0].string(), "9223372036854775807");
    assert!(parser.errors.is_empty());
    let mut parser = Parser::new(tokenize("9223372036854775808;"));
    let program = parser.parse();
    assert_eq!(program.statements.len(), 0);
    assert_eq!(parser.errors.len(), 1);
}

#[test]
fn test_empty_program_is_valid() {
    let mut parser = Parser::new(tokenize(""));
    let program = parser.parse();
    assert_eq!(program.statements.len(), 0);
    assert_eq!(program.token_literal(), "");
    assert_eq!(program.string(), "");
    assert!(parser.errors.is_empty());
}

#[test]
fn test_render_round_trip_is_fixed_point_for_leaves() {
    for src in ["5;", "foo;"] {
        let mut parser = Parser::new(tokenize(src));
        let program = parser.parse();
        assert_eq!(program.statements.len(), 1);
        let rendered = program.string();
        let mut reparser = Parser::new(tokenize(&rendered));
        let reparsed = reparser.parse();
        assert_eq!(reparsed.statements.len(), 1);
        assert_eq!(reparsed.string(), rendered);
    }
}

#[test]
fn test_error_message_text() {
    let mut parser = Parser::new(tokenize("let 5 = 3;"));
    let program = parser.parse();
    assert_eq!(program.statements.len(), 0);
    assert_eq!(parser.errors.len(), 1);
    assert_eq!(
        parser.errors[0].message(),
        "Unexpected token: Token{ kind: INTEGER, literal: 5 }"
    );
}
