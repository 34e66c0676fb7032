use monkey_front::ast::{
    Boolean, Expression, ExpressionStatement, Identifier, InfixExpression, IntegerLiteral,
    LetStatement, PrefixExpression, Program, ReturnStatement, Statement,
};
use monkey_front::token::{Token, TokenKind};

fn ident(name: &str) -> Identifier {
    Identifier {
        token: Token::new(TokenKind::IDENTIFIER, String::from(name)),
        value: String::from(name),
    }
}

#[test]
fn test_identifier_node_renders_its_text() {
    let node = ident("foobar");
    assert_eq!(node.token_literal(), "foobar");
    assert_eq!(node.string(), "foobar");
}

#[test]
fn test_integer_literal_node_renders_its_text() {
    let node = IntegerLiteral {
        token: Token::new(TokenKind::INTEGER, String::from("42")),
        value: 42,
    };
    assert_eq!(node.token_literal(), "42");
    assert_eq!(node.string(), "42");
}

#[test]
fn test_boolean_node_renders_its_text() {
    let node = Boolean {
        token: Token::new(TokenKind::TRUE, String::from("true")),
        value: true,
    };
    assert_eq!(node.token_literal(), "true");
    assert_eq!(node.string(), "true");
}

#[test]
fn test_prefix_node_renders_without_padding() {
    let node = PrefixExpression {
        token: Token::new(TokenKind::BANG, String::from("!")),
        operator: String::from("!"),
        right: Box::new(Expression::Identifier(ident("x"))),
    };
    assert_eq!(node.token_literal(), "!");
    assert_eq!(node.string(), "(!x)");
}

#[test]
fn test_infix_node_renders_with_single_space_padding() {
    let node = InfixExpression {
        token: Token::new(TokenKind::PLUS, String::from("+")),
        left: Box::new(Expression::Identifier(ident("a"))),
        operator: String::from("+"),
        right: Box::new(Expression::Identifier(ident("b"))),
    };
    assert_eq!(node.token_literal(), "+");
    assert_eq!(node.string(), "(a + b)");
}

#[test]
fn test_program_renders_statement_concatenation() {
    let let_statement = LetStatement {
        token: Token::new(TokenKind::LET, String::from("let")),
        name: ident("x"),
        value: Expression::IntegerLiteral(IntegerLiteral {
            token: Token::new(TokenKind::INTEGER, String::from("5")),
            value: 5,
        }),
    };
    let return_statement = ReturnStatement {
        token: Token::new(TokenKind::RETURN, String::from("return")),
        return_value: Expression::Identifier(ident("x")),
    };
    let expression_statement = ExpressionStatement {
        token: Token::new(TokenKind::IDENTIFIER, String::from("y")),
        expression: Expression::Identifier(ident("y")),
    };
    let program = Program {
        statements: vec![
            Statement::Let(let_statement),
            Statement::Return(return_statement),
            Statement::Expression(expression_statement),
        ],
    };
    assert_eq!(program.token_literal(), "let");
    assert_eq!(program.string(), "let x = 5;return x;y");
}
