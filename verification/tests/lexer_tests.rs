use monkey_front::lexer::tokenize;
use monkey_front::token::{Token, TokenKind};

#[test]
fn test_tokenize() {
    let input = r#"
let five = 5;
let ten = 10;

let add = fn(x, y) {
  x + y;
};

let result = add(five, ten);
!-/*5;
5 < 10 > 5;

if ( 5 < 10 ) {
  return true;
} else {
  return false;
}

10 == 10;
10 != 9;
        "#;
    let tokens = tokenize(input);

    let expected = vec![
        Token::new(TokenKind::LET, String::from("let")),
        Token::new(TokenKind::IDENTIFIER, String::from("five")),
        Token::new(TokenKind::ASSIGN, String::from("=")),
        Token::new(TokenKind::INTEGER, String::from("5")),
        Token::new(TokenKind::SEMICOLON, String::from(";")),
        Token::new(TokenKind::LET, String::from("let")),
        Token::new(TokenKind::IDENTIFIER, String::from("ten")),
        Token::new(TokenKind::ASSIGN, String::from("=")),
        Token::new(TokenKind::INTEGER, String::from("10")),
        Token::new(TokenKind::SEMICOLON, String::from(";")),
        Token::new(TokenKind::LET, String::from("let")),
        Token::new(TokenKind::IDENTIFIER, String::from("add")),
        Token::new(TokenKind::ASSIGN, String::from("=")),
        Token::new(TokenKind::FUNCTION, String::from("fn")),
        Token::new(TokenKind::LPAREN, String::from("(")),
        Token::new(TokenKind::IDENTIFIER, String::from("x")),
        Token::new(TokenKind::COMMA, String::from(",")),
        Token::new(TokenKind::IDENTIFIER, String::from("y")),
        Token::new(TokenKind::RPAREN, String::from(")")),
        Token::new(TokenKind::LBRACE, String::from("{")),
        Token::new(TokenKind::IDENTIFIER, String::from("x")),
        Token::new(TokenKind::PLUS, String::from("+")),
        Token::new(TokenKind::IDENTIFIER, String::from("y")),
        Token::new(TokenKind::SEMICOLON, String::from(";")),
        Token::new(TokenKind::RBRACE, String::from("}")),
        Token::new(TokenKind::SEMICOLON, String::from(";")),
        Token::new(TokenKind::LET, String::from("let")),
        Token::new(TokenKind::IDENTIFIER, String::from("result")),
        Token::new(TokenKind::ASSIGN, String::from("=")),
        Token::new(TokenKind::IDENTIFIER, String::from("add")),
        Token::new(TokenKind::LPAREN, String::from("(")),
        Token::new(TokenKind::IDENTIFIER, String::from("five")),
        Token::new(TokenKind::COMMA, String::from(",")),
        Token::new(TokenKind::IDENTIFIER, String::from("ten")),
        Token::new(TokenKind::RPAREN, String::from(")")),
        Token::new(TokenKind::SEMICOLON, String::from(";")),
        Token::new(TokenKind::BANG, String::from("!")),
        Token::new(TokenKind::MINUS, String::from("-")),
        Token::new(TokenKind::SLASH, String::from("/")),
        Token::new(TokenKind::ASTERISK, String::from("*")),
        Token::new(TokenKind::INTEGER, String::from("5")),
        Token::new(TokenKind::SEMICOLON, String::from(";")),
        Token::new(TokenKind::INTEGER, String::from("5")),
        Token::new(TokenKind::LT, String::from("<")),
        Token::new(TokenKind::INTEGER, String::from("10")),
        Token::new(TokenKind::GT, String::from(">")),
        Token::new(TokenKind::INTEGER, String::from("5")),
        Token::new(TokenKind::SEMICOLON, String::from(";")),
        Token::new(TokenKind::IF, String::from("if")),
        Token::new(TokenKind::LPAREN, String::from("(")),
        Token::new(TokenKind::INTEGER, String::from("5")),
        Token::new(TokenKind::LT, String::from("<")),
        Token::new(TokenKind::INTEGER, String::from("10")),
        Token::new(TokenKind::RPAREN, String::from(")")),
        Token::new(TokenKind::LBRACE, String::from("{")),
        Token::new(TokenKind::RETURN, String::from("return")),
        Token::new(TokenKind::TRUE, String::from("true")),
        Token::new(TokenKind::SEMICOLON, String::from(";")),
        Token::new(TokenKind::RBRACE, String::from("}")),
        Token::new(TokenKind::ELSE, String::from("else")),
        Token::new(TokenKind::LBRACE, String::from("{")),
        Token::new(TokenKind::RETURN, String::from("return")),
        Token::new(TokenKind::FALSE, String::from("false")),
        Token::new(TokenKind::SEMICOLON, String::from(";")),
        Token::new(TokenKind::RBRACE, String::from("}")),
        Token::new(TokenKind::INTEGER, String::from("10")),
        Token::new(TokenKind::EQ, String::from("==")),
        Token::new(TokenKind::INTEGER, String::from("10")),
        Token::new(TokenKind::SEMICOLON, String::from(";")),
        Token::new(TokenKind::INTEGER, String::from("10")),
        Token::new(TokenKind::NOT_EQ, String::from("!=")),
        Token::new(TokenKind::INTEGER, String::from("9")),
        Token::new(TokenKind::SEMICOLON, String::from(";")),
        Token::new(TokenKind::EOF, String::from("")),
    ];
    assert_eq!(tokens, expected);
}

#[test]
fn test_tokenize_exact_simple_binding() {
    let tokens = tokenize("let five = 5;");
    let expected = vec![
        Token::new(TokenKind::LET, String::from("let")),
        Token::new(TokenKind::IDENTIFIER, String::from("five")),
        Token::new(TokenKind::ASSIGN, String::from("=")),
        Token::new(TokenKind::INTEGER, String::from("5")),
        Token::new(TokenKind::SEMICOLON, String::from(";")),
        Token::new(TokenKind::EOF, String::from("")),
    ];
    assert_eq!(tokens, expected);
}

#[test]
fn test_tokenize_eq_is_one_token() {
    let tokens = tokenize("10 == 10;");
    assert_eq!(tokens[1], Token::new(TokenKind::EQ, String::from("==")));
    assert_eq!(tokens.len(), 5);
}

#[test]
fn test_tokenize_not_eq_is_one_token() {
    let tokens = tokenize("10 != 9;");
    assert_eq!(tokens[1], Token::new(TokenKind::NOT_EQ, String::from("!=")));
    assert_eq!(tokens.len(), 5);
}

#[test]
fn test_tokenize_keyword_boundary() {
    let tokens = tokenize("let");
    assert_eq!(
        tokens,
        vec![
            Token::new(TokenKind::LET, String::from("let")),
            Token::new(TokenKind::EOF, String::from("")),
        ]
    );
    let tokens = tokenize("letx");
    assert_eq!(
        tokens,
        vec![
            Token::new(TokenKind::IDENTIFIER, String::from("letx")),
            Token::new(TokenKind::EOF, String::from("")),
        ]
    );
}

#[test]
fn test_tokenize_all_keywords() {
    let tokens = tokenize("fn let true false if else return");
    let kinds: Vec<TokenKind> = tokens.iter().map(|t| t.kind).collect();
    assert_eq!(
        kinds,
        vec![
            TokenKind::FUNCTION,
            TokenKind::LET,
            TokenKind::TRUE,
            TokenKind::FALSE,
            TokenKind::IF,
            TokenKind::ELSE,
            TokenKind::RETURN,
            TokenKind::EOF,
        ]
    );
}

#[test]
fn test_tokenize_empty_input_is_only_eof() {
    let tokens = tokenize("");
    assert_eq!(tokens, vec![Token::new(TokenKind::EOF, String::from(""))]);
}

#[test]
fn test_tokenize_illegal_character() {
    let tokens = tokenize("@");
    assert_eq!(
        tokens,
        vec![
            Token::new(TokenKind::ILLEGAL, String::from("@")),
            Token::new(TokenKind::EOF, String::from("")),
        ]
    );
}

#[test]
fn test_tokenize_single_assign_and_bang_at_end() {
    let tokens = tokenize("=");
    assert_eq!(
        tokens,
        vec![
            Token::new(TokenKind::ASSIGN, String::from("=")),
            Token::new(TokenKind::EOF, String::from("")),
        ]
    );
    let tokens = tokenize("!");
    assert_eq!(
        tokens,
        vec![
            Token::new(TokenKind::BANG, String::from("!")),
            Token::new(TokenKind::EOF, String::from("")),
        ]
    );
}

#[test]
fn test_tokenize_digit_run_never_splits() {
    let tokens = tokenize("123456");
    assert_eq!(
        tokens,
        vec![
            Token::new(TokenKind::INTEGER, String::from("123456")),
            Token::new(TokenKind::EOF, String::from("")),
        ]
    );
}
