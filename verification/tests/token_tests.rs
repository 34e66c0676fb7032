use monkey_front::token::{Precedence, Token, TokenKind};

#[test]
fn test_token_precedence_table() {
    let cases = [
        (TokenKind::EQ, Precedence::Equals),
        (TokenKind::NOT_EQ, Precedence::Equals),
        (TokenKind::LT, Precedence::Lessgreater),
        (TokenKind::GT, Precedence::Lessgreater),
        (TokenKind::PLUS, Precedence::Sum),
        (TokenKind::MINUS, Precedence::Sum),
        (TokenKind::SLASH, Precedence::Product),
        (TokenKind::ASTERISK, Precedence::Product),
        (TokenKind::SEMICOLON, Precedence::Lowest),
        (TokenKind::IDENTIFIER, Precedence::Lowest),
        (TokenKind::ASSIGN, Precedence::Lowest),
        (TokenKind::BANG, Precedence::Lowest),
    ];
    for (kind, precedence) in cases {
        let token = Token::new(kind, String::new());
        assert_eq!(token.precedence(), precedence);
    }
}

#[test]
fn test_precedence_order_is_strict_and_total() {
    let levels = [
        Precedence::Lowest,
        Precedence::Equals,
        Precedence::Lessgreater,
        Precedence::Sum,
        Precedence::Product,
        Precedence::Prefix,
        Precedence::Call,
    ];
    for pair in levels.windows(2) {
        assert!(pair[0].rank() < pair[1].rank());
        assert!(pair[0] < pair[1]);
    }
    assert_eq!(Precedence::Lowest.rank(), 1);
    assert_eq!(Precedence::Call.rank(), 7);
}

#[test]
fn test_token_kind_text() {
    assert_eq!(TokenKind::EQ.text(), "==");
    assert_eq!(TokenKind::NOT_EQ.text(), "!=");
    assert_eq!(TokenKind::ASSIGN.text(), "=");
    assert_eq!(TokenKind::LET.text(), "LET");
    assert_eq!(TokenKind::ILLEGAL.text(), "ILLEGAL");
    assert_eq!(TokenKind::EOF.text(), "EOF");
}

#[test]
fn test_token_text() {
    let token = Token::new(TokenKind::INTEGER, String::from("5"));
    assert_eq!(token.text(), "Token{ kind: INTEGER, literal: 5 }");
}

#[test]
fn test_token_new_keeps_kind_and_literal() {
    let token = Token::new(TokenKind::IDENTIFIER, String::from("five"));
    assert_eq!(token.kind, TokenKind::IDENTIFIER);
    assert_eq!(token.literal, "five");
    assert_eq!(token.clone(), token);
}
