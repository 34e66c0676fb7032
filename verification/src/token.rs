//! Token kinds, token values, and the operator-precedence table.

use vstd::prelude::*;

verus! {

/// The lexical category of a token.
#[allow(non_camel_case_types)]
#[derive(Debug, PartialEq, Eq, Structural, Clone, Copy, Hash)]
pub enum TokenKind {
    ILLEGAL,
    EOF,
    INTEGER,
    IDENTIFIER,
    ASSIGN,
    PLUS,
    MINUS,
    BANG,
    ASTERISK,
    SLASH,
    LT,
    GT,
    EQ,
    NOT_EQ,
    COMMA,
    SEMICOLON,
    LPAREN,
    RPAREN,
    LBRACE,
    RBRACE,
    FUNCTION,
    LET,
    TRUE,
    FALSE,
    IF,
    ELSE,
    RETURN,
}

/// The smallest lexical unit: a kind together with the exact matched text.
#[derive(Debug, PartialEq)]
pub struct Token {
    pub kind: TokenKind,
    pub literal: String,
}

impl Clone for Token {
    fn clone(&self) -> (t: Token)
        ensures
            t == *self,
    {
        Token { kind: self.kind, literal: self.literal.clone() }
    }
}

/// Mathematical model of a token: its kind and the character sequence of its
/// literal text.
pub ghost struct TokenV {
    pub kind: TokenKind,
    pub literal: Seq<char>,
}

impl View for Token {
    type V = TokenV;

    open spec fn view(&self) -> TokenV {
        TokenV { kind: self.kind, literal: self.literal@ }
    }
}

/// The model of a whole token stream.
pub open spec fn tokens_view(tokens: Seq<Token>) -> Seq<TokenV> {
    tokens.map_values(|t: Token| t@)
}

/// The display form of a token kind: operator and punctuation kinds show their
/// text, the other kinds their name.
pub open spec fn kind_text(k: TokenKind) -> Seq<char> {
    match k {
        TokenKind::ILLEGAL => "ILLEGAL"@,
        TokenKind::EOF => "EOF"@,
        TokenKind::INTEGER => "INTEGER"@,
        TokenKind::IDENTIFIER => "IDENTIFIER"@,
        TokenKind::ASSIGN => "="@,
        TokenKind::PLUS => "+"@,
        TokenKind::MINUS => "-"@,
        TokenKind::BANG => "!"@,
        TokenKind::ASTERISK => "*"@,
        TokenKind::SLASH => "/"@,
        TokenKind::LT => "<"@,
        TokenKind::GT => ">"@,
        TokenKind::EQ => "=="@,
        TokenKind::NOT_EQ => "!="@,
        TokenKind::COMMA => ","@,
        TokenKind::SEMICOLON => ";"@,
        TokenKind::LPAREN => "("@,
        TokenKind::RPAREN => ")"@,
        TokenKind::LBRACE => "{"@,
        TokenKind::RBRACE => "}"@,
        TokenKind::FUNCTION => "FUNCTION"@,
        TokenKind::LET => "LET"@,
        TokenKind::TRUE => "TRUE"@,
        TokenKind::FALSE => "FALSE"@,
        TokenKind::IF => "IF"@,
        TokenKind::ELSE => "ELSE"@,
        TokenKind::RETURN => "RETURN"@,
    }
}

impl TokenKind {
    /// The display form of this kind.
    pub fn text(&self) -> (r: String)
        ensures
            r@ == kind_text(*self),
    {
        match self {
            TokenKind::ILLEGAL => String::from_str("ILLEGAL"),
            TokenKind::EOF => String::from_str("EOF"),
            TokenKind::INTEGER => String::from_str("INTEGER"),
            TokenKind::IDENTIFIER => String::from_str("IDENTIFIER"),
            TokenKind::ASSIGN => String::from_str("="),
            TokenKind::PLUS => String::from_str("+"),
            TokenKind::MINUS => String::from_str("-"),
            TokenKind::BANG => String::from_str("!"),
            TokenKind::ASTERISK => String::from_str("*"),
            TokenKind::SLASH => String::from_str("/"),
            TokenKind::LT => String::from_str("<"),
            TokenKind::GT => String::from_str(">"),
            TokenKind::EQ => String::from_str("=="),
            TokenKind::NOT_EQ => String::from_str("!="),
            TokenKind::COMMA => String::from_str(","),
            TokenKind::SEMICOLON => String::from_str(";"),
            TokenKind::LPAREN => String::from_str("("),
            TokenKind::RPAREN => String::from_str(")"),
            TokenKind::LBRACE => String::from_str("{"),
            TokenKind::RBRACE => String::from_str("}"),
            TokenKind::FUNCTION => String::from_str("FUNCTION"),
            TokenKind::LET => String::from_str("LET"),
            TokenKind::TRUE => String::from_str("TRUE"),
            TokenKind::FALSE => String::from_str("FALSE"),
            TokenKind::IF => String::from_str("IF"),
            TokenKind::ELSE => String::from_str("ELSE"),
            TokenKind::RETURN => String::from_str("RETURN"),
        }
    }
}

/// The display form of a token: its kind and its literal text.
pub open spec fn token_text(t: TokenV) -> Seq<char> {
    "Token{ kind: "@ + kind_text(t.kind) + ", literal: "@ + t.literal + " }"@
}

/// The six-level ranking (plus the Lowest floor) that drives precedence
/// climbing; the order is strict and total.
#[derive(Debug, PartialEq, Eq, Structural, PartialOrd, Clone, Copy)]
pub enum Precedence {
    Lowest,
    Equals,
    Lessgreater,
    Sum,
    Product,
    Prefix,
    Call,
}

/// Numeric rank of a precedence level; higher binds tighter.
pub open spec fn precedence_rank(p: Precedence) -> int {
    match p {
        Precedence::Lowest => 1,
        Precedence::Equals => 2,
        Precedence::Lessgreater => 3,
        Precedence::Sum => 4,
        Precedence::Product => 5,
        Precedence::Prefix => 6,
        Precedence::Call => 7,
    }
}

impl Precedence {
    /// Executable form of the rank; used to compare precedence levels.
    pub fn rank(&self) -> (r: u8)
        ensures
            r as int == precedence_rank(*self),
    {
        match self {
            Precedence::Lowest => 1,
            Precedence::Equals => 2,
            Precedence::Lessgreater => 3,
            Precedence::Sum => 4,
            Precedence::Product => 5,
            Precedence::Prefix => 6,
            Precedence::Call => 7,
        }
    }
}

/// The precedence a token kind has when it appears as an infix operator; every
/// kind that is not a binary operator ranks Lowest.
pub open spec fn kind_precedence(kind: TokenKind) -> Precedence {
    match kind {
        TokenKind::EQ => Precedence::Equals,
        TokenKind::NOT_EQ => Precedence::Equals,
        TokenKind::LT => Precedence::Lessgreater,
        TokenKind::GT => Precedence::Lessgreater,
        TokenKind::PLUS => Precedence::Sum,
        TokenKind::MINUS => Precedence::Sum,
        TokenKind::SLASH => Precedence::Product,
        TokenKind::ASTERISK => Precedence::Product,
        _ => Precedence::Lowest,
    }
}

impl Token {
    pub fn new(kind: TokenKind, literal: String) -> (t: Token)
        ensures
            t.kind == kind,
            t.literal == literal,
    {
        Token { kind, literal }
    }

    /// The display form of this token.
    pub fn text(&self) -> (r: String)
        ensures
            r@ == token_text(self@),
    {
        let mut out = String::from_str("Token{ kind: ");
        let kind = self.kind.text();
        out.append(kind.as_str());
        out.append(", literal: ");
        out.append(self.literal.as_str());
        out.append(" }");
        proof {
            assert(out@ =~= token_text(self@));
        }
        out
    }

    /// The precedence this token has as an infix operator.
    pub fn precedence(&self) -> (p: Precedence)
        ensures
            p == kind_precedence(self.kind),
    {
        match self.kind {
            TokenKind::EQ | TokenKind::NOT_EQ => Precedence::Equals,
            TokenKind::LT | TokenKind::GT => Precedence::Lessgreater,
            TokenKind::PLUS | TokenKind::MINUS => Precedence::Sum,
            TokenKind::SLASH | TokenKind::ASTERISK => Precedence::Product,
            _ => Precedence::Lowest,
        }
    }
}

} // verus!
