//! The tokenizer: one left-to-right pass over the source text with one
//! character of lookahead, producing a token stream that always ends in the
//! end-of-input sentinel.

use vstd::prelude::*;
use vstd::string::StrSliceExecFns;
use vstd::string::StringExecFns;

use crate::token::{Token, TokenKind, TokenV};

verus! {

/// A character the scanner skips: any Unicode whitespace (the characters with
/// the White_Space property).
pub open spec fn is_space_char(c: char) -> bool {
    ||| c as u32 == 0x9
    ||| c as u32 == 0xA
    ||| c as u32 == 0xB
    ||| c as u32 == 0xC
    ||| c as u32 == 0xD
    ||| c as u32 == 0x20
    ||| c as u32 == 0x85
    ||| c as u32 == 0xA0
    ||| c as u32 == 0x1680
    ||| (0x2000 <= c as u32 && c as u32 <= 0x200A)
    ||| c as u32 == 0x2028
    ||| c as u32 == 0x2029
    ||| c as u32 == 0x202F
    ||| c as u32 == 0x205F
    ||| c as u32 == 0x3000
}

/// An ASCII decimal digit.
pub open spec fn is_digit_char(c: char) -> bool {
    '0' as u32 <= c as u32 && c as u32 <= '9' as u32
}

/// A character that may appear in an identifier or keyword: an ASCII letter,
/// an ASCII digit, or an underscore.
pub open spec fn is_word_char(c: char) -> bool {
    ||| ('a' as u32 <= c as u32 && c as u32 <= 'z' as u32)
    ||| ('A' as u32 <= c as u32 && c as u32 <= 'Z' as u32)
    ||| c == '_'
    ||| is_digit_char(c)
}

/// Length of the maximal run of ASCII digits at the front of `s`.
pub open spec fn digit_run_len(s: Seq<char>) -> nat
    decreases s.len(),
{
    if s.len() > 0 && is_digit_char(s[0]) {
        1 + digit_run_len(s.skip(1))
    } else {
        0
    }
}

/// Length of the maximal run of word characters at the front of `s`.
pub open spec fn word_run_len(s: Seq<char>) -> nat
    decreases s.len(),
{
    if s.len() > 0 && is_word_char(s[0]) {
        1 + word_run_len(s.skip(1))
    } else {
        0
    }
}

pub proof fn lemma_digit_run_len_le(s: Seq<char>)
    ensures
        digit_run_len(s) <= s.len(),
    decreases s.len(),
{
    if s.len() > 0 && is_digit_char(s[0]) {
        lemma_digit_run_len_le(s.skip(1));
    }
}

pub proof fn lemma_word_run_len_le(s: Seq<char>)
    ensures
        word_run_len(s) <= s.len(),
    decreases s.len(),
{
    if s.len() > 0 && is_word_char(s[0]) {
        lemma_word_run_len_le(s.skip(1));
    }
}

/// The keyword table: which token kind a completed word is reclassified to;
/// a word that matches no keyword stays an identifier.
pub open spec fn keyword_kind(w: Seq<char>) -> TokenKind {
    if w == "fn"@ {
        TokenKind::FUNCTION
    } else if w == "let"@ {
        TokenKind::LET
    } else if w == "true"@ {
        TokenKind::TRUE
    } else if w == "false"@ {
        TokenKind::FALSE
    } else if w == "if"@ {
        TokenKind::IF
    } else if w == "else"@ {
        TokenKind::ELSE
    } else if w == "return"@ {
        TokenKind::RETURN
    } else {
        TokenKind::IDENTIFIER
    }
}

/// The single-character tokens that map directly to a kind. The characters
/// `=` and `!` are not here: they take part in two-character operators and
/// are dispatched first.
pub open spec fn single_token(c: char) -> Option<TokenV> {
    if c == '+' {
        Some(TokenV { kind: TokenKind::PLUS, literal: "+"@ })
    } else if c == '-' {
        Some(TokenV { kind: TokenKind::MINUS, literal: "-"@ })
    } else if c == '*' {
        Some(TokenV { kind: TokenKind::ASTERISK, literal: "*"@ })
    } else if c == '/' {
        Some(TokenV { kind: TokenKind::SLASH, literal: "/"@ })
    } else if c == '<' {
        Some(TokenV { kind: TokenKind::LT, literal: "<"@ })
    } else if c == '>' {
        Some(TokenV { kind: TokenKind::GT, literal: ">"@ })
    } else if c == ',' {
        Some(TokenV { kind: TokenKind::COMMA, literal: ","@ })
    } else if c == ';' {
        Some(TokenV { kind: TokenKind::SEMICOLON, literal: ";"@ })
    } else if c == '(' {
        Some(TokenV { kind: TokenKind::LPAREN, literal: "("@ })
    } else if c == ')' {
        Some(TokenV { kind: TokenKind::RPAREN, literal: ")"@ })
    } else if c == '{' {
        Some(TokenV { kind: TokenKind::LBRACE, literal: "{"@ })
    } else if c == '}' {
        Some(TokenV { kind: TokenKind::RBRACE, literal: "}"@ })
    } else {
        None
    }
}

/// The token stream of a source text: whitespace is skipped, two-character
/// operators are preferred over their one-character prefixes (maximal munch),
/// digit runs become one INTEGER token, word runs become a keyword or an
/// IDENTIFIER, any other character becomes an ILLEGAL token, and the stream
/// ends with the EOF sentinel.
pub open spec fn spec_tokens(s: Seq<char>) -> Seq<TokenV>
    decreases s.len(),
{
    if s.len() == 0 {
        seq![TokenV { kind: TokenKind::EOF, literal: Seq::empty() }]
    } else {
        let c = s[0];
        if is_space_char(c) {
            spec_tokens(s.skip(1))
        } else if c == '=' {
            if s.len() >= 2 && s[1] == '=' {
                seq![TokenV { kind: TokenKind::EQ, literal: "=="@ }] + spec_tokens(s.skip(2))
            } else {
                seq![TokenV { kind: TokenKind::ASSIGN, literal: "="@ }] + spec_tokens(s.skip(1))
            }
        } else if c == '!' {
            if s.len() >= 2 && s[1] == '=' {
                seq![TokenV { kind: TokenKind::NOT_EQ, literal: "!="@ }] + spec_tokens(s.skip(2))
            } else {
                seq![TokenV { kind: TokenKind::BANG, literal: "!"@ }] + spec_tokens(s.skip(1))
            }
        } else if is_digit_char(c) {
            let run = digit_run_len(s);
            proof {
                lemma_digit_run_len_le(s);
            }
            seq![TokenV { kind: TokenKind::INTEGER, literal: s.take(run as int) }]
                + spec_tokens(s.skip(run as int))
        } else if is_word_char(c) {
            let run = word_run_len(s);
            proof {
                lemma_word_run_len_le(s);
            }
            let w = s.take(run as int);
            seq![TokenV { kind: keyword_kind(w), literal: w }] + spec_tokens(s.skip(run as int))
        } else if single_token(c) is Some {
            seq![single_token(c)->Some_0] + spec_tokens(s.skip(1))
        } else {
            seq![TokenV { kind: TokenKind::ILLEGAL, literal: seq![c] }] + spec_tokens(s.skip(1))
        }
    }
}

/// Executable test for a whitespace character.
fn is_space(c: char) -> (r: bool)
    ensures
        r == is_space_char(c),
{
    let u = c as u32;
    u == 0x9 || u == 0xA || u == 0xB || u == 0xC || u == 0xD || u == 0x20 || u == 0x85
        || u == 0xA0 || u == 0x1680 || (0x2000 <= u && u <= 0x200A) || u == 0x2028 || u == 0x2029
        || u == 0x202F || u == 0x205F || u == 0x3000
}

/// Executable test for an ASCII digit.
fn is_digit(c: char) -> (r: bool)
    ensures
        r == is_digit_char(c),
{
    let u = c as u32;
    0x30 <= u && u <= 0x39
}

/// Executable test for a word character (letter, digit, or underscore).
fn is_literal(c: char) -> (r: bool)
    ensures
        r == is_word_char(c),
{
    let u = c as u32;
    (0x61 <= u && u <= 0x7A) || (0x41 <= u && u <= 0x5A) || u == 0x5F || (0x30 <= u && u <= 0x39)
}

/// Character-by-character string equality.
fn str_eq(a: &str, b: &str) -> (r: bool)
    ensures
        r == (a@ == b@),
{
    let na = a.unicode_len();
    let nb = b.unicode_len();
    if na != nb {
        return false;
    }
    let mut k: usize = 0;
    while k < na
        invariant
            k <= na,
            na == a@.len(),
            na == b@.len(),
            forall|m: int| 0 <= m < k ==> a@[m] == b@[m],
        decreases na - k,
    {
        if a.get_char(k) != b.get_char(k) {
            return false;
        }
        k = k + 1;
    }
    proof {
        assert(a@ =~= b@);
    }
    true
}

/// End of the maximal digit run that begins at `start`.
fn consume_integer(input: &str, start: usize) -> (end: usize)
    requires
        start <= input@.len(),
    ensures
        end == start + digit_run_len(input@.skip(start as int)),
        start <= end <= input@.len(),
{
    let n = input.unicode_len();
    let mut j = start;
    while j < n && is_digit(input.get_char(j))
        invariant
            start <= j <= n,
            n == input@.len(),
            digit_run_len(input@.skip(start as int)) == (j - start) + digit_run_len(
                input@.skip(j as int),
            ),
        decreases n - j,
    {
        proof {
            assert(input@.skip(j as int).skip(1) =~= input@.skip(j as int + 1));
        }
        j = j + 1;
    }
    j
}

/// End of the maximal word-character run that begins at `start`.
fn consume_literal(input: &str, start: usize) -> (end: usize)
    requires
        start <= input@.len(),
    ensures
        end == start + word_run_len(input@.skip(start as int)),
        start <= end <= input@.len(),
{
    let n = input.unicode_len();
    let mut j = start;
    while j < n && is_literal(input.get_char(j))
        invariant
            start <= j <= n,
            n == input@.len(),
            word_run_len(input@.skip(start as int)) == (j - start) + word_run_len(
                input@.skip(j as int),
            ),
        decreases n - j,
    {
        proof {
            assert(input@.skip(j as int).skip(1) =~= input@.skip(j as int + 1));
        }
        j = j + 1;
    }
    j
}

/// Classifies a completed word against the keyword table.
fn search_keywords(literal: &str) -> (t: Token)
    ensures
        t@.kind == keyword_kind(literal@),
        t@.literal == literal@,
{
    let owned = String::from_str(literal);
    if str_eq(literal, "fn") {
        Token::new(TokenKind::FUNCTION, owned)
    } else if str_eq(literal, "let") {
        Token::new(TokenKind::LET, owned)
    } else if str_eq(literal, "true") {
        Token::new(TokenKind::TRUE, owned)
    } else if str_eq(literal, "false") {
        Token::new(TokenKind::FALSE, owned)
    } else if str_eq(literal, "if") {
        Token::new(TokenKind::IF, owned)
    } else if str_eq(literal, "else") {
        Token::new(TokenKind::ELSE, owned)
    } else if str_eq(literal, "return") {
        Token::new(TokenKind::RETURN, owned)
    } else {
        Token::new(TokenKind::IDENTIFIER, owned)
    }
}

proof fn lemma_tokens_view_push(ts: Seq<Token>, t: Token)
    ensures
        crate::token::tokens_view(ts.push(t)) =~= crate::token::tokens_view(ts).push(t@),
{
}

/// Scans the whole source text and returns its token stream. Total: unscannable
/// characters become ILLEGAL tokens, and the stream always ends with EOF.
pub fn tokenize(input: &str) -> (tokens: Vec<Token>)
    ensures
        crate::token::tokens_view(tokens@) == spec_tokens(input@),
{
    let n = input.unicode_len();
    let mut tokens: Vec<Token> = Vec::new();
    let mut i: usize = 0;
    proof {
        assert(crate::token::tokens_view(tokens@) =~= Seq::<TokenV>::empty());
        assert(input@.skip(0) =~= input@);
        assert(Seq::<TokenV>::empty() + spec_tokens(input@) =~= spec_tokens(input@));
    }
    while i < n
        invariant
            i <= n,
            n == input@.len(),
            spec_tokens(input@) == crate::token::tokens_view(tokens@) + spec_tokens(
                input@.skip(i as int),
            ),
        decreases n - i,
    {
        let ghost rest = input@.skip(i as int);
        proof {
            assert(rest.len() == n - i);
            assert(rest[0] == input@[i as int]);
        }
        let c = input.get_char(i);
        let ghost toks_before = tokens@;
        let next_i: usize;
        if is_space(c) {
            next_i = i + 1;
            proof {
                assert(rest.skip(1) =~= input@.skip(next_i as int));
            }
        } else if c == '=' {
            if i + 1 < n && input.get_char(i + 1) == '=' {
                tokens.push(Token::new(TokenKind::EQ, String::from_str("==")));
                next_i = i + 2;
                proof {
                    assert(rest[1] == input@[i + 1]);
                    assert(rest.skip(2) =~= input@.skip(next_i as int));
                }
            } else {
                tokens.push(Token::new(TokenKind::ASSIGN, String::from_str("=")));
                next_i = i + 1;
                proof {
                    assert(rest.skip(1) =~= input@.skip(next_i as int));
                    if rest.len() >= 2 {
                        assert(rest[1] == input@[i + 1]);
                    }
                }
            }
        } else if c == '!' {
            if i + 1 < n && input.get_char(i + 1) == '=' {
                tokens.push(Token::new(TokenKind::NOT_EQ, String::from_str("!=")));
                next_i = i + 2;
                proof {
                    assert(rest[1] == input@[i + 1]);
                    assert(rest.skip(2) =~= input@.skip(next_i as int));
                }
            } else {
                tokens.push(Token::new(TokenKind::BANG, String::from_str("!")));
                next_i = i + 1;
                proof {
                    assert(rest.skip(1) =~= input@.skip(next_i as int));
                    if rest.len() >= 2 {
                        assert(rest[1] == input@[i + 1]);
                    }
                }
            }
        } else if is_digit(c) {
            let end = consume_integer(input, i);
            let lit = input.substring_char(i, end);
            tokens.push(Token::new(TokenKind::INTEGER, String::from_str(lit)));
            next_i = end;
            proof {
                assert(rest.take(digit_run_len(rest) as int) =~= input@.subrange(
                    i as int,
                    end as int,
                ));
                assert(rest.skip(digit_run_len(rest) as int) =~= input@.skip(next_i as int));
            }
        } else if is_literal(c) {
            let end = consume_literal(input, i);
            let lit = input.substring_char(i, end);
            tokens.push(search_keywords(lit));
            next_i = end;
            proof {
                assert(rest.take(word_run_len(rest) as int) =~= input@.subrange(
                    i as int,
                    end as int,
                ));
                assert(rest.skip(word_run_len(rest) as int) =~= input@.skip(next_i as int));
            }
        } else {
            let lit = input.substring_char(i, i + 1);
            let kind: TokenKind;
            match c {
                '+' => {
                    kind = TokenKind::PLUS;
                },
                '-' => {
                    kind = TokenKind::MINUS;
                },
                '*' => {
                    kind = TokenKind::ASTERISK;
                },
                '/' => {
                    kind = TokenKind::SLASH;
                },
                '<' => {
                    kind = TokenKind::LT;
                },
                '>' => {
                    kind = TokenKind::GT;
                },
                ',' => {
                    kind = TokenKind::COMMA;
                },
                ';' => {
                    kind = TokenKind::SEMICOLON;
                },
                '(' => {
                    kind = TokenKind::LPAREN;
                },
                ')' => {
                    kind = TokenKind::RPAREN;
                },
                '{' => {
                    kind = TokenKind::LBRACE;
                },
                '}' => {
                    kind = TokenKind::RBRACE;
                },
                _ => {
                    kind = TokenKind::ILLEGAL;
                },
            }
            tokens.push(Token::new(kind, String::from_str(lit)));
            next_i = i + 1;
            proof {
                assert(input@.subrange(i as int, i + 1) =~= seq![c]);
                if single_token(c) is Some {
                    assert(single_token(c)->Some_0.literal =~= seq![c]) by {
                        reveal_strlit("+");
                        reveal_strlit("-");
                        reveal_strlit("*");
                        reveal_strlit("/");
                        reveal_strlit("<");
                        reveal_strlit(">");
                        reveal_strlit(",");
                        reveal_strlit(";");
                        reveal_strlit("(");
                        reveal_strlit(")");
                        reveal_strlit("{");
                        reveal_strlit("}");
                    }
                }
                assert(rest.skip(1) =~= input@.skip(next_i as int));
            }
        }
        proof {
            if tokens@ != toks_before {
                lemma_tokens_view_push(toks_before, tokens@[tokens@.len() - 1]);
            }
            assert(spec_tokens(input@) == crate::token::tokens_view(tokens@) + spec_tokens(
                input@.skip(next_i as int),
            ));
        }
        i = next_i;
    }
    proof {
        assert(input@.skip(i as int) =~= Seq::<char>::empty());
    }
    let ghost toks_before = tokens@;
    tokens.push(Token::new(TokenKind::EOF, String::new()));
    proof {
        lemma_tokens_view_push(toks_before, tokens@[tokens@.len() - 1]);
        assert(crate::token::tokens_view(tokens@) =~= spec_tokens(input@));
    }
    tokens
}

} // verus!
