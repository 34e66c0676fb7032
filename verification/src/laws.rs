//! Laws that relate the tokenizer, the parser, and the rendering: proved once,
//! for every input they speak of.

use vstd::prelude::*;

use crate::ast::{program_string, stmt_string, ExpressionStatementV, ExprV, StmtV};
use crate::lexer::{
    digit_run_len, is_digit_char, is_space_char, is_word_char, keyword_kind, spec_tokens,
    word_run_len,
};
use crate::parser::{
    all_digits, digits_value, peek_or_sentinel, spec_parse_expression, spec_parse_i64,
    spec_parse_program, spec_parse_statement, spec_sync, ParseErrorV,
};
use crate::token::{TokenKind, TokenV};

verus! {

/// The token stream of any source text is nonempty and ends with the
/// end-of-input sentinel.
pub proof fn lemma_token_stream_ends_with_eof(s: Seq<char>)
    ensures
        spec_tokens(s).len() >= 1,
        spec_tokens(s).last() == (TokenV { kind: TokenKind::EOF, literal: Seq::<char>::empty() }),
    decreases s.len(),
{
    if s.len() == 0 {
    } else {
        let c = s[0];
        if is_space_char(c) {
            lemma_token_stream_ends_with_eof(s.skip(1));
        } else if c == '=' || c == '!' {
            if s.len() >= 2 && s[1] == '=' {
                lemma_token_stream_ends_with_eof(s.skip(2));
            } else {
                lemma_token_stream_ends_with_eof(s.skip(1));
            }
        } else if is_digit_char(c) {
            crate::lexer::lemma_digit_run_len_le(s);
            lemma_token_stream_ends_with_eof(s.skip(digit_run_len(s) as int));
        } else if is_word_char(c) {
            crate::lexer::lemma_word_run_len_le(s);
            lemma_token_stream_ends_with_eof(s.skip(word_run_len(s) as int));
        } else {
            lemma_token_stream_ends_with_eof(s.skip(1));
        }
    }
}

/// Recovery never moves the cursor backwards and never leaves the buffer.
pub proof fn lemma_sync_bounds(toks: Seq<TokenV>, i: int)
    requires
        1 <= i <= toks.len(),
    ensures
        i <= spec_sync(toks, i) <= toks.len(),
    decreases toks.len() - i,
{
    if toks[i - 1].kind == TokenKind::SEMICOLON {
    } else if i >= toks.len() {
    } else if toks[i].kind == TokenKind::EOF {
    } else {
        lemma_sync_bounds(toks, i + 1);
    }
}

/// A `let` statement whose identifier is missing yields no statement node,
/// exactly one UnexpectedToken error naming the token found in the
/// identifier's place, and the statements of the rest of the program are
/// parsed as if parsing had resumed at the next statement boundary.
pub proof fn lemma_let_without_identifier_recovers(toks: Seq<TokenV>, i: int)
    requires
        0 <= i < toks.len(),
        toks[i].kind == TokenKind::LET,
        !(i + 1 < toks.len() && toks[i + 1].kind == TokenKind::IDENTIFIER),
    ensures
        spec_parse_statement(toks, i).0 is None,
        spec_parse_statement(toks, i).2 == seq![
            ParseErrorV::UnexpectedToken(peek_or_sentinel(toks, i + 1)),
        ],
        spec_parse_program(toks, i).0 == spec_parse_program(toks, spec_sync(toks, i + 1)).0,
{
    lemma_sync_bounds(toks, i + 1);
}

/// An expression node that parsing a source text can produce as an identifier:
/// a nonempty run of word characters that does not start with a digit and is
/// not a keyword.
pub open spec fn is_source_identifier(id: Seq<char>) -> bool {
    &&& id.len() >= 1
    &&& forall|k: int| 0 <= k < id.len() ==> is_word_char(#[trigger] id[k])
    &&& !is_digit_char(id[0])
    &&& keyword_kind(id) == TokenKind::IDENTIFIER
}

/// A leaf expression as parsing produces it: an identifier node whose text is
/// a source identifier, or an integer-literal node whose text is a digit run
/// that fits a signed 64-bit integer.
pub open spec fn is_source_leaf(e: ExprV) -> bool {
    match e {
        ExprV::Identifier(id) => is_source_identifier(id.value),
        ExprV::IntegerLiteral(il) => {
            &&& il.token.literal.len() >= 1
            &&& all_digits(il.token.literal)
            &&& digits_value(il.token.literal) <= i64::MAX
        },
        _ => false,
    }
}

proof fn lemma_word_run_full(s: Seq<char>)
    requires
        forall|k: int| 0 <= k < s.len() ==> is_word_char(#[trigger] s[k]),
    ensures
        word_run_len(s) == s.len(),
    decreases s.len(),
{
    if s.len() > 0 {
        assert forall|k: int| 0 <= k < s.skip(1).len() implies is_word_char(
            #[trigger] s.skip(1)[k],
        ) by {
            assert(s.skip(1)[k] == s[k + 1]);
        }
        lemma_word_run_full(s.skip(1));
    }
}

proof fn lemma_digit_run_full(s: Seq<char>)
    requires
        all_digits(s),
    ensures
        digit_run_len(s) == s.len(),
    decreases s.len(),
{
    if s.len() > 0 {
        assert forall|k: int| 0 <= k < s.skip(1).len() implies is_digit_char(
            #[trigger] s.skip(1)[k],
        ) by {
            assert(s.skip(1)[k] == s[k + 1]);
        }
        lemma_digit_run_full(s.skip(1));
    }
}

/// Rendering a leaf expression that parsing produced, tokenizing that text
/// again, and parsing it again gives a one-statement program whose rendering
/// is the same text: rendering is a fixed point for leaves. (For composite
/// expressions the rendering is fully parenthesized, and the grammar has no
/// grouping rule that could read the parentheses back.)
pub proof fn lemma_leaf_render_round_trip(e: ExprV)
    requires
        is_source_leaf(e),
    ensures
        ({
            let src = crate::ast::expr_string(e);
            let toks = spec_tokens(src);
            let (stmts, j, errs) = spec_parse_program(toks, 0);
            &&& stmts.len() == 1
            &&& errs == Seq::<ParseErrorV>::empty()
            &&& program_string(stmts) == src
        }),
{
    let eof = TokenV { kind: TokenKind::EOF, literal: Seq::<char>::empty() };
    assert(spec_tokens(Seq::<char>::empty()) =~= seq![eof]);
    match e {
        ExprV::Identifier(id) => {
            let w = id.value;
            lemma_word_run_full(w);
            assert(w.take(w.len() as int) =~= w);
            assert(w.skip(w.len() as int) =~= Seq::<char>::empty());
            let tok = TokenV { kind: TokenKind::IDENTIFIER, literal: w };
            assert(!is_space_char(w[0]) && !is_digit_char(w[0]) && w[0] != '=' && w[0] != '!');
            assert(spec_tokens(w) =~= seq![tok, eof]);
            lemma_leaf_program(tok);
        },
        ExprV::IntegerLiteral(il) => {
            let w = il.token.literal;
            lemma_digit_run_full(w);
            assert(w.take(w.len() as int) =~= w);
            assert(w.skip(w.len() as int) =~= Seq::<char>::empty());
            let tok = TokenV { kind: TokenKind::INTEGER, literal: w };
            assert(is_digit_char(w[0]));
            assert(!is_space_char(w[0]) && w[0] != '=' && w[0] != '!');
            assert(spec_tokens(w) =~= seq![tok, eof]);
            lemma_leaf_program(tok);
        },
        _ => {},
    }
}

/// Parsing a two-token stream of one leaf token and the sentinel gives one
/// expression statement whose rendering is the token's text.
proof fn lemma_leaf_program(tok: TokenV)
    requires
        tok.kind == TokenKind::IDENTIFIER || (tok.kind == TokenKind::INTEGER && spec_parse_i64(
            tok.literal,
        ) is Some),
    ensures
        ({
            let toks = seq![
                tok,
                TokenV { kind: TokenKind::EOF, literal: Seq::<char>::empty() },
            ];
            let (stmts, j, errs) = spec_parse_program(toks, 0);
            &&& stmts.len() == 1
            &&& errs == Seq::<ParseErrorV>::empty()
            &&& program_string(stmts) == tok.literal
        }),
{
    let eof = TokenV { kind: TokenKind::EOF, literal: Seq::<char>::empty() };
    let toks = seq![tok, eof];
    assert(toks.len() == 2 && toks[0] == tok && toks[1] == eof);
    assert(!crate::parser::infix_step(toks, 1, crate::token::Precedence::Lowest));
    let leaf = if tok.kind == TokenKind::IDENTIFIER {
        ExprV::Identifier(crate::ast::IdentifierV { token: tok, value: tok.literal })
    } else {
        ExprV::IntegerLiteral(
            crate::ast::IntegerLiteralV {
                token: tok,
                value: spec_parse_i64(tok.literal)->Some_0,
            },
        )
    };
    assert(crate::parser::spec_infix_loop(toks, 1, leaf, crate::token::Precedence::Lowest) == (
        Some(leaf),
        1int,
        Seq::<ParseErrorV>::empty(),
    ));
    let (v, j, errs) = spec_parse_expression(toks, 1, crate::token::Precedence::Lowest);
    assert(v == Some(leaf) && j == 1 && errs =~= Seq::<ParseErrorV>::empty());
    let st = StmtV::Expression(ExpressionStatementV { token: tok, expression: v->Some_0 });
    assert(spec_parse_statement(toks, 0) == (Some(st), 1int, errs));
    assert(spec_parse_program(toks, 1) == (
        Seq::<StmtV>::empty(),
        1int,
        Seq::<ParseErrorV>::empty(),
    ));
    let (stmts, k, errs2) = spec_parse_program(toks, 0);
    assert(stmts =~= seq![st]);
    assert(errs2 =~= Seq::<ParseErrorV>::empty());
    assert(crate::ast::expr_string(v->Some_0) == tok.literal);
    assert(program_string(stmts) =~= stmt_string(st) + program_string(stmts.skip(1)));
    assert(stmts.skip(1) =~= Seq::<StmtV>::empty());
    assert(program_string(stmts) =~= tok.literal);
}

} // verus!
