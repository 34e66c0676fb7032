//! The precedence-climbing parser: a one-token-lookahead cursor over the token
//! stream, statement dispatch, and the prefix/infix expression engine, with
//! statement-level error recovery.

use vstd::prelude::*;

use crate::ast::{
    ExpressionStatementV, ExprV, IdentifierV, InfixExpressionV, IntegerLiteralV, LetStatementV,
    PrefixExpressionV, ReturnStatementV, StmtV,
};
use crate::ast::{
    Expression, ExpressionStatement, Identifier, InfixExpression, IntegerLiteral, LetStatement,
    PrefixExpression, Program, ReturnStatement, Statement,
};
use crate::token::{kind_precedence, precedence_rank, tokens_view};
use crate::token::{Precedence, Token, TokenKind, TokenV};

verus! {

/// A syntactic error, carrying the offending token.
#[derive(Debug)]
pub enum ParseError {
    /// A required token was missing; the token found in its place.
    UnexpectedToken(Token),
    /// An integer literal whose text does not fit a signed 64-bit integer.
    IntegerConversion(Token),
}

/// Model of a syntactic error.
pub ghost enum ParseErrorV {
    UnexpectedToken(TokenV),
    IntegerConversion(TokenV),
}

impl View for ParseError {
    type V = ParseErrorV;

    open spec fn view(&self) -> ParseErrorV {
        match *self {
            ParseError::UnexpectedToken(ref t) => ParseErrorV::UnexpectedToken(t@),
            ParseError::IntegerConversion(ref t) => ParseErrorV::IntegerConversion(t@),
        }
    }
}

/// The model of a list of collected errors.
pub open spec fn errors_view(errors: Seq<ParseError>) -> Seq<ParseErrorV> {
    errors.map_values(|e: ParseError| e@)
}

/// The display form of a parse error.
pub open spec fn error_text(e: ParseErrorV) -> Seq<char> {
    match e {
        ParseErrorV::UnexpectedToken(t) => "Unexpected token: "@ + crate::token::token_text(t),
        ParseErrorV::IntegerConversion(t) => "Integer literal out of range: "@
            + crate::token::token_text(t),
    }
}

impl ParseError {
    /// The display form of this error.
    pub fn message(&self) -> (r: String)
        ensures
            r@ == error_text(self@),
    {
        match self {
            ParseError::UnexpectedToken(token) => {
                let mut out = String::from_str("Unexpected token: ");
                let t = token.text();
                out.append(t.as_str());
                out
            },
            ParseError::IntegerConversion(token) => {
                let mut out = String::from_str("Integer literal out of range: ");
                let t = token.text();
                out.append(t.as_str());
                out
            },
        }
    }
}

/// The token reported when a lookahead was needed but the stream was already
/// exhausted: the end-of-input sentinel.
pub open spec fn peek_or_sentinel(toks: Seq<TokenV>, i: int) -> TokenV {
    if 0 <= i < toks.len() {
        toks[i]
    } else {
        TokenV { kind: TokenKind::EOF, literal: Seq::empty() }
    }
}

proof fn lemma_errors_view_push(errors: Seq<ParseError>, e: ParseError)
    ensures
        errors_view(errors.push(e)) =~= errors_view(errors).push(e@),
{
}

/// The token kinds that act as binary operators.
pub open spec fn is_infix_kind(k: TokenKind) -> bool {
    ||| k == TokenKind::PLUS
    ||| k == TokenKind::MINUS
    ||| k == TokenKind::SLASH
    ||| k == TokenKind::ASTERISK
    ||| k == TokenKind::EQ
    ||| k == TokenKind::NOT_EQ
    ||| k == TokenKind::LT
    ||| k == TokenKind::GT
}

/// The climbing loop consumes one more operator exactly when the lookahead is
/// not a statement terminator and binds strictly tighter than the threshold.
pub open spec fn infix_step(toks: Seq<TokenV>, i: int, prec: Precedence) -> bool {
    &&& 0 <= i < toks.len()
    &&& toks[i].kind != TokenKind::SEMICOLON
    &&& precedence_rank(prec) < precedence_rank(kind_precedence(toks[i].kind))
    &&& is_infix_kind(toks[i].kind)
}

/// The value of a sequence of decimal digits, most significant first.
pub open spec fn digits_value(s: Seq<char>) -> int
    decreases s.len(),
{
    if s.len() == 0 {
        0
    } else {
        digits_value(s.drop_last()) * 10 + (s.last() as u32 - 0x30)
    }
}

pub open spec fn all_digits(s: Seq<char>) -> bool {
    forall|k: int| 0 <= k < s.len() ==> crate::lexer::is_digit_char(#[trigger] s[k])
}

/// How an integer literal's text converts: a nonempty run of decimal digits
/// whose value fits a signed 64-bit integer, or nothing.
pub open spec fn spec_parse_i64(s: Seq<char>) -> Option<i64> {
    if s.len() > 0 && all_digits(s) && digits_value(s) <= i64::MAX {
        Some(digits_value(s) as i64)
    } else {
        None
    }
}

proof fn lemma_digits_value_nonneg(s: Seq<char>)
    requires
        all_digits(s),
    ensures
        digits_value(s) >= 0,
    decreases s.len(),
{
    if s.len() > 0 {
        assert forall|k: int| 0 <= k < s.drop_last().len() implies crate::lexer::is_digit_char(
            #[trigger] s.drop_last()[k],
        ) by {
            assert(s.drop_last()[k] == s[k]);
        }
        lemma_digits_value_nonneg(s.drop_last());
    }
}

proof fn lemma_digits_value_prefix_le(s: Seq<char>, k: int)
    requires
        all_digits(s),
        0 <= k <= s.len(),
    ensures
        digits_value(s.take(k)) <= digits_value(s),
    decreases s.len() - k,
{
    assert forall|j: int, m: int| 0 <= m <= s.len() && 0 <= j < m implies crate::lexer::is_digit_char(
        #[trigger] s.take(m)[j],
    ) by {
        assert(s.take(m)[j] == s[j]);
    }
    if k < s.len() {
        lemma_digits_value_prefix_le(s, k + 1);
        assert(s.take(k + 1).drop_last() =~= s.take(k));
        lemma_digits_value_nonneg(s.take(k));
        assert(digits_value(s.take(k + 1)) == digits_value(s.take(k)) * 10 + (s[k] as u32 - 0x30));
    } else {
        assert(s.take(k) =~= s);
    }
}

/// Converts a string of decimal digits to a signed 64-bit integer; fails on an
/// empty string, a non-digit character, or overflow.
fn parse_i64_digits(s: &str) -> (r: Option<i64>)
    ensures
        r == spec_parse_i64(s@),
{
    let n = s.unicode_len();
    if n == 0 {
        return None;
    }
    let mut acc: i64 = 0;
    let mut k: usize = 0;
    proof {
        assert(s@.take(0) =~= Seq::<char>::empty());
    }
    while k < n
        invariant
            k <= n,
            n == s@.len(),
            all_digits(s@.take(k as int)),
            0 <= acc,
            acc == digits_value(s@.take(k as int)),
        decreases n - k,
    {
        let c = s.get_char(k);
        if !(0x30 <= c as u32 && c as u32 <= 0x39) {
            proof {
                assert(!crate::lexer::is_digit_char(s@[k as int]));
            }
            return None;
        }
        let d = (c as u32 - 0x30) as i64;
        if acc > 922_337_203_685_477_580i64 || (acc == 922_337_203_685_477_580i64 && d > 7) {
            proof {
                if all_digits(s@) {
                    lemma_digits_value_prefix_le(s@, k as int + 1);
                    assert(s@.take(k as int + 1).drop_last() =~= s@.take(k as int));
                    assert(digits_value(s@.take(k as int + 1)) == acc * 10 + d);
                }
            }
            return None;
        }
        proof {
            assert(s@.take(k as int + 1).drop_last() =~= s@.take(k as int));
            assert forall|j: int| 0 <= j < k + 1 implies crate::lexer::is_digit_char(
                #[trigger] s@.take(k as int + 1)[j],
            ) by {
                assert(s@.take(k as int + 1)[j] == s@[j]);
                if j < k {
                    assert(s@.take(k as int)[j] == s@[j]);
                }
            }
        }
        acc = acc * 10 + d;
        k = k + 1;
    }
    proof {
        assert(s@.take(n as int) =~= s@);
    }
    Some(acc)
}

/// One infix extension: the cursor stands on the operator; parse the right
/// operand at the operator's own precedence and combine.
pub open spec fn spec_parse_infix(toks: Seq<TokenV>, i: int, left: ExprV) -> (Option<ExprV>, int, Seq<ParseErrorV>)
    decreases toks.len() - i, 0int,
{
    if i < 1 || i > toks.len() {
        (None, i, Seq::empty())
    } else {
        let op = toks[i - 1];
        if i < toks.len() {
            let (right, j, errs) = spec_parse_expression(toks, i + 1, kind_precedence(op.kind));
            match right {
                Some(r) => (
                    Some(
                        ExprV::Infix(
                            InfixExpressionV {
                                token: op,
                                left: Box::new(left),
                                operator: op.literal,
                                right: Box::new(r),
                            },
                        ),
                    ),
                    j,
                    errs,
                ),
                None => (None, j, errs),
            }
        } else {
            (None, i, seq![ParseErrorV::UnexpectedToken(op)])
        }
    }
}

/// The precedence-climbing loop: while the lookahead binds tighter than the
/// threshold, fold it into the left result.
pub open spec fn spec_infix_loop(
    toks: Seq<TokenV>,
    i: int,
    left: ExprV,
    prec: Precedence,
) -> (Option<ExprV>, int, Seq<ParseErrorV>)
    decreases toks.len() - i, 1int,
{
    if infix_step(toks, i, prec) {
        let (res, j, errs) = spec_parse_infix(toks, i + 1, left);
        match res {
            Some(newleft) => {
                if i < j <= toks.len() {
                    let (r2, k, errs2) = spec_infix_loop(toks, j, newleft, prec);
                    (r2, k, errs + errs2)
                } else {
                    (None, j, errs)  // never reached: one extension always advances
                }
            },
            None => (None, j, errs),
        }
    } else {
        (Some(left), i, Seq::empty())
    }
}

/// Length of the run of statement terminators beginning at `i`; an expression
/// statement consumes the whole run after its expression.
pub open spec fn semi_run(toks: Seq<TokenV>, i: int) -> nat
    decreases toks.len() - i,
{
    if 0 <= i && i < toks.len() && toks[i].kind == TokenKind::SEMICOLON {
        1 + semi_run(toks, i + 1)
    } else {
        0
    }
}

/// Where the parser resumes after a malformed statement: it skips forward
/// until it has consumed a statement terminator, or stands before the
/// end-of-input sentinel, or has exhausted the buffer.
pub open spec fn spec_sync(toks: Seq<TokenV>, i: int) -> int
    decreases toks.len() - i,
{
    if i < 1 || i > toks.len() {
        i
    } else if toks[i - 1].kind == TokenKind::SEMICOLON {
        i
    } else if i >= toks.len() {
        i
    } else if toks[i].kind == TokenKind::EOF {
        i
    } else {
        spec_sync(toks, i + 1)
    }
}

/// A `let` statement: `let` IDENTIFIER `=` expression `;`. The lookahead
/// stands on the `let` keyword at `i`. A missing identifier, `=`, expression,
/// or terminator yields no statement and an error.
pub open spec fn spec_parse_let(toks: Seq<TokenV>, i: int) -> (Option<StmtV>, int, Seq<ParseErrorV>) {
    let let_tok = toks[i];
    if i + 1 < toks.len() && toks[i + 1].kind == TokenKind::IDENTIFIER {
        let name = IdentifierV { token: toks[i + 1], value: toks[i + 1].literal };
        if i + 2 < toks.len() && toks[i + 2].kind == TokenKind::ASSIGN {
            if i + 3 < toks.len() {
                let (v, j, errs) = spec_parse_expression(toks, i + 4, Precedence::Lowest);
                match v {
                    Some(value) => {
                        if j < toks.len() && toks[j].kind == TokenKind::SEMICOLON {
                            (
                                Some(StmtV::Let(LetStatementV { token: let_tok, name, value })),
                                j + 1,
                                errs,
                            )
                        } else {
                            (
                                None,
                                j,
                                errs + seq![
                                    ParseErrorV::UnexpectedToken(peek_or_sentinel(toks, j)),
                                ],
                            )
                        }
                    },
                    None => (None, j, errs),
                }
            } else {
                (
                    None,
                    i + 3,
                    seq![ParseErrorV::UnexpectedToken(peek_or_sentinel(toks, i + 3))],
                )
            }
        } else {
            (None, i + 2, seq![ParseErrorV::UnexpectedToken(peek_or_sentinel(toks, i + 2))])
        }
    } else {
        (None, i + 1, seq![ParseErrorV::UnexpectedToken(peek_or_sentinel(toks, i + 1))])
    }
}

/// A `return` statement: `return` expression `;`. The lookahead stands on the
/// `return` keyword at `i`.
pub open spec fn spec_parse_return(toks: Seq<TokenV>, i: int) -> (
    Option<StmtV>,
    int,
    Seq<ParseErrorV>,
) {
    let ret_tok = toks[i];
    if i + 1 < toks.len() {
        let (v, j, errs) = spec_parse_expression(toks, i + 2, Precedence::Lowest);
        match v {
            Some(value) => {
                if j < toks.len() && toks[j].kind == TokenKind::SEMICOLON {
                    (
                        Some(StmtV::Return(ReturnStatementV { token: ret_tok, return_value: value })),
                        j + 1,
                        errs,
                    )
                } else {
                    (None, j, errs + seq![ParseErrorV::UnexpectedToken(peek_or_sentinel(toks, j))])
                }
            },
            None => (None, j, errs),
        }
    } else {
        (None, i + 1, seq![ParseErrorV::UnexpectedToken(peek_or_sentinel(toks, i + 1))])
    }
}

/// A bare expression in statement position, with an optional run of trailing
/// terminators. The lookahead stands on the expression's first token at `i`.
pub open spec fn spec_parse_expression_statement(toks: Seq<TokenV>, i: int) -> (
    Option<StmtV>,
    int,
    Seq<ParseErrorV>,
) {
    let first = toks[i];
    let (v, j, errs) = spec_parse_expression(toks, i + 1, Precedence::Lowest);
    let k = j + semi_run(toks, j);
    match v {
        Some(e) => (
            Some(StmtV::Expression(ExpressionStatementV { token: first, expression: e })),
            k,
            errs,
        ),
        None => (None, k, errs),
    }
}

/// One statement, dispatched on the lookahead token at `i`.
pub open spec fn spec_parse_statement(toks: Seq<TokenV>, i: int) -> (
    Option<StmtV>,
    int,
    Seq<ParseErrorV>,
) {
    if toks[i].kind == TokenKind::LET {
        spec_parse_let(toks, i)
    } else if toks[i].kind == TokenKind::RETURN {
        spec_parse_return(toks, i)
    } else {
        spec_parse_expression_statement(toks, i)
    }
}

/// The whole program from lookahead position `i`: statements until the
/// end-of-input sentinel, a malformed statement yielding no node and a skip to
/// the next statement boundary instead.
pub open spec fn spec_parse_program(toks: Seq<TokenV>, i: int) -> (
    Seq<StmtV>,
    int,
    Seq<ParseErrorV>,
)
    decreases toks.len() - i,
{
    if !(0 <= i <= toks.len()) {
        (Seq::empty(), i, Seq::empty())
    } else if i >= toks.len() || toks[i].kind == TokenKind::EOF {
        (Seq::empty(), i, Seq::empty())
    } else {
        let (st, j, errs) = spec_parse_statement(toks, i);
        if !(i < j <= toks.len()) {
            (Seq::empty(), j, errs)  // never reached: a statement attempt always advances
        } else {
            match st {
                Some(s) => {
                    let (rest, k, errs2) = spec_parse_program(toks, j);
                    (seq![s] + rest, k, errs + errs2)
                },
                None => {
                    let j2 = spec_sync(toks, j);
                    if !(i < j2 <= toks.len()) {
                        (Seq::empty(), j2, errs)  // never reached: recovery never goes back
                    } else {
                        let (rest, k, errs2) = spec_parse_program(toks, j2);
                        (rest, k, errs + errs2)
                    }
                },
            }
        }
    }
}

/// One expression at the given precedence threshold: the cursor stands on the
/// expression's first token. A token without a prefix rule yields no
/// expression and an UnexpectedToken error; an integer literal that does not
/// fit 64 bits yields a conversion error.
pub open spec fn spec_parse_expression(
    toks: Seq<TokenV>,
    i: int,
    prec: Precedence,
) -> (Option<ExprV>, int, Seq<ParseErrorV>)
    decreases toks.len() - i, 2int,
{
    if i < 1 || i > toks.len() {
        (None, i, Seq::empty())
    } else {
        let cur = toks[i - 1];
        if cur.kind == TokenKind::IDENTIFIER {
            spec_infix_loop(
                toks,
                i,
                ExprV::Identifier(IdentifierV { token: cur, value: cur.literal }),
                prec,
            )
        } else if cur.kind == TokenKind::INTEGER {
            match spec_parse_i64(cur.literal) {
                Some(v) => spec_infix_loop(
                    toks,
                    i,
                    ExprV::IntegerLiteral(IntegerLiteralV { token: cur, value: v }),
                    prec,
                ),
                None => (None, i, seq![ParseErrorV::IntegerConversion(cur)]),
            }
        } else if cur.kind == TokenKind::BANG || cur.kind == TokenKind::MINUS {
            if i < toks.len() {
                let (right, j, errs) = spec_parse_expression(toks, i + 1, Precedence::Prefix);
                match right {
                    Some(r) => {
                        let pe = ExprV::Prefix(
                            PrefixExpressionV {
                                token: cur,
                                operator: cur.literal,
                                right: Box::new(r),
                            },
                        );
                        if i <= j <= toks.len() {
                            let (r2, k, errs2) = spec_infix_loop(toks, j, pe, prec);
                            (r2, k, errs + errs2)
                        } else {
                            (None, j, errs)  // never reached: positions only advance
                        }
                    },
                    None => (None, j, errs),
                }
            } else {
                (None, i, seq![ParseErrorV::UnexpectedToken(cur)])
            }
        } else {
            (None, i, seq![ParseErrorV::UnexpectedToken(cur)])
        }
    }
}

/// The parser state: a cursor over a fixed token buffer. `pos` is the index of
/// the lookahead token; `current_token` is the last consumed token, and the
/// end-of-input sentinel before anything was consumed.
#[derive(Debug)]
pub struct Parser {
    pub tokens: Vec<Token>,
    pub pos: usize,
    pub current_token: Token,
    pub errors: Vec<ParseError>,
}

impl Parser {
    /// The cursor is coherent: the position is within the buffer, and the
    /// current token is the one the cursor last passed.
    pub open spec fn wf(&self) -> bool {
        &&& self.pos <= self.tokens@.len()
        &&& self.pos >= 1 ==> self.current_token@ == self.tokens@[self.pos - 1]@
    }

    /// The model of the token buffer.
    pub open spec fn toks(&self) -> Seq<TokenV> {
        tokens_view(self.tokens@)
    }

    /// The model of the collected errors.
    pub open spec fn errs(&self) -> Seq<ParseErrorV> {
        errors_view(self.errors@)
    }

    pub fn new(tokens: Vec<Token>) -> (parser: Self)
        ensures
            parser.wf(),
            parser.tokens == tokens,
            parser.pos == 0,
            parser.errs() =~= Seq::<ParseErrorV>::empty(),
    {
        let parser = Parser {
            tokens,
            pos: 0,
            current_token: Token::new(TokenKind::EOF, String::new()),
            errors: Vec::new(),
        };
        proof {
            assert(parser.errs() =~= Seq::<ParseErrorV>::empty());
        }
        parser
    }

    /// Advances the cursor and returns the new current token, or `None` when
    /// the buffer is exhausted.
    fn next(&mut self) -> (res: Option<Token>)
        requires
            old(self).wf(),
        ensures
            final(self).wf(),
            final(self).tokens == old(self).tokens,
            final(self).errors == old(self).errors,
            old(self).pos < old(self).tokens@.len() ==> {
                &&& final(self).pos == old(self).pos + 1
                &&& final(self).current_token@ == old(self).toks()[old(self).pos as int]
                &&& res matches Some(t) && t@ == old(self).toks()[old(self).pos as int]
            },
            old(self).pos >= old(self).tokens@.len() ==> {
                &&& *final(self) == *old(self)
                &&& res is None
            },
    {
        if self.pos < self.tokens.len() {
            self.current_token = self.tokens[self.pos].clone();
            self.pos = self.pos + 1;
            Some(self.current_token.clone())
        } else {
            None
        }
    }

    /// The lookahead token, if any.
    fn peek(&self) -> (res: Option<&Token>)
        ensures
            self.pos < self.tokens@.len() ==> (res matches Some(t) && t@ == self.toks()[self.pos as int]),
            self.pos >= self.tokens@.len() ==> res is None,
    {
        if self.pos < self.tokens.len() {
            Some(&self.tokens[self.pos])
        } else {
            None
        }
    }

    /// Whether the lookahead token exists and has the given kind.
    fn peek_token_is(&self, kind: TokenKind) -> (r: bool)
        ensures
            r == (self.pos < self.tokens@.len() && self.toks()[self.pos as int].kind == kind),
    {
        match self.peek() {
            Some(token) => token.kind == kind,
            None => false,
        }
    }

    /// Whether the current token has the given kind.
    fn current_token_is(&self, kind: TokenKind) -> (r: bool)
        ensures
            r == (self.current_token@.kind == kind),
    {
        self.current_token.kind == kind
    }

    /// Advances only when the lookahead has the expected kind; otherwise
    /// records an UnexpectedToken error and leaves the cursor in place.
    fn expect_peek(&mut self, kind: TokenKind) -> (r: bool)
        requires
            old(self).wf(),
        ensures
            final(self).wf(),
            final(self).tokens == old(self).tokens,
            r == (old(self).pos < old(self).tokens@.len() && old(self).toks()[old(self).pos as int].kind == kind),
            r ==> {
                &&& final(self).pos == old(self).pos + 1
                &&& final(self).current_token@ == old(self).toks()[old(self).pos as int]
                &&& final(self).errors == old(self).errors
            },
            !r ==> {
                &&& final(self).pos == old(self).pos
                &&& final(self).current_token == old(self).current_token
                &&& final(self).errs() =~= old(self).errs().push(
                    ParseErrorV::UnexpectedToken(
                        peek_or_sentinel(old(self).toks(), old(self).pos as int),
                    ),
                )
            },
    {
        if self.peek_token_is(kind) {
            self.next();
            true
        } else {
            let ghost errs0 = self.errors@;
            let offending = match self.peek() {
                Some(token) => token.clone(),
                None => Token::new(TokenKind::EOF, String::new()),
            };
            self.errors.push(ParseError::UnexpectedToken(offending));
            proof {
                lemma_errors_view_push(errs0, self.errors@[self.errors@.len() - 1]);
            }
            false
        }
    }

    /// Precedence of the lookahead token; Lowest when the stream is exhausted.
    fn peek_precedence(&self) -> (p: Precedence)
        ensures
            self.pos < self.tokens@.len() ==> p == kind_precedence(
                self.toks()[self.pos as int].kind,
            ),
            self.pos >= self.tokens@.len() ==> p == Precedence::Lowest,
    {
        match self.peek() {
            Some(token) => token.precedence(),
            None => Precedence::Lowest,
        }
    }

    /// Precedence of the current token.
    fn current_precedence(&self) -> (p: Precedence)
        ensures
            p == kind_precedence(self.current_token@.kind),
    {
        self.current_token.precedence()
    }

    /// An identifier node for the current token.
    fn parse_identifier(&self) -> (res: Option<Expression>)
        ensures
            res matches Some(e) && e@ == ExprV::Identifier(
                IdentifierV {
                    token: self.current_token@,
                    value: self.current_token@.literal,
                },
            ),
    {
        Some(
            Expression::Identifier(
                Identifier {
                    token: self.current_token.clone(),
                    value: self.current_token.literal.clone(),
                },
            ),
        )
    }

    /// An integer-literal node for the current token; records a conversion
    /// error when the literal does not fit a signed 64-bit integer.
    fn parse_integer_literal(&mut self) -> (res: Option<Expression>)
        requires
            old(self).wf(),
        ensures
            final(self).wf(),
            final(self).tokens == old(self).tokens,
            final(self).pos == old(self).pos,
            final(self).current_token == old(self).current_token,
            match spec_parse_i64(old(self).current_token@.literal) {
                Some(v) => {
                    &&& (res matches Some(e) && e@ == ExprV::IntegerLiteral(
                        IntegerLiteralV { token: old(self).current_token@, value: v },
                    ))
                    &&& final(self).errors == old(self).errors
                },
                None => {
                    &&& res is None
                    &&& final(self).errs() =~= old(self).errs().push(
                        ParseErrorV::IntegerConversion(old(self).current_token@),
                    )
                },
            },
    {
        match parse_i64_digits(self.current_token.literal.as_str()) {
            Some(v) => Some(
                Expression::IntegerLiteral(
                    IntegerLiteral { token: self.current_token.clone(), value: v },
                ),
            ),
            None => {
                let ghost errs0 = self.errors@;
                self.errors.push(ParseError::IntegerConversion(self.current_token.clone()));
                proof {
                    lemma_errors_view_push(errs0, self.errors@[self.errors@.len() - 1]);
                }
                None
            },
        }
    }

    /// A prefix node: the cursor stands on the operator; advance past it and
    /// parse the operand at Prefix precedence.
    fn parse_prefix_expression(&mut self) -> (res: Option<Expression>)
        requires
            old(self).wf(),
            1 <= old(self).pos,
        ensures
            final(self).wf(),
            final(self).tokens == old(self).tokens,
            old(self).pos <= final(self).pos <= old(self).tokens@.len(),
            ({
                let i = old(self).pos as int;
                let toks = old(self).toks();
                let cur = toks[i - 1];
                if i < toks.len() {
                    let (right, j, errs) = spec_parse_expression(toks, i + 1, Precedence::Prefix);
                    &&& final(self).pos == j
                    &&& match right {
                        Some(r) => res matches Some(e) && e@ == ExprV::Prefix(
                            PrefixExpressionV {
                                token: cur,
                                operator: cur.literal,
                                right: Box::new(r),
                            },
                        ),
                        None => res is None,
                    }
                    &&& final(self).errs() == old(self).errs() + errs
                } else {
                    &&& res is None
                    &&& final(self).pos == old(self).pos
                    &&& final(self).errs() == old(self).errs() + seq![
                        ParseErrorV::UnexpectedToken(cur),
                    ]
                }
            }),
        decreases old(self).tokens@.len() - old(self).pos, 1int,
    {
        let ghost errs0 = self.errs();
        let prefix_token = self.current_token.clone();
        match self.next() {
            Some(_) => {
                match self.parse_expression(Precedence::Prefix) {
                    Some(r) => {
                        let e = Expression::Prefix(
                            PrefixExpression {
                                token: prefix_token.clone(),
                                operator: prefix_token.literal,
                                right: Box::new(r),
                            },
                        );
                        Some(e)
                    },
                    None => None,
                }
            },
            None => {
                self.errors.push(ParseError::UnexpectedToken(prefix_token));
                proof {
                    lemma_errors_view_push(old(self).errors@, self.errors@[self.errors@.len() - 1]);
                    assert(self.errs() =~= errs0 + seq![
                        ParseErrorV::UnexpectedToken(old(self).toks()[old(self).pos - 1]),
                    ]);
                }
                None
            },
        }
    }

    /// An infix node: the cursor stands on the operator; advance past it and
    /// parse the right operand at the operator's own precedence.
    fn parse_infix_expression(&mut self, left: Expression) -> (res: Option<Expression>)
        requires
            old(self).wf(),
            1 <= old(self).pos,
        ensures
            final(self).wf(),
            final(self).tokens == old(self).tokens,
            old(self).pos <= final(self).pos <= old(self).tokens@.len(),
            ({
                let (r, j, errs) = spec_parse_infix(old(self).toks(), old(self).pos as int, left@);
                &&& final(self).pos == j
                &&& match r {
                    Some(e) => res matches Some(x) && x@ == e,
                    None => res is None,
                }
                &&& final(self).errs() == old(self).errs() + errs
            }),
        decreases old(self).tokens@.len() - old(self).pos, 1int,
    {
        let ghost errs0 = self.errs();
        let infix_token = self.current_token.clone();
        let precedence = self.current_precedence();
        match self.next() {
            Some(_) => {
                match self.parse_expression(precedence) {
                    Some(r) => {
                        let e = Expression::Infix(
                            InfixExpression {
                                token: infix_token.clone(),
                                left: Box::new(left),
                                operator: infix_token.literal,
                                right: Box::new(r),
                            },
                        );
                        Some(e)
                    },
                    None => None,
                }
            },
            None => {
                self.errors.push(ParseError::UnexpectedToken(infix_token));
                proof {
                    lemma_errors_view_push(old(self).errors@, self.errors@[self.errors@.len() - 1]);
                    assert(self.errs() =~= errs0 + seq![
                        ParseErrorV::UnexpectedToken(old(self).toks()[old(self).pos - 1]),
                    ]);
                }
                None
            },
        }
    }

    /// Whether the climbing loop takes one more step at the given threshold.
    fn infix_loop_continues(&self, precedence: Precedence) -> (r: bool)
        ensures
            r == infix_step(self.toks(), self.pos as int, precedence),
    {
        let r = !self.peek_token_is(TokenKind::SEMICOLON) && precedence.rank()
            < self.peek_precedence().rank();
        proof {
            if self.pos < self.tokens@.len() {
                let k = self.toks()[self.pos as int].kind;
                assert(precedence_rank(kind_precedence(k)) > precedence_rank(Precedence::Lowest)
                    ==> is_infix_kind(k));
            }
        }
        r
    }

    /// One expression at the given precedence threshold; the cursor stands on
    /// its first token. Returns `None`, with an error recorded, when no
    /// expression starts here.
    fn parse_expression(&mut self, precedence: Precedence) -> (res: Option<Expression>)
        requires
            old(self).wf(),
            1 <= old(self).pos,
        ensures
            final(self).wf(),
            final(self).tokens == old(self).tokens,
            old(self).pos <= final(self).pos <= old(self).tokens@.len(),
            ({
                let (r, j, errs) = spec_parse_expression(
                    old(self).toks(),
                    old(self).pos as int,
                    precedence,
                );
                &&& final(self).pos == j
                &&& match r {
                    Some(e) => res matches Some(x) && x@ == e,
                    None => res is None,
                }
                &&& final(self).errs() == old(self).errs() + errs
            }),
        decreases old(self).tokens@.len() - old(self).pos, 2int,
    {
        let ghost toksv = self.toks();
        let ghost i0 = self.pos as int;
        let ghost errs0 = self.errs();
        let ghost tokens0 = self.tokens;
        let left_opt: Option<Expression> = match self.current_token.kind {
            TokenKind::IDENTIFIER => self.parse_identifier(),
            TokenKind::INTEGER => self.parse_integer_literal(),
            TokenKind::BANG => self.parse_prefix_expression(),
            TokenKind::MINUS => self.parse_prefix_expression(),
            _ => {
                let ghost e0 = self.errors@;
                self.errors.push(ParseError::UnexpectedToken(self.current_token.clone()));
                proof {
                    lemma_errors_view_push(e0, self.errors@[self.errors@.len() - 1]);
                    assert(self.errs() =~= errs0 + seq![
                        ParseErrorV::UnexpectedToken(toksv[i0 - 1]),
                    ]);
                }
                None
            },
        };
        let mut left = match left_opt {
            Some(l) => l,
            None => {
                proof {
                    if old(self).current_token@.kind == TokenKind::INTEGER {
                        assert(self.errs() =~= errs0 + seq![
                            ParseErrorV::IntegerConversion(toksv[i0 - 1]),
                        ]);
                    }
                }
                return None;
            },
        };
        proof {
            if old(self).current_token@.kind == TokenKind::IDENTIFIER
                || old(self).current_token@.kind == TokenKind::INTEGER {
                assert(errs0 + Seq::<ParseErrorV>::empty() =~= errs0);
                assert(self.errs() + Seq::<ParseErrorV>::empty() =~= self.errs());
            }
        }
        let ghost target = spec_parse_expression(toksv, i0, precedence);
        let ghost entry_loop = spec_infix_loop(toksv, self.pos as int, left@, precedence);
        proof {
            // in every prefix case that reached here, the remaining work is the
            // climbing loop, and the errors so far plus its errors are the total
            assert(target.0 == spec_infix_loop(toksv, self.pos as int, left@, precedence).0);
            assert(target.1 == spec_infix_loop(toksv, self.pos as int, left@, precedence).1);
            assert(errs0 + target.2 =~= self.errs() + spec_infix_loop(
                toksv,
                self.pos as int,
                left@,
                precedence,
            ).2);
        }
        #[verifier::loop_isolation(false)]
        while self.infix_loop_continues(precedence)
            invariant
                self.wf(),
                1 <= self.pos <= self.tokens@.len(),
                self.tokens == tokens0,
                toksv == tokens_view(tokens0@),
                i0 <= self.pos,
                target == spec_parse_expression(toksv, i0, precedence),
                target.0 == spec_infix_loop(toksv, self.pos as int, left@, precedence).0,
                target.1 == spec_infix_loop(toksv, self.pos as int, left@, precedence).1,
                errs0 + target.2 =~= self.errs() + spec_infix_loop(
                    toksv,
                    self.pos as int,
                    left@,
                    precedence,
                ).2,
            decreases self.tokens@.len() - self.pos,
        {
            let ghost p = self.pos as int;
            let ghost left_pre = left@;
            let ghost errs_pre = self.errs();
            self.next();
            let step = self.parse_infix_expression(left);
            proof {
                let (ri, ji, ei) = spec_parse_infix(toksv, p + 1, left_pre);
                assert(spec_infix_loop(toksv, p, left_pre, precedence) == (
                    match ri {
                        Some(newleft) => {
                            if p < ji <= toksv.len() {
                                let (r2, k, errs2) = spec_infix_loop(toksv, ji, newleft, precedence);
                                (r2, k, ei + errs2)
                            } else {
                                (None::<ExprV>, ji, ei)
                            }
                        },
                        None => (None::<ExprV>, ji, ei),
                    }
                ));
            }
            left = match step {
                Some(nl) => nl,
                None => {
                    proof {
                        let (ri, ji, ei) = spec_parse_infix(toksv, p + 1, left_pre);
                        assert(errs_pre + ei =~= self.errs());
                        assert(errs0 + target.2 =~= self.errs());
                    }
                    return None;
                },
            };
            proof {
                let (ri, ji, ei) = spec_parse_infix(toksv, p + 1, left_pre);
                let (r2, k2, e2) = spec_infix_loop(toksv, ji, left@, precedence);
                assert(errs_pre + ei =~= self.errs());
                assert((errs_pre + ei) + e2 =~= self.errs() + e2);
                assert(errs_pre + (ei + e2) =~= (errs_pre + ei) + e2);
            }
        }
        proof {
            assert(spec_infix_loop(toksv, self.pos as int, left@, precedence) == (
                Some(left@),
                self.pos as int,
                Seq::<ParseErrorV>::empty(),
            ));
            assert(errs0 + target.2 =~= self.errs());
        }
        Some(left)
    }

    /// A `let` statement; the lookahead stands on the `let` keyword.
    fn parse_let_statement(&mut self) -> (res: Option<Statement>)
        requires
            old(self).wf(),
            old(self).pos < old(self).tokens@.len(),
        ensures
            final(self).wf(),
            final(self).tokens@ == old(self).tokens@,
            old(self).pos < final(self).pos <= final(self).tokens@.len(),
            ({
                let (st, j, errs) = spec_parse_let(old(self).toks(), old(self).pos as int);
                &&& final(self).pos == j
                &&& match st {
                    Some(s) => res matches Some(x) && x@ == s,
                    None => res is None,
                }
                &&& final(self).errs() == old(self).errs() + errs
            }),
    {
        let ghost toksv = self.toks();
        let ghost i0 = self.pos as int;
        let ghost errs0 = self.errs();
        let let_token = match self.next() {
            Some(t) => t,
            None => {
                return None;
            },
        };
        if !self.expect_peek(TokenKind::IDENTIFIER) {
            proof {
                assert(self.errs() =~= errs0 + seq![
                    ParseErrorV::UnexpectedToken(peek_or_sentinel(toksv, i0 + 1)),
                ]);
            }
            return None;
        }
        let name = Identifier {
            token: self.current_token.clone(),
            value: self.current_token.literal.clone(),
        };
        if !self.expect_peek(TokenKind::ASSIGN) {
            proof {
                assert(self.errs() =~= errs0 + seq![
                    ParseErrorV::UnexpectedToken(peek_or_sentinel(toksv, i0 + 2)),
                ]);
            }
            return None;
        }
        match self.next() {
            Some(_) => {},
            None => {
                let ghost e0 = self.errors@;
                self.errors.push(
                    ParseError::UnexpectedToken(Token::new(TokenKind::EOF, String::new())),
                );
                proof {
                    lemma_errors_view_push(e0, self.errors@[self.errors@.len() - 1]);
                    assert(self.errs() =~= errs0 + seq![
                        ParseErrorV::UnexpectedToken(peek_or_sentinel(toksv, i0 + 3)),
                    ]);
                }
                return None;
            },
        }
        let value = match self.parse_expression(Precedence::Lowest) {
            Some(v) => v,
            None => {
                return None;
            },
        };
        let ghost j = self.pos as int;
        if !self.expect_peek(TokenKind::SEMICOLON) {
            proof {
                let (v0, j0, errs_e) = spec_parse_expression(toksv, i0 + 4, Precedence::Lowest);
                assert(self.errs() =~= (errs0 + errs_e) + seq![
                    ParseErrorV::UnexpectedToken(peek_or_sentinel(toksv, j)),
                ]);
                assert((errs0 + errs_e) + seq![
                    ParseErrorV::UnexpectedToken(peek_or_sentinel(toksv, j)),
                ] =~= errs0 + (errs_e + seq![
                    ParseErrorV::UnexpectedToken(peek_or_sentinel(toksv, j)),
                ]));
            }
            return None;
        }
        Some(Statement::Let(LetStatement { token: let_token, name, value }))
    }

    /// A `return` statement; the lookahead stands on the `return` keyword.
    fn parse_return_statement(&mut self) -> (res: Option<Statement>)
        requires
            old(self).wf(),
            old(self).pos < old(self).tokens@.len(),
        ensures
            final(self).wf(),
            final(self).tokens@ == old(self).tokens@,
            old(self).pos < final(self).pos <= final(self).tokens@.len(),
            ({
                let (st, j, errs) = spec_parse_return(old(self).toks(), old(self).pos as int);
                &&& final(self).pos == j
                &&& match st {
                    Some(s) => res matches Some(x) && x@ == s,
                    None => res is None,
                }
                &&& final(self).errs() == old(self).errs() + errs
            }),
    {
        let ghost toksv = self.toks();
        let ghost i0 = self.pos as int;
        let ghost errs0 = self.errs();
        let return_token = match self.next() {
            Some(t) => t,
            None => {
                return None;
            },
        };
        match self.next() {
            Some(_) => {},
            None => {
                let ghost e0 = self.errors@;
                self.errors.push(
                    ParseError::UnexpectedToken(Token::new(TokenKind::EOF, String::new())),
                );
                proof {
                    lemma_errors_view_push(e0, self.errors@[self.errors@.len() - 1]);
                    assert(self.errs() =~= errs0 + seq![
                        ParseErrorV::UnexpectedToken(peek_or_sentinel(toksv, i0 + 1)),
                    ]);
                }
                return None;
            },
        }
        let return_value = match self.parse_expression(Precedence::Lowest) {
            Some(v) => v,
            None => {
                return None;
            },
        };
        let ghost j = self.pos as int;
        if !self.expect_peek(TokenKind::SEMICOLON) {
            proof {
                let (v0, j0, errs_e) = spec_parse_expression(toksv, i0 + 2, Precedence::Lowest);
                assert(self.errs() =~= (errs0 + errs_e) + seq![
                    ParseErrorV::UnexpectedToken(peek_or_sentinel(toksv, j)),
                ]);
                assert((errs0 + errs_e) + seq![
                    ParseErrorV::UnexpectedToken(peek_or_sentinel(toksv, j)),
                ] =~= errs0 + (errs_e + seq![
                    ParseErrorV::UnexpectedToken(peek_or_sentinel(toksv, j)),
                ]));
            }
            return None;
        }
        Some(Statement::Return(ReturnStatement { token: return_token, return_value }))
    }

    /// A bare expression in statement position, with an optional run of
    /// trailing terminators.
    fn parse_expression_statement(&mut self) -> (res: Option<Statement>)
        requires
            old(self).wf(),
            old(self).pos < old(self).tokens@.len(),
        ensures
            final(self).wf(),
            final(self).tokens@ == old(self).tokens@,
            old(self).pos < final(self).pos <= final(self).tokens@.len(),
            ({
                let (st, j, errs) = spec_parse_expression_statement(
                    old(self).toks(),
                    old(self).pos as int,
                );
                &&& final(self).pos == j
                &&& match st {
                    Some(s) => res matches Some(x) && x@ == s,
                    None => res is None,
                }
                &&& final(self).errs() == old(self).errs() + errs
            }),
    {
        let ghost toksv = self.toks();
        let ghost i0 = self.pos as int;
        let exp_token = match self.next() {
            Some(t) => t,
            None => {
                return None;
            },
        };
        let expression = self.parse_expression(Precedence::Lowest);
        let ghost j = self.pos as int;
        let ghost errs1 = self.errs();
        #[verifier::loop_isolation(false)]
        while self.peek_token_is(TokenKind::SEMICOLON)
            invariant
                self.wf(),
                j <= self.pos <= self.tokens@.len(),
                self.tokens@ == old(self).tokens@,
                self.errs() == errs1,
                j + semi_run(toksv, j) == self.pos + semi_run(toksv, self.pos as int),
            decreases self.tokens@.len() - self.pos,
        {
            self.next();
        }
        match expression {
            Some(e) => Some(
                Statement::Expression(ExpressionStatement { token: exp_token, expression: e }),
            ),
            None => None,
        }
    }

    /// One statement, dispatched on the lookahead token.
    fn parse_statement(&mut self) -> (res: Option<Statement>)
        requires
            old(self).wf(),
            old(self).pos < old(self).tokens@.len(),
        ensures
            final(self).wf(),
            final(self).tokens@ == old(self).tokens@,
            old(self).pos < final(self).pos <= final(self).tokens@.len(),
            ({
                let (st, j, errs) = spec_parse_statement(old(self).toks(), old(self).pos as int);
                &&& final(self).pos == j
                &&& match st {
                    Some(s) => res matches Some(x) && x@ == s,
                    None => res is None,
                }
                &&& final(self).errs() == old(self).errs() + errs
            }),
    {
        let kind = match self.peek() {
            Some(token) => token.kind,
            None => {
                return None;
            },
        };
        match kind {
            TokenKind::LET => self.parse_let_statement(),
            TokenKind::RETURN => self.parse_return_statement(),
            _ => self.parse_expression_statement(),
        }
    }

    /// After a malformed statement: skip forward to the next statement
    /// boundary, so that later statements can still be parsed.
    fn synchronize(&mut self)
        requires
            old(self).wf(),
            1 <= old(self).pos,
        ensures
            final(self).wf(),
            final(self).tokens@ == old(self).tokens@,
            final(self).errors == old(self).errors,
            old(self).pos <= final(self).pos <= final(self).tokens@.len(),
            final(self).pos == spec_sync(old(self).toks(), old(self).pos as int),
    {
        let ghost toksv = self.toks();
        let ghost i0 = self.pos as int;
        #[verifier::loop_isolation(false)]
        while !self.current_token_is(TokenKind::SEMICOLON) && self.pos < self.tokens.len()
            && !self.peek_token_is(TokenKind::EOF)
            invariant
                self.wf(),
                1 <= self.pos <= self.tokens@.len(),
                i0 <= self.pos,
                self.tokens@ == old(self).tokens@,
                self.errors == old(self).errors,
                spec_sync(toksv, self.pos as int) == spec_sync(toksv, i0),
            decreases self.tokens@.len() - self.pos,
        {
            self.next();
        }
    }

    /// The whole program: statements until the end-of-input sentinel; a
    /// malformed statement yields no node, and parsing resumes at the next
    /// statement boundary.
    fn parse_program(&mut self) -> (program: Program)
        requires
            old(self).wf(),
        ensures
            final(self).wf(),
            final(self).tokens@ == old(self).tokens@,
            ({
                let (stmts, j, errs) = spec_parse_program(old(self).toks(), old(self).pos as int);
                &&& program@ == stmts
                &&& final(self).pos == j
                &&& final(self).errs() == old(self).errs() + errs
            }),
    {
        let ghost toksv = self.toks();
        let ghost i0 = self.pos as int;
        let ghost errs0 = self.errs();
        let mut program = Program { statements: Vec::new() };
        proof {
            assert(program@ =~= Seq::<StmtV>::empty());
            let t = spec_parse_program(toksv, i0);
            assert(t.0 =~= program@ + t.0);
            assert(errs0 + t.2 =~= self.errs() + t.2);
        }
        #[verifier::loop_isolation(false)]
        while self.has_statements()
            invariant
                self.wf(),
                i0 <= self.pos <= self.tokens@.len(),
                self.tokens@ == old(self).tokens@,
                ({
                    let t = spec_parse_program(toksv, i0);
                    let c = spec_parse_program(toksv, self.pos as int);
                    &&& t.0 == program@ + c.0
                    &&& t.1 == c.1
                    &&& errs0 + t.2 == self.errs() + c.2
                }),
            decreases self.tokens@.len() - self.pos,
        {
            let ghost p = self.pos as int;
            let ghost errs_pre = self.errs();
            let ghost prog_pre = program@;
            let ghost (st_s, j_s, errs_s) = spec_parse_statement(toksv, p);
            match self.parse_statement() {
                Some(statement) => {
                    let ghost s0 = program.statements@;
                    program.statements.push(statement);
                    proof {
                        assert(program@ =~= prog_pre.push(statement@));
                        let c2 = spec_parse_program(toksv, self.pos as int);
                        assert(prog_pre + (seq![statement@] + c2.0) =~= (prog_pre.push(statement@))
                            + c2.0);
                        assert(errs_pre + (errs_s + c2.2) =~= (errs_pre + errs_s) + c2.2);
                        assert(self.errs() =~= errs_pre + errs_s);
                    }
                },
                None => {
                    self.synchronize();
                    proof {
                        let c2 = spec_parse_program(toksv, self.pos as int);
                        assert(errs_pre + (errs_s + c2.2) =~= (errs_pre + errs_s) + c2.2);
                        assert(self.errs() =~= errs_pre + errs_s);
                        assert(prog_pre + c2.0 =~= program@ + c2.0);
                    }
                },
            }
        }
        proof {
            let t = spec_parse_program(toksv, i0);
            assert(spec_parse_program(toksv, self.pos as int) == (
                Seq::<StmtV>::empty(),
                self.pos as int,
                Seq::<ParseErrorV>::empty(),
            ));
            assert(program@ + Seq::<StmtV>::empty() =~= program@);
            assert(self.errs() + Seq::<ParseErrorV>::empty() =~= self.errs());
        }
        program
    }

    /// Whether a token other than the end-of-input sentinel remains.
    fn has_statements(&self) -> (r: bool)
        ensures
            r == (self.pos < self.tokens@.len() && self.toks()[self.pos as int].kind
                != TokenKind::EOF),
    {
        match self.peek() {
            Some(token) => token.kind != TokenKind::EOF,
            None => false,
        }
    }

    /// Parses the whole token stream into a Program, collecting an ordered
    /// list of errors for the statements that were malformed.
    pub fn parse(&mut self) -> (program: Program)
        requires
            old(self).wf(),
        ensures
            final(self).wf(),
            final(self).tokens@ == old(self).tokens@,
            ({
                let (stmts, j, errs) = spec_parse_program(old(self).toks(), old(self).pos as int);
                &&& program@ == stmts
                &&& final(self).pos == j
                &&& final(self).errs() == old(self).errs() + errs
            }),
    {
        self.parse_program()
    }
}

} // verus!
