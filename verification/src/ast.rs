//! The abstract syntax tree: statement and expression nodes, their
//! mathematical models, and the canonical fully-parenthesized rendering.

use vstd::prelude::*;

use crate::token::{Token, TokenV};

verus! {

/// A name standing for a value.
#[derive(Debug)]
pub struct Identifier {
    pub token: Token,
    pub value: String,
}

/// An integer literal; its text must fit a signed 64-bit integer.
#[derive(Debug)]
pub struct IntegerLiteral {
    pub token: Token,
    pub value: i64,
}

/// A boolean literal. The node shape exists, but no grammar rule currently
/// constructs it.
#[derive(Debug)]
pub struct Boolean {
    pub token: Token,
    pub value: bool,
}

/// A unary operator applied to an operand, `!x` or `-x`.
#[derive(Debug)]
pub struct PrefixExpression {
    pub token: Token,
    pub operator: String,
    pub right: Box<Expression>,
}

/// A binary operator between two operands.
#[derive(Debug)]
pub struct InfixExpression {
    pub token: Token,
    pub left: Box<Expression>,
    pub operator: String,
    pub right: Box<Expression>,
}

/// An expression node.
#[derive(Debug)]
pub enum Expression {
    Identifier(Identifier),
    IntegerLiteral(IntegerLiteral),
    Boolean(Boolean),
    Prefix(PrefixExpression),
    Infix(InfixExpression),
}

/// A `let` binding: `let <name> = <value>;`. The name is a syntactic
/// identifier by construction.
#[derive(Debug)]
pub struct LetStatement {
    pub token: Token,
    pub name: Identifier,
    pub value: Expression,
}

/// A `return` statement: `return <value>;`.
#[derive(Debug)]
pub struct ReturnStatement {
    pub token: Token,
    pub return_value: Expression,
}

/// A bare expression in statement position.
#[derive(Debug)]
pub struct ExpressionStatement {
    pub token: Token,
    pub expression: Expression,
}

/// A statement node.
#[derive(Debug)]
pub enum Statement {
    Let(LetStatement),
    Return(ReturnStatement),
    Expression(ExpressionStatement),
}

/// An ordered sequence of statements; the empty program is valid.
#[derive(Debug)]
pub struct Program {
    pub statements: Vec<Statement>,
}

/// Model of an identifier node.
pub ghost struct IdentifierV {
    pub token: TokenV,
    pub value: Seq<char>,
}

/// Model of an integer-literal node.
pub ghost struct IntegerLiteralV {
    pub token: TokenV,
    pub value: i64,
}

/// Model of a boolean-literal node.
pub ghost struct BooleanV {
    pub token: TokenV,
    pub value: bool,
}

/// Model of a prefix node.
pub ghost struct PrefixExpressionV {
    pub token: TokenV,
    pub operator: Seq<char>,
    pub right: Box<ExprV>,
}

/// Model of an infix node.
pub ghost struct InfixExpressionV {
    pub token: TokenV,
    pub left: Box<ExprV>,
    pub operator: Seq<char>,
    pub right: Box<ExprV>,
}

/// Model of an expression tree.
pub ghost enum ExprV {
    Identifier(IdentifierV),
    IntegerLiteral(IntegerLiteralV),
    Boolean(BooleanV),
    Prefix(PrefixExpressionV),
    Infix(InfixExpressionV),
}

/// Model of a `let` statement.
pub ghost struct LetStatementV {
    pub token: TokenV,
    pub name: IdentifierV,
    pub value: ExprV,
}

/// Model of a `return` statement.
pub ghost struct ReturnStatementV {
    pub token: TokenV,
    pub return_value: ExprV,
}

/// Model of an expression statement.
pub ghost struct ExpressionStatementV {
    pub token: TokenV,
    pub expression: ExprV,
}

/// Model of a statement.
pub ghost enum StmtV {
    Let(LetStatementV),
    Return(ReturnStatementV),
    Expression(ExpressionStatementV),
}

/// Model of an expression node, structurally.
pub open spec fn expr_view(e: Expression) -> ExprV
    decreases e,
{
    match e {
        Expression::Identifier(id) => ExprV::Identifier(
            IdentifierV { token: id.token@, value: id.value@ },
        ),
        Expression::IntegerLiteral(il) => ExprV::IntegerLiteral(
            IntegerLiteralV { token: il.token@, value: il.value },
        ),
        Expression::Boolean(b) => ExprV::Boolean(BooleanV { token: b.token@, value: b.value }),
        Expression::Prefix(p) => ExprV::Prefix(
            PrefixExpressionV {
                token: p.token@,
                operator: p.operator@,
                right: Box::new(expr_view(*p.right)),
            },
        ),
        Expression::Infix(ix) => ExprV::Infix(
            InfixExpressionV {
                token: ix.token@,
                left: Box::new(expr_view(*ix.left)),
                operator: ix.operator@,
                right: Box::new(expr_view(*ix.right)),
            },
        ),
    }
}

impl View for Identifier {
    type V = IdentifierV;

    open spec fn view(&self) -> IdentifierV {
        IdentifierV { token: self.token@, value: self.value@ }
    }
}

impl View for IntegerLiteral {
    type V = IntegerLiteralV;

    open spec fn view(&self) -> IntegerLiteralV {
        IntegerLiteralV { token: self.token@, value: self.value }
    }
}

impl View for Boolean {
    type V = BooleanV;

    open spec fn view(&self) -> BooleanV {
        BooleanV { token: self.token@, value: self.value }
    }
}

impl View for PrefixExpression {
    type V = PrefixExpressionV;

    open spec fn view(&self) -> PrefixExpressionV {
        PrefixExpressionV {
            token: self.token@,
            operator: self.operator@,
            right: Box::new(expr_view(*self.right)),
        }
    }
}

impl View for InfixExpression {
    type V = InfixExpressionV;

    open spec fn view(&self) -> InfixExpressionV {
        InfixExpressionV {
            token: self.token@,
            left: Box::new(expr_view(*self.left)),
            operator: self.operator@,
            right: Box::new(expr_view(*self.right)),
        }
    }
}

impl View for Expression {
    type V = ExprV;

    open spec fn view(&self) -> ExprV {
        expr_view(*self)
    }
}

impl View for LetStatement {
    type V = LetStatementV;

    open spec fn view(&self) -> LetStatementV {
        LetStatementV { token: self.token@, name: self.name@, value: self.value@ }
    }
}

impl View for ReturnStatement {
    type V = ReturnStatementV;

    open spec fn view(&self) -> ReturnStatementV {
        ReturnStatementV { token: self.token@, return_value: self.return_value@ }
    }
}

impl View for ExpressionStatement {
    type V = ExpressionStatementV;

    open spec fn view(&self) -> ExpressionStatementV {
        ExpressionStatementV { token: self.token@, expression: self.expression@ }
    }
}

impl View for Statement {
    type V = StmtV;

    open spec fn view(&self) -> StmtV {
        match *self {
            Statement::Let(ref ls) => StmtV::Let(ls@),
            Statement::Return(ref rs) => StmtV::Return(rs@),
            Statement::Expression(ref es) => StmtV::Expression(es@),
        }
    }
}

impl View for Program {
    type V = Seq<StmtV>;

    open spec fn view(&self) -> Seq<StmtV> {
        self.statements@.map_values(|s: Statement| s@)
    }
}

/// Canonical rendering of an expression: literals and identifiers render as
/// their own text, prefix nodes as `(<op><operand>)` with no padding, infix
/// nodes as `(<left> <op> <right>)` with single-space padding.
pub open spec fn expr_string(e: ExprV) -> Seq<char>
    decreases e,
{
    match e {
        ExprV::Identifier(id) => id.value,
        ExprV::IntegerLiteral(il) => il.token.literal,
        ExprV::Boolean(b) => b.token.literal,
        ExprV::Prefix(p) => "("@ + p.operator + expr_string(*p.right) + ")"@,
        ExprV::Infix(ix) => "("@ + expr_string(*ix.left) + " "@ + ix.operator + " "@ + expr_string(
            *ix.right,
        ) + ")"@,
    }
}

/// The literal text of the token that anchors a statement.
pub open spec fn stmt_token_literal(s: StmtV) -> Seq<char> {
    match s {
        StmtV::Let(ls) => ls.token.literal,
        StmtV::Return(rs) => rs.token.literal,
        StmtV::Expression(es) => es.token.literal,
    }
}

/// Canonical rendering of a statement.
pub open spec fn stmt_string(s: StmtV) -> Seq<char> {
    match s {
        StmtV::Let(ls) => ls.token.literal + " "@ + ls.name.value + " = "@ + expr_string(ls.value)
            + ";"@,
        StmtV::Return(rs) => rs.token.literal + " "@ + expr_string(rs.return_value) + ";"@,
        StmtV::Expression(es) => expr_string(es.expression),
    }
}

/// Canonical rendering of a program: its statements' renderings, concatenated.
pub open spec fn program_string(ss: Seq<StmtV>) -> Seq<char>
    decreases ss.len(),
{
    if ss.len() == 0 {
        Seq::empty()
    } else {
        stmt_string(ss[0]) + program_string(ss.skip(1))
    }
}

impl Identifier {
    pub fn token_literal(&self) -> (r: String)
        ensures
            r@ == self@.token.literal,
    {
        self.token.literal.clone()
    }

    pub fn string(&self) -> (r: String)
        ensures
            r@ == expr_string(ExprV::Identifier(self@)),
    {
        self.value.clone()
    }
}

impl IntegerLiteral {
    pub fn token_literal(&self) -> (r: String)
        ensures
            r@ == self@.token.literal,
    {
        self.token.literal.clone()
    }

    pub fn string(&self) -> (r: String)
        ensures
            r@ == expr_string(ExprV::IntegerLiteral(self@)),
    {
        self.token.literal.clone()
    }
}

impl Boolean {
    pub fn token_literal(&self) -> (r: String)
        ensures
            r@ == self@.token.literal,
    {
        self.token.literal.clone()
    }

    pub fn string(&self) -> (r: String)
        ensures
            r@ == expr_string(ExprV::Boolean(self@)),
    {
        self.token.literal.clone()
    }
}

impl PrefixExpression {
    pub fn token_literal(&self) -> (r: String)
        ensures
            r@ == self@.token.literal,
    {
        self.token.literal.clone()
    }

    pub fn string(&self) -> (r: String)
        ensures
            r@ == expr_string(ExprV::Prefix(self@)),
        decreases *self,
    {
        let right = self.right.string();
        let mut out = String::from_str("(");
        out.append(self.operator.as_str());
        out.append(right.as_str());
        out.append(")");
        proof {
            assert(out@ =~= expr_string(ExprV::Prefix(self@)));
        }
        out
    }
}

impl InfixExpression {
    pub fn token_literal(&self) -> (r: String)
        ensures
            r@ == self@.token.literal,
    {
        self.token.literal.clone()
    }

    pub fn string(&self) -> (r: String)
        ensures
            r@ == expr_string(ExprV::Infix(self@)),
        decreases *self,
    {
        let left = self.left.string();
        let right = self.right.string();
        let mut out = String::from_str("(");
        out.append(left.as_str());
        out.append(" ");
        out.append(self.operator.as_str());
        out.append(" ");
        out.append(right.as_str());
        out.append(")");
        proof {
            assert(out@ =~= expr_string(ExprV::Infix(self@)));
        }
        out
    }
}

impl Expression {
    /// The literal text of the token that anchors this node.
    pub fn token_literal(&self) -> (r: String)
        ensures
            r@ == expr_token_literal(self@),
    {
        match self {
            Expression::Identifier(id) => id.token_literal(),
            Expression::IntegerLiteral(il) => il.token_literal(),
            Expression::Boolean(b) => b.token_literal(),
            Expression::Prefix(p) => p.token_literal(),
            Expression::Infix(ix) => ix.token_literal(),
        }
    }

    /// Canonical rendering of this expression.
    pub fn string(&self) -> (r: String)
        ensures
            r@ == expr_string(self@),
        decreases *self,
    {
        match self {
            Expression::Identifier(id) => id.string(),
            Expression::IntegerLiteral(il) => il.string(),
            Expression::Boolean(b) => b.string(),
            Expression::Prefix(p) => p.string(),
            Expression::Infix(ix) => ix.string(),
        }
    }
}

/// The literal text of the token that anchors an expression.
pub open spec fn expr_token_literal(e: ExprV) -> Seq<char> {
    match e {
        ExprV::Identifier(id) => id.token.literal,
        ExprV::IntegerLiteral(il) => il.token.literal,
        ExprV::Boolean(b) => b.token.literal,
        ExprV::Prefix(p) => p.token.literal,
        ExprV::Infix(ix) => ix.token.literal,
    }
}

impl LetStatement {
    pub fn token_literal(&self) -> (r: String)
        ensures
            r@ == self@.token.literal,
    {
        self.token.literal.clone()
    }

    pub fn string(&self) -> (r: String)
        ensures
            r@ == stmt_string(StmtV::Let(self@)),
    {
        let value = self.value.string();
        let mut out = self.token.literal.clone();
        out.append(" ");
        out.append(self.name.value.as_str());
        out.append(" = ");
        out.append(value.as_str());
        out.append(";");
        proof {
            assert(out@ =~= stmt_string(StmtV::Let(self@)));
        }
        out
    }
}

impl ReturnStatement {
    pub fn token_literal(&self) -> (r: String)
        ensures
            r@ == self@.token.literal,
    {
        self.token.literal.clone()
    }

    pub fn string(&self) -> (r: String)
        ensures
            r@ == stmt_string(StmtV::Return(self@)),
    {
        let value = self.return_value.string();
        let mut out = self.token.literal.clone();
        out.append(" ");
        out.append(value.as_str());
        out.append(";");
        proof {
            assert(out@ =~= stmt_string(StmtV::Return(self@)));
        }
        out
    }
}

impl ExpressionStatement {
    pub fn token_literal(&self) -> (r: String)
        ensures
            r@ == self@.token.literal,
    {
        self.token.literal.clone()
    }

    pub fn string(&self) -> (r: String)
        ensures
            r@ == stmt_string(StmtV::Expression(self@)),
    {
        self.expression.string()
    }
}

impl Statement {
    /// The literal text of the token that anchors this statement.
    pub fn token_literal(&self) -> (r: String)
        ensures
            r@ == stmt_token_literal(self@),
    {
        match self {
            Statement::Let(ls) => ls.token_literal(),
            Statement::Return(rs) => rs.token_literal(),
            Statement::Expression(es) => es.token_literal(),
        }
    }

    /// Canonical rendering of this statement.
    pub fn string(&self) -> (r: String)
        ensures
            r@ == stmt_string(self@),
    {
        match self {
            Statement::Let(ls) => ls.string(),
            Statement::Return(rs) => rs.string(),
            Statement::Expression(es) => es.string(),
        }
    }
}

impl Program {
    /// The literal text of the first statement's anchoring token, or the empty
    /// string for an empty program.
    pub fn token_literal(&self) -> (r: String)
        ensures
            self@.len() > 0 ==> r@ == stmt_token_literal(self@[0]),
            self@.len() == 0 ==> r@ == Seq::<char>::empty(),
    {
        if self.statements.len() > 0 {
            self.statements[0].token_literal()
        } else {
            String::new()
        }
    }

    /// Canonical rendering of the whole program.
    pub fn string(&self) -> (r: String)
        ensures
            r@ == program_string(self@),
    {
        let mut out = String::new();
        let mut i: usize = 0;
        proof {
            assert(self@.skip(0) =~= self@);
            assert(out@ + program_string(self@) =~= program_string(self@));
        }
        while i < self.statements.len()
            invariant
                i <= self.statements.len(),
                self@.len() == self.statements.len(),
                program_string(self@) == out@ + program_string(self@.skip(i as int)),
            decreases self.statements.len() - i,
        {
            let s = self.statements[i].string();
            out.append(s.as_str());
            proof {
                assert(self@.skip(i as int)[0] == self@[i as int]);
                assert(self@.skip(i as int).skip(1) =~= self@.skip(i as int + 1));
            }
            i = i + 1;
        }
        proof {
            assert(self@.skip(self@.len() as int) =~= Seq::<StmtV>::empty());
        }
        out
    }
}

} // verus!
