//! The parser: tokens to statements, by recursive descent.
//!
//! ```text
//! program     := declaration* EOF
//! declaration := ("let" | "const" | "mut") IDENTIFIER "=" expression terminator
//!              | statement
//! statement   := "print" expression terminator
//!              | "{" declaration* "}"
//!              | expression terminator
//! expression  := assignment
//! assignment  := IDENTIFIER "=" assignment | equality
//! equality    := comparison (("!=" | "==") comparison)*
//! comparison  := term ((">" | ">=" | "<" | "<=") term)*
//! term        := factor (("+" | "-") factor)*
//! factor      := unary (("*" | "/") unary)*
//! unary       := ("!" | "-") unary | primary
//! primary     := NUMBER | STRING | "true" | "false" | IDENTIFIER | "(" expression ")"
//! terminator  := ";" | NEWLINE | EOF
//! ```
//!
//! `let` and `const` declare an immutable variable, `mut` a mutable one.
//! The last token of a list counts as the end of input whatever its kind.
//! A statement that fails to parse is recorded, and parsing goes on at the
//! token where the failure left off.

pub mod error;

use crate::expr::{lemma_stmt_views_push, stmt_views, BinaryOp, Expr, ExprView, Stmt, StmtView, UnaryOp};
use crate::parser::error::{parse_error_views, ParseError, ParseErrorView};
use crate::token::{token_views, Token, TokenType, TokenView};
use vstd::prelude::*;

verus! {

/// An expression or the reason why there is none, and where parsing stopped.
pub struct ParsedExpr {
    pub result: Result<ExprView, ParseErrorView>,
    pub pos: int,
}

/// A statement or the reason why there is none, where parsing stopped, and
/// the errors recorded so far.
pub struct ParsedStmt {
    pub result: Result<StmtView, ParseErrorView>,
    pub pos: int,
    pub errors: Seq<ParseErrorView>,
}

/// The statements of a block or the reason why it is not one, where parsing
/// stopped, and the errors recorded so far.
pub struct ParsedBlock {
    pub result: Result<Seq<StmtView>, ParseErrorView>,
    pub pos: int,
    pub errors: Seq<ParseErrorView>,
}

/// The statements of a program and every error recorded while parsing it.
pub struct Program {
    pub stmts: Seq<StmtView>,
    pub errors: Seq<ParseErrorView>,
}

/// The kind of the token at `pos`. The last token, and anything outside the
/// list, counts as the end of input.
pub open spec fn kind(tokens: Seq<TokenView>, pos: int) -> TokenType {
    if 0 <= pos < tokens.len() - 1 {
        tokens[pos].typ
    } else {
        TokenType::Eof
    }
}

/// Whether tokens of this kind carry a value.
pub open spec fn is_literal_kind(k: TokenType) -> bool {
    k == TokenType::True || k == TokenType::False || k == TokenType::Number || k
        == TokenType::String
}

/// The operator that a token kind stands for at a precedence level: 1 for
/// factors, 2 for terms, 3 for comparisons, 4 for equalities.
pub open spec fn level_op(level: nat, k: TokenType) -> Option<BinaryOp> {
    if level == 1 {
        match k {
            TokenType::Star => Some(BinaryOp::Multiply),
            TokenType::Slash => Some(BinaryOp::Divide),
            _ => None,
        }
    } else if level == 2 {
        match k {
            TokenType::Plus => Some(BinaryOp::Add),
            TokenType::Minus => Some(BinaryOp::Sub),
            _ => None,
        }
    } else if level == 3 {
        match k {
            TokenType::Greater => Some(BinaryOp::Greater),
            TokenType::GreaterEqual => Some(BinaryOp::GreaterEqual),
            TokenType::Less => Some(BinaryOp::Less),
            TokenType::LessEqual => Some(BinaryOp::LessEqual),
            _ => None,
        }
    } else if level == 4 {
        match k {
            TokenType::BangEqual => Some(BinaryOp::NotEqual),
            TokenType::EqualEqual => Some(BinaryOp::Equal),
            _ => None,
        }
    } else {
        None
    }
}

/// A successful parse of an expression.
pub open spec fn ok(e: ExprView, pos: int) -> ParsedExpr {
    ParsedExpr { result: Ok(e), pos }
}

/// The failure that reports the token at `pos` and leaves off at `next`.
pub open spec fn mismatch(tokens: Seq<TokenView>, pos: int, msg: Seq<char>, next: int) -> ParsedExpr {
    ParsedExpr { result: Err(ParseErrorView::TokenMismatch(tokens[pos], msg)), pos: next }
}

/// Whether parsing moved forward from `pos` to `next` within the list. It
/// always does where the definitions below ask, as the lemmas on advancing
/// show; asking keeps the definitions well-founded.
pub open spec fn progressed(tokens: Seq<TokenView>, pos: int, next: int) -> bool {
    pos < next < tokens.len()
}

/// `primary`: a literal, a variable, or an expression in parentheses. A
/// token that fits none is reported and, unless it is the end, consumed.
pub open spec fn primary(tokens: Seq<TokenView>, pos: int) -> ParsedExpr
    decreases tokens.len() - pos, 0nat,
{
    let k = kind(tokens, pos);
    if is_literal_kind(k) && tokens[pos].literal is Some {
        ok(ExprView::Literal(tokens[pos].literal->0), pos + 1)
    } else if k == TokenType::LeftParen {
        let inner = expression(tokens, pos + 1);
        match inner.result {
            Err(_) => inner,
            Ok(e) => if kind(tokens, inner.pos) == TokenType::RightParen {
                ok(ExprView::Group(Box::new(e)), inner.pos + 1)
            } else {
                mismatch(tokens, inner.pos, "Expected closing `)`"@, inner.pos)
            },
        }
    } else if k == TokenType::Identifier {
        ok(ExprView::Var(tokens[pos].lexeme), pos + 1)
    } else {
        mismatch(
            tokens,
            pos,
            "Expected expression, identifier, number, string, `true` or `false`"@,
            if k == TokenType::Eof {
                pos
            } else {
                pos + 1
            },
        )
    }
}

/// `unary`: any number of `!` and `-` before a primary.
pub open spec fn unary(tokens: Seq<TokenView>, pos: int) -> ParsedExpr
    decreases tokens.len() - pos, 1nat,
{
    let k = kind(tokens, pos);
    if k == TokenType::Bang || k == TokenType::Minus {
        let right = unary(tokens, pos + 1);
        match right.result {
            Err(_) => right,
            Ok(e) => ok(
                ExprView::Unary(
                    if k == TokenType::Bang {
                        UnaryOp::Not
                    } else {
                        UnaryOp::Neg
                    },
                    Box::new(e),
                ),
                right.pos,
            ),
        }
    } else {
        primary(tokens, pos)
    }
}

/// An operand of the operators of `level`: what binds tighter.
pub open spec fn operand(tokens: Seq<TokenView>, pos: int, level: nat) -> ParsedExpr
    decreases tokens.len() - pos, 3 * level + 2,
{
    if level <= 1 {
        unary(tokens, pos)
    } else {
        chain(tokens, pos, (level - 1) as nat)
    }
}

/// Operands joined by the operators of `level`, grouped to the left.
pub open spec fn chain(tokens: Seq<TokenView>, pos: int, level: nat) -> ParsedExpr
    decreases tokens.len() - pos, 3 * level + 4,
{
    let first = operand(tokens, pos, level);
    match first.result {
        Err(_) => first,
        Ok(e) => if progressed(tokens, pos, first.pos) {
            chain_rest(tokens, first.pos, level, e)
        } else {
            first
        },
    }
}

/// What follows the operand `left` in a chain of `level`.
pub open spec fn chain_rest(tokens: Seq<TokenView>, pos: int, level: nat, left: ExprView) -> ParsedExpr
    decreases tokens.len() - pos, 3 * level + 3,
{
    match level_op(level, kind(tokens, pos)) {
        None => ok(left, pos),
        Some(op) => {
            let right = operand(tokens, pos + 1, level);
            match right.result {
                Err(_) => right,
                Ok(r) => if progressed(tokens, pos, right.pos) {
                    chain_rest(
                        tokens,
                        right.pos,
                        level,
                        ExprView::Binary(Box::new(left), op, Box::new(r)),
                    )
                } else {
                    right
                },
            }
        },
    }
}

/// `assignment`: an equality, or a variable, `=` and an assignment. The
/// value is parsed before the target is looked at.
pub open spec fn assignment(tokens: Seq<TokenView>, pos: int) -> ParsedExpr
    decreases tokens.len() - pos, 30nat,
{
    let target = chain(tokens, pos, 4);
    match target.result {
        Err(_) => target,
        Ok(e) => if kind(tokens, target.pos) == TokenType::Equal && progressed(
            tokens,
            pos,
            target.pos,
        ) {
            let value = assignment(tokens, target.pos + 1);
            match value.result {
                Err(_) => value,
                Ok(v) => match e {
                    ExprView::Var(name) => ok(ExprView::Assign(name, Box::new(v)), value.pos),
                    _ => ParsedExpr {
                        result: Err(ParseErrorView::InvalidAssignmentTarget(tokens[target.pos])),
                        pos: value.pos,
                    },
                },
            }
        } else {
            target
        },
    }
}

/// `expression`.
pub open spec fn expression(tokens: Seq<TokenView>, pos: int) -> ParsedExpr
    decreases tokens.len() - pos, 31nat,
{
    assignment(tokens, pos)
}

/// A statement that failed.
pub open spec fn failed(e: ParseErrorView, pos: int, errors: Seq<ParseErrorView>) -> ParsedStmt {
    ParsedStmt { result: Err(e), pos, errors }
}

/// `terminator` behind the statement `stmt`: `;` and a line break are
/// consumed, the end of input is left, and any other token is reported and
/// consumed.
pub open spec fn terminated(
    tokens: Seq<TokenView>,
    pos: int,
    stmt: StmtView,
    errors: Seq<ParseErrorView>,
) -> ParsedStmt {
    let k = kind(tokens, pos);
    if k == TokenType::Semicolon || k == TokenType::NewLine {
        ParsedStmt { result: Ok(stmt), pos: pos + 1, errors }
    } else if k == TokenType::Eof {
        ParsedStmt { result: Ok(stmt), pos, errors }
    } else {
        failed(ParseErrorView::TokenMismatch(tokens[pos], "Expected `;`"@), pos + 1, errors)
    }
}

/// An expression statement.
pub open spec fn expr_stmt(tokens: Seq<TokenView>, pos: int, errors: Seq<ParseErrorView>) -> ParsedStmt {
    let e = expression(tokens, pos);
    match e.result {
        Ok(x) => terminated(tokens, e.pos, StmtView::Expr(x), errors),
        Err(err) => failed(err, e.pos, errors),
    }
}

/// A print statement, behind its keyword.
pub open spec fn print_stmt(tokens: Seq<TokenView>, pos: int, errors: Seq<ParseErrorView>) -> ParsedStmt {
    let e = expression(tokens, pos);
    match e.result {
        Ok(x) => terminated(tokens, e.pos, StmtView::Print(x), errors),
        Err(err) => failed(err, e.pos, errors),
    }
}

/// A declaration, behind its keyword.
pub open spec fn var_decl(
    tokens: Seq<TokenView>,
    pos: int,
    mutable: bool,
    errors: Seq<ParseErrorView>,
) -> ParsedStmt {
    if kind(tokens, pos) != TokenType::Identifier {
        failed(ParseErrorView::TokenMismatch(tokens[pos], "Expected variable name"@), pos, errors)
    } else if kind(tokens, pos + 1) != TokenType::Equal {
        failed(ParseErrorView::TokenMismatch(tokens[pos + 1], "Expected `=`"@), pos + 1, errors)
    } else {
        let e = expression(tokens, pos + 2);
        match e.result {
            Ok(x) => terminated(
                tokens,
                e.pos,
                StmtView::Var { name: tokens[pos].lexeme, initializer: x, mutable },
                errors,
            ),
            Err(err) => failed(err, e.pos, errors),
        }
    }
}

/// `statement`.
pub open spec fn statement(tokens: Seq<TokenView>, pos: int, errors: Seq<ParseErrorView>) -> ParsedStmt
    decreases tokens.len() - pos, 18nat,
{
    let k = kind(tokens, pos);
    if k == TokenType::Print {
        print_stmt(tokens, pos + 1, errors)
    } else if k == TokenType::LeftBrace {
        let b = block_items(tokens, pos + 1, Seq::<StmtView>::empty(), errors);
        ParsedStmt {
            result: match b.result {
                Ok(stmts) => Ok(StmtView::Block(stmts)),
                Err(e) => Err(e),
            },
            pos: b.pos,
            errors: b.errors,
        }
    } else {
        expr_stmt(tokens, pos, errors)
    }
}

/// `declaration`.
pub open spec fn declaration(tokens: Seq<TokenView>, pos: int, errors: Seq<ParseErrorView>) -> ParsedStmt
    decreases tokens.len() - pos, 19nat,
{
    let k = kind(tokens, pos);
    if k == TokenType::Let || k == TokenType::Const {
        var_decl(tokens, pos + 1, false, errors)
    } else if k == TokenType::Mut {
        var_decl(tokens, pos + 1, true, errors)
    } else {
        statement(tokens, pos, errors)
    }
}

/// The rest of a block behind the statements `stmts`: line breaks are
/// passed over, `}` ends the block, the end of input is reported, and a
/// declaration that fails is recorded and left out.
pub open spec fn block_items(
    tokens: Seq<TokenView>,
    pos: int,
    stmts: Seq<StmtView>,
    errors: Seq<ParseErrorView>,
) -> ParsedBlock
    decreases tokens.len() - pos, 20nat,
{
    let k = kind(tokens, pos);
    if k == TokenType::Eof {
        ParsedBlock {
            result: Err(ParseErrorView::TokenMismatch(tokens[pos], "Expected `}`"@)),
            pos,
            errors,
        }
    } else if k == TokenType::NewLine {
        block_items(tokens, pos + 1, stmts, errors)
    } else if k == TokenType::RightBrace {
        ParsedBlock { result: Ok(stmts), pos: pos + 1, errors }
    } else {
        let d = declaration(tokens, pos, errors);
        if !progressed(tokens, pos, d.pos) {
            ParsedBlock { result: Ok(stmts), pos: d.pos, errors: d.errors }
        } else {
            match d.result {
                Ok(s) => block_items(tokens, d.pos, stmts.push(s), d.errors),
                Err(e) => block_items(tokens, d.pos, stmts, d.errors.push(e)),
            }
        }
    }
}

/// The rest of a program behind the statements `stmts`: line breaks are
/// passed over, and a declaration that fails is recorded and left out.
pub open spec fn program_items(
    tokens: Seq<TokenView>,
    pos: int,
    stmts: Seq<StmtView>,
    errors: Seq<ParseErrorView>,
) -> Program
    decreases tokens.len() - pos, 21nat,
{
    let k = kind(tokens, pos);
    if k == TokenType::Eof {
        Program { stmts, errors }
    } else if k == TokenType::NewLine {
        program_items(tokens, pos + 1, stmts, errors)
    } else {
        let d = declaration(tokens, pos, errors);
        if !progressed(tokens, pos, d.pos) {
            Program { stmts, errors: d.errors }
        } else {
            match d.result {
                Ok(s) => program_items(tokens, d.pos, stmts.push(s), d.errors),
                Err(e) => program_items(tokens, d.pos, stmts, d.errors.push(e)),
            }
        }
    }
}

/// What parsing a token list yields.
pub open spec fn program(tokens: Seq<TokenView>) -> Program {
    program_items(tokens, 0, Seq::<StmtView>::empty(), Seq::<ParseErrorView>::empty())
}


/// Whether the parse `p` of an expression from `pos` stayed within the
/// list and moved forward: always where it succeeded, and wherever it did
/// not start at the end of input.
pub open spec fn advances(tokens: Seq<TokenView>, pos: int, p: ParsedExpr) -> bool {
    &&& pos <= p.pos < tokens.len()
    &&& (p.result is Ok || kind(tokens, pos) != TokenType::Eof) ==> pos < p.pos
}

/// A primary consumes at least one token unless it fails at the end.
pub proof fn lemma_primary_advances(tokens: Seq<TokenView>, pos: int)
    requires
        0 <= pos < tokens.len(),
    ensures
        advances(tokens, pos, primary(tokens, pos)),
    decreases tokens.len() - pos, 0nat,
{
    if kind(tokens, pos) == TokenType::LeftParen {
        lemma_expression_advances(tokens, pos + 1);
    }
}

/// A unary expression consumes at least one token unless it fails at the
/// end.
pub proof fn lemma_unary_advances(tokens: Seq<TokenView>, pos: int)
    requires
        0 <= pos < tokens.len(),
    ensures
        advances(tokens, pos, unary(tokens, pos)),
    decreases tokens.len() - pos, 1nat,
{
    let k = kind(tokens, pos);
    if k == TokenType::Bang || k == TokenType::Minus {
        lemma_unary_advances(tokens, pos + 1);
    } else {
        lemma_primary_advances(tokens, pos);
    }
}

/// An operand consumes at least one token unless it fails at the end.
pub proof fn lemma_operand_advances(tokens: Seq<TokenView>, pos: int, level: nat)
    requires
        0 <= pos < tokens.len(),
    ensures
        advances(tokens, pos, operand(tokens, pos, level)),
    decreases tokens.len() - pos, 3 * level + 2,
{
    if level <= 1 {
        lemma_unary_advances(tokens, pos);
    } else {
        lemma_chain_advances(tokens, pos, (level - 1) as nat);
    }
}

/// A chain consumes at least one token unless it fails at the end.
pub proof fn lemma_chain_advances(tokens: Seq<TokenView>, pos: int, level: nat)
    requires
        0 <= pos < tokens.len(),
    ensures
        advances(tokens, pos, chain(tokens, pos, level)),
    decreases tokens.len() - pos, 3 * level + 4,
{
    lemma_operand_advances(tokens, pos, level);
    let first = operand(tokens, pos, level);
    if first.result is Ok {
        lemma_chain_rest_advances(tokens, first.pos, level, first.result->Ok_0);
    }
}

/// The rest of a chain stays within the list and never moves back.
pub proof fn lemma_chain_rest_advances(
    tokens: Seq<TokenView>,
    pos: int,
    level: nat,
    left: ExprView,
)
    requires
        0 <= pos < tokens.len(),
    ensures
        pos <= chain_rest(tokens, pos, level, left).pos < tokens.len(),
    decreases tokens.len() - pos, 3 * level + 3,
{
    match level_op(level, kind(tokens, pos)) {
        None => {},
        Some(op) => {
            lemma_operand_advances(tokens, pos + 1, level);
            let right = operand(tokens, pos + 1, level);
            if right.result is Ok {
                lemma_chain_rest_advances(
                    tokens,
                    right.pos,
                    level,
                    ExprView::Binary(Box::new(left), op, Box::new(right.result->Ok_0)),
                );
            }
        },
    }
}

/// An assignment consumes at least one token unless it fails at the end.
pub proof fn lemma_assignment_advances(tokens: Seq<TokenView>, pos: int)
    requires
        0 <= pos < tokens.len(),
    ensures
        advances(tokens, pos, assignment(tokens, pos)),
    decreases tokens.len() - pos, 30nat,
{
    lemma_chain_advances(tokens, pos, 4);
    let target = chain(tokens, pos, 4);
    if target.result is Ok && kind(tokens, target.pos) == TokenType::Equal {
        lemma_assignment_advances(tokens, target.pos + 1);
    }
}

/// An expression consumes at least one token unless it fails at the end.
pub proof fn lemma_expression_advances(tokens: Seq<TokenView>, pos: int)
    requires
        0 <= pos < tokens.len(),
    ensures
        advances(tokens, pos, expression(tokens, pos)),
    decreases tokens.len() - pos, 31nat,
{
    lemma_assignment_advances(tokens, pos);
}

/// A declaration stays within the list and consumes at least one token
/// unless it starts at the end of input, whether it succeeds or fails: the
/// parser never records the same failure twice.
pub proof fn lemma_declaration_advances(
    tokens: Seq<TokenView>,
    pos: int,
    errors: Seq<ParseErrorView>,
)
    requires
        0 <= pos < tokens.len(),
    ensures
        pos <= declaration(tokens, pos, errors).pos < tokens.len(),
        kind(tokens, pos) != TokenType::Eof ==> pos < declaration(tokens, pos, errors).pos,
    decreases tokens.len() - pos, 19nat,
{
    let k = kind(tokens, pos);
    if k == TokenType::Let || k == TokenType::Const || k == TokenType::Mut {
        if kind(tokens, pos + 1) == TokenType::Identifier && kind(tokens, pos + 2)
            == TokenType::Equal {
            lemma_expression_advances(tokens, pos + 3);
        }
    } else if k == TokenType::Print {
        lemma_expression_advances(tokens, pos + 1);
    } else if k == TokenType::LeftBrace {
        lemma_block_items_advances(tokens, pos + 1, Seq::<StmtView>::empty(), errors);
    } else {
        lemma_expression_advances(tokens, pos);
    }
}

/// The rest of a block stays within the list and never moves back.
pub proof fn lemma_block_items_advances(
    tokens: Seq<TokenView>,
    pos: int,
    stmts: Seq<StmtView>,
    errors: Seq<ParseErrorView>,
)
    requires
        0 <= pos < tokens.len(),
    ensures
        pos <= block_items(tokens, pos, stmts, errors).pos < tokens.len(),
    decreases tokens.len() - pos, 20nat,
{
    let k = kind(tokens, pos);
    if k == TokenType::Eof {
    } else if k == TokenType::NewLine {
        lemma_block_items_advances(tokens, pos + 1, stmts, errors);
    } else if k == TokenType::RightBrace {
    } else {
        lemma_declaration_advances(tokens, pos, errors);
        let d = declaration(tokens, pos, errors);
        match d.result {
            Ok(s) => lemma_block_items_advances(tokens, d.pos, stmts.push(s), d.errors),
            Err(e) => lemma_block_items_advances(tokens, d.pos, stmts, d.errors.push(e)),
        }
    }
}

/// The model of the outcome of parsing an expression.
pub open spec fn expr_result_view(r: Result<Expr, ParseError>) -> Result<ExprView, ParseErrorView> {
    match r {
        Ok(e) => Ok(e@),
        Err(e) => Err(e@),
    }
}

/// The model of the outcome of parsing a statement.
pub open spec fn stmt_result_view(r: Result<Stmt, ParseError>) -> Result<StmtView, ParseErrorView> {
    match r {
        Ok(s) => Ok(s@),
        Err(e) => Err(e@),
    }
}

/// The model of the outcome of parsing a block.
pub open spec fn block_result_view(r: Result<Vec<Stmt>, ParseError>) -> Result<
    Seq<StmtView>,
    ParseErrorView,
> {
    match r {
        Ok(stmts) => Ok(stmt_views(stmts@)),
        Err(e) => Err(e@),
    }
}

/// Appending an error appends its model.
pub proof fn lemma_parse_error_views_push(errors: Seq<ParseError>, error: ParseError)
    ensures
        parse_error_views(errors.push(error)) == parse_error_views(errors).push(error@),
{
    assert(parse_error_views(errors.push(error)) =~= parse_error_views(errors).push(error@));
}

/// The operator that a token kind stands for at a precedence level.
fn level_op_of(level: u8, k: TokenType) -> (r: Option<BinaryOp>)
    ensures
        r == level_op(level as nat, k),
{
    if level == 1 {
        match k {
            TokenType::Star => Some(BinaryOp::Multiply),
            TokenType::Slash => Some(BinaryOp::Divide),
            _ => None,
        }
    } else if level == 2 {
        match k {
            TokenType::Plus => Some(BinaryOp::Add),
            TokenType::Minus => Some(BinaryOp::Sub),
            _ => None,
        }
    } else if level == 3 {
        match k {
            TokenType::Greater => Some(BinaryOp::Greater),
            TokenType::GreaterEqual => Some(BinaryOp::GreaterEqual),
            TokenType::Less => Some(BinaryOp::Less),
            TokenType::LessEqual => Some(BinaryOp::LessEqual),
            _ => None,
        }
    } else if level == 4 {
        match k {
            TokenType::BangEqual => Some(BinaryOp::NotEqual),
            TokenType::EqualEqual => Some(BinaryOp::Equal),
            _ => None,
        }
    } else {
        None
    }
}

/// The parser. It keeps nothing from one parse to the next.
pub struct Parser {
    tokens: Vec<Token>,
    errors: Vec<ParseError>,
    current: usize,
}

impl Default for Parser {
    fn default() -> (r: Self)
        ensures
            r.is_fresh(),
    {
        Self::new()
    }
}

impl Parser {
    /// Whether the parser is in its initial state.
    pub closed spec fn is_fresh(&self) -> bool {
        &&& self.tokens@.len() == 0
        &&& self.errors@.len() == 0
        &&& self.current == 0
    }

    spec fn wf(&self) -> bool {
        self.current < self.tokens.len()
    }

    spec fn views(&self) -> Seq<TokenView> {
        token_views(self.tokens@)
    }

    spec fn recorded(&self) -> Seq<ParseErrorView> {
        parse_error_views(self.errors@)
    }

    /// `self` is `before` with the reading position moved to `to`.
    spec fn moved(&self, before: &Parser, to: int) -> bool {
        &&& self.wf()
        &&& self.tokens == before.tokens
        &&& self.errors == before.errors
        &&& self.current == to
    }

    /// `self` is `before` after the parse `p` of an expression, which
    /// handed back `r`.
    spec fn parsed_expr(&self, before: &Parser, p: ParsedExpr, r: Result<Expr, ParseError>) -> bool {
        &&& self.moved(before, p.pos)
        &&& expr_result_view(r) == p.result
        &&& before.current <= self.current
        &&& (r is Ok || kind(before.views(), before.current as int) != TokenType::Eof)
            ==> before.current < self.current
    }

    /// `self` is `before` after the parse `p` of a statement, which handed
    /// back `r`.
    spec fn parsed_stmt(&self, before: &Parser, p: ParsedStmt, r: Result<Stmt, ParseError>) -> bool {
        &&& self.wf()
        &&& self.tokens == before.tokens
        &&& self.recorded() == p.errors
        &&& self.current == p.pos
        &&& stmt_result_view(r) == p.result
        &&& before.current <= self.current
    }

    /// A parser in its initial state.
    pub fn new() -> (r: Self)
        ensures
            r.is_fresh(),
    {
        Self { tokens: Vec::new(), errors: Vec::new(), current: 0 }
    }

    /// Parses a token list.
    ///
    /// Returns the statements where every one of them parsed, and otherwise
    /// every error in the order recorded.
    pub fn parse(&mut self, tokens: Vec<Token>) -> (r: Result<Vec<Stmt>, Vec<ParseError>>)
        ensures
            final(self).is_fresh(),
            match r {
                Ok(stmts) => program(token_views(tokens@)).errors.len() == 0 && stmt_views(stmts@)
                    == program(token_views(tokens@)).stmts,
                Err(errors) => errors@.len() > 0 && parse_error_views(errors@) == program(
                    token_views(tokens@),
                ).errors,
            },
    {
        self.tokens = tokens;
        self.errors = Vec::new();
        self.current = 0;
        assert(self.recorded() =~= Seq::<ParseErrorView>::empty());
        let statements = if self.tokens.len() == 0 {
            Vec::new()
        } else {
            self.program()
        };
        let mut errors: Vec<ParseError> = Vec::new();
        std::mem::swap(&mut self.errors, &mut errors);
        self.tokens = Vec::new();
        self.current = 0;
        if errors.len() == 0 {
            Ok(statements)
        } else {
            Err(errors)
        }
    }

    /// `program`.
    fn program(&mut self) -> (stmts: Vec<Stmt>)
        requires
            old(self).wf(),
        ensures
            final(self).tokens == old(self).tokens,
            stmt_views(stmts@) == program_items(
                old(self).views(),
                old(self).current as int,
                Seq::<StmtView>::empty(),
                old(self).recorded(),
            ).stmts,
            final(self).recorded() == program_items(
                old(self).views(),
                old(self).current as int,
                Seq::<StmtView>::empty(),
                old(self).recorded(),
            ).errors,
    {
        let mut statements: Vec<Stmt> = Vec::new();
        loop
            invariant
                self.wf(),
                self.tokens == old(self).tokens,
                program_items(
                    self.views(),
                    self.current as int,
                    stmt_views(statements@),
                    self.recorded(),
                ) == program_items(
                    old(self).views(),
                    old(self).current as int,
                    Seq::<StmtView>::empty(),
                    old(self).recorded(),
                ),
            decreases self.tokens.len() - self.current,
        {
            if self.is_at_end() {
                return statements;
            }
            if self.matches(TokenType::NewLine) {
                continue ;
            }
            match self.declaration() {
                Ok(stmt) => {
                    proof {
                        lemma_stmt_views_push(statements@, stmt);
                    }
                    statements.push(stmt);
                },
                Err(err) => {
                    proof {
                        lemma_parse_error_views_push(self.errors@, err);
                    }
                    self.errors.push(err);
                },
            }
        }
    }

    /// `declaration`.
    fn declaration(&mut self) -> (r: Result<Stmt, ParseError>)
        requires
            old(self).wf(),
        ensures
            final(self).parsed_stmt(
                old(self),
                declaration(old(self).views(), old(self).current as int, old(self).recorded()),
                r,
            ),
            kind(old(self).views(), old(self).current as int) != TokenType::Eof ==> old(self).current < final(self).current,
        decreases old(self).tokens.len() - old(self).current, 63nat,
    {
        let k = self.peek_kind();
        if k == TokenType::Let || k == TokenType::Const {
            self.advance();
            self.const_decl()
        } else if k == TokenType::Mut {
            self.advance();
            self.mut_decl()
        } else {
            self.statement()
        }
    }

    /// An immutable declaration, behind its keyword.
    fn const_decl(&mut self) -> (r: Result<Stmt, ParseError>)
        requires
            old(self).wf(),
        ensures
            final(self).parsed_stmt(
                old(self),
                var_decl(old(self).views(), old(self).current as int, false, old(self).recorded()),
                r,
            ),
    {
        self.var_decl(false)
    }

    /// A mutable declaration, behind its keyword.
    fn mut_decl(&mut self) -> (r: Result<Stmt, ParseError>)
        requires
            old(self).wf(),
        ensures
            final(self).parsed_stmt(
                old(self),
                var_decl(old(self).views(), old(self).current as int, true, old(self).recorded()),
                r,
            ),
    {
        self.var_decl(true)
    }

    /// A declaration, behind its keyword.
    fn var_decl(&mut self, mutable: bool) -> (r: Result<Stmt, ParseError>)
        requires
            old(self).wf(),
        ensures
            final(self).parsed_stmt(
                old(self),
                var_decl(
                    old(self).views(),
                    old(self).current as int,
                    mutable,
                    old(self).recorded(),
                ),
                r,
            ),
    {
        match self.consume(TokenType::Identifier, "Expected variable name") {
            Ok(_) => {},
            Err(e) => {
                return Err(e);
            },
        }
        let name = self.previous().lexeme.clone();
        match self.consume(TokenType::Equal, "Expected `=`") {
            Ok(_) => {},
            Err(e) => {
                return Err(e);
            },
        }
        let initializer = match self.expression() {
            Ok(e) => e,
            Err(e) => {
                return Err(e);
            },
        };
        self.terminator(Stmt::Var { name, initializer, mutable })
    }

    /// `statement`.
    fn statement(&mut self) -> (r: Result<Stmt, ParseError>)
        requires
            old(self).wf(),
        ensures
            final(self).parsed_stmt(
                old(self),
                statement(old(self).views(), old(self).current as int, old(self).recorded()),
                r,
            ),
            kind(old(self).views(), old(self).current as int) != TokenType::Eof ==> old(self).current < final(self).current,
        decreases old(self).tokens.len() - old(self).current, 62nat,
    {
        let k = self.peek_kind();
        if k == TokenType::Print {
            self.advance();
            self.print_stmt()
        } else if k == TokenType::LeftBrace {
            self.advance();
            match self.block() {
                Ok(stmts) => Ok(Stmt::Block(stmts)),
                Err(e) => Err(e),
            }
        } else {
            self.expr_stmt()
        }
    }

    /// A block, behind its opening brace.
    fn block(&mut self) -> (r: Result<Vec<Stmt>, ParseError>)
        requires
            old(self).wf(),
        ensures
            final(self).wf(),
            final(self).tokens == old(self).tokens,
            old(self).current <= final(self).current,
            block_result_view(r) == block_items(
                old(self).views(),
                old(self).current as int,
                Seq::<StmtView>::empty(),
                old(self).recorded(),
            ).result,
            final(self).current == block_items(
                old(self).views(),
                old(self).current as int,
                Seq::<StmtView>::empty(),
                old(self).recorded(),
            ).pos,
            final(self).recorded() == block_items(
                old(self).views(),
                old(self).current as int,
                Seq::<StmtView>::empty(),
                old(self).recorded(),
            ).errors,
        decreases old(self).tokens.len() - old(self).current, 64nat,
    {
        let mut statements: Vec<Stmt> = Vec::new();
        loop
            invariant
                self.wf(),
                self.tokens == old(self).tokens,
                old(self).current <= self.current,
                block_items(
                    self.views(),
                    self.current as int,
                    stmt_views(statements@),
                    self.recorded(),
                ) == block_items(
                    old(self).views(),
                    old(self).current as int,
                    Seq::<StmtView>::empty(),
                    old(self).recorded(),
                ),
            decreases self.tokens.len() - self.current,
        {
            if self.is_at_end() {
                return ParseError::token_mismatch(self.peek(), "Expected `}`");
            }
            if self.matches(TokenType::NewLine) {
                continue ;
            }
            if self.matches(TokenType::RightBrace) {
                return Ok(statements);
            }
            match self.declaration() {
                Ok(stmt) => {
                    proof {
                        lemma_stmt_views_push(statements@, stmt);
                    }
                    statements.push(stmt);
                },
                Err(err) => {
                    proof {
                        lemma_parse_error_views_push(self.errors@, err);
                    }
                    self.errors.push(err);
                },
            }
        }
    }

    /// A print statement, behind its keyword.
    fn print_stmt(&mut self) -> (r: Result<Stmt, ParseError>)
        requires
            old(self).wf(),
        ensures
            final(self).parsed_stmt(
                old(self),
                print_stmt(old(self).views(), old(self).current as int, old(self).recorded()),
                r,
            ),
    {
        match self.expression() {
            Ok(e) => self.terminator(Stmt::Print(e)),
            Err(e) => Err(e),
        }
    }

    /// An expression statement.
    fn expr_stmt(&mut self) -> (r: Result<Stmt, ParseError>)
        requires
            old(self).wf(),
        ensures
            final(self).parsed_stmt(
                old(self),
                expr_stmt(old(self).views(), old(self).current as int, old(self).recorded()),
                r,
            ),
            kind(old(self).views(), old(self).current as int) != TokenType::Eof ==> old(self).current < final(self).current,
    {
        match self.expression() {
            Ok(e) => self.terminator(Stmt::Expr(e)),
            Err(e) => Err(e),
        }
    }

    /// `terminator` behind the statement `stmt`.
    fn terminator(&mut self, stmt: Stmt) -> (r: Result<Stmt, ParseError>)
        requires
            old(self).wf(),
        ensures
            final(self).parsed_stmt(
                old(self),
                terminated(
                    old(self).views(),
                    old(self).current as int,
                    stmt@,
                    old(self).recorded(),
                ),
                r,
            ),
    {
        let k = self.peek_kind();
        if k == TokenType::Semicolon || k == TokenType::NewLine {
            self.advance();
            Ok(stmt)
        } else if k == TokenType::Eof {
            Ok(stmt)
        } else {
            let r = ParseError::token_mismatch(self.peek(), "Expected `;`");
            self.advance();
            r
        }
    }

    /// `expression`.
    fn expression(&mut self) -> (r: Result<Expr, ParseError>)
        requires
            old(self).wf(),
        ensures
            final(self).parsed_expr(
                old(self),
                expression(old(self).views(), old(self).current as int),
                r,
            ),
        decreases old(self).tokens.len() - old(self).current, 51nat,
    {
        self.assignment()
    }

    /// `assignment`.
    fn assignment(&mut self) -> (r: Result<Expr, ParseError>)
        requires
            old(self).wf(),
        ensures
            final(self).parsed_expr(
                old(self),
                assignment(old(self).views(), old(self).current as int),
                r,
            ),
        decreases old(self).tokens.len() - old(self).current, 50nat,
    {
        let expr = match self.equality() {
            Ok(e) => e,
            Err(e) => {
                return Err(e);
            },
        };
        if self.peek_kind() == TokenType::Equal {
            let equals = self.peek().clone();
            self.advance();
            let value = match self.assignment() {
                Ok(e) => e,
                Err(e) => {
                    return Err(e);
                },
            };
            match expr {
                Expr::Var(name) => Ok(Expr::Assign(name, Box::new(value))),
                _ => Err(ParseError::InvalidAssignmentTarget(equals)),
            }
        } else {
            Ok(expr)
        }
    }

    /// `equality`.
    fn equality(&mut self) -> (r: Result<Expr, ParseError>)
        requires
            old(self).wf(),
        ensures
            final(self).parsed_expr(
                old(self),
                chain(old(self).views(), old(self).current as int, 4),
                r,
            ),
        decreases old(self).tokens.len() - old(self).current, 43nat,
    {
        self.chain(4)
    }

    /// `comparison`.
    fn comparison(&mut self) -> (r: Result<Expr, ParseError>)
        requires
            old(self).wf(),
        ensures
            final(self).parsed_expr(
                old(self),
                chain(old(self).views(), old(self).current as int, 3),
                r,
            ),
        decreases old(self).tokens.len() - old(self).current, 33nat,
    {
        self.chain(3)
    }

    /// `term`.
    fn term(&mut self) -> (r: Result<Expr, ParseError>)
        requires
            old(self).wf(),
        ensures
            final(self).parsed_expr(
                old(self),
                chain(old(self).views(), old(self).current as int, 2),
                r,
            ),
        decreases old(self).tokens.len() - old(self).current, 23nat,
    {
        self.chain(2)
    }

    /// `factor`.
    fn factor(&mut self) -> (r: Result<Expr, ParseError>)
        requires
            old(self).wf(),
        ensures
            final(self).parsed_expr(
                old(self),
                chain(old(self).views(), old(self).current as int, 1),
                r,
            ),
        decreases old(self).tokens.len() - old(self).current, 13nat,
    {
        self.chain(1)
    }

    /// Operands joined by the operators of `level`, grouped to the left.
    fn chain(&mut self, level: u8) -> (r: Result<Expr, ParseError>)
        requires
            old(self).wf(),
            1 <= level <= 4,
        ensures
            final(self).parsed_expr(
                old(self),
                chain(old(self).views(), old(self).current as int, level as nat),
                r,
            ),
        decreases old(self).tokens.len() - old(self).current, 10 * level + 2,
    {
        let mut expr = match self.operand(level) {
            Ok(e) => e,
            Err(e) => {
                return Err(e);
            },
        };
        loop
            invariant
                self.wf(),
                1 <= level <= 4,
                self.tokens == old(self).tokens,
                self.errors == old(self).errors,
                old(self).current < self.current,
                chain_rest(self.views(), self.current as int, level as nat, expr@) == chain(
                    old(self).views(),
                    old(self).current as int,
                    level as nat,
                ),
            decreases self.tokens.len() - self.current,
        {
            let op = match level_op_of(level, self.peek_kind()) {
                Some(op) => op,
                None => {
                    return Ok(expr);
                },
            };
            self.advance();
            let right = match self.operand(level) {
                Ok(e) => e,
                Err(e) => {
                    return Err(e);
                },
            };
            expr = Expr::Binary(Box::new(expr), op, Box::new(right));
        }
    }

    /// An operand of the operators of `level`.
    fn operand(&mut self, level: u8) -> (r: Result<Expr, ParseError>)
        requires
            old(self).wf(),
            1 <= level <= 4,
        ensures
            final(self).parsed_expr(
                old(self),
                operand(old(self).views(), old(self).current as int, level as nat),
                r,
            ),
        decreases old(self).tokens.len() - old(self).current, 10 * level,
    {
        if level == 1 {
            self.unary()
        } else if level == 2 {
            self.factor()
        } else if level == 3 {
            self.term()
        } else {
            self.comparison()
        }
    }

    /// `unary`.
    fn unary(&mut self) -> (r: Result<Expr, ParseError>)
        requires
            old(self).wf(),
        ensures
            final(self).parsed_expr(old(self), unary(old(self).views(), old(self).current as int), r),
        decreases old(self).tokens.len() - old(self).current, 1nat,
    {
        let k = self.peek_kind();
        if k == TokenType::Bang || k == TokenType::Minus {
            self.advance();
            let right = match self.unary() {
                Ok(e) => e,
                Err(e) => {
                    return Err(e);
                },
            };
            if k == TokenType::Bang {
                Ok(Expr::Unary(UnaryOp::Not, Box::new(right)))
            } else {
                Ok(Expr::Unary(UnaryOp::Neg, Box::new(right)))
            }
        } else {
            self.primary()
        }
    }

    /// `primary`.
    fn primary(&mut self) -> (r: Result<Expr, ParseError>)
        requires
            old(self).wf(),
        ensures
            final(self).parsed_expr(
                old(self),
                primary(old(self).views(), old(self).current as int),
                r,
            ),
        decreases old(self).tokens.len() - old(self).current, 0nat,
    {
        let k = self.peek_kind();
        if k == TokenType::True || k == TokenType::False || k == TokenType::Number || k
            == TokenType::String {
            match &self.peek().literal {
                Some(value) => {
                    let value = value.clone();
                    self.advance();
                    return Ok(Expr::Literal(value));
                },
                None => {},
            }
        }
        if k == TokenType::LeftParen {
            self.advance();
            let inner = match self.expression() {
                Ok(e) => e,
                Err(e) => {
                    return Err(e);
                },
            };
            match self.consume(TokenType::RightParen, "Expected closing `)`") {
                Ok(_) => Ok(Expr::Group(Box::new(inner))),
                Err(e) => Err(e),
            }
        } else if k == TokenType::Identifier {
            let name = self.peek().lexeme.clone();
            self.advance();
            Ok(Expr::Var(name))
        } else {
            let r = ParseError::token_mismatch(
                self.peek(),
                "Expected expression, identifier, number, string, `true` or `false`",
            );
            self.advance();
            r
        }
    }

    /// Reads the next token where it is of kind `typ`, and reports it with
    /// `msg` where it is not.
    fn consume(&mut self, typ: TokenType, msg: &str) -> (r: Result<(), ParseError>)
        requires
            old(self).wf(),
            typ != TokenType::Eof,
        ensures
            match r {
                Ok(_) => kind(old(self).views(), old(self).current as int) == typ && final(self).moved(old(self), old(self).current + 1),
                Err(e) => kind(old(self).views(), old(self).current as int) != typ && final(self).moved(old(self), old(self).current as int) && e@
                    == ParseErrorView::TokenMismatch(
                    old(self).views()[old(self).current as int],
                    msg@,
                ),
            },
    {
        if self.check(typ) {
            self.advance();
            return Ok(());
        }
        ParseError::token_mismatch(self.peek(), msg)
    }

    /// Reads the next token where it is of kind `typ`.
    fn matches(&mut self, typ: TokenType) -> (r: bool)
        requires
            old(self).wf(),
            typ != TokenType::Eof,
        ensures
            r == (kind(old(self).views(), old(self).current as int) == typ),
            final(self).moved(
                old(self),
                if r {
                    old(self).current + 1
                } else {
                    old(self).current as int
                },
            ),
    {
        if self.check(typ) {
            self.advance();
            return true;
        }
        false
    }

    /// Whether the next token is of kind `typ` and not the end of input.
    fn check(&self, typ: TokenType) -> (r: bool)
        requires
            self.wf(),
        ensures
            r == (kind(self.views(), self.current as int) == typ && typ != TokenType::Eof),
    {
        if self.is_at_end() {
            return false;
        }
        self.peek_kind() == typ
    }

    /// Moves past the next token, unless it is the end of input.
    fn advance(&mut self)
        requires
            old(self).wf(),
        ensures
            final(self).moved(
                old(self),
                if kind(old(self).views(), old(self).current as int) == TokenType::Eof {
                    old(self).current as int
                } else {
                    old(self).current + 1
                },
            ),
    {
        if !self.is_at_end() {
            self.current += 1;
        }
    }

    /// Whether the next token is the end of input.
    fn is_at_end(&self) -> (r: bool)
        requires
            self.wf(),
        ensures
            r == (kind(self.views(), self.current as int) == TokenType::Eof),
    {
        self.peek_kind() == TokenType::Eof
    }

    /// The token that was read last.
    fn previous(&self) -> (t: &Token)
        requires
            self.wf(),
            self.current > 0,
        ensures
            *t == self.tokens@[self.current - 1],
    {
        &self.tokens[self.current - 1]
    }

    /// The next token.
    fn peek(&self) -> (t: &Token)
        requires
            self.wf(),
        ensures
            *t == self.tokens@[self.current as int],
            t@ == self.views()[self.current as int],
    {
        &self.tokens[self.current]
    }

    /// The kind of the next token; the last token counts as the end of
    /// input.
    fn peek_kind(&self) -> (k: TokenType)
        requires
            self.wf(),
        ensures
            k == kind(self.views(), self.current as int),
    {
        if self.current + 1 >= self.tokens.len() {
            TokenType::Eof
        } else {
            self.tokens[self.current].typ
        }
    }
}

} // verus!
