//! The expression tree and the parser that builds it from tokens.
//!
//! The parser is a recursive descent over the token stream; what each of
//! its functions gives is what the function of the same name in `grammar`
//! says, token for token.

use vstd::prelude::*;

use crate::error::{InterpreterError, InterpreterErrorView, InterpreterResult, ParserErrorKind, ParserErrorView};
use crate::grammar;
use crate::grammar::{
    expr_views,
    lemma_expr_views_push,
    lemma_pair_views_push,
    lemma_statement_views_push,
    lemma_tokens_view_push,
    pair_views,
    statement_views,
    tokens_view,
    ExprView,
    Parsed,
    MAX_ENTRIES,
};
use crate::tokenizer::{Token, TokenType, TokenView};

verus! {

/// `try { .. } catch (name) { .. }`.
#[derive(Debug, PartialEq)]
pub struct TryCatch {
    pub try_block: Box<Expr>,
    pub catch_param: String,
    pub catch_block: Box<Expr>,
}

/// Every syntactic form is an expression.
#[derive(Debug, PartialEq)]
pub enum Expr {
    Binary(Box<Expr>, Token, Box<Expr>),
    Logical(Box<Expr>, Token, Box<Expr>),
    Grouping(Box<Expr>),
    Literal(Token, String),
    Array(Vec<Expr>),
    Dictionary(Vec<(Expr, Expr)>),
    Unary(Token, Box<Expr>),
    Nil,
    Variable(Token),
    Assign(Token, Box<Expr>),
    Let(Token, Box<Expr>),
    Block(Vec<Expr>),
    Function(Token, Vec<Token>, Box<Expr>),
    AsyncFunction(Token, Vec<Token>, Box<Expr>),
    Class(Token, Vec<Expr>),
    Call(Option<Box<Expr>>, Box<Expr>, Vec<Expr>),
    Await(Box<Expr>),
    If(Box<Expr>, Box<Expr>, Box<Expr>),
    While(Box<Expr>, Box<Expr>),
    For(Box<Expr>, Box<Expr>, Box<Expr>, Box<Expr>),
    Import(Box<Expr>),
    Return(Token, Box<Expr>),
    Get(Box<Expr>, Box<Expr>),
    SetMember(Token, Box<Expr>, Box<Expr>),
    TryCatch(TryCatch),
}

impl Expr {
    pub fn binary(left: Expr, operator: Token, right: Expr) -> (expr: Expr)
        ensures
            expr@ == ExprView::Binary(Box::new(left@), operator@, Box::new(right@)),
    {
        Expr::Binary(Box::new(left), operator, Box::new(right))
    }

    pub fn logical(left: Expr, operator: Token, right: Expr) -> (expr: Expr)
        ensures
            expr@ == ExprView::Logical(Box::new(left@), operator@, Box::new(right@)),
    {
        Expr::Logical(Box::new(left), operator, Box::new(right))
    }

    pub fn grouping(inner: Expr) -> (expr: Expr)
        ensures
            expr@ == ExprView::Grouping(Box::new(inner@)),
    {
        Expr::Grouping(Box::new(inner))
    }

    pub fn literal(token: Token, text: String) -> (expr: Expr)
        ensures
            expr@ == ExprView::Literal(token@, text@),
    {
        Expr::Literal(token, text)
    }

    pub fn array(items: Vec<Expr>) -> (expr: Expr)
        ensures
            expr@ == ExprView::Array(expr_views(items@)),
    {
        Expr::Array(items)
    }

    pub fn dictionary(items: Vec<(Expr, Expr)>) -> (expr: Expr)
        ensures
            expr@ == ExprView::Dictionary(pair_views(items@)),
    {
        Expr::Dictionary(items)
    }

    pub fn unary(operator: Token, operand: Expr) -> (expr: Expr)
        ensures
            expr@ == ExprView::Unary(operator@, Box::new(operand@)),
    {
        Expr::Unary(operator, Box::new(operand))
    }

    pub fn nothing() -> (expr: Expr)
        ensures
            expr@ == ExprView::Nil,
    {
        Expr::Nil
    }

    pub fn variable(name: Token) -> (expr: Expr)
        ensures
            expr@ == ExprView::Variable(name@),
    {
        Expr::Variable(name)
    }

    pub fn assign(name: Token, value: Expr) -> (expr: Expr)
        ensures
            expr@ == ExprView::Assign(name@, Box::new(value@)),
    {
        Expr::Assign(name, Box::new(value))
    }

    pub fn declare(name: Token, value: Expr) -> (expr: Expr)
        ensures
            expr@ == ExprView::Let(name@, Box::new(value@)),
    {
        Expr::Let(name, Box::new(value))
    }

    pub fn block(items: Vec<Expr>) -> (expr: Expr)
        ensures
            expr@ == ExprView::Block(expr_views(items@)),
    {
        Expr::Block(items)
    }

    pub fn function(name: Token, params: Vec<Token>, body: Expr, is_async: bool) -> (expr: Expr)
        ensures
            expr@ == (if is_async {
                ExprView::AsyncFunction(name@, tokens_view(params@), Box::new(body@))
            } else {
                ExprView::Function(name@, tokens_view(params@), Box::new(body@))
            }),
    {
        if is_async {
            Expr::AsyncFunction(name, params, Box::new(body))
        } else {
            Expr::Function(name, params, Box::new(body))
        }
    }

    pub fn class(name: Token, members: Vec<Expr>) -> (expr: Expr)
        ensures
            expr@ == ExprView::Class(name@, expr_views(members@)),
    {
        Expr::Class(name, members)
    }

    pub fn call(callee: Expr, arguments: Vec<Expr>) -> (expr: Expr)
        ensures
            expr@ == ExprView::Call(None, Box::new(callee@), expr_views(arguments@)),
    {
        Expr::Call(None, Box::new(callee), arguments)
    }

    pub fn method_call(owner: Expr, callee: Expr, arguments: Vec<Expr>) -> (expr: Expr)
        ensures
            expr@ == ExprView::Call(
                Some(Box::new(owner@)),
                Box::new(callee@),
                expr_views(arguments@),
            ),
    {
        Expr::Call(Some(Box::new(owner)), Box::new(callee), arguments)
    }

    pub fn awaiting(operand: Expr) -> (expr: Expr)
        ensures
            expr@ == ExprView::Await(Box::new(operand@)),
    {
        Expr::Await(Box::new(operand))
    }

    pub fn conditional(condition: Expr, then_branch: Expr, else_branch: Expr) -> (expr: Expr)
        ensures
            expr@ == ExprView::If(
                Box::new(condition@),
                Box::new(then_branch@),
                Box::new(else_branch@),
            ),
    {
        Expr::If(Box::new(condition), Box::new(then_branch), Box::new(else_branch))
    }

    pub fn while_loop(condition: Expr, body: Expr) -> (expr: Expr)
        ensures
            expr@ == ExprView::While(Box::new(condition@), Box::new(body@)),
    {
        Expr::While(Box::new(condition), Box::new(body))
    }

    pub fn for_loop(initializer: Expr, condition: Expr, increment: Expr, body: Expr) -> (expr:
        Expr)
        ensures
            expr@ == ExprView::For(
                Box::new(initializer@),
                Box::new(condition@),
                Box::new(increment@),
                Box::new(body@),
            ),
    {
        Expr::For(Box::new(initializer), Box::new(condition), Box::new(increment), Box::new(body))
    }

    pub fn import(path: Expr) -> (expr: Expr)
        ensures
            expr@ == ExprView::Import(Box::new(path@)),
    {
        Expr::Import(Box::new(path))
    }

    pub fn returning(keyword: Token, value: Expr) -> (expr: Expr)
        ensures
            expr@ == ExprView::Return(keyword@, Box::new(value@)),
    {
        Expr::Return(keyword, Box::new(value))
    }

    pub fn get(object: Expr, name: Expr) -> (expr: Expr)
        ensures
            expr@ == ExprView::Get(Box::new(object@), Box::new(name@)),
    {
        Expr::Get(Box::new(object), Box::new(name))
    }

    pub fn set_member(target: Token, name: Expr, value: Expr) -> (expr: Expr)
        ensures
            expr@ == ExprView::SetMember(target@, Box::new(name@), Box::new(value@)),
    {
        Expr::SetMember(target, Box::new(name), Box::new(value))
    }

    pub fn try_catch(try_block: Expr, catch_param: String, catch_block: Expr) -> (expr: Expr)
        ensures
            expr@ == ExprView::TryCatch(
                Box::new(try_block@),
                catch_param@,
                Box::new(catch_block@),
            ),
    {
        Expr::TryCatch(
            TryCatch {
                try_block: Box::new(try_block),
                catch_param,
                catch_block: Box::new(catch_block),
            },
        )
    }

    /// Whether the expression is `Nil`.
    pub fn is_nothing(&self) -> (yes: bool)
        ensures
            yes == (self@ is Nil),
    {
        match self {
            Expr::Nil => true,
            _ => false,
        }
    }
}


/// What the result of a parsing function stands for: what was read with
/// the position behind it, or the error.
pub open spec fn outcome(result: InterpreterResult<Expr>, pos: int) -> Parsed<ExprView> {
    match result {
        Ok(expr) => Parsed::Done(expr@, pos),
        Err(error) => Parsed::Failed(failure(error)),
    }
}

pub open spec fn list_outcome(result: InterpreterResult<Vec<Expr>>, pos: int) -> Parsed<
    Seq<ExprView>,
> {
    match result {
        Ok(items) => Parsed::Done(expr_views(items@), pos),
        Err(error) => Parsed::Failed(failure(error)),
    }
}

pub open spec fn pairs_outcome(result: InterpreterResult<Vec<(Expr, Expr)>>, pos: int) -> Parsed<
    Seq<(ExprView, ExprView)>,
> {
    match result {
        Ok(items) => Parsed::Done(pair_views(items@), pos),
        Err(error) => Parsed::Failed(failure(error)),
    }
}

pub open spec fn token_outcome(result: InterpreterResult<Token>, pos: int) -> Parsed<TokenView> {
    match result {
        Ok(token) => Parsed::Done(token@, pos),
        Err(error) => Parsed::Failed(failure(error)),
    }
}

/// The parser error that an error of the interpreter holds.
pub open spec fn failure(error: InterpreterError) -> ParserErrorView {
    match error@ {
        InterpreterErrorView::ParserError(kind) => kind,
        _ => ParserErrorView::UnknownError(0),
    }
}

pub struct Parser {
    tokens: Vec<Token>,
    current: usize,
}

fn is_comparison_kind(kind: TokenType) -> (yes: bool)
    ensures
        yes == grammar::is_comparison(kind),
{
    match kind {
        TokenType::Greater | TokenType::GreaterEqual | TokenType::Less | TokenType::LessEqual
        | TokenType::BandEqual | TokenType::EqualEqual => true,
        _ => false,
    }
}

fn is_logical_kind(kind: TokenType) -> (yes: bool)
    ensures
        yes == grammar::is_logical(kind),
{
    match kind {
        TokenType::Or | TokenType::And => true,
        _ => false,
    }
}

fn is_sum_kind(kind: TokenType) -> (yes: bool)
    ensures
        yes == grammar::is_sum(kind),
{
    match kind {
        TokenType::Minus | TokenType::Plus => true,
        _ => false,
    }
}

fn is_product_kind(kind: TokenType) -> (yes: bool)
    ensures
        yes == grammar::is_product(kind),
{
    match kind {
        TokenType::Slash | TokenType::Star | TokenType::Modulo => true,
        _ => false,
    }
}

fn is_unary_kind(kind: TokenType) -> (yes: bool)
    ensures
        yes == grammar::is_unary(kind),
{
    match kind {
        TokenType::Bang | TokenType::Minus => true,
        _ => false,
    }
}

/// The string literal that stands for the name of the field `field`.
fn key_of(field: Token) -> (key: Expr)
    ensures
        key@ == grammar::field_key(field@),
{
    let text = field.lexeme.clone();
    let literal = field.lexeme.clone();
    Expr::literal(
        Token {
            token_type: TokenType::STRING,
            lexeme: field.lexeme,
            literal: Some(literal),
            line: field.line,
        },
        text,
    )
}

impl Parser {
    /// The tokens, as mathematical values.
    pub closed spec fn views(&self) -> Seq<TokenView> {
        tokens_view(self.tokens@)
    }

    /// The position of the token that is read next.
    pub closed spec fn position(&self) -> int {
        self.current as int
    }

    /// The stream ends in `Eof`, and the position is inside it.
    pub closed spec fn wf(&self) -> bool {
        grammar::well_formed(tokens_view(self.tokens@)) && self.current < self.tokens@.len()
    }

    pub fn new(tokens: Vec<Token>) -> (parser: Parser)
        ensures
            parser.views() == tokens_view(tokens@),
            parser.position() == 0,
    {
        Parser { tokens, current: 0 }
    }

    /// Whether the stream can be read from the current position.
    pub fn ready(&self) -> (yes: bool)
        ensures
            yes == self.wf(),
            yes == (grammar::well_formed(self.views()) && 0 <= self.position()
                < self.views().len()),
    {
        let n = self.tokens.len();
        assert(tokens_view(self.tokens@).len() == n);
        if n == 0 || self.current >= n {
            false
        } else {
            assert(tokens_view(self.tokens@).last() == self.tokens@[n - 1]@);
            match self.tokens[n - 1].token_type {
                TokenType::Eof => true,
                _ => false,
            }
        }
    }

    /// The kind of the token at the current position.
    fn kind(&self) -> (kind: TokenType)
        requires
            self.wf(),
        ensures
            kind == grammar::kind_at(self.views(), self.position()),
            kind == self.views()[self.position()].token_type,
    {
        self.tokens[self.current].token_type
    }

    /// The kind of the token behind the current one.
    fn kind_after(&self) -> (kind: TokenType)
        requires
            self.wf(),
        ensures
            kind == grammar::kind_at(self.views(), self.position() + 1),
    {
        let n = self.tokens.len();
        if self.current + 1 < n {
            self.tokens[self.current + 1].token_type
        } else {
            TokenType::Eof
        }
    }

    /// The line of the token at the current position.
    fn line(&self) -> (line: usize)
        requires
            self.wf(),
        ensures
            line == self.views()[self.position()].line,
    {
        self.tokens[self.current].line
    }

    /// A copy of the token at the current position.
    pub fn peek(&self) -> (token: Token)
        requires
            self.wf(),
        ensures
            token@ == self.views()[self.position()],
    {
        self.tokens[self.current].clone()
    }

    /// A copy of the token before the current position; at the start, of
    /// the first token.
    pub fn previous(&self) -> (token: Token)
        requires
            self.wf(),
        ensures
            token@ == grammar::previous_at(self.views(), self.position()),
    {
        if self.current > 0 {
            self.tokens[self.current - 1].clone()
        } else {
            self.tokens[0].clone()
        }
    }

    /// Whether the current token is `Eof`.
    pub fn is_at_end(&self) -> (yes: bool)
        requires
            self.wf(),
        ensures
            yes == (grammar::kind_at(self.views(), self.position()) == TokenType::Eof),
    {
        match self.kind() {
            TokenType::Eof => true,
            _ => false,
        }
    }

    /// Moves behind the current token, unless it is `Eof`, and gives a copy
    /// of the token before the new position.
    pub fn advance(&mut self) -> (token: Token)
        requires
            old(self).wf(),
        ensures
            final(self).wf(),
            final(self).views() == old(self).views(),
            final(self).position() == (if grammar::kind_at(old(self).views(), old(self).position())
                == TokenType::Eof {
                old(self).position()
            } else {
                old(self).position() + 1
            }),
            token@ == grammar::previous_at(final(self).views(), final(self).position()),
    {
        if !self.is_at_end() {
            let n = self.tokens.len();
            proof {
                let views = tokens_view(self.tokens@);
                assert(views.last().token_type == TokenType::Eof);
                assert(self.current + 1 < n);
            }
            self.current += 1;
        }
        self.previous()
    }

    /// Whether the current token is of `kind`; never so at `Eof`.
    pub fn check(&self, token_type: TokenType) -> (yes: bool)
        requires
            self.wf(),
        ensures
            yes == (token_type != TokenType::Eof && grammar::kind_at(
                self.views(),
                self.position(),
            ) == token_type),
    {
        if self.is_at_end() {
            return false;
        }
        self.kind() == token_type
    }

    /// Moves behind the current token if it is of `kind`.
    pub fn match_token(&mut self, token_type: TokenType) -> (matched: bool)
        requires
            old(self).wf(),
        ensures
            final(self).wf(),
            final(self).views() == old(self).views(),
            matched == (token_type != TokenType::Eof && grammar::kind_at(
                old(self).views(),
                old(self).position(),
            ) == token_type),
            final(self).position() == (if matched {
                old(self).position() + 1
            } else {
                old(self).position()
            }),
    {
        if self.check(token_type) {
            self.advance();
            true
        } else {
            false
        }
    }

    /// Moves behind the current token if it is of one of `types`.
    pub fn match_tokens(&mut self, types: Vec<TokenType>) -> (matched: bool)
        requires
            old(self).wf(),
        ensures
            final(self).wf(),
            final(self).views() == old(self).views(),
            matched == (grammar::kind_at(old(self).views(), old(self).position())
                != TokenType::Eof && types@.contains(
                grammar::kind_at(old(self).views(), old(self).position()),
            )),
            final(self).position() == (if matched {
                old(self).position() + 1
            } else {
                old(self).position()
            }),
    {
        let ghost kind = grammar::kind_at(self.views(), self.position());
        let mut i: usize = 0;
        while i < types.len()
            invariant
                self.wf(),
                *self == *old(self),
                i <= types.len(),
                kind == grammar::kind_at(self.views(), self.position()),
                forall|k: int| 0 <= k < i ==> !(types@[k] != TokenType::Eof && types@[k] == kind),
            decreases types.len() - i,
        {
            if self.check(types[i]) {
                self.advance();
                return true;
            }
            i += 1;
        }
        false
    }

    /// Moves behind the current token, which is not `Eof`, and gives it.
    fn take(&mut self) -> (token: Token)
        requires
            old(self).wf(),
            grammar::kind_at(old(self).views(), old(self).position()) != TokenType::Eof,
        ensures
            final(self).wf(),
            final(self).views() == old(self).views(),
            final(self).position() == old(self).position() + 1,
            token@ == old(self).views()[old(self).position()],
    {
        let token = self.tokens[self.current].clone();
        let n = self.tokens.len();
        proof {
            let views = tokens_view(self.tokens@);
            assert(views.last().token_type == TokenType::Eof);
            assert(self.current + 1 < n);
        }
        self.current += 1;
        token
    }

    /// The error of a token that was required and is not there: it names
    /// the token that stands in its place.
    fn missing(&self) -> (error: InterpreterError)
        requires
            self.wf(),
        ensures
            error@ == InterpreterErrorView::ParserError(
                grammar::expected(self.views(), self.position()),
            ),
            grammar::stands_at(self.views(), self.position(), failure(error)),
    {
        let found = self.peek();
        InterpreterError::parser_error(ParserErrorKind::ExpectExpression(found.lexeme, found.line))
    }

    /// Requires a token of `kind`: moves behind it and gives it, or fails
    /// where it stands.
    fn consume(&mut self, token_type: TokenType) -> (result: InterpreterResult<Token>)
        requires
            old(self).wf(),
        ensures
            final(self).wf(),
            final(self).views() == old(self).views(),
            token_outcome(result, final(self).position()) == grammar::consume(
                old(self).views(),
                old(self).position(),
                token_type,
            ),
            result is Ok ==> final(self).position() == old(self).position() + 1,
            result is Err ==> final(self).position() == old(self).position(),
            result is Err ==> result->Err_0@ is ParserError,
            result is Err ==> grammar::stands_at(old(self).views(), final(self).position(), failure(result->Err_0)),
    {
        if self.check(token_type) {
            return Ok(self.take());
        }
        Err(self.missing())
    }

    /// Too many entries in a list: the error carries the line of the entry
    /// that is one too many.
    fn too_many(&self) -> (error: InterpreterError)
        requires
            self.wf(),
        ensures
            error@ == InterpreterErrorView::ParserError(
                ParserErrorView::InvalidParametsCount(self.views()[self.position()].line),
            ),
            grammar::stands_at(self.views(), self.position(), failure(error)),
    {
        InterpreterError::parser_error(ParserErrorKind::InvalidParametsCount(self.line()))
    }

    // -----------------------------------------------------------------------
    // Expressions
    // -----------------------------------------------------------------------

    /// Reads the program: the expressions of the stream up to `Eof`, each
    /// with the line of the token behind it.
    pub fn parse(&mut self) -> (result: InterpreterResult<Vec<(Expr, usize)>>)
        ensures
            final(self).views() == old(self).views(),
            match result {
                Ok(program) => grammar::parse(old(self).views(), old(self).position()) == Ok::<
                    Seq<(ExprView, usize)>,
                    ParserErrorView,
                >(statement_views(program@)),
                Err(error) => grammar::parse(old(self).views(), old(self).position()) == Err::<
                    Seq<(ExprView, usize)>,
                    ParserErrorView,
                >(failure(error)) && error@ is ParserError,
            },
            result is Err && grammar::well_formed(old(self).views()) && 0 <= old(self).position()
                < old(self).views().len() ==> grammar::stands_at(
                old(self).views(),
                final(self).position(),
                failure(result->Err_0),
            ),
    {
        if !self.ready() {
            let n = self.tokens.len();
            assert(tokens_view(self.tokens@).len() == n);
            let line = if n > 0 {
                assert(tokens_view(self.tokens@).last() == self.tokens@[n - 1]@);
                self.tokens[n - 1].line
            } else {
                0
            };
            return Err(InterpreterError::parser_error(ParserErrorKind::UnexpectedEOF(line)));
        }
        let ghost views = self.views();
        let ghost start = self.position();
        let mut statements: Vec<(Expr, usize)> = Vec::new();
        assert(statement_views(statements@) =~= Seq::empty());
        while !self.is_at_end()
            invariant
                self.wf(),
                self.views() == views,
                views == old(self).views(),
                start == old(self).position(),
                grammar::program(views, self.position(), statement_views(statements@))
                    == grammar::program(views, start, Seq::empty()),
            decreases views.len() - self.position(),
        {
            match self.expression() {
                Ok(stmt) => {
                    let line = self.line();
                    proof {
                        lemma_statement_views_push(statements@, stmt, line);
                    }
                    statements.push((stmt, line));
                },
                Err(error) => {
                    return Err(error);
                },
            }
        }
        Ok(statements)
    }

    fn expression(&mut self) -> (result: InterpreterResult<Expr>)
        requires
            old(self).wf(),
        ensures
            final(self).wf(),
            final(self).views() == old(self).views(),
            outcome(result, final(self).position()) == grammar::expression(
                old(self).views(),
                old(self).position(),
            ),
            result is Ok ==> final(self).position() > old(self).position(),
            result is Err ==> result->Err_0@ is ParserError,
            result is Err ==> grammar::stands_at(old(self).views(), final(self).position(), failure(result->Err_0)),
        decreases old(self).views().len() - old(self).position(), 6nat,
    {
        let ghost views = self.views();
        let ghost start = self.position();
        let mut expr = match self.logical() {
            Ok(expr) => expr,
            Err(error) => {
                return Err(error);
            },
        };
        loop
            invariant
                self.wf(),
                self.views() == views,
                views == old(self).views(),
                start == old(self).position(),
                self.position() > start,
                grammar::comparison_rest(views, self.position(), expr@) == grammar::expression(
                    views,
                    start,
                ),
            decreases views.len() - self.position(),
        {
            if !is_comparison_kind(self.kind()) {
                return Ok(expr);
            }
            let operator = self.take();
            let right = match self.logical() {
                Ok(right) => right,
                Err(error) => {
                    return Err(error);
                },
            };
            expr = Expr::binary(expr, operator, right);
        }
    }

    fn logical(&mut self) -> (result: InterpreterResult<Expr>)
        requires
            old(self).wf(),
        ensures
            final(self).wf(),
            final(self).views() == old(self).views(),
            outcome(result, final(self).position()) == grammar::logical(
                old(self).views(),
                old(self).position(),
            ),
            result is Ok ==> final(self).position() > old(self).position(),
            result is Err ==> result->Err_0@ is ParserError,
            result is Err ==> grammar::stands_at(old(self).views(), final(self).position(), failure(result->Err_0)),
        decreases old(self).views().len() - old(self).position(), 5nat,
    {
        let ghost views = self.views();
        let ghost start = self.position();
        let mut expr = match self.term() {
            Ok(expr) => expr,
            Err(error) => {
                return Err(error);
            },
        };
        loop
            invariant
                self.wf(),
                self.views() == views,
                views == old(self).views(),
                start == old(self).position(),
                self.position() > start,
                grammar::logical_rest(views, self.position(), expr@) == grammar::logical(
                    views,
                    start,
                ),
            decreases views.len() - self.position(),
        {
            if !is_logical_kind(self.kind()) {
                return Ok(expr);
            }
            let operator = self.take();
            let right = match self.term() {
                Ok(right) => right,
                Err(error) => {
                    return Err(error);
                },
            };
            expr = Expr::logical(expr, operator, right);
        }
    }

    fn term(&mut self) -> (result: InterpreterResult<Expr>)
        requires
            old(self).wf(),
        ensures
            final(self).wf(),
            final(self).views() == old(self).views(),
            outcome(result, final(self).position()) == grammar::term(
                old(self).views(),
                old(self).position(),
            ),
            result is Ok ==> final(self).position() > old(self).position(),
            result is Err ==> result->Err_0@ is ParserError,
            result is Err ==> grammar::stands_at(old(self).views(), final(self).position(), failure(result->Err_0)),
        decreases old(self).views().len() - old(self).position(), 4nat,
    {
        let ghost views = self.views();
        let ghost start = self.position();
        let mut expr = match self.factor() {
            Ok(expr) => expr,
            Err(error) => {
                return Err(error);
            },
        };
        loop
            invariant
                self.wf(),
                self.views() == views,
                views == old(self).views(),
                start == old(self).position(),
                self.position() > start,
                grammar::term_rest(views, self.position(), expr@) == grammar::term(views, start),
            decreases views.len() - self.position(),
        {
            if !is_sum_kind(self.kind()) {
                return Ok(expr);
            }
            let operator = self.take();
            let right = match self.factor() {
                Ok(right) => right,
                Err(error) => {
                    return Err(error);
                },
            };
            expr = Expr::binary(expr, operator, right);
        }
    }

    fn factor(&mut self) -> (result: InterpreterResult<Expr>)
        requires
            old(self).wf(),
        ensures
            final(self).wf(),
            final(self).views() == old(self).views(),
            outcome(result, final(self).position()) == grammar::factor(
                old(self).views(),
                old(self).position(),
            ),
            result is Ok ==> final(self).position() > old(self).position(),
            result is Err ==> result->Err_0@ is ParserError,
            result is Err ==> grammar::stands_at(old(self).views(), final(self).position(), failure(result->Err_0)),
        decreases old(self).views().len() - old(self).position(), 3nat,
    {
        let ghost views = self.views();
        let ghost start = self.position();
        let mut expr = match self.unary() {
            Ok(expr) => expr,
            Err(error) => {
                return Err(error);
            },
        };
        loop
            invariant
                self.wf(),
                self.views() == views,
                views == old(self).views(),
                start == old(self).position(),
                self.position() > start,
                grammar::factor_rest(views, self.position(), expr@) == grammar::factor(
                    views,
                    start,
                ),
            decreases views.len() - self.position(),
        {
            if !is_product_kind(self.kind()) {
                return Ok(expr);
            }
            let operator = self.take();
            let right = match self.unary() {
                Ok(right) => right,
                Err(error) => {
                    return Err(error);
                },
            };
            expr = Expr::binary(expr, operator, right);
        }
    }

    fn unary(&mut self) -> (result: InterpreterResult<Expr>)
        requires
            old(self).wf(),
        ensures
            final(self).wf(),
            final(self).views() == old(self).views(),
            outcome(result, final(self).position()) == grammar::unary(
                old(self).views(),
                old(self).position(),
            ),
            result is Ok ==> final(self).position() > old(self).position(),
            result is Err ==> result->Err_0@ is ParserError,
            result is Err ==> grammar::stands_at(old(self).views(), final(self).position(), failure(result->Err_0)),
        decreases old(self).views().len() - old(self).position(), 2nat,
    {
        if is_unary_kind(self.kind()) {
            let operator = self.take();
            let right = self.unary()?;
            return Ok(Expr::unary(operator, right));
        }
        self.primary()
    }

    fn primary(&mut self) -> (result: InterpreterResult<Expr>)
        requires
            old(self).wf(),
        ensures
            final(self).wf(),
            final(self).views() == old(self).views(),
            outcome(result, final(self).position()) == grammar::primary(
                old(self).views(),
                old(self).position(),
            ),
            result is Ok ==> final(self).position() > old(self).position(),
            result is Err ==> result->Err_0@ is ParserError,
            result is Err ==> grammar::stands_at(old(self).views(), final(self).position(), failure(result->Err_0)),
        decreases old(self).views().len() - old(self).position(), 1nat,
    {
        let kind = self.kind();
        match kind {
            TokenType::Try => {
                self.take();
                self.try_statement()
            },
            TokenType::LeftBrace => {
                self.take();
                self.block()
            },
            TokenType::Class => {
                self.take();
                self.class_declaration()
            },
            TokenType::Fun => {
                self.take();
                self.function_declaration(false)
            },
            TokenType::Return => {
                self.take();
                self.return_statement()
            },
            TokenType::Var => {
                self.take();
                self.var_declaration()
            },
            TokenType::Import => {
                self.take();
                self.import_statement()
            },
            TokenType::If => {
                self.take();
                self.if_statement()
            },
            TokenType::While => {
                self.take();
                self.while_statement()
            },
            TokenType::For => {
                self.take();
                self.for_statement()
            },
            TokenType::New => {
                self.take();
                self.class_instantiation()
            },
            TokenType::Async => {
                self.take();
                self.async_function_declaration()
            },
            TokenType::Await => {
                self.take();
                self.await_statement()
            },
            TokenType::IDENTIfIER => {
                self.take();
                self.identifier_form()
            },
            TokenType::LeftParen => {
                self.take();
                let expr = self.expression()?;
                self.consume(TokenType::RightParen)?;
                Ok(Expr::grouping(expr))
            },
            TokenType::False => {
                let token = self.take();
                Ok(Expr::literal(token, String::from_str("false")))
            },
            TokenType::True => {
                let token = self.take();
                Ok(Expr::literal(token, String::from_str("true")))
            },
            TokenType::Nil => {
                let token = self.take();
                Ok(Expr::literal(token, String::from_str("nil")))
            },
            TokenType::Number | TokenType::STRING => {
                let token = self.take();
                let text = match &token.literal {
                    Some(literal) => literal.clone(),
                    None => String::from_str("null"),
                };
                Ok(Expr::literal(token, text))
            },
            TokenType::LeftBracket => {
                self.take();
                self.array()
            },
            TokenType::Dict => {
                self.take();
                self.dictionary()
            },
            TokenType::Semicolon => {
                self.take();
                Ok(Expr::nothing())
            },
            _ => {
                let token = self.peek();
                Err(
                    InterpreterError::parser_error(
                        ParserErrorKind::ExpectExpression(token.lexeme, token.line),
                    ),
                )
            },
        }
    }

    /// What follows an identifier: an index, a call, a member, an
    /// assignment, or nothing.
    fn identifier_form(&mut self) -> (result: InterpreterResult<Expr>)
        requires
            old(self).wf(),
            old(self).position() > 0,
        ensures
            final(self).wf(),
            final(self).views() == old(self).views(),
            outcome(result, final(self).position()) == grammar::identifier_form(
                old(self).views(),
                old(self).position(),
            ),
            result is Ok ==> final(self).position() >= old(self).position(),
            result is Err ==> result->Err_0@ is ParserError,
            result is Err ==> grammar::stands_at(old(self).views(), final(self).position(), failure(result->Err_0)),
        decreases old(self).views().len() - old(self).position(), 9nat,
    {
        match self.kind() {
            TokenType::LeftBracket => self.array_dictionary_access(),
            TokenType::LeftParen => self.call(),
            TokenType::Dot => self.instance_or_get_or_set(),
            TokenType::Equal => self.assignment(),
            _ => self.variable(),
        }
    }

    fn variable(&mut self) -> (result: InterpreterResult<Expr>)
        requires
            old(self).wf(),
        ensures
            final(self).wf(),
            *final(self) == *old(self),
            result matches Ok(expr) && expr@ == ExprView::Variable(
                grammar::previous_at(old(self).views(), old(self).position()),
            ),
    {
        let name = self.previous();
        Ok(Expr::variable(name))
    }

    /// `name = value`, at the `=`.
    fn assignment(&mut self) -> (result: InterpreterResult<Expr>)
        requires
            old(self).wf(),
            old(self).position() > 0,
            grammar::kind_at(old(self).views(), old(self).position()) == TokenType::Equal,
        ensures
            final(self).wf(),
            final(self).views() == old(self).views(),
            outcome(result, final(self).position()) == grammar::identifier_form(
                old(self).views(),
                old(self).position(),
            ),
            result is Ok ==> final(self).position() >= old(self).position(),
            result is Err ==> result->Err_0@ is ParserError,
            result is Err ==> grammar::stands_at(old(self).views(), final(self).position(), failure(result->Err_0)),
        decreases old(self).views().len() - old(self).position(), 8nat,
    {
        let name = self.previous();
        self.take();
        let value = self.expression()?;
        Ok(Expr::assign(name, value))
    }

    /// `name[index]` or `name[index] = value`, at the bracket.
    fn array_dictionary_access(&mut self) -> (result: InterpreterResult<Expr>)
        requires
            old(self).wf(),
            old(self).position() > 0,
            grammar::kind_at(old(self).views(), old(self).position()) == TokenType::LeftBracket,
        ensures
            final(self).wf(),
            final(self).views() == old(self).views(),
            outcome(result, final(self).position()) == grammar::identifier_form(
                old(self).views(),
                old(self).position(),
            ),
            result is Ok ==> final(self).position() >= old(self).position(),
            result is Err ==> result->Err_0@ is ParserError,
            result is Err ==> grammar::stands_at(old(self).views(), final(self).position(), failure(result->Err_0)),
        decreases old(self).views().len() - old(self).position(), 8nat,
    {
        let name: Token = self.previous();
        self.take();
        let index = self.expression()?;
        self.consume(TokenType::RightBracket)?;
        match self.kind() {
            TokenType::Equal => {
                self.take();
                let new_value = self.expression()?;
                Ok(Expr::set_member(name, index, new_value))
            },
            _ => Ok(Expr::get(Expr::variable(name), index)),
        }
    }

    /// `name.field`, `name.field = value` or `name.field(args)`, at the
    /// dot.
    fn instance_or_get_or_set(&mut self) -> (result: InterpreterResult<Expr>)
        requires
            old(self).wf(),
            old(self).position() > 0,
            grammar::kind_at(old(self).views(), old(self).position()) == TokenType::Dot,
        ensures
            final(self).wf(),
            final(self).views() == old(self).views(),
            outcome(result, final(self).position()) == grammar::identifier_form(
                old(self).views(),
                old(self).position(),
            ),
            result is Ok ==> final(self).position() >= old(self).position(),
            result is Err ==> result->Err_0@ is ParserError,
            result is Err ==> grammar::stands_at(old(self).views(), final(self).position(), failure(result->Err_0)),
        decreases old(self).views().len() - old(self).position(), 8nat,
    {
        let name = self.previous();
        self.take();
        let field = self.consume(TokenType::IDENTIfIER)?;
        match self.kind() {
            TokenType::Equal => {
                self.take();
                let new_value = self.expression()?;
                Ok(Expr::set_member(name, key_of(field), new_value))
            },
            TokenType::LeftParen => {
                self.take();
                let arguments = self.arguments()?;
                self.consume(TokenType::RightParen)?;
                Ok(Expr::method_call(Expr::variable(name), Expr::variable(field), arguments))
            },
            _ => Ok(Expr::get(Expr::variable(name), key_of(field))),
        }
    }

    /// The calls of `name`, at the opening parenthesis.
    fn call(&mut self) -> (result: InterpreterResult<Expr>)
        requires
            old(self).wf(),
            old(self).position() > 0,
            grammar::kind_at(old(self).views(), old(self).position()) == TokenType::LeftParen,
        ensures
            final(self).wf(),
            final(self).views() == old(self).views(),
            outcome(result, final(self).position()) == grammar::identifier_form(
                old(self).views(),
                old(self).position(),
            ),
            result is Ok ==> final(self).position() >= old(self).position(),
            result is Err ==> result->Err_0@ is ParserError,
            result is Err ==> grammar::stands_at(old(self).views(), final(self).position(), failure(result->Err_0)),
        decreases old(self).views().len() - old(self).position(), 8nat,
    {
        let ghost views = self.views();
        let ghost start = self.position();
        let mut expr: Expr = Expr::variable(self.previous());
        loop
            invariant
                self.wf(),
                self.views() == views,
                views == old(self).views(),
                start == old(self).position(),
                self.position() >= start,
                grammar::calls(views, self.position(), expr@) == grammar::identifier_form(
                    views,
                    start,
                ),
            decreases views.len() - self.position(),
        {
            match self.kind() {
                TokenType::LeftParen => {},
                _ => {
                    return Ok(expr);
                },
            }
            self.take();
            let arguments = match self.arguments() {
                Ok(arguments) => arguments,
                Err(error) => {
                    return Err(error);
                },
            };
            match self.consume(TokenType::RightParen) {
                Ok(_) => {},
                Err(error) => {
                    return Err(error);
                },
            }
            expr = Expr::call(expr, arguments);
        }
    }

    /// The expressions of a list up to the token that closes it.
    fn list(&mut self, closing: TokenType) -> (result: InterpreterResult<Vec<Expr>>)
        requires
            old(self).wf(),
        ensures
            final(self).wf(),
            final(self).views() == old(self).views(),
            list_outcome(result, final(self).position()) == grammar::list(
                old(self).views(),
                old(self).position(),
                Seq::empty(),
                closing,
            ),
            result is Ok ==> final(self).position() >= old(self).position(),
            result is Err ==> result->Err_0@ is ParserError,
            result is Err ==> grammar::stands_at(old(self).views(), final(self).position(), failure(result->Err_0)),
        decreases old(self).views().len() - old(self).position(), 8nat,
    {
        let ghost views = self.views();
        let ghost start = self.position();
        let mut done: Vec<Expr> = Vec::new();
        assert(expr_views(done@) =~= Seq::empty());
        if self.kind() == closing {
            return Ok(done);
        }
        loop
            invariant
                self.wf(),
                self.views() == views,
                views == old(self).views(),
                start == old(self).position(),
                self.position() >= start,
                done@.len() > 0 || grammar::kind_at(views, self.position()) != closing,
                expr_views(done@).len() == done@.len(),
                grammar::list(views, self.position(), expr_views(done@), closing) == grammar::list(
                    views,
                    start,
                    Seq::empty(),
                    closing,
                ),
            decreases views.len() - self.position(),
        {
            if done.len() >= MAX_ENTRIES {
                return Err(self.too_many());
            }
            let item = match self.expression() {
                Ok(item) => item,
                Err(error) => {
                    return Err(error);
                },
            };
            proof {
                lemma_expr_views_push(done@, item);
            }
            done.push(item);
            match self.kind() {
                TokenType::Comma => {
                    self.take();
                },
                _ => {
                    return Ok(done);
                },
            }
        }
    }

    /// The arguments of a call, up to the closing parenthesis.
    fn arguments(&mut self) -> (result: InterpreterResult<Vec<Expr>>)
        requires
            old(self).wf(),
        ensures
            final(self).wf(),
            final(self).views() == old(self).views(),
            list_outcome(result, final(self).position()) == grammar::arguments(
                old(self).views(),
                old(self).position(),
                Seq::empty(),
            ),
            result is Ok ==> final(self).position() >= old(self).position(),
            result is Err ==> result->Err_0@ is ParserError,
            result is Err ==> grammar::stands_at(old(self).views(), final(self).position(), failure(result->Err_0)),
        decreases old(self).views().len() - old(self).position(), 9nat,
    {
        self.list(TokenType::RightParen)
    }

    /// `[ .. ]`, behind the opening bracket.
    fn array(&mut self) -> (result: InterpreterResult<Expr>)
        requires
            old(self).wf(),
        ensures
            final(self).wf(),
            final(self).views() == old(self).views(),
            outcome(result, final(self).position()) == grammar::array(
                old(self).views(),
                old(self).position(),
            ),
            result is Ok ==> final(self).position() >= old(self).position(),
            result is Err ==> result->Err_0@ is ParserError,
            result is Err ==> grammar::stands_at(old(self).views(), final(self).position(), failure(result->Err_0)),
        decreases old(self).views().len() - old(self).position(), 9nat,
    {
        let elements = self.list(TokenType::RightBracket)?;
        self.consume(TokenType::RightBracket)?;
        Ok(Expr::array(elements))
    }

    /// The entries of a dictionary up to the closing brace.
    fn entries(&mut self) -> (result: InterpreterResult<Vec<(Expr, Expr)>>)
        requires
            old(self).wf(),
        ensures
            final(self).wf(),
            final(self).views() == old(self).views(),
            pairs_outcome(result, final(self).position()) == grammar::entries(
                old(self).views(),
                old(self).position(),
                Seq::empty(),
            ),
            result is Ok ==> final(self).position() >= old(self).position(),
            result is Err ==> result->Err_0@ is ParserError,
            result is Err ==> grammar::stands_at(old(self).views(), final(self).position(), failure(result->Err_0)),
        decreases old(self).views().len() - old(self).position(), 8nat,
    {
        let ghost views = self.views();
        let ghost start = self.position();
        let mut done: Vec<(Expr, Expr)> = Vec::new();
        assert(pair_views(done@) =~= Seq::empty());
        if self.kind() == TokenType::RightBrace {
            return Ok(done);
        }
        loop
            invariant
                self.wf(),
                self.views() == views,
                views == old(self).views(),
                start == old(self).position(),
                self.position() >= start,
                done@.len() > 0 || grammar::kind_at(views, self.position())
                    != TokenType::RightBrace,
                pair_views(done@).len() == done@.len(),
                grammar::entries(views, self.position(), pair_views(done@)) == grammar::entries(
                    views,
                    start,
                    Seq::empty(),
                ),
            decreases views.len() - self.position(),
        {
            let key = match self.expression() {
                Ok(key) => key,
                Err(error) => {
                    return Err(error);
                },
            };
            match self.consume(TokenType::Colon) {
                Ok(_) => {},
                Err(error) => {
                    return Err(error);
                },
            }
            let value = match self.expression() {
                Ok(value) => value,
                Err(error) => {
                    return Err(error);
                },
            };
            proof {
                lemma_pair_views_push(done@, key, value);
            }
            done.push((key, value));
            match self.kind() {
                TokenType::Comma => {
                    self.take();
                },
                _ => {
                    return Ok(done);
                },
            }
        }
    }

    /// `dict { .. }`, behind the keyword.
    fn dictionary(&mut self) -> (result: InterpreterResult<Expr>)
        requires
            old(self).wf(),
        ensures
            final(self).wf(),
            final(self).views() == old(self).views(),
            outcome(result, final(self).position()) == grammar::dictionary(
                old(self).views(),
                old(self).position(),
            ),
            result is Ok ==> final(self).position() >= old(self).position(),
            result is Err ==> result->Err_0@ is ParserError,
            result is Err ==> grammar::stands_at(old(self).views(), final(self).position(), failure(result->Err_0)),
        decreases old(self).views().len() - old(self).position(), 9nat,
    {
        self.consume(TokenType::LeftBrace)?;
        let elements = self.entries()?;
        self.consume(TokenType::RightBrace)?;
        Ok(Expr::dictionary(elements))
    }

    // -----------------------------------------------------------------------
    // Statement-like forms
    // -----------------------------------------------------------------------

    /// The expressions of a block up to its closing brace.
    fn statements(&mut self) -> (result: InterpreterResult<Vec<Expr>>)
        requires
            old(self).wf(),
        ensures
            final(self).wf(),
            final(self).views() == old(self).views(),
            list_outcome(result, final(self).position()) == grammar::statements(
                old(self).views(),
                old(self).position(),
                Seq::empty(),
            ),
            result is Ok ==> final(self).position() >= old(self).position(),
            result is Err ==> result->Err_0@ is ParserError,
            result is Err ==> grammar::stands_at(old(self).views(), final(self).position(), failure(result->Err_0)),
        decreases old(self).views().len() - old(self).position(), 8nat,
    {
        let ghost views = self.views();
        let ghost start = self.position();
        let mut statements: Vec<Expr> = Vec::new();
        assert(expr_views(statements@) =~= Seq::empty());
        while !self.check(TokenType::RightBrace) && !self.is_at_end()
            invariant
                self.wf(),
                self.views() == views,
                views == old(self).views(),
                start == old(self).position(),
                self.position() >= start,
                grammar::statements(views, self.position(), expr_views(statements@))
                    == grammar::statements(views, start, Seq::empty()),
            decreases views.len() - self.position(),
        {
            let item = match self.expression() {
                Ok(item) => item,
                Err(error) => {
                    return Err(error);
                },
            };
            proof {
                lemma_expr_views_push(statements@, item);
            }
            statements.push(item);
        }
        Ok(statements)
    }

    /// `{ .. }`, behind the opening brace.
    fn block(&mut self) -> (result: InterpreterResult<Expr>)
        requires
            old(self).wf(),
        ensures
            final(self).wf(),
            final(self).views() == old(self).views(),
            outcome(result, final(self).position()) == grammar::block(
                old(self).views(),
                old(self).position(),
            ),
            result is Ok ==> final(self).position() > old(self).position(),
            result is Err ==> result->Err_0@ is ParserError,
            result is Err ==> grammar::stands_at(old(self).views(), final(self).position(), failure(result->Err_0)),
        decreases old(self).views().len() - old(self).position(), 9nat,
    {
        let statements = self.statements()?;
        self.consume(TokenType::RightBrace)?;
        Ok(Expr::block(statements))
    }

    /// The parameters of a function up to the closing parenthesis.
    fn parameters(&mut self) -> (result: InterpreterResult<Vec<Token>>)
        requires
            old(self).wf(),
        ensures
            final(self).wf(),
            final(self).views() == old(self).views(),
            match result {
                Ok(params) => grammar::parameters(
                    old(self).views(),
                    old(self).position(),
                    Seq::empty(),
                ) == Parsed::Done(tokens_view(params@), final(self).position()),
                Err(error) => grammar::parameters(
                    old(self).views(),
                    old(self).position(),
                    Seq::empty(),
                ) == Parsed::<Seq<TokenView>>::Failed(failure(error)) && error@ is ParserError
                    && grammar::stands_at(old(self).views(), final(self).position(), failure(error)),
            },
            result is Ok ==> final(self).position() >= old(self).position(),
    {
        let ghost views = self.views();
        let ghost start = self.position();
        let mut parameters: Vec<Token> = Vec::new();
        assert(tokens_view(parameters@) =~= Seq::empty());
        if self.kind() == TokenType::RightParen {
            return Ok(parameters);
        }
        loop
            invariant
                self.wf(),
                self.views() == views,
                views == old(self).views(),
                start == old(self).position(),
                self.position() >= start,
                parameters@.len() > 0 || grammar::kind_at(views, self.position())
                    != TokenType::RightParen,
                tokens_view(parameters@).len() == parameters@.len(),
                grammar::parameters(views, self.position(), tokens_view(parameters@))
                    == grammar::parameters(views, start, Seq::empty()),
            decreases views.len() - self.position(),
        {
            if parameters.len() >= MAX_ENTRIES {
                return Err(self.too_many());
            }
            let name = match self.consume(TokenType::IDENTIfIER) {
                Ok(name) => name,
                Err(error) => {
                    return Err(error);
                },
            };
            proof {
                lemma_tokens_view_push(parameters@, name);
            }
            parameters.push(name);
            match self.kind() {
                TokenType::Comma => {
                    self.take();
                },
                _ => {
                    return Ok(parameters);
                },
            }
        }
    }

    /// A function declaration, behind `fun`.
    fn function_declaration(&mut self, is_async: bool) -> (result: InterpreterResult<Expr>)
        requires
            old(self).wf(),
        ensures
            final(self).wf(),
            final(self).views() == old(self).views(),
            outcome(result, final(self).position()) == grammar::function_declaration(
                old(self).views(),
                old(self).position(),
                is_async,
            ),
            result is Ok ==> final(self).position() > old(self).position(),
            result is Err ==> result->Err_0@ is ParserError,
            result is Err ==> grammar::stands_at(old(self).views(), final(self).position(), failure(result->Err_0)),
        decreases old(self).views().len() - old(self).position(), 9nat,
    {
        let name: Token = self.consume(TokenType::IDENTIfIER)?;
        self.consume(TokenType::LeftParen)?;
        let parameters = self.parameters()?;
        self.consume(TokenType::RightParen)?;
        self.consume(TokenType::LeftBrace)?;
        let body = self.block()?;
        Ok(Expr::function(name, parameters, body, is_async))
    }

    /// An async function declaration, behind `async`.
    fn async_function_declaration(&mut self) -> (result: InterpreterResult<Expr>)
        requires
            old(self).wf(),
            old(self).position() > 0,
            old(self).views()[old(self).position() - 1].token_type == TokenType::Async,
        ensures
            final(self).wf(),
            final(self).views() == old(self).views(),
            outcome(result, final(self).position()) == grammar::primary(
                old(self).views(),
                old(self).position() - 1,
            ),
            result is Ok ==> final(self).position() > old(self).position(),
            result is Err ==> result->Err_0@ is ParserError,
            result is Err ==> grammar::stands_at(old(self).views(), final(self).position(), failure(result->Err_0)),
        decreases old(self).views().len() - old(self).position(), 10nat,
    {
        self.consume(TokenType::Fun)?;
        self.function_declaration(true)
    }

    /// `await operand`, behind `await`.
    fn await_statement(&mut self) -> (result: InterpreterResult<Expr>)
        requires
            old(self).wf(),
            old(self).position() > 0,
            old(self).views()[old(self).position() - 1].token_type == TokenType::Await,
        ensures
            final(self).wf(),
            final(self).views() == old(self).views(),
            outcome(result, final(self).position()) == grammar::primary(
                old(self).views(),
                old(self).position() - 1,
            ),
            result is Ok ==> final(self).position() > old(self).position(),
            result is Err ==> result->Err_0@ is ParserError,
            result is Err ==> grammar::stands_at(old(self).views(), final(self).position(), failure(result->Err_0)),
        decreases old(self).views().len() - old(self).position(), 2nat,
    {
        let expr = self.primary()?;
        Ok(Expr::awaiting(expr))
    }

    /// The members of a class up to its closing brace.
    fn members(&mut self) -> (result: InterpreterResult<Vec<Expr>>)
        requires
            old(self).wf(),
        ensures
            final(self).wf(),
            final(self).views() == old(self).views(),
            list_outcome(result, final(self).position()) == grammar::members(
                old(self).views(),
                old(self).position(),
                Seq::empty(),
            ),
            result is Ok ==> final(self).position() >= old(self).position(),
            result is Err ==> result->Err_0@ is ParserError,
            result is Err ==> grammar::stands_at(old(self).views(), final(self).position(), failure(result->Err_0)),
        decreases old(self).views().len() - old(self).position(), 10nat,
    {
        let ghost views = self.views();
        let ghost start = self.position();
        let mut methods: Vec<Expr> = Vec::new();
        assert(expr_views(methods@) =~= Seq::empty());
        while !self.check(TokenType::RightBrace) && !self.is_at_end()
            invariant
                self.wf(),
                self.views() == views,
                views == old(self).views(),
                start == old(self).position(),
                self.position() >= start,
                grammar::members(views, self.position(), expr_views(methods@)) == grammar::members(
                    views,
                    start,
                    Seq::empty(),
                ),
            decreases views.len() - self.position(),
        {
            let method = self.check(TokenType::IDENTIfIER) && self.kind_after()
                == TokenType::LeftParen;
            let parsed = if method {
                self.function_declaration(false)
            } else {
                self.expression()
            };
            let item = match parsed {
                Ok(item) => item,
                Err(error) => {
                    return Err(error);
                },
            };
            proof {
                lemma_expr_views_push(methods@, item);
            }
            methods.push(item);
        }
        Ok(methods)
    }

    /// A class declaration, behind `class`.
    fn class_declaration(&mut self) -> (result: InterpreterResult<Expr>)
        requires
            old(self).wf(),
        ensures
            final(self).wf(),
            final(self).views() == old(self).views(),
            outcome(result, final(self).position()) == grammar::class_declaration(
                old(self).views(),
                old(self).position(),
            ),
            result is Ok ==> final(self).position() > old(self).position(),
            result is Err ==> result->Err_0@ is ParserError,
            result is Err ==> grammar::stands_at(old(self).views(), final(self).position(), failure(result->Err_0)),
        decreases old(self).views().len() - old(self).position(), 11nat,
    {
        let name = self.consume(TokenType::IDENTIfIER)?;
        self.consume(TokenType::LeftBrace)?;
        let methods = self.members()?;
        self.consume(TokenType::RightBrace)?;
        Ok(Expr::class(name, methods))
    }

    /// `new Name(args)`, behind `new`.
    fn class_instantiation(&mut self) -> (result: InterpreterResult<Expr>)
        requires
            old(self).wf(),
        ensures
            final(self).wf(),
            final(self).views() == old(self).views(),
            outcome(result, final(self).position()) == grammar::class_instantiation(
                old(self).views(),
                old(self).position(),
            ),
            result is Ok ==> final(self).position() > old(self).position(),
            result is Err ==> result->Err_0@ is ParserError,
            result is Err ==> grammar::stands_at(old(self).views(), final(self).position(), failure(result->Err_0)),
        decreases old(self).views().len() - old(self).position(), 10nat,
    {
        let class_name = self.consume(TokenType::IDENTIfIER)?;
        let class = Expr::variable(class_name);
        self.consume(TokenType::LeftParen)?;
        let arguments = self.arguments()?;
        self.consume(TokenType::RightParen)?;
        Ok(Expr::call(class, arguments))
    }

    /// `return`, behind the keyword.
    fn return_statement(&mut self) -> (result: InterpreterResult<Expr>)
        requires
            old(self).wf(),
            old(self).position() > 0,
        ensures
            final(self).wf(),
            final(self).views() == old(self).views(),
            outcome(result, final(self).position()) == grammar::return_statement(
                old(self).views(),
                old(self).position(),
            ),
            result is Ok ==> final(self).position() >= old(self).position(),
            result is Err ==> result->Err_0@ is ParserError,
            result is Err ==> grammar::stands_at(old(self).views(), final(self).position(), failure(result->Err_0)),
        decreases old(self).views().len() - old(self).position(), 9nat,
    {
        let keyword = self.previous();
        let value = match self.kind() {
            TokenType::Semicolon => Expr::nothing(),
            _ => self.expression()?,
        };
        Ok(Expr::returning(keyword, value))
    }

    /// `var name` or `var name = value`, behind `var`.
    fn var_declaration(&mut self) -> (result: InterpreterResult<Expr>)
        requires
            old(self).wf(),
        ensures
            final(self).wf(),
            final(self).views() == old(self).views(),
            outcome(result, final(self).position()) == grammar::var_declaration(
                old(self).views(),
                old(self).position(),
            ),
            result is Ok ==> final(self).position() > old(self).position(),
            result is Err ==> result->Err_0@ is ParserError,
            result is Err ==> grammar::stands_at(old(self).views(), final(self).position(), failure(result->Err_0)),
        decreases old(self).views().len() - old(self).position(), 9nat,
    {
        let name = self.consume(TokenType::IDENTIfIER)?;
        let initializer = if self.match_token(TokenType::Equal) {
            self.expression()?
        } else {
            Expr::nothing()
        };
        Ok(Expr::declare(name, initializer))
    }

    /// `import "path"`, behind `import`.
    fn import_statement(&mut self) -> (result: InterpreterResult<Expr>)
        requires
            old(self).wf(),
        ensures
            final(self).wf(),
            final(self).views() == old(self).views(),
            outcome(result, final(self).position()) == grammar::import_statement(
                old(self).views(),
                old(self).position(),
            ),
            result is Ok ==> final(self).position() > old(self).position(),
            result is Err ==> result->Err_0@ is ParserError,
            result is Err ==> grammar::stands_at(old(self).views(), final(self).position(), failure(result->Err_0)),
    {
        if !self.check(TokenType::STRING) {
            return Err(self.missing());
        }
        let found = self.peek();
        let text = match &found.literal {
            Some(literal) => Some(literal.clone()),
            None => None,
        };
        match text {
            Some(literal) => {
                let path = self.take();
                Ok(Expr::import(Expr::literal(path, literal)))
            },
            None => Err(InterpreterError::parser_error(ParserErrorKind::InvalidImport(found.line))),
        }
    }

    /// Passes the `else` that may stand here, behind one semicolon or not,
    /// and tells whether there was one.
    fn else_follows(&mut self) -> (found: bool)
        requires
            old(self).wf(),
        ensures
            final(self).wf(),
            final(self).views() == old(self).views(),
            (found, final(self).position()) == grammar::else_start(
                old(self).views(),
                old(self).position(),
            ),
            final(self).position() >= old(self).position(),
    {
        if self.match_token(TokenType::Semicolon) {
            self.match_token(TokenType::Else)
        } else {
            self.match_token(TokenType::Else)
        }
    }

    /// `if (condition) then` with an optional `else`, behind `if`.
    fn if_statement(&mut self) -> (result: InterpreterResult<Expr>)
        requires
            old(self).wf(),
        ensures
            final(self).wf(),
            final(self).views() == old(self).views(),
            outcome(result, final(self).position()) == grammar::if_statement(
                old(self).views(),
                old(self).position(),
            ),
            result is Ok ==> final(self).position() > old(self).position(),
            result is Err ==> result->Err_0@ is ParserError,
            result is Err ==> grammar::stands_at(old(self).views(), final(self).position(), failure(result->Err_0)),
        decreases old(self).views().len() - old(self).position(), 9nat,
    {
        self.consume(TokenType::LeftParen)?;
        let condition = self.expression()?;
        self.consume(TokenType::RightParen)?;
        let then_branch = self.expression()?;
        let else_branch = if self.else_follows() {
            if self.match_token(TokenType::If) {
                self.if_statement()?
            } else {
                self.expression()?
            }
        } else {
            Expr::nothing()
        };
        Ok(Expr::conditional(condition, then_branch, else_branch))
    }

    /// `while (condition) body`, behind `while`.
    fn while_statement(&mut self) -> (result: InterpreterResult<Expr>)
        requires
            old(self).wf(),
        ensures
            final(self).wf(),
            final(self).views() == old(self).views(),
            outcome(result, final(self).position()) == grammar::while_statement(
                old(self).views(),
                old(self).position(),
            ),
            result is Ok ==> final(self).position() > old(self).position(),
            result is Err ==> result->Err_0@ is ParserError,
            result is Err ==> grammar::stands_at(old(self).views(), final(self).position(), failure(result->Err_0)),
        decreases old(self).views().len() - old(self).position(), 9nat,
    {
        self.consume(TokenType::LeftParen)?;
        let condition = self.expression()?;
        self.consume(TokenType::RightParen)?;
        let body = self.expression()?;
        Ok(Expr::while_loop(condition, body))
    }

    /// The initialiser of a `for` and the semicolon behind it.
    fn for_initializer(&mut self) -> (result: InterpreterResult<Expr>)
        requires
            old(self).wf(),
        ensures
            final(self).wf(),
            final(self).views() == old(self).views(),
            outcome(result, final(self).position()) == grammar::for_initializer(
                old(self).views(),
                old(self).position(),
            ),
            result is Ok ==> final(self).position() > old(self).position(),
            result is Err ==> result->Err_0@ is ParserError,
            result is Err ==> grammar::stands_at(old(self).views(), final(self).position(), failure(result->Err_0)),
        decreases old(self).views().len() - old(self).position(), 10nat,
    {
        if self.match_token(TokenType::Semicolon) {
            return Ok(Expr::nothing());
        }
        let initializer = if self.match_token(TokenType::Var) {
            self.var_declaration()?
        } else {
            self.expression()?
        };
        if !initializer.is_nothing() {
            self.consume(TokenType::Semicolon)?;
        }
        Ok(initializer)
    }

    /// The rest of a `for`, behind its initialiser.
    #[verifier::rlimit(60)]
    fn for_rest(&mut self, initializer: Expr) -> (result: InterpreterResult<Expr>)
        requires
            old(self).wf(),
        ensures
            final(self).wf(),
            final(self).views() == old(self).views(),
            outcome(result, final(self).position()) == grammar::for_rest(
                old(self).views(),
                old(self).position(),
                initializer@,
            ),
            result is Ok ==> final(self).position() > old(self).position(),
            result is Err ==> result->Err_0@ is ParserError,
            result is Err ==> grammar::stands_at(old(self).views(), final(self).position(), failure(result->Err_0)),
        decreases old(self).views().len() - old(self).position(), 10nat,
    {
        let condition = if self.check(TokenType::Semicolon) {
            Expr::literal(
                Token {
                    token_type: TokenType::True,
                    lexeme: String::from_str("true"),
                    literal: None,
                    line: self.line(),
                },
                String::from_str("true"),
            )
        } else {
            self.expression()?
        };
        self.consume(TokenType::Semicolon)?;
        let increment = if self.check(TokenType::RightParen) {
            Expr::nothing()
        } else {
            self.expression()?
        };
        self.consume(TokenType::RightParen)?;
        let body = self.expression()?;
        Ok(Expr::for_loop(initializer, condition, increment, body))
    }

    /// `for (initialiser; condition; increment) body`, behind `for`.
    fn for_statement(&mut self) -> (result: InterpreterResult<Expr>)
        requires
            old(self).wf(),
        ensures
            final(self).wf(),
            final(self).views() == old(self).views(),
            outcome(result, final(self).position()) == grammar::for_statement(
                old(self).views(),
                old(self).position(),
            ),
            result is Ok ==> final(self).position() > old(self).position(),
            result is Err ==> result->Err_0@ is ParserError,
            result is Err ==> grammar::stands_at(old(self).views(), final(self).position(), failure(result->Err_0)),
        decreases old(self).views().len() - old(self).position(), 11nat,
    {
        self.consume(TokenType::LeftParen)?;
        let initializer = self.for_initializer()?;
        self.for_rest(initializer)
    }

    /// `try { .. } catch (name) { .. }`, behind `try`.
    fn try_statement(&mut self) -> (result: InterpreterResult<Expr>)
        requires
            old(self).wf(),
        ensures
            final(self).wf(),
            final(self).views() == old(self).views(),
            outcome(result, final(self).position()) == grammar::try_statement(
                old(self).views(),
                old(self).position(),
            ),
            result is Ok ==> final(self).position() > old(self).position(),
            result is Err ==> result->Err_0@ is ParserError,
            result is Err ==> grammar::stands_at(old(self).views(), final(self).position(), failure(result->Err_0)),
        decreases old(self).views().len() - old(self).position(), 10nat,
    {
        self.consume(TokenType::LeftBrace)?;
        let try_block = self.block()?;
        self.consume(TokenType::Catch)?;
        self.consume(TokenType::LeftParen)?;
        let error_param = self.consume(TokenType::IDENTIfIER)?;
        self.consume(TokenType::RightParen)?;
        self.consume(TokenType::LeftBrace)?;
        let catch_block = self.block()?;
        Ok(Expr::try_catch(try_block, error_param.lexeme, catch_block))
    }
}

} // verus!
