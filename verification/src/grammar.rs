//! The grammar: what the expression tree of a token stream is.
//!
//! Every function here reads the stream from a position on and gives what
//! it has read together with the position behind it, or the error that
//! ends the parse. The precedence ladder, lowest first, is comparison and
//! equality, `and` and `or`, sum, product, unary, primary.

use vstd::prelude::*;

use crate::error::ParserErrorView;
use crate::parser::{Expr, TryCatch};
use crate::tokenizer::{Token, TokenType, TokenView};

verus! {

/// An expression tree over mathematical values.
pub enum ExprView {
    Binary(Box<ExprView>, TokenView, Box<ExprView>),
    Logical(Box<ExprView>, TokenView, Box<ExprView>),
    Grouping(Box<ExprView>),
    Literal(TokenView, Seq<char>),
    Array(Seq<ExprView>),
    Dictionary(Seq<(ExprView, ExprView)>),
    Unary(TokenView, Box<ExprView>),
    Nil,
    Variable(TokenView),
    Assign(TokenView, Box<ExprView>),
    Let(TokenView, Box<ExprView>),
    Block(Seq<ExprView>),
    Function(TokenView, Seq<TokenView>, Box<ExprView>),
    AsyncFunction(TokenView, Seq<TokenView>, Box<ExprView>),
    Class(TokenView, Seq<ExprView>),
    Call(Option<Box<ExprView>>, Box<ExprView>, Seq<ExprView>),
    Await(Box<ExprView>),
    If(Box<ExprView>, Box<ExprView>, Box<ExprView>),
    While(Box<ExprView>, Box<ExprView>),
    For(Box<ExprView>, Box<ExprView>, Box<ExprView>, Box<ExprView>),
    Import(Box<ExprView>),
    Return(TokenView, Box<ExprView>),
    Get(Box<ExprView>, Box<ExprView>),
    SetMember(TokenView, Box<ExprView>, Box<ExprView>),
    TryCatch(Box<ExprView>, Seq<char>, Box<ExprView>),
}

pub open spec fn expr_views(items: Seq<Expr>) -> Seq<ExprView>
    decreases items,
{
    Seq::new(
        items.len(),
        |i: int|
            if 0 <= i < items.len() {
                tree(items[i])
            } else {
                ExprView::Nil
            },
    )
}

pub open spec fn pair_views(items: Seq<(Expr, Expr)>) -> Seq<(ExprView, ExprView)>
    decreases items,
{
    Seq::new(
        items.len(),
        |i: int|
            if 0 <= i < items.len() {
                (tree(items[i].0), tree(items[i].1))
            } else {
                (ExprView::Nil, ExprView::Nil)
            },
    )
}

pub open spec fn statement_views(items: Seq<(Expr, usize)>) -> Seq<(ExprView, usize)> {
    Seq::new(items.len(), |i: int| (tree(items[i].0), items[i].1))
}

pub open spec fn tokens_view(tokens: Seq<Token>) -> Seq<TokenView> {
    Seq::new(tokens.len(), |i: int| tokens[i]@)
}

/// The tree of an expression, as mathematical values.
pub open spec fn tree(expr: Expr) -> ExprView
    decreases expr,
{
    match expr {
        Expr::Binary(left, operator, right) => ExprView::Binary(
            Box::new(tree(*left)),
            operator@,
            Box::new(tree(*right)),
        ),
        Expr::Logical(left, operator, right) => ExprView::Logical(
            Box::new(tree(*left)),
            operator@,
            Box::new(tree(*right)),
        ),
        Expr::Grouping(inner) => ExprView::Grouping(Box::new(tree(*inner))),
        Expr::Literal(token, text) => ExprView::Literal(token@, text@),
        Expr::Array(items) => ExprView::Array(expr_views(items@)),
        Expr::Dictionary(items) => ExprView::Dictionary(pair_views(items@)),
        Expr::Unary(operator, operand) => ExprView::Unary(operator@, Box::new(tree(*operand))),
        Expr::Nil => ExprView::Nil,
        Expr::Variable(name) => ExprView::Variable(name@),
        Expr::Assign(name, value) => ExprView::Assign(name@, Box::new(tree(*value))),
        Expr::Let(name, value) => ExprView::Let(name@, Box::new(tree(*value))),
        Expr::Block(items) => ExprView::Block(expr_views(items@)),
        Expr::Function(name, params, body) => ExprView::Function(
            name@,
            tokens_view(params@),
            Box::new(tree(*body)),
        ),
        Expr::AsyncFunction(name, params, body) => ExprView::AsyncFunction(
            name@,
            tokens_view(params@),
            Box::new(tree(*body)),
        ),
        Expr::Class(name, members) => ExprView::Class(name@, expr_views(members@)),
        Expr::Call(owner, callee, arguments) => ExprView::Call(
            match owner {
                Some(receiver) => Some(Box::new(tree(*receiver))),
                None => None,
            },
            Box::new(tree(*callee)),
            expr_views(arguments@),
        ),
        Expr::Await(operand) => ExprView::Await(Box::new(tree(*operand))),
        Expr::If(condition, then_branch, else_branch) => ExprView::If(
            Box::new(tree(*condition)),
            Box::new(tree(*then_branch)),
            Box::new(tree(*else_branch)),
        ),
        Expr::While(condition, body) => ExprView::While(
            Box::new(tree(*condition)),
            Box::new(tree(*body)),
        ),
        Expr::For(initializer, condition, increment, body) => ExprView::For(
            Box::new(tree(*initializer)),
            Box::new(tree(*condition)),
            Box::new(tree(*increment)),
            Box::new(tree(*body)),
        ),
        Expr::Import(path) => ExprView::Import(Box::new(tree(*path))),
        Expr::Return(keyword, value) => ExprView::Return(keyword@, Box::new(tree(*value))),
        Expr::Get(object, name) => ExprView::Get(
            Box::new(tree(*object)),
            Box::new(tree(*name)),
        ),
        Expr::SetMember(target, name, value) => ExprView::SetMember(
            target@,
            Box::new(tree(*name)),
            Box::new(tree(*value)),
        ),
        Expr::TryCatch(handler) => ExprView::TryCatch(
            Box::new(tree(*handler.try_block)),
            handler.catch_param@,
            Box::new(tree(*handler.catch_block)),
        ),
    }
}

impl View for Expr {
    type V = ExprView;

    open spec fn view(&self) -> ExprView {
        tree(*self)
    }
}

pub proof fn lemma_expr_views_push(items: Seq<Expr>, item: Expr)
    ensures
        expr_views(items.push(item)) == expr_views(items).push(item@),
{
    assert(expr_views(items.push(item)) =~= expr_views(items).push(item@));
}

pub proof fn lemma_pair_views_push(items: Seq<(Expr, Expr)>, key: Expr, value: Expr)
    ensures
        pair_views(items.push((key, value))) == pair_views(items).push((key@, value@)),
{
    assert(pair_views(items.push((key, value))) =~= pair_views(items).push((key@, value@)));
}

pub proof fn lemma_statement_views_push(items: Seq<(Expr, usize)>, item: Expr, line: usize)
    ensures
        statement_views(items.push((item, line))) == statement_views(items).push((item@, line)),
{
    assert(statement_views(items.push((item, line))) =~= statement_views(items).push(
        (item@, line),
    ));
}

pub proof fn lemma_tokens_view_push(items: Seq<Token>, item: Token)
    ensures
        tokens_view(items.push(item)) == tokens_view(items).push(item@),
{
    assert(tokens_view(items.push(item)) =~= tokens_view(items).push(item@));
}

// ---------------------------------------------------------------------------
// Reading the stream
// ---------------------------------------------------------------------------

/// What was read and the position behind it, or the error that ends the
/// parse.
pub enum Parsed<T> {
    Done(T, int),
    Failed(ParserErrorView),
}

/// A stream that the parser can read: it has a token, and its last one is
/// `Eof`.
pub open spec fn well_formed(tokens: Seq<TokenView>) -> bool {
    tokens.len() > 0 && tokens.last().token_type == TokenType::Eof
}

/// The kind of the token at `pos`; past the end, `Eof`.
pub open spec fn kind_at(tokens: Seq<TokenView>, pos: int) -> TokenType {
    if 0 <= pos < tokens.len() {
        tokens[pos].token_type
    } else {
        TokenType::Eof
    }
}

/// The token before `pos`.
pub open spec fn previous_at(tokens: Seq<TokenView>, pos: int) -> TokenView {
    if pos > 0 {
        tokens[pos - 1]
    } else {
        tokens[0]
    }
}

/// The error of a token that was required and is not there: it names the
/// lexeme and the line of the token that stands in its place.
pub open spec fn expected(tokens: Seq<TokenView>, pos: int) -> ParserErrorView {
    ParserErrorView::ExpectExpression(tokens[pos].lexeme, tokens[pos].line)
}

/// Requires a token of `kind` at `pos`.
pub open spec fn consume(tokens: Seq<TokenView>, pos: int, kind: TokenType) -> Parsed<TokenView> {
    if kind != TokenType::Eof && kind_at(tokens, pos) == kind {
        Parsed::Done(tokens[pos], pos + 1)
    } else {
        Parsed::Failed(expected(tokens, pos))
    }
}

/// Whether `error` carries the line of the token at `pos`.
pub open spec fn stands_at(tokens: Seq<TokenView>, pos: int, error: ParserErrorView) -> bool {
    0 <= pos < tokens.len() && error.line() == tokens[pos].line
}

pub open spec fn is_comparison(kind: TokenType) -> bool {
    kind == TokenType::Greater || kind == TokenType::GreaterEqual || kind == TokenType::Less
        || kind == TokenType::LessEqual || kind == TokenType::BandEqual || kind
        == TokenType::EqualEqual
}

pub open spec fn is_logical(kind: TokenType) -> bool {
    kind == TokenType::Or || kind == TokenType::And
}

pub open spec fn is_sum(kind: TokenType) -> bool {
    kind == TokenType::Minus || kind == TokenType::Plus
}

pub open spec fn is_product(kind: TokenType) -> bool {
    kind == TokenType::Slash || kind == TokenType::Star || kind == TokenType::Modulo
}

pub open spec fn is_unary(kind: TokenType) -> bool {
    kind == TokenType::Bang || kind == TokenType::Minus
}

/// The most entries that a list of parameters or arguments may have.
pub const MAX_ENTRIES: usize = 255;

/// The string literal that stands for the name of a field: `o.x` reads the
/// member of `o` whose key is the text `x`.
pub open spec fn field_key(field: TokenView) -> ExprView {
    ExprView::Literal(
        TokenView {
            token_type: TokenType::STRING,
            lexeme: field.lexeme,
            literal: Some(field.lexeme),
            line: field.line,
        },
        field.lexeme,
    )
}

/// The condition of a `for` that has none.
pub open spec fn always(line: usize) -> ExprView {
    ExprView::Literal(
        TokenView { token_type: TokenType::True, lexeme: "true"@, literal: None, line },
        "true"@,
    )
}

// ---------------------------------------------------------------------------
// Expressions
// ---------------------------------------------------------------------------

/// An expression.
pub open spec fn expression(tokens: Seq<TokenView>, pos: int) -> Parsed<ExprView>
    decreases tokens.len() - pos, 6nat,
{
    match logical(tokens, pos) {
        Parsed::Done(left, next) => if pos < next <= tokens.len() {
            comparison_rest(tokens, next, left)
        } else {
            Parsed::Failed(ParserErrorView::UnknownError(0))
        },
        Parsed::Failed(error) => Parsed::Failed(error),
    }
}

/// The comparisons that follow `left`, taken from the left.
pub open spec fn comparison_rest(tokens: Seq<TokenView>, pos: int, left: ExprView) -> Parsed<
    ExprView,
>
    decreases tokens.len() - pos, 0nat,
{
    if 0 <= pos < tokens.len() && is_comparison(kind_at(tokens, pos)) {
        match logical(tokens, pos + 1) {
            Parsed::Done(right, next) => if pos < next <= tokens.len() {
                comparison_rest(
                    tokens,
                    next,
                    ExprView::Binary(Box::new(left), tokens[pos], Box::new(right)),
                )
            } else {
                Parsed::Failed(ParserErrorView::UnknownError(0))
            },
            Parsed::Failed(error) => Parsed::Failed(error),
        }
    } else {
        Parsed::Done(left, pos)
    }
}

pub open spec fn logical(tokens: Seq<TokenView>, pos: int) -> Parsed<ExprView>
    decreases tokens.len() - pos, 5nat,
{
    match term(tokens, pos) {
        Parsed::Done(left, next) => if pos < next <= tokens.len() {
            logical_rest(tokens, next, left)
        } else {
            Parsed::Failed(ParserErrorView::UnknownError(0))
        },
        Parsed::Failed(error) => Parsed::Failed(error),
    }
}

pub open spec fn logical_rest(tokens: Seq<TokenView>, pos: int, left: ExprView) -> Parsed<
    ExprView,
>
    decreases tokens.len() - pos, 0nat,
{
    if 0 <= pos < tokens.len() && is_logical(kind_at(tokens, pos)) {
        match term(tokens, pos + 1) {
            Parsed::Done(right, next) => if pos < next <= tokens.len() {
                logical_rest(
                    tokens,
                    next,
                    ExprView::Logical(Box::new(left), tokens[pos], Box::new(right)),
                )
            } else {
                Parsed::Failed(ParserErrorView::UnknownError(0))
            },
            Parsed::Failed(error) => Parsed::Failed(error),
        }
    } else {
        Parsed::Done(left, pos)
    }
}

pub open spec fn term(tokens: Seq<TokenView>, pos: int) -> Parsed<ExprView>
    decreases tokens.len() - pos, 4nat,
{
    match factor(tokens, pos) {
        Parsed::Done(left, next) => if pos < next <= tokens.len() {
            term_rest(tokens, next, left)
        } else {
            Parsed::Failed(ParserErrorView::UnknownError(0))
        },
        Parsed::Failed(error) => Parsed::Failed(error),
    }
}

pub open spec fn term_rest(tokens: Seq<TokenView>, pos: int, left: ExprView) -> Parsed<ExprView>
    decreases tokens.len() - pos, 0nat,
{
    if 0 <= pos < tokens.len() && is_sum(kind_at(tokens, pos)) {
        match factor(tokens, pos + 1) {
            Parsed::Done(right, next) => if pos < next <= tokens.len() {
                term_rest(
                    tokens,
                    next,
                    ExprView::Binary(Box::new(left), tokens[pos], Box::new(right)),
                )
            } else {
                Parsed::Failed(ParserErrorView::UnknownError(0))
            },
            Parsed::Failed(error) => Parsed::Failed(error),
        }
    } else {
        Parsed::Done(left, pos)
    }
}

pub open spec fn factor(tokens: Seq<TokenView>, pos: int) -> Parsed<ExprView>
    decreases tokens.len() - pos, 3nat,
{
    match unary(tokens, pos) {
        Parsed::Done(left, next) => if pos < next <= tokens.len() {
            factor_rest(tokens, next, left)
        } else {
            Parsed::Failed(ParserErrorView::UnknownError(0))
        },
        Parsed::Failed(error) => Parsed::Failed(error),
    }
}

pub open spec fn factor_rest(tokens: Seq<TokenView>, pos: int, left: ExprView) -> Parsed<ExprView>
    decreases tokens.len() - pos, 0nat,
{
    if 0 <= pos < tokens.len() && is_product(kind_at(tokens, pos)) {
        match unary(tokens, pos + 1) {
            Parsed::Done(right, next) => if pos < next <= tokens.len() {
                factor_rest(
                    tokens,
                    next,
                    ExprView::Binary(Box::new(left), tokens[pos], Box::new(right)),
                )
            } else {
                Parsed::Failed(ParserErrorView::UnknownError(0))
            },
            Parsed::Failed(error) => Parsed::Failed(error),
        }
    } else {
        Parsed::Done(left, pos)
    }
}

pub open spec fn unary(tokens: Seq<TokenView>, pos: int) -> Parsed<ExprView>
    decreases tokens.len() - pos, 2nat,
{
    if 0 <= pos < tokens.len() && is_unary(kind_at(tokens, pos)) {
        match unary(tokens, pos + 1) {
            Parsed::Done(operand, next) => Parsed::Done(
                ExprView::Unary(tokens[pos], Box::new(operand)),
                next,
            ),
            Parsed::Failed(error) => Parsed::Failed(error),
        }
    } else {
        primary(tokens, pos)
    }
}

/// A primary: a form that a keyword or a bracket introduces, a literal, or
/// a form that begins with an identifier.
pub open spec fn primary(tokens: Seq<TokenView>, pos: int) -> Parsed<ExprView>
    decreases tokens.len() - pos, 1nat,
{
    if 0 <= pos < tokens.len() {
        let token = tokens[pos];
        match token.token_type {
            TokenType::Try => try_statement(tokens, pos + 1),
            TokenType::LeftBrace => block(tokens, pos + 1),
            TokenType::Class => class_declaration(tokens, pos + 1),
            TokenType::Fun => function_declaration(tokens, pos + 1, false),
            TokenType::Return => return_statement(tokens, pos + 1),
            TokenType::Var => var_declaration(tokens, pos + 1),
            TokenType::Import => import_statement(tokens, pos + 1),
            TokenType::If => if_statement(tokens, pos + 1),
            TokenType::While => while_statement(tokens, pos + 1),
            TokenType::For => for_statement(tokens, pos + 1),
            TokenType::New => class_instantiation(tokens, pos + 1),
            TokenType::Async => match consume(tokens, pos + 1, TokenType::Fun) {
                Parsed::Done(_, next) => function_declaration(tokens, pos + 2, true),
                Parsed::Failed(error) => Parsed::Failed(error),
            },
            TokenType::Await => match primary(tokens, pos + 1) {
                Parsed::Done(operand, next) => Parsed::Done(
                    ExprView::Await(Box::new(operand)),
                    next,
                ),
                Parsed::Failed(error) => Parsed::Failed(error),
            },
            TokenType::IDENTIfIER => identifier_form(tokens, pos + 1),
            TokenType::LeftParen => match expression(tokens, pos + 1) {
                Parsed::Done(inner, next) => match consume(tokens, next, TokenType::RightParen) {
                    Parsed::Done(_, after) => Parsed::Done(
                        ExprView::Grouping(Box::new(inner)),
                        after,
                    ),
                    Parsed::Failed(error) => Parsed::Failed(error),
                },
                Parsed::Failed(error) => Parsed::Failed(error),
            },
            TokenType::False => Parsed::Done(ExprView::Literal(token, "false"@), pos + 1),
            TokenType::True => Parsed::Done(ExprView::Literal(token, "true"@), pos + 1),
            TokenType::Nil => Parsed::Done(ExprView::Literal(token, "nil"@), pos + 1),
            TokenType::Number | TokenType::STRING => Parsed::Done(
                ExprView::Literal(
                    token,
                    match token.literal {
                        Some(text) => text,
                        None => "null"@,
                    },
                ),
                pos + 1,
            ),
            TokenType::LeftBracket => array(tokens, pos + 1),
            TokenType::Dict => dictionary(tokens, pos + 1),
            TokenType::Semicolon => Parsed::Done(ExprView::Nil, pos + 1),
            _ => Parsed::Failed(ParserErrorView::ExpectExpression(token.lexeme, token.line)),
        }
    } else {
        Parsed::Failed(ParserErrorView::UnknownError(0))
    }
}

/// What follows an identifier, which stands before `pos`: an index, a
/// call, a member, an assignment, or nothing.
pub open spec fn identifier_form(tokens: Seq<TokenView>, pos: int) -> Parsed<ExprView>
    decreases tokens.len() - pos, 9nat,
{
    let name = previous_at(tokens, pos);
    match kind_at(tokens, pos) {
        TokenType::LeftBracket => match expression(tokens, pos + 1) {
            Parsed::Done(index, next) => match consume(tokens, next, TokenType::RightBracket) {
                Parsed::Done(_, after) => if after > pos && kind_at(tokens, after)
                    == TokenType::Equal {
                    match expression(tokens, after + 1) {
                        Parsed::Done(value, end) => Parsed::Done(
                            ExprView::SetMember(name, Box::new(index), Box::new(value)),
                            end,
                        ),
                        Parsed::Failed(error) => Parsed::Failed(error),
                    }
                } else {
                    Parsed::Done(
                        ExprView::Get(Box::new(ExprView::Variable(name)), Box::new(index)),
                        after,
                    )
                },
                Parsed::Failed(error) => Parsed::Failed(error),
            },
            Parsed::Failed(error) => Parsed::Failed(error),
        },
        TokenType::LeftParen => calls(tokens, pos, ExprView::Variable(name)),
        TokenType::Dot => match consume(tokens, pos + 1, TokenType::IDENTIfIER) {
            Parsed::Done(field, next) => match kind_at(tokens, next) {
                TokenType::Equal => match expression(tokens, next + 1) {
                    Parsed::Done(value, end) => Parsed::Done(
                        ExprView::SetMember(name, Box::new(field_key(field)), Box::new(value)),
                        end,
                    ),
                    Parsed::Failed(error) => Parsed::Failed(error),
                },
                TokenType::LeftParen => match arguments(tokens, next + 1, Seq::empty()) {
                    Parsed::Done(args, after) => match consume(
                        tokens,
                        after,
                        TokenType::RightParen,
                    ) {
                        Parsed::Done(_, end) => Parsed::Done(
                            ExprView::Call(
                                Some(Box::new(ExprView::Variable(name))),
                                Box::new(ExprView::Variable(field)),
                                args,
                            ),
                            end,
                        ),
                        Parsed::Failed(error) => Parsed::Failed(error),
                    },
                    Parsed::Failed(error) => Parsed::Failed(error),
                },
                _ => Parsed::Done(
                    ExprView::Get(Box::new(ExprView::Variable(name)), Box::new(field_key(field))),
                    next,
                ),
            },
            Parsed::Failed(error) => Parsed::Failed(error),
        },
        TokenType::Equal => match expression(tokens, pos + 1) {
            Parsed::Done(value, end) => Parsed::Done(
                ExprView::Assign(name, Box::new(value)),
                end,
            ),
            Parsed::Failed(error) => Parsed::Failed(error),
        },
        _ => Parsed::Done(ExprView::Variable(name), pos),
    }
}

/// The calls that follow `callee`: `f(a)(b)` calls what `f(a)` gives.
pub open spec fn calls(tokens: Seq<TokenView>, pos: int, callee: ExprView) -> Parsed<ExprView>
    decreases tokens.len() - pos, 8nat,
{
    if 0 <= pos < tokens.len() && kind_at(tokens, pos) == TokenType::LeftParen {
        match arguments(tokens, pos + 1, Seq::empty()) {
            Parsed::Done(args, next) => match consume(tokens, next, TokenType::RightParen) {
                Parsed::Done(_, after) => if after > pos {
                    calls(tokens, after, ExprView::Call(None, Box::new(callee), args))
                } else {
                    Parsed::Failed(ParserErrorView::UnknownError(0))
                },
                Parsed::Failed(error) => Parsed::Failed(error),
            },
            Parsed::Failed(error) => Parsed::Failed(error),
        }
    } else {
        Parsed::Done(callee, pos)
    }
}

/// The expressions of a list up to the token that closes it, `separated`
/// by commas; `done` holds those read so far. No list has more than
/// `MAX_ENTRIES` entries.
pub open spec fn list(
    tokens: Seq<TokenView>,
    pos: int,
    done: Seq<ExprView>,
    closing: TokenType,
) -> Parsed<Seq<ExprView>>
    decreases tokens.len() - pos, 8nat,
{
    if done.len() == 0 && kind_at(tokens, pos) == closing {
        Parsed::Done(done, pos)
    } else if done.len() >= MAX_ENTRIES {
        Parsed::Failed(ParserErrorView::InvalidParametsCount(tokens[pos].line))
    } else {
        match expression(tokens, pos) {
            Parsed::Done(item, next) => if next > pos && kind_at(tokens, next)
                == TokenType::Comma {
                list(tokens, next + 1, done.push(item), closing)
            } else {
                Parsed::Done(done.push(item), next)
            },
            Parsed::Failed(error) => Parsed::Failed(error),
        }
    }
}

/// No list has more than `MAX_ENTRIES` entries.
pub proof fn lemma_list_bounded(
    tokens: Seq<TokenView>,
    pos: int,
    done: Seq<ExprView>,
    closing: TokenType,
)
    requires
        done.len() <= MAX_ENTRIES,
    ensures
        list(tokens, pos, done, closing) matches Parsed::Done(items, _) ==> items.len()
            <= MAX_ENTRIES,
    decreases tokens.len() - pos,
{
    if !(done.len() == 0 && kind_at(tokens, pos) == closing) && done.len() < MAX_ENTRIES {
        match expression(tokens, pos) {
            Parsed::Done(item, next) => {
                if next > pos && kind_at(tokens, next) == TokenType::Comma {
                    lemma_list_bounded(tokens, next + 1, done.push(item), closing);
                }
            },
            Parsed::Failed(_) => {},
        }
    }
}

/// The arguments of a call, up to the closing parenthesis.
pub open spec fn arguments(tokens: Seq<TokenView>, pos: int, done: Seq<ExprView>) -> Parsed<
    Seq<ExprView>,
>
    decreases tokens.len() - pos, 9nat,
{
    list(tokens, pos, done, TokenType::RightParen)
}

/// `[ .. ]`, behind the opening bracket.
pub open spec fn array(tokens: Seq<TokenView>, pos: int) -> Parsed<ExprView>
    decreases tokens.len() - pos, 9nat,
{
    match list(tokens, pos, Seq::empty(), TokenType::RightBracket) {
        Parsed::Done(items, next) => match consume(tokens, next, TokenType::RightBracket) {
            Parsed::Done(_, after) => Parsed::Done(ExprView::Array(items), after),
            Parsed::Failed(error) => Parsed::Failed(error),
        },
        Parsed::Failed(error) => Parsed::Failed(error),
    }
}

/// The entries of a dictionary, each `key : value`, up to the closing
/// brace.
pub open spec fn entries(tokens: Seq<TokenView>, pos: int, done: Seq<(ExprView, ExprView)>)
    -> Parsed<Seq<(ExprView, ExprView)>>
    decreases tokens.len() - pos, 8nat,
{
    if done.len() == 0 && kind_at(tokens, pos) == TokenType::RightBrace {
        Parsed::Done(done, pos)
    } else {
        match expression(tokens, pos) {
            Parsed::Done(key, next) => match consume(tokens, next, TokenType::Colon) {
                Parsed::Done(_, after) => if after > pos {
                    match expression(tokens, after) {
                        Parsed::Done(value, end) => if end > pos && kind_at(tokens, end)
                            == TokenType::Comma {
                            entries(tokens, end + 1, done.push((key, value)))
                        } else {
                            Parsed::Done(done.push((key, value)), end)
                        },
                        Parsed::Failed(error) => Parsed::Failed(error),
                    }
                } else {
                    Parsed::Failed(ParserErrorView::UnknownError(0))
                },
                Parsed::Failed(error) => Parsed::Failed(error),
            },
            Parsed::Failed(error) => Parsed::Failed(error),
        }
    }
}

/// `dict { .. }`, behind the keyword.
pub open spec fn dictionary(tokens: Seq<TokenView>, pos: int) -> Parsed<ExprView>
    decreases tokens.len() - pos, 9nat,
{
    match consume(tokens, pos, TokenType::LeftBrace) {
        Parsed::Done(_, next) => match entries(tokens, pos + 1, Seq::empty()) {
            Parsed::Done(items, after) => match consume(tokens, after, TokenType::RightBrace) {
                Parsed::Done(_, end) => Parsed::Done(ExprView::Dictionary(items), end),
                Parsed::Failed(error) => Parsed::Failed(error),
            },
            Parsed::Failed(error) => Parsed::Failed(error),
        },
        Parsed::Failed(error) => Parsed::Failed(error),
    }
}

// ---------------------------------------------------------------------------
// Statement-like forms
// ---------------------------------------------------------------------------

/// The expressions of a block up to its closing brace or the end of the
/// stream; `done` holds those read so far.
pub open spec fn statements(tokens: Seq<TokenView>, pos: int, done: Seq<ExprView>) -> Parsed<
    Seq<ExprView>,
>
    decreases tokens.len() - pos, 8nat,
{
    if 0 <= pos < tokens.len() && kind_at(tokens, pos) != TokenType::RightBrace && kind_at(
        tokens,
        pos,
    ) != TokenType::Eof {
        match expression(tokens, pos) {
            Parsed::Done(item, next) => if pos < next <= tokens.len() {
                statements(tokens, next, done.push(item))
            } else {
                Parsed::Failed(ParserErrorView::UnknownError(0))
            },
            Parsed::Failed(error) => Parsed::Failed(error),
        }
    } else {
        Parsed::Done(done, pos)
    }
}

/// `{ .. }`, behind the opening brace.
pub open spec fn block(tokens: Seq<TokenView>, pos: int) -> Parsed<ExprView>
    decreases tokens.len() - pos, 9nat,
{
    match statements(tokens, pos, Seq::empty()) {
        Parsed::Done(items, next) => match consume(tokens, next, TokenType::RightBrace) {
            Parsed::Done(_, after) => Parsed::Done(ExprView::Block(items), after),
            Parsed::Failed(error) => Parsed::Failed(error),
        },
        Parsed::Failed(error) => Parsed::Failed(error),
    }
}

/// The parameters of a function up to the closing parenthesis; `done`
/// holds those read so far.
pub open spec fn parameters(tokens: Seq<TokenView>, pos: int, done: Seq<TokenView>) -> Parsed<
    Seq<TokenView>,
>
    decreases tokens.len() - pos,
{
    if done.len() == 0 && kind_at(tokens, pos) == TokenType::RightParen {
        Parsed::Done(done, pos)
    } else if done.len() >= MAX_ENTRIES {
        Parsed::Failed(ParserErrorView::InvalidParametsCount(tokens[pos].line))
    } else {
        match consume(tokens, pos, TokenType::IDENTIfIER) {
            Parsed::Done(name, next) => if kind_at(tokens, next) == TokenType::Comma {
                parameters(tokens, next + 1, done.push(name))
            } else {
                Parsed::Done(done.push(name), next)
            },
            Parsed::Failed(error) => Parsed::Failed(error),
        }
    }
}

/// No function has more than `MAX_ENTRIES` parameters.
pub proof fn lemma_parameters_bounded(tokens: Seq<TokenView>, pos: int, done: Seq<TokenView>)
    requires
        done.len() <= MAX_ENTRIES,
    ensures
        parameters(tokens, pos, done) matches Parsed::Done(names, _) ==> names.len()
            <= MAX_ENTRIES,
    decreases tokens.len() - pos,
{
    if !(done.len() == 0 && kind_at(tokens, pos) == TokenType::RightParen) && done.len()
        < MAX_ENTRIES {
        match consume(tokens, pos, TokenType::IDENTIfIER) {
            Parsed::Done(name, next) => {
                if kind_at(tokens, next) == TokenType::Comma {
                    lemma_parameters_bounded(tokens, next + 1, done.push(name));
                }
            },
            Parsed::Failed(_) => {},
        }
    }
}

/// A function declaration, behind `fun`: a name, the parameters between
/// parentheses, and a block.
pub open spec fn function_declaration(tokens: Seq<TokenView>, pos: int, is_async: bool)
    -> Parsed<ExprView>
    decreases tokens.len() - pos, 9nat,
{
    match consume(tokens, pos, TokenType::IDENTIfIER) {
        Parsed::Done(name, _) => match consume(tokens, pos + 1, TokenType::LeftParen) {
            Parsed::Done(_, _) => match parameters(tokens, pos + 2, Seq::empty()) {
                Parsed::Done(params, next) => match consume(tokens, next, TokenType::RightParen) {
                    Parsed::Done(_, after) => match consume(tokens, after, TokenType::LeftBrace) {
                        Parsed::Done(_, inside) => if inside > pos {
                            match block(tokens, inside) {
                                Parsed::Done(body, end) => Parsed::Done(
                                    if is_async {
                                        ExprView::AsyncFunction(name, params, Box::new(body))
                                    } else {
                                        ExprView::Function(name, params, Box::new(body))
                                    },
                                    end,
                                ),
                                Parsed::Failed(error) => Parsed::Failed(error),
                            }
                        } else {
                            Parsed::Failed(ParserErrorView::UnknownError(0))
                        },
                        Parsed::Failed(error) => Parsed::Failed(error),
                    },
                    Parsed::Failed(error) => Parsed::Failed(error),
                },
                Parsed::Failed(error) => Parsed::Failed(error),
            },
            Parsed::Failed(error) => Parsed::Failed(error),
        },
        Parsed::Failed(error) => Parsed::Failed(error),
    }
}

/// The members of a class up to its closing brace: a method, written as a
/// function declaration with or without `fun`, or any expression.
pub open spec fn members(tokens: Seq<TokenView>, pos: int, done: Seq<ExprView>) -> Parsed<
    Seq<ExprView>,
>
    decreases tokens.len() - pos, 10nat,
{
    if 0 <= pos < tokens.len() && kind_at(tokens, pos) != TokenType::RightBrace && kind_at(
        tokens,
        pos,
    ) != TokenType::Eof {
        let member = if kind_at(tokens, pos) == TokenType::IDENTIfIER && kind_at(tokens, pos + 1)
            == TokenType::LeftParen {
            function_declaration(tokens, pos, false)
        } else {
            expression(tokens, pos)
        };
        match member {
            Parsed::Done(item, next) => if pos < next <= tokens.len() {
                members(tokens, next, done.push(item))
            } else {
                Parsed::Failed(ParserErrorView::UnknownError(0))
            },
            Parsed::Failed(error) => Parsed::Failed(error),
        }
    } else {
        Parsed::Done(done, pos)
    }
}

/// A class declaration, behind `class`.
pub open spec fn class_declaration(tokens: Seq<TokenView>, pos: int) -> Parsed<ExprView>
    decreases tokens.len() - pos, 11nat,
{
    match consume(tokens, pos, TokenType::IDENTIfIER) {
        Parsed::Done(name, _) => match consume(tokens, pos + 1, TokenType::LeftBrace) {
            Parsed::Done(_, _) => match members(tokens, pos + 2, Seq::empty()) {
                Parsed::Done(items, next) => match consume(tokens, next, TokenType::RightBrace) {
                    Parsed::Done(_, end) => Parsed::Done(ExprView::Class(name, items), end),
                    Parsed::Failed(error) => Parsed::Failed(error),
                },
                Parsed::Failed(error) => Parsed::Failed(error),
            },
            Parsed::Failed(error) => Parsed::Failed(error),
        },
        Parsed::Failed(error) => Parsed::Failed(error),
    }
}

/// `new Name(args)`, behind `new`: a call of the class.
pub open spec fn class_instantiation(tokens: Seq<TokenView>, pos: int) -> Parsed<ExprView>
    decreases tokens.len() - pos, 10nat,
{
    match consume(tokens, pos, TokenType::IDENTIfIER) {
        Parsed::Done(name, _) => match consume(tokens, pos + 1, TokenType::LeftParen) {
            Parsed::Done(_, _) => match arguments(tokens, pos + 2, Seq::empty()) {
                Parsed::Done(args, next) => match consume(tokens, next, TokenType::RightParen) {
                    Parsed::Done(_, end) => Parsed::Done(
                        ExprView::Call(None, Box::new(ExprView::Variable(name)), args),
                        end,
                    ),
                    Parsed::Failed(error) => Parsed::Failed(error),
                },
                Parsed::Failed(error) => Parsed::Failed(error),
            },
            Parsed::Failed(error) => Parsed::Failed(error),
        },
        Parsed::Failed(error) => Parsed::Failed(error),
    }
}

/// `return`, behind the keyword: the value that follows, or none before a
/// semicolon.
pub open spec fn return_statement(tokens: Seq<TokenView>, pos: int) -> Parsed<ExprView>
    decreases tokens.len() - pos, 9nat,
{
    let keyword = previous_at(tokens, pos);
    if kind_at(tokens, pos) == TokenType::Semicolon {
        Parsed::Done(ExprView::Return(keyword, Box::new(ExprView::Nil)), pos)
    } else {
        match expression(tokens, pos) {
            Parsed::Done(value, next) => Parsed::Done(
                ExprView::Return(keyword, Box::new(value)),
                next,
            ),
            Parsed::Failed(error) => Parsed::Failed(error),
        }
    }
}

/// `var name` or `var name = value`, behind `var`.
pub open spec fn var_declaration(tokens: Seq<TokenView>, pos: int) -> Parsed<ExprView>
    decreases tokens.len() - pos, 9nat,
{
    match consume(tokens, pos, TokenType::IDENTIfIER) {
        Parsed::Done(name, _) => if kind_at(tokens, pos + 1) == TokenType::Equal {
            match expression(tokens, pos + 2) {
                Parsed::Done(value, next) => Parsed::Done(
                    ExprView::Let(name, Box::new(value)),
                    next,
                ),
                Parsed::Failed(error) => Parsed::Failed(error),
            }
        } else {
            Parsed::Done(ExprView::Let(name, Box::new(ExprView::Nil)), pos + 1)
        },
        Parsed::Failed(error) => Parsed::Failed(error),
    }
}

/// `import "path"`, behind `import`. A string token without payload is
/// refused where it stands.
pub open spec fn import_statement(tokens: Seq<TokenView>, pos: int) -> Parsed<ExprView> {
    match consume(tokens, pos, TokenType::STRING) {
        Parsed::Done(path, next) => match path.literal {
            Some(text) => Parsed::Done(
                ExprView::Import(Box::new(ExprView::Literal(path, text))),
                next,
            ),
            None => Parsed::Failed(ParserErrorView::InvalidImport(path.line)),
        },
        Parsed::Failed(error) => Parsed::Failed(error),
    }
}

/// Where the branch of `else` starts, if there is one at `pos`: behind an
/// `else` that may follow one semicolon. A semicolon is passed even where
/// no `else` follows it.
pub open spec fn else_start(tokens: Seq<TokenView>, pos: int) -> (bool, int) {
    if kind_at(tokens, pos) == TokenType::Semicolon {
        if kind_at(tokens, pos + 1) == TokenType::Else {
            (true, pos + 2)
        } else {
            (false, pos + 1)
        }
    } else if kind_at(tokens, pos) == TokenType::Else {
        (true, pos + 1)
    } else {
        (false, pos)
    }
}

/// `if (condition) then` with an optional `else`, behind `if`.
pub open spec fn if_statement(tokens: Seq<TokenView>, pos: int) -> Parsed<ExprView>
    decreases tokens.len() - pos, 9nat,
{
    match consume(tokens, pos, TokenType::LeftParen) {
        Parsed::Done(_, _) => match expression(tokens, pos + 1) {
            Parsed::Done(condition, next) => match consume(tokens, next, TokenType::RightParen) {
                Parsed::Done(_, after) => if after > pos {
                    match expression(tokens, after) {
                        Parsed::Done(then_branch, end) => {
                            let (has_else, start) = else_start(tokens, end);
                            if !has_else {
                                Parsed::Done(
                                    ExprView::If(
                                        Box::new(condition),
                                        Box::new(then_branch),
                                        Box::new(ExprView::Nil),
                                    ),
                                    start,
                                )
                            } else if end <= pos {
                                Parsed::Failed(ParserErrorView::UnknownError(0))
                            } else {
                                let other = if kind_at(tokens, start) == TokenType::If {
                                    if_statement(tokens, start + 1)
                                } else {
                                    expression(tokens, start)
                                };
                                match other {
                                    Parsed::Done(else_branch, last) => Parsed::Done(
                                        ExprView::If(
                                            Box::new(condition),
                                            Box::new(then_branch),
                                            Box::new(else_branch),
                                        ),
                                        last,
                                    ),
                                    Parsed::Failed(error) => Parsed::Failed(error),
                                }
                            }
                        },
                        Parsed::Failed(error) => Parsed::Failed(error),
                    }
                } else {
                    Parsed::Failed(ParserErrorView::UnknownError(0))
                },
                Parsed::Failed(error) => Parsed::Failed(error),
            },
            Parsed::Failed(error) => Parsed::Failed(error),
        },
        Parsed::Failed(error) => Parsed::Failed(error),
    }
}

/// `while (condition) body`, behind `while`.
pub open spec fn while_statement(tokens: Seq<TokenView>, pos: int) -> Parsed<ExprView>
    decreases tokens.len() - pos, 9nat,
{
    match consume(tokens, pos, TokenType::LeftParen) {
        Parsed::Done(_, _) => match expression(tokens, pos + 1) {
            Parsed::Done(condition, next) => match consume(tokens, next, TokenType::RightParen) {
                Parsed::Done(_, after) => if after > pos {
                    match expression(tokens, after) {
                        Parsed::Done(body, end) => Parsed::Done(
                            ExprView::While(Box::new(condition), Box::new(body)),
                            end,
                        ),
                        Parsed::Failed(error) => Parsed::Failed(error),
                    }
                } else {
                    Parsed::Failed(ParserErrorView::UnknownError(0))
                },
                Parsed::Failed(error) => Parsed::Failed(error),
            },
            Parsed::Failed(error) => Parsed::Failed(error),
        },
        Parsed::Failed(error) => Parsed::Failed(error),
    }
}

/// The initialiser of a `for` and the semicolon behind it: nothing, a
/// variable declaration, or an expression.
pub open spec fn for_initializer(tokens: Seq<TokenView>, pos: int) -> Parsed<ExprView>
    decreases tokens.len() - pos, 10nat,
{
    if kind_at(tokens, pos) == TokenType::Semicolon {
        Parsed::Done(ExprView::Nil, pos + 1)
    } else {
        let first = if kind_at(tokens, pos) == TokenType::Var {
            var_declaration(tokens, pos + 1)
        } else {
            expression(tokens, pos)
        };
        match first {
            Parsed::Done(initializer, next) => if initializer is Nil {
                Parsed::Done(initializer, next)
            } else {
                match consume(tokens, next, TokenType::Semicolon) {
                    Parsed::Done(_, after) => Parsed::Done(initializer, after),
                    Parsed::Failed(error) => Parsed::Failed(error),
                }
            },
            Parsed::Failed(error) => Parsed::Failed(error),
        }
    }
}

/// The rest of a `for`, behind its initialiser: the condition, which is
/// `true` where there is none, the increment, and the body.
pub open spec fn for_rest(tokens: Seq<TokenView>, pos: int, initializer: ExprView) -> Parsed<
    ExprView,
>
    decreases tokens.len() - pos, 10nat,
{
    let found = if kind_at(tokens, pos) == TokenType::Semicolon {
        Parsed::Done(always(tokens[pos].line), pos)
    } else {
        expression(tokens, pos)
    };
    match found {
        Parsed::Done(condition, next) => match consume(tokens, next, TokenType::Semicolon) {
            Parsed::Done(_, after) => if after > pos {
                let step = if kind_at(tokens, after) == TokenType::RightParen {
                    Parsed::Done(ExprView::Nil, after)
                } else {
                    expression(tokens, after)
                };
                match step {
                    Parsed::Done(increment, end) => match consume(
                        tokens,
                        end,
                        TokenType::RightParen,
                    ) {
                        Parsed::Done(_, inside) => if inside > pos {
                            match expression(tokens, inside) {
                                Parsed::Done(body, last) => Parsed::Done(
                                    ExprView::For(
                                        Box::new(initializer),
                                        Box::new(condition),
                                        Box::new(increment),
                                        Box::new(body),
                                    ),
                                    last,
                                ),
                                Parsed::Failed(error) => Parsed::Failed(error),
                            }
                        } else {
                            Parsed::Failed(ParserErrorView::UnknownError(0))
                        },
                        Parsed::Failed(error) => Parsed::Failed(error),
                    },
                    Parsed::Failed(error) => Parsed::Failed(error),
                }
            } else {
                Parsed::Failed(ParserErrorView::UnknownError(0))
            },
            Parsed::Failed(error) => Parsed::Failed(error),
        },
        Parsed::Failed(error) => Parsed::Failed(error),
    }
}

/// `for (initialiser; condition; increment) body`, behind `for`.
pub open spec fn for_statement(tokens: Seq<TokenView>, pos: int) -> Parsed<ExprView>
    decreases tokens.len() - pos, 11nat,
{
    match consume(tokens, pos, TokenType::LeftParen) {
        Parsed::Done(_, _) => match for_initializer(tokens, pos + 1) {
            Parsed::Done(initializer, next) => if pos < next <= tokens.len() {
                for_rest(tokens, next, initializer)
            } else {
                Parsed::Failed(ParserErrorView::UnknownError(0))
            },
            Parsed::Failed(error) => Parsed::Failed(error),
        },
        Parsed::Failed(error) => Parsed::Failed(error),
    }
}

/// `try { .. } catch (name) { .. }`, behind `try`.
pub open spec fn try_statement(tokens: Seq<TokenView>, pos: int) -> Parsed<ExprView>
    decreases tokens.len() - pos, 10nat,
{
    match consume(tokens, pos, TokenType::LeftBrace) {
        Parsed::Done(_, _) => match block(tokens, pos + 1) {
            Parsed::Done(try_block, next) => match consume(tokens, next, TokenType::Catch) {
                Parsed::Done(_, a) => match consume(tokens, a, TokenType::LeftParen) {
                    Parsed::Done(_, b) => match consume(tokens, b, TokenType::IDENTIfIER) {
                        Parsed::Done(name, c) => match consume(tokens, c, TokenType::RightParen) {
                            Parsed::Done(_, d) => match consume(tokens, d, TokenType::LeftBrace) {
                                Parsed::Done(_, inside) => if inside > pos {
                                    match block(tokens, inside) {
                                        Parsed::Done(catch_block, end) => Parsed::Done(
                                            ExprView::TryCatch(
                                                Box::new(try_block),
                                                name.lexeme,
                                                Box::new(catch_block),
                                            ),
                                            end,
                                        ),
                                        Parsed::Failed(error) => Parsed::Failed(error),
                                    }
                                } else {
                                    Parsed::Failed(ParserErrorView::UnknownError(0))
                                },
                                Parsed::Failed(error) => Parsed::Failed(error),
                            },
                            Parsed::Failed(error) => Parsed::Failed(error),
                        },
                        Parsed::Failed(error) => Parsed::Failed(error),
                    },
                    Parsed::Failed(error) => Parsed::Failed(error),
                },
                Parsed::Failed(error) => Parsed::Failed(error),
            },
            Parsed::Failed(error) => Parsed::Failed(error),
        },
        Parsed::Failed(error) => Parsed::Failed(error),
    }
}

// ---------------------------------------------------------------------------
// Programs
// ---------------------------------------------------------------------------

/// The expressions of a program up to `Eof`, each with the line of the
/// token behind it; `done` holds those read so far.
pub open spec fn program(tokens: Seq<TokenView>, pos: int, done: Seq<(ExprView, usize)>)
    -> Result<Seq<(ExprView, usize)>, ParserErrorView>
    decreases tokens.len() - pos, 10nat,
{
    if 0 <= pos < tokens.len() && kind_at(tokens, pos) != TokenType::Eof {
        match expression(tokens, pos) {
            Parsed::Done(item, next) => if pos < next < tokens.len() {
                program(tokens, next, done.push((item, tokens[next].line)))
            } else {
                Err(ParserErrorView::UnknownError(0))
            },
            Parsed::Failed(error) => Err(error),
        }
    } else {
        Ok(done)
    }
}

/// The line of the error that a stream without `Eof` at its end gives.
pub open spec fn last_line(tokens: Seq<TokenView>) -> usize {
    if tokens.len() > 0 {
        tokens.last().line
    } else {
        0
    }
}

/// The program of a token stream: its expressions up to `Eof`. A stream
/// that does not end in `Eof` is refused as ending too early.
pub open spec fn parse(tokens: Seq<TokenView>, pos: int) -> Result<
    Seq<(ExprView, usize)>,
    ParserErrorView,
> {
    if well_formed(tokens) && 0 <= pos < tokens.len() {
        program(tokens, pos, Seq::empty())
    } else {
        Err(ParserErrorView::UnexpectedEOF(last_line(tokens)))
    }
}

} // verus!
