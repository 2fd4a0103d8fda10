//! The prefix text of an expression tree, for showing what was parsed.

use vstd::prelude::*;

use crate::grammar::{expr_views, tokens_view, ExprView};
use crate::parser::Expr;
use crate::text::{decimal_text, push_decimal};
use crate::tokenizer::{kind_name, Token, TokenView};

verus! {

/// What std's `Debug` shows for a text: the text between double quotes,
/// with escapes.
pub uninterp spec fn debug_text(text: Seq<char>) -> Seq<char>;

/// std's `Debug` for `str`, through `format!`. The result is a function of
/// the characters of `text` alone.
#[verifier::external_body]
fn debug_quote(text: &str) -> (quoted: String)
    ensures
        quoted@ == debug_text(text@),
{
    format!("{:?}", text)
}

/// A token as a struct is shown: its fields by name, in order.
pub open spec fn token_text(token: TokenView) -> Seq<char> {
    "Token { token_type: "@ + kind_name(token.token_type) + ", lexeme: "@ + debug_text(
        token.lexeme,
    ) + ", literal: "@ + (match token.literal {
        Some(text) => "Some("@ + debug_text(text) + ")"@,
        None => "None"@,
    }) + ", line: "@ + decimal_text(token.line as nat) + " }"@
}

/// The prefix text of an expression: the operator or the name of the form
/// first, then its parts.
pub open spec fn rpn(expr: ExprView) -> Seq<char>
    decreases expr, 0nat,
{
    match expr {
        ExprView::Binary(left, operator, right) => "("@ + operator.lexeme + " "@ + rpn(*left)
            + " "@ + rpn(*right) + ")"@,
        ExprView::Logical(left, operator, right) => "("@ + operator.lexeme + " "@ + rpn(*left)
            + " "@ + rpn(*right) + ")"@,
        ExprView::Grouping(inner) => "(group "@ + rpn(*inner) + ")"@,
        ExprView::Literal(_, text) => text,
        ExprView::Unary(operator, operand) => "("@ + operator.lexeme + " "@ + rpn(*operand)
            + ")"@,
        ExprView::Nil => "nil nil"@,
        ExprView::Variable(name) => "var "@ + name.lexeme,
        ExprView::Assign(name, value) => "assign "@ + name.lexeme + " "@ + rpn(*value),
        ExprView::Let(name, value) => "let "@ + name.lexeme + " "@ + rpn(*value),
        ExprView::Block(items) => "block "@ + rpn_each(items, items.len()),
        ExprView::Function(name, params, body) => "func "@ + name.lexeme + " "@ + (lexeme_each(
            params,
            params.len(),
        ) + rpn(*body)),
        ExprView::Call(_, _, arguments) => "call "@ + rpn_each(arguments, arguments.len()),
        ExprView::If(condition, then_branch, else_branch) => "if "@ + rpn(*condition) + " "@
            + rpn(*then_branch) + " "@ + rpn(*else_branch),
        ExprView::While(condition, body) => "while "@ + rpn(*condition) + " "@ + rpn(*body),
        ExprView::For(initializer, condition, increment, body) => "for "@ + rpn(*initializer)
            + " "@ + rpn(*condition) + " "@ + rpn(*increment) + " "@ + rpn(*body),
        ExprView::Return(keyword, value) => "return "@ + keyword.lexeme + " "@ + rpn(*value),
        ExprView::Import(path) => "import "@ + rpn(*path),
        ExprView::Class(name, members) => "class "@ + name.lexeme + " "@ + rpn_each(
            members,
            members.len(),
        ),
        ExprView::Get(object, name) => "get "@ + rpn(*object) + " "@ + rpn(*name),
        ExprView::SetMember(target, name, value) => "set "@ + token_text(target) + " "@ + rpn(
            *name,
        ) + " "@ + rpn(*value),
        ExprView::Array(items) => "array "@ + rpn_each(items, items.len()),
        _ => "unknown"@,
    }
}

/// The prefix texts of the first `n` items, each followed by a space.
pub open spec fn rpn_each(items: Seq<ExprView>, n: nat) -> Seq<char>
    decreases items, n,
{
    if n == 0 || n > items.len() {
        Seq::empty()
    } else {
        rpn_each(items, (n - 1) as nat) + rpn(items[n - 1]) + " "@
    }
}

/// The lexemes of the first `n` tokens, each followed by a space.
pub open spec fn lexeme_each(tokens: Seq<TokenView>, n: nat) -> Seq<char>
    decreases n,
{
    if n == 0 || n > tokens.len() {
        Seq::empty()
    } else {
        lexeme_each(tokens, (n - 1) as nat) + tokens[n - 1].lexeme + " "@
    }
}

/// The text of `token` as a struct is shown.
fn show_token(token: &Token) -> (text: String)
    ensures
        text@ == token_text(token@),
{
    let mut text = String::from_str("Token { token_type: ");
    let kind = token.token_type.to_string();
    text.append(kind.as_str());
    text.append(", lexeme: ");
    let lexeme = debug_quote(token.lexeme.as_str());
    text.append(lexeme.as_str());
    text.append(", literal: ");
    match &token.literal {
        Some(literal) => {
            let mut shown = String::from_str("Some(");
            let quoted = debug_quote(literal.as_str());
            shown.append(quoted.as_str());
            shown.append(")");
            text.append(shown.as_str());
        },
        None => {
            text.append("None");
        },
    }
    text.append(", line: ");
    let mut line = String::new();
    push_decimal(&mut line, token.line);
    assert(line@ =~= decimal_text(token.line as nat));
    text.append(line.as_str());
    text.append(" }");
    text
}

/// `opening`, the lexeme of `token`, a space and `rest`.
fn named(opening: &str, token: &Token, rest: &String) -> (text: String)
    ensures
        text@ == opening@ + token.lexeme@ + " "@ + rest@,
{
    let mut text = String::from_str(opening);
    text.append(token.lexeme.as_str());
    text.append(" ");
    text.append(rest.as_str());
    text
}

/// `opening` and the parts with a space between each two.
fn joined2(opening: &str, first: &String, second: &String) -> (text: String)
    ensures
        text@ == opening@ + first@ + " "@ + second@,
{
    let mut text = String::from_str(opening);
    text.append(first.as_str());
    text.append(" ");
    text.append(second.as_str());
    text
}

impl Expr {
    /// The prefix texts of `items`, each followed by a space.
    #[verifier::loop_isolation(false)]
    fn rpn_of_each(items: &Vec<Expr>) -> (text: String)
        ensures
            text@ == rpn_each(expr_views(items@), expr_views(items@).len()),
        decreases items,
    {
        let ghost views = expr_views(items@);
        let mut text = String::new();
        let mut i: usize = 0;
        while i < items.len()
            invariant
                i <= items.len(),
                text@ == rpn_each(views, i as nat),
            decreases items.len() - i,
        {
            assert(views[i as int] == items@[i as int]@);
            let item = items[i].to_rpn();
            text.append(item.as_str());
            text.append(" ");
            i += 1;
        }
        text
    }

    /// The prefix text of the expression.
    pub fn to_rpn(&self) -> (text: String)
        ensures
            text@ == rpn(self@),
        decreases self,
    {
        match self {
            Expr::Binary(left, operator, right) => {
                let mut text = named("(", operator, &left.to_rpn());
                text.append(" ");
                text.append(right.to_rpn().as_str());
                text.append(")");
                text
            },
            Expr::Logical(left, operator, right) => {
                let mut text = named("(", operator, &left.to_rpn());
                text.append(" ");
                text.append(right.to_rpn().as_str());
                text.append(")");
                text
            },
            Expr::Grouping(inner) => {
                let mut text = String::from_str("(group ");
                text.append(inner.to_rpn().as_str());
                text.append(")");
                text
            },
            Expr::Literal(_, literal) => literal.clone(),
            Expr::Unary(operator, operand) => {
                let mut text = named("(", operator, &operand.to_rpn());
                text.append(")");
                text
            },
            Expr::Nil => String::from_str("nil nil"),
            Expr::Variable(name) => {
                let mut text = String::from_str("var ");
                text.append(name.lexeme.as_str());
                text
            },
            Expr::Assign(name, value) => named("assign ", name, &value.to_rpn()),
            Expr::Let(name, value) => named("let ", name, &value.to_rpn()),
            Expr::Block(items) => {
                let mut text = String::from_str("block ");
                text.append(Self::rpn_of_each(items).as_str());
                text
            },
            Expr::Function(name, params, body) => {
                let ghost views = tokens_view(params@);
                let mut rest = String::new();
                let mut i: usize = 0;
                while i < params.len()
                    invariant
                        i <= params.len(),
                        views == tokens_view(params@),
                        rest@ == lexeme_each(views, i as nat),
                    decreases params.len() - i,
                {
                    assert(views[i as int] == params@[i as int]@);
                    rest.append(params[i].lexeme.as_str());
                    rest.append(" ");
                    i += 1;
                }
                rest.append(body.to_rpn().as_str());
                named("func ", name, &rest)
            },
            Expr::Call(_, _, arguments) => {
                let mut text = String::from_str("call ");
                text.append(Self::rpn_of_each(arguments).as_str());
                text
            },
            Expr::If(condition, then_branch, else_branch) => {
                let mut text = joined2("if ", &condition.to_rpn(), &then_branch.to_rpn());
                text.append(" ");
                text.append(else_branch.to_rpn().as_str());
                text
            },
            Expr::While(condition, body) => joined2("while ", &condition.to_rpn(), &body.to_rpn()),
            Expr::For(initializer, condition, increment, body) => {
                let mut text = joined2("for ", &initializer.to_rpn(), &condition.to_rpn());
                text.append(" ");
                text.append(increment.to_rpn().as_str());
                text.append(" ");
                text.append(body.to_rpn().as_str());
                text
            },
            Expr::Return(keyword, value) => named("return ", keyword, &value.to_rpn()),
            Expr::Import(path) => {
                let mut text = String::from_str("import ");
                text.append(path.to_rpn().as_str());
                text
            },
            Expr::Class(name, members) => named("class ", name, &Self::rpn_of_each(members)),
            Expr::Get(object, name) => joined2("get ", &object.to_rpn(), &name.to_rpn()),
            Expr::SetMember(target, name, value) => {
                let mut text = joined2("set ", &show_token(target), &name.to_rpn());
                text.append(" ");
                text.append(value.to_rpn().as_str());
                text
            },
            Expr::Array(items) => {
                let mut text = String::from_str("array ");
                text.append(Self::rpn_of_each(items).as_str());
                text
            },
            _ => String::from_str("unknown"),
        }
    }
}

} // verus!
