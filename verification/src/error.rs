//! The error taxonomy: lexer, parser and runtime errors, and the text of
//! each.

use vstd::prelude::*;

use crate::interpreter::value::{value_text, TextStyle, Value, ValueView};
use crate::text::{decimal_text, push_decimal};
use crate::tokenizer::{kind_name, TokenType};

verus! {

/// A free-form diagnostic with the line it belongs to.
#[derive(Debug)]
pub struct InterpreterKind {
    message: String,
    line: usize,
}

impl InterpreterKind {
    pub closed spec fn message(&self) -> Seq<char> {
        self.message@
    }

    pub closed spec fn line(&self) -> usize {
        self.line
    }

    pub fn new(message: String, line: usize) -> (kind: Self)
        ensures
            kind.message() == message@,
            kind.line() == line,
    {
        InterpreterKind { message, line }
    }
}

/// `[line N] Error` followed by `rest`.
pub open spec fn located(line: usize, rest: Seq<char>) -> Seq<char> {
    "[line "@ + decimal_text(line as nat) + "] Error"@ + rest
}

fn located_text(line: usize, rest: &str) -> (text: String)
    ensures
        text@ == located(line, rest@),
{
    let mut text = String::from_str("[line ");
    push_decimal(&mut text, line);
    text.append("] Error");
    text.append(rest);
    assert(text@ =~= located(line, rest@));
    text
}

// ---------------------------------------------------------------------------
// Lexer errors
// ---------------------------------------------------------------------------

/// What the lexer can report; every variant carries the line of the
/// offending text.
#[derive(Debug, Clone, Copy, PartialEq, Eq, Structural)]
pub enum TokenizerErrorKind {
    UnexpectedCharacter(char, usize),
    UnterminatedString(usize),
    InvalidNumber(usize),
    InvalidIdentifier(usize),
    InvalidToken(usize),
    UnknownError(usize),
}

impl TokenizerErrorKind {
    /// The line the error was reported on.
    pub open spec fn line(self) -> usize {
        match self {
            TokenizerErrorKind::UnexpectedCharacter(_, line) => line,
            TokenizerErrorKind::UnterminatedString(line) => line,
            TokenizerErrorKind::InvalidNumber(line) => line,
            TokenizerErrorKind::InvalidIdentifier(line) => line,
            TokenizerErrorKind::InvalidToken(line) => line,
            TokenizerErrorKind::UnknownError(line) => line,
        }
    }

    pub open spec fn text(self) -> Seq<char> {
        match self {
            TokenizerErrorKind::UnexpectedCharacter(c, line) => located(
                line,
                ": Unexpected character: "@.push(c),
            ),
            TokenizerErrorKind::UnterminatedString(line) => located(
                line,
                ": Unterminated string."@,
            ),
            TokenizerErrorKind::InvalidNumber(line) => located(line, ": Invalid number."@),
            TokenizerErrorKind::InvalidIdentifier(line) => located(line, ": Invalid identifier."@),
            TokenizerErrorKind::InvalidToken(line) => located(line, ": Invalid token."@),
            TokenizerErrorKind::UnknownError(line) => located(line, ": Unknown error."@),
        }
    }

    /// The text of the error.
    pub fn to_string(&self) -> (text: String)
        ensures
            text@ == self.text(),
    {
        match self {
            TokenizerErrorKind::UnexpectedCharacter(c, line) => {
                let mut text = located_text(*line, ": Unexpected character: ");
                text.push(*c);
                assert(text@ =~= self.text());
                text
            },
            TokenizerErrorKind::UnterminatedString(line) => located_text(
                *line,
                ": Unterminated string.",
            ),
            TokenizerErrorKind::InvalidNumber(line) => located_text(*line, ": Invalid number."),
            TokenizerErrorKind::InvalidIdentifier(line) => located_text(
                *line,
                ": Invalid identifier.",
            ),
            TokenizerErrorKind::InvalidToken(line) => located_text(*line, ": Invalid token."),
            TokenizerErrorKind::UnknownError(line) => located_text(*line, ": Unknown error."),
        }
    }
}

// ---------------------------------------------------------------------------
// Parser errors
// ---------------------------------------------------------------------------

/// What the parser can report.
#[derive(Debug, PartialEq)]
pub enum ParserErrorKind {
    ExpectedSemilicon(usize),
    UnexpectedToken(usize, TokenType),
    InvalidAssignmentTarget(usize),
    InvalidParametsCount(usize),
    InvalidExpression(usize),
    InvalidStatement(usize),
    UnknownError(usize),
    ExpectedUnary(usize),
    UnexpectedEOF(usize),
    InvalidImport(usize),
    ExpectExpression(String, usize),
}

pub enum ParserErrorView {
    ExpectedSemilicon(usize),
    UnexpectedToken(usize, TokenType),
    InvalidAssignmentTarget(usize),
    InvalidParametsCount(usize),
    InvalidExpression(usize),
    InvalidStatement(usize),
    UnknownError(usize),
    ExpectedUnary(usize),
    UnexpectedEOF(usize),
    InvalidImport(usize),
    ExpectExpression(Seq<char>, usize),
}

impl View for ParserErrorKind {
    type V = ParserErrorView;

    open spec fn view(&self) -> ParserErrorView {
        match self {
            ParserErrorKind::ExpectedSemilicon(line) => ParserErrorView::ExpectedSemilicon(*line),
            ParserErrorKind::UnexpectedToken(line, kind) => ParserErrorView::UnexpectedToken(
                *line,
                *kind,
            ),
            ParserErrorKind::InvalidAssignmentTarget(line) => {
                ParserErrorView::InvalidAssignmentTarget(*line)
            },
            ParserErrorKind::InvalidParametsCount(line) => ParserErrorView::InvalidParametsCount(
                *line,
            ),
            ParserErrorKind::InvalidExpression(line) => ParserErrorView::InvalidExpression(*line),
            ParserErrorKind::InvalidStatement(line) => ParserErrorView::InvalidStatement(*line),
            ParserErrorKind::UnknownError(line) => ParserErrorView::UnknownError(*line),
            ParserErrorKind::ExpectedUnary(line) => ParserErrorView::ExpectedUnary(*line),
            ParserErrorKind::UnexpectedEOF(line) => ParserErrorView::UnexpectedEOF(*line),
            ParserErrorKind::InvalidImport(line) => ParserErrorView::InvalidImport(*line),
            ParserErrorKind::ExpectExpression(lexeme, line) => ParserErrorView::ExpectExpression(
                lexeme@,
                *line,
            ),
        }
    }
}

impl ParserErrorView {
    /// The line the error was reported on.
    pub open spec fn line(self) -> usize {
        match self {
            ParserErrorView::ExpectedSemilicon(line) => line,
            ParserErrorView::UnexpectedToken(line, _) => line,
            ParserErrorView::InvalidAssignmentTarget(line) => line,
            ParserErrorView::InvalidParametsCount(line) => line,
            ParserErrorView::InvalidExpression(line) => line,
            ParserErrorView::InvalidStatement(line) => line,
            ParserErrorView::UnknownError(line) => line,
            ParserErrorView::ExpectedUnary(line) => line,
            ParserErrorView::UnexpectedEOF(line) => line,
            ParserErrorView::InvalidImport(line) => line,
            ParserErrorView::ExpectExpression(_, line) => line,
        }
    }

    pub open spec fn text(self) -> Seq<char> {
        match self {
            ParserErrorView::ExpectedSemilicon(line) => located(
                line,
                ": Expect semilicon after value."@,
            ),
            ParserErrorView::UnexpectedToken(line, kind) => located(
                line,
                ": Expected token "@ + kind_name(kind) + "."@,
            ),
            ParserErrorView::InvalidAssignmentTarget(line) => located(
                line,
                ": Invalid assignment target."@,
            ),
            ParserErrorView::InvalidParametsCount(line) => located(
                line,
                ": Cannot have more than 255 parameters."@,
            ),
            ParserErrorView::InvalidExpression(line) => located(line, ": Invalid expression."@),
            ParserErrorView::InvalidStatement(line) => located(line, ": Invalid statement."@),
            ParserErrorView::UnknownError(line) => located(line, ": Unknown error."@),
            ParserErrorView::ExpectedUnary(line) => located(line, ": Expected unary operator."@),
            ParserErrorView::UnexpectedEOF(line) => located(line, ": Unexpected end of file."@),
            ParserErrorView::InvalidImport(line) => located(line, ": Invalid import."@),
            ParserErrorView::ExpectExpression(lexeme, line) => located(
                line,
                " at '"@ + lexeme + "': Expected expression."@,
            ),
        }
    }
}

impl Clone for ParserErrorKind {
    fn clone(&self) -> (copy: Self)
        ensures
            copy@ == self@,
    {
        match self {
            ParserErrorKind::ExpectedSemilicon(line) => ParserErrorKind::ExpectedSemilicon(*line),
            ParserErrorKind::UnexpectedToken(line, kind) => ParserErrorKind::UnexpectedToken(
                *line,
                *kind,
            ),
            ParserErrorKind::InvalidAssignmentTarget(line) => {
                ParserErrorKind::InvalidAssignmentTarget(*line)
            },
            ParserErrorKind::InvalidParametsCount(line) => ParserErrorKind::InvalidParametsCount(
                *line,
            ),
            ParserErrorKind::InvalidExpression(line) => ParserErrorKind::InvalidExpression(*line),
            ParserErrorKind::InvalidStatement(line) => ParserErrorKind::InvalidStatement(*line),
            ParserErrorKind::UnknownError(line) => ParserErrorKind::UnknownError(*line),
            ParserErrorKind::ExpectedUnary(line) => ParserErrorKind::ExpectedUnary(*line),
            ParserErrorKind::UnexpectedEOF(line) => ParserErrorKind::UnexpectedEOF(*line),
            ParserErrorKind::InvalidImport(line) => ParserErrorKind::InvalidImport(*line),
            ParserErrorKind::ExpectExpression(lexeme, line) => ParserErrorKind::ExpectExpression(
                lexeme.clone(),
                *line,
            ),
        }
    }
}

impl ParserErrorKind {
    /// The text of the error.
    pub fn to_string(&self) -> (text: String)
        ensures
            text@ == self@.text(),
    {
        match self {
            ParserErrorKind::ExpectedSemilicon(line) => located_text(
                *line,
                ": Expect semilicon after value.",
            ),
            ParserErrorKind::UnexpectedToken(line, kind) => {
                let mut text = located_text(*line, ": Expected token ");
                let name = kind.to_string();
                text.append(name.as_str());
                text.append(".");
                assert(text@ =~= self@.text());
                text
            },
            ParserErrorKind::InvalidAssignmentTarget(line) => located_text(
                *line,
                ": Invalid assignment target.",
            ),
            ParserErrorKind::InvalidParametsCount(line) => located_text(
                *line,
                ": Cannot have more than 255 parameters.",
            ),
            ParserErrorKind::InvalidExpression(line) => located_text(
                *line,
                ": Invalid expression.",
            ),
            ParserErrorKind::InvalidStatement(line) => located_text(*line, ": Invalid statement."),
            ParserErrorKind::UnknownError(line) => located_text(*line, ": Unknown error."),
            ParserErrorKind::ExpectedUnary(line) => located_text(
                *line,
                ": Expected unary operator.",
            ),
            ParserErrorKind::UnexpectedEOF(line) => located_text(
                *line,
                ": Unexpected end of file.",
            ),
            ParserErrorKind::InvalidImport(line) => located_text(*line, ": Invalid import."),
            ParserErrorKind::ExpectExpression(lexeme, line) => {
                let mut text = located_text(*line, " at '");
                text.append(lexeme.as_str());
                text.append("': Expected expression.");
                assert(text@ =~= self@.text());
                text
            },
        }
    }
}

// ---------------------------------------------------------------------------
// Runtime errors
// ---------------------------------------------------------------------------

/// What evaluation can raise. `Return` is no failure: it carries the value
/// of a `return` out to the call that it ends.
#[derive(Debug)]
pub enum RuntimeErrorKind {
    InvalidTailCall(usize),
    InvalidNumber(usize),
    InvalidLiteral(usize),
    InvalidBinaryOperator(usize),
    InvalidUnaryOperator(usize),
    OperandsMustBeNumbersOrStrings(usize),
    OperandsMustBeNumber(usize),
    InvalidParametsCount(usize),
    UndefinedVariable(usize, String),
    UnknownBinaryOperator(usize),
    DivisionByZero(usize),
    UnknownError(usize),
    UnknownExpression(usize),
    UndefinedFunction(usize),
    ExpextedArgument(usize, usize, usize),
    InvalidCondition(usize),
    InvalidLogicalOperator(usize),
    InvalidReturnValue(usize),
    InvalidArgumentType(usize),
    RuntimeError(usize, String),
    InvalidImport(usize, String),
    InvalidClassMethod(usize),
    InvalidDictionaryKey(usize),
    InvalidSet(usize),
    InvalidGet(usize),
    IoError(String),
    InvalidCall(usize),
    Return(Value),
    AssertionFailed,
    PromiseRejected(usize),
}

/// The runtime errors that carry nothing but a line.
#[derive(Debug, Clone, Copy, PartialEq, Eq, Structural)]
pub enum Failure {
    InvalidTailCall,
    InvalidNumber,
    InvalidLiteral,
    InvalidBinaryOperator,
    InvalidUnaryOperator,
    OperandsMustBeNumbersOrStrings,
    OperandsMustBeNumber,
    InvalidParametsCount,
    UnknownBinaryOperator,
    DivisionByZero,
    UnknownError,
    UnknownExpression,
    UndefinedFunction,
    InvalidCondition,
    InvalidLogicalOperator,
    InvalidReturnValue,
    InvalidArgumentType,
    InvalidClassMethod,
    InvalidDictionaryKey,
    InvalidSet,
    InvalidGet,
    InvalidCall,
    PromiseRejected,
}

pub enum RuntimeErrorView {
    At(Failure, usize),
    UndefinedVariable(usize, Seq<char>),
    ExpextedArgument(usize, usize, usize),
    RuntimeError(usize, Seq<char>),
    InvalidImport(usize, Seq<char>),
    IoError(Seq<char>),
    Return(ValueView),
    AssertionFailed,
}

impl View for RuntimeErrorKind {
    type V = RuntimeErrorView;

    open spec fn view(&self) -> RuntimeErrorView {
        match self {
            RuntimeErrorKind::InvalidTailCall(line) => RuntimeErrorView::At(
                Failure::InvalidTailCall,
                *line,
            ),
            RuntimeErrorKind::InvalidNumber(line) => RuntimeErrorView::At(
                Failure::InvalidNumber,
                *line,
            ),
            RuntimeErrorKind::InvalidLiteral(line) => RuntimeErrorView::At(
                Failure::InvalidLiteral,
                *line,
            ),
            RuntimeErrorKind::InvalidBinaryOperator(line) => RuntimeErrorView::At(
                Failure::InvalidBinaryOperator,
                *line,
            ),
            RuntimeErrorKind::InvalidUnaryOperator(line) => RuntimeErrorView::At(
                Failure::InvalidUnaryOperator,
                *line,
            ),
            RuntimeErrorKind::OperandsMustBeNumbersOrStrings(line) => RuntimeErrorView::At(
                Failure::OperandsMustBeNumbersOrStrings,
                *line,
            ),
            RuntimeErrorKind::OperandsMustBeNumber(line) => RuntimeErrorView::At(
                Failure::OperandsMustBeNumber,
                *line,
            ),
            RuntimeErrorKind::InvalidParametsCount(line) => RuntimeErrorView::At(
                Failure::InvalidParametsCount,
                *line,
            ),
            RuntimeErrorKind::UndefinedVariable(line, name) => RuntimeErrorView::UndefinedVariable(
                *line,
                name@,
            ),
            RuntimeErrorKind::UnknownBinaryOperator(line) => RuntimeErrorView::At(
                Failure::UnknownBinaryOperator,
                *line,
            ),
            RuntimeErrorKind::DivisionByZero(line) => RuntimeErrorView::At(
                Failure::DivisionByZero,
                *line,
            ),
            RuntimeErrorKind::UnknownError(line) => RuntimeErrorView::At(
                Failure::UnknownError,
                *line,
            ),
            RuntimeErrorKind::UnknownExpression(line) => RuntimeErrorView::At(
                Failure::UnknownExpression,
                *line,
            ),
            RuntimeErrorKind::UndefinedFunction(line) => RuntimeErrorView::At(
                Failure::UndefinedFunction,
                *line,
            ),
            RuntimeErrorKind::ExpextedArgument(line, expected, got) => {
                RuntimeErrorView::ExpextedArgument(*line, *expected, *got)
            },
            RuntimeErrorKind::InvalidCondition(line) => RuntimeErrorView::At(
                Failure::InvalidCondition,
                *line,
            ),
            RuntimeErrorKind::InvalidLogicalOperator(line) => RuntimeErrorView::At(
                Failure::InvalidLogicalOperator,
                *line,
            ),
            RuntimeErrorKind::InvalidReturnValue(line) => RuntimeErrorView::At(
                Failure::InvalidReturnValue,
                *line,
            ),
            RuntimeErrorKind::InvalidArgumentType(line) => RuntimeErrorView::At(
                Failure::InvalidArgumentType,
                *line,
            ),
            RuntimeErrorKind::RuntimeError(line, message) => RuntimeErrorView::RuntimeError(
                *line,
                message@,
            ),
            RuntimeErrorKind::InvalidImport(line, module) => RuntimeErrorView::InvalidImport(
                *line,
                module@,
            ),
            RuntimeErrorKind::InvalidClassMethod(line) => RuntimeErrorView::At(
                Failure::InvalidClassMethod,
                *line,
            ),
            RuntimeErrorKind::InvalidDictionaryKey(line) => RuntimeErrorView::At(
                Failure::InvalidDictionaryKey,
                *line,
            ),
            RuntimeErrorKind::InvalidSet(line) => RuntimeErrorView::At(Failure::InvalidSet, *line),
            RuntimeErrorKind::InvalidGet(line) => RuntimeErrorView::At(Failure::InvalidGet, *line),
            RuntimeErrorKind::IoError(message) => RuntimeErrorView::IoError(message@),
            RuntimeErrorKind::InvalidCall(line) => RuntimeErrorView::At(
                Failure::InvalidCall,
                *line,
            ),
            RuntimeErrorKind::Return(value) => RuntimeErrorView::Return(value@),
            RuntimeErrorKind::AssertionFailed => RuntimeErrorView::AssertionFailed,
            RuntimeErrorKind::PromiseRejected(line) => RuntimeErrorView::At(
                Failure::PromiseRejected,
                *line,
            ),
        }
    }
}

/// What follows `[line N] Error` in the text of a failure.
pub open spec fn failure_text(failure: Failure) -> Seq<char> {
    match failure {
        Failure::InvalidTailCall => ": Invalid Tail Call."@,
        Failure::InvalidNumber => ": Invalid number."@,
        Failure::InvalidLiteral => ": Invalid literal."@,
        Failure::InvalidBinaryOperator => ": Invalid binary operator."@,
        Failure::InvalidUnaryOperator => ": Invalid unary operator."@,
        Failure::OperandsMustBeNumbersOrStrings => {
            ": Operands must be two numbers or two strings."@
        },
        Failure::OperandsMustBeNumber => ": Operand must be a number."@,
        Failure::InvalidParametsCount => ": Invalid argument count."@,
        Failure::UnknownBinaryOperator => ": Unknown binary operator."@,
        Failure::DivisionByZero => ": Division by zero."@,
        Failure::UnknownError => ": Unknown error."@,
        Failure::UnknownExpression => ": Unknown expression."@,
        Failure::UndefinedFunction => ": Undefined function."@,
        Failure::InvalidCondition => ": Invalid condition."@,
        Failure::InvalidLogicalOperator => ": Invalid logical operator."@,
        Failure::InvalidReturnValue => ": Invalid return value."@,
        Failure::InvalidArgumentType => ": Invalid argument type."@,
        Failure::InvalidClassMethod => ": Invalid class method."@,
        Failure::InvalidDictionaryKey => ": Invalid dictionary key."@,
        Failure::InvalidSet => ": Invalid set."@,
        Failure::InvalidGet => ": Invalid get."@,
        Failure::InvalidCall => ": Invalid call."@,
        Failure::PromiseRejected => ": Promise rejected."@,
    }
}

fn failure_message(failure: Failure, line: usize) -> (text: String)
    ensures
        text@ == located(line, failure_text(failure)),
{
    match failure {
        Failure::InvalidTailCall => located_text(line, ": Invalid Tail Call."),
        Failure::InvalidNumber => located_text(line, ": Invalid number."),
        Failure::InvalidLiteral => located_text(line, ": Invalid literal."),
        Failure::InvalidBinaryOperator => located_text(line, ": Invalid binary operator."),
        Failure::InvalidUnaryOperator => located_text(line, ": Invalid unary operator."),
        Failure::OperandsMustBeNumbersOrStrings => located_text(
            line,
            ": Operands must be two numbers or two strings.",
        ),
        Failure::OperandsMustBeNumber => located_text(line, ": Operand must be a number."),
        Failure::InvalidParametsCount => located_text(line, ": Invalid argument count."),
        Failure::UnknownBinaryOperator => located_text(line, ": Unknown binary operator."),
        Failure::DivisionByZero => located_text(line, ": Division by zero."),
        Failure::UnknownError => located_text(line, ": Unknown error."),
        Failure::UnknownExpression => located_text(line, ": Unknown expression."),
        Failure::UndefinedFunction => located_text(line, ": Undefined function."),
        Failure::InvalidCondition => located_text(line, ": Invalid condition."),
        Failure::InvalidLogicalOperator => located_text(line, ": Invalid logical operator."),
        Failure::InvalidReturnValue => located_text(line, ": Invalid return value."),
        Failure::InvalidArgumentType => located_text(line, ": Invalid argument type."),
        Failure::InvalidClassMethod => located_text(line, ": Invalid class method."),
        Failure::InvalidDictionaryKey => located_text(line, ": Invalid dictionary key."),
        Failure::InvalidSet => located_text(line, ": Invalid set."),
        Failure::InvalidGet => located_text(line, ": Invalid get."),
        Failure::InvalidCall => located_text(line, ": Invalid call."),
        Failure::PromiseRejected => located_text(line, ": Promise rejected."),
    }
}

impl RuntimeErrorView {
    pub open spec fn text(self) -> Seq<char> {
        match self {
            RuntimeErrorView::At(failure, line) => located(line, failure_text(failure)),
            RuntimeErrorView::UndefinedVariable(line, name) => located(
                line,
                ": Undefined variable "@ + name + "."@,
            ),
            RuntimeErrorView::ExpextedArgument(line, expected, got) => located(
                line,
                ": Expected "@ + decimal_text(expected as nat) + " arguments but got "@
                    + decimal_text(got as nat),
            ),
            RuntimeErrorView::RuntimeError(line, message) => located(line, ": "@ + message),
            RuntimeErrorView::InvalidImport(line, module) => located(
                line,
                ": Invalid import module '"@ + module + "'"@,
            ),
            RuntimeErrorView::IoError(message) => "IO Error: "@ + message,
            RuntimeErrorView::Return(value) => "Return unwind the call stack: "@ + value_text(
                value,
                TextStyle::Printed,
            ),
            RuntimeErrorView::AssertionFailed => "Error: Assertion failed."@,
        }
    }
}

impl RuntimeErrorKind {
    /// The failure `failure` on line `line`.
    pub fn at(failure: Failure, line: usize) -> (error: Self)
        ensures
            error@ == RuntimeErrorView::At(failure, line),
    {
        match failure {
            Failure::InvalidTailCall => RuntimeErrorKind::InvalidTailCall(line),
            Failure::InvalidNumber => RuntimeErrorKind::InvalidNumber(line),
            Failure::InvalidLiteral => RuntimeErrorKind::InvalidLiteral(line),
            Failure::InvalidBinaryOperator => RuntimeErrorKind::InvalidBinaryOperator(line),
            Failure::InvalidUnaryOperator => RuntimeErrorKind::InvalidUnaryOperator(line),
            Failure::OperandsMustBeNumbersOrStrings => {
                RuntimeErrorKind::OperandsMustBeNumbersOrStrings(line)
            },
            Failure::OperandsMustBeNumber => RuntimeErrorKind::OperandsMustBeNumber(line),
            Failure::InvalidParametsCount => RuntimeErrorKind::InvalidParametsCount(line),
            Failure::UnknownBinaryOperator => RuntimeErrorKind::UnknownBinaryOperator(line),
            Failure::DivisionByZero => RuntimeErrorKind::DivisionByZero(line),
            Failure::UnknownError => RuntimeErrorKind::UnknownError(line),
            Failure::UnknownExpression => RuntimeErrorKind::UnknownExpression(line),
            Failure::UndefinedFunction => RuntimeErrorKind::UndefinedFunction(line),
            Failure::InvalidCondition => RuntimeErrorKind::InvalidCondition(line),
            Failure::InvalidLogicalOperator => RuntimeErrorKind::InvalidLogicalOperator(line),
            Failure::InvalidReturnValue => RuntimeErrorKind::InvalidReturnValue(line),
            Failure::InvalidArgumentType => RuntimeErrorKind::InvalidArgumentType(line),
            Failure::InvalidClassMethod => RuntimeErrorKind::InvalidClassMethod(line),
            Failure::InvalidDictionaryKey => RuntimeErrorKind::InvalidDictionaryKey(line),
            Failure::InvalidSet => RuntimeErrorKind::InvalidSet(line),
            Failure::InvalidGet => RuntimeErrorKind::InvalidGet(line),
            Failure::InvalidCall => RuntimeErrorKind::InvalidCall(line),
            Failure::PromiseRejected => RuntimeErrorKind::PromiseRejected(line),
        }
    }

    /// The failure and the line of an error that carries nothing else.
    pub fn failure(&self) -> (found: Option<(Failure, usize)>)
        ensures
            match found {
                Some((failure, line)) => self@ == RuntimeErrorView::At(failure, line),
                None => !(self@ is At),
            },
    {
        match self {
            RuntimeErrorKind::InvalidTailCall(line) => Some((Failure::InvalidTailCall, *line)),
            RuntimeErrorKind::InvalidNumber(line) => Some((Failure::InvalidNumber, *line)),
            RuntimeErrorKind::InvalidLiteral(line) => Some((Failure::InvalidLiteral, *line)),
            RuntimeErrorKind::InvalidBinaryOperator(line) => Some(
                (Failure::InvalidBinaryOperator, *line),
            ),
            RuntimeErrorKind::InvalidUnaryOperator(line) => Some(
                (Failure::InvalidUnaryOperator, *line),
            ),
            RuntimeErrorKind::OperandsMustBeNumbersOrStrings(line) => Some(
                (Failure::OperandsMustBeNumbersOrStrings, *line),
            ),
            RuntimeErrorKind::OperandsMustBeNumber(line) => Some(
                (Failure::OperandsMustBeNumber, *line),
            ),
            RuntimeErrorKind::InvalidParametsCount(line) => Some(
                (Failure::InvalidParametsCount, *line),
            ),
            RuntimeErrorKind::UnknownBinaryOperator(line) => Some(
                (Failure::UnknownBinaryOperator, *line),
            ),
            RuntimeErrorKind::DivisionByZero(line) => Some((Failure::DivisionByZero, *line)),
            RuntimeErrorKind::UnknownError(line) => Some((Failure::UnknownError, *line)),
            RuntimeErrorKind::UnknownExpression(line) => Some((Failure::UnknownExpression, *line)),
            RuntimeErrorKind::UndefinedFunction(line) => Some((Failure::UndefinedFunction, *line)),
            RuntimeErrorKind::InvalidCondition(line) => Some((Failure::InvalidCondition, *line)),
            RuntimeErrorKind::InvalidLogicalOperator(line) => Some(
                (Failure::InvalidLogicalOperator, *line),
            ),
            RuntimeErrorKind::InvalidReturnValue(line) => Some(
                (Failure::InvalidReturnValue, *line),
            ),
            RuntimeErrorKind::InvalidArgumentType(line) => Some(
                (Failure::InvalidArgumentType, *line),
            ),
            RuntimeErrorKind::InvalidClassMethod(line) => Some(
                (Failure::InvalidClassMethod, *line),
            ),
            RuntimeErrorKind::InvalidDictionaryKey(line) => Some(
                (Failure::InvalidDictionaryKey, *line),
            ),
            RuntimeErrorKind::InvalidSet(line) => Some((Failure::InvalidSet, *line)),
            RuntimeErrorKind::InvalidGet(line) => Some((Failure::InvalidGet, *line)),
            RuntimeErrorKind::InvalidCall(line) => Some((Failure::InvalidCall, *line)),
            RuntimeErrorKind::PromiseRejected(line) => Some((Failure::PromiseRejected, *line)),
            _ => None,
        }
    }

    /// The text of the error.
    pub fn to_string(&self) -> (text: String)
        ensures
            text@ == self@.text(),
    {
        if let Some((failure, line)) = self.failure() {
            return failure_message(failure, line);
        }
        match self {
            RuntimeErrorKind::UndefinedVariable(line, name) => {
                let mut text = located_text(*line, ": Undefined variable ");
                text.append(name.as_str());
                text.append(".");
                assert(text@ =~= self@.text());
                text
            },
            RuntimeErrorKind::ExpextedArgument(line, expected, got) => {
                let mut text = located_text(*line, ": Expected ");
                push_decimal(&mut text, *expected);
                text.append(" arguments but got ");
                push_decimal(&mut text, *got);
                assert(text@ =~= self@.text());
                text
            },
            RuntimeErrorKind::RuntimeError(line, message) => {
                let mut text = located_text(*line, ": ");
                text.append(message.as_str());
                assert(text@ =~= self@.text());
                text
            },
            RuntimeErrorKind::InvalidImport(line, module) => {
                let mut text = located_text(*line, ": Invalid import module '");
                text.append(module.as_str());
                text.append("'");
                assert(text@ =~= self@.text());
                text
            },
            RuntimeErrorKind::IoError(message) => {
                let mut text = String::from_str("IO Error: ");
                text.append(message.as_str());
                text
            },
            RuntimeErrorKind::Return(value) => {
                let mut text = String::from_str("Return unwind the call stack: ");
                let printed = value.render(TextStyle::Printed);
                text.append(printed.as_str());
                text
            },
            RuntimeErrorKind::AssertionFailed => String::from_str("Error: Assertion failed."),
            _ => String::new(),
        }
    }
}

impl Clone for RuntimeErrorKind {
    fn clone(&self) -> (copy: Self)
        ensures
            copy@ == self@,
    {
        if let Some((failure, line)) = self.failure() {
            return RuntimeErrorKind::at(failure, line);
        }
        match self {
            RuntimeErrorKind::UndefinedVariable(line, name) => RuntimeErrorKind::UndefinedVariable(
                *line,
                name.clone(),
            ),
            RuntimeErrorKind::ExpextedArgument(line, expected, got) => {
                RuntimeErrorKind::ExpextedArgument(*line, *expected, *got)
            },
            RuntimeErrorKind::RuntimeError(line, message) => RuntimeErrorKind::RuntimeError(
                *line,
                message.clone(),
            ),
            RuntimeErrorKind::InvalidImport(line, module) => RuntimeErrorKind::InvalidImport(
                *line,
                module.clone(),
            ),
            RuntimeErrorKind::IoError(message) => RuntimeErrorKind::IoError(message.clone()),
            RuntimeErrorKind::Return(value) => RuntimeErrorKind::Return(value.clone()),
            _ => RuntimeErrorKind::AssertionFailed,
        }
    }
}

#[derive(Debug, Clone, Copy, PartialEq, Eq, Structural)]
pub enum UnknownErrorKind {
    UnknownError,
}

// ---------------------------------------------------------------------------
// Errors of any stage
// ---------------------------------------------------------------------------

/// Any error of the interpreter, by the stage that raised it.
#[derive(Debug)]
pub enum InterpreterError {
    TokenizerError(TokenizerErrorKind),
    ParserError(ParserErrorKind),
    RuntimeError(RuntimeErrorKind),
    UnknownError(UnknownErrorKind),
}

pub enum InterpreterErrorView {
    TokenizerError(TokenizerErrorKind),
    ParserError(ParserErrorView),
    RuntimeError(RuntimeErrorView),
    UnknownError(UnknownErrorKind),
}

impl View for InterpreterError {
    type V = InterpreterErrorView;

    open spec fn view(&self) -> InterpreterErrorView {
        match self {
            InterpreterError::TokenizerError(kind) => InterpreterErrorView::TokenizerError(*kind),
            InterpreterError::ParserError(kind) => InterpreterErrorView::ParserError(kind@),
            InterpreterError::RuntimeError(kind) => InterpreterErrorView::RuntimeError(kind@),
            InterpreterError::UnknownError(kind) => InterpreterErrorView::UnknownError(*kind),
        }
    }
}

impl InterpreterErrorView {
    pub open spec fn text(self) -> Seq<char> {
        match self {
            InterpreterErrorView::TokenizerError(kind) => kind.text(),
            InterpreterErrorView::ParserError(kind) => kind.text(),
            InterpreterErrorView::RuntimeError(kind) => kind.text(),
            InterpreterErrorView::UnknownError(_) => "UnknownError: UnknownError"@,
        }
    }

    /// Whether the error is the value of a `return` on its way out.
    pub open spec fn is_return(self) -> bool {
        self matches InterpreterErrorView::RuntimeError(RuntimeErrorView::Return(_))
    }
}

impl Clone for InterpreterError {
    fn clone(&self) -> (copy: Self)
        ensures
            copy@ == self@,
    {
        match self {
            InterpreterError::TokenizerError(kind) => InterpreterError::TokenizerError(*kind),
            InterpreterError::ParserError(kind) => InterpreterError::ParserError(kind.clone()),
            InterpreterError::RuntimeError(kind) => InterpreterError::RuntimeError(kind.clone()),
            InterpreterError::UnknownError(kind) => InterpreterError::UnknownError(*kind),
        }
    }
}

impl InterpreterError {
    pub fn tokenizer_error(kind: TokenizerErrorKind) -> (error: Self)
        ensures
            error == InterpreterError::TokenizerError(kind),
    {
        InterpreterError::TokenizerError(kind)
    }

    pub fn runtime_error(kind: RuntimeErrorKind) -> (error: Self)
        ensures
            error == InterpreterError::RuntimeError(kind),
    {
        InterpreterError::RuntimeError(kind)
    }

    pub fn parser_error(kind: ParserErrorKind) -> (error: Self)
        ensures
            error == InterpreterError::ParserError(kind),
    {
        InterpreterError::ParserError(kind)
    }

    pub fn unknown_error(kind: UnknownErrorKind) -> (error: Self)
        ensures
            error == InterpreterError::UnknownError(kind),
    {
        InterpreterError::UnknownError(kind)
    }

    /// The text of the error, as it is shown and as `catch` binds it.
    pub fn to_string(&self) -> (text: String)
        ensures
            text@ == self@.text(),
    {
        match self {
            InterpreterError::TokenizerError(kind) => kind.to_string(),
            InterpreterError::ParserError(kind) => kind.to_string(),
            InterpreterError::RuntimeError(kind) => kind.to_string(),
            InterpreterError::UnknownError(_) => String::from_str("UnknownError: UnknownError"),
        }
    }
}

pub type InterpreterResult<T> = Result<T, InterpreterError>;

} // verus!
