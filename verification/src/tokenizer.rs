//! The lexer: source text to tokens.
//!
//! `lex_tokens` and `lex_errors` say, position by position, what the token
//! stream and the error list of a text are; `Tokenizer::tokenize` computes
//! exactly those.

use vstd::prelude::*;

use crate::error::{InterpreterError, InterpreterResult, TokenizerErrorKind};
use crate::text::{push_range, spells, text_of, to_chars};

verus! {

#[allow(non_camel_case_types)]
#[derive(Debug, Clone, Copy, PartialEq, Eq, Structural)]
pub enum TokenType {
    LeftParen,
    RightParen,
    LeftBrace,
    RightBrace,
    LeftBracket,
    RightBracket,
    Colon,
    Modulo,
    Comma,
    Dict,
    Dot,
    Minus,
    Plus,
    Semicolon,
    Slash,
    Star,
    Bang,
    BandEqual,
    Equal,
    EqualEqual,
    Greater,
    GreaterEqual,
    Less,
    LessEqual,
    IDENTIfIER,
    STRING,
    Number,
    And,
    Class,
    New,
    Else,
    False,
    Fun,
    For,
    If,
    Nil,
    Or,
    Return,
    Super,
    True,
    Try,
    Catch,
    Var,
    While,
    Eof,
    Import,
    Async,
    Await,
}

/// The name of a token kind, as it is written in the program text of the
/// library.
pub open spec fn kind_name(kind: TokenType) -> Seq<char> {
    match kind {
        TokenType::LeftParen => "LeftParen"@,
        TokenType::RightParen => "RightParen"@,
        TokenType::LeftBrace => "LeftBrace"@,
        TokenType::RightBrace => "RightBrace"@,
        TokenType::LeftBracket => "LeftBracket"@,
        TokenType::RightBracket => "RightBracket"@,
        TokenType::Colon => "Colon"@,
        TokenType::Modulo => "Modulo"@,
        TokenType::Comma => "Comma"@,
        TokenType::Dict => "Dict"@,
        TokenType::Dot => "Dot"@,
        TokenType::Minus => "Minus"@,
        TokenType::Plus => "Plus"@,
        TokenType::Semicolon => "Semicolon"@,
        TokenType::Slash => "Slash"@,
        TokenType::Star => "Star"@,
        TokenType::Bang => "Bang"@,
        TokenType::BandEqual => "BandEqual"@,
        TokenType::Equal => "Equal"@,
        TokenType::EqualEqual => "EqualEqual"@,
        TokenType::Greater => "Greater"@,
        TokenType::GreaterEqual => "GreaterEqual"@,
        TokenType::Less => "Less"@,
        TokenType::LessEqual => "LessEqual"@,
        TokenType::IDENTIfIER => "IDENTIfIER"@,
        TokenType::STRING => "STRING"@,
        TokenType::Number => "Number"@,
        TokenType::And => "And"@,
        TokenType::Class => "Class"@,
        TokenType::New => "New"@,
        TokenType::Else => "Else"@,
        TokenType::False => "False"@,
        TokenType::Fun => "Fun"@,
        TokenType::For => "For"@,
        TokenType::If => "If"@,
        TokenType::Nil => "Nil"@,
        TokenType::Or => "Or"@,
        TokenType::Return => "Return"@,
        TokenType::Super => "Super"@,
        TokenType::True => "True"@,
        TokenType::Try => "Try"@,
        TokenType::Catch => "Catch"@,
        TokenType::Var => "Var"@,
        TokenType::While => "While"@,
        TokenType::Eof => "Eof"@,
        TokenType::Import => "Import"@,
        TokenType::Async => "Async"@,
        TokenType::Await => "Await"@,
    }
}

impl TokenType {
    /// The name of the kind.
    pub fn to_string(&self) -> (name: String)
        ensures
            name@ == kind_name(*self),
    {
        match self {
            TokenType::LeftParen => String::from_str("LeftParen"),
            TokenType::RightParen => String::from_str("RightParen"),
            TokenType::LeftBrace => String::from_str("LeftBrace"),
            TokenType::RightBrace => String::from_str("RightBrace"),
            TokenType::LeftBracket => String::from_str("LeftBracket"),
            TokenType::RightBracket => String::from_str("RightBracket"),
            TokenType::Colon => String::from_str("Colon"),
            TokenType::Modulo => String::from_str("Modulo"),
            TokenType::Comma => String::from_str("Comma"),
            TokenType::Dict => String::from_str("Dict"),
            TokenType::Dot => String::from_str("Dot"),
            TokenType::Minus => String::from_str("Minus"),
            TokenType::Plus => String::from_str("Plus"),
            TokenType::Semicolon => String::from_str("Semicolon"),
            TokenType::Slash => String::from_str("Slash"),
            TokenType::Star => String::from_str("Star"),
            TokenType::Bang => String::from_str("Bang"),
            TokenType::BandEqual => String::from_str("BandEqual"),
            TokenType::Equal => String::from_str("Equal"),
            TokenType::EqualEqual => String::from_str("EqualEqual"),
            TokenType::Greater => String::from_str("Greater"),
            TokenType::GreaterEqual => String::from_str("GreaterEqual"),
            TokenType::Less => String::from_str("Less"),
            TokenType::LessEqual => String::from_str("LessEqual"),
            TokenType::IDENTIfIER => String::from_str("IDENTIfIER"),
            TokenType::STRING => String::from_str("STRING"),
            TokenType::Number => String::from_str("Number"),
            TokenType::And => String::from_str("And"),
            TokenType::Class => String::from_str("Class"),
            TokenType::New => String::from_str("New"),
            TokenType::Else => String::from_str("Else"),
            TokenType::False => String::from_str("False"),
            TokenType::Fun => String::from_str("Fun"),
            TokenType::For => String::from_str("For"),
            TokenType::If => String::from_str("If"),
            TokenType::Nil => String::from_str("Nil"),
            TokenType::Or => String::from_str("Or"),
            TokenType::Return => String::from_str("Return"),
            TokenType::Super => String::from_str("Super"),
            TokenType::True => String::from_str("True"),
            TokenType::Try => String::from_str("Try"),
            TokenType::Catch => String::from_str("Catch"),
            TokenType::Var => String::from_str("Var"),
            TokenType::While => String::from_str("While"),
            TokenType::Eof => String::from_str("Eof"),
            TokenType::Import => String::from_str("Import"),
            TokenType::Async => String::from_str("Async"),
            TokenType::Await => String::from_str("Await"),
        }
    }
}

/// A token: its kind, the exact source text, the literal payload of a string
/// or number, and the line it starts on.
#[derive(Debug, PartialEq)]
pub struct Token {
    pub token_type: TokenType,
    pub lexeme: String,
    pub literal: Option<String>,
    pub line: usize,
}

/// What a token holds, as mathematical values.
pub struct TokenView {
    pub token_type: TokenType,
    pub lexeme: Seq<char>,
    pub literal: Option<Seq<char>>,
    pub line: usize,
}

impl View for Token {
    type V = TokenView;

    open spec fn view(&self) -> TokenView {
        TokenView {
            token_type: self.token_type,
            lexeme: self.lexeme@,
            literal: match self.literal {
                Some(text) => Some(text@),
                None => None,
            },
            line: self.line,
        }
    }
}

impl Clone for Token {
    fn clone(&self) -> (copy: Self)
        ensures
            copy@ == self@,
    {
        Token {
            token_type: self.token_type,
            lexeme: self.lexeme.clone(),
            literal: match &self.literal {
                Some(text) => Some(text.clone()),
                None => None,
            },
            line: self.line,
        }
    }
}

/// The views of a sequence of tokens.
pub open spec fn token_views(tokens: Seq<Token>) -> Seq<TokenView> {
    tokens.map_values(|t: Token| t@)
}

pub proof fn lemma_token_views_push(tokens: Seq<Token>, token: Token)
    ensures
        token_views(tokens.push(token)) == token_views(tokens).push(token@),
{
    assert(token_views(tokens.push(token)) =~= token_views(tokens).push(token@));
}

// ---------------------------------------------------------------------------
// Character classes
// ---------------------------------------------------------------------------

pub open spec fn is_digit(c: char) -> bool {
    '0' <= c && c <= '9'
}

pub open spec fn is_letter(c: char) -> bool {
    ('a' <= c && c <= 'z') || ('A' <= c && c <= 'Z')
}

pub open spec fn is_identifier_start(c: char) -> bool {
    is_letter(c) || c == '_'
}

pub open spec fn is_identifier_part(c: char) -> bool {
    is_letter(c) || is_digit(c) || c == '_' || c == '-'
}

pub open spec fn is_space(c: char) -> bool {
    c == ' ' || c == '\t' || c == '\r' || c == '\n'
}

/// The character classes whose maximal runs the lexer looks for.
#[derive(Debug, Clone, Copy, PartialEq, Eq, Structural)]
pub enum CharClass {
    Digit,
    IdentifierPart,
    NotNewline,
    NotQuote,
}

pub open spec fn in_class(class: CharClass, c: char) -> bool {
    match class {
        CharClass::Digit => is_digit(c),
        CharClass::IdentifierPart => is_identifier_part(c),
        CharClass::NotNewline => c != '\n',
        CharClass::NotQuote => c != '"',
    }
}

/// Where the maximal run of `class` characters that starts at `i` ends: the
/// first position at or after `i` that holds no such character, or the end of
/// the text.
pub open spec fn run_end(s: Seq<char>, i: int, class: CharClass) -> int
    decreases s.len() - i,
{
    if 0 <= i < s.len() && in_class(class, s[i]) {
        run_end(s, i + 1, class)
    } else {
        i
    }
}

pub proof fn lemma_run_end(s: Seq<char>, i: int, class: CharClass)
    requires
        0 <= i <= s.len(),
    ensures
        i <= run_end(s, i, class) <= s.len(),
        forall|k: int| i <= k < run_end(s, i, class) ==> in_class(class, #[trigger] s[k]),
        run_end(s, i, class) < s.len() ==> !in_class(class, s[run_end(s, i, class)]),
    decreases s.len() - i,
{
    if i < s.len() && in_class(class, s[i]) {
        lemma_run_end(s, i + 1, class);
    }
}

// ---------------------------------------------------------------------------
// Lines
// ---------------------------------------------------------------------------

/// The line after `line`. The counter stops at the largest machine integer.
pub open spec fn next_line(line: usize) -> usize {
    if line < usize::MAX {
        (line + 1) as usize
    } else {
        line
    }
}

/// The line of position `to`, given that position `from` is on `line`: one
/// more for every newline in `s[from..to]`.
pub open spec fn line_at(s: Seq<char>, from: int, to: int, line: usize) -> usize
    decreases to - from,
{
    if 0 <= from < to <= s.len() {
        line_at(
            s,
            from + 1,
            to,
            if s[from] == '\n' {
                next_line(line)
            } else {
                line
            },
        )
    } else {
        line
    }
}

pub proof fn lemma_line_at_split(s: Seq<char>, from: int, mid: int, to: int, line: usize)
    requires
        0 <= from <= mid <= to <= s.len(),
    ensures
        line_at(s, from, to, line) == line_at(s, mid, to, line_at(s, from, mid, line)),
    decreases mid - from,
{
    if from < mid {
        let l = if s[from] == '\n' {
            next_line(line)
        } else {
            line
        };
        lemma_line_at_split(s, from + 1, mid, to, l);
    }
}

pub proof fn lemma_line_at_no_newline(s: Seq<char>, from: int, to: int, line: usize)
    requires
        0 <= from <= to <= s.len(),
        forall|k: int| from <= k < to ==> s[k] != '\n',
    ensures
        line_at(s, from, to, line) == line,
    decreases to - from,
{
    if from < to {
        lemma_line_at_no_newline(s, from + 1, to, line);
    }
}

// ---------------------------------------------------------------------------
// What one step of the lexer reads
// ---------------------------------------------------------------------------

/// The kind of a one-character token that never combines with what follows.
pub open spec fn punctuation_kind(c: char) -> Option<TokenType> {
    if c == '(' {
        Some(TokenType::LeftParen)
    } else if c == ')' {
        Some(TokenType::RightParen)
    } else if c == '[' {
        Some(TokenType::LeftBracket)
    } else if c == ']' {
        Some(TokenType::RightBracket)
    } else if c == '{' {
        Some(TokenType::LeftBrace)
    } else if c == '}' {
        Some(TokenType::RightBrace)
    } else if c == ':' {
        Some(TokenType::Colon)
    } else if c == ',' {
        Some(TokenType::Comma)
    } else if c == '.' {
        Some(TokenType::Dot)
    } else if c == '-' {
        Some(TokenType::Minus)
    } else if c == '%' {
        Some(TokenType::Modulo)
    } else if c == '+' {
        Some(TokenType::Plus)
    } else if c == ';' {
        Some(TokenType::Semicolon)
    } else if c == '*' {
        Some(TokenType::Star)
    } else {
        None
    }
}

/// For a character that may be followed by `=`: the kind of the pair and the
/// kind of the character alone.
pub open spec fn operator_kinds(c: char) -> Option<(TokenType, TokenType)> {
    if c == '!' {
        Some((TokenType::BandEqual, TokenType::Bang))
    } else if c == '=' {
        Some((TokenType::EqualEqual, TokenType::Equal))
    } else if c == '<' {
        Some((TokenType::LessEqual, TokenType::Less))
    } else if c == '>' {
        Some((TokenType::GreaterEqual, TokenType::Greater))
    } else {
        None
    }
}

/// The kind of an identifier-shaped word: a keyword's own kind, or
/// `IDENTIfIER`.
pub open spec fn word_kind(word: Seq<char>) -> TokenType {
    if word == "and"@ {
        TokenType::And
    } else if word == "class"@ {
        TokenType::Class
    } else if word == "new"@ {
        TokenType::New
    } else if word == "else"@ {
        TokenType::Else
    } else if word == "false"@ {
        TokenType::False
    } else if word == "for"@ {
        TokenType::For
    } else if word == "fun"@ {
        TokenType::Fun
    } else if word == "dict"@ {
        TokenType::Dict
    } else if word == "if"@ {
        TokenType::If
    } else if word == "nil"@ {
        TokenType::Nil
    } else if word == "or"@ {
        TokenType::Or
    } else if word == "return"@ {
        TokenType::Return
    } else if word == "try"@ {
        TokenType::Try
    } else if word == "catch"@ {
        TokenType::Catch
    } else if word == "super"@ {
        TokenType::Super
    } else if word == "true"@ {
        TokenType::True
    } else if word == "var"@ {
        TokenType::Var
    } else if word == "while"@ {
        TokenType::While
    } else if word == "import"@ {
        TokenType::Import
    } else if word == "async"@ {
        TokenType::Async
    } else if word == "await"@ {
        TokenType::Await
    } else {
        TokenType::IDENTIfIER
    }
}

/// `digits` without its trailing zeros.
pub open spec fn trim_zeros(digits: Seq<char>) -> Seq<char>
    decreases digits.len(),
{
    if digits.len() > 0 && digits.last() == '0' {
        trim_zeros(digits.drop_last())
    } else {
        digits
    }
}

/// The payload of a number literal: the whole part, a point, and the
/// fraction without trailing zeros, or `0` where nothing of it is left.
pub open spec fn normalised_number(whole: Seq<char>, fraction: Seq<char>) -> Seq<char> {
    let kept = trim_zeros(fraction);
    whole + seq!['.'] + (if kept.len() == 0 {
        seq!['0']
    } else {
        kept
    })
}

/// Where the whole part of the number that starts at `pos` ends.
pub open spec fn number_whole_end(s: Seq<char>, pos: int) -> int {
    run_end(s, pos, CharClass::Digit)
}

/// Whether the number that starts at `pos` has a fraction: a point followed
/// by a digit, right after the whole part.
pub open spec fn number_has_fraction(s: Seq<char>, pos: int) -> bool {
    let w = number_whole_end(s, pos);
    w + 1 < s.len() && s[w] == '.' && is_digit(s[w + 1])
}

/// Where the number that starts at `pos` ends.
pub open spec fn number_end(s: Seq<char>, pos: int) -> int {
    if number_has_fraction(s, pos) {
        run_end(s, number_whole_end(s, pos) + 1, CharClass::Digit)
    } else {
        number_whole_end(s, pos)
    }
}

pub open spec fn number_token(s: Seq<char>, pos: int, line: usize) -> TokenView {
    let w = number_whole_end(s, pos);
    let end = number_end(s, pos);
    TokenView {
        token_type: TokenType::Number,
        lexeme: s.subrange(pos, end),
        literal: Some(
            normalised_number(
                s.subrange(pos, w),
                if number_has_fraction(s, pos) {
                    s.subrange(w + 1, end)
                } else {
                    Seq::empty()
                },
            ),
        ),
        line,
    }
}

pub open spec fn word_token(s: Seq<char>, pos: int, line: usize) -> TokenView {
    let end = run_end(s, pos, CharClass::IdentifierPart);
    TokenView {
        token_type: word_kind(s.subrange(pos, end)),
        lexeme: s.subrange(pos, end),
        literal: None,
        line,
    }
}

/// A token without payload whose lexeme is `s[pos..end]`.
pub open spec fn plain_token(kind: TokenType, s: Seq<char>, pos: int, end: int, line: usize)
    -> TokenView {
    TokenView { token_type: kind, lexeme: s.subrange(pos, end), literal: None, line }
}

/// The string token whose opening quote is at `pos` and whose closing quote
/// is at `close`.
pub open spec fn string_token(s: Seq<char>, pos: int, close: int, line: usize) -> TokenView {
    TokenView {
        token_type: TokenType::STRING,
        lexeme: s.subrange(pos, close + 1),
        literal: Some(s.subrange(pos + 1, close)),
        line,
    }
}

pub open spec fn eof_token(line: usize) -> TokenView {
    TokenView { token_type: TokenType::Eof, lexeme: Seq::empty(), literal: None, line }
}

/// One step of the lexer: the token or the error found at a position, if
/// any, and the position after it.
pub struct Scan {
    pub token: Option<TokenView>,
    pub error: Option<TokenizerErrorKind>,
    pub next: int,
}

pub open spec fn followed_by(s: Seq<char>, pos: int, c: char) -> bool {
    pos + 1 < s.len() && s[pos + 1] == c
}

/// What stands at `pos`, which is on line `line`.
pub open spec fn scan_at(s: Seq<char>, pos: int, line: usize) -> Scan
    recommends
        0 <= pos < s.len(),
{
    let c = s[pos];
    if punctuation_kind(c) is Some {
        Scan {
            token: Some(plain_token(punctuation_kind(c)->0, s, pos, pos + 1, line)),
            error: None,
            next: pos + 1,
        }
    } else if operator_kinds(c) is Some {
        let (paired, single) = operator_kinds(c)->0;
        if followed_by(s, pos, '=') {
            Scan {
                token: Some(plain_token(paired, s, pos, pos + 2, line)),
                error: None,
                next: pos + 2,
            }
        } else {
            Scan {
                token: Some(plain_token(single, s, pos, pos + 1, line)),
                error: None,
                next: pos + 1,
            }
        }
    } else if c == '/' {
        if followed_by(s, pos, '/') {
            Scan { token: None, error: None, next: run_end(s, pos, CharClass::NotNewline) }
        } else {
            Scan {
                token: Some(plain_token(TokenType::Slash, s, pos, pos + 1, line)),
                error: None,
                next: pos + 1,
            }
        }
    } else if is_space(c) {
        Scan { token: None, error: None, next: pos + 1 }
    } else if c == '"' {
        let close = run_end(s, pos + 1, CharClass::NotQuote);
        if close < s.len() {
            Scan { token: Some(string_token(s, pos, close, line)), error: None, next: close + 1 }
        } else {
            Scan {
                token: None,
                error: Some(TokenizerErrorKind::UnterminatedString(line)),
                next: s.len() as int,
            }
        }
    } else if is_digit(c) {
        Scan { token: Some(number_token(s, pos, line)), error: None, next: number_end(s, pos) }
    } else if is_identifier_start(c) {
        Scan {
            token: Some(word_token(s, pos, line)),
            error: None,
            next: run_end(s, pos, CharClass::IdentifierPart),
        }
    } else {
        Scan {
            token: None,
            error: Some(TokenizerErrorKind::UnexpectedCharacter(c, line)),
            next: pos + 1,
        }
    }
}

/// Every step moves forward and stays inside the text.
pub proof fn lemma_scan_advances(s: Seq<char>, pos: int, line: usize)
    requires
        0 <= pos < s.len(),
    ensures
        pos < scan_at(s, pos, line).next <= s.len(),
{
    lemma_run_end(s, pos, CharClass::NotNewline);
    lemma_run_end(s, pos + 1, CharClass::NotQuote);
    lemma_run_end(s, pos, CharClass::Digit);
    lemma_run_end(s, pos, CharClass::IdentifierPart);
    let w = number_whole_end(s, pos);
    if w + 1 <= s.len() {
        lemma_run_end(s, w + 1, CharClass::Digit);
    }
    if s[pos] == '/' && followed_by(s, pos, '/') {
        assert(run_end(s, pos, CharClass::NotNewline) == run_end(s, pos + 1, CharClass::NotNewline));
        lemma_run_end(s, pos + 1, CharClass::NotNewline);
    }
    if is_digit(s[pos]) {
        assert(run_end(s, pos, CharClass::Digit) == run_end(s, pos + 1, CharClass::Digit));
        lemma_run_end(s, pos + 1, CharClass::Digit);
    }
    if is_identifier_start(s[pos]) {
        assert(run_end(s, pos, CharClass::IdentifierPart) == run_end(
            s,
            pos + 1,
            CharClass::IdentifierPart,
        ));
        lemma_run_end(s, pos + 1, CharClass::IdentifierPart);
    }
}

// ---------------------------------------------------------------------------
// The token stream and the error list of a text
// ---------------------------------------------------------------------------

/// The tokens of `s[pos..]`, where `pos` is on line `line`, without the
/// closing `Eof`.
pub open spec fn lex_tokens(s: Seq<char>, pos: int, line: usize) -> Seq<TokenView>
    decreases s.len() - pos,
{
    if 0 <= pos < s.len() {
        let step = scan_at(s, pos, line);
        proof {
            lemma_scan_advances(s, pos, line);
        }
        let rest = lex_tokens(s, step.next, line_at(s, pos, step.next, line));
        match step.token {
            Some(token) => seq![token] + rest,
            None => rest,
        }
    } else {
        Seq::empty()
    }
}

/// The errors of `s[pos..]`, where `pos` is on line `line`, in the order of
/// the text.
pub open spec fn lex_errors(s: Seq<char>, pos: int, line: usize) -> Seq<TokenizerErrorKind>
    decreases s.len() - pos,
{
    if 0 <= pos < s.len() {
        let step = scan_at(s, pos, line);
        proof {
            lemma_scan_advances(s, pos, line);
        }
        let rest = lex_errors(s, step.next, line_at(s, pos, step.next, line));
        match step.error {
            Some(error) => seq![error] + rest,
            None => rest,
        }
    } else {
        Seq::empty()
    }
}

/// The whole token stream of `s[pos..]`: its tokens and the closing `Eof`,
/// which is on the line of the end of the text.
pub open spec fn token_stream(s: Seq<char>, pos: int, line: usize) -> Seq<TokenView> {
    lex_tokens(s, pos, line).push(
        eof_token(
            if 0 <= pos <= s.len() {
                line_at(s, pos, s.len() as int, line)
            } else {
                line
            },
        ),
    )
}

/// The errors of the lexer as errors of the interpreter.
pub open spec fn as_interpreter_errors(errors: Seq<TokenizerErrorKind>) -> Seq<InterpreterError> {
    errors.map_values(|kind: TokenizerErrorKind| InterpreterError::TokenizerError(kind))
}

// ---------------------------------------------------------------------------
// What holds of every token stream
// ---------------------------------------------------------------------------

/// Where each token of `lex_tokens(s, pos, line)` starts.
pub open spec fn token_starts(s: Seq<char>, pos: int, line: usize) -> Seq<int>
    decreases s.len() - pos,
{
    if 0 <= pos < s.len() {
        let step = scan_at(s, pos, line);
        proof {
            lemma_scan_advances(s, pos, line);
        }
        let rest = token_starts(s, step.next, line_at(s, pos, step.next, line));
        match step.token {
            Some(_) => seq![pos] + rest,
            None => rest,
        }
    } else {
        Seq::empty()
    }
}

/// Where the offending text of each error of `lex_errors(s, pos, line)`
/// starts.
pub open spec fn error_starts(s: Seq<char>, pos: int, line: usize) -> Seq<int>
    decreases s.len() - pos,
{
    if 0 <= pos < s.len() {
        let step = scan_at(s, pos, line);
        proof {
            lemma_scan_advances(s, pos, line);
        }
        let rest = error_starts(s, step.next, line_at(s, pos, step.next, line));
        match step.error {
            Some(_) => seq![pos] + rest,
            None => rest,
        }
    } else {
        Seq::empty()
    }
}

/// A token that one step reads spells the text from the step's position to
/// the next one, and carries the step's line.
pub proof fn lemma_scan_token(s: Seq<char>, pos: int, line: usize)
    requires
        0 <= pos < s.len(),
        scan_at(s, pos, line).token is Some,
    ensures
        scan_at(s, pos, line).token->0.lexeme == s.subrange(pos, scan_at(s, pos, line).next),
        scan_at(s, pos, line).token->0.line == line,
        scan_at(s, pos, line).error is None,
        !is_space(s[pos]),
        !(s[pos] == '/' && followed_by(s, pos, '/')),
{
}

/// Every token starts at a position of the text, spells the text from there
/// on, and carries the line of that position.
pub proof fn lemma_tokens_located(s: Seq<char>, pos: int, line: usize)
    requires
        0 <= pos <= s.len(),
    ensures
        token_starts(s, pos, line).len() == lex_tokens(s, pos, line).len(),
        forall|k: int|
            0 <= k < lex_tokens(s, pos, line).len() ==> {
                let token = #[trigger] lex_tokens(s, pos, line)[k];
                let at = token_starts(s, pos, line)[k];
                &&& pos <= at
                &&& at + token.lexeme.len() <= s.len()
                &&& token.lexeme == s.subrange(at, at + token.lexeme.len())
                &&& token.line == line_at(s, pos, at, line)
            },
    decreases s.len() - pos,
{
    if pos < s.len() {
        let step = scan_at(s, pos, line);
        lemma_scan_advances(s, pos, line);
        let next_line = line_at(s, pos, step.next, line);
        lemma_tokens_located(s, step.next, next_line);
        let rest = lex_tokens(s, step.next, next_line);
        let rest_starts = token_starts(s, step.next, next_line);
        assert forall|k: int| 0 <= k < lex_tokens(s, pos, line).len() implies ({
            let token = #[trigger] lex_tokens(s, pos, line)[k];
            let at = token_starts(s, pos, line)[k];
            &&& pos <= at
            &&& at + token.lexeme.len() <= s.len()
            &&& token.lexeme == s.subrange(at, at + token.lexeme.len())
            &&& token.line == line_at(s, pos, at, line)
        }) by {
            let shift: int = if step.token is Some {
                1
            } else {
                0
            };
            if step.token is Some && k == 0 {
                lemma_scan_token(s, pos, line);
            } else {
                let token = rest[k - shift];
                let at = rest_starts[k - shift];
                assert(lex_tokens(s, pos, line)[k] == token);
                assert(token_starts(s, pos, line)[k] == at);
                lemma_line_at_split(s, pos, step.next, at, line);
            }
        }
    }
}

/// Parse-error locality, for the lexer: every error carries the line of the
/// position where the offending text starts, and names what stands there.
pub proof fn lemma_errors_located(s: Seq<char>, pos: int, line: usize)
    requires
        0 <= pos <= s.len(),
    ensures
        error_starts(s, pos, line).len() == lex_errors(s, pos, line).len(),
        forall|k: int|
            0 <= k < lex_errors(s, pos, line).len() ==> {
                let error = #[trigger] lex_errors(s, pos, line)[k];
                let at = error_starts(s, pos, line)[k];
                &&& pos <= at < s.len()
                &&& error.line() == line_at(s, pos, at, line)
                &&& (error == TokenizerErrorKind::UnexpectedCharacter(s[at], error.line())
                    || (error == TokenizerErrorKind::UnterminatedString(error.line()) && s[at]
                    == '"'))
            },
    decreases s.len() - pos,
{
    if pos < s.len() {
        let step = scan_at(s, pos, line);
        lemma_scan_advances(s, pos, line);
        let next_line = line_at(s, pos, step.next, line);
        lemma_errors_located(s, step.next, next_line);
        let rest = lex_errors(s, step.next, next_line);
        let rest_starts = error_starts(s, step.next, next_line);
        assert forall|k: int| 0 <= k < lex_errors(s, pos, line).len() implies ({
            let error = #[trigger] lex_errors(s, pos, line)[k];
            let at = error_starts(s, pos, line)[k];
            &&& pos <= at < s.len()
            &&& error.line() == line_at(s, pos, at, line)
            &&& (error == TokenizerErrorKind::UnexpectedCharacter(s[at], error.line()) || (error
                == TokenizerErrorKind::UnterminatedString(error.line()) && s[at] == '"'))
        }) by {
            let shift: int = if step.error is Some {
                1
            } else {
                0
            };
            if step.error is Some && k == 0 {
            } else {
                let error = rest[k - shift];
                let at = rest_starts[k - shift];
                assert(lex_errors(s, pos, line)[k] == error);
                assert(error_starts(s, pos, line)[k] == at);
                lemma_line_at_split(s, pos, step.next, at, line);
            }
        }
    }
}

/// The number of newlines in `s[from..to]`.
pub open spec fn newline_count(s: Seq<char>, from: int, to: int) -> nat
    decreases to - from,
{
    if 0 <= from < to <= s.len() {
        newline_count(s, from + 1, to) + (if s[from] == '\n' {
            1nat
        } else {
            0nat
        })
    } else {
        0
    }
}

/// Below the largest machine integer, the line of a position is the line of
/// the start plus the number of newlines between the two.
pub proof fn lemma_line_at_counts(s: Seq<char>, from: int, to: int, line: usize)
    requires
        0 <= from <= to <= s.len(),
        line + newline_count(s, from, to) <= usize::MAX,
    ensures
        line_at(s, from, to, line) == line + newline_count(s, from, to),
    decreases to - from,
{
    if from < to {
        let l = if s[from] == '\n' {
            next_line(line)
        } else {
            line
        };
        lemma_line_at_counts(s, from + 1, to, l);
    }
}

/// Where the white space and the comments that start at `i` end.
pub open spec fn blank_end(s: Seq<char>, i: int) -> int
    decreases s.len() - i,
{
    if 0 <= i < s.len() && is_space(s[i]) {
        blank_end(s, i + 1)
    } else if 0 <= i < s.len() && s[i] == '/' && followed_by(s, i, '/') {
        proof {
            lemma_scan_advances(s, i, 1);
        }
        blank_end(s, run_end(s, i, CharClass::NotNewline))
    } else {
        i
    }
}

pub proof fn lemma_blank_end(s: Seq<char>, i: int)
    requires
        0 <= i <= s.len(),
    ensures
        i <= blank_end(s, i) <= s.len(),
    decreases s.len() - i,
{
    if i < s.len() && is_space(s[i]) {
        lemma_blank_end(s, i + 1);
    } else if i < s.len() && s[i] == '/' && followed_by(s, i, '/') {
        lemma_scan_advances(s, i, 1);
        lemma_blank_end(s, run_end(s, i, CharClass::NotNewline));
    }
}

/// The text from `pos` on, put together again: the white space and comments
/// found in `s` before each token, then the token's lexeme, and what is
/// blank after the last one.
pub open spec fn rebuild(s: Seq<char>, tokens: Seq<TokenView>, pos: int) -> Seq<char>
    decreases tokens.len(),
{
    let gap = s.subrange(pos, blank_end(s, pos));
    if tokens.len() == 0 {
        gap
    } else {
        gap + tokens[0].lexeme + rebuild(
            s,
            tokens.drop_first(),
            blank_end(s, pos) + tokens[0].lexeme.len(),
        )
    }
}

/// Lex round-trip: where the lexer reports no error, the lexemes of the
/// tokens, each behind the white space and comments that precede it in the
/// text, spell the text again.
pub proof fn lemma_lex_round_trip(s: Seq<char>, pos: int, line: usize)
    requires
        0 <= pos <= s.len(),
        lex_errors(s, pos, line).len() == 0,
    ensures
        rebuild(s, lex_tokens(s, pos, line), pos) == s.subrange(pos, s.len() as int),
    decreases s.len() - pos,
{
    lemma_blank_end(s, pos);
    if pos < s.len() {
        let step = scan_at(s, pos, line);
        lemma_scan_advances(s, pos, line);
        let next_line = line_at(s, pos, step.next, line);
        let rest = lex_tokens(s, step.next, next_line);
        let tokens = lex_tokens(s, pos, line);
        assert(step.error is None && lex_errors(s, step.next, next_line).len() == 0) by {
            if step.error is Some {
                assert(lex_errors(s, pos, line).len() > 0);
            }
        }
        lemma_lex_round_trip(s, step.next, next_line);
        lemma_blank_end(s, step.next);
        let end = blank_end(s, pos);
        match step.token {
            Some(token) => {
                lemma_scan_token(s, pos, line);
                assert(end == pos);
                assert(tokens.drop_first() =~= rest);
                assert(tokens[0] == token);
                assert(rebuild(s, tokens, pos) =~= s.subrange(pos, s.len() as int));
            },
            None => {
                assert(end == blank_end(s, step.next));
                if rest.len() == 0 {
                    assert(s.subrange(step.next, end).len() == s.subrange(
                        step.next,
                        s.len() as int,
                    ).len());
                    assert(rebuild(s, tokens, pos) =~= s.subrange(pos, s.len() as int));
                } else {
                    assert(rebuild(s, tokens, pos) =~= s.subrange(pos, step.next) + rebuild(
                        s,
                        rest,
                        step.next,
                    ));
                    assert(rebuild(s, tokens, pos) =~= s.subrange(pos, s.len() as int));
                }
            },
        }
    } else {
        assert(lex_tokens(s, pos, line) =~= Seq::empty());
    }
}

/// Whether no comment starts anywhere in `s`: no slash is followed by a
/// slash.
pub open spec fn comment_free(s: Seq<char>) -> bool {
    forall|i: int| 0 <= i < s.len() && #[trigger] s[i] == '/' ==> !followed_by(s, i, '/')
}

/// Whether `t` holds white space only.
pub open spec fn spaces_only(t: Seq<char>) -> bool {
    forall|k: int| 0 <= k < t.len() ==> is_space(#[trigger] t[k])
}

/// In a text without comments, what lies between two tokens is white
/// space.
pub proof fn lemma_gap_is_space(s: Seq<char>, pos: int)
    requires
        0 <= pos <= s.len(),
        comment_free(s),
    ensures
        spaces_only(s.subrange(pos, blank_end(s, pos))),
    decreases s.len() - pos,
{
    lemma_blank_end(s, pos);
    if pos < s.len() && is_space(s[pos]) {
        lemma_gap_is_space(s, pos + 1);
        lemma_blank_end(s, pos + 1);
        let gap = s.subrange(pos, blank_end(s, pos));
        let rest = s.subrange(pos + 1, blank_end(s, pos + 1));
        assert forall|k: int| 0 <= k < gap.len() implies is_space(#[trigger] gap[k]) by {
            if k > 0 {
                assert(gap[k] == rest[k - 1]);
            }
        }
    } else if pos < s.len() && s[pos] == '/' && followed_by(s, pos, '/') {
        assert(false);
    }
}

/// Lex round-trip without comments: where the text holds no comment and
/// the lexer reports no error, the text is the lexemes of its tokens in
/// order, each behind a run of white space, and a last run of white space.
pub proof fn lemma_lex_round_trip_plain(s: Seq<char>, pos: int, line: usize)
    requires
        0 <= pos <= s.len(),
        comment_free(s),
        lex_errors(s, pos, line).len() == 0,
    ensures
        rebuild(s, lex_tokens(s, pos, line), pos) == s.subrange(pos, s.len() as int),
        forall|from: int|
            0 <= from <= s.len() ==> spaces_only(
                #[trigger] s.subrange(from, blank_end(s, from)),
            ),
{
    lemma_lex_round_trip(s, pos, line);
    assert forall|from: int| 0 <= from <= s.len() implies spaces_only(
        #[trigger] s.subrange(from, blank_end(s, from)),
    ) by {
        lemma_gap_is_space(s, from);
    }
}

/// A zero at the end of the fraction of a literal changes nothing of its
/// payload: `1.50` and `1.5` have one payload, and so have `42` and `42.0`.
pub proof fn lemma_trailing_zero_dropped(whole: Seq<char>, fraction: Seq<char>)
    ensures
        normalised_number(whole, fraction.push('0')) == normalised_number(whole, fraction),
        normalised_number(whole, seq!['0']) == normalised_number(whole, Seq::empty()),
{
    assert(fraction.push('0').drop_last() =~= fraction);
    let zero = seq!['0'];
    let none = Seq::<char>::empty();
    assert(zero.drop_last() =~= none);
    assert(trim_zeros(zero) == trim_zeros(zero.drop_last()));
    assert(trim_zeros(none) == none);
}

/// The value of a run of decimal digits.
pub open spec fn digits_value(digits: Seq<char>) -> nat
    decreases digits.len(),
{
    if digits.len() == 0 {
        0
    } else {
        digits_value(digits.drop_last()) * 10 + (digits.last() as nat - '0' as nat) as nat
    }
}

pub open spec fn power_of_ten(n: nat) -> nat
    decreases n,
{
    if n == 0 {
        1
    } else {
        10 * power_of_ten((n - 1) as nat)
    }
}

/// Cutting trailing zeros leaves a fraction of the same value: as the
/// fraction of a number, `digits` over ten to its length equals what is kept
/// over ten to its length.
pub proof fn lemma_trim_zeros_value(digits: Seq<char>)
    ensures
        trim_zeros(digits).len() <= digits.len(),
        trim_zeros(digits) == digits.take(trim_zeros(digits).len() as int),
        trim_zeros(digits).len() > 0 ==> trim_zeros(digits).last() != '0',
        digits_value(digits) * power_of_ten(trim_zeros(digits).len()) == digits_value(
            trim_zeros(digits),
        ) * power_of_ten(digits.len()),
    decreases digits.len(),
{
    if digits.len() > 0 && digits.last() == '0' {
        let shorter = digits.drop_last();
        lemma_trim_zeros_value(shorter);
        let kept = trim_zeros(shorter);
        assert(kept =~= digits.take(kept.len() as int));
        let a = digits_value(shorter);
        let b = power_of_ten(kept.len());
        let c = digits_value(kept);
        let d = power_of_ten(shorter.len());
        assert(digits_value(digits) == a * 10);
        assert(power_of_ten(digits.len()) == 10 * d);
        assert(a * b == c * d ==> (a * 10) * b == c * (10 * d)) by (nonlinear_arith);
    } else {
        assert(digits =~= digits.take(digits.len() as int));
    }
}

/// Number normalisation: the payload of a number literal is its whole part,
/// a point and a fraction that is never empty, that ends in a zero only
/// where it is the single digit `0`, and whose value as a fraction is that of
/// the literal's own.
pub proof fn lemma_normalised_number(whole: Seq<char>, fraction: Seq<char>)
    ensures
        ({
            let payload = normalised_number(whole, fraction);
            let kept = payload.subrange(whole.len() as int + 1, payload.len() as int);
            &&& payload.len() >= whole.len() + 2
            &&& payload.subrange(0, whole.len() as int) == whole
            &&& payload[whole.len() as int] == '.'
            &&& (kept.last() == '0' ==> kept == seq!['0'])
            &&& digits_value(fraction) * power_of_ten(kept.len()) == digits_value(kept)
                * power_of_ten(fraction.len())
        }),
{
    lemma_trim_zeros_value(fraction);
    let payload = normalised_number(whole, fraction);
    let kept = payload.subrange(whole.len() as int + 1, payload.len() as int);
    let trimmed = trim_zeros(fraction);
    assert(payload.subrange(0, whole.len() as int) =~= whole);
    if trimmed.len() == 0 {
        assert(kept =~= seq!['0']);
        let zero = seq!['0'];
        assert(zero.drop_last() =~= Seq::<char>::empty());
        assert(zero.last() == '0');
        assert(digits_value(zero.drop_last()) == 0);
        assert(digits_value(zero) == 0);
        assert(digits_value(trimmed) == 0);
        assert(power_of_ten(0) == 1);
        assert(digits_value(fraction) == 0) by (nonlinear_arith)
            requires
                digits_value(fraction) * 1 == 0 * power_of_ten(fraction.len()),
        ;
        assert(digits_value(fraction) * power_of_ten(kept.len()) == 0) by (nonlinear_arith)
            requires
                digits_value(fraction) == 0,
        ;
        assert(digits_value(kept) * power_of_ten(fraction.len()) == 0) by (nonlinear_arith)
            requires
                digits_value(kept) == 0,
        ;
    } else {
        assert(kept =~= trimmed);
    }
}

// ---------------------------------------------------------------------------
// The lexer
// ---------------------------------------------------------------------------

pub struct Tokenizer {
    pub current: usize,
    pub tokens: Vec<Token>,
    pub line: usize,
    pub errors: Vec<InterpreterError>,
}

fn is_digit_char(c: char) -> (yes: bool)
    ensures
        yes == is_digit(c),
{
    '0' <= c && c <= '9'
}

fn is_identifier_start_char(c: char) -> (yes: bool)
    ensures
        yes == is_identifier_start(c),
{
    ('a' <= c && c <= 'z') || ('A' <= c && c <= 'Z') || c == '_'
}

fn class_has(class: CharClass, c: char) -> (yes: bool)
    ensures
        yes == in_class(class, c),
{
    match class {
        CharClass::Digit => is_digit_char(c),
        CharClass::IdentifierPart => is_identifier_start_char(c) || is_digit_char(c) || c == '-',
        CharClass::NotNewline => c != '\n',
        CharClass::NotQuote => c != '"',
    }
}

fn punctuation(c: char) -> (kind: Option<TokenType>)
    ensures
        kind == punctuation_kind(c),
{
    if c == '(' {
        Some(TokenType::LeftParen)
    } else if c == ')' {
        Some(TokenType::RightParen)
    } else if c == '[' {
        Some(TokenType::LeftBracket)
    } else if c == ']' {
        Some(TokenType::RightBracket)
    } else if c == '{' {
        Some(TokenType::LeftBrace)
    } else if c == '}' {
        Some(TokenType::RightBrace)
    } else if c == ':' {
        Some(TokenType::Colon)
    } else if c == ',' {
        Some(TokenType::Comma)
    } else if c == '.' {
        Some(TokenType::Dot)
    } else if c == '-' {
        Some(TokenType::Minus)
    } else if c == '%' {
        Some(TokenType::Modulo)
    } else if c == '+' {
        Some(TokenType::Plus)
    } else if c == ';' {
        Some(TokenType::Semicolon)
    } else if c == '*' {
        Some(TokenType::Star)
    } else {
        None
    }
}

fn operator(c: char) -> (kinds: Option<(TokenType, TokenType)>)
    ensures
        kinds == operator_kinds(c),
{
    if c == '!' {
        Some((TokenType::BandEqual, TokenType::Bang))
    } else if c == '=' {
        Some((TokenType::EqualEqual, TokenType::Equal))
    } else if c == '<' {
        Some((TokenType::LessEqual, TokenType::Less))
    } else if c == '>' {
        Some((TokenType::GreaterEqual, TokenType::Greater))
    } else {
        None
    }
}

/// The end of the run of `class` characters that starts at `from`.
fn scan_run(chars: &Vec<char>, from: usize, class: CharClass) -> (end: usize)
    requires
        from <= chars.len(),
    ensures
        end == run_end(chars@, from as int, class),
        from <= end <= chars.len(),
{
    let mut i: usize = from;
    while i < chars.len() && class_has(class, chars[i])
        invariant
            from <= i <= chars.len(),
            run_end(chars@, i as int, class) == run_end(chars@, from as int, class),
        decreases chars.len() - i,
    {
        i += 1;
    }
    i
}

/// The line of position `to`, where `from` is on `line`.
fn count_lines(chars: &Vec<char>, from: usize, to: usize, line: usize) -> (after: usize)
    requires
        from <= to <= chars.len(),
    ensures
        after == line_at(chars@, from as int, to as int, line),
{
    let mut i: usize = from;
    let mut current: usize = line;
    while i < to
        invariant
            from <= i <= to <= chars.len(),
            line_at(chars@, i as int, to as int, current) == line_at(
                chars@,
                from as int,
                to as int,
                line,
            ),
        decreases to - i,
    {
        if chars[i] == '\n' && current < usize::MAX {
            current += 1;
        }
        i += 1;
    }
    current
}

/// The kind of the word `chars[from..to]`.
fn kind_of_word(chars: &Vec<char>, from: usize, to: usize) -> (kind: TokenType)
    requires
        from <= to <= chars.len(),
    ensures
        kind == word_kind(chars@.subrange(from as int, to as int)),
{
    if spells(chars, from, to, "and") {
        TokenType::And
    } else if spells(chars, from, to, "class") {
        TokenType::Class
    } else if spells(chars, from, to, "new") {
        TokenType::New
    } else if spells(chars, from, to, "else") {
        TokenType::Else
    } else if spells(chars, from, to, "false") {
        TokenType::False
    } else if spells(chars, from, to, "for") {
        TokenType::For
    } else if spells(chars, from, to, "fun") {
        TokenType::Fun
    } else if spells(chars, from, to, "dict") {
        TokenType::Dict
    } else if spells(chars, from, to, "if") {
        TokenType::If
    } else if spells(chars, from, to, "nil") {
        TokenType::Nil
    } else if spells(chars, from, to, "or") {
        TokenType::Or
    } else if spells(chars, from, to, "return") {
        TokenType::Return
    } else if spells(chars, from, to, "try") {
        TokenType::Try
    } else if spells(chars, from, to, "catch") {
        TokenType::Catch
    } else if spells(chars, from, to, "super") {
        TokenType::Super
    } else if spells(chars, from, to, "true") {
        TokenType::True
    } else if spells(chars, from, to, "var") {
        TokenType::Var
    } else if spells(chars, from, to, "while") {
        TokenType::While
    } else if spells(chars, from, to, "import") {
        TokenType::Import
    } else if spells(chars, from, to, "async") {
        TokenType::Async
    } else if spells(chars, from, to, "await") {
        TokenType::Await
    } else {
        TokenType::IDENTIfIER
    }
}

/// Where `chars[from..to]` ends once its trailing zeros are cut.
fn trimmed_end(chars: &Vec<char>, from: usize, to: usize) -> (end: usize)
    requires
        from <= to <= chars.len(),
    ensures
        from <= end <= to,
        chars@.subrange(from as int, end as int) == trim_zeros(
            chars@.subrange(from as int, to as int),
        ),
{
    let mut end: usize = to;
    while end > from && chars[end - 1] == '0'
        invariant
            from <= end <= to <= chars.len(),
            trim_zeros(chars@.subrange(from as int, end as int)) == trim_zeros(
                chars@.subrange(from as int, to as int),
            ),
        decreases end,
    {
        assert(chars@.subrange(from as int, end as int).drop_last() == chars@.subrange(
            from as int,
            end - 1,
        ));
        end -= 1;
    }
    end
}

impl Tokenizer {
    pub fn new() -> (tokenizer: Self)
        ensures
            tokenizer.current == 0,
            tokenizer.line == 1,
            tokenizer.tokens@.len() == 0,
            tokenizer.errors@.len() == 0,
    {
        Tokenizer { current: 0, tokens: Vec::new(), line: 1, errors: Vec::new() }
    }

    /// A copy of the tokens read so far.
    pub fn get_tokens(&self) -> (tokens: Vec<Token>)
        ensures
            token_views(tokens@) == token_views(self.tokens@),
    {
        let mut tokens: Vec<Token> = Vec::new();
        let mut i: usize = 0;
        while i < self.tokens.len()
            invariant
                i <= self.tokens.len(),
                token_views(tokens@) == token_views(self.tokens@.take(i as int)),
            decreases self.tokens.len() - i,
        {
            let ghost before = tokens@;
            let copy = self.tokens[i].clone();
            assert(copy@ == self.tokens@[i as int]@);
            tokens.push(copy);
            i += 1;
            proof {
                assert(self.tokens@.take(i as int) =~= self.tokens@.take(i - 1).push(
                    self.tokens@[i - 1],
                ));
                lemma_token_views_push(before, copy);
                lemma_token_views_push(self.tokens@.take(i - 1), self.tokens@[i - 1]);
            }
        }
        assert(self.tokens@.take(i as int) == self.tokens@);
        tokens
    }

    /// Reads `input` from position `current` on, which is on line `line`:
    /// appends its tokens and the closing `Eof` to `tokens`, and its errors to
    /// `errors`. Errors do not stop the lexer, and the result is always `Ok`.
    pub fn tokenize(&mut self, input: &str) -> (result: InterpreterResult<()>)
        ensures
            result is Ok,
            token_views(final(self).tokens@) == token_views(old(self).tokens@) + token_stream(
                input@,
                old(self).current as int,
                old(self).line,
            ),
            final(self).errors@ == old(self).errors@ + as_interpreter_errors(
                lex_errors(input@, old(self).current as int, old(self).line),
            ),
            old(self).current <= input@.len() ==> final(self).current == input@.len()
                && final(self).line == line_at(
                input@,
                old(self).current as int,
                input@.len() as int,
                old(self).line,
            ),
            old(self).current > input@.len() ==> final(self).current == old(self).current
                && final(self).line == old(self).line,
    {
        let chars = to_chars(input);
        let ghost s = input@;
        let ghost start = self.current as int;
        let ghost first_line = self.line;
        while self.current < chars.len()
            invariant
                chars@ == s,
                start <= s.len() ==> start <= self.current <= s.len(),
                start > s.len() ==> self.current == start && self.line == first_line,
                token_views(self.tokens@) + lex_tokens(s, self.current as int, self.line)
                    == token_views(old(self).tokens@) + lex_tokens(s, start, first_line),
                self.errors@ + as_interpreter_errors(
                    lex_errors(s, self.current as int, self.line),
                ) == old(self).errors@ + as_interpreter_errors(lex_errors(s, start, first_line)),
                start <= s.len() ==> line_at(s, self.current as int, s.len() as int, self.line)
                    == line_at(s, start, s.len() as int, first_line),
            decreases chars.len() - self.current,
        {
            let ghost pos = self.current as int;
            let ghost line = self.line;
            let ghost tokens_before = token_views(self.tokens@);
            let ghost errors_before = self.errors@;
            proof {
                lemma_scan_advances(s, pos, line);
            }
            self.scan(&chars);
            proof {
                let step = scan_at(s, pos, line);
                lemma_line_at_split(s, pos, step.next, s.len() as int, line);
                let rest = lex_tokens(s, step.next, self.line);
                let rest_errors = lex_errors(s, step.next, self.line);
                match step.token {
                    Some(token) => {
                        assert(tokens_before.push(token) + rest =~= tokens_before + (seq![token]
                            + rest));
                    },
                    None => {},
                }
                match step.error {
                    Some(error) => {
                        let e = InterpreterError::TokenizerError(error);
                        assert(as_interpreter_errors(seq![error] + rest_errors) =~= seq![e]
                            + as_interpreter_errors(rest_errors));
                        assert(errors_before.push(e) + as_interpreter_errors(rest_errors)
                            =~= errors_before + (seq![e] + as_interpreter_errors(rest_errors)));
                    },
                    None => {},
                }
            }
        }
        let line = self.line;
        self.add_token(
            Token { token_type: TokenType::Eof, lexeme: String::new(), literal: None, line },
        );
        proof {
            assert(lex_tokens(s, self.current as int, self.line) =~= Seq::empty());
            assert(lex_errors(s, self.current as int, self.line) =~= Seq::empty());
            assert(as_interpreter_errors(Seq::empty()) =~= Seq::empty());
            assert(token_views(old(self).tokens@) + token_stream(s, start, first_line)
                =~= (token_views(old(self).tokens@) + lex_tokens(s, start, first_line)).push(
                eof_token(line),
            ));
            assert(self.errors@ =~= self.errors@ + Seq::<InterpreterError>::empty());
            assert(token_views(self.tokens@) =~= (token_views(old(self).tokens@) + lex_tokens(
                s,
                start,
                first_line,
            )).push(eof_token(line))) by {
                let before = self.tokens@.drop_last();
                assert(token_views(before) + Seq::<TokenView>::empty() =~= token_views(before));
            }
        }
        Ok(())
    }

    /// One step: reads what stands at `current` and moves behind it.
    fn scan(&mut self, chars: &Vec<char>)
        requires
            old(self).current < chars.len(),
        ensures
            final(self).current == scan_at(chars@, old(self).current as int, old(self).line).next,
            final(self).line == line_at(
                chars@,
                old(self).current as int,
                final(self).current as int,
                old(self).line,
            ),
            token_views(final(self).tokens@) == (match scan_at(
                chars@,
                old(self).current as int,
                old(self).line,
            ).token {
                Some(token) => token_views(old(self).tokens@).push(token),
                None => token_views(old(self).tokens@),
            }),
            final(self).errors@ == (match scan_at(
                chars@,
                old(self).current as int,
                old(self).line,
            ).error {
                Some(error) => old(self).errors@.push(InterpreterError::TokenizerError(error)),
                None => old(self).errors@,
            }),
    {
        let ghost s = chars@;
        let pos = self.current;
        let line = self.line;
        let c = chars[pos];
        proof {
            lemma_scan_advances(s, pos as int, line);
        }
        if let Some(kind) = punctuation(c) {
            self.add_plain(chars, kind, pos + 1);
        } else if let Some((paired, single)) = operator(c) {
            if self.peek_next(chars) == '=' {
                self.add_plain(chars, paired, pos + 2);
            } else {
                self.add_plain(chars, single, pos + 1);
            }
        } else if c == '/' {
            if self.peek_next(chars) == '/' {
                self.current = scan_run(chars, pos, CharClass::NotNewline);
                proof {
                    lemma_run_end(s, pos as int, CharClass::NotNewline);
                    lemma_line_at_no_newline(s, pos as int, self.current as int, line);
                }
            } else {
                self.add_plain(chars, TokenType::Slash, pos + 1);
            }
        } else if c == '\n' {
            if line < usize::MAX {
                self.line = line + 1;
            }
            self.current = pos + 1;
            assert(line_at(s, pos + 1, pos + 1, next_line(line)) == next_line(line));
        } else if c == ' ' || c == '\t' || c == '\r' {
            self.current = pos + 1;
            assert(line_at(s, pos + 1, pos + 1, line) == line);
        } else if c == '"' {
            match self.string(chars) {
                Ok(_) => {
                    self.current += 1;
                },
                Err(e) => {
                    self.add_error(e);
                },
            }
        } else if is_digit_char(c) {
            self.number(chars);
            self.current += 1;
        } else if is_identifier_start_char(c) {
            self.identifier(chars);
            self.current += 1;
        } else {
            let err = InterpreterError::tokenizer_error(
                TokenizerErrorKind::UnexpectedCharacter(c, line),
            );
            self.add_error(err);
            self.current = pos + 1;
            assert(line_at(s, pos + 1, pos + 1, line) == line);
        }
    }

    /// Appends the token of kind `kind` whose text is `chars[current..end]`
    /// and moves to `end`. The text holds no newline.
    fn add_plain(&mut self, chars: &Vec<char>, kind: TokenType, end: usize)
        requires
            old(self).current <= end <= chars.len(),
            forall|k: int| old(self).current <= k < end ==> chars@[k] != '\n',
        ensures
            final(self).current == end,
            final(self).line == old(self).line,
            final(self).line == line_at(
                chars@,
                old(self).current as int,
                end as int,
                old(self).line,
            ),
            final(self).errors@ == old(self).errors@,
            token_views(final(self).tokens@) == token_views(old(self).tokens@).push(
                plain_token(kind, chars@, old(self).current as int, end as int, old(self).line),
            ),
    {
        let lexeme = text_of(chars, self.current, end);
        let line = self.line;
        proof {
            lemma_line_at_no_newline(chars@, self.current as int, end as int, line);
        }
        self.add_token(Token { token_type: kind, lexeme, literal: None, line });
        self.current = end;
    }

    fn add_error(&mut self, error: InterpreterError)
        ensures
            final(self).errors@ == old(self).errors@.push(error),
            final(self).tokens == old(self).tokens,
            final(self).current == old(self).current,
            final(self).line == old(self).line,
    {
        self.errors.push(error);
    }

    pub fn add_token(&mut self, token: Token)
        ensures
            final(self).tokens@ == old(self).tokens@.push(token),
            token_views(final(self).tokens@) == token_views(old(self).tokens@).push(token@),
            final(self).errors == old(self).errors,
            final(self).current == old(self).current,
            final(self).line == old(self).line,
    {
        self.tokens.push(token);
        proof {
            lemma_token_views_push(old(self).tokens@, token);
        }
    }

    /// The character after the current one, or the null character at the end
    /// of the text.
    pub fn peek_next(&self, chars: &Vec<char>) -> (c: char)
        ensures
            c == (if self.current + 1 < chars@.len() {
                chars@[self.current + 1]
            } else {
                '\0'
            }),
    {
        if self.current >= chars.len() || self.current + 1 >= chars.len() {
            '\0'
        } else {
            chars[self.current + 1]
        }
    }

    /// Reads the string whose opening quote is at `current`, and stops on
    /// its closing quote. Without a closing quote the rest of the text is
    /// consumed and the error is returned.
    fn string(&mut self, chars: &Vec<char>) -> (result: InterpreterResult<()>)
        requires
            old(self).current < chars.len(),
            chars@[old(self).current as int] == '"',
        ensures
            final(self).errors == old(self).errors,
            final(self).line == line_at(
                chars@,
                old(self).current as int,
                scan_at(chars@, old(self).current as int, old(self).line).next,
                old(self).line,
            ),
            match result {
                Ok(_) => {
                    let close = run_end(chars@, old(self).current + 1, CharClass::NotQuote);
                    &&& close < chars@.len()
                    &&& final(self).current == close
                    &&& token_views(final(self).tokens@) == token_views(old(self).tokens@).push(
                        string_token(chars@, old(self).current as int, close, old(self).line),
                    )
                },
                Err(e) => {
                    &&& run_end(chars@, old(self).current + 1, CharClass::NotQuote)
                        >= chars@.len()
                    &&& final(self).current == chars@.len()
                    &&& e == InterpreterError::TokenizerError(
                        TokenizerErrorKind::UnterminatedString(old(self).line),
                    )
                    &&& final(self).tokens == old(self).tokens
                },
            },
    {
        let pos = self.current;
        let line = self.line;
        let close = scan_run(chars, pos + 1, CharClass::NotQuote);
        if close >= chars.len() {
            self.line = count_lines(chars, pos, chars.len(), line);
            self.current = chars.len();
            return Err(
                InterpreterError::tokenizer_error(TokenizerErrorKind::UnterminatedString(line)),
            );
        }
        let value = text_of(chars, pos + 1, close);
        let lexeme = text_of(chars, pos, close + 1);
        self.add_token(Token { token_type: TokenType::STRING, lexeme, literal: Some(value), line });
        self.line = count_lines(chars, pos, close + 1, line);
        self.current = close;
        Ok(())
    }

    /// Reads the number that starts at `current`, and stops on its last
    /// character.
    pub fn number(&mut self, chars: &Vec<char>)
        requires
            old(self).current < chars.len(),
            is_digit(chars@[old(self).current as int]),
        ensures
            final(self).errors == old(self).errors,
            final(self).current == number_end(chars@, old(self).current as int) - 1,
            old(self).current <= final(self).current < chars@.len(),
            final(self).line == old(self).line,
            final(self).line == line_at(
                chars@,
                old(self).current as int,
                number_end(chars@, old(self).current as int),
                old(self).line,
            ),
            token_views(final(self).tokens@) == token_views(old(self).tokens@).push(
                number_token(chars@, old(self).current as int, old(self).line),
            ),
    {
        let ghost s = chars@;
        let start = self.current;
        let line = self.line;
        let whole_end = scan_run(chars, start, CharClass::Digit);
        let mut end = whole_end;
        let mut value = text_of(chars, start, whole_end);
        value.push('.');
        let has_fraction = whole_end < chars.len() && chars[whole_end] == '.' && whole_end + 1
            < chars.len() && is_digit_char(chars[whole_end + 1]);
        if has_fraction {
            end = scan_run(chars, whole_end + 1, CharClass::Digit);
            let kept = trimmed_end(chars, whole_end + 1, end);
            if kept == whole_end + 1 {
                value.push('0');
            } else {
                push_range(&mut value, chars, whole_end + 1, kept);
            }
        } else {
            value.push('0');
            assert(trim_zeros(Seq::<char>::empty()) =~= Seq::<char>::empty());
        }
        let lexeme = text_of(chars, start, end);
        proof {
            lemma_run_end(s, start as int, CharClass::Digit);
            if has_fraction {
                lemma_run_end(s, whole_end + 1, CharClass::Digit);
            }
            assert forall|k: int| start <= k < end implies s[k] != '\n' by {
                if k > whole_end {
                    assert(in_class(CharClass::Digit, s[k]));
                } else if k < whole_end {
                    assert(in_class(CharClass::Digit, s[k]));
                }
            }
            lemma_line_at_no_newline(s, start as int, end as int, line);
            assert(value@ =~= number_token(s, start as int, line).literal->0);
            assert(run_end(s, start as int, CharClass::Digit) == run_end(
                s,
                start + 1,
                CharClass::Digit,
            ));
            lemma_run_end(s, start + 1, CharClass::Digit);
        }
        self.add_token(Token { token_type: TokenType::Number, lexeme, literal: Some(value), line });
        self.current = end - 1;
    }

    /// Reads the identifier or keyword that starts at `current`, and stops
    /// on its last character.
    pub fn identifier(&mut self, chars: &Vec<char>)
        requires
            old(self).current < chars.len(),
            is_identifier_start(chars@[old(self).current as int]),
        ensures
            final(self).errors == old(self).errors,
            final(self).current == run_end(
                chars@,
                old(self).current as int,
                CharClass::IdentifierPart,
            ) - 1,
            old(self).current <= final(self).current < chars@.len(),
            final(self).line == old(self).line,
            final(self).line == line_at(
                chars@,
                old(self).current as int,
                run_end(chars@, old(self).current as int, CharClass::IdentifierPart),
                old(self).line,
            ),
            token_views(final(self).tokens@) == token_views(old(self).tokens@).push(
                word_token(chars@, old(self).current as int, old(self).line),
            ),
    {
        let ghost s = chars@;
        let start = self.current;
        let line = self.line;
        let end = scan_run(chars, start, CharClass::IdentifierPart);
        let token_type = kind_of_word(chars, start, end);
        let lexeme = text_of(chars, start, end);
        proof {
            lemma_run_end(s, start as int, CharClass::IdentifierPart);
            assert forall|k: int| start <= k < end implies s[k] != '\n' by {
                assert(in_class(CharClass::IdentifierPart, s[k]));
            }
            lemma_line_at_no_newline(s, start as int, end as int, line);
            assert(run_end(s, start as int, CharClass::IdentifierPart) == run_end(
                s,
                start + 1,
                CharClass::IdentifierPart,
            ));
            lemma_run_end(s, start + 1, CharClass::IdentifierPart);
        }
        self.add_token(Token { token_type, lexeme, literal: None, line });
        self.current = end - 1;
    }
}

} // verus!
