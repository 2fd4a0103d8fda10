use alpha::error::{InterpreterError, TokenizerErrorKind};
use alpha::tokenizer::{Token, TokenType, Tokenizer};

fn lex(source: &str) -> Tokenizer {
    let mut tokenizer = Tokenizer::new();
    assert!(tokenizer.tokenize(source).is_ok());
    tokenizer
}

fn kinds(source: &str) -> Vec<TokenType> {
    lex(source).tokens.iter().map(|t| t.token_type).collect()
}

fn lexemes(source: &str) -> Vec<String> {
    lex(source).tokens.iter().map(|t| t.lexeme.clone()).collect()
}

fn error_kinds(tokenizer: &Tokenizer) -> Vec<TokenizerErrorKind> {
    tokenizer
        .errors
        .iter()
        .map(|e| match e {
            InterpreterError::TokenizerError(kind) => *kind,
            _ => panic!("not a lexer error"),
        })
        .collect()
}

#[test]
fn empty_text_gives_eof_on_line_one() {
    let tokenizer = lex("");
    assert_eq!(
        tokenizer.tokens,
        vec![Token { token_type: TokenType::Eof, lexeme: String::new(), literal: None, line: 1 }]
    );
    assert!(tokenizer.errors.is_empty());
    assert_eq!(tokenizer.current, 0);
}

#[test]
fn punctuation_and_operators() {
    assert_eq!(
        kinds("( ) { } [ ] : , . - + ; * % / ! != = == < <= > >="),
        vec![
            TokenType::LeftParen,
            TokenType::RightParen,
            TokenType::LeftBrace,
            TokenType::RightBrace,
            TokenType::LeftBracket,
            TokenType::RightBracket,
            TokenType::Colon,
            TokenType::Comma,
            TokenType::Dot,
            TokenType::Minus,
            TokenType::Plus,
            TokenType::Semicolon,
            TokenType::Star,
            TokenType::Modulo,
            TokenType::Slash,
            TokenType::Bang,
            TokenType::BandEqual,
            TokenType::Equal,
            TokenType::EqualEqual,
            TokenType::Less,
            TokenType::LessEqual,
            TokenType::Greater,
            TokenType::GreaterEqual,
            TokenType::Eof,
        ]
    );
}

#[test]
fn operator_at_the_end_of_the_text_stands_alone() {
    assert_eq!(kinds("a ="), vec![TokenType::IDENTIfIER, TokenType::Equal, TokenType::Eof]);
    assert_eq!(lexemes("a<=b"), vec!["a", "<=", "b", ""]);
}

#[test]
fn keywords_and_identifiers() {
    assert_eq!(
        kinds("and class new else false for fun dict if nil or return try catch super true var while import async await"),
        vec![
            TokenType::And,
            TokenType::Class,
            TokenType::New,
            TokenType::Else,
            TokenType::False,
            TokenType::For,
            TokenType::Fun,
            TokenType::Dict,
            TokenType::If,
            TokenType::Nil,
            TokenType::Or,
            TokenType::Return,
            TokenType::Try,
            TokenType::Catch,
            TokenType::Super,
            TokenType::True,
            TokenType::Var,
            TokenType::While,
            TokenType::Import,
            TokenType::Async,
            TokenType::Await,
            TokenType::Eof,
        ]
    );
    assert_eq!(
        kinds("andy _x a-b x1 This"),
        vec![
            TokenType::IDENTIfIER,
            TokenType::IDENTIfIER,
            TokenType::IDENTIfIER,
            TokenType::IDENTIfIER,
            TokenType::IDENTIfIER,
            TokenType::Eof
        ]
    );
    assert_eq!(lexemes("a-b"), vec!["a-b", ""]);
}

#[test]
fn number_payload_is_normalised() {
    let tokens = lex("7 12.500 0.0 3.14 10.").tokens;
    let payloads: Vec<Option<String>> = tokens.iter().map(|t| t.literal.clone()).collect();
    assert_eq!(
        payloads,
        vec![
            Some(String::from("7.0")),
            Some(String::from("12.5")),
            Some(String::from("0.0")),
            Some(String::from("3.14")),
            Some(String::from("10.0")),
            None,
            None
        ]
    );
    assert_eq!(lexemes("7 12.500 0.0 3.14 10."), vec!["7", "12.500", "0.0", "3.14", "10", ".", ""]);
    assert_eq!(tokens[1].token_type, TokenType::Number);
}

#[test]
fn string_keeps_its_characters_without_escapes() {
    let tokens = lex("\"a\\nb c\"").tokens;
    assert_eq!(
        tokens[0],
        Token {
            token_type: TokenType::STRING,
            lexeme: String::from("\"a\\nb c\""),
            literal: Some(String::from("a\\nb c")),
            line: 1
        }
    );
}

#[test]
fn unterminated_string_is_an_error_on_its_line() {
    let tokenizer = lex("x\n\"abc\ndef");
    assert_eq!(error_kinds(&tokenizer), vec![TokenizerErrorKind::UnterminatedString(2)]);
    assert_eq!(
        tokenizer.tokens.iter().map(|t| (t.token_type, t.line)).collect::<Vec<_>>(),
        vec![(TokenType::IDENTIfIER, 1), (TokenType::Eof, 3)]
    );
    assert_eq!(
        tokenizer.errors[0].to_string(),
        "[line 2] Error: Unterminated string."
    );
}

#[test]
fn unknown_characters_are_collected_and_lexing_goes_on() {
    let tokenizer = lex("a @ b\n# c é");
    assert_eq!(
        error_kinds(&tokenizer),
        vec![
            TokenizerErrorKind::UnexpectedCharacter('@', 1),
            TokenizerErrorKind::UnexpectedCharacter('#', 2),
            TokenizerErrorKind::UnexpectedCharacter('é', 2),
        ]
    );
    assert_eq!(lexemes("a @ b\n# c é"), vec!["a", "b", "c", ""]);
    assert_eq!(tokenizer.errors[0].to_string(), "[line 1] Error: Unexpected character: @");
}

#[test]
fn lines_are_counted_over_newlines_comments_and_strings() {
    let tokenizer = lex("a // note\nb\n\"two\nlines\" c\n// end");
    let lines: Vec<(String, usize)> =
        tokenizer.tokens.iter().map(|t| (t.lexeme.clone(), t.line)).collect();
    assert_eq!(
        lines,
        vec![
            (String::from("a"), 1),
            (String::from("b"), 2),
            (String::from("\"two\nlines\""), 3),
            (String::from("c"), 4),
            (String::new(), 5),
        ]
    );
    assert_eq!(tokenizer.line, 5);
    assert_eq!(tokenizer.current, "a // note\nb\n\"two\nlines\" c\n// end".chars().count());
}

#[test]
fn comment_runs_to_the_end_of_the_line() {
    assert_eq!(lexemes("1 // 2 3\n4"), vec!["1", "4", ""]);
    assert_eq!(lexemes("1 / 2"), vec!["1", "/", "2", ""]);
}

#[test]
fn lexemes_and_blanks_spell_the_text_again() {
    let source = "var x = 12.50; // c\n  print ( x ) ;\n";
    let tokenizer = lex(source);
    assert!(tokenizer.errors.is_empty());
    let chars: Vec<char> = source.chars().collect();
    let mut position = 0;
    let mut rebuilt = String::new();
    for token in &tokenizer.tokens {
        let lexeme: Vec<char> = token.lexeme.chars().collect();
        while chars[position..].len() >= lexeme.len()
            && (lexeme.is_empty() || chars[position..position + lexeme.len()] != lexeme[..])
        {
            if position == chars.len() {
                break;
            }
            rebuilt.push(chars[position]);
            position += 1;
        }
        rebuilt.push_str(&token.lexeme);
        position += lexeme.len();
    }
    assert_eq!(rebuilt, source);
}

#[test]
fn tokenizing_twice_goes_on_from_where_it_stopped() {
    let mut tokenizer = Tokenizer::new();
    assert!(tokenizer.tokenize("ab").is_ok());
    assert!(tokenizer.tokenize("abcd").is_ok());
    let lexemes: Vec<String> = tokenizer.tokens.iter().map(|t| t.lexeme.clone()).collect();
    assert_eq!(lexemes, vec!["ab", "", "cd", ""]);
}

#[test]
fn number_stops_on_its_last_character() {
    let mut tokenizer = Tokenizer::new();
    tokenizer.number(&vec!['1', '.']);
    assert_eq!(tokenizer.current, 0);
    assert_eq!(
        tokenizer.tokens,
        vec![Token {
            token_type: TokenType::Number,
            lexeme: String::from("1"),
            literal: Some(String::from("1.0")),
            line: 1
        }]
    );
    assert!(tokenizer.errors.is_empty());
    assert_eq!(tokenizer.line, 1);

    let mut tokenizer = Tokenizer::new();
    tokenizer.current = 1;
    tokenizer.number(&"a12.50+".chars().collect());
    assert_eq!(tokenizer.current, 5);
    assert_eq!(tokenizer.tokens[0].lexeme, "12.50");
    assert_eq!(tokenizer.tokens[0].literal, Some(String::from("12.5")));
}

#[test]
fn identifier_stops_on_its_last_character() {
    let mut tokenizer = Tokenizer::new();
    tokenizer.identifier(&"while(".chars().collect());
    assert_eq!(tokenizer.current, 4);
    assert_eq!(tokenizer.tokens[0].token_type, TokenType::While);
    let mut tokenizer = Tokenizer::new();
    tokenizer.identifier(&vec!['x']);
    assert_eq!(tokenizer.current, 0);
    assert_eq!(tokenizer.tokens[0].lexeme, "x");
    assert_eq!(tokenizer.peek_next(&vec!['x', 'y']), 'y');
    assert_eq!(tokenizer.peek_next(&vec!['x']), '\0');
}

#[test]
fn get_tokens_copies_the_tokens() {
    let tokenizer = lex("a 1");
    assert_eq!(tokenizer.get_tokens(), tokenizer.tokens);
}

#[test]
fn token_kind_names() {
    assert_eq!(TokenType::IDENTIfIER.to_string(), "IDENTIfIER");
    assert_eq!(TokenType::LeftParen.to_string(), "LeftParen");
    assert_eq!(TokenType::Await.to_string(), "Await");
}

#[test]
fn lexer_error_texts() {
    assert_eq!(TokenizerErrorKind::InvalidNumber(3).to_string(), "[line 3] Error: Invalid number.");
    assert_eq!(
        TokenizerErrorKind::InvalidIdentifier(10).to_string(),
        "[line 10] Error: Invalid identifier."
    );
    assert_eq!(TokenizerErrorKind::InvalidToken(0).to_string(), "[line 0] Error: Invalid token.");
    assert_eq!(
        TokenizerErrorKind::UnknownError(123).to_string(),
        "[line 123] Error: Unknown error."
    );
}
