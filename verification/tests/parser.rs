use alpha::error::{InterpreterError, ParserErrorKind};
use alpha::parser::{Expr, Parser};
use alpha::tokenizer::{Token, TokenType, Tokenizer};

fn tokens(source: &str) -> Vec<Token> {
    let mut tokenizer = Tokenizer::new();
    assert!(tokenizer.tokenize(source).is_ok());
    assert!(tokenizer.errors.is_empty());
    tokenizer.get_tokens()
}

fn parse(source: &str) -> Result<Vec<(Expr, usize)>, InterpreterError> {
    Parser::new(tokens(source)).parse()
}

fn rpn(source: &str) -> Vec<String> {
    match parse(source) {
        Ok(program) => program.iter().map(|(e, _)| e.to_rpn()).collect(),
        Err(error) => panic!("{}", error.to_string()),
    }
}

fn parser_error(source: &str) -> ParserErrorKind {
    match parse(source) {
        Ok(_) => panic!("parsed"),
        Err(InterpreterError::ParserError(kind)) => kind,
        Err(_) => panic!("not a parser error"),
    }
}

fn token(token_type: TokenType, lexeme: &str, literal: Option<&str>, line: usize) -> Token {
    Token {
        token_type,
        lexeme: String::from(lexeme),
        literal: literal.map(String::from),
        line,
    }
}

#[test]
fn product_binds_tighter_than_sum() {
    assert_eq!(rpn("1 + 2 * 3"), vec!["(+ 1.0 (* 2.0 3.0))"]);
    assert_eq!(rpn("1 * 2 + 3"), vec!["(+ (* 1.0 2.0) 3.0)"]);
    assert_eq!(rpn("8 / 4 % 3 - 1"), vec!["(- (% (/ 8.0 4.0) 3.0) 1.0)"]);
}

#[test]
fn comparison_is_lowest_and_logical_is_between() {
    assert_eq!(rpn("1 + 2 < 3 or true"), vec!["(< (+ 1.0 2.0) (or 3.0 true))"]);
    assert_eq!(rpn("a and b or c"), vec!["(or (and var a var b) var c)"]);
    assert_eq!(rpn("1 == 2 != 3"), vec!["(!= (== 1.0 2.0) 3.0)"]);
}

#[test]
fn unary_and_grouping() {
    assert_eq!(rpn("-(1 + 2) * !x"), vec!["(* (- (group (+ 1.0 2.0))) (! var x))"]);
    assert_eq!(rpn("- - 1"), vec!["(- (- 1.0))"]);
}

#[test]
fn statements_carry_the_line_of_the_token_behind_them() {
    let program = parse("var a = 1\nvar b\n\nb = a").unwrap();
    let lines: Vec<usize> = program.iter().map(|(_, line)| *line).collect();
    assert_eq!(lines, vec![2, 4, 4]);
    assert_eq!(rpn("var a = 1\nvar b\n\nb = a"), vec!["let a 1.0", "let b nil nil", "assign b var a"]);
}

#[test]
fn semicolon_is_an_empty_expression() {
    assert_eq!(rpn("1; ;"), vec!["1.0", "nil nil", "nil nil"]);
}

#[test]
fn identifier_forms() {
    assert_eq!(rpn("a[1]"), vec!["get var a 1.0"]);
    assert_eq!(rpn("o.x"), vec!["get var o x"]);
    assert_eq!(rpn("f(1, b)(2)"), vec!["call 2.0 "]);
    assert_eq!(rpn("new C(1, 2)"), vec!["call 1.0 2.0 "]);
    assert_eq!(
        rpn("a[1] = 2"),
        vec!["set Token { token_type: IDENTIfIER, lexeme: \"a\", literal: None, line: 1 } 1.0 2.0"]
    );
}

#[test]
fn member_forms_build_the_expected_trees() {
    let program = parse("o.x = 1").unwrap();
    let name = token(TokenType::IDENTIfIER, "o", None, 1);
    let key = Expr::Literal(token(TokenType::STRING, "x", Some("x"), 1), String::from("x"));
    let one = Expr::Literal(token(TokenType::Number, "1", Some("1.0"), 1), String::from("1.0"));
    assert_eq!(program[0].0, Expr::SetMember(name, Box::new(key), Box::new(one)));

    let program = parse("o.m(1)").unwrap();
    let one = Expr::Literal(token(TokenType::Number, "1", Some("1.0"), 1), String::from("1.0"));
    assert_eq!(
        program[0].0,
        Expr::Call(
            Some(Box::new(Expr::Variable(token(TokenType::IDENTIfIER, "o", None, 1)))),
            Box::new(Expr::Variable(token(TokenType::IDENTIfIER, "m", None, 1))),
            vec![one]
        )
    );
}

#[test]
fn control_forms() {
    assert_eq!(rpn("if (a) b else c"), vec!["if var a var b var c"]);
    assert_eq!(rpn("if (a) b; else if (c) d"), vec!["if var a var b if var c var d nil nil"]);
    assert_eq!(rpn("if (a) b; c"), vec!["if var a var b nil nil", "var c"]);
    assert_eq!(rpn("while (a) { b }"), vec!["while var a block var b "]);
    assert_eq!(
        rpn("for (var i = 0; i < 3; i = i + 1) i"),
        vec!["for let i 0.0 (< var i 3.0) assign i (+ var i 1.0) var i"]
    );
    assert_eq!(rpn("for (;;) 1"), vec!["for nil nil true nil nil 1.0"]);
    assert_eq!(rpn("return 1"), vec!["return return 1.0"]);
    assert_eq!(rpn("return ;"), vec!["return return nil nil", "nil nil"]);
    assert_eq!(rpn("import \"m\""), vec!["import m"]);
}

#[test]
fn declarations() {
    assert_eq!(rpn("fun f(a, b) { a }"), vec!["func f a b block var a "]);
    assert_eq!(rpn("fun f() { }"), vec!["func f block "]);
    assert_eq!(
        rpn("class C { m(x) { x } fun n() { } }"),
        vec!["class C func m x block var x  func n block  "]
    );
    assert_eq!(rpn("[1, [2]]"), vec!["array 1.0 array 2.0  "]);
}

#[test]
fn forms_without_prefix_text() {
    assert_eq!(rpn("async fun g() { }"), vec!["unknown"]);
    assert_eq!(rpn("await g()"), vec!["unknown"]);
    assert_eq!(rpn("try { } catch (e) { }"), vec!["unknown"]);
    assert_eq!(rpn("dict { \"a\": 1 }"), vec!["unknown"]);
}

#[test]
fn async_await_try_and_dictionary_trees() {
    let program = parse("try { 1 } catch (e) { 2 }").unwrap();
    match &program[0].0 {
        Expr::TryCatch(handler) => {
            assert_eq!(handler.catch_param, "e");
            assert_eq!(handler.try_block.to_rpn(), "block 1.0 ");
            assert_eq!(handler.catch_block.to_rpn(), "block 2.0 ");
        }
        _ => panic!("not a try"),
    }
    let program = parse("dict { \"a\": 1, \"b\": 2 }").unwrap();
    match &program[0].0 {
        Expr::Dictionary(entries) => {
            let texts: Vec<(String, String)> =
                entries.iter().map(|(k, v)| (k.to_rpn(), v.to_rpn())).collect();
            assert_eq!(
                texts,
                vec![
                    (String::from("a"), String::from("1.0")),
                    (String::from("b"), String::from("2.0"))
                ]
            );
        }
        _ => panic!("not a dictionary"),
    }
    let program = parse("async fun g(a) { await a }").unwrap();
    match &program[0].0 {
        Expr::AsyncFunction(name, params, body) => {
            assert_eq!(name.lexeme, "g");
            assert_eq!(params.len(), 1);
            match &**body {
                Expr::Block(items) => assert!(matches!(items[0], Expr::Await(_))),
                _ => panic!("not a block"),
            }
        }
        _ => panic!("not an async function"),
    }
}

#[test]
fn missing_terminator_names_the_offending_lexeme_and_its_line() {
    assert_eq!(parser_error("( 1 ]"), ParserErrorKind::ExpectExpression(String::from("]"), 1));
    assert_eq!(
        parser_error("(1 + 2\n;"),
        ParserErrorKind::ExpectExpression(String::from(";"), 2)
    );
    assert_eq!(parser_error("a[1"), ParserErrorKind::ExpectExpression(String::new(), 1));
    assert_eq!(parser_error("{ 1"), ParserErrorKind::ExpectExpression(String::new(), 1));
    assert_eq!(
        parser_error("dict { \"a\" 1 }"),
        ParserErrorKind::ExpectExpression(String::from("1"), 1)
    );
    assert_eq!(
        parser_error("\n\nvar 1"),
        ParserErrorKind::ExpectExpression(String::from("1"), 3)
    );
    assert_eq!(
        parser_error("try { } catch (1) { }"),
        ParserErrorKind::ExpectExpression(String::from("1"), 1)
    );
}

#[test]
fn entry_that_is_one_too_many_gives_its_line() {
    let names: Vec<String> = (0..256).map(|i| format!("p{}", i)).collect();
    let source = format!("fun f(\n{}\n,\n\nlast) {{ }}", names[..255].join(", "));
    assert_eq!(parser_error(&source), ParserErrorKind::InvalidParametsCount(5));
    let source = format!("f(\n{}\n,\n\n1)", names[..255].join(", "));
    assert_eq!(parser_error(&source), ParserErrorKind::InvalidParametsCount(5));
}

#[test]
fn token_that_starts_no_expression() {
    assert_eq!(parser_error("1 +\n )"), ParserErrorKind::ExpectExpression(String::from(")"), 2));
    assert_eq!(parser_error("x = }"), ParserErrorKind::ExpectExpression(String::from("}"), 1));
    assert_eq!(
        parser_error("1 +").to_string(),
        "[line 1] Error at '': Expected expression."
    );
}

#[test]
fn more_than_255_parameters_or_arguments() {
    let names: Vec<String> = (0..256).map(|i| format!("p{}", i)).collect();
    let source = format!("fun f({}) {{ }}", names.join(", "));
    assert_eq!(parser_error(&source), ParserErrorKind::InvalidParametsCount(1));
    let source = format!("f({})", names.join(", "));
    assert_eq!(parser_error(&source), ParserErrorKind::InvalidParametsCount(1));
    let source = format!("fun f({}) {{ }}", names[..255].join(", "));
    assert!(parse(&source).is_ok());
    assert_eq!(
        ParserErrorKind::InvalidParametsCount(1).to_string(),
        "[line 1] Error: Cannot have more than 255 parameters."
    );
}

#[test]
fn import_needs_a_string_with_payload() {
    let stream = vec![
        token(TokenType::Import, "import", None, 1),
        token(TokenType::STRING, "\"m\"", None, 2),
        token(TokenType::Eof, "", None, 3),
    ];
    match Parser::new(stream).parse() {
        Err(InterpreterError::ParserError(kind)) => {
            assert_eq!(kind, ParserErrorKind::InvalidImport(2))
        }
        _ => panic!("no parser error"),
    }
    assert_eq!(parser_error("import\n7"), ParserErrorKind::ExpectExpression(String::from("7"), 2));
}

#[test]
fn stream_without_eof_is_refused() {
    match Parser::new(Vec::new()).parse() {
        Err(InterpreterError::ParserError(kind)) => {
            assert_eq!(kind, ParserErrorKind::UnexpectedEOF(0))
        }
        _ => panic!("no parser error"),
    }
    let stream = vec![token(TokenType::IDENTIfIER, "a", None, 3)];
    match Parser::new(stream).parse() {
        Err(InterpreterError::ParserError(kind)) => {
            assert_eq!(kind, ParserErrorKind::UnexpectedEOF(3));
            assert_eq!(kind.to_string(), "[line 3] Error: Unexpected end of file.");
        }
        _ => panic!("no parser error"),
    }
}

#[test]
fn parser_error_texts() {
    assert_eq!(
        ParserErrorKind::ExpectedSemilicon(1).to_string(),
        "[line 1] Error: Expect semilicon after value."
    );
    assert_eq!(
        ParserErrorKind::UnexpectedToken(2, TokenType::Comma).to_string(),
        "[line 2] Error: Expected token Comma."
    );
    assert_eq!(
        ParserErrorKind::InvalidAssignmentTarget(3).to_string(),
        "[line 3] Error: Invalid assignment target."
    );
    assert_eq!(
        ParserErrorKind::InvalidExpression(4).to_string(),
        "[line 4] Error: Invalid expression."
    );
    assert_eq!(
        ParserErrorKind::InvalidStatement(5).to_string(),
        "[line 5] Error: Invalid statement."
    );
    assert_eq!(ParserErrorKind::UnknownError(6).to_string(), "[line 6] Error: Unknown error.");
    assert_eq!(
        ParserErrorKind::ExpectedUnary(7).to_string(),
        "[line 7] Error: Expected unary operator."
    );
    assert_eq!(ParserErrorKind::InvalidImport(8).to_string(), "[line 8] Error: Invalid import.");
}

#[test]
fn prefix_text_shows_the_token_as_its_debug_form() {
    for (lexeme, literal, line) in [
        ("a", None, 1usize),
        ("tab\there", Some("q\"uote\\ é \u{7f}"), 40),
        ("", Some(""), 0),
    ] {
        let shown = format!("{:?}", token(TokenType::STRING, lexeme, literal, line));
        let expr = Expr::SetMember(
            token(TokenType::STRING, lexeme, literal, line),
            Box::new(Expr::Nil),
            Box::new(Expr::Nil),
        );
        assert_eq!(expr.to_rpn(), format!("set {} nil nil nil nil", shown));
    }
}

#[test]
fn prefix_text_quotes_the_token_of_a_member_write() {
    let target = token(TokenType::IDENTIfIER, "a\"b", Some("x\ny"), 12);
    let expr = Expr::SetMember(target, Box::new(Expr::Nil), Box::new(Expr::Nil));
    assert_eq!(
        expr.to_rpn(),
        "set Token { token_type: IDENTIfIER, lexeme: \"a\\\"b\", literal: Some(\"x\\ny\"), line: 12 } nil nil nil nil"
    );
}

#[test]
fn parser_errors_carry_the_line_of_a_token() {
    let cases = [
        ("var x = (1 +\n2\n", 3usize),
        ("fun f(a,\n)\n{ }", 2),
        ("class\n\n7", 3),
        ("if (a)\n b else\n\n\n", 5),
        ("try { }\ncatch e { }", 2),
        ("for (var i = 0\n i < 1; ) 1", 2),
        ("new C(1\n", 2),
    ];
    for (source, line) in cases {
        let stream = tokens(source);
        let lines: Vec<usize> = stream.iter().map(|t| t.line).collect();
        match Parser::new(stream).parse() {
            Err(InterpreterError::ParserError(ParserErrorKind::ExpectExpression(_, at))) => {
                assert_eq!(at, line, "{}", source);
                assert!(lines.contains(&at));
            }
            _ => panic!("no error for {}", source),
        }
    }
}

#[test]
fn parser_can_be_asked_whether_it_can_read() {
    assert!(Parser::new(tokens("1")).ready());
    assert!(!Parser::new(Vec::new()).ready());
    let mut parser = Parser::new(tokens("a b"));
    assert_eq!(parser.peek().lexeme, "a");
    assert!(!parser.is_at_end());
    assert!(parser.check(TokenType::IDENTIfIER));
    assert!(!parser.check(TokenType::Eof));
    assert!(parser.match_tokens(vec![TokenType::Number, TokenType::IDENTIfIER]));
    assert_eq!(parser.previous().lexeme, "a");
    assert!(!parser.match_token(TokenType::Number));
    assert_eq!(parser.advance().lexeme, "b");
    assert!(parser.is_at_end());
    assert_eq!(parser.advance().lexeme, "b");
    assert!(!parser.match_tokens(vec![TokenType::Eof]));
}
